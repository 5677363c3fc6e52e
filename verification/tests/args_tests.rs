use erlangrt::command_line_args::{ErlStartArgs, NodeName};
use erlangrt::erl_args::{add_script_start, configure_ct, CtMode, CtStartArgs, ErlArgs};

fn strings(v: &[&str]) -> Vec<String> {
    v.iter().map(|s| s.to_string()).collect()
}

fn node(a: &ErlStartArgs) -> (bool, String) {
    match &a.node {
        NodeName::Short(s) => (true, s.clone()),
        NodeName::Full(s) => (false, s.clone()),
    }
}

#[test]
fn new_args_defaults() {
    let a = ErlStartArgs::new(&strings(&["erl", "-x"]));
    assert_eq!(a.command_line, strings(&["erl", "-x"]));
    assert_eq!(node(&a), (true, "nonode@nohost".to_string()));
    assert!(a.other_args.is_empty());
    assert!(a.start.is_empty());
    assert!(a.search_path.is_empty());
}

#[test]
fn node_name_options() {
    let mut a = ErlStartArgs::new(&vec![]);
    a.add_arg2("-name", "n1@host");
    assert_eq!(node(&a), (false, "n1@host".to_string()));
    a.add_arg2("-sname", "ct");
    assert_eq!(node(&a), (true, "ct".to_string()));
    assert!(a.other_args.is_empty());
}

#[test]
fn unknown_options_are_kept_in_order() {
    let mut a = ErlStartArgs::new(&vec![]);
    a.populate_with(&strings(&["-noshell", "-pa", "ebin"]));
    a.add_arg1("-x");
    a.parse_arg(&["-y", "ignored"]);
    assert_eq!(a.other_args, strings(&["-noshell", "-pa", "ebin", "-x", "-y"]));
    assert_eq!(node(&a), (true, "nonode@nohost".to_string()));
}

#[test]
fn set_node_name_keeps_mode() {
    let mut a = ErlStartArgs::new(&vec![]);
    a.add_arg2("-name", "a@b");
    a.set_node_name("c@d");
    assert_eq!(node(&a), (false, "c@d".to_string()));
    let mut b = ErlStartArgs::new(&vec![]);
    b.set_node_name("zz");
    assert_eq!(node(&b), (true, "zz".to_string()));
}

#[test]
fn add_start_entries() {
    let mut a = ErlStartArgs::new(&vec![]);
    a.add_start(&["m", "f", "x"]);
    add_script_start(&mut a);
    assert_eq!(a.start, vec![strings(&["m", "f", "x"]), strings(&["-s", "ct_run", "script_start"])]);
}

#[test]
fn launcher_args_start_empty() {
    let a = ErlArgs::new();
    assert!(a.dict.is_empty());
    let c = CtStartArgs::new();
    assert_eq!(c.ct_mode, CtMode::Normal);
    assert!(c.browser.is_empty());
}

#[test]
fn ct_normal_mode() {
    let args = strings(&["ct_run", "-dir", "."]);
    let mut e = ErlStartArgs::new(&args);
    let c = configure_ct(&args, &mut e);
    assert_eq!(c.ct_mode, CtMode::Normal);
    assert_eq!(e.start, vec![strings(&["-s", "ct_run", "script_start"]), strings(&["-s", "erlang", "halt"])]);
    assert_eq!(e.search_path, strings(&["priv/", "../otp/erts/preloaded/ebin/", "../otp/lib/stdlib/ebin/"]));
}

#[test]
fn ct_vts_with_browser() {
    let args = strings(&["ct_run", "-vts", "-browser", "firefox"]);
    let mut e = ErlStartArgs::new(&args);
    let c = configure_ct(&args, &mut e);
    assert_eq!(c.ct_mode, CtMode::Vts);
    assert_eq!(c.browser, "firefox");
    assert_eq!(
        e.start,
        vec![strings(&["ct_webtool", "script_start", "vts", "firefox"]), strings(&["-s", "ct_run", "script_start"])]
    );
}

#[test]
fn ct_vts_without_browser() {
    let args = strings(&["-vts"]);
    let mut e = ErlStartArgs::new(&args);
    configure_ct(&args, &mut e);
    assert_eq!(e.start, vec![strings(&["ct_webtool", "script_start", "vts"]), strings(&["-s", "ct_run", "script_start"])]);
}

#[test]
fn ct_shell_and_master_and_name() {
    let args = strings(&["-shell"]);
    let mut e = ErlStartArgs::new(&args);
    assert_eq!(configure_ct(&args, &mut e).ct_mode, CtMode::CtShell);
    assert_eq!(e.start, vec![strings(&["-s", "ct_run", "script_start"])]);

    let args = strings(&["-ctmaster"]);
    let mut e = ErlStartArgs::new(&args);
    e.add_arg2("-name", "x@y");
    assert_eq!(configure_ct(&args, &mut e).ct_mode, CtMode::Master);
    assert_eq!(node(&e), (false, "ct_master".to_string()));
    assert!(e.start.is_empty());

    let args = strings(&["-ctname", "tester"]);
    let mut e = ErlStartArgs::new(&args);
    assert_eq!(configure_ct(&args, &mut e).ct_mode, CtMode::ErlShell);
    assert_eq!(node(&e), (true, "tester".to_string()));
}

#[test]
fn ct_options_after_erl_args_are_not_read() {
    let args = strings(&["-dir", "x", "-erl_args", "-vts", "-shell"]);
    let mut e = ErlStartArgs::new(&args);
    assert_eq!(configure_ct(&args, &mut e).ct_mode, CtMode::Normal);
}

#[test]
fn command_line_as_erlang_list() {
    let mut a = ErlStartArgs::new(&strings(&["ab", "ł"]));
    let t = a.get_command_line_list().unwrap();
    let outer = a.arg_heap.list_to_vec(t).unwrap();
    assert_eq!(outer.len(), 2);
    let s0 = a.arg_heap.list_to_vec(outer[0]).unwrap();
    assert_eq!(s0, vec![erlangrt::term::Term::Small(97), erlangrt::term::Term::Small(98)]);
    let s1 = a.arg_heap.list_to_vec(outer[1]).unwrap();
    assert_eq!(s1, vec![erlangrt::term::Term::Small(0x142)]);
    // built once, then kept
    let n = a.arg_heap.objects.len();
    assert_eq!(a.get_command_line_list().unwrap(), t);
    assert_eq!(a.arg_heap.objects.len(), n);
}

#[test]
fn populate_takes_the_node_parameter() {
    let mut a = ErlStartArgs::new(&vec![]);
    a.populate_with(&strings(&["-sname", "foo"]));
    assert_eq!(node(&a), (true, "foo".to_string()));
    assert!(a.other_args.is_empty());
    a.populate_with(&strings(&["-x", "-name", "a@b", "-y"]));
    assert_eq!(node(&a), (false, "a@b".to_string()));
    assert_eq!(a.other_args, strings(&["-x", "-y"]));
}
