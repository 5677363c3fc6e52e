//! Arguments of the `erl` launcher, and of the common test runner.
use vstd::prelude::*;
use std::collections::HashMap;
use crate::command_line_args::{node_chars, str_is, strs, strs_of, ErlStartArgs, NodeName};

verus! {

/// Launcher arguments: each option with its parameters.
pub struct ErlArgs {
    pub dict: HashMap<String, Vec<String>>,
}

impl ErlArgs {
    /// No options.
    pub fn new() -> (r: ErlArgs)
        ensures
            r.dict@ == Map::<String, Vec<String>>::empty(),
    {
        ErlArgs { dict: HashMap::new() }
    }
}

/// How the common test runner runs.
#[derive(Clone, Copy, PartialEq, Eq, Structural, Debug)]
pub enum CtMode {
    Normal,
    Vts,
    CtShell,
    Master,
    ErlShell,
}

/// Options of the common test runner.
pub struct CtStartArgs {
    pub ct_mode: CtMode,
    pub browser: String,
}

impl CtStartArgs {
    /// Normal mode, no browser.
    pub fn new() -> (r: CtStartArgs)
        ensures
            r.ct_mode == CtMode::Normal,
            r.browser@ == Seq::<char>::empty(),
    {
        CtStartArgs { ct_mode: CtMode::Normal, browser: String::new() }
    }
}

/// The options before the first `-erl_args` (all of them when there is
/// none): those are the runner's own.
pub open spec fn before_erl_args(a: Seq<Seq<char>>) -> Seq<Seq<char>>
    decreases a.len(),
{
    if a.len() == 0 || a[0] == "-erl_args"@ {
        Seq::empty()
    } else {
        seq![a[0]] + before_erl_args(a.drop_first())
    }
}

/// Whether each `-browser` and `-ctname` among `a` has its parameter after
/// it.
pub open spec fn ct_options_ok(a: Seq<Seq<char>>) -> bool
    decreases a.len(),
{
    if a.len() == 0 {
        true
    } else if a[0] == "-browser"@ || a[0] == "-ctname"@ {
        a.len() >= 2 && ct_options_ok(a.skip(2))
    } else {
        ct_options_ok(a.drop_first())
    }
}

/// The runner's state after reading the options `a`, from the state `st`:
/// the mode, the browser, and the node name to set, if any.
pub open spec fn ct_scan(a: Seq<Seq<char>>, st: (CtMode, Seq<char>, Option<Seq<char>>)) -> (CtMode, Seq<char>, Option<Seq<char>>)
    decreases a.len(),
{
    if a.len() == 0 {
        st
    } else if a[0] == "-vts"@ {
        ct_scan(a.drop_first(), (CtMode::Vts, st.1, st.2))
    } else if a[0] == "-browser"@ {
        if a.len() < 2 { st } else { ct_scan(a.skip(2), (st.0, a[1], st.2)) }
    } else if a[0] == "-shell"@ {
        ct_scan(a.drop_first(), (CtMode::CtShell, st.1, st.2))
    } else if a[0] == "-ctmaster"@ {
        ct_scan(a.drop_first(), (CtMode::Master, st.1, Some("ct_master"@)))
    } else if a[0] == "-ctname"@ {
        if a.len() < 2 { st } else { ct_scan(a.skip(2), (CtMode::ErlShell, st.1, Some(a[1]))) }
    } else {
        ct_scan(a.drop_first(), st)
    }
}

/// The start entries that a mode adds, given the browser.
pub open spec fn ct_starts(mode: CtMode, browser: Seq<char>) -> Seq<Seq<Seq<char>>> {
    let script = seq!["-s"@, "ct_run"@, "script_start"@];
    match mode {
        CtMode::Vts => if browser.len() == 0 {
            seq![seq!["ct_webtool"@, "script_start"@, "vts"@], script]
        } else {
            seq![seq!["ct_webtool"@, "script_start"@, "vts"@, browser], script]
        },
        CtMode::CtShell => seq![script],
        CtMode::Normal => seq![script, seq!["-s"@, "erlang"@, "halt"@]],
        _ => Seq::empty(),
    }
}

/// The start entries, each as its strings' characters.
pub open spec fn start_strs(v: Seq<Vec<String>>) -> Seq<Seq<Seq<char>>> {
    v.map_values(|e: Vec<String>| strs(e@))
}

/// Add the start of the common test script.
pub fn add_script_start(args: &mut ErlStartArgs)
    ensures
        start_strs(final(args).start@) == start_strs(old(args).start@).push(seq!["-s"@, "ct_run"@, "script_start"@]),
        final(args).node == old(args).node,
        strs(final(args).other_args@) == strs(old(args).other_args@),
        strs(final(args).command_line@) == strs(old(args).command_line@),
        strs(final(args).search_path@) == strs(old(args).search_path@),
{
    let a: [&str; 3] = ["-s", "ct_run", "script_start"];
    let ghost s0 = args.start@;
    args.add_start(&a);
    proof {
        assert(strs_of(a@) =~= seq!["-s"@, "ct_run"@, "script_start"@]);
        assert(args.start@ =~= s0.push(args.start@.last()));
        assert(start_strs(args.start@) =~= start_strs(s0).push(strs(args.start@.last()@)));
    }
}

/// The options before `-erl_args` are the first `k` ones followed by those
/// before `-erl_args` in the rest, when none of the first `k` is
/// `-erl_args`.
proof fn lemma_before_erl_args(a: Seq<Seq<char>>, k: int)
    requires
        0 <= k <= a.len(),
        forall|j: int| 0 <= j < k ==> a[j] != "-erl_args"@,
    ensures
        before_erl_args(a) == a.take(k) + before_erl_args(a.skip(k)),
    decreases k,
{
    if k > 0 {
        lemma_before_erl_args(a.drop_first(), k - 1);
        assert(a.drop_first().take(k - 1) =~= a.take(k).drop_first());
        assert(a.drop_first().skip(k - 1) =~= a.skip(k));
        assert(a.take(k) =~= seq![a[0]] + a.take(k).drop_first());
    } else {
        assert(a.take(0) =~= Seq::<Seq<char>>::empty());
        assert(a.skip(0) =~= a);
    }
}

/// Read the common test runner's options, those before the first
/// `-erl_args`: `-vts`, `-browser B`, `-shell`, `-ctmaster` (node name
/// `ct_master`) and `-ctname N` (node name `N`). Set the node name, keeping
/// its mode; add the start entries of the mode; set the code search path.
pub fn configure_ct(in_args: &[String], erl_args: &mut ErlStartArgs) -> (r: CtStartArgs)
    requires
        ct_options_ok(before_erl_args(strs(in_args@))),
    ensures
        ({
            let sc = ct_scan(before_erl_args(strs(in_args@)), (CtMode::Normal, Seq::empty(), None));
            &&& r.ct_mode == sc.0
            &&& r.browser@ == sc.1
            &&& match sc.2 {
                Some(n) => node_chars(final(erl_args).node) == n && (final(erl_args).node is Short) == (old(erl_args).node is Short),
                None => final(erl_args).node == old(erl_args).node,
            }
            &&& start_strs(final(erl_args).start@) == start_strs(old(erl_args).start@) + ct_starts(sc.0, sc.1)
        }),
        strs(final(erl_args).search_path@) == seq!["priv/"@, "../otp/erts/preloaded/ebin/"@, "../otp/lib/stdlib/ebin/"@],
        strs(final(erl_args).other_args@) == strs(old(erl_args).other_args@),
        strs(final(erl_args).command_line@) == strs(old(erl_args).command_line@),
{
    let ghost a = strs(in_args@);
    let n = in_args.len();
    let mut end: usize = 0;
    while end < n
        invariant
            n == in_args@.len(),
            a == strs(in_args@),
            end <= n,
            forall|j: int| 0 <= j < end ==> a[j] != "-erl_args"@,
        ensures
            end <= n,
            forall|j: int| 0 <= j < end ==> a[j] != "-erl_args"@,
            end == n || a[end as int] == "-erl_args"@,
        decreases n - end,
    {
        if str_is(in_args[end].as_str(), "-erl_args") {
            break;
        }
        end = end + 1;
    }
    let ghost b = a.take(end as int);
    proof {
        lemma_before_erl_args(a, end as int);
        if end < n {
            assert(a.skip(end as int)[0] == a[end as int]);
        }
        assert(before_erl_args(a.skip(end as int)) =~= Seq::<Seq<char>>::empty());
        assert(before_erl_args(a) =~= b);
        assert(b.skip(0) =~= b);
    }
    let mut mode = CtMode::Normal;
    let mut browser = String::new();
    let ghost mut name: Option<Seq<char>> = None;
    let ghost node0 = erl_args.node;
    let ghost start0 = erl_args.start@;
    let ghost other0 = strs(erl_args.other_args@);
    let ghost line0 = strs(erl_args.command_line@);
    let ghost path0 = strs(erl_args.search_path@);
    let mut i: usize = 0;
    while i < end
        invariant
            n == in_args@.len(),
            a == strs(in_args@),
            end <= n,
            b == a.take(end as int),
            i <= end,
            ct_options_ok(b.skip(i as int)),
            ct_scan(b, (CtMode::Normal, Seq::empty(), None)) == ct_scan(b.skip(i as int), (mode, browser@, name)),
            match name {
                Some(nm) => node_chars(erl_args.node) == nm && (erl_args.node is Short) == (node0 is Short),
                None => erl_args.node == node0,
            },
            erl_args.start@ == start0,
            strs(erl_args.other_args@) == other0,
            strs(erl_args.command_line@) == line0,
            strs(erl_args.search_path@) == path0,
        decreases end - i,
    {
        let ghost rest = b.skip(i as int);
        proof {
            reveal_strlit("-vts");
            reveal_strlit("-browser");
            reveal_strlit("-shell");
            reveal_strlit("-ctmaster");
            reveal_strlit("-ctname");
        }
        assert(rest[0] == a[i as int]);
        assert(rest.drop_first() =~= b.skip(i as int + 1));
        let arg = in_args[i].as_str();
        if str_is(arg, "-vts") {
            mode = CtMode::Vts;
            i = i + 1;
        } else if str_is(arg, "-browser") {
            assert(rest.len() >= 2);
            assert(rest[1] == a[i + 1]);
            assert(rest.skip(2) =~= b.skip(i as int + 2));
            browser = in_args[i + 1].clone();
            i = i + 2;
        } else if str_is(arg, "-shell") {
            mode = CtMode::CtShell;
            i = i + 1;
        } else if str_is(arg, "-ctmaster") {
            erl_args.set_node_name("ct_master");
            proof { name = Some("ct_master"@); }
            mode = CtMode::Master;
            i = i + 1;
        } else if str_is(arg, "-ctname") {
            assert(rest.len() >= 2);
            assert(rest[1] == a[i + 1]);
            assert(rest.skip(2) =~= b.skip(i as int + 2));
            erl_args.set_node_name(in_args[i + 1].as_str());
            proof { name = Some(a[i + 1]); }
            mode = CtMode::ErlShell;
            i = i + 2;
        } else {
            i = i + 1;
        }
    }
    proof {
        assert(b.skip(end as int) =~= Seq::<Seq<char>>::empty());
    }
    let ghost s1 = erl_args.start@;
    match mode {
        CtMode::Vts => {
            if browser.as_str().is_empty() {
                let e: [&str; 3] = ["ct_webtool", "script_start", "vts"];
                erl_args.add_start(&e);
                assert(strs_of(e@) =~= seq!["ct_webtool"@, "script_start"@, "vts"@]);
            } else {
                let e: [&str; 4] = ["ct_webtool", "script_start", "vts", browser.as_str()];
                erl_args.add_start(&e);
                assert(strs_of(e@) =~= seq!["ct_webtool"@, "script_start"@, "vts"@, browser@]);
            }
            let ghost s2 = erl_args.start@;
            assert(s2 =~= s1.push(s2.last()));
            add_script_start(erl_args);
            assert(start_strs(s2) =~= start_strs(s1).push(strs(s2.last()@)));
        },
        CtMode::CtShell => {
            add_script_start(erl_args);
        },
        CtMode::Normal => {
            add_script_start(erl_args);
            let ghost s2 = erl_args.start@;
            let e: [&str; 3] = ["-s", "erlang", "halt"];
            erl_args.add_start(&e);
            assert(strs_of(e@) =~= seq!["-s"@, "erlang"@, "halt"@]);
            assert(erl_args.start@ =~= s2.push(erl_args.start@.last()));
            assert(start_strs(erl_args.start@) =~= start_strs(s2).push(strs(erl_args.start@.last()@)));
        },
        _ => {},
    }
    assert(start_strs(erl_args.start@) =~= start_strs(s1) + ct_starts(mode, browser@));
    let mut path: Vec<String> = Vec::new();
    path.push("priv/".to_string());
    path.push("../otp/erts/preloaded/ebin/".to_string());
    path.push("../otp/lib/stdlib/ebin/".to_string());
    assert(strs(path@) =~= seq!["priv/"@, "../otp/erts/preloaded/ebin/"@, "../otp/lib/stdlib/ebin/"@]);
    erl_args.search_path = path;
    CtStartArgs { ct_mode: mode, browser }
}

} // verus!
