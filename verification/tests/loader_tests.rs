use erlangrt::atom_table::AtomTable;
use erlangrt::loader::load_module;
use erlangrt::module::{CodeServer, CodeWord, FunArity, FunLoc};
use erlangrt::term::Term;

fn be32(v: u32) -> Vec<u8> {
    v.to_be_bytes().to_vec()
}

fn chunk(name: &[u8], body: &[u8]) -> Vec<u8> {
    let mut c = name.to_vec();
    c.extend(be32(body.len() as u32));
    c.extend_from_slice(body);
    while c.len() % 4 != 0 {
        c.push(0);
    }
    c
}

fn beam(chunks: &[Vec<u8>]) -> Vec<u8> {
    let mut body = b"BEAM".to_vec();
    for c in chunks {
        body.extend_from_slice(c);
    }
    let mut f = b"FOR1".to_vec();
    f.extend(be32(body.len() as u32));
    f.extend(body);
    f
}

fn atoms_chunk(atoms: &[&[u8]]) -> Vec<u8> {
    let mut body = be32(atoms.len() as u32);
    for a in atoms {
        body.push(a.len() as u8);
        body.extend_from_slice(a);
    }
    chunk(b"AtU8", &body)
}

fn code_chunk(code: &[u8]) -> Vec<u8> {
    let mut body = Vec::new();
    for v in [16u32, 0, 150, 3, 1] {
        body.extend(be32(v));
    }
    body.extend_from_slice(code);
    chunk(b"Code", &body)
}

#[test]
fn load_a_small_module() {
    // label 1; func_info mymod go 0; label 2; return; int_code_end
    let code = [0x01, 0x10, 0x02, 0x12, 0x22, 0x00, 0x01, 0x20, 0x13, 0x03];
    let data = beam(&[atoms_chunk(&[b"mymod", b"go"]), code_chunk(&code)]);
    let mut atoms = AtomTable::with_predefined();
    let n = atoms.len();
    let mut cs = CodeServer::new();
    let m = load_module(&mut atoms, &mut cs, data).unwrap();
    let mymod = Term::Atom(n);
    let go = Term::Atom(n + 1);
    assert_eq!(atoms.find(b"mymod"), Some(n));
    assert_eq!(m.name.module, mymod);
    assert_eq!(m.name.version, cs.last_version);
    assert_eq!(
        m.code,
        vec![
            CodeWord::Opcode(2),
            CodeWord::Value(mymod),
            CodeWord::Value(go),
            CodeWord::Value(Term::Small(0)),
            CodeWord::Opcode(19),
            CodeWord::Opcode(3)
        ]
    );
    assert_eq!(m.funs, vec![FunLoc { fa: FunArity { f: go, arity: 0 }, offset: 4 }]);
    let idx = cs.add_module(m);
    assert_eq!(cs.lookup_mfa(mymod, go, 0), Some((idx, 4)));
    assert_eq!(cs.lookup_mfa(mymod, go, 1), None);
}

#[test]
fn label_arguments_become_code_locations() {
    // label 1; func_info mymod go 0; label 2; jump label 2; int_code_end
    let code = [0x01, 0x10, 0x02, 0x12, 0x22, 0x00, 0x01, 0x20, 61, 0x25, 0x03];
    let data = beam(&[atoms_chunk(&[b"mymod", b"go"]), code_chunk(&code)]);
    let mut atoms = AtomTable::with_predefined();
    let mut cs = CodeServer::new();
    let m = load_module(&mut atoms, &mut cs, data).unwrap();
    assert_eq!(m.code[4], CodeWord::Opcode(61));
    assert_eq!(m.code[5], CodeWord::Value(Term::Cp(4)));
}

#[test]
fn module_without_atoms_is_refused() {
    let data = beam(&[code_chunk(&[0x03])]);
    let mut atoms = AtomTable::new();
    let mut cs = CodeServer::new();
    assert!(load_module(&mut atoms, &mut cs, data).is_err());
}

#[test]
fn unknown_label_is_refused() {
    // jump to label 7, which the code never defines
    let code = [0x01, 0x10, 61, 0x75, 0x03];
    let data = beam(&[atoms_chunk(&[b"m"]), code_chunk(&code)]);
    let mut atoms = AtomTable::new();
    let mut cs = CodeServer::new();
    assert!(load_module(&mut atoms, &mut cs, data).is_err());
}

#[test]
fn next_version_counts_up() {
    let mut cs = CodeServer::new();
    assert_eq!(cs.next_module_version(Term::Nil), 1);
    assert_eq!(cs.next_module_version(Term::Nil), 2);
}

#[test]
fn label_with_a_bad_argument_is_refused() {
    // a label whose argument is an atom
    let data = beam(&[atoms_chunk(&[b"m"]), code_chunk(&[0x01, 0x12, 0x03])]);
    let mut atoms = AtomTable::new();
    let mut cs = CodeServer::new();
    match load_module(&mut atoms, &mut cs, data) {
        Err(erlangrt::fail::RtErr::CodeLoadingFailed(msg)) => assert!(msg.contains("Opcode 1")),
        _ => panic!("expected a loading error"),
    }
}

#[test]
fn loading_a_module_twice_adds_no_atom() {
    let code = [0x01, 0x10, 0x02, 0x12, 0x22, 0x00, 0x01, 0x20, 0x13, 0x03];
    let data = beam(&[atoms_chunk(&[b"mymod", b"go"]), code_chunk(&code)]);
    let mut atoms = AtomTable::with_predefined();
    let mut cs = CodeServer::new();
    let first = load_module(&mut atoms, &mut cs, data.clone()).unwrap();
    let n = atoms.len();
    let second = load_module(&mut atoms, &mut cs, data).unwrap();
    assert_eq!(atoms.len(), n);
    assert_eq!(first.name.version, 1);
    assert_eq!(second.name.version, 2);
    assert_eq!(first.code, second.code);
}

#[test]
fn failed_decode_leaves_table_and_versions() {
    let mut atoms = AtomTable::with_predefined();
    let n = atoms.len();
    let mut cs = CodeServer::new();
    assert!(load_module(&mut atoms, &mut cs, b"FOR1".to_vec()).is_err());
    assert_eq!(atoms.len(), n);
    assert_eq!(cs.last_version, 0);
}
