use erlangrt::beam_file::BeamFile;
use erlangrt::fail::{ReadError, RtErr};
use erlangrt::term::Term;

fn be32(v: u32) -> Vec<u8> {
    v.to_be_bytes().to_vec()
}

fn chunk(name: &[u8], body: &[u8]) -> Vec<u8> {
    let mut c = name.to_vec();
    c.extend(be32(body.len() as u32));
    c.extend_from_slice(body);
    while c.len() % 4 != 0 {
        c.push(0);
    }
    c
}

fn beam(chunks: &[Vec<u8>]) -> Vec<u8> {
    let mut body = b"BEAM".to_vec();
    for c in chunks {
        body.extend_from_slice(c);
    }
    let mut f = b"FOR1".to_vec();
    f.extend(be32(body.len() as u32));
    f.extend(body);
    f
}

fn atom_chunk(name: &[u8], atoms: &[&[u8]]) -> Vec<u8> {
    let mut body = be32(atoms.len() as u32);
    for a in atoms {
        body.push(a.len() as u8);
        body.extend_from_slice(a);
    }
    chunk(name, &body)
}

fn adler32(data: &[u8]) -> u32 {
    let (mut a, mut b) = (1u32, 0u32);
    for &x in data {
        a = (a + x as u32) % 65521;
        b = (b + a) % 65521;
    }
    (b << 16) | a
}

/// A zlib stream holding `data` in one stored (uncompressed) block.
fn zlib_stored(data: &[u8]) -> Vec<u8> {
    let mut z = vec![0x78, 0x01, 0x01];
    let len = data.len() as u16;
    z.extend(len.to_le_bytes());
    z.extend((!len).to_le_bytes());
    z.extend_from_slice(data);
    z.extend(adler32(data).to_be_bytes());
    z
}

#[test]
fn header_must_be_for1_beam() {
    let r = BeamFile::read_chunks(b"FOR2\0\0\0\x04BEAM".to_vec());
    assert!(matches!(r, Err(RtErr::ReadError(ReadError::UnexpectedBytes))));
    let r = BeamFile::read_chunks(b"FOR1\0\0\0\x04BEAN".to_vec());
    assert!(matches!(r, Err(RtErr::ReadError(ReadError::UnexpectedBytes))));
    let r = BeamFile::read_chunks(b"FOR".to_vec());
    assert!(r.is_err());
}

#[test]
fn file_with_no_chunks_is_empty() {
    let f = BeamFile::read_chunks(beam(&[])).unwrap();
    assert!(f.atoms.is_empty());
    assert!(f.code.is_empty());
}

#[test]
fn utf8_atoms_are_read_in_order() {
    let f = BeamFile::read_chunks(beam(&[atom_chunk(b"AtU8", &[b"mymod", b"start", "ł".as_bytes()])])).unwrap();
    assert_eq!(f.atoms, vec![b"mymod".to_vec(), b"start".to_vec(), "ł".as_bytes().to_vec()]);
}

#[test]
fn utf8_atom_must_be_valid_utf8() {
    let r = BeamFile::read_chunks(beam(&[atom_chunk(b"AtU8", &[&[0xff, 0xfe]])]));
    assert!(r.is_err());
    // the latin-1 table takes any bytes
    let f = BeamFile::read_chunks(beam(&[atom_chunk(b"Atom", &[&[0xff, 0xfe]])])).unwrap();
    assert_eq!(f.atoms, vec![vec![0xff, 0xfe]]);
}

#[test]
fn unknown_chunk_is_refused() {
    let r = BeamFile::read_chunks(beam(&[chunk(b"Xxxx", &[1, 2, 3])]));
    match r {
        Err(RtErr::CodeLoadingFailed(msg)) => assert!(msg.contains("Xxxx")),
        _ => panic!("expected a loading error"),
    }
}

#[test]
fn ignored_chunks_are_skipped() {
    let f = BeamFile::read_chunks(beam(&[chunk(b"Dbgi", &[9, 9, 9]), chunk(b"StrT", &[]), atom_chunk(b"Atom", &[b"a"])])).unwrap();
    assert_eq!(f.atoms, vec![b"a".to_vec()]);
}

#[test]
fn export_table() {
    let mut body = be32(2);
    for v in [1u32, 0, 2, 3, 1, 4] {
        body.extend(be32(v));
    }
    let f = BeamFile::read_chunks(beam(&[chunk(b"ExpT", &body)])).unwrap();
    assert_eq!(f.exports.len(), 2);
    assert_eq!((f.exports[0].fun_atom_i, f.exports[0].arity, f.exports[0].label), (1, 0, 2));
    assert_eq!((f.exports[1].fun_atom_i, f.exports[1].arity, f.exports[1].label), (3, 1, 4));
}

#[test]
fn import_table_too_short_is_refused() {
    let mut body = be32(2);
    body.extend(be32(1));
    assert!(BeamFile::read_chunks(beam(&[chunk(b"ImpT", &body)])).is_err());
}

#[test]
fn code_chunk_body_follows_its_header() {
    let mut body = Vec::new();
    for v in [16u32, 0, 150, 3, 2] {
        body.extend(be32(v));
    }
    body.extend_from_slice(&[0x01, 0x10, 0x03]);
    let f = BeamFile::read_chunks(beam(&[chunk(b"Code", &body)])).unwrap();
    assert_eq!(f.code, vec![0x01, 0x10, 0x03]);
}

#[test]
fn code_chunk_from_a_newer_otp_is_refused() {
    let mut body = Vec::new();
    for v in [16u32, 0, 1000, 3, 2] {
        body.extend(be32(v));
    }
    assert!(BeamFile::read_chunks(beam(&[chunk(b"Code", &body)])).is_err());
    assert!(BeamFile::read_chunks(beam(&[chunk(b"Code", &[0, 0, 0])])).is_err());
}

#[test]
fn literal_table_is_inflated() {
    let mut table = be32(2);
    table.extend(be32(2));
    table.extend_from_slice(&[131, 106]);
    table.extend(be32(3));
    table.extend_from_slice(&[131, 97, 7]);
    let mut body = be32(table.len() as u32);
    body.extend(zlib_stored(&table));
    let f = BeamFile::read_chunks(beam(&[chunk(b"LitT", &body)])).unwrap();
    assert_eq!(f.literals, vec![vec![131, 106], vec![131, 97, 7]]);
    assert_eq!(f.lit_tab, vec![Term::Literal(0), Term::Literal(1)]);
}

#[test]
fn literal_table_with_bad_stream_is_refused() {
    let mut body = be32(4);
    body.extend_from_slice(&[0x78, 0x01, 0x07, 0x00]);
    assert!(BeamFile::read_chunks(beam(&[chunk(b"LitT", &body)])).is_err());
    // the inflated size must be the size the chunk gives
    let mut body = be32(5);
    body.extend(zlib_stored(&[0, 0, 0, 0]));
    assert!(BeamFile::read_chunks(beam(&[chunk(b"LitT", &body)])).is_err());
    let mut body = be32(4);
    body.extend(zlib_stored(&[0, 0, 0, 0]));
    assert!(BeamFile::read_chunks(beam(&[chunk(b"LitT", &body)])).unwrap().literals.is_empty());
}

#[test]
fn decode_literals_reads_sizes_and_bytes() {
    let mut f = BeamFile::new();
    let mut table = be32(1);
    table.extend(be32(1));
    table.push(42);
    assert!(f.decode_literals(table).is_ok());
    assert_eq!(f.literals, vec![vec![42]]);
    let mut g = BeamFile::new();
    assert!(g.decode_literals(vec![0, 0, 0, 1, 0, 0, 0, 9]).is_err());
}
