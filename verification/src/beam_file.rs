//! Reading a BEAM file: the `FOR1`/`BEAM` header, then a sequence of chunks,
//! each a 4-byte name, a big-endian 32-bit size and the contents, padded to a
//! multiple of 4 bytes.
use vstd::prelude::*;
use std::io::Read;
use crate::bin_reader::{be_u16, be_u32, BinaryReader};
use crate::compact_term::{ct_read_n, CompactTermReader, CtListOut, ListParseMode};
use crate::fail::{RtErr, RtResult};
use crate::genop::OPCODE_MAX;
use crate::heap::{Heap, HeapObjectView};
use crate::load_time_structs::{LtExport, LtFun, LtImport};
use crate::term::{LoadtimeTag, Term};

verus! {

/// What `compress`'s zlib decoder makes of a stream: `Some(Some(bytes))`
/// for the inflated bytes, `Some(None)` for a stream it refuses with an
/// error, and `None` for a stream on which it panics (its Huffman decoder
/// indexes its length and distance tables out of bounds for some malformed
/// codes).
pub uninterp spec fn zlib_inflated(compressed: Seq<u8>) -> Option<Option<Seq<u8>>>;

/// Inflate a zlib stream with `compress::zlib::Decoder`, reading it to the
/// end. The contract claims only that the outcome is a function of the
/// compressed bytes: the same stream always inflates to the same bytes, or
/// always fails. It admits only streams on which the decoder returns; which
/// streams those are is left unsaid, as the decoder's source decides it.
#[verifier::external_body]
fn zlib_inflate(compressed: &[u8]) -> (r: Option<Vec<u8>>)
    requires
        zlib_inflated(compressed@) is Some,
    ensures
        match r {
            Some(v) => zlib_inflated(compressed@) == Some(Some(v@)),
            None => zlib_inflated(compressed@) == Some(None::<Seq<u8>>),
        },
{
    let mut inflated: Vec<u8> = Vec::new();
    match compress::zlib::Decoder::new(std::io::Cursor::new(compressed)).read_to_end(&mut inflated) {
        Ok(_) => Some(inflated),
        Err(_) => None,
    }
}

/// The text of the message for the unexpected chunk `name`.
pub uninterp spec fn unexpected_chunk_text(name: Seq<u8>) -> Seq<char>;

/// The message for an unexpected chunk name, made by `format!` with the
/// name through `String::from_utf8_lossy`: a function of the name alone.
#[verifier::external_body]
fn unexpected_chunk_message(name: &[u8]) -> (r: String)
    ensures
        r@ == unexpected_chunk_text(name@),
        r@.len() >= 29,
        r@.subrange(0, 29) == "beam/file: Unexpected chunk: "@,
{
    format!("beam/file: Unexpected chunk: {}", String::from_utf8_lossy(name))
}

/// The contents of a BEAM file, by value.
pub struct BeamView {
    pub atoms: Seq<Seq<u8>>,
    pub imports: Seq<LtImport>,
    pub exports: Seq<LtExport>,
    pub locals: Seq<LtExport>,
    pub lambdas: Seq<LtFun>,
    pub code: Seq<u8>,
    pub literals: Seq<Seq<u8>>,
    pub lit_tab: Seq<Term>,
    pub mod_attrs: Seq<u8>,
    pub compiler_info: Seq<u8>,
}

/// The contents of a BEAM file as read so far.
pub struct BeamFile {
    /// Atom names as bytes (Latin-1 or UTF-8 text).
    pub atoms: Vec<Vec<u8>>,
    pub imports: Vec<LtImport>,
    pub exports: Vec<LtExport>,
    pub locals: Vec<LtExport>,
    pub lambdas: Vec<LtFun>,
    /// The code section, parsed in a later stage.
    pub code: Vec<u8>,
    /// The literals, each in the external term format as stored in the file.
    pub literals: Vec<Vec<u8>>,
    /// The literal table: the term that stands for each literal.
    pub lit_tab: Vec<Term>,
    /// A place for larger terms created while loading.
    pub lit_heap: Heap,
    /// Module attributes, in the external term format.
    pub mod_attrs: Vec<u8>,
    /// Compiler information, in the external term format.
    pub compiler_info: Vec<u8>,
}

/// The byte strings of a vector of byte vectors.
pub open spec fn byte_strings(v: Seq<Vec<u8>>) -> Seq<Seq<u8>> {
    v.map_values(|a: Vec<u8>| a@)
}

impl View for BeamFile {
    type V = BeamView;

    open spec fn view(&self) -> BeamView {
        BeamView {
            atoms: byte_strings(self.atoms@),
            imports: self.imports@,
            exports: self.exports@,
            locals: self.locals@,
            lambdas: self.lambdas@,
            code: self.code@,
            literals: byte_strings(self.literals@),
            lit_tab: self.lit_tab@,
            mod_attrs: self.mod_attrs@,
            compiler_info: self.compiler_info@,
        }
    }
}

/// A BEAM file with nothing read yet.
pub open spec fn empty_beam() -> BeamView {
    BeamView {
        atoms: Seq::empty(),
        imports: Seq::empty(),
        exports: Seq::empty(),
        locals: Seq::empty(),
        lambdas: Seq::empty(),
        code: Seq::empty(),
        literals: Seq::empty(),
        lit_tab: Seq::empty(),
        mod_attrs: Seq::empty(),
        compiler_info: Seq::empty(),
    }
}

/// `n` atom entries at `p`, each a length byte and that many bytes of name
/// (which must be UTF-8 when `utf8`); with the position after them.
pub open spec fn atoms_spec(s: Seq<u8>, p: int, n: nat, utf8: bool) -> Option<(Seq<Seq<u8>>, int)>
    decreases n,
{
    if n == 0 {
        Some((Seq::empty(), p))
    } else if p < 0 || p >= s.len() {
        None
    } else {
        let l = s[p] as int;
        let a = s.subrange(p + 1, p + 1 + l);
        if p + 1 + l > s.len() || (utf8 && !vstd::utf8::valid_utf8(a)) {
            None
        } else {
            match atoms_spec(s, p + 1 + l, (n - 1) as nat, utf8) {
                Some((rest, q)) => Some((seq![a] + rest, q)),
                None => None,
            }
        }
    }
}

/// `n` import records of 12 bytes each at `p`.
pub open spec fn imports_spec(s: Seq<u8>, p: int, n: nat) -> Seq<LtImport> {
    Seq::new(n, |i: int| LtImport {
        mod_atom_i: be_u32(s, p + 12 * i) as usize,
        fun_atom_i: be_u32(s, p + 12 * i + 4) as usize,
        arity: be_u32(s, p + 12 * i + 8) as usize,
    })
}

/// `n` export records of 12 bytes each at `p`.
pub open spec fn exports_spec(s: Seq<u8>, p: int, n: nat) -> Seq<LtExport> {
    Seq::new(n, |i: int| LtExport {
        fun_atom_i: be_u32(s, p + 12 * i) as usize,
        arity: be_u32(s, p + 12 * i + 4) as usize,
        label: be_u32(s, p + 12 * i + 8) as usize,
    })
}

/// `n` closure records of 24 bytes each at `p`.
pub open spec fn funs_spec(s: Seq<u8>, p: int, n: nat) -> Seq<LtFun> {
    Seq::new(n, |i: int| LtFun {
        fun_atom_i: be_u32(s, p + 24 * i) as usize,
        arity: be_u32(s, p + 24 * i + 4) as usize,
        code_pos: be_u32(s, p + 24 * i + 8) as usize,
        index: be_u32(s, p + 24 * i + 12) as usize,
        nfrozen: be_u32(s, p + 24 * i + 16) as usize,
        ouniq: be_u32(s, p + 24 * i + 20) as usize,
    })
}

/// A table of `n` records of `w` bytes after a 4-byte count at `p` fits.
pub open spec fn table_fits(s: Seq<u8>, p: int, w: int) -> bool {
    0 <= p && p + 4 <= s.len() && p + 4 + w * be_u32(s, p) <= s.len()
}

/// `n` literals at `p`, each a 32-bit size and that many bytes.
pub open spec fn literals_spec(s: Seq<u8>, p: int, n: nat) -> Option<Seq<Seq<u8>>>
    decreases n,
{
    if n == 0 {
        Some(Seq::empty())
    } else if p < 0 || p + 4 > s.len() || p + 4 + be_u32(s, p) > s.len() {
        None
    } else {
        let sz = be_u32(s, p);
        match literals_spec(s, p + 4 + sz, (n - 1) as nat) {
            Some(rest) => Some(seq![s.subrange(p + 4, p + 4 + sz)] + rest),
            None => None,
        }
    }
}

/// The literals of an inflated literal table: a 32-bit count, then the
/// literals.
pub open spec fn decoded_literals(inflated: Seq<u8>) -> Option<Seq<Seq<u8>>> {
    if inflated.len() < 4 {
        None
    } else {
        literals_spec(inflated, 4, be_u32(inflated, 0) as nat)
    }
}

/// Whether a line table entry is a line number or a file name reference.
pub open spec fn line_ref_ok(t: Term) -> bool {
    t is Small || t is Nil || (t is Loadtime && t->Loadtime_0 == LoadtimeTag::Atom)
}

/// Position after `k` file names at `p`, each a 16-bit size and the name
/// (a name that runs past the end is skipped over without moving).
pub open spec fn line_names(s: Seq<u8>, p: int, k: nat) -> Option<int>
    decreases k,
{
    if k == 0 {
        Some(p)
    } else if p < 0 || p + 2 > s.len() {
        None
    } else {
        let n = be_u16(s, p);
        let q = if p + 2 + n <= s.len() { p + 2 + n } else { p + 2 };
        line_names(s, q, (k - 1) as nat)
    }
}

/// Whether the line information at `p` reads: a 20-byte header, the line
/// references as compact terms, then the file names.
pub open spec fn line_ok(s: Seq<u8>, p: int) -> bool {
    &&& 0 <= p && p + 20 <= s.len()
    &&& match ct_read_n(ListParseMode::AsJumpTable, s, p + 20, Seq::empty(), be_u32(s, p + 12) as nat) {
        CtListOut::Done(ts, q, o) => {
            &&& forall|i: int| 0 <= i < ts.len() ==> line_ref_ok(#[trigger] ts[i])
            &&& line_names(s, q, be_u32(s, p + 16) as nat) is Some
        },
        CtListOut::Fail(_) => false,
    }
}

/// Chunk names.
pub open spec fn name_atom() -> Seq<u8> { seq![0x41u8, 0x74, 0x6f, 0x6d] }
pub open spec fn name_attr() -> Seq<u8> { seq![0x41u8, 0x74, 0x74, 0x72] }
pub open spec fn name_atu8() -> Seq<u8> { seq![0x41u8, 0x74, 0x55, 0x38] }
pub open spec fn name_cinf() -> Seq<u8> { seq![0x43u8, 0x49, 0x6e, 0x66] }
pub open spec fn name_code() -> Seq<u8> { seq![0x43u8, 0x6f, 0x64, 0x65] }
pub open spec fn name_expt() -> Seq<u8> { seq![0x45u8, 0x78, 0x70, 0x54] }
pub open spec fn name_funt() -> Seq<u8> { seq![0x46u8, 0x75, 0x6e, 0x54] }
pub open spec fn name_impt() -> Seq<u8> { seq![0x49u8, 0x6d, 0x70, 0x54] }
pub open spec fn name_line() -> Seq<u8> { seq![0x4cu8, 0x69, 0x6e, 0x65] }
pub open spec fn name_litt() -> Seq<u8> { seq![0x4cu8, 0x69, 0x74, 0x54] }
pub open spec fn name_loct() -> Seq<u8> { seq![0x4cu8, 0x6f, 0x63, 0x54] }
pub open spec fn name_dbgi() -> Seq<u8> { seq![0x44u8, 0x62, 0x67, 0x69] }
pub open spec fn name_strt() -> Seq<u8> { seq![0x53u8, 0x74, 0x72, 0x54] }
pub open spec fn name_abst() -> Seq<u8> { seq![0x41u8, 0x62, 0x73, 0x74] }

/// `acc` with the atoms `a` added.
pub open spec fn with_atoms(acc: BeamView, a: Seq<Seq<u8>>) -> BeamView {
    BeamView { atoms: acc.atoms + a, ..acc }
}

/// The effect of the chunk `name` of `size` bytes whose contents start at `b`.
pub open spec fn apply_chunk(name: Seq<u8>, s: Seq<u8>, b: int, size: int, acc: BeamView) -> Option<BeamView> {
    if name == name_atom() || name == name_atu8() {
        if b < 0 || b + 4 > s.len() {
            None
        } else {
            match atoms_spec(s, b + 4, be_u32(s, b) as nat, name == name_atu8()) {
                Some((a, _)) => Some(with_atoms(acc, a)),
                None => None,
            }
        }
    } else if name == name_attr() || name == name_cinf() {
        if b < 0 || b + size > s.len() {
            None
        } else if name == name_attr() {
            Some(BeamView { mod_attrs: s.subrange(b, b + size), ..acc })
        } else {
            Some(BeamView { compiler_info: s.subrange(b, b + size), ..acc })
        }
    } else if name == name_code() {
        if b < 0 || b + 20 > s.len() || be_u32(s, b + 8) > OPCODE_MAX || size < 20 || b + size > s.len() {
            None
        } else {
            Some(BeamView { code: s.subrange(b + 20, b + size), ..acc })
        }
    } else if name == name_expt() || name == name_loct() {
        if !table_fits(s, b, 12) {
            None
        } else if name == name_expt() {
            Some(BeamView { exports: exports_spec(s, b + 4, be_u32(s, b) as nat), ..acc })
        } else {
            Some(BeamView { locals: exports_spec(s, b + 4, be_u32(s, b) as nat), ..acc })
        }
    } else if name == name_funt() {
        if !table_fits(s, b, 24) {
            None
        } else {
            Some(BeamView { lambdas: acc.lambdas + funs_spec(s, b + 4, be_u32(s, b) as nat), ..acc })
        }
    } else if name == name_impt() {
        if !table_fits(s, b, 12) {
            None
        } else {
            Some(BeamView { imports: acc.imports + imports_spec(s, b + 4, be_u32(s, b) as nat), ..acc })
        }
    } else if name == name_line() {
        if line_ok(s, b) {
            Some(acc)
        } else {
            None
        }
    } else if name == name_litt() {
        if b < 0 || b + 4 > s.len() || size < 4 || b + size > s.len() {
            None
        } else {
            match zlib_inflated(s.subrange(b + 4, b + size)) {
                Some(Some(inflated)) => {
                    if inflated.len() != be_u32(s, b) {
                        None
                    } else {
                        match decoded_literals(inflated) {
                            None => None,
                            Some(l) => Some(with_literals(acc, l)),
                        }
                    }
                },
                _ => None,
            }
        }
    } else if name == name_dbgi() || name == name_strt() || name == name_abst() {
        Some(acc)
    } else {
        None
    }
}

/// `acc` with the literals `l` added, each with its literal table entry.
pub open spec fn with_literals(acc: BeamView, l: Seq<Seq<u8>>) -> BeamView {
    BeamView {
        literals: acc.literals + l,
        lit_tab: acc.lit_tab + Seq::new(l.len(), |i: int| Term::Literal((acc.literals.len() + i) as usize)),
        ..acc
    }
}

/// Position of the chunk after the one whose contents of `size` bytes start
/// at `b`: contents are padded to 4 bytes; the position stops at the end.
pub open spec fn next_chunk(s: Seq<u8>, b: int, size: int) -> int {
    let next = b + 4 * ((size + 3) / 4);
    if next > s.len() {
        s.len() as int
    } else {
        next
    }
}

/// Read the chunks from `pos` to the end, starting from the contents `acc`.
pub open spec fn scan_chunks(s: Seq<u8>, pos: int, acc: BeamView) -> Option<BeamView>
    decreases s.len() - pos,
{
    if pos < 0 || pos + 4 > s.len() {
        Some(acc)
    } else if pos + 8 > s.len() {
        None
    } else {
        let size = be_u32(s, pos + 4);
        match apply_chunk(s.subrange(pos, pos + 4), s, pos + 8, size, acc) {
            None => None,
            Some(acc2) => scan_chunks(s, next_chunk(s, pos + 8, size), acc2),
        }
    }
}

/// The contents of the BEAM file `s`: the header `FOR1`, a size, `BEAM`,
/// then the chunks.
pub open spec fn beam_decode(s: Seq<u8>) -> Option<BeamView> {
    if s.len() < 12 || s.subrange(0, 4) != seq![0x46u8, 0x4f, 0x52, 0x31]
        || s.subrange(8, 12) != seq![0x42u8, 0x45, 0x41, 0x4d] {
        None
    } else {
        scan_chunks(s, 12, empty_beam())
    }
}

/// Whether the chunk `name` of `size` bytes whose contents start at `b` is
/// one that `compress`'s decoder returns on: only a `LitT` chunk holds a
/// zlib stream.
pub open spec fn chunk_returns(name: Seq<u8>, s: Seq<u8>, b: int, size: int) -> bool {
    name == name_litt() && 0 <= b && b + 4 <= s.len() && 4 <= size && b + size <= s.len()
        ==> zlib_inflated(s.subrange(b + 4, b + size)) is Some
}

/// Whether each chunk that reading reaches from `pos` on, starting from the
/// contents `acc`, is one the decoder returns on.
pub open spec fn scan_returns(s: Seq<u8>, pos: int, acc: BeamView) -> bool
    decreases s.len() - pos,
{
    if pos < 0 || pos + 8 > s.len() {
        true
    } else {
        let size = be_u32(s, pos + 4);
        &&& chunk_returns(s.subrange(pos, pos + 4), s, pos + 8, size as int)
        &&& match apply_chunk(s.subrange(pos, pos + 4), s, pos + 8, size, acc) {
            None => true,
            Some(acc2) => scan_returns(s, next_chunk(s, pos + 8, size), acc2),
        }
    }
}

/// Whether the header of the BEAM file `s` is `FOR1`, a size, `BEAM`.
pub open spec fn beam_header_ok(s: Seq<u8>) -> bool {
    !(s.len() < 12 || s.subrange(0, 4) != seq![0x46u8, 0x4f, 0x52, 0x31]
        || s.subrange(8, 12) != seq![0x42u8, 0x45, 0x41, 0x4d])
}

/// Whether reading the BEAM file `s` never hands the decoder a stream it
/// panics on.
pub open spec fn beam_inflatable(s: Seq<u8>) -> bool {
    beam_header_ok(s) ==> scan_returns(s, 12, empty_beam())
}

/// Whether `name` is a chunk name that reading knows.
pub open spec fn known_chunk(name: Seq<u8>) -> bool {
    ||| name == name_atom() || name == name_attr() || name == name_atu8() || name == name_cinf()
    ||| name == name_code() || name == name_expt() || name == name_funt() || name == name_impt()
    ||| name == name_line() || name == name_litt() || name == name_loct() || name == name_dbgi()
    ||| name == name_strt() || name == name_abst()
}

/// The name of the chunk whose name reading does not know, where reading
/// from `pos` on, starting from the contents `acc`, stops at one.
pub open spec fn scan_unknown(s: Seq<u8>, pos: int, acc: BeamView) -> Option<Seq<u8>>
    decreases s.len() - pos,
{
    if pos < 0 || pos + 8 > s.len() {
        None
    } else if !known_chunk(s.subrange(pos, pos + 4)) {
        Some(s.subrange(pos, pos + 4))
    } else {
        let size = be_u32(s, pos + 4);
        match apply_chunk(s.subrange(pos, pos + 4), s, pos + 8, size, acc) {
            None => None,
            Some(acc2) => scan_unknown(s, next_chunk(s, pos + 8, size), acc2),
        }
    }
}

/// The name of the chunk that reading the BEAM file `s` stops at, where its
/// header is good and reading stops at a chunk whose name it does not know.
pub open spec fn beam_unknown_chunk(s: Seq<u8>) -> Option<Seq<u8>> {
    if beam_header_ok(s) { scan_unknown(s, 12, empty_beam()) } else { None }
}

/// Whether `res` and the contents `after` are the outcome `out` of a load
/// step: `Some` contents on success, `None` for a failure.
pub open spec fn loaded(out: Option<BeamView>, res: RtResult<()>, after: BeamView) -> bool {
    match out {
        Some(v) => res is Ok && after == v,
        None => res is Err,
    }
}

/// The reader stays valid over the same data.
pub open spec fn same_data(r0: BinaryReader, r1: BinaryReader) -> bool {
    r1.wf() && r1.data@ == r0.data@
}

/// Put the atoms `a` in front of the atoms of an outcome.
pub open spec fn prepend_atoms(a: Seq<Seq<u8>>, out: Option<(Seq<Seq<u8>>, int)>) -> Option<(Seq<Seq<u8>>, int)> {
    match out {
        Some((rest, q)) => Some((a + rest, q)),
        None => None,
    }
}

/// Put the literals `a` in front of the literals of an outcome.
pub open spec fn prepend_literals(a: Seq<Seq<u8>>, out: Option<Seq<Seq<u8>>>) -> Option<Seq<Seq<u8>>> {
    match out {
        Some(rest) => Some(a + rest),
        None => None,
    }
}

proof fn lemma_byte_strings_push(v: Seq<Vec<u8>>, x: Vec<u8>)
    ensures
        byte_strings(v.push(x)) == byte_strings(v).push(x@),
{
    assert(byte_strings(v.push(x)) =~= byte_strings(v).push(x@));
}

proof fn lemma_names_distinct()
    ensures
        name_atom() != name_atu8(),
        name_attr() != name_cinf(),
        name_expt() != name_loct(),
{
    assert(name_atom()[2] != name_atu8()[2]);
    assert(name_attr()[0] != name_cinf()[0]);
    assert(name_expt()[0] != name_loct()[0]);
}

/// An import table chunk lists its records in order, each three big-endian
/// 32-bit words: the module's atom index, the function's atom index and
/// the arity; reading the chunk adds them behind the imports read before.
pub proof fn law_import_records(s: Seq<u8>, b: int, size: int, acc: BeamView, i: int)
    requires
        table_fits(s, b, 12),
        0 <= i < be_u32(s, b),
    ensures
        apply_chunk(name_impt(), s, b, size, acc) is Some,
        ({
            let v = apply_chunk(name_impt(), s, b, size, acc)->Some_0;
            let at = b + 4 + 12 * i;
            &&& v.imports.len() == acc.imports.len() + be_u32(s, b)
            &&& v.imports.subrange(0, acc.imports.len() as int) == acc.imports
            &&& v.imports[acc.imports.len() + i].mod_atom_i == ((s[at] * 256 + s[at + 1]) * 256 + s[at + 2]) * 256 + s[at + 3]
            &&& v.imports[acc.imports.len() + i].fun_atom_i == ((s[at + 4] * 256 + s[at + 5]) * 256 + s[at + 6]) * 256 + s[at + 7]
            &&& v.imports[acc.imports.len() + i].arity == ((s[at + 8] * 256 + s[at + 9]) * 256 + s[at + 10]) * 256 + s[at + 11]
            &&& v.exports == acc.exports && v.atoms == acc.atoms && v.code == acc.code
        }),
{
    assert(name_impt()[0] != name_atom()[0]);
    assert(name_impt()[0] != name_atu8()[0]);
    assert(name_impt()[0] != name_attr()[0]);
    assert(name_impt()[0] != name_cinf()[0]);
    assert(name_impt()[0] != name_code()[0]);
    assert(name_impt()[0] != name_expt()[0]);
    assert(name_impt()[0] != name_loct()[0]);
    assert(name_impt()[0] != name_funt()[0]);
    let v = apply_chunk(name_impt(), s, b, size, acc)->Some_0;
    let new = imports_spec(s, b + 4, be_u32(s, b) as nat);
    assert(v.imports == acc.imports + new);
    assert(v.imports.subrange(0, acc.imports.len() as int) =~= acc.imports);
    assert(v.imports[acc.imports.len() + i] == new[i]);
    assert(b + 4 + 12 * i + 12 <= s.len()) by (nonlinear_arith)
        requires
            0 <= i < be_u32(s, b),
            b + 4 + 12 * be_u32(s, b) <= s.len(),
    ;
}

/// An export (or local function) table chunk lists its records in order,
/// each three big-endian 32-bit words: the function's atom index, the
/// arity and the label where the function begins.
pub proof fn law_export_records(s: Seq<u8>, b: int, size: int, acc: BeamView, i: int)
    requires
        table_fits(s, b, 12),
        0 <= i < be_u32(s, b),
    ensures
        apply_chunk(name_expt(), s, b, size, acc) is Some,
        ({
            let v = apply_chunk(name_expt(), s, b, size, acc)->Some_0;
            let at = b + 4 + 12 * i;
            &&& v.exports.len() == be_u32(s, b)
            &&& v.exports[i].fun_atom_i == ((s[at] * 256 + s[at + 1]) * 256 + s[at + 2]) * 256 + s[at + 3]
            &&& v.exports[i].arity == ((s[at + 4] * 256 + s[at + 5]) * 256 + s[at + 6]) * 256 + s[at + 7]
            &&& v.exports[i].label == ((s[at + 8] * 256 + s[at + 9]) * 256 + s[at + 10]) * 256 + s[at + 11]
            &&& v.imports == acc.imports && v.locals == acc.locals
        }),
{
    assert(name_expt()[0] != name_atom()[0]);
    assert(name_expt()[0] != name_atu8()[0]);
    assert(name_expt()[0] != name_attr()[0]);
    assert(name_expt()[0] != name_cinf()[0]);
    assert(name_expt()[0] != name_code()[0]);
    assert(b + 4 + 12 * i + 12 <= s.len()) by (nonlinear_arith)
        requires
            0 <= i < be_u32(s, b),
            b + 4 + 12 * be_u32(s, b) <= s.len(),
    ;
}

/// Read a big-endian 32-bit value.
fn read_u32(r: &mut BinaryReader) -> (res: RtResult<u32>)
    requires
        old(r).wf(),
    ensures
        same_data(*old(r), *final(r)),
        old(r).pos + 4 <= old(r).data@.len() ==> res is Ok && res->Ok_0 == be_u32(old(r).data@, old(r).pos as int)
            && final(r).pos == old(r).pos + 4,
        old(r).pos + 4 > old(r).data@.len() ==> res is Err,
{
    match r.read_u32be() {
        Ok(v) => Ok(v),
        Err(e) => Err(RtErr::ReadError(e)),
    }
}

/// Whether `name` is the 4 bytes `a`, `b`, `c`, `d`.
fn name_is(name: &[u8], a: u8, b: u8, c: u8, d: u8) -> (r: bool)
    ensures
        r == (name@ == seq![a, b, c, d]),
{
    if name.len() == 4 && name[0] == a && name[1] == b && name[2] == c && name[3] == d {
        assert(name@ =~= seq![a, b, c, d]);
        true
    } else {
        proof {
            if name@ == seq![a, b, c, d] {
                assert(name@[0] == a && name@[1] == b && name@[2] == c && name@[3] == d);
            }
        }
        false
    }
}

impl BeamFile {
    /// Nothing read yet.
    pub fn new() -> (r: BeamFile)
        ensures
            r@ == empty_beam(),
            r.lit_heap.objs().len() == 0,
    {
        let r = BeamFile {
            atoms: Vec::new(),
            imports: Vec::new(),
            exports: Vec::new(),
            locals: Vec::new(),
            lambdas: Vec::new(),
            code: Vec::new(),
            literals: Vec::new(),
            lit_tab: Vec::new(),
            lit_heap: Heap::new(),
            mod_attrs: Vec::new(),
            compiler_info: Vec::new(),
        };
        assert(r@.atoms =~= Seq::<Seq<u8>>::empty());
        assert(r@.literals =~= Seq::<Seq<u8>>::empty());
        r
    }

    /// Read the atom table: a count, then for each atom a length byte and
    /// the name, which must be UTF-8 when `utf8`.
    fn load_atoms(&mut self, r: &mut BinaryReader, utf8: bool) -> (res: RtResult<()>)
        requires
            old(r).wf(),
        ensures
            same_data(*old(r), *final(r)),
            final(self).lit_heap == old(self).lit_heap,
            loaded(
                apply_chunk(if utf8 { name_atu8() } else { name_atom() }, old(r).data@, old(r).pos as int, 0, old(self)@),
                res,
                final(self)@,
            ),
    {
        proof {
            lemma_names_distinct();
        }
        let ghost s = r.data@;
        let ghost p0 = r.pos as int;
        let ghost old_atoms = byte_strings(self.atoms@);
        let n_atoms = read_u32(r)?;
        let ghost total = atoms_spec(s, p0 + 4, n_atoms as nat, utf8);
        let ghost mut added: Seq<Seq<u8>> = Seq::empty();
        let mut i: u32 = 0;
        assert(added + Seq::<Seq<u8>>::empty() =~= added);
        while i < n_atoms
            invariant
                same_data(*old(r), *r),
                s == old(r).data@,
                p0 == old(r).pos,
                p0 + 4 <= s.len(),
                n_atoms == be_u32(s, p0),
                total == atoms_spec(s, p0 + 4, n_atoms as nat, utf8),
                i <= n_atoms,
                byte_strings(self.atoms@) == old_atoms + added,
                old_atoms == byte_strings(old(self).atoms@),
                self.lit_heap == old(self).lit_heap,
                self.imports == old(self).imports,
                self.exports == old(self).exports,
                self.locals == old(self).locals,
                self.lambdas == old(self).lambdas,
                self.code == old(self).code,
                self.literals == old(self).literals,
                self.lit_tab == old(self).lit_tab,
                self.mod_attrs == old(self).mod_attrs,
                self.compiler_info == old(self).compiler_info,
                prepend_atoms(added, atoms_spec(s, r.pos as int, (n_atoms - i) as nat, utf8)) == total,
            decreases n_atoms - i,
        {
            let ghost p1 = r.pos as int;
            let atom_bytes = match r.read_u8() {
                Ok(v) => v,
                Err(e) => return Err(RtErr::ReadError(e)),
            };
            let atom_text = if utf8 {
                r.read_str_utf8(atom_bytes as usize)
            } else {
                r.read_str_latin1(atom_bytes as usize)
            };
            let atom_text = match atom_text {
                Ok(v) => v,
                Err(e) => return Err(RtErr::ReadError(e)),
            };
            proof {
                let a = atom_text@;
                let rest = atoms_spec(s, r.pos as int, (n_atoms - i - 1) as nat, utf8);
                assert(atoms_spec(s, p1, (n_atoms - i) as nat, utf8) == match rest {
                    Some((more, q)) => Some((seq![a] + more, q)),
                    None => None::<(Seq<Seq<u8>>, int)>,
                });
                match rest {
                    Some((more, q)) => {
                        assert(added + (seq![a] + more) =~= added.push(a) + more);
                    },
                    None => {},
                }
                lemma_byte_strings_push(self.atoms@, atom_text);
                added = added.push(a);
            }
            self.atoms.push(atom_text);
            i = i + 1;
        }
        proof {
            assert(added + Seq::<Seq<u8>>::empty() =~= added);
        }
        Ok(())
    }

    /// Read the `AtU8` chunk: atom names in UTF-8.
    fn load_atoms_utf8(&mut self, r: &mut BinaryReader) -> (res: RtResult<()>)
        requires
            old(r).wf(),
        ensures
            same_data(*old(r), *final(r)),
            final(self).lit_heap == old(self).lit_heap,
            loaded(apply_chunk(name_atu8(), old(r).data@, old(r).pos as int, 0, old(self)@), res, final(self)@),
    {
        self.load_atoms(r, true)
    }

    /// Read the `Atom` chunk: atom names in Latin-1.
    fn load_atoms_latin1(&mut self, r: &mut BinaryReader) -> (res: RtResult<()>)
        requires
            old(r).wf(),
        ensures
            same_data(*old(r), *final(r)),
            final(self).lit_heap == old(self).lit_heap,
            loaded(apply_chunk(name_atom(), old(r).data@, old(r).pos as int, 0, old(self)@), res, final(self)@),
    {
        self.load_atoms(r, false)
    }

    /// Read the imports table: a count, then for each import the module
    /// atom, the function atom and the arity, 32 bits each.
    fn load_imports(&mut self, r: &mut BinaryReader) -> (res: RtResult<()>)
        requires
            old(r).wf(),
        ensures
            same_data(*old(r), *final(r)),
            final(self).lit_heap == old(self).lit_heap,
            loaded(apply_chunk(name_impt(), old(r).data@, old(r).pos as int, 0, old(self)@), res, final(self)@),
    {
        let ghost s = r.data@;
        let ghost p0 = r.pos as int;
        let n_imports = read_u32(r)?;
        let mut i: u32 = 0;
        assert(imports_spec(s, p0 + 4, 0) =~= Seq::<LtImport>::empty());
        assert(old(self)@.imports + Seq::<LtImport>::empty() =~= old(self)@.imports);
        while i < n_imports
            invariant
                same_data(*old(r), *r),
                s == old(r).data@,
                p0 == old(r).pos,
                p0 + 4 <= s.len(),
                n_imports == be_u32(s, p0),
                i <= n_imports,
                r.pos == p0 + 4 + 12 * i,
                self@ == (BeamView { imports: old(self)@.imports + imports_spec(s, p0 + 4, i as nat), ..old(self)@ }),
                self.lit_heap == old(self).lit_heap,
            decreases n_imports - i,
        {
            let m = read_u32(r)?;
            let f = read_u32(r)?;
            let a = read_u32(r)?;
            let imp = LtImport { mod_atom_i: m as usize, fun_atom_i: f as usize, arity: a as usize };
            proof {
                assert(imports_spec(s, p0 + 4, (i + 1) as nat) =~= imports_spec(s, p0 + 4, i as nat).push(imp));
                assert(old(self)@.imports + imports_spec(s, p0 + 4, (i + 1) as nat)
                    =~= (old(self)@.imports + imports_spec(s, p0 + 4, i as nat)).push(imp));
            }
            self.imports.push(imp);
            i = i + 1;
        }
        Ok(())
    }

    /// Read an exports or local functions table: a count, then for each
    /// function its atom, its arity and its label, 32 bits each.
    fn load_exports(&mut self, r: &mut BinaryReader) -> (res: RtResult<Vec<LtExport>>)
        requires
            old(r).wf(),
        ensures
            same_data(*old(r), *final(r)),
            *final(self) == *old(self),
            table_fits(old(r).data@, old(r).pos as int, 12) ==> res is Ok
                && res->Ok_0@ == exports_spec(old(r).data@, old(r).pos + 4, be_u32(old(r).data@, old(r).pos as int) as nat),
            !table_fits(old(r).data@, old(r).pos as int, 12) ==> res is Err,
    {
        let ghost s = r.data@;
        let ghost p0 = r.pos as int;
        let n_exports = read_u32(r)?;
        let mut exports: Vec<LtExport> = Vec::new();
        let mut i: u32 = 0;
        assert(exports_spec(s, p0 + 4, 0) =~= Seq::<LtExport>::empty());
        while i < n_exports
            invariant
                same_data(*old(r), *r),
                s == old(r).data@,
                p0 == old(r).pos,
                p0 + 4 <= s.len(),
                n_exports == be_u32(s, p0),
                i <= n_exports,
                r.pos == p0 + 4 + 12 * i,
                exports@ == exports_spec(s, p0 + 4, i as nat),
            decreases n_exports - i,
        {
            let f = read_u32(r)?;
            let a = read_u32(r)?;
            let l = read_u32(r)?;
            let exp = LtExport { fun_atom_i: f as usize, arity: a as usize, label: l as usize };
            proof {
                assert(exports_spec(s, p0 + 4, (i + 1) as nat) =~= exports_spec(s, p0 + 4, i as nat).push(exp));
            }
            exports.push(exp);
            i = i + 1;
        }
        Ok(exports)
    }

    /// Read the closures table: a count, then for each closure its function
    /// atom, arity, code position, index, number of captured values and
    /// unique value, 32 bits each.
    fn load_fun_table(&mut self, r: &mut BinaryReader) -> (res: RtResult<()>)
        requires
            old(r).wf(),
        ensures
            same_data(*old(r), *final(r)),
            final(self).lit_heap == old(self).lit_heap,
            loaded(apply_chunk(name_funt(), old(r).data@, old(r).pos as int, 0, old(self)@), res, final(self)@),
    {
        let ghost s = r.data@;
        let ghost p0 = r.pos as int;
        let n_funs = read_u32(r)?;
        let mut i: u32 = 0;
        assert(funs_spec(s, p0 + 4, 0) =~= Seq::<LtFun>::empty());
        assert(old(self)@.lambdas + Seq::<LtFun>::empty() =~= old(self)@.lambdas);
        while i < n_funs
            invariant
                same_data(*old(r), *r),
                s == old(r).data@,
                p0 == old(r).pos,
                p0 + 4 <= s.len(),
                n_funs == be_u32(s, p0),
                i <= n_funs,
                r.pos == p0 + 4 + 24 * i,
                self@ == (BeamView { lambdas: old(self)@.lambdas + funs_spec(s, p0 + 4, i as nat), ..old(self)@ }),
                self.lit_heap == old(self).lit_heap,
            decreases n_funs - i,
        {
            let fun_atom = read_u32(r)?;
            let arity = read_u32(r)?;
            let code_pos = read_u32(r)?;
            let index = read_u32(r)?;
            let nfrozen = read_u32(r)?;
            let ouniq = read_u32(r)?;
            let lf = LtFun {
                fun_atom_i: fun_atom as usize,
                arity: arity as usize,
                code_pos: code_pos as usize,
                index: index as usize,
                nfrozen: nfrozen as usize,
                ouniq: ouniq as usize,
            };
            proof {
                assert(funs_spec(s, p0 + 4, (i + 1) as nat) =~= funs_spec(s, p0 + 4, i as nat).push(lf));
                assert(old(self)@.lambdas + funs_spec(s, p0 + 4, (i + 1) as nat)
                    =~= (old(self)@.lambdas + funs_spec(s, p0 + 4, i as nat)).push(lf));
            }
            self.lambdas.push(lf);
            i = i + 1;
        }
        Ok(())
    }

    /// Read the `Code` chunk of `chunk_sz` bytes: a header of five 32-bit
    /// values (version, lowest and highest opcode, label and function
    /// counts), then the code, kept for a later stage.
    fn load_code(&mut self, r: &mut BinaryReader, chunk_sz: usize) -> (res: RtResult<()>)
        requires
            old(r).wf(),
        ensures
            same_data(*old(r), *final(r)),
            final(self).lit_heap == old(self).lit_heap,
            loaded(apply_chunk(name_code(), old(r).data@, old(r).pos as int, chunk_sz as int, old(self)@), res, final(self)@),
    {
        let _code_ver = read_u32(r)?;
        let _min_opcode = read_u32(r)?;
        let max_opcode = read_u32(r)?;
        let _n_labels = read_u32(r)?;
        let _n_funs = read_u32(r)?;
        if max_opcode > OPCODE_MAX as u32 {
            let msg = "BEAM file comes from a never and unsupported OTP version".to_string();
            return Err(RtErr::CodeLoadingFailed(msg));
        }
        if chunk_sz < 20 {
            return Err(RtErr::CodeLoadingFailed("Code chunk is too short".to_string()));
        }
        self.code = match r.read_bytes(chunk_sz - 20) {
            Ok(v) => v,
            Err(e) => return Err(RtErr::ReadError(e)),
        };
        Ok(())
    }

    /// Read the `Attr` chunk of `size` bytes: the module attributes in the
    /// external term format.
    fn load_attributes(&mut self, r: &mut BinaryReader, size: usize) -> (res: RtResult<()>)
        requires
            old(r).wf(),
        ensures
            same_data(*old(r), *final(r)),
            final(self).lit_heap == old(self).lit_heap,
            loaded(apply_chunk(name_attr(), old(r).data@, old(r).pos as int, size as int, old(self)@), res, final(self)@),
    {
        proof {
            lemma_names_distinct();
        }
        self.mod_attrs = match r.read_bytes(size) {
            Ok(v) => v,
            Err(e) => return Err(RtErr::ReadError(e)),
        };
        Ok(())
    }

    /// Read the `CInf` chunk of `size` bytes: the compiler information in
    /// the external term format.
    fn load_compiler_info(&mut self, r: &mut BinaryReader, size: usize) -> (res: RtResult<()>)
        requires
            old(r).wf(),
        ensures
            same_data(*old(r), *final(r)),
            final(self).lit_heap == old(self).lit_heap,
            loaded(apply_chunk(name_cinf(), old(r).data@, old(r).pos as int, size as int, old(self)@), res, final(self)@),
    {
        proof {
            lemma_names_distinct();
        }
        self.compiler_info = match r.read_bytes(size) {
            Ok(v) => v,
            Err(e) => return Err(RtErr::ReadError(e)),
        };
        Ok(())
    }

    /// Read the `Line` chunk: a header of five 32-bit values, the line
    /// references (compact terms: line numbers or file name atoms), then the
    /// file names. Only the shape is checked; nothing is kept.
    fn load_line_info(&mut self, r: &mut BinaryReader) -> (res: RtResult<()>)
        requires
            old(r).wf(),
        ensures
            same_data(*old(r), *final(r)),
            final(self).lit_heap == old(self).lit_heap,
            loaded(apply_chunk(name_line(), old(r).data@, old(r).pos as int, 0, old(self)@), res, final(self)@),
    {
        let ghost s = r.data@;
        let ghost p0 = r.pos as int;
        let _version = read_u32(r)?;
        let _flags = read_u32(r)?;
        let _n_line_instr = read_u32(r)?;
        let n_line_refs = read_u32(r)?;
        let n_filenames = read_u32(r)?;
        let mut scratch = Heap::new();
        let mut ct = CompactTermReader::new();
        let refs = ct.read_n(&mut scratch, r, n_line_refs as usize)?;
        let ghost out = ct_read_n(ListParseMode::AsJumpTable, s, p0 + 20, Seq::empty(), n_line_refs as nat);
        assert(out is Done && out->Done_0 == refs@ && out->Done_1 == r.pos);
        let mut i: usize = 0;
        while i < refs.len()
            invariant
                0 <= i <= refs@.len(),
                forall|j: int| 0 <= j < i ==> line_ref_ok(#[trigger] refs@[j]),
                same_data(*old(r), *r),
                s == old(r).data@,
                p0 == old(r).pos,
                p0 + 20 <= s.len(),
                n_line_refs == be_u32(s, p0 + 12),
                n_filenames == be_u32(s, p0 + 16),
                out == ct_read_n(ListParseMode::AsJumpTable, s, p0 + 20, Seq::empty(), be_u32(s, p0 + 12) as nat),
                out is Done && out->Done_0 == refs@ && out->Done_1 == r.pos,
            decreases refs@.len() - i,
        {
            let val = refs[i];
            if !(val.is_small() || matches!(val, Term::Nil) || (val.is_loadtime() && val.get_loadtime_tag()
                == LoadtimeTag::Atom)) {
                return Err(RtErr::CodeLoadingFailed("beam/file: Unexpected data in line info section".to_string()));
            }
            i = i + 1;
        }
        let ghost q = r.pos as int;
        let mut k: u32 = 0;
        while k < n_filenames
            invariant
                same_data(*old(r), *r),
                s == old(r).data@,
                p0 == old(r).pos,
                p0 + 20 <= s.len(),
                n_filenames == be_u32(s, p0 + 16),
                out == ct_read_n(ListParseMode::AsJumpTable, s, p0 + 20, Seq::empty(), be_u32(s, p0 + 12) as nat),
                out is Done && out->Done_1 == q,
                forall|j: int| 0 <= j < out->Done_0.len() ==> line_ref_ok(#[trigger] out->Done_0[j]),
                k <= n_filenames,
                line_names(s, q, n_filenames as nat) == line_names(s, r.pos as int, (n_filenames - k) as nat),
            decreases n_filenames - k,
        {
            let name_size = match r.read_u16be() {
                Ok(v) => v,
                Err(e) => return Err(RtErr::ReadError(e)),
            };
            let _fstr = r.read_str_utf8(name_size as usize);
            k = k + 1;
        }
        Ok(())
    }

    /// Read the literals of an inflated literal table: a 32-bit count, then
    /// for each literal a 32-bit size and its bytes in the external term
    /// format. Each literal also gets its literal table entry.
    pub fn decode_literals(&mut self, inflated: Vec<u8>) -> (res: RtResult<()>)
        ensures
            final(self).lit_heap == old(self).lit_heap,
            loaded(
                match decoded_literals(inflated@) {
                    Some(l) => Some(with_literals(old(self)@, l)),
                    None => None,
                },
                res,
                final(self)@,
            ),
    {
        let ghost s = inflated@;
        let mut r = BinaryReader::from_bytes(inflated);
        let count = read_u32(&mut r)?;
        let ghost total = literals_spec(s, 4, count as nat);
        let ghost mut added: Seq<Seq<u8>> = Seq::empty();
        let ghost base = old(self)@;
        let mut i: u32 = 0;
        assert(with_literals(base, added) =~= base);
        while i < count
            invariant
                r.wf(),
                r.data@ == s,
                s == inflated@,
                s.len() >= 4,
                count == be_u32(s, 0),
                i <= count,
                total == literals_spec(s, 4, count as nat),
                base == old(self)@,
                self.lit_heap == old(self).lit_heap,
                self@ == with_literals(base, added),
                prepend_literals(added, literals_spec(s, r.pos as int, (count - i) as nat)) == total,
            decreases count - i,
        {
            let ghost p1 = r.pos as int;
            let _size = read_u32(&mut r)?;
            let literal = match r.read_bytes(_size as usize) {
                Ok(v) => v,
                Err(e) => return Err(RtErr::ReadError(e)),
            };
            let index = self.literals.len();
            proof {
                let a = literal@;
                let rest = literals_spec(s, r.pos as int, (count - i - 1) as nat);
                match rest {
                    Some(more) => {
                        assert(added + (seq![a] + more) =~= added.push(a) + more);
                    },
                    None => {},
                }
                lemma_byte_strings_push(self.literals@, literal);
            }
            proof {
                assert(byte_strings(self.literals@).len() == self.literals@.len());
                assert(self.literals@.len() == base.literals.len() + added.len());
            }
            self.literals.push(literal);
            self.lit_tab.push(Term::Literal(index));
            proof {
                let a = self.literals@[index as int]@;
                assert(self@.lit_tab =~= with_literals(base, added.push(a)).lit_tab);
                assert(self@.literals =~= with_literals(base, added.push(a)).literals);
                added = added.push(a);
            }
            i = i + 1;
        }
        proof {
            assert(added + Seq::<Seq<u8>>::empty() =~= added);
        }
        Ok(())
    }

    /// Read the `LitT` chunk of `chunk_sz` bytes: the inflated size, then a
    /// zlib stream holding the literal table.
    fn load_literals(&mut self, r: &mut BinaryReader, chunk_sz: usize) -> (res: RtResult<()>)
        requires
            old(r).wf(),
            chunk_returns(name_litt(), old(r).data@, old(r).pos as int, chunk_sz as int),
        ensures
            same_data(*old(r), *final(r)),
            final(self).lit_heap == old(self).lit_heap,
            loaded(apply_chunk(name_litt(), old(r).data@, old(r).pos as int, chunk_sz as int, old(self)@), res, final(self)@),
    {
        let uncomp_sz = read_u32(r)?;
        if chunk_sz < 4 {
            return Err(RtErr::CodeLoadingFailed("LitT chunk is too short".to_string()));
        }
        let deflated = match r.read_bytes(chunk_sz - 4) {
            Ok(v) => v,
            Err(e) => return Err(RtErr::ReadError(e)),
        };
        let inflated = match zlib_inflate(deflated.as_slice()) {
            Some(v) => v,
            None => return Err(RtErr::CodeLoadingFailed("beam/file: LitT inflate failed".to_string())),
        };
        if inflated.len() != uncomp_sz as usize {
            return Err(RtErr::CodeLoadingFailed("beam/file: LitT inflate failed".to_string()));
        }
        self.decode_literals(inflated)
    }

    /// Apply the chunk `name` of `chunk_sz` bytes whose contents start at
    /// the read position.
    fn load_chunk(&mut self, r: &mut BinaryReader, name: &[u8], chunk_sz: u32) -> (res: RtResult<()>)
        requires
            old(r).wf(),
            chunk_returns(name@, old(r).data@, old(r).pos as int, chunk_sz as int),
        ensures
            !known_chunk(name@) ==> (res matches Err(RtErr::CodeLoadingFailed(m)) && m@ == unexpected_chunk_text(name@)),
            same_data(*old(r), *final(r)),
            final(self).lit_heap == old(self).lit_heap,
            loaded(apply_chunk(name@, old(r).data@, old(r).pos as int, chunk_sz as int, old(self)@), res, final(self)@),
    {
        proof {
            lemma_names_distinct();
        }
        let sz = chunk_sz as usize;
        if name_is(name, 0x41, 0x74, 0x6f, 0x6d) {
            self.load_atoms_latin1(r)
        } else if name_is(name, 0x41, 0x74, 0x55, 0x38) {
            self.load_atoms_utf8(r)
        } else if name_is(name, 0x41, 0x74, 0x74, 0x72) {
            self.load_attributes(r, sz)
        } else if name_is(name, 0x43, 0x49, 0x6e, 0x66) {
            self.load_compiler_info(r, sz)
        } else if name_is(name, 0x43, 0x6f, 0x64, 0x65) {
            self.load_code(r, sz)
        } else if name_is(name, 0x45, 0x78, 0x70, 0x54) {
            let exports = self.load_exports(r)?;
            self.exports = exports;
            Ok(())
        } else if name_is(name, 0x4c, 0x6f, 0x63, 0x54) {
            let locals = self.load_exports(r)?;
            self.locals = locals;
            Ok(())
        } else if name_is(name, 0x46, 0x75, 0x6e, 0x54) {
            self.load_fun_table(r)
        } else if name_is(name, 0x49, 0x6d, 0x70, 0x54) {
            self.load_imports(r)
        } else if name_is(name, 0x4c, 0x69, 0x6e, 0x65) {
            self.load_line_info(r)
        } else if name_is(name, 0x4c, 0x69, 0x74, 0x54) {
            self.load_literals(r, sz)
        } else if name_is(name, 0x44, 0x62, 0x67, 0x69) || name_is(name, 0x53, 0x74, 0x72, 0x54)
            || name_is(name, 0x41, 0x62, 0x73, 0x74) {
            r.skip(sz);
            Ok(())
        } else {
            Err(RtErr::CodeLoadingFailed(unexpected_chunk_message(name)))
        }
    }

    /// Read a BEAM file: check the `FOR1` and `BEAM` signatures, then read
    /// every chunk until the data ends.
    pub fn read_chunks(data: Vec<u8>) -> (res: RtResult<BeamFile>)
        requires
            beam_inflatable(data@),
        ensures
            match beam_decode(data@) {
                Some(v) => res is Ok && res->Ok_0@ == v,
                None => res is Err,
            },
            beam_unknown_chunk(data@) is Some ==> (res matches Err(RtErr::CodeLoadingFailed(m))
                && m@ == unexpected_chunk_text(beam_unknown_chunk(data@)->Some_0)),
            res is Ok ==> res->Ok_0.lit_heap.objs().len() == 0,
    {
        let ghost s = data@;
        let mut beam_file = BeamFile::new();
        let mut r = BinaryReader::from_bytes(data);
        let hdr1: Vec<u8> = vec![0x46, 0x4f, 0x52, 0x31];
        match r.ensure_bytes(hdr1.as_slice()) {
            Ok(()) => {},
            Err(e) => return Err(RtErr::ReadError(e)),
        }
        let _beam_sz = read_u32(&mut r)?;
        let hdr2: Vec<u8> = vec![0x42, 0x45, 0x41, 0x4d];
        match r.ensure_bytes(hdr2.as_slice()) {
            Ok(()) => {},
            Err(e) => return Err(RtErr::ReadError(e)),
        }
        assert(hdr1@ =~= seq![0x46u8, 0x4f, 0x52, 0x31]);
        assert(hdr2@ =~= seq![0x42u8, 0x45, 0x41, 0x4d]);
        loop
            invariant
                r.wf(),
                r.data@ == s,
                s == data@,
                beam_decode(s) == scan_chunks(s, r.pos as int, beam_file@),
                beam_inflatable(s) && beam_header_ok(s),
                scan_returns(s, r.pos as int, beam_file@),
                beam_unknown_chunk(s) == scan_unknown(s, r.pos as int, beam_file@),
                beam_file.lit_heap.objs().len() == 0,
            ensures
                beam_decode(s) == Some(beam_file@),
                beam_unknown_chunk(s) is None,
                beam_file.lit_heap.objs().len() == 0,
            decreases s.len() - r.pos,
        {
            let ghost pos = r.pos as int;
            let chunk_h = match r.read_str_latin1(4) {
                Ok(v) => v,
                Err(_) => break,
            };
            let chunk_sz = read_u32(&mut r)?;
            let pos_begin = r.pos();
            match beam_file.load_chunk(&mut r, chunk_h.as_slice(), chunk_sz) {
                Ok(()) => {},
                Err(e) => return Err(e),
            }
            let aligned: u64 = 4 * ((chunk_sz as u64 + 3) / 4);
            let room = r.data.len() - pos_begin;
            let next = if aligned > room as u64 {
                r.data.len()
            } else {
                pos_begin + aligned as usize
            };
            assert(next == next_chunk(s, pos + 8, be_u32(s, pos + 4)));
            r.seek(next);
        }
        Ok(beam_file)
    }
}

} // verus!
