//! Decoder for the compact term format used in the code section of BEAM
//! files. Each value starts with a byte whose low 3 bits are a tag; small
//! values are packed into the same byte, larger ones follow in extra bytes.
use vstd::prelude::*;
use crate::bin_reader::BinaryReader;
use crate::defs::WORD_BYTES;
use crate::fail::{CompactTermError, RtErr, RtResult};
use crate::heap::{grows, BigNum, Heap, HeapObject, HeapObjectView, Sign};
use crate::term::{LoadtimeTag, Term};

verus! {

/// Tag (low 3 bits of the first byte) of a literal integer.
pub const TAG_LITERAL_INT: u8 = 0;
/// Tag of an integer (small or big).
pub const TAG_INTEGER: u8 = 1;
/// Tag of an atom index.
pub const TAG_ATOM: u8 = 2;
/// Tag of an X register.
pub const TAG_XREG: u8 = 3;
/// Tag of a Y register.
pub const TAG_YREG: u8 = 4;
/// Tag of a label.
pub const TAG_LABEL: u8 = 5;
/// Tag of a character.
pub const TAG_CHARACTER: u8 = 6;
/// Tag of an extended value; the whole first byte selects its kind.
pub const TAG_EXTENDED: u8 = 7;

/// Extended tag: a list (a jump table or a tuple initializer).
pub const EXT_LIST: u8 = 0x17;
/// Extended tag: a floating point register.
pub const EXT_FLOAT_REG: u8 = 0x27;
/// Extended tag: an allocation list.
pub const EXT_ALLOC_LIST: u8 = 0x37;
/// Extended tag: a literal table index.
pub const EXT_LITERAL: u8 = 0x47;

/// How an extended list is decoded: as a jump table (value and label
/// location pairs) or as the element list of a `put_tuple2` instruction.
#[derive(Clone, Copy, PartialEq, Eq, Structural, Debug)]
pub enum ListParseMode {
    AsJumpTable,
    AsTuple2Initializer,
}

/// The kinds of failure of the decoder.
pub enum CtFault {
    /// The input ended early.
    Read,
    BadLiteral,
    BadAtom,
    BadXReg,
    BadYReg,
    BadLabel,
    BadCharacter,
    /// A length or a count was not a usable small integer.
    BadInteger,
    BadExtended,
    /// The heap could not hold another object.
    HeapFull,
}

/// Whether the error `e` is of the kind `f`.
pub open spec fn ct_error_is(e: RtErr, f: CtFault) -> bool {
    match f {
        CtFault::Read => e is ReadError,
        CtFault::BadLiteral => e matches RtErr::CodeLoadingCompactTerm(CompactTermError::BadLiteralTag),
        CtFault::BadAtom => e matches RtErr::CodeLoadingCompactTerm(CompactTermError::BadAtomTag),
        CtFault::BadXReg => e matches RtErr::CodeLoadingCompactTerm(CompactTermError::BadXRegTag),
        CtFault::BadYReg => e matches RtErr::CodeLoadingCompactTerm(CompactTermError::BadYRegTag),
        CtFault::BadLabel => e matches RtErr::CodeLoadingCompactTerm(CompactTermError::BadLabelTag),
        CtFault::BadCharacter => e matches RtErr::CodeLoadingCompactTerm(CompactTermError::BadCharacterTag),
        CtFault::BadInteger => e matches RtErr::CodeLoadingCompactTerm(CompactTermError::BadIntegerTag),
        CtFault::BadExtended => e matches RtErr::CodeLoadingCompactTerm(CompactTermError::BadExtendedTag(_)),
        CtFault::HeapFull => e is HeapIsFull,
    }
}

/// Outcome of decoding one value: the value, the position after it and the
/// heap objects afterwards; or a failure.
pub enum CtOut {
    Done(Term, int, Seq<HeapObjectView>),
    Fail(CtFault),
}

/// Outcome of decoding several values in a row.
pub enum CtListOut {
    Done(Seq<Term>, int, Seq<HeapObjectView>),
    Fail(CtFault),
}

/// Outcome of decoding a tagged literal integer.
pub enum CtIntOut {
    Done(int, int, Seq<HeapObjectView>),
    Fail(CtFault),
}

/// Value of bytes read least significant first.
pub open spec fn le_value(s: Seq<u8>) -> nat
    decreases s.len(),
{
    if s.len() == 0 {
        0
    } else {
        s[0] as nat + 256 * le_value(s.drop_first())
    }
}

/// `256` to the power `n`.
pub open spec fn pow256(n: nat) -> nat
    decreases n,
{
    if n == 0 {
        1
    } else {
        256 * pow256((n - 1) as nat)
    }
}

/// The small integer of a multi-byte value: the bytes least significant
/// first, negated when the top bit of the first byte is set.
pub open spec fn small_of_bytes(lb: Seq<u8>) -> int {
    if lb[0] >= 0x80 {
        -(le_value(lb) as int)
    } else {
        le_value(lb) as int
    }
}

/// Decode `n` value bytes at `pos`: a small integer when fewer than a word,
/// else a big integer stored on the heap.
pub open spec fn ct_long(s: Seq<u8>, n: int, pos: int, objs: Seq<HeapObjectView>) -> CtOut {
    if pos < 0 || n < 1 || pos + n > s.len() {
        CtOut::Fail(CtFault::Read)
    } else {
        let lb = s.subrange(pos, pos + n);
        if n < WORD_BYTES {
            CtOut::Done(Term::Small(small_of_bytes(lb) as isize), pos + n, objs)
        } else if objs.len() >= usize::MAX {
            CtOut::Fail(CtFault::HeapFull)
        } else {
            CtOut::Done(
                Term::Boxed(objs.len() as usize),
                pos + n,
                objs.push(HeapObjectView::Bignum(lb[0] >= 0x80, lb)),
            )
        }
    }
}

/// Decode the integer whose first byte `b` was already read; the rest
/// starts at `pos`.
pub open spec fn ct_word(s: Seq<u8>, b: u8, pos: int, objs: Seq<HeapObjectView>) -> CtOut
    decreases s.len() - pos,
{
    if b & 8 == 0 {
        CtOut::Done(Term::Small((b >> 4u8) as isize), pos, objs)
    } else if b & 16 == 0 {
        if pos < 0 || pos >= s.len() {
            CtOut::Fail(CtFault::Read)
        } else {
            CtOut::Done(Term::Small(((b & 0xe0) as int * 8 + s[pos]) as isize), pos + 1, objs)
        }
    } else if (b >> 5u8) + 2 == 9 {
        if pos < 0 || pos >= s.len() {
            CtOut::Fail(CtFault::Read)
        } else {
            match ct_word(s, s[pos], pos + 1, objs) {
                CtOut::Done(t, p, o) => {
                    if t is Small && t->Small_0 >= 0 {
                        ct_long(s, t->Small_0 + 9, p, o)
                    } else {
                        CtOut::Fail(CtFault::BadInteger)
                    }
                },
                CtOut::Fail(f) => CtOut::Fail(f),
            }
        }
    } else {
        ct_long(s, (b >> 5u8) + 2, pos, objs)
    }
}

/// Decode a tagged literal integer at `pos`.
pub open spec fn ct_int(s: Seq<u8>, pos: int, objs: Seq<HeapObjectView>) -> CtIntOut {
    if pos < 0 || pos >= s.len() {
        CtIntOut::Fail(CtFault::Read)
    } else if s[pos] & 7 != TAG_LITERAL_INT {
        CtIntOut::Fail(CtFault::BadLiteral)
    } else {
        match ct_word(s, s[pos], pos + 1, objs) {
            CtOut::Done(t, p, o) => {
                if t is Small {
                    CtIntOut::Done(t->Small_0 as int, p, o)
                } else {
                    CtIntOut::Fail(CtFault::BadInteger)
                }
            },
            CtOut::Fail(f) => CtIntOut::Fail(f),
        }
    }
}

/// Put `ts` in front of the values of a list outcome.
pub open spec fn prepend_terms(ts: Seq<Term>, out: CtListOut) -> CtListOut {
    match out {
        CtListOut::Done(us, p, o) => CtListOut::Done(ts + us, p, o),
        CtListOut::Fail(f) => CtListOut::Fail(f),
    }
}

/// Decode the value at `pos`.
pub open spec fn ct_read(mode: ListParseMode, s: Seq<u8>, pos: int, objs: Seq<HeapObjectView>) -> CtOut
    decreases s.len() - pos, 0nat, 0nat,
{
    if pos < 0 || pos >= s.len() {
        CtOut::Fail(CtFault::Read)
    } else {
        let b = s[pos];
        let tag = b & 7;
        if tag == TAG_EXTENDED {
            ct_ext(mode, s, b, pos + 1, objs)
        } else {
            match ct_word(s, b, pos + 1, objs) {
                CtOut::Fail(f) => CtOut::Fail(f),
                CtOut::Done(w, p, o) => {
                    if tag == TAG_INTEGER {
                        CtOut::Done(w, p, o)
                    } else if tag == TAG_LITERAL_INT {
                        if w is Small { CtOut::Done(w, p, o) } else { CtOut::Fail(CtFault::BadLiteral) }
                    } else if tag == TAG_CHARACTER {
                        if w is Small { CtOut::Done(w, p, o) } else { CtOut::Fail(CtFault::BadCharacter) }
                    } else if !(w is Small && w->Small_0 >= 0) {
                        CtOut::Fail(
                            if tag == TAG_ATOM {
                                CtFault::BadAtom
                            } else if tag == TAG_XREG {
                                CtFault::BadXReg
                            } else if tag == TAG_YREG {
                                CtFault::BadYReg
                            } else {
                                CtFault::BadLabel
                            },
                        )
                    } else {
                        let v = w->Small_0 as usize;
                        if tag == TAG_ATOM {
                            if v == 0 {
                                CtOut::Done(Term::Nil, p, o)
                            } else {
                                CtOut::Done(Term::Loadtime(LoadtimeTag::Atom, v), p, o)
                            }
                        } else if tag == TAG_XREG {
                            CtOut::Done(Term::RegX(v), p, o)
                        } else if tag == TAG_YREG {
                            CtOut::Done(Term::RegY(v), p, o)
                        } else {
                            CtOut::Done(Term::Loadtime(LoadtimeTag::Label, v), p, o)
                        }
                    }
                },
            }
        }
    }
}

/// Decode an extended value whose first byte `b` was already read.
pub open spec fn ct_ext(mode: ListParseMode, s: Seq<u8>, b: u8, pos: int, objs: Seq<HeapObjectView>) -> CtOut
    decreases s.len() - pos, 2nat, 0nat,
{
    if b == EXT_LIST {
        match ct_int(s, pos, objs) {
            CtIntOut::Fail(f) => CtOut::Fail(f),
            CtIntOut::Done(v, p, o) => {
                if !(pos < p <= s.len()) {
                    CtOut::Fail(CtFault::Read)
                } else if v < 0 {
                    CtOut::Fail(CtFault::HeapFull)
                } else {
                    let count: nat = if mode == ListParseMode::AsJumpTable {
                        ((v / 2) * 2) as nat
                    } else {
                        v as nat
                    };
                    match ct_read_n(mode, s, p, o, count) {
                        CtListOut::Fail(f) => CtOut::Fail(f),
                        CtListOut::Done(ts, p2, o2) => {
                            if o2.len() >= usize::MAX {
                                CtOut::Fail(CtFault::HeapFull)
                            } else if mode == ListParseMode::AsJumpTable {
                                CtOut::Done(Term::Boxed(o2.len() as usize), p2, o2.push(HeapObjectView::JumpTable(ts)))
                            } else {
                                CtOut::Done(Term::Boxed(o2.len() as usize), p2, o2.push(HeapObjectView::Tuple(ts)))
                            }
                        },
                    }
                }
            },
        }
    } else if b == EXT_FLOAT_REG || b == EXT_LITERAL {
        if pos < 0 || pos >= s.len() {
            CtOut::Fail(CtFault::Read)
        } else {
            match ct_word(s, s[pos], pos + 1, objs) {
                CtOut::Fail(f) => CtOut::Fail(f),
                CtOut::Done(w, p, o) => {
                    if w is Small && w->Small_0 >= 0 {
                        if b == EXT_FLOAT_REG {
                            CtOut::Done(Term::RegFp(w->Small_0 as usize), p, o)
                        } else {
                            CtOut::Done(Term::Loadtime(LoadtimeTag::Literal, w->Small_0 as usize), p, o)
                        }
                    } else {
                        CtOut::Fail(CtFault::BadExtended)
                    }
                },
            }
        }
    } else {
        CtOut::Fail(CtFault::BadExtended)
    }
}

/// Decode `n` values in a row starting at `pos`.
pub open spec fn ct_read_n(mode: ListParseMode, s: Seq<u8>, pos: int, objs: Seq<HeapObjectView>, n: nat) -> CtListOut
    decreases s.len() - pos, 1nat, n,
{
    if n == 0 {
        CtListOut::Done(Seq::empty(), pos, objs)
    } else {
        match ct_read(mode, s, pos, objs) {
            CtOut::Fail(f) => CtListOut::Fail(f),
            CtOut::Done(t, p, o) => {
                if !(pos < p <= s.len()) {
                    CtListOut::Fail(CtFault::Read)
                } else {
                    prepend_terms(seq![t], ct_read_n(mode, s, p, o, (n - 1) as nat))
                }
            },
        }
    }
}

/// Decoder state: how extended lists are decoded.
pub struct CompactTermReader {
    pub mode: ListParseMode,
}

/// What every decoding step keeps: the reader stays valid over the same
/// data and never moves back, the stack is untouched and the heap only grows.
pub open spec fn ct_frame(h0: Heap, h1: Heap, r0: BinaryReader, r1: BinaryReader) -> bool {
    &&& r1.wf()
    &&& r1.data@ == r0.data@
    &&& r1.pos >= r0.pos
    &&& h1.stack@ == h0.stack@
    &&& grows(h0.objs(), h1.objs())
}

/// Whether `r` is the result described by the outcome `out`, for a reader
/// that ends at `r1` over a heap that ends as `h1`.
pub open spec fn ct_matches(out: CtOut, r: RtResult<Term>, h1: Heap, r1: BinaryReader) -> bool {
    match out {
        CtOut::Done(t, p, o) => r == Ok::<Term, RtErr>(t) && r1.pos == p && h1.objs() == o,
        CtOut::Fail(f) => r is Err && ct_error_is(r->Err_0, f),
    }
}

proof fn lemma_le_value_step(s: Seq<u8>, i: int)
    requires
        0 <= i < s.len(),
    ensures
        le_value(s.subrange(i, s.len() as int)) == s[i] as nat + 256 * le_value(s.subrange(i + 1, s.len() as int)),
{
    assert(s.subrange(i, s.len() as int).drop_first() =~= s.subrange(i + 1, s.len() as int));
}

proof fn lemma_pow256_mono(a: nat, b: nat)
    requires
        a <= b,
    ensures
        pow256(a) <= pow256(b),
    decreases b,
{
    if a < b {
        lemma_pow256_mono(a, (b - 1) as nat);
    }
}

proof fn lemma_pow256_values()
    ensures
        pow256(6) == 0x1_0000_0000_0000,
        pow256(7) == 0x100_0000_0000_0000,
{
    assert(pow256(0) == 1);
    assert(pow256(1) == 0x100);
    assert(pow256(2) == 0x1_0000);
    assert(pow256(3) == 0x100_0000);
    assert(pow256(4) == 0x1_0000_0000);
    assert(pow256(5) == 0x100_0000_0000);
    assert(pow256(6) == 0x1_0000_0000_0000);
    assert(pow256(7) == 0x100_0000_0000_0000);
}

proof fn lemma_grows_trans(a: Seq<HeapObjectView>, b: Seq<HeapObjectView>, c: Seq<HeapObjectView>)
    requires
        grows(a, b),
        grows(b, c),
    ensures
        grows(a, c),
{
    assert forall|i: int| 0 <= i < a.len() implies #[trigger] c[i] == a[i] by {
        assert(b[i] == a[i]);
        assert(c[i] == b[i]);
    }
}

impl CompactTermReader {
    /// A reader that decodes extended lists as jump tables.
    pub fn new() -> (r: CompactTermReader)
        ensures
            r.mode == ListParseMode::AsJumpTable,
    {
        CompactTermReader { mode: ListParseMode::AsJumpTable }
    }

    /// With `true`, extended lists become jump tables (value and label
    /// pairs); with `false`, tuples whose elements may be registers.
    pub fn on_ext_list_create_jumptable(&mut self, b: bool)
        ensures
            final(self).mode == (if b { ListParseMode::AsJumpTable } else { ListParseMode::AsTuple2Initializer }),
    {
        if b {
            self.mode = ListParseMode::AsJumpTable
        } else {
            self.mode = ListParseMode::AsTuple2Initializer
        }
    }

    /// The integer of fewer than a word of bytes, least significant first,
    /// negated for a negative sign.
    fn bytes_to_small(sign: Sign, long_bytes: &[u8]) -> (r: RtResult<Term>)
        requires
            long_bytes@.len() < WORD_BYTES,
        ensures
            r == Ok::<Term, RtErr>(Term::Small(
                (if sign == Sign::Negative { -(le_value(long_bytes@) as int) } else { le_value(long_bytes@) as int }) as isize,
            )),
    {
        let len = long_bytes.len();
        let mut n: i64 = 0;
        let mut i: usize = len;
        proof {
            assert(long_bytes@.subrange(len as int, len as int) =~= Seq::<u8>::empty());
        }
        while i > 0
            invariant
                i <= len,
                len == long_bytes@.len(),
                len < 8,
                n == le_value(long_bytes@.subrange(i as int, len as int)),
                n < pow256((len - i) as nat),
            decreases i,
        {
            i = i - 1;
            proof {
                lemma_le_value_step(long_bytes@, i as int);
                lemma_pow256_mono((len - i - 1) as nat, 6);
                lemma_pow256_values();
            }
            n = n * 256 + long_bytes[i] as i64;
        }
        assert(long_bytes@.subrange(0, len as int) =~= long_bytes@);
        proof {
            lemma_pow256_mono(len as nat, 7);
            lemma_pow256_values();
        }
        if matches!(sign, Sign::Negative) {
            n = -n;
        }
        Ok(Term::make_small_signed(n as isize))
    }

    /// Decode the integer whose first byte `b` was already read, reading
    /// more bytes when the value needs them.
    fn read_word(&mut self, heap: &mut Heap, reader: &mut BinaryReader, b: u8) -> (r: RtResult<Term>)
        requires
            old(reader).wf(),
        ensures
            final(self).mode == old(self).mode,
            ct_frame(*old(heap), *final(heap), *old(reader), *final(reader)),
            ct_matches(ct_word(old(reader).data@, b, old(reader).pos as int, old(heap).objs()), r, *final(heap), *final(reader)),
        decreases old(reader).data@.len() - old(reader).pos,
    {
        if b & 8 == 0 {
            return Ok(Term::make_small_signed((b >> 4u8) as isize));
        }
        if b & 16 == 0 {
            let next = match reader.read_u8() {
                Ok(v) => v,
                Err(e) => return Err(RtErr::ReadError(e)),
            };
            let v: usize = ((b & 0xe0) as usize) * 8 + next as usize;
            return Ok(Term::make_small_signed(v as isize));
        }
        let mut n_bytes: usize = ((b >> 5u8) as usize) + 2;
        if n_bytes == 9 {
            let bnext = match reader.read_u8() {
                Ok(v) => v,
                Err(e) => return Err(RtErr::ReadError(e)),
            };
            let ghost h1 = *heap;
            let ghost r1 = *reader;
            let tmp = self.read_word(heap, reader, bnext)?;
            proof {
                lemma_grows_trans(old(heap).objs(), h1.objs(), heap.objs());
            }
            if tmp.is_small() && tmp.get_small_signed() >= 0 {
                n_bytes = tmp.get_small_unsigned() + 9;
            } else {
                return Err(RtErr::CodeLoadingCompactTerm(CompactTermError::BadIntegerTag));
            }
        }
        let long_bytes = match reader.read_bytes(n_bytes) {
            Ok(v) => v,
            Err(e) => return Err(RtErr::ReadError(e)),
        };
        let sign = if long_bytes[0] >= 0x80 {
            Sign::Negative
        } else {
            Sign::Positive
        };
        if long_bytes.len() < WORD_BYTES {
            return Self::bytes_to_small(sign, long_bytes.as_slice());
        }
        let negative = long_bytes[0] >= 0x80;
        let ghost h2 = heap.objs();
        let idx = heap.allocate(HeapObject::Bignum(BigNum { negative, digits: long_bytes }))?;
        Ok(Term::make_boxed(idx))
    }

    /// Read a tagged literal integer and return its value.
    fn read_int(&mut self, heap: &mut Heap, reader: &mut BinaryReader) -> (r: RtResult<isize>)
        requires
            old(reader).wf(),
        ensures
            final(self).mode == old(self).mode,
            ct_frame(*old(heap), *final(heap), *old(reader), *final(reader)),
            r is Ok ==> final(reader).pos > old(reader).pos,
            match ct_int(old(reader).data@, old(reader).pos as int, old(heap).objs()) {
                CtIntOut::Done(v, p, o) => r == Ok::<isize, RtErr>(v as isize) && final(reader).pos == p
                    && final(heap).objs() == o,
                CtIntOut::Fail(f) => r is Err && ct_error_is(r->Err_0, f),
            },
    {
        let b = match reader.read_u8() {
            Ok(v) => v,
            Err(e) => return Err(RtErr::ReadError(e)),
        };
        if b & 7 != TAG_LITERAL_INT {
            return Err(RtErr::CodeLoadingCompactTerm(CompactTermError::BadLiteralTag));
        }
        let val = self.read_word(heap, reader, b)?;
        if val.is_small() {
            return Ok(val.get_small_signed());
        }
        Err(RtErr::CodeLoadingCompactTerm(CompactTermError::BadIntegerTag))
    }

    /// Read `n` values in a row.
    pub(crate) fn read_n(&mut self, heap: &mut Heap, reader: &mut BinaryReader, n: usize) -> (r: RtResult<Vec<Term>>)
        requires
            old(reader).wf(),
        ensures
            final(self).mode == old(self).mode,
            ct_frame(*old(heap), *final(heap), *old(reader), *final(reader)),
            match ct_read_n(old(self).mode, old(reader).data@, old(reader).pos as int, old(heap).objs(), n as nat) {
                CtListOut::Done(ts, p, o) => r is Ok && r->Ok_0@ == ts && final(reader).pos == p
                    && final(heap).objs() == o,
                CtListOut::Fail(f) => r is Err && ct_error_is(r->Err_0, f),
            },
        decreases old(reader).data@.len() - old(reader).pos, 1nat, 0nat,
    {
        let ghost mode = self.mode;
        let ghost s = reader.data@;
        let ghost p0 = reader.pos as int;
        let ghost o0 = heap.objs();
        let mut items: Vec<Term> = Vec::new();
        let mut i: usize = 0;
        assert(items@ + Seq::<Term>::empty() =~= Seq::<Term>::empty());
        while i < n
            invariant
                self.mode == mode,
                reader.wf(),
                reader.data@ == s,
                reader.pos >= p0,
                p0 == old(reader).pos,
                s == old(reader).data@,
                o0 == old(heap).objs(),
                mode == old(self).mode,
                heap.stack@ == old(heap).stack@,
                grows(o0, heap.objs()),
                i <= n,
                prepend_terms(items@, ct_read_n(mode, s, reader.pos as int, heap.objs(), (n - i) as nat))
                    == ct_read_n(mode, s, p0, o0, n as nat),
            decreases n - i,
        {
            let ghost p1 = reader.pos as int;
            let ghost o1 = heap.objs();
            let ghost items1 = items@;
            let res = self.read(heap, reader);
            match res {
                Err(e) => {
                    return Err(e);
                },
                Ok(t) => {
                    proof {
                        lemma_grows_trans(o0, o1, heap.objs());
                        let rest = ct_read_n(mode, s, reader.pos as int, heap.objs(), (n - i - 1) as nat);
                        assert(ct_read_n(mode, s, p1, o1, (n - i) as nat) == prepend_terms(seq![t], rest));
                        match rest {
                            CtListOut::Done(us, p, o) => {
                                assert(items1 + (seq![t] + us) =~= items1.push(t) + us);
                            },
                            CtListOut::Fail(f) => {},
                        }
                    }
                    items.push(t);
                    i = i + 1;
                },
            }
        }
        assert(items@ + Seq::<Term>::empty() =~= items@);
        Ok(items)
    }

    /// Decode a list as the elements of a new tuple; registers are allowed
    /// among them.
    fn parse_list_as_tuple_initializer(&mut self, heap: &mut Heap, reader: &mut BinaryReader) -> (r: RtResult<Term>)
        requires
            old(reader).wf(),
            old(self).mode == ListParseMode::AsTuple2Initializer,
        ensures
            final(self).mode == old(self).mode,
            ct_frame(*old(heap), *final(heap), *old(reader), *final(reader)),
            ct_matches(ct_ext(old(self).mode, old(reader).data@, EXT_LIST, old(reader).pos as int, old(heap).objs()), r, *final(heap), *final(reader)),
        decreases old(reader).data@.len() - old(reader).pos, 2nat, 0nat,
    {
        let ghost o0 = heap.objs();
        let arity = self.read_int(heap, reader)?;
        if arity < 0 {
            return Err(RtErr::HeapIsFull);
        }
        let ghost o1 = heap.objs();
        let items = self.read_n(heap, reader, arity as usize)?;
        proof {
            lemma_grows_trans(o0, o1, heap.objs());
        }
        let ghost o2 = heap.objs();
        let idx = heap.allocate(HeapObject::Tuple(items))?;
        proof {
            lemma_grows_trans(o0, o2, heap.objs());
        }
        Ok(Term::make_boxed(idx))
    }

    /// Decode a list as a jump table of value and label pairs.
    fn parse_list_as_jump_table(&mut self, heap: &mut Heap, reader: &mut BinaryReader) -> (r: RtResult<Term>)
        requires
            old(reader).wf(),
            old(self).mode == ListParseMode::AsJumpTable,
        ensures
            final(self).mode == old(self).mode,
            ct_frame(*old(heap), *final(heap), *old(reader), *final(reader)),
            ct_matches(ct_ext(old(self).mode, old(reader).data@, EXT_LIST, old(reader).pos as int, old(heap).objs()), r, *final(heap), *final(reader)),
        decreases old(reader).data@.len() - old(reader).pos, 2nat, 0nat,
    {
        let ghost o0 = heap.objs();
        let arity = self.read_int(heap, reader)?;
        if arity < 0 {
            return Err(RtErr::HeapIsFull);
        }
        let n_pairs = (arity as usize) / 2;
        let ghost o1 = heap.objs();
        let items = self.read_n(heap, reader, n_pairs * 2)?;
        proof {
            lemma_grows_trans(o0, o1, heap.objs());
        }
        let ghost o2 = heap.objs();
        let idx = heap.allocate(HeapObject::JumpTable(items))?;
        proof {
            lemma_grows_trans(o0, o2, heap.objs());
        }
        Ok(Term::make_boxed(idx))
    }

    /// Decode the float register number that follows its extended tag.
    fn parse_ext_fpreg(&mut self, heap: &mut Heap, reader: &mut BinaryReader) -> (r: RtResult<Term>)
        requires
            old(reader).wf(),
        ensures
            final(self).mode == old(self).mode,
            ct_frame(*old(heap), *final(heap), *old(reader), *final(reader)),
            ct_matches(
                ct_ext(old(self).mode, old(reader).data@, EXT_FLOAT_REG, old(reader).pos as int, old(heap).objs()),
                r,
                *final(heap),
                *final(reader),
            ),
    {
        let b1 = match reader.read_u8() {
            Ok(v) => v,
            Err(e) => return Err(RtErr::ReadError(e)),
        };
        let reg = self.read_word(heap, reader, b1)?;
        if reg.is_small() && reg.get_small_signed() >= 0 {
            return Ok(Term::make_register_float(reg.get_small_unsigned()));
        }
        let msg = "Ext tag FPReg value too big".to_string();
        Err(RtErr::CodeLoadingCompactTerm(CompactTermError::BadExtendedTag(msg)))
    }

    /// Decode the literal table index that follows its extended tag.
    fn parse_ext_literal(&mut self, heap: &mut Heap, reader: &mut BinaryReader) -> (r: RtResult<Term>)
        requires
            old(reader).wf(),
        ensures
            final(self).mode == old(self).mode,
            ct_frame(*old(heap), *final(heap), *old(reader), *final(reader)),
            ct_matches(
                ct_ext(old(self).mode, old(reader).data@, EXT_LITERAL, old(reader).pos as int, old(heap).objs()),
                r,
                *final(heap),
                *final(reader),
            ),
    {
        let b1 = match reader.read_u8() {
            Ok(v) => v,
            Err(e) => return Err(RtErr::ReadError(e)),
        };
        let reg = self.read_word(heap, reader, b1)?;
        if reg.is_small() && reg.get_small_signed() >= 0 {
            return Ok(Term::make_loadtime_literal(reg.get_small_unsigned()));
        }
        let msg = "compact_term: loadtime Literal index too big".to_string();
        Err(RtErr::CodeLoadingCompactTerm(CompactTermError::BadExtendedTag(msg)))
    }

    /// Decode an extended value whose first byte `b` was already read.
    fn parse_ext_tag(&mut self, heap: &mut Heap, reader: &mut BinaryReader, b: u8) -> (r: RtResult<Term>)
        requires
            old(reader).wf(),
        ensures
            final(self).mode == old(self).mode,
            ct_frame(*old(heap), *final(heap), *old(reader), *final(reader)),
            ct_matches(ct_ext(old(self).mode, old(reader).data@, b, old(reader).pos as int, old(heap).objs()), r, *final(heap), *final(reader)),
        decreases old(reader).data@.len() - old(reader).pos, 3nat, 0nat,
    {
        if b == EXT_LIST {
            match self.mode {
                ListParseMode::AsJumpTable => self.parse_list_as_jump_table(heap, reader),
                ListParseMode::AsTuple2Initializer => self.parse_list_as_tuple_initializer(heap, reader),
            }
        } else if b == EXT_FLOAT_REG {
            self.parse_ext_fpreg(heap, reader)
        } else if b == EXT_LITERAL {
            self.parse_ext_literal(heap, reader)
        } else if b == EXT_ALLOC_LIST {
            Err(RtErr::CodeLoadingCompactTerm(CompactTermError::BadExtendedTag(
                "Don't know how to decode an alloclist".to_string(),
            )))
        } else {
            Err(RtErr::CodeLoadingCompactTerm(CompactTermError::BadExtendedTag(ext_tag_message(b))))
        }
    }

    /// Decode one value. Integers that do not fit a word, jump tables and
    /// tuple initializers are stored on `heap`.
    pub fn read(&mut self, heap: &mut Heap, reader: &mut BinaryReader) -> (r: RtResult<Term>)
        requires
            old(reader).wf(),
        ensures
            final(self).mode == old(self).mode,
            ct_frame(*old(heap), *final(heap), *old(reader), *final(reader)),
            r is Ok ==> final(reader).pos > old(reader).pos,
            ct_matches(ct_read(old(self).mode, old(reader).data@, old(reader).pos as int, old(heap).objs()), r, *final(heap), *final(reader)),
        decreases old(reader).data@.len() - old(reader).pos, 0nat, 0nat,
    {
        let b = match reader.read_u8() {
            Ok(v) => v,
            Err(e) => return Err(RtErr::ReadError(e)),
        };
        let tag = b & 7;
        if tag == TAG_EXTENDED {
            return self.parse_ext_tag(heap, reader, b);
        }
        let bword = self.read_word(heap, reader, b)?;
        if tag == TAG_INTEGER {
            return Ok(bword);
        }
        if tag == TAG_LITERAL_INT {
            if bword.is_small() {
                return Ok(bword);
            }
            return Err(RtErr::CodeLoadingCompactTerm(CompactTermError::BadLiteralTag));
        }
        if tag == TAG_CHARACTER {
            if bword.is_small() {
                return Ok(bword);
            }
            return Err(RtErr::CodeLoadingCompactTerm(CompactTermError::BadCharacterTag));
        }
        if !(bword.is_small() && bword.get_small_signed() >= 0) {
            let e = if tag == TAG_ATOM {
                CompactTermError::BadAtomTag
            } else if tag == TAG_XREG {
                CompactTermError::BadXRegTag
            } else if tag == TAG_YREG {
                CompactTermError::BadYRegTag
            } else {
                CompactTermError::BadLabelTag
            };
            return Err(RtErr::CodeLoadingCompactTerm(e));
        }
        let index = bword.get_small_unsigned();
        if tag == TAG_ATOM {
            if index == 0 {
                return Ok(Term::nil());
            }
            return Ok(Term::make_loadtime_atom(index));
        }
        if tag == TAG_XREG {
            return Ok(Term::make_register_x(index));
        }
        if tag == TAG_YREG {
            return Ok(Term::make_register_y(index));
        }
        Ok(Term::make_loadtime_label(index))
    }
}

/// The message for an unknown extended tag `b`.
#[verifier::external_body]
fn ext_tag_message(b: u8) -> String {
    format!("Ext tag {} unknown", b)
}

} // verus!
