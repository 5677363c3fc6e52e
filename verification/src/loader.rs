//! The code loader. Stage 1 reads the BEAM file; stage 2 registers atoms
//! and lambdas with the VM; then the code is parsed into code words, labels
//! are resolved, imports are set up, and the module object is made.
use vstd::prelude::*;
use crate::atom_table::{intern_all, AtomTable};
use crate::beam_file::{beam_decode, beam_inflatable, beam_unknown_chunk, unexpected_chunk_text, BeamFile};
use crate::bin_reader::BinaryReader;
use crate::compact_term::{ct_read, CompactTermReader, CtOut, ListParseMode};
use crate::fail::{RtErr, RtResult};
use crate::genop::{
    arity_of, opcode_arity, OPCODE_BIF0, OPCODE_BIF1, OPCODE_BIF2, OPCODE_CALL_EXT, OPCODE_CALL_EXT_LAST,
    OPCODE_CALL_EXT_ONLY, OPCODE_FUNC_INFO, OPCODE_GC_BIF1, OPCODE_GC_BIF2, OPCODE_GC_BIF3, OPCODE_LABEL, OPCODE_LINE,
    OPCODE_MAKE_FUN2, OPCODE_PUT_TUPLE2,
};
use crate::heap::{HeapObject, HeapObjectView, ModFunArity};
use crate::load_time_structs::{LtFun, LtImport};
use crate::module::{
    fun_table_insert, fun_table_set, next_version, CodeServer, CodeWord, FunArity, FunEntry, FunLoc, Module,
    VersionedModuleName};
use crate::term::{LoadtimeTag, Term};
use std::collections::BTreeMap;

verus! {

broadcast use vstd::std_specs::btree::group_btree_axioms, vstd::laws_cmp::group_laws_cmp;

/// A place that holds a label to be replaced by its code location once all
/// labels are known: a code word, or the locations of a jump table.
#[derive(Clone, Copy, PartialEq, Eq, Structural, Debug)]
pub enum PatchLocation {
    PatchCodeOffset(usize),
    PatchJumpTable(Term),
}

/// What parsing the code reads but does not change: the VM atoms of the
/// module's atom indices, the literal table, and whether the module name is
/// set.
pub struct LoadCtx {
    pub atoms: Seq<Term>,
    pub lit_tab: Seq<Term>,
    pub named: bool,
}

/// What parsing the code changes: the code, the labels, the places to
/// patch, the function table and the literal heap objects.
pub struct ParseState {
    pub code: Seq<CodeWord>,
    pub labels: Map<usize, usize>,
    pub patches: Seq<PatchLocation>,
    pub funs: Seq<FunLoc>,
    pub objs: Seq<HeapObjectView>,
}

/// The VM atom of the module's atom index `n`: `[]` for 0, else the atom
/// at `n - 1`.
pub open spec fn atom_of(atoms: Seq<Term>, n: usize) -> Option<Term> {
    if n == 0 {
        Some(Term::Nil)
    } else if n - 1 < atoms.len() {
        Some(atoms[n - 1])
    } else {
        None
    }
}

/// Whether `t` is the load-time value with tag `tag`.
pub open spec fn is_lt(t: Term, tag: LoadtimeTag) -> bool {
    t is Loadtime && t->Loadtime_0 == tag
}

/// A value with its load-time atom, if it is one, made a VM atom.
pub open spec fn resolve_term(atoms: Seq<Term>, t: Term) -> Option<Term> {
    if is_lt(t, LoadtimeTag::Atom) {
        atom_of(atoms, t->Loadtime_1)
    } else {
        Some(t)
    }
}

/// Resolve an argument: a load-time atom becomes a VM atom; the elements
/// of a jump table on the heap are resolved in place.
pub open spec fn resolve_spec(atoms: Seq<Term>, t: Term, objs: Seq<HeapObjectView>) -> Option<(Term, Seq<HeapObjectView>)> {
    if is_lt(t, LoadtimeTag::Atom) {
        match atom_of(atoms, t->Loadtime_1) {
            Some(a) => Some((a, objs)),
            None => None,
        }
    } else if t is Boxed && t->Boxed_0 < objs.len() && objs[t->Boxed_0 as int] is JumpTable {
        let elems = objs[t->Boxed_0 as int]->JumpTable_0;
        if forall|i: int| 0 <= i < elems.len() ==> (#[trigger] resolve_term(atoms, elems[i])) is Some {
            Some((
                t,
                objs.update(
                    t->Boxed_0 as int,
                    HeapObjectView::JumpTable(Seq::new(elems.len(), |i: int| resolve_term(atoms, elems[i])->Some_0)),
                ),
            ))
        } else {
            None
        }
    } else {
        Some((t, objs))
    }
}

/// Read `n` arguments at `pos`, each resolved right after it is read.
pub open spec fn read_args_spec(
    atoms: Seq<Term>,
    s: Seq<u8>,
    pos: int,
    objs: Seq<HeapObjectView>,
    mode: ListParseMode,
    n: nat,
) -> Option<(Seq<Term>, int, Seq<HeapObjectView>)>
    decreases n,
{
    if n == 0 {
        Some((Seq::empty(), pos, objs))
    } else {
        match ct_read(mode, s, pos, objs) {
            CtOut::Fail(_) => None,
            CtOut::Done(t, p, o) => {
                if !(pos < p <= s.len()) {
                    None
                } else {
                    match resolve_spec(atoms, t, o) {
                        None => None,
                        Some((t2, o2)) => match read_args_spec(atoms, s, p, o2, mode, (n - 1) as nat) {
                            Some((ts, q, o3)) => Some((seq![t2] + ts, q, o3)),
                            None => None,
                        },
                    }
                }
            },
        }
    }
}

/// A jump table's elements with each value (even position, in a complete
/// pair) that is a load-time literal replaced by the literal table entry.
pub open spec fn jt_with_literals(lit_tab: Seq<Term>, elems: Seq<Term>) -> Seq<Term> {
    Seq::new(elems.len(), |i: int|
        if i % 2 == 0 && i < 2 * (elems.len() / 2) && is_lt(elems[i], LoadtimeTag::Literal) {
            lit_tab[elems[i]->Loadtime_1 as int]
        } else {
            elems[i]
        })
}

/// Whether every load-time literal among the values of a jump table is in
/// the literal table.
pub open spec fn jt_literals_known(lit_tab: Seq<Term>, elems: Seq<Term>) -> bool {
    forall|i: int| 0 <= i < 2 * (elems.len() / 2) && i % 2 == 0 && is_lt(#[trigger] elems[i], LoadtimeTag::Literal)
        ==> elems[i]->Loadtime_1 < lit_tab.len()
}

/// Store one argument into the code.
pub open spec fn store_arg_spec(ctx: LoadCtx, st: ParseState, arg: Term) -> Option<ParseState> {
    if arg is Boxed && arg->Boxed_0 < st.objs.len() && st.objs[arg->Boxed_0 as int] is JumpTable {
        let elems = st.objs[arg->Boxed_0 as int]->JumpTable_0;
        if !jt_literals_known(ctx.lit_tab, elems) {
            None
        } else {
            Some(ParseState {
                code: st.code.push(CodeWord::Value(arg)),
                objs: st.objs.update(arg->Boxed_0 as int, HeapObjectView::JumpTable(jt_with_literals(ctx.lit_tab, elems))),
                patches: st.patches.push(PatchLocation::PatchJumpTable(arg)),
                ..st
            })
        }
    } else if is_lt(arg, LoadtimeTag::Label) {
        let id = arg->Loadtime_1;
        if st.labels.contains_key(id) {
            Some(ParseState { code: st.code.push(CodeWord::Value(Term::Cp(st.labels[id]))), ..st })
        } else {
            Some(ParseState {
                code: st.code.push(CodeWord::Value(arg)),
                patches: st.patches.push(PatchLocation::PatchCodeOffset(st.code.len() as usize)),
                ..st
            })
        }
    } else if is_lt(arg, LoadtimeTag::Literal) {
        if arg->Loadtime_1 < ctx.lit_tab.len() {
            Some(ParseState { code: st.code.push(CodeWord::Value(ctx.lit_tab[arg->Loadtime_1 as int])), ..st })
        } else {
            None
        }
    } else if arg is Loadtime {
        Some(st)
    } else {
        Some(ParseState { code: st.code.push(CodeWord::Value(arg)), ..st })
    }
}

/// Store the arguments `args` into the code, in order.
pub open spec fn store_args_spec(ctx: LoadCtx, st: ParseState, args: Seq<Term>) -> Option<ParseState>
    decreases args.len(),
{
    if args.len() == 0 {
        Some(st)
    } else {
        match store_arg_spec(ctx, st, args[0]) {
            Some(st2) => store_args_spec(ctx, st2, args.drop_first()),
            None => None,
        }
    }
}

/// The effect of the instruction `op` with its resolved arguments: a label
/// records the current code offset; a line records nothing; a function
/// header records where the function's code begins; every instruction but
/// these is stored with its arguments.
pub open spec fn emit_spec(ctx: LoadCtx, st: ParseState, op: u8, args: Seq<Term>) -> Option<ParseState> {
    if op == OPCODE_LABEL {
        if args.len() >= 1 && args[0] is Small && args[0]->Small_0 >= 0 && st.code.len() <= usize::MAX {
            Some(ParseState { labels: st.labels.insert(args[0]->Small_0 as usize, st.code.len() as usize), ..st })
        } else {
            None
        }
    } else if op == OPCODE_LINE {
        Some(st)
    } else if op == OPCODE_FUNC_INFO {
        if !ctx.named || args.len() < 3 || !(args[2] is Small && args[2]->Small_0 >= 0) || st.code.len() + 4 > usize::MAX {
            None
        } else {
            let fa = FunArity { f: args[1], arity: args[2]->Small_0 as usize };
            store_args_spec(
                ctx,
                ParseState {
                    funs: fun_table_set(st.funs, fa, (st.code.len() + 4) as usize),
                    code: st.code.push(CodeWord::Opcode(op)),
                    ..st
                },
                args,
            )
        }
    } else {
        store_args_spec(ctx, ParseState { code: st.code.push(CodeWord::Opcode(op)), ..st }, args)
    }
}

/// How extended lists are decoded in the arguments of `op`.
pub open spec fn mode_for(op: u8) -> ListParseMode {
    if op != OPCODE_PUT_TUPLE2 {
        ListParseMode::AsJumpTable
    } else {
        ListParseMode::AsTuple2Initializer
    }
}

/// Parse the instruction at `pos`: its opcode byte and arguments.
pub open spec fn instr_spec(ctx: LoadCtx, s: Seq<u8>, pos: int, st: ParseState) -> Option<(ParseState, int)> {
    if pos < 0 || pos >= s.len() {
        None
    } else {
        let op = s[pos];
        match read_args_spec(ctx.atoms, s, pos + 1, st.objs, mode_for(op), arity_of(op) as nat) {
            None => None,
            Some((args, p, o)) => match emit_spec(ctx, ParseState { objs: o, ..st }, op, args) {
                Some(st2) => Some((st2, p)),
                None => None,
            },
        }
    }
}

/// Parse the instructions from `pos` to the end of the code.
pub open spec fn parse_spec(ctx: LoadCtx, s: Seq<u8>, pos: int, st: ParseState) -> Option<ParseState>
    decreases s.len() - pos,
{
    if pos < 0 || pos >= s.len() {
        Some(st)
    } else {
        match instr_spec(ctx, s, pos, st) {
            Some((st2, p)) => {
                if pos < p <= s.len() {
                    parse_spec(ctx, s, p, st2)
                } else {
                    None
                }
            },
            None => None,
        }
    }
}

/// Load-time instruction: an opcode and its arguments, between reading
/// them from the BEAM file and writing them into the code.
pub struct LtInstruction {
    pub opcode: u8,
    pub args: Vec<Term>,
}

impl LtInstruction {
    /// An empty instruction.
    pub fn new() -> (r: LtInstruction)
        ensures
            r.opcode == 0,
            r.args@.len() == 0,
    {
        LtInstruction { opcode: 0, args: Vec::new() }
    }

    /// Start the next instruction, with opcode `op_byte` and no arguments.
    pub fn next(&mut self, op_byte: u8)
        ensures
            final(self).opcode == op_byte,
            final(self).args@.len() == 0,
    {
        self.opcode = op_byte;
        self.args.clear();
    }
}

/// The loader state.
pub struct LoaderState {
    pub beam_file: BeamFile,
    pub name: Option<VersionedModuleName>,
    /// The VM atoms of the module's atoms, in the order of the file.
    pub vm_atoms: Vec<Term>,
    /// The code being written.
    pub code: Vec<CodeWord>,
    /// Label index to code offset.
    pub labels: BTreeMap<usize, usize>,
    /// Places holding labels to replace once all labels are known.
    pub replace_labels: Vec<PatchLocation>,
    /// Function to the code offset where its code begins.
    pub funs: Vec<FunLoc>,
    /// The imports, as terms on the literal heap.
    pub imports: Vec<Term>,
    pub lambdas: Vec<FunEntry>,
}

/// The message for a bad argument `argi` of the opcode `op`.
#[verifier::external_body]
fn op_badarg_message(op: u8, args: &[Term], argi: usize) -> String {
    format!("loader: Opcode {} the arg #{} in {:?} is bad", op, argi, args)
}

impl LoaderState {
    /// What parsing reads but does not change.
    pub open spec fn ctx(&self) -> LoadCtx {
        LoadCtx { atoms: self.vm_atoms@, lit_tab: self.beam_file.lit_tab@, named: self.name is Some }
    }

    /// What parsing changes.
    pub open spec fn pstate(&self) -> ParseState {
        ParseState {
            code: self.code@,
            labels: self.labels@,
            patches: self.replace_labels@,
            funs: self.funs@,
            objs: self.beam_file.lit_heap.objs(),
        }
    }

    /// A new loader state for the file `beam_file`.
    pub fn new(beam_file: BeamFile) -> (r: LoaderState)
        ensures
            r.beam_file == beam_file,
            r.name is None,
            r.vm_atoms@.len() == 0,
            r.code@.len() == 0,
            r.labels@ == Map::<usize, usize>::empty(),
            r.replace_labels@.len() == 0,
            r.funs@.len() == 0,
            r.imports@.len() == 0,
            r.lambdas@.len() == 0,
    {
        LoaderState {
            beam_file,
            name: None,
            vm_atoms: Vec::new(),
            code: Vec::new(),
            labels: BTreeMap::new(),
            replace_labels: Vec::new(),
            funs: Vec::new(),
            imports: Vec::new(),
            lambdas: Vec::new(),
        }
    }

    /// The VM atom for the module's atom index `n`: `[]` for 0, else the
    /// atom at `n - 1`.
    fn atom_from_loadtime_index(&self, n: usize) -> (r: RtResult<Term>)
        ensures
            match atom_of(self.vm_atoms@, n) {
                Some(a) => r == Ok::<Term, RtErr>(a),
                None => r is Err,
            },
    {
        if n == 0 {
            return Ok(Term::nil());
        }
        if n - 1 < self.vm_atoms.len() {
            Ok(self.vm_atoms[n - 1])
        } else {
            Err(RtErr::CodeLoadingFailed("loader: atom index out of range".to_string()))
        }
    }

    /// The name of the module being loaded.
    fn module_name(&self) -> (r: RtResult<Term>)
        ensures
            match self.name {
                Some(n) => r == Ok::<Term, RtErr>(n.module),
                None => r is Err,
            },
    {
        match &self.name {
            Some(mod_id) => Ok(mod_id.module),
            None => Err(RtErr::CodeLoadingFailed("loader: mod_id must be set at this point".to_string())),
        }
    }

    /// A jump destination: a code pointer to the offset `dst_offset`.
    fn create_jump_destination(&self, dst_offset: usize) -> (r: Term)
        ensures
            r == Term::Cp(dst_offset),
    {
        Term::make_cp(dst_offset)
    }

    /// Resolve a value read from the code: a load-time atom becomes the VM
    /// atom; the elements of a jump table are resolved in place.
    pub fn resolve_value(&mut self, arg: Term) -> (r: RtResult<Term>)
        ensures
            final(self).vm_atoms == old(self).vm_atoms,
            final(self).beam_file.lit_tab == old(self).beam_file.lit_tab,
            final(self).beam_file.code == old(self).beam_file.code,
            final(self).beam_file.lit_heap.stack@ == old(self).beam_file.lit_heap.stack@,
            final(self).beam_file.imports == old(self).beam_file.imports,
            final(self).name == old(self).name,
            final(self).code == old(self).code,
            final(self).labels == old(self).labels,
            final(self).replace_labels == old(self).replace_labels,
            final(self).funs == old(self).funs,
            final(self).imports == old(self).imports,
            final(self).lambdas == old(self).lambdas,
            match resolve_spec(old(self).vm_atoms@, arg, old(self).beam_file.lit_heap.objs()) {
                Some((t, o)) => r == Ok::<Term, RtErr>(t) && final(self).beam_file.lit_heap.objs() == o,
                None => r is Err,
            },
    {
        if arg.is_loadtime() {
            if arg.get_loadtime_tag() == LoadtimeTag::Atom {
                return self.atom_from_loadtime_index(arg.get_loadtime_val());
            }
            return Ok(arg);
        }
        if let Term::Boxed(idx) = arg {
            if let Some(elems) = self.beam_file.lit_heap.jump_table_elems(idx) {
                let mut out: Vec<Term> = Vec::new();
                let mut i: usize = 0;
                while i < elems.len()
                    invariant
                        i <= elems@.len(),
                        out@.len() == i,
                        *self == *old(self),
                        arg == Term::Boxed(idx),
                        idx < old(self).beam_file.lit_heap.objs().len(),
                        old(self).beam_file.lit_heap.objs()[idx as int] is JumpTable,
                        elems@ == old(self).beam_file.lit_heap.objs()[idx as int]->JumpTable_0,
                        forall|j: int| 0 <= j < i ==> resolve_term(self.vm_atoms@, elems@[j]) == Some(#[trigger] out@[j]),
                    decreases elems@.len() - i,
                {
                    let e = elems[i];
                    let v = if e.is_loadtime() && e.get_loadtime_tag() == LoadtimeTag::Atom {
                        match self.atom_from_loadtime_index(e.get_loadtime_val()) {
                            Ok(a) => a,
                            Err(err) => {
                                proof {
                                    let elems0 = old(self).beam_file.lit_heap.objs()[idx as int]->JumpTable_0;
                                    assert(elems0[i as int] == elems@[i as int]);
                                    assert(resolve_term(old(self).vm_atoms@, elems0[i as int]) is None);
                                }
                                return Err(err);
                            },
                        }
                    } else {
                        e
                    };
                    out.push(v);
                    i = i + 1;
                }
                let ghost ts = out@;
                self.beam_file.lit_heap.replace(idx, HeapObject::JumpTable(out));
                proof {
                    let elems0 = old(self).beam_file.lit_heap.objs()[idx as int]->JumpTable_0;
                    assert forall|k: int| 0 <= k < elems0.len() implies (#[trigger] resolve_term(
                        old(self).vm_atoms@,
                        elems0[k],
                    )) is Some by {
                        assert(resolve_term(old(self).vm_atoms@, elems@[k]) == Some(ts[k]));
                    }
                    assert(ts =~= Seq::new(elems0.len(), |k: int| resolve_term(old(self).vm_atoms@, elems0[k])->Some_0));
                }
                return Ok(arg);
            }
        }
        Ok(arg)
    }

    /// Resolve a label value: with its location known, a jump destination;
    /// else the value stays and `patch_loc` is remembered, to patch later.
    fn maybe_convert_label(&mut self, val: Term, patch_loc: PatchLocation) -> (r: Term)
        ensures
            same_ctx(*old(self), *final(self)),
            final(self).code == old(self).code,
            final(self).labels == old(self).labels,
            final(self).funs == old(self).funs,
            final(self).beam_file.lit_heap == old(self).beam_file.lit_heap,
            !(val is Loadtime) ==> r == val && final(self).replace_labels@ == old(self).replace_labels@,
            val is Loadtime && old(self).labels@.contains_key(val->Loadtime_1) ==> r == Term::Cp(
                old(self).labels@[val->Loadtime_1],
            ) && final(self).replace_labels@ == old(self).replace_labels@,
            val is Loadtime && !old(self).labels@.contains_key(val->Loadtime_1) ==> r == val
                && final(self).replace_labels@ == old(self).replace_labels@.push(patch_loc),
    {
        if !val.is_loadtime() {
            return val;
        }
        let label_id = val.get_loadtime_val();
        match self.labels.get(&label_id) {
            Some(offset0) => self.create_jump_destination(*offset0),
            None => {
                self.replace_labels.push(patch_loc);
                val
            },
        }
    }

    /// Store one argument into the code: a jump table gets its literal
    /// values resolved and is remembered for label patching; a label
    /// becomes its location when known; a literal becomes the literal table
    /// entry.
    fn store_one_arg(&mut self, arg: Term) -> (r: RtResult<()>)
        ensures
            same_ctx(*old(self), *final(self)),
            match store_arg_spec(old(self).ctx(), old(self).pstate(), arg) {
                Some(st) => r is Ok && final(self).pstate() == st,
                None => r is Err,
            },
    {
        if let Term::Boxed(idx) = arg {
            if let Some(elems) = self.beam_file.lit_heap.jump_table_elems(idx) {
                self.code.push(CodeWord::Value(arg));
                let ghost elems0 = elems@;
                let ghost lt = self.beam_file.lit_tab@;
                let mut new_elems = elems;
                let n_pairs = new_elems.len() / 2;
                let mut pair: usize = 0;
                while pair < n_pairs
                    invariant
                        new_elems@.len() == elems0.len(),
                        pair <= n_pairs,
                        n_pairs == elems0.len() / 2,
                        2 * n_pairs <= elems0.len(),
                        elems0.len() <= usize::MAX,
                        lt == self.beam_file.lit_tab@,
                        same_ctx(*old(self), *self),
                        arg == Term::Boxed(idx),
                        idx < old(self).beam_file.lit_heap.objs().len(),
                        old(self).beam_file.lit_heap.objs()[idx as int] is JumpTable,
                        elems0 == old(self).beam_file.lit_heap.objs()[idx as int]->JumpTable_0,
                        lt == old(self).beam_file.lit_tab@,
                        self.beam_file.lit_heap == old(self).beam_file.lit_heap,
                        self.code@ == old(self).code@.push(CodeWord::Value(arg)),
                        self.labels == old(self).labels,
                        self.funs == old(self).funs,
                        self.replace_labels == old(self).replace_labels,
                        forall|i: int| 0 <= i < elems0.len() ==> #[trigger] new_elems@[i] == (
                            if i % 2 == 0 && i < 2 * pair && is_lt(elems0[i], LoadtimeTag::Literal) {
                                lt[elems0[i]->Loadtime_1 as int]
                            } else {
                                elems0[i]
                            }),
                        forall|i: int| 0 <= i < 2 * pair && i % 2 == 0 && is_lt(#[trigger] elems0[i], LoadtimeTag::Literal)
                            ==> elems0[i]->Loadtime_1 < lt.len(),
                    decreases n_pairs - pair,
                {
                    let val = new_elems[2 * pair];
                    assert(val == elems0[2 * pair as int]);
                    if val.is_loadtime() && val.get_loadtime_tag() == LoadtimeTag::Literal {
                        let k = val.get_loadtime_val();
                        if k >= self.beam_file.lit_tab.len() {
                            assert((2 * pair as int) % 2 == 0);
                            return Err(RtErr::CodeLoadingFailed("loader: literal index out of range".to_string()));
                        }
                        new_elems.set(2 * pair, self.beam_file.lit_tab[k]);
                    }
                    assert((2 * pair as int) % 2 == 0);
                    assert((2 * pair as int + 1) % 2 == 1);
                    pair = pair + 1;
                }
                assert(new_elems@ =~= jt_with_literals(lt, elems0));
                self.beam_file.lit_heap.replace(idx, HeapObject::JumpTable(new_elems));
                self.replace_labels.push(PatchLocation::PatchJumpTable(arg));
                return Ok(());
            }
        }
        if arg.is_loadtime() {
            let lt_tag = arg.get_loadtime_tag();
            let f = arg.get_loadtime_val();
            if lt_tag == LoadtimeTag::Label {
                let ploc = PatchLocation::PatchCodeOffset(self.code.len());
                let resolved_location = self.maybe_convert_label(arg, ploc);
                self.code.push(CodeWord::Value(resolved_location));
            } else if lt_tag == LoadtimeTag::Literal {
                if f >= self.beam_file.lit_tab.len() {
                    return Err(RtErr::CodeLoadingFailed("loader: literal index out of range".to_string()));
                }
                let v = self.beam_file.lit_tab[f];
                self.code.push(CodeWord::Value(v));
            }
        } else {
            self.code.push(CodeWord::Value(arg));
        }
        Ok(())
    }

    /// Store the arguments of an instruction into the code, in order.
    fn store_opcode_args(&mut self, args: &[Term]) -> (r: RtResult<()>)
        ensures
            same_ctx(*old(self), *final(self)),
            match store_args_spec(old(self).ctx(), old(self).pstate(), args@) {
                Some(st) => r is Ok && final(self).pstate() == st,
                None => r is Err,
            },
    {
        let mut i: usize = 0;
        assert(args@.subrange(0, args@.len() as int) =~= args@);
        while i < args.len()
            invariant
                i <= args@.len(),
                same_ctx(*old(self), *self),
                store_args_spec(old(self).ctx(), old(self).pstate(), args@) == store_args_spec(
                    self.ctx(),
                    self.pstate(),
                    args@.subrange(i as int, args@.len() as int),
                ),
            decreases args@.len() - i,
        {
            proof {
                let rest = args@.subrange(i as int, args@.len() as int);
                assert(rest[0] == args@[i as int]);
                assert(rest.drop_first() =~= args@.subrange(i + 1, args@.len() as int));
            }
            self.store_one_arg(args[i])?;
            i = i + 1;
        }
        Ok(())
    }
}

impl LoaderState {
    /// Read the `n` arguments of an instruction, resolving each.
    fn read_instr_args(&mut self, ct: &mut CompactTermReader, reader: &mut BinaryReader, n: usize) -> (r: RtResult<Vec<Term>>)
        requires
            old(reader).wf(),
        ensures
            same_ctx(*old(self), *final(self)),
            final(self).code == old(self).code,
            final(self).labels == old(self).labels,
            final(self).replace_labels == old(self).replace_labels,
            final(self).funs == old(self).funs,
            final(ct).mode == old(ct).mode,
            final(reader).wf(),
            final(reader).data@ == old(reader).data@,
            final(reader).pos >= old(reader).pos,
            match read_args_spec(old(self).vm_atoms@, old(reader).data@, old(reader).pos as int,
                old(self).beam_file.lit_heap.objs(), old(ct).mode, n as nat) {
                Some((ts, q, o)) => r is Ok && r->Ok_0@ == ts && final(reader).pos == q
                    && final(self).beam_file.lit_heap.objs() == o,
                None => r is Err,
            },
    {
        let ghost s = reader.data@;
        let ghost total = read_args_spec(self.vm_atoms@, s, reader.pos as int, self.beam_file.lit_heap.objs(), ct.mode, n as nat);
        let mut args: Vec<Term> = Vec::new();
        let mut i: usize = 0;
        assert(args@ + Seq::<Term>::empty() =~= args@);
        while i < n
            invariant
                i <= n,
                reader.wf(),
                reader.data@ == s,
                s == old(reader).data@,
                reader.pos >= old(reader).pos,
                ct.mode == old(ct).mode,
                same_ctx(*old(self), *self),
                self.code == old(self).code,
                self.labels == old(self).labels,
                self.replace_labels == old(self).replace_labels,
                self.funs == old(self).funs,
                total == read_args_spec(old(self).vm_atoms@, s, old(reader).pos as int,
                    old(self).beam_file.lit_heap.objs(), old(ct).mode, n as nat),
                total == match read_args_spec(self.vm_atoms@, s, reader.pos as int, self.beam_file.lit_heap.objs(),
                    ct.mode, (n - i) as nat) {
                    Some((ts, q, o)) => Some((args@ + ts, q, o)),
                    None => None,
                },
            decreases n - i,
        {
            let ghost p1 = reader.pos as int;
            let ghost o1 = self.beam_file.lit_heap.objs();
            let arg = ct.read(&mut self.beam_file.lit_heap, reader)?;
            let ghost o2 = self.beam_file.lit_heap.objs();
            let resolved = self.resolve_value(arg)?;
            proof {
                let rest = read_args_spec(self.vm_atoms@, s, reader.pos as int, self.beam_file.lit_heap.objs(), ct.mode,
                    (n - i - 1) as nat);
                match rest {
                    Some((ts, q, o)) => {
                        assert(args@ + (seq![resolved] + ts) =~= args@.push(resolved) + ts);
                    },
                    None => {},
                }
            }
            args.push(resolved);
            i = i + 1;
        }
        assert(args@ + Seq::<Term>::empty() =~= args@);
        Ok(args)
    }

    /// Apply the instruction `op` with its arguments `args`: record a
    /// label's offset, skip a line, record a function's start, and store
    /// every other instruction with its arguments.
    fn emit_instr(&mut self, op: u8, args: &Vec<Term>) -> (r: RtResult<()>)
        ensures
            same_ctx(*old(self), *final(self)),
            match emit_spec(old(self).ctx(), old(self).pstate(), op, args@) {
                Some(st) => r is Ok && final(self).pstate() == st,
                None => r is Err,
            },
    {
        if op == OPCODE_LABEL {
            if args.len() >= 1 && args[0].is_small() && args[0].get_small_signed() >= 0 {
                let f = args[0].get_small_unsigned();
                let floc = self.code.len();
                self.labels.insert(f, floc);
                return Ok(());
            }
            return Err(RtErr::CodeLoadingFailed(op_badarg_message(op, args.as_slice(), 0)));
        }
        if op == OPCODE_LINE {
            return Ok(());
        }
        if op == OPCODE_FUNC_INFO {
            if self.name.is_none() {
                return Err(RtErr::CodeLoadingFailed("loader: mod_id must be set at this point".to_string()));
            }
            if args.len() < 3 || !(args[2].is_small() && args[2].get_small_signed() >= 0) {
                return Err(RtErr::CodeLoadingFailed(op_badarg_message(op, args.as_slice(), 2)));
            }
            if self.code.len() > usize::MAX - 4 {
                return Err(RtErr::CodeLoadingFailed("loader: code is too large".to_string()));
            }
            let funarity = FunArity { f: args[1], arity: args[2].get_small_unsigned() };
            let fun_begin = self.code.len() + 4;
            fun_table_insert(&mut self.funs, funarity, fun_begin);
            self.code.push(CodeWord::Opcode(op));
            return self.store_opcode_args(args.as_slice());
        }
        self.code.push(CodeWord::Opcode(op));
        self.store_opcode_args(args.as_slice())
    }

    /// Parse the code section into code words: for each instruction read
    /// the opcode and its arguments, resolve them, and store them.
    #[verifier::rlimit(40)]
    pub fn parse_raw_code(&mut self) -> (r: RtResult<()>)
        ensures
            final(self).vm_atoms == old(self).vm_atoms,
            final(self).beam_file.lit_tab == old(self).beam_file.lit_tab,
            final(self).name == old(self).name,
            final(self).imports == old(self).imports,
            final(self).lambdas == old(self).lambdas,
            final(self).beam_file.imports == old(self).beam_file.imports,
            final(self).beam_file.code@.len() == 0,
            match parse_spec(old(self).ctx(), old(self).beam_file.code@, 0, old(self).pstate()) {
                Some(st) => r is Ok && final(self).pstate() == st,
                None => r is Err,
            },
    {
        let mut raw_code: Vec<u8> = Vec::new();
        core::mem::swap(&mut self.beam_file.code, &mut raw_code);
        let ghost s = raw_code@;
        let mut reader = BinaryReader::from_bytes(raw_code);
        let mut ct_reader = CompactTermReader::new();
        let mut next_instr = LtInstruction::new();
        while !reader.eof()
            invariant
                reader.wf(),
                reader.data@ == s,
                s == old(self).beam_file.code@,
                self.beam_file.code@.len() == 0,
                self.vm_atoms == old(self).vm_atoms,
                self.beam_file.lit_tab == old(self).beam_file.lit_tab,
                self.name == old(self).name,
                self.imports == old(self).imports,
                self.lambdas == old(self).lambdas,
                self.beam_file.imports == old(self).beam_file.imports,
                parse_spec(old(self).ctx(), s, 0, old(self).pstate()) == parse_spec(
                    self.ctx(),
                    s,
                    reader.pos as int,
                    self.pstate(),
                ),
            decreases s.len() - reader.pos,
        {
            let ghost p0 = reader.pos as int;
            let ghost st0 = self.pstate();
            let op = match reader.read_u8() {
                Ok(v) => v,
                Err(e) => return Err(RtErr::ReadError(e)),
            };
            next_instr.next(op);
            ct_reader.on_ext_list_create_jumptable(next_instr.opcode != OPCODE_PUT_TUPLE2);
            let arity = opcode_arity(next_instr.opcode) as usize;
            let ghost ctx = self.ctx();
            proof {
                assert(op == s[p0]);
                assert(ct_reader.mode == mode_for(op));
                assert(parse_spec(ctx, s, p0, st0) == match instr_spec(ctx, s, p0, st0) {
                    Some((st2, p)) => if p0 < p <= s.len() { parse_spec(ctx, s, p, st2) } else { None },
                    None => None,
                });
            }
            let args = match self.read_instr_args(&mut ct_reader, &mut reader, arity) {
                Ok(a) => a,
                Err(e) => {
                    assert(instr_spec(ctx, s, p0, st0) is None);
                    return Err(e);
                },
            };
            let ghost st1 = self.pstate();
            proof {
                assert(st1 == ParseState { objs: st1.objs, ..st0 });
                assert(reader.pos > p0);
            }
            next_instr.args = args;
            let res = self.emit_instr(next_instr.opcode, &next_instr.args);
            match res {
                Ok(()) => {},
                Err(e) => {
                    assert(instr_spec(ctx, s, p0, st0) is None);
                    return Err(e);
                },
            }
            proof {
                assert(instr_spec(ctx, s, p0, st0) == Some((self.pstate(), reader.pos as int)));
            }
        }
        Ok(())
    }
}

/// The location of a label value: a code pointer to its offset, or `[]`
/// for the label 0 (no location).
pub open spec fn label_target(labels: Map<usize, usize>, val: Term) -> Option<Term> {
    if !is_lt(val, LoadtimeTag::Label) {
        None
    } else if val->Loadtime_1 > 0 {
        if labels.contains_key(val->Loadtime_1) {
            Some(Term::Cp(labels[val->Loadtime_1]))
        } else {
            None
        }
    } else {
        Some(Term::Nil)
    }
}

/// A jump table's elements with each location (odd position, in a complete
/// pair) replaced by its label's location.
pub open spec fn jt_with_locations(labels: Map<usize, usize>, elems: Seq<Term>) -> Seq<Term> {
    Seq::new(elems.len(), |i: int|
        if i % 2 == 1 && i < 2 * (elems.len() / 2) {
            label_target(labels, elems[i])->Some_0
        } else {
            elems[i]
        })
}

/// Whether every location of a jump table is a label with a location.
pub open spec fn jt_locations_known(labels: Map<usize, usize>, elems: Seq<Term>) -> bool {
    forall|i: int| 0 <= i < 2 * (elems.len() / 2) && i % 2 == 1 ==> (#[trigger] label_target(labels, elems[i])) is Some
}

/// Apply one patch to the code and the heap objects.
pub open spec fn apply_patch(labels: Map<usize, usize>, code: Seq<CodeWord>, objs: Seq<HeapObjectView>, p: PatchLocation)
    -> Option<(Seq<CodeWord>, Seq<HeapObjectView>)> {
    match p {
        PatchLocation::PatchCodeOffset(i) => {
            if i < code.len() && code[i as int] is Value && label_target(labels, code[i as int]->Value_0) is Some {
                Some((code.update(i as int, CodeWord::Value(label_target(labels, code[i as int]->Value_0)->Some_0)), objs))
            } else {
                None
            }
        },
        PatchLocation::PatchJumpTable(t) => {
            if t is Boxed && t->Boxed_0 < objs.len() && objs[t->Boxed_0 as int] is JumpTable
                && jt_locations_known(labels, objs[t->Boxed_0 as int]->JumpTable_0) {
                Some((
                    code,
                    objs.update(
                        t->Boxed_0 as int,
                        HeapObjectView::JumpTable(jt_with_locations(labels, objs[t->Boxed_0 as int]->JumpTable_0)),
                    ),
                ))
            } else {
                None
            }
        },
    }
}

/// Apply the patches `ps` in order.
pub open spec fn fix_spec(labels: Map<usize, usize>, code: Seq<CodeWord>, objs: Seq<HeapObjectView>, ps: Seq<PatchLocation>)
    -> Option<(Seq<CodeWord>, Seq<HeapObjectView>)>
    decreases ps.len(),
{
    if ps.len() == 0 {
        Some((code, objs))
    } else {
        match apply_patch(labels, code, objs, ps[0]) {
            Some((c2, o2)) => fix_spec(labels, c2, o2, ps.drop_first()),
            None => None,
        }
    }
}

/// A label refers to the code offset where it is defined: defining label
/// `n` when the code holds `c` words records `c`; a reference to `n` read
/// after the definition is stored as the location `c`; and a reference read
/// before it, patched once the labels are known, becomes the location `c`
/// as well, wherever it stands in the code.
pub proof fn law_label_locations(ctx: LoadCtx, st: ParseState, n: usize, code: Seq<CodeWord>, objs: Seq<HeapObjectView>, k: usize)
    requires
        0 < n <= isize::MAX,
        st.code.len() <= usize::MAX,
        k < code.len(),
        code[k as int] == CodeWord::Value(Term::Loadtime(LoadtimeTag::Label, n)),
    ensures
        emit_spec(ctx, st, OPCODE_LABEL, seq![Term::Small(n as isize)]) is Some,
        ({
            let st2 = emit_spec(ctx, st, OPCODE_LABEL, seq![Term::Small(n as isize)])->Some_0;
            &&& st2.labels.contains_key(n)
            &&& st2.labels[n] == st.code.len()
            &&& st2.code == st.code
            &&& store_arg_spec(ctx, st2, Term::Loadtime(LoadtimeTag::Label, n)) is Some
            &&& store_arg_spec(ctx, st2, Term::Loadtime(LoadtimeTag::Label, n))->Some_0.code
                == st.code.push(CodeWord::Value(Term::Cp(st.code.len() as usize)))
            &&& apply_patch(st2.labels, code, objs, PatchLocation::PatchCodeOffset(k))
                == Some((code.update(k as int, CodeWord::Value(Term::Cp(st.code.len() as usize))), objs))
        }),
{
}

impl LoaderState {
    /// The location of a label value taken from the code or a jump table.
    fn resolve_loadtime_label(&self, val: Term) -> (r: RtResult<Term>)
        ensures
            match label_target(self.labels@, val) {
                Some(t) => r == Ok::<Term, RtErr>(t),
                None => r is Err,
            },
    {
        if !(val.is_loadtime() && val.get_loadtime_tag() == LoadtimeTag::Label) {
            return Err(RtErr::CodeLoadingFailed("loader: expected a label".to_string()));
        }
        let unfixed = val.get_loadtime_val();
        if unfixed > 0 {
            match self.labels.get(&unfixed) {
                Some(dst_offset) => Ok(self.create_jump_destination(*dst_offset)),
                None => Err(RtErr::CodeLoadingFailed("loader: unknown label".to_string())),
            }
        } else {
            Ok(Term::nil())
        }
    }

    /// Apply one patch.
    fn apply_one_patch(&mut self, ploc: PatchLocation) -> (r: RtResult<()>)
        ensures
            same_ctx(*old(self), *final(self)),
            final(self).labels == old(self).labels,
            final(self).funs == old(self).funs,
            final(self).replace_labels == old(self).replace_labels,
            match apply_patch(old(self).labels@, old(self).code@, old(self).beam_file.lit_heap.objs(), ploc) {
                Some((c, o)) => r is Ok && final(self).code@ == c && final(self).beam_file.lit_heap.objs() == o,
                None => r is Err,
            },
    {
        match ploc {
            PatchLocation::PatchCodeOffset(cmd_offset) => {
                if cmd_offset >= self.code.len() {
                    return Err(RtErr::CodeLoadingFailed("loader: patch location out of range".to_string()));
                }
                match self.code[cmd_offset] {
                    CodeWord::Value(val) => {
                        let t = self.resolve_loadtime_label(val)?;
                        self.code.set(cmd_offset, CodeWord::Value(t));
                        Ok(())
                    },
                    CodeWord::Opcode(_) => Err(RtErr::CodeLoadingFailed("loader: expected a label".to_string())),
                }
            },
            PatchLocation::PatchJumpTable(jtab) => {
                let idx = match jtab {
                    Term::Boxed(i) => i,
                    _ => return Err(RtErr::BoxedIsNotOfType),
                };
                let elems = match self.beam_file.lit_heap.jump_table_elems(idx) {
                    Some(e) => e,
                    None => return Err(RtErr::BoxedIsNotOfType),
                };
                let ghost elems0 = elems@;
                let mut new_elems = elems;
                let count = new_elems.len() / 2;
                let mut i: usize = 0;
                while i < count
                    invariant
                        new_elems@.len() == elems0.len(),
                        elems0.len() <= usize::MAX,
                        i <= count,
                        count == elems0.len() / 2,
                        2 * count <= elems0.len(),
                        *self == *old(self),
                        ploc == PatchLocation::PatchJumpTable(jtab),
                        jtab == Term::Boxed(idx),
                        idx < old(self).beam_file.lit_heap.objs().len(),
                        old(self).beam_file.lit_heap.objs()[idx as int] is JumpTable,
                        elems0 == old(self).beam_file.lit_heap.objs()[idx as int]->JumpTable_0,
                        forall|k: int| 0 <= k < elems0.len() ==> #[trigger] new_elems@[k] == (
                            if k % 2 == 1 && k < 2 * i { label_target(self.labels@, elems0[k])->Some_0 } else { elems0[k] }),
                        forall|k: int| 0 <= k < 2 * i && k % 2 == 1 ==> (#[trigger] label_target(self.labels@, elems0[k])) is Some,
                    decreases count - i,
                {
                    let val = new_elems[2 * i + 1];
                    assert(val == elems0[2 * i + 1]);
                    assert((2 * i as int + 1) % 2 == 1);
                    assert((2 * i as int) % 2 == 0);
                    let t = self.resolve_loadtime_label(val)?;
                    new_elems.set(2 * i + 1, t);
                    i = i + 1;
                }
                assert(new_elems@ =~= jt_with_locations(self.labels@, elems0));
                self.beam_file.lit_heap.replace(idx, HeapObject::JumpTable(new_elems));
                Ok(())
            },
        }
    }

    /// Replace every remembered label with its location, now that all
    /// labels are known.
    pub fn fix_labels(&mut self) -> (r: RtResult<()>)
        ensures
            same_ctx(*old(self), *final(self)),
            final(self).labels == old(self).labels,
            final(self).funs == old(self).funs,
            final(self).replace_labels@.len() == 0,
            match fix_spec(old(self).labels@, old(self).code@, old(self).beam_file.lit_heap.objs(), old(self).replace_labels@) {
                Some((c, o)) => r is Ok && final(self).code@ == c && final(self).beam_file.lit_heap.objs() == o,
                None => r is Err,
            },
    {
        let mut repl: Vec<PatchLocation> = Vec::new();
        core::mem::swap(&mut repl, &mut self.replace_labels);
        let mut i: usize = 0;
        assert(repl@.subrange(0, repl@.len() as int) =~= repl@);
        while i < repl.len()
            invariant
                i <= repl@.len(),
                repl@ == old(self).replace_labels@,
                self.replace_labels@.len() == 0,
                same_ctx(*old(self), *self),
                self.labels == old(self).labels,
                self.funs == old(self).funs,
                fix_spec(old(self).labels@, old(self).code@, old(self).beam_file.lit_heap.objs(), repl@)
                    == fix_spec(self.labels@, self.code@, self.beam_file.lit_heap.objs(), repl@.subrange(i as int, repl@.len() as int)),
            decreases repl@.len() - i,
        {
            proof {
                let rest = repl@.subrange(i as int, repl@.len() as int);
                assert(rest[0] == repl@[i as int]);
                assert(rest.drop_first() =~= repl@.subrange(i + 1, repl@.len() as int));
            }
            self.apply_one_patch(repl[i])?;
            i = i + 1;
        }
        Ok(())
    }
}

/// The module, function and arity of a raw import, with its atoms made VM
/// atoms.
pub open spec fn import_mfa(atoms: Seq<Term>, ri: LtImport) -> Option<ModFunArity> {
    match (atom_of(atoms, ri.mod_atom_i), atom_of(atoms, ri.fun_atom_i)) {
        (Some(m), Some(f)) => Some(ModFunArity { m, f, arity: ri.arity }),
        _ => None,
    }
}

/// Whether every atom of the raw imports is known.
pub open spec fn imports_known(atoms: Seq<Term>, raw: Seq<LtImport>) -> bool {
    forall|i: int| 0 <= i < raw.len() ==> (#[trigger] import_mfa(atoms, raw[i])) is Some
}

/// The heap objects of the raw imports.
pub open spec fn import_objs(atoms: Seq<Term>, raw: Seq<LtImport>) -> Seq<HeapObjectView> {
    Seq::new(raw.len(), |i: int| HeapObjectView::Import(import_mfa(atoms, raw[i])->Some_0))
}

/// The terms of `n` objects stored from index `base` on.
pub open spec fn boxed_range(base: int, n: nat) -> Seq<Term> {
    Seq::new(n, |i: int| Term::Boxed((base + i) as usize))
}

/// The code with the import index at `at` replaced by the import term.
pub open spec fn rewrite_import_at(code: Seq<CodeWord>, imports: Seq<Term>, at: int) -> Option<Seq<CodeWord>> {
    if 0 <= at < code.len() && code[at] is Value && code[at]->Value_0 is Small && code[at]->Value_0->Small_0 >= 0
        && code[at]->Value_0->Small_0 < imports.len() {
        Some(code.update(at, CodeWord::Value(imports[code[at]->Value_0->Small_0 as int])))
    } else {
        None
    }
}

/// The code with the lambda index at `at` replaced by a lambda reference.
pub open spec fn rewrite_lambda_at(code: Seq<CodeWord>, n_lambdas: nat, at: int) -> Option<Seq<CodeWord>> {
    if 0 <= at < code.len() && code[at] is Value && code[at]->Value_0 is Small && code[at]->Value_0->Small_0 >= 0
        && code[at]->Value_0->Small_0 < n_lambdas {
        Some(code.update(at, CodeWord::Value(Term::Lambda(code[at]->Value_0->Small_0 as usize))))
    } else {
        None
    }
}

/// The rewrite of the instruction `op` at `pc`: `make_fun2` refers to a
/// lambda; calls of other modules' functions and of built-in functions
/// refer to an import.
pub open spec fn rewrite_op(code: Seq<CodeWord>, imports: Seq<Term>, n_lambdas: nat, pc: int, op: u8) -> Option<Seq<CodeWord>> {
    if op == OPCODE_MAKE_FUN2 {
        rewrite_lambda_at(code, n_lambdas, pc + 1)
    } else if op == OPCODE_BIF0 {
        rewrite_import_at(code, imports, pc + 1)
    } else if op == OPCODE_BIF1 || op == OPCODE_BIF2 || op == OPCODE_CALL_EXT || op == OPCODE_CALL_EXT_LAST
        || op == OPCODE_CALL_EXT_ONLY {
        rewrite_import_at(code, imports, pc + 2)
    } else if op == OPCODE_GC_BIF1 || op == OPCODE_GC_BIF2 || op == OPCODE_GC_BIF3 {
        rewrite_import_at(code, imports, pc + 3)
    } else {
        Some(code)
    }
}

/// Rewrite the instructions from `pc` to the end of the code.
pub open spec fn rewrite_spec(code: Seq<CodeWord>, imports: Seq<Term>, n_lambdas: nat, pc: int) -> Option<Seq<CodeWord>>
    decreases code.len() - pc,
{
    if pc < 0 || pc >= code.len() {
        Some(code)
    } else {
        match code[pc] {
            CodeWord::Opcode(op) => match rewrite_op(code, imports, n_lambdas, pc, op) {
                Some(c2) => {
                    if c2.len() != code.len() {
                        None
                    } else if pc + 1 + arity_of(op) >= c2.len() {
                        Some(c2)
                    } else {
                        rewrite_spec(c2, imports, n_lambdas, pc + 1 + arity_of(op))
                    }
                },
                None => None,
            },
            CodeWord::Value(_) => None,
        }
    }
}

impl LoaderState {
    /// Replace the import index at `at` with the import term.
    fn rewrite_import_index_arg(&mut self, at: usize) -> (r: RtResult<()>)
        ensures
            same_ctx(*old(self), *final(self)),
            final(self).labels == old(self).labels,
            final(self).funs == old(self).funs,
            final(self).replace_labels == old(self).replace_labels,
            final(self).beam_file.lit_heap == old(self).beam_file.lit_heap,
            match rewrite_import_at(old(self).code@, old(self).imports@, at as int) {
                Some(c) => r is Ok && final(self).code@ == c,
                None => r is Err,
            },
    {
        if at >= self.code.len() {
            return Err(RtErr::CodeLoadingFailed("loader: import argument out of range".to_string()));
        }
        if let CodeWord::Value(import0) = self.code[at] {
            if import0.is_small() && import0.get_small_signed() >= 0 && import0.get_small_unsigned() < self.imports.len() {
                let import1 = self.imports[import0.get_small_unsigned()];
                self.code.set(at, CodeWord::Value(import1));
                return Ok(());
            }
        }
        Err(RtErr::CodeLoadingFailed("loader: bad import index".to_string()))
    }

    /// Replace the lambda index at `at` with a reference to the lambda.
    fn rewrite_lambda_index_arg(&mut self, at: usize) -> (r: RtResult<()>)
        ensures
            same_ctx(*old(self), *final(self)),
            final(self).labels == old(self).labels,
            final(self).funs == old(self).funs,
            final(self).replace_labels == old(self).replace_labels,
            final(self).beam_file.lit_heap == old(self).beam_file.lit_heap,
            match rewrite_lambda_at(old(self).code@, old(self).lambdas@.len(), at as int) {
                Some(c) => r is Ok && final(self).code@ == c,
                None => r is Err,
            },
    {
        if at >= self.code.len() {
            return Err(RtErr::CodeLoadingFailed("loader: lambda argument out of range".to_string()));
        }
        if let CodeWord::Value(lambda_i) = self.code[at] {
            if lambda_i.is_small() && lambda_i.get_small_signed() >= 0 && lambda_i.get_small_unsigned() < self.lambdas.len() {
                self.code.set(at, CodeWord::Value(Term::Lambda(lambda_i.get_small_unsigned())));
                return Ok(());
            }
        }
        Err(RtErr::CodeLoadingFailed("loader: bad lambda index".to_string()))
    }

    /// Store the imports on the literal heap as module, function and arity
    /// triples; then make every instruction that names an import or a
    /// lambda by index refer to it directly.
    pub fn setup_imports(&mut self) -> (r: RtResult<()>)
        ensures
            final(self).vm_atoms == old(self).vm_atoms,
            final(self).lambdas == old(self).lambdas,
            final(self).name == old(self).name,
            final(self).labels == old(self).labels,
            final(self).funs == old(self).funs,
            final(self).beam_file.lit_heap.stack@ == old(self).beam_file.lit_heap.stack@,
            final(self).beam_file.imports == old(self).beam_file.imports,
            !(imports_known(old(self).vm_atoms@, old(self).beam_file.imports@)
                && old(self).beam_file.lit_heap.objs().len() + old(self).beam_file.imports@.len() <= usize::MAX) ==> r is Err,
            imports_known(old(self).vm_atoms@, old(self).beam_file.imports@)
                && old(self).beam_file.lit_heap.objs().len() + old(self).beam_file.imports@.len() <= usize::MAX ==> {
                let imps = old(self).imports@ + boxed_range(
                    old(self).beam_file.lit_heap.objs().len() as int,
                    old(self).beam_file.imports@.len(),
                );
                match rewrite_spec(old(self).code@, imps, old(self).lambdas@.len(), 0) {
                    Some(c) => r is Ok && final(self).code@ == c && final(self).imports@ == imps
                        && final(self).beam_file.lit_heap.objs() == old(self).beam_file.lit_heap.objs()
                        + import_objs(old(self).vm_atoms@, old(self).beam_file.imports@),
                    None => r is Err,
                }
            },
    {
        let ghost o0 = self.beam_file.lit_heap.objs();
        let ghost raw = self.beam_file.imports@;
        let ghost atoms = self.vm_atoms@;
        let mut i: usize = 0;
        assert(boxed_range(o0.len() as int, 0) =~= Seq::<Term>::empty());
        assert(old(self).imports@ + Seq::<Term>::empty() =~= old(self).imports@);
        assert(import_objs(atoms, raw.subrange(0, 0)) =~= Seq::<HeapObjectView>::empty());
        assert(o0 + Seq::<HeapObjectView>::empty() =~= o0);
        while i < self.beam_file.imports.len()
            invariant
                i <= raw.len(),
                raw == self.beam_file.imports@,
                raw == old(self).beam_file.imports@,
                atoms == self.vm_atoms@,
                atoms == old(self).vm_atoms@,
                o0 == old(self).beam_file.lit_heap.objs(),
                self.vm_atoms == old(self).vm_atoms,
                self.lambdas == old(self).lambdas,
                self.name == old(self).name,
                self.labels == old(self).labels,
                self.funs == old(self).funs,
                self.code == old(self).code,
                self.beam_file.lit_heap.stack@ == old(self).beam_file.lit_heap.stack@,
                self.beam_file.imports == old(self).beam_file.imports,
                forall|j: int| 0 <= j < i ==> (#[trigger] import_mfa(atoms, raw[j])) is Some,
                self.imports@ == old(self).imports@ + boxed_range(o0.len() as int, i as nat),
                self.beam_file.lit_heap.objs() == o0 + import_objs(atoms, raw.subrange(0, i as int)),
            decreases raw.len() - i,
        {
            let ri = self.beam_file.imports[i];
            let mod_atom = self.atom_from_loadtime_index(ri.mod_atom_i);
            let fun_atom = self.atom_from_loadtime_index(ri.fun_atom_i);
            let (mod_atom, fun_atom) = match (mod_atom, fun_atom) {
                (Ok(m), Ok(f)) => (m, f),
                _ => {
                    assert(import_mfa(atoms, raw[i as int]) is None);
                    return Err(RtErr::CodeLoadingFailed("loader: atom index out of range".to_string()));
                },
            };
            let mf_arity = ModFunArity::new(mod_atom, fun_atom, ri.arity);
            assert(import_mfa(atoms, raw[i as int]) == Some(mf_arity));
            let ghost objs_before = self.beam_file.lit_heap.objs();
            let idx = self.beam_file.lit_heap.allocate(HeapObject::Import(mf_arity))?;
            proof {
                assert(import_objs(atoms, raw.subrange(0, i + 1)) =~= import_objs(atoms, raw.subrange(0, i as int)).push(
                    HeapObjectView::Import(mf_arity),
                ));
                assert(self.beam_file.lit_heap.objs() =~= o0 + import_objs(atoms, raw.subrange(0, i + 1)));
                assert(boxed_range(o0.len() as int, (i + 1) as nat) =~= boxed_range(o0.len() as int, i as nat).push(
                    Term::Boxed(idx),
                ));
            }
            self.imports.push(Term::make_boxed(idx));
            i = i + 1;
        }
        assert(raw.subrange(0, raw.len() as int) =~= raw);
        let _heap_len = self.beam_file.lit_heap.len();
        assert(import_objs(atoms, raw).len() == raw.len());
        assert(o0.len() + raw.len() <= usize::MAX);
        let ghost imps = self.imports@;
        let ghost heap_after = self.beam_file.lit_heap.objs();
        let mut pc: usize = 0;
        while pc < self.code.len()
            invariant
                imps == self.imports@,
                self.vm_atoms == old(self).vm_atoms,
                self.lambdas == old(self).lambdas,
                self.name == old(self).name,
                self.labels == old(self).labels,
                self.funs == old(self).funs,
                self.beam_file.lit_heap.stack@ == old(self).beam_file.lit_heap.stack@,
                self.beam_file.imports == old(self).beam_file.imports,
                self.beam_file.lit_heap.objs() == heap_after,
                heap_after == o0 + import_objs(atoms, raw),
                o0 == old(self).beam_file.lit_heap.objs(),
                raw == old(self).beam_file.imports@,
                atoms == old(self).vm_atoms@,
                imports_known(atoms, raw),
                o0.len() + raw.len() <= usize::MAX,
                imps == old(self).imports@ + boxed_range(o0.len() as int, raw.len()),
                rewrite_spec(old(self).code@, imps, old(self).lambdas@.len(), 0)
                    == rewrite_spec(self.code@, imps, old(self).lambdas@.len(), pc as int),
            decreases self.code@.len() - pc,
        {
            let op = match self.code[pc] {
                CodeWord::Opcode(op) => op,
                CodeWord::Value(_) => {
                    return Err(RtErr::CodeLoadingFailed("loader: expected an opcode".to_string()));
                },
            };
            if op == OPCODE_MAKE_FUN2 {
                self.rewrite_lambda_index_arg(pc + 1)?;
            } else if op == OPCODE_BIF0 {
                self.rewrite_import_index_arg(pc + 1)?;
            } else if op == OPCODE_BIF1 || op == OPCODE_BIF2 || op == OPCODE_CALL_EXT || op == OPCODE_CALL_EXT_LAST
                || op == OPCODE_CALL_EXT_ONLY {
                if pc > usize::MAX - 2 {
                    return Err(RtErr::CodeLoadingFailed("loader: import argument out of range".to_string()));
                }
                self.rewrite_import_index_arg(pc + 2)?;
            } else if op == OPCODE_GC_BIF1 || op == OPCODE_GC_BIF2 || op == OPCODE_GC_BIF3 {
                if pc > usize::MAX - 3 {
                    return Err(RtErr::CodeLoadingFailed("loader: import argument out of range".to_string()));
                }
                self.rewrite_import_index_arg(pc + 3)?;
            }
            let step = 1 + opcode_arity(op) as usize;
            if self.code.len() - pc <= step {
                pc = self.code.len();
            } else {
                pc = pc + step;
            }
        }
        Ok(())
    }
}

/// The lambda entries of the raw closures of the module `m`.
pub open spec fn lambda_entries(atoms: Seq<Term>, m: Term, raw: Seq<LtFun>) -> Seq<FunEntry> {
    Seq::new(raw.len(), |i: int| FunEntry {
        mfa: ModFunArity { m, f: atom_of(atoms, raw[i].fun_atom_i)->Some_0, arity: raw[i].arity },
        nfrozen: raw[i].nfrozen,
    })
}

/// Whether the function atoms of the raw closures are known.
pub open spec fn lambdas_known(atoms: Seq<Term>, raw: Seq<LtFun>) -> bool {
    forall|i: int| 0 <= i < raw.len() ==> (#[trigger] atom_of(atoms, raw[i].fun_atom_i)) is Some
}

impl LoaderState {
    /// Name the module by its first atom, with the next code version.
    fn set_mod_id(&mut self, code_server: &mut CodeServer) -> (r: RtResult<()>)
        ensures
            old(self).vm_atoms@.len() == 0 ==> r is Err && *final(self) == *old(self),
            old(self).vm_atoms@.len() > 0 ==> r is Ok && final(self).name == Some(VersionedModuleName {
                module: old(self).vm_atoms@[0],
                version: final(code_server).last_version,
            }),
            old(self).vm_atoms@.len() == 0 ==> *final(code_server) == *old(code_server),
            old(self).vm_atoms@.len() > 0 ==> final(code_server).last_version == next_version(old(code_server).last_version)
                && final(code_server).modules == old(code_server).modules,
            final(self).vm_atoms == old(self).vm_atoms,
            final(self).beam_file == old(self).beam_file,
            final(self).lambdas == old(self).lambdas,
            final(self).code == old(self).code,
            final(self).labels == old(self).labels,
            final(self).replace_labels == old(self).replace_labels,
            final(self).funs == old(self).funs,
            final(self).imports == old(self).imports,
    {
        if self.vm_atoms.len() == 0 {
            return Err(RtErr::CodeLoadingFailed("loader: the module has no atoms".to_string()));
        }
        let mod_name = self.vm_atoms[0];
        let version = code_server.next_module_version(mod_name);
        self.name = Some(VersionedModuleName { module: mod_name, version });
        Ok(())
    }

    /// Register the module's atoms with the VM atom table, then name the
    /// module (its first atom) with the next code version.
    pub fn stage2_register_atoms(&mut self, atoms: &mut AtomTable, code_server: &mut CodeServer) -> (r: RtResult<()>)
        requires
            old(atoms).wf(),
        ensures
            final(atoms).wf(),
            final(self).beam_file == old(self).beam_file,
            final(self).lambdas == old(self).lambdas,
            final(self).code == old(self).code,
            final(self).labels == old(self).labels,
            final(self).replace_labels == old(self).replace_labels,
            final(self).funs == old(self).funs,
            final(self).imports == old(self).imports,
            old(atoms)@.is_prefix_of(final(atoms)@),
            final(atoms)@ == intern_all(old(atoms)@, old(self).beam_file@.atoms),
            r is Err ==> *final(code_server) == *old(code_server),
            r is Ok ==> final(code_server).last_version == next_version(old(code_server).last_version)
                && final(code_server).modules == old(code_server).modules,
            final(self).vm_atoms@.len() == old(self).vm_atoms@.len() + old(self).beam_file.atoms@.len(),
            forall|i: int| 0 <= i < old(self).vm_atoms@.len() ==> final(self).vm_atoms@[i] == old(self).vm_atoms@[i],
            forall|i: int| 0 <= i < old(self).beam_file.atoms@.len() ==> {
                let t = #[trigger] final(self).vm_atoms@[old(self).vm_atoms@.len() + i];
                &&& t is Atom
                &&& t->Atom_0 < final(atoms)@.len()
                &&& final(atoms)@[t->Atom_0 as int] == old(self).beam_file.atoms@[i]@
            },
            final(self).vm_atoms@.len() > 0 <==> r is Ok,
            r is Ok ==> final(self).name == Some(VersionedModuleName {
                module: final(self).vm_atoms@[0],
                version: final(code_server).last_version,
            }),
    {
        let n = self.beam_file.atoms.len();
        let ghost base = self.vm_atoms@.len();
        let mut i: usize = 0;
        while i < n
            invariant
                i <= n,
                n == self.beam_file.atoms@.len(),
                atoms.wf(),
                self.beam_file == old(self).beam_file,
                self.lambdas == old(self).lambdas,
                self.code == old(self).code,
                self.labels == old(self).labels,
                self.replace_labels == old(self).replace_labels,
                self.funs == old(self).funs,
                self.imports == old(self).imports,
                base == old(self).vm_atoms@.len(),
                old(atoms)@.is_prefix_of(atoms@),
                atoms@ == intern_all(old(atoms)@, old(self).beam_file@.atoms.take(i as int)),
                *code_server == *old(code_server),
                self.vm_atoms@.len() == base + i,
                forall|j: int| 0 <= j < base ==> self.vm_atoms@[j] == old(self).vm_atoms@[j],
                forall|j: int| 0 <= j < i ==> {
                    let t = #[trigger] self.vm_atoms@[base + j];
                    &&& t is Atom
                    &&& t->Atom_0 < atoms@.len()
                    &&& atoms@[t->Atom_0 as int] == self.beam_file.atoms@[j]@
                },
            decreases n - i,
        {
            let ghost before = atoms@;
            let a = atoms.intern(self.beam_file.atoms[i].as_slice());
            proof {
                let bv_atoms = old(self).beam_file@.atoms;
                assert(bv_atoms.take(i + 1).drop_last() =~= bv_atoms.take(i as int));
                assert(bv_atoms.take(i + 1).last() == self.beam_file.atoms@[i as int]@);
                assert(before.is_prefix_of(atoms@));
                assert forall|j: int| 0 <= j < i implies {
                    let t = #[trigger] self.vm_atoms@[base + j];
                    &&& t is Atom
                    &&& t->Atom_0 < atoms@.len()
                    &&& atoms@[t->Atom_0 as int] == self.beam_file.atoms@[j]@
                } by {
                    let t = self.vm_atoms@[base + j];
                    assert(before[t->Atom_0 as int] == atoms@[t->Atom_0 as int]);
                }
            }
            self.vm_atoms.push(a);
            i = i + 1;
        }
        assert(old(self).beam_file@.atoms.take(n as int) =~= old(self).beam_file@.atoms);
        self.set_mod_id(code_server)
    }

    /// Make the lambda entries of the module's closures.
    pub fn stage2_fill_lambdas(&mut self) -> (r: RtResult<()>)
        ensures
            final(self).vm_atoms == old(self).vm_atoms,
            final(self).beam_file == old(self).beam_file,
            final(self).name == old(self).name,
            final(self).code == old(self).code,
            final(self).labels == old(self).labels,
            final(self).replace_labels == old(self).replace_labels,
            final(self).funs == old(self).funs,
            final(self).imports == old(self).imports,
            !(old(self).name is Some && lambdas_known(old(self).vm_atoms@, old(self).beam_file.lambdas@)) ==> r is Err,
            old(self).name is Some && lambdas_known(old(self).vm_atoms@, old(self).beam_file.lambdas@) ==> r is Ok
                && final(self).lambdas@ == old(self).lambdas@ + lambda_entries(
                    old(self).vm_atoms@,
                    old(self).name->Some_0.module,
                    old(self).beam_file.lambdas@,
                ),
    {
        let ghost raw = self.beam_file.lambdas@;
        let m = self.module_name()?;
        let mut i: usize = 0;
        assert(old(self).lambdas@ + lambda_entries(self.vm_atoms@, m, raw.subrange(0, 0)) =~= old(self).lambdas@);
        while i < self.beam_file.lambdas.len()
            invariant
                i <= raw.len(),
                raw == self.beam_file.lambdas@,
                self.vm_atoms == old(self).vm_atoms,
                self.beam_file == old(self).beam_file,
                self.name == old(self).name,
                self.code == old(self).code,
                self.labels == old(self).labels,
                self.replace_labels == old(self).replace_labels,
                self.funs == old(self).funs,
                self.imports == old(self).imports,
                old(self).name is Some,
                m == old(self).name->Some_0.module,
                forall|j: int| 0 <= j < i ==> (#[trigger] atom_of(self.vm_atoms@, raw[j].fun_atom_i)) is Some,
                self.lambdas@ == old(self).lambdas@ + lambda_entries(self.vm_atoms@, m, raw.subrange(0, i as int)),
            decreases raw.len() - i,
        {
            let rf = self.beam_file.lambdas[i];
            let fun_name = self.atom_from_loadtime_index(rf.fun_atom_i)?;
            let mfa = ModFunArity::new(m, fun_name, rf.arity);
            let ghost before = self.lambdas@;
            self.lambdas.push(FunEntry::new(mfa, rf.nfrozen));
            proof {
                assert(lambda_entries(self.vm_atoms@, m, raw.subrange(0, i + 1)) =~= lambda_entries(
                    self.vm_atoms@,
                    m,
                    raw.subrange(0, i as int),
                ).push(FunEntry { mfa, nfrozen: rf.nfrozen }));
                assert(self.lambdas@ =~= old(self).lambdas@ + lambda_entries(self.vm_atoms@, m, raw.subrange(0, i + 1)));
            }
            i = i + 1;
        }
        assert(raw.subrange(0, raw.len() as int) =~= raw);
        Ok(())
    }

    /// Make the module object from the loaded code, functions, literal heap
    /// and lambdas, which leave the loader.
    pub fn load_finalize(&mut self) -> (r: RtResult<Module>)
        ensures
            old(self).name is None ==> r is Err,
            old(self).name is Some ==> r is Ok && r->Ok_0.name == old(self).name->Some_0 && r->Ok_0.code@
                == old(self).code@ && r->Ok_0.funs@ == old(self).funs@ && r->Ok_0.lambdas@ == old(self).lambdas@
                && r->Ok_0.lit_heap == old(self).beam_file.lit_heap,
            old(self).name is None ==> *final(self) == *old(self),
            old(self).name is Some ==> final(self).code@.len() == 0 && final(self).funs@.len() == 0
                && final(self).lambdas@.len() == 0 && final(self).beam_file.lit_heap.objs().len() == 0
                && final(self).beam_file.lit_heap.stack@.len() == 0 && final(self).name == old(self).name
                && final(self).vm_atoms == old(self).vm_atoms && final(self).imports == old(self).imports,
    {
        let name = match self.name {
            Some(n) => n,
            None => return Err(RtErr::CodeLoadingFailed("loader: mod_id must be set at this point".to_string())),
        };
        let mut funs: Vec<FunLoc> = Vec::new();
        let mut code: Vec<CodeWord> = Vec::new();
        let mut lit_heap = crate::heap::Heap::new();
        let mut lambdas: Vec<FunEntry> = Vec::new();
        core::mem::swap(&mut self.funs, &mut funs);
        core::mem::swap(&mut self.code, &mut code);
        core::mem::swap(&mut self.beam_file.lit_heap, &mut lit_heap);
        core::mem::swap(&mut self.lambdas, &mut lambdas);
        Ok(Module { name, code, funs, lit_heap, lambdas })
    }
}

/// The VM atoms of the names `names` in the atom table `tbl`, which holds
/// each of them.
pub open spec fn vm_atoms_of(tbl: Seq<Seq<u8>>, names: Seq<Seq<u8>>) -> Seq<Term> {
    Seq::new(names.len(), |i: int| Term::Atom(crate::atom_table::position_of(tbl, names[i]) as usize))
}

/// What loading makes of the BEAM contents `bv`, whose atoms are the VM
/// atoms `vm_atoms`, as the module named `name`: its code, function table,
/// lambdas and literal heap objects; `None` when a stage refuses the
/// contents.
pub open spec fn module_spec(bv: crate::beam_file::BeamView, vm_atoms: Seq<Term>, name: VersionedModuleName) -> Option<
    (Seq<CodeWord>, Seq<FunLoc>, Seq<FunEntry>, Seq<HeapObjectView>),
> {
    if !lambdas_known(vm_atoms, bv.lambdas) {
        None
    } else {
        let ctx = LoadCtx { atoms: vm_atoms, lit_tab: bv.lit_tab, named: true };
        let st0 = ParseState {
            code: Seq::empty(),
            labels: Map::empty(),
            patches: Seq::empty(),
            funs: Seq::empty(),
            objs: Seq::empty(),
        };
        match parse_spec(ctx, bv.code, 0, st0) {
            None => None,
            Some(st) => match fix_spec(st.labels, st.code, st.objs, st.patches) {
                None => None,
                Some((c, o)) => if imports_known(vm_atoms, bv.imports) && o.len() + bv.imports.len() <= usize::MAX {
                    let lambdas = lambda_entries(vm_atoms, name.module, bv.lambdas);
                    match rewrite_spec(c, boxed_range(o.len() as int, bv.imports.len()), lambdas.len(), 0) {
                        None => None,
                        Some(c2) => Some((c2, st.funs, lambdas, o + import_objs(vm_atoms, bv.imports))),
                    }
                } else {
                    None
                },
            },
        }
    }
}

/// Load a module from the bytes of its BEAM file: read the chunks,
/// register the atoms, make the lambdas, parse the code, resolve the
/// labels, set up the imports, and make the module object.
pub fn load_module(atoms: &mut AtomTable, code_srv: &mut CodeServer, data: Vec<u8>) -> (r: RtResult<Module>)
    requires
        old(atoms).wf(),
        beam_inflatable(data@),
    ensures
        beam_unknown_chunk(data@) is Some ==> (r matches Err(RtErr::CodeLoadingFailed(m))
            && m@ == unexpected_chunk_text(beam_unknown_chunk(data@)->Some_0)),
        final(atoms).wf(),
        old(atoms)@.is_prefix_of(final(atoms)@),
        beam_decode(data@) is None ==> r is Err && final(atoms)@ == old(atoms)@ && *final(code_srv) == *old(code_srv),
        beam_decode(data@) is Some ==> final(atoms)@ == intern_all(old(atoms)@, beam_decode(data@)->Some_0.atoms),
        beam_decode(data@) is Some && beam_decode(data@)->Some_0.atoms.len() == 0 ==> r is Err
            && *final(code_srv) == *old(code_srv),
        beam_decode(data@) is Some && beam_decode(data@)->Some_0.atoms.len() > 0 ==> final(code_srv).last_version
            == next_version(old(code_srv).last_version) && final(code_srv).modules == old(code_srv).modules,
        beam_decode(data@) is Some && beam_decode(data@)->Some_0.atoms.len() > 0 ==> ({
            let bv = beam_decode(data@)->Some_0;
            let vm_atoms = vm_atoms_of(final(atoms)@, bv.atoms);
            let name = VersionedModuleName { module: vm_atoms[0], version: next_version(old(code_srv).last_version) };
            &&& forall|i: int| 0 <= i < bv.atoms.len() ==> final(atoms)@.contains(#[trigger] bv.atoms[i])
            &&& match module_spec(bv, vm_atoms, name) {
                None => r is Err,
                Some((code, funs, lambdas, objs)) => r is Ok && r->Ok_0.name == name && r->Ok_0.code@ == code
                    && r->Ok_0.funs@ == funs && r->Ok_0.lambdas@ == lambdas && r->Ok_0.lit_heap.objs() == objs,
            }
        }),
{
    let beam_file = match BeamFile::read_chunks(data) {
        Ok(b) => b,
        Err(e) => return Err(e),
    };
    let ghost bv = beam_file@;
    let mut loader = LoaderState::new(beam_file);
    loader.stage2_register_atoms(atoms, code_srv)?;
    let ghost vm = loader.vm_atoms@;
    proof {
        let tbl = atoms@;
        assert(vm.len() == bv.atoms.len());
        assert forall|i: int| 0 <= i < bv.atoms.len() implies tbl.contains(#[trigger] bv.atoms[i]) by {
            let t = vm[0 + i];
            assert(loader.beam_file.atoms@[i]@ == bv.atoms[i]);
            assert(tbl[t->Atom_0 as int] == bv.atoms[i]);
        }
        assert forall|i: int| 0 <= i < vm.len() implies #[trigger] vm[i] == vm_atoms_of(tbl, bv.atoms)[i] by {
            let t = vm[0 + i];
            assert(loader.beam_file.atoms@[i]@ == bv.atoms[i]);
            let p = crate::atom_table::position_of(tbl, bv.atoms[i]);
            assert(tbl[t->Atom_0 as int] == bv.atoms[i]);
            assert(0 <= p < tbl.len() && tbl[p] == bv.atoms[i]);
            if p != t->Atom_0 as int {
                assert(tbl[p] != tbl[t->Atom_0 as int]);
            }
        }
        assert(vm =~= vm_atoms_of(tbl, bv.atoms));
        let t = loader.vm_atoms@[0int + 0int];
        assert(loader.beam_file.atoms@[0]@ == bv.atoms[0]);
    }
    loader.stage2_fill_lambdas()?;
    let ghost l1 = loader.lambdas@;
    proof {
        assert(l1 =~= lambda_entries(vm, loader.name->Some_0.module, bv.lambdas));
        assert(loader.code@ =~= Seq::<CodeWord>::empty());
        assert(loader.replace_labels@ =~= Seq::<PatchLocation>::empty());
        assert(loader.funs@ =~= Seq::<FunLoc>::empty());
        assert(loader.beam_file.lit_heap.objs() =~= Seq::<HeapObjectView>::empty());
    }
    loader.parse_raw_code()?;
    let ghost st = loader.pstate();
    loader.fix_labels()?;
    let ghost o = loader.beam_file.lit_heap.objs();
    proof {
        assert(loader.imports@ =~= Seq::<Term>::empty());
        assert(Seq::<Term>::empty() + boxed_range(o.len() as int, bv.imports.len()) =~= boxed_range(o.len() as int, bv.imports.len()));
    }
    loader.setup_imports()?;
    loader.load_finalize()
}

/// Parsing leaves these unchanged: the atoms, the literal table, the name,
/// the imports, the lambdas, the raw code and the literal heap's stack.
pub open spec fn same_ctx(a: LoaderState, b: LoaderState) -> bool {
    &&& b.vm_atoms == a.vm_atoms
    &&& b.beam_file.lit_tab == a.beam_file.lit_tab
    &&& b.name == a.name
    &&& b.imports == a.imports
    &&& b.lambdas == a.lambdas
    &&& b.beam_file.code == a.beam_file.code
    &&& b.beam_file.lit_heap.stack@ == a.beam_file.lit_heap.stack@
    &&& b.beam_file.imports == a.beam_file.imports
}

/// Whether no code word is a load-time value.
pub open spec fn no_loadtime(code: Seq<CodeWord>) -> bool {
    forall|k: int| 0 <= k < code.len() && (#[trigger] code[k]) is Value ==> !(code[k]->Value_0 is Loadtime)
}

/// Whether no term of `ts` is a load-time value.
pub open spec fn no_loadtime_terms(ts: Seq<Term>) -> bool {
    forall|k: int| 0 <= k < ts.len() ==> !(#[trigger] ts[k] is Loadtime)
}

/// Whether every load-time value in the code has its place among the
/// patches `ps`.
pub open spec fn loadtime_patched(code: Seq<CodeWord>, ps: Seq<PatchLocation>) -> bool {
    forall|k: int| 0 <= k < code.len() && (#[trigger] code[k]) is Value && code[k]->Value_0 is Loadtime
        ==> ps.contains(PatchLocation::PatchCodeOffset(k as usize))
}

/// Storing one argument keeps every load-time value of the code patched.
proof fn lemma_store_arg_patched(ctx: LoadCtx, st: ParseState, arg: Term)
    requires
        no_loadtime_terms(ctx.lit_tab),
        loadtime_patched(st.code, st.patches),
        store_arg_spec(ctx, st, arg) is Some,
    ensures
        loadtime_patched(store_arg_spec(ctx, st, arg)->Some_0.code, store_arg_spec(ctx, st, arg)->Some_0.patches),
{
    let st2 = store_arg_spec(ctx, st, arg)->Some_0;
    assert forall|k: int| 0 <= k < st2.code.len() && (#[trigger] st2.code[k]) is Value && st2.code[k]->Value_0 is Loadtime
        implies st2.patches.contains(PatchLocation::PatchCodeOffset(k as usize)) by {
        if k < st.code.len() {
            assert(st2.code[k] == st.code[k]);
            assert(st.patches.contains(PatchLocation::PatchCodeOffset(k as usize)));
            let j = choose|j: int| 0 <= j < st.patches.len() && st.patches[j] == PatchLocation::PatchCodeOffset(k as usize);
            assert(st2.patches[j] == st.patches[j]);
        } else {
            assert(k == st.code.len());
            if is_lt(arg, LoadtimeTag::Literal) {
                assert(!(ctx.lit_tab[arg->Loadtime_1 as int] is Loadtime));
            }
            assert(st2.patches[st2.patches.len() - 1] == PatchLocation::PatchCodeOffset(k as usize));
        }
    }
}

/// Storing arguments keeps every load-time value of the code patched.
proof fn lemma_store_args_patched(ctx: LoadCtx, st: ParseState, args: Seq<Term>)
    requires
        no_loadtime_terms(ctx.lit_tab),
        loadtime_patched(st.code, st.patches),
        store_args_spec(ctx, st, args) is Some,
    ensures
        loadtime_patched(store_args_spec(ctx, st, args)->Some_0.code, store_args_spec(ctx, st, args)->Some_0.patches),
    decreases args.len(),
{
    if args.len() > 0 {
        lemma_store_arg_patched(ctx, st, args[0]);
        lemma_store_args_patched(ctx, store_arg_spec(ctx, st, args[0])->Some_0, args.drop_first());
    }
}

/// Parsing keeps every load-time value of the code patched.
proof fn lemma_parse_patched(ctx: LoadCtx, s: Seq<u8>, pos: int, st: ParseState)
    requires
        no_loadtime_terms(ctx.lit_tab),
        loadtime_patched(st.code, st.patches),
        parse_spec(ctx, s, pos, st) is Some,
    ensures
        loadtime_patched(parse_spec(ctx, s, pos, st)->Some_0.code, parse_spec(ctx, s, pos, st)->Some_0.patches),
    decreases s.len() - pos,
{
    if 0 <= pos < s.len() {
        let op = s[pos];
        let (args, p, o) = read_args_spec(ctx.atoms, s, pos + 1, st.objs, mode_for(op), arity_of(op) as nat)->Some_0;
        let st1 = ParseState { objs: o, ..st };
        let st2 = emit_spec(ctx, st1, op, args)->Some_0;
        if op == OPCODE_LABEL || op == OPCODE_LINE {
        } else if op == OPCODE_FUNC_INFO {
            let fa = FunArity { f: args[1], arity: args[2]->Small_0 as usize };
            let st3 = ParseState { funs: fun_table_set(st1.funs, fa, (st1.code.len() + 4) as usize), code: st1.code.push(CodeWord::Opcode(op)), ..st1 };
            assert(loadtime_patched(st3.code, st3.patches)) by {
                assert forall|k: int| 0 <= k < st3.code.len() && (#[trigger] st3.code[k]) is Value && st3.code[k]->Value_0 is Loadtime
                    implies st3.patches.contains(PatchLocation::PatchCodeOffset(k as usize)) by {
                    assert(k < st1.code.len());
                    assert(st3.code[k] == st1.code[k]);
                }
            }
            lemma_store_args_patched(ctx, st3, args);
        } else {
            let st3 = ParseState { code: st1.code.push(CodeWord::Opcode(op)), ..st1 };
            assert(loadtime_patched(st3.code, st3.patches)) by {
                assert forall|k: int| 0 <= k < st3.code.len() && (#[trigger] st3.code[k]) is Value && st3.code[k]->Value_0 is Loadtime
                    implies st3.patches.contains(PatchLocation::PatchCodeOffset(k as usize)) by {
                    assert(k < st1.code.len());
                    assert(st3.code[k] == st1.code[k]);
                }
            }
            lemma_store_args_patched(ctx, st3, args);
        }
        lemma_parse_patched(ctx, s, p, st2);
    }
}

/// Applying patches keeps the length of the code.
proof fn lemma_fix_len(labels: Map<usize, usize>, code: Seq<CodeWord>, objs: Seq<HeapObjectView>, ps: Seq<PatchLocation>)
    requires
        fix_spec(labels, code, objs, ps) is Some,
    ensures
        fix_spec(labels, code, objs, ps)->Some_0.0.len() == code.len(),
    decreases ps.len(),
{
    if ps.len() > 0 {
        let (c2, o2) = apply_patch(labels, code, objs, ps[0])->Some_0;
        lemma_fix_len(labels, c2, o2, ps.drop_first());
    }
}

/// Rewriting keeps the length of the code.
proof fn lemma_rewrite_len(code: Seq<CodeWord>, imports: Seq<Term>, n_lambdas: nat, pc: int)
    requires
        rewrite_spec(code, imports, n_lambdas, pc) is Some,
    ensures
        rewrite_spec(code, imports, n_lambdas, pc)->Some_0.len() == code.len(),
    decreases code.len() - pc,
{
    if 0 <= pc < code.len() {
        let op = code[pc]->Opcode_0;
        let c2 = rewrite_op(code, imports, n_lambdas, pc, op)->Some_0;
        if pc + 1 + arity_of(op) < c2.len() {
            lemma_rewrite_len(c2, imports, n_lambdas, pc + 1 + arity_of(op));
        }
    }
}

/// Applying the patches replaces every load-time value of the code that
/// they list: afterwards none is left.
proof fn lemma_fix_clears(labels: Map<usize, usize>, code: Seq<CodeWord>, objs: Seq<HeapObjectView>, ps: Seq<PatchLocation>)
    requires
        code.len() <= usize::MAX,
        loadtime_patched(code, ps),
        fix_spec(labels, code, objs, ps) is Some,
    ensures
        no_loadtime(fix_spec(labels, code, objs, ps)->Some_0.0),
        fix_spec(labels, code, objs, ps)->Some_0.0.len() == code.len(),
    decreases ps.len(),
{
    if ps.len() == 0 {
        assert forall|k: int| 0 <= k < code.len() && (#[trigger] code[k]) is Value implies !(code[k]->Value_0 is Loadtime) by {
            if code[k]->Value_0 is Loadtime {
                assert(ps.contains(PatchLocation::PatchCodeOffset(k as usize)));
            }
        }
    } else {
        let (c2, o2) = apply_patch(labels, code, objs, ps[0])->Some_0;
        let rest = ps.drop_first();
        assert(c2.len() == code.len());
        assert forall|k: int| 0 <= k < c2.len() && (#[trigger] c2[k]) is Value && c2[k]->Value_0 is Loadtime
            implies rest.contains(PatchLocation::PatchCodeOffset(k as usize)) by {
            match ps[0] {
                PatchLocation::PatchCodeOffset(i) => {
                    if k == i as int {
                        assert(c2[k] == CodeWord::Value(label_target(labels, code[k]->Value_0)->Some_0));
                        assert(false);
                    } else {
                        assert(c2[k] == code[k]);
                    }
                },
                PatchLocation::PatchJumpTable(_) => {
                    assert(c2[k] == code[k]);
                },
            }
            assert(ps.contains(PatchLocation::PatchCodeOffset(k as usize)));
            let j = choose|j: int| 0 <= j < ps.len() && ps[j] == PatchLocation::PatchCodeOffset(k as usize);
            if j == 0 {
                assert(ps[0] == PatchLocation::PatchCodeOffset(k as usize));
                assert((k as usize) as int == k);
                assert(false);
            }
            assert(rest[j - 1] == ps[j]);
        }
        lemma_fix_clears(labels, c2, o2, rest);
    }
}

/// Rewriting import and lambda indices brings in no load-time value.
proof fn lemma_rewrite_keeps(code: Seq<CodeWord>, imports: Seq<Term>, n_lambdas: nat, pc: int)
    requires
        no_loadtime(code),
        no_loadtime_terms(imports),
        rewrite_spec(code, imports, n_lambdas, pc) is Some,
    ensures
        no_loadtime(rewrite_spec(code, imports, n_lambdas, pc)->Some_0),
    decreases code.len() - pc,
{
    if 0 <= pc < code.len() {
        let op = code[pc]->Opcode_0;
        let c2 = rewrite_op(code, imports, n_lambdas, pc, op)->Some_0;
        assert(no_loadtime(c2)) by {
            assert forall|k: int| 0 <= k < c2.len() && (#[trigger] c2[k]) is Value implies !(c2[k]->Value_0 is Loadtime) by {
                if c2[k] != code[k] {
                    if op == OPCODE_MAKE_FUN2 {
                    } else {
                        let at = if op == OPCODE_BIF0 { pc + 1 } else if op == OPCODE_GC_BIF1 || op == OPCODE_GC_BIF2
                            || op == OPCODE_GC_BIF3 { pc + 3 } else { pc + 2 };
                        assert(k == at);
                        assert(!(imports[code[at]->Value_0->Small_0 as int] is Loadtime));
                    }
                }
            }
        }
        if pc + 1 + arity_of(op) < c2.len() {
            lemma_rewrite_keeps(c2, imports, n_lambdas, pc + 1 + arity_of(op));
        }
    }
}

/// A chunk adds no load-time value to the literal table.
proof fn lemma_chunk_lit_tab(name: Seq<u8>, s: Seq<u8>, b: int, size: int, acc: crate::beam_file::BeamView)
    requires
        no_loadtime_terms(acc.lit_tab),
        crate::beam_file::apply_chunk(name, s, b, size, acc) is Some,
    ensures
        no_loadtime_terms(crate::beam_file::apply_chunk(name, s, b, size, acc)->Some_0.lit_tab),
{
    let acc2 = crate::beam_file::apply_chunk(name, s, b, size, acc)->Some_0;
    assert forall|k: int| 0 <= k < acc2.lit_tab.len() implies !(#[trigger] acc2.lit_tab[k] is Loadtime) by {
        if k < acc.lit_tab.len() {
            assert(acc2.lit_tab[k] == acc.lit_tab[k]);
        }
    }
}

/// The literal table of a BEAM file holds no load-time value.
proof fn lemma_scan_lit_tab(s: Seq<u8>, pos: int, acc: crate::beam_file::BeamView)
    requires
        no_loadtime_terms(acc.lit_tab),
        crate::beam_file::scan_chunks(s, pos, acc) is Some,
    ensures
        no_loadtime_terms(crate::beam_file::scan_chunks(s, pos, acc)->Some_0.lit_tab),
    decreases s.len() - pos,
{
    if !(pos < 0 || pos + 4 > s.len()) {
        let size = crate::bin_reader::be_u32(s, pos + 4);
        let acc2 = crate::beam_file::apply_chunk(s.subrange(pos, pos + 4), s, pos + 8, size, acc)->Some_0;
        lemma_chunk_lit_tab(s.subrange(pos, pos + 4), s, pos + 8, size, acc);
        lemma_scan_lit_tab(s, crate::beam_file::next_chunk(s, pos + 8, size), acc2);
    }
}

/// Loading leaves no load-time value in the code: atoms become VM atoms,
/// literals their literal table entries, labels code locations, and import
/// and lambda indices what they refer to.
pub proof fn law_loaded_code_is_resolved(
    data: Seq<u8>,
    vm_atoms: Seq<Term>,
    name: VersionedModuleName,
    code: Seq<CodeWord>,
    funs: Seq<FunLoc>,
    lambdas: Seq<FunEntry>,
    objs: Seq<HeapObjectView>,
)
    requires
        beam_decode(data) is Some,
        module_spec(beam_decode(data)->Some_0, vm_atoms, name) == Some((code, funs, lambdas, objs)),
        code.len() <= usize::MAX,
    ensures
        no_loadtime(code),
{
    let bv = beam_decode(data)->Some_0;
    assert(no_loadtime_terms(crate::beam_file::empty_beam().lit_tab));
    lemma_scan_lit_tab(data, 12, crate::beam_file::empty_beam());
    let ctx = LoadCtx { atoms: vm_atoms, lit_tab: bv.lit_tab, named: true };
    let st0 = ParseState {
        code: Seq::empty(),
        labels: Map::empty(),
        patches: Seq::empty(),
        funs: Seq::empty(),
        objs: Seq::empty(),
    };
    lemma_parse_patched(ctx, bv.code, 0, st0);
    let st = parse_spec(ctx, bv.code, 0, st0)->Some_0;
    lemma_fix_len(st.labels, st.code, st.objs, st.patches);
    let (c, o) = fix_spec(st.labels, st.code, st.objs, st.patches)->Some_0;
    let lam = lambda_entries(vm_atoms, name.module, bv.lambdas);
    lemma_rewrite_len(c, boxed_range(o.len() as int, bv.imports.len()), lam.len(), 0);
    lemma_fix_clears(st.labels, st.code, st.objs, st.patches);
    lemma_rewrite_keeps(c, boxed_range(o.len() as int, bv.imports.len()), lam.len(), 0);
}

} // verus!
