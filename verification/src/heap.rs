//! Storage for boxed values and the process stack.
use vstd::prelude::*;
use crate::term::Term;
use crate::fail::RtErr;

verus! {

/// Module, function and arity triple.
#[derive(Clone, Copy, PartialEq, Eq, Structural, Debug)]
pub struct ModFunArity {
    pub m: Term,
    pub f: Term,
    pub arity: usize,
}

impl ModFunArity {
    /// A new triple.
    pub fn new(m: Term, f: Term, arity: usize) -> (r: ModFunArity)
        ensures
            r == (ModFunArity { m, f, arity }),
    {
        ModFunArity { m, f, arity }
    }
}

/// Sign of a big integer.
#[derive(Clone, Copy, PartialEq, Eq, Structural, Debug)]
pub enum Sign {
    Positive,
    Negative,
}

/// Whether `b` grows `a`: `b` holds the objects of `a` at the same indices.
pub open spec fn grows(a: Seq<HeapObjectView>, b: Seq<HeapObjectView>) -> bool {
    &&& a.len() <= b.len()
    &&& forall|i: int| 0 <= i < a.len() ==> #[trigger] b[i] == a[i]
}

/// A big integer: sign and magnitude bytes, least significant byte first.
#[derive(Debug)]
pub struct BigNum {
    pub negative: bool,
    pub digits: Vec<u8>,
}

/// An object stored on a heap.
#[derive(Debug)]
pub enum HeapObject {
    /// A list cell with head and tail.
    Cons(Term, Term),
    /// A tuple with its elements.
    Tuple(Vec<Term>),
    /// A jump table: value and location, pair after pair.
    JumpTable(Vec<Term>),
    /// A big integer.
    Bignum(BigNum),
    /// A float, kept as its IEEE-754 bit pattern.
    Float(u64),
    /// A binary: its bits, first bit first.
    Binary(Vec<bool>),
    /// A part of a binary: the binary (by its heap index), the bit offset
    /// and the bit count of the part.
    BinarySlice(usize, usize, usize),
    /// The state of matching a binary: the binary (by its heap index) and
    /// the bit offset reached.
    MatchState(usize, usize),
    /// An import: a call target by module, function and arity.
    Import(ModFunArity),
    /// An export: a function object made with `fun m:f/a`.
    Export(ModFunArity),
    /// A closure: the function of its lambda, the number of arguments a
    /// caller passes, and the frozen (captured) values.
    Closure(ModFunArity, usize, Vec<Term>),
}

/// The mathematical value of a heap object.
pub enum HeapObjectView {
    Cons(Term, Term),
    Tuple(Seq<Term>),
    JumpTable(Seq<Term>),
    Bignum(bool, Seq<u8>),
    Float(u64),
    Binary(Seq<bool>),
    BinarySlice(usize, usize, usize),
    MatchState(usize, usize),
    Import(ModFunArity),
    Export(ModFunArity),
    Closure(ModFunArity, usize, Seq<Term>),
}

impl View for HeapObject {
    type V = HeapObjectView;

    open spec fn view(&self) -> HeapObjectView {
        match self {
            HeapObject::Cons(h, t) => HeapObjectView::Cons(*h, *t),
            HeapObject::Tuple(v) => HeapObjectView::Tuple(v@),
            HeapObject::JumpTable(v) => HeapObjectView::JumpTable(v@),
            HeapObject::Bignum(b) => HeapObjectView::Bignum(b.negative, b.digits@),
            HeapObject::Float(f) => HeapObjectView::Float(*f),
            HeapObject::Binary(v) => HeapObjectView::Binary(v@),
            HeapObject::BinarySlice(b, o, n) => HeapObjectView::BinarySlice(*b, *o, *n),
            HeapObject::MatchState(b, o) => HeapObjectView::MatchState(*b, *o),
            HeapObject::Import(m) => HeapObjectView::Import(*m),
            HeapObject::Export(m) => HeapObjectView::Export(*m),
            HeapObject::Closure(i, a, v) => HeapObjectView::Closure(*i, *a, v@),
        }
    }
}

/// Whether the stack `st` has a Y register `i`: the return address of the
/// current frame is on top, its Y registers under it.
pub open spec fn has_y_in(st: Seq<Term>, i: int) -> bool {
    0 <= i && i + 2 <= st.len()
}

/// The stack index of the Y register `i` in the stack `st`.
pub open spec fn y_slot(st: Seq<Term>, i: int) -> int {
    st.len() - 2 - i
}

/// The stack after reserving a frame of `n` words holding `fill` and
/// pushing the return address `cp` on top.
pub open spec fn with_frame(st: Seq<Term>, n: nat, fill: Term, cp: Term) -> Seq<Term> {
    (st + Seq::new(n, |i: int| fill)).push(cp)
}

/// A frame of `n` words under the return address `cp`: its Y registers
/// below `n` exist and read `fill`; a write to one of them is read back and
/// leaves the others; removing the frame gives back `cp` and the stack as
/// it was before the frame.
pub proof fn law_stack_frame(st: Seq<Term>, n: nat, fill: Term, cp: Term, i: int, j: int, v: Term)
    requires
        0 <= i < n,
        0 <= j < n,
        i != j,
    ensures
        has_y_in(with_frame(st, n, fill, cp), i),
        with_frame(st, n, fill, cp)[y_slot(with_frame(st, n, fill, cp), i)] == fill,
        with_frame(st, n, fill, cp).update(y_slot(with_frame(st, n, fill, cp), i), v)[y_slot(with_frame(st, n, fill, cp), i)] == v,
        with_frame(st, n, fill, cp).update(y_slot(with_frame(st, n, fill, cp), i), v)[y_slot(with_frame(st, n, fill, cp), j)]
            == with_frame(st, n, fill, cp)[y_slot(with_frame(st, n, fill, cp), j)],
        with_frame(st, n, fill, cp).last() == cp,
        with_frame(st, n, fill, cp).subrange(0, with_frame(st, n, fill, cp).len() - 1 - n) == st,
{
    let f = with_frame(st, n, fill, cp);
    assert(f[y_slot(f, i)] == fill);
    assert(f.subrange(0, f.len() - 1 - n) =~= st);
}

/// A heap: boxed objects, addressed by index, and a stack of terms whose
/// top is the last element.
pub struct Heap {
    pub objects: Vec<HeapObject>,
    pub stack: Vec<Term>,
}

impl Heap {
    /// The objects of the heap, by value.
    pub open spec fn objs(&self) -> Seq<HeapObjectView> {
        self.objects@.map_values(|o: HeapObject| o@)
    }

    /// An empty heap with an empty stack.
    pub fn new() -> (r: Heap)
        ensures
            r.objs() == Seq::<HeapObjectView>::empty(),
            r.stack@ == Seq::<Term>::empty(),
    {
        let r = Heap { objects: Vec::new(), stack: Vec::new() };
        assert(r.objs() =~= Seq::<HeapObjectView>::empty());
        r
    }

    /// Store `obj` on the heap and return its index. Fails when the heap
    /// cannot address another object.
    pub fn allocate(&mut self, obj: HeapObject) -> (r: Result<usize, RtErr>)
        ensures
            final(self).stack@ == old(self).stack@,
            old(self).objs().len() < usize::MAX ==> r == Ok::<usize, RtErr>(old(self).objs().len() as usize)
                && final(self).objs() == old(self).objs().push(obj@),
            old(self).objs().len() >= usize::MAX ==> r is Err && r->Err_0 is HeapIsFull
                && final(self).objs() == old(self).objs(),
    {
        if self.objects.len() == usize::MAX {
            return Err(RtErr::HeapIsFull);
        }
        let r = self.objects.len();
        let ghost o = obj@;
        self.objects.push(obj);
        assert(self.objs() =~= old(self).objs().push(o));
        Ok(r)
    }

    /// Number of objects on the heap.
    pub fn len(&self) -> (r: usize)
        ensures
            r == self.objs().len(),
    {
        self.objects.len()
    }

    /// The elements of the jump table at index `idx`, if there is one.
    pub fn jump_table_elems(&self, idx: usize) -> (r: Option<Vec<Term>>)
        ensures
            match r {
                Some(v) => idx < self.objs().len() && self.objs()[idx as int] is JumpTable
                    && v@ == self.objs()[idx as int]->JumpTable_0,
                None => !(idx < self.objs().len() && self.objs()[idx as int] is JumpTable),
            },
    {
        if idx >= self.objects.len() {
            return None;
        }
        match &self.objects[idx] {
            HeapObject::JumpTable(v) => {
                let mut out: Vec<Term> = Vec::new();
                let mut i: usize = 0;
                while i < v.len()
                    invariant
                        i <= v@.len(),
                        out@ == v@.subrange(0, i as int),
                    decreases v@.len() - i,
                {
                    out.push(v[i]);
                    i = i + 1;
                    assert(out@ =~= v@.subrange(0, i as int));
                }
                assert(out@ =~= v@);
                Some(out)
            },
            _ => None,
        }
    }

    /// Put `obj` in the place of the object at index `idx`.
    pub fn replace(&mut self, idx: usize, obj: HeapObject)
        requires
            idx < old(self).objs().len(),
        ensures
            final(self).objs() == old(self).objs().update(idx as int, obj@),
            final(self).stack@ == old(self).stack@,
    {
        let ghost o = obj@;
        self.objects.set(idx, obj);
        assert(self.objs() =~= old(self).objs().update(idx as int, o));
    }

    /// Push `t` on top of the stack.
    pub fn stack_push(&mut self, t: Term)
        ensures
            final(self).stack@ == old(self).stack@.push(t),
            final(self).objs() == old(self).objs(),
    {
        self.stack.push(t);
    }

    /// Reserve `n` stack words, each holding `fill`.
    pub fn stack_alloc(&mut self, n: usize, fill: Term)
        ensures
            final(self).stack@ == old(self).stack@ + Seq::new(n as nat, |i: int| fill),
            final(self).objs() == old(self).objs(),
    {
        let mut i: usize = 0;
        while i < n
            invariant
                i <= n,
                self.stack@ == old(self).stack@ + Seq::new(i as nat, |k: int| fill),
                self.objs() == old(self).objs(),
            decreases n - i,
        {
            self.stack.push(fill);
            i = i + 1;
            assert(self.stack@ =~= old(self).stack@ + Seq::new(i as nat, |k: int| fill));
        }
    }

    /// Drop the top `n` stack words.
    pub fn drop_stack_words(&mut self, n: usize)
        requires
            n <= old(self).stack@.len(),
        ensures
            final(self).stack@ == old(self).stack@.subrange(0, old(self).stack@.len() - n),
            final(self).objs() == old(self).objs(),
    {
        let mut i: usize = 0;
        while i < n
            invariant
                i <= n,
                n <= old(self).stack@.len(),
                self.stack@ == old(self).stack@.subrange(0, old(self).stack@.len() - i),
                self.objs() == old(self).objs(),
            decreases n - i,
        {
            self.stack.pop();
            i = i + 1;
            assert(self.stack@ =~= old(self).stack@.subrange(0, old(self).stack@.len() - i));
        }
    }

    /// Remove a stack frame: the return address on top and the `n` words
    /// under it; return the return address.
    pub fn stack_deallocate(&mut self, n: usize) -> (r: Term)
        requires
            n < old(self).stack@.len(),
        ensures
            r == old(self).stack@.last(),
            final(self).stack@ == old(self).stack@.subrange(0, old(self).stack@.len() - 1 - n),
            final(self).objs() == old(self).objs(),
    {
        let cp = self.stack.pop().unwrap();
        self.drop_stack_words(n);
        cp
    }

    /// Whether the Y register `i` of the current frame exists: the frame's
    /// return address is on top of the stack, its Y registers under it.
    pub open spec fn has_y(&self, i: int) -> bool {
        has_y_in(self.stack@, i)
    }

    /// Stack index of the Y register `i`.
    pub open spec fn y_index(&self, i: int) -> int {
        y_slot(self.stack@, i)
    }

    /// The value of the Y register `i`.
    pub fn get_y(&self, i: usize) -> (r: Term)
        requires
            self.has_y(i as int),
        ensures
            r == self.stack@[self.y_index(i as int)],
    {
        self.stack[self.stack.len() - 2 - i]
    }

    /// Set the Y register `i` to `val`; fails when there is no such register.
    pub fn set_y(&mut self, i: usize, val: Term) -> (r: Result<(), RtErr>)
        ensures
            final(self).objs() == old(self).objs(),
            old(self).has_y(i as int) ==> r is Ok && final(self).stack@ == old(self).stack@.update(
                old(self).y_index(i as int),
                val,
            ),
            !old(self).has_y(i as int) ==> r == Err::<(), RtErr>(RtErr::Exception(
                crate::exc_type::ExceptionType::Error,
                Term::Atom(crate::atoms::BADARG),
            )) && final(self).stack@ == old(self).stack@,
    {
        if self.stack.len() < 2 || i > self.stack.len() - 2 {
            return Err(RtErr::Exception(crate::exc_type::ExceptionType::Error, Term::Atom(crate::atoms::BADARG)));
        }
        let k = self.stack.len() - 2 - i;
        self.stack.set(k, val);
        Ok(())
    }
}

/// Where execution continues after an exception is caught: the handler's
/// code location and how many stack words to drop to reach its frame.
#[derive(Clone, Copy, PartialEq, Eq, Structural, Debug)]
pub struct NextCatch {
    pub loc: usize,
    pub stack_drop: usize,
}

/// Whether the stack `st` has its topmost catch marker at `k` and the
/// return address of the frame holding it at `j`: the first return address
/// above the marker.
pub open spec fn catch_frame(st: Seq<Term>, k: int, j: int) -> bool {
    &&& 0 <= k < j < st.len()
    &&& st[k] is Catch
    &&& forall|m: int| k < m < st.len() ==> !(#[trigger] st[m] is Catch)
    &&& st[j] is ReturnAddr
    &&& forall|m: int| k < m < j ==> !(#[trigger] st[m] is ReturnAddr)
}

/// A catch marker written in a Y register of a fresh frame (one whose words
/// are neither catch markers nor return addresses) is the topmost catch of
/// the stack, and the frame's return address is the one it unwinds to: an
/// exception continues at that marker's handler and drops nothing above the
/// frame.
pub proof fn law_catch_in_frame(st: Seq<Term>, n: nat, fill: Term, m: usize, o: usize, i: int, label: usize)
    requires
        0 <= i < n,
        !(fill is Catch),
        !(fill is ReturnAddr),
    ensures
        ({
            let f = with_frame(st, n, fill, Term::ReturnAddr(m, o));
            let g = f.update(y_slot(f, i), Term::Catch(label));
            &&& catch_frame(g, y_slot(f, i), g.len() - 1)
            &&& g[y_slot(f, i)]->Catch_0 == label
            &&& forall|k: int, j: int| catch_frame(g, k, j) ==> k == y_slot(f, i) && j == g.len() - 1
        }),
{
    let f = with_frame(st, n, fill, Term::ReturnAddr(m, o));
    let g = f.update(y_slot(f, i), Term::Catch(label));
    let k0 = y_slot(f, i);
    assert forall|q: int| k0 < q < g.len() implies !(#[trigger] g[q] is Catch) by {
        if q < g.len() - 1 {
            assert(g[q] == fill);
        }
    }
    assert forall|q: int| k0 < q < g.len() - 1 implies !(#[trigger] g[q] is ReturnAddr) by {
        assert(g[q] == fill);
    }
    assert forall|k: int, j: int| catch_frame(g, k, j) implies k == k0 && j == g.len() - 1 by {
        if k < k0 {
            assert(g[k0] is Catch);
        } else if k > k0 {
            assert(!(g[k] is Catch));
        }
        if j < g.len() - 1 {
            assert(g[j] == fill);
        }
    }
}

impl Heap {
    /// Find the topmost catch marker on the stack: the handler location and
    /// the words above its frame's return address, which a jump to the
    /// handler drops.
    pub fn unroll_stack_until_catch(&self) -> (r: Option<NextCatch>)
        ensures
            match r {
                Some(nc) => exists|k: int, j: int| #[trigger] catch_frame(self.stack@, k, j)
                    && nc.loc == self.stack@[k]->Catch_0 && nc.stack_drop == self.stack@.len() - 1 - j,
                None => forall|k: int, j: int| !#[trigger] catch_frame(self.stack@, k, j),
            },
    {
        let len = self.stack.len();
        let mut k: usize = len;
        let mut found = false;
        while k > 0 && !found
            invariant
                k <= len,
                len == self.stack@.len(),
                forall|m: int| k <= m < len ==> !(#[trigger] self.stack@[m] is Catch),
                found ==> k > 0 && self.stack@[k - 1] is Catch,
            decreases k + (if found { 0int } else { 1int }),
        {
            if let Term::Catch(_) = self.stack[k - 1] {
                found = true;
            } else {
                k = k - 1;
            }
        }
        if !found {
            return None;
        }
        let kc = k - 1;
        let loc = match self.stack[kc] {
            Term::Catch(l) => l,
            _ => 0,
        };
        let mut j: usize = kc + 1;
        while j < len
            invariant
                kc < j <= len,
                len == self.stack@.len(),
                self.stack@[kc as int] is Catch,
                loc == self.stack@[kc as int]->Catch_0,
                forall|m: int| kc < m < len ==> !(#[trigger] self.stack@[m] is Catch),
                forall|m: int| kc < m < j ==> !(#[trigger] self.stack@[m] is ReturnAddr),
            decreases len - j,
        {
            if let Term::ReturnAddr(_, _) = self.stack[j] {
                assert(catch_frame(self.stack@, kc as int, j as int));
                return Some(NextCatch { loc, stack_drop: len - 1 - j });
            }
            j = j + 1;
        }
        assert forall|a: int, b: int| !#[trigger] catch_frame(self.stack@, a, b) by {
            if catch_frame(self.stack@, a, b) {
                if a < kc {
                    assert(self.stack@[kc as int] is Catch);
                } else if a > kc {
                    assert(!(self.stack@[a] is Catch));
                } else {
                    assert(self.stack@[b] is ReturnAddr);
                }
            }
        }
        None
    }
}

/// A list read from a heap reads the same from any heap that grows it,
/// with as much fuel or more.
pub proof fn lemma_list_grows(a: Seq<HeapObjectView>, b: Seq<HeapObjectView>, t: Term, f1: nat, f2: nat)
    requires
        grows(a, b),
        f1 <= f2,
        list_spec(a, t, f1) is Some,
    ensures
        list_spec(b, t, f2) == list_spec(a, t, f1),
    decreases f1,
{
    if !(t is Nil) {
        let i = t->Cons_0 as int;
        assert(b[i] == a[i]);
        lemma_list_grows(a, b, a[i]->Cons_1, (f1 - 1) as nat, (f2 - 1) as nat);
    }
}

impl Heap {
    /// The head and tail of the list cell at index `idx`, if there is one.
    pub fn get_cons(&self, idx: usize) -> (r: Option<(Term, Term)>)
        ensures
            match r {
                Some((h, t)) => idx < self.objs().len() && self.objs()[idx as int] == HeapObjectView::Cons(h, t),
                None => !(idx < self.objs().len() && self.objs()[idx as int] is Cons),
            },
    {
        if idx >= self.objects.len() {
            return None;
        }
        match &self.objects[idx] {
            HeapObject::Cons(h, t) => Some((*h, *t)),
            _ => None,
        }
    }

    /// The triple of the import at index `idx`, if there is one.
    pub fn get_import(&self, idx: usize) -> (r: Option<ModFunArity>)
        ensures
            match r {
                Some(m) => idx < self.objs().len() && self.objs()[idx as int] == HeapObjectView::Import(m),
                None => !(idx < self.objs().len() && self.objs()[idx as int] is Import),
            },
    {
        if idx >= self.objects.len() {
            return None;
        }
        match &self.objects[idx] {
            HeapObject::Import(m) => Some(*m),
            _ => None,
        }
    }

    /// The elements of the tuple at index `idx`, if there is one.
    pub fn get_tuple(&self, idx: usize) -> (r: Option<Vec<Term>>)
        ensures
            match r {
                Some(v) => idx < self.objs().len() && self.objs()[idx as int] is Tuple
                    && v@ == self.objs()[idx as int]->Tuple_0,
                None => !(idx < self.objs().len() && self.objs()[idx as int] is Tuple),
            },
    {
        if idx >= self.objects.len() {
            return None;
        }
        match &self.objects[idx] {
            HeapObject::Tuple(v) => {
                let mut out: Vec<Term> = Vec::new();
                let mut i: usize = 0;
                while i < v.len()
                    invariant
                        i <= v@.len(),
                        out@ == v@.subrange(0, i as int),
                    decreases v@.len() - i,
                {
                    out.push(v[i]);
                    i = i + 1;
                    assert(out@ =~= v@.subrange(0, i as int));
                }
                assert(out@ =~= v@);
                Some(out)
            },
            _ => None,
        }
    }
}

/// The elements of the proper list `t` over the objects `objs`, following
/// at most `fuel` list cells.
pub open spec fn list_spec(objs: Seq<HeapObjectView>, t: Term, fuel: nat) -> Option<Seq<Term>>
    decreases fuel,
{
    if t is Nil {
        Some(Seq::empty())
    } else if fuel > 0 && t is Cons && t->Cons_0 < objs.len() && objs[t->Cons_0 as int] is Cons {
        match list_spec(objs, objs[t->Cons_0 as int]->Cons_1, (fuel - 1) as nat) {
            Some(rest) => Some(seq![objs[t->Cons_0 as int]->Cons_0] + rest),
            None => None,
        }
    } else {
        None
    }
}

impl Heap {
    /// The elements of the proper list `t` on this heap; `None` for an
    /// improper list or one longer than the heap's number of objects.
    pub fn list_to_vec(&self, t: Term) -> (r: Option<Vec<Term>>)
        ensures
            match list_spec(self.objs(), t, self.objs().len()) {
                Some(s) => r is Some && r->Some_0@ == s,
                None => r is None,
            },
    {
        let mut out: Vec<Term> = Vec::new();
        let mut cur = t;
        let mut fuel: usize = self.objects.len();
        assert(out@ + Seq::<Term>::empty() =~= out@);
        while !matches!(cur, Term::Nil)
            invariant
                fuel <= self.objs().len(),
                list_spec(self.objs(), t, self.objs().len()) == match list_spec(self.objs(), cur, fuel as nat) {
                    Some(s) => Some(out@ + s),
                    None => None,
                },
            decreases fuel,
        {
            if fuel == 0 {
                return None;
            }
            let idx = match cur {
                Term::Cons(i) => i,
                _ => return None,
            };
            match self.get_cons(idx) {
                Some((h, tl)) => {
                    proof {
                        match list_spec(self.objs(), tl, (fuel - 1) as nat) {
                            Some(rest) => {
                                assert(out@ + (seq![h] + rest) =~= out@.push(h) + rest);
                            },
                            None => {},
                        }
                    }
                    out.push(h);
                    cur = tl;
                    fuel = fuel - 1;
                },
                None => return None,
            }
        }
        assert(out@ + Seq::<Term>::empty() =~= out@);
        Some(out)
    }
}

} // verus!
