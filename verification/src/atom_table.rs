//! The table of atom names: each distinct name is stored once, and an atom
//! is the index of its name.
use vstd::prelude::*;
use crate::term::Term;

verus! {

/// Whether `a` and `b` hold the same bytes.
pub fn bytes_eq(a: &[u8], b: &[u8]) -> (r: bool)
    ensures
        r == (a@ == b@),
{
    if a.len() != b.len() {
        return false;
    }
    let mut i: usize = 0;
    while i < a.len()
        invariant
            a@.len() == b@.len(),
            i <= a@.len(),
            forall|j: int| 0 <= j < i ==> a@[j] == b@[j],
        decreases a@.len() - i,
    {
        if a[i] != b[i] {
            assert(a@[i as int] != b@[i as int]);
            return false;
        }
        i = i + 1;
    }
    assert(a@ =~= b@);
    true
}

/// The names of an atom table, in index order.
pub open spec fn names_of(v: Seq<Vec<u8>>) -> Seq<Seq<u8>> {
    v.map_values(|a: Vec<u8>| a@)
}

/// Whether no name occurs twice.
pub open spec fn distinct_names(n: Seq<Seq<u8>>) -> bool {
    forall|i: int, j: int| 0 <= i < n.len() && 0 <= j < n.len() && i != j ==> #[trigger] n[i] != #[trigger] n[j]
}

/// The position of `name` among `names`, which holds it.
pub open spec fn position_of(names: Seq<Seq<u8>>, name: Seq<u8>) -> int {
    choose|i: int| 0 <= i < names.len() && names[i] == name
}

/// The table and the atom index after interning `name` in `names`: a name
/// already there keeps its atom, a new one is added at the end.
pub open spec fn intern_spec(names: Seq<Seq<u8>>, name: Seq<u8>) -> (Seq<Seq<u8>>, int) {
    if names.contains(name) {
        (names, position_of(names, name))
    } else {
        (names.push(name), names.len() as int)
    }
}

/// The table after interning each of `new` in turn, from the first on.
pub open spec fn intern_all(names: Seq<Seq<u8>>, new: Seq<Seq<u8>>) -> Seq<Seq<u8>>
    decreases new.len(),
{
    if new.len() == 0 {
        names
    } else {
        intern_spec(intern_all(names, new.drop_last()), new.last()).0
    }
}

/// Interning names keeps what the table held at its front, and the table
/// then holds each of them.
proof fn lemma_intern_all_holds(names: Seq<Seq<u8>>, new: Seq<Seq<u8>>)
    ensures
        names.is_prefix_of(intern_all(names, new)),
        forall|i: int| 0 <= i < new.len() ==> intern_all(names, new).contains(#[trigger] new[i]),
    decreases new.len(),
{
    if new.len() > 0 {
        let front = new.drop_last();
        lemma_intern_all_holds(names, front);
        let t = intern_all(names, front);
        let x = new.last();
        let t1 = intern_all(names, new);
        assert(t.is_prefix_of(t1));
        assert(t1.contains(x)) by {
            if t.contains(x) {
                assert(0 <= position_of(t, x) < t.len() && t[position_of(t, x)] == x);
                assert(t1[position_of(t, x)] == x);
            } else {
                assert(t1[t.len() as int] == x);
            }
        }
        assert forall|i: int| 0 <= i < new.len() implies t1.contains(#[trigger] new[i]) by {
            if i < front.len() {
                assert(front[i] == new[i]);
                assert(t.contains(front[i]));
                let k = choose|k: int| 0 <= k < t.len() && t[k] == front[i];
                assert(t1[k] == new[i]);
            }
        }
    }
}

/// Interning names that the table already holds leaves it as it is.
proof fn lemma_intern_all_known(names: Seq<Seq<u8>>, new: Seq<Seq<u8>>)
    requires
        forall|i: int| 0 <= i < new.len() ==> names.contains(#[trigger] new[i]),
    ensures
        intern_all(names, new) == names,
    decreases new.len(),
{
    if new.len() > 0 {
        let front = new.drop_last();
        assert forall|i: int| 0 <= i < front.len() implies names.contains(#[trigger] front[i]) by {
            assert(front[i] == new[i]);
        }
        lemma_intern_all_known(names, front);
        assert(names.contains(new[new.len() - 1]));
    }
}

/// Interning the same names a second time (loading a module whose atoms
/// were already registered) adds no name: the table stays as the first
/// interning left it, and it still begins with the table before.
pub proof fn law_intern_all_twice(names: Seq<Seq<u8>>, new: Seq<Seq<u8>>)
    ensures
        intern_all(intern_all(names, new), new) == intern_all(names, new),
        names.is_prefix_of(intern_all(names, new)),
{
    lemma_intern_all_holds(names, new);
    lemma_intern_all_known(intern_all(names, new), new);
}

/// Interning keeps the names distinct; interning a name a second time
/// changes nothing and gives the same atom; the atom of an interned name
/// holds that name; two different names get two different atoms.
pub proof fn law_intern(names: Seq<Seq<u8>>, a: Seq<u8>, b: Seq<u8>)
    requires
        distinct_names(names),
    ensures
        distinct_names(intern_spec(names, a).0),
        0 <= intern_spec(names, a).1 < intern_spec(names, a).0.len(),
        intern_spec(names, a).0[intern_spec(names, a).1] == a,
        intern_spec(intern_spec(names, a).0, a) == intern_spec(names, a),
        a != b ==> intern_spec(intern_spec(names, a).0, b).1 != intern_spec(names, a).1,
{
    let (t1, ia) = intern_spec(names, a);
    if names.contains(a) {
        let j = choose|j: int| 0 <= j < names.len() && names[j] == a;
        assert(0 <= position_of(names, a) < names.len() && names[position_of(names, a)] == a);
    } else {
        assert forall|i: int, j: int| 0 <= i < t1.len() && 0 <= j < t1.len() && i != j
            implies #[trigger] t1[i] != #[trigger] t1[j] by {
            if i < names.len() && j < names.len() {
                assert(names[i] != names[j]);
            } else if i < names.len() {
                assert(names[i] != a);
            } else {
                assert(names[j] != a);
            }
        }
    }
    assert(t1.contains(a)) by {
        assert(t1[ia] == a);
    }
    let p = position_of(t1, a);
    assert(0 <= p < t1.len() && t1[p] == a);
    assert(p == ia) by {
        if p != ia {
            assert(t1[p] != t1[ia]);
        }
    }
    if a != b {
        let (t2, ib) = intern_spec(t1, b);
        if t1.contains(b) {
            assert(0 <= position_of(t1, b) < t1.len() && t1[position_of(t1, b)] == b);
        }
    }
}

/// Atom names by index.
pub struct AtomTable {
    pub names: Vec<Vec<u8>>,
}

impl View for AtomTable {
    type V = Seq<Seq<u8>>;

    open spec fn view(&self) -> Seq<Seq<u8>> {
        names_of(self.names@)
    }
}

impl AtomTable {
    /// No name occurs twice.
    pub open spec fn wf(&self) -> bool {
        distinct_names(self@)
    }

    /// An empty table.
    pub fn new() -> (r: AtomTable)
        ensures
            r.wf(),
            r@.len() == 0,
    {
        let r = AtomTable { names: Vec::new() };
        assert(r@ =~= Seq::<Seq<u8>>::empty());
        r
    }

    /// Number of atoms.
    pub fn len(&self) -> (r: usize)
        ensures
            r == self@.len(),
    {
        self.names.len()
    }

    /// The index of the name `name`, if it is in the table.
    pub fn find(&self, name: &[u8]) -> (r: Option<usize>)
        requires
            self.wf(),
        ensures
            match r {
                Some(i) => i < self@.len() && self@[i as int] == name@,
                None => forall|i: int| 0 <= i < self@.len() ==> self@[i] != name@,
            },
    {
        let mut i: usize = 0;
        while i < self.names.len()
            invariant
                i <= self.names@.len(),
                self@.len() == self.names@.len(),
                forall|j: int| 0 <= j < i ==> self@[j] != name@,
            decreases self.names@.len() - i,
        {
            if bytes_eq(self.names[i].as_slice(), name) {
                return Some(i);
            }
            i = i + 1;
        }
        None
    }

    /// The atom named `name`, added to the table if it is not there yet.
    pub fn intern(&mut self, name: &[u8]) -> (r: Term)
        requires
            old(self).wf(),
        ensures
            final(self).wf(),
            r is Atom,
            r->Atom_0 < final(self)@.len(),
            final(self)@[r->Atom_0 as int] == name@,
            (final(self)@, r->Atom_0 as int) == intern_spec(old(self)@, name@),
            old(self)@.contains(name@) ==> final(self)@ == old(self)@,
            !old(self)@.contains(name@) ==> final(self)@ == old(self)@.push(name@),
    {
        match self.find(name) {
            Some(i) => {
                proof {
                    assert(old(self)@[i as int] == name@);
                    assert(old(self)@.contains(name@));
                    let p = position_of(old(self)@, name@);
                    assert(0 <= p < old(self)@.len() && old(self)@[p] == name@);
                    if p != i as int {
                        assert(old(self)@[p] != old(self)@[i as int]);
                    }
                }
                Term::make_atom(i)
            },
            None => {
                let i = self.names.len();
                let mut v: Vec<u8> = Vec::new();
                let mut k: usize = 0;
                while k < name.len()
                    invariant
                        k <= name@.len(),
                        v@ == name@.subrange(0, k as int),
                    decreases name@.len() - k,
                {
                    v.push(name[k]);
                    k = k + 1;
                    assert(v@ =~= name@.subrange(0, k as int));
                }
                assert(v@ =~= name@);
                let ghost before = self@;
                self.names.push(v);
                proof {
                    assert(self@ =~= before.push(name@));
                    assert(!before.contains(name@));
                }
                Term::make_atom(i)
            },
        }
    }

    /// The table with the atoms that the runtime knows at startup, each at
    /// its index in `crate::atoms`.
    pub fn with_predefined() -> (r: AtomTable)
        ensures
            r.wf(),
            r@ == predefined_names(),
    {
        let mut t = AtomTable::new();
        let names: [Vec<u8>; 16] = [
            vec![0x66u8, 0x61, 0x6c, 0x73, 0x65],  // false
            vec![0x74u8, 0x72, 0x75, 0x65],  // true
            vec![0x6eu8, 0x6f, 0x72, 0x6d, 0x61, 0x6c],  // normal
            vec![0x74u8, 0x68, 0x72, 0x6f, 0x77],  // throw
            vec![0x65u8, 0x72, 0x72, 0x6f, 0x72],  // error
            vec![0x65u8, 0x78, 0x69, 0x74],  // exit
            vec![0x6eu8, 0x69, 0x66, 0x5f, 0x65, 0x72, 0x72, 0x6f, 0x72],  // nif_error
            vec![0x62u8, 0x61, 0x64, 0x61, 0x72, 0x67],  // badarg
            vec![0x66u8, 0x75, 0x6e, 0x63, 0x74, 0x69, 0x6f, 0x6e, 0x5f, 0x63, 0x6c, 0x61, 0x75, 0x73, 0x65],  // function_clause
            vec![0x61u8, 0x6c, 0x6c],  // all
            vec![0x65u8, 0x72, 0x6c, 0x61, 0x6e, 0x67],  // erlang
            vec![0x61u8, 0x70, 0x70, 0x6c, 0x79],  // apply
            vec![0x75u8, 0x6e, 0x64, 0x65, 0x66],  // undef
            vec![0x62u8, 0x61, 0x64, 0x66, 0x75, 0x6e],  // badfun
            vec![0x62u8, 0x61, 0x64, 0x6d, 0x61, 0x74, 0x63, 0x68],  // badmatch
            vec![0x73u8, 0x79, 0x73, 0x74, 0x65, 0x6d, 0x5f, 0x6c, 0x69, 0x6d, 0x69, 0x74],  // system_limit
        ];
        proof {
            lemma_predefined_distinct();
            assert(names@.map_values(|v: Vec<u8>| v@) =~= predefined_names());
        }
        let mut i: usize = 0;
        while i < 16
            invariant
                t.wf(),
                i <= 16,
                names@.map_values(|v: Vec<u8>| v@) == predefined_names(),
                distinct_names(predefined_names()),
                t@ == predefined_names().take(i as int),
            decreases 16 - i,
        {
            proof {
                let p = predefined_names();
                assert(names@[i as int]@ == p[i as int]);
                if t@.contains(p[i as int]) {
                    let k = choose|k: int| 0 <= k < t@.len() && t@[k] == p[i as int];
                    assert(p[k] == p[i as int]);
                }
                assert(p.take(i as int + 1) =~= p.take(i as int).push(p[i as int]));
            }
            t.intern(names[i].as_slice());
            i = i + 1;
        }
        assert(predefined_names().take(16) =~= predefined_names());
        t
    }
}

/// The names of the atoms known at startup, in index order.
pub open spec fn predefined_names() -> Seq<Seq<u8>> {
    seq![
        seq![0x66u8, 0x61, 0x6c, 0x73, 0x65],  // false
        seq![0x74u8, 0x72, 0x75, 0x65],  // true
        seq![0x6eu8, 0x6f, 0x72, 0x6d, 0x61, 0x6c],  // normal
        seq![0x74u8, 0x68, 0x72, 0x6f, 0x77],  // throw
        seq![0x65u8, 0x72, 0x72, 0x6f, 0x72],  // error
        seq![0x65u8, 0x78, 0x69, 0x74],  // exit
        seq![0x6eu8, 0x69, 0x66, 0x5f, 0x65, 0x72, 0x72, 0x6f, 0x72],  // nif_error
        seq![0x62u8, 0x61, 0x64, 0x61, 0x72, 0x67],  // badarg
        seq![0x66u8, 0x75, 0x6e, 0x63, 0x74, 0x69, 0x6f, 0x6e, 0x5f, 0x63, 0x6c, 0x61, 0x75, 0x73, 0x65],  // function_clause
        seq![0x61u8, 0x6c, 0x6c],  // all
        seq![0x65u8, 0x72, 0x6c, 0x61, 0x6e, 0x67],  // erlang
        seq![0x61u8, 0x70, 0x70, 0x6c, 0x79],  // apply
        seq![0x75u8, 0x6e, 0x64, 0x65, 0x66],  // undef
        seq![0x62u8, 0x61, 0x64, 0x66, 0x75, 0x6e],  // badfun
        seq![0x62u8, 0x61, 0x64, 0x6d, 0x61, 0x74, 0x63, 0x68],  // badmatch
        seq![0x73u8, 0x79, 0x73, 0x74, 0x65, 0x6d, 0x5f, 0x6c, 0x69, 0x6d, 0x69, 0x74],  // system_limit
    ]
}

/// Whether `x` is none of the names `s`.
pub open spec fn not_among(x: Seq<u8>, s: Seq<Seq<u8>>) -> bool
    decreases s.len(),
{
    s.len() == 0 || (x != s[0] && not_among(x, s.drop_first()))
}

/// Whether no name of `s` occurs twice, one name after the other.
pub open spec fn pairwise_distinct(s: Seq<Seq<u8>>) -> bool
    decreases s.len(),
{
    s.len() == 0 || (not_among(s[0], s.drop_first()) && pairwise_distinct(s.drop_first()))
}

proof fn lemma_not_among(x: Seq<u8>, s: Seq<Seq<u8>>, j: int)
    requires
        not_among(x, s),
        0 <= j < s.len(),
    ensures
        s[j] != x,
    decreases s.len(),
{
    if j > 0 {
        lemma_not_among(x, s.drop_first(), j - 1);
    }
}

proof fn lemma_pairwise_distinct(s: Seq<Seq<u8>>)
    requires
        pairwise_distinct(s),
    ensures
        distinct_names(s),
    decreases s.len(),
{
    if s.len() > 0 {
        lemma_pairwise_distinct(s.drop_first());
        assert forall|i: int, j: int| 0 <= i < s.len() && 0 <= j < s.len() && i != j implies #[trigger] s[i] != #[trigger] s[j] by {
            if i == 0 {
                lemma_not_among(s[0], s.drop_first(), j - 1);
            } else if j == 0 {
                lemma_not_among(s[0], s.drop_first(), i - 1);
            } else {
                assert(s.drop_first()[i - 1] != s.drop_first()[j - 1]);
            }
        }
    }
}

/// The names known at startup are distinct.
proof fn lemma_predefined_distinct()
    ensures
        distinct_names(predefined_names()),
{
    let p = predefined_names();
    assert(p[7][3] != p[13][3]);
    assert forall|k: int| 0 <= k < 16 implies #[trigger] p[k].len() > 3 || k == 9 by {}
    reveal_with_fuel(not_among, 17);
    reveal_with_fuel(pairwise_distinct, 17);
    assert(pairwise_distinct(p));
    lemma_pairwise_distinct(p);
}

/// Each atom known at startup has the name that its constant in
/// `crate::atoms` stands for, and there are `PREDEFINED_COUNT` of them,
/// all distinct.
pub proof fn law_predefined_atoms()
    ensures
        predefined_names().len() == crate::atoms::PREDEFINED_COUNT,
        distinct_names(predefined_names()),
        predefined_names()[crate::atoms::TRUE as int] == seq![0x74u8, 0x72, 0x75, 0x65],  // true
        predefined_names()[crate::atoms::BADARG as int] == seq![0x62u8, 0x61, 0x64, 0x61, 0x72, 0x67],  // badarg
        predefined_names()[crate::atoms::ERLANG as int] == seq![0x65u8, 0x72, 0x6c, 0x61, 0x6e, 0x67],  // erlang
        predefined_names()[crate::atoms::SYSTEM_LIMIT as int] == seq![0x73u8, 0x79, 0x73, 0x74, 0x65, 0x6d, 0x5f, 0x6c, 0x69, 0x6d, 0x69, 0x74],  // system_limit
{
    lemma_predefined_distinct();
}

} // verus!
