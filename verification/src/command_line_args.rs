//! Arguments to start the Erlang VM. They can be built by hand or parsed
//! from strings; parsing again overrides earlier values, so several sources
//! (command line, vmargs file, environment) can be combined.
use vstd::prelude::*;
use crate::heap::{grows, lemma_list_grows, list_spec, Heap, HeapObject, HeapObjectView};
use crate::fail::{RtErr, RtResult};
use vstd::string::StrSliceExecFns;
use crate::term::Term;

verus! {

broadcast use vstd::string::group_string_axioms;

/// The node name and whether it is a short or a full name.
pub enum NodeName {
    Short(String),
    Full(String),
}

/// The characters of each string, in order.
pub open spec fn strs(v: Seq<String>) -> Seq<Seq<char>> {
    v.map_values(|s: String| s@)
}

/// The characters of each string slice, in order.
pub open spec fn strs_of(v: Seq<&str>) -> Seq<Seq<char>> {
    v.map_values(|s: &str| s@)
}

/// The node name's characters.
pub open spec fn node_chars(n: NodeName) -> Seq<char> {
    match n {
        NodeName::Short(s) => s@,
        NodeName::Full(s) => s@,
    }
}

/// Whether the option takes the next string as its parameter.
pub open spec fn takes_parameter(a: Seq<char>) -> bool {
    a == "-sname"@ || a == "-name"@
}

/// What one parsed option does to the arguments: `-sname N` and `-name N`
/// set the node name and its mode, anything else is kept as it is.
pub open spec fn parsed(old_args: ErlStartArgs, new_args: ErlStartArgs, args: Seq<Seq<char>>) -> bool {
    &&& strs(new_args.command_line@) == strs(old_args.command_line@)
    &&& new_args.start@ == old_args.start@
    &&& strs(new_args.search_path@) == strs(old_args.search_path@)
    &&& if args[0] == "-sname"@ {
        &&& new_args.node is Short
        &&& node_chars(new_args.node) == args[1]
        &&& strs(new_args.other_args@) == strs(old_args.other_args@)
    } else if args[0] == "-name"@ {
        &&& new_args.node is Full
        &&& node_chars(new_args.node) == args[1]
        &&& strs(new_args.other_args@) == strs(old_args.other_args@)
    } else {
        &&& new_args.node == old_args.node
        &&& strs(new_args.other_args@) == strs(old_args.other_args@).push(args[0])
    }
}

/// Whether each `-sname` or `-name` in `args`, read from the front, has a
/// string after it to take as its parameter.
pub open spec fn params_present(args: Seq<Seq<char>>) -> bool
    decreases args.len(),
{
    if args.len() == 0 {
        true
    } else if takes_parameter(args[0]) {
        args.len() >= 2 && params_present(args.subrange(2, args.len() as int))
    } else {
        params_present(args.subrange(1, args.len() as int))
    }
}

/// A node name as whether it is short, and its characters.
pub open spec fn node_view(n: NodeName) -> (bool, Seq<char>) {
    (n is Short, node_chars(n))
}

/// The node name after parsing `args` from the front, starting from `n`:
/// the last `-sname` or `-name` decides it.
pub open spec fn node_after(n: (bool, Seq<char>), args: Seq<Seq<char>>) -> (bool, Seq<char>)
    decreases args.len(),
{
    if args.len() == 0 {
        n
    } else if takes_parameter(args[0]) {
        if args.len() >= 2 {
            node_after((args[0] == "-sname"@, args[1]), args.subrange(2, args.len() as int))
        } else {
            n
        }
    } else {
        node_after(n, args.subrange(1, args.len() as int))
    }
}

/// The strings kept as they are after parsing `args` from the front,
/// behind `o`: every string that is neither a node option nor its parameter.
pub open spec fn others_after(o: Seq<Seq<char>>, args: Seq<Seq<char>>) -> Seq<Seq<char>>
    decreases args.len(),
{
    if args.len() == 0 {
        o
    } else if takes_parameter(args[0]) {
        if args.len() >= 2 {
            others_after(o, args.subrange(2, args.len() as int))
        } else {
            o
        }
    } else {
        others_after(o.push(args[0]), args.subrange(1, args.len() as int))
    }
}

/// Parsing again overrides: after two node options the second one's name
/// and mode hold; options that are not known here pile up in order, and the
/// rest of the arguments stays as it was.
pub proof fn law_parse_overrides(a: ErlStartArgs, b: ErlStartArgs, c: ErlStartArgs, first: Seq<Seq<char>>, second: Seq<Seq<char>>)
    requires
        first.len() >= 1,
        second.len() >= 1,
        takes_parameter(first[0]) ==> first.len() >= 2,
        takes_parameter(second[0]) ==> second.len() >= 2,
        parsed(a, b, first),
        parsed(b, c, second),
    ensures
        takes_parameter(second[0]) ==> node_chars(c.node) == second[1] && (c.node is Short <==> second[0] == "-sname"@),
        !takes_parameter(first[0]) && !takes_parameter(second[0]) ==> {
            &&& c.node == a.node
            &&& strs(c.other_args@) == strs(a.other_args@).push(first[0]).push(second[0])
        },
        strs(c.command_line@) == strs(a.command_line@),
        c.start@ == a.start@,
{
    reveal_strlit("-sname");
    reveal_strlit("-name");
    assert("-sname"@ != "-name"@) by {
        assert("-sname"@.len() != "-name"@.len());
    }
}

/// Arguments to start the Erlang VM.
pub struct ErlStartArgs {
    /// The whole command line, before parsing.
    pub command_line: Vec<String>,
    /// Arguments that are not options known here.
    pub other_args: Vec<String>,
    pub node: NodeName,
    /// Which module and function to start, with arguments (option `-s m f a...`).
    pub start: Vec<Vec<String>>,
    pub search_path: Vec<String>,
    /// A small heap that holds the command line once it is built as a term.
    pub arg_heap: Heap,
    /// The command line as a term once built, otherwise the no-value marker.
    pub args_term: Term,
}

/// A copy of each string.
fn clone_strings(v: &Vec<String>) -> (r: Vec<String>)
    ensures
        strs(r@) == strs(v@),
{
    let mut r: Vec<String> = Vec::new();
    let mut i: usize = 0;
    while i < v.len()
        invariant
            i <= v@.len(),
            strs(r@) == strs(v@.take(i as int)),
        decreases v@.len() - i,
    {
        let s = v[i].clone();
        let ghost r0 = r@;
        r.push(s);
        proof {
            assert(s@ == v@[i as int]@);
            assert(r@ == r0.push(s));
            assert(strs(r@) =~= strs(r0).push(s@));
            assert(v@.take(i as int + 1) =~= v@.take(i as int).push(v@[i as int]));
            assert(strs(r@) =~= strs(v@.take(i as int + 1)));
        }
        i = i + 1;
    }
    assert(v@.take(v@.len() as int) =~= v@);
    r
}

/// Whether `a` holds the characters of `b`.
pub fn str_is(a: &str, b: &str) -> (r: bool)
    ensures
        r == (a@ == b@),
{
    let x = a.to_string();
    let y = b.to_string();
    x == y
}

impl ErlStartArgs {
    /// Arguments that remember `raw_command_line`, with node name
    /// `nonode@nohost` in short mode and nothing else set.
    pub fn new(raw_command_line: &Vec<String>) -> (r: ErlStartArgs)
        ensures
            strs(r.command_line@) == strs(raw_command_line@),
            r.other_args@.len() == 0,
            r.node is Short,
            node_chars(r.node) == "nonode@nohost"@,
            r.start@.len() == 0,
            r.search_path@.len() == 0,
            r.arg_heap.objs().len() == 0,
            r.args_term == Term::NonValue,
    {
        let command_line = clone_strings(raw_command_line);
        ErlStartArgs {
            command_line,
            other_args: Vec::new(),
            node: NodeName::Short("nonode@nohost".to_string()),
            start: Vec::new(),
            search_path: Vec::new(),
            arg_heap: Heap::new(),
            args_term: Term::non_value(),
        }
    }

    /// Add a start entry (module, function and arguments).
    pub fn add_start(&mut self, data: &[&str])
        ensures
            final(self).start@.len() == old(self).start@.len() + 1,
            forall|i: int| 0 <= i < old(self).start@.len() ==> #[trigger] final(self).start@[i] == old(self).start@[i],
            strs(final(self).start@.last()@) == strs_of(data@),
            strs(final(self).command_line@) == strs(old(self).command_line@),
            strs(final(self).other_args@) == strs(old(self).other_args@),
            strs(final(self).search_path@) == strs(old(self).search_path@),
            final(self).node == old(self).node,
    {
        let mut entry: Vec<String> = Vec::new();
        let mut i: usize = 0;
        while i < data.len()
            invariant
                i <= data@.len(),
                strs(entry@) == strs_of(data@.take(i as int)),
            decreases data@.len() - i,
        {
            let d: &str = data[i];
            let s = d.to_string();
            let ghost e0 = entry@;
            entry.push(s);
            proof {
                assert(s@ == data@[i as int]@);
                assert(entry@ == e0.push(s));
                assert(strs(entry@) =~= strs(e0).push(s@));
                assert(data@.take(i as int + 1) =~= data@.take(i as int).push(data@[i as int]));
                assert(strs(entry@) =~= strs_of(data@.take(i as int + 1)));
            }
            i = i + 1;
        }
        assert(data@.take(data@.len() as int) =~= data@);
        self.start.push(entry);
    }

    /// Parse one option with its parameters. `-sname N` sets a short node
    /// name, `-name N` a full one; any other string is stored as it is.
    pub fn parse_arg(&mut self, args: &[&str])
        requires
            args@.len() >= 1,
            takes_parameter(args@[0]@) ==> args@.len() >= 2,
        ensures
            parsed(*old(self), *final(self), strs_of(args@)),
            final(self).args_term == old(self).args_term,
    {
        let a = args[0];
        if str_is(a, "-sname") {
            self.node = NodeName::Short(args[1].to_string());
        } else if str_is(a, "-name") {
            self.node = NodeName::Full(args[1].to_string());
        } else {
            let s = a.to_string();
            self.other_args.push(s);
            assert(strs(self.other_args@) =~= strs(old(self).other_args@).push(args@[0]@));
        }
    }

    /// Parse one option that takes no parameter.
    pub fn add_arg1(&mut self, a1: &str)
        requires
            !takes_parameter(a1@),
        ensures
            parsed(*old(self), *final(self), seq![a1@]),
            final(self).args_term == old(self).args_term,
    {
        let args: [&str; 1] = [a1];
        self.parse_arg(&args);
        assert(strs_of(args@) =~= seq![a1@]);
    }

    /// Parse one option with one parameter.
    pub fn add_arg2(&mut self, a1: &str, a2: &str)
        ensures
            parsed(*old(self), *final(self), seq![a1@, a2@]),
            final(self).args_term == old(self).args_term,
    {
        let args: [&str; 2] = [a1, a2];
        self.parse_arg(&args);
        assert(strs_of(args@) =~= seq![a1@, a2@]);
    }

    /// Parse the strings in turn: an option that takes a parameter takes
    /// the string after it; any other string is an option on its own.
    pub fn populate_with(&mut self, args: &[String])
        requires
            params_present(strs(args@)),
        ensures
            node_view(final(self).node) == node_after(node_view(old(self).node), strs(args@)),
            strs(final(self).other_args@) == others_after(strs(old(self).other_args@), strs(args@)),
            strs(final(self).command_line@) == strs(old(self).command_line@),
            final(self).start@ == old(self).start@,
            strs(final(self).search_path@) == strs(old(self).search_path@),
    {
        let ghost all = strs(args@);
        assert(all.subrange(0, all.len() as int) =~= all);
        let mut i: usize = 0;
        while i < args.len()
            invariant
                i <= args@.len(),
                all == strs(args@),
                params_present(all.subrange(i as int, all.len() as int)),
                node_after(node_view(self.node), all.subrange(i as int, all.len() as int))
                    == node_after(node_view(old(self).node), all),
                others_after(strs(self.other_args@), all.subrange(i as int, all.len() as int))
                    == others_after(strs(old(self).other_args@), all),
                strs(self.command_line@) == strs(old(self).command_line@),
                self.start@ == old(self).start@,
                strs(self.search_path@) == strs(old(self).search_path@),
            decreases args@.len() - i,
        {
            let ghost rest = all.subrange(i as int, all.len() as int);
            assert(rest[0] == args@[i as int]@);
            let a = args[i].as_str();
            if str_is(a, "-sname") || str_is(a, "-name") {
                assert(takes_parameter(rest[0]));
                assert(rest.len() >= 2);
                assert(rest[1] == args@[i + 1]@);
                self.add_arg2(a, args[i + 1].as_str());
                proof {
                    reveal_strlit("-sname");
                    reveal_strlit("-name");
                    assert("-sname"@ != "-name"@) by {
                        assert("-sname"@.len() != "-name"@.len());
                    }
                    assert(rest.subrange(2, rest.len() as int) =~= all.subrange(i + 2, all.len() as int));
                }
                i = i + 2;
            } else {
                assert(!takes_parameter(rest[0]));
                self.add_arg1(a);
                proof {
                    assert(rest.subrange(1, rest.len() as int) =~= all.subrange(i + 1, all.len() as int));
                }
                i = i + 1;
            }
        }
        assert(all.subrange(i as int, all.len() as int) =~= Seq::<Seq<char>>::empty());
    }

    /// Set the node name and keep its mode (short or full).
    pub fn set_node_name(&mut self, n: &str)
        ensures
            (final(self).node is Short) == (old(self).node is Short),
            node_chars(final(self).node) == n@,
            strs(final(self).other_args@) == strs(old(self).other_args@),
            strs(final(self).command_line@) == strs(old(self).command_line@),
            final(self).start@ == old(self).start@,
            strs(final(self).search_path@) == strs(old(self).search_path@),
    {
        let full = match self.node {
            NodeName::Full(_) => true,
            NodeName::Short(_) => false,
        };
        if full {
            self.node = NodeName::Full(n.to_string());
        } else {
            self.node = NodeName::Short(n.to_string());
        }
    }
}

/// The Erlang string of the characters `s`: a list of their codes.
pub open spec fn erl_string(s: Seq<char>) -> Seq<Term> {
    s.map_values(|c: char| Term::Small((c as u32) as isize))
}

/// Whether `t` is, on the heap `objs`, a list of the Erlang strings of
/// `args`.
pub open spec fn holds_strings(objs: Seq<HeapObjectView>, t: Term, args: Seq<Seq<char>>) -> bool {
    &&& list_spec(objs, t, objs.len()) is Some
    &&& list_spec(objs, t, objs.len())->Some_0.len() == args.len()
    &&& forall|i: int| 0 <= i < args.len() ==> list_spec(objs, #[trigger] list_spec(objs, t, objs.len())->Some_0[i], objs.len())
        == Some(erl_string(args[i]))
}

/// Build on `hp` the list of the terms `items`; return the list.
fn build_list(hp: &mut Heap, items: &Vec<Term>) -> (r: RtResult<Term>)
    ensures
        final(hp).stack@ == old(hp).stack@,
        grows(old(hp).objs(), final(hp).objs()),
        r is Ok ==> list_spec(final(hp).objs(), r->Ok_0, final(hp).objs().len()) == Some(items@),
        r is Err ==> r->Err_0 is HeapIsFull,
{
    let mut tail = Term::Nil;
    let mut i: usize = items.len();
    assert(items@.subrange(i as int, i as int) =~= Seq::<Term>::empty());
    while i > 0
        invariant
            i <= items@.len(),
            hp.stack@ == old(hp).stack@,
            grows(old(hp).objs(), hp.objs()),
            list_spec(hp.objs(), tail, hp.objs().len()) == Some(items@.subrange(i as int, items@.len() as int)),
        decreases i,
    {
        let ghost o0 = hp.objs();
        let idx = hp.allocate(HeapObject::Cons(items[i - 1], tail))?;
        proof {
            let o1 = hp.objs();
            assert(grows(o0, o1));
            lemma_list_grows(o0, o1, tail, o0.len(), (o1.len() - 1) as nat);
            assert(o1[idx as int] == HeapObjectView::Cons(items@[i - 1], tail));
            assert(items@.subrange(i - 1, items@.len() as int) =~= seq![items@[i - 1]] + items@.subrange(i as int, items@.len() as int));
            assert forall|k: int| 0 <= k < old(hp).objs().len() implies #[trigger] o1[k] == old(hp).objs()[k] by {
                assert(o0[k] == old(hp).objs()[k]);
            }
        }
        tail = Term::Cons(idx);
        i = i - 1;
    }
    assert(items@.subrange(0, items@.len() as int) =~= items@);
    Ok(tail)
}

/// The Erlang string of `s`, built on `hp`.
fn build_erl_string(hp: &mut Heap, s: &str) -> (r: RtResult<Term>)
    ensures
        final(hp).stack@ == old(hp).stack@,
        grows(old(hp).objs(), final(hp).objs()),
        r is Ok ==> list_spec(final(hp).objs(), r->Ok_0, final(hp).objs().len()) == Some(erl_string(s@)),
        r is Err ==> r->Err_0 is HeapIsFull,
{
    let n = s.unicode_len();
    let mut codes: Vec<Term> = Vec::new();
    let mut i: usize = 0;
    while i < n
        invariant
            i <= n,
            n == s@.len(),
            codes@ == erl_string(s@).subrange(0, i as int),
        decreases n - i,
    {
        let c = s.get_char(i);
        codes.push(Term::Small((c as u32) as isize));
        i = i + 1;
        assert(codes@ =~= erl_string(s@).subrange(0, i as int));
    }
    assert(codes@ =~= erl_string(s@));
    build_list(hp, &codes)
}

impl ErlStartArgs {
    /// The command line as an Erlang list of strings, each a list of
    /// character codes. It is built on the argument heap the first time and
    /// kept; later calls give the same list.
    pub fn get_command_line_list(&mut self) -> (r: RtResult<Term>)
        ensures
            old(self).args_term != Term::NonValue ==> r == Ok::<Term, RtErr>(old(self).args_term) && *final(self) == *old(self),
            old(self).args_term == Term::NonValue ==> {
                &&& strs(final(self).command_line@) == strs(old(self).command_line@)
                &&& strs(final(self).other_args@) == strs(old(self).other_args@)
                &&& final(self).node == old(self).node
                &&& final(self).start@ == old(self).start@
                &&& final(self).arg_heap.stack@ == old(self).arg_heap.stack@
                &&& grows(old(self).arg_heap.objs(), final(self).arg_heap.objs())
                &&& r is Ok ==> r->Ok_0 == final(self).args_term
                    && holds_strings(final(self).arg_heap.objs(), r->Ok_0, strs(old(self).command_line@))
                &&& r is Err ==> r->Err_0 is HeapIsFull
            },
    {
        if self.args_term != Term::NonValue {
            return Ok(self.args_term);
        }
        let ghost args = strs(self.command_line@);
        let ghost h0 = self.arg_heap.objs();
        let mut items: Vec<Term> = Vec::new();
        let mut i: usize = 0;
        while i < self.command_line.len()
            invariant
                i <= self.command_line@.len(),
                args == strs(self.command_line@),
                args == strs(old(self).command_line@),
                old(self).args_term == Term::NonValue,
                h0 == old(self).arg_heap.objs(),
                self.arg_heap.stack@ == old(self).arg_heap.stack@,
                grows(h0, self.arg_heap.objs()),
                items@.len() == i,
                forall|k: int| 0 <= k < i ==> list_spec(self.arg_heap.objs(), #[trigger] items@[k], self.arg_heap.objs().len())
                    == Some(erl_string(args[k])),
                self.args_term == old(self).args_term,
                self.command_line == old(self).command_line,
                self.other_args == old(self).other_args,
                self.node == old(self).node,
                self.start == old(self).start,
                self.search_path == old(self).search_path,
            decreases self.command_line@.len() - i,
        {
            let ghost o0 = self.arg_heap.objs();
            let t = build_erl_string(&mut self.arg_heap, self.command_line[i].as_str())?;
            proof {
                let o1 = self.arg_heap.objs();
                assert forall|k: int| 0 <= k < i implies list_spec(o1, #[trigger] items@[k], o1.len()) == Some(erl_string(args[k])) by {
                    lemma_list_grows(o0, o1, items@[k], o0.len(), o1.len());
                }
                assert forall|k: int| 0 <= k < h0.len() implies #[trigger] o1[k] == h0[k] by {
                    assert(o0[k] == h0[k]);
                }
            }
            items.push(t);
            i = i + 1;
        }
        let ghost o2 = self.arg_heap.objs();
        let list = build_list(&mut self.arg_heap, &items)?;
        proof {
            let o3 = self.arg_heap.objs();
            assert forall|k: int| 0 <= k < args.len() implies list_spec(o3, #[trigger] list_spec(o3, list, o3.len())->Some_0[k], o3.len())
                == Some(erl_string(args[k])) by {
                lemma_list_grows(o2, o3, items@[k], o2.len(), o3.len());
            }
            assert forall|k: int| 0 <= k < h0.len() implies #[trigger] o3[k] == h0[k] by {
                assert(o2[k] == h0[k]);
            }
        }
        self.args_term = list;
        Ok(list)
    }
}

} // verus!
