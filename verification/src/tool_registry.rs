//! The tools an agent may call, each under its name: registration, lookup,
//! a registry of some of them, and their listing in name order.

use vstd::prelude::*;
use crate::command::strs_equal;
use crate::graph::keyed_map;

verus! {

/// Whether `a` comes before `b` in the order of texts: character by
/// character, a proper prefix first.
pub open spec fn lex_lt(a: Seq<char>, b: Seq<char>) -> bool
    decreases a.len(),
{
    if b.len() == 0 {
        false
    } else if a.len() == 0 {
        true
    } else if a[0] != b[0] {
        a[0] < b[0]
    } else {
        lex_lt(a.drop_first(), b.drop_first())
    }
}

/// No text comes before itself.
pub proof fn lemma_lex_irreflexive(a: Seq<char>)
    ensures
        !lex_lt(a, a),
    decreases a.len(),
{
    if a.len() > 0 {
        lemma_lex_irreflexive(a.drop_first());
    }
}

/// The order of texts is transitive.
pub proof fn lemma_lex_transitive(a: Seq<char>, b: Seq<char>, c: Seq<char>)
    requires
        lex_lt(a, b),
        lex_lt(b, c),
    ensures
        lex_lt(a, c),
    decreases a.len(),
{
    if a.len() > 0 && a[0] == b[0] && b[0] == c[0] {
        lemma_lex_transitive(a.drop_first(), b.drop_first(), c.drop_first());
    }
}

/// Of two different texts, one comes before the other.
pub proof fn lemma_lex_total(a: Seq<char>, b: Seq<char>)
    requires
        a != b,
    ensures
        lex_lt(a, b) || lex_lt(b, a),
    decreases a.len(),
{
    if a.len() == 0 {
        assert(b.len() > 0) by {
            if b.len() == 0 {
                assert(a =~= b);
            }
        }
    } else if b.len() > 0 && a[0] == b[0] {
        let a1 = a.drop_first();
        let b1 = b.drop_first();
        if a1 == b1 {
            assert(a.len() == a1.len() + 1 && b.len() == b1.len() + 1);
            assert forall|i: int| 0 <= i < a.len() implies a[i] == b[i] by {
                if i > 0 {
                    assert(a[i] == a1[i - 1]);
                    assert(b[i] == b1[i - 1]);
                }
            }
            assert(a =~= b);
        }
        lemma_lex_total(a1, b1);
    }
}

/// Whether `a` comes before `b` in the order of texts.
pub fn str_less(a: &str, b: &str) -> (r: bool)
    ensures
        r == lex_lt(a@, b@),
{
    let n = a.unicode_len();
    let m = b.unicode_len();
    let mut i: usize = 0;
    assert(a@.skip(0) =~= a@ && b@.skip(0) =~= b@);
    while i < n && i < m
        invariant
            n == a@.len(),
            m == b@.len(),
            i <= n,
            i <= m,
            lex_lt(a@, b@) == lex_lt(a@.skip(i as int), b@.skip(i as int)),
        decreases n - i,
    {
        let x = a.get_char(i);
        let y = b.get_char(i);
        assert(a@.skip(i as int)[0] == x);
        assert(b@.skip(i as int)[0] == y);
        if x != y {
            return x < y;
        }
        assert(a@.skip(i as int).drop_first() =~= a@.skip(i + 1));
        assert(b@.skip(i as int).drop_first() =~= b@.skip(i + 1));
        i = i + 1;
    }
    i < m
}

/// Whether no two entries are under the same name.
pub open spec fn unique_names<T>(s: Seq<(String, T)>) -> bool {
    forall|i: int, j: int| 0 <= i < j < s.len() ==> s[i].0@ != s[j].0@
}

/// What the names of a list of entries hold; a later entry under a name
/// replaces an earlier one.
pub open spec fn tool_map<T>(s: Seq<(String, T)>) -> Map<Seq<char>, T> {
    keyed_map(s, |t: T| t)
}

/// With no name twice, each entry is what its name holds, and a name holds
/// something only where an entry has it.
proof fn lemma_unique_keyed<T>(s: Seq<(String, T)>)
    requires
        unique_names(s),
    ensures
        forall|i: int|
            0 <= i < s.len() ==> #[trigger] tool_map(s).contains_key(s[i].0@)
                && tool_map(s)[s[i].0@] == s[i].1,
        forall|k: Seq<char>| #[trigger]
            tool_map(s).contains_key(k) ==> exists|i: int| 0 <= i < s.len() && s[i].0@ == k,
    decreases s.len(),
{
    if s.len() > 0 {
        let d = s.drop_last();
        lemma_unique_keyed(d);
        assert forall|i: int| 0 <= i < s.len() implies #[trigger] tool_map(s).contains_key(s[i].0@) && tool_map(s)[s[i].0@] == s[i].1 by {
            if i < s.len() - 1 {
                assert(d[i] == s[i]);
                assert(tool_map(d).contains_key(d[i].0@));
                assert(s[i].0@ != s.last().0@);
            }
        }
        assert forall|k: Seq<char>| #[trigger]
            tool_map(s).contains_key(k) implies exists|i: int|
            0 <= i < s.len() && s[i].0@ == k by {
            if k != s.last().0@ {
                assert(tool_map(d).contains_key(k));
                let i = choose|i: int| 0 <= i < d.len() && d[i].0@ == k;
                assert(s[i] == d[i]);
            } else {
                assert(s[s.len() - 1].0@ == k);
            }
        }
    }
}

/// Whether `t` occurs in `order`.
pub open spec fn covers(order: Seq<usize>, t: int) -> bool {
    exists|i: int| 0 <= i < order.len() && order[i] == t
}

/// Tools of type `T`, each under its name.
#[derive(Debug)]
pub struct ToolRegistry<T> {
    tools: Vec<(String, T)>,
}

impl<T> View for ToolRegistry<T> {
    type V = Map<Seq<char>, T>;

    closed spec fn view(&self) -> Map<Seq<char>, T> {
        tool_map(self.tools@)
    }
}

/// Whether the names come in order, each before the next.
pub open spec fn sorted_names(names: Seq<Seq<char>>) -> bool {
    forall|i: int, j: int| 0 <= i < j < names.len() ==> lex_lt(names[i], names[j])
}

/// In a sorted sequence of names, the first comes before every other name
/// in it.
proof fn lemma_sorted_first_is_least(a: Seq<Seq<char>>, x: Seq<char>)
    requires
        sorted_names(a),
        a.len() > 0,
        a.contains(x),
        x != a[0],
    ensures
        lex_lt(a[0], x),
{
    let i = choose|i: int| 0 <= i < a.len() && a[i] == x;
    assert(i != 0);
}

/// Two sorted sequences of names with the same names are the same sequence.
proof fn lemma_sorted_names_unique(a: Seq<Seq<char>>, b: Seq<Seq<char>>)
    requires
        sorted_names(a),
        sorted_names(b),
        forall|x: Seq<char>| a.contains(x) <==> b.contains(x),
    ensures
        a == b,
    decreases a.len(),
{
    if a.len() == 0 {
        if b.len() > 0 {
            assert(b.contains(b[0]));
        }
        assert(a =~= b);
    } else {
        assert(a.contains(a[0]));
        assert(b.len() > 0);
        assert(b.contains(b[0]));
        if a[0] != b[0] {
            lemma_sorted_first_is_least(a, b[0]);
            lemma_sorted_first_is_least(b, a[0]);
            lemma_lex_transitive(a[0], b[0], a[0]);
            lemma_lex_irreflexive(a[0]);
        }
        let a1 = a.drop_first();
        let b1 = b.drop_first();
        assert forall|x: Seq<char>| a1.contains(x) <==> b1.contains(x) by {
            if a1.contains(x) {
                let i = choose|i: int| 0 <= i < a1.len() && a1[i] == x;
                assert(a[i + 1] == x);
                assert(lex_lt(a[0], a[i + 1]));
                lemma_lex_irreflexive(x);
                assert(b.contains(x));
                let j = choose|j: int| 0 <= j < b.len() && b[j] == x;
                assert(j != 0);
                assert(b1[j - 1] == x);
            }
            if b1.contains(x) {
                let j = choose|j: int| 0 <= j < b1.len() && b1[j] == x;
                assert(b[j + 1] == x);
                assert(lex_lt(b[0], b[j + 1]));
                lemma_lex_irreflexive(x);
                assert(a.contains(x));
                let i = choose|i: int| 0 <= i < a.len() && a[i] == x;
                assert(i != 0);
                assert(a1[i - 1] == x);
            }
        }
        lemma_sorted_names_unique(a1, b1);
        assert(a =~= seq![a[0]] + a1);
        assert(b =~= seq![b[0]] + b1);
    }
}

/// A registry's names can be listed in order in one way only: whatever lists
/// each of its names once, in order and nothing else, is the same sequence.
/// So `sorted_tools` lists the names in the same order on every call, and
/// `tool_names` lists the names of `sorted_tools`, in that order.
pub proof fn law_name_listing_is_unique<T>(reg: ToolRegistry<T>, a: Seq<Seq<char>>, b: Seq<Seq<char>>)
    requires
        sorted_names(a),
        sorted_names(b),
        forall|i: int| 0 <= i < a.len() ==> reg@.contains_key(#[trigger] a[i]),
        forall|k: Seq<char>| #[trigger] reg@.contains_key(k) ==> exists|i: int| 0 <= i < a.len() && a[i] == k,
        forall|i: int| 0 <= i < b.len() ==> reg@.contains_key(#[trigger] b[i]),
        forall|k: Seq<char>| #[trigger] reg@.contains_key(k) ==> exists|i: int| 0 <= i < b.len() && b[i] == k,
    ensures
        a == b,
{
    assert forall|x: Seq<char>| a.contains(x) <==> b.contains(x) by {
        if a.contains(x) {
            let i = choose|i: int| 0 <= i < a.len() && a[i] == x;
            assert(reg@.contains_key(a[i]));
        }
        if b.contains(x) {
            let i = choose|i: int| 0 <= i < b.len() && b[i] == x;
            assert(reg@.contains_key(b[i]));
        }
    }
    lemma_sorted_names_unique(a, b);
}

impl<T> ToolRegistry<T> {
    #[verifier::type_invariant]
    closed spec fn names_unique(&self) -> bool {
        unique_names(self.tools@)
    }

    /// A registry with no tools.
    pub fn new() -> (r: Self)
        ensures
            r@ == Map::<Seq<char>, T>::empty(),
    {
        let r = ToolRegistry { tools: Vec::new() };
        assert(r@ =~= Map::<Seq<char>, T>::empty());
        r
    }

    /// Where the tool named `name` stands, if there is one.
    fn position(&self, name: &str) -> (p: Option<usize>)
        ensures
            match p {
                Some(i) => i < self.tools@.len() && self.tools@[i as int].0@ == name@,
                None => forall|i: int| 0 <= i < self.tools@.len() ==> self.tools@[i].0@ != name@,
            },
    {
        let mut i: usize = 0;
        while i < self.tools.len()
            invariant
                i <= self.tools@.len(),
                forall|t: int| 0 <= t < i ==> self.tools@[t].0@ != name@,
            decreases self.tools@.len() - i,
        {
            if strs_equal(self.tools[i].0.as_str(), name) {
                return Some(i);
            }
            i = i + 1;
        }
        None
    }

    /// Registers a tool under `name`, replacing a tool of the same name.
    pub fn register(&mut self, name: String, tool: T)
        ensures
            final(self)@ == old(self)@.insert(name@, tool),
    {
        proof {
            use_type_invariant(&*self);
        }
        let found = self.position(name.as_str());
        let mut taken = ToolRegistry::new();
        std::mem::swap(&mut taken, self);
        proof {
            use_type_invariant(&taken);
        }
        let ToolRegistry { mut tools } = taken;
        let ghost before = tools@;
        match found {
            Some(i) => {
                tools.set(i, (name, tool));
                proof {
                    let after = tools@;
                    assert(unique_names(after)) by {
                        assert forall|a: int, b: int| 0 <= a < b < after.len() implies after[a].0@
                            != after[b].0@ by {
                            if a != i && b != i {
                                assert(after[a] == before[a] && after[b] == before[b]);
                            } else if a == i {
                                assert(after[b] == before[b]);
                            } else {
                                assert(after[a] == before[a]);
                            }
                        }
                    }
                    lemma_unique_keyed(before);
                    lemma_unique_keyed(after);
                    let m0 = tool_map(before);
                    let m1 = tool_map(after);
                    assert(m1 =~= m0.insert(name@, tool)) by {
                        assert forall|k: Seq<char>| #[trigger]
                            m1.contains_key(k) <==> m0.insert(name@, tool).contains_key(k) by {
                            if m1.contains_key(k) {
                                let a = choose|a: int| 0 <= a < after.len() && after[a].0@ == k;
                                if a != i {
                                    assert(after[a] == before[a]);
                                    assert(m0.contains_key(before[a].0@));
                                }
                            }
                            if m0.contains_key(k) {
                                let a = choose|a: int| 0 <= a < before.len() && before[a].0@ == k;
                                if a != i {
                                    assert(after[a] == before[a]);
                                    assert(m1.contains_key(after[a].0@));
                                }
                            }
                            if k == name@ {
                                assert(m1.contains_key(after[i as int].0@));
                            }
                        }
                        assert forall|k: Seq<char>| #[trigger]
                            m1.contains_key(k) implies m1[k] == m0.insert(name@, tool)[k] by {
                            let a = choose|a: int| 0 <= a < after.len() && after[a].0@ == k;
                            if a != i {
                                assert(after[a] == before[a]);
                                assert(m0.contains_key(before[a].0@));
                            }
                        }
                    }
                }
            },
            None => {
                tools.push((name, tool));
                proof {
                    assert(tools@.drop_last() =~= before);
                    assert(unique_names(tools@)) by {
                        assert forall|a: int, b: int| 0 <= a < b < tools@.len() implies tools@[a].0@
                            != tools@[b].0@ by {
                            if b < before.len() {
                                assert(tools@[a] == before[a] && tools@[b] == before[b]);
                            } else {
                                assert(tools@[a] == before[a]);
                            }
                        }
                    }
                }
            },
        }
        *self = ToolRegistry { tools };
    }

    /// Whether the registry has no tools.
    pub fn is_empty(&self) -> (b: bool)
        ensures
            b == (self@ == Map::<Seq<char>, T>::empty()),
    {
        proof {
            use_type_invariant(self);
            lemma_unique_keyed(self.tools@);
            if self.tools@.len() == 0 {
                assert(self@ =~= Map::<Seq<char>, T>::empty());
            } else {
                assert(self@.contains_key(self.tools@[0].0@));
            }
        }
        self.tools.len() == 0
    }

    /// The tool registered under `name`, if any.
    pub fn get(&self, name: &str) -> (r: Option<&T>)
        ensures
            match r {
                Some(t) => self@.contains_key(name@) && self@[name@] == *t,
                None => !self@.contains_key(name@),
            },
    {
        proof {
            use_type_invariant(self);
            lemma_unique_keyed(self.tools@);
        }
        match self.position(name) {
            Some(i) => {
                assert(self@.contains_key(self.tools@[i as int].0@));
                Some(&self.tools[i].1)
            },
            None => None,
        }
    }

    /// The positions of the entries, ordered by their names.
    fn name_order(&self) -> (order: Vec<usize>)
        ensures
            forall|i: int| 0 <= i < order@.len() ==> order@[i] < self.tools@.len(),
            forall|i: int, j: int|
                0 <= i < j < order@.len() ==> lex_lt(
                    self.tools@[order@[i] as int].0@,
                    self.tools@[order@[j] as int].0@,
                ),
            forall|t: int| 0 <= t < self.tools@.len() ==> #[trigger] covers(order@, t),
    {
        proof {
            use_type_invariant(self);
        }
        let ghost s = self.tools@;
        let mut order: Vec<usize> = Vec::new();
        let mut t: usize = 0;
        while t < self.tools.len()
            invariant
                s == self.tools@,
                unique_names(s),
                t <= s.len(),
                forall|i: int| 0 <= i < order@.len() ==> order@[i] < t,
                forall|i: int, j: int|
                    0 <= i < j < order@.len() ==> lex_lt(s[order@[i] as int].0@, s[order@[j] as int].0@),
                forall|u: int| 0 <= u < t ==> #[trigger] covers(order@, u),
            decreases s.len() - t,
        {
            let name = self.tools[t].0.as_str();
            let mut p: usize = 0;
            while p < order.len() && str_less(self.tools[order[p]].0.as_str(), name)
                invariant
                    s == self.tools@,
                    t < s.len(),
                    name@ == s[t as int].0@,
                    p <= order@.len(),
                    forall|i: int| 0 <= i < order@.len() ==> order@[i] < t,
                    forall|q: int| 0 <= q < p ==> lex_lt(s[order@[q] as int].0@, name@),
                decreases order@.len() - p,
            {
                p = p + 1;
            }
            proof {
                if p < order@.len() {
                    let o = order@[p as int] as int;
                    assert(s[o].0@ != name@);
                    lemma_lex_total(s[o].0@, name@);
                }
            }
            let ghost old_order = order@;
            order.insert(p, t);
            proof {
                let o2 = order@;
                assert forall|i: int, j: int| 0 <= i < j < o2.len() implies lex_lt(
                    s[o2[i] as int].0@,
                    s[o2[j] as int].0@,
                ) by {
                    if j < p {
                        assert(o2[i] == old_order[i] && o2[j] == old_order[j]);
                    } else if j == p {
                        assert(o2[i] == old_order[i]);
                    } else if i > p {
                        assert(o2[i] == old_order[i - 1] && o2[j] == old_order[j - 1]);
                    } else if i == p {
                        assert(o2[j] == old_order[j - 1]);
                        if j - 1 > p {
                            lemma_lex_transitive(
                                name@,
                                s[old_order[p as int] as int].0@,
                                s[old_order[j - 1] as int].0@,
                            );
                        }
                    } else {
                        assert(o2[i] == old_order[i] && o2[j] == old_order[j - 1]);
                        if j - 1 > p {
                            lemma_lex_transitive(
                                name@,
                                s[old_order[p as int] as int].0@,
                                s[old_order[j - 1] as int].0@,
                            );
                        }
                        lemma_lex_transitive(
                            s[old_order[i] as int].0@,
                            name@,
                            s[old_order[j - 1] as int].0@,
                        );
                    }
                }
                assert forall|u: int| 0 <= u < t + 1 implies #[trigger] covers(o2, u) by {
                    if u == t {
                        assert(o2[p as int] == u);
                    } else {
                        assert(covers(old_order, u));
                        let i = choose|i: int| 0 <= i < old_order.len() && old_order[i] == u;
                        if i < p {
                            assert(o2[i] == u);
                        } else {
                            assert(o2[i + 1] == u);
                        }
                    }
                }
            }
            t = t + 1;
        }
        order
    }

    /// The tools with their names, ordered by name.
    pub fn sorted_tools(&self) -> (r: Vec<(&str, &T)>)
        ensures
            sorted_names(r@.map_values(|e: (&str, &T)| e.0@)),
            forall|i: int|
                0 <= i < r@.len() ==> self@.contains_key(#[trigger] r@[i].0@) && self@[r@[i].0@]
                    == *r@[i].1,
            forall|k: Seq<char>| #[trigger]
                self@.contains_key(k) ==> exists|i: int| 0 <= i < r@.len() && r@[i].0@ == k,
    {
        proof {
            use_type_invariant(self);
            lemma_unique_keyed(self.tools@);
        }
        let order = self.name_order();
        let ghost s = self.tools@;
        let mut r: Vec<(&str, &T)> = Vec::new();
        let mut i: usize = 0;
        while i < order.len()
            invariant
                s == self.tools@,
                i <= order@.len(),
                r@.len() == i,
                forall|a: int| 0 <= a < order@.len() ==> order@[a] < s.len(),
                forall|a: int| 0 <= a < i ==> r@[a].0@ == s[order@[a] as int].0@ && *r@[a].1 == s[order@[a] as int].1,
            decreases order@.len() - i,
        {
            let e = &self.tools[order[i]];
            r.push((e.0.as_str(), &e.1));
            i = i + 1;
        }
        proof {
            let names = r@.map_values(|e: (&str, &T)| e.0@);
            assert forall|a: int, b: int| 0 <= a < b < names.len() implies lex_lt(names[a], names[b]) by {
                assert(names[a] == s[order@[a] as int].0@);
                assert(names[b] == s[order@[b] as int].0@);
            }
            assert forall|a: int| 0 <= a < r@.len() implies self@.contains_key(#[trigger] r@[a].0@)
                && self@[r@[a].0@] == *r@[a].1 by {
                let o = order@[a] as int;
                assert(self@.contains_key(s[o].0@));
            }
            assert forall|k: Seq<char>| #[trigger] self@.contains_key(k) implies exists|a: int|
                0 <= a < r@.len() && r@[a].0@ == k by {
                let t = choose|t: int| 0 <= t < s.len() && s[t].0@ == k;
                assert(covers(order@, t));
                let a = choose|a: int| 0 <= a < order@.len() && order@[a] == t;
                assert(r@[a].0@ == k);
            }
        }
        r
    }

    /// The names of the tools, in order.
    pub fn tool_names(&self) -> (r: Vec<&str>)
        ensures
            sorted_names(r@.map_values(|n: &str| n@)),
            forall|i: int| 0 <= i < r@.len() ==> self@.contains_key(#[trigger] r@[i]@),
            forall|k: Seq<char>| #[trigger]
                self@.contains_key(k) ==> exists|i: int| 0 <= i < r@.len() && r@[i]@ == k,
    {
        let entries = self.sorted_tools();
        let mut r: Vec<&str> = Vec::new();
        let mut i: usize = 0;
        while i < entries.len()
            invariant
                i <= entries@.len(),
                r@.len() == i,
                forall|a: int| 0 <= a < i ==> r@[a]@ == entries@[a].0@,
            decreases entries@.len() - i,
        {
            r.push(entries[i].0);
            i = i + 1;
        }
        proof {
            let en = entries@.map_values(|e: (&str, &T)| e.0@);
            let names = r@.map_values(|n: &str| n@);
            assert forall|a: int, b: int| 0 <= a < b < names.len() implies lex_lt(names[a], names[b]) by {
                assert(names[a] == en[a] && names[b] == en[b]);
            }
            assert forall|a: int| 0 <= a < r@.len() implies self@.contains_key(#[trigger] r@[a]@) by {
                assert(self@.contains_key(entries@[a].0@));
            }
            assert forall|k: Seq<char>| #[trigger] self@.contains_key(k) implies exists|a: int|
                0 <= a < r@.len() && r@[a]@ == k by {
                let a = choose|a: int| 0 <= a < entries@.len() && entries@[a].0@ == k;
                assert(r@[a]@ == k);
            }
        }
        r
    }
}

impl<T: Clone> ToolRegistry<T> {
    /// A registry of the tools named in `names` that this one has, each a
    /// clone of this one's.
    pub fn subset(&self, names: &[String]) -> (r: Self)
        ensures
            forall|k: Seq<char>| #[trigger]
                r@.contains_key(k) <==> (self@.contains_key(k) && exists|i: int|
                    0 <= i < names@.len() && names@[i]@ == k),
            forall|k: Seq<char>| #[trigger] r@.contains_key(k) ==> cloned(self@[k], r@[k]),
    {
        proof {
            use_type_invariant(self);
            lemma_unique_keyed(self.tools@);
        }
        let mut out = ToolRegistry::new();
        let mut i: usize = 0;
        while i < names.len()
            invariant
                i <= names@.len(),
                forall|k: Seq<char>| #[trigger]
                    out@.contains_key(k) <==> (self@.contains_key(k) && exists|j: int|
                        0 <= j < i && names@[j]@ == k),
                forall|k: Seq<char>| #[trigger] out@.contains_key(k) ==> cloned(self@[k], out@[k]),
            decreases names@.len() - i,
        {
            let name = &names[i];
            match self.get(name.as_str()) {
                Some(tool) => {
                    let copy = tool.clone();
                    out.register(String::from_str(name.as_str()), copy);
                    assert(names@[i as int]@ == name@);
                },
                None => {},
            }
            proof {
                assert forall|k: Seq<char>| #[trigger]
                    out@.contains_key(k) <==> (self@.contains_key(k) && exists|j: int|
                        0 <= j < i + 1 && names@[j]@ == k) by {
                    if self@.contains_key(k) && exists|j: int| 0 <= j < i + 1 && names@[j]@ == k {
                        let j = choose|j: int| 0 <= j < i + 1 && names@[j]@ == k;
                        if j < i {
                            assert(exists|j: int| 0 <= j < i && names@[j]@ == k);
                        }
                    }
                    if exists|j: int| 0 <= j < i && names@[j]@ == k {
                        let j = choose|j: int| 0 <= j < i && names@[j]@ == k;
                        assert(0 <= j < i + 1 && names@[j]@ == k);
                    }
                }
            }
            i = i + 1;
        }
        out
    }
}

impl<T> Default for ToolRegistry<T> {
    fn default() -> (r: Self)
        ensures
            r@ == Map::<Seq<char>, T>::empty(),
    {
        ToolRegistry::new()
    }
}

/// The message of the error for a call of a tool the registry lacks.
pub fn missing_tool_message(name: &str) -> (s: String)
    ensures
        s@ == "Tool not found: "@ + name@,
{
    let mut s = String::from_str("Tool not found: ");
    s.append(name);
    s
}

} // verus!
