//! Sets of names in ascending order, and values bound to names.
use vstd::prelude::*;

use crate::text;

verus! {

/// Strict lexicographic order on the characters, which is also the order of the UTF-8 bytes.
pub open spec fn precedes(a: Seq<char>, b: Seq<char>) -> bool
    decreases a.len(),
{
    if b.len() == 0 {
        false
    } else if a.len() == 0 {
        true
    } else if a.first() == b.first() {
        precedes(a.drop_first(), b.drop_first())
    } else {
        a.first() < b.first()
    }
}

/// Each name precedes those after it; in particular none occurs twice.
pub open spec fn ascending(names: Seq<Seq<char>>) -> bool {
    forall|i: int, j: int| 0 <= i < j < names.len() ==> precedes(#[trigger] names[i], #[trigger] names[j])
}

proof fn lemma_precedes_irreflexive(a: Seq<char>)
    ensures
        !precedes(a, a),
    decreases a.len(),
{
    if a.len() > 0 {
        lemma_precedes_irreflexive(a.drop_first());
    }
}

proof fn lemma_precedes_transitive(a: Seq<char>, b: Seq<char>, c: Seq<char>)
    requires
        precedes(a, b),
        precedes(b, c),
    ensures
        precedes(a, c),
    decreases a.len(),
{
    if a.len() > 0 && b.len() > 0 && c.len() > 0 && a.first() == b.first() && b.first()
        == c.first() {
        lemma_precedes_transitive(a.drop_first(), b.drop_first(), c.drop_first());
    }
}

/// Two lists of names in ascending order that hold the same names are the same list.
pub proof fn law_ascending_list_is_unique(a: Seq<Seq<char>>, b: Seq<Seq<char>>)
    requires
        ascending(a),
        ascending(b),
        a.to_set() == b.to_set(),
    ensures
        a == b,
    decreases a.len(),
{
    if a.len() == 0 {
        if b.len() > 0 {
            assert(b.to_set().contains(b[0]));
            assert(a.contains(b[0]));
        }
        assert(a =~= b);
    } else {
        assert(a.to_set().contains(a[0]));
        assert(b.contains(a[0]));
        assert(b.to_set().contains(b[0]));
        assert(a.contains(b[0]));
        let i = choose|i: int| 0 <= i < b.len() && b[i] == a[0];
        let j = choose|j: int| 0 <= j < a.len() && a[j] == b[0];
        if i != 0 && j != 0 {
            lemma_precedes_transitive(a[0], a[j], b[i]);
            lemma_precedes_irreflexive(a[0]);
        }
        assert(a[0] == b[0]);
        let ra = a.drop_first();
        let rb = b.drop_first();
        lemma_rest_contains(a);
        lemma_rest_contains(b);
        assert(ra.to_set() =~= rb.to_set()) by {
            assert forall|x: Seq<char>| ra.to_set().contains(x) == rb.to_set().contains(x) by {
                assert(ra.contains(x) <==> (a.contains(x) && x != a[0]));
                assert(rb.contains(x) <==> (b.contains(x) && x != b[0]));
                assert(a.to_set().contains(x) == a.contains(x));
                assert(b.to_set().contains(x) == b.contains(x));
            }
        }
        assert forall|p: int, q: int| 0 <= p < q < ra.len() implies precedes(
            #[trigger] ra[p],
            #[trigger] ra[q],
        ) by {
            assert(precedes(a[p + 1], a[q + 1]));
        }
        assert forall|p: int, q: int| 0 <= p < q < rb.len() implies precedes(
            #[trigger] rb[p],
            #[trigger] rb[q],
        ) by {
            assert(precedes(b[p + 1], b[q + 1]));
        }
        law_ascending_list_is_unique(ra, rb);
        assert(a =~= seq![a[0]] + ra);
        assert(b =~= seq![b[0]] + rb);
    }
}

/// The names after the first of an ascending list are the others.
proof fn lemma_rest_contains(a: Seq<Seq<char>>)
    requires
        ascending(a),
        a.len() > 0,
    ensures
        forall|x: Seq<char>| #[trigger]
            a.drop_first().contains(x) <==> (a.contains(x) && x != a[0]),
{
    let r = a.drop_first();
    assert forall|x: Seq<char>| #[trigger] r.contains(x) <==> (a.contains(x) && x != a[0]) by {
        if r.contains(x) {
            let k = choose|k: int| 0 <= k < r.len() && r[k] == x;
            assert(a[k + 1] == x);
            assert(precedes(a[0], a[k + 1]));
            lemma_precedes_irreflexive(x);
        }
        if a.contains(x) && x != a[0] {
            let k = choose|k: int| 0 <= k < a.len() && a[k] == x;
            assert(r[k - 1] == x);
        }
    }
}

/// Where a name stands relative to another.
pub enum Place {
    Before,
    Same,
    After,
}

/// Compares two names in lexicographic order.
fn place(a: &str, b: &str) -> (res: Place)
    ensures
        match res {
            Place::Before => precedes(a@, b@) && a@ != b@,
            Place::Same => a@ == b@,
            Place::After => precedes(b@, a@) && a@ != b@,
        },
{
    let x = text::chars_of(a);
    let y = text::chars_of(b);
    let mut i: usize = 0;
    assert(x@.skip(0) =~= x@ && y@.skip(0) =~= y@);
    while i < x.len() && i < y.len() && x[i] == y[i]
        invariant
            x@ == a@,
            y@ == b@,
            i <= x@.len(),
            i <= y@.len(),
            x@.take(i as int) == y@.take(i as int),
            precedes(a@, b@) == precedes(x@.skip(i as int), y@.skip(i as int)),
            precedes(b@, a@) == precedes(y@.skip(i as int), x@.skip(i as int)),
        decreases x@.len() - i,
    {
        assert(x@.skip(i as int).drop_first() =~= x@.skip(i + 1));
        assert(y@.skip(i as int).drop_first() =~= y@.skip(i + 1));
        assert(x@.take(i + 1) =~= x@.take(i as int).push(x@[i as int]));
        assert(y@.take(i + 1) =~= y@.take(i as int).push(y@[i as int]));
        i = i + 1;
    }
    assert(x@.take(x@.len() as int) =~= x@ && y@.take(y@.len() as int) =~= y@);
    if i == x.len() && i == y.len() {
        Place::Same
    } else if i == x.len() {
        Place::Before
    } else if i == y.len() {
        Place::After
    } else if x[i] < y[i] {
        assert(x@.skip(i as int)[0] != y@.skip(i as int)[0]);
        Place::Before
    } else {
        assert(x@.skip(i as int)[0] != y@.skip(i as int)[0]);
        Place::After
    }
}

/// A set of names, kept in ascending order.
pub struct NameSet {
    names: Vec<String>,
}

impl NameSet {
    /// The names in the order in which they are kept.
    pub closed spec fn listing(&self) -> Seq<Seq<char>> {
        text::texts(self.names@)
    }

    pub open spec fn wf(&self) -> bool {
        ascending(self.listing())
    }
}

impl View for NameSet {
    type V = Set<Seq<char>>;

    open spec fn view(&self) -> Set<Seq<char>> {
        self.listing().to_set()
    }
}

impl NameSet {
    pub fn new() -> (res: NameSet)
        ensures
            res.wf(),
            res@ == Set::<Seq<char>>::empty(),
    {
        let res = NameSet { names: Vec::new() };
        assert(res.listing() =~= Seq::<Seq<char>>::empty());
        assert(res@ =~= Set::<Seq<char>>::empty());
        res
    }

    /// Adds a name, unless it is there already.
    pub fn insert(&mut self, name: &str)
        requires
            old(self).wf(),
        ensures
            final(self).wf(),
            final(self)@ == old(self)@.insert(name@),
    {
        let ghost before = self.listing();
        let mut i: usize = 0;
        while i < self.names.len()
            invariant
                self.listing() == before,
                ascending(before),
                before.len() == self.names@.len(),
                i <= before.len(),
                forall|k: int| 0 <= k < i ==> precedes(#[trigger] before[k], name@),
            ensures
                i < before.len() ==> precedes(name@, before[i as int]),
            decreases before.len() - i,
        {
            match place(self.names[i].as_str(), name) {
                Place::Before => {
                    i = i + 1;
                },
                Place::Same => {
                    assert(before[i as int] == name@);
                    assert(self@ =~= self@.insert(name@));
                    return ;
                },
                Place::After => {
                    assert(precedes(name@, before[i as int]));
                    break ;
                },
            }
        }
        self.names.insert(i, name.to_owned());
        proof {
            let after = self.listing();
            assert(after =~= before.insert(i as int, name@));
            lemma_insert_keeps_order(before, i as int, name@);
            assert(after.to_set() =~= before.to_set().insert(name@)) by {
                assert forall|x: Seq<char>| after.to_set().contains(x) == before.to_set().insert(
                    name@,
                ).contains(x) by {
                    lemma_insert_contains(before, i as int, name@, x);
                    assert(after.to_set().contains(x) == after.contains(x));
                    assert(before.to_set().contains(x) == before.contains(x));
                }
            }
        }
    }

    /// The number of names.
    pub fn len(&self) -> (res: usize)
        requires
            self.wf(),
        ensures
            res == self@.len(),
            self@.finite(),
    {
        proof {
            let l = self.listing();
            assert(l.no_duplicates()) by {
                assert forall|i: int, j: int|
                    0 <= i < l.len() && 0 <= j < l.len() && i != j implies l[i] != l[j] by {
                    if i < j {
                        assert(precedes(l[i], l[j]));
                    } else {
                        assert(precedes(l[j], l[i]));
                    }
                    lemma_precedes_irreflexive(l[i]);
                }
            }
            l.unique_seq_to_set();
            vstd::seq_lib::seq_to_set_is_finite(l);
        }
        self.names.len()
    }

    /// Whether a name is in the set.
    pub fn contains(&self, name: &str) -> (res: bool)
        ensures
            res == self@.contains(name@),
    {
        proof {
            assert(self@.contains(name@) == self.listing().contains(name@));
        }
        text::list_contains(&self.names, name)
    }

    /// The names in ascending order.
    pub fn into_names(self) -> (res: Vec<String>)
        requires
            self.wf(),
        ensures
            ascending(text::texts(res@)),
            text::texts(res@).to_set() == self@,
    {
        self.names
    }
}

/// A name put between those that precede it and those that it precedes keeps the order.
proof fn lemma_insert_keeps_order(names: Seq<Seq<char>>, i: int, name: Seq<char>)
    requires
        ascending(names),
        0 <= i <= names.len(),
        forall|k: int| 0 <= k < i ==> precedes(#[trigger] names[k], name),
        i < names.len() ==> precedes(name, names[i]),
    ensures
        ascending(names.insert(i, name)),
{
    let after = names.insert(i, name);
    assert forall|p: int, q: int| 0 <= p < q < after.len() implies precedes(
        #[trigger] after[p],
        #[trigger] after[q],
    ) by {
        if q < i {
            assert(after[p] == names[p] && after[q] == names[q]);
        } else if q == i {
            assert(after[p] == names[p]);
        } else if p == i {
            assert(after[q] == names[q - 1]);
            if q - 1 > i {
                lemma_precedes_transitive(name, names[i], names[q - 1]);
            }
        } else if p < i {
            assert(after[p] == names[p] && after[q] == names[q - 1]);
        } else {
            assert(after[p] == names[p - 1] && after[q] == names[q - 1]);
        }
    }
}

proof fn lemma_insert_contains(names: Seq<Seq<char>>, i: int, name: Seq<char>, x: Seq<char>)
    requires
        0 <= i <= names.len(),
    ensures
        names.insert(i, name).contains(x) <==> (names.contains(x) || x == name),
{
    let after = names.insert(i, name);
    assert(after[i] == name);
    if after.contains(x) && x != name {
        let k = choose|k: int| 0 <= k < after.len() && after[k] == x;
        if k < i {
            assert(names[k] == x);
        } else {
            assert(names[k - 1] == x);
        }
    }
    if names.contains(x) {
        let k = choose|k: int| 0 <= k < names.len() && names[k] == x;
        if k < i {
            assert(after[k] == x);
        } else {
            assert(after[k + 1] == x);
        }
    }
}

/// Values bound to distinct names.
pub struct Bindings {
    entries: Vec<(String, String)>,
}

/// The bindings that a list of pairs makes; of two pairs with one name the first counts.
pub open spec fn pairs_map(pairs: Seq<(String, String)>) -> Map<Seq<char>, Seq<char>>
    decreases pairs.len(),
{
    if pairs.len() == 0 {
        Map::empty()
    } else {
        let rest = pairs_map(pairs.drop_last());
        let name = pairs.last().0@;
        if rest.dom().contains(name) {
            rest
        } else {
            rest.insert(name, pairs.last().1@)
        }
    }
}

/// Pairs by their texts.
pub open spec fn pair_texts(pairs: Seq<(String, String)>) -> Seq<(Seq<char>, Seq<char>)> {
    Seq::new(pairs.len(), |i: int| (pairs[i].0@, pairs[i].1@))
}

/// No two pairs have the same name.
pub open spec fn named_once(pairs: Seq<(String, String)>) -> bool {
    forall|i: int, j: int|
        0 <= i < j < pairs.len() ==> (#[trigger] pairs[i]).0@ != (#[trigger] pairs[j]).0@
}

/// Adds a pair with a new name.
pub fn add_pair(pairs: &mut Vec<(String, String)>, name: &str, value: &String)
    requires
        named_once(old(pairs)@),
        !pairs_map(old(pairs)@).dom().contains(name@),
    ensures
        named_once(final(pairs)@),
        pairs_map(final(pairs)@) == pairs_map(old(pairs)@).insert(name@, value@),
{
    let ghost before = pairs@;
    pairs.push((name.to_owned(), value.clone()));
    proof {
        assert(pairs@.drop_last() =~= before);
        assert forall|i: int, j: int| 0 <= i < j < pairs@.len() implies (#[trigger] pairs@[i]).0@
            != (#[trigger] pairs@[j]).0@ by {
            assert(pairs@[i] == before[i]);
            if j == before.len() {
                lemma_name_bound(before, i);
            } else {
                assert(pairs@[j] == before[j]);
            }
        }
    }
}

impl View for Bindings {
    type V = Map<Seq<char>, Seq<char>>;

    closed spec fn view(&self) -> Map<Seq<char>, Seq<char>> {
        pairs_map(self.entries@)
    }
}

/// Looking a name up finds the first pair that has it.
pub proof fn lemma_pairs_map(pairs: Seq<(String, String)>, k: int)
    requires
        0 <= k < pairs.len(),
        forall|j: int| 0 <= j < k ==> (#[trigger] pairs[j]).0@ != pairs[k].0@,
    ensures
        pairs_map(pairs).dom().contains(pairs[k].0@),
        pairs_map(pairs)[pairs[k].0@] == pairs[k].1@,
    decreases pairs.len(),
{
    let rest = pairs.drop_last();
    if k < pairs.len() - 1 {
        assert(rest[k] == pairs[k]);
        assert forall|j: int| 0 <= j < k implies (#[trigger] rest[j]).0@ != rest[k].0@ by {
            assert(rest[j] == pairs[j]);
        }
        lemma_pairs_map(rest, k);
    } else {
        assert forall|j: int| 0 <= j < rest.len() implies (#[trigger] rest[j]).0@
            != pairs[k].0@ by {
            assert(rest[j] == pairs[j]);
        }
        lemma_pairs_map_absent(rest, pairs[k].0@);
    }
}

/// A bound name stands in some pair.
pub proof fn lemma_bound_name(pairs: Seq<(String, String)>, name: Seq<char>) -> (k: int)
    requires
        pairs_map(pairs).dom().contains(name),
    ensures
        0 <= k < pairs.len(),
        pairs[k].0@ == name,
{
    if forall|j: int| 0 <= j < pairs.len() ==> (#[trigger] pairs[j]).0@ != name {
        lemma_pairs_map_absent(pairs, name);
    }
    choose|j: int| 0 <= j < pairs.len() && (#[trigger] pairs[j]).0@ == name
}

/// The name of every pair is bound.
pub proof fn lemma_name_bound(pairs: Seq<(String, String)>, k: int)
    requires
        0 <= k < pairs.len(),
    ensures
        pairs_map(pairs).dom().contains(pairs[k].0@),
    decreases pairs.len(),
{
    if k < pairs.len() - 1 {
        assert(pairs.drop_last()[k] == pairs[k]);
        lemma_name_bound(pairs.drop_last(), k);
    }
}

proof fn lemma_pairs_map_absent(pairs: Seq<(String, String)>, name: Seq<char>)
    requires
        forall|j: int| 0 <= j < pairs.len() ==> (#[trigger] pairs[j]).0@ != name,
    ensures
        !pairs_map(pairs).dom().contains(name),
    decreases pairs.len(),
{
    if pairs.len() > 0 {
        let rest = pairs.drop_last();
        assert forall|j: int| 0 <= j < rest.len() implies (#[trigger] rest[j]).0@ != name by {
            assert(rest[j] == pairs[j]);
        }
        lemma_pairs_map_absent(rest, name);
        assert(pairs[pairs.len() - 1].0@ != name);
    }
}

impl Bindings {
    pub fn new() -> (res: Bindings)
        ensures
            res@ == Map::<Seq<char>, Seq<char>>::empty(),
    {
        Bindings { entries: Vec::new() }
    }

    /// The value bound to a name.
    pub fn get(&self, name: &str) -> (res: Option<&String>)
        ensures
            match res {
                Some(value) => self@.dom().contains(name@) && self@[name@] == value@,
                None => !self@.dom().contains(name@),
            },
    {
        for i in 0..self.entries.len()
            invariant
                forall|j: int| 0 <= j < i ==> (#[trigger] self.entries@[j]).0@ != name@,
        {
            if text::same_text(self.entries[i].0.as_str(), name) {
                proof {
                    lemma_pairs_map(self.entries@, i as int);
                }
                return Some(&self.entries[i].1);
            }
        }
        proof {
            lemma_pairs_map_absent(self.entries@, name@);
        }
        None
    }

    /// Binds a value to a name that has none yet.
    pub fn bind(&mut self, name: String, value: String)
        requires
            !old(self)@.dom().contains(name@),
        ensures
            final(self)@ == old(self)@.insert(name@, value@),
    {
        let ghost before = self.entries@;
        self.entries.push((name, value));
        assert(self.entries@.drop_last() =~= before);
    }

    /// The names that have a value.
    pub fn names(&self) -> (res: NameSet)
        ensures
            res.wf(),
            res@ == self@.dom(),
    {
        let mut out = NameSet::new();
        for i in 0..self.entries.len()
            invariant
                out.wf(),
                out@ == pairs_map(self.entries@.take(i as int)).dom(),
        {
            let ghost shorter = self.entries@.take(i as int);
            assert(self.entries@.take(i + 1).drop_last() =~= shorter);
            out.insert(self.entries[i].0.as_str());
            assert(out@ =~= pairs_map(self.entries@.take(i + 1)).dom());
        }
        assert(self.entries@.take(self.entries@.len() as int) =~= self.entries@);
        out
    }
}

/// The order of names: what begins another precedes it; else the first character in which they
/// differ decides.
pub proof fn law_order_of_names(
    common: Seq<char>,
    c: char,
    d: char,
    rest: Seq<char>,
    other: Seq<char>,
)
    requires
        c as int != d as int,
    ensures
        precedes(common.push(c) + rest, common.push(d) + other) <==> (c as int) < d as int,
        precedes(common, common.push(c) + rest),
        !precedes(common.push(c) + rest, common),
        !precedes(common, common),
    decreases common.len(),
{
    let x = common.push(c) + rest;
    let y = common.push(d) + other;
    if common.len() == 0 {
        assert(x.first() == c);
        assert(y.first() == d);
    } else {
        let shorter = common.drop_first();
        law_order_of_names(shorter, c, d, rest, other);
        assert(x.drop_first() =~= shorter.push(c) + rest);
        assert(y.drop_first() =~= shorter.push(d) + other);
        assert(x.first() == common.first());
        assert(y.first() == common.first());
    }
}

/// In an ascending list every name precedes all that come later, and none comes twice.
pub proof fn law_ascending_lists(names: Seq<Seq<char>>, i: int, j: int)
    requires
        ascending(names),
        0 <= i < j < names.len(),
    ensures
        precedes(names[i], names[j]),
        names[i] != names[j],
{
    lemma_precedes_irreflexive(names[i]);
}

} // verus!
