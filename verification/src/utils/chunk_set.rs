//! A set of chunk numbers, kept in order.
use vstd::prelude::*;

use std::collections::BTreeSet;

verus! {

/// A set of chunk numbers. Its view lists them in ascending order.
#[derive(Debug)]
pub struct ChunkSet {
    items: BTreeSet<usize>,
}

impl View for ChunkSet {
    type V = Seq<usize>;

    closed spec fn view(&self) -> Seq<usize> {
        listing(self.items@)
    }
}

/// Whether the numbers ascend.
pub open spec fn ascending(s: Seq<usize>) -> bool {
    forall|i: int, j: int| 0 <= i < j < s.len() ==> s[i] < s[j]
}

/// Whether `s` lists the numbers of a set in ascending order.
pub open spec fn lists(s: Seq<usize>, set: Set<usize>) -> bool {
    ascending(s) && forall|x: usize| #[trigger] s.contains(x) <==> set.contains(x)
}

/// The numbers of a set in ascending order.
pub open spec fn listing(set: Set<usize>) -> Seq<usize> {
    choose|s: Seq<usize>| lists(s, set)
}

/// `n`, or how many numbers there are if that is less.
pub open spec fn at_most(n: usize, s: Seq<usize>) -> int {
    if n <= s.len() {
        n as int
    } else {
        s.len() as int
    }
}

/// How many of the numbers are below `item`.
pub open spec fn rank(s: Seq<usize>, item: usize) -> int
    decreases s.len(),
{
    if s.len() == 0 {
        0
    } else {
        rank(s.drop_last(), item) + (if s.last() < item {
            1int
        } else {
            0
        })
    }
}

/// `item` put in its place among numbers that ascend.
pub open spec fn inserted(s: Seq<usize>, item: usize) -> Seq<usize> {
    if s.contains(item) {
        s
    } else {
        s.insert(rank(s, item), item)
    }
}

proof fn lemma_rank(s: Seq<usize>, item: usize)
    requires
        ascending(s),
    ensures
        0 <= rank(s, item) <= s.len(),
        forall|i: int| 0 <= i < rank(s, item) ==> s[i] < item,
        forall|i: int| rank(s, item) <= i < s.len() ==> s[i] >= item,
    decreases s.len(),
{
    if s.len() > 0 {
        let rest = s.drop_last();
        lemma_rank(rest, item);
        let r = rank(rest, item);
        if s.last() < item && r < rest.len() {
            assert(rest[r] >= item);
            assert(s[r] < s[s.len() - 1]);
        }
        assert forall|i: int| 0 <= i < rank(s, item) implies s[i] < item by {
            if i < rest.len() {
                assert(rest[i] == s[i]);
            }
        }
        assert forall|i: int| rank(s, item) <= i < s.len() implies s[i] >= item by {
            if i < rest.len() {
                assert(rest[i] == s[i]);
            }
        }
    }
}

/// Adding a number keeps the others, each once and in ascending order.
pub proof fn insertion_keeps_order(s: Seq<usize>, item: usize)
    requires
        ascending(s),
    ensures
        ascending(inserted(s, item)),
        forall|x: usize| #[trigger]
            inserted(s, item).contains(x) <==> s.contains(x) || x == item,
{
    if !s.contains(item) {
        lemma_rank(s, item);
        let at = rank(s, item);
        let after = s.insert(at, item);
        if at < s.len() {
            assert(s[at] != item);
        }
        assert forall|i: int, j: int| 0 <= i < j < after.len() implies after[i] < after[j] by {
            let i0 = if i < at {
                i
            } else {
                i - 1
            };
            let j0 = if j < at {
                j
            } else {
                j - 1
            };
            if i == at {
                assert(after[j] == s[j0]);
                assert(s.contains(s[j0]));
            } else if j == at {
                assert(after[i] == s[i0]);
            } else {
                assert(after[i] == s[i0] && after[j] == s[j0]);
            }
        }
        assert forall|x: usize| #[trigger] after.contains(x) <==> s.contains(x) || x == item by {
            assert(after[at] == item);
            if s.contains(x) {
                let k = choose|k: int| 0 <= k < s.len() && s[k] == x;
                if k < at {
                    assert(after[k] == x);
                } else {
                    assert(after[k + 1] == x);
                }
            }
            if after.contains(x) && x != item {
                let k = choose|k: int| 0 <= k < after.len() && after[k] == x;
                if k < at {
                    assert(s[k] == x);
                } else {
                    assert(s[k - 1] == x);
                }
            }
        }
    }
}

/// There is one way to list a set in ascending order.
proof fn lemma_one_listing(a: Seq<usize>, b: Seq<usize>, set: Set<usize>)
    requires
        lists(a, set),
        lists(b, set),
    ensures
        a == b,
    decreases a.len(),
{
    if a.len() == 0 {
        if b.len() > 0 {
            assert(b.contains(b[0]));
            assert(a.contains(b[0]));
        }
        assert(a =~= b);
    } else {
        assert(a.contains(a.last()));
        assert(b.contains(a.last()));
        assert(b.contains(b.last()));
        assert(a.contains(b.last()));
        let i = choose|i: int| 0 <= i < a.len() && a[i] == b.last();
        let j = choose|j: int| 0 <= j < b.len() && b[j] == a.last();
        if i < a.len() - 1 {
            assert(a[i] < a[a.len() - 1]);
        }
        if j < b.len() - 1 {
            assert(b[j] < b[b.len() - 1]);
        }
        let rest = set.remove(a.last());
        lemma_rest(a, set);
        lemma_rest(b, set);
        lemma_one_listing(a.drop_last(), b.drop_last(), rest);
        assert(a =~= a.drop_last().push(a.last()));
        assert(b =~= b.drop_last().push(b.last()));
    }
}

proof fn lemma_rest(s: Seq<usize>, set: Set<usize>)
    requires
        lists(s, set),
        s.len() > 0,
    ensures
        lists(s.drop_last(), set.remove(s.last())),
{
    let rest = s.drop_last();
    assert forall|x: usize| #[trigger] rest.contains(x) <==> set.remove(s.last()).contains(x) by {
        if rest.contains(x) {
            let k = choose|k: int| 0 <= k < rest.len() && rest[k] == x;
            assert(s[k] == x);
            assert(s.contains(x));
            assert(s[k] < s[s.len() - 1]);
        }
        if set.remove(s.last()).contains(x) {
            assert(s.contains(x));
            let k = choose|k: int| 0 <= k < s.len() && s[k] == x;
            assert(rest[k] == x);
        }
    }
}

proof fn lemma_without_first(s: Seq<usize>, set: Set<usize>)
    requires
        lists(s, set),
        s.len() > 0,
    ensures
        lists(s.skip(1), set.remove(s[0])),
{
    let rest = s.skip(1);
    assert forall|x: usize| #[trigger] rest.contains(x) <==> set.remove(s[0]).contains(x) by {
        if rest.contains(x) {
            let k = choose|k: int| 0 <= k < rest.len() && rest[k] == x;
            assert(s[k + 1] == x);
            assert(s.contains(x));
            assert(s[0] < s[k + 1]);
        }
        if set.remove(s[0]).contains(x) {
            assert(s.contains(x));
            let k = choose|k: int| 0 <= k < s.len() && s[k] == x;
            assert(rest[k - 1] == x);
        }
    }
}

/// A set in the order in which it is gone through is listed.
proof fn lemma_order(m: &BTreeSet<usize>)
    ensures
        lists(
            vstd::std_specs::iter::IteratorSpec::remaining(
                &vstd::std_specs::btree::spec_btree_keys_iter(m),
            ).unref(),
            m@,
        ),
{
    broadcast use vstd::std_specs::btree::group_btree_axioms;
    broadcast use vstd::laws_cmp::group_laws_cmp;

    vstd::std_specs::btree::axiom_spec_btree_keys_iter(m);
    let r = vstd::std_specs::iter::IteratorSpec::remaining(
        &vstd::std_specs::btree::spec_btree_keys_iter(m),
    );
    assert(vstd::laws_cmp::obeys_cmp::<usize>());
    assert(vstd::laws_cmp::obeys_cmp::<&usize>());
    vstd::std_specs::btree::axiom_increasing_seq_meaning(r);
    let u = r.unref();
    assert(forall|i: int, j: int|
        0 <= i < j < r.len() ==> vstd::std_specs::cmp::OrdSpec::cmp_spec(&r[i], &r[j]) is Less);
    assert forall|i: int, j: int| 0 <= i < j < u.len() implies u[i] < u[j] by {
        assert(vstd::std_specs::cmp::OrdSpec::cmp_spec(&r[i], &r[j]) is Less);
        assert(u[i] == *r[i] && u[j] == *r[j]);
        assert(vstd::std_specs::cmp::OrdSpec::cmp_spec(r[i], r[j]) is Less);
    }
    assert forall|x: usize| #[trigger] u.contains(x) <==> m@.contains(x) by {
        assert(u.to_set().contains(x) <==> m@.contains(x));
    }
}

proof fn lemma_listed(m: &BTreeSet<usize>)
    ensures
        lists(listing(m@), m@),
        listing(m@) == vstd::std_specs::iter::IteratorSpec::remaining(
            &vstd::std_specs::btree::spec_btree_keys_iter(m),
        ).unref(),
{
    lemma_order(m);
    let order = vstd::std_specs::iter::IteratorSpec::remaining(
        &vstd::std_specs::btree::spec_btree_keys_iter(m),
    ).unref();
    lemma_one_listing(listing(m@), order, m@);
}

impl ChunkSet {
    /// Whether the numbers ascend.
    pub open spec fn wf(self) -> bool {
        ascending(self@)
    }

    /// No numbers.
    pub fn new() -> (s: Self)
        ensures
            s.wf(),
            s@ == Seq::<usize>::empty(),
    {
        let s = ChunkSet { items: BTreeSet::new() };
        proof {
            assert(lists(Seq::<usize>::empty(), s.items@));
            lemma_listed(&s.items);
            lemma_one_listing(s@, Seq::<usize>::empty(), s.items@);
        }
        s
    }

    /// Whether there are no numbers.
    pub fn is_empty(&self) -> (r: bool)
        ensures
            r == (self@.len() == 0),
    {
        proof {
            lemma_listed(&self.items);
            if self@.len() > 0 {
                assert(self@.contains(self@[0]));
            }
            if !self.items@.is_empty() {
                let x = self.items@.choose();
                assert(self@.contains(x));
            }
        }
        self.items.is_empty()
    }

    /// Adds a number; one that is there already changes nothing.
    pub fn insert(&mut self, item: usize)
        requires
            old(self).wf(),
        ensures
            final(self).wf(),
            final(self)@ == inserted(old(self)@, item),
            forall|i: usize|
                #[trigger] final(self)@.contains(i) <==> old(self)@.contains(i) || i == item,
    {
        broadcast use vstd::std_specs::btree::group_btree_axioms;
        broadcast use vstd::laws_cmp::group_laws_cmp;

        let ghost before = self@;
        proof {
            lemma_listed(&self.items);
            insertion_keeps_order(before, item);
        }
        let ghost set = self.items@;
        let _ = self.items.insert(item);
        proof {
            assert(self.items@ == set.insert(item));
            lemma_listed(&self.items);
            lemma_one_listing(self@, inserted(before, item), self.items@);
        }
    }

    /// The `n` smallest numbers, or all if there are fewer.
    fn first(&self, n: usize) -> (taken: Vec<usize>)
        ensures
            taken@ == self@.take(at_most(n, self@)),
    {
        broadcast use vstd::std_specs::btree::group_btree_axioms;
        broadcast use vstd::laws_cmp::group_laws_cmp;

        proof {
            lemma_listed(&self.items);
        }
        let ghost all = self@;
        let mut taken: Vec<usize> = Vec::new();
        for x in it: self.items.iter()
            invariant
                it.seq().unref() == all,
                taken@.len() <= n,
                taken@ == all.take(at_most(n, all.take(it.index()))),
        {
            assert(*x == all[it.index()]);
            if taken.len() < n {
                taken.push(*x);
            }
        }
        taken
    }

    /// Takes the smallest number out, which is given.
    fn remove_first(&mut self, item: usize)
        requires
            old(self)@.len() > 0,
            old(self)@[0] == item,
        ensures
            final(self)@ == old(self)@.skip(1),
    {
        broadcast use vstd::std_specs::btree::group_btree_axioms;
        broadcast use vstd::laws_cmp::group_laws_cmp;

        let ghost before = self@;
        let ghost set = self.items@;
        proof {
            lemma_listed(&self.items);
        }
        let _ = self.items.remove(&item);
        proof {
            assert(self.items@ == set.remove(item));
            lemma_listed(&self.items);
            lemma_without_first(before, set);
            lemma_one_listing(self@, before.skip(1), self.items@);
        }
    }

    /// Takes the smallest numbers out, which are given.
    fn remove_all(&mut self, taken: &Vec<usize>)
        requires
            taken@.is_prefix_of(old(self)@),
        ensures
            final(self)@ == old(self)@.skip(taken@.len() as int),
    {
        let ghost all = self@;
        let mut i: usize = 0;
        assert(all.skip(0) =~= all);
        while i < taken.len()
            invariant
                i <= taken@.len(),
                taken@.is_prefix_of(all),
                self@ == all.skip(i as int),
            decreases taken.len() - i,
        {
            assert(taken@[i as int] == all[i as int]);
            self.remove_first(taken[i]);
            assert(all.skip(i as int).skip(1) =~= all.skip(i + 1));
            i += 1;
        }
    }

    /// Takes the `n` smallest numbers out, or all if there are fewer.
    pub fn take_first(&mut self, n: usize) -> (taken: Vec<usize>)
        requires
            old(self).wf(),
        ensures
            final(self).wf(),
            taken@ == old(self)@.take(at_most(n, old(self)@)),
            final(self)@ == old(self)@.skip(at_most(n, old(self)@)),
    {
        let taken: Vec<usize> = self.first(n);
        self.remove_all(&taken);
        taken
    }
}

} // verus!
