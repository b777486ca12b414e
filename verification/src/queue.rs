//! Objects queued for drawing on a page, kept in the order they are drawn: by depth,
//! lower depths first, and in the order they were pushed among equal depths.

use vstd::prelude::*;

verus! {

broadcast use vstd::seq_lib::group_seq_properties;

/// The entries of `s` at depth `d`, in their order in `s`.
pub open spec fn at_depth<T>(s: Seq<(i64, T)>, d: i64) -> Seq<(i64, T)> {
    s.filter(|e: (i64, T)| e.0 == d)
}

/// Depths never decrease along `s`.
pub open spec fn depth_sorted<T>(s: Seq<(i64, T)>) -> bool {
    forall|i: int, j: int| 0 <= i <= j < s.len() ==> s[i].0 <= s[j].0
}

/// `s` holds, in drawing order, the entries pushed in order as `pushed`: depths never
/// decrease, and the entries of each depth appear in the order they were pushed.
pub open spec fn draws_in_order<T>(s: Seq<(i64, T)>, pushed: Seq<(i64, T)>) -> bool {
    &&& depth_sorted(s)
    &&& s.len() == pushed.len()
    &&& forall|d: i64| #[trigger] at_depth(s, d) == at_depth(pushed, d)
}

proof fn lemma_at_depth_push<T>(s: Seq<(i64, T)>, x: (i64, T), d: i64)
    ensures
        at_depth(s.push(x), d) == if x.0 == d { at_depth(s, d).push(x) } else { at_depth(s, d) },
{
    reveal(Seq::filter);
    assert(s.push(x).drop_last() =~= s);
}

proof fn lemma_at_depth_none<T>(s: Seq<(i64, T)>, d: i64)
    requires
        forall|i: int| 0 <= i < s.len() ==> s[i].0 != d,
    ensures
        at_depth(s, d) == Seq::<(i64, T)>::empty(),
    decreases s.len(),
{
    reveal(Seq::filter);
    if s.len() > 0 {
        lemma_at_depth_none(s.drop_last(), d);
    }
}

proof fn lemma_at_depth_add<T>(a: Seq<(i64, T)>, b: Seq<(i64, T)>, d: i64)
    ensures
        at_depth(a + b, d) == at_depth(a, d) + at_depth(b, d),
{
    Seq::filter_distributes_over_add(a, b, |e: (i64, T)| e.0 == d);
}

/// Objects of a page waiting to be drawn.
pub struct PageObjects<T> {
    /// Entries (depth, object) in drawing order.
    items: Vec<(i64, T)>,
    /// Entries in the order they were pushed.
    pushed: Ghost<Seq<(i64, T)>>,
}

impl<T> View for PageObjects<T> {
    type V = Seq<(i64, T)>;

    closed spec fn view(&self) -> Seq<(i64, T)> {
        self.items@
    }
}

impl<T> PageObjects<T> {
    #[verifier::type_invariant]
    closed spec fn inv(self) -> bool {
        draws_in_order(self.items@, self.pushed@)
    }

    /// The entries in the order they were pushed.
    pub closed spec fn pushed(self) -> Seq<(i64, T)> {
        self.pushed@
    }

    /// Creates an empty queue.
    pub fn new() -> (r: Self)
        ensures
            r@ == Seq::<(i64, T)>::empty(),
            r.pushed() == Seq::<(i64, T)>::empty(),
    {
        let r = PageObjects { items: Vec::new(), pushed: Ghost(Seq::empty()) };
        proof {
            reveal(Seq::filter);
        }
        r
    }

    /// Queues `obj` at `depth`: it is drawn after every object of a lower depth, and after
    /// the objects of its own depth pushed before it.
    pub fn push(&mut self, depth: i64, obj: T)
        ensures
            final(self).pushed() == old(self).pushed().push((depth, obj)),
            draws_in_order(final(self)@, final(self).pushed()),
    {
        proof {
            use_type_invariant(&*self);
        }
        let n = self.items.len();
        let mut pos: usize = 0;
        while pos < n && self.items[pos].0 <= depth
            invariant
                n == self.items@.len(),
                pos <= n,
                forall|i: int| 0 <= i < pos ==> self.items@[i].0 <= depth,
            decreases n - pos,
        {
            pos = pos + 1;
        }
        let ghost old_items = self.items@;
        let ghost old_pushed = self.pushed@;
        let x = (depth, obj);
        let ghost gx = x;
        let mut taken = PageObjects::new();
        std::mem::swap(&mut taken, self);
        let mut items = taken.items;
        assert(items@ == old_items);
        items.insert(pos, x);
        proof {
            let front = old_items.take(pos as int);
            let back = old_items.skip(pos as int);
            assert(old_items =~= front + back);
            assert(items@ =~= front + seq![gx] + back);
            assert forall|i: int| 0 <= i < back.len() implies back[i].0 > depth by {
                assert(back[i] == old_items[pos + i]);
                assert(old_items[pos as int].0 > depth);
            }
            assert forall|d: i64| #[trigger] at_depth(items@, d) == at_depth(old_pushed.push(gx), d) by {
                lemma_at_depth_push(old_pushed, gx, d);
                lemma_at_depth_add(front + seq![gx], back, d);
                lemma_at_depth_add(front, seq![gx], d);
                lemma_at_depth_add(front, back, d);
                lemma_at_depth_push(Seq::empty(), gx, d);
                reveal(Seq::filter);
                assert(seq![gx] =~= Seq::<(i64, T)>::empty().push(gx));
                if d == depth {
                    lemma_at_depth_none(back, d);
                    assert(at_depth(front + seq![gx], d) =~= at_depth(front, d).push(gx));
                    assert(at_depth(front, d) + at_depth(back, d) =~= at_depth(front, d));
                } else {
                    assert(at_depth(seq![gx], d) =~= Seq::<(i64, T)>::empty());
                    assert(at_depth(front, d) + Seq::<(i64, T)>::empty() =~= at_depth(front, d));
                }
            }
            assert forall|i: int, j: int| 0 <= i <= j < items@.len() implies items@[i].0 <= items@[j].0 by {
                if i < pos && j > pos {
                    assert(items@[i] == old_items[i]);
                    assert(items@[j] == old_items[j - 1]);
                } else if i > pos {
                    assert(items@[i] == old_items[i - 1]);
                    assert(items@[j] == old_items[j - 1]);
                } else if j < pos {
                    assert(items@[i] == old_items[i]);
                    assert(items@[j] == old_items[j]);
                } else if i == pos && j > pos {
                    assert(items@[j] == back[j - pos - 1]);
                } else if j == pos && i < pos {
                    assert(items@[i] == old_items[i]);
                }
            }
        }
        *self = PageObjects { items, pushed: Ghost(old_pushed.push(gx)) };
    }

    /// The queued entries (depth, object) in drawing order.
    pub fn entries(&self) -> (r: &Vec<(i64, T)>)
        ensures
            r@ == self@,
            draws_in_order(self@, self.pushed()),
    {
        proof {
            use_type_invariant(self);
        }
        &self.items
    }

    /// Consumes the queue, returning the entries (depth, object) in drawing order.
    pub fn into_entries(self) -> (r: Vec<(i64, T)>)
        ensures
            r@ == self@,
            draws_in_order(r@, self.pushed()),
    {
        proof {
            use_type_invariant(&self);
        }
        self.items
    }
}

/// Orders entries by depth, lower depths first, keeping the given order among entries of
/// equal depth.
pub fn sort_by_depth<T>(entries: Vec<(i64, T)>) -> (r: Vec<(i64, T)>)
    ensures
        draws_in_order(r@, entries@),
{
    let mut queue: PageObjects<T> = PageObjects::new();
    let mut rest = entries;
    let ghost all = rest@;
    let total: usize = rest.len();
    assert(all.len() == total);
    let mut taken: Vec<(i64, T)> = Vec::new();
    // Reverse so that popping yields the entries in their original order.
    while rest.len() > 0
        invariant
            taken@ + rest@.reverse() =~= all.reverse(),
        decreases rest.len(),
    {
        let e = rest.pop().unwrap();
        taken.push(e);
    }
    let ghost rev = taken@;
    let mut done: usize = 0;
    while taken.len() > 0
        invariant
            rev == all.reverse(),
            taken@ =~= rev.take(rev.len() - done),
            done <= rev.len(),
            rev.len() == all.len(),
            all.len() <= usize::MAX,
            queue.pushed() =~= all.take(done as int),
            draws_in_order(queue@, queue.pushed()),
        decreases taken.len(),
    {
        let ghost before = taken@;
        let (d, obj) = taken.pop().unwrap();
        proof {
            assert(all[done as int] == rev[rev.len() - 1 - done]);
            assert(all.take(done + 1) =~= all.take(done as int).push(all[done as int]));
        }
        queue.push(d, obj);
        done = done + 1;
    }
    proof {
        assert(all.take(all.len() as int) =~= all);
    }
    queue.into_entries()
}

/// The drawing order is determined by the pushes: two orders that both draw the same
/// pushed entries in order are the same.
pub proof fn law_draw_order_unique<T>(s1: Seq<(i64, T)>, s2: Seq<(i64, T)>, pushed: Seq<(i64, T)>)
    requires
        draws_in_order(s1, pushed),
        draws_in_order(s2, pushed),
    ensures
        s1 == s2,
    decreases s1.len(),
{
    if s1.len() > 0 {
        let a = s1.last();
        let b = s2.last();
        let (p1, p2) = (s1.drop_last(), s2.drop_last());
        assert(s1 =~= p1.push(a));
        assert(s2 =~= p2.push(b));
        // The last entry of each order has the greatest depth, which both orders share.
        assert(a.0 <= b.0) by {
            lemma_at_depth_push(p1, a, a.0);
            if forall|i: int| 0 <= i < s2.len() ==> s2[i].0 != a.0 {
                lemma_at_depth_none(s2, a.0);
                assert(at_depth(s1, a.0).len() > 0);
            }
            let i = choose|i: int| 0 <= i < s2.len() && s2[i].0 == a.0;
            assert(s2[i].0 <= s2[s2.len() - 1].0);
        }
        assert(b.0 <= a.0) by {
            lemma_at_depth_push(p2, b, b.0);
            if forall|i: int| 0 <= i < s1.len() ==> s1[i].0 != b.0 {
                lemma_at_depth_none(s1, b.0);
                assert(at_depth(s2, b.0).len() > 0);
            }
            let i = choose|i: int| 0 <= i < s1.len() && s1[i].0 == b.0;
            assert(s1[i].0 <= s1[s1.len() - 1].0);
        }
        let d = a.0;
        lemma_at_depth_push(p1, a, d);
        lemma_at_depth_push(p2, b, d);
        assert(at_depth(s1, d) == at_depth(pushed, d));
        assert(at_depth(s2, d) == at_depth(pushed, d));
        assert(a == at_depth(s1, d).last());
        assert(b == at_depth(s2, d).last());
        // Without their last entries, both orders draw the same entries in order.
        assert forall|e: i64| #[trigger] at_depth(p1, e) == at_depth(p2, e) by {
            lemma_at_depth_push(p1, a, e);
            lemma_at_depth_push(p2, b, e);
            if e == d {
                assert(at_depth(p1, e) =~= at_depth(s1, e).drop_last());
                assert(at_depth(p2, e) =~= at_depth(s2, e).drop_last());
            }
        }
        assert(draws_in_order(p2, p1)) by {
            assert forall|i: int, j: int| 0 <= i <= j < p1.len() implies p1[i].0 <= p1[j].0 by {
                assert(p1[i] == s1[i] && p1[j] == s1[j]);
            }
            assert forall|i: int, j: int| 0 <= i <= j < p2.len() implies p2[i].0 <= p2[j].0 by {
                assert(p2[i] == s2[i] && p2[j] == s2[j]);
            }
        }
        assert(draws_in_order(p1, p1)) by {
            assert forall|i: int, j: int| 0 <= i <= j < p1.len() implies p1[i].0 <= p1[j].0 by {
                assert(p1[i] == s1[i] && p1[j] == s1[j]);
            }
        }
        law_draw_order_unique(p1, p2, p1);
    }
}

} // verus!
