//! A set that keeps its items in the order in which they first arrived.

use vstd::prelude::*;

verus! {

/// What each item of a sequence stands for.
pub open spec fn views<T: View>(items: Seq<T>) -> Seq<T::V> {
    items.map_values(|item: T| item@)
}

/// What `kept` becomes when the values of `more` arrive one by one and each
/// is added at the end unless it is there already.
pub open spec fn absorb<A>(kept: Seq<A>, more: Seq<A>) -> Seq<A>
    decreases more.len(),
{
    if more.len() == 0 {
        kept
    } else {
        let before = absorb(kept, more.drop_last());
        if before.contains(more.last()) {
            before
        } else {
            before.push(more.last())
        }
    }
}

/// The values of `all` in the order of their first occurrence, each once.
pub open spec fn first_occurrences<A>(all: Seq<A>) -> Seq<A> {
    absorb(Seq::<A>::empty(), all)
}

/// Absorbing adds no value twice, and holds what was kept and what arrived.
pub proof fn lemma_absorb<A>(kept: Seq<A>, more: Seq<A>)
    requires
        kept.no_duplicates(),
    ensures
        absorb(kept, more).no_duplicates(),
        absorb(kept, more).to_set() == kept.to_set().union(more.to_set()),
        kept.is_prefix_of(absorb(kept, more)),
    decreases more.len(),
{
    if more.len() == 0 {
        assert(more.to_set() =~= Set::<A>::empty());
        assert(absorb(kept, more).to_set() =~= kept.to_set().union(more.to_set()));
    } else {
        let front = more.drop_last();
        let before = absorb(kept, front);
        lemma_absorb(kept, front);
        assert(more =~= front.push(more.last()));
        front.lemma_push_to_set_commute(more.last());
        if before.contains(more.last()) {
            assert(before.to_set().contains(more.last()));
            assert(before.to_set() =~= kept.to_set().union(more.to_set()));
        } else {
            before.lemma_push_to_set_commute(more.last());
            assert(before.push(more.last()).to_set() =~= kept.to_set().union(more.to_set()));
        }
    }
}

/// Absorbing two runs in turn is absorbing them as one.
pub proof fn lemma_absorb_concat<A>(kept: Seq<A>, first: Seq<A>, second: Seq<A>)
    ensures
        absorb(kept, first + second) == absorb(absorb(kept, first), second),
    decreases second.len(),
{
    if second.len() == 0 {
        assert(first + second =~= first);
    } else {
        lemma_absorb_concat(kept, first, second.drop_last());
        assert((first + second).drop_last() =~= first + second.drop_last());
        assert((first + second).last() == second.last());
    }
}

/// Every value occurs exactly once among the first occurrences, and nothing else does.
pub proof fn lemma_first_occurrences<A>(all: Seq<A>)
    ensures
        first_occurrences(all).no_duplicates(),
        first_occurrences(all).to_set() == all.to_set(),
{
    lemma_absorb(Seq::<A>::empty(), all);
    assert(Seq::<A>::empty().to_set().union(all.to_set()) =~= all.to_set());
}

/// A value occurs in the concatenation of some runs exactly when it occurs in
/// one of them.
pub proof fn lemma_flatten_contains<A>(parts: Seq<Seq<A>>, value: A)
    ensures
        parts.flatten().contains(value) <==> exists|i: int, j: int|
            0 <= i < parts.len() && 0 <= j < parts[i].len() && #[trigger] parts[i][j] == value,
    decreases parts.len(),
{
    if parts.len() == 0 {
        assert(parts.flatten() =~= Seq::<A>::empty());
    } else {
        let front = parts.drop_last();
        let tail = parts.last();
        lemma_flatten_contains(front, value);
        assert(parts =~= front.push(tail));
        front.lemma_flatten_push(tail);
        let whole = parts.flatten();
        assert(whole =~= front.flatten() + tail);
        if whole.contains(value) {
            let k = choose|k: int| 0 <= k < whole.len() && whole[k] == value;
            if k < front.flatten().len() {
                assert(front.flatten()[k] == value);
                let (i, j) = choose|i: int, j: int|
                    0 <= i < front.len() && 0 <= j < front[i].len() && #[trigger] front[i][j]
                        == value;
                assert(parts[i][j] == value);
            } else {
                assert(parts[parts.len() - 1][k - front.flatten().len()] == value);
            }
        }
        if exists|i: int, j: int|
            0 <= i < parts.len() && 0 <= j < parts[i].len() && #[trigger] parts[i][j] == value {
            let (i, j) = choose|i: int, j: int|
                0 <= i < parts.len() && 0 <= j < parts[i].len() && #[trigger] parts[i][j] == value;
            if i < front.len() {
                assert(front[i][j] == value);
                let k = choose|k: int| 0 <= k < front.flatten().len() && front.flatten()[k] == value;
                assert(whole[k] == value);
            } else {
                assert(whole[front.flatten().len() + j] == value);
            }
        }
    }
}

/// An item that can be told apart from another by what it stands for.
pub trait Record: View + Sized {
    /// Whether the two items stand for the same value.
    fn same(&self, other: &Self) -> (same: bool)
        ensures
            same == (self@ == other@),
    ;

    /// Another item that stands for the same value.
    fn duplicate(&self) -> (copy: Self)
        ensures
            copy@ == self@,
    ;
}

/// A set of records. Two records are one item when their views are equal; the
/// first to arrive stays, and keeps its place.
#[derive(Debug, Clone)]
pub struct DedupSet<T: Record> {
    items: Vec<T>,
}

impl<T: Record> View for DedupSet<T> {
    type V = Set<T::V>;

    /// The values that the set holds.
    open spec fn view(&self) -> Set<T::V> {
        self.order().to_set()
    }
}

impl<T: Record> DedupSet<T> {
    /// The values that the set holds, in the order of their first arrival.
    pub closed spec fn order(&self) -> Seq<T::V> {
        views(self.items@)
    }

    /// No value is held twice.
    pub open spec fn wf(&self) -> bool {
        self.order().no_duplicates()
    }

    /// The empty set.
    pub fn new() -> (set: Self)
        ensures
            set.wf(),
            set.order() == Seq::<T::V>::empty(),
            set@ == Set::<T::V>::empty(),
    {
        let set = DedupSet { items: Vec::new() };
        assert(set.order() =~= Seq::<T::V>::empty());
        assert(set@ =~= Set::<T::V>::empty());
        set
    }

    /// The number of values held.
    pub fn len(&self) -> (n: usize)
        requires
            self.wf(),
        ensures
            n == self.order().len(),
            n == self@.len(),
    {
        proof {
            self.order().unique_seq_to_set();
        }
        self.items.len()
    }

    /// Whether the set holds the value of `item`.
    pub fn contains(&self, item: &T) -> (found: bool)
        ensures
            found == self@.contains(item@),
    {
        let mut i: usize = 0;
        while i < self.items.len()
            invariant
                i <= self.items.len(),
                forall|j: int| 0 <= j < i ==> self.order()[j] != item@,
            decreases self.items.len() - i,
        {
            if self.items[i].same(item) {
                assert(self.order()[i as int] == item@);
                return true;
            }
            i += 1;
        }
        false
    }

    /// Adds `item` unless its value is held already, and says whether it was added.
    pub fn insert(&mut self, item: T) -> (added: bool)
        requires
            old(self).wf(),
        ensures
            final(self).wf(),
            added == !old(self)@.contains(item@),
            final(self)@ == old(self)@.insert(item@),
            final(self).order() == if added {
                old(self).order().push(item@)
            } else {
                old(self).order()
            },
    {
        if self.contains(&item) {
            assert(self@.insert(item@) =~= self@);
            false
        } else {
            let ghost before = self.order();
            self.items.push(item);
            proof {
                assert(self.order() =~= before.push(item@));
                before.lemma_push_to_set_commute(item@);
            }
            true
        }
    }

    /// Adds a copy of each of `items` in turn, unless its value is held already.
    pub fn extend(&mut self, items: &Vec<T>)
        requires
            old(self).wf(),
        ensures
            final(self).wf(),
            final(self).order() == absorb(old(self).order(), views(items@)),
            final(self)@ == old(self)@.union(views(items@).to_set()),
    {
        let ghost start = self.order();
        let mut i: usize = 0;
        while i < items.len()
            invariant
                i <= items.len(),
                self.wf(),
                self.order() == absorb(start, views(items@).take(i as int)),
            decreases items.len() - i,
        {
            let ghost taken = views(items@).take(i as int);
            proof {
                assert(views(items@).take(i as int + 1).drop_last() =~= taken);
                assert(views(items@).take(i as int + 1).last() == items@[i as int]@);
            }
            self.insert(items[i].duplicate());
            i += 1;
        }
        proof {
            assert(views(items@).take(items.len() as int) =~= views(items@));
            lemma_absorb(start, views(items@));
        }
    }

    /// The items, in the order of their first arrival.
    pub fn items(&self) -> (items: &Vec<T>)
        ensures
            views(items@) == self.order(),
    {
        &self.items
    }

    /// Gives the items up, in the order of their first arrival.
    pub fn into_vec(self) -> (items: Vec<T>)
        ensures
            views(items@) == self.order(),
    {
        self.items
    }
}

} // verus!
