use vstd::prelude::*;

verus! {

/// The newest `cap` elements of `s`, oldest first (all of `s` when it is no
/// longer than `cap`).
pub open spec fn keep_newest<T>(s: Seq<T>, cap: nat) -> Seq<T> {
    if s.len() <= cap {
        s
    } else {
        s.subrange(s.len() - cap, s.len() as int)
    }
}

/// The contents of a window of capacity `cap` that held `s`, after each of
/// `xs` was inserted in turn.
pub open spec fn inserted_all<T>(s: Seq<T>, cap: nat, xs: Seq<T>) -> Seq<T>
    decreases xs.len(),
{
    if xs.len() == 0 {
        s
    } else {
        keep_newest(inserted_all(s, cap, xs.drop_last()).push(xs.last()), cap)
    }
}

/// A fixed-capacity first-in first-out window: it remembers the `max` most
/// recently inserted items, oldest first.
pub struct LeakyBucket<T> {
    last_n: Vec<T>,
    max: usize,
}

impl<T> View for LeakyBucket<T> {
    type V = Seq<T>;

    closed spec fn view(&self) -> Seq<T> {
        self.last_n@
    }
}

impl<T> LeakyBucket<T> {
    /// The window holds no more than its capacity.
    pub closed spec fn wf(self) -> bool {
        self.last_n.len() <= self.max
    }

    /// The number of items the window can hold.
    pub closed spec fn capacity(self) -> nat {
        self.max as nat
    }

    /// Creates an empty window that holds at most `max` items.
    pub fn new(max: usize) -> (r: Self)
        ensures
            r.wf(),
            r@ == Seq::<T>::empty(),
            r.capacity() == max,
    {
        LeakyBucket { last_n: Vec::with_capacity(max), max }
    }

    /// Appends `now`; when the window is already full, the oldest item is
    /// dropped first. A window of capacity zero keeps nothing.
    pub fn insert(&mut self, now: T)
        requires
            old(self).wf(),
        ensures
            final(self).wf(),
            final(self)@ == keep_newest(old(self)@.push(now), old(self).capacity()),
            final(self).capacity() == old(self).capacity(),
    {
        if self.max == 0 {
            return;
        }
        if self.last_n.len() == self.max {
            self.last_n.remove(0);
        }
        self.last_n.push(now);
        proof {
            assert(self.last_n@ =~= keep_newest(old(self)@.push(now), old(self).capacity()));
        }
    }

    /// The number of items held now (not the capacity).
    pub fn len(&self) -> (r: usize)
        ensures
            r == self@.len(),
    {
        self.last_n.len()
    }

    /// The items held, oldest first.
    pub fn items(&self) -> (r: &Vec<T>)
        ensures
            r@ == self@,
    {
        &self.last_n
    }
}

/// A well-formed window holds no more items than its capacity.
pub proof fn lemma_wf_within_capacity<T>(b: LeakyBucket<T>)
    requires
        b.wf(),
    ensures
        b@.len() <= b.capacity(),
{
}

/// A window never holds more than its capacity, and what it holds after any
/// run of insertions is exactly the newest items of everything inserted, in
/// the order they came: each insertion into a full window evicts the oldest.
pub proof fn lemma_window_keeps_newest<T>(s: Seq<T>, cap: nat, xs: Seq<T>)
    requires
        s.len() <= cap,
    ensures
        inserted_all(s, cap, xs) == keep_newest(s + xs, cap),
        inserted_all(s, cap, xs).len() <= cap,
    decreases xs.len(),
{
    if xs.len() > 0 {
        let prev = xs.drop_last();
        lemma_window_keeps_newest(s, cap, prev);
        let a = keep_newest(s + prev, cap).push(xs.last());
        assert(s + xs =~= (s + prev).push(xs.last()));
        assert(keep_newest(a, cap) =~= keep_newest(s + xs, cap));
    }
}

/// Starting empty, a window of capacity `cap` holds as many items as were
/// inserted until it is full, and from then on exactly `cap`.
pub proof fn lemma_window_fills<T>(cap: nat, xs: Seq<T>)
    ensures
        xs.len() <= cap ==> inserted_all(Seq::<T>::empty(), cap, xs).len() == xs.len(),
        xs.len() >= cap ==> inserted_all(Seq::<T>::empty(), cap, xs).len() == cap,
{
    lemma_window_keeps_newest(Seq::<T>::empty(), cap, xs);
    assert(Seq::<T>::empty() + xs =~= xs);
}

} // verus!
