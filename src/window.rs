//! A bounded first-in first-out window kept in a ring buffer.
//!
//! The window holds at most `capacity` items. Once it is full, each new item
//! overwrites the oldest one in place, so the storage is allocated while the
//! window fills and never again afterwards.
use vstd::prelude::*;

verus! {

/// What a window of the given capacity holds after `x` arrives when it held `s`:
/// `x` is appended, and the oldest item leaves if the window was already full.
pub open spec fn pushed<T>(s: Seq<T>, capacity: nat, x: T) -> Seq<T> {
    if s.len() < capacity {
        s.push(x)
    } else {
        s.drop_first().push(x)
    }
}

/// What a window holds after each item of `xs` arrived in turn, starting from `s`.
pub open spec fn pushed_all<T>(s: Seq<T>, capacity: nat, xs: Seq<T>) -> Seq<T>
    decreases xs.len(),
{
    if xs.len() == 0 {
        s
    } else {
        pushed(pushed_all(s, capacity, xs.drop_last()), capacity, xs.last())
    }
}

/// The last `n` items of `xs`, or all of them where there are fewer.
pub open spec fn last_n<T>(xs: Seq<T>, n: nat) -> Seq<T> {
    if xs.len() <= n {
        xs
    } else {
        xs.subrange(xs.len() - n, xs.len() as int)
    }
}

/// Feeding the items of `xs` one by one into an empty window of capacity
/// `capacity` leaves exactly the last `capacity` of them in it, oldest first
/// (all of them where there are fewer); the window is full exactly when at
/// least `capacity` items were fed, so a shorter feed never fills it.
pub proof fn lemma_feed_keeps_last<T>(capacity: nat, xs: Seq<T>)
    requires
        capacity > 0,
    ensures
        pushed_all(Seq::<T>::empty(), capacity, xs) == last_n(xs, capacity),
        (pushed_all(Seq::<T>::empty(), capacity, xs).len() == capacity) == (xs.len() >= capacity),
    decreases xs.len(),
{
    if xs.len() > 0 {
        let init = xs.drop_last();
        lemma_feed_keeps_last(capacity, init);
        assert(pushed(last_n(init, capacity), capacity, xs.last()) =~= last_n(xs, capacity));
    } else {
        assert(last_n(xs, capacity) =~= Seq::<T>::empty());
    }
}

/// A window of the most recent items, oldest first.
pub struct Window<T> {
    /// Storage; its length grows up to `capacity` and then stays there.
    slots: Vec<T>,
    /// Index of the oldest item once the storage is full; 0 before.
    head: usize,
    capacity: usize,
}

impl<T> View for Window<T> {
    type V = Seq<T>;

    /// The items in the window, oldest first.
    closed spec fn view(&self) -> Seq<T> {
        self.slots@.subrange(self.head as int, self.slots@.len() as int) + self.slots@.subrange(
            0,
            self.head as int,
        )
    }
}

impl<T> Window<T> {
    pub closed spec fn spec_capacity(&self) -> nat {
        self.capacity as nat
    }

    /// The window's internal invariant.
    pub closed spec fn wf(&self) -> bool {
        &&& self.capacity > 0
        &&& self.slots@.len() <= self.capacity
        &&& self.head < self.capacity
        &&& (self.slots@.len() < self.capacity ==> self.head == 0)
    }

    proof fn lemma_len(&self)
        requires
            self.wf(),
        ensures
            self@.len() == self.slots@.len(),
            self@.len() <= self.spec_capacity(),
            self.spec_capacity() > 0,
    {
    }

    /// An empty window that keeps the `capacity` most recent items.
    pub fn new(capacity: usize) -> (w: Self)
        requires
            capacity > 0,
        ensures
            w.wf(),
            w@ == Seq::<T>::empty(),
            w.spec_capacity() == capacity,
    {
        let w = Window { slots: Vec::new(), head: 0, capacity };
        assert(w@ =~= Seq::<T>::empty());
        w
    }

    /// The most items the window holds.
    pub fn capacity(&self) -> (r: usize)
        requires
            self.wf(),
        ensures
            r == self.spec_capacity(),
            r > 0,
    {
        self.capacity
    }

    /// How many items the window holds.
    pub fn len(&self) -> (r: usize)
        requires
            self.wf(),
        ensures
            r == self@.len(),
    {
        proof {
            self.lemma_len();
        }
        self.slots.len()
    }

    /// Whether the window holds no item.
    pub fn is_empty(&self) -> (r: bool)
        requires
            self.wf(),
        ensures
            r == (self@.len() == 0),
    {
        proof {
            self.lemma_len();
        }
        self.slots.len() == 0
    }

    /// Whether the window holds as many items as its capacity.
    pub fn is_full(&self) -> (r: bool)
        requires
            self.wf(),
        ensures
            r == (self@.len() == self.spec_capacity()),
    {
        proof {
            self.lemma_len();
        }
        self.slots.len() == self.capacity
    }

    /// The item at position `i`, counting from the oldest.
    pub fn get(&self, i: usize) -> (r: &T)
        requires
            self.wf(),
            i < self@.len(),
        ensures
            *r == self@[i as int],
    {
        proof {
            self.lemma_len();
        }
        let n = self.slots.len();
        let k: usize = if i < n - self.head {
            self.head + i
        } else {
            i - (n - self.head)
        };
        &self.slots[k]
    }

    /// Adds `x` as the newest item. Where the window was full, the oldest item
    /// leaves it and is returned.
    pub fn push(&mut self, x: T) -> (evicted: Option<T>)
        requires
            old(self).wf(),
        ensures
            final(self).wf(),
            final(self).spec_capacity() == old(self).spec_capacity(),
            final(self)@ == pushed(old(self)@, old(self).spec_capacity(), x),
            old(self)@.len() < old(self).spec_capacity() ==> evicted == None::<T>,
            old(self)@.len() == old(self).spec_capacity() ==> evicted == Some(old(self)@[0]),
    {
        proof {
            self.lemma_len();
        }
        let ghost before = self@;
        if self.slots.len() < self.capacity {
            self.slots.push(x);
            assert(self@ =~= before.push(x));
            None
        } else {
            let h = self.head;
            let mut x = x;
            std::mem::swap(&mut self.slots[h], &mut x);
            self.head = if h + 1 == self.capacity {
                0
            } else {
                h + 1
            };
            assert(self@ =~= before.drop_first().push(self.slots@[h as int]));
            Some(x)
        }
    }
}

impl<T: Copy> Window<T> {
    /// The items in the window, oldest first.
    pub fn to_vec(&self) -> (r: Vec<T>)
        requires
            self.wf(),
        ensures
            r@ == self@,
    {
        proof {
            self.lemma_len();
        }
        let n = self.slots.len();
        let mut r: Vec<T> = Vec::with_capacity(n);
        let mut i: usize = self.head;
        while i < n
            invariant
                self.wf(),
                n == self.slots@.len(),
                self.head <= i <= n,
                r@ == self.slots@.subrange(self.head as int, i as int),
            decreases n - i,
        {
            r.push(self.slots[i]);
            i += 1;
            assert(r@ =~= self.slots@.subrange(self.head as int, i as int));
        }
        let mut j: usize = 0;
        while j < self.head
            invariant
                self.wf(),
                n == self.slots@.len(),
                j <= self.head,
                r@ == self.slots@.subrange(self.head as int, n as int) + self.slots@.subrange(
                    0,
                    j as int,
                ),
            decreases self.head - j,
        {
            r.push(self.slots[j]);
            j += 1;
            assert(r@ =~= self.slots@.subrange(self.head as int, n as int) + self.slots@.subrange(
                0,
                j as int,
            ));
        }
        r
    }
}

} // verus!
