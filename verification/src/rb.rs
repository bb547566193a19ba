use vstd::prelude::*;
use vstd::pervasive::VecAdditionalExecFns;

verus! {

/// The last `cap` elements of `s`, or all of `s` if it is shorter: what a
/// buffer of capacity `cap` holds after `s` has been pushed through it with
/// overwrite semantics.
pub open spec fn last_up_to<T>(s: Seq<T>, cap: int) -> Seq<T> {
    if s.len() <= cap {
        s
    } else {
        s.skip(s.len() - cap)
    }
}

/// One overwrite step at the level of the model: appending an element to the
/// pushed-through sequence either appends to the kept suffix (room left) or
/// drops its oldest element and appends (suffix already at capacity).
proof fn lemma_last_up_to_push<T>(s: Seq<T>, x: T, cap: int)
    requires
        cap >= 1,
    ensures
        last_up_to(s, cap).len() < cap ==> last_up_to(s.push(x), cap) == last_up_to(
            s,
            cap,
        ).push(x),
        last_up_to(s, cap).len() == cap ==> last_up_to(s.push(x), cap) == last_up_to(
            s,
            cap,
        ).drop_first().push(x),
{
    if s.len() < cap {
        assert(last_up_to(s.push(x), cap) =~= last_up_to(s, cap).push(x));
    } else {
        assert(last_up_to(s.push(x), cap) =~= last_up_to(s, cap).drop_first().push(x));
    }
}

/// The ring buffer core: the occupancy engine (logical cursors and the
/// wrap-around mapping onto physical slots) and the raw transfer primitives
/// built on it.
///
/// Each of the `capacity` physical slots either holds an item or is vacant.
/// The logical cursors `read` and `write` run over `0 .. 2 * capacity`, so
/// that a full buffer (`write` a full turn ahead of `read`) is
/// distinguishable from an empty one (`write == read`); the physical slot of
/// a cursor value `p` is `p mod capacity`.
pub struct SharedRb<T> {
    storage: Vec<Option<T>>,
    read: usize,
    write: usize,
}

impl<T> SharedRb<T> {
    /// Number of slots in the backing storage.
    pub closed spec fn spec_capacity(self) -> int {
        self.storage@.len() as int
    }

    /// Number of occupied slots, derived from the cursors alone: the
    /// distance from `read` forward to `write` around the `2 * capacity`
    /// cursor ring.
    pub closed spec fn spec_occupied(self) -> int {
        if self.write >= self.read {
            self.write - self.read
        } else {
            self.write + 2 * self.spec_capacity() - self.read
        }
    }

    /// Number of vacant slots.
    pub open spec fn spec_vacant(self) -> int {
        self.spec_capacity() - self@.len()
    }

    /// Reduces a logical position in `0 .. 2 * capacity` to its physical slot.
    spec fn wrap(self, p: int) -> int {
        if p < self.spec_capacity() {
            p
        } else {
            p - self.spec_capacity()
        }
    }

    /// Physical slot of the `read` cursor: the slot of the oldest item.
    spec fn read_phys(self) -> int {
        self.wrap(self.read as int)
    }

    /// Physical slot holding the `k`-th occupied item (`k == 0` is oldest).
    spec fn phys(self, k: int) -> int {
        self.wrap(self.read_phys() + k)
    }

    /// The physical slot `i` lies inside the circular occupied range, the
    /// image of the logical range `[read, write)`.
    spec fn slot_occupied(self, i: int) -> bool {
        let rp = self.read_phys();
        let n = self.spec_occupied();
        if rp + n <= self.spec_capacity() {
            rp <= i < rp + n
        } else {
            i >= rp || i < rp + n - self.spec_capacity()
        }
    }

    /// Well-formedness: cursors in range, occupancy never above capacity,
    /// and exactly the slots inside the circular occupied range hold an
    /// item. Every operation preserves this.
    pub closed spec fn inv(self) -> bool {
        &&& 1 <= self.spec_capacity()
        &&& 2 * self.spec_capacity() <= usize::MAX as int
        &&& (self.read as int) < 2 * self.spec_capacity()
        &&& (self.write as int) < 2 * self.spec_capacity()
        &&& self.spec_occupied() <= self.spec_capacity()
        &&& forall|i: int|
            0 <= i < self.spec_capacity() ==> (self.storage@[i] is Some
                <==> self.slot_occupied(i))
    }

    /// The write cursor's slot is the slot just past the occupied items.
    proof fn lemma_write_phys(self)
        requires
            self.inv(),
        ensures
            self.wrap(self.write as int) == self.phys(self.spec_occupied()),
    {
    }

    /// A slot of the form `phys(k)` is inside the occupied range exactly
    /// when `k` indexes an occupied item.
    proof fn lemma_phys_occupied(self, k: int)
        requires
            self.inv(),
            0 <= k < self.spec_capacity(),
        ensures
            self.slot_occupied(self.phys(k)) <==> k < self.spec_occupied(),
    {
    }

    /// Distinct item indices within one turn map to distinct physical slots.
    proof fn lemma_phys_injective(self, k1: int, k2: int)
        requires
            self.inv(),
            0 <= k1 < self.spec_capacity(),
            0 <= k2 < self.spec_capacity(),
            k1 != k2,
        ensures
            self.phys(k1) != self.phys(k2),
    {
    }
}

impl<T> View for SharedRb<T> {
    type V = Seq<T>;

    /// The buffered items, oldest first.
    closed spec fn view(&self) -> Seq<T> {
        Seq::new(self.spec_occupied() as nat, |k: int| self.storage@[self.phys(k)]->0)
    }
}

impl<T> SharedRb<T> {
    /// Creates an empty buffer with the given number of slots.
    pub fn new(capacity: usize) -> (rb: Self)
        requires
            1 <= capacity,
            capacity <= usize::MAX / 2,
        ensures
            rb.inv(),
            rb.spec_capacity() == capacity,
            rb@ == Seq::<T>::empty(),
    {
        let mut storage: Vec<Option<T>> = Vec::new();
        let mut i: usize = 0;
        while i < capacity
            invariant
                i <= capacity,
                storage@.len() == i,
                forall|j: int| 0 <= j < i ==> storage@[j] is None,
            decreases capacity - i,
        {
            storage.push(None);
            i += 1;
        }
        let rb = SharedRb { storage, read: 0, write: 0 };
        proof {
            assert(rb@ =~= Seq::<T>::empty());
        }
        rb
    }

    /// Number of slots.
    pub fn capacity(&self) -> (c: usize)
        ensures
            c == self.spec_capacity(),
    {
        self.storage.len()
    }

    /// Number of items currently buffered.
    pub fn occupied_len(&self) -> (n: usize)
        requires
            self.inv(),
        ensures
            n == self@.len(),
    {
        let cap = self.storage.len();
        if self.write >= self.read {
            self.write - self.read
        } else {
            self.write + (2 * cap - self.read)
        }
    }

    /// Number of items that can still be pushed.
    pub fn vacant_len(&self) -> (n: usize)
        requires
            self.inv(),
        ensures
            n == self.spec_vacant(),
    {
        let cap = self.storage.len();
        cap - self.occupied_len()
    }

    /// No item is buffered.
    pub fn is_empty(&self) -> (r: bool)
        requires
            self.inv(),
        ensures
            r == (self@.len() == 0),
    {
        self.occupied_len() == 0
    }

    /// Every slot is occupied.
    pub fn is_full(&self) -> (r: bool)
        requires
            self.inv(),
        ensures
            r == (self@.len() == self.spec_capacity()),
    {
        let cap = self.storage.len();
        self.occupied_len() == cap
    }

    /// Appends `item` at the write cursor if a slot is vacant; a full
    /// buffer rejects the push and hands the item back.
    pub fn try_push(&mut self, item: T) -> (r: Result<(), T>)
        requires
            old(self).inv(),
        ensures
            final(self).inv(),
            final(self).spec_capacity() == old(self).spec_capacity(),
            old(self)@.len() < old(self).spec_capacity() ==> r is Ok
                && final(self)@ == old(self)@.push(item),
            old(self)@.len() == old(self).spec_capacity() ==> r == Err::<(), T>(item)
                && final(self)@ == old(self)@,
    {
        let cap = self.storage.len();
        let n = self.occupied_len();
        if n == cap {
            return Err(item);
        }
        let wp = if self.write < cap {
            self.write
        } else {
            self.write - cap
        };
        proof {
            self.lemma_write_phys();
            assert forall|k: int| 0 <= k < self.spec_occupied() implies self.phys(k) != wp by {
                self.lemma_phys_injective(k, self.spec_occupied());
            }
        }
        self.storage.set(wp, Some(item));
        self.write = if self.write + 1 < 2 * cap {
            self.write + 1
        } else {
            0
        };
        proof {
            let prev = *old(self);
            assert(self.spec_occupied() == prev.spec_occupied() + 1);
            assert forall|i: int|
                0 <= i < self.spec_capacity() implies (self.storage@[i] is Some
                    <==> self.slot_occupied(i)) by {
                if i == wp {
                    assert(self.storage@[i] is Some);
                    assert(self.slot_occupied(i));
                } else {
                    assert(self.storage@[i] == prev.storage@[i]);
                    assert(self.slot_occupied(i) <==> prev.slot_occupied(i));
                }
            }
            assert(self@ =~= prev@.push(item));
        }
        Ok(())
    }

    /// Removes and returns the oldest item; an empty buffer returns `None`.
    pub fn try_pop(&mut self) -> (r: Option<T>)
        requires
            old(self).inv(),
        ensures
            final(self).inv(),
            final(self).spec_capacity() == old(self).spec_capacity(),
            old(self)@.len() == 0 ==> r is None && final(self)@ == old(self)@,
            old(self)@.len() > 0 ==> r == Some(old(self)@[0])
                && final(self)@ == old(self)@.drop_first(),
    {
        let cap = self.storage.len();
        let n = self.occupied_len();
        if n == 0 {
            return None;
        }
        let rp = if self.read < cap {
            self.read
        } else {
            self.read - cap
        };
        proof {
            self.lemma_phys_occupied(0);
            assert forall|k: int| 1 <= k < self.spec_occupied() implies self.phys(k) != rp by {
                self.lemma_phys_injective(k, 0);
            }
        }
        let mut taken: Option<T> = None;
        self.storage.set_and_swap(rp, &mut taken);
        self.read = if self.read + 1 < 2 * cap {
            self.read + 1
        } else {
            0
        };
        proof {
            let prev = *old(self);
            assert(self.spec_occupied() == prev.spec_occupied() - 1);
            assert(self.read_phys() == prev.wrap(prev.read_phys() + 1));
            assert forall|k: int| 0 <= k < self.spec_occupied() implies self.phys(k)
                == prev.phys(k + 1) by {}
            assert forall|i: int|
                0 <= i < self.spec_capacity() implies (self.storage@[i] is Some
                    <==> self.slot_occupied(i)) by {
                if i == rp {
                    assert(self.storage@[i] is None);
                    assert(!self.slot_occupied(i));
                } else {
                    assert(self.storage@[i] == prev.storage@[i]);
                    assert(self.slot_occupied(i) <==> prev.slot_occupied(i));
                }
            }
            assert(self@ =~= prev@.drop_first());
        }
        taken
    }

    /// Appends items copied from the front of `elems` until the buffer is
    /// full or the slice is exhausted; returns how many were moved. An item
    /// is never partially copied.
    pub fn push_slice(&mut self, elems: &[T]) -> (n: usize) where T: Copy
        requires
            old(self).inv(),
        ensures
            final(self).inv(),
            final(self).spec_capacity() == old(self).spec_capacity(),
            n as int == vstd::math::min(elems@.len() as int, old(self).spec_vacant()),
            final(self)@ == old(self)@ + elems@.take(n as int),
    {
        let vac = self.vacant_len();
        let n = if elems.len() < vac {
            elems.len()
        } else {
            vac
        };
        let mut i: usize = 0;
        while i < n
            invariant
                self.inv(),
                self.spec_capacity() == old(self).spec_capacity(),
                n <= elems@.len(),
                n as int <= old(self).spec_vacant(),
                i <= n,
                self@ == old(self)@ + elems@.take(i as int),
            decreases n - i,
        {
            let r = self.try_push(elems[i]);
            proof {
                assert(r is Ok);
                assert(self@ =~= old(self)@ + elems@.take(i + 1));
            }
            i += 1;
        }
        n
    }

    /// Moves items into the front of `elems` until it is filled or the
    /// buffer drains; returns how many were moved. The rest of `elems` is
    /// left as it was.
    pub fn pop_slice(&mut self, elems: &mut [T]) -> (n: usize) where T: Copy
        requires
            old(self).inv(),
        ensures
            final(self).inv(),
            final(self).spec_capacity() == old(self).spec_capacity(),
            n as int == vstd::math::min(old(elems)@.len() as int, old(self)@.len() as int),
            final(self)@ == old(self)@.skip(n as int),
            final(elems)@ == old(self)@.take(n as int) + old(elems)@.skip(n as int),
    {
        let occ = self.occupied_len();
        let n = if elems.len() < occ {
            elems.len()
        } else {
            occ
        };
        let mut i: usize = 0;
        while i < n
            invariant
                self.inv(),
                self.spec_capacity() == old(self).spec_capacity(),
                n <= old(elems)@.len(),
                n as int <= old(self)@.len(),
                i <= n,
                elems@.len() == old(elems)@.len(),
                self@ == old(self)@.skip(i as int),
                elems@ == old(self)@.take(i as int) + old(elems)@.skip(i as int),
            decreases n - i,
        {
            let v = self.try_pop();
            match v {
                Some(x) => {
                    elems[i] = x;
                    proof {
                        assert(self@ =~= old(self)@.skip(i + 1));
                        assert(elems@ =~= old(self)@.take(i + 1) + old(elems)@.skip(i + 1));
                    }
                },
                None => {
                    proof {
                        assert(false);
                    }
                },
            }
            i += 1;
        }
        n
    }

    /// Moves items from the front of `items` into the buffer, one at a
    /// time, until the buffer is full or `items` is exhausted; returns how
    /// many were moved. The items not moved stay in `items`.
    pub fn push_iter(&mut self, items: &mut Vec<T>) -> (n: usize)
        requires
            old(self).inv(),
        ensures
            final(self).inv(),
            final(self).spec_capacity() == old(self).spec_capacity(),
            n as int == vstd::math::min(old(items)@.len() as int, old(self).spec_vacant()),
            final(self)@ == old(self)@ + old(items)@.take(n as int),
            final(items)@ == old(items)@.skip(n as int),
    {
        let vac = self.vacant_len();
        let n = if items.len() < vac {
            items.len()
        } else {
            vac
        };
        let mut i: usize = 0;
        while i < n
            invariant
                self.inv(),
                self.spec_capacity() == old(self).spec_capacity(),
                n <= old(items)@.len(),
                n as int <= old(self).spec_vacant(),
                i <= n,
                items@ == old(items)@.skip(i as int),
                self@ == old(self)@ + old(items)@.take(i as int),
            decreases n - i,
        {
            let x = items.remove(0);
            let r = self.try_push(x);
            proof {
                assert(r is Ok);
                assert(items@ =~= old(items)@.skip(i + 1));
                assert(self@ =~= old(self)@ + old(items)@.take(i + 1));
            }
            i += 1;
        }
        n
    }

    /// Drains the buffer, returning every buffered item, oldest first.
    pub fn pop_iter(&mut self) -> (items: Vec<T>)
        requires
            old(self).inv(),
        ensures
            final(self).inv(),
            final(self).spec_capacity() == old(self).spec_capacity(),
            items@ == old(self)@,
            final(self)@.len() == 0,
    {
        let n = self.occupied_len();
        let mut items: Vec<T> = Vec::new();
        let mut i: usize = 0;
        while i < n
            invariant
                self.inv(),
                self.spec_capacity() == old(self).spec_capacity(),
                n as int == old(self)@.len(),
                i <= n,
                self@ == old(self)@.skip(i as int),
                items@ == old(self)@.take(i as int),
            decreases n - i,
        {
            let v = self.try_pop();
            match v {
                Some(x) => {
                    items.push(x);
                    proof {
                        assert(self@ =~= old(self)@.skip(i + 1));
                        assert(items@ =~= old(self)@.take(i + 1));
                    }
                },
                None => {
                    proof {
                        assert(false);
                    }
                },
            }
            i += 1;
        }
        proof {
            assert(items@ =~= old(self)@);
        }
        items
    }

    /// Pushes `item` even into a full buffer, by first evicting the oldest
    /// item; the evicted item is returned, `None` when there was room.
    pub fn push_overwrite(&mut self, item: T) -> (evicted: Option<T>)
        requires
            old(self).inv(),
        ensures
            final(self).inv(),
            final(self).spec_capacity() == old(self).spec_capacity(),
            old(self)@.len() < old(self).spec_capacity() ==> evicted is None
                && final(self)@ == old(self)@.push(item),
            old(self)@.len() == old(self).spec_capacity() ==> evicted == Some(old(self)@[0])
                && final(self)@ == old(self)@.drop_first().push(item),
    {
        let evicted = if self.is_full() {
            self.try_pop()
        } else {
            None
        };
        let r = self.try_push(item);
        proof {
            assert(r is Ok);
        }
        evicted
    }

    /// Pushes every element of `items` with overwrite semantics: once the
    /// buffer is full each further push evicts the oldest item, so the
    /// buffer ends up holding the last `capacity` elements of the old
    /// contents followed by `items`, in order.
    pub fn push_iter_overwrite(&mut self, items: Vec<T>)
        requires
            old(self).inv(),
        ensures
            final(self).inv(),
            final(self).spec_capacity() == old(self).spec_capacity(),
            final(self)@ == last_up_to(old(self)@ + items@, old(self).spec_capacity()),
    {
        let mut items = items;
        let ghost items0 = items@;
        let n = items.len();
        let mut i: usize = 0;
        while i < n
            invariant
                self.inv(),
                self.spec_capacity() == old(self).spec_capacity(),
                n == items0.len(),
                i <= n,
                items@ == items0.skip(i as int),
                self@ == last_up_to(old(self)@ + items0.take(i as int), old(self).spec_capacity()),
            decreases n - i,
        {
            let x = items.remove(0);
            self.push_overwrite(x);
            proof {
                lemma_last_up_to_push(
                    old(self)@ + items0.take(i as int),
                    items0[i as int],
                    old(self).spec_capacity(),
                );
                assert(items@ =~= items0.skip(i + 1));
                assert(old(self)@ + items0.take(i + 1) =~= (old(self)@ + items0.take(
                    i as int,
                )).push(items0[i as int]));
            }
            i += 1;
        }
        proof {
            assert(items0.take(n as int) =~= items0);
        }
    }

    /// Pushes every element of `elems` with overwrite semantics, copying
    /// from the slice; the buffer ends up holding the last `capacity`
    /// elements of the old contents followed by `elems`, in order.
    pub fn push_slice_overwrite(&mut self, elems: &[T]) where T: Copy
        requires
            old(self).inv(),
        ensures
            final(self).inv(),
            final(self).spec_capacity() == old(self).spec_capacity(),
            final(self)@ == last_up_to(old(self)@ + elems@, old(self).spec_capacity()),
    {
        let n = elems.len();
        let mut i: usize = 0;
        while i < n
            invariant
                self.inv(),
                self.spec_capacity() == old(self).spec_capacity(),
                n == elems@.len(),
                i <= n,
                self@ == last_up_to(old(self)@ + elems@.take(i as int), old(self).spec_capacity()),
            decreases n - i,
        {
            self.push_overwrite(elems[i]);
            proof {
                lemma_last_up_to_push(old(self)@ + elems@.take(i as int), elems@[i as int], old(self).spec_capacity());
                assert(old(self)@ + elems@.take(i + 1) =~= (old(self)@ + elems@.take(i as int)).push(elems@[i as int]));
            }
            i += 1;
        }
        proof {
            assert(elems@.take(n as int) =~= elems@);
        }
    }

    /// Removes every buffered item, leaving the buffer empty.
    pub fn clear(&mut self)
        requires
            old(self).inv(),
        ensures
            final(self).inv(),
            final(self).spec_capacity() == old(self).spec_capacity(),
            final(self)@ == Seq::<T>::empty(),
    {
        let n = self.occupied_len();
        let mut i: usize = 0;
        while i < n
            invariant
                self.inv(),
                self.spec_capacity() == old(self).spec_capacity(),
                n as int == old(self)@.len(),
                i <= n,
                self@ == old(self)@.skip(i as int),
            decreases n - i,
        {
            let v = self.try_pop();
            proof {
                assert(self@ =~= old(self)@.skip(i + 1));
            }
            i += 1;
        }
        proof {
            assert(self@ =~= Seq::<T>::empty());
        }
    }

    /// Physical slot of the `k`-th logical position past the `read` cursor.
    /// Position `0` is the oldest occupied slot; positions past the occupied
    /// count are the vacant slots in the order the write cursor will fill
    /// them.
    pub closed spec fn spec_slot(self, k: int) -> int {
        self.phys(k)
    }

    /// Maps the logical sub-range starting `offset` positions past the
    /// `read` cursor and `count` positions long onto physical storage: a
    /// first contiguous range, plus a second one starting at slot `0` when
    /// the sub-range crosses the wrap boundary. Each range is a half-open
    /// `(start, end)` pair of slot indices.
    pub fn slice_mapping(&self, offset: usize, count: usize) -> (r: ((usize, usize), (
        usize,
        usize,
    )))
        requires
            self.inv(),
            offset + count <= self.spec_capacity(),
        ensures
            r.0.0 as int == self.spec_slot(offset as int) || count == 0,
            r.0.0 <= r.0.1,
            r.0.1 as int <= self.spec_capacity(),
            r.1.0 == 0,
            r.1.1 as int <= r.0.0 as int,
            (r.0.1 - r.0.0) + (r.1.1 - r.1.0) == count,
            forall|k: int|
                0 <= k < r.0.1 - r.0.0 ==> #[trigger] self.spec_slot(offset + k) == r.0.0 + k,
            forall|k: int|
                r.0.1 - r.0.0 <= k < count ==> #[trigger] self.spec_slot(offset + k) == k - (
                r.0.1 - r.0.0),
    {
        let cap = self.storage.len();
        let rp = if self.read < cap {
            self.read
        } else {
            self.read - cap
        };
        let p = rp + offset;
        let sp = if p < cap {
            p
        } else {
            p - cap
        };
        let first = if count < cap - sp {
            count
        } else {
            cap - sp
        };
        ((sp, sp + first), (0, count - first))
    }

    /// Current read cursor: the logical position of the oldest item, on the
    /// `0 .. 2 * capacity` cursor ring.
    pub fn read_end(&self) -> (r: usize)
        ensures
            r as int == self.spec_read_end(),
    {
        self.read
    }

    /// Current write cursor: the logical position the next push fills.
    pub fn write_end(&self) -> (r: usize)
        ensures
            r as int == self.spec_write_end(),
    {
        self.write
    }

    /// The read cursor as a mathematical value.
    pub closed spec fn spec_read_end(self) -> int {
        self.read as int
    }

    /// The write cursor as a mathematical value.
    pub closed spec fn spec_write_end(self) -> int {
        self.write as int
    }

    /// Occupancy law: whatever interleaving of pushes and pops produced the
    /// current cursors, the occupied and vacant counts split the capacity
    /// exactly, and the occupied count never goes negative or above the
    /// capacity.
    pub proof fn lemma_occupancy(self)
        requires
            self.inv(),
        ensures
            self@.len() + self.spec_vacant() == self.spec_capacity(),
            0 <= self@.len() <= self.spec_capacity(),
            self.spec_capacity() >= 1,
    {
    }

    /// Round-trip law: every push primitive appends to the model sequence
    /// and every pop primitive takes from its front, so pushing `xs` into
    /// an empty buffer leaves exactly `xs`, and the `k`-th following pop
    /// yields `xs[k]`: popping from a buffer holding `xs.skip(k)` yields
    /// element `k` of `xs` and leaves `xs.skip(k + 1)`, until the buffer
    /// is drained.
    pub proof fn lemma_round_trip(xs: Seq<T>, k: int)
        requires
            0 <= k < xs.len(),
        ensures
            Seq::<T>::empty() + xs.take(xs.len() as int) == xs,
            xs.skip(k)[0] == xs[k],
            xs.skip(k).drop_first() == xs.skip(k + 1),
            xs.skip(xs.len() as int) == Seq::<T>::empty(),
    {
        assert(Seq::<T>::empty() + xs.take(xs.len() as int) =~= xs);
        assert(xs.skip(k).drop_first() =~= xs.skip(k + 1));
        assert(xs.skip(xs.len() as int) =~= Seq::<T>::empty());
    }
}

} // verus!
