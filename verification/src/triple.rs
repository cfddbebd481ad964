//! The three-column instantiation of the structure-of-arrays container.

use vstd::prelude::*;
use crate::col_swap;
use crate::grown_capacity;
use crate::RefsTuple;
use crate::RemoveError;
use crate::SaoTuple;
use crate::SaoVec;

verus! {

impl<T0, T1, T2> SaoTuple for (T0, T1, T2) {
    type Columns = (Vec<T0>, Vec<T1>, Vec<T2>);
}

impl<'a, T0, T1, T2> RefsTuple<'a> for (&'a T0, &'a T1, &'a T2) {

}

impl<T0, T1, T2> SaoVec<(T0, T1, T2)> {
    /// The rows held, as a sequence of tuples: row `i` groups the `i`-th
    /// element of every column.
    pub closed spec fn rows(&self) -> Seq<(T0, T1, T2)> {
        Seq::new(
            self.cols.0@.len(),
            |i: int| (self.cols.0@[i], self.cols.1@[i], self.cols.2@[i]),
        )
    }

    /// Every column holds the same number of live elements, and no more
    /// than the shared capacity.
    pub closed spec fn wf(&self) -> bool {
        self.cols.0@.len() == self.cols.1@.len() && self.cols.0@.len() == self.cols.2@.len()
            && self.cols.0@.len() <= self.capacity
    }

    /// An empty container; nothing is allocated.
    pub fn new() -> (r: SaoVec<(T0, T1, T2)>)
        ensures
            r.wf(),
            r.rows() == Seq::<(T0, T1, T2)>::empty(),
            r.spec_capacity() == 0,
    {
        let r: SaoVec<(T0, T1, T2)> = SaoVec { cols: (Vec::new(), Vec::new(), Vec::new()), capacity: 0 };
        proof {
            assert(r.rows() =~= Seq::<(T0, T1, T2)>::empty());
        }
        r
    }

    /// An empty container whose columns each have room for `capacity` rows.
    pub fn with_capacity(capacity: usize) -> (r: SaoVec<(T0, T1, T2)>)
        ensures
            r.wf(),
            r.rows() == Seq::<(T0, T1, T2)>::empty(),
            r.spec_capacity() == capacity,
    {
        let r: SaoVec<(T0, T1, T2)> = SaoVec {
            cols: (
                Vec::with_capacity(capacity),
                Vec::with_capacity(capacity),
                Vec::with_capacity(capacity),
            ),
            capacity,
        };
        proof {
            assert(r.rows() =~= Seq::<(T0, T1, T2)>::empty());
        }
        r
    }

    /// Grows every column to room for exactly `capacity` rows, in one step;
    /// a request at or below the current capacity changes nothing. The rows
    /// held are preserved either way.
    pub fn reserve(&mut self, capacity: usize)
        requires
            old(self).wf(),
        ensures
            final(self).wf(),
            final(self).rows() == old(self).rows(),
            capacity <= old(self).spec_capacity() ==> final(self).spec_capacity() == old(self).spec_capacity(),
            capacity > old(self).spec_capacity() ==> final(self).spec_capacity() == capacity,
    {
        if capacity <= self.capacity {
            return ;
        }
        let len = self.cols.0.len();
        self.cols.0.reserve(capacity - len);
        self.cols.1.reserve(capacity - len);
        self.cols.2.reserve(capacity - len);
        self.capacity = capacity;
        proof {
            assert(self.rows() =~= old(self).rows());
        }
    }

    /// Appends `row` at the end: each component goes to the end of its own
    /// column and the length grows by one. A full container first doubles
    /// its capacity (an empty one grows to one slot), so a push never fails
    /// for want of room; the bound on the capacity only keeps the doubled
    /// value representable.
    pub fn push(&mut self, row: (T0, T1, T2))
        requires
            old(self).wf(),
            old(self).rows().len() == old(self).spec_capacity() ==> old(self).spec_capacity()
                <= usize::MAX / 2,
        ensures
            final(self).wf(),
            final(self).rows() == old(self).rows().push(row),
            final(self).spec_capacity() == grown_capacity(
                old(self).rows().len(),
                old(self).spec_capacity(),
            ),
    {
        let len = self.cols.0.len();
        if len == self.capacity {
            let new_capacity = if self.capacity == 0 {
                1
            } else {
                self.capacity * 2
            };
            self.cols.0.reserve(new_capacity - len);
            self.cols.1.reserve(new_capacity - len);
            self.cols.2.reserve(new_capacity - len);
            self.capacity = new_capacity;
        }
        let (v0, v1, v2) = row;
        self.cols.0.push(v0);
        self.cols.1.push(v1);
        self.cols.2.push(v2);
        proof {
            assert(self.rows() =~= old(self).rows().push(row));
        }
    }

    /// Removes row `index` and shifts every later row down by one position
    /// in every column, so the relative order of the remaining rows is
    /// kept. Rejects the call, leaving the container unchanged, when the
    /// container is empty or when `index` is outside `0 .. len`; the two
    /// conditions come back as distinct [`RemoveError`] values, and exactly
    /// on those inputs.
    pub fn remove(&mut self, index: usize) -> (r: Result<(), RemoveError>)
        requires
            old(self).wf(),
        ensures
            final(self).wf(),
            old(self).rows().len() == 0 ==> {
                &&& r == Err::<(), RemoveError>(RemoveError::Empty)
                &&& final(self).rows() == old(self).rows()
                &&& final(self).spec_capacity() == old(self).spec_capacity()
            },
            old(self).rows().len() > 0 && index >= old(self).rows().len() ==> {
                &&& r == Err::<(), RemoveError>(
                    (RemoveError::OutOfBounds { index, len: old(self).rows().len() as usize }),
                )
                &&& final(self).rows() == old(self).rows()
                &&& final(self).spec_capacity() == old(self).spec_capacity()
            },
            index < old(self).rows().len() ==> {
                &&& r == Ok::<(), RemoveError>(())
                &&& final(self).rows() == old(self).rows().remove(index as int)
                &&& final(self).spec_capacity() == old(self).spec_capacity()
            },
    {
        let len = self.cols.0.len();
        if len == 0 {
            return Err(RemoveError::Empty);
        }
        if index >= len {
            return Err(RemoveError::OutOfBounds { index, len });
        }
        let _ = self.cols.0.remove(index);
        let _ = self.cols.1.remove(index);
        let _ = self.cols.2.remove(index);
        proof {
            assert(self.rows() =~= old(self).rows().remove(index as int));
        }
        Ok(())
    }

    /// Removes row `index` in constant time by moving the last row into its
    /// place in every column; the length shrinks by one and the former last
    /// position is no longer readable. Row order is not preserved.
    pub fn swap_remove(&mut self, index: usize)
        requires
            old(self).wf(),
            index < old(self).rows().len(),
        ensures
            final(self).wf(),
            final(self).rows() == old(self).rows().update(
                index as int,
                old(self).rows().last(),
            ).drop_last(),
            final(self).spec_capacity() == old(self).spec_capacity(),
    {
        let _ = self.cols.0.swap_remove(index);
        let _ = self.cols.1.swap_remove(index);
        let _ = self.cols.2.swap_remove(index);
        proof {
            assert(self.rows() =~= old(self).rows().update(
                index as int,
                old(self).rows().last(),
            ).drop_last());
        }
    }

    /// Exchanges the rows at `left_index` and `right_index` in every
    /// column; every other row, the length and the capacity stay as they
    /// were.
    pub fn swap(&mut self, left_index: usize, right_index: usize)
        requires
            old(self).wf(),
            left_index < old(self).rows().len(),
            right_index < old(self).rows().len(),
        ensures
            final(self).wf(),
            final(self).rows() == old(self).rows().update(
                left_index as int,
                old(self).rows()[right_index as int],
            ).update(right_index as int, old(self).rows()[left_index as int]),
            final(self).rows().len() == old(self).rows().len(),
            forall|k: int|
                0 <= k < old(self).rows().len() && k != left_index && k != right_index
                    ==> final(self).rows()[k] == old(self).rows()[k],
            final(self).spec_capacity() == old(self).spec_capacity(),
    {
        col_swap(&mut self.cols.0, left_index, right_index);
        col_swap(&mut self.cols.1, left_index, right_index);
        col_swap(&mut self.cols.2, left_index, right_index);
        proof {
            assert(self.rows() =~= old(self).rows().update(
                left_index as int,
                old(self).rows()[right_index as int],
            ).update(right_index as int, old(self).rows()[left_index as int]));
        }
    }

    /// Borrows row `index`: one shared reference per column, all at the
    /// same position.
    pub fn at(&self, index: usize) -> (r: (&T0, &T1, &T2))
        requires
            self.wf(),
            index < self.rows().len(),
        ensures
            (*r.0, *r.1, *r.2) == self.rows()[index as int],
    {
        (&self.cols.0[index], &self.cols.1[index], &self.cols.2[index])
    }

    /// Borrows row `index` for writing: one exclusive reference per column,
    /// all at the same position. The references start out holding row
    /// `index`, and whatever the caller leaves in them becomes that row;
    /// nothing else changes.
    pub fn at_mut(&mut self, index: usize) -> (r: (&mut T0, &mut T1, &mut T2))
        requires
            old(self).wf(),
            index < old(self).rows().len(),
        ensures
            (*r.0, *r.1, *r.2) == old(self).rows()[index as int],
            final(self).wf(),
            final(self).rows() =~= old(self).rows().update(
                index as int,
                (*final(r.0), *final(r.1), *final(r.2)),
            ),
            final(self).spec_capacity() == old(self).spec_capacity(),
    {
        (&mut self.cols.0[index], &mut self.cols.1[index], &mut self.cols.2[index])
    }

    /// Overwrites row `index` with `row` in every column; the length and
    /// every other row stay as they were.
    pub fn set_at(&mut self, index: usize, row: (T0, T1, T2))
        requires
            old(self).wf(),
            index < old(self).rows().len(),
        ensures
            final(self).wf(),
            final(self).rows() == old(self).rows().update(index as int, row),
            final(self).spec_capacity() == old(self).spec_capacity(),
    {
        let (v0, v1, v2) = row;
        self.cols.0.set(index, v0);
        self.cols.1.set(index, v1);
        self.cols.2.set(index, v2);
        proof {
            assert(self.rows() =~= old(self).rows().update(index as int, row));
        }
    }

    /// Borrows every column as a contiguous view of exactly the live
    /// elements: each slice has the container's length, and position `i`
    /// across the slices is row `i`.
    pub fn as_refs_tuple(&self) -> (r: (&[T0], &[T1], &[T2]))
        requires
            self.wf(),
        ensures
            r.0@.len() == self.rows().len(),
            r.1@.len() == self.rows().len(),
            r.2@.len() == self.rows().len(),
            forall|i: int|
                0 <= i < self.rows().len() ==> #[trigger] r.0@[i] == self.rows()[i].0,
            forall|i: int|
                0 <= i < self.rows().len() ==> #[trigger] r.1@[i] == self.rows()[i].1,
            forall|i: int|
                0 <= i < self.rows().len() ==> #[trigger] r.2@[i] == self.rows()[i].2,
    {
        (self.cols.0.as_slice(), self.cols.1.as_slice(), self.cols.2.as_slice())
    }

    /// Borrows every column for writing, as a contiguous view of exactly
    /// the live elements. The slices start out holding the current columns;
    /// whatever values the caller leaves in them become the rows, position
    /// by position, while the length and the capacity stay as they were (a
    /// slice cannot change its length).
    pub fn as_refs_tuple_mut(&mut self) -> (r: (&mut [T0], &mut [T1], &mut [T2]))
        requires
            old(self).wf(),
        ensures
            r.0@.len() == old(self).rows().len(),
            r.1@.len() == old(self).rows().len(),
            r.2@.len() == old(self).rows().len(),
            forall|i: int|
                0 <= i < old(self).rows().len() ==> #[trigger] r.0@[i] == old(self).rows()[i].0,
            forall|i: int|
                0 <= i < old(self).rows().len() ==> #[trigger] r.1@[i] == old(self).rows()[i].1,
            forall|i: int|
                0 <= i < old(self).rows().len() ==> #[trigger] r.2@[i] == old(self).rows()[i].2,
            final(self).spec_capacity() == old(self).spec_capacity(),
            final(r.0)@.len() == old(self).rows().len() && final(r.1)@.len() == old(self).rows().len()
                && final(r.2)@.len() == old(self).rows().len() ==> final(self).wf()
                && final(self).rows() =~= Seq::new(
                old(self).rows().len(),
                |i: int| (final(r.0)@[i], final(r.1)@[i], final(r.2)@[i]),
            ),
    {
        (self.cols.0.as_mut_slice(), self.cols.1.as_mut_slice(), self.cols.2.as_mut_slice())
    }

    /// The number of rows held.
    pub fn len(&self) -> (n: usize)
        requires
            self.wf(),
        ensures
            n == self.rows().len(),
    {
        self.cols.0.len()
    }
}

} // verus!
