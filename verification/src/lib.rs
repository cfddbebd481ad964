//! A structure-of-arrays (SoA) container: for a fixed tuple of element
//! types it keeps one independently typed buffer per tuple component
//! ("column"), all sharing a single logical length and capacity, while the
//! interface treats the values at one position across all columns as one
//! logical "row".
//!
//! All columns are grown and mutated in lockstep, so after every public
//! operation each column holds exactly the same number of live elements.
//! The bounds conditions of `remove` are reported as values of
//! [`RemoveError`]; every other indexed operation states its valid range as
//! a precondition, so a verified caller can never reach an out-of-range
//! access. Releasing the container releases every column's buffer as one
//! step, through the owned column vectors.

use vstd::prelude::*;

mod pair;
mod triple;

verus! {

/// Ties a row tuple type to the column storage that holds one buffer per
/// tuple component.
pub trait SaoTuple {
    /// One owned, growable buffer per component of the row tuple.
    type Columns;
}

/// A tuple of borrows into one row, one reference per column.
pub trait RefsTuple<'a> {

}

/// Why a call to [`SaoVec::remove`] was rejected; the two conditions are
/// distinguishable so a caller can tell an empty container from a bad index.
#[derive(Clone, Copy, Debug, PartialEq, Eq, Structural)]
pub enum RemoveError {
    /// The container holds no rows, so there is nothing to remove.
    Empty,
    /// The index is outside the valid range `0 .. len`.
    OutOfBounds { index: usize, len: usize },
}

/// The capacity after a push that found the container holding `len` rows
/// with room for `cap`: unchanged while there is room, otherwise doubled,
/// with the first growth from empty going to one slot.
pub open spec fn grown_capacity(len: nat, cap: nat) -> nat {
    if len < cap {
        cap
    } else if cap == 0 {
        1
    } else {
        2 * cap
    }
}

/// A structure-of-arrays container: one independently typed buffer per
/// column, kept in lockstep by a shared logical length and capacity.
pub struct SaoVec<T: SaoTuple> {
    cols: T::Columns,
    capacity: usize,
}

impl<T: SaoTuple> SaoVec<T> {
    /// The number of rows each column can hold before the container grows.
    pub closed spec fn spec_capacity(&self) -> nat {
        self.capacity as nat
    }

    /// Reports how many rows each column can hold before the container
    /// grows.
    pub fn capacity(&self) -> (c: usize)
        ensures
            c == self.spec_capacity(),
    {
        self.capacity
    }
}

/// Exchanges the elements at `i` and `j` of one column.
pub(crate) fn col_swap<T>(v: &mut Vec<T>, i: usize, j: usize)
    requires
        i < old(v)@.len(),
        j < old(v)@.len(),
    ensures
        final(v)@ == old(v)@.update(i as int, old(v)@[j as int]).update(
            j as int,
            old(v)@[i as int],
        ),
{
    if i == j {
        proof {
            assert(old(v)@.update(i as int, old(v)@[j as int]).update(j as int, old(v)@[i as int])
                =~= v@);
        }
        return ;
    }
    let mut tmp = v.remove(i);
    let j_shifted = if j > i {
        j - 1
    } else {
        j
    };
    v.set_and_swap(j_shifted, &mut tmp);
    v.insert(i, tmp);
    proof {
        assert(v@ =~= old(v)@.update(i as int, old(v)@[j as int]).update(
            j as int,
            old(v)@[i as int],
        ));
    }
}

/// The rows held after pushing each element of `pushed`, in order, onto a
/// container whose rows were `s`: each push appends one row, as the
/// contract of [`SaoVec::push`] states.
pub open spec fn after_pushes<R>(s: Seq<R>, pushed: Seq<R>) -> Seq<R>
    decreases pushed.len(),
{
    if pushed.len() == 0 {
        s
    } else {
        after_pushes(s.push(pushed[0]), pushed.drop_first())
    }
}

/// For every sequence of pushes: the rows afterwards are the starting rows
/// followed by the pushed rows in order, so the length equals the starting
/// length plus the number of pushes, and the `i`-th pushed row stands at
/// position `s.len() + i`.
pub proof fn lemma_pushes_append<R>(s: Seq<R>, pushed: Seq<R>)
    ensures
        after_pushes(s, pushed) == s + pushed,
        after_pushes(s, pushed).len() == s.len() + pushed.len(),
        forall|i: int|
            0 <= i < pushed.len() ==> after_pushes(s, pushed)[s.len() + i] == pushed[i],
    decreases pushed.len(),
{
    if pushed.len() == 0 {
        assert(after_pushes(s, pushed) =~= s + pushed);
    } else {
        lemma_pushes_append(s.push(pushed[0]), pushed.drop_first());
        assert(s.push(pushed[0]) + pushed.drop_first() =~= s + pushed);
    }
}

} // verus!
