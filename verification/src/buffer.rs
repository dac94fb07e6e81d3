use vstd::prelude::*;
use crate::VmError;

verus! {

/// A fixed-capacity, index-addressable store of fixed-width integer cells.
/// Memory, registers, stack, graphics plane and key state are all instances.
pub struct Buffer<T> {
    cells: Vec<T>,
}

impl<T> View for Buffer<T> {
    type V = Seq<T>;

    closed spec fn view(&self) -> Seq<T> {
        self.cells@
    }
}

impl<T: Copy> Buffer<T> {
    /// A store of `size` cells, each holding `zero`.
    pub fn new(size: usize, zero: T) -> (r: Buffer<T>)
        ensures
            r@.len() == size,
            forall|i: int| 0 <= i < size ==> r@[i] == zero,
    {
        let mut cells: Vec<T> = Vec::new();
        let mut i: usize = 0;
        while i < size
            invariant
                i <= size,
                cells@.len() == i,
                forall|j: int| 0 <= j < i ==> cells@[j] == zero,
            decreases size - i,
        {
            cells.push(zero);
            i = i + 1;
        }
        Buffer { cells }
    }

    /// The number of cells.
    pub fn len(&self) -> (n: usize)
        ensures
            n == self@.len(),
    {
        self.cells.len()
    }

    /// Bounds-checked read.
    pub fn read(&self, index: usize) -> (r: Result<T, VmError>)
        ensures
            index < self@.len() ==> r == Ok::<T, VmError>(self@[index as int]),
            index >= self@.len() ==> r == Err::<T, VmError>(VmError::OutOfBounds),
    {
        if index < self.cells.len() {
            Ok(self.cells[index])
        } else {
            Err(VmError::OutOfBounds)
        }
    }

    /// Read with the bound shown by the caller.
    pub fn get(&self, index: usize) -> (r: T)
        requires
            index < self@.len(),
        ensures
            r == self@[index as int],
    {
        self.cells[index]
    }

    /// Bounds-checked write.
    pub fn write(&mut self, index: usize, value: T) -> (r: Result<(), VmError>)
        ensures
            index < old(self)@.len() ==> r == Ok::<(), VmError>(())
                && final(self)@ == old(self)@.update(index as int, value),
            index >= old(self)@.len() ==> r == Err::<(), VmError>(VmError::OutOfBounds)
                && final(self)@ == old(self)@,
    {
        if index < self.cells.len() {
            self.cells.set(index, value);
            Ok(())
        } else {
            Err(VmError::OutOfBounds)
        }
    }

    /// Write with the bound shown by the caller.
    pub fn set(&mut self, index: usize, value: T)
        requires
            index < old(self)@.len(),
        ensures
            final(self)@ == old(self)@.update(index as int, value),
    {
        self.cells.set(index, value);
    }

    /// The cells from `from` to the end, as a borrowed slice.
    pub fn slice_from(&self, from: usize) -> (r: Result<&[T], VmError>)
        ensures
            from <= self@.len() ==> (r matches Ok(s)
                && s@ == self@.subrange(from as int, self@.len() as int)),
            from > self@.len() ==> r == Err::<&[T], VmError>(VmError::OutOfBounds),
    {
        if from <= self.cells.len() {
            Ok(vstd::slice::slice_subrange(self.cells.as_slice(), from, self.cells.len()))
        } else {
            Err(VmError::OutOfBounds)
        }
    }
}

} // verus!
