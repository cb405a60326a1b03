//! The MSVC `std::span` view: the address of a run of elements and their count.

use vstd::prelude::*;
use core::marker::PhantomData;

verus! {

/// A view of `size` consecutive values of type `T` that start at address
/// `data`; address 0 stands for the null pointer.
#[allow(non_camel_case_types)]
#[derive(Debug)]
pub struct span<T> {
    data: usize,
    size: usize,
    marker: PhantomData<T>,
}

impl<T> View for span<T> {
    /// The start address and the element count.
    type V = (usize, usize);

    closed spec fn view(&self) -> (usize, usize) {
        (self.data, self.size)
    }
}

impl<T> Clone for span<T> {
    fn clone(&self) -> (r: Self)
        ensures
            r@ == self@,
    {
        span { data: self.data, size: self.size, marker: PhantomData }
    }
}

impl<T> Copy for span<T> {

}

impl<T> span<T> {
    /// The span of `size` elements that start at address `data`.
    pub fn new(data: usize, size: usize) -> (r: Self)
        ensures
            r@ == (data, size),
    {
        Self { data, size, marker: PhantomData }
    }

    /// The number of elements.
    pub fn size(&self) -> (r: usize)
        ensures
            r == self@.1,
    {
        self.size
    }

    /// The start address, where a null address is replaced by the well-aligned
    /// dangling address that `NonNull::<T>::dangling()` gives (the alignment of
    /// `T`), so that the result can back an empty slice.
    pub fn data_nonnull(&self) -> (r: usize)
        ensures
            r == if self@.0 == 0 {
                vstd::layout::align_of::<T>() as usize
            } else {
                self@.0
            },
            r != 0,
    {
        if self.data == 0 {
            vstd::layout::layout_for_type_is_valid::<T>();
            core::mem::align_of::<T>()
        } else {
            self.data
        }
    }
}

} // verus!
