use std::marker::PhantomData;
use std::sync::Arc;

use vstd::prelude::*;

use crate::shared::share;

verus! {

/// The element type of a typed array.
#[derive(Debug, Clone, Copy, PartialEq, Eq, Structural, PartialOrd, Ord)]
pub enum ArrayType {
    Int8,
    Uint8,
    Uint8Clamped,
    Int16,
    Uint16,
    Int32,
    Uint32,
    Float32,
    Float64,
    BigInt64,
    BigUint64,
}

/// A typed view with elements of type `T` on a shared byte buffer.
pub struct TypedArray<T> where T: 'static {
    pub array_buffer: Arc<Vec<u8>>,
    pub ty: PhantomData<T>,
}

impl<T: 'static> Clone for TypedArray<T> {
    /// Another view on the same buffer.
    fn clone(&self) -> (r: Self)
        ensures
            r.array_buffer@ == self.array_buffer@,
    {
        TypedArray { array_buffer: share(&self.array_buffer), ty: PhantomData }
    }
}

impl<T: 'static> TypedArray<T> {
    /// The number of whole elements in the buffer.
    pub fn len(&self) -> (r: usize)
        requires
            vstd::layout::size_of::<T>() > 0,
        ensures
            r == self.array_buffer@.len() / vstd::layout::size_of::<T>(),
    {
        return self.array_buffer.len() / std::mem::size_of::<T>();
    }
}

} // verus!
