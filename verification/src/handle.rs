//! Index-typed handles into the heap.

use crate::error::{ErrorView, VmError};
use crate::heap::Heap;
use crate::object::NyarObject;
use crate::value::{mismatch, Value, ValueType, ValueView};
use std::marker::PhantomData;
use vstd::prelude::*;

verus! {

/// A copyable reference to a heap cell by index. The type parameter only
/// documents what the holder expects to find in the cell.
#[derive(Debug)]
pub struct Gc<T> {
    /// Index of the cell in the heap.
    pub index: usize,
    /// Marker for the expected content.
    pub phantom: PhantomData<T>,
}

impl<T> Gc<T> {
    /// A handle to the cell at `index`.
    pub fn new(index: usize) -> (r: Self)
        ensures
            r.index == index,
    {
        Gc { index, phantom: PhantomData }
    }

    /// The same cell, seen as holding a `U`.
    pub fn transmute<U>(&self) -> (r: Gc<U>)
        ensures
            r.index == self.index,
    {
        Gc { index: self.index, phantom: PhantomData }
    }

    /// The same cell, seen as holding any value.
    pub fn as_any(&self) -> (r: Gc<Value>)
        ensures
            r.index == self.index,
    {
        self.transmute()
    }

    /// The value in the cell that the handle names; `UseAfterFree` where
    /// the cell is dead or the index names no cell.
    pub fn deref<'a>(&self, heap: &'a Heap) -> (r: Result<&'a Value, VmError>)
        ensures
            match r {
                Ok(v) => heap@.deref(self.index) == Ok::<ValueView, ErrorView>(v@),
                Err(e) => heap@.deref(self.index) == Err::<ValueView, ErrorView>(e@),
            },
    {
        heap.view_ref(Gc::<Value>::new(self.index))
    }

    /// A copy of the value in the cell that the handle names.
    pub fn unbox(&self, heap: &Heap) -> (r: Result<Value, VmError>)
        ensures
            match r {
                Ok(v) => heap@.deref(self.index) == Ok::<ValueView, ErrorView>(v@),
                Err(e) => heap@.deref(self.index) == Err::<ValueView, ErrorView>(e@),
            },
    {
        match heap.view_ref(Gc::<Value>::new(self.index)) {
            Ok(v) => Ok(v.duplicate()),
            Err(e) => Err(e),
        }
    }

    /// The object in the cell that the handle names; a type mismatch where
    /// the cell holds another kind of value.
    pub fn as_object<'a>(&self, heap: &'a Heap) -> (r: Result<&'a NyarObject, VmError>)
        ensures
            match heap@.deref(self.index) {
                Ok(ValueView::Object(entries)) => r.is_ok() && r.unwrap()@ == entries,
                Ok(v) => r.is_err() && r.unwrap_err()@ == mismatch(
                    ValueType::Object,
                    v.value_type(),
                ),
                Err(e) => r.is_err() && r.unwrap_err()@ == e,
            },
    {
        match heap.view_ref(Gc::<Value>::new(self.index)) {
            Ok(v) => v.as_object(),
            Err(e) => Err(e),
        }
    }
}

impl<T> Clone for Gc<T> {
    fn clone(&self) -> (r: Self)
        ensures
            r.index == self.index,
    {
        Gc { index: self.index, phantom: PhantomData }
    }
}

impl<T> Copy for Gc<T> {}

impl<T> PartialEq for Gc<T> {
    /// Handles compare by index.
    fn eq(&self, other: &Self) -> (r: bool) {
        self.index == other.index
    }
}

impl<T> vstd::std_specs::cmp::PartialEqSpecImpl for Gc<T> {
    open spec fn obeys_eq_spec() -> bool {
        true
    }

    open spec fn eq_spec(&self, other: &Self) -> bool {
        self.index == other.index
    }
}

impl<T> Eq for Gc<T> {}

/// Handles compare by index, whatever they are typed to hold.
pub fn same_cell<T, U>(a: Gc<T>, b: Gc<U>) -> (r: bool)
    ensures
        r == (a.index == b.index),
{
    let b_as_t: Gc<T> = b.transmute();
    a == b_as_t
}

} // verus!
