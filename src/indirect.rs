//! References and boxes take the size and the bytes of the value they point to.
use vstd::prelude::*;
use crate::traits::{DataSize, StaticDataSize, WriteError, Writable};

verus! {

impl<'a, T: DataSize + ?Sized> DataSize for &'a T {
    open spec fn spec_static_size() -> Option<nat> {
        T::spec_static_size()
    }

    open spec fn spec_data_size(&self) -> nat {
        (**self).spec_data_size()
    }

    proof fn lemma_static_size(&self) {
        (**self).lemma_static_size();
    }

    fn fixed_data_size() -> (r: Option<usize>) {
        T::fixed_data_size()
    }

    open spec fn spec_is_fieldless() -> bool {
        false
    }

    fn is_fieldless() -> (r: bool) {
        false
    }

    fn has_static_size() -> (r: bool) {
        T::has_static_size()
    }

    fn data_size(&self) -> (r: usize) {
        (**self).data_size()
    }
}

impl<'a, T: StaticDataSize + ?Sized> StaticDataSize for &'a T {
    proof fn lemma_is_static() {
        T::lemma_is_static();
    }

    fn static_data_size() -> (r: usize) {
        T::static_data_size()
    }
}

impl<'a, T: Writable + ?Sized> Writable for &'a T {
    open spec fn spec_bytes(&self) -> Seq<u8> {
        (**self).spec_bytes()
    }

    proof fn lemma_bytes_len(&self) {
        (**self).lemma_bytes_len();
    }

    fn write_to(&self, writer: &mut Vec<u8>) -> (r: Result<(), WriteError>) {
        (**self).write_to(writer)
    }
}

impl<'a, T: DataSize + ?Sized> DataSize for &'a mut T {
    open spec fn spec_static_size() -> Option<nat> {
        T::spec_static_size()
    }

    open spec fn spec_data_size(&self) -> nat {
        (**self).spec_data_size()
    }

    proof fn lemma_static_size(&self) {
        (**self).lemma_static_size();
    }

    fn fixed_data_size() -> (r: Option<usize>) {
        T::fixed_data_size()
    }

    open spec fn spec_is_fieldless() -> bool {
        false
    }

    fn is_fieldless() -> (r: bool) {
        false
    }

    fn has_static_size() -> (r: bool) {
        T::has_static_size()
    }

    fn data_size(&self) -> (r: usize) {
        (**self).data_size()
    }
}

impl<'a, T: StaticDataSize + ?Sized> StaticDataSize for &'a mut T {
    proof fn lemma_is_static() {
        T::lemma_is_static();
    }

    fn static_data_size() -> (r: usize) {
        T::static_data_size()
    }
}

impl<'a, T: Writable + ?Sized> Writable for &'a mut T {
    open spec fn spec_bytes(&self) -> Seq<u8> {
        (**self).spec_bytes()
    }

    proof fn lemma_bytes_len(&self) {
        (**self).lemma_bytes_len();
    }

    fn write_to(&self, writer: &mut Vec<u8>) -> (r: Result<(), WriteError>) {
        (**self).write_to(writer)
    }
}

impl<T: DataSize> DataSize for Box<T> {
    open spec fn spec_static_size() -> Option<nat> {
        T::spec_static_size()
    }

    open spec fn spec_data_size(&self) -> nat {
        (**self).spec_data_size()
    }

    proof fn lemma_static_size(&self) {
        (**self).lemma_static_size();
    }

    fn fixed_data_size() -> (r: Option<usize>) {
        T::fixed_data_size()
    }

    open spec fn spec_is_fieldless() -> bool {
        false
    }

    fn is_fieldless() -> (r: bool) {
        false
    }

    fn has_static_size() -> (r: bool) {
        T::has_static_size()
    }

    fn data_size(&self) -> (r: usize) {
        (**self).data_size()
    }
}

impl<T: StaticDataSize> StaticDataSize for Box<T> {
    proof fn lemma_is_static() {
        T::lemma_is_static();
    }

    fn static_data_size() -> (r: usize) {
        T::static_data_size()
    }
}

impl<T: Writable> Writable for Box<T> {
    open spec fn spec_bytes(&self) -> Seq<u8> {
        (**self).spec_bytes()
    }

    proof fn lemma_bytes_len(&self) {
        (**self).lemma_bytes_len();
    }

    fn write_to(&self, writer: &mut Vec<u8>) -> (r: Result<(), WriteError>) {
        (**self).write_to(writer)
    }
}

} // verus!
