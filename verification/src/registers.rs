//! Typed device-register cells.
//!
//! A `Register<T, R>` is one hardware register of word type `T` whose
//! access mode is pinned by the marker `R`: read-only, write-only or
//! both.  The cell itself is plain state; the boot layer places such
//! structs over memory-mapped device windows.

use core::marker::PhantomData;
use vstd::prelude::*;

verus! {

/// Marker: the register may only be read.
pub struct Read;

/// Marker: the register may only be written.
pub struct Write;

/// Marker: the register may be read and written.
pub struct ReadWrite;

/// The access-mode markers.
pub trait RegType {}

impl RegType for Read {}

impl RegType for Write {}

impl RegType for ReadWrite {}

/// One register cell of word type `T` with access mode `R`.
pub struct Register<T: Copy, R: RegType>(pub T, pub PhantomData<R>);

impl<T: Copy> Register<T, Read> {
    /// The current word.
    pub fn read(&self) -> (r: T)
        ensures
            r == self.0,
    {
        self.0
    }
}

impl<T: Copy> Register<T, Write> {
    /// Replace the word.
    pub fn write(&mut self, val: T)
        ensures
            final(self).0 == val,
    {
        self.0 = val;
    }
}

impl<T: Copy> Register<T, ReadWrite> {
    /// The current word.
    pub fn read(&self) -> (r: T)
        ensures
            r == self.0,
    {
        self.0
    }

    /// Replace the word.
    pub fn write(&mut self, val: T)
        ensures
            final(self).0 == val,
    {
        self.0 = val;
    }
}

impl Register<u32, ReadWrite> {
    /// Set the given bits, leaving the rest.
    pub fn or(&mut self, val: u32)
        ensures
            final(self).0 == old(self).0 | val,
    {
        let v = self.0 | val;
        self.0 = v;
    }

    /// Keep only the given bits.
    pub fn and(&mut self, val: u32)
        ensures
            final(self).0 == old(self).0 & val,
    {
        let v = self.0 & val;
        self.0 = v;
    }
}

} // verus!
