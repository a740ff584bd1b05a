//! Reads that a search asks its caller to make, and what comes back.

use vstd::prelude::*;

verus! {

/// A read of process memory: a pointer-sized value or a 32-bit integer, at an address.
#[derive(Clone, Copy, Debug, PartialEq, Eq, Structural)]
pub enum Probe {
    Ptr(usize),
    I32(usize),
}

/// The value that a [`Probe`] produced.
#[derive(Clone, Copy, Debug, PartialEq, Eq, Structural)]
pub enum Reading {
    Ptr(usize),
    I32(i32),
}

/// What a search wants next: one more read, or its finished result.
#[derive(Debug, PartialEq, Eq)]
pub enum Step<T> {
    Read(Probe),
    Done(T),
}

impl Probe {
    pub open spec fn spec_address(&self) -> usize {
        match *self {
            Probe::Ptr(a) => a,
            Probe::I32(a) => a,
        }
    }

    pub open spec fn spec_width(&self) -> usize {
        match *self {
            Probe::Ptr(_) => 8,
            Probe::I32(_) => 4,
        }
    }

    /// Address that the read starts at.
    #[verifier::when_used_as_spec(spec_address)]
    pub fn address(&self) -> (r: usize)
        ensures
            r == self.spec_address(),
    {
        match self {
            Probe::Ptr(a) => *a,
            Probe::I32(a) => *a,
        }
    }

    /// Number of bytes that the read covers.
    #[verifier::when_used_as_spec(spec_width)]
    pub fn width(&self) -> (r: usize)
        ensures
            r == self.spec_width(),
    {
        match self {
            Probe::Ptr(_) => 8,
            Probe::I32(_) => 4,
        }
    }

    /// The value that a guarded read yields when the memory may not be read: zero.
    pub fn unreadable(&self) -> (r: Reading)
        ensures
            r == (match *self {
                Probe::Ptr(_) => Reading::Ptr(0),
                Probe::I32(_) => Reading::I32(0),
            }),
    {
        match self {
            Probe::Ptr(_) => Reading::Ptr(0),
            Probe::I32(_) => Reading::I32(0),
        }
    }
}

/// What `p` reads from a memory image in which a pointer read at `a` gives
/// `ptr_at(a)` and an integer read gives `i32_at(a)`.
pub open spec fn answer(p: Probe, ptr_at: spec_fn(usize) -> usize, i32_at: spec_fn(usize) -> i32) -> Reading {
    match p {
        Probe::Ptr(a) => Reading::Ptr(ptr_at(a)),
        Probe::I32(a) => Reading::I32(i32_at(a)),
    }
}

} // verus!
