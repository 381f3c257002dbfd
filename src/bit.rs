//! Zero-sized tokens that name the eight slots of a byte stack.
use vstd::prelude::*;

verus! {

/// Slot 0.
pub struct B0;

/// Slot 1.
pub struct B1;

/// Slot 2.
pub struct B2;

/// Slot 3.
pub struct B3;

/// Slot 4.
pub struct B4;

/// Slot 5.
pub struct B5;

/// Slot 6.
pub struct B6;

/// Slot 7.
pub struct B7;

/// A slot of a byte stack, known at the type level.
///
/// `Successor` is the token of the next slot; the last slot's successor is
/// `()`, which is no `Bit`, so a stack can take no ninth set.
pub trait Bit {
    /// The zero-based index of the slot.
    spec fn index() -> nat;

    /// The token of the next slot.
    type Successor;

    /// The index of the slot, at run time.
    fn number() -> (r: u8)
        ensures
            r as nat == Self::index(),
            r < 8,
    ;
}

impl Bit for B0 {
    open spec fn index() -> nat {
        0
    }

    type Successor = B1;

    fn number() -> (r: u8) {
        0
    }
}

impl Bit for B1 {
    open spec fn index() -> nat {
        1
    }

    type Successor = B2;

    fn number() -> (r: u8) {
        1
    }
}

impl Bit for B2 {
    open spec fn index() -> nat {
        2
    }

    type Successor = B3;

    fn number() -> (r: u8) {
        2
    }
}

impl Bit for B3 {
    open spec fn index() -> nat {
        3
    }

    type Successor = B4;

    fn number() -> (r: u8) {
        3
    }
}

impl Bit for B4 {
    open spec fn index() -> nat {
        4
    }

    type Successor = B5;

    fn number() -> (r: u8) {
        4
    }
}

impl Bit for B5 {
    open spec fn index() -> nat {
        5
    }

    type Successor = B6;

    fn number() -> (r: u8) {
        5
    }
}

impl Bit for B6 {
    open spec fn index() -> nat {
        6
    }

    type Successor = B7;

    fn number() -> (r: u8) {
        6
    }
}

impl Bit for B7 {
    open spec fn index() -> nat {
        7
    }

    type Successor = ();

    fn number() -> (r: u8) {
        7
    }
}

} // verus!
