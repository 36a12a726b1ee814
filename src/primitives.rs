use vstd::prelude::*;

verus! {

/// A 20-byte account address.
pub type Address = [u8; 20];

/// A 256-bit storage word or slot index, as 32 big-endian bytes.
pub type Word = [u8; 32];

} // verus!
