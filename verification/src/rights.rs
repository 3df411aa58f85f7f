//! The rights a capability carries over the object it names.

use vstd::prelude::*;

verus! {

/// Bit of the right to read an object or receive from it.
pub const READ_BIT: u32 = 0b0000_0001;

/// Bit of the right to modify an object, send to it or signal it.
pub const WRITE_BIT: u32 = 0b0000_0010;

/// Bit of the right to map a memory frame executable.
pub const EXECUTE_BIT: u32 = 0b0000_0100;

/// Bit of the right to transfer a no-wider copy to another process.
pub const GRANT_BIT: u32 = 0b0000_1000;

/// Bit of the right to copy within the same capability space.
pub const DUPLICATE_BIT: u32 = 0b0001_0000;

/// Bit of the right to revoke the capability and everything derived from it.
pub const REVOKE_BIT: u32 = 0b0010_0000;

/// Every defined right.
pub const ALL_BITS: u32 = 0b0011_1111;

/// A set of capability rights, one bit each.
///
/// Rights never grow along a derivation: every derived capability carries a subset of the
/// rights of the capability it was derived from.
#[derive(Debug, Clone, Copy, PartialEq, Eq, Structural)]
pub struct CapabilityRights {
    /// The rights as a bit mask.
    pub bits: u32,
}

/// The defined rights among some bits.
pub open spec fn known_rights(bits: u32) -> CapabilityRights {
    CapabilityRights { bits: bits & ALL_BITS }
}

/// The rights that either of two sets has.
pub open spec fn rights_of_both(a: CapabilityRights, b: CapabilityRights) -> CapabilityRights {
    CapabilityRights { bits: a.bits | b.bits }
}

impl CapabilityRights {
    /// Every right of `other` is in `self`.
    pub open spec fn has_all(self, other: Self) -> bool {
        self.bits & other.bits == other.bits
    }

    /// No right at all.
    pub fn empty() -> (r: Self)
        ensures
            r.bits == 0,
    {
        CapabilityRights { bits: 0 }
    }

    /// Every defined right.
    pub fn all() -> (r: Self)
        ensures
            r.bits == ALL_BITS,
    {
        CapabilityRights { bits: ALL_BITS }
    }

    /// Read, receive.
    pub fn read() -> (r: Self)
        ensures
            r.bits == READ_BIT,
    {
        CapabilityRights { bits: READ_BIT }
    }

    /// Write, send, signal.
    pub fn write() -> (r: Self)
        ensures
            r.bits == WRITE_BIT,
    {
        CapabilityRights { bits: WRITE_BIT }
    }

    /// Executable mapping.
    pub fn execute() -> (r: Self)
        ensures
            r.bits == EXECUTE_BIT,
    {
        CapabilityRights { bits: EXECUTE_BIT }
    }

    /// May be transferred to another process.
    pub fn grant() -> (r: Self)
        ensures
            r.bits == GRANT_BIT,
    {
        CapabilityRights { bits: GRANT_BIT }
    }

    /// May be copied within the same capability space.
    pub fn duplicate() -> (r: Self)
        ensures
            r.bits == DUPLICATE_BIT,
    {
        CapabilityRights { bits: DUPLICATE_BIT }
    }

    /// May be the target of a revocation.
    pub fn revoke() -> (r: Self)
        ensures
            r.bits == REVOKE_BIT,
    {
        CapabilityRights { bits: REVOKE_BIT }
    }

    /// Read only: a read-only mapping or a receive-only endpoint.
    pub fn ro() -> (r: Self)
        ensures
            r.bits == READ_BIT,
    {
        CapabilityRights { bits: READ_BIT }
    }

    /// Read and write, no execute: data frames and two-way endpoints.
    pub fn rw() -> (r: Self)
        ensures
            r.bits == READ_BIT | WRITE_BIT,
    {
        CapabilityRights { bits: READ_BIT | WRITE_BIT }
    }

    /// Read and execute, no write: code frames.
    pub fn rx() -> (r: Self)
        ensures
            r.bits == READ_BIT | EXECUTE_BIT,
    {
        CapabilityRights { bits: READ_BIT | EXECUTE_BIT }
    }

    /// The rights in `bits`; bits that name no right are dropped.
    pub fn from_bits_truncate(bits: u32) -> (r: Self)
        ensures
            r == known_rights(bits),
    {
        CapabilityRights { bits: bits & ALL_BITS }
    }

    /// The rights in `self` or in `other`.
    pub fn union(self, other: Self) -> (r: Self)
        ensures
            r == rights_of_both(self, other),
    {
        CapabilityRights { bits: self.bits | other.bits }
    }

    /// Whether `self` has every right of `other`.
    pub fn contains(self, other: Self) -> (r: bool)
        ensures
            r == self.has_all(other),
    {
        self.bits & other.bits == other.bits
    }

    /// Whether `self` is no wider than `parent` in every bit.
    pub fn is_subset_of(self, parent: Self) -> (r: bool)
        ensures
            r == parent.has_all(self),
    {
        parent.contains(self)
    }
}

/// A right that the narrowest of three nested sets has, the widest has too: narrowing
/// twice never regains a right.
pub proof fn rights_narrow_transitively(
    wide: CapabilityRights,
    middle: CapabilityRights,
    narrow: CapabilityRights,
)
    requires
        wide.has_all(middle),
        middle.has_all(narrow),
    ensures
        wide.has_all(narrow),
{
    let a = wide.bits;
    let b = middle.bits;
    let c = narrow.bits;
    assert(a & c == c) by (bit_vector)
        requires
            a & b == b,
            b & c == c,
    ;
}

/// Every set of rights has all its own rights.
pub proof fn rights_include_themselves(rights: CapabilityRights)
    ensures
        rights.has_all(rights),
{
    let a = rights.bits;
    assert(a & a == a) by (bit_vector);
}

/// For sets of defined rights, `has_all` is inclusion right by right.
pub proof fn rights_compare_right_by_right(wide: CapabilityRights, narrow: CapabilityRights)
    requires
        narrow.bits <= ALL_BITS,
    ensures
        wide.has_all(narrow) <==> {
            &&& narrow.bits & READ_BIT != 0 ==> wide.bits & READ_BIT != 0
            &&& narrow.bits & WRITE_BIT != 0 ==> wide.bits & WRITE_BIT != 0
            &&& narrow.bits & EXECUTE_BIT != 0 ==> wide.bits & EXECUTE_BIT != 0
            &&& narrow.bits & GRANT_BIT != 0 ==> wide.bits & GRANT_BIT != 0
            &&& narrow.bits & DUPLICATE_BIT != 0 ==> wide.bits & DUPLICATE_BIT != 0
            &&& narrow.bits & REVOKE_BIT != 0 ==> wide.bits & REVOKE_BIT != 0
        },
{
    let a = wide.bits;
    let b = narrow.bits;
    assert(a & b == b <==> ((b & 1 != 0 ==> a & 1 != 0) && (b & 2 != 0 ==> a & 2 != 0) && (b & 4 != 0
        ==> a & 4 != 0) && (b & 8 != 0 ==> a & 8 != 0) && (b & 16 != 0 ==> a & 16 != 0) && (b & 32
        != 0 ==> a & 32 != 0))) by (bit_vector)
        requires
            b <= 63,
    ;
}

/// The union of two sets has every right of both and none besides: whatever has all of both has
/// all of the union. Bits that are no rights are dropped, and all others kept.
pub proof fn unions_and_truncation_lose_no_right(
    a: CapabilityRights,
    b: CapabilityRights,
    c: CapabilityRights,
    bits: u32,
)
    ensures
        rights_of_both(a, b).has_all(a),
        rights_of_both(a, b).has_all(b),
        c.has_all(a) && c.has_all(b) ==> c.has_all(rights_of_both(a, b)),
        known_rights(bits).bits <= 0x3f,
        bits <= 0x3f ==> known_rights(bits).bits == bits,
        bits & known_rights(bits).bits == known_rights(bits).bits,
        known_rights(bits).bits | (bits & !0x3fu32) == bits,
{
    let x = a.bits;
    let y = b.bits;
    let z = c.bits;
    assert((x | y) & x == x && (x | y) & y == y) by (bit_vector);
    assert(z & x == x && z & y == y ==> z & (x | y) == x | y) by (bit_vector);
    assert(bits & 0x3fu32 <= 0x3f && (bits <= 0x3f ==> bits & 0x3fu32 == bits) && bits & (bits
        & 0x3fu32) == bits & 0x3fu32 && (bits & 0x3fu32) | (bits & !0x3fu32) == bits)
        by (bit_vector);
}

/// The rights are six, one bit each, and together they are all there are.
pub proof fn rights_are_six_bits()
    ensures
        READ_BIT == 1 && WRITE_BIT == 2 && EXECUTE_BIT == 4 && GRANT_BIT == 8 && DUPLICATE_BIT == 16
            && REVOKE_BIT == 32,
        READ_BIT | WRITE_BIT | EXECUTE_BIT | GRANT_BIT | DUPLICATE_BIT | REVOKE_BIT == ALL_BITS,
{
    assert(1u32 | 2u32 | 4u32 | 8u32 | 16u32 | 32u32 == 0x3fu32) by (bit_vector);
}

} // verus!
