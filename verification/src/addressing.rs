//! Positions in the story, and the three 16-bit encodings that name them.

use vstd::prelude::*;
use vstd::std_specs::convert::FromSpecImpl;
use vstd::std_specs::ops::AddSpecImpl;
use crate::display::push_decimal;
use crate::display::decimal_digits;
use crate::versions::Version;

verus! {

/// An absolute byte position in the story.
///
/// Byte addresses, word addresses and packed addresses all convert to it.
#[derive(Debug, Clone, Copy)]
pub struct ZOffset(pub usize);

impl View for ZOffset {
    type V = nat;

    open spec fn view(&self) -> nat {
        self.0 as nat
    }
}

impl Default for ZOffset {
    fn default() -> (offset: ZOffset)
        ensures
            offset@ == 0,
    {
        ZOffset(0)
    }
}

impl From<ZOffset> for usize {
    fn from(offset: ZOffset) -> (sz: usize) {
        offset.0
    }
}

impl FromSpecImpl<ZOffset> for usize {
    open spec fn obeys_from_spec() -> bool {
        true
    }

    open spec fn from_spec(offset: ZOffset) -> usize {
        offset.0
    }
}

impl From<usize> for ZOffset {
    fn from(sz: usize) -> (offset: ZOffset) {
        ZOffset(sz)
    }
}

impl FromSpecImpl<usize> for ZOffset {
    open spec fn obeys_from_spec() -> bool {
        true
    }

    open spec fn from_spec(sz: usize) -> ZOffset {
        ZOffset(sz)
    }
}

impl From<u16> for ZOffset {
    fn from(sz: u16) -> (offset: ZOffset) {
        ZOffset(sz as usize)
    }
}

impl FromSpecImpl<u16> for ZOffset {
    open spec fn obeys_from_spec() -> bool {
        true
    }

    open spec fn from_spec(sz: u16) -> ZOffset {
        ZOffset(sz as usize)
    }
}

/// The offset `rhs` bytes further on. The sum has to fit: an offset never
/// wraps.
impl core::ops::Add<usize> for ZOffset {
    type Output = ZOffset;

    fn add(self, rhs: usize) -> (sum: ZOffset) {
        ZOffset(self.0 + rhs)
    }
}

impl AddSpecImpl<usize> for ZOffset {
    open spec fn obeys_add_spec() -> bool {
        true
    }

    open spec fn add_req(self, rhs: usize) -> bool {
        self@ + rhs <= usize::MAX
    }

    open spec fn add_spec(self, rhs: usize) -> ZOffset {
        ZOffset((self@ + rhs) as usize)
    }
}

/// The offset `rhs` bytes further on.
impl core::ops::Add<u16> for ZOffset {
    type Output = ZOffset;

    fn add(self, rhs: u16) -> (sum: ZOffset) {
        ZOffset(self.0 + rhs as usize)
    }
}

impl AddSpecImpl<u16> for ZOffset {
    open spec fn obeys_add_spec() -> bool {
        true
    }

    open spec fn add_req(self, rhs: u16) -> bool {
        self@ + rhs <= usize::MAX
    }

    open spec fn add_spec(self, rhs: u16) -> ZOffset {
        ZOffset((self@ + rhs) as usize)
    }
}

/// The sum of two offsets.
impl core::ops::Add<ZOffset> for ZOffset {
    type Output = ZOffset;

    fn add(self, rhs: ZOffset) -> (sum: ZOffset) {
        ZOffset(self.0 + rhs.0)
    }
}

impl AddSpecImpl<ZOffset> for ZOffset {
    open spec fn obeys_add_spec() -> bool {
        true
    }

    open spec fn add_req(self, rhs: ZOffset) -> bool {
        self@ + rhs@ <= usize::MAX
    }

    open spec fn add_spec(self, rhs: ZOffset) -> ZOffset {
        ZOffset((self@ + rhs@) as usize)
    }
}

impl ZOffset {
    /// What `to_string` writes: `ZO:` and the position in decimal.
    pub open spec fn display(self) -> Seq<char> {
        seq!['Z', 'O', ':'] + decimal_digits(self@)
    }

    /// The offset as it is shown in diagnostics.
    pub fn to_string(&self) -> (s: String)
        ensures
            s@ == self.display(),
    {
        let mut s = String::new();
        s.push('Z');
        s.push('O');
        s.push(':');
        assert(s@ == seq!['Z', 'O', ':']);
        push_decimal(&mut s, self.0);
        s
    }

    /// The offset `delta` bytes further on, or `None` where no `usize` holds it.
    pub fn checked_add(self, delta: usize) -> (sum: Option<ZOffset>)
        ensures
            sum == if self@ + delta <= usize::MAX {
                Some(ZOffset((self@ + delta) as usize))
            } else {
                None
            },
    {
        match self.0.checked_add(delta) {
            Some(sz) => Some(ZOffset(sz)),
            None => None,
        }
    }
}

/// A 16-bit address that is the position itself.
#[derive(Debug, Clone, Copy)]
pub struct ByteAddress(pub u16);

impl ByteAddress {
    /// The byte address with the given value.
    pub fn raw(addr: u16) -> (ba: ByteAddress)
        ensures
            ba.0 == addr,
    {
        ByteAddress(addr)
    }

    /// The position that the address names.
    pub open spec fn offset(self) -> nat {
        self.0 as nat
    }
}

impl From<ByteAddress> for ZOffset {
    fn from(ba: ByteAddress) -> (offset: ZOffset) {
        ZOffset(ba.0 as usize)
    }
}

impl FromSpecImpl<ByteAddress> for ZOffset {
    open spec fn obeys_from_spec() -> bool {
        true
    }

    open spec fn from_spec(ba: ByteAddress) -> ZOffset {
        ZOffset(ba.offset() as usize)
    }
}

/// The offset as many bytes further on as the address says.
impl core::ops::Add<ByteAddress> for ZOffset {
    type Output = ZOffset;

    fn add(self, rhs: ByteAddress) -> (sum: ZOffset) {
        ZOffset(self.0 + rhs.0 as usize)
    }
}

impl AddSpecImpl<ByteAddress> for ZOffset {
    open spec fn obeys_add_spec() -> bool {
        true
    }

    open spec fn add_req(self, rhs: ByteAddress) -> bool {
        self@ + rhs.offset() <= usize::MAX
    }

    open spec fn add_spec(self, rhs: ByteAddress) -> ZOffset {
        ZOffset((self@ + rhs.offset()) as usize)
    }
}

/// A 16-bit address that counts words: the position is twice its value.
#[derive(Debug, Clone, Copy)]
pub struct WordAddress(pub u16);

impl WordAddress {
    /// The position that the address names.
    pub open spec fn offset(self) -> nat {
        2 * self.0 as nat
    }
}

impl From<u16> for WordAddress {
    fn from(val: u16) -> (wa: WordAddress) {
        WordAddress(val)
    }
}

impl FromSpecImpl<u16> for WordAddress {
    open spec fn obeys_from_spec() -> bool {
        true
    }

    open spec fn from_spec(val: u16) -> WordAddress {
        WordAddress(val)
    }
}

impl From<WordAddress> for ZOffset {
    fn from(wa: WordAddress) -> (offset: ZOffset) {
        ZOffset(2 * (wa.0 as usize))
    }
}

impl FromSpecImpl<WordAddress> for ZOffset {
    open spec fn obeys_from_spec() -> bool {
        true
    }

    open spec fn from_spec(wa: WordAddress) -> ZOffset {
        ZOffset(wa.offset() as usize)
    }
}

/// The offset as many words further on as the address says.
impl core::ops::Add<WordAddress> for ZOffset {
    type Output = ZOffset;

    fn add(self, rhs: WordAddress) -> (sum: ZOffset) {
        ZOffset(self.0 + 2 * (rhs.0 as usize))
    }
}

impl AddSpecImpl<WordAddress> for ZOffset {
    open spec fn obeys_add_spec() -> bool {
        true
    }

    open spec fn add_req(self, rhs: WordAddress) -> bool {
        self@ + rhs.offset() <= usize::MAX
    }

    open spec fn add_spec(self, rhs: WordAddress) -> ZOffset {
        ZOffset((self@ + rhs.offset()) as usize)
    }
}

/// A 16-bit address of a routine or a string: the position is its value
/// times the version's packed multiplier.
#[derive(Debug, Clone, Copy)]
pub struct PackedAddress(pub u16);

impl PackedAddress {
    /// The packed address with the given value.
    pub fn raw(addr: u16) -> (pa: PackedAddress)
        ensures
            pa.0 == addr,
    {
        PackedAddress(addr)
    }

    /// The position that the address names under `version`.
    pub open spec fn offset(self, version: Version) -> nat {
        self.0 as nat * version.packed_multiplier as nat
    }

    /// The position of the routine that the address names.
    pub fn routine_offset(self, version: &Version) -> (offset: ZOffset)
        ensures
            offset@ == self.offset(*version),
    {
        self.scaled(version)
    }

    /// The position of the string that the address names.
    pub fn string_offset(self, version: &Version) -> (offset: ZOffset)
        ensures
            offset@ == self.offset(*version),
    {
        self.scaled(version)
    }

    /// The address times the packed multiplier of `version`.
    fn scaled(self, version: &Version) -> (offset: ZOffset)
        ensures
            offset@ == self.offset(*version),
    {
        let raw: usize = self.0 as usize;
        let multiplier: usize = version.packed_multiplier as usize;
        assert(raw * multiplier <= 0xffff * 0xff) by (nonlinear_arith)
            requires
                raw <= 0xffff,
                multiplier <= 0xff,
        ;
        ZOffset(raw * multiplier)
    }
}

} // verus!
