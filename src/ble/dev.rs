use crate::text::push_char;
use vstd::prelude::*;

verus! {

/// The handle the host stack gives a connection.
pub type BleConnHandle = u32;

/// A link-layer address: its type tag and its six bytes, least significant first.
#[derive(Clone, Copy, Debug, Hash)]
pub struct BlePeerDeviceAddress {
    pub kind: u8,
    pub val: [u8; 6],
}

impl BlePeerDeviceAddress {
    /// Two addresses are the same when their type tags and bytes are.
    pub open spec fn same_as(&self, other: &BlePeerDeviceAddress) -> bool {
        self.kind == other.kind && self.val@ == other.val@
    }
}

impl PartialEq for BlePeerDeviceAddress {
    fn eq(&self, other: &BlePeerDeviceAddress) -> (r: bool)
        ensures
            r == self.same_as(other),
    {
        self.kind == other.kind && crate::ble::uuid::same_bytes(&self.val, &other.val)
    }
}

impl vstd::std_specs::cmp::PartialEqSpecImpl for BlePeerDeviceAddress {
    open spec fn obeys_eq_spec() -> bool {
        true
    }

    open spec fn eq_spec(&self, other: &BlePeerDeviceAddress) -> bool {
        self.same_as(other)
    }
}

impl Eq for BlePeerDeviceAddress {
}

pub open spec fn upper_hex_chars() -> Seq<char> {
    seq!['0', '1', '2', '3', '4', '5', '6', '7', '8', '9', 'A', 'B', 'C', 'D', 'E', 'F']
}

/// The character at position `j` of the text of an address with bytes `val`:
/// the bytes from the last to the first, two uppercase digits each, joined by colons.
pub open spec fn address_char(val: Seq<u8>, j: int) -> char {
    let b = val[5 - j / 3] as int;
    if j % 3 == 2 {
        ':'
    } else if j % 3 == 0 {
        upper_hex_chars()[b / 16]
    } else {
        upper_hex_chars()[b % 16]
    }
}

/// The text of an address, as `AA:BB:CC:DD:EE:FF` with the last byte first.
pub open spec fn address_text(a: BlePeerDeviceAddress) -> Seq<char> {
    Seq::new(17, |j: int| address_char(a.val@, j))
}

impl BlePeerDeviceAddress {
    /// The address as text: its bytes from the last to the first, in
    /// uppercase hexadecimal, joined by colons.
    pub fn to_string(&self) -> (r: String)
        ensures
            r@ == address_text(*self),
    {
        let digits: [char; 16] = [
            '0', '1', '2', '3', '4', '5', '6', '7', '8', '9', 'A', 'B', 'C', 'D', 'E', 'F',
        ];
        proof {
            assert(digits@ =~= upper_hex_chars());
        }
        let mut r = String::new();
        let mut j: usize = 0;
        while j < 17
            invariant
                j <= 17,
                digits@ == upper_hex_chars(),
                r@ =~= address_text(*self).subrange(0, j as int),
            decreases 17 - j,
        {
            let b = self.val[5 - j / 3];
            let c = if j % 3 == 2 {
                ':'
            } else if j % 3 == 0 {
                digits[(b / 16) as usize]
            } else {
                digits[(b % 16) as usize]
            };
            push_char(&mut r, c);
            j = j + 1;
        }
        r
    }
}

} // verus!
