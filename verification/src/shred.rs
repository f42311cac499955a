//! Identity of a shred.
use vstd::prelude::*;

verus! {

/// The two kinds of shreds that make up a block.
#[derive(Clone, Copy, Debug, PartialEq, Eq, Hash, Structural)]
pub enum ShredType {
    Data,
    Code,
}

/// A shred by its place in the ledger.
#[derive(Clone, Copy, Debug, PartialEq, Eq, Hash, Structural)]
pub struct ShredKey {
    pub slot: u64,
    pub index: u32,
    pub shred_type: ShredType,
}

impl ShredKey {
    /// The key as a tuple of plain values; the last one tells data from code shreds.
    pub open spec fn parts(self) -> (u64, u32, bool) {
        (self.slot, self.index, self.shred_type == ShredType::Data)
    }

    /// The key as a tuple of plain values, by which the registry finds its record.
    pub fn to_parts(&self) -> (parts: (u64, u32, bool))
        ensures
            parts == self.parts(),
    {
        let is_data = match self.shred_type {
            ShredType::Data => true,
            ShredType::Code => false,
        };
        (self.slot, self.index, is_data)
    }

    /// The key with these parts.
    pub fn from_parts(parts: (u64, u32, bool)) -> (key: ShredKey)
        ensures
            key.parts() == parts,
    {
        let shred_type = if parts.2 {
            ShredType::Data
        } else {
            ShredType::Code
        };
        ShredKey { slot: parts.0, index: parts.1, shred_type }
    }
}

/// `key` is what `parse` finds in the bytes `datagram`.
pub open spec fn finds<P: Fn(&[u8]) -> Option<ShredKey>>(
    parse: P,
    datagram: Seq<u8>,
    key: Option<ShredKey>,
) -> bool {
    exists|bytes: &[u8]| #[trigger] call_ensures(parse, (bytes,), key) && bytes@ == datagram
}

/// Different keys have different parts.
pub proof fn law_parts_identify_the_key(left: ShredKey, right: ShredKey)
    ensures
        left.parts() == right.parts() <==> left == right,
{
}

/// The parts of a key are its slot, its index, and whether it is a data shred.
pub proof fn law_parts_are_those_of_the_key(key: ShredKey)
    ensures
        key.parts().0 == key.slot,
        key.parts().1 == key.index,
        key.parts().2 <==> key.shred_type is Data,
{
}

/// Where the parser gives nothing but `expected` on some bytes, nothing but that is found
/// in them; and what it gives on them is found.
pub proof fn law_what_is_found_is_what_is_parsed<P: Fn(&[u8]) -> Option<ShredKey>>(
    parse: P,
    bytes: &[u8],
    expected: Option<ShredKey>,
    key: Option<ShredKey>,
)
    ensures
        call_ensures(parse, (bytes,), expected) ==> finds(parse, bytes@, expected),
        (forall|given: &[u8], result: Option<ShredKey>|
            given@ == bytes@ && #[trigger] call_ensures(parse, (given,), result) ==> result
                == expected) ==> (finds(parse, bytes@, key) ==> key == expected),
{
}

} // verus!
