//! The version field of a transaction.

use vstd::prelude::*;
use crate::le::{le_bytes, le_value, lemma_le_value_bound, pow256};

verus! {

/// The version of a transaction. Versions one and two are standard; any
/// other number is carried as it is.
#[derive(Debug, PartialEq, Eq, PartialOrd, Ord, Clone, Copy, Structural)]
pub enum TxVersion {
    One,
    /// Version two, which allows relative lock times.
    Two,
    /// A non-standard version.
    Custom(u32),
}

/// The version that a number names.
pub open spec fn version_of(number: nat) -> TxVersion {
    if number == 1 {
        TxVersion::One
    } else if number == 2 {
        TxVersion::Two
    } else {
        TxVersion::Custom(number as u32)
    }
}

impl Default for TxVersion {
    /// Version one.
    fn default() -> (version: Self)
        ensures
            version == TxVersion::One,
    {
        TxVersion::One
    }
}

impl TxVersion {
    /// The number of the version.
    pub open spec fn number(&self) -> nat {
        match *self {
            TxVersion::One => 1,
            TxVersion::Two => 2,
            TxVersion::Custom(version) => version as nat,
        }
    }

    /// The version as the four bytes of its field, little-endian.
    pub fn to_bytes(&self) -> (bytes: [u8; 4])
        ensures
            bytes@ == le_bytes(self.number(), 4),
    {
        let number: u32 = match self {
            Self::One => 1,
            Self::Two => 2,
            Self::Custom(version) => *version,
        };
        let bytes: [u8; 4] = [
            (number % 256) as u8,
            ((number / 256) % 256) as u8,
            ((number / 65536) % 256) as u8,
            ((number / 16777216) % 256) as u8,
        ];
        proof {
            reveal_with_fuel(le_bytes, 5);
            assert(bytes@ =~= le_bytes(number as nat, 4));
        }
        bytes
    }

    /// The version that the four bytes of a version field hold.
    pub fn from_bytes(bytes: [u8; 4]) -> (version: Self)
        ensures
            version == version_of(le_value(bytes@)),
    {
        proof {
            lemma_le_value_bound(bytes@);
            reveal_with_fuel(pow256, 5);
            reveal_with_fuel(le_value, 5);
            assert(bytes@.drop_first().drop_first().drop_first().drop_first().len() == 0);
        }
        let parsed: u32 = bytes[0] as u32 + 256 * (bytes[1] as u32 + 256 * (bytes[2] as u32 + 256
            * (bytes[3] as u32)));
        match parsed {
            1u32 => Self::One,
            2u32 => Self::Two,
            _ => Self::Custom(parsed),
        }
    }
}

} // verus!
