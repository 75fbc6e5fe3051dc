//! Abstract storage locations. Every declaration and every expression
//! result lives at one; the code generator maps them to concrete storage.

use vstd::prelude::*;
use crate::text::{decimal, push_decimal};

verus! {

/// The two shapes of a location: a flat one, and one computed from a base
/// location and a second location that holds the index at run time.
#[derive(Clone, Copy, Debug, PartialEq, Eq, Structural)]
pub enum AddressData {
    Simple(u64),
    Indexed(u64, u64),
}

/// A storage location.
#[derive(Clone, Copy, Debug, PartialEq, Eq, Structural)]
pub struct Address {
    pub data: AddressData,
}

/// How the generated code names a location: `r` and the number, with the
/// index location in square brackets where there is one.
pub open spec fn register_text(a: Address) -> Seq<char> {
    match a.data {
        AddressData::Simple(address) => "r"@ + decimal(address as nat),
        AddressData::Indexed(address, index) => "r"@ + decimal(address as nat) + "[r"@ + decimal(
            index as nat,
        ) + "]"@,
    }
}

impl Address {
    /// The number of the location itself, or of its base where it is indexed.
    pub open spec fn base(&self) -> u64 {
        match self.data {
            AddressData::Simple(address) => address,
            AddressData::Indexed(address, _) => address,
        }
    }

    /// The location of the element of `address` that `index` selects.
    pub open spec fn indexed(address: Address, index: Address) -> Address {
        Address { data: AddressData::Indexed(address.base(), index.base()) }
    }

    /// The flat location with the given number.
    pub fn new_simple(address: u64) -> (r: Address)
        ensures
            r.data == AddressData::Simple(address),
    {
        Address { data: AddressData::Simple(address) }
    }

    /// The location of the element of `address` that `index` selects. Only the
    /// base numbers of the two are kept.
    pub fn new_indexed(address: Address, index: Address) -> (r: Address)
        ensures
            r.data == AddressData::Indexed(address.base(), index.base()),
    {
        Address { data: AddressData::Indexed(address.as_u64(), index.as_u64()) }
    }

    /// The number of the location, or of its base where it is indexed.
    pub fn as_u64(&self) -> (r: u64)
        ensures
            r == self.base(),
    {
        match self.data {
            AddressData::Simple(address) => address,
            AddressData::Indexed(address, _index) => address,
        }
    }

    /// The name of the location in generated code.
    pub fn register_format(&self) -> (s: String)
        ensures
            s@ == register_text(*self),
    {
        match self.data {
            AddressData::Simple(address) => {
                let mut s = String::from_str("r");
                push_decimal(&mut s, address as u128);
                s
            },
            AddressData::Indexed(address, index) => {
                let mut s = String::from_str("r");
                push_decimal(&mut s, address as u128);
                s.append("[r");
                push_decimal(&mut s, index as u128);
                s.append("]");
                s
            },
        }
    }
}

} // verus!
