use vstd::prelude::*;

use crate::utils::serializer::{Encode, append_bytes, encode_i32, encode_str, i32_bytes, str_bytes};

verus! {

/// What an output is: an amount and the address it is locked to.
pub struct TxoutputView {
    /// The amount.
    pub value: i32,
    /// Address of the receiver.
    pub to_addr: Seq<char>,
}

impl TxoutputView {
    /// The bytes of the output: its fields in order.
    pub open spec fn encoded(self) -> Seq<u8> {
        i32_bytes(self.value) + str_bytes(self.to_addr)
    }
}

/// An output of a transaction: an amount locked to an address.
#[derive(Debug, Clone)]
pub struct Txoutput {
    value: i32,
    to_addr: String,
}

impl View for Txoutput {
    type V = TxoutputView;

    closed spec fn view(&self) -> TxoutputView {
        TxoutputView { value: self.value, to_addr: self.to_addr@ }
    }
}

impl Txoutput {
    /// An output of `value` locked to `to_addr`.
    pub fn new(value: i32, to_addr: &str) -> (r: Self)
        ensures
            r@ == (TxoutputView { value: value, to_addr: to_addr@ }),
    {
        Txoutput { value, to_addr: to_addr.to_owned() }
    }

    /// Whether the output is locked to `address`.
    pub fn is_locked(&self, address: &str) -> (r: bool)
        ensures
            r == (self@.to_addr == address@),
    {
        let other = address.to_owned();
        self.to_addr == other
    }

    /// The amount.
    pub fn get_value(&self) -> (r: i32)
        ensures
            r == self@.value,
    {
        self.value
    }

    /// The receiver's address.
    pub fn get_to_addr(&self) -> (r: String)
        ensures
            r@ == self@.to_addr,
    {
        self.to_addr.clone()
    }
}

impl Default for Txoutput {
    /// The output of 0 with an empty address.
    fn default() -> (r: Self)
        ensures
            r@ == (TxoutputView { value: 0, to_addr: Seq::empty() }),
    {
        Txoutput { value: 0, to_addr: String::new() }
    }
}

impl Encode for Txoutput {
    open spec fn encoding(&self) -> Seq<u8> {
        self@.encoded()
    }

    fn encode(&self) -> (r: Vec<u8>) {
        let mut out = encode_i32(self.value);
        append_bytes(&mut out, encode_str(self.to_addr.as_str()));
        out
    }
}

} // verus!
