use vstd::prelude::*;

use crate::utils::serializer::{Encode, append_bytes, encode_str, encode_u64, str_bytes, u64_bytes};

verus! {

/// What an input is: the output it spends and who spends it.
pub struct TxinputView {
    /// Id of the transaction whose output is spent.
    pub txid: Seq<char>,
    /// Index of that output in its transaction.
    pub vout: usize,
    /// Address of the spender.
    pub from_addr: Seq<char>,
}

impl TxinputView {
    /// The bytes of the input: its fields in order.
    pub open spec fn encoded(self) -> Seq<u8> {
        str_bytes(self.txid) + u64_bytes(self.vout as u64) + str_bytes(self.from_addr)
    }
}

/// An input of a transaction: a reference to an output of an earlier one.
#[derive(Debug, Clone)]
pub struct Txinput {
    txid: String,
    vout: usize,
    from_addr: String,
}

impl View for Txinput {
    type V = TxinputView;

    closed spec fn view(&self) -> TxinputView {
        TxinputView { txid: self.txid@, vout: self.vout, from_addr: self.from_addr@ }
    }
}

impl Txinput {
    /// An input that spends output `vout` of transaction `txid`, on behalf of `from_addr`.
    pub fn new(txid: String, vout: usize, from_addr: &str) -> (r: Self)
        ensures
            r@ == (TxinputView { txid: txid@, vout: vout, from_addr: from_addr@ }),
    {
        Txinput { txid, vout, from_addr: from_addr.to_owned() }
    }

    /// Whether `address` is the spender of this input.
    pub fn can_unlock_output(&self, address: &str) -> (r: bool)
        ensures
            r == (self@.from_addr == address@),
    {
        let other = address.to_owned();
        self.from_addr == other
    }

    /// Id of the transaction whose output is spent.
    pub fn get_txid(&self) -> (r: String)
        ensures
            r@ == self@.txid,
    {
        self.txid.clone()
    }

    /// Index of the spent output.
    pub fn get_vout(&self) -> (r: usize)
        ensures
            r == self@.vout,
    {
        self.vout
    }

    /// The spender's address.
    pub fn get_from_addr(&self) -> (r: String)
        ensures
            r@ == self@.from_addr,
    {
        self.from_addr.clone()
    }
}

impl Default for Txinput {
    /// The input with empty id, index 0 and empty address.
    fn default() -> (r: Self)
        ensures
            r@ == (TxinputView { txid: Seq::empty(), vout: 0, from_addr: Seq::empty() }),
    {
        Txinput { txid: String::new(), vout: 0, from_addr: String::new() }
    }
}

impl Encode for Txinput {
    open spec fn encoding(&self) -> Seq<u8> {
        self@.encoded()
    }

    fn encode(&self) -> (r: Vec<u8>) {
        let mut out = encode_str(self.txid.as_str());
        append_bytes(&mut out, encode_u64(self.vout as u64));
        append_bytes(&mut out, encode_str(self.from_addr.as_str()));
        out
    }
}

} // verus!
