use vstd::prelude::*;

use crate::transactions::tx_input::{Txinput, TxinputView};
use crate::transactions::tx_output::{Txoutput, TxoutputView};
use crate::utils::serializer::{
    Encode, append_bytes, encode_str, encode_u64, hash_hex, hash_to_str, serialize, str_bytes,
    u64_bytes,
};

verus! {

/// The reward of mining a block, paid by a coinbase transaction.
pub const SUBSIDY: i32 = 10;

/// The bytes of a run of inputs, one after the other.
pub open spec fn inputs_bytes(s: Seq<TxinputView>) -> Seq<u8>
    decreases s.len(),
{
    if s.len() == 0 {
        seq![]
    } else {
        inputs_bytes(s.drop_last()) + s.last().encoded()
    }
}

/// The bytes of a run of outputs, one after the other.
pub open spec fn outputs_bytes(s: Seq<TxoutputView>) -> Seq<u8>
    decreases s.len(),
{
    if s.len() == 0 {
        seq![]
    } else {
        outputs_bytes(s.drop_last()) + s.last().encoded()
    }
}

/// What a transaction is: its id, its inputs and its outputs.
pub struct TransactionView {
    /// The id: the hash of the transaction's bytes taken with an empty id.
    pub id: Seq<char>,
    /// The inputs, in order.
    pub vin: Seq<TxinputView>,
    /// The outputs, in order.
    pub vout: Seq<TxoutputView>,
}

impl TransactionView {
    /// The bytes of the transaction: the id, then the inputs and the
    /// outputs, each run preceded by its length as a `u64`.
    pub open spec fn encoded(self) -> Seq<u8> {
        str_bytes(self.id) + u64_bytes(self.vin.len() as u64) + inputs_bytes(self.vin)
            + u64_bytes(self.vout.len() as u64) + outputs_bytes(self.vout)
    }

    /// The same transaction with an empty id.
    pub open spec fn unsealed(self) -> TransactionView {
        TransactionView { id: Seq::empty(), vin: self.vin, vout: self.vout }
    }

    /// The id a transaction with these inputs and outputs gets.
    pub open spec fn sealed_id(self) -> Seq<char> {
        hash_hex(self.unsealed().encoded())
    }
}

/// The inputs that spend the listed outputs: for each `(txid, indices)`
/// in order, one input per index, each on behalf of `from`.
pub open spec fn spending_inputs(outs: Seq<(Seq<char>, Seq<usize>)>, from: Seq<char>) -> Seq<
    TxinputView,
>
    decreases outs.len(),
{
    if outs.len() == 0 {
        seq![]
    } else {
        spending_inputs(outs.drop_last(), from) + spending_run(outs.last().0, outs.last().1, from)
    }
}

/// One input per index of `indices`, each spending that output of `txid`.
pub open spec fn spending_run(txid: Seq<char>, indices: Seq<usize>, from: Seq<char>) -> Seq<
    TxinputView,
> {
    indices.map_values(|i: usize| TxinputView { txid: txid, vout: i, from_addr: from })
}

/// The outputs of a payment of `amount` to `to` out of `accumulated`:
/// the amount, then, where `accumulated` exceeds it, the remainder, also to `to`.
pub open spec fn payment_outputs(to: Seq<char>, amount: i32, accumulated: i32) -> Seq<
    TxoutputView,
> {
    if accumulated > amount {
        seq![
            TxoutputView { value: amount, to_addr: to },
            TxoutputView { value: (accumulated - amount) as i32, to_addr: to },
        ]
    } else {
        seq![TxoutputView { value: amount, to_addr: to }]
    }
}

/// How many outputs the list names: the number of indices over all its entries.
pub open spec fn listed_count(outs: Seq<(Seq<char>, Seq<usize>)>) -> nat
    decreases outs.len(),
{
    if outs.len() == 0 {
        0
    } else {
        listed_count(outs.drop_last()) + outs.last().1.len()
    }
}

/// The sum of the values of `s`.
pub open spec fn outputs_total(s: Seq<TxoutputView>) -> int
    decreases s.len(),
{
    if s.len() == 0 {
        0
    } else {
        outputs_total(s.drop_last()) + s.last().value
    }
}

/// A transaction: inputs that spend earlier outputs, and new outputs.
#[derive(Debug, Clone)]
pub struct Transaction {
    id: String,
    vin: Vec<Txinput>,
    vout: Vec<Txoutput>,
}

impl View for Transaction {
    type V = TransactionView;

    closed spec fn view(&self) -> TransactionView {
        TransactionView {
            id: self.id@,
            vin: self.vin@.map_values(|x: Txinput| x@),
            vout: self.vout@.map_values(|x: Txoutput| x@),
        }
    }
}

impl Encode for Transaction {
    open spec fn encoding(&self) -> Seq<u8> {
        self@.encoded()
    }

    fn encode(&self) -> (r: Vec<u8>) {
        let mut out = encode_str(self.id.as_str());
        let ghost head = out@;
        append_bytes(&mut out, encode_u64(self.vin.len() as u64));
        let ghost vin = self@.vin;
        let ghost start = out@;
        for i in 0..self.vin.len()
            invariant
                vin == self@.vin,
                vin.len() == self.vin@.len(),
                out@ == start + inputs_bytes(vin.take(i as int)),
        {
            proof {
                assert(vin.take(i + 1).drop_last() =~= vin.take(i as int));
                assert(vin[i as int] == self.vin@[i as int]@);
            }
            append_bytes(&mut out, self.vin[i].encode());
        }
        proof {
            assert(vin.take(vin.len() as int) =~= vin);
        }
        append_bytes(&mut out, encode_u64(self.vout.len() as u64));
        let ghost vout = self@.vout;
        let ghost mid = out@;
        for i in 0..self.vout.len()
            invariant
                vout == self@.vout,
                vout.len() == self.vout@.len(),
                out@ == mid + outputs_bytes(vout.take(i as int)),
        {
            proof {
                assert(vout.take(i + 1).drop_last() =~= vout.take(i as int));
                assert(vout[i as int] == self.vout@[i as int]@);
            }
            append_bytes(&mut out, self.vout[i].encode());
        }
        proof {
            assert(vout.take(vout.len() as int) =~= vout);
            assert(out@ =~= self@.encoded());
        }
        out
    }
}

impl Default for Transaction {
    /// The transaction with an empty id, no inputs and no outputs.
    fn default() -> (r: Self)
        ensures
            r@ == (TransactionView { id: Seq::empty(), vin: Seq::empty(), vout: Seq::empty() }),
    {
        let r = Transaction { id: String::new(), vin: Vec::new(), vout: Vec::new() };
        assert(r@.vin =~= Seq::empty());
        assert(r@.vout =~= Seq::empty());
        r
    }
}

impl Transaction {
    /// The coinbase transaction of a block: no spent output, one default
    /// input, and one output of the mining reward to `to`.
    pub fn new_coinbase(to: &str) -> (r: Self)
        ensures
            r@.vin == seq![TxinputView { txid: Seq::empty(), vout: 0, from_addr: Seq::empty() }],
            r@.vout == seq![TxoutputView { value: SUBSIDY, to_addr: to@ }],
            r@.id == r@.sealed_id(),
    {
        let txin = Txinput::default();
        let txout = Txoutput::new(SUBSIDY, to);
        let mut tx = Transaction { id: String::new(), vin: vec![txin], vout: vec![txout] };
        assert(tx@.vin =~= seq![txin@]);
        assert(tx@.vout =~= seq![txout@]);
        assert(tx@ == tx@.unsealed());
        tx.set_hash();
        tx
    }

    /// A payment of `amount` from `from` to `to`. `accumulated` and
    /// `valid_outputs` are what the spendable outputs of `from` came to: their
    /// total, and for each transaction the indices of its outputs to spend.
    /// Each listed output becomes an input; the outputs are the amount and,
    /// where `accumulated` exceeds it, the remainder, both to `to`. Where
    /// `accumulated` falls short of `amount` the transaction is built all the same.
    pub fn new_utxo(
        from: &str,
        to: &str,
        amount: i32,
        accumulated: i32,
        valid_outputs: &Vec<(String, Vec<usize>)>,
    ) -> (r: Self)
        requires
            accumulated > amount ==> accumulated - amount <= i32::MAX,
        ensures
            r@.vin == spending_inputs(valid_outputs.deep_view(), from@),
            r@.vout == payment_outputs(to@, amount, accumulated),
            r@.id == r@.sealed_id(),
            r@.vin.len() == listed_count(valid_outputs.deep_view()),
            forall|k: int, j: int|
                #![trigger valid_outputs.deep_view()[k].1[j]]
                0 <= k < valid_outputs@.len() && 0 <= j < valid_outputs.deep_view()[k].1.len()
                    ==> r@.vin[listed_count(valid_outputs.deep_view().take(k)) + j] == (
                TxinputView {
                    txid: valid_outputs.deep_view()[k].0,
                    vout: valid_outputs.deep_view()[k].1[j],
                    from_addr: from@,
                }),
            forall|i: int| 0 <= i < r@.vout.len() ==> (#[trigger] r@.vout[i]).to_addr == to@,
            r@.vout[0].value == amount,
            accumulated > amount ==> r@.vout.len() == 2 && r@.vout[1].value == accumulated - amount,
            accumulated <= amount ==> r@.vout.len() == 1,
    {
        proof {
            lemma_spending_inputs_layout(valid_outputs.deep_view(), from@);
            lemma_payment_outputs(to@, amount, accumulated);
        }
        let ghost outs = valid_outputs.deep_view();
        let mut inputs: Vec<Txinput> = Vec::new();
        let n = valid_outputs.len();
        for k in 0..n
            invariant
                n == valid_outputs@.len(),
                outs == valid_outputs.deep_view(),
                inputs@.map_values(|x: Txinput| x@) == spending_inputs(outs.take(k as int), from@),
        {
            let txid = &valid_outputs[k].0;
            let indices = &valid_outputs[k].1;
            let ghost before = inputs@.map_values(|x: Txinput| x@);
            proof {
                assert(outs[k as int].0 == txid@);
                assert(outs[k as int].1 == indices@);
            }
            let m = indices.len();
            for j in 0..m
                invariant
                    m == indices@.len(),
                    inputs@.map_values(|x: Txinput| x@) == before + spending_run(
                        txid@,
                        indices@.take(j as int),
                        from@,
                    ),
            {
                let input = Txinput::new(txid.clone(), indices[j], from);
                let ghost prev = inputs@;
                inputs.push(input);
                proof {
                    assert(inputs@.map_values(|x: Txinput| x@) =~= prev.map_values(
                        |x: Txinput| x@,
                    ).push(input@));
                    assert(spending_run(txid@, indices@.take(j + 1), from@) =~= spending_run(
                        txid@,
                        indices@.take(j as int),
                        from@,
                    ).push(input@));
                }
            }
            proof {
                assert(indices@.take(m as int) =~= indices@);
                assert(outs.take(k + 1).drop_last() =~= outs.take(k as int));
                assert(outs.take(k + 1).last() == outs[k as int]);
            }
        }
        proof {
            assert(outs.take(n as int) =~= outs);
        }
        let mut outputs = vec![Txoutput::new(amount, to)];
        if accumulated > amount {
            outputs.push(Txoutput::new(accumulated - amount, to));
        }
        let mut tx = Transaction { id: String::new(), vin: inputs, vout: outputs };
        assert(tx@.vout =~= payment_outputs(to@, amount, accumulated));
        assert(tx@ == tx@.unsealed());
        tx.set_hash();
        tx
    }

    /// Sets the id to the hash of the transaction's bytes as they are now.
    fn set_hash(&mut self)
        ensures
            final(self)@ == (TransactionView {
                id: hash_hex(old(self)@.encoded()),
                vin: old(self)@.vin,
                vout: old(self)@.vout,
            }),
    {
        let bytes = serialize(&*self);
        self.id = hash_to_str(bytes.as_slice());
    }

    /// The id.
    pub fn get_id(&self) -> (r: String)
        ensures
            r@ == self@.id,
    {
        self.id.clone()
    }

    /// The outputs.
    pub fn get_vout(&self) -> (r: &[Txoutput])
        ensures
            r@.map_values(|x: Txoutput| x@) == self@.vout,
    {
        self.vout.as_slice()
    }

    /// The inputs.
    pub fn get_vin(&self) -> (r: &[Txinput])
        ensures
            r@.map_values(|x: Txinput| x@) == self@.vin,
    {
        self.vin.as_slice()
    }
}

/// The outputs of a payment are worth the larger of the amount and what
/// was accumulated: the remainder, where there is one, adds up to it.
pub proof fn lemma_payment_total(to: Seq<char>, amount: i32, accumulated: i32)
    requires
        accumulated > amount ==> accumulated - amount <= i32::MAX,
    ensures
        outputs_total(payment_outputs(to, amount, accumulated)) == if accumulated > amount {
            accumulated as int
        } else {
            amount as int
        },
{
    let s = payment_outputs(to, amount, accumulated);
    reveal_with_fuel(outputs_total, 3);
    if accumulated > amount {
        assert(s.drop_last().drop_last() =~= Seq::<TxoutputView>::empty());
    } else {
        assert(s.drop_last() =~= Seq::<TxoutputView>::empty());
    }
}

/// Every input of a payment is spent on behalf of its payer, and spends
/// one of the listed outputs.
pub proof fn lemma_spending_inputs_payer(outs: Seq<(Seq<char>, Seq<usize>)>, from: Seq<char>)
    ensures
        forall|k: int|
            0 <= k < spending_inputs(outs, from).len() ==> (#[trigger] spending_inputs(
                outs,
                from,
            )[k]).from_addr == from,
    decreases outs.len(),
{
    if outs.len() > 0 {
        lemma_spending_inputs_payer(outs.drop_last(), from);
        let a = spending_inputs(outs.drop_last(), from);
        let b = spending_run(outs.last().0, outs.last().1, from);
        assert forall|k: int| 0 <= k < spending_inputs(outs, from).len() implies (
        #[trigger] spending_inputs(outs, from)[k]).from_addr == from by {
            if k < a.len() {
                assert(spending_inputs(outs, from)[k] == a[k]);
            } else {
                assert(spending_inputs(outs, from)[k] == b[k - a.len()]);
            }
        }
    }
}

/// The inputs of a payment are the listed outputs, each once, in order:
/// as many inputs as indices are listed, and the `j`-th index of entry `k`
/// is spent by the input that comes after the inputs of the entries before `k`.
pub proof fn lemma_spending_inputs_layout(outs: Seq<(Seq<char>, Seq<usize>)>, from: Seq<char>)
    ensures
        spending_inputs(outs, from).len() == listed_count(outs),
        forall|k: int, j: int|
            #![trigger outs[k].1[j]]
            0 <= k < outs.len() && 0 <= j < outs[k].1.len() ==> spending_inputs(outs, from)[
            listed_count(outs.take(k)) + j] == (TxinputView {
                txid: outs[k].0,
                vout: outs[k].1[j],
                from_addr: from,
            }),
    decreases outs.len(),
{
    if outs.len() > 0 {
        let p = outs.drop_last();
        lemma_spending_inputs_layout(p, from);
        let a = spending_inputs(p, from);
        let b = spending_run(outs.last().0, outs.last().1, from);
        assert(spending_inputs(outs, from) == a + b);
        assert forall|k: int, j: int|
            #![trigger outs[k].1[j]]
            0 <= k < outs.len() && 0 <= j < outs[k].1.len() implies spending_inputs(outs, from)[
            listed_count(outs.take(k)) + j] == (TxinputView {
                txid: outs[k].0,
                vout: outs[k].1[j],
                from_addr: from,
            }) by {
            if k < p.len() {
                assert(outs.take(k) =~= p.take(k));
                assert(p[k] == outs[k]);
                lemma_listed_count_prefix(p, k);
                let _ = p[k].1[j];
            } else {
                assert(outs.take(k) =~= p);
                assert(b[j] == (TxinputView { txid: outs[k].0, vout: outs[k].1[j], from_addr: from }));
            }
        }
    }
}

/// The entries before `k` name no more outputs than the whole list, and fewer
/// than the entries up to and including `k`.
pub proof fn lemma_listed_count_prefix(outs: Seq<(Seq<char>, Seq<usize>)>, k: int)
    requires
        0 <= k < outs.len(),
    ensures
        listed_count(outs.take(k)) + outs[k].1.len() <= listed_count(outs),
    decreases outs.len(),
{
    let p = outs.drop_last();
    if k < p.len() {
        lemma_listed_count_prefix(p, k);
        assert(outs.take(k) =~= p.take(k));
    } else {
        assert(outs.take(k) =~= p);
    }
}

/// Every output of a payment is locked to the receiver; the first pays the
/// amount, and the second, which there is exactly when more was accumulated
/// than the amount, pays the remainder.
pub proof fn lemma_payment_outputs(to: Seq<char>, amount: i32, accumulated: i32)
    requires
        accumulated > amount ==> accumulated - amount <= i32::MAX,
    ensures
        forall|i: int|
            0 <= i < payment_outputs(to, amount, accumulated).len() ==> (
            #[trigger] payment_outputs(to, amount, accumulated)[i]).to_addr == to,
        payment_outputs(to, amount, accumulated)[0].value == amount,
        accumulated > amount ==> payment_outputs(to, amount, accumulated).len() == 2
            && payment_outputs(to, amount, accumulated)[1].value == accumulated - amount,
        accumulated <= amount ==> payment_outputs(to, amount, accumulated).len() == 1,
{
}

/// The bytes of two runs of inputs one after the other are the bytes of the
/// first run followed by those of the second.
pub proof fn lemma_inputs_bytes_concat(a: Seq<TxinputView>, b: Seq<TxinputView>)
    ensures
        inputs_bytes(a + b) == inputs_bytes(a) + inputs_bytes(b),
    decreases b.len(),
{
    if b.len() == 0 {
        assert(a + b =~= a);
        assert(inputs_bytes(a) + inputs_bytes(b) =~= inputs_bytes(a));
    } else {
        lemma_inputs_bytes_concat(a, b.drop_last());
        assert((a + b).drop_last() =~= a + b.drop_last());
        assert((a + b).last() == b.last());
        assert(inputs_bytes(a + b) =~= inputs_bytes(a) + inputs_bytes(b));
    }
}

/// Every input is written, in its place: the bytes of a run are those of
/// the inputs before the `i`-th, then the `i`-th input's, then the rest.
pub proof fn lemma_inputs_bytes_each(s: Seq<TxinputView>, i: int)
    requires
        0 <= i < s.len(),
    ensures
        inputs_bytes(s) == inputs_bytes(s.take(i)) + s[i].encoded() + inputs_bytes(s.skip(i + 1)),
{
    let one = seq![s[i]];
    assert(one.drop_last() =~= Seq::<TxinputView>::empty());
    reveal_with_fuel(inputs_bytes, 2);
    assert(inputs_bytes(one) =~= s[i].encoded());
    assert(s =~= s.take(i) + one + s.skip(i + 1));
    lemma_inputs_bytes_concat(s.take(i) + one, s.skip(i + 1));
    lemma_inputs_bytes_concat(s.take(i), one);
}

/// The bytes of two runs of outputs one after the other are the bytes of
/// the first run followed by those of the second.
pub proof fn lemma_outputs_bytes_concat(a: Seq<TxoutputView>, b: Seq<TxoutputView>)
    ensures
        outputs_bytes(a + b) == outputs_bytes(a) + outputs_bytes(b),
    decreases b.len(),
{
    if b.len() == 0 {
        assert(a + b =~= a);
        assert(outputs_bytes(a) + outputs_bytes(b) =~= outputs_bytes(a));
    } else {
        lemma_outputs_bytes_concat(a, b.drop_last());
        assert((a + b).drop_last() =~= a + b.drop_last());
        assert((a + b).last() == b.last());
        assert(outputs_bytes(a + b) =~= outputs_bytes(a) + outputs_bytes(b));
    }
}

/// Every output is written, in its place: the bytes of a run are those of
/// the outputs before the `i`-th, then the `i`-th output's, then the rest.
pub proof fn lemma_outputs_bytes_each(s: Seq<TxoutputView>, i: int)
    requires
        0 <= i < s.len(),
    ensures
        outputs_bytes(s) == outputs_bytes(s.take(i)) + s[i].encoded() + outputs_bytes(
            s.skip(i + 1),
        ),
{
    let one = seq![s[i]];
    assert(one.drop_last() =~= Seq::<TxoutputView>::empty());
    reveal_with_fuel(outputs_bytes, 2);
    assert(outputs_bytes(one) =~= s[i].encoded());
    assert(s =~= s.take(i) + one + s.skip(i + 1));
    lemma_outputs_bytes_concat(s.take(i) + one, s.skip(i + 1));
    lemma_outputs_bytes_concat(s.take(i), one);
}

} // verus!
