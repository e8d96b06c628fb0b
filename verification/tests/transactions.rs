use blockchain::transactions::transaction::SUBSIDY;
use blockchain::{hash_to_str, serialize, Encode, Transaction, Txinput, Txoutput};

type TxTuple = (String, Vec<(String, usize, String)>, Vec<(i32, String)>);

fn bincode_of(t: &TxTuple) -> Vec<u8> {
    bincode::serialize(t).unwrap()
}

fn id_of(vin: Vec<(String, usize, String)>, vout: Vec<(i32, String)>) -> String {
    hash_to_str(&bincode_of(&(String::new(), vin, vout)))
}

#[test]
fn txinput_fields_and_unlock() {
    let input = Txinput::new("abc".to_string(), 3, "alice");
    assert_eq!(input.get_txid(), "abc");
    assert_eq!(input.get_vout(), 3);
    assert_eq!(input.get_from_addr(), "alice");
    assert!(input.can_unlock_output("alice"));
    assert!(!input.can_unlock_output("bob"));
    assert!(!input.can_unlock_output(""));
}

#[test]
fn txinput_default_is_empty() {
    let input = Txinput::default();
    assert_eq!(input.get_txid(), "");
    assert_eq!(input.get_vout(), 0);
    assert!(input.can_unlock_output(""));
}

#[test]
fn txoutput_fields_and_lock() {
    let output = Txoutput::new(-7, "bob");
    assert_eq!(output.get_value(), -7);
    assert!(output.is_locked("bob"));
    assert!(!output.is_locked("bo"));
    assert_eq!(output.get_to_addr(), "bob");
}

#[test]
fn txinput_bytes_match_bincode() {
    let input = Txinput::new("tx1".to_string(), 258, "héllo");
    let expected = bincode::serialize(&("tx1".to_string(), 258usize, "héllo".to_string())).unwrap();
    assert_eq!(input.encode(), expected);
    assert_eq!(serialize(&input), expected);
}

#[test]
fn txoutput_bytes_match_bincode() {
    let output = Txoutput::new(-2, "bob");
    let expected = bincode::serialize(&(-2i32, "bob".to_string())).unwrap();
    assert_eq!(output.encode(), expected);
    assert_eq!(
        expected,
        vec![0xfe, 0xff, 0xff, 0xff, 3, 0, 0, 0, 0, 0, 0, 0, b'b', b'o', b'b']
    );
}

#[test]
fn coinbase_pays_subsidy() {
    let tx = Transaction::new_coinbase("miner");
    assert_eq!(SUBSIDY, 10);
    assert_eq!(tx.get_vin().len(), 1);
    assert_eq!(tx.get_vin()[0].get_txid(), "");
    assert_eq!(tx.get_vin()[0].get_vout(), 0);
    assert_eq!(tx.get_vout().len(), 1);
    assert_eq!(tx.get_vout()[0].get_value(), 10);
    assert!(tx.get_vout()[0].is_locked("miner"));
    let expected = id_of(
        vec![(String::new(), 0, String::new())],
        vec![(10, "miner".to_string())],
    );
    assert_eq!(tx.get_id(), expected);
    assert_eq!(tx.get_id().len(), 64);
}

#[test]
fn transaction_bytes_match_bincode() {
    let tx = Transaction::new_coinbase("miner");
    let t: TxTuple = (
        tx.get_id(),
        vec![(String::new(), 0, String::new())],
        vec![(10, "miner".to_string())],
    );
    assert_eq!(tx.encode(), bincode_of(&t));
}

#[test]
fn utxo_with_change() {
    let outs = vec![
        ("t1".to_string(), vec![0usize, 2]),
        ("t2".to_string(), vec![1usize]),
    ];
    let tx = Transaction::new_utxo("alice", "bob", 4, 10, &outs);
    let vin = tx.get_vin();
    assert_eq!(vin.len(), 3);
    assert_eq!((vin[0].get_txid(), vin[0].get_vout()), ("t1".to_string(), 0));
    assert_eq!((vin[1].get_txid(), vin[1].get_vout()), ("t1".to_string(), 2));
    assert_eq!((vin[2].get_txid(), vin[2].get_vout()), ("t2".to_string(), 1));
    assert!(vin.iter().all(|i| i.can_unlock_output("alice")));
    let vout = tx.get_vout();
    assert_eq!(vout.len(), 2);
    assert_eq!(vout[0].get_value(), 4);
    assert_eq!(vout[1].get_value(), 6);
    assert!(vout[0].is_locked("bob"));
    assert!(vout[1].is_locked("bob"));
    let expected = id_of(
        vec![
            ("t1".to_string(), 0, "alice".to_string()),
            ("t1".to_string(), 2, "alice".to_string()),
            ("t2".to_string(), 1, "alice".to_string()),
        ],
        vec![(4, "bob".to_string()), (6, "bob".to_string())],
    );
    assert_eq!(tx.get_id(), expected);
}

#[test]
fn utxo_exact_amount_has_no_change() {
    let outs = vec![("t1".to_string(), vec![5usize])];
    let tx = Transaction::new_utxo("alice", "bob", 3, 3, &outs);
    assert_eq!(tx.get_vout().len(), 1);
    assert_eq!(tx.get_vout()[0].get_value(), 3);
}

#[test]
fn utxo_short_of_funds_is_built_all_the_same() {
    let outs: Vec<(String, Vec<usize>)> = vec![];
    let tx = Transaction::new_utxo("alice", "bob", 5, 2, &outs);
    assert_eq!(tx.get_vin().len(), 0);
    assert_eq!(tx.get_vout().len(), 1);
    assert_eq!(tx.get_vout()[0].get_value(), 5);
    assert_eq!(tx.get_id(), id_of(vec![], vec![(5, "bob".to_string())]));
}

#[test]
fn payment_total_is_larger_of_amount_and_accumulated() {
    let outs = vec![("t".to_string(), vec![0usize])];
    for (amount, acc) in [(4, 10), (10, 4), (7, 7), (-3, 2)] {
        let tx = Transaction::new_utxo("a", "b", amount, acc, &outs);
        let total: i64 = tx.get_vout().iter().map(|o| o.get_value() as i64).sum();
        assert_eq!(total, std::cmp::max(amount, acc) as i64);
    }
}

#[test]
fn same_contents_same_id() {
    let a = Transaction::new_coinbase("x");
    let b = Transaction::new_coinbase("x");
    let c = Transaction::new_coinbase("y");
    assert_eq!(a.get_id(), b.get_id());
    assert_ne!(a.get_id(), c.get_id());
}

#[test]
fn default_transaction_is_empty() {
    let tx = Transaction::default();
    assert_eq!(tx.get_id(), "");
    assert!(tx.get_vin().is_empty());
    assert!(tx.get_vout().is_empty());
}
