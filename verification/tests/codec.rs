use ledger_tx::codec::{decode_transaction, encode_transaction};
use ledger_tx::crypto::{KeyPair, PublicKey, Signature};
use ledger_tx::plan::{Payment, Plan, Timestamp};
use ledger_tx::transaction::Transaction;

fn zero_claim(tokens: i64) -> Transaction {
    Transaction {
        from: Default::default(),
        plan: Plan::Pay(Payment { tokens, to: Default::default() }),
        tokens,
        last_id: Default::default(),
        sig: Default::default(),
    }
}

#[test]
fn test_serialize_claim() {
    let plan = Plan::Pay(Payment { tokens: 0, to: Default::default() });
    let claim0 = Transaction {
        from: Default::default(),
        plan,
        tokens: 0,
        last_id: Default::default(),
        sig: Default::default(),
    };
    let buf = encode_transaction(&claim0);
    let claim1: Transaction = decode_transaction(&buf).unwrap();
    assert_eq!(claim1, claim0);
}

#[test]
fn test_round_trip_signed_transfer() {
    let keypair = KeyPair::new();
    let to = KeyPair::new().pubkey();
    let tr0 = Transaction::new(&keypair, to, 42, ledger_tx::crypto::Hash::default());
    let buf = encode_transaction(&tr0);
    let tr1 = decode_transaction(&buf).unwrap();
    assert_eq!(tr1, tr0);
    assert!(tr1.verify());
}

#[test]
fn test_round_trip_postdated() {
    let keypair = KeyPair::new();
    let to = KeyPair::new().pubkey();
    let when = Timestamp { secs: -12_345, nanos: 999_999_999 };
    let tr0 = Transaction::new_on_date(&keypair, to, when, -7, ledger_tx::crypto::Hash::default());
    let buf = encode_transaction(&tr0);
    let tr1 = decode_transaction(&buf).unwrap();
    assert_eq!(tr1, tr0);
}

#[test]
fn test_encode_zero_claim_exact_bytes() {
    // 32 (from) + 1 (plan tag) + 8 + 32 (payment) + 8 (tokens) + 32 (last_id)
    // + 64 (sig), every field zero.
    let buf = encode_transaction(&zero_claim(0));
    assert_eq!(buf, vec![0u8; 177]);
}

#[test]
fn test_encode_claim_offsets() {
    let buf = encode_transaction(&zero_claim(42));
    assert_eq!(buf.len(), 177);
    assert_eq!(buf[32], 0); // Pay tag
    assert_eq!(buf[33], 42); // payment amount, little-endian
    assert_eq!(buf[73], 42); // authorized amount, little-endian
    assert_eq!(buf[34..41], [0u8; 7]);
}

#[test]
fn test_decode_rejects_garbage() {
    assert!(decode_transaction(&vec![]).is_none());
    assert!(decode_transaction(&vec![0u8; 31]).is_none()); // sender cut short
    assert!(decode_transaction(&vec![0u8; 176]).is_none()); // signature cut short
    assert!(decode_transaction(&vec![0u8; 178]).is_none()); // trailing byte
    let mut buf = vec![0u8; 177];
    buf[32] = 7; // unknown plan tag
    assert!(decode_transaction(&buf).is_none());
}

#[test]
fn test_from_bytes_checks_length() {
    assert!(PublicKey::from_bytes(vec![1u8; 31]).is_none());
    assert!(PublicKey::from_bytes(vec![1u8; 32]).is_some());
    assert!(Signature::from_bytes(vec![1u8; 64]).is_some());
    assert!(Signature::from_bytes(vec![1u8; 65]).is_none());
    assert!(ledger_tx::crypto::Hash::from_bytes(vec![1u8; 32]).is_some());
    assert!(ledger_tx::crypto::Hash::from_bytes(vec![]).is_none());
}

#[test]
fn test_default_values_are_zero() {
    assert_eq!(PublicKey::default().bytes(), &vec![0u8; 32]);
    assert_eq!(Signature::default().bytes(), &vec![0u8; 64]);
    assert_eq!(ledger_tx::crypto::Hash::default().bytes(), &vec![0u8; 32]);
}
