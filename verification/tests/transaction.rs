use ledger_tx::crypto::{KeyPair, PublicKey};
use ledger_tx::plan::{Payment, Plan, Timestamp};
use ledger_tx::transaction::{verify_plans, verify_signatures, verify_transactions, Transaction};

#[test]
fn test_claim() {
    let keypair = KeyPair::new();
    let zero = ledger_tx::crypto::Hash::default();
    let tr0 = Transaction::new(&keypair, keypair.pubkey(), 42, zero);
    assert!(tr0.verify());
}

#[test]
fn test_transfer() {
    let zero = ledger_tx::crypto::Hash::default();
    let keypair0 = KeyPair::new();
    let keypair1 = KeyPair::new();
    let pubkey1 = keypair1.pubkey();
    let tr0 = Transaction::new(&keypair0, pubkey1, 42, zero);
    assert!(tr0.verify());
}

#[test]
fn test_bad_event_signature() {
    let zero = ledger_tx::crypto::Hash::default();
    let keypair = KeyPair::new();
    let pubkey = keypair.pubkey();
    let mut tr = Transaction::new(&keypair, pubkey, 42, zero);
    tr.sign(&keypair);
    tr.tokens = 1_000_000; // <-- attack!
    assert!(!tr.verify());
}

#[test]
fn test_hijack_attack() {
    let keypair0 = KeyPair::new();
    let keypair1 = KeyPair::new();
    let thief_keypair = KeyPair::new();
    let pubkey1 = keypair1.pubkey();
    let zero = ledger_tx::crypto::Hash::default();
    let mut tr = Transaction::new(&keypair0, pubkey1, 42, zero);
    tr.sign(&keypair0);
    if let Plan::Pay(ref mut payment) = tr.plan {
        payment.to = thief_keypair.pubkey(); // <-- attack!
    };
    assert!(!tr.verify());
}

#[test]
fn test_overspend_attack() {
    let keypair0 = KeyPair::new();
    let keypair1 = KeyPair::new();
    let zero = ledger_tx::crypto::Hash::default();
    let mut tr = Transaction::new(&keypair0, keypair1.pubkey(), 1, zero);
    if let Plan::Pay(ref mut payment) = tr.plan {
        payment.tokens = 2; // <-- attack!
    }
    assert!(!tr.verify());

    // Also, ensure all branchs of the plan spend all tokens
    if let Plan::Pay(ref mut payment) = tr.plan {
        payment.tokens = 0; // <-- whoops!
    }
    assert!(!tr.verify());
}

#[test]
fn test_verify_transactions() {
    let alice_keypair = KeyPair::new();
    let bob_pubkey = KeyPair::new().pubkey();
    let carol_pubkey = KeyPair::new().pubkey();
    let last_id = ledger_tx::crypto::Hash::default();
    let tr0 = Transaction::new(&alice_keypair, bob_pubkey, 1, last_id.clone());
    let tr1 = Transaction::new(&alice_keypair, carol_pubkey, 1, last_id);
    let transactions = vec![tr0, tr1];
    assert!(verify_transactions(&transactions));
}

#[test]
fn test_batch_hijack_rejected() {
    let alice_keypair = KeyPair::new();
    let bob_pubkey = KeyPair::new().pubkey();
    let carol_pubkey = KeyPair::new().pubkey();
    let thief_pubkey = KeyPair::new().pubkey();
    let last_id = ledger_tx::crypto::Hash::default();
    let tr0 = Transaction::new(&alice_keypair, bob_pubkey, 1, last_id.clone());
    let mut tr1 = Transaction::new(&alice_keypair, carol_pubkey, 1, last_id);
    if let Plan::Pay(ref mut payment) = tr1.plan {
        payment.to = thief_pubkey; // <-- attack!
    }
    let transactions = vec![tr0, tr1];
    assert!(!verify_transactions(&transactions));
}

#[test]
fn test_empty_batch_is_accepted() {
    let transactions: Vec<Transaction> = vec![];
    assert!(verify_signatures(&transactions));
    assert!(verify_plans(&transactions));
    assert!(verify_transactions(&transactions));
}

#[test]
fn test_batch_composition() {
    let alice_keypair = KeyPair::new();
    let bob_pubkey = KeyPair::new().pubkey();
    let last_id = ledger_tx::crypto::Hash::default();
    let mut tr0 = Transaction::new(&alice_keypair, bob_pubkey, 7, last_id);
    tr0.tokens = 8; // plan now pays a different amount than authorized
    let transactions = vec![tr0];
    assert_eq!(
        verify_transactions(&transactions),
        verify_signatures(&transactions) && verify_plans(&transactions)
    );
    assert!(!verify_transactions(&transactions));
}

#[test]
fn test_postdated_claim() {
    let keypair = KeyPair::new();
    let recipient = KeyPair::new().pubkey();
    let when = Timestamp { secs: 1_700_000_000, nanos: 500 };
    let zero = ledger_tx::crypto::Hash::default();
    let tr = Transaction::new_on_date(&keypair, recipient, when, 42, zero);
    assert!(tr.verify());
}

#[test]
fn test_postdated_branch_underspend_rejected() {
    let keypair = KeyPair::new();
    let recipient = KeyPair::new().pubkey();
    let when = Timestamp { secs: 1_700_000_000, nanos: 0 };
    let zero = ledger_tx::crypto::Hash::default();
    let mut tr = Transaction::new_on_date(&keypair, recipient, when, 42, zero);
    if let Plan::Race((_, ref mut payment), _) = tr.plan {
        payment.tokens = 41; // <-- whoops!
    }
    assert!(!tr.verify());
}

#[test]
fn test_unsigned_transaction_fails() {
    let keypair = KeyPair::new();
    let tr = Transaction {
        from: keypair.pubkey(),
        plan: Plan::Pay(Payment { tokens: 1, to: KeyPair::new().pubkey() }),
        tokens: 1,
        last_id: ledger_tx::crypto::Hash::default(),
        sig: Default::default(),
    };
    assert!(!tr.verify());
}

#[test]
fn test_sign_data_excludes_from_and_sig() {
    let keypair0 = KeyPair::new();
    let keypair1 = KeyPair::new();
    let to = KeyPair::new().pubkey();
    let zero = ledger_tx::crypto::Hash::default();
    let mut tr0 = Transaction::new(&keypair0, to.clone(), 5, zero.clone());
    let mut tr1 = Transaction::new(&keypair1, to, 5, zero);
    assert_eq!(tr0.get_sign_data(), tr1.get_sign_data());
    // Re-signing with different keys changes `sig` but not the sign-data.
    tr0.sign(&keypair1);
    tr1.sign(&keypair0);
    assert_eq!(tr0.get_sign_data(), tr1.get_sign_data());
}

#[test]
fn test_freshness_marker_covered_by_signature() {
    let keypair = KeyPair::new();
    let to = KeyPair::new().pubkey();
    let mut tr = Transaction::new(&keypair, to, 3, ledger_tx::crypto::Hash::default());
    tr.last_id = ledger_tx::crypto::Hash::from_bytes(vec![9u8; 32]).unwrap(); // <-- replay with a new marker!
    assert!(!tr.verify());
}
