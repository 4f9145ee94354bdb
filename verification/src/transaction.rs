//! Transactions: a sender, an authorized token amount, a spending plan, a
//! freshness marker and a signature, with the canonical sign/verify protocol
//! and the parallel batch verifier.

use vstd::prelude::*;
use vstd::bytes::spec_u64_to_le_bytes;
use rayon::iter::IntoParallelRefIterator;
use rayon::iter::ParallelIterator;
use crate::crypto::{PublicKey, Signature, KeyPair, pk_of, sig_of, sig_ok};
use crate::plan::{Payment, Plan, PlanV, PaymentV, ConditionV, Condition, Timestamp, plan_pays};
use crate::codec::{enc_plan, encode_plan_into, push_u64, append_bytes};

verus! {

/// A signed, conditionally-payable transaction.
#[derive(Debug)]
pub struct Transaction {
    pub from: PublicKey,
    pub plan: Plan,
    pub tokens: i64,
    pub last_id: crate::crypto::Hash,
    pub sig: Signature,
}

/// Mathematical model of a `Transaction`.
#[verifier::ext_equal]
pub ghost struct TransactionV {
    pub from: Seq<u8>,
    pub plan: PlanV,
    pub tokens: i64,
    pub last_id: Seq<u8>,
    pub sig: Seq<u8>,
}

impl View for Transaction {
    type V = TransactionV;

    open spec fn view(&self) -> TransactionV {
        TransactionV {
            from: self.from@,
            plan: self.plan@,
            tokens: self.tokens,
            last_id: self.last_id@,
            sig: self.sig@,
        }
    }
}

impl TransactionV {
    pub open spec fn wf(&self) -> bool {
        self.from.len() == 32 && self.plan.wf() && self.last_id.len() == 32 && self.sig.len()
            == 64
    }
}

/// The canonical sign-data of a transaction: the encoding of exactly
/// `(plan, tokens, last_id)`, in that order. `from` is excluded because the
/// signature itself proves origin; `sig` is excluded because a signature
/// cannot cover itself.
pub open spec fn spec_sign_data(t: TransactionV) -> Seq<u8> {
    enc_plan(t.plan) + spec_u64_to_le_bytes(t.tokens as u64) + t.last_id
}

/// Whether the transaction's signature is a valid signature by `from` over
/// its canonical sign-data.
pub open spec fn sig_valid(t: TransactionV) -> bool {
    sig_ok(t.from, spec_sign_data(t), t.sig)
}

/// Full validity: the signature checks out, and every branch of the plan pays
/// out exactly the authorized amount.
pub open spec fn tx_valid(t: TransactionV) -> bool {
    sig_valid(t) && plan_pays(t.plan, t.tokens)
}

impl Transaction {
    pub open spec fn wf(&self) -> bool {
        self@.wf()
    }

    /// Create and sign a transaction paying `tokens` unconditionally to `to`.
    pub fn new(from_keypair: &KeyPair, to: PublicKey, tokens: i64, last_id: crate::crypto::Hash) -> (r:
        Transaction)
        requires
            from_keypair.wf(),
            to.wf(),
            last_id.wf(),
        ensures
            r.wf(),
            r@.from == pk_of(from_keypair@),
            r@.plan == PlanV::Pay(PaymentV { tokens, to: to@ }),
            r@.tokens == tokens,
            r@.last_id == last_id@,
            tx_valid(r@),
    {
        let from = from_keypair.pubkey();
        let plan = Plan::Pay(Payment { tokens, to });
        let mut tr = Transaction {
            from,
            plan,
            tokens,
            last_id,
            sig: Signature::default(),
        };
        tr.sign(from_keypair);
        tr
    }

    /// Create and sign a postdated transaction: `to` can claim `tokens` once
    /// `when` has passed, while the sender can reclaim them at any earlier
    /// time by presenting their own signature. Both branches pay exactly
    /// `tokens`.
    pub fn new_on_date(
        from_keypair: &KeyPair,
        to: PublicKey,
        when: Timestamp,
        tokens: i64,
        last_id: crate::crypto::Hash,
    ) -> (r: Transaction)
        requires
            from_keypair.wf(),
            to.wf(),
            last_id.wf(),
        ensures
            r.wf(),
            r@.from == pk_of(from_keypair@),
            r@.plan == PlanV::Race(
                (ConditionV::Timestamp(when), PaymentV { tokens, to: to@ }),
                (
                    ConditionV::Signature(pk_of(from_keypair@)),
                    PaymentV { tokens, to: pk_of(from_keypair@) },
                ),
            ),
            r@.tokens == tokens,
            r@.last_id == last_id@,
            tx_valid(r@),
    {
        let from = from_keypair.pubkey();
        let plan = Plan::Race(
            (Condition::Timestamp(when), Payment { tokens, to }),
            (Condition::Signature(from.clone()), Payment { tokens, to: from.clone() }),
        );
        let mut tr = Transaction {
            from,
            plan,
            tokens,
            last_id,
            sig: Signature::default(),
        };
        tr.sign(from_keypair);
        tr
    }

    /// The canonical byte encoding that this transaction's signature covers.
    pub fn get_sign_data(&self) -> (r: Vec<u8>)
        ensures
            r@ == spec_sign_data(self@),
    {
        let mut out: Vec<u8> = Vec::new();
        encode_plan_into(&mut out, &self.plan);
        push_u64(&mut out, #[verifier::truncate] (self.tokens as u64));
        append_bytes(&mut out, self.last_id.bytes());
        proof {
            assert(out@ =~= spec_sign_data(self@));
        }
        out
    }

    /// Sign this transaction: recompute the sign-data from the current field
    /// values and overwrite `sig`. Nothing checks that the signer matches
    /// `from`; a signature by any other key simply fails verification later.
    pub fn sign(&mut self, keypair: &KeyPair)
        requires
            keypair.wf(),
        ensures
            final(self).from == old(self).from,
            final(self).plan == old(self).plan,
            final(self).tokens == old(self).tokens,
            final(self).last_id == old(self).last_id,
            final(self)@.sig == sig_of(keypair@, spec_sign_data(old(self)@)),
            final(self)@.sig.len() == 64,
            sig_ok(pk_of(keypair@), spec_sign_data(final(self)@), final(self)@.sig),
            old(self)@.from == pk_of(keypair@) ==> sig_valid(final(self)@),
    {
        let sign_data = self.get_sign_data();
        self.sig = keypair.sign(&sign_data);
        proof {
            assert(spec_sign_data(self@) == spec_sign_data(old(self)@));
        }
    }

    /// Check this transaction's signature alone.
    pub fn verify_sig(&self) -> (r: bool)
        requires
            self.wf(),
        ensures
            r == sig_valid(self@),
    {
        let sign_data = self.get_sign_data();
        self.sig.verify(&self.from, &sign_data)
    }

    /// Verify this transaction: its signature over the canonical sign-data,
    /// and its spending plan's total payout. Both checks are pure; every
    /// failure class — wrong signer, tampered fields, overspend, underspend —
    /// collapses to `false`.
    pub fn verify(&self) -> (r: bool)
        requires
            self.wf(),
        ensures
            r == tx_valid(self@),
    {
        self.verify_sig() && self.plan.verify(self.tokens)
    }
}

/// Every transaction of the batch is well-formed.
pub open spec fn batch_wf(s: Seq<Transaction>) -> bool {
    forall|i: int| 0 <= i < s.len() ==> (#[trigger] s[i]).wf()
}

/// Every transaction of the batch passes the signature check.
pub open spec fn batch_sigs_valid(s: Seq<Transaction>) -> bool {
    forall|i: int| 0 <= i < s.len() ==> sig_valid((#[trigger] s[i])@)
}

/// Every transaction of the batch passes the plan payout check.
pub open spec fn batch_plans_valid(s: Seq<Transaction>) -> bool {
    forall|i: int| 0 <= i < s.len() ==> plan_pays((#[trigger] s[i])@.plan, s[i]@.tokens)
}

/// Every transaction of the batch is fully valid.
pub open spec fn batch_valid(s: Seq<Transaction>) -> bool {
    batch_sigs_valid(s) && batch_plans_valid(s)
}

/// Relies on rayon's `par_iter().all`: a data-parallel AND-reduction of the
/// verified `verify_sig` over the slice, order-independent because each check
/// is a pure function of its transaction alone.
#[verifier::external_body]
fn par_all_sigs(transactions: &[Transaction]) -> (r: bool)
    requires
        batch_wf(transactions@),
    ensures
        r == batch_sigs_valid(transactions@),
{
    transactions.par_iter().all(|tr| tr.verify_sig())
}

/// Relies on rayon's `par_iter().all`: a data-parallel AND-reduction of the
/// verified `Plan::verify` over the slice.
#[verifier::external_body]
fn par_all_plans(transactions: &[Transaction]) -> (r: bool)
    ensures
        r == batch_plans_valid(transactions@),
{
    transactions.par_iter().all(|tr| tr.plan.verify(tr.tokens))
}

/// Verify a batch of signatures, in parallel. An empty batch is trivially
/// acceptable: the AND over the empty set is `true`.
pub fn verify_signatures(transactions: &[Transaction]) -> (r: bool)
    requires
        batch_wf(transactions@),
    ensures
        r == batch_sigs_valid(transactions@),
{
    par_all_sigs(transactions)
}

/// Verify a batch of spending plans, in parallel. An empty batch is trivially
/// acceptable.
pub fn verify_plans(transactions: &[Transaction]) -> (r: bool)
    ensures
        r == batch_plans_valid(transactions@),
{
    par_all_plans(transactions)
}

/// Verify a batch of transactions: all signature checks and all plan checks
/// must pass. The result for an empty batch is `true`.
pub fn verify_transactions(transactions: &[Transaction]) -> (r: bool)
    requires
        batch_wf(transactions@),
    ensures
        r == batch_valid(transactions@),
{
    verify_signatures(transactions) && verify_plans(transactions)
}

/// Batch composition law: a batch is accepted exactly when both batch-wide
/// passes — all signature checks and all plan checks — accept it.
pub proof fn lemma_batch_composition(s: Seq<Transaction>)
    ensures
        batch_valid(s) == (batch_sigs_valid(s) && batch_plans_valid(s)),
{
}

/// Changing the token amount of a valid transaction, without re-signing,
/// makes verification fail: the unchanged plan still pays out the old amount
/// on every branch, so the payout check rejects the new amount.
pub proof fn lemma_tamper_tokens_rejected(t: TransactionV, tampered: TransactionV)
    requires
        tx_valid(t),
        tampered.plan == t.plan,
        tampered.tokens != t.tokens,
    ensures
        !tx_valid(tampered),
{
}

/// Mutating `plan`, `tokens` or `last_id` of a well-formed transaction
/// changes its canonical sign-data, so the old signature no longer covers the
/// bytes that verification recomputes: substitution of any covered field is
/// caught as a signature mismatch.
pub proof fn lemma_tamper_changes_sign_data(t: TransactionV, tampered: TransactionV)
    requires
        t.wf(),
        tampered.wf(),
        tampered.plan != t.plan || tampered.tokens != t.tokens || tampered.last_id != t.last_id,
    ensures
        spec_sign_data(tampered) != spec_sign_data(t),
{
    if spec_sign_data(tampered) == spec_sign_data(t) {
        crate::codec::lemma_sign_data_injective(t, tampered);
    }
}

/// A transaction whose `Pay` plan moves an amount different from the
/// authorized one — overspend or underspend — never verifies.
pub proof fn lemma_pay_mismatch_never_verifies(t: TransactionV, p: PaymentV)
    requires
        t.plan == PlanV::Pay(p),
        p.tokens != t.tokens,
    ensures
        !tx_valid(t),
{
}

impl Clone for Transaction {
    /// Cloning a transaction keeps its model.
    fn clone(&self) -> (r: Self)
        ensures
            r@ == self@,
    {
        Transaction {
            from: self.from.clone(),
            plan: self.plan.clone(),
            tokens: self.tokens,
            last_id: self.last_id.clone(),
            sig: self.sig.clone(),
        }
    }
}

impl PartialEq for Transaction {
    fn eq(&self, other: &Self) -> (r: bool) {
        self.from == other.from && self.plan == other.plan && self.tokens == other.tokens
            && self.last_id == other.last_id && self.sig == other.sig
    }
}

impl vstd::std_specs::cmp::PartialEqSpecImpl for Transaction {
    open spec fn obeys_eq_spec() -> bool {
        true
    }

    open spec fn eq_spec(&self, other: &Self) -> bool {
        self@ == other@
    }
}

} // verus!
