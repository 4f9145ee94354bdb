//! Spending plans: a disbursement specification with one or more conditioned
//! payment branches, and the total-payout check that every reachable branch
//! must pay out exactly the authorized amount.

use vstd::prelude::*;
use crate::crypto::PublicKey;

verus! {

/// A point in time, as seconds and subsecond nanoseconds of a UTC instant.
#[derive(Debug, Clone, Copy, PartialEq, Eq, Structural)]
pub struct Timestamp {
    pub secs: i64,
    pub nanos: u32,
}

/// An unconditional transfer: an amount and a recipient.
#[derive(Debug)]
pub struct Payment {
    pub tokens: i64,
    pub to: PublicKey,
}

/// A predicate gating a branch of a plan: a time threshold, or a signature
/// presented by a given key. How a condition is adjudicated is external to
/// this core; only its declared shape matters here.
#[derive(Debug)]
pub enum Condition {
    Timestamp(Timestamp),
    Signature(PublicKey),
}

/// A tagged disbursement specification.
#[derive(Debug)]
pub enum Plan {
    /// A single unconditional branch.
    Pay(Payment),
    /// Two mutually exclusive conditioned branches; whichever condition is
    /// satisfied first determines the payout.
    Race((Condition, Payment), (Condition, Payment)),
}

/// Mathematical model of a `Payment`.
#[verifier::ext_equal]
pub ghost struct PaymentV {
    pub tokens: i64,
    pub to: Seq<u8>,
}

/// Mathematical model of a `Condition`.
#[verifier::ext_equal]
pub ghost enum ConditionV {
    Timestamp(Timestamp),
    Signature(Seq<u8>),
}

/// Mathematical model of a `Plan`.
#[verifier::ext_equal]
pub ghost enum PlanV {
    Pay(PaymentV),
    Race((ConditionV, PaymentV), (ConditionV, PaymentV)),
}

impl View for Payment {
    type V = PaymentV;

    open spec fn view(&self) -> PaymentV {
        PaymentV { tokens: self.tokens, to: self.to@ }
    }
}

impl View for Condition {
    type V = ConditionV;

    open spec fn view(&self) -> ConditionV {
        match self {
            Condition::Timestamp(t) => ConditionV::Timestamp(*t),
            Condition::Signature(pk) => ConditionV::Signature(pk@),
        }
    }
}

impl View for Plan {
    type V = PlanV;

    open spec fn view(&self) -> PlanV {
        match self {
            Plan::Pay(p) => PlanV::Pay(p@),
            Plan::Race((ca, pa), (cb, pb)) => PlanV::Race((ca@, pa@), (cb@, pb@)),
        }
    }
}

impl PaymentV {
    pub open spec fn wf(&self) -> bool {
        self.to.len() == 32
    }
}

impl ConditionV {
    pub open spec fn wf(&self) -> bool {
        match self {
            ConditionV::Timestamp(_) => true,
            ConditionV::Signature(pk) => pk.len() == 32,
        }
    }
}

impl PlanV {
    pub open spec fn wf(&self) -> bool {
        match self {
            PlanV::Pay(p) => p.wf(),
            PlanV::Race((ca, pa), (cb, pb)) => ca.wf() && pa.wf() && cb.wf() && pb.wf(),
        }
    }
}

/// The total-payout invariant: every branch of the plan pays out exactly
/// `tokens`. If any branch could pay more, whoever controls the adjudicated
/// outcome could overspend the authorization; if any branch could pay less,
/// funds would silently be destroyed.
pub open spec fn plan_pays(p: PlanV, tokens: i64) -> bool {
    match p {
        PlanV::Pay(payment) => payment.tokens == tokens,
        PlanV::Race((_, pa), (_, pb)) => pa.tokens == tokens && pb.tokens == tokens,
    }
}

impl Plan {
    /// Structural check that every branch of this plan pays out exactly
    /// `tokens`.
    pub fn verify(&self, tokens: i64) -> (r: bool)
        ensures
            r == plan_pays(self@, tokens),
    {
        match self {
            Plan::Pay(p) => p.tokens == tokens,
            Plan::Race((_, pa), (_, pb)) => pa.tokens == tokens && pb.tokens == tokens,
        }
    }
}

/// A `Pay` plan whose payment amount differs from the authorized amount —
/// whether greater (overspend) or less (underspend) — fails the payout check.
pub proof fn lemma_pay_mismatch_rejected(p: PaymentV, tokens: i64)
    requires
        p.tokens != tokens,
    ensures
        !plan_pays(PlanV::Pay(p), tokens),
{
}

impl Clone for Payment {
    /// Cloning a payment keeps its amount and recipient.
    fn clone(&self) -> (r: Self)
        ensures
            r@ == self@,
    {
        Payment { tokens: self.tokens, to: self.to.clone() }
    }
}

impl Clone for Condition {
    /// Cloning a condition keeps its model.
    fn clone(&self) -> (r: Self)
        ensures
            r@ == self@,
    {
        match self {
            Condition::Timestamp(t) => Condition::Timestamp(*t),
            Condition::Signature(pk) => Condition::Signature(pk.clone()),
        }
    }
}

impl Clone for Plan {
    /// Cloning a plan keeps its model.
    fn clone(&self) -> (r: Self)
        ensures
            r@ == self@,
    {
        match self {
            Plan::Pay(p) => Plan::Pay(p.clone()),
            Plan::Race((ca, pa), (cb, pb)) => (
                Plan::Race((ca.clone(), pa.clone()), (cb.clone(), pb.clone()))
            ),
        }
    }
}

impl PartialEq for Payment {
    fn eq(&self, other: &Self) -> (r: bool) {
        self.tokens == other.tokens && self.to == other.to
    }
}

impl vstd::std_specs::cmp::PartialEqSpecImpl for Payment {
    open spec fn obeys_eq_spec() -> bool {
        true
    }

    open spec fn eq_spec(&self, other: &Self) -> bool {
        self@ == other@
    }
}

impl PartialEq for Condition {
    fn eq(&self, other: &Self) -> (r: bool) {
        match (self, other) {
            (Condition::Timestamp(a), Condition::Timestamp(b)) => a == b,
            (Condition::Signature(a), Condition::Signature(b)) => a == b,
            _ => false,
        }
    }
}

impl vstd::std_specs::cmp::PartialEqSpecImpl for Condition {
    open spec fn obeys_eq_spec() -> bool {
        true
    }

    open spec fn eq_spec(&self, other: &Self) -> bool {
        self@ == other@
    }
}

impl PartialEq for Plan {
    fn eq(&self, other: &Self) -> (r: bool) {
        match (self, other) {
            (Plan::Pay(a), Plan::Pay(b)) => a == b,
            (Plan::Race((ca, pa), (cb, pb)), Plan::Race((cx, px), (cy, py))) => (
                ca == cx && pa == px && cb == cy && pb == py
            ),
            _ => false,
        }
    }
}

impl vstd::std_specs::cmp::PartialEqSpecImpl for Plan {
    open spec fn obeys_eq_spec() -> bool {
        true
    }

    open spec fn eq_spec(&self, other: &Self) -> bool {
        self@ == other@
    }
}

} // verus!
