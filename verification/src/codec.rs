//! The stable binary layout of plans and transactions.
//!
//! Every multi-byte integer is little-endian; every tagged union is a one-byte
//! discriminant followed by the variant payload; byte identifiers keep their
//! fixed widths. The layout is defined once, as spec functions, and both the
//! encoder and the decoder are proved against it, so that sign-data stays
//! reproducible byte-for-byte for equal values.

use vstd::prelude::*;
use vstd::bytes::*;
use vstd::slice::slice_subrange;
use vstd::slice::slice_to_vec;
use crate::plan::{Payment, Condition, Plan, PaymentV, ConditionV, PlanV, Timestamp};
use crate::crypto::{PublicKey, Signature};
use crate::transaction::{Transaction, TransactionV, spec_sign_data};

verus! {

/// Discriminant of `Condition::Timestamp`.
pub const TAG_COND_TIMESTAMP: u8 = 0;

/// Discriminant of `Condition::Signature`.
pub const TAG_COND_SIGNATURE: u8 = 1;

/// Discriminant of `Plan::Pay`.
pub const TAG_PLAN_PAY: u8 = 0;

/// Discriminant of `Plan::Race`.
pub const TAG_PLAN_RACE: u8 = 1;

/// Layout of a payment: amount (8 bytes), then recipient (32 bytes).
pub open spec fn enc_payment(p: PaymentV) -> Seq<u8> {
    spec_u64_to_le_bytes(p.tokens as u64) + p.to
}

/// Layout of a condition: tag byte, then the variant payload.
pub open spec fn enc_condition(c: ConditionV) -> Seq<u8> {
    match c {
        ConditionV::Timestamp(t) => (
            seq![TAG_COND_TIMESTAMP] + spec_u64_to_le_bytes(t.secs as u64)
                + spec_u32_to_le_bytes(t.nanos)
        ),
        ConditionV::Signature(pk) => seq![TAG_COND_SIGNATURE] + pk,
    }
}

/// Layout of a plan: tag byte, then the branches in order.
pub open spec fn enc_plan(p: PlanV) -> Seq<u8> {
    match p {
        PlanV::Pay(pm) => seq![TAG_PLAN_PAY] + enc_payment(pm),
        PlanV::Race((ca, pa), (cb, pb)) => (
            seq![TAG_PLAN_RACE] + enc_condition(ca) + enc_payment(pa) + enc_condition(cb)
                + enc_payment(pb)
        ),
    }
}

/// Append a byte vector to `out`.
pub(crate) fn append_bytes(out: &mut Vec<u8>, src: &Vec<u8>)
    ensures
        final(out)@ == old(out)@ + src@,
{
    let mut i: usize = 0;
    while i < src.len()
        invariant
            i <= src.len(),
            out@ =~= old(out)@ + src@.subrange(0, i as int),
        decreases src.len() - i,
    {
        out.push(src[i]);
        i += 1;
    }
    proof {
        assert(out@ =~= old(out)@ + src@);
    }
}

/// Append a `u64` to `out`, little-endian.
pub(crate) fn push_u64(out: &mut Vec<u8>, x: u64)
    ensures
        final(out)@ == old(out)@ + spec_u64_to_le_bytes(x),
{
    let b = u64_to_le_bytes(x);
    append_bytes(out, &b);
}

/// Append a `u32` to `out`, little-endian.
pub(crate) fn push_u32(out: &mut Vec<u8>, x: u32)
    ensures
        final(out)@ == old(out)@ + spec_u32_to_le_bytes(x),
{
    let b = u32_to_le_bytes(x);
    append_bytes(out, &b);
}

/// Append the encoding of a payment to `out`.
pub(crate) fn encode_payment_into(out: &mut Vec<u8>, p: &Payment)
    ensures
        final(out)@ == old(out)@ + enc_payment(p@),
{
    push_u64(out, #[verifier::truncate] (p.tokens as u64));
    append_bytes(out, p.to.bytes());
    proof {
        assert(out@ =~= old(out)@ + enc_payment(p@));
    }
}

/// Append the encoding of a condition to `out`.
pub(crate) fn encode_condition_into(out: &mut Vec<u8>, c: &Condition)
    ensures
        final(out)@ == old(out)@ + enc_condition(c@),
{
    match c {
        Condition::Timestamp(t) => {
            out.push(TAG_COND_TIMESTAMP);
            push_u64(out, #[verifier::truncate] (t.secs as u64));
            push_u32(out, t.nanos);
            proof {
                assert(out@ =~= old(out)@ + enc_condition(c@));
            }
        },
        Condition::Signature(pk) => {
            out.push(TAG_COND_SIGNATURE);
            append_bytes(out, pk.bytes());
            proof {
                assert(out@ =~= old(out)@ + enc_condition(c@));
            }
        },
    }
}

/// Append the encoding of a plan to `out`.
pub(crate) fn encode_plan_into(out: &mut Vec<u8>, p: &Plan)
    ensures
        final(out)@ == old(out)@ + enc_plan(p@),
{
    match p {
        Plan::Pay(pm) => {
            out.push(TAG_PLAN_PAY);
            encode_payment_into(out, pm);
            proof {
                assert(out@ =~= old(out)@ + enc_plan(p@));
            }
        },
        Plan::Race((ca, pa), (cb, pb)) => {
            out.push(TAG_PLAN_RACE);
            encode_condition_into(out, ca);
            encode_payment_into(out, pa);
            encode_condition_into(out, cb);
            encode_payment_into(out, pb);
            proof {
                assert(out@ =~= old(out)@ + enc_plan(p@));
            }
        },
    }
}

/// Casting an `i64` to `u64` and back restores the value.
pub proof fn lemma_i64_cast_roundtrip(x: i64)
    ensures
        ((x as u64) as i64) == x,
{
    assert(((x as u64) as i64) == x) by (bit_vector);
}

/// Parse a condition at `pos`: the tag byte picks the variant and fixes the
/// payload width. `None` when the tag is unknown or the payload is cut short.
pub open spec fn dec_condition(b: Seq<u8>, pos: int) -> Option<(ConditionV, int)> {
    if 0 <= pos < b.len() && b[pos] == TAG_COND_TIMESTAMP && pos + 13 <= b.len() {
        Some(
            (
                ConditionV::Timestamp(
                    Timestamp {
                        secs: spec_u64_from_le_bytes(b.subrange(pos + 1, pos + 9)) as i64,
                        nanos: spec_u32_from_le_bytes(b.subrange(pos + 9, pos + 13)),
                    },
                ),
                pos + 13,
            ),
        )
    } else if 0 <= pos < b.len() && b[pos] == TAG_COND_SIGNATURE && pos + 33 <= b.len() {
        Some((ConditionV::Signature(b.subrange(pos + 1, pos + 33)), pos + 33))
    } else {
        None
    }
}

/// Parse a payment at `pos`: amount, then recipient.
pub open spec fn dec_payment(b: Seq<u8>, pos: int) -> Option<(PaymentV, int)> {
    if 0 <= pos && pos + 40 <= b.len() {
        Some(
            (
                PaymentV {
                    tokens: spec_u64_from_le_bytes(b.subrange(pos, pos + 8)) as i64,
                    to: b.subrange(pos + 8, pos + 40),
                },
                pos + 40,
            ),
        )
    } else {
        None
    }
}

/// Parse a plan at `pos`: the tag byte picks the variant, then the branches
/// follow in order.
pub open spec fn dec_plan(b: Seq<u8>, pos: int) -> Option<(PlanV, int)> {
    if 0 <= pos < b.len() && b[pos] == TAG_PLAN_PAY {
        match dec_payment(b, pos + 1) {
            Some((pm, p2)) => Some((PlanV::Pay(pm), p2)),
            None => None,
        }
    } else if 0 <= pos < b.len() && b[pos] == TAG_PLAN_RACE {
        match dec_condition(b, pos + 1) {
            Some((ca, p2)) => match dec_payment(b, p2) {
                Some((pa, p3)) => match dec_condition(b, p3) {
                    Some((cb, p4)) => match dec_payment(b, p4) {
                        Some((pb, p5)) => Some((PlanV::Race((ca, pa), (cb, pb)), p5)),
                        None => None,
                    },
                    None => None,
                },
                None => None,
            },
            None => None,
        }
    } else {
        None
    }
}

/// A decoded condition is well-formed, and parsing never moves backwards or
/// past the end.
pub proof fn lemma_dec_condition_wf(b: Seq<u8>, pos: int)
    ensures
        dec_condition(b, pos) matches Some((c, p)) ==> c.wf() && pos < p <= b.len(),
{
}

/// A decoded payment is well-formed, and parsing stays inside the input.
pub proof fn lemma_dec_payment_wf(b: Seq<u8>, pos: int)
    ensures
        dec_payment(b, pos) matches Some((pm, p)) ==> pm.wf() && pos < p <= b.len(),
{
}

/// A decoded plan is well-formed, and parsing stays inside the input.
pub proof fn lemma_dec_plan_wf(b: Seq<u8>, pos: int)
    ensures
        dec_plan(b, pos) matches Some((pl, p)) ==> pl.wf() && pos < p <= b.len(),
{
    if 0 <= pos < b.len() && b[pos] == TAG_PLAN_RACE {
        lemma_dec_condition_wf(b, pos + 1);
        match dec_condition(b, pos + 1) {
            Some((_, p2)) => {
                lemma_dec_payment_wf(b, p2);
                match dec_payment(b, p2) {
                    Some((_, p3)) => {
                        lemma_dec_condition_wf(b, p3);
                        match dec_condition(b, p3) {
                            Some((_, p4)) => {
                                lemma_dec_payment_wf(b, p4);
                            },
                            None => {},
                        }
                    },
                    None => {},
                }
            },
            None => {},
        }
    }
}

/// Decoding reverses encoding for payments, wherever the encoding stands
/// inside a larger byte sequence.
pub proof fn lemma_dec_enc_payment(b: Seq<u8>, pos: int, p: PaymentV)
    requires
        p.wf(),
        0 <= pos,
        pos + enc_payment(p).len() <= b.len(),
        b.subrange(pos, pos + enc_payment(p).len()) == enc_payment(p),
    ensures
        enc_payment(p).len() == 40,
        dec_payment(b, pos) == Some((p, pos + 40)),
{
    lemma_auto_spec_u64_to_from_le_bytes();
    lemma_i64_cast_roundtrip(p.tokens);
    let e = enc_payment(p);
    let a = spec_u64_to_le_bytes(p.tokens as u64);
    assert(e.len() == 40);
    assert(b.subrange(pos, pos + 8) =~= a) by {
        assert forall|i: int| 0 <= i < 8 implies b.subrange(pos, pos + 8)[i] == a[i] by {
            assert(b.subrange(pos, pos + 40)[i] == e[i]);
        }
    }
    assert(b.subrange(pos + 8, pos + 40) =~= p.to) by {
        assert forall|i: int| 0 <= i < 32 implies b.subrange(pos + 8, pos + 40)[i] == p.to[i] by {
            assert(b.subrange(pos, pos + 40)[i + 8] == e[i + 8]);
        }
    }
    assert((
        PaymentV {
            tokens: spec_u64_from_le_bytes(b.subrange(pos, pos + 8)) as i64,
            to: b.subrange(pos + 8, pos + 40),
        }
    ) =~= p);
}

/// Decoding reverses encoding for conditions.
pub proof fn lemma_dec_enc_condition(b: Seq<u8>, pos: int, c: ConditionV)
    requires
        c.wf(),
        0 <= pos,
        pos + enc_condition(c).len() <= b.len(),
        b.subrange(pos, pos + enc_condition(c).len()) == enc_condition(c),
    ensures
        dec_condition(b, pos) == Some((c, pos + enc_condition(c).len())),
{
    lemma_auto_spec_u64_to_from_le_bytes();
    lemma_auto_spec_u32_to_from_le_bytes();
    let e = enc_condition(c);
    match c {
        ConditionV::Timestamp(t) => {
            lemma_i64_cast_roundtrip(t.secs);
            let a = spec_u64_to_le_bytes(t.secs as u64);
            let n = spec_u32_to_le_bytes(t.nanos);
            assert(e.len() == 13);
            assert(b[pos] == TAG_COND_TIMESTAMP) by {
                assert(b.subrange(pos, pos + 13)[0] == e[0]);
            }
            assert(b.subrange(pos + 1, pos + 9) =~= a) by {
                assert forall|i: int| 0 <= i < 8 implies b.subrange(pos + 1, pos + 9)[i] == a[i] by {
                    assert(b.subrange(pos, pos + 13)[i + 1] == e[i + 1]);
                }
            }
            assert(b.subrange(pos + 9, pos + 13) =~= n) by {
                assert forall|i: int| 0 <= i < 4 implies b.subrange(pos + 9, pos + 13)[i] == n[i] by {
                    assert(b.subrange(pos, pos + 13)[i + 9] == e[i + 9]);
                }
            }
            assert((
                ConditionV::Timestamp(
                    Timestamp {
                        secs: spec_u64_from_le_bytes(b.subrange(pos + 1, pos + 9)) as i64,
                        nanos: spec_u32_from_le_bytes(b.subrange(pos + 9, pos + 13)),
                    },
                )
            ) =~= c);
        },
        ConditionV::Signature(pk) => {
            assert(e.len() == 33);
            assert(b[pos] == TAG_COND_SIGNATURE) by {
                assert(b.subrange(pos, pos + 33)[0] == e[0]);
            }
            assert(b.subrange(pos + 1, pos + 33) =~= pk) by {
                assert forall|i: int| 0 <= i < 32 implies b.subrange(pos + 1, pos + 33)[i] == pk[i] by {
                    assert(b.subrange(pos, pos + 33)[i + 1] == e[i + 1]);
                }
            }
            assert((ConditionV::Signature(b.subrange(pos + 1, pos + 33))) =~= c);
        },
    }
}

/// Decoding reverses encoding for plans.
pub proof fn lemma_dec_enc_plan(b: Seq<u8>, pos: int, p: PlanV)
    requires
        p.wf(),
        0 <= pos,
        pos + enc_plan(p).len() <= b.len(),
        b.subrange(pos, pos + enc_plan(p).len()) == enc_plan(p),
    ensures
        dec_plan(b, pos) == Some((p, pos + enc_plan(p).len())),
{
    lemma_auto_spec_u64_to_from_le_bytes();
    let e = enc_plan(p);
    match p {
        PlanV::Pay(pm) => {
            let ep = enc_payment(pm);
            assert(e.len() == 41);
            assert(b[pos] == TAG_PLAN_PAY) by {
                assert(b.subrange(pos, pos + 41)[0] == e[0]);
            }
            assert(b.subrange(pos + 1, pos + 41) =~= ep) by {
                assert forall|i: int| 0 <= i < 40 implies b.subrange(pos + 1, pos + 41)[i] == ep[i] by {
                    assert(b.subrange(pos, pos + 41)[i + 1] == e[i + 1]);
                }
            }
            lemma_dec_enc_payment(b, pos + 1, pm);
        },
        PlanV::Race((ca, pa), (cb, pb)) => {
            let e1 = enc_condition(ca);
            let e2 = enc_payment(pa);
            let e3 = enc_condition(cb);
            let e4 = enc_payment(pb);
            let l1 = e1.len() as int;
            let l3 = e3.len() as int;
            let h1 = seq![TAG_PLAN_RACE] + e1;
            let h2 = h1 + e2;
            let h3 = h2 + e3;
            assert(e == h3 + e4);
            assert(e2.len() == 40 && e4.len() == 40);
            assert(e.len() == 1 + l1 + 40 + l3 + 40);
            let p1 = pos + 1;
            let p2 = p1 + l1;
            let p3 = p2 + 40;
            let p4 = p3 + l3;
            let p5 = p4 + 40;
            assert forall|j: int| 0 <= j < e.len() implies b[pos + j] == e[j] by {
                assert(b.subrange(pos, pos + e.len())[j] == e[j]);
            }
            assert(b[pos] == TAG_PLAN_RACE) by {
                assert(b[pos + 0] == e[0]);
                assert(e[0] == h3[0]);
                assert(h3[0] == h2[0]);
                assert(h2[0] == h1[0]);
                assert(h1[0] == TAG_PLAN_RACE);
            }
            assert(b.subrange(p1, p2) =~= e1) by {
                assert forall|i: int| 0 <= i < l1 implies b.subrange(p1, p2)[i] == e1[i] by {
                    assert(e[1 + i] == h3[1 + i]);
                    assert(h3[1 + i] == h2[1 + i]);
                    assert(h2[1 + i] == h1[1 + i]);
                    assert(h1[1 + i] == e1[i]);
                }
            }
            assert(b.subrange(p2, p3) =~= e2) by {
                assert forall|i: int| 0 <= i < 40 implies b.subrange(p2, p3)[i] == e2[i] by {
                    let j = 1 + l1 + i;
                    assert(e[j] == h3[j]);
                    assert(h3[j] == h2[j]);
                    assert(h2[j] == e2[i]);
                }
            }
            assert(b.subrange(p3, p4) =~= e3) by {
                assert forall|i: int| 0 <= i < l3 implies b.subrange(p3, p4)[i] == e3[i] by {
                    let j = 1 + l1 + 40 + i;
                    assert(e[j] == h3[j]);
                    assert(h3[j] == e3[i]);
                }
            }
            assert(b.subrange(p4, p5) =~= e4) by {
                assert forall|i: int| 0 <= i < 40 implies b.subrange(p4, p5)[i] == e4[i] by {
                    let j = 1 + l1 + 40 + l3 + i;
                    assert(e[j] == e4[i]);
                }
            }
            lemma_dec_enc_condition(b, p1, ca);
            lemma_dec_enc_payment(b, p2, pa);
            lemma_dec_enc_condition(b, p3, cb);
            lemma_dec_enc_payment(b, p4, pb);
        },
    }
}

/// Layout of a whole transaction: sender (32 bytes), plan, amount (8 bytes),
/// freshness marker (32 bytes), signature (64 bytes) — the struct's field
/// order. The middle three fields are exactly the sign-data.
pub open spec fn enc_transaction(t: TransactionV) -> Seq<u8> {
    t.from + enc_plan(t.plan) + spec_u64_to_le_bytes(t.tokens as u64) + t.last_id + t.sig
}

/// Parse a whole transaction; the input must end exactly where the signature
/// does.
pub open spec fn dec_transaction(b: Seq<u8>) -> Option<TransactionV> {
    if b.len() >= 32 {
        match dec_plan(b, 32) {
            Some((plan, p)) => if p + 104 == b.len() {
                Some(
                    TransactionV {
                        from: b.subrange(0, 32),
                        plan,
                        tokens: spec_u64_from_le_bytes(b.subrange(p, p + 8)) as i64,
                        last_id: b.subrange(p + 8, p + 40),
                        sig: b.subrange(p + 40, p + 104),
                    },
                )
            } else {
                None
            },
            None => None,
        }
    } else {
        None
    }
}

/// Round trip: decoding the encoding of any well-formed transaction yields
/// the transaction back, signed or not.
pub proof fn lemma_transaction_roundtrip(t: TransactionV)
    requires
        t.wf(),
    ensures
        dec_transaction(enc_transaction(t)) == Some(t),
{
    lemma_auto_spec_u64_to_from_le_bytes();
    lemma_i64_cast_roundtrip(t.tokens);
    let b = enc_transaction(t);
    let ep = enc_plan(t.plan);
    let a = spec_u64_to_le_bytes(t.tokens as u64);
    let lp = ep.len() as int;
    let h1 = t.from + ep;
    let h2 = h1 + a;
    let h3 = h2 + t.last_id;
    assert(b == h3 + t.sig);
    assert(b.len() == 32 + lp + 8 + 32 + 64);
    let p = 32 + lp;
    assert forall|j: int| 0 <= j < b.len() implies
        #[trigger] b[j] == (if j < 32 {
            t.from[j]
        } else if j < p {
            ep[j - 32]
        } else if j < p + 8 {
            a[j - p]
        } else if j < p + 40 {
            t.last_id[j - p - 8]
        } else {
            t.sig[j - p - 40]
        }) by {
        assert(b[j] == h3[j] || b[j] == t.sig[j - h3.len()]);
        if j < h3.len() {
            assert(h3[j] == h2[j] || h3[j] == t.last_id[j - h2.len()]);
            if j < h2.len() {
                assert(h2[j] == h1[j] || h2[j] == a[j - h1.len()]);
            }
        }
    }
    assert(b.subrange(0, 32) =~= t.from);
    assert(b.subrange(32, 32 + lp) =~= ep);
    lemma_dec_enc_plan(b, 32, t.plan);
    assert(b.subrange(p, p + 8) =~= a);
    assert(b.subrange(p + 8, p + 40) =~= t.last_id);
    assert(b.subrange(p + 40, p + 104) =~= t.sig);
    assert((
        TransactionV {
            from: b.subrange(0, 32),
            plan: t.plan,
            tokens: spec_u64_from_le_bytes(b.subrange(p, p + 8)) as i64,
            last_id: b.subrange(p + 8, p + 40),
            sig: b.subrange(p + 40, p + 104),
        }
    ) =~= t);
}

/// Casting a `u64` to `i64` and back restores the value.
pub proof fn lemma_u64_cast_roundtrip(x: u64)
    ensures
        ((x as i64) as u64) == x,
{
    assert(((x as i64) as u64) == x) by (bit_vector);
}

/// Encoding reverses decoding for payments: the layout is canonical.
pub proof fn lemma_enc_dec_payment(b: Seq<u8>, pos: int)
    requires
        dec_payment(b, pos) is Some,
    ensures
        ({
            let (p, q) = dec_payment(b, pos)->Some_0;
            &&& p.wf()
            &&& q == pos + 40
            &&& enc_payment(p) == b.subrange(pos, q)
        }),
{
    lemma_auto_spec_u64_to_from_le_bytes();
    let (p, q) = dec_payment(b, pos)->Some_0;
    let s8 = b.subrange(pos, pos + 8);
    lemma_u64_cast_roundtrip(spec_u64_from_le_bytes(s8));
    assert(spec_u64_to_le_bytes(p.tokens as u64) == s8);
    assert(enc_payment(p) =~= b.subrange(pos, pos + 40)) by {
        assert forall|i: int| 0 <= i < 40 implies enc_payment(p)[i] == b.subrange(
            pos,
            pos + 40,
        )[i] by {
            if i < 8 {
                assert(enc_payment(p)[i] == s8[i]);
            } else {
                assert(enc_payment(p)[i] == p.to[i - 8]);
            }
        }
    }
}

/// Encoding reverses decoding for conditions.
pub proof fn lemma_enc_dec_condition(b: Seq<u8>, pos: int)
    requires
        dec_condition(b, pos) is Some,
    ensures
        ({
            let (c, q) = dec_condition(b, pos)->Some_0;
            &&& c.wf()
            &&& pos < q <= b.len()
            &&& enc_condition(c) == b.subrange(pos, q)
        }),
{
    lemma_auto_spec_u64_to_from_le_bytes();
    lemma_auto_spec_u32_to_from_le_bytes();
    let (c, q) = dec_condition(b, pos)->Some_0;
    if b[pos] == TAG_COND_TIMESTAMP {
        let s8 = b.subrange(pos + 1, pos + 9);
        let s4 = b.subrange(pos + 9, pos + 13);
        lemma_u64_cast_roundtrip(spec_u64_from_le_bytes(s8));
        assert(spec_u64_to_le_bytes(spec_u64_from_le_bytes(s8) as i64 as u64) == s8);
        assert(spec_u32_to_le_bytes(spec_u32_from_le_bytes(s4)) == s4);
        assert(enc_condition(c) =~= b.subrange(pos, pos + 13)) by {
            assert forall|i: int| 0 <= i < 13 implies enc_condition(c)[i] == b.subrange(
                pos,
                pos + 13,
            )[i] by {
                if i == 0 {
                    assert(enc_condition(c)[0] == TAG_COND_TIMESTAMP);
                } else if i < 9 {
                    assert(enc_condition(c)[i] == s8[i - 1]);
                } else {
                    assert(enc_condition(c)[i] == s4[i - 9]);
                }
            }
        }
    } else {
        let pk = b.subrange(pos + 1, pos + 33);
        assert(enc_condition(c) =~= b.subrange(pos, pos + 33)) by {
            assert forall|i: int| 0 <= i < 33 implies enc_condition(c)[i] == b.subrange(
                pos,
                pos + 33,
            )[i] by {
                if i == 0 {
                    assert(enc_condition(c)[0] == TAG_COND_SIGNATURE);
                } else {
                    assert(enc_condition(c)[i] == pk[i - 1]);
                }
            }
        }
    }
}

/// Encoding reverses decoding for plans.
pub proof fn lemma_enc_dec_plan(b: Seq<u8>, pos: int)
    requires
        dec_plan(b, pos) is Some,
    ensures
        ({
            let (pl, q) = dec_plan(b, pos)->Some_0;
            &&& pl.wf()
            &&& pos < q <= b.len()
            &&& enc_plan(pl) == b.subrange(pos, q)
        }),
{
    let (pl, q) = dec_plan(b, pos)->Some_0;
    if b[pos] == TAG_PLAN_PAY {
        lemma_enc_dec_payment(b, pos + 1);
        let (pm, _) = dec_payment(b, pos + 1)->Some_0;
        assert(enc_plan(pl) =~= b.subrange(pos, q)) by {
            assert forall|i: int| 0 <= i < 41 implies enc_plan(pl)[i] == b.subrange(pos, q)[i] by {
                if i == 0 {
                    assert(enc_plan(pl)[0] == TAG_PLAN_PAY);
                } else {
                    assert(enc_plan(pl)[i] == enc_payment(pm)[i - 1]);
                    assert(enc_payment(pm)[i - 1] == b.subrange(pos + 1, pos + 41)[i - 1]);
                }
            }
        }
    } else {
        lemma_enc_dec_condition(b, pos + 1);
        let (ca, p2) = dec_condition(b, pos + 1)->Some_0;
        lemma_enc_dec_payment(b, p2);
        let (pa, p3) = dec_payment(b, p2)->Some_0;
        lemma_enc_dec_condition(b, p3);
        let (cb, p4) = dec_condition(b, p3)->Some_0;
        lemma_enc_dec_payment(b, p4);
        let (pb, p5) = dec_payment(b, p4)->Some_0;
        let e1 = enc_condition(ca);
        let e2 = enc_payment(pa);
        let e3 = enc_condition(cb);
        let e4 = enc_payment(pb);
        let l1 = e1.len() as int;
        let l3 = e3.len() as int;
        let h1 = seq![TAG_PLAN_RACE] + e1;
        let h2 = h1 + e2;
        let h3 = h2 + e3;
        assert(enc_plan(pl) == h3 + e4);
        assert(enc_plan(pl).len() == q - pos);
        assert(enc_plan(pl) =~= b.subrange(pos, q)) by {
            assert forall|i: int| 0 <= i < q - pos implies enc_plan(pl)[i] == b.subrange(
                pos,
                q,
            )[i] by {
                assert(enc_plan(pl)[i] == (h3 + e4)[i]);
                if i == 0 {
                    assert(h1[0] == TAG_PLAN_RACE);
                } else if i < 1 + l1 {
                    assert((h3 + e4)[i] == h3[i] && h3[i] == h2[i] && h2[i] == h1[i] && h1[i]
                        == e1[i - 1]);
                    assert(e1[i - 1] == b.subrange(pos + 1, p2)[i - 1]);
                } else if i < 1 + l1 + 40 {
                    assert((h3 + e4)[i] == h3[i] && h3[i] == h2[i] && h2[i] == e2[i - 1 - l1]);
                    assert(e2[i - 1 - l1] == b.subrange(p2, p3)[i - 1 - l1]);
                } else if i < 1 + l1 + 40 + l3 {
                    assert((h3 + e4)[i] == h3[i] && h3[i] == e3[i - 1 - l1 - 40]);
                    assert(e3[i - 1 - l1 - 40] == b.subrange(p3, p4)[i - 1 - l1 - 40]);
                } else {
                    assert((h3 + e4)[i] == e4[i - 1 - l1 - 40 - l3]);
                    assert(e4[i - 1 - l1 - 40 - l3] == b.subrange(p4, p5)[i - 1 - l1 - 40 - l3]);
                }
            }
        }
    }
}

/// Decoding is canonical: a decoded transaction re-encodes to exactly the
/// bytes it was decoded from, so no two distinct byte sequences decode to the
/// same transaction.
pub proof fn lemma_decode_canonical(b: Seq<u8>)
    requires
        dec_transaction(b) is Some,
    ensures
        ({
            let t = dec_transaction(b)->Some_0;
            &&& t.wf()
            &&& enc_transaction(t) == b
        }),
{
    lemma_auto_spec_u64_to_from_le_bytes();
    let t = dec_transaction(b)->Some_0;
    lemma_enc_dec_plan(b, 32);
    let (pl, p) = dec_plan(b, 32)->Some_0;
    let lp = enc_plan(pl).len() as int;
    let s8 = b.subrange(p, p + 8);
    lemma_u64_cast_roundtrip(spec_u64_from_le_bytes(s8));
    assert(spec_u64_to_le_bytes(t.tokens as u64) == s8);
    let h1 = t.from + enc_plan(t.plan);
    let h2 = h1 + spec_u64_to_le_bytes(t.tokens as u64);
    let h3 = h2 + t.last_id;
    assert(enc_transaction(t) == h3 + t.sig);
    assert(enc_transaction(t) =~= b) by {
        assert forall|i: int| 0 <= i < b.len() implies enc_transaction(t)[i] == b[i] by {
            assert(enc_transaction(t)[i] == (h3 + t.sig)[i]);
            if i < 32 {
                assert((h3 + t.sig)[i] == h3[i] && h3[i] == h2[i] && h2[i] == h1[i] && h1[i]
                    == t.from[i]);
                assert(t.from[i] == b.subrange(0, 32)[i]);
            } else if i < p {
                assert((h3 + t.sig)[i] == h3[i] && h3[i] == h2[i] && h2[i] == h1[i] && h1[i]
                    == enc_plan(t.plan)[i - 32]);
                assert(enc_plan(t.plan)[i - 32] == b.subrange(32, p)[i - 32]);
            } else if i < p + 8 {
                assert((h3 + t.sig)[i] == h3[i] && h3[i] == h2[i] && h2[i] == s8[i - p]);
            } else if i < p + 40 {
                assert((h3 + t.sig)[i] == h3[i] && h3[i] == t.last_id[i - p - 8]);
                assert(t.last_id[i - p - 8] == b.subrange(p + 8, p + 40)[i - p - 8]);
            } else {
                assert((h3 + t.sig)[i] == t.sig[i - p - 40]);
                assert(t.sig[i - p - 40] == b.subrange(p + 40, p + 104)[i - p - 40]);
            }
        }
    }
}

/// The sign-data of a well-formed transaction parses back into the fields it
/// was derived from.
proof fn lemma_sign_data_parse(t: TransactionV)
    requires
        t.wf(),
    ensures
        ({
            let b = spec_sign_data(t);
            let lp = enc_plan(t.plan).len() as int;
            &&& dec_plan(b, 0) == Some((t.plan, lp))
            &&& b.len() == lp + 40
            &&& b.subrange(lp, lp + 8) == spec_u64_to_le_bytes(t.tokens as u64)
            &&& b.subrange(lp + 8, lp + 40) == t.last_id
        }),
{
    lemma_auto_spec_u64_to_from_le_bytes();
    let b = spec_sign_data(t);
    let ep = enc_plan(t.plan);
    let a = spec_u64_to_le_bytes(t.tokens as u64);
    let lp = ep.len() as int;
    let h1 = ep + a;
    assert(b == h1 + t.last_id);
    assert(b.len() == lp + 40);
    assert forall|j: int| 0 <= j < b.len() implies
        #[trigger] b[j] == (if j < lp {
            ep[j]
        } else if j < lp + 8 {
            a[j - lp]
        } else {
            t.last_id[j - lp - 8]
        }) by {
        assert(b[j] == h1[j] || b[j] == t.last_id[j - h1.len()]);
        if j < h1.len() {
            assert(h1[j] == ep[j] || h1[j] == a[j - lp]);
        }
    }
    assert(b.subrange(0, lp) =~= ep);
    lemma_dec_enc_plan(b, 0, t.plan);
    assert(b.subrange(lp, lp + 8) =~= a);
    assert(b.subrange(lp + 8, lp + 40) =~= t.last_id);
}

/// The sign-data derivation admits no field substitution: two well-formed
/// transactions with the same sign-data agree on plan, amount and freshness
/// marker. Changing any covered field — the payee inside the plan, a branch,
/// the amount, the marker — therefore changes the bytes the signature must
/// cover.
pub proof fn lemma_sign_data_injective(t1: TransactionV, t2: TransactionV)
    requires
        t1.wf(),
        t2.wf(),
        spec_sign_data(t1) == spec_sign_data(t2),
    ensures
        t1.plan == t2.plan,
        t1.tokens == t2.tokens,
        t1.last_id == t2.last_id,
{
    lemma_sign_data_parse(t1);
    lemma_sign_data_parse(t2);
    lemma_auto_spec_u64_to_from_le_bytes();
    lemma_i64_cast_roundtrip(t1.tokens);
    lemma_i64_cast_roundtrip(t2.tokens);
    let lp = enc_plan(t1.plan).len() as int;
    assert(enc_plan(t2.plan).len() as int == lp);
    assert(spec_u64_to_le_bytes(t1.tokens as u64) == spec_u64_to_le_bytes(t2.tokens as u64));
    assert(spec_u64_from_le_bytes(spec_u64_to_le_bytes(t1.tokens as u64))
        == spec_u64_from_le_bytes(spec_u64_to_le_bytes(t2.tokens as u64)));
    assert(t1.tokens as u64 == t2.tokens as u64);
}

/// Encode a transaction into its stable binary layout.
pub fn encode_transaction(t: &Transaction) -> (r: Vec<u8>)
    ensures
        r@ == enc_transaction(t@),
{
    let mut out: Vec<u8> = Vec::new();
    append_bytes(&mut out, t.from.bytes());
    let sign_data = t.get_sign_data();
    append_bytes(&mut out, &sign_data);
    append_bytes(&mut out, t.sig.bytes());
    proof {
        assert(out@ =~= enc_transaction(t@));
    }
    out
}

/// Read a little-endian `u64` at `pos`.
fn read_u64_at(b: &Vec<u8>, pos: usize) -> (x: u64)
    requires
        pos + 8 <= b@.len(),
    ensures
        x == spec_u64_from_le_bytes(b@.subrange(pos as int, pos as int + 8)),
{
    let l = b.len();
    u64_from_le_bytes(slice_subrange(b.as_slice(), pos, pos + 8))
}

/// Read a little-endian `u32` at `pos`.
fn read_u32_at(b: &Vec<u8>, pos: usize) -> (x: u32)
    requires
        pos + 4 <= b@.len(),
    ensures
        x == spec_u32_from_le_bytes(b@.subrange(pos as int, pos as int + 4)),
{
    let l = b.len();
    u32_from_le_bytes(slice_subrange(b.as_slice(), pos, pos + 4))
}

/// Copy `n` bytes starting at `pos`.
fn read_chunk(b: &Vec<u8>, pos: usize, n: usize) -> (r: Vec<u8>)
    requires
        pos + n <= b@.len(),
    ensures
        r@ == b@.subrange(pos as int, pos as int + n as int),
{
    let l = b.len();
    slice_to_vec(slice_subrange(b.as_slice(), pos, pos + n))
}

/// Parse a condition at `pos`.
fn dec_condition_at(b: &Vec<u8>, pos: usize) -> (r: Option<(Condition, usize)>)
    ensures
        (match dec_condition(b@, pos as int) {
            Some((cv, pv)) => r matches Some((c, p)) && c@ == cv && p as int == pv,
            None => r is None,
        }),
{
    if pos >= b.len() {
        return None;
    }
    let tag = b[pos];
    if tag == TAG_COND_TIMESTAMP {
        if b.len() - pos >= 13 {
            let secs_u = read_u64_at(b, pos + 1);
            let nanos = read_u32_at(b, pos + 9);
            let ts = Timestamp { secs: #[verifier::truncate] (secs_u as i64), nanos };
            Some((Condition::Timestamp(ts), pos + 13))
        } else {
            None
        }
    } else if tag == TAG_COND_SIGNATURE {
        if b.len() - pos >= 33 {
            match PublicKey::from_bytes(read_chunk(b, pos + 1, 32)) {
                Some(pk) => Some((Condition::Signature(pk), pos + 33)),
                None => None,
            }
        } else {
            None
        }
    } else {
        None
    }
}

/// Parse a payment at `pos`.
fn dec_payment_at(b: &Vec<u8>, pos: usize) -> (r: Option<(Payment, usize)>)
    ensures
        (match dec_payment(b@, pos as int) {
            Some((pv, qv)) => r matches Some((pm, q)) && pm@ == pv && q as int == qv,
            None => r is None,
        }),
{
    if pos <= b.len() && b.len() - pos >= 40 {
        let tokens_u = read_u64_at(b, pos);
        match PublicKey::from_bytes(read_chunk(b, pos + 8, 32)) {
            Some(pk) => {
                let pm = Payment { tokens: #[verifier::truncate] (tokens_u as i64), to: pk };
                Some((pm, pos + 40))
            },
            None => None,
        }
    } else {
        None
    }
}

/// Parse a plan at `pos`.
fn dec_plan_at(b: &Vec<u8>, pos: usize) -> (r: Option<(Plan, usize)>)
    ensures
        (match dec_plan(b@, pos as int) {
            Some((plv, qv)) => r matches Some((pl, q)) && pl@ == plv && q as int == qv,
            None => r is None,
        }),
{
    if pos >= b.len() {
        return None;
    }
    let tag = b[pos];
    if tag == TAG_PLAN_PAY {
        match dec_payment_at(b, pos + 1) {
            Some((pm, q)) => Some((Plan::Pay(pm), q)),
            None => None,
        }
    } else if tag == TAG_PLAN_RACE {
        proof {
            lemma_dec_condition_wf(b@, pos as int + 1);
        }
        match dec_condition_at(b, pos + 1) {
            Some((ca, q1)) => {
                proof {
                    lemma_dec_payment_wf(b@, q1 as int);
                }
                match dec_payment_at(b, q1) {
                    Some((pa, q2)) => {
                        proof {
                            lemma_dec_condition_wf(b@, q2 as int);
                        }
                        match dec_condition_at(b, q2) {
                            Some((cb, q3)) => match dec_payment_at(b, q3) {
                                Some((pb, q4)) => Some((Plan::Race((ca, pa), (cb, pb)), q4)),
                                None => None,
                            },
                            None => None,
                        }
                    },
                    None => None,
                }
            },
            None => None,
        }
    } else {
        None
    }
}

/// Decode a transaction from its stable binary layout. `None` exactly when
/// the bytes are not the encoding of any transaction: an unknown tag, a
/// truncated field, or trailing bytes.
pub fn decode_transaction(bytes: &Vec<u8>) -> (r: Option<Transaction>)
    ensures
        (match dec_transaction(bytes@) {
            Some(tv) => r matches Some(t) && t@ == tv && t.wf(),
            None => r is None,
        }),
{
    if bytes.len() < 32 {
        return None;
    }
    let from = match PublicKey::from_bytes(read_chunk(bytes, 0, 32)) {
        Some(pk) => pk,
        None => {
            return None;
        },
    };
    proof {
        lemma_dec_plan_wf(bytes@, 32);
    }
    match dec_plan_at(bytes, 32) {
        Some((plan, p)) => {
            if bytes.len() - p == 104 {
                let tokens_u = read_u64_at(bytes, p);
                let last_id = match crate::crypto::Hash::from_bytes(read_chunk(bytes, p + 8, 32)) {
                    Some(h) => h,
                    None => {
                        return None;
                    },
                };
                let sig = match Signature::from_bytes(read_chunk(bytes, p + 40, 64)) {
                    Some(s) => s,
                    None => {
                        return None;
                    },
                };
                let t = Transaction {
                    from,
                    plan,
                    tokens: #[verifier::truncate] (tokens_u as i64),
                    last_id,
                    sig,
                };
                proof {
                    assert(t@ =~= dec_transaction(bytes@)->Some_0);
                }
                Some(t)
            } else {
                None
            }
        },
        None => None,
    }
}

} // verus!
