//! The pair-accumulation side-ledger decisions: what record to store
//! for a swap, how hourly buckets are keyed, and how a pair's buckets
//! sum up.  The storage itself lives outside; these functions take the
//! read values and return the values to write.

use vstd::prelude::*;

use crate::text::{push_udec, spec_udec};

verus! {

/// What a pair's bucket should hold after one more swap: the
/// accumulated totals when the stored hour is still current and a
/// bucket exists, and a fresh bucket otherwise.
pub open spec fn spec_plan_accumulation(
    stored_hour: u32,
    now_hour: u32,
    existing: Option<(i64, i64, i64)>,
    amount: u64,
    count: u64,
    fee: u64,
) -> (u64, u64, u64) {
    if stored_hour != now_hour {
        (amount, count, fee)
    } else {
        match existing {
            Some((a0, c0, f0)) => (
                (a0 + amount) as u64,
                (c0 + count) as u64,
                (f0 + fee) as u64,
            ),
            None => (amount, count, fee),
        }
    }
}

/// Decides the record to store for one more swap of a pair.
pub fn plan_accumulation(
    stored_hour: u32,
    now_hour: u32,
    existing: Option<(i64, i64, i64)>,
    amount: u64,
    count: u64,
    fee: u64,
) -> (r: (u64, u64, u64))
    requires
        match existing {
            Some((a0, c0, f0)) => 0 <= a0 && 0 <= c0 && 0 <= f0 && a0 + amount <= u64::MAX && c0
                + count <= u64::MAX && f0 + fee <= u64::MAX,
            None => true,
        },
    ensures
        r == spec_plan_accumulation(stored_hour, now_hour, existing, amount, count, fee),
{
    if stored_hour != now_hour {
        (amount, count, fee)
    } else {
        match existing {
            Some((a0, c0, f0)) => (
                (a0 as u64) + amount,
                (c0 as u64) + count,
                (f0 as u64) + fee,
            ),
            None => (amount, count, fee),
        }
    }
}

/// The total of one component over all hourly buckets found.
pub open spec fn spec_sum(records: Seq<Option<(i64, i64, i64)>>, pick: spec_fn((i64, i64, i64)) -> i64) -> int
    decreases records.len(),
{
    if records.len() == 0 {
        0
    } else {
        (match records[0] {
            Some(t) => pick(t) as int,
            None => 0,
        }) + spec_sum(records.skip(1), pick)
    }
}

/// Whether every prefix total of each component stays within the
/// carrier.
pub open spec fn sums_bounded(records: Seq<Option<(i64, i64, i64)>>) -> bool {
    forall|k: int|
        0 <= k <= records.len() ==> {
            &&& i64::MIN <= spec_sum(#[trigger] records.take(k), |t: (i64, i64, i64)| t.0)
                <= i64::MAX
            &&& i64::MIN <= spec_sum(records.take(k), |t: (i64, i64, i64)| t.1) <= i64::MAX
            &&& i64::MIN <= spec_sum(records.take(k), |t: (i64, i64, i64)| t.2) <= i64::MAX
        }
}

proof fn lemma_sum_take_step(
    records: Seq<Option<(i64, i64, i64)>>,
    pick: spec_fn((i64, i64, i64)) -> i64,
    k: int,
)
    requires
        0 <= k < records.len(),
    ensures
        spec_sum(records.take(k + 1), pick) == spec_sum(records.take(k), pick) + (
        match records[k] {
            Some(t) => pick(t) as int,
            None => 0,
        }),
    decreases k,
{
    let a = records.take(k + 1);
    let b = records.take(k);
    if k == 0 {
        assert(a[0] == records[0]);
        assert(a.skip(1) =~= Seq::<Option<(i64, i64, i64)>>::empty());
        assert(b.len() == 0);
        assert(spec_sum(a, pick) == (match a[0] {
            Some(t) => pick(t) as int,
            None => 0,
        }) + spec_sum(a.skip(1), pick));
    } else {
        assert(a[0] == records[0]);
        assert(b[0] == records[0]);
        assert(a.skip(1) =~= records.skip(1).take(k));
        assert(b.skip(1) =~= records.skip(1).take(k - 1));
        assert(records.skip(1)[k - 1] == records[k]);
        lemma_sum_take_step(records.skip(1), pick, k - 1);
        assert(spec_sum(a, pick) == (match a[0] {
            Some(t) => pick(t) as int,
            None => 0,
        }) + spec_sum(a.skip(1), pick));
        assert(spec_sum(b, pick) == (match b[0] {
            Some(t) => pick(t) as int,
            None => 0,
        }) + spec_sum(b.skip(1), pick));
    }
}

/// Sums all hourly buckets of one pair: amounts, counts and fees of
/// the buckets found, missing buckets counting as zero.
pub fn sum_hourly_records(records: &Vec<Option<(i64, i64, i64)>>) -> (r: (i64, i64, i64))
    requires
        sums_bounded(records@),
    ensures
        r.0 == spec_sum(records@, |t: (i64, i64, i64)| t.0),
        r.1 == spec_sum(records@, |t: (i64, i64, i64)| t.1),
        r.2 == spec_sum(records@, |t: (i64, i64, i64)| t.2),
{
    let mut all_amount: i64 = 0;
    let mut all_count: i64 = 0;
    let mut all_fee: i64 = 0;
    let mut k: usize = 0;
    proof {
        assert(records@.take(0).len() == 0);
    }
    while k < records.len()
        invariant
            k <= records@.len(),
            sums_bounded(records@),
            all_amount == spec_sum(records@.take(k as int), |t: (i64, i64, i64)| t.0),
            all_count == spec_sum(records@.take(k as int), |t: (i64, i64, i64)| t.1),
            all_fee == spec_sum(records@.take(k as int), |t: (i64, i64, i64)| t.2),
        decreases records@.len() - k,
    {
        proof {
            lemma_sum_take_step(records@, |t: (i64, i64, i64)| t.0, k as int);
            lemma_sum_take_step(records@, |t: (i64, i64, i64)| t.1, k as int);
            lemma_sum_take_step(records@, |t: (i64, i64, i64)| t.2, k as int);
            assert(records@.take((k + 1) as int).len() == k + 1);
        }
        match records[k] {
            Some((a, c, f)) => {
                all_amount = all_amount + a;
                all_count = all_count + c;
                all_fee = all_fee + f;
            },
            None => {},
        }
        k = k + 1;
    }
    proof {
        assert(records@.take(records@.len() as int) =~= records@);
    }
    (all_amount, all_count, all_fee)
}

/// The storage key of one pair's bucket for one hour.
pub fn hour_key(pair: &str, hour: u32) -> (r: String)
    ensures
        r@ == pair@ + "_"@ + spec_udec(hour as nat),
{
    let mut s = pair.to_owned();
    s.append("_");
    push_udec(&mut s, hour as u128);
    proof {
        assert(s@ =~= pair@ + "_"@ + spec_udec(hour as nat));
    }
    s
}

/// The display name of a pair: the source token's registered name (or
/// the unknown-token marker) over the target token.
pub fn pair_name(from_token: Option<String>, to_token: &str) -> (r: String)
    ensures
        match from_token {
            Some(n) => r@ == n@ + "/"@ + to_token@,
            None => r@ == "UnknownToken"@ + "/"@ + to_token@,
        },
{
    let mut s = match from_token {
        Some(n) => n,
        None => String::from_str("UnknownToken"),
    };
    s.append("/");
    s.append(to_token);
    s
}

/// The swap amount scaled down to ledger units.
pub fn scaled_amount(x: u128) -> (r: u64)
    requires
        x / 10000000 <= u64::MAX,
    ensures
        r == x / 10000000,
{
    (x / 10000000) as u64
}

/// Relies on chrono's local clock: `Timelike::hour` always returns a
/// value in the range `0..24`.
#[verifier::external_body]
fn local_hour() -> (h: u32)
    ensures
        h < 24,
{
    chrono::Timelike::hour(&chrono::Local::now())
}

/// The storage key of one pair's bucket for the current local hour.
/// The hour comes from the clock, so only its range is known.
pub fn current_hour_key(pair: &str) -> (r: String)
    ensures
        exists|h: nat| h < 24 && r@ == pair@ + "_"@ + spec_udec(h),
{
    let h = local_hour();
    let r = hour_key(pair, h);
    proof {
        assert((h as nat) < 24);
        assert(r@ == pair@ + "_"@ + spec_udec(h as nat));
    }
    r
}

} // verus!
