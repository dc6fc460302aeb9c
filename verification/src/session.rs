//! Per-account business rules: when a mining claim is issued, when a gem
//! conversion is warranted and with what signature payload, and which quest
//! and premium-pick entries are claimed, in which order.

use vstd::prelude::*;
use vstd::arithmetic::div_mod::{lemma_fundamental_div_mod, lemma_fundamental_div_mod_converse};
use crate::numfmt::{spec_signature, signature_for, lemma_signature_bounds};

verus! {

/// Seconds waited before a claim call, to respect remote rate limits.
pub const CLAIM_DELAY_SECS: u64 = 1;

/// Seconds waited before a conversion call.
pub const CONVERT_DELAY_SECS: u64 = 1;

/// Seconds waited between two quest-reward claims.
pub const QUEST_CLAIM_DELAY_SECS: u64 = 3;

/// Seconds waited between two premium-pick claims.
pub const PREMIUM_PICK_DELAY_SECS: u64 = 1;

/// What the tap-state query reports, reduced to the plain values the rules
/// read. The remote also reports fractional gem and rate figures; they are
/// only ever logged and play no part in any decision, so they are not held
/// here.
pub struct TapState {
    /// Current energy-credit balance.
    pub number_ec: i64,
    /// Account level.
    pub level: i64,
    /// Threshold: a conversion is only worth issuing from this many taps.
    pub min_ec: i64,
    /// Epoch milliseconds of the tap counter's reference point.
    pub number_tap: i64,
}

/// How many taps have accrued by `now_ms`: the elapsed time in units of
/// 100 ms, less a fixed offset of 100. Both constants mirror the remote
/// side's accounting and must not be altered.
pub open spec fn spec_eligible_taps(now_ms: int, tap_epoch_ms: int) -> int {
    (now_ms - tap_epoch_ms) / 100 - 100
}

/// Computes `floor((now_ms - tap_epoch_ms) / 100) - 100`.
pub fn eligible_taps(now_ms: i64, tap_epoch_ms: i64) -> (taps: i64)
    requires
        -(i64::MAX as int) <= now_ms - tap_epoch_ms <= i64::MAX as int,
    ensures
        taps == spec_eligible_taps(now_ms as int, tap_epoch_ms as int),
{
    if now_ms >= tap_epoch_ms {
        let diff: i64 = now_ms - tap_epoch_ms;
        let d: u64 = diff as u64;
        let q: u64 = d / 100;
        proof {
            assert(q <= d);
        }
        (q as i64) - 100
    } else {
        let m: i64 = tap_epoch_ms - now_ms;
        let mu: u64 = m as u64;
        let qc: u64 = (mu + 99) / 100;
        proof {
            let x = now_ms as int - tap_epoch_ms as int;
            let q = qc as int;
            let r = (mu + 99) % 100;
            lemma_fundamental_div_mod(mu as int + 99, 100);
            assert(mu + 99 == 100 * q + r);
            assert(x == 100 * (-q) + (99 - r));
            lemma_fundamental_div_mod_converse(x, 100, -q, 99 - r);
            assert(x / 100 == -q);
        }
        -(qc as i64) - 100
    }
}

/// A conversion is warranted exactly when the accrued taps reach the
/// reported threshold; equality counts.
pub fn should_convert(now_ms: i64, tap_epoch_ms: i64, min_ec: i64) -> (b: bool)
    requires
        -(i64::MAX as int) <= now_ms - tap_epoch_ms <= i64::MAX as int,
    ensures
        b == (spec_eligible_taps(now_ms as int, tap_epoch_ms as int) >= min_ec as int),
{
    eligible_taps(now_ms, tap_epoch_ms) >= min_ec
}

/// The conversion a tick decided on: the accrued tap count and the signature
/// string the remote expects, `"{tap_epoch_ms}-{now_ms}-{taps}"`.
pub struct ConvertPlan {
    pub taps: i64,
    pub signature: String,
}

/// Decides a conversion tick from the queried tap state and the current
/// time. Returns a plan exactly when the accrued taps reach the threshold.
pub fn convert_plan(tap: &TapState, now_ms: i64) -> (p: Option<ConvertPlan>)
    requires
        -(i64::MAX as int) <= now_ms - tap.number_tap <= i64::MAX as int,
    ensures
        (p is Some) == (spec_eligible_taps(now_ms as int, tap.number_tap as int)
            >= tap.min_ec as int),
        p matches Some(plan) ==> {
            &&& plan.taps == spec_eligible_taps(now_ms as int, tap.number_tap as int)
            &&& plan.signature@ == spec_signature(
                tap.number_tap as int,
                now_ms as int,
                plan.taps as int,
            )
        },
{
    let taps = eligible_taps(now_ms, tap.number_tap);
    if taps >= tap.min_ec {
        let signature = signature_for(tap.number_tap, now_ms, taps);
        Some(ConvertPlan { taps, signature })
    } else {
        None
    }
}

/// A conversion call ready to send: the accrued tap count and the encrypted
/// payload.
pub struct ConvertAction {
    pub taps: i64,
    pub payload: String,
}

/// Runs the conversion rule end to end: decides from the tap state and the
/// current time, and encrypts the signature for the remote. A call is
/// prepared exactly when the accrued taps reach the threshold; the encrypted
/// payload itself is randomized and not pinned.
pub fn run_convert(tap: &TapState, now_ms: i64) -> (r: Option<ConvertAction>)
    requires
        -(i64::MAX as int) <= now_ms - tap.number_tap <= i64::MAX as int,
    ensures
        (r is Some) == (spec_eligible_taps(now_ms as int, tap.number_tap as int)
            >= tap.min_ec as int),
        r matches Some(a) ==> a.taps == spec_eligible_taps(now_ms as int, tap.number_tap as int),
{
    match convert_plan(tap, now_ms) {
        None => None,
        Some(plan) => {
            proof {
                lemma_signature_bounds(tap.number_tap as int, now_ms as int, plan.taps as int);
            }
            let payload = crate::utils::rsa_encrypt(plan.signature.as_str());
            Some(ConvertAction { taps: plan.taps, payload })
        },
    }
}

/// A claim is issued exactly when the queried cooldown has run out: zero or
/// negative milliseconds remaining.
pub fn should_claim(cooldown_ms: i64) -> (b: bool)
    ensures
        b == (cooldown_ms <= 0),
{
    cooldown_ms <= 0
}

/// One entry of a quest list: its identifier and its reported status.
pub struct QuestEntry {
    pub id: i64,
    pub status: String,
}

/// The four quest categories a tick walks, in this order.
pub struct QuestBoard {
    pub daily: Vec<QuestEntry>,
    pub event: Vec<QuestEntry>,
    pub top: Vec<QuestEntry>,
    pub weekly: Vec<QuestEntry>,
}

/// The identifiers of the entries whose status reads `"claimable"`, in list
/// order.
pub open spec fn spec_claimable_ids(entries: Seq<QuestEntry>) -> Seq<i64>
    decreases entries.len(),
{
    if entries.len() == 0 {
        Seq::empty()
    } else {
        let rest = spec_claimable_ids(entries.drop_first());
        if entries.first().status@ == "claimable"@ {
            seq![entries.first().id] + rest
        } else {
            rest
        }
    }
}

fn push_claimable(out: &mut Vec<i64>, entries: &Vec<QuestEntry>)
    ensures
        final(out)@ == old(out)@ + spec_claimable_ids(entries@),
{
    let needle = "claimable".to_owned();
    let n = entries.len();
    let mut i: usize = 0;
    while i < n
        invariant
            i <= n,
            n == entries@.len(),
            needle@ == "claimable"@,
            out@ == old(out)@ + spec_claimable_ids(entries@.take(i as int)),
        decreases n - i,
    {
        proof {
            lemma_claimable_take_step(entries@, i as int);
        }
        let e = &entries[i];
        if e.status == needle {
            out.push(e.id);
        }
        i = i + 1;
    }
    proof {
        assert(entries@.take(n as int) =~= entries@);
    }
}

proof fn lemma_claimable_take_step(entries: Seq<QuestEntry>, i: int)
    requires
        0 <= i < entries.len(),
    ensures
        spec_claimable_ids(entries.take(i + 1)) == if entries[i].status@ == "claimable"@ {
            spec_claimable_ids(entries.take(i)).push(entries[i].id)
        } else {
            spec_claimable_ids(entries.take(i))
        },
    decreases i,
{
    if i == 0 {
        assert(entries.take(1).drop_first() =~= entries.take(0));
        assert(spec_claimable_ids(entries.take(0)) =~= Seq::<i64>::empty());
        if entries[0].status@ == "claimable"@ {
            assert(seq![entries[0].id] + Seq::<i64>::empty() =~= spec_claimable_ids(
                entries.take(0),
            ).push(entries[0].id));
        }
    } else {
        lemma_claimable_take_step(entries.drop_first(), i - 1);
        assert(entries.take(i + 1).drop_first() =~= entries.drop_first().take(i));
        assert(entries.take(i).drop_first() =~= entries.drop_first().take(i - 1));
        assert(entries.take(i + 1).first() == entries.first());
        assert(entries.take(i).first() == entries.first());
        assert(entries.drop_first()[i - 1] == entries[i]);
        if entries[i].status@ == "claimable"@ {
            assert(spec_claimable_ids(entries.take(i + 1)) =~= spec_claimable_ids(
                entries.take(i),
            ).push(entries[i].id));
        }
    }
}

/// Collects the claimable quest identifiers of all four categories, category
/// order first (daily, event, top, weekly), then list order within each.
pub fn claimable_quests(board: &QuestBoard) -> (ids: Vec<i64>)
    ensures
        ids@ == spec_claimable_ids(board.daily@) + spec_claimable_ids(board.event@)
            + spec_claimable_ids(board.top@) + spec_claimable_ids(board.weekly@),
{
    let mut ids: Vec<i64> = Vec::new();
    push_claimable(&mut ids, &board.daily);
    push_claimable(&mut ids, &board.event);
    push_claimable(&mut ids, &board.top);
    push_claimable(&mut ids, &board.weekly);
    proof {
        assert(ids@ =~= spec_claimable_ids(board.daily@) + spec_claimable_ids(board.event@)
            + spec_claimable_ids(board.top@) + spec_claimable_ids(board.weekly@));
    }
    ids
}

/// One entry of the premium-pick listing: the package name and whether the
/// remote flags it claimable.
pub struct PickEntry {
    pub name: String,
    pub can_claim: bool,
}

/// The names of the packages flagged claimable, in list order.
pub open spec fn spec_claimable_picks(entries: Seq<PickEntry>) -> Seq<Seq<char>>
    decreases entries.len(),
{
    if entries.len() == 0 {
        Seq::empty()
    } else {
        let rest = spec_claimable_picks(entries.drop_first());
        if entries.first().can_claim {
            seq![entries.first().name@] + rest
        } else {
            rest
        }
    }
}

proof fn lemma_picks_take_step(entries: Seq<PickEntry>, i: int)
    requires
        0 <= i < entries.len(),
    ensures
        spec_claimable_picks(entries.take(i + 1)) == if entries[i].can_claim {
            spec_claimable_picks(entries.take(i)).push(entries[i].name@)
        } else {
            spec_claimable_picks(entries.take(i))
        },
    decreases i,
{
    if i == 0 {
        assert(entries.take(1).drop_first() =~= entries.take(0));
        assert(spec_claimable_picks(entries.take(0)) =~= Seq::<Seq<char>>::empty());
        if entries[0].can_claim {
            assert(seq![entries[0].name@] + Seq::<Seq<char>>::empty() =~= spec_claimable_picks(
                entries.take(0),
            ).push(entries[0].name@));
        }
    } else {
        lemma_picks_take_step(entries.drop_first(), i - 1);
        assert(entries.take(i + 1).drop_first() =~= entries.drop_first().take(i));
        assert(entries.take(i).drop_first() =~= entries.drop_first().take(i - 1));
        assert(entries.take(i + 1).first() == entries.first());
        assert(entries.take(i).first() == entries.first());
        assert(entries.drop_first()[i - 1] == entries[i]);
        if entries[i].can_claim {
            assert(spec_claimable_picks(entries.take(i + 1)) =~= spec_claimable_picks(
                entries.take(i),
            ).push(entries[i].name@));
        }
    }
}

/// Collects the names of the premium picks flagged claimable, in list order.
pub fn claimable_picks(packages: &Vec<PickEntry>) -> (names: Vec<String>)
    ensures
        names@.map_values(|s: String| s@) == spec_claimable_picks(packages@),
{
    let mut names: Vec<String> = Vec::new();
    let n = packages.len();
    let mut i: usize = 0;
    while i < n
        invariant
            i <= n,
            n == packages@.len(),
            names@.map_values(|s: String| s@) == spec_claimable_picks(packages@.take(i as int)),
        decreases n - i,
    {
        proof {
            lemma_picks_take_step(packages@, i as int);
        }
        let e = &packages[i];
        if e.can_claim {
            let name = e.name.clone();
            names.push(name);
            proof {
                assert(names@.map_values(|s: String| s@) =~= spec_claimable_picks(
                    packages@.take(i as int + 1),
                ));
            }
        } else {
            proof {
                assert(names@.map_values(|s: String| s@) =~= spec_claimable_picks(
                    packages@.take(i as int + 1),
                ));
            }
        }
        i = i + 1;
    }
    proof {
        assert(packages@.take(n as int) =~= packages@);
    }
    names
}

} // verus!
