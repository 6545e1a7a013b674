//! Runs of the campaign contract: any sequence of calls, and what holds along it.
use vstd::prelude::*;

use crate::campaign::{empty_view, initialize_spec, set_admin_spec, set_frozen_spec, ContractView};
use crate::donation::{apply_donation_spec, donate_spec, new_record_spec, unlock_spec};
use crate::keyed::{lemma_lookup_upsert_other, lemma_lookup_upsert_same, lookup};
use crate::refund::{claim_refund_spec, eligible_spec};
use crate::release::release_spec;
use crate::types::{AssetInfoView, DonorRecordView, Error, MilestoneDataView, StellarAssetView};

verus! {

/// A call that may change the campaign contract's storage, with its arguments.
pub enum Call {
    Initialize {
        creator: Seq<u8>,
        goal_amount: i128,
        end_time: u64,
        assets: Seq<StellarAssetView>,
        milestones: Seq<MilestoneDataView>,
        min_donation_amount: i128,
        now: u64,
        ledger: u32,
    },
    SetAdmin { new_admin: Seq<u8> },
    Freeze,
    Unfreeze,
    Donate { donor: Seq<u8>, amount: i128, asset: AssetInfoView, now: u64, ledger: u32 },
    ClaimRefund { donor: Seq<u8>, now: u64 },
    Release { index: u32, recipient: Seq<u8>, now: u64 },
}

/// The outcome of one call on storage `s`.
pub open spec fn call_spec(s: ContractView, c: Call) -> Result<ContractView, Error> {
    match c {
        Call::Initialize {
            creator,
            goal_amount,
            end_time,
            assets,
            milestones,
            min_donation_amount,
            now,
            ledger,
        } => initialize_spec(s, creator, goal_amount, end_time, assets, milestones, min_donation_amount, now, ledger),
        Call::SetAdmin { new_admin } => set_admin_spec(s, new_admin),
        Call::Freeze => set_frozen_spec(s, true),
        Call::Unfreeze => set_frozen_spec(s, false),
        Call::Donate { donor, amount, asset, now, ledger } => donate_spec(s, donor, amount, asset, now, ledger),
        Call::ClaimRefund { donor, now } => match claim_refund_spec(s, donor, now) {
            Ok((s2, _)) => Ok(s2),
            Err(e) => Err(e),
        },
        Call::Release { index, recipient, now } => match release_spec(s, index, recipient, now) {
            Ok((s2, _)) => Ok(s2),
            Err(e) => Err(e),
        },
    }
}

/// Storage after one call: the new storage, or the same storage when refused.
pub open spec fn after(s: ContractView, c: Call) -> ContractView {
    match call_spec(s, c) {
        Ok(s2) => s2,
        Err(_) => s,
    }
}

/// Storage after running `calls` in order from `s`.
pub open spec fn run(s: ContractView, calls: Seq<Call>) -> ContractView
    decreases calls.len(),
{
    if calls.len() == 0 {
        s
    } else {
        after(run(s, calls.drop_last()), calls.last())
    }
}

/// The amounts of the donations that succeeded when running `calls` from `s`, summed.
pub open spec fn donated(s: ContractView, calls: Seq<Call>) -> int
    decreases calls.len(),
{
    if calls.len() == 0 {
        0
    } else {
        let prev = run(s, calls.drop_last());
        donated(s, calls.drop_last()) + match calls.last() {
            Call::Donate { amount, .. } => if call_spec(prev, calls.last()) is Ok {
                amount as int
            } else {
                0
            },
            _ => 0,
        }
    }
}

/// Whether a donation by `d` succeeded when running `calls` from `s`.
pub open spec fn has_donated(s: ContractView, calls: Seq<Call>, d: Seq<u8>) -> bool
    decreases calls.len(),
{
    if calls.len() == 0 {
        false
    } else {
        has_donated(s, calls.drop_last(), d) || match calls.last() {
            Call::Donate { donor, .. } => donor == d && call_spec(run(s, calls.drop_last()), calls.last()) is Ok,
            _ => false,
        }
    }
}

/// Whether a refund claim by `d` succeeded when running `calls` from `s`.
pub open spec fn has_claimed(s: ContractView, calls: Seq<Call>, d: Seq<u8>) -> bool
    decreases calls.len(),
{
    if calls.len() == 0 {
        false
    } else {
        has_claimed(s, calls.drop_last(), d) || match calls.last() {
            Call::ClaimRefund { donor, .. } => donor == d && call_spec(run(s, calls.drop_last()), calls.last())
                is Ok,
            _ => false,
        }
    }
}

/// `d` has a record, and it is marked refunded.
pub open spec fn refund_marked(donors: Seq<(Seq<u8>, DonorRecordView)>, d: Seq<u8>) -> bool {
    match lookup(donors, d) {
        Some(r) => r.refund_claimed,
        None => false,
    }
}

/// Every released milestone comes after released milestones only.
pub open spec fn releases_prefix(ms: Seq<MilestoneDataView>) -> bool {
    forall|i: int, j: int|
        0 <= j < i < ms.len() && (#[trigger] ms[i]).status is Released ==> (#[trigger] ms[j]).status
            is Released
}

/// Every initialization among `calls` declares its milestones with the released
/// ones forming a prefix (for instance, all locked).
pub open spec fn initializations_prefix(calls: Seq<Call>) -> bool {
    forall|k: int|
        0 <= k < calls.len() ==> match #[trigger] calls[k] {
            Call::Initialize { milestones, .. } => releases_prefix(milestones),
            _ => true,
        }
}

/// What every reachable storage satisfies on the raised amounts: the total is
/// zero before initialization and equals the campaign's raised amount after.
pub open spec fn totals_agree(s: ContractView) -> bool {
    match s.campaign {
        None => s.total_raised == 0,
        Some(c) => c.raised_amount == s.total_raised,
    }
}

proof fn lemma_after_totals(s: ContractView, c: Call)
    requires
        totals_agree(s),
    ensures
        totals_agree(after(s, c)),
        after(s, c).total_raised == s.total_raised + match c {
            Call::Donate { amount, .. } => if call_spec(s, c) is Ok {
                amount as int
            } else {
                0
            },
            _ => 0,
        },
{
}

/// Along any run from a fresh contract, the total raised is the sum of the
/// successful donations, it equals the campaign's raised amount once the
/// campaign exists, and it never decreases from one call to the next.
pub proof fn law_total_is_sum_of_donations(calls: Seq<Call>)
    ensures
        run(empty_view(), calls).total_raised == donated(empty_view(), calls),
        totals_agree(run(empty_view(), calls)),
        calls.len() > 0 ==> run(empty_view(), calls.drop_last()).total_raised <= run(
            empty_view(),
            calls,
        ).total_raised,
    decreases calls.len(),
{
    if calls.len() > 0 {
        law_total_is_sum_of_donations(calls.drop_last());
        let prev = run(empty_view(), calls.drop_last());
        lemma_after_totals(prev, calls.last());
    }
}

/// Donor records after one call: a donor has a record after the call exactly
/// when it had one before or donated successfully in this call, and a record
/// marked refunded stays so, or becomes so when the call is the donor's
/// successful refund claim.
proof fn lemma_after_donor(s: ContractView, c: Call, d: Seq<u8>)
    requires
        s.campaign is None ==> lookup(s.donors, d) is None,
    ensures
        after(s, c).campaign is None ==> lookup(after(s, c).donors, d) is None,
        (lookup(after(s, c).donors, d) is Some) == (lookup(s.donors, d) is Some || match c {
            Call::Donate { donor, .. } => donor == d && call_spec(s, c) is Ok,
            _ => false,
        }),
        refund_marked(s.donors, d) || (match c {
            Call::ClaimRefund { donor, .. } => donor == d && call_spec(s, c) is Ok,
            _ => false,
        }) ==> refund_marked(after(s, c).donors, d),
{
    match c {
        Call::Donate { donor, amount, asset, now, ledger } => {
            if call_spec(s, c) is Ok {
                let rec = match lookup(s.donors, donor) {
                    Some(x) => x,
                    None => new_record_spec(donor),
                };
                let newrec = apply_donation_spec(rec, amount, now, ledger, asset);
                if donor == d {
                    lemma_lookup_upsert_same(s.donors, donor, newrec);
                } else {
                    lemma_lookup_upsert_other(s.donors, donor, newrec, d);
                }
            }
        },
        Call::ClaimRefund { donor, now } => {
            if call_spec(s, c) is Ok {
                let r = lookup(s.donors, donor)->Some_0;
                let newrec = DonorRecordView { refund_claimed: true, ..r };
                if donor == d {
                    lemma_lookup_upsert_same(s.donors, donor, newrec);
                } else {
                    lemma_lookup_upsert_other(s.donors, donor, newrec, d);
                }
            }
        },
        _ => {},
    }
}

/// Along any run from a fresh contract, a donor has a record exactly when one of
/// its donations succeeded; once one of its refund claims succeeded, its record
/// stays marked refunded and it is never again eligible for a refund.
pub proof fn law_donor_records(calls: Seq<Call>, d: Seq<u8>, now: u64)
    ensures
        (lookup(run(empty_view(), calls).donors, d) is Some) == has_donated(empty_view(), calls, d),
        run(empty_view(), calls).campaign is None ==> lookup(run(empty_view(), calls).donors, d) is None,
        has_claimed(empty_view(), calls, d) ==> refund_marked(run(empty_view(), calls).donors, d),
        has_claimed(empty_view(), calls, d) ==> !eligible_spec(run(empty_view(), calls), d, now),
    decreases calls.len(),
{
    if calls.len() > 0 {
        law_donor_records(calls.drop_last(), d, now);
        let prev = run(empty_view(), calls.drop_last());
        lemma_after_donor(prev, calls.last(), d);
    } else {
        assert(empty_view().donors =~= Seq::empty());
    }
}

/// One call keeps the released milestones a prefix, when an initialization
/// declares them so.
proof fn lemma_after_prefix(s: ContractView, c: Call)
    requires
        releases_prefix(s.milestones),
        c matches Call::Initialize { milestones, .. } ==> releases_prefix(milestones),
    ensures
        releases_prefix(after(s, c).milestones),
{
    match c {
        Call::Donate { donor, amount, asset, now, ledger } => {
            if call_spec(s, c) is Ok {
                let ms2 = after(s, c).milestones;
                assert(ms2 == unlock_spec(s.milestones, (s.campaign->Some_0.raised_amount + amount) as i128));
                assert forall|i: int, j: int|
                    0 <= j < i < ms2.len() && (#[trigger] ms2[i]).status is Released implies (
                    #[trigger] ms2[j]).status is Released by {
                    assert(s.milestones[i].status is Released);
                    assert(s.milestones[j].status is Released);
                }
            }
        },
        Call::Release { index, recipient, now } => {
            if call_spec(s, c) is Ok {
                let ms = s.milestones;
                let ms2 = after(s, c).milestones;
                let k = index as int;
                assert forall|i: int, j: int|
                    0 <= j < i < ms2.len() && (#[trigger] ms2[i]).status is Released implies (
                    #[trigger] ms2[j]).status is Released by {
                    if j != k {
                        assert(ms2[j] == ms[j]);
                        if i == k {
                            if j < k - 1 {
                                assert(ms[k - 1].status is Released);
                            }
                        } else {
                            assert(ms2[i] == ms[i]);
                        }
                    }
                }
            }
        },
        _ => {},
    }
}

/// Along any run from a fresh contract whose initializations declare no
/// released milestone out of order (for instance, all locked), a milestone is
/// released only after every earlier milestone.
pub proof fn law_releases_in_order(calls: Seq<Call>)
    requires
        initializations_prefix(calls),
    ensures
        releases_prefix(run(empty_view(), calls).milestones),
    decreases calls.len(),
{
    if calls.len() > 0 {
        assert(initializations_prefix(calls.drop_last())) by {
            assert forall|k: int| 0 <= k < calls.drop_last().len() implies match #[trigger] calls.drop_last()[k] {
                Call::Initialize { milestones, .. } => releases_prefix(milestones),
                _ => true,
            } by {
                assert(calls.drop_last()[k] == calls[k]);
            }
        }
        law_releases_in_order(calls.drop_last());
        assert(calls.last() == calls[calls.len() - 1]);
        lemma_after_prefix(run(empty_view(), calls.drop_last()), calls.last());
    }
}

/// An unlocked milestone past the first whose predecessor is not released cannot
/// be released on an initialized, unfrozen contract.
pub proof fn law_release_needs_predecessor(s: ContractView, index: u32, recipient: Seq<u8>, now: u64)
    requires
        s.campaign is Some,
        !s.frozen,
        0 < index < s.milestones.len(),
        s.milestones[index as int].status is Unlocked,
        !(s.milestones[index - 1].status is Released),
    ensures
        release_spec(s, index, recipient, now) == Err::<
            (ContractView, Seq<(Seq<u8>, i128, Seq<u8>)>),
            Error,
        >(Error::PreviousMilestoneNotReleased),
{
}

} // verus!
