//! Properties of the contract that span several operations.
use vstd::prelude::*;

use crate::campaign::{initialize_spec, set_admin_spec, set_frozen_spec, upgrade_spec, ContractView};
use crate::donation::{
    apply_donation_spec, donate_spec, new_record_spec, raised_per_asset_spec, token_address_spec,
};
use crate::factory::{factory_deploy_spec, factory_initialize_spec, FactoryError, FactoryView};
use crate::keyed::{
    amount_fn, amount_of, first_index, lemma_amount_bounded, lemma_first_index_none, lemma_first_index_range,
    lemma_lookup_upsert_other, lemma_lookup_upsert_same, lemma_sum_prefix, lemma_sum_upsert, lookup, sum_amounts, upsert,
};
use crate::refund::{claim_refund_spec, deadline_overflows, eligible_spec, refund_plan, released_sum};
use crate::release::{payout_plan, release_spec};
use crate::types::{
    campaign_step, milestone_step, AssetInfoView, DonorRecordView, CampaignStatus, Error, MilestoneDataView,
    MilestoneStatus, StellarAssetView, valid_code, xlm_code,
};
use crate::REFUND_WINDOW;

verus! {

/// A successful initialization makes the creator the admin, and leaves an active
/// campaign with nothing raised.
pub proof fn law_initialize_sets_admin(
    s: ContractView,
    creator: Seq<u8>,
    goal_amount: i128,
    end_time: u64,
    assets: Seq<StellarAssetView>,
    ms: Seq<MilestoneDataView>,
    min_donation_amount: i128,
    now: u64,
    ledger: u32,
)
    requires
        initialize_spec(s, creator, goal_amount, end_time, assets, ms, min_donation_amount, now, ledger) is Ok,
    ensures
        ({
            let s2 = initialize_spec(s, creator, goal_amount, end_time, assets, ms, min_donation_amount, now, ledger)->Ok_0;
            &&& s2.admin == Some(creator)
            &&& s2.campaign->Some_0.status == CampaignStatus::Active
            &&& s2.campaign->Some_0.raised_amount == 0
        }),
{
}

/// A campaign can be initialized only once: a second initialization is refused.
pub proof fn law_initialize_once(
    s: ContractView,
    creator: Seq<u8>,
    goal_amount: i128,
    end_time: u64,
    assets: Seq<StellarAssetView>,
    ms: Seq<MilestoneDataView>,
    min_donation_amount: i128,
    now: u64,
    ledger: u32,
    creator2: Seq<u8>,
    goal_amount2: i128,
    end_time2: u64,
    assets2: Seq<StellarAssetView>,
    ms2: Seq<MilestoneDataView>,
    min_donation_amount2: i128,
    now2: u64,
    ledger2: u32,
)
    requires
        initialize_spec(s, creator, goal_amount, end_time, assets, ms, min_donation_amount, now, ledger) is Ok,
    ensures
        initialize_spec(
            initialize_spec(s, creator, goal_amount, end_time, assets, ms, min_donation_amount, now, ledger)->Ok_0,
            creator2,
            goal_amount2,
            end_time2,
            assets2,
            ms2,
            min_donation_amount2,
            now2,
            ledger2,
        ) == Err::<ContractView, Error>(Error::AlreadyInitialized),
{
}

/// Rotating the admin on an initialized, unfrozen contract makes the new address the admin.
pub proof fn law_set_admin_rotates(s: ContractView, new_admin: Seq<u8>)
    requires
        s.admin is Some,
        !s.frozen,
    ensures
        set_admin_spec(s, new_admin) matches Ok(s2) && s2.admin == Some(new_admin),
{
}

/// Unfreezing undoes freezing: freezing an unfrozen, initialized contract and
/// then unfreezing it gives back the same state.
pub proof fn law_unfreeze_undoes_freeze(s: ContractView)
    requires
        s.admin is Some,
        !s.frozen,
    ensures
        set_frozen_spec(set_frozen_spec(s, true)->Ok_0, false) == Ok::<ContractView, Error>(s),
{
}

/// While the contract is frozen, every state-changing operation but unfreezing
/// is refused with `ContractFrozen`: donations, refund claims, milestone
/// releases, admin changes and code upgrades.
pub proof fn law_frozen_blocks_changes(
    s: ContractView,
    donor: Seq<u8>,
    amount: i128,
    asset: AssetInfoView,
    now: u64,
    ledger: u32,
    index: u32,
    recipient: Seq<u8>,
)
    requires
        s.wf(),
        s.frozen,
    ensures
        donate_spec(s, donor, amount, asset, now, ledger) == Err::<ContractView, Error>(Error::ContractFrozen),
        claim_refund_spec(s, donor, now) == Err::<(ContractView, Seq<(Seq<u8>, i128)>), Error>(
            Error::ContractFrozen,
        ),
        release_spec(s, index, recipient, now) == Err::<
            (ContractView, Seq<(Seq<u8>, i128, Seq<u8>)>),
            Error,
        >(Error::ContractFrozen),
        set_admin_spec(s, recipient) == Err::<ContractView, Error>(Error::ContractFrozen),
        upgrade_spec(s) == Err::<Seq<u8>, Error>(Error::ContractFrozen),
{
}

/// A donation adds exactly its amount to the overall total (which stays equal
/// to the campaign's raised amount), to the tally of the token it was booked
/// against, to the donor's per-token amount and to the donor's own total.
pub proof fn law_donation_accounting(
    s: ContractView,
    donor: Seq<u8>,
    amount: i128,
    asset: AssetInfoView,
    now: u64,
    ledger: u32,
)
    requires
        s.wf(),
        donate_spec(s, donor, amount, asset, now, ledger) is Ok,
    ensures
        ({
            let s2 = donate_spec(s, donor, amount, asset, now, ledger)->Ok_0;
            let token = token_address_spec(s.campaign->Some_0.accepted_assets, asset)->Some_0;
            let before = match lookup(s.donors, donor) {
                Some(d) => d.total_donated as int,
                None => 0,
            };
            &&& s2.total_raised == s.total_raised + amount
            &&& s2.campaign->Some_0.raised_amount == s2.total_raised
            &&& amount_of(s2.asset_raised, token) == amount_of(s.asset_raised, token) + amount
            &&& amount_of(s2.donor_asset_donations, (donor, token)) == amount_of(
                s.donor_asset_donations,
                (donor, token),
            ) + amount
            &&& lookup(s2.donors, donor) matches Some(d2) && d2.total_donated == before + amount
        }),
{
    let s2 = donate_spec(s, donor, amount, asset, now, ledger)->Ok_0;
    let token = token_address_spec(s.campaign->Some_0.accepted_assets, asset)->Some_0;
    lemma_lookup_upsert_same(
        s.asset_raised,
        token,
        (amount_of(s.asset_raised, token) + amount) as i128,
    );
    lemma_lookup_upsert_same(
        s.donor_asset_donations,
        (donor, token),
        (amount_of(s.donor_asset_donations, (donor, token)) + amount) as i128,
    );
    let rec = match lookup(s.donors, donor) {
        Some(d) => d,
        None => new_record_spec(donor),
    };
    lemma_lookup_upsert_same(s.donors, donor, apply_donation_spec(rec, amount, now, ledger, asset));
    lemma_amount_bounded(s.asset_raised, token, s.total_raised as int);
    lemma_amount_bounded(s.donor_asset_donations, (donor, token), s.total_raised as int);
    lemma_first_index_range(s.donors, donor);
}


/// After a donation, a campaign whose raised amount reaches its goal is no longer
/// merely active, and the campaign's status changed, if at all, along the status graph.
pub proof fn law_donation_goal(
    s: ContractView,
    donor: Seq<u8>,
    amount: i128,
    asset: AssetInfoView,
    now: u64,
    ledger: u32,
)
    requires
        s.wf(),
        donate_spec(s, donor, amount, asset, now, ledger) is Ok,
    ensures
        ({
            let c = s.campaign->Some_0;
            let c2 = donate_spec(s, donor, amount, asset, now, ledger)->Ok_0.campaign->Some_0;
            &&& c2.raised_amount >= c2.goal_amount ==> c2.status != CampaignStatus::Active
            &&& c2.status == c.status || campaign_step(c.status, c2.status)
        }),
{
}

/// After a donation, no milestone whose target the raised amount reaches is still
/// locked, and every milestone status changed, if at all, along the milestone graph.
pub proof fn law_donation_unlocks(
    s: ContractView,
    donor: Seq<u8>,
    amount: i128,
    asset: AssetInfoView,
    now: u64,
    ledger: u32,
)
    requires
        s.wf(),
        donate_spec(s, donor, amount, asset, now, ledger) is Ok,
    ensures
        ({
            let s2 = donate_spec(s, donor, amount, asset, now, ledger)->Ok_0;
            let raised = s2.campaign->Some_0.raised_amount;
            &&& s2.milestones.len() == s.milestones.len()
            &&& forall|i: int|
                0 <= i < s2.milestones.len() && (#[trigger] s2.milestones[i]).status is Locked
                    ==> raised < s2.milestones[i].target_amount
            &&& forall|i: int|
                0 <= i < s2.milestones.len() ==> (#[trigger] s2.milestones[i]).status
                    == s.milestones[i].status || milestone_step(
                    s.milestones[i].status,
                    s2.milestones[i].status,
                )
        }),
{
}

/// A refund can be claimed only once: after a successful claim, every later claim
/// by the same donor is refused, as already claimed while the window is open and
/// as too late afterwards.
pub proof fn law_refund_once(s: ContractView, donor: Seq<u8>, now: u64, later: u64)
    requires
        s.wf(),
        claim_refund_spec(s, donor, now) is Ok,
    ensures
        ({
            let s2 = claim_refund_spec(s, donor, now)->Ok_0.0;
            let deadline = s.campaign->Some_0.end_time + REFUND_WINDOW;
            &&& later <= deadline ==> claim_refund_spec(s2, donor, later) == Err::<
                (ContractView, Seq<(Seq<u8>, i128)>),
                Error,
            >(Error::RefundAlreadyClaimed)
            &&& later > deadline ==> claim_refund_spec(s2, donor, later) == Err::<
                (ContractView, Seq<(Seq<u8>, i128)>),
                Error,
            >(Error::RefundWindowClosed)
            &&& !eligible_spec(s2, donor, later)
        }),
{
    let d = lookup(s.donors, donor)->Some_0;
    lemma_lookup_upsert_same(s.donors, donor, DonorRecordView { refund_claimed: true, ..d });
}

/// Refund eligibility agrees with refund claims: on an unfrozen contract, a
/// donor is eligible exactly when a claim is not refused for a missing campaign
/// or donor record, a status that forbids refunds, a closed window or an earlier
/// claim. An eligible claim fails only on arithmetic overflow or an asset that
/// names no accepted token.
pub proof fn law_eligibility_matches_claim(s: ContractView, donor: Seq<u8>, now: u64)
    requires
        s.wf(),
        !s.frozen,
        !deadline_overflows(s, donor),
    ensures
        eligible_spec(s, donor, now) <==> !(claim_refund_spec(s, donor, now) matches Err(e) && (e
            == Error::NotInitialized || e == Error::NoDonorRecord || e == Error::RefundNotPermitted
            || e == Error::RefundWindowClosed || e == Error::RefundAlreadyClaimed)),
{
    if s.campaign is Some && lookup(s.donors, donor) is Some {
        let c = s.campaign->Some_0;
        let d = lookup(s.donors, donor)->Some_0;
        let numer = c.raised_amount - released_sum(s.milestones, s.milestones.len() as int);
        lemma_plan_errors(
            d.contributions,
            numer as i128,
            c.raised_amount,
            c.accepted_assets,
            d.contributions.len() as int,
        );
    }
}

/// A refund plan fails only on overflow or on an asset that names no accepted token.
proof fn lemma_plan_errors(
    cs: Seq<(AssetInfoView, i128)>,
    numer: i128,
    denom: i128,
    assets: Seq<StellarAssetView>,
    n: int,
)
    ensures
        refund_plan(cs, numer, denom, assets, n) matches Err(e) ==> (e == Error::Overflow || e
            == Error::AssetNotAccepted),
    decreases n,
{
    if n > 0 {
        lemma_plan_errors(cs, numer, denom, assets, n - 1);
    }
}

/// A successful release marks the milestone released with its whole target
/// released, requires the milestone to have been unlocked and its predecessor
/// released, and a second release of the same milestone is refused.
pub proof fn law_release_once(s: ContractView, index: u32, recipient: Seq<u8>, now: u64, recipient2: Seq<u8>, now2: u64)
    requires
        s.wf(),
        release_spec(s, index, recipient, now) is Ok,
    ensures
        ({
            let s2 = release_spec(s, index, recipient, now)->Ok_0.0;
            let m = s.milestones[index as int];
            let m2 = s2.milestones[index as int];
            &&& m.status == MilestoneStatus::Unlocked
            &&& milestone_step(m.status, m2.status)
            &&& m2.status == MilestoneStatus::Released
            &&& m2.released_amount == m.target_amount
            &&& index > 0 ==> s.milestones[index - 1].status == MilestoneStatus::Released
            &&& release_spec(s2, index, recipient2, now2) == Err::<
                (ContractView, Seq<(Seq<u8>, i128, Seq<u8>)>),
                Error,
            >(Error::MilestoneAlreadyReleased)
        }),
{
}

/// The campaign status graph lets nothing leave an ended or cancelled campaign,
/// and never leads back to an earlier stage.
pub proof fn law_campaign_graph(a: CampaignStatus, b: CampaignStatus)
    ensures
        (a is Ended || a is Cancelled) ==> !campaign_step(a, b),
        campaign_step(a, b) ==> !campaign_step(b, a),
        !campaign_step(a, a),
{
}

/// The milestone status graph only moves forward: locked, unlocked, released.
pub proof fn law_milestone_graph(a: MilestoneStatus, b: MilestoneStatus)
    ensures
        milestone_step(a, b) ==> !milestone_step(b, a),
        !milestone_step(a, a),
        !milestone_step(MilestoneStatus::Released, b),
{
}

/// A factory can be initialized only once; right after initialization it has
/// its admin and has deployed nothing.
pub proof fn law_factory_initialize_once(s: FactoryView, admin: Seq<u8>, admin2: Seq<u8>)
    requires
        factory_initialize_spec(s, admin) is Ok,
    ensures
        ({
            let s2 = factory_initialize_spec(s, admin)->Ok_0;
            &&& s2.admin == Some(admin)
            &&& s2.count == 0
            &&& factory_initialize_spec(s2, admin2) == Err::<FactoryView, FactoryError>(
                FactoryError::AlreadyInitialized,
            )
        }),
{
}

/// Every recorded deployment raises the factory's counter by exactly one and
/// keeps its admin.
pub proof fn law_factory_deploy_counts(s: FactoryView)
    requires
        s.admin is Some,
        s.count < u64::MAX,
    ensures
        factory_deploy_spec(s) matches Ok(s2) && s2.count == s.count + 1 && s2.admin == s.admin,
{
}

/// A share `ar × r / t` of a release `r` is at most `r` when `0 < ar <= t`.
pub proof fn lemma_share_at_most_pub(ar: int, r: int, t: int)
    requires
        0 < ar <= t,
        0 <= r,
    ensures
        0 <= (ar * r) / t <= r,
{
    lemma_share_at_most(ar, r, t);
}

/// A share `ar × r / t` of a release `r` is at most `r` when `0 < ar <= t`.
proof fn lemma_share_at_most(ar: int, r: int, t: int)
    by (nonlinear_arith)
    requires
        0 < ar <= t,
        0 <= r,
    ensures
        0 <= (ar * r) / t <= r,
{
    assert(ar * r <= t * r);
}

/// Every payout of a release plan is positive and at most the released amount,
/// when the raised amounts lie between zero and the total.
proof fn lemma_payouts_bounded(
    assets: Seq<StellarAssetView>,
    raised: Seq<(Seq<u8>, i128)>,
    release: i128,
    total: i128,
    n: int,
)
    requires
        forall|i: int| 0 <= i < raised.len() ==> 0 <= #[trigger] raised[i].1 <= total,
        0 <= release,
        0 <= total,
    ensures
        payout_plan(assets, raised, release, total, n) matches Ok(p) ==> forall|k: int|
            0 <= k < p.len() ==> 0 < (#[trigger] p[k]).1 <= release,
    decreases n,
{
    if n > 0 {
        lemma_payouts_bounded(assets, raised, release, total, n - 1);
        if let Some(iss) = assets[n - 1].issuer {
            lemma_amount_bounded(raised, iss, total as int);
            let ar = amount_of(raised, iss) as i128;
            if ar != 0 {
                lemma_share_at_most(ar as int, release as int, total as int);
            }
        }
    }
}

/// A milestone release never pays more, in any one asset, than the amount the
/// milestone releases.
pub proof fn law_release_shares_bounded(s: ContractView, index: u32, recipient: Seq<u8>, now: u64)
    requires
        s.wf(),
        release_spec(s, index, recipient, now) is Ok,
        s.milestones[index as int].released_amount <= s.milestones[index as int].target_amount,
    ensures
        ({
            let p = release_spec(s, index, recipient, now)->Ok_0.1;
            let m = s.milestones[index as int];
            forall|k: int| 0 <= k < p.len() ==> 0 < (#[trigger] p[k]).1 <= m.target_amount - m.released_amount
        }),
{
    let m = s.milestones[index as int];
    let c = s.campaign->Some_0;
    lemma_payouts_bounded(
        c.accepted_assets,
        s.asset_raised,
        (m.target_amount - m.released_amount) as i128,
        s.total_raised,
        c.accepted_assets.len() as int,
    );
}

/// A refund `amt × numer / denom` is at most `amt` when `0 <= numer <= denom`.
proof fn lemma_refund_at_most(amt: int, numer: int, denom: int)
    by (nonlinear_arith)
    requires
        0 < amt,
        0 <= numer <= denom,
        0 < denom,
    ensures
        (amt * numer) / denom <= amt,
{
    assert(amt * numer <= amt * denom);
}

/// A positive amount scaled by a negative factor is negative.
proof fn lemma_negative_product(amt: int, numer: int)
    by (nonlinear_arith)
    requires
        0 < amt,
        numer < 0,
    ensures
        amt * numer < 0,
{
}

/// Every refund of a plan is positive and at most `bound`, when the
/// contributions are at most `bound` and the scaling factor `numer / denom` is at
/// most one.
proof fn lemma_refunds_bounded(
    cs: Seq<(AssetInfoView, i128)>,
    numer: i128,
    denom: i128,
    assets: Seq<StellarAssetView>,
    n: int,
    bound: int,
)
    requires
        forall|j: int| 0 <= j < cs.len() ==> #[trigger] cs[j].1 <= bound,
        numer <= denom,
        0 < denom,
        n <= cs.len(),
    ensures
        refund_plan(cs, numer, denom, assets, n) matches Ok(p) ==> forall|k: int|
            0 <= k < p.len() ==> 0 < (#[trigger] p[k]).1 <= bound,
    decreases n,
{
    if n > 0 {
        lemma_refunds_bounded(cs, numer, denom, assets, n - 1, bound);
        let amt = cs[n - 1].1;
        if amt > 0 {
            if numer >= 0 {
                lemma_refund_at_most(amt as int, numer as int, denom as int);
            } else {
                lemma_negative_product(amt as int, numer as int);
            }
        }
    }
}

/// When the released amounts do not add up to a negative sum, a refund never
/// pays more, in any one asset, than the donor gave in total.
pub proof fn law_refund_bounded(s: ContractView, donor: Seq<u8>, now: u64)
    requires
        s.wf(),
        claim_refund_spec(s, donor, now) is Ok,
        0 <= released_sum(s.milestones, s.milestones.len() as int),
    ensures
        ({
            let p = claim_refund_spec(s, donor, now)->Ok_0.1;
            let d = lookup(s.donors, donor)->Some_0;
            forall|k: int| 0 <= k < p.len() ==> 0 < (#[trigger] p[k]).1 <= d.total_donated
        }),
{
    let c = s.campaign->Some_0;
    let d = lookup(s.donors, donor)->Some_0;
    lemma_first_index_range(s.donors, donor);
    let numer = c.raised_amount - released_sum(s.milestones, s.milestones.len() as int);
    lemma_refunds_bounded(
        d.contributions,
        numer as i128,
        c.raised_amount,
        c.accepted_assets,
        d.contributions.len() as int,
        d.total_donated as int,
    );
}

/// A donation leaves every other donor's record unchanged.
pub proof fn law_donation_leaves_other_donors(
    s: ContractView,
    donor: Seq<u8>,
    amount: i128,
    asset: AssetInfoView,
    now: u64,
    ledger: u32,
    other: Seq<u8>,
)
    requires
        donate_spec(s, donor, amount, asset, now, ledger) is Ok,
        other != donor,
    ensures
        lookup(donate_spec(s, donor, amount, asset, now, ledger)->Ok_0.donors, other) == lookup(s.donors, other),
{
    let rec = match lookup(s.donors, donor) {
        Some(d) => d,
        None => new_record_spec(donor),
    };
    lemma_lookup_upsert_other(s.donors, donor, apply_donation_spec(rec, amount, now, ledger, asset), other);
}

/// A refund claim leaves every other donor's record unchanged.
pub proof fn law_refund_leaves_other_donors(s: ContractView, donor: Seq<u8>, now: u64, other: Seq<u8>)
    requires
        claim_refund_spec(s, donor, now) is Ok,
        other != donor,
    ensures
        lookup(claim_refund_spec(s, donor, now)->Ok_0.0.donors, other) == lookup(s.donors, other),
{
    let d = lookup(s.donors, donor)->Some_0;
    lemma_lookup_upsert_other(s.donors, donor, DonorRecordView { refund_claimed: true, ..d }, other);
}

/// The accepted assets that name an issuer name different issuers.
pub open spec fn issuers_distinct(assets: Seq<StellarAssetView>) -> bool {
    forall|i: int, j: int|
        0 <= i < j < assets.len() && (#[trigger] assets[i]).issuer is Some && (#[trigger] assets[j]).issuer
            is Some ==> assets[i].issuer != assets[j].issuer
}

/// The amounts raised in the tokens issuing the first `n` accepted assets, summed.
pub open spec fn issued_sum(assets: Seq<StellarAssetView>, raised: Seq<(Seq<u8>, i128)>, n: int) -> int
    decreases n,
{
    if n <= 0 {
        0
    } else {
        issued_sum(assets, raised, n - 1) + match assets[n - 1].issuer {
            Some(x) => amount_of(raised, x),
            None => 0,
        }
    }
}

/// The total paid out by a list of payouts.
pub open spec fn payout_total(p: Seq<(Seq<u8>, i128, Seq<u8>)>) -> int
    decreases p.len(),
{
    if p.len() == 0 {
        0
    } else {
        payout_total(p.drop_last()) + p.last().1
    }
}

/// A quotient times its divisor is at most the dividend.
proof fn lemma_div_mul_le(x: int, t: int)
    by (nonlinear_arith)
    requires
        0 <= x,
        0 < t,
    ensures
        (x / t) * t <= x,
{
}

/// Each payout, multiplied by the total raised, is at most the release times the
/// amount raised in its token; with nothing raised there are no payouts.
proof fn lemma_payout_total_scaled(
    assets: Seq<StellarAssetView>,
    raised: Seq<(Seq<u8>, i128)>,
    release: i128,
    total: i128,
    n: int,
)
    requires
        forall|i: int| 0 <= i < raised.len() ==> 0 <= #[trigger] raised[i].1 <= total,
        0 <= release,
        0 <= total,
        0 <= n <= assets.len(),
    ensures
        payout_plan(assets, raised, release, total, n) matches Ok(p) ==> {
            &&& payout_total(p) * total <= release * issued_sum(assets, raised, n)
            &&& total == 0 ==> p.len() == 0
        },
    decreases n,
{
    if n > 0 {
        lemma_payout_total_scaled(assets, raised, release, total, n - 1);
        if let Some(x) = assets[n - 1].issuer {
            lemma_amount_bounded(raised, x, total as int);
            let ar = amount_of(raised, x) as i128;
            if ar != 0 && payout_plan(assets, raised, release, total, n - 1) is Ok {
                let p = payout_plan(assets, raised, release, total, n - 1)->Ok_0;
                let prod = ar * release;
                if prod <= u128::MAX {
                    lemma_share_at_most(ar as int, release as int, total as int);
                    lemma_div_mul_le(prod, total as int);
                    let share = prod / (total as int);
                    let q = payout_plan(assets, raised, release, total, n)->Ok_0;
                    if share > 0 {
                        assert(q.drop_last() =~= p);
                    }
                    let a1 = issued_sum(assets, raised, n - 1);
                    let a = issued_sum(assets, raised, n);
                    assert(a == a1 + ar);
                    assert(release * a == release * a1 + release * ar) by (nonlinear_arith)
                        requires
                            a == a1 + ar,
                    ;
                    assert(payout_total(q) * total == payout_total(p) * total + (payout_total(q)
                        - payout_total(p)) * total) by (nonlinear_arith);
                }
            }
        }
    }
}

/// `raised` with the amount under `k` set to zero, when `k` is present.
pub open spec fn zero_key(raised: Seq<(Seq<u8>, i128)>, k: Seq<u8>) -> Seq<(Seq<u8>, i128)> {
    if lookup(raised, k) is Some {
        upsert(raised, k, 0i128)
    } else {
        raised
    }
}

/// Sums over issuers agree on two lists whose lookups agree on those issuers.
proof fn lemma_issued_sum_same(
    assets: Seq<StellarAssetView>,
    a: Seq<(Seq<u8>, i128)>,
    b: Seq<(Seq<u8>, i128)>,
    n: int,
)
    requires
        forall|j: int| 0 <= j < n && (#[trigger] assets[j]).issuer is Some ==> amount_of(
            a,
            assets[j].issuer->Some_0,
        ) == amount_of(b, assets[j].issuer->Some_0),
    ensures
        issued_sum(assets, a, n) == issued_sum(assets, b, n),
    decreases n,
{
    if n > 0 {
        lemma_issued_sum_same(assets, a, b, n - 1);
    }
}

/// Over distinct issuers, the amounts raised add up to at most the sum of all
/// amounts, when no amount is negative.
proof fn lemma_issued_sum_le(assets: Seq<StellarAssetView>, raised: Seq<(Seq<u8>, i128)>, n: int)
    requires
        forall|i: int| 0 <= i < raised.len() ==> 0 <= #[trigger] raised[i].1,
        issuers_distinct(assets),
        0 <= n <= assets.len(),
    ensures
        issued_sum(assets, raised, n) <= sum_amounts(raised),
    decreases n,
{
    if n > 0 {
        match assets[n - 1].issuer {
            None => {
                lemma_issued_sum_le(assets, raised, n - 1);
                assert(issued_sum(assets, raised, n) == issued_sum(assets, raised, n - 1));
            },
            Some(x) => {
                let z = zero_key(raised, x);
                lemma_first_index_range(raised, x);
                if lookup(raised, x) is Some {
                    lemma_sum_upsert(raised, x, 0i128, amount_fn());
                    assert forall|i: int| 0 <= i < z.len() implies 0 <= #[trigger] z[i].1 by {
                        if i != first_index(raised, x) {
                            assert(z[i] == raised[i]);
                        }
                    }
                    assert forall|j: int| 0 <= j < n - 1 && (#[trigger] assets[j]).issuer is Some implies amount_of(
                        raised,
                        assets[j].issuer->Some_0,
                    ) == amount_of(z, assets[j].issuer->Some_0) by {
                        assert(assets[j].issuer != assets[n - 1].issuer);
                        lemma_lookup_upsert_other(raised, x, 0i128, assets[j].issuer->Some_0);
                    }
                    assert(sum_amounts(z) == sum_amounts(raised) - amount_of(raised, x));
                }
                lemma_issued_sum_same(assets, raised, z, n - 1);
                lemma_issued_sum_le(assets, z, n - 1);
                assert(issued_sum(assets, raised, n) == issued_sum(assets, raised, n - 1) + amount_of(raised, x));
                assert(issued_sum(assets, z, n - 1) <= sum_amounts(z));
                assert(issued_sum(assets, raised, n - 1) == issued_sum(assets, z, n - 1));
                if lookup(raised, x) is None {
                    assert(amount_of(raised, x) == 0);
                    assert(z == raised);
                }
                assert(sum_amounts(z) == sum_amounts(raised) - amount_of(raised, x));
            },
        }
    } else {
        lemma_sum_prefix(raised, 0, amount_fn());
    }
}

/// Dividing both sides of `p * t <= r * t` by a positive `t`.
proof fn lemma_cancel(p: int, r: int, i: int, t: int)
    by (nonlinear_arith)
    requires
        p * t <= r * i,
        i <= t,
        0 <= r,
        0 < t,
    ensures
        p <= r,
{
    assert(r * i <= r * t);
}

/// When the accepted assets name distinct issuers, a milestone release pays out
/// in total no more than the amount the milestone releases.
pub proof fn law_release_total_bounded(s: ContractView, index: u32, recipient: Seq<u8>, now: u64)
    requires
        s.wf(),
        release_spec(s, index, recipient, now) is Ok,
        s.milestones[index as int].released_amount <= s.milestones[index as int].target_amount,
        issuers_distinct(s.campaign->Some_0.accepted_assets),
    ensures
        ({
            let p = release_spec(s, index, recipient, now)->Ok_0.1;
            let m = s.milestones[index as int];
            payout_total(p) <= m.target_amount - m.released_amount
        }),
{
    let m = s.milestones[index as int];
    let c = s.campaign->Some_0;
    let r = (m.target_amount - m.released_amount) as i128;
    let n = c.accepted_assets.len() as int;
    lemma_payout_total_scaled(c.accepted_assets, s.asset_raised, r, s.total_raised, n);
    lemma_issued_sum_le(c.accepted_assets, s.asset_raised, n);
    let p = release_spec(s, index, recipient, now)->Ok_0.1;
    if s.total_raised > 0 {
        lemma_cancel(payout_total(p), r as int, issued_sum(c.accepted_assets, s.asset_raised, n), s.total_raised as int);
    }
}

/// The refund paid for one contribution, when positive: the contribution times
/// `numer / denom`, in the contribution's token.
pub open spec fn refund_of(
    assets: Seq<StellarAssetView>,
    numer: int,
    denom: int,
) -> spec_fn((AssetInfoView, i128)) -> Option<(Seq<u8>, i128)> {
    |c: (AssetInfoView, i128)|
        if c.1 > 0 && c.1 * numer > 0 && (c.1 * numer) / denom > 0 {
            Some((token_address_spec(assets, c.0)->Some_0, ((c.1 * numer) / denom) as i128))
        } else {
            None
        }
}

proof fn lemma_refund_plan_filter(
    cs: Seq<(AssetInfoView, i128)>,
    numer: i128,
    denom: i128,
    assets: Seq<StellarAssetView>,
    n: int,
)
    requires
        0 < denom,
        0 <= n <= cs.len(),
    ensures
        refund_plan(cs, numer, denom, assets, n) matches Ok(p) ==> p == cs.take(n).filter_map(
            refund_of(assets, numer as int, denom as int),
        ),
    decreases n,
{
    let f = refund_of(assets, numer as int, denom as int);
    if n == 0 {
        assert(cs.take(0) =~= Seq::<(AssetInfoView, i128)>::empty());
    } else {
        lemma_refund_plan_filter(cs, numer, denom, assets, n - 1);
        if refund_plan(cs, numer, denom, assets, n) is Ok {
            assert(refund_plan(cs, numer, denom, assets, n - 1) is Ok);
            cs.lemma_filter_map_take_succ(f, n - 1);
        }
    }
}

/// A refund claim pays, in order, one transfer for each of the donor's
/// contributions whose scaled amount `contribution × (raised − released) /
/// raised` is positive: exactly that amount, in that contribution's token; and
/// no other transfer.
pub proof fn law_refund_pays_each_contribution(s: ContractView, donor: Seq<u8>, now: u64)
    requires
        s.wf(),
        claim_refund_spec(s, donor, now) is Ok,
    ensures
        ({
            let p = claim_refund_spec(s, donor, now)->Ok_0.1;
            let c = s.campaign->Some_0;
            let d = lookup(s.donors, donor)->Some_0;
            let numer = c.raised_amount - released_sum(s.milestones, s.milestones.len() as int);
            p == d.contributions.filter_map(refund_of(c.accepted_assets, numer, c.raised_amount as int))
        }),
{
    let c = s.campaign->Some_0;
    let d = lookup(s.donors, donor)->Some_0;
    lemma_first_index_range(s.donors, donor);
    let numer = c.raised_amount - released_sum(s.milestones, s.milestones.len() as int);
    lemma_refund_plan_filter(d.contributions, numer as i128, c.raised_amount, c.accepted_assets, d.contributions.len() as int);
    assert(d.contributions.take(d.contributions.len() as int) =~= d.contributions);
}

/// A donation to a campaign that has ended or been cancelled is refused with
/// `CampaignNotActive` (unless the contract is frozen, which refuses it first).
pub proof fn law_donation_needs_running_campaign(
    s: ContractView,
    donor: Seq<u8>,
    amount: i128,
    asset: AssetInfoView,
    now: u64,
    ledger: u32,
)
    requires
        !s.frozen,
        s.campaign matches Some(c) && (c.status == CampaignStatus::Ended || c.status
            == CampaignStatus::Cancelled),
    ensures
        donate_spec(s, donor, amount, asset, now, ledger) == Err::<ContractView, Error>(
            Error::CampaignNotActive,
        ),
{
}

/// A successful initialization stores exactly the given assets, and every one
/// of them has a code of one to twelve ASCII letters or digits.
pub proof fn law_initialize_stores_valid_codes(
    s: ContractView,
    creator: Seq<u8>,
    goal_amount: i128,
    end_time: u64,
    assets: Seq<StellarAssetView>,
    ms: Seq<MilestoneDataView>,
    min_donation_amount: i128,
    now: u64,
    ledger: u32,
)
    requires
        initialize_spec(s, creator, goal_amount, end_time, assets, ms, min_donation_amount, now, ledger) is Ok,
    ensures
        ({
            let c = initialize_spec(s, creator, goal_amount, end_time, assets, ms, min_donation_amount, now, ledger)->Ok_0.campaign->Some_0;
            &&& c.accepted_assets == assets
            &&& forall|i: int, k: int|
                0 <= i < assets.len() && 0 <= k < (#[trigger] assets[i]).asset_code.len() ==> {
                    let ch = #[trigger] assets[i].asset_code[k];
                    (48 <= ch <= 57) || (65 <= ch <= 90) || (97 <= ch <= 122)
                }
            &&& forall|i: int|
                0 <= i < assets.len() ==> 1 <= (#[trigger] assets[i]).asset_code.len() <= 12
        }),
{
    assert forall|i: int, k: int|
        0 <= i < assets.len() && 0 <= k < (#[trigger] assets[i]).asset_code.len() implies {
            let ch = #[trigger] assets[i].asset_code[k];
            (48 <= ch <= 57) || (65 <= ch <= 90) || (97 <= ch <= 122)
        } by {
        assert(valid_code(assets[i].asset_code));
    }
}

/// An initialization is refused with `InvalidAssetCode` when the earlier checks
/// pass and some accepted asset's code is empty, longer than twelve, or holds a
/// byte other than an ASCII letter or digit.
pub proof fn law_initialize_refuses_bad_code(
    s: ContractView,
    creator: Seq<u8>,
    goal_amount: i128,
    end_time: u64,
    assets: Seq<StellarAssetView>,
    ms: Seq<MilestoneDataView>,
    min_donation_amount: i128,
    now: u64,
    ledger: u32,
    i: int,
)
    requires
        s.campaign is None,
        goal_amount > 0,
        end_time > now,
        0 <= i < assets.len(),
        assets[i].asset_code.len() == 0 || assets[i].asset_code.len() > 12 || exists|k: int|
            0 <= k < assets[i].asset_code.len() && {
                let ch = #[trigger] assets[i].asset_code[k];
                !((48 <= ch <= 57) || (65 <= ch <= 90) || (97 <= ch <= 122))
            },
    ensures
        initialize_spec(s, creator, goal_amount, end_time, assets, ms, min_donation_amount, now, ledger)
            == Err::<ContractView, Error>(Error::InvalidAssetCode),
{
    assert(!valid_code(assets[i].asset_code));
}

/// The amount stored under token `t` in `raised`: that of the first entry for
/// `t`, or zero when there is none.
pub open spec fn is_tally(raised: Seq<(Seq<u8>, i128)>, t: Seq<u8>, x: i128) -> bool {
    ||| exists|j: int|
        0 <= j < raised.len() && raised[j].0 == t && x == raised[j].1 && forall|m: int|
            0 <= m < j ==> (#[trigger] raised[m]).0 != t
    ||| (forall|j: int| 0 <= j < raised.len() ==> (#[trigger] raised[j]).0 != t) && x == 0
}

/// The per-asset report lists the accepted assets in order, each as the native
/// asset when its code is `XLM` and as its issuer otherwise, with the amount
/// stored under the token that this description resolves to, whatever order
/// the tokens were first donated in.
pub proof fn law_raised_per_asset_reads_tallies(s: ContractView)
    requires
        raised_per_asset_spec(s) is Ok,
    ensures
        ({
            let v = raised_per_asset_spec(s)->Ok_0;
            let assets = s.campaign->Some_0.accepted_assets;
            &&& v.len() == assets.len()
            &&& forall|i: int|
                0 <= i < v.len() ==> (#[trigger] v[i]).0 == (if assets[i].asset_code == xlm_code() {
                    AssetInfoView::Native
                } else {
                    AssetInfoView::Stellar(assets[i].issuer->Some_0)
                })
            &&& forall|i: int|
                0 <= i < v.len() ==> is_tally(
                    s.asset_raised,
                    token_address_spec(assets, (#[trigger] v[i]).0)->Some_0,
                    v[i].1,
                )
        }),
{
    let v = raised_per_asset_spec(s)->Ok_0;
    let assets = s.campaign->Some_0.accepted_assets;
    assert forall|i: int| 0 <= i < v.len() implies is_tally(
        s.asset_raised,
        token_address_spec(assets, (#[trigger] v[i]).0)->Some_0,
        v[i].1,
    ) by {
        let t = token_address_spec(assets, v[i].0)->Some_0;
        lemma_first_index_range(s.asset_raised, t);
        if first_index(s.asset_raised, t) == -1 {
            lemma_first_index_none(s.asset_raised, t);
        }
    }
}

} // verus!
