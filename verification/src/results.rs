//! What each operation's result is, stated from its inputs: which calls succeed,
//! and what a successful call stores and returns.
use vstd::prelude::*;

use crate::campaign::{initialize_spec, ContractView};
use crate::donation::{
    asset_code_spec, by_code, by_issuer, donate_spec, new_record_spec, token_address_spec,
};
use crate::keyed::{
    amount_of, first_index, is_first, lemma_first_found, lemma_first_index_none,
    lemma_amount_bounded, lemma_first_index_range, lemma_first_present, lemma_lookup_upsert_other,
    lemma_lookup_upsert_same, lookup,
};
use crate::refund::claim_refund_spec;
use crate::release::{payout_plan, release_spec};
use crate::types::{
    unknown_code, xlm_code, AssetInfoView, CampaignDataView, CampaignStatus, DonorRecordView,
    MilestoneDataView, MilestoneStatus, StellarAssetView,
};

verus! {

/// `i` is the first accepted asset coded `XLM`.
pub open spec fn first_xlm(assets: Seq<StellarAssetView>, i: int) -> bool {
    &&& 0 <= i < assets.len()
    &&& assets[i].asset_code == xlm_code()
    &&& forall|j: int| 0 <= j < i ==> (#[trigger] assets[j]).asset_code != xlm_code()
}

/// `i` is the first accepted asset issued by `x`.
pub open spec fn first_issued_by(assets: Seq<StellarAssetView>, x: Seq<u8>, i: int) -> bool {
    &&& 0 <= i < assets.len()
    &&& assets[i].issuer == Some(x)
    &&& forall|j: int| 0 <= j < i ==> (#[trigger] assets[j]).issuer != Some(x)
}

/// A donation in a named token goes to that token exactly when some accepted asset
/// is issued by it; a donation in the native asset goes to the issuer of the
/// first accepted asset coded `XLM`, and is not accepted when there is no such
/// asset or it names no issuer.
pub proof fn law_token_address(assets: Seq<StellarAssetView>, asset: AssetInfoView)
    ensures
        asset matches AssetInfoView::Stellar(x) ==> (token_address_spec(assets, asset) == if exists|i: int|
            0 <= i < assets.len() && (#[trigger] assets[i]).issuer == Some(x) {
            Some(x)
        } else {
            None::<Seq<u8>>
        }),
        asset matches AssetInfoView::Native ==> (forall|i: int|
            first_xlm(assets, i) ==> token_address_spec(assets, asset) == assets[i].issuer),
        asset matches AssetInfoView::Native ==> ((forall|i: int|
            0 <= i < assets.len() ==> (#[trigger] assets[i]).asset_code != xlm_code())
            ==> token_address_spec(assets, asset) is None),
{
    match asset {
        AssetInfoView::Stellar(x) => {
            let e = by_issuer(assets);
            lemma_first_index_range(e, Some(x));
            if exists|i: int| 0 <= i < assets.len() && (#[trigger] assets[i]).issuer == Some(x) {
                let i = choose|i: int| 0 <= i < assets.len() && (#[trigger] assets[i]).issuer == Some(x);
                assert(e[i].0 == Some(x));
                lemma_first_present(e, Some(x), i);
            } else {
                if first_index(e, Some(x)) >= 0 {
                    let k = first_index(e, Some(x));
                    assert(assets[k].issuer == Some(x));
                }
            }
        },
        AssetInfoView::Native => {
            let e = by_code(assets);
            lemma_first_index_range(e, xlm_code());
            assert forall|i: int| first_xlm(assets, i) implies token_address_spec(assets, asset)
                == assets[i].issuer by {
                assert(is_first(e, xlm_code(), i));
                lemma_first_found(e, xlm_code(), i);
            }
            if forall|i: int| 0 <= i < assets.len() ==> (#[trigger] assets[i]).asset_code != xlm_code() {
                if first_index(e, xlm_code()) >= 0 {
                    let k = first_index(e, xlm_code());
                    assert(assets[k].asset_code == xlm_code());
                }
            }
        },
    }
}

/// A donation is announced as `XLM` when native; in a named token, under the
/// code of the first accepted asset issued by it, or as `UNKNOWN` when there is none.
pub proof fn law_asset_code(assets: Seq<StellarAssetView>, asset: AssetInfoView)
    ensures
        asset matches AssetInfoView::Native ==> asset_code_spec(assets, asset) == xlm_code(),
        asset matches AssetInfoView::Stellar(x) ==> (forall|i: int|
            first_issued_by(assets, x, i) ==> asset_code_spec(assets, asset) == assets[i].asset_code),
        asset matches AssetInfoView::Stellar(x) ==> ((forall|i: int|
            0 <= i < assets.len() ==> (#[trigger] assets[i]).issuer != Some(x)) ==> asset_code_spec(
            assets,
            asset,
        ) == unknown_code()),
{
    if let AssetInfoView::Stellar(x) = asset {
        let e = by_issuer(assets);
        lemma_first_index_range(e, Some(x));
        assert forall|i: int| first_issued_by(assets, x, i) implies asset_code_spec(assets, asset)
            == assets[i].asset_code by {
            assert(is_first(e, Some(x), i));
            lemma_first_found(e, Some(x), i);
        }
        if forall|i: int| 0 <= i < assets.len() ==> (#[trigger] assets[i]).issuer != Some(x) {
            if first_index(e, Some(x)) >= 0 {
                let k = first_index(e, Some(x));
                assert(assets[k].issuer == Some(x));
            }
        }
    }
}

/// A donation succeeds exactly when the contract is not frozen, the campaign
/// exists and is active or has reached its goal, the amount is positive and not
/// below a positive minimum, the raised amount does not overflow, and the asset
/// names an accepted token.
pub proof fn law_donation_acceptance(
    s: ContractView,
    donor: Seq<u8>,
    amount: i128,
    asset: AssetInfoView,
    now: u64,
    ledger: u32,
)
    ensures
        donate_spec(s, donor, amount, asset, now, ledger) is Ok <==> {
            &&& !s.frozen
            &&& s.campaign is Some
            &&& s.campaign->Some_0.status == CampaignStatus::Active || s.campaign->Some_0.status
                == CampaignStatus::GoalReached
            &&& amount > 0
            &&& s.campaign->Some_0.min_donation_amount <= 0 || amount
                >= s.campaign->Some_0.min_donation_amount
            &&& s.campaign->Some_0.raised_amount + amount <= i128::MAX
            &&& token_address_spec(s.campaign->Some_0.accepted_assets, asset) is Some
        },
{
}

/// The amount stored under `k` after storing `v` there: `v` for `k`, unchanged
/// for every other key.
proof fn lemma_amount_after_upsert<K>(e: Seq<(K, i128)>, k: K, v: i128, t: K)
    ensures
        amount_of(crate::keyed::upsert(e, k, v), t) == if t == k {
            v as int
        } else {
            amount_of(e, t)
        },
{
    if t == k {
        lemma_lookup_upsert_same(e, k, v);
    } else {
        lemma_lookup_upsert_other(e, k, v, t);
    }
}

/// A successful donation raises the campaign's amount by the donation, marks
/// the goal reached exactly when an active campaign's new amount reaches it,
/// and leaves the campaign's other data alone; it adds the amount to the tally
/// of the token it resolves to and of the pair (donor, token), leaving every
/// other tally; the donor's record gains the amount in total and for the asset,
/// records the time and ledger, keeps its refund mark, and keeps every other
/// per-asset amount; each locked milestone whose target the new amount reaches
/// is unlocked, and every other milestone is unchanged; admin and freeze flag
/// stay.
pub proof fn law_donation_effects(
    s: ContractView,
    donor: Seq<u8>,
    amount: i128,
    asset: AssetInfoView,
    now: u64,
    ledger: u32,
)
    requires
        s.wf(),
        donate_spec(s, donor, amount, asset, now, ledger) is Ok,
    ensures
        ({
            let s2 = donate_spec(s, donor, amount, asset, now, ledger)->Ok_0;
            let c = s.campaign->Some_0;
            let c2 = s2.campaign->Some_0;
            let token = token_address_spec(c.accepted_assets, asset)->Some_0;
            let raised = c.raised_amount + amount;
            let rec = lookup(s.donors, donor);
            let d2 = lookup(s2.donors, donor)->Some_0;
            &&& s2.campaign is Some
            &&& c2.raised_amount == raised
            &&& c2.status == (if c.status == CampaignStatus::Active && raised >= c.goal_amount {
                CampaignStatus::GoalReached
            } else {
                c.status
            })
            &&& c2.creator == c.creator && c2.goal_amount == c.goal_amount && c2.end_time == c.end_time
            &&& c2.accepted_assets == c.accepted_assets && c2.milestone_count == c.milestone_count
            &&& c2.min_donation_amount == c.min_donation_amount
            &&& s2.total_raised == s.total_raised + amount
            &&& forall|t: Seq<u8>|
                #[trigger] amount_of(s2.asset_raised, t) == amount_of(s.asset_raised, t) + if t == token {
                    amount as int
                } else {
                    0
                }
            &&& forall|d: Seq<u8>, t: Seq<u8>|
                #[trigger] amount_of(s2.donor_asset_donations, (d, t)) == amount_of(
                    s.donor_asset_donations,
                    (d, t),
                ) + if d == donor && t == token {
                    amount as int
                } else {
                    0
                }
            &&& lookup(s2.donors, donor) is Some
            &&& d2.donor == donor
            &&& d2.total_donated == (match rec {
                Some(r) => r.total_donated as int,
                None => 0,
            }) + amount
            &&& d2.last_donation_time == now && d2.last_donation_ledger == ledger
            &&& d2.refund_claimed == (rec matches Some(r) && r.refund_claimed)
            &&& forall|a: AssetInfoView|
                #[trigger] amount_of(d2.contributions, a) == (match rec {
                    Some(r) => amount_of(r.contributions, a),
                    None => 0,
                }) + if a == asset {
                    amount as int
                } else {
                    0
                }
            &&& s2.milestones.len() == s.milestones.len()
            &&& forall|i: int|
                0 <= i < s.milestones.len() ==> (#[trigger] s2.milestones[i]) == if s.milestones[i].status
                    == MilestoneStatus::Locked && raised >= s.milestones[i].target_amount {
                    MilestoneDataView { status: MilestoneStatus::Unlocked, ..s.milestones[i] }
                } else {
                    s.milestones[i]
                }
            &&& s2.admin == s.admin && s2.frozen == s.frozen
        }),
{
    let c = s.campaign->Some_0;
    let token = token_address_spec(c.accepted_assets, asset)->Some_0;
    let s2 = donate_spec(s, donor, amount, asset, now, ledger)->Ok_0;
    lemma_amount_bounded(s.asset_raised, token, s.total_raised as int);
    lemma_amount_bounded(s.donor_asset_donations, (donor, token), s.total_raised as int);
    assert forall|t: Seq<u8>| #[trigger] amount_of(s2.asset_raised, t) == amount_of(s.asset_raised, t)
        + if t == token {
        amount as int
    } else {
        0
    } by {
        lemma_amount_after_upsert(s.asset_raised, token, (amount_of(s.asset_raised, token) + amount) as i128, t);
    }
    assert forall|d: Seq<u8>, t: Seq<u8>| #[trigger] amount_of(s2.donor_asset_donations, (d, t))
        == amount_of(s.donor_asset_donations, (d, t)) + if d == donor && t == token {
        amount as int
    } else {
        0
    } by {
        lemma_amount_after_upsert(
            s.donor_asset_donations,
            (donor, token),
            (amount_of(s.donor_asset_donations, (donor, token)) + amount) as i128,
            (d, t),
        );
    }
    let r = match lookup(s.donors, donor) {
        Some(x) => x,
        None => new_record_spec(donor),
    };
    let nr = crate::donation::apply_donation_spec(r, amount, now, ledger, asset);
    lemma_lookup_upsert_same(s.donors, donor, nr);
    lemma_first_index_range(s.donors, donor);
    if lookup(s.donors, donor) is Some {
        let k = first_index(s.donors, donor);
        assert(crate::campaign::donor_ok(s.donors[k].1, s.total_raised as int));
        lemma_amount_bounded(r.contributions, asset, r.total_donated as int);
    }
    assert(lookup(s2.donors, donor) == Some(nr));
    assert forall|a: AssetInfoView| #[trigger] amount_of(nr.contributions, a) == amount_of(r.contributions, a)
        + if a == asset {
        amount as int
    } else {
        0
    } by {
        lemma_amount_after_upsert(r.contributions, asset, (amount_of(r.contributions, asset) + amount) as i128, a);
    }
    if lookup(s.donors, donor) is None {
        assert forall|a: AssetInfoView| amount_of(r.contributions, a) == 0 by {
            lemma_first_index_range(r.contributions, a);
        }
    }
}

/// A code of one to twelve ASCII letters or digits.
pub open spec fn alnum_code(code: Seq<u8>) -> bool {
    &&& 1 <= code.len() <= 12
    &&& forall|k: int|
        0 <= k < code.len() ==> {
            let ch = #[trigger] code[k];
            (48 <= ch <= 57) || (65 <= ch <= 90) || (97 <= ch <= 122)
        }
}

/// Every accepted code being valid is every code being one to twelve ASCII letters or digits.
proof fn lemma_codes_equiv(assets: Seq<StellarAssetView>)
    ensures
        crate::campaign::all_codes_valid(assets) <==> forall|i: int|
            0 <= i < assets.len() ==> alnum_code(#[trigger] assets[i].asset_code),
{
    assert forall|i: int| 0 <= i < assets.len() implies (alnum_code(#[trigger] assets[i].asset_code)
        <==> crate::types::valid_code(assets[i].asset_code)) by {
    }
    let codes = forall|i: int| 0 <= i < assets.len() ==> alnum_code(#[trigger] assets[i].asset_code);
    assert(codes <==> crate::campaign::all_codes_valid(assets)) by {
        if codes {
            assert forall|i: int| 0 <= i < assets.len() implies crate::types::valid_code(
                #[trigger] assets[i].asset_code,
            ) by {
                assert(alnum_code(assets[i].asset_code));
            }
        }
        if crate::campaign::all_codes_valid(assets) {
            assert forall|i: int| 0 <= i < assets.len() implies alnum_code(#[trigger] assets[i].asset_code) by {
                assert(crate::types::valid_code(assets[i].asset_code));
            }
        }
    }
}

/// Targets strictly increase from one milestone to the next, the first is
/// positive, and the last is the goal.
pub open spec fn targets_climb_to(ms: Seq<MilestoneDataView>, goal_amount: i128) -> bool {
    &&& ms.len() > 0 ==> ms[0].target_amount > 0
    &&& forall|i: int, j: int|
        0 <= i && j == i + 1 && j < ms.len() ==> (#[trigger] ms[i]).target_amount < (#[trigger] ms[j]).target_amount
    &&& ms.len() > 0 ==> ms[ms.len() - 1].target_amount == goal_amount
}

/// The milestone check passes exactly when targets strictly increase from zero
/// and the last one is the goal.
proof fn lemma_targets_equiv(ms: Seq<MilestoneDataView>, goal_amount: i128)
    ensures
        crate::campaign::milestones_check(ms, goal_amount) is Ok <==> targets_climb_to(ms, goal_amount),
{
    if targets_climb_to(ms, goal_amount) {
        assert forall|i: int| 0 <= i < ms.len() implies !(ms[i].target_amount
            <= crate::campaign::prev_target(ms, i)) by {
            if i > 0 {
                assert(ms[i - 1].target_amount < ms[i].target_amount);
            }
        }
    }
    if crate::campaign::milestones_check(ms, goal_amount) is Ok {
        assert forall|i: int, j: int|
            0 <= i && j == i + 1 && j < ms.len() implies (#[trigger] ms[i]).target_amount < (
            #[trigger] ms[j]).target_amount by {
            assert(!(ms[j].target_amount <= crate::campaign::prev_target(ms, j)));
        }
        if ms.len() > 0 {
            assert(!(ms[0].target_amount <= crate::campaign::prev_target(ms, 0)));
        }
    }
}

/// Initializing a fresh contract succeeds exactly when the goal is positive,
/// the deadline lies after `now`, at least one asset is accepted and every
/// accepted code is one to twelve ASCII letters or digits, there are one to ten
/// milestones, the first target is positive, each next target is larger, and
/// the last target is the goal. A success stores an active campaign with nothing raised, made
/// by `creator` with the given goal, deadline, assets, milestone count and
/// minimum, created at `now` in ledger `ledger`; stores the given milestones;
/// makes `creator` the admin; and changes nothing else.
pub proof fn law_initialize_result(
    s: ContractView,
    creator: Seq<u8>,
    goal_amount: i128,
    end_time: u64,
    assets: Seq<StellarAssetView>,
    ms: Seq<MilestoneDataView>,
    min_donation_amount: i128,
    now: u64,
    ledger: u32,
)
    requires
        s.campaign is None,
    ensures
        initialize_spec(s, creator, goal_amount, end_time, assets, ms, min_donation_amount, now, ledger) is Ok
            <==> {
            &&& goal_amount > 0
            &&& end_time > now
            &&& assets.len() > 0
            &&& forall|i: int| 0 <= i < assets.len() ==> alnum_code(#[trigger] assets[i].asset_code)
            &&& 1 <= ms.len() <= 10
            &&& targets_climb_to(ms, goal_amount)
        },
        initialize_spec(s, creator, goal_amount, end_time, assets, ms, min_donation_amount, now, ledger) matches Ok(s2)
            ==> {
            &&& s2.campaign == Some(
                CampaignDataView {
                    creator,
                    goal_amount,
                    raised_amount: 0,
                    end_time,
                    status: CampaignStatus::Active,
                    accepted_assets: assets,
                    milestone_count: ms.len() as u32,
                    min_donation_amount,
                    created_at_ledger: ledger,
                    created_at_time: now,
                    concluded_at_ledger: None,
                },
            )
            &&& s2.admin == Some(creator)
            &&& s2.milestones == ms
            &&& s2.frozen == s.frozen && s2.donors == s.donors && s2.total_raised == s.total_raised
            &&& s2.asset_raised == s.asset_raised && s2.donor_asset_donations == s.donor_asset_donations
        },
{
    lemma_codes_equiv(assets);
    lemma_targets_equiv(ms, goal_amount);
}

/// A successful release marks the milestone released, with its whole target
/// released, at `now`, to `recipient`, leaves its other data and every other
/// milestone alone, and changes nothing else in the storage.
pub proof fn law_release_effects(s: ContractView, index: u32, recipient: Seq<u8>, now: u64)
    requires
        release_spec(s, index, recipient, now) is Ok,
    ensures
        ({
            let s2 = release_spec(s, index, recipient, now)->Ok_0.0;
            let k = index as int;
            let m = s.milestones[k];
            let m2 = s2.milestones[k];
            &&& 0 <= k < s.milestones.len()
            &&& s2.milestones.len() == s.milestones.len()
            &&& m2.status == MilestoneStatus::Released
            &&& m2.released_amount == m.target_amount
            &&& m2.released_at == Some(now)
            &&& m2.released_to == Some(recipient)
            &&& m2.index == m.index && m2.target_amount == m.target_amount
            &&& m2.description_hash == m.description_hash && m2.released_at_ledger == m.released_at_ledger
            &&& m2.release_tx == m.release_tx
            &&& forall|j: int| 0 <= j < s.milestones.len() && j != k ==> #[trigger] s2.milestones[j] == s.milestones[j]
            &&& s2.campaign == s.campaign && s2.admin == s.admin && s2.frozen == s.frozen
            &&& s2.donors == s.donors && s2.total_raised == s.total_raised
            &&& s2.asset_raised == s.asset_raised && s2.donor_asset_donations == s.donor_asset_donations
        }),
{
}

/// The payout a release of `release` out of `total` makes for one accepted
/// asset, when positive: the amount raised in its issuing token times the
/// release over the total, in that token, under the asset's code.
pub open spec fn payout_of(
    raised: Seq<(Seq<u8>, i128)>,
    release: int,
    total: int,
) -> spec_fn(StellarAssetView) -> Option<(Seq<u8>, i128, Seq<u8>)> {
    |a: StellarAssetView|
        match a.issuer {
            Some(x) => if amount_of(raised, x) > 0 && (amount_of(raised, x) * release) / total > 0 {
                Some((x, ((amount_of(raised, x) * release) / total) as i128, a.asset_code))
            } else {
                None
            },
            None => None,
        }
}

proof fn lemma_payouts_filter(
    assets: Seq<StellarAssetView>,
    raised: Seq<(Seq<u8>, i128)>,
    release: i128,
    total: i128,
    n: int,
)
    requires
        forall|i: int| 0 <= i < raised.len() ==> 0 <= #[trigger] raised[i].1 <= total,
        0 <= release,
        0 <= total,
        0 <= n <= assets.len(),
    ensures
        payout_plan(assets, raised, release, total, n) matches Ok(p) ==> p == assets.take(n).filter_map(
            payout_of(raised, release as int, total as int),
        ),
    decreases n,
{
    let f = payout_of(raised, release as int, total as int);
    if n == 0 {
        assert(assets.take(0) =~= Seq::<StellarAssetView>::empty());
    } else {
        lemma_payouts_filter(assets, raised, release, total, n - 1);
        if payout_plan(assets, raised, release, total, n) is Ok {
            assert(payout_plan(assets, raised, release, total, n - 1) is Ok);
            assets.lemma_filter_map_take_succ(f, n - 1);
            if let Some(x) = assets[n - 1].issuer {
                lemma_amount_bounded(raised, x, total as int);
                let ar = amount_of(raised, x);
                if ar > 0 {
                    crate::laws::lemma_share_at_most_pub(ar, release as int, total as int);
                }
            }
        }
    }
}

/// A release pays, in the order of the accepted assets, one transfer for each
/// asset whose issuing token raised an amount `ar` with `ar × release / total`
/// positive: exactly that amount, in that token, under the asset's code; and no
/// other transfer.
pub proof fn law_release_pays_each_asset(s: ContractView, index: u32, recipient: Seq<u8>, now: u64)
    requires
        s.wf(),
        release_spec(s, index, recipient, now) is Ok,
        s.milestones[index as int].released_amount <= s.milestones[index as int].target_amount,
    ensures
        ({
            let p = release_spec(s, index, recipient, now)->Ok_0.1;
            let m = s.milestones[index as int];
            let assets = s.campaign->Some_0.accepted_assets;
            p == assets.filter_map(
                payout_of(s.asset_raised, m.target_amount - m.released_amount, s.total_raised as int),
            )
        }),
{
    let m = s.milestones[index as int];
    let assets = s.campaign->Some_0.accepted_assets;
    lemma_payouts_filter(
        assets,
        s.asset_raised,
        (m.target_amount - m.released_amount) as i128,
        s.total_raised,
        assets.len() as int,
    );
    assert(assets.take(assets.len() as int) =~= assets);
}

/// A successful refund claim marks the claimant's record refunded, keeps the
/// rest of that record, and changes nothing else in the storage.
pub proof fn law_refund_effects(s: ContractView, donor: Seq<u8>, now: u64)
    requires
        claim_refund_spec(s, donor, now) is Ok,
    ensures
        ({
            let s2 = claim_refund_spec(s, donor, now)->Ok_0.0;
            let d = lookup(s.donors, donor)->Some_0;
            &&& lookup(s.donors, donor) is Some
            &&& lookup(s2.donors, donor) == Some(DonorRecordView { refund_claimed: true, ..d })
            &&& !d.refund_claimed
            &&& s2.campaign == s.campaign && s2.admin == s.admin && s2.frozen == s.frozen
            &&& s2.milestones == s.milestones && s2.total_raised == s.total_raised
            &&& s2.asset_raised == s.asset_raised && s2.donor_asset_donations == s.donor_asset_donations
        }),
{
    let d = lookup(s.donors, donor)->Some_0;
    lemma_lookup_upsert_same(s.donors, donor, DonorRecordView { refund_claimed: true, ..d });
}

} // verus!
