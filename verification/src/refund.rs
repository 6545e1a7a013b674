//! Refunds: who may claim one, and what a claim pays out per asset.
use vstd::prelude::*;

use crate::campaign::{donated_fn, donor_ok, donors_view, CampaignContract, ContractView};
use crate::donation::{get_token_address_for_asset, token_address_spec};
use crate::keyed::{lemma_sum_upsert, first_index, lemma_first_absent, lemma_first_found, lookup, upsert};
use crate::types::{
    contributions_view, milestones_view, Address, AssetInfo, AssetInfoView, CampaignDataView,
    CampaignStatus, DonorRecord, DonorRecordView, Error, MilestoneData, MilestoneDataView,
    MilestoneStatus, StellarAsset, StellarAssetView, assets_view,
};
use crate::REFUND_WINDOW;

verus! {

/// Some milestone has been released.
pub open spec fn any_released(ms: Seq<MilestoneDataView>) -> bool {
    exists|i: int| 0 <= i < ms.len() && (#[trigger] ms[i]).status is Released
}

/// The campaign's status allows refunds: it was cancelled, or it ended without
/// any milestone released.
pub open spec fn refund_permitted(c: CampaignDataView, ms: Seq<MilestoneDataView>) -> bool {
    c.status is Cancelled || (c.status is Ended && !any_released(ms))
}

/// A refund check for `donor` gets as far as computing the refund deadline.
pub open spec fn deadline_reached(s: ContractView, donor: Seq<u8>) -> bool {
    &&& s.campaign is Some
    &&& lookup(s.donors, donor) is Some
    &&& refund_permitted(s.campaign->Some_0, s.milestones)
}

/// Computing the refund deadline for `donor` overflows a `u64`.
pub open spec fn deadline_overflows(s: ContractView, donor: Seq<u8>) -> bool {
    deadline_reached(s, donor) && s.campaign->Some_0.end_time + REFUND_WINDOW > u64::MAX
}

/// `donor` may claim a refund at time `now`: the campaign exists, the donor gave,
/// the campaign was cancelled or ended without a release, the refund window
/// (thirty days after the deadline) is still open, and no refund was claimed yet.
pub open spec fn eligible_spec(s: ContractView, donor: Seq<u8>, now: u64) -> bool {
    &&& deadline_reached(s, donor)
    &&& now <= s.campaign->Some_0.end_time + REFUND_WINDOW
    &&& !lookup(s.donors, donor)->Some_0.refund_claimed
}

/// The sum of the released amounts of the first `n` milestones.
pub open spec fn released_sum(ms: Seq<MilestoneDataView>, n: int) -> int
    decreases n,
{
    if n <= 0 {
        0
    } else {
        released_sum(ms, n - 1) + ms[n - 1].released_amount
    }
}

/// Adding up the released amounts overflows an `i128` at some step.
pub open spec fn released_sum_overflows(ms: Seq<MilestoneDataView>) -> bool {
    exists|k: int|
        1 <= k <= ms.len() && !(i128::MIN <= #[trigger] released_sum(ms, k) <= i128::MAX)
}

/// The refunds paid for the first `n` per-asset contributions, as (token, amount)
/// pairs: each positive contribution is scaled by `numer / denom` and paid when
/// the result is positive. `Overflow` when a product overflows an `i128`,
/// `AssetNotAccepted` when a refunded asset names no accepted token.
pub open spec fn refund_plan(
    cs: Seq<(AssetInfoView, i128)>,
    numer: i128,
    denom: i128,
    assets: Seq<StellarAssetView>,
    n: int,
) -> Result<Seq<(Seq<u8>, i128)>, Error>
    decreases n,
{
    if n <= 0 {
        Ok(Seq::empty())
    } else {
        match refund_plan(cs, numer, denom, assets, n - 1) {
            Err(e) => Err(e),
            Ok(p) => {
                let amt = cs[n - 1].1;
                if amt <= 0 {
                    Ok(p)
                } else {
                    let prod = amt * numer;
                    if !(i128::MIN <= prod <= i128::MAX) {
                        Err(Error::Overflow)
                    } else {
                        let refund = if prod > 0 {
                            prod / (denom as int)
                        } else {
                            0
                        };
                        if refund <= 0 {
                            Ok(p)
                        } else {
                            match token_address_spec(assets, cs[n - 1].0) {
                                None => Err(Error::AssetNotAccepted),
                                Some(t) => Ok(p.push((t, refund as i128))),
                            }
                        }
                    }
                }
            },
        }
    }
}

/// Once the refund plan fails, it fails the same way for every longer prefix.
proof fn lemma_plan_err_stays(
    cs: Seq<(AssetInfoView, i128)>,
    numer: i128,
    denom: i128,
    assets: Seq<StellarAssetView>,
    k: int,
    m: int,
)
    requires
        0 <= k <= m,
        refund_plan(cs, numer, denom, assets, k) is Err,
    ensures
        refund_plan(cs, numer, denom, assets, m) == refund_plan(cs, numer, denom, assets, k),
    decreases m - k,
{
    if k < m {
        lemma_plan_err_stays(cs, numer, denom, assets, k, m - 1);
    }
}

/// The refund `donor` receives at time `now`, or why it is refused: as a pair of
/// the new state and the (token, amount) transfers to make.
pub open spec fn claim_refund_spec(s: ContractView, donor: Seq<u8>, now: u64) -> Result<
    (ContractView, Seq<(Seq<u8>, i128)>),
    Error,
> {
    if s.frozen {
        Err(Error::ContractFrozen)
    } else if s.campaign is None {
        Err(Error::NotInitialized)
    } else if lookup(s.donors, donor) is None {
        Err(Error::NoDonorRecord)
    } else {
        let c = s.campaign->Some_0;
        let d = lookup(s.donors, donor)->Some_0;
        if !refund_permitted(c, s.milestones) {
            Err(Error::RefundNotPermitted)
        } else if c.end_time + REFUND_WINDOW > u64::MAX {
            Err(Error::Overflow)
        } else if now > c.end_time + REFUND_WINDOW {
            Err(Error::RefundWindowClosed)
        } else if d.refund_claimed {
            Err(Error::RefundAlreadyClaimed)
        } else if released_sum_overflows(s.milestones) {
            Err(Error::Overflow)
        } else {
            let numer = c.raised_amount - released_sum(s.milestones, s.milestones.len() as int);
            if !(i128::MIN <= numer <= i128::MAX) {
                Err(Error::Overflow)
            } else {
                match refund_plan(
                    d.contributions,
                    numer as i128,
                    c.raised_amount,
                    c.accepted_assets,
                    d.contributions.len() as int,
                ) {
                    Err(e) => Err(e),
                    Ok(p) => Ok(
                        (
                            ContractView {
                                donors: upsert(
                                    s.donors,
                                    donor,
                                    DonorRecordView { refund_claimed: true, ..d },
                                ),
                                ..s
                            },
                            p,
                        ),
                    ),
                }
            }
        }
    }
}

/// One token transfer from the contract to a donor.
pub struct RefundTransfer {
    pub token: Address,
    pub amount: i128,
}

/// The view of a list of transfers as (token, amount) pairs.
pub open spec fn transfers_view(v: Seq<RefundTransfer>) -> Seq<(Seq<u8>, i128)> {
    v.map_values(|t: RefundTransfer| (t.token@, t.amount))
}

/// What a refund claim pays: the transfers to make, and the donor's total for the event.
pub struct RefundPlan {
    pub transfers: Vec<RefundTransfer>,
    pub total_donated: i128,
}

/// The position of `donor`'s record, if any.
pub fn find_donor(donors: &Vec<DonorRecord>, donor: &Address) -> (r: Option<usize>)
    ensures
        match r {
            Some(i) => i < donors@.len() && i == first_index(donors_view(donors@), donor@),
            None => first_index(donors_view(donors@), donor@) == -1,
        },
{
    let ghost e = donors_view(donors@);
    let mut i: usize = 0;
    while i < donors.len()
        invariant
            e == donors_view(donors@),
            e.len() == donors@.len(),
            0 <= i <= donors.len(),
            forall|j: int| 0 <= j < i ==> e[j].0 != donor@,
        decreases donors.len() - i,
    {
        if donors[i].donor.same(donor) {
            proof {
                lemma_first_found(e, donor@, i as int);
            }
            return Some(i);
        }
        i = i + 1;
    }
    proof {
        lemma_first_absent(e, donor@);
    }
    None
}

/// Whether some milestone has been released.
fn has_released(ms: &Vec<MilestoneData>) -> (r: bool)
    ensures
        r == any_released(milestones_view(ms@)),
{
    let ghost m = milestones_view(ms@);
    let mut i: usize = 0;
    while i < ms.len()
        invariant
            m == milestones_view(ms@),
            0 <= i <= ms.len(),
            forall|j: int| 0 <= j < i ==> !((#[trigger] m[j]).status is Released),
        decreases ms.len() - i,
    {
        assert(m[i as int].status == ms@[i as int].status);
        if ms[i].status == MilestoneStatus::Released {
            return true;
        }
        i = i + 1;
    }
    false
}

/// The sum of all released amounts, or `Overflow`.
fn total_released(ms: &Vec<MilestoneData>) -> (r: Result<i128, Error>)
    ensures
        match r {
            Ok(t) => !released_sum_overflows(milestones_view(ms@)) && t == released_sum(
                milestones_view(ms@),
                ms@.len() as int,
            ),
            Err(e) => e == Error::Overflow && released_sum_overflows(milestones_view(ms@)),
        },
{
    let ghost m = milestones_view(ms@);
    let mut acc: i128 = 0;
    let mut i: usize = 0;
    while i < ms.len()
        invariant
            m == milestones_view(ms@),
            m.len() == ms@.len(),
            0 <= i <= ms.len(),
            acc == released_sum(m, i as int),
            forall|k: int| 1 <= k <= i ==> i128::MIN <= #[trigger] released_sum(m, k) <= i128::MAX,
        decreases ms.len() - i,
    {
        assert(m[i as int].released_amount == ms@[i as int].released_amount);
        match acc.checked_add(ms[i].released_amount) {
            None => {
                assert(!(i128::MIN <= released_sum(m, i + 1) <= i128::MAX));
                return Err(Error::Overflow);
            },
            Some(v) => {
                acc = v;
            },
        }
        i = i + 1;
    }
    Ok(acc)
}

/// The transfers a refund makes for the given per-asset contributions.
fn build_refund_plan(
    cs: &Vec<(AssetInfo, i128)>,
    numer: i128,
    denom: i128,
    assets: &Vec<StellarAsset>,
) -> (r: Result<Vec<RefundTransfer>, Error>)
    requires
        0 < denom,
    ensures
        match refund_plan(contributions_view(cs@), numer, denom, assets_view(assets@), cs@.len() as int) {
            Ok(p) => r matches Ok(v) && transfers_view(v@) == p,
            Err(e) => r == Err::<Vec<RefundTransfer>, Error>(e),
        },
{
    let ghost c = contributions_view(cs@);
    let mut out: Vec<RefundTransfer> = Vec::new();
    assert(transfers_view(out@) =~= Seq::empty());
    let mut i: usize = 0;
    while i < cs.len()
        invariant
            c == contributions_view(cs@),
            c.len() == cs@.len(),
            0 < denom,
            0 <= i <= cs.len(),
            refund_plan(c, numer, denom, assets_view(assets@), i as int) == Ok::<
                Seq<(Seq<u8>, i128)>,
                Error,
            >(transfers_view(out@)),
        decreases cs.len() - i,
    {
        let ghost p = transfers_view(out@);
        assert(c[i as int].1 == cs@[i as int].1 && c[i as int].0 == cs@[i as int].0@);
        let amt = cs[i].1;
        if amt > 0 {
            let prod = match amt.checked_mul(numer) {
                None => {
                    proof {
                        lemma_plan_err_stays(c, numer, denom, assets_view(assets@), i + 1, c.len() as int);
                    }
                    return Err(Error::Overflow);
                },
                Some(v) => v,
            };
            if prod > 0 {
                let refund = ((prod as u128) / (denom as u128)) as i128;
                assert(refund == (prod as int) / (denom as int)) by (nonlinear_arith)
                    requires
                        refund == ((prod as u128) / (denom as u128)) as i128,
                        0 < prod,
                        0 < denom,
                {
                    assert((prod as int) / (denom as int) <= prod as int);
                }
                if refund > 0 {
                    match get_token_address_for_asset(&cs[i].0, assets) {
                        Err(e) => {
                            proof {
                                lemma_plan_err_stays(c, numer, denom, assets_view(assets@), i + 1, c.len() as int);
                            }
                            return Err(e);
                        },
                        Ok(t) => {
                            out.push(RefundTransfer { token: t, amount: refund });
                            assert(transfers_view(out@) =~= p.push((out@.last().token@, refund)));
                        },
                    }
                }
            }
        }
        i = i + 1;
    }
    assert(c.len() == cs@.len());
    Ok(out)
}

/// Checks that the contract holds at least `amount` of a token before paying it out.
pub fn check_contract_balance(contract_balance: i128, amount: i128) -> (r: Result<(), Error>)
    ensures
        r == (if contract_balance < amount {
            Err::<(), Error>(Error::InsufficientContractBalance)
        } else {
            Ok(())
        }),
{
    if contract_balance < amount {
        Err(Error::InsufficientContractBalance)
    } else {
        Ok(())
    }
}

impl CampaignContract {
    /// The record kept for `donor`, if the donor ever gave.
    pub fn get_donor_record(&self, donor: &Address) -> (r: Option<DonorRecord>)
        ensures
            match lookup(self@.donors, donor@) {
                Some(d) => r matches Some(x) && x@ == d,
                None => r is None,
            },
    {
        match find_donor(&self.donors, donor) {
            Some(i) => Some(self.donors[i].duplicate()),
            None => None,
        }
    }

    /// The per-asset amounts `donor` gave; empty for an unknown donor.
    pub fn get_donor_asset_breakdown(&self, donor: &Address) -> (r: Vec<(AssetInfo, i128)>)
        ensures
            contributions_view(r@) == match lookup(self@.donors, donor@) {
                Some(d) => d.contributions,
                None => Seq::empty(),
            },
    {
        match find_donor(&self.donors, donor) {
            Some(i) => crate::types::copy_contributions(&self.donors[i].contributions),
            None => {
                let r: Vec<(AssetInfo, i128)> = Vec::new();
                assert(contributions_view(r@) =~= Seq::empty());
                r
            },
        }
    }

    /// Whether computing the refund deadline for `donor` would overflow; a
    /// refund check on such a state aborts.
    pub fn refund_deadline_overflows(&self, donor: &Address) -> (r: bool)
        requires
            self.wf(),
        ensures
            r == deadline_overflows(self@, donor@),
    {
        match &self.campaign {
            None => false,
            Some(c) => {
                if find_donor(&self.donors, donor).is_none() {
                    return false;
                }
                let permitted = match c.status {
                    CampaignStatus::Cancelled => true,
                    CampaignStatus::Ended => !has_released(&self.milestones),
                    _ => false,
                };
                permitted && c.end_time.checked_add(REFUND_WINDOW).is_none()
            },
        }
    }

    /// Whether `donor` may claim a refund at time `now`.
    pub fn is_refund_eligible(&self, donor: &Address, now: u64) -> (r: bool)
        requires
            self.wf(),
            !deadline_overflows(self@, donor@),
        ensures
            r == eligible_spec(self@, donor@, now),
    {
        let c = match &self.campaign {
            Some(c) => c,
            None => {
                return false;
            },
        };
        let i = match find_donor(&self.donors, donor) {
            Some(i) => i,
            None => {
                return false;
            },
        };
        assert(donors_view(self.donors@)[i as int].1 == self.donors@[i as int]@);
        if !c.status.is_terminal() {
            return false;
        }
        match c.status {
            CampaignStatus::Cancelled => {},
            CampaignStatus::Ended => {
                if has_released(&self.milestones) {
                    return false;
                }
            },
            _ => {
                return false;
            },
        }
        if now > c.end_time + REFUND_WINDOW {
            return false;
        }
        if self.donors[i].refund_claimed {
            return false;
        }
        true
    }

    /// Claims `donor`'s refund at time `now`: marks the refund claimed and returns
    /// the transfers to make. Each positive per-asset contribution is refunded in
    /// proportion to what the campaign has not yet released: contribution × (raised
    /// − released) / raised. Refused while frozen, before initialization, for an
    /// unknown donor, unless the campaign was cancelled or ended without a
    /// release, after the refund window, for a second claim, and on overflow.
    pub fn claim_refund(&mut self, donor: &Address, now: u64) -> (r: Result<RefundPlan, Error>)
        requires
            old(self).wf(),
        ensures
            final(self).wf(),
            match claim_refund_spec(old(self)@, donor@, now) {
                Ok((s, p)) => {
                    &&& final(self)@ == s
                    &&& r matches Ok(plan) && transfers_view(plan.transfers@) == p
                        && plan.total_donated == lookup(old(self)@.donors, donor@)->Some_0.total_donated
                },
                Err(e) => r == Err::<RefundPlan, Error>(e) && final(self)@ == old(self)@,
            },
    {
        if self.frozen {
            return Err(Error::ContractFrozen);
        }
        let (i, transfers) = match &self.campaign {
            None => {
                return Err(Error::NotInitialized);
            },
            Some(c) => {
                let i = match find_donor(&self.donors, donor) {
                    Some(i) => i,
                    None => {
                        return Err(Error::NoDonorRecord);
                    },
                };
                let d = &self.donors[i];
                assert(donors_view(self.donors@)[i as int].1 == d@);
                if !c.status.is_terminal() {
                    return Err(Error::RefundNotPermitted);
                }
                match c.status {
                    CampaignStatus::Cancelled => {},
                    CampaignStatus::Ended => {
                        if has_released(&self.milestones) {
                            return Err(Error::RefundNotPermitted);
                        }
                    },
                    _ => {
                        return Err(Error::RefundNotPermitted);
                    },
                }
                let deadline = match c.end_time.checked_add(REFUND_WINDOW) {
                    None => {
                        return Err(Error::Overflow);
                    },
                    Some(t) => t,
                };
                if now > deadline {
                    return Err(Error::RefundWindowClosed);
                }
                if d.refund_claimed {
                    return Err(Error::RefundAlreadyClaimed);
                }
                let released = match total_released(&self.milestones) {
                    Err(e) => {
                        return Err(e);
                    },
                    Ok(t) => t,
                };
                let numer = match c.raised_amount.checked_sub(released) {
                    None => {
                        return Err(Error::Overflow);
                    },
                    Some(v) => v,
                };
                assert(donor_ok(donors_view(self.donors@)[i as int].1, self.total_raised as int));
                let transfers = match build_refund_plan(
                    &d.contributions,
                    numer,
                    c.raised_amount,
                    &c.accepted_assets,
                ) {
                    Err(e) => {
                        return Err(e);
                    },
                    Ok(t) => t,
                };
                (i, transfers)
            },
        };
        let ghost e = donors_view(self.donors@);
        let ghost total = self.total_raised as int;
        let mut rec = self.donors[i].duplicate();
        rec.refund_claimed = true;
        let total_donated = rec.total_donated;
        self.donors.set(i, rec);
        proof {
            lemma_first_found(e, donor@, i as int);
            lemma_sum_upsert(e, donor@, DonorRecordView { refund_claimed: true, ..e[i as int].1 }, donated_fn());
            assert(donors_view(self.donors@) =~= upsert(
                e,
                donor@,
                DonorRecordView { refund_claimed: true, ..e[i as int].1 },
            ));
            assert forall|j: int| 0 <= j < donors_view(self.donors@).len() implies donor_ok(
                #[trigger] donors_view(self.donors@)[j].1,
                total,
            ) by {
                assert(donor_ok(e[j].1, total));
            }
        }
        Ok(RefundPlan { transfers, total_donated })
    }
}

} // verus!
