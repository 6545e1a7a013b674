//! Releasing a milestone's funds to a recipient, split across the accepted assets.
use vstd::prelude::*;

use crate::campaign::{amounts_view, CampaignContract, ContractView};
use crate::donation::amount_raised_in;
use crate::keyed::amount_of;
use crate::types::{
    assets_view, copy_bytes, milestones_view, Address, Error, MilestoneData, MilestoneDataView, MilestoneStatus,
    StellarAsset, StellarAssetView,
};

verus! {

/// The payouts of a milestone release for the first `n` accepted assets, as
/// (token, amount, asset code) triples. Each asset with an issuer and a nonzero
/// raised amount `ar` receives `ar × release / total` (in unsigned 128-bit
/// arithmetic), paid when positive. `Overflow` when the product exceeds `u128`.
pub open spec fn payout_plan(
    assets: Seq<StellarAssetView>,
    raised: Seq<(Seq<u8>, i128)>,
    release: i128,
    total: i128,
    n: int,
) -> Result<Seq<(Seq<u8>, i128, Seq<u8>)>, Error>
    decreases n,
{
    if n <= 0 {
        Ok(Seq::empty())
    } else {
        match payout_plan(assets, raised, release, total, n - 1) {
            Err(e) => Err(e),
            Ok(p) => match assets[n - 1].issuer {
                None => Ok(p),
                Some(iss) => {
                    let ar = amount_of(raised, iss) as i128;
                    if ar == 0 {
                        Ok(p)
                    } else {
                        let prod = (ar as u128) as int * (release as u128) as int;
                        if prod > u128::MAX {
                            Err(Error::Overflow)
                        } else {
                            let share = ((prod as u128) / (total as u128)) as i128;
                            if share > 0 {
                                Ok(p.push((iss, share, assets[n - 1].asset_code)))
                            } else {
                                Ok(p)
                            }
                        }
                    }
                },
            },
        }
    }
}

/// The outcome of releasing milestone `index` to `recipient` at time `now`: the
/// new state and the payouts, or the reason the release is refused.
pub open spec fn release_spec(s: ContractView, index: u32, recipient: Seq<u8>, now: u64) -> Result<
    (ContractView, Seq<(Seq<u8>, i128, Seq<u8>)>),
    Error,
> {
    if s.campaign is None {
        Err(Error::NotInitialized)
    } else if s.frozen {
        Err(Error::ContractFrozen)
    } else if index >= s.milestones.len() {
        Err(Error::MilestoneNotFound)
    } else {
        let m = s.milestones[index as int];
        let c = s.campaign->Some_0;
        if m.status is Released {
            Err(Error::MilestoneAlreadyReleased)
        } else if !(m.status is Unlocked) {
            Err(Error::InvalidMilestoneTransition)
        } else if index > 0 && !(s.milestones[index - 1].status is Released) {
            Err(Error::PreviousMilestoneNotReleased)
        } else if !(i128::MIN <= m.target_amount - m.released_amount <= i128::MAX) {
            Err(Error::Overflow)
        } else {
            let release = (m.target_amount - m.released_amount) as i128;
            match payout_plan(
                c.accepted_assets,
                s.asset_raised,
                release,
                s.total_raised,
                c.accepted_assets.len() as int,
            ) {
                Err(e) => Err(e),
                Ok(p) => Ok(
                    (
                        ContractView {
                            milestones: s.milestones.update(
                                index as int,
                                MilestoneDataView {
                                    released_amount: m.target_amount,
                                    status: MilestoneStatus::Released,
                                    released_at: Some(now),
                                    released_to: Some(recipient),
                                    ..m
                                },
                            ),
                            ..s
                        },
                        p,
                    ),
                ),
            }
        }
    }
}

/// One transfer of a milestone release: the token, the amount and the asset code.
pub struct ReleasePayout {
    pub token: Address,
    pub amount: i128,
    pub asset_code: Vec<u8>,
}

/// The view of a list of payouts as (token, amount, code) triples.
pub open spec fn payouts_view(v: Seq<ReleasePayout>) -> Seq<(Seq<u8>, i128, Seq<u8>)> {
    v.map_values(|p: ReleasePayout| (p.token@, p.amount, p.asset_code@))
}

/// Once the payout plan fails, it fails the same way for every longer prefix.
proof fn lemma_payout_err_stays(
    assets: Seq<StellarAssetView>,
    raised: Seq<(Seq<u8>, i128)>,
    release: i128,
    total: i128,
    k: int,
    m: int,
)
    requires
        0 <= k <= m,
        payout_plan(assets, raised, release, total, k) is Err,
    ensures
        payout_plan(assets, raised, release, total, m) == payout_plan(assets, raised, release, total, k),
    decreases m - k,
{
    if k < m {
        lemma_payout_err_stays(assets, raised, release, total, k, m - 1);
    }
}

/// The payouts of a release of `release` split over the accepted assets in
/// proportion to what each raised out of `total`.
#[verifier::loop_isolation(false)]
fn build_payouts(
    assets: &Vec<StellarAsset>,
    raised: &Vec<(Address, i128)>,
    release: i128,
    total: i128,
) -> (r: Result<Vec<ReleasePayout>, Error>)
    requires
        forall|i: int| 0 <= i < raised@.len() ==> 0 <= #[trigger] raised@[i].1 <= total,
    ensures
        match payout_plan(assets_view(assets@), amounts_view(raised@), release, total, assets@.len() as int) {
            Ok(p) => r matches Ok(v) && payouts_view(v@) == p,
            Err(e) => r == Err::<Vec<ReleasePayout>, Error>(e),
        },
{
    let ghost a = assets_view(assets@);
    let ghost rv = amounts_view(raised@);
    let mut out: Vec<ReleasePayout> = Vec::new();
    assert(payouts_view(out@) =~= Seq::empty());
    let mut i: usize = 0;
    while i < assets.len()
        invariant
            a == assets_view(assets@),
            rv == amounts_view(raised@),
            a.len() == assets@.len(),
            0 <= i <= assets.len(),
            payout_plan(a, rv, release, total, i as int) == Ok::<
                Seq<(Seq<u8>, i128, Seq<u8>)>,
                Error,
            >(payouts_view(out@)),
        decreases assets.len() - i,
    {
        let ghost p = payouts_view(out@);
        assert(a[i as int] == assets@[i as int]@);
        match &assets[i].issuer {
            None => {},
            Some(iss) => {
                let ar = amount_raised_in(raised, iss);
                if ar != 0 {
                    let prod = match (ar as u128).checked_mul(release as u128) {
                        None => {
                            proof {
                                lemma_payout_err_stays(a, rv, release, total, i + 1, a.len() as int);
                            }
                            return Err(Error::Overflow);
                        },
                        Some(v) => v,
                    };
                    let share = (prod / (total as u128)) as i128;
                    if share > 0 {
                        out.push(
                            ReleasePayout {
                                token: iss.duplicate(),
                                amount: share,
                                asset_code: copy_bytes(&assets[i].asset_code),
                            },
                        );
                        assert(payouts_view(out@) =~= p.push(
                            (iss@, share, assets@[i as int].asset_code@),
                        ));
                    }
                }
            },
        }
        i = i + 1;
    }
    Ok(out)
}

impl CampaignContract {
    /// The creator, who must authorize milestone releases.
    pub fn get_creator(&self) -> (r: Option<Address>)
        ensures
            match self@.campaign {
                Some(c) => r matches Some(a) && a@ == c.creator,
                None => r is None,
            },
    {
        match &self.campaign {
            Some(c) => Some(c.creator.duplicate()),
            None => None,
        }
    }

    /// The stored data of milestone `index`.
    pub fn get_milestone_view(&self, index: u32) -> (r: Result<MilestoneData, Error>)
        ensures
            if (index as int) < self@.milestones.len() {
                r matches Ok(m) && m@ == self@.milestones[index as int]
            } else {
                r == Err::<MilestoneData, Error>(Error::MilestoneNotFound)
            },
    {
        let i = index as usize;
        if i < self.milestones.len() {
            assert(milestones_view(self.milestones@)[i as int] == self.milestones@[i as int]@);
            Ok(self.milestones[i].duplicate())
        } else {
            Err(Error::MilestoneNotFound)
        }
    }

    /// Releases milestone `index` to `recipient` at time `now`: marks it released
    /// with its full target released, and returns the payouts to make. The
    /// milestone must be unlocked and, past the first, its predecessor released.
    /// Refused before initialization, while frozen, for an unknown milestone, for
    /// one already released or still locked, when the previous milestone is not
    /// released, and on overflow.
    pub fn release_milestone(&mut self, milestone_index: u32, recipient: Address, now: u64) -> (r: Result<
        Vec<ReleasePayout>,
        Error,
    >)
        requires
            old(self).wf(),
        ensures
            final(self).wf(),
            match release_spec(old(self)@, milestone_index, recipient@, now) {
                Ok((s, p)) => {
                    &&& final(self)@ == s
                    &&& r matches Ok(v) && payouts_view(v@) == p
                },
                Err(e) => r == Err::<Vec<ReleasePayout>, Error>(e) && final(self)@ == old(self)@,
            },
    {
        let payouts = match &self.campaign {
            None => {
                return Err(Error::NotInitialized);
            },
            Some(c) => {
                if self.frozen {
                    return Err(Error::ContractFrozen);
                }
                let idx = milestone_index as usize;
                if idx >= self.milestones.len() {
                    return Err(Error::MilestoneNotFound);
                }
                let m = &self.milestones[idx];
                assert(milestones_view(self.milestones@)[idx as int] == m@);
                if m.status == MilestoneStatus::Released {
                    return Err(Error::MilestoneAlreadyReleased);
                }
                if m.status != MilestoneStatus::Unlocked {
                    return Err(Error::InvalidMilestoneTransition);
                }
                if idx > 0 {
                    assert(milestones_view(self.milestones@)[idx - 1] == self.milestones@[idx - 1]@);
                    if self.milestones[idx - 1].status != MilestoneStatus::Released {
                        return Err(Error::PreviousMilestoneNotReleased);
                    }
                }
                let release = match m.target_amount.checked_sub(m.released_amount) {
                    None => {
                        return Err(Error::Overflow);
                    },
                    Some(v) => v,
                };
                assert forall|i: int| 0 <= i < self.asset_raised@.len() implies 0
                    <= #[trigger] self.asset_raised@[i].1 <= self.total_raised by {
                    assert(amounts_view(self.asset_raised@)[i].1 == self.asset_raised@[i].1);
                }
                match build_payouts(&c.accepted_assets, &self.asset_raised, release, self.total_raised) {
                    Err(e) => {
                        return Err(e);
                    },
                    Ok(p) => p,
                }
            },
        };
        let idx = milestone_index as usize;
        let mut m = self.milestones[idx].duplicate();
        m.released_amount = m.target_amount;
        m.status = MilestoneStatus::Released;
        m.released_at = Some(now);
        m.released_to = Some(recipient);
        let ghost ms0 = milestones_view(self.milestones@);
        let ghost newm = m@;
        self.milestones.set(idx, m);
        assert(milestones_view(self.milestones@) =~= ms0.update(idx as int, newm));
        Ok(payouts)
    }
}

} // verus!
