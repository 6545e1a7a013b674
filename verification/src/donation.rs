//! Donations: which token an asset names, how a donation updates the books,
//! and which milestones it unlocks.
use vstd::prelude::*;

use crate::campaign::{
    donated_fn, amounts_view, donor_ok, donors_view, pair_amounts_view, CampaignContract, ContractView,
};
use crate::keyed::{
    lemma_amount_bounded, lemma_sum_add_amount, lemma_sum_upsert, sum_amounts,
    add_amount, amount_of, first_index, lemma_first_absent, lemma_first_found, lookup, upsert,
};
use crate::types::{
    contributions_view, milestones_view, unknown_bytes, unknown_code, xlm_bytes, xlm_code,
    Address, AssetInfo, AssetInfoView, CampaignDataView, CampaignStatus, DonorRecord,
    DonorRecordView, Error, MilestoneData, MilestoneDataView, MilestoneStatus, StellarAsset,
    StellarAssetView, assets_view, copy_bytes,
};

verus! {

/// Accepted assets keyed by their code, with their issuer as value.
pub open spec fn by_code(assets: Seq<StellarAssetView>) -> Seq<(Seq<u8>, Option<Seq<u8>>)> {
    assets.map_values(|a: StellarAssetView| (a.asset_code, a.issuer))
}

/// Accepted assets keyed by their issuer, with their code as value.
pub open spec fn by_issuer(assets: Seq<StellarAssetView>) -> Seq<(Option<Seq<u8>>, Seq<u8>)> {
    assets.map_values(|a: StellarAssetView| (a.issuer, a.asset_code))
}

/// The token contract that receives a donation in `asset`: for a named token,
/// the token itself when some accepted asset is issued by it; for the native
/// asset, the issuer of the first accepted asset coded `XLM`. `None` when the
/// asset is not accepted.
pub open spec fn token_address_spec(assets: Seq<StellarAssetView>, asset: AssetInfoView) -> Option<
    Seq<u8>,
> {
    match asset {
        AssetInfoView::Stellar(addr) => if lookup(by_issuer(assets), Some(addr)) is Some {
            Some(addr)
        } else {
            None
        },
        AssetInfoView::Native => match lookup(by_code(assets), xlm_code()) {
            Some(Some(t)) => Some(t),
            _ => None,
        },
    }
}

/// The code under which a donation in `asset` is announced: `XLM` for the native
/// asset, else the code of the first accepted asset issued by the named token,
/// else `UNKNOWN`.
pub open spec fn asset_code_spec(assets: Seq<StellarAssetView>, asset: AssetInfoView) -> Seq<u8> {
    match asset {
        AssetInfoView::Native => xlm_code(),
        AssetInfoView::Stellar(addr) => match lookup(by_issuer(assets), Some(addr)) {
            Some(code) => code,
            None => unknown_code(),
        },
    }
}

/// The first accepted asset coded `XLM`, if any.
fn find_xlm(assets: &Vec<StellarAsset>) -> (r: Option<usize>)
    ensures
        match r {
            Some(i) => i < assets@.len() && i == first_index(by_code(assets_view(assets@)), xlm_code()),
            None => first_index(by_code(assets_view(assets@)), xlm_code()) == -1,
        },
{
    let ghost e = by_code(assets_view(assets@));
    let mut i: usize = 0;
    while i < assets.len()
        invariant
            e == by_code(assets_view(assets@)),
            e.len() == assets@.len(),
            0 <= i <= assets.len(),
            forall|j: int| 0 <= j < i ==> e[j].0 != xlm_code(),
        decreases assets.len() - i,
    {
        if assets[i].is_xlm() {
            proof {
                lemma_first_found(e, xlm_code(), i as int);
            }
            return Some(i);
        }
        i = i + 1;
    }
    proof {
        lemma_first_absent(e, xlm_code());
    }
    None
}

/// The first accepted asset issued by `addr`, if any.
fn find_issuer(assets: &Vec<StellarAsset>, addr: &Address) -> (r: Option<usize>)
    ensures
        match r {
            Some(i) => i < assets@.len() && i == first_index(by_issuer(assets_view(assets@)), Some(addr@)),
            None => first_index(by_issuer(assets_view(assets@)), Some(addr@)) == -1,
        },
{
    let ghost e = by_issuer(assets_view(assets@));
    let mut i: usize = 0;
    while i < assets.len()
        invariant
            e == by_issuer(assets_view(assets@)),
            e.len() == assets@.len(),
            0 <= i <= assets.len(),
            forall|j: int| 0 <= j < i ==> e[j].0 != Some(addr@),
        decreases assets.len() - i,
    {
        if crate::types::opt_addr_is(&assets[i].issuer, addr) {
            proof {
                lemma_first_found(e, Some(addr@), i as int);
            }
            return Some(i);
        }
        i = i + 1;
    }
    proof {
        lemma_first_absent(e, Some(addr@));
    }
    None
}

/// The token contract that receives a donation in `asset`, or `AssetNotAccepted`.
pub fn get_token_address_for_asset(asset: &AssetInfo, accepted_assets: &Vec<StellarAsset>) -> (r: Result<
    Address,
    Error,
>)
    ensures
        match token_address_spec(assets_view(accepted_assets@), asset@) {
            Some(t) => r matches Ok(a) && a@ == t,
            None => r == Err::<Address, Error>(Error::AssetNotAccepted),
        },
{
    match asset {
        AssetInfo::Stellar(addr) => {
            match find_issuer(accepted_assets, addr) {
                Some(_) => Ok(addr.duplicate()),
                None => Err(Error::AssetNotAccepted),
            }
        },
        AssetInfo::Native => {
            match find_xlm(accepted_assets) {
                Some(i) => {
                    match &accepted_assets[i].issuer {
                        Some(t) => Ok(t.duplicate()),
                        None => Err(Error::AssetNotAccepted),
                    }
                },
                None => Err(Error::AssetNotAccepted),
            }
        },
    }
}

/// The code under which a donation in `asset` is announced.
pub fn resolve_asset_code(asset: &AssetInfo, accepted_assets: &Vec<StellarAsset>) -> (r: Vec<u8>)
    ensures
        r@ == asset_code_spec(assets_view(accepted_assets@), asset@),
{
    match asset {
        AssetInfo::Native => xlm_bytes(),
        AssetInfo::Stellar(addr) => {
            match find_issuer(accepted_assets, addr) {
                Some(i) => copy_bytes(&accepted_assets[i].asset_code),
                None => unknown_bytes(),
            }
        },
    }
}

/// The amount raised in token `key`, zero when none was.
pub fn amount_raised_in(v: &Vec<(Address, i128)>, key: &Address) -> (r: i128)
    ensures
        r == amount_of(amounts_view(v@), key@),
        r != 0 ==> exists|j: int| 0 <= j < v@.len() && r == (#[trigger] v@[j]).1,
{
    let ghost e = amounts_view(v@);
    let mut i: usize = 0;
    while i < v.len()
        invariant
            e == amounts_view(v@),
            e.len() == v@.len(),
            0 <= i <= v.len(),
            forall|j: int| 0 <= j < i ==> e[j].0 != key@,
        decreases v.len() - i,
    {
        if v[i].0.same(key) {
            proof {
                lemma_first_found(e, key@, i as int);
            }
            return v[i].1;
        }
        i = i + 1;
    }
    proof {
        lemma_first_absent(e, key@);
    }
    0
}

/// The asset description under which an accepted asset's raised amount is
/// reported: the native asset for code `XLM`, else the asset's issuer.
pub open spec fn asset_info_of(a: StellarAssetView) -> AssetInfoView {
    if a.asset_code == xlm_code() {
        AssetInfoView::Native
    } else {
        AssetInfoView::Stellar(a.issuer->Some_0)
    }
}

/// Every accepted asset not coded `XLM` names its issuer.
pub open spec fn issuers_named(assets: Seq<StellarAssetView>) -> bool {
    forall|i: int|
        0 <= i < assets.len() && (#[trigger] assets[i]).asset_code != xlm_code() ==> assets[i].issuer is Some
}

/// The amount raised per accepted asset, in the order the assets were accepted.
/// `AssetNotAccepted` when some asset is coded `XLM` but the first such asset
/// names no issuer.
pub open spec fn raised_per_asset_spec(s: ContractView) -> Result<Seq<(AssetInfoView, i128)>, Error> {
    if s.campaign is None {
        Err(Error::NotInitialized)
    } else {
        let assets = s.campaign->Some_0.accepted_assets;
        if exists|i: int| 0 <= i < assets.len() && (#[trigger] assets[i]).asset_code == xlm_code()
            && token_address_spec(assets, AssetInfoView::Native) is None {
            Err(Error::AssetNotAccepted)
        } else {
            Ok(
                Seq::new(
                    assets.len(),
                    |i: int|
                        (
                            asset_info_of(assets[i]),
                            amount_of(
                                s.asset_raised,
                                token_address_spec(assets, asset_info_of(assets[i]))->Some_0,
                            ) as i128,
                        ),
                ),
            )
        }
    }
}

/// A donor's record before any donation.
pub open spec fn new_record_spec(donor: Seq<u8>) -> DonorRecordView {
    DonorRecordView {
        donor,
        total_donated: 0,
        last_donation_time: 0,
        last_donation_ledger: 0,
        contributions: Seq::empty(),
        refund_claimed: false,
    }
}

/// A donor record after a donation of `amount` in `asset` at time `now` in ledger `ledger`.
pub open spec fn apply_donation_spec(
    d: DonorRecordView,
    amount: i128,
    now: u64,
    ledger: u32,
    asset: AssetInfoView,
) -> DonorRecordView {
    DonorRecordView {
        total_donated: (d.total_donated + amount) as i128,
        last_donation_time: now,
        last_donation_ledger: ledger,
        contributions: add_amount(d.contributions, asset, amount),
        ..d
    }
}

/// A milestone reached by `raised`: still locked, with a target no larger than `raised`.
pub open spec fn unlocks(m: MilestoneDataView, raised: i128) -> bool {
    m.status is Locked && raised >= m.target_amount
}

/// The milestones after the campaign's raised amount became `raised`: every
/// reached locked milestone is unlocked, the rest are unchanged.
pub open spec fn unlock_spec(ms: Seq<MilestoneDataView>, raised: i128) -> Seq<MilestoneDataView> {
    ms.map_values(
        |m: MilestoneDataView|
            if unlocks(m, raised) {
                MilestoneDataView { status: MilestoneStatus::Unlocked, ..m }
            } else {
                m
            },
    )
}

/// The indices, in increasing order, of the milestones among the first `n` that `raised` unlocks.
pub open spec fn unlocked_indices(ms: Seq<MilestoneDataView>, raised: i128, n: int) -> Seq<u32>
    decreases n,
{
    if n <= 0 {
        Seq::empty()
    } else if unlocks(ms[n - 1], raised) {
        unlocked_indices(ms, raised, n - 1).push((n - 1) as u32)
    } else {
        unlocked_indices(ms, raised, n - 1)
    }
}

/// The state after `donor` gives `amount` in `asset` at time `now` in ledger
/// `ledger`, or the reason the donation is refused.
pub open spec fn donate_spec(
    s: ContractView,
    donor: Seq<u8>,
    amount: i128,
    asset: AssetInfoView,
    now: u64,
    ledger: u32,
) -> Result<ContractView, Error> {
    if s.frozen {
        Err(Error::ContractFrozen)
    } else if s.campaign is None {
        Err(Error::NotInitialized)
    } else {
        let c = s.campaign->Some_0;
        if !(c.status is Active || c.status is GoalReached) {
            Err(Error::CampaignNotActive)
        } else if amount <= 0 || (c.min_donation_amount > 0 && amount < c.min_donation_amount) {
            Err(Error::DonationTooSmall)
        } else if c.raised_amount + amount > i128::MAX {
            Err(Error::Overflow)
        } else if token_address_spec(c.accepted_assets, asset) is None {
            Err(Error::AssetNotAccepted)
        } else {
            let token = token_address_spec(c.accepted_assets, asset)->Some_0;
            let raised = (c.raised_amount + amount) as i128;
            let status = if raised >= c.goal_amount && c.status is Active {
                CampaignStatus::GoalReached
            } else {
                c.status
            };
            let record = match lookup(s.donors, donor) {
                Some(d) => d,
                None => new_record_spec(donor),
            };
            Ok(
                ContractView {
                    campaign: Some(CampaignDataView { raised_amount: raised, status, ..c }),
                    total_raised: (s.total_raised + amount) as i128,
                    donor_asset_donations: add_amount(s.donor_asset_donations, (donor, token), amount),
                    asset_raised: add_amount(s.asset_raised, token, amount),
                    donors: upsert(
                        s.donors,
                        donor,
                        apply_donation_spec(record, amount, now, ledger, asset),
                    ),
                    milestones: unlock_spec(s.milestones, raised),
                    ..s
                },
            )
        }
    }
}

/// What a donation reports for its events.
pub struct DonationOutcome {
    /// The donation moved the campaign from active to goal reached.
    pub goal_reached: bool,
    /// The indices of the milestones the donation unlocked.
    pub unlocked: Vec<u32>,
    /// The code under which the donation is announced.
    pub asset_code: Vec<u8>,
    /// The campaign's raised amount after the donation.
    pub raised_amount: i128,
    /// The token contract the donation was booked against.
    pub token: Address,
}

/// Adds `amount` to the entry for `key`, or appends it.
#[verifier::loop_isolation(false)]
fn add_to_amounts(v: &mut Vec<(Address, i128)>, key: &Address, amount: i128, Ghost(bound): Ghost<int>)
    requires
        forall|i: int| 0 <= i < old(v)@.len() ==> 0 <= #[trigger] old(v)@[i].1 <= bound,
        0 <= bound,
        0 < amount,
        bound + amount <= i128::MAX,
    ensures
        amounts_view(final(v)@) == add_amount(amounts_view(old(v)@), key@, amount),
        forall|i: int| 0 <= i < final(v)@.len() ==> 0 <= #[trigger] final(v)@[i].1 <= bound + amount,
{
    let ghost e = amounts_view(v@);
    let mut i: usize = 0;
    while i < v.len()
        invariant
            v@ == old(v)@,
            e == amounts_view(v@),
            0 <= i <= v.len(),
            forall|j: int| 0 <= j < i ==> e[j].0 != key@,
        decreases v.len() - i,
    {
        if v[i].0.same(key) {
            proof {
                lemma_first_found(e, key@, i as int);
            }
            let cur = v[i].1;
            v.set(i, (key.duplicate(), cur + amount));
            assert(amounts_view(v@) =~= add_amount(e, key@, amount));
            return;
        }
        i = i + 1;
    }
    proof {
        lemma_first_absent(e, key@);
    }
    v.push((key.duplicate(), amount));
    assert(amounts_view(v@) =~= add_amount(e, key@, amount));
}

/// Adds `amount` to the entry for the pair `(a, b)`, or appends it.
#[verifier::loop_isolation(false)]
fn add_to_pair_amounts(
    v: &mut Vec<(Address, Address, i128)>,
    a: &Address,
    b: &Address,
    amount: i128,
    Ghost(bound): Ghost<int>,
)
    requires
        forall|i: int| 0 <= i < old(v)@.len() ==> 0 <= #[trigger] old(v)@[i].2 <= bound,
        0 <= bound,
        0 < amount,
        bound + amount <= i128::MAX,
    ensures
        pair_amounts_view(final(v)@) == add_amount(pair_amounts_view(old(v)@), (a@, b@), amount),
        forall|i: int| 0 <= i < final(v)@.len() ==> 0 <= #[trigger] final(v)@[i].2 <= bound + amount,
{
    let ghost e = pair_amounts_view(v@);
    let ghost k = (a@, b@);
    let mut i: usize = 0;
    while i < v.len()
        invariant
            v@ == old(v)@,
            e == pair_amounts_view(v@),
            0 <= i <= v.len(),
            forall|j: int| 0 <= j < i ==> e[j].0 != k,
        decreases v.len() - i,
    {
        assert(e[i as int].0 == (v@[i as int].0@, v@[i as int].1@));
        if v[i].0.same(a) && v[i].1.same(b) {
            proof {
                lemma_first_found(e, k, i as int);
            }
            let cur = v[i].2;
            v.set(i, (a.duplicate(), b.duplicate(), cur + amount));
            assert(pair_amounts_view(v@) =~= add_amount(e, k, amount));
            return;
        }
        i = i + 1;
    }
    proof {
        lemma_first_absent(e, k);
    }
    v.push((a.duplicate(), b.duplicate(), amount));
    assert(pair_amounts_view(v@) =~= add_amount(e, k, amount));
}

/// Adds `amount` to the entry for `key`, or appends it.
#[verifier::loop_isolation(false)]
fn add_to_contributions(
    v: &mut Vec<(AssetInfo, i128)>,
    key: &AssetInfo,
    amount: i128,
    Ghost(bound): Ghost<int>,
)
    requires
        forall|i: int| 0 <= i < old(v)@.len() ==> 0 <= #[trigger] old(v)@[i].1 <= bound,
        0 <= bound,
        0 < amount,
        bound + amount <= i128::MAX,
    ensures
        contributions_view(final(v)@) == add_amount(contributions_view(old(v)@), key@, amount),
        forall|i: int| 0 <= i < final(v)@.len() ==> 0 <= #[trigger] final(v)@[i].1 <= bound + amount,
{
    let ghost e = contributions_view(v@);
    let mut i: usize = 0;
    while i < v.len()
        invariant
            v@ == old(v)@,
            e == contributions_view(v@),
            0 <= i <= v.len(),
            forall|j: int| 0 <= j < i ==> e[j].0 != key@,
        decreases v.len() - i,
    {
        if v[i].0.same(key) {
            proof {
                lemma_first_found(e, key@, i as int);
            }
            let cur = v[i].1;
            v.set(i, (key.duplicate(), cur + amount));
            assert(contributions_view(v@) =~= add_amount(e, key@, amount));
            return;
        }
        i = i + 1;
    }
    proof {
        lemma_first_absent(e, key@);
    }
    v.push((key.duplicate(), amount));
    assert(contributions_view(v@) =~= add_amount(e, key@, amount));
}

impl DonorRecord {
    /// A donor's record before any donation.
    pub fn new_for(donor: Address) -> (r: DonorRecord)
        ensures
            r@ == new_record_spec(donor@),
    {
        let r = DonorRecord {
            donor,
            total_donated: 0,
            last_donation_time: 0,
            last_donation_ledger: 0,
            contributions: Vec::new(),
            refund_claimed: false,
        };
        assert(contributions_view(r.contributions@) =~= Seq::empty());
        r
    }

    /// Books a donation of `amount` in `asset` at time `now` in ledger `ledger`.
    pub(crate) fn apply_donation(&mut self, amount: i128, now: u64, ledger: u32, asset: &AssetInfo)
        requires
            0 <= old(self).total_donated,
            0 < amount,
            old(self).total_donated + amount <= i128::MAX,
            forall|j: int|
                0 <= j < old(self)@.contributions.len() ==> 0 <= #[trigger] old(
                    self,
                )@.contributions[j].1 <= old(self).total_donated,
            sum_amounts(old(self)@.contributions) == old(self).total_donated,
        ensures
            final(self)@ == apply_donation_spec(old(self)@, amount, now, ledger, asset@),
            donor_ok(final(self)@, final(self).total_donated as int),
    {
        let ghost t = self.total_donated as int;
        let ghost c0 = self@.contributions;
        proof {
            lemma_amount_bounded(c0, asset@, t);
            lemma_sum_add_amount(c0, asset@, amount);
        }
        assert forall|i: int| 0 <= i < self.contributions@.len() implies 0
            <= #[trigger] self.contributions@[i].1 <= t by {
            assert(old(self)@.contributions[i].1 == self.contributions@[i].1);
        }
        add_to_contributions(&mut self.contributions, asset, amount, Ghost(t));
        self.total_donated = self.total_donated + amount;
        self.last_donation_time = now;
        self.last_donation_ledger = ledger;
        assert forall|j: int| 0 <= j < self@.contributions.len() implies 0
            <= #[trigger] self@.contributions[j].1 <= self.total_donated by {
            assert(self@.contributions[j].1 == self.contributions@[j].1);
        }
    }
}

/// Books a donation in the donor list: the donor's record, or a fresh one, with
/// the donation applied.
#[verifier::loop_isolation(false)]
fn record_donation(
    donors: &mut Vec<DonorRecord>,
    donor: Address,
    amount: i128,
    asset: &AssetInfo,
    now: u64,
    ledger: u32,
    Ghost(total): Ghost<int>,
)
    requires
        forall|i: int| 0 <= i < donors_view(old(donors)@).len() ==> donor_ok(#[trigger] donors_view(old(donors)@)[i].1, total),
        0 <= total,
        0 < amount,
        total + amount <= i128::MAX,
    ensures
        donors_view(final(donors)@) == upsert(
            donors_view(old(donors)@),
            donor@,
            apply_donation_spec(
                match lookup(donors_view(old(donors)@), donor@) {
                    Some(d) => d,
                    None => new_record_spec(donor@),
                },
                amount,
                now,
                ledger,
                asset@,
            ),
        ),
        forall|i: int| 0 <= i < donors_view(final(donors)@).len() ==> donor_ok(#[trigger] donors_view(final(donors)@)[i].1, total + amount),
{
    let ghost e = donors_view(donors@);
    let mut i: usize = 0;
    while i < donors.len()
        invariant
            donors@ == old(donors)@,
            e == donors_view(donors@),
            e.len() == donors@.len(),
            0 <= i <= donors.len(),
            forall|j: int| 0 <= j < i ==> e[j].0 != donor@,
        decreases donors.len() - i,
    {
        if donors[i].donor.same(&donor) {
            proof {
                lemma_first_found(e, donor@, i as int);
                assert(donor_ok(e[i as int].1, total));
            }
            let mut rec = donors[i].duplicate();
            rec.apply_donation(amount, now, ledger, asset);
            let ghost newrec = rec@;
            donors.set(i, rec);
            assert(donors_view(donors@) =~= upsert(e, donor@, newrec));
            assert forall|j: int| 0 <= j < donors_view(donors@).len() implies donor_ok(
                #[trigger] donors_view(donors@)[j].1,
                total + amount,
            ) by {
                if j != i {
                    assert(donor_ok(e[j].1, total));
                }
            }
            return;
        }
        i = i + 1;
    }
    proof {
        lemma_first_absent(e, donor@);
    }
    let mut rec = DonorRecord::new_for(donor);
    rec.apply_donation(amount, now, ledger, asset);
    let ghost newrec = rec@;
    donors.push(rec);
    assert(donors_view(donors@) =~= upsert(e, donor@, newrec));
    assert forall|j: int| 0 <= j < donors_view(donors@).len() implies donor_ok(
        #[trigger] donors_view(donors@)[j].1,
        total + amount,
    ) by {
        if j < e.len() {
            assert(donor_ok(e[j].1, total));
        }
    }
}

/// Unlocks every locked milestone whose target `raised` reaches; returns their indices.
#[verifier::loop_isolation(false)]
fn unlock_milestones(ms: &mut Vec<MilestoneData>, raised: i128) -> (r: Vec<u32>)
    requires
        old(ms)@.len() <= u32::MAX,
    ensures
        milestones_view(final(ms)@) == unlock_spec(milestones_view(old(ms)@), raised),
        r@ == unlocked_indices(milestones_view(old(ms)@), raised, old(ms)@.len() as int),
{
    let ghost m0 = milestones_view(ms@);
    let mut unlocked: Vec<u32> = Vec::new();
    let n = ms.len();
    let mut i: usize = 0;
    while i < n
        invariant
            n == ms@.len(),
            n == m0.len(),
            n <= u32::MAX,
            0 <= i <= n,
            m0 == milestones_view(old(ms)@),
            forall|j: int| 0 <= j < i ==> (#[trigger] ms@[j])@ == unlock_spec(m0, raised)[j],
            forall|j: int| i <= j < n ==> (#[trigger] ms@[j])@ == m0[j],
            unlocked@ == unlocked_indices(m0, raised, i as int),
        decreases n - i,
    {
        if ms[i].status == MilestoneStatus::Locked && raised >= ms[i].target_amount {
            let mut m = ms[i].duplicate();
            m.status = MilestoneStatus::Unlocked;
            ms.set(i, m);
            unlocked.push(i as u32);
        }
        assert(ms@[i as int]@ == unlock_spec(m0, raised)[i as int]);
        i = i + 1;
    }
    assert(milestones_view(ms@) =~= unlock_spec(m0, raised));
    unlocked
}

impl CampaignContract {
    /// Books a donation of `amount` by `donor` in `asset` at time `now` in ledger
    /// `ledger`: raises the campaign's and the overall totals, the per-token and
    /// per-donor amounts, updates the donor's record, marks the goal reached and
    /// unlocks the milestones the new total reaches. Refused while frozen, before
    /// initialization, once the campaign has ended or been cancelled, for an
    /// amount that is not positive or below the minimum, on overflow, and for an
    /// asset the campaign does not accept.
    pub fn donate(&mut self, donor: Address, amount: i128, asset: AssetInfo, now: u64, ledger: u32) -> (r:
        Result<DonationOutcome, Error>)
        requires
            old(self).wf(),
        ensures
            final(self).wf(),
            match donate_spec(old(self)@, donor@, amount, asset@, now, ledger) {
                Ok(s) => {
                    let c = old(self)@.campaign->Some_0;
                    let raised = (c.raised_amount + amount) as i128;
                    &&& final(self)@ == s
                    &&& r matches Ok(o) && o.raised_amount == raised && o.goal_reached == (raised
                        >= c.goal_amount && c.status is Active) && o.unlocked@ == unlocked_indices(
                        old(self)@.milestones,
                        raised,
                        old(self)@.milestones.len() as int,
                    ) && o.asset_code@ == asset_code_spec(c.accepted_assets, asset@) && Some(o.token@)
                        == token_address_spec(c.accepted_assets, asset@)
                },
                Err(e) => r == Err::<DonationOutcome, Error>(e) && final(self)@ == old(self)@,
            },
    {
        if self.frozen {
            return Err(Error::ContractFrozen);
        }
        let (new_raised, token, code, goal_reached) = match &self.campaign {
            None => {
                return Err(Error::NotInitialized);
            },
            Some(c) => {
                if !(c.status == CampaignStatus::Active || c.status == CampaignStatus::GoalReached) {
                    return Err(Error::CampaignNotActive);
                }
                if amount <= 0 || (c.min_donation_amount > 0 && amount < c.min_donation_amount) {
                    return Err(Error::DonationTooSmall);
                }
                let nr = match c.raised_amount.checked_add(amount) {
                    None => {
                        return Err(Error::Overflow);
                    },
                    Some(v) => v,
                };
                let token = match get_token_address_for_asset(&asset, &c.accepted_assets) {
                    Err(e) => {
                        return Err(e);
                    },
                    Ok(t) => t,
                };
                let code = resolve_asset_code(&asset, &c.accepted_assets);
                let g = nr >= c.goal_amount && c.status == CampaignStatus::Active;
                (nr, token, code, g)
            },
        };
        let ghost old_view = self@;
        let ghost donor_key = donor@;
        let ghost total = self.total_raised as int;
        let mut c = self.campaign.take().unwrap();
        c.raised_amount = new_raised;
        if goal_reached {
            c.status = CampaignStatus::GoalReached;
        }
        self.campaign = Some(c);
        self.total_raised = new_raised;
        proof {
            assert forall|i: int| 0 <= i < self.donor_asset_donations@.len() implies 0
                <= #[trigger] self.donor_asset_donations@[i].2 <= total by {
                assert(pair_amounts_view(self.donor_asset_donations@)[i].1
                    == self.donor_asset_donations@[i].2);
            }
            assert forall|i: int| 0 <= i < self.asset_raised@.len() implies 0
                <= #[trigger] self.asset_raised@[i].1 <= total by {
                assert(amounts_view(self.asset_raised@)[i].1 == self.asset_raised@[i].1);
            }
        }
        add_to_pair_amounts(&mut self.donor_asset_donations, &donor, &token, amount, Ghost(total));
        add_to_amounts(&mut self.asset_raised, &token, amount, Ghost(total));
        record_donation(&mut self.donors, donor, amount, &asset, now, ledger, Ghost(total));
        let unlocked = unlock_milestones(&mut self.milestones, new_raised);
        proof {
            assert forall|i: int| 0 <= i < self@.asset_raised.len() implies 0
                <= #[trigger] self@.asset_raised[i].1 <= self.total_raised by {
                assert(amounts_view(self.asset_raised@)[i].1 == self.asset_raised@[i].1);
            }
            assert forall|i: int| 0 <= i < self@.donor_asset_donations.len() implies 0
                <= #[trigger] self@.donor_asset_donations[i].1 <= self.total_raised by {
                assert(pair_amounts_view(self.donor_asset_donations@)[i].1
                    == self.donor_asset_donations@[i].2);
            }
            lemma_amount_bounded(old_view.asset_raised, token@, total);
            lemma_sum_add_amount(old_view.asset_raised, token@, amount);
            lemma_amount_bounded(old_view.donor_asset_donations, (donor_key, token@), total);
            lemma_sum_add_amount(old_view.donor_asset_donations, (donor_key, token@), amount);
            let rec = match lookup(old_view.donors, donor_key) {
                Some(d) => d,
                None => new_record_spec(donor_key),
            };
            lemma_sum_upsert(
                old_view.donors,
                donor_key,
                apply_donation_spec(rec, amount, now, ledger, asset@),
                donated_fn(),
            );
        }
        Ok(DonationOutcome { goal_reached, unlocked, asset_code: code, raised_amount: new_raised, token })
    }
}

} // verus!

verus! {

impl CampaignContract {
    /// Whether every accepted asset not coded `XLM` names its issuer, as the
    /// per-asset report needs.
    #[verifier::loop_isolation(false)]
    pub fn issuers_named(&self) -> (r: bool)
        ensures
            r == (self@.campaign matches Some(c) && issuers_named(c.accepted_assets)),
    {
        match &self.campaign {
            None => false,
            Some(c) => {
                let ghost a = assets_view(c.accepted_assets@);
                let mut i: usize = 0;
                while i < c.accepted_assets.len()
                    invariant
                        a == assets_view(c.accepted_assets@),
                        0 <= i <= c.accepted_assets.len(),
                        forall|j: int|
                            0 <= j < i && (#[trigger] a[j]).asset_code != xlm_code() ==> a[j].issuer is Some,
                    decreases c.accepted_assets.len() - i,
                {
                    assert(a[i as int] == c.accepted_assets@[i as int]@);
                    if !c.accepted_assets[i].is_xlm() && c.accepted_assets[i].issuer.is_none() {
                        assert(a[i as int].asset_code != xlm_code() && a[i as int].issuer is None);
                        return false;
                    }
                    i = i + 1;
                }
                true
            },
        }
    }

    /// The amount raised per accepted asset.
    #[verifier::loop_isolation(false)]
    pub fn get_raised_per_asset(&self) -> (r: Result<Vec<(AssetInfo, i128)>, Error>)
        requires
            self.wf(),
            self@.campaign matches Some(c) ==> issuers_named(c.accepted_assets),
        ensures
            match raised_per_asset_spec(self@) {
                Ok(v) => r matches Ok(x) && contributions_view(x@) == v,
                Err(e) => r == Err::<Vec<(AssetInfo, i128)>, Error>(e),
            },
    {
        let c = match &self.campaign {
            None => {
                return Err(Error::NotInitialized);
            },
            Some(c) => c,
        };
        let ghost a = assets_view(c.accepted_assets@);
        let ghost spec_v = Seq::new(
            a.len(),
            |i: int|
                (
                    asset_info_of(a[i]),
                    amount_of(
                        self@.asset_raised,
                        token_address_spec(a, asset_info_of(a[i]))->Some_0,
                    ) as i128,
                ),
        );
        let mut out: Vec<(AssetInfo, i128)> = Vec::new();
        let mut i: usize = 0;
        while i < c.accepted_assets.len()
            invariant
                a == assets_view(c.accepted_assets@),
                a.len() == c.accepted_assets@.len(),
                self@.campaign == Some(c@),
                issuers_named(a),
                0 <= i <= c.accepted_assets.len(),
                out@.len() == i,
                forall|j: int| 0 <= j < i ==> (#[trigger] contributions_view(out@)[j]) == spec_v[j],
                forall|j: int| 0 <= j < i ==> !((#[trigger] a[j]).asset_code == xlm_code()
                    && token_address_spec(a, AssetInfoView::Native) is None),
            decreases c.accepted_assets.len() - i,
        {
            let asset = &c.accepted_assets[i];
            assert(a[i as int] == asset@);
            let info = if asset.is_xlm() {
                AssetInfo::Native
            } else {
                match &asset.issuer {
                    Some(iss) => AssetInfo::Stellar(iss.duplicate()),
                    None => {
                        assert(false);
                        AssetInfo::Native
                    },
                }
            };
            assert(info@ == asset_info_of(a[i as int]));
            let token = match get_token_address_for_asset(&info, &c.accepted_assets) {
                Err(e) => {
                    proof {
                        if a[i as int].asset_code != xlm_code() {
                            let iss = a[i as int].issuer->Some_0;
                            let e2 = by_issuer(a);
                            assert(e2[i as int].0 == Some(iss));
                            crate::keyed::lemma_first_present(e2, Some(iss), i as int);
                        }
                    }
                    return Err(e);
                },
                Ok(t) => t,
            };
            proof {
                if a[i as int].asset_code != xlm_code() {
                    let iss = a[i as int].issuer->Some_0;
                    let e2 = by_issuer(a);
                    assert(e2[i as int].0 == Some(iss));
                    crate::keyed::lemma_first_present(e2, Some(iss), i as int);
                }
            }
            let amt = amount_raised_in(&self.asset_raised, &token);
            let ghost before = contributions_view(out@);
            let ghost item = (info@, amt);
            assert(item == spec_v[i as int]);
            out.push((info, amt));
            assert(contributions_view(out@) =~= before.push(item));
            i = i + 1;
        }
        assert(contributions_view(out@) =~= spec_v);
        Ok(out)
    }
}

} // verus!
