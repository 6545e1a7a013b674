//! The campaign contract's state, its invariant, set-up and administration.
use vstd::prelude::*;

use crate::keyed::{amount_fn, lemma_sum_prefix, lemma_sum_take_next, sum_amounts, sum_of};
use crate::types::{
    assets_view, copy_opt_addr, milestones_view, opt_addr, opt_campaign, valid_code, Address,
    CampaignData, CampaignDataView, CampaignStatus, DonorRecord, DonorRecordView, Error,
    MilestoneData, MilestoneDataView, MilestoneStatus, StellarAsset, StellarAssetView,
    campaign_step, milestone_step, MAX_MILESTONES,
};

verus! {

/// Everything the campaign contract keeps in its storage.
pub struct CampaignContract {
    pub campaign: Option<CampaignData>,
    pub admin: Option<Address>,
    pub frozen: bool,
    pub milestones: Vec<MilestoneData>,
    pub donors: Vec<DonorRecord>,
    pub total_raised: i128,
    pub asset_raised: Vec<(Address, i128)>,
    pub donor_asset_donations: Vec<(Address, Address, i128)>,
}

/// The mathematical view of the contract's storage. Donors are keyed by their
/// address, raised amounts by token address, and per-donor amounts by the pair
/// (donor, token).
pub struct ContractView {
    pub campaign: Option<CampaignDataView>,
    pub admin: Option<Seq<u8>>,
    pub frozen: bool,
    pub milestones: Seq<MilestoneDataView>,
    pub donors: Seq<(Seq<u8>, DonorRecordView)>,
    pub total_raised: i128,
    pub asset_raised: Seq<(Seq<u8>, i128)>,
    pub donor_asset_donations: Seq<((Seq<u8>, Seq<u8>), i128)>,
}

/// The view of a list of amounts keyed by address.
pub open spec fn amounts_view(v: Seq<(Address, i128)>) -> Seq<(Seq<u8>, i128)> {
    v.map_values(|p: (Address, i128)| (p.0@, p.1))
}

/// The view of a list of amounts keyed by a pair of addresses.
pub open spec fn pair_amounts_view(v: Seq<(Address, Address, i128)>) -> Seq<((Seq<u8>, Seq<u8>), i128)> {
    v.map_values(|t: (Address, Address, i128)| ((t.0@, t.1@), t.2))
}

/// The view of the donor records, keyed by donor address.
pub open spec fn donors_view(v: Seq<DonorRecord>) -> Seq<(Seq<u8>, DonorRecordView)> {
    v.map_values(|d: DonorRecord| (d.donor@, d@))
}

impl View for CampaignContract {
    type V = ContractView;

    open spec fn view(&self) -> ContractView {
        ContractView {
            campaign: opt_campaign(self.campaign),
            admin: opt_addr(self.admin),
            frozen: self.frozen,
            milestones: milestones_view(self.milestones@),
            donors: donors_view(self.donors@),
            total_raised: self.total_raised,
            asset_raised: amounts_view(self.asset_raised@),
            donor_asset_donations: pair_amounts_view(self.donor_asset_donations@),
        }
    }
}

/// A donor's total, read as an integer.
pub open spec fn donated_fn() -> spec_fn(DonorRecordView) -> int {
    |d: DonorRecordView| d.total_donated as int
}

/// A donor record is consistent with a campaign that raised `total`: the donor
/// gave something, no more than the campaign raised, each per-asset amount lies
/// between zero and the donor's total, and the per-asset amounts add up to it.
pub open spec fn donor_ok(d: DonorRecordView, total: int) -> bool {
    &&& 0 < d.total_donated <= total
    &&& sum_amounts(d.contributions) == d.total_donated
    &&& forall|j: int|
        0 <= j < d.contributions.len() ==> 0 <= #[trigger] d.contributions[j].1 <= d.total_donated
}

/// Storage of a contract that has never been initialized.
pub open spec fn empty_view() -> ContractView {
    ContractView {
        campaign: None,
        admin: None,
        frozen: false,
        milestones: Seq::empty(),
        donors: Seq::empty(),
        total_raised: 0,
        asset_raised: Seq::empty(),
        donor_asset_donations: Seq::empty(),
    }
}

impl ContractView {
    /// The invariant of the contract's storage. Before initialization everything
    /// is empty. Afterwards there is an admin, the stored total equals the
    /// campaign's raised amount and is not negative, one milestone is stored per
    /// declared milestone, every recorded amount lies between zero and the total
    /// raised, and the per-token amounts, the per-donor-and-token amounts and
    /// the donors' totals each add up to the total raised.
    pub open spec fn wf(self) -> bool {
        match self.campaign {
            None => self == empty_view(),
            Some(c) => {
                &&& self.admin is Some
                &&& c.raised_amount == self.total_raised
                &&& 0 <= self.total_raised
                &&& self.milestones.len() == c.milestone_count
                &&& sum_amounts(self.asset_raised) == self.total_raised
                &&& sum_amounts(self.donor_asset_donations) == self.total_raised
                &&& sum_of(self.donors, donated_fn()) == self.total_raised
                &&& forall|i: int|
                    0 <= i < self.asset_raised.len() ==> 0 <= #[trigger] self.asset_raised[i].1
                        <= self.total_raised
                &&& forall|i: int|
                    0 <= i < self.donor_asset_donations.len() ==> 0
                        <= #[trigger] self.donor_asset_donations[i].1 <= self.total_raised
                &&& forall|i: int|
                    0 <= i < self.donors.len() ==> (#[trigger] self.donors[i]).0 == self.donors[i].1.donor
                &&& forall|i: int|
                    0 <= i < self.donors.len() ==> donor_ok(
                        #[trigger] self.donors[i].1,
                        self.total_raised as int,
                    )
            },
        }
    }
}

/// The payload of the event announcing a new campaign.
pub struct CampaignInitializedEvent {
    pub creator: Address,
    pub goal_amount: i128,
    pub end_time: u64,
    pub asset_count: u32,
    pub milestone_count: u32,
    pub created_at_ledger: u32,
}

/// Every accepted asset has a valid code.
pub open spec fn all_codes_valid(assets: Seq<StellarAssetView>) -> bool {
    forall|i: int| 0 <= i < assets.len() ==> valid_code(#[trigger] assets[i].asset_code)
}

/// The target that milestone `i` must exceed: the previous target, or zero.
pub open spec fn prev_target(ms: Seq<MilestoneDataView>, i: int) -> int {
    if i == 0 {
        0
    } else {
        ms[i - 1].target_amount as int
    }
}

/// Milestone targets must strictly increase from zero, and the last must equal the goal.
pub open spec fn milestones_check(ms: Seq<MilestoneDataView>, goal: i128) -> Result<(), Error> {
    if exists|i: int| 0 <= i < ms.len() && ms[i].target_amount <= prev_target(ms, i) {
        Err(Error::InvalidMilestones)
    } else if ms.len() > 0 && ms.last().target_amount != goal {
        Err(Error::MilestoneMismatch)
    } else {
        Ok(())
    }
}

/// The outcome of initializing the campaign in state `s` at time `now` in ledger `ledger`.
pub open spec fn initialize_spec(
    s: ContractView,
    creator: Seq<u8>,
    goal_amount: i128,
    end_time: u64,
    assets: Seq<StellarAssetView>,
    ms: Seq<MilestoneDataView>,
    min_donation_amount: i128,
    now: u64,
    ledger: u32,
) -> Result<ContractView, Error> {
    if s.campaign is Some {
        Err(Error::AlreadyInitialized)
    } else if goal_amount <= 0 {
        Err(Error::InvalidGoalAmount)
    } else if end_time <= now {
        Err(Error::InvalidEndTime)
    } else if assets.len() == 0 {
        Err(Error::InvalidAssets)
    } else if !all_codes_valid(assets) {
        Err(Error::InvalidAssetCode)
    } else if ms.len() == 0 || ms.len() > MAX_MILESTONES {
        Err(Error::InvalidMilestoneCount)
    } else if milestones_check(ms, goal_amount) is Err {
        Err(milestones_check(ms, goal_amount)->Err_0)
    } else {
        Ok(
            ContractView {
                campaign: Some(
                    CampaignDataView {
                        creator,
                        goal_amount,
                        raised_amount: 0,
                        end_time,
                        status: CampaignStatus::Active,
                        accepted_assets: assets,
                        milestone_count: ms.len() as u32,
                        min_donation_amount,
                        created_at_ledger: ledger,
                        created_at_time: now,
                        concluded_at_ledger: None,
                    },
                ),
                admin: Some(creator),
                milestones: ms,
                ..s
            },
        )
    }
}

/// Handing admin rights to `new_admin`: refused before initialization and while frozen.
pub open spec fn set_admin_spec(s: ContractView, new_admin: Seq<u8>) -> Result<ContractView, Error> {
    if s.admin is None {
        Err(Error::NotInitialized)
    } else if s.frozen {
        Err(Error::ContractFrozen)
    } else {
        Ok(ContractView { admin: Some(new_admin), ..s })
    }
}

/// Checking a code upgrade: refused before initialization and while frozen;
/// otherwise the admin, who must authorize it.
pub open spec fn upgrade_spec(s: ContractView) -> Result<Seq<u8>, Error> {
    if s.admin is None {
        Err(Error::NotInitialized)
    } else if s.frozen {
        Err(Error::ContractFrozen)
    } else {
        Ok(s.admin->Some_0)
    }
}

/// Setting the frozen flag to `frozen`: refused before initialization.
pub open spec fn set_frozen_spec(s: ContractView, frozen: bool) -> Result<ContractView, Error> {
    if s.admin is None {
        Err(Error::NotInitialized)
    } else {
        Ok(ContractView { frozen, ..s })
    }
}

/// Checks that every accepted asset has a valid code.
pub fn validate_assets(assets: &Vec<StellarAsset>) -> (r: Result<(), Error>)
    ensures
        r == (if all_codes_valid(assets_view(assets@)) {
            Ok::<(), Error>(())
        } else {
            Err(Error::InvalidAssetCode)
        }),
{
    let mut i: usize = 0;
    while i < assets.len()
        invariant
            0 <= i <= assets.len(),
            forall|j: int| 0 <= j < i ==> valid_code(#[trigger] assets@[j]@.asset_code),
        decreases assets.len() - i,
    {
        if !assets[i].has_valid_code() {
            assert(!valid_code(assets_view(assets@)[i as int].asset_code));
            return Err(Error::InvalidAssetCode);
        }
        i = i + 1;
    }
    assert(all_codes_valid(assets_view(assets@))) by {
        assert forall|j: int| 0 <= j < assets@.len() implies valid_code(
            #[trigger] assets_view(assets@)[j].asset_code,
        ) by {
            assert(valid_code(assets@[j]@.asset_code));
        }
    }
    Ok(())
}

/// Checks that milestone targets strictly increase from zero and end at the goal.
pub fn validate_milestones(milestones: &Vec<MilestoneData>, goal_amount: i128) -> (r: Result<(), Error>)
    ensures
        r == milestones_check(milestones_view(milestones@), goal_amount),
{
    let ghost ms = milestones_view(milestones@);
    let n = milestones.len();
    let mut last_target: i128 = 0;
    let mut i: usize = 0;
    while i < n
        invariant
            n == milestones@.len(),
            ms == milestones_view(milestones@),
            0 <= i <= n,
            last_target == prev_target(ms, i as int),
            forall|j: int| 0 <= j < i ==> ms[j].target_amount > prev_target(ms, j),
            (i == n && n > 0) ==> ms[n - 1].target_amount == goal_amount,
        decreases n - i,
    {
        let t = milestones[i].target_amount;
        if t <= last_target {
            assert(ms[i as int].target_amount <= prev_target(ms, i as int));
            return Err(Error::InvalidMilestones);
        }
        last_target = t;
        if i == n - 1 && t != goal_amount {
            assert forall|j: int| 0 <= j < ms.len() implies !(ms[j].target_amount <= prev_target(ms, j)) by {
            }
            return Err(Error::MilestoneMismatch);
        }
        i = i + 1;
    }
    assert forall|j: int| 0 <= j < ms.len() implies !(ms[j].target_amount <= prev_target(ms, j)) by {}
    Ok(())
}

/// Checks that the campaign status graph allows moving from `current_status` to `next_status`.
pub fn validate_campaign_transition(current_status: &CampaignStatus, next_status: &CampaignStatus) -> (r:
    Result<(), Error>)
    ensures
        r == (if campaign_step(*current_status, *next_status) {
            Ok::<(), Error>(())
        } else {
            Err(Error::InvalidCampaignTransition)
        }),
{
    if current_status.can_transition_to(*next_status) {
        Ok(())
    } else {
        Err(Error::InvalidCampaignTransition)
    }
}

/// Checks that the milestone status graph allows moving from `current_status` to `next_status`.
pub fn validate_milestone_transition(current_status: &MilestoneStatus, next_status: &MilestoneStatus) -> (r:
    Result<(), Error>)
    ensures
        r == (if milestone_step(*current_status, *next_status) {
            Ok::<(), Error>(())
        } else {
            Err(Error::InvalidMilestoneTransition)
        }),
{
    if current_status.can_transition_to(*next_status) {
        Ok(())
    } else {
        Err(Error::InvalidMilestoneTransition)
    }
}

impl CampaignContract {
    /// The invariant of the contract's storage.
    pub open spec fn wf(&self) -> bool {
        self@.wf()
    }

    /// Whether the storage satisfies the contract's invariant, for state
    /// read back from ledger storage.
    #[verifier::loop_isolation(false)]
    pub fn is_well_formed(&self) -> (r: bool)
        ensures
            r == self.wf(),
    {
        match &self.campaign {
            None => {
                let r = self.admin.is_none() && !self.frozen && self.milestones.len() == 0
                    && self.donors.len() == 0 && self.total_raised == 0 && self.asset_raised.len() == 0
                    && self.donor_asset_donations.len() == 0;
                proof {
                    if r {
                        assert(self@ =~= empty_view()) by {
                            assert(milestones_view(self.milestones@) =~= Seq::empty());
                            assert(donors_view(self.donors@) =~= Seq::empty());
                            assert(amounts_view(self.asset_raised@) =~= Seq::empty());
                            assert(pair_amounts_view(self.donor_asset_donations@) =~= Seq::empty());
                        }
                    } else if self@ == empty_view() {
                        assert(self@.milestones.len() == 0);
                        assert(self@.donors.len() == 0);
                        assert(self@.asset_raised.len() == 0);
                        assert(self@.donor_asset_donations.len() == 0);
                    }
                }
                r
            },
            Some(c) => {
                if self.admin.is_none() || c.raised_amount != self.total_raised || self.total_raised < 0
                    || self.milestones.len() != c.milestone_count as usize {
                    return false;
                }
                let total = self.total_raised;
                let ghost ar = self@.asset_raised;
                let mut acc: i128 = 0;
                let mut i: usize = 0;
                while i < self.asset_raised.len()
                    invariant
                        ar == self@.asset_raised,
                        ar.len() == self.asset_raised.len(),
                        0 <= i <= self.asset_raised.len(),
                        forall|j: int| 0 <= j < i ==> 0 <= #[trigger] ar[j].1 <= total,
                        acc == sum_amounts(ar.take(i as int)),
                        0 <= acc <= total,
                    decreases self.asset_raised.len() - i,
                {
                    assert(ar[i as int].1 == self.asset_raised@[i as int].1);
                    let x = self.asset_raised[i].1;
                    if x < 0 || x > total {
                        return false;
                    }
                    proof {
                        lemma_sum_take_next(ar, i as int, amount_fn());
                    }
                    if acc > total - x {
                        proof {
                            if self@.wf() {
                                lemma_sum_prefix(ar, i + 1, amount_fn());
                            }
                        }
                        return false;
                    }
                    acc = acc + x;
                    i = i + 1;
                }
                assert(ar.take(ar.len() as int) =~= ar);
                if acc != total {
                    return false;
                }
                let ghost da = self@.donor_asset_donations;
                let mut acc: i128 = 0;
                let mut i: usize = 0;
                while i < self.donor_asset_donations.len()
                    invariant
                        da == self@.donor_asset_donations,
                        da.len() == self.donor_asset_donations.len(),
                        0 <= i <= self.donor_asset_donations.len(),
                        forall|j: int| 0 <= j < i ==> 0 <= #[trigger] da[j].1 <= total,
                        acc == sum_amounts(da.take(i as int)),
                        0 <= acc <= total,
                    decreases self.donor_asset_donations.len() - i,
                {
                    assert(da[i as int].1 == self.donor_asset_donations@[i as int].2);
                    let x = self.donor_asset_donations[i].2;
                    if x < 0 || x > total {
                        return false;
                    }
                    proof {
                        lemma_sum_take_next(da, i as int, amount_fn());
                    }
                    if acc > total - x {
                        proof {
                            if self@.wf() {
                                lemma_sum_prefix(da, i + 1, amount_fn());
                            }
                        }
                        return false;
                    }
                    acc = acc + x;
                    i = i + 1;
                }
                assert(da.take(da.len() as int) =~= da);
                if acc != total {
                    return false;
                }
                let ghost dv = self@.donors;
                let mut acc: i128 = 0;
                let mut i: usize = 0;
                while i < self.donors.len()
                    invariant
                        dv == self@.donors,
                        dv.len() == self.donors.len(),
                        0 <= i <= self.donors.len(),
                        forall|j: int| 0 <= j < i ==> donor_ok(#[trigger] dv[j].1, total as int),
                        acc == sum_of(dv.take(i as int), donated_fn()),
                        0 <= acc <= total,
                    decreases self.donors.len() - i,
                {
                    let d = &self.donors[i];
                    assert(dv[i as int].1 == d@);
                    let td = d.total_donated;
                    if td <= 0 || td > total {
                        return false;
                    }
                    let ghost cv = d@.contributions;
                    let mut cacc: i128 = 0;
                    let mut k: usize = 0;
                    while k < d.contributions.len()
                        invariant
                            cv == d@.contributions,
                            cv.len() == d.contributions.len(),
                            0 <= k <= d.contributions.len(),
                            forall|j: int| 0 <= j < k ==> 0 <= #[trigger] cv[j].1 <= td,
                            cacc == sum_amounts(cv.take(k as int)),
                            0 <= cacc <= td,
                        decreases d.contributions.len() - k,
                    {
                        assert(cv[k as int].1 == d.contributions@[k as int].1);
                        let x = d.contributions[k].1;
                        if x < 0 || x > td {
                            return false;
                        }
                        proof {
                            lemma_sum_take_next(cv, k as int, amount_fn());
                        }
                        if cacc > td - x {
                            proof {
                                if self@.wf() {
                                    assert(donor_ok(dv[i as int].1, total as int));
                                    lemma_sum_prefix(cv, k + 1, amount_fn());
                                }
                            }
                            return false;
                        }
                        cacc = cacc + x;
                        k = k + 1;
                    }
                    assert(cv.take(cv.len() as int) =~= cv);
                    if cacc != td {
                        proof {
                            if self@.wf() {
                                assert(donor_ok(dv[i as int].1, total as int));
                            }
                        }
                        return false;
                    }
                    proof {
                        lemma_sum_take_next(dv, i as int, donated_fn());
                    }
                    if acc > total - td {
                        proof {
                            if self@.wf() {
                                assert forall|j: int| 0 <= j < dv.len() implies 0 <= (donated_fn())(
                                    #[trigger] dv[j].1,
                                ) by {
                                    assert(donor_ok(dv[j].1, total as int));
                                }
                                lemma_sum_prefix(dv, i + 1, donated_fn());
                            }
                        }
                        return false;
                    }
                    acc = acc + td;
                    i = i + 1;
                }
                assert(dv.take(dv.len() as int) =~= dv);
                if acc != total {
                    return false;
                }
                true
            },
        }
    }

    /// Storage of a freshly deployed, uninitialized contract.
    pub fn new() -> (r: CampaignContract)
        ensures
            r@ == empty_view(),
            r.wf(),
    {
        let r = CampaignContract {
            campaign: None,
            admin: None,
            frozen: false,
            milestones: Vec::new(),
            donors: Vec::new(),
            total_raised: 0,
            asset_raised: Vec::new(),
            donor_asset_donations: Vec::new(),
        };
        assert(r@ =~= empty_view()) by {
            assert(milestones_view(r.milestones@) =~= Seq::empty());
            assert(donors_view(r.donors@) =~= Seq::empty());
            assert(amounts_view(r.asset_raised@) =~= Seq::empty());
            assert(pair_amounts_view(r.donor_asset_donations@) =~= Seq::empty());
        }
        r
    }

    /// The contract's greeting symbol.
    pub fn hello() -> (r: &'static str)
        ensures
            r@ == "campaign"@,
    {
        "campaign"
    }

    /// The contract's version number.
    pub fn version() -> (v: u32)
        ensures
            v == crate::VERSION,
    {
        crate::VERSION
    }

    /// Sets up the campaign: validates the goal, deadline, assets and milestones,
    /// stores the campaign as active with nothing raised, stores the milestones,
    /// and makes `creator` the admin. `now` and `ledger` are the current ledger
    /// time and sequence number. Returns the payload of the announcement event.
    pub fn initialize(
        &mut self,
        creator: Address,
        goal_amount: i128,
        end_time: u64,
        accepted_assets: Vec<StellarAsset>,
        milestones: Vec<MilestoneData>,
        min_donation_amount: i128,
        now: u64,
        ledger: u32,
    ) -> (r: Result<CampaignInitializedEvent, Error>)
        requires
            old(self).wf(),
        ensures
            final(self).wf(),
            match initialize_spec(
                old(self)@,
                creator@,
                goal_amount,
                end_time,
                assets_view(accepted_assets@),
                milestones_view(milestones@),
                min_donation_amount,
                now,
                ledger,
            ) {
                Ok(s) => {
                    &&& final(self)@ == s
                    &&& r matches Ok(ev) && ev.creator@ == creator@ && ev.goal_amount == goal_amount
                        && ev.end_time == end_time && ev.asset_count == accepted_assets@.len() as u32
                        && ev.milestone_count == milestones@.len() as u32 && ev.created_at_ledger
                        == ledger
                },
                Err(e) => r == Err::<CampaignInitializedEvent, Error>(e) && final(self)@ == old(self)@,
            },
    {
        if self.campaign.is_some() {
            return Err(Error::AlreadyInitialized);
        }
        if goal_amount <= 0 {
            return Err(Error::InvalidGoalAmount);
        }
        if end_time <= now {
            return Err(Error::InvalidEndTime);
        }
        if accepted_assets.len() == 0 {
            return Err(Error::InvalidAssets);
        }
        let va = validate_assets(&accepted_assets);
        if va.is_err() {
            return Err(Error::InvalidAssetCode);
        }
        let n = milestones.len();
        if n == 0 || n > MAX_MILESTONES as usize {
            return Err(Error::InvalidMilestoneCount);
        }
        match validate_milestones(&milestones, goal_amount) {
            Err(e) => {
                return Err(e);
            },
            Ok(()) => {},
        }
        let milestone_count = n as u32;
        let asset_count = accepted_assets.len() as u32;
        let ev = CampaignInitializedEvent {
            creator: creator.duplicate(),
            goal_amount,
            end_time,
            asset_count,
            milestone_count,
            created_at_ledger: ledger,
        };
        let admin = creator.duplicate();
        self.campaign = Some(
            CampaignData {
                creator,
                goal_amount,
                raised_amount: 0,
                end_time,
                status: CampaignStatus::Active,
                accepted_assets,
                milestone_count,
                min_donation_amount,
                created_at_ledger: ledger,
                created_at_time: now,
                concluded_at_ledger: None,
            },
        );
        self.admin = Some(admin);
        self.milestones = milestones;
        Ok(ev)
    }

    /// The current admin, if the contract is initialized.
    pub fn get_admin(&self) -> (r: Option<Address>)
        ensures
            opt_addr(r) == self@.admin,
    {
        copy_opt_addr(&self.admin)
    }

    /// Hands admin rights to `new_admin`; returns the previous admin. Refused
    /// before initialization and while frozen.
    pub fn set_admin(&mut self, new_admin: Address) -> (r: Result<Address, Error>)
        requires
            old(self).wf(),
        ensures
            final(self).wf(),
            match set_admin_spec(old(self)@, new_admin@) {
                Ok(s) => final(self)@ == s && (r matches Ok(prev) && Some(prev@) == old(self)@.admin),
                Err(e) => r == Err::<Address, Error>(e) && final(self)@ == old(self)@,
            },
    {
        if self.admin.is_some() && self.frozen {
            return Err(Error::ContractFrozen);
        }
        match self.admin.take() {
            None => Err(Error::NotInitialized),
            Some(prev) => {
                self.admin = Some(new_admin);
                Ok(prev)
            },
        }
    }

    /// Freezes the contract, blocking every state-changing operation but
    /// unfreezing (donations, refunds, releases, admin changes and upgrades);
    /// returns the admin.
    pub fn freeze(&mut self) -> (r: Result<Address, Error>)
        requires
            old(self).wf(),
        ensures
            final(self).wf(),
            match set_frozen_spec(old(self)@, true) {
                Ok(s) => final(self)@ == s && (r matches Ok(ad) && Some(ad@) == old(self)@.admin),
                Err(e) => r == Err::<Address, Error>(e) && final(self)@ == old(self)@,
            },
    {
        match &self.admin {
            None => Err(Error::NotInitialized),
            Some(a) => {
                let ad = a.duplicate();
                self.frozen = true;
                Ok(ad)
            },
        }
    }

    /// Unfreezes the contract; returns the admin.
    pub fn unfreeze(&mut self) -> (r: Result<Address, Error>)
        requires
            old(self).wf(),
        ensures
            final(self).wf(),
            match set_frozen_spec(old(self)@, false) {
                Ok(s) => final(self)@ == s && (r matches Ok(ad) && Some(ad@) == old(self)@.admin),
                Err(e) => r == Err::<Address, Error>(e) && final(self)@ == old(self)@,
            },
    {
        match &self.admin {
            None => Err(Error::NotInitialized),
            Some(a) => {
                let ad = a.duplicate();
                self.frozen = false;
                Ok(ad)
            },
        }
    }

    /// Checks that a code upgrade may proceed; returns the admin who must
    /// authorize it. Refused before initialization and while frozen. The stored
    /// state is left as it is.
    pub fn upgrade(&self) -> (r: Result<Address, Error>)
        ensures
            match upgrade_spec(self@) {
                Ok(a) => r matches Ok(ad) && ad@ == a,
                Err(e) => r == Err::<Address, Error>(e),
            },
    {
        match &self.admin {
            None => Err(Error::NotInitialized),
            Some(a) => {
                if self.frozen {
                    return Err(Error::ContractFrozen);
                }
                Ok(a.duplicate())
            },
        }
    }

    /// The total amount raised over all assets.
    pub fn get_total_raised(&self) -> (r: i128)
        ensures
            r == self@.total_raised,
    {
        self.total_raised
    }
}

} // verus!
