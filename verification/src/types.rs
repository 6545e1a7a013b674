//! Plain-value data types of the campaign contract and their mathematical views.
use vstd::prelude::*;

verus! {

/// Largest number of milestones a campaign may declare.
pub const MAX_MILESTONES: u32 = 10;

/// Longest asset code that Stellar accepts.
pub const MAX_ASSET_CODE_LEN: usize = 12;

/// The asset code of the native lumen asset, as bytes.
pub open spec fn xlm_code() -> Seq<u8> {
    seq![88u8, 76u8, 77u8]
}

/// The code reported for an asset whose issuer is not among the accepted assets.
pub open spec fn unknown_code() -> Seq<u8> {
    seq![85u8, 78u8, 75u8, 78u8, 79u8, 87u8, 78u8]
}

/// Byte-wise equality of two byte strings.
pub fn bytes_eq(a: &Vec<u8>, b: &Vec<u8>) -> (r: bool)
    ensures
        r == (a@ == b@),
{
    if a.len() != b.len() {
        return false;
    }
    let mut i: usize = 0;
    while i < a.len()
        invariant
            a.len() == b.len(),
            0 <= i <= a.len(),
            forall|j: int| 0 <= j < i ==> a@[j] == b@[j],
        decreases a.len() - i,
    {
        if a[i] != b[i] {
            return false;
        }
        i = i + 1;
    }
    assert(a@ =~= b@);
    true
}

/// A copy of a byte string with the same contents.
pub fn copy_bytes(a: &Vec<u8>) -> (r: Vec<u8>)
    ensures
        r@ == a@,
{
    let r = a.clone();
    assert(r@ =~= a@);
    r
}

/// The bytes `XLM`.
pub fn xlm_bytes() -> (r: Vec<u8>)
    ensures
        r@ == xlm_code(),
{
    let r = vec![88u8, 76u8, 77u8];
    assert(r@ =~= xlm_code());
    r
}

/// The bytes `UNKNOWN`.
pub fn unknown_bytes() -> (r: Vec<u8>)
    ensures
        r@ == unknown_code(),
{
    let r = vec![85u8, 78u8, 75u8, 78u8, 79u8, 87u8, 78u8];
    assert(r@ =~= unknown_code());
    r
}

/// A ledger address (an account or a contract), held as its serialized bytes.
pub struct Address {
    pub bytes: Vec<u8>,
}

impl View for Address {
    type V = Seq<u8>;

    open spec fn view(&self) -> Seq<u8> {
        self.bytes@
    }
}

impl Address {
    /// Whether two addresses are the same.
    pub fn same(&self, other: &Address) -> (r: bool)
        ensures
            r == (self@ == other@),
    {
        bytes_eq(&self.bytes, &other.bytes)
    }

    /// A copy of this address.
    pub fn duplicate(&self) -> (r: Address)
        ensures
            r@ == self@,
    {
        Address { bytes: copy_bytes(&self.bytes) }
    }
}

/// The view of an optional address.
pub open spec fn opt_addr(o: Option<Address>) -> Option<Seq<u8>> {
    match o {
        Some(a) => Some(a@),
        None => None,
    }
}

/// The view of optional bytes.
pub open spec fn opt_bytes(o: Option<Vec<u8>>) -> Option<Seq<u8>> {
    match o {
        Some(b) => Some(b@),
        None => None,
    }
}

/// A copy of an optional address.
pub fn copy_opt_addr(o: &Option<Address>) -> (r: Option<Address>)
    ensures
        opt_addr(r) == opt_addr(*o),
{
    match o {
        Some(a) => Some(a.duplicate()),
        None => None,
    }
}

/// A copy of optional bytes.
pub fn copy_opt_bytes(o: &Option<Vec<u8>>) -> (r: Option<Vec<u8>>)
    ensures
        opt_bytes(r) == opt_bytes(*o),
{
    match o {
        Some(b) => Some(copy_bytes(b)),
        None => None,
    }
}

/// Whether an optional address holds exactly the given address.
pub fn opt_addr_is(o: &Option<Address>, a: &Address) -> (r: bool)
    ensures
        r == (opt_addr(*o) == Some(a@)),
{
    match o {
        Some(x) => x.same(a),
        None => false,
    }
}

/// An asset that a campaign accepts: its code and its issuing token contract.
pub struct StellarAsset {
    pub asset_code: Vec<u8>,
    pub issuer: Option<Address>,
}

/// The mathematical view of a [`StellarAsset`].
pub struct StellarAssetView {
    pub asset_code: Seq<u8>,
    pub issuer: Option<Seq<u8>>,
}

impl View for StellarAsset {
    type V = StellarAssetView;

    open spec fn view(&self) -> StellarAssetView {
        StellarAssetView { asset_code: self.asset_code@, issuer: opt_addr(self.issuer) }
    }
}

/// Whether a byte is an ASCII letter or digit.
pub open spec fn is_alnum(c: u8) -> bool {
    (48 <= c <= 57) || (65 <= c <= 90) || (97 <= c <= 122)
}

/// A valid Stellar asset code: one to twelve ASCII letters or digits.
pub open spec fn valid_code(code: Seq<u8>) -> bool {
    &&& 1 <= code.len() <= MAX_ASSET_CODE_LEN
    &&& forall|i: int| 0 <= i < code.len() ==> is_alnum(#[trigger] code[i])
}

impl StellarAsset {
    /// Whether this is the native lumen asset (code `XLM`).
    pub fn is_xlm(&self) -> (r: bool)
        ensures
            r == (self@.asset_code == xlm_code()),
    {
        let x = xlm_bytes();
        bytes_eq(&self.asset_code, &x)
    }

    /// Whether the asset code is a valid Stellar asset code.
    pub fn has_valid_code(&self) -> (r: bool)
        ensures
            r == valid_code(self@.asset_code),
    {
        let n = self.asset_code.len();
        if n < 1 || n > MAX_ASSET_CODE_LEN {
            return false;
        }
        let mut i: usize = 0;
        while i < n
            invariant
                n == self.asset_code@.len(),
                0 <= i <= n,
                forall|j: int| 0 <= j < i ==> is_alnum(#[trigger] self.asset_code@[j]),
            decreases n - i,
        {
            let c = self.asset_code[i];
            if !((48 <= c && c <= 57) || (65 <= c && c <= 90) || (97 <= c && c <= 122)) {
                return false;
            }
            i = i + 1;
        }
        true
    }

    /// A copy of this asset.
    pub fn duplicate(&self) -> (r: StellarAsset)
        ensures
            r@ == self@,
    {
        StellarAsset { asset_code: copy_bytes(&self.asset_code), issuer: copy_opt_addr(&self.issuer) }
    }
}

/// The asset a donation is made in, as the caller names it.
pub enum AssetInfo {
    Native,
    Stellar(Address),
}

/// The mathematical view of an [`AssetInfo`].
pub enum AssetInfoView {
    Native,
    Stellar(Seq<u8>),
}

impl View for AssetInfo {
    type V = AssetInfoView;

    open spec fn view(&self) -> AssetInfoView {
        match self {
            AssetInfo::Native => AssetInfoView::Native,
            AssetInfo::Stellar(a) => AssetInfoView::Stellar(a@),
        }
    }
}

impl AssetInfo {
    /// Whether two asset descriptions are the same.
    pub fn same(&self, other: &AssetInfo) -> (r: bool)
        ensures
            r == (self@ == other@),
    {
        match (self, other) {
            (AssetInfo::Native, AssetInfo::Native) => true,
            (AssetInfo::Stellar(a), AssetInfo::Stellar(b)) => a.same(b),
            _ => false,
        }
    }

    /// A copy of this asset description.
    pub fn duplicate(&self) -> (r: AssetInfo)
        ensures
            r@ == self@,
    {
        match self {
            AssetInfo::Native => AssetInfo::Native,
            AssetInfo::Stellar(a) => AssetInfo::Stellar(a.duplicate()),
        }
    }
}

/// Life cycle of a campaign.
#[derive(Clone, Copy, PartialEq, Eq, Structural, Debug)]
pub enum CampaignStatus {
    Active,
    GoalReached,
    Ended,
    Cancelled,
}

/// The campaign status graph: an active campaign may reach its goal, end or be
/// cancelled; a campaign that reached its goal may end or be cancelled; ended and
/// cancelled campaigns are final.
pub open spec fn campaign_step(from: CampaignStatus, to: CampaignStatus) -> bool {
    match from {
        CampaignStatus::Active => to is GoalReached || to is Ended || to is Cancelled,
        CampaignStatus::GoalReached => to is Ended || to is Cancelled,
        _ => false,
    }
}

impl CampaignStatus {
    /// Whether the campaign can no longer change status (ended or cancelled).
    pub fn is_terminal(&self) -> (r: bool)
        ensures
            r == (*self is Ended || *self is Cancelled),
    {
        match self {
            CampaignStatus::Ended | CampaignStatus::Cancelled => true,
            _ => false,
        }
    }

    /// Whether the status graph has an edge from this status to `next`.
    pub fn can_transition_to(&self, next: CampaignStatus) -> (r: bool)
        ensures
            r == campaign_step(*self, next),
    {
        match self {
            CampaignStatus::Active => match next {
                CampaignStatus::Active => false,
                _ => true,
            },
            CampaignStatus::GoalReached => match next {
                CampaignStatus::Ended | CampaignStatus::Cancelled => true,
                _ => false,
            },
            _ => false,
        }
    }
}

/// Life cycle of a milestone.
#[derive(Clone, Copy, PartialEq, Eq, Structural, Debug)]
pub enum MilestoneStatus {
    Locked,
    Unlocked,
    Released,
}

/// The milestone status graph: locked, then unlocked, then released.
pub open spec fn milestone_step(from: MilestoneStatus, to: MilestoneStatus) -> bool {
    (from is Locked && to is Unlocked) || (from is Unlocked && to is Released)
}

impl MilestoneStatus {
    /// Whether the status graph has an edge from this status to `next`.
    pub fn can_transition_to(&self, next: MilestoneStatus) -> (r: bool)
        ensures
            r == milestone_step(*self, next),
    {
        match (self, next) {
            (MilestoneStatus::Locked, MilestoneStatus::Unlocked) => true,
            (MilestoneStatus::Unlocked, MilestoneStatus::Released) => true,
            _ => false,
        }
    }
}

/// Why a contract operation is refused.
#[derive(Clone, Copy, PartialEq, Eq, Structural, Debug)]
pub enum Error {
    AlreadyInitialized,
    NotInitialized,
    InvalidGoalAmount,
    InvalidEndTime,
    InvalidAssets,
    InvalidAssetCode,
    InvalidMilestoneCount,
    InvalidMilestones,
    MilestoneMismatch,
    ContractFrozen,
    CampaignNotActive,
    DonationTooSmall,
    Overflow,
    AssetNotAccepted,
    NoDonorRecord,
    RefundNotPermitted,
    RefundWindowClosed,
    RefundAlreadyClaimed,
    InsufficientContractBalance,
    MilestoneNotFound,
    MilestoneAlreadyReleased,
    InvalidMilestoneTransition,
    PreviousMilestoneNotReleased,
    InvalidCampaignTransition,
}

/// One funding milestone of a campaign.
pub struct MilestoneData {
    pub index: u32,
    pub target_amount: i128,
    pub released_amount: i128,
    pub description_hash: Vec<u8>,
    pub status: MilestoneStatus,
    pub released_at: Option<u64>,
    pub released_at_ledger: Option<u32>,
    pub release_tx: Option<Vec<u8>>,
    pub released_to: Option<Address>,
}

/// The mathematical view of a [`MilestoneData`].
pub struct MilestoneDataView {
    pub index: u32,
    pub target_amount: i128,
    pub released_amount: i128,
    pub description_hash: Seq<u8>,
    pub status: MilestoneStatus,
    pub released_at: Option<u64>,
    pub released_at_ledger: Option<u32>,
    pub release_tx: Option<Seq<u8>>,
    pub released_to: Option<Seq<u8>>,
}

impl View for MilestoneData {
    type V = MilestoneDataView;

    open spec fn view(&self) -> MilestoneDataView {
        MilestoneDataView {
            index: self.index,
            target_amount: self.target_amount,
            released_amount: self.released_amount,
            description_hash: self.description_hash@,
            status: self.status,
            released_at: self.released_at,
            released_at_ledger: self.released_at_ledger,
            release_tx: opt_bytes(self.release_tx),
            released_to: opt_addr(self.released_to),
        }
    }
}

impl MilestoneData {
    /// A copy of this milestone.
    pub fn duplicate(&self) -> (r: MilestoneData)
        ensures
            r@ == self@,
    {
        MilestoneData {
            index: self.index,
            target_amount: self.target_amount,
            released_amount: self.released_amount,
            description_hash: copy_bytes(&self.description_hash),
            status: self.status,
            released_at: self.released_at,
            released_at_ledger: self.released_at_ledger,
            release_tx: copy_opt_bytes(&self.release_tx),
            released_to: copy_opt_addr(&self.released_to),
        }
    }
}

/// The view of a sequence of milestones.
pub open spec fn milestones_view(v: Seq<MilestoneData>) -> Seq<MilestoneDataView> {
    v.map_values(|m: MilestoneData| m@)
}

/// The view of a sequence of accepted assets.
pub open spec fn assets_view(v: Seq<StellarAsset>) -> Seq<StellarAssetView> {
    v.map_values(|a: StellarAsset| a@)
}

/// A copy of a list of accepted assets.
pub fn copy_assets(v: &Vec<StellarAsset>) -> (r: Vec<StellarAsset>)
    ensures
        assets_view(r@) == assets_view(v@),
{
    let mut r: Vec<StellarAsset> = Vec::new();
    let mut i: usize = 0;
    while i < v.len()
        invariant
            0 <= i <= v.len(),
            r@.len() == i,
            forall|j: int| 0 <= j < i ==> (#[trigger] r@[j])@ == v@[j]@,
        decreases v.len() - i,
    {
        r.push(v[i].duplicate());
        i = i + 1;
    }
    assert(assets_view(r@) =~= assets_view(v@));
    r
}

/// A copy of a list of milestones.
pub fn copy_milestones(v: &Vec<MilestoneData>) -> (r: Vec<MilestoneData>)
    ensures
        milestones_view(r@) == milestones_view(v@),
{
    let mut r: Vec<MilestoneData> = Vec::new();
    let mut i: usize = 0;
    while i < v.len()
        invariant
            0 <= i <= v.len(),
            r@.len() == i,
            forall|j: int| 0 <= j < i ==> (#[trigger] r@[j])@ == v@[j]@,
        decreases v.len() - i,
    {
        r.push(v[i].duplicate());
        i = i + 1;
    }
    assert(milestones_view(r@) =~= milestones_view(v@));
    r
}

/// The stored description of a campaign.
pub struct CampaignData {
    pub creator: Address,
    pub goal_amount: i128,
    pub raised_amount: i128,
    pub end_time: u64,
    pub status: CampaignStatus,
    pub accepted_assets: Vec<StellarAsset>,
    pub milestone_count: u32,
    pub min_donation_amount: i128,
    pub created_at_ledger: u32,
    pub created_at_time: u64,
    pub concluded_at_ledger: Option<u32>,
}

/// The mathematical view of a [`CampaignData`].
pub struct CampaignDataView {
    pub creator: Seq<u8>,
    pub goal_amount: i128,
    pub raised_amount: i128,
    pub end_time: u64,
    pub status: CampaignStatus,
    pub accepted_assets: Seq<StellarAssetView>,
    pub milestone_count: u32,
    pub min_donation_amount: i128,
    pub created_at_ledger: u32,
    pub created_at_time: u64,
    pub concluded_at_ledger: Option<u32>,
}

impl View for CampaignData {
    type V = CampaignDataView;

    open spec fn view(&self) -> CampaignDataView {
        CampaignDataView {
            creator: self.creator@,
            goal_amount: self.goal_amount,
            raised_amount: self.raised_amount,
            end_time: self.end_time,
            status: self.status,
            accepted_assets: assets_view(self.accepted_assets@),
            milestone_count: self.milestone_count,
            min_donation_amount: self.min_donation_amount,
            created_at_ledger: self.created_at_ledger,
            created_at_time: self.created_at_time,
            concluded_at_ledger: self.concluded_at_ledger,
        }
    }
}

/// The view of an optional campaign.
pub open spec fn opt_campaign(o: Option<CampaignData>) -> Option<CampaignDataView> {
    match o {
        Some(c) => Some(c@),
        None => None,
    }
}

/// The view of a list of per-asset amounts.
pub open spec fn contributions_view(v: Seq<(AssetInfo, i128)>) -> Seq<(AssetInfoView, i128)> {
    v.map_values(|p: (AssetInfo, i128)| (p.0@, p.1))
}

/// A copy of a list of per-asset amounts.
pub fn copy_contributions(v: &Vec<(AssetInfo, i128)>) -> (r: Vec<(AssetInfo, i128)>)
    ensures
        contributions_view(r@) == contributions_view(v@),
{
    let mut r: Vec<(AssetInfo, i128)> = Vec::new();
    let mut i: usize = 0;
    while i < v.len()
        invariant
            0 <= i <= v.len(),
            r@.len() == i,
            forall|j: int|
                0 <= j < i ==> (#[trigger] r@[j]).0@ == v@[j].0@ && r@[j].1 == v@[j].1,
        decreases v.len() - i,
    {
        let (a, x) = &v[i];
        r.push((a.duplicate(), *x));
        i = i + 1;
    }
    assert(contributions_view(r@) =~= contributions_view(v@));
    r
}

/// What the contract records of one donor.
pub struct DonorRecord {
    pub donor: Address,
    pub total_donated: i128,
    pub last_donation_time: u64,
    pub last_donation_ledger: u32,
    pub contributions: Vec<(AssetInfo, i128)>,
    pub refund_claimed: bool,
}

/// The mathematical view of a [`DonorRecord`].
pub struct DonorRecordView {
    pub donor: Seq<u8>,
    pub total_donated: i128,
    pub last_donation_time: u64,
    pub last_donation_ledger: u32,
    pub contributions: Seq<(AssetInfoView, i128)>,
    pub refund_claimed: bool,
}

impl View for DonorRecord {
    type V = DonorRecordView;

    open spec fn view(&self) -> DonorRecordView {
        DonorRecordView {
            donor: self.donor@,
            total_donated: self.total_donated,
            last_donation_time: self.last_donation_time,
            last_donation_ledger: self.last_donation_ledger,
            contributions: contributions_view(self.contributions@),
            refund_claimed: self.refund_claimed,
        }
    }
}

impl DonorRecord {
    /// A copy of this record.
    pub fn duplicate(&self) -> (r: DonorRecord)
        ensures
            r@ == self@,
    {
        DonorRecord {
            donor: self.donor.duplicate(),
            total_donated: self.total_donated,
            last_donation_time: self.last_donation_time,
            last_donation_ledger: self.last_donation_ledger,
            contributions: copy_contributions(&self.contributions),
            refund_claimed: self.refund_claimed,
        }
    }
}

} // verus!
