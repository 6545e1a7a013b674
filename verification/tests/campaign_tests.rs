use campaign_contracts::campaign::{validate_campaign_transition, validate_milestone_transition, CampaignContract};
use campaign_contracts::donation::resolve_asset_code;
use campaign_contracts::refund::check_contract_balance;
use campaign_contracts::types::{
    Address, AssetInfo, CampaignStatus, Error, MilestoneData, MilestoneStatus, StellarAsset,
};
use campaign_contracts::{REFUND_WINDOW, VERSION};

const NOW: u64 = 1_700_000_000;
const END: u64 = NOW + 86_400;

fn addr(tag: u8) -> Address {
    Address { bytes: vec![tag; 32] }
}

fn xlm_token() -> Address {
    addr(2)
}

fn usdc_token() -> Address {
    addr(5)
}

fn milestone(index: u32, target: i128) -> MilestoneData {
    MilestoneData {
        index,
        target_amount: target,
        released_amount: 0,
        description_hash: vec![index as u8; 32],
        status: MilestoneStatus::Locked,
        released_at: None,
        released_at_ledger: None,
        release_tx: None,
        released_to: None,
    }
}

fn assets() -> Vec<StellarAsset> {
    vec![
        StellarAsset { asset_code: b"XLM".to_vec(), issuer: Some(xlm_token()) },
        StellarAsset { asset_code: b"USDC".to_vec(), issuer: Some(usdc_token()) },
    ]
}

fn milestones() -> Vec<MilestoneData> {
    vec![milestone(0, 300), milestone(1, 600), milestone(2, 1000)]
}

fn setup(min_donation: i128) -> CampaignContract {
    let mut c = CampaignContract::new();
    c.initialize(addr(1), 1000, END, assets(), milestones(), min_donation, NOW, 7).unwrap();
    c
}

fn statuses(c: &CampaignContract) -> Vec<MilestoneStatus> {
    c.milestones.iter().map(|m| m.status).collect()
}

#[test]
fn version_and_greeting() {
    assert_eq!(CampaignContract::version(), 1);
    assert_eq!(VERSION, 1);
    assert_eq!(CampaignContract::hello(), "campaign");
    assert_eq!(REFUND_WINDOW, 2_592_000);
}

#[test]
fn initialize_reports_event_and_state() {
    let mut c = CampaignContract::new();
    let ev = c.initialize(addr(1), 1000, END, assets(), milestones(), 5, NOW, 7).unwrap();
    assert_eq!(ev.creator.bytes, addr(1).bytes);
    assert_eq!(ev.goal_amount, 1000);
    assert_eq!(ev.end_time, END);
    assert_eq!(ev.asset_count, 2);
    assert_eq!(ev.milestone_count, 3);
    assert_eq!(ev.created_at_ledger, 7);
    let data = c.campaign.as_ref().unwrap();
    assert_eq!(data.status, CampaignStatus::Active);
    assert_eq!(data.raised_amount, 0);
    assert_eq!(data.created_at_time, NOW);
    assert_eq!(data.min_donation_amount, 5);
    assert_eq!(c.get_total_raised(), 0);
}

#[test]
fn initialize_refusals() {
    let mut c = setup(0);
    assert!(matches!(
        c.initialize(addr(1), 1000, END, assets(), milestones(), 0, NOW, 7),
        Err(Error::AlreadyInitialized)
    ));
    let mut c = CampaignContract::new();
    assert!(matches!(c.initialize(addr(1), 0, END, assets(), milestones(), 0, NOW, 7), Err(Error::InvalidGoalAmount)));
    assert!(matches!(c.initialize(addr(1), 1000, NOW, assets(), milestones(), 0, NOW, 7), Err(Error::InvalidEndTime)));
    assert!(matches!(c.initialize(addr(1), 1000, END, vec![], milestones(), 0, NOW, 7), Err(Error::InvalidAssets)));
    let bad = vec![StellarAsset { asset_code: b"US-D".to_vec(), issuer: Some(usdc_token()) }];
    assert!(matches!(c.initialize(addr(1), 1000, END, bad, milestones(), 0, NOW, 7), Err(Error::InvalidAssetCode)));
    let long = vec![StellarAsset { asset_code: b"ABCDEFGHIJKLM".to_vec(), issuer: None }];
    assert!(matches!(c.initialize(addr(1), 1000, END, long, milestones(), 0, NOW, 7), Err(Error::InvalidAssetCode)));
    assert!(matches!(c.initialize(addr(1), 1000, END, assets(), vec![], 0, NOW, 7), Err(Error::InvalidMilestoneCount)));
    let eleven: Vec<MilestoneData> = (0..11).map(|i| milestone(i, 100 * (i as i128 + 1))).collect();
    assert!(matches!(c.initialize(addr(1), 1100, END, assets(), eleven, 0, NOW, 7), Err(Error::InvalidMilestoneCount)));
    let flat = vec![milestone(0, 500), milestone(1, 500), milestone(2, 1000)];
    assert!(matches!(c.initialize(addr(1), 1000, END, assets(), flat, 0, NOW, 7), Err(Error::InvalidMilestones)));
    let short = vec![milestone(0, 300), milestone(1, 900)];
    assert!(matches!(c.initialize(addr(1), 1000, END, assets(), short, 0, NOW, 7), Err(Error::MilestoneMismatch)));
    assert!(c.campaign.is_none());
    assert!(c.get_admin().is_none());
}

#[test]
fn admin_operations_need_initialization() {
    let mut c = CampaignContract::new();
    assert!(matches!(c.set_admin(addr(3)), Err(Error::NotInitialized)));
    assert!(matches!(c.freeze(), Err(Error::NotInitialized)));
    assert!(matches!(c.unfreeze(), Err(Error::NotInitialized)));
    assert!(matches!(c.upgrade(), Err(Error::NotInitialized)));
    assert!(!c.frozen);
}

#[test]
fn freeze_then_unfreeze_restores_and_upgrade_names_admin() {
    let mut c = setup(0);
    let admin = c.freeze().unwrap();
    assert_eq!(admin.bytes, addr(1).bytes);
    assert!(c.frozen);
    assert!(matches!(c.set_admin(addr(8)), Err(Error::ContractFrozen)));
    assert!(matches!(c.upgrade(), Err(Error::ContractFrozen)));
    assert_eq!(c.get_admin().unwrap().bytes, addr(1).bytes);
    c.unfreeze().unwrap();
    assert!(!c.frozen);
    let prev = c.set_admin(addr(8)).unwrap();
    assert_eq!(prev.bytes, addr(1).bytes);
    assert_eq!(c.upgrade().unwrap().bytes, addr(8).bytes);
}

#[test]
fn donations_update_books_goal_and_milestones() {
    let mut c = setup(0);
    let a = addr(3);
    let b = addr(4);
    let o = c.donate(a.duplicate(), 400, AssetInfo::Native, NOW + 1, 8).unwrap();
    assert_eq!(o.raised_amount, 400);
    assert!(!o.goal_reached);
    assert_eq!(o.unlocked, vec![0]);
    assert_eq!(o.asset_code, b"XLM".to_vec());
    assert_eq!(o.token.bytes, xlm_token().bytes);
    assert_eq!(c.get_total_raised(), 400);
    assert_eq!(statuses(&c), vec![MilestoneStatus::Unlocked, MilestoneStatus::Locked, MilestoneStatus::Locked]);

    let o = c.donate(b.duplicate(), 700, AssetInfo::Stellar(usdc_token()), NOW + 2, 9).unwrap();
    assert_eq!(o.raised_amount, 1100);
    assert!(o.goal_reached);
    assert_eq!(o.unlocked, vec![1, 2]);
    assert_eq!(o.asset_code, b"USDC".to_vec());
    assert_eq!(c.campaign.as_ref().unwrap().status, CampaignStatus::GoalReached);
    assert_eq!(c.get_total_raised(), 1100);
    assert!(c.is_well_formed());
    let tallies: i128 = c.asset_raised.iter().map(|(_, x)| *x).sum();
    assert_eq!(tallies, 1100);

    // A later donation on a campaign that reached its goal is still accepted.
    let o = c.donate(a.duplicate(), 50, AssetInfo::Stellar(xlm_token()), NOW + 3, 10).unwrap();
    assert!(!o.goal_reached);
    assert!(o.unlocked.is_empty());

    let rec = c.get_donor_record(&a).unwrap();
    assert_eq!(rec.total_donated, 450);
    assert_eq!(rec.last_donation_time, NOW + 3);
    assert_eq!(rec.last_donation_ledger, 10);
    assert!(!rec.refund_claimed);
    let breakdown = c.get_donor_asset_breakdown(&a);
    assert_eq!(breakdown.len(), 2);
    assert!(matches!(breakdown[0].0, AssetInfo::Native));
    assert_eq!(breakdown[0].1, 400);
    assert!(matches!(&breakdown[1].0, AssetInfo::Stellar(t) if t.bytes == xlm_token().bytes));
    assert_eq!(breakdown[1].1, 50);
    assert!(c.get_donor_record(&addr(99)).is_none());
    assert!(c.get_donor_asset_breakdown(&addr(99)).is_empty());

    assert!(c.issuers_named());
    let per = c.get_raised_per_asset().unwrap();
    assert_eq!(per.len(), 2);
    assert!(matches!(per[0].0, AssetInfo::Native));
    assert_eq!(per[0].1, 450);
    assert!(matches!(&per[1].0, AssetInfo::Stellar(t) if t.bytes == usdc_token().bytes));
    assert_eq!(per[1].1, 700);
}

#[test]
fn donation_refusals_leave_state_unchanged() {
    let mut fresh = CampaignContract::new();
    assert!(matches!(fresh.donate(addr(3), 10, AssetInfo::Native, NOW, 1), Err(Error::NotInitialized)));
    assert!(matches!(fresh.get_raised_per_asset(), Err(Error::NotInitialized)));

    let mut c = setup(100);
    assert!(matches!(c.donate(addr(3), 0, AssetInfo::Native, NOW, 1), Err(Error::DonationTooSmall)));
    assert!(matches!(c.donate(addr(3), 99, AssetInfo::Native, NOW, 1), Err(Error::DonationTooSmall)));
    assert!(matches!(
        c.donate(addr(3), 100, AssetInfo::Stellar(addr(77)), NOW, 1),
        Err(Error::AssetNotAccepted)
    ));
    assert_eq!(c.get_total_raised(), 0);
    assert!(c.get_donor_record(&addr(3)).is_none());

    c.campaign.as_mut().unwrap().status = CampaignStatus::Ended;
    assert!(matches!(c.donate(addr(3), 100, AssetInfo::Native, NOW, 1), Err(Error::CampaignNotActive)));

    let mut c = setup(0);
    c.campaign.as_mut().unwrap().raised_amount = i128::MAX - 10;
    c.total_raised = i128::MAX - 10;
    assert!(matches!(c.donate(addr(3), 100, AssetInfo::Native, NOW, 1), Err(Error::Overflow)));
    assert_eq!(c.get_total_raised(), i128::MAX - 10);
}

#[test]
fn native_asset_needs_an_xlm_issuer() {
    let mut c = CampaignContract::new();
    let only_usdc = vec![StellarAsset { asset_code: b"USDC".to_vec(), issuer: Some(usdc_token()) }];
    c.initialize(addr(1), 1000, END, only_usdc, vec![milestone(0, 1000)], 0, NOW, 1).unwrap();
    assert!(matches!(c.donate(addr(3), 10, AssetInfo::Native, NOW, 1), Err(Error::AssetNotAccepted)));

    let assets = assets();
    assert_eq!(resolve_asset_code(&AssetInfo::Stellar(addr(77)), &assets), b"UNKNOWN".to_vec());
    assert_eq!(resolve_asset_code(&AssetInfo::Native, &assets), b"XLM".to_vec());
    assert_eq!(resolve_asset_code(&AssetInfo::Stellar(usdc_token()), &assets), b"USDC".to_vec());
}

#[test]
fn milestone_release_rules_and_shares() {
    let mut c = setup(0);
    c.donate(addr(3), 400, AssetInfo::Native, NOW, 1).unwrap();
    c.donate(addr(4), 700, AssetInfo::Stellar(usdc_token()), NOW, 1).unwrap();

    assert!(matches!(c.release_milestone(5, addr(6), NOW), Err(Error::MilestoneNotFound)));
    assert!(matches!(c.release_milestone(1, addr(6), NOW), Err(Error::PreviousMilestoneNotReleased)));

    let payouts = c.release_milestone(0, addr(6), NOW + 5).unwrap();
    assert_eq!(payouts.len(), 2);
    // 400 * 300 / 1100 = 109 and 700 * 300 / 1100 = 190, rounded down.
    assert_eq!(payouts[0].token.bytes, xlm_token().bytes);
    assert_eq!(payouts[0].amount, 109);
    assert_eq!(payouts[0].asset_code, b"XLM".to_vec());
    assert_eq!(payouts[1].token.bytes, usdc_token().bytes);
    assert_eq!(payouts[1].amount, 190);
    assert!(payouts[0].amount + payouts[1].amount <= 300);
    assert_eq!(payouts[1].asset_code, b"USDC".to_vec());

    let m = c.get_milestone_view(0).unwrap();
    assert_eq!(m.status, MilestoneStatus::Released);
    assert_eq!(m.released_amount, 300);
    assert_eq!(m.released_at, Some(NOW + 5));
    assert_eq!(m.released_to.unwrap().bytes, addr(6).bytes);
    assert!(matches!(c.get_milestone_view(3), Err(Error::MilestoneNotFound)));

    assert!(matches!(c.release_milestone(0, addr(6), NOW), Err(Error::MilestoneAlreadyReleased)));
    assert!(c.release_milestone(1, addr(6), NOW).is_ok());
    assert!(c.is_well_formed());

    c.freeze().unwrap();
    assert!(matches!(c.release_milestone(2, addr(6), NOW), Err(Error::ContractFrozen)));
    assert!(matches!(c.release_milestone(2, addr(6), NOW), Err(Error::ContractFrozen)));
}

#[test]
fn locked_milestone_cannot_be_released() {
    let mut c = setup(0);
    assert!(matches!(c.release_milestone(0, addr(6), NOW), Err(Error::InvalidMilestoneTransition)));
    let mut fresh = CampaignContract::new();
    assert!(matches!(fresh.release_milestone(0, addr(6), NOW), Err(Error::NotInitialized)));
    assert!(fresh.get_creator().is_none());
    assert_eq!(c.get_creator().unwrap().bytes, addr(1).bytes);
}

#[test]
fn refunds_are_proportional_and_claimed_once() {
    let mut c = setup(0);
    let a = addr(3);
    c.donate(a.duplicate(), 400, AssetInfo::Native, NOW, 1).unwrap();
    c.donate(addr(4), 700, AssetInfo::Stellar(usdc_token()), NOW, 1).unwrap();
    c.release_milestone(0, addr(6), NOW).unwrap();

    // Still running: no refunds.
    assert!(!c.is_refund_eligible(&a, NOW));
    assert!(matches!(c.claim_refund(&a, NOW), Err(Error::RefundNotPermitted)));

    c.campaign.as_mut().unwrap().status = CampaignStatus::Cancelled;
    assert!(!c.refund_deadline_overflows(&a));
    assert!(c.is_refund_eligible(&a, NOW));
    assert!(matches!(c.claim_refund(&addr(99), NOW), Err(Error::NoDonorRecord)));

    let plan = c.claim_refund(&a, NOW).unwrap();
    // 400 * (1100 - 300) / 1100 = 290, rounded down.
    assert_eq!(plan.transfers.len(), 1);
    assert_eq!(plan.transfers[0].token.bytes, xlm_token().bytes);
    assert_eq!(plan.transfers[0].amount, 290);
    assert_eq!(plan.total_donated, 400);
    assert!(c.get_donor_record(&a).unwrap().refund_claimed);
    let other = c.get_donor_record(&addr(4)).unwrap();
    assert!(!other.refund_claimed);
    assert_eq!(other.total_donated, 700);
    assert!(!c.is_refund_eligible(&a, NOW));
    assert!(matches!(c.claim_refund(&a, NOW), Err(Error::RefundAlreadyClaimed)));
    assert!(matches!(c.claim_refund(&a, END + REFUND_WINDOW + 1), Err(Error::RefundWindowClosed)));

    let b = addr(4);
    assert!(!c.is_refund_eligible(&b, END + REFUND_WINDOW + 1));
    assert!(c.is_refund_eligible(&b, END + REFUND_WINDOW));
}

#[test]
fn ended_campaign_refunds_only_without_releases() {
    let mut c = setup(0);
    let a = addr(3);
    c.donate(a.duplicate(), 200, AssetInfo::Native, NOW, 1).unwrap();
    c.campaign.as_mut().unwrap().status = CampaignStatus::Ended;
    assert!(c.is_refund_eligible(&a, NOW));
    let plan = c.claim_refund(&a, NOW).unwrap();
    assert_eq!(plan.transfers[0].amount, 200);

    let mut c = setup(0);
    c.donate(a.duplicate(), 400, AssetInfo::Native, NOW, 1).unwrap();
    c.release_milestone(0, addr(6), NOW).unwrap();
    c.campaign.as_mut().unwrap().status = CampaignStatus::Ended;
    assert!(!c.is_refund_eligible(&a, NOW));
    assert!(matches!(c.claim_refund(&a, NOW), Err(Error::RefundNotPermitted)));

    c.freeze().unwrap();
    assert!(matches!(c.claim_refund(&a, NOW), Err(Error::ContractFrozen)));
    let mut fresh = CampaignContract::new();
    assert!(matches!(fresh.claim_refund(&a, NOW), Err(Error::NotInitialized)));
    assert!(!fresh.is_refund_eligible(&a, NOW));
}

#[test]
fn refund_deadline_overflow_is_reported() {
    let mut c = CampaignContract::new();
    c.initialize(addr(1), 1000, u64::MAX, assets(), milestones(), 0, NOW, 1).unwrap();
    let a = addr(3);
    c.donate(a.duplicate(), 10, AssetInfo::Native, NOW, 1).unwrap();
    assert!(!c.refund_deadline_overflows(&a));
    c.campaign.as_mut().unwrap().status = CampaignStatus::Cancelled;
    assert!(c.refund_deadline_overflows(&a));
    assert!(matches!(c.claim_refund(&a, NOW), Err(Error::Overflow)));
}

#[test]
fn balance_check_before_payout() {
    assert!(check_contract_balance(100, 100).is_ok());
    assert!(check_contract_balance(101, 100).is_ok());
    assert!(matches!(check_contract_balance(99, 100), Err(Error::InsufficientContractBalance)));
}

#[test]
fn status_graphs() {
    assert!(validate_campaign_transition(&CampaignStatus::Active, &CampaignStatus::GoalReached).is_ok());
    assert!(validate_campaign_transition(&CampaignStatus::Active, &CampaignStatus::Cancelled).is_ok());
    assert!(validate_campaign_transition(&CampaignStatus::GoalReached, &CampaignStatus::Ended).is_ok());
    assert!(matches!(validate_campaign_transition(&CampaignStatus::Ended, &CampaignStatus::Active), Err(Error::InvalidCampaignTransition)));
    assert!(matches!(validate_campaign_transition(&CampaignStatus::Cancelled, &CampaignStatus::Ended), Err(Error::InvalidCampaignTransition)));
    assert!(matches!(validate_campaign_transition(&CampaignStatus::GoalReached, &CampaignStatus::Active), Err(Error::InvalidCampaignTransition)));
    assert!(validate_milestone_transition(&MilestoneStatus::Locked, &MilestoneStatus::Unlocked).is_ok());
    assert!(validate_milestone_transition(&MilestoneStatus::Unlocked, &MilestoneStatus::Released).is_ok());
    assert!(matches!(
        validate_milestone_transition(&MilestoneStatus::Locked, &MilestoneStatus::Released),
        Err(Error::InvalidMilestoneTransition)
    ));
    assert!(matches!(
        validate_milestone_transition(&MilestoneStatus::Released, &MilestoneStatus::Locked),
        Err(Error::InvalidMilestoneTransition)
    ));
    assert!(CampaignStatus::Ended.is_terminal() && CampaignStatus::Cancelled.is_terminal());
    assert!(!CampaignStatus::Active.is_terminal());
}

#[test]
fn asset_codes() {
    let ok = StellarAsset { asset_code: b"USDC".to_vec(), issuer: None };
    assert!(ok.has_valid_code());
    assert!(!ok.is_xlm());
    let xlm = StellarAsset { asset_code: b"XLM".to_vec(), issuer: None };
    assert!(xlm.is_xlm());
    let empty = StellarAsset { asset_code: vec![], issuer: None };
    assert!(!empty.has_valid_code());
    let twelve = StellarAsset { asset_code: b"ABCDEFGHIJ12".to_vec(), issuer: None };
    assert!(twelve.has_valid_code());
}
