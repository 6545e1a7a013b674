use campaign_contracts::campaign::CampaignContract;
use campaign_contracts::types::{Address, AssetInfo, Error, MilestoneData, MilestoneStatus, StellarAsset};

const NOW: u64 = 1_700_000_000;

fn addr(tag: u8) -> Address {
    Address { bytes: vec![tag; 32] }
}

fn setup_contract() -> (CampaignContract, Address, Address) {
    let mut contract = CampaignContract::new();
    let creator = addr(1);
    let token = addr(2);

    let assets = vec![StellarAsset { asset_code: b"XLM".to_vec(), issuer: Some(token.duplicate()) }];

    let milestones = vec![MilestoneData {
        index: 0,
        target_amount: 1000,
        released_amount: 0,
        description_hash: vec![0u8; 32],
        status: MilestoneStatus::Locked,
        released_at: None,
        released_at_ledger: None,
        release_tx: None,
        released_to: None,
    }];

    let r = contract.initialize(creator.duplicate(), 1000, NOW + 86400, assets, milestones, 0, NOW, 1);
    assert!(r.is_ok());
    (contract, creator, token)
}

#[test]
fn test_get_admin_after_initialize() {
    let (contract, creator, _token) = setup_contract();
    assert_eq!(contract.get_admin().map(|a| a.bytes), Some(creator.bytes));
}

#[test]
fn test_set_admin_rotates() {
    let (mut contract, _creator, _token) = setup_contract();
    let new_admin = addr(9);
    assert!(contract.set_admin(new_admin.duplicate()).is_ok());
    assert_eq!(contract.get_admin().map(|a| a.bytes), Some(new_admin.bytes));
}

#[test]
fn test_freeze_and_unfreeze() {
    let (mut contract, _creator, _token) = setup_contract();
    assert!(contract.freeze().is_ok());
    assert!(contract.unfreeze().is_ok());
}

#[test]
fn test_donate_rejected_when_frozen() {
    let (mut contract, _creator, token) = setup_contract();
    assert!(contract.freeze().is_ok());
    let donor = addr(3);
    let r = contract.donate(donor, 500, AssetInfo::Stellar(token), NOW, 2);
    assert!(matches!(r, Err(Error::ContractFrozen)));
    assert_eq!(contract.get_total_raised(), 0);
}
