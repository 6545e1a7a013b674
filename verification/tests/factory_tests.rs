use campaign_contracts::factory::{CampaignFactory, FactoryError};
use campaign_contracts::types::Address;

fn addr(tag: u8) -> Address {
    Address { bytes: vec![tag; 32] }
}

#[test]
fn test_initialize() {
    let mut factory = CampaignFactory::new();
    let admin = addr(1);
    assert!(factory.initialize(admin.duplicate()).is_ok());
    assert_eq!(factory.get_admin().map(|a| a.bytes), Some(admin.bytes));
    assert_eq!(factory.get_campaign_count(), 0);
}

#[test]
fn test_initialize_twice_panics() {
    let mut factory = CampaignFactory::new();
    let admin = addr(1);
    assert!(factory.initialize(admin.duplicate()).is_ok());
    assert_eq!(factory.initialize(admin), Err(FactoryError::AlreadyInitialized));
}

#[test]
fn factory_deploy_counts_and_needs_initialization() {
    let mut factory = CampaignFactory::new();
    assert!(matches!(factory.deploy_campaign(), Err(FactoryError::NotInitialized)));
    assert_eq!(factory.get_campaign_count(), 0);
    let admin = addr(4);
    factory.initialize(admin.duplicate()).unwrap();
    let who = factory.deploy_campaign().unwrap();
    assert_eq!(who.bytes, admin.bytes);
    assert_eq!(factory.get_campaign_count(), 1);
    factory.deploy_campaign().unwrap();
    assert_eq!(factory.get_campaign_count(), 2);
}
