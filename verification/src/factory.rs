//! The factory that deploys campaign contracts: its admin and deployment counter.
use vstd::prelude::*;

use crate::types::{copy_opt_addr, opt_addr, Address};

verus! {

/// The factory's storage keys.
pub enum DataKey {
    /// The admin address allowed to deploy new campaign contracts.
    Admin,
    /// Sequential counter of deployed campaigns.
    Count,
}

/// Why a factory operation is refused.
#[derive(Clone, Copy, PartialEq, Eq, Structural, Debug)]
pub enum FactoryError {
    AlreadyInitialized,
    NotInitialized,
}

/// Everything the factory keeps in its storage: the admin and the number of
/// campaigns deployed.
pub struct CampaignFactory {
    pub admin: Option<Address>,
    pub count: u64,
}

/// The mathematical view of the factory's storage.
pub struct FactoryView {
    pub admin: Option<Seq<u8>>,
    pub count: u64,
}

impl View for CampaignFactory {
    type V = FactoryView;

    open spec fn view(&self) -> FactoryView {
        FactoryView { admin: opt_addr(self.admin), count: self.count }
    }
}

/// Initializing the factory with `admin`: refused when an admin is already set.
pub open spec fn factory_initialize_spec(s: FactoryView, admin: Seq<u8>) -> Result<FactoryView, FactoryError> {
    if s.admin is Some {
        Err(FactoryError::AlreadyInitialized)
    } else {
        Ok(FactoryView { admin: Some(admin), count: 0 })
    }
}

/// Recording a deployment: refused before initialization, else one more campaign.
pub open spec fn factory_deploy_spec(s: FactoryView) -> Result<FactoryView, FactoryError> {
    if s.admin is None {
        Err(FactoryError::NotInitialized)
    } else {
        Ok(FactoryView { count: (s.count + 1) as u64, ..s })
    }
}

impl CampaignFactory {
    /// Storage of a freshly deployed factory.
    pub fn new() -> (r: CampaignFactory)
        ensures
            r@ == (FactoryView { admin: None, count: 0 }),
    {
        CampaignFactory { admin: None, count: 0 }
    }

    /// Sets the admin, once, and starts the deployment counter at zero.
    pub fn initialize(&mut self, admin: Address) -> (r: Result<(), FactoryError>)
        ensures
            match factory_initialize_spec(old(self)@, admin@) {
                Ok(s) => r is Ok && final(self)@ == s,
                Err(e) => r == Err::<(), FactoryError>(e) && final(self)@ == old(self)@,
            },
    {
        if self.admin.is_some() {
            return Err(FactoryError::AlreadyInitialized);
        }
        self.admin = Some(admin);
        self.count = 0;
        Ok(())
    }

    /// Records the deployment of one more campaign; returns the admin, who must
    /// authorize it.
    pub fn deploy_campaign(&mut self) -> (r: Result<Address, FactoryError>)
        requires
            old(self).admin is Some ==> old(self).count < u64::MAX,
        ensures
            match factory_deploy_spec(old(self)@) {
                Ok(s) => final(self)@ == s && (r matches Ok(a) && Some(a@) == old(self)@.admin),
                Err(e) => r == Err::<Address, FactoryError>(e) && final(self)@ == old(self)@,
            },
    {
        match &self.admin {
            None => Err(FactoryError::NotInitialized),
            Some(a) => {
                let ad = a.duplicate();
                self.count = self.count + 1;
                Ok(ad)
            },
        }
    }

    /// The admin, if the factory is initialized.
    pub fn get_admin(&self) -> (r: Option<Address>)
        ensures
            opt_addr(r) == self@.admin,
    {
        copy_opt_addr(&self.admin)
    }

    /// The number of campaigns deployed through this factory.
    pub fn get_campaign_count(&self) -> (r: u64)
        ensures
            r == self@.count,
    {
        self.count
    }
}

} // verus!
