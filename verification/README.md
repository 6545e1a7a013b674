# campaign_contracts

A crowdfunding campaign contract and its deployment factory, with the decision
logic written and proved in Verus.

- `src/` is the verified library. The contract's whole storage is the value
  `CampaignContract` (campaign data, admin, frozen flag, milestones, donor
  records, totals per token and per donor/token). Every entry point is a method
  that maps the storage and the call's inputs (including the ledger time and
  sequence) to the new storage and to what must happen outside: token transfers
  and event payloads. Each method's contract relates the result to a spec
  function over the mathematical view of the storage, and keeps the storage
  invariant `wf`.
  - `types.rs`: addresses, assets, statuses and their transition graphs, errors.
  - `keyed.rs`: sequences of key/value pairs read as maps.
  - `campaign.rs`: storage, invariant, initialization, administration.
  - `donation.rs`: token resolution, donations, per-asset totals.
  - `refund.rs`: refund eligibility and claims.
  - `release.rs`: milestone releases.
  - `factory.rs`: the factory's admin and deployment counter.
  - `laws.rs`: properties that span several operations.
- `app/` holds the Soroban contracts: ledger storage, authorization, the ledger
  clock, token transfers, deployment and events, around calls into the library.
- `tests/` exercise the library on concrete values.

Limits of this crate:
- The operations that end or cancel a campaign (`end_campaign`,
  `cancel_campaign`) are not here, nor are `extend_deadline`,
  `get_campaign_status`, `release_milestone_multi_asset` and
  `get_all_milestones`. Nothing here moves a campaign to `Ended` or
  `Cancelled`, so a contract built from it alone never grants a refund.
- There is no reentrancy lock in storage. Each library operation is one
  atomic step, its storage is saved before any token transfer, and the Soroban
  host refuses a contract that calls back into itself.
- A frozen contract refuses donations, refunds, milestone releases, admin
  changes and code upgrades; only unfreezing is allowed.
