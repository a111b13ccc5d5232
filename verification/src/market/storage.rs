//! Persistent storage of the market contract.
//!
//! The storage carries a layout version. `set_version` writes the current
//! [`STORAGE_VERSION`]; every market, position and counter accessor first
//! checks it and fails with `UpgradeRequired` when the stored version is
//! absent or different. A deployment with an older layout is thereby locked
//! until it is migrated (on testnet: redeployed and reinitialized).

use vstd::prelude::*;

use super::error::ContractError;
use super::types::{Market, Position, PositionKey};
use crate::address::Address;
use crate::table::{lemma_insert_all_unique, seq_insert_all, Table};

verus! {

/// The current storage layout version. Bump it whenever the layout changes
/// in a breaking way.
pub const STORAGE_VERSION: u32 = 2;

/// A position that the contract can hold: its locked collateral is
/// non-negative and at most the collateral deposited.
pub open spec fn position_wf(p: Position) -> bool {
    0 <= p.locked_collateral <= p.total_deposited
}

/// The abstract contents of the market contract's storage.
pub struct MarketView {
    pub version: Option<u32>,
    pub markets: Map<u32, Market>,
    pub positions: Map<PositionKey, Position>,
    pub admin: Option<Address>,
    pub pending_admin: Option<Address>,
    pub market_counter: Option<u32>,
    pub treasury: Option<Address>,
    pub outcome_token_contract: Option<Address>,
    pub fee_rate_bps: Option<i128>,
    pub resolution_contract: Option<Address>,
}

impl MarketView {
    /// Whether the stored layout version is the current one.
    pub open spec fn version_ok(self) -> bool {
        self.version == Some(STORAGE_VERSION)
    }

    /// The last market id handed out (0 before any).
    pub open spec fn counter(self) -> u32 {
        match self.market_counter {
            Some(c) => c,
            None => 0,
        }
    }

    /// The configured withdrawal fee rate (0 when unset).
    pub open spec fn fee_rate(self) -> i128 {
        match self.fee_rate_bps {
            Some(f) => f,
            None => 0,
        }
    }

    /// The market `id`, if stored.
    pub open spec fn market(self, id: u32) -> Option<Market> {
        if self.markets.contains_key(id) {
            Some(self.markets[id])
        } else {
            None
        }
    }

    /// The position of `user` in market `market_id`, if stored.
    pub open spec fn position(self, market_id: u32, user: Address) -> Option<Position> {
        let k = PositionKey { market_id, user };
        if self.positions.contains_key(k) {
            Some(self.positions[k])
        } else {
            None
        }
    }

    /// Every stored position is well-formed.
    pub open spec fn positions_wf(self) -> bool {
        forall|k: PositionKey| #[trigger] self.positions.contains_key(k) ==> position_wf(self.positions[k])
    }
}

/// What is read back is what was last written: a stored market or position
/// is returned by the next read of its key, and writing one key leaves every
/// other key as it was.
pub proof fn lemma_read_after_write(
    v: MarketView,
    market_id: u32,
    market: Market,
    position_market: u32,
    user: Address,
    position: Position,
)
    ensures
        (MarketView { markets: v.markets.insert(market_id, market), ..v }).market(market_id) == Some(
            market,
        ),
        forall|other: u32|
            other != market_id ==> #[trigger] (MarketView {
                markets: v.markets.insert(market_id, market),
                ..v
            }).market(other) == v.market(other),
        (MarketView {
            positions: v.positions.insert(PositionKey { market_id: position_market, user }, position),
            ..v
        }).position(position_market, user) == Some(position),
        forall|m: u32, u: Address|
            (m, u) != (position_market, user) ==> #[trigger] (MarketView {
                positions: v.positions.insert(PositionKey { market_id: position_market, user }, position),
                ..v
            }).position(m, u) == v.position(m, u),
{
    assert forall|m: u32, u: Address|
        (m, u) != (position_market, user) implies #[trigger] (MarketView {
            positions: v.positions.insert(PositionKey { market_id: position_market, user }, position),
            ..v
        }).position(m, u) == v.position(m, u) by {
        assert(PositionKey { market_id: m, user: u } != PositionKey { market_id: position_market, user });
    }
}

/// The market contract's storage in a form that can be saved and loaded.
pub struct MarketSnapshot {
    pub version: Option<u32>,
    pub markets: Vec<(u32, Market)>,
    pub positions: Vec<(PositionKey, Position)>,
    pub admin: Option<Address>,
    pub pending_admin: Option<Address>,
    pub market_counter: Option<u32>,
    pub treasury: Option<Address>,
    pub outcome_token_contract: Option<Address>,
    pub fee_rate_bps: Option<i128>,
    pub resolution_contract: Option<Address>,
}

/// The storage contents that a snapshot describes (a later entry for a key
/// overrides an earlier one).
pub open spec fn market_snapshot_view(s: MarketSnapshot) -> MarketView {
    MarketView {
        version: s.version,
        markets: seq_insert_all(s.markets@),
        positions: seq_insert_all(s.positions@),
        admin: s.admin,
        pending_admin: s.pending_admin,
        market_counter: s.market_counter,
        treasury: s.treasury,
        outcome_token_contract: s.outcome_token_contract,
        fee_rate_bps: s.fee_rate_bps,
        resolution_contract: s.resolution_contract,
    }
}

/// The market contract's storage slots.
pub struct MarketStorage {
    version: Option<u32>,
    markets: Table<u32, Market>,
    positions: Table<PositionKey, Position>,
    admin: Option<Address>,
    pending_admin: Option<Address>,
    market_counter: Option<u32>,
    treasury: Option<Address>,
    outcome_token_contract: Option<Address>,
    fee_rate_bps: Option<i128>,
    resolution_contract: Option<Address>,
}

impl View for MarketStorage {
    type V = MarketView;

    closed spec fn view(&self) -> MarketView {
        MarketView {
            version: self.version,
            markets: self.markets.view(),
            positions: self.positions.view(),
            admin: self.admin,
            pending_admin: self.pending_admin,
            market_counter: self.market_counter,
            treasury: self.treasury,
            outcome_token_contract: self.outcome_token_contract,
            fee_rate_bps: self.fee_rate_bps,
            resolution_contract: self.resolution_contract,
        }
    }
}

impl MarketStorage {
    /// The storage's invariant: well-formed tables holding well-formed positions.
    pub closed spec fn inv(&self) -> bool {
        &&& self.markets.wf()
        &&& self.positions.wf()
        &&& forall|k: PositionKey| #[trigger]
            self.positions.view().contains_key(k) ==> position_wf(self.positions.view()[k])
    }

    /// Every position held in a storage that satisfies the invariant is
    /// well-formed.
    pub proof fn lemma_positions_wf(&self)
        requires
            self.inv(),
        ensures
            self@.positions_wf(),
    {
    }

    /// A snapshot of the storage, to be saved by the host.
    pub fn snapshot(&self) -> (r: MarketSnapshot)
        requires
            self.inv(),
        ensures
            market_snapshot_view(r) == self@,
    {
        let mut markets: Vec<(u32, Market)> = Vec::new();
        let n = self.markets.len();
        let mut i: usize = 0;
        while i < n
            invariant
                self.markets.wf(),
                n == self.markets.entries().len(),
                i <= n,
                markets@ == self.markets.entries().take(i as int),
            decreases n - i,
        {
            let entry = self.markets.entry(i);
            markets.push((entry.0, entry.1.clone()));
            proof {
                assert(self.markets.entries().take(i + 1) =~= self.markets.entries().take(
                    i as int,
                ).push(self.markets.entries()[i as int]));
            }
            i = i + 1;
        }
        proof {
            assert(self.markets.entries().take(n as int) =~= self.markets.entries());
            self.markets.lemma_view();
            self.positions.lemma_view();
            lemma_insert_all_unique(self.markets.entries());
            lemma_insert_all_unique(self.positions.entries());
        }
        MarketSnapshot {
            version: self.version,
            markets,
            positions: self.positions.to_vec(),
            admin: self.admin,
            pending_admin: self.pending_admin,
            market_counter: self.market_counter,
            treasury: self.treasury,
            outcome_token_contract: self.outcome_token_contract,
            fee_rate_bps: self.fee_rate_bps,
            resolution_contract: self.resolution_contract,
        }
    }

    /// The storage that `snapshot` describes, provided every position in it
    /// is well-formed; `None` otherwise.
    pub fn restore(snapshot: MarketSnapshot) -> (r: Option<Self>)
        ensures
            r is Some <==> market_snapshot_view(snapshot).positions_wf(),
            r matches Some(s) ==> s.inv() && s@ == market_snapshot_view(snapshot),
    {
        let ghost described = market_snapshot_view(snapshot);
        let s = MarketStorage {
            version: snapshot.version,
            markets: Table::from_vec(snapshot.markets),
            positions: Table::from_vec(snapshot.positions),
            admin: snapshot.admin,
            pending_admin: snapshot.pending_admin,
            market_counter: snapshot.market_counter,
            treasury: snapshot.treasury,
            outcome_token_contract: snapshot.outcome_token_contract,
            fee_rate_bps: snapshot.fee_rate_bps,
            resolution_contract: snapshot.resolution_contract,
        };
        proof {
            s.positions.lemma_entries();
        }
        let n = s.positions.len();
        let mut i: usize = 0;
        while i < n
            invariant
                s.positions.wf(),
                s@ == described,
                described == market_snapshot_view(snapshot),
                n == s.positions.entries().len(),
                i <= n,
                forall|k: PositionKey| #[trigger]
                    s.positions.view().contains_key(k) ==> exists|j: int|
                        0 <= j < n && #[trigger] s.positions.entries()[j].0 == k,
                forall|j: int|
                    0 <= j < n ==> #[trigger] s.positions.view().contains_key(s.positions.entries()[j].0)
                        && s.positions.view()[s.positions.entries()[j].0] == s.positions.entries()[j].1,
                forall|j: int| 0 <= j < i ==> position_wf(#[trigger] s.positions.entries()[j].1),
            decreases n - i,
        {
            let (pk, p) = *s.positions.entry(i);
            if !(0 <= p.locked_collateral && p.locked_collateral <= p.total_deposited) {
                proof {
                    assert(s.positions.entries()[i as int] == (pk, p));
                    assert(s.positions.view().contains_key(s.positions.entries()[i as int].0));
                    assert(s.positions.view().contains_key(pk) && !position_wf(s.positions.view()[pk]));
                    assert(described.positions.contains_key(pk));
                    assert(!described.positions_wf());
                }
                return None;
            }
            i = i + 1;
        }
        proof {
            assert forall|k: PositionKey| #[trigger] s.positions.view().contains_key(k) implies position_wf(
                s.positions.view()[k],
            ) by {
                let j = choose|j: int| 0 <= j < n && #[trigger] s.positions.entries()[j].0 == k;
                assert(s.positions.view().contains_key(s.positions.entries()[j].0));
            }
        }
        Some(s)
    }

    /// Empty storage, as on a fresh deployment (no version written).
    pub fn new() -> (s: Self)
        ensures
            s.inv(),
            s@ == (MarketView {
                version: None,
                markets: Map::empty(),
                positions: Map::empty(),
                admin: None,
                pending_admin: None,
                market_counter: None,
                treasury: None,
                outcome_token_contract: None,
                fee_rate_bps: None,
                resolution_contract: None,
            }),
    {
        MarketStorage {
            version: None,
            markets: Table::new(),
            positions: Table::new(),
            admin: None,
            pending_admin: None,
            market_counter: None,
            treasury: None,
            outcome_token_contract: None,
            fee_rate_bps: None,
            resolution_contract: None,
        }
    }

    /// Writes the raw layout version; `set_version` writes the current one.
    pub fn write_version(&mut self, version: u32)
        ensures
            final(self).inv() == old(self).inv(),
            final(self)@ == (MarketView { version: Some(version), ..old(self)@ }),
    {
        self.version = Some(version);
    }

    /// Writes the current layout version.
    pub fn set_version(&mut self)
        ensures
            final(self).inv() == old(self).inv(),
            final(self)@ == (MarketView { version: Some(STORAGE_VERSION), ..old(self)@ }),
    {
        self.version = Some(STORAGE_VERSION);
    }

    /// Fails with `UpgradeRequired` unless the stored layout version is the
    /// current one.
    pub fn assert_version(&self) -> (r: Result<(), ContractError>)
        ensures
            r is Ok <==> self@.version_ok(),
            r is Err ==> r == Err::<(), ContractError>(ContractError::UpgradeRequired),
    {
        match self.version {
            Some(v) => {
                if v == STORAGE_VERSION {
                    Ok(())
                } else {
                    Err(ContractError::UpgradeRequired)
                }
            },
            None => Err(ContractError::UpgradeRequired),
        }
    }

    /// The market `market_id`, if stored. Fails with `UpgradeRequired` on a
    /// stale layout.
    pub fn get_market(&self, market_id: u32) -> (r: Result<Option<Market>, ContractError>)
        requires
            self.inv(),
        ensures
            r is Ok <==> self@.version_ok(),
            r is Err ==> r == Err::<Option<Market>, ContractError>(ContractError::UpgradeRequired),
            r is Ok ==> r == Ok::<Option<Market>, ContractError>(self@.market(market_id)),
    {
        self.assert_version()?;
        match self.markets.get(&market_id) {
            Some(m) => Ok(Some(m.clone())),
            None => Ok(None),
        }
    }

    /// Stores `market` as market `market_id`. Fails with `UpgradeRequired` on
    /// a stale layout, and then nothing changes.
    pub fn set_market(&mut self, market_id: u32, market: &Market) -> (r: Result<(), ContractError>)
        requires
            old(self).inv(),
        ensures
            final(self).inv(),
            r is Ok <==> old(self)@.version_ok(),
            r is Err ==> r == Err::<(), ContractError>(ContractError::UpgradeRequired),
            r is Err ==> final(self)@ == old(self)@,
            r is Ok ==> final(self)@ == (MarketView {
                markets: old(self)@.markets.insert(market_id, *market),
                ..old(self)@
            }),
    {
        self.assert_version()?;
        self.markets.insert(market_id, market.clone());
        Ok(())
    }

    /// Whether market `market_id` is stored. Fails with `UpgradeRequired` on
    /// a stale layout.
    pub fn has_market(&self, market_id: u32) -> (r: Result<bool, ContractError>)
        requires
            self.inv(),
        ensures
            r is Ok <==> self@.version_ok(),
            r is Err ==> r == Err::<bool, ContractError>(ContractError::UpgradeRequired),
            r is Ok ==> r == Ok::<bool, ContractError>(self@.markets.contains_key(market_id)),
    {
        self.assert_version()?;
        Ok(self.markets.contains_key(&market_id))
    }

    /// The position of `user` in `market_id`, if stored. Fails with
    /// `UpgradeRequired` on a stale layout.
    pub fn get_position(&self, market_id: u32, user: &Address) -> (r: Result<
        Option<Position>,
        ContractError,
    >)
        requires
            self.inv(),
        ensures
            r is Ok <==> self@.version_ok(),
            r is Err ==> r == Err::<Option<Position>, ContractError>(ContractError::UpgradeRequired),
            r is Ok ==> r == Ok::<Option<Position>, ContractError>(self@.position(market_id, *user)),
    {
        self.assert_version()?;
        match self.positions.get(&PositionKey { market_id, user: *user }) {
            Some(p) => Ok(Some(*p)),
            None => Ok(None),
        }
    }

    /// Stores `position` for `user` in `market_id`. Fails with
    /// `UpgradeRequired` on a stale layout, and then nothing changes.
    pub fn set_position(&mut self, market_id: u32, user: &Address, position: &Position) -> (r:
        Result<(), ContractError>)
        requires
            old(self).inv(),
            position_wf(*position),
        ensures
            final(self).inv(),
            r is Ok <==> old(self)@.version_ok(),
            r is Err ==> r == Err::<(), ContractError>(ContractError::UpgradeRequired),
            r is Err ==> final(self)@ == old(self)@,
            r is Ok ==> final(self)@ == (MarketView {
                positions: old(self)@.positions.insert(PositionKey { market_id, user: *user }, *position),
                ..old(self)@
            }),
    {
        self.assert_version()?;
        self.positions.insert(PositionKey { market_id, user: *user }, *position);
        Ok(())
    }

    /// Whether `user` has a stored position in `market_id`. Fails with
    /// `UpgradeRequired` on a stale layout.
    pub fn has_position(&self, market_id: u32, user: &Address) -> (r: Result<bool, ContractError>)
        requires
            self.inv(),
        ensures
            r is Ok <==> self@.version_ok(),
            r is Err ==> r == Err::<bool, ContractError>(ContractError::UpgradeRequired),
            r is Ok ==> r == Ok::<bool, ContractError>(
                self@.positions.contains_key(PositionKey { market_id, user: *user }),
            ),
    {
        self.assert_version()?;
        Ok(self.positions.contains_key(&PositionKey { market_id, user: *user }))
    }

    /// The admin. Fails with `UpgradeRequired` on a stale layout; with a
    /// current layout the admin must be set.
    pub fn get_admin(&self) -> (r: Result<Address, ContractError>)
        requires
            self@.version_ok() ==> self@.admin is Some,
        ensures
            r is Ok <==> self@.version_ok(),
            r is Err ==> r == Err::<Address, ContractError>(ContractError::UpgradeRequired),
            r is Ok ==> Some(r->Ok_0) == self@.admin,
    {
        self.assert_version()?;
        Ok(self.admin.unwrap())
    }

    /// Stores the admin.
    pub fn set_admin(&mut self, admin: &Address)
        ensures
            final(self).inv() == old(self).inv(),
            final(self)@ == (MarketView { admin: Some(*admin), ..old(self)@ }),
    {
        self.admin = Some(*admin);
    }

    /// Whether the admin slot is populated, i.e. the contract was initialized.
    pub fn has_admin(&self) -> (r: bool)
        ensures
            r == self@.admin is Some,
    {
        self.admin.is_some()
    }

    /// The admin nominated by a pending transfer, if any.
    pub fn get_pending_admin(&self) -> (r: Option<Address>)
        ensures
            r == self@.pending_admin,
    {
        self.pending_admin
    }

    /// Records a pending admin transfer to `admin`.
    pub fn set_pending_admin(&mut self, admin: &Address)
        ensures
            final(self).inv() == old(self).inv(),
            final(self)@ == (MarketView { pending_admin: Some(*admin), ..old(self)@ }),
    {
        self.pending_admin = Some(*admin);
    }

    /// Clears any pending admin transfer.
    pub fn clear_pending_admin(&mut self)
        ensures
            final(self).inv() == old(self).inv(),
            final(self)@ == (MarketView { pending_admin: None, ..old(self)@ }),
    {
        self.pending_admin = None;
    }

    /// The last market id handed out (0 before any). Fails with
    /// `UpgradeRequired` on a stale layout.
    pub fn get_next_market_id(&self) -> (r: Result<u32, ContractError>)
        ensures
            r is Ok <==> self@.version_ok(),
            r is Err ==> r == Err::<u32, ContractError>(ContractError::UpgradeRequired),
            r is Ok ==> r == Ok::<u32, ContractError>(self@.counter()),
    {
        self.assert_version()?;
        match self.market_counter {
            Some(c) => Ok(c),
            None => Ok(0),
        }
    }

    /// Hands out the next market id: increments the counter and returns it.
    /// Fails with `UpgradeRequired` on a stale layout, and then nothing
    /// changes.
    pub fn increment_market_id(&mut self) -> (r: Result<u32, ContractError>)
        requires
            old(self)@.version_ok() ==> old(self)@.counter() < u32::MAX,
        ensures
            final(self).inv() == old(self).inv(),
            r is Ok <==> old(self)@.version_ok(),
            r is Err ==> r == Err::<u32, ContractError>(ContractError::UpgradeRequired),
            r is Err ==> final(self)@ == old(self)@,
            r is Ok ==> r == Ok::<u32, ContractError>((old(self)@.counter() + 1) as u32),
            r is Ok ==> final(self)@ == (MarketView {
                market_counter: Some((old(self)@.counter() + 1) as u32),
                ..old(self)@
            }),
    {
        let next_id = self.get_next_market_id()? + 1;
        self.market_counter = Some(next_id);
        Ok(next_id)
    }

    /// The registered treasury contract, if any.
    pub fn get_treasury(&self) -> (r: Option<Address>)
        ensures
            r == self@.treasury,
    {
        self.treasury
    }

    /// Registers (`Some`), replaces, or removes (`None`) the treasury
    /// contract that withdrawal fees are routed to.
    pub fn set_treasury(&mut self, treasury: &Option<Address>)
        ensures
            final(self).inv() == old(self).inv(),
            final(self)@ == (MarketView { treasury: *treasury, ..old(self)@ }),
    {
        self.treasury = *treasury;
    }

    /// Whether a treasury contract is registered.
    pub fn has_treasury(&self) -> (r: bool)
        ensures
            r == self@.treasury is Some,
    {
        self.treasury.is_some()
    }

    /// The registered outcome-token contract, if any.
    pub fn get_outcome_token_contract(&self) -> (r: Option<Address>)
        ensures
            r == self@.outcome_token_contract,
    {
        self.outcome_token_contract
    }

    /// Registers the outcome-token contract.
    pub fn set_outcome_token_contract(&mut self, contract: &Address)
        ensures
            final(self).inv() == old(self).inv(),
            final(self)@ == (MarketView { outcome_token_contract: Some(*contract), ..old(self)@ }),
    {
        self.outcome_token_contract = Some(*contract);
    }

    /// The registered resolution contract, if any.
    pub fn get_resolution_contract(&self) -> (r: Option<Address>)
        ensures
            r == self@.resolution_contract,
    {
        self.resolution_contract
    }

    /// Registers the resolution contract.
    pub fn set_resolution_contract(&mut self, contract: &Address)
        ensures
            final(self).inv() == old(self).inv(),
            final(self)@ == (MarketView { resolution_contract: Some(*contract), ..old(self)@ }),
    {
        self.resolution_contract = Some(*contract);
    }

    /// The withdrawal fee rate in basis points (0 when unset).
    pub fn get_fee_rate_bps(&self) -> (r: i128)
        ensures
            r == self@.fee_rate(),
    {
        match self.fee_rate_bps {
            Some(f) => f,
            None => 0,
        }
    }

    /// Sets the withdrawal fee rate in basis points.
    pub fn set_fee_rate_bps(&mut self, fee_rate_bps: i128)
        ensures
            final(self).inv() == old(self).inv(),
            final(self)@ == (MarketView { fee_rate_bps: Some(fee_rate_bps), ..old(self)@ }),
    {
        self.fee_rate_bps = Some(fee_rate_bps);
    }
}

} // verus!
