//! The requests that the game answers, and its answers.

use vstd::prelude::*;

use crate::field::OpenReceipt;
use crate::networks::{NetworkConfig, NetworkEntry, NetworkRegistry, Powerup};
use crate::powerups::{DenomCharges, PurchaseReceipt};
use crate::state::{
    CellState, Coin, Permit, DEFAULT_FIELD_SIZE, DEFAULT_WIN_THRESHOLD, ONE_DAY,
};

verus! {

/// What a new game is created from. Where a value is left out, its default
/// takes its place: 64 cells, a win threshold of 490, two days of cooldown
/// for a cell and one day for an account.
#[derive(Debug, PartialEq, Eq)]
pub struct InstantiateMsg {
    pub field_size: Option<u32>,
    pub network_configs: NetworkRegistry,
    pub cell_cooldown: Option<u64>,
    pub user_cooldown: Option<u64>,
    pub win_threshold: Option<u16>,
}

impl InstantiateMsg {
    /// The number of cells asked for.
    pub open spec fn field_size_or_default(&self) -> u32 {
        match self.field_size {
            Some(field_size) => field_size,
            None => DEFAULT_FIELD_SIZE,
        }
    }

    /// The cell cooldown asked for.
    pub open spec fn cell_cooldown_or_default(&self) -> u64 {
        match self.cell_cooldown {
            Some(cooldown) => cooldown,
            None => (2 * ONE_DAY) as u64,
        }
    }

    /// The account cooldown asked for.
    pub open spec fn user_cooldown_or_default(&self) -> u64 {
        match self.user_cooldown {
            Some(cooldown) => cooldown,
            None => ONE_DAY,
        }
    }

    /// The win threshold asked for.
    pub open spec fn win_threshold_or_default(&self) -> u16 {
        match self.win_threshold {
            Some(threshold) => threshold,
            None => DEFAULT_WIN_THRESHOLD,
        }
    }
}

/// Whether the game takes requests.
#[derive(Clone, Copy, Debug, PartialEq, Eq, Structural)]
pub enum AppStatus {
    Running,
    Stopped,
}

/// News of a transfer that was sent to another chain.
#[derive(Debug, PartialEq, Eq)]
pub enum IBCLifecycleComplete {
    /// The other chain answered.
    IBCAck { channel: String, sequence: u64, ack: String, success: bool },
    /// The other chain did not answer in time.
    IBCTimeout { channel: String, sequence: u64 },
}

/// A request that may change the game.
#[derive(Debug, PartialEq, Eq)]
pub enum ExecuteMsg {
    /// Open a cell, using one charge of each listed powerup.
    OpenCell { permit: Permit, cell_id: u32, powerups: Vec<Powerup>, power_up_autopay: bool },
    /// Buy one charge of each listed powerup.
    BuyPowerups { permit: Permit, powerups: Vec<Powerup> },
    /// Start or stop the game.
    SetAppStatus { status: AppStatus },
    /// Send funds that the game holds to an address.
    ForwardsFunds { to_address: String, amount: Coin },
    /// News of a transfer.
    IBCLifecycleComplete(IBCLifecycleComplete),
}

/// A request that only the chain itself can make.
#[derive(Debug, PartialEq, Eq)]
pub enum SudoMsg {
    /// News of a transfer.
    IBCLifecycleComplete(IBCLifecycleComplete),
}

/// A request that only reads.
#[derive(Debug, PartialEq, Eq)]
pub enum QueryMsg {
    /// Every cell.
    GetField,
    /// What the holder of the permit holds in each currency.
    GetMyPowerups { permit: Permit },
    /// The configuration of one currency.
    NetworkConfig { denom: String },
    /// The configuration of every currency.
    AllNetworkConfigs,
    /// Cells, currencies and, with a permit, holdings in one answer.
    Main { permit: Option<Permit> },
}

/// Work that the game hands to the services around it.
#[derive(Debug, PartialEq, Eq)]
pub enum Delegation {
    /// `sender` asks to start or stop the game.
    SetAppStatus { sender: String, status: AppStatus },
    /// `sender` asks to send `amount` to `to_address`.
    ForwardFunds { sender: String, to_address: String, amount: Coin },
    /// A transfer was acknowledged.
    IbcAck { channel: String, sequence: u64, ack: String, success: bool },
    /// A transfer timed out.
    IbcTimeout { channel: String, sequence: u64 },
}

/// The answer to a request that may change the game.
#[derive(Debug, PartialEq, Eq)]
pub enum Response {
    /// A cell was opened. A win is to be paid out by the funds service.
    CellOpened(OpenReceipt),
    /// Powerups were bought.
    PowerupsBought(PurchaseReceipt),
    /// The request is for a service outside the game.
    Delegated(Delegation),
}

/// The cells of the field.
#[derive(Debug, PartialEq, Eq)]
pub struct FieldResponse {
    pub cells: Vec<CellState>,
}

/// Cells, currencies and holdings in one answer.
#[derive(Debug, PartialEq, Eq)]
pub struct MainPageResponse {
    pub cells: Vec<CellState>,
    pub powerups: Option<Vec<DenomCharges>>,
    pub network_configs: Vec<NetworkEntry>,
}

/// The answer to a request that only reads.
#[derive(Debug, PartialEq, Eq)]
pub enum QueryResponse {
    Field(FieldResponse),
    MyPowerups(Vec<DenomCharges>),
    NetworkConfig(Option<NetworkConfig>),
    AllNetworkConfigs(Vec<NetworkEntry>),
    Main(MainPageResponse),
}

} // verus!
