//! Plain values shared by every part of the game: what the host tells a
//! request about its block and payer, a cell, and the global tunables.

use vstd::prelude::*;

use crate::cooldowns::UserCooldowns;
use crate::field::Field;
use crate::networks::{NetworkConfigView, NetworkRegistry};
use crate::powerups::{Charges, PowerupLedger};

verus! {

/// Seconds in one day.
pub const ONE_DAY: u64 = 24 * 3600;

/// Field size used when a field is created without an explicit size.
pub const DEFAULT_FIELD_SIZE: u32 = 64;

/// Largest supported number of cells.
pub const MAX_FIELD_SIZE: u32 = 1024;

/// Win threshold used when none is given: twice the largest byte, less twenty.
pub const DEFAULT_WIN_THRESHOLD: u16 = 490;

/// One slot of the field.
#[derive(Clone, Copy, Debug, PartialEq, Eq, Structural)]
pub struct CellState {
    /// Hidden value, fixed when the field is created; always below 255.
    pub random: u8,
    /// Earliest time, in seconds, at which the cell may next be opened.
    pub open_at: u64,
}

/// Global tunables.
#[derive(Clone, Copy, Debug, PartialEq, Eq, Structural)]
pub struct Config {
    /// An open attempt wins when its draw is below this cutoff.
    pub win_threshold: u16,
    /// Seconds a cell stays closed after an open attempt.
    pub cell_cooldown: u64,
    /// Seconds an account must wait between two open attempts.
    pub user_cooldown: u64,
}

/// The block a request runs in.
#[derive(Clone, Debug, PartialEq, Eq)]
pub struct BlockInfo {
    pub height: u64,
    /// Block time in seconds.
    pub time: u64,
    pub chain_id: String,
}

/// The environment a request runs in.
#[derive(Clone, Debug, PartialEq, Eq)]
pub struct Env {
    pub block: BlockInfo,
}

/// An amount of one currency.
#[derive(Clone, Debug, PartialEq, Eq)]
pub struct Coin {
    pub denom: String,
    pub amount: u128,
}

/// Who sent a request, and the funds that came with it.
#[derive(Clone, Debug, PartialEq, Eq)]
pub struct MessageInfo {
    pub sender: String,
    pub funds: Vec<Coin>,
}

/// The outcome of checking a bearer permit outside this library.
#[derive(Clone, Debug, PartialEq, Eq)]
pub enum Permit {
    /// The permit is genuine and speaks for this account.
    Granted(String),
    /// The permit was not accepted.
    Denied,
}

/// A payment: an amount in one denomination.
pub struct Payment {
    pub denom: Seq<char>,
    pub amount: u128,
}

/// What a list of funds pays with: the first coin, if there is one.
pub open spec fn payment_of(funds: Seq<Coin>) -> Option<Payment> {
    if funds.len() == 0 {
        None
    } else {
        Some(Payment { denom: funds[0].denom@, amount: funds[0].amount })
    }
}

/// Everything the game keeps between requests.
#[derive(Debug, PartialEq, Eq)]
pub struct State {
    /// The cells.
    pub field: Field,
    /// The global tunables.
    pub config: Config,
    /// The configured currencies.
    pub networks: NetworkRegistry,
    /// The powerup charges that accounts hold.
    pub powerups: PowerupLedger,
    /// When each account last opened a cell.
    pub cooldowns: UserCooldowns,
}

/// The contents of a `State`.
#[verifier::ext_equal]
pub struct StateView {
    /// The cells, in the order of their ids.
    pub cells: Seq<CellState>,
    /// The global tunables.
    pub config: Config,
    /// The configured currencies with their denominations, in the order of
    /// registration.
    pub networks: Seq<(Seq<char>, NetworkConfigView)>,
    /// What every account holds in every denomination.
    pub charges: Map<(Seq<char>, Seq<char>), Charges>,
    /// When each account that ever opened a cell last did so.
    pub last_opened: Map<Seq<char>, u64>,
}

impl StateView {
    /// The time at which `user` last opened a cell, if ever.
    pub open spec fn last_opened_by(self, user: Seq<char>) -> Option<u64> {
        if self.last_opened.contains_key(user) {
            Some(self.last_opened[user])
        } else {
            None
        }
    }
}

impl View for State {
    type V = StateView;

    open spec fn view(&self) -> StateView {
        StateView {
            cells: self.field@,
            config: self.config,
            networks: self.networks@,
            charges: self.powerups@,
            last_opened: self.cooldowns@,
        }
    }
}

impl State {
    /// Every store is well formed.
    pub open spec fn wf(&self) -> bool {
        &&& self.field.wf()
        &&& self.networks.wf()
        &&& self.powerups.wf()
        &&& self.cooldowns.wf()
    }
}

} // verus!
