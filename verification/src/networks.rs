//! The currencies in which the game takes payment, and what each one charges.

use vstd::prelude::*;

use crate::assoc::{distinct_keys, has_key, lemma_lookup_at, lemma_lookup_push, lookup};
use crate::error::ContractError;
use crate::utils::{
    is_bridged, is_bridged_denom, is_chain_id_list_unique, is_powerup_list_unique, texts,
};

verus! {

/// The three kinds of powerup.
#[derive(Clone, Copy, Debug, PartialEq, Eq, Structural)]
pub enum Powerup {
    Clover,
    Horseshoe,
    Talisman,
}

/// What one currency charges for a powerup, and what a charge of it does.
#[derive(Clone, Copy, Debug, PartialEq, Eq, Structural)]
pub struct PowerupDef {
    /// Price of one charge.
    pub price: u128,
    /// How far one charge, used on an open attempt, raises the win threshold.
    pub boost: u16,
}

/// How the game is played in one currency.
#[derive(Debug, PartialEq, Eq)]
pub struct NetworkConfig {
    /// The chain the currency lives on.
    pub chain_id: String,
    /// The channel over which a bridged currency arrives.
    pub channel_id: Option<String>,
    /// Price of one open attempt.
    pub open_cost: u128,
    /// The powerups on offer, with their definitions.
    pub power_ups: Vec<(Powerup, PowerupDef)>,
}

/// The contents of a `NetworkConfig`.
pub struct NetworkConfigView {
    pub chain_id: Seq<char>,
    pub channel_id: Option<Seq<char>>,
    pub open_cost: u128,
    pub power_ups: Seq<(Powerup, PowerupDef)>,
}

impl View for NetworkConfig {
    type V = NetworkConfigView;

    open spec fn view(&self) -> NetworkConfigView {
        NetworkConfigView {
            chain_id: self.chain_id@,
            channel_id: match self.channel_id {
                Some(channel) => Some(channel@),
                None => None,
            },
            open_cost: self.open_cost,
            power_ups: self.power_ups@,
        }
    }
}

impl Clone for NetworkConfig {
    fn clone(&self) -> (copy: Self)
        ensures
            copy@ == self@,
    {
        let mut power_ups: Vec<(Powerup, PowerupDef)> = Vec::new();
        let mut i: usize = 0;
        while i < self.power_ups.len()
            invariant
                i <= self.power_ups.len(),
                power_ups@ == self.power_ups@.take(i as int),
            decreases self.power_ups.len() - i,
        {
            power_ups.push(self.power_ups[i]);
            proof {
                assert(power_ups@ =~= self.power_ups@.take(i + 1));
            }
            i = i + 1;
        }
        proof {
            assert(self.power_ups@.take(i as int) =~= self.power_ups@);
        }
        let channel_id: Option<String> = match &self.channel_id {
            Some(channel) => Some(channel.clone()),
            None => None,
        };
        NetworkConfig {
            chain_id: self.chain_id.clone(),
            channel_id,
            open_cost: self.open_cost,
            power_ups,
        }
    }
}

/// One registered currency.
#[derive(Debug, PartialEq, Eq)]
pub struct NetworkEntry {
    pub denom: String,
    pub config: NetworkConfig,
}

/// The contents of a list of entries: denominations with their configurations.
pub open spec fn listing(entries: Seq<NetworkEntry>) -> Seq<(Seq<char>, NetworkConfigView)> {
    entries.map_values(|entry: NetworkEntry| (entry.denom@, entry.config@))
}

/// The kinds of powerup that a list of definitions names, in its order.
pub open spec fn powerup_types(power_ups: Seq<(Powerup, PowerupDef)>) -> Seq<Powerup> {
    power_ups.map_values(|entry: (Powerup, PowerupDef)| entry.0)
}

/// A currency defines exactly three powerups, no kind twice.
pub open spec fn valid_power_ups(power_ups: Seq<(Powerup, PowerupDef)>) -> bool {
    power_ups.len() == 3 && powerup_types(power_ups).no_duplicates()
}

/// What is wrong with one currency taken by itself, if anything: its
/// powerups are checked first, then the channel of a bridged asset.
pub open spec fn config_error(denom: Seq<char>, config: NetworkConfigView) -> Option<
    ContractError,
> {
    if !valid_power_ups(config.power_ups) {
        Some(ContractError::InvalidPowerupAmounts)
    } else if is_bridged(denom) && config.channel_id is None {
        Some(ContractError::MissingChannelId)
    } else {
        None
    }
}

/// What is wrong with the first currency of `list` that is wrong by itself.
pub open spec fn first_config_error(list: Seq<(Seq<char>, NetworkConfigView)>) -> Option<
    ContractError,
>
    decreases list.len(),
{
    if list.len() == 0 {
        None
    } else {
        match first_config_error(list.drop_last()) {
            Some(e) => Some(e),
            None => config_error(list.last().0, list.last().1),
        }
    }
}

/// The chain ids of a list of currencies, in its order.
pub open spec fn chain_ids(list: Seq<(Seq<char>, NetworkConfigView)>) -> Seq<Seq<char>> {
    list.map_values(|entry: (Seq<char>, NetworkConfigView)| entry.1.chain_id)
}

/// What is wrong with a list of currencies, if anything: the first currency
/// that is wrong by itself decides; if none is, no two may share a chain id.
pub open spec fn listing_error(list: Seq<(Seq<char>, NetworkConfigView)>) -> Option<
    ContractError,
> {
    match first_config_error(list) {
        Some(e) => Some(e),
        None => if chain_ids(list).no_duplicates() {
            None
        } else {
            Some(ContractError::DuplicateChainIds)
        },
    }
}

/// An error found among the first `n` currencies is the error of the list.
pub proof fn lemma_first_config_error_prefix(list: Seq<(Seq<char>, NetworkConfigView)>, n: int)
    requires
        0 <= n <= list.len(),
        first_config_error(list.take(n)) is Some,
    ensures
        first_config_error(list) == first_config_error(list.take(n)),
    decreases list.len() - n,
{
    if n == list.len() {
        assert(list.take(n) =~= list);
    } else {
        assert(list.drop_last().take(n) =~= list.take(n));
        lemma_first_config_error_prefix(list.drop_last(), n);
    }
}

/// The currency at `index` decides the error of the list when every
/// currency before it is right by itself.
pub proof fn lemma_first_config_error_at(list: Seq<(Seq<char>, NetworkConfigView)>, index: int)
    requires
        0 <= index < list.len(),
        forall|j: int| 0 <= j < index ==> config_error(list[j].0, list[j].1) is None,
    ensures
        first_config_error(list.take(index)) is None,
        first_config_error(list.take(index + 1)) == config_error(list[index].0, list[index].1),
        config_error(list[index].0, list[index].1) is Some ==> first_config_error(list)
            == config_error(list[index].0, list[index].1),
    decreases index,
{
    if index > 0 {
        lemma_first_config_error_at(list, index - 1);
    }
    assert(list.take(index + 1).drop_last() =~= list.take(index));
    if config_error(list[index].0, list[index].1) is Some {
        lemma_first_config_error_prefix(list, index + 1);
    }
}

/// A list has no currency that is wrong by itself exactly when none of its
/// currencies is.
pub proof fn lemma_first_config_error_none(list: Seq<(Seq<char>, NetworkConfigView)>)
    ensures
        first_config_error(list) is None <==> forall|j: int|
            0 <= j < list.len() ==> config_error(list[j].0, list[j].1) is None,
    decreases list.len(),
{
    if list.len() > 0 {
        lemma_first_config_error_none(list.drop_last());
        if first_config_error(list) is None {
            assert forall|j: int| 0 <= j < list.len() implies config_error(
                list[j].0,
                list[j].1,
            ) is None by {
                if j < list.len() - 1 {
                    assert(list.drop_last()[j] == list[j]);
                }
            }
        }
        if forall|j: int| 0 <= j < list.len() ==> config_error(list[j].0, list[j].1) is None {
            assert forall|j: int| 0 <= j < list.drop_last().len() implies config_error(
                list.drop_last()[j].0,
                list.drop_last()[j].1,
            ) is None by {
                assert(list.drop_last()[j] == list[j]);
            }
        }
    }
}

/// Checks one currency by itself.
pub fn check_config(denom: &String, config: &NetworkConfig) -> (result: Result<(), ContractError>)
    ensures
        match result {
            Ok(_) => config_error(denom@, config@) is None,
            Err(e) => config_error(denom@, config@) == Some(e),
        },
{
    let mut powerup_list: Vec<Powerup> = Vec::new();
    let mut i: usize = 0;
    while i < config.power_ups.len()
        invariant
            i <= config.power_ups.len(),
            powerup_list@ == powerup_types(config.power_ups@).take(i as int),
        decreases config.power_ups.len() - i,
    {
        powerup_list.push(config.power_ups[i].0);
        proof {
            assert(powerup_list@ =~= powerup_types(config.power_ups@).take(i + 1));
        }
        i = i + 1;
    }
    proof {
        assert(powerup_types(config.power_ups@).take(i as int) =~= powerup_types(
            config.power_ups@,
        ));
    }
    if config.power_ups.len() != 3 || !is_powerup_list_unique(&powerup_list) {
        return Err(ContractError::InvalidPowerupAmounts);
    }
    if is_bridged_denom(denom) && config.channel_id.is_none() {
        return Err(ContractError::MissingChannelId);
    }
    Ok(())
}

/// The configured currencies, in the order in which they were registered.
/// Each denomination is registered at most once.
#[derive(Debug, PartialEq, Eq)]
pub struct NetworkRegistry {
    entries: Vec<NetworkEntry>,
}

impl View for NetworkRegistry {
    type V = Seq<(Seq<char>, NetworkConfigView)>;

    closed spec fn view(&self) -> Seq<(Seq<char>, NetworkConfigView)> {
        listing(self.entries@)
    }
}

impl NetworkRegistry {
    /// No denomination is registered twice.
    pub open spec fn wf(&self) -> bool {
        distinct_keys(self@)
    }

    /// A registry without currencies.
    pub fn new() -> (registry: NetworkRegistry)
        ensures
            registry.wf(),
            registry@ == Seq::<(Seq<char>, NetworkConfigView)>::empty(),
    {
        let registry = NetworkRegistry { entries: Vec::new() };
        proof {
            assert(registry@ =~= Seq::<(Seq<char>, NetworkConfigView)>::empty());
        }
        registry
    }

    /// The number of registered currencies.
    pub fn len(&self) -> (len: usize)
        ensures
            len == self@.len(),
    {
        self.entries.len()
    }

    /// The index at which `denom` is registered, if it is.
    fn find(&self, denom: &String) -> (found: Option<usize>)
        ensures
            match found {
                Some(index) => index < self@.len() && self@[index as int].0 == denom@,
                None => !has_key(self@, denom@),
            },
    {
        let mut i: usize = 0;
        while i < self.entries.len()
            invariant
                i <= self.entries.len(),
                forall|j: int| 0 <= j < i ==> self@[j].0 != denom@,
            decreases self.entries.len() - i,
        {
            if self.entries[i].denom == *denom {
                return Some(i);
            }
            i = i + 1;
        }
        None
    }

    /// Registers `config` under `denom`, unless `denom` is registered already:
    /// a denomination is configured once and never overwritten.
    pub fn register(&mut self, denom: String, config: NetworkConfig) -> (added: bool)
        requires
            old(self).wf(),
        ensures
            final(self).wf(),
            added == !has_key(old(self)@, denom@),
            added ==> final(self)@ == old(self)@.push((denom@, config@)),
            !added ==> *final(self) == *old(self),
    {
        match self.find(&denom) {
            Some(_) => false,
            None => {
                proof {
                    lemma_lookup_push(self@, denom@, config@, denom@);
                }
                self.entries.push(NetworkEntry { denom, config });
                proof {
                    assert(self@ =~= old(self)@.push((denom@, config@)));
                }
                true
            },
        }
    }

    /// The configuration registered under `denom`.
    pub fn get(&self, denom: &String) -> (found: Option<&NetworkConfig>)
        requires
            self.wf(),
        ensures
            match found {
                Some(config) => lookup(self@, denom@) == Some(config@),
                None => lookup(self@, denom@) is None,
            },
    {
        match self.find(denom) {
            Some(index) => {
                proof {
                    lemma_lookup_at(self@, index as int);
                }
                Some(&self.entries[index].config)
            },
            None => None,
        }
    }

    /// Checks every registered currency by itself, in the order of
    /// registration, and then that no two of them share a chain id.
    pub fn validate(&self) -> (result: Result<(), ContractError>)
        ensures
            match result {
                Ok(_) => listing_error(self@) is None,
                Err(e) => listing_error(self@) == Some(e),
            },
    {
        let mut ids: Vec<String> = Vec::new();
        let mut i: usize = 0;
        while i < self.entries.len()
            invariant
                i <= self.entries.len(),
                self@.len() == self.entries.len(),
                ids.len() == i,
                forall|j: int| 0 <= j < i ==> config_error(self@[j].0, self@[j].1) is None,
                texts(ids@) == chain_ids(self@).take(i as int),
            decreases self.entries.len() - i,
        {
            let ghost before = ids@;
            ids.push(self.entries[i].config.chain_id.clone());
            match check_config(&self.entries[i].denom, &self.entries[i].config) {
                Err(e) => {
                    proof {
                        lemma_first_config_error_at(self@, i as int);
                    }
                    return Err(e);
                },
                Ok(_) => {},
            }
            proof {
                assert forall|k: int| 0 <= k < i + 1 implies texts(ids@)[k] == chain_ids(
                    self@,
                ).take(i + 1)[k] by {
                    if k < i {
                        assert(ids@[k] == before[k]);
                        assert(texts(before)[k] == chain_ids(self@).take(i as int)[k]);
                    }
                }
                assert(texts(ids@) =~= chain_ids(self@).take(i + 1));
            }
            i = i + 1;
        }
        proof {
            lemma_first_config_error_none(self@);
            assert(chain_ids(self@).take(i as int) =~= chain_ids(self@));
        }
        if !is_chain_id_list_unique(&ids) {
            return Err(ContractError::DuplicateChainIds);
        }
        Ok(())
    }

    /// The registered denominations, in the order of registration.
    pub fn denoms(&self) -> (denoms: Vec<String>)
        ensures
            denoms@.len() == self@.len(),
            forall|i: int| 0 <= i < denoms@.len() ==> (#[trigger] denoms@[i])@ == self@[i].0,
    {
        let mut denoms: Vec<String> = Vec::new();
        let mut i: usize = 0;
        while i < self.entries.len()
            invariant
                i <= self.entries.len(),
                self@.len() == self.entries.len(),
                denoms@.len() == i,
                forall|j: int| 0 <= j < i ==> (#[trigger] denoms@[j])@ == self@[j].0,
            decreases self.entries.len() - i,
        {
            denoms.push(self.entries[i].denom.clone());
            i = i + 1;
        }
        denoms
    }

    /// Every registered currency, in the order of registration.
    pub fn get_all(&self) -> (entries: Vec<NetworkEntry>)
        ensures
            listing(entries@) == self@,
    {
        let mut entries: Vec<NetworkEntry> = Vec::new();
        let mut i: usize = 0;
        while i < self.entries.len()
            invariant
                i <= self.entries.len(),
                self@.len() == self.entries.len(),
                entries.len() == i,
                listing(entries@) == self@.take(i as int),
            decreases self.entries.len() - i,
        {
            let denom: String = self.entries[i].denom.clone();
            let config: NetworkConfig = self.entries[i].config.clone();
            let ghost before = entries@;
            entries.push(NetworkEntry { denom, config });
            proof {
                assert forall|k: int| 0 <= k < i + 1 implies listing(entries@)[k] == self@.take(
                    i + 1,
                )[k] by {
                    if k < i {
                        assert(entries@[k] == before[k]);
                        assert(listing(before)[k] == self@.take(i as int)[k]);
                    }
                }
                assert(listing(entries@) =~= self@.take(i + 1));
            }
            i = i + 1;
        }
        proof {
            assert(self@.take(i as int) =~= self@);
        }
        entries
    }
}

} // verus!
