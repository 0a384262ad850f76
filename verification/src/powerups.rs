//! The powerup ledger: how many charges of each powerup every account holds
//! in every currency, and what buying and using them does to it.

use vstd::prelude::*;

use crate::assoc::{
    distinct_keys, has_key, lemma_lookup_at, lemma_lookup_push, lemma_lookup_update, lookup,
};
use crate::error::ContractError;
use crate::networks::{NetworkConfig, NetworkConfigView, Powerup, PowerupDef};
use crate::state::{payment_of, Coin, Payment, State, StateView};

verus! {

/// A number of charges of each kind of powerup.
#[derive(Clone, Copy, Debug, PartialEq, Eq, Structural)]
pub struct Charges {
    pub clover: u64,
    pub horseshoe: u64,
    pub talisman: u64,
}

impl Charges {
    /// The number of charges of `powerup`.
    pub open spec fn spec_get(self, powerup: Powerup) -> u64 {
        match powerup {
            Powerup::Clover => self.clover,
            Powerup::Horseshoe => self.horseshoe,
            Powerup::Talisman => self.talisman,
        }
    }

    /// No charges at all.
    pub open spec fn spec_none() -> Charges {
        Charges { clover: 0, horseshoe: 0, talisman: 0 }
    }

    /// `quantity` charges of `powerup` and none of the others.
    pub open spec fn spec_single(powerup: Powerup, quantity: u64) -> Charges {
        match powerup {
            Powerup::Clover => Charges { clover: quantity, horseshoe: 0, talisman: 0 },
            Powerup::Horseshoe => Charges { clover: 0, horseshoe: quantity, talisman: 0 },
            Powerup::Talisman => Charges { clover: 0, horseshoe: 0, talisman: quantity },
        }
    }

    /// There are at least as many charges of every kind as in `need`.
    pub open spec fn spec_covers(self, need: Charges) -> bool {
        self.clover >= need.clover && self.horseshoe >= need.horseshoe && self.talisman
            >= need.talisman
    }

    /// Adding `more` keeps every count within what the ledger can hold.
    pub open spec fn spec_fits_with(self, more: Charges) -> bool {
        &&& self.clover + more.clover <= u64::MAX
        &&& self.horseshoe + more.horseshoe <= u64::MAX
        &&& self.talisman + more.talisman <= u64::MAX
    }

    /// Kind by kind, the sum of the two counts.
    pub open spec fn spec_plus(self, more: Charges) -> Charges {
        Charges {
            clover: (self.clover + more.clover) as u64,
            horseshoe: (self.horseshoe + more.horseshoe) as u64,
            talisman: (self.talisman + more.talisman) as u64,
        }
    }

    /// Kind by kind, what is left after taking `less` away; nothing where
    /// `less` asks for more than there is.
    pub open spec fn spec_minus(self, less: Charges) -> Charges {
        Charges {
            clover: if self.clover >= less.clover {
                (self.clover - less.clover) as u64
            } else {
                0
            },
            horseshoe: if self.horseshoe >= less.horseshoe {
                (self.horseshoe - less.horseshoe) as u64
            } else {
                0
            },
            talisman: if self.talisman >= less.talisman {
                (self.talisman - less.talisman) as u64
            } else {
                0
            },
        }
    }

    #[verifier::when_used_as_spec(spec_get)]
    pub fn get(self, powerup: Powerup) -> (count: u64)
        ensures
            count == self.spec_get(powerup),
    {
        match powerup {
            Powerup::Clover => self.clover,
            Powerup::Horseshoe => self.horseshoe,
            Powerup::Talisman => self.talisman,
        }
    }

    #[verifier::when_used_as_spec(spec_none)]
    pub fn none() -> (charges: Charges)
        ensures
            charges == Charges::spec_none(),
    {
        Charges { clover: 0, horseshoe: 0, talisman: 0 }
    }

    #[verifier::when_used_as_spec(spec_single)]
    pub fn single(powerup: Powerup, quantity: u64) -> (charges: Charges)
        ensures
            charges == Charges::spec_single(powerup, quantity),
    {
        match powerup {
            Powerup::Clover => Charges { clover: quantity, horseshoe: 0, talisman: 0 },
            Powerup::Horseshoe => Charges { clover: 0, horseshoe: quantity, talisman: 0 },
            Powerup::Talisman => Charges { clover: 0, horseshoe: 0, talisman: quantity },
        }
    }

    #[verifier::when_used_as_spec(spec_covers)]
    pub fn covers(self, need: Charges) -> (covered: bool)
        ensures
            covered == self.spec_covers(need),
    {
        self.clover >= need.clover && self.horseshoe >= need.horseshoe && self.talisman
            >= need.talisman
    }

    #[verifier::when_used_as_spec(spec_fits_with)]
    pub fn fits_with(self, more: Charges) -> (fits: bool)
        ensures
            fits == self.spec_fits_with(more),
    {
        more.clover <= u64::MAX - self.clover && more.horseshoe <= u64::MAX - self.horseshoe
            && more.talisman <= u64::MAX - self.talisman
    }

    /// Kind by kind, the sum of the two counts, unless one of the sums is
    /// more than the ledger can hold.
    pub fn checked_plus(self, more: Charges) -> (sum: Option<Charges>)
        ensures
            match sum {
                Some(sum) => self.spec_fits_with(more) && sum == self.spec_plus(more),
                None => !self.spec_fits_with(more),
            },
    {
        if self.fits_with(more) {
            Some(
                Charges {
                    clover: self.clover + more.clover,
                    horseshoe: self.horseshoe + more.horseshoe,
                    talisman: self.talisman + more.talisman,
                },
            )
        } else {
            None
        }
    }

    #[verifier::when_used_as_spec(spec_minus)]
    pub fn minus(self, less: Charges) -> (rest: Charges)
        ensures
            rest == self.spec_minus(less),
    {
        Charges {
            clover: self.clover.saturating_sub(less.clover),
            horseshoe: self.horseshoe.saturating_sub(less.horseshoe),
            talisman: self.talisman.saturating_sub(less.talisman),
        }
    }
}

/// How often `powerup` occurs in `list`.
pub open spec fn occurrences(list: Seq<Powerup>, powerup: Powerup) -> nat
    decreases list.len(),
{
    if list.len() == 0 {
        0
    } else {
        occurrences(list.drop_last(), powerup) + if list.last() == powerup {
            1nat
        } else {
            0nat
        }
    }
}

/// The charges that a list of powerups stands for: one for each occurrence.
pub open spec fn tally(list: Seq<Powerup>) -> Charges {
    Charges {
        clover: occurrences(list, Powerup::Clover) as u64,
        horseshoe: occurrences(list, Powerup::Horseshoe) as u64,
        talisman: occurrences(list, Powerup::Talisman) as u64,
    }
}

/// No powerup occurs more often in a list than the list is long.
pub proof fn lemma_occurrences_bounded(list: Seq<Powerup>, powerup: Powerup)
    ensures
        occurrences(list, powerup) <= list.len(),
    decreases list.len(),
{
    if list.len() > 0 {
        lemma_occurrences_bounded(list.drop_last(), powerup);
    }
}

/// Counts the occurrences of each kind of powerup in `list`.
pub fn count_powerups(list: &Vec<Powerup>) -> (charges: Charges)
    ensures
        charges == tally(list@),
        charges.clover == occurrences(list@, Powerup::Clover),
        charges.horseshoe == occurrences(list@, Powerup::Horseshoe),
        charges.talisman == occurrences(list@, Powerup::Talisman),
{
    let mut charges = Charges { clover: 0, horseshoe: 0, talisman: 0 };
    let mut i: usize = 0;
    while i < list.len()
        invariant
            i <= list.len(),
            charges.clover == occurrences(list@.take(i as int), Powerup::Clover),
            charges.horseshoe == occurrences(list@.take(i as int), Powerup::Horseshoe),
            charges.talisman == occurrences(list@.take(i as int), Powerup::Talisman),
        decreases list.len() - i,
    {
        proof {
            let next = list@.take(i + 1);
            assert(next.drop_last() =~= list@.take(i as int));
            assert(next.last() == list@[i as int]);
            lemma_occurrences_bounded(next, Powerup::Clover);
            lemma_occurrences_bounded(next, Powerup::Horseshoe);
            lemma_occurrences_bounded(next, Powerup::Talisman);
        }
        match list[i] {
            Powerup::Clover => {
                charges.clover = charges.clover + 1;
            },
            Powerup::Horseshoe => {
                charges.horseshoe = charges.horseshoe + 1;
            },
            Powerup::Talisman => {
                charges.talisman = charges.talisman + 1;
            },
        }
        i = i + 1;
    }
    proof {
        assert(list@.take(i as int) =~= list@);
    }
    charges
}

/// The definition that a list gives for `powerup`: the first one listed for
/// it. A kind that the list leaves out costs nothing and does nothing.
pub open spec fn def_of(power_ups: Seq<(Powerup, PowerupDef)>, powerup: Powerup) -> PowerupDef
    decreases power_ups.len(),
{
    if power_ups.len() == 0 {
        PowerupDef { price: 0, boost: 0 }
    } else if power_ups[0].0 == powerup {
        power_ups[0].1
    } else {
        def_of(power_ups.drop_first(), powerup)
    }
}

/// What `amounts` cost in the currency of `config`.
pub open spec fn price_of(config: NetworkConfigView, amounts: Charges) -> int {
    amounts.clover * def_of(config.power_ups, Powerup::Clover).price + amounts.horseshoe * def_of(
        config.power_ups,
        Powerup::Horseshoe,
    ).price + amounts.talisman * def_of(config.power_ups, Powerup::Talisman).price
}

/// How far `amounts`, used on one open attempt, raise the win threshold in
/// the currency of `config`.
pub open spec fn boost_of(config: NetworkConfigView, amounts: Charges) -> int {
    amounts.clover * def_of(config.power_ups, Powerup::Clover).boost + amounts.horseshoe * def_of(
        config.power_ups,
        Powerup::Horseshoe,
    ).boost + amounts.talisman * def_of(config.power_ups, Powerup::Talisman).boost
}

/// The definition that `config` gives for `powerup`.
pub fn find_def(config: &NetworkConfig, powerup: Powerup) -> (def: PowerupDef)
    ensures
        def == def_of(config@.power_ups, powerup),
{
    let mut i: usize = 0;
    proof {
        assert(config@.power_ups.skip(0) =~= config@.power_ups);
    }
    while i < config.power_ups.len()
        invariant
            i <= config.power_ups.len(),
            def_of(config@.power_ups, powerup) == def_of(
                config@.power_ups.skip(i as int),
                powerup,
            ),
        decreases config.power_ups.len() - i,
    {
        proof {
            assert(config@.power_ups.skip(i as int).drop_first() =~= config@.power_ups.skip(
                i + 1,
            ));
        }
        if config.power_ups[i].0 == powerup {
            return config.power_ups[i].1;
        }
        i = i + 1;
    }
    PowerupDef { price: 0, boost: 0 }
}

/// What `amounts` cost in the currency of `config`, unless that is more than
/// any payment can hold.
pub fn price(config: &NetworkConfig, amounts: Charges) -> (cost: Option<u128>)
    ensures
        match cost {
            Some(cost) => cost == price_of(config@, amounts),
            None => price_of(config@, amounts) > u128::MAX,
        },
{
    let clover: u128 = find_def(config, Powerup::Clover).price;
    let horseshoe: u128 = find_def(config, Powerup::Horseshoe).price;
    let talisman: u128 = find_def(config, Powerup::Talisman).price;
    let first: Option<u128> = (amounts.clover as u128).checked_mul(clover);
    let second: Option<u128> = (amounts.horseshoe as u128).checked_mul(horseshoe);
    let third: Option<u128> = (amounts.talisman as u128).checked_mul(talisman);
    proof {
        assert(amounts.clover * clover >= 0) by (nonlinear_arith);
        assert(amounts.horseshoe * horseshoe >= 0) by (nonlinear_arith);
        assert(amounts.talisman * talisman >= 0) by (nonlinear_arith);
    }
    match (first, second, third) {
        (Some(a), Some(b), Some(c)) => match a.checked_add(b) {
            Some(ab) => ab.checked_add(c),
            None => None,
        },
        _ => None,
    }
}

/// How far `amounts`, used on one open attempt, raise the win threshold in
/// the currency of `config`.
pub fn boost(config: &NetworkConfig, amounts: Charges) -> (total: u128)
    ensures
        total == boost_of(config@, amounts),
{
    let clover: u16 = find_def(config, Powerup::Clover).boost;
    let horseshoe: u16 = find_def(config, Powerup::Horseshoe).boost;
    let talisman: u16 = find_def(config, Powerup::Talisman).boost;
    proof {
        assert(0 <= amounts.clover * clover <= 0xffff_ffff_ffff_ffff * 0xffff) by (nonlinear_arith)
            requires
                0 <= amounts.clover <= 0xffff_ffff_ffff_ffff,
                0 <= clover <= 0xffff,
        ;
        assert(0 <= amounts.horseshoe * horseshoe <= 0xffff_ffff_ffff_ffff * 0xffff)
            by (nonlinear_arith)
            requires
                0 <= amounts.horseshoe <= 0xffff_ffff_ffff_ffff,
                0 <= horseshoe <= 0xffff,
        ;
        assert(0 <= amounts.talisman * talisman <= 0xffff_ffff_ffff_ffff * 0xffff)
            by (nonlinear_arith)
            requires
                0 <= amounts.talisman <= 0xffff_ffff_ffff_ffff,
                0 <= talisman <= 0xffff,
        ;
    }
    (amounts.clover as u128) * (clover as u128) + (amounts.horseshoe as u128) * (horseshoe as u128)
        + (amounts.talisman as u128) * (talisman as u128)
}

/// What buying `amounts` with `funds` gives an account that holds `have`:
/// the new holding and the price, if the funds cover the price and the new
/// holding can be counted.
pub open spec fn purchase_outcome(
    have: Charges,
    config: NetworkConfigView,
    amounts: Charges,
    funds: u128,
) -> Result<(Charges, u128), ContractError> {
    if funds < price_of(config, amounts) {
        Err(ContractError::InsufficientFunds)
    } else if !have.spec_fits_with(amounts) {
        Err(ContractError::InvalidPowerupAmounts)
    } else {
        Ok((have.spec_plus(amounts), price_of(config, amounts) as u128))
    }
}

/// What using `amounts` leaves of a holding `have`, if it covers them.
pub open spec fn consume_outcome(have: Charges, amounts: Charges) -> Result<
    Charges,
    ContractError,
> {
    if !have.spec_covers(amounts) {
        Err(ContractError::InsufficientPowerups)
    } else {
        Ok(have.spec_minus(amounts))
    }
}

/// The holding of one account in one currency.
#[derive(Debug, PartialEq, Eq)]
struct LedgerEntry {
    user: String,
    denom: String,
    charges: Charges,
}

/// The contents of a list of ledger entries.
spec fn holdings(entries: Seq<LedgerEntry>) -> Seq<((Seq<char>, Seq<char>), Charges)> {
    entries.map_values(|entry: LedgerEntry| ((entry.user@, entry.denom@), entry.charges))
}

/// What a list of holdings records for `key`: nothing, if it has no entry.
spec fn holding_of(
    list: Seq<((Seq<char>, Seq<char>), Charges)>,
    key: (Seq<char>, Seq<char>),
) -> Charges {
    match lookup(list, key) {
        Some(charges) => charges,
        None => Charges::spec_none(),
    }
}

/// The charges that every account holds in every currency. Its view maps
/// each pair of an account and a denomination to a holding; a pair that never
/// bought anything holds nothing.
#[derive(Debug, PartialEq, Eq)]
pub struct PowerupLedger {
    entries: Vec<LedgerEntry>,
}

impl View for PowerupLedger {
    type V = Map<(Seq<char>, Seq<char>), Charges>;

    closed spec fn view(&self) -> Map<(Seq<char>, Seq<char>), Charges> {
        Map::total(|key: (Seq<char>, Seq<char>)| holding_of(holdings(self.entries@), key))
    }
}

impl PowerupLedger {
    /// No pair of account and denomination has two entries.
    pub closed spec fn wf(&self) -> bool {
        distinct_keys(holdings(self.entries@))
    }

    /// A ledger in which nobody holds anything.
    pub fn new() -> (ledger: PowerupLedger)
        ensures
            ledger.wf(),
            ledger@ == Map::total(|key: (Seq<char>, Seq<char>)| Charges::spec_none()),
    {
        let ledger = PowerupLedger { entries: Vec::new() };
        proof {
            assert(ledger@ =~= Map::total(|key: (Seq<char>, Seq<char>)| Charges::spec_none()));
        }
        ledger
    }

    /// The index of the entry of `user` in `denom`, if there is one.
    fn find(&self, user: &String, denom: &String) -> (found: Option<usize>)
        ensures
            match found {
                Some(index) => index < self.entries.len() && holdings(
                    self.entries@,
                )[index as int].0 == (user@, denom@),
                None => !has_key(holdings(self.entries@), (user@, denom@)),
            },
    {
        let mut i: usize = 0;
        while i < self.entries.len()
            invariant
                i <= self.entries.len(),
                forall|j: int| 0 <= j < i ==> holdings(self.entries@)[j].0 != (user@, denom@),
            decreases self.entries.len() - i,
        {
            if self.entries[i].user == *user && self.entries[i].denom == *denom {
                return Some(i);
            }
            i = i + 1;
        }
        None
    }

    /// What `user` holds in `denom`.
    pub fn balance(&self, user: &String, denom: &String) -> (charges: Charges)
        requires
            self.wf(),
        ensures
            charges == self@[(user@, denom@)],
    {
        match self.find(user, denom) {
            Some(index) => {
                proof {
                    lemma_lookup_at(holdings(self.entries@), index as int);
                }
                self.entries[index].charges
            },
            None => Charges::none(),
        }
    }

    /// Records that `user` holds `charges` in `denom`.
    pub fn set_balance(&mut self, user: &String, denom: &String, charges: Charges)
        requires
            old(self).wf(),
        ensures
            final(self).wf(),
            final(self)@ == old(self)@.insert((user@, denom@), charges),
    {
        let ghost before = holdings(self.entries@);
        let ghost key = (user@, denom@);
        match self.find(user, denom) {
            Some(index) => {
                let entry = LedgerEntry { user: user.clone(), denom: denom.clone(), charges };
                self.entries.set(index, entry);
                proof {
                    let after = holdings(self.entries@);
                    assert(after =~= before.update(index as int, (before[index as int].0, charges)));
                    assert forall|q: (Seq<char>, Seq<char>)|
                        holding_of(after, q) == if q == key {
                            charges
                        } else {
                            holding_of(before, q)
                        } by {
                        lemma_lookup_update(before, index as int, charges, q);
                    }
                    assert(self@ =~= old(self)@.insert(key, charges));
                }
            },
            None => {
                let entry = LedgerEntry { user: user.clone(), denom: denom.clone(), charges };
                self.entries.push(entry);
                proof {
                    let after = holdings(self.entries@);
                    assert(after =~= before.push((key, charges)));
                    assert forall|q: (Seq<char>, Seq<char>)|
                        holding_of(after, q) == if q == key {
                            charges
                        } else {
                            holding_of(before, q)
                        } by {
                        lemma_lookup_push(before, key, charges, q);
                    }
                    assert(self@ =~= old(self)@.insert(key, charges));
                }
            },
        }
    }

    /// Buys `amounts` for `user` at the prices of `config`, the configuration
    /// of `denom`, out of `funds`, and returns the price. The purchase is
    /// refused if the funds do not cover the price, or if the new holding
    /// would be more than the ledger can count.
    pub fn purchase(
        &mut self,
        user: &String,
        denom: &String,
        config: &NetworkConfig,
        amounts: Charges,
        funds: u128,
    ) -> (result: Result<u128, ContractError>)
        requires
            old(self).wf(),
        ensures
            final(self).wf(),
            match result {
                Ok(cost) => {
                    &&& purchase_outcome(old(self)@[(user@, denom@)], config@, amounts, funds)
                        matches Ok(outcome)
                    &&& outcome.1 == cost
                    &&& final(self)@ == old(self)@.insert((user@, denom@), outcome.0)
                },
                Err(e) => {
                    &&& purchase_outcome(old(self)@[(user@, denom@)], config@, amounts, funds)
                        == Err::<(Charges, u128), ContractError>(e)
                    &&& *final(self) == *old(self)
                },
            },
    {
        let have: Charges = self.balance(user, denom);
        let cost: u128 = match price(config, amounts) {
            Some(cost) => cost,
            None => {
                return Err(ContractError::InsufficientFunds);
            },
        };
        if funds < cost {
            return Err(ContractError::InsufficientFunds);
        }
        match have.checked_plus(amounts) {
            Some(holding) => {
                self.set_balance(user, denom, holding);
                Ok(cost)
            },
            None => Err(ContractError::InvalidPowerupAmounts),
        }
    }

    /// Uses up `amounts` of what `user` holds in `denom`. Refused if the
    /// holding does not cover them.
    pub fn consume(&mut self, user: &String, denom: &String, amounts: Charges) -> (result: Result<
        (),
        ContractError,
    >)
        requires
            old(self).wf(),
        ensures
            final(self).wf(),
            match result {
                Ok(_) => {
                    &&& consume_outcome(old(self)@[(user@, denom@)], amounts) matches Ok(rest)
                    &&& final(self)@ == old(self)@.insert((user@, denom@), rest)
                },
                Err(e) => {
                    &&& consume_outcome(old(self)@[(user@, denom@)], amounts) == Err::<
                        Charges,
                        ContractError,
                    >(e)
                    &&& *final(self) == *old(self)
                },
            },
    {
        let have: Charges = self.balance(user, denom);
        if !have.covers(amounts) {
            return Err(ContractError::InsufficientPowerups);
        }
        self.set_balance(user, denom, have.minus(amounts));
        Ok(())
    }
}

/// What a purchase came to.
#[derive(Clone, Copy, Debug, PartialEq, Eq, Structural)]
pub struct PurchaseReceipt {
    /// The price of the charges that were bought.
    pub charged: u128,
    /// What the buyer holds in the currency of the purchase afterwards.
    pub balance: Charges,
}

/// What happens when `user` buys one charge for each powerup of `bought`,
/// paying with `payment`: the state and the receipt that follow, or why the
/// purchase is refused.
pub open spec fn buy_outcome(
    pre: StateView,
    user: Seq<char>,
    bought: Seq<Powerup>,
    payment: Option<Payment>,
) -> Result<(StateView, PurchaseReceipt), ContractError> {
    if payment is None || lookup(pre.networks, payment->0.denom) is None {
        Err(ContractError::UnsupportedCurrency)
    } else {
        let denom = payment->0.denom;
        let config = lookup(pre.networks, denom)->0;
        match purchase_outcome(pre.charges[(user, denom)], config, tally(bought), payment->0.amount) {
            Err(e) => Err(e),
            Ok(bought) => Ok(
                (
                    StateView {
                        cells: pre.cells,
                        config: pre.config,
                        networks: pre.networks,
                        charges: pre.charges.insert((user, denom), bought.0),
                        last_opened: pre.last_opened,
                    },
                    PurchaseReceipt { charged: bought.1, balance: bought.0 },
                ),
            ),
        }
    }
}

/// Buys one charge for `sender` for each powerup of `powerups`. The first
/// coin of `funds` pays, at the prices of its currency. A refused purchase
/// changes nothing.
pub fn try_buying_powerups(
    state: &mut State,
    sender: &String,
    powerups: &Vec<Powerup>,
    funds: &Vec<Coin>,
) -> (result: Result<PurchaseReceipt, ContractError>)
    requires
        old(state).wf(),
    ensures
        final(state).wf(),
        match result {
            Ok(receipt) => {
                &&& buy_outcome(old(state)@, sender@, powerups@, payment_of(funds@)) matches Ok(
                    outcome,
                )
                &&& outcome.0 == final(state)@
                &&& outcome.1 == receipt
            },
            Err(e) => {
                &&& buy_outcome(old(state)@, sender@, powerups@, payment_of(funds@)) == Err::<
                    (StateView, PurchaseReceipt),
                    ContractError,
                >(e)
                &&& *final(state) == *old(state)
            },
        },
{
    if funds.len() == 0 {
        return Err(ContractError::UnsupportedCurrency);
    }
    let denom: &String = &funds[0].denom;
    let config: &NetworkConfig = match state.networks.get(denom) {
        Some(config) => config,
        None => {
            return Err(ContractError::UnsupportedCurrency);
        },
    };
    let amounts: Charges = count_powerups(powerups);
    match state.powerups.purchase(sender, denom, config, amounts, funds[0].amount) {
        Ok(charged) => {
            let balance: Charges = state.powerups.balance(sender, denom);
            proof {
                let outcome = buy_outcome(
                    old(state)@,
                    sender@,
                    powerups@,
                    payment_of(funds@),
                )->Ok_0;
                assert(outcome.0 =~= state@);
            }
            Ok(PurchaseReceipt { charged, balance })
        },
        Err(e) => Err(e),
    }
}

/// What one account holds in one currency.
#[derive(Clone, Debug, PartialEq, Eq)]
pub struct DenomCharges {
    pub denom: String,
    pub charges: Charges,
}

/// `list` names every configured currency of `state`, in the order in which
/// the currencies were registered, each with what `user` holds in it.
pub open spec fn lists_holdings(list: Seq<DenomCharges>, state: StateView, user: Seq<char>) -> bool {
    &&& list.len() == state.networks.len()
    &&& forall|i: int|
        0 <= i < list.len() ==> {
            &&& (#[trigger] list[i]).denom@ == state.networks[i].0
            &&& list[i].charges == state.charges[(user, state.networks[i].0)]
        }
}

/// What `user` holds in each configured currency, in the order in which the
/// currencies were registered.
pub fn get_user_powerups(state: &State, user: &String) -> (powerups: Vec<DenomCharges>)
    requires
        state.wf(),
    ensures
        lists_holdings(powerups@, state@, user@),
{
    let denoms: Vec<String> = state.networks.denoms();
    let mut powerups: Vec<DenomCharges> = Vec::new();
    let mut i: usize = 0;
    while i < denoms.len()
        invariant
            i <= denoms.len(),
            state.wf(),
            denoms@.len() == state@.networks.len(),
            forall|j: int| 0 <= j < denoms@.len() ==> (#[trigger] denoms@[j])@ == state@.networks[j].0,
            powerups@.len() == i,
            forall|j: int|
                0 <= j < i ==> {
                    &&& (#[trigger] powerups@[j]).denom@ == state@.networks[j].0
                    &&& powerups@[j].charges == state@.charges[(user@, state@.networks[j].0)]
                },
        decreases denoms.len() - i,
    {
        let charges: Charges = state.powerups.balance(user, &denoms[i]);
        powerups.push(DenomCharges { denom: denoms[i].clone(), charges });
        i = i + 1;
    }
    powerups
}

} // verus!
