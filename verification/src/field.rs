//! The field: a fixed number of cells, numbered from 1.

use vstd::prelude::*;
use vstd::arithmetic::div_mod::{lemma_add_mod_noop, lemma_small_mod};

use crate::assoc::lookup;
use crate::cooldowns::{is_on_cooldown, on_cooldown};
use crate::error::ContractError;
use crate::networks::{NetworkConfig, NetworkConfigView, Powerup};
use crate::powerups::{
    boost, boost_of, buy_outcome, count_powerups, price, price_of, tally, Charges,
};
use crate::random::{seed_of, stream_byte, Generator, STREAM_PERIOD};
use crate::state::{
    payment_of, CellState, Coin, Env, Payment, State, StateView, MAX_FIELD_SIZE,
};

verus! {

/// A field may hold from one cell up to `MAX_FIELD_SIZE` cells.
pub open spec fn valid_size(field_size: int) -> bool {
    1 <= field_size <= MAX_FIELD_SIZE
}

/// Whether a field of `field_size` cells can be created.
pub fn valid_field_size(field_size: u32) -> (valid: bool)
    ensures
        valid == valid_size(field_size as int),
{
    1 <= field_size && field_size <= MAX_FIELD_SIZE
}

/// Cell ids run from 1 to the number of cells.
pub open spec fn cell_exists(cells: Seq<CellState>, cell_id: u32) -> bool {
    1 <= cell_id <= cells.len()
}

/// The cells of a field created at time `now` from a generator that stands
/// `start` words into the stream of `seed`: cell `i + 1` holds the byte drawn
/// `i` words further on, and every cell may be opened at once.
pub open spec fn fresh_cells(seed: Seq<u8>, start: nat, field_size: nat, now: u64) -> Seq<
    CellState,
> {
    Seq::new(
        field_size,
        |i: int|
            CellState {
                random: stream_byte(seed, ((start + i) % (STREAM_PERIOD as int)) as nat),
                open_at: now,
            },
    )
}

/// The cells of a field, in the order of their ids.
#[derive(Clone, Debug, PartialEq, Eq)]
pub struct Field {
    cells: Vec<CellState>,
}

impl View for Field {
    type V = Seq<CellState>;

    closed spec fn view(&self) -> Seq<CellState> {
        self.cells@
    }
}

impl Field {
    /// The number of cells is one that a field may have.
    pub open spec fn wf(&self) -> bool {
        valid_size(self@.len() as int)
    }

    /// Creates `field_size` cells, each with the next byte of `generator` as
    /// its hidden value and `now` as the time from which it may be opened.
    pub fn init(field_size: u32, generator: &mut Generator, now: u64) -> (result: Result<
        Field,
        ContractError,
    >)
        requires
            old(generator).wf(),
        ensures
            final(generator).wf(),
            final(generator).seed() == old(generator).seed(),
            match result {
                Ok(field) => {
                    &&& valid_size(field_size as int)
                    &&& field.wf()
                    &&& field@ == fresh_cells(
                        old(generator).seed(),
                        old(generator).word_pos(),
                        field_size as nat,
                        now,
                    )
                    &&& final(generator).word_pos() == (old(generator).word_pos() + field_size)
                        % (STREAM_PERIOD as int)
                },
                Err(e) => {
                    &&& !valid_size(field_size as int)
                    &&& e == ContractError::InvalidFieldSize
                    &&& *final(generator) == *old(generator)
                },
            },
    {
        if !valid_field_size(field_size) {
            return Err(ContractError::InvalidFieldSize);
        }
        let ghost seed = generator.seed();
        let ghost start = generator.word_pos();
        let mut cells: Vec<CellState> = Vec::new();
        let mut i: u32 = 0;
        proof {
            lemma_small_mod(start, STREAM_PERIOD as nat);
        }
        while i < field_size
            invariant
                i <= field_size,
                generator.wf(),
                generator.seed() == seed,
                start < STREAM_PERIOD,
                generator.word_pos() == (start + i) % (STREAM_PERIOD as int),
                cells@ == fresh_cells(seed, start, i as nat, now),
            decreases field_size - i,
        {
            let random: u8 = generator.next_byte_in_range();
            cells.push(CellState { random, open_at: now });
            proof {
                lemma_add_mod_noop(start + i, 1, STREAM_PERIOD as int);
                lemma_small_mod(1, STREAM_PERIOD as nat);
                assert(cells@ =~= fresh_cells(seed, start, (i + 1) as nat, now));
            }
            i = i + 1;
        }
        Ok(Field { cells })
    }

    /// Takes cells that were stored elsewhere back into a field.
    pub fn from_cells(cells: Vec<CellState>) -> (result: Result<Field, ContractError>)
        ensures
            match result {
                Ok(field) => valid_size(cells@.len() as int) && field.wf() && field@ == cells@,
                Err(e) => !valid_size(cells@.len() as int) && e == ContractError::InvalidFieldSize,
            },
    {
        if cells.len() < 1 || cells.len() > MAX_FIELD_SIZE as usize {
            return Err(ContractError::InvalidFieldSize);
        }
        Ok(Field { cells })
    }

    /// The number of cells.
    pub fn size(&self) -> (size: u32)
        requires
            self.wf(),
        ensures
            size == self@.len(),
    {
        self.cells.len() as u32
    }

    /// Every cell, in the order of the ids.
    pub fn get_all(&self) -> (cells: Vec<CellState>)
        ensures
            cells@ == self@,
    {
        let mut cells: Vec<CellState> = Vec::new();
        let mut i: usize = 0;
        while i < self.cells.len()
            invariant
                i <= self.cells.len(),
                cells@ == self.cells@.take(i as int),
            decreases self.cells.len() - i,
        {
            cells.push(self.cells[i]);
            proof {
                assert(cells@ =~= self.cells@.take(i + 1));
            }
            i = i + 1;
        }
        proof {
            assert(self.cells@.take(i as int) =~= self.cells@);
        }
        cells
    }

    /// The cell with the id `cell_id`.
    pub fn get(&self, cell_id: u32) -> (result: Result<CellState, ContractError>)
        ensures
            match result {
                Ok(cell) => cell_exists(self@, cell_id) && cell == self@[cell_id - 1],
                Err(e) => !cell_exists(self@, cell_id) && e == ContractError::CellNotFound,
            },
    {
        if cell_id < 1 || cell_id as usize > self.cells.len() {
            return Err(ContractError::CellNotFound);
        }
        Ok(self.cells[(cell_id - 1) as usize])
    }

    /// Sets the time from which the cell `cell_id` may next be opened.
    pub fn update_open_at(&mut self, cell_id: u32, new_time: u64) -> (result: Result<
        (),
        ContractError,
    >)
        ensures
            match result {
                Ok(_) => {
                    &&& cell_exists(old(self)@, cell_id)
                    &&& final(self)@ == old(self)@.update(
                        cell_id - 1,
                        CellState { random: old(self)@[cell_id - 1].random, open_at: new_time },
                    )
                },
                Err(e) => {
                    &&& !cell_exists(old(self)@, cell_id)
                    &&& e == ContractError::CellNotFound
                    &&& *final(self) == *old(self)
                },
            },
    {
        if cell_id < 1 || cell_id as usize > self.cells.len() {
            return Err(ContractError::CellNotFound);
        }
        let index: usize = (cell_id - 1) as usize;
        let random: u8 = self.cells[index].random;
        self.cells.set(index, CellState { random, open_at: new_time });
        Ok(())
    }
}

/// What an open attempt came to.
#[derive(Clone, Copy, Debug, PartialEq, Eq, Structural)]
pub struct OpenReceipt {
    /// The cell that was opened.
    pub cell_id: u32,
    /// Whether the attempt won: the draw was below the threshold.
    pub won: bool,
    /// The hidden value of the cell plus the byte drawn for this attempt.
    pub draw: u16,
    /// The win threshold, raised by the powerups that were used.
    pub threshold: u16,
    /// What the attempt cost: the opening itself and the charges bought for it.
    pub charged: u128,
    /// The time from which the cell may be opened again.
    pub open_at: u64,
}

/// The win threshold once powerups have raised it by `boost`; it stops at
/// the largest threshold there is.
pub open spec fn effective_threshold(base: u16, boost: int) -> u16 {
    if base + boost > u16::MAX {
        u16::MAX
    } else {
        (base + boost) as u16
    }
}

/// The time from which a cell opened at `now` may be opened again; it stops
/// at the latest time there is.
pub open spec fn next_open_at(now: u64, cooldown: u64) -> u64 {
    if now + cooldown > u64::MAX {
        u64::MAX
    } else {
        (now + cooldown) as u64
    }
}

/// What an open attempt costs in the currency of `config`: the opening
/// itself, and every charge that is used but not held.
pub open spec fn attempt_cost(config: NetworkConfigView, have: Charges, need: Charges) -> int {
    config.open_cost + price_of(config, need.spec_minus(have))
}

/// What happens when `user` asks at time `now` to open the cell `cell_id`
/// with the powerups `chosen`, paying with `payment`, and `fresh` is the byte
/// drawn for this attempt: the state and the receipt that follow, or why the
/// attempt is refused. The checks come in this order: the cell, its cooldown,
/// the cooldown of the account, the currency, the charges held, the funds.
/// The draw is the hidden value of the cell plus the fresh byte, and the
/// attempt wins when the draw is below the threshold that the chosen
/// powerups have raised. Won or lost, the cell closes for the cell cooldown,
/// the attempt is recorded for the account, and the chosen charges are gone.
pub open spec fn open_outcome(
    pre: StateView,
    now: u64,
    user: Seq<char>,
    cell_id: u32,
    chosen: Seq<Powerup>,
    autopay: bool,
    payment: Option<Payment>,
    fresh: u8,
) -> Result<(StateView, OpenReceipt), ContractError> {
    if !cell_exists(pre.cells, cell_id) {
        Err(ContractError::CellNotFound)
    } else if now < pre.cells[cell_id - 1].open_at {
        Err(ContractError::CellOnCooldown)
    } else if on_cooldown(pre.last_opened_by(user), now, pre.config.user_cooldown) {
        Err(ContractError::UserOnCooldown)
    } else if payment is None || lookup(pre.networks, payment->0.denom) is None {
        Err(ContractError::UnsupportedCurrency)
    } else {
        let denom = payment->0.denom;
        let amount = payment->0.amount;
        let config = lookup(pre.networks, denom)->0;
        let need = tally(chosen);
        let have = pre.charges[(user, denom)];
        if !autopay && !have.spec_covers(need) {
            Err(ContractError::InsufficientPowerups)
        } else if amount < attempt_cost(config, have, need) {
            Err(ContractError::InsufficientFunds)
        } else {
            let cell = pre.cells[cell_id - 1];
            let threshold = effective_threshold(pre.config.win_threshold, boost_of(config, need));
            let draw = (cell.random + fresh) as u16;
            let open_at = next_open_at(now, pre.config.cell_cooldown);
            Ok(
                (
                    StateView {
                        cells: pre.cells.update(
                            cell_id - 1,
                            CellState { random: cell.random, open_at },
                        ),
                        config: pre.config,
                        networks: pre.networks,
                        charges: pre.charges.insert((user, denom), have.spec_minus(need)),
                        last_opened: pre.last_opened.insert(user, now),
                    },
                    OpenReceipt {
                        cell_id,
                        won: draw < threshold,
                        draw,
                        threshold,
                        charged: attempt_cost(config, have, need) as u128,
                        open_at,
                    },
                ),
            )
        }
    }
}

/// Opens the cell `cell_id` for `sender` at time `now`, with `fresh` as the
/// byte drawn for this attempt. The first coin of `funds` pays. With
/// `power_up_autopay`, charges that `sender` does not hold are bought on the
/// spot; every charge of `powerups` is used up. A refused attempt changes
/// nothing.
pub fn open_cell(
    state: &mut State,
    now: u64,
    sender: &String,
    cell_id: u32,
    powerups: &Vec<Powerup>,
    power_up_autopay: bool,
    funds: &Vec<Coin>,
    fresh: u8,
) -> (result: Result<OpenReceipt, ContractError>)
    requires
        old(state).wf(),
    ensures
        final(state).wf(),
        match result {
            Ok(receipt) => {
                &&& open_outcome(
                    old(state)@,
                    now,
                    sender@,
                    cell_id,
                    powerups@,
                    power_up_autopay,
                    payment_of(funds@),
                    fresh,
                ) matches Ok(outcome)
                &&& outcome.0 == final(state)@
                &&& outcome.1 == receipt
            },
            Err(e) => {
                &&& open_outcome(
                    old(state)@,
                    now,
                    sender@,
                    cell_id,
                    powerups@,
                    power_up_autopay,
                    payment_of(funds@),
                    fresh,
                ) == Err::<(StateView, OpenReceipt), ContractError>(e)
                &&& *final(state) == *old(state)
            },
        },
{
    let cell: CellState = match state.field.get(cell_id) {
        Ok(cell) => cell,
        Err(e) => {
            return Err(e);
        },
    };
    if now < cell.open_at {
        return Err(ContractError::CellOnCooldown);
    }
    let last: Option<u64> = state.cooldowns.last_opened(sender);
    if is_on_cooldown(last, now, state.config.user_cooldown) {
        return Err(ContractError::UserOnCooldown);
    }
    if funds.len() == 0 {
        return Err(ContractError::UnsupportedCurrency);
    }
    let denom: &String = &funds[0].denom;
    let amount: u128 = funds[0].amount;
    let config: &NetworkConfig = match state.networks.get(denom) {
        Some(config) => config,
        None => {
            return Err(ContractError::UnsupportedCurrency);
        },
    };
    let need: Charges = count_powerups(powerups);
    let have: Charges = state.powerups.balance(sender, denom);
    if !power_up_autopay && !have.covers(need) {
        return Err(ContractError::InsufficientPowerups);
    }
    let short: Charges = need.minus(have);
    let charged: u128 = match price(config, short) {
        Some(bought) => match config.open_cost.checked_add(bought) {
            Some(charged) => charged,
            None => {
                return Err(ContractError::InsufficientFunds);
            },
        },
        None => {
            return Err(ContractError::InsufficientFunds);
        },
    };
    if amount < charged {
        return Err(ContractError::InsufficientFunds);
    }
    let raise: u128 = boost(config, need);
    let base: u16 = state.config.win_threshold;
    let threshold: u16 = if raise > (u16::MAX - base) as u128 {
        u16::MAX
    } else {
        base + raise as u16
    };
    let draw: u16 = cell.random as u16 + fresh as u16;
    let open_at: u64 = now.saturating_add(state.config.cell_cooldown);
    // Everything has been checked: from here on no step is refused.
    match state.powerups.purchase(sender, denom, config, short, amount - config.open_cost) {
        Ok(_) => {},
        Err(e) => {
            return Err(e);
        },
    }
    match state.powerups.consume(sender, denom, need) {
        Ok(_) => {},
        Err(e) => {
            return Err(e);
        },
    }
    match state.field.update_open_at(cell_id, open_at) {
        Ok(_) => {},
        Err(e) => {
            return Err(e);
        },
    }
    state.cooldowns.record(sender, now);
    proof {
        let outcome = open_outcome(
            old(state)@,
            now,
            sender@,
            cell_id,
            powerups@,
            power_up_autopay,
            payment_of(funds@),
            fresh,
        )->Ok_0;
        assert(have.spec_plus(short).spec_minus(need) == have.spec_minus(need));
        assert(state@.charges =~= outcome.0.charges);
        assert(outcome.0 =~= state@);
    }
    Ok(OpenReceipt { cell_id, won: draw < threshold, draw, threshold, charged, open_at })
}

/// Opens the cell `cell_id` for `sender` in the block of `env`. The byte for
/// the attempt is the first that the block and the sender give.
pub fn try_opening_cell(
    state: &mut State,
    env: &Env,
    sender: &String,
    cell_id: u32,
    powerups: &Vec<Powerup>,
    power_up_autopay: bool,
    funds: &Vec<Coin>,
) -> (result: Result<OpenReceipt, ContractError>)
    requires
        old(state).wf(),
    ensures
        final(state).wf(),
        match result {
            Ok(receipt) => {
                &&& open_outcome(
                    old(state)@,
                    env.block.time,
                    sender@,
                    cell_id,
                    powerups@,
                    power_up_autopay,
                    payment_of(funds@),
                    stream_byte(seed_of(env.block, sender@), 0),
                ) matches Ok(outcome)
                &&& outcome.0 == final(state)@
                &&& outcome.1 == receipt
            },
            Err(e) => {
                &&& open_outcome(
                    old(state)@,
                    env.block.time,
                    sender@,
                    cell_id,
                    powerups@,
                    power_up_autopay,
                    payment_of(funds@),
                    stream_byte(seed_of(env.block, sender@), 0),
                ) == Err::<(StateView, OpenReceipt), ContractError>(e)
                &&& *final(state) == *old(state)
            },
        },
{
    let mut generator: Generator = Generator::from_entropy(&env.block, sender);
    let fresh: u8 = generator.next_byte_in_range();
    open_cell(state, env.block.time, sender, cell_id, powerups, power_up_autopay, funds, fresh)
}

/// Every cell of the field, in the order of the ids.
pub fn get_field_cells(state: &State) -> (cells: Vec<CellState>)
    ensures
        cells@ == state@.cells,
{
    state.field.get_all()
}

/// A cell that is still closed cannot be opened: whoever asks, with whatever
/// powerups and funds, is refused because the cell is on cooldown.
pub proof fn lemma_closed_cell_is_refused(
    pre: StateView,
    now: u64,
    user: Seq<char>,
    cell_id: u32,
    chosen: Seq<Powerup>,
    autopay: bool,
    payment: Option<Payment>,
    fresh: u8,
)
    requires
        cell_exists(pre.cells, cell_id),
        now < pre.cells[cell_id - 1].open_at,
    ensures
        open_outcome(pre, now, user, cell_id, chosen, autopay, payment, fresh) == Err::<
            (StateView, OpenReceipt),
            ContractError,
        >(ContractError::CellOnCooldown),
{
}

/// Every open attempt that is accepted closes the cell for the cell cooldown
/// and records the attempt for the account, whether it wins or not; the
/// hidden values and the other cells stay as they are.
pub proof fn lemma_open_sets_cooldowns(
    pre: StateView,
    now: u64,
    user: Seq<char>,
    cell_id: u32,
    chosen: Seq<Powerup>,
    autopay: bool,
    payment: Option<Payment>,
    fresh: u8,
)
    requires
        open_outcome(pre, now, user, cell_id, chosen, autopay, payment, fresh) is Ok,
    ensures
        ({
            let outcome = open_outcome(
                pre,
                now,
                user,
                cell_id,
                chosen,
                autopay,
                payment,
                fresh,
            )->Ok_0;
            &&& cell_exists(pre.cells, cell_id)
            &&& outcome.0.cells.len() == pre.cells.len()
            &&& outcome.0.cells[cell_id - 1].open_at == next_open_at(now, pre.config.cell_cooldown)
            &&& outcome.1.open_at == next_open_at(now, pre.config.cell_cooldown)
            &&& outcome.0.last_opened_by(user) == Some(now)
            &&& forall|i: int|
                0 <= i < pre.cells.len() ==> (#[trigger] outcome.0.cells[i]).random
                    == pre.cells[i].random
            &&& forall|i: int|
                0 <= i < pre.cells.len() && i != cell_id - 1 ==> #[trigger] outcome.0.cells[i]
                    == pre.cells[i]
        }),
{
}

/// An account that has just opened a cell cannot open it again before the
/// account cooldown has passed: once the cell itself may be opened again,
/// the attempt is refused because the account is on cooldown, and until then
/// because the cell is.
pub proof fn lemma_reopening_waits(
    pre: StateView,
    first: u64,
    user: Seq<char>,
    cell_id: u32,
    chosen: Seq<Powerup>,
    autopay: bool,
    payment: Option<Payment>,
    fresh: u8,
    second: u64,
    chosen_again: Seq<Powerup>,
    autopay_again: bool,
    payment_again: Option<Payment>,
    fresh_again: u8,
)
    requires
        open_outcome(pre, first, user, cell_id, chosen, autopay, payment, fresh) is Ok,
        second < first + pre.config.user_cooldown,
    ensures
        ({
            let after = open_outcome(
                pre,
                first,
                user,
                cell_id,
                chosen,
                autopay,
                payment,
                fresh,
            )->Ok_0.0;
            let again = open_outcome(
                after,
                second,
                user,
                cell_id,
                chosen_again,
                autopay_again,
                payment_again,
                fresh_again,
            );
            let open_at = next_open_at(first, pre.config.cell_cooldown);
            &&& second >= open_at ==> again == Err::<(StateView, OpenReceipt), ContractError>(
                ContractError::UserOnCooldown,
            )
            &&& second < open_at ==> again == Err::<(StateView, OpenReceipt), ContractError>(
                ContractError::CellOnCooldown,
            )
        }),
{
}

/// After a purchase the buyer holds what was held before and what was
/// bought. An open attempt without autopay that follows is accepted only if
/// the buyer then holds every charge it would use; where the holding falls
/// short and nothing earlier stands in the way, the attempt is refused for
/// want of powerups.
pub proof fn lemma_open_after_purchase(
    pre: StateView,
    user: Seq<char>,
    bought: Seq<Powerup>,
    paid: Payment,
    now: u64,
    cell_id: u32,
    chosen: Seq<Powerup>,
    payment: Payment,
    fresh: u8,
)
    requires
        buy_outcome(pre, user, bought, Some(paid)) is Ok,
    ensures
        ({
            let after = buy_outcome(pre, user, bought, Some(paid))->Ok_0.0;
            let held = after.charges[(user, payment.denom)];
            let attempt = open_outcome(
                after,
                now,
                user,
                cell_id,
                chosen,
                false,
                Some(payment),
                fresh,
            );
            &&& after.charges[(user, paid.denom)] == pre.charges[(user, paid.denom)].spec_plus(
                tally(bought),
            )
            &&& attempt is Ok ==> held.spec_covers(tally(chosen))
            &&& !held.spec_covers(tally(chosen)) && cell_exists(after.cells, cell_id) && now
                >= after.cells[cell_id - 1].open_at && !on_cooldown(
                after.last_opened_by(user),
                now,
                after.config.user_cooldown,
            ) && lookup(after.networks, payment.denom) is Some ==> attempt == Err::<
                (StateView, OpenReceipt),
                ContractError,
            >(ContractError::InsufficientPowerups)
        }),
{
}

} // verus!
