//! The entry points of the game: creating it, changing it, reading it.

use vstd::prelude::*;
use vstd::arithmetic::div_mod::lemma_small_mod;

use crate::assoc::lookup;
use crate::cooldowns::UserCooldowns;
use crate::error::ContractError;
use crate::field::{
    fresh_cells, get_field_cells, open_outcome, try_opening_cell, valid_field_size, valid_size,
    Field,
};
use crate::msg::{
    Delegation, ExecuteMsg, FieldResponse, IBCLifecycleComplete, InstantiateMsg, MainPageResponse,
    QueryMsg, QueryResponse, Response, SudoMsg,
};
use crate::networks::{
    chain_ids, config_error, first_config_error, lemma_first_config_error_at, listing,
    listing_error, valid_power_ups, NetworkConfig, NetworkConfigView, NetworkEntry,
};
use crate::powerups::{
    buy_outcome, get_user_powerups, lists_holdings, try_buying_powerups, Charges, DenomCharges,
    PowerupLedger,
};
use crate::random::{seed_of, stream_byte, Generator, STREAM_PERIOD};
use crate::state::{
    payment_of, BlockInfo, Config, Env, MessageInfo, Permit, State, StateView,
    DEFAULT_FIELD_SIZE, DEFAULT_WIN_THRESHOLD, ONE_DAY,
};
use crate::utils::{address_from_permit, is_bridged, permit_account};

verus! {

/// Why a game cannot be created from `msg`, if it cannot: the field size is
/// checked first, then the currencies.
pub open spec fn instantiate_error(msg: InstantiateMsg) -> Option<ContractError> {
    if !valid_size(msg.field_size_or_default() as int) {
        Some(ContractError::InvalidFieldSize)
    } else {
        listing_error(msg.network_configs@)
    }
}

/// The game that `sender` creates from `msg` in `block`: the cells hold the
/// first bytes that the block and the sender give and may be opened at once,
/// nobody holds a powerup, and nobody has opened a cell.
pub open spec fn initial_state(block: BlockInfo, sender: Seq<char>, msg: InstantiateMsg) -> StateView {
    StateView {
        cells: fresh_cells(
            seed_of(block, sender),
            0,
            msg.field_size_or_default() as nat,
            block.time,
        ),
        config: Config {
            win_threshold: msg.win_threshold_or_default(),
            cell_cooldown: msg.cell_cooldown_or_default(),
            user_cooldown: msg.user_cooldown_or_default(),
        },
        networks: msg.network_configs@,
        charges: Map::total(|key: (Seq<char>, Seq<char>)| Charges::spec_none()),
        last_opened: Map::empty(),
    }
}

/// Creates the game. Nothing is created unless the field size and every
/// currency are valid.
pub fn instantiate(env: Env, info: MessageInfo, msg: InstantiateMsg) -> (result: Result<
    State,
    ContractError,
>)
    requires
        msg.network_configs.wf(),
    ensures
        match result {
            Ok(state) => {
                &&& instantiate_error(msg) is None
                &&& state.wf()
                &&& state@ == initial_state(env.block, info.sender@, msg)
                &&& state@.cells.len() == msg.field_size_or_default()
                &&& forall|i: int|
                    0 <= i < state@.cells.len() ==> {
                        &&& (#[trigger] state@.cells[i]).random == stream_byte(
                            seed_of(env.block, info.sender@),
                            i as nat,
                        )
                        &&& state@.cells[i].random < 255
                        &&& state@.cells[i].open_at == env.block.time
                    }
            },
            Err(e) => instantiate_error(msg) == Some(e),
        },
{
    let field_size: u32 = match msg.field_size {
        Some(field_size) => field_size,
        None => DEFAULT_FIELD_SIZE,
    };
    if !valid_field_size(field_size) {
        return Err(ContractError::InvalidFieldSize);
    }
    match msg.network_configs.validate() {
        Ok(_) => {},
        Err(e) => {
            return Err(e);
        },
    }
    let cell_cooldown: u64 = match msg.cell_cooldown {
        Some(cooldown) => cooldown,
        None => 2 * ONE_DAY,
    };
    let user_cooldown: u64 = match msg.user_cooldown {
        Some(cooldown) => cooldown,
        None => ONE_DAY,
    };
    let win_threshold: u16 = match msg.win_threshold {
        Some(threshold) => threshold,
        None => DEFAULT_WIN_THRESHOLD,
    };
    let mut generator: Generator = Generator::from_entropy(&env.block, &info.sender);
    let field: Field = match Field::init(field_size, &mut generator, env.block.time) {
        Ok(field) => field,
        Err(e) => {
            return Err(e);
        },
    };
    let state = State {
        field,
        config: Config { win_threshold, cell_cooldown, user_cooldown },
        networks: msg.network_configs,
        powerups: PowerupLedger::new(),
        cooldowns: UserCooldowns::new(),
    };
    proof {
        assert(state@ =~= initial_state(env.block, info.sender@, msg));
        assert forall|i: int| 0 <= i < state@.cells.len() implies (#[trigger] state@.cells[i]).random
            == stream_byte(seed_of(env.block, info.sender@), i as nat) by {
            lemma_small_mod(i as nat, STREAM_PERIOD as nat);
        }
    }
    Ok(state)
}

/// A game created twice from the same block time, block height, sender and
/// field size has the same cells.
pub proof fn lemma_same_entropy_same_cells(
    first: BlockInfo,
    second: BlockInfo,
    sender: Seq<char>,
    first_msg: InstantiateMsg,
    second_msg: InstantiateMsg,
)
    requires
        first.time == second.time,
        first.height == second.height,
        first_msg.field_size_or_default() == second_msg.field_size_or_default(),
    ensures
        initial_state(first, sender, first_msg).cells == initial_state(
            second,
            sender,
            second_msg,
        ).cells,
{
}

/// Where the field size is valid and every currency is right by itself, two
/// currencies with the same chain id keep the game from being created.
pub proof fn lemma_shared_chain_id_is_refused(msg: InstantiateMsg, i: int, j: int)
    requires
        valid_size(msg.field_size_or_default() as int),
        first_config_error(msg.network_configs@) is None,
        0 <= i < j < msg.network_configs@.len(),
        msg.network_configs@[i].1.chain_id == msg.network_configs@[j].1.chain_id,
    ensures
        instantiate_error(msg) == Some(ContractError::DuplicateChainIds),
{
    let ids = chain_ids(msg.network_configs@);
    assert(ids[i] == ids[j]);
}

/// Where the field size is valid and every earlier currency is right by
/// itself, a bridged currency with valid powerups and no channel keeps the
/// game from being created.
pub proof fn lemma_bridged_without_channel_is_refused(msg: InstantiateMsg, i: int)
    requires
        valid_size(msg.field_size_or_default() as int),
        0 <= i < msg.network_configs@.len(),
        forall|j: int|
            0 <= j < i ==> config_error(
                msg.network_configs@[j].0,
                msg.network_configs@[j].1,
            ) is None,
        valid_power_ups(msg.network_configs@[i].1.power_ups),
        is_bridged(msg.network_configs@[i].0),
        msg.network_configs@[i].1.channel_id is None,
    ensures
        instantiate_error(msg) == Some(ContractError::MissingChannelId),
{
    lemma_first_config_error_at(msg.network_configs@, i);
}

/// What the services around the game are asked to do about news of a transfer.
pub open spec fn lifecycle_delegation(news: IBCLifecycleComplete) -> Delegation {
    match news {
        IBCLifecycleComplete::IBCAck { channel, sequence, ack, success } => Delegation::IbcAck {
            channel,
            sequence,
            ack,
            success,
        },
        IBCLifecycleComplete::IBCTimeout { channel, sequence } => Delegation::IbcTimeout {
            channel,
            sequence,
        },
    }
}

/// Hands news of a transfer on to the services around the game.
pub fn ibc_lifecycle_complete(news: IBCLifecycleComplete) -> (delegation: Delegation)
    ensures
        delegation == lifecycle_delegation(news),
{
    match news {
        IBCLifecycleComplete::IBCAck { channel, sequence, ack, success } => Delegation::IbcAck {
            channel,
            sequence,
            ack,
            success,
        },
        IBCLifecycleComplete::IBCTimeout { channel, sequence } => Delegation::IbcTimeout {
            channel,
            sequence,
        },
    }
}

/// What a request that may change the game does to the state `pre`: the
/// state and the answer that follow, or why the request is refused. Opening
/// and buying need an accepted permit and act for the account it names;
/// everything else is handed on and leaves the state as it is.
pub open spec fn execute_outcome(pre: StateView, env: Env, info: MessageInfo, msg: ExecuteMsg) -> Result<
    (StateView, Response),
    ContractError,
> {
    match msg {
        ExecuteMsg::OpenCell { permit, cell_id, powerups, power_up_autopay } => match permit_account(
            permit,
        ) {
            Err(e) => Err(e),
            Ok(account) => match open_outcome(
                pre,
                env.block.time,
                account,
                cell_id,
                powerups@,
                power_up_autopay,
                payment_of(info.funds@),
                stream_byte(seed_of(env.block, account), 0),
            ) {
                Err(e) => Err(e),
                Ok(outcome) => Ok((outcome.0, Response::CellOpened(outcome.1))),
            },
        },
        ExecuteMsg::BuyPowerups { permit, powerups } => match permit_account(permit) {
            Err(e) => Err(e),
            Ok(account) => match buy_outcome(pre, account, powerups@, payment_of(info.funds@)) {
                Err(e) => Err(e),
                Ok(outcome) => Ok((outcome.0, Response::PowerupsBought(outcome.1))),
            },
        },
        ExecuteMsg::SetAppStatus { status } => Ok(
            (pre, Response::Delegated(Delegation::SetAppStatus { sender: info.sender, status })),
        ),
        ExecuteMsg::ForwardsFunds { to_address, amount } => Ok(
            (
                pre,
                Response::Delegated(
                    Delegation::ForwardFunds { sender: info.sender, to_address, amount },
                ),
            ),
        ),
        ExecuteMsg::IBCLifecycleComplete(news) => Ok(
            (pre, Response::Delegated(lifecycle_delegation(news))),
        ),
    }
}

/// No request changes how the game was set up: the tunables, the currencies,
/// the number of cells and the hidden value of every cell stay as they were
/// when the game was created.
pub proof fn lemma_execute_keeps_the_setup(
    pre: StateView,
    env: Env,
    info: MessageInfo,
    msg: ExecuteMsg,
)
    requires
        execute_outcome(pre, env, info, msg) is Ok,
    ensures
        ({
            let post = execute_outcome(pre, env, info, msg)->Ok_0.0;
            &&& post.config == pre.config
            &&& post.networks == pre.networks
            &&& post.cells.len() == pre.cells.len()
            &&& forall|i: int|
                0 <= i < pre.cells.len() ==> (#[trigger] post.cells[i]).random
                    == pre.cells[i].random
        }),
{
}

/// Answers a request that may change the game. A refused request changes
/// nothing.
pub fn execute(state: &mut State, env: Env, info: MessageInfo, msg: ExecuteMsg) -> (result: Result<
    Response,
    ContractError,
>)
    requires
        old(state).wf(),
    ensures
        final(state).wf(),
        final(state)@.networks == old(state)@.networks,
        final(state)@.config == old(state)@.config,
        match result {
            Ok(response) => {
                &&& execute_outcome(old(state)@, env, info, msg) matches Ok(outcome)
                &&& outcome.0 == final(state)@
                &&& outcome.1 == response
            },
            Err(e) => {
                &&& execute_outcome(old(state)@, env, info, msg) == Err::<
                    (StateView, Response),
                    ContractError,
                >(e)
                &&& *final(state) == *old(state)
            },
        },
{
    match msg {
        ExecuteMsg::OpenCell { permit, cell_id, powerups, power_up_autopay } => {
            let sender: String = match address_from_permit(&permit) {
                Ok(sender) => sender,
                Err(e) => {
                    return Err(e);
                },
            };
            match try_opening_cell(
                state,
                &env,
                &sender,
                cell_id,
                &powerups,
                power_up_autopay,
                &info.funds,
            ) {
                Ok(receipt) => Ok(Response::CellOpened(receipt)),
                Err(e) => Err(e),
            }
        },
        ExecuteMsg::BuyPowerups { permit, powerups } => {
            let sender: String = match address_from_permit(&permit) {
                Ok(sender) => sender,
                Err(e) => {
                    return Err(e);
                },
            };
            match try_buying_powerups(state, &sender, &powerups, &info.funds) {
                Ok(receipt) => Ok(Response::PowerupsBought(receipt)),
                Err(e) => Err(e),
            }
        },
        ExecuteMsg::SetAppStatus { status } => Ok(
            Response::Delegated(Delegation::SetAppStatus { sender: info.sender, status }),
        ),
        ExecuteMsg::ForwardsFunds { to_address, amount } => Ok(
            Response::Delegated(
                Delegation::ForwardFunds { sender: info.sender, to_address, amount },
            ),
        ),
        ExecuteMsg::IBCLifecycleComplete(news) => Ok(
            Response::Delegated(ibc_lifecycle_complete(news)),
        ),
    }
}

/// Answers a request of the chain itself: news of a transfer is handed on,
/// and the game stays as it is.
pub fn sudo(state: &mut State, _env: Env, msg: SudoMsg) -> (result: Result<
    Response,
    ContractError,
>)
    ensures
        *final(state) == *old(state),
        match msg {
            SudoMsg::IBCLifecycleComplete(news) => result == Ok::<Response, ContractError>(
                Response::Delegated(lifecycle_delegation(news)),
            ),
        },
{
    match msg {
        SudoMsg::IBCLifecycleComplete(news) => Ok(
            Response::Delegated(ibc_lifecycle_complete(news)),
        ),
    }
}

/// The configuration registered under `denom`, if any.
pub open spec fn network_config_of(state: StateView, denom: Seq<char>) -> Option<
    NetworkConfigView,
> {
    lookup(state.networks, denom)
}

/// The configuration of the currency `denom`, if it is configured.
pub fn get_network_config(state: &State, denom: &String) -> (found: Option<NetworkConfig>)
    requires
        state.wf(),
    ensures
        match found {
            Some(config) => network_config_of(state@, denom@) == Some(config@),
            None => network_config_of(state@, denom@) is None,
        },
{
    match state.networks.get(denom) {
        Some(config) => Some(config.clone()),
        None => None,
    }
}

/// Every configured currency, in the order of registration.
pub fn get_all_network_configs(state: &State) -> (entries: Vec<NetworkEntry>)
    ensures
        listing(entries@) == state@.networks,
{
    state.networks.get_all()
}

/// `page` shows the cells and the currencies of `state` and, where an
/// account is given, what that account holds.
pub open spec fn shows_main_page(page: MainPageResponse, state: StateView, account: Option<
    Seq<char>,
>) -> bool {
    &&& page.cells@ == state.cells
    &&& listing(page.network_configs@) == state.networks
    &&& match account {
        Some(account) => page.powerups matches Some(list) && lists_holdings(
            list@,
            state,
            account,
        ),
        None => page.powerups is None,
    }
}

/// Cells, currencies and, with a permit, the holdings of its account in one
/// answer. A permit that was denied gets no answer.
pub fn get_main(state: &State, _env: Env, permit: Option<Permit>) -> (result: Result<
    MainPageResponse,
    ContractError,
>)
    requires
        state.wf(),
    ensures
        match permit {
            None => result matches Ok(page) && shows_main_page(page, state@, None),
            Some(permit) => match permit_account(permit) {
                Ok(account) => result matches Ok(page) && shows_main_page(
                    page,
                    state@,
                    Some(account),
                ),
                Err(e) => result matches Err(refused) && refused == e,
            },
        },
{
    let cells = get_field_cells(state);
    let powerups: Option<Vec<DenomCharges>> = match permit {
        Some(permit) => match address_from_permit(&permit) {
            Ok(account) => Some(get_user_powerups(state, &account)),
            Err(e) => {
                return Err(e);
            },
        },
        None => None,
    };
    let network_configs = get_all_network_configs(state);
    Ok(MainPageResponse { cells, powerups, network_configs })
}

/// `response` answers `msg` from `state`.
pub open spec fn answers(response: QueryResponse, state: StateView, msg: QueryMsg) -> bool {
    match msg {
        QueryMsg::GetField => response matches QueryResponse::Field(field) && field.cells@
            == state.cells,
        QueryMsg::GetMyPowerups { permit } => response matches QueryResponse::MyPowerups(list)
            && permit_account(permit) matches Ok(account) && lists_holdings(
            list@,
            state,
            account,
        ),
        QueryMsg::NetworkConfig { denom } => response matches QueryResponse::NetworkConfig(found)
            && match found {
            Some(config) => network_config_of(state, denom@) == Some(config@),
            None => network_config_of(state, denom@) is None,
        },
        QueryMsg::AllNetworkConfigs => response matches QueryResponse::AllNetworkConfigs(list)
            && listing(list@) == state.networks,
        QueryMsg::Main { permit } => response matches QueryResponse::Main(page) && match permit {
            None => shows_main_page(page, state, None),
            Some(permit) => permit_account(permit) matches Ok(account) && shows_main_page(
                page,
                state,
                Some(account),
            ),
        },
    }
}

/// The permit that `msg` carries, if it carries one.
pub open spec fn permit_of(msg: QueryMsg) -> Option<Permit> {
    match msg {
        QueryMsg::GetMyPowerups { permit } => Some(permit),
        QueryMsg::Main { permit } => permit,
        _ => None,
    }
}

/// Answers a request that only reads. A request with a permit that was
/// denied is refused as unauthorized; every other request is answered.
pub fn query(state: &State, env: Env, msg: QueryMsg) -> (result: Result<
    QueryResponse,
    ContractError,
>)
    requires
        state.wf(),
    ensures
        match result {
            Ok(response) => answers(response, state@, msg),
            Err(e) => e == ContractError::Unauthorized && permit_of(msg) == Some(Permit::Denied),
        },
{
    match msg {
        QueryMsg::GetField => Ok(QueryResponse::Field(FieldResponse { cells: get_field_cells(state) })),
        QueryMsg::GetMyPowerups { permit } => match address_from_permit(&permit) {
            Ok(account) => Ok(QueryResponse::MyPowerups(get_user_powerups(state, &account))),
            Err(e) => Err(e),
        },
        QueryMsg::NetworkConfig { denom } => Ok(
            QueryResponse::NetworkConfig(get_network_config(state, &denom)),
        ),
        QueryMsg::AllNetworkConfigs => Ok(
            QueryResponse::AllNetworkConfigs(get_all_network_configs(state)),
        ),
        QueryMsg::Main { permit } => match get_main(state, env, permit) {
            Ok(page) => Ok(QueryResponse::Main(page)),
            Err(e) => Err(e),
        },
    }
}

} // verus!
