use cell_field::contract::instantiate;
use cell_field::error::ContractError;
use cell_field::field::{get_field_cells, open_cell, try_opening_cell, OpenReceipt};
use cell_field::msg::InstantiateMsg;
use cell_field::networks::{NetworkConfig, NetworkRegistry, Powerup, PowerupDef};
use cell_field::powerups::{try_buying_powerups, Charges};
use cell_field::state::{BlockInfo, CellState, Coin, Env, MessageInfo, State};

const START: u64 = 1_700_000_000;

fn config(chain_id: &str, channel_id: Option<&str>) -> NetworkConfig {
    NetworkConfig {
        chain_id: String::from(chain_id),
        channel_id: channel_id.map(String::from),
        open_cost: 100,
        power_ups: vec![
            (Powerup::Clover, PowerupDef { price: 10, boost: 5 }),
            (Powerup::Horseshoe, PowerupDef { price: 20, boost: 10 }),
            (Powerup::Talisman, PowerupDef { price: 50, boost: 100 }),
        ],
    }
}

fn env(time: u64) -> Env {
    Env { block: BlockInfo { height: 12345, time, chain_id: String::from("secret-4") } }
}

fn game_with(cell_cooldown: Option<u64>, user_cooldown: Option<u64>, win_threshold: Option<u16>) -> State {
    let mut network_configs = NetworkRegistry::new();
    network_configs.register(String::from("uscrt"), config("secret-4", None));
    network_configs.register(String::from("ibc/A"), config("osmosis-1", Some("channel-1")));
    let info = MessageInfo { sender: String::from("secret1creator"), funds: Vec::new() };
    let msg = InstantiateMsg {
        field_size: Some(4),
        network_configs,
        cell_cooldown,
        user_cooldown,
        win_threshold,
    };
    instantiate(env(START), info, msg).unwrap()
}

fn game() -> State {
    game_with(None, None, None)
}

fn coins(denom: &str, amount: u128) -> Vec<Coin> {
    vec![Coin { denom: String::from(denom), amount }]
}

fn charges(clover: u64, horseshoe: u64, talisman: u64) -> Charges {
    Charges { clover, horseshoe, talisman }
}

fn alice() -> String {
    String::from("secret1alice")
}

#[test]
fn the_field_starts_with_the_bytes_of_its_creator() {
    assert_eq!(
        get_field_cells(&game()),
        vec![
            CellState { random: 86, open_at: START },
            CellState { random: 245, open_at: START },
            CellState { random: 48, open_at: START },
            CellState { random: 174, open_at: START },
        ]
    );
}

#[test]
fn an_open_attempt_below_the_threshold_wins() {
    let mut state = game();
    let receipt = open_cell(&mut state, START + 5, &alice(), 1, &Vec::new(), false, &coins("uscrt", 100), 200);
    assert_eq!(
        receipt,
        Ok(OpenReceipt {
            cell_id: 1,
            won: true,
            draw: 286,
            threshold: 490,
            charged: 100,
            open_at: START + 5 + 172_800,
        })
    );
}

#[test]
fn an_open_attempt_at_or_above_the_threshold_loses() {
    let mut state = game_with(None, None, Some(286));
    let receipt = open_cell(&mut state, START, &alice(), 1, &Vec::new(), false, &coins("uscrt", 100), 200).unwrap();
    assert!(!receipt.won);
    assert_eq!(receipt.draw, 286);
    assert_eq!(receipt.threshold, 286);
    let mut state = game_with(None, None, Some(287));
    let receipt = open_cell(&mut state, START, &alice(), 1, &Vec::new(), false, &coins("uscrt", 100), 200).unwrap();
    assert!(receipt.won);
    let mut state = game_with(None, None, Some(0));
    let receipt = open_cell(&mut state, START, &alice(), 3, &Vec::new(), false, &coins("uscrt", 100), 0).unwrap();
    assert!(!receipt.won);
    assert_eq!(receipt.draw, 48);
}

#[test]
fn an_open_attempt_closes_the_cell_and_records_the_account() {
    let mut state = game();
    open_cell(&mut state, START + 5, &alice(), 2, &Vec::new(), false, &coins("uscrt", 150), 1).unwrap();
    assert_eq!(
        get_field_cells(&state),
        vec![
            CellState { random: 86, open_at: START },
            CellState { random: 245, open_at: START + 5 + 172_800 },
            CellState { random: 48, open_at: START },
            CellState { random: 174, open_at: START },
        ]
    );
    assert_eq!(state.cooldowns.last_opened(&alice()), Some(START + 5));
    assert_eq!(state.cooldowns.last_opened(&String::from("secret1bob")), None);
    assert_eq!(state.networks, game().networks);
    assert_eq!(state.config, game().config);
    assert_eq!(state.powerups.balance(&alice(), &String::from("uscrt")), Charges::none());
}

#[test]
fn a_loss_closes_the_cell_as_a_win_does() {
    let mut state = game_with(None, None, Some(1));
    let receipt = open_cell(&mut state, START + 9, &alice(), 4, &Vec::new(), false, &coins("uscrt", 100), 3).unwrap();
    assert!(!receipt.won);
    assert_eq!(receipt.open_at, START + 9 + 172_800);
    assert_eq!(state.field.get(4), Ok(CellState { random: 174, open_at: START + 9 + 172_800 }));
    assert_eq!(state.cooldowns.last_opened(&alice()), Some(START + 9));
}

#[test]
fn a_missing_cell_cannot_be_opened() {
    let mut state = game();
    assert_eq!(
        open_cell(&mut state, START, &alice(), 5, &Vec::new(), false, &coins("uscrt", 100), 0),
        Err(ContractError::CellNotFound)
    );
    assert_eq!(
        open_cell(&mut state, START, &alice(), 0, &Vec::new(), false, &coins("uscrt", 100), 0),
        Err(ContractError::CellNotFound)
    );
    assert_eq!(state, game());
}

#[test]
fn a_closed_cell_cannot_be_opened() {
    let mut state = game();
    assert_eq!(
        open_cell(&mut state, START - 1, &alice(), 1, &Vec::new(), false, &coins("uscrt", 100), 0),
        Err(ContractError::CellOnCooldown)
    );
    assert_eq!(state, game());
    open_cell(&mut state, START, &alice(), 1, &Vec::new(), false, &coins("uscrt", 100), 0).unwrap();
    let mut twin = game();
    open_cell(&mut twin, START, &alice(), 1, &Vec::new(), false, &coins("uscrt", 100), 0).unwrap();
    let bob = String::from("secret1bob");
    assert_eq!(
        open_cell(&mut state, START + 172_799, &bob, 1, &Vec::new(), true, &coins("uscrt", 1000), 0),
        Err(ContractError::CellOnCooldown)
    );
    assert_eq!(
        open_cell(&mut state, START + 172_799, &bob, 1, &Vec::new(), true, &coins("uscrt", 1000), 0),
        Err(ContractError::CellOnCooldown)
    );
    assert_eq!(state, twin);
    assert!(open_cell(&mut state, START + 172_800, &bob, 1, &Vec::new(), false, &coins("uscrt", 100), 0).is_ok());
}

#[test]
fn a_closed_cell_is_reported_before_anything_else() {
    let mut state = game();
    assert_eq!(
        open_cell(
            &mut state,
            START - 1,
            &alice(),
            1,
            &vec![Powerup::Clover],
            false,
            &coins("uatom", 0),
            0
        ),
        Err(ContractError::CellOnCooldown)
    );
}

#[test]
fn an_account_waits_between_open_attempts() {
    let mut state = game_with(Some(10), Some(1000), None);
    open_cell(&mut state, START, &alice(), 1, &Vec::new(), false, &coins("uscrt", 100), 0).unwrap();
    let mut twin = game_with(Some(10), Some(1000), None);
    open_cell(&mut twin, START, &alice(), 1, &Vec::new(), false, &coins("uscrt", 100), 0).unwrap();
    assert_eq!(
        open_cell(&mut state, START + 9, &alice(), 1, &Vec::new(), false, &coins("uscrt", 100), 0),
        Err(ContractError::CellOnCooldown)
    );
    assert_eq!(
        open_cell(&mut state, START + 10, &alice(), 1, &Vec::new(), false, &coins("uscrt", 100), 0),
        Err(ContractError::UserOnCooldown)
    );
    assert_eq!(
        open_cell(&mut state, START + 999, &alice(), 1, &Vec::new(), false, &coins("uscrt", 100), 0),
        Err(ContractError::UserOnCooldown)
    );
    assert_eq!(
        open_cell(&mut state, START + 20, &alice(), 2, &Vec::new(), false, &coins("uscrt", 100), 0),
        Err(ContractError::UserOnCooldown)
    );
    assert_eq!(state, twin);
    assert!(open_cell(
        &mut state,
        START + 20,
        &String::from("secret1bob"),
        1,
        &Vec::new(),
        false,
        &coins("uscrt", 100),
        0
    )
    .is_ok());
    assert!(open_cell(&mut state, START + 1000, &alice(), 2, &Vec::new(), false, &coins("uscrt", 100), 0).is_ok());
}

#[test]
fn the_payment_must_be_in_a_configured_currency() {
    let mut state = game();
    assert_eq!(
        open_cell(&mut state, START, &alice(), 1, &Vec::new(), false, &coins("uatom", 1000), 0),
        Err(ContractError::UnsupportedCurrency)
    );
    assert_eq!(
        open_cell(&mut state, START, &alice(), 1, &Vec::new(), false, &Vec::new(), 0),
        Err(ContractError::UnsupportedCurrency)
    );
    let funds = vec![
        Coin { denom: String::from("uatom"), amount: 1000 },
        Coin { denom: String::from("uscrt"), amount: 1000 },
    ];
    assert_eq!(
        open_cell(&mut state, START, &alice(), 1, &Vec::new(), false, &funds, 0),
        Err(ContractError::UnsupportedCurrency)
    );
    assert_eq!(state, game());
}

#[test]
fn the_payment_must_cover_the_opening() {
    let mut state = game();
    assert_eq!(
        open_cell(&mut state, START, &alice(), 1, &Vec::new(), false, &coins("uscrt", 99), 0),
        Err(ContractError::InsufficientFunds)
    );
    assert_eq!(
        open_cell(&mut state, START, &alice(), 1, &Vec::new(), true, &coins("ibc/A", 0), 0),
        Err(ContractError::InsufficientFunds)
    );
    assert_eq!(state, game());
    let receipt = open_cell(&mut state, START, &alice(), 1, &Vec::new(), false, &coins("ibc/A", 5000), 0).unwrap();
    assert_eq!(receipt.charged, 100);
}

#[test]
fn powerups_must_be_held_without_autopay() {
    let mut state = game();
    assert_eq!(
        open_cell(&mut state, START, &alice(), 1, &vec![Powerup::Clover], false, &coins("uscrt", 1000), 0),
        Err(ContractError::InsufficientPowerups)
    );
    assert_eq!(state, game());
    try_buying_powerups(&mut state, &alice(), &vec![Powerup::Clover], &coins("uscrt", 10)).unwrap();
    let mut twin = game();
    try_buying_powerups(&mut twin, &alice(), &vec![Powerup::Clover], &coins("uscrt", 10)).unwrap();
    assert_eq!(
        open_cell(
            &mut state,
            START,
            &alice(),
            1,
            &vec![Powerup::Clover, Powerup::Clover],
            false,
            &coins("uscrt", 1000),
            0
        ),
        Err(ContractError::InsufficientPowerups)
    );
    assert_eq!(
        open_cell(&mut state, START, &alice(), 1, &vec![Powerup::Horseshoe], false, &coins("uscrt", 1000), 0),
        Err(ContractError::InsufficientPowerups)
    );
    assert_eq!(
        open_cell(&mut state, START, &alice(), 1, &vec![Powerup::Clover], false, &coins("ibc/A", 1000), 0),
        Err(ContractError::InsufficientPowerups)
    );
    assert_eq!(state, twin);
}

#[test]
fn held_powerups_are_used_up_and_raise_the_threshold() {
    let mut state = game();
    try_buying_powerups(
        &mut state,
        &alice(),
        &vec![Powerup::Clover, Powerup::Clover, Powerup::Horseshoe, Powerup::Talisman],
        &coins("uscrt", 90),
    )
    .unwrap();
    let receipt = open_cell(
        &mut state,
        START,
        &alice(),
        1,
        &vec![Powerup::Clover, Powerup::Horseshoe],
        false,
        &coins("uscrt", 100),
        254,
    );
    assert_eq!(
        receipt,
        Ok(OpenReceipt {
            cell_id: 1,
            won: true,
            draw: 340,
            threshold: 505,
            charged: 100,
            open_at: START + 172_800,
        })
    );
    assert_eq!(state.powerups.balance(&alice(), &String::from("uscrt")), charges(1, 0, 1));
}

#[test]
fn a_boost_turns_a_loss_into_a_win() {
    let mut plain = game_with(None, None, Some(200));
    let receipt = open_cell(&mut plain, START, &alice(), 1, &Vec::new(), true, &coins("uscrt", 1000), 120).unwrap();
    assert_eq!((receipt.draw, receipt.threshold, receipt.won), (206, 200, false));
    let mut boosted = game_with(None, None, Some(200));
    let receipt = open_cell(
        &mut boosted,
        START,
        &alice(),
        1,
        &vec![Powerup::Clover, Powerup::Clover],
        true,
        &coins("uscrt", 1000),
        120,
    )
    .unwrap();
    assert_eq!((receipt.draw, receipt.threshold, receipt.won), (206, 210, true));
    assert_eq!(receipt.charged, 120);
}

#[test]
fn autopay_buys_what_is_missing() {
    let mut state = game();
    try_buying_powerups(&mut state, &alice(), &vec![Powerup::Clover], &coins("uscrt", 10)).unwrap();
    let chosen = vec![Powerup::Clover, Powerup::Horseshoe, Powerup::Clover];
    assert_eq!(
        open_cell(&mut state, START, &alice(), 1, &chosen, true, &coins("uscrt", 129), 0),
        Err(ContractError::InsufficientFunds)
    );
    assert_eq!(state.powerups.balance(&alice(), &String::from("uscrt")), charges(1, 0, 0));
    let receipt = open_cell(&mut state, START, &alice(), 1, &chosen, true, &coins("uscrt", 130), 0);
    assert_eq!(
        receipt,
        Ok(OpenReceipt {
            cell_id: 1,
            won: true,
            draw: 86,
            threshold: 510,
            charged: 130,
            open_at: START + 172_800,
        })
    );
    assert_eq!(state.powerups.balance(&alice(), &String::from("uscrt")), Charges::none());
}

#[test]
fn autopay_leaves_unused_charges_alone() {
    let mut state = game();
    try_buying_powerups(
        &mut state,
        &alice(),
        &vec![Powerup::Talisman, Powerup::Talisman, Powerup::Clover],
        &coins("uscrt", 110),
    )
    .unwrap();
    let receipt = open_cell(
        &mut state,
        START,
        &alice(),
        2,
        &vec![Powerup::Talisman, Powerup::Horseshoe],
        true,
        &coins("uscrt", 120),
        0,
    )
    .unwrap();
    assert_eq!(receipt.charged, 120);
    assert_eq!(receipt.threshold, 600);
    assert_eq!(state.powerups.balance(&alice(), &String::from("uscrt")), charges(1, 0, 1));
}

#[test]
fn a_cost_beyond_any_payment_is_not_covered() {
    let mut network_configs = NetworkRegistry::new();
    let mut dear = config("secret-4", None);
    dear.open_cost = u128::MAX;
    network_configs.register(String::from("uscrt"), dear);
    let info = MessageInfo { sender: String::from("secret1creator"), funds: Vec::new() };
    let msg = InstantiateMsg {
        field_size: Some(4),
        network_configs,
        cell_cooldown: None,
        user_cooldown: None,
        win_threshold: None,
    };
    let mut state = instantiate(env(START), info, msg).unwrap();
    assert_eq!(
        open_cell(&mut state, START, &alice(), 1, &vec![Powerup::Clover], true, &coins("uscrt", u128::MAX), 0),
        Err(ContractError::InsufficientFunds)
    );
    let receipt = open_cell(&mut state, START, &alice(), 1, &Vec::new(), true, &coins("uscrt", u128::MAX), 0).unwrap();
    assert_eq!(receipt.charged, u128::MAX);
}

#[test]
fn the_threshold_stops_at_its_largest_value() {
    let mut state = game_with(None, None, Some(65_500));
    let receipt = open_cell(&mut state, START, &alice(), 1, &vec![Powerup::Talisman], true, &coins("uscrt", 150), 0).unwrap();
    assert_eq!(receipt.threshold, 65_535);
    let mut state = game_with(None, None, Some(65_435));
    let receipt = open_cell(&mut state, START, &alice(), 1, &vec![Powerup::Talisman], true, &coins("uscrt", 150), 0).unwrap();
    assert_eq!(receipt.threshold, 65_535);
    let mut state = game_with(None, None, Some(65_434));
    let receipt = open_cell(&mut state, START, &alice(), 1, &vec![Powerup::Talisman], true, &coins("uscrt", 150), 0).unwrap();
    assert_eq!(receipt.threshold, 65_534);
}

#[test]
fn the_next_opening_time_stops_at_the_end_of_time() {
    let mut state = game_with(Some(10), None, None);
    let receipt = open_cell(&mut state, u64::MAX - 5, &alice(), 1, &Vec::new(), false, &coins("uscrt", 100), 0).unwrap();
    assert_eq!(receipt.open_at, u64::MAX);
    assert_eq!(state.field.get(1), Ok(CellState { random: 86, open_at: u64::MAX }));
    let mut state = game_with(Some(10), None, None);
    let receipt = open_cell(&mut state, u64::MAX - 10, &alice(), 1, &Vec::new(), false, &coins("uscrt", 100), 0).unwrap();
    assert_eq!(receipt.open_at, u64::MAX);
    let mut state = game_with(Some(10), None, None);
    let receipt = open_cell(&mut state, u64::MAX - 11, &alice(), 1, &Vec::new(), false, &coins("uscrt", 100), 0).unwrap();
    assert_eq!(receipt.open_at, u64::MAX - 1);
}

#[test]
fn the_byte_of_an_attempt_comes_from_block_and_sender() {
    let mut state = game();
    let receipt = try_opening_cell(&mut state, &env(START + 100), &alice(), 1, &Vec::new(), false, &coins("uscrt", 100));
    assert_eq!(
        receipt,
        Ok(OpenReceipt {
            cell_id: 1,
            won: true,
            draw: 86 + 134,
            threshold: 490,
            charged: 100,
            open_at: START + 100 + 172_800,
        })
    );
    let mut state = game();
    let bob = String::from("secret1bob");
    let receipt = try_opening_cell(&mut state, &env(START), &bob, 2, &Vec::new(), false, &coins("uscrt", 100)).unwrap();
    assert_eq!(receipt.draw, 245 + 117);
}

#[test]
fn the_same_attempt_in_the_same_block_has_the_same_outcome() {
    let mut first = game_with(None, None, Some(230));
    let mut second = game_with(None, None, Some(230));
    let one = try_opening_cell(&mut first, &env(START + 100), &alice(), 1, &Vec::new(), false, &coins("uscrt", 100));
    let two = try_opening_cell(&mut second, &env(START + 100), &alice(), 1, &Vec::new(), false, &coins("uscrt", 100));
    assert_eq!(one, two);
    assert_eq!(first, second);
    assert!(one.unwrap().won);
    let mut third = game_with(None, None, Some(220));
    let lost = try_opening_cell(&mut third, &env(START + 100), &alice(), 1, &Vec::new(), false, &coins("uscrt", 100)).unwrap();
    assert!(!lost.won);
}
