use cell_field::contract::instantiate;
use cell_field::error::ContractError;
use cell_field::msg::InstantiateMsg;
use cell_field::networks::{NetworkConfig, NetworkRegistry, Powerup, PowerupDef};
use cell_field::powerups::{
    boost, count_powerups, find_def, get_user_powerups, price, try_buying_powerups, Charges,
    DenomCharges, PowerupLedger, PurchaseReceipt,
};
use cell_field::state::{BlockInfo, Coin, Env, MessageInfo, State};

fn config(chain_id: &str, channel_id: Option<&str>) -> NetworkConfig {
    NetworkConfig {
        chain_id: String::from(chain_id),
        channel_id: channel_id.map(String::from),
        open_cost: 100,
        power_ups: vec![
            (Powerup::Clover, PowerupDef { price: 10, boost: 5 }),
            (Powerup::Horseshoe, PowerupDef { price: 20, boost: 10 }),
            (Powerup::Talisman, PowerupDef { price: 50, boost: 100 }),
        ],
    }
}

fn game() -> State {
    let mut network_configs = NetworkRegistry::new();
    network_configs.register(String::from("uscrt"), config("secret-4", None));
    network_configs.register(String::from("ibc/A"), config("osmosis-1", Some("channel-1")));
    let env = Env {
        block: BlockInfo { height: 12345, time: 1_700_000_000, chain_id: String::from("secret-4") },
    };
    let info = MessageInfo { sender: String::from("secret1creator"), funds: Vec::new() };
    let msg = InstantiateMsg {
        field_size: Some(4),
        network_configs,
        cell_cooldown: None,
        user_cooldown: None,
        win_threshold: None,
    };
    instantiate(env, info, msg).unwrap()
}

fn coins(denom: &str, amount: u128) -> Vec<Coin> {
    vec![Coin { denom: String::from(denom), amount }]
}

fn charges(clover: u64, horseshoe: u64, talisman: u64) -> Charges {
    Charges { clover, horseshoe, talisman }
}

#[test]
fn charges_are_counted_kind_by_kind() {
    let held = charges(1, 2, 3);
    assert_eq!(held.get(Powerup::Clover), 1);
    assert_eq!(held.get(Powerup::Horseshoe), 2);
    assert_eq!(held.get(Powerup::Talisman), 3);
    assert_eq!(Charges::none(), charges(0, 0, 0));
    assert_eq!(Charges::single(Powerup::Clover, 4), charges(4, 0, 0));
    assert_eq!(Charges::single(Powerup::Horseshoe, 5), charges(0, 5, 0));
    assert_eq!(Charges::single(Powerup::Talisman, 6), charges(0, 0, 6));
}

#[test]
fn a_holding_covers_what_it_has_of_every_kind() {
    assert!(charges(1, 2, 3).covers(charges(1, 2, 3)));
    assert!(charges(1, 2, 3).covers(Charges::none()));
    assert!(!charges(1, 2, 3).covers(charges(2, 0, 0)));
    assert!(!charges(1, 2, 3).covers(charges(0, 3, 0)));
    assert!(!charges(1, 2, 3).covers(charges(0, 0, 4)));
}

#[test]
fn charges_add_up_unless_a_count_overflows() {
    assert_eq!(charges(1, 2, 3).checked_plus(charges(10, 20, 30)), Some(charges(11, 22, 33)));
    assert_eq!(
        charges(u64::MAX - 1, 0, 0).checked_plus(charges(1, 0, 0)),
        Some(charges(u64::MAX, 0, 0))
    );
    assert_eq!(charges(u64::MAX, 0, 0).checked_plus(charges(1, 0, 0)), None);
    assert_eq!(charges(0, u64::MAX, 0).checked_plus(charges(0, 1, 0)), None);
    assert_eq!(charges(0, 0, u64::MAX).checked_plus(charges(0, 0, 1)), None);
    assert!(charges(5, 5, 5).fits_with(charges(u64::MAX - 5, 0, 0)));
    assert!(!charges(5, 5, 5).fits_with(charges(u64::MAX - 4, 0, 0)));
}

#[test]
fn charges_are_taken_away_down_to_nothing() {
    assert_eq!(charges(5, 5, 5).minus(charges(1, 5, 9)), charges(4, 0, 0));
    assert_eq!(charges(2, 1, 0).minus(charges(1, 0, 0)), charges(1, 1, 0));
}

#[test]
fn a_list_of_powerups_counts_one_charge_each() {
    assert_eq!(count_powerups(&Vec::new()), Charges::none());
    assert_eq!(
        count_powerups(&vec![
            Powerup::Clover,
            Powerup::Talisman,
            Powerup::Clover,
            Powerup::Horseshoe,
            Powerup::Clover,
        ]),
        charges(3, 1, 1)
    );
}

#[test]
fn the_first_listed_definition_counts() {
    let mut listed = config("secret-4", None);
    assert_eq!(find_def(&listed, Powerup::Horseshoe), PowerupDef { price: 20, boost: 10 });
    listed.power_ups.push((Powerup::Horseshoe, PowerupDef { price: 1, boost: 1 }));
    assert_eq!(find_def(&listed, Powerup::Horseshoe), PowerupDef { price: 20, boost: 10 });
    listed.power_ups.clear();
    assert_eq!(find_def(&listed, Powerup::Horseshoe), PowerupDef { price: 0, boost: 0 });
}

#[test]
fn the_price_is_the_sum_of_count_times_unit_price() {
    let listed = config("secret-4", None);
    assert_eq!(price(&listed, Charges::none()), Some(0));
    assert_eq!(price(&listed, charges(2, 1, 0)), Some(40));
    assert_eq!(price(&listed, charges(1, 1, 1)), Some(80));
    assert_eq!(price(&listed, charges(0, 0, 7)), Some(350));
}

#[test]
fn a_price_beyond_any_payment_has_no_value() {
    let mut dear = config("secret-4", None);
    dear.power_ups[0] = (Powerup::Clover, PowerupDef { price: u128::MAX, boost: 0 });
    assert_eq!(price(&dear, charges(1, 0, 0)), Some(u128::MAX));
    assert_eq!(price(&dear, charges(2, 0, 0)), None);
    assert_eq!(price(&dear, charges(1, 1, 0)), None);
}

#[test]
fn the_boost_is_the_sum_of_count_times_unit_boost() {
    let listed = config("secret-4", None);
    assert_eq!(boost(&listed, Charges::none()), 0);
    assert_eq!(boost(&listed, charges(2, 1, 0)), 20);
    assert_eq!(boost(&listed, charges(1, 1, 1)), 115);
    let mut strong = config("secret-4", None);
    strong.power_ups[2] = (Powerup::Talisman, PowerupDef { price: 0, boost: u16::MAX });
    assert_eq!(boost(&strong, charges(0, 0, u64::MAX)), (u64::MAX as u128) * 65535);
}

#[test]
fn a_new_ledger_holds_nothing() {
    let ledger = PowerupLedger::new();
    assert_eq!(ledger.balance(&String::from("secret1alice"), &String::from("uscrt")), Charges::none());
}

#[test]
fn balances_are_kept_per_account_and_currency() {
    let mut ledger = PowerupLedger::new();
    let alice = String::from("secret1alice");
    let bob = String::from("secret1bob");
    let scrt = String::from("uscrt");
    let atom = String::from("uatom");
    ledger.set_balance(&alice, &scrt, charges(1, 2, 3));
    ledger.set_balance(&bob, &scrt, charges(4, 0, 0));
    ledger.set_balance(&alice, &atom, charges(0, 0, 9));
    ledger.set_balance(&alice, &scrt, charges(7, 7, 7));
    assert_eq!(ledger.balance(&alice, &scrt), charges(7, 7, 7));
    assert_eq!(ledger.balance(&bob, &scrt), charges(4, 0, 0));
    assert_eq!(ledger.balance(&alice, &atom), charges(0, 0, 9));
    assert_eq!(ledger.balance(&bob, &atom), Charges::none());
}

#[test]
fn a_purchase_adds_to_the_holding_and_returns_the_price() {
    let mut ledger = PowerupLedger::new();
    let alice = String::from("secret1alice");
    let scrt = String::from("uscrt");
    let listed = config("secret-4", None);
    assert_eq!(ledger.purchase(&alice, &scrt, &listed, charges(2, 1, 0), 40), Ok(40));
    assert_eq!(ledger.balance(&alice, &scrt), charges(2, 1, 0));
    assert_eq!(ledger.purchase(&alice, &scrt, &listed, charges(0, 0, 1), 1000), Ok(50));
    assert_eq!(ledger.balance(&alice, &scrt), charges(2, 1, 1));
}

#[test]
fn a_purchase_needs_funds_that_cover_the_price() {
    let mut ledger = PowerupLedger::new();
    let alice = String::from("secret1alice");
    let scrt = String::from("uscrt");
    let listed = config("secret-4", None);
    assert_eq!(
        ledger.purchase(&alice, &scrt, &listed, charges(2, 1, 0), 39),
        Err(ContractError::InsufficientFunds)
    );
    assert_eq!(ledger, PowerupLedger::new());
    let mut dear = config("secret-4", None);
    dear.power_ups[0] = (Powerup::Clover, PowerupDef { price: u128::MAX, boost: 0 });
    assert_eq!(
        ledger.purchase(&alice, &scrt, &dear, charges(2, 0, 0), u128::MAX),
        Err(ContractError::InsufficientFunds)
    );
    assert_eq!(ledger, PowerupLedger::new());
}

#[test]
fn a_purchase_beyond_what_the_ledger_counts_is_refused() {
    let mut ledger = PowerupLedger::new();
    let alice = String::from("secret1alice");
    let scrt = String::from("uscrt");
    let listed = config("secret-4", None);
    ledger.set_balance(&alice, &scrt, charges(u64::MAX, 0, 0));
    assert_eq!(
        ledger.purchase(&alice, &scrt, &listed, charges(1, 0, 0), 10),
        Err(ContractError::InvalidPowerupAmounts)
    );
    assert_eq!(ledger.balance(&alice, &scrt), charges(u64::MAX, 0, 0));
    assert_eq!(
        ledger.purchase(&alice, &scrt, &listed, charges(1, 0, 0), 9),
        Err(ContractError::InsufficientFunds)
    );
}

#[test]
fn charges_are_consumed_only_if_held() {
    let mut ledger = PowerupLedger::new();
    let alice = String::from("secret1alice");
    let scrt = String::from("uscrt");
    ledger.set_balance(&alice, &scrt, charges(2, 1, 0));
    assert_eq!(
        ledger.consume(&alice, &scrt, charges(0, 0, 1)),
        Err(ContractError::InsufficientPowerups)
    );
    assert_eq!(
        ledger.consume(&alice, &scrt, charges(3, 0, 0)),
        Err(ContractError::InsufficientPowerups)
    );
    assert_eq!(ledger.balance(&alice, &scrt), charges(2, 1, 0));
    assert_eq!(ledger.consume(&alice, &scrt, charges(1, 1, 0)), Ok(()));
    assert_eq!(ledger.balance(&alice, &scrt), charges(1, 0, 0));
    assert_eq!(ledger.consume(&String::from("secret1bob"), &scrt, Charges::none()), Ok(()));
    assert_eq!(
        ledger.consume(&String::from("secret1bob"), &scrt, charges(1, 0, 0)),
        Err(ContractError::InsufficientPowerups)
    );
}

#[test]
fn buying_charges_one_for_each_listed_powerup() {
    let mut state = game();
    let alice = String::from("secret1alice");
    let receipt = try_buying_powerups(
        &mut state,
        &alice,
        &vec![Powerup::Clover, Powerup::Clover, Powerup::Talisman],
        &coins("uscrt", 70),
    );
    assert_eq!(receipt, Ok(PurchaseReceipt { charged: 70, balance: charges(2, 0, 1) }));
    assert_eq!(state.powerups.balance(&alice, &String::from("uscrt")), charges(2, 0, 1));
    let receipt = try_buying_powerups(&mut state, &alice, &vec![Powerup::Horseshoe], &coins("uscrt", 500));
    assert_eq!(receipt, Ok(PurchaseReceipt { charged: 20, balance: charges(2, 1, 1) }));
    assert_eq!(state.powerups.balance(&alice, &String::from("ibc/A")), Charges::none());
    assert_eq!(state.field, game().field);
    assert_eq!(state.cooldowns, game().cooldowns);
}

#[test]
fn buying_is_refused_without_enough_funds() {
    let mut state = game();
    let result = try_buying_powerups(
        &mut state,
        &String::from("secret1alice"),
        &vec![Powerup::Clover, Powerup::Clover, Powerup::Talisman],
        &coins("uscrt", 69),
    );
    assert_eq!(result, Err(ContractError::InsufficientFunds));
    assert_eq!(state, game());
}

#[test]
fn buying_needs_a_configured_currency() {
    let mut state = game();
    let alice = String::from("secret1alice");
    assert_eq!(
        try_buying_powerups(&mut state, &alice, &vec![Powerup::Clover], &coins("uatom", 1000)),
        Err(ContractError::UnsupportedCurrency)
    );
    assert_eq!(
        try_buying_powerups(&mut state, &alice, &vec![Powerup::Clover], &Vec::new()),
        Err(ContractError::UnsupportedCurrency)
    );
    assert_eq!(state, game());
}

#[test]
fn the_first_coin_pays_for_a_purchase() {
    let mut state = game();
    let alice = String::from("secret1alice");
    let funds = vec![
        Coin { denom: String::from("ibc/A"), amount: 10 },
        Coin { denom: String::from("uscrt"), amount: 1000 },
    ];
    assert_eq!(
        try_buying_powerups(&mut state, &alice, &vec![Powerup::Horseshoe], &funds),
        Err(ContractError::InsufficientFunds)
    );
    assert_eq!(
        try_buying_powerups(&mut state, &alice, &vec![Powerup::Clover], &funds),
        Ok(PurchaseReceipt { charged: 10, balance: charges(1, 0, 0) })
    );
    assert_eq!(state.powerups.balance(&alice, &String::from("ibc/A")), charges(1, 0, 0));
    assert_eq!(state.powerups.balance(&alice, &String::from("uscrt")), Charges::none());
}

#[test]
fn buying_more_than_the_ledger_counts_is_refused() {
    let mut state = game();
    let alice = String::from("secret1alice");
    state.powerups.set_balance(&alice, &String::from("uscrt"), charges(0, u64::MAX, 0));
    assert_eq!(
        try_buying_powerups(&mut state, &alice, &vec![Powerup::Horseshoe], &coins("uscrt", 20)),
        Err(ContractError::InvalidPowerupAmounts)
    );
    assert_eq!(state.powerups.balance(&alice, &String::from("uscrt")), charges(0, u64::MAX, 0));
}

#[test]
fn holdings_are_listed_for_every_configured_currency() {
    let mut state = game();
    let alice = String::from("secret1alice");
    try_buying_powerups(&mut state, &alice, &vec![Powerup::Talisman], &coins("ibc/A", 50)).unwrap();
    assert_eq!(
        get_user_powerups(&state, &alice),
        vec![
            DenomCharges { denom: String::from("uscrt"), charges: Charges::none() },
            DenomCharges { denom: String::from("ibc/A"), charges: charges(0, 0, 1) },
        ]
    );
    assert_eq!(
        get_user_powerups(&state, &String::from("secret1bob")),
        vec![
            DenomCharges { denom: String::from("uscrt"), charges: Charges::none() },
            DenomCharges { denom: String::from("ibc/A"), charges: Charges::none() },
        ]
    );
}
