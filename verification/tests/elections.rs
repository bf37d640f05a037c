//! Elections: prices, stakes, transfers, and the course of a validator.
use everscale_types::boc::{Boc, BocRepr};
use everscale_types::cell::{Cell, CellBuilder};
use everscale_types::models::{self, BlockchainConfig};
use everscale_types::num::Tokens;
use tycho::config_action::{
    create_message, make_config_action, Action, ActionError, ConfigAccount,
};
use tycho::elect::config::{
    apply_price_factor, compute_gas_price_factor, elections_timeline, ChainConfigError,
    ParsedBlockchainConfig, StakeError, Timeline, ValidatorStakeParams, ONE_CC,
};
use tycho::elect::run::{
    compute_deadline, compute_time_diff, Observed, RunConfig, RunState, Step,
};
use tycho::elect::stake::{
    build_elections_data_to_sign, make_elector_message, make_participate_input, make_recover_msg,
    plan_elect, plan_stake, ElectError, ElectorMessage, Member,
};
use tycho::elect::wallet::{
    check_delivered, check_wallet_data, choose_client, compute_expire_at, make_message,
    on_account, withdraw_amount, withdraw_payload, AccountInfo, AccountStatus, Amount, ClientKind, SendFlags,
    SentMessage, TransferArgs, TransferError, TransferParams, TransferStep,
};
use tycho::ids::HashBytes;
use tycho::models::parts::KeyPair;
use tycho::queue::addr::StdAddr;

#[test]
fn price_factor() {
    const BASE_GAS_PRICE: u64 = 10_000 << 16;

    fn compute_price_factor(new_gas_price: u64) -> u64 {
        new_gas_price.checked_shl(16).unwrap() / BASE_GAS_PRICE
    }

    // the base fee
    let price_factor = compute_price_factor(BASE_GAS_PRICE);
    assert_eq!(price_factor, 1 << 16);
    assert_eq!(apply_price_factor(ONE_CC, price_factor), ONE_CC);

    // a greater fee
    let price_factor = compute_price_factor(60 * BASE_GAS_PRICE);
    assert_eq!(apply_price_factor(ONE_CC, price_factor), ONE_CC * 60);

    // a greater fee with decimals
    let price_factor = compute_price_factor((30.5f64 * BASE_GAS_PRICE as f64) as u64);
    assert_eq!(
        apply_price_factor(ONE_CC, price_factor),
        (ONE_CC as f64 * 30.5f64) as u128
    );

    // a smaller fee
    let price_factor = compute_price_factor(BASE_GAS_PRICE / 2);
    assert_eq!(apply_price_factor(ONE_CC, price_factor), ONE_CC / 2);
}

#[test]
fn price_factors_of_chains() {
    assert_eq!(compute_gas_price_factor(true, 10_000 << 16), 1 << 16);
    assert_eq!(compute_gas_price_factor(false, 1_000 << 16), 1 << 16);
    assert_eq!(compute_gas_price_factor(false, 10_000 << 16), 10 << 16);
    // a greater factor gives no smaller value, and parts are rounded up
    assert!(apply_price_factor(7, 1 << 15) <= apply_price_factor(7, (1 << 15) + 1));
    assert_eq!(apply_price_factor(7, 1 << 15), 4);
    assert_eq!(apply_price_factor(u128::MAX, u64::MAX), u128::MAX / 0x1_0000 + 1);
}

fn chain_config() -> BlockchainConfig {
    let address = everscale_types::cell::HashBytes([0x55; 32]);
    let mut config = BlockchainConfig::new_empty(address);
    let elector = everscale_types::cell::HashBytes([0x33; 32]);
    config.set_elector_address(&elector).unwrap();
    config
        .set_global_version(&models::GlobalVersion {
            version: 100,
            capabilities: models::GlobalCapabilities::from([
                models::GlobalCapability::CapSignatureWithId,
            ]),
        })
        .unwrap();
    config
        .set_validator_stake_params(&models::ValidatorStakeParams {
            min_stake: Tokens::new(100),
            max_stake: Tokens::new(1000),
            min_total_stake: Tokens::new(100),
            max_stake_factor: 3 << 16,
        })
        .unwrap();
    for (is_masterchain, gas_price) in [(true, 20_000 << 16), (false, 1_000 << 16)] {
        let prices = models::GasLimitsPrices {
            gas_price,
            gas_limit: 1,
            special_gas_limit: 1,
            gas_credit: 1,
            block_gas_limit: 1,
            freeze_due_limit: 1,
            delete_due_limit: 1,
            flat_gas_limit: 0,
            flat_gas_price: 0,
        };
        config.set_gas_prices(is_masterchain, &prices).unwrap();
    }
    config
        .set_election_timings(&models::ElectionTimings {
            validators_elected_for: 1,
            elections_start_before: 5_000,
            elections_end_before: 1_000,
            stake_held_for: 1,
        })
        .unwrap();
    let set = models::ValidatorSet {
        utime_since: 0,
        utime_until: 10_000,
        main: std::num::NonZeroU16::new(1).unwrap(),
        total_weight: 1,
        list: vec![models::ValidatorDescription {
            public_key: everscale_types::cell::HashBytes([1; 32]),
            weight: 1,
            adnl_addr: None,
            mc_seqno_since: 0,
            prev_total_weight: 0,
        }],
    };
    config
        .set_raw(34, CellBuilder::build_from(&set).unwrap())
        .unwrap();
    config
}

fn config() -> ParsedBlockchainConfig {
    let boc = BocRepr::encode(chain_config()).unwrap();
    ParsedBlockchainConfig::new(42, boc).unwrap()
}

#[test]
fn config_actions_follow_the_network() {
    let keys = KeyPair::from_secret(HashBytes([3; 32]));
    let mut builder = CellBuilder::new();
    builder.store_u32(42).unwrap();
    builder.store_raw(&keys.public.0, 256).unwrap();
    let account = ConfigAccount::Active {
        data: Some(Boc::encode(builder.build().unwrap())),
    };
    let value = Boc::encode(Cell::default());
    let action = || Action::SubmitParam {
        index: 8,
        value: value.clone(),
    };
    let addr = HashBytes([0x55; 32]);
    let boc = BocRepr::encode(chain_config()).unwrap();
    let made = make_config_action(7, &boc, &account, &addr, action(), &keys, 1_000, 40).unwrap();
    assert_eq!(made.1, 1_040);
    // the network binds signatures to its number
    let full = StdAddr {
        workchain: -1,
        address: addr,
    };
    let bound = create_message(42, &full, action(), &keys, Some(7), 1_000, 40).unwrap();
    let unbound = create_message(42, &full, action(), &keys, None, 1_000, 40).unwrap();
    assert_eq!(made, bound);
    assert_ne!(made, unbound);
    // what is wrong with the network comes first
    let frozen = ConfigAccount::Frozen;
    assert_eq!(
        make_config_action(7, &vec![1], &frozen, &addr, action(), &keys, 1_000, 40),
        Err(ActionError::NoGlobalVersion)
    );
    assert_eq!(
        make_config_action(7, &boc, &frozen, &addr, action(), &keys, 1_000, 40),
        Err(ActionError::AccountFrozen)
    );
    // a master key that is none is refused before all that
    let mut invalid = [0u8; 32];
    while everscale_crypto::ed25519::PublicKey::from_bytes(invalid).is_some() {
        invalid[0] += 1;
    }
    let no_key = || Action::UpdateMasterKey {
        pubkey: HashBytes(invalid),
    };
    assert!(!no_key().check_key());
    assert_eq!(
        make_config_action(7, &vec![1], &frozen, &addr, no_key(), &keys, 1_000, 40),
        Err(ActionError::InvalidPublicKey)
    );
    assert_eq!(
        create_message(42, &full, no_key(), &keys, None, 1_000, 40),
        Err(ActionError::InvalidPublicKey)
    );
}

#[test]
fn params_are_described() {
    let params = chain_config().params;
    let described = serde_json::to_value(&params).unwrap();
    for index in [1u32, 8, 17] {
        let text = described.get(index.to_string()).unwrap().to_string();
        match Action::submit_param(index, &text) {
            Ok(Action::SubmitParam { index: i, value }) => {
                assert_eq!(i, index);
                let cell = params.as_dict().get(index).unwrap().unwrap();
                assert_eq!(value, Boc::encode(cell));
            }
            other => panic!("{other:?}"),
        }
    }
    // of an unknown parameter the text is the cell itself
    let text = format!("\"{}\"", Boc::encode_base64(Cell::default()));
    match Action::submit_param(1_000, &text) {
        Ok(Action::SubmitParam { value, .. }) => {
            assert_eq!(value, Boc::encode(Cell::default()));
        }
        other => panic!("{other:?}"),
    }
    let version = described.get("8").unwrap().to_string();
    for (index, text) in [(8, "{"), (8, "1"), (1, version.as_str())] {
        assert_eq!(
            Action::submit_param(index, text).err(),
            Some(ActionError::InvalidParam)
        );
    }
}

#[test]
fn code_is_updated() {
    let mut builder = CellBuilder::new();
    builder.store_u32(0xc0de).unwrap();
    let code = Boc::encode(builder.build().unwrap());
    let mut builder = CellBuilder::new();
    builder.store_u32(0xa495).unwrap();
    let args = builder.build().unwrap();
    let text = Some(Boc::encode_base64(&args));
    match Action::update_code(true, code.clone(), &text) {
        Ok(Action::UpdateElectorCode { code: kept, params }) => {
            assert_eq!(kept, code);
            assert_eq!(params, Some(Boc::encode(&args)));
        }
        other => panic!("{other:?}"),
    }
    match Action::update_code(false, code.clone(), &None) {
        Ok(Action::UpdateConfigCode { code: kept, params }) => {
            assert_eq!((kept, params), (code.clone(), None));
        }
        other => panic!("{other:?}"),
    }
    assert_eq!(
        Action::update_code(true, vec![1], &text).err(),
        Some(ActionError::InvalidCode)
    );
    assert_eq!(
        Action::update_code(true, code, &Some("%".to_string())).err(),
        Some(ActionError::InvalidParams)
    );
    // the payload of a withdrawal is read alike
    assert_eq!(withdraw_payload(&text), Ok(Boc::encode(&args)));
    assert_eq!(withdraw_payload(&None), Ok(Boc::encode(Cell::default())));
    assert_eq!(
        withdraw_payload(&Some("%".to_string())),
        Err(TransferError::InvalidPayload)
    );
}

#[test]
fn configs_are_read() {
    let parsed = config();
    assert_eq!(parsed.elector_addr.workchain, -1);
    assert_eq!(parsed.elector_addr.address, HashBytes([0x33; 32]));
    assert_eq!(parsed.signature_id, Some(42));
    assert_eq!(
        parsed.stake_params,
        ValidatorStakeParams {
            min_stake: 100,
            max_stake: 1000,
            max_stake_factor: 3 << 16
        }
    );
    // parts that are missing
    let address = everscale_types::cell::HashBytes([0x55; 32]);
    let mut empty = BlockchainConfig::new_empty(address);
    let parse = |config: &BlockchainConfig| {
        ParsedBlockchainConfig::new(42, BocRepr::encode(config.clone()).unwrap())
    };
    assert_eq!(
        parse(&empty).err(),
        Some(ChainConfigError::NoElectorAddress)
    );
    empty.set_elector_address(&address).unwrap();
    assert_eq!(parse(&empty).err(), Some(ChainConfigError::NoGlobalVersion));
    empty
        .set_global_version(&models::GlobalVersion {
            version: 100,
            capabilities: models::GlobalCapabilities::new(0),
        })
        .unwrap();
    assert_eq!(parse(&empty).err(), Some(ChainConfigError::NoStakeParams));
    empty
        .set_validator_stake_params(&chain_config().get_validator_stake_params().unwrap())
        .unwrap();
    let parsed = parse(&empty).unwrap();
    assert_eq!(parsed.signature_id, None);
    assert_eq!(
        parsed.compute_price_factor(true),
        Err(ChainConfigError::NoGasPrices)
    );
    assert_eq!(
        parsed.compute_elections_timeline(1),
        Err(ChainConfigError::NoElectionTimings)
    );
    empty
        .set_election_timings(&chain_config().get_election_timings().unwrap())
        .unwrap();
    assert_eq!(
        parse(&empty).unwrap().compute_elections_timeline(1),
        Err(ChainConfigError::NoValidatorSet)
    );
}

#[test]
fn the_timeline_of_elections() {
    let config = config();
    assert_eq!(
        config.compute_elections_timeline(4_000),
        Ok(Timeline::BeforeElections {
            until_elections_start: 1_000
        })
    );
    assert_eq!(
        config.compute_elections_timeline(6_000),
        Ok(Timeline::Elections {
            since_elections_start: 1_000,
            until_elections_end: 3_000,
            elections_end: 9_000
        })
    );
    assert_eq!(
        elections_timeline(9_500, 10_000, 5_000, 1_000),
        Timeline::AfterElections {
            until_round_end: 500
        }
    );
    assert_eq!(
        elections_timeline(20_000, 10_000, 5_000, 1_000),
        Timeline::AfterElections { until_round_end: 0 }
    );
}

#[test]
fn stakes_have_limits() {
    let config = config();
    assert_eq!(config.check_stake(99), Err(StakeError::StakeTooSmall));
    assert_eq!(config.check_stake(100), Ok(()));
    assert_eq!(config.check_stake(1001), Err(StakeError::StakeTooBig));
    assert_eq!(config.compute_stake_factor(None), Ok(3 << 16));
    assert_eq!(config.compute_stake_factor(Some(1 << 16)), Ok(1 << 16));
    assert_eq!(
        config.compute_stake_factor(Some(1)),
        Err(StakeError::FactorTooSmall)
    );
    assert_eq!(
        config.compute_stake_factor(Some(4 << 16)),
        Err(StakeError::FactorTooBig)
    );
    assert_eq!(config.compute_price_factor(true), Ok(2 << 16));
    assert_eq!(config.compute_price_factor(false), Ok(1 << 16));

    let plan = plan_elect(&config, 500, None, true, false, false).unwrap();
    assert_eq!((plan.price_factor, plan.stake_factor), (2 << 16, 3 << 16));
    assert!(!plan.recover && plan.send_stake);
    let plan = plan_elect(&config, 500, None, true, true, true).unwrap();
    assert!(plan.recover && !plan.send_stake);
    assert_eq!(
        plan_elect(&config, 5000, None, true, true, true),
        Err(ElectError::Stake(StakeError::StakeTooBig))
    );
}

#[test]
fn a_stake_is_signed() {
    let keys = KeyPair::from_secret(HashBytes([4; 32]));
    let elector_addr = StdAddr {
        workchain: -1,
        address: HashBytes([0x33; 32]),
    };
    let ctx = ElectorMessage {
        elector_addr,
        wallet: HashBytes([5; 32]),
        node_keys: keys,
        election_id: 77,
        stake: 1000,
        stake_factor: 3 << 16,
        price_factor: 1 << 16,
        signature_id: None,
    };
    let data = build_elections_data_to_sign(77, 3 << 16, &ctx.wallet, &keys.public);
    assert_eq!(data.len(), 76);
    assert_eq!(data[..4], [0x65, 0x4c, 0x50, 0x74]);
    assert_eq!(data[4..8], 77u32.to_be_bytes());
    let input = make_participate_input(&ctx);
    assert_eq!(input.validator_key, keys.public);
    let message = make_elector_message(&ctx, vec![1, 2]);
    assert_eq!(message.to, elector_addr);
    assert_eq!(message.amount, Amount::Exact(1000 + ONE_CC));
    assert!(message.bounce);
    assert_eq!(message.payload, vec![1, 2]);
    let public = everscale_crypto::ed25519::PublicKey::from_bytes(keys.public.0).unwrap();
    assert!(public.verify_raw(&data, &input.signature.0));

    // bound to a network
    let mut bound = ctx;
    bound.signature_id = Some(2000);
    let input = make_participate_input(&bound);
    let mut extended = 2000i32.to_be_bytes().to_vec();
    extended.extend_from_slice(&data);
    assert!(public.verify_raw(&extended, &input.signature.0));
}

#[test]
fn a_stake_is_recovered() {
    let elector_addr = StdAddr {
        workchain: -1,
        address: HashBytes([0x33; 32]),
    };
    for (price_factor, amount) in [
        (60 << 16, 60_000_000_000),
        (1 << 16, 1_000_000_000),
        (1 << 15, 500_000_000),
    ] {
        let message = make_recover_msg(elector_addr, price_factor, vec![7]);
        assert_eq!(message.to, elector_addr);
        assert_eq!(message.amount, Amount::Exact(amount));
        assert!(message.bounce);
        assert_eq!(message.payload, vec![7]);
    }
}

#[test]
fn a_stake_is_added_to() {
    let wallet = HashBytes([5; 32]);
    let adnl = HashBytes([6; 32]);
    let member = Member {
        src_addr: wallet,
        msg_value: 400,
        adnl_addr: adnl,
        stake_factor: 9,
    };
    let plan = plan_stake(1000, 9, &wallet, &adnl, None, 0).unwrap();
    assert_eq!((plan.existing_stake, plan.stake_diff, plan.send), (0, 1000, true));
    let plan = plan_stake(1000, 9, &wallet, &adnl, Some(&member), 10_000).unwrap();
    assert_eq!((plan.existing_stake, plan.stake_diff, plan.send), (400, 600, true));
    // nothing to add or to change
    let plan = plan_stake(400, 9, &wallet, &adnl, Some(&member), 10_000).unwrap();
    assert!(!plan.send);
    // the factor changes, but nothing is added
    assert_eq!(
        plan_stake(400, 8, &wallet, &adnl, Some(&member), 10_000),
        Err(StakeError::DiffTooSmall)
    );
    assert_eq!(
        plan_stake(400, 9, &adnl, &adnl, Some(&member), 0),
        Err(StakeError::ForeignMember)
    );
}

const FLAGS: SendFlags = SendFlags {
    simple_send: 3,
    separate_send: 1,
    send_all: 128,
};

fn account(balance: u128, status: AccountStatus) -> Option<AccountInfo> {
    Some(AccountInfo { balance, status })
}

#[test]
fn transfers() {
    let args = TransferArgs {
        wait_balance: true,
        ignore_delivery: false,
        ttl: 30,
    };
    let params = args.into_params(1 << 16);
    assert_eq!(
        params,
        TransferParams {
            reserve: ONE_CC / 2,
            timeout: 30,
            wait_for_balance: true,
            wait_for_delivery: true
        }
    );
    assert_eq!(TransferParams::reliable(2 << 16).reserve, ONE_CC);
    let mut params = params;
    params.reserve = 10;
    assert_eq!(
        on_account(Amount::Exact(100), &FLAGS, &params, None),
        Err(TransferError::NoAccount)
    );
    assert_eq!(
        on_account(Amount::Exact(100), &FLAGS, &params, account(109, AccountStatus::Active)),
        Ok(TransferStep::WaitForBalance)
    );
    params.wait_for_balance = false;
    assert_eq!(
        on_account(Amount::Exact(100), &FLAGS, &params, account(109, AccountStatus::Active)),
        Err(TransferError::InsufficientBalance {
            balance: 109,
            target_balance: 110
        })
    );
    assert_eq!(
        on_account(Amount::Exact(100), &FLAGS, &params, account(110, AccountStatus::Uninit)),
        Ok(TransferStep::Send {
            value: 100,
            flags: 3,
            deploy: true
        })
    );
    assert_eq!(
        on_account(Amount::AllBut(20), &FLAGS, &params, account(110, AccountStatus::Active)),
        Ok(TransferStep::Send {
            value: 80,
            flags: 1,
            deploy: false
        })
    );
    assert_eq!(
        on_account(Amount::All, &FLAGS, &params, account(110, AccountStatus::Active)),
        Ok(TransferStep::Send {
            value: 0,
            flags: 128,
            deploy: false
        })
    );
    assert_eq!(
        on_account(Amount::All, &FLAGS, &params, account(110, AccountStatus::Frozen)),
        Err(TransferError::Frozen)
    );
}

#[test]
fn withdrawals() {
    assert_eq!(withdraw_amount(None, false, false), Amount::All);
    assert_eq!(withdraw_amount(Some(5), true, false), Amount::All);
    assert_eq!(withdraw_amount(Some(5), false, true), Amount::AllBut(5));
    assert_eq!(withdraw_amount(Some(5), false, false), Amount::Exact(5));
}

#[test]
fn deliveries() {
    assert_eq!(compute_expire_at(5_999, 40), 45);
    assert_eq!(compute_expire_at(5_000, 0), 6);
    assert_eq!(compute_expire_at(5_000, 1_000), 65);
    let message = SentMessage {
        timestamp: 5_000,
        hash: HashBytes([1; 32]),
        expire_at: 45,
    };
    assert_eq!(check_delivered(&message, Some(5_000), 50), Ok(true));
    assert_eq!(check_delivered(&message, Some(4_999), 45), Ok(false));
    assert_eq!(
        check_delivered(&message, None, 46),
        Err(TransferError::NotDelivered)
    );
    assert_eq!(choose_client(true, false, false), ClientKind::Jrpc);
    assert_eq!(choose_client(true, false, true), ClientKind::Control);
    assert_eq!(choose_client(true, true, true), ClientKind::Jrpc);
    assert_eq!(choose_client(false, true, false), ClientKind::Control);
}

#[test]
fn messages_to_a_wallet() {
    let address = StdAddr {
        workchain: -1,
        address: HashBytes([0x44; 32]),
    };
    let mut builder = CellBuilder::new();
    builder.store_u32(0xabcd).unwrap();
    let body = Boc::encode(builder.build().unwrap());
    let (boc, sent) = make_message(&address, &None, &body, 5_000, 45).unwrap();
    assert_eq!((sent.timestamp, sent.expire_at), (5_000, 45));
    let cell = Boc::decode(&boc).unwrap();
    assert_eq!(sent.hash.0, cell.repr_hash().0);
    let message = cell.parse::<models::Message>().unwrap();
    assert!(message.init.is_none());
    let mut slice = message.body;
    assert_eq!(slice.load_u32().unwrap(), 0xabcd);
    match message.info {
        models::MsgInfo::ExtIn(info) => {
            let dst = everscale_types::cell::HashBytes(address.address.0);
            assert_eq!(info.dst, models::StdAddr::new(-1, dst).into());
        }
        _ => panic!("not an external message"),
    }
    // to another workchain
    let elsewhere = StdAddr {
        workchain: 0,
        ..address
    };
    let (other, _sent) = make_message(&elsewhere, &None, &body, 5_000, 45).unwrap();
    let cell = Boc::decode(&other).unwrap();
    match cell.parse::<models::Message>().unwrap().info {
        models::MsgInfo::ExtIn(info) => {
            let dst = everscale_types::cell::HashBytes(address.address.0);
            assert_eq!(info.dst, models::StdAddr::new(0, dst).into());
        }
        _ => panic!("not an external message"),
    }
    // with the initial state
    let state = models::StateInit {
        code: Some(Cell::default()),
        ..Default::default()
    };
    let init = Some(BocRepr::encode(&state).unwrap());
    let (boc, deployed) = make_message(&address, &init, &body, 5_000, 45).unwrap();
    assert_ne!(deployed.hash, sent.hash);
    let cell = Boc::decode(&boc).unwrap();
    let message = cell.parse::<models::Message>().unwrap();
    assert_eq!(message.init, Some(state));
    // parts that are no bags of cells
    assert_eq!(
        make_message(&address, &None, &vec![1], 5_000, 45).err(),
        Some(TransferError::InvalidMessage)
    );
    assert_eq!(
        make_message(&address, &Some(vec![1]), &body, 5_000, 45).err(),
        Some(TransferError::InvalidMessage)
    );

    // the time is behind the public key
    let mut builder = CellBuilder::new();
    builder.store_raw(&[9; 32], 256).unwrap();
    builder.store_u64(5_000).unwrap();
    let data = Some(Boc::encode(builder.build().unwrap()));
    assert_eq!(check_wallet_data(&sent, &data, 50), Ok(true));
    let short = Some(Boc::encode(Cell::default()));
    assert_eq!(check_wallet_data(&sent, &short, 45), Ok(false));
    assert_eq!(
        check_wallet_data(&sent, &None, 46),
        Err(TransferError::NotDelivered)
    );
}

fn run_config() -> RunConfig {
    RunConfig {
        stake_unfreeze_offset: 10,
        elections_start_offset: 600,
        elections_end_offset: 120,
        disable_random_shift: false,
    }
}

fn elections(since: u32, until: u32) -> Observed {
    Observed {
        now: 1_000,
        gen_utime: 990,
        timeline: Timeline::Elections {
            since_elections_start: since,
            until_elections_end: until,
            elections_end: 1_000 + until,
        },
        has_elections: true,
    }
}

#[test]
fn the_course_of_a_validator() {
    let config = run_config();
    let mut state = RunState::new();
    assert_eq!(state.begin(), (false, 10));
    assert_eq!(state.begin().0, true);

    // before the elections
    let before = Observed {
        now: 1_000,
        gen_utime: 990,
        timeline: Timeline::BeforeElections {
            until_elections_start: 50,
        },
        has_elections: false,
    };
    assert_eq!(state.on_observed(&config, &before, 0), Step::Wait);
    assert_eq!(state.interval, 650);

    // a quarter of the time between the offsets
    let seen = elections(100, 3_900);
    assert_eq!(
        state.range_to_draw(&config, &seen.timeline),
        Some((4_000 - 120 - 600) / 4)
    );
    assert_eq!(state.on_observed(&config, &seen, 50), Step::Wait);
    assert_eq!(state.interval, 550);
    assert_eq!(state.random_shift, Some(50));
    // it was drawn and stays
    assert_eq!(state.range_to_draw(&config, &seen.timeline), None);
    let seen = elections(700, 3_300);
    assert_eq!(
        state.on_observed(&config, &seen, 800),
        Step::Participate {
            elections_end: 4_300
        }
    );
    // too late
    let seen = elections(3_900, 100);
    assert_eq!(state.on_observed(&config, &seen, 0), Step::Wait);
    assert_eq!(state.interval, 20);
    // the elector knows of no elections
    let mut seen = elections(700, 3_300);
    seen.has_elections = false;
    assert_eq!(state.on_observed(&config, &seen, 0), Step::Wait);
    assert_eq!(state.interval, 60);

    // the elections have failed
    let after = Observed {
        now: 1_000,
        gen_utime: 990,
        timeline: Timeline::AfterElections { until_round_end: 0 },
        has_elections: true,
    };
    assert_eq!(
        state.on_observed(&config, &after, 0),
        Step::Participate {
            elections_end: 990 + 10 + 300
        }
    );
}

#[test]
fn frozen_stakes_and_deadlines() {
    let config = run_config();
    let mut state = RunState::new();
    assert_eq!(state.on_frozen(&config, 2_000, Some(1_100), 1_000, 5), Step::Wait);
    assert_eq!(state.interval, 115);
    // they unfreeze too late, or have done so
    for at in [1_900, 900] {
        assert_eq!(
            state.on_frozen(&config, 2_000, Some(at), 1_000, 5),
            Step::Participate {
                elections_end: 2_000
            }
        );
    }
    assert_eq!(
        state.on_frozen(&config, 2_000, None, 1_000, 5),
        Step::Participate {
            elections_end: 2_000
        }
    );
    state.finish(2_000, 1_500);
    assert_eq!(state.interval, 500);
    state.finish(2_000, 1_990);
    assert_eq!(state.interval, 60);
    assert_eq!(compute_time_diff(1_000, 990), 10);
    assert_eq!(compute_time_diff(1_000, 1_100), 0);
    assert_eq!(compute_time_diff(10_000, 0), 600);
    assert_eq!(compute_deadline(&config, 2_000, 1_000), 880);
    assert_eq!(compute_deadline(&config, 2_000, 1_900), 60);
}
