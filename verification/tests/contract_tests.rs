use seints_token::contract::{balance, execute, pool_release_info, query, token_info, vesting_info};
use seints_token::distribution::{instantiate, SECONDS_PER_HALF_YEAR, SECONDS_PER_YEAR};
use seints_token::error::ContractError;
use seints_token::msg::{ExecuteMsg, InstantiateMsg, QueryAnswer, QueryMsg};
use seints_token::state::{State, TokenInfo};

const START: u64 = 1_600_000_000;
const METADATA_URL: &str =
    "https://bafybeie6fkezbdf3pkioodnvuhjjhjrllcvxovhtam2z7d3qhnur4n4oy4.ipfs.w3s.link/logo.webp";

fn init_msg() -> InstantiateMsg {
    InstantiateMsg {
        name: "$SEINTS".to_string(),
        symbol: "SEINTS".to_string(),
        decimals: 6,
        initial_supply: 1_000_000_000,
        team_address: "team".to_string(),
        pool_address: "pool".to_string(),
        metadata_url: METADATA_URL.to_string(),
    }
}

fn setup() -> State {
    let (state, _res) = instantiate(START, &"creator".to_string(), init_msg()).unwrap();
    state
}

#[test]
fn proper_initialization() {
    let (state, res) = instantiate(START, &"creator".to_string(), init_msg()).unwrap();
    assert_eq!(4, res.attributes.len());
    assert_eq!(res.attributes[0], ("method".to_string(), "instantiate".to_string()));
    assert_eq!(res.attributes[2], ("total_supply".to_string(), "1000000000".to_string()));

    // Verify token info
    let token_info = match query(&state, QueryMsg::GetTokenInfo {}).unwrap() {
        QueryAnswer::TokenInfo(t) => t,
        _ => panic!("wrong answer variant"),
    };
    assert_eq!("$SEINTS", token_info.name);
    assert_eq!("SEINTS", token_info.symbol);
    assert_eq!(6, token_info.decimals);
    assert_eq!(1_000_000_000u128, token_info.total_supply);

    // Verify metadata URL
    let metadata = match query(&state, QueryMsg::GetMetadata {}).unwrap() {
        QueryAnswer::Metadata(m) => m,
        _ => panic!("wrong answer variant"),
    };
    assert_eq!(METADATA_URL, metadata.metadata_url);

    // Verify balances
    let team_balance = balance(&state, &"team".to_string());
    assert_eq!(200_000_000u128, team_balance); // 20% of 1 billion

    let pool_balance = balance(&state, &"pool".to_string());
    assert_eq!(400_000_000u128, pool_balance); // 40% of 1 billion
}

#[test]
fn transfer_works() {
    let mut state = setup();
    let creator = "creator".to_string();

    // The owner bucket is fully locked at creation; release it after the
    // last vesting entry so the creator holds 300M spendable.
    execute(&mut state, START + 3 * SECONDS_PER_YEAR, &creator, ExecuteMsg::ReleaseVested {})
        .unwrap();

    // Transfer tokens
    let transfer_msg = ExecuteMsg::Transfer { recipient: "recipient".to_string(), amount: 100 };
    let res = execute(&mut state, START + 3 * SECONDS_PER_YEAR, &creator, transfer_msg).unwrap();
    assert_eq!(res.attributes.len(), 4);
    assert_eq!(res.attributes[0], ("method".to_string(), "transfer".to_string()));
    assert_eq!(res.attributes[3], ("amount".to_string(), "100".to_string()));

    // Verify balances
    let creator_balance = balance(&state, &creator);
    assert_eq!(299_999_900u128, creator_balance); // 300M - 100

    let recipient_balance = balance(&state, &"recipient".to_string());
    assert_eq!(100u128, recipient_balance);
}

#[test]
fn burn_works() {
    let mut state = setup();
    let creator = "creator".to_string();
    execute(&mut state, START + 3 * SECONDS_PER_YEAR, &creator, ExecuteMsg::ReleaseVested {})
        .unwrap();

    // Burn tokens
    let burn_msg = ExecuteMsg::Burn { amount: 100 };
    let res = execute(&mut state, START + 3 * SECONDS_PER_YEAR, &creator, burn_msg).unwrap();
    assert_eq!(res.attributes.len(), 3);

    // Verify balances and total supply
    let creator_balance = balance(&state, &creator);
    assert_eq!(299_999_900u128, creator_balance); // 300M - 100

    let info = token_info(&state);
    assert_eq!(999_999_900u128, info.total_supply); // 1B - 100
}

#[test]
fn release_vested_works() {
    let mut state = setup();
    let creator = "creator".to_string();

    // Advance time to the first vesting release
    let now = START + SECONDS_PER_YEAR;

    // Release vested tokens
    let res = execute(&mut state, now, &creator, ExecuteMsg::ReleaseVested {}).unwrap();
    assert_eq!(res.attributes.len(), 2);
    assert_eq!(res.attributes[1], ("amount".to_string(), "100000000".to_string()));

    // Verify balances: the first third of the 300M owner bucket unlocks
    let creator_balance = balance(&state, &creator);
    assert_eq!(100_000_000u128, creator_balance);

    // Verify vesting schedule
    let info = vesting_info(&state, &creator).unwrap();
    assert_eq!(info.release_schedule.len(), 2); // 2 releases remaining
}

#[test]
fn release_pool_works() {
    let mut state = setup();
    let pool = "pool".to_string();

    // Advance time to the first pool release
    let now = START + SECONDS_PER_HALF_YEAR;

    // Release pool tokens
    let res = execute(&mut state, now, &pool, ExecuteMsg::ReleasePool {}).unwrap();
    assert_eq!(res.attributes.len(), 2);

    // Verify balances: 400M upfront plus half of the 100M locked remainder
    let pool_balance = balance(&state, &pool);
    assert_eq!(450_000_000u128, pool_balance);

    // Verify pool release schedule
    let info = pool_release_info(&state, &pool).unwrap();
    assert_eq!(info.release_schedule.len(), 2); // 2 releases remaining
}

#[test]
fn update_metadata_works() {
    let mut state = setup();
    let creator = "creator".to_string();

    // Update metadata
    let update_msg = ExecuteMsg::UpdateMetadata {
        metadata_url: "https://new-metadata-url.ipfs.w3s.link/logo.webp".to_string(),
    };
    let res = execute(&mut state, START, &creator, update_msg).unwrap();
    assert_eq!(res.attributes.len(), 2);

    // Verify metadata URL
    let metadata = match query(&state, QueryMsg::GetMetadata {}).unwrap() {
        QueryAnswer::Metadata(m) => m,
        _ => panic!("wrong answer variant"),
    };
    assert_eq!("https://new-metadata-url.ipfs.w3s.link/logo.webp", metadata.metadata_url);
}

#[test]
fn test_transfer() {
    // A ledger where USER holds 80% of a larger fixed supply.
    const USER: &str = "USER";
    let mut state = State {
        token_info: TokenInfo {
            name: "SEINT".to_string(),
            symbol: "SEINT".to_string(),
            decimals: 6,
            total_supply: 1_000_000_000_000_000,
            owner: "ADMIN".to_string(),
        },
        balances: vec![
            (USER.to_string(), 800_000_000_000_000),
            ("reserve".to_string(), 200_000_000_000_000),
        ],
        vesting: Vec::new(),
        pool_release_schedule: Vec::new(),
        metadata_url: "https://example.com/meta".to_string(),
    };

    // Transfer 100 units from USER to another address
    let recipient = "recipient".to_string();
    let msg = ExecuteMsg::Transfer { recipient: recipient.clone(), amount: 100 };
    execute(&mut state, START, &USER.to_string(), msg).unwrap();

    // Check balances
    let recipient_balance = balance(&state, &recipient);
    assert_eq!(recipient_balance, 100u128);

    let user_balance = balance(&state, &USER.to_string());
    assert_eq!(user_balance, 800_000_000_000_000u128 - 100); // 80% of total supply minus transferred amount
}

#[test]
fn transfer_from_large_holder_conserves_supply() {
    // One account holds the whole 10^15 supply; moving 100 units changes
    // exactly the two balances involved and never the supply.
    let holder = "whale".to_string();
    let mut state = State {
        token_info: TokenInfo {
            name: "SEINT".to_string(),
            symbol: "SEINT".to_string(),
            decimals: 6,
            total_supply: 1_000_000_000_000_000,
            owner: "ADMIN".to_string(),
        },
        balances: vec![(holder.clone(), 1_000_000_000_000_000)],
        vesting: Vec::new(),
        pool_release_schedule: Vec::new(),
        metadata_url: "https://example.com/meta".to_string(),
    };
    let msg = ExecuteMsg::Transfer { recipient: "fresh".to_string(), amount: 100 };
    execute(&mut state, START, &holder, msg).unwrap();
    assert_eq!(balance(&state, &holder), 999_999_999_999_900u128);
    assert_eq!(balance(&state, &"fresh".to_string()), 100u128);
    assert_eq!(token_info(&state).total_supply, 1_000_000_000_000_000u128);
}

#[test]
fn distribution_allocates_whole_supply() {
    // 20/50/30 split of 1,000,000,000 with the pool sub-split: team 200M
    // immediate, pool 400M immediate + 100M locked, owner 300M locked.
    let state = setup();
    assert_eq!(balance(&state, &"team".to_string()), 200_000_000u128);
    assert_eq!(balance(&state, &"pool".to_string()), 400_000_000u128);
    assert_eq!(balance(&state, &"creator".to_string()), 0u128);
    let owner_locked = vesting_info(&state, &"creator".to_string()).unwrap().amount;
    assert_eq!(owner_locked, 300_000_000u128);
    let pool_locked = pool_release_info(&state, &"pool".to_string()).unwrap().amount;
    assert_eq!(pool_locked, 100_000_000u128);
    assert_eq!(
        200_000_000u128 + 400_000_000 + 100_000_000 + 300_000_000,
        token_info(&state).total_supply
    );
}

#[test]
fn release_applies_exactly_one_due_entry() {
    // Advancing past exactly one unlock entry releases exactly its amount,
    // drops exactly that entry, and reduces the locked amount to match.
    let mut state = setup();
    let creator = "creator".to_string();
    let before = vesting_info(&state, &creator).unwrap();
    assert_eq!(before.release_schedule.len(), 3);
    assert_eq!(before.amount, 300_000_000u128);

    execute(&mut state, START + SECONDS_PER_YEAR, &creator, ExecuteMsg::ReleaseVested {}).unwrap();

    let after = vesting_info(&state, &creator).unwrap();
    assert_eq!(after.release_schedule.len(), 2);
    assert_eq!(after.amount, 200_000_000u128);
    assert_eq!(balance(&state, &creator), 100_000_000u128);
}

#[test]
fn release_boundary_is_inclusive() {
    // One second before the unlock time nothing is due; at exactly the
    // unlock time the entry is included.
    let mut state = setup();
    let creator = "creator".to_string();

    execute(&mut state, START + SECONDS_PER_YEAR - 1, &creator, ExecuteMsg::ReleaseVested {})
        .unwrap();
    assert_eq!(balance(&state, &creator), 0u128);
    assert_eq!(vesting_info(&state, &creator).unwrap().release_schedule.len(), 3);
    assert_eq!(vesting_info(&state, &creator).unwrap().amount, 300_000_000u128);

    execute(&mut state, START + SECONDS_PER_YEAR, &creator, ExecuteMsg::ReleaseVested {}).unwrap();
    assert_eq!(balance(&state, &creator), 100_000_000u128);
    assert_eq!(vesting_info(&state, &creator).unwrap().release_schedule.len(), 2);
}

#[test]
fn release_twice_is_idempotent() {
    // A second release with no elapsed-time change releases zero and
    // leaves the schedule state unchanged.
    let mut state = setup();
    let creator = "creator".to_string();
    let now = START + SECONDS_PER_YEAR;

    execute(&mut state, now, &creator, ExecuteMsg::ReleaseVested {}).unwrap();
    let first = vesting_info(&state, &creator).unwrap();
    let first_balance = balance(&state, &creator);

    execute(&mut state, now, &creator, ExecuteMsg::ReleaseVested {}).unwrap();
    let second = vesting_info(&state, &creator).unwrap();
    assert_eq!(balance(&state, &creator), first_balance);
    assert_eq!(second, first);
}

#[test]
fn release_covers_skipped_unlocks() {
    // A release long after several unlock times applies all of them at
    // once, and the schedule then stays exhausted.
    let mut state = setup();
    let creator = "creator".to_string();
    let late = START + 3 * SECONDS_PER_YEAR;

    execute(&mut state, late, &creator, ExecuteMsg::ReleaseVested {}).unwrap();
    assert_eq!(balance(&state, &creator), 300_000_000u128);
    let info = vesting_info(&state, &creator).unwrap();
    assert_eq!(info.release_schedule.len(), 0);
    assert_eq!(info.amount, 0u128);

    execute(&mut state, late, &creator, ExecuteMsg::ReleaseVested {}).unwrap();
    assert_eq!(balance(&state, &creator), 300_000_000u128);
}

#[test]
fn release_pool_full_schedule() {
    // The pool remainder unlocks 50M / 25M / 25M at six-month steps.
    let mut state = setup();
    let pool = "pool".to_string();

    execute(&mut state, START + 2 * SECONDS_PER_HALF_YEAR, &pool, ExecuteMsg::ReleasePool {})
        .unwrap();
    assert_eq!(balance(&state, &pool), 475_000_000u128);

    execute(&mut state, START + 3 * SECONDS_PER_HALF_YEAR, &pool, ExecuteMsg::ReleasePool {})
        .unwrap();
    assert_eq!(balance(&state, &pool), 500_000_000u128);
    assert_eq!(pool_release_info(&state, &pool).unwrap().amount, 0u128);
}

#[test]
fn self_transfer_validates_balance() {
    let mut state = setup();
    let team = "team".to_string();

    // A self-transfer still requires a sufficient balance...
    let err = execute(
        &mut state,
        START,
        &team,
        ExecuteMsg::Transfer { recipient: "team".to_string(), amount: 200_000_001 },
    )
    .unwrap_err();
    assert!(matches!(err, ContractError::InsufficientBalance { .. }));

    // ...and a covered one is a net no-op.
    execute(
        &mut state,
        START,
        &team,
        ExecuteMsg::Transfer { recipient: "team".to_string(), amount: 200_000_000 },
    )
    .unwrap();
    assert_eq!(balance(&state, &team), 200_000_000u128);
}

#[test]
fn transfer_insufficient_balance_changes_nothing() {
    let mut state = setup();
    let creator = "creator".to_string();

    // Nothing of the owner bucket is spendable at creation.
    let err = execute(
        &mut state,
        START,
        &creator,
        ExecuteMsg::Transfer { recipient: "recipient".to_string(), amount: 1 },
    )
    .unwrap_err();
    assert!(matches!(
        err,
        ContractError::InsufficientBalance { required: 1, available: 0 }
    ));
    assert_eq!(balance(&state, &"team".to_string()), 200_000_000u128);
    assert_eq!(balance(&state, &"recipient".to_string()), 0u128);
}

#[test]
fn burn_insufficient_balance_fails() {
    let mut state = setup();
    let err = execute(&mut state, START, &"nobody".to_string(), ExecuteMsg::Burn { amount: 5 })
        .unwrap_err();
    assert!(matches!(err, ContractError::InsufficientBalance { required: 5, available: 0 }));
    assert_eq!(token_info(&state).total_supply, 1_000_000_000u128);
}

#[test]
fn instantiate_rejects_bad_decimals() {
    let mut msg = init_msg();
    msg.decimals = 19;
    let err = instantiate(START, &"creator".to_string(), msg).unwrap_err();
    assert!(matches!(err, ContractError::InvalidDecimals { decimals: 19 }));
}

#[test]
fn instantiate_rejects_bad_supply() {
    let mut msg = init_msg();
    msg.initial_supply = 500_000_000;
    let err = instantiate(START, &"creator".to_string(), msg).unwrap_err();
    assert!(matches!(
        err,
        ContractError::InvalidInitialSupply { expected: 1_000_000_000, actual: 500_000_000 }
    ));
}

#[test]
fn instantiate_rejects_duplicate_addresses() {
    let mut msg = init_msg();
    msg.pool_address = "team".to_string();
    let err = instantiate(START, &"creator".to_string(), msg).unwrap_err();
    assert!(matches!(err, ContractError::DuplicateAddresses { .. }));

    let mut msg = init_msg();
    msg.team_address = "creator".to_string();
    let err = instantiate(START, &"creator".to_string(), msg).unwrap_err();
    assert!(matches!(err, ContractError::DuplicateAddresses { .. }));
}

#[test]
fn instantiate_rejects_bad_url() {
    let mut msg = init_msg();
    msg.metadata_url = "invalid_url".to_string();
    let err = instantiate(START, &"creator".to_string(), msg).unwrap_err();
    match err {
        ContractError::InvalidMetadata { url } => assert_eq!(url, "invalid_url"),
        other => panic!("wrong error: {:?}", other),
    }
}

#[test]
fn update_metadata_rejects_non_owner() {
    let mut state = setup();
    let err = execute(
        &mut state,
        START,
        &"mallory".to_string(),
        ExecuteMsg::UpdateMetadata { metadata_url: "https://example.com/new".to_string() },
    )
    .unwrap_err();
    assert!(matches!(err, ContractError::Unauthorized {}));
    let metadata = match query(&state, QueryMsg::GetMetadata {}).unwrap() {
        QueryAnswer::Metadata(m) => m,
        _ => panic!("wrong answer variant"),
    };
    assert_eq!(METADATA_URL, metadata.metadata_url);
}

#[test]
fn update_metadata_rejects_bad_url() {
    let mut state = setup();
    let err = execute(
        &mut state,
        START,
        &"creator".to_string(),
        ExecuteMsg::UpdateMetadata { metadata_url: "not a url".to_string() },
    )
    .unwrap_err();
    assert!(matches!(err, ContractError::InvalidMetadata { .. }));
}

#[test]
fn release_without_schedule_is_not_found() {
    let mut state = setup();
    let err = execute(&mut state, START, &"team".to_string(), ExecuteMsg::ReleaseVested {})
        .unwrap_err();
    assert!(matches!(err, ContractError::NotFound {}));

    let err = execute(&mut state, START, &"creator".to_string(), ExecuteMsg::ReleasePool {})
        .unwrap_err();
    assert!(matches!(err, ContractError::NotFound {}));
}

#[test]
fn queries_on_unknown_addresses() {
    let state = setup();
    // An address that never held tokens reads as zero...
    assert_eq!(balance(&state, &"nobody".to_string()), 0u128);
    // ...but a missing schedule is an error, distinct from an exhausted one.
    assert!(vesting_info(&state, &"nobody".to_string()).is_err());
    assert!(pool_release_info(&state, &"nobody".to_string()).is_err());
}

#[test]
fn query_balance_answer() {
    let state = setup();
    let answer = query(&state, QueryMsg::GetBalance { address: "team".to_string() }).unwrap();
    assert_eq!(answer, QueryAnswer::Balance(200_000_000));
}
