use lez_events::token::{
    mint, try_mint, Account, AccountId, AccountPostState, AccountWithMetadata, Claim, MintError,
    TokenData, TokenDefinition, TokenHolding,
};

const DEFINITION: AccountId = AccountId { value: [15; 32] };
const AUTHORITY: AccountId = AccountId { value: [16; 32] };
const HOLDER: AccountId = AccountId { value: [17; 32] };

fn fungible(total_supply: u128) -> TokenDefinition {
    TokenDefinition::Fungible {
        name: "test".to_owned(),
        total_supply,
        metadata_id: None,
        mint_authority: Some(AUTHORITY),
    }
}

fn definition_account(definition: Option<TokenDefinition>) -> AccountWithMetadata {
    AccountWithMetadata {
        account: Account { is_default: false, definition, holding: None, zeroized: None },
        is_authorized: true,
        account_id: DEFINITION,
    }
}

fn holding_account(holding: Option<TokenHolding>) -> AccountWithMetadata {
    AccountWithMetadata {
        account: Account { is_default: false, definition: None, holding, zeroized: None },
        is_authorized: false,
        account_id: HOLDER,
    }
}

fn new_account() -> AccountWithMetadata {
    AccountWithMetadata {
        account: Account {
            is_default: true,
            definition: None,
            holding: None,
            zeroized: Some(holding(0)),
        },
        is_authorized: false,
        account_id: HOLDER,
    }
}

fn holding(balance: u128) -> TokenHolding {
    TokenHolding::Fungible { definition_id: DEFINITION, balance }
}

fn supply_of(state: &AccountPostState) -> u128 {
    match &state.data {
        TokenData::Definition(TokenDefinition::Fungible { total_supply, .. }) => *total_supply,
        _ => panic!("not a fungible definition"),
    }
}

fn balance_of(state: &AccountPostState) -> u128 {
    match &state.data {
        TokenData::Holding(TokenHolding::Fungible { balance, .. }) => *balance,
        _ => panic!("not a fungible holding"),
    }
}

fn refusal(definition: AccountWithMetadata, holder: AccountWithMetadata, amount: u128) -> MintError {
    try_mint(definition, holder, amount).unwrap_err()
}

#[test]
fn minting_adds_to_both_accounts() {
    let states = mint(
        definition_account(Some(fungible(100_000))),
        holding_account(Some(holding(1_000))),
        50_000,
    );
    assert_eq!(states.len(), 2);
    assert_eq!(supply_of(&states[0]), 150_000);
    assert_eq!(balance_of(&states[1]), 51_000);
    assert_eq!(states[0].claim_if_default, None);
    assert_eq!(states[1].claim_if_default, Some(Claim::Authorized));
}

#[test]
fn minting_keeps_the_rest_of_the_definition() {
    let metadata = AccountId { value: [9; 32] };
    let definition = TokenDefinition::Fungible {
        name: "kept".to_owned(),
        total_supply: 1,
        metadata_id: Some(metadata),
        mint_authority: Some(AUTHORITY),
    };
    let states =
        try_mint(definition_account(Some(definition)), holding_account(Some(holding(1))), 1).unwrap();
    match &states[0].data {
        TokenData::Definition(TokenDefinition::Fungible {
            name,
            total_supply,
            metadata_id,
            mint_authority,
        }) => {
            assert_eq!(name, "kept");
            assert_eq!(*total_supply, 2);
            assert_eq!(*metadata_id, Some(metadata));
            assert_eq!(*mint_authority, Some(AUTHORITY));
        }
        _ => panic!("not a fungible definition"),
    }
}

#[test]
fn minting_into_an_unused_account() {
    let states =
        try_mint(definition_account(Some(fungible(100_000))), new_account(), 50_000).unwrap();
    assert_eq!(supply_of(&states[0]), 150_000);
    match &states[1].data {
        TokenData::Holding(TokenHolding::Fungible { definition_id, balance }) => {
            assert_eq!(*definition_id, DEFINITION);
            assert_eq!(*balance, 50_000);
        }
        _ => panic!("not a fungible holding"),
    }
}

#[test]
fn minting_needs_authorization() {
    let mut account = definition_account(Some(fungible(1)));
    account.is_authorized = false;
    let e = refusal(account, holding_account(Some(holding(1))), 1);
    assert_eq!(e, MintError::Unauthorized);
    assert_eq!(
        e.message(),
        "Definition authorization is missing; only the mint authority can mint"
    );
}

#[test]
fn minting_needs_a_definition() {
    let e = refusal(definition_account(None), new_account(), 1);
    assert_eq!(e, MintError::InvalidDefinition);
    assert_eq!(e.message(), "Token Definition account must be valid");
}

#[test]
fn revoked_authority_means_fixed_supply() {
    let definition = TokenDefinition::Fungible {
        name: "fixed".to_owned(),
        total_supply: 1,
        metadata_id: None,
        mint_authority: None,
    };
    let e = refusal(definition_account(Some(definition)), holding_account(None), 0);
    assert_eq!(e, MintError::AuthorityRevoked);
    assert_eq!(e.message(), "Mint authority has been revoked; this token has a fixed supply");
}

#[test]
fn minting_needs_a_holding() {
    let e = refusal(definition_account(Some(fungible(1))), holding_account(None), 1);
    assert_eq!(e, MintError::InvalidHolding);
    assert_eq!(e.message(), "Token Holding account must be valid");
}

#[test]
fn holding_of_another_token_is_refused() {
    let mut value = [15; 32];
    value[31] = 14;
    let other = TokenHolding::Fungible { definition_id: AccountId { value }, balance: 1 };
    let e = refusal(definition_account(Some(fungible(1))), holding_account(Some(other)), 1);
    assert_eq!(e, MintError::DefinitionMismatch);
    assert_eq!(e.message(), "Mismatch Token Definition and Token Holding");
}

#[test]
fn overflow_of_the_balance_comes_first() {
    let e = refusal(
        definition_account(Some(fungible(u128::MAX))),
        holding_account(Some(holding(u128::MAX))),
        1,
    );
    assert_eq!(e, MintError::BalanceOverflow);
    assert_eq!(e.message(), "Balance overflow on minting");
}

#[test]
fn overflow_of_the_supply() {
    let definition = definition_account(Some(fungible(u128::MAX - 1)));
    let states =
        try_mint(definition.clone(), holding_account(Some(holding(1))), 1).unwrap();
    assert_eq!(supply_of(&states[0]), u128::MAX);
    let e = refusal(definition, holding_account(Some(holding(1))), 2);
    assert_eq!(e, MintError::SupplyOverflow);
    assert_eq!(e.message(), "Total supply overflow");
}

#[test]
fn non_fungible_tokens_are_not_minted() {
    let definition = definition_account(Some(TokenDefinition::NonFungible));
    for kind in [
        TokenHolding::NftMaster { definition_id: DEFINITION },
        TokenHolding::NftPrintedCopy { definition_id: DEFINITION },
    ] {
        let e = refusal(definition.clone(), holding_account(Some(kind)), 1);
        assert_eq!(e, MintError::NonFungible);
        assert_eq!(e.message(), "Cannot mint additional supply for Non-Fungible Tokens");
    }
}

#[test]
fn kinds_have_to_match() {
    let e = refusal(
        definition_account(Some(TokenDefinition::NonFungible)),
        holding_account(Some(holding(1))),
        1,
    );
    assert_eq!(e, MintError::KindMismatch);
    assert_eq!(e.message(), "Mismatched Token Definition and Token Holding types");
    let e = refusal(
        definition_account(Some(fungible(1))),
        holding_account(Some(TokenHolding::NftMaster { definition_id: DEFINITION })),
        1,
    );
    assert_eq!(e, MintError::KindMismatch);
}

#[test]
fn minting_twice_adds_up() {
    let first = try_mint(definition_account(Some(fungible(10))), new_account(), 3).unwrap();
    let (definition, held) = match (first[0].data.clone(), first[1].data.clone()) {
        (TokenData::Definition(d), TokenData::Holding(h)) => (d, h),
        _ => panic!("unexpected data"),
    };
    let second =
        try_mint(definition_account(Some(definition)), holding_account(Some(held)), 4).unwrap();
    let once = try_mint(definition_account(Some(fungible(10))), new_account(), 7).unwrap();
    assert_eq!(supply_of(&second[0]), supply_of(&once[0]));
    assert_eq!(balance_of(&second[1]), balance_of(&once[1]));
    assert_eq!(supply_of(&once[0]), 17);
    assert_eq!(balance_of(&once[1]), 7);
}

#[test]
fn addresses_are_compared_byte_by_byte() {
    assert!(DEFINITION.same(&AccountId { value: [15; 32] }));
    assert!(!DEFINITION.same(&AUTHORITY));
    let held = holding(1);
    assert_eq!(held.definition_id(), DEFINITION);
}
