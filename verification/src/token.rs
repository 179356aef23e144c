//! Minting of tokens.
//!
//! The token program keeps what is known of a token in a definition account
//! and what a user owns of it in a holding account. Minting adds to both.
use vstd::prelude::*;

verus! {

/// The address of an account.
#[derive(Debug, Clone, Copy, PartialEq, Eq)]
pub struct AccountId {
    pub value: [u8; 32],
}

impl AccountId {
    /// Whether two addresses are the same.
    pub fn same(&self, other: &AccountId) -> (res: bool)
        ensures
            res == (*self == *other),
    {
        let mut i: usize = 0;
        while i < 32
            invariant
                i <= 32,
                forall|j: int| 0 <= j < i ==> self.value@[j] == other.value@[j],
            decreases 32 - i,
        {
            if self.value[i] != other.value[i] {
                return false;
            }
            i = i + 1;
        }
        assert(self.value@ =~= other.value@);
        assert(self.value =~= other.value);
        true
    }
}

/// What a definition account says of its token.
#[derive(Debug, Clone)]
pub enum TokenDefinition {
    /// A token whose units are interchangeable. More of it can be minted as
    /// long as it has a mint authority.
    Fungible {
        name: String,
        total_supply: u128,
        metadata_id: Option<AccountId>,
        mint_authority: Option<AccountId>,
    },
    /// A token of which there is one master and printed copies.
    NonFungible,
}

/// What a holding account says of its owner's share.
#[derive(Debug, Clone)]
pub enum TokenHolding {
    /// An amount of a fungible token.
    Fungible { definition_id: AccountId, balance: u128 },
    /// The master of a non-fungible token.
    NftMaster { definition_id: AccountId },
    /// A printed copy of a non-fungible token.
    NftPrintedCopy { definition_id: AccountId },
}

impl TokenHolding {
    /// The definition that a holding belongs to.
    pub open spec fn definition_id_spec(self) -> AccountId {
        match self {
            TokenHolding::Fungible { definition_id, .. } => definition_id,
            TokenHolding::NftMaster { definition_id } => definition_id,
            TokenHolding::NftPrintedCopy { definition_id } => definition_id,
        }
    }

    /// The definition that the holding belongs to.
    pub fn definition_id(&self) -> (id: AccountId)
        ensures
            id == self.definition_id_spec(),
    {
        match self {
            TokenHolding::Fungible { definition_id, .. } => *definition_id,
            TokenHolding::NftMaster { definition_id } => *definition_id,
            TokenHolding::NftPrintedCopy { definition_id } => *definition_id,
        }
    }
}

/// An account as the token program reads it.
///
/// `is_default` says that the account has never been used. `definition` and
/// `holding` are what its data decodes to as one and as the other. `zeroized` is
/// the holding of nothing that an account never used before stands for, as
/// `token_core` makes it from the definition that goes with the account.
#[derive(Debug, Clone)]
pub struct Account {
    pub is_default: bool,
    pub definition: Option<TokenDefinition>,
    pub holding: Option<TokenHolding>,
    pub zeroized: Option<TokenHolding>,
}

/// An account that a transaction names.
#[derive(Debug, Clone)]
pub struct AccountWithMetadata {
    pub account: Account,
    pub is_authorized: bool,
    pub account_id: AccountId,
}

/// By what right a program claims an account.
#[derive(Debug, Clone, Copy, PartialEq, Eq, Structural)]
pub enum Claim {
    /// The transaction is authorized by the account.
    Authorized,
}

/// New data of an account.
#[derive(Debug, Clone)]
pub enum TokenData {
    Definition(TokenDefinition),
    Holding(TokenHolding),
}

/// What a transaction does to an account: it gets new data, and the program
/// claims it if `claim_if_default` says so and it has no owner yet. Everything
/// else of the account stays as it was.
#[derive(Debug, Clone)]
pub struct AccountPostState {
    pub data: TokenData,
    pub claim_if_default: Option<Claim>,
}

/// Why minting is refused.
#[derive(Debug, Clone, Copy, PartialEq, Eq, Structural)]
pub enum MintError {
    Unauthorized,
    InvalidDefinition,
    AuthorityRevoked,
    InvalidHolding,
    DefinitionMismatch,
    BalanceOverflow,
    SupplyOverflow,
    NonFungible,
    KindMismatch,
}

impl MintError {
    /// The words in which the refusal is reported.
    pub open spec fn message_text(self) -> Seq<char> {
        match self {
            MintError::Unauthorized =>
                "Definition authorization is missing; only the mint authority can mint"@,
            MintError::InvalidDefinition => "Token Definition account must be valid"@,
            MintError::AuthorityRevoked =>
                "Mint authority has been revoked; this token has a fixed supply"@,
            MintError::InvalidHolding => "Token Holding account must be valid"@,
            MintError::DefinitionMismatch => "Mismatch Token Definition and Token Holding"@,
            MintError::BalanceOverflow => "Balance overflow on minting"@,
            MintError::SupplyOverflow => "Total supply overflow"@,
            MintError::NonFungible => "Cannot mint additional supply for Non-Fungible Tokens"@,
            MintError::KindMismatch => "Mismatched Token Definition and Token Holding types"@,
        }
    }

    /// Reports the refusal in words.
    pub fn message(&self) -> (text: String)
        ensures
            text@ == self.message_text(),
    {
        let text: &str = match self {
            MintError::Unauthorized =>
                "Definition authorization is missing; only the mint authority can mint",
            MintError::InvalidDefinition => "Token Definition account must be valid",
            MintError::AuthorityRevoked =>
                "Mint authority has been revoked; this token has a fixed supply",
            MintError::InvalidHolding => "Token Holding account must be valid",
            MintError::DefinitionMismatch => "Mismatch Token Definition and Token Holding",
            MintError::BalanceOverflow => "Balance overflow on minting",
            MintError::SupplyOverflow => "Total supply overflow",
            MintError::NonFungible => "Cannot mint additional supply for Non-Fungible Tokens",
            MintError::KindMismatch => "Mismatched Token Definition and Token Holding types",
        };
        text.to_owned()
    }
}

/// The holding that a mint adds to: in an account never used before, the one of
/// nothing.
pub open spec fn holding_before(user_holding_account: AccountWithMetadata) -> Option<TokenHolding> {
    if user_holding_account.account.is_default {
        user_holding_account.account.zeroized
    } else {
        user_holding_account.account.holding
    }
}

/// Why adding `amount` to the holding is refused, if it is.
pub open spec fn addition_refusal(
    definition: TokenDefinition,
    holding: TokenHolding,
    amount: u128,
) -> Option<MintError> {
    match (definition, holding) {
        (
            TokenDefinition::Fungible { total_supply, .. },
            TokenHolding::Fungible { balance, .. },
        ) => if balance + amount > u128::MAX {
            Some(MintError::BalanceOverflow)
        } else if total_supply + amount > u128::MAX {
            Some(MintError::SupplyOverflow)
        } else {
            None
        },
        (TokenDefinition::NonFungible, TokenHolding::NftMaster { .. }) => Some(
            MintError::NonFungible,
        ),
        (TokenDefinition::NonFungible, TokenHolding::NftPrintedCopy { .. }) => Some(
            MintError::NonFungible,
        ),
        _ => Some(MintError::KindMismatch),
    }
}

/// Why minting is refused, if it is: the first of the conditions that fails.
pub open spec fn mint_refusal(
    definition_account: AccountWithMetadata,
    user_holding_account: AccountWithMetadata,
    amount: u128,
) -> Option<MintError> {
    if !definition_account.is_authorized {
        Some(MintError::Unauthorized)
    } else {
        match definition_account.account.definition {
            None => Some(MintError::InvalidDefinition),
            Some(definition) => if definition matches TokenDefinition::Fungible {
                mint_authority: None,
                ..
            } {
                Some(MintError::AuthorityRevoked)
            } else {
                match holding_before(user_holding_account) {
                    None => Some(MintError::InvalidHolding),
                    Some(holding) => if holding.definition_id_spec()
                        != definition_account.account_id {
                        Some(MintError::DefinitionMismatch)
                    } else {
                        addition_refusal(definition, holding, amount)
                    },
                }
            },
        }
    }
}

/// The definition after `amount` more of the token have come into being.
pub open spec fn definition_after(definition: TokenDefinition, amount: u128) -> TokenDefinition {
    match definition {
        TokenDefinition::Fungible { name, total_supply, metadata_id, mint_authority } =>
            TokenDefinition::Fungible {
                name,
                total_supply: (total_supply + amount) as u128,
                metadata_id,
                mint_authority,
            },
        TokenDefinition::NonFungible => definition,
    }
}

/// The holding after `amount` more of the token have been put into it.
pub open spec fn holding_after(holding: TokenHolding, amount: u128) -> TokenHolding {
    match holding {
        TokenHolding::Fungible { definition_id, balance } => TokenHolding::Fungible {
            definition_id,
            balance: (balance + amount) as u128,
        },
        _ => holding,
    }
}

/// What minting does to the two accounts, the definition account first.
pub open spec fn minted(
    definition_account: AccountWithMetadata,
    user_holding_account: AccountWithMetadata,
    amount: u128,
) -> Seq<AccountPostState> {
    seq![
        AccountPostState {
            data: TokenData::Definition(
                definition_after(definition_account.account.definition->Some_0, amount),
            ),
            claim_if_default: None,
        },
        AccountPostState {
            data: TokenData::Holding(
                holding_after(
                    holding_before(user_holding_account)->Some_0,
                    amount,
                ),
            ),
            claim_if_default: Some(Claim::Authorized),
        },
    ]
}

/// Mints `amount_to_mint` of a token into a holding account, or says why not.
pub fn try_mint(
    definition_account: AccountWithMetadata,
    user_holding_account: AccountWithMetadata,
    amount_to_mint: u128,
) -> (res: Result<Vec<AccountPostState>, MintError>)
    ensures
        match mint_refusal(definition_account, user_holding_account, amount_to_mint) {
            Some(e) => res == Err::<Vec<AccountPostState>, MintError>(e),
            None => res is Ok && res->Ok_0@ == minted(
                definition_account,
                user_holding_account,
                amount_to_mint,
            ),
        },
{
    if !definition_account.is_authorized {
        return Err(MintError::Unauthorized);
    }
    let definition_id = definition_account.account_id;
    let definition = match definition_account.account.definition {
        Some(definition) => definition,
        None => return Err(MintError::InvalidDefinition),
    };
    if let TokenDefinition::Fungible { mint_authority, .. } = &definition {
        if mint_authority.is_none() {
            return Err(MintError::AuthorityRevoked);
        }
    }
    let known = if user_holding_account.account.is_default {
        user_holding_account.account.zeroized
    } else {
        user_holding_account.account.holding
    };
    let holding = match known {
        Some(holding) => holding,
        None => return Err(MintError::InvalidHolding),
    };
    if !definition_id.same(&holding.definition_id()) {
        return Err(MintError::DefinitionMismatch);
    }
    match (definition, holding) {
        (
            TokenDefinition::Fungible { name, total_supply, metadata_id, mint_authority },
            TokenHolding::Fungible { definition_id, balance },
        ) => {
            let balance: u128 = match balance.checked_add(amount_to_mint) {
                Some(sum) => sum,
                None => return Err(MintError::BalanceOverflow),
            };
            let total_supply: u128 = match total_supply.checked_add(amount_to_mint) {
                Some(sum) => sum,
                None => return Err(MintError::SupplyOverflow),
            };
            let mut states: Vec<AccountPostState> = Vec::new();
            states.push(
                AccountPostState {
                    data: TokenData::Definition(
                        TokenDefinition::Fungible {
                            name,
                            total_supply,
                            metadata_id,
                            mint_authority,
                        },
                    ),
                    claim_if_default: None,
                },
            );
            states.push(
                AccountPostState {
                    data: TokenData::Holding(TokenHolding::Fungible { definition_id, balance }),
                    claim_if_default: Some(Claim::Authorized),
                },
            );
            assert(states@ =~= minted(definition_account, user_holding_account, amount_to_mint));
            Ok(states)
        },
        (TokenDefinition::NonFungible, TokenHolding::NftMaster { .. }) => Err(
            MintError::NonFungible,
        ),
        (TokenDefinition::NonFungible, TokenHolding::NftPrintedCopy { .. }) => Err(
            MintError::NonFungible,
        ),
        _ => Err(MintError::KindMismatch),
    }
}

/// Mints `amount_to_mint` of a token into a holding account. For callers who
/// know that nothing stands against it.
#[must_use]
pub fn mint(
    definition_account: AccountWithMetadata,
    user_holding_account: AccountWithMetadata,
    amount_to_mint: u128,
) -> (states: Vec<AccountPostState>)
    requires
        mint_refusal(definition_account, user_holding_account, amount_to_mint) is None,
    ensures
        states@ == minted(definition_account, user_holding_account, amount_to_mint),
{
    match try_mint(definition_account, user_holding_account, amount_to_mint) {
        Ok(states) => states,
        Err(_) => vstd::pervasive::unreached(),
    }
}

/// Only a token that is fungible and has a mint authority can be minted, only
/// with the authorization of its definition account, and only into a holding
/// of that same token.
pub proof fn minting_needs_authority(
    definition_account: AccountWithMetadata,
    user_holding_account: AccountWithMetadata,
    amount: u128,
)
    requires
        mint_refusal(definition_account, user_holding_account, amount) is None,
    ensures
        definition_account.is_authorized,
        definition_account.account.definition matches Some(TokenDefinition::Fungible {
            mint_authority: Some(_),
            ..
        }),
        holding_before(user_holding_account) matches Some(
            TokenHolding::Fungible { definition_id, .. },
        ) && definition_id == definition_account.account_id,
{
}

/// A token whose mint authority has been revoked has a fixed supply: every
/// authorized attempt to mint it is refused for that reason.
pub proof fn revoked_authority_fixes_supply(
    definition_account: AccountWithMetadata,
    user_holding_account: AccountWithMetadata,
    amount: u128,
)
    requires
        definition_account.is_authorized,
        definition_account.account.definition matches Some(TokenDefinition::Fungible {
            mint_authority: None,
            ..
        }),
    ensures
        mint_refusal(definition_account, user_holding_account, amount) == Some(
            MintError::AuthorityRevoked,
        ),
{
}

/// What is minted arrives: the supply and the balance both grow by the amount,
/// and the token's name, metadata and mint authority do not change.
pub proof fn minting_adds_to_supply_and_balance(
    definition_account: AccountWithMetadata,
    user_holding_account: AccountWithMetadata,
    amount: u128,
)
    requires
        mint_refusal(definition_account, user_holding_account, amount) is None,
    ensures
        ({
            let states = minted(definition_account, user_holding_account, amount);
            let definition = definition_account.account.definition->Some_0;
            let holding = holding_before(user_holding_account)->Some_0;
            &&& states.len() == 2
            &&& states[0].data matches TokenData::Definition(after)
            &&& after is Fungible
            &&& after->total_supply == definition->total_supply + amount
            &&& after->name == definition->name
            &&& after->metadata_id == definition->metadata_id
            &&& after->mint_authority == definition->mint_authority
            &&& states[1].data matches TokenData::Holding(held)
            &&& held is Fungible
            &&& held->balance == holding->balance + amount
            &&& held.definition_id_spec() == definition_account.account_id
        }),
{
}

/// Minting into an account never used before leaves it with exactly the minted
/// amount.
pub proof fn minting_into_new_account(
    definition_account: AccountWithMetadata,
    user_holding_account: AccountWithMetadata,
    amount: u128,
)
    requires
        user_holding_account.account.is_default,
        user_holding_account.account.zeroized == Some(
            TokenHolding::Fungible {
                definition_id: definition_account.account_id,
                balance: 0,
            },
        ),
        mint_refusal(definition_account, user_holding_account, amount) is None,
    ensures
        minted(definition_account, user_holding_account, amount)[1].data == TokenData::Holding(
            TokenHolding::Fungible {
                definition_id: definition_account.account_id,
                balance: amount,
            },
        ),
{
}

/// The account after it got `definition` as its data.
pub open spec fn with_definition(
    account: AccountWithMetadata,
    definition: TokenDefinition,
) -> AccountWithMetadata {
    AccountWithMetadata {
        account: Account {
            is_default: false,
            definition: Some(definition),
            holding: None,
            zeroized: None,
        },
        ..account
    }
}

/// The account after it got `holding` as its data.
pub open spec fn with_holding(
    account: AccountWithMetadata,
    holding: TokenHolding,
) -> AccountWithMetadata {
    AccountWithMetadata {
        account: Account {
            is_default: false,
            definition: None,
            holding: Some(holding),
            zeroized: None,
        },
        ..account
    }
}

/// Minting twice is minting the sum once: it is refused or not alike, and it
/// leaves both accounts alike.
pub proof fn minting_twice_is_minting_the_sum(
    definition_account: AccountWithMetadata,
    user_holding_account: AccountWithMetadata,
    first: u128,
    second: u128,
)
    requires
        first + second <= u128::MAX,
        mint_refusal(definition_account, user_holding_account, first) is None,
    ensures
        ({
            let states = minted(definition_account, user_holding_account, first);
            let definition_then = with_definition(
                definition_account,
                states[0].data->Definition_0,
            );
            let holding_then = with_holding(user_holding_account, states[1].data->Holding_0);
            let sum = (first + second) as u128;
            &&& mint_refusal(definition_then, holding_then, second) == mint_refusal(
                definition_account,
                user_holding_account,
                sum,
            )
            &&& minted(definition_account, user_holding_account, sum) == minted(
                definition_then,
                holding_then,
                second,
            ) || mint_refusal(definition_account, user_holding_account, sum) is Some
        }),
{
    let states = minted(definition_account, user_holding_account, first);
    let definition_then = with_definition(definition_account, states[0].data->Definition_0);
    let holding_then = with_holding(user_holding_account, states[1].data->Holding_0);
    let sum = (first + second) as u128;
    if mint_refusal(definition_account, user_holding_account, sum) is None {
        assert(minted(definition_account, user_holding_account, sum) =~= minted(
            definition_then,
            holding_then,
            second,
        ));
    }
}

/// Minting succeeds whenever it can: an authorized definition of a fungible token
/// with a mint authority, a fungible holding of that token, and a new balance and
/// a new supply that 128 bits can hold. It then adds the amount to both and
/// changes nothing else, and the holding account, and only it, is claimed if it
/// has no owner yet.
pub proof fn minting_succeeds_whenever_it_can(
    definition_account: AccountWithMetadata,
    user_holding_account: AccountWithMetadata,
    amount: u128,
    name: String,
    total_supply: u128,
    metadata_id: Option<AccountId>,
    authority: AccountId,
    balance: u128,
)
    requires
        definition_account.is_authorized,
        definition_account.account.definition == Some(
            TokenDefinition::Fungible {
                name,
                total_supply,
                metadata_id,
                mint_authority: Some(authority),
            },
        ),
        (if user_holding_account.account.is_default {
            user_holding_account.account.zeroized
        } else {
            user_holding_account.account.holding
        }) == Some(
            TokenHolding::Fungible { definition_id: definition_account.account_id, balance },
        ),
        balance + amount <= u128::MAX,
        total_supply + amount <= u128::MAX,
    ensures
        mint_refusal(definition_account, user_holding_account, amount) is None,
        minted(definition_account, user_holding_account, amount) == seq![
            AccountPostState {
                data: TokenData::Definition(
                    TokenDefinition::Fungible {
                        name,
                        total_supply: (total_supply + amount) as u128,
                        metadata_id,
                        mint_authority: Some(authority),
                    },
                ),
                claim_if_default: None,
            },
            AccountPostState {
                data: TokenData::Holding(
                    TokenHolding::Fungible {
                        definition_id: definition_account.account_id,
                        balance: (balance + amount) as u128,
                    },
                ),
                claim_if_default: Some(Claim::Authorized),
            },
        ],
{
}

/// Minting without authorization, without a valid definition, or after the mint
/// authority was revoked is refused for that reason, whatever the holding and
/// the amount are.
pub proof fn definition_is_checked_first(
    definition_account: AccountWithMetadata,
    user_holding_account: AccountWithMetadata,
    amount: u128,
)
    ensures
        mint_refusal(definition_account, user_holding_account, amount) == Some(
            MintError::Unauthorized,
        ) <==> !definition_account.is_authorized,
        mint_refusal(definition_account, user_holding_account, amount) == Some(
            MintError::InvalidDefinition,
        ) <==> definition_account.is_authorized && definition_account.account.definition is None,
        mint_refusal(definition_account, user_holding_account, amount) == Some(
            MintError::AuthorityRevoked,
        ) <==> definition_account.is_authorized && (
        definition_account.account.definition matches Some(TokenDefinition::Fungible {
            mint_authority,
            ..
        }) && mint_authority is None),
{
}

/// With an authorized definition that may be minted, the holding decides next: a
/// holding that is missing, or that belongs to another token, is refused for that
/// reason, and no other is.
pub proof fn holding_is_checked_next(
    definition_account: AccountWithMetadata,
    user_holding_account: AccountWithMetadata,
    amount: u128,
    held: Option<TokenHolding>,
)
    requires
        definition_account.is_authorized,
        definition_account.account.definition matches Some(definition) && (
        definition matches TokenDefinition::Fungible { mint_authority, .. }
            ==> mint_authority is Some),
        held == if user_holding_account.account.is_default {
            user_holding_account.account.zeroized
        } else {
            user_holding_account.account.holding
        },
    ensures
        mint_refusal(definition_account, user_holding_account, amount) == Some(
            MintError::InvalidHolding,
        ) <==> held is None,
        mint_refusal(definition_account, user_holding_account, amount) == Some(
            MintError::DefinitionMismatch,
        ) <==> match held {
            Some(TokenHolding::Fungible { definition_id, .. }) => definition_id
                != definition_account.account_id,
            Some(TokenHolding::NftMaster { definition_id }) => definition_id
                != definition_account.account_id,
            Some(TokenHolding::NftPrintedCopy { definition_id }) => definition_id
                != definition_account.account_id,
            None => false,
        },
{
}

/// With a definition and a holding of the same token, the kinds and the amounts
/// decide: only fungible tokens are minted, an overflow of the balance is told
/// before one of the supply, and kinds that do not go together are refused.
pub proof fn amounts_are_checked_last(
    definition_account: AccountWithMetadata,
    user_holding_account: AccountWithMetadata,
    amount: u128,
    definition: TokenDefinition,
    held: TokenHolding,
)
    requires
        definition_account.is_authorized,
        definition_account.account.definition == Some(definition),
        definition matches TokenDefinition::Fungible { mint_authority, .. }
            ==> mint_authority is Some,
        Some(held) == if user_holding_account.account.is_default {
            user_holding_account.account.zeroized
        } else {
            user_holding_account.account.holding
        },
        match held {
            TokenHolding::Fungible { definition_id, .. } => definition_id
                == definition_account.account_id,
            TokenHolding::NftMaster { definition_id } => definition_id
                == definition_account.account_id,
            TokenHolding::NftPrintedCopy { definition_id } => definition_id
                == definition_account.account_id,
        },
    ensures
        definition is NonFungible && !(held is Fungible) ==> mint_refusal(
            definition_account,
            user_holding_account,
            amount,
        ) == Some(MintError::NonFungible),
        (definition is NonFungible) == (held is Fungible) ==> mint_refusal(
            definition_account,
            user_holding_account,
            amount,
        ) == Some(MintError::KindMismatch),
        definition is Fungible && held is Fungible ==> mint_refusal(
            definition_account,
            user_holding_account,
            amount,
        ) == if held->balance + amount > u128::MAX {
            Some(MintError::BalanceOverflow)
        } else if definition->total_supply + amount > u128::MAX {
            Some(MintError::SupplyOverflow)
        } else {
            None
        },
{
}

/// The words in which each refusal is reported.
pub proof fn refusals_are_told_in_words(refusal: MintError)
    ensures
        refusal.message_text() == match refusal {
            MintError::Unauthorized =>
                "Definition authorization is missing; only the mint authority can mint",
            MintError::InvalidDefinition => "Token Definition account must be valid",
            MintError::AuthorityRevoked =>
                "Mint authority has been revoked; this token has a fixed supply",
            MintError::InvalidHolding => "Token Holding account must be valid",
            MintError::DefinitionMismatch => "Mismatch Token Definition and Token Holding",
            MintError::BalanceOverflow => "Balance overflow on minting",
            MintError::SupplyOverflow => "Total supply overflow",
            MintError::NonFungible => "Cannot mint additional supply for Non-Fungible Tokens",
            MintError::KindMismatch => "Mismatched Token Definition and Token Holding types",
        }@,
{
}

} // verus!
