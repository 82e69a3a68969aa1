//! The two queries: every token of an account, and the balance of one
//! ERC-20 token.
//!
//! A query is decided in steps. Called with no reply, it either refuses the
//! chain or names the URL to fetch; called again with what the fetch gave, it
//! says what the answer is.

use vstd::prelude::*;
use crate::address::{address_bytes, is_address_text, Address};
use crate::amount::{pow2_256, U256};
use crate::text::{is_numeral, numeral_value};
use crate::chain::Chain;
use crate::url::{
    address_tokens_url,
    build_address_tokens_url,
    build_erc20_tokens_url,
    erc20_tokens_url,
};

verus! {

/// Why a query gave no answer.
#[derive(Debug, Clone, PartialEq, Eq)]
pub enum BalancyError {
    /// The provider does not serve the chain; holds the chain's name.
    ChainNotSupported(String),
    /// The request did not get through; holds the transport's message.
    Transport(String),
    /// The body was not of the expected shape; holds the decoder's message.
    Decode(String),
    /// The account holds no token at this address.
    NoSuchTokenInWallet(Address),
}

/// One ERC-20 holding of an account.
#[derive(Debug, Clone, Copy, PartialEq, Eq)]
pub struct TokenBalance {
    pub token_address: Address,
    pub amount: U256,
}

impl TokenBalance {
    /// Reads a holding from the two texts that stand for it in an answer:
    /// the token's address in hexadecimal and the amount in decimal. Where
    /// either is not what it should be, there is no holding.
    pub fn from_text(token_address: &str, amount: &str) -> (read: Option<TokenBalance>)
        ensures
            read is Some <==> is_address_text(token_address@) && is_numeral(amount@)
                && numeral_value(amount@) < pow2_256(),
            read matches Some(balance) ==> balance.token_address@ == address_bytes(token_address@)
                && balance.amount@ == numeral_value(amount@),
    {
        match Address::from_hex(token_address) {
            None => None,
            Some(address) => match U256::from_dec_str(amount) {
                None => None,
                Some(value) => Some(TokenBalance { token_address: address, amount: value }),
            },
        }
    }
}

/// The answer of the ERC-20 endpoint: the holdings in the provider's order.
#[derive(Debug, Clone, PartialEq, Eq)]
pub struct Erc20Response {
    pub result: Vec<TokenBalance>,
}

/// What a query wants next.
#[derive(Debug, PartialEq, Eq)]
pub enum Step<T> {
    /// Fetch this URL once and call again with the outcome.
    Fetch(String),
    /// The query is over.
    Done(Result<T, BalancyError>),
}

impl<T> Step<T> {
    /// The step asks for exactly `url`.
    pub open spec fn asks_for(self, url: Seq<char>) -> bool {
        match self {
            Step::Fetch(u) => u@ == url,
            Step::Done(_) => false,
        }
    }

    /// The step ends the query because the provider does not serve `chain`.
    pub open spec fn refuses(self, chain: Chain) -> bool {
        match self {
            Step::Done(Err(BalancyError::ChainNotSupported(name))) => name@ == chain.name(),
            _ => false,
        }
    }
}

/// The amount of the first entry whose token address is `token`, if there is
/// one.
pub open spec fn holding(entries: Seq<TokenBalance>, token: Address) -> Option<U256>
    decreases entries.len(),
{
    if entries.len() == 0 {
        None
    } else if entries[0].token_address@ == token@ {
        Some(entries[0].amount)
    } else {
        holding(entries.drop_first(), token)
    }
}

/// What a well-formed ERC-20 answer means for one token.
pub open spec fn erc20_outcome(entries: Seq<TokenBalance>, token: Address) -> Result<
    U256,
    BalancyError,
> {
    match holding(entries, token) {
        Some(amount) => Ok(amount),
        None => Err(BalancyError::NoSuchTokenInWallet(token)),
    }
}

/// What the all-tokens query owes for each chain and reply.
pub open spec fn address_tokens_step<T>(
    chain: Chain,
    address: Address,
    reply: Option<Result<T, BalancyError>>,
    step: Step<T>,
) -> bool {
    match chain.provider_id() {
        None => step.refuses(chain),
        Some(id) => match reply {
            None => step.asks_for(address_tokens_url(address, id)),
            Some(outcome) => step == Step::Done(outcome),
        },
    }
}

/// What the ERC-20 query owes for each chain and reply.
pub open spec fn erc20_amount_step(
    chain: Chain,
    user_address: Address,
    token_address: Address,
    reply: Option<Result<Erc20Response, BalancyError>>,
    step: Step<U256>,
) -> bool {
    match chain.provider_id() {
        None => step.refuses(chain),
        Some(id) => match reply {
            None => step.asks_for(erc20_tokens_url(user_address, id)),
            Some(Err(error)) => step == Step::<U256>::Done(Err(error)),
            Some(Ok(body)) => step == Step::Done(erc20_outcome(body.result@, token_address)),
        },
    }
}

/// Scans the holdings in order for the first one of `token`.
pub fn find_amount(entries: &Vec<TokenBalance>, token: &Address) -> (found: Option<U256>)
    ensures
        found == holding(entries@, *token),
{
    let mut i: usize = 0;
    assert(entries@.skip(0) =~= entries@);
    while i < entries.len()
        invariant
            i <= entries.len(),
            holding(entries@, *token) == holding(entries@.skip(i as int), *token),
        decreases entries.len() - i,
    {
        if entries[i].token_address == *token {
            return Some(entries[i].amount);
        }
        assert(entries@.skip(i as int).drop_first() =~= entries@.skip(i + 1));
        i = i + 1;
    }
    None
}

/// Reads the balance of `token_address` off a well-formed answer of the
/// ERC-20 endpoint.
pub fn erc20_amount(body: &Erc20Response, token_address: Address) -> (outcome: Result<
    U256,
    BalancyError,
>)
    ensures
        outcome == erc20_outcome(body.result@, token_address),
{
    match find_amount(&body.result, &token_address) {
        Some(amount) => Ok(amount),
        None => Err(BalancyError::NoSuchTokenInWallet(token_address)),
    }
}

/// One step of the query for every token of `address` on `chain`.
///
/// A chain that the provider does not serve is refused whatever `reply`
/// holds, and no URL is ever named for it. Otherwise, without a reply the
/// step names the URL to fetch, and with one it hands the body or the error
/// on unchanged.
pub fn get_address_tokens<T>(
    chain: Chain,
    address: Address,
    reply: Option<Result<T, BalancyError>>,
) -> (step: Step<T>)
    ensures
        address_tokens_step(chain, address, reply, step),
        chain.provider_id() is None ==> step.refuses(chain),
        reply is Some ==> step is Done,
{
    match chain.provider_chain_id() {
        None => Step::Done(Err(BalancyError::ChainNotSupported(chain.debug_name()))),
        Some(id) => match reply {
            None => Step::Fetch(build_address_tokens_url(&address, id)),
            Some(outcome) => Step::Done(outcome),
        },
    }
}

/// One step of the query for the balance that `user_address` holds of the
/// token at `token_address` on `chain`.
///
/// A chain that the provider does not serve is refused whatever `reply`
/// holds, and no URL is ever named for it. Otherwise, without a reply the
/// step names the URL to fetch; a failed fetch is handed on unchanged; and a
/// body gives the amount of its first entry for the token, or says that the
/// account holds none.
pub fn get_erc20_amount(
    chain: Chain,
    user_address: Address,
    token_address: Address,
    reply: Option<Result<Erc20Response, BalancyError>>,
) -> (step: Step<U256>)
    ensures
        erc20_amount_step(chain, user_address, token_address, reply, step),
        chain.provider_id() is None ==> step.refuses(chain),
        reply is Some ==> step is Done,
{
    match chain.provider_chain_id() {
        None => Step::Done(Err(BalancyError::ChainNotSupported(chain.debug_name()))),
        Some(id) => match reply {
            None => Step::Fetch(build_erc20_tokens_url(&user_address, id)),
            Some(Err(error)) => Step::Done(Err(error)),
            Some(Ok(body)) => Step::Done(erc20_amount(&body, token_address)),
        },
    }
}

/// The first match wins: where `holding` finds an amount, it is that of an
/// entry for the token before which no entry is for the token; where it
/// finds none, no entry is for the token.
pub proof fn lemma_holding_is_first_match(entries: Seq<TokenBalance>, token: Address)
    ensures
        match holding(entries, token) {
            Some(amount) => exists|i: int|
                0 <= i < entries.len() && #[trigger] entries[i].token_address@ == token@
                    && entries[i].amount == amount && forall|j: int|
                    0 <= j < i ==> #[trigger] entries[j].token_address@ != token@,
            None => forall|i: int|
                0 <= i < entries.len() ==> #[trigger] entries[i].token_address@ != token@,
        },
    decreases entries.len(),
{
    if entries.len() == 0 {
    } else if entries[0].token_address@ == token@ {
        assert(forall|j: int| 0 <= j < 0 ==> #[trigger] entries[j].token_address@ != token@);
    } else {
        let rest = entries.drop_first();
        lemma_holding_is_first_match(rest, token);
        assert(forall|i: int| 0 <= i < rest.len() ==> rest[i] == entries[i + 1]);
        match holding(rest, token) {
            Some(amount) => {
                let k = choose|i: int|
                    0 <= i < rest.len() && #[trigger] rest[i].token_address@ == token@
                        && rest[i].amount == amount && forall|j: int|
                        0 <= j < i ==> #[trigger] rest[j].token_address@ != token@;
                assert(entries[k + 1].token_address@ == token@);
                assert forall|j: int| 0 <= j < k + 1 implies #[trigger] entries[j].token_address@
                    != token@ by {
                    if j > 0 {
                        assert(rest[j - 1].token_address@ != token@);
                    }
                }
            },
            None => {
                assert forall|i: int| 0 <= i < entries.len() implies #[trigger] entries[i].token_address@
                    != token@ by {
                    if i > 0 {
                        assert(rest[i - 1].token_address@ != token@);
                    }
                }
            },
        }
    }
}

/// A token that no entry of the answer names is reported absent, with the
/// very address that was asked for.
pub proof fn lemma_absent_token_is_reported(entries: Seq<TokenBalance>, token: Address)
    requires
        forall|i: int| 0 <= i < entries.len() ==> #[trigger] entries[i].token_address@ != token@,
    ensures
        erc20_outcome(entries, token) == Err::<U256, BalancyError>(
            BalancyError::NoSuchTokenInWallet(token),
        ),
{
    lemma_holding_is_first_match(entries, token);
}

/// For a chain that the provider does not serve, no step that either query
/// may return names a URL: the query ends with the refusal, whatever the
/// addresses and the reply.
pub proof fn lemma_unsupported_chain_is_never_fetched<T>(
    chain: Chain,
    address: Address,
    token_address: Address,
    tokens_reply: Option<Result<T, BalancyError>>,
    tokens_step: Step<T>,
    erc20_reply: Option<Result<Erc20Response, BalancyError>>,
    erc20_step: Step<U256>,
)
    requires
        chain.provider_id() is None,
        address_tokens_step(chain, address, tokens_reply, tokens_step),
        erc20_amount_step(chain, address, token_address, erc20_reply, erc20_step),
    ensures
        tokens_step.refuses(chain),
        erc20_step.refuses(chain),
        !(tokens_step is Fetch),
        !(erc20_step is Fetch),
{
}

} // verus!
