//! The two endpoints of the service and the URLs that address them.

use vstd::prelude::*;
use crate::address::Address;
use crate::chain::Chain;
use crate::text::{decimal, push_decimal};

verus! {

/// The path and query that lead to every token of an account, up to the
/// address.
pub open spec fn address_tokens_prefix() -> Seq<char> {
    "https://balancy.guild.xyz/api/addressTokens?address="@
}

/// The path and query that lead to the ERC-20 tokens of an account, up to
/// the address.
pub open spec fn erc20_tokens_prefix() -> Seq<char> {
    "https://balancy.guild.xyz/api/erc20/addressTokens?address="@
}

/// What follows the endpoint's prefix: the rendered address, then the
/// provider's chain id in decimal.
pub open spec fn query_tail(address: Address, provider_id: u32) -> Seq<char> {
    address.rendering() + "&chain="@ + decimal(provider_id as nat)
}

/// The URL that lists every token of `address` on the provider's chain
/// `provider_id`.
pub open spec fn address_tokens_url(address: Address, provider_id: u32) -> Seq<char> {
    address_tokens_prefix() + query_tail(address, provider_id)
}

/// The URL that lists the ERC-20 tokens of `address` on the provider's chain
/// `provider_id`.
pub open spec fn erc20_tokens_url(address: Address, provider_id: u32) -> Seq<char> {
    erc20_tokens_prefix() + query_tail(address, provider_id)
}

/// Appends the rendered address and the chain id.
fn push_query_tail(out: &mut String, address: &Address, provider_id: u32)
    ensures
        final(out)@ == old(out)@ + query_tail(*address, provider_id),
{
    address.push_to(out);
    out.append("&chain=");
    push_decimal(out, provider_id);
    assert(out@ =~= old(out)@ + query_tail(*address, provider_id));
}

/// Writes the URL of the all-tokens endpoint.
pub fn build_address_tokens_url(address: &Address, provider_id: u32) -> (url: String)
    ensures
        url@ == address_tokens_url(*address, provider_id),
{
    let mut url = "https://balancy.guild.xyz/api/addressTokens?address=".to_owned();
    push_query_tail(&mut url, address, provider_id);
    url
}

/// Writes the URL of the ERC-20 endpoint.
pub fn build_erc20_tokens_url(address: &Address, provider_id: u32) -> (url: String)
    ensures
        url@ == erc20_tokens_url(*address, provider_id),
{
    let mut url = "https://balancy.guild.xyz/api/erc20/addressTokens?address=".to_owned();
    push_query_tail(&mut url, address, provider_id);
    url
}

/// The chain segment of a URL is the provider's id in decimal: `1` for
/// Ethereum, `56` for Bsc, `100` for Gnosis and `137` for Polygon.
pub proof fn lemma_chain_segment(chain: Chain)
    ensures
        chain == Chain::Ethereum ==> chain.provider_id() == Some(1u32) && decimal(1) == "1"@,
        chain == Chain::Bsc ==> chain.provider_id() == Some(56u32) && decimal(56) == "56"@,
        chain == Chain::Gnosis ==> chain.provider_id() == Some(100u32) && decimal(100) == "100"@,
        chain == Chain::Polygon ==> chain.provider_id() == Some(137u32) && decimal(137) == "137"@,
{
    reveal_strlit("1");
    reveal_strlit("56");
    reveal_strlit("100");
    reveal_strlit("137");
    reveal_with_fuel(decimal, 4);
    assert(decimal(1) =~= "1"@);
    assert(decimal(56) =~= "56"@);
    assert(decimal(100) =~= "100"@);
    assert(decimal(137) =~= "137"@);
}

/// Both endpoints are asked with the same query: the two URLs of one account
/// on one chain end in the same rendered address and chain id.
pub proof fn lemma_endpoints_share_query(address: Address, provider_id: u32)
    ensures
        address_tokens_url(address, provider_id) == address_tokens_prefix() + query_tail(
            address,
            provider_id,
        ),
        erc20_tokens_url(address, provider_id) == erc20_tokens_prefix() + query_tail(
            address,
            provider_id,
        ),
        query_tail(address, provider_id).subrange(0, 42) == address.rendering(),
{
    crate::address::lemma_rendering_is_lowercase_hex(address);
    assert(query_tail(address, provider_id).subrange(0, 42) =~= address.rendering());
}

} // verus!
