use balancy::address::Address;
use balancy::amount::U256;
use balancy::client::TokenBalance;
use balancy::text::{decimal_digit_value, hex_digit, hex_digit_value, push_decimal, push_hex};
use balancy::url::{build_address_tokens_url, build_erc20_tokens_url};

#[test]
fn address_renders_lowercase_with_prefix() {
    let a = Address::from_hex("0xE43878Ce78934fe8007748FF481f03B8Ee3b97DE").unwrap();
    assert_eq!(a.to_hex(), "0xe43878ce78934fe8007748ff481f03b8ee3b97de");
    assert_eq!(a.bytes[0], 0xe4);
    assert_eq!(a.bytes[19], 0xde);
    let mut out = String::from("address=");
    a.push_to(&mut out);
    assert_eq!(out, "address=0xe43878ce78934fe8007748ff481f03b8ee3b97de");
}

#[test]
fn address_keeps_leading_zeros() {
    let mut bytes = [0u8; 20];
    bytes[19] = 0x0a;
    let a = Address::new(bytes);
    assert_eq!(a.to_hex(), "0x000000000000000000000000000000000000000a");
    assert_eq!(Address::from_hex(&a.to_hex()), Some(a));
}

#[test]
fn address_text_is_checked() {
    assert_eq!(Address::from_hex(""), None);
    assert_eq!(Address::from_hex("0x"), None);
    assert_eq!(Address::from_hex("e43878ce78934fe8007748ff481f03b8ee3b97de"), None);
    assert_eq!(Address::from_hex("0Xe43878ce78934fe8007748ff481f03b8ee3b97de"), None);
    assert_eq!(Address::from_hex("0xe43878ce78934fe8007748ff481f03b8ee3b97d"), None);
    assert_eq!(Address::from_hex("0xe43878ce78934fe8007748ff481f03b8ee3b97de0"), None);
    assert_eq!(Address::from_hex("0xg43878ce78934fe8007748ff481f03b8ee3b97de"), None);
    assert_eq!(Address::from_hex("0xe43878ce78934fe8007748ff481f03b8ee3b97dé"), None);
}

#[test]
fn addresses_compare_by_their_bytes() {
    let a = Address::new([7u8; 20]);
    let mut bytes = [7u8; 20];
    assert!(a == Address::new(bytes));
    bytes[19] = 8;
    assert!(a != Address::new(bytes));
    bytes[19] = 7;
    bytes[0] = 6;
    assert!(a != Address::new(bytes));
}

#[test]
fn digits_are_read_and_written() {
    assert_eq!(hex_digit(0), '0');
    assert_eq!(hex_digit(9), '9');
    assert_eq!(hex_digit(10), 'a');
    assert_eq!(hex_digit(15), 'f');
    assert_eq!(hex_digit_value('0'), Some(0));
    assert_eq!(hex_digit_value('9'), Some(9));
    assert_eq!(hex_digit_value('a'), Some(10));
    assert_eq!(hex_digit_value('F'), Some(15));
    assert_eq!(hex_digit_value('g'), None);
    assert_eq!(hex_digit_value('/'), None);
    assert_eq!(hex_digit_value(':'), None);
    assert_eq!(decimal_digit_value('7'), Some(7));
    assert_eq!(decimal_digit_value('a'), None);
}

#[test]
fn numbers_are_written_in_decimal() {
    let mut out = String::new();
    push_decimal(&mut out, 0);
    out.push(' ');
    push_decimal(&mut out, 137);
    out.push(' ');
    push_decimal(&mut out, 4294967295);
    assert_eq!(out, "0 137 4294967295");
}

#[test]
fn bytes_are_written_in_hex() {
    let mut out = String::from(">");
    push_hex(&mut out, &[0x00, 0x0f, 0xf0, 0xab]);
    assert_eq!(out, ">000ff0ab");
}

#[test]
fn urls_are_built_from_address_and_id() {
    let a = Address::new([0x11u8; 20]);
    assert_eq!(
        build_address_tokens_url(&a, 1),
        "https://balancy.guild.xyz/api/addressTokens?address=0x1111111111111111111111111111111111111111&chain=1"
    );
    assert_eq!(
        build_erc20_tokens_url(&a, 137),
        "https://balancy.guild.xyz/api/erc20/addressTokens?address=0x1111111111111111111111111111111111111111&chain=137"
    );
}

#[test]
fn amounts_are_read_from_decimal() {
    assert_eq!(U256::from_dec_str("0"), Some(U256::zero()));
    assert_eq!(U256::from_dec_str("007"), Some(U256::from_u128(7)));
    assert_eq!(
        U256::from_dec_str("340282366920938463463374607431768211455"),
        Some(U256::from_u128(u128::MAX))
    );
    assert_eq!(
        U256::from_dec_str("340282366920938463463374607431768211456"),
        Some(U256::from_halves(1, 0))
    );
    assert_eq!(
        U256::from_dec_str(
            "115792089237316195423570985008687907853269984665640564039457584007913129639935"
        ),
        Some(U256::from_halves(u128::MAX, u128::MAX))
    );
}

#[test]
fn amounts_that_do_not_fit_are_refused() {
    assert_eq!(
        U256::from_dec_str(
            "115792089237316195423570985008687907853269984665640564039457584007913129639936"
        ),
        None
    );
    assert_eq!(
        U256::from_dec_str(
            "1157920892373161954235709850086879078532699846656405640394575840079131296399350"
        ),
        None
    );
    assert_eq!(U256::from_dec_str(""), None);
    assert_eq!(U256::from_dec_str("12a"), None);
    assert_eq!(U256::from_dec_str("-1"), None);
    assert_eq!(U256::from_dec_str("0x10"), None);
}

#[test]
fn times_ten_plus_carries_into_the_high_half() {
    assert_eq!(U256::from_u128(12).times_ten_plus(3), Some(U256::from_u128(123)));
    assert_eq!(
        U256::from_u128(u128::MAX).times_ten_plus(9),
        Some(U256::from_halves(9, u128::MAX))
    );
    assert_eq!(U256::from_halves(u128::MAX, 0).times_ten_plus(0), None);
}

#[test]
fn holdings_are_read_from_their_texts() {
    let read = TokenBalance::from_text("0xe9e7CEA3DedcA5984780Bafc599bD69ADd087D56", "42").unwrap();
    assert_eq!(read.token_address.to_hex(), "0xe9e7cea3dedca5984780bafc599bd69add087d56");
    assert_eq!(read.amount, U256::from_u128(42));
    assert_eq!(TokenBalance::from_text("0xe9e7", "42"), None);
    assert_eq!(TokenBalance::from_text("0xe9e7CEA3DedcA5984780Bafc599bD69ADd087D56", "4.2"), None);
}
