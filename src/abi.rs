use vstd::arithmetic::power::pow;
use vstd::prelude::*;
use vstd::string::StringSliceAdditionalSpecFns;

use alloy::sol_types::SolValue;

use crate::primitives::{Address, Word};

verus! {

/// The Keccak-256 digest of a byte string.
pub uninterp spec fn keccak_of(data: Seq<u8>) -> Seq<u8>;

/// Relies on `alloy_primitives::keccak256`: the Keccak-256 digest of the bytes.
#[verifier::external_body]
pub(crate) fn keccak(data: &[u8]) -> (r: Word)
    ensures
        r@ == keccak_of(data@),
{
    alloy::primitives::keccak256(data).0
}

/// The ABI word of an address: twelve zero bytes, then the twenty of the address.
pub open spec fn address_word(a: Seq<u8>) -> Seq<u8> {
    Seq::new(12, |i: int| 0u8) + a
}

/// The ABI word of an unsigned number below 2^256: 32 bytes, big-endian.
pub open spec fn uint_word(v: nat) -> Seq<u8> {
    Seq::new(32, |i: int| ((v as int / pow(256, (31 - i) as nat)) % 256) as u8)
}

/// The number that a big-endian byte string denotes.
pub open spec fn be_value(s: Seq<u8>) -> nat
    decreases s.len(),
{
    if s.len() == 0 {
        0
    } else {
        be_value(s.drop_last()) * 256 + s.last() as nat
    }
}

/// Relies on `SolValue::abi_encode` for `(address, address, uint256, uint24, uint160)`:
/// a static tuple encodes as one 32-byte word per field, each value
/// right-aligned; `U24::from` panics above 24 bits, which `requires` rules out.
#[verifier::external_body]
fn abi_encode_quote_params(
    token_in: &Address,
    token_out: &Address,
    amount: u128,
    fee: u32,
    price_limit: &Address,
) -> (r: Vec<u8>)
    requires
        fee < 0x100_0000,
    ensures
        r@ == address_word(token_in@) + address_word(token_out@) + uint_word(amount as nat)
            + uint_word(fee as nat) + address_word(price_limit@),
{
    (
        alloy::primitives::Address::from(*token_in),
        alloy::primitives::Address::from(*token_out),
        alloy::primitives::U256::from(amount),
        alloy::primitives::aliases::U24::from(fee),
        alloy::primitives::aliases::U160::from_be_bytes(*price_limit),
    ).abi_encode()
}

/// Relies on `SolValue::abi_encode` for `(address, uint256)`: the address word,
/// then the 32 bytes of the number.
#[verifier::external_body]
pub(crate) fn abi_encode_address_word(a: &Address, w: &Word) -> (r: Vec<u8>)
    ensures
        r@ == address_word(a@) + w@,
{
    (alloy::primitives::Address::from(*a), alloy::primitives::U256::from_be_bytes(*w)).abi_encode()
}

#[verifier::external_type_specification]
#[verifier::external_body]
pub struct ExAbiError(alloy::sol_types::Error);

/// Relies on `SolValue::abi_decode` for `(uint128, uint128, uint32, uint128)`.
/// The default decoder does not validate: it reads four words from the start,
/// fails only where fewer than 128 bytes are given, ignores trailing bytes,
/// and takes a `uint128` from the low 16 bytes of its word. The first field
/// is returned.
#[verifier::external_body]
fn abi_decode_first_u128(data: &[u8]) -> (r: Result<u128, alloy::sol_types::Error>)
    ensures
        r is Ok <==> data@.len() >= 128,
        r matches Ok(v) ==> v == be_value(data@.subrange(16, 32)),
{
    <(u128, u128, u32, u128)>::abi_decode(data).map(|t| t.0)
}

/// Signature of the exact-input quote call.
pub const QUOTE_EXACT_INPUT_SINGLE: &'static str =
    "quoteExactInputSingle((address,address,uint256,uint24,uint160))";

/// Signature of the exact-output quote call.
pub const QUOTE_EXACT_OUTPUT_SINGLE: &'static str =
    "quoteExactOutputSingle((address,address,uint256,uint24,uint160))";

/// Price limit for a swap from the lower token to the higher one: just above
/// the smallest valid square-root price, so that the limit never binds.
pub const LOWER_PRICE_LIMIT: Address = [
    0x00, 0x00, 0x00, 0x00, 0x00, 0x00, 0x00, 0x00, 0x00, 0x00,
    0x00, 0x00, 0x00, 0x00, 0x00, 0x01, 0x00, 0x02, 0x76, 0xad,
];

/// Price limit for a swap from the higher token to the lower one: just below
/// the largest valid square-root price.
pub const UPPER_PRICE_LIMIT: Address = [
    0xff, 0xfd, 0x89, 0x63, 0xef, 0xd1, 0xfc, 0x6a, 0x50, 0x64,
    0x88, 0x49, 0x5d, 0x95, 0x1d, 0x52, 0x63, 0x98, 0x8d, 0x25,
];

/// `a` sorts before `b` byte by byte.
pub open spec fn bytes_less(a: Seq<u8>, b: Seq<u8>) -> bool {
    exists|i: int|
        0 <= i < a.len() && i < b.len() && a[i] < b[i] && forall|j: int|
            0 <= j < i ==> a[j] == b[j]
}

/// Whether `a` sorts before `b`, as addresses are ordered.
pub fn address_less(a: &Address, b: &Address) -> (r: bool)
    ensures
        r == bytes_less(a@, b@),
{
    let mut i: usize = 0;
    while i < 20
        invariant
            0 <= i <= 20,
            a@.len() == 20,
            b@.len() == 20,
            forall|j: int| 0 <= j < i ==> a@[j] == b@[j],
        decreases 20 - i,
    {
        if a[i] != b[i] {
            if a[i] < b[i] {
                return true;
            } else {
                assert forall|k: int|
                    0 <= k < a@.len() && k < b@.len() && a@[k] < b@[k] implies !(forall|j: int|
                    0 <= j < k ==> a@[j] == b@[j]) by {
                    if k < i {
                    } else if k > i {
                        assert(a@[i as int] != b@[i as int]);
                    }
                }
                return false;
            }
        }
        i = i + 1;
    }
    false
}

/// The first four bytes of the digest of a function's signature.
pub open spec fn selector_of(signature: Seq<u8>) -> Seq<u8> {
    keccak_of(signature).subrange(0, 4)
}

/// The selector that starts a call of the function with this signature.
pub fn function_selector(signature: &str) -> (r: [u8; 4])
    ensures
        r@ == selector_of(signature.spec_bytes()),
{
    let h = keccak(signature.as_bytes());
    let r = [h[0], h[1], h[2], h[3]];
    assert(r@ =~= selector_of(signature.spec_bytes()));
    r
}

/// The price limit that a quote from `token_in` to `token_out` carries.
pub open spec fn price_limit_for(token_in: Address, token_out: Address) -> Address {
    if bytes_less(token_in@, token_out@) {
        LOWER_PRICE_LIMIT
    } else {
        UPPER_PRICE_LIMIT
    }
}

/// The calldata of a single-pool quote call: selector, then the words of
/// `(token_in, token_out, amount, fee, price_limit)`.
pub open spec fn quote_call(
    signature: Seq<u8>,
    token_in: Address,
    token_out: Address,
    amount: u128,
    fee: u32,
) -> Seq<u8> {
    selector_of(signature) + address_word(token_in@) + address_word(token_out@) + uint_word(
        amount as nat,
    ) + uint_word(fee as nat) + address_word(price_limit_for(token_in, token_out)@)
}

fn single_quote_calldata(
    signature: &str,
    token_in: &Address,
    token_out: &Address,
    amount: u128,
    fee: u32,
) -> (r: Vec<u8>)
    requires
        fee < 0x100_0000,
    ensures
        r@ == quote_call(signature.spec_bytes(), *token_in, *token_out, amount, fee),
        r@.len() == 164,
{
    let limit = if address_less(token_in, token_out) {
        LOWER_PRICE_LIMIT
    } else {
        UPPER_PRICE_LIMIT
    };
    let selector = function_selector(signature);
    let mut out: Vec<u8> = Vec::new();
    out.extend_from_slice(&selector);
    let mut params = abi_encode_quote_params(token_in, token_out, amount, fee, &limit);
    out.append(&mut params);
    assert(out@ =~= quote_call(signature.spec_bytes(), *token_in, *token_out, amount, fee));
    out
}

/// Calldata that asks the quoter how much of `token_out` selling `amount_in`
/// of `token_in` yields.
pub fn quote_calldata(token_in: Address, token_out: Address, amount_in: u128, fee: u32) -> (r: Vec<
    u8,
>)
    requires
        fee < 0x100_0000,
    ensures
        r@ == quote_call(QUOTE_EXACT_INPUT_SINGLE.spec_bytes(), token_in, token_out, amount_in, fee),
        r@.len() == 164,
{
    single_quote_calldata(QUOTE_EXACT_INPUT_SINGLE, &token_in, &token_out, amount_in, fee)
}

/// Calldata that asks the quoter how much of `token_in` buying `amount_out`
/// of `token_out` costs.
pub fn quote_exact_output_calldata(
    token_in: Address,
    token_out: Address,
    amount_out: u128,
    fee: u32,
) -> (r: Vec<u8>)
    requires
        fee < 0x100_0000,
    ensures
        r@ == quote_call(QUOTE_EXACT_OUTPUT_SINGLE.spec_bytes(), token_in, token_out, amount_out, fee),
        r@.len() == 164,
{
    single_quote_calldata(QUOTE_EXACT_OUTPUT_SINGLE, &token_in, &token_out, amount_out, fee)
}

/// The quoted amount in a quoter's response: the first of its four words,
/// read as a `uint128`; `None` where the response is shorter than four words.
pub open spec fn quoted_amount(response: Seq<u8>) -> Option<u128> {
    if response.len() >= 128 {
        Some(be_value(response.subrange(16, 32)) as u128)
    } else {
        None
    }
}

/// A response that holds no quote.
#[derive(Clone, Copy, Debug, PartialEq, Eq, Structural)]
pub enum DecodeError {
    /// Fewer than the four words of a quote.
    TooShort,
}

fn decode_amount(response: &[u8]) -> (r: Result<u128, DecodeError>)
    ensures
        quoted_amount(response@) matches Some(v) ==> r == Ok::<u128, DecodeError>(v),
        quoted_amount(response@) is None ==> r == Err::<u128, DecodeError>(DecodeError::TooShort),
{
    match abi_decode_first_u128(response) {
        Ok(v) => Ok(v),
        Err(_) => Err(DecodeError::TooShort),
    }
}

/// The amount out that an exact-input quote returns.
pub fn decode_quote_response(response: &[u8]) -> (r: Result<u128, DecodeError>)
    ensures
        quoted_amount(response@) matches Some(v) ==> r == Ok::<u128, DecodeError>(v),
        quoted_amount(response@) is None ==> r == Err::<u128, DecodeError>(DecodeError::TooShort),
{
    decode_amount(response)
}

/// The amount in that an exact-output quote returns.
pub fn decode_quote_output_response(response: &[u8]) -> (r: Result<u128, DecodeError>)
    ensures
        quoted_amount(response@) matches Some(v) ==> r == Ok::<u128, DecodeError>(v),
        quoted_amount(response@) is None ==> r == Err::<u128, DecodeError>(DecodeError::TooShort),
{
    decode_amount(response)
}

} // verus!
