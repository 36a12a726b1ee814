use vstd::prelude::*;
use vstd::string::StringSliceAdditionalSpecFns;

use crate::abi::{
    abi_encode_address_word, address_word, decode_quote_output_response, decode_quote_response,
    keccak, keccak_of, quote_calldata, quote_call, quote_exact_output_calldata, quoted_amount,
    DecodeError, QUOTE_EXACT_INPUT_SINGLE, QUOTE_EXACT_OUTPUT_SINGLE,
};
use crate::arbitrage::PriceData;
use crate::overlay::{AccountRecord, AccountView, CacheView, HydrationError, OverlayCache};
use crate::primitives::{Address, Word};
use crate::settings::{ConfigError, Settings};

verus! {

/// The bytes hashed to find the slot of `mapping[key]` for a mapping
/// declared at slot `base`: the key's word, then the base slot's word.
pub open spec fn mapping_preimage(base: Word, key: Address) -> Seq<u8> {
    address_word(key@) + base@
}

/// The storage slot of `mapping[key]` for a mapping declared at `base`.
pub open spec fn mapping_slot_of(base: Word, key: Address) -> Seq<u8> {
    keccak_of(mapping_preimage(base, key))
}

/// The storage slot that holds `mapping[key]`, for a mapping declared at
/// slot `base` and keyed by address.
pub fn mapping_slot(base: &Word, key: &Address) -> (r: Word)
    ensures
        r@ == mapping_slot_of(*base, *key),
{
    let preimage = abi_encode_address_word(key, base);
    keccak(preimage.as_slice())
}

/// Two slots derived from the same base slot and key are the same slot.
pub proof fn lemma_mapping_slot_deterministic(base: Word, key: Address, r1: Word, r2: Word)
    requires
        r1@ == mapping_slot_of(base, key),
        r2@ == mapping_slot_of(base, key),
    ensures
        r1 == r2,
{
    assert(r1 =~= r2);
}

/// Writes of two keys of one mapping both stay where their derived slots
/// differ: the second write does not replace the first. That distinct keys
/// derive distinct slots rests on the digest having no collisions, which is
/// taken here as a premise, not proved.
pub proof fn lemma_distinct_mapping_writes_kept(
    v: CacheView,
    contract: Address,
    base: Word,
    k1: Address,
    k2: Address,
    s1: Word,
    s2: Word,
    v1: Word,
    v2: Word,
)
    requires
        s1@ == mapping_slot_of(base, k1),
        s2@ == mapping_slot_of(base, k2),
        mapping_slot_of(base, k1) != mapping_slot_of(base, k2),
    ensures
        (CacheView {
            slot_overrides: v.slot_overrides.insert((contract, s1), v1).insert((contract, s2), v2),
            ..v
        }).slot(contract, s1) == Some(v1),
        (CacheView {
            slot_overrides: v.slot_overrides.insert((contract, s1), v1).insert((contract, s2), v2),
            ..v
        }).slot(contract, s2) == Some(v2),
{
    assert(s1 != s2);
}

/// Distinct keys of one mapping hash distinct byte strings.
pub proof fn lemma_mapping_preimage_injective(base: Word, k1: Address, k2: Address)
    requires
        k1 != k2,
    ensures
        mapping_preimage(base, k1) != mapping_preimage(base, k2),
{
    if mapping_preimage(base, k1) == mapping_preimage(base, k2) {
        assert forall|i: int| 0 <= i < 20 implies k1@[i] == k2@[i] by {
            assert(mapping_preimage(base, k1)[12 + i] == k1@[i]);
            assert(mapping_preimage(base, k2)[12 + i] == k2@[i]);
        }
        assert(k1 =~= k2);
    }
}

/// An empty overlay cache.
pub fn init_cache_db() -> (r: OverlayCache)
    ensures
        r.wf(),
        r@.account_overrides == Map::<Address, AccountView>::empty(),
        r@.hydrated_accounts == Map::<Address, AccountView>::empty(),
        r@.slot_overrides == Map::<(Address, Word), Word>::empty(),
        r@.hydrated_slots == Map::<(Address, Word), Word>::empty(),
{
    OverlayCache::new()
}

/// The zero word.
pub open spec fn zero_word() -> Seq<u8> {
    Seq::new(32, |i: int| 0u8)
}

/// An account with no balance, no nonce, the given code and its digest.
pub open spec fn is_code_account(v: AccountView, code: Seq<u8>) -> bool {
    &&& v.balance@ == zero_word()
    &&& v.nonce == 0
    &&& v.code == Some(code)
    &&& v.code_hash@ == keccak_of(code)
}

/// Substitutes the code of the account at `address` with `bytecode`.
pub fn init_account_with_bytecode(address: Address, bytecode: Vec<u8>, cache_db: &mut OverlayCache)
    requires
        old(cache_db).wf(),
    ensures
        final(cache_db).wf(),
        is_code_account(final(cache_db)@.account_overrides[address], bytecode@),
        final(cache_db)@ == (CacheView {
            account_overrides: old(cache_db)@.account_overrides.insert(
                address,
                final(cache_db)@.account_overrides[address],
            ),
            ..old(cache_db)@
        }),
{
    let code_hash = keccak(bytecode.as_slice());
    let ghost code = bytecode@;
    let record = AccountRecord { balance: [0u8; 32], nonce: 0, code: Some(bytecode), code_hash };
    assert(record@.balance@ =~= zero_word());
    cache_db.set_account_override(address, record);
}

/// Points `mapping[slot_address]` of the mapping at slot `slot` of
/// `contract` to `value`, as an override.
pub fn insert_mapping_storage_slot(
    contract: Address,
    slot: Word,
    slot_address: Address,
    value: Word,
    cache_db: &mut OverlayCache,
)
    requires
        old(cache_db).wf(),
    ensures
        final(cache_db).wf(),
        exists|k: Word|
            #![trigger old(cache_db)@.slot_overrides.insert((contract, k), value)]
            k@ == mapping_slot_of(slot, slot_address) && final(cache_db)@ == (CacheView {
                slot_overrides: old(cache_db)@.slot_overrides.insert((contract, k), value),
                ..old(cache_db)@
            }),
{
    let key = mapping_slot(&slot, &slot_address);
    cache_db.set_slot_override(contract, key, value);
}

/// The slot that holds a pool's current price and tick.
pub const POOL_STATE_SLOT: Word = [
    0, 0, 0, 0, 0, 0, 0, 0, 0, 0, 0, 0, 0, 0, 0, 0,
    0, 0, 0, 0, 0, 0, 0, 0, 0, 0, 0, 0, 0, 0, 0, 0,
];

/// Replaces the cached price state of `pool` with a fresh remote read.
pub fn hydrate_pool_state(
    cache_db: &mut OverlayCache,
    pool: Address,
    fetched: Result<Word, HydrationError>,
) -> (r: Result<(), HydrationError>)
    requires
        old(cache_db).wf(),
    ensures
        final(cache_db).wf(),
        fetched matches Err(e) ==> r == Err::<(), HydrationError>(e) && final(cache_db)@ == old(
            cache_db,
        )@,
        fetched matches Ok(w) ==> r is Ok && final(cache_db)@ == old(cache_db)@.with_slot_refreshed(
            pool,
            POOL_STATE_SLOT,
            w,
        ),
{
    cache_db.refresh_slot(pool, POOL_STATE_SLOT, fetched)
}

/// Price units per smallest unit of the quote token (six decimals, where
/// price units have eight).
pub const QUOTE_UNIT_TO_PRICE: u128 = 100;

/// One whole base token in its smallest units: the notional of a quote.
pub const ONE_ETHER: u128 = 1_000_000_000_000_000_000;

/// The simulated call did not return.
#[derive(Clone, Copy, Debug, PartialEq, Eq, Structural)]
pub enum ExecutionError {
    /// The call reverted.
    Reverted,
    /// The call stopped abnormally, for want of gas or on an invalid instruction.
    Halted,
    /// The execution primitive could not be reached.
    Unreachable,
}

/// Why a quote cycle ended without a price.
#[derive(Clone, Copy, Debug, PartialEq, Eq, Structural)]
pub enum QuoteError {
    Hydration(HydrationError),
    Execution(ExecutionError),
    Decode(DecodeError),
    /// The quoted amount is beyond the range of prices.
    PriceOutOfRange,
}

/// The price that a quoter's response gives.
pub open spec fn quoted_price(response: Seq<u8>) -> Result<u64, QuoteError> {
    match quoted_amount(response) {
        None => Err(QuoteError::Decode(DecodeError::TooShort)),
        Some(raw) => if raw * QUOTE_UNIT_TO_PRICE <= u64::MAX {
            Ok((raw * QUOTE_UNIT_TO_PRICE) as u64)
        } else {
            Err(QuoteError::PriceOutOfRange)
        },
    }
}

fn price_of(decoded: Result<u128, DecodeError>) -> (r: Result<u64, QuoteError>)
    ensures
        decoded matches Err(e) ==> r == Err::<u64, QuoteError>(QuoteError::Decode(e)),
        decoded matches Ok(raw) ==> r == (if raw * QUOTE_UNIT_TO_PRICE <= u64::MAX {
            Ok::<u64, QuoteError>((raw * QUOTE_UNIT_TO_PRICE) as u64)
        } else {
            Err::<u64, QuoteError>(QuoteError::PriceOutOfRange)
        }),
{
    match decoded {
        Err(e) => Err(QuoteError::Decode(e)),
        Ok(raw) => match raw.checked_mul(QUOTE_UNIT_TO_PRICE) {
            Some(p) => if p <= u64::MAX as u128 {
                Ok(p as u64)
            } else {
                Err(QuoteError::PriceOutOfRange)
            },
            None => Err(QuoteError::PriceOutOfRange),
        },
    }
}

/// The bid in an exact-input quote's response.
pub fn bid_from_response(response: &[u8]) -> (r: Result<u64, QuoteError>)
    ensures
        r == quoted_price(response@),
{
    price_of(decode_quote_response(response))
}

/// The ask in an exact-output quote's response.
pub fn ask_from_response(response: &[u8]) -> (r: Result<u64, QuoteError>)
    ensures
        r == quoted_price(response@),
{
    price_of(decode_quote_output_response(response))
}

/// Where a quote cycle stands.
#[derive(Clone, Copy, Debug, PartialEq, Eq, Structural)]
pub enum QuotePhase {
    Idle,
    /// Waiting for the re-read of the pool's price state.
    Refreshing,
    /// Waiting for the exact-input quote, which gives the bid.
    QuotingBid,
    /// Waiting for the exact-output quote, which gives the ask.
    QuotingAsk { bid: u64 },
}

/// What the host hands to the quote engine.
pub enum QuoteEvent {
    /// The interval elapsed: a cycle starts.
    Tick,
    /// The remote read of the pool's price state.
    PoolSlot(Result<Word, HydrationError>),
    /// The outcome of the simulated call that was asked for.
    CallResult(Result<Vec<u8>, ExecutionError>),
}

/// What the quote engine asks the host to do next.
pub enum QuoteAction {
    /// Read this storage word from the remote chain view.
    FetchSlot { address: Address, slot: Word },
    /// Simulate this call against the engine's cache.
    Execute { caller: Address, target: Address, calldata: Vec<u8> },
    /// Publish this price on the pool's channel; the cycle is done.
    Publish(PriceData),
    /// The cycle is abandoned; the last price stays published.
    Abort(QuoteError),
    /// Nothing to do until the next event.
    Wait,
}

/// Produces bid and ask prices of the pool from simulated quote calls
/// against its own overlay cache.
pub struct QuoteEngine {
    pub caller: Address,
    pub quoter: Address,
    pub pool: Address,
    pub base_token: Address,
    pub quote_token: Address,
    pub fee_tier: u32,
    pub notional: u128,
    pub cache: OverlayCache,
    pub phase: QuotePhase,
}

/// The largest word halved: the balance given to the pool in the token
/// overrides.
pub open spec fn half_max_word() -> Seq<u8> {
    seq![0x7fu8] + Seq::new(31, |i: int| 0xffu8)
}

impl QuoteEngine {
    pub open spec fn wf(&self) -> bool {
        self.cache.wf() && self.fee_tier < 0x100_0000
    }

    pub open spec fn same_setup(&self, other: &QuoteEngine) -> bool {
        &&& self.caller == other.caller
        &&& self.quoter == other.quoter
        &&& self.pool == other.pool
        &&& self.base_token == other.base_token
        &&& self.quote_token == other.quote_token
        &&& self.fee_tier == other.fee_tier
        &&& self.notional == other.notional
    }

    /// An idle engine for the pool that the settings name. Its cache runs
    /// `erc20_code` at the base token and gives the pool half the largest
    /// balance of both tokens, so that quotes never fail for want of funds.
    pub fn new(config: &Settings, erc20_code: Vec<u8>) -> (r: Result<QuoteEngine, ConfigError>)
        ensures
            config.dex_fee_tier >= 0x100_0000 <==> r is Err,
            r matches Err(e) ==> e == ConfigError::FeeTierOutOfRange,
            r matches Ok(q) ==> {
                &&& q.wf()
                &&& q.phase == QuotePhase::Idle
                &&& q.caller == config.self_addr
                &&& q.quoter == config.quoter_v2_addr
                &&& q.pool == config.pool_addr
                &&& q.base_token == config.weth_addr
                &&& q.quote_token == config.usdt_addr
                &&& q.fee_tier == config.dex_fee_tier
                &&& q.notional == ONE_ETHER
                &&& q.cache@.hydrated_accounts == Map::<Address, AccountView>::empty()
                &&& q.cache@.hydrated_slots == Map::<(Address, Word), Word>::empty()
                &&& q.cache@.account_overrides.dom() == set![config.weth_addr]
                &&& is_code_account(q.cache@.account_overrides[config.weth_addr], erc20_code@)
                &&& forall|k: (Address, Word)| #[trigger]
                    q.cache@.slot_overrides.contains_key(k) ==> q.cache@.slot_overrides[k]@
                        == half_max_word()
                &&& forall|t: Address, k: Word|
                    (t == config.weth_addr || t == config.usdt_addr) && k@ == mapping_slot_of(
                        POOL_STATE_SLOT,
                        config.pool_addr,
                    ) ==> #[trigger] q.cache@.slot_overrides.contains_key((t, k))
                &&& exists|k: Word|
                    #![trigger q.cache@.slot_overrides.contains_key((config.weth_addr, k))]
                    k@ == mapping_slot_of(POOL_STATE_SLOT, config.pool_addr)
                        && q.cache@.slot_overrides.dom() == set![
                        (config.weth_addr, k),
                        (config.usdt_addr, k),
                    ]
            },
    {
        if config.dex_fee_tier >= 0x100_0000 {
            return Err(ConfigError::FeeTierOutOfRange);
        }
        let mut cache = init_cache_db();
        init_account_with_bytecode(config.weth_addr, erc20_code, &mut cache);
        let mut big: Word = [0xffu8; 32];
        big[0] = 0x7f;
        assert(big@ =~= half_max_word());
        let ghost c1 = cache@;
        insert_mapping_storage_slot(config.weth_addr, POOL_STATE_SLOT, config.pool_addr, big, &mut cache);
        let ghost c2 = cache@;
        insert_mapping_storage_slot(config.usdt_addr, POOL_STATE_SLOT, config.pool_addr, big, &mut cache);
        proof {
            assert(c1.account_overrides.dom() =~= set![config.weth_addr]);
            assert forall|t: Address, k: Word|
                (t == config.weth_addr || t == config.usdt_addr) && k@ == mapping_slot_of(
                    POOL_STATE_SLOT,
                    config.pool_addr,
                ) implies #[trigger] cache@.slot_overrides.contains_key((t, k)) by {
                let k1 = choose|k1: Word|
                    #![trigger c1.slot_overrides.insert((config.weth_addr, k1), big)]
                    k1@ == mapping_slot_of(POOL_STATE_SLOT, config.pool_addr) && c2 == (CacheView {
                        slot_overrides: c1.slot_overrides.insert((config.weth_addr, k1), big),
                        ..c1
                    });
                let k2 = choose|k2: Word|
                    #![trigger c2.slot_overrides.insert((config.usdt_addr, k2), big)]
                    k2@ == mapping_slot_of(POOL_STATE_SLOT, config.pool_addr) && cache@ == (CacheView {
                        slot_overrides: c2.slot_overrides.insert((config.usdt_addr, k2), big),
                        ..c2
                    });
                assert(k1 =~= k);
                assert(k2 =~= k);
                assert(c2.slot_overrides.contains_key((config.weth_addr, k)));
            }
            let k1 = choose|k1: Word|
                #![trigger c1.slot_overrides.insert((config.weth_addr, k1), big)]
                k1@ == mapping_slot_of(POOL_STATE_SLOT, config.pool_addr) && c2 == (CacheView {
                    slot_overrides: c1.slot_overrides.insert((config.weth_addr, k1), big),
                    ..c1
                });
            let k2 = choose|k2: Word|
                #![trigger c2.slot_overrides.insert((config.usdt_addr, k2), big)]
                k2@ == mapping_slot_of(POOL_STATE_SLOT, config.pool_addr) && cache@ == (CacheView {
                    slot_overrides: c2.slot_overrides.insert((config.usdt_addr, k2), big),
                    ..c2
                });
            assert(k1 =~= k2);
            assert(cache@.slot_overrides.dom() =~= set![(config.weth_addr, k1), (config.usdt_addr, k1)]);
            assert(cache@.slot_overrides.contains_key((config.weth_addr, k1)));
        }
        Ok(
            QuoteEngine {
                caller: config.self_addr,
                quoter: config.quoter_v2_addr,
                pool: config.pool_addr,
                base_token: config.weth_addr,
                quote_token: config.usdt_addr,
                fee_tier: config.dex_fee_tier,
                notional: ONE_ETHER,
                cache,
                phase: QuotePhase::Idle,
            },
        )
    }

    /// Moves the quote cycle on by one event. A tick re-reads the pool's
    /// price state; once it is in the cache, the exact-input quote of one
    /// base token gives the bid, then the exact-output quote the ask, and the
    /// pair is published. Any failure abandons the cycle.
    pub fn advance(&mut self, event: QuoteEvent) -> (r: QuoteAction)
        requires
            old(self).wf(),
        ensures
            final(self).wf(),
            final(self).same_setup(old(self)),
            match event {
                QuoteEvent::Tick => {
                    &&& final(self).phase == QuotePhase::Refreshing
                    &&& final(self).cache@ == old(self).cache@
                    &&& r matches QuoteAction::FetchSlot { address, slot } && address == old(self).pool
                        && slot == POOL_STATE_SLOT
                },
                QuoteEvent::PoolSlot(fetched) => if old(self).phase == QuotePhase::Refreshing {
                    match fetched {
                        Err(e) => {
                            &&& final(self).phase == QuotePhase::Idle
                            &&& final(self).cache@ == old(self).cache@
                            &&& r matches QuoteAction::Abort(qe) && qe == QuoteError::Hydration(e)
                        },
                        Ok(w) => {
                            &&& final(self).phase == QuotePhase::QuotingBid
                            &&& final(self).cache@ == old(self).cache@.with_slot_refreshed(
                                old(self).pool,
                                POOL_STATE_SLOT,
                                w,
                            )
                            &&& r matches QuoteAction::Execute { caller, target, calldata }
                                && caller == old(self).caller && target == old(self).quoter
                                && calldata@ == quote_call(
                                QUOTE_EXACT_INPUT_SINGLE.spec_bytes(),
                                old(self).base_token,
                                old(self).quote_token,
                                old(self).notional,
                                old(self).fee_tier,
                            )
                        },
                    }
                } else {
                    final(self).phase == old(self).phase && final(self).cache@ == old(self).cache@
                        && r is Wait
                },
                QuoteEvent::CallResult(outcome) => {
                    &&& final(self).cache@ == old(self).cache@
                    &&& match old(self).phase {
                        QuotePhase::QuotingBid => match outcome {
                            Err(e) => final(self).phase == QuotePhase::Idle && (r matches QuoteAction::Abort(
                                qe,
                            ) && qe == QuoteError::Execution(e)),
                            Ok(bytes) => match quoted_price(bytes@) {
                                Err(qe) => final(self).phase == QuotePhase::Idle && (r matches QuoteAction::Abort(
                                    got,
                                ) && got == qe),
                                Ok(bid) => {
                                    &&& final(self).phase == QuotePhase::QuotingAsk { bid }
                                    &&& r matches QuoteAction::Execute { caller, target, calldata }
                                        && caller == old(self).caller && target == old(self).quoter
                                        && calldata@ == quote_call(
                                        QUOTE_EXACT_OUTPUT_SINGLE.spec_bytes(),
                                        old(self).quote_token,
                                        old(self).base_token,
                                        old(self).notional,
                                        old(self).fee_tier,
                                    )
                                },
                            },
                        },
                        QuotePhase::QuotingAsk { bid } => {
                            &&& final(self).phase == QuotePhase::Idle
                            &&& match outcome {
                                Err(e) => r matches QuoteAction::Abort(qe) && qe
                                    == QuoteError::Execution(e),
                                Ok(bytes) => match quoted_price(bytes@) {
                                    Err(qe) => r matches QuoteAction::Abort(got) && got == qe,
                                    Ok(ask) => r matches QuoteAction::Publish(p) && p == PriceData {
                                        bid,
                                        ask,
                                    },
                                },
                            }
                        },
                        _ => final(self).phase == old(self).phase && r is Wait,
                    }
                },
            },
    {
        match event {
            QuoteEvent::Tick => {
                self.phase = QuotePhase::Refreshing;
                QuoteAction::FetchSlot { address: self.pool, slot: POOL_STATE_SLOT }
            },
            QuoteEvent::PoolSlot(fetched) => {
                if self.phase != QuotePhase::Refreshing {
                    return QuoteAction::Wait;
                }
                match hydrate_pool_state(&mut self.cache, self.pool, fetched) {
                    Err(e) => {
                        self.phase = QuotePhase::Idle;
                        QuoteAction::Abort(QuoteError::Hydration(e))
                    },
                    Ok(()) => {
                        self.phase = QuotePhase::QuotingBid;
                        let calldata = quote_calldata(
                            self.base_token,
                            self.quote_token,
                            self.notional,
                            self.fee_tier,
                        );
                        QuoteAction::Execute { caller: self.caller, target: self.quoter, calldata }
                    },
                }
            },
            QuoteEvent::CallResult(outcome) => match self.phase {
                QuotePhase::QuotingBid => {
                    let priced = match outcome {
                        Err(e) => Err(QuoteError::Execution(e)),
                        Ok(bytes) => bid_from_response(bytes.as_slice()),
                    };
                    match priced {
                        Err(qe) => {
                            self.phase = QuotePhase::Idle;
                            QuoteAction::Abort(qe)
                        },
                        Ok(bid) => {
                            self.phase = QuotePhase::QuotingAsk { bid };
                            let calldata = quote_exact_output_calldata(
                                self.quote_token,
                                self.base_token,
                                self.notional,
                                self.fee_tier,
                            );
                            QuoteAction::Execute { caller: self.caller, target: self.quoter, calldata }
                        },
                    }
                },
                QuotePhase::QuotingAsk { bid } => {
                    self.phase = QuotePhase::Idle;
                    let priced = match outcome {
                        Err(e) => Err(QuoteError::Execution(e)),
                        Ok(bytes) => ask_from_response(bytes.as_slice()),
                    };
                    match priced {
                        Err(qe) => QuoteAction::Abort(qe),
                        Ok(ask) => QuoteAction::Publish(PriceData { bid, ask }),
                    }
                },
                _ => QuoteAction::Wait,
            },
        }
    }
}

} // verus!
