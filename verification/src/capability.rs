//! Capability flags of an instrument: a 64-bit set, one bit per capability.
//! Engines and validation react to capabilities, never to the asset class.
use vstd::prelude::*;

verus! {

// Engine A: order book / CLOB
pub const HAS_ORDER_BOOK: u64 = 1u64 << 0u64;
pub const HAS_CORPORATE_ACTIONS: u64 = 1u64 << 1u64;
pub const HAS_SHORT_BORROW: u64 = 1u64 << 2u64;
pub const HAS_SESSIONS: u64 = 1u64 << 3u64;
pub const HAS_MAKER_TAKER_FEES: u64 = 1u64 << 4u64;
pub const HAS_TOKEN_EVENTS: u64 = 1u64 << 5u64;
// Engine C: NAV / ETF
pub const HAS_NAV: u64 = 1u64 << 6u64;
pub const HAS_BASKET: u64 = 1u64 << 7u64;
pub const HAS_DAILY_RESET: u64 = 1u64 << 8u64;
// Engine D: cash flow / bonds
pub const HAS_COUPON: u64 = 1u64 << 9u64;
pub const HAS_YIELD: u64 = 1u64 << 10u64;
pub const HAS_MATURITY: u64 = 1u64 << 11u64;
pub const HAS_CREDIT_RISK: u64 = 1u64 << 12u64;
// Futures / options
pub const HAS_EXPIRY: u64 = 1u64 << 13u64;
pub const HAS_OPEN_INTEREST: u64 = 1u64 << 14u64;
pub const HAS_ROLL_SCHEDULE: u64 = 1u64 << 15u64;
// Engine A: perpetuals
pub const HAS_FUNDING: u64 = 1u64 << 16u64;
pub const HAS_MARK_PRICE: u64 = 1u64 << 17u64;
pub const HAS_LIQUIDATION: u64 = 1u64 << 18u64;
pub const IS_LEVERAGED: u64 = 1u64 << 19u64;
// Engine E: options / derivatives
pub const HAS_GREEKS: u64 = 1u64 << 20u64;
pub const HAS_IV_SURFACE: u64 = 1u64 << 21u64;
pub const HAS_EARLY_EXERCISE: u64 = 1u64 << 22u64;
// Engine A: FX
pub const HAS_SWAP_RATES: u64 = 1u64 << 23u64;
pub const HAS_SESSION_LIQUIDITY: u64 = 1u64 << 24u64;
// Engine B: AMM / DEX
pub const HAS_POOL_RESERVES: u64 = 1u64 << 25u64;
pub const HAS_CONCENTRATED_LIQUIDITY: u64 = 1u64 << 26u64;
pub const HAS_GAS_COST: u64 = 1u64 << 27u64;
// Engine G: marketplace
pub const IS_UNIQUE: u64 = 1u64 << 28u64;
pub const IS_FUNGIBLE_SKU: u64 = 1u64 << 29u64;
pub const HAS_RARITY: u64 = 1u64 << 30u64;
pub const HAS_FLOOR: u64 = 1u64 << 31u64;
pub const IS_ILLIQUID: u64 = 1u64 << 32u64;
pub const HAS_TIMED_AUCTION: u64 = 1u64 << 33u64;
pub const HAS_OFFER: u64 = 1u64 << 34u64;
pub const HAS_ROYALTY: u64 = 1u64 << 35u64;
pub const HAS_PHYSICAL_FULFILLMENT: u64 = 1u64 << 36u64;
// Engine H: prediction markets
pub const IS_BINARY: u64 = 1u64 << 37u64;
pub const HAS_RESOLUTION: u64 = 1u64 << 38u64;
pub const HAS_ORACLE_RISK: u64 = 1u64 << 39u64;
pub const HAS_PROBABILITY_PRICE: u64 = 1u64 << 40u64;
pub const HAS_CLOB: u64 = 1u64 << 41u64;
// Engine A: advanced order book
pub const HAS_L3_ORDER_BOOK: u64 = 1u64 << 42u64;
pub const HAS_AUCTION: u64 = 1u64 << 43u64;
pub const HAS_TRADING_STATUS: u64 = 1u64 << 44u64;
pub const HAS_UNIVERSE_MEMBERSHIP: u64 = 1u64 << 45u64;
// Engine C: ETF
pub const HAS_HOLDINGS: u64 = 1u64 << 46u64;
pub const HAS_CREATION_REDEMPTION: u64 = 1u64 << 47u64;
// Engine B: swap history
pub const HAS_SWAP_EVENT: u64 = 1u64 << 48u64;
// Engines A / E: liquidation stream, borrow, fee updates
pub const HAS_LIQUIDATION_STREAM: u64 = 1u64 << 49u64;
pub const HAS_BORROW_RATE: u64 = 1u64 << 50u64;
pub const HAS_FEE_SCHEDULE_UPDATES: u64 = 1u64 << 51u64;
// All engines: exogenous signals
pub const HAS_EXOGENOUS_SIGNALS: u64 = 1u64 << 52u64;

/// Every defined flag: bits 0 to 52.
pub const ALL_FLAGS: u64 = 0x001F_FFFF_FFFF_FFFFu64;

/// A set of capability flags.
#[derive(Clone, Copy, Debug, PartialEq, Eq, Structural, Hash)]
pub struct CapabilityFlags {
    pub bits: u64,
}

impl CapabilityFlags {
    /// Every flag of `flag` is set.
    pub open spec fn has(self, flag: u64) -> bool {
        self.bits & flag == flag
    }

    /// The empty set.
    pub fn empty() -> (r: CapabilityFlags)
        ensures
            r.bits == 0,
    {
        CapabilityFlags { bits: 0 }
    }

    /// The set with exactly the given bits, kept as they are.
    pub fn from_bits_retain(bits: u64) -> (r: CapabilityFlags)
        ensures
            r.bits == bits,
    {
        CapabilityFlags { bits }
    }

    /// The set with the given bits, or `None` when a bit names no flag.
    pub open spec fn spec_from_bits(bits: u64) -> Option<CapabilityFlags> {
        if bits & !ALL_FLAGS == 0 {
            Some(CapabilityFlags { bits })
        } else {
            None
        }
    }

    /// Only defined flags are set.
    pub open spec fn valid(self) -> bool {
        self.bits & !ALL_FLAGS == 0
    }

    /// The set with the given bits, or `None` when a bit names no flag
    /// (what deserialization accepts).
    pub fn from_bits(bits: u64) -> (r: Option<CapabilityFlags>)
        ensures
            r == CapabilityFlags::spec_from_bits(bits),
    {
        if bits & !ALL_FLAGS == 0 {
            Some(CapabilityFlags { bits })
        } else {
            None
        }
    }

    /// The raw bits (what serialization writes).
    pub fn bits(&self) -> (r: u64)
        ensures
            r == self.bits,
    {
        self.bits
    }

    /// Every flag of `flag` is set.
    pub fn contains(&self, flag: u64) -> (r: bool)
        ensures
            r == self.has(flag),
    {
        self.bits & flag == flag
    }

    /// The set with the flags of `flag` added.
    pub fn with(&self, flag: u64) -> (r: CapabilityFlags)
        ensures
            r.bits == self.bits | flag,
    {
        CapabilityFlags { bits: self.bits | flag }
    }
}

/// Writing a set of flags as its bits and reading them back gives the same
/// set, for every set of defined flags; adding a defined flag keeps a set valid.
pub proof fn flags_round_trip(f: CapabilityFlags, flag: u64)
    requires
        f.valid(),
        flag & !ALL_FLAGS == 0,
    ensures
        CapabilityFlags::spec_from_bits(f.bits) == Some(f),
        (CapabilityFlags { bits: f.bits | flag }).valid(),
        (CapabilityFlags { bits: f.bits | flag }).has(flag),
{
    let b = f.bits;
    assert((b | flag) & !ALL_FLAGS == 0 && (b | flag) & flag == flag) by (bit_vector)
        requires
            b & !0x001F_FFFF_FFFF_FFFFu64 == 0,
            flag & !0x001F_FFFF_FFFF_FFFFu64 == 0,
    ;
}

} // verus!
