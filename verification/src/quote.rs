//! What a maker advertises.
use vstd::prelude::*;

verus! {

/// The exact decimal number `mantissa / 10^scale`.
#[derive(Debug, Clone, Copy, PartialEq, Eq, Structural)]
pub struct Ratio {
    pub mantissa: i128,
    pub scale: u32,
}

/// Terms applied if a swap is cancelled.
#[derive(Debug, Clone, Copy, PartialEq, Eq, Structural)]
pub enum RefundPolicyWire {
    /// The taker receives all of their BTC back.
    FullRefund,
    /// The maker may withhold a deposit, given as a fraction of the BTC.
    PartialRefund { anti_spam_deposit_ratio: Ratio },
}

/// A Monero proof of reserves, with the address that it is against and the
/// message that it signs.
#[derive(Debug, Clone, PartialEq, Eq)]
pub struct ReserveProofWithAddress {
    pub address: String,
    pub proof: String,
    pub message: String,
}

/// A maker's offer to sell XMR for BTC. Amounts are in satoshis.
#[derive(Debug)]
pub struct BidQuote {
    /// BTC asked for 1 XMR.
    pub price_sat: u64,
    /// Minimum amount of BTC in a swap.
    pub min_quantity_sat: u64,
    /// Maximum amount of BTC in a swap.
    pub max_quantity_sat: u64,
    pub refund_policy: RefundPolicyWire,
    pub reserve_proof: Option<ReserveProofWithAddress>,
}

} // verus!
