use vstd::prelude::*;

verus! {

/// The configuration of a Duality liquidity pair, as returned by the
/// pool's `GetConfig` query.
#[derive(Debug)]
pub struct GetConfigResponse {
    pub pair_data: PairData,
    pub lp_denom: String,
}

/// The two tokens of a pair and the pair's identifier.
#[derive(Debug)]
pub struct PairData {
    pub token_0: TokenData,
    pub token_1: TokenData,
    pub pair_id: String,
}

/// One token of a pair, named by its denom.
#[derive(Debug)]
pub struct TokenData {
    pub denom: String,
}

} // verus!
