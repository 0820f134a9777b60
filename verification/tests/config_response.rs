use valence_utils::config_response::{GetConfigResponse, PairData, TokenData};

#[test]
fn config_response_holds_pair_and_lp_denom() {
    let response = GetConfigResponse {
        pair_data: PairData {
            token_0: TokenData { denom: "untrn".to_string() },
            token_1: TokenData { denom: "uatom".to_string() },
            pair_id: "untrn<>uatom".to_string(),
        },
        lp_denom: "neutron/pool/0".to_string(),
    };
    assert_eq!(response.pair_data.token_0.denom, "untrn");
    assert_eq!(response.pair_data.token_1.denom, "uatom");
    assert_eq!(response.pair_data.pair_id, "untrn<>uatom");
    assert_eq!(response.lp_denom, "neutron/pool/0");
    assert!(format!("{:?}", response).contains("untrn<>uatom"));
}
