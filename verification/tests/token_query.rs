use quotestats::query::{
    validate_covariance_query, validate_volatility_query, CovarianceQuery, VolatilityQuery,
};
use quotestats::Token;

#[test]
fn aliases_resolve_case_insensitively() {
    assert_eq!(Token::from_str("bitcoin"), Some(Token::Bitcoin));
    assert_eq!(Token::from_str("btc"), Some(Token::Bitcoin));
    assert_eq!(Token::from_str("BTC"), Some(Token::Bitcoin));
    assert_eq!(Token::from_str("BiTcOiN"), Some(Token::Bitcoin));
    assert_eq!(Token::from_str("snp500"), Some(Token::Snp500));
    assert_eq!(Token::from_str("SNP"), Some(Token::Snp500));
    assert_eq!(Token::from_str("solana"), Some(Token::Solana));
    assert_eq!(Token::from_str("SOL"), Some(Token::Solana));
    assert_eq!(Token::from_str("ethereum"), Some(Token::Ethereum));
    assert_eq!(Token::from_str("Eth"), Some(Token::Ethereum));
}

#[test]
fn unrecognized_aliases_resolve_to_nothing() {
    assert_eq!(Token::from_str("foo"), None);
    assert_eq!(Token::from_str(""), None);
    assert_eq!(Token::from_str("bitcoins"), None);
    assert_eq!(Token::from_str("btc "), None);
}

#[test]
fn ids_name_the_remote_symbols() {
    assert_eq!(Token::Bitcoin.id(), "BTC-USD");
    assert_eq!(Token::Ethereum.id(), "ETH-USD");
    assert_eq!(Token::Solana.id(), "SOL-USD");
    assert_eq!(Token::Snp500.id(), "%5EGSPC");
}

#[test]
fn display_names() {
    assert_eq!(Token::Bitcoin.as_string(), "Bitcoin");
    assert_eq!(Token::Ethereum.as_string(), "Ethereum");
    assert_eq!(Token::Solana.as_string(), "Solana");
    assert_eq!(Token::Snp500.as_string(), "Snp500");
}

#[test]
fn covariance_query_rejects_unrecognized_first_token() {
    let q = CovarianceQuery {
        token_1: Some(String::from("foo")),
        token_2: Some(String::from("btc")),
    };
    let err = validate_covariance_query(&q).unwrap_err();
    assert_eq!(err, "Invalid token_1 value: foo");
}

#[test]
fn covariance_query_reports_missing_parameters_first() {
    let q = CovarianceQuery { token_1: None, token_2: Some(String::from("btc")) };
    assert_eq!(validate_covariance_query(&q).unwrap_err(), "Missing query parameter: token_1");

    let q = CovarianceQuery { token_1: Some(String::from("foo")), token_2: None };
    assert_eq!(validate_covariance_query(&q).unwrap_err(), "Missing query parameter: token_2");

    let q = CovarianceQuery {
        token_1: Some(String::from("btc")),
        token_2: Some(String::from("nope")),
    };
    assert_eq!(validate_covariance_query(&q).unwrap_err(), "Invalid token_2 value: nope");
}

#[test]
fn covariance_query_accepts_recognized_pair() {
    let q = CovarianceQuery {
        token_1: Some(String::from("btc")),
        token_2: Some(String::from("snp")),
    };
    let (t1, t2) = validate_covariance_query(&q).unwrap();
    assert_eq!(t1, Token::Bitcoin);
    assert_eq!(t2, Token::Snp500);
}

#[test]
fn volatility_query_validation() {
    let q = VolatilityQuery { token: None };
    assert_eq!(validate_volatility_query(&q).unwrap_err(), "Missing query parameter: token");

    let q = VolatilityQuery { token: Some(String::from("doge")) };
    assert_eq!(validate_volatility_query(&q).unwrap_err(), "Invalid token value: doge");

    let q = VolatilityQuery { token: Some(String::from("ETH")) };
    assert_eq!(validate_volatility_query(&q).unwrap(), Token::Ethereum);
}
