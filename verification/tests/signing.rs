use oneleg::binance::{Binance, BinanceClient, BinanceConfig, BinanceUtils};
use oneleg::creds::parse_api_credentials;
use oneleg::exchanges::{ApiError, Client, WebsocketClient};
use oneleg::kraken::{Kraken, KrakenClient, KrakenConfig, KrakenUtils};

#[test]
fn binance_signature_matches_hmac_sha256_vector() {
    // RFC 2104-style reference pair for HMAC-SHA-256
    let sig = BinanceClient::get_signature("The quick brown fox jumps over the lazy dog", "key");
    assert_eq!(
        sig,
        "f7bc83f430538424b13298e6aa6fb143ef4d59a14946175997479dbc2d1a3cd8"
    );
}

#[test]
fn binance_signature_matches_documented_example() {
    let secret = "NhqPtmdSJYdKjVHjA7PZj4Mge3R5YNiP1e3UZjInClVN65XAbvqqM6A7H5fATj0j";
    let query = "symbol=LTCBTC&side=BUY&type=LIMIT&timeInForce=GTC&quantity=1&price=0.1&recvWindow=5000&timestamp=1499827319559";
    let sig = BinanceClient::get_signature(query, secret);
    assert_eq!(
        sig,
        "c8db56825ae71d6d79447849e617115f4a920fa2acdcab2b053c4b2838bd6b71"
    );
}

#[test]
fn kraken_signature_is_reproducible() {
    let secret = "kQH5HW/8p1uGOVjbgWA7FunAmGO8lsSUXNsu3eow76sz84Q18fWxnyRzBHCd3pd5nE9qa99HAZtuZuj6F1huXg==";
    let sig = KrakenClient::get_signature(
        "/0/private/AddOrder".to_string(),
        "1616492376594".to_string(),
        "nonce=1616492376594&ordertype=limit&pair=XBTUSD&price=37500&type=buy&volume=1.25"
            .to_string(),
        secret.to_string(),
    )
    .unwrap();
    assert_eq!(
        sig,
        "4/dpxb3iT4tp/ZCVEwSnEsLxx0bqyhLpdfOpc6fn7OR8+UClSV5n9E6aSS8MPtnRfp32bAb0nmbRn6H8ndwLUQ=="
    );
}

#[test]
fn kraken_signature_rejects_bad_secret() {
    let r = KrakenClient::get_signature(
        "/0/private/Balance".to_string(),
        "1".to_string(),
        "nonce=1".to_string(),
        "not base64!!!".to_string(),
    );
    assert_eq!(r.unwrap_err(), ApiError::BadSecret);
}

#[test]
fn binance_subscription_message_shape() {
    let b = Binance::new("k".to_string(), "s".to_string());
    assert_eq!(
        b.subscription_message("PEPE/USDT"),
        "{\"method\":\"SUBSCRIBE\",\"params\":[\"pepeusdt@trade\"]}"
    );
    assert_eq!(b.ws_url(), "wss://stream.binance.com:9443/stream");
}

#[test]
fn kraken_subscription_message_shape() {
    let k = Kraken::new("k".to_string(), "s".to_string());
    assert_eq!(
        k.subscription_message("PEPE/USD"),
        "{\"event\":\"subscribe\",\"pair\":[\"PEPE/USD\"],\"subscription\":{\"name\":\"spread\"}}"
    );
    assert_eq!(k.ws_url(), "wss://ws.kraken.com");
}

#[test]
fn binance_method_classification() {
    assert!(BinanceUtils::is_method_public("Time"));
    assert!(!BinanceUtils::is_method_public("account"));
    assert!(BinanceUtils::is_method_private("account"));
    assert!(BinanceUtils::is_method_private("myTrades"));
    assert_eq!(BinanceUtils::get_method_type("Time"), "public");
    assert_eq!(BinanceUtils::get_method_type("account"), "private");
    assert_eq!(BinanceUtils::get_method_type("withdrawAll"), "invalid");
    assert_eq!(BinanceUtils::get_time_offset_millis(), 36880);
}

#[test]
fn kraken_method_classification() {
    assert!(KrakenUtils::is_method_public("Spread"));
    assert!(KrakenUtils::is_method_private("Balance"));
    assert!(KrakenUtils::is_method_private("GetWebSocketsToken"));
    assert_eq!(KrakenUtils::get_method_type("Ticker"), "public");
    assert_eq!(KrakenUtils::get_method_type("AddOrder"), "private");
    assert_eq!(KrakenUtils::get_method_type("SelfDestruct"), "invalid");
}

#[test]
fn binance_public_request_url() {
    let req = BinanceClient::build_api_request("Time", "", 0, "key", "sec").unwrap();
    assert_eq!(req.url, "https://api.binance.com/api/v3/Time");
    assert!(!req.is_post);
    assert!(req.headers.is_empty());
}

#[test]
fn binance_private_request_is_signed() {
    let secret = "NhqPtmdSJYdKjVHjA7PZj4Mge3R5YNiP1e3UZjInClVN65XAbvqqM6A7H5fATj0j";
    let req = BinanceClient::build_api_request("account", "", 1499827319559, "api-key", secret)
        .unwrap();
    let expected_sig = BinanceClient::get_signature("timestamp=1499827319559", secret);
    assert_eq!(
        req.url,
        format!(
            "https://api.binance.com/api/v3/account?timestamp=1499827319559&signature={}",
            expected_sig
        )
    );
    assert_eq!(req.headers.len(), 1);
    assert_eq!(req.headers[0].0, "X-MBX-APIKEY");
    assert_eq!(req.headers[0].1, "api-key");
}

#[test]
fn binance_unknown_method_is_rejected() {
    let r = BinanceClient::build_api_request("withdrawAll", "", 0, "k", "s");
    assert_eq!(r.unwrap_err(), ApiError::UnknownMethod);
}

#[test]
fn kraken_private_request_is_signed() {
    let secret = "kQH5HW/8p1uGOVjbgWA7FunAmGO8lsSUXNsu3eow76sz84Q18fWxnyRzBHCd3pd5nE9qa99HAZtuZuj6F1huXg==";
    let req = KrakenClient::build_api_request(
        "AddOrder",
        "ordertype=limit&pair=XBTUSD&price=37500&type=buy&volume=1.25",
        1616492376594,
        "api-key",
        secret,
    )
    .unwrap();
    assert_eq!(req.url, "https://api.kraken.com/0/private/AddOrder");
    assert!(req.is_post);
    assert_eq!(
        req.body,
        "nonce=1616492376594&ordertype=limit&pair=XBTUSD&price=37500&type=buy&volume=1.25"
    );
    assert_eq!(req.headers.len(), 2);
    assert_eq!(req.headers[0].0, "API-Key");
    assert_eq!(req.headers[0].1, "api-key");
    assert_eq!(req.headers[1].0, "API-Sign");
    assert_eq!(
        req.headers[1].1,
        "4/dpxb3iT4tp/ZCVEwSnEsLxx0bqyhLpdfOpc6fn7OR8+UClSV5n9E6aSS8MPtnRfp32bAb0nmbRn6H8ndwLUQ=="
    );
}

#[test]
fn kraken_public_request_url() {
    let req = KrakenClient::build_api_request("Spread", "pair=XBTUSD", 1, "", "").unwrap();
    assert_eq!(req.url, "https://api.kraken.com/0/public/Spread?pair=XBTUSD");
    assert!(!req.is_post);
}

#[test]
fn kraken_request_error_taxonomy() {
    let unknown = KrakenClient::build_api_request("SelfDestruct", "", 1, "k", "s");
    assert_eq!(unknown.unwrap_err(), ApiError::UnknownMethod);
    let missing = KrakenClient::build_api_request("Balance", "", 1, "", "");
    assert_eq!(missing.unwrap_err(), ApiError::MissingCredentials);
    let bad = KrakenClient::build_api_request("Balance", "", 1, "k", "not base64!!!");
    assert_eq!(bad.unwrap_err(), ApiError::BadSecret);
}

#[test]
fn client_getters_round_trip() {
    let b = Binance::new("the-key".to_string(), "the-secret".to_string());
    assert_eq!(b.get_api_key().as_str(), "the-key");
    assert_eq!(b.get_api_sec().as_str(), "the-secret");
}

#[test]
fn config_holds_credentials() {
    let mut c = BinanceConfig::new();
    c.set_binance_api_credentials("k1".to_string(), "s1".to_string());
    assert_eq!(c.get_binance_api_key().as_str(), "k1");
    assert_eq!(c.get_binance_api_secret().as_str(), "s1");
    assert_eq!(BinanceConfig::get_binance_api_url(), "https://api.binance.com");
    assert_eq!(BinanceConfig::get_binance_api_version(), "v3");
    assert_eq!(BinanceConfig::get_binance_api_timeout(), 5000);

    let mut kc = KrakenConfig::new();
    kc.set_kraken_api_credentials("k2".to_string(), "s2".to_string());
    assert_eq!(kc.get_kraken_api_key().as_str(), "k2");
    assert_eq!(kc.get_kraken_api_secret().as_str(), "s2");
    assert_eq!(KrakenConfig::get_kraken_api_url(), "https://api.kraken.com");
    assert_eq!(KrakenConfig::get_kraken_api_version(), "0");
    assert_eq!(KrakenConfig::get_kraken_api_timeout(), 5000);
}

#[test]
fn credential_lines_parse() {
    let lines: Vec<String> = vec![
        "# a comment".to_string(),
        "api_key: the-key  ".to_string(),
        "unrelated".to_string(),
        "api_sec:\tthe-secret".to_string(),
    ];
    let (k, s) = parse_api_credentials(&lines);
    assert_eq!(k, "the-key");
    assert_eq!(s, "the-secret");

    let none: Vec<String> = vec!["nothing here".to_string()];
    let (k2, s2) = parse_api_credentials(&none);
    assert_eq!(k2, "");
    assert_eq!(s2, "");

    // the last matching line wins
    let dup: Vec<String> = vec!["api_key:first".to_string(), "api_key:second".to_string()];
    let (k3, _) = parse_api_credentials(&dup);
    assert_eq!(k3, "second");
}
