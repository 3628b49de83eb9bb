use hedgemaker::binance::{
    aggtrade_stream_url, bookticker_stream_url, default_futures_rest_base,
    default_futures_ws_base, default_spot_rest_base, default_spot_ws_base, depth_url,
    ends_with_api, futures_rest_url, listen_key_renew_url, listen_key_url, spot_rest_url,
    trim_end_slashes, trim_start_slashes, ws_stream_url, KEEPALIVE_INTERVAL_SECS,
    RECONNECT_DELAY_SECS,
};

#[test]
fn spot_rest_url_with_default_base() {
    assert_eq!(
        spot_rest_url(default_spot_rest_base(), "v3/order"),
        "https://api.binance.com/api/v3/order"
    );
}

#[test]
fn spot_rest_url_puts_api_in_where_missing() {
    assert_eq!(
        spot_rest_url("https://api.binance.com", "v3/order"),
        "https://api.binance.com/api/v3/order"
    );
    assert_eq!(
        spot_rest_url("https://testnet.binance.vision/", "/v3/order"),
        "https://testnet.binance.vision/api/v3/order"
    );
}

#[test]
fn spot_rest_url_reduces_slashes() {
    assert_eq!(
        spot_rest_url("https://api.binance.com/api///", "///v3/order"),
        "https://api.binance.com/api/v3/order"
    );
    assert_eq!(spot_rest_url("", ""), "/api/");
    assert_eq!(spot_rest_url("/api", "x"), "/api/x");
    assert_eq!(spot_rest_url("api", "x"), "api/api/x");
    assert_eq!(spot_rest_url("///", "///"), "/api/");
}

#[test]
fn futures_rest_url_joins_with_one_slash() {
    assert_eq!(
        futures_rest_url(default_futures_rest_base(), "/fapi/v1/order"),
        "https://fapi.binance.com/fapi/v1/order"
    );
    assert_eq!(
        futures_rest_url("https://fapi.binance.com//", "fapi/v1/leverage"),
        "https://fapi.binance.com/fapi/v1/leverage"
    );
    assert_eq!(futures_rest_url("", ""), "/");
}

#[test]
fn ws_stream_url_joins_with_ws() {
    assert_eq!(
        ws_stream_url(default_spot_ws_base(), "abc123"),
        "wss://stream.binance.com:9443/ws/abc123"
    );
    assert_eq!(
        ws_stream_url("wss://stream.binance.com:9443/", "/actusdt@bookTicker"),
        "wss://stream.binance.com:9443/ws/actusdt@bookTicker"
    );
    assert_eq!(
        ws_stream_url(default_futures_ws_base(), "x"),
        "wss://fstream.binance.com/ws/x"
    );
}

#[test]
fn trimming_takes_only_the_run_at_the_edge() {
    assert_eq!(trim_end_slashes("a/b//"), "a/b");
    assert_eq!(trim_end_slashes("//"), "");
    assert_eq!(trim_end_slashes("a"), "a");
    assert_eq!(trim_start_slashes("//a/b/"), "a/b/");
    assert_eq!(trim_start_slashes(""), "");
    assert_eq!(trim_start_slashes("é/"), "é/");
}

#[test]
fn ends_with_api_looks_at_the_last_four() {
    assert!(ends_with_api("/api"));
    assert!(ends_with_api("https://host/api"));
    assert!(!ends_with_api("api"));
    assert!(!ends_with_api("/apis"));
    assert!(!ends_with_api("/API"));
    assert!(!ends_with_api(""));
}

#[test]
fn symbol_streams_are_named_in_lower_case() {
    assert_eq!(
        bookticker_stream_url("wss://stream.binance.com:9443", "ACTUSDT"),
        "wss://stream.binance.com:9443/ws/actusdt@bookTicker"
    );
    assert_eq!(
        aggtrade_stream_url("wss://stream.binance.com:9443/", "ActUsdt"),
        "wss://stream.binance.com:9443/ws/actusdt@aggTrade"
    );
}

#[test]
fn depth_url_names_the_symbol_in_upper_case() {
    assert_eq!(
        depth_url("https://api.binance.com/api", "actusdt"),
        "https://api.binance.com/api/v3/depth?symbol=ACTUSDT&limit=10"
    );
    assert_eq!(
        depth_url("https://api.binance.com", "ACTUSDT"),
        "https://api.binance.com/api/v3/depth?symbol=ACTUSDT&limit=10"
    );
}

#[test]
fn listen_key_urls() {
    assert_eq!(
        listen_key_url("https://api.binance.com/api/"),
        "https://api.binance.com/api/v3/userDataStream"
    );
    assert_eq!(
        listen_key_renew_url("https://api.binance.com/api", "k3y"),
        "https://api.binance.com/api/v3/userDataStream?listenKey=k3y"
    );
}

#[test]
fn stream_timings() {
    assert_eq!(RECONNECT_DELAY_SECS, 5);
    assert_eq!(KEEPALIVE_INTERVAL_SECS, 30 * 60);
}
