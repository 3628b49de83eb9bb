use hedgemaker::amount::SCALE;
use hedgemaker::exchange::{
    api_key_header, buy_order_query, cancel_order_query, cancel_spot_order, cancel_spot_orders,
    close_short_position, finish_signed, futures_order_query, has_credentials, leverage_query,
    open_short_position, sell_order_query, set_leverage_x1, side_name, signed_query,
    spot_order_query, with_signature, RequestError, Side,
};
use hedgemaker::logic::hedge::ShortOrder;
use hedgemaker::logic::reconcile::BuyPlacement;
use hedgemaker::signing::{sign, signature_of_tag, SigningError};

const TS: u64 = 1_499_827_319_559;

#[test]
fn signature_is_hmac_sha256_in_hex() {
    assert_eq!(
        sign("Jefe", "what do ya want for nothing?"),
        Ok("5bdcc146bf60754e6a042426089575c75a003f089d2739839dec58b964ec3843".to_string())
    );
    assert_eq!(
        sign("my secret and secure key", "input message"),
        Ok("97d2a569059bbcd8ead4444ff99071f4c01d005bcefe0d3567e1be628e5fdcd9".to_string())
    );
}

#[test]
fn signature_depends_on_key_and_payload() {
    let one = sign("key", "payload").unwrap();
    assert_eq!(one.len(), 64);
    assert!(one.chars().all(|c| c.is_ascii_digit() || ('a'..='f').contains(&c)));
    assert_ne!(one, sign("key", "payloae").unwrap());
    assert_ne!(one, sign("kez", "payload").unwrap());
    assert_eq!(one, sign("key", "payload").unwrap());
    assert!(sign("", "").is_ok());
}

#[test]
fn tag_is_written_two_digits_a_byte() {
    assert_eq!(
        signature_of_tag(Some(vec![0x00, 0x0f, 0xa0, 0xff, 0x10])),
        Ok("000fa0ff10".to_string())
    );
    assert_eq!(signature_of_tag(Some(Vec::new())), Ok(String::new()));
}

#[test]
fn missing_tag_is_a_signing_error() {
    assert_eq!(signature_of_tag(None), Err(SigningError::KeyRefused));
    assert_eq!(finish_signed("a=1", Err(SigningError::KeyRefused)), Err(RequestError::Signing));
}

#[test]
fn finished_query_carries_the_signature_last() {
    assert_eq!(
        finish_signed("a=1&timestamp=2", Ok("beef".to_string())),
        Ok("a=1&timestamp=2&signature=beef".to_string())
    );
    assert_eq!(with_signature("", ""), "&signature=");
}

#[test]
fn signed_query_signs_exactly_the_payload() {
    let payload = "symbol=LTCBTC&side=BUY&type=LIMIT&timeInForce=GTC&quantity=1&price=0.1&timestamp=1499827319559";
    let signed = signed_query(payload, "secret").unwrap();
    let signature = sign("secret", payload).unwrap();
    assert_eq!(signed, format!("{payload}&signature={signature}"));
}

#[test]
fn spot_order_payloads() {
    assert_eq!(
        spot_order_query("LTCBTC", Side::Buy, SCALE, 10_000_000, TS),
        "symbol=LTCBTC&side=BUY&type=LIMIT&timeInForce=GTC&quantity=1&price=0.1&timestamp=1499827319559"
    );
    let placement = BuyPlacement {
        index: 0,
        price: 99_990_000,
        quantity: 500 * SCALE,
        ask_price: 100_000_000,
    };
    assert_eq!(
        buy_order_query("ACTUSDT", &placement, 17),
        "symbol=ACTUSDT&side=BUY&type=LIMIT&timeInForce=GTC&quantity=500&price=0.9999&timestamp=17"
    );
    assert_eq!(
        sell_order_query("ACTUSDT", 100 * SCALE, 100_000_000, 0),
        "symbol=ACTUSDT&side=SELL&type=LIMIT&timeInForce=GTC&quantity=100&price=1&timestamp=0"
    );
}

#[test]
fn cancel_and_leverage_payloads() {
    assert_eq!(
        cancel_order_query("ACTUSDT", "4293153", TS),
        "symbol=ACTUSDT&orderId=4293153&timestamp=1499827319559"
    );
    assert_eq!(
        leverage_query("ACTUSDT", TS),
        "symbol=ACTUSDT&leverage=1&timestamp=1499827319559"
    );
}

#[test]
fn futures_order_payloads() {
    assert_eq!(
        futures_order_query("ACTUSDT", Side::Sell, 500 * SCALE, false, TS),
        "symbol=ACTUSDT&side=SELL&type=MARKET&quantity=500&timestamp=1499827319559"
    );
    assert_eq!(
        futures_order_query("ACTUSDT", Side::Buy, 38_012_345_678, true, u64::MAX),
        "symbol=ACTUSDT&side=BUY&type=MARKET&reduceOnly=true&quantity=380.12345678&timestamp=18446744073709551615"
    );
}

#[test]
fn names_of_sides_and_header() {
    assert_eq!(side_name(Side::Buy), "BUY");
    assert_eq!(side_name(Side::Sell), "SELL");
    assert_eq!(api_key_header(), "X-MBX-APIKEY");
}

#[test]
fn open_short_is_a_signed_market_sell() {
    let order = ShortOrder { index: 0, size: 500 * SCALE };
    let payload = "symbol=ACTUSDT&side=SELL&type=MARKET&quantity=500&timestamp=5";
    let signature = sign("s3cret", payload).unwrap();
    assert_eq!(
        open_short_position("ACTUSDT", order, "key", "s3cret", 5),
        Ok(format!("{payload}&signature={signature}"))
    );
}

#[test]
fn close_short_is_a_signed_reducing_market_buy() {
    let order = ShortOrder { index: 0, size: 500 * SCALE };
    let payload = "symbol=ACTUSDT&side=BUY&type=MARKET&reduceOnly=true&quantity=500&timestamp=5";
    let signature = sign("s3cret", payload).unwrap();
    assert_eq!(
        close_short_position("ACTUSDT", order, "key", "s3cret", 5),
        Ok(format!("{payload}&signature={signature}"))
    );
}

#[test]
fn leverage_request_is_signed() {
    let payload = "symbol=ACTUSDT&leverage=1&timestamp=5";
    let signature = sign("s3cret", payload).unwrap();
    assert_eq!(
        set_leverage_x1("ACTUSDT", "key", "s3cret", 5),
        Ok(format!("{payload}&signature={signature}"))
    );
}

#[test]
fn requests_need_credentials() {
    let order = ShortOrder { index: 0, size: SCALE };
    assert!(has_credentials("k", "s"));
    assert!(!has_credentials("", "s"));
    assert!(!has_credentials("k", ""));
    assert_eq!(set_leverage_x1("A", "", "s", 1), Err(RequestError::MissingCredentials));
    assert_eq!(set_leverage_x1("A", "k", "", 1), Err(RequestError::MissingCredentials));
    assert_eq!(open_short_position("A", order, "", "", 1), Err(RequestError::MissingCredentials));
    assert_eq!(close_short_position("A", order, "k", "", 1), Err(RequestError::MissingCredentials));
    assert_eq!(cancel_spot_order("A", "1", "", "s", 1), Err(RequestError::MissingCredentials));
}

#[test]
fn cancellations_one_per_id() {
    let ids = vec!["11".to_string(), "22".to_string()];
    let made = cancel_spot_orders("ACTUSDT", &ids, "key", "s3cret", 9).unwrap();
    assert_eq!(made.len(), 2);
    assert_eq!(made[0], cancel_spot_order("ACTUSDT", "11", "key", "s3cret", 9).unwrap());
    assert_eq!(made[1], cancel_spot_order("ACTUSDT", "22", "key", "s3cret", 9).unwrap());
    assert!(made[0].starts_with("symbol=ACTUSDT&orderId=11&timestamp=9&signature="));
}

#[test]
fn nothing_to_cancel_needs_no_credentials() {
    assert_eq!(cancel_spot_orders("ACTUSDT", &[], "", "", 9), Ok(Vec::new()));
    assert_eq!(
        cancel_spot_orders("ACTUSDT", &["1".to_string()], "", "", 9),
        Err(RequestError::MissingCredentials)
    );
}

#[test]
fn every_secret_signs() {
    let long_secret = "k".repeat(200);
    for secret in ["", "k", "a secret of ordinary length", long_secret.as_str()] {
        let signature = sign(secret, "symbol=ACTUSDT&timestamp=1").unwrap();
        assert_eq!(signature.len(), 64);
        assert_eq!(
            signed_query("symbol=ACTUSDT&timestamp=1", secret),
            Ok(format!("symbol=ACTUSDT&timestamp=1&signature={signature}"))
        );
    }
    assert_ne!(sign(&long_secret, "x"), sign(&"k".repeat(199), "x"));
}
