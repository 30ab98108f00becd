use sol_price::source::{Failure, FetchError, Reply, Source};
use sol_price::price::Price;

fn ok_reply(body: &str) -> Reply {
    Reply::Response { status: 200, body: body.to_string() }
}

fn failure(source: Source, reply: Reply) -> Failure {
    match source.outcome(&reply) {
        Err(FetchError { source: s, failure }) => {
            assert_eq!(s, source);
            failure
        }
        Ok(p) => panic!("unexpected price {:?}", p),
    }
}

#[test]
fn coingecko_reads_the_usd_number() {
    let r = Source::CoinGecko.outcome(&ok_reply(r#"{"solana":{"usd":142.37}}"#));
    assert_eq!(r, Ok(Price { units: 14237, scale: 2 }));
    let r = Source::CoinGecko.outcome(&ok_reply(r#"{"solana":{"usd":142}}"#));
    assert_eq!(r, Ok(Price { units: 142, scale: 0 }));
}

#[test]
fn coincap_reads_the_price_string() {
    let r = Source::CoinCap.outcome(&ok_reply(r#"{"data":{"id":"solana","priceUsd":"142.37"}}"#));
    assert_eq!(r, Ok(Price { units: 14237, scale: 2 }));
}

#[test]
fn binance_reads_the_price_string() {
    let r = Source::Binance.outcome(&ok_reply(r#"{"symbol":"SOLUSDT","price":"142.37000000"}"#));
    assert_eq!(r, Ok(Price { units: 14237000000, scale: 8 }));
}

#[test]
fn missing_price_is_reported() {
    assert_eq!(failure(Source::CoinGecko, ok_reply(r#"{"solana":{}}"#)), Failure::PriceNotFound);
    assert_eq!(failure(Source::CoinGecko, ok_reply(r#"{"bitcoin":{"usd":1}}"#)), Failure::PriceNotFound);
    assert_eq!(failure(Source::CoinCap, ok_reply(r#"{"data":{}}"#)), Failure::Parse);
    assert_eq!(failure(Source::Binance, ok_reply(r#"{}"#)), Failure::Parse);
}

#[test]
fn body_that_is_no_json_is_a_parse_failure() {
    assert_eq!(failure(Source::CoinGecko, ok_reply("<html>")), Failure::Parse);
    assert_eq!(failure(Source::CoinCap, ok_reply("")), Failure::Parse);
    assert_eq!(failure(Source::Binance, ok_reply(r#"{"price":"1""#)), Failure::Parse);
}

#[test]
fn price_of_the_wrong_kind_is_a_parse_failure() {
    assert_eq!(failure(Source::CoinGecko, ok_reply(r#"{"solana":{"usd":"142.37"}}"#)), Failure::Parse);
    assert_eq!(failure(Source::Binance, ok_reply(r#"{"price":142.37}"#)), Failure::Parse);
    assert_eq!(failure(Source::CoinCap, ok_reply(r#"{"data":{"priceUsd":null}}"#)), Failure::Parse);
}

#[test]
fn malformed_number_is_a_numeric_format_failure() {
    assert_eq!(
        failure(Source::CoinCap, ok_reply(r#"{"data":{"priceUsd":"abc"}}"#)),
        Failure::NumericFormat("abc".to_string())
    );
    assert_eq!(
        failure(Source::Binance, ok_reply(r#"{"price":"-3"}"#)),
        Failure::NumericFormat("-3".to_string())
    );
}

#[test]
fn non_success_status_is_reported_with_its_code() {
    let reply = Reply::Response { status: 429, body: r#"{"solana":{"usd":1}}"#.to_string() };
    assert_eq!(failure(Source::CoinGecko, reply), Failure::HttpStatus(429));
    let reply = Reply::Response { status: 199, body: String::new() };
    assert_eq!(failure(Source::Binance, reply), Failure::HttpStatus(199));
    let reply = Reply::Response { status: 299, body: r#"{"price":"1"}"#.to_string() };
    assert_eq!(Source::Binance.outcome(&reply), Ok(Price { units: 1, scale: 0 }));
}

#[test]
fn no_reply_is_unreachable() {
    assert_eq!(failure(Source::CoinCap, Reply::Unreachable), Failure::Unreachable);
}

#[test]
fn coingecko_url_without_key_has_no_key_parameter() {
    let url = Source::CoinGecko.request_url(None);
    assert_eq!(url, "https://api.coingecko.com/api/v3/simple/price?ids=solana&vs_currencies=usd");
}

#[test]
fn coingecko_url_carries_the_key_verbatim() {
    let url = Source::CoinGecko.request_url(Some("k-1"));
    assert_eq!(
        url,
        "https://api.coingecko.com/api/v3/simple/price?ids=solana&vs_currencies=usd&x_cg_demo_api_key=k-1"
    );
}

#[test]
fn other_sources_ignore_the_key() {
    assert_eq!(Source::CoinCap.request_url(Some("k")), "https://api.coincap.io/v2/assets/solana");
    assert_eq!(
        Source::Binance.request_url(None),
        "https://api.binance.com/api/v3/ticker/price?symbol=SOLUSDT"
    );
    assert_eq!(Source::CoinGecko.name(), "CoinGecko");
    assert_eq!(Source::Binance.price_path(), "/price");
}

#[test]
fn failure_messages_name_source_and_cause() {
    let e = FetchError { source: Source::CoinGecko, failure: Failure::HttpStatus(429) };
    assert_eq!(e.message(), "CoinGecko API error: 429");
    let e = FetchError { source: Source::CoinCap, failure: Failure::NumericFormat("abc".to_string()) };
    assert_eq!(e.message(), "CoinCap: invalid numeric format: abc");
    let e = FetchError { source: Source::CoinGecko, failure: Failure::PriceNotFound };
    assert_eq!(e.message(), "CoinGecko: price not found");
    let e = FetchError { source: Source::Binance, failure: Failure::Parse };
    assert_eq!(e.message(), "Binance: unexpected response body");
    let e = FetchError { source: Source::Binance, failure: Failure::Unreachable };
    assert_eq!(e.message(), "Binance: no response");
}

#[test]
fn coingecko_whole_float_keeps_its_point() {
    let r = Source::CoinGecko.outcome(&ok_reply(r#"{"solana":{"usd":142.0}}"#));
    assert_eq!(r, Ok(Price { units: 1420, scale: 1 }));
}
