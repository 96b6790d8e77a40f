use rust_client_adapter::bitcoin_api::{
    after_failed_block_fetch, block_fetch_policy, block_height_path, block_info_from_body,
    classify_response, parse_block_count, request_url, BitcoinApiError, BlockInfo,
    BLOCK_COUNT_PATH,
};
use rust_client_adapter::data_provider::{
    connection_count_of, from_api_block, from_api_error, from_api_result, Backend, ProviderError,
};

const GOOD_BLOCK: &str = r#"{"blocks":[{"hash":"00000000000000000001abc","time":1700000000,"n_tx":2500,"size":1543210,"height":812345}]}"#;

#[test]
fn success_status_yields_body() {
    assert_eq!(classify_response(200, "42".to_string()), Ok("42".to_string()));
    assert_eq!(classify_response(204, String::new()), Ok(String::new()));
}

#[test]
fn too_many_requests_is_rate_limit() {
    assert_eq!(
        classify_response(429, "slow down".to_string()),
        Err(BitcoinApiError::RateLimitExceeded)
    );
}

#[test]
fn other_failure_status_is_request_failed() {
    assert_eq!(classify_response(500, String::new()), Err(BitcoinApiError::RequestFailed));
    assert_eq!(classify_response(404, String::new()), Err(BitcoinApiError::RequestFailed));
    assert_eq!(classify_response(301, String::new()), Err(BitcoinApiError::RequestFailed));
}

#[test]
fn block_count_body() {
    assert_eq!(parse_block_count("812345"), Ok(812345));
    assert_eq!(parse_block_count("-3"), Ok(-3));
    assert_eq!(parse_block_count("812345\n"), Err(BitcoinApiError::JsonParseError));
    assert_eq!(parse_block_count(""), Err(BitcoinApiError::JsonParseError));
    assert_eq!(parse_block_count("9223372036854775808"), Err(BitcoinApiError::JsonParseError));
}

#[test]
fn block_document_is_read() {
    let b = block_info_from_body(812345, GOOD_BLOCK).unwrap();
    assert_eq!(
        b,
        BlockInfo {
            height: 812345,
            hash: "00000000000000000001abc".to_string(),
            time: 1700000000,
            n_tx: 2500,
            size: 1543210,
        }
    );
}

#[test]
fn missing_hash_is_missing_field() {
    let body = r#"{"blocks":[{"time":1700000000,"n_tx":2500,"size":1543210}]}"#;
    assert_eq!(
        block_info_from_body(7, body),
        Err(BitcoinApiError::MissingField("hash".to_string()))
    );
    let wrong_kind = r#"{"blocks":[{"hash":12,"time":1,"n_tx":2,"size":3}]}"#;
    assert_eq!(
        block_info_from_body(7, wrong_kind),
        Err(BitcoinApiError::MissingField("hash".to_string()))
    );
}

#[test]
fn each_missing_field_is_named() {
    assert_eq!(
        block_info_from_body(1, r#"{"other":[]}"#),
        Err(BitcoinApiError::MissingField("blocks array".to_string()))
    );
    assert_eq!(
        block_info_from_body(1, r#"{"blocks":[]}"#),
        Err(BitcoinApiError::MissingField("first block".to_string()))
    );
    assert_eq!(
        block_info_from_body(1, r#"{"blocks":[{"hash":"h","time":"noon","n_tx":1,"size":1}]}"#),
        Err(BitcoinApiError::MissingField("time".to_string()))
    );
    assert_eq!(
        block_info_from_body(1, r#"{"blocks":[{"hash":"h","time":5,"n_tx":-1,"size":1}]}"#),
        Err(BitcoinApiError::MissingField("n_tx".to_string()))
    );
    assert_eq!(
        block_info_from_body(1, r#"{"blocks":[{"hash":"h","time":5,"n_tx":1,"size":1.5}]}"#),
        Err(BitcoinApiError::MissingField("size".to_string()))
    );
}

#[test]
fn malformed_json_is_parse_error() {
    assert_eq!(block_info_from_body(1, "{\"blocks\": ["), Err(BitcoinApiError::JsonParseError));
    assert_eq!(block_info_from_body(1, "<html>"), Err(BitcoinApiError::JsonParseError));
}

#[test]
fn request_addresses() {
    assert_eq!(
        request_url(BLOCK_COUNT_PATH, false),
        "https://blockchain.info/q/getblockcount?cors=true"
    );
    let path = block_height_path(812345);
    assert_eq!(path, "/block-height/812345");
    assert_eq!(
        request_url(&path, true),
        "https://blockchain.info/block-height/812345?format=json&cors=true"
    );
    assert_eq!(block_height_path(0), "/block-height/0");
    assert_eq!(block_height_path(-12), "/block-height/-12");
}

#[test]
fn block_fetch_gives_up_after_three_attempts() {
    let p = block_fetch_policy();
    assert_eq!(after_failed_block_fetch(&p, 1), Ok(2000));
    assert_eq!(after_failed_block_fetch(&p, 2), Ok(4000));
    assert_eq!(after_failed_block_fetch(&p, 3), Err(BitcoinApiError::MaxRetriesExceeded));
}

#[test]
fn http_errors_map_to_provider_errors() {
    assert_eq!(
        from_api_error(BitcoinApiError::MissingField("hash".to_string())),
        ProviderError::MissingField("hash".to_string())
    );
    assert_eq!(from_api_error(BitcoinApiError::RateLimitExceeded), ProviderError::RateLimitExceeded);
    assert_eq!(from_api_error(BitcoinApiError::MaxRetriesExceeded), ProviderError::MaxRetriesExceeded);
    assert_eq!(from_api_error(BitcoinApiError::JsonParseError), ProviderError::JsonParseError);
    assert_eq!(from_api_error(BitcoinApiError::RequestFailed), ProviderError::RequestFailed);
    assert_eq!(from_api_result::<i64>(Ok(5)), Ok(5));
    let b = from_api_block(block_info_from_body(3, GOOD_BLOCK).unwrap());
    assert_eq!(b.height, 3);
    assert_eq!(b.timestamp, 1700000000);
    assert_eq!(b.tx_count, 2500);
}

#[test]
fn http_backend_reports_unavailable_connection_count() {
    assert_eq!(connection_count_of(Backend::Http, None), Ok(0));
    assert_eq!(connection_count_of(Backend::Rpc, Some(Ok(8))), Ok(8));
    assert_eq!(
        connection_count_of(Backend::Rpc, Some(Err(ProviderError::RequestFailed))),
        Err(ProviderError::RequestFailed)
    );
}
