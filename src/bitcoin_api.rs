//! The public HTTP data provider: how its answers are classified and read.
//! The requests themselves are sent by the caller, one through each
//! `RateLimiter` turn.

use vstd::prelude::*;
use vstd::string::*;

use crate::decimal::{append_signed, i64_of_text, parse_i64, signed_text};
use crate::retry::{RetryPolicy, RetryStep};
use crate::json::{array_of, decode_json, i64_of, json_of_text, member, str_of, u64_of, JsonValue};

verus! {

/// How a call to the HTTP provider failed.
#[derive(Debug, Clone, PartialEq, Eq)]
pub enum BitcoinApiError {
    RequestFailed,
    JsonParseError,
    MissingField(String),
    RateLimitExceeded,
    MaxRetriesExceeded,
}

/// A block as the HTTP provider describes it.
#[derive(Debug, Clone, PartialEq, Eq)]
pub struct BlockInfo {
    pub height: i64,
    pub hash: String,
    pub time: i64,
    pub n_tx: u32,
    pub size: u32,
}

pub const BASE_URL: &'static str = "https://blockchain.info";

pub const HTTP_TOO_MANY_REQUESTS: u16 = 429;

pub open spec fn is_success_status(status: u16) -> bool {
    200 <= status && status <= 299
}

/// Sorts an HTTP answer: its body where the status is a success, else the
/// kind of failure.
pub fn classify_response(status: u16, body: String) -> (r: Result<String, BitcoinApiError>)
    ensures
        is_success_status(status) ==> r == Ok::<String, BitcoinApiError>(body),
        status == HTTP_TOO_MANY_REQUESTS ==> r == Err::<String, BitcoinApiError>(
            BitcoinApiError::RateLimitExceeded,
        ),
        !is_success_status(status) && status != HTTP_TOO_MANY_REQUESTS ==> r == Err::<
            String,
            BitcoinApiError,
        >(BitcoinApiError::RequestFailed),
{
    if 200 <= status && status <= 299 {
        Ok(body)
    } else if status == HTTP_TOO_MANY_REQUESTS {
        Err(BitcoinApiError::RateLimitExceeded)
    } else {
        Err(BitcoinApiError::RequestFailed)
    }
}

/// Reads the body of a block-count answer: a bare decimal integer.
pub fn parse_block_count(body: &str) -> (r: Result<i64, BitcoinApiError>)
    ensures
        match i64_of_text(body@) {
            Some(v) => r == Ok::<i64, BitcoinApiError>(v),
            None => r == Err::<i64, BitcoinApiError>(BitcoinApiError::JsonParseError),
        },
{
    match parse_i64(body) {
        Some(v) => Ok(v),
        None => Err(BitcoinApiError::JsonParseError),
    }
}

/// What a block document yields: the block, or the name of the first field
/// that is absent or of the wrong kind.
pub open spec fn block_outcome(height: i64, doc: JsonValue) -> Result<BlockInfo, Seq<char>> {
    match array_of(member(doc, "blocks"@)) {
        None => Err("blocks array"@),
        Some(blocks) => if blocks.len() == 0 {
            Err("first block"@)
        } else {
            let b = blocks[0];
            match str_of(member(b, "hash"@)) {
                None => Err("hash"@),
                Some(hash) => match i64_of(member(b, "time"@)) {
                    None => Err("time"@),
                    Some(time) => match u64_of(member(b, "n_tx"@)) {
                        None => Err("n_tx"@),
                        Some(n_tx) => match u64_of(member(b, "size"@)) {
                            None => Err("size"@),
                            Some(size) => Ok(
                                BlockInfo {
                                    height,
                                    hash,
                                    time,
                                    n_tx: n_tx as u32,
                                    size: size as u32,
                                },
                            ),
                        },
                    },
                },
            }
        },
    }
}


/// A block document whose first block lacks a string `hash` yields
/// `MissingField("hash")`, never a block: whatever the other fields hold.
pub proof fn lemma_missing_hash(height: i64, doc: JsonValue)
    requires
        array_of(member(doc, "blocks"@)) is Some,
        array_of(member(doc, "blocks"@)).unwrap().len() > 0,
        str_of(member(array_of(member(doc, "blocks"@)).unwrap()[0], "hash"@)) is None,
    ensures
        block_outcome(height, doc) == Err::<BlockInfo, Seq<char>>("hash"@),
        forall|r: Result<BlockInfo, BitcoinApiError>|
            block_result_matches(r, block_outcome(height, doc)) ==> (r matches Err(
                BitcoinApiError::MissingField(name),
            ) && name@ == "hash"@),
{
}

/// The result of reading a block document, as `block_outcome` gives it.
pub open spec fn block_result_matches(
    r: Result<BlockInfo, BitcoinApiError>,
    expected: Result<BlockInfo, Seq<char>>,
) -> bool {
    match (r, expected) {
        (Ok(b), Ok(e)) => b == e,
        (Err(BitcoinApiError::MissingField(name)), Err(missing)) => name@ == missing,
        _ => false,
    }
}

fn missing(name: &str) -> (r: BitcoinApiError)
    ensures
        r matches BitcoinApiError::MissingField(n) && n@ == name@,
{
    BitcoinApiError::MissingField(String::from_str(name))
}

/// Reads the first block of a decoded block-by-height document.
pub fn block_info_from_json(height: i64, doc: &JsonValue) -> (r: Result<BlockInfo, BitcoinApiError>)
    ensures
        block_result_matches(r, block_outcome(height, *doc)),
{
    let blocks = match doc.get("blocks") {
        Some(v) => match v.as_array() {
            Some(a) => a,
            None => return Err(missing("blocks array")),
        },
        None => return Err(missing("blocks array")),
    };
    if blocks.len() == 0 {
        return Err(missing("first block"));
    }
    let b = &blocks[0];
    let hash = match b.get("hash") {
        Some(v) => match v.as_str() {
            Some(s) => s.clone(),
            None => return Err(missing("hash")),
        },
        None => return Err(missing("hash")),
    };
    let time = match b.get("time") {
        Some(v) => match v.as_i64() {
            Some(t) => t,
            None => return Err(missing("time")),
        },
        None => return Err(missing("time")),
    };
    let n_tx = match b.get("n_tx") {
        Some(v) => match v.as_u64() {
            Some(n) => n,
            None => return Err(missing("n_tx")),
        },
        None => return Err(missing("n_tx")),
    };
    let size = match b.get("size") {
        Some(v) => match v.as_u64() {
            Some(n) => n,
            None => return Err(missing("size")),
        },
        None => return Err(missing("size")),
    };
    Ok(BlockInfo { height, hash, time, n_tx: n_tx as u32, size: size as u32 })
}

/// Reads the body of a block-by-height answer.
pub fn block_info_from_body(height: i64, body: &str) -> (r: Result<BlockInfo, BitcoinApiError>)
    ensures
        match json_of_text(body@) {
            None => r == Err::<BlockInfo, BitcoinApiError>(BitcoinApiError::JsonParseError),
            Some(doc) => block_result_matches(r, block_outcome(height, doc)),
        },
{
    match decode_json(body) {
        Some(doc) => block_info_from_json(height, &doc),
        None => Err(BitcoinApiError::JsonParseError),
    }
}

/// The address of a request for `path`, asking for JSON where `json` holds.
pub open spec fn request_url_text(path: Seq<char>, json: bool) -> Seq<char> {
    BASE_URL@ + path + if json {
        "?format=json&cors=true"@
    } else {
        "?cors=true"@
    }
}

pub fn request_url(path: &str, json: bool) -> (r: String)
    ensures
        r@ == request_url_text(path@, json),
{
    let mut url = String::from_str(BASE_URL);
    url.append(path);
    if json {
        url.append("?format=json&cors=true");
    } else {
        url.append("?cors=true");
    }
    url
}

pub const DIFFICULTY_PATH: &'static str = "/q/getdifficulty";

pub const BLOCK_COUNT_PATH: &'static str = "/q/getblockcount";

pub const LATEST_HASH_PATH: &'static str = "/q/latesthash";

pub const MEMPOOL_PATH: &'static str = "/unconfirmed-transactions";

/// The path of the block-by-height document for `height`.
pub fn block_height_path(height: i64) -> (r: String)
    ensures
        r@ == "/block-height/"@ + signed_text(height as int),
{
    let mut path = String::from_str("/block-height/");
    append_signed(&mut path, height);
    path
}


/// The least spacing between two requests to the provider.
pub const RATE_LIMIT_MS: u64 = 10000;

/// How a block-by-height request is retried: the lookup the provider most
/// often fails, as its head races ahead of or behind the height asked for.
pub const BLOCK_FETCH_ATTEMPTS: u32 = 3;

pub const BLOCK_FETCH_BASE_DELAY_MS: u64 = 2000;

pub fn block_fetch_policy() -> (r: RetryPolicy)
    ensures
        r == (RetryPolicy { max_attempts: BLOCK_FETCH_ATTEMPTS, base_delay_ms: BLOCK_FETCH_BASE_DELAY_MS }),
{
    RetryPolicy::new(BLOCK_FETCH_ATTEMPTS, BLOCK_FETCH_BASE_DELAY_MS)
}

/// After `made` failed attempts at a block: the wait before the next one,
/// or `MaxRetriesExceeded` once the policy gives up.
pub fn after_failed_block_fetch(policy: &RetryPolicy, made: u32) -> (r: Result<u64, BitcoinApiError>)
    ensures
        match policy.step_spec(made as nat) {
            RetryStep::RetryAfter(d) => r == Ok::<u64, BitcoinApiError>(d),
            RetryStep::Exhausted => r == Err::<u64, BitcoinApiError>(BitcoinApiError::MaxRetriesExceeded),
        },
{
    match policy.after_failure(made) {
        RetryStep::RetryAfter(d) => Ok(d),
        RetryStep::Exhausted => Err(BitcoinApiError::MaxRetriesExceeded),
    }
}

} // verus!
