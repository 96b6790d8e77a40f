//! What both backends hand to the polling loop: one block shape and one
//! failure taxonomy, whichever backend answered.

use vstd::prelude::*;

use crate::bitcoin_api::{self, BitcoinApiError};
use crate::bitcoin_rpc;

verus! {

/// How a provider call failed, in terms that do not depend on the backend.
#[derive(Debug, Clone, PartialEq, Eq)]
pub enum ProviderError {
    RequestFailed,
    JsonParseError,
    MissingField(String),
    RateLimitExceeded,
    MaxRetriesExceeded,
}

/// Which backend a provider talks to; chosen once, at startup.
#[derive(Debug, Clone, Copy, PartialEq, Eq, Structural)]
pub enum Backend {
    Rpc,
    Http,
}

/// What `get_connection_count` gives where the backend cannot tell: the HTTP
/// provider has no notion of peers.
pub const UNAVAILABLE_CONNECTION_COUNT: u64 = 0;

/// A block, the same whichever backend described it.
#[derive(Debug, Clone, PartialEq, Eq)]
pub struct BlockInfo {
    pub height: i64,
    pub hash: String,
    pub timestamp: i64,
    pub tx_count: u32,
    pub size: u32,
}

pub open spec fn provider_error_of(e: BitcoinApiError) -> ProviderError {
    match e {
        BitcoinApiError::RequestFailed => ProviderError::RequestFailed,
        BitcoinApiError::JsonParseError => ProviderError::JsonParseError,
        BitcoinApiError::MissingField(name) => ProviderError::MissingField(name),
        BitcoinApiError::RateLimitExceeded => ProviderError::RateLimitExceeded,
        BitcoinApiError::MaxRetriesExceeded => ProviderError::MaxRetriesExceeded,
    }
}

/// The uniform kind of an HTTP provider failure.
pub fn from_api_error(e: BitcoinApiError) -> (r: ProviderError)
    ensures
        r == provider_error_of(e),
{
    match e {
        BitcoinApiError::RequestFailed => ProviderError::RequestFailed,
        BitcoinApiError::JsonParseError => ProviderError::JsonParseError,
        BitcoinApiError::MissingField(name) => ProviderError::MissingField(name),
        BitcoinApiError::RateLimitExceeded => ProviderError::RateLimitExceeded,
        BitcoinApiError::MaxRetriesExceeded => ProviderError::MaxRetriesExceeded,
    }
}

/// An HTTP provider answer in the uniform shape.
pub fn from_api_result<T>(r: Result<T, BitcoinApiError>) -> (u: Result<T, ProviderError>)
    ensures
        match r {
            Ok(v) => u == Ok::<T, ProviderError>(v),
            Err(e) => u == Err::<T, ProviderError>(provider_error_of(e)),
        },
{
    match r {
        Ok(v) => Ok(v),
        Err(e) => Err(from_api_error(e)),
    }
}

pub fn from_api_block(b: bitcoin_api::BlockInfo) -> (r: BlockInfo)
    ensures
        r == (BlockInfo {
            height: b.height,
            hash: b.hash,
            timestamp: b.time,
            tx_count: b.n_tx,
            size: b.size,
        }),
{
    BlockInfo { height: b.height, hash: b.hash, timestamp: b.time, tx_count: b.n_tx, size: b.size }
}

pub fn from_rpc_block(b: bitcoin_rpc::BlockInfo) -> (r: BlockInfo)
    ensures
        r == (BlockInfo {
            height: b.height,
            hash: b.hash,
            timestamp: b.time,
            tx_count: b.n_tx,
            size: b.size,
        }),
{
    BlockInfo { height: b.height, hash: b.hash, timestamp: b.time, tx_count: b.n_tx, size: b.size }
}

/// The connection count that a provider reports: the node's own answer on
/// the RPC backend, the unavailable sentinel on the HTTP one, which is
/// asked nothing.
pub fn connection_count_of(backend: Backend, node_answer: Option<Result<u64, ProviderError>>) -> (r:
    Result<u64, ProviderError>)
    requires
        backend == Backend::Rpc ==> node_answer.is_some(),
    ensures
        backend == Backend::Http ==> r == Ok::<u64, ProviderError>(UNAVAILABLE_CONNECTION_COUNT),
        backend == Backend::Rpc ==> r == node_answer.unwrap(),
{
    match backend {
        Backend::Http => Ok(UNAVAILABLE_CONNECTION_COUNT),
        Backend::Rpc => match node_answer {
            Some(a) => a,
            None => Ok(UNAVAILABLE_CONNECTION_COUNT),
        },
    }
}

} // verus!
