use vstd::prelude::*;

verus! {

/// The capacity of a queue whose size is not configured.
pub const DEFAULT_CHANNEL_SIZE: usize = 1000;

/// The connection timeout, in seconds, when none is configured.
pub const DEFAULT_CONNECTION_TIMEOUT_SECS: u64 = 5;

/// Extra room in the API-version report queue beyond one slot per source.
pub const API_VERSION_QUEUE_SLACK: usize = 10;

/// The capacity of an inbound or outbound queue.
pub fn channel_capacity(configured: Option<usize>) -> (r: usize)
    ensures
        r == (match configured {
            Some(n) => n,
            None => DEFAULT_CHANNEL_SIZE,
        }),
{
    match configured {
        Some(n) => n,
        None => DEFAULT_CHANNEL_SIZE,
    }
}

/// The connection timeout of an upstream, in seconds.
pub fn connection_timeout_secs(configured: Option<u32>) -> (r: u64)
    ensures
        r == (match configured {
            Some(n) => n as u64,
            None => DEFAULT_CONNECTION_TIMEOUT_SECS,
        }),
{
    match configured {
        Some(n) => n as u64,
        None => DEFAULT_CONNECTION_TIMEOUT_SECS,
    }
}

/// The capacity of the API-version report queue for `sources` upstreams:
/// every session can report without waiting.
pub fn report_queue_capacity(sources: usize) -> (r: usize)
    ensures
        r == if sources <= usize::MAX - API_VERSION_QUEUE_SLACK {
            sources + API_VERSION_QUEUE_SLACK
        } else {
            usize::MAX as int
        },
        r >= sources,
{
    sources.saturating_add(API_VERSION_QUEUE_SLACK)
}

} // verus!
