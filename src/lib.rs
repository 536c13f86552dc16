// Request dispatch and retry decisions of an RPC client over HTTP.
//
// - `path`: expands a URL pattern with its path and query parameters.
// - `headers`: the headers of each attempt, hop-by-hop headers replaced.
// - `proxy`: rewrites target and headers for the configured proxy.
// - `classify`: `Retry-After` parsing and the verdict on each response.
// - `dispatch`: the per-dispatch state, the retry policy, backoff with
//   jitter, and the step taken after each attempt.

pub mod classify;
pub mod dispatch;
pub mod headers;
pub mod path;
pub mod proxy;
