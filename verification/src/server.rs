//! The pairing server's HTTP surface, as values: the handshake endpoint's
//! route and unconditional acknowledgement, and the cache-busting header
//! that every response carries. The listener, routing and static-file
//! plumbing live with the caller; what the wire must carry is pinned here.

use vstd::prelude::*;

verus! {

/// The exact acknowledgement body of the handshake endpoint.
pub open spec fn spec_connect_ack() -> Seq<char> {
    "Connected successfully"@
}

/// The route of the handshake endpoint.
pub open spec fn spec_connect_route() -> Seq<char> {
    "/api/connect"@
}

/// The exact Cache-Control value on every response: the three directives
/// that forbid client and proxy caching, so every fetch is revalidated.
pub open spec fn spec_cache_control() -> Seq<char> {
    "no-cache, no-store, must-revalidate"@
}

/// `needle` occurs contiguously somewhere in `hay`.
pub open spec fn contains_seq(hay: Seq<char>, needle: Seq<char>) -> bool {
    exists|i: int|
        0 <= i && i + needle.len() <= hay.len() && #[trigger] hay.subrange(
            i,
            i + needle.len() as int,
        ) == needle
}

/// Handle one handshake call: the payload is an opaque announcement — not
/// validated, not kept — and the call is acknowledged unconditionally with
/// the fixed message, whatever the payload holds.
pub fn handle_connect(_payload: &str) -> (r: String)
    ensures
        r@ == spec_connect_ack(),
{
    "Connected successfully".to_owned()
}

/// The handshake endpoint's route, for the router that serves it.
pub fn connect_route() -> (r: String)
    ensures
        r@ == spec_connect_route(),
{
    "/api/connect".to_owned()
}

/// The Cache-Control header value to set on every response.
pub fn cache_control_value() -> (r: String)
    ensures
        r@ == spec_cache_control(),
{
    "no-cache, no-store, must-revalidate".to_owned()
}

/// Law: the published Cache-Control value carries all three cache-busting
/// directives — `no-cache`, `no-store` and `must-revalidate`.
pub proof fn lemma_cache_directives()
    ensures
        contains_seq(spec_cache_control(), "no-cache"@),
        contains_seq(spec_cache_control(), "no-store"@),
        contains_seq(spec_cache_control(), "must-revalidate"@),
{
    reveal_strlit("no-cache, no-store, must-revalidate");
    reveal_strlit("no-cache");
    reveal_strlit("no-store");
    reveal_strlit("must-revalidate");
    assert(spec_cache_control().subrange(0, 0 + "no-cache"@.len() as int) =~= "no-cache"@);
    assert(spec_cache_control().subrange(10, 10 + "no-store"@.len() as int) =~= "no-store"@);
    assert(spec_cache_control().subrange(20, 20 + "must-revalidate"@.len() as int)
        =~= "must-revalidate"@);
}

} // verus!
