use vstd::prelude::*;

verus! {

/// Errors surfaced by the client engine.
#[derive(Debug, Clone, Copy, PartialEq, Eq)]
pub enum RatsioError {
    /// Every candidate endpoint was tried and none could be reached.
    NoRouteToHostError,
    /// The transport reported end of stream; handled by reconnecting.
    ServerDisconnected,
    /// A publish or request payload exceeds the server's advertised limit.
    MaxPayloadOverflow(usize),
    /// Terminal item of a subscription whose message budget is used up.
    SubscriptionReachedMaxMsgs(u64),
    /// A stream or future ended without producing a value.
    InnerBrokenChain,
}

} // verus!
