//! The closed error taxonomy returned by every boundary operation.

use vstd::prelude::*;

verus! {

use vstd::string::StringExecFns;

/// Every failure that a service call or the engine's run loop can report.
/// Variants that carry a `String` hold a human-readable detail message.
///
/// `BlockNotReady`, `SendError` and `ReceiveError` are retryable: the engine
/// is expected to try again later rather than treat them as fatal.  All other
/// variants are interpreted by the engine and, if it cannot make progress,
/// propagated out of its run loop as the single fatal-failure signal.
#[derive(Debug)]
pub enum ConsensusError {
    /// Malformed data crossed the boundary.
    EncodingError(String),
    /// A channel-level failure while sending.
    SendError(String),
    /// A channel-level failure while receiving.
    ReceiveError(String),
    /// The operation is invalid for the current block-candidate state.
    InvalidState(String),
    /// A block identifier was not recognized by the host.
    UnknownBlock(String),
    /// A peer identifier was not recognized by the host.
    UnknownPeer(String),
    /// The chain was queried before any block exists.
    NoChainHead,
    /// The candidate is not yet eligible for summarize/finalize; retry later.
    BlockNotReady,
}

impl ConsensusError {
    /// The characters that `message` returns for this error.
    pub open spec fn message_spec(&self) -> Seq<char> {
        match self {
            ConsensusError::EncodingError(s) => s@,
            ConsensusError::SendError(s) => s@,
            ConsensusError::ReceiveError(s) => s@,
            ConsensusError::InvalidState(s) => s@,
            ConsensusError::UnknownBlock(s) => s@,
            ConsensusError::UnknownPeer(s) => s@,
            ConsensusError::NoChainHead => "No chain head"@,
            ConsensusError::BlockNotReady => "Block not ready to finalize"@,
        }
    }

    /// The human-readable detail of this error: the carried message for the
    /// variants that hold one, a fixed description otherwise.
    pub fn message(&self) -> (m: String)
        ensures
            m@ == self.message_spec(),
    {
        match self {
            ConsensusError::EncodingError(s) => s.clone(),
            ConsensusError::SendError(s) => s.clone(),
            ConsensusError::ReceiveError(s) => s.clone(),
            ConsensusError::InvalidState(s) => s.clone(),
            ConsensusError::UnknownBlock(s) => s.clone(),
            ConsensusError::UnknownPeer(s) => s.clone(),
            ConsensusError::NoChainHead => "No chain head".to_owned(),
            ConsensusError::BlockNotReady => "Block not ready to finalize".to_owned(),
        }
    }

    /// The characters that `display_string` returns: the detail wrapped in
    /// parentheses.
    pub open spec fn display_spec(&self) -> Seq<char> {
        "("@ + self.message_spec() + ")"@
    }

    /// The error rendered for people, as its on-screen form: the detail in
    /// parentheses.
    pub fn display_string(&self) -> (m: String)
        ensures
            m@ == self.display_spec(),
    {
        let m = "(".to_owned().concat(self.message().as_str()).concat(")");
        proof {
            assert(m@ =~= self.display_spec());
        }
        m
    }

    /// Whether the engine's own logic is expected to retry after this error
    /// instead of treating it as fatal.
    pub fn is_retryable(&self) -> (r: bool)
        ensures
            r == (*self is BlockNotReady || *self is SendError || *self is ReceiveError),
    {
        match self {
            ConsensusError::BlockNotReady => true,
            ConsensusError::SendError(_) => true,
            ConsensusError::ReceiveError(_) => true,
            _ => false,
        }
    }
}

/// Declares the standard library type `std::sync::mpsc::RecvError` to the
/// verifier, so that `ReceiveError::ChannelError` can carry it.  Nothing is
/// assumed about its contents; it is a unit struct marking a closed channel.
#[verifier::external_type_specification]
#[verifier::external_body]
pub struct ExRecvError(std::sync::mpsc::RecvError);

/// A failure while receiving from the update channel.
#[derive(Debug)]
pub enum ReceiveError {
    TimeoutError,
    ChannelError(std::sync::mpsc::RecvError),
    DisconnectedError,
}

impl ReceiveError {
    /// The characters that `message` returns for this error.
    pub open spec fn message_spec(&self) -> Seq<char> {
        match self {
            ReceiveError::TimeoutError => "TimeoutError"@,
            ReceiveError::ChannelError(_) => "receiving on an empty and disconnected channel"@,
            ReceiveError::DisconnectedError => "DisconnectedError"@,
        }
    }

    /// A fixed description of this error; for `ChannelError` it is the
    /// description of the carried channel error.
    pub fn message(&self) -> (m: String)
        ensures
            m@ == self.message_spec(),
    {
        match self {
            ReceiveError::TimeoutError => "TimeoutError".to_owned(),
            ReceiveError::ChannelError(_) => {
                "receiving on an empty and disconnected channel".to_owned()
            },
            ReceiveError::DisconnectedError => "DisconnectedError".to_owned(),
        }
    }

    /// The characters that `display_string` returns: the channel variant is
    /// prefixed with its name, the others read as their description.
    pub open spec fn display_spec(&self) -> Seq<char> {
        match self {
            ReceiveError::ChannelError(_) => "ChannelError: "@ + self.message_spec(),
            _ => self.message_spec(),
        }
    }

    /// The error rendered for people, as its on-screen form.
    pub fn display_string(&self) -> (m: String)
        ensures
            m@ == self.display_spec(),
    {
        match self {
            ReceiveError::ChannelError(_) => {
                let m = "ChannelError: ".to_owned().concat(self.message().as_str());
                proof {
                    assert(m@ =~= self.display_spec());
                }
                m
            },
            _ => self.message(),
        }
    }
}

/// A failure while sending to a peer or onto a channel.
#[derive(Debug)]
pub enum SendError {
    DisconnectedError,
    TimeoutError,
    UnknownError,
}

} // verus!
