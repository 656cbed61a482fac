//! The failures of a synchronisation.

use vstd::prelude::*;

verus! {

/// The step of a mail session at which a transport failure came up.
#[derive(Debug, Clone, Copy, PartialEq, Eq, Structural)]
pub enum ProtocolStage {
    Connect,
    Login,
    Capabilities,
    Identify,
    Select,
    Search,
    Fetch,
    Send,
    /// The session is over.
    Finished,
}

/// Why a synchronisation did not go through.
#[derive(Debug, Clone, PartialEq, Eq)]
pub enum SyncError {
    /// No profile or no secret is stored: there is nothing to do.
    ConfigMissing,
    /// The mailbox service refused the identity.
    AuthFailed,
    /// A session could not be opened, or a command or a message was refused.
    TransportFailure(ProtocolStage, String),
    /// The subject carries no timestamp, or the message has no attachment.
    MalformedEnvelope,
    /// The attachment does not decompress, or its archive holds no entry.
    CorruptArchive,
    /// The store failed after this many records had been merged.
    PartialMerge(usize),
}

/// A failure as a value of mathematics: the cause of a transport failure is
/// its text.
pub enum Failure {
    ConfigMissing,
    AuthFailed,
    TransportFailure(ProtocolStage, Seq<char>),
    MalformedEnvelope,
    CorruptArchive,
    PartialMerge(usize),
}

impl View for SyncError {
    type V = Failure;

    open spec fn view(&self) -> Failure {
        match self {
            SyncError::ConfigMissing => Failure::ConfigMissing,
            SyncError::AuthFailed => Failure::AuthFailed,
            SyncError::TransportFailure(stage, cause) => Failure::TransportFailure(*stage, cause@),
            SyncError::MalformedEnvelope => Failure::MalformedEnvelope,
            SyncError::CorruptArchive => Failure::CorruptArchive,
            SyncError::PartialMerge(applied) => Failure::PartialMerge(*applied),
        }
    }
}

} // verus!
