//! What a call to the server, or to the service, comes back with when it fails.

use vstd::prelude::*;

use crate::wire::Lease;

verus! {

/// A refusal that is about a lease, with the lease where the server named it.
#[derive(Debug)]
pub struct LeaseConflict {
    pub code: String,
    pub error: String,
    pub lease: Option<Lease>,
}

impl LeaseConflict {
    /// Who holds the lease, where the server said so.
    pub fn holder(&self) -> (r: Option<String>)
        ensures
            match self.lease {
                Some(l) => r == Some(l.holder_username),
                None => r is None,
            },
    {
        match &self.lease {
            Some(l) => Some(l.holder_username.clone()),
            None => None,
        }
    }
}

/// What the server refused a call with.
#[derive(Debug)]
pub enum ApiError {
    Unauthorized,
    Forbidden,
    NotFound,
    QuotaExceeded(String),
    TooLarge(String),
    Archived,
    RateLimited { retry_after_seconds: u32, body: String },
    Network(String),
    StorageUnreachable { message: String },
    NonFastForward(String),
    /// Another member holds the lease.
    LeaseHeld(LeaseConflict),
    /// The head is ahead of the version the lease was asked for with.
    LeaseStale { head_version: i64, base_version: i64 },
    /// The push needs the lease, and somebody else may hold it.
    LeaseRequired(LeaseConflict),
    LeasePushed(String),
    NotShared,
    Conflict(String),
    BadRequest(String),
    Server { status: u16, body: String },
}

/// Why the service's engine is not there.
#[derive(Debug, Clone, Copy, PartialEq, Eq, Structural)]
pub enum EngineDownReason {
    /// A service too old to say.
    Unknown,
    NoSession,
    SessionExpired,
    KeyringUnreadable,
    Other,
}

/// What the service answered a request with instead of doing it.
#[derive(Debug)]
pub enum IpcError {
    /// A conflict on the server, with the server's own tag.
    Conflict { code: String, message: String },
    /// Any other refusal, with its code.
    Refused { code: String, message: String },
    /// A request that the user has to change.
    Invalid { message: String },
    EngineDown { reason: String, kind: EngineDownReason },
    NoServerSession { reason: String },
    CloudSessionExpired { reason: String },
    /// Anything else that went wrong at the service.
    Internal { message: String },
}

impl IpcError {
    /// The one line it prints as.
    pub open spec fn line(self) -> Seq<char> {
        match self {
            IpcError::Conflict { code, message } => message@,
            IpcError::Refused { code, message } => message@,
            IpcError::Invalid { message } => message@,
            IpcError::EngineDown { reason, kind } => reason@,
            IpcError::NoServerSession { reason } => reason@,
            IpcError::CloudSessionExpired { reason } => reason@,
            IpcError::Internal { message } => message@,
        }
    }

    /// The one line it prints as.
    pub fn message(&self) -> (r: String)
        ensures
            r@ == self.line(),
    {
        match self {
            IpcError::Conflict { code: _, message } => message.clone(),
            IpcError::Refused { code: _, message } => message.clone(),
            IpcError::Invalid { message } => message.clone(),
            IpcError::EngineDown { reason, kind: _ } => reason.clone(),
            IpcError::NoServerSession { reason } => reason.clone(),
            IpcError::CloudSessionExpired { reason } => reason.clone(),
            IpcError::Internal { message } => message.clone(),
        }
    }
}

/// How a call of the lease task ended.
#[derive(Debug)]
pub enum CallError {
    /// The server answered with a refusal.
    Api(ApiError),
    /// Nothing that says what the server thinks.
    Other,
}

// ---- laws

/// A conflict names the holder of the lease it came with, and an error prints as what it says: its
/// message, or the reason it gives.
pub proof fn errors_say_what_they_carry(c: LeaseConflict, holder: Option<String>, e: IpcError, m: String)
    requires
        call_ensures(LeaseConflict::holder, (&c,), holder),
        call_ensures(IpcError::message, (&e,), m),
    ensures
        holder is Some <==> c.lease is Some,
        holder is Some ==> holder->0@ == c.lease->0.holder_username@,
        e matches IpcError::Conflict { message, .. } ==> m@ == message@,
        e matches IpcError::Refused { message, .. } ==> m@ == message@,
        e matches IpcError::Invalid { message } ==> m@ == message@,
        e matches IpcError::Internal { message } ==> m@ == message@,
        e matches IpcError::EngineDown { reason, .. } ==> m@ == reason@,
        e matches IpcError::NoServerSession { reason } ==> m@ == reason@,
        e matches IpcError::CloudSessionExpired { reason } ==> m@ == reason@,
{
}

} // verus!
