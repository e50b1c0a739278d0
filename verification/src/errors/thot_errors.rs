use vstd::prelude::*;

verus! {

/// The errors of Thoth, each with what went wrong.
pub enum ThothErrors {
    LockError(String),
    IoError(String),
    Tonic(String),
    P2PError(String),
    DbError(String),
    SendChError(String),
    SerdeError(String),
    BincodeError(String),
}

/// The text shown for an error: a prefix naming its kind, then its message.
pub open spec fn error_text(e: ThothErrors) -> Seq<char> {
    match e {
        ThothErrors::LockError(msg) => "Lock error: "@ + msg@,
        ThothErrors::IoError(msg) => "Io error: "@ + msg@,
        ThothErrors::Tonic(msg) => "gRPC Tonic error: "@ + msg@,
        ThothErrors::P2PError(msg) => "P2P error: "@ + msg@,
        ThothErrors::DbError(msg) => "Sqlite Database error: "@ + msg@,
        ThothErrors::SendChError(msg) => "Sending Channel error: "@ + msg@,
        ThothErrors::SerdeError(msg) => "Converting Serde to/from types error: "@ + msg@,
        ThothErrors::BincodeError(msg) => "Converting Bincode to/from types error: "@ + msg@,
    }
}

/// `prefix` followed by `msg`.
fn prefixed(prefix: &str, msg: &String) -> (text: String)
    ensures
        text@ == prefix@ + msg@,
{
    let mut text = prefix.to_owned();
    text.append(msg.as_str());
    text
}

impl ThothErrors {
    /// The text shown for the error (see `error_text`).
    pub fn message(&self) -> (text: String)
        ensures
            text@ == error_text(*self),
    {
        match self {
            ThothErrors::LockError(msg) => prefixed("Lock error: ", msg),
            ThothErrors::IoError(msg) => prefixed("Io error: ", msg),
            ThothErrors::Tonic(msg) => prefixed("gRPC Tonic error: ", msg),
            ThothErrors::P2PError(msg) => prefixed("P2P error: ", msg),
            ThothErrors::DbError(msg) => prefixed("Sqlite Database error: ", msg),
            ThothErrors::SendChError(msg) => prefixed("Sending Channel error: ", msg),
            ThothErrors::SerdeError(msg) => prefixed("Converting Serde to/from types error: ", msg),
            ThothErrors::BincodeError(msg) => prefixed("Converting Bincode to/from types error: ", msg),
        }
    }
}

} // verus!
