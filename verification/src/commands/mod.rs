//! The operator console commands that deal with peers: what each prints and
//! when it refuses, computed from values that the networking layer has already
//! handed over.

use vstd::prelude::*;

pub mod add_peer;
pub mod get_peer;
pub mod whoami;

verus! {

/// A peer identity: its bytes on the wire and its printed form.
#[derive(Clone, Debug, PartialEq, Eq)]
pub struct PeerId {
    pub bytes: Vec<u8>,
    pub text: String,
}

/// A peer named on the command line, resolved to its identity.
#[derive(Clone, Debug, PartialEq, Eq)]
pub struct UniPeerId {
    pub peer_id: PeerId,
}

/// A public key named on the command line, with the identity derived from it.
#[derive(Clone, Debug, PartialEq, Eq)]
pub struct UniPublicKey {
    pub peer_id: PeerId,
}

/// A command argument given either in its own notation or as raw hex.
#[derive(Clone, Debug, PartialEq, Eq)]
pub enum TypeOrHex<T> {
    Type(T),
    Hex(Vec<u8>),
}

/// Why the QR encoder turned a text down.
#[derive(Clone, Copy, Debug, PartialEq, Eq, Structural)]
pub enum QrFailure {
    DataTooLong,
    InvalidVersion,
    UnsupportedCharacterSet,
    InvalidEciDesignator,
    InvalidCharacter,
}

/// Why a command did not run to its end.
#[derive(Debug, PartialEq, Eq)]
pub enum CommandError {
    CannotAddSelf,
    PeerNotFound { peer_id: String },
    QrCode(QrFailure),
}

/// What the running node knows of itself when a command is handled.
#[derive(Clone, Debug)]
pub struct CommandContext {
    pub local_peer_id: PeerId,
    pub network: String,
}

/// What `e` reads as when shown to the operator.
pub open spec fn error_text(e: CommandError) -> Seq<char> {
    match e {
        CommandError::CannotAddSelf => "Cannot add self as peer"@,
        CommandError::PeerNotFound { peer_id } => "Peer "@ + peer_id@ + " not found"@,
        CommandError::QrCode(QrFailure::DataTooLong) => "data too long"@,
        CommandError::QrCode(QrFailure::InvalidVersion) => "invalid version"@,
        CommandError::QrCode(QrFailure::UnsupportedCharacterSet) => "unsupported character set"@,
        CommandError::QrCode(QrFailure::InvalidEciDesignator) => "invalid ECI designator"@,
        CommandError::QrCode(QrFailure::InvalidCharacter) => "invalid character"@,
    }
}

impl CommandError {
    /// The message shown to the operator.
    pub fn message(&self) -> (out: String)
        ensures
            out@ == error_text(*self),
    {
        let mut out = String::new();
        match self {
            CommandError::CannotAddSelf => {
                crate::text::push_text(&mut out, "Cannot add self as peer");
            },
            CommandError::PeerNotFound { peer_id } => {
                crate::text::push_text(&mut out, "Peer ");
                crate::text::push_text(&mut out, peer_id.as_str());
                crate::text::push_text(&mut out, " not found");
            },
            CommandError::QrCode(QrFailure::DataTooLong) => {
                crate::text::push_text(&mut out, "data too long");
            },
            CommandError::QrCode(QrFailure::InvalidVersion) => {
                crate::text::push_text(&mut out, "invalid version");
            },
            CommandError::QrCode(QrFailure::UnsupportedCharacterSet) => {
                crate::text::push_text(&mut out, "unsupported character set");
            },
            CommandError::QrCode(QrFailure::InvalidEciDesignator) => {
                crate::text::push_text(&mut out, "invalid ECI designator");
            },
            CommandError::QrCode(QrFailure::InvalidCharacter) => {
                crate::text::push_text(&mut out, "invalid character");
            },
        }
        out
    }
}

} // verus!
