//! `get-peer`: everything known about one connected peer.

use super::{CommandContext, CommandError, PeerId, TypeOrHex, UniPeerId};
use crate::text::push_text;
use vstd::prelude::*;

verus! {

/// Get all available info about peer
#[derive(Debug)]
pub struct Args {
    pub value: UniPeerId,
}

/// A peer's public key in its two printed forms.
#[derive(Clone, Debug)]
pub struct PublicKeyText {
    pub emoji_id: String,
    pub key: String,
}

/// What the networking layer reports of one live connection.
#[derive(Clone, Debug)]
pub struct PeerConnection {
    pub peer_id: PeerId,
    pub public_key: Option<PublicKeyText>,
    pub remote_address: String,
    /// The last measured round trip, as the networking layer prints it.
    pub ping_latency: String,
    pub user_agent: Option<String>,
    pub supported_protocols: Vec<String>,
}

/// How much of a ban is left: whole seconds and the nanoseconds beyond them.
#[derive(Clone, Copy, Debug)]
pub struct RemainingBan {
    secs: u64,
    subsec_nanos: u32,
}

impl RemainingBan {
    #[verifier::type_invariant]
    spec fn subsecond(self) -> bool {
        self.subsec_nanos < 1_000_000_000
    }

    pub closed spec fn secs(self) -> u64 {
        self.secs
    }

    pub closed spec fn subsec_nanos(self) -> u32 {
        self.subsec_nanos
    }

    /// A remaining time of `secs` seconds and `subsec_nanos` nanoseconds, which
    /// must stay below one second.
    pub fn new(secs: u64, subsec_nanos: u32) -> (r: Option<RemainingBan>)
        ensures
            r is Some <==> subsec_nanos < 1_000_000_000,
            r matches Some(b) ==> b.secs() == secs && b.subsec_nanos() == subsec_nanos,
    {
        if subsec_nanos < 1_000_000_000 {
            Some(RemainingBan { secs, subsec_nanos })
        } else {
            None
        }
    }
}

/// A ban that the networking layer holds against a peer.
#[derive(Clone, Debug)]
pub struct BanRecord {
    /// What is left of the ban; `None` for a ban without end.
    pub remaining: Option<RemainingBan>,
    pub reason: String,
}

/// A span of time in words, such as `2h 37m`, as the `humantime` crate writes it.
pub uninterp spec fn humantime_text(secs: u64, subsec_nanos: u32) -> Seq<char>;

/// `humantime::format_duration`, printed: the span of `secs` seconds and
/// `subsec_nanos` nanoseconds in words. The text depends on the two numbers alone.
#[verifier::external_body]
fn format_remaining(secs: u64, subsec_nanos: u32) -> (out: String)
    requires
        subsec_nanos < 1_000_000_000,
    ensures
        out@ == humantime_text(secs, subsec_nanos),
{
    humantime::format_duration(std::time::Duration::new(secs, subsec_nanos)).to_string()
}

/// The line about a ban: until when it lasts, and why it was imposed.
pub open spec fn ban_text(remaining: Option<Seq<char>>, reason: Seq<char>) -> Seq<char> {
    "Banned "@ + match remaining {
        Some(span) => "until "@ + span,
        None => "indefinitely"@,
    } + ", reason: "@ + reason
}

/// What is left of a ban, in words.
pub open spec fn remaining_text(remaining: Option<RemainingBan>) -> Option<Seq<char>> {
    match remaining {
        Some(r) => Some(humantime_text(r.secs(), r.subsec_nanos())),
        None => None,
    }
}

/// The line about a ban whose remaining time has already been put in words.
pub fn ban_line(remaining: Option<&str>, reason: &str) -> (out: String)
    ensures
        out@ == ban_text(
            match remaining {
                Some(span) => Some(span@),
                None => None,
            },
            reason@,
        ),
{
    let mut out = String::new();
    push_text(&mut out, "Banned ");
    match remaining {
        Some(span) => {
            push_text(&mut out, "until ");
            push_text(&mut out, span);
        },
        None => {
            push_text(&mut out, "indefinitely");
        },
    }
    push_text(&mut out, ", reason: ");
    push_text(&mut out, reason);
    out
}

/// The line that `get-peer` adds for a banned peer; nothing for one that is not banned.
pub fn ban_notice(ban: Option<&BanRecord>) -> (out: Option<String>)
    ensures
        match ban {
            Some(b) => out matches Some(line) && line@ == ban_text(
                remaining_text(b.remaining),
                b.reason@,
            ),
            None => out is None,
        },
{
    match ban {
        Some(b) => {
            match &b.remaining {
                Some(r) => {
                    proof {
                        use_type_invariant(r);
                    }
                    let span = format_remaining(r.secs, r.subsec_nanos);
                    Some(ban_line(Some(span.as_str()), b.reason.as_str()))
                },
                None => Some(ban_line(None, b.reason.as_str())),
            }
        },
        None => None,
    }
}

impl From<TypeOrHex<UniPeerId>> for Vec<u8> {
    fn from(value: TypeOrHex<UniPeerId>) -> (out: Self) {
        match value {
            TypeOrHex::Type(value) => value.peer_id.bytes,
            TypeOrHex::Hex(bytes) => bytes,
        }
    }
}

impl vstd::std_specs::convert::FromSpecImpl<TypeOrHex<UniPeerId>> for Vec<u8> {
    open spec fn obeys_from_spec() -> bool {
        true
    }

    open spec fn from_spec(value: TypeOrHex<UniPeerId>) -> Self {
        match value {
            TypeOrHex::Type(value) => value.peer_id.bytes,
            TypeOrHex::Hex(bytes) => bytes,
        }
    }
}

/// The lines about the peer's key.
pub open spec fn key_lines(key: Option<PublicKeyText>) -> Seq<Seq<char>> {
    match key {
        Some(k) => seq!["Emoji ID: "@ + k.emoji_id@, "Public Key: "@ + k.key@],
        None => seq!["Public Key: Unknown"@],
    }
}

/// The line about the peer's user agent.
pub open spec fn user_agent_line(user_agent: Option<String>) -> Seq<char> {
    match user_agent {
        Some(ua) => "User agent: "@ + ua@,
        None => "User agent: Unknown"@,
    }
}

/// The lines about the protocols the peer speaks.
pub open spec fn protocol_lines(protocols: Seq<Seq<char>>) -> Seq<Seq<char>> {
    if protocols.len() == 0 {
        seq!["Supported protocols:"@ + " Unknown"@]
    } else {
        seq!["Supported protocols:"@] + Seq::new(protocols.len(), |i: int| "- "@ + protocols[i])
    }
}

/// Everything `get-peer` prints about a connection, line by line.
pub open spec fn peer_report(c: PeerConnection) -> Seq<Seq<char>> {
    key_lines(c.public_key) + seq![
        "NodeId: "@ + c.peer_id.text@,
        "Addresses:"@,
        "- "@ + c.remote_address@ + " Latency: "@ + c.ping_latency@,
        user_agent_line(c.user_agent),
    ] + protocol_lines(c.supported_protocols.deep_view())
}

fn line1(a: &str) -> (out: String)
    ensures
        out@ == a@,
{
    let mut out = String::new();
    push_text(&mut out, a);
    out
}

fn line2(a: &str, b: &str) -> (out: String)
    ensures
        out@ == a@ + b@,
{
    let mut out = String::new();
    push_text(&mut out, a);
    push_text(&mut out, b);
    out
}

fn push_line(lines: &mut Vec<String>, line: String)
    ensures
        final(lines).deep_view() == old(lines).deep_view().push(line@),
{
    lines.push(line);
    assert(lines.deep_view() =~= old(lines).deep_view().push(line@));
}

impl CommandContext {
    /// The report on the peer `peer_id`, given the connection that the
    /// networking layer holds for it, if any.
    pub fn get_peer(&self, peer_id: &UniPeerId, connection: Option<&PeerConnection>) -> (r: Result<
        Vec<String>,
        CommandError,
    >)
        ensures
            match connection {
                Some(c) => r is Ok && r->Ok_0.deep_view() == peer_report(*c),
                None => r matches Err(CommandError::PeerNotFound { peer_id: p }) && p@
                    == peer_id.peer_id.text@,
            },
    {
        let c = match connection {
            Some(c) => c,
            None => {
                return Err(CommandError::PeerNotFound { peer_id: peer_id.peer_id.text.clone() });
            },
        };
        let mut lines: Vec<String> = Vec::new();
        assert(lines.deep_view() =~= Seq::<Seq<char>>::empty());
        match &c.public_key {
            Some(k) => {
                push_line(&mut lines, line2("Emoji ID: ", k.emoji_id.as_str()));
                push_line(&mut lines, line2("Public Key: ", k.key.as_str()));
            },
            None => {
                push_line(&mut lines, line1("Public Key: Unknown"));
            },
        }
        assert(lines.deep_view() =~= key_lines(c.public_key));
        push_line(&mut lines, line2("NodeId: ", c.peer_id.text.as_str()));
        push_line(&mut lines, line1("Addresses:"));
        let mut address = line2("- ", c.remote_address.as_str());
        push_text(&mut address, " Latency: ");
        push_text(&mut address, c.ping_latency.as_str());
        push_line(&mut lines, address);
        match &c.user_agent {
            Some(ua) => {
                push_line(&mut lines, line2("User agent: ", ua.as_str()));
            },
            None => {
                push_line(&mut lines, line1("User agent: Unknown"));
            },
        }
        let ghost head = lines.deep_view();
        if c.supported_protocols.len() == 0 {
            push_line(&mut lines, line2("Supported protocols:", " Unknown"));
        } else {
            push_line(&mut lines, line1("Supported protocols:"));
            let ghost protocols = c.supported_protocols.deep_view();
            assert(lines.deep_view() =~= head + seq!["Supported protocols:"@] + Seq::new(
                0,
                |j: int| "- "@ + protocols[j],
            ));
            let mut i: usize = 0;
            while i < c.supported_protocols.len()
                invariant
                    i <= c.supported_protocols.len(),
                    protocols == c.supported_protocols.deep_view(),
                    lines.deep_view() == head + seq!["Supported protocols:"@] + Seq::new(
                        i as nat,
                        |j: int| "- "@ + protocols[j],
                    ),
                decreases c.supported_protocols.len() - i,
            {
                push_line(&mut lines, line2("- ", c.supported_protocols[i].as_str()));
                assert(protocols[i as int] == c.supported_protocols[i as int]@);
                assert(Seq::new((i + 1) as nat, |j: int| "- "@ + protocols[j]) =~= Seq::new(
                    i as nat,
                    |j: int| "- "@ + protocols[j],
                ).push("- "@ + protocols[i as int]));
                i += 1;
            }
        }
        assert(lines.deep_view() =~= peer_report(*c));
        Ok(lines)
    }
}

} // verus!
