use qrcode::render::unicode::Dense1x2;
use qrcode::QrCode;
use tari_scenario::commands::add_peer::{dial_outcome_notice, dialing_notice, ArgsAddPeer, DialOutcome};
use tari_scenario::commands::get_peer::{
    ban_line, ban_notice, BanRecord, PeerConnection, PublicKeyText, RemainingBan,
};
use tari_scenario::commands::whoami::{picture_of, whoami_output, Args, ListenAddress, LocalPeerInfo};
use tari_scenario::commands::{
    CommandContext, CommandError, PeerId, QrFailure, TypeOrHex, UniPeerId, UniPublicKey,
};

fn peer(text: &str, bytes: &[u8]) -> PeerId {
    PeerId { bytes: bytes.to_vec(), text: text.to_string() }
}

fn context() -> CommandContext {
    CommandContext { local_peer_id: peer("12D3KooWLocal", &[1, 2, 3]), network: "esmeralda".to_string() }
}

fn addr(text: &str, global: bool) -> ListenAddress {
    ListenAddress { text: text.to_string(), global }
}

fn info(addrs: Vec<ListenAddress>) -> LocalPeerInfo {
    LocalPeerInfo {
        public_key: "a0b1c2".to_string(),
        peer_id: peer("12D3KooWLocal", &[1, 2, 3]),
        listen_addrs: addrs,
    }
}

fn expected_picture(link: &str) -> String {
    let code = QrCode::new(link).unwrap();
    let image = code.render::<Dense1x2>().dark_color(Dense1x2::Dark).light_color(Dense1x2::Light).build();
    image.lines().skip(1).fold("".to_string(), |acc, l| format!("{}{}\n", acc, l))
}

#[test]
fn ban_line_without_end() {
    assert_eq!(ban_line(None, "spam"), "Banned indefinitely, reason: spam");
}

#[test]
fn ban_line_with_a_span_already_in_words() {
    assert_eq!(ban_line(Some("3days"), "bad blocks"), "Banned until 3days, reason: bad blocks");
}

#[test]
fn ban_notice_puts_the_remaining_time_in_words() {
    let ban = BanRecord { remaining: RemainingBan::new(9420, 0), reason: "spam".to_string() };
    assert_eq!(ban_notice(Some(&ban)), Some("Banned until 2h 37m, reason: spam".to_string()));
}

#[test]
fn ban_notice_counts_milliseconds() {
    let ban = BanRecord { remaining: RemainingBan::new(0, 32_000_000), reason: "x".to_string() };
    assert_eq!(ban_notice(Some(&ban)), Some("Banned until 32ms, reason: x".to_string()));
}

#[test]
fn ban_notice_of_a_ban_without_end() {
    let ban = BanRecord { remaining: None, reason: "forever".to_string() };
    assert_eq!(ban_notice(Some(&ban)), Some("Banned indefinitely, reason: forever".to_string()));
}

#[test]
fn ban_notice_is_silent_without_a_ban() {
    assert_eq!(ban_notice(None), None);
}

#[test]
fn remaining_ban_refuses_a_full_second_of_nanoseconds() {
    assert!(RemainingBan::new(1, 999_999_999).is_some());
    assert!(RemainingBan::new(1, 1_000_000_000).is_none());
}

#[test]
fn get_peer_reports_every_known_detail() {
    let connection = PeerConnection {
        peer_id: peer("12D3KooWRemote", &[9]),
        public_key: Some(PublicKeyText { emoji_id: "🐢🐢🐢".to_string(), key: "ffee".to_string() }),
        remote_address: "/ip4/10.0.0.1/tcp/18189".to_string(),
        ping_latency: "Some(12ms)".to_string(),
        user_agent: Some("tari/basenode/1.0".to_string()),
        supported_protocols: vec!["/tari/ping".to_string(), "/tari/sync".to_string()],
    };
    let wanted = UniPeerId { peer_id: peer("12D3KooWRemote", &[9]) };
    let lines = context().get_peer(&wanted, Some(&connection)).unwrap();
    assert_eq!(
        lines,
        vec![
            "Emoji ID: 🐢🐢🐢",
            "Public Key: ffee",
            "NodeId: 12D3KooWRemote",
            "Addresses:",
            "- /ip4/10.0.0.1/tcp/18189 Latency: Some(12ms)",
            "User agent: tari/basenode/1.0",
            "Supported protocols:",
            "- /tari/ping",
            "- /tari/sync",
        ]
    );
}

#[test]
fn get_peer_says_unknown_where_nothing_is_known() {
    let connection = PeerConnection {
        peer_id: peer("12D3KooWRemote", &[9]),
        public_key: None,
        remote_address: "/ip4/10.0.0.1/tcp/18189".to_string(),
        ping_latency: "None".to_string(),
        user_agent: None,
        supported_protocols: vec![],
    };
    let wanted = UniPeerId { peer_id: peer("12D3KooWRemote", &[9]) };
    let lines = context().get_peer(&wanted, Some(&connection)).unwrap();
    assert_eq!(
        lines,
        vec![
            "Public Key: Unknown",
            "NodeId: 12D3KooWRemote",
            "Addresses:",
            "- /ip4/10.0.0.1/tcp/18189 Latency: None",
            "User agent: Unknown",
            "Supported protocols: Unknown",
        ]
    );
}

#[test]
fn get_peer_without_a_connection_is_an_error() {
    let wanted = UniPeerId { peer_id: peer("12D3KooWGone", &[7]) };
    let error = context().get_peer(&wanted, None).unwrap_err();
    assert_eq!(error, CommandError::PeerNotFound { peer_id: "12D3KooWGone".to_string() });
    assert_eq!(error.message(), "Peer 12D3KooWGone not found");
}

#[test]
fn command_errors_have_their_messages() {
    assert_eq!(CommandError::CannotAddSelf.message(), "Cannot add self as peer");
    assert_eq!(CommandError::QrCode(QrFailure::DataTooLong).message(), "data too long");
    assert_eq!(CommandError::QrCode(QrFailure::InvalidVersion).message(), "invalid version");
    assert_eq!(
        CommandError::QrCode(QrFailure::UnsupportedCharacterSet).message(),
        "unsupported character set"
    );
    assert_eq!(CommandError::QrCode(QrFailure::InvalidEciDesignator).message(), "invalid ECI designator");
    assert_eq!(CommandError::QrCode(QrFailure::InvalidCharacter).message(), "invalid character");
}

#[test]
fn peer_id_or_hex_gives_its_bytes() {
    let typed: Vec<u8> = TypeOrHex::Type(UniPeerId { peer_id: peer("p", &[4, 5, 6]) }).into();
    assert_eq!(typed, vec![4, 5, 6]);
    let hex: Vec<u8> = Vec::from(TypeOrHex::<UniPeerId>::Hex(vec![0xde, 0xad]));
    assert_eq!(hex, vec![0xde, 0xad]);
}

#[test]
fn add_peer_refuses_the_node_itself() {
    let args = ArgsAddPeer {
        public_key: UniPublicKey { peer_id: peer("12D3KooWLocal", &[1, 2, 3]) },
        address: "/ip4/127.0.0.1/tcp/1".to_string(),
    };
    assert_eq!(context().add_peer(args).unwrap_err(), CommandError::CannotAddSelf);
}

#[test]
fn add_peer_dials_the_given_address_alone() {
    let args = ArgsAddPeer {
        public_key: UniPublicKey { peer_id: peer("12D3KooWOther", &[1, 2, 4]) },
        address: "/ip4/127.0.0.1/tcp/1".to_string(),
    };
    let dial = context().add_peer(args).unwrap();
    assert_eq!(dial.peer_id, peer("12D3KooWOther", &[1, 2, 4]));
    assert_eq!(dial.addresses, vec!["/ip4/127.0.0.1/tcp/1".to_string()]);
}

#[test]
fn add_peer_notices() {
    assert_eq!(
        dialing_notice(&peer("12D3KooWOther", &[1])),
        "Peer with node id '12D3KooWOther' was added to the base node. Dialing..."
    );
    assert_eq!(
        dial_outcome_notice(&DialOutcome::Connected { millis: 1234 }),
        "⚡️ Peer connected in 1234ms!"
    );
    assert_eq!(
        dial_outcome_notice(&DialOutcome::Failed { reason: "timed out".to_string() }),
        "☠️ timed out"
    );
}

#[test]
fn whoami_shows_five_addresses_by_default() {
    assert_eq!(Args::default().num_show_addrs, 5);
}

#[test]
fn whoami_link_lists_global_addresses_first() {
    let info = info(vec![addr("/ip4/192.168.1.2/tcp/1", false), addr("/ip4/8.8.8.8/tcp/2", true)]);
    let link = context().qr_link(&Args { num_show_addrs: 5 }, &info);
    assert_eq!(
        link,
        "tari://esmeralda/base_nodes/add?name=12D3KooWLocal&peer_str=a0b1c2::/ip4/8.8.8.8/tcp/2::/ip4/192.168.1.2/tcp/1"
    );
}

#[test]
fn whoami_link_has_no_address_without_a_global_one() {
    let info = info(vec![addr("/ip4/192.168.1.2/tcp/1", false)]);
    let link = context().qr_link(&Args { num_show_addrs: 5 }, &info);
    assert_eq!(link, "tari://esmeralda/base_nodes/add?name=12D3KooWLocal&peer_str=a0b1c2::");
}

#[test]
fn whoami_prints_identity_addresses_and_picture() {
    let info = info(vec![
        addr("/ip4/192.168.1.2/tcp/1", false),
        addr("/ip4/8.8.8.8/tcp/2", true),
        addr("/ip4/10.0.0.1/tcp/3", false),
    ]);
    let args = Args { num_show_addrs: 2 };
    let out = context().whoami(&args, &info);
    let link =
        "tari://esmeralda/base_nodes/add?name=12D3KooWLocal&peer_str=a0b1c2::/ip4/8.8.8.8/tcp/2::/ip4/192.168.1.2/tcp/1";
    assert_eq!(out.failure, None);
    assert_eq!(
        out.entries,
        vec![
            "🔑 Public Key:  a0b1c2".to_string(),
            "🪪 Peer ID:  12D3KooWLocal".to_string(),
            "🏠️ Addresses (3)".to_string(),
            "- /ip4/8.8.8.8/tcp/2".to_string(),
            "- /ip4/192.168.1.2/tcp/1".to_string(),
            "1 more...".to_string(),
            "".to_string(),
            "a0b1c2::/ip4/8.8.8.8/tcp/2::/ip4/192.168.1.2/tcp/1".to_string(),
            "".to_string(),
            expected_picture(link),
        ]
    );
}

#[test]
fn whoami_without_addresses() {
    let out = context().whoami(&Args { num_show_addrs: 0 }, &info(vec![]));
    assert_eq!(out.failure, None);
    assert_eq!(out.entries.len(), 7);
    assert_eq!(out.entries[2], "🏠️ Addresses (0)");
    assert_eq!(out.entries[4], "a0b1c2::");
}

#[test]
fn whoami_fails_on_a_link_too_long_for_a_qr_code() {
    let long = "x".repeat(8000);
    let info = info(vec![addr(&long, true)]);
    let out = context().whoami(&Args { num_show_addrs: 1 }, &info);
    assert_eq!(out.failure, Some(CommandError::QrCode(QrFailure::DataTooLong)));
    assert_eq!(out.entries.len(), 7);
    assert_eq!(out.entries[3], format!("- {}", long));
}

#[test]
fn whoami_output_for_a_given_image() {
    let out = whoami_output(&Args { num_show_addrs: 1 }, &info(vec![]), Ok("top\nrow one\nrow two"));
    assert_eq!(out.entries.last().unwrap(), "row one\nrow two\n");
    let failed = whoami_output(&Args { num_show_addrs: 1 }, &info(vec![]), Err(QrFailure::InvalidCharacter));
    assert_eq!(failed.failure, Some(CommandError::QrCode(QrFailure::InvalidCharacter)));
    assert_eq!(failed.entries.len(), 6);
    assert_eq!(failed.entries[4], "a0b1c2::");
}

#[test]
fn picture_drops_the_first_row() {
    assert_eq!(picture_of("a\nb\nc"), "b\nc\n");
    assert_eq!(picture_of("a\nb\n"), "b\n");
    assert_eq!(picture_of("only"), "");
    assert_eq!(picture_of(""), "");
}
