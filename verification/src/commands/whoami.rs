//! `whoami`: the identity of this node, with a QR code that another node can
//! scan to add it as a base node.

use super::{CommandContext, CommandError, PeerId, QrFailure};
use crate::text::{decimal, join, joined, lines, lines_of, push_decimal, push_text, terminate_from, terminated};
use qrcode::render::unicode::Dense1x2;
use qrcode::types::QrError;
use qrcode::QrCode;
use vstd::prelude::*;

verus! {

/// Display identity information about this node,
/// including: public key, node ID and the public address
#[derive(Debug)]
pub struct Args {
    /// Number of addresses to show
    pub num_show_addrs: usize,
}

impl Default for Args {
    fn default() -> (args: Args)
        ensures
            args.num_show_addrs == 5,
    {
        Args { num_show_addrs: 5 }
    }
}

/// An address this node listens on, as printed, and whether it can be reached
/// from the public internet.
#[derive(Clone, Debug)]
pub struct ListenAddress {
    pub text: String,
    pub global: bool,
}

/// What the networking layer knows of this node.
#[derive(Clone, Debug)]
pub struct LocalPeerInfo {
    pub public_key: String,
    pub peer_id: PeerId,
    pub listen_addrs: Vec<ListenAddress>,
}

/// The printed forms of those of `addrs` that are global, or of those that are
/// not, in their order.
pub open spec fn texts_where(addrs: Seq<ListenAddress>, global: bool) -> Seq<Seq<char>>
    decreases addrs.len(),
{
    if addrs.len() == 0 {
        Seq::empty()
    } else if addrs.last().global == global {
        texts_where(addrs.drop_last(), global).push(addrs.last().text@)
    } else {
        texts_where(addrs.drop_last(), global)
    }
}

/// The first `n` items of `s`, or all of it if it has fewer.
pub open spec fn first_n<A>(s: Seq<A>, n: nat) -> Seq<A> {
    if n >= s.len() {
        s
    } else {
        s.take(n as int)
    }
}

/// The addresses that `whoami` lists: the global ones first, then the others,
/// `n` at most.
pub open spec fn shown_addresses(addrs: Seq<ListenAddress>, n: nat) -> Seq<Seq<char>> {
    first_n(texts_where(addrs, true) + texts_where(addrs, false), n)
}

/// The addresses that go into the QR code: as listed, but none at all for a
/// node without a global address.
pub open spec fn qr_addresses(addrs: Seq<ListenAddress>, n: nat) -> Seq<Seq<char>> {
    if texts_where(addrs, true).len() == 0 {
        Seq::empty()
    } else {
        shown_addresses(addrs, n)
    }
}

/// The public key and the QR addresses in one string.
pub open spec fn peer_string(info: LocalPeerInfo, n: nat) -> Seq<char> {
    info.public_key@ + "::"@ + joined(qr_addresses(info.listen_addrs@, n), "::"@)
}

/// The link that the QR code holds.
pub open spec fn qr_link_text(network: Seq<char>, info: LocalPeerInfo, n: nat) -> Seq<char> {
    "tari://"@ + network + "/base_nodes/add?name="@ + info.peer_id.text@ + "&peer_str="@
        + peer_string(info, n)
}

/// The line that tells how many addresses were left out, where any were.
pub open spec fn more_line(total: nat, n: nat) -> Seq<Seq<char>> {
    if total > 0 && total > n {
        seq![decimal((total - n) as nat) + " more..."@]
    } else {
        Seq::empty()
    }
}

/// The QR picture as it is printed: the rendered image without its first row,
/// each row ending in a line feed.
pub open spec fn qr_picture(image: Seq<char>) -> Seq<char> {
    let rows = lines_of(image);
    if rows.len() <= 1 {
        Seq::empty()
    } else {
        terminated(rows.skip(1))
    }
}

/// What `whoami` prints before the QR picture, entry by entry: key, identity,
/// addresses, and the peer string between two empty lines.
pub open spec fn identity_entries(info: LocalPeerInfo, n: nat) -> Seq<Seq<char>> {
    let shown = shown_addresses(info.listen_addrs@, n);
    seq![
        "🔑 Public Key:  "@ + info.public_key@,
        "🪪 Peer ID:  "@ + info.peer_id.text@,
        "🏠️ Addresses ("@ + decimal(info.listen_addrs@.len()) + ")"@,
    ] + Seq::new(shown.len(), |i: int| "- "@ + shown[i]) + more_line(info.listen_addrs@.len(), n)
        + seq![Seq::empty(), peer_string(info, n), Seq::empty()]
}

/// What `whoami` prints, and the error it ends with, given what the QR encoder
/// made of the link.
pub open spec fn whoami_outcome(
    info: LocalPeerInfo,
    n: nat,
    rendered: Result<Seq<char>, QrFailure>,
) -> (Seq<Seq<char>>, Option<CommandError>) {
    match rendered {
        Ok(image) => (identity_entries(info, n).push(qr_picture(image)), None),
        Err(e) => (identity_entries(info, n), Some(CommandError::QrCode(e))),
    }
}

/// What a run of `whoami` printed, entry by entry, and the error that ended
/// it, if one did.
#[derive(Debug)]
pub struct WhoamiOutput {
    pub entries: Vec<String>,
    pub failure: Option<CommandError>,
}

/// The image that the `qrcode` crate renders for `data` with two rows of
/// modules to a row of text, or the reason for which it cannot encode `data`.
pub uninterp spec fn qr_dense_image(data: Seq<char>) -> Result<Seq<char>, QrFailure>;

/// `QrCode::new` and, on the code it gives, `render` with the `Dense1x2` pixel,
/// its dark and light colours set to `Dark` and `Light`, and `build`. The image,
/// or the refusal, depends on `data` alone.
#[verifier::external_body]
fn render_dense_qr(data: &str) -> (r: Result<String, QrFailure>)
    ensures
        match r {
            Ok(image) => qr_dense_image(data@) == Ok::<Seq<char>, QrFailure>(image@),
            Err(e) => qr_dense_image(data@) == Err::<Seq<char>, QrFailure>(e),
        },
{
    match QrCode::new(data) {
        Ok(code) => Ok(
            code.render::<Dense1x2>().dark_color(Dense1x2::Dark).light_color(Dense1x2::Light).build(),
        ),
        Err(QrError::DataTooLong) => Err(QrFailure::DataTooLong),
        Err(QrError::InvalidVersion) => Err(QrFailure::InvalidVersion),
        Err(QrError::UnsupportedCharacterSet) => Err(QrFailure::UnsupportedCharacterSet),
        Err(QrError::InvalidEciDesignator) => Err(QrFailure::InvalidEciDesignator),
        Err(QrError::InvalidCharacter) => Err(QrFailure::InvalidCharacter),
    }
}

/// The printed forms of the listen addresses, global ones first.
fn ordered_addresses(addrs: &Vec<ListenAddress>) -> (out: (Vec<String>, usize))
    ensures
        out.0.deep_view() == texts_where(addrs@, true) + texts_where(addrs@, false),
        out.1 == texts_where(addrs@, true).len(),
{
    let mut global: Vec<String> = Vec::new();
    let mut local: Vec<String> = Vec::new();
    let mut i: usize = 0;
    assert(global.deep_view() =~= texts_where(addrs@.take(0), true));
    assert(local.deep_view() =~= texts_where(addrs@.take(0), false));
    while i < addrs.len()
        invariant
            i <= addrs.len(),
            global.deep_view() == texts_where(addrs@.take(i as int), true),
            local.deep_view() == texts_where(addrs@.take(i as int), false),
        decreases addrs.len() - i,
    {
        let ghost g = global.deep_view();
        let ghost l = local.deep_view();
        assert(addrs@.take(i + 1).drop_last() =~= addrs@.take(i as int));
        if addrs[i].global {
            global.push(addrs[i].text.clone());
            assert(global.deep_view() =~= g.push(addrs[i as int].text@));
        } else {
            local.push(addrs[i].text.clone());
            assert(local.deep_view() =~= l.push(addrs[i as int].text@));
        }
        i += 1;
    }
    assert(addrs@.take(addrs.len() as int) =~= addrs@);
    let globals = global.len();
    let ghost g = global.deep_view();
    let ghost l = local.deep_view();
    let mut j: usize = 0;
    while j < local.len()
        invariant
            j <= local.len(),
            l == local.deep_view(),
            global.deep_view() == g + l.take(j as int),
        decreases local.len() - j,
    {
        let ghost before = global.deep_view();
        global.push(local[j].clone());
        assert(global.deep_view() =~= before.push(l[j as int]));
        assert(g + l.take(j + 1) =~= (g + l.take(j as int)).push(l[j as int]));
        j += 1;
    }
    assert(l.take(local.len() as int) =~= l);
    (global, globals)
}

/// The first `n` of `items`, or all of them if there are fewer.
fn take_first(items: &Vec<String>, n: usize) -> (out: Vec<String>)
    ensures
        out.deep_view() == first_n(items.deep_view(), n as nat),
{
    let mut out: Vec<String> = Vec::new();
    let mut i: usize = 0;
    let ghost all = items.deep_view();
    assert(out.deep_view() =~= all.take(0));
    while i < items.len() && i < n
        invariant
            i <= items.len(),
            i <= n,
            all == items.deep_view(),
            out.deep_view() == all.take(i as int),
        decreases items.len() - i,
    {
        let ghost before = out.deep_view();
        out.push(items[i].clone());
        assert(out.deep_view() =~= before.push(all[i as int]));
        assert(all.take(i + 1) =~= all.take(i as int).push(all[i as int]));
        i += 1;
    }
    assert(all.take(all.len() as int) =~= all);
    out
}

fn entry2(a: &str, b: &str) -> (out: String)
    ensures
        out@ == a@ + b@,
{
    let mut out = String::new();
    push_text(&mut out, a);
    push_text(&mut out, b);
    out
}

fn push_entry(entries: &mut Vec<String>, entry: String)
    ensures
        final(entries).deep_view() == old(entries).deep_view().push(entry@),
{
    entries.push(entry);
    assert(entries.deep_view() =~= old(entries).deep_view().push(entry@));
}

/// The QR image as `whoami` prints it.
pub fn picture_of(image: &str) -> (out: String)
    ensures
        out@ == qr_picture(image@),
{
    let rows = lines(image);
    if rows.len() <= 1 {
        String::new()
    } else {
        terminate_from(&rows, 1)
    }
}

/// What `whoami` prints and how it ends, once the QR encoder has answered.
pub fn whoami_output(args: &Args, info: &LocalPeerInfo, rendered: Result<&str, QrFailure>) -> (out:
    WhoamiOutput)
    ensures
        (out.entries.deep_view(), out.failure) == whoami_outcome(
            *info,
            args.num_show_addrs as nat,
            match rendered {
                Ok(image) => Ok(image@),
                Err(e) => Err(e),
            },
        ),
{
    let ghost n = args.num_show_addrs as nat;
    let total = info.listen_addrs.len();
    let (ordered, globals) = ordered_addresses(&info.listen_addrs);
    let shown = take_first(&ordered, args.num_show_addrs);
    let chosen = if globals == 0 {
        Vec::new()
    } else {
        take_first(&ordered, args.num_show_addrs)
    };
    assert(chosen.deep_view() =~= qr_addresses(info.listen_addrs@, n));
    let mut entries: Vec<String> = Vec::new();
    assert(entries.deep_view() =~= Seq::<Seq<char>>::empty());
    push_entry(&mut entries, entry2("🔑 Public Key:  ", info.public_key.as_str()));
    push_entry(&mut entries, entry2("🪪 Peer ID:  ", info.peer_id.text.as_str()));
    let mut count = String::new();
    push_text(&mut count, "🏠️ Addresses (");
    push_decimal(&mut count, total as u128);
    push_text(&mut count, ")");
    push_entry(&mut entries, count);
    let ghost head = entries.deep_view();
    let ghost texts = shown.deep_view();
    assert(entries.deep_view() =~= head + Seq::new(0, |k: int| "- "@ + texts[k]));
    let mut i: usize = 0;
    while i < shown.len()
        invariant
            i <= shown.len(),
            texts == shown.deep_view(),
            entries.deep_view() == head + Seq::new(i as nat, |k: int| "- "@ + texts[k]),
        decreases shown.len() - i,
    {
        push_entry(&mut entries, entry2("- ", shown[i].as_str()));
        assert(texts[i as int] == shown[i as int]@);
        assert(Seq::new((i + 1) as nat, |k: int| "- "@ + texts[k]) =~= Seq::new(
            i as nat,
            |k: int| "- "@ + texts[k],
        ).push("- "@ + texts[i as int]));
        i += 1;
    }
    if total > 0 && total > args.num_show_addrs {
        let mut more = String::new();
        push_decimal(&mut more, (total - args.num_show_addrs) as u128);
        push_text(&mut more, " more...");
        push_entry(&mut entries, more);
    }
    push_entry(&mut entries, String::new());
    let peer_str = entry2(entry2(info.public_key.as_str(), "::").as_str(), join(&chosen, "::").as_str());
    push_entry(&mut entries, peer_str);
    push_entry(&mut entries, String::new());
    assert(entries.deep_view() =~= identity_entries(*info, n));
    match rendered {
        Ok(image) => {
            push_entry(&mut entries, picture_of(image));
            WhoamiOutput { entries, failure: None }
        },
        Err(e) => WhoamiOutput { entries, failure: Some(CommandError::QrCode(e)) },
    }
}

impl CommandContext {
    /// Function to process the whoami command
    pub fn whoami(&self, args: &Args, info: &LocalPeerInfo) -> (out: WhoamiOutput)
        ensures
            (out.entries.deep_view(), out.failure) == whoami_outcome(
                *info,
                args.num_show_addrs as nat,
                qr_dense_image(qr_link_text(self.network@, *info, args.num_show_addrs as nat)),
            ),
    {
        let link = self.qr_link(args, info);
        match render_dense_qr(link.as_str()) {
            Ok(image) => whoami_output(args, info, Ok(image.as_str())),
            Err(e) => whoami_output(args, info, Err(e)),
        }
    }

    /// The link that another node follows to add this one as a base node.
    pub fn qr_link(&self, args: &Args, info: &LocalPeerInfo) -> (link: String)
        ensures
            link@ == qr_link_text(self.network@, *info, args.num_show_addrs as nat),
    {
        let (ordered, globals) = ordered_addresses(&info.listen_addrs);
        let chosen = if globals == 0 {
            Vec::new()
        } else {
            take_first(&ordered, args.num_show_addrs)
        };
        assert(chosen.deep_view() =~= qr_addresses(info.listen_addrs@, args.num_show_addrs as nat));
        let mut link = String::new();
        push_text(&mut link, "tari://");
        push_text(&mut link, self.network.as_str());
        push_text(&mut link, "/base_nodes/add?name=");
        push_text(&mut link, info.peer_id.text.as_str());
        push_text(&mut link, "&peer_str=");
        push_text(&mut link, info.public_key.as_str());
        push_text(&mut link, "::");
        push_text(&mut link, join(&chosen, "::").as_str());
        assert(link@ =~= qr_link_text(self.network@, *info, args.num_show_addrs as nat));
        link
    }
}

} // verus!
