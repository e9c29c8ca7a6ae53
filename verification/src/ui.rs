//! What the user is shown: pages, lines and notices.

use vstd::prelude::*;

use crate::diag::{DecoderProbe, MetricModel, MetricValue, SystemInfo};
use crate::listener::{ListenerEvent, ListenerEventModel};
use crate::pairing;
use crate::pairing::PairedDevice;
use crate::secret;
use crate::session::State;
use crate::text;
use crate::text::{joined, push_decimal};
use crate::wire;

verus! {

/// The page that lists devices.
pub const PAGE_DEVICES: &'static str = "devices";

/// The page of a connection.
pub const PAGE_CONNECTED: &'static str = "connected";

/// The page of the diagnostics.
pub const PAGE_DIAGNOSTICS: &'static str = "diagnostics";

/// The page that goes with a state.
pub open spec fn page_of(state: State) -> Seq<char> {
    if state is Negotiating || state is Streaming || state is Recovering || state is Failed {
        PAGE_CONNECTED@
    } else {
        PAGE_DEVICES@
    }
}

/// The page that goes with a state.
pub fn page_for_state(state: State) -> (r: &'static str)
    ensures
        r@ == page_of(state),
{
    match state {
        State::Negotiating => PAGE_CONNECTED,
        State::Streaming => PAGE_CONNECTED,
        State::Recovering => PAGE_CONNECTED,
        State::Failed => PAGE_CONNECTED,
        _ => PAGE_DEVICES,
    }
}

/// What the page of a connection says of a state.
pub open spec fn description_of(state: State) -> Seq<char> {
    match state {
        State::Negotiating => "Negotiating stream…"@,
        State::Streaming => "Streaming"@,
        State::Recovering => "Connection interrupted — recovering"@,
        State::Failed => "Connection failed"@,
        _ => "Not streaming"@,
    }
}

/// What the page of a connection says of a state.
pub fn state_description(state: State) -> (r: &'static str)
    ensures
        r@ == description_of(state),
{
    match state {
        State::Negotiating => "Negotiating stream…",
        State::Streaming => "Streaming",
        State::Recovering => "Connection interrupted — recovering",
        State::Failed => "Connection failed",
        _ => "Not streaming",
    }
}

/// The title of the page of a connection.
pub fn peer_title(peer: Option<&str>) -> (r: String)
    ensures
        r@ == (match peer {
            Some(name) => "Connected to "@ + name@,
            None => "No active session"@,
        }),
{
    match peer {
        Some(name) => joined("Connected to ", name),
        None => "No active session".to_owned(),
    }
}

/// A value as it is shown; `gauge` is the text of a gauge.
pub fn metric_text<G>(value: &MetricValue<G>, gauge: &str) -> (r: String)
    ensures
        r@ == (match value@ {
            MetricModel::Count(n) => text::decimal(n as nat),
            MetricModel::Gauge(_) => gauge@,
            MetricModel::Text(t) => t,
        }),
{
    match value {
        MetricValue::Count(n) => {
            let mut out = String::new();
            push_decimal(&mut out, *n);
            proof {
                assert(out@ =~= text::decimal(*n as nat));
            }
            out
        },
        MetricValue::Gauge(_) => gauge.to_owned(),
        MetricValue::Text(t) => t.clone(),
    }
}

/// The number of bytes of an identifier that are shown.
pub open spec fn shown_len(id: Seq<char>) -> int {
    if pairing::utf8(id).len() < 8 {
        pairing::utf8(id).len() as int
    } else {
        8
    }
}

/// The line under a paired device: the first eight bytes of its identifier.
pub open spec fn device_text(device_id: Seq<char>) -> Seq<char> {
    "paired device "@ + vstd::utf8::decode_utf8(
        pairing::utf8(device_id).take(shown_len(device_id)),
    )
}

/// The line under a paired device.
pub fn device_line(device_id: &str) -> (r: String)
    requires
        vstd::utf8::is_char_boundary(pairing::utf8(device_id@), shown_len(device_id@)),
    ensures
        r@ == device_text(device_id@),
{
    let n: usize = device_id.as_bytes().len();
    let cut: usize = if n < 8 {
        n
    } else {
        8
    };
    let (head, _) = device_id.split_at(cut);
    proof {
        vstd::utf8::encode_utf8_decode_utf8(head@);
        assert(pairing::utf8(head@) =~= pairing::utf8(device_id@).take(shown_len(device_id@)));
    }
    joined("paired device ", head)
}

/// The identifier of every device that the receiver pairs can be shown.
pub proof fn law_device_identifiers_can_be_shown(name: Seq<char>, key: Seq<u8>)
    requires
        secret::sha256_of(pairing::utf8(name) + key).len() == 32,
    ensures
        ({
            let id = pairing::device_id_text(name, key);
            &&& vstd::utf8::is_char_boundary(pairing::utf8(id), shown_len(id))
            &&& shown_len(id) == 8
        }),
{
    let id = pairing::device_id_text(name, key);
    let bytes = pairing::utf8(id);
    secret::lemma_hex_text(secret::sha256_of(pairing::utf8(name) + key).take(16));
    vstd::utf8::is_ascii_chars_encode_utf8(id);
    vstd::utf8::encode_utf8_valid_utf8(id);
    assert(id[8] as u8 == bytes[8]);
    assert(!vstd::utf8::is_continuation_byte(bytes[8]));
    vstd::utf8::is_char_boundary_iff_not_is_continuation_byte(bytes, 8);
}

/// The line that says where phones connect.
pub fn address_line(port: u16) -> (r: String)
    ensures
        r@ == "0.0.0.0:"@ + text::decimal(port as nat) + " — phones connect here"@,
{
    let mut out = "0.0.0.0:".to_owned();
    push_decimal(&mut out, port as u64);
    out.append(" — phones connect here");
    out
}

/// The text of the dialog that shows a pairing code.
pub fn pairing_prompt(code: &str) -> (r: String)
    ensures
        r@ == "On your phone, choose this computer and enter the code:\n\n"@ + code@
            + "\n\nThe code expires in two minutes."@,
{
    let mut out = joined(
        "On your phone, choose this computer and enter the code:\n\n",
        code,
    );
    out.append("\n\nThe code expires in two minutes.");
    out
}

/// Seconds for which a notice stays.
pub fn notice_secs(ok: bool) -> (r: u32)
    ensures
        r == (if ok {
            4u32
        } else {
            6u32
        }),
{
    if ok {
        4
    } else {
        6
    }
}

/// What the application does about an event of the listener.
#[derive(Debug, Clone, PartialEq)]
pub enum Reaction {
    /// Show and record the peer, or that there is none.
    Peer(Option<String>),
    /// Show a notice that pairing succeeded.
    Paired(String),
    /// Nothing.
    Ignore,
}

/// The view of a `Reaction`.
#[verifier::ext_equal]
pub enum ReactionModel {
    Peer(Option<Seq<char>>),
    Paired(Seq<char>),
    Ignore,
}

impl View for Reaction {
    type V = ReactionModel;

    open spec fn view(&self) -> ReactionModel {
        match *self {
            Reaction::Peer(name) => ReactionModel::Peer(wire::maybe_view(name)),
            Reaction::Paired(notice) => ReactionModel::Paired(notice@),
            Reaction::Ignore => ReactionModel::Ignore,
        }
    }
}

/// What the application does about an event of the listener.
pub fn reaction(event: &ListenerEvent) -> (r: Reaction)
    ensures
        r@ == (match event@ {
            ListenerEventModel::Connected { name } => ReactionModel::Peer(Some(name)),
            ListenerEventModel::Disconnected { .. } => ReactionModel::Peer(None),
            ListenerEventModel::PairingSucceeded { name, .. } => ReactionModel::Paired(
                "Paired with "@ + name,
            ),
            ListenerEventModel::MediaFirstFrame { .. } => ReactionModel::Ignore,
        }),
{
    match event {
        ListenerEvent::Connected { name } => Reaction::Peer(Some(name.clone())),
        ListenerEvent::Disconnected { clean: _, reason: _ } => Reaction::Peer(None),
        ListenerEvent::PairingSucceeded { device_id: _, name } => Reaction::Paired(
            joined("Paired with ", name.as_str()),
        ),
        ListenerEvent::MediaFirstFrame { decoder: _ } => Reaction::Ignore,
    }
}

/// A line of a page: a key and a value, and whether it is shown dimmed.
#[derive(Debug, Clone, PartialEq)]
pub struct Row {
    pub key: String,
    pub value: String,
    pub dimmed: bool,
}

/// The view of a `Row`.
#[verifier::ext_equal]
pub struct RowModel {
    pub key: Seq<char>,
    pub value: Seq<char>,
    pub dimmed: bool,
}

impl View for Row {
    type V = RowModel;

    open spec fn view(&self) -> RowModel {
        RowModel { key: self.key@, value: self.value@, dimmed: self.dimmed }
    }
}

/// The views of some rows.
pub open spec fn row_views(rows: Seq<Row>) -> Seq<RowModel> {
    Seq::new(rows.len(), |i: int| rows[i]@)
}

fn push_row(out: &mut Vec<Row>, key: &str, value: &str, dimmed: bool)
    ensures
        row_views(final(out)@) == row_views(old(out)@).push(
            RowModel { key: key@, value: value@, dimmed },
        ),
{
    out.push(Row { key: key.to_owned(), value: value.to_owned(), dimmed });
    proof {
        assert(row_views(out@) =~= row_views(old(out)@).push(
            RowModel { key: key@, value: value@, dimmed },
        ));
    }
}

fn no_rows() -> (r: Vec<Row>)
    ensures
        row_views(r@) == Seq::<RowModel>::empty(),
{
    let r: Vec<Row> = Vec::new();
    assert(row_views(r@) =~= Seq::<RowModel>::empty());
    r
}

/// The rows on versions.
pub fn version_rows(system: &SystemInfo) -> (r: Vec<Row>)
    ensures
        row_views(r@) == seq![
            RowModel { key: "Application"@, value: system.app_version@, dimmed: false },
            RowModel { key: "GTK"@, value: system.gtk_version@, dimmed: false },
            RowModel { key: "libadwaita"@, value: system.adwaita_version@, dimmed: false },
            RowModel { key: "GStreamer"@, value: system.gstreamer_version@, dimmed: false },
        ],
{
    let mut out = no_rows();
    push_row(&mut out, "Application", system.app_version.as_str(), false);
    push_row(&mut out, "GTK", system.gtk_version.as_str(), false);
    push_row(&mut out, "libadwaita", system.adwaita_version.as_str(), false);
    push_row(&mut out, "GStreamer", system.gstreamer_version.as_str(), false);
    out
}

/// The row on a decoder.
pub open spec fn decoder_row(probe: DecoderProbe) -> RowModel {
    RowModel {
        key: probe.element@,
        value: if probe.available {
            "available"@
        } else {
            "not installed"@
        },
        dimmed: !probe.available,
    }
}

/// The rows on the decoders, each as `decoder_row` says, and on the audio sink.
pub fn decoder_rows(system: &SystemInfo) -> (r: Vec<Row>)
    ensures
        row_views(r@) == Seq::new(
            system.decoders@.len(),
            |i: int| decoder_row(system.decoders@[i]),
        ).push(
            RowModel {
                key: "pipewiresink"@,
                value: if system.pipewire_sink_available {
                    "available"@
                } else {
                    "missing"@
                },
                dimmed: false,
            },
        ),
{
    let mut out = no_rows();
    let ghost all = Seq::new(system.decoders@.len(), |i: int| decoder_row(system.decoders@[i]));
    let mut i: usize = 0;
    proof {
        assert(all.take(0) =~= Seq::<RowModel>::empty());
    }
    while i < system.decoders.len()
        invariant
            i <= system.decoders@.len(),
            all == Seq::new(
                system.decoders@.len(),
                |i: int| decoder_row(system.decoders@[i]),
            ),
            row_views(out@) == all.take(i as int),
        decreases system.decoders.len() - i,
    {
        let probe = &system.decoders[i];
        if probe.available {
            push_row(&mut out, probe.element.as_str(), "available", false);
        } else {
            push_row(&mut out, probe.element.as_str(), "not installed", true);
        }
        i = i + 1;
        proof {
            assert(all.take(i as int) =~= all.take(i - 1).push(all[i - 1]));
        }
    }
    proof {
        assert(all.take(i as int) =~= all);
    }
    if system.pipewire_sink_available {
        push_row(&mut out, "pipewiresink", "available", false);
    } else {
        push_row(&mut out, "pipewiresink", "missing", false);
    }
    out
}

/// The rows on the network interfaces.
pub fn interface_rows(system: &SystemInfo) -> (r: Vec<Row>)
    ensures
        row_views(r@) == (if system.interfaces@.len() == 0 {
            seq![RowModel { key: "interfaces"@, value: "none detected"@, dimmed: false }]
        } else {
            Seq::new(
                system.interfaces@.len(),
                |i: int|
                    RowModel {
                        key: system.interfaces@[i].name@,
                        value: system.interfaces@[i].addr@,
                        dimmed: false,
                    },
            )
        }),
{
    let mut out = no_rows();
    if system.interfaces.len() == 0 {
        push_row(&mut out, "interfaces", "none detected", false);
        return out;
    }
    let ghost all = Seq::new(
        system.interfaces@.len(),
        |i: int|
            RowModel {
                key: system.interfaces@[i].name@,
                value: system.interfaces@[i].addr@,
                dimmed: false,
            },
    );
    let mut i: usize = 0;
    proof {
        assert(all.take(0) =~= Seq::<RowModel>::empty());
    }
    while i < system.interfaces.len()
        invariant
            i <= system.interfaces@.len(),
            all == Seq::new(
                system.interfaces@.len(),
                |i: int|
                    RowModel {
                        key: system.interfaces@[i].name@,
                        value: system.interfaces@[i].addr@,
                        dimmed: false,
                    },
            ),
            row_views(out@) == all.take(i as int),
        decreases system.interfaces.len() - i,
    {
        let one = &system.interfaces[i];
        push_row(&mut out, one.name.as_str(), one.addr.as_str(), false);
        i = i + 1;
        proof {
            assert(all.take(i as int) =~= all.take(i - 1).push(all[i - 1]));
        }
    }
    proof {
        assert(all.take(i as int) =~= all);
    }
    out
}

/// The row of a paired device.
pub open spec fn device_row(name: Seq<char>, device_id: Seq<char>) -> RowModel {
    RowModel { key: name, value: device_text(device_id), dimmed: false }
}

/// The rows of the paired devices, or a hint where there is none.
pub fn device_rows(devices: &[PairedDevice]) -> (r: Vec<Row>)
    requires
        forall|i: int|
            0 <= i < devices@.len() ==> vstd::utf8::is_char_boundary(
                pairing::utf8((#[trigger] devices@[i]).device_id@),
                shown_len(devices@[i].device_id@),
            ),
    ensures
        row_views(r@) == (if devices@.len() == 0 {
            seq![
                RowModel {
                    key: "No phones paired yet"@,
                    value: "Use “Start pairing…” above, then pair from the phone app."@,
                    dimmed: true,
                },
            ]
        } else {
            Seq::new(
                devices@.len(),
                |i: int| device_row(devices@[i].name@, devices@[i].device_id@),
            )
        }),
{
    let mut out = no_rows();
    if devices.len() == 0 {
        push_row(
            &mut out,
            "No phones paired yet",
            "Use “Start pairing…” above, then pair from the phone app.",
            true,
        );
        return out;
    }
    let ghost all = Seq::new(
        devices@.len(),
        |i: int| device_row(devices@[i].name@, devices@[i].device_id@),
    );
    let mut i: usize = 0;
    proof {
        assert(all.take(0) =~= Seq::<RowModel>::empty());
    }
    while i < devices.len()
        invariant
            i <= devices@.len(),
            forall|i: int|
                0 <= i < devices@.len() ==> vstd::utf8::is_char_boundary(
                    pairing::utf8((#[trigger] devices@[i]).device_id@),
                    shown_len(devices@[i].device_id@),
                ),
            all == Seq::new(
                devices@.len(),
                |i: int| device_row(devices@[i].name@, devices@[i].device_id@),
            ),
            row_views(out@) == all.take(i as int),
        decreases devices.len() - i,
    {
        let d = &devices[i];
        let line = device_line(d.device_id.as_str());
        push_row(&mut out, d.name.as_str(), line.as_str(), false);
        i = i + 1;
        proof {
            assert(all.take(i as int) =~= all.take(i - 1).push(all[i - 1]));
        }
    }
    proof {
        assert(all.take(i as int) =~= all);
    }
    out
}

/// The rows of the measured values, each as text, or one that says that there is none.
pub fn metric_rows(metrics: &[(String, String)]) -> (r: Vec<Row>)
    ensures
        row_views(r@) == (if metrics@.len() == 0 {
            seq![RowModel { key: "metrics"@, value: "none recorded yet"@, dimmed: false }]
        } else {
            Seq::new(
                metrics@.len(),
                |i: int|
                    RowModel { key: metrics@[i].0@, value: metrics@[i].1@, dimmed: false },
            )
        }),
{
    let mut out = no_rows();
    if metrics.len() == 0 {
        push_row(&mut out, "metrics", "none recorded yet", false);
        return out;
    }
    let ghost all = Seq::new(
        metrics@.len(),
        |i: int| RowModel { key: metrics@[i].0@, value: metrics@[i].1@, dimmed: false },
    );
    let mut i: usize = 0;
    proof {
        assert(all.take(0) =~= Seq::<RowModel>::empty());
    }
    while i < metrics.len()
        invariant
            i <= metrics@.len(),
            all == Seq::new(
                metrics@.len(),
                |i: int| RowModel { key: metrics@[i].0@, value: metrics@[i].1@, dimmed: false },
            ),
            row_views(out@) == all.take(i as int),
        decreases metrics.len() - i,
    {
        push_row(&mut out, metrics[i].0.as_str(), metrics[i].1.as_str(), false);
        i = i + 1;
        proof {
            assert(all.take(i as int) =~= all.take(i - 1).push(all[i - 1]));
        }
    }
    proof {
        assert(all.take(i as int) =~= all);
    }
    out
}

/// The keys of the measured values that the page of a connection shows, with their titles.
pub open spec fn stat_names() -> Seq<(Seq<char>, Seq<char>)> {
    seq![
        ("video.fps"@, "FPS"@),
        ("video.bitrate_kbps"@, "Video bitrate"@),
        ("latency.e2e_ms"@, "Latency"@),
        ("av.drift_ms"@, "A/V drift"@),
        ("net.rtt_ms"@, "RTT"@),
        ("audio.state"@, "Audio"@),
    ]
}

/// The key and the title of a measured value that the page of a connection shows.
pub fn stat_name(i: usize) -> (r: Option<(&'static str, &'static str)>)
    ensures
        match r {
            Some((key, title)) => i < stat_names().len() && (key@, title@)
                == stat_names()[i as int],
            None => i >= stat_names().len(),
        },
{
    match i {
        0 => Some(("video.fps", "FPS")),
        1 => Some(("video.bitrate_kbps", "Video bitrate")),
        2 => Some(("latency.e2e_ms", "Latency")),
        3 => Some(("av.drift_ms", "A/V drift")),
        4 => Some(("net.rtt_ms", "RTT")),
        5 => Some(("audio.state", "Audio")),
        _ => None,
    }
}

/// The page of a connection is shown from the negotiation on, while a stream is up or to be
/// again, and after a failure; the devices are shown otherwise.
pub proof fn law_pages_go_with_states(state: State)
    ensures
        page_of(state) == (match state {
            State::Idle => "devices"@,
            State::Discovering => "devices"@,
            State::Pairing => "devices"@,
            State::Connecting => "devices"@,
            State::Negotiating => "connected"@,
            State::Streaming => "connected"@,
            State::Recovering => "connected"@,
            State::Failed => "connected"@,
            State::Closed => "devices"@,
        }),
        description_of(state) == (match state {
            State::Negotiating => "Negotiating stream…"@,
            State::Streaming => "Streaming"@,
            State::Recovering => "Connection interrupted — recovering"@,
            State::Failed => "Connection failed"@,
            State::Idle => "Not streaming"@,
            State::Discovering => "Not streaming"@,
            State::Pairing => "Not streaming"@,
            State::Connecting => "Not streaming"@,
            State::Closed => "Not streaming"@,
        }),
{
}

/// A paired device is shown by its name and the first eight letters of its identifier, which
/// is hexadecimal.
pub proof fn law_devices_are_shown_by_name_and_identifier(name: Seq<char>, bytes: Seq<u8>)
    requires
        bytes.len() >= 4,
    ensures
        device_row(name, secret::hex_text(bytes)) == (RowModel {
            key: name,
            value: "paired device "@ + secret::hex_text(bytes).take(8),
            dimmed: false,
        }),
{
    let id = secret::hex_text(bytes);
    let cut = id.take(8);
    secret::lemma_hex_text(bytes);
    assert forall|i: int| 0 <= i < cut.len() implies (#[trigger] cut[i] as u32) < 128 by {
        assert(cut[i] == id[i]);
        assert(crate::messages::hex_digit(id[i]));
    }
    vstd::utf8::is_ascii_chars_encode_utf8(id);
    vstd::utf8::is_ascii_chars_encode_utf8(cut);
    assert(pairing::utf8(id).take(8) =~= pairing::utf8(cut));
    vstd::utf8::encode_utf8_decode_utf8(cut);
}

/// A decoder that is there is shown as available, and one that is not as missing and dimmed.
pub proof fn law_missing_decoders_are_dimmed(probe: DecoderProbe)
    ensures
        decoder_row(probe).key == probe.element@,
        probe.available ==> decoder_row(probe).value == "available"@ && !decoder_row(probe).dimmed,
        !probe.available ==> decoder_row(probe).value == "not installed"@ && decoder_row(
            probe,
        ).dimmed,
{
}

/// The model of some rows holds every row of them, in its place.
pub proof fn law_models_hold_every_row(list: Seq<Row>, i: int)
    requires
        0 <= i < list.len(),
    ensures
        row_views(list).len() == list.len(),
        row_views(list)[i].key == list[i].key@,
        row_views(list)[i].value == list[i].value@,
        row_views(list)[i].dimmed == list[i].dimmed,
{
}

/// The page of a connection shows these six values, in this order.
pub proof fn law_six_values_are_shown()
    ensures
        stat_names().len() == 6,
        stat_names()[0] == ("video.fps"@, "FPS"@),
        stat_names()[1] == ("video.bitrate_kbps"@, "Video bitrate"@),
        stat_names()[2] == ("latency.e2e_ms"@, "Latency"@),
        stat_names()[3] == ("av.drift_ms"@, "A/V drift"@),
        stat_names()[4] == ("net.rtt_ms"@, "RTT"@),
        stat_names()[5] == ("audio.state"@, "Audio"@),
{
}

} // verus!
