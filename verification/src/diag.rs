//! Diagnostics: what the system offers, what is measured, and the report of both.

use vstd::prelude::*;

use crate::clock;
use crate::ordmap;
use crate::ordmap::OrdMap;
use crate::text;
use crate::text::{joined, push_decimal};

verus! {

/// The decoders that are tried, the best first.
pub open spec fn decoder_names() -> Seq<Seq<char>> {
    seq!["vaapih264dec"@, "vah264dec"@, "nvh264dec"@, "avdec_h264"@, "openh264dec"@]
}

/// The decoder at a place of the list, the best at place 0.
pub fn decoder_candidate(i: usize) -> (r: Option<&'static str>)
    ensures
        match r {
            Some(name) => i < decoder_names().len() && name@ == decoder_names()[i as int],
            None => i >= decoder_names().len(),
        },
{
    match i {
        0 => Some("vaapih264dec"),
        1 => Some("vah264dec"),
        2 => Some("nvh264dec"),
        3 => Some("avdec_h264"),
        4 => Some("openh264dec"),
        _ => None,
    }
}

/// Whether a decoder is there.
#[derive(Debug, Clone, PartialEq)]
pub struct DecoderProbe {
    pub element: String,
    pub available: bool,
}

/// A network interface.
#[derive(Debug, Clone, PartialEq)]
pub struct InterfaceInfo {
    pub name: String,
    pub addr: String,
}

/// What the system offers.
#[derive(Debug, Clone, PartialEq)]
pub struct SystemInfo {
    pub app_version: String,
    pub gtk_version: String,
    pub adwaita_version: String,
    pub gstreamer_version: String,
    pub pipewire_sink_available: bool,
    pub decoders: Vec<DecoderProbe>,
    pub interfaces: Vec<InterfaceInfo>,
}

/// The probes for what was found at each place of the list of decoders.
pub fn decoder_probes(available: &[bool]) -> (r: Vec<DecoderProbe>)
    requires
        available@.len() == decoder_names().len(),
    ensures
        r@.len() == decoder_names().len(),
        forall|i: int|
            0 <= i < r@.len() ==> (#[trigger] r@[i]).element@ == decoder_names()[i]
                && r@[i].available == available@[i],
{
    let mut out: Vec<DecoderProbe> = Vec::new();
    let mut i: usize = 0;
    while i < available.len()
        invariant
            available@.len() == decoder_names().len(),
            i <= available@.len(),
            out@.len() == i,
            forall|k: int|
                0 <= k < i ==> (#[trigger] out@[k]).element@ == decoder_names()[k]
                    && out@[k].available == available@[k],
        decreases available.len() - i,
    {
        match decoder_candidate(i) {
            Some(name) => {
                out.push(DecoderProbe { element: name.to_owned(), available: available[i] });
            },
            None => {},
        }
        i = i + 1;
    }
    out
}

/// An interface as the system lists it: name, address, and whether it is the loopback.
pub struct RawInterface {
    pub name: String,
    pub addr: String,
    pub is_loopback: bool,
}

/// The interfaces among `list` that lead out of the machine, as pairs of name and address.
pub open spec fn outward(list: Seq<RawInterface>) -> Seq<(Seq<char>, Seq<char>)>
    decreases list.len(),
{
    if list.len() == 0 {
        Seq::empty()
    } else if list.last().is_loopback {
        outward(list.drop_last())
    } else {
        outward(list.drop_last()).push((list.last().name@, list.last().addr@))
    }
}

/// The views of interfaces.
pub open spec fn interface_views(list: Seq<InterfaceInfo>) -> Seq<(Seq<char>, Seq<char>)> {
    Seq::new(list.len(), |i: int| (list[i].name@, list[i].addr@))
}

/// The interfaces that lead out of the machine, in their order.
pub fn outward_interfaces(list: &[RawInterface]) -> (r: Vec<InterfaceInfo>)
    ensures
        interface_views(r@) == outward(list@),
{
    let mut out: Vec<InterfaceInfo> = Vec::new();
    let mut i: usize = 0;
    proof {
        assert(list@.take(0) =~= Seq::<RawInterface>::empty());
        assert(interface_views(out@) =~= Seq::<(Seq<char>, Seq<char>)>::empty());
    }
    while i < list.len()
        invariant
            i <= list@.len(),
            interface_views(out@) == outward(list@.take(i as int)),
        decreases list.len() - i,
    {
        let one = &list[i];
        let ghost before = interface_views(out@);
        proof {
            assert(list@.take(i + 1).drop_last() =~= list@.take(i as int));
        }
        if !one.is_loopback {
            out.push(InterfaceInfo { name: one.name.clone(), addr: one.addr.clone() });
            proof {
                assert(interface_views(out@) =~= before.push((one.name@, one.addr@)));
            }
        }
        i = i + 1;
    }
    proof {
        assert(list@.take(i as int) =~= list@);
    }
    out
}

/// Three numbers with dots between them.
pub open spec fn dotted_text(major: u32, minor: u32, micro: u32) -> Seq<char> {
    text::decimal(major as nat) + "."@ + text::decimal(minor as nat) + "."@ + text::decimal(
        micro as nat,
    )
}

/// A version as three numbers with dots between them.
pub fn dotted(major: u32, minor: u32, micro: u32) -> (r: String)
    ensures
        r@ == dotted_text(major, minor, micro),
{
    let mut out = String::new();
    push_decimal(&mut out, major as u64);
    out.append(".");
    push_decimal(&mut out, minor as u64);
    out.append(".");
    push_decimal(&mut out, micro as u64);
    proof {
        assert(out@ =~= dotted_text(major, minor, micro));
    }
    out
}

/// The log filter for a level of the receiver's own messages.
pub fn log_filter(level: &str) -> (r: String)
    ensures
        r@ == "wd_receiver="@ + level@ + ",info"@,
{
    let mut out = joined("wd_receiver=", level);
    out.append(",info");
    out
}

/// A measured value: a count, a gauge reading of type `G`, or a text.
pub enum MetricValue<G> {
    Count(u64),
    Gauge(G),
    Text(String),
}

/// The view of a `MetricValue`.
#[verifier::ext_equal]
pub enum MetricModel<G> {
    Count(u64),
    Gauge(G),
    Text(Seq<char>),
}

impl<G> View for MetricValue<G> {
    type V = MetricModel<G>;

    open spec fn view(&self) -> MetricModel<G> {
        match *self {
            MetricValue::Count(n) => MetricModel::Count(n),
            MetricValue::Gauge(g) => MetricModel::Gauge(g),
            MetricValue::Text(t) => MetricModel::Text(t@),
        }
    }
}

impl<G: Copy> MetricValue<G> {
    /// A copy of the value.
    pub fn copy(&self) -> (r: MetricValue<G>)
        ensures
            r == *self,
    {
        match self {
            MetricValue::Count(n) => MetricValue::Count(*n),
            MetricValue::Gauge(g) => MetricValue::Gauge(*g),
            MetricValue::Text(t) => MetricValue::Text(t.clone()),
        }
    }
}

/// Everything that was measured, by key.
pub struct MetricsRegistry<G> {
    values: OrdMap<MetricValue<G>>,
}

impl<G> View for MetricsRegistry<G> {
    type V = Map<Seq<char>, MetricModel<G>>;

    closed spec fn view(&self) -> Map<Seq<char>, MetricModel<G>> {
        self.values.map().map_values(|v: MetricValue<G>| v@)
    }
}

/// The count after one more.
pub open spec fn incremented<G>(before: Option<MetricModel<G>>) -> MetricModel<G> {
    match before {
        None => MetricModel::Count(1),
        Some(MetricModel::Count(n)) => MetricModel::Count((n + 1) as u64),
        Some(other) => other,
    }
}

/// The value under a key, if there is one.
pub open spec fn looked_up<G>(m: Map<Seq<char>, MetricModel<G>>, key: Seq<char>) -> Option<
    MetricModel<G>,
> {
    if m.dom().contains(key) {
        Some(m[key])
    } else {
        None
    }
}

impl<G: Copy> MetricsRegistry<G> {
    /// The keys stand in order.
    pub closed spec fn wf(self) -> bool {
        self.values.wf()
    }

    /// A registry without a value.
    pub fn new() -> (r: MetricsRegistry<G>)
        ensures
            r.wf(),
            r@ == Map::<Seq<char>, MetricModel<G>>::empty(),
    {
        let r = MetricsRegistry { values: OrdMap::new() };
        proof {
            assert(r@ =~= Map::<Seq<char>, MetricModel<G>>::empty());
        }
        r
    }

    fn put(&mut self, key: &str, value: MetricValue<G>)
        requires
            old(self).wf(),
        ensures
            final(self).wf(),
            final(self)@ == old(self)@.insert(key@, value@),
    {
        self.values.insert(key.to_owned(), value);
        proof {
            assert(self@ =~= old(self)@.insert(key@, value@));
        }
    }

    /// Sets a gauge.
    pub fn set_gauge(&mut self, key: &str, value: G)
        requires
            old(self).wf(),
        ensures
            final(self).wf(),
            final(self)@ == old(self)@.insert(key@, MetricModel::Gauge(value)),
    {
        self.put(key, MetricValue::Gauge(value));
    }

    /// Sets a text.
    pub fn set_text(&mut self, key: &str, value: &str)
        requires
            old(self).wf(),
        ensures
            final(self).wf(),
            final(self)@ == old(self)@.insert(key@, MetricModel::Text(value@)),
    {
        self.put(key, MetricValue::Text(value.to_owned()));
    }

    /// The value under a key.
    pub fn get(&self, key: &str) -> (r: Option<MetricValue<G>>)
        requires
            self.wf(),
        ensures
            match r {
                Some(v) => self@.dom().contains(key@) && v@ == self@[key@],
                None => !self@.dom().contains(key@),
            },
    {
        match self.values.get(key) {
            Some(v) => Some(v.copy()),
            None => None,
        }
    }

    /// Counts one more under a key. A key without a value starts from 0; a gauge or a text
    /// is left as it is.
    pub fn increment(&mut self, key: &str)
        requires
            old(self).wf(),
            looked_up(old(self)@, key@) != Some(MetricModel::<G>::Count(u64::MAX)),
        ensures
            final(self).wf(),
            final(self)@ == old(self)@.insert(key@, incremented(looked_up(old(self)@, key@))),
    {
        match self.get(key) {
            None => {
                self.put(key, MetricValue::Count(1));
            },
            Some(MetricValue::Count(n)) => {
                self.put(key, MetricValue::Count(n + 1));
            },
            Some(_) => {
                proof {
                    assert(old(self)@ =~= old(self)@.insert(key@, old(self)@[key@]));
                }
            },
        }
    }

    /// All keys with their values, in the order of the keys.
    pub fn snapshot(&self) -> (r: Vec<(String, MetricValue<G>)>)
        requires
            self.wf(),
        ensures
            ordmap::rising(Seq::new(r@.len(), |i: int| r@[i].0@)),
            forall|i: int|
                0 <= i < r@.len() ==> self@.dom().contains((#[trigger] r@[i]).0@)
                    && self@[r@[i].0@] == r@[i].1@,
            forall|k: Seq<char>| #[trigger]
                self@.dom().contains(k) ==> exists|i: int|
                    0 <= i < r@.len() && (#[trigger] r@[i]).0@ == k,
    {
        let mut out: Vec<(String, MetricValue<G>)> = Vec::new();
        let mut i: usize = 0;
        while i < self.values.len()
            invariant
                self.wf(),
                i <= self.values.keys().len(),
                out@.len() == i,
                forall|k: int|
                    0 <= k < i ==> (#[trigger] out@[k]).0@ == self.values.keys()[k] && out@[k].1
                        == self.values.values()[k],
            decreases self.values.keys().len() - i,
        {
            out.push((self.values.key_at(i).to_owned(), self.values.value_at(i).copy()));
            i = i + 1;
        }
        proof {
            assert(Seq::new(out@.len(), |i: int| out@[i].0@) =~= self.values.keys());
            assert forall|k: int| 0 <= k < out@.len() implies self@.dom().contains(
                (#[trigger] out@[k]).0@,
            ) && self@[out@[k].0@] == out@[k].1@ by {
                self.values.lemma_at(k);
            }
            assert forall|k: Seq<char>| #[trigger] self@.dom().contains(k) implies exists|i: int|
                0 <= i < out@.len() && (#[trigger] out@[i]).0@ == k by {
                let j = self.values.keys().index_of(k);
                assert(self.values.keys().contains(k));
                assert(out@[j].0@ == k);
            }
        }
        out
    }
}

/// The name of a report: it carries the time of the report.
pub fn report_name() -> (r: String)
    ensures
        exists|secs: u64, y: int, m: int, d: int|
            clock::valid_date(y, m, d) && clock::days_from_1970(y, m, d) == secs as int / 86_400
                && r@ == "diagnostics-"@ + #[trigger] clock::stamp_text(
                y,
                m,
                d,
                secs as int % 86_400,
            ) + ".txt"@,
{
    let stamp = clock::chrono_like_stamp();
    let mut out = joined("diagnostics-", stamp.as_str());
    out.append(".txt");
    out
}

/// `s` filled up with spaces on the right to at least `width` characters.
pub open spec fn padded_right(s: Seq<char>, width: int) -> Seq<char> {
    s + Seq::new(
        (if width > s.len() {
            width - s.len()
        } else {
            0
        }) as nat,
        |i: int| ' ',
    )
}

fn push_padded(out: &mut String, s: &str, width: usize)
    ensures
        final(out)@ == old(out)@ + padded_right(s@, width as int),
{
    let n: usize = s.unicode_len();
    out.append(s);
    let ghost base = out@;
    let mut k: usize = n;
    while k < width
        invariant
            n == s@.len(),
            n <= k,
            k <= width || k == n,
            out@ == base + Seq::new((k - n) as nat, |i: int| ' '),
        decreases width - k,
    {
        out.push(' ');
        k = k + 1;
        proof {
            assert(out@ =~= base + Seq::new((k - n) as nat, |i: int| ' '));
        }
    }
    proof {
        assert(out@ =~= old(out)@ + padded_right(s@, width as int));
    }
}

/// The lines of a report on the decoders.
pub open spec fn decoder_lines(list: Seq<DecoderProbe>) -> Seq<char>
    decreases list.len(),
{
    if list.len() == 0 {
        Seq::empty()
    } else {
        let d = list.last();
        decoder_lines(list.drop_last()) + "  "@ + padded_right(d.element@, 14) + " "@ + (
        if d.available {
            "yes"@
        } else {
            "no"@
        }) + "\n"@
    }
}

/// Lines of keys and values.
pub open spec fn value_lines(list: Seq<(Seq<char>, Seq<char>)>) -> Seq<char>
    decreases list.len(),
{
    if list.len() == 0 {
        Seq::empty()
    } else {
        value_lines(list.drop_last()) + "  "@ + list.last().0 + ": "@ + list.last().1 + "\n"@
    }
}

/// The views of pairs of texts.
pub open spec fn text_pairs(list: Seq<(String, String)>) -> Seq<(Seq<char>, Seq<char>)> {
    Seq::new(list.len(), |i: int| (list[i].0@, list[i].1@))
}

/// A diagnostic report.
pub open spec fn report_of(
    system: SystemInfo,
    metrics: Seq<(Seq<char>, Seq<char>)>,
) -> Seq<char> {
    "Wireless Display diagnostics\n============================\n\napplication: "@
        + system.app_version@ + "\ngtk: "@ + system.gtk_version@ + "  adwaita: "@
        + system.adwaita_version@ + "  gstreamer: "@ + system.gstreamer_version@
        + "\n\ndecoders:\n"@ + decoder_lines(system.decoders@) + "\ninterfaces:\n"@ + value_lines(
        interface_views(system.interfaces@),
    ) + "\nmetrics:\n"@ + value_lines(metrics)
}

fn decoder_part(list: &[DecoderProbe]) -> (r: String)
    ensures
        r@ == decoder_lines(list@),
{
    let mut out = String::new();
    let mut i: usize = 0;
    proof {
        assert(list@.take(0) =~= Seq::<DecoderProbe>::empty());
    }
    while i < list.len()
        invariant
            i <= list@.len(),
            out@ == decoder_lines(list@.take(i as int)),
        decreases list.len() - i,
    {
        let d = &list[i];
        proof {
            assert(list@.take(i + 1).drop_last() =~= list@.take(i as int));
        }
        out.append("  ");
        push_padded(&mut out, d.element.as_str(), 14);
        out.append(" ");
        if d.available {
            out.append("yes");
        } else {
            out.append("no");
        }
        out.append("\n");
        i = i + 1;
    }
    proof {
        assert(list@.take(i as int) =~= list@);
    }
    out
}

fn push_value(out: &mut String, key: &str, value: &str)
    ensures
        final(out)@ == old(out)@ + "  "@ + key@ + ": "@ + value@ + "\n"@,
{
    out.append("  ");
    out.append(key);
    out.append(": ");
    out.append(value);
    out.append("\n");
}

fn interface_part(list: &[InterfaceInfo]) -> (r: String)
    ensures
        r@ == value_lines(interface_views(list@)),
{
    let mut out = String::new();
    let mut i: usize = 0;
    let ghost all = interface_views(list@);
    proof {
        assert(all.take(0) =~= Seq::<(Seq<char>, Seq<char>)>::empty());
    }
    while i < list.len()
        invariant
            i <= list@.len(),
            all == interface_views(list@),
            out@ == value_lines(all.take(i as int)),
        decreases list.len() - i,
    {
        proof {
            assert(all.take(i + 1).drop_last() =~= all.take(i as int));
        }
        push_value(&mut out, list[i].name.as_str(), list[i].addr.as_str());
        i = i + 1;
    }
    proof {
        assert(all.take(i as int) =~= all);
    }
    out
}

fn metric_part(list: &[(String, String)]) -> (r: String)
    ensures
        r@ == value_lines(text_pairs(list@)),
{
    let mut out = String::new();
    let mut i: usize = 0;
    let ghost all = text_pairs(list@);
    proof {
        assert(all.take(0) =~= Seq::<(Seq<char>, Seq<char>)>::empty());
    }
    while i < list.len()
        invariant
            i <= list@.len(),
            all == text_pairs(list@),
            out@ == value_lines(all.take(i as int)),
        decreases list.len() - i,
    {
        proof {
            assert(all.take(i + 1).drop_last() =~= all.take(i as int));
        }
        push_value(&mut out, list[i].0.as_str(), list[i].1.as_str());
        i = i + 1;
    }
    proof {
        assert(all.take(i as int) =~= all);
    }
    out
}

/// A diagnostic report on the system and on what was measured, each value as text.
pub fn report_text(system: &SystemInfo, metrics: &[(String, String)]) -> (r: String)
    ensures
        r@ == report_of(*system, text_pairs(metrics@)),
{
    let mut out =
        "Wireless Display diagnostics\n============================\n\napplication: ".to_owned();
    out.append(system.app_version.as_str());
    out.append("\ngtk: ");
    out.append(system.gtk_version.as_str());
    out.append("  adwaita: ");
    out.append(system.adwaita_version.as_str());
    out.append("  gstreamer: ");
    out.append(system.gstreamer_version.as_str());
    out.append("\n\ndecoders:\n");
    out.append(decoder_part(system.decoders.as_slice()).as_str());
    out.append("\ninterfaces:\n");
    out.append(interface_part(system.interfaces.as_slice()).as_str());
    out.append("\nmetrics:\n");
    out.append(metric_part(metrics).as_str());
    out
}

/// Interfaces are kept one by one and in their order: all but loopbacks, with name and address.
pub proof fn law_loopbacks_alone_are_left_out(a: Seq<RawInterface>, x: RawInterface)
    ensures
        outward(Seq::empty()) == Seq::<(Seq<char>, Seq<char>)>::empty(),
        x.is_loopback ==> outward(a.push(x)) == outward(a),
        !x.is_loopback ==> outward(a.push(x)) == outward(a).push((x.name@, x.addr@)),
{
    assert(a.push(x).drop_last() =~= a);
}

/// The lines of a report are those of what comes first and then those of the rest, and each
/// line shows its key and its value, or its decoder and whether that is there.
pub proof fn law_reports_have_a_line_for_each(
    a: Seq<(Seq<char>, Seq<char>)>,
    key: Seq<char>,
    value: Seq<char>,
    list: Seq<DecoderProbe>,
    probe: DecoderProbe,
)
    ensures
        value_lines(a.push((key, value))) == value_lines(a) + "  "@ + key + ": "@ + value + "\n"@,
        value_lines(Seq::empty()) == Seq::<char>::empty(),
        decoder_lines(Seq::empty()) == Seq::<char>::empty(),
        decoder_lines(list.push(probe)) == decoder_lines(list) + "  "@ + padded_right(
            probe.element@,
            14,
        ) + " "@ + (if probe.available {
            "yes"@
        } else {
            "no"@
        }) + "\n"@,
{
    assert(a.push((key, value)).drop_last() =~= a);
    assert(list.push(probe).drop_last() =~= list);
}

/// A padded text is the text with spaces behind it, as wide as asked for, or wider only where
/// the text itself is.
pub proof fn law_padding_is_spaces_behind_the_text(s: Seq<char>, width: int)
    ensures
        padded_right(s, width).len() == (if width > s.len() {
            width
        } else {
            s.len() as int
        }),
        padded_right(s, width).take(s.len() as int) == s,
        forall|i: int|
            s.len() <= i < padded_right(s, width).len() ==> #[trigger] padded_right(s, width)[i]
                == ' ',
{
    assert(padded_right(s, width).take(s.len() as int) =~= s);
}

/// A count goes on by one from none, or from a count; what is no count stays.
pub proof fn law_counts_go_on_by_one<G>(n: u64, other: MetricModel<G>)
    requires
        other !is Count,
    ensures
        incremented::<G>(None) == MetricModel::<G>::Count(1),
        n < u64::MAX ==> incremented(Some(MetricModel::<G>::Count(n))) == MetricModel::<G>::Count(
            (n + 1) as u64,
        ),
        incremented(Some(other)) == other,
{
}

/// The decoders are tried in this order, the hardware first.
pub proof fn law_hardware_decoders_come_first()
    ensures
        decoder_names().len() == 5,
        decoder_names()[0] == "vaapih264dec"@,
        decoder_names()[1] == "vah264dec"@,
        decoder_names()[2] == "nvh264dec"@,
        decoder_names()[3] == "avdec_h264"@,
        decoder_names()[4] == "openh264dec"@,
{
}

/// A report holds the versions, a line for every decoder, every interface and every measured
/// value, each under its heading.
pub proof fn law_reports_hold_everything(
    system: SystemInfo,
    metrics: Seq<(Seq<char>, Seq<char>)>,
    list: Seq<InterfaceInfo>,
    i: int,
)
    requires
        0 <= i < list.len(),
    ensures
        report_of(system, metrics)
            == "Wireless Display diagnostics\n============================\n\napplication: "@
            + system.app_version@ + "\ngtk: "@ + system.gtk_version@ + "  adwaita: "@
            + system.adwaita_version@ + "  gstreamer: "@ + system.gstreamer_version@
            + "\n\ndecoders:\n"@ + decoder_lines(system.decoders@) + "\ninterfaces:\n"@
            + value_lines(interface_views(system.interfaces@)) + "\nmetrics:\n"@ + value_lines(
            metrics,
        ),
        interface_views(list).len() == list.len(),
        interface_views(list)[i] == (list[i].name@, list[i].addr@),
{
}

/// A version of a library is its three numbers with dots between them, and a value is looked
/// up under its own key.
pub proof fn law_versions_are_dotted<G>(
    a: u32,
    b: u32,
    c: u32,
    m: Map<Seq<char>, MetricModel<G>>,
    key: Seq<char>,
    v: MetricModel<G>,
    list: Seq<(String, String)>,
    i: int,
)
    requires
        0 <= i < list.len(),
    ensures
        dotted_text(a, b, c) == text::decimal(a as nat) + "."@ + text::decimal(b as nat) + "."@
            + text::decimal(c as nat),
        looked_up(m.insert(key, v), key) == Some(v),
        looked_up(m.remove(key), key) is None,
        text_pairs(list).len() == list.len(),
        text_pairs(list)[i] == (list[i].0@, list[i].1@),
{
}

} // verus!
