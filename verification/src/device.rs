//! Device catalog and identity that survives a replug.
//!
//! A device found again after being unplugged must be recognised as the same
//! one. The audio host provides a stable identifier for exactly that, including
//! across a change of port, and it is that identifier, not the display name,
//! which gets persisted. Two headsets of the same model stay distinguishable,
//! and a renamed device stays recognised.
//!
//! Enumerating the host is the caller's business: it hands over one probe per
//! device, and the catalog offered to the interface is computed here.

use vstd::prelude::*;
use vstd::string::StrSliceExecFns;
use crate::convert::{is_dsd, is_linear_pcm, SampleFormat};

verus! {

/// Operating system family the application runs on.
#[derive(Clone, Copy, PartialEq, Eq, Debug, Structural)]
pub enum HostPlatform {
    Windows,
    MacOs,
    Other,
}

/// True when the platform can capture what a render device is playing without
/// an extra driver.
///
/// Windows offers this natively, macOS since 14.6 by building an aggregate
/// device. Elsewhere, capturing an output goes through a monitor source exposed
/// by the sound server, which then shows up as an ordinary input.
pub fn supports_loopback(platform: HostPlatform) -> (supported: bool)
    ensures
        supported == (platform == HostPlatform::Windows || platform == HostPlatform::MacOs),
{
    match platform {
        HostPlatform::Windows | HostPlatform::MacOs => true,
        HostPlatform::Other => false,
    }
}

/// How a device is connected, as the audio host describes it.
#[derive(Clone, Copy, PartialEq, Eq, Debug, Structural)]
pub enum InterfaceKind {
    BuiltIn,
    Usb,
    Bluetooth,
    Pci,
    FireWire,
    Thunderbolt,
    Hdmi,
    Line,
    Spdif,
    Network,
    Virtual,
    DisplayPort,
    Aggregate,
    Unknown,
}

/// Stable key the interface renders a connection type with.
pub open spec fn interface_text(kind: InterfaceKind) -> &'static str {
    match kind {
        InterfaceKind::BuiltIn => "builtin",
        InterfaceKind::Usb => "usb",
        InterfaceKind::Bluetooth => "bluetooth",
        InterfaceKind::Pci => "pci",
        InterfaceKind::FireWire => "firewire",
        InterfaceKind::Thunderbolt => "thunderbolt",
        InterfaceKind::Hdmi => "hdmi",
        InterfaceKind::Line => "line",
        InterfaceKind::Spdif => "spdif",
        InterfaceKind::Network => "network",
        InterfaceKind::Virtual => "virtual",
        InterfaceKind::DisplayPort => "displayport",
        InterfaceKind::Aggregate => "aggregate",
        InterfaceKind::Unknown => "unknown",
    }
}

/// Connection type, as a stable key the interface renders.
pub fn interface_key(kind: InterfaceKind) -> (key: &'static str)
    ensures
        key == interface_text(kind),
{
    match kind {
        InterfaceKind::BuiltIn => "builtin",
        InterfaceKind::Usb => "usb",
        InterfaceKind::Bluetooth => "bluetooth",
        InterfaceKind::Pci => "pci",
        InterfaceKind::FireWire => "firewire",
        InterfaceKind::Thunderbolt => "thunderbolt",
        InterfaceKind::Hdmi => "hdmi",
        InterfaceKind::Line => "line",
        InterfaceKind::Spdif => "spdif",
        InterfaceKind::Network => "network",
        InterfaceKind::Virtual => "virtual",
        InterfaceKind::DisplayPort => "displayport",
        InterfaceKind::Aggregate => "aggregate",
        InterfaceKind::Unknown => "unknown",
    }
}

/// Default format of one direction of a device.
#[derive(Clone, Copy, PartialEq, Eq, Debug, Structural)]
pub struct StreamFormat {
    pub sample_format: SampleFormat,
    pub sample_rate: u32,
    pub channels: u16,
}

/// What enumeration learnt about one device.
#[derive(Clone, Debug)]
pub struct DeviceProbe {
    pub id: String,
    pub name: String,
    pub interface: InterfaceKind,
    /// Default output format, when the device renders.
    pub output: Option<StreamFormat>,
    /// Default input format, when the device captures.
    pub input: Option<StreamFormat>,
}

#[derive(Clone, Debug)]
pub struct DeviceEntry {
    pub id: String,
    pub name: String,
    /// Connection type, as a stable key the interface renders.
    pub interface: &'static str,
    pub is_default: bool,
    pub sample_rate: u32,
    pub channels: u16,
    /// True when using it as a source means capturing an output.
    pub loopback: bool,
}

#[derive(Clone, Debug)]
pub struct DeviceCatalog {
    /// Devices usable as the mirror's source.
    pub sources: Vec<DeviceEntry>,
    /// Devices usable as a destination.
    pub targets: Vec<DeviceEntry>,
    /// True when the platform can capture an output directly.
    pub loopback_available: bool,
}

impl Default for DeviceCatalog {
    fn default() -> (catalog: Self)
        ensures
            catalog.sources@.len() == 0,
            catalog.targets@.len() == 0,
            !catalog.loopback_available,
    {
        DeviceCatalog { sources: Vec::new(), targets: Vec::new(), loopback_available: false }
    }
}

/// Whether `id` is the identifier of the host's default device.
pub open spec fn is_default_id(default: Option<String>, id: String) -> bool {
    match default {
        Some(d) => d@ == id@,
        None => false,
    }
}

/// The entry a probe yields for one direction.
pub open spec fn entry_of(probe: DeviceProbe, format: StreamFormat, is_default: bool, loopback: bool) -> DeviceEntry {
    DeviceEntry {
        id: probe.id,
        name: probe.name,
        interface: interface_text(probe.interface),
        is_default,
        sample_rate: format.sample_rate,
        channels: format.channels,
        loopback,
    }
}

/// A direction worth offering: present, and convertible to linear PCM.
pub open spec fn usable(format: Option<StreamFormat>) -> bool {
    match format {
        Some(f) => !is_dsd(f.sample_format),
        None => false,
    }
}

/// Destinations, in enumeration order: every device whose output is usable.
pub open spec fn listed_targets(probes: Seq<DeviceProbe>, default_output: Option<String>) -> Seq<DeviceEntry>
    decreases probes.len(),
{
    if probes.len() == 0 {
        Seq::empty()
    } else {
        let p = probes.last();
        let before = listed_targets(probes.drop_last(), default_output);
        if usable(p.output) {
            before.push(entry_of(p, p.output->0, is_default_id(default_output, p.id), false))
        } else {
            before
        }
    }
}

/// Sources, in enumeration order: for each device, its output captured by
/// loopback where the platform allows it, then its input.
pub open spec fn listed_sources(
    probes: Seq<DeviceProbe>,
    default_output: Option<String>,
    default_input: Option<String>,
    loopback: bool,
) -> Seq<DeviceEntry>
    decreases probes.len(),
{
    if probes.len() == 0 {
        Seq::empty()
    } else {
        let p = probes.last();
        let before = listed_sources(probes.drop_last(), default_output, default_input, loopback);
        let with_output = if loopback && usable(p.output) {
            before.push(entry_of(p, p.output->0, is_default_id(default_output, p.id), true))
        } else {
            before
        };
        if usable(p.input) {
            with_output.push(entry_of(p, p.input->0, is_default_id(default_input, p.id), false))
        } else {
            with_output
        }
    }
}

/// Lexicographic order on text, character by character (which, for UTF-8,
/// is also byte order).
pub open spec fn text_leq(a: Seq<char>, b: Seq<char>) -> bool
    decreases a.len(),
{
    if a.len() == 0 {
        true
    } else if b.len() == 0 {
        false
    } else if (a[0] as u32) != (b[0] as u32) {
        (a[0] as u32) < (b[0] as u32)
    } else {
        text_leq(a.drop_first(), b.drop_first())
    }
}

/// Catalog order: with `loopback_first`, captured outputs come before
/// inputs; within a group, entries go alphabetically.
pub open spec fn entry_leq(loopback_first: bool, a: DeviceEntry, b: DeviceEntry) -> bool {
    if loopback_first && a.loopback != b.loopback {
        a.loopback
    } else {
        text_leq(a.name@, b.name@)
    }
}

pub open spec fn sorted_entries(loopback_first: bool, entries: Seq<DeviceEntry>) -> bool {
    forall|i: int, j: int|
        0 <= i < j < entries.len() ==> #[trigger] entry_leq(loopback_first, entries[i], entries[j])
}

proof fn lemma_text_total(a: Seq<char>, b: Seq<char>)
    ensures
        text_leq(a, b) || text_leq(b, a),
    decreases a.len(),
{
    if a.len() > 0 && b.len() > 0 && (a[0] as u32) == (b[0] as u32) {
        lemma_text_total(a.drop_first(), b.drop_first());
    }
}

proof fn lemma_text_transitive(a: Seq<char>, b: Seq<char>, c: Seq<char>)
    requires
        text_leq(a, b),
        text_leq(b, c),
    ensures
        text_leq(a, c),
    decreases a.len(),
{
    if a.len() > 0 && b.len() > 0 && c.len() > 0 && (a[0] as u32) == (b[0] as u32) && (b[0] as u32) == (
    c[0] as u32) {
        lemma_text_transitive(a.drop_first(), b.drop_first(), c.drop_first());
    }
}

proof fn lemma_entry_total(loopback_first: bool, a: DeviceEntry, b: DeviceEntry)
    ensures
        entry_leq(loopback_first, a, b) || entry_leq(loopback_first, b, a),
{
    lemma_text_total(a.name@, b.name@);
}

proof fn lemma_entry_transitive(loopback_first: bool, a: DeviceEntry, b: DeviceEntry, c: DeviceEntry)
    requires
        entry_leq(loopback_first, a, b),
        entry_leq(loopback_first, b, c),
    ensures
        entry_leq(loopback_first, a, c),
{
    if !(loopback_first && (a.loopback != b.loopback || b.loopback != c.loopback)) {
        lemma_text_transitive(a.name@, b.name@, c.name@);
    }
}

/// Whether `a` goes no later than `b` alphabetically.
fn text_precedes(a: &str, b: &str) -> (leq: bool)
    ensures
        leq == text_leq(a@, b@),
{
    let la = a.unicode_len();
    let lb = b.unicode_len();
    let mut i: usize = 0;
    assert(a@.skip(0) =~= a@);
    assert(b@.skip(0) =~= b@);
    while i < la && i < lb
        invariant
            la == a@.len(),
            lb == b@.len(),
            i <= la,
            i <= lb,
            text_leq(a@, b@) == text_leq(a@.skip(i as int), b@.skip(i as int)),
        decreases la - i,
    {
        let ca = a.get_char(i);
        let cb = b.get_char(i);
        if (ca as u32) != (cb as u32) {
            return (ca as u32) < (cb as u32);
        }
        assert(a@.skip(i as int).drop_first() =~= a@.skip(i + 1));
        assert(b@.skip(i as int).drop_first() =~= b@.skip(i + 1));
        i = i + 1;
    }
    i == la
}

fn entry_precedes(loopback_first: bool, a: &DeviceEntry, b: &DeviceEntry) -> (leq: bool)
    ensures
        leq == entry_leq(loopback_first, *a, *b),
{
    if loopback_first && a.loopback != b.loopback {
        a.loopback
    } else {
        text_precedes(a.name.as_str(), b.name.as_str())
    }
}

/// Entries the catalog order does not tell apart.
pub open spec fn entry_equiv(loopback_first: bool, a: DeviceEntry, b: DeviceEntry) -> bool {
    entry_leq(loopback_first, a, b) && entry_leq(loopback_first, b, a)
}

/// `output` holds the entries of `input`, each taken once from the position
/// `origin` gives, and entries the catalog order does not tell apart keep the
/// order they had in `input`.
pub open spec fn stably_arranged(
    loopback_first: bool,
    input: Seq<DeviceEntry>,
    output: Seq<DeviceEntry>,
    origin: Seq<int>,
) -> bool {
    &&& output.len() == input.len()
    &&& origin.len() == output.len()
    &&& forall|i: int| 0 <= i < origin.len() ==> 0 <= #[trigger] origin[i] < input.len()
    &&& forall|i: int| 0 <= i < origin.len() ==> output[i] == input[#[trigger] origin[i]]
    &&& forall|i: int, j: int| 0 <= i < j < origin.len() ==> #[trigger] origin[i] != #[trigger] origin[j]
    &&& forall|i: int, j: int|
        0 <= i < j < output.len() && entry_equiv(loopback_first, #[trigger] output[i], #[trigger] output[j])
            ==> origin[i] < origin[j]
}

/// `output` is `input` sorted in catalog order, entries that compare equal
/// keeping their relative order.
pub open spec fn stable_sort_of(loopback_first: bool, input: Seq<DeviceEntry>, output: Seq<DeviceEntry>) -> bool {
    &&& sorted_entries(loopback_first, output)
    &&& exists|origin: Seq<int>| #[trigger] stably_arranged(loopback_first, input, output, origin)
}

/// Sorts entries in catalog order. Entries that compare equal keep their
/// relative order.
fn sort_entries(loopback_first: bool, entries: Vec<DeviceEntry>) -> (sorted: Vec<DeviceEntry>)
    ensures
        stable_sort_of(loopback_first, entries@, sorted@),
        sorted@.to_multiset() == entries@.to_multiset(),
{
    broadcast use vstd::seq_lib::group_to_multiset_ensures;
    broadcast use vstd::multiset::group_multiset_axioms;

    let mut sorted: Vec<DeviceEntry> = Vec::new();
    let ghost all = entries@;
    let mut rest = entries;
    let mut pending: Vec<DeviceEntry> = Vec::new();
    // Reverse the input so that popping hands the entries over in order.
    while rest.len() > 0
        invariant
            pending@ + rest@.reverse() =~= all.reverse(),
        decreases rest@.len(),
    {
        let entry = rest.pop().unwrap();
        proof {
            assert(rest@.push(entry).reverse() =~= seq![entry] + rest@.reverse());
        }
        pending.push(entry);
    }
    proof {
        assert(rest@.reverse() =~= Seq::<DeviceEntry>::empty());
        assert(pending@ =~= all.reverse());
        all.lemma_reverse_to_multiset();
    }
    let ghost total = pending@;
    let ghost mut origin: Seq<int> = Seq::empty();
    while pending.len() > 0
        invariant
            sorted_entries(loopback_first, sorted@),
            sorted@.to_multiset().add(pending@.to_multiset()) == total.to_multiset(),
            pending@.len() + sorted@.len() == all.len(),
            forall|m: int| 0 <= m < pending@.len() ==> #[trigger] pending@[m] == all[all.len() - 1 - m],
            origin.len() == sorted@.len(),
            forall|i: int| 0 <= i < origin.len() ==> 0 <= #[trigger] origin[i] < sorted@.len(),
            forall|i: int| 0 <= i < origin.len() ==> sorted@[i] == all[#[trigger] origin[i]],
            forall|i: int, j: int| 0 <= i < j < origin.len() ==> #[trigger] origin[i] != #[trigger] origin[j],
            forall|i: int, j: int|
                0 <= i < j < sorted@.len() && entry_equiv(loopback_first, #[trigger] sorted@[i], #[trigger] sorted@[j])
                    ==> origin[i] < origin[j],
        decreases pending@.len(),
    {
        let ghost pending_before = pending@;
        let ghost done = sorted@.len() as int;
        let entry = pending.pop().unwrap();
        proof {
            assert(pending_before =~= pending@.push(entry));
            assert(entry == all[done]);
        }
        let mut k = sorted.len();
        while k > 0 && !entry_precedes(loopback_first, &sorted[k - 1], &entry)
            invariant
                0 <= k <= sorted@.len(),
                forall|j: int| k <= j < sorted@.len() ==> !entry_leq(loopback_first, #[trigger] sorted@[j], entry),
            decreases k,
        {
            k = k - 1;
        }
        let ghost before = sorted@;
        let ghost origin_before = origin;
        sorted.insert(k, entry);
        proof {
            origin = origin_before.insert(k as int, done);
            assert forall|i: int, j: int| 0 <= i < j < sorted@.len() implies #[trigger] entry_leq(
                loopback_first,
                sorted@[i],
                sorted@[j],
            ) by {
                if i < k && j == k {
                    if i < k - 1 {
                        assert(entry_leq(loopback_first, before[i], before[k - 1]));
                        lemma_entry_transitive(loopback_first, before[i], before[k - 1], entry);
                    }
                } else if i == k && j > k {
                    lemma_entry_total(loopback_first, before[j - 1], entry);
                } else if i < k && j > k {
                    assert(entry_leq(loopback_first, before[i], before[j - 1]));
                } else if i > k {
                    assert(entry_leq(loopback_first, before[i - 1], before[j - 1]));
                } else {
                    assert(entry_leq(loopback_first, before[i], before[j]));
                }
            }
            assert forall|i: int| 0 <= i < origin.len() implies 0 <= #[trigger] origin[i] < sorted@.len() by {
                if i < k {
                    assert(origin[i] == origin_before[i]);
                } else if i > k {
                    assert(origin[i] == origin_before[i - 1]);
                }
            }
            assert forall|i: int| 0 <= i < origin.len() implies sorted@[i] == all[#[trigger] origin[i]] by {
                if i < k {
                    assert(origin[i] == origin_before[i]);
                    assert(sorted@[i] == before[i]);
                } else if i > k {
                    assert(origin[i] == origin_before[i - 1]);
                    assert(sorted@[i] == before[i - 1]);
                }
            }
            assert forall|i: int, j: int| 0 <= i < j < origin.len() implies #[trigger] origin[i]
                != #[trigger] origin[j] by {
                if i < k && j < k {
                    assert(origin_before[i] != origin_before[j]);
                } else if i < k && j > k {
                    assert(origin_before[i] != origin_before[j - 1]);
                } else if i > k && j > k {
                    assert(origin_before[i - 1] != origin_before[j - 1]);
                } else if i == k {
                    assert(origin_before[j - 1] < done);
                } else {
                    assert(origin_before[i] < done);
                }
            }
            assert forall|i: int, j: int|
                0 <= i < j < sorted@.len() && entry_equiv(loopback_first, #[trigger] sorted@[i], #[trigger] sorted@[j])
                implies origin[i] < origin[j] by {
                if i < k && j < k {
                    assert(entry_equiv(loopback_first, before[i], before[j]));
                } else if i < k && j > k {
                    assert(entry_equiv(loopback_first, before[i], before[j - 1]));
                } else if i > k && j > k {
                    assert(entry_equiv(loopback_first, before[i - 1], before[j - 1]));
                } else if i == k {
                    assert(!entry_leq(loopback_first, before[j - 1], entry));
                } else {
                    assert(origin_before[i] < done);
                }
            }
            vstd::seq_lib::to_multiset_insert(before, k as int, entry);
            assert(sorted@.to_multiset() == before.to_multiset().insert(entry));
            vstd::seq_lib::to_multiset_build(pending@, entry);
            assert(pending_before.to_multiset() == pending@.to_multiset().insert(entry));
            assert(sorted@.to_multiset().add(pending@.to_multiset()) =~= before.to_multiset().add(
                pending_before.to_multiset(),
            ));
            assert forall|m: int| 0 <= m < pending@.len() implies #[trigger] pending@[m] == all[all.len() - 1 - m] by {
                assert(pending@[m] == pending_before[m]);
            }
        }
    }
    proof {
        assert(pending@.to_multiset() =~= vstd::multiset::Multiset::<DeviceEntry>::empty());
        assert(stably_arranged(loopback_first, all, sorted@, origin));
    }
    sorted
}

fn is_default_device(default: &Option<String>, id: &String) -> (is_default: bool)
    ensures
        is_default == is_default_id(*default, *id),
{
    match default {
        Some(d) => *d == *id,
        None => false,
    }
}

/// Builds the catalog offered to the interface from one probe per device.
///
/// A direction with no format convertible to linear pulse-code modulation is
/// left out: better not to offer it than to let the user pick a destination
/// that would render noise. An output doubles as a source wherever the
/// platform can capture what it renders. Sources list captured outputs first,
/// then inputs, each group alphabetically; destinations go alphabetically:
/// host enumeration order carries no stability guarantee at all.
pub fn catalog(
    probes: &Vec<DeviceProbe>,
    default_output: &Option<String>,
    default_input: &Option<String>,
    platform: HostPlatform,
) -> (catalog: DeviceCatalog)
    ensures
        catalog.loopback_available == (platform == HostPlatform::Windows || platform == HostPlatform::MacOs),
        stable_sort_of(
            true,
            listed_sources(probes@, *default_output, *default_input, catalog.loopback_available),
            catalog.sources@,
        ),
        stable_sort_of(false, listed_targets(probes@, *default_output), catalog.targets@),
        catalog.sources@.to_multiset() == listed_sources(
            probes@,
            *default_output,
            *default_input,
            catalog.loopback_available,
        ).to_multiset(),
        catalog.targets@.to_multiset() == listed_targets(probes@, *default_output).to_multiset(),
        sources_flag_defaults(catalog.sources@, *default_output, *default_input),
        targets_flag_defaults(catalog.targets@, *default_output),
{
    let loopback = supports_loopback(platform);
    let mut sources: Vec<DeviceEntry> = Vec::new();
    let mut targets: Vec<DeviceEntry> = Vec::new();
    let mut index: usize = 0;
    while index < probes.len()
        invariant
            0 <= index <= probes@.len(),
            sources@ == listed_sources(probes@.take(index as int), *default_output, *default_input, loopback),
            targets@ == listed_targets(probes@.take(index as int), *default_output),
        decreases probes@.len() - index,
    {
        let probe = &probes[index];
        proof {
            assert(probes@.take(index + 1).drop_last() =~= probes@.take(index as int));
            assert(probes@.take(index + 1).last() == probes@[index as int]);
        }
        if let Some(format) = probe.output {
            if is_linear_pcm(format.sample_format) {
                let is_default = is_default_device(default_output, &probe.id);
                targets.push(DeviceEntry {
                    id: probe.id.clone(),
                    name: probe.name.clone(),
                    interface: interface_key(probe.interface),
                    is_default,
                    sample_rate: format.sample_rate,
                    channels: format.channels,
                    loopback: false,
                });
                if loopback {
                    sources.push(DeviceEntry {
                        id: probe.id.clone(),
                        name: probe.name.clone(),
                        interface: interface_key(probe.interface),
                        is_default,
                        sample_rate: format.sample_rate,
                        channels: format.channels,
                        loopback: true,
                    });
                }
            }
        }
        if let Some(format) = probe.input {
            if is_linear_pcm(format.sample_format) {
                let is_default = is_default_device(default_input, &probe.id);
                sources.push(DeviceEntry {
                    id: probe.id.clone(),
                    name: probe.name.clone(),
                    interface: interface_key(probe.interface),
                    is_default,
                    sample_rate: format.sample_rate,
                    channels: format.channels,
                    loopback: false,
                });
            }
        }
        index = index + 1;
    }
    proof {
        assert(probes@.take(probes@.len() as int) =~= probes@);
    }
    let sorted_sources = sort_entries(true, sources);
    let sorted_targets = sort_entries(false, targets);
    proof {
        lemma_listed_flag_defaults(probes@, *default_output, *default_input, loopback);
        lemma_arrangement_keeps_flags(
            true,
            listed_sources(probes@, *default_output, *default_input, loopback),
            sorted_sources@,
            *default_output,
            *default_input,
        );
        lemma_arrangement_keeps_flags(
            false,
            listed_targets(probes@, *default_output),
            sorted_targets@,
            *default_output,
            *default_input,
        );
    }
    DeviceCatalog { sources: sorted_sources, targets: sorted_targets, loopback_available: loopback }
}

/// A source entry is flagged default exactly when its device is the host's
/// default for what is captured: the default output for a captured output,
/// the default input for an input.
pub open spec fn sources_flag_defaults(
    entries: Seq<DeviceEntry>,
    default_output: Option<String>,
    default_input: Option<String>,
) -> bool {
    forall|i: int|
        0 <= i < entries.len() ==> (#[trigger] entries[i]).is_default == if entries[i].loopback {
            is_default_id(default_output, entries[i].id)
        } else {
            is_default_id(default_input, entries[i].id)
        }
}

/// A destination entry is no captured output, and is flagged default exactly
/// when its device is the host's default output.
pub open spec fn targets_flag_defaults(entries: Seq<DeviceEntry>, default_output: Option<String>) -> bool {
    forall|i: int|
        0 <= i < entries.len() ==> !(#[trigger] entries[i]).loopback && entries[i].is_default == is_default_id(
            default_output,
            entries[i].id,
        )
}

/// Enumeration flags defaults by direction: an output, whether offered as a
/// destination or captured as a source, carries the host's default output;
/// an input carries the host's default input.
pub proof fn lemma_listed_flag_defaults(
    probes: Seq<DeviceProbe>,
    default_output: Option<String>,
    default_input: Option<String>,
    loopback: bool,
)
    ensures
        sources_flag_defaults(listed_sources(probes, default_output, default_input, loopback), default_output, default_input),
        targets_flag_defaults(listed_targets(probes, default_output), default_output),
    decreases probes.len(),
{
    if probes.len() > 0 {
        lemma_listed_flag_defaults(probes.drop_last(), default_output, default_input, loopback);
        let p = probes.last();
        let before = listed_sources(probes.drop_last(), default_output, default_input, loopback);
        let with_output = if loopback && usable(p.output) {
            before.push(entry_of(p, p.output->0, is_default_id(default_output, p.id), true))
        } else {
            before
        };
        assert(sources_flag_defaults(with_output, default_output, default_input)) by {
            assert forall|i: int| 0 <= i < with_output.len() implies (#[trigger] with_output[i]).is_default
                == if with_output[i].loopback {
                is_default_id(default_output, with_output[i].id)
            } else {
                is_default_id(default_input, with_output[i].id)
            } by {
                if i < before.len() {
                    assert(with_output[i] == before[i]);
                }
            }
        }
        let all = listed_sources(probes, default_output, default_input, loopback);
        assert forall|i: int| 0 <= i < all.len() implies (#[trigger] all[i]).is_default == if all[i].loopback {
            is_default_id(default_output, all[i].id)
        } else {
            is_default_id(default_input, all[i].id)
        } by {
            if i < with_output.len() {
                assert(all[i] == with_output[i]);
            }
        }
        let earlier = listed_targets(probes.drop_last(), default_output);
        let targets = listed_targets(probes, default_output);
        assert forall|i: int| 0 <= i < targets.len() implies !(#[trigger] targets[i]).loopback
            && targets[i].is_default == is_default_id(default_output, targets[i].id) by {
            if i < earlier.len() {
                assert(targets[i] == earlier[i]);
            }
        }
    }
}

/// Rearranging entries keeps each entry's flags.
proof fn lemma_arrangement_keeps_flags(
    loopback_first: bool,
    input: Seq<DeviceEntry>,
    output: Seq<DeviceEntry>,
    default_output: Option<String>,
    default_input: Option<String>,
)
    requires
        stable_sort_of(loopback_first, input, output),
    ensures
        sources_flag_defaults(input, default_output, default_input) ==> sources_flag_defaults(
            output,
            default_output,
            default_input,
        ),
        targets_flag_defaults(input, default_output) ==> targets_flag_defaults(output, default_output),
{
    let origin = choose|origin: Seq<int>| #[trigger] stably_arranged(loopback_first, input, output, origin);
    assert forall|i: int| 0 <= i < output.len() implies #[trigger] output[i] == input[origin[i]] by {
        assert(output[i] == input[origin[i]]);
    }
    if sources_flag_defaults(input, default_output, default_input) {
        assert forall|i: int| 0 <= i < output.len() implies (#[trigger] output[i]).is_default == if output[i].loopback {
            is_default_id(default_output, output[i].id)
        } else {
            is_default_id(default_input, output[i].id)
        } by {
            assert(0 <= origin[i] < input.len());
            assert(output[i] == input[origin[i]]);
        }
    }
    if targets_flag_defaults(input, default_output) {
        assert forall|i: int| 0 <= i < output.len() implies !(#[trigger] output[i]).loopback
            && output[i].is_default == is_default_id(default_output, output[i].id) by {
            assert(0 <= origin[i] < input.len());
            assert(output[i] == input[origin[i]]);
        }
    }
}

/// Name the first entry with this identifier carries, searching `entries`
/// from the front.
pub open spec fn first_name(entries: Seq<DeviceEntry>, id: Seq<char>) -> Option<Seq<char>>
    decreases entries.len(),
{
    if entries.len() == 0 {
        None
    } else if entries[0].id@ == id {
        Some(entries[0].name@)
    } else {
        first_name(entries.drop_first(), id)
    }
}

/// Display name for an identifier: the one the catalog lists it under,
/// sources first, or the identifier itself when the catalog does not know it.
pub open spec fn catalog_name(catalog: DeviceCatalog, id: Seq<char>) -> Seq<char> {
    match first_name(catalog.sources@ + catalog.targets@, id) {
        Some(name) => name,
        None => id,
    }
}

fn find_name(entries: &Vec<DeviceEntry>, id: &String) -> (name: Option<String>)
    ensures
        match name {
            Some(n) => first_name(entries@, id@) == Some(n@),
            None => first_name(entries@, id@) is None,
        },
{
    let mut index: usize = 0;
    assert(entries@.skip(0) =~= entries@);
    while index < entries.len()
        invariant
            0 <= index <= entries@.len(),
            first_name(entries@, id@) == first_name(entries@.skip(index as int), id@),
        decreases entries@.len() - index,
    {
        if entries[index].id == *id {
            return Some(entries[index].name.clone());
        }
        assert(entries@.skip(index as int).drop_first() =~= entries@.skip(index + 1));
        index = index + 1;
    }
    None
}

proof fn lemma_first_name_append(a: Seq<DeviceEntry>, b: Seq<DeviceEntry>, id: Seq<char>)
    ensures
        first_name(a + b, id) == match first_name(a, id) {
            Some(n) => Some(n),
            None => first_name(b, id),
        },
    decreases a.len(),
{
    if a.len() > 0 {
        assert((a + b).drop_first() =~= a.drop_first() + b);
        lemma_first_name_append(a.drop_first(), b, id);
    } else {
        assert(a + b =~= b);
    }
}

/// Display name for an identifier, looked up in the catalog.
pub fn name_for(catalog: &DeviceCatalog, id: &String) -> (name: String)
    ensures
        name@ == catalog_name(*catalog, id@),
{
    proof {
        lemma_first_name_append(catalog.sources@, catalog.targets@, id@);
    }
    match find_name(&catalog.sources, id) {
        Some(name) => name,
        None => match find_name(&catalog.targets, id) {
            Some(name) => name,
            None => id.clone(),
        },
    }
}

/// The capture format once the input format is refused: an output is captured
/// by loopback, and the host then imposes the system mixer's format, which is
/// its output format. Where loopback is unavailable, the input's refusal
/// stands.
pub fn loopback_fallback<C, E>(input_error: E, output: Result<C, E>, platform: HostPlatform) -> (capture: Result<(C, bool), E>)
    ensures
        match output {
            Ok(config) => if platform == HostPlatform::Windows || platform == HostPlatform::MacOs {
                capture == Ok::<(C, bool), E>((config, true))
            } else {
                capture == Err::<(C, bool), E>(input_error)
            },
            Err(_) => capture == Err::<(C, bool), E>(input_error),
        },
{
    match output {
        Ok(config) => if supports_loopback(platform) {
            Ok((config, true))
        } else {
            Err(input_error)
        },
        Err(_) => Err(input_error),
    }
}

} // verus!
