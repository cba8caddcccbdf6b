//! Physical link (network cable) detection.
//!
//! A typical Windows machine reports dozens of ethernet interfaces that are not
//! network cards at all: NDIS lightweight filter shims and virtual miniports.
//! They happily report a connected medium, so taking "any ethernet interface is
//! up" as "the cable is plugged in" would be wrong. The interface flags are used
//! to discard the shims and to prefer real hardware.
//!
//! Reading the interface table is left to the caller; everything here works on
//! the rows it hands over.

use vstd::prelude::*;

use crate::error::{checked, os_err, Error};
use crate::error;
use crate::lists;
use crate::text;
use crate::utf16;

verus! {

/// `IF_TYPE_ETHERNET_CSMACD`: wired ethernet.
pub const IF_TYPE_ETHERNET: u32 = 6;

/// `IfOperStatusUp`.
pub const OPER_STATUS_UP: i32 = 1;

/// `MediaConnectStateUnknown`.
pub const MEDIA_UNKNOWN: i32 = 0;

/// `MediaConnectStateConnected`.
pub const MEDIA_CONNECTED: i32 = 1;

/// Bits of `MIB_IF_ROW2::InterfaceAndOperStatusFlags`.
pub const FLAG_HARDWARE_INTERFACE: u8 = 0x01;

pub const FLAG_FILTER_INTERFACE: u8 = 0x02;

pub const FLAG_CONNECTOR_PRESENT: u8 = 0x04;

/// One row of the interface table, as the system reports it.
pub struct InterfaceRow {
    /// NUL terminated UTF-16.
    pub alias: Vec<u16>,
    /// NUL terminated UTF-16.
    pub description: Vec<u16>,
    pub if_type: u32,
    pub oper_status: i32,
    pub media_connect_state: i32,
    pub flags: u8,
}

/// Media (cable) connect state of one interface.
#[derive(Copy, Clone, PartialEq, Eq, Debug, Structural)]
pub enum MediaState {
    Connected,
    Disconnected,
    /// The driver does not report a media state (common for wireless and some
    /// virtual adapters). Such interfaces must not decide the verdict.
    Unknown,
}

impl MediaState {
    /// The name of the state.
    pub open spec fn name(self) -> Seq<char> {
        match self {
            MediaState::Connected => "Connected"@,
            MediaState::Disconnected => "Disconnected"@,
            MediaState::Unknown => "Unknown"@,
        }
    }

    /// The name of the state.
    pub fn label(self) -> (out: &'static str)
        ensures
            out@ == self.name(),
    {
        match self {
            MediaState::Connected => "Connected",
            MediaState::Disconnected => "Disconnected",
            MediaState::Unknown => "Unknown",
        }
    }
}

/// The state a raw `MediaConnectState` value stands for.
pub open spec fn media_of(raw: i32) -> MediaState {
    if raw == MEDIA_CONNECTED {
        MediaState::Connected
    } else if raw == MEDIA_UNKNOWN {
        MediaState::Unknown
    } else {
        MediaState::Disconnected
    }
}

/// The state a raw `MediaConnectState` value stands for.
pub fn media_state(raw: i32) -> (state: MediaState)
    ensures
        state == media_of(raw),
{
    if raw == MEDIA_CONNECTED {
        MediaState::Connected
    } else if raw == MEDIA_UNKNOWN {
        MediaState::Unknown
    } else {
        MediaState::Disconnected
    }
}

/// Everything the service needs to know about one interface.
#[derive(Debug)]
pub struct AdapterInfo {
    /// Friendly name, for example `Ethernet`.
    pub alias: String,
    pub description: String,
    pub if_type: u32,
    pub oper_up: bool,
    pub media: MediaState,
    /// A real network card rather than a virtual miniport.
    pub hardware: bool,
    /// An NDIS filter or lightweight filter shim, never a cable.
    pub is_filter: bool,
    /// A physical connector exists (a cable can be plugged in here).
    pub connector_present: bool,
}

impl Clone for AdapterInfo {
    fn clone(&self) -> (copy: Self)
        ensures
            copy == *self,
    {
        AdapterInfo {
            alias: self.alias.clone(),
            description: self.description.clone(),
            if_type: self.if_type,
            oper_up: self.oper_up,
            media: self.media,
            hardware: self.hardware,
            is_filter: self.is_filter,
            connector_present: self.connector_present,
        }
    }
}

impl AdapterInfo {
    /// Whether the interface can plausibly carry the PPPoE session: everything
    /// but a filter shim can.
    pub fn is_candidate(&self) -> (yes: bool)
        ensures
            yes == !self.is_filter,
    {
        !self.is_filter
    }

    /// The adapter is what the table row says.
    pub open spec fn describes(self, row: InterfaceRow) -> bool {
        &&& self.alias@ == utf16::decoded(utf16::before_nul(row.alias@))
        &&& self.description@ == utf16::decoded(utf16::before_nul(row.description@))
        &&& self.if_type == row.if_type
        &&& self.oper_up == (row.oper_status == OPER_STATUS_UP)
        &&& self.media == media_of(row.media_connect_state)
        &&& self.hardware == (row.flags & FLAG_HARDWARE_INTERFACE != 0)
        &&& self.is_filter == (row.flags & FLAG_FILTER_INTERFACE != 0)
        &&& self.connector_present == (row.flags & FLAG_CONNECTOR_PRESENT != 0)
    }
}

/// Converts a NUL terminated UTF-16 buffer into a `String`. A surrogate without
/// its partner becomes `U+FFFD`.
pub fn wide_to_string(buffer: &[u16]) -> (text: String)
    ensures
        text@ == utf16::decoded(utf16::before_nul(buffer@)),
{
    utf16::decode_terminated(buffer)
}

/// The adapters are what the rows say, one for one.
pub open spec fn all_describe(adapters: Seq<AdapterInfo>, rows: Seq<InterfaceRow>) -> bool {
    &&& adapters.len() == rows.len()
    &&& forall|i: int| 0 <= i < rows.len() ==> (#[trigger] adapters[i]).describes(rows[i])
}

fn adapter_of(row: &InterfaceRow) -> (adapter: AdapterInfo)
    ensures
        adapter.describes(*row),
{
    AdapterInfo {
        alias: wide_to_string(row.alias.as_slice()),
        description: wide_to_string(row.description.as_slice()),
        if_type: row.if_type,
        oper_up: row.oper_status == OPER_STATUS_UP,
        media: media_state(row.media_connect_state),
        hardware: row.flags & FLAG_HARDWARE_INTERFACE != 0,
        is_filter: row.flags & FLAG_FILTER_INTERFACE != 0,
        connector_present: row.flags & FLAG_CONNECTOR_PRESENT != 0,
    }
}

fn has_type(if_types: &[u32], if_type: u32) -> (yes: bool)
    ensures
        yes == if_types@.contains(if_type),
{
    let mut i: usize = 0;
    while i < if_types.len()
        invariant
            i <= if_types@.len(),
            forall|j: int| 0 <= j < i ==> if_types@[j] != if_type,
        decreases if_types@.len() - i,
    {
        if if_types[i] == if_type {
            assert(if_types@[i as int] == if_type);
            return true;
        }
        i += 1;
    }
    false
}

/// Every interface whose type is in `if_types`, in table order.
///
/// `table` is what `GetIfTable2` came back with: the rows, or its error code.
pub fn snapshot(table: &Result<Vec<InterfaceRow>, u32>, if_types: &[u32]) -> (out: Result<
    Vec<AdapterInfo>,
    Error,
>)
    ensures
        match *table {
            Err(code) => out matches Err(e) && e is Message && e.said() == error::os_text(
                "GetIfTable2"@,
                code,
            ),
            Ok(rows) => out matches Ok(adapters) && all_describe(
                adapters@,
                rows@.filter(|row: InterfaceRow| if_types@.contains(row.if_type)),
            ),
        },
{
    match table {
        Err(code) => Err(os_err("GetIfTable2", *code)),
        Ok(rows) => {
            let mut adapters: Vec<AdapterInfo> = Vec::new();
            let ghost wanted = |row: InterfaceRow| if_types@.contains(row.if_type);
            let mut i: usize = 0;
            assert(rows@.take(0).filter(wanted) == Seq::<InterfaceRow>::empty()) by {
                reveal(Seq::filter);
            }
            while i < rows.len()
                invariant
                    i <= rows@.len(),
                    wanted == (|row: InterfaceRow| if_types@.contains(row.if_type)),
                    all_describe(adapters@, rows@.take(i as int).filter(wanted)),
                decreases rows@.len() - i,
            {
                proof {
                    lists::lemma_filter_push(rows@.take(i as int), wanted, rows@[i as int]);
                    assert(rows@.take(i + 1) == rows@.take(i as int).push(rows@[i as int]));
                }
                if has_type(if_types, rows[i].if_type) {
                    adapters.push(adapter_of(&rows[i]));
                }
                i += 1;
            }
            assert(rows@.take(rows@.len() as int) == rows@);
            Ok(adapters)
        },
    }
}

/// Every interface, regardless of its type, in table order. Used to choose the
/// adapter name filter.
pub fn snapshot_all(table: &Result<Vec<InterfaceRow>, u32>) -> (out: Result<
    Vec<AdapterInfo>,
    Error,
>)
    ensures
        match *table {
            Err(code) => out matches Err(e) && e is Message && e.said() == error::os_text(
                "GetIfTable2"@,
                code,
            ),
            Ok(rows) => out matches Ok(adapters) && all_describe(adapters@, rows@),
        },
{
    match table {
        Err(code) => Err(os_err("GetIfTable2", *code)),
        Ok(rows) => {
            let mut adapters: Vec<AdapterInfo> = Vec::new();
            let mut i: usize = 0;
            while i < rows.len()
                invariant
                    i <= rows@.len(),
                    all_describe(adapters@, rows@.take(i as int)),
                decreases rows@.len() - i,
            {
                adapters.push(adapter_of(&rows[i]));
                i += 1;
            }
            assert(rows@.take(rows@.len() as int) == rows@);
            Ok(adapters)
        },
    }
}

/// Unicode lower case of a text.
pub uninterp spec fn lowercase(s: Seq<char>) -> Seq<char>;

/// `str::to_lowercase`: the Unicode lower case of the text, a function of the
/// text alone. Which text that is stays unsaid here.
#[verifier::external_body]
fn to_lowercase(text: &str) -> (out: String)
    ensures
        out@ == lowercase(text@),
{
    text.to_lowercase()
}

/// The text to look for in the names of the adapters; nothing when the filter is
/// blank.
pub open spec fn wanted_text(filter: Seq<char>) -> Seq<char> {
    if text::is_blank(filter) {
        Seq::empty()
    } else {
        lowercase(text::trimmed(filter))
    }
}

/// An adapter together with the lower case of its names.
pub struct Folded {
    pub adapter: AdapterInfo,
    pub alias: String,
    pub description: String,
}

/// Model of [`Folded`].
pub struct FoldedView {
    pub adapter: AdapterInfo,
    pub alias: Seq<char>,
    pub description: Seq<char>,
}

impl View for Folded {
    type V = FoldedView;

    open spec fn view(&self) -> FoldedView {
        FoldedView {
            adapter: self.adapter,
            alias: self.alias@,
            description: self.description@,
        }
    }
}

impl FoldedView {
    /// The lower case filter stands in the alias or in the description.
    pub open spec fn named(self, filter: Seq<char>) -> bool {
        text::has_text(self.alias, filter) || text::has_text(self.description, filter)
    }

    /// Not a filter shim, and named by the filter when there is one.
    pub open spec fn admitted(self, filter: Seq<char>) -> bool {
        !self.adapter.is_filter && (filter.len() == 0 || self.named(filter))
    }
}

/// An adapter with the lower case of its names.
pub open spec fn folded_of(adapter: AdapterInfo) -> FoldedView {
    FoldedView {
        adapter,
        alias: lowercase(adapter.alias@),
        description: lowercase(adapter.description@),
    }
}

/// The adapters that the cable check is decided by, namely those admitted, and of
/// these the real hardware alone when there is any.
pub open spec fn eligible(folded: Seq<FoldedView>, filter: Seq<char>) -> Seq<AdapterInfo> {
    let admitted = folded.filter(|f: FoldedView| f.admitted(filter)).map_values(
        |f: FoldedView| f.adapter,
    );
    let hardware = admitted.filter(|a: AdapterInfo| a.hardware);
    if hardware.len() == 0 {
        admitted
    } else {
        hardware
    }
}

/// Connected and operationally up: the cable is in.
pub open spec fn is_live(a: AdapterInfo) -> bool {
    a.media == MediaState::Connected && a.oper_up
}

/// Outcome of a cable check.
#[derive(Debug)]
pub struct LinkStatus {
    /// `true` when dialling may proceed.
    pub up: bool,
    /// `true` when the verdict came from the operational status because no
    /// adapter reported a usable media state.
    pub fallback: bool,
    /// Short explanation for the log.
    pub reason: String,
    /// Adapter that decided the verdict, when there was one.
    pub decided_by: Option<AdapterInfo>,
    pub adapters: Vec<AdapterInfo>,
}

/// What a cable check concludes.
pub struct Verdict {
    pub up: bool,
    pub fallback: bool,
    pub reason: Seq<char>,
    pub decided_by: Option<AdapterInfo>,
}

impl LinkStatus {
    /// The conclusion, without the table it was drawn from.
    pub open spec fn verdict(self) -> Verdict {
        Verdict {
            up: self.up,
            fallback: self.fallback,
            reason: self.reason@,
            decided_by: self.decided_by,
        }
    }
}

/// The first adapter satisfying `p`, or else the first one.
pub open spec fn first_or_any(
    adapters: Seq<AdapterInfo>,
    p: spec_fn(AdapterInfo) -> bool,
) -> AdapterInfo {
    match lists::first_where(adapters, p) {
        Some(a) => a,
        None => adapters[0],
    }
}

/// The conclusion drawn from the adapters that take part.
///
/// A connected adapter that is operationally up proves the cable is in. Without
/// one, a single reported media state is enough to say it is out. When no
/// adapter reports a media state the operational status decides.
pub open spec fn conclusion(eligible: Seq<AdapterInfo>, filter: Seq<char>) -> Verdict {
    let live = lists::first_where(eligible, |a: AdapterInfo| is_live(a));
    let reported = lists::first_where(
        eligible,
        |a: AdapterInfo| a.media != MediaState::Unknown,
    );
    let running = lists::first_where(eligible, |a: AdapterInfo| a.oper_up);
    if eligible.len() == 0 {
        Verdict {
            up: false,
            fallback: false,
            reason: if filter.len() == 0 {
                "no usable ethernet adapter found (filter shims are ignored)"@
            } else {
                "no ethernet adapter matches the configured filter '"@ + filter + "'"@
            },
            decided_by: None,
        }
    } else if live is Some {
        Verdict {
            up: true,
            fallback: false,
            reason: "cable connected on '"@ + live->0.alias@ + "'"@,
            decided_by: live,
        }
    } else if reported is Some {
        let a = first_or_any(eligible, |a: AdapterInfo| a.media == MediaState::Disconnected);
        Verdict {
            up: false,
            fallback: false,
            reason: "cable not connected on '"@ + a.alias@ + "'"@,
            decided_by: Some(a),
        }
    } else {
        Verdict {
            up: running is Some,
            fallback: true,
            reason: if running is Some {
                "no media state reported; falling back to operational status (up)"@
            } else {
                "no media state reported and the interface is operationally down"@
            },
            decided_by: Some(first_or_any(eligible, |a: AdapterInfo| a.oper_up)),
        }
    }
}

/// Whether the lower case filter stands in one of the lower case names.
pub fn named(alias: &str, description: &str, filter: &str) -> (yes: bool)
    ensures
        yes == (text::has_text(alias@, filter@) || text::has_text(description@, filter@)),
{
    text::contains(alias, filter) || text::contains(description, filter)
}

/// Whether the alias or the description of the adapter contains the lower case
/// filter, ignoring case.
pub fn matches(adapter: &AdapterInfo, lowercase_filter: &str) -> (yes: bool)
    ensures
        yes == folded_of(*adapter).named(lowercase_filter@),
{
    let alias = to_lowercase(adapter.alias.as_str());
    let description = to_lowercase(adapter.description.as_str());
    named(alias.as_str(), description.as_str(), lowercase_filter)
}

/// The adapters that take part in the verdict.
pub fn select(folded: &Vec<Folded>, filter: &str) -> (out: Vec<AdapterInfo>)
    ensures
        out@ == eligible(folded@.map_values(|f: Folded| f@), filter@),
{
    let ghost views = folded@.map_values(|f: Folded| f@);
    let ghost admits = |f: FoldedView| f.admitted(filter@);
    let ghost bare = |f: FoldedView| f.adapter;
    let ghost is_hardware = |a: AdapterInfo| a.hardware;
    let mut admitted: Vec<AdapterInfo> = Vec::new();
    let mut hardware: Vec<AdapterInfo> = Vec::new();
    let mut i: usize = 0;
    proof {
        reveal(Seq::filter);
        assert(views.take(0).filter(admits).map_values(bare) == Seq::<AdapterInfo>::empty());
        assert(Seq::<AdapterInfo>::empty().filter(is_hardware) == Seq::<AdapterInfo>::empty());
    }
    while i < folded.len()
        invariant
            i <= folded@.len(),
            views == folded@.map_values(|f: Folded| f@),
            admits == (|f: FoldedView| f.admitted(filter@)),
            bare == (|f: FoldedView| f.adapter),
            is_hardware == (|a: AdapterInfo| a.hardware),
            admitted@ == views.take(i as int).filter(admits).map_values(bare),
            hardware@ == admitted@.filter(is_hardware),
        decreases folded@.len() - i,
    {
        let f = &folded[i];
        proof {
            lists::lemma_filter_push(views.take(i as int), admits, views[i as int]);
            assert(views.take(i + 1) == views.take(i as int).push(views[i as int]));
            lists::lemma_filter_push(admitted@, is_hardware, f.adapter);
        }
        let ghost before = views.take(i as int).filter(admits);
        if f.adapter.is_candidate() && (filter.is_empty() || named(
            f.alias.as_str(),
            f.description.as_str(),
            filter,
        )) {
            admitted.push(f.adapter.clone());
            if f.adapter.hardware {
                hardware.push(f.adapter.clone());
            }
            assert(before.push(views[i as int]).map_values(bare) == before.map_values(bare).push(
                f.adapter,
            ));
        }
        i += 1;
    }
    assert(views.take(views.len() as int) == views);
    if hardware.len() == 0 {
        admitted
    } else {
        hardware
    }
}

fn quoted(head: &str, middle: &str) -> (out: String)
    ensures
        out@ == head@ + middle@ + "'"@,
{
    let mut out = head.to_owned();
    out.append(middle);
    out.append("'");
    out
}

/// Decides whether the cable is plugged in, given the lower case of every name
/// and of the filter.
pub fn decide(folded: &Vec<Folded>, filter: &str) -> (status: LinkStatus)
    ensures
        status.verdict() == conclusion(
            eligible(folded@.map_values(|f: Folded| f@), filter@),
            filter@,
        ),
        status.adapters@ == folded@.map_values(|f: Folded| f.adapter),
{
    let mut adapters: Vec<AdapterInfo> = Vec::new();
    let mut n: usize = 0;
    while n < folded.len()
        invariant
            n <= folded@.len(),
            adapters@ == folded@.take(n as int).map_values(|f: Folded| f.adapter),
        decreases folded@.len() - n,
    {
        adapters.push(folded[n].adapter.clone());
        n += 1;
        assert(folded@.take(n as int) == folded@.take(n - 1).push(folded@[n - 1]));
    }
    assert(folded@.take(folded@.len() as int) == folded@);

    let matched = select(folded, filter);
    if matched.len() == 0 {
        let reason = if filter.is_empty() {
            "no usable ethernet adapter found (filter shims are ignored)".to_owned()
        } else {
            quoted("no ethernet adapter matches the configured filter '", filter)
        };
        return LinkStatus { up: false, fallback: false, reason, decided_by: None, adapters };
    }
    let ghost live_p = |a: AdapterInfo| is_live(a);
    let ghost reported_p = |a: AdapterInfo| a.media != MediaState::Unknown;
    let ghost out_p = |a: AdapterInfo| a.media == MediaState::Disconnected;
    let ghost up_p = |a: AdapterInfo| a.oper_up;
    let mut live: Option<usize> = None;
    let mut reported = false;
    let mut disconnected: Option<usize> = None;
    let mut running: Option<usize> = None;
    let mut i: usize = 0;
    while i < matched.len()
        invariant
            i <= matched@.len(),
            live_p == (|a: AdapterInfo| is_live(a)),
            reported_p == (|a: AdapterInfo| a.media != MediaState::Unknown),
            out_p == (|a: AdapterInfo| a.media == MediaState::Disconnected),
            up_p == (|a: AdapterInfo| a.oper_up),
            is_first(live, matched@, i as int, live_p),
            reported == (lists::first_where(matched@.take(i as int), reported_p) is Some),
            is_first(disconnected, matched@, i as int, out_p),
            is_first(running, matched@, i as int, up_p),
        decreases matched@.len() - i,
    {
        let a = &matched[i];
        assert(matched@.take(i + 1).drop_last() == matched@.take(i as int));
        if live.is_none() && a.media == MediaState::Connected && a.oper_up {
            live = Some(i);
        }
        if a.media != MediaState::Unknown {
            reported = true;
        }
        if disconnected.is_none() && a.media == MediaState::Disconnected {
            disconnected = Some(i);
        }
        if running.is_none() && a.oper_up {
            running = Some(i);
        }
        i += 1;
    }
    assert(matched@.take(matched@.len() as int) == matched@);

    if let Some(at) = live {
        let reason = quoted("cable connected on '", matched[at].alias.as_str());
        let decided_by = Some(matched[at].clone());
        return LinkStatus { up: true, fallback: false, reason, decided_by, adapters };
    }
    if reported {
        let at: usize = match disconnected {
            Some(at) => at,
            None => 0,
        };
        let reason = quoted("cable not connected on '", matched[at].alias.as_str());
        let decided_by = Some(matched[at].clone());
        return LinkStatus { up: false, fallback: false, reason, decided_by, adapters };
    }
    let up = running.is_some();
    let at: usize = match running {
        Some(at) => at,
        None => 0,
    };
    let reason = if up {
        "no media state reported; falling back to operational status (up)".to_owned()
    } else {
        "no media state reported and the interface is operationally down".to_owned()
    };
    let decided_by = Some(matched[at].clone());
    LinkStatus { up, fallback: true, reason, decided_by, adapters }
}

/// `at` is the position of the first of the leading `n` elements satisfying `p`.
spec fn is_first(
    at: Option<usize>,
    s: Seq<AdapterInfo>,
    n: int,
    p: spec_fn(AdapterInfo) -> bool,
) -> bool {
    match at {
        Some(i) => i < n && lists::first_where(s.take(n), p) == Some(s[i as int]),
        None => lists::first_where(s.take(n), p) is None,
    }
}

/// Decides whether the cable is plugged in.
///
/// `table` is what `GetIfTable2` came back with. When `filter` is not blank,
/// only adapters whose alias or description contains it, ignoring case, are
/// considered.
///
/// Selection order:
/// 1. drop NDIS filter shims;
/// 2. apply the name filter, if any;
/// 3. prefer real hardware interfaces; fall back to whatever is left;
/// 4. the cable is in when one of them is operationally up **and** reports a
///    connected medium.
///
/// Interfaces reporting an unknown media state are never counted as connected;
/// if *no* remaining interface reports a media state at all, the verdict falls
/// back to the operational status so that an unusual driver cannot keep the
/// service from ever dialling.
pub fn check(
    table: &Result<Vec<InterfaceRow>, u32>,
    if_types: &[u32],
    filter: &str,
) -> (out: Result<LinkStatus, Error>)
    ensures
        match *table {
            Err(code) => out matches Err(e) && e is Message && e.said() == error::os_text(
                "GetIfTable2"@,
                code,
            ),
            Ok(rows) => {
                let wanted = wanted_text(filter@);
                &&& out matches Ok(status)
                &&& all_describe(
                    status.adapters@,
                    rows@.filter(|row: InterfaceRow| if_types@.contains(row.if_type)),
                )
                &&& status.verdict() == conclusion(
                    eligible(
                        status.adapters@.map_values(|a: AdapterInfo| folded_of(a)),
                        wanted,
                    ),
                    wanted,
                )
            },
        },
{
    match snapshot(table, if_types) {
        Err(e) => Err(e),
        Ok(adapters) => {
            let wanted = if text::blank(filter) {
                String::new()
            } else {
                let bare = text::trim(filter);
                to_lowercase(bare.as_str())
            };
            let folded = fold(&adapters);
            let status = decide(&folded, wanted.as_str());
            assert(status.adapters@ == adapters@);
            assert(folded@.map_values(|f: Folded| f@) == adapters@.map_values(
                |a: AdapterInfo| folded_of(a),
            ));
            Ok(status)
        },
    }
}

/// Every adapter with the lower case of its names.
fn fold(adapters: &Vec<AdapterInfo>) -> (folded: Vec<Folded>)
    ensures
        folded@.len() == adapters@.len(),
        forall|i: int|
            0 <= i < folded@.len() ==> (#[trigger] folded@[i])@ == folded_of(adapters@[i]),
{
    let mut folded: Vec<Folded> = Vec::new();
    let mut i: usize = 0;
    while i < adapters.len()
        invariant
            i <= adapters@.len(),
            folded@.len() == i,
            forall|j: int| 0 <= j < i ==> (#[trigger] folded@[j])@ == folded_of(adapters@[j]),
        decreases adapters@.len() - i,
    {
        let a = &adapters[i];
        folded.push(
            Folded {
                adapter: a.clone(),
                alias: to_lowercase(a.alias.as_str()),
                description: to_lowercase(a.description.as_str()),
            },
        );
        i += 1;
    }
    folded
}

/// One adapter in a compact list.
pub open spec fn entry_text(a: AdapterInfo) -> Seq<char> {
    "{type:"@ + text::decimal(a.if_type as nat) + ", up:"@ + text::truth(a.oper_up) + ", media:"@
        + a.media.name() + ", hw:"@ + text::truth(a.hardware) + ", filter:"@ + text::truth(
        a.is_filter,
    ) + ", alias:\""@ + a.alias@ + "\"}"@
}

/// The adapters in a compact list, separated by commas.
pub open spec fn entries_text(adapters: Seq<AdapterInfo>) -> Seq<char>
    decreases adapters.len(),
{
    if adapters.len() == 0 {
        Seq::empty()
    } else if adapters.len() == 1 {
        entry_text(adapters[0])
    } else {
        entries_text(adapters.drop_last()) + ", "@ + entry_text(adapters.last())
    }
}

fn write_entry(out: &mut String, a: &AdapterInfo)
    ensures
        final(out)@ == old(out)@ + entry_text(*a),
{
    let mut item = "{type:".to_owned();
    item.append(text::number(a.if_type as u64).as_str());
    item.append(", up:");
    item.append(text::flag(a.oper_up).as_str());
    item.append(", media:");
    item.append(a.media.label());
    item.append(", hw:");
    item.append(text::flag(a.hardware).as_str());
    item.append(", filter:");
    item.append(text::flag(a.is_filter).as_str());
    item.append(", alias:\"");
    item.append(a.alias.as_str());
    item.append("\"}");
    out.append(item.as_str());
}

/// Compact description of an adapter list for log records.
pub fn describe(adapters: &[AdapterInfo]) -> (out: String)
    ensures
        out@ == "["@ + entries_text(adapters@) + "]"@,
{
    let mut out = "[".to_owned();
    let mut i: usize = 0;
    assert(out@ == "["@ + entries_text(adapters@.take(0)));
    while i < adapters.len()
        invariant
            i <= adapters@.len(),
            out@ == "["@ + entries_text(adapters@.take(i as int)),
        decreases adapters@.len() - i,
    {
        let ghost so_far = entries_text(adapters@.take(i as int));
        assert(adapters@.take(i + 1).drop_last() == adapters@.take(i as int));
        if i > 0 {
            out.append(", ");
        }
        write_entry(&mut out, &adapters[i]);
        proof {
            let item = entry_text(adapters@[i as int]);
            if i > 0 {
                assert("["@ + so_far + ", "@ + item == "["@ + (so_far + ", "@ + item));
            } else {
                assert(adapters@.take(1)[0] == adapters@[0]);
                assert("["@ + so_far + item == "["@ + item);
            }
        }
        i += 1;
    }
    assert(adapters@.take(adapters@.len() as int) == adapters@);
    out.append("]");
    out
}

/// Describes only the usable adapters: filter shims are left out, because a
/// typical machine reports dozens of them.
pub fn describe_candidates(adapters: &[AdapterInfo]) -> (out: String)
    ensures
        out@ == "["@ + entries_text(adapters@.filter(|a: AdapterInfo| !a.is_filter)) + "]"@,
{
    let ghost usable = |a: AdapterInfo| !a.is_filter;
    let mut candidates: Vec<AdapterInfo> = Vec::new();
    let mut i: usize = 0;
    assert(adapters@.take(0).filter(usable) == Seq::<AdapterInfo>::empty()) by {
        reveal(Seq::filter);
    }
    while i < adapters.len()
        invariant
            i <= adapters@.len(),
            usable == (|a: AdapterInfo| !a.is_filter),
            candidates@ == adapters@.take(i as int).filter(usable),
        decreases adapters@.len() - i,
    {
        proof {
            lists::lemma_filter_push(adapters@.take(i as int), usable, adapters@[i as int]);
            assert(adapters@.take(i + 1) == adapters@.take(i as int).push(adapters@[i as int]));
        }
        if adapters[i].is_candidate() {
            candidates.push(adapters[i].clone());
        }
        i += 1;
    }
    assert(adapters@.take(adapters@.len() as int) == adapters@);
    describe(candidates.as_slice())
}

/// Judges the registration of the notification for changes of an IP interface
/// (this includes plugging and unplugging a cable).
pub fn notify(rc: u32) -> (out: Result<(), Error>)
    ensures
        if rc == 0 {
            out is Ok
        } else {
            out matches Err(e) && e is Message && e.said() == error::os_text(
                "NotifyIpInterfaceChange"@,
                rc,
            )
        },
{
    checked("NotifyIpInterfaceChange", rc)
}

/// Whoever takes part in the verdict stands in the table, is no filter shim and
/// is named by the filter when there is one. When an admitted adapter is real
/// hardware, only real hardware takes part.
pub proof fn only_admitted_adapters_take_part(folded: Seq<FoldedView>, filter: Seq<char>)
    ensures
        forall|i: int|
            0 <= i < eligible(folded, filter).len() ==> exists|j: int|
                0 <= j < folded.len() && (#[trigger] folded[j]).adapter == #[trigger] eligible(
                    folded,
                    filter,
                )[i] && folded[j].admitted(filter),
        forall|i: int, j: int|
            0 <= i < eligible(folded, filter).len() && 0 <= j < folded.len()
                && #[trigger] folded[j].admitted(filter) && folded[j].adapter.hardware
                ==> (#[trigger] eligible(folded, filter)[i]).hardware,
{
    let admits = |f: FoldedView| f.admitted(filter);
    let bare = |f: FoldedView| f.adapter;
    let is_hardware = |a: AdapterInfo| a.hardware;
    let kept = folded.filter(admits);
    let admitted = kept.map_values(bare);
    let out = eligible(folded, filter);
    lists::lemma_filter_members(folded, admits);
    lists::lemma_filter_members(admitted, is_hardware);
    assert forall|i: int| 0 <= i < out.len() implies exists|j: int|
        0 <= j < folded.len() && (#[trigger] folded[j]).adapter == #[trigger] out[i]
            && folded[j].admitted(filter) by {
        assert(admitted.contains(out[i])) by {
            if admitted.filter(is_hardware).len() == 0 {
                assert(admitted[i] == out[i]);
            }
        }
        let k = choose|k: int| 0 <= k < admitted.len() && admitted[k] == out[i];
        assert(kept[k].adapter == out[i]);
        assert(admits(kept[k]) && folded.contains(kept[k]));
        let j = choose|j: int| 0 <= j < folded.len() && folded[j] == kept[k];
        assert(folded[j].adapter == out[i] && folded[j].admitted(filter));
    }
    assert forall|i: int, j: int|
        0 <= i < out.len() && 0 <= j < folded.len() && #[trigger] folded[j].admitted(filter)
            && folded[j].adapter.hardware implies (#[trigger] out[i]).hardware by {
        assert(folded.contains(folded[j]));
        lists::lemma_filter_keeps(folded, admits, folded[j]);
        let k = choose|k: int| 0 <= k < kept.len() && kept[k] == folded[j];
        assert(admitted[k] == folded[j].adapter);
        assert(admitted.contains(folded[j].adapter));
        lists::lemma_filter_keeps(admitted, is_hardware, folded[j].adapter);
        assert(admitted.filter(is_hardware).len() > 0);
    }
}

/// The adapter that decided the verdict took part in it.
pub proof fn the_deciding_adapter_takes_part(eligible: Seq<AdapterInfo>, filter: Seq<char>)
    ensures
        conclusion(eligible, filter).decided_by matches Some(a) ==> eligible.contains(a),
        conclusion(eligible, filter).decided_by is None <==> eligible.len() == 0,
{
    lists::lemma_first_where(eligible, |a: AdapterInfo| is_live(a));
    lists::lemma_first_where(eligible, |a: AdapterInfo| a.media == MediaState::Disconnected);
    lists::lemma_first_where(eligible, |a: AdapterInfo| a.oper_up);
    if eligible.len() > 0 {
        assert(eligible.contains(eligible[0]));
    }
}

/// Dialling may proceed only on an adapter that is operationally up. As soon as
/// one participant reports a media state it may proceed only on a connected one:
/// an unknown state never counts as connected.
pub proof fn an_unknown_medium_never_counts_as_connected(
    eligible: Seq<AdapterInfo>,
    filter: Seq<char>,
)
    ensures
        conclusion(eligible, filter).up ==> exists|i: int|
            0 <= i < eligible.len() && (#[trigger] eligible[i]).oper_up && (
            conclusion(eligible, filter).fallback || eligible[i].media == MediaState::Connected),
        conclusion(eligible, filter).fallback <==> eligible.len() > 0 && forall|i: int|
            0 <= i < eligible.len() ==> (#[trigger] eligible[i]).media == MediaState::Unknown,
{
    let live = |a: AdapterInfo| is_live(a);
    let reported = |a: AdapterInfo| a.media != MediaState::Unknown;
    let up = |a: AdapterInfo| a.oper_up;
    lists::lemma_first_where(eligible, live);
    lists::lemma_first_where(eligible, reported);
    lists::lemma_first_where(eligible, up);
    if eligible.len() > 0 {
        match lists::first_where(eligible, live) {
            Some(a) => {
                let i = choose|i: int| 0 <= i < eligible.len() && eligible[i] == a;
                assert(live(eligible[i]));
                assert(eligible[i].media == MediaState::Connected);
            },
            None => {
                match lists::first_where(eligible, reported) {
                    Some(b) => {
                        let i = choose|i: int| 0 <= i < eligible.len() && eligible[i] == b;
                        assert(reported(eligible[i]));
                        assert(eligible[i].media != MediaState::Unknown);
                    },
                    None => {
                        assert forall|i: int| 0 <= i < eligible.len() implies (
                        #[trigger] eligible[i]).media == MediaState::Unknown by {
                            assert(!reported(eligible[i]));
                        }
                        if let Some(c) = lists::first_where(eligible, up) {
                            let i = choose|i: int| 0 <= i < eligible.len() && eligible[i] == c;
                            assert(up(eligible[i]));
                        }
                    },
                }
            },
        }
    }
}

/// Filter shims have no influence: taking them out of the table leaves the
/// participants, and with them the verdict, as they were.
pub proof fn filter_shims_have_no_influence(folded: Seq<FoldedView>, filter: Seq<char>)
    ensures
        eligible(folded.filter(|f: FoldedView| !f.adapter.is_filter), filter) == eligible(
            folded,
            filter,
        ),
{
    lemma_double_filter(folded, filter);
}

proof fn lemma_double_filter(folded: Seq<FoldedView>, filter: Seq<char>)
    ensures
        folded.filter(|f: FoldedView| !f.adapter.is_filter).filter(
            |f: FoldedView| f.admitted(filter),
        ) == folded.filter(|f: FoldedView| f.admitted(filter)),
    decreases folded.len(),
{
    let genuine = |f: FoldedView| !f.adapter.is_filter;
    let admits = |f: FoldedView| f.admitted(filter);
    reveal(Seq::filter);
    if folded.len() > 0 {
        let rest = folded.drop_last();
        lemma_double_filter(rest, filter);
        lists::lemma_filter_push(rest.filter(genuine), admits, folded.last());
        assert(folded == rest.push(folded.last()));
    }
}

/// A buffer written by [`crate::ras::to_wide`] reads back as the text in front
/// of its first NUL character; a text without one reads back unchanged.
pub proof fn a_wide_text_reads_back(s: Seq<char>)
    ensures
        utf16::decoded(utf16::before_nul(utf16::encoded(s).push(0))) == utf16::before_nul_char(s),
        !s.contains('\0') ==> utf16::before_nul_char(s) == s,
{
    assert(utf16::encoded(s).push(0) == utf16::encoded(s) + seq![0u16]);
    utf16::lemma_terminated(s, seq![0u16]);
    utf16::decoding_undoes_encoding(utf16::before_nul_char(s));
    if !s.contains('\0') {
        utf16::lemma_no_nul(s);
    }
}

/// The cable is in exactly when one of the adapters that take part is connected and
/// operationally up, whatever the others report, or when none of them reports a media
/// state and one is operationally up.
pub proof fn one_live_adapter_is_enough(eligible: Seq<AdapterInfo>, filter: Seq<char>)
    ensures
        conclusion(eligible, filter).up <==> {
            ||| exists|i: int|
                0 <= i < eligible.len() && (#[trigger] eligible[i]).media == MediaState::Connected
                    && eligible[i].oper_up
            ||| (forall|i: int|
                0 <= i < eligible.len() ==> (#[trigger] eligible[i]).media == MediaState::Unknown)
                && (exists|i: int| 0 <= i < eligible.len() && (#[trigger] eligible[i]).oper_up)
        },
{
    let live = |a: AdapterInfo| is_live(a);
    let reported = |a: AdapterInfo| a.media != MediaState::Unknown;
    let up = |a: AdapterInfo| a.oper_up;
    lists::lemma_first_where(eligible, live);
    lists::lemma_first_where(eligible, reported);
    lists::lemma_first_where(eligible, up);
    match lists::first_where(eligible, live) {
        Some(a) => {
            let i = choose|i: int| 0 <= i < eligible.len() && eligible[i] == a;
            assert(live(eligible[i]));
        },
        None => {
            assert forall|i: int| 0 <= i < eligible.len() implies !(
            (#[trigger] eligible[i]).media == MediaState::Connected && eligible[i].oper_up) by {
                assert(!live(eligible[i]));
            }
            match lists::first_where(eligible, reported) {
                Some(b) => {
                    let i = choose|i: int| 0 <= i < eligible.len() && eligible[i] == b;
                    assert(reported(eligible[i]));
                },
                None => {
                    assert forall|i: int| 0 <= i < eligible.len() implies (
                    #[trigger] eligible[i]).media == MediaState::Unknown by {
                        assert(!reported(eligible[i]));
                    }
                    match lists::first_where(eligible, up) {
                        Some(c) => {
                            let i = choose|i: int| 0 <= i < eligible.len() && eligible[i] == c;
                            assert(up(eligible[i]));
                        },
                        None => {
                            assert forall|i: int| 0 <= i < eligible.len() implies !(
                            #[trigger] eligible[i]).oper_up by {
                                assert(!up(eligible[i]));
                            }
                        },
                    }
                },
            }
        },
    }
}

/// An adapter that is connected and operationally up decides, and of several the first;
/// the explanation names it.
pub proof fn the_first_live_adapter_decides(eligible: Seq<AdapterInfo>, filter: Seq<char>, at: int)
    requires
        0 <= at < eligible.len(),
        eligible[at].media == MediaState::Connected && eligible[at].oper_up,
        forall|i: int|
            0 <= i < at ==> !((#[trigger] eligible[i]).media == MediaState::Connected
                && eligible[i].oper_up),
    ensures
        conclusion(eligible, filter) == (Verdict {
            up: true,
            fallback: false,
            reason: "cable connected on '"@ + eligible[at].alias@ + "'"@,
            decided_by: Some(eligible[at]),
        }),
{
    let live = |a: AdapterInfo| is_live(a);
    assert forall|i: int| 0 <= i < at implies !live(#[trigger] eligible[i]) by {}
    lists::lemma_first_is_least(eligible, live, at);
}

/// Without a live adapter, one that reports a media state says that the cable is out: the
/// first disconnected one decides, or the first of all when none is disconnected.
pub proof fn the_first_disconnected_adapter_decides(
    eligible: Seq<AdapterInfo>,
    filter: Seq<char>,
    at: int,
)
    requires
        0 <= at < eligible.len(),
        forall|i: int|
            0 <= i < eligible.len() ==> !((#[trigger] eligible[i]).media == MediaState::Connected
                && eligible[i].oper_up),
        exists|i: int|
            0 <= i < eligible.len() && (#[trigger] eligible[i]).media != MediaState::Unknown,
        ({
            ||| eligible[at].media == MediaState::Disconnected && forall|i: int|
                0 <= i < at ==> (#[trigger] eligible[i]).media != MediaState::Disconnected
            ||| at == 0 && forall|i: int|
                0 <= i < eligible.len() ==> (#[trigger] eligible[i]).media
                    != MediaState::Disconnected
        }),
    ensures
        conclusion(eligible, filter) == (Verdict {
            up: false,
            fallback: false,
            reason: "cable not connected on '"@ + eligible[at].alias@ + "'"@,
            decided_by: Some(eligible[at]),
        }),
{
    let live = |a: AdapterInfo| is_live(a);
    let reported = |a: AdapterInfo| a.media != MediaState::Unknown;
    let out = |a: AdapterInfo| a.media == MediaState::Disconnected;
    lists::lemma_first_where(eligible, live);
    if let Some(a) = lists::first_where(eligible, live) {
        let i = choose|i: int| 0 <= i < eligible.len() && eligible[i] == a;
        assert(is_live(eligible[i]));
    }
    lists::lemma_first_where(eligible, reported);
    let i = choose|i: int|
        0 <= i < eligible.len() && (#[trigger] eligible[i]).media != MediaState::Unknown;
    assert(reported(eligible[i]));
    if eligible[at].media == MediaState::Disconnected {
        assert forall|i: int| 0 <= i < at implies !out(#[trigger] eligible[i]) by {}
        lists::lemma_first_is_least(eligible, out, at);
    } else {
        lists::lemma_first_where(eligible, out);
        if let Some(a) = lists::first_where(eligible, out) {
            let j = choose|j: int| 0 <= j < eligible.len() && eligible[j] == a;
            assert(eligible[j].media != MediaState::Disconnected);
        }
    }
}

/// Without any reported media state the first adapter that is operationally up decides,
/// or the first of all when none is, and the verdict is marked as a fallback.
pub proof fn the_first_running_adapter_decides(
    eligible: Seq<AdapterInfo>,
    filter: Seq<char>,
    at: int,
)
    requires
        0 <= at < eligible.len(),
        forall|i: int|
            0 <= i < eligible.len() ==> (#[trigger] eligible[i]).media == MediaState::Unknown,
        ({
            ||| eligible[at].oper_up && forall|i: int|
                0 <= i < at ==> !(#[trigger] eligible[i]).oper_up
            ||| at == 0 && forall|i: int| 0 <= i < eligible.len() ==> !(#[trigger] eligible[i]).oper_up
        }),
    ensures
        conclusion(eligible, filter).up == eligible[at].oper_up,
        conclusion(eligible, filter).fallback,
        conclusion(eligible, filter).decided_by == Some(eligible[at]),
{
    let live = |a: AdapterInfo| is_live(a);
    let reported = |a: AdapterInfo| a.media != MediaState::Unknown;
    let up = |a: AdapterInfo| a.oper_up;
    lists::lemma_first_where(eligible, live);
    if let Some(a) = lists::first_where(eligible, live) {
        let i = choose|i: int| 0 <= i < eligible.len() && eligible[i] == a;
        assert(eligible[i].media == MediaState::Unknown);
    }
    lists::lemma_first_where(eligible, reported);
    if let Some(a) = lists::first_where(eligible, reported) {
        let i = choose|i: int| 0 <= i < eligible.len() && eligible[i] == a;
        assert(eligible[i].media == MediaState::Unknown);
    }
    if eligible[at].oper_up {
        assert forall|i: int| 0 <= i < at implies !up(#[trigger] eligible[i]) by {}
        lists::lemma_first_is_least(eligible, up, at);
    } else {
        lists::lemma_first_where(eligible, up);
        if let Some(a) = lists::first_where(eligible, up) {
            let j = choose|j: int| 0 <= j < eligible.len() && eligible[j] == a;
            assert(!eligible[j].oper_up);
        }
    }
}

/// Without any adapter that takes part the cable is not in, nothing decides, and the
/// explanation tells the filter when there is one.
pub proof fn without_an_adapter_nothing_is_dialled(filter: Seq<char>)
    ensures
        ({
            let v = conclusion(Seq::empty(), filter);
            &&& !v.up && !v.fallback && v.decided_by is None
            &&& filter.len() > 0 ==> text::has_text(v.reason, "'"@ + filter + "'"@)
        }),
{
    let quoted = "'"@ + filter + "'"@;
    reveal_strlit("no ethernet adapter matches the configured filter '");
    reveal_strlit("no ethernet adapter matches the configured filter ");
    reveal_strlit("'");
    let head = "no ethernet adapter matches the configured filter "@;
    assert("no ethernet adapter matches the configured filter '"@ == head + "'"@);
    if filter.len() > 0 {
        assert(conclusion(Seq::empty(), filter).reason == head + quoted + Seq::<char>::empty());
        text::lemma_stands_between(head, quoted, Seq::empty());
    }
}

/// Which adapters take part, row by row: none from an empty table; a filter shim, and an
/// adapter that a filter does not name, adds nothing; real hardware joins the real
/// hardware that is there and drives everything else out; any other adapter joins only
/// where no real hardware is. The order of the table is kept.
pub proof fn one_more_row_joins_or_is_left_out(
    folded: Seq<FoldedView>,
    row: FoldedView,
    filter: Seq<char>,
)
    ensures
        eligible(Seq::empty(), filter) == Seq::<AdapterInfo>::empty(),
        ({
            let before = eligible(folded, filter);
            let after = eligible(folded.push(row), filter);
            let genuine = exists|i: int| 0 <= i < before.len() && (#[trigger] before[i]).hardware;
            let named = text::has_text(row.alias, filter) || text::has_text(
                row.description,
                filter,
            );
            if row.adapter.is_filter || (filter.len() > 0 && !named) {
                after == before
            } else if row.adapter.hardware {
                after == if genuine {
                    before.push(row.adapter)
                } else {
                    seq![row.adapter]
                }
            } else {
                after == if genuine {
                    before
                } else {
                    before.push(row.adapter)
                }
            }
        }),
{
    let admits = |f: FoldedView| f.admitted(filter);
    let bare = |f: FoldedView| f.adapter;
    let is_hardware = |a: AdapterInfo| a.hardware;
    let none = Seq::<FoldedView>::empty();
    assert(none.filter(admits) == none) by {
        reveal(Seq::filter);
    }
    assert(none.map_values(bare) == Seq::<AdapterInfo>::empty());
    assert(Seq::<AdapterInfo>::empty().filter(is_hardware) == Seq::<AdapterInfo>::empty()) by {
        reveal(Seq::filter);
    }
    let kept = folded.filter(admits);
    let admitted = kept.map_values(bare);
    let hardware = admitted.filter(is_hardware);
    let before = eligible(folded, filter);
    let after = eligible(folded.push(row), filter);
    lists::lemma_filter_push(folded, admits, row);
    lists::lemma_filter_members(admitted, is_hardware);
    assert(kept.push(row).map_values(bare) == admitted.push(row.adapter));
    lists::lemma_filter_push(admitted, is_hardware, row.adapter);
    if hardware.len() > 0 {
        assert(is_hardware(hardware[0]));
        assert(before[0].hardware);
    } else {
        assert forall|i: int| 0 <= i < before.len() implies !(#[trigger] before[i]).hardware by {
            if is_hardware(admitted[i]) {
                assert(admitted.contains(admitted[i]));
                lists::lemma_filter_keeps(admitted, is_hardware, admitted[i]);
            }
        }
        assert(hardware.push(row.adapter) == seq![row.adapter]);
    }
}

/// Everything real that may take part does: a real card that is no filter shim, and named
/// by the filter when there is one, is among those that decide.
pub proof fn every_admitted_card_takes_part(folded: Seq<FoldedView>, filter: Seq<char>, j: int)
    requires
        0 <= j < folded.len(),
        !folded[j].adapter.is_filter,
        folded[j].adapter.hardware,
        filter.len() == 0 || text::has_text(folded[j].alias, filter) || text::has_text(
            folded[j].description,
            filter,
        ),
    ensures
        eligible(folded, filter).contains(folded[j].adapter),
{
    let admits = |f: FoldedView| f.admitted(filter);
    let bare = |f: FoldedView| f.adapter;
    let is_hardware = |a: AdapterInfo| a.hardware;
    let kept = folded.filter(admits);
    let admitted = kept.map_values(bare);
    assert(folded.contains(folded[j]));
    lists::lemma_filter_keeps(folded, admits, folded[j]);
    let k = choose|k: int| 0 <= k < kept.len() && kept[k] == folded[j];
    assert(admitted[k] == folded[j].adapter);
    assert(admitted.contains(folded[j].adapter));
    lists::lemma_filter_keeps(admitted, is_hardware, folded[j].adapter);
}

/// Deciding is drawing that conclusion from those adapters: the executable function says
/// that the cable is in as soon as one real card of the table that the filter names is
/// connected and operationally up.
pub proof fn a_live_card_lets_the_service_dial(
    folded: &Vec<Folded>,
    filter: &str,
    status: LinkStatus,
    j: int,
)
    requires
        call_ensures(decide, (folded, filter), status),
        0 <= j < folded@.len(),
        !folded@[j].adapter.is_filter,
        folded@[j].adapter.hardware,
        folded@[j].adapter.media == MediaState::Connected,
        folded@[j].adapter.oper_up,
        filter@.len() == 0 || text::has_text(folded@[j].alias@, filter@) || text::has_text(
            folded@[j].description@,
            filter@,
        ),
    ensures
        status.up,
        !status.fallback,
        status.decided_by matches Some(a) && a.media == MediaState::Connected && a.oper_up
            && a.hardware && !a.is_filter,
        status.adapters@.len() == folded@.len(),
        forall|i: int| 0 <= i < folded@.len() ==> status.adapters@[i] == (#[trigger] folded@[i]).adapter,
{
    let views = folded@.map_values(|f: Folded| f@);
    let part = eligible(views, filter@);
    assert(views[j] == folded@[j]@);
    every_admitted_card_takes_part(views, filter@, j);
    let at = choose|at: int| 0 <= at < part.len() && part[at] == folded@[j].adapter;
    let live = |a: AdapterInfo| is_live(a);
    assert(live(part[at]));
    lists::lemma_first_where(part, live);
    only_admitted_adapters_take_part(views, filter@);
    let a = lists::first_where(part, live)->0;
    let i = choose|i: int| 0 <= i < part.len() && part[i] == a;
    assert(views[j].admitted(filter@) && views[j].adapter.hardware);
    assert(part[i].hardware);
    let k = choose|k: int|
        0 <= k < views.len() && (#[trigger] views[k]).adapter == part[i] && views[k].admitted(
            filter@,
        );
    assert(!views[k].adapter.is_filter);
}

/// The service dials only on an adapter of the table: the cable is in only where some row
/// that is no filter shim is operationally up.
pub proof fn a_dead_table_never_lets_the_service_dial(
    folded: &Vec<Folded>,
    filter: &str,
    status: LinkStatus,
)
    requires
        call_ensures(decide, (folded, filter), status),
        status.up,
    ensures
        exists|j: int|
            0 <= j < folded@.len() && (#[trigger] folded@[j]).adapter.oper_up
                && !folded@[j].adapter.is_filter && folded@[j].adapter.media
                != MediaState::Disconnected && (filter@.len() == 0 || text::has_text(
                folded@[j].alias@,
                filter@,
            ) || text::has_text(folded@[j].description@, filter@)),
{
    let views = folded@.map_values(|f: Folded| f@);
    let part = eligible(views, filter@);
    one_live_adapter_is_enough(part, filter@);
    only_admitted_adapters_take_part(views, filter@);
    let i = if exists|i: int|
        0 <= i < part.len() && (#[trigger] part[i]).media == MediaState::Connected
            && part[i].oper_up {
        choose|i: int|
            0 <= i < part.len() && (#[trigger] part[i]).media == MediaState::Connected
                && part[i].oper_up
    } else {
        choose|i: int| 0 <= i < part.len() && (#[trigger] part[i]).oper_up
    };
    assert(part[i].oper_up && part[i].media != MediaState::Disconnected);
    let k = choose|k: int|
        0 <= k < views.len() && (#[trigger] views[k]).adapter == part[i] && views[k].admitted(
            filter@,
        );
    assert(views[k] == folded@[k]@);
    assert(folded@[k].adapter.oper_up);
}

/// A raw media state is connected at 1 and unknown at 0; everything else is no
/// connection.
pub proof fn only_one_raw_state_is_connected(raw: i32, state: MediaState)
    requires
        call_ensures(media_state, (raw,), state),
    ensures
        state is Connected <==> raw == 1,
        state is Unknown <==> raw == 0,
        state is Disconnected <==> raw != 0 && raw != 1,
{
}

/// A row of the interface table is read field by field: the operational status is up at
/// 1, and the lowest three bits of the flags tell real hardware, a filter shim and a
/// connector, each on its own. A name that was written into the row reads back.
pub proof fn a_row_is_read_field_by_field(
    a: AdapterInfo,
    row: InterfaceRow,
    alias: Seq<char>,
    tail: Seq<u16>,
)
    requires
        a.describes(row),
    ensures
        a.if_type == row.if_type,
        a.oper_up <==> row.oper_status == 1,
        a.media is Connected <==> row.media_connect_state == 1,
        a.media is Unknown <==> row.media_connect_state == 0,
        a.hardware <==> row.flags % 2 == 1,
        a.is_filter <==> (row.flags / 2) % 2 == 1,
        a.connector_present <==> (row.flags / 4) % 2 == 1,
        tail.len() > 0 && tail[0] == 0 && !alias.contains('\0') ==> {
            &&& row.alias@ == utf16::encoded(alias) + tail ==> a.alias@ == alias
            &&& row.description@ == utf16::encoded(alias) + tail ==> a.description@ == alias
        },
{
    let flags = row.flags;
    assert(flags & 0x01 != 0 <==> flags % 2 == 1) by (bit_vector);
    assert(flags & 0x02 != 0 <==> (flags / 2) % 2 == 1) by (bit_vector);
    assert(flags & 0x04 != 0 <==> (flags / 4) % 2 == 1) by (bit_vector);
    if tail.len() > 0 && tail[0] == 0 && !alias.contains('\0') {
        utf16::lemma_terminated(alias, tail);
        utf16::lemma_no_nul(alias);
        utf16::decoding_undoes_encoding(alias);
    }
}

proof fn lemma_row_kept(rows: Seq<InterfaceRow>, if_types: Seq<u32>, j: int) -> (i: int)
    requires
        0 <= j < rows.len(),
        if_types.contains(rows[j].if_type),
    ensures
        ({
            let kept = rows.filter(|row: InterfaceRow| if_types.contains(row.if_type));
            0 <= i < kept.len() && kept[i] == rows[j]
        }),
{
    let wanted = |row: InterfaceRow| if_types.contains(row.if_type);
    assert(rows.contains(rows[j]));
    lists::lemma_filter_keeps(rows, wanted, rows[j]);
    choose|i: int| 0 <= i < rows.filter(wanted).len() && rows.filter(wanted)[i] == rows[j]
}

/// Only a table that cannot be read fails a check; every row of a wanted type is looked
/// at.
pub proof fn every_row_of_a_wanted_type_is_looked_at(
    rows: Vec<InterfaceRow>,
    if_types: &[u32],
    filter: &str,
    out: Result<LinkStatus, Error>,
    j: int,
)
    requires
        call_ensures(check, (&Ok::<Vec<InterfaceRow>, u32>(rows), if_types, filter), out),
        0 <= j < rows@.len(),
        if_types@.contains(rows@[j].if_type),
    ensures
        out is Ok,
        exists|i: int|
            0 <= i < out->Ok_0.adapters@.len() && (#[trigger] out->Ok_0.adapters@[i]).describes(
                rows@[j],
            ),
{
    let i = lemma_row_kept(rows@, if_types@, j);
    assert(out->Ok_0.adapters@[i].describes(rows@[j]));
}

/// Whatever a check looks at is a row of the table of a wanted type.
pub proof fn only_rows_of_a_wanted_type_are_looked_at(
    rows: Vec<InterfaceRow>,
    if_types: &[u32],
    filter: &str,
    out: Result<LinkStatus, Error>,
    i: int,
)
    requires
        call_ensures(check, (&Ok::<Vec<InterfaceRow>, u32>(rows), if_types, filter), out),
        0 <= i < out->Ok_0.adapters@.len(),
    ensures
        exists|j: int|
            0 <= j < rows@.len() && out->Ok_0.adapters@[i].describes(#[trigger] rows@[j])
                && if_types@.contains(rows@[j].if_type),
{
    let wanted = |row: InterfaceRow| if_types@.contains(row.if_type);
    let kept = rows@.filter(wanted);
    lists::lemma_filter_members(rows@, wanted);
    assert(out->Ok_0.adapters@[i].describes(kept[i]));
    assert(wanted(kept[i]) && rows@.contains(kept[i]));
    let j = choose|j: int| 0 <= j < rows@.len() && rows@[j] == kept[i];
    assert(out->Ok_0.adapters@[i].describes(rows@[j]));
}

/// On a machine with a wired card that is connected and operationally up, a check
/// without a name filter finds the cable in, whatever the other rows say.
pub proof fn a_plugged_card_is_found(
    rows: Vec<InterfaceRow>,
    if_types: &[u32],
    filter: &str,
    out: Result<LinkStatus, Error>,
    j: int,
)
    requires
        call_ensures(check, (&Ok::<Vec<InterfaceRow>, u32>(rows), if_types, filter), out),
        text::is_blank(filter@),
        0 <= j < rows@.len(),
        if_types@.contains(rows@[j].if_type),
        rows@[j].flags % 2 == 1,
        (rows@[j].flags / 2) % 2 == 0,
        rows@[j].oper_status == 1,
        rows@[j].media_connect_state == 1,
    ensures
        out matches Ok(status) && status.up && !status.fallback,
{
    let status = out->Ok_0;
    let none = Seq::<char>::empty();
    let i = lemma_row_kept(rows@, if_types@, j);
    let a = status.adapters@[i];
    assert(a.describes(rows@[j]));
    a_row_is_read_field_by_field(a, rows@[j], none, Seq::empty());
    let views = status.adapters@.map_values(|a: AdapterInfo| folded_of(a));
    let part = eligible(views, none);
    assert(wanted_text(filter@) == none);
    assert(status.verdict() == conclusion(part, none));
    lemma_plugged(status.adapters@, i);
}

proof fn lemma_plugged(adapters: Seq<AdapterInfo>, i: int)
    requires
        0 <= i < adapters.len(),
        !adapters[i].is_filter,
        adapters[i].hardware,
        adapters[i].oper_up,
        adapters[i].media is Connected,
    ensures
        ({
            let views = adapters.map_values(|a: AdapterInfo| folded_of(a));
            let v = conclusion(eligible(views, Seq::empty()), Seq::empty());
            v.up && !v.fallback
        }),
{
    let none = Seq::<char>::empty();
    let views = adapters.map_values(|a: AdapterInfo| folded_of(a));
    assert(views[i].adapter == adapters[i]);
    every_admitted_card_takes_part(views, none, i);
    let part = eligible(views, none);
    let at = choose|at: int| 0 <= at < part.len() && part[at] == adapters[i];
    assert(part[at].media == MediaState::Connected && part[at].oper_up);
    one_live_adapter_is_enough(part, none);
    an_unknown_medium_never_counts_as_connected(part, none);
}

/// A name filter is looked for without the white space around it, and a blank one is no
/// filter.
pub proof fn a_blank_filter_is_none(filter: Seq<char>)
    ensures
        text::is_blank(filter) ==> wanted_text(filter).len() == 0,
        !text::is_blank(filter) ==> wanted_text(filter) == lowercase(text::trimmed(filter)),
{
}

/// An adapter is named by a filter exactly when that stands in its alias or in its
/// description, both in lower case.
pub proof fn a_filter_names_by_alias_or_description(adapter: &AdapterInfo, filter: &str, yes: bool)
    requires
        call_ensures(matches, (adapter, filter), yes),
    ensures
        yes <==> text::has_text(lowercase(adapter.alias@), filter@) || text::has_text(
            lowercase(adapter.description@),
            filter@,
        ),
{
}

proof fn lemma_entry_in_list(adapters: Seq<AdapterInfo>, i: int)
    requires
        0 <= i < adapters.len(),
    ensures
        text::has_text(entries_text(adapters), entry_text(adapters[i])),
    decreases adapters.len(),
{
    let item = entry_text(adapters[i]);
    let none = Seq::<char>::empty();
    if adapters.len() == 1 {
        assert(none + item + none == item);
        text::lemma_stands_between(none, item, none);
    } else if i == adapters.len() - 1 {
        let head = entries_text(adapters.drop_last()) + ", "@;
        assert(head + item + none == entries_text(adapters));
        text::lemma_stands_between(head, item, none);
    } else {
        lemma_entry_in_list(adapters.drop_last(), i);
        let rest = entries_text(adapters.drop_last());
        text::a_text_stands_between_what_surrounds_it(rest, item);
        let (before, after) = choose|before: Seq<char>, after: Seq<char>|
            rest == #[trigger] (before + item + after);
        let tail = after + ", "@ + entry_text(adapters.last());
        assert(entries_text(adapters) == before + item + tail);
        text::lemma_stands_between(before, item, tail);
    }
}

/// A list of adapters for the log tells of each of them, with its alias.
pub proof fn every_adapter_is_told(adapters: Seq<AdapterInfo>, i: int)
    requires
        0 <= i < adapters.len(),
    ensures
        text::has_text(entries_text(adapters), entry_text(adapters[i])),
        text::has_text(entry_text(adapters[i]), adapters[i].alias@),
{
    lemma_entry_in_list(adapters, i);
    let a = adapters[i];
    let head = "{type:"@ + text::decimal(a.if_type as nat) + ", up:"@ + text::truth(a.oper_up)
        + ", media:"@ + a.media.name() + ", hw:"@ + text::truth(a.hardware) + ", filter:"@
        + text::truth(a.is_filter) + ", alias:\""@;
    text::lemma_stands_between(head, a.alias@, "\"}"@);
}

/// The explanations of a fallback and of an empty table.
pub proof fn a_fallback_is_explained(eligible: Seq<AdapterInfo>, filter: Seq<char>)
    requires
        forall|i: int|
            0 <= i < eligible.len() ==> (#[trigger] eligible[i]).media == MediaState::Unknown,
    ensures
        ({
            let v = conclusion(eligible, filter);
            &&& eligible.len() > 0 && v.up ==> v.reason
                == "no media state reported; falling back to operational status (up)"@
            &&& eligible.len() > 0 && !v.up ==> v.reason
                == "no media state reported and the interface is operationally down"@
            &&& eligible.len() == 0 && filter.len() == 0 ==> v.reason
                == "no usable ethernet adapter found (filter shims are ignored)"@
        }),
{
    let live = |a: AdapterInfo| is_live(a);
    let reported = |a: AdapterInfo| a.media != MediaState::Unknown;
    lists::lemma_first_where(eligible, live);
    if let Some(a) = lists::first_where(eligible, live) {
        let i = choose|i: int| 0 <= i < eligible.len() && eligible[i] == a;
        assert(eligible[i].media == MediaState::Unknown);
    }
    lists::lemma_first_where(eligible, reported);
    if let Some(a) = lists::first_where(eligible, reported) {
        let i = choose|i: int| 0 <= i < eligible.len() && eligible[i] == a;
        assert(eligible[i].media == MediaState::Unknown);
    }
}

/// In a list for the log an adapter is told with its type, its operational state, its media
/// state, and whether it is real hardware or a filter shim.
pub proof fn an_adapter_is_told_with_its_state(a: AdapterInfo)
    ensures
        text::has_text(entry_text(a), "type:"@ + text::decimal(a.if_type as nat)),
        text::has_text(entry_text(a), "up:"@ + text::truth(a.oper_up)),
        text::has_text(entry_text(a), "media:"@ + a.media.name()),
        text::has_text(entry_text(a), "hw:"@ + text::truth(a.hardware)),
        text::has_text(entry_text(a), "filter:"@ + text::truth(a.is_filter)),
{
    reveal_strlit("{type:");
    reveal_strlit("{");
    reveal_strlit("type:");
    reveal_strlit(", up:");
    reveal_strlit(", media:");
    reveal_strlit(", hw:");
    reveal_strlit(", filter:");
    reveal_strlit(", ");
    reveal_strlit("up:");
    reveal_strlit("media:");
    reveal_strlit("hw:");
    reveal_strlit("filter:");
    assert("{type:"@ == "{"@ + "type:"@);
    assert(", up:"@ == ", "@ + "up:"@);
    assert(", media:"@ == ", "@ + "media:"@);
    assert(", hw:"@ == ", "@ + "hw:"@);
    assert(", filter:"@ == ", "@ + "filter:"@);
    lemma_entry_parts(
        text::decimal(a.if_type as nat),
        text::truth(a.oper_up),
        a.media.name(),
        text::truth(a.hardware),
        text::truth(a.is_filter),
        ", alias:\""@ + a.alias@ + "\"}"@,
    );
    assert(entry_text(a) == ("{"@ + "type:"@) + text::decimal(a.if_type as nat) + (", "@ + "up:"@)
        + text::truth(a.oper_up) + (", "@ + "media:"@) + a.media.name() + (", "@ + "hw:"@)
        + text::truth(a.hardware) + (", "@ + "filter:"@) + text::truth(a.is_filter) + (
    ", alias:\""@ + a.alias@ + "\"}"@));
}

proof fn lemma_entry_parts(
    kind: Seq<char>,
    up: Seq<char>,
    media: Seq<char>,
    hw: Seq<char>,
    shim: Seq<char>,
    tail: Seq<char>,
)
    ensures
        ({
            let all = ("{"@ + "type:"@) + kind + (", "@ + "up:"@) + up + (", "@ + "media:"@) + media
                + (", "@ + "hw:"@) + hw + (", "@ + "filter:"@) + shim + tail;
            &&& text::has_text(all, "type:"@ + kind)
            &&& text::has_text(all, "up:"@ + up)
            &&& text::has_text(all, "media:"@ + media)
            &&& text::has_text(all, "hw:"@ + hw)
            &&& text::has_text(all, "filter:"@ + shim)
        }),
{
    let all = ("{"@ + "type:"@) + kind + (", "@ + "up:"@) + up + (", "@ + "media:"@) + media + (", "@
        + "hw:"@) + hw + (", "@ + "filter:"@) + shim + tail;
    let a = "type:"@ + kind;
    let b = "up:"@ + up;
    let c = "media:"@ + media;
    let d = "hw:"@ + hw;
    let e = "filter:"@ + shim;
    let t4 = ", "@ + e + tail;
    let t3 = ", "@ + d + t4;
    let t2 = ", "@ + c + t3;
    let t1 = ", "@ + b + t2;
    assert(all == "{"@ + a + t1);
    text::lemma_stands_between("{"@, a, t1);
    let h1 = "{"@ + a + ", "@;
    assert(all == h1 + b + t2);
    text::lemma_stands_between(h1, b, t2);
    let h2 = h1 + b + ", "@;
    assert(all == h2 + c + t3);
    text::lemma_stands_between(h2, c, t3);
    let h3 = h2 + c + ", "@;
    assert(all == h3 + d + t4);
    text::lemma_stands_between(h3, d, t4);
    let h4 = h3 + d + ", "@;
    assert(all == h4 + e + tail);
    text::lemma_stands_between(h4, e, tail);
}

/// The names of the media states tell them apart.
pub proof fn media_states_are_told_apart(state: MediaState, label: &str)
    requires
        call_ensures(MediaState::label, (state,), label),
    ensures
        state is Connected <==> label@ == "Connected"@,
        state is Disconnected <==> label@ == "Disconnected"@,
        state is Unknown <==> label@ == "Unknown"@,
{
    reveal_strlit("Connected");
    reveal_strlit("Disconnected");
    reveal_strlit("Unknown");
    assert("Connected"@.len() == 9 && "Disconnected"@.len() == 12 && "Unknown"@.len() == 7);
}

/// The list of usable adapters is made row by row: a filter shim adds nothing, any other
/// adapter stands at the end of it.
pub proof fn filter_shims_are_not_listed(
    adapters: &[AdapterInfo],
    out: String,
    more: &[AdapterInfo],
    longer: String,
)
    requires
        call_ensures(describe_candidates, (adapters,), out),
        call_ensures(describe_candidates, (more,), longer),
        more@.len() == adapters@.len() + 1,
        more@.drop_last() == adapters@,
    ensures
        more@.last().is_filter ==> longer@ == out@,
        !more@.last().is_filter ==> text::has_text(longer@, entry_text(more@.last())),
{
    let usable = |a: AdapterInfo| !a.is_filter;
    let last = more@.last();
    assert(more@ == adapters@.push(last));
    lists::lemma_filter_push(adapters@, usable, last);
    if usable(last) {
        let kept = adapters@.filter(usable).push(last);
        lemma_entry_in_list(kept, kept.len() - 1);
        text::lemma_still_stands("["@, entries_text(kept), "]"@, entry_text(last));
    }
}

/// A check lets the service dial only on an adapter that it looked at: one that is no filter
/// shim, operationally up and not disconnected, and that the filter, trimmed and ignoring
/// case, names when there is one.
pub proof fn a_check_dials_on_a_named_adapter_only(
    rows: Vec<InterfaceRow>,
    if_types: &[u32],
    filter: &str,
    status: LinkStatus,
)
    requires
        call_ensures(check, (&Ok::<Vec<InterfaceRow>, u32>(rows), if_types, filter), Ok(status)),
        status.up,
    ensures
        exists|i: int|
            0 <= i < status.adapters@.len() && (#[trigger] status.adapters@[i]).oper_up
                && !status.adapters@[i].is_filter && status.adapters@[i].media
                != MediaState::Disconnected && (text::is_blank(filter@) || text::has_text(
                lowercase(status.adapters@[i].alias@),
                lowercase(text::trimmed(filter@)),
            ) || text::has_text(
                lowercase(status.adapters@[i].description@),
                lowercase(text::trimmed(filter@)),
            ) || lowercase(text::trimmed(filter@)).len() == 0),
{
    let wanted = wanted_text(filter@);
    let views = status.adapters@.map_values(|a: AdapterInfo| folded_of(a));
    let part = eligible(views, wanted);
    assert(status.verdict() == conclusion(part, wanted));
    one_live_adapter_is_enough(part, wanted);
    only_admitted_adapters_take_part(views, wanted);
    let i = if exists|i: int|
        0 <= i < part.len() && (#[trigger] part[i]).media == MediaState::Connected
            && part[i].oper_up {
        choose|i: int|
            0 <= i < part.len() && (#[trigger] part[i]).media == MediaState::Connected
                && part[i].oper_up
    } else {
        choose|i: int| 0 <= i < part.len() && (#[trigger] part[i]).oper_up
    };
    assert(part[i].oper_up && part[i].media != MediaState::Disconnected);
    let k = choose|k: int|
        0 <= k < views.len() && (#[trigger] views[k]).adapter == part[i] && views[k].admitted(
            wanted,
        );
    assert(views[k] == folded_of(status.adapters@[k]));
    assert(status.adapters@[k].oper_up);
}

/// Listing every interface leaves none out and keeps the order; a table that cannot be read,
/// and a notification that cannot be had, is an error.
pub proof fn every_interface_is_listed(
    table: &Result<Vec<InterfaceRow>, u32>,
    out: Result<Vec<AdapterInfo>, Error>,
    rc: u32,
    noticed: Result<(), Error>,
)
    requires
        call_ensures(snapshot_all, (table,), out),
        call_ensures(notify, (rc,), noticed),
    ensures
        out is Ok <==> *table is Ok,
        *table matches Ok(rows) ==> (out matches Ok(adapters) ==> adapters@.len() == rows@.len()
            && forall|i: int|
            0 <= i < rows@.len() ==> (#[trigger] adapters@[i]).if_type == rows@[i].if_type
                && adapters@[i].describes(rows@[i])),
        noticed is Ok <==> rc == 0,
{
}

} // verus!
