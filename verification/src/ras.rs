//! RAS (Remote Access Service): the decisions around dialling, status queries and
//! hanging up, and error code translation.
//!
//! * **No polling.** Connection changes are delivered by a notification for all
//!   connections of the machine; the connection table is only read once per
//!   notification to learn *which* connection changed.
//! * **No connection handle is kept.** Stopping the service leaves the broadband
//!   connection online.
//! * **Credentials never reach the log.** A failed dial reports the error code
//!   only.
//!
//! The system calls themselves are made by the caller, which hands over what they
//! returned. A connection handle is the plain number the system gave out.

use vstd::prelude::*;

use crate::config::DialConfig;
use crate::error::{checked, err, os_err, Error};
use crate::error;
use crate::link::wide_to_string;
use crate::lists;
use crate::text;
use crate::utf16;

verus! {

/// `ERROR_MORE_DATA`: the buffer filled up.
pub const ERROR_MORE_DATA: u32 = 234;

/// `ERROR_BUFFER_TOO_SMALL` of RAS.
pub const ERROR_BUFFER_TOO_SMALL: u32 = 603;

/// `ERROR_CANNOT_FIND_PHONEBOOK_ENTRY`.
pub const ERROR_CANNOT_FIND_PHONEBOOK_ENTRY: u32 = 623;

/// `RASCS_Connected`.
pub const STATE_CONNECTED: u32 = 8192;

/// `WAIT_TIMEOUT`.
pub const WAIT_TIMEOUT: u32 = 258;

/// `RASCN_Connection | RASCN_Disconnection`.
pub const NOTIFY_FLAGS: u32 = 3;

/// Upper bound of buffer growth attempts for enumeration.
pub const MAX_ENUM_ATTEMPTS: u32 = 5;

/// How often a hung up handle is looked at before the wait is given up.
pub const RELEASE_POLLS: u32 = 50;

/// Pause between two looks at a hung up handle.
pub const RELEASE_INTERVAL_MS: u64 = 100;

/// Code units of the entry name field of a dial request, terminator included.
pub const ENTRY_FIELD: usize = 257;

/// Code units of the user name field of a dial request, terminator included.
pub const USER_FIELD: usize = 257;

/// Code units of the password field of a dial request, terminator included.
pub const PASSWORD_FIELD: usize = 257;

/// Code units of the domain field of a dial request, terminator included.
pub const DOMAIN_FIELD: usize = 16;

/// Code units of the device type field of a phone book entry.
pub const DEVICE_TYPE_FIELD: usize = 17;

/// Code units of the device name field of a phone book entry.
pub const DEVICE_NAME_FIELD: usize = 129;

/// `RASET_Broadband`: what a PPPoE entry must be. `RASET_Phone` would produce a
/// dial-up style entry.
pub const ENTRY_TYPE_BROADBAND: u32 = 5;

/// `RASNP_Ip`.
pub const NET_PROTOCOL_IP: u32 = 4;

/// `RASFP_Ppp`.
pub const FRAMING_PPP: u32 = 1;

/// `RASEO_RemoteDefaultGateway`.
pub const OPTION_REMOTE_DEFAULT_GATEWAY: u32 = 16;

/// One entry of the system connection table.
pub struct ConnectionInfo {
    pub entry: String,
    /// Raw `RASCONNSTATE` value.
    pub state: u32,
    pub connected: bool,
    /// Device name, useful when several connections share an entry name.
    pub device: String,
}

impl Clone for ConnectionInfo {
    fn clone(&self) -> (copy: Self)
        ensures
            copy == *self,
    {
        ConnectionInfo {
            entry: self.entry.clone(),
            state: self.state,
            connected: self.connected,
            device: self.device.clone(),
        }
    }
}

/// A connection together with the handle that identifies it.
pub struct Listed {
    pub info: ConnectionInfo,
    pub handle: usize,
    /// The state of the connection could be read.
    pub readable: bool,
}

impl Clone for Listed {
    fn clone(&self) -> (copy: Self)
        ensures
            copy == *self,
    {
        Listed { info: self.info.clone(), handle: self.handle, readable: self.readable }
    }
}

/// Translated RAS error code.
#[derive(Copy, Clone)]
pub struct ErrorInfo {
    pub code: u32,
    pub message: &'static str,
    /// `false` for problems the service cannot fix by trying again
    /// (wrong account, missing phone book entry, ...).
    pub retryable: bool,
}

/// Failure of a RAS call, with the code it returned.
///
/// The message deliberately contains the code only: it is formatted into log
/// records.
#[derive(Debug)]
pub struct RasFailure {
    pub code: u32,
    pub context: &'static str,
}

impl RasFailure {
    /// The text of this failure.
    pub open spec fn said(self) -> Seq<char> {
        self.context@ + " returned error code "@ + text::decimal(self.code as nat)
    }

    /// The text of this failure.
    pub fn message(&self) -> (text: String)
        ensures
            text@ == self.said(),
    {
        let mut text = self.context.to_owned();
        text.append(" returned error code ");
        text.append(text::number(self.code as u64).as_str());
        text
    }
}

/// The RAS error code of an error, when there is one.
pub fn error_code(e: &Error) -> (code: Option<u32>)
    ensures
        code == match *e {
            Error::Ras(failure) => Some(failure.code),
            Error::Message(_) => None,
        },
{
    match e {
        Error::Ras(failure) => Some(failure.code),
        Error::Message(_) => None,
    }
}

/// What has to be done next to hang a connection up and to wait until its port is
/// released.
///
/// The wait matters: exiting the process, or dialling again, immediately after a
/// hang up can leave the PPPoE port in an inconsistent state - which is exactly
/// the "port already open" failure. It is bounded so that a driver that never lets
/// go cannot block the caller forever.
#[derive(Copy, Clone, PartialEq, Eq, Debug, Structural)]
pub enum Release {
    /// Ask RAS to hang the connection up.
    HangUp,
    /// Ask RAS for the state of the handle; `left` looks may still be taken.
    Poll { left: u32 },
    /// Sleep for [`RELEASE_INTERVAL_MS`]; `left` looks may still be taken.
    Pause { left: u32 },
    /// Nothing.
    Over,
}

impl Release {
    /// The step behind this one, given the code that the call of this step
    /// returned.
    pub open spec fn after(self, rc: u32) -> Release {
        match self {
            Release::HangUp => if rc == 0 {
                Release::Poll { left: RELEASE_POLLS }
            } else {
                Release::Over
            },
            Release::Poll { left } => if rc != 0 || left == 0 {
                Release::Over
            } else {
                Release::Pause { left: (left - 1) as u32 }
            },
            Release::Pause { left } => if left == 0 {
                Release::Over
            } else {
                Release::Poll { left }
            },
            Release::Over => Release::Over,
        }
    }

    /// Pauses still to come at most.
    pub open spec fn pauses_left(self) -> nat {
        match self {
            Release::HangUp => RELEASE_POLLS as nat,
            Release::Poll { left } => left as nat,
            Release::Pause { left } => left as nat + 1,
            Release::Over => 0,
        }
    }

    /// Steps still to come at most.
    pub open spec fn steps_left(self) -> nat {
        match self {
            Release::HangUp => 2 * RELEASE_POLLS as nat + 2,
            Release::Poll { left } => 2 * left as nat + 1,
            Release::Pause { left } => 2 * left as nat + 2,
            Release::Over => 0,
        }
    }

    /// First step for the connection with the given handle; there is nothing to
    /// hang up when there is no handle.
    pub fn begin(conn: usize) -> (step: Release)
        ensures
            step == if conn == 0 {
                Release::Over
            } else {
                Release::HangUp
            },
    {
        if conn == 0 {
            Release::Over
        } else {
            Release::HangUp
        }
    }

    /// The step behind this one. A failed hang up ends the matter; any failure to
    /// read the state means that the handle is gone, i.e. the port is free again.
    pub fn next(self, rc: u32) -> (step: Release)
        ensures
            step == self.after(rc),
    {
        match self {
            Release::HangUp => if rc == 0 {
                Release::Poll { left: RELEASE_POLLS }
            } else {
                Release::Over
            },
            Release::Poll { left } => if rc != 0 || left == 0 {
                Release::Over
            } else {
                Release::Pause { left: left - 1 }
            },
            Release::Pause { left } => if left == 0 {
                Release::Over
            } else {
                Release::Poll { left }
            },
            Release::Over => Release::Over,
        }
    }
}

/// Pauses taken from a step on, when the calls return the given codes.
pub open spec fn pauses(step: Release, codes: Seq<u32>) -> nat
    decreases codes.len(),
{
    if codes.len() == 0 {
        0
    } else {
        let here: nat = if step is Pause {
            1
        } else {
            0
        };
        here + pauses(step.after(codes[0]), codes.skip(1))
    }
}

/// The step reached from another one, when the calls return the given codes.
pub open spec fn step_after(step: Release, codes: Seq<u32>) -> Release
    decreases codes.len(),
{
    if codes.len() == 0 {
        step
    } else {
        step_after(step.after(codes[0]), codes.skip(1))
    }
}

proof fn lemma_release(step: Release, codes: Seq<u32>)
    ensures
        pauses(step, codes) <= step.pauses_left(),
        codes.len() >= step.steps_left() ==> step_after(step, codes) is Over,
    decreases codes.len(),
{
    if codes.len() > 0 {
        lemma_release(step.after(codes[0]), codes.skip(1));
    }
}

/// Whatever the system answers, hanging a connection up comes to an end, after at
/// most five seconds of waiting.
pub proof fn the_wait_for_a_release_is_bounded(codes: Seq<u32>)
    ensures
        pauses(Release::HangUp, codes) * RELEASE_INTERVAL_MS <= 5_000,
        codes.len() >= 102 ==> step_after(Release::HangUp, codes) is Over,
{
    lemma_release(Release::HangUp, codes);
}

/// A live RAS connection. The service drops it immediately after a successful
/// dial - only the `dial-once` command keeps it, in order to hang the test
/// connection up again.
#[derive(Debug)]
pub struct Dialed {
    pub conn: usize,
}

impl Dialed {
    /// Hangs the connection up, given what the request to do so returned: either
    /// that failed, or the wait for the release of the port begins.
    ///
    /// Used by the `dial-once` diagnostic command. The service itself only hangs
    /// up failed or stale attempts, so that stopping it keeps the broadband link
    /// online.
    pub fn hang_up(self, rc: u32) -> (out: Result<Release, Error>)
        ensures
            if rc != 0 {
                out matches Err(e) && e is Message && e.said() == error::os_text("RasHangUpW"@, rc)
            } else {
                out == Ok::<Release, Error>(Release::HangUp.after(0))
            },
    {
        match checked("RasHangUpW", rc) {
            Ok(_) => Ok(Release::HangUp.next(0)),
            Err(e) => Err(e),
        }
    }
}

/// The handle that stands for all RAS connections.
pub fn all_connections() -> (conn: usize)
    ensures
        conn == usize::MAX,
{
    usize::MAX
}

/// Judges the registration of the system wide connection notification.
///
/// There is no way to take it back, so it is made exactly once per process
/// lifetime: registering again per dial attempt would leak one registration every
/// time.
pub fn register_connection_notification(rc: u32) -> (out: Result<(), Error>)
    ensures
        if rc != 0 {
            out matches Err(e) && e is Message && e.said() == error::os_text(
                "RasConnectionNotificationW"@,
                rc,
            )
        } else {
            out is Ok
        },
{
    checked("RasConnectionNotificationW", rc)
}

/// A fixed size field after a text was copied into it: cut off where the field
/// ends, with a NUL in its last place when the text reached it.
pub open spec fn copied(dest: Seq<u16>, source: Seq<u16>) -> Seq<u16> {
    Seq::new(
        dest.len(),
        |i: int|
            if i >= source.len() {
                dest[i]
            } else if i == dest.len() - 1 {
                0
            } else {
                source[i]
            },
    )
}

/// A NUL terminated text.
pub open spec fn terminated(s: Seq<char>) -> Seq<u16> {
    utf16::encoded(s).push(0)
}

/// A zeroed field of `width` code units into which a text was copied.
pub open spec fn field(width: nat, s: Seq<char>) -> Seq<u16> {
    copied(Seq::new(width, |i: int| 0u16), terminated(s))
}

/// Converts a text to a NUL terminated UTF-16 buffer.
pub fn to_wide(text: &str) -> (units: Vec<u16>)
    ensures
        units@ == terminated(text@),
{
    let mut units = utf16::encode(text);
    units.push(0);
    units
}

/// Copies `source` into a fixed size UTF-16 field, truncating if necessary and
/// always keeping the terminating NUL. Nothing fits into an empty field.
pub fn copy_to_buf(dest: &mut [u16], source: &[u16])
    ensures
        final(dest)@ == copied(old(dest)@, source@),
{
    let ghost before = dest@;
    let len: usize = if source.len() < dest.len() {
        source.len()
    } else {
        dest.len()
    };
    let mut i: usize = 0;
    while i < len
        invariant
            i <= len,
            len <= dest@.len(),
            len <= source@.len(),
            dest@.len() == before.len(),
            forall|j: int| 0 <= j < i ==> dest@[j] == source@[j],
            forall|j: int| i <= j < dest@.len() ==> dest@[j] == before[j],
        decreases len - i,
    {
        dest[i] = source[i];
        i += 1;
    }
    if len > 0 && len == dest.len() {
        dest[len - 1] = 0;
    }
    assert(dest@ == copied(before, source@));
}

fn new_field(width: usize, text: &str) -> (units: Vec<u16>)
    ensures
        units@ == field(width as nat, text@),
{
    let wide = to_wide(text);
    let mut units: Vec<u16> = Vec::new();
    let mut i: usize = 0;
    while i < width
        invariant
            i <= width,
            units@ == field(width as nat, text@).take(i as int),
            wide@ == terminated(text@),
        decreases width - i,
    {
        if i >= wide.len() || i == width - 1 {
            units.push(0);
        } else {
            units.push(wide[i]);
        }
        i += 1;
        assert(units@ == field(width as nat, text@).take(i as int));
    }
    assert(units@ == field(width as nat, text@));
    units
}

/// A field always ends in a NUL.
pub proof fn a_field_is_always_terminated(width: nat, s: Seq<char>)
    requires
        width > 0,
    ensures
        field(width, s).len() == width,
        field(width, s).last() == 0,
{
}

/// A text without a NUL that fits into a field reads back from it unchanged.
pub proof fn a_field_reads_back(width: nat, s: Seq<char>)
    requires
        !s.contains('\0'),
        utf16::encoded(s).len() < width,
    ensures
        utf16::decoded(utf16::before_nul(field(width, s))) == s,
{
    let units = utf16::encoded(s);
    let tail = Seq::new((width - units.len()) as nat, |i: int| 0u16);
    assert(field(width, s) == units + tail);
    utf16::lemma_terminated(s, tail);
    utf16::lemma_no_nul(s);
    utf16::decoding_undoes_encoding(s);
}

/// Milliseconds as the wait functions of the system take them.
pub fn duration_to_millis(millis: u128) -> (out: u32)
    ensures
        out == if millis > u32::MAX {
            u32::MAX as int
        } else {
            millis as int
        },
{
    if millis > u32::MAX as u128 {
        u32::MAX
    } else {
        millis as u32
    }
}

/// The phone book to use; `None` is the default one of the account the process
/// runs as.
pub fn phone_book(cfg: &DialConfig) -> (out: Option<Vec<u16>>)
    ensures
        if text::is_blank(cfg.pbk_path@) {
            out is None
        } else {
            out matches Some(units) && units@ == terminated(cfg.pbk_path@)
        },
{
    if text::blank(cfg.pbk_path.as_str()) {
        None
    } else {
        Some(to_wide(cfg.pbk_path.as_str()))
    }
}

/// What a dial attempt hands to RAS.
pub struct DialRequest {
    pub entry: Vec<u16>,
    pub user: Vec<u16>,
    pub password: Vec<u16>,
    pub domain: Vec<u16>,
    pub phone_book: Option<Vec<u16>>,
    /// Deadline of the watchdog.
    pub timeout_ms: u32,
}

/// Prepares a dial attempt that a watchdog aborts after `timeout_millis`.
pub fn dial_request(cfg: &DialConfig, timeout_millis: u128) -> (request: DialRequest)
    ensures
        request.entry@ == field(ENTRY_FIELD as nat, cfg.entry_name@),
        request.user@ == field(USER_FIELD as nat, cfg.username@),
        request.password@ == field(PASSWORD_FIELD as nat, cfg.password@),
        request.domain@ == field(DOMAIN_FIELD as nat, cfg.domain@),
        if text::is_blank(cfg.pbk_path@) {
            request.phone_book is None
        } else {
            request.phone_book matches Some(units) && units@ == terminated(cfg.pbk_path@)
        },
        request.timeout_ms == if timeout_millis > u32::MAX {
            u32::MAX as int
        } else {
            timeout_millis as int
        },
{
    DialRequest {
        entry: new_field(ENTRY_FIELD, cfg.entry_name.as_str()),
        user: new_field(USER_FIELD, cfg.username.as_str()),
        password: new_field(PASSWORD_FIELD, cfg.password.as_str()),
        domain: new_field(DOMAIN_FIELD, cfg.domain.as_str()),
        phone_book: phone_book(cfg),
        timeout_ms: duration_to_millis(timeout_millis),
    }
}

/// `true` when the watchdog's wait for the end of the dial ran into the deadline,
/// so that the attempt has to be cancelled.
///
/// The watchdog deliberately does **not** watch the stop event of the service:
/// stopping the service must not tear down a connection that is just being
/// established.
pub fn watchdog_fires(rc: u32) -> (yes: bool)
    ensures
        yes == (rc == WAIT_TIMEOUT),
{
    rc == WAIT_TIMEOUT
}

/// What a finished dial call came to.
pub struct DialOutcome {
    pub result: Result<Dialed, Error>,
    /// What has to be done about the handle that came back.
    pub release: Release,
}

/// Judges a dial attempt by the code and the handle that came back.
///
/// RAS hands back a handle even when the dial fails, and it has to be hung up
/// then. Without this the PPPoE port stays half open and every later attempt for
/// this entry is rejected until the RAS manager is restarted. The handle of a
/// successful dial is not touched.
pub fn dial(rc: u32, conn: usize) -> (outcome: DialOutcome)
    ensures
        if rc == 0 {
            outcome.result == Ok::<Dialed, Error>((Dialed { conn })) && outcome.release is Over
        } else {
            &&& outcome.result matches Err(Error::Ras(failure))
            &&& failure.code == rc
            &&& failure.context@ == "RasDialW"@
            &&& outcome.release == if conn == 0 {
                Release::Over
            } else {
                Release::HangUp
            }
        },
{
    if rc != 0 {
        DialOutcome {
            result: Err(Error::Ras(RasFailure { code: rc, context: "RasDialW" })),
            release: Release::begin(conn),
        }
    } else {
        DialOutcome { result: Ok(Dialed { conn }), release: Release::Over }
    }
}

/// One row of the connection table, as the system reports it.
pub struct RasRow {
    pub handle: usize,
    /// NUL terminated UTF-16.
    pub entry: Vec<u16>,
    /// NUL terminated UTF-16.
    pub device: Vec<u16>,
    /// State of the connection, when it could be read.
    pub state: Option<u32>,
}

/// State of a connection, given what the query for it returned.
pub fn connection_state(rc: u32, state: i32) -> (out: Option<u32>)
    ensures
        out == if rc != 0 {
            None
        } else {
            Some(state as u32)
        },
{
    if rc != 0 {
        None
    } else {
        Some(#[verifier::truncate] (state as u32))
    }
}

impl Listed {
    /// This is what the row of the table says. A connection whose state could not
    /// be read is not shown as connected.
    pub open spec fn describes(self, row: RasRow) -> bool {
        &&& self.handle == row.handle
        &&& self.readable == (row.state is Some)
        &&& self.info.entry@ == utf16::decoded(utf16::before_nul(row.entry@))
        &&& self.info.device@ == utf16::decoded(utf16::before_nul(row.device@))
        &&& self.info.state == match row.state {
            Some(state) => state,
            None => 0,
        }
        &&& self.info.connected == (self.info.state == STATE_CONNECTED)
    }
}

/// How many rows of the connection table are filled: `count`, or as many as there
/// are.
pub fn filled_rows(count: u32, rows: usize) -> (n: usize)
    ensures
        n == if count < rows {
            count as int
        } else {
            rows as int
        },
{
    if (count as u64) < rows as u64 {
        count as usize
    } else {
        rows
    }
}

/// Reads the filled rows of the connection table.
pub fn collect(rows: &[RasRow], count: u32) -> (out: Vec<Listed>)
    ensures
        out@.len() == if count < rows@.len() {
            count as nat
        } else {
            rows@.len()
        },
        forall|i: int| 0 <= i < out@.len() ==> (#[trigger] out@[i]).describes(rows@[i]),
{
    let limit = filled_rows(count, rows.len());
    let mut out: Vec<Listed> = Vec::new();
    let mut i: usize = 0;
    while i < limit
        invariant
            i <= limit <= rows@.len(),
            out@.len() == i,
            forall|j: int| 0 <= j < i ==> (#[trigger] out@[j]).describes(rows@[j]),
        decreases limit - i,
    {
        let row = &rows[i];
        let state = match row.state {
            Some(state) => state,
            None => 0,
        };
        let info = ConnectionInfo {
            entry: wide_to_string(row.entry.as_slice()),
            state,
            connected: state == STATE_CONNECTED,
            device: wide_to_string(row.device.as_slice()),
        };
        out.push(Listed { info, handle: row.handle, readable: row.state.is_some() });
        i += 1;
    }
    out
}

/// Reading the connection table: the buffer is sized from the value RAS reports
/// for no buffer at all, and it may still be too small on the next call, because
/// connections come and go.
pub struct Enumeration {
    /// Bytes to make room for.
    pub needed: u32,
    /// Size of one row in bytes.
    pub entry_size: u32,
    /// Attempts left, the next one included.
    pub left: u32,
}

impl Enumeration {
    /// Judges the call without a buffer: no connection at all (`None`), or rows to
    /// fetch.
    pub fn probed(rc: u32, needed: u32, entry_size: u32) -> (out: Result<
        Option<Enumeration>,
        Error,
    >)
        ensures
            if rc == 0 {
                out == Ok::<Option<Enumeration>, Error>(None)
            } else if rc != ERROR_BUFFER_TOO_SMALL {
                out matches Err(e) && e is Message && e.said() == error::os_text(
                    "RasEnumConnectionsW"@,
                    rc,
                )
            } else {
                out == Ok::<Option<Enumeration>, Error>(
                    Some(
                        (Enumeration {
                            needed: if needed < entry_size {
                                entry_size
                            } else {
                                needed
                            },
                            entry_size,
                            left: MAX_ENUM_ATTEMPTS,
                        }),
                    ),
                )
            },
    {
        if rc == 0 {
            return Ok(None);
        }
        if rc != ERROR_BUFFER_TOO_SMALL {
            return Err(os_err("RasEnumConnectionsW", rc));
        }
        let needed = if needed < entry_size {
            entry_size
        } else {
            needed
        };
        Ok(Some(Enumeration { needed, entry_size, left: MAX_ENUM_ATTEMPTS }))
    }

    /// Rows to make room for: what is needed, and one more.
    pub fn capacity(&self) -> (rows: u64)
        requires
            self.entry_size > 0,
        ensures
            rows == self.needed / self.entry_size + 1,
            rows * self.entry_size > self.needed,
    {
        proof {
            let n = self.needed as int;
            let d = self.entry_size as int;
            assert((n / d + 1) * d > n) by (nonlinear_arith)
                requires
                    d > 0,
            ;
        }
        (self.needed / self.entry_size) as u64 + 1
    }

    /// Size of the buffer in bytes as it is told to RAS, in 32 bits.
    pub fn buffer_bytes(&self) -> (bytes: u32)
        requires
            self.entry_size > 0,
        ensures
            bytes == ((self.needed / self.entry_size + 1) * self.entry_size) as u32,
    {
        let rows = self.capacity();
        proof {
            let n = self.needed as int;
            let d = self.entry_size as int;
            assert((n / d + 1) * d <= n + d) by (nonlinear_arith)
                requires
                    d > 0,
            ;
        }
        let bytes: u64 = rows * self.entry_size as u64;
        #[verifier::truncate]
        (bytes as u32)
    }

    /// Judges a call with a buffer: `true` when the rows are there, `false` when
    /// the call has to be made again with a larger buffer. `reported` is the size
    /// RAS asked for.
    pub fn fetched(&mut self, rc: u32, reported: u32) -> (out: Result<bool, Error>)
        ensures
            final(self).entry_size == old(self).entry_size,
            if rc == 0 {
                out == Ok::<bool, Error>(true) && *final(self) == *old(self)
            } else if rc == ERROR_BUFFER_TOO_SMALL || rc == ERROR_MORE_DATA {
                &&& final(self).left == if old(self).left > 0 {
                    old(self).left - 1
                } else {
                    0
                }
                &&& final(self).needed >= reported
                &&& final(self).needed >= old(self).needed
                &&& final(self).needed == {
                    let doubled = if 2 * old(self).needed > u32::MAX {
                        u32::MAX as int
                    } else {
                        2 * old(self).needed
                    };
                    if reported > doubled {
                        reported as int
                    } else {
                        doubled
                    }
                }
                &&& if final(self).left == 0 {
                    out matches Err(e) && e is Message && e.said()
                        == "RasEnumConnectionsW: buffer still too small after retries"@
                } else {
                    out == Ok::<bool, Error>(false)
                }
            } else {
                &&& *final(self) == *old(self)
                &&& out matches Err(e)
                &&& e is Message
                &&& e.said() == error::os_text("RasEnumConnectionsW"@, rc)
            },
    {
        if rc == 0 {
            return Ok(true);
        }
        if rc == ERROR_BUFFER_TOO_SMALL || rc == ERROR_MORE_DATA {
            let doubled: u32 = if self.needed > u32::MAX / 2 {
                u32::MAX
            } else {
                self.needed * 2
            };
            self.needed = if reported > doubled {
                reported
            } else {
                doubled
            };
            self.left = self.left.saturating_sub(1);
            if self.left == 0 {
                return Err(err("RasEnumConnectionsW: buffer still too small after retries"));
            }
            return Ok(false);
        }
        Err(os_err("RasEnumConnectionsW", rc))
    }
}

/// The connections of a table, without their handles.
pub open spec fn infos(table: Seq<Listed>) -> Seq<ConnectionInfo> {
    table.map_values(|l: Listed| l.info)
}

/// The connections currently known to RAS.
pub fn list_connections(table: Result<Vec<Listed>, Error>) -> (out: Result<
    Vec<ConnectionInfo>,
    Error,
>)
    ensures
        match table {
            Ok(rows) => out matches Ok(list) && list@ == infos(rows@),
            Err(e) => out == Err::<Vec<ConnectionInfo>, Error>(e),
        },
{
    match table {
        Err(e) => Err(e),
        Ok(rows) => {
            let mut list: Vec<ConnectionInfo> = Vec::new();
            let mut i: usize = 0;
            while i < rows.len()
                invariant
                    i <= rows@.len(),
                    list@ == infos(rows@).take(i as int),
                decreases rows@.len() - i,
            {
                list.push(rows[i].info.clone());
                i += 1;
                assert(list@ == infos(rows@).take(i as int));
            }
            assert(list@ == infos(rows@));
            Ok(list)
        },
    }
}

/// The connection belongs to the entry. RAS takes no notice of the case of entry
/// names.
pub open spec fn belongs_to(info: ConnectionInfo, entry_name: Seq<char>) -> bool {
    text::ascii_lower(info.entry@) == text::ascii_lower(entry_name)
}

/// The connection is the one of the entry, and online.
pub open spec fn is_online(info: ConnectionInfo, entry_name: Seq<char>) -> bool {
    info.connected && belongs_to(info, entry_name)
}

/// A connection is a *stale attempt* when it belongs to the entry but never
/// reached the `Connected` state: a dial that was interrupted (for example by
/// the cable being unplugged mid negotiation) or cancelled by the watchdog.
pub open spec fn is_stale(info: ConnectionInfo, entry_name: Seq<char>) -> bool {
    !info.connected && belongs_to(info, entry_name)
}

/// A connection of the entry is online.
pub open spec fn any_online(connections: Seq<ConnectionInfo>, entry_name: Seq<char>) -> bool {
    exists|i: int| 0 <= i < connections.len() && is_online(#[trigger] connections[i], entry_name)
}

fn has_online(connections: &Vec<ConnectionInfo>, entry_name: &str) -> (yes: bool)
    ensures
        yes == any_online(connections@, entry_name@),
{
    let mut i: usize = 0;
    while i < connections.len()
        invariant
            i <= connections@.len(),
            forall|j: int| 0 <= j < i ==> !is_online(#[trigger] connections@[j], entry_name@),
        decreases connections@.len() - i,
    {
        let info = &connections[i];
        if info.connected && text::same_ignoring_case(info.entry.as_str(), entry_name) {
            assert(is_online(connections@[i as int], entry_name@));
            return true;
        }
        i += 1;
    }
    false
}

/// `Ok(true)` when a connection of that name is currently in the `Connected`
/// state.
pub fn is_connected(connections: Result<Vec<ConnectionInfo>, Error>, entry_name: &str) -> (out:
    Result<bool, Error>)
    ensures
        match connections {
            Ok(list) => out == Ok::<bool, Error>(any_online(list@, entry_name@)),
            Err(e) => out == Err::<bool, Error>(e),
        },
{
    match connections {
        Err(e) => Err(e),
        Ok(list) => Ok(has_online(&list, entry_name)),
    }
}

/// `true` when the connection is a stale attempt of the entry.
pub fn is_stale_attempt(info: &ConnectionInfo, entry_name: &str) -> (yes: bool)
    ensures
        yes == is_stale(*info, entry_name@),
{
    !info.connected && text::same_ignoring_case(info.entry.as_str(), entry_name)
}

/// The connection is known to be a stale attempt. One whose state could not be read
/// may be a working link.
pub open spec fn is_abortable(l: Listed, entry_name: Seq<char>) -> bool {
    l.readable && is_stale(l.info, entry_name)
}

/// The stale attempts in a connection table.
pub open spec fn stale_attempts(table: Seq<Listed>, entry_name: Seq<char>) -> Seq<Listed> {
    table.filter(|l: Listed| is_abortable(l, entry_name))
}

/// Every connection of the entry that is known not to have reached the `Connected`
/// state, to be hung up.
///
/// This is the way out of "a dial operation is already in progress": a dial that
/// was interrupted leaves the PPPoE port busy, and every later attempt for the
/// same entry is rejected until something hangs the stale attempt up. Only
/// connections that are *not* online are touched, so a working broadband link is
/// never dropped.
pub fn abort_stale_attempts(table: Result<Vec<Listed>, Error>, entry_name: &str) -> (out: Result<
    Vec<Listed>,
    Error,
>)
    ensures
        match table {
            Ok(rows) => out matches Ok(list) && list@ == stale_attempts(rows@, entry_name@),
            Err(e) => out == Err::<Vec<Listed>, Error>(e),
        },
{
    match table {
        Err(e) => Err(e),
        Ok(rows) => {
            let ghost stale = |l: Listed| is_abortable(l, entry_name@);
            let mut list: Vec<Listed> = Vec::new();
            let mut i: usize = 0;
            assert(rows@.take(0).filter(stale) == Seq::<Listed>::empty()) by {
                reveal(Seq::filter);
            }
            while i < rows.len()
                invariant
                    i <= rows@.len(),
                    stale == (|l: Listed| is_abortable(l, entry_name@)),
                    list@ == rows@.take(i as int).filter(stale),
                decreases rows@.len() - i,
            {
                proof {
                    lists::lemma_filter_push(rows@.take(i as int), stale, rows@[i as int]);
                    assert(rows@.take(i + 1) == rows@.take(i as int).push(rows@[i as int]));
                }
                if rows[i].readable && is_stale_attempt(&rows[i].info, entry_name) {
                    list.push(rows[i].clone());
                }
                i += 1;
            }
            assert(rows@.take(rows@.len() as int) == rows@);
            Ok(list)
        },
    }
}

/// Aborting stale attempts takes hold of connections of the entry only, never of
/// one that is online or may be, and of every attempt that is known to be stale.
pub proof fn only_stale_attempts_are_aborted(table: Seq<Listed>, entry_name: Seq<char>, l: Listed)
    ensures
        stale_attempts(table, entry_name).contains(l) <==> table.contains(l) && l.readable
            && !l.info.connected && belongs_to(l.info, entry_name),
        stale_attempts(table, entry_name).contains(l) ==> !is_online(l.info, entry_name),
{
    let stale = |l: Listed| is_abortable(l, entry_name);
    lists::lemma_filter_members(table, stale);
    if table.contains(l) && stale(l) {
        lists::lemma_filter_keeps(table, stale, l);
    }
}

/// The hang ups that worked. Each code is what RAS returned, or `None` where there
/// was no handle to hang up.
pub open spec fn hung_up(codes: Seq<Option<u32>>) -> Seq<Option<u32>> {
    codes.filter(|code: Option<u32>| code == Some(0u32))
}

/// How many stale attempts were aborted, given what hanging each of them up
/// returned. An attempt that could not be hung up does not count: it still keeps
/// the port busy.
pub fn aborted_count(codes: &[Option<u32>]) -> (count: usize)
    ensures
        count == hung_up(codes@).len(),
        count <= codes@.len(),
{
    let ghost worked = |code: Option<u32>| code == Some(0u32);
    let mut count: usize = 0;
    let mut i: usize = 0;
    assert(codes@.take(0).filter(worked) == Seq::<Option<u32>>::empty()) by {
        reveal(Seq::filter);
    }
    while i < codes.len()
        invariant
            i <= codes.len(),
            count <= i,
            worked == (|code: Option<u32>| code == Some(0u32)),
            count == codes@.take(i as int).filter(worked).len(),
        decreases codes@.len() - i,
    {
        proof {
            lists::lemma_filter_push(codes@.take(i as int), worked, codes@[i as int]);
            assert(codes@.take(i + 1) == codes@.take(i as int).push(codes@[i as int]));
        }
        match codes[i] {
            Some(code) => {
                if code == 0 {
                    count += 1;
                }
            },
            None => {},
        }
        i += 1;
    }
    assert(codes@.take(codes@.len() as int) == codes@);
    count
}

/// Record for a stale attempt that is being hung up.
pub open spec fn abort_text(info: ConnectionInfo) -> Seq<char> {
    "aborting a stale dial attempt: entry=\""@ + info.entry@ + "\" device=\""@ + info.device@
        + "\" state="@ + text::decimal(info.state as nat)
}

/// Record for a stale attempt that is being hung up.
pub fn abort_notice(info: &ConnectionInfo) -> (out: String)
    ensures
        out@ == abort_text(*info),
{
    let mut out = "aborting a stale dial attempt: entry=\"".to_owned();
    out.append(info.entry.as_str());
    out.append("\" device=\"");
    out.append(info.device.as_str());
    out.append("\" state=");
    out.append(text::number(info.state as u64).as_str());
    out
}

/// One connection in a compact list.
pub open spec fn connection_text(info: ConnectionInfo) -> Seq<char> {
    "{entry:\""@ + info.entry@ + "\", device:\""@ + info.device@ + "\", state:"@ + text::decimal(
        info.state as nat,
    ) + ", connected:"@ + text::truth(info.connected) + "}"@
}

/// The connections in a compact list, separated by commas.
pub open spec fn connections_text(connections: Seq<ConnectionInfo>) -> Seq<char>
    decreases connections.len(),
{
    if connections.len() == 0 {
        Seq::empty()
    } else if connections.len() == 1 {
        connection_text(connections[0])
    } else {
        connections_text(connections.drop_last()) + ", "@ + connection_text(connections.last())
    }
}

fn write_connection(out: &mut String, info: &ConnectionInfo)
    ensures
        final(out)@ == old(out)@ + connection_text(*info),
{
    let mut item = "{entry:\"".to_owned();
    item.append(info.entry.as_str());
    item.append("\", device:\"");
    item.append(info.device.as_str());
    item.append("\", state:");
    item.append(text::number(info.state as u64).as_str());
    item.append(", connected:");
    item.append(text::flag(info.connected).as_str());
    item.append("}");
    out.append(item.as_str());
}

/// Compact description of a connection table for log records: only the entry
/// name, the device and the state of each.
pub fn describe_connections(connections: &[ConnectionInfo]) -> (out: String)
    ensures
        out@ == "["@ + connections_text(connections@) + "]"@,
{
    let mut out = "[".to_owned();
    let mut i: usize = 0;
    assert(out@ == "["@ + connections_text(connections@.take(0)));
    while i < connections.len()
        invariant
            i <= connections@.len(),
            out@ == "["@ + connections_text(connections@.take(i as int)),
        decreases connections@.len() - i,
    {
        let ghost so_far = connections_text(connections@.take(i as int));
        assert(connections@.take(i + 1).drop_last() == connections@.take(i as int));
        if i > 0 {
            out.append(", ");
        }
        write_connection(&mut out, &connections[i]);
        proof {
            let item = connection_text(connections@[i as int]);
            if i > 0 {
                assert("["@ + so_far + ", "@ + item == "["@ + (so_far + ", "@ + item));
            } else {
                assert(connections@.take(1)[0] == connections@[0]);
                assert("["@ + so_far + item == "["@ + item);
            }
        }
        i += 1;
    }
    assert(connections@.take(connections@.len() as int) == connections@);
    out.append("]");
    out
}

/// The PPPoE template of a phone book entry.
pub struct EntryTemplate {
    pub entry_type: u32,
    pub net_protocols: u32,
    pub framing_protocol: u32,
    pub options: u32,
    pub country_id: u32,
    pub country_code: u32,
    pub device_type: Vec<u16>,
    pub device_name: Vec<u16>,
}

impl EntryTemplate {
    /// A broadband entry whose device is the PPPoE WAN miniport, negotiating
    /// TCP/IP over PPP. The field set mirrors what the Windows "Broadband (PPPoE)"
    /// wizard writes.
    ///
    /// `OPTION_REMOTE_DEFAULT_GATEWAY` routes traffic through the new connection.
    /// LCP extensions stay enabled (the flag of the interface is inverted),
    /// compression stays off, the address is server assigned, and the credentials
    /// are given with each dial.
    pub open spec fn is_pppoe(self) -> bool {
        &&& self.entry_type == ENTRY_TYPE_BROADBAND
        &&& self.net_protocols == NET_PROTOCOL_IP
        &&& self.framing_protocol == FRAMING_PPP
        &&& self.options == OPTION_REMOTE_DEFAULT_GATEWAY
        &&& self.country_id == 1
        &&& self.country_code == 1
        &&& self.device_type@ == field(DEVICE_TYPE_FIELD as nat, "PPPoE"@)
        &&& self.device_name@ == field(DEVICE_NAME_FIELD as nat, "WAN Miniport (PPPOE)"@)
    }
}

fn entry_template() -> (template: EntryTemplate)
    ensures
        template.is_pppoe(),
{
    EntryTemplate {
        entry_type: ENTRY_TYPE_BROADBAND,
        net_protocols: NET_PROTOCOL_IP,
        framing_protocol: FRAMING_PPP,
        options: OPTION_REMOTE_DEFAULT_GATEWAY,
        country_id: 1,
        country_code: 1,
        device_type: new_field(DEVICE_TYPE_FIELD, "PPPoE"),
        device_name: new_field(DEVICE_NAME_FIELD, "WAN Miniport (PPPOE)"),
    }
}

/// Makes sure of the phone book entry, given what the probe for it returned:
/// `Ok(None)` when the entry exists, otherwise the template to create it from.
///
/// The probe asks only for the required size, so "the buffer is too small" proves
/// that the entry exists: RAS got far enough to know how much space it needs.
///
/// This is the default deployment path, because a service has a phone book of its
/// own that does not contain the broadband connection created on the desktop.
pub fn ensure_entry(probe: u32) -> (out: Result<Option<EntryTemplate>, Error>)
    ensures
        if probe == 0 || probe == ERROR_BUFFER_TOO_SMALL {
            out == Ok::<Option<EntryTemplate>, Error>(None)
        } else if probe == ERROR_CANNOT_FIND_PHONEBOOK_ENTRY {
            out matches Ok(Some(template)) && template.is_pppoe()
        } else {
            out matches Err(e) && e is Message && e.said() == error::os_text(
                "RasGetEntryPropertiesW"@,
                probe,
            )
        },
{
    if probe == 0 || probe == ERROR_BUFFER_TOO_SMALL {
        return Ok(None);
    }
    if probe != ERROR_CANNOT_FIND_PHONEBOOK_ENTRY {
        return Err(os_err("RasGetEntryPropertiesW", probe));
    }
    Ok(Some(entry_template()))
}

/// Judges the creation of the phone book entry; `Ok(true)` says that an entry was
/// created.
pub fn entry_created(rc: u32) -> (out: Result<bool, Error>)
    ensures
        if rc == 0 {
            out == Ok::<bool, Error>(true)
        } else {
            out matches Err(e) && e is Message && e.said() == error::os_text(
                "RasSetEntryPropertiesW"@,
                rc,
            )
        },
{
    match checked("RasSetEntryPropertiesW", rc) {
        Ok(_) => Ok(true),
        Err(e) => Err(e),
    }
}

/// What an error code means.
pub open spec fn error_text(code: u32) -> Seq<char> {
    if code == 600 {
        "an operation is still in progress"@
    } else if code == 603 {
        "the supplied buffer was too small"@
    } else if code == 621 {
        "the phone book could not be opened (check dial.pbk_path)"@
    } else if code == 622 {
        "the phone book could not be loaded (check dial.pbk_path)"@
    } else if code == 623 {
        "the phone book entry was not found (check dial.entry_name / dial.pbk_path)"@
    } else if code == 624 {
        "the phone book could not be updated (check file permissions)"@
    } else if code == 628 {
        "the connection was disconnected"@
    } else if code == 629 {
        "the connection was closed by the remote computer"@
    } else if code == 638 {
        "the request timed out"@
    } else if code == 651 {
        "the modem or network adapter reported an error"@
    } else if code == 676 {
        "the line is busy"@
    } else if code == 678 {
        "there was no answer (is the cable connected?)"@
    } else if code == 691 {
        "authentication failed - check the account or password"@
    } else if code == 720 {
        "PPP negotiation failed"@
    } else if code == 739 {
        "saved logon credentials cannot be used"@
    } else if code == 756 {
        "a dial operation is already in progress"@
    } else if code == 775 {
        "the call was blocked by the remote computer"@
    } else {
        "unknown RAS error"@
    }
}

/// Dialling again may help. It does not where the phone book or the account is
/// wrong.
pub open spec fn is_retryable(code: u32) -> bool {
    !(621 <= code <= 624 || code == 691 || code == 739)
}

/// Translates a RAS error code into a message and a retry recommendation.
pub fn describe_error(code: u32) -> (info: ErrorInfo)
    ensures
        info.code == code,
        info.message@ == error_text(code),
        info.retryable == is_retryable(code),
{
    let (message, retryable) = match code {
        600 => ("an operation is still in progress", true),
        603 => ("the supplied buffer was too small", true),
        621 => ("the phone book could not be opened (check dial.pbk_path)", false),
        622 => ("the phone book could not be loaded (check dial.pbk_path)", false),
        623 => (
            "the phone book entry was not found (check dial.entry_name / dial.pbk_path)",
            false,
        ),
        624 => ("the phone book could not be updated (check file permissions)", false),
        628 => ("the connection was disconnected", true),
        629 => ("the connection was closed by the remote computer", true),
        638 => ("the request timed out", true),
        651 => ("the modem or network adapter reported an error", true),
        676 => ("the line is busy", true),
        678 => ("there was no answer (is the cable connected?)", true),
        691 => ("authentication failed - check the account or password", false),
        720 => ("PPP negotiation failed", true),
        739 => ("saved logon credentials cannot be used", false),
        756 => ("a dial operation is already in progress", true),
        775 => ("the call was blocked by the remote computer", true),
        _ => ("unknown RAS error", true),
    };
    ErrorInfo { code, message, retryable }
}

/// The connection table tells a connection online exactly when one of that very name,
/// letter by letter up to ASCII case, is in the connected state. Another connection never
/// makes it so, whatever its name has in common with it.
pub proof fn only_a_connection_of_that_name_counts(
    list: Vec<ConnectionInfo>,
    entry_name: &str,
    out: Result<bool, Error>,
)
    requires
        call_ensures(is_connected, (Ok(list), entry_name), out),
    ensures
        out is Ok,
        out->Ok_0 <==> exists|i: int|
            0 <= i < list@.len() && (#[trigger] list@[i]).connected && list@[i].entry@.len()
                == entry_name@.len() && forall|k: int|
                0 <= k < entry_name@.len() ==> text::same_letter(
                    list@[i].entry@[k],
                    #[trigger] entry_name@[k],
                ),
{
    let name = entry_name@;
    assert forall|i: int| 0 <= i < list@.len() implies (is_online(#[trigger] list@[i], name)
        <==> list@[i].connected && list@[i].entry@.len() == name.len() && forall|k: int|
        0 <= k < name.len() ==> text::same_letter(list@[i].entry@[k], #[trigger] name[k])) by {
        lemma_named(list@[i], name);
    }
    if any_online(list@, name) {
        let i = choose|i: int| 0 <= i < list@.len() && is_online(#[trigger] list@[i], name);
        assert(list@[i].connected && list@[i].entry@.len() == name.len());
    }
}

/// A connection table that could not be read says nothing: its error is handed on.
pub proof fn an_unread_table_is_no_answer(
    e: Error,
    entry_name: &str,
    online: Result<bool, Error>,
    list: Result<Vec<ConnectionInfo>, Error>,
    stale: Result<Vec<Listed>, Error>,
)
    requires
        call_ensures(is_connected, (Err(e), entry_name), online),
        call_ensures(list_connections, (Err(e),), list),
        call_ensures(abort_stale_attempts, (Err(e), entry_name), stale),
    ensures
        online == Err::<bool, Error>(e),
        list == Err::<Vec<ConnectionInfo>, Error>(e),
        stale == Err::<Vec<Listed>, Error>(e),
{
}

proof fn lemma_named(info: ConnectionInfo, name: Seq<char>)
    ensures
        belongs_to(info, name) <==> info.entry@.len() == name.len() && forall|k: int|
            0 <= k < name.len() ==> text::same_letter(info.entry@[k], #[trigger] name[k]),
        is_online(info, name) <==> info.connected && info.entry@.len() == name.len() && forall|k: int|
            0 <= k < name.len() ==> text::same_letter(info.entry@[k], #[trigger] name[k]),
        is_stale(info, name) <==> !info.connected && info.entry@.len() == name.len() && forall|k: int|
            0 <= k < name.len() ==> text::same_letter(info.entry@[k], #[trigger] name[k]),
{
    text::texts_are_compared_letter_by_letter(info.entry@, name);
    if info.entry@.len() == name.len() {
        if forall|k: int| 0 <= k < name.len() ==> text::same_letter(
            info.entry@[k],
            #[trigger] name[k],
        ) {
            assert forall|k: int| 0 <= k < info.entry@.len() implies text::same_letter(
                #[trigger] info.entry@[k],
                name[k],
            ) by {
                assert(text::same_letter(info.entry@[k], name[k]));
            }
        }
    }
}

/// A stale attempt is a connection of that very name, letter by letter up to ASCII case,
/// that is not connected. One connection is never both stale and online.
pub proof fn a_stale_attempt_has_that_name(info: &ConnectionInfo, entry_name: &str, yes: bool)
    requires
        call_ensures(is_stale_attempt, (info, entry_name), yes),
    ensures
        yes <==> !info.connected && info.entry@.len() == entry_name@.len() && forall|k: int|
            0 <= k < entry_name@.len() ==> text::same_letter(
                info.entry@[k],
                #[trigger] entry_name@[k],
            ),
{
    lemma_named(*info, entry_name@);
}

/// What is hung up, row by row of the table: a connection of that very name is, where its
/// state could be read and is not connected; every other one is left alone. The order of
/// the table is kept.
pub proof fn one_more_connection_is_hung_up_or_left_alone(
    table: Seq<Listed>,
    row: Listed,
    name: Seq<char>,
)
    ensures
        stale_attempts(Seq::empty(), name) == Seq::<Listed>::empty(),
        stale_attempts(table.push(row), name) == if row.readable && !row.info.connected
            && row.info.entry@.len() == name.len() && (forall|k: int|
            0 <= k < name.len() ==> text::same_letter(row.info.entry@[k], #[trigger] name[k])) {
            stale_attempts(table, name).push(row)
        } else {
            stale_attempts(table, name)
        },
{
    let stale = |l: Listed| is_abortable(l, name);
    lists::lemma_filter_push(table, stale, row);
    lemma_named(row.info, name);
    assert(Seq::<Listed>::empty().filter(stale) == Seq::<Listed>::empty()) by {
        reveal(Seq::filter);
    }
}

/// The executable functions hand out those rows, and the connections of the table one for
/// one.
pub proof fn the_table_is_handed_out_in_order(
    rows: Vec<Listed>,
    entry_name: &str,
    stale: Result<Vec<Listed>, Error>,
    list: Result<Vec<ConnectionInfo>, Error>,
)
    requires
        call_ensures(abort_stale_attempts, (Ok(rows), entry_name), stale),
        call_ensures(list_connections, (Ok(rows),), list),
    ensures
        stale matches Ok(attempts) && attempts@ == stale_attempts(rows@, entry_name@),
        list matches Ok(all) && all@.len() == rows@.len() && forall|i: int|
            0 <= i < rows@.len() ==> #[trigger] all@[i] == rows@[i].info,
{
}

/// A row of the connection table is connected exactly in the state 8192; one whose state
/// could not be read is not. A name that was written into the row reads back.
pub proof fn a_connection_is_online_in_one_state(
    l: Listed,
    row: RasRow,
    name: Seq<char>,
    tail: Seq<u16>,
)
    requires
        l.describes(row),
    ensures
        l.info.connected <==> row.state == Some(8192u32),
        l.readable <==> row.state is Some,
        l.handle == row.handle,
        row.state matches Some(state) ==> l.info.state == state,
        tail.len() > 0 && tail[0] == 0 && !name.contains('\0') ==> {
            &&& row.entry@ == utf16::encoded(name) + tail ==> l.info.entry@ == name
            &&& row.device@ == utf16::encoded(name) + tail ==> l.info.device@ == name
        },
{
    if tail.len() > 0 && tail[0] == 0 && !name.contains('\0') {
        utf16::lemma_terminated(name, tail);
        utf16::lemma_no_nul(name);
        utf16::decoding_undoes_encoding(name);
    }
}

/// Of the rows that the system filled, each is read, in order, and no other.
pub proof fn every_filled_row_is_read(rows: &[RasRow], count: u32, out: Vec<Listed>, n: usize)
    requires
        call_ensures(collect, (rows, count), out),
        call_ensures(filled_rows, (count, rows@.len() as usize), n),
        rows@.len() <= usize::MAX,
    ensures
        out@.len() == n,
        n <= count && n <= rows@.len(),
        n == count || n == rows@.len(),
        forall|i: int| 0 <= i < n ==> (#[trigger] out@[i]).handle == rows@[i].handle,
        forall|i: int| 0 <= i < n ==> (#[trigger] out@[i]).describes(rows@[i]),
{
}

/// The state of a connection is known exactly where the query for it worked.
pub proof fn a_failed_query_gives_no_state(rc: u32, state: i32, out: Option<u32>)
    requires
        call_ensures(connection_state, (rc, state), out),
    ensures
        out is Some <==> rc == 0,
        rc == 0 && state >= 0 ==> out == Some(state as u32),
{
}

proof fn lemma_zeros(step: Release, codes: Seq<u32>)
    requires
        forall|i: int| 0 <= i < codes.len() ==> #[trigger] codes[i] == 0,
        codes.len() >= step.steps_left(),
    ensures
        pauses(step, codes) == step.pauses_left(),
    decreases codes.len(),
{
    if codes.len() > 0 {
        let rest = codes.skip(1);
        assert(codes[0] == 0);
        assert forall|i: int| 0 <= i < rest.len() implies #[trigger] rest[i] == 0 by {
            assert(rest[i] == codes[i + 1]);
        }
        lemma_zeros(step.after(codes[0]), rest);
    }
}

/// As long as a handle that was hung up is still there it is waited for, up to the whole
/// five seconds.
pub proof fn a_busy_port_is_waited_for(codes: Seq<u32>)
    requires
        codes.len() >= 102,
        forall|i: int| 0 <= i < codes.len() ==> #[trigger] codes[i] == 0,
    ensures
        pauses(Release::HangUp, codes) * RELEASE_INTERVAL_MS == 5_000,
{
    lemma_zeros(Release::HangUp, codes);
}

/// Nothing is hung up without a handle. A hang up that failed, and a handle that is gone,
/// end the matter; every step in between alternates a look and a pause.
pub proof fn a_release_goes_step_by_step(
    conn: usize,
    first: Release,
    step: Release,
    rc: u32,
    next: Release,
)
    requires
        call_ensures(Release::begin, (conn,), first),
        call_ensures(Release::next, (step, rc), next),
    ensures
        first is HangUp <==> conn != 0,
        first is Over <==> conn == 0,
        step is HangUp && rc != 0 ==> next is Over,
        step is HangUp && rc == 0 ==> next is Poll,
        step is Poll && rc != 0 ==> next is Over,
        step matches Release::Poll { left } ==> (rc == 0 && left > 0 ==> next == (Release::Pause {
            left: (left - 1) as u32,
        })),
        step matches Release::Pause { left } ==> (left > 0 ==> next == (Release::Poll { left })),
        step is Over ==> next is Over,
        !(next is HangUp),
{
}

/// A dial is judged by its code alone. The handle of a failed dial is hung up, the one of
/// a successful dial is handed out and never touched; a failure carries the code.
pub proof fn only_a_failed_dial_is_hung_up(rc: u32, conn: usize, outcome: DialOutcome)
    requires
        call_ensures(dial, (rc, conn), outcome),
    ensures
        outcome.result is Ok <==> rc == 0,
        outcome.result matches Ok(dialed) ==> dialed.conn == conn,
        outcome.result matches Err(e) ==> (e matches Error::Ras(failure) && failure.code == rc),
        outcome.release is HangUp <==> rc != 0 && conn != 0,
        outcome.release is Over <==> rc == 0 || conn == 0,
{
}

/// Hanging a connection up fails exactly where the system says so; otherwise the release
/// of the port is waited for.
pub proof fn a_hang_up_is_waited_for(dialed: Dialed, rc: u32, out: Result<Release, Error>)
    requires
        call_ensures(Dialed::hang_up, (dialed, rc), out),
    ensures
        out is Ok <==> rc == 0,
        out matches Ok(step) ==> step is Poll,
        out matches Err(e) ==> text::has_text(e.said(), text::decimal(rc as nat)),
{
    if rc != 0 {
        let head = "RasHangUpW"@ + " failed with error code "@;
        let none = Seq::<char>::empty();
        assert(head + text::decimal(rc as nat) + none == error::os_text("RasHangUpW"@, rc));
        text::lemma_stands_between(head, text::decimal(rc as nat), none);
    }
}

/// A field holds the beginning of the text, as far as it reaches, and nothing but NULs
/// behind it; a text that is too long is cut off, not left out.
pub proof fn a_field_holds_what_fits(width: nat, s: Seq<char>, i: int)
    requires
        0 <= i < width,
    ensures
        field(width, s)[i] == if i < utf16::encoded(s).len() && i < width - 1 {
            utf16::encoded(s)[i]
        } else {
            0u16
        },
{
}

/// Copying into a field keeps its length, writes the source from the front, leaves what
/// the source does not reach, and ends in a NUL where the source fills the field.
pub proof fn copying_stays_inside_the_field(dest: Seq<u16>, source: Seq<u16>)
    ensures
        copied(dest, source).len() == dest.len(),
        forall|i: int|
            0 <= i < dest.len() - 1 && i < source.len() ==> #[trigger] copied(dest, source)[i]
                == source[i],
        forall|i: int|
            source.len() <= i < dest.len() ==> #[trigger] copied(dest, source)[i] == dest[i],
        0 < dest.len() <= source.len() ==> copied(dest, source).last() == 0,
{
}

/// A dial hands over the entry, the account, the password and the domain of the
/// configuration, each in its own field: what fits reads back unchanged.
pub proof fn a_dial_hands_over_the_configured_account(
    cfg: &DialConfig,
    timeout_millis: u128,
    request: DialRequest,
)
    requires
        call_ensures(dial_request, (cfg, timeout_millis), request),
    ensures
        request.entry@.len() == 257 && request.user@.len() == 257 && request.password@.len() == 257
            && request.domain@.len() == 16,
        !cfg.entry_name@.contains('\0') && utf16::encoded(cfg.entry_name@).len() < 257
            ==> utf16::decoded(utf16::before_nul(request.entry@)) == cfg.entry_name@,
        !cfg.username@.contains('\0') && utf16::encoded(cfg.username@).len() < 257
            ==> utf16::decoded(utf16::before_nul(request.user@)) == cfg.username@,
        !cfg.password@.contains('\0') && utf16::encoded(cfg.password@).len() < 257
            ==> utf16::decoded(utf16::before_nul(request.password@)) == cfg.password@,
        !cfg.domain@.contains('\0') && utf16::encoded(cfg.domain@).len() < 16 ==> utf16::decoded(
            utf16::before_nul(request.domain@),
        ) == cfg.domain@,
        request.phone_book is None <==> text::is_blank(cfg.pbk_path@),
        request.timeout_ms <= timeout_millis,
        timeout_millis <= 0xFFFF_FFFF ==> request.timeout_ms == timeout_millis,
        timeout_millis > 0xFFFF_FFFF ==> request.timeout_ms == 0xFFFF_FFFF,
{
    if !cfg.entry_name@.contains('\0') && utf16::encoded(cfg.entry_name@).len() < 257 {
        a_field_reads_back(257, cfg.entry_name@);
    }
    if !cfg.username@.contains('\0') && utf16::encoded(cfg.username@).len() < 257 {
        a_field_reads_back(257, cfg.username@);
    }
    if !cfg.password@.contains('\0') && utf16::encoded(cfg.password@).len() < 257 {
        a_field_reads_back(257, cfg.password@);
    }
    if !cfg.domain@.contains('\0') && utf16::encoded(cfg.domain@).len() < 16 {
        a_field_reads_back(16, cfg.domain@);
    }
}

/// A phone book is named exactly where the configuration names one, and by its path.
pub proof fn the_configured_phone_book_is_used(cfg: &DialConfig, out: Option<Vec<u16>>)
    requires
        call_ensures(phone_book, (cfg,), out),
        !cfg.pbk_path@.contains('\0'),
    ensures
        out is None <==> text::is_blank(cfg.pbk_path@),
        out matches Some(units) ==> utf16::decoded(utf16::before_nul(units@)) == cfg.pbk_path@,
{
    crate::link::a_wide_text_reads_back(cfg.pbk_path@);
}

/// The watchdog cancels a dial exactly when its wait ran into the deadline.
pub proof fn the_watchdog_fires_at_the_deadline(rc: u32, yes: bool)
    requires
        call_ensures(watchdog_fires, (rc,), yes),
    ensures
        yes <==> rc == 258,
{
}

/// Reading the connection table: no connection needs no buffer; a buffer has room for
/// more than what was asked for; every further try asks for at least twice as much and
/// for what the system asked for, and the tries come to an end.
pub proof fn a_buffer_grows_until_the_tries_end(
    rc: u32,
    needed: u32,
    entry_size: u32,
    probed: Result<Option<Enumeration>, Error>,
    e: &mut Enumeration,
    code: u32,
    reported: u32,
    out: Result<bool, Error>,
)
    requires
        call_ensures(Enumeration::probed, (rc, needed, entry_size), probed),
        call_ensures(Enumeration::fetched, (e, code, reported), out),
    ensures
        probed is Ok <==> rc == 0 || rc == 603,
        probed matches Ok(None) <==> rc == 0,
        probed matches Ok(Some(begun)) ==> begun.needed >= needed && begun.needed >= entry_size && (
        begun.needed == needed || begun.needed == entry_size) && begun.entry_size == entry_size
            && begun.left == 5,
        out == Ok::<bool, Error>(true) <==> code == 0,
        code == 0 || (code != 603 && code != 234) ==> *final(e) == *old(e),
        code != 0 && code != 603 && code != 234 ==> out is Err,
        code == 603 || code == 234 ==> {
            &&& final(e).entry_size == old(e).entry_size
            &&& final(e).needed >= reported
            &&& final(e).needed >= 2 * old(e).needed || final(e).needed == u32::MAX
            &&& final(e).needed == reported || final(e).needed == 2 * old(e).needed || final(e).needed
                == u32::MAX
            &&& old(e).left > 0 ==> final(e).left == old(e).left - 1
            &&& out is Err <==> old(e).left <= 1
        },
{
}

/// A hang up that worked counts, any other does not.
pub proof fn one_more_hang_up_counts_where_it_worked(codes: Seq<Option<u32>>, code: Option<u32>)
    ensures
        hung_up(Seq::empty()).len() == 0,
        hung_up(codes.push(code)).len() == hung_up(codes).len() + if code == Some(0u32) {
            1int
        } else {
            0int
        },
{
    let worked = |code: Option<u32>| code == Some(0u32);
    lists::lemma_filter_push(codes, worked, code);
    assert(Seq::<Option<u32>>::empty().filter(worked) == Seq::<Option<u32>>::empty()) by {
        reveal(Seq::filter);
    }
}

/// A phone book entry is created exactly where it is missing: an entry that is there is
/// kept, and any other answer is an error. A new one is a broadband entry for PPPoE.
pub proof fn only_a_missing_entry_is_created(
    probe: u32,
    out: Result<Option<EntryTemplate>, Error>,
    rc: u32,
    created: Result<bool, Error>,
)
    requires
        call_ensures(ensure_entry, (probe,), out),
        call_ensures(entry_created, (rc,), created),
    ensures
        out matches Ok(None) <==> probe == 0 || probe == 603,
        out matches Ok(Some(_)) <==> probe == 623,
        out is Err <==> probe != 0 && probe != 603 && probe != 623,
        out matches Ok(Some(template)) ==> template.entry_type == 5 && template.net_protocols == 4
            && template.framing_protocol == 1 && template.options == 16,
        created is Ok <==> rc == 0,
        created matches Ok(yes) ==> yes,
{
}

/// Dialling again is worth it but for six codes: those of a phone book that cannot be
/// read, found or written, of a wrong account and of saved credentials. A code without a
/// text of its own is told as unknown, and tried again.
pub proof fn six_codes_are_not_worth_a_retry(code: u32, info: ErrorInfo)
    requires
        call_ensures(describe_error, (code,), info),
    ensures
        info.code == code,
        !info.retryable <==> code == 621 || code == 622 || code == 623 || code == 624 || code == 691
            || code == 739,
        info.message@ != "unknown RAS error"@ <==> code == 600 || code == 603 || code == 621 || code == 622 || code == 623 || code == 624 || code == 628 || code == 629 || code == 638 || code == 651 || code == 676 || code == 678 || code == 691 || code == 720 || code == 739 || code == 756 || code == 775,
{
    reveal_strlit("unknown RAS error");
    assert("unknown RAS error"@.len() == 17);
    reveal_strlit("an operation is still in progress");
    assert("an operation is still in progress"@.len() == 33);
    reveal_strlit("the supplied buffer was too small");
    assert("the supplied buffer was too small"@.len() == 33);
    reveal_strlit("the phone book could not be opened (check dial.pbk_path)");
    assert("the phone book could not be opened (check dial.pbk_path)"@.len() == 56);
    reveal_strlit("the phone book could not be loaded (check dial.pbk_path)");
    assert("the phone book could not be loaded (check dial.pbk_path)"@.len() == 56);
    reveal_strlit("the phone book entry was not found (check dial.entry_name / dial.pbk_path)");
    assert("the phone book entry was not found (check dial.entry_name / dial.pbk_path)"@.len() == 74);
    reveal_strlit("the phone book could not be updated (check file permissions)");
    assert("the phone book could not be updated (check file permissions)"@.len() == 60);
    reveal_strlit("the connection was disconnected");
    assert("the connection was disconnected"@.len() == 31);
    reveal_strlit("the connection was closed by the remote computer");
    assert("the connection was closed by the remote computer"@.len() == 48);
    reveal_strlit("the request timed out");
    assert("the request timed out"@.len() == 21);
    reveal_strlit("the modem or network adapter reported an error");
    assert("the modem or network adapter reported an error"@.len() == 46);
    reveal_strlit("the line is busy");
    assert("the line is busy"@.len() == 16);
    reveal_strlit("there was no answer (is the cable connected?)");
    assert("there was no answer (is the cable connected?)"@.len() == 45);
    reveal_strlit("authentication failed - check the account or password");
    assert("authentication failed - check the account or password"@.len() == 53);
    reveal_strlit("PPP negotiation failed");
    assert("PPP negotiation failed"@.len() == 22);
    reveal_strlit("saved logon credentials cannot be used");
    assert("saved logon credentials cannot be used"@.len() == 38);
    reveal_strlit("a dial operation is already in progress");
    assert("a dial operation is already in progress"@.len() == 39);
    reveal_strlit("the call was blocked by the remote computer");
    assert("the call was blocked by the remote computer"@.len() == 43);
}

/// The code of an error is the one that RAS returned; a plain message has none.
pub proof fn a_code_is_never_made_up(e: &Error, code: Option<u32>)
    requires
        call_ensures(error_code, (e,), code),
    ensures
        code is Some <==> *e is Ras,
        *e matches Error::Ras(failure) ==> code == Some(failure.code),
{
}

/// A list of connections for the log tells of each of them, with its entry and its
/// device.
pub proof fn every_connection_is_told(connections: Seq<ConnectionInfo>, i: int)
    requires
        0 <= i < connections.len(),
    ensures
        text::has_text(connections_text(connections), connection_text(connections[i])),
        text::has_text(connection_text(connections[i]), connections[i].entry@),
        text::has_text(connection_text(connections[i]), connections[i].device@),
    decreases connections.len(),
{
    let info = connections[i];
    let item = connection_text(info);
    let none = Seq::<char>::empty();
    let tail = "\", state:"@ + text::decimal(info.state as nat) + ", connected:"@ + text::truth(
        info.connected,
    ) + "}"@;
    let behind = "\", device:\""@ + info.device@ + tail;
    assert(item == "{entry:\""@ + info.entry@ + behind);
    text::lemma_stands_between("{entry:\""@, info.entry@, behind);
    let front = "{entry:\""@ + info.entry@ + "\", device:\""@;
    assert(item == front + info.device@ + tail);
    text::lemma_stands_between(front, info.device@, tail);
    if connections.len() == 1 {
        assert(none + item + none == item);
        text::lemma_stands_between(none, item, none);
    } else if i == connections.len() - 1 {
        let head = connections_text(connections.drop_last()) + ", "@;
        assert(head + item + none == connections_text(connections));
        text::lemma_stands_between(head, item, none);
    } else {
        every_connection_is_told(connections.drop_last(), i);
        let rest = connections_text(connections.drop_last());
        text::a_text_stands_between_what_surrounds_it(rest, item);
        let (before, after) = choose|before: Seq<char>, after: Seq<char>|
            rest == #[trigger] (before + item + after);
        let last = after + ", "@ + connection_text(connections.last());
        assert(connections_text(connections) == before + item + last);
        text::lemma_stands_between(before, item, last);
    }
}

/// A connection is told with its state and whether it is connected, in the list as well as
/// where it is hung up.
pub proof fn a_connection_is_told_with_its_state(info: &ConnectionInfo, notice: String)
    requires
        call_ensures(abort_notice, (info,), notice),
    ensures
        text::has_text(
            connection_text(*info),
            "state:"@ + text::decimal(info.state as nat) + ", connected:"@ + text::truth(
                info.connected,
            ),
        ),
        text::has_text(notice@, "entry=\""@ + info.entry@ + "\""@),
        text::has_text(notice@, "device=\""@ + info.device@ + "\""@),
        text::has_text(notice@, "state="@ + text::decimal(info.state as nat)),
{
    reveal_strlit("\", state:");
    reveal_strlit("\", ");
    reveal_strlit("state:");
    assert("\", state:"@ == "\", "@ + "state:"@);
    let none = Seq::<char>::empty();
    let state = text::decimal(info.state as nat);
    let shown = "state:"@ + state + ", connected:"@ + text::truth(info.connected);
    let head = "{entry:\""@ + info.entry@ + "\", device:\""@ + info.device@ + "\", "@;
    assert(connection_text(*info) == head + shown + "}"@);
    text::lemma_stands_between(head, shown, "}"@);
    reveal_strlit("aborting a stale dial attempt: entry=\"");
    reveal_strlit("aborting a stale dial attempt: ");
    reveal_strlit("entry=\"");
    reveal_strlit("\" device=\"");
    reveal_strlit("\"");
    reveal_strlit(" ");
    reveal_strlit("device=\"");
    reveal_strlit("\" state=");
    reveal_strlit("state=");
    assert("aborting a stale dial attempt: entry=\""@ == "aborting a stale dial attempt: "@
        + "entry=\""@);
    assert("\" device=\""@ == "\""@ + " "@ + "device=\""@);
    assert("\" state="@ == "\""@ + " "@ + "state="@);
    let entry = "entry=\""@ + info.entry@ + "\""@;
    let device = "device=\""@ + info.device@ + "\""@;
    let last = "state="@ + state;
    let first = "aborting a stale dial attempt: "@;
    let tail = " "@ + last;
    let behind = " "@ + device + tail;
    assert(notice@ == first + entry + behind);
    text::lemma_stands_between(first, entry, behind);
    let front = first + entry + " "@;
    assert(notice@ == front + device + tail);
    text::lemma_stands_between(front, device, tail);
    assert(notice@ == (front + device + " "@) + last + none);
    text::lemma_stands_between(front + device + " "@, last, none);
}

/// The notifications are asked for all connections, and failing to get them is an error that
/// tells the code.
pub proof fn notifications_are_asked_for_all_connections(
    conn: usize,
    rc: u32,
    out: Result<(), Error>,
)
    requires
        call_ensures(all_connections, (), conn),
        call_ensures(register_connection_notification, (rc,), out),
    ensures
        conn == usize::MAX,
        out is Ok <==> rc == 0,
{
}

/// A duration is told to the system in milliseconds and never wraps around.
pub proof fn a_duration_never_wraps(millis: u128, out: u32)
    requires
        call_ensures(duration_to_millis, (millis,), out),
    ensures
        millis <= 0xFFFF_FFFF ==> out == millis,
        millis > 0xFFFF_FFFF ==> out == 0xFFFF_FFFF,
{
}

/// The message of an error tells its code: each of the known codes has a message of its own.
pub proof fn a_message_tells_its_code(code: u32, info: ErrorInfo)
    requires
        call_ensures(describe_error, (code,), info),
    ensures
        info.message@ == "an operation is still in progress"@ <==> code == 600,
        info.message@ == "the supplied buffer was too small"@ <==> code == 603,
        info.message@ == "the phone book could not be opened (check dial.pbk_path)"@ <==> code == 621,
        info.message@ == "the phone book could not be loaded (check dial.pbk_path)"@ <==> code == 622,
        info.message@ == "the phone book entry was not found (check dial.entry_name / dial.pbk_path)"@ <==> code == 623,
        info.message@ == "the phone book could not be updated (check file permissions)"@ <==> code == 624,
        info.message@ == "the connection was disconnected"@ <==> code == 628,
        info.message@ == "the connection was closed by the remote computer"@ <==> code == 629,
        info.message@ == "the request timed out"@ <==> code == 638,
        info.message@ == "the modem or network adapter reported an error"@ <==> code == 651,
        info.message@ == "the line is busy"@ <==> code == 676,
        info.message@ == "there was no answer (is the cable connected?)"@ <==> code == 678,
        info.message@ == "authentication failed - check the account or password"@ <==> code == 691,
        info.message@ == "PPP negotiation failed"@ <==> code == 720,
        info.message@ == "saved logon credentials cannot be used"@ <==> code == 739,
        info.message@ == "a dial operation is already in progress"@ <==> code == 756,
        info.message@ == "the call was blocked by the remote computer"@ <==> code == 775,
{
    reveal_strlit("an operation is still in progress");
    assert("an operation is still in progress"@.len() == 33);
    reveal_strlit("the supplied buffer was too small");
    assert("the supplied buffer was too small"@.len() == 33);
    reveal_strlit("the phone book could not be opened (check dial.pbk_path)");
    assert("the phone book could not be opened (check dial.pbk_path)"@.len() == 56);
    reveal_strlit("the phone book could not be loaded (check dial.pbk_path)");
    assert("the phone book could not be loaded (check dial.pbk_path)"@.len() == 56);
    reveal_strlit("the phone book entry was not found (check dial.entry_name / dial.pbk_path)");
    assert("the phone book entry was not found (check dial.entry_name / dial.pbk_path)"@.len() == 74);
    reveal_strlit("the phone book could not be updated (check file permissions)");
    assert("the phone book could not be updated (check file permissions)"@.len() == 60);
    reveal_strlit("the connection was disconnected");
    assert("the connection was disconnected"@.len() == 31);
    reveal_strlit("the connection was closed by the remote computer");
    assert("the connection was closed by the remote computer"@.len() == 48);
    reveal_strlit("the request timed out");
    assert("the request timed out"@.len() == 21);
    reveal_strlit("the modem or network adapter reported an error");
    assert("the modem or network adapter reported an error"@.len() == 46);
    reveal_strlit("the line is busy");
    assert("the line is busy"@.len() == 16);
    reveal_strlit("there was no answer (is the cable connected?)");
    assert("there was no answer (is the cable connected?)"@.len() == 45);
    reveal_strlit("authentication failed - check the account or password");
    assert("authentication failed - check the account or password"@.len() == 53);
    reveal_strlit("PPP negotiation failed");
    assert("PPP negotiation failed"@.len() == 22);
    reveal_strlit("saved logon credentials cannot be used");
    assert("saved logon credentials cannot be used"@.len() == 38);
    reveal_strlit("a dial operation is already in progress");
    assert("a dial operation is already in progress"@.len() == 39);
    reveal_strlit("the call was blocked by the remote computer");
    assert("the call was blocked by the remote computer"@.len() == 43);
    reveal_strlit("unknown RAS error");
    assert("unknown RAS error"@.len() == 17);
    assert("an operation is still in progress"@[0] == 'a');
    assert("the supplied buffer was too small"@[0] == 't');
    assert("the phone book could not be opened (check dial.pbk_path)"@[28] == 'o');
    assert("the phone book could not be loaded (check dial.pbk_path)"@[28] == 'l');
}

} // verus!
