//! Log records: levels, rotation, retention and the credential guard.
//!
//! Every record passes through a credential guard: the configured broadband
//! user name and password are replaced by `***` before reaching any sink, so a
//! careless record can never leak them.
//!
//! Writing to the console, to the file and to the event log is left to the
//! caller; everything here decides what is written where.

use vstd::prelude::*;

use crate::lists;
use crate::text;

verus! {

/// Placeholder written instead of any configured credential.
pub const MASK: &'static str = "***";

/// Credentials shorter than this are not searched for in log records: a very
/// short secret only risks mangling unrelated text.
pub const MIN_SECRET_LEN: usize = 3;

/// `EVENTLOG_ERROR_TYPE`.
pub const EVENT_TYPE_ERROR: u16 = 1;

/// `EVENTLOG_WARNING_TYPE`.
pub const EVENT_TYPE_WARNING: u16 = 2;

/// `EVENTLOG_INFORMATION_TYPE`.
pub const EVENT_TYPE_INFORMATION: u16 = 4;

/// Severity of a record, most severe first. A record is emitted when it is at
/// least as severe as the configured level.
#[derive(Copy, Clone, Debug, PartialEq, Eq, PartialOrd, Ord, Structural)]
pub enum Level {
    Error,
    Warn,
    Info,
    Debug,
    Trace,
}

impl Level {
    /// Position in the order of severity; `Error` comes first.
    pub open spec fn position(self) -> nat {
        match self {
            Level::Error => 0,
            Level::Warn => 1,
            Level::Info => 2,
            Level::Debug => 3,
            Level::Trace => 4,
        }
    }

    /// The level a `[log] level` value names, ignoring case and the white space
    /// around it.
    pub open spec fn of_name(name: Seq<char>) -> Option<Level> {
        let n = text::ascii_lower(text::trimmed(name));
        if n == "error"@ {
            Some(Level::Error)
        } else if n == "warn"@ || n == "warning"@ {
            Some(Level::Warn)
        } else if n == "info"@ {
            Some(Level::Info)
        } else if n == "debug"@ {
            Some(Level::Debug)
        } else if n == "trace"@ {
            Some(Level::Trace)
        } else {
            None
        }
    }

    /// Label of the file and console sinks, five characters wide.
    pub open spec fn label_text(self) -> Seq<char> {
        match self {
            Level::Error => "ERROR"@,
            Level::Warn => "WARN "@,
            Level::Info => "INFO "@,
            Level::Debug => "DEBUG"@,
            Level::Trace => "TRACE"@,
        }
    }

    /// Name of the level.
    pub open spec fn name_text(self) -> Seq<char> {
        match self {
            Level::Error => "Error"@,
            Level::Warn => "Warn"@,
            Level::Info => "Info"@,
            Level::Debug => "Debug"@,
            Level::Trace => "Trace"@,
        }
    }

    /// Position in the order of severity; `Error` comes first.
    pub fn rank(self) -> (r: u32)
        ensures
            r == self.position(),
    {
        match self {
            Level::Error => 0,
            Level::Warn => 1,
            Level::Info => 2,
            Level::Debug => 3,
            Level::Trace => 4,
        }
    }

    /// Whether a record of this level passes the configured level.
    pub fn passes(self, configured: Level) -> (yes: bool)
        ensures
            yes == (self.position() <= configured.position()),
    {
        self.rank() <= configured.rank()
    }

    /// Parses a `[log] level` value from the configuration file.
    pub fn parse(name: &str) -> (level: Option<Level>)
        ensures
            level == Level::of_name(name@),
    {
        let bare = text::trim(name);
        let n = text::to_lower(bare.as_str());
        if text::same(n.as_str(), "error") {
            Some(Level::Error)
        } else if text::same(n.as_str(), "warn") || text::same(n.as_str(), "warning") {
            Some(Level::Warn)
        } else if text::same(n.as_str(), "info") {
            Some(Level::Info)
        } else if text::same(n.as_str(), "debug") {
            Some(Level::Debug)
        } else if text::same(n.as_str(), "trace") {
            Some(Level::Trace)
        } else {
            None
        }
    }

    /// Fixed width label used in the file and console sinks.
    pub fn label(self) -> (out: &'static str)
        ensures
            out@ == self.label_text(),
    {
        match self {
            Level::Error => "ERROR",
            Level::Warn => "WARN ",
            Level::Info => "INFO ",
            Level::Debug => "DEBUG",
            Level::Trace => "TRACE",
        }
    }

    /// Name of the level.
    pub fn name(self) -> (out: &'static str)
        ensures
            out@ == self.name_text(),
    {
        match self {
            Level::Error => "Error",
            Level::Warn => "Warn",
            Level::Info => "Info",
            Level::Debug => "Debug",
            Level::Trace => "Trace",
        }
    }

    /// Event log type of a record of this level.
    pub fn event_type(self) -> (kind: u16)
        ensures
            kind == match self {
                Level::Error => EVENT_TYPE_ERROR,
                Level::Warn => EVENT_TYPE_WARNING,
                _ => EVENT_TYPE_INFORMATION,
            },
    {
        match self {
            Level::Error => EVENT_TYPE_ERROR,
            Level::Warn => EVENT_TYPE_WARNING,
            _ => EVENT_TYPE_INFORMATION,
        }
    }

    /// Default event id when the caller does not provide one.
    pub fn event_id(self) -> (id: u32)
        ensures
            id == 1000 + self.position(),
    {
        1000 + self.rank()
    }
}

/// File rotation policy.
#[derive(Copy, Clone, Debug, PartialEq, Eq, Structural)]
pub enum Rotation {
    /// One file per day, for example `pppoe.log.2026-09-15`.
    Daily,
    /// A single, ever growing file, for example `pppoe.log`.
    Never,
}

impl Rotation {
    /// The policy a `[log] rotation` value names, ignoring case and the white
    /// space around it.
    pub open spec fn of_name(name: Seq<char>) -> Option<Rotation> {
        let n = text::ascii_lower(text::trimmed(name));
        if n == "daily"@ {
            Some(Rotation::Daily)
        } else if n == "never"@ {
            Some(Rotation::Never)
        } else {
            None
        }
    }

    /// Parses a `[log] rotation` value from the configuration file.
    pub fn parse(name: &str) -> (rotation: Option<Rotation>)
        ensures
            rotation == Rotation::of_name(name@),
    {
        let bare = text::trim(name);
        let n = text::to_lower(bare.as_str());
        if text::same(n.as_str(), "daily") {
            Some(Rotation::Daily)
        } else if text::same(n.as_str(), "never") {
            Some(Rotation::Never)
        } else {
            None
        }
    }
}

// ---------------------------------------------------------------------------
// Credential guard
// ---------------------------------------------------------------------------

/// The text with every occurrence of `secret` replaced by the mask, from left to
/// right and without overlaps.
pub open spec fn masked(s: Seq<char>, secret: Seq<char>) -> Seq<char>
    decreases s.len(),
{
    if secret.len() == 0 || s.len() < secret.len() {
        s
    } else if text::begins_with(s, secret) {
        MASK@ + masked(s.skip(secret.len() as int), secret)
    } else {
        seq![s[0]] + masked(s.skip(1), secret)
    }
}

/// The text after every secret has been masked, one after the other.
pub open spec fn redacted(s: Seq<char>, secrets: Seq<Seq<char>>) -> Seq<char>
    decreases secrets.len(),
{
    if secrets.len() == 0 {
        s
    } else {
        masked(redacted(s, secrets.drop_last()), secrets.last())
    }
}

/// `true` when masking the secrets one after the other replaces anything.
pub open spec fn leaks(s: Seq<char>, secrets: Seq<Seq<char>>) -> bool
    decreases secrets.len(),
{
    secrets.len() > 0 && (leaks(s, secrets.drop_last()) || text::has_text(
        redacted(s, secrets.drop_last()),
        secrets.last(),
    ))
}

/// A secret the mask cannot be taken for a part of: it neither begins nor ends
/// with `*`, and the mask does not stand inside it.
pub open spec fn unlike_mask(secret: Seq<char>) -> bool {
    &&& secret.len() > 0
    &&& secret[0] != '*'
    &&& secret.last() != '*'
    &&& !text::has_text(secret, MASK@)
}

/// Replaces every occurrence of `secret` by the mask.
fn mask(source: &str, secret: &str) -> (out: String)
    requires
        secret@.len() > 0,
    ensures
        out@ == masked(source@, secret@),
{
    let chars = text::chars_of(source);
    let part = text::chars_of(secret);
    let mut out = String::new();
    let mut i: usize = 0;
    assert(chars@.skip(0) == chars@);
    assert(out@ + masked(chars@, part@) == masked(chars@, part@));
    while i < chars.len()
        invariant
            i <= chars.len(),
            part@.len() > 0,
            part@ == secret@,
            out@ + masked(chars@.skip(i as int), part@) == masked(chars@, part@),
        decreases chars@.len() - i,
    {
        let ghost rest = chars@.skip(i as int);
        let ghost before = out@;
        assert(text::occurs_at(chars@, part@, i as int) <==> text::begins_with(rest, part@)) by {
            if i + part@.len() <= chars@.len() {
                assert(rest.subrange(0, part@.len() as int) == chars@.subrange(
                    i as int,
                    i + part@.len(),
                ));
            }
        }
        if text::stands_at(&chars, &part, i) {
            out.append(MASK);
            i += part.len();
            assert(rest.skip(part@.len() as int) == chars@.skip(i as int));
            assert(before + (MASK@ + masked(chars@.skip(i as int), part@)) == out@ + masked(
                chars@.skip(i as int),
                part@,
            ));
        } else {
            let c: char = chars[i];
            out.push(c);
            i += 1;
            assert(rest[0] == c);
            assert(rest.skip(1) == chars@.skip(i as int));
            proof {
                if rest.len() < part@.len() {
                    assert(masked(rest, part@) == rest);
                    assert(masked(chars@.skip(i as int), part@) == chars@.skip(i as int));
                    assert(rest == seq![c] + chars@.skip(i as int));
                }
            }
            assert(masked(rest, part@) == seq![c] + masked(chars@.skip(i as int), part@));
            assert(before + (seq![c] + masked(chars@.skip(i as int), part@)) == out@ + masked(
                chars@.skip(i as int),
                part@,
            ));
        }
    }
    assert(chars@.skip(i as int).len() == 0);
    assert(masked(chars@.skip(i as int), part@) == Seq::<char>::empty());
    assert(out@ + Seq::<char>::empty() == out@);
    out
}

/// Masking a text that does not hold the secret changes nothing.
proof fn lemma_mask_absent(s: Seq<char>, secret: Seq<char>)
    requires
        !text::has_text(s, secret),
    ensures
        masked(s, secret) == s,
    decreases s.len(),
{
    if secret.len() > 0 && s.len() >= secret.len() {
        assert(!text::occurs_at(s, secret, 0));
        assert(!text::has_text(s.skip(1), secret)) by {
            if text::has_text(s.skip(1), secret) {
                let at = choose|at: int| #[trigger] text::occurs_at(s.skip(1), secret, at);
                assert(s.subrange(at + 1, at + 1 + secret.len()) == s.skip(1).subrange(
                    at,
                    at + secret.len(),
                ));
                assert(text::occurs_at(s, secret, at + 1));
            }
        }
        lemma_mask_absent(s.skip(1), secret);
        assert(seq![s[0]] + s.skip(1) == s);
    }
}

/// What follows a mask-free beginning: a text that neither ends with `*` nor
/// holds the mask can stand in front of a masked text only where it stood before.
proof fn lemma_prefix_survives(s: Seq<char>, secret: Seq<char>, head: Seq<char>)
    requires
        head.len() > 0 ==> head.last() != '*',
        !text::has_text(head, MASK@),
        text::begins_with(masked(s, secret), head),
    ensures
        text::begins_with(s, head),
    decreases s.len(),
{
    reveal_strlit("***");
    let out = masked(s, secret);
    if head.len() == 0 {
        assert(s.subrange(0, 0) == head);
    } else if secret.len() == 0 || s.len() < secret.len() {
    } else if text::begins_with(s, secret) {
        let rest = masked(s.skip(secret.len() as int), secret);
        assert(out[0] == '*' && out[1] == '*' && out[2] == '*');
        assert(out.subrange(0, head.len() as int) == head);
        if head.len() <= 3 {
            assert(head.last() == out[head.len() - 1]);
        } else {
            assert(head[0] == out[0] && head[1] == out[1] && head[2] == out[2]);
            assert(head.subrange(0, 3) == MASK@);
            assert(text::occurs_at(head, MASK@, 0));
        }
        assert(false);
    } else {
        let rest = s.skip(1);
        let tail = head.skip(1);
        assert(out.subrange(0, head.len() as int) == head);
        assert(head[0] == out[0]);
        assert(out.skip(1) == masked(rest, secret));
        assert(masked(rest, secret).subrange(0, tail.len() as int) == tail) by {
            assert forall|i: int| 0 <= i < tail.len() implies masked(rest, secret)[i]
                == #[trigger] tail[i] by {
                assert(tail[i] == head[i + 1]);
                assert(head[i + 1] == out[i + 1]);
            }
            assert(masked(rest, secret).subrange(0, tail.len() as int) =~= tail);
        }
        assert(!text::has_text(tail, MASK@)) by {
            if text::has_text(tail, MASK@) {
                let at = choose|at: int| #[trigger] text::occurs_at(tail, MASK@, at);
                assert(head.subrange(at + 1, at + 4) == tail.subrange(at, at + 3));
                assert(text::occurs_at(head, MASK@, at + 1));
            }
        }
        if tail.len() > 0 {
            assert(tail.last() == head.last());
        }
        lemma_prefix_survives(rest, secret, tail);
        assert(s.subrange(0, head.len() as int) == head) by {
            assert forall|i: int| 0 <= i < head.len() implies s[i] == #[trigger] head[i] by {
                if i > 0 {
                    assert(rest.subrange(0, tail.len() as int)[i - 1] == tail[i - 1]);
                    assert(tail[i - 1] == head[i]);
                }
            }
            assert(s.subrange(0, head.len() as int) =~= head);
        }
    }
}

/// A secret unlike the mask does not stand in a text it has been masked in.
proof fn lemma_masked_away(s: Seq<char>, secret: Seq<char>)
    requires
        unlike_mask(secret),
    ensures
        !text::has_text(masked(s, secret), secret),
    decreases s.len(),
{
    reveal_strlit("***");
    let out = masked(s, secret);
    if text::has_text(out, secret) {
        let at = choose|at: int| #[trigger] text::occurs_at(out, secret, at);
        assert(out.subrange(at, at + secret.len()) == secret);
        if s.len() < secret.len() {
            assert(false);
        } else if text::begins_with(s, secret) {
            let rest = masked(s.skip(secret.len() as int), secret);
            lemma_masked_away(s.skip(secret.len() as int), secret);
            if at < 3 {
                assert(secret[0] == out[at]);
            } else {
                assert(rest.subrange(at - 3, at - 3 + secret.len()) == secret) by {
                    assert(rest.subrange(at - 3, at - 3 + secret.len()) =~= out.subrange(
                        at,
                        at + secret.len(),
                    ));
                }
                assert(text::occurs_at(rest, secret, at - 3));
            }
            assert(false);
        } else {
            let rest = masked(s.skip(1), secret);
            lemma_masked_away(s.skip(1), secret);
            if at == 0 {
                lemma_prefix_survives(s, secret, secret);
            } else {
                assert(rest.subrange(at - 1, at - 1 + secret.len()) =~= out.subrange(
                    at,
                    at + secret.len(),
                ));
                assert(text::occurs_at(rest, secret, at - 1));
            }
            assert(false);
        }
    }
}

/// Masking one secret does not bring back another one that is unlike the mask.
proof fn lemma_stays_away(s: Seq<char>, secret: Seq<char>, other: Seq<char>)
    requires
        unlike_mask(other),
        !text::has_text(s, other),
    ensures
        !text::has_text(masked(s, secret), other),
    decreases s.len(),
{
    reveal_strlit("***");
    let out = masked(s, secret);
    if text::has_text(out, other) && secret.len() > 0 && s.len() >= secret.len() {
        let at = choose|at: int| #[trigger] text::occurs_at(out, other, at);
        assert(out.subrange(at, at + other.len()) == other);
        let step: int = if text::begins_with(s, secret) {
            secret.len() as int
        } else {
            1
        };
        let lead: int = if text::begins_with(s, secret) {
            3
        } else {
            1
        };
        let rest = masked(s.skip(step), secret);
        assert(!text::has_text(s.skip(step), other)) by {
            if text::has_text(s.skip(step), other) {
                let j = choose|j: int| #[trigger] text::occurs_at(s.skip(step), other, j);
                assert(s.subrange(j + step, j + step + other.len()) =~= s.skip(step).subrange(
                    j,
                    j + other.len(),
                ));
                assert(text::occurs_at(s, other, j + step));
            }
        }
        lemma_stays_away(s.skip(step), secret, other);
        if at >= lead {
            assert(rest.subrange(at - lead, at - lead + other.len()) =~= out.subrange(
                at,
                at + other.len(),
            ));
            assert(text::occurs_at(rest, other, at - lead));
        } else if lead == 3 {
            assert(other[0] == out[at]);
        } else {
            lemma_prefix_survives(s, secret, other);
        }
        assert(false);
    }
}

/// After the guard has gone over a record, a secret does not stand in its text any
/// more, whatever the other secrets are. Left out are secrets the mask could be
/// taken for a part of.
pub proof fn secrets_never_survive(s: Seq<char>, secrets: Seq<Seq<char>>)
    ensures
        forall|i: int|
            0 <= i < secrets.len() && unlike_mask(#[trigger] secrets[i]) ==> !text::has_text(
                redacted(s, secrets),
                secrets[i],
            ),
    decreases secrets.len(),
{
    if secrets.len() > 0 {
        let rest = secrets.drop_last();
        let before = redacted(s, rest);
        secrets_never_survive(s, rest);
        assert forall|i: int|
            0 <= i < secrets.len() && unlike_mask(#[trigger] secrets[i]) implies !text::has_text(
            redacted(s, secrets),
            secrets[i],
        ) by {
            if i < rest.len() {
                assert(rest[i] == secrets[i]);
                lemma_stays_away(before, secrets.last(), secrets[i]);
            } else {
                lemma_masked_away(before, secrets.last());
            }
        }
    }
}

/// A record without any secret passes the guard unchanged, and nothing is
/// reported of it.
pub proof fn harmless_records_pass_unchanged(s: Seq<char>, secrets: Seq<Seq<char>>)
    requires
        forall|i: int| 0 <= i < secrets.len() ==> !text::has_text(s, #[trigger] secrets[i]),
    ensures
        redacted(s, secrets) == s,
        !leaks(s, secrets),
    decreases secrets.len(),
{
    if secrets.len() > 0 {
        let rest = secrets.drop_last();
        assert forall|i: int| 0 <= i < rest.len() implies !text::has_text(
            s,
            #[trigger] rest[i],
        ) by {
            assert(rest[i] == secrets[i]);
        }
        harmless_records_pass_unchanged(s, rest);
        assert(!text::has_text(s, secrets[secrets.len() - 1]));
        lemma_mask_absent(s, secrets.last());
    }
}

// ---------------------------------------------------------------------------
// Time stamps
// ---------------------------------------------------------------------------

/// A local date and time.
#[derive(Copy, Clone, Debug)]
pub struct LocalTime {
    pub year: u16,
    pub month: u16,
    pub day: u16,
    pub hour: u16,
    pub minute: u16,
    pub second: u16,
    pub milliseconds: u16,
}

/// A number with leading zeros, at least `width` digits.
pub open spec fn zero_padded(n: u16, width: nat) -> Seq<char> {
    text::right_aligned(text::decimal(n as nat), width, '0')
}

impl LocalTime {
    /// `YYYY-MM-DD`.
    pub open spec fn day_text(self) -> Seq<char> {
        zero_padded(self.year, 4) + "-"@ + zero_padded(self.month, 2) + "-"@ + zero_padded(
            self.day,
            2,
        )
    }

    /// `YYYY-MM-DD HH:MM:SS.mmm`.
    pub open spec fn stamp_text(self) -> Seq<char> {
        self.day_text() + " "@ + zero_padded(self.hour, 2) + ":"@ + zero_padded(self.minute, 2)
            + ":"@ + zero_padded(self.second, 2) + "."@ + zero_padded(self.milliseconds, 3)
    }
}

fn padded(n: u16, width: usize) -> (out: String)
    ensures
        out@ == zero_padded(n, width as nat),
{
    let digits = text::number(n as u64);
    text::align_right(digits.as_str(), width, '0')
}

/// A local time as `("YYYY-MM-DD HH:MM:SS.mmm", "YYYY-MM-DD")`.
pub fn now(t: &LocalTime) -> (out: (String, String))
    ensures
        out.0@ == t.stamp_text(),
        out.1@ == t.day_text(),
{
    let mut day = padded(t.year, 4);
    day.append("-");
    day.append(padded(t.month, 2).as_str());
    day.append("-");
    day.append(padded(t.day, 2).as_str());
    let mut stamp = day.clone();
    stamp.append(" ");
    stamp.append(padded(t.hour, 2).as_str());
    stamp.append(":");
    stamp.append(padded(t.minute, 2).as_str());
    stamp.append(":");
    stamp.append(padded(t.second, 2).as_str());
    stamp.append(".");
    stamp.append(padded(t.milliseconds, 3).as_str());
    (stamp, day)
}

// ---------------------------------------------------------------------------
// Records
// ---------------------------------------------------------------------------

/// Everything [`init`] needs.
pub struct Settings<'a> {
    pub level: Level,
    /// Resolved log directory.
    pub dir: &'a str,
    /// Base file name, for example `pppoe.log`.
    pub file_name: &'a str,
    pub rotation: Rotation,
    /// Oldest files above this count are removed.
    pub max_files: usize,
    /// Mirror records to stdout.
    pub console: bool,
    /// Mirror records of level `Info` and above to the Windows event log.
    pub event_log: bool,
    /// Event log source name (matches the service name).
    pub source_name: &'a str,
    /// Credentials that must never appear in any sink.
    pub secrets: &'a [String],
}

/// The filter every record goes through.
pub struct Logger {
    level: Level,
    console: bool,
    event_log: bool,
    secrets: Vec<String>,
}

/// The secrets long enough to be searched for.
pub open spec fn guarded(secrets: Seq<Seq<char>>) -> Seq<Seq<char>> {
    secrets.filter(|s: Seq<char>| s.len() >= MIN_SECRET_LEN)
}

impl Logger {
    #[verifier::type_invariant]
    spec fn secrets_are_long_enough(self) -> bool {
        forall|i: int|
            0 <= i < self.secrets@.len() ==> (#[trigger] self.secrets@[i])@.len() >= MIN_SECRET_LEN
    }

    /// The configured level.
    pub closed spec fn threshold(&self) -> Level {
        self.level
    }

    /// Records are mirrored to stdout.
    pub closed spec fn mirrors_console(&self) -> bool {
        self.console
    }

    /// Records of level `Info` and above are mirrored to the event log.
    pub closed spec fn mirrors_events(&self) -> bool {
        self.event_log
    }

    /// The secrets replaced in every record.
    pub closed spec fn guards(&self) -> Seq<Seq<char>> {
        text::texts(self.secrets@)
    }

    /// Replaces every guarded secret by the mask.
    ///
    /// Returns the sanitised text and whether a replacement happened.
    pub fn redact(&self, record: &str) -> (out: (String, bool))
        ensures
            out.0@ == redacted(record@, self.guards()),
            out.1 == leaks(record@, self.guards()),
    {
        proof {
            use_type_invariant(self);
        }
        let mut sanitised = record.to_owned();
        let mut leaked = false;
        let mut i: usize = 0;
        let ghost all = text::texts(self.secrets@);
        while i < self.secrets.len()
            invariant
                i <= self.secrets@.len(),
                all == text::texts(self.secrets@),
                self.secrets_are_long_enough(),
                sanitised@ == redacted(record@, all.take(i as int)),
                leaked == leaks(record@, all.take(i as int)),
            decreases self.secrets@.len() - i,
        {
            let secret = &self.secrets[i];
            assert(self.secrets@[i as int]@.len() >= MIN_SECRET_LEN);
            assert(all.take(i + 1).drop_last() == all.take(i as int));
            assert(all.take(i + 1).last() == secret@);
            if text::contains(sanitised.as_str(), secret.as_str()) {
                sanitised = mask(sanitised.as_str(), secret.as_str());
                leaked = true;
            } else {
                proof {
                    lemma_mask_absent(sanitised@, secret@);
                }
            }
            i += 1;
        }
        assert(all.take(all.len() as int) == all);
        (sanitised, leaked)
    }
}

/// Builds the filter. Secrets that are too short are not searched for.
pub fn init(settings: &Settings<'_>) -> (logger: Logger)
    ensures
        logger.threshold() == settings.level,
        logger.mirrors_console() == settings.console,
        logger.mirrors_events() == settings.event_log,
        logger.guards() == guarded(text::texts(settings.secrets@)),
{
    let mut secrets: Vec<String> = Vec::new();
    let ghost all = text::texts(settings.secrets@);
    let ghost long = |s: Seq<char>| s.len() >= MIN_SECRET_LEN;
    let mut i: usize = 0;
    assert(all.take(0).filter(long) == Seq::<Seq<char>>::empty()) by {
        reveal(Seq::filter);
    }
    while i < settings.secrets.len()
        invariant
            i <= settings.secrets@.len(),
            all == text::texts(settings.secrets@),
            long == (|s: Seq<char>| s.len() >= MIN_SECRET_LEN),
            text::texts(secrets@) == all.take(i as int).filter(long),
            forall|j: int|
                0 <= j < secrets@.len() ==> (#[trigger] secrets@[j])@.len() >= MIN_SECRET_LEN,
        decreases settings.secrets@.len() - i,
    {
        proof {
            lists::lemma_filter_push(all.take(i as int), long, all[i as int]);
            assert(all.take(i + 1) == all.take(i as int).push(all[i as int]));
        }
        let ghost before = secrets@;
        if settings.secrets[i].as_str().unicode_len() >= MIN_SECRET_LEN {
            secrets.push(settings.secrets[i].clone());
            assert(text::texts(secrets@) == text::texts(before).push(all[i as int]));
        }
        i += 1;
    }
    assert(all.take(all.len() as int) == all);
    Logger {
        level: settings.level,
        console: settings.console,
        event_log: settings.event_log,
        secrets,
    }
}

/// `true` once a filter has been built.
pub fn is_initialized(logger: Option<&Logger>) -> (yes: bool)
    ensures
        yes == (logger is Some),
{
    logger.is_some()
}

/// The level in force: the configured one, or `Info` before [`init`].
pub open spec fn level_in_force(logger: Option<&Logger>) -> Level {
    match logger {
        Some(l) => l.threshold(),
        None => Level::Info,
    }
}

/// `true` when a record of that level would be emitted.
pub fn enabled(logger: Option<&Logger>, level: Level) -> (yes: bool)
    ensures
        yes == (level.position() <= level_in_force(logger).position()),
{
    match logger {
        Some(l) => level.passes(l.level),
        None => level.passes(Level::Info),
    }
}

/// A record for the Windows event log.
#[derive(Debug)]
pub struct EventRecord {
    pub event_type: u16,
    pub event_id: u32,
    pub text: String,
}

/// What is written for one record.
#[derive(Debug)]
pub struct Emission {
    /// Day (`YYYY-MM-DD`) of the record, which selects the file.
    pub day: String,
    /// Line for the file.
    pub line: String,
    /// The line goes to stdout too.
    pub console: bool,
    /// Record for the event log.
    pub event: Option<EventRecord>,
    /// Second line for the file: a credential was masked.
    pub warning: Option<String>,
}

/// Where one record goes.
#[derive(Debug)]
pub enum Output {
    /// Nothing is set up yet: the line goes to stderr.
    Stderr(String),
    /// The level is not enabled.
    Dropped,
    Record(Emission),
}

/// Line of the file and console sinks.
pub open spec fn line_text(
    t: LocalTime,
    level: Level,
    target: Seq<char>,
    record: Seq<char>,
) -> Seq<char> {
    t.stamp_text() + " "@ + level.label_text() + " "@ + target + ": "@ + record
}

/// The emission holds what a record of `logger` is written as.
pub open spec fn is_emission(
    e: Emission,
    logger: Logger,
    level: Level,
    event_id: Option<u32>,
    target: Seq<char>,
    record: Seq<char>,
    t: LocalTime,
) -> bool {
    let clean = redacted(record, logger.guards());
    &&& e.day@ == t.day_text()
    &&& e.line@ == line_text(t, level, target, clean)
    &&& e.console == logger.mirrors_console()
    &&& e.event is Some <==> logger.mirrors_events() && level.position() <= Level::Info.position()
    &&& e.event matches Some(v) ==> {
        &&& v.event_type == match level {
            Level::Error => EVENT_TYPE_ERROR,
            Level::Warn => EVENT_TYPE_WARNING,
            _ => EVENT_TYPE_INFORMATION,
        }
        &&& v.event_id == match event_id {
            Some(id) => id as nat,
            None => 1000 + level.position(),
        }
        &&& v.text@ == clean
    }
    &&& e.warning is Some <==> leaks(record, logger.guards())
    &&& e.warning matches Some(w) ==> w@ == line_text(
        t,
        Level::Warn,
        "pppoe::logger"@,
        "a credential was found in a log record and masked"@,
    )
}

/// The output of one record.
pub open spec fn is_output(
    out: Output,
    logger: Option<&Logger>,
    level: Level,
    event_id: Option<u32>,
    target: Seq<char>,
    record: Seq<char>,
    t: LocalTime,
) -> bool {
    match logger {
        None => out matches Output::Stderr(line) && line@ == level.name_text() + " "@ + target
            + ": "@ + record,
        Some(l) => if level.position() > l.threshold().position() {
            out is Dropped
        } else {
            out matches Output::Record(e) && is_emission(
                e,
                *l,
                level,
                event_id,
                target,
                record,
                t,
            )
        },
    }
}

fn line(stamp: &str, level: Level, target: &str, record: &str) -> (out: String)
    ensures
        out@ == stamp@ + " "@ + level.label_text() + " "@ + target@ + ": "@ + record@,
{
    let mut out = stamp.to_owned();
    out.append(" ");
    out.append(level.label());
    out.append(" ");
    out.append(target);
    out.append(": ");
    out.append(record);
    out
}

fn emit(
    logger: Option<&Logger>,
    level: Level,
    event_id: Option<u32>,
    target: &str,
    record: &str,
    t: &LocalTime,
) -> (out: Output)
    ensures
        is_output(out, logger, level, event_id, target@, record@, *t),
{
    match logger {
        None => {
            let mut text = level.name().to_owned();
            text.append(" ");
            text.append(target);
            text.append(": ");
            text.append(record);
            Output::Stderr(text)
        },
        Some(l) => {
            if !level.passes(l.level) {
                return Output::Dropped;
            }
            let (clean, leaked) = l.redact(record);
            let (stamp, day) = now(t);
            let text = line(stamp.as_str(), level, target, clean.as_str());
            let event = if l.event_log && level.passes(Level::Info) {
                let id: u32 = match event_id {
                    Some(id) => id,
                    None => level.event_id(),
                };
                Some(EventRecord { event_type: level.event_type(), event_id: id, text: clean })
            } else {
                None
            };
            let warning = if leaked {
                // Never print the offending text again, only that it happened.
                Some(
                    line(
                        stamp.as_str(),
                        Level::Warn,
                        "pppoe::logger",
                        "a credential was found in a log record and masked",
                    ),
                )
            } else {
                None
            };
            Output::Record(Emission { day, line: text, console: l.console, event, warning })
        },
    }
}

/// One record with an implicit event id.
pub fn write(
    logger: Option<&Logger>,
    level: Level,
    target: &str,
    record: &str,
    t: &LocalTime,
) -> (out: Output)
    ensures
        is_output(out, logger, level, None, target@, record@, *t),
{
    emit(logger, level, None, target, record, t)
}

/// One record with an explicit event id (used for lifecycle events).
pub fn event(
    logger: Option<&Logger>,
    level: Level,
    event_id: u32,
    target: &str,
    record: &str,
    t: &LocalTime,
) -> (out: Output)
    ensures
        is_output(out, logger, level, Some(event_id), target@, record@, *t),
{
    emit(logger, level, Some(event_id), target, record, t)
}

/// Whatever is written for a record, its text is free of every guarded secret
/// unlike the mask: the line ends with the sanitised text, and the event record
/// consists of it.
pub proof fn no_sink_receives_a_secret(
    e: Emission,
    logger: Logger,
    level: Level,
    event_id: Option<u32>,
    target: Seq<char>,
    record: Seq<char>,
    t: LocalTime,
)
    requires
        is_emission(e, logger, level, event_id, target, record, t),
    ensures
        e.line@ == line_text(t, level, target, redacted(record, logger.guards())),
        e.event matches Some(v) ==> v.text@ == redacted(record, logger.guards()),
        forall|i: int|
            0 <= i < logger.guards().len() && unlike_mask(#[trigger] logger.guards()[i])
                ==> !text::has_text(redacted(record, logger.guards()), logger.guards()[i]),
{
    secrets_never_survive(record, logger.guards());
}

// ---------------------------------------------------------------------------
// Files
// ---------------------------------------------------------------------------

/// State of the file sink.
pub struct Sink {
    /// A file is open.
    pub open: bool,
    pub file_name: String,
    pub rotation: Rotation,
    /// Day (`YYYY-MM-DD`) the currently open file belongs to; empty until the
    /// first file has been opened.
    pub day: String,
    /// Oldest files above this count are removed, at start-up and again on every
    /// rotation, because a service that runs for months starts only once.
    pub max_files: usize,
    /// Set after the first failure to open a file, which is reported only once.
    pub file_error_reported: bool,
}

/// What has to happen before a line can be written.
pub struct FilePlan {
    /// Close the open file.
    pub close: bool,
    /// Open the file of that name.
    pub open: Option<String>,
    /// Enforce the retention limit, after the attempt to open the file: see
    /// [`Sink::overdue`].
    pub prune: bool,
}

impl Sink {
    /// The open file belongs to another day.
    pub open spec fn rotates(self, day: Seq<char>) -> bool {
        self.rotation == Rotation::Daily && self.day@ != day
    }

    /// The retention limit is enforced when a file is to be opened for a new day, and
    /// when it is the first file of all: a service that runs for months starts only
    /// once.
    pub open spec fn enforces_limit(self, day: Seq<char>) -> bool {
        self.max_files > 0 && (self.rotates(day) || !self.open && self.day@.len() == 0)
    }

    /// Name of the file a record of that day belongs to.
    pub open spec fn file_of(self, day: Seq<char>) -> Seq<char> {
        match self.rotation {
            Rotation::Daily => self.file_name@ + "."@ + day,
            Rotation::Never => self.file_name@,
        }
    }

    /// A sink that has not opened a file yet.
    pub fn new(settings: &Settings<'_>) -> (sink: Sink)
        ensures
            !sink.open,
            sink.file_name@ == settings.file_name@,
            sink.rotation == settings.rotation,
            sink.day@ == Seq::<char>::empty(),
            sink.max_files == settings.max_files,
            !sink.file_error_reported,
    {
        Sink {
            open: false,
            file_name: settings.file_name.to_owned(),
            rotation: settings.rotation,
            day: String::new(),
            max_files: settings.max_files,
            file_error_reported: false,
        }
    }

    /// First half of writing a line: closes the file of another day and says
    /// which file to open when none is.
    pub fn prepare(&mut self, day: &str) -> (plan: FilePlan)
        ensures
            plan.close == old(self).rotates(day@),
            plan.prune == old(self).enforces_limit(day@),
            plan.open is Some <==> !old(self).open || old(self).rotates(day@),
            plan.open matches Some(name) ==> name@ == old(self).file_of(day@),
            *final(self) == (Sink {
                open: old(self).open && !old(self).rotates(day@),
                ..*old(self)
            }),
    {
        let rotates = self.rotation == Rotation::Daily && !text::same(self.day.as_str(), day);
        let first = !self.open && self.day.as_str().is_empty();
        let prune = self.max_files > 0 && (rotates || first);
        if rotates {
            self.open = false;
        }
        let open = if self.open {
            None
        } else {
            let mut name = self.file_name.clone();
            if self.rotation == Rotation::Daily {
                name.append(".");
                name.append(day);
            }
            Some(name)
        };
        FilePlan { close: rotates, open, prune }
    }

    /// The files to remove, so that no more than `max_files` of ours are left. The
    /// listing is taken after the attempt to open a file; `opened` is the name of the
    /// file when that worked. The open file is kept, and of the others the newest.
    pub fn overdue(&self, files: &Vec<LogFile>, opened: Option<&str>) -> (removed: Vec<LogFile>)
        ensures
            removed@ == overdue_files(
                files@,
                self.file_name@,
                self.max_files as nat,
                match opened {
                    Some(name) => Some(name@),
                    None => None,
                },
            ),
    {
        if self.max_files == 0 {
            return Vec::new();
        }
        match opened {
            None => prune(files, self.file_name.as_str(), self.max_files),
            Some(name) => {
                let rest = without(files, name);
                prune(&rest, self.file_name.as_str(), self.max_files - 1)
            },
        }
    }

    /// Second half, after an attempt to open the file: a success makes the file
    /// the one of that day. Returns whether a failure has to be reported.
    pub fn opened(&mut self, day: &str, success: bool) -> (report: bool)
        ensures
            report == (!success && !old(self).file_error_reported),
            final(self).open == (success || old(self).open),
            final(self).day@ == if success {
                day@
            } else {
                old(self).day@
            },
            final(self).file_error_reported == (old(self).file_error_reported || !success),
            final(self).file_name == old(self).file_name,
            final(self).rotation == old(self).rotation,
            final(self).max_files == old(self).max_files,
    {
        if success {
            self.open = true;
            self.day = day.to_owned();
            false
        } else {
            let report = !self.file_error_reported;
            self.file_error_reported = true;
            report
        }
    }

    /// Whether the line can be written now.
    pub fn writable(&self) -> (yes: bool)
        ensures
            yes == self.open,
    {
        self.open
    }
}

/// A line as it is written to the file.
pub fn file_line(line: &str) -> (out: String)
    ensures
        out@ == line@ + "\r\n"@,
{
    let mut out = line.to_owned();
    out.append("\r\n");
    out
}

/// Whether the retention limit is enforced at start-up: when the log directory
/// is there and there is a limit.
pub fn prunes_at_start(directory_ready: bool, max_files: usize) -> (yes: bool)
    ensures
        yes == (directory_ready && max_files > 0),
{
    directory_ready && max_files > 0
}

/// One file of the log directory.
#[derive(Debug)]
pub struct LogFile {
    /// Position in the directory listing.
    pub slot: usize,
    pub name: String,
    /// Time of the last modification, in nanoseconds since the epoch.
    pub modified: i128,
}

impl Clone for LogFile {
    fn clone(&self) -> (copy: Self)
        ensures
            copy == *self,
    {
        LogFile { slot: self.slot, name: self.name.clone(), modified: self.modified }
    }
}

/// A list ordered newest first, with one more file put in its place: behind
/// every file that is at least as new.
pub open spec fn placed(files: Seq<LogFile>, file: LogFile) -> Seq<LogFile>
    decreases files.len(),
{
    if files.len() == 0 || files.last().modified >= file.modified {
        files.push(file)
    } else {
        placed(files.drop_last(), file).push(files.last())
    }
}

/// The files, newest first. Files of the same age keep their order.
pub open spec fn newest_first(files: Seq<LogFile>) -> Seq<LogFile>
    decreases files.len(),
{
    if files.len() == 0 {
        files
    } else {
        placed(newest_first(files.drop_last()), files.last())
    }
}

/// The files that are ours: their names start with `prefix`.
pub open spec fn ours(files: Seq<LogFile>, prefix: Seq<char>) -> Seq<LogFile> {
    files.filter(|f: LogFile| text::begins_with(f.name@, prefix))
}

/// The files of ours to remove, so that the `keep` newest are left.
pub open spec fn pruned(files: Seq<LogFile>, prefix: Seq<char>, keep: nat) -> Seq<LogFile> {
    if ours(files, prefix).len() <= keep {
        Seq::empty()
    } else {
        newest_first(ours(files, prefix)).skip(keep as int)
    }
}

/// What is left of the files when some are removed.
pub open spec fn left(files: Seq<LogFile>, removed: Seq<LogFile>) -> Seq<LogFile> {
    files.filter(|f: LogFile| !removed.contains(f))
}

impl LogFile {
    pub open spec fn is_named(self, name: Seq<char>) -> bool {
        self.name@ == name
    }
}

/// The files of another name.
pub open spec fn others(files: Seq<LogFile>, name: Seq<char>) -> Seq<LogFile> {
    files.filter(|f: LogFile| !f.is_named(name))
}

/// The files to remove under a limit of `max_files`, where zero is no limit: with a
/// file of ours open one place belongs to it, and the others are for the newest.
pub open spec fn overdue_files(
    files: Seq<LogFile>,
    prefix: Seq<char>,
    max_files: nat,
    opened: Option<Seq<char>>,
) -> Seq<LogFile> {
    if max_files == 0 {
        Seq::empty()
    } else {
        match opened {
            Some(name) => pruned(others(files, name), prefix, (max_files - 1) as nat),
            None => pruned(files, prefix, max_files),
        }
    }
}

fn without(files: &Vec<LogFile>, name: &str) -> (rest: Vec<LogFile>)
    ensures
        rest@ == others(files@, name@),
{
    let ghost other = |f: LogFile| !f.is_named(name@);
    let mut rest: Vec<LogFile> = Vec::new();
    let mut i: usize = 0;
    assert(files@.take(0).filter(other) == Seq::<LogFile>::empty()) by {
        reveal(Seq::filter);
    }
    while i < files.len()
        invariant
            i <= files@.len(),
            other == (|f: LogFile| !f.is_named(name@)),
            rest@ == files@.take(i as int).filter(other),
        decreases files@.len() - i,
    {
        proof {
            lists::lemma_filter_push(files@.take(i as int), other, files@[i as int]);
            assert(files@.take(i + 1) == files@.take(i as int).push(files@[i as int]));
        }
        if !text::same(files[i].name.as_str(), name) {
            rest.push(files[i].clone());
        }
        i += 1;
    }
    assert(files@.take(files@.len() as int) == files@);
    rest
}

fn place(files: &mut Vec<LogFile>, file: LogFile)
    ensures
        final(files)@ == placed(old(files)@, file),
    decreases old(files)@.len(),
{
    let n: usize = files.len();
    if n == 0 || files[n - 1].modified >= file.modified {
        files.push(file);
    } else {
        let last = files.pop();
        match last {
            Some(newer) => {
                place(files, file);
                files.push(newer);
            },
            None => {},
        }
    }
}

/// Of the files of the log directory those to remove, so that at most `keep`
/// files whose name starts with `prefix` are left: the newest ones.
pub fn prune(files: &Vec<LogFile>, prefix: &str, keep: usize) -> (removed: Vec<LogFile>)
    ensures
        removed@ == pruned(files@, prefix@, keep as nat),
{
    let ghost mine = |f: LogFile| text::begins_with(f.name@, prefix@);
    let mut sorted: Vec<LogFile> = Vec::new();
    let mut i: usize = 0;
    assert(files@.take(0).filter(mine) == Seq::<LogFile>::empty()) by {
        reveal(Seq::filter);
    }
    while i < files.len()
        invariant
            i <= files@.len(),
            mine == (|f: LogFile| text::begins_with(f.name@, prefix@)),
            sorted@ == newest_first(files@.take(i as int).filter(mine)),
        decreases files@.len() - i,
    {
        proof {
            lists::lemma_filter_push(files@.take(i as int), mine, files@[i as int]);
            assert(files@.take(i + 1) == files@.take(i as int).push(files@[i as int]));
            let some = files@.take(i as int).filter(mine);
            assert(some.push(files@[i as int]).drop_last() == some);
        }
        if text::has_prefix(files[i].name.as_str(), prefix) {
            place(&mut sorted, files[i].clone());
        }
        i += 1;
    }
    assert(files@.take(files@.len() as int) == files@);
    let mut removed: Vec<LogFile> = Vec::new();
    proof {
        lemma_sorted(ours(files@, prefix@));
    }
    if sorted.len() > keep {
        let mut k: usize = keep;
        while k < sorted.len()
            invariant
                keep <= k <= sorted@.len(),
                removed@ == sorted@.subrange(keep as int, k as int),
            decreases sorted@.len() - k,
        {
            removed.push(sorted[k].clone());
            k += 1;
            assert(sorted@.subrange(keep as int, k as int) == sorted@.subrange(
                keep as int,
                k - 1,
            ).push(sorted@[k - 1]));
        }
        assert(sorted@.subrange(keep as int, sorted@.len() as int) == sorted@.skip(keep as int));
    }
    removed
}

/// No file stands behind an older one.
pub open spec fn is_newest_first(files: Seq<LogFile>) -> bool {
    forall|i: int, j: int|
        0 <= i <= j < files.len() ==> (#[trigger] files[i]).modified >= (#[trigger] files[j]).modified
}

proof fn lemma_placed(files: Seq<LogFile>, file: LogFile)
    requires
        is_newest_first(files),
    ensures
        is_newest_first(placed(files, file)),
        placed(files, file).to_multiset() == files.to_multiset().insert(file),
        placed(files, file).len() == files.len() + 1,
        placed(files, file).last().modified <= file.modified,
        forall|i: int|
            0 <= i < placed(files, file).len() ==> (#[trigger] placed(files, file)[i]) == file
                || files.contains(placed(files, file)[i]),
    decreases files.len(),
{
    broadcast use vstd::seq_lib::group_to_multiset_ensures;

    let out = placed(files, file);
    if files.len() == 0 || files.last().modified >= file.modified {
        assert forall|i: int| 0 <= i < out.len() implies (#[trigger] out[i]) == file
            || files.contains(out[i]) by {
            if i < files.len() {
                assert(files[i] == out[i]);
            }
        }
        assert forall|i: int, j: int| 0 <= i <= j < out.len() implies (
        #[trigger] out[i]).modified >= (#[trigger] out[j]).modified by {
            if j == files.len() && i < j {
                assert(files[i].modified >= files[files.len() - 1].modified);
            }
        }
    } else {
        let rest = files.drop_last();
        let inner = placed(rest, file);
        lemma_placed(rest, file);
        assert(files == rest.push(files.last()));
        assert(out == inner.push(files.last()));
        assert(rest.push(files.last()).to_multiset() == rest.to_multiset().insert(files.last()));
        assert(out.to_multiset() == files.to_multiset().insert(file));
        assert forall|i: int| 0 <= i < out.len() implies (#[trigger] out[i]) == file
            || files.contains(out[i]) by {
            if i < inner.len() {
                assert(inner[i] == out[i]);
                if inner[i] != file {
                    let k = choose|k: int| 0 <= k < rest.len() && rest[k] == inner[i];
                    assert(files[k] == out[i]);
                }
            } else {
                assert(files[files.len() - 1] == out[i]);
            }
        }
        assert forall|i: int, j: int| 0 <= i <= j < out.len() implies (
        #[trigger] out[i]).modified >= (#[trigger] out[j]).modified by {
            if j < inner.len() {
                assert(inner[i].modified >= inner[j].modified);
            } else if i < inner.len() {
                if inner[i] != file {
                    let k = choose|k: int| 0 <= k < rest.len() && rest[k] == inner[i];
                    assert(files[k].modified >= files[files.len() - 1].modified);
                }
            }
        }
    }
}

proof fn lemma_sorted(files: Seq<LogFile>)
    ensures
        is_newest_first(newest_first(files)),
        newest_first(files).to_multiset() == files.to_multiset(),
        newest_first(files).len() == files.len(),
    decreases files.len(),
{
    broadcast use vstd::seq_lib::group_to_multiset_ensures;

    if files.len() > 0 {
        let rest = files.drop_last();
        lemma_sorted(rest);
        lemma_placed(newest_first(rest), files.last());
        assert(files == rest.push(files.last()));
    }
}

/// Pruning keeps the newest files: ordering the files that are ours loses none
/// of them, exactly `keep` of them stay when there are more, and no removed file
/// is newer than one that stays. Files that are not ours are never removed.
pub proof fn pruning_keeps_the_newest(files: Seq<LogFile>, prefix: Seq<char>, keep: nat)
    requires
        ours(files, prefix).len() > keep,
    ensures
        newest_first(ours(files, prefix)).to_multiset() == ours(files, prefix).to_multiset(),
        newest_first(ours(files, prefix)).take(keep as int).len() == keep,
        newest_first(ours(files, prefix)).skip(keep as int).len() == ours(files, prefix).len()
            - keep,
        forall|i: int, j: int|
            0 <= i < keep && 0 <= j < newest_first(ours(files, prefix)).skip(keep as int).len() ==> (
            #[trigger] newest_first(ours(files, prefix)).take(keep as int)[i]).modified >= (
            #[trigger] newest_first(ours(files, prefix)).skip(keep as int)[j]).modified,
        forall|j: int|
            0 <= j < newest_first(ours(files, prefix)).skip(keep as int).len()
                ==> text::begins_with(
                (#[trigger] newest_first(ours(files, prefix)).skip(keep as int)[j]).name@,
                prefix,
            ),
{
    broadcast use vstd::seq_lib::group_to_multiset_ensures;

    let mine = ours(files, prefix);
    let sorted = newest_first(mine);
    lemma_sorted(mine);
    lists::lemma_filter_members(files, |f: LogFile| text::begins_with(f.name@, prefix));
    assert forall|j: int| 0 <= j < sorted.skip(keep as int).len() implies text::begins_with(
        (#[trigger] sorted.skip(keep as int)[j]).name@,
        prefix,
    ) by {
        let f = sorted[j + keep];
        assert(sorted.contains(f));
        assert(sorted.to_multiset().count(f) > 0);
        assert(mine.contains(f));
    }
}

proof fn lemma_filter_count(s: Seq<LogFile>, p: spec_fn(LogFile) -> bool, x: LogFile)
    ensures
        s.filter(p).to_multiset().count(x) == if p(x) {
            s.to_multiset().count(x)
        } else {
            0
        },
    decreases s.len(),
{
    broadcast use vstd::seq_lib::group_to_multiset_ensures;

    reveal(Seq::filter);
    if s.len() > 0 {
        let rest = s.drop_last();
        lemma_filter_count(rest, p, x);
        assert(s == rest.push(s.last()));
        assert(s.to_multiset() == rest.to_multiset().insert(s.last()));
        if p(s.last()) {
            assert(s.filter(p).to_multiset() == rest.filter(p).to_multiset().insert(s.last()));
        }
    }
}

/// What pruning leaves of ours are the files to keep, or all when there are fewer,
/// none of them older than a removed one, and files that are not ours are left
/// alone. In a directory no file is listed twice.
pub proof fn pruning_leaves_the_limit(files: Seq<LogFile>, prefix: Seq<char>, keep: nat)
    requires
        files.no_duplicates(),
    ensures
        ({
            let removed = pruned(files, prefix, keep);
            let rest = left(files, removed);
            &&& ours(rest, prefix).len() == if ours(files, prefix).len() < keep {
                ours(files, prefix).len()
            } else {
                keep
            }
            &&& forall|f: LogFile, r: LogFile| #[trigger]
                ours(rest, prefix).contains(f) && #[trigger] removed.contains(r) ==> f.modified
                    >= r.modified
            &&& forall|r: LogFile| #[trigger]
                removed.contains(r) ==> files.contains(r) && text::begins_with(r.name@, prefix)
            &&& forall|f: LogFile| #[trigger]
                files.contains(f) && !text::begins_with(f.name@, prefix) ==> rest.contains(f)
        }),
{
    broadcast use vstd::seq_lib::group_to_multiset_ensures;

    let mine = |f: LogFile| text::begins_with(f.name@, prefix);
    let removed = pruned(files, prefix, keep);
    let stays = |f: LogFile| !removed.contains(f);
    let rest = left(files, removed);
    let all = ours(files, prefix);
    let ours_left = ours(rest, prefix);
    let sorted = newest_first(all);
    lemma_sorted(all);
    lists::lemma_filter_members(files, mine);
    files.lemma_multiset_has_no_duplicates();
    let kept = if all.len() <= keep {
        sorted
    } else {
        sorted.take(keep as int)
    };
    assert(sorted == kept + removed);
    vstd::seq_lib::lemma_multiset_commutative(kept, removed);
    assert forall|x: LogFile| #[trigger]
        ours_left.to_multiset().count(x) == kept.to_multiset().count(x) by {
        lemma_filter_count(rest, mine, x);
        lemma_filter_count(files, stays, x);
        lemma_filter_count(files, mine, x);
        assert(files.to_multiset().count(x) <= 1) by {
            if files.to_multiset().contains(x) {
                assert(files.to_multiset().count(x) == 1);
            }
        }
        assert(sorted.to_multiset().count(x) == kept.to_multiset().count(x)
            + removed.to_multiset().count(x));
        if removed.contains(x) {
            assert(removed.to_multiset().count(x) > 0);
        } else {
            assert(removed.to_multiset().count(x) == 0);
        }
    }
    assert(ours_left.to_multiset() =~= kept.to_multiset());
    assert(ours_left.to_multiset().len() == kept.to_multiset().len());
    assert forall|f: LogFile, r: LogFile| #[trigger]
        ours_left.contains(f) && #[trigger] removed.contains(r) implies f.modified
        >= r.modified by {
        assert(ours_left.to_multiset().count(f) > 0);
        assert(kept.contains(f));
        let i = choose|i: int| 0 <= i < kept.len() && kept[i] == f;
        let j = choose|j: int| 0 <= j < removed.len() && removed[j] == r;
        assert(sorted[i] == f && sorted[kept.len() + j] == r);
    }
    assert forall|r: LogFile| #[trigger] removed.contains(r) implies files.contains(r)
        && text::begins_with(r.name@, prefix) by {
        let j = choose|j: int| 0 <= j < removed.len() && removed[j] == r;
        assert(sorted[kept.len() + j] == r);
        assert(sorted.contains(r));
        assert(sorted.to_multiset().count(r) > 0);
        assert(all.contains(r));
        let k = choose|k: int| 0 <= k < all.len() && all[k] == r;
        assert(mine(all[k]) && files.contains(all[k]));
    }
    assert forall|f: LogFile| #[trigger]
        files.contains(f) && !text::begins_with(f.name@, prefix) implies rest.contains(f) by {
        lists::lemma_filter_keeps(files, stays, f);
    }
}

proof fn lemma_filter_is_distinct(files: Seq<LogFile>, p: spec_fn(LogFile) -> bool)
    requires
        files.no_duplicates(),
    ensures
        files.filter(p).no_duplicates(),
{
    broadcast use vstd::seq_lib::group_to_multiset_ensures;

    let some = files.filter(p);
    files.lemma_multiset_has_no_duplicates();
    assert forall|x: LogFile| some.to_multiset().contains(x) implies #[trigger]
        some.to_multiset().count(x) == 1 by {
        lemma_filter_count(files, p, x);
        assert(files.to_multiset().contains(x));
        assert(files.to_multiset().count(x) == 1);
    }
    some.lemma_multiset_has_no_duplicates_conv();
}

proof fn lemma_set_aside(
    files: Seq<LogFile>,
    prefix: Seq<char>,
    keep: nat,
    name: Seq<char>,
    opened: LogFile,
)
    requires
        opened.name@ == name,
        text::begins_with(name, prefix),
        files.contains(opened),
        files.no_duplicates(),
        forall|f: LogFile| #[trigger] files.contains(f) && f.name@ == name ==> f == opened,
    ensures
        ({
            let removed = pruned(others(files, name), prefix, keep);
            let after = left(files, removed);
            &&& ours(after, prefix).len() == if ours(files, prefix).len() <= keep {
                ours(files, prefix).len()
            } else {
                keep + 1
            }
            &&& ours(after, prefix).contains(opened)
            &&& forall|f: LogFile, r: LogFile| #[trigger]
                ours(after, prefix).contains(f) && #[trigger] removed.contains(r) && f != opened
                    ==> f.modified >= r.modified
            &&& forall|f: LogFile| #[trigger]
                files.contains(f) && !text::begins_with(f.name@, prefix) ==> after.contains(f)
        }),
{
    broadcast use vstd::seq_lib::group_to_multiset_ensures;

    let mine = |f: LogFile| text::begins_with(f.name@, prefix);
    let other = |f: LogFile| !f.is_named(name);
    let rest = others(files, name);
    let removed = pruned(rest, prefix, keep);
    let stays = |f: LogFile| !removed.contains(f);
    let after = left(files, removed);
    let rest_after = left(rest, removed);
    lemma_filter_is_distinct(files, other);
    lists::lemma_filter_members(files, other);
    pruning_leaves_the_limit(rest, prefix, keep);
    files.lemma_multiset_has_no_duplicates();
    assert(!rest.contains(opened)) by {
        if rest.contains(opened) {
            let i = choose|i: int| 0 <= i < rest.len() && rest[i] == opened;
            assert(other(rest[i]));
        }
    }
    assert(!removed.contains(opened));
    assert(files.to_multiset().count(opened) == 1);
    assert forall|x: LogFile|
        #![trigger ours(files, prefix).to_multiset().count(x)]
        #![trigger ours(after, prefix).to_multiset().count(x)]
        ours(files, prefix).to_multiset().count(x) == ours(rest, prefix).to_multiset().insert(
            opened,
        ).count(x) && ours(after, prefix).to_multiset().count(x) == ours(
            rest_after,
            prefix,
        ).to_multiset().insert(opened).count(x) by {
        lemma_filter_count(files, mine, x);
        lemma_filter_count(files, other, x);
        lemma_filter_count(rest, mine, x);
        lemma_filter_count(files, stays, x);
        lemma_filter_count(after, mine, x);
        lemma_filter_count(rest, stays, x);
        lemma_filter_count(rest_after, mine, x);
        if x.name@ == name && x != opened {
            assert(!files.contains(x));
            assert(files.to_multiset().count(x) == 0);
        }
    }
    assert(ours(files, prefix).to_multiset() =~= ours(rest, prefix).to_multiset().insert(opened));
    assert(ours(after, prefix).to_multiset() =~= ours(rest_after, prefix).to_multiset().insert(
        opened,
    ));
    assert(ours(files, prefix).to_multiset().len() == ours(rest, prefix).to_multiset().len() + 1);
    assert(ours(after, prefix).to_multiset().len() == ours(rest_after, prefix).to_multiset().len()
        + 1);
    assert(ours(after, prefix).to_multiset().count(opened) > 0);
    assert forall|f: LogFile, r: LogFile| #[trigger]
        ours(after, prefix).contains(f) && #[trigger] removed.contains(r) && f
            != opened implies f.modified >= r.modified by {
        assert(ours(after, prefix).to_multiset().count(f) > 0);
        assert(ours(rest_after, prefix).to_multiset().count(f) > 0);
        assert(ours(rest_after, prefix).contains(f));
    }
    assert forall|f: LogFile| #[trigger]
        files.contains(f) && !text::begins_with(f.name@, prefix) implies after.contains(f) by {
        if removed.contains(f) {
            assert(false);
        }
        lists::lemma_filter_keeps(files, stays, f);
    }
}

/// Opening a file enforces the limit, whether the file is new or was there before.
/// Of the listing taken when the file is open, `max_files` of ours are left, or all
/// when there are fewer; the open file is among them, of the others none is older
/// than a removed one, and files that are not ours are left alone.
pub proof fn a_rotation_keeps_the_limit(
    sink: Sink,
    day: Seq<char>,
    files: Seq<LogFile>,
    opened: LogFile,
)
    requires
        sink.max_files > 0,
        opened.name@ == sink.file_of(day),
        files.contains(opened),
        files.no_duplicates(),
        forall|f: LogFile| #[trigger] files.contains(f) && f.name@ == opened.name@ ==> f == opened,
    ensures
        ({
            let prefix = sink.file_name@;
            let removed = overdue_files(
                files,
                prefix,
                sink.max_files as nat,
                Some(sink.file_of(day)),
            );
            let after = left(files, removed);
            &&& ours(after, prefix).len() == if ours(files, prefix).len() < sink.max_files {
                ours(files, prefix).len()
            } else {
                sink.max_files as nat
            }
            &&& ours(after, prefix).contains(opened)
            &&& forall|f: LogFile, r: LogFile| #[trigger]
                ours(after, prefix).contains(f) && #[trigger] removed.contains(r) && f != opened
                    ==> f.modified >= r.modified
            &&& forall|f: LogFile| #[trigger]
                files.contains(f) && !text::begins_with(f.name@, prefix) ==> after.contains(f)
        }),
{
    let prefix = sink.file_name@;
    let name = sink.file_of(day);
    assert(name.subrange(0, prefix.len() as int) == prefix);
    lemma_set_aside(files, prefix, (sink.max_files - 1) as nat, name, opened);
}

/// When the file could not be opened, the limit is enforced on the files that are
/// there: `max_files` of ours are left, or all when there are fewer, none of them older
/// than a removed one.
pub proof fn a_failed_opening_keeps_the_limit(sink: Sink, files: Seq<LogFile>)
    requires
        sink.max_files > 0,
        files.no_duplicates(),
    ensures
        ({
            let prefix = sink.file_name@;
            let removed = overdue_files(files, prefix, sink.max_files as nat, None);
            let after = left(files, removed);
            &&& ours(after, prefix).len() == if ours(files, prefix).len() < sink.max_files {
                ours(files, prefix).len()
            } else {
                sink.max_files as nat
            }
            &&& forall|f: LogFile, r: LogFile| #[trigger]
                ours(after, prefix).contains(f) && #[trigger] removed.contains(r) ==> f.modified
                    >= r.modified
            &&& forall|f: LogFile| #[trigger]
                files.contains(f) && !text::begins_with(f.name@, prefix) ==> after.contains(f)
        }),
{
    pruning_leaves_the_limit(files, sink.file_name@, sink.max_files as nat);
}

/// A record of the first level is at least as severe as one of the second.
pub open spec fn at_least_as_severe(a: Level, b: Level) -> bool {
    match a {
        Level::Error => true,
        Level::Warn => !(b is Error),
        Level::Info => b is Info || b is Debug || b is Trace,
        Level::Debug => b is Debug || b is Trace,
        Level::Trace => b is Trace,
    }
}

/// A record passes a level exactly when it is at least as severe: errors pass every
/// level, and before anything is set up the level is that of information.
pub proof fn severe_records_pass(
    level: Level,
    configured: Level,
    passes: bool,
    logger: Option<&Logger>,
    enabled_now: bool,
)
    requires
        call_ensures(Level::passes, (level, configured), passes),
        call_ensures(enabled, (logger, level), enabled_now),
    ensures
        passes <==> at_least_as_severe(level, configured),
        logger matches Some(l) ==> (enabled_now <==> at_least_as_severe(level, l.threshold())),
        logger is None ==> (enabled_now <==> level is Error || level is Warn || level is Info),
{
}

/// A record is dropped exactly when it is less severe than the level of the logger; before
/// there is a logger it goes to stderr, with its text at the end.
pub proof fn a_record_is_dropped_below_the_level(
    logger: Option<&Logger>,
    level: Level,
    target: &str,
    record: &str,
    t: &LocalTime,
    out: Output,
)
    requires
        call_ensures(write, (logger, level, target, record, t), out),
    ensures
        out is Stderr <==> logger is None,
        logger matches Some(l) ==> (out is Dropped <==> !at_least_as_severe(level, l.threshold())),
        out matches Output::Stderr(line) ==> exists|head: Seq<char>|
            line@ == #[trigger] (head + record@),
{
    if logger is None {
        let head = level.name_text() + " "@ + target@ + ": "@;
        assert(out->Stderr_0@ == head + record@);
    }
}

/// The event log gets every record of the levels error, warning and information that is
/// written, and no other: the most severe first of all. Type and number of the event tell
/// the level, and its text is the sanitised record.
pub proof fn every_severe_record_reaches_the_event_log(
    logger: &Logger,
    level: Level,
    target: &str,
    record: &str,
    t: &LocalTime,
    e: Emission,
)
    requires
        call_ensures(write, (Some(logger), level, target, record, t), Output::Record(e)),
    ensures
        e.event is Some <==> logger.mirrors_events() && (level is Error || level is Warn
            || level is Info),
        e.event matches Some(v) ==> {
            &&& level is Error ==> v.event_type == 1 && v.event_id == 1000
            &&& level is Warn ==> v.event_type == 2 && v.event_id == 1001
            &&& level is Info ==> v.event_type == 4 && v.event_id == 1002
            &&& v.text@ == redacted(record@, logger.guards())
        },
        e.console == logger.mirrors_console(),
{
}

/// Mirroring to the event log is monotone: with one logger, a record that is at least as
/// severe as a mirrored one is mirrored too.
pub proof fn more_severe_records_are_mirrored_too(
    logger: &Logger,
    a: Level,
    b: Level,
    target: &str,
    record: &str,
    t: &LocalTime,
    severe: Emission,
    mild: Emission,
)
    requires
        at_least_as_severe(a, b),
        call_ensures(write, (Some(logger), a, target, record, t), Output::Record(severe)),
        call_ensures(write, (Some(logger), b, target, record, t), Output::Record(mild)),
        mild.event is Some,
    ensures
        severe.event is Some,
        severe.event->0.text@ == mild.event->0.text@,
{
}

/// A record with a number of its own is written like any other, but for that number.
pub proof fn a_numbered_record_keeps_its_number(
    logger: &Logger,
    level: Level,
    event_id: u32,
    target: &str,
    record: &str,
    t: &LocalTime,
    numbered: Emission,
    plain: Emission,
)
    requires
        call_ensures(event, (Some(logger), level, event_id, target, record, t), Output::Record(numbered)),
        call_ensures(write, (Some(logger), level, target, record, t), Output::Record(plain)),
    ensures
        numbered.day@ == plain.day@,
        numbered.line@ == plain.line@,
        numbered.console == plain.console,
        numbered.event is Some <==> plain.event is Some,
        numbered.event matches Some(v) ==> v.event_id == event_id && v.event_type
            == plain.event->0.event_type && v.text@ == plain.event->0.text@,
        numbered.warning is Some <==> plain.warning is Some,
{
}

/// A line begins with its time and ends with its sanitised record; its label and its target
/// stand in between, and the day of the file is that of the line.
pub proof fn a_line_tells_when_and_what(
    logger: &Logger,
    level: Level,
    target: &str,
    record: &str,
    t: &LocalTime,
    e: Emission,
)
    requires
        call_ensures(write, (Some(logger), level, target, record, t), Output::Record(e)),
    ensures
        text::begins_with(e.line@, t.stamp_text()),
        text::begins_with(e.line@, e.day@),
        exists|head: Seq<char>|
            e.line@ == #[trigger] (head + redacted(record@, logger.guards())) && text::has_text(
                head,
                level.label_text(),
            ) && text::has_text(head, target@),
{
    let clean = redacted(record@, logger.guards());
    lemma_stamped(*t);
    lemma_line_parts(t.stamp_text(), t.day_text(), level.label_text(), target@, clean);
    let head = t.stamp_text() + " "@ + level.label_text() + " "@ + target@ + ": "@;
    assert(e.line@ == head + clean);
}

proof fn lemma_stamped(t: LocalTime)
    ensures
        text::begins_with(t.stamp_text(), t.day_text()),
{
    let day = t.day_text();
    let stamp = t.stamp_text();
    assert(stamp.subrange(0, day.len() as int) == day);
}

proof fn lemma_line_parts(
    stamp: Seq<char>,
    day: Seq<char>,
    label: Seq<char>,
    target: Seq<char>,
    clean: Seq<char>,
)
    requires
        text::begins_with(stamp, day),
    ensures
        ({
            let head = stamp + " "@ + label + " "@ + target + ": "@;
            &&& text::begins_with(head + clean, stamp)
            &&& text::begins_with(head + clean, day)
            &&& text::has_text(head, label)
            &&& text::has_text(head, target)
        }),
{
    let head = stamp + " "@ + label + " "@ + target + ": "@;
    let line = head + clean;
    assert(line.subrange(0, stamp.len() as int) == stamp);
    assert(line.subrange(0, day.len() as int) == stamp.subrange(0, day.len() as int));
    let front = stamp + " "@;
    let behind = " "@ + target + ": "@;
    assert(head == front + label + behind);
    text::lemma_stands_between(front, label, behind);
    text::lemma_stands_between(front + label + " "@, target, ": "@);
}

/// A masked credential is told exactly where one stood in the record.
pub proof fn a_masked_credential_is_told(
    logger: &Logger,
    level: Level,
    target: &str,
    record: &str,
    t: &LocalTime,
    e: Emission,
)
    requires
        call_ensures(write, (Some(logger), level, target, record, t), Output::Record(e)),
    ensures
        e.warning is Some <==> exists|i: int|
            0 <= i < logger.guards().len() && text::has_text(record@, #[trigger] logger.guards()[i]),
        e.warning matches Some(w) ==> text::begins_with(w@, t.stamp_text()),
{
    leaks_are_found_wherever_a_secret_stands(record@, logger.guards());
    let stamp = t.stamp_text();
    let rest = " "@ + Level::Warn.label_text() + " "@ + "pppoe::logger"@ + ": "@
        + "a credential was found in a log record and masked"@;
    if let Some(w) = e.warning {
        assert(w@ == stamp + rest);
        assert(w@.subrange(0, stamp.len() as int) == stamp);
    }
}

/// Something is reported of a record exactly when one of the secrets stands in it.
pub proof fn leaks_are_found_wherever_a_secret_stands(s: Seq<char>, secrets: Seq<Seq<char>>)
    ensures
        leaks(s, secrets) <==> exists|i: int|
            0 <= i < secrets.len() && text::has_text(s, #[trigger] secrets[i]),
    decreases secrets.len(),
{
    if secrets.len() > 0 {
        let rest = secrets.drop_last();
        leaks_are_found_wherever_a_secret_stands(s, rest);
        assert(secrets.last() == secrets[secrets.len() - 1]);
        if leaks(s, rest) {
            let i = choose|i: int| 0 <= i < rest.len() && text::has_text(s, #[trigger] rest[i]);
            assert(secrets[i] == rest[i]);
        } else {
            assert forall|i: int| 0 <= i < rest.len() implies !text::has_text(
                s,
                #[trigger] rest[i],
            ) by {}
            harmless_records_pass_unchanged(s, rest);
            if exists|i: int| 0 <= i < secrets.len() && text::has_text(s, #[trigger] secrets[i]) {
                let i = choose|i: int|
                    0 <= i < secrets.len() && text::has_text(s, #[trigger] secrets[i]);
                if i < rest.len() {
                    assert(rest[i] == secrets[i]);
                }
            }
        }
    }
}

/// Masking replaces a secret by three stars where it stands, and nothing else: what is in
/// front of its first place is kept, and what follows is masked in turn.
pub proof fn masking_replaces_the_secret_alone(
    before: Seq<char>,
    secret: Seq<char>,
    after: Seq<char>,
)
    requires
        secret.len() > 0,
        forall|at: int|
            0 <= at < before.len() ==> !#[trigger] text::occurs_at(
                before + secret + after,
                secret,
                at,
            ),
    ensures
        masked(before + secret + after, secret) == before + "***"@ + masked(after, secret),
        masked(after, secret) == after || text::has_text(after, secret),
    decreases before.len(),
{
    let s = before + secret + after;
    if !text::has_text(after, secret) {
        lemma_mask_absent(after, secret);
    }
    if before.len() == 0 {
        assert(s.subrange(0, secret.len() as int) == secret);
        assert(s.skip(secret.len() as int) == after);
        assert(before + "***"@ == "***"@);
    } else {
        assert(!text::occurs_at(s, secret, 0));
        let rest = before.skip(1);
        let tail = s.skip(1);
        assert(tail == rest + secret + after);
        assert forall|at: int| 0 <= at < rest.len() implies !#[trigger] text::occurs_at(
            rest + secret + after,
            secret,
            at,
        ) by {
            if text::occurs_at(tail, secret, at) {
                assert(s.subrange(at + 1, at + 1 + secret.len()) == tail.subrange(
                    at,
                    at + secret.len(),
                ));
                assert(text::occurs_at(s, secret, at + 1));
            }
        }
        masking_replaces_the_secret_alone(rest, secret, after);
        assert(seq![s[0]] + (rest + "***"@ + masked(after, secret)) == before + "***"@ + masked(
            after,
            secret,
        ));
    }
}

/// The secrets are masked one after the other, each in what the ones before have left.
pub proof fn secrets_are_masked_in_turn(s: Seq<char>, secrets: Seq<Seq<char>>, secret: Seq<char>)
    ensures
        redacted(s, Seq::empty()) == s,
        redacted(s, secrets.push(secret)) == masked(redacted(s, secrets), secret),
{
    assert(secrets.push(secret).drop_last() == secrets);
}

/// A logger looks for every secret of its settings that has three characters or more, and
/// for nothing else; what it masks is what the laws speak of.
pub proof fn a_logger_guards_its_secrets(
    settings: &Settings<'_>,
    logger: Logger,
    record: &str,
    out: (String, bool),
    secret: Seq<char>,
)
    requires
        call_ensures(init, (settings,), logger),
        call_ensures(Logger::redact, (&logger, record), out),
    ensures
        logger.guards().contains(secret) <==> text::texts(settings.secrets@).contains(secret)
            && secret.len() >= 3,
        logger.threshold() == settings.level,
        logger.mirrors_console() == settings.console,
        logger.mirrors_events() == settings.event_log,
        out.0@ == redacted(record@, logger.guards()),
        logger.guards().contains(secret) && unlike_mask(secret) ==> !text::has_text(out.0@, secret),
        logger.guards().contains(secret) && text::has_text(record@, secret) ==> out.1,
{
    let all = text::texts(settings.secrets@);
    let long = |s: Seq<char>| s.len() >= MIN_SECRET_LEN;
    lists::lemma_filter_members(all, long);
    if all.contains(secret) && long(secret) {
        lists::lemma_filter_keeps(all, long, secret);
    }
    let guards = logger.guards();
    if guards.contains(secret) {
        let i = choose|i: int| 0 <= i < guards.len() && guards[i] == secret;
        assert(long(all.filter(long)[i]));
        secrets_never_survive(record@, guards);
        leaks_are_found_wherever_a_secret_stands(record@, guards);
    }
}

/// A level is known by its name, ignoring case and the white space around it, and warnings
/// by a second one; nothing else names a level. The same holds of the rotation.
pub proof fn levels_are_known_by_name(
    name: &str,
    level: Option<Level>,
    rotation: Option<Rotation>,
)
    requires
        call_ensures(Level::parse, (name,), level),
        call_ensures(Rotation::parse, (name,), rotation),
    ensures
        ({
            let n = text::ascii_lower(text::trimmed(name@));
            &&& level == Some(Level::Error) <==> n == "error"@
            &&& level == Some(Level::Warn) <==> n == "warn"@ || n == "warning"@
            &&& level == Some(Level::Info) <==> n == "info"@
            &&& level == Some(Level::Debug) <==> n == "debug"@
            &&& level == Some(Level::Trace) <==> n == "trace"@
            &&& rotation == Some(Rotation::Daily) <==> n == "daily"@
            &&& rotation == Some(Rotation::Never) <==> n == "never"@
        }),
{
    reveal_strlit("error");
    reveal_strlit("warn");
    reveal_strlit("warning");
    reveal_strlit("info");
    reveal_strlit("debug");
    reveal_strlit("trace");
    reveal_strlit("daily");
    reveal_strlit("never");
    assert("error"@.len() == 5 && "error"@[0] == 'e');
    assert("warn"@.len() == 4 && "warn"@[0] == 'w');
    assert("warning"@.len() == 7);
    assert("info"@.len() == 4 && "info"@[0] == 'i');
    assert("debug"@.len() == 5 && "debug"@[0] == 'd');
    assert("trace"@.len() == 5 && "trace"@[0] == 't');
    assert("daily"@[0] == 'd');
    assert("never"@[0] == 'n');
}

/// Every label is five characters wide, and both the label and the name tell the level.
pub proof fn labels_tell_the_levels_apart(level: Level, label: &str, name: &str)
    requires
        call_ensures(Level::label, (level,), label),
        call_ensures(Level::name, (level,), name),
    ensures
        label@.len() == 5,
        level is Error <==> label@ == "ERROR"@,
        level is Error <==> name@ == "Error"@,
        level is Warn <==> label@ == "WARN "@,
        level is Warn <==> name@ == "Warn"@,
        level is Info <==> label@ == "INFO "@,
        level is Info <==> name@ == "Info"@,
        level is Debug <==> label@ == "DEBUG"@,
        level is Debug <==> name@ == "Debug"@,
        level is Trace <==> label@ == "TRACE"@,
        level is Trace <==> name@ == "Trace"@,
{
    reveal_strlit("ERROR");
    reveal_strlit("Error");
    assert("ERROR"@.len() == 5 && "ERROR"@[0] == 'E');
    assert("Error"@[0] == 'E');
    reveal_strlit("WARN ");
    reveal_strlit("Warn");
    assert("WARN "@.len() == 5 && "WARN "@[0] == 'W');
    assert("Warn"@[0] == 'W');
    reveal_strlit("INFO ");
    reveal_strlit("Info");
    assert("INFO "@.len() == 5 && "INFO "@[0] == 'I');
    assert("Info"@[0] == 'I');
    reveal_strlit("DEBUG");
    reveal_strlit("Debug");
    assert("DEBUG"@.len() == 5 && "DEBUG"@[0] == 'D');
    assert("Debug"@[0] == 'D');
    reveal_strlit("TRACE");
    reveal_strlit("Trace");
    assert("TRACE"@.len() == 5 && "TRACE"@[0] == 'T');
    assert("Trace"@[0] == 'T');
}

proof fn lemma_zeros_in_front(count: nat, digits: Seq<char>)
    ensures
        text::decimal_value(text::repeated('0', count) + digits) == text::decimal_value(digits),
    decreases count + digits.len(),
{
    let all = text::repeated('0', count) + digits;
    if digits.len() > 0 {
        assert(all.drop_last() == text::repeated('0', count) + digits.drop_last());
        lemma_zeros_in_front(count, digits.drop_last());
    } else if count > 0 {
        let fewer = (count - 1) as nat;
        assert(all.drop_last() == text::repeated('0', fewer) + digits);
        assert(all.last() == '0');
        lemma_zeros_in_front(fewer, digits);
    }
}

/// A number filled up with zeros still reads back, and is as wide as asked for.
proof fn lemma_padded(n: u16, width: nat)
    requires
        width == 2 && n < 100 || width == 3 && n < 1000 || width == 4 && n < 10_000,
    ensures
        zero_padded(n, width).len() == width,
        text::decimal_value(zero_padded(n, width)) == n,
{
    let digits = text::decimal(n as nat);
    text::a_number_reads_back(n as nat);
    reveal_with_fuel(text::decimal, 5);
    assert(digits.len() <= width);
    lemma_zeros_in_front((width - digits.len()) as nat, digits);
    if digits.len() == width {
        assert(zero_padded(n, width) == digits);
    }
}

/// The time of a record has a fixed shape, from which every part of it reads back: the day
/// first, then the time of day down to the millisecond.
pub proof fn a_time_stamp_reads_back(t: &LocalTime, out: (String, String))
    requires
        call_ensures(now, (t,), out),
        t.year < 10_000 && t.month < 100 && t.day < 100,
        t.hour < 100 && t.minute < 100 && t.second < 100 && t.milliseconds < 1000,
    ensures
        ({
            let s = out.0@;
            &&& out.1@ == s.subrange(0, 10)
            &&& s.len() == 23
            &&& s[4] == '-' && s[7] == '-' && s[10] == ' ' && s[13] == ':' && s[16] == ':' && s[19]
                == '.'
            &&& text::decimal_value(s.subrange(0, 4)) == t.year
            &&& text::decimal_value(s.subrange(5, 7)) == t.month
            &&& text::decimal_value(s.subrange(8, 10)) == t.day
            &&& text::decimal_value(s.subrange(11, 13)) == t.hour
            &&& text::decimal_value(s.subrange(14, 16)) == t.minute
            &&& text::decimal_value(s.subrange(17, 19)) == t.second
            &&& text::decimal_value(s.subrange(20, 23)) == t.milliseconds
        }),
{
    reveal_strlit("-");
    reveal_strlit(" ");
    reveal_strlit(":");
    reveal_strlit(".");
    lemma_padded(t.year, 4);
    lemma_padded(t.month, 2);
    lemma_padded(t.day, 2);
    lemma_padded(t.hour, 2);
    lemma_padded(t.minute, 2);
    lemma_padded(t.second, 2);
    lemma_padded(t.milliseconds, 3);
    let s = out.0@;
    assert(s.subrange(0, 10) == t.day_text());
    assert(s.subrange(0, 4) == zero_padded(t.year, 4));
    assert(s.subrange(5, 7) == zero_padded(t.month, 2));
    assert(s.subrange(8, 10) == zero_padded(t.day, 2));
    assert(s.subrange(11, 13) == zero_padded(t.hour, 2));
    assert(s.subrange(14, 16) == zero_padded(t.minute, 2));
    assert(s.subrange(17, 19) == zero_padded(t.second, 2));
    assert(s.subrange(20, 23) == zero_padded(t.milliseconds, 3));
}

/// With a daily rotation every day has a file of its own, otherwise all days share one;
/// either way the name begins with the configured one, so the file counts as ours.
pub proof fn every_day_has_its_file(sink: Sink, a: Seq<char>, b: Seq<char>)
    ensures
        sink.rotation is Daily ==> (sink.file_of(a) == sink.file_of(b) <==> a == b),
        sink.rotation is Never ==> sink.file_of(a) == sink.file_name@ && sink.file_of(b)
            == sink.file_name@,
        text::begins_with(sink.file_of(a), sink.file_name@),
{
    let name = sink.file_of(a);
    assert(name.subrange(0, sink.file_name@.len() as int) == sink.file_name@);
    if sink.rotation is Daily && sink.file_of(a) == sink.file_of(b) {
        let skip = sink.file_name@.len() + "."@.len();
        assert(sink.file_of(a).skip(skip as int) == a);
        assert(sink.file_of(b).skip(skip as int) == b);
    }
}

/// Before a line is written its file is open: a file is opened exactly where none is, or
/// where the open one belongs to another day, which is closed then. Nothing else of the
/// sink changes, and the limit is enforced only where a file is opened.
pub proof fn a_line_goes_to_the_file_of_its_day(sink: &mut Sink, day: &str, plan: FilePlan)
    requires
        call_ensures(Sink::prepare, (sink, day), plan),
    ensures
        plan.close <==> old(sink).rotation is Daily && old(sink).day@ != day@,
        plan.open is Some <==> !old(sink).open || (old(sink).rotation is Daily && old(sink).day@
            != day@),
        plan.open matches Some(name) ==> name@ == match old(sink).rotation {
            Rotation::Daily => old(sink).file_name@ + "."@ + day@,
            Rotation::Never => old(sink).file_name@,
        },
        plan.prune ==> plan.open is Some && old(sink).max_files > 0,
        old(sink).max_files > 0 && plan.close ==> plan.prune,
        old(sink).max_files > 0 && !old(sink).open && old(sink).day@.len() == 0 ==> plan.prune,
        final(sink).open <==> plan.open is None,
        final(sink).day@ == old(sink).day@,
        final(sink).file_name == old(sink).file_name,
        final(sink).rotation == old(sink).rotation,
        final(sink).max_files == old(sink).max_files,
        final(sink).file_error_reported == old(sink).file_error_reported,
{
}

/// A file that was opened makes the sink writable for its day; a failure leaves the day and
/// is reported the first time only.
pub proof fn an_opened_file_belongs_to_its_day(
    sink: &mut Sink,
    day: &str,
    success: bool,
    report: bool,
)
    requires
        call_ensures(Sink::opened, (sink, day, success), report),
    ensures
        success ==> final(sink).open && final(sink).day@ == day@ && !report,
        !success ==> final(sink).open == old(sink).open && final(sink).day@ == old(sink).day@,
        report <==> !success && !old(sink).file_error_reported,
        final(sink).file_error_reported <==> old(sink).file_error_reported || !success,
        final(sink).file_name == old(sink).file_name,
        final(sink).rotation == old(sink).rotation,
        final(sink).max_files == old(sink).max_files,
{
}

/// Ordering files puts one more behind every file that is at least as new and in front of
/// every older one: files of the same age keep the order of the listing.
pub proof fn one_more_file_finds_its_place(files: Seq<LogFile>, file: LogFile)
    ensures
        newest_first(Seq::empty()) == Seq::<LogFile>::empty(),
        exists|at: int|
            0 <= at <= newest_first(files).len() && newest_first(files.push(file))
                == #[trigger] newest_first(files).insert(at, file) && (forall|i: int|
                0 <= i < at ==> (#[trigger] newest_first(files)[i]).modified >= file.modified) && (
            forall|i: int|
                at <= i < newest_first(files).len() ==> (#[trigger] newest_first(files)[i]).modified
                    < file.modified),
{
    let sorted = newest_first(files);
    assert(files.push(file).drop_last() == files);
    lemma_sorted(files);
    let at = lemma_place(sorted, file);
    assert(newest_first(files.push(file)) == sorted.insert(at, file));
}

proof fn lemma_place(files: Seq<LogFile>, file: LogFile) -> (at: int)
    requires
        is_newest_first(files),
    ensures
        0 <= at <= files.len(),
        placed(files, file) == files.insert(at, file),
        forall|i: int| 0 <= i < at ==> (#[trigger] files[i]).modified >= file.modified,
        forall|i: int| at <= i < files.len() ==> (#[trigger] files[i]).modified < file.modified,
    decreases files.len(),
{
    if files.len() == 0 || files.last().modified >= file.modified {
        assert(files.push(file) == files.insert(files.len() as int, file));
        assert forall|i: int| 0 <= i < files.len() implies (#[trigger] files[i]).modified
            >= file.modified by {
            assert(files[i].modified >= files[files.len() - 1].modified);
        }
        files.len() as int
    } else {
        let rest = files.drop_last();
        let at = lemma_place(rest, file);
        assert(rest.insert(at, file).push(files.last()) == files.insert(at, file));
        assert forall|i: int| 0 <= i < at implies (#[trigger] files[i]).modified
            >= file.modified by {
            assert(rest[i] == files[i]);
        }
        assert forall|i: int| at <= i < files.len() implies (#[trigger] files[i]).modified
            < file.modified by {
            if i < rest.len() {
                assert(rest[i] == files[i]);
            }
        }
        at
    }
}

/// What the executable functions remove is what the laws on pruning speak of: nothing is
/// removed without a limit, and never a file that is not ours.
pub proof fn only_our_files_are_removed(
    files: &Vec<LogFile>,
    prefix: &str,
    keep: usize,
    removed: Vec<LogFile>,
    sink: &Sink,
    opened: Option<&str>,
    overdue: Vec<LogFile>,
)
    requires
        call_ensures(prune, (files, prefix, keep), removed),
        call_ensures(Sink::overdue, (sink, files, opened), overdue),
        files@.no_duplicates(),
    ensures
        removed@ == pruned(files@, prefix@, keep as nat),
        forall|r: LogFile| #[trigger]
            removed@.contains(r) ==> files@.contains(r) && text::begins_with(r.name@, prefix@),
        sink.max_files == 0 ==> overdue@.len() == 0,
        forall|r: LogFile| #[trigger]
            overdue@.contains(r) ==> files@.contains(r) && text::begins_with(
                r.name@,
                sink.file_name@,
            ) && (opened matches Some(name) ==> r.name@ != name@),
        opened is None && sink.max_files > 0 ==> overdue@ == overdue_files(
            files@,
            sink.file_name@,
            sink.max_files as nat,
            None,
        ),
        opened matches Some(name) ==> overdue@ == overdue_files(
            files@,
            sink.file_name@,
            sink.max_files as nat,
            Some(name@),
        ),
{
    pruning_leaves_the_limit(files@, prefix@, keep as nat);
    if sink.max_files > 0 {
        match opened {
            None => {
                pruning_leaves_the_limit(files@, sink.file_name@, sink.max_files as nat);
            },
            Some(name) => {
                let other = |f: LogFile| !f.is_named(name@);
                let rest = others(files@, name@);
                lemma_filter_is_distinct(files@, other);
                lists::lemma_filter_members(files@, other);
                pruning_leaves_the_limit(rest, sink.file_name@, (sink.max_files - 1) as nat);
                assert forall|r: LogFile| #[trigger] overdue@.contains(r) implies files@.contains(r)
                    && text::begins_with(r.name@, sink.file_name@) && r.name@ != name@ by {
                    assert(rest.contains(r));
                    let i = choose|i: int| 0 <= i < rest.len() && rest[i] == r;
                    assert(other(rest[i]) && files@.contains(rest[i]));
                }
            },
        }
    }
}

/// Before there is a logger a record tells its level and its target in front of its text, and
/// a line in a file ends where the next one begins.
pub proof fn an_early_record_tells_its_level(
    level: Level,
    target: &str,
    record: &str,
    t: &LocalTime,
    out: Output,
    text: &str,
    line: String,
)
    requires
        call_ensures(write, (None, level, target, record, t), out),
        call_ensures(file_line, (text,), line),
    ensures
        out matches Output::Stderr(told) && told@ == level.name_text() + " "@ + target@ + ": "@
            + record@,
        text::begins_with(line@, text@),
        line@.len() == text@.len() + 2,
        line@[text@.len() as int] == '\r',
        line@.last() == '\n',
{
    reveal_strlit("\r\n");
    assert(line@.subrange(0, text@.len() as int) == text@);
}

/// At start-up the limit is enforced where the directory is there and there is a limit; a
/// logger is there once it has been built, and a sink is writable while its file is open.
pub proof fn small_questions_have_their_answers(
    directory_ready: bool,
    max_files: usize,
    prunes: bool,
    logger: Option<&Logger>,
    there: bool,
    sink: &Sink,
    writable: bool,
    settings: &Settings<'_>,
    fresh: Sink,
)
    requires
        call_ensures(prunes_at_start, (directory_ready, max_files), prunes),
        call_ensures(is_initialized, (logger,), there),
        call_ensures(Sink::writable, (sink,), writable),
        call_ensures(Sink::new, (settings,), fresh),
    ensures
        prunes <==> directory_ready && max_files != 0,
        there <==> logger is Some,
        writable <==> sink.open,
        !fresh.open && fresh.day@.len() == 0 && !fresh.file_error_reported,
        fresh.file_name@ == settings.file_name@,
        fresh.rotation == settings.rotation,
        fresh.max_files == settings.max_files,
{
}

/// The types and the numbers of the event log tell the levels.
pub proof fn event_types_tell_the_levels(level: Level, kind: u16, id: u32)
    requires
        call_ensures(Level::event_type, (level,), kind),
        call_ensures(Level::event_id, (level,), id),
    ensures
        kind == 1 <==> level is Error,
        kind == 2 <==> level is Warn,
        kind == 4 <==> level is Info || level is Debug || level is Trace,
        id == 1000 <==> level is Error,
        id == 1001 <==> level is Warn,
        id == 1002 <==> level is Info,
        id == 1003 <==> level is Debug,
        id == 1004 <==> level is Trace,
{
}

} // verus!
