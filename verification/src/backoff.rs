//! Exponential back-off with a cap and a little jitter.

use vstd::prelude::*;

use crate::config::MonitorConfig;

verus! {

/// Seed of the jitter when the clock stands before its epoch.
pub const DEFAULT_SEED: u64 = 0x9E37_79B9_7F4A_7C15;

/// What a [`Backoff`] is made of.
pub struct BackoffView {
    /// First delay in seconds.
    pub base: u64,
    /// Cap in seconds.
    pub max: u64,
    /// Jitter in seconds, in either direction.
    pub jitter: u64,
    /// Consecutive failed attempts.
    pub attempts: u32,
    /// State of the random number generator.
    pub seed: u64,
}

/// Delay in front of the given attempt without jitter: it starts at `base`,
/// doubles with each further attempt and is capped.
pub open spec fn plain_delay(base: u64, max: u64, attempt: nat) -> int {
    let grown = base * vstd::arithmetic::power2::pow2((attempt - 1) as nat);
    if grown < max {
        grown
    } else {
        max as int
    }
}

/// A delay moved by the jitter: `random` picks a place in the range from `jitter`
/// below to `jitter` above. It is never less than a second.
pub open spec fn jittered(seconds: int, jitter: u64, random: u64) -> int {
    let span = if 2 * jitter + 1 > u64::MAX {
        u64::MAX as int
    } else {
        2 * jitter + 1
    };
    let moved = seconds + random as int % span - jitter;
    if moved > u64::MAX {
        u64::MAX as int
    } else if moved < 1 {
        1
    } else {
        moved
    }
}

/// The number behind another one in the xorshift64 sequence.
pub open spec fn xorshift(seed: u64) -> u64 {
    let a = seed ^ (seed << 13u64);
    let b = a ^ (a >> 7u64);
    b ^ (b << 17u64)
}

impl BackoffView {
    /// What the constructors establish and every method keeps.
    pub open spec fn is_sound(self) -> bool {
        &&& 1 <= self.base <= self.max
        &&& self.seed != 0
    }

    /// The back-off that the configuration asks for, before the first attempt.
    pub open spec fn is_fresh(self, cfg: MonitorConfig) -> bool {
        &&& self.base == if cfg.reconnect_delay_secs < 1 {
            1
        } else {
            cfg.reconnect_delay_secs
        }
        &&& self.max == if cfg.max_backoff_secs < self.base {
            self.base
        } else {
            cfg.max_backoff_secs
        }
        &&& self.jitter == cfg.backoff_jitter_secs
        &&& self.attempts == 0
    }

    /// The back-off after one more attempt.
    pub open spec fn advanced(self) -> BackoffView {
        BackoffView {
            attempts: if self.attempts == u32::MAX {
                u32::MAX
            } else {
                (self.attempts + 1) as u32
            },
            seed: if self.jitter == 0 {
                self.seed
            } else {
                xorshift(self.seed)
            },
            ..self
        }
    }

    /// Delay in front of the next attempt without jitter, in seconds.
    pub open spec fn plain(self) -> int {
        plain_delay(self.base, self.max, self.advanced().attempts as nat)
    }

    /// Delay in front of the next attempt, in seconds.
    pub open spec fn delay(self) -> int {
        if self.jitter == 0 {
            self.plain()
        } else {
            jittered(self.plain(), self.jitter, xorshift(self.seed))
        }
    }
}

/// Exponential back-off with a cap and a little jitter.
pub struct Backoff {
    base: u64,
    max: u64,
    jitter: u64,
    attempts: u32,
    seed: u64,
}

impl View for Backoff {
    type V = BackoffView;

    closed spec fn view(&self) -> BackoffView {
        BackoffView {
            base: self.base,
            max: self.max,
            jitter: self.jitter,
            attempts: self.attempts,
            seed: self.seed,
        }
    }
}

impl Backoff {
    #[verifier::type_invariant]
    spec fn sound(self) -> bool {
        self@.is_sound()
    }

    /// Back-off for the configuration, with the clock as the source of chance: the
    /// seed is some odd number.
    pub fn new(cfg: &MonitorConfig) -> (backoff: Self)
        ensures
            backoff@.is_sound(),
            backoff@.is_fresh(*cfg),
            backoff@.seed % 2 == 1,
    {
        let seed = match clock_nanos() {
            Some(nanos) => nanos,
            None => DEFAULT_SEED,
        };
        Self::with_seed(cfg, seed)
    }

    /// Back-off for the configuration, with a given source of chance.
    pub fn with_seed(cfg: &MonitorConfig, seed: u64) -> (backoff: Self)
        ensures
            backoff@.is_sound(),
            backoff@.is_fresh(*cfg),
            backoff@.seed == seed | 1,
            backoff@.seed % 2 == 1,
    {
        let base: u64 = if cfg.reconnect_delay_secs < 1 {
            1
        } else {
            cfg.reconnect_delay_secs
        };
        let max: u64 = if cfg.max_backoff_secs < base {
            base
        } else {
            cfg.max_backoff_secs
        };
        let odd = seed | 1;
        assert(odd % 2 == 1) by (bit_vector)
            requires
                odd == seed | 1,
        ;
        Backoff { base, max, jitter: cfg.backoff_jitter_secs, attempts: 0, seed: odd }
    }

    /// Consecutive failed attempts since the last success.
    pub fn attempts(&self) -> (n: u32)
        ensures
            n == self@.attempts,
    {
        self.attempts
    }

    /// Forgets the failed attempts.
    pub fn reset(&mut self)
        ensures
            final(self)@ == (BackoffView { attempts: 0, ..old(self)@ }),
            final(self)@.is_sound(),
    {
        proof {
            use_type_invariant(&*self);
        }
        self.attempts = 0;
    }

    /// Next delay in seconds: `base * 2^(attempts-1)`, capped, plus `+/- jitter`,
    /// and never less than a second.
    pub fn next_delay(&mut self) -> (secs: u64)
        ensures
            secs == old(self)@.delay(),
            secs >= 1,
            old(self)@.plain() - old(self)@.jitter <= secs <= old(self)@.plain() + old(
                self,
            )@.jitter,
            final(self)@ == old(self)@.advanced(),
            final(self)@.is_sound(),
    {
        proof {
            use_type_invariant(&*self);
        }
        self.attempts = self.attempts.saturating_add(1);
        let seconds = grown(self.base, self.max, self.attempts - 1);
        proof {
            delays_double_up_to_the_cap(self.base, self.max, self.attempts as nat);
        }
        if self.jitter == 0 {
            return seconds;
        }
        let span: u64 = if self.jitter > u64::MAX / 2 {
            u64::MAX
        } else {
            2 * self.jitter + 1
        };
        let jitter = self.jitter;
        let random = self.next_random();
        let offset: u64 = random % span;
        let reach: u128 = seconds as u128 + offset as u128;
        if reach <= jitter as u128 {
            return 1;
        }
        let moved: u128 = reach - jitter as u128;
        if moved > u64::MAX as u128 {
            u64::MAX
        } else {
            moved as u64
        }
    }

    /// Steps the random number generator. A xorshift sequence is all that jitter
    /// needs.
    fn next_random(&mut self) -> (x: u64)
        ensures
            x == xorshift(old(self)@.seed),
            final(self)@ == (BackoffView { seed: x, ..old(self)@ }),
            final(self)@.is_sound(),
    {
        proof {
            use_type_invariant(&*self);
            xorshift_never_stalls(self.seed);
        }
        let mut x: u64 = self.seed;
        x ^= x << 13u64;
        x ^= x >> 7u64;
        x ^= x << 17u64;
        self.seed = x;
        x
    }
}

/// `std::time::SystemTime::elapsed` of the epoch: the nanoseconds since then, in 64
/// bits; `None` when the clock stands before the epoch. Nothing is claimed of the
/// time.
#[verifier::external_body]
fn clock_nanos() -> (nanos: Option<u64>) {
    std::time::UNIX_EPOCH.elapsed().ok().map(|d| d.as_nanos() as u64)
}

fn grown(base: u64, max: u64, shift: u32) -> (seconds: u64)
    requires
        1 <= base,
    ensures
        seconds == plain_delay(base, max, (shift + 1) as nat),
{
    if shift >= 64 {
        proof {
            lemma_outgrown(base, shift);
        }
        return max;
    }
    let factor: u64 = 1u64 << shift;
    proof {
        lemma_factor(shift);
        let f = factor as int;
        let q = max as int / f;
        if base > q {
            assert(base * f > max) by (nonlinear_arith)
                requires
                    base > max as int / f,
                    f > 0,
            ;
        } else {
            assert(base * f <= max) by (nonlinear_arith)
                requires
                    base <= max as int / f,
                    f > 0,
            ;
        }
    }
    if base > max / factor {
        max
    } else {
        base * factor
    }
}

proof fn lemma_factor(shift: u32)
    requires
        shift < 64,
    ensures
        1u64 << shift == vstd::arithmetic::power2::pow2(shift as nat),
        1u64 << shift > 0,
{
    vstd::arithmetic::power2::lemma_pow2_pos(shift as nat);
    vstd::arithmetic::power2::lemma2_to64();
    vstd::arithmetic::power2::lemma_pow2_strictly_increases(shift as nat, 64);
    vstd::bits::lemma_u64_shl_is_mul(1, shift as u64);
    assert(1u64 << shift == 1u64 << (shift as u64)) by (bit_vector)
        requires
            shift < 64,
    ;
}

/// After 64 doublings every delay is beyond what 64 bits hold.
proof fn lemma_outgrown(base: u64, shift: u32)
    requires
        1 <= base,
        shift >= 64,
    ensures
        base * vstd::arithmetic::power2::pow2(shift as nat) > u64::MAX,
{
    vstd::arithmetic::power2::lemma2_to64();
    if shift > 64 {
        vstd::arithmetic::power2::lemma_pow2_strictly_increases(64, shift as nat);
    }
    let p = vstd::arithmetic::power2::pow2(shift as nat) as int;
    assert(base * p >= p) by (nonlinear_arith)
        requires
            base >= 1,
            p >= 0,
    ;
}

/// The random numbers never run dry: a number that is not zero is followed by one
/// that is not zero.
pub proof fn xorshift_never_stalls(seed: u64)
    requires
        seed != 0,
    ensures
        xorshift(seed) != 0,
{
    let a = seed ^ (seed << 13u64);
    let b = a ^ (a >> 7u64);
    assert(seed != 0 ==> seed ^ (seed << 13u64) != 0) by (bit_vector);
    assert(a != 0 ==> a ^ (a >> 7u64) != 0) by (bit_vector);
    assert(b != 0 ==> b ^ (b << 17u64) != 0) by (bit_vector);
}

/// Without jitter the first delay is the configured one, each further delay is
/// twice the one before until the cap is reached, and none is longer than the cap.
pub proof fn delays_double_up_to_the_cap(base: u64, max: u64, attempt: nat)
    requires
        1 <= base <= max,
        attempt >= 1,
    ensures
        plain_delay(base, max, 1) == base,
        base <= plain_delay(base, max, attempt) <= max,
        plain_delay(base, max, attempt + 1) == if 2 * plain_delay(base, max, attempt) < max {
            2 * plain_delay(base, max, attempt)
        } else {
            max as int
        },
{
    vstd::arithmetic::power2::lemma2_to64();
    let shift = (attempt - 1) as nat;
    vstd::arithmetic::power2::lemma_pow2_pos(shift);
    vstd::arithmetic::power2::lemma_pow2_unfold(shift + 1);
    assert((attempt + 1 - 1) as nat == shift + 1);
    let p = vstd::arithmetic::power2::pow2(shift) as int;
    assert(base * p >= base) by (nonlinear_arith)
        requires
            p > 0,
    ;
    assert(base * (2 * p) == 2 * (base * p)) by (nonlinear_arith);
    let one = vstd::arithmetic::power2::pow2(0) as int;
    assert(base * one == base) by (nonlinear_arith)
        requires
            one == 1,
    ;
}

/// The jitter moves a delay by no more than its own size, however short the delay
/// is, and no delay is shorter than a second.
pub proof fn jitter_stays_within_its_range(seconds: u64, jitter: u64, random: u64)
    requires
        1 <= seconds,
    ensures
        seconds - jitter <= jittered(seconds as int, jitter, random) <= seconds + jitter,
        jittered(seconds as int, jitter, random) >= 1,
{
}

/// A success starts the delays over: behind it the next delay is the first one
/// again, moved by the jitter.
pub proof fn a_reset_starts_over(b: BackoffView)
    requires
        b.is_sound(),
    ensures
        (BackoffView { attempts: 0, ..b }).delay() == if b.jitter == 0 {
            b.base as int
        } else {
            jittered(b.base as int, b.jitter, xorshift(b.seed))
        },
{
    delays_double_up_to_the_cap(b.base, b.max, 1);
}

/// No delay is shorter than a second.
pub proof fn a_delay_is_never_empty(b: BackoffView)
    requires
        b.is_sound(),
    ensures
        1 <= b.delay() <= u64::MAX,
{
    delays_double_up_to_the_cap(b.base, b.max, b.advanced().attempts as nat);
}

/// Without jitter a run of failures is waited out with the configured delay first, then
/// with twice the delay before, up to the cap. The settings stay, and every delay
/// counts one attempt.
pub proof fn each_failure_doubles_the_delay(b: BackoffView)
    requires
        b.is_sound(),
        b.jitter == 0,
    ensures
        b.attempts == 0 ==> b.delay() == b.base,
        b.delay() <= b.max,
        b.attempts < u32::MAX - 1 ==> b.advanced().delay() == if 2 * b.delay() < b.max {
            2 * b.delay()
        } else {
            b.max as int
        },
        b.advanced().attempts == if b.attempts < u32::MAX {
            b.attempts + 1
        } else {
            u32::MAX as int
        },
        b.advanced().base == b.base,
        b.advanced().max == b.max,
        b.advanced().jitter == b.jitter,
{
    delays_double_up_to_the_cap(b.base, b.max, b.advanced().attempts as nat);
}

/// The jitter moves the delay that would be waited without it, by no more than its own
/// size, and changes nothing about the attempts that are counted.
pub proof fn jitter_moves_the_plain_delay(b: BackoffView)
    requires
        b.is_sound(),
    ensures
        ({
            let plain = BackoffView { jitter: 0, ..b };
            &&& plain.delay() - b.jitter <= b.delay() <= plain.delay() + b.jitter
            &&& b.delay() >= 1
            &&& b.advanced().attempts == plain.advanced().attempts
            &&& b.advanced().base == b.base
            &&& b.advanced().max == b.max
            &&& b.advanced().jitter == b.jitter
        }),
{
    delays_double_up_to_the_cap(b.base, b.max, b.advanced().attempts as nat);
    jitter_stays_within_its_range(b.plain() as u64, b.jitter, xorshift(b.seed));
}

/// The jitter reaches every place of its range, in both directions: some random number
/// leads to each of them.
pub proof fn jitter_reaches_its_whole_range(seconds: u64, jitter: u64, offset: int)
    requires
        jitter <= u64::MAX / 2,
        -jitter <= offset <= jitter,
        1 <= seconds + offset <= u64::MAX,
    ensures
        jittered(seconds as int, jitter, (jitter + offset) as u64) == seconds + offset,
{
    let span = 2 * jitter + 1;
    let random = (jitter + offset) as u64;
    assert(random as int % span == random as int) by (nonlinear_arith)
        requires
            0 <= random < span,
            span == 2 * jitter + 1,
    ;
}

/// Different random numbers are followed by different ones, so the sequence does not
/// run into a fixed end.
pub proof fn random_numbers_do_not_merge(a: u64, b: u64)
    requires
        xorshift(a) == xorshift(b),
    ensures
        a == b,
{
    let a1 = a ^ (a << 13u64);
    let a2 = a1 ^ (a1 >> 7u64);
    let b1 = b ^ (b << 13u64);
    let b2 = b1 ^ (b1 >> 7u64);
    assert(a2 ^ (a2 << 17u64) == b2 ^ (b2 << 17u64) ==> a2 == b2) by (bit_vector);
    assert(a1 ^ (a1 >> 7u64) == b1 ^ (b1 >> 7u64) ==> a1 == b1) by (bit_vector);
    assert(a ^ (a << 13u64) == b ^ (b << 13u64) ==> a == b) by (bit_vector);
}

/// A new back-off waits the configured first delay first, never much longer than the
/// configured cap, and has counted nothing yet, whatever its source of chance.
pub proof fn a_new_back_off_follows_the_configuration(
    cfg: &MonitorConfig,
    seed: u64,
    seeded: Backoff,
    clocked: Backoff,
)
    requires
        call_ensures(Backoff::with_seed, (cfg, seed), seeded),
        call_ensures(Backoff::new, (cfg,), clocked),
        1 <= cfg.reconnect_delay_secs <= cfg.max_backoff_secs,
    ensures
        seeded@.attempts == 0 && clocked@.attempts == 0,
        seeded@.base == cfg.reconnect_delay_secs && clocked@.base == cfg.reconnect_delay_secs,
        seeded@.max == cfg.max_backoff_secs && clocked@.max == cfg.max_backoff_secs,
        seeded@.jitter == cfg.backoff_jitter_secs && clocked@.jitter == cfg.backoff_jitter_secs,
        cfg.backoff_jitter_secs == 0 ==> seeded@.delay() == cfg.reconnect_delay_secs
            && clocked@.delay() == cfg.reconnect_delay_secs,
{
    delays_double_up_to_the_cap(seeded@.base, seeded@.max, 1);
    delays_double_up_to_the_cap(clocked@.base, clocked@.max, 1);
}

/// Taking a delay counts one attempt and keeps the settings; forgetting the attempts
/// leaves none of them and keeps the settings too.
pub proof fn attempts_are_counted_and_forgotten(
    b: &mut Backoff,
    secs: u64,
    other: &mut Backoff,
    done: (),
)
    requires
        old(b)@.is_sound(),
        call_ensures(Backoff::next_delay, (b,), secs),
        call_ensures(Backoff::reset, (other,), done),
    ensures
        old(b)@.attempts < u32::MAX ==> final(b)@.attempts == old(b)@.attempts + 1,
        final(b)@.base == old(b)@.base,
        final(b)@.max == old(b)@.max,
        final(b)@.jitter == old(b)@.jitter,
        1 <= secs,
        old(b)@.jitter == 0 && old(b)@.attempts == 0 ==> secs == old(b)@.base,
        old(b)@.max + old(b)@.jitter >= secs,
        final(other)@.attempts == 0,
        final(other)@.base == old(other)@.base,
        final(other)@.max == old(other)@.max,
        final(other)@.jitter == old(other)@.jitter,
{
    delays_double_up_to_the_cap(b@.base, b@.max, b@.advanced().attempts as nat);
}

/// Of a random number only its place in the range counts: one that is larger by the width of
/// the range moves a delay to the same place.
pub proof fn the_range_is_walked_around(seconds: u64, jitter: u64, random: u64)
    requires
        jitter <= u64::MAX / 2,
        random + 2 * jitter + 1 <= u64::MAX,
    ensures
        jittered(seconds as int, jitter, (random + 2 * jitter + 1) as u64) == jittered(
            seconds as int,
            jitter,
            random,
        ),
{
    let span = 2 * jitter + 1;
    vstd::arithmetic::div_mod::lemma_mod_add_multiples_vanish(random as int, span);
    assert((random + span) as int % span == random as int % span);
}

} // verus!
