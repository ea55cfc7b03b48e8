pub mod logger;
pub mod text;
pub mod types;

use vstd::prelude::*;
use vstd::string::StrSliceExecFns;

use text::push_char;

verus! {

/// A reading of the system clock.
#[verifier::external_type_specification]
#[verifier::external_body]
pub struct ExSystemTime(std::time::SystemTime);

/// The error of measuring from a later reading of the clock.
#[verifier::external_type_specification]
#[verifier::external_body]
pub struct ExSystemTimeError(std::time::SystemTimeError);

/// `SystemTime::now`: the clock's current reading. Nothing is stated of it.
pub assume_specification[ std::time::SystemTime::now ]() -> std::time::SystemTime;

/// `UNIX_EPOCH`: the reading at the start of 1970. Nothing is stated of it.
#[verifier::external_body]
fn unix_epoch() -> std::time::SystemTime {
    std::time::UNIX_EPOCH
}

/// `SystemTime::duration_since`: the time from `earlier` to `t`, or an error
/// when `earlier` is later. Nothing is stated of which comes back, which
/// depends on the clock, nor of the duration.
pub assume_specification[ std::time::SystemTime::duration_since ](
    t: &std::time::SystemTime,
    earlier: std::time::SystemTime,
) -> core::result::Result<std::time::Duration, std::time::SystemTimeError>;

/// The current time, as time elapsed since the Unix epoch, or `None` when
/// the clock is set before the epoch. Nothing can be stated of which, nor of
/// the value: both depend on the clock.
pub fn now() -> Option<std::time::Duration> {
    match std::time::SystemTime::now().duration_since(unix_epoch()) {
        Ok(d) => Some(d),
        Err(_) => None,
    }
}

/// `Duration::as_nanos`: the whole length of a duration in nanoseconds.
/// Nothing is stated of the value.
pub assume_specification[ core::time::Duration::as_nanos ](d: &core::time::Duration) -> u128;

/// One step of the linear congruential generator.
pub open spec fn lcg_step(state: u64) -> u64 {
    ((state * 6364136223846793005u64 + 1442695040888963407u64) % 0x1_0000_0000_0000_0000) as u64
}

/// A small pseudo-random number generator.
pub(crate) struct Lcg {
    pub(crate) state: u64,
}

impl Lcg {
    /// A generator seeded from the clock: the nanoseconds since the epoch,
    /// cut to 64 bits, or 0 when the clock is set before the epoch.
    pub(crate) fn new() -> (r: Lcg) {
        let seed = match now() {
            Some(d) => #[verifier::truncate] (d.as_nanos() as u64),
            None => 0,
        };
        Lcg { state: seed }
    }

    /// A generator with a given seed.
    pub(crate) fn with_seed(seed: u64) -> (r: Lcg)
        ensures
            r.state == seed,
    {
        Lcg { state: seed }
    }

    /// Advances the generator and gives its new state.
    pub(crate) fn next_u64(&mut self) -> (r: u64)
        ensures
            r == lcg_step(old(self).state),
            final(self).state == r,
    {
        let st = self.state;
        let m = st.wrapping_mul(6364136223846793005);
        let s = m.wrapping_add(1442695040888963407);
        assert(((st * 6364136223846793005u64) % 0x1_0000_0000_0000_0000 + 1442695040888963407u64)
            % 0x1_0000_0000_0000_0000 == (st * 6364136223846793005u64 + 1442695040888963407u64)
            % 0x1_0000_0000_0000_0000) by (bit_vector);
        self.state = s;
        s
    }

    /// A number from `min` up to but not including `max`, or `min` when the
    /// range is empty.
    pub(crate) fn range(&mut self, min: u64, max: u64) -> (r: u64)
        ensures
            min >= max ==> r == min && final(self).state == old(self).state,
            min < max ==> r == min + lcg_step(old(self).state) % ((max - min) as u64) && final(self).state
                == lcg_step(old(self).state),
    {
        if min >= max {
            return min;
        }
        let x = self.next_u64();
        min + x % (max - min)
    }
}

/// The longest text an activity field is padded to.
pub const MAX_FIELD_LEN: u64 = 128;

/// `n` spaces.
pub open spec fn spaces(n: nat) -> Seq<char> {
    Seq::new(n, |i: int| ' ')
}

/// What padding a field may give: a field of `MAX_FIELD_LEN` characters or
/// more is kept; a shorter one gets between three spaces and as many as
/// fill it to `MAX_FIELD_LEN`, all of them when fewer than three fit.
pub open spec fn padded(before: Seq<char>, after: Seq<char>) -> bool {
    if before.len() >= MAX_FIELD_LEN {
        after == before
    } else {
        let available = MAX_FIELD_LEN - before.len();
        exists|k: nat|
            #![trigger spaces(k)]
            after == before + spaces(k) && (if available < 3 {
                k == available
            } else {
                3 <= k <= available
            })
    }
}

/// Appends `n` spaces.
fn push_spaces(s: &mut String, n: u64)
    ensures
        final(s)@ == old(s)@ + spaces(n as nat),
{
    let mut i: u64 = 0;
    while i < n
        invariant
            i <= n,
            s@ == old(s)@ + spaces(i as nat),
        decreases n - i,
    {
        push_char(s, ' ');
        i = i + 1;
        assert(s@ =~= old(s)@ + spaces(i as nat));
    }
}

/// The number of characters of a text.
fn char_count(s: &String) -> (r: u64)
    ensures
        r == s@.len() || (r == u64::MAX && s@.len() >= u64::MAX),
{
    let n = s.as_str().unicode_len();
    if n as u64 >= u64::MAX || (n as u128) > (u64::MAX as u128) {
        u64::MAX
    } else {
        n as u64
    }
}

/// How many spaces padding a field of `len` characters adds, given the
/// generator's state: none from `MAX_FIELD_LEN` characters on; all that fit
/// when fewer than three do; else three plus the generator's next number
/// modulo one more than the spaces that fit beyond three.
pub open spec fn pad_count(len: nat, state: u64) -> nat {
    if len >= MAX_FIELD_LEN {
        0
    } else {
        let available = (MAX_FIELD_LEN - len) as nat;
        if available < 3 {
            available
        } else {
            (3 + lcg_step(state) % ((available - 2) as u64)) as nat
        }
    }
}

/// Pads a field with spaces drawn from `lcg`, as `padded` describes: the
/// number of spaces is `pad_count`, and the generator advances exactly when
/// it is asked for a number.
pub(crate) fn pad_field_with(field: &mut Option<String>, lcg: &mut Lcg)
    ensures
        match *old(field) {
            None => *final(field) is None && final(lcg).state == old(lcg).state,
            Some(s) => *final(field) matches Some(t) && padded(s@, t@) && t@ == s@ + spaces(
                pad_count(s@.len(), old(lcg).state),
            ) && final(lcg).state == if s@.len() < MAX_FIELD_LEN && MAX_FIELD_LEN - s@.len() >= 3 {
                lcg_step(old(lcg).state)
            } else {
                old(lcg).state
            },
        },
{
    match field {
        Some(s) => {
            let len = char_count(s);
            if len >= MAX_FIELD_LEN {
                return;
            }
            let available = MAX_FIELD_LEN - len;
            let pad_len = if available < 3 {
                available
            } else {
                lcg.range(3, available + 1)
            };
            let ghost before = s@;
            push_spaces(s, pad_len);
            assert(s@ == before + spaces(pad_len as nat));
        },
        None => {},
    }
}

/// Pads a field with a random number of spaces, as `padded` describes, so
/// that Discord takes a resent activity as a change.
pub fn pad_activity_field(field: &mut Option<String>)
    ensures
        match *old(field) {
            None => *final(field) is None,
            Some(s) => *final(field) matches Some(t) && padded(s@, t@),
        },
{
    match field {
        Some(_) => {
            let mut lcg = Lcg::new();
            pad_field_with(field, &mut lcg);
        },
        None => {},
    }
}

/// Padding only appends spaces, never shortens a field, and never makes a
/// field that was shorter than `MAX_FIELD_LEN` longer than that; a field
/// that short always grows.
pub proof fn lemma_padded_bounds(before: Seq<char>, after: Seq<char>)
    requires
        padded(before, after),
    ensures
        after.len() >= before.len(),
        after.subrange(0, before.len() as int) == before,
        forall|i: int| before.len() <= i < after.len() ==> after[i] == ' ',
        before.len() < MAX_FIELD_LEN ==> before.len() < after.len() <= MAX_FIELD_LEN,
{
    if before.len() >= MAX_FIELD_LEN {
        assert(after.subrange(0, before.len() as int) =~= before);
    } else {
        let k = choose|k: nat|
            #![trigger spaces(k)]
            after == before + spaces(k) && (if MAX_FIELD_LEN - before.len() < 3 {
                k == MAX_FIELD_LEN - before.len()
            } else {
                3 <= k <= MAX_FIELD_LEN - before.len()
            });
        assert(after.subrange(0, before.len() as int) =~= before);
        assert forall|i: int| before.len() <= i < after.len() implies after[i] == ' ' by {
            assert(after[i] == spaces(k)[i - before.len()]);
        }
    }
}

} // verus!
