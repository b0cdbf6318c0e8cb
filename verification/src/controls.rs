//! Small decisions of the user interface that do not depend on the window
//! system: reading the port field, and stepping while an arrow key is held.
use vstd::prelude::*;
use crate::text::{is_digit, char_is_digit, chars_of};
use crate::sequence::digits_value;

verus! {

/// The digits of a port field: an optional leading `+` is allowed, as
/// `str::parse::<u16>` allows it.
pub open spec fn port_digits(s: Seq<char>) -> Seq<char> {
    if s.len() > 0 && s[0] == '+' {
        s.drop_first()
    } else {
        s
    }
}

/// Whether `str::parse::<u16>` accepts `s`: one or more ASCII digits (after
/// an optional `+`) whose value fits in 16 bits.
pub open spec fn parses_as_port(s: Seq<char>) -> bool {
    let d = port_digits(s);
    &&& d.len() > 0
    &&& forall|i: int| 0 <= i < d.len() ==> is_digit(#[trigger] d[i])
    &&& digits_value(d) <= u16::MAX
}

/// The port a connection uses: what the field says, or 22 when it does not
/// read as a port.
pub open spec fn port_or_default(s: Seq<char>) -> u16 {
    if parses_as_port(s) {
        digits_value(port_digits(s)) as u16
    } else {
        22
    }
}

proof fn lemma_digits_value_push(d: Seq<char>, c: char)
    ensures
        digits_value(d.push(c)) == digits_value(d) * 10 + ((c as int - '0' as int) as nat),
{
    assert(d.push(c).drop_last() =~= d);
}

/// Reads the port field (`parse().unwrap_or(22)`).
pub fn parse_port(s: &str) -> (port: u16)
    ensures
        port == port_or_default(s@),
{
    let chars = chars_of(s);
    let start: usize = if chars.len() > 0 && chars[0] == '+' { 1 } else { 0 };
    let ghost d = port_digits(s@);
    proof {
        assert(d =~= s@.skip(start as int));
    }
    if start >= chars.len() {
        return 22;
    }
    let mut value: u32 = 0;
    let mut i: usize = start;
    while i < chars.len()
        invariant
            start <= i <= chars.len(),
            chars@ == s@,
            d =~= s@.skip(start as int),
            d == port_digits(s@),
            forall|k: int| 0 <= k < i - start ==> is_digit(#[trigger] d[k]),
            value == digits_value(d.take(i - start)),
            value <= u16::MAX,
        decreases chars.len() - i,
    {
        let c = chars[i];
        proof {
            assert(d[i - start] == c);
            assert(d.take(i - start + 1) =~= d.take(i - start).push(c));
            lemma_digits_value_push(d.take(i - start), c);
        }
        if !char_is_digit(c) {
            proof {
                assert(!is_digit(d[i - start]));
                assert(!parses_as_port(s@));
            }
            return 22;
        }
        let digit: u32 = (c as u32) - ('0' as u32);
        if value > (65535 - digit) / 10 {
            proof {
                assert(value * 10 + digit > 65535) by (nonlinear_arith)
                    requires
                        value > (65535 - digit) / 10,
                        digit <= 9,
                ;
                // Every further digit only makes the value larger.
                if forall|k: int| 0 <= k < d.len() ==> is_digit(#[trigger] d[k]) {
                    lemma_digits_value_prefix(d, i - start + 1);
                }
                assert(!parses_as_port(s@));
            }
            return 22;
        }
        value = value * 10 + digit;
        i = i + 1;
    }
    proof {
        assert(d.take(i - start) =~= d);
    }
    value as u16
}

/// A longer run of digits is worth at least as much as its prefix.
proof fn lemma_digits_value_prefix(d: Seq<char>, n: int)
    requires
        0 <= n <= d.len(),
        forall|k: int| 0 <= k < d.len() ==> is_digit(#[trigger] d[k]),
    ensures
        digits_value(d) >= digits_value(d.take(n)),
    decreases d.len(),
{
    if n < d.len() {
        assert(d.drop_last().take(n) =~= d.take(n));
        assert forall|k: int| 0 <= k < d.drop_last().len() implies is_digit(#[trigger] d.drop_last()[k]) by {
            assert(d.drop_last()[k] == d[k]);
        }
        lemma_digits_value_prefix(d.drop_last(), n);
    } else {
        assert(d.take(n) =~= d);
    }
}

/// What to do with the scrub clock on this frame.
#[derive(Clone, Copy, PartialEq, Eq, Structural, Debug)]
pub enum ScrubClock {
    /// Leave it alone.
    Keep,
    /// Set it to now: a fresh press, or a reversal.
    Restart,
    /// Move it on by one whole interval (and resynchronise if still behind).
    Advance,
}

/// The outcome of one frame of arrow-key scrubbing.
#[derive(Clone, Copy, PartialEq, Eq, Structural, Debug)]
pub struct ScrubStep {
    /// Direction of the scrub in progress from now on, or 0.
    pub held: i8,
    /// Frames to step now (-1, 0 or 1).
    pub step: i8,
    pub clock: ScrubClock,
    /// Keep rendering continuously while a key is held.
    pub repaint: bool,
}

/// Arrow keys scrub the sequence: a tap moves one frame at once, holding
/// advances once per interval regardless of the key-repeat rate, and a
/// focused text field or slider keeps the arrow keys to itself.
/// `interval_elapsed` is whether a whole interval has passed since the clock.
pub fn scrub_step(held: i8, keyboard_taken: bool, right_down: bool, left_down: bool, interval_elapsed: bool) -> (s: ScrubStep)
    ensures
        ({
            let dir: int = (if right_down { 1int } else { 0int }) - (if left_down { 1int } else { 0int });
            if keyboard_taken || dir == 0 {
                s == ScrubStep { held: 0, step: 0, clock: ScrubClock::Keep, repaint: false }
            } else if held as int != dir {
                s == ScrubStep { held: dir as i8, step: dir as i8, clock: ScrubClock::Restart, repaint: true }
            } else if interval_elapsed {
                s == ScrubStep { held, step: dir as i8, clock: ScrubClock::Advance, repaint: true }
            } else {
                s == ScrubStep { held, step: 0, clock: ScrubClock::Keep, repaint: true }
            }
        }),
{
    if keyboard_taken {
        return ScrubStep { held: 0, step: 0, clock: ScrubClock::Keep, repaint: false };
    }
    let dir: i8 = (if right_down { 1i8 } else { 0i8 }) - (if left_down { 1i8 } else { 0i8 });
    if dir == 0 {
        ScrubStep { held: 0, step: 0, clock: ScrubClock::Keep, repaint: false }
    } else if held != dir {
        ScrubStep { held: dir, step: dir, clock: ScrubClock::Restart, repaint: true }
    } else if interval_elapsed {
        ScrubStep { held, step: dir, clock: ScrubClock::Advance, repaint: true }
    } else {
        ScrubStep { held, step: 0, clock: ScrubClock::Keep, repaint: true }
    }
}

} // verus!
