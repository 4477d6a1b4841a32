use vstd::prelude::*;

verus! {

/// The decimal digit character of `d` (0..=9).
pub open spec fn digit_char(d: int) -> char {
    (48 + d) as char
}

/// `n` (0..=99) written with two decimal digits, as `{:02}` writes it.
pub open spec fn two_digits(n: int) -> Seq<char> {
    seq![digit_char(n / 10), digit_char(n % 10)]
}

/// The clock face text of a time: "HH:MM".
pub open spec fn hh_mm(hour: int, minute: int) -> Seq<char> {
    two_digits(hour) + seq![':'] + two_digits(minute)
}

/// The text of a time reads back as that time: characters 0, 1, 3 and 4 are
/// decimal digits ('0'..='9'), the tens and units of the hour and of the
/// minute, and character 2 is ':'.
pub proof fn lemma_hh_mm_reads_back(hour: int, minute: int)
    requires
        0 <= hour < 100,
        0 <= minute < 100,
    ensures
        hh_mm(hour, minute).len() == 5,
        hh_mm(hour, minute)[2] == ':',
        forall|i: int|
            (i == 0 || i == 1 || i == 3 || i == 4) ==> 48 <= #[trigger] (hh_mm(hour, minute)[i] as int)
                <= 57,
        (hh_mm(hour, minute)[0] as int - 48) * 10 + (hh_mm(hour, minute)[1] as int - 48) == hour,
        (hh_mm(hour, minute)[3] as int - 48) * 10 + (hh_mm(hour, minute)[4] as int - 48) == minute,
{
    let t = hh_mm(hour, minute);
    assert(t[0] == digit_char(hour / 10));
    assert(t[1] == digit_char(hour % 10));
    assert(t[3] == digit_char(minute / 10));
    assert(t[4] == digit_char(minute % 10));
}

/// Appends `c` to `s` (`String::push`).
#[verifier::external_body]
fn push_char(s: &mut String, c: char)
    ensures
        final(s)@ == old(s)@.push(c),
{
    s.push(c);
}

fn push_digit(s: &mut String, d: u32)
    requires
        d < 10,
    ensures
        final(s)@ == old(s)@.push(digit_char(d as int)),
{
    let c = (48u8 + d as u8) as char;
    push_char(s, c);
}

/// Formats a time of day as "HH:MM", each field on two digits with a leading
/// zero (the five characters that the clock face shows). The fields must
/// fit in two digits: the five-character buffer refuses anything longer.
pub fn format_time_hh_mm(hour: u32, minute: u32) -> (text: String)
    requires
        hour < 100,
        minute < 100,
    ensures
        text@ == hh_mm(hour as int, minute as int),
        text@.len() == 5,
        text@[2] == ':',
        forall|i: int|
            (i == 0 || i == 1 || i == 3 || i == 4) ==> 48 <= #[trigger] (text@[i] as int) <= 57,
        (text@[0] as int - 48) * 10 + (text@[1] as int - 48) == hour,
        (text@[3] as int - 48) * 10 + (text@[4] as int - 48) == minute,
{
    let mut text = String::new();
    push_digit(&mut text, hour / 10);
    push_digit(&mut text, hour % 10);
    push_char(&mut text, ':');
    push_digit(&mut text, minute / 10);
    push_digit(&mut text, minute % 10);
    proof {
        assert(text@ =~= hh_mm(hour as int, minute as int));
        lemma_hh_mm_reads_back(hour as int, minute as int);
    }
    text
}

/// The number of seconds to sleep, from a clock reading of `seconds`, so as
/// to wake just after the next full minute (one second past it).
pub fn seconds_left_to_a_full_minute(seconds: u8) -> (left: u64)
    requires
        seconds <= 61,
    ensures
        left == 61 - seconds,
        seconds < 60 ==> 2 <= left <= 61,
{
    (61 - seconds) as u64
}

/// The seconds since midnight of a time of day.
pub open spec fn seconds_of_day(hour: int, minute: int, second: int) -> int {
    hour * 3600 + minute * 60 + second
}

/// The time of day one minute after the given one, wrapping at midnight
/// (what adding 60 seconds to a `NaiveTime` gives): the display shows it at
/// its next refresh.
pub fn next_display_time(hour: u32, minute: u32, second: u32) -> (next: (u32, u32, u32))
    requires
        hour < 24,
        minute < 60,
        second < 60,
    ensures
        seconds_of_day(next.0 as int, next.1 as int, next.2 as int) == (seconds_of_day(
            hour as int,
            minute as int,
            second as int,
        ) + 60) % 86400,
        seconds_of_day(next.0 as int, next.1 as int, next.2 as int) == display_update_seconds(
            seconds_of_day(hour as int, minute as int, second as int),
            1,
        ),
        next.0 < 24,
        next.1 < 60,
        next.2 < 60,
{
    let total = (hour * 3600 + minute * 60 + second + 60) % 86400;
    let next = (total / 3600, (total % 3600) / 60, total % 60);
    assert(total == (total / 3600) * 3600 + ((total % 3600) / 60) * 60 + total % 60)
        by (nonlinear_arith);
    proof {
        reveal_with_fuel(display_update_seconds, 2);
    }
    next
}

/// The seconds of day shown at the `k`-th display update (from 0) when the
/// first one shows `start`: each update is one minute after the previous one,
/// as `next_display_time` computes it.
pub open spec fn display_update_seconds(start: int, k: nat) -> int
    decreases k,
{
    if k == 0 {
        start
    } else {
        (display_update_seconds(start, (k - 1) as nat) + 60) % 86400
    }
}

/// Updating the display every minute from a time of day `start` (in seconds
/// since midnight): the `k`-th update shows `start + 60 * k` seconds, wrapping
/// at midnight.
pub proof fn lemma_display_updates(start: int, k: nat)
    requires
        0 <= start < 86400,
    ensures
        display_update_seconds(start, k) == (start + 60 * k) % 86400,
        0 <= display_update_seconds(start, k) < 86400,
    decreases k,
{
    if k > 0 {
        lemma_display_updates(start, (k - 1) as nat);
        let a = start + 60 * (k - 1);
        assert(((a % 86400) + 60) % 86400 == (a + 60) % 86400) by {
            vstd::arithmetic::div_mod::lemma_add_mod_noop(a, 60, 86400);
        }
    }
}

} // verus!
