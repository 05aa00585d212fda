//! Track durations: parsing the feed's `HH:MM:SS` strings and formatting
//! seconds for the progress display.
use vstd::prelude::*;
use crate::text;

verus! {

/// The integer `x` reduced modulo 2^64, as wrapping `u64` arithmetic gives it.
pub open spec fn wrap_u64(x: int) -> u64 {
    (x % 0x1_0000_0000_0000_0000) as u64
}

/// The number of seconds that a duration string stands for.
///
/// A string made of exactly three `:`-separated fields is read as hours,
/// minutes and seconds, each a `u64` as `str::parse` reads it; if one of them
/// does not parse there is no duration. The total is taken modulo 2^64, as the
/// arithmetic of a release build wraps. A string with any other number of
/// fields stands for zero seconds.
pub open spec fn spec_parse_duration(s: Seq<char>) -> Option<u64> {
    let parts = text::split_on(s, ':');
    if parts.len() == 3 {
        match (text::spec_parse_u64(parts[0]), text::spec_parse_u64(parts[1]), text::spec_parse_u64(parts[2])) {
            (Some(h), Some(m), Some(sec)) => Some(wrap_u64(h * 3600 + m * 60 + sec)),
            _ => None,
        }
    } else {
        Some(0)
    }
}

/// `seconds` as `HH:MM:SS`, each field zero-padded to two digits (the hours
/// field grows beyond two digits when needed).
pub open spec fn hms(seconds: nat) -> Seq<char> {
    text::pad2(seconds / 3600) + seq![':'] + text::pad2((seconds / 60) % 60) + seq![':'] + text::pad2(seconds % 60)
}

/// The progress text: the elapsed time, followed by ` / ` and the total time
/// when a total is known and is not `u64::MAX`.
pub open spec fn progress_info(elapsed: u64, total: Option<u64>) -> Seq<char> {
    match total {
        Some(t) => if t != u64::MAX {
            hms(elapsed as nat) + seq![' ', '/', ' '] + hms(t as nat)
        } else {
            hms(elapsed as nat)
        },
        None => hms(elapsed as nat),
    }
}

/// Parses a duration such as `"01:02:03"` into seconds (see
/// `spec_parse_duration`).
pub fn parse_duration(s: &str) -> (r: Option<u64>)
    ensures
        r == spec_parse_duration(s@),
{
    let chars = text::chars_of(s);
    let parts = text::split_chars(chars.as_slice(), ':');
    if parts.len() == 3 {
        assert(parts[0]@ == text::split_on(s@, ':')[0]);
        assert(parts[1]@ == text::split_on(s@, ':')[1]);
        assert(parts[2]@ == text::split_on(s@, ':')[2]);
        let hours = match text::parse_u64(parts[0].as_slice()) {
            Some(v) => v,
            None => return None,
        };
        let minutes = match text::parse_u64(parts[1].as_slice()) {
            Some(v) => v,
            None => return None,
        };
        let seconds = match text::parse_u64(parts[2].as_slice()) {
            Some(v) => v,
            None => return None,
        };
        let total: u128 = hours as u128 * 3600 + minutes as u128 * 60 + seconds as u128;
        Some((total % 0x1_0000_0000_0000_0000u128) as u64)
    } else {
        Some(0)
    }
}

/// Formats a number of seconds as `HH:MM:SS`.
pub fn humanize_seconds_to_hours_minutes_and_seconds(seconds: u64) -> (s: String)
    ensures
        s@ == hms(seconds as nat),
{
    let mut out: Vec<char> = Vec::new();
    text::push_pad2(&mut out, seconds / 3600);
    out.push(':');
    text::push_pad2(&mut out, (seconds / 60) % 60);
    out.push(':');
    text::push_pad2(&mut out, seconds % 60);
    assert(out@ =~= hms(seconds as nat));
    text::string_from_chars(out.as_slice())
}

/// The text shown beside the progress bar: elapsed time, and the total time
/// when one is known.
pub fn get_progress_bar_progress_info(elapsed_seconds: u64, total_seconds: Option<u64>) -> (s:
    String)
    ensures
        s@ == progress_info(elapsed_seconds, total_seconds),
{
    let mut out: Vec<char> = Vec::new();
    push_hms(&mut out, elapsed_seconds);
    if let Some(total) = total_seconds {
        if total != u64::MAX {
            out.push(' ');
            out.push('/');
            out.push(' ');
            push_hms(&mut out, total);
            assert(out@ =~= progress_info(elapsed_seconds, total_seconds));
        }
    }
    text::string_from_chars(out.as_slice())
}

fn push_hms(out: &mut Vec<char>, seconds: u64)
    ensures
        final(out)@ == old(out)@ + hms(seconds as nat),
{
    text::push_pad2(out, seconds / 3600);
    out.push(':');
    text::push_pad2(out, (seconds / 60) % 60);
    out.push(':');
    text::push_pad2(out, seconds % 60);
    assert(final(out)@ =~= old(out)@ + hms(seconds as nat));
}

proof fn lemma_hms_fields(n: nat)
    ensures
        (n / 3600) * 3600 + ((n / 60) % 60) * 60 + n % 60 == n,
{
    let q = n / 60;
    vstd::arithmetic::div_mod::lemma_fundamental_div_mod(n as int, 60);
    vstd::arithmetic::div_mod::lemma_fundamental_div_mod(q as int, 60);
    vstd::arithmetic::div_mod::lemma_div_denominator(n as int, 60, 60);
}

/// Formatting a number of seconds and parsing the text back gives the same
/// number: `parse_duration` undoes `humanize_seconds_to_hours_minutes_and_seconds`.
pub proof fn lemma_humanize_parse_round_trip(n: u64)
    ensures
        spec_parse_duration(hms(n as nat)) == Some(n),
{
    let h = (n as nat) / 3600;
    let m = ((n as nat) / 60) % 60;
    let s = (n as nat) % 60;
    text::lemma_pad2_parses(h);
    text::lemma_pad2_parses(m);
    text::lemma_pad2_parses(s);
    text::lemma_split_plain(text::pad2(h), ':');
    text::lemma_split_append_piece(text::pad2(h), text::pad2(m), ':');
    let first_two = text::pad2(h).push(':') + text::pad2(m);
    text::lemma_split_append_piece(first_two, text::pad2(s), ':');
    assert(hms(n as nat) =~= first_two.push(':') + text::pad2(s));
    let parts = text::split_on(hms(n as nat), ':');
    assert(parts =~= seq![text::pad2(h), text::pad2(m), text::pad2(s)]);
    lemma_hms_fields(n as nat);
    assert(h * 3600 + m * 60 + s == n);
}

} // verus!
