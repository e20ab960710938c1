//! Wall-clock timestamps of the form `HH:MM:SS.mmm` (time of day in UTC).

use vstd::prelude::*;
use std::time::{Duration, SystemTime, UNIX_EPOCH};
use crate::console::{dec, dec_chars, dec_padded, digit_char, digits_value, law_dec_reads_back};

verus! {

#[verifier::external_type_specification]
#[verifier::external_body]
pub struct ExSystemTime(SystemTime);

/// `std::time::SystemTime::now`: the system clock's current time. Nothing is
/// promised of it.
pub assume_specification[ SystemTime::now ]() -> (t: SystemTime);

/// `SystemTime::duration_since(UNIX_EPOCH)`: how long after the Unix epoch
/// `t` lies; `None` where the clock is set before the epoch (the call's error).
/// Nothing more is promised: the value is that of the clock.
#[verifier::external_body]
fn since_unix_epoch(t: &SystemTime) -> Option<Duration> {
    t.duration_since(UNIX_EPOCH).ok()
}

/// `Duration::as_secs`: the whole seconds of the duration. Not stated: its
/// relation to the duration, which Verus cannot see inside.
pub assume_specification[ Duration::as_secs ](d: &Duration) -> (secs: u64);

/// `Duration::subsec_nanos`: the fraction of a second, in nanoseconds; the
/// documentation promises it is below one billion.
pub assume_specification[ Duration::subsec_nanos ](d: &Duration) -> (n: u32)
    ensures
        n < 1_000_000_000,
;

/// Whether `c` is a decimal digit.
pub open spec fn is_dec_digit(c: char) -> bool {
    exists|k: nat| k < 10 && c == digit_char(k)
}

proof fn lemma_dec_digits(n: nat)
    ensures
        forall|i: int| 0 <= i < dec(n).len() ==> is_dec_digit(#[trigger] dec(n)[i]),
    decreases n,
{
    if n < 10 {
        assert(is_dec_digit(digit_char(n)));
    } else {
        lemma_dec_digits(n / 10);
        assert(is_dec_digit(digit_char(n % 10)));
        assert forall|i: int| 0 <= i < dec(n).len() implies is_dec_digit(#[trigger] dec(n)[i]) by {
            if i < dec(n / 10).len() {
                assert(dec(n)[i] == dec(n / 10)[i]);
            }
        }
    }
}

fn digit_str(c: char) -> (s: &'static str)
    requires
        is_dec_digit(c),
    ensures
        s@ == seq![c],
{
    if c == '0' {
        proof { reveal_strlit("0"); }
        "0"
    } else if c == '1' {
        proof { reveal_strlit("1"); }
        "1"
    } else if c == '2' {
        proof { reveal_strlit("2"); }
        "2"
    } else if c == '3' {
        proof { reveal_strlit("3"); }
        "3"
    } else if c == '4' {
        proof { reveal_strlit("4"); }
        "4"
    } else if c == '5' {
        proof { reveal_strlit("5"); }
        "5"
    } else if c == '6' {
        proof { reveal_strlit("6"); }
        "6"
    } else if c == '7' {
        proof { reveal_strlit("7"); }
        "7"
    } else if c == '8' {
        proof { reveal_strlit("8"); }
        "8"
    } else {
        proof { reveal_strlit("9"); }
        "9"
    }
}

fn append_padded(out: &mut String, n: usize, width: usize)
    ensures
        final(out)@ == old(out)@ + dec_padded(n as nat, width as nat),
{
    let digits = dec_chars(n);
    proof {
        lemma_dec_digits(n as nat);
    }
    let ghost start = out@;
    let mut pad: usize = 0;
    let need: usize = if digits.len() < width { width - digits.len() } else { 0 };
    while pad < need
        invariant
            pad <= need,
            out@ == start + Seq::new(pad as nat, |i: int| '0'),
        decreases need - pad,
    {
        out.append("0");
        proof {
            reveal_strlit("0");
            assert(start + Seq::new(pad as nat, |i: int| '0') + "0"@ =~= start + Seq::new((pad + 1) as nat, |i: int| '0'));
        }
        pad = pad + 1;
    }
    let ghost padded = out@;
    let mut i: usize = 0;
    while i < digits.len()
        invariant
            i <= digits@.len(),
            digits@ == dec(n as nat),
            forall|j: int| 0 <= j < digits@.len() ==> is_dec_digit(#[trigger] digits@[j]),
            out@ == padded + digits@.take(i as int),
        decreases digits.len() - i,
    {
        out.append(digit_str(digits[i]));
        proof {
            assert(padded + digits@.take(i as int) + seq![digits@[i as int]] =~= padded + digits@.take(i + 1));
        }
        i = i + 1;
    }
    proof {
        assert(digits@.take(i as int) =~= digits@);
        if digits@.len() < width {
            assert(out@ =~= start + dec_padded(n as nat, width as nat));
        } else {
            assert(Seq::new(0nat, |i: int| '0') + dec(n as nat) =~= dec(n as nat));
            assert(out@ =~= start + dec_padded(n as nat, width as nat));
        }
    }
}

/// The timestamp for a time `secs` seconds and `nanos` nanoseconds after the
/// epoch: hours, minutes and seconds of the day, two digits each, and
/// milliseconds, three digits (more when `nanos` reaches a second).
pub open spec fn timestamp_text(secs: nat, nanos: nat) -> Seq<char> {
    let day = secs % 86400;
    dec_padded(day / 3600, 2) + ":"@ + dec_padded((day % 3600) / 60, 2) + ":"@ + dec_padded(day % 60, 2)
        + "."@ + dec_padded(nanos / 1_000_000, 3)
}

/// Formats the time of day for `secs` seconds and `nanos` nanoseconds after the epoch.
pub fn format_timestamp(secs: u64, nanos: u32) -> (s: String)
    ensures
        s@ == timestamp_text(secs as nat, nanos as nat),
{
    let total_secs = secs % 86400;
    let hours = total_secs / 3600;
    let minutes = (total_secs % 3600) / 60;
    let seconds = total_secs % 60;
    let millis = nanos / 1_000_000;
    let mut out = String::new();
    append_padded(&mut out, hours as usize, 2);
    out.append(":");
    append_padded(&mut out, minutes as usize, 2);
    out.append(":");
    append_padded(&mut out, seconds as usize, 2);
    out.append(".");
    append_padded(&mut out, millis as usize, 3);
    proof {
        assert(out@ =~= timestamp_text(secs as nat, nanos as nat));
    }
    out
}

proof fn lemma_dec_len(n: nat)
    ensures
        n < 10 ==> dec(n).len() == 1,
        10 <= n < 100 ==> dec(n).len() == 2,
        100 <= n < 1000 ==> dec(n).len() == 3,
{
    if n >= 10 {
        assert(dec(n) == dec(n / 10).push(digit_char(n % 10)));
        if n / 10 >= 10 {
            assert(dec(n / 10) == dec(n / 100).push(digit_char((n / 10) % 10)));
        }
    }
}

proof fn lemma_padded_len(n: nat, width: nat)
    requires
        1 <= width <= 3,
        width == 1 ==> n < 10,
        width == 2 ==> n < 100,
        width == 3 ==> n < 1000,
    ensures
        dec_padded(n, width).len() == width,
{
    lemma_dec_len(n);
}

/// Law: for a time with fewer than a billion nanoseconds, the timestamp has
/// the shape `HH:MM:SS.mmm`: twelve characters, with the separators in place,
/// and hours below 24, minutes and seconds below 60.
pub proof fn law_timestamp_shape(secs: nat, nanos: nat)
    requires
        nanos < 1_000_000_000,
    ensures
        timestamp_text(secs, nanos).len() == 12,
        timestamp_text(secs, nanos)[2] == ':',
        timestamp_text(secs, nanos)[5] == ':',
        timestamp_text(secs, nanos)[8] == '.',
        (secs % 86400) / 3600 < 24,
        ((secs % 86400) % 3600) / 60 < 60,
        (secs % 86400) % 60 < 60,
{
    let day = secs % 86400;
    assert(day / 3600 < 24);
    assert((day % 3600) / 60 < 60);
    assert(nanos / 1_000_000 < 1000);
    lemma_padded_len(day / 3600, 2);
    lemma_padded_len((day % 3600) / 60, 2);
    lemma_padded_len(day % 60, 2);
    lemma_padded_len(nanos / 1_000_000, 3);
    reveal_strlit(":");
    reveal_strlit(".");
    let h = dec_padded(day / 3600, 2);
    let m = dec_padded((day % 3600) / 60, 2);
    let sc = dec_padded(day % 60, 2);
    let ms = dec_padded(nanos / 1_000_000, 3);
    let t = timestamp_text(secs, nanos);
    assert(t == h + ":"@ + m + ":"@ + sc + "."@ + ms);
    assert(t[2] == ':');
    assert(t[5] == ':');
    assert(t[8] == '.');
}

proof fn lemma_zeros_value(k: nat)
    ensures
        digits_value(Seq::new(k, |i: int| '0'), 10) == 0,
    decreases k,
{
    if k > 0 {
        lemma_zeros_value((k - 1) as nat);
        assert(Seq::new(k, |i: int| '0').drop_last() =~= Seq::new((k - 1) as nat, |i: int| '0'));
    }
}

proof fn lemma_leading_zeros(z: Seq<char>, d: Seq<char>)
    requires
        digits_value(z, 10) == 0,
    ensures
        digits_value(z + d, 10) == digits_value(d, 10),
    decreases d.len(),
{
    if d.len() == 0 {
        assert(z + d =~= z);
    } else {
        lemma_leading_zeros(z, d.drop_last());
        assert((z + d).drop_last() =~= z + d.drop_last());
        assert((z + d).last() == d.last());
    }
}

proof fn lemma_padded_value(n: nat, width: nat)
    ensures
        digits_value(dec_padded(n, width), 10) == n,
{
    law_dec_reads_back(n);
    let d = dec(n);
    if d.len() < width {
        let z = Seq::new((width - d.len()) as nat, |i: int| '0');
        lemma_zeros_value((width - d.len()) as nat);
        lemma_leading_zeros(z, d);
    }
}

/// Law: the fields of a timestamp read back as the time of day: the first
/// two digits are the hours, then the minutes, the seconds, and after the
/// point the milliseconds, each as a decimal number.
pub proof fn law_timestamp_fields(secs: nat, nanos: nat)
    requires
        nanos < 1_000_000_000,
    ensures
        digits_value(timestamp_text(secs, nanos).subrange(0, 2), 10) == (secs % 86400) / 3600,
        digits_value(timestamp_text(secs, nanos).subrange(3, 5), 10) == ((secs % 86400) % 3600) / 60,
        digits_value(timestamp_text(secs, nanos).subrange(6, 8), 10) == (secs % 86400) % 60,
        digits_value(timestamp_text(secs, nanos).subrange(9, 12), 10) == nanos / 1_000_000,
{
    let day = secs % 86400;
    assert(day / 3600 < 24);
    assert((day % 3600) / 60 < 60);
    assert(nanos / 1_000_000 < 1000);
    lemma_padded_len(day / 3600, 2);
    lemma_padded_len((day % 3600) / 60, 2);
    lemma_padded_len(day % 60, 2);
    lemma_padded_len(nanos / 1_000_000, 3);
    lemma_padded_value(day / 3600, 2);
    lemma_padded_value((day % 3600) / 60, 2);
    lemma_padded_value(day % 60, 2);
    lemma_padded_value(nanos / 1_000_000, 3);
    reveal_strlit(":");
    reveal_strlit(".");
    let h = dec_padded(day / 3600, 2);
    let m = dec_padded((day % 3600) / 60, 2);
    let sc = dec_padded(day % 60, 2);
    let ms = dec_padded(nanos / 1_000_000, 3);
    let t = timestamp_text(secs, nanos);
    assert(t == h + ":"@ + m + ":"@ + sc + "."@ + ms);
    assert(t.subrange(0, 2) =~= h);
    assert(t.subrange(3, 5) =~= m);
    assert(t.subrange(6, 8) =~= sc);
    assert(t.subrange(9, 12) =~= ms);
}

/// The current time of day as `HH:MM:SS.mmm`, or `None` when the system
/// clock is set before the Unix epoch.
pub fn chrono_timestamp() -> (r: Option<String>)
    ensures
        r is Some ==> exists|secs: nat, nanos: nat| nanos < 1_000_000_000
            && r->0@ == #[trigger] timestamp_text(secs, nanos),
{
    let now = SystemTime::now();
    match since_unix_epoch(&now) {
        Some(d) => {
            let secs = d.as_secs();
            let nanos = d.subsec_nanos();
            Some(format_timestamp(secs, nanos))
        },
        None => None,
    }
}

} // verus!
