use vstd::arithmetic::div_mod::{
    lemma_div_is_ordered, lemma_div_is_ordered_by_denominator, lemma_fundamental_div_mod,
};
use vstd::prelude::*;

verus! {

/// Rust's truncating division, for a positive divisor.
pub open spec fn tdiv(a: int, b: int) -> int {
    if a >= 0 {
        a / b
    } else {
        -((-a) / b)
    }
}

/// Rust's truncating remainder, for a positive divisor.
pub open spec fn trem(a: int, b: int) -> int {
    a - b * tdiv(a, b)
}

/// Civil date and time of a Unix timestamp, by Howard Hinnant's days-to-civil
/// algorithm: `(year, month, day, hour, minute, second, weekday)` with
/// weekday zero on Sunday.
pub open spec fn civil_from_unix(z: int) -> (int, int, int, int, int, int, int) {
    let secs_of_day = trem(z, 86_400);
    let days = tdiv(z, 86_400);
    let wday = trem(days + 4, 7);
    let zz = days + 719_468;
    let era = tdiv(if zz >= 0 { zz } else { zz - 146_096 }, 146_097);
    let doe = zz - era * 146_097;
    let yoe = tdiv(doe - tdiv(doe, 1460) + tdiv(doe, 36_524) - tdiv(doe, 146_096), 365);
    let y = yoe + era * 400;
    let doy = doe - (365 * yoe + tdiv(yoe, 4) - tdiv(yoe, 100));
    let mp = tdiv(5 * doy + 2, 153);
    let d = doy - tdiv(153 * mp + 2, 5) + 1;
    let m = trem(mp + 2, 12) + 1;
    let s = secs_of_day as u32 as int;
    (y + tdiv(mp, 10), m, d, s / 3600, (s / 60) % 60, s % 60, wday)
}

proof fn lemma_tdiv(a: int, b: int)
    requires
        b > 0,
    ensures
        a >= 0 ==> 0 <= tdiv(a, b) <= a,
        a < 0 ==> a <= tdiv(a, b) <= 0,
        a >= 0 ==> 0 <= trem(a, b) < b,
        a < 0 ==> -b < trem(a, b) <= 0,
{
    if a >= 0 {
        lemma_fundamental_div_mod(a, b);
        lemma_div_is_ordered_by_denominator(a, 1, b);
    } else {
        lemma_fundamental_div_mod(-a, b);
        lemma_div_is_ordered_by_denominator(-a, 1, b);
        let q = (-a) / b;
        assert(tdiv(a, b) == -q);
        assert(b * (-q) == -(b * q)) by (nonlinear_arith);
        assert(trem(a, b) == -((-a) % b));
    }
}

/// Converts a Unix timestamp into `(year, month, day, hour, minute, second, weekday)`.
#[verifier::rlimit(40)]
pub fn howard_hinnant(z: i64) -> (r: (i32, u8, u8, u8, u8, u8, u8))
    ensures
        ({
            let c = civil_from_unix(z as int);
            r == (c.0 as i32, c.1 as u8, c.2 as u8, c.3 as u8, c.4 as u8, c.5 as u8, c.6 as u8)
        }),
{
    proof {
        lemma_tdiv(z as int, 86_400);
    }
    let secs_of_day: u32 = #[verifier::truncate] ((z % 86_400i64) as u32);
    let days: i64 = z / 86_400i64;
    assert(-106_751_991_167_301 <= days <= 106_751_991_167_301);
    proof {
        lemma_tdiv(days + 4, 7);
    }
    let wday: u8 = #[verifier::truncate] (((days + 4) % 7) as u8);
    let zz: i64 = days + 719_468;
    let ghost x = if zz >= 0 { zz as int } else { zz - 146_096 };
    proof {
        lemma_tdiv(x, 146_097);
    }
    let era: i64 = (if zz >= 0 { zz } else { zz - 146_096 }) / 146_097;
    assert(era == tdiv(x, 146_097));
    assert(-1_000_000_000_000 <= era <= 1_000_000_000_000) by {
        lemma_div_is_ordered_by_denominator(if x >= 0 { x } else { -x }, 100_000, 146_097);
        lemma_div_is_ordered(if x >= 0 { x } else { -x }, 106_751_991_900_000, 100_000);
    }
    let doe: i64 = zz - era * 146_097;
    assert(doe as int == trem(x, 146_097) + (zz - x));
    assert(-146_097 < doe < 300_000);
    proof {
        lemma_tdiv(doe as int, 1460);
        lemma_tdiv(doe as int, 36_524);
        lemma_tdiv(doe as int, 146_096);
    }
    let n: i64 = doe - doe / 1460 + doe / 36_524 - doe / 146_096;
    proof {
        lemma_tdiv(n as int, 365);
    }
    let yoe: i64 = n / 365;
    let y: i64 = yoe + era * 400;
    proof {
        lemma_tdiv(yoe as int, 4);
        lemma_tdiv(yoe as int, 100);
    }
    let doy: i64 = doe - (365 * yoe + yoe / 4 - yoe / 100);
    assert(-1_000_000_000_000_000_000 <= doy <= 1_000_000_000_000_000_000);
    let ghost doy0 = doy as int;
    proof {
        lemma_tdiv(5 * doy0 + 2, 153);
    }
    let mp: i64 = (5 * doy + 2) / 153;
    let d: u8 = #[verifier::truncate] ((doy - (153 * mp + 2) / 5 + 1) as u8);
    let m: i64 = (mp + 2) % 12 + 1;
    let y2: i64 = y + mp / 10;
    (
        #[verifier::truncate] (y2 as i32),
        #[verifier::truncate] (m as u8),
        d,
        #[verifier::truncate] ((secs_of_day / 3600) as u8),
        ((secs_of_day / 60) % 60) as u8,
        (secs_of_day % 60) as u8,
        wday,
    )
}

/// For a timestamp at or after the epoch, the hour, minute and second are in
/// range and add up to the seconds since midnight, and the weekday is the
/// day count shifted so that the epoch (a Thursday) is four.
pub proof fn lemma_time_of_day(z: int)
    requires
        0 <= z <= i64::MAX,
    ensures
        ({
            let c = civil_from_unix(z);
            &&& 0 <= c.3 < 24
            &&& 0 <= c.4 < 60
            &&& 0 <= c.5 < 60
            &&& c.3 * 3600 + c.4 * 60 + c.5 == z % 86_400
            &&& 0 <= c.6 < 7
            &&& c.6 == (z / 86_400 + 4) % 7
        }),
{
    let sd = z % 86_400;
    assert(0 <= sd < 86_400);
    assert(trem(z, 86_400) == sd);
    assert(sd as u32 as int == sd);
    let h = sd / 3600;
    let m = (sd / 60) % 60;
    let sec = sd % 60;
    assert(h * 3600 + m * 60 + sec == sd) by (nonlinear_arith)
        requires
            0 <= sd,
            h == sd / 3600,
            m == (sd / 60) % 60,
            sec == sd % 60,
    {
        lemma_fundamental_div_mod(sd, 60);
        lemma_fundamental_div_mod(sd / 60, 60);
        vstd::arithmetic::div_mod::lemma_div_denominator(sd, 60, 60);
    }
    assert(h < 24) by {
        vstd::arithmetic::div_mod::lemma_div_is_ordered(sd, 86_399, 3600);
    }
    assert(z / 86_400 + 4 >= 0);
}

/// Two ASCII digits: the tens and the units of `v`.
pub open spec fn two_digits(v: u8) -> Seq<u8> {
    seq![(48 + (v / 10) % 10) as u8, (48 + v % 10) as u8]
}

/// Three-letter English name of weekday `w`, zero on Sunday.
pub open spec fn weekday_name(w: u8) -> Seq<u8> {
    if w == 0 {
        seq![83u8, 117u8, 110u8]
    } else if w == 1 {
        seq![77u8, 111u8, 110u8]
    } else if w == 2 {
        seq![84u8, 117u8, 101u8]
    } else if w == 3 {
        seq![87u8, 101u8, 100u8]
    } else if w == 4 {
        seq![84u8, 104u8, 117u8]
    } else if w == 5 {
        seq![70u8, 114u8, 105u8]
    } else if w == 6 {
        seq![83u8, 97u8, 116u8]
    } else {
        seq![63u8, 63u8, 63u8]
    }
}

/// Three-letter English name of month `m`, one in January.
pub open spec fn month_name(m: u8) -> Seq<u8> {
    if m == 1 {
        seq![74u8, 97u8, 110u8]
    } else if m == 2 {
        seq![70u8, 101u8, 98u8]
    } else if m == 3 {
        seq![77u8, 97u8, 114u8]
    } else if m == 4 {
        seq![65u8, 112u8, 114u8]
    } else if m == 5 {
        seq![77u8, 97u8, 121u8]
    } else if m == 6 {
        seq![74u8, 117u8, 110u8]
    } else if m == 7 {
        seq![74u8, 117u8, 108u8]
    } else if m == 8 {
        seq![65u8, 117u8, 103u8]
    } else if m == 9 {
        seq![83u8, 101u8, 112u8]
    } else if m == 10 {
        seq![79u8, 99u8, 116u8]
    } else if m == 11 {
        seq![78u8, 111u8, 118u8]
    } else if m == 12 {
        seq![68u8, 101u8, 99u8]
    } else {
        seq![63u8, 63u8, 63u8]
    }
}

/// The `Date: ` header line (without its line break) for Unix time `z`:
/// `Date: Sun, 06 Nov 1994 08:49:37 GMT`.
pub open spec fn http_date(z: int) -> Seq<u8> {
    let c = civil_from_unix(z);
    let y = (c.0 as i32) as u32;
    // "Dat" "e: "
    seq![68u8, 97u8, 116u8] + seq![101u8, 58u8, 32u8] + weekday_name(c.6 as u8)
        // ", "
        + seq![44u8, 32u8] + two_digits(c.2 as u8) + seq![32u8] + month_name(c.1 as u8)
        + seq![32u8] + two_digits((y / 100) as u8) + two_digits((y % 100) as u8) + seq![32u8]
        + two_digits(c.3 as u8)
        // ":"
        + seq![58u8] + two_digits(c.4 as u8) + seq![58u8] + two_digits(c.5 as u8)
        // " GMT"
        + seq![32u8, 71u8, 77u8, 84u8]
}

fn push1(out: &mut Vec<u8>, a: u8)
    ensures
        final(out)@ == old(out)@ + seq![a],
{
    out.push(a);
    assert(out@ =~= old(out)@ + seq![a]);
}

fn push2(out: &mut Vec<u8>, a: u8, b: u8)
    ensures
        final(out)@ == old(out)@ + seq![a, b],
{
    out.push(a);
    out.push(b);
    assert(out@ =~= old(out)@ + seq![a, b]);
}

fn push4(out: &mut Vec<u8>, a: u8, b: u8, c: u8, d: u8)
    ensures
        final(out)@ == old(out)@ + seq![a, b, c, d],
{
    out.push(a);
    out.push(b);
    out.push(c);
    out.push(d);
    assert(out@ =~= old(out)@ + seq![a, b, c, d]);
}

fn push3(out: &mut Vec<u8>, a: u8, b: u8, c: u8)
    ensures
        final(out)@ == old(out)@ + seq![a, b, c],
{
    out.push(a);
    out.push(b);
    out.push(c);
    assert(out@ =~= old(out)@ + seq![a, b, c]);
}

fn push_weekday(out: &mut Vec<u8>, w: u8)
    ensures
        final(out)@ == old(out)@ + weekday_name(w),
{
    match w {
        0 => push3(out, 83u8, 117u8, 110u8),
        1 => push3(out, 77u8, 111u8, 110u8),
        2 => push3(out, 84u8, 117u8, 101u8),
        3 => push3(out, 87u8, 101u8, 100u8),
        4 => push3(out, 84u8, 104u8, 117u8),
        5 => push3(out, 70u8, 114u8, 105u8),
        6 => push3(out, 83u8, 97u8, 116u8),
        _ => push3(out, 63u8, 63u8, 63u8),
    }
}

fn push_month(out: &mut Vec<u8>, m: u8)
    ensures
        final(out)@ == old(out)@ + month_name(m),
{
    match m {
        1 => push3(out, 74u8, 97u8, 110u8),
        2 => push3(out, 70u8, 101u8, 98u8),
        3 => push3(out, 77u8, 97u8, 114u8),
        4 => push3(out, 65u8, 112u8, 114u8),
        5 => push3(out, 77u8, 97u8, 121u8),
        6 => push3(out, 74u8, 117u8, 110u8),
        7 => push3(out, 74u8, 117u8, 108u8),
        8 => push3(out, 65u8, 117u8, 103u8),
        9 => push3(out, 83u8, 101u8, 112u8),
        10 => push3(out, 79u8, 99u8, 116u8),
        11 => push3(out, 78u8, 111u8, 118u8),
        12 => push3(out, 68u8, 101u8, 99u8),
        _ => push3(out, 63u8, 63u8, 63u8),
    }
}

fn put2(out: &mut Vec<u8>, val: u8)
    ensures
        final(out)@ == old(out)@ + two_digits(val),
{
    out.push(48 + (val / 10) % 10);
    out.push(48 + val % 10);
    assert(out@ =~= old(out)@ + two_digits(val));
}

/// The 35-byte `Date: ` header line for Unix time `now`.
pub fn nano_clock(now: i64) -> (r: Vec<u8>)
    ensures
        r@ == http_date(now as int),
        r@.len() == 35,
{
    let (year, mon, mday, hh, mm, ss, wday) = howard_hinnant(now);
    let y: u32 = year as u32;
    let mut out: Vec<u8> = Vec::with_capacity(35);
    push3(&mut out, 68u8, 97u8, 116u8);
    assert(out@ =~= seq![68u8, 97u8, 116u8]);
    push3(&mut out, 101u8, 58u8, 32u8);
    push_weekday(&mut out, wday);
    push2(&mut out, 44u8, 32u8);
    put2(&mut out, mday);
    push1(&mut out, 32u8);
    push_month(&mut out, mon);
    push1(&mut out, 32u8);
    put2(&mut out, (y / 100) as u8);
    put2(&mut out, (y % 100) as u8);
    push1(&mut out, 32u8);
    put2(&mut out, hh);
    push1(&mut out, 58u8);
    put2(&mut out, mm);
    push1(&mut out, 58u8);
    put2(&mut out, ss);
    push4(&mut out, 32u8, 71u8, 77u8, 84u8);
    out
}

} // verus!
