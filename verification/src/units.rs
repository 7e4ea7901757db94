//! Byte counts and times of day as the interface shows them.
use vstd::prelude::*;

use crate::numeric::{decimal, digit_char, digit_to_char, pad2, push_decimal, push_pad2};
use crate::text::push_str;

verus! {

/// The spacing of the `f64` values around `n`: 1 below 2^53, doubling with
/// each further bit of `n`.
pub open spec fn f64_unit(n: nat) -> nat
    decreases n,
{
    if n < 0x20_0000_0000_0000 {
        1
    } else {
        2 * f64_unit(n / 2)
    }
}

/// `n as f64`: `n` rounded to the nearest multiple of `f64_unit(n)` (53
/// significant bits), a tie going to the even multiple.
pub open spec fn nearest_f64(n: nat) -> nat {
    let u = f64_unit(n);
    let q = n / u;
    let r = n % u;
    if 2 * r > u || (2 * r == u && q % 2 == 1) {
        (q + 1) * u
    } else {
        q * u
    }
}

/// `{:.1}` of the exact quotient `m / d`: rounded to tenths, a tie going to
/// the even tenth.
pub open spec fn one_decimal(m: nat, d: nat) -> Seq<char> {
    let q = (10 * m) / d;
    let r = (10 * m) % d;
    let t: nat = if 2 * r > d || (2 * r == d && q % 2 == 1) {
        q + 1
    } else {
        q
    };
    decimal(t / 10) + seq!['.', digit_char((t % 10) as int)]
}

pub open spec fn gib() -> nat {
    0x4000_0000
}

pub open spec fn mib() -> nat {
    0x10_0000
}

pub open spec fn kib() -> nat {
    0x400
}

/// A byte count in the largest fitting binary unit, with one decimal
/// (`GB`, `MB`, `KB`), or as a whole number of bytes below 1024.
pub open spec fn byte_count_text(bytes: u64) -> Seq<char> {
    if bytes >= gib() {
        one_decimal(nearest_f64(bytes as nat), gib()) + " GB"@
    } else if bytes >= mib() {
        one_decimal(bytes as nat, mib()) + " MB"@
    } else if bytes >= kib() {
        one_decimal(bytes as nat, kib()) + " KB"@
    } else {
        decimal(bytes as nat) + " B"@
    }
}

/// `HH:MM:SS UTC` for a count of seconds since the Unix epoch.
pub open spec fn clock_text(secs: u64) -> Seq<char> {
    pad2(((secs / 3600) % 24) as nat) + ":"@ + pad2(((secs / 60) % 60) as nat) + ":"@ + pad2(
        (secs % 60) as nat,
    ) + " UTC"@
}

/// The time stamp of a ban: the time of day when the clock reads after the
/// Unix epoch, else `Banned`.
pub open spec fn timestamp_text(secs: Option<u64>) -> Seq<char> {
    match secs {
        Some(s) => clock_text(s),
        None => "Banned"@,
    }
}

/// `n as f64`, as an integer.
pub fn nearest_f64_exec(n: u64) -> (r: u128)
    ensures
        r == nearest_f64(n as nat),
        r <= 0x1_0000_0000_0000_1000,
{
    let mut m: u64 = n;
    let mut u: u64 = 1;
    while m >= 0x20_0000_0000_0000
        invariant
            f64_unit(n as nat) == u * f64_unit(m as nat),
            u * m <= n,
            1 <= u <= 0x1000,
        decreases m,
    {
        assert(u < 0x800) by (nonlinear_arith)
            requires
                u * m <= n,
                m >= 0x20_0000_0000_0000,
                n < 0x1_0000_0000_0000_0000,
        ;
        let ghost old_m = m;
        let ghost old_u = u;
        m = m / 2;
        u = u * 2;
        assert(f64_unit(old_m as nat) == 2 * f64_unit(m as nat));
        assert(f64_unit(n as nat) == u * f64_unit(m as nat)) by (nonlinear_arith)
            requires
                f64_unit(n as nat) == old_u * f64_unit(old_m as nat),
                f64_unit(old_m as nat) == 2 * f64_unit(m as nat),
                u == old_u * 2,
        ;
        assert(u * m <= n) by (nonlinear_arith)
            requires
                old_u * old_m <= n,
                m == old_m / 2,
                u == old_u * 2,
                old_u >= 1,
        ;
    }
    assert(f64_unit(m as nat) == 1);
    assert(f64_unit(n as nat) == u) by (nonlinear_arith)
        requires
            f64_unit(n as nat) == u * f64_unit(m as nat),
            f64_unit(m as nat) == 1,
    ;
    let uu = u as u128;
    let q = (n as u128) / uu;
    let r = (n as u128) % uu;
    assert(q * uu <= n) by (nonlinear_arith)
        requires
            q as int == (n as int) / (uu as int),
            uu >= 1,
    ;
    assert(q * uu + uu <= n + uu);
    if 2 * r > uu || (2 * r == uu && q % 2 == 1) {
        assert((q + 1) * uu == q * uu + uu) by (nonlinear_arith);
        assert(r < uu);
        assert(n == q * uu + r) by (nonlinear_arith)
            requires
                q as int == (n as int) / (uu as int),
                r as int == (n as int) % (uu as int),
                uu >= 1,
        ;
        (q + 1) * uu
    } else {
        q * uu
    }
}

/// Appends `{:.1}` of `m / d` to `out`.
pub fn push_one_decimal(out: &mut Vec<char>, m: u128, d: u128)
    requires
        1024 <= d <= 0x100_0000_0000,
        m <= 0x2_0000_0000_0000_0000,
    ensures
        final(out)@ == old(out)@ + one_decimal(m as nat, d as nat),
{
    let q = (m * 10) / d;
    let r = (m * 10) % d;
    assert(r < d);
    let t: u128 = if 2 * r > d || (2 * r == d && q % 2 == 1) {
        q + 1
    } else {
        q
    };
    assert(q as int <= (m as int) * 10 / 1024) by (nonlinear_arith)
        requires
            q as int == ((m as int) * 10) / (d as int),
            d >= 1024,
    ;
    assert(t / 10 < 0x1_0000_0000_0000_0000);
    push_decimal(out, (t / 10) as u64);
    out.push('.');
    let c = digit_to_char((t % 10) as u64);
    out.push(c);
    assert(out@ =~= old(out)@ + one_decimal(m as nat, d as nat));
}

/// Appends `HH:MM:SS UTC` for `secs` to `out`.
pub fn push_clock(out: &mut Vec<char>, secs: u64)
    ensures
        final(out)@ == old(out)@ + clock_text(secs),
{
    push_pad2(out, (secs / 3600) % 24);
    push_str(out, ":");
    push_pad2(out, (secs / 60) % 60);
    push_str(out, ":");
    push_pad2(out, secs % 60);
    push_str(out, " UTC");
    assert(out@ =~= old(out)@ + clock_text(secs));
}

} // verus!
