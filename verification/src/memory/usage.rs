//! Memory figures from `/proc/meminfo`, and the human-readable byte
//! amounts shown beside the RAM, swap, VRAM and disk charts.
use vstd::prelude::*;
use vstd::arithmetic::power2::pow2;
use vstd::utf8::is_ascii_chars;

use crate::text::{
    chars_eq, chars_of, dec, pad_left, push_pad_left, deep_chars, digit_char, lines, parse_u64, parse_u64_chars,
    push_char, push_decimal, push_str, split_lines, split_words, words,
};

verus! {

/// RAM and swap figures in kB, as `/proc/meminfo` reports them.
#[derive(Clone, Copy, Debug, PartialEq, Eq, Structural)]
pub struct MemInfo {
    pub mem_total_kb: u64,
    pub mem_available_kb: u64,
    pub swap_total_kb: u64,
    pub swap_free_kb: u64,
}

pub open spec fn zero_info() -> MemInfo {
    MemInfo { mem_total_kb: 0, mem_available_kb: 0, swap_total_kb: 0, swap_free_kb: 0 }
}

/// The effect of one `/proc/meminfo` line: a line whose first word is one
/// of the four known keys and whose second word parses as `u64` sets that
/// field; every other line leaves the figures as they are.
pub open spec fn meminfo_step(info: MemInfo, line: Seq<char>) -> MemInfo {
    let ws = words(line);
    if ws.len() < 2 {
        info
    } else {
        match parse_u64(ws[1]) {
            None => info,
            Some(v) => if ws[0] == "MemTotal:"@ {
                MemInfo { mem_total_kb: v, ..info }
            } else if ws[0] == "MemAvailable:"@ {
                MemInfo { mem_available_kb: v, ..info }
            } else if ws[0] == "SwapTotal:"@ {
                MemInfo { swap_total_kb: v, ..info }
            } else if ws[0] == "SwapFree:"@ {
                MemInfo { swap_free_kb: v, ..info }
            } else {
                info
            },
        }
    }
}

/// The figures after reading the given lines in order, starting from zero.
pub open spec fn meminfo_fold(ls: Seq<Seq<char>>) -> MemInfo
    decreases ls.len(),
{
    if ls.len() == 0 {
        zero_info()
    } else {
        meminfo_step(meminfo_fold(ls.drop_last()), ls.last())
    }
}

/// RAM, swap figures from the text of `/proc/meminfo`; a key that is absent
/// or whose value does not parse reads as 0, and a later line for the same
/// key wins.
pub fn parse_meminfo(content: &str) -> (r: MemInfo)
    ensures
        r == meminfo_fold(lines(content@)),
{
    let cs = chars_of(content);
    let ls = split_lines(&cs);
    let ghost lv = deep_chars(ls@);
    let mut info = MemInfo {
        mem_total_kb: 0,
        mem_available_kb: 0,
        swap_total_kb: 0,
        swap_free_kb: 0,
    };
    let mut i: usize = 0;
    while i < ls.len()
        invariant
            i <= ls.len(),
            lv == deep_chars(ls@),
            info == meminfo_fold(lv.take(i as int)),
        decreases ls.len() - i,
    {
        assert(lv.take(i + 1).drop_last() =~= lv.take(i as int));
        assert(lv.take(i + 1).last() == ls@[i as int]@);
        let ws = split_words(&ls[i]);
        if ws.len() >= 2 {
            match parse_u64_chars(&ws[1]) {
                None => {},
                Some(v) => {
                    if chars_eq(&ws[0], "MemTotal:") {
                        info.mem_total_kb = v;
                    } else if chars_eq(&ws[0], "MemAvailable:") {
                        info.mem_available_kb = v;
                    } else if chars_eq(&ws[0], "SwapTotal:") {
                        info.swap_total_kb = v;
                    } else if chars_eq(&ws[0], "SwapFree:") {
                        info.swap_free_kb = v;
                    }
                },
            }
        }
        i += 1;
    }
    assert(lv.take(ls.len() as int) =~= lv);
    info
}

impl MemInfo {
    /// RAM in use: total less available, floored at zero.
    pub fn ram_used_kb(&self) -> (r: u64)
        ensures
            r == (if self.mem_available_kb <= self.mem_total_kb {
                self.mem_total_kb - self.mem_available_kb
            } else {
                0
            }),
    {
        self.mem_total_kb.saturating_sub(self.mem_available_kb)
    }

    /// Swap in use: total less free, floored at zero.
    pub fn swap_used_kb(&self) -> (r: u64)
        ensures
            r == (if self.swap_free_kb <= self.swap_total_kb {
                self.swap_total_kb - self.swap_free_kb
            } else {
                0
            }),
    {
        self.swap_total_kb.saturating_sub(self.swap_free_kb)
    }
}

// ---------------------------------------------------------------------
// Human-readable byte amounts
// ---------------------------------------------------------------------

/// Largest integer that an `f64` holds with unit spacing, plus one.
pub open spec fn mantissa_limit() -> nat {
    0x20_0000_0000_0000
}

/// Spacing of the `f64` values around `x`: 1 below 2^53, doubling with
/// every further binary digit of `x`.
pub open spec fn f64_unit(x: nat) -> nat
    decreases x,
{
    if x < mantissa_limit() {
        1
    } else {
        2 * f64_unit(x / 2)
    }
}

/// `x / d` rounded to the nearest integer, ties to the even one.
pub open spec fn round_even(x: nat, d: nat) -> nat
    recommends
        d > 0,
{
    let q = x / d;
    let r = x % d;
    if 2 * r > d || (2 * r == d && q % 2 == 1) {
        q + 1
    } else {
        q
    }
}

/// `x as f64`: the integer `x` rounded to the nearest `f64`, ties to an
/// even mantissa.
pub open spec fn f64_of(x: nat) -> nat {
    round_even(x, f64_unit(x)) * f64_unit(x)
}

/// `format!("{:.1}", x / d)` for a non-negative integer `x` and a power of
/// two `d`: the quotient rounded to tenths, ties to even.
pub open spec fn tenths_text(x: nat, d: nat) -> Seq<char> {
    let t = round_even(x * 10, d);
    dec(t / 10).push('.').push(digit_char(t % 10))
}

pub open spec fn kib() -> nat {
    0x400
}

pub open spec fn mib() -> nat {
    0x10_0000
}

pub open spec fn gib() -> nat {
    0x4000_0000
}

/// `format_human_bytes(kb)`: the amount `kb * 1024` bytes, computed as an
/// `f64`, in the largest of TB, GB, MB that it reaches, with one decimal,
/// or in KB without decimals below one MB.
pub open spec fn human_bytes(kb: nat) -> Seq<char> {
    let f = f64_of(kb);
    if f >= gib() {
        tenths_text(f, gib()) + "TB"@
    } else if f >= mib() {
        tenths_text(f, mib()) + "GB"@
    } else if f >= kib() {
        tenths_text(f, kib()) + "MB"@
    } else {
        dec(f) + "KB"@
    }
}

/// `format_mem_pair(used, total)`.
pub open spec fn mem_pair(used_kb: nat, total_kb: nat) -> Seq<char> {
    if total_kb == 0 {
        "0.0GB/0.0GB"@
    } else {
        human_bytes(used_kb) + "/"@ + human_bytes(total_kb)
    }
}

proof fn lemma_f64_unit_step(x: nat)
    requires
        x >= mantissa_limit(),
    ensures
        f64_unit(x) == 2 * f64_unit(x / 2),
{
}

/// `x / (2 * p) == (x / p) / 2`.
proof fn lemma_halve(x: nat, p: nat)
    requires
        p > 0,
    ensures
        (x / p) / 2 == x / (p * 2),
{
    vstd::arithmetic::div_mod::lemma_div_denominator(x as int, p as int, 2);
}

/// Rounds `kb` to the nearest `f64` and returns that value as an integer.
fn f64_value(kb: u64) -> (r: u128)
    ensures
        r == f64_of(kb as nat),
        r <= 0x1_0000_0000_0000_0000,
{
    let mut p: u128 = 1;
    let mut x: u128 = kb as u128;
    let ghost mut k: nat = 0;
    proof {
        vstd::arithmetic::power2::lemma2_to64();
    }
    while x >= 0x20_0000_0000_0000
        invariant
            1 <= p <= 0x800,
            p == pow2(k),
            k <= 11,
            x == (kb as nat) / (p as nat),
            f64_unit(kb as nat) == p * f64_unit(x as nat),
        decreases x,
    {
        proof {
            lemma_halve(kb as nat, p as nat);
            lemma_f64_unit_step(x as nat);
            assert(p * x <= kb) by (nonlinear_arith)
                requires
                    x == (kb as nat) / (p as nat),
                    p >= 1,
            {
                vstd::arithmetic::div_mod::lemma_fundamental_div_mod(kb as int, p as int);
            }
            assert(p * 0x20_0000_0000_0000 <= p * x) by (nonlinear_arith)
                requires
                    x >= 0x20_0000_0000_0000,
                    p >= 1,
            ;
            assert(p < 0x800);
            vstd::arithmetic::power2::lemma2_to64();
            if k >= 11 {
                if k > 11 {
                    vstd::arithmetic::power2::lemma_pow2_strictly_increases(11, k);
                }
                assert(false);
            }
            vstd::arithmetic::power2::lemma_pow2_unfold(k + 1);
            assert(f64_unit(kb as nat) == (p * 2) * f64_unit((x / 2) as nat)) by (nonlinear_arith)
                requires
                    f64_unit(kb as nat) == p * f64_unit(x as nat),
                    f64_unit(x as nat) == 2 * f64_unit((x / 2) as nat),
            ;
        }
        x = x / 2;
        p = p * 2;
        proof {
            k = k + 1;
        }
    }
    assert(f64_unit(x as nat) == 1);
    assert(f64_unit(kb as nat) == p) by (nonlinear_arith)
        requires
            f64_unit(kb as nat) == p * f64_unit(x as nat),
            f64_unit(x as nat) == 1,
    ;
    let q: u128 = kb as u128 / p;
    let rem: u128 = kb as u128 % p;
    let rq: u128 = if 2 * rem > p || (2 * rem == p && q % 2 == 1) { q + 1 } else { q };
    proof {
        vstd::arithmetic::power2::lemma2_to64();
        vstd::arithmetic::power2::lemma_pow2_adds(k, (64 - k) as nat);
        let m = pow2((64 - k) as nat);
        assert(p * m == 0x1_0000_0000_0000_0000);
        assert(q * p <= kb) by (nonlinear_arith)
            requires
                q == (kb as nat) / (p as nat),
                p >= 1,
        {
            vstd::arithmetic::div_mod::lemma_fundamental_div_mod(kb as int, p as int);
        }
        assert(rq * p <= 0x1_0000_0000_0000_0000) by (nonlinear_arith)
            requires
                rq <= q + 1,
                q * p <= kb,
                kb < 0x1_0000_0000_0000_0000,
                p * m == 0x1_0000_0000_0000_0000,
                p >= 1,
        {
            assert(q * p < m * p);
            assert(q < m);
            assert(rq <= m);
        }
    }
    assert(rq == round_even(kb as nat, p as nat));
    rq * p
}

/// Appends `format!("{:.1}", x / d)`.
fn push_tenths(s: &mut String, x: u128, d: u128)
    requires
        d == kib() || d == mib() || d == gib(),
        x <= 0x1_0000_0000_0000_0000,
    ensures
        final(s)@ == old(s)@ + tenths_text(x as nat, d as nat),
{
    let y: u128 = x * 10;
    let q: u128 = y / d;
    let rem: u128 = y % d;
    let t: u128 = if 2 * rem > d || (2 * rem == d && q % 2 == 1) { q + 1 } else { q };
    assert(t <= u64::MAX);
    push_decimal(s, (t / 10) as u64);
    push_char(s, '.');
    let c: char = ((t % 10) as u8 + 48u8) as char;
    push_char(s, c);
}

/// Formats a kB value as a human-readable string with one decimal place and
/// full unit suffix (e.g. `5.6GB`, `512.3MB`); below one MB, whole KB.
pub fn format_human_bytes(kb: u64) -> (r: String)
    ensures
        r@ == human_bytes(kb as nat),
{
    let f = f64_value(kb);
    let mut s = String::new();
    if f >= 0x4000_0000 {
        push_tenths(&mut s, f, 0x4000_0000);
        push_str(&mut s, "TB");
    } else if f >= 0x10_0000 {
        push_tenths(&mut s, f, 0x10_0000);
        push_str(&mut s, "GB");
    } else if f >= 0x400 {
        push_tenths(&mut s, f, 0x400);
        push_str(&mut s, "MB");
    } else {
        push_decimal(&mut s, f as u64);
        push_str(&mut s, "KB");
    }
    s
}

/// Formats a used/total pair where each value carries its own unit
/// (e.g. `5.6GB/16.0GB`, `512.3MB/2.0TB`); `0.0GB/0.0GB` when total is zero
/// (e.g. swap disabled).
pub fn format_mem_pair(used_kb: u64, total_kb: u64) -> (r: String)
    ensures
        r@ == mem_pair(used_kb as nat, total_kb as nat),
{
    if total_kb == 0 {
        let mut s = String::new();
        push_str(&mut s, "0.0GB/0.0GB");
        return s;
    }
    let mut s = format_human_bytes(used_kb);
    push_str(&mut s, "/");
    let t = format_human_bytes(total_kb);
    push_str(&mut s, t.as_str());
    s
}

// ---------------------------------------------------------------------
// Width of a used/total pair
// ---------------------------------------------------------------------

/// Decimal representations do not get shorter as numbers grow.
pub proof fn lemma_dec_len_mono(a: nat, b: nat)
    requires
        a <= b,
    ensures
        dec(a).len() <= dec(b).len(),
    decreases b,
{
    crate::text::lemma_dec_nonempty(b);
    if b >= 10 && a >= 10 {
        assert(a / 10 <= b / 10) by (nonlinear_arith)
            requires a <= b;
        lemma_dec_len_mono(a / 10, b / 10);
    }
}

pub proof fn lemma_round_even_bounds(x: nat, d: nat)
    requires
        d > 0,
    ensures
        x / d <= round_even(x, d) <= x / d + 1,
{
}

/// Rounding to the nearest integer, ties to even, is monotone.
pub proof fn lemma_round_even_mono(x: nat, y: nat, d: nat)
    requires
        x <= y,
        d > 0,
    ensures
        round_even(x, d) <= round_even(y, d),
{
    vstd::arithmetic::div_mod::lemma_div_is_ordered(x as int, y as int, d as int);
    vstd::arithmetic::div_mod::lemma_fundamental_div_mod(x as int, d as int);
    vstd::arithmetic::div_mod::lemma_fundamental_div_mod(y as int, d as int);
    if x / d == y / d {
        assert(x % d <= y % d) by (nonlinear_arith)
            requires
                d > 0,
                x == d * (x / d) + x % d,
                y == d * (y / d) + y % d,
                x / d == y / d,
                x <= y,
        ;
    }
}

proof fn lemma_unit_bounds(x: nat)
    ensures
        f64_unit(x) >= 1,
        x / f64_unit(x) < mantissa_limit(),
        f64_unit(x) > 1 ==> x / f64_unit(x) >= mantissa_limit() / 2,
    decreases x,
{
    if x >= mantissa_limit() {
        lemma_unit_bounds(x / 2);
        let u = f64_unit(x / 2);
        vstd::arithmetic::div_mod::lemma_div_denominator(x as int, 2, u as int);
        assert(f64_unit(x) == 2 * u);
        assert((x / 2) / u == x / (2 * u));
        if u == 1 {
            assert((x / 2) / 1 == x / 2);
        }
    } else {
        assert(x / 1 == x);
    }
}

proof fn lemma_unit_mono(x: nat, y: nat)
    requires
        x <= y,
    ensures
        f64_unit(x) <= f64_unit(y),
        f64_unit(x) < f64_unit(y) ==> 2 * f64_unit(x) <= f64_unit(y),
    decreases y,
{
    lemma_unit_bounds(x);
    lemma_unit_bounds(y);
    if y >= mantissa_limit() && x >= mantissa_limit() {
        lemma_unit_mono(x / 2, y / 2);
    } else if y >= mantissa_limit() {
        lemma_unit_bounds(y / 2);
    }
}

/// Integers below 2^53 are exact `f64` values.
pub proof fn lemma_f64_exact(x: nat)
    requires
        x < mantissa_limit(),
    ensures
        f64_of(x) == x,
{
    assert(f64_unit(x) == 1);
    assert(x / 1 == x);
    assert(x % 1 == 0);
    assert(round_even(x, 1) == x);
}

/// Conversion to `f64` is monotone.
pub proof fn lemma_f64_mono(x: nat, y: nat)
    requires
        x <= y,
    ensures
        f64_of(x) <= f64_of(y),
{
    lemma_unit_mono(x, y);
    lemma_unit_bounds(x);
    lemma_unit_bounds(y);
    let ux = f64_unit(x);
    let uy = f64_unit(y);
    lemma_round_even_bounds(x, ux);
    lemma_round_even_bounds(y, uy);
    if ux == uy {
        lemma_round_even_mono(x, y, ux);
        assert(round_even(x, ux) * ux <= round_even(y, ux) * ux) by (nonlinear_arith)
            requires round_even(x, ux) <= round_even(y, ux);
    } else {
        let rx = round_even(x, ux);
        let ry = round_even(y, uy);
        assert(rx <= mantissa_limit());
        assert(ry >= mantissa_limit() / 2);
        assert(rx * ux <= ry * uy) by (nonlinear_arith)
            requires
                rx <= mantissa_limit(),
                ry >= mantissa_limit() / 2,
                2 * ux <= uy,
        ;
    }
}

/// Which unit `human_bytes` picks: 0 for KB, 1 for MB, 2 for GB, 3 for TB.
pub open spec fn unit_band(kb: nat) -> nat {
    let f = f64_of(kb);
    if f >= gib() {
        3
    } else if f >= mib() {
        2
    } else if f >= kib() {
        1
    } else {
        0
    }
}

/// Number of characters of `human_bytes(kb)`.
pub open spec fn human_len(kb: nat) -> nat {
    human_bytes(kb).len()
}

proof fn lemma_human_len(kb: nat)
    ensures
        unit_band(kb) == 0 ==> human_len(kb) == dec(f64_of(kb)).len() + 2,
        unit_band(kb) == 1 ==> human_len(kb) == dec(round_even(f64_of(kb) * 10, kib()) / 10).len()
            + 4,
        unit_band(kb) == 2 ==> human_len(kb) == dec(round_even(f64_of(kb) * 10, mib()) / 10).len()
            + 4,
        unit_band(kb) == 3 ==> human_len(kb) == dec(round_even(f64_of(kb) * 10, gib()) / 10).len()
            + 4,
{
    reveal_strlit("TB");
    reveal_strlit("GB");
    reveal_strlit("MB");
    reveal_strlit("KB");
}

/// Within one unit, longer amounts never print shorter.
proof fn lemma_human_len_mono(a: nat, b: nat)
    requires
        a <= b,
        unit_band(a) == unit_band(b),
    ensures
        human_len(a) <= human_len(b),
{
    lemma_f64_mono(a, b);
    lemma_human_len(a);
    lemma_human_len(b);
    let fa = f64_of(a);
    let fb = f64_of(b);
    assert(fa * 10 <= fb * 10);
    if unit_band(a) == 0 {
        lemma_dec_len_mono(fa, fb);
    } else {
        let d = if unit_band(a) == 1 {
            kib()
        } else if unit_band(a) == 2 {
            mib()
        } else {
            gib()
        };
        lemma_round_even_mono(fa * 10, fb * 10, d);
        assert(round_even(fa * 10, d) / 10 <= round_even(fb * 10, d) / 10) by (nonlinear_arith)
            requires round_even(fa * 10, d) <= round_even(fb * 10, d);
        lemma_dec_len_mono(round_even(fa * 10, d) / 10, round_even(fb * 10, d) / 10);
    }
}

/// The unit band of `kb` as a plain range of `kb`.
proof fn lemma_unit_band(kb: nat)
    ensures
        unit_band(kb) == (if kb >= gib() {
            3nat
        } else if kb >= mib() {
            2nat
        } else if kb >= kib() {
            1nat
        } else {
            0nat
        }),
{
    if kb < mantissa_limit() {
        lemma_f64_exact(kb);
    } else {
        lemma_f64_exact(gib());
        lemma_f64_mono(gib(), kb);
    }
}

/// The widest that `format_mem_pair(used, total)` gets over all
/// `used <= total`.
pub open spec fn is_max_pair_width(total_kb: nat, w: nat) -> bool {
    &&& forall|u: nat| u <= total_kb ==> #[trigger] mem_pair(u, total_kb).len() <= w
    &&& exists|u: nat| u <= total_kb && #[trigger] mem_pair(u, total_kb).len() == w
}

proof fn lemma_human_len_bound(kb: nat)
    requires
        kb <= u64::MAX,
    ensures
        human_len(kb) <= 30,
{
    lemma_human_len(kb);
    assert(f64_of(kb) <= 2 * kb + 1) by {
        lemma_unit_bounds(kb);
        let u = f64_unit(kb);
        lemma_round_even_bounds(kb, u);
        let q = kb / u;
        assert(q * u <= kb) by (nonlinear_arith)
            requires q == kb / u, u >= 1
        {
            vstd::arithmetic::div_mod::lemma_fundamental_div_mod(kb as int, u as int);
        }
        assert(round_even(kb, u) * u <= q * u + u) by (nonlinear_arith)
            requires round_even(kb, u) <= q + 1;
        if u > 1 {
            assert(u <= q * u) by (nonlinear_arith)
                requires q >= 1, u >= 1;
        }
    }
    let f = f64_of(kb);
    let p21: nat = 1_000_000_000_000_000_000_000;
    assert(crate::text::pow10(21) == p21) by {
        reveal_with_fuel(crate::text::pow10, 22);
    }
    lemma_round_even_bounds(f * 10, kib());
    lemma_round_even_bounds(f * 10, mib());
    lemma_round_even_bounds(f * 10, gib());
    crate::text::lemma_dec_len_le(f, 21);
    if unit_band(kb) == 1 {
        crate::text::lemma_dec_len_le(round_even(f * 10, kib()) / 10, 21);
    } else if unit_band(kb) == 2 {
        crate::text::lemma_dec_len_le(round_even(f * 10, mib()) / 10, 21);
    } else if unit_band(kb) == 3 {
        crate::text::lemma_dec_len_le(round_even(f * 10, gib()) / 10, 21);
    }
}

/// The width that `is_max_pair_width` singles out.
pub open spec fn max_pair_width(total_kb: nat) -> nat {
    choose|w: nat| is_max_pair_width(total_kb, w)
}

/// There is only one such width.
pub proof fn lemma_max_pair_width_unique(total_kb: nat, w: nat)
    requires
        is_max_pair_width(total_kb, w),
    ensures
        max_pair_width(total_kb) == w,
{
    let v = max_pair_width(total_kb);
    assert(is_max_pair_width(total_kb, v));
    let uw = choose|u: nat| u <= total_kb && #[trigger] mem_pair(u, total_kb).len() == w;
    let uv = choose|u: nat| u <= total_kb && #[trigger] mem_pair(u, total_kb).len() == v;
    assert(mem_pair(uw, total_kb).len() <= v);
    assert(mem_pair(uv, total_kb).len() <= w);
}

/// The widest text `mem_pair(u, total)` for `u` from 0 to `k`.
spec fn widest_upto(total_kb: nat, k: nat) -> nat
    decreases k,
{
    if k == 0 {
        mem_pair(0, total_kb).len()
    } else {
        let w = widest_upto(total_kb, (k - 1) as nat);
        let l = mem_pair(k, total_kb).len();
        if l > w {
            l
        } else {
            w
        }
    }
}

proof fn lemma_widest_upto(total_kb: nat, k: nat)
    ensures
        forall|u: nat| u <= k ==> #[trigger] mem_pair(u, total_kb).len() <= widest_upto(total_kb, k),
        exists|u: nat| u <= k && #[trigger] mem_pair(u, total_kb).len() == widest_upto(total_kb, k),
    decreases k,
{
    if k == 0 {
        assert(mem_pair(0, total_kb).len() == widest_upto(total_kb, k));
    } else {
        lemma_widest_upto(total_kb, (k - 1) as nat);
        let w = widest_upto(total_kb, (k - 1) as nat);
        if mem_pair(k, total_kb).len() > w {
            assert(mem_pair(k, total_kb).len() == widest_upto(total_kb, k));
        } else {
            let u = choose|u: nat| u <= (k - 1) as nat && #[trigger] mem_pair(u, total_kb).len() == w;
            assert(mem_pair(u, total_kb).len() == widest_upto(total_kb, k));
        }
    }
}

/// Over every `used` from 0 to `total` some text is the widest, so
/// `max_pair_width` is that width.
pub proof fn lemma_max_pair_width(total_kb: nat)
    ensures
        is_max_pair_width(total_kb, max_pair_width(total_kb)),
{
    lemma_widest_upto(total_kb, total_kb);
    assert(is_max_pair_width(total_kb, widest_upto(total_kb, total_kb)));
    lemma_max_pair_width_unique(total_kb, widest_upto(total_kb, total_kb));
}

fn human_width(kb: u64) -> (r: usize)
    ensures
        r == human_len(kb as nat),
        r <= 30,
{
    proof {
        lemma_human_len_bound(kb as nat);
    }
    let s = format_human_bytes(kb);
    chars_of(s.as_str()).len()
}

/// Maximum width of the text `format_mem_pair(used, total)` over every
/// `used` from 0 to `total`, so that a chart laid out with it stays put as
/// usage moves across unit boundaries.
pub fn max_mem_pair_width(total_kb: u64) -> (r: usize)
    ensures
        is_max_pair_width(total_kb as nat, r as nat),
        r == max_pair_width(total_kb as nat),
        r <= 61,
{
    if total_kb == 0 {
        proof {
            reveal_strlit("0.0GB/0.0GB");
            assert(mem_pair(0, 0).len() == 11);
        }
        proof {
            lemma_max_pair_width_unique(0, 11);
        }
        return 11;
    }
    let tw = human_width(total_kb);
    let c0: u64 = if total_kb < 0x3ff { total_kb } else { 0x3ff };
    let mut best: u64 = c0;
    let mut bw = human_width(c0);
    if total_kb >= 0x400 {
        let c1: u64 = if total_kb < 0xf_ffff { total_kb } else { 0xf_ffff };
        let w1 = human_width(c1);
        if w1 > bw {
            best = c1;
            bw = w1;
        }
    }
    if total_kb >= 0x10_0000 {
        let c2: u64 = if total_kb < 0x3fff_ffff { total_kb } else { 0x3fff_ffff };
        let w2 = human_width(c2);
        if w2 > bw {
            best = c2;
            bw = w2;
        }
    }
    if total_kb >= 0x4000_0000 {
        let w3 = human_width(total_kb);
        if w3 > bw {
            best = total_kb;
            bw = w3;
        }
    }
    proof {
        reveal_strlit("/");
        let t = total_kb as nat;
        lemma_unit_band(c0 as nat);
        assert forall|u: nat| u <= t implies #[trigger] mem_pair(u, t).len() <= tw + 1 + bw by {
            lemma_unit_band(u);
            if u < kib() {
                lemma_unit_band(c0 as nat);
                lemma_human_len_mono(u, c0 as nat);
            } else if u < mib() {
                let c1 = if t < 0xf_ffff { t } else { 0xf_ffff };
                lemma_unit_band(c1);
                lemma_human_len_mono(u, c1);
            } else if u < gib() {
                let c2 = if t < 0x3fff_ffff { t } else { 0x3fff_ffff };
                lemma_unit_band(c2);
                lemma_human_len_mono(u, c2);
            } else {
                lemma_unit_band(t);
                lemma_human_len_mono(u, t);
            }
        }
        assert(mem_pair(best as nat, t).len() == tw + 1 + bw);
        lemma_max_pair_width_unique(t, (tw + 1 + bw) as nat);
    }
    tw + 1 + bw
}

proof fn lemma_ascii_add(a: Seq<char>, b: Seq<char>)
    requires
        is_ascii_chars(a),
        is_ascii_chars(b),
    ensures
        is_ascii_chars(a + b),
{
    vstd::utf8::is_ascii_chars_concat(a + b, a, b);
}

proof fn lemma_dec_ascii(n: nat)
    ensures
        is_ascii_chars(dec(n)),
{
    crate::text::lemma_dec_digits(n);
    assert forall|i: int| 0 <= i < dec(n).len() implies '\0' <= #[trigger] dec(n)[i] <= '\u{7f}' by {
        assert(crate::text::is_digit(dec(n)[i]));
    }
}

/// `human_bytes` is plain ASCII.
pub proof fn lemma_human_bytes_ascii(kb: nat)
    ensures
        is_ascii_chars(human_bytes(kb)),
{
    reveal_strlit("TB");
    reveal_strlit("GB");
    reveal_strlit("MB");
    reveal_strlit("KB");
    let f = f64_of(kb);
    lemma_dec_ascii(f);
    let unit = if f >= gib() { gib() } else if f >= mib() { mib() } else { kib() };
    let t = round_even(f * 10, unit);
    lemma_dec_ascii(t / 10);
    let tail = seq!['.', digit_char(t % 10)];
    assert(is_ascii_chars(tail));
    lemma_ascii_add(dec(t / 10), tail);
    assert(tenths_text(f, unit) =~= dec(t / 10) + tail);
    if f >= gib() {
        lemma_ascii_add(tenths_text(f, unit), "TB"@);
    } else if f >= mib() {
        lemma_ascii_add(tenths_text(f, unit), "GB"@);
    } else if f >= kib() {
        lemma_ascii_add(tenths_text(f, unit), "MB"@);
    } else {
        lemma_ascii_add(dec(f), "KB"@);
    }
}

/// `mem_pair` is plain ASCII.
pub proof fn lemma_mem_pair_ascii(used_kb: nat, total_kb: nat)
    ensures
        is_ascii_chars(mem_pair(used_kb, total_kb)),
{
    reveal_strlit("0.0GB/0.0GB");
    reveal_strlit("/");
    if total_kb != 0 {
        lemma_human_bytes_ascii(used_kb);
        lemma_human_bytes_ascii(total_kb);
        lemma_ascii_add(human_bytes(used_kb), "/"@);
        lemma_ascii_add(human_bytes(used_kb) + "/"@, human_bytes(total_kb));
    }
}

/// `format_mem_pair` never prints more than 61 characters, all ASCII.
pub proof fn lemma_mem_pair_small(used_kb: nat, total_kb: nat)
    requires
        used_kb <= u64::MAX,
        total_kb <= u64::MAX,
    ensures
        mem_pair(used_kb, total_kb).len() <= 61,
        is_ascii_chars(mem_pair(used_kb, total_kb)),
{
    reveal_strlit("0.0GB/0.0GB");
    reveal_strlit("/");
    lemma_human_len_bound(used_kb);
    lemma_human_len_bound(total_kb);
    lemma_mem_pair_ascii(used_kb, total_kb);
}

/// `format!("{:>w$}", format_mem_pair(used, total))`: the amounts
/// right-aligned in `w` columns.
pub fn padded_mem_pair(used_kb: u64, total_kb: u64, w: usize) -> (r: String)
    ensures
        r@ == pad_left(mem_pair(used_kb as nat, total_kb as nat), w as nat),
        r@.len() == if w > mem_pair(used_kb as nat, total_kb as nat).len() {
            w as nat
        } else {
            mem_pair(used_kb as nat, total_kb as nat).len()
        },
        mem_pair(used_kb as nat, total_kb as nat).len() <= 61,
        is_ascii_chars(r@),
{
    let pair = format_mem_pair(used_kb, total_kb);
    let mut r = String::new();
    push_pad_left(&mut r, pair.as_str(), w);
    proof {
        lemma_mem_pair_small(used_kb as nat, total_kb as nat);
        let p = mem_pair(used_kb as nat, total_kb as nat);
        let pad = pad_left(p, w as nat);
        assert forall|i: int| 0 <= i < pad.len() implies '\0' <= #[trigger] pad[i] <= '\u{7f}' by {
            if i >= pad.len() - p.len() {
                assert(pad[i] == p[i - (pad.len() - p.len())]);
            }
        }
    }
    r
}

} // verus!
