//! Which words a frame shows: a word such as `GPU` occurs in a text made
//! of pieces only where a piece holds it, once no piece ends with the
//! start of the word unless the next one cannot continue it.
use vstd::prelude::*;

use crate::memory::usage::{human_bytes, mem_pair};
use crate::text::{dec, digit_char, is_digit, lemma_dec_digits, pad_left, repeat, spaces};
use crate::ui::colors::{COLOR_BOLD_CYAN, COLOR_DIM_CHART, COLOR_DIM_GRAY, COLOR_RESET, COLOR_WHITE};
use crate::ui::sparkline::{bar, cells_text, chart, empty_cell, Cell};

verus! {

/// `w` occurs in `s`.
pub open spec fn contains(s: Seq<char>, w: Seq<char>) -> bool {
    exists|i: int| 0 <= i && i + w.len() <= s.len() && #[trigger] s.subrange(i, i + w.len()) == w
}

/// `s` ends with the start of `w`: a nonempty part of `w`, short of all
/// of it, that text after `s` could complete.
pub open spec fn ends_with_start(s: Seq<char>, w: Seq<char>) -> bool {
    exists|i: int|
        0 <= i < s.len() && s.len() - i < w.len() && #[trigger] s.subrange(i, s.len() as int)
            == w.subrange(0, s.len() - i)
}

/// `s` does not show `w`, and no text after it can complete one.
pub open spec fn safe(s: Seq<char>, w: Seq<char>) -> bool {
    !contains(s, w) && !ends_with_start(s, w)
}

/// `s` holds no `x`.
pub open spec fn lacks(s: Seq<char>, x: char) -> bool {
    forall|i: int| 0 <= i < s.len() ==> #[trigger] s[i] != x
}

/// After a text that cannot begin `w`, a text without `w` adds none.
pub proof fn lemma_contains_add(a: Seq<char>, b: Seq<char>, w: Seq<char>)
    requires
        safe(a, w),
        !contains(b, w),
    ensures
        !contains(a + b, w),
{
    let s = a + b;
    let n = w.len();
    if contains(s, w) {
        let i = choose|i: int| 0 <= i && i + w.len() <= s.len() && #[trigger] s.subrange(i, i + w.len()) == w;
        if i + n <= a.len() {
            assert(a.subrange(i, i + n) =~= s.subrange(i, i + n));
            assert(contains(a, w));
        } else if i >= a.len() {
            assert(b.subrange(i - a.len(), i - a.len() + n) =~= s.subrange(i, i + n));
            assert(contains(b, w));
        } else {
            assert(a.subrange(i, a.len() as int) =~= w.subrange(0, a.len() - i)) by {
                assert forall|k: int| 0 <= k < a.len() - i implies a.subrange(i, a.len() as int)[k]
                    == w.subrange(0, a.len() - i)[k] by {
                    assert(s.subrange(i, i + n)[k] == s[i + k]);
                }
            }
            assert(ends_with_start(a, w));
        }
    }
}

/// Two texts that show no `w` and cannot begin one show none together.
pub proof fn lemma_safe_add(a: Seq<char>, b: Seq<char>, w: Seq<char>)
    requires
        safe(a, w),
        safe(b, w),
    ensures
        safe(a + b, w),
{
    lemma_contains_add(a, b, w);
    let s = a + b;
    if ends_with_start(s, w) {
        let i = choose|i: int|
            0 <= i < s.len() && s.len() - i < w.len() && #[trigger] s.subrange(i, s.len() as int)
                == w.subrange(0, s.len() - i);
        if i >= a.len() {
            assert(b.subrange(i - a.len(), b.len() as int) =~= s.subrange(i, s.len() as int));
            assert(w.subrange(0, b.len() - (i - a.len())) =~= w.subrange(0, s.len() - i));
            assert(ends_with_start(b, w));
        } else {
            assert(a.subrange(i, a.len() as int) =~= w.subrange(0, a.len() - i)) by {
                assert forall|k: int| 0 <= k < a.len() - i implies a.subrange(i, a.len() as int)[k]
                    == w.subrange(0, a.len() - i)[k] by {
                    assert(s.subrange(i, s.len() as int)[k] == s[i + k]);
                    assert(w.subrange(0, s.len() - i)[k] == w[k]);
                }
            }
            assert(ends_with_start(a, w));
        }
    }
}

/// A text without the first letter of `w` cannot show or begin it.
pub proof fn lemma_lacks_safe(s: Seq<char>, w: Seq<char>)
    requires
        w.len() > 0,
        lacks(s, w[0]),
    ensures
        safe(s, w),
{
    if contains(s, w) {
        let i = choose|i: int| 0 <= i && i + w.len() <= s.len() && #[trigger] s.subrange(i, i + w.len()) == w;
        assert(s.subrange(i, i + w.len())[0] == s[i]);
    }
    if ends_with_start(s, w) {
        let i = choose|i: int|
            0 <= i < s.len() && s.len() - i < w.len() && #[trigger] s.subrange(i, s.len() as int)
                == w.subrange(0, s.len() - i);
        assert(s.subrange(i, s.len() as int)[0] == s[i]);
        assert(w.subrange(0, s.len() - i)[0] == w[0]);
    }
}

/// A text whose first character is no letter of `w` cuts off any `w`
/// before it.
pub proof fn lemma_add_breaker(a: Seq<char>, q: Seq<char>, w: Seq<char>)
    requires
        !contains(a, w),
        safe(q, w),
        q.len() > 0,
        forall|k: int| 0 <= k < w.len() ==> w[k] != q[0],
    ensures
        safe(a + q, w),
{
    let s = a + q;
    let n = w.len();
    if contains(s, w) {
        let i = choose|i: int| 0 <= i && i + w.len() <= s.len() && #[trigger] s.subrange(i, i + w.len()) == w;
        if i + n <= a.len() {
            assert(a.subrange(i, i + n) =~= s.subrange(i, i + n));
            assert(contains(a, w));
        } else if i >= a.len() {
            assert(q.subrange(i - a.len(), i - a.len() + n) =~= s.subrange(i, i + n));
            assert(contains(q, w));
        } else {
            assert(s.subrange(i, i + n)[a.len() - i] == q[0]);
        }
    }
    if ends_with_start(s, w) {
        let i = choose|i: int|
            0 <= i < s.len() && s.len() - i < w.len() && #[trigger] s.subrange(i, s.len() as int)
                == w.subrange(0, s.len() - i);
        if i >= a.len() {
            assert(q.subrange(i - a.len(), q.len() as int) =~= s.subrange(i, s.len() as int));
            assert(w.subrange(0, q.len() - (i - a.len())) =~= w.subrange(0, s.len() - i));
            assert(ends_with_start(q, w));
        } else {
            assert(s.subrange(i, s.len() as int)[a.len() - i] == q[0]);
            assert(w.subrange(0, s.len() - i)[a.len() - i] == w[a.len() - i]);
        }
    }
}

/// Any text without `w`, between a text that cannot begin `w` and one
/// whose first character is no letter of `w`.
pub proof fn lemma_wrap_safe(a: Seq<char>, t: Seq<char>, q: Seq<char>, w: Seq<char>)
    requires
        safe(a, w),
        !contains(t, w),
        safe(q, w),
        q.len() > 0,
        forall|k: int| 0 <= k < w.len() ==> w[k] != q[0],
    ensures
        safe(a + t + q, w),
{
    lemma_contains_add(a, t, w);
    lemma_add_breaker(a + t, q, w);
}

/// Padding a text without `w` with spaces adds none.
pub proof fn lemma_pad_contains(t: Seq<char>, width: nat, w: Seq<char>)
    requires
        !contains(t, w),
        w.len() > 0,
        w[0] != ' ',
    ensures
        !contains(pad_left(t, width), w),
{
    let k: nat = if width > t.len() { (width - t.len()) as nat } else { 0 };
    lemma_lacks_safe(spaces(k), w);
    lemma_contains_add(spaces(k), t, w);
}

/// A text contains whatever stands in it.
pub proof fn lemma_contains_mid(a: Seq<char>, w: Seq<char>, b: Seq<char>)
    ensures
        contains(a + w + b, w),
{
    let s = a + w + b;
    assert(s.subrange(a.len() as int, (a.len() + w.len()) as int) =~= w);
}

pub proof fn lemma_contains_grow(a: Seq<char>, s: Seq<char>, b: Seq<char>, w: Seq<char>)
    requires
        contains(s, w),
    ensures
        contains(a + s + b, w),
{
    let i = choose|i: int| 0 <= i && i + w.len() <= s.len() && #[trigger] s.subrange(i, i + w.len()) == w;
    let t = a + s + b;
    assert(t.subrange(a.len() + i, a.len() + i + w.len()) =~= s.subrange(i, i + w.len()));
}

pub proof fn lemma_contains_word(s: Seq<char>, w: Seq<char>, v: Seq<char>)
    requires
        contains(s, w),
        contains(w, v),
    ensures
        contains(s, v),
{
    let i = choose|i: int| 0 <= i && i + w.len() <= s.len() && #[trigger] s.subrange(i, i + w.len()) == w;
    let j = choose|j: int| 0 <= j && j + v.len() <= w.len() && #[trigger] w.subrange(j, j + v.len()) == v;
    assert(s.subrange(i + j, i + j + v.len()) =~= w.subrange(j, j + v.len()));
}

/// The two words that only the GPU section shows: `GPU` and the title
/// `VRAM Utilization`.
pub open spec fn gpu_word(w: Seq<char>) -> bool {
    w == "GPU"@ || w == "VRAM Utilization"@
}

/// Each such word starts with `G` or `V`, holds no escape character, and
/// is at least three characters long.
pub proof fn lemma_gpu_word(w: Seq<char>)
    requires
        gpu_word(w),
    ensures
        w.len() >= 3,
        w[0] == 'G' || w[0] == 'V',
        forall|k: int| 0 <= k < w.len() ==> w[k] != '\x1b',
        w == "GPU"@ ==> w[0] == 'G' && w[1] == 'P' && w.len() == 3,
        w[0] == 'G' ==> w == "GPU"@,
{
    reveal_strlit("GPU");
    reveal_strlit("VRAM Utilization");
}

/// The fixed texts of the CPU and memory sections hold neither `G` nor `V`.
pub proof fn lemma_styles_lack(x: char)
    requires
        x == 'G' || x == 'V',
    ensures
        lacks(bar(), x),
        lacks(empty_cell(), x),
        lacks(COLOR_RESET@, x),
        lacks(COLOR_DIM_GRAY@, x),
        lacks(COLOR_WHITE@, x),
        lacks(COLOR_BOLD_CYAN@, x),
        lacks(COLOR_DIM_CHART@, x),
        lacks(" "@, x),
        lacks("%"@, x),
        lacks("  "@, x),
        lacks("─"@, x),
        lacks("N/A"@, x),
        lacks("N/A°C (N/A°F)"@, x),
        lacks("#"@, x),
        lacks("\x1b[H"@, x),
        lacks("\x1b[K"@, x),
        lacks("\r\n"@, x),
        lacks("CPU"@, x),
        lacks("Memory"@, x),
        lacks("Utilization"@, x),
        lacks("Temperature"@, x),
        lacks("RAM Utilization"@, x),
        lacks("Swap Utilization"@, x),
        lacks("RAM"@, x),
        lacks("SWP"@, x),
        lacks("q: quit  ttop v0.1"@, x),
        lacks("TB"@, x),
        lacks("MB"@, x),
        lacks("KB"@, x),
        lacks("/"@, x),
        COLOR_RESET@.len() > 0 && COLOR_RESET@[0] == '\x1b',
{
    reveal_strlit("\x1b[0m");
    reveal_strlit("\x1b[90m");
    reveal_strlit("\x1b[37m");
    reveal_strlit("\x1b[1;36m");
    reveal_strlit("\x1b[38;5;240m");
    reveal_strlit("│");
    reveal_strlit("▁");
    reveal_strlit(" ");
    reveal_strlit("%");
    reveal_strlit("  ");
    reveal_strlit("─");
    reveal_strlit("N/A");
    reveal_strlit("N/A°C (N/A°F)");
    reveal_strlit("#");
    reveal_strlit("\x1b[H");
    reveal_strlit("\x1b[K");
    reveal_strlit("\r\n");
    reveal_strlit("CPU");
    reveal_strlit("Memory");
    reveal_strlit("Utilization");
    reveal_strlit("Temperature");
    reveal_strlit("RAM Utilization");
    reveal_strlit("Swap Utilization");
    reveal_strlit("RAM");
    reveal_strlit("SWP");
    reveal_strlit("q: quit  ttop v0.1");
    reveal_strlit("TB");
    reveal_strlit("MB");
    reveal_strlit("KB");
    reveal_strlit("/");
}

pub proof fn lemma_repeat_lacks(s: Seq<char>, n: nat, x: char)
    requires
        lacks(s, x),
    ensures
        lacks(repeat(s, n), x),
    decreases n,
{
    if n > 0 {
        lemma_repeat_lacks(s, (n - 1) as nat, x);
    }
}

pub proof fn lemma_dec_lacks(n: nat, x: char)
    requires
        x == 'G' || x == 'V',
    ensures
        lacks(dec(n), x),
{
    lemma_dec_digits(n);
    assert forall|i: int| 0 <= i < dec(n).len() implies #[trigger] dec(n)[i] != x by {
        assert(is_digit(dec(n)[i]));
    }
}

/// Chart cells whose colours and glyphs hold no `x`.
pub open spec fn cells_lack(cs: Seq<Cell>, x: char) -> bool {
    forall|i: int| 0 <= i < cs.len() ==> lacks(#[trigger] cs[i].color@, x) && cs[i].glyph != x
}

pub proof fn lemma_cells_lack(cs: Seq<Cell>, x: char)
    requires
        x == 'G' || x == 'V',
        cells_lack(cs, x),
    ensures
        lacks(cells_text(cs), x),
    decreases cs.len(),
{
    lemma_styles_lack(x);
    if cs.len() > 0 {
        assert(cells_lack(cs.drop_last(), x)) by {
            assert forall|i: int| 0 <= i < cs.drop_last().len() implies lacks(
                #[trigger] cs.drop_last()[i].color@,
                x,
            ) && cs.drop_last()[i].glyph != x by {
                assert(cs.drop_last()[i] == cs[i]);
            }
        }
        lemma_cells_lack(cs.drop_last(), x);
        assert(lacks(cs.last().color@, x));
    }
}

pub proof fn lemma_chart_lacks(cs: Seq<Cell>, cw: nat, x: char)
    requires
        x == 'G' || x == 'V',
        cells_lack(cs, x),
    ensures
        lacks(chart(cs, cw), x),
{
    lemma_styles_lack(x);
    lemma_repeat_lacks(empty_cell(), crate::text::sat_sub(cw as int, cs.len() as int), x);
    let start = crate::text::sat_sub(cs.len() as int, cw as int) as int;
    assert(cells_lack(cs.skip(start), x)) by {
        assert forall|i: int| 0 <= i < cs.skip(start).len() implies lacks(
            #[trigger] cs.skip(start)[i].color@,
            x,
        ) && cs.skip(start)[i].glyph != x by {
            assert(cs.skip(start)[i] == cs[start + i]);
        }
    }
    lemma_cells_lack(cs.skip(start), x);
}

/// `GB` shows neither word and cannot begin one.
proof fn lemma_gb_safe(w: Seq<char>)
    requires
        gpu_word(w),
    ensures
        safe(seq!['G', 'B'], w),
{
    lemma_gpu_word(w);
    let gb = seq!['G', 'B'];
    if contains(gb, w) {
        let i = choose|i: int| 0 <= i && i + w.len() <= gb.len() && #[trigger] gb.subrange(i, i + w.len()) == w;
    }
    if w[0] == 'V' {
        lemma_lacks_safe(gb, w);
    } else {
        if ends_with_start(gb, w) {
            let i = choose|i: int|
                0 <= i < gb.len() && gb.len() - i < w.len() && #[trigger] gb.subrange(i, gb.len() as int)
                    == w.subrange(0, gb.len() - i);
            if i == 0 {
                assert(gb.subrange(0, 2)[1] == 'B');
                assert(w.subrange(0, 2)[1] == w[1]);
            } else {
                assert(gb.subrange(1, 2)[0] == 'B');
                assert(w.subrange(0, 1)[0] == w[0]);
            }
        }
    }
}

/// An amount of memory shows neither word: its only `G` is that of `GB`.
pub proof fn lemma_human_safe(kb: nat, w: Seq<char>)
    requires
        gpu_word(w),
    ensures
        safe(human_bytes(kb), w),
{
    lemma_gpu_word(w);
    let x = w[0];
    lemma_styles_lack(x);
    reveal_strlit("GB");
    let f = crate::memory::usage::f64_of(kb);
    lemma_dec_lacks(f, x);
    let d = if f >= crate::memory::usage::gib() {
        crate::memory::usage::gib()
    } else if f >= crate::memory::usage::mib() {
        crate::memory::usage::mib()
    } else {
        crate::memory::usage::kib()
    };
    let t = crate::memory::usage::round_even(f * 10, d);
    lemma_dec_lacks(t / 10, x);
    lemma_dec_digits(t % 10);
    assert(dec(t % 10) == seq![digit_char(t % 10)]);
    assert(is_digit(dec(t % 10)[0]));
    let tenths = dec(t / 10).push('.').push(digit_char(t % 10));
    assert(lacks(tenths, x));
    lemma_lacks_safe(tenths, w);
    lemma_gb_safe(w);
    assert("GB"@ =~= seq!['G', 'B']);
    lemma_safe_add(tenths, "GB"@, w);
    if f >= crate::memory::usage::gib() {
        lemma_lacks_safe("TB"@, w);
        lemma_safe_add(tenths, "TB"@, w);
    } else if f >= crate::memory::usage::mib() {
    } else if f >= crate::memory::usage::kib() {
        lemma_lacks_safe("MB"@, w);
        lemma_safe_add(tenths, "MB"@, w);
    } else {
        lemma_lacks_safe(dec(f), w);
        lemma_lacks_safe("KB"@, w);
        lemma_safe_add(dec(f), "KB"@, w);
    }
}

/// Used and total amounts, padded, show neither word.
pub proof fn lemma_mem_pair_safe(used_kb: nat, total_kb: nat, width: nat, w: Seq<char>)
    requires
        gpu_word(w),
    ensures
        safe(pad_left(mem_pair(used_kb, total_kb), width), w),
{
    lemma_gpu_word(w);
    lemma_styles_lack(w[0]);
    lemma_gb_safe(w);
    let p = mem_pair(used_kb, total_kb);
    if total_kb == 0 {
        reveal_strlit("0.0GB/0.0GB");
        let a = seq!['0', '.', '0'];
        let b = seq!['/', '0', '.', '0'];
        let gb = seq!['G', 'B'];
        assert(p =~= a + gb + b + gb);
        lemma_lacks_safe(a, w);
        lemma_lacks_safe(b, w);
        lemma_safe_add(a, gb, w);
        lemma_safe_add(a + gb, b, w);
        lemma_safe_add(a + gb + b, gb, w);
    } else {
        lemma_human_safe(used_kb, w);
        lemma_human_safe(total_kb, w);
        lemma_lacks_safe("/"@, w);
        lemma_safe_add(human_bytes(used_kb), "/"@, w);
        lemma_safe_add(human_bytes(used_kb) + "/"@, human_bytes(total_kb), w);
    }
    let k: nat = if width > p.len() { (width - p.len()) as nat } else { 0 };
    lemma_lacks_safe(spaces(k), w);
    lemma_safe_add(spaces(k), p, w);
}

pub proof fn lemma_contains_at(s: Seq<char>, w: Seq<char>, i: int)
    requires
        0 <= i,
        i + w.len() <= s.len(),
        s.subrange(i, i + w.len()) == w,
    ensures
        contains(s, w),
{
}

} // verus!
