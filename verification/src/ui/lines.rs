//! How many lines a frame takes: every section line ends in one `\r\n`,
//! no text inside a line ends one, and the blank lines below the sections
//! bring the status bar down to the terminal's last line.
use vstd::prelude::*;

use crate::memory::usage::{human_bytes, mem_pair};
use crate::text::{dec, digit_char, is_digit, lemma_dec_digits, pad_left, repeat, spaces};
use crate::ui::frame::{joined, Reading, Series};
use crate::ui::sparkline::{bar, cells_text, chart, empty_cell, Cell};

verus! {

/// Text without a line break.
pub open spec fn no_nl(s: Seq<char>) -> bool {
    forall|i: int| 0 <= i < s.len() ==> #[trigger] s[i] != '\n'
}

pub proof fn lemma_repeat_no_nl(s: Seq<char>, n: nat)
    requires
        no_nl(s),
    ensures
        no_nl(repeat(s, n)),
    decreases n,
{
    if n > 0 {
        lemma_repeat_no_nl(s, (n - 1) as nat);
    }
}

/// The colours and glyphs of a chart hold no line break.
pub open spec fn cells_ok(cs: Seq<Cell>) -> bool {
    forall|i: int| 0 <= i < cs.len() ==> no_nl(#[trigger] cs[i].color@) && cs[i].glyph != '\n'
}

pub proof fn lemma_styles_no_nl()
    ensures
        no_nl(bar()),
        no_nl(empty_cell()),
        no_nl(crate::ui::colors::COLOR_RESET@),
        no_nl(crate::ui::colors::COLOR_DIM_GRAY@),
        no_nl(crate::ui::colors::COLOR_WHITE@),
        no_nl(crate::ui::colors::COLOR_BOLD_CYAN@),
        no_nl(crate::ui::colors::COLOR_DIM_CHART@),
        no_nl(" "@),
        no_nl("%"@),
        no_nl("  "@),
        no_nl("─"@),
        no_nl("N/A"@),
        no_nl("N/A°C (N/A°F)"@),
        no_nl("#"@),
        no_nl("\x1b[H"@),
{
    reveal_strlit("\x1b[0m");
    reveal_strlit("\x1b[90m");
    reveal_strlit("\x1b[37m");
    reveal_strlit("\x1b[1;36m");
    reveal_strlit("\x1b[38;5;240m");
    reveal_strlit("│");
    reveal_strlit("▁");
    reveal_strlit(" ");
    reveal_strlit("%");
    reveal_strlit("  ");
    reveal_strlit("─");
    reveal_strlit("N/A");
    reveal_strlit("N/A°C (N/A°F)");
    reveal_strlit("#");
    reveal_strlit("\x1b[H");
}

pub proof fn lemma_cells_no_nl(cs: Seq<Cell>)
    requires
        cells_ok(cs),
    ensures
        no_nl(cells_text(cs)),
    decreases cs.len(),
{
    lemma_styles_no_nl();
    if cs.len() > 0 {
        assert(cells_ok(cs.drop_last())) by {
            assert forall|i: int| 0 <= i < cs.drop_last().len() implies no_nl(
                #[trigger] cs.drop_last()[i].color@,
            ) && cs.drop_last()[i].glyph != '\n' by {
                assert(cs.drop_last()[i] == cs[i]);
            }
        }
        lemma_cells_no_nl(cs.drop_last());
        assert(no_nl(cs.last().color@));
    }
}

pub proof fn lemma_chart_no_nl(cs: Seq<Cell>, cw: nat)
    requires
        cells_ok(cs),
    ensures
        no_nl(chart(cs, cw)),
{
    lemma_styles_no_nl();
    lemma_repeat_no_nl(empty_cell(), crate::text::sat_sub(cw as int, cs.len() as int));
    let start = crate::text::sat_sub(cs.len() as int, cw as int) as int;
    assert(cells_ok(cs.skip(start))) by {
        assert forall|i: int| 0 <= i < cs.skip(start).len() implies no_nl(
            #[trigger] cs.skip(start)[i].color@,
        ) && cs.skip(start)[i].glyph != '\n' by {
            assert(cs.skip(start)[i] == cs[start + i]);
        }
    }
    lemma_cells_no_nl(cs.skip(start));
}

pub proof fn lemma_dec_no_nl(n: nat)
    ensures
        no_nl(dec(n)),
{
    lemma_dec_digits(n);
    assert forall|i: int| 0 <= i < dec(n).len() implies #[trigger] dec(n)[i] != '\n' by {
        assert(is_digit(dec(n)[i]));
    }
}

pub proof fn lemma_human_no_nl(kb: nat)
    ensures
        no_nl(human_bytes(kb)),
{
    reveal_strlit("TB");
    reveal_strlit("GB");
    reveal_strlit("MB");
    reveal_strlit("KB");
    let f = crate::memory::usage::f64_of(kb);
    lemma_dec_no_nl(f);
    let d = if f >= crate::memory::usage::gib() {
        crate::memory::usage::gib()
    } else if f >= crate::memory::usage::mib() {
        crate::memory::usage::mib()
    } else {
        crate::memory::usage::kib()
    };
    let t = crate::memory::usage::round_even(f * 10, d);
    lemma_dec_no_nl(t / 10);
    lemma_dec_digits(t % 10);
    assert(dec(t % 10) == seq![digit_char(t % 10)]);
    assert(is_digit(dec(t % 10)[0]));
}

pub proof fn lemma_mem_pair_no_nl(used_kb: nat, total_kb: nat, w: nat)
    ensures
        no_nl(pad_left(mem_pair(used_kb, total_kb), w)),
{
    reveal_strlit("0.0GB/0.0GB");
    reveal_strlit("/");
    lemma_human_no_nl(used_kb);
    lemma_human_no_nl(total_kb);
}

/// The texts of a percentage history hold no line break.
pub open spec fn series_ok(s: Series) -> bool {
    &&& cells_ok(s.cells@)
    &&& no_nl(s.current@)
    &&& no_nl(s.color@)
}

/// The texts of a temperature history hold no line break.
pub open spec fn reading_ok(r: Reading) -> bool {
    &&& cells_ok(r.cells@)
    &&& r.current matches Some(t) ==> no_nl(t@)
    &&& no_nl(r.color@)
}

// ---------------------------------------------------------------------
// Line ends
// ---------------------------------------------------------------------

/// The number of `\r\n` line ends in `s`.
pub open spec fn crlfs(s: Seq<char>) -> nat
    decreases s.len(),
{
    if s.len() < 2 {
        0
    } else {
        crlfs(s.drop_last()) + if s[s.len() - 2] == '\r' && s.last() == '\n' {
            1nat
        } else {
            0nat
        }
    }
}

/// `s` does not begin with a line feed, so nothing before it can end a
/// line with it.
pub open spec fn lead_ok(s: Seq<char>) -> bool {
    s.len() > 0 ==> s[0] != '\n'
}

/// Text with no line end that no text before it can turn into one.
pub open spec fn pure(s: Seq<char>) -> bool {
    crlfs(s) == 0 && lead_ok(s)
}

/// The line ends of two texts put together: those of each, and one more
/// where the first ends in `\r` and the second begins with `\n`.
pub proof fn lemma_crlfs_add(a: Seq<char>, b: Seq<char>)
    ensures
        crlfs(a + b) == crlfs(a) + crlfs(b) + if a.len() > 0 && b.len() > 0 && a.last() == '\r' && b[0]
            == '\n' {
            1nat
        } else {
            0nat
        },
        lead_ok(a) && lead_ok(b) ==> lead_ok(a + b),
    decreases b.len(),
{
    if a.len() == 0 {
        assert(a + b =~= b);
    }
    if b.len() == 0 {
        assert(a + b =~= a);
    } else if b.len() == 1 {
        assert((a + b).drop_last() =~= a);
    } else {
        lemma_crlfs_add(a, b.drop_last());
        assert((a + b).drop_last() =~= a + b.drop_last());
    }
}

pub proof fn lemma_no_nl_pure(s: Seq<char>)
    requires
        no_nl(s),
    ensures
        pure(s),
    decreases s.len(),
{
    if s.len() >= 2 {
        assert(no_nl(s.drop_last()));
        lemma_no_nl_pure(s.drop_last());
    }
}

pub proof fn lemma_pure_add(a: Seq<char>, b: Seq<char>)
    requires
        pure(a),
        pure(b),
    ensures
        pure(a + b),
{
    lemma_crlfs_add(a, b);
}

/// Any text without a line end, after a text that does not end in `\r`.
pub proof fn lemma_wrap_pure(p: Seq<char>, t: Seq<char>)
    requires
        pure(p),
        p.len() > 0,
        p.last() != '\r',
        crlfs(t) == 0,
    ensures
        pure(p + t),
{
    lemma_crlfs_add(p, t);
}

/// Padding a text without a line end adds none.
pub proof fn lemma_pad_left_crlfs(t: Seq<char>, w: nat)
    requires
        crlfs(t) == 0,
    ensures
        crlfs(pad_left(t, w)) == 0,
{
    let k: nat = if w > t.len() { (w - t.len()) as nat } else { 0 };
    lemma_no_nl_pure(spaces(k));
    lemma_crlfs_add(spaces(k), t);
}

/// A line: text without a line end, then `\r\n`.
pub proof fn lemma_one_crlf(x: Seq<char>)
    requires
        pure(x),
    ensures
        crlfs(x + "\r\n"@) == 1,
        lead_ok(x + "\r\n"@),
{
    reveal_strlit("\r\n");
    let e = "\r\n"@;
    assert(e.drop_last() =~= seq!['\r']);
    assert(crlfs(e.drop_last()) == 0);
    assert(e.len() == 2 && e[0] == '\r' && e.last() == '\n');
    assert(crlfs(e) == 1);
    lemma_crlfs_add(x, e);
}

pub proof fn lemma_joined_crlfs(rows: Seq<Seq<char>>)
    requires
        forall|i: int| 0 <= i < rows.len() ==> crlfs(#[trigger] rows[i]) == 1 && lead_ok(rows[i]),
    ensures
        crlfs(joined(rows)) == rows.len(),
        lead_ok(joined(rows)),
    decreases rows.len(),
{
    if rows.len() > 0 {
        assert(crlfs(rows[rows.len() - 1]) == 1 && lead_ok(rows[rows.len() - 1]));
        lemma_joined_crlfs(rows.drop_last());
        lemma_crlfs_add(joined(rows.drop_last()), rows.last());
    }
}

pub proof fn lemma_repeat_crlfs(s: Seq<char>, n: nat)
    requires
        lead_ok(s),
    ensures
        crlfs(repeat(s, n)) == n * crlfs(s),
        lead_ok(repeat(s, n)),
    decreases n,
{
    if n > 0 {
        let m = (n - 1) as nat;
        let b = crlfs(s);
        lemma_repeat_crlfs(s, m);
        lemma_crlfs_add(repeat(s, m), s);
        assert(n * b == m * b + b) by (nonlinear_arith)
            requires
                n == m + 1,
        ;
    } else {
        assert(repeat(s, n) =~= Seq::<char>::empty());
    }
}

/// The colours before a label or a title end in `m`.
pub proof fn lemma_styles_end()
    ensures
        crate::ui::colors::COLOR_WHITE@.len() > 0,
        crate::ui::colors::COLOR_WHITE@.last() == 'm',
        crate::ui::colors::COLOR_BOLD_CYAN@.len() > 0,
        crate::ui::colors::COLOR_BOLD_CYAN@.last() == 'm',
{
    reveal_strlit("\x1b[37m");
    reveal_strlit("\x1b[1;36m");
}

} // verus!
