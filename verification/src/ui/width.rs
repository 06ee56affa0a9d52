//! How many terminal columns a text takes: characters are printed one
//! column each, and `ESC [ … letter` colour sequences take none.
use vstd::prelude::*;

use crate::memory::usage::{human_bytes, mem_pair};
use crate::text::{dec, digit_char, is_digit, lemma_dec_digits, pad_left, pad_right, repeat, sat_sub, spaces};
use crate::ui::colors::{
    COLOR_BOLD_CYAN, COLOR_DIM_CHART, COLOR_DIM_GRAY, COLOR_GREEN, COLOR_ORANGE, COLOR_RED,
    COLOR_RESET, COLOR_WHITE, COLOR_YELLOW,
};
use crate::ui::sparkline::{bar, cell_text, cells_text, chart, empty_cell, Cell};

verus! {

/// Where a terminal is in reading text: printing, just after `ESC`, or
/// inside a control sequence.
pub enum Term {
    Print,
    Esc,
    Csi,
}

pub open spec fn is_final_byte(c: char) -> bool {
    ('a' <= c && c <= 'z') || ('A' <= c && c <= 'Z')
}

/// The state after reading `c`, and the columns it takes.
pub open spec fn step(st: Term, c: char) -> (Term, nat) {
    match st {
        Term::Print => if c == '\x1b' {
            (Term::Esc, 0)
        } else {
            (Term::Print, 1)
        },
        Term::Esc => if c == '[' {
            (Term::Csi, 0)
        } else {
            (Term::Print, 0)
        },
        Term::Csi => if is_final_byte(c) {
            (Term::Print, 0)
        } else {
            (Term::Csi, 0)
        },
    }
}

/// The state after reading `s` from `st`, and the columns it takes.
pub open spec fn scan(st: Term, s: Seq<char>) -> (Term, nat)
    decreases s.len(),
{
    if s.len() == 0 {
        (st, 0)
    } else {
        let (st1, n) = scan(st, s.drop_last());
        let (st2, k) = step(st1, s.last());
        (st2, n + k)
    }
}

/// `s`, read from the printing state, takes `n` columns and leaves the
/// terminal printing.
pub open spec fn shows(s: Seq<char>, n: nat) -> bool {
    scan(Term::Print, s) == (Term::Print, n)
}

/// Text without an escape character.
pub open spec fn plain(s: Seq<char>) -> bool {
    forall|i: int| 0 <= i < s.len() ==> #[trigger] s[i] != '\x1b'
}

pub proof fn lemma_scan_add(st: Term, a: Seq<char>, b: Seq<char>)
    ensures
        scan(st, a + b) == (scan(scan(st, a).0, b).0, scan(st, a).1 + scan(scan(st, a).0, b).1),
    decreases b.len(),
{
    if b.len() == 0 {
        assert(a + b =~= a);
    } else {
        lemma_scan_add(st, a, b.drop_last());
        assert((a + b).drop_last() =~= a + b.drop_last());
    }
}

pub proof fn lemma_shows_add(a: Seq<char>, n: nat, b: Seq<char>, m: nat)
    requires
        shows(a, n),
        shows(b, m),
    ensures
        shows(a + b, n + m),
{
    lemma_scan_add(Term::Print, a, b);
}

pub proof fn lemma_plain_shows(s: Seq<char>)
    requires
        plain(s),
    ensures
        shows(s, s.len()),
    decreases s.len(),
{
    if s.len() > 0 {
        assert(plain(s.drop_last()));
        lemma_plain_shows(s.drop_last());
    }
}

proof fn lemma_scan_push(st: Term, s: Seq<char>, c: char)
    ensures
        scan(st, s.push(c)) == (step(scan(st, s).0, c).0, scan(st, s).1 + step(scan(st, s).0, c).1),
{
    assert(s.push(c).drop_last() =~= s);
}

proof fn lemma_escape_prefix(s: Seq<char>, k: int)
    requires
        s.len() >= 3,
        s[0] == '\x1b',
        s[1] == '[',
        2 <= k < s.len(),
        forall|i: int| 2 <= i < s.len() - 1 ==> !#[trigger] is_final_byte(s[i]),
    ensures
        scan(Term::Print, s.take(k)) == (Term::Csi, 0nat),
    decreases k,
{
    if k == 2 {
        assert(scan(Term::Print, Seq::<char>::empty()) == (Term::Print, 0nat));
        lemma_scan_push(Term::Print, Seq::<char>::empty(), s[0]);
        assert(Seq::<char>::empty().push(s[0]) =~= s.take(1));
        lemma_scan_push(Term::Print, s.take(1), s[1]);
        assert(s.take(1).push(s[1]) =~= s.take(2));
    } else {
        lemma_escape_prefix(s, k - 1);
        lemma_scan_push(Term::Print, s.take(k - 1), s[k - 1]);
        assert(s.take(k - 1).push(s[k - 1]) =~= s.take(k));
        assert(!is_final_byte(s[k - 1]));
    }
}

proof fn lemma_escape_shows(s: Seq<char>)
    requires
        s.len() >= 3,
        s[0] == '\x1b',
        s[1] == '[',
        is_final_byte(s.last()),
        forall|i: int| 2 <= i < s.len() - 1 ==> !#[trigger] is_final_byte(s[i]),
    ensures
        shows(s, 0),
{
    let n = s.len() as int;
    lemma_escape_prefix(s, n - 1);
    lemma_scan_push(Term::Print, s.take(n - 1), s[n - 1]);
    assert(s.take(n - 1).push(s[n - 1]) =~= s);
}

/// Every colour of the charts takes no column.
pub proof fn lemma_colors_show_nothing()
    ensures
        shows(COLOR_GREEN@, 0),
        shows(COLOR_YELLOW@, 0),
        shows(COLOR_ORANGE@, 0),
        shows(COLOR_RED@, 0),
        shows(COLOR_DIM_GRAY@, 0),
        shows(COLOR_DIM_CHART@, 0),
        shows(COLOR_BOLD_CYAN@, 0),
        shows(COLOR_WHITE@, 0),
        shows(COLOR_RESET@, 0),
{
    reveal_strlit("\x1b[32m");
    reveal_strlit("\x1b[33m");
    reveal_strlit("\x1b[38;5;208m");
    reveal_strlit("\x1b[31m");
    reveal_strlit("\x1b[90m");
    reveal_strlit("\x1b[38;5;240m");
    reveal_strlit("\x1b[1;36m");
    reveal_strlit("\x1b[37m");
    reveal_strlit("\x1b[0m");
    lemma_escape_shows(COLOR_GREEN@);
    lemma_escape_shows(COLOR_YELLOW@);
    lemma_escape_shows(COLOR_ORANGE@);
    lemma_escape_shows(COLOR_RED@);
    lemma_escape_shows(COLOR_DIM_GRAY@);
    lemma_escape_shows(COLOR_DIM_CHART@);
    lemma_escape_shows(COLOR_BOLD_CYAN@);
    lemma_escape_shows(COLOR_WHITE@);
    lemma_escape_shows(COLOR_RESET@);
}

pub proof fn lemma_spaces_show(n: nat)
    ensures
        shows(spaces(n), n),
{
    lemma_plain_shows(spaces(n));
}

pub proof fn lemma_bar_shows()
    ensures
        shows(bar(), 1),
        shows(empty_cell(), 1),
{
    lemma_colors_show_nothing();
    reveal_strlit("│");
    reveal_strlit("▁");
    lemma_plain_shows("│"@);
    lemma_plain_shows("▁"@);
    lemma_shows_add(COLOR_DIM_GRAY@, 0, "│"@, 1);
    lemma_shows_add(COLOR_DIM_GRAY@ + "│"@, 1, COLOR_RESET@, 0);
    lemma_shows_add(COLOR_DIM_CHART@, 0, "▁"@, 1);
    lemma_shows_add(COLOR_DIM_CHART@ + "▁"@, 1, COLOR_RESET@, 0);
}

/// Chart cells whose colours take no column and whose glyphs print.
pub open spec fn cells_print(cs: Seq<Cell>) -> bool {
    forall|i: int| 0 <= i < cs.len() ==> shows(#[trigger] cs[i].color@, 0) && cs[i].glyph != '\x1b'
}

pub proof fn lemma_cells_show(cs: Seq<Cell>)
    requires
        cells_print(cs),
    ensures
        shows(cells_text(cs), cs.len()),
    decreases cs.len(),
{
    lemma_colors_show_nothing();
    if cs.len() > 0 {
        assert(cells_print(cs.drop_last())) by {
            assert forall|i: int| 0 <= i < cs.drop_last().len() implies shows(
                #[trigger] cs.drop_last()[i].color@,
                0,
            ) && cs.drop_last()[i].glyph != '\x1b' by {
                assert(cs.drop_last()[i] == cs[i]);
                assert(shows(cs[i].color@, 0));
            }
        }
        lemma_cells_show(cs.drop_last());
        let c = cs.last();
        assert(shows(c.color@, 0));
        lemma_plain_shows(seq![c.glyph]);
        lemma_shows_add(c.color@, 0, seq![c.glyph], 1);
        lemma_shows_add(c.color@ + seq![c.glyph], 1, COLOR_RESET@, 0);
        lemma_shows_add(cells_text(cs.drop_last()), (cs.len() - 1) as nat, cell_text(c), 1);
    }
}

pub proof fn lemma_repeat_shows(s: Seq<char>, k: nat, n: nat)
    requires
        shows(s, k),
    ensures
        shows(repeat(s, n), k * n),
    decreases n,
{
    if n == 0 {
        assert(repeat(s, n) =~= Seq::<char>::empty());
    } else {
        let m = (n - 1) as nat;
        lemma_repeat_shows(s, k, m);
        lemma_shows_add(repeat(s, m), k * m, s, k);
        assert(k * m + k == k * n) by (nonlinear_arith)
            requires
                n == m + 1,
        ;
    }
}

/// A chart takes exactly its width.
pub proof fn lemma_chart_shows(cs: Seq<Cell>, cw: nat)
    requires
        cells_print(cs),
    ensures
        shows(chart(cs, cw), cw),
{
    lemma_bar_shows();
    let k = sat_sub(cw as int, cs.len() as int);
    lemma_repeat_shows(empty_cell(), 1, k);
    let start = sat_sub(cs.len() as int, cw as int) as int;
    assert(cells_print(cs.skip(start))) by {
        assert forall|i: int| 0 <= i < cs.skip(start).len() implies shows(
            #[trigger] cs.skip(start)[i].color@,
            0,
        ) && cs.skip(start)[i].glyph != '\x1b' by {
            assert(cs.skip(start)[i] == cs[start + i]);
            assert(shows(cs[start + i].color@, 0));
        }
    }
    lemma_cells_show(cs.skip(start));
    lemma_shows_add(repeat(empty_cell(), k), k, cells_text(cs.skip(start)), cs.skip(start).len());
}

/// Plain text padded to `w` columns takes `w` columns, or its length when
/// longer.
pub proof fn lemma_pad_shows(s: Seq<char>, w: nat)
    requires
        plain(s),
    ensures
        shows(pad_left(s, w), if w > s.len() { w } else { s.len() }),
        shows(pad_right(s, w), if w > s.len() { w } else { s.len() }),
{
    lemma_plain_shows(pad_left(s, w));
    lemma_plain_shows(pad_right(s, w));
}

/// `s` is one line: text `n` columns wide and `\r\n`.
pub open spec fn line_shows(s: Seq<char>, n: nat) -> bool {
    &&& s.len() >= 2
    &&& s.subrange(s.len() - 2, s.len() as int) == "\r\n"@
    &&& shows(s.subrange(0, s.len() - 2), n)
}

pub proof fn lemma_line_shows(x: Seq<char>, n: nat)
    requires
        shows(x, n),
    ensures
        line_shows(x + "\r\n"@, n),
{
    reveal_strlit("\r\n");
    let s = x + "\r\n"@;
    assert(s.subrange(0, s.len() - 2) =~= x);
    assert(s.subrange(s.len() - 2, s.len() as int) =~= "\r\n"@);
}

/// Single-column literals of the rows.
pub proof fn lemma_literals_show()
    ensures
        shows(" "@, 1),
        shows("%"@, 1),
        shows("  "@, 2),
        shows("─"@, 1),
        shows("#"@, 1),
        plain("N/A"@),
        "N/A"@.len() == 3,
        shows("N/A°C (N/A°F)"@, 13),
{
    reveal_strlit(" ");
    reveal_strlit("%");
    reveal_strlit("  ");
    reveal_strlit("─");
    reveal_strlit("#");
    reveal_strlit("N/A");
    reveal_strlit("N/A°C (N/A°F)");
    lemma_plain_shows(" "@);
    lemma_plain_shows("%"@);
    lemma_plain_shows("  "@);
    lemma_plain_shows("─"@);
    lemma_plain_shows("#"@);
    lemma_plain_shows("N/A°C (N/A°F)"@);
}

pub open spec fn max_nat(a: nat, b: nat) -> nat {
    if a > b {
        a
    } else {
        b
    }
}

/// A utilization row of a first column takes its section width, or more
/// when its fixed parts do not fit.
pub proof fn lemma_util_row_shows(
    label: Seq<char>,
    lw: nat,
    cells: Seq<Cell>,
    current: Seq<char>,
    color: Seq<char>,
    cw: nat,
    half_width: nat,
)
    requires
        plain(label),
        label.len() <= lw,
        cells_print(cells),
        plain(current),
        current.len() == 3,
        shows(color, 0),
    ensures
        shows(
            crate::ui::cpu::util_row(label, lw, cells, current, color, cw, half_width),
            max_nat(half_width, lw + cw + 8),
        ),
{
    lemma_colors_show_nothing();
    lemma_literals_show();
    lemma_bar_shows();
    lemma_pad_shows(label, lw);
    lemma_chart_shows(cells, cw);
    lemma_plain_shows(current);
    let pad = sat_sub(half_width as int, (2 + lw + 1 + cw + 1 + 4) as int);
    lemma_spaces_show(pad);
    let a1 = bar() + " "@;
    lemma_shows_add(bar(), 1, " "@, 1);
    lemma_shows_add(a1, 2, COLOR_WHITE@, 0);
    let a2 = a1 + COLOR_WHITE@ + pad_right(label, lw);
    lemma_shows_add(a1 + COLOR_WHITE@, 2, pad_right(label, lw), lw);
    lemma_shows_add(a2, 2 + lw, COLOR_RESET@, 0);
    lemma_shows_add(a2 + COLOR_RESET@, 2 + lw, " "@, 1);
    let a3 = a2 + COLOR_RESET@ + " "@ + chart(cells, cw);
    lemma_shows_add(a2 + COLOR_RESET@ + " "@, 3 + lw, chart(cells, cw), cw);
    lemma_shows_add(a3, 3 + lw + cw, " "@, 1);
    lemma_shows_add(a3 + " "@, 4 + lw + cw, color, 0);
    lemma_shows_add(a3 + " "@ + color, 4 + lw + cw, current, 3);
    lemma_shows_add(a3 + " "@ + color + current, 7 + lw + cw, "%"@, 1);
    lemma_shows_add(a3 + " "@ + color + current + "%"@, 8 + lw + cw, COLOR_RESET@, 0);
    lemma_shows_add(a3 + " "@ + color + current + "%"@ + COLOR_RESET@, 8 + lw + cw, spaces(pad), pad);
}

/// The current-value text of a percentage row takes five columns.
pub proof fn lemma_pct_shows(current: Seq<char>, color: Seq<char>)
    requires
        plain(current),
        current.len() == 3,
        shows(color, 0),
    ensures
        shows(crate::ui::sparkline::pct_text(current, color), 5),
{
    lemma_colors_show_nothing();
    lemma_literals_show();
    lemma_plain_shows(current);
    lemma_shows_add(" "@, 1, color, 0);
    lemma_shows_add(" "@ + color, 1, current, 3);
    lemma_shows_add(" "@ + color + current, 4, "%"@, 1);
    lemma_shows_add(" "@ + color + current + "%"@, 5, COLOR_RESET@, 0);
}

/// A utilization row of a later column takes its column width, or more
/// when its fixed parts do not fit.
pub proof fn lemma_util_row_inner_shows(
    label: Seq<char>,
    lw: nat,
    cells: Seq<Cell>,
    current: Seq<char>,
    color: Seq<char>,
    cw: nat,
    col_width: nat,
)
    requires
        plain(label),
        label.len() <= lw,
        cells_print(cells),
        plain(current),
        current.len() == 3,
        shows(color, 0),
    ensures
        shows(
            crate::ui::cpu::util_row_inner(label, lw, cells, current, color, cw, col_width),
            max_nat(col_width, lw + cw + 7),
        ),
{
    lemma_colors_show_nothing();
    lemma_literals_show();
    lemma_pad_shows(label, lw);
    lemma_chart_shows(cells, cw);
    lemma_pct_shows(current, color);
    let pad = sat_sub(col_width as int, (1 + lw + 1 + cw + 1 + 4) as int);
    lemma_spaces_show(pad);
    lemma_shows_add(" "@, 1, COLOR_WHITE@, 0);
    let a1 = " "@ + COLOR_WHITE@ + pad_right(label, lw);
    lemma_shows_add(" "@ + COLOR_WHITE@, 1, pad_right(label, lw), lw);
    lemma_shows_add(a1, 1 + lw, COLOR_RESET@, 0);
    lemma_shows_add(a1 + COLOR_RESET@, 1 + lw, " "@, 1);
    let a2 = a1 + COLOR_RESET@ + " "@ + chart(cells, cw);
    lemma_shows_add(a1 + COLOR_RESET@ + " "@, 2 + lw, chart(cells, cw), cw);
    let pct = crate::ui::sparkline::pct_text(current, color);
    lemma_shows_add(a2, 2 + lw + cw, pct, 5);
    lemma_shows_add(a2 + pct, 7 + lw + cw, spaces(pad), pad);
}

/// The reading of a temperature row takes fourteen columns.
pub proof fn lemma_reading_shows(current: Option<Seq<char>>, color: Seq<char>)
    requires
        current matches Some(t) ==> plain(t) && t.len() == 13,
        shows(color, 0),
    ensures
        shows(crate::ui::sparkline::reading_text(current, color), 14),
{
    lemma_colors_show_nothing();
    lemma_literals_show();
    match current {
        Some(t) => {
            lemma_plain_shows(t);
            lemma_shows_add(" "@, 1, color, 0);
            lemma_shows_add(" "@ + color, 1, t, 13);
            lemma_shows_add(" "@ + color + t, 14, COLOR_RESET@, 0);
        },
        None => {
            lemma_shows_add(" "@, 1, COLOR_DIM_GRAY@, 0);
            lemma_shows_add(" "@ + COLOR_DIM_GRAY@, 1, "N/A°C (N/A°F)"@, 13);
            lemma_shows_add(" "@ + COLOR_DIM_GRAY@ + "N/A°C (N/A°F)"@, 14, COLOR_RESET@, 0);
        },
    }
}

/// A temperature row takes its section width, or more when its fixed
/// parts do not fit.
pub proof fn lemma_temp_row_shows(
    label: Seq<char>,
    tlw: nat,
    cells: Seq<Cell>,
    current: Option<Seq<char>>,
    color: Seq<char>,
    cw: nat,
    half_width: nat,
)
    requires
        plain(label),
        label.len() <= tlw,
        cells_print(cells),
        current matches Some(t) ==> plain(t) && t.len() == 13,
        shows(color, 0),
    ensures
        shows(
            crate::ui::cpu::temp_row(label, tlw, cells, current, color, cw, half_width),
            max_nat(half_width, tlw + cw + 18),
        ),
{
    lemma_colors_show_nothing();
    lemma_literals_show();
    lemma_bar_shows();
    lemma_pad_shows(label, tlw);
    lemma_chart_shows(cells, cw);
    lemma_reading_shows(current, color);
    let pad = sat_sub(half_width as int, (1 + tlw + 1 + cw + 14 + 2) as int);
    lemma_spaces_show(pad);
    lemma_shows_add(" "@, 1, COLOR_WHITE@, 0);
    let a1 = " "@ + COLOR_WHITE@ + pad_left(label, tlw);
    lemma_shows_add(" "@ + COLOR_WHITE@, 1, pad_left(label, tlw), tlw);
    lemma_shows_add(a1, 1 + tlw, COLOR_RESET@, 0);
    lemma_shows_add(a1 + COLOR_RESET@, 1 + tlw, " "@, 1);
    let a2 = a1 + COLOR_RESET@ + " "@ + chart(cells, cw);
    lemma_shows_add(a1 + COLOR_RESET@ + " "@, 2 + tlw, chart(cells, cw), cw);
    let rd = crate::ui::sparkline::reading_text(current, color);
    lemma_shows_add(a2, 2 + tlw + cw, rd, 14);
    lemma_shows_add(a2 + rd, 16 + tlw + cw, spaces(pad), pad);
    lemma_shows_add(a2 + rd + spaces(pad), 16 + tlw + cw + pad, " "@, 1);
    lemma_shows_add(a2 + rd + spaces(pad) + " "@, 17 + tlw + cw + pad, bar(), 1);
}

/// The `N/A` temperature row takes its section width, or more when its
/// fixed parts do not fit.
pub proof fn lemma_na_temp_row_shows(tlw: nat, cw: nat, half_width: nat)
    requires
        tlw >= 3,
    ensures
        shows(crate::ui::cpu::na_temp_row(tlw, cw, half_width), max_nat(half_width, tlw + cw + 18)),
{
    lemma_colors_show_nothing();
    lemma_literals_show();
    lemma_bar_shows();
    lemma_pad_shows("N/A"@, tlw);
    lemma_repeat_shows(empty_cell(), 1, cw);
    lemma_reading_shows(None, seq![]);
    let pad = sat_sub(half_width as int, (1 + tlw + 1 + cw + 14 + 2) as int);
    lemma_spaces_show(pad);
    lemma_shows_add(" "@, 1, COLOR_WHITE@, 0);
    let a1 = " "@ + COLOR_WHITE@ + pad_left("N/A"@, tlw);
    lemma_shows_add(" "@ + COLOR_WHITE@, 1, pad_left("N/A"@, tlw), tlw);
    lemma_shows_add(a1, 1 + tlw, COLOR_RESET@, 0);
    lemma_shows_add(a1 + COLOR_RESET@, 1 + tlw, " "@, 1);
    let a2 = a1 + COLOR_RESET@ + " "@ + repeat(empty_cell(), cw);
    lemma_shows_add(a1 + COLOR_RESET@ + " "@, 2 + tlw, repeat(empty_cell(), cw), cw);
    let rd = crate::ui::sparkline::reading_text(None, seq![]);
    lemma_shows_add(a2, 2 + tlw + cw, rd, 14);
    lemma_shows_add(a2 + rd, 16 + tlw + cw, spaces(pad), pad);
    lemma_shows_add(a2 + rd + spaces(pad), 16 + tlw + cw + pad, " "@, 1);
    lemma_shows_add(a2 + rd + spaces(pad) + " "@, 17 + tlw + cw + pad, bar(), 1);
}

/// A box edge takes its width, once that leaves room for the title.
pub proof fn lemma_border_shows(left: char, right: char, width: nat, title: Option<(Seq<char>, nat)>)
    requires
        left != '\x1b',
        right != '\x1b',
        title matches Some((t, tl)) ==> plain(t) && t.len() == tl && width >= tl + 5,
        title is None ==> width >= 3,
    ensures
        line_shows(crate::ui::horizontal_border(left, right, width, title), width),
{
    lemma_colors_show_nothing();
    lemma_literals_show();
    lemma_plain_shows(seq![left]);
    lemma_plain_shows(seq![right]);
    let head = COLOR_DIM_GRAY@ + seq![left] + "─"@;
    lemma_shows_add(COLOR_DIM_GRAY@, 0, seq![left], 1);
    lemma_shows_add(COLOR_DIM_GRAY@ + seq![left], 1, "─"@, 1);
    let mid = match title {
        Some((t, tl)) => " "@ + COLOR_BOLD_CYAN@ + t + COLOR_RESET@ + COLOR_DIM_GRAY@ + " "@
            + crate::ui::dashes(sat_sub(width as int, (3 + tl + 2) as int)),
        None => crate::ui::dashes(sat_sub(width as int, 3)),
    };
    let mid_w: nat = (width - 3) as nat;
    assert(shows(mid, mid_w)) by {
        match title {
            Some((t, tl)) => {
                let d = crate::ui::dashes(sat_sub(width as int, (3 + tl + 2) as int));
                lemma_plain_shows(d);
                lemma_plain_shows(t);
                lemma_shows_add(" "@, 1, COLOR_BOLD_CYAN@, 0);
                lemma_shows_add(" "@ + COLOR_BOLD_CYAN@, 1, t, tl);
                lemma_shows_add(" "@ + COLOR_BOLD_CYAN@ + t, 1 + tl, COLOR_RESET@, 0);
                lemma_shows_add(" "@ + COLOR_BOLD_CYAN@ + t + COLOR_RESET@, 1 + tl, COLOR_DIM_GRAY@, 0);
                lemma_shows_add(
                    " "@ + COLOR_BOLD_CYAN@ + t + COLOR_RESET@ + COLOR_DIM_GRAY@,
                    1 + tl,
                    " "@,
                    1,
                );
                lemma_shows_add(
                    " "@ + COLOR_BOLD_CYAN@ + t + COLOR_RESET@ + COLOR_DIM_GRAY@ + " "@,
                    2 + tl,
                    d,
                    d.len(),
                );
            },
            None => {
                lemma_plain_shows(crate::ui::dashes(sat_sub(width as int, 3)));
            },
        }
    }
    lemma_shows_add(head, 2, mid, mid_w);
    lemma_shows_add(head + mid, 2 + mid_w, seq![right], 1);
    lemma_shows_add(head + mid + seq![right], 3 + mid_w, COLOR_RESET@, 0);
    lemma_line_shows(head + mid + seq![right] + COLOR_RESET@, width);
}

/// A centred title takes its width, once that leaves room for the title.
pub proof fn lemma_centered_shows(title: Seq<char>, tl: nat, w: nat)
    requires
        plain(title),
        title.len() == tl,
        w >= tl,
    ensures
        shows(crate::ui::sparkline::centered(title, tl, w), w),
{
    lemma_colors_show_nothing();
    let pl = sat_sub(w as int, tl as int) / 2;
    let pr = sat_sub(w as int, (pl + tl) as int);
    lemma_spaces_show(pl);
    lemma_spaces_show(pr);
    lemma_plain_shows(title);
    lemma_shows_add(spaces(pl), pl, COLOR_BOLD_CYAN@, 0);
    lemma_shows_add(spaces(pl) + COLOR_BOLD_CYAN@, pl, title, tl);
    lemma_shows_add(spaces(pl) + COLOR_BOLD_CYAN@ + title, pl + tl, COLOR_RESET@, 0);
    lemma_shows_add(spaces(pl) + COLOR_BOLD_CYAN@ + title + COLOR_RESET@, pl + tl, spaces(pr), pr);
}

/// The columns of blank cells and their left borders.
pub open spec fn blank_width(widths: Seq<usize>) -> nat
    decreases widths.len(),
{
    if widths.len() == 0 {
        0
    } else {
        blank_width(widths.drop_last()) + 1 + widths.last() as nat
    }
}

pub proof fn lemma_separator_shows(widths: Seq<usize>)
    ensures
        line_shows(crate::ui::separator_line(widths), blank_width(widths) + 1),
{
    lemma_blank_shows(widths);
    lemma_bar_shows();
    lemma_shows_add(crate::ui::blank_columns(widths), blank_width(widths), bar(), 1);
    lemma_line_shows(crate::ui::blank_columns(widths) + bar(), blank_width(widths) + 1);
}

proof fn lemma_blank_shows(widths: Seq<usize>)
    ensures
        shows(crate::ui::blank_columns(widths), blank_width(widths)),
    decreases widths.len(),
{
    if widths.len() > 0 {
        lemma_blank_shows(widths.drop_last());
        lemma_bar_shows();
        lemma_spaces_show(widths.last() as nat);
        lemma_shows_add(
            crate::ui::blank_columns(widths.drop_last()),
            blank_width(widths.drop_last()),
            bar(),
            1,
        );
        lemma_shows_add(
            crate::ui::blank_columns(widths.drop_last()) + bar(),
            blank_width(widths.drop_last()) + 1,
            spaces(widths.last() as nat),
            widths.last() as nat,
        );
    }
}

/// A string has at least as many bytes as characters.
pub proof fn lemma_chars_le_bytes(s: Seq<char>)
    ensures
        s.len() <= crate::disk::io::byte_len(s),
    decreases s.len(),
{
    if s.len() > 0 {
        lemma_chars_le_bytes(s.drop_first());
        assert(vstd::utf8::encode_utf8(s) == vstd::utf8::encode_scalar(s[0] as u32) + vstd::utf8::encode_utf8(
            s.drop_first(),
        ));
        assert(vstd::utf8::encode_scalar(s[0] as u32).len() >= 1);
    }
}

/// Decimal digits hold no escape.
pub proof fn lemma_dec_plain(n: nat)
    ensures
        plain(dec(n)),
{
    lemma_dec_digits(n);
    assert forall|i: int| 0 <= i < dec(n).len() implies #[trigger] dec(n)[i] != '\x1b' by {
        assert(is_digit(dec(n)[i]));
    }
}

/// An amount of memory holds no escape.
pub proof fn lemma_human_plain(kb: nat)
    ensures
        plain(human_bytes(kb)),
{
    reveal_strlit("TB");
    reveal_strlit("GB");
    reveal_strlit("MB");
    reveal_strlit("KB");
    let f = crate::memory::usage::f64_of(kb);
    lemma_dec_plain(f);
    let d = if f >= crate::memory::usage::gib() {
        crate::memory::usage::gib()
    } else if f >= crate::memory::usage::mib() {
        crate::memory::usage::mib()
    } else {
        crate::memory::usage::kib()
    };
    let t = crate::memory::usage::round_even(f * 10, d);
    lemma_dec_plain(t / 10);
    lemma_dec_digits(t % 10);
    assert(dec(t % 10) == seq![digit_char(t % 10)]);
    assert(is_digit(dec(t % 10)[0]));
}

/// A used/total text holds no escape.
pub proof fn lemma_mem_pair_plain(used_kb: nat, total_kb: nat)
    ensures
        plain(mem_pair(used_kb, total_kb)),
{
    reveal_strlit("0.0GB/0.0GB");
    reveal_strlit("/");
    lemma_human_plain(used_kb);
    lemma_human_plain(total_kb);
}

/// ` used/total  NNN%` takes seven columns more than the amounts.
pub proof fn lemma_amount_pct_shows(abs: Seq<char>, current: Seq<char>, color: Seq<char>)
    requires
        plain(abs),
        plain(current),
        current.len() == 3,
        shows(color, 0),
    ensures
        shows(crate::ui::sparkline::amount_pct_text(abs, current, color), abs.len() + 7),
{
    lemma_colors_show_nothing();
    lemma_literals_show();
    lemma_plain_shows(abs);
    lemma_plain_shows(current);
    let n = abs.len();
    lemma_shows_add(" "@, 1, color, 0);
    lemma_shows_add(" "@ + color, 1, abs, n);
    lemma_shows_add(" "@ + color + abs, 1 + n, COLOR_RESET@, 0);
    lemma_shows_add(" "@ + color + abs + COLOR_RESET@, 1 + n, "  "@, 2);
    let a = " "@ + color + abs + COLOR_RESET@ + "  "@;
    lemma_shows_add(a, 3 + n, color, 0);
    lemma_shows_add(a + color, 3 + n, current, 3);
    lemma_shows_add(a + color + current, 6 + n, "%"@, 1);
    lemma_shows_add(a + color + current + "%"@, 7 + n, COLOR_RESET@, 0);
}

/// `LBL chart used/total  NNN%` of a memory column: eleven columns more
/// than its chart and amounts.
pub proof fn lemma_mem_body_shows(
    label: Seq<char>,
    cells: Seq<Cell>,
    cw: nat,
    abs: Seq<char>,
    current: Seq<char>,
    color: Seq<char>,
    dim: bool,
)
    requires
        plain(label),
        label.len() == 3,
        cells_print(cells),
        plain(abs),
        plain(current),
        current.len() == 3,
        shows(color, 0),
    ensures
        shows(crate::ui::memory::mem_body(label, cells, cw, abs, current, color, dim), cw + abs.len() + 11),
{
    lemma_colors_show_nothing();
    lemma_literals_show();
    lemma_bar_shows();
    lemma_pad_shows(label, 3);
    let c = if dim {
        COLOR_DIM_GRAY@
    } else {
        color
    };
    let ch = if dim {
        repeat(empty_cell(), cw)
    } else {
        chart(cells, cw)
    };
    assert(shows(ch, cw)) by {
        if dim {
            lemma_repeat_shows(empty_cell(), 1, cw);
        } else {
            lemma_chart_shows(cells, cw);
        }
    }
    lemma_amount_pct_shows(abs, current, c);
    let a = COLOR_WHITE@ + pad_right(label, 3);
    lemma_shows_add(COLOR_WHITE@, 0, pad_right(label, 3), 3);
    lemma_shows_add(a, 3, COLOR_RESET@, 0);
    lemma_shows_add(a + COLOR_RESET@, 3, " "@, 1);
    lemma_shows_add(a + COLOR_RESET@ + " "@, 4, ch, cw);
    lemma_shows_add(
        a + COLOR_RESET@ + " "@ + ch,
        4 + cw,
        crate::ui::sparkline::amount_pct_text(abs, current, c),
        abs.len() + 7,
    );
}

/// `│ USE chart NNN%` of the GPU section: its section width, or more when
/// its fixed parts do not fit.
pub proof fn lemma_gpu_util_first_shows(
    cells: Seq<Cell>,
    current: Seq<char>,
    color: Seq<char>,
    cw: nat,
    section_width: nat,
)
    requires
        cells_print(cells),
        plain(current),
        current.len() == 3,
        shows(color, 0),
    ensures
        shows(
            crate::ui::gpu::gpu_util_col_first(cells, current, color, cw, section_width),
            max_nat(section_width, cw + 11),
        ),
{
    lemma_colors_show_nothing();
    lemma_literals_show();
    lemma_bar_shows();
    reveal_strlit("USE");
    lemma_plain_shows("USE"@);
    lemma_chart_shows(cells, cw);
    lemma_pct_shows(current, color);
    let pad = sat_sub(section_width as int, (2 + 3 + 1 + cw + 1 + 4) as int);
    lemma_spaces_show(pad);
    lemma_shows_add(bar(), 1, " "@, 1);
    lemma_shows_add(bar() + " "@, 2, COLOR_WHITE@, 0);
    let a = bar() + " "@ + COLOR_WHITE@ + "USE"@;
    lemma_shows_add(bar() + " "@ + COLOR_WHITE@, 2, "USE"@, 3);
    lemma_shows_add(a, 5, COLOR_RESET@, 0);
    lemma_shows_add(a + COLOR_RESET@, 5, " "@, 1);
    let b = a + COLOR_RESET@ + " "@ + chart(cells, cw);
    lemma_shows_add(a + COLOR_RESET@ + " "@, 6, chart(cells, cw), cw);
    let pct = crate::ui::sparkline::pct_text(current, color);
    lemma_shows_add(b, 6 + cw, pct, 5);
    lemma_shows_add(b + pct, 11 + cw, spaces(pad), pad);
}

/// ` MEM chart used/total  NNN%` of the GPU section: its column width, or
/// more when its fixed parts do not fit.
pub proof fn lemma_gpu_mem_inner_shows(
    cells: Seq<Cell>,
    cw: nat,
    abs: Seq<char>,
    current: Seq<char>,
    color: Seq<char>,
    col_width: nat,
)
    requires
        cells_print(cells),
        plain(abs),
        plain(current),
        current.len() == 3,
        shows(color, 0),
    ensures
        shows(
            crate::ui::gpu::gpu_mem_col_inner(cells, cw, abs, abs.len(), current, color, col_width),
            max_nat(col_width, cw + abs.len() + 12),
        ),
{
    lemma_colors_show_nothing();
    lemma_literals_show();
    reveal_strlit("MEM");
    lemma_plain_shows("MEM"@);
    lemma_chart_shows(cells, cw);
    lemma_amount_pct_shows(abs, current, color);
    let n = abs.len();
    let pad = sat_sub(col_width as int, (1 + 3 + 1 + cw + 1 + n + 2 + 4) as int);
    lemma_spaces_show(pad);
    lemma_shows_add(" "@, 1, COLOR_WHITE@, 0);
    let a = " "@ + COLOR_WHITE@ + "MEM"@;
    lemma_shows_add(" "@ + COLOR_WHITE@, 1, "MEM"@, 3);
    lemma_shows_add(a, 4, COLOR_RESET@, 0);
    lemma_shows_add(a + COLOR_RESET@, 4, " "@, 1);
    let b = a + COLOR_RESET@ + " "@ + chart(cells, cw);
    lemma_shows_add(a + COLOR_RESET@ + " "@, 5, chart(cells, cw), cw);
    let am = crate::ui::sparkline::amount_pct_text(abs, current, color);
    lemma_shows_add(b, 5 + cw, am, n + 7);
    lemma_shows_add(b + am, 12 + cw + n, spaces(pad), pad);
}

/// ` TMP chart NNN°C (NNN°F)  │` of the GPU section: its section width, or
/// more when its fixed parts do not fit.
pub proof fn lemma_gpu_temp_right_shows(
    cells: Seq<Cell>,
    current: Option<Seq<char>>,
    color: Seq<char>,
    cw: nat,
    half_width: nat,
)
    requires
        cells_print(cells),
        current matches Some(t) ==> plain(t) && t.len() == 13,
        shows(color, 0),
    ensures
        shows(
            crate::ui::gpu::gpu_temp_col_right(cells, current, color, cw, half_width),
            max_nat(half_width, cw + 21),
        ),
{
    lemma_colors_show_nothing();
    lemma_literals_show();
    lemma_bar_shows();
    reveal_strlit("TMP");
    lemma_plain_shows("TMP"@);
    lemma_chart_shows(cells, cw);
    lemma_reading_shows(current, color);
    let pad = sat_sub(half_width as int, (1 + 3 + 1 + cw + 14 + 2) as int);
    lemma_spaces_show(pad);
    lemma_shows_add(" "@, 1, COLOR_WHITE@, 0);
    let a = " "@ + COLOR_WHITE@ + "TMP"@;
    lemma_shows_add(" "@ + COLOR_WHITE@, 1, "TMP"@, 3);
    lemma_shows_add(a, 4, COLOR_RESET@, 0);
    lemma_shows_add(a + COLOR_RESET@, 4, " "@, 1);
    let b = a + COLOR_RESET@ + " "@ + chart(cells, cw);
    lemma_shows_add(a + COLOR_RESET@ + " "@, 5, chart(cells, cw), cw);
    let rd = crate::ui::sparkline::reading_text(current, color);
    lemma_shows_add(b, 5 + cw, rd, 14);
    lemma_shows_add(b + rd, 19 + cw, spaces(pad), pad);
    lemma_shows_add(b + rd + spaces(pad), 19 + cw + pad, " "@, 1);
    lemma_shows_add(b + rd + spaces(pad) + " "@, 20 + cw + pad, bar(), 1);
}

/// Plain text padded on the left stays plain.
pub proof fn lemma_pad_left_plain(s: Seq<char>, w: nat)
    requires
        plain(s),
    ensures
        plain(pad_left(s, w)),
        pad_left(s, w).len() == if w > s.len() { w } else { s.len() },
{
    let k: nat = if w > s.len() { (w - s.len()) as nat } else { 0 };
    let r = pad_left(s, w);
    assert forall|i: int| 0 <= i < r.len() implies #[trigger] r[i] != '\x1b' by {
        if i < k {
            assert(r[i] == spaces(k)[i]);
        } else {
            assert(r[i] == s[i - k]);
        }
    }
}

} // verus!
