//! The usage report: one row of figures per spool, in ascending name order,
//! under a header, rendered as a text table.
use crate::ledger::{lemma_ledger_listing, sorted_names, Ledger};
use crate::mass::{round_div, round_div_u128, UNITS_PER_GRAM};
use crate::names::ascending;
use vstd::prelude::*;
use vstd::string::StrSliceExecFns;

verus! {

/// The reference capacity of every spool, 1000 g, in mass units.
pub const CAPACITY_UNITS: u128 = UNITS_PER_GRAM * 1000;

/// Mass units in one percent of the reference capacity.
pub const UNITS_PER_PERCENT: u128 = UNITS_PER_GRAM * 10;

/// Cells between the brackets of the usage bar, which is this plus two wide.
pub const BAR_INNER: u128 = 18;

/// Whole grams consumed, rounded: `round(amount / UNITS_PER_GRAM)`.
pub open spec fn used_grams_of(amount: int) -> int {
    round_div(amount, UNITS_PER_GRAM as int)
}

/// Whole grams left of the reference capacity, rounded: `round(1000 - amount / UNITS_PER_GRAM)`.
pub open spec fn remaining_grams_of(amount: int) -> int {
    round_div(CAPACITY_UNITS - amount, UNITS_PER_GRAM as int)
}

/// Share of the reference capacity consumed, in whole percent, rounded and
/// not capped: `round(amount / UNITS_PER_GRAM / 1000 * 100)`.
pub open spec fn usage_percent_of(amount: int) -> int {
    round_div(amount, UNITS_PER_PERCENT as int)
}

/// Filled cells of the bar for `used` whole grams: the share of 1000 g,
/// clamped to `[0, 1]`, times the inner width, rounded down.
pub open spec fn bar_fill(used: int) -> int {
    if used <= 0 {
        0
    } else if used >= 1000 {
        BAR_INNER as int
    } else {
        used * BAR_INNER / 1000
    }
}

/// `n` copies of `c`.
pub open spec fn repeat(c: char, n: nat) -> Seq<char> {
    Seq::new(n, |i: int| c)
}

/// The bar with `fill` cells filled: `[`, `=` per filled cell, a `>` head
/// unless the bar is full, `.` for the rest, `]`.
pub open spec fn bar_text(fill: nat) -> Seq<char> {
    let head: nat = if fill < BAR_INNER { 1 } else { 0 };
    seq!['['] + repeat('=', fill) + repeat('>', head) + repeat('.', (BAR_INNER - fill - head) as nat)
        + seq![']']
}

pub open spec fn digit(d: int) -> char {
    seq!['0', '1', '2', '3', '4', '5', '6', '7', '8', '9'][d]
}

/// Decimal digits of `n`, without leading zeros.
pub open spec fn decimal(n: nat) -> Seq<char>
    decreases n,
{
    if n < 10 {
        seq![digit(n as int)]
    } else {
        decimal(n / 10).push(digit(n as int % 10))
    }
}

/// Decimal text of `n`, with a leading `-` when it is negative.
pub open spec fn signed_decimal(n: int) -> Seq<char> {
    if n < 0 {
        seq!['-'] + decimal((-n) as nat)
    } else {
        decimal(n as nat)
    }
}

/// A terminal escape character. The table renderer reads text after it as
/// a colour code, so no cell holds one.
pub open spec fn is_escape(c: char) -> bool {
    c == '\u{1b}'
}

/// No character of `s` is an escape.
pub open spec fn escape_free(s: Seq<char>) -> bool {
    forall|i: int| 0 <= i < s.len() ==> !is_escape(#[trigger] s[i])
}

/// How a character of a spool name is shown: an escape becomes U+FFFD.
pub open spec fn shown_char(c: char) -> char {
    if is_escape(c) {
        '\u{fffd}'
    } else {
        c
    }
}

/// How a spool name is shown in the report.
pub open spec fn shown_name(name: Seq<char>) -> Seq<char> {
    Seq::new(name.len(), |i: int| shown_char(name[i]))
}

/// The cells of the row for a spool: name, grams used, grams remaining, and
/// the usage bar followed by the percentage.
pub open spec fn row_cells(name: Seq<char>, amount: int) -> Seq<Seq<char>> {
    let used = used_grams_of(amount);
    seq![
        shown_name(name),
        signed_decimal(used),
        signed_decimal(remaining_grams_of(amount)),
        bar_text(bar_fill(used) as nat) + seq![' '] + signed_decimal(usage_percent_of(amount))
            + seq!['%'],
    ]
}

/// The header row.
pub open spec fn header_cells() -> Seq<Seq<char>> {
    seq!["Spool Name"@, "Usage (g)"@, "Remaining (g)"@, "% Used"@]
}

/// The header followed by one row per spool of `m`, in ascending name order.
pub open spec fn report_cells(m: Map<Seq<char>, int>) -> Seq<Seq<Seq<char>>> {
    let names = sorted_names(m);
    seq![header_cells()] + Seq::new(names.len(), |i: int| row_cells(names[i], m[names[i]]))
}

/// The text that the table renderer gives for these rows of cells.
pub uninterp spec fn table_text(rows: Seq<Seq<Seq<char>>>) -> Seq<char>;

/// Relies on prettytable's `Table::from` over rows of cells, and on the
/// `Display` of its table in the borderless format with line separators:
/// the text depends on the cells alone.
/// Its cells measure their width with a check that an escape followed by
/// `[` can fail, so no cell may hold an escape.
#[verifier::external_body]
fn render_table(rows: Vec<Vec<String>>) -> (r: String)
    requires
        forall|i: int, j: int|
            0 <= i < rows.deep_view().len() && 0 <= j < rows.deep_view()[i].len() ==> escape_free(
                #[trigger] rows.deep_view()[i][j],
            ),
    ensures
        r@ == table_text(rows.deep_view()),
{
    let mut table = prettytable::Table::from(rows);
    table.set_format(*prettytable::format::consts::FORMAT_NO_BORDER_LINE_SEPARATOR);
    table.to_string()
}

/// The one-character text of the digit `d`.
fn digit_text(d: u128) -> (r: &'static str)
    requires
        d < 10,
    ensures
        r@ == seq![digit(d as int)],
{
    proof {
        reveal_strlit("0");
        reveal_strlit("1");
        reveal_strlit("2");
        reveal_strlit("3");
        reveal_strlit("4");
        reveal_strlit("5");
        reveal_strlit("6");
        reveal_strlit("7");
        reveal_strlit("8");
        reveal_strlit("9");
    }
    if d == 0 {
        "0"
    } else if d == 1 {
        "1"
    } else if d == 2 {
        "2"
    } else if d == 3 {
        "3"
    } else if d == 4 {
        "4"
    } else if d == 5 {
        "5"
    } else if d == 6 {
        "6"
    } else if d == 7 {
        "7"
    } else if d == 8 {
        "8"
    } else {
        "9"
    }
}

/// Decimal digits of `n`, without leading zeros.
pub fn decimal_text(n: u128) -> (r: String)
    ensures
        r@ == decimal(n as nat),
    decreases n,
{
    if n < 10 {
        String::from_str(digit_text(n))
    } else {
        let mut s = decimal_text(n / 10);
        s.append(digit_text(n % 10));
        s
    }
}

/// Whole grams consumed for `amount` mass units, rounded.
pub fn used_grams(amount: u128) -> (r: u128)
    ensures
        r == used_grams_of(amount as int),
{
    round_div_u128(amount, UNITS_PER_GRAM)
}

/// Whole grams left of the 1000 g reference capacity, rounded; negative for
/// an over-used spool.
pub fn remaining_grams(amount: u128) -> (r: i128)
    ensures
        r == remaining_grams_of(amount as int),
{
    if amount <= CAPACITY_UNITS {
        let g = round_div_u128(CAPACITY_UNITS - amount, UNITS_PER_GRAM);
        assert(g <= 1000) by (nonlinear_arith)
            requires
                g == (2 * (CAPACITY_UNITS - amount) + UNITS_PER_GRAM) / (2 * UNITS_PER_GRAM),
                amount <= CAPACITY_UNITS,
        ;
        g as i128
    } else {
        let g = round_div_u128(amount - CAPACITY_UNITS, UNITS_PER_GRAM);
        assert(g <= 0x1_0000_0000_0000_0000_0000_0000_0000u128) by (nonlinear_arith)
            requires
                g == (2 * (amount - CAPACITY_UNITS) + UNITS_PER_GRAM) / (2 * UNITS_PER_GRAM),
                amount <= 0xffff_ffff_ffff_ffff_ffff_ffff_ffff_ffffu128,
        ;
        assert(-2 * (CAPACITY_UNITS - amount) == 2 * (amount - CAPACITY_UNITS));
        -(g as i128)
    }
}

/// Share of the reference capacity consumed, in whole percent, rounded.
pub fn usage_percent(amount: u128) -> (r: u128)
    ensures
        r == usage_percent_of(amount as int),
{
    round_div_u128(amount, UNITS_PER_PERCENT)
}

/// Decimal text of `n`.
pub fn signed_text(n: i128) -> (r: String)
    ensures
        r@ == signed_decimal(n as int),
{
    if n < 0 {
        let mut s = String::new();
        proof {
            reveal_strlit("-");
        }
        s.append("-");
        let magnitude: u128 = (-(n + 1)) as u128 + 1;
        let digits = decimal_text(magnitude);
        s.append(digits.as_str());
        assert(s@ =~= seq!['-'] + decimal((-n) as nat));
        s
    } else {
        decimal_text(n as u128)
    }
}

/// `name` as shown in the report: each escape replaced by U+FFFD.
pub fn display_name(name: &str) -> (r: String)
    ensures
        r@ == shown_name(name@),
{
    let n = name.unicode_len();
    let mut r = String::new();
    let mut i: usize = 0;
    while i < n
        invariant
            n == name@.len(),
            i <= n,
            r@ == shown_name(name@.subrange(0, i as int)),
        decreases n - i,
    {
        let c = name.get_char(i);
        proof {
            reveal_strlit("\u{fffd}");
        }
        if c == '\u{1b}' {
            r.append("\u{fffd}");
        } else {
            let one = name.substring_char(i, i + 1);
            assert(one@ =~= seq![c]);
            r.append(one);
        }
        assert(shown_name(name@.subrange(0, i + 1)) =~= shown_name(name@.subrange(0, i as int)).push(
            shown_char(c),
        ));
        i = i + 1;
    }
    assert(name@.subrange(0, n as int) =~= name@);
    r
}

/// Appends `n` copies of the one-character `c` to `s`.
fn append_repeat(s: &mut String, c: &str, n: u128)
    requires
        c@.len() == 1,
    ensures
        final(s)@ == old(s)@ + repeat(c@[0], n as nat),
{
    let mut i: u128 = 0;
    while i < n
        invariant
            i <= n,
            c@.len() == 1,
            s@ == old(s)@ + repeat(c@[0], i as nat),
        decreases n - i,
    {
        s.append(c);
        assert(repeat(c@[0], (i + 1) as nat) =~= repeat(c@[0], i as nat) + c@);
        assert(old(s)@ + repeat(c@[0], i as nat) + c@ =~= old(s)@ + repeat(c@[0], (i + 1) as nat));
        i = i + 1;
    }
}

/// The usage bar for `used` whole grams.
pub fn usage_bar(used: u128) -> (r: String)
    ensures
        r@ == bar_text(bar_fill(used as int) as nat),
{
    let fill: u128 = if used >= 1000 {
        BAR_INNER
    } else {
        assert(used * BAR_INNER / 1000 <= BAR_INNER) by (nonlinear_arith)
            requires
                used < 1000,
        ;
        used * BAR_INNER / 1000
    };
    let head: u128 = if fill < BAR_INNER {
        1
    } else {
        0
    };
    proof {
        reveal_strlit("[");
        reveal_strlit("=");
        reveal_strlit(">");
        reveal_strlit(".");
        reveal_strlit("]");
    }
    let mut s = String::new();
    s.append("[");
    append_repeat(&mut s, "=", fill);
    append_repeat(&mut s, ">", head);
    append_repeat(&mut s, ".", BAR_INNER - fill - head);
    s.append("]");
    assert(s@ =~= bar_text(bar_fill(used as int) as nat));
    s
}

/// The cells of the row for spool `name` with `amount` mass units consumed.
pub fn usage_row(name: &String, amount: u128) -> (r: Vec<String>)
    ensures
        r.deep_view() == row_cells(name@, amount as int),
{
    let used = used_grams(amount);
    let mut last = usage_bar(used);
    proof {
        reveal_strlit(" ");
        reveal_strlit("%");
    }
    last.append(" ");
    let pct = decimal_text(usage_percent(amount));
    last.append(pct.as_str());
    last.append("%");
    let used_text = decimal_text(used);
    let remaining_text = signed_text(remaining_grams(amount));
    let shown = display_name(name.as_str());
    let ghost cells = seq![shown@, used_text@, remaining_text@, last@];
    assert(signed_decimal(used as int) == decimal(used as nat));
    assert(usage_percent_of(amount as int) >= 0);
    assert(last@ =~= bar_text(bar_fill(used as int) as nat) + seq![' '] + signed_decimal(
        usage_percent_of(amount as int),
    ) + seq!['%']);
    assert(cells =~= row_cells(name@, amount as int));
    let mut r: Vec<String> = Vec::new();
    r.push(shown);
    r.push(used_text);
    r.push(remaining_text);
    r.push(last);
    assert(r.deep_view() =~= cells);
    r
}

/// The header row followed by one row per spool, in ascending name order.
pub fn report_rows(l: &Ledger) -> (r: Vec<Vec<String>>)
    requires
        l.wf(),
    ensures
        r.deep_view() == report_cells(l@),
{
    proof {
        lemma_ledger_listing(l);
    }
    let mut rows: Vec<Vec<String>> = Vec::new();
    let mut header: Vec<String> = Vec::new();
    header.push(String::from_str("Spool Name"));
    header.push(String::from_str("Usage (g)"));
    header.push(String::from_str("Remaining (g)"));
    header.push(String::from_str("% Used"));
    assert(header.deep_view() =~= header_cells());
    rows.push(header);
    let mut i: usize = 0;
    while i < l.len()
        invariant
            l.wf(),
            i <= l.names().len(),
            rows@.len() == i + 1,
            rows.deep_view() =~= report_cells(l@).subrange(0, i + 1),
        decreases l.names().len() - i,
    {
        proof {
            lemma_ledger_listing(l);
        }
        let row = usage_row(l.name_at(i), l.amount_at(i));
        let ghost before = rows@;
        let ghost added = row.deep_view();
        assert(added == report_cells(l@)[i + 1]);
        rows.push(row);
        assert(rows@ == before.push(row));
        assert forall|k: int| 0 <= k <= i implies rows.deep_view()[k] == report_cells(l@)[k] by {
            assert(rows@[k] == before[k]);
            assert(report_cells(l@).subrange(0, i + 1)[k] == report_cells(l@)[k]);
        }
        assert(rows.deep_view()[i + 1] == added);
        assert(rows.deep_view() =~= report_cells(l@).subrange(0, i + 2));
        i = i + 1;
    }
    assert(report_cells(l@).subrange(0, i + 1) =~= report_cells(l@));
    rows
}

/// The rendered usage table of `l`.
pub fn render_report(l: &Ledger) -> (r: String)
    requires
        l.wf(),
    ensures
        r@ == table_text(report_cells(l@)),
{
    proof {
        lemma_cells_escape_free(l@);
    }
    render_table(report_rows(l))
}

/// Below the header, the rows of a report show the spool names in strictly
/// ascending order, one row per name, whatever the ledger.
pub proof fn lemma_rows_ascending(l: &Ledger)
    requires
        l.wf(),
    ensures
        ascending(sorted_names(l@)),
        report_cells(l@).len() == sorted_names(l@).len() + 1,
        forall|i: int|
            1 <= i < report_cells(l@).len() ==> #[trigger] report_cells(l@)[i][0] == shown_name(
                sorted_names(l@)[i - 1],
            ),
{
    lemma_ledger_listing(l);
}

proof fn lemma_concat_escape_free(a: Seq<char>, b: Seq<char>)
    requires
        escape_free(a),
        escape_free(b),
    ensures
        escape_free(a + b),
{
    assert forall|i: int| 0 <= i < (a + b).len() implies !is_escape(#[trigger] (a + b)[i]) by {
        if i >= a.len() {
            assert((a + b)[i] == b[i - a.len()]);
        }
    }
}

proof fn lemma_decimal_escape_free(n: nat)
    ensures
        escape_free(decimal(n)),
    decreases n,
{
    let d = n as int % 10;
    assert(0 <= d < 10);
    assert(!is_escape(digit(d))) by {
        assert(d == 0 || d == 1 || d == 2 || d == 3 || d == 4 || d == 5 || d == 6 || d == 7 || d
            == 8 || d == 9);
    }
    if n >= 10 {
        lemma_decimal_escape_free(n / 10);
        lemma_concat_escape_free(decimal(n / 10), seq![digit(d)]);
        assert(decimal(n) =~= decimal(n / 10) + seq![digit(d)]);
    } else {
        assert(n as int == d);
    }
}

proof fn lemma_signed_decimal_escape_free(n: int)
    ensures
        escape_free(signed_decimal(n)),
{
    if n < 0 {
        lemma_decimal_escape_free((-n) as nat);
        lemma_concat_escape_free(seq!['-'], decimal((-n) as nat));
    } else {
        lemma_decimal_escape_free(n as nat);
    }
}

/// No cell of a report holds an escape, so the renderer can take it.
proof fn lemma_cells_escape_free(m: Map<Seq<char>, int>)
    ensures
        forall|i: int, j: int|
            0 <= i < report_cells(m).len() && 0 <= j < report_cells(m)[i].len() ==> escape_free(
                #[trigger] report_cells(m)[i][j],
            ),
{
    reveal_strlit("Spool Name");
    reveal_strlit("Usage (g)");
    reveal_strlit("Remaining (g)");
    reveal_strlit("% Used");
    let cells = report_cells(m);
    assert forall|i: int, j: int|
        0 <= i < cells.len() && 0 <= j < cells[i].len() implies escape_free(
        #[trigger] cells[i][j],
    ) by {
        if i == 0 {
            assert(cells[0] == header_cells());
        } else {
            let name = sorted_names(m)[i - 1];
            let amount = m[name];
            let used = used_grams_of(amount);
            assert(cells[i] == row_cells(name, amount));
            lemma_signed_decimal_escape_free(used);
            lemma_signed_decimal_escape_free(remaining_grams_of(amount));
            lemma_signed_decimal_escape_free(usage_percent_of(amount));
            let bar = bar_text(bar_fill(used) as nat);
            let head: nat = if bar_fill(used) < BAR_INNER { 1 } else { 0 };
            let parts = seq!['['] + repeat('=', bar_fill(used) as nat) + repeat('>', head);
            lemma_concat_escape_free(seq!['['], repeat('=', bar_fill(used) as nat));
            lemma_concat_escape_free(seq!['['] + repeat('=', bar_fill(used) as nat), repeat('>', head));
            let rest = (BAR_INNER - bar_fill(used) - head) as nat;
            lemma_concat_escape_free(parts, repeat('.', rest));
            lemma_concat_escape_free(parts + repeat('.', rest), seq![']']);
            assert(bar == parts + repeat('.', rest) + seq![']']);
            lemma_concat_escape_free(bar, seq![' ']);
            lemma_concat_escape_free(bar + seq![' '], signed_decimal(usage_percent_of(amount)));
            lemma_concat_escape_free(
                bar + seq![' '] + signed_decimal(usage_percent_of(amount)),
                seq!['%'],
            );
        }
    }
}

} // verus!
