//! The report engine: sign-qualified corrections and table rendering.
//!
//! Every quantity of a trajectory sample is carried as a fixed-point integer
//! in its display unit (whole yards; hundredths of an inch, of a minute of
//! angle, of a foot per second, of a foot-pound; thousandths of a second).
//! A row shows magnitudes only; direction is conveyed by a one-character
//! symbol resolved against the caller's tolerance.

use crate::num::{
    fixed2, fixed2_abs, fixed2_str, fixed3, fixed3_str, i64_str, iabs, int_str, pad_left,
    pad_left_str,
};
use vstd::prelude::*;

verus! {

/// The three-way classification of one axis's deviation against a tolerance:
/// the positive symbol above `tol`, the negative symbol below `-tol`, and the
/// neutral `'*'` on the whole closed band in between.
pub open spec fn symbol_spec(n: int, tol: int, positive: char, negative: char) -> char {
    if n > tol {
        positive
    } else if n < -tol {
        negative
    } else {
        '*'
    }
}

/// A deviation to correct, tagged by the axis it lies on, in hundredths of
/// an inch. `Elevation` dials down (`D`) or up (`U`); `Windage` dials left
/// (`L`) or right (`R`).
#[derive(Clone, Copy)]
pub enum Adjustment {
    Elevation(i64),
    Windage(i64),
}

/// The symbol `adjustment` resolves for a tagged deviation.
pub open spec fn adjustment_spec(a: Adjustment, tol: int) -> char {
    match a {
        Adjustment::Elevation(n) => symbol_spec(n as int, tol, 'D', 'U'),
        Adjustment::Windage(n) => symbol_spec(n as int, tol, 'L', 'R'),
    }
}

impl Adjustment {
    /// Resolve the one-character direction symbol for this deviation at the
    /// given non-negative tolerance. Equality with the tolerance on either
    /// side is neutral: a directional symbol needs a strict inequality.
    pub fn adjustment(&self, tolerance: i64) -> (c: char)
        requires
            tolerance >= 0,
        ensures
            c == adjustment_spec(*self, tolerance as int),
    {
        let (n, positive, negative) = match *self {
            Adjustment::Elevation(n) => (n, 'D', 'U'),
            Adjustment::Windage(n) => (n, 'L', 'R'),
        };
        if n > tolerance {
            positive
        } else if n < -tolerance {
            negative
        } else {
            '*'
        }
    }
}

/// The symbol is a pure function of deviation and tolerance, and flipping the
/// deviation's sign swaps the positive and negative symbols while the neutral
/// symbol stays: reflection symmetry, on either axis.
pub proof fn lemma_symbol_reflection(n: int, tol: int)
    requires
        tol >= 0,
    ensures
        symbol_spec(-n, tol, 'D', 'U') == (if symbol_spec(n, tol, 'D', 'U') == 'D' {
            'U'
        } else if symbol_spec(n, tol, 'D', 'U') == 'U' {
            'D'
        } else {
            '*'
        }),
        symbol_spec(-n, tol, 'L', 'R') == (if symbol_spec(n, tol, 'L', 'R') == 'L' {
            'R'
        } else if symbol_spec(n, tol, 'L', 'R') == 'R' {
            'L'
        } else {
            '*'
        }),
{
}

/// A deviation that lands exactly on the tolerance, on either side, resolves
/// to the neutral symbol, never to a directional one.
pub proof fn lemma_boundary_neutral(tol: int)
    requires
        tol >= 0,
    ensures
        symbol_spec(tol, tol, 'D', 'U') == '*',
        symbol_spec(-tol, tol, 'D', 'U') == '*',
        symbol_spec(tol, tol, 'L', 'R') == '*',
        symbol_spec(-tol, tol, 'L', 'R') == '*',
{
}

/// One computed point of the simulated trajectory, in fixed-point display
/// units: `distance` in whole yards; `angle`, `vertical` and `horizontal` in
/// hundredths of a minute of angle; `elevation` and `windage` in hundredths
/// of an inch; `velocity` in hundredths of a foot per second; `energy` in
/// hundredths of a foot-pound; `time` in thousandths of a second.
#[derive(Clone, Copy, PartialEq, Eq, Structural, Debug)]
pub struct Sample {
    pub distance: i64,
    pub angle: i64,
    pub elevation: i64,
    pub windage: i64,
    pub vertical: i64,
    pub horizontal: i64,
    pub velocity: i64,
    pub energy: i64,
    pub time: i64,
}

/// The elevation symbol of a sample at a tolerance.
pub open spec fn sym_elevation(s: Sample, tol: int) -> char {
    symbol_spec(s.elevation as int, tol, 'D', 'U')
}

/// The windage symbol of a sample at a tolerance.
pub open spec fn sym_windage(s: Sample, tol: int) -> char {
    symbol_spec(s.windage as int, tol, 'L', 'R')
}

/// The nine column texts of a data row, in print order. Magnitudes are
/// absolute; the four deviation columns carry their direction symbol after
/// one space.
#[verifier::opaque]
pub open spec fn columns(s: Sample, tol: int) -> Seq<Seq<char>> {
    seq![
        pad_left(int_str(s.distance as int), 12),
        pad_left(fixed2_str(s.angle as int), 8),
        pad_left(fixed2_str(iabs(s.elevation as int)), 11) + seq![' ', sym_elevation(s, tol)],
        pad_left(fixed2_str(iabs(s.windage as int)), 9) + seq![' ', sym_windage(s, tol)],
        pad_left(fixed2_str(iabs(s.vertical as int)), 8) + seq![' ', sym_elevation(s, tol)],
        pad_left(fixed2_str(iabs(s.horizontal as int)), 8) + seq![' ', sym_windage(s, tol)],
        pad_left(fixed2_str(s.velocity as int), 14),
        pad_left(fixed2_str(s.energy as int), 12),
        pad_left(fixed3_str(s.time as int), 8),
    ]
}

/// Column texts joined by a separator.
pub open spec fn join(parts: Seq<Seq<char>>, sep: Seq<char>) -> Seq<char>
    decreases parts.len(),
{
    if parts.len() == 0 {
        Seq::empty()
    } else if parts.len() == 1 {
        parts[0]
    } else {
        join(parts.drop_last(), sep) + sep + parts.last()
    }
}

/// Left border of a row: `"| "` in the bordered layout, nothing in plain.
pub open spec fn lborder(pretty: bool) -> Seq<char> {
    if pretty {
        "| "@
    } else {
        Seq::empty()
    }
}

/// Right border of a row: `" |"` in the bordered layout, nothing in plain.
pub open spec fn rborder(pretty: bool) -> Seq<char> {
    if pretty {
        " |"@
    } else {
        Seq::empty()
    }
}

/// A line of nine column texts: each column preceded by the left border,
/// columns parted by one space, and the right border at the end.
#[verifier::opaque]
pub open spec fn line_of(c: Seq<Seq<char>>, pretty: bool) -> Seq<char> {
    lborder(pretty) + c[0] + seq![' '] + lborder(pretty) + c[1] + seq![' '] + lborder(pretty)
        + c[2] + seq![' '] + lborder(pretty) + c[3] + seq![' '] + lborder(pretty) + c[4]
        + seq![' '] + lborder(pretty) + c[5] + seq![' '] + lborder(pretty) + c[6] + seq![' ']
        + lborder(pretty) + c[7] + seq![' '] + lborder(pretty) + c[8] + rborder(pretty)
}

/// One data row, without its newline.
pub open spec fn row_line(s: Sample, tol: int, pretty: bool) -> Seq<char> {
    line_of(columns(s, tol), pretty)
}

/// A plain line is its nine columns joined by single spaces; a bordered line
/// is the same columns joined by `" | "` between the borders. Stripping the
/// borders and collapsing the column separators therefore leaves exactly the
/// plain line: the two layouts agree column for column.
#[verifier::rlimit(100)]
pub proof fn lemma_line_join(c: Seq<Seq<char>>)
    requires
        c.len() == 9,
    ensures
        line_of(c, false) == join(c, seq![' ']),
        line_of(c, true) == "| "@ + join(c, seq![' '] + "| "@) + " |"@,
{
    reveal(line_of);
    reveal_with_fuel(join, 10);
    assert(c.drop_last().drop_last().drop_last().drop_last().drop_last().drop_last().drop_last()
        =~= seq![c[0], c[1]]);
    assert(line_of(c, false) =~= join(c, seq![' ']));
    assert(line_of(c, true) =~= "| "@ + join(c, seq![' '] + "| "@) + " |"@);
}

/// The two layouts of a data row agree column for column: the bordered row is
/// the plain row's columns, bordered and joined by `" | "` instead of `" "`.
pub proof fn lemma_plain_pretty_columns(s: Sample, tol: int)
    ensures
        row_line(s, tol, false) == join(columns(s, tol), seq![' ']),
        row_line(s, tol, true) == "| "@ + join(columns(s, tol), seq![' '] + "| "@) + " |"@,
{
    reveal(columns);
    lemma_line_join(columns(s, tol));
}

/// The horizontal rule of the bordered layout.
pub open spec fn rule_line() -> Seq<char> {
    "+--------------+----------+---------------+-------------+------------+------------+----------------+--------------+----------+"@
}

/// The header row naming the nine columns, in the chosen layout.
pub open spec fn header_line(pretty: bool) -> Seq<char> {
    if pretty {
        "| Distance(yd) |      MOA | Elevation(in) | Windage(in) |   Vertical | Horizontal | Velocity(ft/s) | Energy(ftlb) |  Time(s) |"@
    } else {
        "Distance(yd)      MOA Elevation(in) Windage(in)   Vertical Horizontal Velocity(ft/s) Energy(ftlb)  Time(s)"@
    }
}

/// The lines above the data rows: in the bordered layout a rule before and
/// after the header, in plain the header alone.
pub open spec fn header_lines(pretty: bool) -> Seq<Seq<char>> {
    if pretty {
        seq![rule_line(), header_line(true), rule_line()]
    } else {
        seq![header_line(false)]
    }
}

/// One line per sample, in input order.
pub open spec fn data_lines(samples: Seq<Sample>, tol: int, pretty: bool) -> Seq<Seq<char>> {
    samples.map_values(|s: Sample| row_line(s, tol, pretty))
}

/// The lines after the data rows: a closing rule in the bordered layout.
pub open spec fn trailer_lines(pretty: bool) -> Seq<Seq<char>> {
    if pretty {
        seq![rule_line()]
    } else {
        Seq::empty()
    }
}

/// All lines of the table, in print order.
pub open spec fn table_lines(samples: Seq<Sample>, tol: int, pretty: bool) -> Seq<Seq<char>> {
    header_lines(pretty) + data_lines(samples, tol, pretty) + trailer_lines(pretty)
}

/// Lines flattened to text, each closed by a newline.
pub open spec fn cat_lines(lines: Seq<Seq<char>>) -> Seq<char>
    decreases lines.len(),
{
    if lines.len() == 0 {
        Seq::empty()
    } else {
        cat_lines(lines.drop_last()) + lines.last() + seq!['\n']
    }
}

/// The whole table as text.
pub open spec fn table_str(samples: Seq<Sample>, tol: int, pretty: bool) -> Seq<char> {
    cat_lines(table_lines(samples, tol, pretty))
}

/// The table holds exactly one data row per sample, in input order: no sample
/// is dropped or duplicated, and the row of sample `i` stands at line `i`
/// after the header block.
pub proof fn lemma_row_count(samples: Seq<Sample>, tol: int, pretty: bool)
    ensures
        table_lines(samples, tol, pretty).len() == samples.len() + (if pretty {
            4int
        } else {
            1int
        }),
        forall|i: int|
            0 <= i < samples.len() ==> table_lines(samples, tol, pretty)[i + (if pretty {
                3int
            } else {
                1int
            })] == row_line(samples[i], tol, pretty),
{
    assert forall|i: int|
        0 <= i < samples.len() implies table_lines(samples, tol, pretty)[i + (if pretty {
        3int
    } else {
        1int
    })] == row_line(samples[i], tol, pretty) by {
        assert(data_lines(samples, tol, pretty)[i] == row_line(samples[i], tol, pretty));
    }
}

/// The two layouts agree column for column over a whole table: the data line
/// of sample `i` in either layout is a join of the same nine column texts,
/// bordered and parted by `" | "` in the bordered layout, parted by one space
/// in plain.
pub proof fn lemma_table_layouts_agree(samples: Seq<Sample>, tol: int)
    ensures
        forall|i: int|
            0 <= i < samples.len() ==> #[trigger] table_lines(samples, tol, false)[1 + i] == join(
                columns(samples[i], tol),
                seq![' '],
            ),
        forall|i: int|
            0 <= i < samples.len() ==> #[trigger] table_lines(samples, tol, true)[3 + i] == "| "@
                + join(columns(samples[i], tol), seq![' '] + "| "@) + " |"@,
{
    lemma_row_count(samples, tol, false);
    lemma_row_count(samples, tol, true);
    assert forall|i: int|
        0 <= i < samples.len() implies #[trigger] table_lines(samples, tol, false)[1 + i] == join(
        columns(samples[i], tol),
        seq![' '],
    ) by {
        lemma_plain_pretty_columns(samples[i], tol);
    }
    assert forall|i: int|
        0 <= i < samples.len() implies #[trigger] table_lines(samples, tol, true)[3 + i] == "| "@
        + join(columns(samples[i], tol), seq![' '] + "| "@) + " |"@ by {
        lemma_plain_pretty_columns(samples[i], tol);
    }
}

/// Count of newline characters in a text.
pub open spec fn newline_count(s: Seq<char>) -> int
    decreases s.len(),
{
    if s.len() == 0 {
        0
    } else {
        newline_count(s.drop_last()) + if s.last() == '\n' {
            1int
        } else {
            0int
        }
    }
}

pub proof fn lemma_newline_count_concat(a: Seq<char>, b: Seq<char>)
    ensures
        newline_count(a + b) == newline_count(a) + newline_count(b),
    decreases b.len(),
{
    if b.len() == 0 {
        assert(a + b =~= a);
    } else {
        assert((a + b).drop_last() =~= a + b.drop_last());
        lemma_newline_count_concat(a, b.drop_last());
    }
}

pub proof fn lemma_no_newline_count(s: Seq<char>)
    requires
        crate::num::no_newline(s),
    ensures
        newline_count(s) == 0,
    decreases s.len(),
{
    if s.len() > 0 {
        assert forall|i: int| 0 <= i < s.drop_last().len() implies s.drop_last()[i] != '\n' by {
            assert(s[i] != '\n');
        }
        lemma_no_newline_count(s.drop_last());
    }
}

/// A join of newline-free parts by a newline-free separator is newline-free.
pub proof fn lemma_join_no_newline(parts: Seq<Seq<char>>, sep: Seq<char>)
    requires
        crate::num::no_newline(sep),
        forall|j: int| 0 <= j < parts.len() ==> crate::num::no_newline(#[trigger] parts[j]),
    ensures
        crate::num::no_newline(join(parts, sep)),
    decreases parts.len(),
{
    if parts.len() == 0 {
        assert(crate::num::no_newline(Seq::empty()));
    } else if parts.len() == 1 {
        assert(crate::num::no_newline(parts[0]));
    } else {
        assert forall|j: int|
            0 <= j < parts.drop_last().len() implies crate::num::no_newline(
            #[trigger] parts.drop_last()[j],
        ) by {
            assert(crate::num::no_newline(parts[j]));
        }
        lemma_join_no_newline(parts.drop_last(), sep);
        crate::num::lemma_no_newline_concat(join(parts.drop_last(), sep), sep);
        crate::num::lemma_no_newline_concat(join(parts.drop_last(), sep) + sep, parts.last());
    }
}

/// Every column of a data row is newline-free.
pub proof fn lemma_columns_no_newline(s: Sample, tol: int)
    ensures
        forall|j: int|
            0 <= j < columns(s, tol).len() ==> crate::num::no_newline(
                #[trigger] columns(s, tol)[j],
            ),
{
    reveal(columns);
    let c = columns(s, tol);
    crate::num::lemma_int_str_no_newline(s.distance as int);
    crate::num::lemma_pad_left_no_newline(int_str(s.distance as int), 12);
    crate::num::lemma_fixed2_str_no_newline(s.angle as int);
    crate::num::lemma_pad_left_no_newline(fixed2_str(s.angle as int), 8);
    crate::num::lemma_fixed2_str_no_newline(iabs(s.elevation as int));
    crate::num::lemma_pad_left_no_newline(fixed2_str(iabs(s.elevation as int)), 11);
    crate::num::lemma_fixed2_str_no_newline(iabs(s.windage as int));
    crate::num::lemma_pad_left_no_newline(fixed2_str(iabs(s.windage as int)), 9);
    crate::num::lemma_fixed2_str_no_newline(iabs(s.vertical as int));
    crate::num::lemma_pad_left_no_newline(fixed2_str(iabs(s.vertical as int)), 8);
    crate::num::lemma_fixed2_str_no_newline(iabs(s.horizontal as int));
    crate::num::lemma_pad_left_no_newline(fixed2_str(iabs(s.horizontal as int)), 8);
    crate::num::lemma_fixed2_str_no_newline(s.velocity as int);
    crate::num::lemma_pad_left_no_newline(fixed2_str(s.velocity as int), 14);
    crate::num::lemma_fixed2_str_no_newline(s.energy as int);
    crate::num::lemma_pad_left_no_newline(fixed2_str(s.energy as int), 12);
    crate::num::lemma_fixed3_str_no_newline(s.time as int);
    crate::num::lemma_pad_left_no_newline(fixed3_str(s.time as int), 8);
    assert(crate::num::no_newline(seq![' ', sym_elevation(s, tol)]));
    assert(crate::num::no_newline(seq![' ', sym_windage(s, tol)]));
    crate::num::lemma_no_newline_concat(
        pad_left(fixed2_str(iabs(s.elevation as int)), 11),
        seq![' ', sym_elevation(s, tol)],
    );
    crate::num::lemma_no_newline_concat(
        pad_left(fixed2_str(iabs(s.windage as int)), 9),
        seq![' ', sym_windage(s, tol)],
    );
    crate::num::lemma_no_newline_concat(
        pad_left(fixed2_str(iabs(s.vertical as int)), 8),
        seq![' ', sym_elevation(s, tol)],
    );
    crate::num::lemma_no_newline_concat(
        pad_left(fixed2_str(iabs(s.horizontal as int)), 8),
        seq![' ', sym_windage(s, tol)],
    );
    assert(crate::num::no_newline(c[0]));
    assert(crate::num::no_newline(c[1]));
    assert(crate::num::no_newline(c[2]));
    assert(crate::num::no_newline(c[3]));
    assert(crate::num::no_newline(c[4]));
    assert(crate::num::no_newline(c[5]));
    assert(crate::num::no_newline(c[6]));
    assert(crate::num::no_newline(c[7]));
    assert(crate::num::no_newline(c[8]));
}

/// A data row is newline-free in either layout.
pub proof fn lemma_row_no_newline(s: Sample, tol: int, pretty: bool)
    ensures
        crate::num::no_newline(row_line(s, tol, pretty)),
{
    reveal(columns);
    let c = columns(s, tol);
    lemma_columns_no_newline(s, tol);
    lemma_line_join(c);
    reveal_strlit("| ");
    reveal_strlit(" |");
    assert(crate::num::no_newline("| "@));
    assert(crate::num::no_newline(" |"@));
    if pretty {
        crate::num::lemma_no_newline_concat(seq![' '], "| "@);
        lemma_join_no_newline(c, seq![' '] + "| "@);
        crate::num::lemma_no_newline_concat("| "@, join(c, seq![' '] + "| "@));
        crate::num::lemma_no_newline_concat("| "@ + join(c, seq![' '] + "| "@), " |"@);
    } else {
        assert(crate::num::no_newline(seq![' ']));
        lemma_join_no_newline(c, seq![' ']);
    }
}

/// The header block and the rule are single lines.
#[verifier::rlimit(100)]
pub proof fn lemma_header_no_newline()
    ensures
        crate::num::no_newline(rule_line()),
        crate::num::no_newline(header_line(true)),
        crate::num::no_newline(header_line(false)),
{
    reveal_strlit(
        "+--------------+----------+---------------+-------------+------------+------------+----------------+--------------+----------+",
    );
    reveal_strlit(
        "| Distance(yd) |      MOA | Elevation(in) | Windage(in) |   Vertical | Horizontal | Velocity(ft/s) | Energy(ftlb) |  Time(s) |",
    );
    reveal_strlit(
        "Distance(yd)      MOA Elevation(in) Windage(in)   Vertical Horizontal Velocity(ft/s) Energy(ftlb)  Time(s)",
    );
}

/// Flattening newline-free lines yields one newline per line.
pub proof fn lemma_cat_lines_count(lines: Seq<Seq<char>>)
    requires
        forall|j: int| 0 <= j < lines.len() ==> crate::num::no_newline(#[trigger] lines[j]),
    ensures
        newline_count(cat_lines(lines)) == lines.len(),
    decreases lines.len(),
{
    if lines.len() > 0 {
        assert forall|j: int|
            0 <= j < lines.drop_last().len() implies crate::num::no_newline(
            #[trigger] lines.drop_last()[j],
        ) by {
            assert(crate::num::no_newline(lines[j]));
        }
        lemma_cat_lines_count(lines.drop_last());
        lemma_newline_count_concat(cat_lines(lines.drop_last()), lines.last());
        lemma_newline_count_concat(cat_lines(lines.drop_last()) + lines.last(), seq!['\n']);
        lemma_no_newline_count(lines.last());
        assert(newline_count(Seq::<char>::empty()) == 0);
        assert(seq!['\n'].drop_last() =~= Seq::<char>::empty());
        assert(newline_count(seq!['\n']) == 1);
    }
}

/// As bytes, the rendered table holds exactly one newline per line: the
/// plain layout prints `samples.len() + 1` lines, the bordered layout
/// `samples.len() + 4` — one data line per sample, none dropped, none split.
pub proof fn lemma_table_newline_count(samples: Seq<Sample>, tol: int, pretty: bool)
    ensures
        newline_count(table_str(samples, tol, pretty)) == samples.len() + (if pretty {
            4int
        } else {
            1int
        }),
{
    lemma_header_no_newline();
    lemma_row_count(samples, tol, pretty);
    let lines = table_lines(samples, tol, pretty);
    let off: int = if pretty {
        3
    } else {
        1
    };
    assert forall|j: int| 0 <= j < lines.len() implies crate::num::no_newline(
        #[trigger] lines[j],
    ) by {
        if off <= j < off + samples.len() {
            assert(lines[j] == row_line(samples[j - off], tol, pretty));
            lemma_row_no_newline(samples[j - off], tol, pretty);
        }
    }
    lemma_cat_lines_count(lines);
}

/// The one-character string of a direction symbol.
pub fn sym_str(c: char) -> (r: &'static str)
    requires
        c == 'D' || c == 'U' || c == 'L' || c == 'R' || c == '*',
    ensures
        r@ == seq![c],
{
    if c == 'D' {
        proof {
            reveal_strlit("D");
            assert("D"@ =~= seq!['D']);
        }
        "D"
    } else if c == 'U' {
        proof {
            reveal_strlit("U");
            assert("U"@ =~= seq!['U']);
        }
        "U"
    } else if c == 'L' {
        proof {
            reveal_strlit("L");
            assert("L"@ =~= seq!['L']);
        }
        "L"
    } else if c == 'R' {
        proof {
            reveal_strlit("R");
            assert("R"@ =~= seq!['R']);
        }
        "R"
    } else {
        proof {
            reveal_strlit("*");
            assert("*"@ =~= seq!['*']);
        }
        "*"
    }
}

/// Render one data row, without its newline.
#[verifier::rlimit(60)]
pub fn row_str(s: &Sample, tolerance: i64, pretty: bool) -> (r: String)
    requires
        tolerance >= 0,
    ensures
        r@ == row_line(*s, tolerance as int, pretty),
{
    let ghost tol = tolerance as int;
    let esym = Adjustment::Elevation(s.elevation).adjustment(tolerance);
    let wsym = Adjustment::Windage(s.windage).adjustment(tolerance);
    proof {
        reveal_strlit(" ");
        assert(" "@ =~= seq![' ']);
    }
    let c0 = pad_left_str(i64_str(s.distance).as_str(), 12);
    let c1 = pad_left_str(fixed2(s.angle).as_str(), 8);
    let mut c2 = pad_left_str(fixed2_abs(s.elevation).as_str(), 11);
    c2.append(" ");
    c2.append(sym_str(esym));
    let mut c3 = pad_left_str(fixed2_abs(s.windage).as_str(), 9);
    c3.append(" ");
    c3.append(sym_str(wsym));
    let mut c4 = pad_left_str(fixed2_abs(s.vertical).as_str(), 8);
    c4.append(" ");
    c4.append(sym_str(esym));
    let mut c5 = pad_left_str(fixed2_abs(s.horizontal).as_str(), 8);
    c5.append(" ");
    c5.append(sym_str(wsym));
    let c6 = pad_left_str(fixed2(s.velocity).as_str(), 14);
    let c7 = pad_left_str(fixed2(s.energy).as_str(), 12);
    let c8 = pad_left_str(fixed3(s.time).as_str(), 8);
    proof {
        reveal(columns);
        let cols = columns(*s, tol);
        assert(c2@ =~= cols[2]);
        assert(c3@ =~= cols[3]);
        assert(c4@ =~= cols[4]);
        assert(c5@ =~= cols[5]);
    }
    let mut out = String::new();
    if pretty {
        proof {
            reveal_strlit("| ");
        }
        out.append("| ");
    }
    out.append(c0.as_str());
    out.append(" ");
    if pretty {
        out.append("| ");
    }
    out.append(c1.as_str());
    out.append(" ");
    if pretty {
        out.append("| ");
    }
    out.append(c2.as_str());
    out.append(" ");
    if pretty {
        out.append("| ");
    }
    out.append(c3.as_str());
    out.append(" ");
    if pretty {
        out.append("| ");
    }
    out.append(c4.as_str());
    out.append(" ");
    if pretty {
        out.append("| ");
    }
    out.append(c5.as_str());
    out.append(" ");
    if pretty {
        out.append("| ");
    }
    out.append(c6.as_str());
    out.append(" ");
    if pretty {
        out.append("| ");
    }
    out.append(c7.as_str());
    out.append(" ");
    if pretty {
        out.append("| ");
    }
    out.append(c8.as_str());
    if pretty {
        proof {
            reveal_strlit(" |");
        }
        out.append(" |");
    }
    proof {
        reveal(line_of);
        reveal(columns);
        assert(out@ =~= row_line(*s, tol, pretty));
    }
    out
}

/// Render the whole range table: the header block, one row per sample in
/// input order, and in the bordered layout a closing rule. The text is a
/// pure function of the samples, the tolerance and the layout, so rendering
/// the same sequence twice gives byte-identical output; every fixed-point
/// sample value has a decimal form, so rendering cannot fail.
#[verifier::rlimit(100)]
pub fn print(table: &Vec<Sample>, output_tolerance: i64, pretty: bool) -> (r: String)
    requires
        output_tolerance >= 0,
    ensures
        r@ == table_str(table@, output_tolerance as int, pretty),
{
    let ghost tol = output_tolerance as int;
    proof {
        reveal_strlit("\n");
        assert("\n"@ =~= seq!['\n']);
    }
    let mut out = String::new();
    if pretty {
        out.append(
            "+--------------+----------+---------------+-------------+------------+------------+----------------+--------------+----------+",
        );
        out.append("\n");
        out.append(
            "| Distance(yd) |      MOA | Elevation(in) | Windage(in) |   Vertical | Horizontal | Velocity(ft/s) | Energy(ftlb) |  Time(s) |",
        );
        out.append("\n");
        out.append(
            "+--------------+----------+---------------+-------------+------------+------------+----------------+--------------+----------+",
        );
        out.append("\n");
    } else {
        out.append(
            "Distance(yd)      MOA Elevation(in) Windage(in)   Vertical Horizontal Velocity(ft/s) Energy(ftlb)  Time(s)",
        );
        out.append("\n");
    }
    proof {
        reveal_with_fuel(cat_lines, 5);
        if pretty {
            let hl = header_lines(true);
            assert(hl.drop_last() =~= seq![rule_line(), header_line(true)]);
            assert(hl.drop_last().drop_last() =~= seq![rule_line()]);
            assert(hl.drop_last().drop_last().drop_last() =~= Seq::<Seq<char>>::empty());
            assert(out@ =~= cat_lines(hl));
        } else {
            assert(header_lines(false).drop_last() =~= Seq::<Seq<char>>::empty());
            assert(out@ =~= cat_lines(header_lines(false)));
        }
        assert(data_lines(table@.take(0), tol, pretty) =~= Seq::<Seq<char>>::empty());
        assert(header_lines(pretty) + data_lines(table@.take(0), tol, pretty) =~= header_lines(
            pretty,
        ));
    }
    let mut k: usize = 0;
    while k < table.len()
        invariant
            k <= table.len(),
            output_tolerance >= 0,
            tol == output_tolerance as int,
            "\n"@ == seq!['\n'],
            out@ == cat_lines(header_lines(pretty) + data_lines(table@.take(k as int), tol, pretty)),
        decreases table.len() - k,
    {
        let row = row_str(&table[k], output_tolerance, pretty);
        out.append(row.as_str());
        out.append("\n");
        k = k + 1;
        proof {
            let prev = header_lines(pretty) + data_lines(table@.take(k - 1), tol, pretty);
            let cur = header_lines(pretty) + data_lines(table@.take(k as int), tol, pretty);
            assert(cur.drop_last() =~= prev);
            assert(cur.last() == row_line(table@[k - 1], tol, pretty));
            assert(out@ =~= cat_lines(cur));
        }
    }
    proof {
        assert(table@.take(table@.len() as int) =~= table@);
    }
    if pretty {
        out.append(
            "+--------------+----------+---------------+-------------+------------+------------+----------------+--------------+----------+",
        );
        out.append("\n");
        proof {
            let body = header_lines(true) + data_lines(table@, tol, true);
            let all = table_lines(table@, tol, true);
            assert(all.drop_last() =~= body);
            assert(all.last() == rule_line());
            assert(out@ =~= cat_lines(all));
        }
    } else {
        proof {
            assert(table_lines(table@, tol, false) =~= header_lines(false) + data_lines(
                table@,
                tol,
                false,
            ));
        }
    }
    out
}

} // verus!
