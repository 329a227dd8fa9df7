//! Box-drawn tables: a header of upper-cased column names and one line per row, each column
//! as wide as its widest entry (in terminal columns).
use vstd::prelude::*;
use crate::events::{display_width, text_width};
use crate::text::{chars_of, push_chars, push_str, string_from_chars};

verus! {

/// The full Unicode uppercase mapping of a string, as `str::to_uppercase` computes it.
pub uninterp spec fn uppercase(s: Seq<char>) -> Seq<char>;

/// Calls `str::to_uppercase`; its result is named `uppercase`.
#[verifier::external_body]
pub(crate) fn to_uppercase(s: &str) -> (r: String)
    ensures
        r@ == uppercase(s@),
{
    s.to_uppercase()
}

/// The texts of strings.
pub open spec fn views(v: Seq<String>) -> Seq<Seq<char>> {
    v.map_values(|s: String| s@)
}

/// The texts of rows of strings.
pub open spec fn row_views(rows: Seq<Vec<String>>) -> Seq<Seq<Seq<char>>> {
    rows.map_values(|r: Vec<String>| views(r@))
}

/// The widest entry of column `i` among the rows (0 without rows).
pub open spec fn cells_width(rows: Seq<Seq<Seq<char>>>, i: int) -> nat
    decreases rows.len(),
{
    if rows.len() == 0 {
        0
    } else {
        let a = cells_width(rows.drop_last(), i);
        let b = display_width(rows.last()[i]) as nat;
        if a >= b {
            a
        } else {
            b
        }
    }
}

/// The width of column `i`: its name or its widest entry.
pub open spec fn column_width(keys: Seq<Seq<char>>, rows: Seq<Seq<Seq<char>>>, i: int) -> nat {
    let h = display_width(keys[i]) as nat;
    let c = cells_width(rows, i);
    if h >= c {
        h
    } else {
        c
    }
}

/// The widths of all columns.
pub open spec fn column_widths(keys: Seq<Seq<char>>, rows: Seq<Seq<Seq<char>>>) -> Seq<nat> {
    Seq::new(keys.len(), |i: int| column_width(keys, rows, i))
}

/// `n` copies of a character.
pub open spec fn repeated(c: char, n: nat) -> Seq<char> {
    Seq::new(n, |i: int| c)
}

/// Each column's stretch of a rule followed by the inner joint.
pub open spec fn inner_segments(widths: Seq<nat>, mid: char) -> Seq<char>
    decreases widths.len(),
{
    if widths.len() == 0 {
        Seq::empty()
    } else {
        inner_segments(widths.drop_last(), mid) + repeated('─', widths.last() + 2) + seq![mid]
    }
}

/// A horizontal rule: the left corner, each column's stretch with joints between, and the
/// right corner.
pub open spec fn rule_line(widths: Seq<nat>, left: char, mid: char, right: char) -> Seq<char> {
    seq![left] + if widths.len() == 0 {
        Seq::empty()
    } else {
        inner_segments(widths.drop_last(), mid) + repeated('─', widths.last() + 2) + seq![right]
    }
}

/// The cells of a line, each padded to its column.
pub open spec fn cells_text(cells: Seq<Seq<char>>, widths: Seq<nat>) -> Seq<char>
    decreases widths.len(),
{
    if widths.len() == 0 {
        Seq::empty()
    } else {
        cells_text(cells.drop_last(), widths.drop_last()) + seq![' '] + cells.last() + repeated(
            ' ',
            (widths.last() - display_width(cells.last())) as nat,
        ) + " │"@
    }
}

/// A line of cells between vertical bars.
pub open spec fn cell_line(cells: Seq<Seq<char>>, widths: Seq<nat>) -> Seq<char> {
    seq!['│'] + cells_text(cells, widths)
}

/// The lines of a table of `rows` under the columns `keys`: nothing without rows.
pub open spec fn table_text(keys: Seq<Seq<char>>, rows: Seq<Seq<Seq<char>>>) -> Seq<Seq<char>> {
    if rows.len() == 0 {
        Seq::empty()
    } else {
        let w = column_widths(keys, rows);
        seq![
            rule_line(w, '┌', '┬', '┐'),
            cell_line(keys.map_values(|k: Seq<char>| uppercase(k)), w),
            rule_line(w, '├', '┼', '┤'),
        ] + rows.map_values(|r: Seq<Seq<char>>| cell_line(r, w)) + seq![
            rule_line(w, '└', '┴', '┘'),
        ]
    }
}

/// Every row has one entry per column, and every upper-cased column name fits its column.
pub open spec fn table_fits(keys: Seq<Seq<char>>, rows: Seq<Seq<Seq<char>>>) -> bool {
    &&& forall|j: int| 0 <= j < rows.len() ==> #[trigger] rows[j].len() == keys.len()
    &&& forall|i: int|
        0 <= i < keys.len() ==> display_width(uppercase(#[trigger] keys[i])) <= column_width(
            keys,
            rows,
            i,
        )
}

fn push_repeated(out: &mut Vec<char>, c: char, n: usize)
    ensures
        final(out)@ == old(out)@ + repeated(c, n as nat),
{
    let ghost start = out@;
    let mut i: usize = 0;
    while i < n
        invariant
            i <= n,
            out@ == start + repeated(c, i as nat),
        decreases n - i,
    {
        out.push(c);
        i += 1;
        assert(out@ =~= start + repeated(c, i as nat));
    }
}

fn column_widths_of(keys: &Vec<String>, rows: &Vec<Vec<String>>) -> (r: Vec<usize>)
    requires
        forall|j: int| 0 <= j < rows@.len() ==> #[trigger] rows@[j]@.len() == keys@.len(),
    ensures
        r@.len() == keys@.len(),
        forall|i: int|
            0 <= i < keys@.len() ==> #[trigger] r@[i] as nat == column_width(
                views(keys@),
                row_views(rows@),
                i,
            ),
{
    let ghost kv = views(keys@);
    let ghost rv = row_views(rows@);
    let mut widths: Vec<usize> = Vec::new();
    let mut i: usize = 0;
    while i < keys.len()
        invariant
            i <= keys@.len(),
            kv == views(keys@),
            rv == row_views(rows@),
            forall|j: int| 0 <= j < rows@.len() ==> #[trigger] rows@[j]@.len() == keys@.len(),
            widths@.len() == i,
            forall|k: int| 0 <= k < i ==> #[trigger] widths@[k] as nat == column_width(kv, rv, k),
        decreases keys@.len() - i,
    {
        let mut best: usize = 0;
        let mut j: usize = 0;
        while j < rows.len()
            invariant
                i < keys@.len(),
                j <= rows@.len(),
                rv == row_views(rows@),
                forall|m: int| 0 <= m < rows@.len() ==> #[trigger] rows@[m]@.len() == keys@.len(),
                best as nat == cells_width(rv.take(j as int), i as int),
            decreases rows@.len() - j,
        {
            proof {
                assert(rv.take(j as int + 1).drop_last() =~= rv.take(j as int));
                assert(rv.take(j as int + 1).last() == rv[j as int]);
                assert(rv[j as int] == views(rows@[j as int]@));
                assert(rv[j as int][i as int] == rows@[j as int]@[i as int]@);
            }
            let w = text_width(rows[j][i].as_str());
            if w > best {
                best = w;
            }
            j += 1;
        }
        proof {
            assert(rv.take(rows@.len() as int) =~= rv);
        }
        let h = text_width(keys[i].as_str());
        if h >= best {
            widths.push(h);
        } else {
            widths.push(best);
        }
        i += 1;
    }
    widths
}

fn rule_of(widths: &Vec<usize>, left: char, mid: char, right: char) -> (r: String)
    ensures
        r@ == rule_line(widths@.map_values(|w: usize| w as nat), left, mid, right),
{
    let ghost ws = widths@.map_values(|w: usize| w as nat);
    let mut out: Vec<char> = Vec::new();
    out.push(left);
    let mut i: usize = 0;
    while i < widths.len()
        invariant
            i <= widths@.len(),
            ws == widths@.map_values(|w: usize| w as nat),
            i < widths@.len() ==> out@ == seq![left] + inner_segments(ws.take(i as int), mid),
            i == widths@.len() ==> out@ == rule_line(ws, left, mid, right),
        decreases widths@.len() - i,
    {
        proof {
            assert(ws.take(i as int + 1).drop_last() =~= ws.take(i as int));
        }
        push_repeated(&mut out, '─', widths[i]);
        push_repeated(&mut out, '─', 2);
        proof {
            assert(repeated('─', widths@[i as int] as nat) + repeated('─', 2) =~= repeated(
                '─',
                ws[i as int] + 2,
            ));
        }
        if i + 1 < widths.len() {
            out.push(mid);
        } else {
            out.push(right);
            proof {
                assert(ws.take(i as int) =~= ws.drop_last());
            }
        }
        i += 1;
    }
    if widths.len() == 0 {
        assert(out@ =~= rule_line(ws, left, mid, right));
    }
    string_from_chars(&out)
}

fn line_of(cells: &Vec<String>, widths: &Vec<usize>) -> (r: String)
    requires
        cells@.len() == widths@.len(),
        forall|i: int|
            0 <= i < widths@.len() ==> display_width(#[trigger] cells@[i]@) <= widths@[i],
    ensures
        r@ == cell_line(views(cells@), widths@.map_values(|w: usize| w as nat)),
{
    let ghost ws = widths@.map_values(|w: usize| w as nat);
    let ghost cs = views(cells@);
    let mut out: Vec<char> = Vec::new();
    out.push('│');
    let mut i: usize = 0;
    while i < widths.len()
        invariant
            i <= widths@.len(),
            cells@.len() == widths@.len(),
            ws == widths@.map_values(|w: usize| w as nat),
            cs == views(cells@),
            forall|k: int| 0 <= k < widths@.len() ==> display_width(#[trigger] cells@[k]@) <= widths@[k],
            out@ == seq!['│'] + cells_text(cs.take(i as int), ws.take(i as int)),
        decreases widths@.len() - i,
    {
        proof {
            assert(ws.take(i as int + 1).drop_last() =~= ws.take(i as int));
            assert(cs.take(i as int + 1).drop_last() =~= cs.take(i as int));
            assert(cs[i as int] == cells@[i as int]@);
        }
        out.push(' ');
        push_chars(&mut out, &chars_of(cells[i].as_str()));
        let w = text_width(cells[i].as_str());
        push_repeated(&mut out, ' ', widths[i] - w);
        push_str(&mut out, " │");
        i += 1;
        proof {
            assert(out@ =~= seq!['│'] + cells_text(cs.take(i as int), ws.take(i as int)));
        }
    }
    proof {
        assert(ws.take(widths@.len() as int) =~= ws);
        assert(cs.take(widths@.len() as int) =~= cs);
    }
    string_from_chars(&out)
}

proof fn lemma_cells_width_bound(rows: Seq<Seq<Seq<char>>>, i: int, j: int)
    requires
        0 <= j < rows.len(),
    ensures
        display_width(rows[j][i]) <= cells_width(rows, i),
    decreases rows.len(),
{
    if j < rows.len() - 1 {
        lemma_cells_width_bound(rows.drop_last(), i, j);
        assert(rows.drop_last()[j] == rows[j]);
    }
}

/// The lines of a table; nothing when there are no rows.
pub fn table_lines(keys: &Vec<String>, rows: &Vec<Vec<String>>) -> (r: Vec<String>)
    requires
        table_fits(views(keys@), row_views(rows@)),
    ensures
        r@.map_values(|s: String| s@) == table_text(views(keys@), row_views(rows@)),
{
    let ghost kv = views(keys@);
    let ghost rv = row_views(rows@);
    let mut lines: Vec<String> = Vec::new();
    if rows.len() == 0 {
        assert(lines@.map_values(|s: String| s@) =~= table_text(kv, rv));
        return lines;
    }
    proof {
        assert forall|j: int| 0 <= j < rows@.len() implies #[trigger] rows@[j]@.len() == keys@.len() by {
            assert(rv[j] == views(rows@[j]@));
            assert(rv[j].len() == keys@.len());
        }
    }
    let widths = column_widths_of(keys, rows);
    let ghost w = column_widths(kv, rv);
    proof {
        assert(widths@.map_values(|x: usize| x as nat) =~= w);
    }
    let top = rule_of(&widths, '┌', '┬', '┐');
    let ghost top_v = top@;
    lines.push(top);
    let mut upper: Vec<String> = Vec::new();
    let mut i: usize = 0;
    while i < keys.len()
        invariant
            i <= keys@.len(),
            kv == views(keys@),
            upper@.len() == i,
            forall|k: int| 0 <= k < i ==> #[trigger] upper@[k]@ == uppercase(kv[k]),
        decreases keys@.len() - i,
    {
        upper.push(to_uppercase(keys[i].as_str()));
        i += 1;
    }
    proof {
        assert(views(upper@) =~= kv.map_values(|k: Seq<char>| uppercase(k)));
        assert forall|k: int| 0 <= k < widths@.len() implies display_width(#[trigger] upper@[k]@)
            <= widths@[k] by {
            assert(upper@[k]@ == uppercase(kv[k]));
        }
    }
    let header = line_of(&upper, &widths);
    let ghost header_v = header@;
    lines.push(header);
    let sep = rule_of(&widths, '├', '┼', '┤');
    let ghost sep_v = sep@;
    lines.push(sep);
    let ghost head = lines@.map_values(|s: String| s@);
    proof {
        assert(head =~= seq![top_v, header_v, sep_v]);
    }
    let mut j: usize = 0;
    while j < rows.len()
        invariant
            j <= rows@.len(),
            rv == row_views(rows@),
            kv == views(keys@),
            w == column_widths(kv, rv),
            widths@.map_values(|x: usize| x as nat) == w,
            widths@.len() == keys@.len(),
            forall|m: int| 0 <= m < rows@.len() ==> #[trigger] rows@[m]@.len() == keys@.len(),
            lines@.map_values(|s: String| s@) == head + rv.take(j as int).map_values(
                |r: Seq<Seq<char>>| cell_line(r, w),
            ),
        decreases rows@.len() - j,
    {
        proof {
            assert forall|k: int| 0 <= k < widths@.len() implies display_width(
                #[trigger] rows@[j as int]@[k]@,
            ) <= widths@[k] by {
                assert(rv[j as int] == views(rows@[j as int]@));
                lemma_cells_width_bound(rv, k, j as int);
                assert(widths@[k] as nat == w[k]);
            }
        }
        let line = line_of(&rows[j], &widths);
        let ghost line_v = line@;
        let ghost before = lines@;
        lines.push(line);
        proof {
            assert(rv[j as int] == views(rows@[j as int]@));
            assert(line_v == cell_line(rv[j as int], w));
            assert(rv.take(j as int + 1) =~= rv.take(j as int).push(rv[j as int]));
            assert(rv.take(j as int + 1).map_values(|r: Seq<Seq<char>>| cell_line(r, w)) =~= rv.take(
                j as int,
            ).map_values(|r: Seq<Seq<char>>| cell_line(r, w)).push(line_v));
            assert(lines@.map_values(|s: String| s@) =~= before.map_values(|s: String| s@).push(
                line_v,
            ));
            assert(lines@.map_values(|s: String| s@) =~= head + rv.take(j as int + 1).map_values(
                |r: Seq<Seq<char>>| cell_line(r, w),
            ));
        }
        j += 1;
    }
    let bottom = rule_of(&widths, '└', '┴', '┘');
    let ghost bottom_v = bottom@;
    let ghost before_bottom = lines@;
    lines.push(bottom);
    proof {
        assert(rv.take(rows@.len() as int) =~= rv);
        assert(lines@.map_values(|s: String| s@) =~= before_bottom.map_values(|s: String| s@).push(
            bottom_v,
        ));
        assert(lines@.map_values(|s: String| s@) =~= table_text(kv, rv));
    }
    lines
}

/// The lines of a table when every upper-cased column name fits its column; `None` when one
/// does not (the table cannot be drawn then) or a row has the wrong number of entries.
pub fn checked_table_lines(keys: &Vec<String>, rows: &Vec<Vec<String>>) -> (r: Option<Vec<String>>)
    ensures
        table_fits(views(keys@), row_views(rows@)) ==> (r matches Some(lines) && lines@.map_values(
            |s: String| s@,
        ) == table_text(views(keys@), row_views(rows@))),
        !table_fits(views(keys@), row_views(rows@)) ==> r is None,
{
    let ghost kv = views(keys@);
    let ghost rv = row_views(rows@);
    let mut j: usize = 0;
    while j < rows.len()
        invariant
            j <= rows@.len(),
            rv == row_views(rows@),
            kv == views(keys@),
            forall|m: int| 0 <= m < j ==> #[trigger] rows@[m]@.len() == keys@.len(),
        decreases rows@.len() - j,
    {
        if rows[j].len() != keys.len() {
            proof {
                assert(rv[j as int] == views(rows@[j as int]@));
                assert(rv[j as int].len() != kv.len());
            }
            return None;
        }
        j += 1;
    }
    proof {
        assert forall|m: int| 0 <= m < rv.len() implies #[trigger] rv[m].len() == kv.len() by {
            assert(rv[m] == views(rows@[m]@));
        }
    }
    let widths = column_widths_of(keys, rows);
    let mut i: usize = 0;
    while i < keys.len()
        invariant
            i <= keys@.len(),
            kv == views(keys@),
            rv == row_views(rows@),
            widths@.len() == keys@.len(),
            forall|k: int| 0 <= k < keys@.len() ==> #[trigger] widths@[k] as nat == column_width(kv, rv, k),
            forall|k: int| 0 <= k < i ==> display_width(uppercase(#[trigger] kv[k])) <= column_width(kv, rv, k),
        decreases keys@.len() - i,
    {
        let up = to_uppercase(keys[i].as_str());
        let w = text_width(up.as_str());
        if w > widths[i] {
            return None;
        }
        i += 1;
    }
    Some(table_lines(keys, rows))
}

} // verus!
