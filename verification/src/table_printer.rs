//! The table renderer: one row per leaf error, in a box-drawn table with
//! three columns, sized to the widest cell of each column.

use crate::config_error::ConfigFieldError;
use crate::config_error::ErrorNodeView;
use crate::config_error::error_views;
use crate::field_path::FieldPath;
use crate::field_path::dotted;
use crate::field_path::push_segment;
use crate::field_path::seg_of;
use crate::text::append_joined;
use crate::text::join_with;
use vstd::prelude::*;
use vstd::string::StrSliceExecFns;
use vstd::string::StringExecFns;

verus! {

/// One table row: field path, key names, failure details.
pub type Row = (String, String, String);

/// The model of one table row.
pub type RowView = (Seq<char>, Seq<char>, Seq<char>);

/// The model of a row.
pub open spec fn row_view(r: Row) -> RowView {
    (r.0@, r.1@, r.2@)
}

/// The models of a sequence of rows.
pub open spec fn rows_views(rows: Seq<Row>) -> Seq<RowView> {
    Seq::new(rows.len(), |i: int| row_view(rows[i]))
}

/// The rows of one error node under the given parent path: one row for a
/// leaf, and the child tree's rows, with the path extended, for a nested
/// node.
pub open spec fn node_rows(e: ErrorNodeView, path: Seq<Seq<char>>) -> Seq<RowView>
    decreases e, 0int,
{
    match e {
        ErrorNodeView::Parsing { idx, name, raw, message, key } => seq![
            (
                dotted(path.push(seg_of(name, idx))),
                key,
                message + " (raw value: '"@ + raw + "')"@,
            ),
        ],
        ErrorNodeView::Missing { idx, name, keys } => seq![
            (
                dotted(path.push(seg_of(name, idx))),
                join_with(keys, ", "@),
                "Required variable not set"@,
            ),
        ],
        ErrorNodeView::Other { idx, name, message } => seq![
            (dotted(path.push(seg_of(name, idx))), "-"@, message),
        ],
        ErrorNodeView::Nested { idx, name, tree } => tree_rows(tree, path.push(seg_of(name, idx))),
    }
}

/// The rows of a whole tree under the given parent path, in declaration
/// order.
pub open spec fn tree_rows(t: Seq<ErrorNodeView>, path: Seq<Seq<char>>) -> Seq<RowView>
    decreases t, 1int,
{
    if t.len() == 0 {
        Seq::empty()
    } else {
        tree_rows(t.drop_last(), path) + node_rows(t.last(), path)
    }
}

/// The greater of two numbers.
pub open spec fn max_int(a: int, b: int) -> int {
    if a >= b {
        a
    } else {
        b
    }
}

/// The three column widths after taking the rows into account, starting
/// from given minima.
pub open spec fn widths_from(rows: Seq<RowView>, w: (int, int, int)) -> (int, int, int)
    decreases rows.len(),
{
    if rows.len() == 0 {
        w
    } else {
        widths_from(
            rows.drop_first(),
            (
                max_int(w.0, rows[0].0.len() as int),
                max_int(w.1, rows[0].1.len() as int),
                max_int(w.2, rows[0].2.len() as int),
            ),
        )
    }
}

/// The column widths of the table: each column is as wide as its widest
/// cell, its header included.
pub open spec fn col_widths(rows: Seq<RowView>) -> (int, int, int) {
    widths_from(
        rows,
        (
            "Field Name"@.len() as int,
            "Environment Variables"@.len() as int,
            "Error Details"@.len() as int,
        ),
    )
}

/// `n` copies of the character `c`.
pub open spec fn repeat_char(c: char, n: int) -> Seq<char> {
    if n <= 0 {
        Seq::empty()
    } else {
        Seq::new(n as nat, |i: int| c)
    }
}

/// A cell padded with spaces on the right up to width `w`.
pub open spec fn pad_cell(s: Seq<char>, w: int) -> Seq<char> {
    s + repeat_char(' ', w - s.len())
}

/// A horizontal border: the given corner and junction characters with a
/// run of box-drawing dashes over each column.
pub open spec fn border_line(w: (int, int, int), l: char, m: char, r: char) -> Seq<char> {
    seq![l] + repeat_char('\u{2500}', w.0 + 2) + seq![m] + repeat_char('\u{2500}', w.1 + 2)
        + seq![m] + repeat_char('\u{2500}', w.2 + 2) + seq![r] + seq!['\n']
}

/// One table row: each cell padded to its column's width, between
/// box-drawing bars.
pub open spec fn row_line(c: RowView, w: (int, int, int)) -> Seq<char> {
    seq!['\u{2502}', ' '] + pad_cell(c.0, w.0) + seq![' ', '\u{2502}', ' '] + pad_cell(c.1, w.1)
        + seq![' ', '\u{2502}', ' '] + pad_cell(c.2, w.2) + seq![' ', '\u{2502}', '\n']
}

/// The data rows of the table, in order.
pub open spec fn rows_lines(rows: Seq<RowView>, w: (int, int, int)) -> Seq<char>
    decreases rows.len(),
{
    if rows.len() == 0 {
        Seq::empty()
    } else {
        rows_lines(rows.drop_last(), w) + row_line(rows.last(), w)
    }
}

/// The whole table: top border, header row, separator, data rows, bottom
/// border.  With no rows at all, a plain sentence stands instead.
pub open spec fn table_render(rows: Seq<RowView>) -> Seq<char> {
    if rows.len() == 0 {
        "No configuration errors\n"@
    } else {
        let w = col_widths(rows);
        border_line(w, '\u{250c}', '\u{252c}', '\u{2510}') + row_line(
            ("Field Name"@, "Environment Variables"@, "Error Details"@),
            w,
        ) + border_line(w, '\u{251c}', '\u{253c}', '\u{2524}') + rows_lines(rows, w) + border_line(
            w,
            '\u{2514}',
            '\u{2534}',
            '\u{2518}',
        )
    }
}

/// Appends `n` copies of the single character `piece` holds.
#[verifier::loop_isolation(false)]
fn append_repeat(out: &mut String, piece: &str, n: usize)
    requires
        piece@.len() == 1,
    ensures
        final(out)@ == old(out)@ + repeat_char(piece@[0], n as int),
{
    let mut i: usize = 0;
    proof {
        assert(out@ =~= old(out)@ + repeat_char(piece@[0], 0));
    }
    while i < n
        invariant
            0 <= i <= n,
            out@ == old(out)@ + repeat_char(piece@[0], i as int),
        decreases n - i,
    {
        out.append(piece);
        proof {
            assert(out@ =~= old(out)@ + repeat_char(piece@[0], i + 1));
        }
        i = i + 1;
    }
}

/// The greater of two numbers.
fn max_usize(a: usize, b: usize) -> (r: usize)
    ensures
        r as int == max_int(a as int, b as int),
{
    if a >= b {
        a
    } else {
        b
    }
}

/// Computes the column widths, exactly as [`col_widths`] describes.
#[verifier::loop_isolation(false)]
fn calculate_column_widths(rows: &Vec<Row>) -> (w: (usize, usize, usize))
    ensures
        (w.0 as int, w.1 as int, w.2 as int) == col_widths(rows_views(rows@)),
{
    let mut w0: usize = "Field Name".unicode_len();
    let mut w1: usize = "Environment Variables".unicode_len();
    let mut w2: usize = "Error Details".unicode_len();
    let mut i: usize = 0;
    proof {
        assert(rows_views(rows@).skip(0) =~= rows_views(rows@));
    }
    while i < rows.len()
        invariant
            0 <= i <= rows.len(),
            col_widths(rows_views(rows@)) == widths_from(
                rows_views(rows@).skip(i as int),
                (w0 as int, w1 as int, w2 as int),
            ),
        decreases rows.len() - i,
    {
        proof {
            assert(rows_views(rows@).skip(i as int)[0] == rows_views(rows@)[i as int]);
            assert(rows_views(rows@).skip(i as int).drop_first() =~= rows_views(rows@).skip(i + 1));
        }
        w0 = max_usize(w0, rows[i].0.as_str().unicode_len());
        w1 = max_usize(w1, rows[i].1.as_str().unicode_len());
        w2 = max_usize(w2, rows[i].2.as_str().unicode_len());
        i = i + 1;
    }
    proof {
        assert(rows_views(rows@).skip(rows.len() as int).len() == 0);
    }
    (w0, w1, w2)
}

/// Appends a horizontal border, exactly as [`border_line`] describes.
fn append_border(out: &mut String, w: (usize, usize, usize), l: &str, m: &str, r: &str)
    requires
        l@.len() == 1,
        m@.len() == 1,
        r@.len() == 1,
    ensures
        final(out)@ == old(out)@ + border_line(
            (w.0 as int, w.1 as int, w.2 as int),
            l@[0],
            m@[0],
            r@[0],
        ),
{
    proof {
        reveal_strlit("\u{2500}");
        reveal_strlit("\n");
    }
    out.append(l);
    append_repeat(out, "\u{2500}", w.0);
    out.append("\u{2500}");
    out.append("\u{2500}");
    out.append(m);
    append_repeat(out, "\u{2500}", w.1);
    out.append("\u{2500}");
    out.append("\u{2500}");
    out.append(m);
    append_repeat(out, "\u{2500}", w.2);
    out.append("\u{2500}");
    out.append("\u{2500}");
    out.append(r);
    out.append("\n");
    proof {
        assert(repeat_char('\u{2500}', w.0 as int + 2) =~= repeat_char('\u{2500}', w.0 as int)
            + seq!['\u{2500}', '\u{2500}']);
        assert(repeat_char('\u{2500}', w.1 as int + 2) =~= repeat_char('\u{2500}', w.1 as int)
            + seq!['\u{2500}', '\u{2500}']);
        assert(repeat_char('\u{2500}', w.2 as int + 2) =~= repeat_char('\u{2500}', w.2 as int)
            + seq!['\u{2500}', '\u{2500}']);
        assert(out@ =~= old(out)@ + border_line(
            (w.0 as int, w.1 as int, w.2 as int),
            l@[0],
            m@[0],
            r@[0],
        ));
    }
}

/// Appends one cell padded to width `w`.
fn append_padded(out: &mut String, cell: &str, w: usize)
    ensures
        final(out)@ == old(out)@ + pad_cell(cell@, w as int),
{
    proof {
        reveal_strlit(" ");
    }
    out.append(cell);
    let n = cell.unicode_len();
    if n < w {
        append_repeat(out, " ", w - n);
    }
    proof {
        assert(out@ =~= old(out)@ + pad_cell(cell@, w as int));
    }
}

/// Appends one table row, exactly as [`row_line`] describes.
fn append_row(out: &mut String, c0: &str, c1: &str, c2: &str, w: (usize, usize, usize))
    ensures
        final(out)@ == old(out)@ + row_line((c0@, c1@, c2@), (w.0 as int, w.1 as int, w.2 as int)),
{
    out.append("\u{2502} ");
    append_padded(out, c0, w.0);
    out.append(" \u{2502} ");
    append_padded(out, c1, w.1);
    out.append(" \u{2502} ");
    append_padded(out, c2, w.2);
    out.append(" \u{2502}\n");
    proof {
        reveal_strlit("\u{2502} ");
        reveal_strlit(" \u{2502} ");
        reveal_strlit(" \u{2502}\n");
        assert(out@ =~= old(out)@ + row_line(
            (c0@, c1@, c2@),
            (w.0 as int, w.1 as int, w.2 as int),
        ));
    }
}

/// Renders the rows as a box-drawn table, exactly as [`table_render`]
/// describes.
#[verifier::loop_isolation(false)]
fn format_ascii_table(rows: &Vec<Row>) -> (r: String)
    requires
        rows@.len() > 0,
    ensures
        r@ == table_render(rows_views(rows@)),
{
    proof {
        lemma_widths_bounds(
            rows_views(rows@),
            (
                "Field Name"@.len() as int,
                "Environment Variables"@.len() as int,
                "Error Details"@.len() as int,
            ),
        );
        reveal_strlit("Field Name");
        reveal_strlit("Environment Variables");
        reveal_strlit("Error Details");
        reveal_strlit("\u{250c}");
        reveal_strlit("\u{252c}");
        reveal_strlit("\u{2510}");
        reveal_strlit("\u{251c}");
        reveal_strlit("\u{253c}");
        reveal_strlit("\u{2524}");
        reveal_strlit("\u{2514}");
        reveal_strlit("\u{2534}");
        reveal_strlit("\u{2518}");
    }
    let w = calculate_column_widths(rows);
    let mut out = String::new();
    append_border(&mut out, w, "\u{250c}", "\u{252c}", "\u{2510}");
    append_row(&mut out, "Field Name", "Environment Variables", "Error Details", w);
    append_border(&mut out, w, "\u{251c}", "\u{253c}", "\u{2524}");
    let ghost wv = (w.0 as int, w.1 as int, w.2 as int);
    let ghost prefix = out@;
    let mut i: usize = 0;
    proof {
        assert(rows_views(rows@).take(0) =~= Seq::<RowView>::empty());
        assert(out@ =~= prefix + rows_lines(rows_views(rows@).take(0), wv));
    }
    while i < rows.len()
        invariant
            0 <= i <= rows.len(),
            out@ == prefix + rows_lines(rows_views(rows@).take(i as int), wv),
        decreases rows.len() - i,
    {
        append_row(&mut out, rows[i].0.as_str(), rows[i].1.as_str(), rows[i].2.as_str(), w);
        proof {
            assert(rows_views(rows@).take(i + 1).drop_last() =~= rows_views(rows@).take(i as int));
            assert(rows_views(rows@).take(i + 1).last() == rows_views(rows@)[i as int]);
            assert(out@ =~= prefix + rows_lines(rows_views(rows@).take(i + 1), wv));
        }
        i = i + 1;
    }
    proof {
        assert(rows_views(rows@).take(rows.len() as int) =~= rows_views(rows@));
    }
    append_border(&mut out, w, "\u{2514}", "\u{2534}", "\u{2518}");
    proof {
        assert(out@ =~= table_render(rows_views(rows@)));
    }
    out
}

/// The computed widths never fall below the starting minima.
proof fn lemma_widths_bounds(rows: Seq<RowView>, w: (int, int, int))
    ensures
        widths_from(rows, w).0 >= w.0,
        widths_from(rows, w).1 >= w.1,
        widths_from(rows, w).2 >= w.2,
    decreases rows.len(),
{
    if rows.len() > 0 {
        lemma_widths_bounds(
            rows.drop_first(),
            (
                max_int(w.0, rows[0].0.len() as int),
                max_int(w.1, rows[0].1.len() as int),
                max_int(w.2, rows[0].2.len() as int),
            ),
        );
    }
}

/// Renders an error tree as a box-drawn table, one row per leaf error.
#[derive(Debug)]
pub struct TablePrinter {
    rows: Vec<Row>,
}

impl TablePrinter {
    /// The rows gathered so far.
    pub closed spec fn view(&self) -> Seq<RowView> {
        rows_views(self.rows@)
    }

    /// A printer with an empty row buffer.
    pub fn new() -> (r: TablePrinter)
        ensures
            r@ == Seq::<RowView>::empty(),
    {
        let r = TablePrinter { rows: Vec::new() };
        proof {
            assert(r@ =~= Seq::<RowView>::empty());
        }
        r
    }

    /// Walks the tree in declaration order, appending one row per leaf
    /// error, with dotted paths built from the root downward.
    #[verifier::loop_isolation(false)]
    fn collect_errors_as_rows(
        &mut self,
        errors: &Vec<ConfigFieldError>,
        parent_field_path: FieldPath,
    )
        ensures
            final(self)@ == old(self)@ + tree_rows(error_views(errors@), parent_field_path@),
        decreases *errors, 1int,
    {
        let mut i: usize = 0;
        proof {
            assert(error_views(errors@).take(0) =~= Seq::<ErrorNodeView>::empty());
            assert(self@ =~= old(self)@ + tree_rows(
                error_views(errors@).take(0),
                parent_field_path@,
            ));
        }
        while i < errors.len()
            invariant
                0 <= i <= errors.len(),
                self@ == old(self)@ + tree_rows(
                    error_views(errors@).take(i as int),
                    parent_field_path@,
                ),
            decreases errors.len() - i,
        {
            proof {
                assert(error_views(errors@).take(i + 1).drop_last() =~= error_views(
                    errors@,
                ).take(i as int));
                assert(error_views(errors@).take(i + 1).last() == errors@[i as int]@);
                assert(tree_rows(error_views(errors@).take(i + 1), parent_field_path@)
                    =~= tree_rows(error_views(errors@).take(i as int), parent_field_path@)
                    + node_rows(errors@[i as int]@, parent_field_path@));
            }
            match &errors[i] {
                ConfigFieldError::Nested { field_name, field_idx, error } => {
                    let field_path = push_segment(&parent_field_path, field_name, *field_idx);
                    proof {
                        assert(errors@[i as int]@->tree =~= error_views(error.field_errors@));
                        assert(node_rows(errors@[i as int]@, parent_field_path@) == tree_rows(
                            error_views(error.field_errors@),
                            field_path@,
                        ));
                    }
                    let ghost pre = self@;
                    self.collect_errors_as_rows(&error.field_errors, field_path);
                    proof {
                        assert(self@ == pre + tree_rows(
                            error_views(error.field_errors@),
                            field_path@,
                        ));
                    }
                },
                ConfigFieldError::ParsingError { field_name, field_idx, raw, message, env_var_name } => {
                    let field_path = push_segment(&parent_field_path, field_name, *field_idx);
                    let c0 = field_path.dotted_path();
                    let c1 = env_var_name.clone();
                    let mut c2 = message.clone();
                    c2.append(" (raw value: '");
                    c2.append(raw.as_str());
                    c2.append("')");
                    proof {
                        assert(c2@ =~= message@ + " (raw value: '"@ + raw@ + "')"@);
                        assert(node_rows(errors@[i as int]@, parent_field_path@) =~= seq![
                            (c0@, c1@, c2@),
                        ]);
                    }
                    let ghost pre = self@;
                    self.rows.push((c0, c1, c2));
                    proof {
                        assert(self@ =~= pre.push((c0@, c1@, c2@)));
                    }
                },
                ConfigFieldError::MissingValue { field_name, field_idx, env_vars } => {
                    let field_path = push_segment(&parent_field_path, field_name, *field_idx);
                    let c0 = field_path.dotted_path();
                    let mut c1 = String::new();
                    append_joined(&mut c1, env_vars, ", ");
                    let c2: String = "Required variable not set".to_owned();
                    proof {
                        assert(c1@ =~= join_with(env_vars.deep_view(), ", "@));
                        assert(node_rows(errors@[i as int]@, parent_field_path@) =~= seq![
                            (c0@, c1@, c2@),
                        ]);
                    }
                    let ghost pre = self@;
                    self.rows.push((c0, c1, c2));
                    proof {
                        assert(self@ =~= pre.push((c0@, c1@, c2@)));
                    }
                },
                ConfigFieldError::Other { field_name, field_idx, message } => {
                    let field_path = push_segment(&parent_field_path, field_name, *field_idx);
                    let c0 = field_path.dotted_path();
                    let c1: String = "-".to_owned();
                    let c2 = message.clone();
                    proof {
                        assert(node_rows(errors@[i as int]@, parent_field_path@) =~= seq![
                            (c0@, c1@, c2@),
                        ]);
                    }
                    let ghost pre = self@;
                    self.rows.push((c0, c1, c2));
                    proof {
                        assert(self@ =~= pre.push((c0@, c1@, c2@)));
                    }
                },
            }
            proof {
                assert(self@ =~= old(self)@ + tree_rows(
                    error_views(errors@).take(i + 1),
                    parent_field_path@,
                ));
            }
            i = i + 1;
        }
        proof {
            assert(error_views(errors@).take(errors.len() as int) =~= error_views(errors@));
        }
    }

    /// Renders the errors as a table: one row per leaf error, in
    /// declaration order, with dotted paths from the root; with no error
    /// at all, a plain sentence instead.
    pub fn print(&mut self, errors: &Vec<ConfigFieldError>) -> (r: String)
        ensures
            final(self)@ == old(self)@ + tree_rows(
                error_views(errors@),
                Seq::<Seq<char>>::empty(),
            ),
            r@ == table_render(final(self)@),
    {
        let root = FieldPath::root();
        self.collect_errors_as_rows(errors, root);
        if self.rows.len() == 0 {
            return "No configuration errors\n".to_owned();
        }
        format_ascii_table(&self.rows)
    }
}

} // verus!
