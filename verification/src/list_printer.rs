//! The list renderer: one plain-text line per leaf error, with dotted
//! field paths, preceded by a header giving the line count.

use crate::config_error::ConfigFieldError;
use crate::config_error::ErrorNodeView;
use crate::config_error::error_views;
use crate::decimal::decimal_digits;
use crate::decimal::push_decimal;
use crate::field_path::FieldPath;
use crate::field_path::dotted;
use crate::field_path::push_segment;
use crate::field_path::seg_of;
use crate::text::append_joined;
use crate::text::join_with;
use vstd::prelude::*;
use vstd::string::StringExecFns;

verus! {

/// The line for a decode failure.
pub open spec fn parsing_line(
    path: Seq<char>,
    key: Seq<char>,
    message: Seq<char>,
    raw: Seq<char>,
) -> Seq<char> {
    "Parsing error for env var '"@ + key + "' for field '"@ + path + "': "@ + message
        + " (raw value: "@ + raw + ")"@
}

/// The line for a field with no present key, no default and no optional
/// mark; it lists every tried key.
pub open spec fn missing_line(path: Seq<char>, keys: Seq<Seq<char>>) -> Seq<char> {
    "Missing value for field '"@ + path + "', tried env vars: "@ + join_with(keys, ", "@)
}

/// The line for an unreadable value or a custom failure.
pub open spec fn other_line(path: Seq<char>, message: Seq<char>) -> Seq<char> {
    "Missing value for field '"@ + path + "': "@ + message
}

/// The lines of one error node under the given parent path: one line for
/// a leaf, and the lines of the child tree, with the path extended, for a
/// nested node.
pub open spec fn node_lines(e: ErrorNodeView, path: Seq<Seq<char>>) -> Seq<Seq<char>>
    decreases e, 0int,
{
    match e {
        ErrorNodeView::Parsing { idx, name, raw, message, key } => seq![
            parsing_line(dotted(path.push(seg_of(name, idx))), key, message, raw),
        ],
        ErrorNodeView::Missing { idx, name, keys } => seq![
            missing_line(dotted(path.push(seg_of(name, idx))), keys),
        ],
        ErrorNodeView::Other { idx, name, message } => seq![
            other_line(dotted(path.push(seg_of(name, idx))), message),
        ],
        ErrorNodeView::Nested { idx, name, tree } => tree_lines(
            tree,
            path.push(seg_of(name, idx)),
        ),
    }
}

/// The lines of a whole tree under the given parent path, in declaration
/// order.
pub open spec fn tree_lines(t: Seq<ErrorNodeView>, path: Seq<Seq<char>>) -> Seq<Seq<char>>
    decreases t, 1int,
{
    if t.len() == 0 {
        Seq::empty()
    } else {
        tree_lines(t.drop_last(), path) + node_lines(t.last(), path)
    }
}

/// The rendering of a finished line buffer: a header giving the line
/// count, then the lines, each on its own row.
pub open spec fn list_render(buffer: Seq<Seq<char>>) -> Seq<char> {
    "Found "@ + decimal_digits(buffer.len()) + " configuration error(s):"@ + seq!['\n']
        + join_with(buffer, seq!['\n'])
}

/// Renders an error tree as a compact list, one line per leaf error.
#[derive(Debug)]
pub struct ListPrinter {
    buffer: Vec<String>,
}

impl ListPrinter {
    /// The lines gathered so far.
    pub closed spec fn view(&self) -> Seq<Seq<char>> {
        self.buffer.deep_view()
    }

    /// A printer with an empty line buffer.
    pub fn new() -> (r: ListPrinter)
        ensures
            r@ == Seq::<Seq<char>>::empty(),
    {
        let r = ListPrinter { buffer: Vec::new() };
        proof {
            assert(r@ =~= Seq::<Seq<char>>::empty());
        }
        r
    }

    /// Walks the tree in declaration order, appending one line per leaf
    /// error, with dotted paths built from the root downward.
    #[verifier::loop_isolation(false)]
    fn print_errors_as_list(
        &mut self,
        errors: &Vec<ConfigFieldError>,
        parent_field_path: FieldPath,
    )
        ensures
            final(self)@ == old(self)@ + tree_lines(error_views(errors@), parent_field_path@),
        decreases *errors, 1int,
    {
        let mut i: usize = 0;
        proof {
            assert(error_views(errors@).take(0) =~= Seq::<ErrorNodeView>::empty());
            assert(self@ =~= old(self)@ + tree_lines(
                error_views(errors@).take(0),
                parent_field_path@,
            ));
        }
        while i < errors.len()
            invariant
                0 <= i <= errors.len(),
                self@ == old(self)@ + tree_lines(
                    error_views(errors@).take(i as int),
                    parent_field_path@,
                ),
            decreases errors.len() - i,
        {
            proof {
                assert(error_views(errors@).take(i + 1).drop_last() =~= error_views(
                    errors@,
                ).take(i as int));
                assert(error_views(errors@).take(i + 1).last() == errors@[i as int]@);
                assert(tree_lines(error_views(errors@).take(i + 1), parent_field_path@)
                    =~= tree_lines(error_views(errors@).take(i as int), parent_field_path@)
                    + node_lines(errors@[i as int]@, parent_field_path@));
            }
            match &errors[i] {
                ConfigFieldError::Nested { field_name, field_idx, error } => {
                    let field_path = push_segment(&parent_field_path, field_name, *field_idx);
                    proof {
                        assert(error_node_view_tree(errors@[i as int]) =~= error_views(
                            error.field_errors@,
                        ));
                        assert(node_lines(errors@[i as int]@, parent_field_path@) == tree_lines(
                            error_views(error.field_errors@),
                            field_path@,
                        ));
                    }
                    let ghost pre = self@;
                    self.print_errors_as_list(&error.field_errors, field_path);
                    proof {
                        assert(self@ == pre + tree_lines(error_views(error.field_errors@), field_path@));
                    }
                },
                ConfigFieldError::ParsingError { field_name, field_idx, message, env_var_name, raw } => {
                    let field_path = push_segment(&parent_field_path, field_name, *field_idx);
                    let mut line: String = "Parsing error for env var '".to_owned();
                    line.append(env_var_name.as_str());
                    line.append("' for field '");
                    let dp = field_path.dotted_path();
                    line.append(dp.as_str());
                    line.append("': ");
                    line.append(message.as_str());
                    line.append(" (raw value: ");
                    line.append(raw.as_str());
                    line.append(")");
                    proof {
                        assert(line@ =~= parsing_line(
                            dotted(parent_field_path@.push(seg_of(field_name.deep_view(), *field_idx as int))),
                            env_var_name@,
                            message@,
                            raw@,
                        ));
                        assert(node_lines(errors@[i as int]@, parent_field_path@) =~= seq![line@]);
                    }
                    let ghost pre = self@;
                    self.buffer.push(line);
                    proof {
                        assert(self@ =~= pre.push(line@));
                    }
                },
                ConfigFieldError::MissingValue { field_name, field_idx, env_vars } => {
                    let field_path = push_segment(&parent_field_path, field_name, *field_idx);
                    let mut line: String = "Missing value for field '".to_owned();
                    let dp = field_path.dotted_path();
                    line.append(dp.as_str());
                    line.append("', tried env vars: ");
                    append_joined(&mut line, env_vars, ", ");
                    proof {
                        assert(line@ =~= missing_line(
                            dotted(parent_field_path@.push(seg_of(field_name.deep_view(), *field_idx as int))),
                            env_vars.deep_view(),
                        ));
                        assert(node_lines(errors@[i as int]@, parent_field_path@) =~= seq![line@]);
                    }
                    let ghost pre = self@;
                    self.buffer.push(line);
                    proof {
                        assert(self@ =~= pre.push(line@));
                    }
                },
                ConfigFieldError::Other { field_name, field_idx, message } => {
                    let field_path = push_segment(&parent_field_path, field_name, *field_idx);
                    let mut line: String = "Missing value for field '".to_owned();
                    let dp = field_path.dotted_path();
                    line.append(dp.as_str());
                    line.append("': ");
                    line.append(message.as_str());
                    proof {
                        assert(line@ =~= other_line(
                            dotted(parent_field_path@.push(seg_of(field_name.deep_view(), *field_idx as int))),
                            message@,
                        ));
                        assert(node_lines(errors@[i as int]@, parent_field_path@) =~= seq![line@]);
                    }
                    let ghost pre = self@;
                    self.buffer.push(line);
                    proof {
                        assert(self@ =~= pre.push(line@));
                    }
                },
            }
            proof {
                assert(self@ =~= old(self)@ + tree_lines(
                    error_views(errors@).take(i + 1),
                    parent_field_path@,
                ));
            }
            i = i + 1;
        }
        proof {
            assert(error_views(errors@).take(errors.len() as int) =~= error_views(errors@));
        }
    }

    /// Renders the errors as a list: a header giving the number of lines
    /// gathered, then one line per leaf error, in declaration order, with
    /// dotted paths from the root.
    pub fn print(&mut self, errors: &Vec<ConfigFieldError>) -> (r: String)
        ensures
            final(self)@ == old(self)@ + tree_lines(
                error_views(errors@),
                Seq::<Seq<char>>::empty(),
            ),
            r@ == list_render(final(self)@),
    {
        let root = FieldPath::root();
        self.print_errors_as_list(errors, root);
        let mut out: String = "Found ".to_owned();
        push_decimal(&mut out, self.buffer.len());
        out.append(" configuration error(s):");
        out.append("\n");
        append_joined(&mut out, &self.buffer, "\n");
        proof {
            reveal_strlit("\n");
            assert("\n"@ =~= seq!['\n']);
            assert(out@ =~= list_render(self@));
        }
        out
    }
}

/// The child tree of a nested node's model.
pub open spec fn error_node_view_tree(e: ConfigFieldError) -> Seq<ErrorNodeView> {
    match e@ {
        ErrorNodeView::Nested { tree, .. } => tree,
        _ => arbitrary(),
    }
}

} // verus!
