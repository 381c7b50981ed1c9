//! The error tree produced by a failed resolution pass: one node per failing
//! field, in declaration order, mirroring the shape of the schema.

use crate::error_print_mode::ErrorPrintMode;
use crate::list_printer::ListPrinter;
use crate::list_printer::list_render;
use crate::list_printer::tree_lines;
use crate::table_printer::TablePrinter;
use crate::table_printer::table_render;
use crate::table_printer::tree_rows;
use vstd::prelude::*;

verus! {

/// Mathematical model of one error node.
///
/// Field identities are carried as the declared name (when there is one)
/// together with the positional index of the field in its record.
#[verifier::ext_equal]
pub enum ErrorNodeView {
    /// A candidate key was present but its value did not decode.
    Parsing {
        idx: int,
        name: Option<Seq<char>>,
        raw: Seq<char>,
        message: Seq<char>,
        key: Seq<char>,
    },
    /// No candidate key was present, no default was declared and the field
    /// is not optional; `keys` lists every candidate key that was tried.
    Missing { idx: int, name: Option<Seq<char>>, keys: Seq<Seq<char>> },
    /// A candidate key was present but its value could not be read as text,
    /// or a custom failure.
    Other { idx: int, name: Option<Seq<char>>, message: Seq<char> },
    /// A nested sub-record failed; its complete error tree is kept,
    /// never flattened into the parent's list.
    Nested { idx: int, name: Option<Seq<char>>, tree: Seq<ErrorNodeView> },
}

/// An error for one configuration field.
///
/// Each variant carries the failing field's identity: its declared name, when
/// it has one, and its positional index in the record.
#[derive(Debug)]
pub enum ConfigFieldError {
    /// A key was found but its raw value failed to decode.
    ParsingError {
        /// The index of the field in the record.
        field_idx: usize,
        /// The declared name of the field, if any.
        field_name: Option<String>,
        /// The raw string value that failed to decode.
        raw: String,
        /// The decoder's message describing the failure.
        message: String,
        /// The name of the key whose value was read.
        env_var_name: String,
    },
    /// No candidate key was found, and the field has no default and is not
    /// optional.
    MissingValue {
        /// The declared name of the field, if any.
        field_name: Option<String>,
        /// The index of the field in the record.
        field_idx: usize,
        /// Every candidate key that was tried, in fallback order.
        env_vars: Vec<String>,
    },
    /// A key was found but could not be read as text, or a custom failure.
    Other {
        /// The index of the field in the record.
        field_idx: usize,
        /// The declared name of the field, if any.
        field_name: Option<String>,
        /// A message describing the failure.
        message: String,
    },
    /// A nested sub-record failed; its whole error tree is wrapped here.
    Nested {
        /// The index of the field in the record.
        field_idx: usize,
        /// The declared name of the field, if any.
        field_name: Option<String>,
        /// The complete error tree of the nested record.
        error: ConfigError,
    },
}

/// The error tree of one failed resolution pass.
///
/// Holds one [`ConfigFieldError`] per failing field, in declaration order;
/// successful fields are not represented.
#[derive(Debug)]
pub struct ConfigError {
    /// One error node per failing field, in declaration order.
    pub field_errors: Vec<ConfigFieldError>,
}

/// The model of one error node.
pub open spec fn error_node_view(e: ConfigFieldError) -> ErrorNodeView
    decreases e,
{
    match e {
        ConfigFieldError::ParsingError { field_idx, field_name, raw, message, env_var_name } => {
            ErrorNodeView::Parsing {
                idx: field_idx as int,
                name: field_name.deep_view(),
                raw: raw@,
                message: message@,
                key: env_var_name@,
            }
        },
        ConfigFieldError::MissingValue { field_name, field_idx, env_vars } => {
            ErrorNodeView::Missing {
                idx: field_idx as int,
                name: field_name.deep_view(),
                keys: env_vars.deep_view(),
            }
        },
        ConfigFieldError::Other { field_idx, field_name, message } => {
            ErrorNodeView::Other {
                idx: field_idx as int,
                name: field_name.deep_view(),
                message: message@,
            }
        },
        ConfigFieldError::Nested { field_idx, field_name, error } => {
            ErrorNodeView::Nested {
                idx: field_idx as int,
                name: field_name.deep_view(),
                tree: Seq::new(
                    error.field_errors.len() as nat,
                    |i: int|
                        if 0 <= i < error.field_errors.len() {
                            error_node_view(error.field_errors[i])
                        } else {
                            arbitrary()
                        },
                ),
            }
        },
    }
}

/// The model of an error tree: the ordered sequence of its node models.
pub open spec fn error_tree_view(e: ConfigError) -> Seq<ErrorNodeView> {
    Seq::new(e.field_errors.len() as nat, |i: int| error_node_view(e.field_errors[i]))
}

/// The models of a sequence of error nodes.
pub open spec fn error_views(es: Seq<ConfigFieldError>) -> Seq<ErrorNodeView> {
    Seq::new(es.len(), |i: int| error_node_view(es[i]))
}

/// An error tree's model is the sequence of its nodes' models.
pub proof fn lemma_error_tree_view(e: ConfigError)
    ensures
        error_tree_view(e) == error_views(e.field_errors@),
{
    assert(error_tree_view(e) =~= error_views(e.field_errors@));
}

/// A nested node's model wraps the child tree's model, unflattened.
pub proof fn lemma_nested_node_view(field_idx: usize, field_name: Option<String>, error: ConfigError)
    ensures
        error_node_view(ConfigFieldError::Nested { field_idx, field_name, error })
            == (ErrorNodeView::Nested {
            idx: field_idx as int,
            name: field_name.deep_view(),
            tree: error_tree_view(error),
        }),
{
    let a = error_node_view(ConfigFieldError::Nested { field_idx, field_name, error });
    assert(a->tree =~= error_tree_view(error));
    assert(a =~~= ErrorNodeView::Nested {
        idx: field_idx as int,
        name: field_name.deep_view(),
        tree: error_tree_view(error),
    });
}

impl ConfigError {
    /// Formats the error tree in a human-readable form: as a compact list
    /// with a count header, or as a box-drawn table, both walking the
    /// tree in declaration order with dotted field paths from the root.
    pub fn pretty_print(&self, mode: ErrorPrintMode) -> (r: String)
        ensures
            mode is List ==> r@ == list_render(
                tree_lines(self@, Seq::<Seq<char>>::empty()),
            ),
            mode is Table ==> r@ == table_render(
                tree_rows(self@, Seq::<Seq<char>>::empty()),
            ),
    {
        proof {
            lemma_error_tree_view(*self);
        }
        match mode {
            ErrorPrintMode::List => {
                let mut printer = ListPrinter::new();
                printer.print(&self.field_errors)
            },
            ErrorPrintMode::Table => {
                let mut printer = TablePrinter::new();
                printer.print(&self.field_errors)
            },
        }
    }
}

/// Copies one error node; the copy has the same model.
#[verifier::loop_isolation(false)]
pub fn clone_error_node(e: &ConfigFieldError) -> (r: ConfigFieldError)
    ensures
        r@ == e@,
    decreases *e, 1int,
{
    match e {
        ConfigFieldError::ParsingError { field_idx, field_name, raw, message, env_var_name } => {
            ConfigFieldError::ParsingError {
                field_idx: *field_idx,
                field_name: clone_field_name(field_name),
                raw: raw.clone(),
                message: message.clone(),
                env_var_name: env_var_name.clone(),
            }
        },
        ConfigFieldError::MissingValue { field_name, field_idx, env_vars } => {
            let mut keys: Vec<String> = Vec::new();
            let mut i: usize = 0;
            while i < env_vars.len()
                invariant
                    0 <= i <= env_vars.len(),
                    keys@.len() == i as int,
                    forall|j: int| 0 <= j < i as int ==> keys@[j]@ == env_vars@[j]@,
                decreases env_vars.len() - i,
            {
                keys.push(env_vars[i].clone());
                i = i + 1;
            }
            let r = ConfigFieldError::MissingValue {
                field_name: clone_field_name(field_name),
                field_idx: *field_idx,
                env_vars: keys,
            };
            proof {
                assert(r@->keys =~= e@->keys);
                assert(r@ =~~= e@);
            }
            r
        },
        ConfigFieldError::Other { field_idx, field_name, message } => {
            ConfigFieldError::Other {
                field_idx: *field_idx,
                field_name: clone_field_name(field_name),
                message: message.clone(),
            }
        },
        ConfigFieldError::Nested { field_idx, field_name, error } => {
            let mut nodes: Vec<ConfigFieldError> = Vec::new();
            let mut i: usize = 0;
            while i < error.field_errors.len()
                invariant
                    0 <= i <= error.field_errors.len(),
                    nodes@.len() == i as int,
                    forall|j: int| 0 <= j < i as int ==> nodes@[j]@ == error.field_errors@[j]@,
                decreases error.field_errors.len() - i,
            {
                nodes.push(clone_error_node(&error.field_errors[i]));
                i = i + 1;
            }
            let r = ConfigFieldError::Nested {
                field_idx: *field_idx,
                field_name: clone_field_name(field_name),
                error: ConfigError { field_errors: nodes },
            };
            proof {
                assert(r@->tree =~= e@->tree);
                assert(r@ =~~= e@);
            }
            r
        },
    }
}

/// Copies an optional field name; the copy has the same model.
fn clone_field_name(n: &Option<String>) -> (r: Option<String>)
    ensures
        r.deep_view() == n.deep_view(),
{
    match n {
        Some(s) => Some(s.clone()),
        None => None,
    }
}

impl Clone for ConfigFieldError {
    /// Copies the node; the copy has the same model.
    fn clone(&self) -> (r: ConfigFieldError)
        ensures
            r@ == self@,
    {
        clone_error_node(self)
    }
}

impl Clone for ConfigError {
    /// Copies the tree; the copy has the same model.
    #[verifier::loop_isolation(false)]
    fn clone(&self) -> (r: ConfigError)
        ensures
            r@ == self@,
    {
        let mut nodes: Vec<ConfigFieldError> = Vec::new();
        let mut i: usize = 0;
        while i < self.field_errors.len()
            invariant
                0 <= i <= self.field_errors.len(),
                nodes@.len() == i as int,
                forall|j: int| 0 <= j < i as int ==> nodes@[j]@ == self.field_errors@[j]@,
            decreases self.field_errors.len() - i,
        {
            nodes.push(clone_error_node(&self.field_errors[i]));
            i = i + 1;
        }
        let r = ConfigError { field_errors: nodes };
        proof {
            assert(r@ =~= self@);
        }
        r
    }
}

impl View for ConfigFieldError {
    type V = ErrorNodeView;

    open spec fn view(&self) -> ErrorNodeView {
        error_node_view(*self)
    }
}

impl View for ConfigError {
    type V = Seq<ErrorNodeView>;

    open spec fn view(&self) -> Seq<ErrorNodeView> {
        error_tree_view(*self)
    }
}

} // verus!
