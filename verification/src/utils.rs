//! Helpers for the traversal that looks for translation references.

use crate::ast::{CallExpr, Callee, Node};
use vstd::prelude::*;
use vstd::string::*;

verus! {

/// The name of the translation function.
pub open spec fn translate_fn() -> Seq<char> {
    seq!['t']
}

/// Whether `s` consists of the single character `c`.
pub fn is_char(s: &str, c: char) -> (b: bool)
    ensures
        b == (s@ == seq![c]),
{
    let b = s.unicode_len() == 1 && s.get_char(0) == c;
    proof {
        if b {
            assert(s@ =~= seq![c]);
        }
    }
    b
}

/// Whether the call is a call of the function named exactly `t`.
pub fn is_t_expression(call_expr: &CallExpr) -> (b: bool)
    ensures
        b == (call_expr.callee matches Callee::Expr(e) && *e matches Node::Ident(id) && id.sym@
            == translate_fn()),
{
    match &call_expr.callee {
        Callee::Expr(e) => match &**e {
            Node::Ident(id) => is_char(id.sym.as_str(), 't'),
            _ => false,
        },
        _ => false,
    }
}

} // verus!
