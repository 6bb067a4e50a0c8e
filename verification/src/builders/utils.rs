//! Telling translation references from other property accesses.

use crate::ast::{MemberExpr, Node};
use crate::utils::is_char;
use vstd::prelude::*;

verus! {

/// The identifier that roots every translation reference.
pub open spec fn sentinel() -> Seq<char> {
    seq!['l']
}

/// The name of the identifier at the far end of the object side of `m`, if
/// an identifier stands there.
pub open spec fn root_name(m: MemberExpr) -> Option<Seq<char>>
    decreases m,
{
    match *m.obj {
        Node::Member(inner) => root_name(inner),
        Node::Ident(id) => Some(id.sym@),
        Node::Other(_) => None,
    }
}

/// Whether the chain is rooted at the identifier `l`.
pub fn has_child_l(member_expr: &MemberExpr) -> (b: bool)
    ensures
        b == (root_name(*member_expr) == Some(sentinel())),
    decreases *member_expr,
{
    match &*member_expr.obj {
        Node::Member(inner) => has_child_l(inner),
        Node::Ident(id) => is_char(id.sym.as_str(), 'l'),
        Node::Other(_) => false,
    }
}

} // verus!
