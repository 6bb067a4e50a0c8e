//! Flattening a property-access chain into segments, and joining segment
//! names into a translation key.

use crate::ast::{Ident, MemberExpr, MemberProp, Node};
use crate::builders::utils::{has_child_l, root_name, sentinel};
use vstd::prelude::*;
use vstd::slice::slice_subrange;
use vstd::string::*;

verus! {

/// One step of a flattened chain. A segment that is not `computed` is a name
/// and holds an identifier; a `computed` one holds the bracketed expression,
/// whatever it is.
#[derive(Debug, PartialEq, Eq)]
pub struct ExprWithComputed {
    pub expr: Box<Node>,
    pub computed: bool,
}

impl ExprWithComputed {
    /// A segment that is a name holds an identifier.
    pub open spec fn well_formed(self) -> bool {
        !self.computed ==> *self.expr is Ident
    }

    /// The segment is a name, known when the chain is rewritten.
    pub open spec fn is_static(self) -> bool {
        !self.computed && *self.expr is Ident
    }

    /// The name the segment contributes to the key; empty where it holds no
    /// identifier.
    pub open spec fn name(self) -> Seq<char> {
        match *self.expr {
            Node::Ident(id) => id.sym@,
            _ => Seq::empty(),
        }
    }
}

impl Clone for ExprWithComputed {
    /// A copy of the segment, equal to it in every part.
    fn clone(&self) -> (r: Self)
        ensures
            r == *self,
    {
        ExprWithComputed { expr: Box::new((*self.expr).clone()), computed: self.computed }
    }
}

/// The segment that one property contributes: a name for `.b`, the bracketed
/// expression for `[b]`, nothing for a private name.
pub open spec fn prop_segments(prop: MemberProp) -> Seq<ExprWithComputed> {
    match prop {
        MemberProp::Ident(name) => seq![
            ExprWithComputed {
                expr: Box::new(Node::Ident(Ident { span: name.span, sym: name.sym })),
                computed: false,
            },
        ],
        MemberProp::Computed(c) => seq![ExprWithComputed { expr: c.expr, computed: true }],
        MemberProp::PrivateName(_) => Seq::empty(),
    }
}

/// The segments of a chain, outermost namespace first. The root of the chain
/// is no segment.
pub open spec fn segments(m: MemberExpr) -> Seq<ExprWithComputed>
    decreases m,
{
    let earlier = match *m.obj {
        Node::Member(inner) => segments(inner),
        _ => Seq::empty(),
    };
    earlier + prop_segments(m.prop)
}

/// A chain is a translation reference if and only if it is rooted at `l` and
/// has at least two segments, a namespace and a key.
pub open spec fn eligible(m: MemberExpr) -> bool {
    root_name(m) == Some(sentinel()) && segments(m).len() >= 2
}

/// What a chain is flattened to: its segments where it is a translation
/// reference, nothing where it is not.
pub open spec fn linearized(m: MemberExpr) -> Seq<ExprWithComputed> {
    if eligible(m) {
        segments(m)
    } else {
        Seq::empty()
    }
}

/// Every segment is well formed.
pub open spec fn all_well_formed(s: Seq<ExprWithComputed>) -> bool {
    forall|i: int| 0 <= i < s.len() ==> (#[trigger] s[i]).well_formed()
}

/// Every segment is a name.
pub open spec fn all_static(s: Seq<ExprWithComputed>) -> bool {
    forall|i: int| 0 <= i < s.len() ==> (#[trigger] s[i]).is_static()
}

/// The names of the segments, in order.
pub open spec fn names_of(s: Seq<ExprWithComputed>) -> Seq<Seq<char>> {
    Seq::new(s.len(), |i: int| s[i].name())
}

/// The names with `delimiter` between each two neighbours.
pub open spec fn joined(names: Seq<Seq<char>>, delimiter: Seq<char>) -> Seq<char>
    decreases names.len(),
{
    if names.len() == 0 {
        Seq::empty()
    } else if names.len() == 1 {
        names[0]
    } else {
        joined(names.drop_last(), delimiter) + delimiter + names.last()
    }
}

/// The translation key of a list of names: the first two joined by `:`, the
/// rest appended with `.` before each. Fewer than two names have no key, and
/// the result is empty.
pub open spec fn translation_key(names: Seq<Seq<char>>) -> Seq<char> {
    if names.len() < 2 {
        Seq::empty()
    } else if names.len() == 2 {
        joined(names.take(2), seq![':'])
    } else {
        joined(names.take(2), seq![':']) + seq!['.'] + joined(names.skip(2), seq!['.'])
    }
}

/// The segments of a chain are well formed.
pub proof fn lemma_segments_well_formed(m: MemberExpr)
    ensures
        all_well_formed(segments(m)),
    decreases m,
{
    match *m.obj {
        Node::Member(inner) => lemma_segments_well_formed(inner),
        _ => {},
    }
}

/// A chain whose object side is no property access has at most one segment.
pub proof fn lemma_short_chain(m: MemberExpr)
    requires
        !(*m.obj is Member),
    ensures
        segments(m).len() <= 1,
{
}

/// Each further property access adds its own segment after those of the
/// chain below it, and changes none of them.
pub proof fn lemma_segments_extend(m: MemberExpr, inner: MemberExpr)
    requires
        *m.obj == Node::Member(inner),
    ensures
        segments(m) == segments(inner) + prop_segments(m.prop),
        segments(inner).is_prefix_of(segments(m)),
{
}

/// The key of two names is the two joined by `:`.
pub proof fn lemma_key_of_pair(namespace: Seq<char>, key: Seq<char>)
    ensures
        translation_key(seq![namespace, key]) == namespace + seq![':'] + key,
{
    let names = seq![namespace, key];
    assert(names.take(2) =~= names);
    assert(names.drop_last() =~= seq![namespace]);
    reveal_with_fuel(joined, 3);
}

/// The key of more than two names is the key of all but the last, then `.`
/// and the last.
pub proof fn lemma_key_extends(names: Seq<Seq<char>>)
    requires
        names.len() > 2,
    ensures
        translation_key(names) == translation_key(names.drop_last()) + seq!['.'] + names.last(),
{
    let shorter = names.drop_last();
    assert(shorter.take(2) =~= names.take(2));
    let rest = names.skip(2);
    assert(rest.last() == names.last());
    assert(rest.drop_last() =~= shorter.skip(2));
    if names.len() == 3 {
        assert(rest.len() == 1);
        assert(translation_key(names) =~= translation_key(shorter) + seq!['.'] + names.last());
    } else {
        assert(joined(rest, seq!['.']) == joined(rest.drop_last(), seq!['.']) + seq!['.']
            + rest.last());
        assert(translation_key(names) =~= translation_key(shorter) + seq!['.'] + names.last());
    }
}

fn collect_segments(member: &MemberExpr, exprs: &mut Vec<ExprWithComputed>)
    ensures
        final(exprs)@ == old(exprs)@ + segments(*member),
    decreases *member,
{
    match &*member.obj {
        Node::Member(inner) => {
            collect_segments(inner, exprs);
        },
        _ => {},
    }
    match &member.prop {
        MemberProp::Ident(name) => {
            exprs.push(
                ExprWithComputed {
                    expr: Box::new(Node::Ident(Ident { span: name.span, sym: name.sym.clone() })),
                    computed: false,
                },
            );
        },
        MemberProp::Computed(c) => {
            exprs.push(ExprWithComputed { expr: Box::new((*c.expr).clone()), computed: true });
        },
        MemberProp::PrivateName(_) => {},
    }
    assert(exprs@ =~= old(exprs)@ + segments(*member));
}

/// A copy of the list, segment by segment.
pub fn copy_segments(v: &Vec<ExprWithComputed>) -> (r: Vec<ExprWithComputed>)
    ensures
        r@ == v@,
{
    let mut out: Vec<ExprWithComputed> = Vec::new();
    let mut i: usize = 0;
    while i < v.len()
        invariant
            i <= v.len(),
            out@ == v@.subrange(0, i as int),
        decreases v.len() - i,
    {
        out.push(v[i].clone());
        assert(out@ == v@.subrange(0, i + 1));
        i = i + 1;
    }
    assert(v@.subrange(0, v.len() as int) == v@);
    out
}

/// Flattens the chain `member`: where it is a translation reference, its
/// segments are appended to `exprs`, outermost namespace first; where it is
/// not, `exprs` stays as it is. Returns a copy of the whole list.
pub fn member_expr(member: &MemberExpr, exprs: &mut Vec<ExprWithComputed>) -> (r: Vec<
    ExprWithComputed,
>)
    ensures
        final(exprs)@ == old(exprs)@ + linearized(*member),
        r@ == final(exprs)@,
{
    if has_child_l(member) {
        let mut found: Vec<ExprWithComputed> = Vec::new();
        collect_segments(member, &mut found);
        assert(found@ =~= segments(*member));
        if found.len() >= 2 {
            exprs.append(&mut found);
        }
    }
    assert(exprs@ =~= old(exprs)@ + linearized(*member));
    copy_segments(exprs)
}

/// Joins the names of the segments with `delimiter` between each two
/// neighbours. Every segment holds an identifier.
pub fn join_identifiers(exprs: &[ExprWithComputed], delimiter: &str) -> (r: String)
    requires
        forall|i: int| 0 <= i < exprs@.len() ==> *(#[trigger] exprs@[i]).expr is Ident,
    ensures
        r@ == joined(names_of(exprs@), delimiter@),
{
    let mut out = String::new();
    let mut i: usize = 0;
    while i < exprs.len()
        invariant
            i <= exprs@.len(),
            out@ == joined(names_of(exprs@.take(i as int)), delimiter@),
        decreases exprs@.len() - i,
    {
        let ghost before = names_of(exprs@.take(i as int));
        let ghost after = names_of(exprs@.take(i + 1));
        assert(after.drop_last() =~= before);
        assert(after.last() == exprs@[i as int].name());
        if i > 0 {
            out.append(delimiter);
        }
        match &*exprs[i].expr {
            Node::Ident(id) => {
                out.append(id.sym.as_str());
            },
            _ => {},
        }
        assert(out@ =~= joined(after, delimiter@));
        i = i + 1;
    }
    assert(exprs@.take(exprs@.len() as int) =~= exprs@);
    out
}

/// The translation key of a list of names: `namespace:key`, then `.more` for
/// every further name. A list of fewer than two names has no key, and the
/// result is empty.
pub fn concatenate_identifiers(identifiers: Vec<ExprWithComputed>) -> (r: String)
    requires
        all_static(identifiers@),
    ensures
        r@ == translation_key(names_of(identifiers@)),
{
    let n = identifiers.len();
    let ghost names = names_of(identifiers@);
    if n >= 2 {
        let namespace_group = slice_subrange(identifiers.as_slice(), 0, 2);
        let properties = slice_subrange(identifiers.as_slice(), 2, n);
        proof {
            reveal_strlit(":");
            reveal_strlit(".");
            assert(":"@ =~= seq![':']);
            assert("."@ =~= seq!['.']);
            assert(names_of(namespace_group@) =~= names.take(2));
            assert(names_of(properties@) =~= names.skip(2));
        }
        let mut key = join_identifiers(namespace_group, ":");
        if !properties.is_empty() {
            key.append(".");
            key.append(join_identifiers(properties, ".").as_str());
        }
        key
    } else {
        String::new()
    }
}

} // verus!
