//! Building the literal or template that replaces a translation reference.

use crate::ast::{JSXExpr, MemberExpr, Node, Replacement, Str, Tpl, TplElement};
use crate::builders::serializers::{
    all_static, concatenate_identifiers, eligible, lemma_key_extends, lemma_key_of_pair,
    lemma_segments_well_formed, lemma_short_chain, member_expr, names_of, segments,
    translation_key, ExprWithComputed,
};
use crate::builders::utils::{has_child_l, root_name, sentinel};
use vstd::prelude::*;
use vstd::string::*;

verus! {

/// What is written before the segment at position `i`: nothing before the
/// namespace, `:` before the key, `.` before every later segment.
pub open spec fn separator(i: int) -> Seq<char> {
    if i <= 0 {
        Seq::empty()
    } else if i == 1 {
        seq![':']
    } else {
        seq!['.']
    }
}

/// Some segment is computed.
pub open spec fn any_computed(s: Seq<ExprWithComputed>) -> bool {
    exists|i: int| 0 <= i < s.len() && (#[trigger] s[i]).computed
}

/// The expressions of the computed segments, in order.
pub open spec fn embedded(s: Seq<ExprWithComputed>) -> Seq<Box<Node>>
    decreases s.len(),
{
    if s.len() == 0 {
        Seq::empty()
    } else if s.last().computed {
        embedded(s.drop_last()).push(s.last().expr)
    } else {
        embedded(s.drop_last())
    }
}

/// The literal text gathered since the last computed segment.
pub open spec fn open_fragment(s: Seq<ExprWithComputed>) -> Seq<char>
    decreases s.len(),
{
    if s.len() == 0 || s.last().computed {
        Seq::empty()
    } else {
        open_fragment(s.drop_last()) + separator(s.len() - 1) + s.last().name()
    }
}

/// The literal fragments that a computed segment has closed, in order. Each
/// ends with the separator that stands before the segment closing it.
pub open spec fn closed_fragments(s: Seq<ExprWithComputed>) -> Seq<Seq<char>>
    decreases s.len(),
{
    if s.len() == 0 {
        Seq::empty()
    } else if s.last().computed {
        closed_fragments(s.drop_last()).push(
            open_fragment(s.drop_last()) + separator(s.len() - 1),
        )
    } else {
        closed_fragments(s.drop_last())
    }
}

/// The literal fragments of the template, in order: one before each computed
/// segment, and one after the last.
pub open spec fn fragments(s: Seq<ExprWithComputed>) -> Seq<Seq<char>> {
    closed_fragments(s).push(open_fragment(s))
}

/// How a template reads in source text when its `k`-th expression reads as
/// `holes[k]`: the fragments in order, with `${...}` around each hole between
/// them.
pub open spec fn printed(frags: Seq<Seq<char>>, holes: Seq<Seq<char>>) -> Seq<char>
    decreases holes.len(),
{
    if frags.len() == 0 {
        Seq::empty()
    } else if holes.len() == 0 {
        frags[0]
    } else {
        printed(frags.drop_last(), holes.drop_last()) + seq!['$', '{'] + holes.last() + seq!['}']
            + frags.last()
    }
}

/// The key of a list of segments when its `k`-th computed segment is written
/// as `${holes[k]}`: every segment in order, each after its separator.
pub open spec fn key_with_holes(s: Seq<ExprWithComputed>, holes: Seq<Seq<char>>) -> Seq<char>
    decreases s.len(),
{
    if s.len() == 0 {
        Seq::empty()
    } else if s.last().computed {
        key_with_holes(s.drop_last(), holes.drop_last()) + separator(s.len() - 1) + seq!['$', '{']
            + holes.last() + seq!['}']
    } else {
        key_with_holes(s.drop_last(), holes) + separator(s.len() - 1) + s.last().name()
    }
}

/// Whether fragment `k` is marked as a tail: where the chain ends in a
/// computed segment, the last two fragments are; otherwise none is.
pub open spec fn fragment_tail(s: Seq<ExprWithComputed>, k: int) -> bool {
    s.len() > 0 && s.last().computed && k + 2 >= fragments(s).len()
}

/// `q` is a fragment with the given text, tail mark and position.
pub open spec fn is_fragment(
    q: TplElement,
    text: Seq<char>,
    tail: bool,
    span: swc_common::Span,
) -> bool {
    &&& q.span == span
    &&& q.tail == tail
    &&& q.raw@ == text
    &&& q.cooked matches Some(cooked) && cooked@ == text
}

/// `lit` is the string literal for the segments: its value is their
/// translation key, its raw form the key between double quotes.
pub open spec fn is_literal_of(
    lit: Str,
    s: Seq<ExprWithComputed>,
    span: swc_common::Span,
) -> bool {
    &&& lit.span == span
    &&& lit.value@ == translation_key(names_of(s))
    &&& lit.raw matches Some(raw) && raw@ == seq!['"'] + translation_key(names_of(s)) + seq!['"']
}

/// `tpl` is the template literal for the segments: its expressions are those
/// of the computed segments, its fragments the literal text between them.
pub open spec fn is_template_of(
    tpl: Tpl,
    s: Seq<ExprWithComputed>,
    span: swc_common::Span,
) -> bool {
    &&& tpl.span == span
    &&& tpl.exprs@ == embedded(s)
    &&& tpl.quasis@.len() == fragments(s).len()
    &&& forall|k: int|
        0 <= k < tpl.quasis@.len() ==> is_fragment(
            #[trigger] tpl.quasis@[k],
            fragments(s)[k],
            fragment_tail(s, k),
            span,
        )
}

/// `r` is the replacement for the segments: a template where some segment is
/// computed, a string literal where none is.
pub open spec fn is_replacement_of(
    r: Replacement,
    s: Seq<ExprWithComputed>,
    span: swc_common::Span,
) -> bool {
    if any_computed(s) {
        r matches Replacement::Tpl(tpl) && is_template_of(tpl, s, span)
    } else {
        r matches Replacement::Str(lit) && is_literal_of(lit, s, span)
    }
}

/// There is one closed fragment for each computed segment.
pub proof fn lemma_closed_fragments_len(s: Seq<ExprWithComputed>)
    ensures
        closed_fragments(s).len() == embedded(s).len(),
    decreases s.len(),
{
    if s.len() > 0 {
        lemma_closed_fragments_len(s.drop_last());
    }
}

/// A template has one more literal fragment than it has expressions.
pub proof fn lemma_fragments_alternate(s: Seq<ExprWithComputed>)
    ensures
        fragments(s).len() == embedded(s).len() + 1,
{
    lemma_closed_fragments_len(s);
}

/// A template built for a list of segments has one more literal fragment than
/// it has expressions, whatever the segments are.
pub proof fn lemma_template_alternates(
    tpl: Tpl,
    s: Seq<ExprWithComputed>,
    span: swc_common::Span,
)
    requires
        is_template_of(tpl, s, span),
    ensures
        tpl.quasis@.len() == tpl.exprs@.len() + 1,
{
    lemma_closed_fragments_len(s);
}

/// No segment is dropped: a template embeds one expression for each computed
/// segment, and a list without computed segments embeds none.
pub proof fn lemma_embedded_counts_computed(s: Seq<ExprWithComputed>)
    ensures
        embedded(s).len() == s.filter(|e: ExprWithComputed| e.computed).len(),
        !any_computed(s) <==> embedded(s).len() == 0,
    decreases s.len(),
{
    let computed = |e: ExprWithComputed| e.computed;
    if s.len() == 0 {
        assert(s.filter(computed) =~= Seq::empty()) by {
            reveal(Seq::filter);
        }
    } else {
        let before = s.drop_last();
        lemma_embedded_counts_computed(before);
        assert(s.filter(computed) == if s.last().computed {
            before.filter(computed).push(s.last())
        } else {
            before.filter(computed)
        }) by {
            reveal(Seq::filter);
        }
        if any_computed(s) {
            let i = choose|i: int| 0 <= i < s.len() && (#[trigger] s[i]).computed;
            if i < before.len() {
                assert(before[i].computed);
            }
        }
        if any_computed(before) {
            let i = choose|i: int| 0 <= i < before.len() && (#[trigger] before[i]).computed;
            assert(s[i].computed);
        }
    }
}

proof fn lemma_printed_last_fragment(
    frags: Seq<Seq<char>>,
    holes: Seq<Seq<char>>,
    x: Seq<char>,
    y: Seq<char>,
)
    requires
        frags.len() == holes.len(),
    ensures
        printed(frags.push(x + y), holes) == printed(frags.push(x), holes) + y,
{
    assert(frags.push(x + y).drop_last() =~= frags);
    assert(frags.push(x).drop_last() =~= frags);
    assert(printed(frags.push(x + y), holes) =~= printed(frags.push(x), holes) + y);
}

/// The template spells the key: read as source text, the fragments and
/// expressions of the template are the segments in order, `:` after the first
/// and `.` after each later one, whichever of them are computed.
pub proof fn lemma_template_prints_key(s: Seq<ExprWithComputed>, holes: Seq<Seq<char>>)
    requires
        holes.len() == embedded(s).len(),
    ensures
        printed(fragments(s), holes) == key_with_holes(s, holes),
    decreases s.len(),
{
    lemma_closed_fragments_len(s);
    if s.len() == 0 {
    } else {
        let before = s.drop_last();
        let sep = separator(s.len() - 1);
        lemma_closed_fragments_len(before);
        if s.last().computed {
            let fewer = holes.drop_last();
            lemma_template_prints_key(before, fewer);
            let closed = closed_fragments(before).push(open_fragment(before) + sep);
            assert(fragments(s).drop_last() =~= closed);
            lemma_printed_last_fragment(closed_fragments(before), fewer, open_fragment(before), sep);
            assert(printed(fragments(s), holes) =~= key_with_holes(s, holes));
        } else {
            lemma_template_prints_key(before, holes);
            lemma_printed_last_fragment(
                closed_fragments(before),
                holes,
                open_fragment(before),
                sep + s.last().name(),
            );
            assert(open_fragment(s) =~= open_fragment(before) + (sep + s.last().name()));
            assert(printed(fragments(s), holes) =~= key_with_holes(s, holes));
        }
    }
}

/// Where no segment is computed, the key written with holes is the
/// translation key.
pub proof fn lemma_static_key_has_no_holes(s: Seq<ExprWithComputed>)
    requires
        all_static(s),
        s.len() >= 2,
    ensures
        key_with_holes(s, Seq::empty()) == translation_key(names_of(s)),
{
    lemma_static_fragments_are_key(s);
    lemma_embedded_counts_computed(s);
    assert(!any_computed(s)) by {
        if any_computed(s) {
            let i = choose|i: int| 0 <= i < s.len() && (#[trigger] s[i]).computed;
            assert(s[i].is_static());
        }
    }
    lemma_template_prints_key(s, Seq::empty());
}

/// Where every segment is a name, the template grammar and the key grammar
/// agree: the one literal fragment is the translation key.
pub proof fn lemma_static_fragments_are_key(s: Seq<ExprWithComputed>)
    requires
        all_static(s),
        s.len() >= 2,
    ensures
        fragments(s) == seq![translation_key(names_of(s))],
{
    lemma_static_open_fragment(s);
    assert(fragments(s) =~= seq![translation_key(names_of(s))]);
}

proof fn lemma_static_open_fragment(s: Seq<ExprWithComputed>)
    requires
        all_static(s),
        s.len() >= 1,
    ensures
        closed_fragments(s).len() == 0,
        s.len() == 1 ==> open_fragment(s) == names_of(s)[0],
        s.len() >= 2 ==> open_fragment(s) == translation_key(names_of(s)),
    decreases s.len(),
{
    let names = names_of(s);
    let before = s.drop_last();
    lemma_static_prefix(s);
    assert(names.drop_last() =~= names_of(before));
    assert(names.last() == s.last().name());
    if s.len() == 1 {
        assert(open_fragment(before) =~= Seq::empty());
        assert(closed_fragments(before) =~= Seq::empty());
        assert(open_fragment(s) =~= names[0]);
    } else {
        lemma_static_open_fragment(before);
        if s.len() == 2 {
            assert(names =~= seq![names[0], names[1]]);
            lemma_key_of_pair(names[0], names[1]);
        } else {
            lemma_key_extends(names);
        }
    }
}

proof fn lemma_static_prefix(s: Seq<ExprWithComputed>)
    requires
        all_static(s),
        s.len() > 0,
    ensures
        all_static(s.drop_last()),
        !s.last().computed,
{
    assert(s.last() == s[s.len() - 1]);
    assert forall|i: int| 0 <= i < s.drop_last().len() implies (#[trigger] s.drop_last()[
        i
    ]).is_static() by {
        assert(s[i].is_static());
    }
}

/// A chain that is not rooted at the identifier `l` is not rewritten,
/// however long it is.
pub proof fn lemma_root_gating(m: MemberExpr)
    requires
        root_name(m) != Some(sentinel()),
    ensures
        !eligible(m),
{
}

/// A chain of the root and one property only, such as `l.common`, is not
/// rewritten.
pub proof fn lemma_minimum_length(m: MemberExpr)
    requires
        !(*m.obj is Member),
    ensures
        !eligible(m),
{
    lemma_short_chain(m);
}

/// Every node of a replacement carries the position it was built for.
pub proof fn lemma_position_propagates(
    r: Replacement,
    s: Seq<ExprWithComputed>,
    span: swc_common::Span,
)
    requires
        is_replacement_of(r, s, span),
    ensures
        match r {
            Replacement::Str(lit) => lit.span == span,
            Replacement::Tpl(tpl) => tpl.span == span && forall|k: int|
                0 <= k < tpl.quasis@.len() ==> (#[trigger] tpl.quasis@[k]).span == span,
        },
{
}

/// The string literal for a list of names.
pub fn expr_lit(identifiers: Vec<ExprWithComputed>, span: swc_common::Span) -> (r: Replacement)
    requires
        all_static(identifiers@),
    ensures
        r matches Replacement::Str(lit) && is_literal_of(lit, identifiers@, span),
{
    let value = concatenate_identifiers(identifiers);
    proof {
        reveal_strlit("\"");
        assert("\""@ =~= seq!['"']);
    }
    let mut raw = String::from_str("\"");
    raw.append(value.as_str());
    raw.append("\"");
    Replacement::Str(Str { span, value, raw: Some(raw) })
}

/// The template literal for a list of segments.
pub fn expr_tpl(identifiers: Vec<ExprWithComputed>, span: swc_common::Span) -> (r: Replacement)
    ensures
        r matches Replacement::Tpl(tpl) && is_template_of(tpl, identifiers@, span)
            && tpl.quasis@.len() == tpl.exprs@.len() + 1,
{
    let ghost s = identifiers@;
    let n = identifiers.len();
    let mut quasis: Vec<TplElement> = Vec::new();
    let mut quasis_group: String = String::new();
    let mut exprs: Vec<Box<Node>> = Vec::new();
    let mut i: usize = 0;
    proof {
        reveal_strlit(":");
        reveal_strlit(".");
        assert(":"@ =~= seq![':']);
        assert("."@ =~= seq!['.']);
    }
    while i < n
        invariant
            s == identifiers@,
            i <= n == s.len(),
            ":"@ == seq![':'],
            "."@ == seq!['.'],
            quasis_group@ == open_fragment(s.take(i as int)),
            exprs@ == embedded(s.take(i as int)),
            quasis@.len() == closed_fragments(s.take(i as int)).len(),
            forall|k: int|
                0 <= k < quasis@.len() ==> is_fragment(
                    #[trigger] quasis@[k],
                    closed_fragments(s.take(i as int))[k],
                    i == n && s.last().computed && k + 1 == quasis@.len(),
                    span,
                ),
        decreases n - i,
    {
        let ghost before = s.take(i as int);
        let ghost after = s.take(i + 1);
        assert(after.drop_last() =~= before);
        assert(after.last() == s[i as int]);
        let ci = &identifiers[i];
        if i == 1 {
            quasis_group.append(":");
        } else if i >= 2 {
            quasis_group.append(".");
        }
        assert(quasis_group@ =~= open_fragment(before) + separator(i as int));
        if ci.computed {
            quasis.push(
                TplElement {
                    span,
                    tail: i == n - 1,
                    cooked: Some(quasis_group.clone()),
                    raw: quasis_group,
                },
            );
            quasis_group = String::new();
            exprs.push(Box::new((*ci.expr).clone()));
        } else {
            match &*ci.expr {
                Node::Ident(id) => {
                    quasis_group.append(id.sym.as_str());
                },
                _ => {},
            }
            assert(quasis_group@ =~= open_fragment(after));
        }
        i = i + 1;
    }
    assert(s.take(n as int) =~= s);
    let last_computed = n > 0 && identifiers[n - 1].computed;
    quasis.push(
        TplElement {
            span,
            tail: last_computed,
            cooked: Some(quasis_group.clone()),
            raw: quasis_group,
        },
    );
    proof {
        lemma_closed_fragments_len(s);
    }
    Replacement::Tpl(Tpl { span, exprs, quasis })
}

/// Whether some segment of the list is computed.
pub fn has_computed(identifiers: &Vec<ExprWithComputed>) -> (b: bool)
    ensures
        b == any_computed(identifiers@),
{
    let mut i: usize = 0;
    while i < identifiers.len()
        invariant
            i <= identifiers.len(),
            forall|k: int| 0 <= k < i ==> !(#[trigger] identifiers@[k]).computed,
        decreases identifiers.len() - i,
    {
        if identifiers[i].computed {
            return true;
        }
        i = i + 1;
    }
    false
}

/// The expression that replaces the chain `member`, stamped with `span`, or
/// `None` where the chain is no translation reference and stays as it is.
pub fn box_expr(member: &MemberExpr, span: swc_common::Span) -> (r: Option<Box<Replacement>>)
    ensures
        r is Some <==> eligible(*member),
        r matches Some(b) ==> is_replacement_of(*b, segments(*member), span),
{
    if !has_child_l(member) {
        return None;
    }
    let mut collected: Vec<ExprWithComputed> = Vec::new();
    let identifiers = member_expr(member, &mut collected);
    if identifiers.is_empty() {
        return None;
    }
    assert(identifiers@ =~= segments(*member));
    if has_computed(&identifiers) {
        let template_expr = expr_tpl(identifiers, span);
        return Some(Box::new(template_expr));
    }
    proof {
        lemma_segments_well_formed(*member);
        assert(all_static(identifiers@));
    }
    let expr = expr_lit(identifiers, span);
    Some(Box::new(expr))
}

/// The replacement for `member` as the content of a JSX expression
/// container, or `None` where the chain stays as it is.
pub fn jsx_expr(member: &MemberExpr, span: swc_common::Span) -> (r: Option<JSXExpr>)
    ensures
        r is Some <==> eligible(*member),
        r matches Some(j) ==> j matches JSXExpr::Expr(b) && is_replacement_of(
            *b,
            segments(*member),
            span,
        ),
{
    match box_expr(member, span) {
        None => None,
        Some(expr) => Some(JSXExpr::Expr(expr)),
    }
}

} // verus!
