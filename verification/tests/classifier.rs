use swc_common::{BytePos, Span, DUMMY_SP};
use translation_converter::ast::{
    CallExpr, Callee, ComputedPropName, Ident, IdentName, MemberExpr, MemberProp, Node, PrivateName,
};
use translation_converter::builders::utils::has_child_l;
use translation_converter::utils::{is_char, is_t_expression};

fn ident(sym: &str, span: Span) -> Node {
    Node::Ident(Ident { span, sym: sym.to_string() })
}

fn name(sym: &str, span: Span) -> MemberProp {
    MemberProp::Ident(IdentName { span, sym: sym.to_string() })
}

fn host_number(value: f64) -> Box<swc_ecma_ast::Expr> {
    Box::new(swc_ecma_ast::Expr::Lit(swc_ecma_ast::Lit::Num(swc_ecma_ast::Number {
        span: DUMMY_SP,
        value,
        raw: None,
    })))
}

#[test]
fn returns_true_when_starts_with_l() {
    // l.common
    let span = Span::new(BytePos(0), BytePos(0));
    let translation_namespace = name("common", span);

    let translation_member_expr =
        MemberExpr { obj: Box::new(ident("l", span)), prop: translation_namespace, span };

    assert_eq!(has_child_l(&translation_member_expr), true);
}

#[test]
fn returns_false_when_does_not_contain_l() {
    // data.currentPatient
    let span = Span::new(BytePos(0), BytePos(0));
    let current_patient_ident = name("currentPatient", span);

    let data_member_expr =
        MemberExpr { obj: Box::new(ident("data", span)), prop: current_patient_ident, span };

    assert_eq!(has_child_l(&data_member_expr), false);
}

#[test]
fn returns_false_when_it_does_not_start_with_l() {
    // common.l.foobar
    let span = Span::new(BytePos(0), BytePos(0));
    let foobar_ident = name("foobar", span);
    let l_ident = name("l", span);
    let common_ident = ident("common", span);

    let nested_member_expr = MemberExpr { obj: Box::new(common_ident), prop: l_ident, span };

    let member_expr =
        MemberExpr { obj: Box::new(Node::Member(nested_member_expr)), prop: foobar_ident, span };

    assert_eq!(has_child_l(&member_expr), false);
}

#[test]
fn returns_true_when_expression_name_is_t() {
    // t()
    let span = Span::new(BytePos(0), BytePos(0));
    let t_ident = ident("t", span);

    let t_expr = CallExpr { callee: Callee::Expr(Box::new(t_ident)), span };

    assert_eq!(is_t_expression(&t_expr), true);
}

#[test]
fn returns_false_when_expression_name_is_not_t() {
    // notT()
    let span = Span::new(BytePos(0), BytePos(0));
    let not_t_ident = ident("notT", span);

    let not_t_expr = CallExpr { callee: Callee::Expr(Box::new(not_t_ident)), span };

    assert_eq!(is_t_expression(&not_t_expr), false);
}

#[test]
fn finds_l_below_any_number_of_properties() {
    // l.clerk.one.two.three.four
    let mut chain = MemberExpr { obj: Box::new(ident("l", DUMMY_SP)), prop: name("clerk", DUMMY_SP), span: DUMMY_SP };
    for key in ["one", "two", "three", "four"] {
        chain = MemberExpr { obj: Box::new(Node::Member(chain)), prop: name(key, DUMMY_SP), span: DUMMY_SP };
        assert!(has_child_l(&chain));
    }
}

#[test]
fn finds_l_below_computed_and_private_properties() {
    // l[0].#secret
    let computed = MemberExpr {
        obj: Box::new(ident("l", DUMMY_SP)),
        prop: MemberProp::Computed(ComputedPropName {
            span: DUMMY_SP,
            expr: Box::new(Node::Other(host_number(0.0))),
        }),
        span: DUMMY_SP,
    };
    let private = MemberExpr {
        obj: Box::new(Node::Member(computed)),
        prop: MemberProp::PrivateName(PrivateName { span: DUMMY_SP, name: "secret".to_string() }),
        span: DUMMY_SP,
    };
    assert!(has_child_l(&private));
}

#[test]
fn the_sentinel_is_matched_exactly() {
    for root in ["L", "ll", "", "l ", "t", "I"] {
        let chain = MemberExpr {
            obj: Box::new(ident(root, DUMMY_SP)),
            prop: name("common", DUMMY_SP),
            span: DUMMY_SP,
        };
        assert!(!has_child_l(&chain), "root {:?}", root);
    }
}

#[test]
fn a_root_that_is_no_identifier_is_not_l() {
    // (1).l.common
    let inner = MemberExpr {
        obj: Box::new(Node::Other(host_number(1.0))),
        prop: name("l", DUMMY_SP),
        span: DUMMY_SP,
    };
    assert!(!has_child_l(&inner));
    let outer = MemberExpr {
        obj: Box::new(Node::Member(inner)),
        prop: name("common", DUMMY_SP),
        span: DUMMY_SP,
    };
    assert!(!has_child_l(&outer));
}

#[test]
fn a_callee_that_is_no_identifier_is_not_t() {
    // t.t()
    let member = MemberExpr {
        obj: Box::new(ident("t", DUMMY_SP)),
        prop: name("t", DUMMY_SP),
        span: DUMMY_SP,
    };
    let call = CallExpr { callee: Callee::Expr(Box::new(Node::Member(member))), span: DUMMY_SP };
    assert!(!is_t_expression(&call));
    assert!(!is_t_expression(&CallExpr { callee: Callee::Super, span: DUMMY_SP }));
    assert!(!is_t_expression(&CallExpr { callee: Callee::Import, span: DUMMY_SP }));
    let other = CallExpr { callee: Callee::Expr(Box::new(Node::Other(host_number(2.0)))), span: DUMMY_SP };
    assert!(!is_t_expression(&other));
}

#[test]
fn the_translate_name_is_matched_exactly() {
    for callee in ["T", "tt", "", "l"] {
        let call = CallExpr { callee: Callee::Expr(Box::new(ident(callee, DUMMY_SP))), span: DUMMY_SP };
        assert!(!is_t_expression(&call), "callee {:?}", callee);
    }
}

#[test]
fn is_char_compares_the_whole_string() {
    assert!(is_char("l", 'l'));
    assert!(!is_char("l", 't'));
    assert!(!is_char("", 'l'));
    assert!(!is_char("ll", 'l'));
    assert!(is_char("é", 'é'));
}
