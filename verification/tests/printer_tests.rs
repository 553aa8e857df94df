use vw_lib::ast::{
    RangeConstraint, VhdlBinaryOp, VhdlDesignator, VhdlExpr, VhdlLiteral, VhdlName, VhdlUnaryOp,
};
use vw_lib::vhdl_printer::expr_to_string;

fn ident(s: &str) -> VhdlName {
    VhdlName::Designator(VhdlDesignator::Identifier(s.to_string()))
}

fn name_expr(s: &str) -> VhdlExpr {
    VhdlExpr::Name(Box::new(ident(s)))
}

fn int_expr(v: u64) -> VhdlExpr {
    VhdlExpr::Literal(VhdlLiteral::Integer(v))
}

#[test]
fn integer_literal_renders_in_decimal() {
    assert_eq!(expr_to_string(&int_expr(0)), "0");
    assert_eq!(expr_to_string(&int_expr(42)), "42");
    assert_eq!(expr_to_string(&int_expr(1234567890)), "1234567890");
}

#[test]
fn simple_name_renders_as_identifier() {
    assert_eq!(expr_to_string(&name_expr("WIDTH")), "WIDTH");
}

#[test]
fn binary_arithmetic_renders_with_spaces() {
    let e = VhdlExpr::Binary(
        VhdlBinaryOp::Minus,
        Box::new(name_expr("WIDTH")),
        Box::new(int_expr(1)),
    );
    assert_eq!(expr_to_string(&e), "WIDTH - 1");
}

#[test]
fn word_operator_keeps_its_own_spacing() {
    let e = VhdlExpr::Binary(
        VhdlBinaryOp::Modulo,
        Box::new(name_expr("A")),
        Box::new(name_expr("B")),
    );
    assert_eq!(expr_to_string(&e), "A  mod  B");
}

#[test]
fn power_and_concat_render_tightly() {
    let p = VhdlExpr::Binary(VhdlBinaryOp::Power, Box::new(int_expr(2)), Box::new(int_expr(8)));
    assert_eq!(expr_to_string(&p), "2 ** 8");
    let c = VhdlExpr::Binary(
        VhdlBinaryOp::Concat,
        Box::new(name_expr("A")),
        Box::new(name_expr("B")),
    );
    assert_eq!(expr_to_string(&c), "A & B");
}

#[test]
fn unary_operators_render_prefixed() {
    let m = VhdlExpr::Unary(VhdlUnaryOp::Minus, Box::new(int_expr(5)));
    assert_eq!(expr_to_string(&m), "-5");
    let n = VhdlExpr::Unary(VhdlUnaryOp::Not, Box::new(name_expr("X")));
    assert_eq!(expr_to_string(&n), "not X");
    let a = VhdlExpr::Unary(VhdlUnaryOp::Abs, Box::new(name_expr("X")));
    assert_eq!(expr_to_string(&a), "abs X");
}

#[test]
fn parenthesized_expression_keeps_parentheses() {
    let inner = VhdlExpr::Binary(
        VhdlBinaryOp::Plus,
        Box::new(name_expr("N")),
        Box::new(int_expr(1)),
    );
    let e = VhdlExpr::Parenthesized(Box::new(inner));
    assert_eq!(expr_to_string(&e), "(N + 1)");
}

#[test]
fn selected_name_renders_with_dots() {
    let sel = VhdlName::Selected(
        Box::new(ident("pkg")),
        VhdlDesignator::Identifier("WIDTH".to_string()),
    );
    assert_eq!(expr_to_string(&VhdlExpr::Name(Box::new(sel))), "pkg.WIDTH");
}

#[test]
fn selected_all_renders_with_all_suffix() {
    let sel = VhdlName::SelectedAll(Box::new(ident("pkg")));
    assert_eq!(expr_to_string(&VhdlExpr::Name(Box::new(sel))), "pkg.all");
}

#[test]
fn call_renders_as_callee_name() {
    let call = VhdlName::CallOrIndexed(Box::new(ident("get_hdr_bits")));
    assert_eq!(expr_to_string(&VhdlExpr::Name(Box::new(call))), "get_hdr_bits");
}

#[test]
fn unsupported_shapes_render_as_placeholders() {
    assert_eq!(expr_to_string(&VhdlExpr::Unsupported), "complex_expr");
    assert_eq!(
        expr_to_string(&VhdlExpr::Name(Box::new(VhdlName::Unsupported))),
        "complex_name"
    );
}

#[test]
fn literal_kinds_render() {
    assert_eq!(
        expr_to_string(&VhdlExpr::Literal(VhdlLiteral::Text("abc".to_string()))),
        "\"abc\""
    );
    assert_eq!(expr_to_string(&VhdlExpr::Literal(VhdlLiteral::Character('x'))), "'x'");
    assert_eq!(expr_to_string(&VhdlExpr::Literal(VhdlLiteral::Null)), "null");
    assert_eq!(
        expr_to_string(&VhdlExpr::Literal(VhdlLiteral::Real("1.5".to_string()))),
        "1.5"
    );
}

#[test]
fn nested_expression_renders_depth_first() {
    // (WIDTH - 1) * 8
    let sub = VhdlExpr::Binary(
        VhdlBinaryOp::Minus,
        Box::new(name_expr("WIDTH")),
        Box::new(int_expr(1)),
    );
    let e = VhdlExpr::Binary(
        VhdlBinaryOp::Times,
        Box::new(VhdlExpr::Parenthesized(Box::new(sub))),
        Box::new(int_expr(8)),
    );
    assert_eq!(expr_to_string(&e), "(WIDTH - 1) * 8");
}
