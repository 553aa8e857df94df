//! Renders an expression subtree back to VHDL source text.
//!
//! A symbolic range bound must be embedded verbatim into the synthesized
//! oracle program, so the printer reconstructs the bound's source text
//! from the parsed expression tree.  Printing is total: node shapes the
//! compiler has no representation for render as explicit placeholders
//! (`complex_expr`, `complex_name`); a placeholder that fails to compile
//! surfaces later as an analysis-stage failure.

use vstd::prelude::*;

use crate::ast::{VhdlBinaryOp, VhdlDesignator, VhdlExpr, VhdlLiteral, VhdlName, VhdlUnaryOp};
use crate::text::{dec_string_u64, push_char, spec_dec};

verus! {

use vstd::string::StringExecFns;

/// The spelling of a binary operator, with the surrounding spaces that
/// word operators carry.
pub open spec fn spec_binary_op_text(op: VhdlBinaryOp) -> Seq<char> {
    match op {
        VhdlBinaryOp::Plus => "+"@,
        VhdlBinaryOp::Minus => "-"@,
        VhdlBinaryOp::Times => "*"@,
        VhdlBinaryOp::Divide => "/"@,
        VhdlBinaryOp::Modulo => " mod "@,
        VhdlBinaryOp::Remainder => " rem "@,
        VhdlBinaryOp::Power => "**"@,
        VhdlBinaryOp::And => " and "@,
        VhdlBinaryOp::Or => " or "@,
        VhdlBinaryOp::Nand => " nand "@,
        VhdlBinaryOp::Nor => " nor "@,
        VhdlBinaryOp::Xor => " xor "@,
        VhdlBinaryOp::Xnor => " xnor "@,
        VhdlBinaryOp::Equal => "="@,
        VhdlBinaryOp::NotEqual => "/="@,
        VhdlBinaryOp::Less => "<"@,
        VhdlBinaryOp::LessEqual => "<="@,
        VhdlBinaryOp::Greater => ">"@,
        VhdlBinaryOp::GreaterEqual => ">="@,
        VhdlBinaryOp::MatchEqual => "?="@,
        VhdlBinaryOp::MatchNotEqual => "?/="@,
        VhdlBinaryOp::MatchLess => "?<"@,
        VhdlBinaryOp::MatchLessEqual => "?<="@,
        VhdlBinaryOp::MatchGreater => "?>"@,
        VhdlBinaryOp::MatchGreaterEqual => "?>="@,
        VhdlBinaryOp::ShiftLeftLogical => " sll "@,
        VhdlBinaryOp::ShiftRightLogical => " srl "@,
        VhdlBinaryOp::ShiftLeftArith => " sla "@,
        VhdlBinaryOp::ShiftRightArith => " sra "@,
        VhdlBinaryOp::RotateLeft => " rol "@,
        VhdlBinaryOp::RotateRight => " ror "@,
        VhdlBinaryOp::Concat => "&"@,
    }
}

/// The spelling of a unary operator; word operators carry a trailing space.
pub open spec fn spec_unary_op_text(op: VhdlUnaryOp) -> Seq<char> {
    match op {
        VhdlUnaryOp::Plus => "+"@,
        VhdlUnaryOp::Minus => "-"@,
        VhdlUnaryOp::Not => "not "@,
        VhdlUnaryOp::Abs => "abs "@,
        VhdlUnaryOp::Condition => "?? "@,
    }
}

/// The rendered text of a literal.
pub open spec fn spec_literal_text(lit: VhdlLiteral) -> Seq<char> {
    match lit {
        VhdlLiteral::Integer(v) => spec_dec(v as nat),
        VhdlLiteral::Real(s) => s@,
        VhdlLiteral::Text(s) => "\""@ + s@ + "\""@,
        VhdlLiteral::BitText(s) => s@,
        VhdlLiteral::Character(c) => "'"@ + seq![c] + "'"@,
        VhdlLiteral::Physical(s) => s@,
        VhdlLiteral::Null => "null"@,
    }
}

/// The rendered text of a designator.
pub open spec fn spec_designator_text(d: VhdlDesignator) -> Seq<char> {
    match d {
        VhdlDesignator::Identifier(s) => s@,
        VhdlDesignator::OperatorSymbol => "operator"@,
        VhdlDesignator::Character(c) => "'"@ + seq![c] + "'"@,
        VhdlDesignator::Anonymous => "anonymous"@,
    }
}

/// The rendered text of a name.
pub open spec fn spec_name_text(name: VhdlName) -> Seq<char>
    decreases name,
{
    match name {
        VhdlName::Designator(d) => spec_designator_text(d),
        VhdlName::Selected(prefix, suffix) => spec_name_text(*prefix) + "."@ + (match suffix {
            VhdlDesignator::Identifier(s) => s@,
            _ => "suffix"@,
        }),
        VhdlName::SelectedAll(prefix) => spec_name_text(*prefix) + ".all"@,
        VhdlName::CallOrIndexed(inner) => spec_name_text(*inner),
        VhdlName::Unsupported => "complex_name"@,
    }
}

/// The rendered text of an expression.
pub open spec fn spec_expr_text(e: VhdlExpr) -> Seq<char>
    decreases e,
{
    match e {
        VhdlExpr::Literal(lit) => spec_literal_text(lit),
        VhdlExpr::Name(name) => spec_name_text(*name),
        VhdlExpr::Binary(op, left, right) => spec_expr_text(*left) + " "@ + spec_binary_op_text(op)
            + " "@ + spec_expr_text(*right),
        VhdlExpr::Unary(op, operand) => spec_unary_op_text(op) + spec_expr_text(*operand),
        VhdlExpr::Parenthesized(inner) => "("@ + spec_expr_text(*inner) + ")"@,
        VhdlExpr::Unsupported => "complex_expr"@,
    }
}

fn binary_op_str(op: VhdlBinaryOp) -> (r: &'static str)
    ensures
        r@ == spec_binary_op_text(op),
{
    match op {
        VhdlBinaryOp::Plus => "+",
        VhdlBinaryOp::Minus => "-",
        VhdlBinaryOp::Times => "*",
        VhdlBinaryOp::Divide => "/",
        VhdlBinaryOp::Modulo => " mod ",
        VhdlBinaryOp::Remainder => " rem ",
        VhdlBinaryOp::Power => "**",
        VhdlBinaryOp::And => " and ",
        VhdlBinaryOp::Or => " or ",
        VhdlBinaryOp::Nand => " nand ",
        VhdlBinaryOp::Nor => " nor ",
        VhdlBinaryOp::Xor => " xor ",
        VhdlBinaryOp::Xnor => " xnor ",
        VhdlBinaryOp::Equal => "=",
        VhdlBinaryOp::NotEqual => "/=",
        VhdlBinaryOp::Less => "<",
        VhdlBinaryOp::LessEqual => "<=",
        VhdlBinaryOp::Greater => ">",
        VhdlBinaryOp::GreaterEqual => ">=",
        VhdlBinaryOp::MatchEqual => "?=",
        VhdlBinaryOp::MatchNotEqual => "?/=",
        VhdlBinaryOp::MatchLess => "?<",
        VhdlBinaryOp::MatchLessEqual => "?<=",
        VhdlBinaryOp::MatchGreater => "?>",
        VhdlBinaryOp::MatchGreaterEqual => "?>=",
        VhdlBinaryOp::ShiftLeftLogical => " sll ",
        VhdlBinaryOp::ShiftRightLogical => " srl ",
        VhdlBinaryOp::ShiftLeftArith => " sla ",
        VhdlBinaryOp::ShiftRightArith => " sra ",
        VhdlBinaryOp::RotateLeft => " rol ",
        VhdlBinaryOp::RotateRight => " ror ",
        VhdlBinaryOp::Concat => "&",
    }
}

fn unary_op_str(op: VhdlUnaryOp) -> (r: &'static str)
    ensures
        r@ == spec_unary_op_text(op),
{
    match op {
        VhdlUnaryOp::Plus => "+",
        VhdlUnaryOp::Minus => "-",
        VhdlUnaryOp::Not => "not ",
        VhdlUnaryOp::Abs => "abs ",
        VhdlUnaryOp::Condition => "?? ",
    }
}

fn literal_to_string(lit: &VhdlLiteral) -> (r: String)
    ensures
        r@ == spec_literal_text(*lit),
{
    match lit {
        VhdlLiteral::Integer(v) => dec_string_u64(*v),
        VhdlLiteral::Real(s) => s.clone(),
        VhdlLiteral::Text(s) => {
            let mut r = "\"".to_owned();
            r.append(s.as_str());
            r.append("\"");
            r
        },
        VhdlLiteral::BitText(s) => s.clone(),
        VhdlLiteral::Character(c) => {
            let mut r = "'".to_owned();
            push_char(&mut r, *c);
            r.append("'");
            r
        },
        VhdlLiteral::Physical(s) => s.clone(),
        VhdlLiteral::Null => "null".to_owned(),
    }
}

fn designator_to_string(d: &VhdlDesignator) -> (r: String)
    ensures
        r@ == spec_designator_text(*d),
{
    match d {
        VhdlDesignator::Identifier(s) => s.clone(),
        VhdlDesignator::OperatorSymbol => "operator".to_owned(),
        VhdlDesignator::Character(c) => {
            let mut r = "'".to_owned();
            push_char(&mut r, *c);
            r.append("'");
            r
        },
        VhdlDesignator::Anonymous => "anonymous".to_owned(),
    }
}

fn name_to_string(name: &VhdlName) -> (r: String)
    ensures
        r@ == spec_name_text(*name),
    decreases name,
{
    match name {
        VhdlName::Designator(d) => designator_to_string(d),
        VhdlName::Selected(prefix, suffix) => {
            let mut r = name_to_string(&**prefix);
            r.append(".");
            match suffix {
                VhdlDesignator::Identifier(s) => r.append(s.as_str()),
                _ => r.append("suffix"),
            }
            r
        },
        VhdlName::SelectedAll(prefix) => {
            let mut r = name_to_string(&**prefix);
            r.append(".all");
            r
        },
        VhdlName::CallOrIndexed(inner) => name_to_string(&**inner),
        VhdlName::Unsupported => "complex_name".to_owned(),
    }
}

/// Convert an expression tree to its VHDL source text.
pub fn expr_to_string(expr: &VhdlExpr) -> (r: String)
    ensures
        r@ == spec_expr_text(*expr),
    decreases expr,
{
    match expr {
        VhdlExpr::Literal(lit) => literal_to_string(lit),
        VhdlExpr::Name(name) => name_to_string(&**name),
        VhdlExpr::Binary(op, left, right) => {
            let mut r = expr_to_string(&**left);
            r.append(" ");
            r.append(binary_op_str(*op));
            r.append(" ");
            let right_text = expr_to_string(&**right);
            r.append(right_text.as_str());
            r
        },
        VhdlExpr::Unary(op, operand) => {
            let mut r = unary_op_str(*op).to_owned();
            let operand_text = expr_to_string(&**operand);
            r.append(operand_text.as_str());
            r
        },
        VhdlExpr::Parenthesized(inner) => {
            let mut r = "(".to_owned();
            let inner_text = expr_to_string(&**inner);
            r.append(inner_text.as_str());
            r.append(")");
            r
        },
        VhdlExpr::Unsupported => "complex_expr".to_owned(),
    }
}

} // verus!
