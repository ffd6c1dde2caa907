//! The parser: a recursive-descent consumer of the token stream, one handler
//! per math object type.  Each handler checks the start token, the declared
//! argument count, the separators and the end token, decodes and validates
//! the descriptor's kind-specific fields, and builds the equation tree node.
//! Every violation is a fatal error; there is no recovery.
use vstd::prelude::*;

use crate::ast::EqNode;
use crate::ast::Equation;
use crate::ast::MathObject;
use crate::ast::MathObjectType;
use crate::ast::op_view;
use crate::ast::MathOp;
use crate::ast::box_display;
use crate::ast::boxed_formula_alignment;
use crate::ast::brackets_alignment;
use crate::ast::equation_array_alignment;
use crate::ast::eq_list_view;
use crate::ast::eq_view;
use crate::ast::eq_view_seq;
use crate::ast::eq_list_view_seq;
use crate::ast::lemma_eq_list_view_seq_push;
use crate::ast::lemma_eq_view_seq_push;
use crate::ast::matrix_alignment;
use crate::ast::matrix_brackets;
use crate::ast::nary_display;
use crate::ast::phantom_display;
use crate::ast::phantom_kind;
use crate::ast::spec_box_display;
use crate::ast::spec_boxed_formula_alignment;
use crate::ast::spec_brackets_alignment;
use crate::ast::spec_equation_array_alignment;
use crate::ast::spec_matrix_alignment;
use crate::ast::spec_matrix_brackets;
use crate::ast::spec_nary_display;
use crate::ast::spec_phantom_display;
use crate::ast::spec_phantom_kind;
use crate::ast::spec_stretch_stack_position;
use crate::ast::spec_sub_sup_alignment;
use crate::ast::stretch_stack_position;
use crate::ast::sub_sup_alignment;
use crate::error::MathError;
use crate::lexer::Lexer;
use crate::lexer::Token;
use crate::lexer::TokenV;
use crate::lexer::lex_step;
use crate::lexer::lex_tokens;
use crate::lexer::queue_view;

verus! {

/// Parses a whole token stream as one equation: nodes until the stream ends.
pub open spec fn sp_equation(toks: Seq<TokenV>) -> Result<Seq<EqNode>, MathError>
    decreases toks.len(), 5int,
{
    if toks.len() == 0 {
        Ok(Seq::empty())
    } else {
        match sp_op(toks) {
            Err(e) => Err(e),
            Ok((node, rest)) => {
                // never reached: parsing a node consumes at least one token;
                // the guard bounds the recursion
                if rest.len() >= toks.len() {
                    Err(MathError::UnexpectedToken)
                } else {
                    match sp_equation(rest) {
                        Err(e) => Err(e),
                        Ok(eq) => Ok(seq![node] + eq),
                    }
                }
            },
        }
    }
}

/// Parses one argument of a math object: nodes until the object's own
/// separator or end token comes up.  An exhausted stream fails, as a node was
/// expected.
pub open spec fn sp_arg(toks: Seq<TokenV>, ty: MathObjectType) -> Result<
    (Seq<EqNode>, Seq<TokenV>),
    MathError,
>
    decreases toks.len(), 4int,
{
    if toks.len() > 0 && (toks[0] == TokenV::Sep(ty) || toks[0] == TokenV::End(ty)) {
        Ok((Seq::empty(), toks))
    } else {
        match sp_op(toks) {
            Err(e) => Err(e),
            Ok((node, rest)) => {
                // never reached: parsing a node consumes at least one token;
                // the guard bounds the recursion
                if rest.len() >= toks.len() {
                    Err(MathError::UnexpectedToken)
                } else {
                    match sp_arg(rest, ty) {
                        Err(e) => Err(e),
                        Ok((eq, rest2)) => Ok((seq![node] + eq, rest2)),
                    }
                }
            },
        }
    }
}

/// Parses one node: a literal text token stands for itself; a start token
/// selects its object type's handler; a separator, end or end-of-stream where
/// a node was expected is a structural token error.
pub open spec fn sp_op(toks: Seq<TokenV>) -> Result<(EqNode, Seq<TokenV>), MathError>
    decreases toks.len(), 3int,
{
    if toks.len() == 0 {
        Err(MathError::UnexpectedToken)
    } else {
        match toks[0] {
            TokenV::Text(s) => Ok((EqNode::Text(s), toks.drop_first())),
            TokenV::Start(d) => match d.object_type {
                MathObjectType::Accent => sp_accent(toks),
                MathObjectType::BoxObject => sp_box(toks),
                MathObjectType::BoxedFormula => sp_boxed_formula(toks),
                MathObjectType::Brackets => sp_brackets(toks),
                MathObjectType::BracketsWithSeps => sp_brackets_with_seps(toks),
                MathObjectType::EquationArray => sp_equation_array(toks),
                MathObjectType::Fraction => sp_fraction(toks),
                MathObjectType::FunctionApply => sp_function_apply(toks),
                MathObjectType::LeftSubSup => sp_left_sub_sup(toks),
                MathObjectType::LowerLimit => sp_lower_limit(toks),
                MathObjectType::Matrix => sp_matrix(toks),
                MathObjectType::Nary => sp_nary(toks),
                MathObjectType::OpChar => sp_op_char(toks),
                MathObjectType::Overbar => sp_over_bar(toks),
                MathObjectType::Phantom => sp_phantom(toks),
                MathObjectType::Radical => sp_radical(toks),
                MathObjectType::SlashedFraction => sp_slashed_fraction(toks),
                MathObjectType::Stack => sp_stack(toks),
                MathObjectType::StretchStack => sp_stretch_stack(toks),
                MathObjectType::Subscript => sp_subscript(toks),
                MathObjectType::SubSup => sp_sub_sup(toks),
                MathObjectType::Superscript => sp_superscript(toks),
                MathObjectType::Underbar => sp_under_bar(toks),
                MathObjectType::UpperLimit => sp_upper_limit(toks),
                MathObjectType::SimpleText => Err(MathError::UnexpectedToken),
                MathObjectType::PlainText => Err(MathError::UnexpectedToken),
            },
            TokenV::Sep(_) => Err(MathError::UnexpectedToken),
            TokenV::End(_) => Err(MathError::UnexpectedToken),
            TokenV::Eof => Err(MathError::UnexpectedToken),
        }
    }
}

/// Parses a one-argument object: its start token of the given type with a
/// declared argument count of one, the argument, and its end token.
pub open spec fn sp_object_1(toks: Seq<TokenV>, ty: MathObjectType) -> Result<
    (MathObject, Seq<EqNode>, Seq<TokenV>),
    MathError,
>
    decreases toks.len(), 1int,
{
    if toks.len() == 0 {
        Err(MathError::UnexpectedToken)
    } else {
        match toks[0] {
            TokenV::Start(d) => {
                if d.object_type != ty {
                    Err(MathError::UnexpectedToken)
                } else if d.arg_count != 1 {
                    Err(MathError::ArityMismatch)
                } else {
                    match sp_arg(toks.drop_first(), ty) {
                        Err(e) => Err(e),
                        Ok((arg, rest)) => {
                            if rest.len() > 0 && rest[0] == TokenV::End(ty) {
                                Ok((d, arg, rest.drop_first()))
                            } else {
                                Err(MathError::UnexpectedToken)
                            }
                        },
                    }
                }
            },
            _ => Err(MathError::UnexpectedToken),
        }
    }
}

/// Parses a two-argument object: start token, first argument, separator,
/// second argument, end token.
pub open spec fn sp_object_2(toks: Seq<TokenV>, ty: MathObjectType) -> Result<
    (MathObject, Seq<EqNode>, Seq<EqNode>, Seq<TokenV>),
    MathError,
>
    decreases toks.len(), 1int,
{
    if toks.len() == 0 {
        Err(MathError::UnexpectedToken)
    } else {
        match toks[0] {
            TokenV::Start(d) => {
                if d.object_type != ty {
                    Err(MathError::UnexpectedToken)
                } else if d.arg_count != 2 {
                    Err(MathError::ArityMismatch)
                } else {
                    match sp_arg(toks.drop_first(), ty) {
                        Err(e) => Err(e),
                        Ok((arg1, r1)) => {
                            if !(r1.len() > 0 && r1[0] == TokenV::Sep(ty)) {
                                Err(MathError::UnexpectedToken)
                            } else if r1.len() >= toks.len() {
                                // never reached: an argument never grows the
                                // stream; the guard bounds the recursion
                                Err(MathError::UnexpectedToken)
                            } else {
                                match sp_arg(r1.drop_first(), ty) {
                                    Err(e) => Err(e),
                                    Ok((arg2, r2)) => {
                                        if r2.len() > 0 && r2[0] == TokenV::End(ty) {
                                            Ok((d, arg1, arg2, r2.drop_first()))
                                        } else {
                                            Err(MathError::UnexpectedToken)
                                        }
                                    },
                                }
                            }
                        },
                    }
                }
            },
            _ => Err(MathError::UnexpectedToken),
        }
    }
}

/// Parses a three-argument object: start token, three arguments separated by
/// two separators, end token.
pub open spec fn sp_object_3(toks: Seq<TokenV>, ty: MathObjectType) -> Result<
    (MathObject, Seq<EqNode>, Seq<EqNode>, Seq<EqNode>, Seq<TokenV>),
    MathError,
>
    decreases toks.len(), 1int,
{
    if toks.len() == 0 {
        Err(MathError::UnexpectedToken)
    } else {
        match toks[0] {
            TokenV::Start(d) => {
                if d.object_type != ty {
                    Err(MathError::UnexpectedToken)
                } else if d.arg_count != 3 {
                    Err(MathError::ArityMismatch)
                } else {
                    match sp_arg(toks.drop_first(), ty) {
                        Err(e) => Err(e),
                        Ok((arg1, r1)) => {
                            if !(r1.len() > 0 && r1[0] == TokenV::Sep(ty)) {
                                Err(MathError::UnexpectedToken)
                            } else if r1.len() >= toks.len() {
                                // never reached: an argument never grows the
                                // stream; the guard bounds the recursion
                                Err(MathError::UnexpectedToken)
                            } else {
                                match sp_arg(r1.drop_first(), ty) {
                                    Err(e) => Err(e),
                                    Ok((arg2, r2)) => {
                                        if !(r2.len() > 0 && r2[0] == TokenV::Sep(ty)) {
                                            Err(MathError::UnexpectedToken)
                                        } else if r2.len() >= toks.len() {
                                            // never reached, as above
                                            Err(MathError::UnexpectedToken)
                                        } else {
                                            match sp_arg(r2.drop_first(), ty) {
                                                Err(e) => Err(e),
                                                Ok((arg3, r3)) => {
                                                    if r3.len() > 0 && r3[0] == TokenV::End(ty) {
                                                        Ok((d, arg1, arg2, arg3, r3.drop_first()))
                                                    } else {
                                                        Err(MathError::UnexpectedToken)
                                                    }
                                                },
                                            }
                                        }
                                    },
                                }
                            }
                        },
                    }
                }
            },
            _ => Err(MathError::UnexpectedToken),
        }
    }
}

/// Parses the `n` arguments of a variable-argument object, separated by its
/// separator tokens and closed by its end token.  With no arguments declared,
/// nothing is consumed — not even an end token.
pub open spec fn sp_args(toks: Seq<TokenV>, ty: MathObjectType, n: u32) -> Result<
    (Seq<Seq<EqNode>>, Seq<TokenV>),
    MathError,
>
    decreases toks.len(), 5int,
{
    if n == 0 {
        Ok((Seq::empty(), toks))
    } else {
        match sp_arg(toks, ty) {
            Err(e) => Err(e),
            Ok((arg, r1)) => {
                if n == 1 {
                    if r1.len() > 0 && r1[0] == TokenV::End(ty) {
                        Ok((seq![arg], r1.drop_first()))
                    } else {
                        Err(MathError::UnexpectedToken)
                    }
                } else if !(r1.len() > 0 && r1[0] == TokenV::Sep(ty)) {
                    Err(MathError::UnexpectedToken)
                } else if r1.len() > toks.len() {
                    // never reached: an argument never grows the stream; the
                    // guard bounds the recursion
                    Err(MathError::UnexpectedToken)
                } else {
                    match sp_args(r1.drop_first(), ty, (n - 1) as u32) {
                        Err(e) => Err(e),
                        Ok((rest_args, r2)) => Ok((seq![arg] + rest_args, r2)),
                    }
                }
            },
        }
    }
}

/// Parses a variable-argument object: its start token of the given type, then
/// as many arguments as its descriptor declares.
pub open spec fn sp_object_n(toks: Seq<TokenV>, ty: MathObjectType) -> Result<
    (MathObject, Seq<Seq<EqNode>>, Seq<TokenV>),
    MathError,
>
    decreases toks.len(), 1int,
{
    if toks.len() == 0 {
        Err(MathError::UnexpectedToken)
    } else {
        match toks[0] {
            TokenV::Start(d) => {
                if d.object_type != ty {
                    Err(MathError::UnexpectedToken)
                } else {
                    match sp_args(toks.drop_first(), ty, d.arg_count) {
                        Err(e) => Err(e),
                        Ok((args, rest)) => Ok((d, args, rest)),
                    }
                }
            },
            _ => Err(MathError::UnexpectedToken),
        }
    }
}

/// Parses an accent: one argument, no alignment data, a required accent
/// character.
pub open spec fn sp_accent(toks: Seq<TokenV>) -> Result<(EqNode, Seq<TokenV>), MathError>
    decreases toks.len(), 2int,
{
    match sp_object_1(toks, MathObjectType::Accent) {
        Err(e) => Err(e),
        Ok((d, body, rest)) => {
            if d.align is Some {
                Err(MathError::UnexpectedAlignData)
            } else {
                match d.char0 {
                    None => Err(MathError::MissingField),
                    Some(mark) => Ok((EqNode::Accent { mark, body }, rest)),
                }
            }
        },
    }
}

/// Parses an abstract box: one argument; its optional alignment byte decodes
/// into the display properties, every byte decoding.
pub open spec fn sp_box(toks: Seq<TokenV>) -> Result<(EqNode, Seq<TokenV>), MathError>
    decreases toks.len(), 2int,
{
    match sp_object_1(toks, MathObjectType::BoxObject) {
        Err(e) => Err(e),
        Ok((d, body, rest)) => {
            let display = match d.align {
                Some(v) => Some(spec_box_display(v)),
                None => None,
            };
            Ok((EqNode::BoxObject { display, body }, rest))
        },
    }
}

/// Parses a boxed formula: one argument; its optional alignment byte decodes
/// into the framing flags, every byte decoding.
pub open spec fn sp_boxed_formula(toks: Seq<TokenV>) -> Result<(EqNode, Seq<TokenV>), MathError>
    decreases toks.len(), 2int,
{
    match sp_object_1(toks, MathObjectType::BoxedFormula) {
        Err(e) => Err(e),
        Ok((d, body, rest)) => {
            let align = match d.align {
                Some(v) => Some(spec_boxed_formula_alignment(v)),
                None => None,
            };
            Ok((EqNode::BoxedFormula { align, body }, rest))
        },
    }
}

/// Parses a bracket pair: one argument; the opening and closing characters
/// are optional, and an unlisted alignment byte is a decode error.
pub open spec fn sp_brackets(toks: Seq<TokenV>) -> Result<(EqNode, Seq<TokenV>), MathError>
    decreases toks.len(), 2int,
{
    match sp_object_1(toks, MathObjectType::Brackets) {
        Err(e) => Err(e),
        Ok((d, body, rest)) => {
            match d.align {
                None => Ok(
                    (
                        EqNode::Brackets { opening: d.char0, closing: d.char1, align: None, body },
                        rest,
                    ),
                ),
                Some(v) => match spec_brackets_alignment(v) {
                    None => Err(MathError::InvalidValue),
                    Some(a) => Ok(
                        (
                            EqNode::Brackets {
                                opening: d.char0,
                                closing: d.char1,
                                align: Some(a),
                                body,
                            },
                            rest,
                        ),
                    ),
                },
            }
        },
    }
}

/// Parses a bracket pair with separators: variable arguments; an unlisted
/// alignment byte is a decode error, and the separator character is required.
pub open spec fn sp_brackets_with_seps(toks: Seq<TokenV>) -> Result<
    (EqNode, Seq<TokenV>),
    MathError,
>
    decreases toks.len(), 2int,
{
    match sp_object_n(toks, MathObjectType::BracketsWithSeps) {
        Err(e) => Err(e),
        Ok((d, segments, rest)) => {
            match (match d.align {
                None => Ok(None),
                Some(v) => match spec_brackets_alignment(v) {
                    None => Err(MathError::InvalidValue),
                    Some(a) => Ok(Some(a)),
                },
            }) {
                Err(e) => Err(e),
                Ok(align) => match d.char2 {
                    None => Err(MathError::MissingField),
                    Some(sep) => Ok(
                        (
                            EqNode::BracketsWithSeps {
                                opening: d.char0,
                                closing: d.char1,
                                sep,
                                align,
                                segments,
                            },
                            rest,
                        ),
                    ),
                },
            }
        },
    }
}

/// Parses an equation array: variable arguments; the column count is
/// required, and an unlisted alignment byte is a decode error.
pub open spec fn sp_equation_array(toks: Seq<TokenV>) -> Result<(EqNode, Seq<TokenV>), MathError>
    decreases toks.len(), 2int,
{
    match sp_object_n(toks, MathObjectType::EquationArray) {
        Err(e) => Err(e),
        Ok((d, rows, rest)) => {
            match d.column {
                None => Err(MathError::MissingField),
                Some(columns) => {
                    match d.align {
                        None => Ok((EqNode::EquationArray { columns, align: None, rows }, rest)),
                        Some(v) => match spec_equation_array_alignment(v) {
                            None => Err(MathError::InvalidValue),
                            Some(a) => Ok(
                                (EqNode::EquationArray { columns, align: Some(a), rows }, rest),
                            ),
                        },
                    }
                },
            }
        },
    }
}

/// Parses a fraction: two arguments, no alignment data; the compact variant
/// is requested by one specific operator character.
pub open spec fn sp_fraction(toks: Seq<TokenV>) -> Result<(EqNode, Seq<TokenV>), MathError>
    decreases toks.len(), 2int,
{
    match sp_object_2(toks, MathObjectType::Fraction) {
        Err(e) => Err(e),
        Ok((d, num, den, rest)) => {
            if d.align is Some {
                Err(MathError::UnexpectedAlignData)
            } else {
                let small = d.char0 == Some('\u{2298}');
                Ok((EqNode::Fraction { num, den, small }, rest))
            }
        },
    }
}

/// Parses a function application: two arguments, no alignment data.
pub open spec fn sp_function_apply(toks: Seq<TokenV>) -> Result<(EqNode, Seq<TokenV>), MathError>
    decreases toks.len(), 2int,
{
    match sp_object_2(toks, MathObjectType::FunctionApply) {
        Err(e) => Err(e),
        Ok((d, func, body, rest)) => {
            if d.align is Some {
                Err(MathError::UnexpectedAlignData)
            } else {
                Ok((EqNode::FunctionApply { func, body }, rest))
            }
        },
    }
}

/// Parses a left subscript / superscript: three arguments, no alignment data.
pub open spec fn sp_left_sub_sup(toks: Seq<TokenV>) -> Result<(EqNode, Seq<TokenV>), MathError>
    decreases toks.len(), 2int,
{
    match sp_object_3(toks, MathObjectType::LeftSubSup) {
        Err(e) => Err(e),
        Ok((d, sub, sup, body, rest)) => {
            if d.align is Some {
                Err(MathError::UnexpectedAlignData)
            } else {
                Ok((EqNode::LeftSubSup { sub, sup, body }, rest))
            }
        },
    }
}

/// Parses a lower limit: two arguments, no alignment data.
pub open spec fn sp_lower_limit(toks: Seq<TokenV>) -> Result<(EqNode, Seq<TokenV>), MathError>
    decreases toks.len(), 2int,
{
    match sp_object_2(toks, MathObjectType::LowerLimit) {
        Err(e) => Err(e),
        Ok((d, body, limit, rest)) => {
            if d.align is Some {
                Err(MathError::UnexpectedAlignData)
            } else {
                Ok((EqNode::LowerLimit { body, limit }, rest))
            }
        },
    }
}

/// Parses a matrix: variable arguments; the column count and the bracket
/// specifier character are required, and unlisted specifier or alignment
/// values are decode errors.
pub open spec fn sp_matrix(toks: Seq<TokenV>) -> Result<(EqNode, Seq<TokenV>), MathError>
    decreases toks.len(), 2int,
{
    match sp_object_n(toks, MathObjectType::Matrix) {
        Err(e) => Err(e),
        Ok((d, items, rest)) => {
            match d.column {
                None => Err(MathError::MissingField),
                Some(columns) => match d.char0 {
                    None => Err(MathError::MissingField),
                    Some(c) => match spec_matrix_brackets(c) {
                        None => Err(MathError::InvalidValue),
                        Some(brackets) => match d.align {
                            None => Ok(
                                (EqNode::Matrix { columns, brackets, align: None, items }, rest),
                            ),
                            Some(v) => match spec_matrix_alignment(v) {
                                None => Err(MathError::InvalidValue),
                                Some(a) => Ok(
                                    (
                                        EqNode::Matrix { columns, brackets, align: Some(a), items },
                                        rest,
                                    ),
                                ),
                            },
                        },
                    },
                },
            }
        },
    }
}

/// Parses an n-ary operator: three arguments; the operator character is
/// required, and its optional alignment byte decodes into the display
/// properties, every byte decoding.
pub open spec fn sp_nary(toks: Seq<TokenV>) -> Result<(EqNode, Seq<TokenV>), MathError>
    decreases toks.len(), 2int,
{
    match sp_object_3(toks, MathObjectType::Nary) {
        Err(e) => Err(e),
        Ok((d, sub, sup, body, rest)) => {
            match d.char0 {
                None => Err(MathError::MissingField),
                Some(op) => {
                    let display = match d.align {
                        Some(v) => Some(spec_nary_display(v)),
                        None => None,
                    };
                    Ok((EqNode::NAry { op, display, sub, sup, body }, rest))
                },
            }
        },
    }
}

/// Parses a no-build operator character: zero arguments; the character (or
/// nothing) becomes a literal text node.
pub open spec fn sp_op_char(toks: Seq<TokenV>) -> Result<(EqNode, Seq<TokenV>), MathError>
    decreases toks.len(), 2int,
{
    if toks.len() == 0 {
        Err(MathError::UnexpectedToken)
    } else {
        match toks[0] {
            TokenV::Start(d) => {
                if d.object_type != MathObjectType::OpChar {
                    Err(MathError::UnexpectedToken)
                } else if d.arg_count != 0 {
                    Err(MathError::ArityMismatch)
                } else {
                    let r1 = toks.drop_first();
                    if r1.len() > 0 && r1[0] == TokenV::End(MathObjectType::OpChar) {
                        let text = match d.char0 {
                            Some(c) => seq![c],
                            None => Seq::<char>::empty(),
                        };
                        Ok((EqNode::Text(text), r1.drop_first()))
                    } else {
                        Err(MathError::UnexpectedToken)
                    }
                }
            },
            _ => Err(MathError::UnexpectedToken),
        }
    }
}

/// Parses an overbar: one argument, no alignment data.
pub open spec fn sp_over_bar(toks: Seq<TokenV>) -> Result<(EqNode, Seq<TokenV>), MathError>
    decreases toks.len(), 2int,
{
    match sp_object_1(toks, MathObjectType::Overbar) {
        Err(e) => Err(e),
        Ok((d, body, rest)) => {
            if d.align is Some {
                Err(MathError::UnexpectedAlignData)
            } else {
                Ok((EqNode::OverBar { body }, rest))
            }
        },
    }
}

/// Parses a phantom: one argument; the kind character is required and must be
/// listed, and the alignment byte's unrecognized display bits are ignored by
/// design.
pub open spec fn sp_phantom(toks: Seq<TokenV>) -> Result<(EqNode, Seq<TokenV>), MathError>
    decreases toks.len(), 2int,
{
    match sp_object_1(toks, MathObjectType::Phantom) {
        Err(e) => Err(e),
        Ok((d, body, rest)) => {
            match d.char0 {
                None => Err(MathError::MissingField),
                Some(c) => match spec_phantom_kind(c) {
                    None => Err(MathError::InvalidValue),
                    Some(kind) => {
                        let display = match d.align {
                            Some(v) => Some(spec_phantom_display(v)),
                            None => None,
                        };
                        Ok((EqNode::Phantom { kind, display, body }, rest))
                    },
                },
            }
        },
    }
}

/// Parses a radical: two arguments — the degree, then the body — and no
/// alignment data.
pub open spec fn sp_radical(toks: Seq<TokenV>) -> Result<(EqNode, Seq<TokenV>), MathError>
    decreases toks.len(), 2int,
{
    match sp_object_2(toks, MathObjectType::Radical) {
        Err(e) => Err(e),
        Ok((d, degree, body, rest)) => {
            if d.align is Some {
                Err(MathError::UnexpectedAlignData)
            } else {
                Ok((EqNode::Radical { degree, body }, rest))
            }
        },
    }
}

/// Parses a slashed fraction: two arguments, no alignment data; the linear
/// variant is requested by one specific operator character.
pub open spec fn sp_slashed_fraction(toks: Seq<TokenV>) -> Result<(EqNode, Seq<TokenV>), MathError>
    decreases toks.len(), 2int,
{
    match sp_object_2(toks, MathObjectType::SlashedFraction) {
        Err(e) => Err(e),
        Ok((d, num, den, rest)) => {
            if d.align is Some {
                Err(MathError::UnexpectedAlignData)
            } else {
                let linear = d.char0 == Some('\u{2215}');
                Ok((EqNode::SlashedFraction { num, den, linear }, rest))
            }
        },
    }
}

/// Parses a stack: two arguments, no alignment data.
pub open spec fn sp_stack(toks: Seq<TokenV>) -> Result<(EqNode, Seq<TokenV>), MathError>
    decreases toks.len(), 2int,
{
    match sp_object_2(toks, MathObjectType::Stack) {
        Err(e) => Err(e),
        Ok((d, num, den, rest)) => {
            if d.align is Some {
                Err(MathError::UnexpectedAlignData)
            } else {
                Ok((EqNode::Stack { num, den }, rest))
            }
        },
    }
}

/// Parses a stretch stack: one argument; the stretch character is required,
/// and the alignment byte (absent meaning zero) must be a listed stack
/// position.
pub open spec fn sp_stretch_stack(toks: Seq<TokenV>) -> Result<(EqNode, Seq<TokenV>), MathError>
    decreases toks.len(), 2int,
{
    match sp_object_1(toks, MathObjectType::StretchStack) {
        Err(e) => Err(e),
        Ok((d, body, rest)) => {
            match d.char0 {
                None => Err(MathError::MissingField),
                Some(mark) => {
                    let v = match d.align {
                        Some(v) => v,
                        None => 0u8,
                    };
                    match spec_stretch_stack_position(v) {
                        None => Err(MathError::InvalidValue),
                        Some(pos) => Ok((EqNode::StretchStack { mark, pos, body }, rest)),
                    }
                },
            }
        },
    }
}

/// Parses a subscript: two arguments — the body, then the subscript — and no
/// alignment data.
pub open spec fn sp_subscript(toks: Seq<TokenV>) -> Result<(EqNode, Seq<TokenV>), MathError>
    decreases toks.len(), 2int,
{
    match sp_object_2(toks, MathObjectType::Subscript) {
        Err(e) => Err(e),
        Ok((d, body, sub, rest)) => {
            if d.align is Some {
                Err(MathError::UnexpectedAlignData)
            } else {
                Ok((EqNode::Subscript { sub, body }, rest))
            }
        },
    }
}

/// Parses a combined subscript / superscript: three arguments — the body,
/// the subscript, the superscript; any alignment byte but the one listed
/// value is a decode error.
pub open spec fn sp_sub_sup(toks: Seq<TokenV>) -> Result<(EqNode, Seq<TokenV>), MathError>
    decreases toks.len(), 2int,
{
    match sp_object_3(toks, MathObjectType::SubSup) {
        Err(e) => Err(e),
        Ok((d, body, sub, sup, rest)) => {
            match d.align {
                None => Ok((EqNode::SubSup { align: None, sub, sup, body }, rest)),
                Some(v) => match spec_sub_sup_alignment(v) {
                    None => Err(MathError::InvalidValue),
                    Some(a) => Ok((EqNode::SubSup { align: Some(a), sub, sup, body }, rest)),
                },
            }
        },
    }
}

/// Parses a superscript: two arguments — the body, then the superscript —
/// and no alignment data.
pub open spec fn sp_superscript(toks: Seq<TokenV>) -> Result<(EqNode, Seq<TokenV>), MathError>
    decreases toks.len(), 2int,
{
    match sp_object_2(toks, MathObjectType::Superscript) {
        Err(e) => Err(e),
        Ok((d, body, sup, rest)) => {
            if d.align is Some {
                Err(MathError::UnexpectedAlignData)
            } else {
                Ok((EqNode::Superscript { sup, body }, rest))
            }
        },
    }
}

/// Parses an underbar: one argument, no alignment data.
pub open spec fn sp_under_bar(toks: Seq<TokenV>) -> Result<(EqNode, Seq<TokenV>), MathError>
    decreases toks.len(), 2int,
{
    match sp_object_1(toks, MathObjectType::Underbar) {
        Err(e) => Err(e),
        Ok((d, body, rest)) => {
            if d.align is Some {
                Err(MathError::UnexpectedAlignData)
            } else {
                Ok((EqNode::UnderBar { body }, rest))
            }
        },
    }
}

/// Parses an upper limit: two arguments, no alignment data.
pub open spec fn sp_upper_limit(toks: Seq<TokenV>) -> Result<(EqNode, Seq<TokenV>), MathError>
    decreases toks.len(), 2int,
{
    match sp_object_2(toks, MathObjectType::UpperLimit) {
        Err(e) => Err(e),
        Ok((d, body, limit, rest)) => {
            if d.align is Some {
                Err(MathError::UnexpectedAlignData)
            } else {
                Ok((EqNode::UpperLimit { body, limit }, rest))
            }
        },
    }
}

/// Parsing the rest of an argument from `rest` completes parsing it from
/// `whole`, with `done` the nodes already taken.
pub open spec fn arg_continues(
    whole: Seq<TokenV>,
    done: Seq<EqNode>,
    rest: Seq<TokenV>,
    ty: MathObjectType,
) -> bool {
    match sp_arg(rest, ty) {
        Ok(p) => sp_arg(whole, ty) == Ok::<(Seq<EqNode>, Seq<TokenV>), MathError>(
            (done + p.0, p.1),
        ),
        Err(e) => sp_arg(whole, ty) == Err::<(Seq<EqNode>, Seq<TokenV>), MathError>(e),
    }
}

/// Parsing the remaining `k` arguments from `rest` completes parsing all `n`
/// from `whole`, with `done` the arguments already taken.
pub open spec fn args_continue(
    whole: Seq<TokenV>,
    done: Seq<Seq<EqNode>>,
    rest: Seq<TokenV>,
    ty: MathObjectType,
    k: u32,
    n: u32,
) -> bool {
    match sp_args(rest, ty, k) {
        Ok(p) => sp_args(whole, ty, n) == Ok::<(Seq<Seq<EqNode>>, Seq<TokenV>), MathError>(
            (done + p.0, p.1),
        ),
        Err(e) => sp_args(whole, ty, n) == Err::<(Seq<Seq<EqNode>>, Seq<TokenV>), MathError>(e),
    }
}

/// Parsing the rest of the stream from `rest` completes parsing the whole
/// equation, with `done` the nodes already taken.
pub open spec fn equation_continues(
    whole: Seq<TokenV>,
    done: Seq<EqNode>,
    rest: Seq<TokenV>,
) -> bool {
    match sp_equation(rest) {
        Ok(eq) => sp_equation(whole) == Ok::<Seq<EqNode>, MathError>(done + eq),
        Err(e) => sp_equation(whole) == Err::<Seq<EqNode>, MathError>(e),
    }
}

/// Whether the stream's head token starts an object of the given type.
pub open spec fn head_starts(toks: Seq<TokenV>, ty: MathObjectType) -> bool {
    &&& toks.len() > 0
    &&& toks[0] matches TokenV::Start(d) && d.object_type == ty
}

/// The parser state: the tokenizer, and one token of lookahead.
pub struct Parser {
    lexer: Lexer,
    cur: Token,
}

impl Parser {
    /// The token stream still to be consumed: the lookahead token, then
    /// everything the tokenizer will still yield.
    pub closed spec fn toks(&self) -> Seq<TokenV> {
        if self.cur is Eof {
            Seq::empty()
        } else {
            seq![self.cur@] + lex_tokens(self.lexer@)
        }
    }

    /// Once the lookahead is the end of the stream, the tokenizer is
    /// exhausted: the stream never resumes after its end.
    pub closed spec fn wf(&self) -> bool {
        self.cur is Eof ==> self.lexer@.len() == 0
    }

    /// Builds a parser over the given pairs and primes the lookahead.  Typed
    /// fallible for its callers, but never fails.
    pub fn new(tokens: Vec<(String, MathObject)>) -> (r: Result<Parser, MathError>)
        ensures
            r matches Ok(p) && p.wf() && p.toks() == lex_tokens(queue_view(tokens@)),
    {
        let ghost q = queue_view(tokens@);
        let mut lexer = Lexer::new(tokens);
        let cur = match lexer.next() {
            Ok(t) => t,
            Err(e) => {
                return Err(e);
            },
        };
        let p = Parser { lexer, cur };
        proof {
            if q.len() == 0 {
                assert(p.toks() =~= lex_tokens(q));
            } else {
                assert(p.toks() =~= seq![lex_step(q).0] + lex_tokens(lex_step(q).1));
                assert(p.toks() =~= lex_tokens(q));
            }
        }
        Ok(p)
    }

    /// Takes the lookahead token, pulling the next one from the tokenizer.
    /// Typed fallible for its callers, but never fails.
    fn bump(&mut self) -> (r: Result<Token, MathError>)
        requires
            old(self).wf(),
        ensures
            final(self).wf(),
            old(self).toks().len() == 0 ==> (r matches Ok(t) && t is Eof) && final(self).toks()
                == old(self).toks(),
            old(self).toks().len() > 0 ==> (r matches Ok(t) && t@ == old(self).toks()[0]) && final(self).toks() == old(self).toks().drop_first(),
    {
        let ghost lv = self.lexer@;
        let next_tok = match self.lexer.next() {
            Ok(t) => t,
            Err(e) => {
                return Err(e);
            },
        };
        let mut prev = next_tok;
        core::mem::swap(&mut self.cur, &mut prev);
        proof {
            if old(self).cur is Eof {
                assert(lv.len() == 0);
                assert(self.toks() =~= old(self).toks());
            } else {
                assert(old(self).toks()[0] == old(self).cur@);
                if lv.len() == 0 {
                    assert(lex_tokens(lv) =~= Seq::<TokenV>::empty());
                    assert(old(self).toks() =~= seq![old(self).cur@]);
                    assert(self.toks() =~= old(self).toks().drop_first());
                } else {
                    assert(self.toks() =~= seq![lex_step(lv).0] + lex_tokens(lex_step(lv).1));
                    assert(lex_tokens(lv) =~= seq![lex_step(lv).0] + lex_tokens(lex_step(lv).1));
                    assert(old(self).toks().drop_first() =~= lex_tokens(lv));
                    assert(self.toks() =~= old(self).toks().drop_first());
                }
            }
        }
        Ok(prev)
    }

    /// Takes the lookahead, which must start an object of the given type.
    fn bump_start(&mut self, object_type: MathObjectType) -> (r: Result<MathObject, MathError>)
        requires
            old(self).wf(),
        ensures
            final(self).wf(),
            match r {
                Ok(d) => old(self).toks().len() > 0 && old(self).toks()[0] == TokenV::Start(d)
                    && d.object_type == object_type && final(self).toks() == old(
                    self,
                ).toks().drop_first(),
                Err(e) => e == MathError::UnexpectedToken && !head_starts(
                    old(self).toks(),
                    object_type,
                ),
            },
    {
        let token = match self.bump() {
            Ok(t) => t,
            Err(e) => {
                return Err(e);
            },
        };
        match token {
            Token::Start(object) => {
                if object.object_type == object_type {
                    Ok(object)
                } else {
                    Err(MathError::UnexpectedToken)
                }
            },
            _ => Err(MathError::UnexpectedToken),
        }
    }

    /// Takes the lookahead, which must separate two arguments of an object of
    /// the given type.
    fn bump_sep(&mut self, object_type: MathObjectType) -> (r: Result<(), MathError>)
        requires
            old(self).wf(),
        ensures
            final(self).wf(),
            match r {
                Ok(_) => old(self).toks().len() > 0 && old(self).toks()[0] == TokenV::Sep(
                    object_type,
                ) && final(self).toks() == old(self).toks().drop_first(),
                Err(e) => e == MathError::UnexpectedToken && !(old(self).toks().len() > 0 && old(
                    self,
                ).toks()[0] == TokenV::Sep(object_type)),
            },
    {
        let token = match self.bump() {
            Ok(t) => t,
            Err(e) => {
                return Err(e);
            },
        };
        match token {
            Token::Sep(tok_object_type) => {
                if tok_object_type == object_type {
                    Ok(())
                } else {
                    Err(MathError::UnexpectedToken)
                }
            },
            _ => Err(MathError::UnexpectedToken),
        }
    }

    /// Takes the lookahead, which must end an object of the given type.
    fn bump_end(&mut self, object_type: MathObjectType) -> (r: Result<(), MathError>)
        requires
            old(self).wf(),
        ensures
            final(self).wf(),
            match r {
                Ok(_) => old(self).toks().len() > 0 && old(self).toks()[0] == TokenV::End(
                    object_type,
                ) && final(self).toks() == old(self).toks().drop_first(),
                Err(e) => e == MathError::UnexpectedToken && !(old(self).toks().len() > 0 && old(
                    self,
                ).toks()[0] == TokenV::End(object_type)),
            },
    {
        let token = match self.bump() {
            Ok(t) => t,
            Err(e) => {
                return Err(e);
            },
        };
        match token {
            Token::End(tok_object_type) => {
                if tok_object_type == object_type {
                    Ok(())
                } else {
                    Err(MathError::UnexpectedToken)
                }
            },
            _ => Err(MathError::UnexpectedToken),
        }
    }

    /// Checks the descriptor's declared argument count against the arity its
    /// construct requires.
    fn expect_argc(&self, object: &MathObject, count: u32) -> (r: Result<(), MathError>)
        ensures
            match r {
                Ok(_) => object.arg_count == count,
                Err(e) => e == MathError::ArityMismatch && object.arg_count != count,
            },
    {
        if object.arg_count != count {
            Err(MathError::ArityMismatch)
        } else {
            Ok(())
        }
    }

    /// Checks that the descriptor carries no alignment data, on constructs
    /// defined to carry none.
    fn expect_no_align_data(&self, object: &MathObject) -> (r: Result<(), MathError>)
        ensures
            match r {
                Ok(_) => object.align is None,
                Err(e) => e == MathError::UnexpectedAlignData && object.align is Some,
            },
    {
        if object.align.is_some() {
            Err(MathError::UnexpectedAlignData)
        } else {
            Ok(())
        }
    }

    /// Parses the whole token stream as one equation.  On success every
    /// input token was consumed: the lookahead is the end of the stream.
    pub fn parse(&mut self) -> (r: Result<Equation, MathError>)
        requires
            old(self).wf(),
        ensures
            final(self).wf(),
            match r {
                Ok(eq) => sp_equation(old(self).toks()) == Ok::<Seq<EqNode>, MathError>(
                    eq_view(eq),
                ) && final(self).toks() == Seq::<TokenV>::empty(),
                Err(e) => sp_equation(old(self).toks()) == Err::<Seq<EqNode>, MathError>(e),
            },
    {
        let ghost t0 = old(self).toks();
        let mut equation: Vec<MathOp> = Vec::new();
        proof {
            match sp_equation(t0) {
                Ok(eq) => {
                    assert(Seq::<EqNode>::empty() + eq =~= eq);
                },
                Err(_) => {},
            }
            assert(equation_continues(t0, eq_view_seq(equation@), t0));
        }
        loop
            invariant
                self.wf(),
                t0 == old(self).toks(),
                self.toks().len() <= t0.len(),
                equation_continues(t0, eq_view_seq(equation@), self.toks()),
            ensures
                self.wf(),
                self.toks().len() == 0,
                equation_continues(t0, eq_view_seq(equation@), self.toks()),
            decreases self.toks().len(),
        {
            let stop = match &self.cur {
                Token::Eof => true,
                _ => false,
            };
            proof {
                assert(stop == (self.toks().len() == 0));
            }
            if stop {
                break ;
            }
            let ghost pre = self.toks();
            let ghost done = eq_view_seq(equation@);
            let op = match self.parse_op() {
                Ok(op) => op,
                Err(e) => {
                    proof {
                        assert(sp_equation(pre) == Err::<Seq<EqNode>, MathError>(e));
                    }
                    return Err(e);
                },
            };
            proof {
                lemma_eq_view_seq_push(equation@, op);
                match sp_equation(self.toks()) {
                    Ok(eq2) => {
                        assert(sp_equation(pre) == Ok::<Seq<EqNode>, MathError>(
                            seq![op@] + eq2,
                        ));
                        assert(done + (seq![op@] + eq2) =~= done.push(op@) + eq2);
                    },
                    Err(_) => {},
                }
            }
            equation.push(op);
        }
        proof {
            assert(sp_equation(self.toks()) == Ok::<Seq<EqNode>, MathError>(Seq::empty()));
            assert(eq_view_seq(equation@) + Seq::<EqNode>::empty() =~= eq_view_seq(equation@));
            assert(self.toks() =~= Seq::<TokenV>::empty());
        }
        Ok(equation)
    }

    /// Parses one node, dispatching on the lookahead token.
    fn parse_op(&mut self) -> (r: Result<MathOp, MathError>)
        requires
            old(self).wf(),
        ensures
            final(self).wf(),
            match r {
                Ok(op) => sp_op(old(self).toks()) == Ok::<(EqNode, Seq<TokenV>), MathError>(
                    (op@, final(self).toks()),
                ) && final(self).toks().len() < old(self).toks().len(),
                Err(e) => sp_op(old(self).toks()) == Err::<(EqNode, Seq<TokenV>), MathError>(e),
            },
        decreases old(self).toks().len(), 3int,
    {
        let is_text = match &self.cur {
            Token::Text(_) => true,
            _ => false,
        };
        if is_text {
            return self.parse_text();
        }
        let ty_opt: Option<MathObjectType> = match &self.cur {
            Token::Start(object) => Some(object.object_type),
            _ => None,
        };
        match ty_opt {
            None => Err(MathError::UnexpectedToken),
            Some(ty) => match ty {
                MathObjectType::Accent => self.parse_accent(),
                MathObjectType::BoxObject => self.parse_box(),
                MathObjectType::BoxedFormula => self.parse_boxed_formula(),
                MathObjectType::Brackets => self.parse_brackets(),
                MathObjectType::BracketsWithSeps => self.parse_brackets_with_seps(),
                MathObjectType::EquationArray => self.parse_equation_array(),
                MathObjectType::Fraction => self.parse_fraction(),
                MathObjectType::FunctionApply => self.parse_function_apply(),
                MathObjectType::LeftSubSup => self.parse_left_sub_sup(),
                MathObjectType::LowerLimit => self.parse_lower_limit(),
                MathObjectType::Matrix => self.parse_matrix(),
                MathObjectType::Nary => self.parse_nary(),
                MathObjectType::OpChar => self.parse_op_char(),
                MathObjectType::Overbar => self.parse_over_bar(),
                MathObjectType::Phantom => self.parse_phantom(),
                MathObjectType::Radical => self.parse_radical(),
                MathObjectType::SlashedFraction => self.parse_slashed_fraction(),
                MathObjectType::Stack => self.parse_stack(),
                MathObjectType::StretchStack => self.parse_stretch_stack(),
                MathObjectType::Subscript => self.parse_subscript(),
                MathObjectType::SubSup => self.parse_sub_sup(),
                MathObjectType::Superscript => self.parse_superscript(),
                MathObjectType::Underbar => self.parse_under_bar(),
                MathObjectType::UpperLimit => self.parse_upper_limit(),
                MathObjectType::SimpleText => Err(MathError::UnexpectedToken),
                MathObjectType::PlainText => Err(MathError::UnexpectedToken),
            },
        }
    }

    /// Parses one literal text token as a text node.
    fn parse_text(&mut self) -> (r: Result<MathOp, MathError>)
        requires
            old(self).wf(),
        ensures
            final(self).wf(),
            match r {
                Ok(op) => {
                    &&& old(self).toks().len() > 0
                    &&& old(self).toks()[0] matches TokenV::Text(s) && op@ == EqNode::Text(s)
                    &&& final(self).toks() == old(self).toks().drop_first()
                    &&& final(self).toks().len() < old(self).toks().len()
                },
                Err(e) => e == MathError::UnexpectedToken && !(old(self).toks().len() > 0 && old(
                    self,
                ).toks()[0] is Text),
            },
    {
        let token = match self.bump() {
            Ok(t) => t,
            Err(e) => {
                return Err(e);
            },
        };
        match token {
            Token::Text(text) => Ok(MathOp::Text(text)),
            _ => Err(MathError::UnexpectedToken),
        }
    }

    /// Parses one argument of a math object: nodes until the object's own
    /// separator or end token comes up.
    fn parse_arg(&mut self, object_type: MathObjectType) -> (r: Result<Equation, MathError>)
        requires
            old(self).wf(),
        ensures
            final(self).wf(),
            match r {
                Ok(eq) => sp_arg(old(self).toks(), object_type) == Ok::<
                    (Seq<EqNode>, Seq<TokenV>),
                    MathError,
                >((eq_view(eq), final(self).toks())) && final(self).toks().len() <= old(
                    self,
                ).toks().len(),
                Err(e) => sp_arg(old(self).toks(), object_type) == Err::<
                    (Seq<EqNode>, Seq<TokenV>),
                    MathError,
                >(e),
            },
        decreases old(self).toks().len(), 4int,
    {
        let ghost t0 = old(self).toks();
        let mut equation: Vec<MathOp> = Vec::new();
        proof {
            match sp_arg(t0, object_type) {
                Ok(p) => {
                    assert(Seq::<EqNode>::empty() + p.0 =~= p.0);
                },
                Err(_) => {},
            }
            assert(arg_continues(t0, eq_view_seq(equation@), t0, object_type));
        }
        loop
            invariant
                self.wf(),
                t0 == old(self).toks(),
                self.toks().len() <= t0.len(),
                arg_continues(t0, eq_view_seq(equation@), self.toks(), object_type),
            ensures
                self.wf(),
                self.toks().len() <= t0.len(),
                arg_continues(t0, eq_view_seq(equation@), self.toks(), object_type),
                self.toks().len() > 0 && (self.toks()[0] == TokenV::Sep(object_type)
                    || self.toks()[0] == TokenV::End(object_type)),
            decreases self.toks().len(),
        {
            let stop = match &self.cur {
                Token::Sep(t) => *t == object_type,
                Token::End(t) => *t == object_type,
                _ => false,
            };
            proof {
                assert(stop == (self.toks().len() > 0 && (self.toks()[0] == TokenV::Sep(
                    object_type,
                ) || self.toks()[0] == TokenV::End(object_type))));
            }
            if stop {
                break ;
            }
            let ghost pre = self.toks();
            let ghost done = eq_view_seq(equation@);
            let op = match self.parse_op() {
                Ok(op) => op,
                Err(e) => {
                    proof {
                        assert(sp_arg(pre, object_type) == Err::<
                            (Seq<EqNode>, Seq<TokenV>),
                            MathError,
                        >(e));
                    }
                    return Err(e);
                },
            };
            proof {
                lemma_eq_view_seq_push(equation@, op);
                match sp_arg(self.toks(), object_type) {
                    Ok(p2) => {
                        assert(sp_arg(pre, object_type) == Ok::<
                            (Seq<EqNode>, Seq<TokenV>),
                            MathError,
                        >((seq![op@] + p2.0, p2.1)));
                        assert(done + (seq![op@] + p2.0) =~= done.push(op@) + p2.0);
                    },
                    Err(_) => {},
                }
            }
            equation.push(op);
        }
        proof {
            assert(sp_arg(self.toks(), object_type) == Ok::<(Seq<EqNode>, Seq<TokenV>), MathError>(
                (Seq::empty(), self.toks()),
            ));
            assert(eq_view_seq(equation@) + Seq::<EqNode>::empty() =~= eq_view_seq(equation@));
        }
        Ok(equation)
    }

    /// Parses a one-argument object of the given type.
    fn parse_object_1(&mut self, object_type: MathObjectType) -> (r: Result<
        (MathObject, Equation),
        MathError,
    >)
        requires
            old(self).wf(),
        ensures
            final(self).wf(),
            match r {
                Ok(p) => sp_object_1(old(self).toks(), object_type) == Ok::<
                    (MathObject, Seq<EqNode>, Seq<TokenV>),
                    MathError,
                >((p.0, eq_view(p.1), final(self).toks())) && final(self).toks().len() < old(
                    self,
                ).toks().len(),
                Err(e) => sp_object_1(old(self).toks(), object_type) == Err::<
                    (MathObject, Seq<EqNode>, Seq<TokenV>),
                    MathError,
                >(e),
            },
        decreases old(self).toks().len(), 1int,
    {
        let object = match self.bump_start(object_type) {
            Ok(d) => d,
            Err(e) => {
                return Err(e);
            },
        };
        match self.expect_argc(&object, 1) {
            Ok(_) => {},
            Err(e) => {
                return Err(e);
            },
        }
        let arg = match self.parse_arg(object_type) {
            Ok(a) => a,
            Err(e) => {
                return Err(e);
            },
        };
        match self.bump_end(object_type) {
            Ok(_) => {},
            Err(e) => {
                return Err(e);
            },
        }
        Ok((object, arg))
    }

    /// Parses a two-argument object of the given type.
    fn parse_object_2(&mut self, object_type: MathObjectType) -> (r: Result<
        (MathObject, Equation, Equation),
        MathError,
    >)
        requires
            old(self).wf(),
        ensures
            final(self).wf(),
            match r {
                Ok(p) => sp_object_2(old(self).toks(), object_type) == Ok::<
                    (MathObject, Seq<EqNode>, Seq<EqNode>, Seq<TokenV>),
                    MathError,
                >((p.0, eq_view(p.1), eq_view(p.2), final(self).toks())) && final(self).toks().len() < old(self).toks().len(),
                Err(e) => sp_object_2(old(self).toks(), object_type) == Err::<
                    (MathObject, Seq<EqNode>, Seq<EqNode>, Seq<TokenV>),
                    MathError,
                >(e),
            },
        decreases old(self).toks().len(), 1int,
    {
        let object = match self.bump_start(object_type) {
            Ok(d) => d,
            Err(e) => {
                return Err(e);
            },
        };
        match self.expect_argc(&object, 2) {
            Ok(_) => {},
            Err(e) => {
                return Err(e);
            },
        }
        let arg1 = match self.parse_arg(object_type) {
            Ok(a) => a,
            Err(e) => {
                return Err(e);
            },
        };
        match self.bump_sep(object_type) {
            Ok(_) => {},
            Err(e) => {
                return Err(e);
            },
        }
        let arg2 = match self.parse_arg(object_type) {
            Ok(a) => a,
            Err(e) => {
                return Err(e);
            },
        };
        match self.bump_end(object_type) {
            Ok(_) => {},
            Err(e) => {
                return Err(e);
            },
        }
        Ok((object, arg1, arg2))
    }

    /// Parses a three-argument object of the given type.
    fn parse_object_3(&mut self, object_type: MathObjectType) -> (r: Result<
        (MathObject, Equation, Equation, Equation),
        MathError,
    >)
        requires
            old(self).wf(),
        ensures
            final(self).wf(),
            match r {
                Ok(p) => sp_object_3(old(self).toks(), object_type) == Ok::<
                    (MathObject, Seq<EqNode>, Seq<EqNode>, Seq<EqNode>, Seq<TokenV>),
                    MathError,
                >((p.0, eq_view(p.1), eq_view(p.2), eq_view(p.3), final(self).toks())) && final(self).toks().len() < old(self).toks().len(),
                Err(e) => sp_object_3(old(self).toks(), object_type) == Err::<
                    (MathObject, Seq<EqNode>, Seq<EqNode>, Seq<EqNode>, Seq<TokenV>),
                    MathError,
                >(e),
            },
        decreases old(self).toks().len(), 1int,
    {
        let object = match self.bump_start(object_type) {
            Ok(d) => d,
            Err(e) => {
                return Err(e);
            },
        };
        match self.expect_argc(&object, 3) {
            Ok(_) => {},
            Err(e) => {
                return Err(e);
            },
        }
        let arg1 = match self.parse_arg(object_type) {
            Ok(a) => a,
            Err(e) => {
                return Err(e);
            },
        };
        match self.bump_sep(object_type) {
            Ok(_) => {},
            Err(e) => {
                return Err(e);
            },
        }
        let arg2 = match self.parse_arg(object_type) {
            Ok(a) => a,
            Err(e) => {
                return Err(e);
            },
        };
        match self.bump_sep(object_type) {
            Ok(_) => {},
            Err(e) => {
                return Err(e);
            },
        }
        let arg3 = match self.parse_arg(object_type) {
            Ok(a) => a,
            Err(e) => {
                return Err(e);
            },
        };
        match self.bump_end(object_type) {
            Ok(_) => {},
            Err(e) => {
                return Err(e);
            },
        }
        Ok((object, arg1, arg2, arg3))
    }

    /// Parses a variable-argument object of the given type, with as many
    /// arguments as its descriptor declares.
    fn parse_object_n(&mut self, object_type: MathObjectType) -> (r: Result<
        (MathObject, Vec<Equation>),
        MathError,
    >)
        requires
            old(self).wf(),
        ensures
            final(self).wf(),
            match r {
                Ok(p) => sp_object_n(old(self).toks(), object_type) == Ok::<
                    (MathObject, Seq<Seq<EqNode>>, Seq<TokenV>),
                    MathError,
                >((p.0, eq_list_view(p.1), final(self).toks())) && final(self).toks().len() < old(
                    self,
                ).toks().len(),
                Err(e) => sp_object_n(old(self).toks(), object_type) == Err::<
                    (MathObject, Seq<Seq<EqNode>>, Seq<TokenV>),
                    MathError,
                >(e),
            },
        decreases old(self).toks().len(), 1int,
    {
        let ghost t0 = old(self).toks();
        let object = match self.bump_start(object_type) {
            Ok(d) => d,
            Err(e) => {
                return Err(e);
            },
        };
        let ghost t1 = self.toks();
        let n = object.arg_count;
        let mut args: Vec<Equation> = Vec::new();
        let mut i: u32 = 0;
        proof {
            match sp_args(t1, object_type, n) {
                Ok(p) => {
                    assert(Seq::<Seq<EqNode>>::empty() + p.0 =~= p.0);
                },
                Err(_) => {},
            }
            assert(args_continue(t1, eq_list_view_seq(args@), t1, object_type, n, n));
        }
        while i < n
            invariant
                self.wf(),
                0 <= i <= n,
                t0 == old(self).toks(),
                t0.len() > 0,
                t0[0] == TokenV::Start(object),
                object.object_type == object_type,
                n == object.arg_count,
                t1 == t0.drop_first(),
                self.toks().len() <= t1.len(),
                t1.len() < t0.len(),
                args_continue(
                    t1,
                    eq_list_view_seq(args@),
                    self.toks(),
                    object_type,
                    (n - i) as u32,
                    n,
                ),
            decreases n - i,
        {
            let ghost pre = self.toks();
            let ghost done = eq_list_view_seq(args@);
            let ghost k = (n - i) as u32;
            let arg = match self.parse_arg(object_type) {
                Ok(a) => a,
                Err(e) => {
                    proof {
                        assert(sp_args(pre, object_type, k) == Err::<
                            (Seq<Seq<EqNode>>, Seq<TokenV>),
                            MathError,
                        >(e));
                    }
                    return Err(e);
                },
            };
            if i + 1 < n {
                match self.bump_sep(object_type) {
                    Ok(_) => {},
                    Err(e) => {
                        proof {
                            assert(sp_args(pre, object_type, k) == Err::<
                                (Seq<Seq<EqNode>>, Seq<TokenV>),
                                MathError,
                            >(e));
                        }
                        return Err(e);
                    },
                }
                proof {
                    lemma_eq_list_view_seq_push(args@, arg);
                    match sp_args(self.toks(), object_type, (k - 1) as u32) {
                        Ok(p2) => {
                            assert(sp_args(pre, object_type, k) == Ok::<
                                (Seq<Seq<EqNode>>, Seq<TokenV>),
                                MathError,
                            >((seq![eq_view(arg)] + p2.0, p2.1)));
                            assert(done + (seq![eq_view(arg)] + p2.0) =~= done.push(eq_view(arg))
                                + p2.0);
                        },
                        Err(_) => {},
                    }
                }
            } else {
                match self.bump_end(object_type) {
                    Ok(_) => {},
                    Err(e) => {
                        proof {
                            assert(sp_args(pre, object_type, k) == Err::<
                                (Seq<Seq<EqNode>>, Seq<TokenV>),
                                MathError,
                            >(e));
                        }
                        return Err(e);
                    },
                }
                proof {
                    lemma_eq_list_view_seq_push(args@, arg);
                    assert(sp_args(pre, object_type, 1) == Ok::<
                        (Seq<Seq<EqNode>>, Seq<TokenV>),
                        MathError,
                    >((seq![eq_view(arg)], self.toks())));
                    assert(done + seq![eq_view(arg)] =~= done.push(eq_view(arg)));
                    assert(sp_args(self.toks(), object_type, 0) == Ok::<
                        (Seq<Seq<EqNode>>, Seq<TokenV>),
                        MathError,
                    >((Seq::empty(), self.toks())));
                    assert(done.push(eq_view(arg)) + Seq::<Seq<EqNode>>::empty() =~= done.push(
                        eq_view(arg),
                    ));
                }
            }
            args.push(arg);
            i = i + 1;
        }
        proof {
            assert(sp_args(self.toks(), object_type, 0) == Ok::<
                (Seq<Seq<EqNode>>, Seq<TokenV>),
                MathError,
            >((Seq::empty(), self.toks())));
            assert(eq_list_view_seq(args@) + Seq::<Seq<EqNode>>::empty() =~= eq_list_view_seq(args@));
        }
        Ok((object, args))
    }

    /// Parses an accent.
    fn parse_accent(&mut self) -> (r: Result<MathOp, MathError>)
        requires
            old(self).wf(),
        ensures
            final(self).wf(),
            match r {
                Ok(op) => sp_accent(old(self).toks()) == Ok::<(EqNode, Seq<TokenV>), MathError>(
                    (op@, final(self).toks()),
                ) && final(self).toks().len() < old(self).toks().len(),
                Err(e) => sp_accent(old(self).toks()) == Err::<(EqNode, Seq<TokenV>), MathError>(
                    e,
                ),
            },
        decreases old(self).toks().len(), 2int,
    {
        let (object, body) = match self.parse_object_1(MathObjectType::Accent) {
            Ok(p) => p,
            Err(e) => {
                return Err(e);
            },
        };
        match self.expect_no_align_data(&object) {
            Ok(_) => {},
            Err(e) => {
                return Err(e);
            },
        }
        let mark = match object.char0 {
            Some(c) => c,
            None => {
                return Err(MathError::MissingField);
            },
        };
        proof {
            crate::ast::lemma_op_view_accent(mark, body);
        }
        Ok(MathOp::Accent { mark, body })
    }

    /// Parses an abstract box.
    fn parse_box(&mut self) -> (r: Result<MathOp, MathError>)
        requires
            old(self).wf(),
        ensures
            final(self).wf(),
            match r {
                Ok(op) => sp_box(old(self).toks()) == Ok::<(EqNode, Seq<TokenV>), MathError>(
                    (op@, final(self).toks()),
                ) && final(self).toks().len() < old(self).toks().len(),
                Err(e) => sp_box(old(self).toks()) == Err::<(EqNode, Seq<TokenV>), MathError>(e),
            },
        decreases old(self).toks().len(), 2int,
    {
        let (object, body) = match self.parse_object_1(MathObjectType::BoxObject) {
            Ok(p) => p,
            Err(e) => {
                return Err(e);
            },
        };
        let display = match object.align {
            Some(v) => Some(box_display(v)),
            None => None,
        };
        Ok(MathOp::BoxObject { display, body })
    }

    /// Parses a boxed formula.
    fn parse_boxed_formula(&mut self) -> (r: Result<MathOp, MathError>)
        requires
            old(self).wf(),
        ensures
            final(self).wf(),
            match r {
                Ok(op) => sp_boxed_formula(old(self).toks()) == Ok::<
                    (EqNode, Seq<TokenV>),
                    MathError,
                >((op@, final(self).toks())) && final(self).toks().len() < old(self).toks().len(),
                Err(e) => sp_boxed_formula(old(self).toks()) == Err::<
                    (EqNode, Seq<TokenV>),
                    MathError,
                >(e),
            },
        decreases old(self).toks().len(), 2int,
    {
        let (object, body) = match self.parse_object_1(MathObjectType::BoxedFormula) {
            Ok(p) => p,
            Err(e) => {
                return Err(e);
            },
        };
        let align = match object.align {
            Some(v) => Some(boxed_formula_alignment(v)),
            None => None,
        };
        Ok(MathOp::BoxedFormula { align, body })
    }

    /// Parses a bracket pair.
    fn parse_brackets(&mut self) -> (r: Result<MathOp, MathError>)
        requires
            old(self).wf(),
        ensures
            final(self).wf(),
            match r {
                Ok(op) => sp_brackets(old(self).toks()) == Ok::<(EqNode, Seq<TokenV>), MathError>(
                    (op@, final(self).toks()),
                ) && final(self).toks().len() < old(self).toks().len(),
                Err(e) => sp_brackets(old(self).toks()) == Err::<(EqNode, Seq<TokenV>), MathError>(
                    e,
                ),
            },
        decreases old(self).toks().len(), 2int,
    {
        let (object, body) = match self.parse_object_1(MathObjectType::Brackets) {
            Ok(p) => p,
            Err(e) => {
                return Err(e);
            },
        };
        let align = match object.align {
            None => None,
            Some(v) => match brackets_alignment(v) {
                Some(a) => Some(a),
                None => {
                    return Err(MathError::InvalidValue);
                },
            },
        };
        Ok(MathOp::Brackets { opening: object.char0, closing: object.char1, align, body })
    }

    /// Parses a bracket pair with separators.
    fn parse_brackets_with_seps(&mut self) -> (r: Result<MathOp, MathError>)
        requires
            old(self).wf(),
        ensures
            final(self).wf(),
            match r {
                Ok(op) => sp_brackets_with_seps(old(self).toks()) == Ok::<
                    (EqNode, Seq<TokenV>),
                    MathError,
                >((op@, final(self).toks())) && final(self).toks().len() < old(self).toks().len(),
                Err(e) => sp_brackets_with_seps(old(self).toks()) == Err::<
                    (EqNode, Seq<TokenV>),
                    MathError,
                >(e),
            },
        decreases old(self).toks().len(), 2int,
    {
        let (object, segments) = match self.parse_object_n(MathObjectType::BracketsWithSeps) {
            Ok(p) => p,
            Err(e) => {
                return Err(e);
            },
        };
        let align = match object.align {
            None => None,
            Some(v) => match brackets_alignment(v) {
                Some(a) => Some(a),
                None => {
                    return Err(MathError::InvalidValue);
                },
            },
        };
        let sep = match object.char2 {
            Some(c) => c,
            None => {
                return Err(MathError::MissingField);
            },
        };
        proof {
            crate::ast::lemma_op_view_brackets_with_seps(
                object.char0,
                object.char1,
                sep,
                align,
                segments,
            );
        }
        Ok(
            MathOp::BracketsWithSeps {
                opening: object.char0,
                closing: object.char1,
                sep,
                align,
                segments,
            },
        )
    }

    /// Parses an equation array.
    fn parse_equation_array(&mut self) -> (r: Result<MathOp, MathError>)
        requires
            old(self).wf(),
        ensures
            final(self).wf(),
            match r {
                Ok(op) => sp_equation_array(old(self).toks()) == Ok::<
                    (EqNode, Seq<TokenV>),
                    MathError,
                >((op@, final(self).toks())) && final(self).toks().len() < old(self).toks().len(),
                Err(e) => sp_equation_array(old(self).toks()) == Err::<
                    (EqNode, Seq<TokenV>),
                    MathError,
                >(e),
            },
        decreases old(self).toks().len(), 2int,
    {
        let (object, rows) = match self.parse_object_n(MathObjectType::EquationArray) {
            Ok(p) => p,
            Err(e) => {
                return Err(e);
            },
        };
        let columns = match object.column {
            Some(c) => c,
            None => {
                return Err(MathError::MissingField);
            },
        };
        let align = match object.align {
            None => None,
            Some(v) => match equation_array_alignment(v) {
                Some(a) => Some(a),
                None => {
                    return Err(MathError::InvalidValue);
                },
            },
        };
        Ok(MathOp::EquationArray { columns, align, rows })
    }

    /// Parses a fraction.
    fn parse_fraction(&mut self) -> (r: Result<MathOp, MathError>)
        requires
            old(self).wf(),
        ensures
            final(self).wf(),
            match r {
                Ok(op) => sp_fraction(old(self).toks()) == Ok::<(EqNode, Seq<TokenV>), MathError>(
                    (op@, final(self).toks()),
                ) && final(self).toks().len() < old(self).toks().len(),
                Err(e) => sp_fraction(old(self).toks()) == Err::<(EqNode, Seq<TokenV>), MathError>(
                    e,
                ),
            },
        decreases old(self).toks().len(), 2int,
    {
        let (object, num, den) = match self.parse_object_2(MathObjectType::Fraction) {
            Ok(p) => p,
            Err(e) => {
                return Err(e);
            },
        };
        let small = object.char0 == Some('\u{2298}');
        match self.expect_no_align_data(&object) {
            Ok(_) => {},
            Err(e) => {
                return Err(e);
            },
        }
        Ok(MathOp::Fraction { num, den, small })
    }

    /// Parses a function application.
    fn parse_function_apply(&mut self) -> (r: Result<MathOp, MathError>)
        requires
            old(self).wf(),
        ensures
            final(self).wf(),
            match r {
                Ok(op) => sp_function_apply(old(self).toks()) == Ok::<
                    (EqNode, Seq<TokenV>),
                    MathError,
                >((op@, final(self).toks())) && final(self).toks().len() < old(self).toks().len(),
                Err(e) => sp_function_apply(old(self).toks()) == Err::<
                    (EqNode, Seq<TokenV>),
                    MathError,
                >(e),
            },
        decreases old(self).toks().len(), 2int,
    {
        let (object, func, body) = match self.parse_object_2(MathObjectType::FunctionApply) {
            Ok(p) => p,
            Err(e) => {
                return Err(e);
            },
        };
        match self.expect_no_align_data(&object) {
            Ok(_) => {},
            Err(e) => {
                return Err(e);
            },
        }
        Ok(MathOp::FunctionApply { func, body })
    }

    /// Parses a left subscript / superscript.
    fn parse_left_sub_sup(&mut self) -> (r: Result<MathOp, MathError>)
        requires
            old(self).wf(),
        ensures
            final(self).wf(),
            match r {
                Ok(op) => sp_left_sub_sup(old(self).toks()) == Ok::<
                    (EqNode, Seq<TokenV>),
                    MathError,
                >((op@, final(self).toks())) && final(self).toks().len() < old(self).toks().len(),
                Err(e) => sp_left_sub_sup(old(self).toks()) == Err::<
                    (EqNode, Seq<TokenV>),
                    MathError,
                >(e),
            },
        decreases old(self).toks().len(), 2int,
    {
        let (object, sub, sup, body) = match self.parse_object_3(MathObjectType::LeftSubSup) {
            Ok(p) => p,
            Err(e) => {
                return Err(e);
            },
        };
        match self.expect_no_align_data(&object) {
            Ok(_) => {},
            Err(e) => {
                return Err(e);
            },
        }
        Ok(MathOp::LeftSubSup { sub, sup, body })
    }

    /// Parses a lower limit.
    fn parse_lower_limit(&mut self) -> (r: Result<MathOp, MathError>)
        requires
            old(self).wf(),
        ensures
            final(self).wf(),
            match r {
                Ok(op) => sp_lower_limit(old(self).toks()) == Ok::<
                    (EqNode, Seq<TokenV>),
                    MathError,
                >((op@, final(self).toks())) && final(self).toks().len() < old(self).toks().len(),
                Err(e) => sp_lower_limit(old(self).toks()) == Err::<
                    (EqNode, Seq<TokenV>),
                    MathError,
                >(e),
            },
        decreases old(self).toks().len(), 2int,
    {
        let (object, body, limit) = match self.parse_object_2(MathObjectType::LowerLimit) {
            Ok(p) => p,
            Err(e) => {
                return Err(e);
            },
        };
        match self.expect_no_align_data(&object) {
            Ok(_) => {},
            Err(e) => {
                return Err(e);
            },
        }
        Ok(MathOp::LowerLimit { body, limit })
    }

    /// Parses a matrix.
    fn parse_matrix(&mut self) -> (r: Result<MathOp, MathError>)
        requires
            old(self).wf(),
        ensures
            final(self).wf(),
            match r {
                Ok(op) => sp_matrix(old(self).toks()) == Ok::<(EqNode, Seq<TokenV>), MathError>(
                    (op@, final(self).toks()),
                ) && final(self).toks().len() < old(self).toks().len(),
                Err(e) => sp_matrix(old(self).toks()) == Err::<(EqNode, Seq<TokenV>), MathError>(
                    e,
                ),
            },
        decreases old(self).toks().len(), 2int,
    {
        let (object, items) = match self.parse_object_n(MathObjectType::Matrix) {
            Ok(p) => p,
            Err(e) => {
                return Err(e);
            },
        };
        let columns = match object.column {
            Some(c) => c,
            None => {
                return Err(MathError::MissingField);
            },
        };
        let c = match object.char0 {
            Some(c) => c,
            None => {
                return Err(MathError::MissingField);
            },
        };
        let brackets = match matrix_brackets(c) {
            Some(b) => b,
            None => {
                return Err(MathError::InvalidValue);
            },
        };
        let align = match object.align {
            None => None,
            Some(v) => match matrix_alignment(v) {
                Some(a) => Some(a),
                None => {
                    return Err(MathError::InvalidValue);
                },
            },
        };
        Ok(MathOp::Matrix { columns, brackets, align, items })
    }

    /// Parses an n-ary operator.
    fn parse_nary(&mut self) -> (r: Result<MathOp, MathError>)
        requires
            old(self).wf(),
        ensures
            final(self).wf(),
            match r {
                Ok(op) => sp_nary(old(self).toks()) == Ok::<(EqNode, Seq<TokenV>), MathError>(
                    (op@, final(self).toks()),
                ) && final(self).toks().len() < old(self).toks().len(),
                Err(e) => sp_nary(old(self).toks()) == Err::<(EqNode, Seq<TokenV>), MathError>(e),
            },
        decreases old(self).toks().len(), 2int,
    {
        let (object, sub, sup, body) = match self.parse_object_3(MathObjectType::Nary) {
            Ok(p) => p,
            Err(e) => {
                return Err(e);
            },
        };
        let op_char = match object.char0 {
            Some(c) => c,
            None => {
                return Err(MathError::MissingField);
            },
        };
        let display = match object.align {
            Some(v) => Some(nary_display(v)),
            None => None,
        };
        proof {
            crate::ast::lemma_op_view_nary(op_char, display, sub, sup, body);
        }
        Ok(MathOp::NAry { op: op_char, display, sub, sup, body })
    }

    /// Parses a no-build operator character as a literal text node.
    fn parse_op_char(&mut self) -> (r: Result<MathOp, MathError>)
        requires
            old(self).wf(),
        ensures
            final(self).wf(),
            match r {
                Ok(op) => sp_op_char(old(self).toks()) == Ok::<(EqNode, Seq<TokenV>), MathError>(
                    (op@, final(self).toks()),
                ) && final(self).toks().len() < old(self).toks().len(),
                Err(e) => sp_op_char(old(self).toks()) == Err::<(EqNode, Seq<TokenV>), MathError>(
                    e,
                ),
            },
        decreases old(self).toks().len(), 2int,
    {
        let object = match self.bump_start(MathObjectType::OpChar) {
            Ok(d) => d,
            Err(e) => {
                return Err(e);
            },
        };
        match self.expect_argc(&object, 0) {
            Ok(_) => {},
            Err(e) => {
                return Err(e);
            },
        }
        match self.bump_end(MathObjectType::OpChar) {
            Ok(_) => {},
            Err(e) => {
                return Err(e);
            },
        }
        let mut text = String::new();
        if let Some(c) = object.char0 {
            crate::utils::push_char(&mut text, c);
        }
        proof {
            match object.char0 {
                Some(c) => {
                    assert(text@ =~= seq![c]);
                },
                None => {
                    assert(text@ =~= Seq::<char>::empty());
                },
            }
        }
        Ok(MathOp::Text(text))
    }

    /// Parses an overbar.
    fn parse_over_bar(&mut self) -> (r: Result<MathOp, MathError>)
        requires
            old(self).wf(),
        ensures
            final(self).wf(),
            match r {
                Ok(op) => sp_over_bar(old(self).toks()) == Ok::<(EqNode, Seq<TokenV>), MathError>(
                    (op@, final(self).toks()),
                ) && final(self).toks().len() < old(self).toks().len(),
                Err(e) => sp_over_bar(old(self).toks()) == Err::<(EqNode, Seq<TokenV>), MathError>(
                    e,
                ),
            },
        decreases old(self).toks().len(), 2int,
    {
        let (object, body) = match self.parse_object_1(MathObjectType::Overbar) {
            Ok(p) => p,
            Err(e) => {
                return Err(e);
            },
        };
        match self.expect_no_align_data(&object) {
            Ok(_) => {},
            Err(e) => {
                return Err(e);
            },
        }
        Ok(MathOp::OverBar { body })
    }

    /// Parses a phantom.
    fn parse_phantom(&mut self) -> (r: Result<MathOp, MathError>)
        requires
            old(self).wf(),
        ensures
            final(self).wf(),
            match r {
                Ok(op) => sp_phantom(old(self).toks()) == Ok::<(EqNode, Seq<TokenV>), MathError>(
                    (op@, final(self).toks()),
                ) && final(self).toks().len() < old(self).toks().len(),
                Err(e) => sp_phantom(old(self).toks()) == Err::<(EqNode, Seq<TokenV>), MathError>(
                    e,
                ),
            },
        decreases old(self).toks().len(), 2int,
    {
        let (object, body) = match self.parse_object_1(MathObjectType::Phantom) {
            Ok(p) => p,
            Err(e) => {
                return Err(e);
            },
        };
        let c = match object.char0 {
            Some(c) => c,
            None => {
                return Err(MathError::MissingField);
            },
        };
        let kind = match phantom_kind(c) {
            Some(k) => k,
            None => {
                return Err(MathError::InvalidValue);
            },
        };
        let display = match object.align {
            Some(v) => Some(phantom_display(v)),
            None => None,
        };
        Ok(MathOp::Phantom { kind, display, body })
    }

    /// Parses a radical.
    fn parse_radical(&mut self) -> (r: Result<MathOp, MathError>)
        requires
            old(self).wf(),
        ensures
            final(self).wf(),
            match r {
                Ok(op) => sp_radical(old(self).toks()) == Ok::<(EqNode, Seq<TokenV>), MathError>(
                    (op@, final(self).toks()),
                ) && final(self).toks().len() < old(self).toks().len(),
                Err(e) => sp_radical(old(self).toks()) == Err::<(EqNode, Seq<TokenV>), MathError>(
                    e,
                ),
            },
        decreases old(self).toks().len(), 2int,
    {
        let (object, degree, body) = match self.parse_object_2(MathObjectType::Radical) {
            Ok(p) => p,
            Err(e) => {
                return Err(e);
            },
        };
        match self.expect_no_align_data(&object) {
            Ok(_) => {},
            Err(e) => {
                return Err(e);
            },
        }
        Ok(MathOp::Radical { degree, body })
    }

    /// Parses a slashed fraction.
    fn parse_slashed_fraction(&mut self) -> (r: Result<MathOp, MathError>)
        requires
            old(self).wf(),
        ensures
            final(self).wf(),
            match r {
                Ok(op) => sp_slashed_fraction(old(self).toks()) == Ok::<
                    (EqNode, Seq<TokenV>),
                    MathError,
                >((op@, final(self).toks())) && final(self).toks().len() < old(self).toks().len(),
                Err(e) => sp_slashed_fraction(old(self).toks()) == Err::<
                    (EqNode, Seq<TokenV>),
                    MathError,
                >(e),
            },
        decreases old(self).toks().len(), 2int,
    {
        let (object, num, den) = match self.parse_object_2(MathObjectType::SlashedFraction) {
            Ok(p) => p,
            Err(e) => {
                return Err(e);
            },
        };
        let linear = object.char0 == Some('\u{2215}');
        match self.expect_no_align_data(&object) {
            Ok(_) => {},
            Err(e) => {
                return Err(e);
            },
        }
        Ok(MathOp::SlashedFraction { num, den, linear })
    }

    /// Parses a stack.
    fn parse_stack(&mut self) -> (r: Result<MathOp, MathError>)
        requires
            old(self).wf(),
        ensures
            final(self).wf(),
            match r {
                Ok(op) => sp_stack(old(self).toks()) == Ok::<(EqNode, Seq<TokenV>), MathError>(
                    (op@, final(self).toks()),
                ) && final(self).toks().len() < old(self).toks().len(),
                Err(e) => sp_stack(old(self).toks()) == Err::<(EqNode, Seq<TokenV>), MathError>(e),
            },
        decreases old(self).toks().len(), 2int,
    {
        let (object, num, den) = match self.parse_object_2(MathObjectType::Stack) {
            Ok(p) => p,
            Err(e) => {
                return Err(e);
            },
        };
        match self.expect_no_align_data(&object) {
            Ok(_) => {},
            Err(e) => {
                return Err(e);
            },
        }
        Ok(MathOp::Stack { num, den })
    }

    /// Parses a stretch stack.
    fn parse_stretch_stack(&mut self) -> (r: Result<MathOp, MathError>)
        requires
            old(self).wf(),
        ensures
            final(self).wf(),
            match r {
                Ok(op) => sp_stretch_stack(old(self).toks()) == Ok::<
                    (EqNode, Seq<TokenV>),
                    MathError,
                >((op@, final(self).toks())) && final(self).toks().len() < old(self).toks().len(),
                Err(e) => sp_stretch_stack(old(self).toks()) == Err::<
                    (EqNode, Seq<TokenV>),
                    MathError,
                >(e),
            },
        decreases old(self).toks().len(), 2int,
    {
        let (object, body) = match self.parse_object_1(MathObjectType::StretchStack) {
            Ok(p) => p,
            Err(e) => {
                return Err(e);
            },
        };
        let mark = match object.char0 {
            Some(c) => c,
            None => {
                return Err(MathError::MissingField);
            },
        };
        let align_value = match object.align {
            Some(v) => v,
            None => 0,
        };
        let pos = match stretch_stack_position(align_value) {
            Some(p) => p,
            None => {
                return Err(MathError::InvalidValue);
            },
        };
        proof {
            crate::ast::lemma_op_view_stretch_stack(mark, pos, body);
        }
        Ok(MathOp::StretchStack { mark, pos, body })
    }

    /// Parses a subscript.
    fn parse_subscript(&mut self) -> (r: Result<MathOp, MathError>)
        requires
            old(self).wf(),
        ensures
            final(self).wf(),
            match r {
                Ok(op) => sp_subscript(old(self).toks()) == Ok::<(EqNode, Seq<TokenV>), MathError>(
                    (op@, final(self).toks()),
                ) && final(self).toks().len() < old(self).toks().len(),
                Err(e) => sp_subscript(old(self).toks()) == Err::<
                    (EqNode, Seq<TokenV>),
                    MathError,
                >(e),
            },
        decreases old(self).toks().len(), 2int,
    {
        let (object, body, sub) = match self.parse_object_2(MathObjectType::Subscript) {
            Ok(p) => p,
            Err(e) => {
                return Err(e);
            },
        };
        match self.expect_no_align_data(&object) {
            Ok(_) => {},
            Err(e) => {
                return Err(e);
            },
        }
        Ok(MathOp::Subscript { sub, body })
    }

    /// Parses a combined subscript / superscript.
    fn parse_sub_sup(&mut self) -> (r: Result<MathOp, MathError>)
        requires
            old(self).wf(),
        ensures
            final(self).wf(),
            match r {
                Ok(op) => sp_sub_sup(old(self).toks()) == Ok::<(EqNode, Seq<TokenV>), MathError>(
                    (op@, final(self).toks()),
                ) && final(self).toks().len() < old(self).toks().len(),
                Err(e) => sp_sub_sup(old(self).toks()) == Err::<(EqNode, Seq<TokenV>), MathError>(
                    e,
                ),
            },
        decreases old(self).toks().len(), 2int,
    {
        let (object, body, sub, sup) = match self.parse_object_3(MathObjectType::SubSup) {
            Ok(p) => p,
            Err(e) => {
                return Err(e);
            },
        };
        let align = match object.align {
            None => None,
            Some(v) => match sub_sup_alignment(v) {
                Some(a) => Some(a),
                None => {
                    return Err(MathError::InvalidValue);
                },
            },
        };
        Ok(MathOp::SubSup { align, sub, sup, body })
    }

    /// Parses a superscript.
    fn parse_superscript(&mut self) -> (r: Result<MathOp, MathError>)
        requires
            old(self).wf(),
        ensures
            final(self).wf(),
            match r {
                Ok(op) => sp_superscript(old(self).toks()) == Ok::<
                    (EqNode, Seq<TokenV>),
                    MathError,
                >((op@, final(self).toks())) && final(self).toks().len() < old(self).toks().len(),
                Err(e) => sp_superscript(old(self).toks()) == Err::<
                    (EqNode, Seq<TokenV>),
                    MathError,
                >(e),
            },
        decreases old(self).toks().len(), 2int,
    {
        let (object, body, sup) = match self.parse_object_2(MathObjectType::Superscript) {
            Ok(p) => p,
            Err(e) => {
                return Err(e);
            },
        };
        match self.expect_no_align_data(&object) {
            Ok(_) => {},
            Err(e) => {
                return Err(e);
            },
        }
        Ok(MathOp::Superscript { sup, body })
    }

    /// Parses an underbar.
    fn parse_under_bar(&mut self) -> (r: Result<MathOp, MathError>)
        requires
            old(self).wf(),
        ensures
            final(self).wf(),
            match r {
                Ok(op) => sp_under_bar(old(self).toks()) == Ok::<(EqNode, Seq<TokenV>), MathError>(
                    (op@, final(self).toks()),
                ) && final(self).toks().len() < old(self).toks().len(),
                Err(e) => sp_under_bar(old(self).toks()) == Err::<
                    (EqNode, Seq<TokenV>),
                    MathError,
                >(e),
            },
        decreases old(self).toks().len(), 2int,
    {
        let (object, body) = match self.parse_object_1(MathObjectType::Underbar) {
            Ok(p) => p,
            Err(e) => {
                return Err(e);
            },
        };
        match self.expect_no_align_data(&object) {
            Ok(_) => {},
            Err(e) => {
                return Err(e);
            },
        }
        Ok(MathOp::UnderBar { body })
    }

    /// Parses an upper limit.
    fn parse_upper_limit(&mut self) -> (r: Result<MathOp, MathError>)
        requires
            old(self).wf(),
        ensures
            final(self).wf(),
            match r {
                Ok(op) => sp_upper_limit(old(self).toks()) == Ok::<
                    (EqNode, Seq<TokenV>),
                    MathError,
                >((op@, final(self).toks())) && final(self).toks().len() < old(self).toks().len(),
                Err(e) => sp_upper_limit(old(self).toks()) == Err::<
                    (EqNode, Seq<TokenV>),
                    MathError,
                >(e),
            },
        decreases old(self).toks().len(), 2int,
    {
        let (object, body, limit) = match self.parse_object_2(MathObjectType::UpperLimit) {
            Ok(p) => p,
            Err(e) => {
                return Err(e);
            },
        };
        match self.expect_no_align_data(&object) {
            Ok(_) => {},
            Err(e) => {
                return Err(e);
            },
        }
        Ok(MathOp::UpperLimit { body, limit })
    }
}

} // verus!
