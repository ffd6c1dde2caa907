//! Laws of the math pipeline, stated and proved against the parsing and
//! lowering models.
use vstd::prelude::*;

use crate::ast::EqNode;
use crate::ast::MathObject;
use crate::ast::MathObjectType;
use crate::ast::BoxDisplay;
use crate::ast::BoxSize;
use crate::ast::BoxSpace;
use crate::ast::BoxedFormulaAlignment;
use crate::ast::BracketsAlignment;
use crate::ast::NAryAlignment;
use crate::ast::NAryDisplay;
use crate::ast::NAryGrow;
use crate::ast::PhantomDisplay;
use crate::ast::EquationArrayAlignment;
use crate::ast::MatrixAlignment;
use crate::ast::MatrixBrackets;
use crate::ast::SubSupAlignment;
use crate::ast::PhantomKind;
use crate::ast::StretchStackPosition;
use crate::ast::lemma_size_eq_elem;
use crate::ast::lemma_size_eq_list_elem;
use crate::ast::lemma_size_eq_pos;
use crate::ast::lemma_size_op_pos;
use crate::ast::size_eq;
use crate::ast::size_eq_list;
use crate::ast::size_op;
use crate::error::MathError;
use crate::lexer::TokenV;
use crate::parser::sp_arg;
use crate::parser::sp_args;
use crate::parser::sp_equation;
use crate::parser::sp_object_1;
use crate::parser::sp_object_2;
use crate::parser::sp_object_3;
use crate::parser::sp_object_n;
use crate::parser::sp_op;
use crate::render::spec_render_eq;
use crate::render::spec_render_group;
use crate::render::spec_render_op;
use crate::text::spec_render_text;

verus! {

/// The fixed arity of a math object type, where its grammar fixes one; the
/// variable-argument constructs and the plain-text tags have none.
pub open spec fn fixed_arity(ty: MathObjectType) -> Option<u32> {
    match ty {
        MathObjectType::Accent => Some(1),
        MathObjectType::BoxObject => Some(1),
        MathObjectType::BoxedFormula => Some(1),
        MathObjectType::Brackets => Some(1),
        MathObjectType::BracketsWithSeps => None,
        MathObjectType::EquationArray => None,
        MathObjectType::Fraction => Some(2),
        MathObjectType::FunctionApply => Some(2),
        MathObjectType::LeftSubSup => Some(3),
        MathObjectType::LowerLimit => Some(2),
        MathObjectType::Matrix => None,
        MathObjectType::Nary => Some(3),
        MathObjectType::OpChar => Some(0),
        MathObjectType::Overbar => Some(1),
        MathObjectType::Phantom => Some(1),
        MathObjectType::Radical => Some(2),
        MathObjectType::SlashedFraction => Some(2),
        MathObjectType::Stack => Some(2),
        MathObjectType::StretchStack => Some(1),
        MathObjectType::Subscript => Some(2),
        MathObjectType::SubSup => Some(3),
        MathObjectType::Superscript => Some(2),
        MathObjectType::Underbar => Some(1),
        MathObjectType::UpperLimit => Some(2),
        MathObjectType::SimpleText => None,
        MathObjectType::PlainText => None,
    }
}

/// A descriptor whose declared argument count differs from the fixed arity
/// its object type requires always fails to parse, with an arity error.
pub proof fn lemma_arity_mismatch_fails(toks: Seq<TokenV>, d: MathObject)
    requires
        toks.len() > 0,
        toks[0] == TokenV::Start(d),
        fixed_arity(d.object_type) matches Some(k) && d.arg_count != k,
    ensures
        sp_op(toks) == Err::<(EqNode, Seq<TokenV>), MathError>(MathError::ArityMismatch),
        sp_equation(toks) == Err::<Seq<EqNode>, MathError>(MathError::ArityMismatch),
{
    assert(sp_op(toks) == Err::<(EqNode, Seq<TokenV>), MathError>(MathError::ArityMismatch));
}

/// A start token immediately followed by the end token of a different object
/// type always fails to parse with a structural token error — the wrong
/// construct is never silently closed.  The descriptor is assumed to carry
/// the arity its type requires (at least one argument for variable-argument
/// constructs), so that the structural error is the one reached.
pub proof fn lemma_mismatched_end_fails(toks: Seq<TokenV>, d: MathObject, other: MathObjectType)
    requires
        toks.len() >= 2,
        toks[0] == TokenV::Start(d),
        toks[1] == TokenV::End(other),
        other != d.object_type,
        d.object_type != MathObjectType::SimpleText,
        d.object_type != MathObjectType::PlainText,
        match fixed_arity(d.object_type) {
            Some(k) => d.arg_count == k,
            None => d.arg_count >= 1,
        },
    ensures
        sp_op(toks) == Err::<(EqNode, Seq<TokenV>), MathError>(MathError::UnexpectedToken),
        sp_equation(toks) == Err::<Seq<EqNode>, MathError>(MathError::UnexpectedToken),
{
    let rest = toks.drop_first();
    assert(rest[0] == toks[1]);
    assert(rest.len() > 0);
    let ty = d.object_type;
    assert(rest[0] != TokenV::Sep(ty));
    assert(rest[0] != TokenV::End(ty));
    assert(sp_op(rest) == Err::<(EqNode, Seq<TokenV>), MathError>(MathError::UnexpectedToken));
    assert(sp_arg(rest, ty) == Err::<(Seq<EqNode>, Seq<TokenV>), MathError>(
        MathError::UnexpectedToken,
    ));
    assert(sp_op(toks) == Err::<(EqNode, Seq<TokenV>), MathError>(MathError::UnexpectedToken));
}

/// A descriptor with the given type, argument count and fields.
pub open spec fn descr(
    ty: MathObjectType,
    argc: u32,
    column: Option<u8>,
    align: Option<u8>,
    c0: Option<char>,
    c1: Option<char>,
    c2: Option<char>,
) -> MathObject {
    MathObject { object_type: ty, arg_count: argc, column, align, char0: c0, char1: c1, char2: c2 }
}

/// The alignment byte that encodes a stretch stack position; the first
/// position is what an absent byte decodes to.
pub open spec fn stretch_position_align(pos: StretchStackPosition) -> Option<u8> {
    match pos {
        StretchStackPosition::CharBelow => None,
        StretchStackPosition::CharAbove => Some(1u8),
        StretchStackPosition::BaseBelow => Some(2u8),
        StretchStackPosition::BaseAbove => Some(3u8),
    }
}

/// The specifier character that selects a matrix bracket kind.
pub open spec fn matrix_brackets_char(brackets: Option<MatrixBrackets>) -> char {
    match brackets {
        None => '\u{25a0}',
        Some(MatrixBrackets::Parentheses) => '\u{24a8}',
        Some(MatrixBrackets::VerticalBars) => '\u{24b1}',
        Some(MatrixBrackets::DoubleVerticalBars) => '\u{24a9}',
    }
}

/// The spacing-class bits of an abstract box's display byte.
pub open spec fn box_space_bits(space: BoxSpace) -> u8 {
    match space {
        BoxSpace::Default => 0,
        BoxSpace::Unary => 4,
        BoxSpace::Binary => 8,
        BoxSpace::Relational => 12,
        BoxSpace::Skip => 16,
        BoxSpace::Ord => 20,
        BoxSpace::Differential => 24,
    }
}

/// The size-tier bits of an abstract box's display byte.
pub open spec fn box_size_bits(size: BoxSize) -> u8 {
    match size {
        BoxSize::Text => 0,
        BoxSize::Script => 32,
        BoxSize::ScriptScript => 64,
    }
}

/// The display byte that encodes an abstract box's display properties.
pub open spec fn box_display_byte(d: BoxDisplay) -> u8 {
    (if d.centered {
        1u8
    } else {
        0u8
    }) | box_space_bits(d.space) | box_size_bits(d.size) | (if d.no_break {
        128u8
    } else {
        0u8
    })
}

/// An abstract box's display properties decode back from their byte.
proof fn lemma_box_display_roundtrip(d: BoxDisplay)
    ensures
        crate::ast::spec_box_display(box_display_byte(d)) == d,
{
    let c: u8 = if d.centered {
        1
    } else {
        0
    };
    let sp: u8 = box_space_bits(d.space);
    let sz: u8 = box_size_bits(d.size);
    let nb: u8 = if d.no_break {
        128
    } else {
        0
    };
    assert((c | sp | sz | nb) & 1 == c && (c | sp | sz | nb) & 28 == sp && (c | sp | sz | nb) & 96
        == sz && (c | sp | sz | nb) & 128 == nb) by (bit_vector)
        requires
            c == 0 || c == 1,
            sp == 0 || sp == 4 || sp == 8 || sp == 12 || sp == 16 || sp == 20 || sp == 24,
            sz == 0 || sz == 32 || sz == 64,
            nb == 0 || nb == 128,
    ;
}

/// The alignment byte that encodes a boxed formula's framing flags.
pub open spec fn boxed_formula_alignment_byte(a: BoxedFormulaAlignment) -> u8 {
    (if a.hide_top {
        1u8
    } else {
        0u8
    }) | (if a.hide_bottom {
        2u8
    } else {
        0u8
    }) | (if a.hide_left {
        4u8
    } else {
        0u8
    }) | (if a.hide_right {
        8u8
    } else {
        0u8
    }) | (if a.strike_horizontal {
        16u8
    } else {
        0u8
    }) | (if a.strike_vertical {
        32u8
    } else {
        0u8
    }) | (if a.strike_tlbr {
        64u8
    } else {
        0u8
    }) | (if a.strike_bltr {
        128u8
    } else {
        0u8
    })
}

/// A boxed formula's framing flags decode back from their byte.
proof fn lemma_boxed_formula_alignment_roundtrip(a: BoxedFormulaAlignment)
    ensures
        crate::ast::spec_boxed_formula_alignment(boxed_formula_alignment_byte(a)) == a,
{
    let b0: u8 = if a.hide_top {
        1
    } else {
        0
    };
    let b1: u8 = if a.hide_bottom {
        2
    } else {
        0
    };
    let b2: u8 = if a.hide_left {
        4
    } else {
        0
    };
    let b3: u8 = if a.hide_right {
        8
    } else {
        0
    };
    let b4: u8 = if a.strike_horizontal {
        16
    } else {
        0
    };
    let b5: u8 = if a.strike_vertical {
        32
    } else {
        0
    };
    let b6: u8 = if a.strike_tlbr {
        64
    } else {
        0
    };
    let b7: u8 = if a.strike_bltr {
        128
    } else {
        0
    };
    assert((b0 | b1 | b2 | b3 | b4 | b5 | b6 | b7) & 1 == b0 && (b0 | b1 | b2 | b3 | b4 | b5 | b6
        | b7) & 2 == b1 && (b0 | b1 | b2 | b3 | b4 | b5 | b6 | b7) & 4 == b2 && (b0 | b1 | b2 | b3
        | b4 | b5 | b6 | b7) & 8 == b3 && (b0 | b1 | b2 | b3 | b4 | b5 | b6 | b7) & 16 == b4 && (b0
        | b1 | b2 | b3 | b4 | b5 | b6 | b7) & 32 == b5 && (b0 | b1 | b2 | b3 | b4 | b5 | b6 | b7)
        & 64 == b6 && (b0 | b1 | b2 | b3 | b4 | b5 | b6 | b7) & 128 == b7) by (bit_vector)
        requires
            b0 == 0 || b0 == 1,
            b1 == 0 || b1 == 2,
            b2 == 0 || b2 == 4,
            b3 == 0 || b3 == 8,
            b4 == 0 || b4 == 16,
            b5 == 0 || b5 == 32,
            b6 == 0 || b6 == 64,
            b7 == 0 || b7 == 128,
    ;
}

/// The limit-placement bits of an n-ary operator's display byte.
pub open spec fn nary_alignment_bits(a: NAryAlignment) -> u8 {
    match a {
        NAryAlignment::LimitsDefault => 0,
        NAryAlignment::LimitsUnderOver => 1,
        NAryAlignment::LimitsSubSup => 2,
        NAryAlignment::UpperLimitAsSuperScript => 3,
    }
}

/// The growth bits of an n-ary operator's display byte.
pub open spec fn nary_grow_bits(g: NAryGrow) -> u8 {
    match g {
        NAryGrow::Default => 0,
        NAryGrow::DontGrowWithContent => 64,
        NAryGrow::GrowWithContent => 128,
    }
}

/// The display byte that encodes an n-ary operator's display properties.
pub open spec fn nary_display_byte(d: NAryDisplay) -> u8 {
    nary_alignment_bits(d.align) | (if d.limits_opposite {
        4u8
    } else {
        0u8
    }) | (if d.show_llim_placeholder {
        8u8
    } else {
        0u8
    }) | (if d.show_ulim_placeholder {
        16u8
    } else {
        0u8
    }) | nary_grow_bits(d.grow)
}

/// An n-ary operator's display properties decode back from their byte.
proof fn lemma_nary_display_roundtrip(d: NAryDisplay)
    ensures
        crate::ast::spec_nary_display(nary_display_byte(d)) == d,
{
    let al: u8 = nary_alignment_bits(d.align);
    let op: u8 = if d.limits_opposite {
        4
    } else {
        0
    };
    let ll: u8 = if d.show_llim_placeholder {
        8
    } else {
        0
    };
    let ul: u8 = if d.show_ulim_placeholder {
        16
    } else {
        0
    };
    let gr: u8 = nary_grow_bits(d.grow);
    assert((al | op | ll | ul | gr) & 3 == al && (al | op | ll | ul | gr) & 4 == op && (al | op
        | ll | ul | gr) & 8 == ll && (al | op | ll | ul | gr) & 16 == ul && (al | op | ll | ul
        | gr) & 192 == gr) by (bit_vector)
        requires
            al == 0 || al == 1 || al == 2 || al == 3,
            op == 0 || op == 4,
            ll == 0 || ll == 8,
            ul == 0 || ul == 16,
            gr == 0 || gr == 64 || gr == 128,
    ;
}

/// The display byte that encodes a phantom's display flags.
pub open spec fn phantom_display_byte(p: PhantomDisplay) -> u8 {
    (if p.show {
        1u8
    } else {
        0u8
    }) | (if p.zero_width {
        2u8
    } else {
        0u8
    }) | (if p.zero_ascent {
        4u8
    } else {
        0u8
    }) | (if p.zero_descent {
        8u8
    } else {
        0u8
    }) | (if p.transparent {
        16u8
    } else {
        0u8
    })
}

/// A phantom's display flags decode back from their byte.
proof fn lemma_phantom_display_roundtrip(p: PhantomDisplay)
    ensures
        crate::ast::spec_phantom_display(phantom_display_byte(p)) == p,
{
    let b0: u8 = if p.show {
        1
    } else {
        0
    };
    let b1: u8 = if p.zero_width {
        2
    } else {
        0
    };
    let b2: u8 = if p.zero_ascent {
        4
    } else {
        0
    };
    let b3: u8 = if p.zero_descent {
        8
    } else {
        0
    };
    let b4: u8 = if p.transparent {
        16
    } else {
        0
    };
    assert((b0 | b1 | b2 | b3 | b4) & 224 == 0 && (b0 | b1 | b2 | b3 | b4) & 1 == b0 && (b0 | b1
        | b2 | b3 | b4) & 2 == b1 && (b0 | b1 | b2 | b3 | b4) & 4 == b2 && (b0 | b1 | b2 | b3
        | b4) & 8 == b3 && (b0 | b1 | b2 | b3 | b4) & 16 == b4) by (bit_vector)
        requires
            b0 == 0 || b0 == 1,
            b1 == 0 || b1 == 2,
            b2 == 0 || b2 == 4,
            b3 == 0 || b3 == 8,
            b4 == 0 || b4 == 16,
    ;
}

/// The alignment byte that encodes a bracket growth request.
pub open spec fn brackets_alignment_byte(a: BracketsAlignment) -> u8 {
    match a {
        BracketsAlignment::DontGrow => 64,
        BracketsAlignment::TeXbig => 32,
        BracketsAlignment::TeXBig => 96,
        BracketsAlignment::TeXbigg => 160,
        BracketsAlignment::TeXBigg => 224,
    }
}

/// The alignment byte that encodes an equation array alignment.
pub open spec fn equation_array_alignment_byte(a: EquationArrayAlignment) -> u8 {
    match a {
        EquationArrayAlignment::LayoutWidth => 0,
        EquationArrayAlignment::AlignTopRow => 4,
        EquationArrayAlignment::AlignBottomRow => 12,
    }
}

/// The alignment byte that encodes a matrix alignment.
pub open spec fn matrix_alignment_byte(a: MatrixAlignment) -> u8 {
    match a {
        MatrixAlignment::Center => 0,
        MatrixAlignment::TopRow => 1,
        MatrixAlignment::BottomRow => 3,
        MatrixAlignment::ShowPlaceholder => 8,
    }
}

/// The alignment byte option that encodes an optional alignment, given its
/// per-value encoder.
pub open spec fn sub_sup_alignment_byte(a: SubSupAlignment) -> u8 {
    match a {
        SubSupAlignment::Align => 1,
    }
}

/// The kind character that selects a phantom kind.
pub open spec fn phantom_kind_char(kind: PhantomKind) -> char {
    match kind {
        PhantomKind::FullOrCustom => '\u{27e1}',
        PhantomKind::HorizontalPhantom => '\u{2b04}',
        PhantomKind::VerticalPhantom => '\u{21f3}',
        PhantomKind::AscentSmash => '\u{2b06}',
        PhantomKind::DescentSmash => '\u{2b07}',
        PhantomKind::HorizontalSmash => '\u{2b0c}',
        PhantomKind::VerticalSmash => '\u{2b0d}',
    }
}

/// Whether a tree node can be written back as a descriptor stream: its
/// variable-argument lists fit a declared argument count.
pub open spec fn valid_op(op: EqNode) -> bool
    decreases op,
{
    match op {
        EqNode::Text(_) => true,
        EqNode::Accent { body, .. } => valid_eq(body),
        EqNode::BoxObject { body, .. } => valid_eq(body),
        EqNode::BoxedFormula { body, .. } => valid_eq(body),
        EqNode::Brackets { body, .. } => valid_eq(body),
        EqNode::BracketsWithSeps { segments, .. } => segments.len() <= u32::MAX && valid_list(
            segments,
        ),
        EqNode::EquationArray { rows, .. } => rows.len() <= u32::MAX && valid_list(rows),
        EqNode::Fraction { num, den, .. } => valid_eq(num) && valid_eq(den),
        EqNode::FunctionApply { func, body } => valid_eq(func) && valid_eq(body),
        EqNode::LeftSubSup { sub, sup, body } => valid_eq(sub) && valid_eq(sup) && valid_eq(body),
        EqNode::LowerLimit { body, limit } => valid_eq(body) && valid_eq(limit),
        EqNode::Matrix { items, .. } => items.len() <= u32::MAX && valid_list(items),
        EqNode::NAry { sub, sup, body, .. } => valid_eq(sub) && valid_eq(sup) && valid_eq(body),
        EqNode::OverBar { body } => valid_eq(body),
        EqNode::Phantom { body, .. } => valid_eq(body),
        EqNode::Radical { degree, body } => valid_eq(degree) && valid_eq(body),
        EqNode::SlashedFraction { num, den, .. } => valid_eq(num) && valid_eq(den),
        EqNode::Stack { num, den } => valid_eq(num) && valid_eq(den),
        EqNode::StretchStack { body, .. } => valid_eq(body),
        EqNode::Subscript { sub, body } => valid_eq(sub) && valid_eq(body),
        EqNode::SubSup { sub, sup, body, .. } => valid_eq(sub) && valid_eq(sup) && valid_eq(
            body,
        ),
        EqNode::Superscript { sup, body } => valid_eq(sup) && valid_eq(body),
        EqNode::UnderBar { body } => valid_eq(body),
        EqNode::UpperLimit { body, limit } => valid_eq(body) && valid_eq(limit),
    }
}

/// Whether every node of an equation can be written back.
pub open spec fn valid_eq(eq: Seq<EqNode>) -> bool
    decreases eq,
{
    if eq.len() == 0 {
        true
    } else {
        valid_op(eq[0]) && valid_eq(eq.drop_first())
    }
}

/// Whether every equation of a list can be written back.
pub open spec fn valid_list(list: Seq<Seq<EqNode>>) -> bool
    decreases list,
{
    if list.len() == 0 {
        true
    } else {
        valid_eq(list[0]) && valid_list(list.drop_first())
    }
}

/// The descriptor stream that stands for one tree node: its start token with
/// the descriptor its fields require, its arguments partitioned by its
/// separator tokens, and its end token.
pub open spec fn enc_op(op: EqNode) -> Seq<TokenV>
    decreases op,
{
    match op {
        EqNode::Text(s) => seq![TokenV::Text(s)],
        EqNode::Accent { mark, body } => seq![
            TokenV::Start(descr(MathObjectType::Accent, 1, None, None, Some(mark), None, None)),
        ] + enc_eq(body) + seq![TokenV::End(MathObjectType::Accent)],
        EqNode::BoxObject { display, body } => seq![
            TokenV::Start(
                descr(
                    MathObjectType::BoxObject,
                    1,
                    None,
                    match display {
                        Some(dd) => Some(box_display_byte(dd)),
                        None => None,
                    },
                    None,
                    None,
                    None,
                ),
            ),
        ] + enc_eq(body) + seq![TokenV::End(MathObjectType::BoxObject)],
        EqNode::BoxedFormula { align, body } => seq![
            TokenV::Start(
                descr(
                    MathObjectType::BoxedFormula,
                    1,
                    None,
                    match align {
                        Some(a) => Some(boxed_formula_alignment_byte(a)),
                        None => None,
                    },
                    None,
                    None,
                    None,
                ),
            ),
        ] + enc_eq(body) + seq![TokenV::End(MathObjectType::BoxedFormula)],
        EqNode::Brackets { opening, closing, align, body } => seq![
            TokenV::Start(
                descr(
                    MathObjectType::Brackets,
                    1,
                    None,
                    match align {
                        Some(a) => Some(brackets_alignment_byte(a)),
                        None => None,
                    },
                    opening,
                    closing,
                    None,
                ),
            ),
        ] + enc_eq(body) + seq![TokenV::End(MathObjectType::Brackets)],
        EqNode::BracketsWithSeps { opening, closing, sep, align, segments } => seq![
            TokenV::Start(
                descr(
                    MathObjectType::BracketsWithSeps,
                    segments.len() as u32,
                    None,
                    match align {
                        Some(a) => Some(brackets_alignment_byte(a)),
                        None => None,
                    },
                    opening,
                    closing,
                    Some(sep),
                ),
            ),
        ] + enc_args(segments, MathObjectType::BracketsWithSeps),
        EqNode::EquationArray { columns, align, rows } => seq![
            TokenV::Start(
                descr(
                    MathObjectType::EquationArray,
                    rows.len() as u32,
                    Some(columns),
                    match align {
                        Some(a) => Some(equation_array_alignment_byte(a)),
                        None => None,
                    },
                    None,
                    None,
                    None,
                ),
            ),
        ] + enc_args(rows, MathObjectType::EquationArray),
        EqNode::Fraction { num, den, small } => seq![
            TokenV::Start(
                descr(
                    MathObjectType::Fraction,
                    2,
                    None,
                    None,
                    if small {
                        Some('\u{2298}')
                    } else {
                        None
                    },
                    None,
                    None,
                ),
            ),
        ] + enc_eq(num) + seq![TokenV::Sep(MathObjectType::Fraction)] + enc_eq(den) + seq![
            TokenV::End(MathObjectType::Fraction),
        ],
        EqNode::FunctionApply { func, body } => seq![
            TokenV::Start(descr(MathObjectType::FunctionApply, 2, None, None, None, None, None)),
        ] + enc_eq(func) + seq![TokenV::Sep(MathObjectType::FunctionApply)] + enc_eq(body) + seq![
            TokenV::End(MathObjectType::FunctionApply),
        ],
        EqNode::LeftSubSup { sub, sup, body } => seq![
            TokenV::Start(descr(MathObjectType::LeftSubSup, 3, None, None, None, None, None)),
        ] + enc_eq(sub) + seq![TokenV::Sep(MathObjectType::LeftSubSup)] + enc_eq(sup) + seq![
            TokenV::Sep(MathObjectType::LeftSubSup),
        ] + enc_eq(body) + seq![TokenV::End(MathObjectType::LeftSubSup)],
        EqNode::LowerLimit { body, limit } => seq![
            TokenV::Start(descr(MathObjectType::LowerLimit, 2, None, None, None, None, None)),
        ] + enc_eq(body) + seq![TokenV::Sep(MathObjectType::LowerLimit)] + enc_eq(limit) + seq![
            TokenV::End(MathObjectType::LowerLimit),
        ],
        EqNode::Matrix { columns, brackets, align, items } => seq![
            TokenV::Start(
                descr(
                    MathObjectType::Matrix,
                    items.len() as u32,
                    Some(columns),
                    match align {
                        Some(a) => Some(matrix_alignment_byte(a)),
                        None => None,
                    },
                    Some(matrix_brackets_char(brackets)),
                    None,
                    None,
                ),
            ),
        ] + enc_args(items, MathObjectType::Matrix),
        EqNode::NAry { op: op_char, display, sub, sup, body } => seq![
            TokenV::Start(
                descr(
                    MathObjectType::Nary,
                    3,
                    None,
                    match display {
                        Some(dd) => Some(nary_display_byte(dd)),
                        None => None,
                    },
                    Some(op_char),
                    None,
                    None,
                ),
            ),
        ] + enc_eq(sub) + seq![TokenV::Sep(MathObjectType::Nary)] + enc_eq(sup) + seq![
            TokenV::Sep(MathObjectType::Nary),
        ] + enc_eq(body) + seq![TokenV::End(MathObjectType::Nary)],
        EqNode::OverBar { body } => seq![
            TokenV::Start(descr(MathObjectType::Overbar, 1, None, None, None, None, None)),
        ] + enc_eq(body) + seq![TokenV::End(MathObjectType::Overbar)],
        EqNode::Phantom { kind, display, body } => seq![
            TokenV::Start(
                descr(
                    MathObjectType::Phantom,
                    1,
                    None,
                    match display {
                        Some(p) => Some(phantom_display_byte(p)),
                        None => None,
                    },
                    Some(phantom_kind_char(kind)),
                    None,
                    None,
                ),
            ),
        ] + enc_eq(body) + seq![TokenV::End(MathObjectType::Phantom)],
        EqNode::Radical { degree, body } => seq![
            TokenV::Start(descr(MathObjectType::Radical, 2, None, None, None, None, None)),
        ] + enc_eq(degree) + seq![TokenV::Sep(MathObjectType::Radical)] + enc_eq(body) + seq![
            TokenV::End(MathObjectType::Radical),
        ],
        EqNode::SlashedFraction { num, den, linear } => seq![
            TokenV::Start(
                descr(
                    MathObjectType::SlashedFraction,
                    2,
                    None,
                    None,
                    if linear {
                        Some('\u{2215}')
                    } else {
                        None
                    },
                    None,
                    None,
                ),
            ),
        ] + enc_eq(num) + seq![TokenV::Sep(MathObjectType::SlashedFraction)] + enc_eq(den) + seq![
            TokenV::End(MathObjectType::SlashedFraction),
        ],
        EqNode::Stack { num, den } => seq![
            TokenV::Start(descr(MathObjectType::Stack, 2, None, None, None, None, None)),
        ] + enc_eq(num) + seq![TokenV::Sep(MathObjectType::Stack)] + enc_eq(den) + seq![
            TokenV::End(MathObjectType::Stack),
        ],
        EqNode::StretchStack { mark, pos, body } => seq![
            TokenV::Start(
                descr(
                    MathObjectType::StretchStack,
                    1,
                    None,
                    stretch_position_align(pos),
                    Some(mark),
                    None,
                    None,
                ),
            ),
        ] + enc_eq(body) + seq![TokenV::End(MathObjectType::StretchStack)],
        EqNode::Subscript { sub, body } => seq![
            TokenV::Start(descr(MathObjectType::Subscript, 2, None, None, None, None, None)),
        ] + enc_eq(body) + seq![TokenV::Sep(MathObjectType::Subscript)] + enc_eq(sub) + seq![
            TokenV::End(MathObjectType::Subscript),
        ],
        EqNode::SubSup { align, sub, sup, body } => seq![
            TokenV::Start(
                descr(
                    MathObjectType::SubSup,
                    3,
                    None,
                    match align {
                        Some(a) => Some(sub_sup_alignment_byte(a)),
                        None => None,
                    },
                    None,
                    None,
                    None,
                ),
            ),
        ] + enc_eq(body) + seq![TokenV::Sep(MathObjectType::SubSup)] + enc_eq(sub) + seq![
            TokenV::Sep(MathObjectType::SubSup),
        ] + enc_eq(sup) + seq![TokenV::End(MathObjectType::SubSup)],
        EqNode::Superscript { sup, body } => seq![
            TokenV::Start(descr(MathObjectType::Superscript, 2, None, None, None, None, None)),
        ] + enc_eq(body) + seq![TokenV::Sep(MathObjectType::Superscript)] + enc_eq(sup) + seq![
            TokenV::End(MathObjectType::Superscript),
        ],
        EqNode::UnderBar { body } => seq![
            TokenV::Start(descr(MathObjectType::Underbar, 1, None, None, None, None, None)),
        ] + enc_eq(body) + seq![TokenV::End(MathObjectType::Underbar)],
        EqNode::UpperLimit { body, limit } => seq![
            TokenV::Start(descr(MathObjectType::UpperLimit, 2, None, None, None, None, None)),
        ] + enc_eq(body) + seq![TokenV::Sep(MathObjectType::UpperLimit)] + enc_eq(limit) + seq![
            TokenV::End(MathObjectType::UpperLimit),
        ],
    }
}

/// The descriptor stream that stands for an equation: its nodes' streams in
/// reading order.
pub open spec fn enc_eq(eq: Seq<EqNode>) -> Seq<TokenV>
    decreases eq,
{
    if eq.len() == 0 {
        Seq::empty()
    } else {
        enc_op(eq[0]) + enc_eq(eq.drop_first())
    }
}

/// The descriptor stream that stands for a variable-argument object's
/// arguments: the equations partitioned by separator tokens, closed by the
/// end token; nothing at all for zero declared arguments.
pub open spec fn enc_args(list: Seq<Seq<EqNode>>, ty: MathObjectType) -> Seq<TokenV>
    decreases list,
{
    if list.len() == 0 {
        Seq::empty()
    } else if list.len() == 1 {
        enc_eq(list[0]) + seq![TokenV::End(ty)]
    } else {
        enc_eq(list[0]) + seq![TokenV::Sep(ty)] + enc_args(list.drop_first(), ty)
    }
}

/// A node's stream starts with its text or its start token.
proof fn lemma_enc_op_first(op: EqNode)
    ensures
        enc_op(op).len() >= 1,
        enc_op(op)[0] is Text || enc_op(op)[0] is Start,
{
    match op {
        EqNode::Text(s) => {
            assert(enc_op(op)[0] is Text);
        },
        _ => {
            assert(enc_op(op)[0] is Start);
        },
    }
}

/// Parsing one argument consumes exactly an equation's stream, up to the
/// separator or end token that follows it.
proof fn lemma_parse_enc_eq(eq: Seq<EqNode>, rest: Seq<TokenV>, ty: MathObjectType)
    requires
        valid_eq(eq),
        rest.len() > 0,
        rest[0] == TokenV::Sep(ty) || rest[0] == TokenV::End(ty),
    ensures
        sp_arg(enc_eq(eq) + rest, ty) == Ok::<(Seq<EqNode>, Seq<TokenV>), MathError>((eq, rest)),
    decreases size_eq(eq), 0int,
{
    if eq.len() == 0 {
        assert(enc_eq(eq) + rest =~= rest);
        assert(Seq::<EqNode>::empty() =~= eq);
    } else {
        let tail = enc_eq(eq.drop_first()) + rest;
        assert(enc_eq(eq) + rest =~= enc_op(eq[0]) + tail);
        lemma_enc_op_first(eq[0]);
        assert((enc_op(eq[0]) + tail)[0] == enc_op(eq[0])[0]);
        lemma_size_eq_elem(eq, 0);
        lemma_size_op_pos(eq[0]);
        lemma_parse_enc_op(eq[0], tail);
        lemma_parse_enc_eq(eq.drop_first(), rest, ty);
        assert(seq![eq[0]] + eq.drop_first() =~= eq);
    }
}

/// Parsing a declared number of arguments consumes exactly the argument
/// streams, their separators, and the end token.
proof fn lemma_parse_enc_args(list: Seq<Seq<EqNode>>, rest: Seq<TokenV>, ty: MathObjectType)
    requires
        valid_list(list),
        1 <= list.len() <= u32::MAX,
    ensures
        sp_args(enc_args(list, ty) + rest, ty, list.len() as u32) == Ok::<
            (Seq<Seq<EqNode>>, Seq<TokenV>),
            MathError,
        >((list, rest)),
    decreases size_eq_list(list), 0int,
{
    lemma_size_eq_list_elem(list, 0);
    if list.len() == 1 {
        let tail = seq![TokenV::End(ty)] + rest;
        assert(enc_args(list, ty) + rest =~= enc_eq(list[0]) + tail);
        lemma_parse_enc_eq(list[0], tail, ty);
        assert(tail.drop_first() =~= rest);
        assert(seq![list[0]] =~= list);
    } else {
        let tail = seq![TokenV::Sep(ty)] + (enc_args(list.drop_first(), ty) + rest);
        assert(enc_args(list, ty) + rest =~= enc_eq(list[0]) + tail);
        lemma_parse_enc_eq(list[0], tail, ty);
        assert(tail.drop_first() =~= enc_args(list.drop_first(), ty) + rest);
        lemma_size_eq_pos(list[0]);
        lemma_parse_enc_args(list.drop_first(), rest, ty);
        assert(seq![list[0]] + list.drop_first() =~= list);
    }
}

/// Parsing a one-argument object consumes exactly its start token, its
/// argument's stream, and its end token.
proof fn lemma_parse_enc_object_1(
    d: MathObject,
    body: Seq<EqNode>,
    rest: Seq<TokenV>,
    ty: MathObjectType,
)
    requires
        valid_eq(body),
        d.object_type == ty,
        d.arg_count == 1,
    ensures
        sp_object_1(
            seq![TokenV::Start(d)] + enc_eq(body) + seq![TokenV::End(ty)] + rest,
            ty,
        ) == Ok::<(MathObject, Seq<EqNode>, Seq<TokenV>), MathError>((d, body, rest)),
    decreases size_eq(body), 1int,
{
    let whole = seq![TokenV::Start(d)] + enc_eq(body) + seq![TokenV::End(ty)] + rest;
    let tail = seq![TokenV::End(ty)] + rest;
    assert(whole[0] == TokenV::Start(d));
    assert(whole.drop_first() =~= enc_eq(body) + tail);
    lemma_parse_enc_eq(body, tail, ty);
    assert(tail.drop_first() =~= rest);
}

/// Parsing a two-argument object consumes exactly its start token, its two
/// arguments' streams around its separator, and its end token.
proof fn lemma_parse_enc_object_2(
    d: MathObject,
    a: Seq<EqNode>,
    b: Seq<EqNode>,
    rest: Seq<TokenV>,
    ty: MathObjectType,
)
    requires
        valid_eq(a),
        valid_eq(b),
        d.object_type == ty,
        d.arg_count == 2,
    ensures
        sp_object_2(
            seq![TokenV::Start(d)] + enc_eq(a) + seq![TokenV::Sep(ty)] + enc_eq(b) + seq![
                TokenV::End(ty),
            ] + rest,
            ty,
        ) == Ok::<(MathObject, Seq<EqNode>, Seq<EqNode>, Seq<TokenV>), MathError>(
            (d, a, b, rest),
        ),
    decreases size_eq(a) + size_eq(b), 1int,
{
    let whole = seq![TokenV::Start(d)] + enc_eq(a) + seq![TokenV::Sep(ty)] + enc_eq(b) + seq![
        TokenV::End(ty),
    ] + rest;
    let tail_b = seq![TokenV::End(ty)] + rest;
    let tail_a = seq![TokenV::Sep(ty)] + (enc_eq(b) + tail_b);
    assert(whole[0] == TokenV::Start(d));
    assert(whole.drop_first() =~= enc_eq(a) + tail_a);
    lemma_size_eq_pos(a);
    lemma_size_eq_pos(b);
    lemma_parse_enc_eq(a, tail_a, ty);
    assert(tail_a.drop_first() =~= enc_eq(b) + tail_b);
    lemma_parse_enc_eq(b, tail_b, ty);
    assert(tail_b.drop_first() =~= rest);
}

/// Parsing a three-argument object consumes exactly its start token, its
/// three arguments' streams around its two separators, and its end token.
proof fn lemma_parse_enc_object_3(
    d: MathObject,
    a: Seq<EqNode>,
    b: Seq<EqNode>,
    c: Seq<EqNode>,
    rest: Seq<TokenV>,
    ty: MathObjectType,
)
    requires
        valid_eq(a),
        valid_eq(b),
        valid_eq(c),
        d.object_type == ty,
        d.arg_count == 3,
    ensures
        sp_object_3(
            seq![TokenV::Start(d)] + enc_eq(a) + seq![TokenV::Sep(ty)] + enc_eq(b) + seq![
                TokenV::Sep(ty),
            ] + enc_eq(c) + seq![TokenV::End(ty)] + rest,
            ty,
        ) == Ok::<(MathObject, Seq<EqNode>, Seq<EqNode>, Seq<EqNode>, Seq<TokenV>), MathError>(
            (d, a, b, c, rest),
        ),
    decreases size_eq(a) + size_eq(b) + size_eq(c), 1int,
{
    let whole = seq![TokenV::Start(d)] + enc_eq(a) + seq![TokenV::Sep(ty)] + enc_eq(b) + seq![
        TokenV::Sep(ty),
    ] + enc_eq(c) + seq![TokenV::End(ty)] + rest;
    let tail_c = seq![TokenV::End(ty)] + rest;
    let tail_b = seq![TokenV::Sep(ty)] + (enc_eq(c) + tail_c);
    let tail_a = seq![TokenV::Sep(ty)] + (enc_eq(b) + tail_b);
    assert(whole[0] == TokenV::Start(d));
    assert(whole.drop_first() =~= enc_eq(a) + tail_a);
    lemma_size_eq_pos(a);
    lemma_size_eq_pos(b);
    lemma_size_eq_pos(c);
    lemma_parse_enc_eq(a, tail_a, ty);
    assert(tail_a.drop_first() =~= enc_eq(b) + tail_b);
    lemma_parse_enc_eq(b, tail_b, ty);
    assert(tail_b.drop_first() =~= enc_eq(c) + tail_c);
    lemma_parse_enc_eq(c, tail_c, ty);
    assert(tail_c.drop_first() =~= rest);
}

/// Parsing a variable-argument object consumes exactly its start token and
/// its declared arguments' streams.
proof fn lemma_parse_enc_object_n(
    d: MathObject,
    list: Seq<Seq<EqNode>>,
    rest: Seq<TokenV>,
    ty: MathObjectType,
)
    requires
        valid_list(list),
        list.len() <= u32::MAX,
        d.object_type == ty,
        d.arg_count == list.len(),
    ensures
        sp_object_n(seq![TokenV::Start(d)] + enc_args(list, ty) + rest, ty) == Ok::<
            (MathObject, Seq<Seq<EqNode>>, Seq<TokenV>),
            MathError,
        >((d, list, rest)),
    decreases size_eq_list(list), 1int,
{
    let whole = seq![TokenV::Start(d)] + enc_args(list, ty) + rest;
    assert(whole[0] == TokenV::Start(d));
    if list.len() == 0 {
        assert(whole.drop_first() =~= rest);
        assert(Seq::<Seq<EqNode>>::empty() =~= list);
    } else {
        assert(whole.drop_first() =~= enc_args(list, ty) + rest);
        lemma_parse_enc_args(list, rest, ty);
    }
}

/// Parsing one node consumes exactly its stream.
#[verifier::rlimit(100)]
proof fn lemma_parse_enc_op(op: EqNode, rest: Seq<TokenV>)
    requires
        valid_op(op),
    ensures
        sp_op(enc_op(op) + rest) == Ok::<(EqNode, Seq<TokenV>), MathError>((op, rest)),
    decreases size_op(op), 2int,
{
    let whole = enc_op(op) + rest;
    match op {
        EqNode::Text(s) => {
            assert(whole =~= seq![TokenV::Text(s)] + rest);
            assert(whole.drop_first() =~= rest);
        },
        EqNode::Accent { mark, body } => {
            let ty = MathObjectType::Accent;
            let d = descr(ty, 1, None, None, Some(mark), None, None);
            assert(whole =~= seq![TokenV::Start(d)] + enc_eq(body) + seq![TokenV::End(ty)] + rest);
            lemma_parse_enc_object_1(d, body, rest, ty);
            assert(whole[0] == TokenV::Start(d));
        },
        EqNode::BoxObject { display, body } => {
            let ty = MathObjectType::BoxObject;
            let ab = match display {
                Some(dd) => Some(box_display_byte(dd)),
                None => None,
            };
            if let Some(dd) = display {
                lemma_box_display_roundtrip(dd);
            }
            let d = descr(ty, 1, None, ab, None, None, None);
            assert(whole =~= seq![TokenV::Start(d)] + enc_eq(body) + seq![TokenV::End(ty)] + rest);
            lemma_parse_enc_object_1(d, body, rest, ty);
            assert(whole[0] == TokenV::Start(d));
        },
        EqNode::BoxedFormula { align, body } => {
            let ty = MathObjectType::BoxedFormula;
            let ab = match align {
                Some(a) => Some(boxed_formula_alignment_byte(a)),
                None => None,
            };
            if let Some(a) = align {
                lemma_boxed_formula_alignment_roundtrip(a);
            }
            let d = descr(ty, 1, None, ab, None, None, None);
            assert(whole =~= seq![TokenV::Start(d)] + enc_eq(body) + seq![TokenV::End(ty)] + rest);
            lemma_parse_enc_object_1(d, body, rest, ty);
            assert(whole[0] == TokenV::Start(d));
        },
        EqNode::Brackets { opening, closing, align, body } => {
            let ty = MathObjectType::Brackets;
            let ab = match align {
                Some(a) => Some(brackets_alignment_byte(a)),
                None => None,
            };
            let d = descr(ty, 1, None, ab, opening, closing, None);
            assert(whole =~= seq![TokenV::Start(d)] + enc_eq(body) + seq![TokenV::End(ty)] + rest);
            lemma_parse_enc_object_1(d, body, rest, ty);
            assert(whole[0] == TokenV::Start(d));
        },
        EqNode::BracketsWithSeps { opening, closing, sep, align, segments } => {
            let ty = MathObjectType::BracketsWithSeps;
            let ab = match align {
                Some(a) => Some(brackets_alignment_byte(a)),
                None => None,
            };
            let d = descr(ty, segments.len() as u32, None, ab, opening, closing, Some(sep));
            assert(whole =~= seq![TokenV::Start(d)] + enc_args(segments, ty) + rest);
            lemma_parse_enc_object_n(d, segments, rest, ty);
            assert(whole[0] == TokenV::Start(d));
        },
        EqNode::EquationArray { columns, align, rows } => {
            let ty = MathObjectType::EquationArray;
            let ab = match align {
                Some(a) => Some(equation_array_alignment_byte(a)),
                None => None,
            };
            let d = descr(ty, rows.len() as u32, Some(columns), ab, None, None, None);
            assert(whole =~= seq![TokenV::Start(d)] + enc_args(rows, ty) + rest);
            lemma_parse_enc_object_n(d, rows, rest, ty);
            assert(whole[0] == TokenV::Start(d));
        },
        EqNode::Fraction { num, den, small } => {
            let ty = MathObjectType::Fraction;
            let c0 = if small {
                Some('\u{2298}')
            } else {
                None
            };
            let d = descr(ty, 2, None, None, c0, None, None);
            assert(whole =~= seq![TokenV::Start(d)] + enc_eq(num) + seq![TokenV::Sep(ty)]
                + enc_eq(den) + seq![TokenV::End(ty)] + rest);
            lemma_parse_enc_object_2(d, num, den, rest, ty);
            assert(whole[0] == TokenV::Start(d));
        },
        EqNode::FunctionApply { func, body } => {
            let ty = MathObjectType::FunctionApply;
            let d = descr(ty, 2, None, None, None, None, None);
            assert(whole =~= seq![TokenV::Start(d)] + enc_eq(func) + seq![TokenV::Sep(ty)]
                + enc_eq(body) + seq![TokenV::End(ty)] + rest);
            lemma_parse_enc_object_2(d, func, body, rest, ty);
            assert(whole[0] == TokenV::Start(d));
        },
        EqNode::LeftSubSup { sub, sup, body } => {
            let ty = MathObjectType::LeftSubSup;
            let d = descr(ty, 3, None, None, None, None, None);
            assert(whole =~= seq![TokenV::Start(d)] + enc_eq(sub) + seq![TokenV::Sep(ty)]
                + enc_eq(sup) + seq![TokenV::Sep(ty)] + enc_eq(body) + seq![TokenV::End(ty)]
                + rest);
            lemma_parse_enc_object_3(d, sub, sup, body, rest, ty);
            assert(whole[0] == TokenV::Start(d));
        },
        EqNode::LowerLimit { body, limit } => {
            let ty = MathObjectType::LowerLimit;
            let d = descr(ty, 2, None, None, None, None, None);
            assert(whole =~= seq![TokenV::Start(d)] + enc_eq(body) + seq![TokenV::Sep(ty)]
                + enc_eq(limit) + seq![TokenV::End(ty)] + rest);
            lemma_parse_enc_object_2(d, body, limit, rest, ty);
            assert(whole[0] == TokenV::Start(d));
        },
        EqNode::Matrix { columns, brackets, align, items } => {
            let ty = MathObjectType::Matrix;
            let ab = match align {
                Some(a) => Some(matrix_alignment_byte(a)),
                None => None,
            };
            let d = descr(
                ty,
                items.len() as u32,
                Some(columns),
                ab,
                Some(matrix_brackets_char(brackets)),
                None,
                None,
            );
            assert(whole =~= seq![TokenV::Start(d)] + enc_args(items, ty) + rest);
            lemma_parse_enc_object_n(d, items, rest, ty);
            assert(whole[0] == TokenV::Start(d));
            assert(crate::ast::spec_matrix_brackets(matrix_brackets_char(brackets)) == Some(
                brackets,
            ));
        },
        EqNode::NAry { op: op_char, display, sub, sup, body } => {
            let ty = MathObjectType::Nary;
            let ab = match display {
                Some(dd) => Some(nary_display_byte(dd)),
                None => None,
            };
            if let Some(dd) = display {
                lemma_nary_display_roundtrip(dd);
            }
            let d = descr(ty, 3, None, ab, Some(op_char), None, None);
            assert(whole =~= seq![TokenV::Start(d)] + enc_eq(sub) + seq![TokenV::Sep(ty)]
                + enc_eq(sup) + seq![TokenV::Sep(ty)] + enc_eq(body) + seq![TokenV::End(ty)]
                + rest);
            lemma_parse_enc_object_3(d, sub, sup, body, rest, ty);
            assert(whole[0] == TokenV::Start(d));
        },
        EqNode::OverBar { body } => {
            let ty = MathObjectType::Overbar;
            let d = descr(ty, 1, None, None, None, None, None);
            assert(whole =~= seq![TokenV::Start(d)] + enc_eq(body) + seq![TokenV::End(ty)] + rest);
            lemma_parse_enc_object_1(d, body, rest, ty);
            assert(whole[0] == TokenV::Start(d));
        },
        EqNode::Phantom { kind, display, body } => {
            let ty = MathObjectType::Phantom;
            let ab = match display {
                Some(p) => Some(phantom_display_byte(p)),
                None => None,
            };
            if let Some(p) = display {
                lemma_phantom_display_roundtrip(p);
            }
            let d = descr(ty, 1, None, ab, Some(phantom_kind_char(kind)), None, None);
            assert(whole =~= seq![TokenV::Start(d)] + enc_eq(body) + seq![TokenV::End(ty)] + rest);
            lemma_parse_enc_object_1(d, body, rest, ty);
            assert(whole[0] == TokenV::Start(d));
            assert(crate::ast::spec_phantom_kind(phantom_kind_char(kind)) == Some(kind));
        },
        EqNode::Radical { degree, body } => {
            let ty = MathObjectType::Radical;
            let d = descr(ty, 2, None, None, None, None, None);
            assert(whole =~= seq![TokenV::Start(d)] + enc_eq(degree) + seq![TokenV::Sep(ty)]
                + enc_eq(body) + seq![TokenV::End(ty)] + rest);
            lemma_parse_enc_object_2(d, degree, body, rest, ty);
            assert(whole[0] == TokenV::Start(d));
        },
        EqNode::SlashedFraction { num, den, linear } => {
            let ty = MathObjectType::SlashedFraction;
            let c0 = if linear {
                Some('\u{2215}')
            } else {
                None
            };
            let d = descr(ty, 2, None, None, c0, None, None);
            assert(whole =~= seq![TokenV::Start(d)] + enc_eq(num) + seq![TokenV::Sep(ty)]
                + enc_eq(den) + seq![TokenV::End(ty)] + rest);
            lemma_parse_enc_object_2(d, num, den, rest, ty);
            assert(whole[0] == TokenV::Start(d));
        },
        EqNode::Stack { num, den } => {
            let ty = MathObjectType::Stack;
            let d = descr(ty, 2, None, None, None, None, None);
            assert(whole =~= seq![TokenV::Start(d)] + enc_eq(num) + seq![TokenV::Sep(ty)]
                + enc_eq(den) + seq![TokenV::End(ty)] + rest);
            lemma_parse_enc_object_2(d, num, den, rest, ty);
            assert(whole[0] == TokenV::Start(d));
        },
        EqNode::StretchStack { mark, pos, body } => {
            let ty = MathObjectType::StretchStack;
            let d = descr(ty, 1, None, stretch_position_align(pos), Some(mark), None, None);
            assert(whole =~= seq![TokenV::Start(d)] + enc_eq(body) + seq![TokenV::End(ty)] + rest);
            lemma_parse_enc_object_1(d, body, rest, ty);
            assert(whole[0] == TokenV::Start(d));
        },
        EqNode::Subscript { sub, body } => {
            let ty = MathObjectType::Subscript;
            let d = descr(ty, 2, None, None, None, None, None);
            assert(whole =~= seq![TokenV::Start(d)] + enc_eq(body) + seq![TokenV::Sep(ty)]
                + enc_eq(sub) + seq![TokenV::End(ty)] + rest);
            lemma_parse_enc_object_2(d, body, sub, rest, ty);
            assert(whole[0] == TokenV::Start(d));
        },
        EqNode::SubSup { align, sub, sup, body } => {
            let ty = MathObjectType::SubSup;
            let ab = match align {
                Some(a) => Some(sub_sup_alignment_byte(a)),
                None => None,
            };
            let d = descr(ty, 3, None, ab, None, None, None);
            assert(whole =~= seq![TokenV::Start(d)] + enc_eq(body) + seq![TokenV::Sep(ty)]
                + enc_eq(sub) + seq![TokenV::Sep(ty)] + enc_eq(sup) + seq![TokenV::End(ty)]
                + rest);
            lemma_parse_enc_object_3(d, body, sub, sup, rest, ty);
            assert(whole[0] == TokenV::Start(d));
        },
        EqNode::Superscript { sup, body } => {
            let ty = MathObjectType::Superscript;
            let d = descr(ty, 2, None, None, None, None, None);
            assert(whole =~= seq![TokenV::Start(d)] + enc_eq(body) + seq![TokenV::Sep(ty)]
                + enc_eq(sup) + seq![TokenV::End(ty)] + rest);
            lemma_parse_enc_object_2(d, body, sup, rest, ty);
            assert(whole[0] == TokenV::Start(d));
        },
        EqNode::UnderBar { body } => {
            let ty = MathObjectType::Underbar;
            let d = descr(ty, 1, None, None, None, None, None);
            assert(whole =~= seq![TokenV::Start(d)] + enc_eq(body) + seq![TokenV::End(ty)] + rest);
            lemma_parse_enc_object_1(d, body, rest, ty);
            assert(whole[0] == TokenV::Start(d));
        },
        EqNode::UpperLimit { body, limit } => {
            let ty = MathObjectType::UpperLimit;
            let d = descr(ty, 2, None, None, None, None, None);
            assert(whole =~= seq![TokenV::Start(d)] + enc_eq(body) + seq![TokenV::Sep(ty)]
                + enc_eq(limit) + seq![TokenV::End(ty)] + rest);
            lemma_parse_enc_object_2(d, body, limit, rest, ty);
            assert(whole[0] == TokenV::Start(d));
        },
    }
}

/// The stream of every tree in which each start token is matched by its own
/// end token at the same depth, with exactly one fewer separator tokens of
/// its type partitioning the arguments its descriptor declares, parses
/// successfully — and yields exactly the tree it stands for, so the node
/// count at every level equals the count of start and text tokens at that
/// level.
pub proof fn lemma_well_formed_stream_parses(eq: Seq<EqNode>)
    requires
        valid_eq(eq),
    ensures
        sp_equation(enc_eq(eq)) == Ok::<Seq<EqNode>, MathError>(eq),
    decreases size_eq(eq),
{
    if eq.len() == 0 {
        assert(enc_eq(eq) =~= Seq::<TokenV>::empty());
        assert(eq =~= Seq::<EqNode>::empty());
    } else {
        let tail = enc_eq(eq.drop_first());
        assert(enc_eq(eq) =~= enc_op(eq[0]) + tail);
        lemma_enc_op_first(eq[0]);
        lemma_size_eq_elem(eq, 0);
        lemma_size_op_pos(eq[0]);
        lemma_parse_enc_op(eq[0], tail);
        lemma_well_formed_stream_parses(eq.drop_first());
        assert(seq![eq[0]] + eq.drop_first() =~= eq);
    }
}

/// The empty-script law of the renderer: a subscript, superscript or
/// combined node whose script argument is the empty equation lowers using
/// the dedicated empty-placeholder glyph, never an empty child element.
pub proof fn lemma_empty_script_placeholder(op: EqNode)
    ensures
        op matches EqNode::Subscript { sub, body } ==> (sub.len() == 0 ==> spec_render_op(op)
            == "<msub>"@ + spec_render_group(body) + "<mo>\u{2b1a}</mo>"@ + "</msub>"@),
        op matches EqNode::Superscript { sup, body } ==> (sup.len() == 0 ==> spec_render_op(op)
            == "<msup>"@ + spec_render_group(body) + "<mo>\u{2b1a}</mo>"@ + "</msup>"@),
        op matches EqNode::SubSup { sub, sup, body, .. } ==> (sub.len() == 0 && sup.len() == 0
            ==> spec_render_op(op) == "<msubsup>"@ + spec_render_group(body)
            + "<mo>\u{2b1a}</mo>"@ + "<mo>\u{2b1a}</mo>"@ + "</msubsup>"@),
{
    match op {
        EqNode::Subscript { sub, body } => {
            if sub.len() == 0 {
                assert(spec_render_op(op) =~= "<msub>"@ + spec_render_group(body)
                    + "<mo>\u{2b1a}</mo>"@ + "</msub>"@);
            }
        },
        EqNode::Superscript { sup, body } => {
            if sup.len() == 0 {
                assert(spec_render_op(op) =~= "<msup>"@ + spec_render_group(body)
                    + "<mo>\u{2b1a}</mo>"@ + "</msup>"@);
            }
        },
        EqNode::SubSup { sub, sup, body, .. } => {
            if sub.len() == 0 && sup.len() == 0 {
                assert(spec_render_op(op) =~= "<msubsup>"@ + spec_render_group(body)
                    + "<mo>\u{2b1a}</mo>"@ + "<mo>\u{2b1a}</mo>"@ + "</msubsup>"@);
            }
        },
        _ => {},
    }
}

/// The grouping law of the renderer: an empty equation lowers to the
/// empty-identifier fallback element; a single literal-text node lowers to
/// that text wrapped in a row element; a single non-text node lowers
/// directly, unwrapped; two or more nodes lower concatenated inside one row
/// element.
pub proof fn lemma_render_group_cases(eq: Seq<EqNode>)
    ensures
        eq.len() == 0 ==> spec_render_group(eq) == "<mi></mi>"@,
        eq.len() == 1 && eq[0] is Text ==> spec_render_group(eq) == "<mrow>"@ + spec_render_text(
            eq[0]->0,
        ) + "</mrow>"@,
        eq.len() == 1 && !(eq[0] is Text) ==> spec_render_group(eq) == spec_render_op(eq[0]),
        eq.len() >= 2 ==> spec_render_group(eq) == "<mrow>"@ + spec_render_eq(eq) + "</mrow>"@,
{
}

} // verus!
