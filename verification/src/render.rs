//! The renderer: a pure, bottom-up lowering of one equation tree to a MathML
//! fragment.  Validation happened in the parser; lowering cannot fail.
use vstd::prelude::*;
use vstd::string::StringExecFns;

use crate::ast::BoxDisplay;
use crate::ast::BoxSize;
use crate::ast::BoxSpace;
use crate::ast::BracketsAlignment;
use crate::ast::EqNode;
use crate::ast::Equation;
use crate::ast::MathOp;
use crate::ast::MatrixAlignment;
use crate::ast::MatrixBrackets;
use crate::ast::NAryAlignment;
use crate::ast::NAryGrow;
use crate::ast::PhantomKind;
use crate::ast::StretchStackPosition;
use crate::ast::eq_view;
use crate::ast::eq_list_view;
use crate::ast::lemma_eq_list_view_seq_len;
use crate::ast::lemma_eq_view_seq_len;
use crate::ast::lemma_size_eq_elem;
use crate::ast::lemma_size_eq_list_elem;
use crate::ast::op_view;
use crate::ast::size_eq;
use crate::ast::size_eq_list;
use crate::ast::size_op;
use crate::text::TextType;
use crate::text::classify_char;
use crate::text::is_skippable_format;
use crate::text::lemma_run_len_is;
use crate::text::spec_render_runs;
use crate::text::spec_render_segment;
use crate::text::spec_render_text;
use crate::text::strip_formats;
use crate::utils::push_char;

verus! {

/// The markup of a whole equation: the lowered node sequence wrapped in the
/// MathML root element.
pub open spec fn spec_render_equation(eq: Seq<EqNode>) -> Seq<char> {
    "<math xmlns=\"http://www.w3.org/1998/Math/MathML\">"@ + spec_render_eq(eq) + "</math>"@
}

/// The markup of a node sequence: each node lowered, in reading order.
pub open spec fn spec_render_eq(eq: Seq<EqNode>) -> Seq<char>
    decreases eq, 2int,
{
    if eq.len() == 0 {
        Seq::empty()
    } else {
        spec_render_op(eq[0]) + spec_render_eq(eq.drop_first())
    }
}

/// The markup of a sub-equation rendered as one grouped unit: an empty
/// equation becomes one empty identifier element; a single literal-text node
/// is wrapped in a row element; a single non-text node renders unwrapped; two
/// or more nodes render concatenated inside one row element.
pub open spec fn spec_render_group(eq: Seq<EqNode>) -> Seq<char>
    decreases eq, 3int,
{
    if eq.len() == 0 {
        "<mi></mi>"@
    } else if eq.len() == 1 && eq[0] is Text {
        "<mrow>"@ + spec_render_text(eq[0]->0) + "</mrow>"@
    } else if eq.len() == 1 {
        spec_render_op(eq[0])
    } else {
        "<mrow>"@ + spec_render_eq(eq) + "</mrow>"@
    }
}

/// The markup of one node, by its construct's rule.
pub open spec fn spec_render_op(op: EqNode) -> Seq<char>
    decreases op, 1int,
{
    match op {
        EqNode::Text(s) => spec_render_text(s),
        EqNode::Accent { .. } => spec_render_accent(op),
        EqNode::BoxObject { .. } => spec_render_box(op),
        EqNode::BoxedFormula { .. } => spec_render_boxed_formula(op),
        EqNode::Brackets { .. } => spec_render_brackets(op),
        EqNode::BracketsWithSeps { .. } => spec_render_brackets_with_seps(op),
        EqNode::EquationArray { .. } => spec_render_equation_array(op),
        EqNode::Fraction { .. } => spec_render_fraction(op),
        EqNode::FunctionApply { .. } => spec_render_function_apply(op),
        EqNode::LeftSubSup { .. } => spec_render_left_sub_sup(op),
        EqNode::LowerLimit { .. } => spec_render_lower_limit(op),
        EqNode::Matrix { .. } => spec_render_matrix(op),
        EqNode::NAry { .. } => spec_render_nary(op),
        EqNode::OverBar { .. } => spec_render_over_bar(op),
        EqNode::Phantom { .. } => spec_render_phantom(op),
        EqNode::Radical { .. } => spec_render_radical(op),
        EqNode::SlashedFraction { .. } => spec_render_slashed_fraction(op),
        EqNode::Stack { .. } => spec_render_stack(op),
        EqNode::StretchStack { .. } => spec_render_stretch_stack(op),
        EqNode::Subscript { .. } => spec_render_subscript(op),
        EqNode::SubSup { .. } => spec_render_sub_sup(op),
        EqNode::Superscript { .. } => spec_render_superscript(op),
        EqNode::UnderBar { .. } => spec_render_under_bar(op),
        EqNode::UpperLimit { .. } => spec_render_upper_limit(op),
    }
}

/// An accent: the grouped body under an accented operator glyph.
pub open spec fn spec_render_accent(op: EqNode) -> Seq<char>
    decreases op, 0int,
{
    match op {
        EqNode::Accent { mark, body } => "<mover accent=\"true\">"@ + spec_render_group(body)
            + "<mo>"@ + seq![mark] + "</mo></mover>"@,
        _ => Seq::empty(),
    }
}

/// The fixed leading space of an abstract box's spacing class, as a markup
/// space element, or nothing.
pub open spec fn spec_box_lspace(space: BoxSpace) -> Seq<char> {
    match space {
        BoxSpace::Binary => "<mspace width=\"0.222em\"></mspace>"@,
        BoxSpace::Relational => "<mspace width=\"0.278em\"></mspace>"@,
        BoxSpace::Skip => "<mspace width=\"0.444em\"></mspace>"@,
        BoxSpace::Differential => "<mspace width=\"0.111em\"></mspace>"@,
        _ => Seq::empty(),
    }
}

/// The fixed trailing space of an abstract box's spacing class, as a markup
/// space element, or nothing.
pub open spec fn spec_box_rspace(space: BoxSpace) -> Seq<char> {
    match space {
        BoxSpace::Unary => "<mspace width=\"0.166em\"></mspace>"@,
        BoxSpace::Binary => "<mspace width=\"0.222em\"></mspace>"@,
        BoxSpace::Relational => "<mspace width=\"0.278em\"></mspace>"@,
        BoxSpace::Skip => "<mspace width=\"0.444em\"></mspace>"@,
        _ => Seq::empty(),
    }
}

/// Whether an abstract box's spacing class adds any space at all.
pub open spec fn spec_box_spaced(space: BoxSpace) -> bool {
    !(space is Default || space is Ord)
}

/// An abstract box: the grouped body, wrapped in turn by an alignment-mark
/// row for non-baseline alignment, a spacing row for its spacing class, a
/// reduced-scriptlevel style element for its size tier, and a no-linebreak
/// row for its no-break flag.  Without display data it is just the group.
pub open spec fn spec_render_box(op: EqNode) -> Seq<char>
    decreases op, 0int,
{
    match op {
        EqNode::BoxObject { display, body } => {
            match display {
                None => spec_render_group(body),
                Some(d) => {
                    let content0 = spec_render_group(body);
                    let content1 = if d.centered {
                        "<mrow><malignmark/>"@ + content0 + "</mrow>"@
                    } else {
                        content0
                    };
                    let content2 = if spec_box_spaced(d.space) {
                        "<mrow>"@ + spec_box_lspace(d.space) + content1 + spec_box_rspace(d.space)
                            + "</mrow>"@
                    } else {
                        content1
                    };
                    let content3 = if d.size is Script {
                        "<mstyle scriptlevel=\"1\" displaystyle=\"false\">"@ + content2
                            + "</mstyle>"@
                    } else if d.size is ScriptScript {
                        "<mstyle scriptlevel=\"2\" displaystyle=\"false\">"@ + content2
                            + "</mstyle>"@
                    } else {
                        content2
                    };
                    if d.no_break {
                        "<mrow linebreak=\"nobreak\">"@ + content3 + "</mrow>"@
                    } else {
                        content3
                    }
                },
            }
        },
        _ => Seq::empty(),
    }
}

/// A boxed formula: the grouped body enclosed in a box notation element.
/// Present framing flags have no precise mapping yet and render as the
/// default box.
pub open spec fn spec_render_boxed_formula(op: EqNode) -> Seq<char>
    decreases op, 0int,
{
    match op {
        EqNode::BoxedFormula { body, .. } => "<menclose notation=\"box\">"@ + spec_render_group(
            body,
        ) + "</menclose>"@,
        _ => Seq::empty(),
    }
}

/// The size of one bracket growth tier in em units: exactly `1.25 ^ tier`.
pub open spec fn spec_brackets_size(tier: int) -> Seq<char> {
    if tier == 0 {
        "1em"@
    } else if tier == 1 {
        "1.25em"@
    } else if tier == 2 {
        "1.5625em"@
    } else if tier == 3 {
        "1.953125em"@
    } else {
        "2.44140625em"@
    }
}

/// The growth tier of a bracket alignment.
pub open spec fn spec_brackets_tier(align: BracketsAlignment) -> int {
    match align {
        BracketsAlignment::DontGrow => 0,
        BracketsAlignment::TeXbig => 1,
        BracketsAlignment::TeXBig => 2,
        BracketsAlignment::TeXbigg => 3,
        BracketsAlignment::TeXBigg => 4,
    }
}

/// The explicit min / max size attributes of a bracket glyph, or nothing
/// when no growth was requested.
pub open spec fn spec_bracket_size(align: Option<BracketsAlignment>) -> Seq<char> {
    match align {
        None => Seq::empty(),
        Some(a) => " minsize=\""@ + spec_brackets_size(spec_brackets_tier(a)) + "\" maxsize=\""@
            + spec_brackets_size(spec_brackets_tier(a)) + "\""@,
    }
}

/// A bracket pair: optional opening and closing glyphs carrying the size
/// attributes, around the grouped body, inside one row element.
pub open spec fn spec_render_brackets(op: EqNode) -> Seq<char>
    decreases op, 0int,
{
    match op {
        EqNode::Brackets { opening, closing, align, body } => {
            let size = spec_bracket_size(align);
            let open_markup = match opening {
                Some(c) => "<mo"@ + size + ">"@ + seq![c] + "</mo>"@,
                None => Seq::empty(),
            };
            let close_markup = match closing {
                Some(c) => "<mo"@ + size + ">"@ + seq![c] + "</mo>"@,
                None => Seq::empty(),
            };
            "<mrow>"@ + open_markup + spec_render_group(body) + close_markup + "</mrow>"@
        },
        _ => Seq::empty(),
    }
}

/// The grouped segments of a bracket pair with separators, joined by the
/// separator markup.
pub open spec fn spec_join_groups(segments: Seq<Seq<EqNode>>, sep_markup: Seq<char>) -> Seq<char>
    decreases segments, 0int,
{
    if segments.len() == 0 {
        Seq::empty()
    } else if segments.len() == 1 {
        spec_render_group(segments[0])
    } else {
        spec_render_group(segments[0]) + sep_markup + spec_join_groups(
            segments.drop_first(),
            sep_markup,
        )
    }
}

/// A bracket pair with separators: optional symmetric opening and closing
/// glyphs around the grouped segments, joined by a stretchy symmetric
/// separator glyph, all carrying the size attributes, inside one row element.
pub open spec fn spec_render_brackets_with_seps(op: EqNode) -> Seq<char>
    decreases op, 0int,
{
    match op {
        EqNode::BracketsWithSeps { opening, closing, sep, align, segments } => {
            let size = spec_bracket_size(align);
            let open_markup = match opening {
                Some(c) => "<mo symmetric=\"true\""@ + size + ">"@ + seq![c] + "</mo>"@,
                None => Seq::empty(),
            };
            let close_markup = match closing {
                Some(c) => "<mo symmetric=\"true\""@ + size + ">"@ + seq![c] + "</mo>"@,
                None => Seq::empty(),
            };
            let sep_markup = "<mo stretchy=\"true\" symmetric=\"true\""@ + size + ">"@ + seq![sep]
                + "</mo>"@;
            "<mrow>"@ + open_markup + spec_join_groups(segments, sep_markup) + close_markup
                + "</mrow>"@
        },
        _ => Seq::empty(),
    }
}

/// The rows of an equation array: each row grouped inside one table cell.
pub open spec fn spec_array_rows(rows: Seq<Seq<EqNode>>) -> Seq<char>
    decreases rows, 0int,
{
    if rows.len() == 0 {
        Seq::empty()
    } else {
        "<mtr><mtd>"@ + spec_render_group(rows[0]) + "</mtd></mtr>"@ + spec_array_rows(
            rows.drop_first(),
        )
    }
}

/// Every ampersand of the rendered rows replaced by a left alignment mark.
pub open spec fn spec_replace_amp(s: Seq<char>) -> Seq<char>
    decreases s.len(),
{
    if s.len() == 0 {
        Seq::empty()
    } else if s[0] == '&' {
        "<malignmark edge=\"left\"></malignmark>"@ + spec_replace_amp(s.drop_first())
    } else {
        seq![s[0]] + spec_replace_amp(s.drop_first())
    }
}

/// An equation array: its rows as table rows, ampersands turned into left
/// alignment marks, inside a table element.  Present alignment data has no
/// precise mapping yet and renders as the default layout.
pub open spec fn spec_render_equation_array(op: EqNode) -> Seq<char>
    decreases op, 0int,
{
    match op {
        EqNode::EquationArray { rows, .. } => "<mtable>"@ + spec_replace_amp(spec_array_rows(rows))
            + "</mtable>"@,
        _ => Seq::empty(),
    }
}

/// A fraction: the grouped numerator and denominator inside a fraction
/// element.  The compact variant currently lowers like the default one; the
/// flag is kept on the node for when a reduced layout is added.
pub open spec fn spec_render_fraction(op: EqNode) -> Seq<char>
    decreases op, 0int,
{
    match op {
        EqNode::Fraction { num, den, .. } => "<mfrac>"@ + spec_render_group(num)
            + spec_render_group(den) + "</mfrac>"@,
        _ => Seq::empty(),
    }
}

/// A function application: the grouped function, the invisible
/// function-application operator, the grouped body.
pub open spec fn spec_render_function_apply(op: EqNode) -> Seq<char>
    decreases op, 0int,
{
    match op {
        EqNode::FunctionApply { func, body } => spec_render_group(func) + "<mo>\u{2061}</mo>"@
            + spec_render_group(body),
        _ => Seq::empty(),
    }
}

/// A left subscript / superscript: the grouped body with prescripts; an empty
/// script renders as an explicit none element.
pub open spec fn spec_render_left_sub_sup(op: EqNode) -> Seq<char>
    decreases op, 0int,
{
    match op {
        EqNode::LeftSubSup { sub, sup, body } => {
            let sub_markup = if sub.len() == 0 {
                "<none/>"@
            } else {
                spec_render_group(sub)
            };
            let sup_markup = if sup.len() == 0 {
                "<none/>"@
            } else {
                spec_render_group(sup)
            };
            "<mmultiscripts>"@ + spec_render_group(body) + "<none/><none/><mprescripts/>"@
                + sub_markup + sup_markup + "</mmultiscripts>"@
        },
        _ => Seq::empty(),
    }
}

/// A lower limit: the grouped body over the grouped limit in an under
/// element.
pub open spec fn spec_render_lower_limit(op: EqNode) -> Seq<char>
    decreases op, 0int,
{
    match op {
        EqNode::LowerLimit { body, limit } => "<munder>"@ + spec_render_group(body)
            + spec_render_group(limit) + "</munder>"@,
        _ => Seq::empty(),
    }
}

/// The literal glyph pair of a matrix bracket kind.
pub open spec fn spec_matrix_brackets_glyphs(brackets: MatrixBrackets) -> (char, char) {
    match brackets {
        MatrixBrackets::Parentheses => ('(', ')'),
        MatrixBrackets::VerticalBars => ('|', '|'),
        MatrixBrackets::DoubleVerticalBars => ('\u{2016}', '\u{2016}'),
    }
}

/// The markup of one empty matrix cell: a visible placeholder glyph when the
/// matrix asks for placeholders, a truly empty cell otherwise.
pub open spec fn spec_matrix_empty_cell(show_placeholder: bool) -> Seq<char> {
    if show_placeholder {
        "<mtd><mo>\u{25a1}</mo></mtd>"@
    } else {
        "<mtd></mtd>"@
    }
}

/// `count` empty matrix cells.
pub open spec fn spec_matrix_empty_cells(count: int, show_placeholder: bool) -> Seq<char>
    decreases count,
{
    if count <= 0 {
        Seq::empty()
    } else {
        spec_matrix_empty_cell(show_placeholder) + spec_matrix_empty_cells(
            count - 1,
            show_placeholder,
        )
    }
}

/// The cells of one matrix row: the first `n` items of `items` as cells (an
/// empty item rendered as an empty cell), then `pad` empty cells.
pub open spec fn spec_matrix_row(
    items: Seq<Seq<EqNode>>,
    n: int,
    pad: int,
    show_placeholder: bool,
) -> Seq<char>
    decreases items, 0int,
{
    if n <= 0 || items.len() == 0 {
        spec_matrix_empty_cells(pad, show_placeholder)
    } else {
        let cell = if items[0].len() == 0 {
            spec_matrix_empty_cell(show_placeholder)
        } else {
            "<mtd>"@ + spec_render_group(items[0]) + "</mtd>"@
        };
        cell + spec_matrix_row(items.drop_first(), n - 1, pad, show_placeholder)
    }
}

/// The rows of a matrix: the items chunked into rows of `cols` cells, the
/// last row padded with empty cells up to `cols`.
pub open spec fn spec_matrix_rows(items: Seq<Seq<EqNode>>, cols: int, show_placeholder: bool) -> Seq<
    char,
>
    decreases items, 1int,
{
    if cols < 1 || items.len() == 0 {
        Seq::empty()
    } else if items.len() <= cols {
        "<mtr>"@ + spec_matrix_row(items, items.len() as int, cols - items.len(), show_placeholder)
            + "</mtr>"@
    } else {
        "<mtr>"@ + spec_matrix_row(items, cols, 0, show_placeholder) + "</mtr>"@ + spec_matrix_rows(
            items.skip(cols),
            cols,
            show_placeholder,
        )
    }
}

/// The row-alignment attribute of a matrix.
pub open spec fn spec_matrix_row_align(align: Option<MatrixAlignment>) -> Seq<char> {
    match align {
        Some(MatrixAlignment::TopRow) => " rowalign=\"top\""@,
        Some(MatrixAlignment::BottomRow) => " rowalign=\"bottom\""@,
        _ => Seq::empty(),
    }
}

/// A matrix: its items chunked into fixed-width table rows between the
/// bracket glyphs its bracket kind selects, inside one row element.  A
/// zero-column matrix is laid out as a single column.
pub open spec fn spec_render_matrix(op: EqNode) -> Seq<char>
    decreases op, 0int,
{
    match op {
        EqNode::Matrix { columns, brackets, align, items } => {
            let cols = if columns == 0 {
                1int
            } else {
                columns as int
            };
            let show_placeholder = align == Some(MatrixAlignment::ShowPlaceholder);
            let open_markup = match brackets {
                Some(b) => seq![spec_matrix_brackets_glyphs(b).0],
                None => Seq::empty(),
            };
            let close_markup = match brackets {
                Some(b) => seq![spec_matrix_brackets_glyphs(b).1],
                None => Seq::empty(),
            };
            "<mrow><mo>"@ + open_markup + "</mo><mtable columnspacing=\"0.8em\""@
                + spec_matrix_row_align(align) + ">"@ + spec_matrix_rows(
                items,
                cols,
                show_placeholder,
            ) + "</mtable><mo>"@ + close_markup + "</mo></mrow>"@
        },
        _ => Seq::empty(),
    }
}

/// The operator glyph of an n-ary operator, with its stretch hint.
pub open spec fn spec_nary_op_node(op_char: char, grow: NAryGrow) -> Seq<char> {
    match grow {
        NAryGrow::Default => "<mo>"@ + seq![op_char] + "</mo>"@,
        NAryGrow::DontGrowWithContent => "<mo stretchy=\"false\">"@ + seq![op_char] + "</mo>"@,
        NAryGrow::GrowWithContent => "<mo stretchy=\"true\">"@ + seq![op_char] + "</mo>"@,
    }
}

/// An n-ary operator: the operator glyph with its lower and upper limits —
/// as under / over scripts or side scripts per the decoded alignment, with
/// placeholder substitution for empty limits and an optional swap — followed
/// by the grouped body, inside one row element.
pub open spec fn spec_render_nary(op: EqNode) -> Seq<char>
    decreases op, 0int,
{
    match op {
        EqNode::NAry { op: op_char, display, sub, sup, body } => {
            match display {
                None => "<mrow><munderover>"@ + spec_nary_op_node(op_char, NAryGrow::Default)
                    + spec_render_group(sub) + spec_render_group(sup) + "</munderover>"@
                    + spec_render_group(body) + "</mrow>"@,
                Some(d) => {
                    let op_node = spec_nary_op_node(op_char, d.grow);
                    let sub_content = if d.show_llim_placeholder && sub.len() == 0 {
                        "<mrow><mo>\u{25a1}</mo></mrow>"@
                    } else {
                        spec_render_group(sub)
                    };
                    let sup_content = if d.show_ulim_placeholder && sup.len() == 0 {
                        "<mrow><mo>\u{25a1}</mo></mrow>"@
                    } else {
                        spec_render_group(sup)
                    };
                    let first = if d.limits_opposite {
                        sup_content
                    } else {
                        sub_content
                    };
                    let second = if d.limits_opposite {
                        sub_content
                    } else {
                        sup_content
                    };
                    let nary = if d.align is LimitsSubSup || d.align is UpperLimitAsSuperScript {
                        "<msubsup>"@ + op_node + first + second + "</msubsup>"@
                    } else {
                        "<munderover>"@ + op_node + first + second + "</munderover>"@
                    };
                    "<mrow>"@ + nary + spec_render_group(body) + "</mrow>"@
                },
            }
        },
        _ => Seq::empty(),
    }
}

/// An overbar: the grouped body under an accented macron glyph.
pub open spec fn spec_render_over_bar(op: EqNode) -> Seq<char>
    decreases op, 0int,
{
    match op {
        EqNode::OverBar { body } => "<mover accent=\"true\">"@ + spec_render_group(body)
            + "<mo>\u{00af}</mo></mover>"@,
        _ => Seq::empty(),
    }
}

/// Whether a phantom of this kind shows its content by default.
pub open spec fn spec_phantom_shows(kind: PhantomKind) -> bool {
    ||| kind is AscentSmash
    ||| kind is DescentSmash
    ||| kind is HorizontalSmash
    ||| kind is VerticalSmash
}

/// A phantom: the grouped body, hidden in a phantom element or — when shown
/// transparently — a transparent style element, then dimension-smashed by a
/// padded element with the zero attributes its kind and display flags select.
pub open spec fn spec_render_phantom(op: EqNode) -> Seq<char>
    decreases op, 0int,
{
    match op {
        EqNode::Phantom { kind, display, body } => {
            let show0 = spec_phantom_shows(kind);
            let show = show0 || (display matches Some(d) && d.show);
            let transparent = display matches Some(d) && d.transparent;
            let zero_width = (display matches Some(d) && d.zero_width) || kind
                is VerticalPhantom || kind is HorizontalSmash;
            let zero_ascent = (display matches Some(d) && d.zero_ascent) || kind
                is HorizontalPhantom || kind is AscentSmash || kind is VerticalSmash;
            let zero_descent = (display matches Some(d) && d.zero_descent) || kind
                is HorizontalPhantom || kind is DescentSmash || kind is VerticalSmash;
            let content0 = spec_render_group(body);
            let content = if !show {
                "<mphantom>"@ + content0 + "</mphantom>"@
            } else if transparent {
                "<mstyle mathcolor=\"transparent\">"@ + content0 + "</mstyle>"@
            } else {
                content0
            };
            if zero_width || zero_ascent || zero_descent {
                let attrs = (if zero_width {
                    " width=\"0\""@
                } else {
                    Seq::<char>::empty()
                }) + (if zero_ascent {
                    " height=\"0\""@
                } else {
                    Seq::<char>::empty()
                }) + (if zero_descent {
                    " depth=\"0\""@
                } else {
                    Seq::<char>::empty()
                });
                "<mpadded"@ + attrs + ">"@ + content + "</mpadded>"@
            } else {
                content
            }
        },
        _ => Seq::empty(),
    }
}

/// A radical: the grouped body and degree inside a root element.
pub open spec fn spec_render_radical(op: EqNode) -> Seq<char>
    decreases op, 0int,
{
    match op {
        EqNode::Radical { degree, body } => "<mroot>"@ + spec_render_group(body)
            + spec_render_group(degree) + "</mroot>"@,
        _ => Seq::empty(),
    }
}

/// A slashed fraction: numerator and denominator around a fraction-slash
/// glyph — in line when linear, else raised and lowered at reduced script
/// level.
pub open spec fn spec_render_slashed_fraction(op: EqNode) -> Seq<char>
    decreases op, 0int,
{
    match op {
        EqNode::SlashedFraction { num, den, linear } => {
            if linear {
                spec_render_group(num) + "<mo>\u{2044}</mo>"@ + spec_render_group(den)
            } else {
                "<mrow><msup><mrow/><mstyle scriptlevel=\"1\" displaystyle=\"false\">"@
                    + spec_render_group(num)
                    + "</mstyle></msup><mo>\u{2044}</mo><msub><mrow/><mstyle scriptlevel=\"1\" displaystyle=\"false\">"@
                    + spec_render_group(den) + "</mstyle></msub></mrow>"@
            }
        },
        _ => Seq::empty(),
    }
}

/// A stack: two grouped equations as the rows of a two-row table.
pub open spec fn spec_render_stack(op: EqNode) -> Seq<char>
    decreases op, 0int,
{
    match op {
        EqNode::Stack { num, den } => "<mtable><mtr><mtd>"@ + spec_render_group(num)
            + "</mtd></mtr><mtr><mtd>"@ + spec_render_group(den) + "</mtd></mtr></mtable>"@,
        _ => Seq::empty(),
    }
}

/// The stacking element of a stretch stack: the equation-typed operand is
/// always the base, so a mark below stacks under and a mark above stacks
/// over, whichever operand the source model called the base.
pub open spec fn spec_stretch_stack_under(pos: StretchStackPosition) -> bool {
    pos is CharBelow || pos is BaseAbove
}

/// A stretch stack: the grouped body as the base with the stacked accent
/// glyph under or over it.
pub open spec fn spec_render_stretch_stack(op: EqNode) -> Seq<char>
    decreases op, 0int,
{
    match op {
        EqNode::StretchStack { mark, pos, body } => {
            if spec_stretch_stack_under(pos) {
                "<munder accent=\"true\">"@ + spec_render_group(body) + "<mo>"@ + seq![mark]
                    + "</mo></munder>"@
            } else {
                "<mover accent=\"true\">"@ + spec_render_group(body) + "<mo>"@ + seq![mark]
                    + "</mo></mover>"@
            }
        },
        _ => Seq::empty(),
    }
}

/// The markup of one script argument: an empty script renders as the
/// dedicated empty-placeholder glyph, preserving spacing parity.
pub open spec fn spec_script_or_placeholder(script: Seq<EqNode>) -> Seq<char>
    decreases script, 4int,
{
    if script.len() == 0 {
        "<mo>\u{2b1a}</mo>"@
    } else {
        spec_render_group(script)
    }
}

/// A subscript: the grouped body and the subscript argument (or its
/// placeholder) in a sub element.
pub open spec fn spec_render_subscript(op: EqNode) -> Seq<char>
    decreases op, 0int,
{
    match op {
        EqNode::Subscript { sub, body } => "<msub>"@ + spec_render_group(body)
            + spec_script_or_placeholder(sub) + "</msub>"@,
        _ => Seq::empty(),
    }
}

/// A combined subscript / superscript: the grouped body and both script
/// arguments (or their placeholders) in a subsup element.  Present alignment
/// data has no precise mapping yet and renders as the default layout.
pub open spec fn spec_render_sub_sup(op: EqNode) -> Seq<char>
    decreases op, 0int,
{
    match op {
        EqNode::SubSup { sub, sup, body, .. } => "<msubsup>"@ + spec_render_group(body)
            + spec_script_or_placeholder(sub) + spec_script_or_placeholder(sup) + "</msubsup>"@,
        _ => Seq::empty(),
    }
}

/// A superscript: the grouped body and the superscript argument (or its
/// placeholder) in a sup element.
pub open spec fn spec_render_superscript(op: EqNode) -> Seq<char>
    decreases op, 0int,
{
    match op {
        EqNode::Superscript { sup, body } => "<msup>"@ + spec_render_group(body)
            + spec_script_or_placeholder(sup) + "</msup>"@,
        _ => Seq::empty(),
    }
}

/// An underbar: the grouped body over an accented low-line glyph.
pub open spec fn spec_render_under_bar(op: EqNode) -> Seq<char>
    decreases op, 0int,
{
    match op {
        EqNode::UnderBar { body } => "<munder accentunder=\"true\">"@ + spec_render_group(body)
            + "<mo>_</mo></munder>"@,
        _ => Seq::empty(),
    }
}

/// An upper limit: the grouped body under the grouped limit in an over
/// element.
pub open spec fn spec_render_upper_limit(op: EqNode) -> Seq<char>
    decreases op, 0int,
{
    match op {
        EqNode::UpperLimit { body, limit } => "<mover>"@ + spec_render_group(body)
            + spec_render_group(limit) + "</mover>"@,
        _ => Seq::empty(),
    }
}

/// The size of one bracket growth tier in em units.
pub fn brackets_size(size: i32) -> (r: String)
    requires
        0 <= size <= 4,
    ensures
        r@ == spec_brackets_size(size as int),
{
    if size == 0 {
        String::from_str("1em")
    } else if size == 1 {
        String::from_str("1.25em")
    } else if size == 2 {
        String::from_str("1.5625em")
    } else if size == 3 {
        String::from_str("1.953125em")
    } else {
        String::from_str("2.44140625em")
    }
}

/// The explicit min / max size attributes of a bracket glyph, or the empty
/// string when no growth was requested.
pub fn bracket_size(align: Option<BracketsAlignment>) -> (r: String)
    ensures
        r@ == spec_bracket_size(align),
{
    match align {
        None => String::new(),
        Some(a) => {
            let size_markup = match a {
                BracketsAlignment::DontGrow => brackets_size(0),
                BracketsAlignment::TeXbig => brackets_size(1),
                BracketsAlignment::TeXBig => brackets_size(2),
                BracketsAlignment::TeXbigg => brackets_size(3),
                BracketsAlignment::TeXBigg => brackets_size(4),
            };
            let mut r = String::from_str(" minsize=\"");
            r.append(size_markup.as_str());
            r.append("\" maxsize=\"");
            r.append(size_markup.as_str());
            r.append("\"");
            proof {
                assert(r@ =~= spec_bracket_size(align));
            }
            r
        },
    }
}

/// Renders a bracket pair.
fn render_brackets(
    opening: Option<char>,
    closing: Option<char>,
    body: &Equation,
    align: Option<BracketsAlignment>,
) -> (r: String)
    ensures
        r@ == spec_render_brackets(
            EqNode::Brackets { opening, closing, align, body: eq_view(*body) },
        ),
    decreases size_eq(eq_view(*body)), 3int,
{
    let size_markup = bracket_size(align);
    let mut r = String::from_str("<mrow>");
    if let Some(c) = opening {
        r.append("<mo");
        r.append(size_markup.as_str());
        r.append(">");
        push_char(&mut r, c);
        r.append("</mo>");
    }
    let g = render_group(body);
    r.append(g.as_str());
    if let Some(c) = closing {
        r.append("<mo");
        r.append(size_markup.as_str());
        r.append(">");
        push_char(&mut r, c);
        r.append("</mo>");
    }
    r.append("</mrow>");
    proof {
        assert(r@ =~= spec_render_brackets(
            EqNode::Brackets { opening, closing, align, body: eq_view(*body) },
        ));
    }
    r
}

/// Renders a bracket pair with separators.
fn render_brackets_with_seps(
    opening: Option<char>,
    closing: Option<char>,
    sep: char,
    segments: &Vec<Equation>,
    align: Option<BracketsAlignment>,
) -> (r: String)
    ensures
        r@ == spec_render_brackets_with_seps(
            EqNode::BracketsWithSeps {
                opening,
                closing,
                sep,
                align,
                segments: eq_list_view(*segments),
            },
        ),
    decreases size_eq_list(eq_list_view(*segments)), 3int,
{
    let ghost segs = eq_list_view(*segments);
    let size_markup = bracket_size(align);
    let mut sep_markup = String::from_str("<mo stretchy=\"true\" symmetric=\"true\"");
    sep_markup.append(size_markup.as_str());
    sep_markup.append(">");
    push_char(&mut sep_markup, sep);
    sep_markup.append("</mo>");
    proof {
        assert(sep_markup@ =~= "<mo stretchy=\"true\" symmetric=\"true\""@ + spec_bracket_size(
            align,
        ) + ">"@ + seq![sep] + "</mo>"@);
        lemma_eq_list_view_seq_len(segments@);
    }
    let mut content = String::new();
    let mut i: usize = 0;
    proof {
        assert(segs.skip(0) =~= segs);
        assert(content@ + spec_join_groups(segs, sep_markup@) =~= spec_join_groups(
            segs,
            sep_markup@,
        ));
    }
    while i < segments.len()
        invariant
            0 <= i <= segments@.len(),
            segs == eq_list_view(*segments),
            segs.len() == segments@.len(),
            forall|m: int|
                0 <= m < segments@.len() ==> #[trigger] segs[m] == eq_view(segments@[m]),
            content@ + spec_join_groups(segs.skip(i as int), sep_markup@) == spec_join_groups(
                segs,
                sep_markup@,
            ),
        decreases segments@.len() - i,
    {
        proof {
            lemma_size_eq_list_elem(segs, i as int);
            assert(segs.skip(i as int)[0] == segs[i as int]);
            assert(segs.skip(i as int).drop_first() =~= segs.skip(i + 1));
        }
        let g = render_group(&segments[i]);
        content.append(g.as_str());
        if i + 1 < segments.len() {
            content.append(sep_markup.as_str());
        }
        proof {
            if i + 1 == segments@.len() {
                assert(segs.skip(i as int).len() == 1);
            }
            assert(content@ + spec_join_groups(segs.skip(i + 1), sep_markup@) =~= spec_join_groups(
                segs,
                sep_markup@,
            ));
        }
        i = i + 1;
    }
    proof {
        assert(segs.skip(segs.len() as int) =~= Seq::<Seq<EqNode>>::empty());
        assert(content@ + Seq::<char>::empty() =~= content@);
    }
    let mut r = String::from_str("<mrow>");
    if let Some(c) = opening {
        r.append("<mo symmetric=\"true\"");
        r.append(size_markup.as_str());
        r.append(">");
        push_char(&mut r, c);
        r.append("</mo>");
    }
    r.append(content.as_str());
    if let Some(c) = closing {
        r.append("<mo symmetric=\"true\"");
        r.append(size_markup.as_str());
        r.append(">");
        push_char(&mut r, c);
        r.append("</mo>");
    }
    r.append("</mrow>");
    proof {
        assert(r@ =~= spec_render_brackets_with_seps(
            EqNode::BracketsWithSeps { opening, closing, sep, align, segments: segs },
        ));
    }
    r
}

/// Appends the string with every ampersand replaced by a left alignment mark.
fn append_replaced(r: &mut String, s: &String)
    ensures
        final(r)@ == old(r)@ + spec_replace_amp(s@),
{
    let s_str = s.as_str();
    let n = s_str.unicode_len();
    let mut i: usize = 0;
    proof {
        assert(s@.skip(0) =~= s@);
        assert(r@ + spec_replace_amp(s@) =~= old(r)@ + spec_replace_amp(s@));
    }
    while i < n
        invariant
            0 <= i <= n,
            n == s@.len(),
            s_str@ == s@,
            r@ + spec_replace_amp(s@.skip(i as int)) == old(r)@ + spec_replace_amp(s@),
        decreases n - i,
    {
        proof {
            assert(s@.skip(i as int)[0] == s@[i as int]);
            assert(s@.skip(i as int).drop_first() =~= s@.skip(i + 1));
        }
        let c = s_str.get_char(i);
        if c == '&' {
            r.append("<malignmark edge=\"left\"></malignmark>");
        } else {
            push_char(r, c);
        }
        proof {
            assert(r@ + spec_replace_amp(s@.skip(i + 1)) =~= old(r)@ + spec_replace_amp(s@));
        }
        i = i + 1;
    }
    proof {
        assert(s@.skip(n as int) =~= Seq::<char>::empty());
        assert(r@ + Seq::<char>::empty() =~= r@);
    }
}

/// Renders an equation array.  Present alignment data has no precise mapping
/// yet and renders as the default layout.
fn render_equation_array(
    columns: u8,
    rows: &Vec<Equation>,
    align: Option<crate::ast::EquationArrayAlignment>,
) -> (r: String)
    ensures
        r@ == spec_render_equation_array(
            EqNode::EquationArray { columns, align, rows: eq_list_view(*rows) },
        ),
    decreases size_eq_list(eq_list_view(*rows)), 3int,
{
    let ghost rv = eq_list_view(*rows);
    proof {
        lemma_eq_list_view_seq_len(rows@);
    }
    let mut rows_markup = String::new();
    let mut i: usize = 0;
    proof {
        assert(rv.skip(0) =~= rv);
        assert(rows_markup@ + spec_array_rows(rv) =~= spec_array_rows(rv));
    }
    while i < rows.len()
        invariant
            0 <= i <= rows@.len(),
            rv == eq_list_view(*rows),
            rv.len() == rows@.len(),
            forall|m: int| 0 <= m < rows@.len() ==> #[trigger] rv[m] == eq_view(rows@[m]),
            rows_markup@ + spec_array_rows(rv.skip(i as int)) == spec_array_rows(rv),
        decreases rows@.len() - i,
    {
        proof {
            lemma_size_eq_list_elem(rv, i as int);
            assert(rv.skip(i as int)[0] == rv[i as int]);
            assert(rv.skip(i as int).drop_first() =~= rv.skip(i + 1));
        }
        rows_markup.append("<mtr><mtd>");
        let g = render_group(&rows[i]);
        rows_markup.append(g.as_str());
        rows_markup.append("</mtd></mtr>");
        proof {
            assert(rows_markup@ + spec_array_rows(rv.skip(i + 1)) =~= spec_array_rows(rv));
        }
        i = i + 1;
    }
    proof {
        assert(rv.skip(rv.len() as int) =~= Seq::<Seq<EqNode>>::empty());
        assert(rows_markup@ + Seq::<char>::empty() =~= rows_markup@);
    }
    let mut r = String::from_str("<mtable>");
    append_replaced(&mut r, &rows_markup);
    r.append("</mtable>");
    proof {
        assert(r@ =~= spec_render_equation_array(
            EqNode::EquationArray { columns, align, rows: rv },
        ));
    }
    r
}

/// The literal glyph pair of a matrix bracket kind.
pub fn render_matrix_brackets(brackets: MatrixBrackets) -> (r: (char, char))
    ensures
        r == spec_matrix_brackets_glyphs(brackets),
{
    match brackets {
        MatrixBrackets::Parentheses => ('(', ')'),
        MatrixBrackets::VerticalBars => ('|', '|'),
        MatrixBrackets::DoubleVerticalBars => ('\u{2016}', '\u{2016}'),
    }
}

/// Appends `count` empty matrix cells.
fn append_empty_cells(r: &mut String, count: usize, show_placeholder: bool)
    ensures
        final(r)@ == old(r)@ + spec_matrix_empty_cells(count as int, show_placeholder),
{
    let mut p: usize = 0;
    proof {
        assert(r@ + spec_matrix_empty_cells(count as int, show_placeholder) =~= old(r)@
            + spec_matrix_empty_cells(count as int, show_placeholder));
    }
    while p < count
        invariant
            0 <= p <= count,
            r@ + spec_matrix_empty_cells(count - p, show_placeholder) == old(r)@
                + spec_matrix_empty_cells(count as int, show_placeholder),
        decreases count - p,
    {
        if show_placeholder {
            r.append("<mtd><mo>\u{25a1}</mo></mtd>");
        } else {
            r.append("<mtd></mtd>");
        }
        proof {
            assert(r@ + spec_matrix_empty_cells(count - p - 1, show_placeholder) =~= old(r)@
                + spec_matrix_empty_cells(count as int, show_placeholder));
        }
        p = p + 1;
    }
    proof {
        assert(r@ + Seq::<char>::empty() =~= r@);
    }
}

/// Renders a matrix.  A zero-column matrix is laid out as a single column.
fn render_matrix(
    columns: u8,
    items: &Vec<Equation>,
    brackets: Option<MatrixBrackets>,
    align: Option<MatrixAlignment>,
) -> (r: String)
    ensures
        r@ == spec_render_matrix(
            EqNode::Matrix { columns, brackets, align, items: eq_list_view(*items) },
        ),
    decreases size_eq_list(eq_list_view(*items)), 3int,
{
    let ghost iv = eq_list_view(*items);
    proof {
        lemma_eq_list_view_seq_len(items@);
    }
    let cols: usize = if columns == 0 {
        1
    } else {
        columns as usize
    };
    let show_placeholder = match align {
        Some(MatrixAlignment::ShowPlaceholder) => true,
        _ => false,
    };
    proof {
        assert(show_placeholder == (align == Some(MatrixAlignment::ShowPlaceholder)));
    }
    let total = items.len();
    let mut rows_markup = String::new();
    let mut idx: usize = 0;
    proof {
        assert(iv.skip(0) =~= iv);
        assert(rows_markup@ + spec_matrix_rows(iv, cols as int, show_placeholder)
            =~= spec_matrix_rows(iv, cols as int, show_placeholder));
    }
    while idx < total
        invariant
            0 <= idx <= items@.len(),
            total == items@.len(),
            1 <= cols,
            iv == eq_list_view(*items),
            iv.len() == items@.len(),
            forall|m: int| 0 <= m < items@.len() ==> #[trigger] iv[m] == eq_view(items@[m]),
            rows_markup@ + spec_matrix_rows(iv.skip(idx as int), cols as int, show_placeholder)
                == spec_matrix_rows(iv, cols as int, show_placeholder),
        decreases items@.len() - idx,
    {
        let remaining = total - idx;
        let n = if remaining < cols {
            remaining
        } else {
            cols
        };
        let pad = cols - n;
        rows_markup.append("<mtr>");
        let ghost row_base = rows_markup@;
        let ghost chunk = iv.skip(idx as int);
        let mut t: usize = 0;
        proof {
            assert(chunk.skip(0) =~= chunk);
            assert(rows_markup@ + spec_matrix_row(chunk, n as int, pad as int, show_placeholder)
                =~= row_base + spec_matrix_row(chunk, n as int, pad as int, show_placeholder));
        }
        while t < n
            invariant
                0 <= t <= n,
                n <= items@.len() - idx,
                0 <= idx,
                idx + n <= items@.len(),
                total == items@.len(),
                iv == eq_list_view(*items),
                iv.len() == items@.len(),
                forall|m: int| 0 <= m < items@.len() ==> #[trigger] iv[m] == eq_view(items@[m]),
                chunk == iv.skip(idx as int),
                rows_markup@ + spec_matrix_row(
                    chunk.skip(t as int),
                    n - t,
                    pad as int,
                    show_placeholder,
                ) == row_base + spec_matrix_row(chunk, n as int, pad as int, show_placeholder),
            decreases n - t,
        {
            proof {
                lemma_size_eq_list_elem(iv, idx + t);
                crate::ast::lemma_eq_view_seq_len(items@[idx + t]@);
                assert(chunk.skip(t as int)[0] == iv[idx + t]);
                assert(chunk.skip(t as int).drop_first() =~= chunk.skip(t + 1));
                assert(chunk.skip(t as int).len() > 0);
            }
            let cell = &items[idx + t];
            if cell.len() == 0 {
                if show_placeholder {
                    rows_markup.append("<mtd><mo>\u{25a1}</mo></mtd>");
                } else {
                    rows_markup.append("<mtd></mtd>");
                }
            } else {
                rows_markup.append("<mtd>");
                let g = render_group(cell);
                rows_markup.append(g.as_str());
                rows_markup.append("</mtd>");
            }
            proof {
                assert(rows_markup@ + spec_matrix_row(
                    chunk.skip(t + 1),
                    n - t - 1,
                    pad as int,
                    show_placeholder,
                ) =~= row_base + spec_matrix_row(chunk, n as int, pad as int, show_placeholder));
            }
            t = t + 1;
        }
        proof {
            if chunk.skip(n as int).len() == 0 {
                assert(spec_matrix_row(chunk.skip(n as int), 0, pad as int, show_placeholder)
                    == spec_matrix_empty_cells(pad as int, show_placeholder));
            }
        }
        append_empty_cells(&mut rows_markup, pad, show_placeholder);
        rows_markup.append("</mtr>");
        proof {
            assert(iv.skip(idx as int).skip(n as int) =~= iv.skip(idx + n));
            assert(rows_markup@ + spec_matrix_rows(iv.skip(idx + n), cols as int, show_placeholder)
                =~= spec_matrix_rows(iv, cols as int, show_placeholder));
        }
        idx = idx + n;
    }
    proof {
        assert(iv.skip(iv.len() as int) =~= Seq::<Seq<EqNode>>::empty());
        assert(rows_markup@ + Seq::<char>::empty() =~= rows_markup@);
    }
    let glyphs = match brackets {
        Some(b) => Some(render_matrix_brackets(b)),
        None => None,
    };
    let mut r = String::from_str("<mrow><mo>");
    if let Some(pair) = glyphs {
        push_char(&mut r, pair.0);
    }
    r.append("</mo><mtable columnspacing=\"0.8em\"");
    match align {
        Some(MatrixAlignment::TopRow) => r.append(" rowalign=\"top\""),
        Some(MatrixAlignment::BottomRow) => r.append(" rowalign=\"bottom\""),
        _ => {},
    }
    r.append(">");
    r.append(rows_markup.as_str());
    r.append("</mtable><mo>");
    if let Some(pair) = glyphs {
        push_char(&mut r, pair.1);
    }
    r.append("</mo></mrow>");
    proof {
        assert(r@ =~= spec_render_matrix(EqNode::Matrix { columns, brackets, align, items: iv }));
    }
    r
}

/// Renders the operator glyph of an n-ary operator, with its stretch hint.
fn render_nary_op_node(op_char: char, grow: NAryGrow) -> (r: String)
    ensures
        r@ == spec_nary_op_node(op_char, grow),
{
    let mut r = match grow {
        NAryGrow::Default => String::from_str("<mo>"),
        NAryGrow::DontGrowWithContent => String::from_str("<mo stretchy=\"false\">"),
        NAryGrow::GrowWithContent => String::from_str("<mo stretchy=\"true\">"),
    };
    push_char(&mut r, op_char);
    r.append("</mo>");
    proof {
        assert(r@ =~= spec_nary_op_node(op_char, grow));
    }
    r
}

/// Renders an n-ary operator.
#[verifier::rlimit(60)]
fn render_nary(
    op_char: char,
    sub: &Equation,
    sup: &Equation,
    body: &Equation,
    display: Option<crate::ast::NAryDisplay>,
) -> (r: String)
    ensures
        r@ == spec_render_nary(
            EqNode::NAry {
                op: op_char,
                display,
                sub: eq_view(*sub),
                sup: eq_view(*sup),
                body: eq_view(*body),
            },
        ),
    decreases size_eq(eq_view(*sub)) + size_eq(eq_view(*sup)) + size_eq(eq_view(*body)), 3int,
{
    proof {
        crate::ast::lemma_size_eq_pos(eq_view(*sub));
        crate::ast::lemma_size_eq_pos(eq_view(*sup));
        crate::ast::lemma_size_eq_pos(eq_view(*body));
        lemma_eq_view_seq_len(sub@);
        lemma_eq_view_seq_len(sup@);
    }
    match display {
        None => {
            let op_node = render_nary_op_node(op_char, NAryGrow::Default);
            let mut r = String::from_str("<mrow><munderover>");
            r.append(op_node.as_str());
            let s1 = render_group(sub);
            r.append(s1.as_str());
            let s2 = render_group(sup);
            r.append(s2.as_str());
            r.append("</munderover>");
            let b = render_group(body);
            r.append(b.as_str());
            r.append("</mrow>");
            proof {
                assert(r@ =~= spec_render_nary(
                    EqNode::NAry {
                        op: op_char,
                        display,
                        sub: eq_view(*sub),
                        sup: eq_view(*sup),
                        body: eq_view(*body),
                    },
                ));
            }
            r
        },
        Some(d) => {
            let op_node = render_nary_op_node(op_char, d.grow);
            let sub_content = if d.show_llim_placeholder && sub.len() == 0 {
                String::from_str("<mrow><mo>\u{25a1}</mo></mrow>")
            } else {
                render_group(sub)
            };
            let sup_content = if d.show_ulim_placeholder && sup.len() == 0 {
                String::from_str("<mrow><mo>\u{25a1}</mo></mrow>")
            } else {
                render_group(sup)
            };
            let (first, second) = if d.limits_opposite {
                (sup_content, sub_content)
            } else {
                (sub_content, sup_content)
            };
            let side_scripts = match d.align {
                NAryAlignment::LimitsSubSup => true,
                NAryAlignment::UpperLimitAsSuperScript => true,
                _ => false,
            };
            let mut r = String::from_str("<mrow>");
            if side_scripts {
                r.append("<msubsup>");
            } else {
                r.append("<munderover>");
            }
            r.append(op_node.as_str());
            r.append(first.as_str());
            r.append(second.as_str());
            if side_scripts {
                r.append("</msubsup>");
            } else {
                r.append("</munderover>");
            }
            let b = render_group(body);
            r.append(b.as_str());
            r.append("</mrow>");
            proof {
                assert(r@ =~= spec_render_nary(
                    EqNode::NAry {
                        op: op_char,
                        display,
                        sub: eq_view(*sub),
                        sup: eq_view(*sup),
                        body: eq_view(*body),
                    },
                ));
            }
            r
        },
    }
}

/// Renders an abstract box.
fn render_box(body: &Equation, display: Option<BoxDisplay>) -> (r: String)
    ensures
        r@ == spec_render_box(EqNode::BoxObject { display, body: eq_view(*body) }),
    decreases size_eq(eq_view(*body)), 3int,
{
    match display {
        None => {
            let r = render_group(body);
            proof {
                assert(r@ == spec_render_box(EqNode::BoxObject { display, body: eq_view(*body) }));
            }
            r
        },
        Some(d) => {
            let g = render_group(body);
            let content1 = if d.centered {
                let mut c = String::from_str("<mrow><malignmark/>");
                c.append(g.as_str());
                c.append("</mrow>");
                c
            } else {
                g
            };
            let spaced = match d.space {
                BoxSpace::Default => false,
                BoxSpace::Ord => false,
                _ => true,
            };
            let content2 = if spaced {
                let mut c = String::from_str("<mrow>");
                match d.space {
                    BoxSpace::Binary => c.append("<mspace width=\"0.222em\"></mspace>"),
                    BoxSpace::Relational => c.append("<mspace width=\"0.278em\"></mspace>"),
                    BoxSpace::Skip => c.append("<mspace width=\"0.444em\"></mspace>"),
                    BoxSpace::Differential => c.append("<mspace width=\"0.111em\"></mspace>"),
                    _ => {},
                }
                c.append(content1.as_str());
                match d.space {
                    BoxSpace::Unary => c.append("<mspace width=\"0.166em\"></mspace>"),
                    BoxSpace::Binary => c.append("<mspace width=\"0.222em\"></mspace>"),
                    BoxSpace::Relational => c.append("<mspace width=\"0.278em\"></mspace>"),
                    BoxSpace::Skip => c.append("<mspace width=\"0.444em\"></mspace>"),
                    _ => {},
                }
                c.append("</mrow>");
                c
            } else {
                content1
            };
            let content3 = match d.size {
                BoxSize::Script => {
                    let mut c = String::from_str(
                        "<mstyle scriptlevel=\"1\" displaystyle=\"false\">",
                    );
                    c.append(content2.as_str());
                    c.append("</mstyle>");
                    c
                },
                BoxSize::ScriptScript => {
                    let mut c = String::from_str(
                        "<mstyle scriptlevel=\"2\" displaystyle=\"false\">",
                    );
                    c.append(content2.as_str());
                    c.append("</mstyle>");
                    c
                },
                BoxSize::Text => content2,
            };
            let r = if d.no_break {
                let mut c = String::from_str("<mrow linebreak=\"nobreak\">");
                c.append(content3.as_str());
                c.append("</mrow>");
                c
            } else {
                content3
            };
            proof {
                assert(r@ =~= spec_render_box(EqNode::BoxObject { display, body: eq_view(*body) }));
            }
            r
        },
    }
}

/// Renders a phantom.
fn render_phantom(
    kind: PhantomKind,
    display: Option<crate::ast::PhantomDisplay>,
    body: &Equation,
) -> (r: String)
    ensures
        r@ == spec_render_phantom(EqNode::Phantom { kind, display, body: eq_view(*body) }),
    decreases size_eq(eq_view(*body)), 3int,
{
    let kind_shows = match kind {
        PhantomKind::AscentSmash => true,
        PhantomKind::DescentSmash => true,
        PhantomKind::HorizontalSmash => true,
        PhantomKind::VerticalSmash => true,
        _ => false,
    };
    let (d_show, d_transparent, d_zero_width, d_zero_ascent, d_zero_descent) = match display {
        Some(d) => (d.show, d.transparent, d.zero_width, d.zero_ascent, d.zero_descent),
        None => (false, false, false, false, false),
    };
    let show = kind_shows || d_show;
    let zero_width = d_zero_width || match kind {
        PhantomKind::VerticalPhantom => true,
        PhantomKind::HorizontalSmash => true,
        _ => false,
    };
    let zero_ascent = d_zero_ascent || match kind {
        PhantomKind::HorizontalPhantom => true,
        PhantomKind::AscentSmash => true,
        PhantomKind::VerticalSmash => true,
        _ => false,
    };
    let zero_descent = d_zero_descent || match kind {
        PhantomKind::HorizontalPhantom => true,
        PhantomKind::DescentSmash => true,
        PhantomKind::VerticalSmash => true,
        _ => false,
    };
    let g = render_group(body);
    let content = if !show {
        let mut c = String::from_str("<mphantom>");
        c.append(g.as_str());
        c.append("</mphantom>");
        c
    } else if d_transparent {
        let mut c = String::from_str("<mstyle mathcolor=\"transparent\">");
        c.append(g.as_str());
        c.append("</mstyle>");
        c
    } else {
        g
    };
    let r = if zero_width || zero_ascent || zero_descent {
        let mut c = String::from_str("<mpadded");
        if zero_width {
            c.append(" width=\"0\"");
        }
        if zero_ascent {
            c.append(" height=\"0\"");
        }
        if zero_descent {
            c.append(" depth=\"0\"");
        }
        c.append(">");
        c.append(content.as_str());
        c.append("</mpadded>");
        c
    } else {
        content
    };
    proof {
        assert(r@ =~= spec_render_phantom(EqNode::Phantom { kind, display, body: eq_view(*body) }));
    }
    r
}

/// Renders a slashed fraction.
fn render_slashed_fraction(num: &Equation, den: &Equation, linear: bool) -> (r: String)
    ensures
        r@ == spec_render_slashed_fraction(
            EqNode::SlashedFraction { num: eq_view(*num), den: eq_view(*den), linear },
        ),
    decreases size_eq(eq_view(*num)) + size_eq(eq_view(*den)), 3int,
{
    proof {
        crate::ast::lemma_size_eq_pos(eq_view(*num));
        crate::ast::lemma_size_eq_pos(eq_view(*den));
    }
    if linear {
        let mut r = render_group(num);
        r.append("<mo>\u{2044}</mo>");
        let d = render_group(den);
        r.append(d.as_str());
        proof {
            assert(r@ =~= spec_render_slashed_fraction(
                EqNode::SlashedFraction { num: eq_view(*num), den: eq_view(*den), linear },
            ));
        }
        r
    } else {
        let mut r = String::from_str(
            "<mrow><msup><mrow/><mstyle scriptlevel=\"1\" displaystyle=\"false\">",
        );
        let n = render_group(num);
        r.append(n.as_str());
        r.append(
            "</mstyle></msup><mo>\u{2044}</mo><msub><mrow/><mstyle scriptlevel=\"1\" displaystyle=\"false\">",
        );
        let d = render_group(den);
        r.append(d.as_str());
        r.append("</mstyle></msub></mrow>");
        proof {
            assert(r@ =~= spec_render_slashed_fraction(
                EqNode::SlashedFraction { num: eq_view(*num), den: eq_view(*den), linear },
            ));
        }
        r
    }
}

/// Appends the characters `v[i..j]` to the string.
fn append_chars(r: &mut String, v: &Vec<char>, i: usize, j: usize)
    requires
        i <= j <= v@.len(),
    ensures
        final(r)@ == old(r)@ + v@.subrange(i as int, j as int),
{
    proof {
        assert(v@.subrange(i as int, i as int) =~= Seq::<char>::empty());
        assert(r@ =~= old(r)@ + v@.subrange(i as int, i as int));
    }
    let mut k = i;
    while k < j
        invariant
            i <= k <= j <= v@.len(),
            r@ == old(r)@ + v@.subrange(i as int, k as int),
        decreases j - k,
    {
        push_char(r, v[k]);
        proof {
            assert(v@.subrange(i as int, k + 1) =~= v@.subrange(i as int, k as int).push(
                v@[k as int],
            ));
        }
        k = k + 1;
    }
}

/// Renders one literal text run: strips format characters, splits the rest
/// into maximal same-type segments, and renders each segment by its type's
/// template.
pub fn render_text(text: &String) -> (r: String)
    ensures
        r@ == spec_render_text(text@),
{
    let text_str = text.as_str();
    let n = text_str.unicode_len();
    let mut filtered: Vec<char> = Vec::new();
    let mut i: usize = 0;
    proof {
        assert(text@.skip(0) =~= text@);
    }
    while i < n
        invariant
            0 <= i <= n,
            n == text@.len(),
            text_str@ == text@,
            filtered@ + strip_formats(text@.skip(i as int)) == strip_formats(text@),
        decreases n - i,
    {
        proof {
            assert(text@.skip(i as int)[0] == text@[i as int]);
            assert(text@.skip(i as int).drop_first() =~= text@.skip(i + 1));
        }
        let c = text_str.get_char(i);
        if !is_skippable_format(c) {
            filtered.push(c);
            proof {
                assert(filtered@ + strip_formats(text@.skip(i + 1)) =~= strip_formats(text@));
            }
        }
        i = i + 1;
    }
    proof {
        assert(text@.skip(n as int) =~= Seq::<char>::empty());
        assert(filtered@ + Seq::<char>::empty() =~= filtered@);
        assert(filtered@ == strip_formats(text@));
    }
    let fv = Ghost(filtered@);
    let mut r = String::new();
    let mut k: usize = 0;
    proof {
        assert(fv@.skip(0) =~= fv@);
        assert(r@ + spec_render_runs(fv@) =~= spec_render_runs(fv@));
    }
    while k < filtered.len()
        invariant
            0 <= k <= filtered@.len(),
            fv@ == filtered@,
            r@ + spec_render_runs(fv@.skip(k as int)) == spec_render_runs(fv@),
        decreases filtered@.len() - k,
    {
        let t0 = TextType::from_char(filtered[k]);
        let mut j = k + 1;
        loop
            invariant_except_break
                k < j <= filtered@.len(),
                fv@ == filtered@,
                t0 == classify_char(fv@[k as int]),
                forall|m: int|
                    k < m < j ==> #[trigger] classify_char(fv@[m]) == classify_char(fv@[k as int]),
            ensures
                k < j <= filtered@.len(),
                fv@ == filtered@,
                forall|m: int|
                    k < m < j ==> #[trigger] classify_char(fv@[m]) == classify_char(fv@[k as int]),
                j == filtered@.len() || classify_char(fv@[j as int]) != classify_char(
                    fv@[k as int],
                ),
            decreases filtered@.len() - j,
        {
            if j == filtered.len() {
                break ;
            }
            let tj = TextType::from_char(filtered[j]);
            if tj != t0 {
                break ;
            }
            j = j + 1;
        }
        proof {
            let rest = fv@.skip(k as int);
            assert forall|m: int| 0 < m < j - k implies #[trigger] classify_char(rest[m])
                == classify_char(rest[0]) by {
                assert(rest[m] == fv@[k + m]);
                assert(rest[0] == fv@[k as int]);
            }
            if j - k < rest.len() {
                assert(rest[j - k] == fv@[j as int]);
            }
            lemma_run_len_is(rest, j - k);
            assert(rest.take(j - k) =~= fv@.subrange(k as int, j as int));
            assert(rest.skip(j - k) =~= fv@.skip(j as int));
            assert(rest[0] == fv@[k as int]);
        }
        append_segment(&mut r, t0, &filtered, k, j);
        proof {
            assert(r@ + spec_render_runs(fv@.skip(j as int)) =~= spec_render_runs(fv@));
        }
        k = j;
    }
    proof {
        assert(fv@.skip(filtered@.len() as int) =~= Seq::<char>::empty());
        assert(r@ + Seq::<char>::empty() =~= r@);
    }
    r
}

/// Appends the markup of one maximal same-type segment, `v[i..j]`.
fn append_segment(r: &mut String, t: TextType, v: &Vec<char>, i: usize, j: usize)
    requires
        i < j <= v@.len(),
    ensures
        final(r)@ == old(r)@ + spec_render_segment(t, v@.subrange(i as int, j as int)),
{
    let ghost seg = v@.subrange(i as int, j as int);
    match t {
        TextType::Bold => {
            r.append("<mi mathvariant=\"bold\">");
            append_chars(r, v, i, j);
            r.append("</mi>");
        },
        TextType::BoldItalic => {
            r.append("<mi mathvariant=\"bold-italic\">");
            append_chars(r, v, i, j);
            r.append("</mi>");
        },
        TextType::BoldScript => {
            r.append("<mi mathvariant=\"bold-script\">");
            append_chars(r, v, i, j);
            r.append("</mi>");
        },
        TextType::Double => {
            r.append("<mi mathvariant=\"double-struck\">");
            append_chars(r, v, i, j);
            r.append("</mi>");
        },
        TextType::DoubleOperator => {
            r.append("<mrow><mspace width=\"0.166em\"></mspace><mi>");
            if j - i == 1 && v[i] == '\u{2145}' {
                push_char(r, '\u{1d437}');
                proof {
                    assert(seg =~= seq!['\u{2145}']);
                }
            } else if j - i == 1 && v[i] == '\u{2146}' {
                push_char(r, '\u{1d451}');
                proof {
                    assert(seg =~= seq!['\u{2146}']);
                }
            } else {
                append_chars(r, v, i, j);
                proof {
                    if seg == seq!['\u{2145}'] {
                        assert(seg[0] == '\u{2145}' && seg.len() == 1);
                        assert(false);
                    }
                    if seg == seq!['\u{2146}'] {
                        assert(seg[0] == '\u{2146}' && seg.len() == 1);
                        assert(false);
                    }
                }
            }
            r.append("</mi></mrow>");
        },
        TextType::Fraktur => {
            r.append("<mi mathvariant=\"fraktur\">");
            append_chars(r, v, i, j);
            r.append("</mi>");
        },
        TextType::FrakturBold => {
            r.append("<mi mathvariant=\"bold-fraktur\">");
            append_chars(r, v, i, j);
            r.append("</mi>");
        },
        TextType::Identifier => {
            r.append("<mi>");
            append_chars(r, v, i, j);
            r.append("</mi>");
        },
        TextType::Mono => {
            r.append("<mi mathvariant=\"monospace\">");
            append_chars(r, v, i, j);
            r.append("</mi>");
        },
        TextType::Normal => {
            r.append("<mi mathvariant=\"normal\">");
            append_chars(r, v, i, j);
            r.append("</mi>");
        },
        TextType::Numeric => {
            r.append("<mn>");
            append_chars(r, v, i, j);
            r.append("</mn>");
        },
        TextType::Operator => {
            r.append("<mo>");
            append_chars(r, v, i, j);
            r.append("</mo>");
        },
        TextType::Raw => {
            append_chars(r, v, i, j);
        },
        TextType::Sans => {
            r.append("<mi mathvariant=\"sans-serif\">");
            append_chars(r, v, i, j);
            r.append("</mi>");
        },
        TextType::SansBold => {
            r.append("<mi mathvariant=\"sans-serif-bold\">");
            append_chars(r, v, i, j);
            r.append("</mi>");
        },
        TextType::SansBoldItalic => {
            r.append("<mi mathvariant=\"sans-serif-bold-italic\">");
            append_chars(r, v, i, j);
            r.append("</mi>");
        },
        TextType::SansItalic => {
            r.append("<mi mathvariant=\"sans-serif-italic\">");
            append_chars(r, v, i, j);
            r.append("</mi>");
        },
        TextType::Script => {
            r.append("<mi mathvariant=\"script\">");
            append_chars(r, v, i, j);
            r.append("</mi>");
        },
        TextType::Space => {
            r.append("<mspace width=\"0.222em\"></mspace>");
        },
    }
    proof {
        assert(r@ =~= old(r)@ + spec_render_segment(t, seg));
    }
}

/// Renders a whole equation, wrapped in the MathML root element.
pub fn render_equation(eq: &Equation) -> (r: String)
    ensures
        r@ == spec_render_equation(eq_view(*eq)),
{
    let mut r = String::from_str("<math xmlns=\"http://www.w3.org/1998/Math/MathML\">");
    let content = render_eq(eq);
    r.append(content.as_str());
    r.append("</math>");
    proof {
        assert(r@ =~= spec_render_equation(eq_view(*eq)));
    }
    r
}

/// Renders a node sequence, node by node in reading order.
pub fn render_eq(eq: &Equation) -> (r: String)
    ensures
        r@ == spec_render_eq(eq_view(*eq)),
    decreases size_eq(eq_view(*eq)), 0int,
{
    let ghost v = eq_view(*eq);
    let mut r = String::new();
    let mut i: usize = 0;
    proof {
        lemma_eq_view_seq_len(eq@);
        assert(v.skip(0) =~= v);
        assert(r@ + spec_render_eq(v) =~= spec_render_eq(v));
    }
    while i < eq.len()
        invariant
            0 <= i <= eq@.len(),
            v == eq_view(*eq),
            v.len() == eq@.len(),
            forall|m: int| 0 <= m < eq@.len() ==> #[trigger] v[m] == op_view(eq@[m]),
            r@ + spec_render_eq(v.skip(i as int)) == spec_render_eq(v),
        decreases eq@.len() - i,
    {
        proof {
            lemma_size_eq_elem(v, i as int);
            assert(v.skip(i as int)[0] == v[i as int]);
            assert(v.skip(i as int).drop_first() =~= v.skip(i + 1));
        }
        let piece = render_op(&eq[i]);
        r.append(piece.as_str());
        proof {
            assert(r@ + spec_render_eq(v.skip(i + 1)) =~= spec_render_eq(v));
        }
        i = i + 1;
    }
    proof {
        assert(v.skip(v.len() as int) =~= Seq::<EqNode>::empty());
        assert(r@ + Seq::<char>::empty() =~= r@);
    }
    r
}

/// Renders a sub-equation as one grouped unit: an empty equation becomes one
/// empty identifier element; a single literal-text node is wrapped in a row
/// element; a single non-text node renders unwrapped; two or more nodes
/// render concatenated inside one row element.
pub fn render_group(eq: &Equation) -> (r: String)
    ensures
        r@ == spec_render_group(eq_view(*eq)),
    decreases size_eq(eq_view(*eq)), 1int,
{
    let ghost v = eq_view(*eq);
    proof {
        lemma_eq_view_seq_len(eq@);
    }
    if eq.len() == 0 {
        String::from_str("<mi></mi>")
    } else if eq.len() == 1 {
        match &eq[0] {
            MathOp::Text(text) => {
                let mut r = String::from_str("<mrow>");
                let content = render_text(text);
                r.append(content.as_str());
                r.append("</mrow>");
                proof {
                    assert(v[0] == op_view(eq@[0]));
                    assert(r@ =~= spec_render_group(v));
                }
                r
            },
            _ => {
                proof {
                    lemma_size_eq_elem(v, 0);
                    assert(v[0] == op_view(eq@[0]));
                }
                render_op(&eq[0])
            },
        }
    } else {
        let mut r = String::from_str("<mrow>");
        let content = render_eq(eq);
        r.append(content.as_str());
        r.append("</mrow>");
        proof {
            assert(r@ =~= spec_render_group(v));
        }
        r
    }
}

/// Renders one node, by its construct's rule.
#[verifier::rlimit(60)]
pub fn render_op(op: &MathOp) -> (r: String)
    ensures
        r@ == spec_render_op(op@),
    decreases size_op(op@), 2int,
{
    match op {
        MathOp::Text(text) => render_text(text),
        MathOp::Accent { mark, body } => render_accent(*mark, body),
        MathOp::BoxObject { display, body } => render_box(body, *display),
        MathOp::BoxedFormula { align, body } => render_boxed_formula(body, *align),
        MathOp::Brackets { opening, closing, align, body } => render_brackets(
            *opening,
            *closing,
            body,
            *align,
        ),
        MathOp::BracketsWithSeps { opening, closing, sep, align, segments } => {
            render_brackets_with_seps(*opening, *closing, *sep, segments, *align)
        },
        MathOp::EquationArray { columns, align, rows } => render_equation_array(
            *columns,
            rows,
            *align,
        ),
        MathOp::Fraction { num, den, small } => render_fraction(num, den, *small),
        MathOp::FunctionApply { func, body } => render_function_apply(func, body),
        MathOp::LeftSubSup { sub, sup, body } => render_left_sub_sup(sub, sup, body),
        MathOp::LowerLimit { body, limit } => render_lower_limit(body, limit),
        MathOp::Matrix { columns, brackets, align, items } => render_matrix(
            *columns,
            items,
            *brackets,
            *align,
        ),
        MathOp::NAry { op: op_char, display, sub, sup, body } => render_nary(
            *op_char,
            sub,
            sup,
            body,
            *display,
        ),
        MathOp::OverBar { body } => render_over_bar(body),
        MathOp::Phantom { kind, display, body } => render_phantom(*kind, *display, body),
        MathOp::Radical { degree, body } => render_radical(degree, body),
        MathOp::SlashedFraction { num, den, linear } => render_slashed_fraction(
            num,
            den,
            *linear,
        ),
        MathOp::Stack { num, den } => render_stack(num, den),
        MathOp::StretchStack { mark, pos, body } => render_stretch_stack(*mark, *pos, body),
        MathOp::Subscript { sub, body } => render_subscript(sub, body),
        MathOp::SubSup { align, sub, sup, body } => render_sub_sup(sub, sup, body, *align),
        MathOp::Superscript { sup, body } => render_superscript(sup, body),
        MathOp::UnderBar { body } => render_under_bar(body),
        MathOp::UpperLimit { body, limit } => render_upper_limit(body, limit),
    }
}

/// Renders an accent.
fn render_accent(mark: char, body: &Equation) -> (r: String)
    ensures
        r@ == spec_render_accent(EqNode::Accent { mark, body: eq_view(*body) }),
    decreases size_eq(eq_view(*body)), 3int,
{
    let mut r = String::from_str("<mover accent=\"true\">");
    let g = render_group(body);
    r.append(g.as_str());
    r.append("<mo>");
    push_char(&mut r, mark);
    r.append("</mo></mover>");
    proof {
        assert(r@ =~= spec_render_accent(EqNode::Accent { mark, body: eq_view(*body) }));
    }
    r
}

/// Renders a boxed formula.
fn render_boxed_formula(body: &Equation, align: Option<crate::ast::BoxedFormulaAlignment>) -> (r:
    String)
    ensures
        r@ == spec_render_boxed_formula(
            EqNode::BoxedFormula { align, body: eq_view(*body) },
        ),
    decreases size_eq(eq_view(*body)), 3int,
{
    let mut r = String::from_str("<menclose notation=\"box\">");
    let g = render_group(body);
    r.append(g.as_str());
    r.append("</menclose>");
    proof {
        assert(r@ =~= spec_render_boxed_formula(
            EqNode::BoxedFormula { align, body: eq_view(*body) },
        ));
    }
    r
}

/// Renders a fraction.
fn render_fraction(num: &Equation, den: &Equation, small: bool) -> (r: String)
    ensures
        r@ == spec_render_fraction(
            EqNode::Fraction { num: eq_view(*num), den: eq_view(*den), small },
        ),
    decreases size_eq(eq_view(*num)) + size_eq(eq_view(*den)), 3int,
{
    proof {
        crate::ast::lemma_size_eq_pos(eq_view(*num));
        crate::ast::lemma_size_eq_pos(eq_view(*den));
    }
    let mut r = String::from_str("<mfrac>");
    let n = render_group(num);
    r.append(n.as_str());
    let d = render_group(den);
    r.append(d.as_str());
    r.append("</mfrac>");
    proof {
        assert(r@ =~= spec_render_fraction(
            EqNode::Fraction { num: eq_view(*num), den: eq_view(*den), small },
        ));
    }
    r
}

/// Renders a function application.
fn render_function_apply(func: &Equation, body: &Equation) -> (r: String)
    ensures
        r@ == spec_render_function_apply(
            EqNode::FunctionApply { func: eq_view(*func), body: eq_view(*body) },
        ),
    decreases size_eq(eq_view(*func)) + size_eq(eq_view(*body)), 3int,
{
    proof {
        crate::ast::lemma_size_eq_pos(eq_view(*func));
        crate::ast::lemma_size_eq_pos(eq_view(*body));
    }
    let mut r = render_group(func);
    r.append("<mo>\u{2061}</mo>");
    let b = render_group(body);
    r.append(b.as_str());
    proof {
        assert(r@ =~= spec_render_function_apply(
            EqNode::FunctionApply { func: eq_view(*func), body: eq_view(*body) },
        ));
    }
    r
}

/// Renders a left subscript / superscript.
fn render_left_sub_sup(sub: &Equation, sup: &Equation, body: &Equation) -> (r: String)
    ensures
        r@ == spec_render_left_sub_sup(
            EqNode::LeftSubSup { sub: eq_view(*sub), sup: eq_view(*sup), body: eq_view(*body) },
        ),
    decreases size_eq(eq_view(*sub)) + size_eq(eq_view(*sup)) + size_eq(eq_view(*body)), 3int,
{
    proof {
        crate::ast::lemma_size_eq_pos(eq_view(*sub));
        crate::ast::lemma_size_eq_pos(eq_view(*sup));
        crate::ast::lemma_size_eq_pos(eq_view(*body));
        lemma_eq_view_seq_len(sub@);
        lemma_eq_view_seq_len(sup@);
    }
    let sup_markup = if sup.len() == 0 {
        String::from_str("<none/>")
    } else {
        render_group(sup)
    };
    let sub_markup = if sub.len() == 0 {
        String::from_str("<none/>")
    } else {
        render_group(sub)
    };
    let mut r = String::from_str("<mmultiscripts>");
    let b = render_group(body);
    r.append(b.as_str());
    r.append("<none/><none/><mprescripts/>");
    r.append(sub_markup.as_str());
    r.append(sup_markup.as_str());
    r.append("</mmultiscripts>");
    proof {
        assert(r@ =~= spec_render_left_sub_sup(
            EqNode::LeftSubSup { sub: eq_view(*sub), sup: eq_view(*sup), body: eq_view(*body) },
        ));
    }
    r
}

/// Renders a lower limit.
fn render_lower_limit(body: &Equation, limit: &Equation) -> (r: String)
    ensures
        r@ == spec_render_lower_limit(
            EqNode::LowerLimit { body: eq_view(*body), limit: eq_view(*limit) },
        ),
    decreases size_eq(eq_view(*body)) + size_eq(eq_view(*limit)), 3int,
{
    proof {
        crate::ast::lemma_size_eq_pos(eq_view(*body));
        crate::ast::lemma_size_eq_pos(eq_view(*limit));
    }
    let mut r = String::from_str("<munder>");
    let b = render_group(body);
    r.append(b.as_str());
    let l = render_group(limit);
    r.append(l.as_str());
    r.append("</munder>");
    proof {
        assert(r@ =~= spec_render_lower_limit(
            EqNode::LowerLimit { body: eq_view(*body), limit: eq_view(*limit) },
        ));
    }
    r
}

/// Renders an overbar.
fn render_over_bar(body: &Equation) -> (r: String)
    ensures
        r@ == spec_render_over_bar(EqNode::OverBar { body: eq_view(*body) }),
    decreases size_eq(eq_view(*body)), 3int,
{
    let mut r = String::from_str("<mover accent=\"true\">");
    let g = render_group(body);
    r.append(g.as_str());
    r.append("<mo>\u{00af}</mo></mover>");
    proof {
        assert(r@ =~= spec_render_over_bar(EqNode::OverBar { body: eq_view(*body) }));
    }
    r
}

/// Renders a radical.
fn render_radical(degree: &Equation, body: &Equation) -> (r: String)
    ensures
        r@ == spec_render_radical(
            EqNode::Radical { degree: eq_view(*degree), body: eq_view(*body) },
        ),
    decreases size_eq(eq_view(*degree)) + size_eq(eq_view(*body)), 3int,
{
    proof {
        crate::ast::lemma_size_eq_pos(eq_view(*degree));
        crate::ast::lemma_size_eq_pos(eq_view(*body));
    }
    let mut r = String::from_str("<mroot>");
    let b = render_group(body);
    r.append(b.as_str());
    let d = render_group(degree);
    r.append(d.as_str());
    r.append("</mroot>");
    proof {
        assert(r@ =~= spec_render_radical(
            EqNode::Radical { degree: eq_view(*degree), body: eq_view(*body) },
        ));
    }
    r
}

/// Renders a stack.
fn render_stack(num: &Equation, den: &Equation) -> (r: String)
    ensures
        r@ == spec_render_stack(EqNode::Stack { num: eq_view(*num), den: eq_view(*den) }),
    decreases size_eq(eq_view(*num)) + size_eq(eq_view(*den)), 3int,
{
    proof {
        crate::ast::lemma_size_eq_pos(eq_view(*num));
        crate::ast::lemma_size_eq_pos(eq_view(*den));
    }
    let mut r = String::from_str("<mtable><mtr><mtd>");
    let n = render_group(num);
    r.append(n.as_str());
    r.append("</mtd></mtr><mtr><mtd>");
    let d = render_group(den);
    r.append(d.as_str());
    r.append("</mtd></mtr></mtable>");
    proof {
        assert(r@ =~= spec_render_stack(EqNode::Stack { num: eq_view(*num), den: eq_view(*den) }));
    }
    r
}

/// Renders a stretch stack.
fn render_stretch_stack(mark: char, pos: StretchStackPosition, body: &Equation) -> (r: String)
    ensures
        r@ == spec_render_stretch_stack(
            EqNode::StretchStack { mark, pos, body: eq_view(*body) },
        ),
    decreases size_eq(eq_view(*body)), 3int,
{
    let under = match pos {
        StretchStackPosition::CharBelow => true,
        StretchStackPosition::CharAbove => false,
        StretchStackPosition::BaseBelow => false,
        StretchStackPosition::BaseAbove => true,
    };
    let mut r = if under {
        String::from_str("<munder accent=\"true\">")
    } else {
        String::from_str("<mover accent=\"true\">")
    };
    let g = render_group(body);
    r.append(g.as_str());
    r.append("<mo>");
    push_char(&mut r, mark);
    if under {
        r.append("</mo></munder>");
    } else {
        r.append("</mo></mover>");
    }
    proof {
        assert(r@ =~= spec_render_stretch_stack(
            EqNode::StretchStack { mark, pos, body: eq_view(*body) },
        ));
    }
    r
}

/// Renders one script argument: an empty script renders as the dedicated
/// empty-placeholder glyph.
fn render_script_or_placeholder(script: &Equation) -> (r: String)
    ensures
        r@ == spec_script_or_placeholder(eq_view(*script)),
    decreases size_eq(eq_view(*script)), 2int,
{
    proof {
        lemma_eq_view_seq_len(script@);
    }
    if script.len() == 0 {
        String::from_str("<mo>\u{2b1a}</mo>")
    } else {
        render_group(script)
    }
}

/// Renders a subscript.
fn render_subscript(sub: &Equation, body: &Equation) -> (r: String)
    ensures
        r@ == spec_render_subscript(
            EqNode::Subscript { sub: eq_view(*sub), body: eq_view(*body) },
        ),
    decreases size_eq(eq_view(*sub)) + size_eq(eq_view(*body)), 3int,
{
    proof {
        crate::ast::lemma_size_eq_pos(eq_view(*sub));
        crate::ast::lemma_size_eq_pos(eq_view(*body));
    }
    let sub_markup = render_script_or_placeholder(sub);
    let mut r = String::from_str("<msub>");
    let b = render_group(body);
    r.append(b.as_str());
    r.append(sub_markup.as_str());
    r.append("</msub>");
    proof {
        assert(r@ =~= spec_render_subscript(
            EqNode::Subscript { sub: eq_view(*sub), body: eq_view(*body) },
        ));
    }
    r
}

/// Renders a combined subscript / superscript.  Present alignment data has no
/// precise mapping yet and renders as the default layout.
fn render_sub_sup(
    sub: &Equation,
    sup: &Equation,
    body: &Equation,
    align: Option<crate::ast::SubSupAlignment>,
) -> (r: String)
    ensures
        r@ == spec_render_sub_sup(
            EqNode::SubSup {
                align,
                sub: eq_view(*sub),
                sup: eq_view(*sup),
                body: eq_view(*body),
            },
        ),
    decreases size_eq(eq_view(*sub)) + size_eq(eq_view(*sup)) + size_eq(eq_view(*body)), 3int,
{
    proof {
        crate::ast::lemma_size_eq_pos(eq_view(*sub));
        crate::ast::lemma_size_eq_pos(eq_view(*sup));
        crate::ast::lemma_size_eq_pos(eq_view(*body));
    }
    let sub_markup = render_script_or_placeholder(sub);
    let sup_markup = render_script_or_placeholder(sup);
    let mut r = String::from_str("<msubsup>");
    let b = render_group(body);
    r.append(b.as_str());
    r.append(sub_markup.as_str());
    r.append(sup_markup.as_str());
    r.append("</msubsup>");
    proof {
        assert(r@ =~= spec_render_sub_sup(
            EqNode::SubSup {
                align,
                sub: eq_view(*sub),
                sup: eq_view(*sup),
                body: eq_view(*body),
            },
        ));
    }
    r
}

/// Renders a superscript.
fn render_superscript(sup: &Equation, body: &Equation) -> (r: String)
    ensures
        r@ == spec_render_superscript(
            EqNode::Superscript { sup: eq_view(*sup), body: eq_view(*body) },
        ),
    decreases size_eq(eq_view(*sup)) + size_eq(eq_view(*body)), 3int,
{
    proof {
        crate::ast::lemma_size_eq_pos(eq_view(*sup));
        crate::ast::lemma_size_eq_pos(eq_view(*body));
    }
    let sup_markup = render_script_or_placeholder(sup);
    let mut r = String::from_str("<msup>");
    let b = render_group(body);
    r.append(b.as_str());
    r.append(sup_markup.as_str());
    r.append("</msup>");
    proof {
        assert(r@ =~= spec_render_superscript(
            EqNode::Superscript { sup: eq_view(*sup), body: eq_view(*body) },
        ));
    }
    r
}

/// Renders an underbar.
fn render_under_bar(body: &Equation) -> (r: String)
    ensures
        r@ == spec_render_under_bar(EqNode::UnderBar { body: eq_view(*body) }),
    decreases size_eq(eq_view(*body)), 3int,
{
    let mut r = String::from_str("<munder accentunder=\"true\">");
    let g = render_group(body);
    r.append(g.as_str());
    r.append("<mo>_</mo></munder>");
    proof {
        assert(r@ =~= spec_render_under_bar(EqNode::UnderBar { body: eq_view(*body) }));
    }
    r
}

/// Renders an upper limit.
fn render_upper_limit(body: &Equation, limit: &Equation) -> (r: String)
    ensures
        r@ == spec_render_upper_limit(
            EqNode::UpperLimit { body: eq_view(*body), limit: eq_view(*limit) },
        ),
    decreases size_eq(eq_view(*body)) + size_eq(eq_view(*limit)), 3int,
{
    proof {
        crate::ast::lemma_size_eq_pos(eq_view(*body));
        crate::ast::lemma_size_eq_pos(eq_view(*limit));
    }
    let mut r = String::from_str("<mover>");
    let b = render_group(body);
    r.append(b.as_str());
    let l = render_group(limit);
    r.append(l.as_str());
    r.append("</mover>");
    proof {
        assert(r@ =~= spec_render_upper_limit(
            EqNode::UpperLimit { body: eq_view(*body), limit: eq_view(*limit) },
        ));
    }
    r
}

} // verus!
