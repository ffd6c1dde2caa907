//! The equation tree: math object descriptors as the document model hands
//! them over, the closed vocabulary of math constructs, and the decoded
//! display / alignment value types read out of packed descriptor bytes.
use vstd::prelude::*;

verus! {

/// The kind tag of one inline math object, as declared by the document model.
#[derive(Debug, Clone, Copy, PartialEq, Eq, Structural)]
pub enum MathObjectType {
    /// Not an inline construct; plain text is tokenized as literal text.
    SimpleText,
    /// A math accent over its argument.
    Accent,
    /// Abstract box with display properties.
    BoxObject,
    /// Encloses the argument in a rectangle.
    BoxedFormula,
    /// Encloses the argument in brackets, parentheses, and so on.
    Brackets,
    /// Brackets around several arguments, with separators between them.
    BracketsWithSeps,
    /// Column of aligned equations.
    EquationArray,
    /// Fraction.
    Fraction,
    /// Function apply.
    FunctionApply,
    /// Left subscript or superscript.
    LeftSubSup,
    /// Second argument below the first.
    LowerLimit,
    /// Matrix.
    Matrix,
    /// General n-ary expression.
    Nary,
    /// Internal use for no-build operators.
    OpChar,
    /// Overscores the argument.
    Overbar,
    /// Special spacing.
    Phantom,
    /// Square root, and so on.
    Radical,
    /// Skewed and built-up linear fractions.
    SlashedFraction,
    /// "Fraction" with no divide bar.
    Stack,
    /// Stretch a character horizontally over or under the argument.
    StretchStack,
    /// Subscript.
    Subscript,
    /// Subscript and superscript combination.
    SubSup,
    /// Superscript.
    Superscript,
    /// Underscores the argument.
    Underbar,
    /// Second argument above the first.
    UpperLimit,
    /// Plain text.
    PlainText,
}

/// One math object descriptor: the per-object metadata the document model
/// attaches to a text fragment.  Descriptors carry a kind tag, the declared
/// number of nested sub-equations, up to three associated characters, an
/// optional column count and an optional packed alignment byte.
#[derive(Debug, Clone, Copy, PartialEq)]
pub struct MathObject {
    pub object_type: MathObjectType,
    pub arg_count: u32,
    pub column: Option<u8>,
    pub align: Option<u8>,
    pub char0: Option<char>,
    pub char1: Option<char>,
    pub char2: Option<char>,
}

/// An equation: an ordered sequence of math operator nodes; order is the
/// reading order of the equation.
pub type Equation = Vec<MathOp>;

/// One node of the equation tree.  Each non-leaf variant owns its child
/// equations by value; the tree is never shared and holds no cycles.
#[derive(Debug)]
pub enum MathOp {
    /// A literal text run.
    Text(String),
    /// An accent character stacked over the body.
    Accent { mark: char, body: Equation },
    /// An abstract box carrying spacing / size / break display properties.
    BoxObject { display: Option<BoxDisplay>, body: Equation },
    /// The body enclosed in a rectangle.
    BoxedFormula { align: Option<BoxedFormulaAlignment>, body: Equation },
    /// The body enclosed in an optional opening and closing bracket.
    Brackets {
        opening: Option<char>,
        closing: Option<char>,
        align: Option<BracketsAlignment>,
        body: Equation,
    },
    /// Several segments enclosed in brackets and joined by a separator glyph.
    BracketsWithSeps {
        opening: Option<char>,
        closing: Option<char>,
        sep: char,
        align: Option<BracketsAlignment>,
        segments: Vec<Equation>,
    },
    /// A column of aligned equations.
    EquationArray {
        columns: u8,
        align: Option<EquationArrayAlignment>,
        rows: Vec<Equation>,
    },
    /// A fraction; `small` requests the compact rendering variant.
    Fraction { num: Equation, den: Equation, small: bool },
    /// A function applied to a body, joined by the function-application glyph.
    FunctionApply { func: Equation, body: Equation },
    /// Subscript and superscript placed to the left of the body.
    LeftSubSup { sub: Equation, sup: Equation, body: Equation },
    /// A limit rendered below the body.
    LowerLimit { body: Equation, limit: Equation },
    /// A matrix of items, laid out in rows of `columns` cells.
    Matrix {
        columns: u8,
        brackets: Option<MatrixBrackets>,
        align: Option<MatrixAlignment>,
        items: Vec<Equation>,
    },
    /// An n-ary operator with lower / upper limits and a body.
    NAry {
        op: char,
        display: Option<NAryDisplay>,
        sub: Equation,
        sup: Equation,
        body: Equation,
    },
    /// The body with a bar above it.
    OverBar { body: Equation },
    /// Invisible or dimension-smashed content.
    Phantom { kind: PhantomKind, display: Option<PhantomDisplay>, body: Equation },
    /// A radical with an explicit degree.
    Radical { degree: Equation, body: Equation },
    /// A skewed or linear fraction; `linear` requests in-line layout.
    SlashedFraction { num: Equation, den: Equation, linear: bool },
    /// Two equations stacked without a divide bar.
    Stack { num: Equation, den: Equation },
    /// A stretching character stacked over or under the body.
    StretchStack { mark: char, pos: StretchStackPosition, body: Equation },
    /// Subscript.
    Subscript { sub: Equation, body: Equation },
    /// Combined subscript and superscript.
    SubSup {
        align: Option<SubSupAlignment>,
        sub: Equation,
        sup: Equation,
        body: Equation,
    },
    /// Superscript.
    Superscript { sup: Equation, body: Equation },
    /// The body with a bar under it.
    UnderBar { body: Equation },
    /// A limit rendered above the body.
    UpperLimit { body: Equation, limit: Equation },
}

/// The mathematical model of one equation tree node: the shape of [`MathOp`]
/// with text as character sequences and child equations as sequences of nodes.
pub enum EqNode {
    Text(Seq<char>),
    Accent { mark: char, body: Seq<EqNode> },
    BoxObject { display: Option<BoxDisplay>, body: Seq<EqNode> },
    BoxedFormula { align: Option<BoxedFormulaAlignment>, body: Seq<EqNode> },
    Brackets {
        opening: Option<char>,
        closing: Option<char>,
        align: Option<BracketsAlignment>,
        body: Seq<EqNode>,
    },
    BracketsWithSeps {
        opening: Option<char>,
        closing: Option<char>,
        sep: char,
        align: Option<BracketsAlignment>,
        segments: Seq<Seq<EqNode>>,
    },
    EquationArray {
        columns: u8,
        align: Option<EquationArrayAlignment>,
        rows: Seq<Seq<EqNode>>,
    },
    Fraction { num: Seq<EqNode>, den: Seq<EqNode>, small: bool },
    FunctionApply { func: Seq<EqNode>, body: Seq<EqNode> },
    LeftSubSup { sub: Seq<EqNode>, sup: Seq<EqNode>, body: Seq<EqNode> },
    LowerLimit { body: Seq<EqNode>, limit: Seq<EqNode> },
    Matrix {
        columns: u8,
        brackets: Option<MatrixBrackets>,
        align: Option<MatrixAlignment>,
        items: Seq<Seq<EqNode>>,
    },
    NAry {
        op: char,
        display: Option<NAryDisplay>,
        sub: Seq<EqNode>,
        sup: Seq<EqNode>,
        body: Seq<EqNode>,
    },
    OverBar { body: Seq<EqNode> },
    Phantom { kind: PhantomKind, display: Option<PhantomDisplay>, body: Seq<EqNode> },
    Radical { degree: Seq<EqNode>, body: Seq<EqNode> },
    SlashedFraction { num: Seq<EqNode>, den: Seq<EqNode>, linear: bool },
    Stack { num: Seq<EqNode>, den: Seq<EqNode> },
    StretchStack { mark: char, pos: StretchStackPosition, body: Seq<EqNode> },
    Subscript { sub: Seq<EqNode>, body: Seq<EqNode> },
    SubSup {
        align: Option<SubSupAlignment>,
        sub: Seq<EqNode>,
        sup: Seq<EqNode>,
        body: Seq<EqNode>,
    },
    Superscript { sup: Seq<EqNode>, body: Seq<EqNode> },
    UnderBar { body: Seq<EqNode> },
    UpperLimit { body: Seq<EqNode>, limit: Seq<EqNode> },
}

/// The model of one executable tree node.
pub open spec fn op_view(op: MathOp) -> EqNode
    decreases op,
{
    match op {
        MathOp::Text(s) => EqNode::Text(s@),
        MathOp::Accent { mark, body } => EqNode::Accent { mark, body: eq_view(body) },
        MathOp::BoxObject { display, body } => EqNode::BoxObject {
            display,
            body: eq_view(body),
        },
        MathOp::BoxedFormula { align, body } => EqNode::BoxedFormula {
            align,
            body: eq_view(body),
        },
        MathOp::Brackets { opening, closing, align, body } => EqNode::Brackets {
            opening,
            closing,
            align,
            body: eq_view(body),
        },
        MathOp::BracketsWithSeps { opening, closing, sep, align, segments } => {
            EqNode::BracketsWithSeps {
                opening,
                closing,
                sep,
                align,
                segments: eq_list_view(segments),
            }
        },
        MathOp::EquationArray { columns, align, rows } => EqNode::EquationArray {
            columns,
            align,
            rows: eq_list_view(rows),
        },
        MathOp::Fraction { num, den, small } => EqNode::Fraction {
            num: eq_view(num),
            den: eq_view(den),
            small,
        },
        MathOp::FunctionApply { func, body } => EqNode::FunctionApply {
            func: eq_view(func),
            body: eq_view(body),
        },
        MathOp::LeftSubSup { sub, sup, body } => EqNode::LeftSubSup {
            sub: eq_view(sub),
            sup: eq_view(sup),
            body: eq_view(body),
        },
        MathOp::LowerLimit { body, limit } => EqNode::LowerLimit {
            body: eq_view(body),
            limit: eq_view(limit),
        },
        MathOp::Matrix { columns, brackets, align, items } => EqNode::Matrix {
            columns,
            brackets,
            align,
            items: eq_list_view(items),
        },
        MathOp::NAry { op, display, sub, sup, body } => EqNode::NAry {
            op,
            display,
            sub: eq_view(sub),
            sup: eq_view(sup),
            body: eq_view(body),
        },
        MathOp::OverBar { body } => EqNode::OverBar { body: eq_view(body) },
        MathOp::Phantom { kind, display, body } => EqNode::Phantom {
            kind,
            display,
            body: eq_view(body),
        },
        MathOp::Radical { degree, body } => EqNode::Radical {
            degree: eq_view(degree),
            body: eq_view(body),
        },
        MathOp::SlashedFraction { num, den, linear } => EqNode::SlashedFraction {
            num: eq_view(num),
            den: eq_view(den),
            linear,
        },
        MathOp::Stack { num, den } => EqNode::Stack { num: eq_view(num), den: eq_view(den) },
        MathOp::StretchStack { mark, pos, body } => EqNode::StretchStack {
            mark,
            pos,
            body: eq_view(body),
        },
        MathOp::Subscript { sub, body } => EqNode::Subscript {
            sub: eq_view(sub),
            body: eq_view(body),
        },
        MathOp::SubSup { align, sub, sup, body } => EqNode::SubSup {
            align,
            sub: eq_view(sub),
            sup: eq_view(sup),
            body: eq_view(body),
        },
        MathOp::Superscript { sup, body } => EqNode::Superscript {
            sup: eq_view(sup),
            body: eq_view(body),
        },
        MathOp::UnderBar { body } => EqNode::UnderBar { body: eq_view(body) },
        MathOp::UpperLimit { body, limit } => EqNode::UpperLimit {
            body: eq_view(body),
            limit: eq_view(limit),
        },
    }
}

/// The model of one executable equation.
pub open spec fn eq_view(eq: Vec<MathOp>) -> Seq<EqNode>
    decreases eq,
{
    eq_view_seq(eq@)
}

/// The model of a sequence of executable tree nodes, node by node.
pub open spec fn eq_view_seq(eq: Seq<MathOp>) -> Seq<EqNode>
    decreases eq,
{
    if eq.len() == 0 {
        Seq::empty()
    } else {
        seq![op_view(eq[0])] + eq_view_seq(eq.drop_first())
    }
}

/// The model of a list of executable equations, equation by equation.
pub open spec fn eq_list_view(list: Vec<Equation>) -> Seq<Seq<EqNode>>
    decreases list,
{
    eq_list_view_seq(list@)
}

/// The model of a sequence of executable equations, equation by equation.
pub open spec fn eq_list_view_seq(list: Seq<Equation>) -> Seq<Seq<EqNode>>
    decreases list,
{
    if list.len() == 0 {
        Seq::empty()
    } else {
        seq![eq_view(list[0])] + eq_list_view_seq(list.drop_first())
    }
}

impl View for MathOp {
    type V = EqNode;

    open spec fn view(&self) -> EqNode {
        op_view(*self)
    }
}

/// The number of nodes in one tree node, itself included: the termination
/// measure of the mutually recursive walks over the tree.
pub open spec fn size_op(op: EqNode) -> nat
    decreases op,
{
    match op {
        EqNode::Text(_) => 1,
        EqNode::Accent { body, .. } => 1 + size_eq(body),
        EqNode::BoxObject { body, .. } => 1 + size_eq(body),
        EqNode::BoxedFormula { body, .. } => 1 + size_eq(body),
        EqNode::Brackets { body, .. } => 1 + size_eq(body),
        EqNode::BracketsWithSeps { segments, .. } => 1 + size_eq_list(segments),
        EqNode::EquationArray { rows, .. } => 1 + size_eq_list(rows),
        EqNode::Fraction { num, den, .. } => 1 + size_eq(num) + size_eq(den),
        EqNode::FunctionApply { func, body } => 1 + size_eq(func) + size_eq(body),
        EqNode::LeftSubSup { sub, sup, body } => 1 + size_eq(sub) + size_eq(sup) + size_eq(body),
        EqNode::LowerLimit { body, limit } => 1 + size_eq(body) + size_eq(limit),
        EqNode::Matrix { items, .. } => 1 + size_eq_list(items),
        EqNode::NAry { sub, sup, body, .. } => 1 + size_eq(sub) + size_eq(sup) + size_eq(body),
        EqNode::OverBar { body } => 1 + size_eq(body),
        EqNode::Phantom { body, .. } => 1 + size_eq(body),
        EqNode::Radical { degree, body } => 1 + size_eq(degree) + size_eq(body),
        EqNode::SlashedFraction { num, den, .. } => 1 + size_eq(num) + size_eq(den),
        EqNode::Stack { num, den } => 1 + size_eq(num) + size_eq(den),
        EqNode::StretchStack { body, .. } => 1 + size_eq(body),
        EqNode::Subscript { sub, body } => 1 + size_eq(sub) + size_eq(body),
        EqNode::SubSup { sub, sup, body, .. } => 1 + size_eq(sub) + size_eq(sup) + size_eq(body),
        EqNode::Superscript { sup, body } => 1 + size_eq(sup) + size_eq(body),
        EqNode::UnderBar { body } => 1 + size_eq(body),
        EqNode::UpperLimit { body, limit } => 1 + size_eq(body) + size_eq(limit),
    }
}

/// The size of one equation: one more than its nodes' sizes together, so
/// that an equation always outweighs each of its own nodes.
pub open spec fn size_eq(eq: Seq<EqNode>) -> nat
    decreases eq,
{
    if eq.len() == 0 {
        1
    } else {
        size_op(eq[0]) + size_eq(eq.drop_first())
    }
}

/// The size of a list of equations: one more than its equations' sizes
/// together, so that a list always outweighs each of its own equations.
pub open spec fn size_eq_list(list: Seq<Seq<EqNode>>) -> nat
    decreases list,
{
    if list.len() == 0 {
        1
    } else {
        size_eq(list[0]) + size_eq_list(list.drop_first())
    }
}

/// Every equation weighs at least one.
pub proof fn lemma_size_eq_pos(eq: Seq<EqNode>)
    ensures
        size_eq(eq) >= 1,
    decreases eq.len(),
{
    if eq.len() > 0 {
        lemma_size_eq_pos(eq.drop_first());
        lemma_size_op_pos(eq[0]);
    }
}

/// Every node weighs at least one.
pub proof fn lemma_size_op_pos(op: EqNode)
    ensures
        size_op(op) >= 1,
{
}

/// Every node of an equation weighs strictly less than its equation.
pub proof fn lemma_size_eq_elem(eq: Seq<EqNode>, i: int)
    requires
        0 <= i < eq.len(),
    ensures
        size_op(eq[i]) < size_eq(eq),
    decreases eq.len(),
{
    if i == 0 {
        lemma_size_eq_pos(eq.drop_first());
    } else {
        lemma_size_eq_elem(eq.drop_first(), i - 1);
        lemma_size_op_pos(eq[0]);
        assert(eq.drop_first()[i - 1] == eq[i]);
    }
}

/// Every equation of a list weighs strictly less than its list.
pub proof fn lemma_size_eq_list_elem(list: Seq<Seq<EqNode>>, i: int)
    requires
        0 <= i < list.len(),
    ensures
        size_eq(list[i]) < size_eq_list(list),
    decreases list.len(),
{
    if i == 0 {
        lemma_size_eq_list_pos(list.drop_first());
    } else {
        lemma_size_eq_list_elem(list.drop_first(), i - 1);
        lemma_size_eq_pos(list[0]);
        assert(list.drop_first()[i - 1] == list[i]);
    }
}

/// Every list of equations weighs at least one.
pub proof fn lemma_size_eq_list_pos(list: Seq<Seq<EqNode>>)
    ensures
        size_eq_list(list) >= 1,
    decreases list.len(),
{
    if list.len() > 0 {
        lemma_size_eq_list_pos(list.drop_first());
        lemma_size_eq_pos(list[0]);
    }
}

/// The model of a sequence of nodes indexes node by node.
pub proof fn lemma_eq_view_seq_len(eq: Seq<MathOp>)
    ensures
        eq_view_seq(eq).len() == eq.len(),
        forall|i: int| 0 <= i < eq.len() ==> #[trigger] eq_view_seq(eq)[i] == op_view(eq[i]),
    decreases eq.len(),
{
    if eq.len() > 0 {
        lemma_eq_view_seq_len(eq.drop_first());
    }
}

/// The model of a pushed node sequence is the model plus the new node's model.
pub proof fn lemma_eq_view_seq_push(eq: Seq<MathOp>, op: MathOp)
    ensures
        eq_view_seq(eq.push(op)) == eq_view_seq(eq).push(op_view(op)),
{
    lemma_eq_view_seq_len(eq.push(op));
    lemma_eq_view_seq_len(eq);
    assert(eq_view_seq(eq.push(op)) =~= eq_view_seq(eq).push(op_view(op)));
}

/// The model of a list of equations indexes equation by equation.
pub proof fn lemma_eq_list_view_seq_len(list: Seq<Equation>)
    ensures
        eq_list_view_seq(list).len() == list.len(),
        forall|i: int| 0 <= i < list.len() ==> #[trigger] eq_list_view_seq(list)[i] == eq_view(
            list[i],
        ),
    decreases list.len(),
{
    if list.len() > 0 {
        lemma_eq_list_view_seq_len(list.drop_first());
    }
}

/// The model of a pushed equation list is the model plus the new equation's
/// model.
pub proof fn lemma_eq_list_view_seq_push(list: Seq<Equation>, eq: Equation)
    ensures
        eq_list_view_seq(list.push(eq)) == eq_list_view_seq(list).push(eq_view(eq)),
{
    lemma_eq_list_view_seq_len(list.push(eq));
    lemma_eq_list_view_seq_len(list);
    assert(eq_list_view_seq(list.push(eq)) =~= eq_list_view_seq(list).push(eq_view(eq)));
}

/// The display properties of an abstract box, decoded from one packed byte.
#[derive(Debug, Clone, Copy, PartialEq, Eq, Structural)]
pub struct BoxDisplay {
    /// The box is aligned off the baseline.
    pub centered: bool,
    /// The spacing class, choosing fixed leading / trailing space amounts.
    pub space: BoxSpace,
    /// The size tier, reducing the script level of the content.
    pub size: BoxSize,
    /// The box must not be split across line breaks.
    pub no_break: bool,
}

/// The spacing class of an abstract box.
#[derive(Debug, Clone, Copy, PartialEq, Eq, Structural)]
pub enum BoxSpace {
    Default,
    Unary,
    Binary,
    Relational,
    Skip,
    Ord,
    Differential,
}

/// The size tier of an abstract box.
#[derive(Debug, Clone, Copy, PartialEq, Eq, Structural)]
pub enum BoxSize {
    Text,
    Script,
    ScriptScript,
}

/// The framing flags of a boxed formula, decoded from one packed byte.  The
/// renderer recognizes the flags but has no precise mapping for them yet and
/// falls back to the default box rendering.
#[derive(Debug, Clone, Copy, PartialEq, Eq, Structural)]
pub struct BoxedFormulaAlignment {
    pub hide_top: bool,
    pub hide_bottom: bool,
    pub hide_left: bool,
    pub hide_right: bool,
    pub strike_horizontal: bool,
    pub strike_vertical: bool,
    pub strike_tlbr: bool,
    pub strike_bltr: bool,
}

/// The requested bracket growth of a bracket pair: either no growth or one of
/// the four TeX big-delimiter size tiers.
#[derive(Debug, Clone, Copy, PartialEq, Eq, Structural)]
pub enum BracketsAlignment {
    DontGrow,
    TeXbig,
    TeXBig,
    TeXbigg,
    TeXBigg,
}

/// The row alignment of an equation array.
#[derive(Debug, Clone, Copy, PartialEq, Eq, Structural)]
pub enum EquationArrayAlignment {
    LayoutWidth,
    AlignTopRow,
    AlignBottomRow,
}

/// The row alignment / placeholder policy of a matrix.
#[derive(Debug, Clone, Copy, PartialEq, Eq, Structural)]
pub enum MatrixAlignment {
    Center,
    TopRow,
    BottomRow,
    ShowPlaceholder,
}

/// The bracket glyph pair around a matrix.
#[derive(Debug, Clone, Copy, PartialEq, Eq, Structural)]
pub enum MatrixBrackets {
    Parentheses,
    VerticalBars,
    DoubleVerticalBars,
}

/// The display properties of an n-ary operator, decoded from one packed byte.
#[derive(Debug, Clone, Copy, PartialEq, Eq, Structural)]
pub struct NAryDisplay {
    /// Where the limits are rendered.
    pub align: NAryAlignment,
    /// The rendered lower and upper limit positions are swapped.
    pub limits_opposite: bool,
    /// An empty lower limit renders as a visible placeholder box.
    pub show_llim_placeholder: bool,
    /// An empty upper limit renders as a visible placeholder box.
    pub show_ulim_placeholder: bool,
    /// Whether the operator glyph stretches with its content.
    pub grow: NAryGrow,
}

/// The limit placement of an n-ary operator.
#[derive(Debug, Clone, Copy, PartialEq, Eq, Structural)]
pub enum NAryAlignment {
    LimitsDefault,
    LimitsUnderOver,
    LimitsSubSup,
    UpperLimitAsSuperScript,
}

/// The growth policy of an n-ary operator glyph.
#[derive(Debug, Clone, Copy, PartialEq, Eq, Structural)]
pub enum NAryGrow {
    Default,
    DontGrowWithContent,
    GrowWithContent,
}

/// The display flags of a phantom, decoded from one packed byte.
#[derive(Debug, Clone, Copy, PartialEq, Eq, Structural)]
pub struct PhantomDisplay {
    pub show: bool,
    pub zero_width: bool,
    pub zero_ascent: bool,
    pub zero_descent: bool,
    pub transparent: bool,
}

/// The kind of a phantom, chosen by its descriptor's kind character.
#[derive(Debug, Clone, Copy, PartialEq, Eq, Structural)]
pub enum PhantomKind {
    FullOrCustom,
    HorizontalPhantom,
    VerticalPhantom,
    AscentSmash,
    DescentSmash,
    HorizontalSmash,
    VerticalSmash,
}

/// The explicit alignment of a combined subscript / superscript.  The
/// renderer recognizes it but has no precise mapping for it yet and falls
/// back to the default layout.
#[derive(Debug, Clone, Copy, PartialEq, Eq, Structural)]
pub enum SubSupAlignment {
    Align,
}

/// Which operand of a stretch stack sits below the other.
#[derive(Debug, Clone, Copy, PartialEq, Eq, Structural)]
pub enum StretchStackPosition {
    CharBelow,
    CharAbove,
    BaseBelow,
    BaseAbove,
}

/// The display properties of an abstract box: four non-overlapping bit groups
/// of one packed byte.
pub open spec fn spec_box_display(v: u8) -> BoxDisplay {
    BoxDisplay {
        centered: v & 1 == 1,
        space: spec_box_space(v),
        size: spec_box_size(v),
        no_break: v & 128 == 128,
    }
}

/// The spacing class of an abstract box: bits 2 to 4 of the packed byte.
pub open spec fn spec_box_space(v: u8) -> BoxSpace {
    if v & 28 == 4 {
        BoxSpace::Unary
    } else if v & 28 == 8 {
        BoxSpace::Binary
    } else if v & 28 == 12 {
        BoxSpace::Relational
    } else if v & 28 == 16 {
        BoxSpace::Skip
    } else if v & 28 == 20 {
        BoxSpace::Ord
    } else if v & 28 == 24 {
        BoxSpace::Differential
    } else {
        BoxSpace::Default
    }
}

/// The size tier of an abstract box: bits 5 and 6 of the packed byte.
pub open spec fn spec_box_size(v: u8) -> BoxSize {
    if v & 96 == 32 {
        BoxSize::Script
    } else if v & 96 == 64 {
        BoxSize::ScriptScript
    } else {
        BoxSize::Text
    }
}

/// The framing flags of a boxed formula: all eight bits of the packed byte.
pub open spec fn spec_boxed_formula_alignment(v: u8) -> BoxedFormulaAlignment {
    BoxedFormulaAlignment {
        hide_top: v & 1 == 1,
        hide_bottom: v & 2 == 2,
        hide_left: v & 4 == 4,
        hide_right: v & 8 == 8,
        strike_horizontal: v & 16 == 16,
        strike_vertical: v & 32 == 32,
        strike_tlbr: v & 64 == 64,
        strike_bltr: v & 128 == 128,
    }
}

/// The bracket growth a bracket pair's alignment byte requests; an unlisted
/// value is a decode error.
pub open spec fn spec_brackets_alignment(v: u8) -> Option<BracketsAlignment> {
    if v == 64 {
        Some(BracketsAlignment::DontGrow)
    } else if v == 32 {
        Some(BracketsAlignment::TeXbig)
    } else if v == 96 {
        Some(BracketsAlignment::TeXBig)
    } else if v == 160 {
        Some(BracketsAlignment::TeXbigg)
    } else if v == 224 {
        Some(BracketsAlignment::TeXBigg)
    } else {
        None
    }
}

/// The row alignment an equation array's alignment byte declares; an
/// unlisted value is a decode error.
pub open spec fn spec_equation_array_alignment(v: u8) -> Option<EquationArrayAlignment> {
    if v == 0 {
        Some(EquationArrayAlignment::LayoutWidth)
    } else if v == 4 {
        Some(EquationArrayAlignment::AlignTopRow)
    } else if v == 12 {
        Some(EquationArrayAlignment::AlignBottomRow)
    } else {
        None
    }
}

/// The alignment a matrix's alignment byte declares; an unlisted value is a
/// decode error.
pub open spec fn spec_matrix_alignment(v: u8) -> Option<MatrixAlignment> {
    if v == 0 {
        Some(MatrixAlignment::Center)
    } else if v == 1 {
        Some(MatrixAlignment::TopRow)
    } else if v == 3 {
        Some(MatrixAlignment::BottomRow)
    } else if v == 8 {
        Some(MatrixAlignment::ShowPlaceholder)
    } else {
        None
    }
}

/// The bracket glyph pair a matrix's specifier character selects: `None` for
/// the no-brackets specifier, an unlisted character a decode error.
pub open spec fn spec_matrix_brackets(c: char) -> Option<Option<MatrixBrackets>> {
    if c == '\u{25a0}' {
        Some(None)
    } else if c == '\u{24a8}' {
        Some(Some(MatrixBrackets::Parentheses))
    } else if c == '\u{24b1}' {
        Some(Some(MatrixBrackets::VerticalBars))
    } else if c == '\u{24a9}' {
        Some(Some(MatrixBrackets::DoubleVerticalBars))
    } else {
        None
    }
}

/// The display properties of an n-ary operator: the limit placement in the
/// two lowest bits, three option flags, and the growth policy in the two
/// highest bits.  Every byte decodes.
pub open spec fn spec_nary_display(v: u8) -> NAryDisplay {
    NAryDisplay {
        align: spec_nary_alignment(v),
        limits_opposite: v & 4 == 4,
        show_llim_placeholder: v & 8 == 8,
        show_ulim_placeholder: v & 16 == 16,
        grow: spec_nary_grow(v),
    }
}

/// The limit placement of an n-ary operator: the two lowest bits.
pub open spec fn spec_nary_alignment(v: u8) -> NAryAlignment {
    if v & 3 == 0 {
        NAryAlignment::LimitsDefault
    } else if v & 3 == 1 {
        NAryAlignment::LimitsUnderOver
    } else if v & 3 == 2 {
        NAryAlignment::LimitsSubSup
    } else {
        NAryAlignment::UpperLimitAsSuperScript
    }
}

/// The growth policy of an n-ary operator: the two highest bits; both set or
/// both clear leaves the default.
pub open spec fn spec_nary_grow(v: u8) -> NAryGrow {
    if v & 192 == 64 {
        NAryGrow::DontGrowWithContent
    } else if v & 192 == 128 {
        NAryGrow::GrowWithContent
    } else {
        NAryGrow::Default
    }
}

/// The display flags a phantom's alignment byte declares; unrecognized bits
/// are ignored by design.
pub open spec fn spec_phantom_display(v: u8) -> PhantomDisplay {
    PhantomDisplay {
        show: v & 1 == 1,
        zero_width: v & 2 == 2,
        zero_ascent: v & 4 == 4,
        zero_descent: v & 8 == 8,
        transparent: v & 16 == 16,
    }
}

/// The phantom kind a phantom's kind character selects; an unlisted
/// character is a decode error.
pub open spec fn spec_phantom_kind(c: char) -> Option<PhantomKind> {
    if c == '\u{27e1}' {
        Some(PhantomKind::FullOrCustom)
    } else if c == '\u{2b04}' {
        Some(PhantomKind::HorizontalPhantom)
    } else if c == '\u{21f3}' {
        Some(PhantomKind::VerticalPhantom)
    } else if c == '\u{2b06}' {
        Some(PhantomKind::AscentSmash)
    } else if c == '\u{2b07}' {
        Some(PhantomKind::DescentSmash)
    } else if c == '\u{2b0c}' {
        Some(PhantomKind::HorizontalSmash)
    } else if c == '\u{2b0d}' {
        Some(PhantomKind::VerticalSmash)
    } else {
        None
    }
}

/// The alignment a combined subscript / superscript's alignment byte
/// declares; any value but one is a decode error.
pub open spec fn spec_sub_sup_alignment(v: u8) -> Option<SubSupAlignment> {
    if v == 1 {
        Some(SubSupAlignment::Align)
    } else {
        None
    }
}

/// The stack position a stretch stack's alignment byte declares; a value
/// above three is a decode error.
pub open spec fn spec_stretch_stack_position(v: u8) -> Option<StretchStackPosition> {
    if v == 0 {
        Some(StretchStackPosition::CharBelow)
    } else if v == 1 {
        Some(StretchStackPosition::CharAbove)
    } else if v == 2 {
        Some(StretchStackPosition::BaseBelow)
    } else if v == 3 {
        Some(StretchStackPosition::BaseAbove)
    } else {
        None
    }
}

/// Decodes an abstract box's packed display byte.
pub fn box_display(v: u8) -> (r: BoxDisplay)
    ensures
        r == spec_box_display(v),
{
    let space = if v & 28 == 4 {
        BoxSpace::Unary
    } else if v & 28 == 8 {
        BoxSpace::Binary
    } else if v & 28 == 12 {
        BoxSpace::Relational
    } else if v & 28 == 16 {
        BoxSpace::Skip
    } else if v & 28 == 20 {
        BoxSpace::Ord
    } else if v & 28 == 24 {
        BoxSpace::Differential
    } else {
        BoxSpace::Default
    };
    let size = if v & 96 == 32 {
        BoxSize::Script
    } else if v & 96 == 64 {
        BoxSize::ScriptScript
    } else {
        BoxSize::Text
    };
    BoxDisplay { centered: v & 1 == 1, space, size, no_break: v & 128 == 128 }
}

/// Decodes a boxed formula's packed alignment byte.
pub fn boxed_formula_alignment(v: u8) -> (r: BoxedFormulaAlignment)
    ensures
        r == spec_boxed_formula_alignment(v),
{
    BoxedFormulaAlignment {
        hide_top: v & 1 == 1,
        hide_bottom: v & 2 == 2,
        hide_left: v & 4 == 4,
        hide_right: v & 8 == 8,
        strike_horizontal: v & 16 == 16,
        strike_vertical: v & 32 == 32,
        strike_tlbr: v & 64 == 64,
        strike_bltr: v & 128 == 128,
    }
}

/// Decodes a bracket pair's alignment byte.
pub fn brackets_alignment(v: u8) -> (r: Option<BracketsAlignment>)
    ensures
        r == spec_brackets_alignment(v),
{
    if v == 64 {
        Some(BracketsAlignment::DontGrow)
    } else if v == 32 {
        Some(BracketsAlignment::TeXbig)
    } else if v == 96 {
        Some(BracketsAlignment::TeXBig)
    } else if v == 160 {
        Some(BracketsAlignment::TeXbigg)
    } else if v == 224 {
        Some(BracketsAlignment::TeXBigg)
    } else {
        None
    }
}

/// Decodes an equation array's alignment byte.
pub fn equation_array_alignment(v: u8) -> (r: Option<EquationArrayAlignment>)
    ensures
        r == spec_equation_array_alignment(v),
{
    if v == 0 {
        Some(EquationArrayAlignment::LayoutWidth)
    } else if v == 4 {
        Some(EquationArrayAlignment::AlignTopRow)
    } else if v == 12 {
        Some(EquationArrayAlignment::AlignBottomRow)
    } else {
        None
    }
}

/// Decodes a matrix's alignment byte.
pub fn matrix_alignment(v: u8) -> (r: Option<MatrixAlignment>)
    ensures
        r == spec_matrix_alignment(v),
{
    if v == 0 {
        Some(MatrixAlignment::Center)
    } else if v == 1 {
        Some(MatrixAlignment::TopRow)
    } else if v == 3 {
        Some(MatrixAlignment::BottomRow)
    } else if v == 8 {
        Some(MatrixAlignment::ShowPlaceholder)
    } else {
        None
    }
}

/// Decodes a matrix's bracket specifier character.
pub fn matrix_brackets(c: char) -> (r: Option<Option<MatrixBrackets>>)
    ensures
        r == spec_matrix_brackets(c),
{
    if c == '\u{25a0}' {
        Some(None)
    } else if c == '\u{24a8}' {
        Some(Some(MatrixBrackets::Parentheses))
    } else if c == '\u{24b1}' {
        Some(Some(MatrixBrackets::VerticalBars))
    } else if c == '\u{24a9}' {
        Some(Some(MatrixBrackets::DoubleVerticalBars))
    } else {
        None
    }
}

/// Decodes an n-ary operator's packed display byte.
pub fn nary_display(v: u8) -> (r: NAryDisplay)
    ensures
        r == spec_nary_display(v),
{
    let align = if v & 3 == 0 {
        NAryAlignment::LimitsDefault
    } else if v & 3 == 1 {
        NAryAlignment::LimitsUnderOver
    } else if v & 3 == 2 {
        NAryAlignment::LimitsSubSup
    } else {
        NAryAlignment::UpperLimitAsSuperScript
    };
    let grow = if v & 192 == 64 {
        NAryGrow::DontGrowWithContent
    } else if v & 192 == 128 {
        NAryGrow::GrowWithContent
    } else {
        NAryGrow::Default
    };
    NAryDisplay {
        align,
        limits_opposite: v & 4 == 4,
        show_llim_placeholder: v & 8 == 8,
        show_ulim_placeholder: v & 16 == 16,
        grow,
    }
}

/// Decodes a phantom's packed display byte.
pub fn phantom_display(v: u8) -> (r: PhantomDisplay)
    ensures
        r == spec_phantom_display(v),
{
    PhantomDisplay {
        show: v & 1 == 1,
        zero_width: v & 2 == 2,
        zero_ascent: v & 4 == 4,
        zero_descent: v & 8 == 8,
        transparent: v & 16 == 16,
    }
}

/// Decodes a phantom's kind character.
pub fn phantom_kind(c: char) -> (r: Option<PhantomKind>)
    ensures
        r == spec_phantom_kind(c),
{
    if c == '\u{27e1}' {
        Some(PhantomKind::FullOrCustom)
    } else if c == '\u{2b04}' {
        Some(PhantomKind::HorizontalPhantom)
    } else if c == '\u{21f3}' {
        Some(PhantomKind::VerticalPhantom)
    } else if c == '\u{2b06}' {
        Some(PhantomKind::AscentSmash)
    } else if c == '\u{2b07}' {
        Some(PhantomKind::DescentSmash)
    } else if c == '\u{2b0c}' {
        Some(PhantomKind::HorizontalSmash)
    } else if c == '\u{2b0d}' {
        Some(PhantomKind::VerticalSmash)
    } else {
        None
    }
}

/// Decodes a combined subscript / superscript's alignment byte.
pub fn sub_sup_alignment(v: u8) -> (r: Option<SubSupAlignment>)
    ensures
        r == spec_sub_sup_alignment(v),
{
    if v == 1 {
        Some(SubSupAlignment::Align)
    } else {
        None
    }
}

/// Decodes a stretch stack's position byte.
pub fn stretch_stack_position(v: u8) -> (r: Option<StretchStackPosition>)
    ensures
        r == spec_stretch_stack_position(v),
{
    if v == 0 {
        Some(StretchStackPosition::CharBelow)
    } else if v == 1 {
        Some(StretchStackPosition::CharAbove)
    } else if v == 2 {
        Some(StretchStackPosition::BaseBelow)
    } else if v == 3 {
        Some(StretchStackPosition::BaseAbove)
    } else {
        None
    }
}

} // verus!

verus! {

/// The model of a built accent node.
pub proof fn lemma_op_view_accent(mark: char, body: Equation)
    ensures
        op_view(MathOp::Accent { mark, body }) == (EqNode::Accent {
            mark,
            body: eq_view(body),
        }),
{
}

/// The model of a built bracket-pair-with-separators node.
pub proof fn lemma_op_view_brackets_with_seps(
    opening: Option<char>,
    closing: Option<char>,
    sep: char,
    align: Option<BracketsAlignment>,
    segments: Vec<Equation>,
)
    ensures
        op_view(MathOp::BracketsWithSeps { opening, closing, sep, align, segments })
            == (EqNode::BracketsWithSeps {
            opening,
            closing,
            sep,
            align,
            segments: eq_list_view(segments),
        }),
{
}

/// The model of a built n-ary node.
pub proof fn lemma_op_view_nary(
    op: char,
    display: Option<NAryDisplay>,
    sub: Equation,
    sup: Equation,
    body: Equation,
)
    ensures
        op_view(MathOp::NAry { op, display, sub, sup, body }) == (EqNode::NAry {
            op,
            display,
            sub: eq_view(sub),
            sup: eq_view(sup),
            body: eq_view(body),
        }),
{
}

/// The model of a built stretch-stack node.
pub proof fn lemma_op_view_stretch_stack(mark: char, pos: StretchStackPosition, body: Equation)
    ensures
        op_view(MathOp::StretchStack { mark, pos, body }) == (EqNode::StretchStack {
            mark,
            pos,
            body: eq_view(body),
        }),
{
}

} // verus!
