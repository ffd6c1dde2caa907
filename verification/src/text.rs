//! The text classifier: partitions literal text runs into maximal same-kind
//! segments (operator, identifier, numeric, math-alphabet variant, space,
//! raw), which drive the markup template of every literal leaf.
use vstd::prelude::*;
use finl_unicode::categories::CharacterCategories;

verus! {

/// Whether the character's Unicode general category is space separator (Zs).
pub uninterp spec fn sep_space_char(c: char) -> bool;

/// Whether the character's Unicode general category is a number category
/// (Nd, Nl or No).
pub uninterp spec fn numeric_char(c: char) -> bool;

/// Whether the character's Unicode general category is math symbol (Sm).
pub uninterp spec fn math_symbol_char(c: char) -> bool;

/// Whether the character's Unicode general category is format (Cf).
pub uninterp spec fn format_char(c: char) -> bool;

/// Relies on finl_unicode's `CharacterCategories::is_separator_space`: tests
/// the character's Unicode general category, a function of the character
/// alone.
#[verifier::external_body]
fn is_separator_space(c: char) -> (r: bool)
    ensures
        r == sep_space_char(c),
{
    c.is_separator_space()
}

/// Relies on `char::is_numeric` of std: true exactly when the character has
/// one of the numeric Unicode general categories (Nd, Nl, No), a function of
/// the character alone.
#[verifier::external_body]
fn is_numeric(c: char) -> (r: bool)
    ensures
        r == numeric_char(c),
{
    c.is_numeric()
}

/// Relies on finl_unicode's `CharacterCategories::is_symbol_math`: tests the
/// character's Unicode general category, a function of the character alone.
#[verifier::external_body]
fn is_symbol_math(c: char) -> (r: bool)
    ensures
        r == math_symbol_char(c),
{
    c.is_symbol_math()
}

/// Relies on finl_unicode's `CharacterCategories::is_format`: tests the
/// character's Unicode general category, a function of the character alone.
#[verifier::external_body]
fn is_format(c: char) -> (r: bool)
    ensures
        r == format_char(c),
{
    c.is_format()
}

/// Relies on unicode_blocks' `GREEK_AND_COPTIC.contains`: the Greek and
/// Coptic block spans U+0370 to U+03FF.
#[verifier::external_body]
fn in_greek_and_coptic(c: char) -> (r: bool)
    ensures
        r == (0x370 <= c as u32 && c as u32 <= 0x3ff),
{
    unicode_blocks::GREEK_AND_COPTIC.contains(c)
}

/// Relies on unicode_blocks' `LETTERLIKE_SYMBOLS.contains`: the Letterlike
/// Symbols block spans U+2100 to U+214F.
#[verifier::external_body]
fn in_letterlike_symbols(c: char) -> (r: bool)
    ensures
        r == (0x2100 <= c as u32 && c as u32 <= 0x214f),
{
    unicode_blocks::LETTERLIKE_SYMBOLS.contains(c)
}

/// Relies on unicode_blocks' `MATHEMATICAL_ALPHANUMERIC_SYMBOLS.contains`:
/// the Mathematical Alphanumeric Symbols block spans U+1D400 to U+1D7FF.
#[verifier::external_body]
fn in_mathematical_alphanumeric_symbols(c: char) -> (r: bool)
    ensures
        r == (0x1d400 <= c as u32 && c as u32 <= 0x1d7ff),
{
    unicode_blocks::MATHEMATICAL_ALPHANUMERIC_SYMBOLS.contains(c)
}

/// Relies on unicode_blocks' `LATIN_1_SUPPLEMENT.contains`: the Latin-1
/// Supplement block spans U+0080 to U+00FF.
#[verifier::external_body]
fn in_latin_1_supplement(c: char) -> (r: bool)
    ensures
        r == (0x80 <= c as u32 && c as u32 <= 0xff),
{
    unicode_blocks::LATIN_1_SUPPLEMENT.contains(c)
}

/// Relies on unicode_blocks' `GENERAL_PUNCTUATION.contains`: the General
/// Punctuation block spans U+2000 to U+206F.
#[verifier::external_body]
fn in_general_punctuation(c: char) -> (r: bool)
    ensures
        r == (0x2000 <= c as u32 && c as u32 <= 0x206f),
{
    unicode_blocks::GENERAL_PUNCTUATION.contains(c)
}

/// The classification of one literal character, driving its output template.
#[derive(Debug, Clone, Copy, PartialEq, Eq, Structural)]
pub enum TextType {
    Bold,
    BoldItalic,
    BoldScript,
    Double,
    /// A double-struck differential operator: renders with a fixed leading
    /// space and a normalized target code point.
    DoubleOperator,
    Fraktur,
    FrakturBold,
    Identifier,
    Mono,
    Normal,
    Numeric,
    Operator,
    /// Passed through unwrapped, to support structural markup reuse.
    Raw,
    Sans,
    SansBold,
    SansBoldItalic,
    SansItalic,
    Script,
    Space,
}

/// Whether the character is ASCII punctuation: one of U+0021 to U+002F,
/// U+003A to U+0040, U+005B to U+0060, U+007B to U+007E.
pub open spec fn spec_ascii_punctuation(c: char) -> bool {
    ||| (0x21 <= c as u32 && c as u32 <= 0x2f)
    ||| (0x3a <= c as u32 && c as u32 <= 0x40)
    ||| (0x5b <= c as u32 && c as u32 <= 0x60)
    ||| (0x7b <= c as u32 && c as u32 <= 0x7e)
}

/// Whether the character is an ASCII letter.
pub open spec fn spec_ascii_alphabetic(c: char) -> bool {
    ||| (0x41 <= c as u32 && c as u32 <= 0x5a)
    ||| (0x61 <= c as u32 && c as u32 <= 0x7a)
}

/// The text type a contiguous math-alphanumeric or math-operator range gives
/// the character, if one of the ranges holds it.  The ranges are pairwise
/// disjoint.
pub open spec fn spec_range_class(c: char) -> Option<TextType> {
    let u = c as u32;
    if 0x1d400 <= u && u <= 0x1d433 {
        Some(TextType::Bold)
    } else if 0x1d434 <= u && u <= 0x1d467 {
        Some(TextType::Identifier)
    } else if 0x1d468 <= u && u <= 0x1d49b {
        Some(TextType::BoldItalic)
    } else if 0x1d49c <= u && u <= 0x1d4cf {
        Some(TextType::Script)
    } else if 0x1d4d0 <= u && u <= 0x1d503 {
        Some(TextType::BoldScript)
    } else if 0x1d504 <= u && u <= 0x1d537 {
        Some(TextType::Fraktur)
    } else if 0x1d538 <= u && u <= 0x1d56b {
        Some(TextType::Double)
    } else if 0x1d56c <= u && u <= 0x1d59f {
        Some(TextType::FrakturBold)
    } else if 0x1d5a0 <= u && u <= 0x1d5d3 {
        Some(TextType::Sans)
    } else if 0x1d5d4 <= u && u <= 0x1d607 {
        Some(TextType::SansBold)
    } else if 0x1d608 <= u && u <= 0x1d63b {
        Some(TextType::SansItalic)
    } else if 0x1d63c <= u && u <= 0x1d66f {
        Some(TextType::SansBoldItalic)
    } else if 0x1d670 <= u && u <= 0x1d6a3 {
        Some(TextType::Mono)
    } else if 0x1d6a8 <= u && u <= 0x1d6e1 {
        Some(TextType::Bold)
    } else if 0x1d6e2 <= u && u <= 0x1d71b {
        Some(TextType::Identifier)
    } else if 0x1d71c <= u && u <= 0x1d755 {
        Some(TextType::BoldItalic)
    } else if 0x1d756 <= u && u <= 0x1d78f {
        Some(TextType::SansBold)
    } else if 0x1d790 <= u && u <= 0x1d7c9 {
        Some(TextType::SansBoldItalic)
    } else if 0x2200 <= u && u <= 0x22ff {
        Some(TextType::Operator)
    } else if 0x2190 <= u && u <= 0x21ff {
        Some(TextType::Operator)
    } else {
        None
    }
}

/// The classification of one character, by ordered rules: a literal ampersand
/// passes through raw; ASCII punctuation is an operator; ASCII letters are
/// normal identifiers; then the Unicode space-separator, numeric, math-symbol
/// and format categories; the two double-struck differential code points; the
/// math-alphanumeric ranges; membership in a handful of Unicode blocks; and
/// an identifier as the final fallback.
pub open spec fn classify_char(c: char) -> TextType {
    if c == '&' {
        TextType::Raw
    } else if spec_ascii_punctuation(c) {
        TextType::Operator
    } else if spec_ascii_alphabetic(c) {
        TextType::Normal
    } else if sep_space_char(c) {
        TextType::Space
    } else if numeric_char(c) {
        TextType::Numeric
    } else if math_symbol_char(c) {
        TextType::Operator
    } else if format_char(c) {
        if c == '\u{2061}' {
            TextType::Operator
        } else {
            TextType::Raw
        }
    } else if c == '\u{2145}' || c == '\u{2146}' {
        TextType::DoubleOperator
    } else if spec_range_class(c) is Some {
        spec_range_class(c)->0
    } else if (0x370 <= c as u32 && c as u32 <= 0x3ff) || (0x2100 <= c as u32 && c as u32 <= 0x214f)
        || (0x1d400 <= c as u32 && c as u32 <= 0x1d7ff) {
        TextType::Identifier
    } else if 0x80 <= c as u32 && c as u32 <= 0xff {
        TextType::Normal
    } else if 0x2000 <= c as u32 && c as u32 <= 0x206f {
        TextType::Operator
    } else {
        TextType::Identifier
    }
}

impl TextType {
    /// Classifies one character.  An unclassifiable character degrades to an
    /// identifier rather than failing.
    pub fn from_char(c: char) -> (t: TextType)
        ensures
            t == classify_char(c),
    {
        let u = c as u32;
        if c == '&' {
            TextType::Raw
        } else if (0x21 <= u && u <= 0x2f) || (0x3a <= u && u <= 0x40) || (0x5b <= u && u <= 0x60)
            || (0x7b <= u && u <= 0x7e) {
            TextType::Operator
        } else if (0x41 <= u && u <= 0x5a) || (0x61 <= u && u <= 0x7a) {
            TextType::Normal
        } else if is_separator_space(c) {
            TextType::Space
        } else if is_numeric(c) {
            TextType::Numeric
        } else if is_symbol_math(c) {
            TextType::Operator
        } else if is_format(c) {
            if c == '\u{2061}' {
                TextType::Operator
            } else {
                TextType::Raw
            }
        } else if c == '\u{2145}' || c == '\u{2146}' {
            TextType::DoubleOperator
        } else if let Some(t) = Self::range_class(c) {
            t
        } else if in_greek_and_coptic(c) || in_letterlike_symbols(c)
            || in_mathematical_alphanumeric_symbols(c) {
            TextType::Identifier
        } else if in_latin_1_supplement(c) {
            TextType::Normal
        } else if in_general_punctuation(c) {
            TextType::Operator
        } else {
            TextType::Identifier
        }
    }

    /// Looks the character up in the table of contiguous math-alphanumeric
    /// and math-operator ranges.
    fn range_class(c: char) -> (r: Option<TextType>)
        ensures
            r == spec_range_class(c),
    {
        let u = c as u32;
        if 0x1d400 <= u && u <= 0x1d433 {
            Some(TextType::Bold)
        } else if 0x1d434 <= u && u <= 0x1d467 {
            Some(TextType::Identifier)
        } else if 0x1d468 <= u && u <= 0x1d49b {
            Some(TextType::BoldItalic)
        } else if 0x1d49c <= u && u <= 0x1d4cf {
            Some(TextType::Script)
        } else if 0x1d4d0 <= u && u <= 0x1d503 {
            Some(TextType::BoldScript)
        } else if 0x1d504 <= u && u <= 0x1d537 {
            Some(TextType::Fraktur)
        } else if 0x1d538 <= u && u <= 0x1d56b {
            Some(TextType::Double)
        } else if 0x1d56c <= u && u <= 0x1d59f {
            Some(TextType::FrakturBold)
        } else if 0x1d5a0 <= u && u <= 0x1d5d3 {
            Some(TextType::Sans)
        } else if 0x1d5d4 <= u && u <= 0x1d607 {
            Some(TextType::SansBold)
        } else if 0x1d608 <= u && u <= 0x1d63b {
            Some(TextType::SansItalic)
        } else if 0x1d63c <= u && u <= 0x1d66f {
            Some(TextType::SansBoldItalic)
        } else if 0x1d670 <= u && u <= 0x1d6a3 {
            Some(TextType::Mono)
        } else if 0x1d6a8 <= u && u <= 0x1d6e1 {
            Some(TextType::Bold)
        } else if 0x1d6e2 <= u && u <= 0x1d71b {
            Some(TextType::Identifier)
        } else if 0x1d71c <= u && u <= 0x1d755 {
            Some(TextType::BoldItalic)
        } else if 0x1d756 <= u && u <= 0x1d78f {
            Some(TextType::SansBold)
        } else if 0x1d790 <= u && u <= 0x1d7c9 {
            Some(TextType::SansBoldItalic)
        } else if 0x2200 <= u && u <= 0x22ff {
            Some(TextType::Operator)
        } else if 0x2190 <= u && u <= 0x21ff {
            Some(TextType::Operator)
        } else {
            None
        }
    }
}

/// Whether the character is stripped from literal runs before segmentation: a
/// format character other than the function-application code point.
pub open spec fn skippable_format(c: char) -> bool {
    format_char(c) && c != '\u{2061}'
}

/// Tests whether the character is stripped from literal runs before
/// segmentation.
pub fn is_skippable_format(c: char) -> (r: bool)
    ensures
        r == skippable_format(c),
{
    is_format(c) && c != '\u{2061}'
}

/// A literal run with its format characters stripped.
pub open spec fn strip_formats(s: Seq<char>) -> Seq<char>
    decreases s.len(),
{
    if s.len() == 0 {
        Seq::empty()
    } else if skippable_format(s[0]) {
        strip_formats(s.drop_first())
    } else {
        seq![s[0]] + strip_formats(s.drop_first())
    }
}

/// The length of the maximal leading run of characters that classify like the
/// first one.
pub open spec fn run_len(f: Seq<char>) -> int
    decreases f.len(),
{
    if f.len() == 0 {
        0
    } else if f.len() == 1 {
        1
    } else if classify_char(f[1]) == classify_char(f[0]) {
        1 + run_len(f.drop_first())
    } else {
        1
    }
}

/// A non-empty run's leading segment holds between one character and the
/// whole run.
pub proof fn lemma_run_len_bounds(f: Seq<char>)
    requires
        f.len() > 0,
    ensures
        1 <= run_len(f) <= f.len(),
    decreases f.len(),
{
    if f.len() > 1 && classify_char(f[1]) == classify_char(f[0]) {
        lemma_run_len_bounds(f.drop_first());
    }
}

/// The leading segment is exactly as long as the classifications agree: `k`
/// same-classified leading characters followed by the run's end or a
/// differently classified character mean the leading segment has length `k`.
pub proof fn lemma_run_len_is(f: Seq<char>, k: int)
    requires
        1 <= k <= f.len(),
        forall|m: int| 0 < m < k ==> #[trigger] classify_char(f[m]) == classify_char(f[0]),
        k < f.len() ==> classify_char(f[k]) != classify_char(f[0]),
    ensures
        run_len(f) == k,
    decreases f.len(),
{
    if k == 1 {
        if f.len() > 1 {
            assert(classify_char(f[1]) != classify_char(f[0]));
        }
    } else {
        assert(classify_char(f[1]) == classify_char(f[0]));
        assert forall|m: int| 0 < m < k - 1 implies #[trigger] classify_char(f.drop_first()[m])
            == classify_char(f.drop_first()[0]) by {
            assert(f.drop_first()[m] == f[m + 1]);
            assert(f.drop_first()[0] == f[1]);
        }
        if k - 1 < f.drop_first().len() {
            assert(f.drop_first()[k - 1] == f[k]);
        }
        lemma_run_len_is(f.drop_first(), k - 1);
    }
}

/// The substituted content of a double-struck operator segment: the two
/// double-struck differential code points map to fixed target letters; any
/// other content passes through.
pub open spec fn double_operator_content(seg: Seq<char>) -> Seq<char> {
    if seg == seq!['\u{2145}'] {
        seq!['\u{1d437}']
    } else if seg == seq!['\u{2146}'] {
        seq!['\u{1d451}']
    } else {
        seg
    }
}

/// The markup of one maximal same-type segment of a literal run.
pub open spec fn spec_render_segment(t: TextType, seg: Seq<char>) -> Seq<char> {
    match t {
        TextType::Bold => "<mi mathvariant=\"bold\">"@ + seg + "</mi>"@,
        TextType::BoldItalic => "<mi mathvariant=\"bold-italic\">"@ + seg + "</mi>"@,
        TextType::BoldScript => "<mi mathvariant=\"bold-script\">"@ + seg + "</mi>"@,
        TextType::Double => "<mi mathvariant=\"double-struck\">"@ + seg + "</mi>"@,
        TextType::DoubleOperator => "<mrow><mspace width=\"0.166em\"></mspace><mi>"@
            + double_operator_content(seg) + "</mi></mrow>"@,
        TextType::Fraktur => "<mi mathvariant=\"fraktur\">"@ + seg + "</mi>"@,
        TextType::FrakturBold => "<mi mathvariant=\"bold-fraktur\">"@ + seg + "</mi>"@,
        TextType::Identifier => "<mi>"@ + seg + "</mi>"@,
        TextType::Mono => "<mi mathvariant=\"monospace\">"@ + seg + "</mi>"@,
        TextType::Normal => "<mi mathvariant=\"normal\">"@ + seg + "</mi>"@,
        TextType::Numeric => "<mn>"@ + seg + "</mn>"@,
        TextType::Operator => "<mo>"@ + seg + "</mo>"@,
        TextType::Raw => seg,
        TextType::Sans => "<mi mathvariant=\"sans-serif\">"@ + seg + "</mi>"@,
        TextType::SansBold => "<mi mathvariant=\"sans-serif-bold\">"@ + seg + "</mi>"@,
        TextType::SansBoldItalic => "<mi mathvariant=\"sans-serif-bold-italic\">"@ + seg
            + "</mi>"@,
        TextType::SansItalic => "<mi mathvariant=\"sans-serif-italic\">"@ + seg + "</mi>"@,
        TextType::Script => "<mi mathvariant=\"script\">"@ + seg + "</mi>"@,
        TextType::Space => "<mspace width=\"0.222em\"></mspace>"@,
    }
}

/// The markup of a stripped literal run: the concatenated markup of its
/// maximal same-type segments.
pub open spec fn spec_render_runs(f: Seq<char>) -> Seq<char>
    decreases f.len(),
{
    if f.len() == 0 {
        Seq::empty()
    } else {
        proof {
            lemma_run_len_bounds(f);
        }
        spec_render_segment(classify_char(f[0]), f.take(run_len(f))) + spec_render_runs(
            f.skip(run_len(f)),
        )
    }
}

/// The markup of one literal run: format characters stripped, then each
/// maximal same-type segment rendered by its type's template.
pub open spec fn spec_render_text(s: Seq<char>) -> Seq<char> {
    spec_render_runs(strip_formats(s))
}

} // verus!
