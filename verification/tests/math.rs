//! End-to-end and unit tests for the inline math pipeline, run against the
//! real Unicode classification crates.
use one2html::ast::BracketsAlignment;
use one2html::ast::MathObject;
use one2html::ast::MathObjectType;
use one2html::ast::MathOp;
use one2html::ast::MatrixBrackets;
use one2html::error::MathError;
use one2html::lexer::Lexer;
use one2html::lexer::Token;
use one2html::render::bracket_size;
use one2html::render::brackets_size;
use one2html::render::render_equation;
use one2html::render::render_group;
use one2html::render::render_matrix_brackets;
use one2html::render::render_text;
use one2html::render_math;
use one2html::section::Renderer;
use one2html::text::TextType;
use one2html::text::is_skippable_format;

const START: &str = "\u{fdd0}";
const SEP: &str = "\u{fdee}";
const END: &str = "\u{fdef}";

const MATH_OPEN: &str = "<math xmlns=\"http://www.w3.org/1998/Math/MathML\">";

fn obj(object_type: MathObjectType, arg_count: u32) -> MathObject {
    MathObject {
        object_type,
        arg_count,
        column: None,
        align: None,
        char0: None,
        char1: None,
        char2: None,
    }
}

fn text_pair(text: &str) -> (String, MathObject) {
    (text.to_string(), obj(MathObjectType::SimpleText, 0))
}

fn start(descriptor: MathObject) -> (String, MathObject) {
    (START.to_string(), descriptor)
}

fn sep(ty: MathObjectType) -> (String, MathObject) {
    (SEP.to_string(), obj(ty, 0))
}

fn end(ty: MathObjectType) -> (String, MathObject) {
    (END.to_string(), obj(ty, 0))
}

#[test]
fn bracket_sizes_scale_by_tier() {
    assert_eq!(brackets_size(0), "1em");
    assert_eq!(brackets_size(1), "1.25em");
    assert_eq!(brackets_size(2), "1.5625em");
    assert_eq!(brackets_size(3), "1.953125em");
    assert_eq!(brackets_size(4), "2.44140625em");
}

#[test]
fn bracket_size_attributes() {
    assert_eq!(bracket_size(None), "");
    assert_eq!(
        bracket_size(Some(BracketsAlignment::DontGrow)),
        " minsize=\"1em\" maxsize=\"1em\""
    );
    assert_eq!(
        bracket_size(Some(BracketsAlignment::TeXbig)),
        " minsize=\"1.25em\" maxsize=\"1.25em\""
    );
    assert_eq!(
        bracket_size(Some(BracketsAlignment::TeXBigg)),
        " minsize=\"2.44140625em\" maxsize=\"2.44140625em\""
    );
}

#[test]
fn render_group_empty_gives_fallback() {
    assert_eq!(render_group(&vec![]), "<mi></mi>");
}

#[test]
fn render_group_single_text_is_row_wrapped() {
    let eq = vec![MathOp::Text("1".to_string())];
    assert_eq!(render_group(&eq), "<mrow><mn>1</mn></mrow>");
}

#[test]
fn render_group_single_non_text_is_unwrapped() {
    let eq = vec![MathOp::OverBar { body: vec![MathOp::Text("1".to_string())] }];
    assert_eq!(
        render_group(&eq),
        "<mover accent=\"true\"><mrow><mn>1</mn></mrow><mo>\u{00af}</mo></mover>"
    );
}

#[test]
fn render_group_many_children_share_one_row() {
    let eq = vec![MathOp::Text("1".to_string()), MathOp::Text("2".to_string())];
    assert_eq!(render_group(&eq), "<mrow><mn>1</mn><mn>2</mn></mrow>");
}

#[test]
fn classify_letter_operator_digit_ampersand_space() {
    assert_eq!(TextType::from_char('x'), TextType::Normal);
    assert_eq!(TextType::from_char('+'), TextType::Operator);
    assert_eq!(TextType::from_char('5'), TextType::Numeric);
    assert_eq!(TextType::from_char('&'), TextType::Raw);
    assert_eq!(TextType::from_char('\u{2002}'), TextType::Space);
}

#[test]
fn classify_unicode_categories() {
    // math symbol (Sm) outside the range tables
    assert_eq!(TextType::from_char('\u{00b1}'), TextType::Operator);
    // Arabic-Indic digit (Nd)
    assert_eq!(TextType::from_char('\u{0665}'), TextType::Numeric);
    // function-application format character
    assert_eq!(TextType::from_char('\u{2061}'), TextType::Operator);
    // another format character passes through raw
    assert_eq!(TextType::from_char('\u{200e}'), TextType::Raw);
    // double-struck differentials
    assert_eq!(TextType::from_char('\u{2145}'), TextType::DoubleOperator);
    assert_eq!(TextType::from_char('\u{2146}'), TextType::DoubleOperator);
}

#[test]
fn classify_math_alphabet_ranges() {
    assert_eq!(TextType::from_char('\u{1d400}'), TextType::Bold);
    assert_eq!(TextType::from_char('\u{1d434}'), TextType::Identifier);
    assert_eq!(TextType::from_char('\u{1d49c}'), TextType::Script);
    assert_eq!(TextType::from_char('\u{1d538}'), TextType::Double);
    assert_eq!(TextType::from_char('\u{1d56c}'), TextType::FrakturBold);
    assert_eq!(TextType::from_char('\u{1d5a0}'), TextType::Sans);
    assert_eq!(TextType::from_char('\u{1d670}'), TextType::Mono);
    assert_eq!(TextType::from_char('\u{1d6a8}'), TextType::Bold);
    assert_eq!(TextType::from_char('\u{1d790}'), TextType::SansBoldItalic);
    assert_eq!(TextType::from_char('\u{1d7c9}'), TextType::SansBoldItalic);
    assert_eq!(TextType::from_char('\u{2200}'), TextType::Operator);
    assert_eq!(TextType::from_char('\u{2190}'), TextType::Operator);
}

#[test]
fn classify_unicode_blocks_and_fallback() {
    // Greek and Coptic block
    assert_eq!(TextType::from_char('\u{03a9}'), TextType::Identifier);
    // Letterlike Symbols block
    assert_eq!(TextType::from_char('\u{210f}'), TextType::Identifier);
    // Mathematical Alphanumeric Symbols block outside the named ranges
    assert_eq!(TextType::from_char('\u{1d7ca}'), TextType::Identifier);
    // Latin-1 Supplement block
    assert_eq!(TextType::from_char('\u{00e9}'), TextType::Normal);
    // General Punctuation block (dagger)
    assert_eq!(TextType::from_char('\u{2020}'), TextType::Operator);
    // unclassifiable character degrades to an identifier
    assert_eq!(TextType::from_char('\u{3041}'), TextType::Identifier);
}

#[test]
fn skippable_format_characters() {
    assert!(is_skippable_format('\u{200d}'));
    assert!(!is_skippable_format('\u{2061}'));
    assert!(!is_skippable_format('x'));
}

#[test]
fn render_text_segments_maximal_runs() {
    assert_eq!(
        render_text(&"x+5".to_string()),
        "<mi mathvariant=\"normal\">x</mi><mo>+</mo><mn>5</mn>"
    );
    assert_eq!(render_text(&"12".to_string()), "<mn>12</mn>");
    assert_eq!(render_text(&"".to_string()), "");
}

#[test]
fn render_text_strips_format_characters() {
    assert_eq!(
        render_text(&"a\u{200d}b".to_string()),
        "<mi mathvariant=\"normal\">ab</mi>"
    );
}

#[test]
fn render_text_double_struck_differential() {
    assert_eq!(
        render_text(&"\u{2146}".to_string()),
        "<mrow><mspace width=\"0.166em\"></mspace><mi>\u{1d451}</mi></mrow>"
    );
    assert_eq!(
        render_text(&"\u{2145}".to_string()),
        "<mrow><mspace width=\"0.166em\"></mspace><mi>\u{1d437}</mi></mrow>"
    );
}

#[test]
fn render_text_space_run_collapses_to_one_space_element() {
    assert_eq!(
        render_text(&"\u{2002}\u{2002}".to_string()),
        "<mspace width=\"0.222em\"></mspace>"
    );
}

#[test]
fn lexer_splits_marker_prefixes_and_suffixes() {
    let descriptor = obj(MathObjectType::Fraction, 2);
    let mut lexer = Lexer::new(vec![
        (format!("{}ab", START), descriptor),
        (format!("cd{}", SEP), descriptor),
        (format!("ef{}", END), descriptor),
    ]);
    assert!(matches!(lexer.next().unwrap(), Token::Start(d) if d.arg_count == 2));
    assert!(matches!(lexer.next().unwrap(), Token::Text(t) if t == "ab"));
    assert!(matches!(lexer.next().unwrap(), Token::Text(t) if t == "cd"));
    assert!(matches!(lexer.next().unwrap(), Token::Sep(t) if t == MathObjectType::Fraction));
    assert!(matches!(lexer.next().unwrap(), Token::Text(t) if t == "ef"));
    assert!(matches!(lexer.next().unwrap(), Token::End(t) if t == MathObjectType::Fraction));
    assert!(matches!(lexer.next().unwrap(), Token::Eof));
    assert!(matches!(lexer.next().unwrap(), Token::Eof));
}

#[test]
fn lexer_passes_plain_text_through() {
    let mut lexer = Lexer::new(vec![text_pair("xyz"), text_pair("")]);
    assert!(matches!(lexer.next().unwrap(), Token::Text(t) if t == "xyz"));
    assert!(matches!(lexer.next().unwrap(), Token::Text(t) if t.is_empty()));
    assert!(matches!(lexer.next().unwrap(), Token::Eof));
}

#[test]
fn fraction_lowers_to_fraction_element() {
    let d = obj(MathObjectType::Fraction, 2);
    let markup = render_math(vec![
        start(d),
        text_pair("1"),
        sep(MathObjectType::Fraction),
        text_pair("2"),
        end(MathObjectType::Fraction),
    ])
    .unwrap();
    assert_eq!(
        markup,
        format!(
            "{}<mfrac><mrow><mn>1</mn></mrow><mrow><mn>2</mn></mrow></mfrac></math>",
            MATH_OPEN
        )
    );
}

#[test]
fn small_fraction_flag_follows_its_codepoint() {
    let mut d = obj(MathObjectType::Fraction, 2);
    d.char0 = Some('\u{2298}');
    let markup = render_math(vec![
        start(d),
        text_pair("1"),
        sep(MathObjectType::Fraction),
        text_pair("2"),
        end(MathObjectType::Fraction),
    ])
    .unwrap();
    assert_eq!(
        markup,
        format!(
            "{}<mfrac><mrow><mn>1</mn></mrow><mrow><mn>2</mn></mrow></mfrac></math>",
            MATH_OPEN
        )
    );
}

#[test]
fn subscript_with_empty_script_uses_placeholder_glyph() {
    let d = obj(MathObjectType::Subscript, 2);
    let markup = render_math(vec![
        start(d),
        text_pair("x"),
        sep(MathObjectType::Subscript),
        end(MathObjectType::Subscript),
    ])
    .unwrap();
    assert_eq!(
        markup,
        format!(
            "{}<msub><mrow><mi mathvariant=\"normal\">x</mi></mrow><mo>\u{2b1a}</mo></msub></math>",
            MATH_OPEN
        )
    );
}

#[test]
fn sub_sup_with_empty_scripts_uses_placeholder_glyphs() {
    let d = obj(MathObjectType::SubSup, 3);
    let markup = render_math(vec![
        start(d),
        text_pair("x"),
        sep(MathObjectType::SubSup),
        sep(MathObjectType::SubSup),
        end(MathObjectType::SubSup),
    ])
    .unwrap();
    assert_eq!(
        markup,
        format!(
            "{}<msubsup><mrow><mi mathvariant=\"normal\">x</mi></mrow><mo>\u{2b1a}</mo><mo>\u{2b1a}</mo></msubsup></math>",
            MATH_OPEN
        )
    );
}

#[test]
fn arity_mismatch_always_fails() {
    let d = obj(MathObjectType::Fraction, 1);
    let result = render_math(vec![start(d), text_pair("1"), end(MathObjectType::Fraction)]);
    assert_eq!(result, Err(MathError::ArityMismatch));
}

#[test]
fn mismatched_end_is_a_structural_error() {
    let d = obj(MathObjectType::Overbar, 1);
    let result = render_math(vec![start(d), end(MathObjectType::Fraction)]);
    assert_eq!(result, Err(MathError::UnexpectedToken));
}

#[test]
fn separator_where_a_node_was_expected_fails() {
    let result = render_math(vec![sep(MathObjectType::Fraction)]);
    assert_eq!(result, Err(MathError::UnexpectedToken));
}

#[test]
fn unterminated_object_fails_at_end_of_stream() {
    let d = obj(MathObjectType::Overbar, 1);
    let result = render_math(vec![start(d), text_pair("x")]);
    assert_eq!(result, Err(MathError::UnexpectedToken));
}

#[test]
fn accent_without_character_is_a_missing_field() {
    let d = obj(MathObjectType::Accent, 1);
    let result = render_math(vec![start(d), text_pair("x"), end(MathObjectType::Accent)]);
    assert_eq!(result, Err(MathError::MissingField));
}

#[test]
fn accent_with_alignment_data_is_a_contract_violation() {
    let mut d = obj(MathObjectType::Accent, 1);
    d.char0 = Some('\u{0302}');
    d.align = Some(0);
    let result = render_math(vec![start(d), text_pair("x"), end(MathObjectType::Accent)]);
    assert_eq!(result, Err(MathError::UnexpectedAlignData));
}

#[test]
fn phantom_with_unknown_kind_is_an_invalid_value() {
    let mut d = obj(MathObjectType::Phantom, 1);
    d.char0 = Some('z');
    let result = render_math(vec![start(d), text_pair("x"), end(MathObjectType::Phantom)]);
    assert_eq!(result, Err(MathError::InvalidValue));
}

#[test]
fn accent_lowers_to_accented_over_element() {
    let mut d = obj(MathObjectType::Accent, 1);
    d.char0 = Some('\u{0302}');
    let markup = render_math(vec![start(d), text_pair("x"), end(MathObjectType::Accent)]).unwrap();
    assert_eq!(
        markup,
        format!(
            "{}<mover accent=\"true\"><mrow><mi mathvariant=\"normal\">x</mi></mrow><mo>\u{0302}</mo></mover></math>",
            MATH_OPEN
        )
    );
}

#[test]
fn radical_lowers_body_then_degree() {
    let d = obj(MathObjectType::Radical, 2);
    let markup = render_math(vec![
        start(d),
        text_pair("3"),
        sep(MathObjectType::Radical),
        text_pair("x"),
        end(MathObjectType::Radical),
    ])
    .unwrap();
    assert_eq!(
        markup,
        format!(
            "{}<mroot><mrow><mi mathvariant=\"normal\">x</mi></mrow><mrow><mn>3</mn></mrow></mroot></math>",
            MATH_OPEN
        )
    );
}

#[test]
fn brackets_carry_size_attributes() {
    let mut d = obj(MathObjectType::Brackets, 1);
    d.char0 = Some('(');
    d.char1 = Some(')');
    d.align = Some(32);
    let markup =
        render_math(vec![start(d), text_pair("x"), end(MathObjectType::Brackets)]).unwrap();
    assert_eq!(
        markup,
        format!(
            "{}<mrow><mo minsize=\"1.25em\" maxsize=\"1.25em\">(</mo><mrow><mi mathvariant=\"normal\">x</mi></mrow><mo minsize=\"1.25em\" maxsize=\"1.25em\">)</mo></mrow></math>",
            MATH_OPEN
        )
    );
}

#[test]
fn brackets_with_unlisted_alignment_fail() {
    let mut d = obj(MathObjectType::Brackets, 1);
    d.char0 = Some('[');
    d.char1 = Some(']');
    d.align = Some(7);
    let result = render_math(vec![start(d), text_pair("x"), end(MathObjectType::Brackets)]);
    assert_eq!(result, Err(MathError::InvalidValue));
}

#[test]
fn brackets_without_alignment_do_not_grow() {
    let mut d = obj(MathObjectType::Brackets, 1);
    d.char0 = Some('[');
    d.char1 = Some(']');
    let markup =
        render_math(vec![start(d), text_pair("x"), end(MathObjectType::Brackets)]).unwrap();
    assert_eq!(
        markup,
        format!(
            "{}<mrow><mo>[</mo><mrow><mi mathvariant=\"normal\">x</mi></mrow><mo>]</mo></mrow></math>",
            MATH_OPEN
        )
    );
}

#[test]
fn brackets_with_seps_join_segments() {
    let mut d = obj(MathObjectType::BracketsWithSeps, 2);
    d.char0 = Some('(');
    d.char1 = Some(')');
    d.char2 = Some('|');
    let markup = render_math(vec![
        start(d),
        text_pair("a"),
        sep(MathObjectType::BracketsWithSeps),
        text_pair("b"),
        end(MathObjectType::BracketsWithSeps),
    ])
    .unwrap();
    assert_eq!(
        markup,
        format!(
            "{}<mrow><mo symmetric=\"true\">(</mo><mrow><mi mathvariant=\"normal\">a</mi></mrow><mo stretchy=\"true\" symmetric=\"true\">|</mo><mrow><mi mathvariant=\"normal\">b</mi></mrow><mo symmetric=\"true\">)</mo></mrow></math>",
            MATH_OPEN
        )
    );
}

#[test]
fn brackets_with_seps_without_separator_char_fails() {
    let mut d = obj(MathObjectType::BracketsWithSeps, 1);
    d.char0 = Some('(');
    d.char1 = Some(')');
    let result = render_math(vec![
        start(d),
        text_pair("a"),
        end(MathObjectType::BracketsWithSeps),
    ]);
    assert_eq!(result, Err(MathError::MissingField));
}

#[test]
fn matrix_chunks_rows_and_pads_the_last() {
    let mut d = obj(MathObjectType::Matrix, 3);
    d.column = Some(2);
    d.char0 = Some('\u{24a8}');
    let markup = render_math(vec![
        start(d),
        text_pair("1"),
        sep(MathObjectType::Matrix),
        text_pair("2"),
        sep(MathObjectType::Matrix),
        text_pair("3"),
        end(MathObjectType::Matrix),
    ])
    .unwrap();
    assert_eq!(
        markup,
        format!(
            "{}<mrow><mo>(</mo><mtable columnspacing=\"0.8em\"><mtr><mtd><mrow><mn>1</mn></mrow></mtd><mtd><mrow><mn>2</mn></mrow></mtd></mtr><mtr><mtd><mrow><mn>3</mn></mrow></mtd><mtd></mtd></mtr></mtable><mo>)</mo></mrow></math>",
            MATH_OPEN
        )
    );
}

#[test]
fn matrix_placeholder_alignment_fills_empty_cells() {
    let mut d = obj(MathObjectType::Matrix, 2);
    d.column = Some(2);
    d.char0 = Some('\u{24b1}');
    d.align = Some(8);
    let markup = render_math(vec![
        start(d),
        text_pair("1"),
        sep(MathObjectType::Matrix),
        end(MathObjectType::Matrix),
    ])
    .unwrap();
    assert_eq!(
        markup,
        format!(
            "{}<mrow><mo>|</mo><mtable columnspacing=\"0.8em\"><mtr><mtd><mrow><mn>1</mn></mrow></mtd><mtd><mo>\u{25a1}</mo></mtd></mtr></mtable><mo>|</mo></mrow></math>",
            MATH_OPEN
        )
    );
}

#[test]
fn matrix_with_unknown_bracket_char_fails() {
    let mut d = obj(MathObjectType::Matrix, 1);
    d.column = Some(1);
    d.char0 = Some('?');
    let result = render_math(vec![start(d), text_pair("1"), end(MathObjectType::Matrix)]);
    assert_eq!(result, Err(MathError::InvalidValue));
}

#[test]
fn matrix_bracket_glyph_table() {
    assert_eq!(render_matrix_brackets(MatrixBrackets::Parentheses), ('(', ')'));
    assert_eq!(render_matrix_brackets(MatrixBrackets::VerticalBars), ('|', '|'));
    assert_eq!(
        render_matrix_brackets(MatrixBrackets::DoubleVerticalBars),
        ('\u{2016}', '\u{2016}')
    );
}

#[test]
fn nary_side_scripts_with_placeholders() {
    let mut d = obj(MathObjectType::Nary, 3);
    d.char0 = Some('\u{2211}');
    // side scripts, placeholders for both empty limits
    d.align = Some(2 | 8 | 16);
    let markup = render_math(vec![
        start(d),
        sep(MathObjectType::Nary),
        sep(MathObjectType::Nary),
        text_pair("k"),
        end(MathObjectType::Nary),
    ])
    .unwrap();
    assert_eq!(
        markup,
        format!(
            "{}<mrow><msubsup><mo>\u{2211}</mo><mrow><mo>\u{25a1}</mo></mrow><mrow><mo>\u{25a1}</mo></mrow></msubsup><mrow><mi mathvariant=\"normal\">k</mi></mrow></mrow></math>",
            MATH_OPEN
        )
    );
}

#[test]
fn nary_without_display_uses_under_over() {
    let mut d = obj(MathObjectType::Nary, 3);
    d.char0 = Some('\u{222b}');
    let markup = render_math(vec![
        start(d),
        text_pair("0"),
        sep(MathObjectType::Nary),
        text_pair("1"),
        sep(MathObjectType::Nary),
        text_pair("x"),
        end(MathObjectType::Nary),
    ])
    .unwrap();
    assert_eq!(
        markup,
        format!(
            "{}<mrow><munderover><mo>\u{222b}</mo><mrow><mn>0</mn></mrow><mrow><mn>1</mn></mrow></munderover><mrow><mi mathvariant=\"normal\">x</mi></mrow></mrow></math>",
            MATH_OPEN
        )
    );
}

#[test]
fn nary_opposite_limits_swap_scripts() {
    let mut d = obj(MathObjectType::Nary, 3);
    d.char0 = Some('\u{2211}');
    // under-over limits, swapped
    d.align = Some(1 | 4);
    let markup = render_math(vec![
        start(d),
        text_pair("a"),
        sep(MathObjectType::Nary),
        text_pair("b"),
        sep(MathObjectType::Nary),
        end(MathObjectType::Nary),
    ])
    .unwrap();
    assert_eq!(
        markup,
        format!(
            "{}<mrow><munderover><mo>\u{2211}</mo><mrow><mi mathvariant=\"normal\">b</mi></mrow><mrow><mi mathvariant=\"normal\">a</mi></mrow></munderover><mi></mi></mrow></math>",
            MATH_OPEN
        )
    );
}

#[test]
fn nary_growth_flags_control_stretch() {
    let mut d = obj(MathObjectType::Nary, 3);
    d.char0 = Some('\u{2211}');
    d.align = Some(128);
    let markup = render_math(vec![
        start(d),
        sep(MathObjectType::Nary),
        sep(MathObjectType::Nary),
        end(MathObjectType::Nary),
    ])
    .unwrap();
    assert!(markup.contains("<mo stretchy=\"true\">\u{2211}</mo>"));
    let mut d2 = obj(MathObjectType::Nary, 3);
    d2.char0 = Some('\u{2211}');
    d2.align = Some(64);
    let markup2 = render_math(vec![
        start(d2),
        sep(MathObjectType::Nary),
        sep(MathObjectType::Nary),
        end(MathObjectType::Nary),
    ])
    .unwrap();
    assert!(markup2.contains("<mo stretchy=\"false\">\u{2211}</mo>"));
}

#[test]
fn box_display_wraps_content_in_order() {
    let mut d = obj(MathObjectType::BoxObject, 1);
    // binary spacing, script size, no-break
    d.align = Some(8 | 32 | 128);
    let markup =
        render_math(vec![start(d), text_pair("y"), end(MathObjectType::BoxObject)]).unwrap();
    assert_eq!(
        markup,
        format!(
            "{}<mrow linebreak=\"nobreak\"><mstyle scriptlevel=\"1\" displaystyle=\"false\"><mrow><mspace width=\"0.222em\"></mspace><mrow><mi mathvariant=\"normal\">y</mi></mrow><mspace width=\"0.222em\"></mspace></mrow></mstyle></mrow></math>",
            MATH_OPEN
        )
    );
}

#[test]
fn box_without_display_is_just_the_group() {
    let d = obj(MathObjectType::BoxObject, 1);
    let markup =
        render_math(vec![start(d), text_pair("y"), end(MathObjectType::BoxObject)]).unwrap();
    assert_eq!(
        markup,
        format!("{}<mrow><mi mathvariant=\"normal\">y</mi></mrow></math>", MATH_OPEN)
    );
}

#[test]
fn phantom_hides_or_smashes_content() {
    let mut d = obj(MathObjectType::Phantom, 1);
    d.char0 = Some('\u{27e1}');
    let markup =
        render_math(vec![start(d), text_pair("x"), end(MathObjectType::Phantom)]).unwrap();
    assert_eq!(
        markup,
        format!(
            "{}<mphantom><mrow><mi mathvariant=\"normal\">x</mi></mrow></mphantom></math>",
            MATH_OPEN
        )
    );
    let mut d2 = obj(MathObjectType::Phantom, 1);
    d2.char0 = Some('\u{2b06}');
    let markup2 =
        render_math(vec![start(d2), text_pair("x"), end(MathObjectType::Phantom)]).unwrap();
    assert_eq!(
        markup2,
        format!(
            "{}<mpadded height=\"0\"><mrow><mi mathvariant=\"normal\">x</mi></mrow></mpadded></math>",
            MATH_OPEN
        )
    );
}

#[test]
fn phantom_ignores_unknown_display_bits() {
    // a display byte with only unknown high bits set decodes to no flags
    let mut d = obj(MathObjectType::Phantom, 1);
    d.char0 = Some('\u{27e1}');
    d.align = Some(32);
    let markup =
        render_math(vec![start(d), text_pair("x"), end(MathObjectType::Phantom)]).unwrap();
    assert_eq!(
        markup,
        format!(
            "{}<mphantom><mrow><mi mathvariant=\"normal\">x</mi></mrow></mphantom></math>",
            MATH_OPEN
        )
    );
    // the recognized low bits still decode beside unknown high bits
    let mut d2 = obj(MathObjectType::Phantom, 1);
    d2.char0 = Some('\u{27e1}');
    d2.align = Some(32 | 1);
    let markup2 =
        render_math(vec![start(d2), text_pair("x"), end(MathObjectType::Phantom)]).unwrap();
    assert_eq!(
        markup2,
        format!("{}<mrow><mi mathvariant=\"normal\">x</mi></mrow></math>", MATH_OPEN)
    );
}

#[test]
fn slashed_fraction_linear_and_skewed() {
    let mut d = obj(MathObjectType::SlashedFraction, 2);
    d.char0 = Some('\u{2215}');
    let markup = render_math(vec![
        start(d),
        text_pair("1"),
        sep(MathObjectType::SlashedFraction),
        text_pair("2"),
        end(MathObjectType::SlashedFraction),
    ])
    .unwrap();
    assert_eq!(
        markup,
        format!(
            "{}<mrow><mn>1</mn></mrow><mo>\u{2044}</mo><mrow><mn>2</mn></mrow></math>",
            MATH_OPEN
        )
    );
    let d2 = obj(MathObjectType::SlashedFraction, 2);
    let markup2 = render_math(vec![
        start(d2),
        text_pair("1"),
        sep(MathObjectType::SlashedFraction),
        text_pair("2"),
        end(MathObjectType::SlashedFraction),
    ])
    .unwrap();
    assert_eq!(
        markup2,
        format!(
            "{}<mrow><msup><mrow/><mstyle scriptlevel=\"1\" displaystyle=\"false\"><mrow><mn>1</mn></mrow></mstyle></msup><mo>\u{2044}</mo><msub><mrow/><mstyle scriptlevel=\"1\" displaystyle=\"false\"><mrow><mn>2</mn></mrow></mstyle></msub></mrow></math>",
            MATH_OPEN
        )
    );
}

#[test]
fn stretch_stack_places_mark_by_position() {
    let mut d = obj(MathObjectType::StretchStack, 1);
    d.char0 = Some('\u{2192}');
    d.align = Some(1);
    let markup =
        render_math(vec![start(d), text_pair("v"), end(MathObjectType::StretchStack)]).unwrap();
    assert_eq!(
        markup,
        format!(
            "{}<mover accent=\"true\"><mrow><mi mathvariant=\"normal\">v</mi></mrow><mo>\u{2192}</mo></mover></math>",
            MATH_OPEN
        )
    );
    let mut d2 = obj(MathObjectType::StretchStack, 1);
    d2.char0 = Some('\u{2192}');
    // absent alignment means position zero: the mark below
    let markup2 =
        render_math(vec![start(d2), text_pair("v"), end(MathObjectType::StretchStack)]).unwrap();
    assert!(markup2.contains("<munder accent=\"true\">"));
}

#[test]
fn stretch_stack_with_unknown_position_fails() {
    let mut d = obj(MathObjectType::StretchStack, 1);
    d.char0 = Some('\u{2192}');
    d.align = Some(9);
    let result = render_math(vec![start(d), text_pair("v"), end(MathObjectType::StretchStack)]);
    assert_eq!(result, Err(MathError::InvalidValue));
}

#[test]
fn equation_array_replaces_ampersands_with_alignment_marks() {
    let mut d = obj(MathObjectType::EquationArray, 2);
    d.column = Some(1);
    let markup = render_math(vec![
        start(d),
        text_pair("a&b"),
        sep(MathObjectType::EquationArray),
        text_pair("c"),
        end(MathObjectType::EquationArray),
    ])
    .unwrap();
    assert_eq!(
        markup,
        format!(
            "{}<mtable><mtr><mtd><mrow><mi mathvariant=\"normal\">a</mi><malignmark edge=\"left\"></malignmark><mi mathvariant=\"normal\">b</mi></mrow></mtd></mtr><mtr><mtd><mrow><mi mathvariant=\"normal\">c</mi></mrow></mtd></mtr></mtable></math>",
            MATH_OPEN
        )
    );
}

#[test]
fn equation_array_without_columns_fails() {
    let d = obj(MathObjectType::EquationArray, 1);
    let result = render_math(vec![start(d), text_pair("a"), end(MathObjectType::EquationArray)]);
    assert_eq!(result, Err(MathError::MissingField));
}

#[test]
fn equation_array_with_unknown_alignment_fails() {
    let mut d = obj(MathObjectType::EquationArray, 1);
    d.column = Some(1);
    d.align = Some(5);
    let result = render_math(vec![start(d), text_pair("a"), end(MathObjectType::EquationArray)]);
    assert_eq!(result, Err(MathError::InvalidValue));
}

#[test]
fn left_sub_sup_renders_prescripts_with_none_for_empty() {
    let d = obj(MathObjectType::LeftSubSup, 3);
    let markup = render_math(vec![
        start(d),
        text_pair("1"),
        sep(MathObjectType::LeftSubSup),
        sep(MathObjectType::LeftSubSup),
        text_pair("x"),
        end(MathObjectType::LeftSubSup),
    ])
    .unwrap();
    assert_eq!(
        markup,
        format!(
            "{}<mmultiscripts><mrow><mi mathvariant=\"normal\">x</mi></mrow><none/><none/><mprescripts/><mrow><mn>1</mn></mrow><none/></mmultiscripts></math>",
            MATH_OPEN
        )
    );
}

#[test]
fn function_apply_joins_with_invisible_operator() {
    let d = obj(MathObjectType::FunctionApply, 2);
    let markup = render_math(vec![
        start(d),
        text_pair("f"),
        sep(MathObjectType::FunctionApply),
        text_pair("x"),
        end(MathObjectType::FunctionApply),
    ])
    .unwrap();
    assert_eq!(
        markup,
        format!(
            "{}<mrow><mi mathvariant=\"normal\">f</mi></mrow><mo>\u{2061}</mo><mrow><mi mathvariant=\"normal\">x</mi></mrow></math>",
            MATH_OPEN
        )
    );
}

#[test]
fn op_char_becomes_its_literal_text() {
    let mut d = obj(MathObjectType::OpChar, 0);
    d.char0 = Some('\u{2254}');
    let markup = render_math(vec![start(d), end(MathObjectType::OpChar)]).unwrap();
    assert_eq!(markup, format!("{}<mo>\u{2254}</mo></math>", MATH_OPEN));
}

#[test]
fn stack_and_limits_lower_to_tables_and_stacks() {
    let d = obj(MathObjectType::Stack, 2);
    let markup = render_math(vec![
        start(d),
        text_pair("1"),
        sep(MathObjectType::Stack),
        text_pair("2"),
        end(MathObjectType::Stack),
    ])
    .unwrap();
    assert_eq!(
        markup,
        format!(
            "{}<mtable><mtr><mtd><mrow><mn>1</mn></mrow></mtd></mtr><mtr><mtd><mrow><mn>2</mn></mrow></mtd></mtr></mtable></math>",
            MATH_OPEN
        )
    );
    let d2 = obj(MathObjectType::LowerLimit, 2);
    let markup2 = render_math(vec![
        start(d2),
        text_pair("x"),
        sep(MathObjectType::LowerLimit),
        text_pair("0"),
        end(MathObjectType::LowerLimit),
    ])
    .unwrap();
    assert_eq!(
        markup2,
        format!(
            "{}<munder><mrow><mi mathvariant=\"normal\">x</mi></mrow><mrow><mn>0</mn></mrow></munder></math>",
            MATH_OPEN
        )
    );
    let d3 = obj(MathObjectType::UpperLimit, 2);
    let markup3 = render_math(vec![
        start(d3),
        text_pair("x"),
        sep(MathObjectType::UpperLimit),
        text_pair("9"),
        end(MathObjectType::UpperLimit),
    ])
    .unwrap();
    assert_eq!(
        markup3,
        format!(
            "{}<mover><mrow><mi mathvariant=\"normal\">x</mi></mrow><mrow><mn>9</mn></mrow></mover></math>",
            MATH_OPEN
        )
    );
}

#[test]
fn bars_boxes_and_scripts_lower_to_their_elements() {
    let d = obj(MathObjectType::Underbar, 1);
    let markup = render_math(vec![start(d), text_pair("x"), end(MathObjectType::Underbar)])
        .unwrap();
    assert_eq!(
        markup,
        format!(
            "{}<munder accentunder=\"true\"><mrow><mi mathvariant=\"normal\">x</mi></mrow><mo>_</mo></munder></math>",
            MATH_OPEN
        )
    );
    let d2 = obj(MathObjectType::BoxedFormula, 1);
    let markup2 = render_math(vec![start(d2), text_pair("x"), end(MathObjectType::BoxedFormula)])
        .unwrap();
    assert_eq!(
        markup2,
        format!(
            "{}<menclose notation=\"box\"><mrow><mi mathvariant=\"normal\">x</mi></mrow></menclose></math>",
            MATH_OPEN
        )
    );
    let d3 = obj(MathObjectType::Superscript, 2);
    let markup3 = render_math(vec![
        start(d3),
        text_pair("x"),
        sep(MathObjectType::Superscript),
        text_pair("2"),
        end(MathObjectType::Superscript),
    ])
    .unwrap();
    assert_eq!(
        markup3,
        format!(
            "{}<msup><mrow><mi mathvariant=\"normal\">x</mi></mrow><mrow><mn>2</mn></mrow></msup></math>",
            MATH_OPEN
        )
    );
}

#[test]
fn nested_constructs_parse_and_lower() {
    // a fraction whose numerator is a superscript: x^2 over 3
    let sup = obj(MathObjectType::Superscript, 2);
    let frac = obj(MathObjectType::Fraction, 2);
    let markup = render_math(vec![
        start(frac),
        start(sup),
        text_pair("x"),
        sep(MathObjectType::Superscript),
        text_pair("2"),
        end(MathObjectType::Superscript),
        sep(MathObjectType::Fraction),
        text_pair("3"),
        end(MathObjectType::Fraction),
    ])
    .unwrap();
    assert_eq!(
        markup,
        format!(
            "{}<mfrac><msup><mrow><mi mathvariant=\"normal\">x</mi></mrow><mrow><mn>2</mn></mrow></msup><mrow><mn>3</mn></mrow></mfrac></math>",
            MATH_OPEN
        )
    );
}

#[test]
fn mixed_text_and_construct_at_top_level() {
    let sup = obj(MathObjectType::Superscript, 2);
    let markup = render_math(vec![
        text_pair("y="),
        start(sup),
        text_pair("x"),
        sep(MathObjectType::Superscript),
        text_pair("2"),
        end(MathObjectType::Superscript),
    ])
    .unwrap();
    assert_eq!(
        markup,
        format!(
            "{}<mi mathvariant=\"normal\">y</mi><mo>=</mo><msup><mrow><mi mathvariant=\"normal\">x</mi></mrow><mrow><mn>2</mn></mrow></msup></math>",
            MATH_OPEN
        )
    );
}

#[test]
fn empty_stream_renders_an_empty_equation() {
    assert_eq!(render_math(vec![]).unwrap(), format!("{}</math>", MATH_OPEN));
}

#[test]
fn render_equation_wraps_a_prebuilt_tree() {
    let eq = vec![MathOp::Fraction {
        num: vec![MathOp::Text("1".to_string())],
        den: vec![MathOp::Text("2".to_string())],
        small: false,
    }];
    assert_eq!(
        render_equation(&eq),
        format!(
            "{}<mfrac><mrow><mn>1</mn></mrow><mrow><mn>2</mn></mrow></mfrac></math>",
            MATH_OPEN
        )
    );
}

#[test]
fn page_filenames_get_fresh_counter_suffixes() {
    let mut renderer = Renderer::new();
    assert_eq!(renderer.determine_page_filename("Page"), "Page");
    assert_eq!(renderer.determine_page_filename("Page"), "Page_1");
    assert_eq!(renderer.determine_page_filename("Page"), "Page_2");
    assert_eq!(renderer.determine_page_filename("Other"), "Other");
    assert_eq!(renderer.determine_page_filename("Page"), "Page_3");
}

#[test]
fn error_descriptions_name_the_failure() {
    assert_eq!(
        MathError::ArityMismatch.describe(),
        "unexpected argument count for the math object type"
    );
    assert_eq!(
        MathError::UnexpectedToken.describe(),
        "unexpected math token for the grammar rule in progress"
    );
}
