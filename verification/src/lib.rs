//! Renders the inline-math subsystem of a word-processor document model as
//! MathML markup.
//!
//! A paragraph's inline math arrives as a flat, sentinel-delimited stream of
//! `(text fragment, descriptor)` pairs.  The [`lexer`] recovers start /
//! separator / end structure from the sentinels, the [`parser`] builds a typed
//! equation tree from the token stream, validating arity and field contracts
//! per construct, and the [`render`] module lowers the tree bottom-up into a
//! MathML fragment, classifying literal text runs with the [`text`] module.
use vstd::prelude::*;

pub mod ast;
pub mod attrs;
pub mod error;
pub mod laws;
pub mod lexer;
pub mod notebook;
pub mod parser;
pub mod render;
pub mod rich_text;
pub mod section;
pub mod table;
pub mod text;
mod utils;

use crate::ast::MathObject;
use crate::error::MathError;
use crate::lexer::lex_tokens;
use crate::lexer::queue_view;
use crate::parser::Parser;
use crate::parser::sp_equation;
use crate::render::render_equation;
use crate::render::spec_render_equation;

verus! {

/// Renders one run of inline content as a MathML fragment: the pairs are
/// tokenized, the token stream is parsed into an equation tree, and the tree
/// is lowered to markup.  Returns the markup, or the parse error that ended
/// the equation.
pub fn render_math(segments: Vec<(String, MathObject)>) -> (r: Result<String, MathError>)
    ensures
        match r {
            Ok(markup) => sp_equation(lex_tokens(queue_view(segments@))) matches Ok(eq)
                && markup@ == spec_render_equation(eq),
            Err(e) => sp_equation(lex_tokens(queue_view(segments@))) == Err::<
                Seq<crate::ast::EqNode>,
                MathError,
            >(e),
        },
{
    let mut parser = match Parser::new(segments) {
        Ok(p) => p,
        Err(e) => {
            return Err(e);
        },
    };
    let equation = match parser.parse() {
        Ok(eq) => eq,
        Err(e) => {
            return Err(e);
        },
    };
    let markup = render_equation(&equation);
    Ok(markup)
}

} // verus!
