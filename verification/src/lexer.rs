//! The tokenizer: recovers start / separator / end structure from a flat
//! stream of `(text fragment, descriptor)` pairs, using three reserved
//! sentinel code points that ordinary text never contains.
use vstd::prelude::*;
use vstd::string::StrSliceExecFns;
use vstd::string::StringExecFns;
use std::collections::VecDeque;

use crate::ast::MathObject;
use crate::ast::MathObjectType;
use crate::error::MathError;
use crate::utils::push_char;

verus! {

/// The sentinel code point that opens a math object's span.
pub const TOK_START: char = '\u{fdd0}';

/// The sentinel code point that separates a math object's arguments.
pub const TOK_SEP: char = '\u{fdee}';

/// The sentinel code point that closes a math object's span.
pub const TOK_END: char = '\u{fdef}';

/// One token of the math object grammar.
#[derive(Debug)]
pub enum Token {
    /// A literal text run.
    Text(String),
    /// The start of a math object's span, carrying its descriptor.
    Start(MathObject),
    /// A separator between two arguments of a math object.
    Sep(MathObjectType),
    /// The end of a math object's span.
    End(MathObjectType),
    /// The end of the stream; emitted forever once the queue is exhausted.
    Eof,
}

/// The mathematical model of one token.  The tokenizer never emits
/// `TokenV::Eof`: in the model, a stream simply ends.
pub enum TokenV {
    Text(Seq<char>),
    Start(MathObject),
    Sep(MathObjectType),
    End(MathObjectType),
    Eof,
}

impl View for Token {
    type V = TokenV;

    open spec fn view(&self) -> TokenV {
        match self {
            Token::Text(s) => TokenV::Text(s@),
            Token::Start(d) => TokenV::Start(*d),
            Token::Sep(t) => TokenV::Sep(*t),
            Token::End(t) => TokenV::End(*t),
            Token::Eof => TokenV::Eof,
        }
    }
}

/// The model of one queued pair: its text as a character sequence, with its
/// descriptor.
pub open spec fn pair_view(p: (String, MathObject)) -> (Seq<char>, MathObject) {
    (p.0@, p.1)
}

/// The model of a queue of pairs.
pub open spec fn queue_view(q: Seq<(String, MathObject)>) -> Seq<(Seq<char>, MathObject)> {
    q.map_values(|p: (String, MathObject)| pair_view(p))
}

/// One step of the tokenizer on a non-empty queue: the token it emits, and
/// the queue that remains.  A pair whose text is exactly one sentinel becomes
/// that sentinel's token; text beginning with the start sentinel is split
/// after the sentinel, the remainder re-enqueued with the same descriptor;
/// text ending with the separator or end sentinel is split before the
/// sentinel, which is re-enqueued; any other text is a literal text token.
pub open spec fn lex_step(q: Seq<(Seq<char>, MathObject)>) -> (TokenV, Seq<(Seq<char>, MathObject)>)
    recommends
        q.len() > 0,
{
    let t = q[0].0;
    let d = q[0].1;
    if t.len() == 1 && t[0] == TOK_START {
        (TokenV::Start(d), q.drop_first())
    } else if t.len() == 1 && t[0] == TOK_SEP {
        (TokenV::Sep(d.object_type), q.drop_first())
    } else if t.len() == 1 && t[0] == TOK_END {
        (TokenV::End(d.object_type), q.drop_first())
    } else if t.len() >= 2 && t[0] == TOK_START {
        (TokenV::Start(d), seq![(t.drop_first(), d)] + q.drop_first())
    } else if t.len() >= 2 && t[t.len() - 1] == TOK_SEP {
        (TokenV::Text(t.drop_last()), seq![(seq![TOK_SEP], d)] + q.drop_first())
    } else if t.len() >= 2 && t[t.len() - 1] == TOK_END {
        (TokenV::Text(t.drop_last()), seq![(seq![TOK_END], d)] + q.drop_first())
    } else {
        (TokenV::Text(t), q.drop_first())
    }
}

/// The text length of the queue's front pair; zero on an empty queue.
pub open spec fn head_text_len(q: Seq<(Seq<char>, MathObject)>) -> nat {
    if q.len() > 0 {
        q[0].0.len()
    } else {
        0
    }
}

/// The whole token stream the tokenizer derives from a queue of pairs.
pub open spec fn lex_tokens(q: Seq<(Seq<char>, MathObject)>) -> Seq<TokenV>
    decreases q.len(), head_text_len(q),
{
    if q.len() == 0 {
        Seq::empty()
    } else {
        let (tok, rest) = lex_step(q);
        seq![tok] + lex_tokens(rest)
    }
}

/// The tokenizer: a queue of `(text fragment, descriptor)` pairs, consumed
/// from the front, with split remainders re-enqueued.
pub struct Lexer {
    queue: VecDeque<(String, MathObject)>,
}

impl View for Lexer {
    type V = Seq<(Seq<char>, MathObject)>;

    closed spec fn view(&self) -> Seq<(Seq<char>, MathObject)> {
        queue_view(self.queue@)
    }
}

impl Lexer {
    /// Builds a tokenizer over the given pairs, in order.
    pub fn new(tokens: Vec<(String, MathObject)>) -> (r: Lexer)
        ensures
            r@ == queue_view(tokens@),
    {
        let mut queue: VecDeque<(String, MathObject)> = VecDeque::new();
        let mut i: usize = 0;
        while i < tokens.len()
            invariant
                0 <= i <= tokens@.len(),
                queue@ == tokens@.subrange(0, i as int),
            decreases tokens@.len() - i,
        {
            let pair = (tokens[i].0.clone(), tokens[i].1);
            queue.push_back(pair);
            proof {
                assert(queue@ =~= tokens@.subrange(0, i + 1 as int));
            }
            i = i + 1;
        }
        proof {
            assert(queue@ =~= tokens@);
        }
        Lexer { queue }
    }

    /// Pops the front pair and classifies it; emits `Eof` forever once the
    /// queue is empty.  Typed fallible for its callers, but never fails.
    pub fn next(&mut self) -> (r: Result<Token, MathError>)
        ensures
            r is Ok,
            old(self)@.len() == 0 ==> (r matches Ok(t) && t is Eof) && final(self)@ == old(self)@,
            old(self)@.len() > 0 ==> (r matches Ok(t) && !(t is Eof) && t@ == lex_step(
                old(self)@,
            ).0) && final(self)@ == lex_step(old(self)@).1,
    {
        let front = self.queue.pop_front();
        let (text, object) = match front {
            Some(pair) => pair,
            None => {
                return Ok(Token::Eof);
            },
        };
        proof {
            assert(old(self)@.len() > 0);
            assert(old(self)@[0] == pair_view((text, object)));
            assert(self@ =~= old(self)@.drop_first());
        }
        let n = text.as_str().unicode_len();
        if n == 1 {
            let c = text.as_str().get_char(0);
            proof {
                if c == TOK_START {
                    assert(text@ =~= seq![TOK_START]);
                } else if c == TOK_SEP {
                    assert(text@ =~= seq![TOK_SEP]);
                } else if c == TOK_END {
                    assert(text@ =~= seq![TOK_END]);
                }
            }
            if c == TOK_START {
                Ok(Token::Start(object))
            } else if c == TOK_SEP {
                Ok(Token::Sep(object.object_type))
            } else if c == TOK_END {
                Ok(Token::End(object.object_type))
            } else {
                Ok(Token::Text(text))
            }
        } else if n >= 2 {
            let first = text.as_str().get_char(0);
            if first == TOK_START {
                let remainder = text.as_str().substring_char(1, n);
                self.queue.push_front((String::from_str(remainder), object));
                proof {
                    assert(text@.drop_first() =~= text@.subrange(1, text@.len() as int));
                    assert(self@ =~= lex_step(old(self)@).1);
                }
                Ok(Token::Start(object))
            } else {
                let last = text.as_str().get_char(n - 1);
                if last == TOK_SEP {
                    let content = text.as_str().substring_char(0, n - 1);
                    let mut marker = String::new();
                    push_char(&mut marker, TOK_SEP);
                    self.queue.push_front((marker, object));
                    proof {
                        assert(marker@ =~= seq![TOK_SEP]);
                        assert(text@.drop_last() =~= text@.subrange(0, text@.len() - 1));
                        assert(self@ =~= lex_step(old(self)@).1);
                    }
                    Ok(Token::Text(String::from_str(content)))
                } else if last == TOK_END {
                    let content = text.as_str().substring_char(0, n - 1);
                    let mut marker = String::new();
                    push_char(&mut marker, TOK_END);
                    self.queue.push_front((marker, object));
                    proof {
                        assert(marker@ =~= seq![TOK_END]);
                        assert(text@.drop_last() =~= text@.subrange(0, text@.len() - 1));
                        assert(self@ =~= lex_step(old(self)@).1);
                    }
                    Ok(Token::Text(String::from_str(content)))
                } else {
                    Ok(Token::Text(text))
                }
            }
        } else {
            Ok(Token::Text(text))
        }
    }
}

} // verus!
