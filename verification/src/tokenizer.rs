//! Lexical analysis: turns raw source text into a flat sequence of tokens.
//!
//! The surface form pads every `(` on its right and every `)` on its left
//! with whitespace and then splits on whitespace runs; each resulting word
//! is classified against the fixed symbol table, lowercase-only words
//! becoming identifiers.  `spec_tokenize` states that process as a single
//! left-to-right scan, and `tokenize` is proved to follow it exactly.

use vstd::prelude::*;
use vstd::string::StrSliceExecFns;
use vstd::string::StringExecFns;

use crate::text::{char_is_lower, char_is_space, is_lower, is_space};

verus! {

/// A lexical unit of the source language.
#[derive(Debug, PartialEq, Eq)]
pub enum Token {
    Lparen,
    Rparen,
    And,
    Or,
    Not,
    True,
    False,
    If,
    Def,
    Lambda,
    Ident(String),
}

/// The mathematical model of a token: identical to `Token` except that an
/// identifier carries its name as a sequence of characters.
pub enum TokenV {
    Lparen,
    Rparen,
    And,
    Or,
    Not,
    True,
    False,
    If,
    Def,
    Lambda,
    Ident(Seq<char>),
}

impl View for Token {
    type V = TokenV;

    open spec fn view(&self) -> TokenV {
        match self {
            Token::Lparen => TokenV::Lparen,
            Token::Rparen => TokenV::Rparen,
            Token::And => TokenV::And,
            Token::Or => TokenV::Or,
            Token::Not => TokenV::Not,
            Token::True => TokenV::True,
            Token::False => TokenV::False,
            Token::If => TokenV::If,
            Token::Def => TokenV::Def,
            Token::Lambda => TokenV::Lambda,
            Token::Ident(name) => TokenV::Ident(name@),
        }
    }
}

impl DeepView for Token {
    type V = TokenV;

    open spec fn deep_view(&self) -> TokenV {
        self.view()
    }
}

/// Tokenization failure: the first unrecognized word, verbatim, inside the
/// message.
#[derive(Debug)]
pub enum TokenizeErr {
    Parse(String),
}

/// The message reported for an unrecognized word.
pub open spec fn invalid_token_msg(word: Seq<char>) -> Seq<char> {
    "Invalid token `"@ + word + "`"@
}

/// Classification of one whitespace-delimited word of the source text.
pub open spec fn spec_classify(w: Seq<char>) -> Option<TokenV> {
    if w == seq!['('] {
        Some(TokenV::Lparen)
    } else if w == seq![')'] {
        Some(TokenV::Rparen)
    } else if w == seq!['&'] {
        Some(TokenV::And)
    } else if w == seq!['|'] {
        Some(TokenV::Or)
    } else if w == seq!['^'] {
        Some(TokenV::Not)
    } else if w == seq!['T'] {
        Some(TokenV::True)
    } else if w == seq!['F'] {
        Some(TokenV::False)
    } else if w == seq!['i', 'f'] {
        Some(TokenV::If)
    } else if w == seq!['d', 'e', 'f'] {
        Some(TokenV::Def)
    } else if w == seq!['l', 'a', 'm', 'b', 'd', 'a'] {
        Some(TokenV::Lambda)
    } else if forall|j: int| 0 <= j < w.len() ==> char_is_lower(w[j]) {
        Some(TokenV::Ident(w))
    } else {
        None
    }
}

/// One pass over the remaining text `s` with the partially read word `w`.
///
/// A word ends at whitespace, just before a `)` and just after a `(`; the
/// ended word is classified, and an unrecognized word aborts the whole scan.
pub open spec fn spec_scan(s: Seq<char>, w: Seq<char>) -> Result<Seq<TokenV>, Seq<char>>
    decreases s.len(),
{
    if s.len() == 0 {
        if w.len() == 0 {
            Ok(Seq::empty())
        } else {
            match spec_classify(w) {
                Some(t) => Ok(seq![t]),
                None => Err(w),
            }
        }
    } else {
        let c = s[0];
        if w.len() == 0 {
            if char_is_space(c) {
                spec_scan(s.drop_first(), Seq::empty())
            } else {
                spec_scan(s.drop_first(), seq![c])
            }
        } else if char_is_space(c) {
            match spec_classify(w) {
                Some(t) => match spec_scan(s.drop_first(), Seq::empty()) {
                    Ok(ts) => Ok(seq![t] + ts),
                    Err(bad) => Err(bad),
                },
                None => Err(w),
            }
        } else if c == ')' || w.last() == '(' {
            match spec_classify(w) {
                Some(t) => match spec_scan(s.drop_first(), seq![c]) {
                    Ok(ts) => Ok(seq![t] + ts),
                    Err(bad) => Err(bad),
                },
                None => Err(w),
            }
        } else {
            spec_scan(s.drop_first(), w.push(c))
        }
    }
}

/// The token sequence of a whole source text, or the first bad word.
pub open spec fn spec_tokenize(s: Seq<char>) -> Result<Seq<TokenV>, Seq<char>> {
    spec_scan(s, Seq::empty())
}

/// The surface text of a token, an identifier shown between backticks.
pub open spec fn spec_print_token(t: TokenV) -> Seq<char> {
    match t {
        TokenV::Lparen => seq!['('],
        TokenV::Rparen => seq![')'],
        TokenV::And => seq!['&'],
        TokenV::Or => seq!['|'],
        TokenV::Not => seq!['^'],
        TokenV::True => seq!['T'],
        TokenV::False => seq!['F'],
        TokenV::If => seq!['i', 'f'],
        TokenV::Def => seq!['d', 'e', 'f'],
        TokenV::Lambda => seq!['l', 'a', 'm', 'b', 'd', 'a'],
        TokenV::Ident(name) => seq!['`'] + name + seq!['`'],
    }
}

impl Token {
    /// Renders the token as `spec_print_token` prescribes.
    pub fn to_string(&self) -> (r: String)
        ensures
            r@ == spec_print_token(self@),
    {
        proof {
            reveal_strlit("(");
            reveal_strlit(")");
            reveal_strlit("&");
            reveal_strlit("|");
            reveal_strlit("^");
            reveal_strlit("T");
            reveal_strlit("F");
            reveal_strlit("if");
            reveal_strlit("def");
            reveal_strlit("lambda");
            reveal_strlit("`");
        }
        let r = match self {
            Token::Lparen => "(".to_owned(),
            Token::Rparen => ")".to_owned(),
            Token::And => "&".to_owned(),
            Token::Or => "|".to_owned(),
            Token::Not => "^".to_owned(),
            Token::True => "T".to_owned(),
            Token::False => "F".to_owned(),
            Token::If => "if".to_owned(),
            Token::Def => "def".to_owned(),
            Token::Lambda => "lambda".to_owned(),
            Token::Ident(name) => {
                let mut m = "`".to_owned();
                m.append(name.as_str());
                m.append("`");
                m
            },
        };
        proof {
            assert(r@ =~= spec_print_token(self@));
        }
        r
    }
}

impl Token {
    /// Classifies one word, exactly as `spec_classify` does; an unrecognized
    /// word yields the error message `invalid_token_msg` prescribes.
    fn parse(word: &str) -> (r: Result<Token, TokenizeErr>)
        ensures
            match r {
                Ok(t) => spec_classify(word@) == Some(t@),
                Err(TokenizeErr::Parse(m)) => spec_classify(word@) is None && m@
                    == invalid_token_msg(word@),
            },
    {
        let n = word.unicode_len();
        if n == 1 {
            let c = word.get_char(0);
            proof {
                assert(word@ =~= seq![c]);
            }
            if c == '(' {
                return Ok(Token::Lparen);
            }
            if c == ')' {
                return Ok(Token::Rparen);
            }
            if c == '&' {
                return Ok(Token::And);
            }
            if c == '|' {
                return Ok(Token::Or);
            }
            if c == '^' {
                return Ok(Token::Not);
            }
            if c == 'T' {
                return Ok(Token::True);
            }
            if c == 'F' {
                return Ok(Token::False);
            }
        } else if n == 2 {
            if word.get_char(0) == 'i' && word.get_char(1) == 'f' {
                proof {
                    assert(word@ =~= seq!['i', 'f']);
                }
                return Ok(Token::If);
            }
        } else if n == 3 {
            if word.get_char(0) == 'd' && word.get_char(1) == 'e' && word.get_char(2) == 'f' {
                proof {
                    assert(word@ =~= seq!['d', 'e', 'f']);
                }
                return Ok(Token::Def);
            }
        } else if n == 6 {
            if word.get_char(0) == 'l' && word.get_char(1) == 'a' && word.get_char(2) == 'm'
                && word.get_char(3) == 'b' && word.get_char(4) == 'd' && word.get_char(5) == 'a' {
                proof {
                    assert(word@ =~= seq!['l', 'a', 'm', 'b', 'd', 'a']);
                }
                return Ok(Token::Lambda);
            }
        }
        let mut i: usize = 0;
        #[verifier::loop_isolation(false)]
        while i < n
            invariant
                i <= n,
                forall|j: int| 0 <= j < i ==> char_is_lower(word@[j]),
            decreases n - i,
        {
            let c = word.get_char(i);
            if !is_lower(c) {
                let mut m = "Invalid token `".to_owned();
                m.append(word);
                m.append("`");
                return Err(TokenizeErr::Parse(m));
            }
            i = i + 1;
        }
        Ok(Token::Ident(word.to_owned()))
    }
}

/// Splits the source text into tokens, left to right, reporting the first
/// unrecognized word verbatim; nothing is produced on error.
pub fn tokenize(expr: &str) -> (r: Result<Vec<Token>, TokenizeErr>)
    ensures
        match r {
            Ok(toks) => spec_tokenize(expr@) == Ok::<Seq<TokenV>, Seq<char>>(toks.deep_view()),
            Err(TokenizeErr::Parse(m)) => match spec_tokenize(expr@) {
                Ok(_) => false,
                Err(bad) => m@ == invalid_token_msg(bad),
            },
        },
{
    let n = expr.unicode_len();
    let mut toks: Vec<Token> = Vec::new();
    let mut i: usize = 0;
    let mut ws: usize = 0;
    proof {
        assert(expr@.skip(0) =~= expr@);
        assert(expr@.subrange(0, 0) =~= Seq::<char>::empty());
        assert(toks.deep_view() =~= Seq::<TokenV>::empty());
        match spec_tokenize(expr@) {
            Ok(ts) => {
                assert(toks.deep_view() + ts =~= ts);
            },
            Err(_) => {},
        }
    }
    #[verifier::loop_isolation(false)]
    while i < n
        invariant
            i <= n,
            ws <= i,
            spec_tokenize(expr@) == (match spec_scan(
                expr@.skip(i as int),
                expr@.subrange(ws as int, i as int),
            ) {
                Ok(ts) => Ok::<Seq<TokenV>, Seq<char>>(toks.deep_view() + ts),
                Err(bad) => Err::<Seq<TokenV>, Seq<char>>(bad),
            }),
        decreases n - i,
    {
        let c = expr.get_char(i);
        proof {
            assert(expr@.skip(i as int).drop_first() =~= expr@.skip(i + 1 as int));
            assert(expr@.skip(i as int)[0] == expr@[i as int]);
            assert(expr@.subrange(i + 1 as int, i + 1 as int) =~= Seq::<char>::empty());
        }
        if ws == i {
            proof {
                assert(expr@.subrange(ws as int, i as int) =~= Seq::<char>::empty());
                assert(expr@.subrange(i as int, i + 1 as int) =~= seq![c]);
            }
            if is_space(c) {
                ws = i + 1;
            }
            i = i + 1;
        } else {
            let word_done = if is_space(c) {
                true
            } else if c == ')' {
                true
            } else {
                expr.get_char(i - 1) == '('
            };
            proof {
                assert(expr@.subrange(ws as int, i as int).len() > 0);
                assert(expr@.subrange(ws as int, i as int).last() == expr@[i - 1 as int]);
            }
            if word_done {
                let word = expr.substring_char(ws, i);
                match Token::parse(word) {
                    Ok(t) => {
                        let ghost next_word: Seq<char> = if char_is_space(c) {
                            Seq::empty()
                        } else {
                            seq![c]
                        };
                        let ghost old_toks = toks.deep_view();
                        toks.push(t);
                        proof {
                            assert(expr@.subrange(i as int, i + 1 as int) =~= seq![c]);
                            assert(toks.deep_view() =~= old_toks.push(t@));
                            match spec_scan(expr@.skip(i + 1 as int), next_word) {
                                Ok(ts) => {
                                    assert(old_toks + (seq![t@] + ts) =~= toks.deep_view() + ts);
                                },
                                Err(_) => {},
                            }
                        }
                        if is_space(c) {
                            ws = i + 1;
                        } else {
                            ws = i;
                        }
                        i = i + 1;
                    },
                    Err(e) => {
                        return Err(e);
                    },
                }
            } else {
                proof {
                    assert(expr@.subrange(ws as int, i as int).push(expr@[i as int])
                        =~= expr@.subrange(ws as int, i + 1 as int));
                }
                i = i + 1;
            }
        }
    }
    proof {
        assert(expr@.skip(i as int) =~= Seq::<char>::empty());
    }
    if ws < i {
        let word = expr.substring_char(ws, n);
        let ghost old_toks = toks.deep_view();
        match Token::parse(word) {
            Ok(t) => {
                toks.push(t);
                proof {
                    assert(toks.deep_view() =~= old_toks.push(t@));
                    assert(old_toks + seq![t@] =~= toks.deep_view());
                }
                Ok(toks)
            },
            Err(e) => Err(e),
        }
    } else {
        proof {
            assert(expr@.subrange(ws as int, i as int) =~= Seq::<char>::empty());
            assert(toks.deep_view() + Seq::<TokenV>::empty() =~= toks.deep_view());
        }
        Ok(toks)
    }
}

} // verus!
