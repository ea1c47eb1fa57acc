//! The tokenizer: character-class scanning of source text into the flat
//! token sequence the parser consumes.
//!
//! Scanning tries three shapes at each position, in order: a word (a
//! maximal run of letters, digits and underscores, yielding a keyword, an
//! integer literal or an identifier), a two-character compound operator,
//! and a single character (whitespace, punctuation or a one-character
//! operator). A character that fits none of these is a lex error, as is
//! an integer literal that does not fit the literal token's 32-bit
//! payload.
//!
//! The language's alphabet is ASCII: the word, whitespace and operator
//! classes contain only ASCII characters, so any character outside ASCII
//! fits no class and is a lex error.

use vstd::prelude::*;
use vstd::string::StrSliceExecFns;
use vstd::string::StringExecFns;

use crate::error::CompilerStage;
use crate::error::SyntaxError;
use crate::numeral::digit_value;
use crate::numeral::digits_value;
use crate::numeral::is_digit;
use crate::token::Token;
use crate::token::TokenModel;
use crate::token::keyword_spec;

verus! {

/// Whether a character can appear in a word: a letter, a digit, or an
/// underscore.
pub open spec fn is_word_char(c: char) -> bool {
    ('a' as int <= c as int <= 'z' as int) || ('A' as int <= c as int <= 'Z' as int) || is_digit(
        c,
    ) || c == '_'
}

/// Whether a character is whitespace.
pub open spec fn is_space_char(c: char) -> bool {
    c == ' ' || c == '\t' || c == '\n' || c == '\r' || c as int == 11 || c as int == 12
}

/// The length of the run of word characters starting at `i`.
pub open spec fn word_run_from(s: Seq<char>, i: int) -> nat
    decreases s.len() - i,
{
    if i < 0 || i >= s.len() || !is_word_char(s[i]) {
        0
    } else {
        1 + word_run_from(s, i + 1)
    }
}

/// The length of the run of digit characters starting at `i`.
pub open spec fn digit_run_from(s: Seq<char>, i: int) -> nat
    decreases s.len() - i,
{
    if i < 0 || i >= s.len() || !is_digit(s[i]) {
        0
    } else {
        1 + digit_run_from(s, i + 1)
    }
}

/// The token a whole word denotes: a keyword, an integer literal read
/// from the word's leading digit run, or an identifier. A word starting
/// with a digit run whose value exceeds the literal payload's width is a
/// lex error.
pub open spec fn word_token(word: Seq<char>) -> Result<TokenModel, Seq<char>> {
    match keyword_spec(word) {
        Some(t) => Ok(t),
        None => {
            let d = digit_run_from(word, 0);
            if d > 0 {
                let v = digits_value(word.subrange(0, d as int));
                if v > i32::MAX {
                    Err("integer literal out of range"@)
                } else {
                    Ok(TokenModel::Integer(v))
                }
            } else {
                Ok(TokenModel::Identifier(word))
            }
        },
    }
}

/// The compound operator token a pair of characters spells, if any.
pub open spec fn compound_pair(a: char, b: char) -> Option<TokenModel> {
    if a == '&' && b == '&' {
        Some(TokenModel::And)
    } else if a == '|' && b == '|' {
        Some(TokenModel::Or)
    } else if a == '=' && b == '=' {
        Some(TokenModel::Equal)
    } else if a == '!' && b == '=' {
        Some(TokenModel::NotEqual)
    } else if a == '<' && b == '=' {
        Some(TokenModel::LessThanOrEqual)
    } else if a == '>' && b == '=' {
        Some(TokenModel::GreaterThanOrEqual)
    } else {
        None
    }
}

/// The compound operator token a two-character string spells, if any.
pub open spec fn compound_str(s: Seq<char>) -> Option<TokenModel> {
    if s.len() == 2 {
        compound_pair(s[0], s[1])
    } else {
        None
    }
}

/// The treatment of a single character: whitespace is skipped, a known
/// punctuation or operator character is a token, and anything else is a
/// lex error naming the character.
pub open spec fn simple_spec(c: char) -> Result<Option<TokenModel>, Seq<char>> {
    if is_space_char(c) {
        Ok(None)
    } else if c == '{' {
        Ok(Some(TokenModel::OpenBrace))
    } else if c == '}' {
        Ok(Some(TokenModel::CloseBrace))
    } else if c == '(' {
        Ok(Some(TokenModel::OpenParenthesis))
    } else if c == ')' {
        Ok(Some(TokenModel::CloseParenthesis))
    } else if c == ';' {
        Ok(Some(TokenModel::SemiColon))
    } else if c == '-' {
        Ok(Some(TokenModel::Negation))
    } else if c == '~' {
        Ok(Some(TokenModel::BitwiseComplement))
    } else if c == '!' {
        Ok(Some(TokenModel::LogicalNegation))
    } else if c == '+' {
        Ok(Some(TokenModel::Addition))
    } else if c == '*' {
        Ok(Some(TokenModel::Multiplication))
    } else if c == '/' {
        Ok(Some(TokenModel::Division))
    } else if c == '<' {
        Ok(Some(TokenModel::LessThan))
    } else if c == '>' {
        Ok(Some(TokenModel::GreaterThan))
    } else if c == '=' {
        Ok(Some(TokenModel::Assignment))
    } else {
        Err("unidentifiable character "@ + seq![c])
    }
}

/// The token models of the source text from position `i` on, or the
/// message of the first lex error. At each position a word is tried
/// first, then a compound operator, then a single character.
pub open spec fn lex_from(s: Seq<char>, i: int) -> Result<Seq<TokenModel>, Seq<char>>
    decreases s.len() - i,
    when 0 <= i
    via lex_from_dec
{
    if i >= s.len() {
        Ok(Seq::<TokenModel>::empty())
    } else {
        let w = word_run_from(s, i);
        if w > 0 {
            match word_token(s.subrange(i, i + w)) {
                Ok(tok) => match lex_from(s, i + w) {
                    Ok(rest) => Ok(seq![tok] + rest),
                    Err(m) => Err(m),
                },
                Err(m) => Err(m),
            }
        } else {
            match (if i + 2 <= s.len() {
                compound_pair(s[i], s[i + 1])
            } else {
                None
            }) {
                Some(tok) => match lex_from(s, i + 2) {
                    Ok(rest) => Ok(seq![tok] + rest),
                    Err(m) => Err(m),
                },
                None => match simple_spec(s[i]) {
                    Ok(None) => lex_from(s, i + 1),
                    Ok(Some(tok)) => match lex_from(s, i + 1) {
                        Ok(rest) => Ok(seq![tok] + rest),
                        Err(m) => Err(m),
                    },
                    Err(m) => Err(m),
                },
            }
        }
    }
}

#[via_fn]
proof fn lex_from_dec(s: Seq<char>, i: int) {
    lemma_word_run_facts(s, i);
}

/// The token models of a sequence of source lines, tokenized line by
/// line and concatenated; the first lex error aborts.
pub open spec fn lex_lines(ls: Seq<Seq<char>>, i: int) -> Result<Seq<TokenModel>, Seq<char>>
    decreases ls.len() - i,
{
    if i < 0 || i >= ls.len() {
        Ok(Seq::<TokenModel>::empty())
    } else {
        match lex_from(ls[i], 0) {
            Ok(ts) => match lex_lines(ls, i + 1) {
                Ok(rest) => Ok(ts + rest),
                Err(m) => Err(m),
            },
            Err(m) => Err(m),
        }
    }
}

/// The word run starting at `i` stays in bounds, consists of word
/// characters, and ends at the first non-word character.
proof fn lemma_word_run_facts(s: Seq<char>, i: int)
    requires
        0 <= i,
    ensures
        i <= s.len() ==> word_run_from(s, i) <= s.len() - i,
        i > s.len() ==> word_run_from(s, i) == 0,
        forall|j: int|
            i <= j < i + word_run_from(s, i) ==> is_word_char(#[trigger] s[j]),
        i + word_run_from(s, i) < s.len() ==> !is_word_char(s[i + word_run_from(s, i)]),
    decreases s.len() - i,
{
    if !(i >= s.len() || !is_word_char(s[i])) {
        lemma_word_run_facts(s, i + 1);
    }
}

/// A count with the word-run characterization is the word run.
proof fn lemma_word_run_determined(s: Seq<char>, i: int, n: int)
    requires
        0 <= i,
        i + n <= s.len(),
        0 <= n,
        forall|j: int| i <= j < i + n ==> is_word_char(#[trigger] s[j]),
        i + n < s.len() ==> !is_word_char(s[i + n]),
    ensures
        word_run_from(s, i) == n,
    decreases n,
{
    if n > 0 {
        lemma_word_run_determined(s, i + 1, n - 1);
    }
}

/// A count with the digit-run characterization is the digit run.
proof fn lemma_digit_run_determined(s: Seq<char>, i: int, n: int)
    requires
        0 <= i,
        i + n <= s.len(),
        0 <= n,
        forall|j: int| i <= j < i + n ==> is_digit(#[trigger] s[j]),
        i + n < s.len() ==> !is_digit(s[i + n]),
    ensures
        digit_run_from(s, i) == n,
    decreases n,
{
    if n > 0 {
        lemma_digit_run_determined(s, i + 1, n - 1);
    }
}

/// The value of a digit sequence is non-negative.
proof fn lemma_digits_value_nonneg(s: Seq<char>)
    requires
        forall|j: int| 0 <= j < s.len() ==> is_digit(#[trigger] s[j]),
    ensures
        digits_value(s) >= 0,
    decreases s.len(),
{
    if s.len() > 0 {
        lemma_digits_value_nonneg(s.drop_last());
    }
}

/// Extending a digit prefix never lowers its value.
proof fn lemma_digits_value_step(s: Seq<char>, k: int)
    requires
        0 <= k < s.len(),
        forall|j: int| 0 <= j < s.len() ==> is_digit(#[trigger] s[j]),
    ensures
        digits_value(s.subrange(0, k + 1)) >= digits_value(s.subrange(0, k)),
        digits_value(s.subrange(0, k + 1)) == digits_value(s.subrange(0, k)) * 10 + digit_value(
            s[k],
        ),
{
    assert(s.subrange(0, k + 1).drop_last() =~= s.subrange(0, k));
    assert(s.subrange(0, k + 1).last() == s[k]);
    assert(forall|j: int|
        0 <= j < s.subrange(0, k).len() ==> is_digit(#[trigger] s.subrange(0, k)[j]));
    lemma_digits_value_nonneg(s.subrange(0, k));
}

/// The value of a digit sequence grows with its length.
proof fn lemma_digits_value_mono(s: Seq<char>, k: int, m: int)
    requires
        0 <= k <= m <= s.len(),
        forall|j: int| 0 <= j < s.len() ==> is_digit(#[trigger] s[j]),
    ensures
        digits_value(s.subrange(0, k)) <= digits_value(s.subrange(0, m)),
    decreases m - k,
{
    if k < m {
        lemma_digits_value_step(s, m - 1);
        lemma_digits_value_mono(s, k, m - 1);
    }
}

/// Whether a character can appear in a word.
fn is_word(c: char) -> (r: bool)
    ensures
        r == is_word_char(c),
{
    let u = c as u32;
    (u >= 'a' as u32 && u <= 'z' as u32) || (u >= 'A' as u32 && u <= 'Z' as u32) || (u >= '0'
        as u32 && u <= '9' as u32) || u == '_' as u32
}

/// Whether a character is a decimal digit.
fn is_digit_exec(c: char) -> (r: bool)
    ensures
        r == is_digit(c),
{
    let u = c as u32;
    u >= '0' as u32 && u <= '9' as u32
}

/// Whether a character is whitespace.
fn is_space(c: char) -> (r: bool)
    ensures
        r == is_space_char(c),
{
    let u = c as u32;
    u == ' ' as u32 || u == '\t' as u32 || u == '\n' as u32 || u == '\r' as u32 || u == 11 || u
        == 12
}

/// Reads one leading word from the text, if there is one: the length of
/// the word run, and the keyword, integer literal or identifier token it
/// denotes. An integer literal beyond the 32-bit payload is a lex error.
#[verifier::loop_isolation(false)]
pub fn parse_literal_token(value: &str) -> (r: Result<(Option<Token>, usize), SyntaxError>)
    ensures
        match r {
            Ok((opt, inc)) => match opt {
                Some(tok) => word_run_from(value@, 0) == inc && inc > 0 && word_token(
                    value@.subrange(0, inc as int),
                ) == Ok::<TokenModel, Seq<char>>(tok@),
                None => word_run_from(value@, 0) == 0 && inc == 0,
            },
            Err(e) => word_run_from(value@, 0) > 0 && word_token(
                value@.subrange(0, word_run_from(value@, 0) as int),
            ) == Err::<TokenModel, Seq<char>>(e@.message) && e@.stage == CompilerStage::Lexer,
        },
{
    let n = value.unicode_len();
    let mut w: usize = 0;
    while w < n && is_word(value.get_char(w))
        invariant
            0 <= w <= n,
            n == value@.len(),
            forall|j: int| 0 <= j < w ==> is_word_char(#[trigger] value@[j]),
        decreases n - w,
    {
        w = w + 1;
    }
    proof {
        lemma_word_run_determined(value@, 0, w as int);
    }
    if w == 0 {
        return Ok((None, 0));
    }
    let word = value.substring_char(0, w);
    let ghost word_seq = value@.subrange(0, w as int);
    match Token::keywords(word) {
        Some(keyword) => Ok((Some(keyword), w)),
        None => {
            let mut d: usize = 0;
            while d < w && is_digit_exec(value.get_char(d))
                invariant
                    0 <= d <= w <= n,
                    n == value@.len(),
                    forall|j: int| 0 <= j < d ==> is_digit(#[trigger] value@[j]),
                decreases w - d,
            {
                d = d + 1;
            }
            proof {
                assert(forall|j: int| 0 <= j < word_seq.len() ==> word_seq[j] == value@[j]);
                if d < w {
                    assert(!is_digit(word_seq[d as int]));
                }
                lemma_digit_run_determined(word_seq, 0, d as int);
            }
            if d == 0 {
                let name = String::from_str(word);
                return Ok((Some(Token::Identifier(name)), w));
            }
            let mut acc: u64 = 0;
            let mut k: usize = 0;
            let ghost digits_seq = word_seq.subrange(0, d as int);
            proof {
                assert(digits_seq.subrange(0, 0) =~= Seq::<char>::empty());
            }
            while k < d
                invariant
                    0 <= k <= d <= w <= n,
                    n == value@.len(),
                    digits_seq == word_seq.subrange(0, d as int),
                    word_seq == value@.subrange(0, w as int),
                    forall|j: int| 0 <= j < d ==> is_digit(#[trigger] value@[j]),
                    acc as int == digits_value(digits_seq.subrange(0, k as int)),
                    acc <= i32::MAX,
                decreases d - k,
            {
                let c = value.get_char(k);
                let dv: u64 = (c as u32 - '0' as u32) as u64;
                proof {
                    assert(forall|j: int|
                        0 <= j < digits_seq.len() ==> is_digit(#[trigger] digits_seq[j]));
                    lemma_digits_value_step(digits_seq, k as int);
                    assert(digits_seq[k as int] == value@[k as int]);
                }
                let next = acc * 10 + dv;
                if next > i32::MAX as u64 {
                    proof {
                        assert(is_digit(digits_seq[k as int]));
                        assert(dv as int == digit_value(digits_seq[k as int]));
                        assert(next as int == digits_value(
                            digits_seq.subrange(0, k as int + 1),
                        ));
                        lemma_digits_value_mono(digits_seq, k as int + 1, d as int);
                        assert(digits_seq.subrange(0, d as int) =~= digits_seq);
                        assert(digits_value(word_seq.subrange(0, d as int)) > i32::MAX);
                    }
                    return Err(
                        SyntaxError::new_lex_error(
                            String::from_str("integer literal out of range"),
                        ),
                    );
                }
                acc = next;
                k = k + 1;
            }
            proof {
                assert(digits_seq.subrange(0, d as int) =~= digits_seq);
            }
            Ok((Some(Token::Integer(acc as i32)), w))
        },
    }
}

/// Reads a compound two-character operator, if the given two-character
/// slice spells one; anything else, including a missing slice, yields no
/// token and no progress.
pub fn parse_compound_token(value: Option<&str>) -> (r: (Option<Token>, usize))
    ensures
        match value {
            Some(v) => match r.0 {
                Some(tok) => compound_str(v@) == Some(tok@) && r.1 == 2,
                None => compound_str(v@) == None::<TokenModel> && r.1 == 0,
            },
            None => r.0 is None && r.1 == 0,
        },
{
    match value {
        Some(compound_value) => {
            if compound_value.unicode_len() != 2 {
                return (None, 0);
            }
            let a = compound_value.get_char(0);
            let b = compound_value.get_char(1);
            let compound_token = if a == '&' && b == '&' {
                Token::And
            } else if a == '|' && b == '|' {
                Token::Or
            } else if a == '=' && b == '=' {
                Token::Equal
            } else if a == '!' && b == '=' {
                Token::NotEqual
            } else if a == '<' && b == '=' {
                Token::LessThanOrEqual
            } else if a == '>' && b == '=' {
                Token::GreaterThanOrEqual
            } else {
                return (None, 0);
            };
            (Some(compound_token), 2)
        },
        None => (None, 0),
    }
}

/// Reads one single character: whitespace yields no token, a known
/// punctuation or operator character yields its token, and anything else
/// is a lex error naming the character.
pub fn try_parse_simple_token(value: char) -> (r: Result<(Option<Token>, usize), SyntaxError>)
    ensures
        match r {
            Ok((opt, inc)) => inc == 1 && (match opt {
                Some(tok) => simple_spec(value) == Ok::<Option<TokenModel>, Seq<char>>(
                    Some(tok@),
                ),
                None => simple_spec(value) == Ok::<Option<TokenModel>, Seq<char>>(None),
            }),
            Err(e) => simple_spec(value) == Err::<Option<TokenModel>, Seq<char>>(e@.message)
                && e@.stage == CompilerStage::Lexer,
        },
{
    if is_space(value) {
        return Ok((None, 1));
    }
    let token = match value {
        '{' => Token::OpenBrace,
        '}' => Token::CloseBrace,
        '(' => Token::OpenParenthesis,
        ')' => Token::CloseParenthesis,
        ';' => Token::SemiColon,
        '-' => Token::Negation,
        '~' => Token::BitwiseComplement,
        '!' => Token::LogicalNegation,
        '+' => Token::Addition,
        '*' => Token::Multiplication,
        '/' => Token::Division,
        '<' => Token::LessThan,
        '>' => Token::GreaterThan,
        '=' => Token::Assignment,
        _ => {
            let mut msg = String::from_str("unidentifiable character ");
            msg.push(value);
            proof {
                assert(msg@ =~= "unidentifiable character "@ + seq![value]);
            }
            return Err(SyntaxError::new_lex_error(msg));
        },
    };
    Ok((Some(token), 1))
}

/// Tokenizes one line of source text: the token models of the result are
/// exactly what [`lex_from`] reads from the start of the line.
#[verifier::loop_isolation(false)]
pub fn string_tokenizer(value: &str) -> (r: Result<Vec<Token>, SyntaxError>)
    ensures
        match r {
            Ok(toks) => lex_from(value@, 0) == Ok::<Seq<TokenModel>, Seq<char>>(
                toks.deep_view(),
            ),
            Err(e) => lex_from(value@, 0) == Err::<Seq<TokenModel>, Seq<char>>(e@.message)
                && e@.stage == CompilerStage::Lexer,
        },
{
    let ghost s = value@;
    let mut tokens: Vec<Token> = Vec::new();
    let mut end_idx: usize = 0;
    let n = value.unicode_len();
    proof {
        assert(tokens.deep_view() =~= Seq::<TokenModel>::empty());
    }
    while end_idx < n
        invariant
            0 <= end_idx <= n,
            (match lex_from(s, end_idx as int) {
                Ok(rest) => lex_from(s, 0) == Ok::<Seq<TokenModel>, Seq<char>>(
                    tokens.deep_view() + rest,
                ),
                Err(m) => lex_from(s, 0) == Err::<Seq<TokenModel>, Seq<char>>(m),
            }),
        decreases n - end_idx,
    {
        let ghost i = end_idx as int;
        let suffix = value.substring_char(end_idx, n);
        proof {
            lemma_word_run_facts(suffix@, 0);
            assert(forall|j: int| 0 <= j < suffix@.len() ==> suffix@[j] == s[i + j]);
            let wsub = word_run_from(suffix@, 0) as int;
            assert(wsub <= suffix@.len());
            assert forall|j: int| i <= j < i + wsub implies is_word_char(#[trigger] s[j]) by {
                assert(is_word_char(suffix@[j - i]));
            };
            if i + wsub < s.len() {
                assert(!is_word_char(suffix@[wsub]));
                assert(suffix@[wsub] == s[i + wsub]);
            }
            lemma_word_run_determined(s, i, wsub);
            assert(suffix@.subrange(0, wsub) =~= s.subrange(i, i + wsub));
        }
        match parse_literal_token(suffix) {
            Err(e) => {
                return Err(e);
            },
            Ok((literal_opt, increment)) => {
                match literal_opt {
                    Some(literal_value) => {
                        let ghost pre = tokens.deep_view();
                        proof {
                            assert(suffix@.subrange(0, increment as int) =~= s.subrange(
                                i,
                                i + increment,
                            ));
                        }
                        tokens.push(literal_value);
                        proof {
                            assert(tokens.deep_view() =~= pre + seq![literal_value@]);
                            match lex_from(s, i + increment) {
                                Ok(rest2) => {
                                    assert((pre + (seq![literal_value@] + rest2)) =~= ((pre
                                        + seq![literal_value@]) + rest2));
                                },
                                Err(_) => {},
                            }
                        }
                        end_idx = end_idx + increment;
                    },
                    None => {
                        let pair: Option<&str> = if n - end_idx >= 2 {
                            Some(value.substring_char(end_idx, end_idx + 2))
                        } else {
                            None
                        };
                        let (compound_opt, _compound_inc) = parse_compound_token(pair);
                        match compound_opt {
                            Some(compound_value) => {
                                let ghost pre = tokens.deep_view();
                                tokens.push(compound_value);
                                proof {
                                    assert(tokens.deep_view() =~= pre + seq![
                                        compound_value@,
                                    ]);
                                    match lex_from(s, i + 2) {
                                        Ok(rest2) => {
                                            assert((pre + (seq![compound_value@] + rest2)) =~= ((
                                            pre + seq![compound_value@]) + rest2));
                                        },
                                        Err(_) => {},
                                    }
                                }
                                end_idx = end_idx + 2;
                            },
                            None => {
                                let c = value.get_char(end_idx);
                                match try_parse_simple_token(c) {
                                    Err(e) => {
                                        return Err(e);
                                    },
                                    Ok((simple_opt, _inc)) => {
                                        match simple_opt {
                                            Some(simple_value) => {
                                                let ghost pre = tokens.deep_view();
                                                tokens.push(simple_value);
                                                proof {
                                                    assert(tokens.deep_view() =~= pre + seq![
                                                        simple_value@,
                                                    ]);
                                                    match lex_from(s, i + 1) {
                                                        Ok(rest2) => {
                                                            assert((pre + (seq![simple_value@]
                                                                + rest2)) =~= ((pre + seq![
                                                                simple_value@,
                                                            ]) + rest2));
                                                        },
                                                        Err(_) => {},
                                                    }
                                                }
                                            },
                                            None => {},
                                        }
                                        end_idx = end_idx + 1;
                                    },
                                }
                            },
                        }
                    },
                }
            },
        }
    }
    proof {
        match lex_from(s, n as int) {
            Ok(rest) => {
                assert(rest =~= Seq::<TokenModel>::empty());
                assert((tokens.deep_view() + Seq::<TokenModel>::empty())
                    =~= tokens.deep_view());
            },
            Err(_) => {},
        }
    }
    Ok(tokens)
}

/// Tokenizes a sequence of source lines and concatenates their tokens;
/// the first lex error aborts.
#[verifier::loop_isolation(false)]
pub fn tokenize_lines(lines: &Vec<String>) -> (r: Result<Vec<Token>, SyntaxError>)
    ensures
        match r {
            Ok(toks) => lex_lines(lines.deep_view(), 0) == Ok::<Seq<TokenModel>, Seq<char>>(
                toks.deep_view(),
            ),
            Err(e) => lex_lines(lines.deep_view(), 0) == Err::<Seq<TokenModel>, Seq<char>>(
                e@.message,
            ) && e@.stage == CompilerStage::Lexer,
        },
{
    let ghost ls = lines.deep_view();
    let mut token_vector: Vec<Token> = Vec::new();
    let mut i: usize = 0;
    let n = lines.len();
    proof {
        assert(token_vector.deep_view() =~= Seq::<TokenModel>::empty());
    }
    while i < n
        invariant
            0 <= i <= n,
            n == ls.len(),
            (match lex_lines(ls, i as int) {
                Ok(rest) => lex_lines(ls, 0) == Ok::<Seq<TokenModel>, Seq<char>>(
                    token_vector.deep_view() + rest,
                ),
                Err(m) => lex_lines(ls, 0) == Err::<Seq<TokenModel>, Seq<char>>(m),
            }),
        decreases n - i,
    {
        let mut tokens = match string_tokenizer(lines[i].as_str()) {
            Ok(ts) => ts,
            Err(e) => {
                return Err(e);
            },
        };
        let ghost pre = token_vector.deep_view();
        let ghost ts_view = tokens.deep_view();
        token_vector.append(&mut tokens);
        proof {
            assert(token_vector.deep_view() =~= pre + ts_view);
            match lex_lines(ls, i as int + 1) {
                Ok(rest2) => {
                    assert((pre + (ts_view + rest2)) =~= ((pre + ts_view) + rest2));
                },
                Err(_) => {},
            }
        }
        i = i + 1;
    }
    proof {
        match lex_lines(ls, n as int) {
            Ok(rest) => {
                assert(rest =~= Seq::<TokenModel>::empty());
                assert((token_vector.deep_view() + Seq::<TokenModel>::empty())
                    =~= token_vector.deep_view());
            },
            Err(_) => {},
        }
    }
    Ok(token_vector)
}

} // verus!
