//! The written form of a configuration, such as
//! `pub mod assets from "rc" { text [include ["*.toml"] exclude []]; }`,
//! cut into tokens.

use vstd::prelude::*;
use crate::emit::{escape_char, escaped, quoted};
use crate::text::push_char;

verus! {

/// A piece of the written form: a bracket, comma or semicolon, a word, or
/// a string, without its quotes and with its escapes resolved.
#[derive(Debug, Clone, PartialEq, Eq)]
pub enum Token {
    Punct(char),
    Word(String),
    Text(String),
}

/// What a `Token` stands for.
pub enum TokenModel {
    Punct(char),
    Word(Seq<char>),
    Text(Seq<char>),
}

impl View for Token {
    type V = TokenModel;

    open spec fn view(&self) -> TokenModel {
        match self {
            Token::Punct(c) => TokenModel::Punct(*c),
            Token::Word(w) => TokenModel::Word(w@),
            Token::Text(t) => TokenModel::Text(t@),
        }
    }
}

/// What a list of tokens stands for.
pub open spec fn token_views(tokens: Seq<Token>) -> Seq<TokenModel> {
    Seq::new(tokens.len(), |i: int| tokens[i]@)
}

/// Where the written form cannot be read.
#[derive(Debug, Clone, Copy, PartialEq, Eq, Structural)]
pub enum SyntaxError {
    /// The character at this place starts no token, or starts a string
    /// that is not well formed.
    BadCharacter { at: usize },
    /// The token at this place, counted in tokens, does not fit. A place
    /// behind the last token says that one is missing.
    UnexpectedToken { at: usize },
}

pub open spec fn is_space(c: char) -> bool {
    c == ' ' || c == '\t' || c == '\n' || c == '\r'
}

pub open spec fn is_punct(c: char) -> bool {
    c == '[' || c == ']' || c == '{' || c == '}' || c == ',' || c == ';'
}

pub open spec fn is_word_char(c: char) -> bool {
    ('a' <= c && c <= 'z') || ('A' <= c && c <= 'Z') || ('0' <= c && c <= '9') || c == '_'
}

/// What an escape stands for, if the character behind the backslash
/// makes one.
pub open spec fn unescape(c: char) -> Option<char> {
    if c == '\\' {
        Some('\\')
    } else if c == '"' {
        Some('"')
    } else if c == 'n' {
        Some('\n')
    } else if c == 'r' {
        Some('\r')
    } else if c == 't' {
        Some('\t')
    } else {
        None
    }
}

/// The place behind the word that goes through place `i`.
pub open spec fn word_end(s: Seq<char>, i: int) -> int
    decreases s.len() - i,
{
    if 0 <= i < s.len() && is_word_char(s[i]) {
        word_end(s, i + 1)
    } else {
        i
    }
}

/// The string whose content starts at place `i`: its text, and the place
/// behind its closing quote. There is none if the quote is never closed
/// or a backslash stands before a character that makes no escape.
pub open spec fn string_from(s: Seq<char>, i: int) -> Option<(Seq<char>, int)>
    decreases s.len() - i,
{
    if i < 0 || i >= s.len() {
        None
    } else if s[i] == '"' {
        Some((Seq::empty(), i + 1))
    } else if s[i] == '\\' {
        if i + 1 < s.len() && unescape(s[i + 1]) is Some {
            match string_from(s, i + 2) {
                Some((rest, end)) => Some((seq![unescape(s[i + 1])->0] + rest, end)),
                None => None,
            }
        } else {
            None
        }
    } else {
        match string_from(s, i + 1) {
            Some((rest, end)) => Some((seq![s[i]] + rest, end)),
            None => None,
        }
    }
}

/// `first` before the tokens that follow, if there are tokens that follow.
pub open spec fn prepend(first: TokenModel, rest: Option<Seq<TokenModel>>) -> Option<
    Seq<TokenModel>,
> {
    match rest {
        Some(rest) => Some(seq![first] + rest),
        None => None,
    }
}

/// The tokens from place `i` on. Blanks and line ends stand between
/// tokens and are no tokens. There are none if a string is not well
/// formed or a character can start no token.
pub open spec fn tokens_from(s: Seq<char>, i: int) -> Option<Seq<TokenModel>>
    decreases s.len() - i,
{
    if i < 0 || i >= s.len() {
        Some(Seq::empty())
    } else if is_space(s[i]) {
        tokens_from(s, i + 1)
    } else if is_punct(s[i]) {
        prepend(TokenModel::Punct(s[i]), tokens_from(s, i + 1))
    } else if is_word_char(s[i]) {
        let end = word_end(s, i + 1);
        if i < end <= s.len() {
            prepend(TokenModel::Word(s.subrange(i, end)), tokens_from(s, end))
        } else {
            None
        }
    } else if s[i] == '"' {
        match string_from(s, i + 1) {
            Some((text, end)) => if i < end <= s.len() {
                prepend(TokenModel::Text(text), tokens_from(s, end))
            } else {
                None
            },
            None => None,
        }
    } else {
        None
    }
}

/// The tokens of the written form.
pub open spec fn tokens_of(s: Seq<char>) -> Option<Seq<TokenModel>> {
    tokens_from(s, 0)
}

/// The characters of a string, for reading by place.
fn chars_of(text: &str) -> (chars: Vec<char>)
    ensures
        chars@ == text@,
{
    let mut chars: Vec<char> = Vec::new();
    for c in it: text.chars()
        invariant
            it.seq() == text@,
            chars@ == text@.take(it.index()),
    {
        chars.push(c);
        assert(chars@ =~= text@.take(it.index() + 1));
    }
    assert(text@.take(text@.len() as int) =~= text@);
    chars
}

fn space(c: char) -> (b: bool)
    ensures
        b == is_space(c),
{
    c == ' ' || c == '\t' || c == '\n' || c == '\r'
}

fn punct(c: char) -> (b: bool)
    ensures
        b == is_punct(c),
{
    c == '[' || c == ']' || c == '{' || c == '}' || c == ',' || c == ';'
}

fn word_char(c: char) -> (b: bool)
    ensures
        b == is_word_char(c),
{
    ('a' <= c && c <= 'z') || ('A' <= c && c <= 'Z') || ('0' <= c && c <= '9') || c == '_'
}

fn unescaped(c: char) -> (r: Option<char>)
    ensures
        r == unescape(c),
{
    if c == '\\' {
        Some('\\')
    } else if c == '"' {
        Some('"')
    } else if c == 'n' {
        Some('\n')
    } else if c == 'r' {
        Some('\r')
    } else if c == 't' {
        Some('\t')
    } else {
        None
    }
}

/// Reads the string whose content starts at place `start`.
fn read_string(s: &Vec<char>, start: usize) -> (r: Option<(String, usize)>)
    requires
        start <= s@.len(),
    ensures
        match r {
            Some((text, end)) => string_from(s@, start as int) == Some((text@, end as int))
                && start < end <= s@.len(),
            None => string_from(s@, start as int) is None,
        },
{
    let mut text = String::new();
    let mut i: usize = start;
    while i < s.len()
        invariant
            start <= i <= s@.len(),
            string_from(s@, start as int) == (match string_from(s@, i as int) {
                Some((rest, end)) => Some((text@ + rest, end)),
                None => None,
            }),
        decreases s@.len() - i,
    {
        let c = s[i];
        if c == '"' {
            assert(text@ + Seq::<char>::empty() =~= text@);
            return Some((text, i + 1));
        } else if c == '\\' {
            if i + 1 >= s.len() {
                return None;
            }
            match unescaped(s[i + 1]) {
                None => {
                    return None;
                },
                Some(u) => {
                    proof {
                        let before = text@;
                        match string_from(s@, i + 2) {
                            Some((rest, end)) => {
                                assert(before + (seq![u] + rest) =~= before.push(u) + rest);
                            },
                            None => {},
                        }
                    }
                    push_char(&mut text, u);
                    i += 2;
                },
            }
        } else {
            proof {
                let before = text@;
                match string_from(s@, i + 1) {
                    Some((rest, end)) => {
                        assert(before + (seq![c] + rest) =~= before.push(c) + rest);
                    },
                    None => {},
                }
            }
            push_char(&mut text, c);
            i += 1;
        }
    }
    None
}

/// The characters from place `from` up to place `to`, as a string.
fn slice_of(s: &Vec<char>, from: usize, to: usize) -> (text: String)
    requires
        from <= to <= s@.len(),
    ensures
        text@ == s@.subrange(from as int, to as int),
{
    let mut text = String::new();
    let mut i: usize = from;
    while i < to
        invariant
            from <= i <= to <= s@.len(),
            text@ == s@.subrange(from as int, i as int),
        decreases to - i,
    {
        push_char(&mut text, s[i]);
        i += 1;
        assert(text@ =~= s@.subrange(from as int, i as int));
    }
    text
}

/// Cuts the written form into tokens.
pub fn tokenize(text: &str) -> (r: Result<Vec<Token>, SyntaxError>)
    ensures
        match r {
            Ok(tokens) => tokens_of(text@) == Some(token_views(tokens@)),
            Err(e) => e is BadCharacter && tokens_of(text@) is None,
        },
{
    let s = chars_of(text);
    let mut out: Vec<Token> = Vec::new();
    let mut i: usize = 0;
    assert(token_views(out@) + Seq::<TokenModel>::empty() =~= Seq::<TokenModel>::empty());
    assert(token_views(out@) =~= Seq::<TokenModel>::empty());
    while i < s.len()
        invariant
            i <= s@.len(),
            s@ == text@,
            tokens_of(s@) == (match tokens_from(s@, i as int) {
                Some(rest) => Some(token_views(out@) + rest),
                None => None,
            }),
        decreases s@.len() - i,
    {
        let c = s[i];
        let ghost before = token_views(out@);
        if space(c) {
            i += 1;
        } else if punct(c) {
            out.push(Token::Punct(c));
            proof {
                let token = TokenModel::Punct(c);
                assert(token_views(out@) =~= before.push(token));
                match tokens_from(s@, i + 1) {
                    Some(rest) => {
                        assert(before + (seq![token] + rest) =~= before.push(token) + rest);
                    },
                    None => {},
                }
            }
            i += 1;
        } else if word_char(c) {
            let mut j: usize = i + 1;
            while j < s.len() && word_char(s[j])
                invariant
                    i < j <= s@.len(),
                    word_end(s@, i + 1) == word_end(s@, j as int),
                decreases s@.len() - j,
            {
                j += 1;
            }
            assert(word_end(s@, i + 1) == j);
            let word = slice_of(&s, i, j);
            out.push(Token::Word(word));
            proof {
                let token = TokenModel::Word(s@.subrange(i as int, j as int));
                assert(token_views(out@) =~= before.push(token));
                match tokens_from(s@, j as int) {
                    Some(rest) => {
                        assert(before + (seq![token] + rest) =~= before.push(token) + rest);
                    },
                    None => {},
                }
            }
            i = j;
        } else if c == '"' {
            match read_string(&s, i + 1) {
                None => {
                    return Err(SyntaxError::BadCharacter { at: i });
                },
                Some((content, end)) => {
                    out.push(Token::Text(content));
                    proof {
                        let token = TokenModel::Text(content@);
                        assert(token_views(out@) =~= before.push(token));
                        match tokens_from(s@, end as int) {
                            Some(rest) => {
                                assert(before + (seq![token] + rest) =~= before.push(token) + rest);
                            },
                            None => {},
                        }
                    }
                    i = end;
                },
            }
        } else {
            return Err(SyntaxError::BadCharacter { at: i });
        }
    }
    assert(token_views(out@) + Seq::<TokenModel>::empty() =~= token_views(out@));
    Ok(out)
}

proof fn lemma_escaped_front(c: char, s: Seq<char>)
    ensures
        escaped(seq![c] + s) == escape_char(c) + escaped(s),
    decreases s.len(),
{
    let whole = seq![c] + s;
    if s.len() == 0 {
        assert(whole.drop_last() =~= Seq::<char>::empty());
        assert(escaped(whole.drop_last()) =~= Seq::<char>::empty());
        assert(escaped(whole) =~= escape_char(c));
        assert(escape_char(c) + escaped(s) =~= escape_char(c));
    } else {
        lemma_escaped_front(c, s.drop_last());
        assert(whole.drop_last() =~= seq![c] + s.drop_last());
        assert(whole.last() == s.last());
        assert(escaped(whole) =~= escape_char(c) + escaped(s));
    }
}

/// What is written as a string literal is read back as it was: where
/// the escaped text and a closing quote stand from place `i` on, the
/// string read from there is the text.
pub proof fn lemma_escaped_reads_back(t: Seq<char>, i: int, s: Seq<char>)
    requires
        0 <= i,
        i + escaped(s).len() + 1 <= t.len(),
        t.subrange(i, i + escaped(s).len() + 1) == escaped(s).push('"'),
    ensures
        string_from(t, i) == Some((s, i + escaped(s).len() + 1)),
    decreases s.len(),
{
    let written = escaped(s).push('"');
    assert forall|k: int| 0 <= k < written.len() implies t[i + k] == written[k] by {
        assert(t.subrange(i, i + escaped(s).len() + 1)[k] == t[i + k]);
    }
    if s.len() == 0 {
        assert(written[0] == '"');
        assert(t[i] == '"');
    } else {
        let c = s[0];
        let rest = s.drop_first();
        assert(s =~= seq![c] + rest);
        lemma_escaped_front(c, rest);
        let head = escape_char(c);
        let n = head.len() as int;
        assert(escaped(s) == head + escaped(rest));
        assert(t.subrange(i + n, i + n + escaped(rest).len() + 1) =~= escaped(rest).push('"')) by {
            assert forall|k: int| 0 <= k < escaped(rest).len() + 1 implies t[i + n + k] == escaped(
                rest,
            ).push('"')[k] by {
                assert(written[n + k] == escaped(rest).push('"')[k]);
            }
        }
        lemma_escaped_reads_back(t, i + n, rest);
        assert(written[0] == head[0]);
        if n == 2 {
            assert(written[1] == head[1]);
            assert(unescape(head[1]) == Some(c));
        }
        assert(seq![c] + rest =~= s);
    }
}

/// A string literal, as it is written into generated text, is one token:
/// the text that it was written for.
pub proof fn lemma_quoted_is_one_token(s: Seq<char>)
    ensures
        tokens_of(quoted(s)) == Some(seq![TokenModel::Text(s)]),
{
    let t = quoted(s);
    let n = escaped(s).len() as int;
    assert(t.len() == n + 2);
    assert(t[0] == '"');
    assert(t.subrange(1, n + 2) =~= escaped(s).push('"'));
    lemma_escaped_reads_back(t, 1, s);
    assert(tokens_from(t, n + 2) == Some(Seq::<TokenModel>::empty()));
    assert(seq![TokenModel::Text(s)] + Seq::<TokenModel>::empty() =~= seq![TokenModel::Text(s)]);
}

} // verus!
