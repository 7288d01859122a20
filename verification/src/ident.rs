//! Identifier validity and sanitising, following the Unicode `XID_Start` and
//! `XID_Continue` classes.

use vstd::prelude::*;
use unicode_xid::UnicodeXID;
use crate::text::push_char;

verus! {

/// `XID_Start` beyond ASCII, as `unicode_xid` tabulates it.
pub uninterp spec fn xid_start_table(c: char) -> bool;

/// `XID_Continue` beyond ASCII, as `unicode_xid` tabulates it.
pub uninterp spec fn xid_continue_table(c: char) -> bool;

pub open spec fn is_ascii_letter(c: char) -> bool {
    ('a' <= c && c <= 'z') || ('A' <= c && c <= 'Z')
}

pub open spec fn is_ascii_digit(c: char) -> bool {
    '0' <= c && c <= '9'
}

/// The `XID_Start` class: the ASCII letters, and beyond ASCII what the table says.
pub open spec fn is_xid_start(c: char) -> bool {
    is_ascii_letter(c) || (c > '\x7f' && xid_start_table(c))
}

/// The `XID_Continue` class: the ASCII letters and digits, `_`, and beyond
/// ASCII what the table says.
pub open spec fn is_xid_continue(c: char) -> bool {
    is_ascii_letter(c) || is_ascii_digit(c) || c == '_' || (c > '\x7f' && xid_continue_table(c))
}

/// `UnicodeXID::is_xid_start` of `unicode_xid`: ASCII characters are decided
/// by a fast path (exactly the letters), all others by the crate's table.
#[verifier::external_body]
fn xid_start(c: char) -> (b: bool)
    ensures
        b == (is_ascii_letter(c) || (c > '\x7f' && xid_start_table(c))),
{
    c.is_xid_start()
}

/// `UnicodeXID::is_xid_continue` of `unicode_xid`: ASCII characters are
/// decided by a fast path (letters, digits and `_`), all others by the
/// crate's table.
#[verifier::external_body]
fn xid_continue(c: char) -> (b: bool)
    ensures
        b == (is_ascii_letter(c) || is_ascii_digit(c) || c == '_' || (c > '\x7f'
            && xid_continue_table(c))),
{
    c.is_xid_continue()
}

/// A string is an identifier when it is not empty, starts with an
/// `XID_Start` character or `_`, and goes on with `XID_Continue` characters.
pub open spec fn is_valid_identifier(s: Seq<char>) -> bool {
    &&& s.len() > 0
    &&& (is_xid_start(s[0]) || s[0] == '_')
    &&& forall|i: int| 1 <= i < s.len() ==> is_xid_continue(#[trigger] s[i])
}

/// What stands for a character after the first one.
pub open spec fn sanitize_char(c: char) -> char {
    if is_xid_continue(c) {
        c
    } else {
        '_'
    }
}

/// What stands for the first character, or for the lack of one.
pub open spec fn sanitize_head(s: Seq<char>) -> Seq<char> {
    if s.len() == 0 {
        seq!['_']
    } else if is_ascii_digit(s[0]) {
        seq!['_', s[0]]
    } else if is_xid_start(s[0]) {
        seq![s[0]]
    } else {
        seq!['_']
    }
}

/// The identifier made from `s`: the head, then every later character,
/// kept if it is `XID_Continue` and replaced by `_` if not.
pub open spec fn to_valid_identifier(s: Seq<char>) -> Seq<char> {
    sanitize_head(s) + Seq::new(
        if s.len() == 0 { 0nat } else { (s.len() - 1) as nat },
        |i: int| sanitize_char(s[i + 1]),
    )
}

pub trait StrExt {
    /// The characters that the methods below speak of.
    spec fn ident_text(&self) -> Seq<char>;

    fn is_valid_ident(&self) -> (b: bool)
        ensures
            b == is_valid_identifier(self.ident_text()),
    ;

    fn to_valid_ident(&self) -> (r: String)
        ensures
            r@ == to_valid_identifier(self.ident_text()),
    ;
}

impl StrExt for str {
    open spec fn ident_text(&self) -> Seq<char> {
        self@
    }

    fn is_valid_ident(&self) -> (b: bool) {
        let mut first = true;
        let mut ok = true;
        for c in it: self.chars()
            invariant
                it.seq() == self@,
                first == (it.index() == 0),
                ok == ((it.index() > 0 ==> (is_xid_start(self@[0]) || self@[0] == '_'))
                    && forall|i: int| 1 <= i < it.index() ==> is_xid_continue(#[trigger] self@[i])),
        {
            if first {
                ok = xid_start(c) || c == '_';
                first = false;
            } else {
                ok = ok && xid_continue(c);
            }
        }
        !first && ok
    }

    fn to_valid_ident(&self) -> (r: String) {
        let mut buffer = String::new();
        let mut first = true;
        for c in it: self.chars()
            invariant
                it.seq() == self@,
                first == (it.index() == 0),
                it.index() > 0 ==> buffer@ == sanitize_head(self@) + Seq::new(
                    (it.index() - 1) as nat,
                    |i: int| sanitize_char(self@[i + 1]),
                ),
                it.index() == 0 ==> buffer@ == Seq::<char>::empty(),
        {
            if first {
                if '0' <= c && c <= '9' {
                    push_char(&mut buffer, '_');
                    push_char(&mut buffer, c);
                } else if xid_start(c) {
                    push_char(&mut buffer, c);
                } else {
                    push_char(&mut buffer, '_');
                }
                first = false;
            } else if xid_continue(c) {
                push_char(&mut buffer, c);
            } else {
                push_char(&mut buffer, '_');
            }
        }
        if first {
            push_char(&mut buffer, '_');
        }
        buffer
    }
}

/// Sanitising always yields an identifier.
pub proof fn lemma_sanitized_is_valid(s: Seq<char>)
    ensures
        is_valid_identifier(to_valid_identifier(s)),
{
    let t = to_valid_identifier(s);
    let head = sanitize_head(s);
    assert(t[0] == head[0]);
    assert forall|i: int| 1 <= i < t.len() implies is_xid_continue(#[trigger] t[i]) by {
        if i < head.len() {
            assert(t[i] == head[i]);
        } else {
            assert(t[i] == sanitize_char(s[i - head.len() + 1]));
        }
    }
}

/// An identifier is left as it is.
pub proof fn lemma_valid_is_unchanged(s: Seq<char>)
    requires
        is_valid_identifier(s),
    ensures
        to_valid_identifier(s) == s,
{
    let t = to_valid_identifier(s);
    assert(sanitize_head(s) == seq![s[0]]);
    assert(t.len() == s.len());
    assert forall|i: int| 0 <= i < s.len() implies t[i] == s[i] by {
        if i > 0 {
            assert(t[i] == sanitize_char(s[i]));
        }
    }
    assert(t =~= s);
}

/// Sanitising is idempotent: a second pass changes nothing.
pub proof fn lemma_sanitize_idempotent(s: Seq<char>)
    ensures
        to_valid_identifier(to_valid_identifier(s)) == to_valid_identifier(s),
{
    lemma_sanitized_is_valid(s);
    lemma_valid_is_unchanged(to_valid_identifier(s));
}

/// The identifiers are exactly the strings that sanitising leaves alone.
pub proof fn lemma_valid_iff_fixed(s: Seq<char>)
    ensures
        is_valid_identifier(s) <==> to_valid_identifier(s) == s,
{
    if is_valid_identifier(s) {
        lemma_valid_is_unchanged(s);
    }
    if to_valid_identifier(s) == s {
        lemma_sanitized_is_valid(s);
    }
}

} // verus!
