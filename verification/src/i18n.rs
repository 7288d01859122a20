//! Format strings that take their arguments by key, and the check that a
//! string uses the keys it has to use.

use vstd::prelude::*;
use crate::emit::{push_escaped, quoted};
use crate::text::{push_char, str_eq, texts};

verus! {

#[verifier::external_type_specification]
#[verifier::external_body]
pub struct ExFmtError(strfmt::FmtError);

/// The keys of the fields of a format string, in the order of the fields,
/// or nothing if `strfmt` does not take the string.
pub uninterp spec fn strfmt_keys(fmt: Seq<char>) -> Option<Seq<Seq<char>>>;

/// `strfmt::strfmt_map`: goes through the fields of the format string.
/// Here the key of each field is noted, in order. What comes out depends
/// on the string alone.
#[verifier::external_body]
fn format_keys(fmt: &str) -> (r: Result<Vec<String>, strfmt::FmtError>)
    ensures
        match r {
            Ok(keys) => strfmt_keys(fmt@) == Some(texts(keys@)),
            Err(_) => strfmt_keys(fmt@) is None,
        },
{
    let mut keys: Vec<String> = Vec::new();
    strfmt::strfmt_map(
        fmt,
        |field: strfmt::Formatter| {
            keys.push(field.key.to_string());
            Ok(())
        },
    )?;
    Ok(keys)
}

/// `Display` of `strfmt::FmtError`. Nothing is claimed of its wording.
#[verifier::external_body]
fn describe_format_error(e: &strfmt::FmtError) -> String {
    e.to_string()
}

/// A format string that takes its arguments by key.
#[derive(Default, Debug, Clone, Eq, PartialEq, Ord, PartialOrd, Hash)]
pub struct FormatText {
    pub fmt: String,
}

/// What can be wrong with a localised text.
#[derive(Debug, Clone, PartialEq, Eq)]
pub enum I18nError {
    /// The format string does not use the keys it has to use.
    FormatParameterMismatch(String),
    /// The format string is no format string.
    FormatError(String),
}

impl I18nError {
    /// The error in words.
    pub open spec fn text(self) -> Seq<char> {
        match self {
            I18nError::FormatParameterMismatch(message) => "Format parameter mismatch: "@
                + message@,
            I18nError::FormatError(message) => "format error: "@ + message@,
        }
    }

    /// The error in words.
    pub fn to_text(&self) -> (s: String)
        ensures
            s@ == self.text(),
    {
        match self {
            I18nError::FormatParameterMismatch(message) => String::from_str(
                "Format parameter mismatch: ",
            ).concat(message.as_str()),
            I18nError::FormatError(message) => String::from_str("format error: ").concat(
                message.as_str(),
            ),
        }
    }
}

/// Whether `list` holds `key`.
fn holds(list: &Vec<String>, key: &str) -> (b: bool)
    ensures
        b == texts(list@).contains(key@),
{
    let mut i: usize = 0;
    while i < list.len()
        invariant
            i <= list.len(),
            forall|k: int| 0 <= k < i ==> #[trigger] texts(list@)[k] != key@,
        decreases list.len() - i,
    {
        if str_eq(list[i].as_str(), key) {
            assert(texts(list@)[i as int] == key@);
            return true;
        }
        i += 1;
    }
    false
}

/// Whether every key of `keys` is one of `among`.
fn all_held(keys: &Vec<String>, among: &Vec<String>) -> (b: bool)
    ensures
        b == forall|k: int| 0 <= k < keys@.len() ==> texts(among@).contains(#[trigger] texts(keys@)[k]),
{
    let mut i: usize = 0;
    while i < keys.len()
        invariant
            i <= keys.len(),
            forall|k: int| 0 <= k < i ==> texts(among@).contains(#[trigger] texts(keys@)[k]),
        decreases keys.len() - i,
    {
        if !holds(among, keys[i].as_str()) {
            assert(!texts(among@).contains(texts(keys@)[i as int]));
            return false;
        }
        i += 1;
    }
    true
}

/// Whether a format string uses the keys it has to use, all of them and
/// no others. How often and in which order a key stands does not count.
pub fn check_format_keys(keys: &Vec<String>, required: &Vec<String>) -> (same: bool)
    ensures
        same == forall|key: Seq<char>|
            texts(keys@).contains(key) <==> texts(required@).contains(key),
{
    let there = all_held(keys, required);
    let back = all_held(required, keys);
    proof {
        let ks = texts(keys@);
        let rs = texts(required@);
        if there && back {
            assert forall|key: Seq<char>| ks.contains(key) <==> rs.contains(key) by {
                if ks.contains(key) {
                    let k = choose|k: int| 0 <= k < ks.len() && ks[k] == key;
                    assert(rs.contains(ks[k]));
                }
                if rs.contains(key) {
                    let k = choose|k: int| 0 <= k < rs.len() && rs[k] == key;
                    assert(ks.contains(rs[k]));
                }
            }
        } else if !there {
            let k = choose|k: int| 0 <= k < ks.len() && !rs.contains(#[trigger] ks[k]);
            assert(ks.contains(ks[k]));
        } else {
            let k = choose|k: int| 0 <= k < rs.len() && !ks.contains(#[trigger] rs[k]);
            assert(rs.contains(rs[k]));
        }
    }
    there && back
}

/// The items with `separator` between them.
pub open spec fn joined(items: Seq<Seq<char>>, separator: Seq<char>) -> Seq<char>
    decreases items.len(),
{
    if items.len() == 0 {
        Seq::empty()
    } else if items.len() == 1 {
        items[0]
    } else {
        joined(items.drop_last(), separator) + separator + items.last()
    }
}

/// The keys without those that stood before, each as a string literal.
pub open spec fn distinct_quoted(keys: Seq<Seq<char>>) -> Seq<Seq<char>>
    decreases keys.len(),
{
    if keys.len() == 0 {
        Seq::empty()
    } else if keys.drop_last().contains(keys.last()) {
        distinct_quoted(keys.drop_last())
    } else {
        distinct_quoted(keys.drop_last()).push(quoted(keys.last()))
    }
}

/// What is said of a field whose format string uses the wrong keys: the
/// keys it has to use, and the keys it uses, each once.
pub open spec fn mismatch_text(name: Seq<char>, keys: Seq<Seq<char>>, required: Seq<Seq<char>>)
    -> Seq<char> {
    "'self."@ + name + "' must use ["@ + joined(required, ", "@) + "], but use {"@ + joined(
        distinct_quoted(keys),
        ", "@,
    ) + "}"@
}

/// Appends the items to `out`, with `separator` between them.
fn push_joined(out: &mut String, items: &Vec<String>, separator: &str)
    ensures
        final(out)@ == old(out)@ + joined(texts(items@), separator@),
{
    let ghost names = texts(items@);
    let mut i: usize = 0;
    assert(names.take(0) =~= Seq::empty());
    assert(out@ =~= old(out)@ + joined(names.take(0), separator@));
    while i < items.len()
        invariant
            i <= items.len(),
            names == texts(items@),
            out@ == old(out)@ + joined(names.take(i as int), separator@),
        decreases items.len() - i,
    {
        proof {
            assert(names.take(i + 1).drop_last() =~= names.take(i as int));
            assert(names.take(i + 1).last() == items@[i as int]@);
            if i == 0 {
                assert(names.take(1)[0] == items@[0]@);
                assert(joined(names.take(0), separator@) =~= Seq::empty());
            }
        }
        if i > 0 {
            out.append(separator);
        }
        out.append(items[i].as_str());
        i += 1;
        assert(out@ =~= old(out)@ + joined(names.take(i as int), separator@));
    }
    assert(names.take(items@.len() as int) =~= names);
}

/// The keys without those that stood before, each as a string literal.
fn quote_distinct(keys: &Vec<String>) -> (out: Vec<String>)
    ensures
        texts(out@) == distinct_quoted(texts(keys@)),
{
    let ghost names = texts(keys@);
    let mut seen: Vec<String> = Vec::new();
    let mut out: Vec<String> = Vec::new();
    let mut i: usize = 0;
    assert(names.take(0) =~= Seq::empty());
    assert(texts(out@) =~= Seq::empty());
    assert(texts(seen@) =~= names.take(0));
    while i < keys.len()
        invariant
            i <= keys.len(),
            names == texts(keys@),
            texts(seen@) == names.take(i as int),
            texts(out@) == distinct_quoted(names.take(i as int)),
        decreases keys.len() - i,
    {
        proof {
            assert(names.take(i + 1).drop_last() =~= names.take(i as int));
            assert(names.take(i + 1).last() == keys@[i as int]@);
        }
        let ghost before = texts(out@);
        if !holds(&seen, keys[i].as_str()) {
            let mut literal = String::new();
            push_char(&mut literal, '"');
            push_escaped(&mut literal, keys[i].as_str());
            push_char(&mut literal, '"');
            assert(literal@ =~= quoted(keys@[i as int]@));
            out.push(literal);
            assert(texts(out@) =~= before.push(quoted(keys@[i as int]@)));
        }
        seen.push(keys[i].clone());
        assert(texts(seen@) =~= names.take(i + 1));
        i += 1;
    }
    assert(names.take(keys@.len() as int) =~= names);
    out
}

/// Says whether the keys that a format string uses are the keys that the
/// field `name` has to use, and if not, which they are and should be.
pub fn check_keys(name: &str, keys: &Vec<String>, required: &Vec<String>) -> (r: Result<
    (),
    I18nError,
>)
    ensures
        match r {
            Ok(_) => forall|key: Seq<char>|
                texts(keys@).contains(key) <==> texts(required@).contains(key),
            Err(e) => e matches I18nError::FormatParameterMismatch(message) && message@
                == mismatch_text(name@, texts(keys@), texts(required@)) && !(forall|
                key: Seq<char>,
            | texts(keys@).contains(key) <==> texts(required@).contains(key)),
        },
{
    if check_format_keys(keys, required) {
        Ok(())
    } else {
        let mut message = String::from_str("'self.");
        message.append(name);
        message.append("' must use [");
        push_joined(&mut message, required, ", ");
        message.append("], but use {");
        let used = quote_distinct(keys);
        push_joined(&mut message, &used, ", ");
        message.append("}");
        assert(message@ =~= mismatch_text(name@, texts(keys@), texts(required@)));
        Err(I18nError::FormatParameterMismatch(message))
    }
}

/// Checks the format string of the field `name`: it has to be a format
/// string, and to use the keys `required`, all of them and no others.
pub fn check_format(name: &str, fmt: &str, required: &Vec<String>) -> (r: Result<(), I18nError>)
    ensures
        match strfmt_keys(fmt@) {
            None => r matches Err(I18nError::FormatError(_)),
            Some(keys) => match r {
                Ok(_) => forall|key: Seq<char>| keys.contains(key) <==> texts(required@).contains(key),
                Err(e) => e matches I18nError::FormatParameterMismatch(message) && message@
                    == mismatch_text(name@, keys, texts(required@)) && !(forall|key: Seq<char>|
                    keys.contains(key) <==> texts(required@).contains(key)),
            },
        },
{
    match format_keys(fmt) {
        Err(e) => Err(I18nError::FormatError(describe_format_error(&e))),
        Ok(keys) => check_keys(name, &keys, required),
    }
}

} // verus!
