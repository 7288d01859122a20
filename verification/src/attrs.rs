//! The attributes that a field of a localised text can carry, and what
//! they make of the field.

use vstd::prelude::*;
use crate::text::{reversed, str_eq};

verus! {

/// The `ignore` attribute.
#[derive(Debug)]
pub struct Ignore(pub bool);

impl Ignore {
    /// Whether the field is left out.
    pub fn value(&self) -> (b: bool)
        ensures
            b == self.0,
    {
        self.0
    }
}

/// A field of a localised text, with the name it is stored under.
#[derive(Debug, Clone, PartialEq, Eq)]
pub struct I18nField {
    pub name: String,
    pub original_name: Option<String>,
    pub format: Option<Vec<String>>,
}

/// The attributes that there are.
#[derive(Debug, Clone, Copy, PartialEq, Eq, Structural)]
pub enum AttrKind {
    Ignore,
    Rename,
    Format,
}

impl AttrKind {
    /// The name of the attribute.
    pub open spec fn name(self) -> Seq<char> {
        match self {
            AttrKind::Ignore => "ignore"@,
            AttrKind::Rename => "rename"@,
            AttrKind::Format => "format"@,
        }
    }

    /// The name of the attribute.
    pub fn to_text(&self) -> (s: String)
        ensures
            s@ == self.name(),
    {
        match self {
            AttrKind::Ignore => String::from_str("ignore"),
            AttrKind::Rename => String::from_str("rename"),
            AttrKind::Format => String::from_str("format"),
        }
    }

    /// The attribute of the given name, or an error that names it.
    pub fn parse(name: &str) -> (r: Result<AttrKind, AttrError>)
        ensures
            match r {
                Ok(kind) => kind.name() == name@,
                Err(e) => e matches AttrError::UnknownAttr(n) && n@ == name@ && forall|
                    kind: AttrKind,
                | kind.name() != name@,
            },
    {
        if str_eq(name, "ignore") {
            Ok(AttrKind::Ignore)
        } else if str_eq(name, "rename") {
            Ok(AttrKind::Rename)
        } else if str_eq(name, "format") {
            Ok(AttrKind::Format)
        } else {
            Err(AttrError::UnknownAttr(String::from_str(name)))
        }
    }
}

/// Why the attributes of a field cannot stand as they are.
#[derive(Debug)]
pub enum AttrError {
    /// The attribute stands twice.
    AlreadySet(AttrKind),
    /// The attribute stands without the argument it needs.
    RequiresArgument(AttrKind),
    /// The attribute stands with an argument and takes none.
    TakesNoArguments(AttrKind),
    /// There is no attribute of this name.
    UnknownAttr(String),
    /// The attribute has no name.
    EmptyAttr,
    /// A key of `format` stands with a value.
    FormatKeyWithValue,
    /// `ignore` stands beside another attribute.
    IgnoreWithOthers,
    /// A field without a name has no `rename`.
    UnnamedWithoutRename,
}

impl AttrError {
    /// The error in words.
    pub open spec fn text(self) -> Seq<char> {
        match self {
            AttrError::AlreadySet(kind) => kind.name() + " attribute is already set"@,
            AttrError::RequiresArgument(kind) => kind.name() + " attribute requires an argument"@,
            AttrError::TakesNoArguments(kind) => kind.name()
                + " attribute does not take any arguments"@,
            AttrError::UnknownAttr(name) => "~~~ unknown attr: "@ + name@,
            AttrError::EmptyAttr => "~~~ empty attr"@,
            AttrError::FormatKeyWithValue => "format(a, b, ...) can't has value"@,
            AttrError::IgnoreWithOthers => "'ignore' cannot be used with other attributes"@,
            AttrError::UnnamedWithoutRename => "unnamed field must provide 'rename' attribute"@,
        }
    }

    /// The error in words.
    pub fn to_text(&self) -> (s: String)
        ensures
            s@ == self.text(),
    {
        match self {
            AttrError::AlreadySet(kind) => kind.to_text().concat(" attribute is already set"),
            AttrError::RequiresArgument(kind) => kind.to_text().concat(
                " attribute requires an argument",
            ),
            AttrError::TakesNoArguments(kind) => kind.to_text().concat(
                " attribute does not take any arguments",
            ),
            AttrError::UnknownAttr(name) => String::from_str("~~~ unknown attr: ").concat(
                name.as_str(),
            ),
            AttrError::EmptyAttr => String::from_str("~~~ empty attr"),
            AttrError::FormatKeyWithValue => String::from_str("format(a, b, ...) can't has value"),
            AttrError::IgnoreWithOthers => String::from_str(
                "'ignore' cannot be used with other attributes",
            ),
            AttrError::UnnamedWithoutRename => String::from_str(
                "unnamed field must provide 'rename' attribute",
            ),
        }
    }
}

/// Decides whether an attribute may stand where it was met: it may not
/// stand twice, `ignore` takes no argument, and the others need one.
pub fn accept(kind: AttrKind, already_set: bool, input_is_empty: bool) -> (r: Result<
    (),
    AttrError,
>)
    ensures
        match r {
            Ok(_) => !already_set && input_is_empty == (kind == AttrKind::Ignore),
            Err(AttrError::AlreadySet(k)) => already_set && k == kind,
            Err(AttrError::TakesNoArguments(k)) => !already_set && k == kind && kind
                == AttrKind::Ignore && !input_is_empty,
            Err(AttrError::RequiresArgument(k)) => !already_set && k == kind && kind
                != AttrKind::Ignore && input_is_empty,
            Err(_) => false,
        },
{
    if already_set {
        return Err(AttrError::AlreadySet(kind));
    }
    match kind {
        AttrKind::Ignore => {
            if input_is_empty {
                Ok(())
            } else {
                Err(AttrError::TakesNoArguments(kind))
            }
        },
        _ => {
            if input_is_empty {
                Err(AttrError::RequiresArgument(kind))
            } else {
                Ok(())
            }
        },
    }
}

/// Decides what the attributes make of a field. An ignored field yields
/// nothing, and may carry no other attribute. Any other field is stored
/// under its `rename`, or else under its own name, and must have one of
/// the two.
pub fn resolve_field(
    ignore: Option<Ignore>,
    name: Option<String>,
    rename: Option<String>,
    format: Option<Vec<String>>,
) -> (r: Result<Option<I18nField>, AttrError>)
    ensures
        match r {
            Ok(None) => ignore matches Some(i) && i.0 && rename is None && format is None,
            Ok(Some(field)) => {
                &&& !(ignore matches Some(i) && i.0)
                &&& field.original_name == name
                &&& field.format == format
                &&& match rename {
                    Some(to) => field.name == to,
                    None => name == Some(field.name),
                }
            },
            Err(e) => if ignore matches Some(i) && i.0 {
                e is IgnoreWithOthers && (rename is Some || format is Some)
            } else {
                e is UnnamedWithoutRename && name is None && rename is None
            },
        },
{
    let ignored = match &ignore {
        Some(i) => i.value(),
        None => false,
    };
    if ignored {
        if rename.is_none() && format.is_none() {
            Ok(None)
        } else {
            Err(AttrError::IgnoreWithOthers)
        }
    } else {
        match rename {
            Some(to) => Ok(Some(I18nField { name: to, original_name: name, format })),
            None => match name {
                Some(own) => Ok(
                    Some(I18nField { name: own.clone(), original_name: Some(own), format }),
                ),
                None => Err(AttrError::UnnamedWithoutRename),
            },
        }
    }
}

/// The fields among the outcomes, in order.
pub open spec fn fields_of(outcomes: Seq<Result<Option<I18nField>, AttrError>>) -> Seq<I18nField>
    decreases outcomes.len(),
{
    if outcomes.len() == 0 {
        Seq::empty()
    } else {
        match outcomes.last() {
            Ok(Some(field)) => fields_of(outcomes.drop_last()).push(field),
            _ => fields_of(outcomes.drop_last()),
        }
    }
}

/// The errors among the outcomes, in order.
pub open spec fn errors_of(outcomes: Seq<Result<Option<I18nField>, AttrError>>) -> Seq<AttrError>
    decreases outcomes.len(),
{
    if outcomes.len() == 0 {
        Seq::empty()
    } else {
        match outcomes.last() {
            Err(e) => errors_of(outcomes.drop_last()).push(e),
            _ => errors_of(outcomes.drop_last()),
        }
    }
}

/// Gathers what was decided for each field of a type: the fields that
/// are stored, in order, or else all the errors, in order.
pub fn collect_fields(outcomes: Vec<Result<Option<I18nField>, AttrError>>) -> (r: Result<
    Vec<I18nField>,
    Vec<AttrError>,
>)
    ensures
        match r {
            Ok(fields) => errors_of(outcomes@).len() == 0 && fields@ == fields_of(outcomes@),
            Err(errors) => errors@.len() > 0 && errors@ == errors_of(outcomes@),
        },
{
    let mut fields: Vec<I18nField> = Vec::new();
    let mut errors: Vec<AttrError> = Vec::new();
    let mut back = reversed(outcomes);
    let ghost mut done: int = 0;
    assert(outcomes@.take(0) =~= Seq::empty());
    while back.len() > 0
        invariant
            0 <= done <= outcomes@.len(),
            back@.len() == outcomes@.len() - done,
            forall|j: int|
                0 <= j < back@.len() ==> #[trigger] back@[j] == outcomes@[outcomes@.len() - 1 - j],
            fields@ == fields_of(outcomes@.take(done)),
            errors@ == errors_of(outcomes@.take(done)),
        decreases back@.len(),
    {
        let outcome = back.pop().unwrap();
        proof {
            assert(outcome == outcomes@[done]);
            assert(outcomes@.take(done + 1).drop_last() =~= outcomes@.take(done));
            assert(outcomes@.take(done + 1).last() == outcome);
        }
        match outcome {
            Ok(Some(field)) => fields.push(field),
            Ok(None) => {},
            Err(e) => errors.push(e),
        }
        proof {
            done = done + 1;
        }
    }
    assert(outcomes@.take(outcomes@.len() as int) =~= outcomes@);
    if errors.len() == 0 {
        Ok(fields)
    } else {
        Err(errors)
    }
}

} // verus!
