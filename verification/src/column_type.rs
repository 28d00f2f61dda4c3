//! Reading a column's type name as the sink's catalog reports it:
//! `Nullable(Int32)`, `Enum8('A' = 0)`, `UInt64`, `Array(String)`.
//!
//! Two patterns are searched in the name with the `regex` crate. What the
//! searches found decides the column's integer width and whether it is an
//! enum; that decision is [`column_type_from_captures`].
use crate::error::{Error, ErrorView};
use crate::number::{parse_i32, parse_number};
use crate::text::starts_with;
use vstd::prelude::*;

verus! {

/// What one search of a pattern found: one entry for each match, in the order
/// of the text, each with its groups (group 0 is the whole match; a group that
/// took no part in the match is `None`).
pub type Captures = Seq<Seq<Option<Seq<char>>>>;

/// What a type name says of a column.
#[derive(Clone, Copy, Debug, PartialEq, Eq, Structural)]
pub struct ColumnType {
    /// The column takes `NULL`.
    pub nullable: bool,
    /// The width in bits of an integer column: positive where it is signed,
    /// negative where it is unsigned or an enum, 0 where it is no integer.
    pub int_size: i32,
    /// The column is an enum; `int_size` then holds its width, negated.
    pub is_enum: bool,
}

/// The pattern of an integer type: an optional `U`, `Int`, and the width.
pub open spec fn int_pattern() -> Seq<char> {
    "(U)?Int(8|16|32|64)"@
}

/// The pattern of an enum type: `Enum`, the width, and an opening bracket.
pub open spec fn enum_pattern() -> Seq<char> {
    "Enum(8|16)\\("@
}

/// The prefix that marks a nullable column.
pub open spec fn nullable_prefix() -> Seq<char> {
    "Nullable("@
}

/// What the `regex` crate finds of `pattern` in `text`: every match that
/// `Regex::captures_iter` yields, or `None` where `Regex::new` refuses the
/// pattern.
pub uninterp spec fn regex_captures(pattern: Seq<char>, text: Seq<char>) -> Option<Captures>;

/// The groups of one match, as texts.
pub open spec fn groups_view(groups: Seq<Option<String>>) -> Seq<Option<Seq<char>>> {
    Seq::new(
        groups.len(),
        |i: int|
            match groups[i] {
                Some(s) => Some(s@),
                None => None,
            },
    )
}

/// The matches of one search, as texts.
pub open spec fn captures_view(found: Option<Vec<Vec<Option<String>>>>) -> Option<Captures> {
    match found {
        Some(all) => Some(Seq::new(all@.len(), |i: int| groups_view(all@[i]@))),
        None => None,
    }
}

/// Compiles `pattern` with `regex::Regex::new` and collects what
/// `Regex::captures_iter` yields on `text`: for each match its groups, each as
/// the text it matched. Nothing is proved of the search itself; the contract
/// only gives its outcome a name, which rests on the search being a function
/// of the pattern and the text alone.
#[verifier::external_body]
fn all_captures(pattern: &str, text: &str) -> (found: Option<Vec<Vec<Option<String>>>>)
    ensures
        captures_view(found) == regex_captures(pattern@, text@),
{
    let re = regex::Regex::new(pattern).ok()?;
    let mut found = Vec::new();
    for caps in re.captures_iter(text) {
        found.push(caps.iter().map(|g| g.map(|m| m.as_str().to_string())).collect());
    }
    Some(found)
}

/// Group `i` of a match, `None` where the match has no such group or the
/// group took no part.
pub open spec fn group_text(groups: Seq<Option<Seq<char>>>, i: int) -> Option<Seq<char>> {
    if 0 <= i < groups.len() {
        groups[i]
    } else {
        None
    }
}

/// The width that group `i` of a match holds.
pub open spec fn captured_width(groups: Seq<Option<Seq<char>>>, i: int) -> Result<int, ErrorView> {
    match group_text(groups, i) {
        None => Err(ErrorView::ParseError("Unable to parse integer type"@)),
        Some(t) => match parse_i32(t) {
            None => Err(ErrorView::ParseError("Invalid integer prefix"@)),
            Some(w) => Ok(w),
        },
    }
}

/// `w` negated, where the result is a width that the column can hold.
pub open spec fn negated_width(w: int) -> Result<int, ErrorView> {
    if w == i32::MIN {
        Err(ErrorView::ParseError("Invalid integer prefix"@))
    } else {
        Ok(-w)
    }
}

/// The integer width that the search for [`int_pattern`] gives: 0 without a
/// match; with one match the width of its second group, negated where the
/// first group is `U`; an error with more than one.
pub open spec fn integer_width(found: Option<Captures>) -> Result<int, ErrorView> {
    match found {
        None => Err(ErrorView::ParseError("Invalid integer pattern"@)),
        Some(all) => if all.len() == 0 {
            Ok(0)
        } else if all.len() > 1 {
            Err(ErrorView::ParseError("Ambiguous integer type"@))
        } else {
            match captured_width(all[0], 2) {
                Err(e) => Err(e),
                Ok(w) => if group_text(all[0], 1) == Some("U"@) {
                    negated_width(w)
                } else {
                    Ok(w)
                },
            }
        },
    }
}

/// The width that the search for [`enum_pattern`] gives, negated: `None`
/// without a match, an error with more than one.
pub open spec fn enum_width(found: Option<Captures>) -> Result<Option<int>, ErrorView> {
    match found {
        None => Err(ErrorView::ParseError("Invalid enum pattern"@)),
        Some(all) => if all.len() == 0 {
            Ok(None)
        } else if all.len() > 1 {
            Err(ErrorView::ParseError("Ambiguous enum type"@))
        } else {
            match captured_width(all[0], 1) {
                Err(e) => Err(e),
                Ok(w) => match negated_width(w) {
                    Err(e) => Err(e),
                    Ok(n) => Ok(Some(n)),
                },
            }
        },
    }
}

/// What the type name `raw` says of a column, given what the two searches
/// found in it. An enum takes the width's place over an integer.
pub open spec fn column_type(raw: Seq<char>, ints: Option<Captures>, enums: Option<Captures>) -> Result<
    ColumnType,
    ErrorView,
> {
    match integer_width(ints) {
        Err(e) => Err(e),
        Ok(w) => match enum_width(enums) {
            Err(e) => Err(e),
            Ok(None) => Ok(
                ColumnType {
                    nullable: nullable_prefix().is_prefix_of(raw),
                    int_size: w as i32,
                    is_enum: false,
                },
            ),
            Ok(Some(n)) => Ok(
                ColumnType {
                    nullable: nullable_prefix().is_prefix_of(raw),
                    int_size: n as i32,
                    is_enum: true,
                },
            ),
        },
    }
}

/// What [`parse_column_type`] gives for the type name `raw`.
pub open spec fn parsed_column_type(raw: Seq<char>) -> Result<ColumnType, ErrorView> {
    column_type(raw, regex_captures(int_pattern(), raw), regex_captures(enum_pattern(), raw))
}

/// Whether an outcome of the library is the outcome `model` of its
/// specification.
pub open spec fn type_outcome_is(r: Result<ColumnType, Error>, model: Result<ColumnType, ErrorView>) -> bool {
    match r {
        Ok(t) => model == Ok::<ColumnType, ErrorView>(t),
        Err(e) => model == Err::<ColumnType, ErrorView>(e@),
    }
}

fn width_of_group(groups: &Vec<Option<String>>, i: usize) -> (r: Result<i32, Error>)
    ensures
        match r {
            Ok(w) => captured_width(groups_view(groups@), i as int) == Ok::<int, ErrorView>(w as int),
            Err(e) => captured_width(groups_view(groups@), i as int) == Err::<int, ErrorView>(e@),
        },
{
    if i >= groups.len() {
        return Err(Error::parse_error("Unable to parse integer type"));
    }
    match &groups[i] {
        None => Err(Error::parse_error("Unable to parse integer type")),
        Some(text) => match parse_number(text.as_str()) {
            None => Err(Error::parse_error("Invalid integer prefix")),
            Some(w) => Ok(w),
        },
    }
}

fn negate_width(w: i32) -> (r: Result<i32, Error>)
    ensures
        match r {
            Ok(n) => negated_width(w as int) == Ok::<int, ErrorView>(n as int),
            Err(e) => negated_width(w as int) == Err::<int, ErrorView>(e@),
        },
{
    if w == i32::MIN {
        Err(Error::parse_error("Invalid integer prefix"))
    } else {
        Ok(-w)
    }
}

fn has_unsigned_prefix(groups: &Vec<Option<String>>) -> (b: bool)
    ensures
        b == (group_text(groups_view(groups@), 1) == Some("U"@)),
{
    if groups.len() < 2 {
        return false;
    }
    match &groups[1] {
        None => false,
        Some(text) => {
            let b = crate::text::same_text(text.as_str(), "U");
            b
        },
    }
}

fn integer_width_of(found: &Option<Vec<Vec<Option<String>>>>) -> (r: Result<i32, Error>)
    ensures
        match r {
            Ok(w) => integer_width(captures_view(*found)) == Ok::<int, ErrorView>(w as int),
            Err(e) => integer_width(captures_view(*found)) == Err::<int, ErrorView>(e@),
        },
{
    match found {
        None => Err(Error::parse_error("Invalid integer pattern")),
        Some(all) => {
            if all.len() == 0 {
                Ok(0)
            } else if all.len() > 1 {
                Err(Error::parse_error("Ambiguous integer type"))
            } else {
                let w = width_of_group(&all[0], 2)?;
                if has_unsigned_prefix(&all[0]) {
                    negate_width(w)
                } else {
                    Ok(w)
                }
            }
        },
    }
}

fn enum_width_of(found: &Option<Vec<Vec<Option<String>>>>) -> (r: Result<Option<i32>, Error>)
    ensures
        match r {
            Ok(Some(w)) => enum_width(captures_view(*found)) == Ok::<Option<int>, ErrorView>(
                Some(w as int),
            ),
            Ok(None) => enum_width(captures_view(*found)) == Ok::<Option<int>, ErrorView>(None),
            Err(e) => enum_width(captures_view(*found)) == Err::<Option<int>, ErrorView>(e@),
        },
{
    match found {
        None => Err(Error::parse_error("Invalid enum pattern")),
        Some(all) => {
            if all.len() == 0 {
                Ok(None)
            } else if all.len() > 1 {
                Err(Error::parse_error("Ambiguous enum type"))
            } else {
                let w = width_of_group(&all[0], 1)?;
                let n = negate_width(w)?;
                Ok(Some(n))
            }
        },
    }
}

/// Decides what the type name `raw` says of a column from what the searches
/// for the integer pattern (`ints`) and for the enum pattern (`enums`) found
/// in it.
pub fn column_type_from_captures(
    raw: &str,
    ints: &Option<Vec<Vec<Option<String>>>>,
    enums: &Option<Vec<Vec<Option<String>>>>,
) -> (r: Result<ColumnType, Error>)
    ensures
        type_outcome_is(r, column_type(raw@, captures_view(*ints), captures_view(*enums))),
{
    let nullable = starts_with(raw, "Nullable(");
    let width = integer_width_of(ints)?;
    match enum_width_of(enums)? {
        None => Ok(ColumnType { nullable, int_size: width, is_enum: false }),
        Some(n) => Ok(ColumnType { nullable, int_size: n, is_enum: true }),
    }
}

/// Reads the type name `raw`: the column is nullable where the name begins
/// with `Nullable(`; its width and whether it is an enum follow from the two
/// searches as [`column_type`] says.
pub fn parse_column_type(raw: &str) -> (r: Result<ColumnType, Error>)
    ensures
        type_outcome_is(r, parsed_column_type(raw@)),
        r matches Ok(t) ==> t.nullable == nullable_prefix().is_prefix_of(raw@),
{
    let ints = all_captures("(U)?Int(8|16|32|64)", raw);
    let enums = all_captures("Enum(8|16)\\(", raw);
    column_type_from_captures(raw, &ints, &enums)
}

/// A type name that is read at all is read as nullable exactly where it
/// begins with `Nullable(`, whatever else it holds.
pub proof fn lemma_nullable_iff_prefixed(raw: Seq<char>, ints: Option<Captures>, enums: Option<Captures>)
    ensures
        column_type(raw, ints, enums) matches Ok(t) ==> t.nullable == nullable_prefix().is_prefix_of(
            raw,
        ),
{
}

/// Where the integer pattern matches once and no enum is found, the column's
/// width is the captured width in absolute value, and it is negative exactly
/// where the match begins with `U`.
pub proof fn lemma_single_integer_match(
    raw: Seq<char>,
    groups: Seq<Option<Seq<char>>>,
    width: int,
)
    requires
        captured_width(groups, 2) == Ok::<int, ErrorView>(width),
        0 < width,
    ensures
        column_type(raw, Some(seq![groups]), Some(Seq::empty())) matches Ok(t) && !t.is_enum && (
        if group_text(groups, 1) == Some("U"@) {
            t.int_size == -width
        } else {
            t.int_size == width
        }),
{
    assert(seq![groups][0] == groups);
}

/// A type name in which the integer pattern matches more than once is
/// refused, whatever the search for an enum found.
pub proof fn lemma_ambiguous_match_is_refused(raw: Seq<char>, ints: Captures, enums: Option<Captures>)
    requires
        ints.len() > 1,
    ensures
        column_type(raw, Some(ints), enums) == Err::<ColumnType, ErrorView>(
            ErrorView::ParseError("Ambiguous integer type"@),
        ),
{
}

} // verus!
