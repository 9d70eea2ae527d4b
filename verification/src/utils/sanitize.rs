//! Input sanitisation and validation: composable filters applied to raw
//! input strings. Filters run in order and short-circuit on the first
//! failure, returning an error that describes what went wrong.

use crate::utils::text::{
    dec_value, int_dec_str_of, int_str_ok, i64_to_dec_string, parse_int_str, str_eq, trim_of,
    trim_str,
};
use vstd::prelude::*;

verus! {

/// A validation filter applied to user input.
///
/// - `MatchString`: the input must equal one given string.
/// - `MatchStrings`: the input must equal one of the given options.
/// - `IsBetween`: the input must be an integer inside an inclusive range.
/// - `IsType`: the input must parse as a given primitive type.
pub enum Sanitize {
    MatchString(String),
    MatchStrings(Vec<String>),
    IsBetween(isize, isize),
    IsType(DesiredType),
}

/// The primitive type that an input is required to parse as, used with
/// [`Sanitize::IsType`].
#[derive(Debug, Clone, Copy, PartialEq, Eq, Structural)]
pub enum DesiredType {
    String,
    Bool,
    U8,
    U16,
    U32,
    U64,
    U128,
    I8,
    I16,
    I32,
    I64,
    I128,
    Isize,
}

/// Why an input was rejected by a filter.
#[derive(Debug)]
pub enum FilterErrorNot {
    Number(DesiredType),
    String(DesiredType),
    Bool(DesiredType),
    MatchString(String),
    MatchStrings(Vec<String>),
    Between(isize, isize),
}

/// Returned when a type name does not denote any [`DesiredType`].
#[derive(Debug)]
pub enum DesiredTypeFromStrErr {
    UnknownType(String),
}

/// The magnitude bound on the digits of a valid text of type `t` when the
/// sign is plus or absent.
pub open spec fn pos_bound_of(t: DesiredType) -> int {
    match t {
        DesiredType::String => 0,
        DesiredType::Bool => 0,
        DesiredType::U8 => u8::MAX as int,
        DesiredType::U16 => u16::MAX as int,
        DesiredType::U32 => u32::MAX as int,
        DesiredType::U64 => u64::MAX as int,
        DesiredType::U128 => u128::MAX as int,
        DesiredType::I8 => i8::MAX as int,
        DesiredType::I16 => i16::MAX as int,
        DesiredType::I32 => i32::MAX as int,
        DesiredType::I64 => i64::MAX as int,
        DesiredType::I128 => i128::MAX as int,
        DesiredType::Isize => isize::MAX as int,
    }
}

/// The magnitude bound when the sign is minus; zero marks the unsigned
/// types, whose texts admit no minus sign.
pub open spec fn neg_bound_of(t: DesiredType) -> int {
    match t {
        DesiredType::String => 0,
        DesiredType::Bool => 0,
        DesiredType::U8 => 0,
        DesiredType::U16 => 0,
        DesiredType::U32 => 0,
        DesiredType::U64 => 0,
        DesiredType::U128 => 0,
        DesiredType::I8 => i8::MAX as int + 1,
        DesiredType::I16 => i16::MAX as int + 1,
        DesiredType::I32 => i32::MAX as int + 1,
        DesiredType::I64 => i64::MAX as int + 1,
        DesiredType::I128 => i128::MAX as int + 1,
        DesiredType::Isize => isize::MAX as int + 1,
    }
}

/// Whether `t` is one of the signed integer types.
pub open spec fn is_signed_int_type(t: DesiredType) -> bool {
    neg_bound_of(t) > 0
}

/// Whether `s` parses as a value of type `t`, exactly as `str::parse` for
/// the corresponding Rust type decides it.
pub open spec fn type_ok(t: DesiredType, s: Seq<char>) -> bool {
    match t {
        DesiredType::String => true,
        DesiredType::Bool => s == "true"@ || s == "false"@,
        _ => int_str_ok(s, is_signed_int_type(t), pos_bound_of(t), neg_bound_of(t)),
    }
}

/// The signed value of an optionally signed digit string.
pub open spec fn int_str_value(s: Seq<char>) -> int {
    if s.len() > 0 && s[0] == '-' {
        -dec_value(s.skip(1))
    } else if s.len() > 0 && s[0] == '+' {
        dec_value(s.skip(1))
    } else {
        dec_value(s)
    }
}

/// Whether the filter accepts the (already trimmed) input `s`.
pub open spec fn filter_accepts(f: Sanitize, s: Seq<char>) -> bool {
    match f {
        Sanitize::MatchString(m) => s == m@,
        Sanitize::MatchStrings(v) => exists|i: int| 0 <= i < v@.len() && (#[trigger] v@[i])@ == s,
        Sanitize::IsBetween(lo, hi) => {
            &&& type_ok(DesiredType::Isize, s)
            &&& lo <= int_str_value(s) <= hi
        },
        Sanitize::IsType(t) => type_ok(t, s),
    }
}

/// Whether `e` is the error that the filter `f` reports for the rejected
/// input `s`.
pub open spec fn filter_error_of(f: Sanitize, s: Seq<char>, e: FilterErrorNot) -> bool {
    match f {
        Sanitize::MatchString(m) => e matches FilterErrorNot::MatchString(p) && p@ == m@,
        Sanitize::MatchStrings(v) => e matches FilterErrorNot::MatchStrings(p) && p@ == v@,
        Sanitize::IsBetween(lo, hi) => {
            if type_ok(DesiredType::Isize, s) {
                e matches FilterErrorNot::Between(a, b) && a == lo && b == hi
            } else {
                e matches FilterErrorNot::Number(DesiredType::Isize)
            }
        },
        Sanitize::IsType(t) => match t {
            DesiredType::String => e matches FilterErrorNot::String(DesiredType::String),
            DesiredType::Bool => e matches FilterErrorNot::Bool(DesiredType::Bool),
            _ => e matches FilterErrorNot::Number(u) && u == t,
        },
    }
}

impl DesiredType {
    /// Checks whether `input` parses as this type, exactly as `str::parse`
    /// for the corresponding Rust type would.
    pub fn parse(&self, input: &str) -> (r: Result<(), FilterErrorNot>)
        ensures
            r is Ok <==> type_ok(*self, input@),
            r matches Err(e) ==> filter_error_of(Sanitize::IsType(*self), input@, e),
    {
        match self {
            DesiredType::String => Ok(()),
            DesiredType::Bool => {
                if str_eq(input, "true") || str_eq(input, "false") {
                    Ok(())
                } else {
                    Err(FilterErrorNot::Bool(DesiredType::Bool))
                }
            },
            _ => {
                let (signed, pos_max, neg_max): (bool, u128, u128) = match self {
                    DesiredType::U8 => (false, u8::MAX as u128, 0),
                    DesiredType::U16 => (false, u16::MAX as u128, 0),
                    DesiredType::U32 => (false, u32::MAX as u128, 0),
                    DesiredType::U64 => (false, u64::MAX as u128, 0),
                    DesiredType::U128 => (false, u128::MAX, 0),
                    DesiredType::I8 => (true, i8::MAX as u128, i8::MAX as u128 + 1),
                    DesiredType::I16 => (true, i16::MAX as u128, i16::MAX as u128 + 1),
                    DesiredType::I32 => (true, i32::MAX as u128, i32::MAX as u128 + 1),
                    DesiredType::I64 => (true, i64::MAX as u128, i64::MAX as u128 + 1),
                    DesiredType::I128 => (true, i128::MAX as u128, i128::MAX as u128 + 1),
                    _ => (true, isize::MAX as u128, isize::MAX as u128 + 1),
                };
                match parse_int_str(input, signed, pos_max, neg_max) {
                    Some(_) => Ok(()),
                    None => Err(FilterErrorNot::Number(*self)),
                }
            },
        }
    }

    /// Writes the lower-case name of the type.
    pub fn display_name(&self) -> (r: String)
        ensures
            r@ == display_name_of(*self),
    {
        match self {
            DesiredType::String => String::from_str("string"),
            DesiredType::Bool => String::from_str("bool"),
            DesiredType::U8 => String::from_str("u8"),
            DesiredType::U16 => String::from_str("u16"),
            DesiredType::U32 => String::from_str("u32"),
            DesiredType::U64 => String::from_str("u64"),
            DesiredType::U128 => String::from_str("u128"),
            DesiredType::I8 => String::from_str("i8"),
            DesiredType::I16 => String::from_str("i16"),
            DesiredType::I32 => String::from_str("i32"),
            DesiredType::I64 => String::from_str("i64"),
            DesiredType::I128 => String::from_str("i128"),
            DesiredType::Isize => String::from_str("isize"),
        }
    }

    /// Reads a type from its declared name, the capitalised `String` and
    /// the lower-case primitive names.
    pub fn parse_name(s: &str) -> (r: Result<DesiredType, DesiredTypeFromStrErr>)
        ensures
            r matches Ok(t) <==> (exists|t: DesiredType| #[trigger] declared_name_of(t) == s@),
            r matches Ok(t) ==> declared_name_of(t) == s@,
            r matches Err(DesiredTypeFromStrErr::UnknownType(m)) ==> m@ == s@ && (forall|
                t: DesiredType,
            | #[trigger] declared_name_of(t) != s@),
    {
        if str_eq(s, "String") {
            assert(declared_name_of(DesiredType::String) == s@);
            Ok(DesiredType::String)
        } else if str_eq(s, "bool") {
            assert(declared_name_of(DesiredType::Bool) == s@);
            Ok(DesiredType::Bool)
        } else if str_eq(s, "u8") {
            assert(declared_name_of(DesiredType::U8) == s@);
            Ok(DesiredType::U8)
        } else if str_eq(s, "u16") {
            assert(declared_name_of(DesiredType::U16) == s@);
            Ok(DesiredType::U16)
        } else if str_eq(s, "u32") {
            assert(declared_name_of(DesiredType::U32) == s@);
            Ok(DesiredType::U32)
        } else if str_eq(s, "u64") {
            assert(declared_name_of(DesiredType::U64) == s@);
            Ok(DesiredType::U64)
        } else if str_eq(s, "u128") {
            assert(declared_name_of(DesiredType::U128) == s@);
            Ok(DesiredType::U128)
        } else if str_eq(s, "i8") {
            assert(declared_name_of(DesiredType::I8) == s@);
            Ok(DesiredType::I8)
        } else if str_eq(s, "i16") {
            assert(declared_name_of(DesiredType::I16) == s@);
            Ok(DesiredType::I16)
        } else if str_eq(s, "i32") {
            assert(declared_name_of(DesiredType::I32) == s@);
            Ok(DesiredType::I32)
        } else if str_eq(s, "i64") {
            assert(declared_name_of(DesiredType::I64) == s@);
            Ok(DesiredType::I64)
        } else if str_eq(s, "i128") {
            assert(declared_name_of(DesiredType::I128) == s@);
            Ok(DesiredType::I128)
        } else if str_eq(s, "isize") {
            assert(declared_name_of(DesiredType::Isize) == s@);
            Ok(DesiredType::Isize)
        } else {
            proof {
                assert forall|t: DesiredType| #[trigger] declared_name_of(t) != s@ by {
                    match t {
                        DesiredType::String => assert(declared_name_of(t) == "String"@),
                        DesiredType::Bool => assert(declared_name_of(t) == "bool"@),
                        DesiredType::U8 => assert(declared_name_of(t) == "u8"@),
                        DesiredType::U16 => assert(declared_name_of(t) == "u16"@),
                        DesiredType::U32 => assert(declared_name_of(t) == "u32"@),
                        DesiredType::U64 => assert(declared_name_of(t) == "u64"@),
                        DesiredType::U128 => assert(declared_name_of(t) == "u128"@),
                        DesiredType::I8 => assert(declared_name_of(t) == "i8"@),
                        DesiredType::I16 => assert(declared_name_of(t) == "i16"@),
                        DesiredType::I32 => assert(declared_name_of(t) == "i32"@),
                        DesiredType::I64 => assert(declared_name_of(t) == "i64"@),
                        DesiredType::I128 => assert(declared_name_of(t) == "i128"@),
                        DesiredType::Isize => assert(declared_name_of(t) == "isize"@),
                    }
                }
            }
            Err(DesiredTypeFromStrErr::UnknownType(String::from_str(s)))
        }
    }
}

/// The lower-case display name of a type.
pub open spec fn display_name_of(t: DesiredType) -> Seq<char> {
    match t {
        DesiredType::String => "string"@,
        DesiredType::Bool => "bool"@,
        DesiredType::U8 => "u8"@,
        DesiredType::U16 => "u16"@,
        DesiredType::U32 => "u32"@,
        DesiredType::U64 => "u64"@,
        DesiredType::U128 => "u128"@,
        DesiredType::I8 => "i8"@,
        DesiredType::I16 => "i16"@,
        DesiredType::I32 => "i32"@,
        DesiredType::I64 => "i64"@,
        DesiredType::I128 => "i128"@,
        DesiredType::Isize => "isize"@,
    }
}

/// The name under which a type is requested from [`DesiredType::parse_name`].
pub open spec fn declared_name_of(t: DesiredType) -> Seq<char> {
    match t {
        DesiredType::String => "String"@,
        _ => display_name_of(t),
    }
}

impl DesiredTypeFromStrErr {
    /// Writes the human-readable description of the error.
    pub fn message(&self) -> (r: String)
        ensures
            r@ == name_error_message_of(*self),
    {
        match self {
            DesiredTypeFromStrErr::UnknownType(s) => {
                let mut m = String::from_str("The value ");
                m.append(s.as_str());
                m.append(" is not available as a type, try again!");
                m
            },
        }
    }
}

/// The description of a type-name error.
pub open spec fn name_error_message_of(e: DesiredTypeFromStrErr) -> Seq<char> {
    match e {
        DesiredTypeFromStrErr::UnknownType(s) => "The value "@ + s@
            + " is not available as a type, try again!"@,
    }
}

impl core::str::FromStr for DesiredType {
    type Err = DesiredTypeFromStrErr;

    fn from_str(s: &str) -> Result<Self, Self::Err> {
        DesiredType::parse_name(s)
    }
}

impl TryFrom<&str> for DesiredType {
    type Error = DesiredTypeFromStrErr;

    fn try_from(value: &str) -> Result<Self, Self::Error> {
        DesiredType::parse_name(value)
    }
}

impl vstd::std_specs::convert::TryFromSpecImpl<&str> for DesiredType {
    open spec fn obeys_try_from_spec() -> bool {
        false
    }

    open spec fn try_from_spec(v: &str) -> Result<Self, Self::Error> {
        arbitrary()
    }
}

impl Sanitize {
    /// Validates one (already trimmed) input against this filter. Returns
    /// the error describing the first reason for rejection.
    pub fn validate(&self, input: &str) -> (r: Result<(), FilterErrorNot>)
        ensures
            r is Ok <==> filter_accepts(*self, input@),
            r matches Err(e) ==> filter_error_of(*self, input@, e),
    {
        match self {
            Sanitize::IsType(ty) => ty.parse(input),
            Sanitize::MatchString(s) => {
                if str_eq(input, s.as_str()) {
                    Ok(())
                } else {
                    Err(FilterErrorNot::MatchString(s.clone()))
                }
            },
            Sanitize::MatchStrings(options) => {
                let n = options.len();
                let mut i: usize = 0;
                while i < n
                    invariant
                        i <= n,
                        n == options@.len(),
                        *self is MatchStrings,
                        self->MatchStrings_0 == *options,
                        forall|j: int| 0 <= j < i ==> (#[trigger] options@[j])@ != input@,
                    decreases n - i,
                {
                    if str_eq(input, options[i].as_str()) {
                        proof {
                            let ghost k: int = i as int;
                            assert(0 <= k < options@.len() && (options@[k])@ == input@);
                            assert(*self is MatchStrings);
                            assert(self->MatchStrings_0 == *options);
                            assert(exists|j: int|
                                0 <= j < (self->MatchStrings_0)@.len() && (#[trigger] (
                                self->MatchStrings_0)@[j])@ == input@);
                            assert(filter_accepts(*self, input@));
                        }
                        return Ok(());
                    }
                    i = i + 1;
                }
                Err(FilterErrorNot::MatchStrings(crate::utils::text::clone_string_vec(options)))
            },
            Sanitize::IsBetween(n1, n2) => {
                match parse_int_str(input, true, isize::MAX as u128, isize::MAX as u128 + 1) {
                    Some((neg, mag)) => {
                        let value: isize = if neg {
                            if mag == isize::MAX as u128 + 1 {
                                isize::MIN
                            } else {
                                -(mag as isize)
                            }
                        } else {
                            mag as isize
                        };
                        assert(value as int == int_str_value(input@));
                        if *n1 <= value && value <= *n2 {
                            Ok(())
                        } else {
                            Err(FilterErrorNot::Between(*n1, *n2))
                        }
                    },
                    None => Err(FilterErrorNot::Number(DesiredType::Isize)),
                }
            },
        }
    }

    /// Runs every filter against the trimmed `answer`, in order, stopping
    /// at the first failure. Returns the trimmed answer when all pass.
    pub fn execute(answer: &str, filters: &[Sanitize]) -> (r: Result<String, FilterErrorNot>)
        ensures
            r is Ok <==> (forall|k: int|
                0 <= k < filters@.len() ==> filter_accepts(#[trigger] filters@[k], trim_of(
                    answer@,
                ))),
            r matches Ok(s) ==> s@ == trim_of(answer@),
            r matches Err(e) ==> (exists|k: int|
                {
                    &&& 0 <= k < filters@.len()
                    &&& !filter_accepts(#[trigger] filters@[k], trim_of(answer@))
                    &&& filter_error_of(filters@[k], trim_of(answer@), e)
                    &&& forall|j: int| 0 <= j < k ==> filter_accepts(#[trigger] filters@[j], trim_of(answer@))
                }),
    {
        let clean_answer = trim_str(answer);
        let n = filters.len();
        let mut i: usize = 0;
        while i < n
            invariant
                i <= n,
                n == filters@.len(),
                clean_answer@ == trim_of(answer@),
                forall|j: int| 0 <= j < i ==> filter_accepts(#[trigger] filters@[j], trim_of(answer@)),
            decreases n - i,
        {
            match filters[i].validate(clean_answer.as_str()) {
                Ok(_) => {},
                Err(e) => {
                    return Err(e);
                },
            }
            i = i + 1;
        }
        Ok(clean_answer)
    }
}

impl FilterErrorNot {
    /// Writes the human-readable description of the rejection.
    pub fn message(&self) -> (r: String)
        ensures
            r@ == message_of(*self),
    {
        match self {
            FilterErrorNot::Number(t) => {
                let mut s = String::from_str("The value is not a ");
                let name = t.display_name();
                s.append(name.as_str());
                s.append(", try again!");
                s
            },
            FilterErrorNot::String(t) => {
                let mut s = String::from_str("The value is not ");
                let name = t.display_name();
                s.append(name.as_str());
                s.append(", try again!");
                s
            },
            FilterErrorNot::Bool(t) => {
                let mut s = String::from_str("The value is not a ");
                let name = t.display_name();
                s.append(name.as_str());
                s.append(", try again!");
                s
            },
            FilterErrorNot::MatchString(m) => {
                let mut s = String::from_str("The value doesn't match with ");
                s.append(m.as_str());
                s.append(", try again!");
                s
            },
            FilterErrorNot::MatchStrings(v) => {
                let mut s = String::from_str("The value doesn't match with the options: ");
                let joined = join_comma(v);
                s.append(joined.as_str());
                s.append(", try again!");
                s
            },
            FilterErrorNot::Between(n1, n2) => {
                let mut s = String::from_str("The value is not between ");
                let a = i64_to_dec_string(*n1 as i64);
                s.append(a.as_str());
                s.append(" and ");
                let b = i64_to_dec_string(*n2 as i64);
                s.append(b.as_str());
                s.append(", try again!");
                s
            },
        }
    }
}

/// The description that [`FilterErrorNot::message`] writes.
pub open spec fn message_of(e: FilterErrorNot) -> Seq<char> {
    match e {
        FilterErrorNot::Number(t) => "The value is not a "@ + display_name_of(t) + ", try again!"@,
        FilterErrorNot::String(t) => "The value is not "@ + display_name_of(t) + ", try again!"@,
        FilterErrorNot::Bool(t) => "The value is not a "@ + display_name_of(t) + ", try again!"@,
        FilterErrorNot::MatchString(m) => "The value doesn't match with "@ + m@ + ", try again!"@,
        FilterErrorNot::MatchStrings(v) => "The value doesn't match with the options: "@
            + joined_of(v@) + ", try again!"@,
        FilterErrorNot::Between(n1, n2) => "The value is not between "@ + int_dec_str_of(n1 as int)
            + " and "@ + int_dec_str_of(n2 as int) + ", try again!"@,
    }
}

/// The options joined with a comma and a space.
pub open spec fn joined_of(v: Seq<String>) -> Seq<char>
    decreases v.len(),
{
    if v.len() == 0 {
        Seq::empty()
    } else if v.len() == 1 {
        v[0]@
    } else {
        joined_of(v.drop_last()) + ", "@ + v.last()@
    }
}

/// Joins the strings with a comma and a space.
fn join_comma(v: &Vec<String>) -> (r: String)
    ensures
        r@ == joined_of(v@),
{
    let mut s = String::new();
    let n = v.len();
    let mut i: usize = 0;
    while i < n
        invariant
            i <= n,
            n == v@.len(),
            s@ == joined_of(v@.take(i as int)),
        decreases n - i,
    {
        if i > 0 {
            s.append(", ");
        }
        s.append(v[i].as_str());
        proof {
            assert(v@.take(i + 1).drop_last() =~= v@.take(i as int));
            assert(v@.take(i + 1).last() == v@[i as int]);
        }
        i = i + 1;
    }
    proof {
        assert(v@.take(n as int) =~= v@);
    }
    s
}

} // verus!
