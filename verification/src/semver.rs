//! Semantic versions of three numbers, their order, and their text form
//! `major.minor.patch`.

use crate::text::{
    decimal, lemma_decimal, lemma_index_of, lemma_parse_decimal, parse_decimal_u32, parse_u32,
    push_decimal, split, split_str, views,
};
use std::cmp::Ordering;
use vstd::prelude::*;
use vstd::string::StringExecFns;

verus! {

/// Why a text is no version.
#[derive(Debug, Clone)]
pub enum SemVerError {
    /// The text is not made of exactly three fields separated by dots.
    InvalidFormat,
    /// The field given is no 32-bit unsigned number.
    InvalidNumber(String),
}

/// `SemVerError` with its text as a sequence of characters.
pub enum SemVerFault {
    InvalidFormat,
    InvalidNumber(Seq<char>),
}

impl View for SemVerError {
    type V = SemVerFault;

    open spec fn view(&self) -> SemVerFault {
        match self {
            SemVerError::InvalidFormat => SemVerFault::InvalidFormat,
            SemVerError::InvalidNumber(field) => SemVerFault::InvalidNumber(field@),
        }
    }
}

impl SemVerFault {
    /// The message of the fault.
    pub open spec fn message(self) -> Seq<char> {
        match self {
            SemVerFault::InvalidFormat => "Invalid version format"@,
            SemVerFault::InvalidNumber(field) => "Invalid number in version: "@ + field,
        }
    }
}

impl SemVerError {
    /// The message of the error.
    pub fn to_string(&self) -> (s: String)
        ensures
            s@ == self@.message(),
    {
        match self {
            SemVerError::InvalidFormat => "Invalid version format".to_owned(),
            SemVerError::InvalidNumber(field) => {
                let mut s = "Invalid number in version: ".to_owned();
                s.append(field.as_str());
                s
            },
        }
    }
}

/// A version: three numbers, ordered as the triple (major, minor, patch).
#[derive(Debug, Clone, Copy, PartialEq, Eq, Structural, Ord)]
pub struct Version {
    pub major: u32,
    pub minor: u32,
    pub patch: u32,
}

/// Whether `a` comes before `b`: the triples (major, minor, patch) compared
/// from the left.
pub open spec fn precedes(a: Version, b: Version) -> bool {
    a.major < b.major || (a.major == b.major && (a.minor < b.minor || (a.minor == b.minor
        && a.patch < b.patch)))
}

/// The text form of a version: its three numerals with a dot between them.
pub open spec fn version_text(v: Version) -> Seq<char> {
    decimal(v.major as nat) + seq!['.'] + decimal(v.minor as nat) + seq!['.'] + decimal(
        v.patch as nat,
    )
}

/// The version that a text stands for, or why it stands for none: the text
/// must split at its dots into exactly three fields, and the first field
/// that is no 32-bit number is reported.
pub open spec fn parse_version(s: Seq<char>) -> Result<Version, SemVerFault> {
    let fields = split(s, '.');
    if fields.len() != 3 {
        Err(SemVerFault::InvalidFormat)
    } else {
        match parse_decimal_u32(fields[0]) {
            None => Err(SemVerFault::InvalidNumber(fields[0])),
            Some(major) => match parse_decimal_u32(fields[1]) {
                None => Err(SemVerFault::InvalidNumber(fields[1])),
                Some(minor) => match parse_decimal_u32(fields[2]) {
                    None => Err(SemVerFault::InvalidNumber(fields[2])),
                    Some(patch) => Ok(Version { major, minor, patch }),
                },
            },
        }
    }
}

impl Version {
    pub fn new(major: u32, minor: u32, patch: u32) -> (v: Version)
        ensures
            v == (Version { major, minor, patch }),
    {
        Version { major, minor, patch }
    }

    /// Reads a version from its text form.
    pub fn parse(version_str: &str) -> (r: Result<Version, SemVerError>)
        ensures
            match r {
                Ok(v) => parse_version(version_str@) == Ok::<Version, SemVerFault>(v),
                Err(e) => parse_version(version_str@) == Err::<Version, SemVerFault>(e@),
            },
    {
        let parts = split_str(version_str, '.');
        if parts.len() != 3 {
            return Err(SemVerError::InvalidFormat);
        }
        assert(views(parts@)[0] == parts@[0]@);
        assert(views(parts@)[1] == parts@[1]@);
        assert(views(parts@)[2] == parts@[2]@);
        let major: u32 = match parse_u32(parts[0].as_str()) {
            Some(n) => n,
            None => return Err(SemVerError::InvalidNumber(parts[0].clone())),
        };
        let minor: u32 = match parse_u32(parts[1].as_str()) {
            Some(n) => n,
            None => return Err(SemVerError::InvalidNumber(parts[1].clone())),
        };
        let patch: u32 = match parse_u32(parts[2].as_str()) {
            Some(n) => n,
            None => return Err(SemVerError::InvalidNumber(parts[2].clone())),
        };
        Ok(Version::new(major, minor, patch))
    }

    /// The text form `major.minor.patch`.
    pub fn to_string(&self) -> (s: String)
        ensures
            s@ == version_text(*self),
    {
        let mut s = String::new();
        push_decimal(&mut s, self.major);
        s.push('.');
        push_decimal(&mut s, self.minor);
        s.push('.');
        push_decimal(&mut s, self.patch);
        assert(s@ =~= version_text(*self));
        s
    }
}

/// A numeral holds no dot.
proof fn lemma_decimal_has_no_dot(n: nat)
    ensures
        forall|j: int| 0 <= j < decimal(n).len() ==> decimal(n)[j] != '.',
{
    lemma_decimal(n);
}

/// Reading the text form of a version gives the version back.
pub proof fn lemma_parse_version_text(v: Version)
    ensures
        parse_version(version_text(v)) == Ok::<Version, SemVerFault>(v),
{
    let a = decimal(v.major as nat);
    let b = decimal(v.minor as nat);
    let c = decimal(v.patch as nat);
    let dot = seq!['.'];
    let s = version_text(v);
    let s2 = b + dot + c;
    lemma_decimal_has_no_dot(v.major as nat);
    lemma_decimal_has_no_dot(v.minor as nat);
    lemma_decimal_has_no_dot(v.patch as nat);

    lemma_index_of(c, '.', c.len() as int);
    assert(split(c, '.') == seq![c]);

    lemma_index_of(s2, '.', b.len() as int);
    assert(s2.take(b.len() as int) =~= b);
    assert(s2.skip(b.len() as int + 1) =~= c);
    assert(split(s2, '.') == seq![b] + seq![c]);

    lemma_index_of(s, '.', a.len() as int);
    assert(s.take(a.len() as int) =~= a);
    assert(s.skip(a.len() as int + 1) =~= s2);
    assert(split(s, '.') == seq![a] + (seq![b] + seq![c]));

    let fields = split(s, '.');
    assert(fields.len() == 3);
    assert(fields[0] == a && fields[1] == b && fields[2] == c);
    lemma_parse_decimal(v.major);
    lemma_parse_decimal(v.minor);
    lemma_parse_decimal(v.patch);
}

/// The order of versions is a strict total order: no version comes before
/// itself, of two different versions exactly one comes before the other,
/// and what comes before an earlier version comes before a later one.
pub proof fn lemma_version_order(a: Version, b: Version, c: Version)
    ensures
        !precedes(a, a),
        a != b ==> (precedes(a, b) <==> !precedes(b, a)),
        a == b ==> !precedes(a, b) && !precedes(b, a),
        precedes(a, b) && precedes(b, c) ==> precedes(a, c),
{
}

impl PartialOrd for Version {
    fn partial_cmp(&self, other: &Self) -> (r: Option<Ordering>) {
        if self.major != other.major {
            if self.major < other.major {
                Some(Ordering::Less)
            } else {
                Some(Ordering::Greater)
            }
        } else if self.minor != other.minor {
            if self.minor < other.minor {
                Some(Ordering::Less)
            } else {
                Some(Ordering::Greater)
            }
        } else if self.patch != other.patch {
            if self.patch < other.patch {
                Some(Ordering::Less)
            } else {
                Some(Ordering::Greater)
            }
        } else {
            Some(Ordering::Equal)
        }
    }
}

impl vstd::std_specs::cmp::PartialOrdSpecImpl for Version {
    open spec fn obeys_partial_cmp_spec() -> bool {
        true
    }

    open spec fn partial_cmp_spec(&self, other: &Self) -> Option<Ordering> {
        if precedes(*self, *other) {
            Some(Ordering::Less)
        } else if precedes(*other, *self) {
            Some(Ordering::Greater)
        } else {
            Some(Ordering::Equal)
        }
    }
}

} // verus!
