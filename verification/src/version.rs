//! The version model: a semantic version string parsed into its first three
//! numeric components, with release-maturity predicates.

use vstd::prelude::*;
use crate::errors::WmtError;
use crate::text::{
    all_digits, is_digit_char, lemma_find_char_absent, lemma_find_char_concat, lemma_split_len,
    lemma_split_step, parse_u64, spec_parse_u64, spec_split, split_str,
};

verus! {

/// A parsed semantic version: the raw text and its first three numeric
/// components.
#[derive(Debug)]
pub struct Version {
    pub id: String,
    pub major: u64,
    pub minor: u64,
    pub patch: u64,
}

/// What parsing a version string yields: the string is split on dots; there
/// must be at least three segments and each of the first three must parse
/// entirely as a decimal number. Segments after the third are ignored.
pub open spec fn spec_parse_version(s: Seq<char>) -> Option<(u64, u64, u64)> {
    let parts = spec_split(s, seq!['.']);
    if parts.len() < 3 {
        None
    } else {
        match (spec_parse_u64(parts[0]), spec_parse_u64(parts[1]), spec_parse_u64(parts[2])) {
            (Some(major), Some(minor), Some(patch)) => Some((major, minor, patch)),
            _ => None,
        }
    }
}

/// Splitting a string made of a digit-only segment, a dot, and a remainder
/// yields that segment followed by the split of the remainder.
proof fn lemma_split_digit_segment(a: Seq<char>, rest: Seq<char>)
    requires
        all_digits(a),
    ensures
        spec_split(a + seq!['.'] + rest, seq!['.']) == seq![a] + spec_split(rest, seq!['.']),
{
    assert forall|i: int| 0 <= i < a.len() implies a[i] != '.' by {
        assert(is_digit_char(a[i]));
    }
    let s = a + seq!['.'] + rest;
    lemma_find_char_concat(a, '.', rest);
    lemma_split_step(s, seq!['.']);
    assert(s.take(a.len() as int) =~= a);
    assert(s.skip(a.len() as int + 1) =~= rest);
    lemma_split_len(rest, seq!['.']);
}

/// For every version text of the shape "major.minor.patch" followed by
/// nothing or by further dot-separated text, parsing extracts exactly the
/// three numeric components, whatever the trailing text holds.
pub proof fn lemma_parse_version_components(a: Seq<char>, b: Seq<char>, c: Seq<char>, tail: Seq<
    char,
>)
    requires
        spec_parse_u64(a) is Some,
        spec_parse_u64(b) is Some,
        spec_parse_u64(c) is Some,
        tail.len() == 0 || tail[0] == '.',
    ensures
        spec_parse_version(a + seq!['.'] + b + seq!['.'] + c + tail) == Some(
            (spec_parse_u64(a).unwrap(), spec_parse_u64(b).unwrap(), spec_parse_u64(c).unwrap()),
        ),
{
    let s = a + seq!['.'] + b + seq!['.'] + c + tail;
    let rest1 = b + seq!['.'] + (c + tail);
    let rest2 = c + tail;
    assert(s =~= a + seq!['.'] + rest1);
    lemma_split_digit_segment(a, rest1);
    assert(rest1 =~= b + seq!['.'] + rest2);
    lemma_split_digit_segment(b, rest2);
    assert forall|i: int| 0 <= i < c.len() implies c[i] != '.' by {
        assert(is_digit_char(c[i]));
    }
    if tail.len() == 0 {
        assert(rest2 =~= c);
        lemma_find_char_absent(c, '.');
        lemma_split_step(c, seq!['.']);
        assert(spec_split(rest2, seq!['.']) =~= seq![c]);
    } else {
        assert(rest2 =~= c + seq!['.'] + tail.drop_first());
        lemma_split_digit_segment(c, tail.drop_first());
        lemma_split_len(tail.drop_first(), seq!['.']);
    }
    let parts = spec_split(s, seq!['.']);
    assert(parts[0] == a);
    assert(parts[1] == b);
    assert(parts[2] == c);
    assert(parts.len() >= 3);
}

impl Version {
    /// Parses `text` as "major.minor.patch[...]"; trailing dot-separated
    /// segments are tolerated, anything else is `MalformedVersion`.
    pub fn from_version_text(text: &str) -> (r: Result<Version, WmtError>)
        ensures
            match r {
                Ok(v) => spec_parse_version(text@) == Some((v.major, v.minor, v.patch)) && v.id@
                    == text@,
                Err(e) => spec_parse_version(text@) is None && e == WmtError::MalformedVersion,
            },
    {
        proof {
            reveal_strlit(".");
            assert("."@ =~= seq!['.']);
        }
        let parts = split_str(text, ".");
        if parts.len() < 3 {
            return Err(WmtError::MalformedVersion);
        }
        proof {
            assert(parts.deep_view()[0] == parts@[0]@);
            assert(parts.deep_view()[1] == parts@[1]@);
            assert(parts.deep_view()[2] == parts@[2]@);
        }
        let major = match parse_u64(parts[0].as_str()) {
            Some(n) => n,
            None => {
                return Err(WmtError::MalformedVersion);
            },
        };
        let minor = match parse_u64(parts[1].as_str()) {
            Some(n) => n,
            None => {
                return Err(WmtError::MalformedVersion);
            },
        };
        let patch = match parse_u64(parts[2].as_str()) {
            Some(n) => n,
            None => {
                return Err(WmtError::MalformedVersion);
            },
        };
        Ok(Version { id: text.to_owned(), major, minor, patch })
    }

    /// Whether at least one major release exists: major > 0.
    pub fn at_least_one_major_release(&self) -> (r: bool)
        ensures
            r == (self.major > 0),
    {
        self.major > 0
    }

    /// Whether at least one minor release exists: minor >= 1.
    pub fn at_least_one_minor_release(&self) -> (r: bool)
        ensures
            r == (self.minor >= 1),
    {
        self.minor >= 1
    }
}

} // verus!
