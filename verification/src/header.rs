//! The header names that a script may set, and the map from them to values.
use vstd::prelude::*;
use vstd::string::StrSliceExecFns;
use crate::lines::chars_of;

verus! {

/// The headers of a script's output that are understood. Every other name is
/// ignored.
#[derive(Clone, Copy, Debug, PartialEq, Eq, Structural, Hash)]
pub enum CGIResponseHeader {
    ContentType,
    Location,
    Status,
}

/// An upper-case ASCII letter as its lower-case form, any other character as
/// itself.
pub open spec fn ascii_lower(c: char) -> char {
    if 'A' <= c && c <= 'Z' {
        ((c as u8) + 32) as char
    } else {
        c
    }
}

/// Two texts are the same up to the case of their ASCII letters.
pub open spec fn eq_ignore_ascii_case(a: Seq<char>, b: Seq<char>) -> bool {
    &&& a.len() == b.len()
    &&& forall|i: int| 0 <= i < a.len() ==> ascii_lower(#[trigger] a[i]) == ascii_lower(b[i])
}

/// The header that a name stands for, if any. The names are `Content-Type`,
/// `Location` and `Status`, in any mix of upper and lower case.
pub open spec fn recognized_header(name: Seq<char>) -> Option<CGIResponseHeader> {
    if eq_ignore_ascii_case(name, "Content-Type"@) {
        Some(CGIResponseHeader::ContentType)
    } else if eq_ignore_ascii_case(name, "Location"@) {
        Some(CGIResponseHeader::Location)
    } else if eq_ignore_ascii_case(name, "Status"@) {
        Some(CGIResponseHeader::Status)
    } else {
        None
    }
}

fn to_ascii_lower(c: char) -> (r: char)
    ensures
        r == ascii_lower(c),
{
    if 'A' <= c && c <= 'Z' {
        let b: u8 = c as u8;
        (b + 32) as char
    } else {
        c
    }
}

fn name_is(name: &[char], canonical: &str) -> (r: bool)
    ensures
        r == eq_ignore_ascii_case(name@, canonical@),
{
    let n: usize = canonical.unicode_len();
    if name.len() != n {
        return false;
    }
    let mut i: usize = 0;
    while i < n
        invariant
            i <= n,
            n == name@.len(),
            n == canonical@.len(),
            forall|j: int| 0 <= j < i ==> ascii_lower(#[trigger] name@[j]) == ascii_lower(canonical@[j]),
        decreases n - i,
    {
        if to_ascii_lower(name[i]) != to_ascii_lower(canonical.get_char(i)) {
            return false;
        }
        i += 1;
    }
    true
}

impl CGIResponseHeader {
    /// Reads a header name from a string, whatever the case of its letters.
    pub fn from_str(name: &str) -> (r: Option<CGIResponseHeader>)
        ensures
            r == recognized_header(name@),
    {
        let chars = chars_of(name);
        CGIResponseHeader::from_chars(chars.as_slice())
    }

    /// Reads a header name, whatever the case of its letters.
    pub fn from_chars(name: &[char]) -> (r: Option<CGIResponseHeader>)
        ensures
            r == recognized_header(name@),
    {
        if name_is(name, "Content-Type") {
            Some(CGIResponseHeader::ContentType)
        } else if name_is(name, "Location") {
            Some(CGIResponseHeader::Location)
        } else if name_is(name, "Status") {
            Some(CGIResponseHeader::Status)
        } else {
            None
        }
    }
}

/// The values of the understood headers, at most one for each.
#[derive(Clone, Debug, PartialEq, Eq)]
pub struct CGIResponseHeaderMap {
    content_type: Option<String>,
    location: Option<String>,
    status: Option<String>,
}

/// A string that may be missing, as the text it holds.
pub open spec fn option_text(value: Option<String>) -> Option<Seq<char>> {
    match value {
        Some(s) => Some(s@),
        None => None,
    }
}

impl CGIResponseHeaderMap {
    /// The value held for a header, if there is one.
    pub closed spec fn value_of(&self, key: CGIResponseHeader) -> Option<Seq<char>> {
        match key {
            CGIResponseHeader::ContentType => option_text(self.content_type),
            CGIResponseHeader::Location => option_text(self.location),
            CGIResponseHeader::Status => option_text(self.status),
        }
    }
}

impl View for CGIResponseHeaderMap {
    type V = Map<CGIResponseHeader, Seq<char>>;

    open spec fn view(&self) -> Map<CGIResponseHeader, Seq<char>> {
        Map::new(
            |key: CGIResponseHeader| self.value_of(key) is Some,
            |key: CGIResponseHeader| self.value_of(key)->Some_0,
        )
    }
}

impl CGIResponseHeaderMap {
    /// A map that holds no header.
    pub fn new() -> (r: CGIResponseHeaderMap)
        ensures
            r@ == Map::<CGIResponseHeader, Seq<char>>::empty(),
    {
        let r = CGIResponseHeaderMap { content_type: None, location: None, status: None };
        assert(r@ =~= Map::<CGIResponseHeader, Seq<char>>::empty());
        r
    }

    /// Sets the value of a header; an earlier value of it is lost.
    pub fn insert(&mut self, key: CGIResponseHeader, value: String)
        ensures
            final(self)@ == old(self)@.insert(key, value@),
    {
        match key {
            CGIResponseHeader::ContentType => {
                self.content_type = Some(value);
            },
            CGIResponseHeader::Location => {
                self.location = Some(value);
            },
            CGIResponseHeader::Status => {
                self.status = Some(value);
            },
        }
        assert(self@ =~= old(self)@.insert(key, value@));
    }

    /// The value of a header, if the map holds one.
    pub fn get(&self, key: CGIResponseHeader) -> (r: Option<&String>)
        ensures
            r is Some <==> self@.contains_key(key),
            r matches Some(value) ==> value@ == self@[key],
    {
        match key {
            CGIResponseHeader::ContentType => self.content_type.as_ref(),
            CGIResponseHeader::Location => self.location.as_ref(),
            CGIResponseHeader::Status => self.status.as_ref(),
        }
    }

    /// Whether the map holds a value for a header.
    pub fn contains_key(&self, key: CGIResponseHeader) -> (r: bool)
        ensures
            r == self@.contains_key(key),
    {
        self.get(key).is_some()
    }

    /// Whether no header has a value.
    pub fn is_empty(&self) -> (r: bool)
        ensures
            r == (self@ == Map::<CGIResponseHeader, Seq<char>>::empty()),
    {
        let r = self.content_type.is_none() && self.location.is_none() && self.status.is_none();
        proof {
            if r {
                assert(self@ =~= Map::<CGIResponseHeader, Seq<char>>::empty());
            } else {
                assert(self@.contains_key(CGIResponseHeader::ContentType) || self@.contains_key(
                    CGIResponseHeader::Location,
                ) || self@.contains_key(CGIResponseHeader::Status));
            }
        }
        r
    }
}

} // verus!
