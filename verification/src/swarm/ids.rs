//! Validated identities of the durable work graph.
//!
//! Each kind of identity is a type of its own, so one cannot stand in for
//! another, and each value is bounded and safe as part of a path before it can
//! reach the durable ledger.

use crate::error::{invalid, invalid_fault, judged, refused, Fault, OrchError};
use crate::text::{
    byte_len, contains_text, copy, join2, str_contains, str_eq, to_chars, utf8_len,
};
use vstd::prelude::*;
use vstd::string::*;

verus! {

/// Most bytes in any identity, so that one which is valid can name a file.
pub const MAX_ID_BYTES: usize = 128;

/// Characters an identity may hold.
pub open spec fn id_char(c: char) -> bool {
    ('a' <= c && c <= 'z') || ('A' <= c && c <= 'Z') || ('0' <= c && c <= '9') || c == '-' || c
        == '_' || c == '.' || c == ':'
}

/// What is wrong with an identity of this kind.
pub open spec fn id_value_fault(kind: Seq<char>, value: Seq<char>) -> Option<Fault> {
    if value.len() == 0 || utf8_len(value) > MAX_ID_BYTES {
        Some(invalid_fault(kind + " must be 1..=128 bytes"@))
    } else if exists|i: int| 0 <= i < value.len() && !id_char(#[trigger] value[i]) {
        Some(invalid_fault(kind + " contains characters outside [A-Za-z0-9-_.:]"@))
    } else if contains_text(value, ".."@) {
        Some(invalid_fault(kind + " must not contain a parent-directory sequence"@))
    } else {
        None
    }
}

fn is_id_char(c: char) -> (r: bool)
    ensures
        r == id_char(c),
{
    ('a' <= c && c <= 'z') || ('A' <= c && c <= 'Z') || ('0' <= c && c <= '9') || c == '-' || c
        == '_' || c == '.' || c == ':'
}

/// Refuses values that are not identities.
pub fn validate_id_value(kind: &str, value: &str) -> (r: Result<(), OrchError>)
    ensures
        judged(r, id_value_fault(kind@, value@)),
{
    if value.is_empty() || byte_len(value) > MAX_ID_BYTES {
        return Err(invalid(join2(kind, " must be 1..=128 bytes").as_str()));
    }
    let v: Vec<char> = to_chars(value);
    let mut i: usize = 0;
    while i < v.len()
        invariant
            i <= v@.len(),
            v@ == value@,
            value@.len() > 0,
            utf8_len(value@) <= MAX_ID_BYTES,
            forall|j: int| 0 <= j < i ==> id_char(#[trigger] v@[j]),
        decreases v.len() - i,
    {
        if !is_id_char(v[i]) {
            proof {
                assert(!id_char(value@[i as int]));
            }
            return Err(
                invalid(join2(kind, " contains characters outside [A-Za-z0-9-_.:]").as_str()),
            );
        }
        i = i + 1;
    }
    if str_contains(value, "..") {
        return Err(
            invalid(join2(kind, " must not contain a parent-directory sequence").as_str()),
        );
    }
    Ok(())
}

/// Names one work graph.
#[derive(Debug, PartialEq, Eq, PartialOrd, Ord, Hash)]
pub struct GraphId(String);

impl GraphId {
    /// The text of this identity.
    pub closed spec fn view(&self) -> Seq<char> {
        self.0@
    }

    /// What is wrong with this identity.
    pub open spec fn fault(&self) -> Option<Fault> {
        id_value_fault("graph id"@, self@)
    }

    /// Takes a text as an identity, if it is one.
    pub fn parse(value: &str) -> (r: Result<Self, OrchError>)
        ensures
            match id_value_fault("graph id"@, value@) {
                Some(f) => refused(r, f),
                None => r is Ok && r->Ok_0@ == value@,
            },
    {
        validate_id_value("graph id", value)?;
        Ok(GraphId(copy(value)))
    }

    /// Takes a stored text as it is; [`Self::validate`] decides whether it is
    /// to be trusted.
    pub fn from_stored(value: &str) -> (r: Self)
        ensures
            r@ == value@,
    {
        GraphId(copy(value))
    }

    pub fn as_str(&self) -> (s: &str)
        ensures
            s@ == self@,
    {
        self.0.as_str()
    }

    /// Checks an identity that was stored.
    pub fn validate(&self) -> (r: Result<(), OrchError>)
        ensures
            judged(r, self.fault()),
    {
        validate_id_value("graph id", self.0.as_str())
    }

    /// Whether both are the same identity.
    pub fn same(&self, other: &Self) -> (r: bool)
        ensures
            r == (self@ == other@),
    {
        str_eq(self.0.as_str(), other.0.as_str())
    }
}

impl Clone for GraphId {
    fn clone(&self) -> (r: Self)
        ensures
            r == *self,
    {
        GraphId(self.0.clone())
    }
}

/// Names one item of a graph.
#[derive(Debug, PartialEq, Eq, PartialOrd, Ord, Hash)]
pub struct WorkId(String);

impl WorkId {
    /// The text of this identity.
    pub closed spec fn view(&self) -> Seq<char> {
        self.0@
    }

    /// What is wrong with this identity.
    pub open spec fn fault(&self) -> Option<Fault> {
        id_value_fault("work id"@, self@)
    }

    /// Takes a text as an identity, if it is one.
    pub fn parse(value: &str) -> (r: Result<Self, OrchError>)
        ensures
            match id_value_fault("work id"@, value@) {
                Some(f) => refused(r, f),
                None => r is Ok && r->Ok_0@ == value@,
            },
    {
        validate_id_value("work id", value)?;
        Ok(WorkId(copy(value)))
    }

    /// Takes a stored text as it is; [`Self::validate`] decides whether it is
    /// to be trusted.
    pub fn from_stored(value: &str) -> (r: Self)
        ensures
            r@ == value@,
    {
        WorkId(copy(value))
    }

    pub fn as_str(&self) -> (s: &str)
        ensures
            s@ == self@,
    {
        self.0.as_str()
    }

    /// Checks an identity that was stored.
    pub fn validate(&self) -> (r: Result<(), OrchError>)
        ensures
            judged(r, self.fault()),
    {
        validate_id_value("work id", self.0.as_str())
    }

    /// Whether both are the same identity.
    pub fn same(&self, other: &Self) -> (r: bool)
        ensures
            r == (self@ == other@),
    {
        str_eq(self.0.as_str(), other.0.as_str())
    }
}

impl Clone for WorkId {
    fn clone(&self) -> (r: Self)
        ensures
            r == *self,
    {
        WorkId(self.0.clone())
    }
}

/// Names one worker of a graph.
#[derive(Debug, PartialEq, Eq, PartialOrd, Ord, Hash)]
pub struct WorkerId(String);

impl WorkerId {
    /// The text of this identity.
    pub closed spec fn view(&self) -> Seq<char> {
        self.0@
    }

    /// What is wrong with this identity.
    pub open spec fn fault(&self) -> Option<Fault> {
        id_value_fault("worker id"@, self@)
    }

    /// Takes a text as an identity, if it is one.
    pub fn parse(value: &str) -> (r: Result<Self, OrchError>)
        ensures
            match id_value_fault("worker id"@, value@) {
                Some(f) => refused(r, f),
                None => r is Ok && r->Ok_0@ == value@,
            },
    {
        validate_id_value("worker id", value)?;
        Ok(WorkerId(copy(value)))
    }

    /// Takes a stored text as it is; [`Self::validate`] decides whether it is
    /// to be trusted.
    pub fn from_stored(value: &str) -> (r: Self)
        ensures
            r@ == value@,
    {
        WorkerId(copy(value))
    }

    pub fn as_str(&self) -> (s: &str)
        ensures
            s@ == self@,
    {
        self.0.as_str()
    }

    /// Checks an identity that was stored.
    pub fn validate(&self) -> (r: Result<(), OrchError>)
        ensures
            judged(r, self.fault()),
    {
        validate_id_value("worker id", self.0.as_str())
    }

    /// Whether both are the same identity.
    pub fn same(&self, other: &Self) -> (r: bool)
        ensures
            r == (self@ == other@),
    {
        str_eq(self.0.as_str(), other.0.as_str())
    }
}

impl Clone for WorkerId {
    fn clone(&self) -> (r: Self)
        ensures
            r == *self,
    {
        WorkerId(self.0.clone())
    }
}

/// Names one attempt at an item.
#[derive(Debug, PartialEq, Eq, PartialOrd, Ord, Hash)]
pub struct AttemptId(String);

impl AttemptId {
    /// The text of this identity.
    pub closed spec fn view(&self) -> Seq<char> {
        self.0@
    }

    /// What is wrong with this identity.
    pub open spec fn fault(&self) -> Option<Fault> {
        id_value_fault("attempt id"@, self@)
    }

    /// Takes a text as an identity, if it is one.
    pub fn parse(value: &str) -> (r: Result<Self, OrchError>)
        ensures
            match id_value_fault("attempt id"@, value@) {
                Some(f) => refused(r, f),
                None => r is Ok && r->Ok_0@ == value@,
            },
    {
        validate_id_value("attempt id", value)?;
        Ok(AttemptId(copy(value)))
    }

    /// Takes a stored text as it is; [`Self::validate`] decides whether it is
    /// to be trusted.
    pub fn from_stored(value: &str) -> (r: Self)
        ensures
            r@ == value@,
    {
        AttemptId(copy(value))
    }

    pub fn as_str(&self) -> (s: &str)
        ensures
            s@ == self@,
    {
        self.0.as_str()
    }

    /// Checks an identity that was stored.
    pub fn validate(&self) -> (r: Result<(), OrchError>)
        ensures
            judged(r, self.fault()),
    {
        validate_id_value("attempt id", self.0.as_str())
    }

    /// Whether both are the same identity.
    pub fn same(&self, other: &Self) -> (r: bool)
        ensures
            r == (self@ == other@),
    {
        str_eq(self.0.as_str(), other.0.as_str())
    }
}

impl Clone for AttemptId {
    fn clone(&self) -> (r: Self)
        ensures
            r == *self,
    {
        AttemptId(self.0.clone())
    }
}

/// Names one lease.
#[derive(Debug, PartialEq, Eq, PartialOrd, Ord, Hash)]
pub struct LeaseId(String);

impl LeaseId {
    /// The text of this identity.
    pub closed spec fn view(&self) -> Seq<char> {
        self.0@
    }

    /// What is wrong with this identity.
    pub open spec fn fault(&self) -> Option<Fault> {
        id_value_fault("lease id"@, self@)
    }

    /// Takes a text as an identity, if it is one.
    pub fn parse(value: &str) -> (r: Result<Self, OrchError>)
        ensures
            match id_value_fault("lease id"@, value@) {
                Some(f) => refused(r, f),
                None => r is Ok && r->Ok_0@ == value@,
            },
    {
        validate_id_value("lease id", value)?;
        Ok(LeaseId(copy(value)))
    }

    /// Takes a stored text as it is; [`Self::validate`] decides whether it is
    /// to be trusted.
    pub fn from_stored(value: &str) -> (r: Self)
        ensures
            r@ == value@,
    {
        LeaseId(copy(value))
    }

    pub fn as_str(&self) -> (s: &str)
        ensures
            s@ == self@,
    {
        self.0.as_str()
    }

    /// Checks an identity that was stored.
    pub fn validate(&self) -> (r: Result<(), OrchError>)
        ensures
            judged(r, self.fault()),
    {
        validate_id_value("lease id", self.0.as_str())
    }

    /// Whether both are the same identity.
    pub fn same(&self, other: &Self) -> (r: bool)
        ensures
            r == (self@ == other@),
    {
        str_eq(self.0.as_str(), other.0.as_str())
    }
}

impl Clone for LeaseId {
    fn clone(&self) -> (r: Self)
        ensures
            r == *self,
    {
        LeaseId(self.0.clone())
    }
}

/// Names one authority.
#[derive(Debug, PartialEq, Eq, PartialOrd, Ord, Hash)]
pub struct AuthorityId(String);

impl AuthorityId {
    /// The text of this identity.
    pub closed spec fn view(&self) -> Seq<char> {
        self.0@
    }

    /// What is wrong with this identity.
    pub open spec fn fault(&self) -> Option<Fault> {
        id_value_fault("authority id"@, self@)
    }

    /// Takes a text as an identity, if it is one.
    pub fn parse(value: &str) -> (r: Result<Self, OrchError>)
        ensures
            match id_value_fault("authority id"@, value@) {
                Some(f) => refused(r, f),
                None => r is Ok && r->Ok_0@ == value@,
            },
    {
        validate_id_value("authority id", value)?;
        Ok(AuthorityId(copy(value)))
    }

    /// Takes a stored text as it is; [`Self::validate`] decides whether it is
    /// to be trusted.
    pub fn from_stored(value: &str) -> (r: Self)
        ensures
            r@ == value@,
    {
        AuthorityId(copy(value))
    }

    pub fn as_str(&self) -> (s: &str)
        ensures
            s@ == self@,
    {
        self.0.as_str()
    }

    /// Checks an identity that was stored.
    pub fn validate(&self) -> (r: Result<(), OrchError>)
        ensures
            judged(r, self.fault()),
    {
        validate_id_value("authority id", self.0.as_str())
    }

    /// Whether both are the same identity.
    pub fn same(&self, other: &Self) -> (r: bool)
        ensures
            r == (self@ == other@),
    {
        str_eq(self.0.as_str(), other.0.as_str())
    }
}

impl Clone for AuthorityId {
    fn clone(&self) -> (r: Self)
        ensures
            r == *self,
    {
        AuthorityId(self.0.clone())
    }
}

/// Names one Computer Use grant.
#[derive(Debug, PartialEq, Eq, PartialOrd, Ord, Hash)]
pub struct GrantId(String);

impl GrantId {
    /// The text of this identity.
    pub closed spec fn view(&self) -> Seq<char> {
        self.0@
    }

    /// What is wrong with this identity.
    pub open spec fn fault(&self) -> Option<Fault> {
        id_value_fault("grant id"@, self@)
    }

    /// Takes a text as an identity, if it is one.
    pub fn parse(value: &str) -> (r: Result<Self, OrchError>)
        ensures
            match id_value_fault("grant id"@, value@) {
                Some(f) => refused(r, f),
                None => r is Ok && r->Ok_0@ == value@,
            },
    {
        validate_id_value("grant id", value)?;
        Ok(GrantId(copy(value)))
    }

    /// Takes a stored text as it is; [`Self::validate`] decides whether it is
    /// to be trusted.
    pub fn from_stored(value: &str) -> (r: Self)
        ensures
            r@ == value@,
    {
        GrantId(copy(value))
    }

    pub fn as_str(&self) -> (s: &str)
        ensures
            s@ == self@,
    {
        self.0.as_str()
    }

    /// Checks an identity that was stored.
    pub fn validate(&self) -> (r: Result<(), OrchError>)
        ensures
            judged(r, self.fault()),
    {
        validate_id_value("grant id", self.0.as_str())
    }

    /// Whether both are the same identity.
    pub fn same(&self, other: &Self) -> (r: bool)
        ensures
            r == (self@ == other@),
    {
        str_eq(self.0.as_str(), other.0.as_str())
    }
}

impl Clone for GrantId {
    fn clone(&self) -> (r: Self)
        ensures
            r == *self,
    {
        GrantId(self.0.clone())
    }
}

/// An identity is sound exactly where it has one to 128 bytes, of letters,
/// digits, dashes, underscores, dots and colons, and no two dots in a row.
pub proof fn identities_are_plain(kind: Seq<char>, value: Seq<char>)
    ensures
        id_value_fault(kind, value) is None <==> {
            &&& value.len() > 0
            &&& utf8_len(value) <= 128
            &&& forall|i: int|
                0 <= i < value.len() ==> {
                    let c = #[trigger] value[i];
                    ||| 'a' <= c <= 'z'
                    ||| 'A' <= c <= 'Z'
                    ||| '0' <= c <= '9'
                    ||| c == '-' || c == '_' || c == '.' || c == ':'
                }
            &&& !contains_text(value, ".."@)
        },
{
    if forall|i: int| 0 <= i < value.len() ==> id_char(#[trigger] value[i]) {
    } else {
        let i = choose|i: int| 0 <= i < value.len() && !id_char(#[trigger] value[i]);
        assert(!id_char(value[i]));
    }
}

} // verus!
