//! Prefixed random identifiers (`ses-…`, `ep-…`, `fr-…`, `ob-…`, `tr-…`, `art-…`).

use vstd::prelude::*;

verus! {

/// A lower-case hexadecimal digit.
pub open spec fn is_lower_hex_digit(c: char) -> bool {
    (48 <= (c as u32) <= 57) || (97 <= (c as u32) <= 102)
}

/// The hyphenated text of a UUID: 36 characters, hyphens at positions 8,
/// 13, 18 and 23, lower-case hexadecimal digits everywhere else.
pub open spec fn is_hyphenated_uuid(s: Seq<char>) -> bool {
    &&& s.len() == 36
    &&& forall|j: int|
        0 <= j < 36 ==> if j == 8 || j == 13 || j == 18 || j == 23 {
            s[j] == '-'
        } else {
            is_lower_hex_digit(#[trigger] s[j])
        }
}

/// Hyphenated lower-case text of a fresh random (version 4) UUID.
///
/// Calls `uuid::Uuid::new_v4` and renders it with `to_string`, whose
/// `Display` writes the lower-case hyphenated form.  The value is random,
/// so the contract only states the shape that every outcome has.
#[verifier::external_body]
fn random_uuid_text() -> (s: String)
    ensures
        is_hyphenated_uuid(s@),
{
    uuid::Uuid::new_v4().to_string()
}

/// `s` is `prefix`, a hyphen, and the text of a random UUID.
pub open spec fn is_prefixed_id(prefix: Seq<char>, s: Seq<char>) -> bool {
    &&& s.len() == prefix.len() + 37
    &&& s.subrange(0, prefix.len() as int) == prefix
    &&& s[prefix.len() as int] == '-'
    &&& is_hyphenated_uuid(s.subrange(prefix.len() + 1int, s.len() as int))
}

/// Builds `<prefix>-<random uuid>`.
fn fresh_id(prefix: &str) -> (s: String)
    ensures
        is_prefixed_id(prefix@, s@),
{
    let mut s = String::from_str(prefix);
    s.append("-");
    let u = random_uuid_text();
    s.append(u.as_str());
    proof {
        reveal_strlit("-");
        assert(s@.subrange(0, prefix@.len() as int) =~= prefix@);
        assert(s@.subrange(prefix@.len() + 1int, s@.len() as int) =~= u@);
    }
    s
}

/// Identifier of a browser session.
#[derive(Debug, Clone, PartialEq, Eq, Hash)]
pub struct SessionId(pub String);

/// Identifier of an episode (one recording inside a session).
#[derive(Debug, Clone, PartialEq, Eq, Hash)]
pub struct EpisodeId(pub String);

/// Identifier of a captured frame.
#[derive(Debug, Clone, PartialEq, Eq, Hash)]
pub struct FrameId(pub String);

/// Identifier of an agent observation in the evidence ledger.
#[derive(Debug, Clone, PartialEq, Eq, Hash)]
pub struct ObservationId(pub String);

/// Identifier of a recorded trigger event.
#[derive(Debug, Clone, PartialEq, Eq, Hash)]
pub struct TriggerEventId(pub String);

/// Identifier of a stored artifact (image or video file).
#[derive(Debug, Clone, PartialEq, Eq, Hash)]
pub struct ArtifactId(pub String);

impl View for SessionId {
    type V = Seq<char>;

    open spec fn view(&self) -> Seq<char> {
        self.0@
    }
}

impl View for EpisodeId {
    type V = Seq<char>;

    open spec fn view(&self) -> Seq<char> {
        self.0@
    }
}

impl View for FrameId {
    type V = Seq<char>;

    open spec fn view(&self) -> Seq<char> {
        self.0@
    }
}

impl View for ObservationId {
    type V = Seq<char>;

    open spec fn view(&self) -> Seq<char> {
        self.0@
    }
}

impl View for TriggerEventId {
    type V = Seq<char>;

    open spec fn view(&self) -> Seq<char> {
        self.0@
    }
}

impl View for ArtifactId {
    type V = Seq<char>;

    open spec fn view(&self) -> Seq<char> {
        self.0@
    }
}

impl SessionId {
    /// A fresh `ses-<uuid>` identifier.
    pub fn new() -> (id: Self)
        ensures
            is_prefixed_id("ses"@, id@),
    {
        SessionId(fresh_id("ses"))
    }

    pub fn from_string(s: String) -> (id: Self)
        ensures
            id@ == s@,
    {
        SessionId(s)
    }

    pub fn as_str(&self) -> (s: &str)
        ensures
            s@ == self@,
    {
        self.0.as_str()
    }

    /// Identifier equality (the same text).
    pub fn same(&self, other: &Self) -> (b: bool)
        ensures
            b == (self@ == other@),
    {
        self.0 == other.0
    }

    /// An equal copy.
    pub fn duplicate(&self) -> (id: Self)
        ensures
            id@ == self@,
    {
        SessionId(self.0.clone())
    }
}

impl EpisodeId {
    /// A fresh `ep-<uuid>` identifier.
    pub fn new() -> (id: Self)
        ensures
            is_prefixed_id("ep"@, id@),
    {
        EpisodeId(fresh_id("ep"))
    }

    pub fn from_string(s: String) -> (id: Self)
        ensures
            id@ == s@,
    {
        EpisodeId(s)
    }

    pub fn as_str(&self) -> (s: &str)
        ensures
            s@ == self@,
    {
        self.0.as_str()
    }

    pub fn same(&self, other: &Self) -> (b: bool)
        ensures
            b == (self@ == other@),
    {
        self.0 == other.0
    }

    pub fn duplicate(&self) -> (id: Self)
        ensures
            id@ == self@,
    {
        EpisodeId(self.0.clone())
    }
}

impl FrameId {
    /// A fresh `fr-<uuid>` identifier.
    pub fn new() -> (id: Self)
        ensures
            is_prefixed_id("fr"@, id@),
    {
        FrameId(fresh_id("fr"))
    }

    pub fn from_string(s: String) -> (id: Self)
        ensures
            id@ == s@,
    {
        FrameId(s)
    }

    pub fn as_str(&self) -> (s: &str)
        ensures
            s@ == self@,
    {
        self.0.as_str()
    }

    pub fn same(&self, other: &Self) -> (b: bool)
        ensures
            b == (self@ == other@),
    {
        self.0 == other.0
    }

    pub fn duplicate(&self) -> (id: Self)
        ensures
            id@ == self@,
    {
        FrameId(self.0.clone())
    }
}

impl ObservationId {
    /// A fresh `ob-<uuid>` identifier.
    pub fn new() -> (id: Self)
        ensures
            is_prefixed_id("ob"@, id@),
    {
        ObservationId(fresh_id("ob"))
    }

    pub fn from_string(s: String) -> (id: Self)
        ensures
            id@ == s@,
    {
        ObservationId(s)
    }

    pub fn as_str(&self) -> (s: &str)
        ensures
            s@ == self@,
    {
        self.0.as_str()
    }

    pub fn same(&self, other: &Self) -> (b: bool)
        ensures
            b == (self@ == other@),
    {
        self.0 == other.0
    }

    pub fn duplicate(&self) -> (id: Self)
        ensures
            id@ == self@,
    {
        ObservationId(self.0.clone())
    }
}

impl TriggerEventId {
    /// A fresh `tr-<uuid>` identifier.
    pub fn new() -> (id: Self)
        ensures
            is_prefixed_id("tr"@, id@),
    {
        TriggerEventId(fresh_id("tr"))
    }

    pub fn from_string(s: String) -> (id: Self)
        ensures
            id@ == s@,
    {
        TriggerEventId(s)
    }

    pub fn as_str(&self) -> (s: &str)
        ensures
            s@ == self@,
    {
        self.0.as_str()
    }

    pub fn same(&self, other: &Self) -> (b: bool)
        ensures
            b == (self@ == other@),
    {
        self.0 == other.0
    }

    pub fn duplicate(&self) -> (id: Self)
        ensures
            id@ == self@,
    {
        TriggerEventId(self.0.clone())
    }
}

impl ArtifactId {
    /// A fresh `art-<uuid>` identifier.
    pub fn new() -> (id: Self)
        ensures
            is_prefixed_id("art"@, id@),
    {
        ArtifactId(fresh_id("art"))
    }

    pub fn from_string(s: String) -> (id: Self)
        ensures
            id@ == s@,
    {
        ArtifactId(s)
    }

    pub fn as_str(&self) -> (s: &str)
        ensures
            s@ == self@,
    {
        self.0.as_str()
    }

    pub fn same(&self, other: &Self) -> (b: bool)
        ensures
            b == (self@ == other@),
    {
        self.0 == other.0
    }

    pub fn duplicate(&self) -> (id: Self)
        ensures
            id@ == self@,
    {
        ArtifactId(self.0.clone())
    }
}

} // verus!
