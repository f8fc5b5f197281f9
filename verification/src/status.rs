//! The enumerated property values: status, classification and time
//! transparency. Each is matched exactly against its closed vocabulary.
use vstd::prelude::*;
use crate::chars::{chars_of, is_literal, string_of};
use crate::error::{result_view, EnumKind, Error, ErrorView};

verus! {

/// The overall status of an event, a to-do or a journal entry.
#[derive(Clone, Copy, Debug, PartialEq, Eq, Structural)]
pub enum Status {
    /** Indicates event is tentative */
    Tentative,
    /** Indicates event is definite */
    Confirmed,
    /** Indicates event/to-do/journal was cancelled/removed */
    Cancelled,
    /** Indicates to-do needs action */
    NeedsAction,
    /** Indicates to-do completed */
    Completed,
    /** Indicates to-do in process of */
    InProcess,
    /** Indicates journal is draft */
    Draft,
    /** Indicates journal is final */
    Final,
}

impl Status {
    /// The status that a token names, if it names one.
    pub open spec fn of_token(s: Seq<char>) -> Option<Status> {
        if s == "TENTATIVE"@ {
            Some(Status::Tentative)
        } else if s == "CONFIRMED"@ {
            Some(Status::Confirmed)
        } else if s == "CANCELLED"@ {
            Some(Status::Cancelled)
        } else if s == "NEEDS-ACTION"@ {
            Some(Status::NeedsAction)
        } else if s == "COMPLETED"@ {
            Some(Status::Completed)
        } else if s == "IN-PROCESS"@ {
            Some(Status::InProcess)
        } else if s == "DRAFT"@ {
            Some(Status::Draft)
        } else if s == "FINAL"@ {
            Some(Status::Final)
        } else {
            None
        }
    }

    /// The token that names the status.
    pub open spec fn token_of(self) -> Seq<char> {
        match self {
            Status::Tentative => "TENTATIVE"@,
            Status::Confirmed => "CONFIRMED"@,
            Status::Cancelled => "CANCELLED"@,
            Status::NeedsAction => "NEEDS-ACTION"@,
            Status::Completed => "COMPLETED"@,
            Status::InProcess => "IN-PROCESS"@,
            Status::Draft => "DRAFT"@,
            Status::Final => "FINAL"@,
        }
    }

    /// The token that names the status.
    pub fn token(&self) -> (s: &'static str)
        ensures
            s@ == self.token_of(),
    {
        match self {
            Status::Tentative => "TENTATIVE",
            Status::Confirmed => "CONFIRMED",
            Status::Cancelled => "CANCELLED",
            Status::NeedsAction => "NEEDS-ACTION",
            Status::Completed => "COMPLETED",
            Status::InProcess => "IN-PROCESS",
            Status::Draft => "DRAFT",
            Status::Final => "FINAL",
        }
    }

    /// The token of a status names that status, and no other.
    pub proof fn lemma_token_names_it(self)
        ensures
            Status::of_token(self.token_of()) == Some(self),
    {
        reveal_strlit("TENTATIVE");
        reveal_strlit("CONFIRMED");
        reveal_strlit("CANCELLED");
        reveal_strlit("NEEDS-ACTION");
        reveal_strlit("COMPLETED");
        reveal_strlit("IN-PROCESS");
        reveal_strlit("DRAFT");
        reveal_strlit("FINAL");
        assert("CONFIRMED"@[0] != "TENTATIVE"@[0]);
        assert("CANCELLED"@[0] != "TENTATIVE"@[0]);
        assert("CANCELLED"@[1] != "CONFIRMED"@[1]);
        assert("COMPLETED"@[0] != "TENTATIVE"@[0]);
        assert("COMPLETED"@[2] != "CONFIRMED"@[2]);
        assert("COMPLETED"@[1] != "CANCELLED"@[1]);
        assert("FINAL"@[0] != "DRAFT"@[0]);
        assert("IN-PROCESS"@.len() == 10);
        assert("NEEDS-ACTION"@.len() == 12);
    }

    /// What parsing `s` as a status gives.
    pub open spec fn parsed(s: Seq<char>) -> Result<Status, ErrorView> {
        match Status::of_token(s) {
            Some(v) => Ok(v),
            None => Err(ErrorView::InvalidEnum(EnumKind::Status, s)),
        }
    }

    /// Parses a status token. Any text outside the vocabulary is rejected
    /// with the token and the kind of the enumeration.
    pub fn from_str(s: &str) -> (r: Result<Status, Error>)
        ensures
            result_view(r) == Status::parsed(s@),
    {
        let v = chars_of(s);
        Status::from_chars(v.as_slice())
    }

    /// As [`Status::from_str`], on characters.
    pub fn from_chars(v: &[char]) -> (r: Result<Status, Error>)
        ensures
            result_view(r) == Status::parsed(v@),
    {
        if is_literal(v, "TENTATIVE") {
            Ok(Status::Tentative)
        } else if is_literal(v, "CONFIRMED") {
            Ok(Status::Confirmed)
        } else if is_literal(v, "CANCELLED") {
            Ok(Status::Cancelled)
        } else if is_literal(v, "NEEDS-ACTION") {
            Ok(Status::NeedsAction)
        } else if is_literal(v, "COMPLETED") {
            Ok(Status::Completed)
        } else if is_literal(v, "IN-PROCESS") {
            Ok(Status::InProcess)
        } else if is_literal(v, "DRAFT") {
            Ok(Status::Draft)
        } else if is_literal(v, "FINAL") {
            Ok(Status::Final)
        } else {
            Err(Error::InvalidEnum(EnumKind::Status, string_of(v)))
        }
    }
}

impl std::str::FromStr for Status {
    type Err = Error;

    fn from_str(s: &str) -> (r: Result<Status, Error>)
        ensures
            result_view(r) == Status::parsed(s@),
    {
        Status::from_chars(chars_of(s).as_slice())
    }
}

/// The access classification of a component.
#[derive(Clone, Copy, Debug, PartialEq, Eq, Structural)]
pub enum Class {
    Public,
    Private,
    Confidential,
}

impl Class {
    /// The classification that a token names, if it names one.
    pub open spec fn of_token(s: Seq<char>) -> Option<Class> {
        if s == "PUBLIC"@ {
            Some(Class::Public)
        } else if s == "PRIVATE"@ {
            Some(Class::Private)
        } else if s == "CONFIDENTIAL"@ {
            Some(Class::Confidential)
        } else {
            None
        }
    }

    /// The token that names the classification.
    pub open spec fn token_of(self) -> Seq<char> {
        match self {
            Class::Public => "PUBLIC"@,
            Class::Private => "PRIVATE"@,
            Class::Confidential => "CONFIDENTIAL"@,
        }
    }

    /// The token that names the classification.
    pub fn token(&self) -> (s: &'static str)
        ensures
            s@ == self.token_of(),
    {
        match self {
            Class::Public => "PUBLIC",
            Class::Private => "PRIVATE",
            Class::Confidential => "CONFIDENTIAL",
        }
    }

    /// The token of a classification names that classification, and no other.
    pub proof fn lemma_token_names_it(self)
        ensures
            Class::of_token(self.token_of()) == Some(self),
    {
        reveal_strlit("PUBLIC");
        reveal_strlit("PRIVATE");
        reveal_strlit("CONFIDENTIAL");
        assert("PUBLIC"@.len() == 6);
        assert("PRIVATE"@.len() == 7);
        assert("CONFIDENTIAL"@.len() == 12);
    }

    /// What parsing `s` as a classification gives.
    pub open spec fn parsed(s: Seq<char>) -> Result<Class, ErrorView> {
        match Class::of_token(s) {
            Some(v) => Ok(v),
            None => Err(ErrorView::InvalidEnum(EnumKind::Class, s)),
        }
    }

    /// Parses a classification token.
    pub fn from_str(s: &str) -> (r: Result<Class, Error>)
        ensures
            result_view(r) == Class::parsed(s@),
    {
        let v = chars_of(s);
        Class::from_chars(v.as_slice())
    }

    /// As [`Class::from_str`], on characters.
    pub fn from_chars(v: &[char]) -> (r: Result<Class, Error>)
        ensures
            result_view(r) == Class::parsed(v@),
    {
        if is_literal(v, "PUBLIC") {
            Ok(Class::Public)
        } else if is_literal(v, "PRIVATE") {
            Ok(Class::Private)
        } else if is_literal(v, "CONFIDENTIAL") {
            Ok(Class::Confidential)
        } else {
            Err(Error::InvalidEnum(EnumKind::Class, string_of(v)))
        }
    }
}

impl std::str::FromStr for Class {
    type Err = Error;

    fn from_str(s: &str) -> (r: Result<Class, Error>)
        ensures
            result_view(r) == Class::parsed(s@),
    {
        Class::from_chars(chars_of(s).as_slice())
    }
}

/// Whether an event takes up time on a calendar.
#[derive(Clone, Copy, Debug, PartialEq, Eq, Structural)]
pub enum TimeTransparency {
    Opaque,
    Transparent,
}

impl TimeTransparency {
    /// The transparency that a token names, if it names one.
    pub open spec fn of_token(s: Seq<char>) -> Option<TimeTransparency> {
        if s == "OPAQUE"@ {
            Some(TimeTransparency::Opaque)
        } else if s == "TRANSPARENT"@ {
            Some(TimeTransparency::Transparent)
        } else {
            None
        }
    }

    /// The token that names the transparency.
    pub open spec fn token_of(self) -> Seq<char> {
        match self {
            TimeTransparency::Opaque => "OPAQUE"@,
            TimeTransparency::Transparent => "TRANSPARENT"@,
        }
    }

    /// The token that names the transparency.
    pub fn token(&self) -> (s: &'static str)
        ensures
            s@ == self.token_of(),
    {
        match self {
            TimeTransparency::Opaque => "OPAQUE",
            TimeTransparency::Transparent => "TRANSPARENT",
        }
    }

    /// The token of a transparency names that transparency, and no other.
    pub proof fn lemma_token_names_it(self)
        ensures
            TimeTransparency::of_token(self.token_of()) == Some(self),
    {
        reveal_strlit("OPAQUE");
        reveal_strlit("TRANSPARENT");
        assert("OPAQUE"@.len() == 6);
        assert("TRANSPARENT"@.len() == 11);
    }

    /// What parsing `s` as a time transparency gives.
    pub open spec fn parsed(s: Seq<char>) -> Result<TimeTransparency, ErrorView> {
        match TimeTransparency::of_token(s) {
            Some(v) => Ok(v),
            None => Err(ErrorView::InvalidEnum(EnumKind::TimeTransparency, s)),
        }
    }

    /// Parses a time-transparency token.
    pub fn from_str(s: &str) -> (r: Result<TimeTransparency, Error>)
        ensures
            result_view(r) == TimeTransparency::parsed(s@),
    {
        let v = chars_of(s);
        TimeTransparency::from_chars(v.as_slice())
    }

    /// As [`TimeTransparency::from_str`], on characters.
    pub fn from_chars(v: &[char]) -> (r: Result<TimeTransparency, Error>)
        ensures
            result_view(r) == TimeTransparency::parsed(v@),
    {
        if is_literal(v, "OPAQUE") {
            Ok(TimeTransparency::Opaque)
        } else if is_literal(v, "TRANSPARENT") {
            Ok(TimeTransparency::Transparent)
        } else {
            Err(Error::InvalidEnum(EnumKind::TimeTransparency, string_of(v)))
        }
    }
}

impl std::str::FromStr for TimeTransparency {
    type Err = Error;

    fn from_str(s: &str) -> (r: Result<TimeTransparency, Error>)
        ensures
            result_view(r) == TimeTransparency::parsed(s@),
    {
        TimeTransparency::from_chars(chars_of(s).as_slice())
    }
}

} // verus!
