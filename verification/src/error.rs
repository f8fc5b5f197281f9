//! The errors that parsing and assembly report.
use vstd::prelude::*;

verus! {

/// The closed vocabularies whose tokens are matched exactly.
#[derive(Clone, Copy, Debug, PartialEq, Eq, Structural)]
pub enum EnumKind {
    Status,
    Class,
    TimeTransparency,
    Weekday,
}

/// Why a text was rejected. Every variant carries the offending text: the
/// raw value, the token, or the name of the property.
#[derive(Clone, Debug, PartialEq, Eq)]
pub enum Error {
    /// A logical line that is not `NAME *(";" PARAM) ":" VALUE`.
    MalformedContentLine(String),
    /// A required property without a content line; carries its name.
    MissingField(String),
    InvalidDate(String),
    InvalidDuration(String),
    InvalidPeriod(String),
    InvalidGeo(String),
    /// An unknown frequency token.
    InvalidFreq(String),
    /// A recurrence rule that is malformed otherwise.
    InvalidRecur(String),
    /// A malformed offset from UTC.
    InvalidOffset(String),
    /// A malformed or out-of-range integer.
    InvalidInteger(String),
    /// A malformed request status.
    InvalidRequestStatus(String),
    /// A token outside a closed vocabulary.
    InvalidEnum(EnumKind, String),
    /// A block tag that no component schema knows.
    UnsupportedComponentType(String),
}

/// The mathematical value of an [`Error`].
pub enum ErrorView {
    MalformedContentLine(Seq<char>),
    MissingField(Seq<char>),
    InvalidDate(Seq<char>),
    InvalidDuration(Seq<char>),
    InvalidPeriod(Seq<char>),
    InvalidGeo(Seq<char>),
    InvalidFreq(Seq<char>),
    InvalidRecur(Seq<char>),
    InvalidOffset(Seq<char>),
    InvalidInteger(Seq<char>),
    InvalidRequestStatus(Seq<char>),
    InvalidEnum(EnumKind, Seq<char>),
    UnsupportedComponentType(Seq<char>),
}

impl View for Error {
    type V = ErrorView;

    open spec fn view(&self) -> ErrorView {
        match self {
            Error::MalformedContentLine(t) => ErrorView::MalformedContentLine(t@),
            Error::MissingField(t) => ErrorView::MissingField(t@),
            Error::InvalidDate(t) => ErrorView::InvalidDate(t@),
            Error::InvalidDuration(t) => ErrorView::InvalidDuration(t@),
            Error::InvalidPeriod(t) => ErrorView::InvalidPeriod(t@),
            Error::InvalidGeo(t) => ErrorView::InvalidGeo(t@),
            Error::InvalidFreq(t) => ErrorView::InvalidFreq(t@),
            Error::InvalidRecur(t) => ErrorView::InvalidRecur(t@),
            Error::InvalidOffset(t) => ErrorView::InvalidOffset(t@),
            Error::InvalidInteger(t) => ErrorView::InvalidInteger(t@),
            Error::InvalidRequestStatus(t) => ErrorView::InvalidRequestStatus(t@),
            Error::InvalidEnum(k, t) => ErrorView::InvalidEnum(*k, t@),
            Error::UnsupportedComponentType(t) => ErrorView::UnsupportedComponentType(t@),
        }
    }
}

/// A result whose error is seen through its view.
pub open spec fn result_view<T>(r: Result<T, Error>) -> Result<T, ErrorView> {
    match r {
        Ok(v) => Ok(v),
        Err(e) => Err(e@),
    }
}

impl Error {
    /// What the error says, before the text that it carries.
    pub fn label(&self) -> (s: &'static str)
        ensures
            s@ == self@.label(),
    {
        match self {
            Error::MalformedContentLine(_) => "malformed content line",
            Error::MissingField(_) => "missing field",
            Error::InvalidDate(_) => "invalid date",
            Error::InvalidDuration(_) => "invalid duration",
            Error::InvalidPeriod(_) => "invalid period",
            Error::InvalidGeo(_) => "invalid position",
            Error::InvalidFreq(_) => "invalid frequency",
            Error::InvalidRecur(_) => "invalid recurrence rule",
            Error::InvalidOffset(_) => "invalid offset",
            Error::InvalidInteger(_) => "invalid integer",
            Error::InvalidRequestStatus(_) => "invalid request status",
            Error::InvalidEnum(kind, _) => match kind {
                EnumKind::Status => "invalid status",
                EnumKind::Class => "invalid class",
                EnumKind::TimeTransparency => "invalid time transparency",
                EnumKind::Weekday => "invalid weekday",
            },
            Error::UnsupportedComponentType(_) => "unsupported component type",
        }
    }

    /// The message of the error: what it says, a colon, and the text.
    pub fn message(&self) -> (s: String)
        ensures
            s@ == self@.message(),
    {
        let mut s = self.label().to_owned();
        s.append(": ");
        s.append(self.text().as_str());
        s
    }

    /// The text that the error carries.
    pub fn text(&self) -> (t: &String)
        ensures
            t@ == self@.text(),
    {
        match self {
            Error::MalformedContentLine(t) => t,
            Error::MissingField(t) => t,
            Error::InvalidDate(t) => t,
            Error::InvalidDuration(t) => t,
            Error::InvalidPeriod(t) => t,
            Error::InvalidGeo(t) => t,
            Error::InvalidFreq(t) => t,
            Error::InvalidRecur(t) => t,
            Error::InvalidOffset(t) => t,
            Error::InvalidInteger(t) => t,
            Error::InvalidRequestStatus(t) => t,
            Error::InvalidEnum(_, t) => t,
            Error::UnsupportedComponentType(t) => t,
        }
    }
}

impl EnumKind {
    /// What an error says of a token outside this vocabulary.
    pub open spec fn label(self) -> Seq<char> {
        match self {
            EnumKind::Status => "invalid status"@,
            EnumKind::Class => "invalid class"@,
            EnumKind::TimeTransparency => "invalid time transparency"@,
            EnumKind::Weekday => "invalid weekday"@,
        }
    }
}

impl ErrorView {
    /// What the error says, before the text that it carries.
    pub open spec fn label(self) -> Seq<char> {
        match self {
            ErrorView::MalformedContentLine(_) => "malformed content line"@,
            ErrorView::MissingField(_) => "missing field"@,
            ErrorView::InvalidDate(_) => "invalid date"@,
            ErrorView::InvalidDuration(_) => "invalid duration"@,
            ErrorView::InvalidPeriod(_) => "invalid period"@,
            ErrorView::InvalidGeo(_) => "invalid position"@,
            ErrorView::InvalidFreq(_) => "invalid frequency"@,
            ErrorView::InvalidRecur(_) => "invalid recurrence rule"@,
            ErrorView::InvalidOffset(_) => "invalid offset"@,
            ErrorView::InvalidInteger(_) => "invalid integer"@,
            ErrorView::InvalidRequestStatus(_) => "invalid request status"@,
            ErrorView::InvalidEnum(kind, _) => kind.label(),
            ErrorView::UnsupportedComponentType(_) => "unsupported component type"@,
        }
    }

    /// The message of the error: what it says, a colon, and the text.
    pub open spec fn message(self) -> Seq<char> {
        self.label() + ": "@ + self.text()
    }

    /// The text that the error carries.
    pub open spec fn text(self) -> Seq<char> {
        match self {
            ErrorView::MalformedContentLine(t) => t,
            ErrorView::MissingField(t) => t,
            ErrorView::InvalidDate(t) => t,
            ErrorView::InvalidDuration(t) => t,
            ErrorView::InvalidPeriod(t) => t,
            ErrorView::InvalidGeo(t) => t,
            ErrorView::InvalidFreq(t) => t,
            ErrorView::InvalidRecur(t) => t,
            ErrorView::InvalidOffset(t) => t,
            ErrorView::InvalidInteger(t) => t,
            ErrorView::InvalidRequestStatus(t) => t,
            ErrorView::InvalidEnum(_, t) => t,
            ErrorView::UnsupportedComponentType(t) => t,
        }
    }
}

} // verus!
