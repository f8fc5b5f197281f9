//! Typed data model and parser for iCalendar (RFC 5545) text.
//!
//! Raw text is unfolded into logical lines, each line is split into a
//! name, parameters and a raw value, the raw values are parsed by the
//! grammar of their value type, and the parsed lines of one component
//! block are assembled into a typed component under a schema.
pub mod assembler;
pub mod chars;
pub mod components;
pub mod content_line;
pub mod datetime;
pub mod duration;
pub mod error;
pub mod geo;
pub mod period;
pub mod properties;
pub mod recur;
pub mod request_status;
pub mod status;
pub mod text;
pub mod timezone;
pub mod unfold;
pub mod value;

pub use assembler::{assemble, Assembled, Cardinality, Field, PropertyBag, SchemaEntry};
pub use components::vcalendar::{calendar, component, Component};
pub use components::vevent::VEvent;
pub use components::vjournal::VJournal;
pub use components::vtimezone::{Prop, VTimezone};
pub use components::Block;
pub use content_line::{content_line, unescape, ContentLine, Param};
pub use datetime::{date, DateTime};
pub use duration::{duration, Duration};
pub use error::{EnumKind, Error, ErrorView};
pub use geo::{geo, Geo};
pub use period::{period, Period, StartDur, StartEnd};
pub use properties::Properties;
pub use recur::{rrule, Freq, Recur, Weekday, WeekdayNum};
pub use request_status::{request_status, RequestStatus};
pub use status::{Class, Status, TimeTransparency};
pub use text::Text;
pub use timezone::{tzid, tzname, tzoffsetfrom, tzoffsetto, tzurl, utc_offset};
pub use unfold::unfold;
pub use value::{parse_value, Value, ValueKind};
