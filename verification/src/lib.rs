//! Locale-aware rendering of dates and times from CLDR-style patterns.
//!
//! A pattern such as `yyyy-MM-dd'T'HH:mm:ss` is cut into directives by the
//! [`pattern`] grammar; each field directive is turned by [`dispatch`] into one
//! call on a locale facet ([`facet::Time`]); [`format`] drives the two over a
//! whole pattern and appends the result to the caller's sink. [`written`]
//! turns directives back into a pattern, and [`theory`] holds what is proved
//! of all patterns.

pub mod error;
pub mod sink;
pub mod style;
pub mod calendar;
pub mod number;
pub mod facet;
pub mod symbol;
pub mod dispatch;
pub mod pattern;
pub mod format;
pub mod written;
pub mod theory;

pub use calendar::{Date, DateFields, TimeOfDay};
pub use error::FormatError;
pub use facet::{InvariantTime, Time};
pub use format::format_datetime_to;
pub use pattern::Directive;
pub use style::{Calendar, DayPeriod, FormatWidth, MetaZone, MetaZoneInfo, TimeZoneInfo, Weekday};
