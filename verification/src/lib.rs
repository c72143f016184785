//! A dual-calendar date value: every instant is kept simultaneously as a
//! Jalali (Persian solar Hijri) date and as a Gregorian date, together with
//! wall-clock time-of-day fields and a time zone.  The calendar conversion
//! engine is pure integer arithmetic and is verified; the time-zone
//! collaborator (chrono / chrono-tz) is reached only through narrow trusted
//! wrappers.

pub mod day_count;
pub mod engine;
pub mod format;
pub mod structure;
pub mod zoned;
