// Temporal expression engine of a task and record tracker: free-form date/time phrases,
// recurring schedules in a canonical five-field form, and the search for their next or
// previous occurrence.

// Calendar arithmetic over a day-number model.
pub mod calendar;
// Compiled schedules, their canonical text, and the occurrence search.
pub mod schedule;
// Characters, whitespace tokens and decimal numbers.
pub mod text;
// The date/time phrase parser.
pub mod timestr;
// The recurrence phrase compiler.
pub mod recurring;
// The local clock and time zone.
pub mod clock;
// Task and record entries and their query builder.
pub mod item;
// Status codes and names.
pub mod status;
// Checks of command-line values.
pub mod args;
// Texts shown in listings.
pub mod display;
