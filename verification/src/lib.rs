//! Alarm-clock logic: a checksummed table of weekly alarms, the calendar
//! model it is matched against, and the decision logic of the buzzer, the
//! e-paper refresh policy and the real-time-clock helpers.

pub mod alarm_table;
pub mod buzzer;
pub mod checksum;
pub mod clock;
pub mod date_time;
pub mod flush_policy;
