//! Message rotation and link supervision for a remotely mounted LED text
//! display.
//!
//! The crate holds the verified core of a small relay service: a FIFO queue
//! of short text messages with a single "currently shown" slot advanced on a
//! fixed dwell time, the planning of device state updates (color, effect and
//! palette selection), and the decision logic of the supervisor that keeps
//! the forwarding link to the physical device alive.  All network and
//! process plumbing lives outside this crate and hands plain values in.

pub mod adapter;
pub mod color;
pub mod link;
pub mod msgtext;
pub mod numfmt;
pub mod sched;
pub mod textmatch;
