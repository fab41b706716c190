//! Six-line figures of the I Ching: line codes, figure numbers, the
//! transformation of changing lines, casting by three coins, and the
//! interpretation of textual input.

pub mod data;
pub mod divination;
pub mod error;
pub mod figure;
pub mod interpret;
pub mod output;
pub mod present;
pub mod reading;
pub mod text;
