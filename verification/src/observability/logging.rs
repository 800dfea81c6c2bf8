//! The verbosity switch.

use vstd::prelude::*;

use crate::text::{parse_unsigned, trim};

verus! {

/// How much is logged.
#[derive(Debug, Clone, Copy, PartialEq, Eq, Structural)]
pub enum LevelFilter {
    /// Notable events.
    INFO,
    /// Details.
    DEBUG,
    /// Everything.
    TRACE,
}

/// The level of a verbosity: 0 is the least, 1 more, any other number all; what is no number is
/// the least.
pub open spec fn level_of(v: Seq<char>) -> LevelFilter {
    match crate::text::unsigned_of(crate::text::trimmed(v), 0xffff_ffff) {
        Some(n) => if n == 0 {
            LevelFilter::INFO
        } else if n == 1 {
            LevelFilter::DEBUG
        } else {
            LevelFilter::TRACE
        },
        None => LevelFilter::INFO,
    }
}

/// The level of a verbosity.
pub fn verbosity_to_level(v: &str) -> (r: LevelFilter)
    ensures
        r == level_of(v@),
{
    match parse_unsigned(trim(v).as_str(), 0xffff_ffff) {
        Some(n) => {
            if n == 0 {
                LevelFilter::INFO
            } else if n == 1 {
                LevelFilter::DEBUG
            } else {
                LevelFilter::TRACE
            }
        },
        None => LevelFilter::INFO,
    }
}

} // verus!
