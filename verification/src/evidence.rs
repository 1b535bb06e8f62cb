//! What the system answered: the clock, the lookup of the home directory and
//! the separator of paths.
//!
//! Nothing outside this module can tell what makes a value an answer of the
//! system. So a contract that speaks of an answer is met only with a value that
//! the system was really asked for.

use crate::session_id::is_timestamp;
use vstd::prelude::*;

verus! {

/// Whether `reading` was read from the UTC clock.
pub closed spec fn clock_gave(reading: Seq<char>) -> bool {
    is_timestamp(reading)
}

/// Whether `answer` came from looking up the user's home directory; there may
/// be none.
pub closed spec fn home_lookup_gave(answer: Option<Seq<u8>>) -> bool {
    answer matches Some(home) ==> home.len() > 0
}

/// Whether the system separates the components of paths by `separator`.
pub closed spec fn system_separates_by(separator: char) -> bool {
    separator == '/' || separator == '\\'
}

} // verus!
