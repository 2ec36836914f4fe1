//! Tunables shared by the store, the view state and the fetch dispatcher.

use vstd::prelude::*;

verus! {

/// Maximum number of item fetches allowed to be in flight at once.
pub const PARALLEL_REQUESTS: usize = 5;

/// Number of posts shown on one page; the cursor stays inside one page.
pub const PAGE_SIZE: usize = 20;

/// Number of terminal rows one rendered post occupies.
pub const POST_ROW_SIZE: usize = 3;

} // verus!
