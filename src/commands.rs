//! The commands that the program runs.
use vstd::prelude::*;

verus! {

/// A command of the program. A period is in seconds; with no period the
/// command runs once.
#[derive(Clone, Debug)]
pub enum Commands {
    /// Refreshes the roster of tracked pages from the index page.
    UpdateSubredditList { period: Option<u32> },
    /// Serves the pages and the live feed of changes.
    Server { listen: String },
    /// Polls the state of every tracked page.
    Updater { period: Option<u32> },
    /// Reports the state of one page.
    Check { subreddit: String },
}

} // verus!
