//! Tracking of community pages going dark: the state model, the requests to
//! the site's JSON endpoints and what their responses say, the roster of
//! tracked pages, and the decisions of a polling pass.

mod text;

pub mod backend;
pub mod commands;
pub mod json;
pub mod push;
pub mod resolver;
pub mod roster;
pub mod state;
pub mod subreddit;
pub mod updater;

pub use backend::{FetchStep, RedditBackendSelector, RotationPolicy};
pub use commands::Commands;
pub use json::JsonValue;
pub use push::PushMessage;
pub use resolver::{CuratedSet, FetchRequest, ResolveError, StateTable};
pub use state::{SubredditState, UnknownStateError};
pub use subreddit::{Subreddit, SubredditDelta, Timestamp};
pub use updater::PassSummary;
