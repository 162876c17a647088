//! Where the local artifact cache lives.
use vstd::prelude::*;

use crate::text::joined;

verus! {

/// The cache directory below a user's home directory.
pub open spec fn cache_location_of(user_home: Seq<char>) -> Seq<char> {
    user_home + "/jargo/repo"@
}

/// Settings of one resolution run, built once and passed to whatever needs them.
pub struct Config {
    pub cache_location: String,
    pub user_home: String,
}

impl Config {
    /// The settings for a user whose home directory is `user_home`.
    pub fn new(user_home: &str) -> (r: Config)
        ensures
            r.user_home@ == user_home@,
            r.cache_location@ == cache_location_of(user_home@),
    {
        Config { cache_location: joined(user_home, "/jargo/repo"), user_home: user_home.to_owned() }
    }
}

} // verus!
