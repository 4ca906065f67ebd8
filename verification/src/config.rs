//! What the ingestion core is configured with.

use vstd::prelude::*;

verus! {

/// The settings of one deployment: the channels to follow, the identity
/// and credential to present, where the sink lives and which endpoint to
/// connect to.
#[derive(Debug, Clone)]
pub struct Config {
    pub channels: Vec<String>,
    pub nickname: String,
    pub oauth: String,
    pub postgres_db: String,
    pub postgres_host: String,
    pub postgres_password: String,
    pub postgres_user: String,
    pub server: String,
}

} // verus!
