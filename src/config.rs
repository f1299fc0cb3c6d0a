//! The process configuration: the listen port and the store credentials.
//! It is read once at start-up and handed to whatever needs it.

use vstd::prelude::*;

verus! {

pub struct Config {
    pub server: Server,
    pub postgres: Postgres,
}

pub struct Server {
    pub port: u16,
}

pub struct Postgres {
    pub host: String,
    pub port: u16,
    pub username: String,
    pub password: String,
    pub database: String,
}

} // verus!
