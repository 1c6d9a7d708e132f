//! Process configuration: the listen address and the store connection string,
//! read once at startup by the surrounding program and carried as plain
//! strings.

use vstd::prelude::*;

verus! {

/// Abstract value of a configuration.
pub struct ConfigView {
    pub ip: Seq<char>,
    pub port: Seq<char>,
    pub database_url: Seq<char>,
}

/// Listen address and store connection string. The values are opaque to the
/// core: it only stores and hands them back.
pub struct Config {
    port: String,
    ip: String,
    database_url: String,
}

impl View for Config {
    type V = ConfigView;

    closed spec fn view(&self) -> ConfigView {
        ConfigView { ip: self.ip@, port: self.port@, database_url: self.database_url@ }
    }
}

impl Config {
    pub fn new(ip: String, port: String, database_url: String) -> (c: Config)
        ensures
            c@.ip == ip@,
            c@.port == port@,
            c@.database_url == database_url@,
    {
        Config { port, ip, database_url }
    }

    pub fn get_port(&self) -> (r: String)
        ensures
            r@ == self@.port,
    {
        self.port.clone()
    }

    pub fn get_ip(&self) -> (r: String)
        ensures
            r@ == self@.ip,
    {
        self.ip.clone()
    }

    pub fn get_database_url(&self) -> (r: String)
        ensures
            r@ == self@.database_url,
    {
        self.database_url.clone()
    }
}

} // verus!
