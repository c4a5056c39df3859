//! Startup configuration: command-line options and the configuration file's
//! shape, with the defaults that absent fields fall back to.

use vstd::prelude::*;

verus! {

/// Command-line options: the path of the configuration file to load.
pub struct Opts {
    pub config: String,
}

/// The configuration file's contents: how to reach the message broker, and
/// optionally which output device to play on.
pub struct Config {
    pub mqtt: MqttConfig,
    pub device: Option<String>,
}

/// How to reach the message broker and what to subscribe to.
pub struct MqttConfig {
    pub client_id: String,
    pub host: String,
    pub port: u16,
    pub auth: Option<MqttAuthConfig>,
    pub subscriptions: Vec<String>,
}

/// Credentials for the message broker.
pub struct MqttAuthConfig {
    pub username: String,
    pub password: String,
}

/// The client identity used when the configuration names none.
pub fn default_client_id() -> (r: String)
    ensures
        r@ == "sampler"@,
{
    "sampler".to_owned()
}

/// The broker host used when the configuration names none.
pub fn default_host() -> (r: String)
    ensures
        r@ == "localhost"@,
{
    "localhost".to_owned()
}

/// The broker port used when the configuration names none.
pub fn default_port() -> (r: u16)
    ensures
        r == 1883,
{
    1883
}

} // verus!
