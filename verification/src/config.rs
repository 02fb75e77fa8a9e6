//! Connection settings for the transport collaborator.

use vstd::prelude::*;

verus! {

/// Credentials and addressing for the broker connection. The transport layer
/// consumes this; the core only states what the fixed configuration holds.
#[derive(Clone, Copy)]
pub struct MqttAuth<'a> {
    pub host: &'a str,
    pub port: u16,
    pub client_id_prefix: &'a str,
    pub username: &'a str,
    pub password: &'a str,
    pub keep_alive_secs: u16,
}

/// The fixed broker configuration used by this deployment.
pub fn mqtt_auth() -> (auth: MqttAuth<'static>)
    ensures
        auth.host@ == "192.168.20.1"@,
        auth.port == 1883,
        auth.client_id_prefix@ == "tauri-greenhouse"@,
        auth.username@ == "cresla"@,
        auth.password@ == "cresla123."@,
        auth.keep_alive_secs == 30,
{
    MqttAuth {
        host: "192.168.20.1",
        port: 1883,
        client_id_prefix: "tauri-greenhouse",
        username: "cresla",
        password: "cresla123.",
        keep_alive_secs: 30,
    }
}

} // verus!
