//! Connection configuration.

use crate::constants::connection;
use crate::text::{append_decimal, decimal};
use vstd::prelude::*;

verus! {

/// Where to connect to, and as whom.
#[derive(Debug)]
pub struct Config {
    /// Host name or address of the server
    pub host: String,
    /// Port of the listener
    pub port: u16,
    /// Service name
    pub service_name: String,
    /// Username
    pub username: String,
    /// Password
    pub password: String,
    /// Session data unit that the client asks for
    pub sdu: u32,
}

/// The connect descriptor of a service.
pub open spec fn connect_descriptor(host: Seq<char>, port: u16, service_name: Seq<char>) -> Seq<
    char,
> {
    "(DESCRIPTION=(ADDRESS=(PROTOCOL=tcp)(HOST="@ + host + ")(PORT="@ + decimal(port as nat)
        + "))(CONNECT_DATA=(SERVICE_NAME="@ + service_name + ")))"@
}

impl Config {
    /// Create a configuration with the default session data unit
    pub fn new(
        host: &str,
        port: u16,
        service_name: &str,
        username: &str,
        password: &str,
    ) -> (config: Self)
        ensures
            config.host@ == host@,
            config.port == port,
            config.service_name@ == service_name@,
            config.username@ == username@,
            config.password@ == password@,
            config.sdu == 8192,
    {
        Config {
            host: host.to_string(),
            port,
            service_name: service_name.to_string(),
            username: username.to_string(),
            password: password.to_string(),
            sdu: connection::DEFAULT_SDU,
        }
    }

    /// Build the connect descriptor
    pub fn build_connect_string(&self) -> (descriptor: String)
        ensures
            descriptor@ == connect_descriptor(self.host@, self.port, self.service_name@),
    {
        let mut descriptor = "(DESCRIPTION=(ADDRESS=(PROTOCOL=tcp)(HOST=".to_string();
        descriptor.append(self.host.as_str());
        descriptor.append(")(PORT=");
        append_decimal(&mut descriptor, self.port as u64);
        descriptor.append("))(CONNECT_DATA=(SERVICE_NAME=");
        descriptor.append(self.service_name.as_str());
        descriptor.append(")))");
        descriptor
    }
}

} // verus!
