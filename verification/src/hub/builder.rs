//! Where a hub listens and how a client reaches it.

use super::protocol::{DEFAULT_CONTROL_PORT, DEFAULT_DISCOVERY_PORT};
use vstd::prelude::*;

verus! {

/// How a client reaches the hub.
#[derive(Debug)]
pub struct HubClientConfig {
    pub scheme: String,
    pub host: String,
    pub discovery_port: u16,
    pub control_port: u16,
}

/// A client was built without a host.
#[derive(Debug, Clone, Copy, PartialEq, Eq, Structural)]
pub struct MissingHost;

/// Builds a [`HubClientConfig`].
#[derive(Debug)]
pub struct HubClientBuilder {
    pub scheme: String,
    pub host: Option<String>,
    pub discovery_port: u16,
    pub control_port: u16,
}

impl HubClientBuilder {
    /// A builder for plain HTTP on the default ports, without a host.
    pub fn new() -> (builder: Self)
        ensures
            builder.scheme@ == "http"@,
            builder.host is None,
            builder.discovery_port == DEFAULT_DISCOVERY_PORT,
            builder.control_port == DEFAULT_CONTROL_PORT,
    {
        HubClientBuilder {
            scheme: String::from_str("http"),
            host: None,
            discovery_port: DEFAULT_DISCOVERY_PORT,
            control_port: DEFAULT_CONTROL_PORT,
        }
    }

    /// Sets the scheme.
    pub fn scheme(self, scheme: String) -> (builder: Self)
        ensures
            builder == (HubClientBuilder { scheme, ..self }),
    {
        HubClientBuilder { scheme, ..self }
    }

    /// Sets the host.
    pub fn host(self, host: String) -> (builder: Self)
        ensures
            builder == (HubClientBuilder { host: Some(host), ..self }),
    {
        HubClientBuilder { host: Some(host), ..self }
    }

    /// Sets the discovery port.
    pub fn port(self, port: u16) -> (builder: Self)
        ensures
            builder == (HubClientBuilder { discovery_port: port, ..self }),
    {
        self.discovery_port(port)
    }

    /// Sets the discovery port.
    pub fn discovery_port(self, port: u16) -> (builder: Self)
        ensures
            builder == (HubClientBuilder { discovery_port: port, ..self }),
    {
        HubClientBuilder { discovery_port: port, ..self }
    }

    /// The finished configuration; a host has to be set.
    pub fn build(self) -> (res: Result<HubClientConfig, MissingHost>)
        ensures
            match self.host {
                None => res == Err::<HubClientConfig, MissingHost>(MissingHost),
                Some(host) => res == Ok::<HubClientConfig, MissingHost>(
                    HubClientConfig {
                        scheme: self.scheme,
                        host,
                        discovery_port: self.discovery_port,
                        control_port: self.control_port,
                    },
                ),
            },
    {
        match self.host {
            None => Err(MissingHost),
            Some(host) => Ok(
                HubClientConfig {
                    scheme: self.scheme,
                    host,
                    discovery_port: self.discovery_port,
                    control_port: self.control_port,
                },
            ),
        }
    }
}

/// Where a hub listens.
#[derive(Debug)]
pub struct HubServerBuilder {
    pub discovery_port: u16,
    pub control_port: u16,
}

impl HubServerBuilder {
    /// A builder on the default ports.
    pub fn new() -> (builder: Self)
        ensures
            builder.discovery_port == DEFAULT_DISCOVERY_PORT,
            builder.control_port == DEFAULT_CONTROL_PORT,
    {
        HubServerBuilder {
            discovery_port: DEFAULT_DISCOVERY_PORT,
            control_port: DEFAULT_CONTROL_PORT,
        }
    }

    /// Sets the discovery port; 0 leaves the choice to the system.
    pub fn discovery_port(self, port: u16) -> (builder: Self)
        ensures
            builder == (HubServerBuilder { discovery_port: port, ..self }),
    {
        HubServerBuilder { discovery_port: port, ..self }
    }

    /// Sets the control port; 0 leaves the choice to the system.
    pub fn control_port(self, port: u16) -> (builder: Self)
        ensures
            builder == (HubServerBuilder { control_port: port, ..self }),
    {
        HubServerBuilder { control_port: port, ..self }
    }
}

/// Starts a client on the defaults.
pub fn create_client_builder() -> (builder: HubClientBuilder)
    ensures
        builder.scheme@ == "http"@,
        builder.host is None,
        builder.discovery_port == DEFAULT_DISCOVERY_PORT,
        builder.control_port == DEFAULT_CONTROL_PORT,
{
    HubClientBuilder::new()
}

/// Starts a server on the defaults.
pub fn create_server_builder() -> (builder: HubServerBuilder)
    ensures
        builder.discovery_port == DEFAULT_DISCOVERY_PORT,
        builder.control_port == DEFAULT_CONTROL_PORT,
{
    HubServerBuilder::new()
}

} // verus!
