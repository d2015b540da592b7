use vstd::prelude::*;

verus! {

#[derive(Clone, Copy, Ord, Eq, PartialOrd, PartialEq, Debug, Structural)]
pub enum NetProtocol {
    TCP,
    UDP,
}

#[derive(Clone, Copy, Ord, Eq, PartialOrd, PartialEq, Debug, Structural)]
pub enum NetConnectionType {
    CLIENT,
    SERVER,
}

/// Where to listen (server) or connect (client), and with which protocol.
#[derive(Clone, Ord, Eq, PartialOrd, PartialEq, Debug)]
pub struct NetConfig {
    pub protocol: NetProtocol,
    pub connection_type: NetConnectionType,
    pub host: String,
    pub port: usize,
}

/// Abstract value of a [`NetConfig`].
pub struct NetConfigView {
    pub protocol: NetProtocol,
    pub connection_type: NetConnectionType,
    pub host: Seq<char>,
    pub port: usize,
}

impl View for NetConfig {
    type V = NetConfigView;

    open spec fn view(&self) -> NetConfigView {
        NetConfigView {
            protocol: self.protocol,
            connection_type: self.connection_type,
            host: self.host@,
            port: self.port,
        }
    }
}

impl NetConfig {
    pub fn new(protocol: NetProtocol, connection_type: NetConnectionType, host: String, port: usize) -> (c: Self)
        ensures
            c@ == (NetConfigView { protocol, connection_type, host: host@, port }),
    {
        Self { protocol, connection_type, host, port }
    }

    /// A copy of the configuration.
    pub fn duplicate(&self) -> (c: Self)
        ensures
            c@ == self@,
    {
        Self {
            protocol: self.protocol,
            connection_type: self.connection_type,
            host: self.host.clone(),
            port: self.port,
        }
    }
}

} // verus!
