//! Server configuration.
use vstd::prelude::*;

use crate::model::{Address, IpAddr};
use crate::rule::ConnectRule;

verus! {

/// Default listening port.
pub const DEFAULT_PORT: u16 = 1080;

/// Default read / write timeout towards the client, in milliseconds.
pub const DEFAULT_CLIENT_RW_TIMEOUT: u64 = 2000;

/// Default read / write timeout towards the remote host, in milliseconds.
pub const DEFAULT_SERVER_RW_TIMEOUT: u64 = 5000;

/// Default accept timeout, in milliseconds.
pub const DEFAULT_ACCEPT_TIMEOUT: u64 = 3000;

/// Server configuration. Timeouts are in milliseconds; `None` waits forever.
#[derive(Debug, Clone)]
pub struct ServerConfig {
    /// address to listen on (default: 0.0.0.0)
    pub server_ip: IpAddr,
    /// port to listen on (default: 1080)
    pub server_port: u16,
    /// rules that filter connect requests (default: allow all)
    pub conn_rule: ConnectRule,
    /// timeout of relaying data from the client (default: 2000 ms)
    pub client_rw_timeout: Option<u64>,
    /// timeout of relaying data from the remote host (default: 5000 ms)
    pub server_rw_timeout: Option<u64>,
    /// timeout of accepting a connection (default: 3000 ms)
    pub accept_timeout: Option<u64>,
}

impl ServerConfig {
    pub open spec fn wf(&self) -> bool {
        self.conn_rule.wf()
    }

    /// A configuration with the default timeouts.
    pub fn new(server_ip: IpAddr, server_port: u16, conn_rule: ConnectRule) -> (r: Self)
        ensures
            r.server_ip == server_ip,
            r.server_port == server_port,
            r.conn_rule == conn_rule,
            r.client_rw_timeout == Some(DEFAULT_CLIENT_RW_TIMEOUT),
            r.server_rw_timeout == Some(DEFAULT_SERVER_RW_TIMEOUT),
            r.accept_timeout == Some(DEFAULT_ACCEPT_TIMEOUT),
    {
        ServerConfig {
            server_ip,
            server_port,
            conn_rule,
            client_rw_timeout: Some(DEFAULT_CLIENT_RW_TIMEOUT),
            server_rw_timeout: Some(DEFAULT_SERVER_RW_TIMEOUT),
            accept_timeout: Some(DEFAULT_ACCEPT_TIMEOUT),
        }
    }

    /// The address to listen on.
    pub fn server_addr(&self) -> (r: Address)
        ensures
            r == Address::IpAddr(self.server_ip, self.server_port),
    {
        Address::IpAddr(self.server_ip, self.server_port)
    }

    /// A copy of the rules, for one session.
    pub fn connect_rule(&self) -> (r: ConnectRule)
        ensures
            r@ == self.conn_rule@,
    {
        self.conn_rule.duplicate()
    }

    pub fn set_server_addr(&mut self, ip: IpAddr, port: u16)
        ensures
            final(self).server_ip == ip,
            final(self).server_port == port,
            final(self).conn_rule == old(self).conn_rule,
            final(self).client_rw_timeout == old(self).client_rw_timeout,
            final(self).server_rw_timeout == old(self).server_rw_timeout,
            final(self).accept_timeout == old(self).accept_timeout,
    {
        self.server_ip = ip;
        self.server_port = port;
    }

    pub fn set_connect_rule(&mut self, rule: ConnectRule)
        ensures
            final(self).conn_rule == rule,
            final(self).server_ip == old(self).server_ip,
            final(self).server_port == old(self).server_port,
            final(self).client_rw_timeout == old(self).client_rw_timeout,
            final(self).server_rw_timeout == old(self).server_rw_timeout,
            final(self).accept_timeout == old(self).accept_timeout,
    {
        self.conn_rule = rule;
    }

    pub fn set_client_rw_timeout(&mut self, dur: Option<u64>)
        ensures
            final(self).client_rw_timeout == dur,
            final(self).server_ip == old(self).server_ip,
            final(self).server_port == old(self).server_port,
            final(self).conn_rule == old(self).conn_rule,
            final(self).server_rw_timeout == old(self).server_rw_timeout,
            final(self).accept_timeout == old(self).accept_timeout,
    {
        self.client_rw_timeout = dur;
    }

    pub fn set_server_rw_timeout(&mut self, dur: Option<u64>)
        ensures
            final(self).server_rw_timeout == dur,
            final(self).server_ip == old(self).server_ip,
            final(self).server_port == old(self).server_port,
            final(self).conn_rule == old(self).conn_rule,
            final(self).client_rw_timeout == old(self).client_rw_timeout,
            final(self).accept_timeout == old(self).accept_timeout,
    {
        self.server_rw_timeout = dur;
    }

    pub fn set_accept_timeout(&mut self, dur: Option<u64>)
        ensures
            final(self).accept_timeout == dur,
            final(self).server_ip == old(self).server_ip,
            final(self).server_port == old(self).server_port,
            final(self).conn_rule == old(self).conn_rule,
            final(self).client_rw_timeout == old(self).client_rw_timeout,
            final(self).server_rw_timeout == old(self).server_rw_timeout,
    {
        self.accept_timeout = dur;
    }
}

impl Default for ServerConfig {
    /// Listen on 0.0.0.0:1080, allow all, default timeouts.
    fn default() -> (r: Self)
        ensures
            r.server_ip == IpAddr::V4(0),
            r.server_port == DEFAULT_PORT,
            r.conn_rule.wf(),
            r.conn_rule@.len() == 1,
            r.conn_rule@[0] is Allow,
            r.client_rw_timeout == Some(DEFAULT_CLIENT_RW_TIMEOUT),
            r.server_rw_timeout == Some(DEFAULT_SERVER_RW_TIMEOUT),
            r.accept_timeout == Some(DEFAULT_ACCEPT_TIMEOUT),
    {
        ServerConfig::new(IpAddr::V4(0), DEFAULT_PORT, ConnectRule::any())
    }
}

} // verus!
