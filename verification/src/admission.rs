//! Admission of accepted connections: the source-IP allowlist and the hard
//! cap on concurrent connections of one service.

use vstd::prelude::*;
use crate::config::Config;

verus! {

/// What becomes of a newly accepted connection.
#[derive(Clone, Copy, Debug, PartialEq, Eq, Structural)]
pub enum Admission {
    /// Handed to the service's handler.
    Accept,
    /// Dropped: its source IP is not on the allowlist.
    NotAllowlisted,
    /// Dropped: the service already holds `max_connections` connections.
    AtCapacity,
}

/// What admission decides for a connection from `ip` while `active`
/// connections are open: the allowlist is asked first, then the cap.
pub open spec fn admission_spec(cfg: Config, ip: Seq<char>, active: int) -> Admission {
    if !cfg.ip_allowed_spec(ip) {
        Admission::NotAllowlisted
    } else if active >= cfg.max_connections {
        Admission::AtCapacity
    } else {
        Admission::Accept
    }
}

/// The count of a service's open connections, and the decisions over it.
pub struct ConnectionGate {
    active: usize,
}

impl ConnectionGate {
    /// The number of connections that are open.
    pub closed spec fn count(self) -> nat {
        self.active as nat
    }

    /// A gate with no connection open.
    pub fn new() -> (r: ConnectionGate)
        ensures
            r.count() == 0,
    {
        ConnectionGate { active: 0 }
    }

    /// The number of connections that are open.
    pub fn active(&self) -> (r: usize)
        ensures
            r == self.count(),
    {
        self.active
    }

    /// Decides on a connection from `ip`: refused when `ip` is not
    /// allowlisted, dropped when the service is at capacity, otherwise
    /// accepted and counted as open.
    pub fn decide(&mut self, cfg: &Config, ip: &str) -> (r: Admission)
        ensures
            r == admission_spec(*cfg, ip@, old(self).count() as int),
            final(self).count() == if r == Admission::Accept {
                old(self).count() + 1
            } else {
                old(self).count()
            },
            old(self).count() <= cfg.max_connections ==> final(self).count()
                <= cfg.max_connections,
    {
        if !cfg.ip_allowed(ip) {
            Admission::NotAllowlisted
        } else if self.active >= cfg.max_connections {
            Admission::AtCapacity
        } else {
            self.active = self.active + 1;
            Admission::Accept
        }
    }

    /// Records that an accepted connection has closed.
    pub fn release(&mut self)
        requires
            old(self).count() > 0,
        ensures
            final(self).count() == old(self).count() - 1,
    {
        self.active = self.active - 1;
    }
}

} // verus!
