//! Operator configuration and the decisions read off it.

use vstd::prelude::*;
use crate::text::str_eq;

verus! {

/// The relay's operator configuration.
#[derive(Clone)]
pub struct Config {
    /// TCP bind for the group relay; an empty (or blank) string disables the service.
    pub group_bind: String,
    /// TCP bind for the mailbox; an empty (or blank) string disables the service.
    pub mailbox_bind: String,
    /// TCP bind for the call relay; an empty (or blank) string disables it.
    pub call_bind: String,
    /// Exact source IPs allowed to connect. Empty means any source is allowed.
    pub allow_ips: Vec<String>,
    /// Hard cap on concurrent connections per service. Excess is dropped.
    pub max_connections: usize,
    /// Idle read timeout in seconds.
    pub idle_timeout_secs: u64,
    /// Encrypted spool file.
    pub spool_path: String,
    /// How often to flush an encrypted snapshot, in seconds.
    pub snapshot_interval_secs: u64,
    /// Refuse any non-loopback bind, so that the relay is reachable only
    /// through a co-located onion service.
    pub private_mode: bool,
}

/// The shortest period between two snapshots, in seconds.
pub const MIN_SNAPSHOT_INTERVAL_SECS: u64 = 5;

impl Config {
    /// The values that `Config::default` gives.
    pub open spec fn is_default(self) -> bool {
        &&& self.group_bind@ == "0.0.0.0:9910"@
        &&& self.mailbox_bind@ == "0.0.0.0:9900"@
        &&& self.call_bind@ == "0.0.0.0:9930"@
        &&& self.allow_ips@.len() == 0
        &&& self.max_connections == 512
        &&& self.idle_timeout_secs == 90
        &&& self.spool_path@ == "umbra-relay.spool"@
        &&& self.snapshot_interval_secs == 30
        &&& !self.private_mode
    }

    /// Whether a peer whose address reads `ip` may connect.
    pub open spec fn ip_allowed_spec(self, ip: Seq<char>) -> bool {
        self.allow_ips@.len() == 0 || exists|i: int|
            0 <= i < self.allow_ips@.len() && (#[trigger] self.allow_ips@[i])@ == ip
    }

    /// True if `ip` (a peer address's IP, as a string) may connect: the
    /// allowlist is empty, or it holds `ip` exactly.
    pub fn ip_allowed(&self, ip: &str) -> (r: bool)
        ensures
            r == self.ip_allowed_spec(ip@),
    {
        if self.allow_ips.len() == 0 {
            return true;
        }
        let mut i: usize = 0;
        while i < self.allow_ips.len()
            invariant
                i <= self.allow_ips@.len(),
                forall|j: int| 0 <= j < i ==> (#[trigger] self.allow_ips@[j])@ != ip@,
            decreases self.allow_ips@.len() - i,
        {
            if str_eq(self.allow_ips[i].as_str(), ip) {
                return true;
            }
            i = i + 1;
        }
        false
    }

    /// The period between two snapshots: the configured one, but never
    /// under `MIN_SNAPSHOT_INTERVAL_SECS`.
    pub fn snapshot_period_secs(&self) -> (r: u64)
        ensures
            r >= MIN_SNAPSHOT_INTERVAL_SECS,
            r == if self.snapshot_interval_secs < MIN_SNAPSHOT_INTERVAL_SECS {
                MIN_SNAPSHOT_INTERVAL_SECS
            } else {
                self.snapshot_interval_secs
            },
    {
        if self.snapshot_interval_secs < MIN_SNAPSHOT_INTERVAL_SECS {
            MIN_SNAPSHOT_INTERVAL_SECS
        } else {
            self.snapshot_interval_secs
        }
    }
}

impl Default for Config {
    fn default() -> (r: Self)
        ensures
            r.is_default(),
    {
        Config {
            group_bind: "0.0.0.0:9910".to_string(),
            mailbox_bind: "0.0.0.0:9900".to_string(),
            call_bind: "0.0.0.0:9930".to_string(),
            allow_ips: Vec::new(),
            max_connections: 512,
            idle_timeout_secs: 90,
            spool_path: "umbra-relay.spool".to_string(),
            snapshot_interval_secs: 30,
            private_mode: false,
        }
    }
}

} // verus!

verus! {

/// An IP address that a bind resolved to, by its numeric value.
#[derive(Clone, Copy, Debug, PartialEq, Eq, Structural)]
pub enum IpAddress {
    /// An IPv4 address, its four octets big-endian.
    V4(u32),
    /// An IPv6 address, its sixteen octets big-endian.
    V6(u128),
}

impl IpAddress {
    /// Loopback: `127.0.0.0/8` for IPv4, `::1` for IPv6.
    pub open spec fn is_loopback_spec(self) -> bool {
        match self {
            IpAddress::V4(a) => a / 0x100_0000 == 127,
            IpAddress::V6(a) => a == 1,
        }
    }

    /// Whether this is a loopback address.
    pub fn is_loopback(&self) -> (r: bool)
        ensures
            r == self.is_loopback_spec(),
    {
        match self {
            IpAddress::V4(a) => *a / 0x100_0000 == 127,
            IpAddress::V6(a) => *a == 1,
        }
    }
}

/// A bind is loopback-only when it resolved, to at least one address, and
/// every address it resolved to is a loopback address.
pub open spec fn loopback_only(resolved: Option<Seq<IpAddress>>) -> bool {
    match resolved {
        Some(addrs) => addrs.len() > 0 && forall|i: int|
            0 <= i < addrs.len() ==> (#[trigger] addrs[i]).is_loopback_spec(),
        None => false,
    }
}

/// The addresses of a resolution, as a sequence.
pub open spec fn resolved_view(resolved: Option<Vec<IpAddress>>) -> Option<Seq<IpAddress>> {
    match resolved {
        Some(v) => Some(v@),
        None => None,
    }
}

/// True if a bind (host:port) resolves to loopback addresses only, given
/// what resolving it gave: `None` when resolution failed, otherwise every
/// address it resolved to.
pub fn bind_is_loopback(resolved: &Option<Vec<IpAddress>>) -> (r: bool)
    ensures
        r == loopback_only(resolved_view(*resolved)),
{
    match resolved {
        None => false,
        Some(addrs) => {
            let mut any = false;
            let mut i: usize = 0;
            while i < addrs.len()
                invariant
                    resolved_view(*resolved) == Some(addrs@),
                    i <= addrs@.len(),
                    any == (i > 0),
                    forall|j: int| 0 <= j < i ==> (#[trigger] addrs@[j]).is_loopback_spec(),
                decreases addrs@.len() - i,
            {
                any = true;
                if !addrs[i].is_loopback() {
                    return false;
                }
                i = i + 1;
            }
            any
        },
    }
}

} // verus!
