//! The relay's services, and the start-up decisions taken over them: which
//! services run, whether private mode refuses a bind, and the onion-service
//! configuration that the operator is shown.

use vstd::prelude::*;
use vstd::string::StringExecFns;
use crate::config::{Config, IpAddress, loopback_only, resolved_view, bind_is_loopback};
use crate::text::{is_blank, is_blank_spec, last_segment, last_segment_of};

verus! {

/// One of the relay's store-and-forward services.
#[derive(Clone, Copy, Debug, PartialEq, Eq, Structural)]
pub enum Service {
    Group,
    Mailbox,
    Call,
}

impl Service {
    /// The configuration key of the service's bind.
    pub open spec fn config_key_spec(self) -> Seq<char> {
        match self {
            Service::Group => "group_bind"@,
            Service::Mailbox => "mailbox_bind"@,
            Service::Call => "call_bind"@,
        }
    }

    /// The name under which the service listens and logs.
    pub open spec fn listener_name_spec(self) -> Seq<char> {
        match self {
            Service::Group => "group-relay"@,
            Service::Mailbox => "mailbox"@,
            Service::Call => "call-relay"@,
        }
    }

    /// The short label of the service in the onion-service configuration.
    pub open spec fn label_spec(self) -> Seq<char> {
        match self {
            Service::Group => "group"@,
            Service::Mailbox => "mailbox"@,
            Service::Call => "call"@,
        }
    }

    /// The configuration key of the service's bind.
    pub fn config_key(&self) -> (r: &'static str)
        ensures
            r@ == self.config_key_spec(),
    {
        match self {
            Service::Group => "group_bind",
            Service::Mailbox => "mailbox_bind",
            Service::Call => "call_bind",
        }
    }

    /// The name under which the service listens and logs.
    pub fn listener_name(&self) -> (r: &'static str)
        ensures
            r@ == self.listener_name_spec(),
    {
        match self {
            Service::Group => "group-relay",
            Service::Mailbox => "mailbox",
            Service::Call => "call-relay",
        }
    }

    /// The short label of the service in the onion-service configuration.
    pub fn label(&self) -> (r: &'static str)
        ensures
            r@ == self.label_spec(),
    {
        match self {
            Service::Group => "group",
            Service::Mailbox => "mailbox",
            Service::Call => "call",
        }
    }
}

impl Config {
    /// The bind of `service`.
    pub open spec fn bind_spec(self, service: Service) -> Seq<char> {
        match service {
            Service::Group => self.group_bind@,
            Service::Mailbox => self.mailbox_bind@,
            Service::Call => self.call_bind@,
        }
    }

    /// A service runs unless its bind is blank.
    pub open spec fn enabled_spec(self, service: Service) -> bool {
        !is_blank_spec(self.bind_spec(service))
    }

    /// `service` alone when it runs, nothing otherwise.
    pub open spec fn keep_enabled(self, service: Service) -> Seq<Service> {
        if self.enabled_spec(service) {
            seq![service]
        } else {
            seq![]
        }
    }

    /// The services that run, in start-up order.
    pub open spec fn enabled_services_spec(self) -> Seq<Service> {
        self.keep_enabled(Service::Group) + self.keep_enabled(Service::Mailbox)
            + self.keep_enabled(Service::Call)
    }

    /// The bind of `service`.
    pub fn bind(&self, service: Service) -> (r: &String)
        ensures
            r@ == self.bind_spec(service),
    {
        match service {
            Service::Group => &self.group_bind,
            Service::Mailbox => &self.mailbox_bind,
            Service::Call => &self.call_bind,
        }
    }

    /// Whether `service` runs: its bind is not blank.
    pub fn service_enabled(&self, service: Service) -> (r: bool)
        ensures
            r == self.enabled_spec(service),
    {
        !is_blank(self.bind(service).as_str())
    }

    /// The services that run, in start-up order (those whose bind is not
    /// blank).
    pub fn enabled_services(&self) -> (r: Vec<Service>)
        ensures
            r@ == self.enabled_services_spec(),
    {
        let mut r: Vec<Service> = Vec::new();
        if self.service_enabled(Service::Group) {
            r.push(Service::Group);
        }
        let ghost after_group = r@;
        if self.service_enabled(Service::Mailbox) {
            r.push(Service::Mailbox);
        }
        let ghost after_mailbox = r@;
        if self.service_enabled(Service::Call) {
            r.push(Service::Call);
        }
        assert(after_group =~= self.keep_enabled(Service::Group));
        assert(after_mailbox =~= self.keep_enabled(Service::Group) + self.keep_enabled(
            Service::Mailbox,
        ));
        assert(r@ =~= self.enabled_services_spec());
        r
    }

    /// Private mode refuses a running service whose bind is not loopback-only.
    pub open spec fn refused_in_private_mode(
        self,
        service: Service,
        resolved: Option<Seq<IpAddress>>,
    ) -> bool {
        self.enabled_spec(service) && !loopback_only(resolved)
    }

    /// In private mode, the first service (in start-up order) that runs and
    /// whose bind is not loopback-only, given what resolving each bind gave.
    pub open spec fn private_mode_refusal_spec(
        self,
        group: Option<Seq<IpAddress>>,
        mailbox: Option<Seq<IpAddress>>,
        call: Option<Seq<IpAddress>>,
    ) -> Option<Service> {
        if self.refused_in_private_mode(Service::Group, group) {
            Some(Service::Group)
        } else if self.refused_in_private_mode(Service::Mailbox, mailbox) {
            Some(Service::Mailbox)
        } else if self.refused_in_private_mode(Service::Call, call) {
            Some(Service::Call)
        } else {
            None
        }
    }

    /// In private mode, the first service (in start-up order) that runs and
    /// whose bind is not loopback-only, given what resolving each bind gave;
    /// `None` when every running service binds loopback only.
    pub fn private_mode_refusal(
        &self,
        group: &Option<Vec<IpAddress>>,
        mailbox: &Option<Vec<IpAddress>>,
        call: &Option<Vec<IpAddress>>,
    ) -> (r: Option<Service>)
        ensures
            r == self.private_mode_refusal_spec(
                resolved_view(*group),
                resolved_view(*mailbox),
                resolved_view(*call),
            ),
    {
        if self.service_enabled(Service::Group) && !bind_is_loopback(group) {
            Some(Service::Group)
        } else if self.service_enabled(Service::Mailbox) && !bind_is_loopback(mailbox) {
            Some(Service::Mailbox)
        } else if self.service_enabled(Service::Call) && !bind_is_loopback(call) {
            Some(Service::Call)
        } else {
            None
        }
    }
}

} // verus!

verus! {

/// The port of a `host:port` bind: what follows its last colon.
pub open spec fn port_of_spec(bind: Seq<char>) -> Seq<char> {
    last_segment(bind, ':')
}

/// The port of a `host:port` bind: what follows its last colon (all of it
/// when there is no colon).
pub fn port_of(bind: &str) -> (r: &str)
    ensures
        r@ == port_of_spec(bind@),
{
    last_segment_of(bind, ':')
}

/// The onion-service line that exposes one service.
pub open spec fn hidden_service_port_line(label: Seq<char>, bind: Seq<char>) -> Seq<char> {
    "  HiddenServicePort "@ + port_of_spec(bind) + " "@ + bind + "   # "@ + label
}

impl Config {
    /// The onion-service line of `service`, when it runs.
    pub open spec fn port_lines(self, service: Service) -> Seq<Seq<char>> {
        if self.enabled_spec(service) {
            seq![hidden_service_port_line(service.label_spec(), self.bind_spec(service))]
        } else {
            seq![]
        }
    }

    /// The onion-service configuration shown in private mode, line by line.
    pub open spec fn onion_guidance_spec(self) -> Seq<Seq<char>> {
        seq![
            "  # torrc \u{2014} one HiddenServiceDir, one HiddenServicePort per service:"@,
            "  HiddenServiceDir /var/lib/tor/umbra-relay/"@,
        ] + self.port_lines(Service::Group) + self.port_lines(Service::Mailbox) + self.port_lines(
            Service::Call,
        ) + seq![
            "  # (optional) HiddenServiceAuthorizeClient / client-auth for access gating."@,
            "  # Give clients the generated <HiddenServiceDir>/hostname (.onion)."@,
        ]
    }

    /// The onion-service line of `service`.
    fn port_line(&self, service: Service) -> (r: String)
        ensures
            r@ == hidden_service_port_line(service.label_spec(), self.bind_spec(service)),
    {
        let bind = self.bind(service).as_str();
        let mut line = "  HiddenServicePort ".to_string();
        line.append(port_of(bind));
        line.append(" ");
        line.append(bind);
        line.append("   # ");
        line.append(service.label());
        line
    }

    /// Ready-to-paste onion-service configuration for exposing the running
    /// services' binds: one `HiddenServicePort` line per running service,
    /// between fixed lines.
    pub fn onion_guidance(&self) -> (r: Vec<String>)
        ensures
            r@.map_values(|line: String| line@) == self.onion_guidance_spec(),
    {
        let mut lines: Vec<String> = Vec::new();
        lines.push("  # torrc \u{2014} one HiddenServiceDir, one HiddenServicePort per service:".to_string());
        lines.push("  HiddenServiceDir /var/lib/tor/umbra-relay/".to_string());
        let ghost head = lines@.map_values(|line: String| line@);
        if self.service_enabled(Service::Group) {
            lines.push(self.port_line(Service::Group));
        }
        let ghost after_group = lines@.map_values(|line: String| line@);
        if self.service_enabled(Service::Mailbox) {
            lines.push(self.port_line(Service::Mailbox));
        }
        let ghost after_mailbox = lines@.map_values(|line: String| line@);
        if self.service_enabled(Service::Call) {
            lines.push(self.port_line(Service::Call));
        }
        let ghost after_call = lines@.map_values(|line: String| line@);
        lines.push(
            "  # (optional) HiddenServiceAuthorizeClient / client-auth for access gating.".to_string(),
        );
        lines.push("  # Give clients the generated <HiddenServiceDir>/hostname (.onion).".to_string());
        assert(after_group =~= head + self.port_lines(Service::Group));
        assert(after_mailbox =~= head + self.port_lines(Service::Group) + self.port_lines(
            Service::Mailbox,
        ));
        assert(after_call =~= head + self.port_lines(Service::Group) + self.port_lines(
            Service::Mailbox,
        ) + self.port_lines(Service::Call));
        assert(lines@.map_values(|line: String| line@) =~= self.onion_guidance_spec());
        lines
    }
}

} // verus!
