//! Laws of the library, each stated over its inputs and results in plain
//! terms (characters, bytes, integers) rather than by the definitions that
//! the operations' contracts use.

use vstd::prelude::*;
use crate::config::{Config, IpAddress, loopback_only};
use crate::services::{Service, hidden_service_port_line};
use crate::admission::{Admission, admission_spec};
use crate::text::is_white_space;
use crate::spool::{
    Argon2Params, SpoolError, SpoolView, header_bytes, magic, open_spec, parse_spool_spec,
    plaintext_bytes, split_plaintext_spec,
};
use vstd::bytes::{spec_u32_from_le_bytes, spec_u32_to_le_bytes, lemma_auto_spec_u32_to_from_le_bytes};

verus! {

/// `s` holds a character other than white space, so trimming leaves
/// something of it.
pub open spec fn has_content(s: Seq<char>) -> bool {
    exists|i: int| 0 <= i < s.len() && !is_white_space(#[trigger] s[i])
}

/// Loopback addresses are those of `127.0.0.0/8` (first octet 127) and
/// `::1`, and nothing else.
pub proof fn law_loopback_address(addr: IpAddress)
    ensures
        match addr {
            IpAddress::V4(a) => addr.is_loopback_spec() <==> (127 * 0x100_0000 <= a && a < 128
                * 0x100_0000),
            IpAddress::V6(a) => addr.is_loopback_spec() <==> a == 1,
        },
{
    match addr {
        IpAddress::V4(a) => {
            assert((a / 0x100_0000 == 127) <==> (127 * 0x100_0000 <= a && a < 128 * 0x100_0000))
                by (nonlinear_arith);
        },
        IpAddress::V6(a) => {},
    }
}

/// A bind is loopback-only exactly when it resolved to at least one
/// address, and every address it resolved to has first octet 127 (IPv4)
/// or is `::1` (IPv6). In particular a single IPv4 address `a` passes
/// exactly when `a / 2^24 == 127`.
pub proof fn law_loopback_only(resolved: Option<Seq<IpAddress>>, a: u32)
    ensures
        loopback_only(resolved) <==> match resolved {
            Some(addrs) => addrs.len() > 0 && forall|i: int|
                #![trigger addrs[i]]
                0 <= i < addrs.len() ==> match addrs[i] {
                    IpAddress::V4(v) => 127 * 0x100_0000 <= v && v < 128 * 0x100_0000,
                    IpAddress::V6(v) => v == 1,
                },
            None => false,
        },
        loopback_only(Some(seq![IpAddress::V4(a)])) <==> a / 0x100_0000 == 127,
        !loopback_only(None),
{
    if let Some(addrs) = resolved {
        assert forall|i: int| 0 <= i < addrs.len() implies (#[trigger] addrs[i]).is_loopback_spec()
            <==> match addrs[i] {
            IpAddress::V4(v) => 127 * 0x100_0000 <= v && v < 128 * 0x100_0000,
            IpAddress::V6(v) => v == 1,
        } by {
            law_loopback_address(addrs[i]);
        }
    }
    let one = seq![IpAddress::V4(a)];
    assert(one[0] == IpAddress::V4(a));
}

/// An empty allowlist lets every source in; a non-empty one lets in
/// exactly the sources equal, character for character, to one of its
/// entries.
pub proof fn law_allowlist(cfg: Config, ip: Seq<char>)
    ensures
        cfg.allow_ips@.len() == 0 ==> cfg.ip_allowed_spec(ip),
        cfg.allow_ips@.len() > 0 ==> (cfg.ip_allowed_spec(ip) <==> exists|i: int|
            0 <= i < cfg.allow_ips@.len() && #[trigger] cfg.allow_ips@[i]@ =~= ip),
        forall|i: int| 0 <= i < cfg.allow_ips@.len() ==> cfg.ip_allowed_spec(
            #[trigger] cfg.allow_ips@[i]@,
        ),
{
    assert forall|i: int| 0 <= i < cfg.allow_ips@.len() implies cfg.ip_allowed_spec(
        #[trigger] cfg.allow_ips@[i]@,
    ) by {
        assert(cfg.allow_ips@[i]@ == cfg.allow_ips@[i]@);
    }
    if cfg.allow_ips@.len() > 0 {
        if cfg.ip_allowed_spec(ip) {
            let i = choose|i: int|
                0 <= i < cfg.allow_ips@.len() && (#[trigger] cfg.allow_ips@[i])@ == ip;
            assert(cfg.allow_ips@[i]@ =~= ip);
        }
        if exists|i: int| 0 <= i < cfg.allow_ips@.len() && #[trigger] cfg.allow_ips@[i]@ =~= ip {
            let i = choose|i: int|
                0 <= i < cfg.allow_ips@.len() && #[trigger] cfg.allow_ips@[i]@ =~= ip;
            assert(cfg.allow_ips@[i]@ == ip);
        }
    }
}

/// A connection is refused as not allowlisted exactly when the allowlist
/// is non-empty and no entry equals its source; otherwise it is dropped
/// exactly when `active` has reached `max_connections`, and accepted
/// exactly when it has not.
pub proof fn law_admission(cfg: Config, ip: Seq<char>, active: int)
    ensures
        ({
            let listed = cfg.allow_ips@.len() == 0 || exists|i: int|
                0 <= i < cfg.allow_ips@.len() && #[trigger] cfg.allow_ips@[i]@ =~= ip;
            &&& admission_spec(cfg, ip, active) == Admission::NotAllowlisted <==> !listed
            &&& admission_spec(cfg, ip, active) == Admission::AtCapacity <==> listed && active
                >= cfg.max_connections
            &&& admission_spec(cfg, ip, active) == Admission::Accept <==> listed && active
                < cfg.max_connections
        }),
{
    law_allowlist(cfg, ip);
}

/// Start-up order of the services.
pub open spec fn start_rank(s: Service) -> int {
    match s {
        Service::Group => 0,
        Service::Mailbox => 1,
        Service::Call => 2,
    }
}

/// Blankness is the absence of any character other than white space.
pub proof fn law_blank(s: Seq<char>)
    ensures
        crate::text::is_blank_spec(s) <==> !has_content(s),
{
}

/// Each service runs exactly when its own bind has a character other than
/// white space, whatever the other binds are; the running services come
/// in start-up order (group relay, mailbox, call relay), each once.
pub proof fn law_enabled_services(cfg: Config)
    ensures
        cfg.enabled_services_spec().contains(Service::Group) <==> has_content(cfg.group_bind@),
        cfg.enabled_services_spec().contains(Service::Mailbox) <==> has_content(
            cfg.mailbox_bind@,
        ),
        cfg.enabled_services_spec().contains(Service::Call) <==> has_content(cfg.call_bind@),
        forall|i: int, j: int|
            0 <= i < j < cfg.enabled_services_spec().len() ==> start_rank(
                #[trigger] cfg.enabled_services_spec()[i],
            ) < start_rank(#[trigger] cfg.enabled_services_spec()[j]),
{
    law_blank(cfg.group_bind@);
    law_blank(cfg.mailbox_bind@);
    law_blank(cfg.call_bind@);
    let r = cfg.enabled_services_spec();
    let g = cfg.keep_enabled(Service::Group);
    let m = cfg.keep_enabled(Service::Mailbox);
    let c = cfg.keep_enabled(Service::Call);
    assert(r == g + m + c);
    assert(forall|k: int| 0 <= k < g.len() ==> g[k] == Service::Group);
    assert(forall|k: int| 0 <= k < m.len() ==> m[k] == Service::Mailbox);
    assert(forall|k: int| 0 <= k < c.len() ==> c[k] == Service::Call);
    assert(forall|k: int|
        0 <= k < r.len() ==> #[trigger] r[k] == if k < g.len() {
            g[k]
        } else if k < g.len() + m.len() {
            m[k - g.len()]
        } else {
            c[k - g.len() - m.len()]
        });
    if has_content(cfg.group_bind@) {
        assert(r[0] == Service::Group);
    }
    if has_content(cfg.mailbox_bind@) {
        assert(r[g.len() as int] == Service::Mailbox);
    }
    if has_content(cfg.call_bind@) {
        assert(r[(g.len() + m.len()) as int] == Service::Call);
    }
}

/// Private mode refuses a service whose own bind has content and did not
/// resolve to loopback addresses only, whatever the other binds are: the
/// first such service, in start-up order, is reported; a service is
/// reported only when its own bind has content and did not resolve to
/// loopback addresses only; and none is reported exactly when every bind
/// with content resolved to loopback addresses only.
pub proof fn law_private_mode(
    cfg: Config,
    group: Option<Seq<IpAddress>>,
    mailbox: Option<Seq<IpAddress>>,
    call: Option<Seq<IpAddress>>,
)
    ensures
        ({
            let r = cfg.private_mode_refusal_spec(group, mailbox, call);
            let g = has_content(cfg.group_bind@) && !loopback_only(group);
            let m = has_content(cfg.mailbox_bind@) && !loopback_only(mailbox);
            let c = has_content(cfg.call_bind@) && !loopback_only(call);
            &&& g ==> r == Some(Service::Group)
            &&& m ==> r is Some
            &&& c ==> r is Some
            &&& r == Some(Service::Group) ==> g
            &&& r == Some(Service::Mailbox) ==> m && !g
            &&& r == Some(Service::Call) ==> c && !g && !m
            &&& r is None <==> !g && !m && !c
        }),
{
    law_blank(cfg.group_bind@);
    law_blank(cfg.mailbox_bind@);
    law_blank(cfg.call_bind@);
}

/// The index past the last separator lies within the string.
proof fn lemma_after_last_bounds(s: Seq<char>, sep: char)
    ensures
        0 <= crate::text::after_last(s, sep) <= s.len(),
    decreases s.len(),
{
    if s.len() > 0 && s.last() != sep {
        lemma_after_last_bounds(s.drop_last(), sep);
    }
}

/// The last segment of `s` is the part after its last `sep`: a suffix of
/// `s` without any `sep`, preceded in `s` by `sep` unless it is all of `s`.
pub proof fn law_last_segment(s: Seq<char>, sep: char)
    ensures
        ({
            let p = crate::text::last_segment(s, sep);
            &&& p.len() <= s.len()
            &&& p == s.subrange(s.len() - p.len(), s.len() as int)
            &&& forall|i: int| 0 <= i < p.len() ==> p[i] != sep
            &&& p.len() < s.len() ==> s[s.len() - p.len() - 1] == sep
        }),
    decreases s.len(),
{
    let p = crate::text::last_segment(s, sep);
    lemma_after_last_bounds(s, sep);
    if s.len() > 0 && s.last() != sep {
        law_last_segment(s.drop_last(), sep);
        let q = crate::text::last_segment(s.drop_last(), sep);
        lemma_after_last_bounds(s.drop_last(), sep);
        assert(p =~= q.push(s.last()));
        assert forall|i: int| 0 <= i < p.len() implies p[i] != sep by {
            if i < q.len() {
                assert(p[i] == q[i]);
            }
        }
        if p.len() < s.len() {
            assert(s[s.len() - p.len() - 1] == s.drop_last()[s.drop_last().len() - q.len() - 1]);
        }
    }
}

/// The port of a bind is the part after its last colon: a suffix of the
/// bind without any colon, preceded in the bind by a colon unless it is the
/// whole bind.
pub proof fn law_port_of(bind: Seq<char>)
    ensures
        ({
            let p = crate::services::port_of_spec(bind);
            &&& p.len() <= bind.len()
            &&& p == bind.subrange(bind.len() - p.len(), bind.len() as int)
            &&& forall|i: int| 0 <= i < p.len() ==> p[i] != ':'
            &&& p.len() < bind.len() ==> bind[bind.len() - p.len() - 1] == ':'
        }),
{
    law_last_segment(bind, ':');
}

/// The onion-service configuration: two fixed lines, one
/// `HiddenServicePort` line for each running service, two fixed lines; the
/// line of a service whose bind has content is
/// `  HiddenServicePort <port> <bind>   # <label>`.
pub proof fn law_onion_guidance(cfg: Config)
    ensures
        ({
            let g = cfg.onion_guidance_spec();
            let port_line = |label: Seq<char>, bind: Seq<char>|
                "  HiddenServicePort "@ + crate::services::port_of_spec(bind) + " "@ + bind
                    + "   # "@ + label;
            &&& g.len() == 4 + cfg.enabled_services_spec().len()
            &&& g[0] == "  # torrc \u{2014} one HiddenServiceDir, one HiddenServicePort per service:"@
            &&& g[1] == "  HiddenServiceDir /var/lib/tor/umbra-relay/"@
            &&& g[g.len() - 2]
                == "  # (optional) HiddenServiceAuthorizeClient / client-auth for access gating."@
            &&& g[g.len() - 1] == "  # Give clients the generated <HiddenServiceDir>/hostname (.onion)."@
            &&& has_content(cfg.group_bind@) ==> g.contains(port_line("group"@, cfg.group_bind@))
            &&& has_content(cfg.mailbox_bind@) ==> g.contains(
                port_line("mailbox"@, cfg.mailbox_bind@),
            )
            &&& has_content(cfg.call_bind@) ==> g.contains(port_line("call"@, cfg.call_bind@))
            &&& forall|k: int|
                0 <= k < cfg.enabled_services_spec().len() ==> #[trigger] g[2 + k] == match cfg.enabled_services_spec()[k] {
                    Service::Group => port_line("group"@, cfg.group_bind@),
                    Service::Mailbox => port_line("mailbox"@, cfg.mailbox_bind@),
                    Service::Call => port_line("call"@, cfg.call_bind@),
                }
        }),
{
    law_blank(cfg.group_bind@);
    law_blank(cfg.mailbox_bind@);
    law_blank(cfg.call_bind@);
    let g = cfg.onion_guidance_spec();
    let head = seq![
        "  # torrc \u{2014} one HiddenServiceDir, one HiddenServicePort per service:"@,
        "  HiddenServiceDir /var/lib/tor/umbra-relay/"@,
    ];
    let tail = seq![
        "  # (optional) HiddenServiceAuthorizeClient / client-auth for access gating."@,
        "  # Give clients the generated <HiddenServiceDir>/hostname (.onion)."@,
    ];
    let pg = cfg.port_lines(Service::Group);
    let pm = cfg.port_lines(Service::Mailbox);
    let pc = cfg.port_lines(Service::Call);
    assert(g == head + pg + pm + pc + tail);
    assert(pg.len() == cfg.keep_enabled(Service::Group).len());
    assert(pm.len() == cfg.keep_enabled(Service::Mailbox).len());
    assert(pc.len() == cfg.keep_enabled(Service::Call).len());
    assert(g[0] == head[0]);
    assert(g[1] == head[1]);
    assert(g[g.len() - 2] == tail[0]);
    assert(g[g.len() - 1] == tail[1]);
    let e = cfg.enabled_services_spec();
    assert(e == cfg.keep_enabled(Service::Group) + cfg.keep_enabled(Service::Mailbox)
        + cfg.keep_enabled(Service::Call));
    assert forall|k: int| 0 <= k < e.len() implies #[trigger] g[2 + k] == match e[k] {
        Service::Group => hidden_service_port_line("group"@, cfg.group_bind@),
        Service::Mailbox => hidden_service_port_line("mailbox"@, cfg.mailbox_bind@),
        Service::Call => hidden_service_port_line("call"@, cfg.call_bind@),
    } by {
        let eg = cfg.keep_enabled(Service::Group);
        let em = cfg.keep_enabled(Service::Mailbox);
        if k < eg.len() {
            assert(e[k] == eg[k]);
            assert(g[2 + k] == pg[k]);
        } else if k < eg.len() + em.len() {
            assert(e[k] == em[k - eg.len()]);
            assert(g[2 + k] == pm[k - pg.len()]);
        } else {
            assert(e[k] == cfg.keep_enabled(Service::Call)[k - eg.len() - em.len()]);
            assert(g[2 + k] == pc[k - pg.len() - pm.len()]);
        }
    }
    if has_content(cfg.group_bind@) {
        assert(g[2] == pg[0]);
    }
    if has_content(cfg.mailbox_bind@) {
        assert(g[2 + pg.len() as int] == pm[0]);
    }
    if has_content(cfg.call_bind@) {
        assert(g[2 + pg.len() as int + pm.len() as int] == pc[0]);
    }
}

/// White space is exactly the Unicode `White_Space` code points.
pub proof fn law_white_space(c: char)
    ensures
        is_white_space(c) <==> set![
            0x9u32, 0xau32, 0xbu32, 0xcu32, 0xdu32, 0x20u32, 0x85u32, 0xa0u32, 0x1680u32,
            0x2000u32, 0x2001u32, 0x2002u32, 0x2003u32, 0x2004u32, 0x2005u32, 0x2006u32,
            0x2007u32, 0x2008u32, 0x2009u32, 0x200au32, 0x2028u32, 0x2029u32, 0x202fu32,
            0x205fu32, 0x3000u32,
        ].contains(c as u32),
{
}

/// An argument that begins with two hyphens.
pub open spec fn dashed(a: Seq<char>) -> bool {
    a.len() >= 2 && a[0] == '-' && a[1] == '-'
}

/// The command line asks for the default configuration exactly when some
/// argument is `--gen-config`. Otherwise the configuration path is the
/// first argument after the program's name that does not begin with two
/// hyphens, and `umbra-relay.toml` when every such argument does.
pub proof fn law_command_line(args: Seq<Seq<char>>)
    ensures
        crate::cli::asks_gen_config(args) <==> exists|i: int|
            0 <= i < args.len() && #[trigger] args[i] =~= seq![
                '-', '-', 'g', 'e', 'n', '-', 'c', 'o', 'n', 'f', 'i', 'g',
            ],
        (exists|k: int|
            1 <= k < args.len() && !dashed(#[trigger] args[k]) && (forall|j: int|
                1 <= j < k ==> dashed(#[trigger] args[j])) && crate::cli::config_path_spec(args)
                == args[k]) || ((forall|j: int| 1 <= j < args.len() ==> dashed(#[trigger] args[j]))
            && crate::cli::config_path_spec(args) =~= seq![
            'u', 'm', 'b', 'r', 'a', '-', 'r', 'e', 'l', 'a', 'y', '.', 't', 'o', 'm', 'l',
        ]),
{
    reveal_strlit("--gen-config");
    reveal_strlit("--");
    reveal_strlit("umbra-relay.toml");
    let gen = seq!['-', '-', 'g', 'e', 'n', '-', 'c', 'o', 'n', 'f', 'i', 'g'];
    assert("--gen-config"@ =~= gen);
    assert("umbra-relay.toml"@ =~= seq![
        'u', 'm', 'b', 'r', 'a', '-', 'r', 'e', 'l', 'a', 'y', '.', 't', 'o', 'm', 'l',
    ]);
    assert forall|a: Seq<char>| crate::cli::is_option(a) <==> dashed(a) by {
        if a.len() >= 2 {
            assert(crate::cli::is_option(a) ==> a.subrange(0, 2)[0] == '-' && a.subrange(0, 2)[1] == '-');
            if dashed(a) {
                assert(a.subrange(0, 2) =~= "--"@);
            }
        }
    }
    lemma_first_non_option(args, 1);
}

/// Where the search for the first non-option argument from `i` ends.
proof fn lemma_first_non_option(args: Seq<Seq<char>>, i: int)
    requires
        i >= 1,
        forall|a: Seq<char>| crate::cli::is_option(a) <==> dashed(a),
    ensures
        match crate::cli::first_non_option_from(args, i) {
            Some(k) => i <= k < args.len() && !dashed(args[k]) && forall|j: int|
                i <= j < k ==> dashed(#[trigger] args[j]),
            None => forall|j: int| i <= j < args.len() ==> dashed(#[trigger] args[j]),
        },
    decreases args.len() - i,
{
    if i < args.len() && dashed(args[i]) {
        lemma_first_non_option(args, i + 1);
    }
}

/// The magic bytes `URLYSPL1`, spelled out as ASCII codes.
pub open spec fn urlyspl1() -> Seq<u8> {
    seq![85u8, 82u8, 76u8, 89u8, 83u8, 80u8, 76u8, 49u8]
}

/// A header is 36 bytes: `URLYSPL1`, the salt, then the memory, time and
/// parallelism costs, each as four little-endian bytes.
pub proof fn law_header_layout(salt: Seq<u8>, params: Argon2Params)
    requires
        salt.len() == 16,
    ensures
        ({
            let h = header_bytes(salt, params);
            &&& h.len() == 36
            &&& h.subrange(0, 8) == urlyspl1()
            &&& h.subrange(8, 24) == salt
            &&& spec_u32_from_le_bytes(h.subrange(24, 28)) == params.m_cost_kib
            &&& spec_u32_from_le_bytes(h.subrange(28, 32)) == params.t_cost
            &&& spec_u32_from_le_bytes(h.subrange(32, 36)) == params.p_cost
        }),
{
    lemma_auto_spec_u32_to_from_le_bytes();
    let h = header_bytes(salt, params);
    assert(h.subrange(0, 8) =~= urlyspl1());
    assert(h.subrange(8, 24) =~= salt);
    assert(h.subrange(24, 28) =~= spec_u32_to_le_bytes(params.m_cost_kib));
    assert(h.subrange(28, 32) =~= spec_u32_to_le_bytes(params.t_cost));
    assert(h.subrange(32, 36) =~= spec_u32_to_le_bytes(params.p_cost));
}

/// Reading a spool refuses exactly the files shorter than 52 bytes (a
/// header and a tag) or not starting with `URLYSPL1`; otherwise the file
/// is its header (36 bytes, the associated data) followed by the sealed
/// body, the salt is bytes 8..24, and the costs are read little-endian from
/// bytes 24..36.
pub proof fn law_parse_spool(data: Seq<u8>)
    ensures
        parse_spool_spec(data) == Err::<SpoolView, SpoolError>(SpoolError::BadMagic) <==> (
        data.len() < 52 || data.subrange(0, 8) != urlyspl1()),
        parse_spool_spec(data) is Ok || parse_spool_spec(data) == Err::<SpoolView, SpoolError>(
            SpoolError::BadMagic,
        ),
        parse_spool_spec(data) matches Ok(v) ==> {
            &&& v.aad + v.sealed == data
            &&& v.aad.len() == 36
            &&& v.sealed.len() >= 16
            &&& v.salt == data.subrange(8, 24)
            &&& v.params.m_cost_kib == spec_u32_from_le_bytes(data.subrange(24, 28))
            &&& v.params.t_cost == spec_u32_from_le_bytes(data.subrange(28, 32))
            &&& v.params.p_cost == spec_u32_from_le_bytes(data.subrange(32, 36))
        },
{
    assert(magic() =~= urlyspl1());
    if let Ok(v) = parse_spool_spec(data) {
        assert(v.aad + v.sealed =~= data);
    }
}

/// A snapshot's plaintext is the group length as four little-endian
/// bytes (truncated to 32 bits), the group snapshot, then the mailbox
/// snapshot.
pub proof fn law_plaintext_layout(group: Seq<u8>, mailbox: Seq<u8>)
    ensures
        ({
            let p = plaintext_bytes(group, mailbox);
            &&& p.len() == 4 + group.len() + mailbox.len()
            &&& spec_u32_from_le_bytes(p.subrange(0, 4)) == group.len() as u32
            &&& p.subrange(4, 4 + group.len() as int) == group
            &&& p.subrange(4 + group.len() as int, p.len() as int) == mailbox
        }),
{
    lemma_auto_spec_u32_to_from_le_bytes();
    let p = plaintext_bytes(group, mailbox);
    assert(p.subrange(0, 4) =~= spec_u32_to_le_bytes(group.len() as u32));
    assert(p.subrange(4, 4 + group.len() as int) =~= group);
    assert(p.subrange(4 + group.len() as int, p.len() as int) =~= mailbox);
}

/// Splitting an opened body: `Truncated` exactly when it is shorter than 4
/// bytes; `LengthMismatch` exactly when the little-endian length in its
/// first 4 bytes exceeds what follows them; otherwise the group snapshot is
/// that many bytes after the length, and the mailbox snapshot is the rest.
/// A body that did not open gives `WrongPassphrase`.
pub proof fn law_split_plaintext(body: Seq<u8>)
    ensures
        split_plaintext_spec(body) == Err::<(Seq<u8>, Seq<u8>), SpoolError>(SpoolError::Truncated)
            <==> body.len() < 4,
        split_plaintext_spec(body) == Err::<(Seq<u8>, Seq<u8>), SpoolError>(
            SpoolError::LengthMismatch,
        ) <==> (body.len() >= 4 && spec_u32_from_le_bytes(body.subrange(0, 4)) > body.len() - 4),
        split_plaintext_spec(body) matches Ok((g, m)) ==> {
            &&& spec_u32_from_le_bytes(body.subrange(0, 4)) == g.len()
            &&& body == body.subrange(0, 4) + g + m
        },
        open_spec(None) == Err::<(Seq<u8>, Seq<u8>), SpoolError>(SpoolError::WrongPassphrase),
        open_spec(Some(body)) == split_plaintext_spec(body),
{
    if let Ok((g, m)) = split_plaintext_spec(body) {
        assert(body =~= body.subrange(0, 4) + g + m);
    }
}

} // verus!
