use relation::datamanager::{select_config, Settings};
use relation::dns::dnsrule::{Listable, ListableString};
use relation::dns::dnsruleaction::{DnsPredefinedAction, DnsRejectAction, DnsRouteAction, DnsRouteOptionsAction};
use relation::dns::dnsserver::{
    DnsServerDhcp, DnsServerFakeIp, DnsServerHosts, DnsServerHttp3, DnsServerHttps, DnsServerLocal,
    DnsServerQuic, DnsServerResolved, DnsServerTailscale, DnsServerTcp, DnsServerTls, DnsServerUdp,
};
use relation::inbound::direct::DirectConfig;
use relation::inbound::mixed::MixedConfig;
use relation::log::LogConfig;
use relation::route::routerule::{
    DefaultRouteRule, HijackDnsAction, LogicalRouteRule, RejectAction, ResolveAction, RouteAction, SniffAction,
};
use relation::route::ruleset::{HeadlessDefaultRule, HeadlessLogicalRule, RuleSetInline, RuleSetLocal, RuleSetRemote};
use relation::shared::dialfields::DialFields;
use relation::shared::listenfields::ListenFields;
use relation::shared::multiplex::MultiplexConfig;
use relation::shared::tls::{RealityConfig, TlsConfig, UtlsConfig};
use relation::shared::transport::{
    find_header, set_header, GrpcConfig, HttpConfig, HttpUpdateConfig, QuicConfig, TransportConfig, WebSocketConfig,
};
use relation::shared::{state_of, FeatureState};

fn text(s: &str) -> Option<String> {
    Some(s.to_string())
}

#[test]
fn switch_has_three_states() {
    assert_eq!(state_of(None), FeatureState::Unset);
    assert_eq!(state_of(Some(false)), FeatureState::Disabled);
    assert_eq!(state_of(Some(true)), FeatureState::Enabled);
}

#[test]
fn multiplex_check_has_three_states() {
    let mut m = MultiplexConfig::new();
    assert_eq!(m.state(), FeatureState::Unset);
    assert!(m.check());
    m.enable = Some(false);
    assert_eq!(m.state(), FeatureState::Disabled);
    assert!(m.check());
    m.enable = Some(true);
    assert_eq!(m.state(), FeatureState::Enabled);
    assert!(!m.check());
    m.protocol = text("h2mux");
    assert!(!m.check());
    m.max_streams = Some(4);
    assert!(m.check());
    m.protocol = None;
    assert!(!m.check());
}

#[test]
fn reality_check_has_three_states() {
    let mut r = RealityConfig::new();
    assert!(r.check());
    r.enable = Some(false);
    assert!(r.check());
    r.enable = Some(true);
    assert!(!r.check());
    r.public_key = text("k");
    assert!(!r.check());
    r.short_id = text("s");
    assert!(r.check());
    assert_eq!(r.state(), FeatureState::Enabled);
}

#[test]
fn utls_check_has_three_states() {
    let mut u = UtlsConfig::new();
    assert!(u.check());
    u.enable = Some(false);
    assert!(u.check());
    u.enable = Some(true);
    assert!(!u.check());
    u.fingerprint = text("chrome");
    assert!(u.check());
    let w = UtlsConfig::with_fingerprint("firefox".to_string());
    assert_eq!(w.enable, Some(true));
    assert_eq!(w.fingerprint, text("firefox"));
    assert!(w.check());
}

#[test]
fn tls_check_needs_a_server_name_when_enabled() {
    let mut t = TlsConfig::new();
    assert!(t.check());
    assert_eq!(t.state(), FeatureState::Unset);
    t.enable = Some(false);
    assert!(t.check());
    t.enable = Some(true);
    assert!(!t.check());
    t.server_name = text("example.com");
    assert!(t.check());
}

#[test]
fn tls_check_looks_at_the_nested_features() {
    let mut incomplete_utls = UtlsConfig::new();
    incomplete_utls.enable = Some(true);
    let mut incomplete_reality = RealityConfig::new();
    incomplete_reality.enable = Some(true);
    let mut base = TlsConfig::with_server_name("example.com".to_string());
    base.enable = Some(true);
    assert!(base.check());
    let t = base.clone().add_utls(incomplete_utls.clone());
    assert!(!t.check());
    let t = base.clone().add_reality(incomplete_reality.clone());
    assert!(!t.check());
    let t = base.clone().add_utls(UtlsConfig::with_fingerprint("c".to_string()));
    assert!(t.check());
    let t = base.clone().add_utls(incomplete_utls.clone()).add_reality(incomplete_reality.clone());
    assert!(!t.check());
    let t = base.clone().add_utls(UtlsConfig::new()).add_reality(incomplete_reality);
    assert!(t.check());
    let mut unset = TlsConfig::new().add_utls(incomplete_utls);
    assert!(unset.check());
    unset.enable = Some(false);
    assert!(unset.check());
}

#[test]
fn tls_builders_set_one_field() {
    let t = TlsConfig::with_server_name("n".to_string());
    assert_eq!(t.server_name, text("n"));
    assert_eq!(t.enable, None);
    assert_eq!(t.utls, None);
    let u = UtlsConfig::with_fingerprint("f".to_string());
    let r = RealityConfig::new();
    let t = t.add_utls(u.clone()).add_reality(r.clone());
    assert_eq!(t.utls, Some(u));
    assert_eq!(t.reality, Some(r));
    assert_eq!(t.server_name, text("n"));
}

#[test]
fn transport_checks() {
    let mut ws = WebSocketConfig::new();
    assert_eq!(ws.config_type, text("ws"));
    assert!(!ws.check());
    ws.path = text("/");
    assert!(!ws.check());
    ws.headers = Some(vec![]);
    assert!(ws.check());
    let mut grpc = GrpcConfig::new();
    assert_eq!(grpc.config_type, text("gprc"));
    assert_eq!(grpc.idle_timeout, text("15s"));
    assert_eq!(grpc.ping_timeout, text("15s"));
    assert_eq!(grpc.permit_without_stream, Some(false));
    assert!(!grpc.check());
    grpc.service_name = text("s");
    assert!(grpc.check());
    let mut quic = QuicConfig::new();
    assert_eq!(quic.config_type, text("quic"));
    assert!(quic.check());
    quic.config_type = None;
    assert!(!quic.check());
    let mut http = HttpConfig::new();
    assert_eq!(http.config_type, text("http"));
    assert!(!http.check());
    http.path = text("/");
    assert!(http.check());
    let mut up = HttpUpdateConfig::new();
    assert_eq!(up.config_type, text("httpupgrade"));
    assert!(!up.check());
    up.path = text("/");
    assert!(up.check());
    assert!(TransportConfig::Unset.check());
    assert!(TransportConfig::Tcp.check());
    assert!(!TransportConfig::Grpc(GrpcConfig::new()).check());
    assert!(TransportConfig::Http(http).check());
}

#[test]
fn transport_is_chosen_by_name() {
    let mut t = TransportConfig::Unset;
    t.select("nonsense");
    assert_eq!(t, TransportConfig::Unset);
    t.select("tcp");
    assert_eq!(t, TransportConfig::Tcp);
    t.select("ws");
    assert_eq!(t, TransportConfig::WebSocket(WebSocketConfig::new()));
    t.select("nonsense");
    assert_eq!(t, TransportConfig::WebSocket(WebSocketConfig::new()));
    t.select("grpc");
    assert_eq!(t, TransportConfig::Grpc(GrpcConfig::new()));
    t.select("quic");
    assert_eq!(t, TransportConfig::Quic(QuicConfig::new()));
    t.select("http");
    assert_eq!(t, TransportConfig::Http(HttpConfig::new()));
    t.select("httpupdate");
    assert_eq!(t, TransportConfig::HttpUpdate(HttpUpdateConfig::new()));
}

#[test]
fn transport_fields_go_to_the_kinds_that_have_them() {
    let mut t = TransportConfig::Grpc(GrpcConfig::new());
    t.set_path("/p".to_string());
    t.set_host("h".to_string());
    assert_eq!(t, TransportConfig::Grpc(GrpcConfig::new()));
    t.set_service_name("svc".to_string());
    match &t {
        TransportConfig::Grpc(g) => assert_eq!(g.service_name, text("svc")),
        _ => panic!(),
    }
    let mut t = TransportConfig::HttpUpdate(HttpUpdateConfig::new());
    t.set_service_name("svc".to_string());
    t.set_path("/p".to_string());
    t.set_host("a".to_string());
    t.set_host("a".to_string());
    match &t {
        TransportConfig::HttpUpdate(h) => {
            assert_eq!(h.path, text("/p"));
            assert_eq!(h.host, Some(vec!["a".to_string(), "a".to_string()]));
        }
        _ => panic!(),
    }
    let mut t = TransportConfig::Tcp;
    t.set_path("/p".to_string());
    t.set_host("h".to_string());
    t.set_service_name("s".to_string());
    assert_eq!(t, TransportConfig::Tcp);
}

#[test]
fn set_header_replaces_the_first_of_the_name() {
    let mut hs = vec![
        ("A".to_string(), "1".to_string()),
        ("Host".to_string(), "old".to_string()),
        ("Host".to_string(), "other".to_string()),
    ];
    assert_eq!(find_header(&hs, "Host"), 1);
    assert_eq!(find_header(&hs, "host"), 3);
    set_header(&mut hs, "Host", "new".to_string());
    assert_eq!(
        hs,
        vec![
            ("A".to_string(), "1".to_string()),
            ("Host".to_string(), "new".to_string()),
            ("Host".to_string(), "other".to_string()),
        ]
    );
    set_header(&mut hs, "B", "2".to_string());
    assert_eq!(hs.len(), 4);
    assert_eq!(hs[3], ("B".to_string(), "2".to_string()));
}

#[test]
fn listable_forms() {
    let one: ListableString = Listable::One("a".to_string());
    let many: ListableString = Listable::Many(vec!["a".to_string(), "b".to_string()]);
    let single_list: ListableString = Listable::Many(vec!["a".to_string()]);
    assert_eq!(one.len(), 1);
    assert_eq!(many.len(), 2);
    assert_eq!(Listable::<u16>::Many(vec![]).len(), 0);
    assert_eq!(one.clone().into_vec(), vec!["a".to_string()]);
    assert_eq!(single_list.clone().into_vec(), one.clone().into_vec());
    assert_eq!(Listable::from_vec(vec!["a".to_string()]), one);
    assert_eq!(Listable::from_vec(many.clone().into_vec()), many);
    assert_eq!(Listable::<u16>::from_vec(vec![]), Listable::Many(vec![]));
    assert_eq!(Listable::from_vec(single_list.into_vec()), one);
}

#[test]
fn dns_servers_start_with_their_type() {
    assert_eq!(DnsServerLocal::new().server_type, text("local"));
    assert_eq!(DnsServerHosts::new().server_type, text("hosts"));
    assert_eq!(DnsServerTcp::new().server_type, text("tcp"));
    assert_eq!(DnsServerUdp::new().server_type, text("udp"));
    assert_eq!(DnsServerTls::new().server_type, text("tls"));
    assert_eq!(DnsServerQuic::new().server_type, text("quic"));
    assert_eq!(DnsServerHttps::new().server_type, text("https"));
    assert_eq!(DnsServerHttp3::new().server_type, text("h3"));
    assert_eq!(DnsServerDhcp::new().server_type, text("dhcp"));
    assert_eq!(DnsServerFakeIp::new().server_type, text("fakeip"));
    assert_eq!(DnsServerTailscale::new().server_type, text("tailscale"));
    assert_eq!(DnsServerResolved::new().server_type, text("resolved"));
    assert_eq!(DnsServerLocal::new().tag, None);
    assert_eq!(DnsServerHttps::new().tls, None);
    assert_eq!(DnsServerTcp::new().dial, None);
}

#[test]
fn actions_start_with_their_name() {
    assert_eq!(RouteAction::new().action, text("route"));
    assert_eq!(RouteAction::new().outbound, None);
    assert_eq!(RejectAction::new().action, text("reject"));
    assert_eq!(HijackDnsAction::new().action, text("hijack-dns"));
    assert_eq!(SniffAction::new().action, text("sniff"));
    assert_eq!(ResolveAction::new().action, text("resolve"));
    assert_eq!(DnsRouteAction::new().server, None);
    assert_eq!(DnsRouteOptionsAction::new().rewrite_ttl, None);
    assert_eq!(DnsRejectAction::new().method, None);
    assert_eq!(DnsPredefinedAction::new().answer, None);
}

#[test]
fn rules_and_groups_start_blank() {
    let r = DefaultRouteRule::new();
    assert_eq!(r.inbound, None);
    assert_eq!(r.port, None);
    assert_eq!(r.action, None);
    assert_eq!(r.outbound, None);
    let routed = DefaultRouteRule::routed_to("t".to_string());
    assert_eq!(routed.action, text("route"));
    assert_eq!(routed.outbound, text("t"));
    assert_eq!(LogicalRouteRule::new().rules, None);
    assert_eq!(HeadlessDefaultRule::new().domain, None);
    assert_eq!(HeadlessLogicalRule::new().mode, None);
    assert_eq!(RuleSetInline::new().tag, None);
    assert_eq!(RuleSetLocal::new().path, None);
    assert_eq!(RuleSetRemote::new().url, None);
    assert!(ListenFields::new().is_blank());
    assert!(DialFields::new().is_blank());
    let mut l = ListenFields::new();
    l.detour = text("d");
    assert!(!l.is_blank());
}

#[test]
fn inbounds_and_log_defaults() {
    let m = MixedConfig::new();
    assert_eq!(m.config_type, text("mixed"));
    assert_eq!(m.tag, text("mixed-inbound"));
    assert_eq!(m.listen, None);
    assert_eq!(m.set_system_proxy, None);
    let d = DirectConfig::new();
    assert_eq!(d.config_type, text("direct"));
    assert_eq!(d.tag, text("direct-inbound"));
    assert_eq!(d.override_address, None);
    let l = LogConfig::new();
    assert_eq!(l.level, text("info"));
    assert_eq!(l.disable, None);
    assert_eq!(l.output, None);
    assert_eq!(l.timestamp, None);
}

#[test]
fn select_config_prefers_the_name_then_the_number() {
    let list = vec!["a".to_string(), "b".to_string(), "c".to_string()];
    let last = text("b");
    assert_eq!(select_config(text("x"), Some(3), &last, &list), text("x"));
    assert_eq!(select_config(None, Some(1), &last, &list), text("a"));
    assert_eq!(select_config(None, Some(3), &last, &list), text("c"));
    assert_eq!(select_config(None, Some(0), &last, &list), None);
    assert_eq!(select_config(None, Some(4), &last, &list), None);
    assert_eq!(select_config(None, None, &last, &list), text("b"));
    assert_eq!(select_config(None, None, &None, &list), text("a"));
    assert_eq!(select_config(None, None, &None, &vec![]), None);
    assert_eq!(select_config(None, Some(1), &last, &vec![]), None);
}

#[test]
fn settings_remember_the_last_run() {
    let mut s = Settings::new();
    assert_eq!(s.current, None);
    assert!(!s.owns_system_proxy());
    s.record_run("a".to_string(), false);
    assert_eq!(s.current, text("a"));
    assert_eq!(s.unable_system_proxy, None);
    s.unable_system_proxy = Some(false);
    assert!(s.owns_system_proxy());
    s.record_run("b".to_string(), true);
    assert_eq!(s.current, text("b"));
    assert_eq!(s.unable_system_proxy, Some(true));
    assert!(!s.owns_system_proxy());
    s.record_run("c".to_string(), false);
    assert_eq!(s.unable_system_proxy, Some(true));
}
