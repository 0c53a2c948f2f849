use relation::configurator::{compile, Configurator};
use relation::dns::dnsrule::{DnsDefaultRule, DnsLogicalRule, DnsRule, Listable, QueryType};
use relation::dns::dnsruleaction::{DnsPredefinedAction, DnsRejectAction, DnsRouteAction, DnsRouteOptionsAction, DnsRuleAction};
use relation::dns::dnsserver::{DnsServer, DnsServerHosts, DnsServerHttps, HostValue, HostsPath};
use relation::json::{
    read_bool, read_text, read_u16, read_u32, read_u8, Json, Key, SchemaMismatch, MAX_NESTING,
};
use relation::outbound::vless::{Config, Flow, PacketEncoding, VlessConfig};
use relation::outbound::Outbound;
use relation::route::routerule::{
    DefaultRouteRule, LogicalRouteRule, RejectAction, RouteAction, RouteRule, RuleAction,
};
use relation::route::ruleset::{
    HeadlessDefaultRule, HeadlessLogicalRule, HeadlessRule, NumOrStr, RuleSet, RuleSetInline, RuleSetRemote,
};
use relation::route::DomainResolver;
use relation::shared::dialfields::DialFields;
use relation::shared::tls::TlsConfig;
use relation::shared::transport::TransportConfig;
use relation::shared::Network;

const LINK: &str = "vless://11111111-2222-3333-4444-555555555555@example.com:443?type=ws&path=/ws&host=cdn.example.com&security=reality&sni=example.com&fp=chrome&pbk=KEY&sid=ab&mux=8";

fn text(s: &str) -> Option<String> {
    Some(s.to_string())
}

fn t(s: &str) -> Json {
    Json::Text(s.to_string())
}

fn field<'a>(j: &'a Json, key: Key) -> Option<&'a Json> {
    match j {
        Json::Record(es) => es.iter().find(|(k, _)| *k == key).map(|(_, v)| v),
        _ => None,
    }
}

fn keys(j: &Json) -> Vec<&'static str> {
    match j {
        Json::Record(es) => es.iter().map(|(k, _)| k.name()).collect(),
        _ => panic!("no record"),
    }
}

/// The same value with every record written as a table under the names of its keys.
fn as_tables(j: &Json) -> Json {
    match j {
        Json::List(v) => Json::List(v.iter().map(as_tables).collect()),
        Json::Table(v) => Json::Table(v.iter().map(|(k, x)| (k.clone(), as_tables(x))).collect()),
        Json::Record(v) => {
            Json::Table(v.iter().map(|(k, x)| (k.name().to_string(), as_tables(x))).collect())
        }
        other => other.clone(),
    }
}

#[test]
fn compiled_document_is_read_back() {
    let doc = compile(LINK).unwrap();
    let tree = doc.to_serializable();
    assert_eq!(Configurator::from_serializable(&tree), Ok(doc));
}

#[test]
fn compiled_document_is_read_back_from_tables() {
    for link in [
        LINK,
        "vless://u@h:1?type=grpc&serviceName=s",
        "vless://u@h:1?type=http&path=/&host=a&host=b&flow=x",
        "vless://u@h?type=quic&security=tls&sni=n",
        "vless://u@h?type=httpupdate&path=/p",
        "vless://u@h",
    ] {
        let doc = compile(link).unwrap();
        let tree = as_tables(&doc.to_serializable());
        assert_eq!(Configurator::from_serializable(&tree), Ok(doc), "for {}", link);
    }
}

#[test]
fn seeded_document_is_read_back() {
    let mut doc = Configurator::new();
    doc.default();
    assert_eq!(Configurator::from_serializable(&doc.to_serializable()), Ok(doc));
    let empty = Configurator::new();
    assert_eq!(Configurator::from_serializable(&empty.to_serializable()), Ok(empty));
}

#[test]
fn document_has_four_sections() {
    let doc = compile(LINK).unwrap();
    let tree = doc.to_serializable();
    assert_eq!(keys(&tree), vec!["dns", "inbounds", "outbounds", "route"]);
    assert!(matches!(field(&tree, Key::Inbounds), Some(Json::List(v)) if v.len() == 1));
    assert!(matches!(field(&tree, Key::Outbounds), Some(Json::List(v)) if v.len() == 2));
    let route = field(&tree, Key::Route).unwrap();
    assert_eq!(keys(route), vec!["rules", "final"]);
    assert_eq!(field(route, Key::Final), Some(&t("vless-outbound")));
    let dns = field(&tree, Key::Dns).unwrap();
    assert_eq!(keys(dns), vec!["servers"]);
}

#[test]
fn unset_fields_are_left_out() {
    let o = VlessConfig::from_url("vless://u@example.com:8443?security=tls&sni=n").unwrap();
    let j = o.to_json();
    assert_eq!(
        keys(&j),
        vec!["type", "tag", "server", "server_port", "uuid", "flow", "tls", "packet_encoding"]
    );
    assert_eq!(field(&j, Key::Type), Some(&t("vless")));
    assert_eq!(field(&j, Key::ServerPort), Some(&Json::Unsigned(8443)));
    assert_eq!(field(&j, Key::Flow), Some(&t("xtls-rprx-vision")));
    assert_eq!(field(&j, Key::PacketEncoding), Some(&t("xudp")));
    let tls = field(&j, Key::Tls).unwrap();
    assert_eq!(keys(tls), vec!["enable", "server_name"]);
    assert_eq!(field(tls, Key::Enable), Some(&Json::Bool(true)));
}

#[test]
fn groups_are_written_among_the_fields_of_their_owner() {
    let mut o = VlessConfig::new();
    let mut dial = DialFields::new();
    dial.detour = text("d");
    dial.routing_mark = Some(7);
    dial.domain_resolver = Some(Json::Table(vec![("server".to_string(), t("local"))]));
    o.dial = Some(dial);
    let j = o.to_json();
    assert_eq!(keys(&j), vec!["type", "tag", "detour", "domain_resolver", "routing_mark"]);
    assert_eq!(VlessConfig::from_json(&j), Ok(o.clone()));
    assert_eq!(VlessConfig::from_json(&as_tables(&j)), Ok(o));
}

#[test]
fn blank_group_is_read_as_no_group() {
    let mut o = VlessConfig::new();
    o.dial = Some(DialFields::new());
    let back = VlessConfig::from_json(&o.to_json()).unwrap();
    assert_eq!(back.dial, None);
    assert_eq!(back, VlessConfig::new());
}

#[test]
fn headers_are_a_table_in_their_order() {
    let o = VlessConfig::from_url("vless://u@h?type=ws&path=/&host=x").unwrap();
    let j = o.to_json();
    let transport = field(&j, Key::Transport).unwrap();
    assert_eq!(field(transport, Key::Type), Some(&t("ws")));
    assert_eq!(
        field(transport, Key::Headers),
        Some(&Json::Table(vec![("Host".to_string(), t("x"))]))
    );
    assert_eq!(field(&j, Key::Flow), Some(&t("")));
}

#[test]
fn flow_and_encoding_names() {
    assert_eq!(Flow::Disabled.to_json(), t(""));
    assert_eq!(Flow::XtlsRprxVision.to_json(), t("xtls-rprx-vision"));
    assert_eq!(Flow::from_json(&t("")), Ok(Flow::Disabled));
    assert_eq!(Flow::from_json(&t("none")), Err(SchemaMismatch));
    assert_eq!(PacketEncoding::Disabled.to_json(), t("none"));
    assert_eq!(PacketEncoding::Packetaddr.to_json(), t("packetaddr"));
    assert_eq!(PacketEncoding::from_json(&t("xudp")), Ok(PacketEncoding::Xudp));
    assert_eq!(Network::Tcp.to_json(), t("tcp"));
    assert_eq!(Network::from_json(&t("udp")), Ok(Network::Udp));
    assert_eq!(Network::from_json(&t("UDP")), Err(SchemaMismatch));
    assert_eq!(Network::from_json(&Json::Null), Err(SchemaMismatch));
}

#[test]
fn entries_are_read_by_their_type() {
    let doc = compile(LINK).unwrap();
    let outs = doc.outbounds.to_json();
    let back = relation::outbound::OutboundConfig::from_json(&outs).unwrap();
    assert!(matches!(back.outbounds[0], Outbound::Direct(_)));
    assert!(matches!(back.outbounds[1], Outbound::Vless(_)));
    let untyped = Json::Record(vec![(Key::Tag, t("x"))]);
    assert_eq!(Outbound::from_json(&untyped), Err(SchemaMismatch));
    let unknown = Json::Record(vec![(Key::Type, t("trojan"))]);
    assert_eq!(Outbound::from_json(&unknown), Err(SchemaMismatch));
    assert_eq!(Outbound::from_json(&Json::List(vec![])), Err(SchemaMismatch));
    let direct = Json::Table(vec![("type".to_string(), t("direct")), ("more".to_string(), Json::Null)]);
    match Outbound::from_json(&direct) {
        Ok(Outbound::Direct(d)) => {
            assert_eq!(d.config_type, text("direct"));
            assert_eq!(d.tag, None);
        }
        other => panic!("unexpected {:?}", other),
    }
}

#[test]
fn mistyped_entry_is_not_read_back_as_it_was() {
    let mut v = VlessConfig::new();
    v.config_type = text("direct");
    let j = Outbound::Vless(v).to_json();
    assert!(matches!(Outbound::from_json(&j), Ok(Outbound::Direct(_))));
}

#[test]
fn wrong_shapes_are_mismatches() {
    assert_eq!(read_bool(&Json::Bool(true)), Ok(true));
    assert_eq!(read_bool(&t("true")), Err(SchemaMismatch));
    assert_eq!(read_u8(&Json::Unsigned(255)), Ok(255));
    assert_eq!(read_u8(&Json::Unsigned(256)), Err(SchemaMismatch));
    assert_eq!(read_u16(&Json::Unsigned(65535)), Ok(65535));
    assert_eq!(read_u16(&Json::Unsigned(65536)), Err(SchemaMismatch));
    assert_eq!(read_u16(&Json::Number("-1".to_string())), Err(SchemaMismatch));
    assert_eq!(read_u32(&Json::Unsigned(4294967295)), Ok(4294967295));
    assert_eq!(read_u32(&Json::Unsigned(4294967296)), Err(SchemaMismatch));
    assert_eq!(read_text(&t("a")), Ok("a".to_string()));
    assert_eq!(read_text(&Json::Unsigned(1)), Err(SchemaMismatch));
    let bad_port = Json::Record(vec![(Key::Type, t("vless")), (Key::ServerPort, t("443"))]);
    assert_eq!(VlessConfig::from_json(&bad_port), Err(SchemaMismatch));
    let bad_tls = Json::Record(vec![(Key::Tls, Json::Bool(true))]);
    assert_eq!(VlessConfig::from_json(&bad_tls), Err(SchemaMismatch));
    assert_eq!(VlessConfig::from_json(&Json::Null), Err(SchemaMismatch));
    assert_eq!(Configurator::from_serializable(&Json::Record(vec![])), Err(SchemaMismatch));
}

#[test]
fn null_stands_for_an_unset_field() {
    let j = Json::Record(vec![(Key::Server, Json::Null), (Key::Tag, t("x"))]);
    let v = VlessConfig::from_json(&j).unwrap();
    assert_eq!(v.server, None);
    assert_eq!(v.tag, text("x"));
    assert_eq!(v.config_type, None);
}

#[test]
fn first_entry_under_a_key_wins() {
    let j = Json::Record(vec![(Key::Tag, t("first")), (Key::Tag, t("second"))]);
    assert_eq!(VlessConfig::from_json(&j).unwrap().tag, text("first"));
}

#[test]
fn tls_with_nested_features_is_read_back() {
    let o = VlessConfig::from_url(LINK).unwrap();
    let tls: TlsConfig = o.tls.clone().unwrap();
    assert_eq!(TlsConfig::from_json(&tls.to_json()), Ok(tls.clone()));
    assert_eq!(tls.insecure, Some(true));
    assert!(tls.utls.is_some() && tls.reality.is_some());
    assert_eq!(o.multiplex.as_ref().unwrap().max_streams, Some(8));
    assert_eq!(VlessConfig::from_json(&o.to_json()), Ok(o));
}

#[test]
fn transport_without_a_kind_is_null() {
    assert_eq!(TransportConfig::Unset.to_json(), Json::Null);
    assert_eq!(TransportConfig::Tcp.to_json(), Json::Null);
    assert_eq!(TransportConfig::from_json(&Json::Null), Err(SchemaMismatch));
}

#[test]
fn listable_is_read_in_either_form() {
    let mut rule = DnsDefaultRule::new();
    rule.domain = Some(Listable::One("a.example".to_string()));
    rule.domain_suffix = Some(Listable::Many(vec![".b".to_string(), ".c".to_string()]));
    rule.port = Some(Listable::Many(vec![53]));
    rule.source_port = Some(Listable::One(5353));
    rule.user_id = Some(Listable::Many(vec![]));
    rule.query_type =
        Some(Listable::Many(vec![QueryType::Name("A".to_string()), QueryType::Code(28)]));
    let j = rule.to_json();
    assert_eq!(field(&j, Key::Domain), Some(&t("a.example")));
    assert_eq!(field(&j, Key::DomainSuffix), Some(&Json::List(vec![t(".b"), t(".c")])));
    assert_eq!(field(&j, Key::Port), Some(&Json::List(vec![Json::Unsigned(53)])));
    assert_eq!(field(&j, Key::SourcePort), Some(&Json::Unsigned(5353)));
    assert_eq!(field(&j, Key::UserId), Some(&Json::List(vec![])));
    assert_eq!(field(&j, Key::QueryType), Some(&Json::List(vec![t("A"), Json::Unsigned(28)])));
    assert_eq!(DnsDefaultRule::from_json(&j), Ok(rule));
    let neither = Json::Record(vec![(Key::Domain, Json::Bool(true))]);
    assert_eq!(DnsDefaultRule::from_json(&neither), Err(SchemaMismatch));
    let mixed = Json::Record(vec![(Key::Domain, Json::List(vec![t("a"), Json::Unsigned(1)]))]);
    assert_eq!(DnsDefaultRule::from_json(&mixed), Err(SchemaMismatch));
}

#[test]
fn dns_actions_are_told_apart_by_their_fields() {
    let mut route = DnsRouteAction::new();
    route.server = text("dns-local");
    route.disable_cache = Some(true);
    let mut options = DnsRouteOptionsAction::new();
    options.rewrite_ttl = Some(60);
    let mut reject = DnsRejectAction::new();
    reject.no_drop = Some(false);
    let mut predefined = DnsPredefinedAction::new();
    predefined.answer = Some(vec!["x".to_string()]);
    for action in [
        DnsRuleAction::Route(route),
        DnsRuleAction::RouteOptions(options),
        DnsRuleAction::Reject(reject),
        DnsRuleAction::Predefined(predefined),
    ] {
        let mut rule = DnsDefaultRule::new();
        rule.invert = Some(true);
        rule.action = Some(action);
        assert_eq!(DnsDefaultRule::from_json(&rule.to_json()), Ok(rule));
    }
    let mut rule = DnsDefaultRule::new();
    rule.action = Some(DnsRuleAction::Route(DnsRouteAction::new()));
    assert_eq!(DnsDefaultRule::from_json(&rule.to_json()).unwrap().action, None);
}

#[test]
fn logical_rules_are_read_back() {
    let mut action = RouteAction::new();
    action.outbound = text("direct-outbound");
    let mut inner = LogicalRouteRule::new();
    inner.rule_type = text("logical");
    inner.mode = text("or");
    inner.rules = Some(vec![
        RouteRule::Default(DefaultRouteRule::routed_to("a".to_string())),
        RouteRule::Default(DefaultRouteRule::new()),
    ]);
    let mut outer = LogicalRouteRule::new();
    outer.rule_type = text("logical");
    outer.mode = text("and");
    outer.invert = Some(true);
    outer.rules = Some(vec![RouteRule::Logical(inner), RouteRule::Default(DefaultRouteRule::new())]);
    outer.action = Some(RuleAction::RouteOptions(action));
    let rule = RouteRule::Logical(outer);
    let j = rule.to_json();
    assert_eq!(keys(&j), vec!["type", "mode", "rules", "invert", "action", "outbound"]);
    assert_eq!(RouteRule::from_json(&as_tables(&j)).as_ref(), Ok(&rule));
    assert_eq!(RouteRule::from_json(&j), Ok(rule));
    let mut reject = LogicalRouteRule::new();
    reject.rule_type = text("logical");
    reject.action = Some(RuleAction::Reject(RejectAction::new()));
    let rule = RouteRule::Logical(reject);
    assert_eq!(RouteRule::from_json(&rule.to_json()), Ok(rule));
    let unknown = Json::Record(vec![(Key::Type, t("logical")), (Key::Action, t("fly"))]);
    assert_eq!(RouteRule::from_json(&unknown), Err(SchemaMismatch));
}

#[test]
fn logical_rule_without_its_type_is_read_as_a_default_rule() {
    let mut l = LogicalRouteRule::new();
    l.mode = text("and");
    let j = RouteRule::Logical(l).to_json();
    assert!(matches!(RouteRule::from_json(&j), Ok(RouteRule::Default(_))));
}

fn nested(depth: usize) -> RouteRule {
    let mut rule = RouteRule::Default(DefaultRouteRule::new());
    for _ in 0..depth {
        let mut l = LogicalRouteRule::new();
        l.rule_type = text("logical");
        l.rules = Some(vec![rule]);
        rule = RouteRule::Logical(l);
    }
    rule
}

#[test]
fn rules_are_read_down_to_the_nesting_limit() {
    let deepest = nested(MAX_NESTING);
    assert_eq!(RouteRule::from_json(&deepest.to_json()), Ok(deepest));
    let too_deep = nested(MAX_NESTING + 1);
    assert_eq!(RouteRule::from_json(&too_deep.to_json()), Err(SchemaMismatch));
    let two = nested(2);
    assert_eq!(RouteRule::from_json_within(&two.to_json(), 1), Err(SchemaMismatch));
    assert_eq!(RouteRule::from_json_within(&two.to_json(), 2), Ok(two));
    assert_eq!(
        RouteRule::from_json_within(&nested(0).to_json(), 0),
        Ok(RouteRule::Default(DefaultRouteRule::new()))
    );
}

#[test]
fn dns_logical_rule_needs_its_required_fields() {
    let mut action = DnsRouteAction::new();
    action.server = text("dns-local");
    let rule = DnsRule::Logical(DnsLogicalRule {
        rule_type: "logical".to_string(),
        mode: "and".to_string(),
        rules: vec![DnsRule::Default(DnsDefaultRule::new())],
        invert: None,
        action: DnsRuleAction::Route(action),
    });
    let j = rule.to_json();
    assert_eq!(keys(&j), vec!["type", "mode", "rules", "server"]);
    assert_eq!(DnsRule::from_json(&j), Ok(rule));
    let no_mode = Json::Record(vec![
        (Key::Type, t("logical")),
        (Key::Rules, Json::List(vec![])),
        (Key::Server, t("s")),
    ]);
    assert_eq!(DnsRule::from_json(&no_mode), Err(SchemaMismatch));
    let no_action = Json::Record(vec![
        (Key::Type, t("logical")),
        (Key::Mode, t("or")),
        (Key::Rules, Json::List(vec![])),
    ]);
    assert_eq!(DnsRule::from_json(&no_action), Err(SchemaMismatch));
}

#[test]
fn rule_sets_and_headless_rules_are_read_back() {
    let mut d = HeadlessDefaultRule::new();
    d.query_type = Some(vec![NumOrStr::Num(1), NumOrStr::Str("AAAA".to_string())]);
    d.network = Some(vec![Network::Tcp, Network::Udp]);
    d.port = Some(vec![80, 443]);
    let mut l = HeadlessLogicalRule::new();
    l.rule_type = text("logical");
    l.mode = text("or");
    l.rules = Some(vec![HeadlessRule::Default(d.clone())]);
    let mut inline = RuleSetInline::new();
    inline.config_type = text("inline");
    inline.tag = text("mine");
    inline.rules = Some(vec![HeadlessRule::Logical(l), HeadlessRule::Default(d)]);
    let set = RuleSet::Inline(inline);
    assert_eq!(RuleSet::from_json(&set.to_json()), Ok(set));
    let mut remote = RuleSetRemote::new();
    remote.config_type = text("remote");
    remote.url = text("https://example.com/rules.srs");
    let set = RuleSet::Remote(remote);
    assert_eq!(RuleSet::from_json(&as_tables(&set.to_json())), Ok(set));
    assert_eq!(RuleSet::from_json(&RuleSet::Inline(RuleSetInline::new()).to_json()), Err(SchemaMismatch));
}

#[test]
fn dns_servers_with_tables_are_read_back() {
    let mut hosts = DnsServerHosts::new();
    hosts.tag = text("hosts");
    hosts.path = Some(HostsPath::Many(vec!["/etc/hosts".to_string()]));
    hosts.predefined = Some(vec![
        ("a".to_string(), HostValue::One("1.1.1.1".to_string())),
        ("b".to_string(), HostValue::Many(vec!["::1".to_string(), "::2".to_string()])),
    ]);
    let server = DnsServer::Hosts(hosts);
    assert_eq!(DnsServer::from_json(&server.to_json()), Ok(server));
    let mut https = DnsServerHttps::new();
    https.server = text("dns.example");
    https.server_port = Some(443);
    https.headers = Some(vec![("X".to_string(), "y".to_string())]);
    https.tls = Some(TlsConfig::with_server_name("dns.example".to_string()));
    let mut dial = DialFields::new();
    dial.tcp_fast_open = Some(true);
    https.dial = Some(dial);
    let server = DnsServer::Https(https);
    let j = server.to_json();
    assert_eq!(
        keys(&j),
        vec!["tag", "type", "server", "server_port", "headers", "tls", "tcp_fast_open"]
            .into_iter()
            .skip(1)
            .collect::<Vec<_>>()
    );
    assert_eq!(DnsServer::from_json(&j), Ok(server));
}

#[test]
fn domain_resolver_is_a_tag_or_options() {
    let mut doc = Configurator::new();
    doc.route.default_domain_resolver = Some(DomainResolver::Tag("dns-local".to_string()));
    doc.route.default_mark = Some(9);
    doc.route.default_network_type = Some(vec!["wifi".to_string()]);
    let j = doc.to_serializable();
    let route = field(&j, Key::Route).unwrap();
    assert_eq!(field(route, Key::DefaultDomainResolver), Some(&t("dns-local")));
    assert_eq!(Configurator::from_serializable(&j), Ok(doc));
}

#[test]
fn copies_of_values_are_equal() {
    let doc = compile(LINK).unwrap();
    let tree = doc.to_serializable();
    assert_eq!(tree.duplicate(), tree);
    assert_eq!(tree.clone(), tree);
    let any = Json::List(vec![Json::Null, Json::Number("1.5".to_string()), as_tables(&tree)]);
    assert_eq!(any.duplicate(), any);
}
