use relation::configurator::Configurator;
use relation::dns::dnsserver::{DnsServer, DnsServerFakeIp, DnsServerLocal};
use relation::dns::DnsConfig;
use relation::error::CompileError;
use relation::inbound::{Inbound, InboundConfig};
use relation::outbound::direct::DirectConfig;
use relation::outbound::vless::VlessConfig;
use relation::outbound::{Outbound, OutboundConfig};
use relation::route::routerule::{DefaultRouteRule, LogicalRouteRule, RouteAction, RouteRule, RuleAction};
use relation::route::ruleset::{RuleSet, RuleSetLocal, RuleSetRemote};
use relation::route::{default_rules, RouteConfig};

fn text(s: &str) -> Option<String> {
    Some(s.to_string())
}

#[test]
fn new_sections_are_empty() {
    assert_eq!(OutboundConfig::new().outbounds.len(), 0);
    assert_eq!(InboundConfig::new().inbounds.len(), 0);
    let dns = DnsConfig::new();
    assert_eq!(dns.servers, None);
    assert_eq!(dns.rules, None);
    assert_eq!(dns.default, None);
    let route = RouteConfig::new();
    assert_eq!(route.rules, None);
    assert_eq!(route.rule_set, None);
    assert_eq!(route.default, None);
    let doc = Configurator::new();
    assert_eq!(doc.dns, DnsConfig::new());
    assert_eq!(doc.route, RouteConfig::new());
    assert_eq!(doc.inbounds.inbounds.len(), 0);
    assert_eq!(doc.outbounds.outbounds.len(), 0);
}

#[test]
fn get_tag_by_type_gives_the_first_of_the_type() {
    let mut outs = OutboundConfig::new();
    assert_eq!(outs.get_tag_by_type("direct"), None);
    outs.add_direct(None).add_direct(text("second")).add_vless(VlessConfig::new());
    assert_eq!(outs.get_tag_by_type("direct"), text("direct-outbound"));
    assert_eq!(outs.get_tag_by_type("vless"), text("vless-outbound"));
    assert_eq!(outs.get_tag_by_type("trojan"), None);
    assert_eq!(outs.get_tag_by_type(""), None);
}

#[test]
fn get_tag_by_type_of_an_untagged_first_entry_is_none() {
    let mut outs = OutboundConfig::new();
    let mut untagged = VlessConfig::new();
    untagged.tag = None;
    outs.add_vless(untagged).add_vless(VlessConfig::new());
    assert_eq!(outs.get_tag_by_type("vless"), None);
}

#[test]
fn get_ref_by_tag_scans_in_order() {
    let mut outs = OutboundConfig::new();
    outs.add_direct(text("a")).add_direct(text("b"));
    let mut v = VlessConfig::new();
    v.tag = text("a");
    outs.add_vless(v);
    assert!(matches!(outs.get_ref_by_tag("a"), Some(Outbound::Direct(_))));
    assert!(matches!(outs.get_ref_by_tag("b"), Some(Outbound::Direct(_))));
    assert!(outs.get_ref_by_tag("c").is_none());
    assert!(outs.has_tag("a"));
    assert!(!outs.has_tag("A"));
}

#[test]
fn get_mut_by_tag_changes_the_entry_in_place() {
    let mut outs = OutboundConfig::new();
    outs.add_direct(text("a")).add_vless(VlessConfig::new());
    match outs.get_mut_by_tag("vless-outbound") {
        Some(Outbound::Vless(v)) => {
            v.server = text("changed");
        }
        _ => panic!("no vless outbound"),
    }
    assert!(outs.get_mut_by_tag("missing").is_none());
    match &outs.outbounds[1] {
        Outbound::Vless(v) => assert_eq!(v.server, text("changed")),
        _ => panic!("order changed"),
    }
    assert_eq!(outs.outbounds.len(), 2);
}

#[test]
fn remove_by_type_keeps_the_others_in_order() {
    let mut outs = OutboundConfig::new();
    outs.add_direct(text("a")).add_vless(VlessConfig::new()).add_direct(text("b")).add_direct(text("c"));
    outs.remove_server_by_type("direct");
    assert_eq!(outs.outbounds.len(), 1);
    assert!(matches!(outs.outbounds[0], Outbound::Vless(_)));
    outs.remove_server_by_type("direct");
    assert_eq!(outs.outbounds.len(), 1);
    outs.remove_server_by_type("vless");
    assert_eq!(outs.outbounds.len(), 0);
}

#[test]
fn remove_by_tag_drops_every_entry_with_the_tag() {
    let mut ins = InboundConfig::new();
    ins.add_mixed(text("x"), "127.0.0.1".to_string(), 1, true)
        .add_direct(text("y"))
        .add_direct(text("x"))
        .add_direct(None);
    ins.remove_server_by_tag("x");
    assert_eq!(ins.inbounds.len(), 2);
    assert_eq!(ins.inbounds[0].tag(), Some(&"y".to_string()));
    assert_eq!(ins.inbounds[1].tag(), Some(&"direct-inbound".to_string()));
    ins.remove_server_by_tag("nothing");
    assert_eq!(ins.inbounds.len(), 2);
}

#[test]
fn dns_section_with_unset_servers() {
    let mut dns = DnsConfig::new();
    assert_eq!(dns.get_tag_by_type("local"), None);
    assert!(dns.get_ref_by_tag("dns-local").is_none());
    assert!(dns.get_mut_by_tag("dns-local").is_none());
    dns.remove_server_by_type("local");
    dns.remove_server_by_tag("dns-local");
    assert_eq!(dns.servers, None);
    dns.add_local(None);
    assert_eq!(dns.get_tag_by_type("local"), text("dns-local"));
    dns.add_udp(text("mine"), "9.9.9.9".to_string());
    assert_eq!(dns.get_tag_by_type("udp"), text("mine"));
    dns.add_server(DnsServer::FakeIp(DnsServerFakeIp::new()));
    assert_eq!(dns.get_tag_by_type("fakeip"), None);
    dns.remove_server_by_type("local");
    assert_eq!(dns.servers.as_ref().unwrap().len(), 2);
    dns.remove_server_by_tag("mine");
    assert_eq!(dns.servers.as_ref().unwrap().len(), 1);
    dns.remove_server_by_type("fakeip");
    assert_eq!(dns.servers, Some(vec![]));
}

#[test]
fn dns_get_mut_by_tag_edits_the_server() {
    let mut dns = DnsConfig::new();
    dns.add_local(None);
    match dns.get_mut_by_tag("dns-local") {
        Some(DnsServer::Local(l)) => l.prefer_go = Some(true),
        _ => panic!("no local resolver"),
    }
    let mut expected = DnsServerLocal::new();
    expected.tag = text("dns-local");
    expected.prefer_go = Some(true);
    assert_eq!(dns.servers, Some(vec![DnsServer::Local(expected)]));
}

#[test]
fn route_section_holds_rule_sets_by_tag() {
    let mut route = RouteConfig::new();
    let mut local = RuleSetLocal::new();
    local.config_type = text("local");
    local.tag = text("geo");
    let mut remote = RuleSetRemote::new();
    remote.config_type = text("remote");
    remote.tag = text("ads");
    route.add_rule_set(RuleSet::Local(local)).add_rule_set(RuleSet::Remote(remote));
    assert_eq!(route.get_tag_by_type("remote"), text("ads"));
    assert!(route.get_ref_by_tag("geo").is_some());
    route.remove_server_by_tag("geo");
    assert_eq!(route.rule_set.as_ref().unwrap().len(), 1);
    route.add_rule(RouteRule::Default(DefaultRouteRule::routed_to("x".to_string())));
    assert_eq!(route.rules.as_ref().unwrap().len(), 1);
}

#[test]
fn default_seeds_a_working_document() {
    let mut doc = Configurator::new();
    doc.default();
    let servers = doc.dns.servers.as_ref().unwrap();
    assert_eq!(servers.len(), 2);
    assert_eq!(servers[0].config_type(), Some(&"local".to_string()));
    assert_eq!(servers[0].tag(), Some(&"dns-local".to_string()));
    assert_eq!(servers[1].config_type(), Some(&"udp".to_string()));
    assert_eq!(servers[1].tag(), Some(&"dns-udp".to_string()));
    assert_eq!(doc.inbounds.inbounds.len(), 1);
    match &doc.inbounds.inbounds[0] {
        Inbound::Mixed(m) => {
            assert_eq!(m.tag, text("mixed-inbound"));
            assert_eq!(m.set_system_proxy, Some(true));
            let l = m.listen.as_ref().unwrap();
            assert_eq!(l.listen, text("127.0.0.1"));
            assert_eq!(l.listen_port, Some(12334));
        }
        _ => panic!("no mixed inbound"),
    }
    assert_eq!(doc.outbounds.outbounds.len(), 1);
    assert_eq!(doc.outbounds.get_tag_by_type("direct"), text("direct-outbound"));
    assert_eq!(doc.route.default, None);
    assert_eq!(doc.check_references(), Ok(()));
}

#[test]
fn default_rules_refer_to_the_direct_outbound_by_tag() {
    let mut doc = Configurator::new();
    doc.default();
    let rules = doc.route.rules.as_ref().unwrap();
    assert_eq!(rules.len(), 3);
    for rule in rules {
        let target = rule.target().unwrap();
        assert_eq!(target, "direct-outbound");
        assert!(doc.outbounds.has_tag(target));
    }
    let mut first = DefaultRouteRule::routed_to("direct-outbound".to_string());
    first.inbound = Some(vec!["dns-local".to_string()]);
    let mut second = DefaultRouteRule::routed_to("direct-outbound".to_string());
    second.port = Some(vec![53]);
    let mut third = DefaultRouteRule::routed_to("direct-outbound".to_string());
    third.ip_is_private = Some(true);
    assert_eq!(
        rules,
        &vec![RouteRule::Default(first), RouteRule::Default(second), RouteRule::Default(third)]
    );
}

#[test]
fn default_replaces_what_the_document_held() {
    let mut doc = Configurator::new();
    doc.outbounds.add_vless(VlessConfig::new());
    doc.route.default = text("vless-outbound");
    doc.default();
    let mut fresh = Configurator::new();
    fresh.default();
    assert_eq!(doc, fresh);
}

#[test]
fn default_rules_need_a_resolver_and_a_direct_outbound() {
    let mut dns = DnsConfig::new();
    let mut outs = OutboundConfig::new();
    assert_eq!(default_rules(&dns, &outs).err(), Some(CompileError::UnresolvedTagReference));
    dns.add_local(None);
    assert_eq!(default_rules(&dns, &outs).err(), Some(CompileError::UnresolvedTagReference));
    outs.add_vless(VlessConfig::new());
    assert_eq!(default_rules(&dns, &outs).err(), Some(CompileError::UnresolvedTagReference));
    outs.add_direct(text("out"));
    let rules = default_rules(&dns, &outs).unwrap();
    assert_eq!(rules.len(), 3);
    assert_eq!(rules[1].target(), Some(&"out".to_string()));
}

#[test]
fn tag_lookups_for_rules() {
    let mut dns = DnsConfig::new();
    let mut outs = OutboundConfig::new();
    assert_eq!(
        DefaultRouteRule::get_dns_tag_by_type(&dns, "local"),
        Err(CompileError::UnresolvedTagReference)
    );
    assert_eq!(
        DefaultRouteRule::set_final_by_type(&outs, "direct"),
        Err(CompileError::UnresolvedTagReference)
    );
    dns.add_local(text("r"));
    outs.add_direct(None);
    assert_eq!(DefaultRouteRule::get_dns_tag_by_type(&dns, "local"), Ok("r".to_string()));
    assert_eq!(
        DefaultRouteRule::set_final_by_type(&outs, "direct"),
        Ok("direct-outbound".to_string())
    );
}

#[test]
fn removing_a_referenced_outbound_leaves_a_dangling_reference() {
    let mut doc = Configurator::new();
    doc.default();
    doc.outbounds.remove_server_by_tag("direct-outbound");
    assert_eq!(doc.route.rules.as_ref().unwrap().len(), 3);
    assert_eq!(doc.check_references(), Err(CompileError::UnresolvedTagReference));
}

#[test]
fn check_references_looks_at_the_final_target_and_logical_rules() {
    let mut doc = Configurator::new();
    assert_eq!(doc.check_references(), Ok(()));
    doc.route.default = text("gone");
    assert_eq!(doc.check_references(), Err(CompileError::UnresolvedTagReference));
    doc.outbounds.add_direct(text("gone"));
    assert_eq!(doc.check_references(), Ok(()));
    let mut action = RouteAction::new();
    action.outbound = text("elsewhere");
    let mut logical = LogicalRouteRule::new();
    logical.action = Some(RuleAction::RouteOptions(action));
    doc.route.add_rule(RouteRule::Logical(logical));
    assert_eq!(doc.check_references(), Err(CompileError::UnresolvedTagReference));
    doc.outbounds.add_direct(text("elsewhere"));
    assert_eq!(doc.check_references(), Ok(()));
    doc.route.add_rule(RouteRule::Default(DefaultRouteRule::new()));
    assert_eq!(doc.check_references(), Ok(()));
}

#[test]
fn set_outbound_sets_the_final_target() {
    let mut doc = Configurator::new();
    doc.default();
    let mut v = VlessConfig::new();
    v.tag = text("mine");
    assert_eq!(doc.set_outbound(v), Ok(()));
    assert_eq!(doc.route.default, text("mine"));
    assert_eq!(doc.set_outbound(VlessConfig::new()), Ok(()));
    assert_eq!(doc.route.default, text("mine"));
    assert_eq!(doc.outbounds.outbounds.len(), 3);
}

#[test]
fn set_outbound_without_a_tag_leaves_the_document_unchanged() {
    let mut doc = Configurator::new();
    doc.default();
    let mut before = Configurator::new();
    before.default();
    let mut v = VlessConfig::new();
    v.tag = None;
    assert_eq!(doc.set_outbound(v), Err(CompileError::UnresolvedTagReference));
    assert_eq!(doc, before);
    let mut mistyped = VlessConfig::new();
    mistyped.config_type = text("other");
    assert_eq!(doc.set_outbound(mistyped), Err(CompileError::UnresolvedTagReference));
    assert_eq!(doc, before);
}

#[test]
fn set_outbound_from_url_leaves_the_document_unchanged_on_error() {
    let mut doc = Configurator::new();
    doc.default();
    let mut before = Configurator::new();
    before.default();
    assert_eq!(
        doc.set_outbound_from_url("vless://example.com"),
        Err(CompileError::MissingIdentityField)
    );
    assert_eq!(doc, before);
    assert_eq!(doc.set_outbound_from_url("::"), Err(CompileError::UriParseError));
    assert_eq!(doc, before);
    assert_eq!(doc.set_outbound_from_url("vless://u@example.com"), Ok(()));
    assert_eq!(doc.route.default, text("vless-outbound"));
}

#[test]
fn system_proxies_come_from_flagged_mixed_inbounds() {
    let mut doc = Configurator::new();
    assert_eq!(doc.get_list_of_system_proxies(), vec![]);
    doc.default();
    assert_eq!(
        doc.get_list_of_system_proxies(),
        vec![("127.0.0.1".to_string(), 12334, true)]
    );
    doc.inbounds.add_mixed(None, "::1".to_string(), 1080, false).add_direct(None).add_mixed(
        None,
        "10.0.0.1".to_string(),
        8080,
        true,
    );
    assert_eq!(
        doc.get_list_of_system_proxies(),
        vec![("127.0.0.1".to_string(), 12334, true), ("10.0.0.1".to_string(), 8080, true)]
    );
}

#[test]
fn direct_outbound_defaults() {
    let d = DirectConfig::new();
    assert_eq!(d.config_type, text("direct"));
    assert_eq!(d.tag, text("direct-outbound"));
    assert_eq!(d.dial, None);
}

#[test]
fn check_references_looks_at_the_final_dns_server() {
    let mut doc = Configurator::new();
    doc.dns.default = text("dns-local");
    assert_eq!(doc.check_references(), Err(CompileError::UnresolvedTagReference));
    doc.dns.add_local(None);
    assert_eq!(doc.check_references(), Ok(()));
    doc.dns.remove_server_by_type("local");
    assert_eq!(doc.check_references(), Err(CompileError::UnresolvedTagReference));
}
