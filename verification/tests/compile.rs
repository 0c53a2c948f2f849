use relation::configurator::{compile, Configurator};
use relation::error::CompileError;
use relation::outbound::vless::{Config, Draft, Field, Flow, PacketEncoding, VlessConfig};
use relation::outbound::Outbound;
use relation::shared::transport::TransportConfig;
use relation::uri::{split_uri, UriParts};

const BASE: &str = "vless://11111111-2222-3333-4444-555555555555@example.com:443?type=tcp&security=tls&sni=example.com&flow=xtls-rprx-vision";

fn text(s: &str) -> Option<String> {
    Some(s.to_string())
}

#[test]
fn tcp_link_with_tls_and_vision_flow() {
    let o = VlessConfig::from_url(BASE).unwrap();
    assert_eq!(o.config_type, text("vless"));
    assert_eq!(o.tag, text("vless-outbound"));
    assert_eq!(o.server, text("example.com"));
    assert_eq!(o.server_port, Some(443));
    assert_eq!(o.uuid, text("11111111-2222-3333-4444-555555555555"));
    assert_eq!(o.flow, Some(Flow::XtlsRprxVision));
    assert_eq!(o.packet_encoding, Some(PacketEncoding::Xudp));
    let tls = o.tls.unwrap();
    assert_eq!(tls.enable, Some(true));
    assert_eq!(tls.server_name, text("example.com"));
    assert_eq!(tls.insecure, None);
    assert_eq!(tls.utls, None);
    assert_eq!(tls.reality, None);
    assert_eq!(o.transport, None);
    assert_eq!(o.multiplex, None);
    assert_eq!(o.network, None);
    assert_eq!(o.dial, None);
}

#[test]
fn reality_without_short_id_is_incomplete() {
    let uri = format!("{}&security=reality&pbk=KEY", BASE);
    assert_eq!(VlessConfig::from_url(&uri), Err(CompileError::IncompleteSecurityConfig));
    assert_eq!(compile(&uri).err(), Some(CompileError::IncompleteSecurityConfig));
}

#[test]
fn reality_without_public_key_is_incomplete() {
    let uri = format!("{}&security=reality&sid=ab12&fp=chrome", BASE);
    assert_eq!(VlessConfig::from_url(&uri), Err(CompileError::IncompleteSecurityConfig));
}

#[test]
fn reality_alone_is_incomplete() {
    let uri = "vless://user@example.com:443?security=reality";
    assert_eq!(VlessConfig::from_url(uri), Err(CompileError::IncompleteSecurityConfig));
}

#[test]
fn reality_with_key_and_id_is_attached() {
    let uri = format!("{}&security=reality&pbk=KEY&sid=ab12&fp=chrome", BASE);
    let o = VlessConfig::from_url(&uri).unwrap();
    let tls = o.tls.unwrap();
    let reality = tls.reality.unwrap();
    assert_eq!(reality.enable, Some(true));
    assert_eq!(reality.public_key, text("KEY"));
    assert_eq!(reality.short_id, text("ab12"));
    let utls = tls.utls.unwrap();
    assert_eq!(utls.enable, Some(true));
    assert_eq!(utls.fingerprint, text("chrome"));
}

#[test]
fn reality_under_a_failing_tls_is_not_checked() {
    let uri = "vless://user@example.com:443?security=reality&pbk=KEY";
    let o = VlessConfig::from_url(uri).unwrap();
    assert_eq!(o.tls, None);
}

#[test]
fn websocket_transport_forces_insecure_tls() {
    let uri = format!("{}&type=ws&path=/ws&host=cdn.example.com", BASE);
    let o = VlessConfig::from_url(&uri).unwrap();
    match o.transport {
        Some(TransportConfig::WebSocket(ws)) => {
            assert_eq!(ws.config_type, text("ws"));
            assert_eq!(ws.path, text("/ws"));
            assert_eq!(
                ws.headers,
                Some(vec![("Host".to_string(), "cdn.example.com".to_string())])
            );
        }
        other => panic!("unexpected transport {:?}", other),
    }
    assert_eq!(o.tls.unwrap().insecure, Some(true));
    assert_eq!(o.flow, Some(Flow::Disabled));
}

#[test]
fn websocket_host_given_twice_keeps_the_last() {
    let uri = "vless://user@example.com?type=ws&path=/a&host=one&host=two";
    let o = VlessConfig::from_url(uri).unwrap();
    match o.transport {
        Some(TransportConfig::WebSocket(ws)) => {
            assert_eq!(ws.headers, Some(vec![("Host".to_string(), "two".to_string())]));
        }
        other => panic!("unexpected transport {:?}", other),
    }
    assert_eq!(o.tls, None);
}

#[test]
fn grpc_without_service_name_is_dropped() {
    let uri = "vless://user@example.com:8443?type=grpc&security=tls&sni=example.com";
    let o = VlessConfig::from_url(uri).unwrap();
    assert_eq!(o.transport, None);
    assert_eq!(o.server_port, Some(8443));
    assert_eq!(o.flow, Some(Flow::XtlsRprxVision));
    assert_eq!(o.tls.unwrap().insecure, None);
}

#[test]
fn grpc_with_service_name_is_attached() {
    let uri = "vless://user@example.com:8443?type=grpc&serviceName=svc";
    let o = VlessConfig::from_url(uri).unwrap();
    match o.transport {
        Some(TransportConfig::Grpc(g)) => {
            assert_eq!(g.service_name, text("svc"));
            assert_eq!(g.idle_timeout, text("15s"));
            assert_eq!(g.ping_timeout, text("15s"));
            assert_eq!(g.permit_without_stream, Some(false));
        }
        other => panic!("unexpected transport {:?}", other),
    }
    assert_eq!(o.flow, Some(Flow::Disabled));
}

#[test]
fn websocket_without_host_is_dropped() {
    let uri = "vless://user@example.com?type=ws&path=/ws";
    let o = VlessConfig::from_url(uri).unwrap();
    assert_eq!(o.transport, None);
}

#[test]
fn http_transport_collects_hosts() {
    let uri = "vless://user@example.com?type=http&path=/p&host=a&host=b";
    let o = VlessConfig::from_url(uri).unwrap();
    match o.transport {
        Some(TransportConfig::Http(h)) => {
            assert_eq!(h.path, text("/p"));
            assert_eq!(h.host, Some(vec!["a".to_string(), "b".to_string()]));
        }
        other => panic!("unexpected transport {:?}", other),
    }
}

#[test]
fn quic_transport_needs_nothing_more() {
    let o = VlessConfig::from_url("vless://user@example.com?type=quic").unwrap();
    assert!(matches!(o.transport, Some(TransportConfig::Quic(_))));
}

#[test]
fn transport_key_before_type_is_dropped() {
    let uri = "vless://user@example.com?path=/early&host=early&serviceName=early&type=ws&host=late";
    let o = VlessConfig::from_url(uri).unwrap();
    assert_eq!(o.transport, None);
}

#[test]
fn unknown_keys_are_ignored() {
    let a = VlessConfig::from_url("vless://user@example.com?encryption=none&x=1&type=tcp").unwrap();
    let b = VlessConfig::from_url("vless://user@example.com?type=tcp").unwrap();
    assert_eq!(a, b);
}

#[test]
fn port_defaults_to_443() {
    let o = VlessConfig::from_url("vless://user@example.com?type=tcp").unwrap();
    assert_eq!(o.server_port, Some(443));
}

#[test]
fn link_without_query_compiles() {
    let o = VlessConfig::from_url("vless://user@example.com:1234").unwrap();
    assert_eq!(o.server_port, Some(1234));
    assert_eq!(o.tls, None);
}

#[test]
fn multiplex_takes_the_stream_cap() {
    let o = VlessConfig::from_url("vless://user@example.com?mux=8").unwrap();
    let m = o.multiplex.unwrap();
    assert_eq!(m.enable, Some(true));
    assert_eq!(m.protocol, text("h2mux"));
    assert_eq!(m.max_streams, Some(8));
}

#[test]
fn multiplex_with_a_bad_number_is_dropped() {
    let o = VlessConfig::from_url("vless://user@example.com?mux=many").unwrap();
    assert_eq!(o.multiplex, None);
    let o = VlessConfig::from_url("vless://user@example.com?mux=65536").unwrap();
    assert_eq!(o.multiplex, None);
}

#[test]
fn other_flow_means_no_flow() {
    let o = VlessConfig::from_url("vless://user@example.com?flow=other").unwrap();
    assert_eq!(o.flow, Some(Flow::Disabled));
}

#[test]
fn value_is_cut_at_the_first_equals_sign() {
    let o = VlessConfig::from_url("vless://user@example.com?sni=a=b&security=tls").unwrap();
    assert_eq!(o.tls.unwrap().server_name, text("a=b"));
}

#[test]
fn missing_credential_is_an_identity_error() {
    let uri = "vless://example.com:443?type=tcp&security=tls&sni=example.com";
    assert_eq!(VlessConfig::from_url(uri), Err(CompileError::MissingIdentityField));
    assert_eq!(compile(uri).err(), Some(CompileError::MissingIdentityField));
}

#[test]
fn missing_host_is_an_identity_error() {
    let uri = "vless:user?type=tcp";
    assert_eq!(VlessConfig::from_url(uri), Err(CompileError::MissingIdentityField));
}

#[test]
fn identity_error_comes_before_the_security_error() {
    let uri = "vless://example.com:443?security=reality&sni=example.com";
    assert_eq!(VlessConfig::from_url(uri), Err(CompileError::MissingIdentityField));
}

#[test]
fn other_scheme_is_unsupported() {
    let uri = "https://user@example.com:443?type=tcp";
    assert_eq!(VlessConfig::from_url(uri), Err(CompileError::UnsupportedScheme));
    assert_eq!(Configurator::from(uri).err(), Some(CompileError::UnsupportedScheme));
}

#[test]
fn text_that_is_no_uri_is_refused() {
    assert_eq!(VlessConfig::from_url("not a uri"), Err(CompileError::UriParseError));
    assert_eq!(VlessConfig::from_url(""), Err(CompileError::UriParseError));
    assert_eq!(compile("vless://user@example.com:99999").err(), Some(CompileError::UriParseError));
}

#[test]
fn split_uri_reads_the_five_parts() {
    let p = split_uri(BASE).unwrap();
    assert_eq!(p.scheme, "vless");
    assert_eq!(p.username, "11111111-2222-3333-4444-555555555555");
    assert_eq!(p.host, text("example.com"));
    assert_eq!(p.port, Some(443));
    assert_eq!(
        p.query,
        text("type=tcp&security=tls&sni=example.com&flow=xtls-rprx-vision")
    );
    let p = split_uri("VLESS://example.com#frag").unwrap();
    assert_eq!(p.scheme, "vless");
    assert_eq!(p.username, "");
    assert_eq!(p.port, None);
    assert_eq!(p.query, None);
}

#[test]
fn parser_lists_identity_before_query() {
    let parts = UriParts {
        scheme: "vless".to_string(),
        username: "u".to_string(),
        host: text("h"),
        port: None,
        query: text("sni=s&&junk&mux=3&mux=x&serviceName=n"),
    };
    let fields = VlessConfig::parser(&parts);
    assert_eq!(
        fields,
        vec![
            Field::Server("h".to_string()),
            Field::ServerPort(443),
            Field::Uuid("u".to_string()),
            Field::Sni("s".to_string()),
            Field::Mux(3),
            Field::ServiceName("n".to_string()),
        ]
    );
}

#[test]
fn from_parts_checks_the_scheme_first() {
    let parts = UriParts {
        scheme: "trojan".to_string(),
        username: String::new(),
        host: None,
        port: None,
        query: None,
    };
    assert_eq!(VlessConfig::from_parts(&parts), Err(CompileError::UnsupportedScheme));
}

#[test]
fn fields_without_a_port_are_an_identity_error() {
    let fields = vec![Field::Server("h".to_string()), Field::Uuid("u".to_string())];
    assert_eq!(VlessConfig::from_fields(fields), Err(CompileError::MissingIdentityField));
}

#[test]
fn draft_attaches_a_disabled_tls() {
    let mut d = Draft::new();
    d.apply(Field::Server("h".to_string()));
    d.apply(Field::ServerPort(1));
    d.apply(Field::Uuid("u".to_string()));
    d.tls.enable = Some(false);
    let o = d.finish().unwrap();
    assert_eq!(o.tls.unwrap().enable, Some(false));
}

#[test]
fn check_fills_flow_and_encoding() {
    let mut o = VlessConfig::new();
    assert!(!o.check());
    assert_eq!(o.flow, None);
    o.server = text("h");
    o.server_port = Some(1);
    o.uuid = text("u");
    assert!(o.check());
    assert_eq!(o.flow, Some(Flow::XtlsRprxVision));
    assert_eq!(o.packet_encoding, Some(PacketEncoding::Xudp));
}

#[test]
fn compile_seeds_the_document_and_sets_the_final_target() {
    let doc = compile(BASE).unwrap();
    assert_eq!(doc.outbounds.outbounds.len(), 2);
    assert!(matches!(doc.outbounds.outbounds[0], Outbound::Direct(_)));
    assert!(matches!(doc.outbounds.outbounds[1], Outbound::Vless(_)));
    assert_eq!(doc.route.default, text("vless-outbound"));
    assert_eq!(doc.route.rules.as_ref().unwrap().len(), 3);
    assert_eq!(doc.check_references(), Ok(()));
}

#[test]
fn from_builds_the_document_around_the_outbound() {
    let doc = Configurator::from(BASE).unwrap();
    assert_eq!(doc.inbounds.inbounds.len(), 2);
    assert_eq!(doc.outbounds.outbounds.len(), 1);
    assert_eq!(doc.dns.servers, None);
    assert_eq!(doc.route.rules, None);
    assert_eq!(doc.route.default, None);
}

#[test]
fn errors_say_what_went_wrong() {
    assert_eq!(CompileError::UriParseError.message(), "malformed URI");
    assert_eq!(CompileError::UnsupportedScheme.message(), "unsupported scheme");
    assert_eq!(
        CompileError::MissingIdentityField.message(),
        "Not configurated required fields"
    );
    assert_eq!(
        CompileError::IncompleteSecurityConfig.message(),
        "Security = reality, but it doesnt configurated"
    );
    assert_eq!(CompileError::UnresolvedTagReference.message(), "unresolved tag reference");
}
