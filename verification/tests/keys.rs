use relation::json::Key;

const KEYS: [(Key, &str); 149] = [
    (Key::Type, "type"),
    (Key::Tag, "tag"),
    (Key::Detour, "detour"),
    (Key::DomainResolver, "domain_resolver"),
    (Key::BindInterface, "bind_interface"),
    (Key::Inet4BindAddress, "inet4_bind_address"),
    (Key::Inet6BindAddress, "inet6_bind_address"),
    (Key::RoutingMark, "routing_mark"),
    (Key::ReuseAddr, "reuse_addr"),
    (Key::ConnectTimeout, "connect_timeout"),
    (Key::TcpFastOpen, "tcp_fast_open"),
    (Key::TcpMultiPath, "tcp_multi_path"),
    (Key::UdpFragment, "udp_fragment"),
    (Key::Listen, "listen"),
    (Key::ListenPort, "listen_port"),
    (Key::Netns, "netns"),
    (Key::DisableTcpKeepAlive, "disable_tcp_keep_alive"),
    (Key::TcpKeepAlive, "tcp_keep_alive"),
    (Key::TcpKeepAliveInterval, "tcp_keep_alive_interval"),
    (Key::UdpTimeout, "udp_timeout"),
    (Key::Enable, "enable"),
    (Key::Protocol, "protocol"),
    (Key::MaxStreams, "max_streams"),
    (Key::PublicKey, "public_key"),
    (Key::ShortId, "short_id"),
    (Key::Fingerprint, "fingerprint"),
    (Key::DisableSni, "disable_sni"),
    (Key::ServerName, "server_name"),
    (Key::Insecure, "insecure"),
    (Key::Utls, "utls"),
    (Key::Reality, "reality"),
    (Key::Path, "path"),
    (Key::Headers, "headers"),
    (Key::MaxEarlyData, "max_early_data"),
    (Key::EarlyDataHeaderName, "early_data_header_name"),
    (Key::ServiceName, "service_name"),
    (Key::IdleTimeout, "idle_timeout"),
    (Key::PingTimeout, "ping_timeout"),
    (Key::PermitWithoutStream, "permit_without_stream"),
    (Key::Host, "host"),
    (Key::Method, "method"),
    (Key::Disable, "disable"),
    (Key::Level, "level"),
    (Key::Output, "output"),
    (Key::Timestamp, "timestamp"),
    (Key::Network, "network"),
    (Key::OverrideAddress, "override_address"),
    (Key::OverridePort, "override_port"),
    (Key::SetSystemProxy, "set_system_proxy"),
    (Key::Server, "server"),
    (Key::Strategy, "strategy"),
    (Key::DisableCache, "disable_cache"),
    (Key::RewriteTtl, "rewrite_ttl"),
    (Key::ClientSubnet, "client_subnet"),
    (Key::NoDrop, "no_drop"),
    (Key::Rcode, "rcode"),
    (Key::Answer, "answer"),
    (Key::Ns, "ns"),
    (Key::Extra, "extra"),
    (Key::PreferGo, "prefer_go"),
    (Key::Predefined, "predefined"),
    (Key::ServerPort, "server_port"),
    (Key::Tls, "tls"),
    (Key::Interface, "interface"),
    (Key::Inet4Range, "inet4_range"),
    (Key::Inet6Range, "inet6_range"),
    (Key::Endpoint, "endpoint"),
    (Key::AcceptDefaultResolvers, "accept_default_resolvers"),
    (Key::Service, "service"),
    (Key::Inbound, "inbound"),
    (Key::IpVersion, "ip_version"),
    (Key::QueryType, "query_type"),
    (Key::AuthUser, "auth_user"),
    (Key::Domain, "domain"),
    (Key::DomainSuffix, "domain_suffix"),
    (Key::DomainKeyword, "domain_keyword"),
    (Key::DomainRegex, "domain_regex"),
    (Key::SourceIpCidr, "source_ip_cidr"),
    (Key::SourceIpIsPrivate, "source_ip_is_private"),
    (Key::SourcePort, "source_port"),
    (Key::SourcePortRange, "source_port_range"),
    (Key::Port, "port"),
    (Key::PortRange, "port_range"),
    (Key::ProcessName, "process_name"),
    (Key::ProcessPath, "process_path"),
    (Key::ProcessPathRegex, "process_path_regex"),
    (Key::PackageName, "package_name"),
    (Key::User, "user"),
    (Key::UserId, "user_id"),
    (Key::ClashMode, "clash_mode"),
    (Key::NetworkType, "network_type"),
    (Key::NetworkIsExpensive, "network_is_expensive"),
    (Key::NetworkIsConstrained, "network_is_constrained"),
    (Key::InterfaceAddress, "interface_address"),
    (Key::NetworkInterfaceAddress, "network_interface_address"),
    (Key::DefaultInterfaceAddress, "default_interface_address"),
    (Key::WifiSsid, "wifi_ssid"),
    (Key::WifiBssid, "wifi_bssid"),
    (Key::RuleSet, "rule_set"),
    (Key::RuleSetIpCidrMatchSource, "rule_set_ip_cidr_match_source"),
    (Key::Invert, "invert"),
    (Key::IpCidr, "ip_cidr"),
    (Key::IpIsPrivate, "ip_is_private"),
    (Key::RuleSetIpCidrAcceptEmpty, "rule_set_ip_cidr_accept_empty"),
    (Key::IpAcceptAny, "ip_accept_any"),
    (Key::Client, "client"),
    (Key::Action, "action"),
    (Key::Outbound, "outbound"),
    (Key::NetworkStrategy, "network_strategy"),
    (Key::FallbackDelay, "fallback_delay"),
    (Key::UdpDisableDomainUnmapping, "udp_disable_domain_unmapping"),
    (Key::UdpConnect, "udp_connect"),
    (Key::TlsFragment, "tls_fragment"),
    (Key::TlsFragmentFallbackDelay, "tls_fragment_fallback_delay"),
    (Key::TlsRecordFragment, "tls_record_fragment"),
    (Key::Sniffer, "sniffer"),
    (Key::Timeout, "timeout"),
    (Key::Rules, "rules"),
    (Key::Format, "format"),
    (Key::Url, "url"),
    (Key::DownloadDetour, "download_detour"),
    (Key::UpdateInterval, "update_interval"),
    (Key::Uuid, "uuid"),
    (Key::Flow, "flow"),
    (Key::Multiplex, "multiplex"),
    (Key::PacketEncoding, "packet_encoding"),
    (Key::Transport, "transport"),
    (Key::Outbounds, "outbounds"),
    (Key::Inbounds, "inbounds"),
    (Key::Servers, "servers"),
    (Key::Final, "final"),
    (Key::DisableExpire, "disable_expire"),
    (Key::IndependentCache, "independent_cache"),
    (Key::CacheCapacity, "cache_capacity"),
    (Key::ReverseMapping, "reverse_mapping"),
    (Key::AutoDetectInterface, "auto_detect_interface"),
    (Key::OverrideAndroidVpn, "override_android_vpn"),
    (Key::DefaultInterface, "default_interface"),
    (Key::DefaultMark, "default_mark"),
    (Key::DefaultDomainResolver, "default_domain_resolver"),
    (Key::DefaultNetworkStrategy, "default_network_strategy"),
    (Key::DefaultNetworkType, "default_network_type"),
    (Key::DefaultFallbackNetworkType, "default_fallback_network_type"),
    (Key::DefaultFallbackDelay, "default_fallback_delay"),
    (Key::Dns, "dns"),
    (Key::Route, "route"),
    (Key::Current, "current"),
    (Key::UnableSystemProxy, "unable_system_proxy"),
    (Key::Mode, "mode"),
];

#[test]
fn every_key_has_its_name() {
    for (key, name) in KEYS {
        assert_eq!(key.name(), name);
    }
}

#[test]
fn every_name_gives_its_key_back() {
    for (key, name) in KEYS {
        assert_eq!(Key::named(name), Some(key));
        assert_eq!(Key::named(key.name()), Some(key));
    }
}

#[test]
fn names_are_all_different() {
    for (i, (_, a)) in KEYS.iter().enumerate() {
        for (_, b) in KEYS.iter().skip(i + 1) {
            assert_ne!(a, b);
        }
    }
}

#[test]
fn other_names_give_no_key() {
    assert_eq!(Key::named(""), None);
    assert_eq!(Key::named("Type"), None);
    assert_eq!(Key::named("default"), None);
    assert_eq!(Key::named("config_type"), None);
    assert_eq!(Key::named("rule_type"), None);
    assert_eq!(Key::named("server_type"), None);
    assert_eq!(Key::named("final"), Some(Key::Final));
    assert_eq!(Key::named("type"), Some(Key::Type));
}
