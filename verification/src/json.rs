//! The serializable form of a document: a tree of values in which every
//! object of the schema is a record under the keys of the schema.

use crate::text::same_text;
use vstd::prelude::*;

verus! {

/// A key of the schema: the name under which an object of a document
/// holds one of its fields.
#[derive(Debug, Clone, Copy, PartialEq, Eq, Structural)]
pub enum Key {
    /// The key `type`.
    Type,
    /// The key `tag`.
    Tag,
    /// The key `detour`.
    Detour,
    /// The key `domain_resolver`.
    DomainResolver,
    /// The key `bind_interface`.
    BindInterface,
    /// The key `inet4_bind_address`.
    Inet4BindAddress,
    /// The key `inet6_bind_address`.
    Inet6BindAddress,
    /// The key `routing_mark`.
    RoutingMark,
    /// The key `reuse_addr`.
    ReuseAddr,
    /// The key `connect_timeout`.
    ConnectTimeout,
    /// The key `tcp_fast_open`.
    TcpFastOpen,
    /// The key `tcp_multi_path`.
    TcpMultiPath,
    /// The key `udp_fragment`.
    UdpFragment,
    /// The key `listen`.
    Listen,
    /// The key `listen_port`.
    ListenPort,
    /// The key `netns`.
    Netns,
    /// The key `disable_tcp_keep_alive`.
    DisableTcpKeepAlive,
    /// The key `tcp_keep_alive`.
    TcpKeepAlive,
    /// The key `tcp_keep_alive_interval`.
    TcpKeepAliveInterval,
    /// The key `udp_timeout`.
    UdpTimeout,
    /// The key `enable`.
    Enable,
    /// The key `protocol`.
    Protocol,
    /// The key `max_streams`.
    MaxStreams,
    /// The key `public_key`.
    PublicKey,
    /// The key `short_id`.
    ShortId,
    /// The key `fingerprint`.
    Fingerprint,
    /// The key `disable_sni`.
    DisableSni,
    /// The key `server_name`.
    ServerName,
    /// The key `insecure`.
    Insecure,
    /// The key `utls`.
    Utls,
    /// The key `reality`.
    Reality,
    /// The key `path`.
    Path,
    /// The key `headers`.
    Headers,
    /// The key `max_early_data`.
    MaxEarlyData,
    /// The key `early_data_header_name`.
    EarlyDataHeaderName,
    /// The key `service_name`.
    ServiceName,
    /// The key `idle_timeout`.
    IdleTimeout,
    /// The key `ping_timeout`.
    PingTimeout,
    /// The key `permit_without_stream`.
    PermitWithoutStream,
    /// The key `host`.
    Host,
    /// The key `method`.
    Method,
    /// The key `disable`.
    Disable,
    /// The key `level`.
    Level,
    /// The key `output`.
    Output,
    /// The key `timestamp`.
    Timestamp,
    /// The key `network`.
    Network,
    /// The key `override_address`.
    OverrideAddress,
    /// The key `override_port`.
    OverridePort,
    /// The key `set_system_proxy`.
    SetSystemProxy,
    /// The key `server`.
    Server,
    /// The key `strategy`.
    Strategy,
    /// The key `disable_cache`.
    DisableCache,
    /// The key `rewrite_ttl`.
    RewriteTtl,
    /// The key `client_subnet`.
    ClientSubnet,
    /// The key `no_drop`.
    NoDrop,
    /// The key `rcode`.
    Rcode,
    /// The key `answer`.
    Answer,
    /// The key `ns`.
    Ns,
    /// The key `extra`.
    Extra,
    /// The key `prefer_go`.
    PreferGo,
    /// The key `predefined`.
    Predefined,
    /// The key `server_port`.
    ServerPort,
    /// The key `tls`.
    Tls,
    /// The key `interface`.
    Interface,
    /// The key `inet4_range`.
    Inet4Range,
    /// The key `inet6_range`.
    Inet6Range,
    /// The key `endpoint`.
    Endpoint,
    /// The key `accept_default_resolvers`.
    AcceptDefaultResolvers,
    /// The key `service`.
    Service,
    /// The key `inbound`.
    Inbound,
    /// The key `ip_version`.
    IpVersion,
    /// The key `query_type`.
    QueryType,
    /// The key `auth_user`.
    AuthUser,
    /// The key `domain`.
    Domain,
    /// The key `domain_suffix`.
    DomainSuffix,
    /// The key `domain_keyword`.
    DomainKeyword,
    /// The key `domain_regex`.
    DomainRegex,
    /// The key `source_ip_cidr`.
    SourceIpCidr,
    /// The key `source_ip_is_private`.
    SourceIpIsPrivate,
    /// The key `source_port`.
    SourcePort,
    /// The key `source_port_range`.
    SourcePortRange,
    /// The key `port`.
    Port,
    /// The key `port_range`.
    PortRange,
    /// The key `process_name`.
    ProcessName,
    /// The key `process_path`.
    ProcessPath,
    /// The key `process_path_regex`.
    ProcessPathRegex,
    /// The key `package_name`.
    PackageName,
    /// The key `user`.
    User,
    /// The key `user_id`.
    UserId,
    /// The key `clash_mode`.
    ClashMode,
    /// The key `network_type`.
    NetworkType,
    /// The key `network_is_expensive`.
    NetworkIsExpensive,
    /// The key `network_is_constrained`.
    NetworkIsConstrained,
    /// The key `interface_address`.
    InterfaceAddress,
    /// The key `network_interface_address`.
    NetworkInterfaceAddress,
    /// The key `default_interface_address`.
    DefaultInterfaceAddress,
    /// The key `wifi_ssid`.
    WifiSsid,
    /// The key `wifi_bssid`.
    WifiBssid,
    /// The key `rule_set`.
    RuleSet,
    /// The key `rule_set_ip_cidr_match_source`.
    RuleSetIpCidrMatchSource,
    /// The key `invert`.
    Invert,
    /// The key `ip_cidr`.
    IpCidr,
    /// The key `ip_is_private`.
    IpIsPrivate,
    /// The key `rule_set_ip_cidr_accept_empty`.
    RuleSetIpCidrAcceptEmpty,
    /// The key `ip_accept_any`.
    IpAcceptAny,
    /// The key `client`.
    Client,
    /// The key `action`.
    Action,
    /// The key `outbound`.
    Outbound,
    /// The key `network_strategy`.
    NetworkStrategy,
    /// The key `fallback_delay`.
    FallbackDelay,
    /// The key `udp_disable_domain_unmapping`.
    UdpDisableDomainUnmapping,
    /// The key `udp_connect`.
    UdpConnect,
    /// The key `tls_fragment`.
    TlsFragment,
    /// The key `tls_fragment_fallback_delay`.
    TlsFragmentFallbackDelay,
    /// The key `tls_record_fragment`.
    TlsRecordFragment,
    /// The key `sniffer`.
    Sniffer,
    /// The key `timeout`.
    Timeout,
    /// The key `rules`.
    Rules,
    /// The key `format`.
    Format,
    /// The key `url`.
    Url,
    /// The key `download_detour`.
    DownloadDetour,
    /// The key `update_interval`.
    UpdateInterval,
    /// The key `uuid`.
    Uuid,
    /// The key `flow`.
    Flow,
    /// The key `multiplex`.
    Multiplex,
    /// The key `packet_encoding`.
    PacketEncoding,
    /// The key `transport`.
    Transport,
    /// The key `outbounds`.
    Outbounds,
    /// The key `inbounds`.
    Inbounds,
    /// The key `servers`.
    Servers,
    /// The key `final`.
    Final,
    /// The key `disable_expire`.
    DisableExpire,
    /// The key `independent_cache`.
    IndependentCache,
    /// The key `cache_capacity`.
    CacheCapacity,
    /// The key `reverse_mapping`.
    ReverseMapping,
    /// The key `auto_detect_interface`.
    AutoDetectInterface,
    /// The key `override_android_vpn`.
    OverrideAndroidVpn,
    /// The key `default_interface`.
    DefaultInterface,
    /// The key `default_mark`.
    DefaultMark,
    /// The key `default_domain_resolver`.
    DefaultDomainResolver,
    /// The key `default_network_strategy`.
    DefaultNetworkStrategy,
    /// The key `default_network_type`.
    DefaultNetworkType,
    /// The key `default_fallback_network_type`.
    DefaultFallbackNetworkType,
    /// The key `default_fallback_delay`.
    DefaultFallbackDelay,
    /// The key `dns`.
    Dns,
    /// The key `route`.
    Route,
    /// The key `current`.
    Current,
    /// The key `unable_system_proxy`.
    UnableSystemProxy,
    /// The key `mode`.
    Mode,
}

impl Key {
    /// The name of the key, as a document writes it.
    pub open spec fn text(self) -> Seq<char> {
        match self {
            Key::Type => "type"@,
            Key::Tag => "tag"@,
            Key::Detour => "detour"@,
            Key::DomainResolver => "domain_resolver"@,
            Key::BindInterface => "bind_interface"@,
            Key::Inet4BindAddress => "inet4_bind_address"@,
            Key::Inet6BindAddress => "inet6_bind_address"@,
            Key::RoutingMark => "routing_mark"@,
            Key::ReuseAddr => "reuse_addr"@,
            Key::ConnectTimeout => "connect_timeout"@,
            Key::TcpFastOpen => "tcp_fast_open"@,
            Key::TcpMultiPath => "tcp_multi_path"@,
            Key::UdpFragment => "udp_fragment"@,
            Key::Listen => "listen"@,
            Key::ListenPort => "listen_port"@,
            Key::Netns => "netns"@,
            Key::DisableTcpKeepAlive => "disable_tcp_keep_alive"@,
            Key::TcpKeepAlive => "tcp_keep_alive"@,
            Key::TcpKeepAliveInterval => "tcp_keep_alive_interval"@,
            Key::UdpTimeout => "udp_timeout"@,
            Key::Enable => "enable"@,
            Key::Protocol => "protocol"@,
            Key::MaxStreams => "max_streams"@,
            Key::PublicKey => "public_key"@,
            Key::ShortId => "short_id"@,
            Key::Fingerprint => "fingerprint"@,
            Key::DisableSni => "disable_sni"@,
            Key::ServerName => "server_name"@,
            Key::Insecure => "insecure"@,
            Key::Utls => "utls"@,
            Key::Reality => "reality"@,
            Key::Path => "path"@,
            Key::Headers => "headers"@,
            Key::MaxEarlyData => "max_early_data"@,
            Key::EarlyDataHeaderName => "early_data_header_name"@,
            Key::ServiceName => "service_name"@,
            Key::IdleTimeout => "idle_timeout"@,
            Key::PingTimeout => "ping_timeout"@,
            Key::PermitWithoutStream => "permit_without_stream"@,
            Key::Host => "host"@,
            Key::Method => "method"@,
            Key::Disable => "disable"@,
            Key::Level => "level"@,
            Key::Output => "output"@,
            Key::Timestamp => "timestamp"@,
            Key::Network => "network"@,
            Key::OverrideAddress => "override_address"@,
            Key::OverridePort => "override_port"@,
            Key::SetSystemProxy => "set_system_proxy"@,
            Key::Server => "server"@,
            Key::Strategy => "strategy"@,
            Key::DisableCache => "disable_cache"@,
            Key::RewriteTtl => "rewrite_ttl"@,
            Key::ClientSubnet => "client_subnet"@,
            Key::NoDrop => "no_drop"@,
            Key::Rcode => "rcode"@,
            Key::Answer => "answer"@,
            Key::Ns => "ns"@,
            Key::Extra => "extra"@,
            Key::PreferGo => "prefer_go"@,
            Key::Predefined => "predefined"@,
            Key::ServerPort => "server_port"@,
            Key::Tls => "tls"@,
            Key::Interface => "interface"@,
            Key::Inet4Range => "inet4_range"@,
            Key::Inet6Range => "inet6_range"@,
            Key::Endpoint => "endpoint"@,
            Key::AcceptDefaultResolvers => "accept_default_resolvers"@,
            Key::Service => "service"@,
            Key::Inbound => "inbound"@,
            Key::IpVersion => "ip_version"@,
            Key::QueryType => "query_type"@,
            Key::AuthUser => "auth_user"@,
            Key::Domain => "domain"@,
            Key::DomainSuffix => "domain_suffix"@,
            Key::DomainKeyword => "domain_keyword"@,
            Key::DomainRegex => "domain_regex"@,
            Key::SourceIpCidr => "source_ip_cidr"@,
            Key::SourceIpIsPrivate => "source_ip_is_private"@,
            Key::SourcePort => "source_port"@,
            Key::SourcePortRange => "source_port_range"@,
            Key::Port => "port"@,
            Key::PortRange => "port_range"@,
            Key::ProcessName => "process_name"@,
            Key::ProcessPath => "process_path"@,
            Key::ProcessPathRegex => "process_path_regex"@,
            Key::PackageName => "package_name"@,
            Key::User => "user"@,
            Key::UserId => "user_id"@,
            Key::ClashMode => "clash_mode"@,
            Key::NetworkType => "network_type"@,
            Key::NetworkIsExpensive => "network_is_expensive"@,
            Key::NetworkIsConstrained => "network_is_constrained"@,
            Key::InterfaceAddress => "interface_address"@,
            Key::NetworkInterfaceAddress => "network_interface_address"@,
            Key::DefaultInterfaceAddress => "default_interface_address"@,
            Key::WifiSsid => "wifi_ssid"@,
            Key::WifiBssid => "wifi_bssid"@,
            Key::RuleSet => "rule_set"@,
            Key::RuleSetIpCidrMatchSource => "rule_set_ip_cidr_match_source"@,
            Key::Invert => "invert"@,
            Key::IpCidr => "ip_cidr"@,
            Key::IpIsPrivate => "ip_is_private"@,
            Key::RuleSetIpCidrAcceptEmpty => "rule_set_ip_cidr_accept_empty"@,
            Key::IpAcceptAny => "ip_accept_any"@,
            Key::Client => "client"@,
            Key::Action => "action"@,
            Key::Outbound => "outbound"@,
            Key::NetworkStrategy => "network_strategy"@,
            Key::FallbackDelay => "fallback_delay"@,
            Key::UdpDisableDomainUnmapping => "udp_disable_domain_unmapping"@,
            Key::UdpConnect => "udp_connect"@,
            Key::TlsFragment => "tls_fragment"@,
            Key::TlsFragmentFallbackDelay => "tls_fragment_fallback_delay"@,
            Key::TlsRecordFragment => "tls_record_fragment"@,
            Key::Sniffer => "sniffer"@,
            Key::Timeout => "timeout"@,
            Key::Rules => "rules"@,
            Key::Format => "format"@,
            Key::Url => "url"@,
            Key::DownloadDetour => "download_detour"@,
            Key::UpdateInterval => "update_interval"@,
            Key::Uuid => "uuid"@,
            Key::Flow => "flow"@,
            Key::Multiplex => "multiplex"@,
            Key::PacketEncoding => "packet_encoding"@,
            Key::Transport => "transport"@,
            Key::Outbounds => "outbounds"@,
            Key::Inbounds => "inbounds"@,
            Key::Servers => "servers"@,
            Key::Final => "final"@,
            Key::DisableExpire => "disable_expire"@,
            Key::IndependentCache => "independent_cache"@,
            Key::CacheCapacity => "cache_capacity"@,
            Key::ReverseMapping => "reverse_mapping"@,
            Key::AutoDetectInterface => "auto_detect_interface"@,
            Key::OverrideAndroidVpn => "override_android_vpn"@,
            Key::DefaultInterface => "default_interface"@,
            Key::DefaultMark => "default_mark"@,
            Key::DefaultDomainResolver => "default_domain_resolver"@,
            Key::DefaultNetworkStrategy => "default_network_strategy"@,
            Key::DefaultNetworkType => "default_network_type"@,
            Key::DefaultFallbackNetworkType => "default_fallback_network_type"@,
            Key::DefaultFallbackDelay => "default_fallback_delay"@,
            Key::Dns => "dns"@,
            Key::Route => "route"@,
            Key::Current => "current"@,
            Key::UnableSystemProxy => "unable_system_proxy"@,
            Key::Mode => "mode"@,
        }
    }

    /// The name of the key, as a document writes it.
    pub fn name(self) -> (r: &'static str)
        ensures
            r@ == self.text(),
    {
        match self {
            Key::Type => "type",
            Key::Tag => "tag",
            Key::Detour => "detour",
            Key::DomainResolver => "domain_resolver",
            Key::BindInterface => "bind_interface",
            Key::Inet4BindAddress => "inet4_bind_address",
            Key::Inet6BindAddress => "inet6_bind_address",
            Key::RoutingMark => "routing_mark",
            Key::ReuseAddr => "reuse_addr",
            Key::ConnectTimeout => "connect_timeout",
            Key::TcpFastOpen => "tcp_fast_open",
            Key::TcpMultiPath => "tcp_multi_path",
            Key::UdpFragment => "udp_fragment",
            Key::Listen => "listen",
            Key::ListenPort => "listen_port",
            Key::Netns => "netns",
            Key::DisableTcpKeepAlive => "disable_tcp_keep_alive",
            Key::TcpKeepAlive => "tcp_keep_alive",
            Key::TcpKeepAliveInterval => "tcp_keep_alive_interval",
            Key::UdpTimeout => "udp_timeout",
            Key::Enable => "enable",
            Key::Protocol => "protocol",
            Key::MaxStreams => "max_streams",
            Key::PublicKey => "public_key",
            Key::ShortId => "short_id",
            Key::Fingerprint => "fingerprint",
            Key::DisableSni => "disable_sni",
            Key::ServerName => "server_name",
            Key::Insecure => "insecure",
            Key::Utls => "utls",
            Key::Reality => "reality",
            Key::Path => "path",
            Key::Headers => "headers",
            Key::MaxEarlyData => "max_early_data",
            Key::EarlyDataHeaderName => "early_data_header_name",
            Key::ServiceName => "service_name",
            Key::IdleTimeout => "idle_timeout",
            Key::PingTimeout => "ping_timeout",
            Key::PermitWithoutStream => "permit_without_stream",
            Key::Host => "host",
            Key::Method => "method",
            Key::Disable => "disable",
            Key::Level => "level",
            Key::Output => "output",
            Key::Timestamp => "timestamp",
            Key::Network => "network",
            Key::OverrideAddress => "override_address",
            Key::OverridePort => "override_port",
            Key::SetSystemProxy => "set_system_proxy",
            Key::Server => "server",
            Key::Strategy => "strategy",
            Key::DisableCache => "disable_cache",
            Key::RewriteTtl => "rewrite_ttl",
            Key::ClientSubnet => "client_subnet",
            Key::NoDrop => "no_drop",
            Key::Rcode => "rcode",
            Key::Answer => "answer",
            Key::Ns => "ns",
            Key::Extra => "extra",
            Key::PreferGo => "prefer_go",
            Key::Predefined => "predefined",
            Key::ServerPort => "server_port",
            Key::Tls => "tls",
            Key::Interface => "interface",
            Key::Inet4Range => "inet4_range",
            Key::Inet6Range => "inet6_range",
            Key::Endpoint => "endpoint",
            Key::AcceptDefaultResolvers => "accept_default_resolvers",
            Key::Service => "service",
            Key::Inbound => "inbound",
            Key::IpVersion => "ip_version",
            Key::QueryType => "query_type",
            Key::AuthUser => "auth_user",
            Key::Domain => "domain",
            Key::DomainSuffix => "domain_suffix",
            Key::DomainKeyword => "domain_keyword",
            Key::DomainRegex => "domain_regex",
            Key::SourceIpCidr => "source_ip_cidr",
            Key::SourceIpIsPrivate => "source_ip_is_private",
            Key::SourcePort => "source_port",
            Key::SourcePortRange => "source_port_range",
            Key::Port => "port",
            Key::PortRange => "port_range",
            Key::ProcessName => "process_name",
            Key::ProcessPath => "process_path",
            Key::ProcessPathRegex => "process_path_regex",
            Key::PackageName => "package_name",
            Key::User => "user",
            Key::UserId => "user_id",
            Key::ClashMode => "clash_mode",
            Key::NetworkType => "network_type",
            Key::NetworkIsExpensive => "network_is_expensive",
            Key::NetworkIsConstrained => "network_is_constrained",
            Key::InterfaceAddress => "interface_address",
            Key::NetworkInterfaceAddress => "network_interface_address",
            Key::DefaultInterfaceAddress => "default_interface_address",
            Key::WifiSsid => "wifi_ssid",
            Key::WifiBssid => "wifi_bssid",
            Key::RuleSet => "rule_set",
            Key::RuleSetIpCidrMatchSource => "rule_set_ip_cidr_match_source",
            Key::Invert => "invert",
            Key::IpCidr => "ip_cidr",
            Key::IpIsPrivate => "ip_is_private",
            Key::RuleSetIpCidrAcceptEmpty => "rule_set_ip_cidr_accept_empty",
            Key::IpAcceptAny => "ip_accept_any",
            Key::Client => "client",
            Key::Action => "action",
            Key::Outbound => "outbound",
            Key::NetworkStrategy => "network_strategy",
            Key::FallbackDelay => "fallback_delay",
            Key::UdpDisableDomainUnmapping => "udp_disable_domain_unmapping",
            Key::UdpConnect => "udp_connect",
            Key::TlsFragment => "tls_fragment",
            Key::TlsFragmentFallbackDelay => "tls_fragment_fallback_delay",
            Key::TlsRecordFragment => "tls_record_fragment",
            Key::Sniffer => "sniffer",
            Key::Timeout => "timeout",
            Key::Rules => "rules",
            Key::Format => "format",
            Key::Url => "url",
            Key::DownloadDetour => "download_detour",
            Key::UpdateInterval => "update_interval",
            Key::Uuid => "uuid",
            Key::Flow => "flow",
            Key::Multiplex => "multiplex",
            Key::PacketEncoding => "packet_encoding",
            Key::Transport => "transport",
            Key::Outbounds => "outbounds",
            Key::Inbounds => "inbounds",
            Key::Servers => "servers",
            Key::Final => "final",
            Key::DisableExpire => "disable_expire",
            Key::IndependentCache => "independent_cache",
            Key::CacheCapacity => "cache_capacity",
            Key::ReverseMapping => "reverse_mapping",
            Key::AutoDetectInterface => "auto_detect_interface",
            Key::OverrideAndroidVpn => "override_android_vpn",
            Key::DefaultInterface => "default_interface",
            Key::DefaultMark => "default_mark",
            Key::DefaultDomainResolver => "default_domain_resolver",
            Key::DefaultNetworkStrategy => "default_network_strategy",
            Key::DefaultNetworkType => "default_network_type",
            Key::DefaultFallbackNetworkType => "default_fallback_network_type",
            Key::DefaultFallbackDelay => "default_fallback_delay",
            Key::Dns => "dns",
            Key::Route => "route",
            Key::Current => "current",
            Key::UnableSystemProxy => "unable_system_proxy",
            Key::Mode => "mode",
        }
    }

    /// The key of the given name, if the schema has one.
    pub fn named(s: &str) -> (r: Option<Key>)
        ensures
            r == key_named(s@),
    {
        if same_text(s, "type") {
            Some(Key::Type)
        } else if same_text(s, "tag") {
            Some(Key::Tag)
        } else if same_text(s, "detour") {
            Some(Key::Detour)
        } else if same_text(s, "domain_resolver") {
            Some(Key::DomainResolver)
        } else if same_text(s, "bind_interface") {
            Some(Key::BindInterface)
        } else if same_text(s, "inet4_bind_address") {
            Some(Key::Inet4BindAddress)
        } else if same_text(s, "inet6_bind_address") {
            Some(Key::Inet6BindAddress)
        } else if same_text(s, "routing_mark") {
            Some(Key::RoutingMark)
        } else if same_text(s, "reuse_addr") {
            Some(Key::ReuseAddr)
        } else if same_text(s, "connect_timeout") {
            Some(Key::ConnectTimeout)
        } else if same_text(s, "tcp_fast_open") {
            Some(Key::TcpFastOpen)
        } else if same_text(s, "tcp_multi_path") {
            Some(Key::TcpMultiPath)
        } else if same_text(s, "udp_fragment") {
            Some(Key::UdpFragment)
        } else if same_text(s, "listen") {
            Some(Key::Listen)
        } else if same_text(s, "listen_port") {
            Some(Key::ListenPort)
        } else if same_text(s, "netns") {
            Some(Key::Netns)
        } else if same_text(s, "disable_tcp_keep_alive") {
            Some(Key::DisableTcpKeepAlive)
        } else if same_text(s, "tcp_keep_alive") {
            Some(Key::TcpKeepAlive)
        } else if same_text(s, "tcp_keep_alive_interval") {
            Some(Key::TcpKeepAliveInterval)
        } else if same_text(s, "udp_timeout") {
            Some(Key::UdpTimeout)
        } else if same_text(s, "enable") {
            Some(Key::Enable)
        } else if same_text(s, "protocol") {
            Some(Key::Protocol)
        } else if same_text(s, "max_streams") {
            Some(Key::MaxStreams)
        } else if same_text(s, "public_key") {
            Some(Key::PublicKey)
        } else if same_text(s, "short_id") {
            Some(Key::ShortId)
        } else if same_text(s, "fingerprint") {
            Some(Key::Fingerprint)
        } else if same_text(s, "disable_sni") {
            Some(Key::DisableSni)
        } else if same_text(s, "server_name") {
            Some(Key::ServerName)
        } else if same_text(s, "insecure") {
            Some(Key::Insecure)
        } else if same_text(s, "utls") {
            Some(Key::Utls)
        } else if same_text(s, "reality") {
            Some(Key::Reality)
        } else if same_text(s, "path") {
            Some(Key::Path)
        } else if same_text(s, "headers") {
            Some(Key::Headers)
        } else if same_text(s, "max_early_data") {
            Some(Key::MaxEarlyData)
        } else if same_text(s, "early_data_header_name") {
            Some(Key::EarlyDataHeaderName)
        } else if same_text(s, "service_name") {
            Some(Key::ServiceName)
        } else if same_text(s, "idle_timeout") {
            Some(Key::IdleTimeout)
        } else if same_text(s, "ping_timeout") {
            Some(Key::PingTimeout)
        } else if same_text(s, "permit_without_stream") {
            Some(Key::PermitWithoutStream)
        } else if same_text(s, "host") {
            Some(Key::Host)
        } else if same_text(s, "method") {
            Some(Key::Method)
        } else if same_text(s, "disable") {
            Some(Key::Disable)
        } else if same_text(s, "level") {
            Some(Key::Level)
        } else if same_text(s, "output") {
            Some(Key::Output)
        } else if same_text(s, "timestamp") {
            Some(Key::Timestamp)
        } else if same_text(s, "network") {
            Some(Key::Network)
        } else if same_text(s, "override_address") {
            Some(Key::OverrideAddress)
        } else if same_text(s, "override_port") {
            Some(Key::OverridePort)
        } else if same_text(s, "set_system_proxy") {
            Some(Key::SetSystemProxy)
        } else if same_text(s, "server") {
            Some(Key::Server)
        } else if same_text(s, "strategy") {
            Some(Key::Strategy)
        } else if same_text(s, "disable_cache") {
            Some(Key::DisableCache)
        } else if same_text(s, "rewrite_ttl") {
            Some(Key::RewriteTtl)
        } else if same_text(s, "client_subnet") {
            Some(Key::ClientSubnet)
        } else if same_text(s, "no_drop") {
            Some(Key::NoDrop)
        } else if same_text(s, "rcode") {
            Some(Key::Rcode)
        } else if same_text(s, "answer") {
            Some(Key::Answer)
        } else if same_text(s, "ns") {
            Some(Key::Ns)
        } else if same_text(s, "extra") {
            Some(Key::Extra)
        } else if same_text(s, "prefer_go") {
            Some(Key::PreferGo)
        } else if same_text(s, "predefined") {
            Some(Key::Predefined)
        } else if same_text(s, "server_port") {
            Some(Key::ServerPort)
        } else if same_text(s, "tls") {
            Some(Key::Tls)
        } else if same_text(s, "interface") {
            Some(Key::Interface)
        } else if same_text(s, "inet4_range") {
            Some(Key::Inet4Range)
        } else if same_text(s, "inet6_range") {
            Some(Key::Inet6Range)
        } else if same_text(s, "endpoint") {
            Some(Key::Endpoint)
        } else if same_text(s, "accept_default_resolvers") {
            Some(Key::AcceptDefaultResolvers)
        } else if same_text(s, "service") {
            Some(Key::Service)
        } else if same_text(s, "inbound") {
            Some(Key::Inbound)
        } else if same_text(s, "ip_version") {
            Some(Key::IpVersion)
        } else if same_text(s, "query_type") {
            Some(Key::QueryType)
        } else if same_text(s, "auth_user") {
            Some(Key::AuthUser)
        } else if same_text(s, "domain") {
            Some(Key::Domain)
        } else if same_text(s, "domain_suffix") {
            Some(Key::DomainSuffix)
        } else if same_text(s, "domain_keyword") {
            Some(Key::DomainKeyword)
        } else if same_text(s, "domain_regex") {
            Some(Key::DomainRegex)
        } else if same_text(s, "source_ip_cidr") {
            Some(Key::SourceIpCidr)
        } else if same_text(s, "source_ip_is_private") {
            Some(Key::SourceIpIsPrivate)
        } else if same_text(s, "source_port") {
            Some(Key::SourcePort)
        } else if same_text(s, "source_port_range") {
            Some(Key::SourcePortRange)
        } else if same_text(s, "port") {
            Some(Key::Port)
        } else if same_text(s, "port_range") {
            Some(Key::PortRange)
        } else if same_text(s, "process_name") {
            Some(Key::ProcessName)
        } else if same_text(s, "process_path") {
            Some(Key::ProcessPath)
        } else if same_text(s, "process_path_regex") {
            Some(Key::ProcessPathRegex)
        } else if same_text(s, "package_name") {
            Some(Key::PackageName)
        } else if same_text(s, "user") {
            Some(Key::User)
        } else if same_text(s, "user_id") {
            Some(Key::UserId)
        } else if same_text(s, "clash_mode") {
            Some(Key::ClashMode)
        } else if same_text(s, "network_type") {
            Some(Key::NetworkType)
        } else if same_text(s, "network_is_expensive") {
            Some(Key::NetworkIsExpensive)
        } else if same_text(s, "network_is_constrained") {
            Some(Key::NetworkIsConstrained)
        } else if same_text(s, "interface_address") {
            Some(Key::InterfaceAddress)
        } else if same_text(s, "network_interface_address") {
            Some(Key::NetworkInterfaceAddress)
        } else if same_text(s, "default_interface_address") {
            Some(Key::DefaultInterfaceAddress)
        } else if same_text(s, "wifi_ssid") {
            Some(Key::WifiSsid)
        } else if same_text(s, "wifi_bssid") {
            Some(Key::WifiBssid)
        } else if same_text(s, "rule_set") {
            Some(Key::RuleSet)
        } else if same_text(s, "rule_set_ip_cidr_match_source") {
            Some(Key::RuleSetIpCidrMatchSource)
        } else if same_text(s, "invert") {
            Some(Key::Invert)
        } else if same_text(s, "ip_cidr") {
            Some(Key::IpCidr)
        } else if same_text(s, "ip_is_private") {
            Some(Key::IpIsPrivate)
        } else if same_text(s, "rule_set_ip_cidr_accept_empty") {
            Some(Key::RuleSetIpCidrAcceptEmpty)
        } else if same_text(s, "ip_accept_any") {
            Some(Key::IpAcceptAny)
        } else if same_text(s, "client") {
            Some(Key::Client)
        } else if same_text(s, "action") {
            Some(Key::Action)
        } else if same_text(s, "outbound") {
            Some(Key::Outbound)
        } else if same_text(s, "network_strategy") {
            Some(Key::NetworkStrategy)
        } else if same_text(s, "fallback_delay") {
            Some(Key::FallbackDelay)
        } else if same_text(s, "udp_disable_domain_unmapping") {
            Some(Key::UdpDisableDomainUnmapping)
        } else if same_text(s, "udp_connect") {
            Some(Key::UdpConnect)
        } else if same_text(s, "tls_fragment") {
            Some(Key::TlsFragment)
        } else if same_text(s, "tls_fragment_fallback_delay") {
            Some(Key::TlsFragmentFallbackDelay)
        } else if same_text(s, "tls_record_fragment") {
            Some(Key::TlsRecordFragment)
        } else if same_text(s, "sniffer") {
            Some(Key::Sniffer)
        } else if same_text(s, "timeout") {
            Some(Key::Timeout)
        } else if same_text(s, "rules") {
            Some(Key::Rules)
        } else if same_text(s, "format") {
            Some(Key::Format)
        } else if same_text(s, "url") {
            Some(Key::Url)
        } else if same_text(s, "download_detour") {
            Some(Key::DownloadDetour)
        } else if same_text(s, "update_interval") {
            Some(Key::UpdateInterval)
        } else if same_text(s, "uuid") {
            Some(Key::Uuid)
        } else if same_text(s, "flow") {
            Some(Key::Flow)
        } else if same_text(s, "multiplex") {
            Some(Key::Multiplex)
        } else if same_text(s, "packet_encoding") {
            Some(Key::PacketEncoding)
        } else if same_text(s, "transport") {
            Some(Key::Transport)
        } else if same_text(s, "outbounds") {
            Some(Key::Outbounds)
        } else if same_text(s, "inbounds") {
            Some(Key::Inbounds)
        } else if same_text(s, "servers") {
            Some(Key::Servers)
        } else if same_text(s, "final") {
            Some(Key::Final)
        } else if same_text(s, "disable_expire") {
            Some(Key::DisableExpire)
        } else if same_text(s, "independent_cache") {
            Some(Key::IndependentCache)
        } else if same_text(s, "cache_capacity") {
            Some(Key::CacheCapacity)
        } else if same_text(s, "reverse_mapping") {
            Some(Key::ReverseMapping)
        } else if same_text(s, "auto_detect_interface") {
            Some(Key::AutoDetectInterface)
        } else if same_text(s, "override_android_vpn") {
            Some(Key::OverrideAndroidVpn)
        } else if same_text(s, "default_interface") {
            Some(Key::DefaultInterface)
        } else if same_text(s, "default_mark") {
            Some(Key::DefaultMark)
        } else if same_text(s, "default_domain_resolver") {
            Some(Key::DefaultDomainResolver)
        } else if same_text(s, "default_network_strategy") {
            Some(Key::DefaultNetworkStrategy)
        } else if same_text(s, "default_network_type") {
            Some(Key::DefaultNetworkType)
        } else if same_text(s, "default_fallback_network_type") {
            Some(Key::DefaultFallbackNetworkType)
        } else if same_text(s, "default_fallback_delay") {
            Some(Key::DefaultFallbackDelay)
        } else if same_text(s, "dns") {
            Some(Key::Dns)
        } else if same_text(s, "route") {
            Some(Key::Route)
        } else if same_text(s, "current") {
            Some(Key::Current)
        } else if same_text(s, "unable_system_proxy") {
            Some(Key::UnableSystemProxy)
        } else if same_text(s, "mode") {
            Some(Key::Mode)
        } else {
            None
        }
    }
}

/// The key of the given name, if the schema has one.
pub open spec fn key_named(s: Seq<char>) -> Option<Key> {
    if s == "type"@ {
        Some(Key::Type)
    } else if s == "tag"@ {
        Some(Key::Tag)
    } else if s == "detour"@ {
        Some(Key::Detour)
    } else if s == "domain_resolver"@ {
        Some(Key::DomainResolver)
    } else if s == "bind_interface"@ {
        Some(Key::BindInterface)
    } else if s == "inet4_bind_address"@ {
        Some(Key::Inet4BindAddress)
    } else if s == "inet6_bind_address"@ {
        Some(Key::Inet6BindAddress)
    } else if s == "routing_mark"@ {
        Some(Key::RoutingMark)
    } else if s == "reuse_addr"@ {
        Some(Key::ReuseAddr)
    } else if s == "connect_timeout"@ {
        Some(Key::ConnectTimeout)
    } else if s == "tcp_fast_open"@ {
        Some(Key::TcpFastOpen)
    } else if s == "tcp_multi_path"@ {
        Some(Key::TcpMultiPath)
    } else if s == "udp_fragment"@ {
        Some(Key::UdpFragment)
    } else if s == "listen"@ {
        Some(Key::Listen)
    } else if s == "listen_port"@ {
        Some(Key::ListenPort)
    } else if s == "netns"@ {
        Some(Key::Netns)
    } else if s == "disable_tcp_keep_alive"@ {
        Some(Key::DisableTcpKeepAlive)
    } else if s == "tcp_keep_alive"@ {
        Some(Key::TcpKeepAlive)
    } else if s == "tcp_keep_alive_interval"@ {
        Some(Key::TcpKeepAliveInterval)
    } else if s == "udp_timeout"@ {
        Some(Key::UdpTimeout)
    } else if s == "enable"@ {
        Some(Key::Enable)
    } else if s == "protocol"@ {
        Some(Key::Protocol)
    } else if s == "max_streams"@ {
        Some(Key::MaxStreams)
    } else if s == "public_key"@ {
        Some(Key::PublicKey)
    } else if s == "short_id"@ {
        Some(Key::ShortId)
    } else if s == "fingerprint"@ {
        Some(Key::Fingerprint)
    } else if s == "disable_sni"@ {
        Some(Key::DisableSni)
    } else if s == "server_name"@ {
        Some(Key::ServerName)
    } else if s == "insecure"@ {
        Some(Key::Insecure)
    } else if s == "utls"@ {
        Some(Key::Utls)
    } else if s == "reality"@ {
        Some(Key::Reality)
    } else if s == "path"@ {
        Some(Key::Path)
    } else if s == "headers"@ {
        Some(Key::Headers)
    } else if s == "max_early_data"@ {
        Some(Key::MaxEarlyData)
    } else if s == "early_data_header_name"@ {
        Some(Key::EarlyDataHeaderName)
    } else if s == "service_name"@ {
        Some(Key::ServiceName)
    } else if s == "idle_timeout"@ {
        Some(Key::IdleTimeout)
    } else if s == "ping_timeout"@ {
        Some(Key::PingTimeout)
    } else if s == "permit_without_stream"@ {
        Some(Key::PermitWithoutStream)
    } else if s == "host"@ {
        Some(Key::Host)
    } else if s == "method"@ {
        Some(Key::Method)
    } else if s == "disable"@ {
        Some(Key::Disable)
    } else if s == "level"@ {
        Some(Key::Level)
    } else if s == "output"@ {
        Some(Key::Output)
    } else if s == "timestamp"@ {
        Some(Key::Timestamp)
    } else if s == "network"@ {
        Some(Key::Network)
    } else if s == "override_address"@ {
        Some(Key::OverrideAddress)
    } else if s == "override_port"@ {
        Some(Key::OverridePort)
    } else if s == "set_system_proxy"@ {
        Some(Key::SetSystemProxy)
    } else if s == "server"@ {
        Some(Key::Server)
    } else if s == "strategy"@ {
        Some(Key::Strategy)
    } else if s == "disable_cache"@ {
        Some(Key::DisableCache)
    } else if s == "rewrite_ttl"@ {
        Some(Key::RewriteTtl)
    } else if s == "client_subnet"@ {
        Some(Key::ClientSubnet)
    } else if s == "no_drop"@ {
        Some(Key::NoDrop)
    } else if s == "rcode"@ {
        Some(Key::Rcode)
    } else if s == "answer"@ {
        Some(Key::Answer)
    } else if s == "ns"@ {
        Some(Key::Ns)
    } else if s == "extra"@ {
        Some(Key::Extra)
    } else if s == "prefer_go"@ {
        Some(Key::PreferGo)
    } else if s == "predefined"@ {
        Some(Key::Predefined)
    } else if s == "server_port"@ {
        Some(Key::ServerPort)
    } else if s == "tls"@ {
        Some(Key::Tls)
    } else if s == "interface"@ {
        Some(Key::Interface)
    } else if s == "inet4_range"@ {
        Some(Key::Inet4Range)
    } else if s == "inet6_range"@ {
        Some(Key::Inet6Range)
    } else if s == "endpoint"@ {
        Some(Key::Endpoint)
    } else if s == "accept_default_resolvers"@ {
        Some(Key::AcceptDefaultResolvers)
    } else if s == "service"@ {
        Some(Key::Service)
    } else if s == "inbound"@ {
        Some(Key::Inbound)
    } else if s == "ip_version"@ {
        Some(Key::IpVersion)
    } else if s == "query_type"@ {
        Some(Key::QueryType)
    } else if s == "auth_user"@ {
        Some(Key::AuthUser)
    } else if s == "domain"@ {
        Some(Key::Domain)
    } else if s == "domain_suffix"@ {
        Some(Key::DomainSuffix)
    } else if s == "domain_keyword"@ {
        Some(Key::DomainKeyword)
    } else if s == "domain_regex"@ {
        Some(Key::DomainRegex)
    } else if s == "source_ip_cidr"@ {
        Some(Key::SourceIpCidr)
    } else if s == "source_ip_is_private"@ {
        Some(Key::SourceIpIsPrivate)
    } else if s == "source_port"@ {
        Some(Key::SourcePort)
    } else if s == "source_port_range"@ {
        Some(Key::SourcePortRange)
    } else if s == "port"@ {
        Some(Key::Port)
    } else if s == "port_range"@ {
        Some(Key::PortRange)
    } else if s == "process_name"@ {
        Some(Key::ProcessName)
    } else if s == "process_path"@ {
        Some(Key::ProcessPath)
    } else if s == "process_path_regex"@ {
        Some(Key::ProcessPathRegex)
    } else if s == "package_name"@ {
        Some(Key::PackageName)
    } else if s == "user"@ {
        Some(Key::User)
    } else if s == "user_id"@ {
        Some(Key::UserId)
    } else if s == "clash_mode"@ {
        Some(Key::ClashMode)
    } else if s == "network_type"@ {
        Some(Key::NetworkType)
    } else if s == "network_is_expensive"@ {
        Some(Key::NetworkIsExpensive)
    } else if s == "network_is_constrained"@ {
        Some(Key::NetworkIsConstrained)
    } else if s == "interface_address"@ {
        Some(Key::InterfaceAddress)
    } else if s == "network_interface_address"@ {
        Some(Key::NetworkInterfaceAddress)
    } else if s == "default_interface_address"@ {
        Some(Key::DefaultInterfaceAddress)
    } else if s == "wifi_ssid"@ {
        Some(Key::WifiSsid)
    } else if s == "wifi_bssid"@ {
        Some(Key::WifiBssid)
    } else if s == "rule_set"@ {
        Some(Key::RuleSet)
    } else if s == "rule_set_ip_cidr_match_source"@ {
        Some(Key::RuleSetIpCidrMatchSource)
    } else if s == "invert"@ {
        Some(Key::Invert)
    } else if s == "ip_cidr"@ {
        Some(Key::IpCidr)
    } else if s == "ip_is_private"@ {
        Some(Key::IpIsPrivate)
    } else if s == "rule_set_ip_cidr_accept_empty"@ {
        Some(Key::RuleSetIpCidrAcceptEmpty)
    } else if s == "ip_accept_any"@ {
        Some(Key::IpAcceptAny)
    } else if s == "client"@ {
        Some(Key::Client)
    } else if s == "action"@ {
        Some(Key::Action)
    } else if s == "outbound"@ {
        Some(Key::Outbound)
    } else if s == "network_strategy"@ {
        Some(Key::NetworkStrategy)
    } else if s == "fallback_delay"@ {
        Some(Key::FallbackDelay)
    } else if s == "udp_disable_domain_unmapping"@ {
        Some(Key::UdpDisableDomainUnmapping)
    } else if s == "udp_connect"@ {
        Some(Key::UdpConnect)
    } else if s == "tls_fragment"@ {
        Some(Key::TlsFragment)
    } else if s == "tls_fragment_fallback_delay"@ {
        Some(Key::TlsFragmentFallbackDelay)
    } else if s == "tls_record_fragment"@ {
        Some(Key::TlsRecordFragment)
    } else if s == "sniffer"@ {
        Some(Key::Sniffer)
    } else if s == "timeout"@ {
        Some(Key::Timeout)
    } else if s == "rules"@ {
        Some(Key::Rules)
    } else if s == "format"@ {
        Some(Key::Format)
    } else if s == "url"@ {
        Some(Key::Url)
    } else if s == "download_detour"@ {
        Some(Key::DownloadDetour)
    } else if s == "update_interval"@ {
        Some(Key::UpdateInterval)
    } else if s == "uuid"@ {
        Some(Key::Uuid)
    } else if s == "flow"@ {
        Some(Key::Flow)
    } else if s == "multiplex"@ {
        Some(Key::Multiplex)
    } else if s == "packet_encoding"@ {
        Some(Key::PacketEncoding)
    } else if s == "transport"@ {
        Some(Key::Transport)
    } else if s == "outbounds"@ {
        Some(Key::Outbounds)
    } else if s == "inbounds"@ {
        Some(Key::Inbounds)
    } else if s == "servers"@ {
        Some(Key::Servers)
    } else if s == "final"@ {
        Some(Key::Final)
    } else if s == "disable_expire"@ {
        Some(Key::DisableExpire)
    } else if s == "independent_cache"@ {
        Some(Key::IndependentCache)
    } else if s == "cache_capacity"@ {
        Some(Key::CacheCapacity)
    } else if s == "reverse_mapping"@ {
        Some(Key::ReverseMapping)
    } else if s == "auto_detect_interface"@ {
        Some(Key::AutoDetectInterface)
    } else if s == "override_android_vpn"@ {
        Some(Key::OverrideAndroidVpn)
    } else if s == "default_interface"@ {
        Some(Key::DefaultInterface)
    } else if s == "default_mark"@ {
        Some(Key::DefaultMark)
    } else if s == "default_domain_resolver"@ {
        Some(Key::DefaultDomainResolver)
    } else if s == "default_network_strategy"@ {
        Some(Key::DefaultNetworkStrategy)
    } else if s == "default_network_type"@ {
        Some(Key::DefaultNetworkType)
    } else if s == "default_fallback_network_type"@ {
        Some(Key::DefaultFallbackNetworkType)
    } else if s == "default_fallback_delay"@ {
        Some(Key::DefaultFallbackDelay)
    } else if s == "dns"@ {
        Some(Key::Dns)
    } else if s == "route"@ {
        Some(Key::Route)
    } else if s == "current"@ {
        Some(Key::Current)
    } else if s == "unable_system_proxy"@ {
        Some(Key::UnableSystemProxy)
    } else if s == "mode"@ {
        Some(Key::Mode)
    } else {
        None
    }
}

/// How deep rules may stand within rules in a document that is read.
pub const MAX_NESTING: usize = 64;

/// Why a value could not be read back from its serializable form: a field
/// held a value of the wrong shape, or a required field was missing.
#[derive(Debug, Clone, Copy, PartialEq, Eq, Structural)]
pub struct SchemaMismatch;

impl DeepView for Key {
    type V = Key;

    open spec fn deep_view(&self) -> Key {
        *self
    }
}

/// A value in the serializable form of a document.
#[derive(Debug, PartialEq)]
pub enum Json {
    /// The JSON `null`.
    Null,
    /// A truth value.
    Bool(bool),
    /// A number without sign or fraction.
    Unsigned(u64),
    /// Any other number, as JSON writes it.
    Number(String),
    /// A text.
    Text(String),
    /// A list of values.
    List(Vec<Json>),
    /// An object under keys of any name, in the order in which it was
    /// written.
    Table(Vec<(String, Json)>),
    /// An object of the schema, under keys of the schema.
    Record(Vec<(Key, Json)>),
}

/// What a [`Json`] holds, with every text as its characters.
pub enum JsonView {
    Null,
    Bool(bool),
    Unsigned(u64),
    Number(Seq<char>),
    Text(Seq<char>),
    List(Seq<JsonView>),
    Table(Seq<(Seq<char>, JsonView)>),
    Record(Seq<(Key, JsonView)>),
}

/// The view of a value, through the values that it holds.
pub open spec fn json_view(j: Json) -> JsonView
    decreases j,
{
    match j {
        Json::Null => JsonView::Null,
        Json::Bool(b) => JsonView::Bool(b),
        Json::Unsigned(n) => JsonView::Unsigned(n),
        Json::Number(s) => JsonView::Number(s@),
        Json::Text(s) => JsonView::Text(s@),
        Json::List(v) => JsonView::List(
            Seq::new(
                v@.len(),
                |i: int|
                    if 0 <= i < v@.len() {
                        json_view(v@[i])
                    } else {
                        arbitrary()
                    },
            ),
        ),
        Json::Table(v) => JsonView::Table(
            Seq::new(
                v@.len(),
                |i: int|
                    if 0 <= i < v@.len() {
                        (v@[i].0@, json_view(v@[i].1))
                    } else {
                        arbitrary()
                    },
            ),
        ),
        Json::Record(v) => JsonView::Record(
            Seq::new(
                v@.len(),
                |i: int|
                    if 0 <= i < v@.len() {
                        (v@[i].0, json_view(v@[i].1))
                    } else {
                        arbitrary()
                    },
            ),
        ),
    }
}

impl DeepView for Json {
    type V = JsonView;

    open spec fn deep_view(&self) -> JsonView {
        json_view(*self)
    }
}

impl View for Json {
    type V = JsonView;

    open spec fn view(&self) -> JsonView {
        self.deep_view()
    }
}

/// The lists, tables and records of a value are viewed entry by entry.
pub proof fn lemma_json_view(j: Json)
    ensures
        j matches Json::List(v) ==> j@ == JsonView::List(v.deep_view()),
        j matches Json::Table(v) ==> j@ == JsonView::Table(v.deep_view()),
        j matches Json::Record(v) ==> j@ == JsonView::Record(v.deep_view()),
{
    match j {
        Json::List(v) => {
            assert(j@->List_0 =~= v.deep_view());
        },
        Json::Table(v) => {
            assert(j@->Table_0 =~= v.deep_view());
        },
        Json::Record(v) => {
            assert(j@->Record_0 =~= v.deep_view());
        },
        _ => {},
    }
}

/// The entries of a record: keys of the schema with their values, in order.
pub type Entries = Seq<(Key, JsonView)>;

/// The entries `es` with `value` under `key` at the end, where there is a
/// value: a field that is unset leaves no entry.
#[verifier::opaque]
pub open spec fn put(es: Entries, key: Key, value: Option<JsonView>) -> Entries {
    match value {
        Some(j) => es.push((key, j)),
        None => es,
    }
}

/// The value of the first entry under `key`, if there is one.
#[verifier::opaque]
pub open spec fn get(es: Entries, key: Key) -> Option<JsonView>
    decreases es.len(),
{
    if es.len() == 0 {
        None
    } else {
        match get(es.drop_last(), key) {
            Some(j) => Some(j),
            None => if es.last().0 == key {
                Some(es.last().1)
            } else {
                None
            },
        }
    }
}

/// The entries `es` followed by the entries `more`: the fields of a group
/// written among the fields of its owner.
#[verifier::opaque]
pub open spec fn merge(es: Entries, more: Entries) -> Entries {
    es + more
}

/// A value that stands for an unset field: none, or `null`.
pub open spec fn is_unset(j: Option<JsonView>) -> bool {
    j is None || j == Some(JsonView::Null)
}

/// No entries hold nothing.
pub broadcast proof fn lemma_get_empty(key: Key)
    ensures
        #[trigger] get(Seq::empty(), key) == None::<JsonView>,
{
    reveal_with_fuel(get, 2);
}

/// What is read after one more field was written: an earlier entry under
/// the key if there is one, else the new value where the key is its key.
pub broadcast proof fn lemma_get_put(es: Entries, k: Key, v: Option<JsonView>, key: Key)
    ensures
        #[trigger] get(put(es, k, v), key) == match get(es, key) {
            Some(j) => Some(j),
            None => if k == key {
                v
            } else {
                None
            },
        },
{
    reveal(put);
    reveal_with_fuel(get, 2);
    match v {
        Some(j) => {
            assert(es.push((k, j)).drop_last() =~= es);
        },
        None => {},
    }
}

/// What is read after a group was written: an earlier entry under the key
/// if there is one, else what the group holds.
pub broadcast proof fn lemma_get_merge(es: Entries, more: Entries, key: Key)
    ensures
        #[trigger] get(merge(es, more), key) == match get(es, key) {
            Some(j) => Some(j),
            None => get(more, key),
        },
    decreases more.len(),
{
    reveal(merge);
    reveal_with_fuel(get, 2);
    if more.len() == 0 {
        assert(es + more =~= es);
    } else {
        assert((es + more).drop_last() =~= es + more.drop_last());
        lemma_get_merge(es, more.drop_last(), key);
    }
}

/// Writes a field at the end of the entries, as `put` says.
pub fn put_field(es: &mut Vec<(Key, Json)>, key: Key, value: Option<Json>)
    ensures
        final(es).deep_view() == put(old(es).deep_view(), key, value.deep_view()),
{
    reveal(put);
    let ghost before = es.deep_view();
    match value {
        Some(j) => {
            es.push((key, j));
            assert(es.deep_view() =~= before.push((key, j@)));
        },
        None => {},
    }
}

/// Writes the fields of a group at the end of the entries, as `merge` says.
pub fn put_group(es: &mut Vec<(Key, Json)>, more: Vec<(Key, Json)>)
    ensures
        final(es).deep_view() == merge(old(es).deep_view(), more.deep_view()),
{
    reveal(merge);
    let ghost before = es.deep_view();
    let ghost added = more.deep_view();
    let mut more = more;
    es.append(&mut more);
    assert(es.deep_view() =~= before + added);
}

/// The value of the first entry under `key`, if there is one.
pub fn get_field<'a>(es: &Vec<(Key, &'a Json)>, key: Key) -> (r: Option<&'a Json>)
    ensures
        r.deep_view() == get(es.deep_view(), key),
{
    let ghost all = es.deep_view();
    let mut i: usize = 0;
    proof {
        assert(all.take(0) =~= Seq::<(Key, JsonView)>::empty());
        lemma_get_empty(key);
    }
    while i < es.len()
        invariant
            i <= es.len(),
            all == es.deep_view(),
            get(all.take(i as int), key) is None,
        decreases es.len() - i,
    {
        proof {
            reveal_with_fuel(get, 2);
            assert(all.take(i + 1).drop_last() =~= all.take(i as int));
            assert(all.take(i + 1).last() == all[i as int]);
            assert(all[i as int] == (es@[i as int].0, es@[i as int].1.deep_view()));
        }
        if es[i].0 == key {
            proof {
                lemma_get_prefix(all, i + 1, key);
            }
            return Some(es[i].1);
        }
        i += 1;
    }
    proof {
        assert(all.take(i as int) =~= all);
    }
    None
}

/// What a beginning of the entries holds under a key, all the entries hold.
pub proof fn lemma_get_prefix(es: Entries, n: int, key: Key)
    requires
        0 <= n <= es.len(),
        get(es.take(n), key) is Some,
    ensures
        get(es, key) == get(es.take(n), key),
{
    reveal(merge);
    assert(merge(es.take(n), es.skip(n)) =~= es);
    lemma_get_merge(es.take(n), es.skip(n), key);
}

/// The entries of a record, borrowed for reading.
pub fn borrow_entries<'a>(es: &'a Vec<(Key, Json)>) -> (r: Vec<(Key, &'a Json)>)
    ensures
        r.deep_view() == es.deep_view(),
{
    let mut out: Vec<(Key, &'a Json)> = Vec::new();
    let mut i: usize = 0;
    while i < es.len()
        invariant
            i <= es.len(),
            out.deep_view() == es.deep_view().take(i as int),
        decreases es.len() - i,
    {
        let ghost before = out.deep_view();
        out.push((es[i].0, &es[i].1));
        proof {
            assert(out.deep_view() =~= before.push((es@[i as int].0, es@[i as int].1@)));
            assert(es.deep_view().take(i + 1) =~= es.deep_view().take(i as int).push(
                es.deep_view()[i as int],
            ));
        }
        i += 1;
    }
    proof {
        assert(es.deep_view().take(i as int) =~= es.deep_view());
    }
    out
}

/// The entries of a table that stand under keys of the schema, each under
/// its key; the others are left out.
pub open spec fn interned(t: Seq<(Seq<char>, JsonView)>) -> Entries
    decreases t.len(),
{
    if t.len() == 0 {
        Seq::empty()
    } else {
        match key_named(t.last().0) {
            Some(key) => interned(t.drop_last()).push((key, t.last().1)),
            None => interned(t.drop_last()),
        }
    }
}

/// The entries of a table under the keys of the schema, as `interned` says.
pub fn intern<'a>(t: &'a Vec<(String, Json)>) -> (r: Vec<(Key, &'a Json)>)
    ensures
        r.deep_view() == interned(t.deep_view()),
{
    let mut out: Vec<(Key, &'a Json)> = Vec::new();
    let mut i: usize = 0;
    let ghost all = t.deep_view();
    assert(all.take(0) =~= Seq::<(Seq<char>, JsonView)>::empty());
    while i < t.len()
        invariant
            i <= t.len(),
            all == t.deep_view(),
            out.deep_view() == interned(all.take(i as int)),
        decreases t.len() - i,
    {
        let ghost before = out.deep_view();
        proof {
            assert(all.take(i + 1).drop_last() =~= all.take(i as int));
            assert(all.take(i + 1).last() == all[i as int]);
            assert(all[i as int] == (t@[i as int].0@, t@[i as int].1@));
        }
        match Key::named(t[i].0.as_str()) {
            Some(key) => {
                out.push((key, &t[i].1));
                assert(out.deep_view() =~= before.push((key, t@[i as int].1@)));
            },
            None => {},
        }
        i += 1;
    }
    proof {
        assert(all.take(i as int) =~= all);
    }
    out
}

/// The entries that an object of the schema holds: those of a record, or
/// those of a table under the keys of the schema. None for any other value.
pub open spec fn entries_of(j: JsonView) -> Option<Entries> {
    match j {
        JsonView::Record(es) => Some(es),
        JsonView::Table(t) => Some(interned(t)),
        _ => None,
    }
}

/// The entries that an object of the schema holds, as `entries_of` says.
pub fn read_entries<'a>(j: &'a Json) -> (r: Result<Vec<(Key, &'a Json)>, SchemaMismatch>)
    ensures
        match r {
            Ok(es) => entries_of(j@) == Some(es.deep_view()),
            Err(_) => entries_of(j@) is None,
        },
{
    proof {
        lemma_json_view(*j);
    }
    match j {
        Json::Record(es) => Ok(borrow_entries(es)),
        Json::Table(t) => Ok(intern(t)),
        _ => Err(SchemaMismatch),
    }
}

/// The value that stands for a truth value.
pub open spec fn bool_json(b: bool) -> JsonView {
    JsonView::Bool(b)
}

/// The truth value that a value stands for, if it stands for one.
pub open spec fn json_bool(j: JsonView) -> Option<bool> {
    match j {
        JsonView::Bool(b) => Some(b),
        _ => None,
    }
}

/// The value that stands for a number of 8 bits.
pub open spec fn u8_json(n: u8) -> JsonView {
    JsonView::Unsigned(n as u64)
}

/// The number of 8 bits that a value stands for, if it stands for one.
pub open spec fn json_u8(j: JsonView) -> Option<u8> {
    match j {
        JsonView::Unsigned(n) => if n <= u8::MAX {
            Some(n as u8)
        } else {
            None
        },
        _ => None,
    }
}

/// The value that stands for a number of 16 bits.
pub open spec fn u16_json(n: u16) -> JsonView {
    JsonView::Unsigned(n as u64)
}

/// The number of 16 bits that a value stands for, if it stands for one.
pub open spec fn json_u16(j: JsonView) -> Option<u16> {
    match j {
        JsonView::Unsigned(n) => if n <= u16::MAX {
            Some(n as u16)
        } else {
            None
        },
        _ => None,
    }
}

/// The value that stands for a number of 32 bits.
pub open spec fn u32_json(n: u32) -> JsonView {
    JsonView::Unsigned(n as u64)
}

/// The number of 32 bits that a value stands for, if it stands for one.
pub open spec fn json_u32(j: JsonView) -> Option<u32> {
    match j {
        JsonView::Unsigned(n) => if n <= u32::MAX {
            Some(n as u32)
        } else {
            None
        },
        _ => None,
    }
}

/// What a field holds that may be unset: its value as a value of the tree,
/// or nothing.
pub open spec fn present<T>(field: Option<T>, enc: spec_fn(T) -> JsonView) -> Option<JsonView> {
    match field {
        Some(x) => Some(enc(x)),
        None => None,
    }
}

/// What is read of a field that may be unset: nothing where the object has
/// no entry for it or holds `null`, else the value that the entry stands
/// for. Fails where the entry stands for no value of the field's type.
pub open spec fn optional<T>(j: Option<JsonView>, dec: spec_fn(JsonView) -> Option<T>) -> Option<
    Option<T>,
> {
    match j {
        None => Some(None),
        Some(JsonView::Null) => Some(None),
        Some(x) => match dec(x) {
            Some(v) => Some(Some(v)),
            None => None,
        },
    }
}

/// What is read of a field that must be set. Fails where the object has no
/// entry for it, or the entry stands for no value of the field's type.
pub open spec fn required<T>(j: Option<JsonView>, dec: spec_fn(JsonView) -> Option<T>) -> Option<T> {
    match j {
        None => None,
        Some(x) => dec(x),
    }
}

/// The value that stands for a text.
pub open spec fn text_json(s: Seq<char>) -> JsonView {
    JsonView::Text(s)
}

/// The text that a value stands for, if it stands for one.
pub open spec fn json_text(j: JsonView) -> Option<Seq<char>> {
    match j {
        JsonView::Text(s) => Some(s),
        _ => None,
    }
}

/// Reads a truth value, as `json_bool` says.
pub fn read_bool(j: &Json) -> (r: Result<bool, SchemaMismatch>)
    ensures
        match r {
            Ok(b) => json_bool(j@) == Some(b),
            Err(_) => json_bool(j@) is None,
        },
{
    match j {
        Json::Bool(b) => Ok(*b),
        _ => Err(SchemaMismatch),
    }
}

/// Reads a number of 8 bits, as `json_u8` says.
pub fn read_u8(j: &Json) -> (r: Result<u8, SchemaMismatch>)
    ensures
        match r {
            Ok(n) => json_u8(j@) == Some(n),
            Err(_) => json_u8(j@) is None,
        },
{
    match j {
        Json::Unsigned(n) => if *n <= 0xff {
            Ok(*n as u8)
        } else {
            Err(SchemaMismatch)
        },
        _ => Err(SchemaMismatch),
    }
}

/// Reads a number of 16 bits, as `json_u16` says.
pub fn read_u16(j: &Json) -> (r: Result<u16, SchemaMismatch>)
    ensures
        match r {
            Ok(n) => json_u16(j@) == Some(n),
            Err(_) => json_u16(j@) is None,
        },
{
    match j {
        Json::Unsigned(n) => if *n <= 0xffff {
            Ok(*n as u16)
        } else {
            Err(SchemaMismatch)
        },
        _ => Err(SchemaMismatch),
    }
}

/// Reads a number of 32 bits, as `json_u32` says.
pub fn read_u32(j: &Json) -> (r: Result<u32, SchemaMismatch>)
    ensures
        match r {
            Ok(n) => json_u32(j@) == Some(n),
            Err(_) => json_u32(j@) is None,
        },
{
    match j {
        Json::Unsigned(n) => if *n <= 0xffff_ffff {
            Ok(*n as u32)
        } else {
            Err(SchemaMismatch)
        },
        _ => Err(SchemaMismatch),
    }
}

/// Reads a text, as `json_text` says.
pub fn read_text(j: &Json) -> (r: Result<String, SchemaMismatch>)
    ensures
        match r {
            Ok(s) => json_text(j@) == Some(s@),
            Err(_) => json_text(j@) is None,
        },
{
    match j {
        Json::Text(s) => Ok(s.clone()),
        _ => Err(SchemaMismatch),
    }
}

/// Whether a value is `null`.
pub fn is_null(j: &Json) -> (r: bool)
    ensures
        r == (j@ == JsonView::Null),
{
    match j {
        Json::Null => true,
        _ => false,
    }
}

impl Json {
    /// A copy of the value.
    pub fn duplicate(&self) -> (r: Json)
        ensures
            r@ == self@,
        decreases self,
    {
        proof {
            lemma_json_view(*self);
        }
        match self {
            Json::Null => Json::Null,
            Json::Bool(b) => Json::Bool(*b),
            Json::Unsigned(n) => Json::Unsigned(*n),
            Json::Number(s) => Json::Number(s.clone()),
            Json::Text(s) => Json::Text(s.clone()),
            Json::List(v) => {
                let mut out: Vec<Json> = Vec::new();
                let mut i: usize = 0;
                while i < v.len()
                    invariant
                        i <= v.len(),
                        *self == Json::List(*v),
                        decreases_to!(*self => *v),
                        out.deep_view() == v.deep_view().take(i as int),
                    decreases v.len() - i,
                {
                    let ghost before = out.deep_view();
                    proof {
                        vstd::std_specs::vec::axiom_vec_index_decreases(*v, i as int);
                    }
                    let item = v[i].duplicate();
                    out.push(item);
                    proof {
                        assert(out.deep_view() =~= before.push(v@[i as int]@));
                        assert(v.deep_view().take(i + 1) =~= v.deep_view().take(i as int).push(
                            v.deep_view()[i as int],
                        ));
                    }
                    i += 1;
                }
                let r = Json::List(out);
                proof {
                    assert(v.deep_view().take(i as int) =~= v.deep_view());
                    lemma_json_view(r);
                }
                r
            },
            Json::Table(v) => {
                let mut out: Vec<(String, Json)> = Vec::new();
                let mut i: usize = 0;
                while i < v.len()
                    invariant
                        i <= v.len(),
                        *self == Json::Table(*v),
                        decreases_to!(*self => *v),
                        out.deep_view() == v.deep_view().take(i as int),
                    decreases v.len() - i,
                {
                    let ghost before = out.deep_view();
                    proof {
                        vstd::std_specs::vec::axiom_vec_index_decreases(*v, i as int);
                    }
                    let item = v[i].1.duplicate();
                    out.push((v[i].0.clone(), item));
                    proof {
                        assert(out.deep_view() =~= before.push((v@[i as int].0@, v@[i as int].1@)));
                        assert(v.deep_view().take(i + 1) =~= v.deep_view().take(i as int).push(
                            v.deep_view()[i as int],
                        ));
                    }
                    i += 1;
                }
                let r = Json::Table(out);
                proof {
                    assert(v.deep_view().take(i as int) =~= v.deep_view());
                    lemma_json_view(r);
                }
                r
            },
            Json::Record(v) => {
                let mut out: Vec<(Key, Json)> = Vec::new();
                let mut i: usize = 0;
                while i < v.len()
                    invariant
                        i <= v.len(),
                        *self == Json::Record(*v),
                        decreases_to!(*self => *v),
                        out.deep_view() == v.deep_view().take(i as int),
                    decreases v.len() - i,
                {
                    let ghost before = out.deep_view();
                    proof {
                        vstd::std_specs::vec::axiom_vec_index_decreases(*v, i as int);
                    }
                    let item = v[i].1.duplicate();
                    out.push((v[i].0, item));
                    proof {
                        assert(out.deep_view() =~= before.push((v@[i as int].0, v@[i as int].1@)));
                        assert(v.deep_view().take(i + 1) =~= v.deep_view().take(i as int).push(
                            v.deep_view()[i as int],
                        ));
                    }
                    i += 1;
                }
                let r = Json::Record(out);
                proof {
                    assert(v.deep_view().take(i as int) =~= v.deep_view());
                    lemma_json_view(r);
                }
                r
            },
        }
    }
}

impl Clone for Json {
    /// A copy of the value.
    fn clone(&self) -> (r: Json)
        ensures
            r@ == self@,
    {
        self.duplicate()
    }
}

/// No entries.
pub fn no_entries() -> (r: Vec<(Key, Json)>)
    ensures
        r.deep_view() == Seq::<(Key, JsonView)>::empty(),
{
    let r: Vec<(Key, Json)> = Vec::new();
    assert(r.deep_view() =~= Seq::<(Key, JsonView)>::empty());
    r
}

/// Reads a value of any shape: a copy of it.
pub fn copy_json(j: &Json) -> (r: Result<Json, SchemaMismatch>)
    ensures
        r matches Ok(x) && x@ == j@,
{
    Ok(j.duplicate())
}

/// Whether the entries hold a value other than `null` under `key`.
pub fn is_set(es: &Vec<(Key, &Json)>, key: Key) -> (r: bool)
    ensures
        r == !is_unset(get(es.deep_view(), key)),
{
    match get_field(es, key) {
        Some(j) => !is_null(j),
        None => false,
    }
}

/// The table that stands for texts by name.
#[verifier::opaque]
pub open spec fn text_table_json(s: Seq<(Seq<char>, Seq<char>)>) -> JsonView {
    JsonView::Table(Seq::new(s.len(), |i: int| (s[i].0, text_json(s[i].1))))
}

/// The texts by name that a table stands for, if each of its values stands
/// for one.
#[verifier::opaque]
pub open spec fn json_text_table(j: JsonView) -> Option<Seq<(Seq<char>, Seq<char>)>> {
    match j {
        JsonView::Table(js) => if forall|i: int|
            0 <= i < js.len() ==> (#[trigger] json_text(js[i].1)) is Some {
            Some(Seq::new(js.len(), |i: int| (js[i].0, json_text(js[i].1)->0)))
        } else {
            None
        },
        _ => None,
    }
}

/// Texts by name are read back from the table that stands for them.
pub proof fn lemma_text_table(s: Seq<(Seq<char>, Seq<char>)>)
    ensures
        json_text_table(text_table_json(s)) == Some(s),
        text_table_json(s) is Table,
{
    reveal(text_table_json);
    reveal(json_text_table);
    let js = text_table_json(s)->Table_0;
    assert forall|i: int| 0 <= i < js.len() implies (#[trigger] json_text(js[i].1)) == Some(s[i].1) by {
    }
    assert(Seq::new(js.len(), |i: int| (js[i].0, json_text(js[i].1)->0)) =~= s);
}

/// Writes texts by name, as `text_table_json` says.
pub fn write_text_table(v: &Vec<(String, String)>) -> (r: Json)
    ensures
        r@ == text_table_json(v.deep_view()),
{
    reveal(text_table_json);
    let mut out: Vec<(String, Json)> = Vec::new();
    let mut i: usize = 0;
    let ghost s = v.deep_view();
    while i < v.len()
        invariant
            i <= v.len(),
            s == v.deep_view(),
            out.deep_view() == Seq::new(i as nat, |k: int| (s[k].0, text_json(s[k].1))),
        decreases v.len() - i,
    {
        let ghost before = out.deep_view();
        let elem = &v[i].1;
        let item = Json::Text(elem.clone());
        let name = v[i].0.clone();
        out.push((name, item));
        proof {
            assert(s[i as int] == (v@[i as int].0@, v@[i as int].1.deep_view()));
            assert(out.deep_view() =~= before.push((name@, item@)));
            assert(before.push((name@, item@)) =~= Seq::new(
                (i + 1) as nat,
                |k: int| (s[k].0, text_json(s[k].1)),
            ));
        }
        i += 1;
    }
    let r = Json::Table(out);
    proof {
        lemma_json_view(r);
        assert(out.deep_view() =~= Seq::new(s.len(), |k: int| (s[k].0, text_json(s[k].1))));
    }
    r
}

/// Reads texts by name, as `json_text_table` says.
pub fn read_text_table(j: &Json) -> (r: Result<Vec<(String, String)>, SchemaMismatch>)
    ensures
        match r {
            Ok(v) => json_text_table(j@) == Some(v.deep_view()),
            Err(_) => json_text_table(j@) is None,
        },
{
    reveal(json_text_table);
    proof {
        lemma_json_view(*j);
    }
    match j {
        Json::Table(js) => {
            let mut out: Vec<(String, String)> = Vec::new();
            let mut i: usize = 0;
            let ghost all = js.deep_view();
            while i < js.len()
                invariant
                    i <= js.len(),
                    all == js.deep_view(),
                    j@ == JsonView::Table(all),
                    forall|k: int| 0 <= k < i ==> (#[trigger] json_text(all[k].1)) is Some,
                    out.deep_view() == Seq::new(i as nat, |k: int| (all[k].0, json_text(all[k].1)->0)),
                decreases js.len() - i,
            {
                let ghost before = out.deep_view();
                proof {
                    assert(all[i as int] == (js@[i as int].0@, js@[i as int].1@));
                }
                let value = &js[i].1;
                match read_text(value) {
                    Ok(x) => {
                        let name = js[i].0.clone();
                        out.push((name, x));
                        proof {
                            assert(out.deep_view() =~= before.push((name@, x.deep_view())));
                            assert(before.push((name@, x.deep_view())) =~= Seq::new(
                                (i + 1) as nat,
                                |k: int| (all[k].0, json_text(all[k].1)->0),
                            ));
                        }
                    },
                    Err(e) => {
                        reveal(json_text_table);
                        assert(json_text(all[i as int].1) is None);
                        return Err(e);
                    },
                }
                i += 1;
            }
            proof {
                assert(out.deep_view() =~= Seq::new(
                    all.len(),
                    |k: int| (all[k].0, json_text(all[k].1)->0),
                ));
            }
            Ok(out)
        },
        _ => Err(SchemaMismatch),
    }
}

/// The list that stands for a sequence of texts.
#[verifier::opaque]
pub open spec fn text_list_json(s: Seq<Seq<char>>) -> JsonView {
    JsonView::List(Seq::new(s.len(), |i: int| text_json(s[i])))
}

/// The sequence of texts that a list stands for, if each of its values
/// stands for one.
#[verifier::opaque]
pub open spec fn json_text_list(j: JsonView) -> Option<Seq<Seq<char>>> {
    match j {
        JsonView::List(js) => if forall|i: int|
            0 <= i < js.len() ==> (#[trigger] json_text(js[i])) is Some {
            Some(Seq::new(js.len(), |i: int| json_text(js[i])->0))
        } else {
            None
        },
        _ => None,
    }
}

/// A sequence of texts is read back from the list that stands for it.
pub proof fn lemma_text_list(s: Seq<Seq<char>>)
    ensures
        json_text_list(text_list_json(s)) == Some(s),
        text_list_json(s) is List,
{
    reveal(text_list_json);
    reveal(json_text_list);
    let js = text_list_json(s)->List_0;
    assert forall|i: int| 0 <= i < js.len() implies (#[trigger] json_text(js[i])) == Some(s[i]) by {
    }
    assert(Seq::new(js.len(), |i: int| json_text(js[i])->0) =~= s);
}

/// Writes a sequence of texts, as `text_list_json` says.
pub fn write_text_list(v: &Vec<String>) -> (r: Json)
    ensures
        r@ == text_list_json(v.deep_view()),
{
    reveal(text_list_json);
    let mut out: Vec<Json> = Vec::new();
    let mut i: usize = 0;
    let ghost s = v.deep_view();
    while i < v.len()
        invariant
            i <= v.len(),
            s == v.deep_view(),
            out.deep_view() == Seq::new(i as nat, |k: int| text_json(s[k])),
        decreases v.len() - i,
    {
        let ghost before = out.deep_view();
        let elem = &v[i];
        let item = Json::Text(elem.clone());
        out.push(item);
        proof {
            assert(s[i as int] == v@[i as int].deep_view());
            assert(out.deep_view() =~= before.push(item@));
            assert(before.push(item@) =~= Seq::new((i + 1) as nat, |k: int| text_json(s[k])));
        }
        i += 1;
    }
    let r = Json::List(out);
    proof {
        lemma_json_view(r);
        assert(out.deep_view() =~= Seq::new(s.len(), |k: int| text_json(s[k])));
    }
    r
}

/// Reads a sequence of texts, as `json_text_list` says.
pub fn read_text_list(j: &Json) -> (r: Result<Vec<String>, SchemaMismatch>)
    ensures
        match r {
            Ok(v) => json_text_list(j@) == Some(v.deep_view()),
            Err(_) => json_text_list(j@) is None,
        },
{
    reveal(json_text_list);
    proof {
        lemma_json_view(*j);
    }
    match j {
        Json::List(js) => {
            let mut out: Vec<String> = Vec::new();
            let mut i: usize = 0;
            let ghost all = js.deep_view();
            while i < js.len()
                invariant
                    i <= js.len(),
                    all == js.deep_view(),
                    j@ == JsonView::List(all),
                    forall|k: int| 0 <= k < i ==> (#[trigger] json_text(all[k])) is Some,
                    out.deep_view() == Seq::new(i as nat, |k: int| json_text(all[k])->0),
                decreases js.len() - i,
            {
                let ghost before = out.deep_view();
                proof {
                    assert(all[i as int] == js@[i as int]@);
                }
                let value = &js[i];
                match read_text(value) {
                    Ok(x) => {
                        out.push(x);
                        proof {
                            assert(out.deep_view() =~= before.push(x.deep_view()));
                            assert(before.push(x.deep_view()) =~= Seq::new(
                                (i + 1) as nat,
                                |k: int| json_text(all[k])->0,
                            ));
                        }
                    },
                    Err(e) => {
                        reveal(json_text_list);
                        assert(json_text(all[i as int]) is None);
                        return Err(e);
                    },
                }
                i += 1;
            }
            proof {
                assert(out.deep_view() =~= Seq::new(all.len(), |k: int| json_text(all[k])->0));
            }
            Ok(out)
        },
        _ => Err(SchemaMismatch),
    }
}

/// The table that stands for lists of texts by name.
#[verifier::opaque]
pub open spec fn text_list_table_json(s: Seq<(Seq<char>, Seq<Seq<char>>)>) -> JsonView {
    JsonView::Table(Seq::new(s.len(), |i: int| (s[i].0, text_list_json(s[i].1))))
}

/// The lists of texts by name that a table stands for, if each of its values stands
/// for one.
#[verifier::opaque]
pub open spec fn json_text_list_table(j: JsonView) -> Option<Seq<(Seq<char>, Seq<Seq<char>>)>> {
    match j {
        JsonView::Table(js) => if forall|i: int|
            0 <= i < js.len() ==> (#[trigger] json_text_list(js[i].1)) is Some {
            Some(Seq::new(js.len(), |i: int| (js[i].0, json_text_list(js[i].1)->0)))
        } else {
            None
        },
        _ => None,
    }
}

/// Only a table is read as lists of texts by name.
pub proof fn lemma_text_list_table_shape(j: JsonView)
    ensures
        json_text_list_table(j) is Some ==> j is Table,
{
    reveal(json_text_list_table);
}

/// Lists of texts by name are read back from the table that stands for them.
pub proof fn lemma_text_list_table(s: Seq<(Seq<char>, Seq<Seq<char>>)>)
    ensures
        json_text_list_table(text_list_table_json(s)) == Some(s),
        text_list_table_json(s) is Table,
{
    reveal(text_list_table_json);
    reveal(json_text_list_table);
    let js = text_list_table_json(s)->Table_0;
    assert forall|i: int| 0 <= i < js.len() implies (#[trigger] json_text_list(js[i].1)) == Some(s[i].1) by {
        lemma_text_list(s[i].1);
    }
    assert(Seq::new(js.len(), |i: int| (js[i].0, json_text_list(js[i].1)->0)) =~= s);
}

/// Writes lists of texts by name, as `text_list_table_json` says.
pub fn write_text_list_table(v: &Vec<(String, Vec<String>)>) -> (r: Json)
    ensures
        r@ == text_list_table_json(v.deep_view()),
{
    reveal(text_list_table_json);
    let mut out: Vec<(String, Json)> = Vec::new();
    let mut i: usize = 0;
    let ghost s = v.deep_view();
    while i < v.len()
        invariant
            i <= v.len(),
            s == v.deep_view(),
            out.deep_view() == Seq::new(i as nat, |k: int| (s[k].0, text_list_json(s[k].1))),
        decreases v.len() - i,
    {
        let ghost before = out.deep_view();
        let elem = &v[i].1;
        let item = write_text_list(elem);
        let name = v[i].0.clone();
        out.push((name, item));
        proof {
            assert(s[i as int] == (v@[i as int].0@, v@[i as int].1.deep_view()));
            assert(out.deep_view() =~= before.push((name@, item@)));
            assert(before.push((name@, item@)) =~= Seq::new(
                (i + 1) as nat,
                |k: int| (s[k].0, text_list_json(s[k].1)),
            ));
        }
        i += 1;
    }
    let r = Json::Table(out);
    proof {
        lemma_json_view(r);
        assert(out.deep_view() =~= Seq::new(s.len(), |k: int| (s[k].0, text_list_json(s[k].1))));
    }
    r
}

/// Reads lists of texts by name, as `json_text_list_table` says.
pub fn read_text_list_table(j: &Json) -> (r: Result<Vec<(String, Vec<String>)>, SchemaMismatch>)
    ensures
        match r {
            Ok(v) => json_text_list_table(j@) == Some(v.deep_view()),
            Err(_) => json_text_list_table(j@) is None,
        },
{
    reveal(json_text_list_table);
    proof {
        lemma_json_view(*j);
    }
    match j {
        Json::Table(js) => {
            let mut out: Vec<(String, Vec<String>)> = Vec::new();
            let mut i: usize = 0;
            let ghost all = js.deep_view();
            while i < js.len()
                invariant
                    i <= js.len(),
                    all == js.deep_view(),
                    j@ == JsonView::Table(all),
                    forall|k: int| 0 <= k < i ==> (#[trigger] json_text_list(all[k].1)) is Some,
                    out.deep_view() == Seq::new(i as nat, |k: int| (all[k].0, json_text_list(all[k].1)->0)),
                decreases js.len() - i,
            {
                let ghost before = out.deep_view();
                proof {
                    assert(all[i as int] == (js@[i as int].0@, js@[i as int].1@));
                }
                let value = &js[i].1;
                match read_text_list(value) {
                    Ok(x) => {
                        let name = js[i].0.clone();
                        out.push((name, x));
                        proof {
                            assert(out.deep_view() =~= before.push((name@, x.deep_view())));
                            assert(before.push((name@, x.deep_view())) =~= Seq::new(
                                (i + 1) as nat,
                                |k: int| (all[k].0, json_text_list(all[k].1)->0),
                            ));
                        }
                    },
                    Err(e) => {
                        reveal(json_text_list_table);
                        assert(json_text_list(all[i as int].1) is None);
                        return Err(e);
                    },
                }
                i += 1;
            }
            proof {
                assert(out.deep_view() =~= Seq::new(
                    all.len(),
                    |k: int| (all[k].0, json_text_list(all[k].1)->0),
                ));
            }
            Ok(out)
        },
        _ => Err(SchemaMismatch),
    }
}

/// The list that stands for a sequence of numbers.
#[verifier::opaque]
pub open spec fn u16_list_json(s: Seq<u16>) -> JsonView {
    JsonView::List(Seq::new(s.len(), |i: int| u16_json(s[i])))
}

/// The sequence of numbers that a list stands for, if each of its values
/// stands for one.
#[verifier::opaque]
pub open spec fn json_u16_list(j: JsonView) -> Option<Seq<u16>> {
    match j {
        JsonView::List(js) => if forall|i: int|
            0 <= i < js.len() ==> (#[trigger] json_u16(js[i])) is Some {
            Some(Seq::new(js.len(), |i: int| json_u16(js[i])->0))
        } else {
            None
        },
        _ => None,
    }
}

/// A sequence of numbers is read back from the list that stands for it.
pub proof fn lemma_u16_list(s: Seq<u16>)
    ensures
        json_u16_list(u16_list_json(s)) == Some(s),
        u16_list_json(s) is List,
{
    reveal(u16_list_json);
    reveal(json_u16_list);
    let js = u16_list_json(s)->List_0;
    assert forall|i: int| 0 <= i < js.len() implies (#[trigger] json_u16(js[i])) == Some(s[i]) by {
    }
    assert(Seq::new(js.len(), |i: int| json_u16(js[i])->0) =~= s);
}

/// Writes a sequence of numbers, as `u16_list_json` says.
pub fn write_u16_list(v: &Vec<u16>) -> (r: Json)
    ensures
        r@ == u16_list_json(v.deep_view()),
{
    reveal(u16_list_json);
    let mut out: Vec<Json> = Vec::new();
    let mut i: usize = 0;
    let ghost s = v.deep_view();
    while i < v.len()
        invariant
            i <= v.len(),
            s == v.deep_view(),
            out.deep_view() == Seq::new(i as nat, |k: int| u16_json(s[k])),
        decreases v.len() - i,
    {
        let ghost before = out.deep_view();
        let elem = &v[i];
        let item = Json::Unsigned(*elem as u64);
        out.push(item);
        proof {
            assert(s[i as int] == v@[i as int].deep_view());
            assert(out.deep_view() =~= before.push(item@));
            assert(before.push(item@) =~= Seq::new((i + 1) as nat, |k: int| u16_json(s[k])));
        }
        i += 1;
    }
    let r = Json::List(out);
    proof {
        lemma_json_view(r);
        assert(out.deep_view() =~= Seq::new(s.len(), |k: int| u16_json(s[k])));
    }
    r
}

/// Reads a sequence of numbers, as `json_u16_list` says.
pub fn read_u16_list(j: &Json) -> (r: Result<Vec<u16>, SchemaMismatch>)
    ensures
        match r {
            Ok(v) => json_u16_list(j@) == Some(v.deep_view()),
            Err(_) => json_u16_list(j@) is None,
        },
{
    reveal(json_u16_list);
    proof {
        lemma_json_view(*j);
    }
    match j {
        Json::List(js) => {
            let mut out: Vec<u16> = Vec::new();
            let mut i: usize = 0;
            let ghost all = js.deep_view();
            while i < js.len()
                invariant
                    i <= js.len(),
                    all == js.deep_view(),
                    j@ == JsonView::List(all),
                    forall|k: int| 0 <= k < i ==> (#[trigger] json_u16(all[k])) is Some,
                    out.deep_view() == Seq::new(i as nat, |k: int| json_u16(all[k])->0),
                decreases js.len() - i,
            {
                let ghost before = out.deep_view();
                proof {
                    assert(all[i as int] == js@[i as int]@);
                }
                let value = &js[i];
                match read_u16(value) {
                    Ok(x) => {
                        out.push(x);
                        proof {
                            assert(out.deep_view() =~= before.push(x.deep_view()));
                            assert(before.push(x.deep_view()) =~= Seq::new(
                                (i + 1) as nat,
                                |k: int| json_u16(all[k])->0,
                            ));
                        }
                    },
                    Err(e) => {
                        reveal(json_u16_list);
                        assert(json_u16(all[i as int]) is None);
                        return Err(e);
                    },
                }
                i += 1;
            }
            proof {
                assert(out.deep_view() =~= Seq::new(all.len(), |k: int| json_u16(all[k])->0));
            }
            Ok(out)
        },
        _ => Err(SchemaMismatch),
    }
}

/// The list that stands for a sequence of numbers.
#[verifier::opaque]
pub open spec fn u32_list_json(s: Seq<u32>) -> JsonView {
    JsonView::List(Seq::new(s.len(), |i: int| u32_json(s[i])))
}

/// The sequence of numbers that a list stands for, if each of its values
/// stands for one.
#[verifier::opaque]
pub open spec fn json_u32_list(j: JsonView) -> Option<Seq<u32>> {
    match j {
        JsonView::List(js) => if forall|i: int|
            0 <= i < js.len() ==> (#[trigger] json_u32(js[i])) is Some {
            Some(Seq::new(js.len(), |i: int| json_u32(js[i])->0))
        } else {
            None
        },
        _ => None,
    }
}

/// A sequence of numbers is read back from the list that stands for it.
pub proof fn lemma_u32_list(s: Seq<u32>)
    ensures
        json_u32_list(u32_list_json(s)) == Some(s),
        u32_list_json(s) is List,
{
    reveal(u32_list_json);
    reveal(json_u32_list);
    let js = u32_list_json(s)->List_0;
    assert forall|i: int| 0 <= i < js.len() implies (#[trigger] json_u32(js[i])) == Some(s[i]) by {
    }
    assert(Seq::new(js.len(), |i: int| json_u32(js[i])->0) =~= s);
}

/// Writes a sequence of numbers, as `u32_list_json` says.
pub fn write_u32_list(v: &Vec<u32>) -> (r: Json)
    ensures
        r@ == u32_list_json(v.deep_view()),
{
    reveal(u32_list_json);
    let mut out: Vec<Json> = Vec::new();
    let mut i: usize = 0;
    let ghost s = v.deep_view();
    while i < v.len()
        invariant
            i <= v.len(),
            s == v.deep_view(),
            out.deep_view() == Seq::new(i as nat, |k: int| u32_json(s[k])),
        decreases v.len() - i,
    {
        let ghost before = out.deep_view();
        let elem = &v[i];
        let item = Json::Unsigned(*elem as u64);
        out.push(item);
        proof {
            assert(s[i as int] == v@[i as int].deep_view());
            assert(out.deep_view() =~= before.push(item@));
            assert(before.push(item@) =~= Seq::new((i + 1) as nat, |k: int| u32_json(s[k])));
        }
        i += 1;
    }
    let r = Json::List(out);
    proof {
        lemma_json_view(r);
        assert(out.deep_view() =~= Seq::new(s.len(), |k: int| u32_json(s[k])));
    }
    r
}

/// Reads a sequence of numbers, as `json_u32_list` says.
pub fn read_u32_list(j: &Json) -> (r: Result<Vec<u32>, SchemaMismatch>)
    ensures
        match r {
            Ok(v) => json_u32_list(j@) == Some(v.deep_view()),
            Err(_) => json_u32_list(j@) is None,
        },
{
    reveal(json_u32_list);
    proof {
        lemma_json_view(*j);
    }
    match j {
        Json::List(js) => {
            let mut out: Vec<u32> = Vec::new();
            let mut i: usize = 0;
            let ghost all = js.deep_view();
            while i < js.len()
                invariant
                    i <= js.len(),
                    all == js.deep_view(),
                    j@ == JsonView::List(all),
                    forall|k: int| 0 <= k < i ==> (#[trigger] json_u32(all[k])) is Some,
                    out.deep_view() == Seq::new(i as nat, |k: int| json_u32(all[k])->0),
                decreases js.len() - i,
            {
                let ghost before = out.deep_view();
                proof {
                    assert(all[i as int] == js@[i as int]@);
                }
                let value = &js[i];
                match read_u32(value) {
                    Ok(x) => {
                        out.push(x);
                        proof {
                            assert(out.deep_view() =~= before.push(x.deep_view()));
                            assert(before.push(x.deep_view()) =~= Seq::new(
                                (i + 1) as nat,
                                |k: int| json_u32(all[k])->0,
                            ));
                        }
                    },
                    Err(e) => {
                        reveal(json_u32_list);
                        assert(json_u32(all[i as int]) is None);
                        return Err(e);
                    },
                }
                i += 1;
            }
            proof {
                assert(out.deep_view() =~= Seq::new(all.len(), |k: int| json_u32(all[k])->0));
            }
            Ok(out)
        },
        _ => Err(SchemaMismatch),
    }
}

} // verus!
