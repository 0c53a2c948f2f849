//! The rules that pick what happens to a connection.

use crate::defaults::ROUTE_ACTION;
use crate::dns::DnsConfig;
use crate::error::CompileError;
use crate::json::{bool_json, Entries, entries_of, get, get_field, is_null, is_unset, Json, json_bool, json_text, json_text_list, json_u16, json_u16_list, json_u32, json_u8, JsonView, Key, lemma_get_empty, lemma_get_merge, lemma_get_put, lemma_json_view, lemma_text_list, lemma_u16_list, MAX_NESTING, merge, no_entries, optional, present, put, put_field, put_group, read_bool, read_entries, read_text, read_text_list, read_u16, read_u16_list, read_u32, read_u8, SchemaMismatch, text_json, text_list_json, u16_json, u16_list_json, u32_json, u8_json, write_text_list, write_u16_list};
use crate::outbound::OutboundConfig;
use crate::text::same_text;
use vstd::prelude::*;

verus! {

/// A route rule that matches a connection by its properties.
#[derive(Debug, Clone, PartialEq)]
pub struct DefaultRouteRule {
    pub inbound: Option<Vec<String>>,
    pub ip_version: Option<u8>,
    pub auth_user: Option<Vec<String>>,
    pub protocol: Option<Vec<String>>,
    pub client: Option<Vec<String>>,
    pub network: Option<Vec<String>>,
    pub domain: Option<Vec<String>>,
    pub domain_suffix: Option<Vec<String>>,
    pub domain_keyword: Option<Vec<String>>,
    pub domain_regex: Option<Vec<String>>,
    pub source_ip_cidr: Option<Vec<String>>,
    pub ip_is_private: Option<bool>,
    pub ip_cidr: Option<Vec<String>>,
    pub source_ip_is_private: Option<bool>,
    pub source_port: Option<Vec<u16>>,
    pub source_port_range: Option<Vec<String>>,
    pub port: Option<Vec<u16>>,
    pub port_range: Option<Vec<String>>,
    pub process_name: Option<Vec<String>>,
    pub process_path: Option<Vec<String>>,
    pub process_path_regex: Option<Vec<String>>,
    pub package_name: Option<Vec<String>>,
    pub user: Option<Vec<String>>,
    pub user_id: Option<Vec<u16>>,
    pub clash_mode: Option<String>,
    pub rule_set: Option<Vec<String>>,
    pub rule_set_ip_cidr_match_source: Option<Vec<String>>,
    pub invert: Option<bool>,
    pub action: Option<String>,
    pub outbound: Option<String>,
}

/// What a [`DefaultRouteRule`] holds, with every text as its characters.
pub struct DefaultRouteRuleView {
    pub inbound: Option<Seq<Seq<char>>>,
    pub ip_version: Option<u8>,
    pub auth_user: Option<Seq<Seq<char>>>,
    pub protocol: Option<Seq<Seq<char>>>,
    pub client: Option<Seq<Seq<char>>>,
    pub network: Option<Seq<Seq<char>>>,
    pub domain: Option<Seq<Seq<char>>>,
    pub domain_suffix: Option<Seq<Seq<char>>>,
    pub domain_keyword: Option<Seq<Seq<char>>>,
    pub domain_regex: Option<Seq<Seq<char>>>,
    pub source_ip_cidr: Option<Seq<Seq<char>>>,
    pub ip_is_private: Option<bool>,
    pub ip_cidr: Option<Seq<Seq<char>>>,
    pub source_ip_is_private: Option<bool>,
    pub source_port: Option<Seq<u16>>,
    pub source_port_range: Option<Seq<Seq<char>>>,
    pub port: Option<Seq<u16>>,
    pub port_range: Option<Seq<Seq<char>>>,
    pub process_name: Option<Seq<Seq<char>>>,
    pub process_path: Option<Seq<Seq<char>>>,
    pub process_path_regex: Option<Seq<Seq<char>>>,
    pub package_name: Option<Seq<Seq<char>>>,
    pub user: Option<Seq<Seq<char>>>,
    pub user_id: Option<Seq<u16>>,
    pub clash_mode: Option<Seq<char>>,
    pub rule_set: Option<Seq<Seq<char>>>,
    pub rule_set_ip_cidr_match_source: Option<Seq<Seq<char>>>,
    pub invert: Option<bool>,
    pub action: Option<Seq<char>>,
    pub outbound: Option<Seq<char>>,
}

impl DeepView for DefaultRouteRule {
    type V = DefaultRouteRuleView;

    open spec fn deep_view(&self) -> DefaultRouteRuleView {
        DefaultRouteRuleView {
            inbound: self.inbound.deep_view(),
            ip_version: self.ip_version.deep_view(),
            auth_user: self.auth_user.deep_view(),
            protocol: self.protocol.deep_view(),
            client: self.client.deep_view(),
            network: self.network.deep_view(),
            domain: self.domain.deep_view(),
            domain_suffix: self.domain_suffix.deep_view(),
            domain_keyword: self.domain_keyword.deep_view(),
            domain_regex: self.domain_regex.deep_view(),
            source_ip_cidr: self.source_ip_cidr.deep_view(),
            ip_is_private: self.ip_is_private.deep_view(),
            ip_cidr: self.ip_cidr.deep_view(),
            source_ip_is_private: self.source_ip_is_private.deep_view(),
            source_port: self.source_port.deep_view(),
            source_port_range: self.source_port_range.deep_view(),
            port: self.port.deep_view(),
            port_range: self.port_range.deep_view(),
            process_name: self.process_name.deep_view(),
            process_path: self.process_path.deep_view(),
            process_path_regex: self.process_path_regex.deep_view(),
            package_name: self.package_name.deep_view(),
            user: self.user.deep_view(),
            user_id: self.user_id.deep_view(),
            clash_mode: self.clash_mode.deep_view(),
            rule_set: self.rule_set.deep_view(),
            rule_set_ip_cidr_match_source: self.rule_set_ip_cidr_match_source.deep_view(),
            invert: self.invert.deep_view(),
            action: self.action.deep_view(),
            outbound: self.outbound.deep_view(),
        }
    }
}

impl View for DefaultRouteRule {
    type V = DefaultRouteRuleView;

    open spec fn view(&self) -> DefaultRouteRuleView {
        self.deep_view()
    }
}

impl DefaultRouteRuleView {
    /// The view of what [`DefaultRouteRule::new`] returns.
    pub open spec fn fresh() -> DefaultRouteRuleView {
        DefaultRouteRuleView {
            inbound: None,
            ip_version: None,
            auth_user: None,
            protocol: None,
            client: None,
            network: None,
            domain: None,
            domain_suffix: None,
            domain_keyword: None,
            domain_regex: None,
            source_ip_cidr: None,
            ip_is_private: None,
            ip_cidr: None,
            source_ip_is_private: None,
            source_port: None,
            source_port_range: None,
            port: None,
            port_range: None,
            process_name: None,
            process_path: None,
            process_path_regex: None,
            package_name: None,
            user: None,
            user_id: None,
            clash_mode: None,
            rule_set: None,
            rule_set_ip_cidr_match_source: None,
            invert: None,
            action: None,
            outbound: None,
        }
    }
}

impl DefaultRouteRule {
    /// A rule that sets no condition and no action.
    pub fn new() -> (r: Self)
        ensures
            r@ == DefaultRouteRuleView::fresh(),
    {
        DefaultRouteRule {
            inbound: None,
            ip_version: None,
            auth_user: None,
            protocol: None,
            client: None,
            network: None,
            domain: None,
            domain_suffix: None,
            domain_keyword: None,
            domain_regex: None,
            source_ip_cidr: None,
            ip_is_private: None,
            ip_cidr: None,
            source_ip_is_private: None,
            source_port: None,
            source_port_range: None,
            port: None,
            port_range: None,
            process_name: None,
            process_path: None,
            process_path_regex: None,
            package_name: None,
            user: None,
            user_id: None,
            clash_mode: None,
            rule_set: None,
            rule_set_ip_cidr_match_source: None,
            invert: None,
            action: None,
            outbound: None,
        }
    }
}

impl DefaultRouteRuleView {
    /// The entries of the record that stands for the value: one for each
    /// field that is set, in the order of the fields.
    pub open spec fn record(self) -> Entries {
        let es = Seq::empty();
        let es = put(es, Key::Inbound, present(self.inbound, |x: Seq<Seq<char>>| text_list_json(x)));
        let es = put(es, Key::IpVersion, present(self.ip_version, |x: u8| u8_json(x)));
        let es = put(es, Key::AuthUser, present(self.auth_user, |x: Seq<Seq<char>>| text_list_json(x)));
        let es = put(es, Key::Protocol, present(self.protocol, |x: Seq<Seq<char>>| text_list_json(x)));
        let es = put(es, Key::Client, present(self.client, |x: Seq<Seq<char>>| text_list_json(x)));
        let es = put(es, Key::Network, present(self.network, |x: Seq<Seq<char>>| text_list_json(x)));
        let es = put(es, Key::Domain, present(self.domain, |x: Seq<Seq<char>>| text_list_json(x)));
        let es = put(es, Key::DomainSuffix, present(self.domain_suffix, |x: Seq<Seq<char>>| text_list_json(x)));
        let es = put(es, Key::DomainKeyword, present(self.domain_keyword, |x: Seq<Seq<char>>| text_list_json(x)));
        let es = put(es, Key::DomainRegex, present(self.domain_regex, |x: Seq<Seq<char>>| text_list_json(x)));
        let es = put(es, Key::SourceIpCidr, present(self.source_ip_cidr, |x: Seq<Seq<char>>| text_list_json(x)));
        let es = put(es, Key::IpIsPrivate, present(self.ip_is_private, |x: bool| bool_json(x)));
        let es = put(es, Key::IpCidr, present(self.ip_cidr, |x: Seq<Seq<char>>| text_list_json(x)));
        let es = put(es, Key::SourceIpIsPrivate, present(self.source_ip_is_private, |x: bool| bool_json(x)));
        let es = put(es, Key::SourcePort, present(self.source_port, |x: Seq<u16>| u16_list_json(x)));
        let es = put(es, Key::SourcePortRange, present(self.source_port_range, |x: Seq<Seq<char>>| text_list_json(x)));
        let es = put(es, Key::Port, present(self.port, |x: Seq<u16>| u16_list_json(x)));
        let es = put(es, Key::PortRange, present(self.port_range, |x: Seq<Seq<char>>| text_list_json(x)));
        let es = put(es, Key::ProcessName, present(self.process_name, |x: Seq<Seq<char>>| text_list_json(x)));
        let es = put(es, Key::ProcessPath, present(self.process_path, |x: Seq<Seq<char>>| text_list_json(x)));
        let es = put(es, Key::ProcessPathRegex, present(self.process_path_regex, |x: Seq<Seq<char>>| text_list_json(x)));
        let es = put(es, Key::PackageName, present(self.package_name, |x: Seq<Seq<char>>| text_list_json(x)));
        let es = put(es, Key::User, present(self.user, |x: Seq<Seq<char>>| text_list_json(x)));
        let es = put(es, Key::UserId, present(self.user_id, |x: Seq<u16>| u16_list_json(x)));
        let es = put(es, Key::ClashMode, present(self.clash_mode, |x: Seq<char>| text_json(x)));
        let es = put(es, Key::RuleSet, present(self.rule_set, |x: Seq<Seq<char>>| text_list_json(x)));
        let es = put(es, Key::RuleSetIpCidrMatchSource, present(self.rule_set_ip_cidr_match_source, |x: Seq<Seq<char>>| text_list_json(x)));
        let es = put(es, Key::Invert, present(self.invert, |x: bool| bool_json(x)));
        let es = put(es, Key::Action, present(self.action, |x: Seq<char>| text_json(x)));
        let es = put(es, Key::Outbound, present(self.outbound, |x: Seq<char>| text_json(x)));
        es
    }

    /// The record that stands for the value.
    pub open spec fn to_json(self) -> JsonView {
        JsonView::Record(self.record())
    }

    /// The value that the entries of an object stand for. Fails where an
    /// entry holds a value of the wrong shape.
    pub open spec fn from_record(es: Entries) -> Option<DefaultRouteRuleView> {
        let inbound = optional(get(es, Key::Inbound), |j: JsonView| json_text_list(j));
        let ip_version = optional(get(es, Key::IpVersion), |j: JsonView| json_u8(j));
        let auth_user = optional(get(es, Key::AuthUser), |j: JsonView| json_text_list(j));
        let protocol = optional(get(es, Key::Protocol), |j: JsonView| json_text_list(j));
        let client = optional(get(es, Key::Client), |j: JsonView| json_text_list(j));
        let network = optional(get(es, Key::Network), |j: JsonView| json_text_list(j));
        let domain = optional(get(es, Key::Domain), |j: JsonView| json_text_list(j));
        let domain_suffix = optional(get(es, Key::DomainSuffix), |j: JsonView| json_text_list(j));
        let domain_keyword = optional(get(es, Key::DomainKeyword), |j: JsonView| json_text_list(j));
        let domain_regex = optional(get(es, Key::DomainRegex), |j: JsonView| json_text_list(j));
        let source_ip_cidr = optional(get(es, Key::SourceIpCidr), |j: JsonView| json_text_list(j));
        let ip_is_private = optional(get(es, Key::IpIsPrivate), |j: JsonView| json_bool(j));
        let ip_cidr = optional(get(es, Key::IpCidr), |j: JsonView| json_text_list(j));
        let source_ip_is_private = optional(get(es, Key::SourceIpIsPrivate), |j: JsonView| json_bool(j));
        let source_port = optional(get(es, Key::SourcePort), |j: JsonView| json_u16_list(j));
        let source_port_range = optional(get(es, Key::SourcePortRange), |j: JsonView| json_text_list(j));
        let port = optional(get(es, Key::Port), |j: JsonView| json_u16_list(j));
        let port_range = optional(get(es, Key::PortRange), |j: JsonView| json_text_list(j));
        let process_name = optional(get(es, Key::ProcessName), |j: JsonView| json_text_list(j));
        let process_path = optional(get(es, Key::ProcessPath), |j: JsonView| json_text_list(j));
        let process_path_regex = optional(get(es, Key::ProcessPathRegex), |j: JsonView| json_text_list(j));
        let package_name = optional(get(es, Key::PackageName), |j: JsonView| json_text_list(j));
        let user = optional(get(es, Key::User), |j: JsonView| json_text_list(j));
        let user_id = optional(get(es, Key::UserId), |j: JsonView| json_u16_list(j));
        let clash_mode = optional(get(es, Key::ClashMode), |j: JsonView| json_text(j));
        let rule_set = optional(get(es, Key::RuleSet), |j: JsonView| json_text_list(j));
        let rule_set_ip_cidr_match_source = optional(get(es, Key::RuleSetIpCidrMatchSource), |j: JsonView| json_text_list(j));
        let invert = optional(get(es, Key::Invert), |j: JsonView| json_bool(j));
        let action = optional(get(es, Key::Action), |j: JsonView| json_text(j));
        let outbound = optional(get(es, Key::Outbound), |j: JsonView| json_text(j));
        if inbound is Some
            && ip_version is Some
            && auth_user is Some
            && protocol is Some
            && client is Some
            && network is Some
            && domain is Some
            && domain_suffix is Some
            && domain_keyword is Some
            && domain_regex is Some
            && source_ip_cidr is Some
            && ip_is_private is Some
            && ip_cidr is Some
            && source_ip_is_private is Some
            && source_port is Some
            && source_port_range is Some
            && port is Some
            && port_range is Some
            && process_name is Some
            && process_path is Some
            && process_path_regex is Some
            && package_name is Some
            && user is Some
            && user_id is Some
            && clash_mode is Some
            && rule_set is Some
            && rule_set_ip_cidr_match_source is Some
            && invert is Some
            && action is Some
            && outbound is Some {
            Some(
                DefaultRouteRuleView {
                    inbound: inbound->0,
                    ip_version: ip_version->0,
                    auth_user: auth_user->0,
                    protocol: protocol->0,
                    client: client->0,
                    network: network->0,
                    domain: domain->0,
                    domain_suffix: domain_suffix->0,
                    domain_keyword: domain_keyword->0,
                    domain_regex: domain_regex->0,
                    source_ip_cidr: source_ip_cidr->0,
                    ip_is_private: ip_is_private->0,
                    ip_cidr: ip_cidr->0,
                    source_ip_is_private: source_ip_is_private->0,
                    source_port: source_port->0,
                    source_port_range: source_port_range->0,
                    port: port->0,
                    port_range: port_range->0,
                    process_name: process_name->0,
                    process_path: process_path->0,
                    process_path_regex: process_path_regex->0,
                    package_name: package_name->0,
                    user: user->0,
                    user_id: user_id->0,
                    clash_mode: clash_mode->0,
                    rule_set: rule_set->0,
                    rule_set_ip_cidr_match_source: rule_set_ip_cidr_match_source->0,
                    invert: invert->0,
                    action: action->0,
                    outbound: outbound->0,
                },
            )
        } else {
            None
        }
    }

    /// The value that an object stands for; none for a value that is no
    /// object.
    pub open spec fn from_json(j: JsonView) -> Option<DefaultRouteRuleView> {
        match entries_of(j) {
            Some(es) => DefaultRouteRuleView::from_record(es),
            None => None,
        }
    }

    /// Whether the value is written in a form from which it is read back:
    /// every value of this type is.
    pub open spec fn canonical(self) -> bool {
        true
    }

    /// The field `inbound` is read back from the record.
    pub proof fn lemma_reads_inbound(self)
        ensures
            optional(get(self.record(), Key::Inbound), |j: JsonView| json_text_list(j)) == Some(self.inbound),
    {
        broadcast use {lemma_get_empty, lemma_get_put, lemma_get_merge};

        let es = self.record();
        match self.inbound {
            Some(x) => {
                lemma_text_list(x);
            },
            None => {},
        }
    }

    /// The field `ip_version` is read back from the record.
    pub proof fn lemma_reads_ip_version(self)
        ensures
            optional(get(self.record(), Key::IpVersion), |j: JsonView| json_u8(j)) == Some(self.ip_version),
    {
        broadcast use {lemma_get_empty, lemma_get_put, lemma_get_merge};

        let es = self.record();
    }

    /// The field `auth_user` is read back from the record.
    pub proof fn lemma_reads_auth_user(self)
        ensures
            optional(get(self.record(), Key::AuthUser), |j: JsonView| json_text_list(j)) == Some(self.auth_user),
    {
        broadcast use {lemma_get_empty, lemma_get_put, lemma_get_merge};

        let es = self.record();
        match self.auth_user {
            Some(x) => {
                lemma_text_list(x);
            },
            None => {},
        }
    }

    /// The field `protocol` is read back from the record.
    pub proof fn lemma_reads_protocol(self)
        ensures
            optional(get(self.record(), Key::Protocol), |j: JsonView| json_text_list(j)) == Some(self.protocol),
    {
        broadcast use {lemma_get_empty, lemma_get_put, lemma_get_merge};

        let es = self.record();
        match self.protocol {
            Some(x) => {
                lemma_text_list(x);
            },
            None => {},
        }
    }

    /// The field `client` is read back from the record.
    pub proof fn lemma_reads_client(self)
        ensures
            optional(get(self.record(), Key::Client), |j: JsonView| json_text_list(j)) == Some(self.client),
    {
        broadcast use {lemma_get_empty, lemma_get_put, lemma_get_merge};

        let es = self.record();
        match self.client {
            Some(x) => {
                lemma_text_list(x);
            },
            None => {},
        }
    }

    /// The field `network` is read back from the record.
    pub proof fn lemma_reads_network(self)
        ensures
            optional(get(self.record(), Key::Network), |j: JsonView| json_text_list(j)) == Some(self.network),
    {
        broadcast use {lemma_get_empty, lemma_get_put, lemma_get_merge};

        let es = self.record();
        match self.network {
            Some(x) => {
                lemma_text_list(x);
            },
            None => {},
        }
    }

    /// The field `domain` is read back from the record.
    pub proof fn lemma_reads_domain(self)
        ensures
            optional(get(self.record(), Key::Domain), |j: JsonView| json_text_list(j)) == Some(self.domain),
    {
        broadcast use {lemma_get_empty, lemma_get_put, lemma_get_merge};

        let es = self.record();
        match self.domain {
            Some(x) => {
                lemma_text_list(x);
            },
            None => {},
        }
    }

    /// The field `domain_suffix` is read back from the record.
    pub proof fn lemma_reads_domain_suffix(self)
        ensures
            optional(get(self.record(), Key::DomainSuffix), |j: JsonView| json_text_list(j)) == Some(self.domain_suffix),
    {
        broadcast use {lemma_get_empty, lemma_get_put, lemma_get_merge};

        let es = self.record();
        match self.domain_suffix {
            Some(x) => {
                lemma_text_list(x);
            },
            None => {},
        }
    }

    /// The field `domain_keyword` is read back from the record.
    pub proof fn lemma_reads_domain_keyword(self)
        ensures
            optional(get(self.record(), Key::DomainKeyword), |j: JsonView| json_text_list(j)) == Some(self.domain_keyword),
    {
        broadcast use {lemma_get_empty, lemma_get_put, lemma_get_merge};

        let es = self.record();
        match self.domain_keyword {
            Some(x) => {
                lemma_text_list(x);
            },
            None => {},
        }
    }

    /// The field `domain_regex` is read back from the record.
    pub proof fn lemma_reads_domain_regex(self)
        ensures
            optional(get(self.record(), Key::DomainRegex), |j: JsonView| json_text_list(j)) == Some(self.domain_regex),
    {
        broadcast use {lemma_get_empty, lemma_get_put, lemma_get_merge};

        let es = self.record();
        match self.domain_regex {
            Some(x) => {
                lemma_text_list(x);
            },
            None => {},
        }
    }

    /// The field `source_ip_cidr` is read back from the record.
    pub proof fn lemma_reads_source_ip_cidr(self)
        ensures
            optional(get(self.record(), Key::SourceIpCidr), |j: JsonView| json_text_list(j)) == Some(self.source_ip_cidr),
    {
        broadcast use {lemma_get_empty, lemma_get_put, lemma_get_merge};

        let es = self.record();
        match self.source_ip_cidr {
            Some(x) => {
                lemma_text_list(x);
            },
            None => {},
        }
    }

    /// The field `ip_is_private` is read back from the record.
    pub proof fn lemma_reads_ip_is_private(self)
        ensures
            optional(get(self.record(), Key::IpIsPrivate), |j: JsonView| json_bool(j)) == Some(self.ip_is_private),
    {
        broadcast use {lemma_get_empty, lemma_get_put, lemma_get_merge};

        let es = self.record();
    }

    /// The field `ip_cidr` is read back from the record.
    pub proof fn lemma_reads_ip_cidr(self)
        ensures
            optional(get(self.record(), Key::IpCidr), |j: JsonView| json_text_list(j)) == Some(self.ip_cidr),
    {
        broadcast use {lemma_get_empty, lemma_get_put, lemma_get_merge};

        let es = self.record();
        match self.ip_cidr {
            Some(x) => {
                lemma_text_list(x);
            },
            None => {},
        }
    }

    /// The field `source_ip_is_private` is read back from the record.
    pub proof fn lemma_reads_source_ip_is_private(self)
        ensures
            optional(get(self.record(), Key::SourceIpIsPrivate), |j: JsonView| json_bool(j)) == Some(self.source_ip_is_private),
    {
        broadcast use {lemma_get_empty, lemma_get_put, lemma_get_merge};

        let es = self.record();
    }

    /// The field `source_port` is read back from the record.
    pub proof fn lemma_reads_source_port(self)
        ensures
            optional(get(self.record(), Key::SourcePort), |j: JsonView| json_u16_list(j)) == Some(self.source_port),
    {
        broadcast use {lemma_get_empty, lemma_get_put, lemma_get_merge};

        let es = self.record();
        match self.source_port {
            Some(x) => {
                lemma_u16_list(x);
            },
            None => {},
        }
    }

    /// The field `source_port_range` is read back from the record.
    pub proof fn lemma_reads_source_port_range(self)
        ensures
            optional(get(self.record(), Key::SourcePortRange), |j: JsonView| json_text_list(j)) == Some(self.source_port_range),
    {
        broadcast use {lemma_get_empty, lemma_get_put, lemma_get_merge};

        let es = self.record();
        match self.source_port_range {
            Some(x) => {
                lemma_text_list(x);
            },
            None => {},
        }
    }

    /// The field `port` is read back from the record.
    pub proof fn lemma_reads_port(self)
        ensures
            optional(get(self.record(), Key::Port), |j: JsonView| json_u16_list(j)) == Some(self.port),
    {
        broadcast use {lemma_get_empty, lemma_get_put, lemma_get_merge};

        let es = self.record();
        match self.port {
            Some(x) => {
                lemma_u16_list(x);
            },
            None => {},
        }
    }

    /// The field `port_range` is read back from the record.
    pub proof fn lemma_reads_port_range(self)
        ensures
            optional(get(self.record(), Key::PortRange), |j: JsonView| json_text_list(j)) == Some(self.port_range),
    {
        broadcast use {lemma_get_empty, lemma_get_put, lemma_get_merge};

        let es = self.record();
        match self.port_range {
            Some(x) => {
                lemma_text_list(x);
            },
            None => {},
        }
    }

    /// The field `process_name` is read back from the record.
    pub proof fn lemma_reads_process_name(self)
        ensures
            optional(get(self.record(), Key::ProcessName), |j: JsonView| json_text_list(j)) == Some(self.process_name),
    {
        broadcast use {lemma_get_empty, lemma_get_put, lemma_get_merge};

        let es = self.record();
        match self.process_name {
            Some(x) => {
                lemma_text_list(x);
            },
            None => {},
        }
    }

    /// The field `process_path` is read back from the record.
    pub proof fn lemma_reads_process_path(self)
        ensures
            optional(get(self.record(), Key::ProcessPath), |j: JsonView| json_text_list(j)) == Some(self.process_path),
    {
        broadcast use {lemma_get_empty, lemma_get_put, lemma_get_merge};

        let es = self.record();
        match self.process_path {
            Some(x) => {
                lemma_text_list(x);
            },
            None => {},
        }
    }

    /// The field `process_path_regex` is read back from the record.
    pub proof fn lemma_reads_process_path_regex(self)
        ensures
            optional(get(self.record(), Key::ProcessPathRegex), |j: JsonView| json_text_list(j)) == Some(self.process_path_regex),
    {
        broadcast use {lemma_get_empty, lemma_get_put, lemma_get_merge};

        let es = self.record();
        match self.process_path_regex {
            Some(x) => {
                lemma_text_list(x);
            },
            None => {},
        }
    }

    /// The field `package_name` is read back from the record.
    pub proof fn lemma_reads_package_name(self)
        ensures
            optional(get(self.record(), Key::PackageName), |j: JsonView| json_text_list(j)) == Some(self.package_name),
    {
        broadcast use {lemma_get_empty, lemma_get_put, lemma_get_merge};

        let es = self.record();
        match self.package_name {
            Some(x) => {
                lemma_text_list(x);
            },
            None => {},
        }
    }

    /// The field `user` is read back from the record.
    pub proof fn lemma_reads_user(self)
        ensures
            optional(get(self.record(), Key::User), |j: JsonView| json_text_list(j)) == Some(self.user),
    {
        broadcast use {lemma_get_empty, lemma_get_put, lemma_get_merge};

        let es = self.record();
        match self.user {
            Some(x) => {
                lemma_text_list(x);
            },
            None => {},
        }
    }

    /// The field `user_id` is read back from the record.
    pub proof fn lemma_reads_user_id(self)
        ensures
            optional(get(self.record(), Key::UserId), |j: JsonView| json_u16_list(j)) == Some(self.user_id),
    {
        broadcast use {lemma_get_empty, lemma_get_put, lemma_get_merge};

        let es = self.record();
        match self.user_id {
            Some(x) => {
                lemma_u16_list(x);
            },
            None => {},
        }
    }

    /// The field `clash_mode` is read back from the record.
    pub proof fn lemma_reads_clash_mode(self)
        ensures
            optional(get(self.record(), Key::ClashMode), |j: JsonView| json_text(j)) == Some(self.clash_mode),
    {
        broadcast use {lemma_get_empty, lemma_get_put, lemma_get_merge};

        let es = self.record();
    }

    /// The field `rule_set` is read back from the record.
    pub proof fn lemma_reads_rule_set(self)
        ensures
            optional(get(self.record(), Key::RuleSet), |j: JsonView| json_text_list(j)) == Some(self.rule_set),
    {
        broadcast use {lemma_get_empty, lemma_get_put, lemma_get_merge};

        let es = self.record();
        match self.rule_set {
            Some(x) => {
                lemma_text_list(x);
            },
            None => {},
        }
    }

    /// The field `rule_set_ip_cidr_match_source` is read back from the record.
    pub proof fn lemma_reads_rule_set_ip_cidr_match_source(self)
        ensures
            optional(get(self.record(), Key::RuleSetIpCidrMatchSource), |j: JsonView| json_text_list(j)) == Some(self.rule_set_ip_cidr_match_source),
    {
        broadcast use {lemma_get_empty, lemma_get_put, lemma_get_merge};

        let es = self.record();
        match self.rule_set_ip_cidr_match_source {
            Some(x) => {
                lemma_text_list(x);
            },
            None => {},
        }
    }

    /// The field `invert` is read back from the record.
    pub proof fn lemma_reads_invert(self)
        ensures
            optional(get(self.record(), Key::Invert), |j: JsonView| json_bool(j)) == Some(self.invert),
    {
        broadcast use {lemma_get_empty, lemma_get_put, lemma_get_merge};

        let es = self.record();
    }

    /// The field `action` is read back from the record.
    pub proof fn lemma_reads_action(self)
        ensures
            optional(get(self.record(), Key::Action), |j: JsonView| json_text(j)) == Some(self.action),
    {
        broadcast use {lemma_get_empty, lemma_get_put, lemma_get_merge};

        let es = self.record();
    }

    /// The field `outbound` is read back from the record.
    pub proof fn lemma_reads_outbound(self)
        ensures
            optional(get(self.record(), Key::Outbound), |j: JsonView| json_text(j)) == Some(self.outbound),
    {
        broadcast use {lemma_get_empty, lemma_get_put, lemma_get_merge};

        let es = self.record();
    }

    /// The value is read back from the record that stands for it.
    pub proof fn lemma_round_trip(self)
        ensures
            DefaultRouteRuleView::from_record(self.record()) == Some(self),
            DefaultRouteRuleView::from_json(self.to_json()) == Some(self),
    {
        self.lemma_reads_inbound();
        self.lemma_reads_ip_version();
        self.lemma_reads_auth_user();
        self.lemma_reads_protocol();
        self.lemma_reads_client();
        self.lemma_reads_network();
        self.lemma_reads_domain();
        self.lemma_reads_domain_suffix();
        self.lemma_reads_domain_keyword();
        self.lemma_reads_domain_regex();
        self.lemma_reads_source_ip_cidr();
        self.lemma_reads_ip_is_private();
        self.lemma_reads_ip_cidr();
        self.lemma_reads_source_ip_is_private();
        self.lemma_reads_source_port();
        self.lemma_reads_source_port_range();
        self.lemma_reads_port();
        self.lemma_reads_port_range();
        self.lemma_reads_process_name();
        self.lemma_reads_process_path();
        self.lemma_reads_process_path_regex();
        self.lemma_reads_package_name();
        self.lemma_reads_user();
        self.lemma_reads_user_id();
        self.lemma_reads_clash_mode();
        self.lemma_reads_rule_set();
        self.lemma_reads_rule_set_ip_cidr_match_source();
        self.lemma_reads_invert();
        self.lemma_reads_action();
        self.lemma_reads_outbound();
    }
}

impl DefaultRouteRule {
    /// The entries of the record that stands for the value, as
    /// `DefaultRouteRuleView::record` lists them.
    pub fn record(&self) -> (r: Vec<(Key, Json)>)
        ensures
            r.deep_view() == self@.record(),
    {
        let mut es: Vec<(Key, Json)> = no_entries();
        let ghost s = Seq::<(Key, JsonView)>::empty();
        let value = match &self.inbound {
            Some(x) => Some(write_text_list(x)),
            None => None,
        };
        put_field(&mut es, Key::Inbound, value);
        let ghost s = put(s, Key::Inbound, present(self@.inbound, |x: Seq<Seq<char>>| text_list_json(x)));
        assert(es.deep_view() == s);
        let value = match &self.ip_version {
            Some(x) => Some(Json::Unsigned(*x as u64)),
            None => None,
        };
        put_field(&mut es, Key::IpVersion, value);
        let ghost s = put(s, Key::IpVersion, present(self@.ip_version, |x: u8| u8_json(x)));
        assert(es.deep_view() == s);
        let value = match &self.auth_user {
            Some(x) => Some(write_text_list(x)),
            None => None,
        };
        put_field(&mut es, Key::AuthUser, value);
        let ghost s = put(s, Key::AuthUser, present(self@.auth_user, |x: Seq<Seq<char>>| text_list_json(x)));
        assert(es.deep_view() == s);
        let value = match &self.protocol {
            Some(x) => Some(write_text_list(x)),
            None => None,
        };
        put_field(&mut es, Key::Protocol, value);
        let ghost s = put(s, Key::Protocol, present(self@.protocol, |x: Seq<Seq<char>>| text_list_json(x)));
        assert(es.deep_view() == s);
        let value = match &self.client {
            Some(x) => Some(write_text_list(x)),
            None => None,
        };
        put_field(&mut es, Key::Client, value);
        let ghost s = put(s, Key::Client, present(self@.client, |x: Seq<Seq<char>>| text_list_json(x)));
        assert(es.deep_view() == s);
        let value = match &self.network {
            Some(x) => Some(write_text_list(x)),
            None => None,
        };
        put_field(&mut es, Key::Network, value);
        let ghost s = put(s, Key::Network, present(self@.network, |x: Seq<Seq<char>>| text_list_json(x)));
        assert(es.deep_view() == s);
        let value = match &self.domain {
            Some(x) => Some(write_text_list(x)),
            None => None,
        };
        put_field(&mut es, Key::Domain, value);
        let ghost s = put(s, Key::Domain, present(self@.domain, |x: Seq<Seq<char>>| text_list_json(x)));
        assert(es.deep_view() == s);
        let value = match &self.domain_suffix {
            Some(x) => Some(write_text_list(x)),
            None => None,
        };
        put_field(&mut es, Key::DomainSuffix, value);
        let ghost s = put(s, Key::DomainSuffix, present(self@.domain_suffix, |x: Seq<Seq<char>>| text_list_json(x)));
        assert(es.deep_view() == s);
        let value = match &self.domain_keyword {
            Some(x) => Some(write_text_list(x)),
            None => None,
        };
        put_field(&mut es, Key::DomainKeyword, value);
        let ghost s = put(s, Key::DomainKeyword, present(self@.domain_keyword, |x: Seq<Seq<char>>| text_list_json(x)));
        assert(es.deep_view() == s);
        let value = match &self.domain_regex {
            Some(x) => Some(write_text_list(x)),
            None => None,
        };
        put_field(&mut es, Key::DomainRegex, value);
        let ghost s = put(s, Key::DomainRegex, present(self@.domain_regex, |x: Seq<Seq<char>>| text_list_json(x)));
        assert(es.deep_view() == s);
        let value = match &self.source_ip_cidr {
            Some(x) => Some(write_text_list(x)),
            None => None,
        };
        put_field(&mut es, Key::SourceIpCidr, value);
        let ghost s = put(s, Key::SourceIpCidr, present(self@.source_ip_cidr, |x: Seq<Seq<char>>| text_list_json(x)));
        assert(es.deep_view() == s);
        let value = match &self.ip_is_private {
            Some(x) => Some(Json::Bool(*x)),
            None => None,
        };
        put_field(&mut es, Key::IpIsPrivate, value);
        let ghost s = put(s, Key::IpIsPrivate, present(self@.ip_is_private, |x: bool| bool_json(x)));
        assert(es.deep_view() == s);
        let value = match &self.ip_cidr {
            Some(x) => Some(write_text_list(x)),
            None => None,
        };
        put_field(&mut es, Key::IpCidr, value);
        let ghost s = put(s, Key::IpCidr, present(self@.ip_cidr, |x: Seq<Seq<char>>| text_list_json(x)));
        assert(es.deep_view() == s);
        let value = match &self.source_ip_is_private {
            Some(x) => Some(Json::Bool(*x)),
            None => None,
        };
        put_field(&mut es, Key::SourceIpIsPrivate, value);
        let ghost s = put(s, Key::SourceIpIsPrivate, present(self@.source_ip_is_private, |x: bool| bool_json(x)));
        assert(es.deep_view() == s);
        let value = match &self.source_port {
            Some(x) => Some(write_u16_list(x)),
            None => None,
        };
        put_field(&mut es, Key::SourcePort, value);
        let ghost s = put(s, Key::SourcePort, present(self@.source_port, |x: Seq<u16>| u16_list_json(x)));
        assert(es.deep_view() == s);
        let value = match &self.source_port_range {
            Some(x) => Some(write_text_list(x)),
            None => None,
        };
        put_field(&mut es, Key::SourcePortRange, value);
        let ghost s = put(s, Key::SourcePortRange, present(self@.source_port_range, |x: Seq<Seq<char>>| text_list_json(x)));
        assert(es.deep_view() == s);
        let value = match &self.port {
            Some(x) => Some(write_u16_list(x)),
            None => None,
        };
        put_field(&mut es, Key::Port, value);
        let ghost s = put(s, Key::Port, present(self@.port, |x: Seq<u16>| u16_list_json(x)));
        assert(es.deep_view() == s);
        let value = match &self.port_range {
            Some(x) => Some(write_text_list(x)),
            None => None,
        };
        put_field(&mut es, Key::PortRange, value);
        let ghost s = put(s, Key::PortRange, present(self@.port_range, |x: Seq<Seq<char>>| text_list_json(x)));
        assert(es.deep_view() == s);
        let value = match &self.process_name {
            Some(x) => Some(write_text_list(x)),
            None => None,
        };
        put_field(&mut es, Key::ProcessName, value);
        let ghost s = put(s, Key::ProcessName, present(self@.process_name, |x: Seq<Seq<char>>| text_list_json(x)));
        assert(es.deep_view() == s);
        let value = match &self.process_path {
            Some(x) => Some(write_text_list(x)),
            None => None,
        };
        put_field(&mut es, Key::ProcessPath, value);
        let ghost s = put(s, Key::ProcessPath, present(self@.process_path, |x: Seq<Seq<char>>| text_list_json(x)));
        assert(es.deep_view() == s);
        let value = match &self.process_path_regex {
            Some(x) => Some(write_text_list(x)),
            None => None,
        };
        put_field(&mut es, Key::ProcessPathRegex, value);
        let ghost s = put(s, Key::ProcessPathRegex, present(self@.process_path_regex, |x: Seq<Seq<char>>| text_list_json(x)));
        assert(es.deep_view() == s);
        let value = match &self.package_name {
            Some(x) => Some(write_text_list(x)),
            None => None,
        };
        put_field(&mut es, Key::PackageName, value);
        let ghost s = put(s, Key::PackageName, present(self@.package_name, |x: Seq<Seq<char>>| text_list_json(x)));
        assert(es.deep_view() == s);
        let value = match &self.user {
            Some(x) => Some(write_text_list(x)),
            None => None,
        };
        put_field(&mut es, Key::User, value);
        let ghost s = put(s, Key::User, present(self@.user, |x: Seq<Seq<char>>| text_list_json(x)));
        assert(es.deep_view() == s);
        let value = match &self.user_id {
            Some(x) => Some(write_u16_list(x)),
            None => None,
        };
        put_field(&mut es, Key::UserId, value);
        let ghost s = put(s, Key::UserId, present(self@.user_id, |x: Seq<u16>| u16_list_json(x)));
        assert(es.deep_view() == s);
        let value = match &self.clash_mode {
            Some(x) => Some(Json::Text(x.clone())),
            None => None,
        };
        put_field(&mut es, Key::ClashMode, value);
        let ghost s = put(s, Key::ClashMode, present(self@.clash_mode, |x: Seq<char>| text_json(x)));
        assert(es.deep_view() == s);
        let value = match &self.rule_set {
            Some(x) => Some(write_text_list(x)),
            None => None,
        };
        put_field(&mut es, Key::RuleSet, value);
        let ghost s = put(s, Key::RuleSet, present(self@.rule_set, |x: Seq<Seq<char>>| text_list_json(x)));
        assert(es.deep_view() == s);
        let value = match &self.rule_set_ip_cidr_match_source {
            Some(x) => Some(write_text_list(x)),
            None => None,
        };
        put_field(&mut es, Key::RuleSetIpCidrMatchSource, value);
        let ghost s = put(s, Key::RuleSetIpCidrMatchSource, present(self@.rule_set_ip_cidr_match_source, |x: Seq<Seq<char>>| text_list_json(x)));
        assert(es.deep_view() == s);
        let value = match &self.invert {
            Some(x) => Some(Json::Bool(*x)),
            None => None,
        };
        put_field(&mut es, Key::Invert, value);
        let ghost s = put(s, Key::Invert, present(self@.invert, |x: bool| bool_json(x)));
        assert(es.deep_view() == s);
        let value = match &self.action {
            Some(x) => Some(Json::Text(x.clone())),
            None => None,
        };
        put_field(&mut es, Key::Action, value);
        let ghost s = put(s, Key::Action, present(self@.action, |x: Seq<char>| text_json(x)));
        assert(es.deep_view() == s);
        let value = match &self.outbound {
            Some(x) => Some(Json::Text(x.clone())),
            None => None,
        };
        put_field(&mut es, Key::Outbound, value);
        let ghost s = put(s, Key::Outbound, present(self@.outbound, |x: Seq<char>| text_json(x)));
        assert(es.deep_view() == s);
        es
    }

    /// The record that stands for the value.
    pub fn to_json(&self) -> (r: Json)
        ensures
            r@ == self@.to_json(),
    {
        let r = Json::Record(self.record());
        proof {
            lemma_json_view(r);
        }
        r
    }

    /// Reads the value from the entries of an object, as
    /// `DefaultRouteRuleView::from_record` says.
    #[verifier::rlimit(90)]
    pub fn from_record(es: &Vec<(Key, &Json)>) -> (r: Result<DefaultRouteRule, SchemaMismatch>)
        ensures
            match r {
                Ok(x) => DefaultRouteRuleView::from_record(es.deep_view()) == Some(x@),
                Err(_) => DefaultRouteRuleView::from_record(es.deep_view()) is None,
            },
    {
        let inbound = match get_field(es, Key::Inbound) {
            Some(j) => if is_null(j) {
                None
            } else {
                match read_text_list(j) {
                    Ok(x) => Some(x),
                    Err(e) => {
                        return Err(e);
                    },
                }
            },
            None => None,
        };
        assert(optional(get(es.deep_view(), Key::Inbound), |j: JsonView| json_text_list(j)) == Some(inbound.deep_view()));
        let ip_version = match get_field(es, Key::IpVersion) {
            Some(j) => if is_null(j) {
                None
            } else {
                match read_u8(j) {
                    Ok(x) => Some(x),
                    Err(e) => {
                        return Err(e);
                    },
                }
            },
            None => None,
        };
        assert(optional(get(es.deep_view(), Key::IpVersion), |j: JsonView| json_u8(j)) == Some(ip_version.deep_view()));
        let auth_user = match get_field(es, Key::AuthUser) {
            Some(j) => if is_null(j) {
                None
            } else {
                match read_text_list(j) {
                    Ok(x) => Some(x),
                    Err(e) => {
                        return Err(e);
                    },
                }
            },
            None => None,
        };
        assert(optional(get(es.deep_view(), Key::AuthUser), |j: JsonView| json_text_list(j)) == Some(auth_user.deep_view()));
        let protocol = match get_field(es, Key::Protocol) {
            Some(j) => if is_null(j) {
                None
            } else {
                match read_text_list(j) {
                    Ok(x) => Some(x),
                    Err(e) => {
                        return Err(e);
                    },
                }
            },
            None => None,
        };
        assert(optional(get(es.deep_view(), Key::Protocol), |j: JsonView| json_text_list(j)) == Some(protocol.deep_view()));
        let client = match get_field(es, Key::Client) {
            Some(j) => if is_null(j) {
                None
            } else {
                match read_text_list(j) {
                    Ok(x) => Some(x),
                    Err(e) => {
                        return Err(e);
                    },
                }
            },
            None => None,
        };
        assert(optional(get(es.deep_view(), Key::Client), |j: JsonView| json_text_list(j)) == Some(client.deep_view()));
        let network = match get_field(es, Key::Network) {
            Some(j) => if is_null(j) {
                None
            } else {
                match read_text_list(j) {
                    Ok(x) => Some(x),
                    Err(e) => {
                        return Err(e);
                    },
                }
            },
            None => None,
        };
        assert(optional(get(es.deep_view(), Key::Network), |j: JsonView| json_text_list(j)) == Some(network.deep_view()));
        let domain = match get_field(es, Key::Domain) {
            Some(j) => if is_null(j) {
                None
            } else {
                match read_text_list(j) {
                    Ok(x) => Some(x),
                    Err(e) => {
                        return Err(e);
                    },
                }
            },
            None => None,
        };
        assert(optional(get(es.deep_view(), Key::Domain), |j: JsonView| json_text_list(j)) == Some(domain.deep_view()));
        let domain_suffix = match get_field(es, Key::DomainSuffix) {
            Some(j) => if is_null(j) {
                None
            } else {
                match read_text_list(j) {
                    Ok(x) => Some(x),
                    Err(e) => {
                        return Err(e);
                    },
                }
            },
            None => None,
        };
        assert(optional(get(es.deep_view(), Key::DomainSuffix), |j: JsonView| json_text_list(j)) == Some(domain_suffix.deep_view()));
        let domain_keyword = match get_field(es, Key::DomainKeyword) {
            Some(j) => if is_null(j) {
                None
            } else {
                match read_text_list(j) {
                    Ok(x) => Some(x),
                    Err(e) => {
                        return Err(e);
                    },
                }
            },
            None => None,
        };
        assert(optional(get(es.deep_view(), Key::DomainKeyword), |j: JsonView| json_text_list(j)) == Some(domain_keyword.deep_view()));
        let domain_regex = match get_field(es, Key::DomainRegex) {
            Some(j) => if is_null(j) {
                None
            } else {
                match read_text_list(j) {
                    Ok(x) => Some(x),
                    Err(e) => {
                        return Err(e);
                    },
                }
            },
            None => None,
        };
        assert(optional(get(es.deep_view(), Key::DomainRegex), |j: JsonView| json_text_list(j)) == Some(domain_regex.deep_view()));
        let source_ip_cidr = match get_field(es, Key::SourceIpCidr) {
            Some(j) => if is_null(j) {
                None
            } else {
                match read_text_list(j) {
                    Ok(x) => Some(x),
                    Err(e) => {
                        return Err(e);
                    },
                }
            },
            None => None,
        };
        assert(optional(get(es.deep_view(), Key::SourceIpCidr), |j: JsonView| json_text_list(j)) == Some(source_ip_cidr.deep_view()));
        let ip_is_private = match get_field(es, Key::IpIsPrivate) {
            Some(j) => if is_null(j) {
                None
            } else {
                match read_bool(j) {
                    Ok(x) => Some(x),
                    Err(e) => {
                        return Err(e);
                    },
                }
            },
            None => None,
        };
        assert(optional(get(es.deep_view(), Key::IpIsPrivate), |j: JsonView| json_bool(j)) == Some(ip_is_private.deep_view()));
        let ip_cidr = match get_field(es, Key::IpCidr) {
            Some(j) => if is_null(j) {
                None
            } else {
                match read_text_list(j) {
                    Ok(x) => Some(x),
                    Err(e) => {
                        return Err(e);
                    },
                }
            },
            None => None,
        };
        assert(optional(get(es.deep_view(), Key::IpCidr), |j: JsonView| json_text_list(j)) == Some(ip_cidr.deep_view()));
        let source_ip_is_private = match get_field(es, Key::SourceIpIsPrivate) {
            Some(j) => if is_null(j) {
                None
            } else {
                match read_bool(j) {
                    Ok(x) => Some(x),
                    Err(e) => {
                        return Err(e);
                    },
                }
            },
            None => None,
        };
        assert(optional(get(es.deep_view(), Key::SourceIpIsPrivate), |j: JsonView| json_bool(j)) == Some(source_ip_is_private.deep_view()));
        let source_port = match get_field(es, Key::SourcePort) {
            Some(j) => if is_null(j) {
                None
            } else {
                match read_u16_list(j) {
                    Ok(x) => Some(x),
                    Err(e) => {
                        return Err(e);
                    },
                }
            },
            None => None,
        };
        assert(optional(get(es.deep_view(), Key::SourcePort), |j: JsonView| json_u16_list(j)) == Some(source_port.deep_view()));
        let source_port_range = match get_field(es, Key::SourcePortRange) {
            Some(j) => if is_null(j) {
                None
            } else {
                match read_text_list(j) {
                    Ok(x) => Some(x),
                    Err(e) => {
                        return Err(e);
                    },
                }
            },
            None => None,
        };
        assert(optional(get(es.deep_view(), Key::SourcePortRange), |j: JsonView| json_text_list(j)) == Some(source_port_range.deep_view()));
        let port = match get_field(es, Key::Port) {
            Some(j) => if is_null(j) {
                None
            } else {
                match read_u16_list(j) {
                    Ok(x) => Some(x),
                    Err(e) => {
                        return Err(e);
                    },
                }
            },
            None => None,
        };
        assert(optional(get(es.deep_view(), Key::Port), |j: JsonView| json_u16_list(j)) == Some(port.deep_view()));
        let port_range = match get_field(es, Key::PortRange) {
            Some(j) => if is_null(j) {
                None
            } else {
                match read_text_list(j) {
                    Ok(x) => Some(x),
                    Err(e) => {
                        return Err(e);
                    },
                }
            },
            None => None,
        };
        assert(optional(get(es.deep_view(), Key::PortRange), |j: JsonView| json_text_list(j)) == Some(port_range.deep_view()));
        let process_name = match get_field(es, Key::ProcessName) {
            Some(j) => if is_null(j) {
                None
            } else {
                match read_text_list(j) {
                    Ok(x) => Some(x),
                    Err(e) => {
                        return Err(e);
                    },
                }
            },
            None => None,
        };
        assert(optional(get(es.deep_view(), Key::ProcessName), |j: JsonView| json_text_list(j)) == Some(process_name.deep_view()));
        let process_path = match get_field(es, Key::ProcessPath) {
            Some(j) => if is_null(j) {
                None
            } else {
                match read_text_list(j) {
                    Ok(x) => Some(x),
                    Err(e) => {
                        return Err(e);
                    },
                }
            },
            None => None,
        };
        assert(optional(get(es.deep_view(), Key::ProcessPath), |j: JsonView| json_text_list(j)) == Some(process_path.deep_view()));
        let process_path_regex = match get_field(es, Key::ProcessPathRegex) {
            Some(j) => if is_null(j) {
                None
            } else {
                match read_text_list(j) {
                    Ok(x) => Some(x),
                    Err(e) => {
                        return Err(e);
                    },
                }
            },
            None => None,
        };
        assert(optional(get(es.deep_view(), Key::ProcessPathRegex), |j: JsonView| json_text_list(j)) == Some(process_path_regex.deep_view()));
        let package_name = match get_field(es, Key::PackageName) {
            Some(j) => if is_null(j) {
                None
            } else {
                match read_text_list(j) {
                    Ok(x) => Some(x),
                    Err(e) => {
                        return Err(e);
                    },
                }
            },
            None => None,
        };
        assert(optional(get(es.deep_view(), Key::PackageName), |j: JsonView| json_text_list(j)) == Some(package_name.deep_view()));
        let user = match get_field(es, Key::User) {
            Some(j) => if is_null(j) {
                None
            } else {
                match read_text_list(j) {
                    Ok(x) => Some(x),
                    Err(e) => {
                        return Err(e);
                    },
                }
            },
            None => None,
        };
        assert(optional(get(es.deep_view(), Key::User), |j: JsonView| json_text_list(j)) == Some(user.deep_view()));
        let user_id = match get_field(es, Key::UserId) {
            Some(j) => if is_null(j) {
                None
            } else {
                match read_u16_list(j) {
                    Ok(x) => Some(x),
                    Err(e) => {
                        return Err(e);
                    },
                }
            },
            None => None,
        };
        assert(optional(get(es.deep_view(), Key::UserId), |j: JsonView| json_u16_list(j)) == Some(user_id.deep_view()));
        let clash_mode = match get_field(es, Key::ClashMode) {
            Some(j) => if is_null(j) {
                None
            } else {
                match read_text(j) {
                    Ok(x) => Some(x),
                    Err(e) => {
                        return Err(e);
                    },
                }
            },
            None => None,
        };
        assert(optional(get(es.deep_view(), Key::ClashMode), |j: JsonView| json_text(j)) == Some(clash_mode.deep_view()));
        let rule_set = match get_field(es, Key::RuleSet) {
            Some(j) => if is_null(j) {
                None
            } else {
                match read_text_list(j) {
                    Ok(x) => Some(x),
                    Err(e) => {
                        return Err(e);
                    },
                }
            },
            None => None,
        };
        assert(optional(get(es.deep_view(), Key::RuleSet), |j: JsonView| json_text_list(j)) == Some(rule_set.deep_view()));
        let rule_set_ip_cidr_match_source = match get_field(es, Key::RuleSetIpCidrMatchSource) {
            Some(j) => if is_null(j) {
                None
            } else {
                match read_text_list(j) {
                    Ok(x) => Some(x),
                    Err(e) => {
                        return Err(e);
                    },
                }
            },
            None => None,
        };
        assert(optional(get(es.deep_view(), Key::RuleSetIpCidrMatchSource), |j: JsonView| json_text_list(j)) == Some(rule_set_ip_cidr_match_source.deep_view()));
        let invert = match get_field(es, Key::Invert) {
            Some(j) => if is_null(j) {
                None
            } else {
                match read_bool(j) {
                    Ok(x) => Some(x),
                    Err(e) => {
                        return Err(e);
                    },
                }
            },
            None => None,
        };
        assert(optional(get(es.deep_view(), Key::Invert), |j: JsonView| json_bool(j)) == Some(invert.deep_view()));
        let action = match get_field(es, Key::Action) {
            Some(j) => if is_null(j) {
                None
            } else {
                match read_text(j) {
                    Ok(x) => Some(x),
                    Err(e) => {
                        return Err(e);
                    },
                }
            },
            None => None,
        };
        assert(optional(get(es.deep_view(), Key::Action), |j: JsonView| json_text(j)) == Some(action.deep_view()));
        let outbound = match get_field(es, Key::Outbound) {
            Some(j) => if is_null(j) {
                None
            } else {
                match read_text(j) {
                    Ok(x) => Some(x),
                    Err(e) => {
                        return Err(e);
                    },
                }
            },
            None => None,
        };
        assert(optional(get(es.deep_view(), Key::Outbound), |j: JsonView| json_text(j)) == Some(outbound.deep_view()));
        Ok(DefaultRouteRule { inbound, ip_version, auth_user, protocol, client, network, domain, domain_suffix, domain_keyword, domain_regex, source_ip_cidr, ip_is_private, ip_cidr, source_ip_is_private, source_port, source_port_range, port, port_range, process_name, process_path, process_path_regex, package_name, user, user_id, clash_mode, rule_set, rule_set_ip_cidr_match_source, invert, action, outbound })
    }

    /// Reads the value from an object, as `DefaultRouteRuleView::from_json` says.
    pub fn from_json(j: &Json) -> (r: Result<DefaultRouteRule, SchemaMismatch>)
        ensures
            match r {
                Ok(x) => DefaultRouteRuleView::from_json(j@) == Some(x@),
                Err(_) => DefaultRouteRuleView::from_json(j@) is None,
            },
    {
        match read_entries(j) {
            Ok(es) => DefaultRouteRule::from_record(&es),
            Err(e) => Err(e),
        }
    }
}

impl DefaultRouteRuleView {
    /// The record holds nothing under the key `type`.
    pub proof fn lemma_has_no_type(self)
        ensures
            get(self.record(), Key::Type) is None,
    {
        broadcast use {lemma_get_empty, lemma_get_put, lemma_get_merge};

    }
}

/// Sends the connection to an outbound.
#[derive(Debug, Clone, PartialEq)]
pub struct RouteAction {
    pub action: Option<String>,
    pub outbound: Option<String>,
    pub override_address: Option<String>,
    pub override_port: Option<u16>,
    pub network_strategy: Option<String>,
    pub fallback_delay: Option<String>,
    pub udp_disable_domain_unmapping: Option<bool>,
    pub udp_connect: Option<bool>,
    pub udp_timeout: Option<String>,
    pub tls_fragment: Option<bool>,
    pub tls_fragment_fallback_delay: Option<String>,
    pub tls_record_fragment: Option<String>,
}

/// What a [`RouteAction`] holds, with every text as its characters.
pub struct RouteActionView {
    pub action: Option<Seq<char>>,
    pub outbound: Option<Seq<char>>,
    pub override_address: Option<Seq<char>>,
    pub override_port: Option<u16>,
    pub network_strategy: Option<Seq<char>>,
    pub fallback_delay: Option<Seq<char>>,
    pub udp_disable_domain_unmapping: Option<bool>,
    pub udp_connect: Option<bool>,
    pub udp_timeout: Option<Seq<char>>,
    pub tls_fragment: Option<bool>,
    pub tls_fragment_fallback_delay: Option<Seq<char>>,
    pub tls_record_fragment: Option<Seq<char>>,
}

impl DeepView for RouteAction {
    type V = RouteActionView;

    open spec fn deep_view(&self) -> RouteActionView {
        RouteActionView {
            action: self.action.deep_view(),
            outbound: self.outbound.deep_view(),
            override_address: self.override_address.deep_view(),
            override_port: self.override_port.deep_view(),
            network_strategy: self.network_strategy.deep_view(),
            fallback_delay: self.fallback_delay.deep_view(),
            udp_disable_domain_unmapping: self.udp_disable_domain_unmapping.deep_view(),
            udp_connect: self.udp_connect.deep_view(),
            udp_timeout: self.udp_timeout.deep_view(),
            tls_fragment: self.tls_fragment.deep_view(),
            tls_fragment_fallback_delay: self.tls_fragment_fallback_delay.deep_view(),
            tls_record_fragment: self.tls_record_fragment.deep_view(),
        }
    }
}

impl View for RouteAction {
    type V = RouteActionView;

    open spec fn view(&self) -> RouteActionView {
        self.deep_view()
    }
}

impl RouteActionView {
    /// The view of what [`RouteAction::new`] returns.
    pub open spec fn fresh() -> RouteActionView {
        RouteActionView {
            action: Some("route"@),
            outbound: None,
            override_address: None,
            override_port: None,
            network_strategy: None,
            fallback_delay: None,
            udp_disable_domain_unmapping: None,
            udp_connect: None,
            udp_timeout: None,
            tls_fragment: None,
            tls_fragment_fallback_delay: None,
            tls_record_fragment: None,
        }
    }
}

impl RouteAction {
    /// A route action that names no outbound yet.
    pub fn new() -> (r: Self)
        ensures
            r@ == RouteActionView::fresh(),
    {
        RouteAction {
            action: Some("route".to_owned()),
            outbound: None,
            override_address: None,
            override_port: None,
            network_strategy: None,
            fallback_delay: None,
            udp_disable_domain_unmapping: None,
            udp_connect: None,
            udp_timeout: None,
            tls_fragment: None,
            tls_fragment_fallback_delay: None,
            tls_record_fragment: None,
        }
    }
}

impl RouteActionView {
    /// The entries of the record that stands for the value: one for each
    /// field that is set, in the order of the fields.
    pub open spec fn record(self) -> Entries {
        let es = Seq::empty();
        let es = put(es, Key::Action, present(self.action, |x: Seq<char>| text_json(x)));
        let es = put(es, Key::Outbound, present(self.outbound, |x: Seq<char>| text_json(x)));
        let es = put(es, Key::OverrideAddress, present(self.override_address, |x: Seq<char>| text_json(x)));
        let es = put(es, Key::OverridePort, present(self.override_port, |x: u16| u16_json(x)));
        let es = put(es, Key::NetworkStrategy, present(self.network_strategy, |x: Seq<char>| text_json(x)));
        let es = put(es, Key::FallbackDelay, present(self.fallback_delay, |x: Seq<char>| text_json(x)));
        let es = put(es, Key::UdpDisableDomainUnmapping, present(self.udp_disable_domain_unmapping, |x: bool| bool_json(x)));
        let es = put(es, Key::UdpConnect, present(self.udp_connect, |x: bool| bool_json(x)));
        let es = put(es, Key::UdpTimeout, present(self.udp_timeout, |x: Seq<char>| text_json(x)));
        let es = put(es, Key::TlsFragment, present(self.tls_fragment, |x: bool| bool_json(x)));
        let es = put(es, Key::TlsFragmentFallbackDelay, present(self.tls_fragment_fallback_delay, |x: Seq<char>| text_json(x)));
        let es = put(es, Key::TlsRecordFragment, present(self.tls_record_fragment, |x: Seq<char>| text_json(x)));
        es
    }

    /// The record that stands for the value.
    pub open spec fn to_json(self) -> JsonView {
        JsonView::Record(self.record())
    }

    /// The value that the entries of an object stand for. Fails where an
    /// entry holds a value of the wrong shape.
    pub open spec fn from_record(es: Entries) -> Option<RouteActionView> {
        let action = optional(get(es, Key::Action), |j: JsonView| json_text(j));
        let outbound = optional(get(es, Key::Outbound), |j: JsonView| json_text(j));
        let override_address = optional(get(es, Key::OverrideAddress), |j: JsonView| json_text(j));
        let override_port = optional(get(es, Key::OverridePort), |j: JsonView| json_u16(j));
        let network_strategy = optional(get(es, Key::NetworkStrategy), |j: JsonView| json_text(j));
        let fallback_delay = optional(get(es, Key::FallbackDelay), |j: JsonView| json_text(j));
        let udp_disable_domain_unmapping = optional(get(es, Key::UdpDisableDomainUnmapping), |j: JsonView| json_bool(j));
        let udp_connect = optional(get(es, Key::UdpConnect), |j: JsonView| json_bool(j));
        let udp_timeout = optional(get(es, Key::UdpTimeout), |j: JsonView| json_text(j));
        let tls_fragment = optional(get(es, Key::TlsFragment), |j: JsonView| json_bool(j));
        let tls_fragment_fallback_delay = optional(get(es, Key::TlsFragmentFallbackDelay), |j: JsonView| json_text(j));
        let tls_record_fragment = optional(get(es, Key::TlsRecordFragment), |j: JsonView| json_text(j));
        if action is Some
            && outbound is Some
            && override_address is Some
            && override_port is Some
            && network_strategy is Some
            && fallback_delay is Some
            && udp_disable_domain_unmapping is Some
            && udp_connect is Some
            && udp_timeout is Some
            && tls_fragment is Some
            && tls_fragment_fallback_delay is Some
            && tls_record_fragment is Some {
            Some(
                RouteActionView {
                    action: action->0,
                    outbound: outbound->0,
                    override_address: override_address->0,
                    override_port: override_port->0,
                    network_strategy: network_strategy->0,
                    fallback_delay: fallback_delay->0,
                    udp_disable_domain_unmapping: udp_disable_domain_unmapping->0,
                    udp_connect: udp_connect->0,
                    udp_timeout: udp_timeout->0,
                    tls_fragment: tls_fragment->0,
                    tls_fragment_fallback_delay: tls_fragment_fallback_delay->0,
                    tls_record_fragment: tls_record_fragment->0,
                },
            )
        } else {
            None
        }
    }

    /// The value that an object stands for; none for a value that is no
    /// object.
    pub open spec fn from_json(j: JsonView) -> Option<RouteActionView> {
        match entries_of(j) {
            Some(es) => RouteActionView::from_record(es),
            None => None,
        }
    }

    /// Whether the value is written in a form from which it is read back:
    /// every value of this type is.
    pub open spec fn canonical(self) -> bool {
        true
    }

    /// The value with no field set.
    pub open spec fn blank() -> RouteActionView {
        RouteActionView {
            action: None,
            outbound: None,
            override_address: None,
            override_port: None,
            network_strategy: None,
            fallback_delay: None,
            udp_disable_domain_unmapping: None,
            udp_connect: None,
            udp_timeout: None,
            tls_fragment: None,
            tls_fragment_fallback_delay: None,
            tls_record_fragment: None,
        }
    }

    /// The group that the entries of an object stand for where the fields
    /// of the group are written among those of its owner: no group where
    /// none of its fields is set.
    pub open spec fn from_group(es: Entries) -> Option<Option<RouteActionView>> {
        match RouteActionView::from_record(es) {
            Some(x) => if x == RouteActionView::blank() {
                Some(None)
            } else {
                Some(Some(x))
            },
            None => None,
        }
    }

    /// What the group reads depends only on what stands under its keys.
    pub proof fn lemma_reads_own_keys(a: Entries, b: Entries)
        requires
            get(a, Key::Action) == get(b, Key::Action),
            get(a, Key::Outbound) == get(b, Key::Outbound),
            get(a, Key::OverrideAddress) == get(b, Key::OverrideAddress),
            get(a, Key::OverridePort) == get(b, Key::OverridePort),
            get(a, Key::NetworkStrategy) == get(b, Key::NetworkStrategy),
            get(a, Key::FallbackDelay) == get(b, Key::FallbackDelay),
            get(a, Key::UdpDisableDomainUnmapping) == get(b, Key::UdpDisableDomainUnmapping),
            get(a, Key::UdpConnect) == get(b, Key::UdpConnect),
            get(a, Key::UdpTimeout) == get(b, Key::UdpTimeout),
            get(a, Key::TlsFragment) == get(b, Key::TlsFragment),
            get(a, Key::TlsFragmentFallbackDelay) == get(b, Key::TlsFragmentFallbackDelay),
            get(a, Key::TlsRecordFragment) == get(b, Key::TlsRecordFragment),
        ensures
            RouteActionView::from_record(a) == RouteActionView::from_record(b),
            RouteActionView::from_group(a) == RouteActionView::from_group(b),
    {
    }

    /// Entries that hold nothing under the keys of the group stand for no
    /// group.
    pub proof fn lemma_no_group(es: Entries)
        requires
            get(es, Key::Action) is None,
            get(es, Key::Outbound) is None,
            get(es, Key::OverrideAddress) is None,
            get(es, Key::OverridePort) is None,
            get(es, Key::NetworkStrategy) is None,
            get(es, Key::FallbackDelay) is None,
            get(es, Key::UdpDisableDomainUnmapping) is None,
            get(es, Key::UdpConnect) is None,
            get(es, Key::UdpTimeout) is None,
            get(es, Key::TlsFragment) is None,
            get(es, Key::TlsFragmentFallbackDelay) is None,
            get(es, Key::TlsRecordFragment) is None,
        ensures
            RouteActionView::from_group(es) == Some(None::<RouteActionView>),
    {
    }

    /// The value is read back from the record that stands for it.
    pub proof fn lemma_round_trip(self)
        ensures
            RouteActionView::from_record(self.record()) == Some(self),
            RouteActionView::from_json(self.to_json()) == Some(self),
            self != RouteActionView::blank() ==> RouteActionView::from_group(self.record()) == Some(Some(self)),
    {
        broadcast use {lemma_get_empty, lemma_get_put, lemma_get_merge};

        let es = self.record();
        assert(optional(get(es, Key::Action), |j: JsonView| json_text(j)) == Some(self.action));
        assert(optional(get(es, Key::Outbound), |j: JsonView| json_text(j)) == Some(self.outbound));
        assert(optional(get(es, Key::OverrideAddress), |j: JsonView| json_text(j)) == Some(self.override_address));
        assert(optional(get(es, Key::OverridePort), |j: JsonView| json_u16(j)) == Some(self.override_port));
        assert(optional(get(es, Key::NetworkStrategy), |j: JsonView| json_text(j)) == Some(self.network_strategy));
        assert(optional(get(es, Key::FallbackDelay), |j: JsonView| json_text(j)) == Some(self.fallback_delay));
        assert(optional(get(es, Key::UdpDisableDomainUnmapping), |j: JsonView| json_bool(j)) == Some(self.udp_disable_domain_unmapping));
        assert(optional(get(es, Key::UdpConnect), |j: JsonView| json_bool(j)) == Some(self.udp_connect));
        assert(optional(get(es, Key::UdpTimeout), |j: JsonView| json_text(j)) == Some(self.udp_timeout));
        assert(optional(get(es, Key::TlsFragment), |j: JsonView| json_bool(j)) == Some(self.tls_fragment));
        assert(optional(get(es, Key::TlsFragmentFallbackDelay), |j: JsonView| json_text(j)) == Some(self.tls_fragment_fallback_delay));
        assert(optional(get(es, Key::TlsRecordFragment), |j: JsonView| json_text(j)) == Some(self.tls_record_fragment));
    }
}

impl RouteAction {
    /// The entries of the record that stands for the value, as
    /// `RouteActionView::record` lists them.
    pub fn record(&self) -> (r: Vec<(Key, Json)>)
        ensures
            r.deep_view() == self@.record(),
    {
        let mut es: Vec<(Key, Json)> = no_entries();
        let ghost s = Seq::<(Key, JsonView)>::empty();
        let value = match &self.action {
            Some(x) => Some(Json::Text(x.clone())),
            None => None,
        };
        put_field(&mut es, Key::Action, value);
        let ghost s = put(s, Key::Action, present(self@.action, |x: Seq<char>| text_json(x)));
        assert(es.deep_view() == s);
        let value = match &self.outbound {
            Some(x) => Some(Json::Text(x.clone())),
            None => None,
        };
        put_field(&mut es, Key::Outbound, value);
        let ghost s = put(s, Key::Outbound, present(self@.outbound, |x: Seq<char>| text_json(x)));
        assert(es.deep_view() == s);
        let value = match &self.override_address {
            Some(x) => Some(Json::Text(x.clone())),
            None => None,
        };
        put_field(&mut es, Key::OverrideAddress, value);
        let ghost s = put(s, Key::OverrideAddress, present(self@.override_address, |x: Seq<char>| text_json(x)));
        assert(es.deep_view() == s);
        let value = match &self.override_port {
            Some(x) => Some(Json::Unsigned(*x as u64)),
            None => None,
        };
        put_field(&mut es, Key::OverridePort, value);
        let ghost s = put(s, Key::OverridePort, present(self@.override_port, |x: u16| u16_json(x)));
        assert(es.deep_view() == s);
        let value = match &self.network_strategy {
            Some(x) => Some(Json::Text(x.clone())),
            None => None,
        };
        put_field(&mut es, Key::NetworkStrategy, value);
        let ghost s = put(s, Key::NetworkStrategy, present(self@.network_strategy, |x: Seq<char>| text_json(x)));
        assert(es.deep_view() == s);
        let value = match &self.fallback_delay {
            Some(x) => Some(Json::Text(x.clone())),
            None => None,
        };
        put_field(&mut es, Key::FallbackDelay, value);
        let ghost s = put(s, Key::FallbackDelay, present(self@.fallback_delay, |x: Seq<char>| text_json(x)));
        assert(es.deep_view() == s);
        let value = match &self.udp_disable_domain_unmapping {
            Some(x) => Some(Json::Bool(*x)),
            None => None,
        };
        put_field(&mut es, Key::UdpDisableDomainUnmapping, value);
        let ghost s = put(s, Key::UdpDisableDomainUnmapping, present(self@.udp_disable_domain_unmapping, |x: bool| bool_json(x)));
        assert(es.deep_view() == s);
        let value = match &self.udp_connect {
            Some(x) => Some(Json::Bool(*x)),
            None => None,
        };
        put_field(&mut es, Key::UdpConnect, value);
        let ghost s = put(s, Key::UdpConnect, present(self@.udp_connect, |x: bool| bool_json(x)));
        assert(es.deep_view() == s);
        let value = match &self.udp_timeout {
            Some(x) => Some(Json::Text(x.clone())),
            None => None,
        };
        put_field(&mut es, Key::UdpTimeout, value);
        let ghost s = put(s, Key::UdpTimeout, present(self@.udp_timeout, |x: Seq<char>| text_json(x)));
        assert(es.deep_view() == s);
        let value = match &self.tls_fragment {
            Some(x) => Some(Json::Bool(*x)),
            None => None,
        };
        put_field(&mut es, Key::TlsFragment, value);
        let ghost s = put(s, Key::TlsFragment, present(self@.tls_fragment, |x: bool| bool_json(x)));
        assert(es.deep_view() == s);
        let value = match &self.tls_fragment_fallback_delay {
            Some(x) => Some(Json::Text(x.clone())),
            None => None,
        };
        put_field(&mut es, Key::TlsFragmentFallbackDelay, value);
        let ghost s = put(s, Key::TlsFragmentFallbackDelay, present(self@.tls_fragment_fallback_delay, |x: Seq<char>| text_json(x)));
        assert(es.deep_view() == s);
        let value = match &self.tls_record_fragment {
            Some(x) => Some(Json::Text(x.clone())),
            None => None,
        };
        put_field(&mut es, Key::TlsRecordFragment, value);
        let ghost s = put(s, Key::TlsRecordFragment, present(self@.tls_record_fragment, |x: Seq<char>| text_json(x)));
        assert(es.deep_view() == s);
        es
    }

    /// The record that stands for the value.
    pub fn to_json(&self) -> (r: Json)
        ensures
            r@ == self@.to_json(),
    {
        let r = Json::Record(self.record());
        proof {
            lemma_json_view(r);
        }
        r
    }

    /// Reads the value from the entries of an object, as
    /// `RouteActionView::from_record` says.
    pub fn from_record(es: &Vec<(Key, &Json)>) -> (r: Result<RouteAction, SchemaMismatch>)
        ensures
            match r {
                Ok(x) => RouteActionView::from_record(es.deep_view()) == Some(x@),
                Err(_) => RouteActionView::from_record(es.deep_view()) is None,
            },
    {
        let action = match get_field(es, Key::Action) {
            Some(j) => if is_null(j) {
                None
            } else {
                match read_text(j) {
                    Ok(x) => Some(x),
                    Err(e) => {
                        return Err(e);
                    },
                }
            },
            None => None,
        };
        assert(optional(get(es.deep_view(), Key::Action), |j: JsonView| json_text(j)) == Some(action.deep_view()));
        let outbound = match get_field(es, Key::Outbound) {
            Some(j) => if is_null(j) {
                None
            } else {
                match read_text(j) {
                    Ok(x) => Some(x),
                    Err(e) => {
                        return Err(e);
                    },
                }
            },
            None => None,
        };
        assert(optional(get(es.deep_view(), Key::Outbound), |j: JsonView| json_text(j)) == Some(outbound.deep_view()));
        let override_address = match get_field(es, Key::OverrideAddress) {
            Some(j) => if is_null(j) {
                None
            } else {
                match read_text(j) {
                    Ok(x) => Some(x),
                    Err(e) => {
                        return Err(e);
                    },
                }
            },
            None => None,
        };
        assert(optional(get(es.deep_view(), Key::OverrideAddress), |j: JsonView| json_text(j)) == Some(override_address.deep_view()));
        let override_port = match get_field(es, Key::OverridePort) {
            Some(j) => if is_null(j) {
                None
            } else {
                match read_u16(j) {
                    Ok(x) => Some(x),
                    Err(e) => {
                        return Err(e);
                    },
                }
            },
            None => None,
        };
        assert(optional(get(es.deep_view(), Key::OverridePort), |j: JsonView| json_u16(j)) == Some(override_port.deep_view()));
        let network_strategy = match get_field(es, Key::NetworkStrategy) {
            Some(j) => if is_null(j) {
                None
            } else {
                match read_text(j) {
                    Ok(x) => Some(x),
                    Err(e) => {
                        return Err(e);
                    },
                }
            },
            None => None,
        };
        assert(optional(get(es.deep_view(), Key::NetworkStrategy), |j: JsonView| json_text(j)) == Some(network_strategy.deep_view()));
        let fallback_delay = match get_field(es, Key::FallbackDelay) {
            Some(j) => if is_null(j) {
                None
            } else {
                match read_text(j) {
                    Ok(x) => Some(x),
                    Err(e) => {
                        return Err(e);
                    },
                }
            },
            None => None,
        };
        assert(optional(get(es.deep_view(), Key::FallbackDelay), |j: JsonView| json_text(j)) == Some(fallback_delay.deep_view()));
        let udp_disable_domain_unmapping = match get_field(es, Key::UdpDisableDomainUnmapping) {
            Some(j) => if is_null(j) {
                None
            } else {
                match read_bool(j) {
                    Ok(x) => Some(x),
                    Err(e) => {
                        return Err(e);
                    },
                }
            },
            None => None,
        };
        assert(optional(get(es.deep_view(), Key::UdpDisableDomainUnmapping), |j: JsonView| json_bool(j)) == Some(udp_disable_domain_unmapping.deep_view()));
        let udp_connect = match get_field(es, Key::UdpConnect) {
            Some(j) => if is_null(j) {
                None
            } else {
                match read_bool(j) {
                    Ok(x) => Some(x),
                    Err(e) => {
                        return Err(e);
                    },
                }
            },
            None => None,
        };
        assert(optional(get(es.deep_view(), Key::UdpConnect), |j: JsonView| json_bool(j)) == Some(udp_connect.deep_view()));
        let udp_timeout = match get_field(es, Key::UdpTimeout) {
            Some(j) => if is_null(j) {
                None
            } else {
                match read_text(j) {
                    Ok(x) => Some(x),
                    Err(e) => {
                        return Err(e);
                    },
                }
            },
            None => None,
        };
        assert(optional(get(es.deep_view(), Key::UdpTimeout), |j: JsonView| json_text(j)) == Some(udp_timeout.deep_view()));
        let tls_fragment = match get_field(es, Key::TlsFragment) {
            Some(j) => if is_null(j) {
                None
            } else {
                match read_bool(j) {
                    Ok(x) => Some(x),
                    Err(e) => {
                        return Err(e);
                    },
                }
            },
            None => None,
        };
        assert(optional(get(es.deep_view(), Key::TlsFragment), |j: JsonView| json_bool(j)) == Some(tls_fragment.deep_view()));
        let tls_fragment_fallback_delay = match get_field(es, Key::TlsFragmentFallbackDelay) {
            Some(j) => if is_null(j) {
                None
            } else {
                match read_text(j) {
                    Ok(x) => Some(x),
                    Err(e) => {
                        return Err(e);
                    },
                }
            },
            None => None,
        };
        assert(optional(get(es.deep_view(), Key::TlsFragmentFallbackDelay), |j: JsonView| json_text(j)) == Some(tls_fragment_fallback_delay.deep_view()));
        let tls_record_fragment = match get_field(es, Key::TlsRecordFragment) {
            Some(j) => if is_null(j) {
                None
            } else {
                match read_text(j) {
                    Ok(x) => Some(x),
                    Err(e) => {
                        return Err(e);
                    },
                }
            },
            None => None,
        };
        assert(optional(get(es.deep_view(), Key::TlsRecordFragment), |j: JsonView| json_text(j)) == Some(tls_record_fragment.deep_view()));
        Ok(RouteAction { action, outbound, override_address, override_port, network_strategy, fallback_delay, udp_disable_domain_unmapping, udp_connect, udp_timeout, tls_fragment, tls_fragment_fallback_delay, tls_record_fragment })
    }

    /// Reads the value from an object, as `RouteActionView::from_json` says.
    pub fn from_json(j: &Json) -> (r: Result<RouteAction, SchemaMismatch>)
        ensures
            match r {
                Ok(x) => RouteActionView::from_json(j@) == Some(x@),
                Err(_) => RouteActionView::from_json(j@) is None,
            },
    {
        match read_entries(j) {
            Ok(es) => RouteAction::from_record(&es),
            Err(e) => Err(e),
        }
    }

    /// Whether no field of the group is set.
    pub fn is_blank(&self) -> (r: bool)
        ensures
            r == (self@ == RouteActionView::blank()),
    {
        self.action.is_none()
            && self.outbound.is_none()
            && self.override_address.is_none()
            && self.override_port.is_none()
            && self.network_strategy.is_none()
            && self.fallback_delay.is_none()
            && self.udp_disable_domain_unmapping.is_none()
            && self.udp_connect.is_none()
            && self.udp_timeout.is_none()
            && self.tls_fragment.is_none()
            && self.tls_fragment_fallback_delay.is_none()
            && self.tls_record_fragment.is_none()
    }

    /// Reads the group from the entries of its owner, as
    /// `RouteActionView::from_group` says.
    pub fn from_group(es: &Vec<(Key, &Json)>) -> (r: Result<Option<RouteAction>, SchemaMismatch>)
        ensures
            match r {
                Ok(g) => RouteActionView::from_group(es.deep_view()) == Some(g.deep_view()),
                Err(_) => RouteActionView::from_group(es.deep_view()) is None,
            },
    {
        match RouteAction::from_record(es) {
            Ok(x) => if x.is_blank() {
                Ok(None)
            } else {
                Ok(Some(x))
            },
            Err(e) => Err(e),
        }
    }
}

impl RouteActionView {
    /// The record holds nothing under the key `type`.
    pub proof fn lemma_has_no_type(self)
        ensures
            get(self.record(), Key::Type) is None,
    {
        broadcast use {lemma_get_empty, lemma_get_put, lemma_get_merge};

    }
}

/// Refuses the connection.
#[derive(Debug, Clone, PartialEq)]
pub struct RejectAction {
    pub action: Option<String>,
    pub method: Option<String>,
    pub no_drop: Option<bool>,
}

/// What a [`RejectAction`] holds, with every text as its characters.
pub struct RejectActionView {
    pub action: Option<Seq<char>>,
    pub method: Option<Seq<char>>,
    pub no_drop: Option<bool>,
}

impl DeepView for RejectAction {
    type V = RejectActionView;

    open spec fn deep_view(&self) -> RejectActionView {
        RejectActionView {
            action: self.action.deep_view(),
            method: self.method.deep_view(),
            no_drop: self.no_drop.deep_view(),
        }
    }
}

impl View for RejectAction {
    type V = RejectActionView;

    open spec fn view(&self) -> RejectActionView {
        self.deep_view()
    }
}

impl RejectActionView {
    /// The view of what [`RejectAction::new`] returns.
    pub open spec fn fresh() -> RejectActionView {
        RejectActionView {
            action: Some("reject"@),
            method: None,
            no_drop: None,
        }
    }
}

impl RejectAction {
    /// A reject action.
    pub fn new() -> (r: Self)
        ensures
            r@ == RejectActionView::fresh(),
    {
        RejectAction {
            action: Some("reject".to_owned()),
            method: None,
            no_drop: None,
        }
    }
}

impl RejectActionView {
    /// The entries of the record that stands for the value: one for each
    /// field that is set, in the order of the fields.
    pub open spec fn record(self) -> Entries {
        let es = Seq::empty();
        let es = put(es, Key::Action, present(self.action, |x: Seq<char>| text_json(x)));
        let es = put(es, Key::Method, present(self.method, |x: Seq<char>| text_json(x)));
        let es = put(es, Key::NoDrop, present(self.no_drop, |x: bool| bool_json(x)));
        es
    }

    /// The record that stands for the value.
    pub open spec fn to_json(self) -> JsonView {
        JsonView::Record(self.record())
    }

    /// The value that the entries of an object stand for. Fails where an
    /// entry holds a value of the wrong shape.
    pub open spec fn from_record(es: Entries) -> Option<RejectActionView> {
        let action = optional(get(es, Key::Action), |j: JsonView| json_text(j));
        let method = optional(get(es, Key::Method), |j: JsonView| json_text(j));
        let no_drop = optional(get(es, Key::NoDrop), |j: JsonView| json_bool(j));
        if action is Some
            && method is Some
            && no_drop is Some {
            Some(
                RejectActionView {
                    action: action->0,
                    method: method->0,
                    no_drop: no_drop->0,
                },
            )
        } else {
            None
        }
    }

    /// The value that an object stands for; none for a value that is no
    /// object.
    pub open spec fn from_json(j: JsonView) -> Option<RejectActionView> {
        match entries_of(j) {
            Some(es) => RejectActionView::from_record(es),
            None => None,
        }
    }

    /// Whether the value is written in a form from which it is read back:
    /// every value of this type is.
    pub open spec fn canonical(self) -> bool {
        true
    }

    /// The value with no field set.
    pub open spec fn blank() -> RejectActionView {
        RejectActionView {
            action: None,
            method: None,
            no_drop: None,
        }
    }

    /// The group that the entries of an object stand for where the fields
    /// of the group are written among those of its owner: no group where
    /// none of its fields is set.
    pub open spec fn from_group(es: Entries) -> Option<Option<RejectActionView>> {
        match RejectActionView::from_record(es) {
            Some(x) => if x == RejectActionView::blank() {
                Some(None)
            } else {
                Some(Some(x))
            },
            None => None,
        }
    }

    /// What the group reads depends only on what stands under its keys.
    pub proof fn lemma_reads_own_keys(a: Entries, b: Entries)
        requires
            get(a, Key::Action) == get(b, Key::Action),
            get(a, Key::Method) == get(b, Key::Method),
            get(a, Key::NoDrop) == get(b, Key::NoDrop),
        ensures
            RejectActionView::from_record(a) == RejectActionView::from_record(b),
            RejectActionView::from_group(a) == RejectActionView::from_group(b),
    {
    }

    /// Entries that hold nothing under the keys of the group stand for no
    /// group.
    pub proof fn lemma_no_group(es: Entries)
        requires
            get(es, Key::Action) is None,
            get(es, Key::Method) is None,
            get(es, Key::NoDrop) is None,
        ensures
            RejectActionView::from_group(es) == Some(None::<RejectActionView>),
    {
    }

    /// The value is read back from the record that stands for it.
    pub proof fn lemma_round_trip(self)
        ensures
            RejectActionView::from_record(self.record()) == Some(self),
            RejectActionView::from_json(self.to_json()) == Some(self),
            self != RejectActionView::blank() ==> RejectActionView::from_group(self.record()) == Some(Some(self)),
    {
        broadcast use {lemma_get_empty, lemma_get_put, lemma_get_merge};

        let es = self.record();
        assert(optional(get(es, Key::Action), |j: JsonView| json_text(j)) == Some(self.action));
        assert(optional(get(es, Key::Method), |j: JsonView| json_text(j)) == Some(self.method));
        assert(optional(get(es, Key::NoDrop), |j: JsonView| json_bool(j)) == Some(self.no_drop));
    }
}

impl RejectAction {
    /// The entries of the record that stands for the value, as
    /// `RejectActionView::record` lists them.
    pub fn record(&self) -> (r: Vec<(Key, Json)>)
        ensures
            r.deep_view() == self@.record(),
    {
        let mut es: Vec<(Key, Json)> = no_entries();
        let ghost s = Seq::<(Key, JsonView)>::empty();
        let value = match &self.action {
            Some(x) => Some(Json::Text(x.clone())),
            None => None,
        };
        put_field(&mut es, Key::Action, value);
        let ghost s = put(s, Key::Action, present(self@.action, |x: Seq<char>| text_json(x)));
        assert(es.deep_view() == s);
        let value = match &self.method {
            Some(x) => Some(Json::Text(x.clone())),
            None => None,
        };
        put_field(&mut es, Key::Method, value);
        let ghost s = put(s, Key::Method, present(self@.method, |x: Seq<char>| text_json(x)));
        assert(es.deep_view() == s);
        let value = match &self.no_drop {
            Some(x) => Some(Json::Bool(*x)),
            None => None,
        };
        put_field(&mut es, Key::NoDrop, value);
        let ghost s = put(s, Key::NoDrop, present(self@.no_drop, |x: bool| bool_json(x)));
        assert(es.deep_view() == s);
        es
    }

    /// The record that stands for the value.
    pub fn to_json(&self) -> (r: Json)
        ensures
            r@ == self@.to_json(),
    {
        let r = Json::Record(self.record());
        proof {
            lemma_json_view(r);
        }
        r
    }

    /// Reads the value from the entries of an object, as
    /// `RejectActionView::from_record` says.
    pub fn from_record(es: &Vec<(Key, &Json)>) -> (r: Result<RejectAction, SchemaMismatch>)
        ensures
            match r {
                Ok(x) => RejectActionView::from_record(es.deep_view()) == Some(x@),
                Err(_) => RejectActionView::from_record(es.deep_view()) is None,
            },
    {
        let action = match get_field(es, Key::Action) {
            Some(j) => if is_null(j) {
                None
            } else {
                match read_text(j) {
                    Ok(x) => Some(x),
                    Err(e) => {
                        return Err(e);
                    },
                }
            },
            None => None,
        };
        assert(optional(get(es.deep_view(), Key::Action), |j: JsonView| json_text(j)) == Some(action.deep_view()));
        let method = match get_field(es, Key::Method) {
            Some(j) => if is_null(j) {
                None
            } else {
                match read_text(j) {
                    Ok(x) => Some(x),
                    Err(e) => {
                        return Err(e);
                    },
                }
            },
            None => None,
        };
        assert(optional(get(es.deep_view(), Key::Method), |j: JsonView| json_text(j)) == Some(method.deep_view()));
        let no_drop = match get_field(es, Key::NoDrop) {
            Some(j) => if is_null(j) {
                None
            } else {
                match read_bool(j) {
                    Ok(x) => Some(x),
                    Err(e) => {
                        return Err(e);
                    },
                }
            },
            None => None,
        };
        assert(optional(get(es.deep_view(), Key::NoDrop), |j: JsonView| json_bool(j)) == Some(no_drop.deep_view()));
        Ok(RejectAction { action, method, no_drop })
    }

    /// Reads the value from an object, as `RejectActionView::from_json` says.
    pub fn from_json(j: &Json) -> (r: Result<RejectAction, SchemaMismatch>)
        ensures
            match r {
                Ok(x) => RejectActionView::from_json(j@) == Some(x@),
                Err(_) => RejectActionView::from_json(j@) is None,
            },
    {
        match read_entries(j) {
            Ok(es) => RejectAction::from_record(&es),
            Err(e) => Err(e),
        }
    }

    /// Whether no field of the group is set.
    pub fn is_blank(&self) -> (r: bool)
        ensures
            r == (self@ == RejectActionView::blank()),
    {
        self.action.is_none()
            && self.method.is_none()
            && self.no_drop.is_none()
    }

    /// Reads the group from the entries of its owner, as
    /// `RejectActionView::from_group` says.
    pub fn from_group(es: &Vec<(Key, &Json)>) -> (r: Result<Option<RejectAction>, SchemaMismatch>)
        ensures
            match r {
                Ok(g) => RejectActionView::from_group(es.deep_view()) == Some(g.deep_view()),
                Err(_) => RejectActionView::from_group(es.deep_view()) is None,
            },
    {
        match RejectAction::from_record(es) {
            Ok(x) => if x.is_blank() {
                Ok(None)
            } else {
                Ok(Some(x))
            },
            Err(e) => Err(e),
        }
    }
}

impl RejectActionView {
    /// The record holds nothing under the key `type`.
    pub proof fn lemma_has_no_type(self)
        ensures
            get(self.record(), Key::Type) is None,
    {
        broadcast use {lemma_get_empty, lemma_get_put, lemma_get_merge};

    }
}

/// Answers a DNS connection from the DNS section.
#[derive(Debug, Clone, PartialEq)]
pub struct HijackDnsAction {
    pub action: Option<String>,
}

/// What a [`HijackDnsAction`] holds, with every text as its characters.
pub struct HijackDnsActionView {
    pub action: Option<Seq<char>>,
}

impl DeepView for HijackDnsAction {
    type V = HijackDnsActionView;

    open spec fn deep_view(&self) -> HijackDnsActionView {
        HijackDnsActionView {
            action: self.action.deep_view(),
        }
    }
}

impl View for HijackDnsAction {
    type V = HijackDnsActionView;

    open spec fn view(&self) -> HijackDnsActionView {
        self.deep_view()
    }
}

impl HijackDnsActionView {
    /// The view of what [`HijackDnsAction::new`] returns.
    pub open spec fn fresh() -> HijackDnsActionView {
        HijackDnsActionView {
            action: Some("hijack-dns"@),
        }
    }
}

impl HijackDnsAction {
    /// A hijack-dns action.
    pub fn new() -> (r: Self)
        ensures
            r@ == HijackDnsActionView::fresh(),
    {
        HijackDnsAction {
            action: Some("hijack-dns".to_owned()),
        }
    }
}

impl HijackDnsActionView {
    /// The entries of the record that stands for the value: one for each
    /// field that is set, in the order of the fields.
    pub open spec fn record(self) -> Entries {
        let es = Seq::empty();
        let es = put(es, Key::Action, present(self.action, |x: Seq<char>| text_json(x)));
        es
    }

    /// The record that stands for the value.
    pub open spec fn to_json(self) -> JsonView {
        JsonView::Record(self.record())
    }

    /// The value that the entries of an object stand for. Fails where an
    /// entry holds a value of the wrong shape.
    pub open spec fn from_record(es: Entries) -> Option<HijackDnsActionView> {
        let action = optional(get(es, Key::Action), |j: JsonView| json_text(j));
        if action is Some {
            Some(
                HijackDnsActionView {
                    action: action->0,
                },
            )
        } else {
            None
        }
    }

    /// The value that an object stands for; none for a value that is no
    /// object.
    pub open spec fn from_json(j: JsonView) -> Option<HijackDnsActionView> {
        match entries_of(j) {
            Some(es) => HijackDnsActionView::from_record(es),
            None => None,
        }
    }

    /// Whether the value is written in a form from which it is read back:
    /// every value of this type is.
    pub open spec fn canonical(self) -> bool {
        true
    }

    /// The value with no field set.
    pub open spec fn blank() -> HijackDnsActionView {
        HijackDnsActionView {
            action: None,
        }
    }

    /// The group that the entries of an object stand for where the fields
    /// of the group are written among those of its owner: no group where
    /// none of its fields is set.
    pub open spec fn from_group(es: Entries) -> Option<Option<HijackDnsActionView>> {
        match HijackDnsActionView::from_record(es) {
            Some(x) => if x == HijackDnsActionView::blank() {
                Some(None)
            } else {
                Some(Some(x))
            },
            None => None,
        }
    }

    /// What the group reads depends only on what stands under its keys.
    pub proof fn lemma_reads_own_keys(a: Entries, b: Entries)
        requires
            get(a, Key::Action) == get(b, Key::Action),
        ensures
            HijackDnsActionView::from_record(a) == HijackDnsActionView::from_record(b),
            HijackDnsActionView::from_group(a) == HijackDnsActionView::from_group(b),
    {
    }

    /// Entries that hold nothing under the keys of the group stand for no
    /// group.
    pub proof fn lemma_no_group(es: Entries)
        requires
            get(es, Key::Action) is None,
        ensures
            HijackDnsActionView::from_group(es) == Some(None::<HijackDnsActionView>),
    {
    }

    /// The value is read back from the record that stands for it.
    pub proof fn lemma_round_trip(self)
        ensures
            HijackDnsActionView::from_record(self.record()) == Some(self),
            HijackDnsActionView::from_json(self.to_json()) == Some(self),
            self != HijackDnsActionView::blank() ==> HijackDnsActionView::from_group(self.record()) == Some(Some(self)),
    {
        broadcast use {lemma_get_empty, lemma_get_put, lemma_get_merge};

        let es = self.record();
        assert(optional(get(es, Key::Action), |j: JsonView| json_text(j)) == Some(self.action));
    }
}

impl HijackDnsAction {
    /// The entries of the record that stands for the value, as
    /// `HijackDnsActionView::record` lists them.
    pub fn record(&self) -> (r: Vec<(Key, Json)>)
        ensures
            r.deep_view() == self@.record(),
    {
        let mut es: Vec<(Key, Json)> = no_entries();
        let ghost s = Seq::<(Key, JsonView)>::empty();
        let value = match &self.action {
            Some(x) => Some(Json::Text(x.clone())),
            None => None,
        };
        put_field(&mut es, Key::Action, value);
        let ghost s = put(s, Key::Action, present(self@.action, |x: Seq<char>| text_json(x)));
        assert(es.deep_view() == s);
        es
    }

    /// The record that stands for the value.
    pub fn to_json(&self) -> (r: Json)
        ensures
            r@ == self@.to_json(),
    {
        let r = Json::Record(self.record());
        proof {
            lemma_json_view(r);
        }
        r
    }

    /// Reads the value from the entries of an object, as
    /// `HijackDnsActionView::from_record` says.
    pub fn from_record(es: &Vec<(Key, &Json)>) -> (r: Result<HijackDnsAction, SchemaMismatch>)
        ensures
            match r {
                Ok(x) => HijackDnsActionView::from_record(es.deep_view()) == Some(x@),
                Err(_) => HijackDnsActionView::from_record(es.deep_view()) is None,
            },
    {
        let action = match get_field(es, Key::Action) {
            Some(j) => if is_null(j) {
                None
            } else {
                match read_text(j) {
                    Ok(x) => Some(x),
                    Err(e) => {
                        return Err(e);
                    },
                }
            },
            None => None,
        };
        assert(optional(get(es.deep_view(), Key::Action), |j: JsonView| json_text(j)) == Some(action.deep_view()));
        Ok(HijackDnsAction { action })
    }

    /// Reads the value from an object, as `HijackDnsActionView::from_json` says.
    pub fn from_json(j: &Json) -> (r: Result<HijackDnsAction, SchemaMismatch>)
        ensures
            match r {
                Ok(x) => HijackDnsActionView::from_json(j@) == Some(x@),
                Err(_) => HijackDnsActionView::from_json(j@) is None,
            },
    {
        match read_entries(j) {
            Ok(es) => HijackDnsAction::from_record(&es),
            Err(e) => Err(e),
        }
    }

    /// Whether no field of the group is set.
    pub fn is_blank(&self) -> (r: bool)
        ensures
            r == (self@ == HijackDnsActionView::blank()),
    {
        self.action.is_none()
    }

    /// Reads the group from the entries of its owner, as
    /// `HijackDnsActionView::from_group` says.
    pub fn from_group(es: &Vec<(Key, &Json)>) -> (r: Result<Option<HijackDnsAction>, SchemaMismatch>)
        ensures
            match r {
                Ok(g) => HijackDnsActionView::from_group(es.deep_view()) == Some(g.deep_view()),
                Err(_) => HijackDnsActionView::from_group(es.deep_view()) is None,
            },
    {
        match HijackDnsAction::from_record(es) {
            Ok(x) => if x.is_blank() {
                Ok(None)
            } else {
                Ok(Some(x))
            },
            Err(e) => Err(e),
        }
    }
}

impl HijackDnsActionView {
    /// The record holds nothing under the key `type`.
    pub proof fn lemma_has_no_type(self)
        ensures
            get(self.record(), Key::Type) is None,
    {
        broadcast use {lemma_get_empty, lemma_get_put, lemma_get_merge};

    }
}

/// Looks into the connection for its protocol.
#[derive(Debug, Clone, PartialEq)]
pub struct SniffAction {
    pub action: Option<String>,
    pub sniffer: Option<Vec<String>>,
    pub timeout: Option<String>,
}

/// What a [`SniffAction`] holds, with every text as its characters.
pub struct SniffActionView {
    pub action: Option<Seq<char>>,
    pub sniffer: Option<Seq<Seq<char>>>,
    pub timeout: Option<Seq<char>>,
}

impl DeepView for SniffAction {
    type V = SniffActionView;

    open spec fn deep_view(&self) -> SniffActionView {
        SniffActionView {
            action: self.action.deep_view(),
            sniffer: self.sniffer.deep_view(),
            timeout: self.timeout.deep_view(),
        }
    }
}

impl View for SniffAction {
    type V = SniffActionView;

    open spec fn view(&self) -> SniffActionView {
        self.deep_view()
    }
}

impl SniffActionView {
    /// The view of what [`SniffAction::new`] returns.
    pub open spec fn fresh() -> SniffActionView {
        SniffActionView {
            action: Some("sniff"@),
            sniffer: None,
            timeout: None,
        }
    }
}

impl SniffAction {
    /// A sniff action.
    pub fn new() -> (r: Self)
        ensures
            r@ == SniffActionView::fresh(),
    {
        SniffAction {
            action: Some("sniff".to_owned()),
            sniffer: None,
            timeout: None,
        }
    }
}

impl SniffActionView {
    /// The entries of the record that stands for the value: one for each
    /// field that is set, in the order of the fields.
    pub open spec fn record(self) -> Entries {
        let es = Seq::empty();
        let es = put(es, Key::Action, present(self.action, |x: Seq<char>| text_json(x)));
        let es = put(es, Key::Sniffer, present(self.sniffer, |x: Seq<Seq<char>>| text_list_json(x)));
        let es = put(es, Key::Timeout, present(self.timeout, |x: Seq<char>| text_json(x)));
        es
    }

    /// The record that stands for the value.
    pub open spec fn to_json(self) -> JsonView {
        JsonView::Record(self.record())
    }

    /// The value that the entries of an object stand for. Fails where an
    /// entry holds a value of the wrong shape.
    pub open spec fn from_record(es: Entries) -> Option<SniffActionView> {
        let action = optional(get(es, Key::Action), |j: JsonView| json_text(j));
        let sniffer = optional(get(es, Key::Sniffer), |j: JsonView| json_text_list(j));
        let timeout = optional(get(es, Key::Timeout), |j: JsonView| json_text(j));
        if action is Some
            && sniffer is Some
            && timeout is Some {
            Some(
                SniffActionView {
                    action: action->0,
                    sniffer: sniffer->0,
                    timeout: timeout->0,
                },
            )
        } else {
            None
        }
    }

    /// The value that an object stands for; none for a value that is no
    /// object.
    pub open spec fn from_json(j: JsonView) -> Option<SniffActionView> {
        match entries_of(j) {
            Some(es) => SniffActionView::from_record(es),
            None => None,
        }
    }

    /// Whether the value is written in a form from which it is read back:
    /// every value of this type is.
    pub open spec fn canonical(self) -> bool {
        true
    }

    /// The value with no field set.
    pub open spec fn blank() -> SniffActionView {
        SniffActionView {
            action: None,
            sniffer: None,
            timeout: None,
        }
    }

    /// The group that the entries of an object stand for where the fields
    /// of the group are written among those of its owner: no group where
    /// none of its fields is set.
    pub open spec fn from_group(es: Entries) -> Option<Option<SniffActionView>> {
        match SniffActionView::from_record(es) {
            Some(x) => if x == SniffActionView::blank() {
                Some(None)
            } else {
                Some(Some(x))
            },
            None => None,
        }
    }

    /// What the group reads depends only on what stands under its keys.
    pub proof fn lemma_reads_own_keys(a: Entries, b: Entries)
        requires
            get(a, Key::Action) == get(b, Key::Action),
            get(a, Key::Sniffer) == get(b, Key::Sniffer),
            get(a, Key::Timeout) == get(b, Key::Timeout),
        ensures
            SniffActionView::from_record(a) == SniffActionView::from_record(b),
            SniffActionView::from_group(a) == SniffActionView::from_group(b),
    {
    }

    /// Entries that hold nothing under the keys of the group stand for no
    /// group.
    pub proof fn lemma_no_group(es: Entries)
        requires
            get(es, Key::Action) is None,
            get(es, Key::Sniffer) is None,
            get(es, Key::Timeout) is None,
        ensures
            SniffActionView::from_group(es) == Some(None::<SniffActionView>),
    {
    }

    /// The value is read back from the record that stands for it.
    pub proof fn lemma_round_trip(self)
        ensures
            SniffActionView::from_record(self.record()) == Some(self),
            SniffActionView::from_json(self.to_json()) == Some(self),
            self != SniffActionView::blank() ==> SniffActionView::from_group(self.record()) == Some(Some(self)),
    {
        broadcast use {lemma_get_empty, lemma_get_put, lemma_get_merge};

        let es = self.record();
        assert(optional(get(es, Key::Action), |j: JsonView| json_text(j)) == Some(self.action));
        match self.sniffer {
            Some(x) => {
                lemma_text_list(x);
            },
            None => {},
        }
        assert(optional(get(es, Key::Sniffer), |j: JsonView| json_text_list(j)) == Some(self.sniffer));
        assert(optional(get(es, Key::Timeout), |j: JsonView| json_text(j)) == Some(self.timeout));
    }
}

impl SniffAction {
    /// The entries of the record that stands for the value, as
    /// `SniffActionView::record` lists them.
    pub fn record(&self) -> (r: Vec<(Key, Json)>)
        ensures
            r.deep_view() == self@.record(),
    {
        let mut es: Vec<(Key, Json)> = no_entries();
        let ghost s = Seq::<(Key, JsonView)>::empty();
        let value = match &self.action {
            Some(x) => Some(Json::Text(x.clone())),
            None => None,
        };
        put_field(&mut es, Key::Action, value);
        let ghost s = put(s, Key::Action, present(self@.action, |x: Seq<char>| text_json(x)));
        assert(es.deep_view() == s);
        let value = match &self.sniffer {
            Some(x) => Some(write_text_list(x)),
            None => None,
        };
        put_field(&mut es, Key::Sniffer, value);
        let ghost s = put(s, Key::Sniffer, present(self@.sniffer, |x: Seq<Seq<char>>| text_list_json(x)));
        assert(es.deep_view() == s);
        let value = match &self.timeout {
            Some(x) => Some(Json::Text(x.clone())),
            None => None,
        };
        put_field(&mut es, Key::Timeout, value);
        let ghost s = put(s, Key::Timeout, present(self@.timeout, |x: Seq<char>| text_json(x)));
        assert(es.deep_view() == s);
        es
    }

    /// The record that stands for the value.
    pub fn to_json(&self) -> (r: Json)
        ensures
            r@ == self@.to_json(),
    {
        let r = Json::Record(self.record());
        proof {
            lemma_json_view(r);
        }
        r
    }

    /// Reads the value from the entries of an object, as
    /// `SniffActionView::from_record` says.
    pub fn from_record(es: &Vec<(Key, &Json)>) -> (r: Result<SniffAction, SchemaMismatch>)
        ensures
            match r {
                Ok(x) => SniffActionView::from_record(es.deep_view()) == Some(x@),
                Err(_) => SniffActionView::from_record(es.deep_view()) is None,
            },
    {
        let action = match get_field(es, Key::Action) {
            Some(j) => if is_null(j) {
                None
            } else {
                match read_text(j) {
                    Ok(x) => Some(x),
                    Err(e) => {
                        return Err(e);
                    },
                }
            },
            None => None,
        };
        assert(optional(get(es.deep_view(), Key::Action), |j: JsonView| json_text(j)) == Some(action.deep_view()));
        let sniffer = match get_field(es, Key::Sniffer) {
            Some(j) => if is_null(j) {
                None
            } else {
                match read_text_list(j) {
                    Ok(x) => Some(x),
                    Err(e) => {
                        return Err(e);
                    },
                }
            },
            None => None,
        };
        assert(optional(get(es.deep_view(), Key::Sniffer), |j: JsonView| json_text_list(j)) == Some(sniffer.deep_view()));
        let timeout = match get_field(es, Key::Timeout) {
            Some(j) => if is_null(j) {
                None
            } else {
                match read_text(j) {
                    Ok(x) => Some(x),
                    Err(e) => {
                        return Err(e);
                    },
                }
            },
            None => None,
        };
        assert(optional(get(es.deep_view(), Key::Timeout), |j: JsonView| json_text(j)) == Some(timeout.deep_view()));
        Ok(SniffAction { action, sniffer, timeout })
    }

    /// Reads the value from an object, as `SniffActionView::from_json` says.
    pub fn from_json(j: &Json) -> (r: Result<SniffAction, SchemaMismatch>)
        ensures
            match r {
                Ok(x) => SniffActionView::from_json(j@) == Some(x@),
                Err(_) => SniffActionView::from_json(j@) is None,
            },
    {
        match read_entries(j) {
            Ok(es) => SniffAction::from_record(&es),
            Err(e) => Err(e),
        }
    }

    /// Whether no field of the group is set.
    pub fn is_blank(&self) -> (r: bool)
        ensures
            r == (self@ == SniffActionView::blank()),
    {
        self.action.is_none()
            && self.sniffer.is_none()
            && self.timeout.is_none()
    }

    /// Reads the group from the entries of its owner, as
    /// `SniffActionView::from_group` says.
    pub fn from_group(es: &Vec<(Key, &Json)>) -> (r: Result<Option<SniffAction>, SchemaMismatch>)
        ensures
            match r {
                Ok(g) => SniffActionView::from_group(es.deep_view()) == Some(g.deep_view()),
                Err(_) => SniffActionView::from_group(es.deep_view()) is None,
            },
    {
        match SniffAction::from_record(es) {
            Ok(x) => if x.is_blank() {
                Ok(None)
            } else {
                Ok(Some(x))
            },
            Err(e) => Err(e),
        }
    }
}

impl SniffActionView {
    /// The record holds nothing under the key `type`.
    pub proof fn lemma_has_no_type(self)
        ensures
            get(self.record(), Key::Type) is None,
    {
        broadcast use {lemma_get_empty, lemma_get_put, lemma_get_merge};

    }
}

/// Resolves the destination name.
#[derive(Debug, Clone, PartialEq)]
pub struct ResolveAction {
    pub action: Option<String>,
    pub server: Option<String>,
    pub strategy: Option<String>,
    pub disable_cache: Option<bool>,
    pub rewrite_ttl: Option<u32>,
    pub client_subnet: Option<String>,
}

/// What a [`ResolveAction`] holds, with every text as its characters.
pub struct ResolveActionView {
    pub action: Option<Seq<char>>,
    pub server: Option<Seq<char>>,
    pub strategy: Option<Seq<char>>,
    pub disable_cache: Option<bool>,
    pub rewrite_ttl: Option<u32>,
    pub client_subnet: Option<Seq<char>>,
}

impl DeepView for ResolveAction {
    type V = ResolveActionView;

    open spec fn deep_view(&self) -> ResolveActionView {
        ResolveActionView {
            action: self.action.deep_view(),
            server: self.server.deep_view(),
            strategy: self.strategy.deep_view(),
            disable_cache: self.disable_cache.deep_view(),
            rewrite_ttl: self.rewrite_ttl.deep_view(),
            client_subnet: self.client_subnet.deep_view(),
        }
    }
}

impl View for ResolveAction {
    type V = ResolveActionView;

    open spec fn view(&self) -> ResolveActionView {
        self.deep_view()
    }
}

impl ResolveActionView {
    /// The view of what [`ResolveAction::new`] returns.
    pub open spec fn fresh() -> ResolveActionView {
        ResolveActionView {
            action: Some("resolve"@),
            server: None,
            strategy: None,
            disable_cache: None,
            rewrite_ttl: None,
            client_subnet: None,
        }
    }
}

impl ResolveAction {
    /// A resolve action.
    pub fn new() -> (r: Self)
        ensures
            r@ == ResolveActionView::fresh(),
    {
        ResolveAction {
            action: Some("resolve".to_owned()),
            server: None,
            strategy: None,
            disable_cache: None,
            rewrite_ttl: None,
            client_subnet: None,
        }
    }
}

impl ResolveActionView {
    /// The entries of the record that stands for the value: one for each
    /// field that is set, in the order of the fields.
    pub open spec fn record(self) -> Entries {
        let es = Seq::empty();
        let es = put(es, Key::Action, present(self.action, |x: Seq<char>| text_json(x)));
        let es = put(es, Key::Server, present(self.server, |x: Seq<char>| text_json(x)));
        let es = put(es, Key::Strategy, present(self.strategy, |x: Seq<char>| text_json(x)));
        let es = put(es, Key::DisableCache, present(self.disable_cache, |x: bool| bool_json(x)));
        let es = put(es, Key::RewriteTtl, present(self.rewrite_ttl, |x: u32| u32_json(x)));
        let es = put(es, Key::ClientSubnet, present(self.client_subnet, |x: Seq<char>| text_json(x)));
        es
    }

    /// The record that stands for the value.
    pub open spec fn to_json(self) -> JsonView {
        JsonView::Record(self.record())
    }

    /// The value that the entries of an object stand for. Fails where an
    /// entry holds a value of the wrong shape.
    pub open spec fn from_record(es: Entries) -> Option<ResolveActionView> {
        let action = optional(get(es, Key::Action), |j: JsonView| json_text(j));
        let server = optional(get(es, Key::Server), |j: JsonView| json_text(j));
        let strategy = optional(get(es, Key::Strategy), |j: JsonView| json_text(j));
        let disable_cache = optional(get(es, Key::DisableCache), |j: JsonView| json_bool(j));
        let rewrite_ttl = optional(get(es, Key::RewriteTtl), |j: JsonView| json_u32(j));
        let client_subnet = optional(get(es, Key::ClientSubnet), |j: JsonView| json_text(j));
        if action is Some
            && server is Some
            && strategy is Some
            && disable_cache is Some
            && rewrite_ttl is Some
            && client_subnet is Some {
            Some(
                ResolveActionView {
                    action: action->0,
                    server: server->0,
                    strategy: strategy->0,
                    disable_cache: disable_cache->0,
                    rewrite_ttl: rewrite_ttl->0,
                    client_subnet: client_subnet->0,
                },
            )
        } else {
            None
        }
    }

    /// The value that an object stands for; none for a value that is no
    /// object.
    pub open spec fn from_json(j: JsonView) -> Option<ResolveActionView> {
        match entries_of(j) {
            Some(es) => ResolveActionView::from_record(es),
            None => None,
        }
    }

    /// Whether the value is written in a form from which it is read back:
    /// every value of this type is.
    pub open spec fn canonical(self) -> bool {
        true
    }

    /// The value with no field set.
    pub open spec fn blank() -> ResolveActionView {
        ResolveActionView {
            action: None,
            server: None,
            strategy: None,
            disable_cache: None,
            rewrite_ttl: None,
            client_subnet: None,
        }
    }

    /// The group that the entries of an object stand for where the fields
    /// of the group are written among those of its owner: no group where
    /// none of its fields is set.
    pub open spec fn from_group(es: Entries) -> Option<Option<ResolveActionView>> {
        match ResolveActionView::from_record(es) {
            Some(x) => if x == ResolveActionView::blank() {
                Some(None)
            } else {
                Some(Some(x))
            },
            None => None,
        }
    }

    /// What the group reads depends only on what stands under its keys.
    pub proof fn lemma_reads_own_keys(a: Entries, b: Entries)
        requires
            get(a, Key::Action) == get(b, Key::Action),
            get(a, Key::Server) == get(b, Key::Server),
            get(a, Key::Strategy) == get(b, Key::Strategy),
            get(a, Key::DisableCache) == get(b, Key::DisableCache),
            get(a, Key::RewriteTtl) == get(b, Key::RewriteTtl),
            get(a, Key::ClientSubnet) == get(b, Key::ClientSubnet),
        ensures
            ResolveActionView::from_record(a) == ResolveActionView::from_record(b),
            ResolveActionView::from_group(a) == ResolveActionView::from_group(b),
    {
    }

    /// Entries that hold nothing under the keys of the group stand for no
    /// group.
    pub proof fn lemma_no_group(es: Entries)
        requires
            get(es, Key::Action) is None,
            get(es, Key::Server) is None,
            get(es, Key::Strategy) is None,
            get(es, Key::DisableCache) is None,
            get(es, Key::RewriteTtl) is None,
            get(es, Key::ClientSubnet) is None,
        ensures
            ResolveActionView::from_group(es) == Some(None::<ResolveActionView>),
    {
    }

    /// The value is read back from the record that stands for it.
    pub proof fn lemma_round_trip(self)
        ensures
            ResolveActionView::from_record(self.record()) == Some(self),
            ResolveActionView::from_json(self.to_json()) == Some(self),
            self != ResolveActionView::blank() ==> ResolveActionView::from_group(self.record()) == Some(Some(self)),
    {
        broadcast use {lemma_get_empty, lemma_get_put, lemma_get_merge};

        let es = self.record();
        assert(optional(get(es, Key::Action), |j: JsonView| json_text(j)) == Some(self.action));
        assert(optional(get(es, Key::Server), |j: JsonView| json_text(j)) == Some(self.server));
        assert(optional(get(es, Key::Strategy), |j: JsonView| json_text(j)) == Some(self.strategy));
        assert(optional(get(es, Key::DisableCache), |j: JsonView| json_bool(j)) == Some(self.disable_cache));
        assert(optional(get(es, Key::RewriteTtl), |j: JsonView| json_u32(j)) == Some(self.rewrite_ttl));
        assert(optional(get(es, Key::ClientSubnet), |j: JsonView| json_text(j)) == Some(self.client_subnet));
    }
}

impl ResolveAction {
    /// The entries of the record that stands for the value, as
    /// `ResolveActionView::record` lists them.
    pub fn record(&self) -> (r: Vec<(Key, Json)>)
        ensures
            r.deep_view() == self@.record(),
    {
        let mut es: Vec<(Key, Json)> = no_entries();
        let ghost s = Seq::<(Key, JsonView)>::empty();
        let value = match &self.action {
            Some(x) => Some(Json::Text(x.clone())),
            None => None,
        };
        put_field(&mut es, Key::Action, value);
        let ghost s = put(s, Key::Action, present(self@.action, |x: Seq<char>| text_json(x)));
        assert(es.deep_view() == s);
        let value = match &self.server {
            Some(x) => Some(Json::Text(x.clone())),
            None => None,
        };
        put_field(&mut es, Key::Server, value);
        let ghost s = put(s, Key::Server, present(self@.server, |x: Seq<char>| text_json(x)));
        assert(es.deep_view() == s);
        let value = match &self.strategy {
            Some(x) => Some(Json::Text(x.clone())),
            None => None,
        };
        put_field(&mut es, Key::Strategy, value);
        let ghost s = put(s, Key::Strategy, present(self@.strategy, |x: Seq<char>| text_json(x)));
        assert(es.deep_view() == s);
        let value = match &self.disable_cache {
            Some(x) => Some(Json::Bool(*x)),
            None => None,
        };
        put_field(&mut es, Key::DisableCache, value);
        let ghost s = put(s, Key::DisableCache, present(self@.disable_cache, |x: bool| bool_json(x)));
        assert(es.deep_view() == s);
        let value = match &self.rewrite_ttl {
            Some(x) => Some(Json::Unsigned(*x as u64)),
            None => None,
        };
        put_field(&mut es, Key::RewriteTtl, value);
        let ghost s = put(s, Key::RewriteTtl, present(self@.rewrite_ttl, |x: u32| u32_json(x)));
        assert(es.deep_view() == s);
        let value = match &self.client_subnet {
            Some(x) => Some(Json::Text(x.clone())),
            None => None,
        };
        put_field(&mut es, Key::ClientSubnet, value);
        let ghost s = put(s, Key::ClientSubnet, present(self@.client_subnet, |x: Seq<char>| text_json(x)));
        assert(es.deep_view() == s);
        es
    }

    /// The record that stands for the value.
    pub fn to_json(&self) -> (r: Json)
        ensures
            r@ == self@.to_json(),
    {
        let r = Json::Record(self.record());
        proof {
            lemma_json_view(r);
        }
        r
    }

    /// Reads the value from the entries of an object, as
    /// `ResolveActionView::from_record` says.
    pub fn from_record(es: &Vec<(Key, &Json)>) -> (r: Result<ResolveAction, SchemaMismatch>)
        ensures
            match r {
                Ok(x) => ResolveActionView::from_record(es.deep_view()) == Some(x@),
                Err(_) => ResolveActionView::from_record(es.deep_view()) is None,
            },
    {
        let action = match get_field(es, Key::Action) {
            Some(j) => if is_null(j) {
                None
            } else {
                match read_text(j) {
                    Ok(x) => Some(x),
                    Err(e) => {
                        return Err(e);
                    },
                }
            },
            None => None,
        };
        assert(optional(get(es.deep_view(), Key::Action), |j: JsonView| json_text(j)) == Some(action.deep_view()));
        let server = match get_field(es, Key::Server) {
            Some(j) => if is_null(j) {
                None
            } else {
                match read_text(j) {
                    Ok(x) => Some(x),
                    Err(e) => {
                        return Err(e);
                    },
                }
            },
            None => None,
        };
        assert(optional(get(es.deep_view(), Key::Server), |j: JsonView| json_text(j)) == Some(server.deep_view()));
        let strategy = match get_field(es, Key::Strategy) {
            Some(j) => if is_null(j) {
                None
            } else {
                match read_text(j) {
                    Ok(x) => Some(x),
                    Err(e) => {
                        return Err(e);
                    },
                }
            },
            None => None,
        };
        assert(optional(get(es.deep_view(), Key::Strategy), |j: JsonView| json_text(j)) == Some(strategy.deep_view()));
        let disable_cache = match get_field(es, Key::DisableCache) {
            Some(j) => if is_null(j) {
                None
            } else {
                match read_bool(j) {
                    Ok(x) => Some(x),
                    Err(e) => {
                        return Err(e);
                    },
                }
            },
            None => None,
        };
        assert(optional(get(es.deep_view(), Key::DisableCache), |j: JsonView| json_bool(j)) == Some(disable_cache.deep_view()));
        let rewrite_ttl = match get_field(es, Key::RewriteTtl) {
            Some(j) => if is_null(j) {
                None
            } else {
                match read_u32(j) {
                    Ok(x) => Some(x),
                    Err(e) => {
                        return Err(e);
                    },
                }
            },
            None => None,
        };
        assert(optional(get(es.deep_view(), Key::RewriteTtl), |j: JsonView| json_u32(j)) == Some(rewrite_ttl.deep_view()));
        let client_subnet = match get_field(es, Key::ClientSubnet) {
            Some(j) => if is_null(j) {
                None
            } else {
                match read_text(j) {
                    Ok(x) => Some(x),
                    Err(e) => {
                        return Err(e);
                    },
                }
            },
            None => None,
        };
        assert(optional(get(es.deep_view(), Key::ClientSubnet), |j: JsonView| json_text(j)) == Some(client_subnet.deep_view()));
        Ok(ResolveAction { action, server, strategy, disable_cache, rewrite_ttl, client_subnet })
    }

    /// Reads the value from an object, as `ResolveActionView::from_json` says.
    pub fn from_json(j: &Json) -> (r: Result<ResolveAction, SchemaMismatch>)
        ensures
            match r {
                Ok(x) => ResolveActionView::from_json(j@) == Some(x@),
                Err(_) => ResolveActionView::from_json(j@) is None,
            },
    {
        match read_entries(j) {
            Ok(es) => ResolveAction::from_record(&es),
            Err(e) => Err(e),
        }
    }

    /// Whether no field of the group is set.
    pub fn is_blank(&self) -> (r: bool)
        ensures
            r == (self@ == ResolveActionView::blank()),
    {
        self.action.is_none()
            && self.server.is_none()
            && self.strategy.is_none()
            && self.disable_cache.is_none()
            && self.rewrite_ttl.is_none()
            && self.client_subnet.is_none()
    }

    /// Reads the group from the entries of its owner, as
    /// `ResolveActionView::from_group` says.
    pub fn from_group(es: &Vec<(Key, &Json)>) -> (r: Result<Option<ResolveAction>, SchemaMismatch>)
        ensures
            match r {
                Ok(g) => ResolveActionView::from_group(es.deep_view()) == Some(g.deep_view()),
                Err(_) => ResolveActionView::from_group(es.deep_view()) is None,
            },
    {
        match ResolveAction::from_record(es) {
            Ok(x) => if x.is_blank() {
                Ok(None)
            } else {
                Ok(Some(x))
            },
            Err(e) => Err(e),
        }
    }
}

impl ResolveActionView {
    /// The record holds nothing under the key `type`.
    pub proof fn lemma_has_no_type(self)
        ensures
            get(self.record(), Key::Type) is None,
    {
        broadcast use {lemma_get_empty, lemma_get_put, lemma_get_merge};

    }
}

/// The action of a logical route rule.
#[derive(Debug, Clone, PartialEq)]
pub enum RuleAction {
    /// Route.
    RouteOptions(RouteAction),
    /// Refuse.
    Reject(RejectAction),
    /// Hijack DNS.
    HijackDns(HijackDnsAction),
    /// Sniff.
    Sniff(SniffAction),
    /// Resolve.
    Resolve(ResolveAction),
}

/// What a [`RuleAction`] holds, with every text as its characters.
pub enum RuleActionView {
    RouteOptions(RouteActionView),
    Reject(RejectActionView),
    HijackDns(HijackDnsActionView),
    Sniff(SniffActionView),
    Resolve(ResolveActionView),
}

impl DeepView for RuleAction {
    type V = RuleActionView;

    open spec fn deep_view(&self) -> RuleActionView {
        match self {
            RuleAction::RouteOptions(x) => RuleActionView::RouteOptions(x.deep_view()),
            RuleAction::Reject(x) => RuleActionView::Reject(x.deep_view()),
            RuleAction::HijackDns(x) => RuleActionView::HijackDns(x.deep_view()),
            RuleAction::Sniff(x) => RuleActionView::Sniff(x.deep_view()),
            RuleAction::Resolve(x) => RuleActionView::Resolve(x.deep_view()),
        }
    }
}

impl View for RuleAction {
    type V = RuleActionView;

    open spec fn view(&self) -> RuleActionView {
        self.deep_view()
    }
}

impl RuleActionView {
    /// The entries that stand for the action: those of what it holds.
    pub open spec fn record(self) -> Entries {
        match self {
            RuleActionView::RouteOptions(x) => x.record(),
            RuleActionView::Reject(x) => x.record(),
            RuleActionView::HijackDns(x) => x.record(),
            RuleActionView::Sniff(x) => x.record(),
            RuleActionView::Resolve(x) => x.record(),
        }
    }

    /// The action that the entries of an object stand for, of the kind that
    /// the entry under its key names: no action where that entry is unset.
    /// Fails where the entry names no kind.
    pub open spec fn from_group(es: Entries) -> Option<Option<RuleActionView>> {
        if is_unset(get(es, Key::Action)) {
            Some(None)
        } else if get(es, Key::Action) == Some(JsonView::Text("route"@)) {
            match RouteActionView::from_record(es) {
                Some(x) => Some(Some(RuleActionView::RouteOptions(x))),
                None => None,
            }
        } else if get(es, Key::Action) == Some(JsonView::Text("reject"@)) {
            match RejectActionView::from_record(es) {
                Some(x) => Some(Some(RuleActionView::Reject(x))),
                None => None,
            }
        } else if get(es, Key::Action) == Some(JsonView::Text("hijack-dns"@)) {
            match HijackDnsActionView::from_record(es) {
                Some(x) => Some(Some(RuleActionView::HijackDns(x))),
                None => None,
            }
        } else if get(es, Key::Action) == Some(JsonView::Text("sniff"@)) {
            match SniffActionView::from_record(es) {
                Some(x) => Some(Some(RuleActionView::Sniff(x))),
                None => None,
            }
        } else if get(es, Key::Action) == Some(JsonView::Text("resolve"@)) {
            match ResolveActionView::from_record(es) {
                Some(x) => Some(Some(RuleActionView::Resolve(x))),
                None => None,
            }
        } else {
            None
        }
    }

    /// Whether the action is written in a form from which it is read back:
    /// what it holds is, and it is read as the kind that it is.
    pub open spec fn canonical(self) -> bool {
        match self {
            RuleActionView::RouteOptions(x) => x.canonical() && x.action == Some("route"@),
            RuleActionView::Reject(x) => x.canonical() && x.action == Some("reject"@),
            RuleActionView::HijackDns(x) => x.canonical() && x.action == Some("hijack-dns"@),
            RuleActionView::Sniff(x) => x.canonical() && x.action == Some("sniff"@),
            RuleActionView::Resolve(x) => x.canonical() && x.action == Some("resolve"@),
        }
    }

    /// What the action reads depends only on what stands under its keys.
    pub proof fn lemma_reads_own_keys(a: Entries, b: Entries)
        requires
            get(a, Key::Action) == get(b, Key::Action),
            get(a, Key::Outbound) == get(b, Key::Outbound),
            get(a, Key::OverrideAddress) == get(b, Key::OverrideAddress),
            get(a, Key::OverridePort) == get(b, Key::OverridePort),
            get(a, Key::NetworkStrategy) == get(b, Key::NetworkStrategy),
            get(a, Key::FallbackDelay) == get(b, Key::FallbackDelay),
            get(a, Key::UdpDisableDomainUnmapping) == get(b, Key::UdpDisableDomainUnmapping),
            get(a, Key::UdpConnect) == get(b, Key::UdpConnect),
            get(a, Key::UdpTimeout) == get(b, Key::UdpTimeout),
            get(a, Key::TlsFragment) == get(b, Key::TlsFragment),
            get(a, Key::TlsFragmentFallbackDelay) == get(b, Key::TlsFragmentFallbackDelay),
            get(a, Key::TlsRecordFragment) == get(b, Key::TlsRecordFragment),
            get(a, Key::Method) == get(b, Key::Method),
            get(a, Key::NoDrop) == get(b, Key::NoDrop),
            get(a, Key::Sniffer) == get(b, Key::Sniffer),
            get(a, Key::Timeout) == get(b, Key::Timeout),
            get(a, Key::Server) == get(b, Key::Server),
            get(a, Key::Strategy) == get(b, Key::Strategy),
            get(a, Key::DisableCache) == get(b, Key::DisableCache),
            get(a, Key::RewriteTtl) == get(b, Key::RewriteTtl),
            get(a, Key::ClientSubnet) == get(b, Key::ClientSubnet),
        ensures
            RuleActionView::from_group(a) == RuleActionView::from_group(b),
    {
        RouteActionView::lemma_reads_own_keys(a, b);
        RejectActionView::lemma_reads_own_keys(a, b);
        HijackDnsActionView::lemma_reads_own_keys(a, b);
        SniffActionView::lemma_reads_own_keys(a, b);
        ResolveActionView::lemma_reads_own_keys(a, b);
    }

    /// Entries that hold nothing under the keys of the action stand for no action.
    pub proof fn lemma_no_group(es: Entries)
        requires
            get(es, Key::Action) is None,
            get(es, Key::Outbound) is None,
            get(es, Key::OverrideAddress) is None,
            get(es, Key::OverridePort) is None,
            get(es, Key::NetworkStrategy) is None,
            get(es, Key::FallbackDelay) is None,
            get(es, Key::UdpDisableDomainUnmapping) is None,
            get(es, Key::UdpConnect) is None,
            get(es, Key::UdpTimeout) is None,
            get(es, Key::TlsFragment) is None,
            get(es, Key::TlsFragmentFallbackDelay) is None,
            get(es, Key::TlsRecordFragment) is None,
            get(es, Key::Method) is None,
            get(es, Key::NoDrop) is None,
            get(es, Key::Sniffer) is None,
            get(es, Key::Timeout) is None,
            get(es, Key::Server) is None,
            get(es, Key::Strategy) is None,
            get(es, Key::DisableCache) is None,
            get(es, Key::RewriteTtl) is None,
            get(es, Key::ClientSubnet) is None,
        ensures
            RuleActionView::from_group(es) == Some(None::<RuleActionView>),
    {
    }

    /// The action is read back from the entries that stand for it.
    pub proof fn lemma_round_trip(self)
        requires
            self.canonical(),
        ensures
            RuleActionView::from_group(self.record()) == Some(Some(self)),
    {
        broadcast use {lemma_get_empty, lemma_get_put, lemma_get_merge};

        reveal_strlit("route");
        assert("route"@.len() == 5);
        assert("route"@[0] == 'r');
        reveal_strlit("reject");
        assert("reject"@.len() == 6);
        reveal_strlit("hijack-dns");
        assert("hijack-dns"@.len() == 10);
        reveal_strlit("sniff");
        assert("sniff"@.len() == 5);
        assert("sniff"@[0] == 's');
        reveal_strlit("resolve");
        assert("resolve"@.len() == 7);
        match self {
            RuleActionView::RouteOptions(x) => {
                x.lemma_round_trip();
                assert(get(x.record(), Key::Action) == Some(JsonView::Text("route"@)));
            },
            RuleActionView::Reject(x) => {
                x.lemma_round_trip();
                assert(get(x.record(), Key::Action) == Some(JsonView::Text("reject"@)));
            },
            RuleActionView::HijackDns(x) => {
                x.lemma_round_trip();
                assert(get(x.record(), Key::Action) == Some(JsonView::Text("hijack-dns"@)));
            },
            RuleActionView::Sniff(x) => {
                x.lemma_round_trip();
                assert(get(x.record(), Key::Action) == Some(JsonView::Text("sniff"@)));
            },
            RuleActionView::Resolve(x) => {
                x.lemma_round_trip();
                assert(get(x.record(), Key::Action) == Some(JsonView::Text("resolve"@)));
            },
        }
    }
}

impl RuleAction {
    /// The entries that stand for the action.
    pub fn record(&self) -> (r: Vec<(Key, Json)>)
        ensures
            r.deep_view() == self@.record(),
    {
        match self {
            RuleAction::RouteOptions(x) => x.record(),
            RuleAction::Reject(x) => x.record(),
            RuleAction::HijackDns(x) => x.record(),
            RuleAction::Sniff(x) => x.record(),
            RuleAction::Resolve(x) => x.record(),
        }
    }

    /// Reads the action from the entries of its owner, as
    /// `RuleActionView::from_group` says.
    pub fn from_group(es: &Vec<(Key, &Json)>) -> (r: Result<Option<RuleAction>, SchemaMismatch>)
        ensures
            match r {
                Ok(g) => RuleActionView::from_group(es.deep_view()) == Some(g.deep_view()),
                Err(_) => RuleActionView::from_group(es.deep_view()) is None,
            },
    {
        match get_field(es, Key::Action) {
            None => Ok(None),
            Some(Json::Null) => Ok(None),
            Some(Json::Text(s)) => if same_text(s.as_str(), "route") {
                match RouteAction::from_record(es) {
                    Ok(x) => Ok(Some(RuleAction::RouteOptions(x))),
                    Err(e) => Err(e),
                }
            } else if same_text(s.as_str(), "reject") {
                match RejectAction::from_record(es) {
                    Ok(x) => Ok(Some(RuleAction::Reject(x))),
                    Err(e) => Err(e),
                }
            } else if same_text(s.as_str(), "hijack-dns") {
                match HijackDnsAction::from_record(es) {
                    Ok(x) => Ok(Some(RuleAction::HijackDns(x))),
                    Err(e) => Err(e),
                }
            } else if same_text(s.as_str(), "sniff") {
                match SniffAction::from_record(es) {
                    Ok(x) => Ok(Some(RuleAction::Sniff(x))),
                    Err(e) => Err(e),
                }
            } else if same_text(s.as_str(), "resolve") {
                match ResolveAction::from_record(es) {
                    Ok(x) => Ok(Some(RuleAction::Resolve(x))),
                    Err(e) => Err(e),
                }
            } else {
                Err(SchemaMismatch)
            },
            Some(_) => Err(SchemaMismatch),
        }
    }
}

impl RuleActionView {
    /// The record holds nothing under the key `type`.
    pub proof fn lemma_has_no_type(self)
        ensures
            get(self.record(), Key::Type) is None,
    {
        broadcast use {lemma_get_empty, lemma_get_put, lemma_get_merge};

        match self {
            RuleActionView::RouteOptions(x) => {
                x.lemma_has_no_type();
            },
            RuleActionView::Reject(x) => {
                x.lemma_has_no_type();
            },
            RuleActionView::HijackDns(x) => {
                x.lemma_has_no_type();
            },
            RuleActionView::Sniff(x) => {
                x.lemma_has_no_type();
            },
            RuleActionView::Resolve(x) => {
                x.lemma_has_no_type();
            },
        }
    }
}

/// A route rule: by properties, or a combination of rules.
#[derive(Debug, PartialEq)]
pub enum RouteRule {
    /// A rule that matches by the properties of the connection.
    Default(DefaultRouteRule),
    /// A rule that combines other rules.
    Logical(LogicalRouteRule),
}

/// A route rule that combines other rules with `and` or `or`.
#[derive(Debug, PartialEq)]
pub struct LogicalRouteRule {
    pub rule_type: Option<String>,
    pub mode: Option<String>,
    pub rules: Option<Vec<RouteRule>>,
    pub invert: Option<bool>,
    pub action: Option<RuleAction>,
}

/// What a [`RouteRule`] holds, with every text as its characters.
pub enum RouteRuleView {
    Default(DefaultRouteRuleView),
    Logical(LogicalRouteRuleView),
}

/// What a [`LogicalRouteRule`] holds, with every text as its characters.
pub struct LogicalRouteRuleView {
    pub rule_type: Option<Seq<char>>,
    pub mode: Option<Seq<char>>,
    pub rules: Option<Seq<RouteRuleView>>,
    pub invert: Option<bool>,
    pub action: Option<RuleActionView>,
}

/// The view of a route rule, through the rules that it combines.
pub open spec fn route_rule_view(r: RouteRule) -> RouteRuleView
    decreases r,
{
    match r {
        RouteRule::Default(d) => RouteRuleView::Default(d.deep_view()),
        RouteRule::Logical(l) => RouteRuleView::Logical(
            LogicalRouteRuleView {
                rule_type: l.rule_type.deep_view(),
                mode: l.mode.deep_view(),
                rules: match l.rules {
                    Some(v) => Some(
                        Seq::new(
                            v@.len(),
                            |i: int|
                                if 0 <= i < v@.len() {
                                    route_rule_view(v@[i])
                                } else {
                                    arbitrary()
                                },
                        ),
                    ),
                    None => None,
                },
                invert: l.invert,
                action: l.action.deep_view(),
            },
        ),
    }
}

impl DeepView for RouteRule {
    type V = RouteRuleView;

    open spec fn deep_view(&self) -> RouteRuleView {
        route_rule_view(*self)
    }
}

impl View for RouteRule {
    type V = RouteRuleView;

    open spec fn view(&self) -> RouteRuleView {
        self.deep_view()
    }
}

impl DeepView for LogicalRouteRule {
    type V = LogicalRouteRuleView;

    open spec fn deep_view(&self) -> LogicalRouteRuleView {
        route_rule_view(RouteRule::Logical(*self))->Logical_0
    }
}

impl View for LogicalRouteRule {
    type V = LogicalRouteRuleView;

    open spec fn view(&self) -> LogicalRouteRuleView {
        self.deep_view()
    }
}

impl LogicalRouteRuleView {
    /// The view of what [`LogicalRouteRule::new`] returns.
    pub open spec fn fresh() -> LogicalRouteRuleView {
        LogicalRouteRuleView { rule_type: None, mode: None, rules: None, invert: None, action: None }
    }
}

impl LogicalRouteRule {
    /// A logical rule that combines nothing and does nothing.
    pub fn new() -> (r: Self)
        ensures
            r@ == LogicalRouteRuleView::fresh(),
    {
        LogicalRouteRule { rule_type: None, mode: None, rules: None, invert: None, action: None }
    }
}

/// The rules of a logical rule are viewed one by one.
pub proof fn lemma_logical_route_rules(l: LogicalRouteRule)
    ensures
        l@.rules == l.rules.deep_view(),
{
    match l.rules {
        Some(v) => {
            assert(l@.rules->0 =~= v.deep_view());
        },
        None => {},
    }
}

/// The value that stands for a route rule: the record of what it holds.
pub open spec fn route_rule_json(r: RouteRuleView) -> JsonView
    decreases r,
{
    match r {
        RouteRuleView::Default(d) => d.to_json(),
        RouteRuleView::Logical(l) => JsonView::Record(logical_route_rule_record(l)),
    }
}

/// The entries of the record that stands for a route rule that combines others.
pub open spec fn logical_route_rule_record(l: LogicalRouteRuleView) -> Entries
    decreases l,
{
    let es = Seq::empty();
    let es = put(es, Key::Type, present(l.rule_type, |x: Seq<char>| text_json(x)));
    let es = put(es, Key::Mode, present(l.mode, |x: Seq<char>| text_json(x)));
    let es = put(
        es,
        Key::Rules,
        match l.rules {
            Some(s) => Some(nested_route_rule_list_json(s)),
            None => None,
        },
    );
    let es = put(es, Key::Invert, present(l.invert, |x: bool| bool_json(x)));
    let es = merge(
        es,
        match l.action {
            Some(g) => g.record(),
            None => Seq::empty(),
        },
    );
    es
}

/// The list that stands for the route rules that a route rule combines.
pub open spec fn nested_route_rule_list_json(s: Seq<RouteRuleView>) -> JsonView
    decreases s,
{
    JsonView::List(
        Seq::new(
            s.len(),
            |i: int|
                if 0 <= i < s.len() {
                    route_rule_json(s[i])
                } else {
                    JsonView::Null
                },
        ),
    )
}

/// The route rule that an object stands for, read no deeper than `depth` levels of
/// route rules within route rules: one that combines others where its type is `logical`,
/// else one that matches by properties.
pub open spec fn json_route_rule(j: JsonView, depth: nat) -> Option<RouteRuleView>
    decreases depth, 0nat,
{
    match entries_of(j) {
        Some(es) => if get(es, Key::Type) == Some(JsonView::Text("logical"@)) {
            if depth == 0 {
                None
            } else {
                match logical_route_rule_from_record(es, (depth - 1) as nat) {
                    Some(l) => Some(RouteRuleView::Logical(l)),
                    None => None,
                }
            }
        } else {
            match DefaultRouteRuleView::from_record(es) {
                Some(d) => Some(RouteRuleView::Default(d)),
                None => None,
            }
        },
        None => None,
    }
}

/// The route rule that combines others, read from the entries of an object.
pub open spec fn logical_route_rule_from_record(es: Entries, depth: nat) -> Option<LogicalRouteRuleView>
    decreases depth, 2nat,
{
    let rule_type = optional(get(es, Key::Type), |j: JsonView| json_text(j));
    let mode = optional(get(es, Key::Mode), |j: JsonView| json_text(j));
    let rules = match get(es, Key::Rules) {
        None => Some(None),
        Some(JsonView::Null) => Some(None),
        Some(j) => match json_nested_route_rule_list(j, depth) {
            Some(s) => Some(Some(s)),
            None => None,
        },
    };
    let invert = optional(get(es, Key::Invert), |j: JsonView| json_bool(j));
    let action = RuleActionView::from_group(es);
    if rule_type is Some
        && mode is Some
        && rules is Some
        && invert is Some
        && action is Some {
        Some(
            LogicalRouteRuleView {
                rule_type: rule_type->0,
                mode: mode->0,
                rules: rules->0,
                invert: invert->0,
                action: action->0,
            },
        )
    } else {
        None
    }
}

/// The route rules that a list stands for, if each of its values stands for one.
pub open spec fn json_nested_route_rule_list(j: JsonView, depth: nat) -> Option<Seq<RouteRuleView>>
    decreases depth, 1nat,
{
    match j {
        JsonView::List(js) => if forall|i: int|
            0 <= i < js.len() ==> json_route_rule(#[trigger] js[i], depth) is Some {
            Some(Seq::new(js.len(), |i: int| json_route_rule(js[i], depth)->0))
        } else {
            None
        },
        _ => None,
    }
}

/// Whether a route rule is written in a form from which it is read back, no
/// deeper than `depth` levels: what it holds is, and one that combines
/// others says so in its type.
pub open spec fn route_rule_canonical(r: RouteRuleView, depth: nat) -> bool
    decreases depth, 0nat,
{
    match r {
        RouteRuleView::Default(d) => d.canonical(),
        RouteRuleView::Logical(l) => depth > 0 && logical_route_rule_canonical(l, (depth - 1) as nat),
    }
}

/// Whether a route rule that combines others is written in a form from which it
/// is read back.
pub open spec fn logical_route_rule_canonical(l: LogicalRouteRuleView, depth: nat) -> bool
    decreases depth, 2nat,
{
    &&& l.rule_type == Some("logical"@)
    &&& match l.rules {
        Some(s) => nested_route_rule_list_canonical(s, depth),
        None => true,
    }
    &&& match l.action {
        Some(g) => g.canonical(),
        None => true,
    }
}

/// Whether each of the route rules is written in a form from which it is read
/// back.
pub open spec fn nested_route_rule_list_canonical(s: Seq<RouteRuleView>, depth: nat) -> bool
    decreases depth, 1nat,
{
    forall|i: int| 0 <= i < s.len() ==> route_rule_canonical(#[trigger] s[i], depth)
}

/// A route rule is read back from the value that stands for it.
pub proof fn lemma_route_rule(r: RouteRuleView, depth: nat)
    requires
        route_rule_canonical(r, depth),
    ensures
        json_route_rule(route_rule_json(r), depth) == Some(r),
    decreases depth, 0nat,
{
    broadcast use {lemma_get_empty, lemma_get_put, lemma_get_merge};

    match r {
        RouteRuleView::Default(d) => {
            d.lemma_round_trip();
            d.lemma_has_no_type();
        },
        RouteRuleView::Logical(l) => {
            lemma_logical_route_rule(l, (depth - 1) as nat);
            lemma_logical_route_rule_type(l);
        },
    }
}

/// The record of a route rule that combines others holds its type.
pub proof fn lemma_logical_route_rule_type(l: LogicalRouteRuleView)
    ensures
        get(logical_route_rule_record(l), Key::Type) == present(l.rule_type, |x: Seq<char>| text_json(x)),
{
    broadcast use {lemma_get_empty, lemma_get_put, lemma_get_merge};

    match l.action {
        Some(g) => {
            g.lemma_has_no_type();
        },
        None => {},
    }
}

/// A route rule that combines others is read back from the entries that stand
/// for it.
pub proof fn lemma_logical_route_rule(l: LogicalRouteRuleView, depth: nat)
    requires
        logical_route_rule_canonical(l, depth),
    ensures
        logical_route_rule_from_record(logical_route_rule_record(l), depth) == Some(l),
    decreases depth, 2nat,
{
    broadcast use {lemma_get_empty, lemma_get_put, lemma_get_merge};

    let es = logical_route_rule_record(l);
    assert(optional(get(es, Key::Type), |j: JsonView| json_text(j)) == Some(l.rule_type));
    assert(optional(get(es, Key::Mode), |j: JsonView| json_text(j)) == Some(l.mode));
    match l.rules {
        Some(s) => {
            lemma_nested_route_rule_list(s, depth);
            assert(get(es, Key::Rules) == Some(nested_route_rule_list_json(s)));
        },
        None => {
            assert(get(es, Key::Rules) is None);
        },
    }
    assert(optional(get(es, Key::Invert), |j: JsonView| json_bool(j)) == Some(l.invert));
    match l.action {
        Some(g) => {
            g.lemma_round_trip();
            assert(get(es, Key::Action) == get(g.record(), Key::Action));
            assert(get(es, Key::Outbound) == get(g.record(), Key::Outbound));
            assert(get(es, Key::OverrideAddress) == get(g.record(), Key::OverrideAddress));
            assert(get(es, Key::OverridePort) == get(g.record(), Key::OverridePort));
            assert(get(es, Key::NetworkStrategy) == get(g.record(), Key::NetworkStrategy));
            assert(get(es, Key::FallbackDelay) == get(g.record(), Key::FallbackDelay));
            assert(get(es, Key::UdpDisableDomainUnmapping) == get(g.record(), Key::UdpDisableDomainUnmapping));
            assert(get(es, Key::UdpConnect) == get(g.record(), Key::UdpConnect));
            assert(get(es, Key::UdpTimeout) == get(g.record(), Key::UdpTimeout));
            assert(get(es, Key::TlsFragment) == get(g.record(), Key::TlsFragment));
            assert(get(es, Key::TlsFragmentFallbackDelay) == get(g.record(), Key::TlsFragmentFallbackDelay));
            assert(get(es, Key::TlsRecordFragment) == get(g.record(), Key::TlsRecordFragment));
            assert(get(es, Key::Method) == get(g.record(), Key::Method));
            assert(get(es, Key::NoDrop) == get(g.record(), Key::NoDrop));
            assert(get(es, Key::Sniffer) == get(g.record(), Key::Sniffer));
            assert(get(es, Key::Timeout) == get(g.record(), Key::Timeout));
            assert(get(es, Key::Server) == get(g.record(), Key::Server));
            assert(get(es, Key::Strategy) == get(g.record(), Key::Strategy));
            assert(get(es, Key::DisableCache) == get(g.record(), Key::DisableCache));
            assert(get(es, Key::RewriteTtl) == get(g.record(), Key::RewriteTtl));
            assert(get(es, Key::ClientSubnet) == get(g.record(), Key::ClientSubnet));
            RuleActionView::lemma_reads_own_keys(es, g.record());
        },
        None => {
            assert(get(es, Key::Action) is None);
            assert(get(es, Key::Outbound) is None);
            assert(get(es, Key::OverrideAddress) is None);
            assert(get(es, Key::OverridePort) is None);
            assert(get(es, Key::NetworkStrategy) is None);
            assert(get(es, Key::FallbackDelay) is None);
            assert(get(es, Key::UdpDisableDomainUnmapping) is None);
            assert(get(es, Key::UdpConnect) is None);
            assert(get(es, Key::UdpTimeout) is None);
            assert(get(es, Key::TlsFragment) is None);
            assert(get(es, Key::TlsFragmentFallbackDelay) is None);
            assert(get(es, Key::TlsRecordFragment) is None);
            assert(get(es, Key::Method) is None);
            assert(get(es, Key::NoDrop) is None);
            assert(get(es, Key::Sniffer) is None);
            assert(get(es, Key::Timeout) is None);
            assert(get(es, Key::Server) is None);
            assert(get(es, Key::Strategy) is None);
            assert(get(es, Key::DisableCache) is None);
            assert(get(es, Key::RewriteTtl) is None);
            assert(get(es, Key::ClientSubnet) is None);
            RuleActionView::lemma_no_group(es);
        },
    }
    assert(RuleActionView::from_group(es) == Some(l.action));
}

/// The route rules that a route rule combines are read back from the list that stands
/// for them.
pub proof fn lemma_nested_route_rule_list(s: Seq<RouteRuleView>, depth: nat)
    requires
        nested_route_rule_list_canonical(s, depth),
    ensures
        json_nested_route_rule_list(nested_route_rule_list_json(s), depth) == Some(s),
    decreases depth, 1nat,
{
    let js = nested_route_rule_list_json(s)->List_0;
    assert forall|i: int| 0 <= i < js.len() implies json_route_rule(#[trigger] js[i], depth) == Some(
        s[i],
    ) by {
        lemma_route_rule(s[i], depth);
    }
    assert(Seq::new(js.len(), |i: int| json_route_rule(js[i], depth)->0) =~= s);
}

impl RouteRuleView {
    /// The value that stands for the route rule.
    pub open spec fn to_json(self) -> JsonView {
        route_rule_json(self)
    }

    /// The route rule that an object stands for, read no deeper than the nesting
    /// limit.
    pub open spec fn from_json(j: JsonView) -> Option<RouteRuleView> {
        json_route_rule(j, MAX_NESTING as nat)
    }

    /// Whether the route rule is written in a form from which it is read back, and
    /// is nested no deeper than the nesting limit.
    pub open spec fn canonical(self) -> bool {
        route_rule_canonical(self, MAX_NESTING as nat)
    }

    /// The route rule is read back from the value that stands for it.
    pub proof fn lemma_round_trip(self)
        requires
            self.canonical(),
        ensures
            RouteRuleView::from_json(self.to_json()) == Some(self),
    {
        lemma_route_rule(self, MAX_NESTING as nat);
    }
}

impl RouteRule {
    /// The value that stands for the route rule.
    pub fn to_json(&self) -> (r: Json)
        ensures
            r@ == self@.to_json(),
        decreases self,
    {
        match self {
            RouteRule::Default(d) => d.to_json(),
            RouteRule::Logical(l) => {
                let r = Json::Record(l.record());
                proof {
                    lemma_json_view(r);
                }
                r
            },
        }
    }

    /// Reads the route rule from an object, no deeper than the nesting limit.
    pub fn from_json(j: &Json) -> (r: Result<RouteRule, SchemaMismatch>)
        ensures
            match r {
                Ok(x) => RouteRuleView::from_json(j@) == Some(x@),
                Err(_) => RouteRuleView::from_json(j@) is None,
            },
    {
        RouteRule::from_json_within(j, MAX_NESTING)
    }

    /// Reads the route rule from an object, no deeper than `depth` levels.
    pub fn from_json_within(j: &Json, depth: usize) -> (r: Result<RouteRule, SchemaMismatch>)
        ensures
            match r {
                Ok(x) => json_route_rule(j@, depth as nat) == Some(x@),
                Err(_) => json_route_rule(j@, depth as nat) is None,
            },
        decreases depth, 0nat,
    {
        let es = match read_entries(j) {
            Ok(es) => es,
            Err(e) => {
                return Err(e);
            },
        };
        let logical = match get_field(&es, Key::Type) {
            Some(Json::Text(s)) => same_text(s.as_str(), "logical"),
            _ => false,
        };
        if logical {
            if depth == 0 {
                Err(SchemaMismatch)
            } else {
                match LogicalRouteRule::from_record(&es, depth - 1) {
                    Ok(l) => Ok(RouteRule::Logical(l)),
                    Err(e) => Err(e),
                }
            }
        } else {
            match DefaultRouteRule::from_record(&es) {
                Ok(d) => Ok(RouteRule::Default(d)),
                Err(e) => Err(e),
            }
        }
    }
}

impl LogicalRouteRule {
    /// The entries of the record that stands for the route rule.
    pub fn record(&self) -> (r: Vec<(Key, Json)>)
        ensures
            r.deep_view() == logical_route_rule_record(self@),
        decreases self,
    {
        let mut es: Vec<(Key, Json)> = no_entries();
        let ghost s = Seq::<(Key, JsonView)>::empty();
        proof {
            lemma_logical_route_rules(*self);
        }
        let value = match &self.rule_type {
            Some(x) => Some(Json::Text(x.clone())),
            None => None,
        };
        put_field(&mut es, Key::Type, value);
        let ghost s = put(s, Key::Type, present(self@.rule_type, |x: Seq<char>| text_json(x)));
        assert(es.deep_view() == s);
        let value = match &self.mode {
            Some(x) => Some(Json::Text(x.clone())),
            None => None,
        };
        put_field(&mut es, Key::Mode, value);
        let ghost s = put(s, Key::Mode, present(self@.mode, |x: Seq<char>| text_json(x)));
        assert(es.deep_view() == s);
        let value = match &self.rules {
            Some(v) => Some(write_nested_route_rule_list(v)),
            None => None,
        };
        put_field(&mut es, Key::Rules, value);
        let ghost s = put(
            s,
            Key::Rules,
            match self@.rules {
                Some(x) => Some(nested_route_rule_list_json(x)),
                None => None,
            },
        );
        assert(es.deep_view() == s);
        let value = match &self.invert {
            Some(x) => Some(Json::Bool(*x)),
            None => None,
        };
        put_field(&mut es, Key::Invert, value);
        let ghost s = put(s, Key::Invert, present(self@.invert, |x: bool| bool_json(x)));
        assert(es.deep_view() == s);
        let group = match &self.action {
            Some(g) => g.record(),
            None => no_entries(),
        };
        put_group(&mut es, group);
        let ghost s = merge(
            s,
            match self@.action {
                Some(g) => g.record(),
                None => Seq::empty(),
            },
        );
        assert(es.deep_view() == s);
        es
    }

    /// Reads the route rule from the entries of an object, no deeper than `depth`
    /// levels.
    pub fn from_record(es: &Vec<(Key, &Json)>, depth: usize) -> (r: Result<LogicalRouteRule, SchemaMismatch>)
        ensures
            match r {
                Ok(x) => logical_route_rule_from_record(es.deep_view(), depth as nat) == Some(x@),
                Err(_) => logical_route_rule_from_record(es.deep_view(), depth as nat) is None,
            },
        decreases depth, 2nat,
    {
        let rule_type = match get_field(es, Key::Type) {
            Some(j) => if is_null(j) {
                None
            } else {
                match read_text(j) {
                    Ok(x) => Some(x),
                    Err(e) => {
                        return Err(e);
                    },
                }
            },
            None => None,
        };
        assert(optional(get(es.deep_view(), Key::Type), |j: JsonView| json_text(j)) == Some(rule_type.deep_view()));
        let mode = match get_field(es, Key::Mode) {
            Some(j) => if is_null(j) {
                None
            } else {
                match read_text(j) {
                    Ok(x) => Some(x),
                    Err(e) => {
                        return Err(e);
                    },
                }
            },
            None => None,
        };
        assert(optional(get(es.deep_view(), Key::Mode), |j: JsonView| json_text(j)) == Some(mode.deep_view()));
        let rules = match get_field(es, Key::Rules) {
            Some(j) => if is_null(j) {
                None
            } else {
                match read_nested_route_rule_list(j, depth) {
                    Ok(x) => Some(x),
                    Err(e) => {
                        return Err(e);
                    },
                }
            },
            None => None,
        };
        let invert = match get_field(es, Key::Invert) {
            Some(j) => if is_null(j) {
                None
            } else {
                match read_bool(j) {
                    Ok(x) => Some(x),
                    Err(e) => {
                        return Err(e);
                    },
                }
            },
            None => None,
        };
        assert(optional(get(es.deep_view(), Key::Invert), |j: JsonView| json_bool(j)) == Some(invert.deep_view()));
        let action = match RuleAction::from_group(es) {
            Ok(g) => g,
            Err(e) => {
                return Err(e);
            },
        };
        let r = LogicalRouteRule { rule_type, mode, rules, invert, action };
        proof {
            lemma_logical_route_rules(r);
        }
        Ok(r)
    }
}

/// Writes the route rules that a route rule combines, as `nested_route_rule_list_json` says.
pub fn write_nested_route_rule_list(v: &Vec<RouteRule>) -> (r: Json)
    ensures
        r@ == nested_route_rule_list_json(v.deep_view()),
    decreases v,
{
    let mut out: Vec<Json> = Vec::new();
    let mut i: usize = 0;
    let ghost s = v.deep_view();
    while i < v.len()
        invariant
            i <= v.len(),
            s == v.deep_view(),
            out.deep_view() == Seq::new(i as nat, |k: int| route_rule_json(s[k])),
        decreases v.len() - i,
    {
        let ghost before = out.deep_view();
        proof {
            vstd::std_specs::vec::axiom_vec_index_decreases(*v, i as int);
        }
        let item = v[i].to_json();
        out.push(item);
        proof {
            assert(s[i as int] == v@[i as int].deep_view());
            assert(out.deep_view() =~= before.push(item@));
            assert(before.push(item@) =~= Seq::new((i + 1) as nat, |k: int| route_rule_json(s[k])));
        }
        i += 1;
    }
    let r = Json::List(out);
    proof {
        lemma_json_view(r);
        assert(out.deep_view() =~= nested_route_rule_list_json(s)->List_0);
    }
    r
}

/// Reads the route rules that a route rule combines, as `json_nested_route_rule_list` says.
pub fn read_nested_route_rule_list(j: &Json, depth: usize) -> (r: Result<Vec<RouteRule>, SchemaMismatch>)
    ensures
        match r {
            Ok(v) => json_nested_route_rule_list(j@, depth as nat) == Some(v.deep_view()),
            Err(_) => json_nested_route_rule_list(j@, depth as nat) is None,
        },
    decreases depth, 1nat,
{
    reveal_with_fuel(json_nested_route_rule_list, 2);
    proof {
        lemma_json_view(*j);
    }
    match j {
        Json::List(js) => {
            let mut out: Vec<RouteRule> = Vec::new();
            let mut i: usize = 0;
            let ghost all = js.deep_view();
            while i < js.len()
                invariant
                    i <= js.len(),
                    all == js.deep_view(),
                    j@ == JsonView::List(all),
                    forall|k: int|
                        0 <= k < i ==> json_route_rule(#[trigger] all[k], depth as nat) is Some,
                    out.deep_view() == Seq::new(
                        i as nat,
                        |k: int| json_route_rule(all[k], depth as nat)->0,
                    ),
                decreases js.len() - i,
            {
                let ghost before = out.deep_view();
                proof {
                    assert(all[i as int] == js@[i as int]@);
                }
                match RouteRule::from_json_within(&js[i], depth) {
                    Ok(x) => {
                        out.push(x);
                        proof {
                            assert(out.deep_view() =~= before.push(x.deep_view()));
                            assert(before.push(x.deep_view()) =~= Seq::new(
                                (i + 1) as nat,
                                |k: int| json_route_rule(all[k], depth as nat)->0,
                            ));
                        }
                    },
                    Err(e) => {
                        reveal_with_fuel(json_nested_route_rule_list, 2);
                        assert(json_route_rule(all[i as int], depth as nat) is None);
                        return Err(e);
                    },
                }
                i += 1;
            }
            proof {
                assert(out.deep_view() =~= Seq::new(
                    all.len(),
                    |k: int| json_route_rule(all[k], depth as nat)->0,
                ));
            }
            Ok(out)
        },
        _ => Err(SchemaMismatch),
    }
}

impl DefaultRouteRuleView {
    /// A rule without conditions that sends every connection to `outbound`.
    pub open spec fn routed_to(outbound: Seq<char>) -> DefaultRouteRuleView {
        DefaultRouteRuleView {
            action: Some(ROUTE_ACTION@),
            outbound: Some(outbound),
            ..DefaultRouteRuleView::fresh()
        }
    }
}

impl RouteRuleView {
    /// The tag of the outbound to which the rule sends a connection, where
    /// it names one.
    pub open spec fn target(self) -> Option<Seq<char>> {
        match self {
            RouteRuleView::Default(d) => d.outbound,
            RouteRuleView::Logical(l) => match l.action {
                Some(RuleActionView::RouteOptions(a)) => a.outbound,
                _ => None,
            },
        }
    }
}

impl RouteRule {
    /// The tag of the outbound to which the rule sends a connection, where
    /// it names one.
    pub fn target(&self) -> (r: Option<&String>)
        ensures
            r.deep_view() == self@.target(),
    {
        match self {
            RouteRule::Default(d) => d.outbound.as_ref(),
            RouteRule::Logical(l) => match &l.action {
                Some(RuleAction::RouteOptions(a)) => a.outbound.as_ref(),
                _ => None,
            },
        }
    }
}

impl DefaultRouteRule {
    /// A rule without conditions that sends every connection to `outbound`.
    pub fn routed_to(outbound: String) -> (r: Self)
        ensures
            r@ == DefaultRouteRuleView::routed_to(outbound@),
    {
        let mut rule = DefaultRouteRule::new();
        rule.action = Some(ROUTE_ACTION.to_owned());
        rule.outbound = Some(outbound);
        rule
    }

    /// The tag of the first DNS server of the given type, to refer to it by;
    /// an error where the section has no such server or that server no tag.
    pub fn get_dns_tag_by_type(dns: &DnsConfig, dns_type: &str) -> (r: Result<String, CompileError>)
        ensures
            match r {
                Ok(tag) => dns@.tag_of_type(dns_type@) == Some(tag@),
                Err(e) => dns@.tag_of_type(dns_type@) is None
                    && e == CompileError::UnresolvedTagReference,
            },
    {
        match dns.get_tag_by_type(dns_type) {
            Some(tag) => Ok(tag),
            None => Err(CompileError::UnresolvedTagReference),
        }
    }

    /// The tag of the first outbound of the given type, to refer to it by;
    /// an error where the section has no such outbound or that outbound no
    /// tag.
    pub fn set_final_by_type(outbound: &OutboundConfig, outbound_type: &str) -> (r: Result<
        String,
        CompileError,
    >)
        ensures
            match r {
                Ok(tag) => outbound@.tag_of_type(outbound_type@) == Some(tag@),
                Err(e) => outbound@.tag_of_type(outbound_type@) is None
                    && e == CompileError::UnresolvedTagReference,
            },
    {
        match outbound.get_tag_by_type(outbound_type) {
            Some(tag) => Ok(tag),
            None => Err(CompileError::UnresolvedTagReference),
        }
    }
}

} // verus!
