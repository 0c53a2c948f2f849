//! Sets of rules that route and DNS rules refer to by tag.

use crate::json::{bool_json, Entries, entries_of, get, get_field, is_null, Json, json_bool, json_text, json_text_list, json_u16, json_u16_list, JsonView, Key, lemma_get_empty, lemma_get_merge, lemma_get_put, lemma_json_view, lemma_text_list, lemma_u16_list, MAX_NESTING, no_entries, optional, present, put, put_field, read_bool, read_entries, read_text, read_text_list, read_u16, read_u16_list, SchemaMismatch, text_json, text_list_json, u16_json, u16_list_json, write_text_list, write_u16_list};
use crate::scan::{first_where, found, kept, lemma_first_where_unique, Mark};
use crate::shared::{json_network_list, lemma_network_list, Network, network_list_json, read_network_list, write_network_list};
use crate::text::same_text;
use vstd::prelude::*;

verus! {

/// A number or a name.
#[derive(Debug, Clone, PartialEq)]
pub enum NumOrStr {
    /// A number.
    Num(u16),
    /// A name.
    Str(String),
}

/// What a [`NumOrStr`] holds, with every text as its characters.
pub enum NumOrStrView {
    Num(u16),
    Str(Seq<char>),
}

impl DeepView for NumOrStr {
    type V = NumOrStrView;

    open spec fn deep_view(&self) -> NumOrStrView {
        match self {
            NumOrStr::Num(x) => NumOrStrView::Num(x.deep_view()),
            NumOrStr::Str(x) => NumOrStrView::Str(x.deep_view()),
        }
    }
}

impl View for NumOrStr {
    type V = NumOrStrView;

    open spec fn view(&self) -> NumOrStrView {
        self.deep_view()
    }
}

impl NumOrStrView {
    /// The value of the tree that stands for the value: that of what it holds.
    pub open spec fn to_json(self) -> JsonView {
        match self {
            NumOrStrView::Num(x) => u16_json(x),
            NumOrStrView::Str(x) => text_json(x),
        }
    }

    /// The value that a value of the tree stands for: of the first kind
    /// that it can be read as.
    pub open spec fn from_json(j: JsonView) -> Option<NumOrStrView> {
        match json_u16(j) {
            Some(x) => Some(NumOrStrView::Num(x)),
            None =>
            match json_text(j) {
                Some(x) => Some(NumOrStrView::Str(x)),
                None => None,
            },
        }
    }

    /// Whether the value is written in a form from which it is read back.
    pub open spec fn canonical(self) -> bool {
        true
    }

    /// The value is read back from the value of the tree that stands for it.
    pub proof fn lemma_round_trip(self)
        ensures
            NumOrStrView::from_json(self.to_json()) == Some(self),
            self.to_json() != JsonView::Null,
    {
        match self {
            NumOrStrView::Num(x) => {
            },
            NumOrStrView::Str(x) => {
            },
        }
    }
}

impl NumOrStr {
    /// The value of the tree that stands for the value.
    pub fn to_json(&self) -> (r: Json)
        ensures
            r@ == self@.to_json(),
    {
        match self {
            NumOrStr::Num(x) => Json::Unsigned(*x as u64),
            NumOrStr::Str(x) => Json::Text(x.clone()),
        }
    }

    /// Reads the value, as `NumOrStrView::from_json` says.
    pub fn from_json(j: &Json) -> (r: Result<NumOrStr, SchemaMismatch>)
        ensures
            match r {
                Ok(x) => NumOrStrView::from_json(j@) == Some(x@),
                Err(_) => NumOrStrView::from_json(j@) is None,
            },
    {
        match read_u16(j) {
            Ok(x) => {
                return Ok(NumOrStr::Num(x));
            },
            Err(_) => {},
        }
        match read_text(j) {
            Ok(x) => {
                return Ok(NumOrStr::Str(x));
            },
            Err(_) => {},
        }
        Err(SchemaMismatch)
    }
}

/// A rule of a rule set: conditions without an action.
#[derive(Debug, Clone, PartialEq)]
pub struct HeadlessDefaultRule {
    pub query_type: Option<Vec<NumOrStr>>,
    pub network: Option<Vec<Network>>,
    pub domain: Option<Vec<String>>,
    pub domain_suffix: Option<Vec<String>>,
    pub domain_keyword: Option<Vec<String>>,
    pub domain_regex: Option<Vec<String>>,
    pub source_ip_cidr: Option<Vec<String>>,
    pub ip_cidr: Option<Vec<String>>,
    pub source_port: Option<Vec<u16>>,
    pub source_port_range: Option<Vec<String>>,
    pub port: Option<Vec<u16>>,
    pub port_range: Option<Vec<String>>,
    pub process_name: Option<Vec<String>>,
    pub process_path: Option<Vec<String>>,
    pub process_path_regex: Option<Vec<String>>,
    pub package_name: Option<Vec<String>>,
    pub default_interface_address: Option<Vec<String>>,
    pub invert: Option<bool>,
}

/// What a [`HeadlessDefaultRule`] holds, with every text as its characters.
pub struct HeadlessDefaultRuleView {
    pub query_type: Option<Seq<NumOrStrView>>,
    pub network: Option<Seq<Network>>,
    pub domain: Option<Seq<Seq<char>>>,
    pub domain_suffix: Option<Seq<Seq<char>>>,
    pub domain_keyword: Option<Seq<Seq<char>>>,
    pub domain_regex: Option<Seq<Seq<char>>>,
    pub source_ip_cidr: Option<Seq<Seq<char>>>,
    pub ip_cidr: Option<Seq<Seq<char>>>,
    pub source_port: Option<Seq<u16>>,
    pub source_port_range: Option<Seq<Seq<char>>>,
    pub port: Option<Seq<u16>>,
    pub port_range: Option<Seq<Seq<char>>>,
    pub process_name: Option<Seq<Seq<char>>>,
    pub process_path: Option<Seq<Seq<char>>>,
    pub process_path_regex: Option<Seq<Seq<char>>>,
    pub package_name: Option<Seq<Seq<char>>>,
    pub default_interface_address: Option<Seq<Seq<char>>>,
    pub invert: Option<bool>,
}

impl DeepView for HeadlessDefaultRule {
    type V = HeadlessDefaultRuleView;

    open spec fn deep_view(&self) -> HeadlessDefaultRuleView {
        HeadlessDefaultRuleView {
            query_type: self.query_type.deep_view(),
            network: self.network.deep_view(),
            domain: self.domain.deep_view(),
            domain_suffix: self.domain_suffix.deep_view(),
            domain_keyword: self.domain_keyword.deep_view(),
            domain_regex: self.domain_regex.deep_view(),
            source_ip_cidr: self.source_ip_cidr.deep_view(),
            ip_cidr: self.ip_cidr.deep_view(),
            source_port: self.source_port.deep_view(),
            source_port_range: self.source_port_range.deep_view(),
            port: self.port.deep_view(),
            port_range: self.port_range.deep_view(),
            process_name: self.process_name.deep_view(),
            process_path: self.process_path.deep_view(),
            process_path_regex: self.process_path_regex.deep_view(),
            package_name: self.package_name.deep_view(),
            default_interface_address: self.default_interface_address.deep_view(),
            invert: self.invert.deep_view(),
        }
    }
}

impl View for HeadlessDefaultRule {
    type V = HeadlessDefaultRuleView;

    open spec fn view(&self) -> HeadlessDefaultRuleView {
        self.deep_view()
    }
}

impl HeadlessDefaultRuleView {
    /// The view of what [`HeadlessDefaultRule::new`] returns.
    pub open spec fn fresh() -> HeadlessDefaultRuleView {
        HeadlessDefaultRuleView {
            query_type: None,
            network: None,
            domain: None,
            domain_suffix: None,
            domain_keyword: None,
            domain_regex: None,
            source_ip_cidr: None,
            ip_cidr: None,
            source_port: None,
            source_port_range: None,
            port: None,
            port_range: None,
            process_name: None,
            process_path: None,
            process_path_regex: None,
            package_name: None,
            default_interface_address: None,
            invert: None,
        }
    }
}

impl HeadlessDefaultRule {
    /// A rule that sets no condition.
    pub fn new() -> (r: Self)
        ensures
            r@ == HeadlessDefaultRuleView::fresh(),
    {
        HeadlessDefaultRule {
            query_type: None,
            network: None,
            domain: None,
            domain_suffix: None,
            domain_keyword: None,
            domain_regex: None,
            source_ip_cidr: None,
            ip_cidr: None,
            source_port: None,
            source_port_range: None,
            port: None,
            port_range: None,
            process_name: None,
            process_path: None,
            process_path_regex: None,
            package_name: None,
            default_interface_address: None,
            invert: None,
        }
    }
}

impl HeadlessDefaultRuleView {
    /// The entries of the record that stands for the value: one for each
    /// field that is set, in the order of the fields.
    pub open spec fn record(self) -> Entries {
        let es = Seq::empty();
        let es = put(es, Key::QueryType, present(self.query_type, |x: Seq<NumOrStrView>| num_or_str_list_json(x)));
        let es = put(es, Key::Network, present(self.network, |x: Seq<Network>| network_list_json(x)));
        let es = put(es, Key::Domain, present(self.domain, |x: Seq<Seq<char>>| text_list_json(x)));
        let es = put(es, Key::DomainSuffix, present(self.domain_suffix, |x: Seq<Seq<char>>| text_list_json(x)));
        let es = put(es, Key::DomainKeyword, present(self.domain_keyword, |x: Seq<Seq<char>>| text_list_json(x)));
        let es = put(es, Key::DomainRegex, present(self.domain_regex, |x: Seq<Seq<char>>| text_list_json(x)));
        let es = put(es, Key::SourceIpCidr, present(self.source_ip_cidr, |x: Seq<Seq<char>>| text_list_json(x)));
        let es = put(es, Key::IpCidr, present(self.ip_cidr, |x: Seq<Seq<char>>| text_list_json(x)));
        let es = put(es, Key::SourcePort, present(self.source_port, |x: Seq<u16>| u16_list_json(x)));
        let es = put(es, Key::SourcePortRange, present(self.source_port_range, |x: Seq<Seq<char>>| text_list_json(x)));
        let es = put(es, Key::Port, present(self.port, |x: Seq<u16>| u16_list_json(x)));
        let es = put(es, Key::PortRange, present(self.port_range, |x: Seq<Seq<char>>| text_list_json(x)));
        let es = put(es, Key::ProcessName, present(self.process_name, |x: Seq<Seq<char>>| text_list_json(x)));
        let es = put(es, Key::ProcessPath, present(self.process_path, |x: Seq<Seq<char>>| text_list_json(x)));
        let es = put(es, Key::ProcessPathRegex, present(self.process_path_regex, |x: Seq<Seq<char>>| text_list_json(x)));
        let es = put(es, Key::PackageName, present(self.package_name, |x: Seq<Seq<char>>| text_list_json(x)));
        let es = put(es, Key::DefaultInterfaceAddress, present(self.default_interface_address, |x: Seq<Seq<char>>| text_list_json(x)));
        let es = put(es, Key::Invert, present(self.invert, |x: bool| bool_json(x)));
        es
    }

    /// The record that stands for the value.
    pub open spec fn to_json(self) -> JsonView {
        JsonView::Record(self.record())
    }

    /// The value that the entries of an object stand for. Fails where an
    /// entry holds a value of the wrong shape.
    pub open spec fn from_record(es: Entries) -> Option<HeadlessDefaultRuleView> {
        let query_type = optional(get(es, Key::QueryType), |j: JsonView| json_num_or_str_list(j));
        let network = optional(get(es, Key::Network), |j: JsonView| json_network_list(j));
        let domain = optional(get(es, Key::Domain), |j: JsonView| json_text_list(j));
        let domain_suffix = optional(get(es, Key::DomainSuffix), |j: JsonView| json_text_list(j));
        let domain_keyword = optional(get(es, Key::DomainKeyword), |j: JsonView| json_text_list(j));
        let domain_regex = optional(get(es, Key::DomainRegex), |j: JsonView| json_text_list(j));
        let source_ip_cidr = optional(get(es, Key::SourceIpCidr), |j: JsonView| json_text_list(j));
        let ip_cidr = optional(get(es, Key::IpCidr), |j: JsonView| json_text_list(j));
        let source_port = optional(get(es, Key::SourcePort), |j: JsonView| json_u16_list(j));
        let source_port_range = optional(get(es, Key::SourcePortRange), |j: JsonView| json_text_list(j));
        let port = optional(get(es, Key::Port), |j: JsonView| json_u16_list(j));
        let port_range = optional(get(es, Key::PortRange), |j: JsonView| json_text_list(j));
        let process_name = optional(get(es, Key::ProcessName), |j: JsonView| json_text_list(j));
        let process_path = optional(get(es, Key::ProcessPath), |j: JsonView| json_text_list(j));
        let process_path_regex = optional(get(es, Key::ProcessPathRegex), |j: JsonView| json_text_list(j));
        let package_name = optional(get(es, Key::PackageName), |j: JsonView| json_text_list(j));
        let default_interface_address = optional(get(es, Key::DefaultInterfaceAddress), |j: JsonView| json_text_list(j));
        let invert = optional(get(es, Key::Invert), |j: JsonView| json_bool(j));
        if query_type is Some
            && network is Some
            && domain is Some
            && domain_suffix is Some
            && domain_keyword is Some
            && domain_regex is Some
            && source_ip_cidr is Some
            && ip_cidr is Some
            && source_port is Some
            && source_port_range is Some
            && port is Some
            && port_range is Some
            && process_name is Some
            && process_path is Some
            && process_path_regex is Some
            && package_name is Some
            && default_interface_address is Some
            && invert is Some {
            Some(
                HeadlessDefaultRuleView {
                    query_type: query_type->0,
                    network: network->0,
                    domain: domain->0,
                    domain_suffix: domain_suffix->0,
                    domain_keyword: domain_keyword->0,
                    domain_regex: domain_regex->0,
                    source_ip_cidr: source_ip_cidr->0,
                    ip_cidr: ip_cidr->0,
                    source_port: source_port->0,
                    source_port_range: source_port_range->0,
                    port: port->0,
                    port_range: port_range->0,
                    process_name: process_name->0,
                    process_path: process_path->0,
                    process_path_regex: process_path_regex->0,
                    package_name: package_name->0,
                    default_interface_address: default_interface_address->0,
                    invert: invert->0,
                },
            )
        } else {
            None
        }
    }

    /// The value that an object stands for; none for a value that is no
    /// object.
    pub open spec fn from_json(j: JsonView) -> Option<HeadlessDefaultRuleView> {
        match entries_of(j) {
            Some(es) => HeadlessDefaultRuleView::from_record(es),
            None => None,
        }
    }

    /// Whether the value is written in a form from which it is read back:
    /// the values that it holds are, and a group of fields that is present
    /// sets at least one of them.
    pub open spec fn canonical(self) -> bool {
        &&& match self.query_type {
            Some(x) => canonical_num_or_str_list(x),
            None => true,
        }
    }

    /// The field `query_type` is read back from the record.
    pub proof fn lemma_reads_query_type(self)
        requires
            self.canonical(),
        ensures
            optional(get(self.record(), Key::QueryType), |j: JsonView| json_num_or_str_list(j)) == Some(self.query_type),
    {
        broadcast use {lemma_get_empty, lemma_get_put, lemma_get_merge};

        let es = self.record();
        match self.query_type {
            Some(x) => {
                lemma_num_or_str_list(x);
            },
            None => {},
        }
    }

    /// The field `network` is read back from the record.
    pub proof fn lemma_reads_network(self)
        requires
            self.canonical(),
        ensures
            optional(get(self.record(), Key::Network), |j: JsonView| json_network_list(j)) == Some(self.network),
    {
        broadcast use {lemma_get_empty, lemma_get_put, lemma_get_merge};

        let es = self.record();
        match self.network {
            Some(x) => {
                lemma_network_list(x);
            },
            None => {},
        }
    }

    /// The field `domain` is read back from the record.
    pub proof fn lemma_reads_domain(self)
        requires
            self.canonical(),
        ensures
            optional(get(self.record(), Key::Domain), |j: JsonView| json_text_list(j)) == Some(self.domain),
    {
        broadcast use {lemma_get_empty, lemma_get_put, lemma_get_merge};

        let es = self.record();
        match self.domain {
            Some(x) => {
                lemma_text_list(x);
            },
            None => {},
        }
    }

    /// The field `domain_suffix` is read back from the record.
    pub proof fn lemma_reads_domain_suffix(self)
        requires
            self.canonical(),
        ensures
            optional(get(self.record(), Key::DomainSuffix), |j: JsonView| json_text_list(j)) == Some(self.domain_suffix),
    {
        broadcast use {lemma_get_empty, lemma_get_put, lemma_get_merge};

        let es = self.record();
        match self.domain_suffix {
            Some(x) => {
                lemma_text_list(x);
            },
            None => {},
        }
    }

    /// The field `domain_keyword` is read back from the record.
    pub proof fn lemma_reads_domain_keyword(self)
        requires
            self.canonical(),
        ensures
            optional(get(self.record(), Key::DomainKeyword), |j: JsonView| json_text_list(j)) == Some(self.domain_keyword),
    {
        broadcast use {lemma_get_empty, lemma_get_put, lemma_get_merge};

        let es = self.record();
        match self.domain_keyword {
            Some(x) => {
                lemma_text_list(x);
            },
            None => {},
        }
    }

    /// The field `domain_regex` is read back from the record.
    pub proof fn lemma_reads_domain_regex(self)
        requires
            self.canonical(),
        ensures
            optional(get(self.record(), Key::DomainRegex), |j: JsonView| json_text_list(j)) == Some(self.domain_regex),
    {
        broadcast use {lemma_get_empty, lemma_get_put, lemma_get_merge};

        let es = self.record();
        match self.domain_regex {
            Some(x) => {
                lemma_text_list(x);
            },
            None => {},
        }
    }

    /// The field `source_ip_cidr` is read back from the record.
    pub proof fn lemma_reads_source_ip_cidr(self)
        requires
            self.canonical(),
        ensures
            optional(get(self.record(), Key::SourceIpCidr), |j: JsonView| json_text_list(j)) == Some(self.source_ip_cidr),
    {
        broadcast use {lemma_get_empty, lemma_get_put, lemma_get_merge};

        let es = self.record();
        match self.source_ip_cidr {
            Some(x) => {
                lemma_text_list(x);
            },
            None => {},
        }
    }

    /// The field `ip_cidr` is read back from the record.
    pub proof fn lemma_reads_ip_cidr(self)
        requires
            self.canonical(),
        ensures
            optional(get(self.record(), Key::IpCidr), |j: JsonView| json_text_list(j)) == Some(self.ip_cidr),
    {
        broadcast use {lemma_get_empty, lemma_get_put, lemma_get_merge};

        let es = self.record();
        match self.ip_cidr {
            Some(x) => {
                lemma_text_list(x);
            },
            None => {},
        }
    }

    /// The field `source_port` is read back from the record.
    pub proof fn lemma_reads_source_port(self)
        requires
            self.canonical(),
        ensures
            optional(get(self.record(), Key::SourcePort), |j: JsonView| json_u16_list(j)) == Some(self.source_port),
    {
        broadcast use {lemma_get_empty, lemma_get_put, lemma_get_merge};

        let es = self.record();
        match self.source_port {
            Some(x) => {
                lemma_u16_list(x);
            },
            None => {},
        }
    }

    /// The field `source_port_range` is read back from the record.
    pub proof fn lemma_reads_source_port_range(self)
        requires
            self.canonical(),
        ensures
            optional(get(self.record(), Key::SourcePortRange), |j: JsonView| json_text_list(j)) == Some(self.source_port_range),
    {
        broadcast use {lemma_get_empty, lemma_get_put, lemma_get_merge};

        let es = self.record();
        match self.source_port_range {
            Some(x) => {
                lemma_text_list(x);
            },
            None => {},
        }
    }

    /// The field `port` is read back from the record.
    pub proof fn lemma_reads_port(self)
        requires
            self.canonical(),
        ensures
            optional(get(self.record(), Key::Port), |j: JsonView| json_u16_list(j)) == Some(self.port),
    {
        broadcast use {lemma_get_empty, lemma_get_put, lemma_get_merge};

        let es = self.record();
        match self.port {
            Some(x) => {
                lemma_u16_list(x);
            },
            None => {},
        }
    }

    /// The field `port_range` is read back from the record.
    pub proof fn lemma_reads_port_range(self)
        requires
            self.canonical(),
        ensures
            optional(get(self.record(), Key::PortRange), |j: JsonView| json_text_list(j)) == Some(self.port_range),
    {
        broadcast use {lemma_get_empty, lemma_get_put, lemma_get_merge};

        let es = self.record();
        match self.port_range {
            Some(x) => {
                lemma_text_list(x);
            },
            None => {},
        }
    }

    /// The field `process_name` is read back from the record.
    pub proof fn lemma_reads_process_name(self)
        requires
            self.canonical(),
        ensures
            optional(get(self.record(), Key::ProcessName), |j: JsonView| json_text_list(j)) == Some(self.process_name),
    {
        broadcast use {lemma_get_empty, lemma_get_put, lemma_get_merge};

        let es = self.record();
        match self.process_name {
            Some(x) => {
                lemma_text_list(x);
            },
            None => {},
        }
    }

    /// The field `process_path` is read back from the record.
    pub proof fn lemma_reads_process_path(self)
        requires
            self.canonical(),
        ensures
            optional(get(self.record(), Key::ProcessPath), |j: JsonView| json_text_list(j)) == Some(self.process_path),
    {
        broadcast use {lemma_get_empty, lemma_get_put, lemma_get_merge};

        let es = self.record();
        match self.process_path {
            Some(x) => {
                lemma_text_list(x);
            },
            None => {},
        }
    }

    /// The field `process_path_regex` is read back from the record.
    pub proof fn lemma_reads_process_path_regex(self)
        requires
            self.canonical(),
        ensures
            optional(get(self.record(), Key::ProcessPathRegex), |j: JsonView| json_text_list(j)) == Some(self.process_path_regex),
    {
        broadcast use {lemma_get_empty, lemma_get_put, lemma_get_merge};

        let es = self.record();
        match self.process_path_regex {
            Some(x) => {
                lemma_text_list(x);
            },
            None => {},
        }
    }

    /// The field `package_name` is read back from the record.
    pub proof fn lemma_reads_package_name(self)
        requires
            self.canonical(),
        ensures
            optional(get(self.record(), Key::PackageName), |j: JsonView| json_text_list(j)) == Some(self.package_name),
    {
        broadcast use {lemma_get_empty, lemma_get_put, lemma_get_merge};

        let es = self.record();
        match self.package_name {
            Some(x) => {
                lemma_text_list(x);
            },
            None => {},
        }
    }

    /// The field `default_interface_address` is read back from the record.
    pub proof fn lemma_reads_default_interface_address(self)
        requires
            self.canonical(),
        ensures
            optional(get(self.record(), Key::DefaultInterfaceAddress), |j: JsonView| json_text_list(j)) == Some(self.default_interface_address),
    {
        broadcast use {lemma_get_empty, lemma_get_put, lemma_get_merge};

        let es = self.record();
        match self.default_interface_address {
            Some(x) => {
                lemma_text_list(x);
            },
            None => {},
        }
    }

    /// The field `invert` is read back from the record.
    pub proof fn lemma_reads_invert(self)
        requires
            self.canonical(),
        ensures
            optional(get(self.record(), Key::Invert), |j: JsonView| json_bool(j)) == Some(self.invert),
    {
        broadcast use {lemma_get_empty, lemma_get_put, lemma_get_merge};

        let es = self.record();
    }

    /// The value is read back from the record that stands for it.
    pub proof fn lemma_round_trip(self)
        requires
            self.canonical(),
        ensures
            HeadlessDefaultRuleView::from_record(self.record()) == Some(self),
            HeadlessDefaultRuleView::from_json(self.to_json()) == Some(self),
    {
        self.lemma_reads_query_type();
        self.lemma_reads_network();
        self.lemma_reads_domain();
        self.lemma_reads_domain_suffix();
        self.lemma_reads_domain_keyword();
        self.lemma_reads_domain_regex();
        self.lemma_reads_source_ip_cidr();
        self.lemma_reads_ip_cidr();
        self.lemma_reads_source_port();
        self.lemma_reads_source_port_range();
        self.lemma_reads_port();
        self.lemma_reads_port_range();
        self.lemma_reads_process_name();
        self.lemma_reads_process_path();
        self.lemma_reads_process_path_regex();
        self.lemma_reads_package_name();
        self.lemma_reads_default_interface_address();
        self.lemma_reads_invert();
    }
}

impl HeadlessDefaultRule {
    /// The entries of the record that stands for the value, as
    /// `HeadlessDefaultRuleView::record` lists them.
    pub fn record(&self) -> (r: Vec<(Key, Json)>)
        ensures
            r.deep_view() == self@.record(),
    {
        let mut es: Vec<(Key, Json)> = no_entries();
        let ghost s = Seq::<(Key, JsonView)>::empty();
        let value = match &self.query_type {
            Some(x) => Some(write_num_or_str_list(x)),
            None => None,
        };
        put_field(&mut es, Key::QueryType, value);
        let ghost s = put(s, Key::QueryType, present(self@.query_type, |x: Seq<NumOrStrView>| num_or_str_list_json(x)));
        assert(es.deep_view() == s);
        let value = match &self.network {
            Some(x) => Some(write_network_list(x)),
            None => None,
        };
        put_field(&mut es, Key::Network, value);
        let ghost s = put(s, Key::Network, present(self@.network, |x: Seq<Network>| network_list_json(x)));
        assert(es.deep_view() == s);
        let value = match &self.domain {
            Some(x) => Some(write_text_list(x)),
            None => None,
        };
        put_field(&mut es, Key::Domain, value);
        let ghost s = put(s, Key::Domain, present(self@.domain, |x: Seq<Seq<char>>| text_list_json(x)));
        assert(es.deep_view() == s);
        let value = match &self.domain_suffix {
            Some(x) => Some(write_text_list(x)),
            None => None,
        };
        put_field(&mut es, Key::DomainSuffix, value);
        let ghost s = put(s, Key::DomainSuffix, present(self@.domain_suffix, |x: Seq<Seq<char>>| text_list_json(x)));
        assert(es.deep_view() == s);
        let value = match &self.domain_keyword {
            Some(x) => Some(write_text_list(x)),
            None => None,
        };
        put_field(&mut es, Key::DomainKeyword, value);
        let ghost s = put(s, Key::DomainKeyword, present(self@.domain_keyword, |x: Seq<Seq<char>>| text_list_json(x)));
        assert(es.deep_view() == s);
        let value = match &self.domain_regex {
            Some(x) => Some(write_text_list(x)),
            None => None,
        };
        put_field(&mut es, Key::DomainRegex, value);
        let ghost s = put(s, Key::DomainRegex, present(self@.domain_regex, |x: Seq<Seq<char>>| text_list_json(x)));
        assert(es.deep_view() == s);
        let value = match &self.source_ip_cidr {
            Some(x) => Some(write_text_list(x)),
            None => None,
        };
        put_field(&mut es, Key::SourceIpCidr, value);
        let ghost s = put(s, Key::SourceIpCidr, present(self@.source_ip_cidr, |x: Seq<Seq<char>>| text_list_json(x)));
        assert(es.deep_view() == s);
        let value = match &self.ip_cidr {
            Some(x) => Some(write_text_list(x)),
            None => None,
        };
        put_field(&mut es, Key::IpCidr, value);
        let ghost s = put(s, Key::IpCidr, present(self@.ip_cidr, |x: Seq<Seq<char>>| text_list_json(x)));
        assert(es.deep_view() == s);
        let value = match &self.source_port {
            Some(x) => Some(write_u16_list(x)),
            None => None,
        };
        put_field(&mut es, Key::SourcePort, value);
        let ghost s = put(s, Key::SourcePort, present(self@.source_port, |x: Seq<u16>| u16_list_json(x)));
        assert(es.deep_view() == s);
        let value = match &self.source_port_range {
            Some(x) => Some(write_text_list(x)),
            None => None,
        };
        put_field(&mut es, Key::SourcePortRange, value);
        let ghost s = put(s, Key::SourcePortRange, present(self@.source_port_range, |x: Seq<Seq<char>>| text_list_json(x)));
        assert(es.deep_view() == s);
        let value = match &self.port {
            Some(x) => Some(write_u16_list(x)),
            None => None,
        };
        put_field(&mut es, Key::Port, value);
        let ghost s = put(s, Key::Port, present(self@.port, |x: Seq<u16>| u16_list_json(x)));
        assert(es.deep_view() == s);
        let value = match &self.port_range {
            Some(x) => Some(write_text_list(x)),
            None => None,
        };
        put_field(&mut es, Key::PortRange, value);
        let ghost s = put(s, Key::PortRange, present(self@.port_range, |x: Seq<Seq<char>>| text_list_json(x)));
        assert(es.deep_view() == s);
        let value = match &self.process_name {
            Some(x) => Some(write_text_list(x)),
            None => None,
        };
        put_field(&mut es, Key::ProcessName, value);
        let ghost s = put(s, Key::ProcessName, present(self@.process_name, |x: Seq<Seq<char>>| text_list_json(x)));
        assert(es.deep_view() == s);
        let value = match &self.process_path {
            Some(x) => Some(write_text_list(x)),
            None => None,
        };
        put_field(&mut es, Key::ProcessPath, value);
        let ghost s = put(s, Key::ProcessPath, present(self@.process_path, |x: Seq<Seq<char>>| text_list_json(x)));
        assert(es.deep_view() == s);
        let value = match &self.process_path_regex {
            Some(x) => Some(write_text_list(x)),
            None => None,
        };
        put_field(&mut es, Key::ProcessPathRegex, value);
        let ghost s = put(s, Key::ProcessPathRegex, present(self@.process_path_regex, |x: Seq<Seq<char>>| text_list_json(x)));
        assert(es.deep_view() == s);
        let value = match &self.package_name {
            Some(x) => Some(write_text_list(x)),
            None => None,
        };
        put_field(&mut es, Key::PackageName, value);
        let ghost s = put(s, Key::PackageName, present(self@.package_name, |x: Seq<Seq<char>>| text_list_json(x)));
        assert(es.deep_view() == s);
        let value = match &self.default_interface_address {
            Some(x) => Some(write_text_list(x)),
            None => None,
        };
        put_field(&mut es, Key::DefaultInterfaceAddress, value);
        let ghost s = put(s, Key::DefaultInterfaceAddress, present(self@.default_interface_address, |x: Seq<Seq<char>>| text_list_json(x)));
        assert(es.deep_view() == s);
        let value = match &self.invert {
            Some(x) => Some(Json::Bool(*x)),
            None => None,
        };
        put_field(&mut es, Key::Invert, value);
        let ghost s = put(s, Key::Invert, present(self@.invert, |x: bool| bool_json(x)));
        assert(es.deep_view() == s);
        es
    }

    /// The record that stands for the value.
    pub fn to_json(&self) -> (r: Json)
        ensures
            r@ == self@.to_json(),
    {
        let r = Json::Record(self.record());
        proof {
            lemma_json_view(r);
        }
        r
    }

    /// Reads the value from the entries of an object, as
    /// `HeadlessDefaultRuleView::from_record` says.
    #[verifier::rlimit(54)]
    pub fn from_record(es: &Vec<(Key, &Json)>) -> (r: Result<HeadlessDefaultRule, SchemaMismatch>)
        ensures
            match r {
                Ok(x) => HeadlessDefaultRuleView::from_record(es.deep_view()) == Some(x@),
                Err(_) => HeadlessDefaultRuleView::from_record(es.deep_view()) is None,
            },
    {
        let query_type = match get_field(es, Key::QueryType) {
            Some(j) => if is_null(j) {
                None
            } else {
                match read_num_or_str_list(j) {
                    Ok(x) => Some(x),
                    Err(e) => {
                        return Err(e);
                    },
                }
            },
            None => None,
        };
        assert(optional(get(es.deep_view(), Key::QueryType), |j: JsonView| json_num_or_str_list(j)) == Some(query_type.deep_view()));
        let network = match get_field(es, Key::Network) {
            Some(j) => if is_null(j) {
                None
            } else {
                match read_network_list(j) {
                    Ok(x) => Some(x),
                    Err(e) => {
                        return Err(e);
                    },
                }
            },
            None => None,
        };
        assert(optional(get(es.deep_view(), Key::Network), |j: JsonView| json_network_list(j)) == Some(network.deep_view()));
        let domain = match get_field(es, Key::Domain) {
            Some(j) => if is_null(j) {
                None
            } else {
                match read_text_list(j) {
                    Ok(x) => Some(x),
                    Err(e) => {
                        return Err(e);
                    },
                }
            },
            None => None,
        };
        assert(optional(get(es.deep_view(), Key::Domain), |j: JsonView| json_text_list(j)) == Some(domain.deep_view()));
        let domain_suffix = match get_field(es, Key::DomainSuffix) {
            Some(j) => if is_null(j) {
                None
            } else {
                match read_text_list(j) {
                    Ok(x) => Some(x),
                    Err(e) => {
                        return Err(e);
                    },
                }
            },
            None => None,
        };
        assert(optional(get(es.deep_view(), Key::DomainSuffix), |j: JsonView| json_text_list(j)) == Some(domain_suffix.deep_view()));
        let domain_keyword = match get_field(es, Key::DomainKeyword) {
            Some(j) => if is_null(j) {
                None
            } else {
                match read_text_list(j) {
                    Ok(x) => Some(x),
                    Err(e) => {
                        return Err(e);
                    },
                }
            },
            None => None,
        };
        assert(optional(get(es.deep_view(), Key::DomainKeyword), |j: JsonView| json_text_list(j)) == Some(domain_keyword.deep_view()));
        let domain_regex = match get_field(es, Key::DomainRegex) {
            Some(j) => if is_null(j) {
                None
            } else {
                match read_text_list(j) {
                    Ok(x) => Some(x),
                    Err(e) => {
                        return Err(e);
                    },
                }
            },
            None => None,
        };
        assert(optional(get(es.deep_view(), Key::DomainRegex), |j: JsonView| json_text_list(j)) == Some(domain_regex.deep_view()));
        let source_ip_cidr = match get_field(es, Key::SourceIpCidr) {
            Some(j) => if is_null(j) {
                None
            } else {
                match read_text_list(j) {
                    Ok(x) => Some(x),
                    Err(e) => {
                        return Err(e);
                    },
                }
            },
            None => None,
        };
        assert(optional(get(es.deep_view(), Key::SourceIpCidr), |j: JsonView| json_text_list(j)) == Some(source_ip_cidr.deep_view()));
        let ip_cidr = match get_field(es, Key::IpCidr) {
            Some(j) => if is_null(j) {
                None
            } else {
                match read_text_list(j) {
                    Ok(x) => Some(x),
                    Err(e) => {
                        return Err(e);
                    },
                }
            },
            None => None,
        };
        assert(optional(get(es.deep_view(), Key::IpCidr), |j: JsonView| json_text_list(j)) == Some(ip_cidr.deep_view()));
        let source_port = match get_field(es, Key::SourcePort) {
            Some(j) => if is_null(j) {
                None
            } else {
                match read_u16_list(j) {
                    Ok(x) => Some(x),
                    Err(e) => {
                        return Err(e);
                    },
                }
            },
            None => None,
        };
        assert(optional(get(es.deep_view(), Key::SourcePort), |j: JsonView| json_u16_list(j)) == Some(source_port.deep_view()));
        let source_port_range = match get_field(es, Key::SourcePortRange) {
            Some(j) => if is_null(j) {
                None
            } else {
                match read_text_list(j) {
                    Ok(x) => Some(x),
                    Err(e) => {
                        return Err(e);
                    },
                }
            },
            None => None,
        };
        assert(optional(get(es.deep_view(), Key::SourcePortRange), |j: JsonView| json_text_list(j)) == Some(source_port_range.deep_view()));
        let port = match get_field(es, Key::Port) {
            Some(j) => if is_null(j) {
                None
            } else {
                match read_u16_list(j) {
                    Ok(x) => Some(x),
                    Err(e) => {
                        return Err(e);
                    },
                }
            },
            None => None,
        };
        assert(optional(get(es.deep_view(), Key::Port), |j: JsonView| json_u16_list(j)) == Some(port.deep_view()));
        let port_range = match get_field(es, Key::PortRange) {
            Some(j) => if is_null(j) {
                None
            } else {
                match read_text_list(j) {
                    Ok(x) => Some(x),
                    Err(e) => {
                        return Err(e);
                    },
                }
            },
            None => None,
        };
        assert(optional(get(es.deep_view(), Key::PortRange), |j: JsonView| json_text_list(j)) == Some(port_range.deep_view()));
        let process_name = match get_field(es, Key::ProcessName) {
            Some(j) => if is_null(j) {
                None
            } else {
                match read_text_list(j) {
                    Ok(x) => Some(x),
                    Err(e) => {
                        return Err(e);
                    },
                }
            },
            None => None,
        };
        assert(optional(get(es.deep_view(), Key::ProcessName), |j: JsonView| json_text_list(j)) == Some(process_name.deep_view()));
        let process_path = match get_field(es, Key::ProcessPath) {
            Some(j) => if is_null(j) {
                None
            } else {
                match read_text_list(j) {
                    Ok(x) => Some(x),
                    Err(e) => {
                        return Err(e);
                    },
                }
            },
            None => None,
        };
        assert(optional(get(es.deep_view(), Key::ProcessPath), |j: JsonView| json_text_list(j)) == Some(process_path.deep_view()));
        let process_path_regex = match get_field(es, Key::ProcessPathRegex) {
            Some(j) => if is_null(j) {
                None
            } else {
                match read_text_list(j) {
                    Ok(x) => Some(x),
                    Err(e) => {
                        return Err(e);
                    },
                }
            },
            None => None,
        };
        assert(optional(get(es.deep_view(), Key::ProcessPathRegex), |j: JsonView| json_text_list(j)) == Some(process_path_regex.deep_view()));
        let package_name = match get_field(es, Key::PackageName) {
            Some(j) => if is_null(j) {
                None
            } else {
                match read_text_list(j) {
                    Ok(x) => Some(x),
                    Err(e) => {
                        return Err(e);
                    },
                }
            },
            None => None,
        };
        assert(optional(get(es.deep_view(), Key::PackageName), |j: JsonView| json_text_list(j)) == Some(package_name.deep_view()));
        let default_interface_address = match get_field(es, Key::DefaultInterfaceAddress) {
            Some(j) => if is_null(j) {
                None
            } else {
                match read_text_list(j) {
                    Ok(x) => Some(x),
                    Err(e) => {
                        return Err(e);
                    },
                }
            },
            None => None,
        };
        assert(optional(get(es.deep_view(), Key::DefaultInterfaceAddress), |j: JsonView| json_text_list(j)) == Some(default_interface_address.deep_view()));
        let invert = match get_field(es, Key::Invert) {
            Some(j) => if is_null(j) {
                None
            } else {
                match read_bool(j) {
                    Ok(x) => Some(x),
                    Err(e) => {
                        return Err(e);
                    },
                }
            },
            None => None,
        };
        assert(optional(get(es.deep_view(), Key::Invert), |j: JsonView| json_bool(j)) == Some(invert.deep_view()));
        Ok(HeadlessDefaultRule { query_type, network, domain, domain_suffix, domain_keyword, domain_regex, source_ip_cidr, ip_cidr, source_port, source_port_range, port, port_range, process_name, process_path, process_path_regex, package_name, default_interface_address, invert })
    }

    /// Reads the value from an object, as `HeadlessDefaultRuleView::from_json` says.
    pub fn from_json(j: &Json) -> (r: Result<HeadlessDefaultRule, SchemaMismatch>)
        ensures
            match r {
                Ok(x) => HeadlessDefaultRuleView::from_json(j@) == Some(x@),
                Err(_) => HeadlessDefaultRuleView::from_json(j@) is None,
            },
    {
        match read_entries(j) {
            Ok(es) => HeadlessDefaultRule::from_record(&es),
            Err(e) => Err(e),
        }
    }
}

impl HeadlessDefaultRuleView {
    /// The record holds nothing under the key `type`.
    pub proof fn lemma_has_no_type(self)
        ensures
            get(self.record(), Key::Type) is None,
    {
        broadcast use {lemma_get_empty, lemma_get_put, lemma_get_merge};

    }
}

/// A rule of a rule set: by properties, or a combination of rules.
#[derive(Debug, PartialEq)]
pub enum HeadlessRule {
    /// A rule that matches by properties.
    Default(HeadlessDefaultRule),
    /// A rule that combines other rules.
    Logical(HeadlessLogicalRule),
}

/// A rule of a rule set that combines other rules with `and` or `or`.
#[derive(Debug, PartialEq)]
pub struct HeadlessLogicalRule {
    pub rule_type: Option<String>,
    pub mode: Option<String>,
    pub rules: Option<Vec<HeadlessRule>>,
    pub invert: Option<bool>,
}

/// What a [`HeadlessRule`] holds, with every text as its characters.
pub enum HeadlessRuleView {
    Default(HeadlessDefaultRuleView),
    Logical(HeadlessLogicalRuleView),
}

/// What a [`HeadlessLogicalRule`] holds, with every text as its characters.
pub struct HeadlessLogicalRuleView {
    pub rule_type: Option<Seq<char>>,
    pub mode: Option<Seq<char>>,
    pub rules: Option<Seq<HeadlessRuleView>>,
    pub invert: Option<bool>,
}

/// The view of a rule of a rule set, through the rules that it combines.
pub open spec fn headless_rule_view(r: HeadlessRule) -> HeadlessRuleView
    decreases r,
{
    match r {
        HeadlessRule::Default(d) => HeadlessRuleView::Default(d.deep_view()),
        HeadlessRule::Logical(l) => HeadlessRuleView::Logical(
            HeadlessLogicalRuleView {
                rule_type: l.rule_type.deep_view(),
                mode: l.mode.deep_view(),
                rules: match l.rules {
                    Some(v) => Some(
                        Seq::new(
                            v@.len(),
                            |i: int|
                                if 0 <= i < v@.len() {
                                    headless_rule_view(v@[i])
                                } else {
                                    arbitrary()
                                },
                        ),
                    ),
                    None => None,
                },
                invert: l.invert,
            },
        ),
    }
}

impl DeepView for HeadlessRule {
    type V = HeadlessRuleView;

    open spec fn deep_view(&self) -> HeadlessRuleView {
        headless_rule_view(*self)
    }
}

impl View for HeadlessRule {
    type V = HeadlessRuleView;

    open spec fn view(&self) -> HeadlessRuleView {
        self.deep_view()
    }
}

impl DeepView for HeadlessLogicalRule {
    type V = HeadlessLogicalRuleView;

    open spec fn deep_view(&self) -> HeadlessLogicalRuleView {
        headless_rule_view(HeadlessRule::Logical(*self))->Logical_0
    }
}

impl View for HeadlessLogicalRule {
    type V = HeadlessLogicalRuleView;

    open spec fn view(&self) -> HeadlessLogicalRuleView {
        self.deep_view()
    }
}

impl HeadlessLogicalRuleView {
    /// The view of what [`HeadlessLogicalRule::new`] returns.
    pub open spec fn fresh() -> HeadlessLogicalRuleView {
        HeadlessLogicalRuleView { rule_type: None, mode: None, rules: None, invert: None }
    }
}

impl HeadlessLogicalRule {
    /// A logical rule that combines nothing.
    pub fn new() -> (r: Self)
        ensures
            r@ == HeadlessLogicalRuleView::fresh(),
    {
        HeadlessLogicalRule { rule_type: None, mode: None, rules: None, invert: None }
    }
}

/// The rules of a logical rule are viewed one by one.
pub proof fn lemma_headless_logical_rules(l: HeadlessLogicalRule)
    ensures
        l@.rules == l.rules.deep_view(),
{
    match l.rules {
        Some(v) => {
            assert(l@.rules->0 =~= v.deep_view());
        },
        None => {},
    }
}

/// The value that stands for a rule: the record of what it holds.
pub open spec fn headless_rule_json(r: HeadlessRuleView) -> JsonView
    decreases r,
{
    match r {
        HeadlessRuleView::Default(d) => d.to_json(),
        HeadlessRuleView::Logical(l) => JsonView::Record(headless_logical_rule_record(l)),
    }
}

/// The entries of the record that stands for a rule that combines others.
pub open spec fn headless_logical_rule_record(l: HeadlessLogicalRuleView) -> Entries
    decreases l,
{
    let es = Seq::empty();
    let es = put(es, Key::Type, present(l.rule_type, |x: Seq<char>| text_json(x)));
    let es = put(es, Key::Mode, present(l.mode, |x: Seq<char>| text_json(x)));
    let es = put(
        es,
        Key::Rules,
        match l.rules {
            Some(s) => Some(nested_headless_rule_list_json(s)),
            None => None,
        },
    );
    let es = put(es, Key::Invert, present(l.invert, |x: bool| bool_json(x)));
    es
}

/// The list that stands for the rules that a rule combines.
pub open spec fn nested_headless_rule_list_json(s: Seq<HeadlessRuleView>) -> JsonView
    decreases s,
{
    JsonView::List(
        Seq::new(
            s.len(),
            |i: int|
                if 0 <= i < s.len() {
                    headless_rule_json(s[i])
                } else {
                    JsonView::Null
                },
        ),
    )
}

/// The rule that an object stands for, read no deeper than `depth` levels of
/// rules within rules: one that combines others where its type is `logical`,
/// else one that matches by properties.
pub open spec fn json_headless_rule(j: JsonView, depth: nat) -> Option<HeadlessRuleView>
    decreases depth, 0nat,
{
    match entries_of(j) {
        Some(es) => if get(es, Key::Type) == Some(JsonView::Text("logical"@)) {
            if depth == 0 {
                None
            } else {
                match headless_logical_rule_from_record(es, (depth - 1) as nat) {
                    Some(l) => Some(HeadlessRuleView::Logical(l)),
                    None => None,
                }
            }
        } else {
            match HeadlessDefaultRuleView::from_record(es) {
                Some(d) => Some(HeadlessRuleView::Default(d)),
                None => None,
            }
        },
        None => None,
    }
}

/// The rule that combines others, read from the entries of an object.
pub open spec fn headless_logical_rule_from_record(es: Entries, depth: nat) -> Option<HeadlessLogicalRuleView>
    decreases depth, 2nat,
{
    let rule_type = optional(get(es, Key::Type), |j: JsonView| json_text(j));
    let mode = optional(get(es, Key::Mode), |j: JsonView| json_text(j));
    let rules = match get(es, Key::Rules) {
        None => Some(None),
        Some(JsonView::Null) => Some(None),
        Some(j) => match json_nested_headless_rule_list(j, depth) {
            Some(s) => Some(Some(s)),
            None => None,
        },
    };
    let invert = optional(get(es, Key::Invert), |j: JsonView| json_bool(j));
    if rule_type is Some
        && mode is Some
        && rules is Some
        && invert is Some {
        Some(
            HeadlessLogicalRuleView {
                rule_type: rule_type->0,
                mode: mode->0,
                rules: rules->0,
                invert: invert->0,
            },
        )
    } else {
        None
    }
}

/// The rules that a list stands for, if each of its values stands for one.
pub open spec fn json_nested_headless_rule_list(j: JsonView, depth: nat) -> Option<Seq<HeadlessRuleView>>
    decreases depth, 1nat,
{
    match j {
        JsonView::List(js) => if forall|i: int|
            0 <= i < js.len() ==> json_headless_rule(#[trigger] js[i], depth) is Some {
            Some(Seq::new(js.len(), |i: int| json_headless_rule(js[i], depth)->0))
        } else {
            None
        },
        _ => None,
    }
}

/// Whether a rule is written in a form from which it is read back, no
/// deeper than `depth` levels: what it holds is, and one that combines
/// others says so in its type.
pub open spec fn headless_rule_canonical(r: HeadlessRuleView, depth: nat) -> bool
    decreases depth, 0nat,
{
    match r {
        HeadlessRuleView::Default(d) => d.canonical(),
        HeadlessRuleView::Logical(l) => depth > 0 && headless_logical_rule_canonical(l, (depth - 1) as nat),
    }
}

/// Whether a rule that combines others is written in a form from which it
/// is read back.
pub open spec fn headless_logical_rule_canonical(l: HeadlessLogicalRuleView, depth: nat) -> bool
    decreases depth, 2nat,
{
    &&& l.rule_type == Some("logical"@)
    &&& match l.rules {
        Some(s) => nested_headless_rule_list_canonical(s, depth),
        None => true,
    }
}

/// Whether each of the rules is written in a form from which it is read
/// back.
pub open spec fn nested_headless_rule_list_canonical(s: Seq<HeadlessRuleView>, depth: nat) -> bool
    decreases depth, 1nat,
{
    forall|i: int| 0 <= i < s.len() ==> headless_rule_canonical(#[trigger] s[i], depth)
}

/// A rule is read back from the value that stands for it.
pub proof fn lemma_headless_rule(r: HeadlessRuleView, depth: nat)
    requires
        headless_rule_canonical(r, depth),
    ensures
        json_headless_rule(headless_rule_json(r), depth) == Some(r),
    decreases depth, 0nat,
{
    broadcast use {lemma_get_empty, lemma_get_put, lemma_get_merge};

    match r {
        HeadlessRuleView::Default(d) => {
            d.lemma_round_trip();
            d.lemma_has_no_type();
        },
        HeadlessRuleView::Logical(l) => {
            lemma_headless_logical_rule(l, (depth - 1) as nat);
            lemma_headless_logical_rule_type(l);
        },
    }
}

/// The record of a rule that combines others holds its type.
pub proof fn lemma_headless_logical_rule_type(l: HeadlessLogicalRuleView)
    ensures
        get(headless_logical_rule_record(l), Key::Type) == present(l.rule_type, |x: Seq<char>| text_json(x)),
{
    broadcast use {lemma_get_empty, lemma_get_put, lemma_get_merge};

}

/// A rule that combines others is read back from the entries that stand
/// for it.
pub proof fn lemma_headless_logical_rule(l: HeadlessLogicalRuleView, depth: nat)
    requires
        headless_logical_rule_canonical(l, depth),
    ensures
        headless_logical_rule_from_record(headless_logical_rule_record(l), depth) == Some(l),
    decreases depth, 2nat,
{
    broadcast use {lemma_get_empty, lemma_get_put, lemma_get_merge};

    let es = headless_logical_rule_record(l);
    assert(optional(get(es, Key::Type), |j: JsonView| json_text(j)) == Some(l.rule_type));
    assert(optional(get(es, Key::Mode), |j: JsonView| json_text(j)) == Some(l.mode));
    match l.rules {
        Some(s) => {
            lemma_nested_headless_rule_list(s, depth);
            assert(get(es, Key::Rules) == Some(nested_headless_rule_list_json(s)));
        },
        None => {
            assert(get(es, Key::Rules) is None);
        },
    }
    assert(optional(get(es, Key::Invert), |j: JsonView| json_bool(j)) == Some(l.invert));
}

/// The rules that a rule combines are read back from the list that stands
/// for them.
pub proof fn lemma_nested_headless_rule_list(s: Seq<HeadlessRuleView>, depth: nat)
    requires
        nested_headless_rule_list_canonical(s, depth),
    ensures
        json_nested_headless_rule_list(nested_headless_rule_list_json(s), depth) == Some(s),
    decreases depth, 1nat,
{
    let js = nested_headless_rule_list_json(s)->List_0;
    assert forall|i: int| 0 <= i < js.len() implies json_headless_rule(#[trigger] js[i], depth) == Some(
        s[i],
    ) by {
        lemma_headless_rule(s[i], depth);
    }
    assert(Seq::new(js.len(), |i: int| json_headless_rule(js[i], depth)->0) =~= s);
}

impl HeadlessRuleView {
    /// The value that stands for the rule.
    pub open spec fn to_json(self) -> JsonView {
        headless_rule_json(self)
    }

    /// The rule that an object stands for, read no deeper than the nesting
    /// limit.
    pub open spec fn from_json(j: JsonView) -> Option<HeadlessRuleView> {
        json_headless_rule(j, MAX_NESTING as nat)
    }

    /// Whether the rule is written in a form from which it is read back, and
    /// is nested no deeper than the nesting limit.
    pub open spec fn canonical(self) -> bool {
        headless_rule_canonical(self, MAX_NESTING as nat)
    }

    /// The rule is read back from the value that stands for it.
    pub proof fn lemma_round_trip(self)
        requires
            self.canonical(),
        ensures
            HeadlessRuleView::from_json(self.to_json()) == Some(self),
    {
        lemma_headless_rule(self, MAX_NESTING as nat);
    }
}

impl HeadlessRule {
    /// The value that stands for the rule.
    pub fn to_json(&self) -> (r: Json)
        ensures
            r@ == self@.to_json(),
        decreases self,
    {
        match self {
            HeadlessRule::Default(d) => d.to_json(),
            HeadlessRule::Logical(l) => {
                let r = Json::Record(l.record());
                proof {
                    lemma_json_view(r);
                }
                r
            },
        }
    }

    /// Reads the rule from an object, no deeper than the nesting limit.
    pub fn from_json(j: &Json) -> (r: Result<HeadlessRule, SchemaMismatch>)
        ensures
            match r {
                Ok(x) => HeadlessRuleView::from_json(j@) == Some(x@),
                Err(_) => HeadlessRuleView::from_json(j@) is None,
            },
    {
        HeadlessRule::from_json_within(j, MAX_NESTING)
    }

    /// Reads the rule from an object, no deeper than `depth` levels.
    pub fn from_json_within(j: &Json, depth: usize) -> (r: Result<HeadlessRule, SchemaMismatch>)
        ensures
            match r {
                Ok(x) => json_headless_rule(j@, depth as nat) == Some(x@),
                Err(_) => json_headless_rule(j@, depth as nat) is None,
            },
        decreases depth, 0nat,
    {
        let es = match read_entries(j) {
            Ok(es) => es,
            Err(e) => {
                return Err(e);
            },
        };
        let logical = match get_field(&es, Key::Type) {
            Some(Json::Text(s)) => same_text(s.as_str(), "logical"),
            _ => false,
        };
        if logical {
            if depth == 0 {
                Err(SchemaMismatch)
            } else {
                match HeadlessLogicalRule::from_record(&es, depth - 1) {
                    Ok(l) => Ok(HeadlessRule::Logical(l)),
                    Err(e) => Err(e),
                }
            }
        } else {
            match HeadlessDefaultRule::from_record(&es) {
                Ok(d) => Ok(HeadlessRule::Default(d)),
                Err(e) => Err(e),
            }
        }
    }
}

impl HeadlessLogicalRule {
    /// The entries of the record that stands for the rule.
    pub fn record(&self) -> (r: Vec<(Key, Json)>)
        ensures
            r.deep_view() == headless_logical_rule_record(self@),
        decreases self,
    {
        let mut es: Vec<(Key, Json)> = no_entries();
        let ghost s = Seq::<(Key, JsonView)>::empty();
        proof {
            lemma_headless_logical_rules(*self);
        }
        let value = match &self.rule_type {
            Some(x) => Some(Json::Text(x.clone())),
            None => None,
        };
        put_field(&mut es, Key::Type, value);
        let ghost s = put(s, Key::Type, present(self@.rule_type, |x: Seq<char>| text_json(x)));
        assert(es.deep_view() == s);
        let value = match &self.mode {
            Some(x) => Some(Json::Text(x.clone())),
            None => None,
        };
        put_field(&mut es, Key::Mode, value);
        let ghost s = put(s, Key::Mode, present(self@.mode, |x: Seq<char>| text_json(x)));
        assert(es.deep_view() == s);
        let value = match &self.rules {
            Some(v) => Some(write_nested_headless_rule_list(v)),
            None => None,
        };
        put_field(&mut es, Key::Rules, value);
        let ghost s = put(
            s,
            Key::Rules,
            match self@.rules {
                Some(x) => Some(nested_headless_rule_list_json(x)),
                None => None,
            },
        );
        assert(es.deep_view() == s);
        let value = match &self.invert {
            Some(x) => Some(Json::Bool(*x)),
            None => None,
        };
        put_field(&mut es, Key::Invert, value);
        let ghost s = put(s, Key::Invert, present(self@.invert, |x: bool| bool_json(x)));
        assert(es.deep_view() == s);
        es
    }

    /// Reads the rule from the entries of an object, no deeper than `depth`
    /// levels.
    pub fn from_record(es: &Vec<(Key, &Json)>, depth: usize) -> (r: Result<HeadlessLogicalRule, SchemaMismatch>)
        ensures
            match r {
                Ok(x) => headless_logical_rule_from_record(es.deep_view(), depth as nat) == Some(x@),
                Err(_) => headless_logical_rule_from_record(es.deep_view(), depth as nat) is None,
            },
        decreases depth, 2nat,
    {
        let rule_type = match get_field(es, Key::Type) {
            Some(j) => if is_null(j) {
                None
            } else {
                match read_text(j) {
                    Ok(x) => Some(x),
                    Err(e) => {
                        return Err(e);
                    },
                }
            },
            None => None,
        };
        assert(optional(get(es.deep_view(), Key::Type), |j: JsonView| json_text(j)) == Some(rule_type.deep_view()));
        let mode = match get_field(es, Key::Mode) {
            Some(j) => if is_null(j) {
                None
            } else {
                match read_text(j) {
                    Ok(x) => Some(x),
                    Err(e) => {
                        return Err(e);
                    },
                }
            },
            None => None,
        };
        assert(optional(get(es.deep_view(), Key::Mode), |j: JsonView| json_text(j)) == Some(mode.deep_view()));
        let rules = match get_field(es, Key::Rules) {
            Some(j) => if is_null(j) {
                None
            } else {
                match read_nested_headless_rule_list(j, depth) {
                    Ok(x) => Some(x),
                    Err(e) => {
                        return Err(e);
                    },
                }
            },
            None => None,
        };
        let invert = match get_field(es, Key::Invert) {
            Some(j) => if is_null(j) {
                None
            } else {
                match read_bool(j) {
                    Ok(x) => Some(x),
                    Err(e) => {
                        return Err(e);
                    },
                }
            },
            None => None,
        };
        assert(optional(get(es.deep_view(), Key::Invert), |j: JsonView| json_bool(j)) == Some(invert.deep_view()));
        let r = HeadlessLogicalRule { rule_type, mode, rules, invert };
        proof {
            lemma_headless_logical_rules(r);
        }
        Ok(r)
    }
}

/// Writes the rules that a rule combines, as `nested_headless_rule_list_json` says.
pub fn write_nested_headless_rule_list(v: &Vec<HeadlessRule>) -> (r: Json)
    ensures
        r@ == nested_headless_rule_list_json(v.deep_view()),
    decreases v,
{
    let mut out: Vec<Json> = Vec::new();
    let mut i: usize = 0;
    let ghost s = v.deep_view();
    while i < v.len()
        invariant
            i <= v.len(),
            s == v.deep_view(),
            out.deep_view() == Seq::new(i as nat, |k: int| headless_rule_json(s[k])),
        decreases v.len() - i,
    {
        let ghost before = out.deep_view();
        proof {
            vstd::std_specs::vec::axiom_vec_index_decreases(*v, i as int);
        }
        let item = v[i].to_json();
        out.push(item);
        proof {
            assert(s[i as int] == v@[i as int].deep_view());
            assert(out.deep_view() =~= before.push(item@));
            assert(before.push(item@) =~= Seq::new((i + 1) as nat, |k: int| headless_rule_json(s[k])));
        }
        i += 1;
    }
    let r = Json::List(out);
    proof {
        lemma_json_view(r);
        assert(out.deep_view() =~= nested_headless_rule_list_json(s)->List_0);
    }
    r
}

/// Reads the rules that a rule combines, as `json_nested_headless_rule_list` says.
pub fn read_nested_headless_rule_list(j: &Json, depth: usize) -> (r: Result<Vec<HeadlessRule>, SchemaMismatch>)
    ensures
        match r {
            Ok(v) => json_nested_headless_rule_list(j@, depth as nat) == Some(v.deep_view()),
            Err(_) => json_nested_headless_rule_list(j@, depth as nat) is None,
        },
    decreases depth, 1nat,
{
    reveal_with_fuel(json_nested_headless_rule_list, 2);
    proof {
        lemma_json_view(*j);
    }
    match j {
        Json::List(js) => {
            let mut out: Vec<HeadlessRule> = Vec::new();
            let mut i: usize = 0;
            let ghost all = js.deep_view();
            while i < js.len()
                invariant
                    i <= js.len(),
                    all == js.deep_view(),
                    j@ == JsonView::List(all),
                    forall|k: int|
                        0 <= k < i ==> json_headless_rule(#[trigger] all[k], depth as nat) is Some,
                    out.deep_view() == Seq::new(
                        i as nat,
                        |k: int| json_headless_rule(all[k], depth as nat)->0,
                    ),
                decreases js.len() - i,
            {
                let ghost before = out.deep_view();
                proof {
                    assert(all[i as int] == js@[i as int]@);
                }
                match HeadlessRule::from_json_within(&js[i], depth) {
                    Ok(x) => {
                        out.push(x);
                        proof {
                            assert(out.deep_view() =~= before.push(x.deep_view()));
                            assert(before.push(x.deep_view()) =~= Seq::new(
                                (i + 1) as nat,
                                |k: int| json_headless_rule(all[k], depth as nat)->0,
                            ));
                        }
                    },
                    Err(e) => {
                        reveal_with_fuel(json_nested_headless_rule_list, 2);
                        assert(json_headless_rule(all[i as int], depth as nat) is None);
                        return Err(e);
                    },
                }
                i += 1;
            }
            proof {
                assert(out.deep_view() =~= Seq::new(
                    all.len(),
                    |k: int| json_headless_rule(all[k], depth as nat)->0,
                ));
            }
            Ok(out)
        },
        _ => Err(SchemaMismatch),
    }
}

/// A rule set written out in the document.
#[derive(Debug, PartialEq)]
pub struct RuleSetInline {
    pub config_type: Option<String>,
    pub tag: Option<String>,
    pub rules: Option<Vec<HeadlessRule>>,
}

/// What a [`RuleSetInline`] holds, with every text as its characters.
pub struct RuleSetInlineView {
    pub config_type: Option<Seq<char>>,
    pub tag: Option<Seq<char>>,
    pub rules: Option<Seq<HeadlessRuleView>>,
}

impl DeepView for RuleSetInline {
    type V = RuleSetInlineView;

    open spec fn deep_view(&self) -> RuleSetInlineView {
        RuleSetInlineView {
            config_type: self.config_type.deep_view(),
            tag: self.tag.deep_view(),
            rules: self.rules.deep_view(),
        }
    }
}

impl View for RuleSetInline {
    type V = RuleSetInlineView;

    open spec fn view(&self) -> RuleSetInlineView {
        self.deep_view()
    }
}

impl RuleSetInlineView {
    /// The view of what [`RuleSetInline::new`] returns.
    pub open spec fn fresh() -> RuleSetInlineView {
        RuleSetInlineView {
            config_type: None,
            tag: None,
            rules: None,
        }
    }
}

impl RuleSetInline {
    /// An inline rule set with nothing set.
    pub fn new() -> (r: Self)
        ensures
            r@ == RuleSetInlineView::fresh(),
    {
        RuleSetInline {
            config_type: None,
            tag: None,
            rules: None,
        }
    }
}

impl RuleSetInlineView {
    /// The entries of the record that stands for the value: one for each
    /// field that is set, in the order of the fields.
    pub open spec fn record(self) -> Entries {
        let es = Seq::empty();
        let es = put(es, Key::Type, present(self.config_type, |x: Seq<char>| text_json(x)));
        let es = put(es, Key::Tag, present(self.tag, |x: Seq<char>| text_json(x)));
        let es = put(es, Key::Rules, present(self.rules, |x: Seq<HeadlessRuleView>| headless_rule_list_json(x)));
        es
    }

    /// The record that stands for the value.
    pub open spec fn to_json(self) -> JsonView {
        JsonView::Record(self.record())
    }

    /// The value that the entries of an object stand for. Fails where an
    /// entry holds a value of the wrong shape.
    pub open spec fn from_record(es: Entries) -> Option<RuleSetInlineView> {
        let config_type = optional(get(es, Key::Type), |j: JsonView| json_text(j));
        let tag = optional(get(es, Key::Tag), |j: JsonView| json_text(j));
        let rules = optional(get(es, Key::Rules), |j: JsonView| json_headless_rule_list(j));
        if config_type is Some
            && tag is Some
            && rules is Some {
            Some(
                RuleSetInlineView {
                    config_type: config_type->0,
                    tag: tag->0,
                    rules: rules->0,
                },
            )
        } else {
            None
        }
    }

    /// The value that an object stands for; none for a value that is no
    /// object.
    pub open spec fn from_json(j: JsonView) -> Option<RuleSetInlineView> {
        match entries_of(j) {
            Some(es) => RuleSetInlineView::from_record(es),
            None => None,
        }
    }

    /// Whether the value is written in a form from which it is read back:
    /// the values that it holds are, and a group of fields that is present
    /// sets at least one of them.
    pub open spec fn canonical(self) -> bool {
        &&& match self.rules {
            Some(x) => canonical_headless_rule_list(x),
            None => true,
        }
    }

    /// The value is read back from the record that stands for it.
    pub proof fn lemma_round_trip(self)
        requires
            self.canonical(),
        ensures
            RuleSetInlineView::from_record(self.record()) == Some(self),
            RuleSetInlineView::from_json(self.to_json()) == Some(self),
    {
        broadcast use {lemma_get_empty, lemma_get_put, lemma_get_merge};

        let es = self.record();
        assert(optional(get(es, Key::Type), |j: JsonView| json_text(j)) == Some(self.config_type));
        assert(optional(get(es, Key::Tag), |j: JsonView| json_text(j)) == Some(self.tag));
        match self.rules {
            Some(x) => {
                lemma_headless_rule_list(x);
            },
            None => {},
        }
        assert(optional(get(es, Key::Rules), |j: JsonView| json_headless_rule_list(j)) == Some(self.rules));
    }
}

impl RuleSetInline {
    /// The entries of the record that stands for the value, as
    /// `RuleSetInlineView::record` lists them.
    pub fn record(&self) -> (r: Vec<(Key, Json)>)
        ensures
            r.deep_view() == self@.record(),
    {
        let mut es: Vec<(Key, Json)> = no_entries();
        let ghost s = Seq::<(Key, JsonView)>::empty();
        let value = match &self.config_type {
            Some(x) => Some(Json::Text(x.clone())),
            None => None,
        };
        put_field(&mut es, Key::Type, value);
        let ghost s = put(s, Key::Type, present(self@.config_type, |x: Seq<char>| text_json(x)));
        assert(es.deep_view() == s);
        let value = match &self.tag {
            Some(x) => Some(Json::Text(x.clone())),
            None => None,
        };
        put_field(&mut es, Key::Tag, value);
        let ghost s = put(s, Key::Tag, present(self@.tag, |x: Seq<char>| text_json(x)));
        assert(es.deep_view() == s);
        let value = match &self.rules {
            Some(x) => Some(write_headless_rule_list(x)),
            None => None,
        };
        put_field(&mut es, Key::Rules, value);
        let ghost s = put(s, Key::Rules, present(self@.rules, |x: Seq<HeadlessRuleView>| headless_rule_list_json(x)));
        assert(es.deep_view() == s);
        es
    }

    /// The record that stands for the value.
    pub fn to_json(&self) -> (r: Json)
        ensures
            r@ == self@.to_json(),
    {
        let r = Json::Record(self.record());
        proof {
            lemma_json_view(r);
        }
        r
    }

    /// Reads the value from the entries of an object, as
    /// `RuleSetInlineView::from_record` says.
    pub fn from_record(es: &Vec<(Key, &Json)>) -> (r: Result<RuleSetInline, SchemaMismatch>)
        ensures
            match r {
                Ok(x) => RuleSetInlineView::from_record(es.deep_view()) == Some(x@),
                Err(_) => RuleSetInlineView::from_record(es.deep_view()) is None,
            },
    {
        let config_type = match get_field(es, Key::Type) {
            Some(j) => if is_null(j) {
                None
            } else {
                match read_text(j) {
                    Ok(x) => Some(x),
                    Err(e) => {
                        return Err(e);
                    },
                }
            },
            None => None,
        };
        assert(optional(get(es.deep_view(), Key::Type), |j: JsonView| json_text(j)) == Some(config_type.deep_view()));
        let tag = match get_field(es, Key::Tag) {
            Some(j) => if is_null(j) {
                None
            } else {
                match read_text(j) {
                    Ok(x) => Some(x),
                    Err(e) => {
                        return Err(e);
                    },
                }
            },
            None => None,
        };
        assert(optional(get(es.deep_view(), Key::Tag), |j: JsonView| json_text(j)) == Some(tag.deep_view()));
        let rules = match get_field(es, Key::Rules) {
            Some(j) => if is_null(j) {
                None
            } else {
                match read_headless_rule_list(j) {
                    Ok(x) => Some(x),
                    Err(e) => {
                        return Err(e);
                    },
                }
            },
            None => None,
        };
        assert(optional(get(es.deep_view(), Key::Rules), |j: JsonView| json_headless_rule_list(j)) == Some(rules.deep_view()));
        Ok(RuleSetInline { config_type, tag, rules })
    }

    /// Reads the value from an object, as `RuleSetInlineView::from_json` says.
    pub fn from_json(j: &Json) -> (r: Result<RuleSetInline, SchemaMismatch>)
        ensures
            match r {
                Ok(x) => RuleSetInlineView::from_json(j@) == Some(x@),
                Err(_) => RuleSetInlineView::from_json(j@) is None,
            },
    {
        match read_entries(j) {
            Ok(es) => RuleSetInline::from_record(&es),
            Err(e) => Err(e),
        }
    }
}

/// A rule set read from a file.
#[derive(Debug, Clone, PartialEq)]
pub struct RuleSetLocal {
    pub config_type: Option<String>,
    pub tag: Option<String>,
    pub format: Option<String>,
    pub path: Option<String>,
}

/// What a [`RuleSetLocal`] holds, with every text as its characters.
pub struct RuleSetLocalView {
    pub config_type: Option<Seq<char>>,
    pub tag: Option<Seq<char>>,
    pub format: Option<Seq<char>>,
    pub path: Option<Seq<char>>,
}

impl DeepView for RuleSetLocal {
    type V = RuleSetLocalView;

    open spec fn deep_view(&self) -> RuleSetLocalView {
        RuleSetLocalView {
            config_type: self.config_type.deep_view(),
            tag: self.tag.deep_view(),
            format: self.format.deep_view(),
            path: self.path.deep_view(),
        }
    }
}

impl View for RuleSetLocal {
    type V = RuleSetLocalView;

    open spec fn view(&self) -> RuleSetLocalView {
        self.deep_view()
    }
}

impl RuleSetLocalView {
    /// The view of what [`RuleSetLocal::new`] returns.
    pub open spec fn fresh() -> RuleSetLocalView {
        RuleSetLocalView {
            config_type: None,
            tag: None,
            format: None,
            path: None,
        }
    }
}

impl RuleSetLocal {
    /// A local rule set with nothing set.
    pub fn new() -> (r: Self)
        ensures
            r@ == RuleSetLocalView::fresh(),
    {
        RuleSetLocal {
            config_type: None,
            tag: None,
            format: None,
            path: None,
        }
    }
}

impl RuleSetLocalView {
    /// The entries of the record that stands for the value: one for each
    /// field that is set, in the order of the fields.
    pub open spec fn record(self) -> Entries {
        let es = Seq::empty();
        let es = put(es, Key::Type, present(self.config_type, |x: Seq<char>| text_json(x)));
        let es = put(es, Key::Tag, present(self.tag, |x: Seq<char>| text_json(x)));
        let es = put(es, Key::Format, present(self.format, |x: Seq<char>| text_json(x)));
        let es = put(es, Key::Path, present(self.path, |x: Seq<char>| text_json(x)));
        es
    }

    /// The record that stands for the value.
    pub open spec fn to_json(self) -> JsonView {
        JsonView::Record(self.record())
    }

    /// The value that the entries of an object stand for. Fails where an
    /// entry holds a value of the wrong shape.
    pub open spec fn from_record(es: Entries) -> Option<RuleSetLocalView> {
        let config_type = optional(get(es, Key::Type), |j: JsonView| json_text(j));
        let tag = optional(get(es, Key::Tag), |j: JsonView| json_text(j));
        let format = optional(get(es, Key::Format), |j: JsonView| json_text(j));
        let path = optional(get(es, Key::Path), |j: JsonView| json_text(j));
        if config_type is Some
            && tag is Some
            && format is Some
            && path is Some {
            Some(
                RuleSetLocalView {
                    config_type: config_type->0,
                    tag: tag->0,
                    format: format->0,
                    path: path->0,
                },
            )
        } else {
            None
        }
    }

    /// The value that an object stands for; none for a value that is no
    /// object.
    pub open spec fn from_json(j: JsonView) -> Option<RuleSetLocalView> {
        match entries_of(j) {
            Some(es) => RuleSetLocalView::from_record(es),
            None => None,
        }
    }

    /// Whether the value is written in a form from which it is read back:
    /// every value of this type is.
    pub open spec fn canonical(self) -> bool {
        true
    }

    /// The value is read back from the record that stands for it.
    pub proof fn lemma_round_trip(self)
        ensures
            RuleSetLocalView::from_record(self.record()) == Some(self),
            RuleSetLocalView::from_json(self.to_json()) == Some(self),
    {
        broadcast use {lemma_get_empty, lemma_get_put, lemma_get_merge};

        let es = self.record();
        assert(optional(get(es, Key::Type), |j: JsonView| json_text(j)) == Some(self.config_type));
        assert(optional(get(es, Key::Tag), |j: JsonView| json_text(j)) == Some(self.tag));
        assert(optional(get(es, Key::Format), |j: JsonView| json_text(j)) == Some(self.format));
        assert(optional(get(es, Key::Path), |j: JsonView| json_text(j)) == Some(self.path));
    }
}

impl RuleSetLocal {
    /// The entries of the record that stands for the value, as
    /// `RuleSetLocalView::record` lists them.
    pub fn record(&self) -> (r: Vec<(Key, Json)>)
        ensures
            r.deep_view() == self@.record(),
    {
        let mut es: Vec<(Key, Json)> = no_entries();
        let ghost s = Seq::<(Key, JsonView)>::empty();
        let value = match &self.config_type {
            Some(x) => Some(Json::Text(x.clone())),
            None => None,
        };
        put_field(&mut es, Key::Type, value);
        let ghost s = put(s, Key::Type, present(self@.config_type, |x: Seq<char>| text_json(x)));
        assert(es.deep_view() == s);
        let value = match &self.tag {
            Some(x) => Some(Json::Text(x.clone())),
            None => None,
        };
        put_field(&mut es, Key::Tag, value);
        let ghost s = put(s, Key::Tag, present(self@.tag, |x: Seq<char>| text_json(x)));
        assert(es.deep_view() == s);
        let value = match &self.format {
            Some(x) => Some(Json::Text(x.clone())),
            None => None,
        };
        put_field(&mut es, Key::Format, value);
        let ghost s = put(s, Key::Format, present(self@.format, |x: Seq<char>| text_json(x)));
        assert(es.deep_view() == s);
        let value = match &self.path {
            Some(x) => Some(Json::Text(x.clone())),
            None => None,
        };
        put_field(&mut es, Key::Path, value);
        let ghost s = put(s, Key::Path, present(self@.path, |x: Seq<char>| text_json(x)));
        assert(es.deep_view() == s);
        es
    }

    /// The record that stands for the value.
    pub fn to_json(&self) -> (r: Json)
        ensures
            r@ == self@.to_json(),
    {
        let r = Json::Record(self.record());
        proof {
            lemma_json_view(r);
        }
        r
    }

    /// Reads the value from the entries of an object, as
    /// `RuleSetLocalView::from_record` says.
    pub fn from_record(es: &Vec<(Key, &Json)>) -> (r: Result<RuleSetLocal, SchemaMismatch>)
        ensures
            match r {
                Ok(x) => RuleSetLocalView::from_record(es.deep_view()) == Some(x@),
                Err(_) => RuleSetLocalView::from_record(es.deep_view()) is None,
            },
    {
        let config_type = match get_field(es, Key::Type) {
            Some(j) => if is_null(j) {
                None
            } else {
                match read_text(j) {
                    Ok(x) => Some(x),
                    Err(e) => {
                        return Err(e);
                    },
                }
            },
            None => None,
        };
        assert(optional(get(es.deep_view(), Key::Type), |j: JsonView| json_text(j)) == Some(config_type.deep_view()));
        let tag = match get_field(es, Key::Tag) {
            Some(j) => if is_null(j) {
                None
            } else {
                match read_text(j) {
                    Ok(x) => Some(x),
                    Err(e) => {
                        return Err(e);
                    },
                }
            },
            None => None,
        };
        assert(optional(get(es.deep_view(), Key::Tag), |j: JsonView| json_text(j)) == Some(tag.deep_view()));
        let format = match get_field(es, Key::Format) {
            Some(j) => if is_null(j) {
                None
            } else {
                match read_text(j) {
                    Ok(x) => Some(x),
                    Err(e) => {
                        return Err(e);
                    },
                }
            },
            None => None,
        };
        assert(optional(get(es.deep_view(), Key::Format), |j: JsonView| json_text(j)) == Some(format.deep_view()));
        let path = match get_field(es, Key::Path) {
            Some(j) => if is_null(j) {
                None
            } else {
                match read_text(j) {
                    Ok(x) => Some(x),
                    Err(e) => {
                        return Err(e);
                    },
                }
            },
            None => None,
        };
        assert(optional(get(es.deep_view(), Key::Path), |j: JsonView| json_text(j)) == Some(path.deep_view()));
        Ok(RuleSetLocal { config_type, tag, format, path })
    }

    /// Reads the value from an object, as `RuleSetLocalView::from_json` says.
    pub fn from_json(j: &Json) -> (r: Result<RuleSetLocal, SchemaMismatch>)
        ensures
            match r {
                Ok(x) => RuleSetLocalView::from_json(j@) == Some(x@),
                Err(_) => RuleSetLocalView::from_json(j@) is None,
            },
    {
        match read_entries(j) {
            Ok(es) => RuleSetLocal::from_record(&es),
            Err(e) => Err(e),
        }
    }
}

/// A rule set fetched from a URL.
#[derive(Debug, Clone, PartialEq)]
pub struct RuleSetRemote {
    pub config_type: Option<String>,
    pub tag: Option<String>,
    pub format: Option<String>,
    pub url: Option<String>,
    pub download_detour: Option<String>,
    pub update_interval: Option<String>,
}

/// What a [`RuleSetRemote`] holds, with every text as its characters.
pub struct RuleSetRemoteView {
    pub config_type: Option<Seq<char>>,
    pub tag: Option<Seq<char>>,
    pub format: Option<Seq<char>>,
    pub url: Option<Seq<char>>,
    pub download_detour: Option<Seq<char>>,
    pub update_interval: Option<Seq<char>>,
}

impl DeepView for RuleSetRemote {
    type V = RuleSetRemoteView;

    open spec fn deep_view(&self) -> RuleSetRemoteView {
        RuleSetRemoteView {
            config_type: self.config_type.deep_view(),
            tag: self.tag.deep_view(),
            format: self.format.deep_view(),
            url: self.url.deep_view(),
            download_detour: self.download_detour.deep_view(),
            update_interval: self.update_interval.deep_view(),
        }
    }
}

impl View for RuleSetRemote {
    type V = RuleSetRemoteView;

    open spec fn view(&self) -> RuleSetRemoteView {
        self.deep_view()
    }
}

impl RuleSetRemoteView {
    /// The view of what [`RuleSetRemote::new`] returns.
    pub open spec fn fresh() -> RuleSetRemoteView {
        RuleSetRemoteView {
            config_type: None,
            tag: None,
            format: None,
            url: None,
            download_detour: None,
            update_interval: None,
        }
    }
}

impl RuleSetRemote {
    /// A remote rule set with nothing set.
    pub fn new() -> (r: Self)
        ensures
            r@ == RuleSetRemoteView::fresh(),
    {
        RuleSetRemote {
            config_type: None,
            tag: None,
            format: None,
            url: None,
            download_detour: None,
            update_interval: None,
        }
    }
}

impl RuleSetRemoteView {
    /// The entries of the record that stands for the value: one for each
    /// field that is set, in the order of the fields.
    pub open spec fn record(self) -> Entries {
        let es = Seq::empty();
        let es = put(es, Key::Type, present(self.config_type, |x: Seq<char>| text_json(x)));
        let es = put(es, Key::Tag, present(self.tag, |x: Seq<char>| text_json(x)));
        let es = put(es, Key::Format, present(self.format, |x: Seq<char>| text_json(x)));
        let es = put(es, Key::Url, present(self.url, |x: Seq<char>| text_json(x)));
        let es = put(es, Key::DownloadDetour, present(self.download_detour, |x: Seq<char>| text_json(x)));
        let es = put(es, Key::UpdateInterval, present(self.update_interval, |x: Seq<char>| text_json(x)));
        es
    }

    /// The record that stands for the value.
    pub open spec fn to_json(self) -> JsonView {
        JsonView::Record(self.record())
    }

    /// The value that the entries of an object stand for. Fails where an
    /// entry holds a value of the wrong shape.
    pub open spec fn from_record(es: Entries) -> Option<RuleSetRemoteView> {
        let config_type = optional(get(es, Key::Type), |j: JsonView| json_text(j));
        let tag = optional(get(es, Key::Tag), |j: JsonView| json_text(j));
        let format = optional(get(es, Key::Format), |j: JsonView| json_text(j));
        let url = optional(get(es, Key::Url), |j: JsonView| json_text(j));
        let download_detour = optional(get(es, Key::DownloadDetour), |j: JsonView| json_text(j));
        let update_interval = optional(get(es, Key::UpdateInterval), |j: JsonView| json_text(j));
        if config_type is Some
            && tag is Some
            && format is Some
            && url is Some
            && download_detour is Some
            && update_interval is Some {
            Some(
                RuleSetRemoteView {
                    config_type: config_type->0,
                    tag: tag->0,
                    format: format->0,
                    url: url->0,
                    download_detour: download_detour->0,
                    update_interval: update_interval->0,
                },
            )
        } else {
            None
        }
    }

    /// The value that an object stands for; none for a value that is no
    /// object.
    pub open spec fn from_json(j: JsonView) -> Option<RuleSetRemoteView> {
        match entries_of(j) {
            Some(es) => RuleSetRemoteView::from_record(es),
            None => None,
        }
    }

    /// Whether the value is written in a form from which it is read back:
    /// every value of this type is.
    pub open spec fn canonical(self) -> bool {
        true
    }

    /// The value is read back from the record that stands for it.
    pub proof fn lemma_round_trip(self)
        ensures
            RuleSetRemoteView::from_record(self.record()) == Some(self),
            RuleSetRemoteView::from_json(self.to_json()) == Some(self),
    {
        broadcast use {lemma_get_empty, lemma_get_put, lemma_get_merge};

        let es = self.record();
        assert(optional(get(es, Key::Type), |j: JsonView| json_text(j)) == Some(self.config_type));
        assert(optional(get(es, Key::Tag), |j: JsonView| json_text(j)) == Some(self.tag));
        assert(optional(get(es, Key::Format), |j: JsonView| json_text(j)) == Some(self.format));
        assert(optional(get(es, Key::Url), |j: JsonView| json_text(j)) == Some(self.url));
        assert(optional(get(es, Key::DownloadDetour), |j: JsonView| json_text(j)) == Some(self.download_detour));
        assert(optional(get(es, Key::UpdateInterval), |j: JsonView| json_text(j)) == Some(self.update_interval));
    }
}

impl RuleSetRemote {
    /// The entries of the record that stands for the value, as
    /// `RuleSetRemoteView::record` lists them.
    pub fn record(&self) -> (r: Vec<(Key, Json)>)
        ensures
            r.deep_view() == self@.record(),
    {
        let mut es: Vec<(Key, Json)> = no_entries();
        let ghost s = Seq::<(Key, JsonView)>::empty();
        let value = match &self.config_type {
            Some(x) => Some(Json::Text(x.clone())),
            None => None,
        };
        put_field(&mut es, Key::Type, value);
        let ghost s = put(s, Key::Type, present(self@.config_type, |x: Seq<char>| text_json(x)));
        assert(es.deep_view() == s);
        let value = match &self.tag {
            Some(x) => Some(Json::Text(x.clone())),
            None => None,
        };
        put_field(&mut es, Key::Tag, value);
        let ghost s = put(s, Key::Tag, present(self@.tag, |x: Seq<char>| text_json(x)));
        assert(es.deep_view() == s);
        let value = match &self.format {
            Some(x) => Some(Json::Text(x.clone())),
            None => None,
        };
        put_field(&mut es, Key::Format, value);
        let ghost s = put(s, Key::Format, present(self@.format, |x: Seq<char>| text_json(x)));
        assert(es.deep_view() == s);
        let value = match &self.url {
            Some(x) => Some(Json::Text(x.clone())),
            None => None,
        };
        put_field(&mut es, Key::Url, value);
        let ghost s = put(s, Key::Url, present(self@.url, |x: Seq<char>| text_json(x)));
        assert(es.deep_view() == s);
        let value = match &self.download_detour {
            Some(x) => Some(Json::Text(x.clone())),
            None => None,
        };
        put_field(&mut es, Key::DownloadDetour, value);
        let ghost s = put(s, Key::DownloadDetour, present(self@.download_detour, |x: Seq<char>| text_json(x)));
        assert(es.deep_view() == s);
        let value = match &self.update_interval {
            Some(x) => Some(Json::Text(x.clone())),
            None => None,
        };
        put_field(&mut es, Key::UpdateInterval, value);
        let ghost s = put(s, Key::UpdateInterval, present(self@.update_interval, |x: Seq<char>| text_json(x)));
        assert(es.deep_view() == s);
        es
    }

    /// The record that stands for the value.
    pub fn to_json(&self) -> (r: Json)
        ensures
            r@ == self@.to_json(),
    {
        let r = Json::Record(self.record());
        proof {
            lemma_json_view(r);
        }
        r
    }

    /// Reads the value from the entries of an object, as
    /// `RuleSetRemoteView::from_record` says.
    pub fn from_record(es: &Vec<(Key, &Json)>) -> (r: Result<RuleSetRemote, SchemaMismatch>)
        ensures
            match r {
                Ok(x) => RuleSetRemoteView::from_record(es.deep_view()) == Some(x@),
                Err(_) => RuleSetRemoteView::from_record(es.deep_view()) is None,
            },
    {
        let config_type = match get_field(es, Key::Type) {
            Some(j) => if is_null(j) {
                None
            } else {
                match read_text(j) {
                    Ok(x) => Some(x),
                    Err(e) => {
                        return Err(e);
                    },
                }
            },
            None => None,
        };
        assert(optional(get(es.deep_view(), Key::Type), |j: JsonView| json_text(j)) == Some(config_type.deep_view()));
        let tag = match get_field(es, Key::Tag) {
            Some(j) => if is_null(j) {
                None
            } else {
                match read_text(j) {
                    Ok(x) => Some(x),
                    Err(e) => {
                        return Err(e);
                    },
                }
            },
            None => None,
        };
        assert(optional(get(es.deep_view(), Key::Tag), |j: JsonView| json_text(j)) == Some(tag.deep_view()));
        let format = match get_field(es, Key::Format) {
            Some(j) => if is_null(j) {
                None
            } else {
                match read_text(j) {
                    Ok(x) => Some(x),
                    Err(e) => {
                        return Err(e);
                    },
                }
            },
            None => None,
        };
        assert(optional(get(es.deep_view(), Key::Format), |j: JsonView| json_text(j)) == Some(format.deep_view()));
        let url = match get_field(es, Key::Url) {
            Some(j) => if is_null(j) {
                None
            } else {
                match read_text(j) {
                    Ok(x) => Some(x),
                    Err(e) => {
                        return Err(e);
                    },
                }
            },
            None => None,
        };
        assert(optional(get(es.deep_view(), Key::Url), |j: JsonView| json_text(j)) == Some(url.deep_view()));
        let download_detour = match get_field(es, Key::DownloadDetour) {
            Some(j) => if is_null(j) {
                None
            } else {
                match read_text(j) {
                    Ok(x) => Some(x),
                    Err(e) => {
                        return Err(e);
                    },
                }
            },
            None => None,
        };
        assert(optional(get(es.deep_view(), Key::DownloadDetour), |j: JsonView| json_text(j)) == Some(download_detour.deep_view()));
        let update_interval = match get_field(es, Key::UpdateInterval) {
            Some(j) => if is_null(j) {
                None
            } else {
                match read_text(j) {
                    Ok(x) => Some(x),
                    Err(e) => {
                        return Err(e);
                    },
                }
            },
            None => None,
        };
        assert(optional(get(es.deep_view(), Key::UpdateInterval), |j: JsonView| json_text(j)) == Some(update_interval.deep_view()));
        Ok(RuleSetRemote { config_type, tag, format, url, download_detour, update_interval })
    }

    /// Reads the value from an object, as `RuleSetRemoteView::from_json` says.
    pub fn from_json(j: &Json) -> (r: Result<RuleSetRemote, SchemaMismatch>)
        ensures
            match r {
                Ok(x) => RuleSetRemoteView::from_json(j@) == Some(x@),
                Err(_) => RuleSetRemoteView::from_json(j@) is None,
            },
    {
        match read_entries(j) {
            Ok(es) => RuleSetRemote::from_record(&es),
            Err(e) => Err(e),
        }
    }
}

/// One rule set of the route section.
#[derive(Debug, PartialEq)]
pub enum RuleSet {
    /// Inline.
    Inline(RuleSetInline),
    /// Local file.
    Local(RuleSetLocal),
    /// Remote URL.
    Remote(RuleSetRemote),
}

/// What a [`RuleSet`] holds, with every text as its characters.
pub enum RuleSetView {
    Inline(RuleSetInlineView),
    Local(RuleSetLocalView),
    Remote(RuleSetRemoteView),
}

impl DeepView for RuleSet {
    type V = RuleSetView;

    open spec fn deep_view(&self) -> RuleSetView {
        match self {
            RuleSet::Inline(x) => RuleSetView::Inline(x.deep_view()),
            RuleSet::Local(x) => RuleSetView::Local(x.deep_view()),
            RuleSet::Remote(x) => RuleSetView::Remote(x.deep_view()),
        }
    }
}

impl View for RuleSet {
    type V = RuleSetView;

    open spec fn view(&self) -> RuleSetView {
        self.deep_view()
    }
}

impl RuleSetView {
    /// The tag of the rule set, whatever its kind.
    pub open spec fn tag(self) -> Option<Seq<char>> {
        match self {
            RuleSetView::Inline(x) => x.tag,
            RuleSetView::Local(x) => x.tag,
            RuleSetView::Remote(x) => x.tag,
        }
    }

    /// The type discriminator of the rule set, whatever its kind.
    pub open spec fn config_type(self) -> Option<Seq<char>> {
        match self {
            RuleSetView::Inline(x) => x.config_type,
            RuleSetView::Local(x) => x.config_type,
            RuleSetView::Remote(x) => x.config_type,
        }
    }

    /// What the rule set is looked up by: its type or its tag.
    pub open spec fn mark(self, m: Mark) -> Option<Seq<char>> {
        match m {
            Mark::Type => self.config_type(),
            Mark::Tag => self.tag(),
        }
    }
}

impl RuleSet {
    /// The tag of the rule set, whatever its kind.
    pub fn tag(&self) -> (r: Option<&String>)
        ensures
            r.deep_view() == self@.tag(),
    {
        match self {
            RuleSet::Inline(x) => x.tag.as_ref(),
            RuleSet::Local(x) => x.tag.as_ref(),
            RuleSet::Remote(x) => x.tag.as_ref(),
        }
    }

    /// The type discriminator of the rule set, whatever its kind.
    pub fn config_type(&self) -> (r: Option<&String>)
        ensures
            r.deep_view() == self@.config_type(),
    {
        match self {
            RuleSet::Inline(x) => x.config_type.as_ref(),
            RuleSet::Local(x) => x.config_type.as_ref(),
            RuleSet::Remote(x) => x.config_type.as_ref(),
        }
    }

    /// Whether the type or the tag of the rule set is `text`.
    pub fn carries(&self, m: Mark, text: &str) -> (r: bool)
        ensures
            r == (self@.mark(m) == Some(text@)),
    {
        let held = match m {
            Mark::Type => self.config_type(),
            Mark::Tag => self.tag(),
        };
        match held {
            Some(s) => same_text(s.as_str(), text),
            None => false,
        }
    }
}

/// Picks the rule sets whose type or tag is `text`.
pub open spec fn marked(m: Mark, text: Seq<char>) -> spec_fn(RuleSetView) -> bool {
    |e: RuleSetView| e.mark(m) == Some(text)
}

/// Picks the rule sets whose type or tag is not `text`.
pub open spec fn unmarked(m: Mark, text: Seq<char>) -> spec_fn(RuleSetView) -> bool {
    |e: RuleSetView| e.mark(m) != Some(text)
}

/// Index of the first rule set whose type or tag is `text`, or the number of
/// rule sets when there is none.
pub fn position(entries: &Vec<RuleSet>, m: Mark, text: &str) -> (i: usize)
    ensures
        i == first_where(entries.deep_view(), marked(m, text@)),
        i <= entries.len(),
{
    let mut i: usize = 0;
    while i < entries.len()
        invariant
            i <= entries.len(),
            forall|j: int| 0 <= j < i ==> !marked(m, text@)(#[trigger] entries.deep_view()[j]),
        decreases entries.len() - i,
    {
        assert(entries.deep_view()[i as int] == entries@[i as int]@);
        if entries[i].carries(m, text) {
            proof {
                lemma_first_where_unique(entries.deep_view(), marked(m, text@), i as int);
            }
            return i;
        }
        i += 1;
    }
    proof {
        lemma_first_where_unique(entries.deep_view(), marked(m, text@), i as int);
    }
    i
}

/// Drops every rule set whose type or tag is `text` and keeps the others in
/// their order.
pub fn drop_marked(entries: &mut Vec<RuleSet>, m: Mark, text: &str)
    ensures
        final(entries).deep_view() == kept(old(entries).deep_view(), unmarked(m, text@)),
{
    let ghost all = entries.deep_view();
    let ghost keep = unmarked(m, text@);
    let mut i: usize = 0;
    let mut seen: Ghost<int> = Ghost(0);
    assert(all.take(0) =~= Seq::<RuleSetView>::empty());
    assert(entries.deep_view().take(0) =~= Seq::<RuleSetView>::empty());
    assert(all.skip(0) =~= all);
    assert(entries.deep_view().skip(0) =~= all);
    while i < entries.len()
        invariant
            i <= entries.len(),
            0 <= seen@ <= all.len(),
            keep == unmarked(m, text@),
            entries.deep_view().take(i as int) == kept(all.take(seen@), keep),
            entries.deep_view().skip(i as int) == all.skip(seen@),
        decreases entries.len() - i,
    {
        let ghost before = entries.deep_view();
        proof {
            assert(before.skip(i as int).len() == all.skip(seen@).len());
            assert(before.skip(i as int)[0] == all.skip(seen@)[0]);
            assert(before[i as int] == entries@[i as int]@);
            assert(all.take(seen@ + 1).drop_last() =~= all.take(seen@));
            assert(all.take(seen@ + 1).last() == all[seen@]);
        }
        if entries[i].carries(m, text) {
            entries.remove(i);
            proof {
                assert(entries.deep_view() =~= before.remove(i as int));
                assert(entries.deep_view().take(i as int) =~= before.take(i as int));
                assert(entries.deep_view().skip(i as int) =~= before.skip(i as int).skip(1));
                assert(all.skip(seen@).skip(1) =~= all.skip(seen@ + 1));
                seen@ = seen@ + 1;
            }
        } else {
            proof {
                assert(before.take(i + 1) =~= before.take(i as int).push(before[i as int]));
                assert(before.skip(i + 1) =~= before.skip(i as int).skip(1));
                assert(all.skip(seen@).skip(1) =~= all.skip(seen@ + 1));
                seen@ = seen@ + 1;
            }
            i += 1;
        }
    }
    proof {
        assert(entries.deep_view().take(i as int) =~= entries.deep_view());
        assert(entries.deep_view().skip(i as int).len() == 0);
        assert(all.take(seen@) =~= all);
    }
}

impl RuleSetView {
    /// The record that stands for the rule set: that of what it holds.
    pub open spec fn to_json(self) -> JsonView {
        match self {
            RuleSetView::Inline(x) => x.to_json(),
            RuleSetView::Local(x) => x.to_json(),
            RuleSetView::Remote(x) => x.to_json(),
        }
    }

    /// The rule set that an object stands for, of the kind that its type names.
    /// Fails for a value that is no object, and for an object without a
    /// type or with a type that names no kind.
    pub open spec fn from_json(j: JsonView) -> Option<RuleSetView> {
        match entries_of(j) {
            Some(es) => {
                let kind = get(es, Key::Type);
                if kind == Some(JsonView::Text("inline"@)) {
                    match RuleSetInlineView::from_record(es) {
                        Some(x) => Some(RuleSetView::Inline(x)),
                        None => None,
                    }
                } else if kind == Some(JsonView::Text("local"@)) {
                    match RuleSetLocalView::from_record(es) {
                        Some(x) => Some(RuleSetView::Local(x)),
                        None => None,
                    }
                } else if kind == Some(JsonView::Text("remote"@)) {
                    match RuleSetRemoteView::from_record(es) {
                        Some(x) => Some(RuleSetView::Remote(x)),
                        None => None,
                    }
                } else {
                    None
                }
            },
            None => None,
        }
    }

    /// Whether the rule set is written in a form from which it is read back:
    /// what it holds is, and its type names its kind.
    pub open spec fn canonical(self) -> bool {
        match self {
            RuleSetView::Inline(x) => x.canonical() && x.config_type == Some("inline"@),
            RuleSetView::Local(x) => x.canonical() && x.config_type == Some("local"@),
            RuleSetView::Remote(x) => x.canonical() && x.config_type == Some("remote"@),
        }
    }

    /// The rule set is read back from the record that stands for it.
    pub proof fn lemma_round_trip(self)
        requires
            self.canonical(),
        ensures
            RuleSetView::from_json(self.to_json()) == Some(self),
    {
        broadcast use {lemma_get_empty, lemma_get_put, lemma_get_merge};

        reveal_strlit("inline");
        assert("inline"@.len() == 6);
        assert("inline"@[0] == 'i');
        reveal_strlit("local");
        assert("local"@.len() == 5);
        reveal_strlit("remote");
        assert("remote"@.len() == 6);
        assert("remote"@[0] == 'r');
        match self {
            RuleSetView::Inline(x) => {
                x.lemma_round_trip();
                assert(get(x.record(), Key::Type) == Some(JsonView::Text("inline"@)));
            },
            RuleSetView::Local(x) => {
                x.lemma_round_trip();
                assert(get(x.record(), Key::Type) == Some(JsonView::Text("local"@)));
            },
            RuleSetView::Remote(x) => {
                x.lemma_round_trip();
                assert(get(x.record(), Key::Type) == Some(JsonView::Text("remote"@)));
            },
        }
    }
}

impl RuleSet {
    /// The record that stands for the rule set.
    pub fn to_json(&self) -> (r: Json)
        ensures
            r@ == self@.to_json(),
    {
        match self {
            RuleSet::Inline(x) => x.to_json(),
            RuleSet::Local(x) => x.to_json(),
            RuleSet::Remote(x) => x.to_json(),
        }
    }

    /// Reads the rule set from an object, as `RuleSetView::from_json` says.
    pub fn from_json(j: &Json) -> (r: Result<RuleSet, SchemaMismatch>)
        ensures
            match r {
                Ok(x) => RuleSetView::from_json(j@) == Some(x@),
                Err(_) => RuleSetView::from_json(j@) is None,
            },
    {
        let es = match read_entries(j) {
            Ok(es) => es,
            Err(e) => {
                return Err(e);
            },
        };
        match get_field(&es, Key::Type) {
            Some(Json::Text(s)) => if same_text(s.as_str(), "inline") {
                match RuleSetInline::from_record(&es) {
                    Ok(x) => Ok(RuleSet::Inline(x)),
                    Err(e) => Err(e),
                }
            } else if same_text(s.as_str(), "local") {
                match RuleSetLocal::from_record(&es) {
                    Ok(x) => Ok(RuleSet::Local(x)),
                    Err(e) => Err(e),
                }
            } else if same_text(s.as_str(), "remote") {
                match RuleSetRemote::from_record(&es) {
                    Ok(x) => Ok(RuleSet::Remote(x)),
                    Err(e) => Err(e),
                }
            } else {
                Err(SchemaMismatch)
            },
            _ => Err(SchemaMismatch),
        }
    }
}

/// The list that stands for a sequence of num or strs.
#[verifier::opaque]
pub open spec fn num_or_str_list_json(s: Seq<NumOrStrView>) -> JsonView {
    JsonView::List(Seq::new(s.len(), |i: int| s[i].to_json()))
}

/// The sequence of num or strs that a list stands for, if each of its values
/// stands for one.
#[verifier::opaque]
pub open spec fn json_num_or_str_list(j: JsonView) -> Option<Seq<NumOrStrView>> {
    match j {
        JsonView::List(js) => if forall|i: int|
            0 <= i < js.len() ==> (#[trigger] NumOrStrView::from_json(js[i])) is Some {
            Some(Seq::new(js.len(), |i: int| NumOrStrView::from_json(js[i])->0))
        } else {
            None
        },
        _ => None,
    }
}

/// Whether each of the num or strs is written in a form from which it is read
/// back.
pub open spec fn canonical_num_or_str_list(s: Seq<NumOrStrView>) -> bool {
    forall|i: int| 0 <= i < s.len() ==> (#[trigger] s[i]).canonical()
}

/// A sequence of num or strs is read back from the list that stands for it.
pub proof fn lemma_num_or_str_list(s: Seq<NumOrStrView>)
    requires
        canonical_num_or_str_list(s),
    ensures
        json_num_or_str_list(num_or_str_list_json(s)) == Some(s),
        num_or_str_list_json(s) is List,
{
    reveal(num_or_str_list_json);
    reveal(json_num_or_str_list);
    let js = num_or_str_list_json(s)->List_0;
    assert forall|i: int| 0 <= i < js.len() implies (#[trigger] NumOrStrView::from_json(js[i])) == Some(s[i]) by {
        s[i].lemma_round_trip();
    }
    assert(Seq::new(js.len(), |i: int| NumOrStrView::from_json(js[i])->0) =~= s);
}

/// Writes a sequence of num or strs, as `num_or_str_list_json` says.
pub fn write_num_or_str_list(v: &Vec<NumOrStr>) -> (r: Json)
    ensures
        r@ == num_or_str_list_json(v.deep_view()),
{
    reveal(num_or_str_list_json);
    let mut out: Vec<Json> = Vec::new();
    let mut i: usize = 0;
    let ghost s = v.deep_view();
    while i < v.len()
        invariant
            i <= v.len(),
            s == v.deep_view(),
            out.deep_view() == Seq::new(i as nat, |k: int| s[k].to_json()),
        decreases v.len() - i,
    {
        let ghost before = out.deep_view();
        let elem = &v[i];
        let item = elem.to_json();
        out.push(item);
        proof {
            assert(s[i as int] == v@[i as int].deep_view());
            assert(out.deep_view() =~= before.push(item@));
            assert(before.push(item@) =~= Seq::new((i + 1) as nat, |k: int| s[k].to_json()));
        }
        i += 1;
    }
    let r = Json::List(out);
    proof {
        lemma_json_view(r);
        assert(out.deep_view() =~= Seq::new(s.len(), |k: int| s[k].to_json()));
    }
    r
}

/// Reads a sequence of num or strs, as `json_num_or_str_list` says.
pub fn read_num_or_str_list(j: &Json) -> (r: Result<Vec<NumOrStr>, SchemaMismatch>)
    ensures
        match r {
            Ok(v) => json_num_or_str_list(j@) == Some(v.deep_view()),
            Err(_) => json_num_or_str_list(j@) is None,
        },
{
    reveal(json_num_or_str_list);
    proof {
        lemma_json_view(*j);
    }
    match j {
        Json::List(js) => {
            let mut out: Vec<NumOrStr> = Vec::new();
            let mut i: usize = 0;
            let ghost all = js.deep_view();
            while i < js.len()
                invariant
                    i <= js.len(),
                    all == js.deep_view(),
                    j@ == JsonView::List(all),
                    forall|k: int| 0 <= k < i ==> (#[trigger] NumOrStrView::from_json(all[k])) is Some,
                    out.deep_view() == Seq::new(i as nat, |k: int| NumOrStrView::from_json(all[k])->0),
                decreases js.len() - i,
            {
                let ghost before = out.deep_view();
                proof {
                    assert(all[i as int] == js@[i as int]@);
                }
                let value = &js[i];
                match NumOrStr::from_json(value) {
                    Ok(x) => {
                        out.push(x);
                        proof {
                            assert(out.deep_view() =~= before.push(x.deep_view()));
                            assert(before.push(x.deep_view()) =~= Seq::new(
                                (i + 1) as nat,
                                |k: int| NumOrStrView::from_json(all[k])->0,
                            ));
                        }
                    },
                    Err(e) => {
                        reveal(json_num_or_str_list);
                        assert(NumOrStrView::from_json(all[i as int]) is None);
                        return Err(e);
                    },
                }
                i += 1;
            }
            proof {
                assert(out.deep_view() =~= Seq::new(all.len(), |k: int| NumOrStrView::from_json(all[k])->0));
            }
            Ok(out)
        },
        _ => Err(SchemaMismatch),
    }
}

/// The list that stands for a sequence of headless rules.
#[verifier::opaque]
pub open spec fn headless_rule_list_json(s: Seq<HeadlessRuleView>) -> JsonView {
    JsonView::List(Seq::new(s.len(), |i: int| s[i].to_json()))
}

/// The sequence of headless rules that a list stands for, if each of its values
/// stands for one.
#[verifier::opaque]
pub open spec fn json_headless_rule_list(j: JsonView) -> Option<Seq<HeadlessRuleView>> {
    match j {
        JsonView::List(js) => if forall|i: int|
            0 <= i < js.len() ==> (#[trigger] HeadlessRuleView::from_json(js[i])) is Some {
            Some(Seq::new(js.len(), |i: int| HeadlessRuleView::from_json(js[i])->0))
        } else {
            None
        },
        _ => None,
    }
}

/// Whether each of the headless rules is written in a form from which it is read
/// back.
pub open spec fn canonical_headless_rule_list(s: Seq<HeadlessRuleView>) -> bool {
    forall|i: int| 0 <= i < s.len() ==> (#[trigger] s[i]).canonical()
}

/// A sequence of headless rules is read back from the list that stands for it.
pub proof fn lemma_headless_rule_list(s: Seq<HeadlessRuleView>)
    requires
        canonical_headless_rule_list(s),
    ensures
        json_headless_rule_list(headless_rule_list_json(s)) == Some(s),
        headless_rule_list_json(s) is List,
{
    reveal(headless_rule_list_json);
    reveal(json_headless_rule_list);
    let js = headless_rule_list_json(s)->List_0;
    assert forall|i: int| 0 <= i < js.len() implies (#[trigger] HeadlessRuleView::from_json(js[i])) == Some(s[i]) by {
        s[i].lemma_round_trip();
    }
    assert(Seq::new(js.len(), |i: int| HeadlessRuleView::from_json(js[i])->0) =~= s);
}

/// Writes a sequence of headless rules, as `headless_rule_list_json` says.
pub fn write_headless_rule_list(v: &Vec<HeadlessRule>) -> (r: Json)
    ensures
        r@ == headless_rule_list_json(v.deep_view()),
{
    reveal(headless_rule_list_json);
    let mut out: Vec<Json> = Vec::new();
    let mut i: usize = 0;
    let ghost s = v.deep_view();
    while i < v.len()
        invariant
            i <= v.len(),
            s == v.deep_view(),
            out.deep_view() == Seq::new(i as nat, |k: int| s[k].to_json()),
        decreases v.len() - i,
    {
        let ghost before = out.deep_view();
        let elem = &v[i];
        let item = elem.to_json();
        out.push(item);
        proof {
            assert(s[i as int] == v@[i as int].deep_view());
            assert(out.deep_view() =~= before.push(item@));
            assert(before.push(item@) =~= Seq::new((i + 1) as nat, |k: int| s[k].to_json()));
        }
        i += 1;
    }
    let r = Json::List(out);
    proof {
        lemma_json_view(r);
        assert(out.deep_view() =~= Seq::new(s.len(), |k: int| s[k].to_json()));
    }
    r
}

/// Reads a sequence of headless rules, as `json_headless_rule_list` says.
pub fn read_headless_rule_list(j: &Json) -> (r: Result<Vec<HeadlessRule>, SchemaMismatch>)
    ensures
        match r {
            Ok(v) => json_headless_rule_list(j@) == Some(v.deep_view()),
            Err(_) => json_headless_rule_list(j@) is None,
        },
{
    reveal(json_headless_rule_list);
    proof {
        lemma_json_view(*j);
    }
    match j {
        Json::List(js) => {
            let mut out: Vec<HeadlessRule> = Vec::new();
            let mut i: usize = 0;
            let ghost all = js.deep_view();
            while i < js.len()
                invariant
                    i <= js.len(),
                    all == js.deep_view(),
                    j@ == JsonView::List(all),
                    forall|k: int| 0 <= k < i ==> (#[trigger] HeadlessRuleView::from_json(all[k])) is Some,
                    out.deep_view() == Seq::new(i as nat, |k: int| HeadlessRuleView::from_json(all[k])->0),
                decreases js.len() - i,
            {
                let ghost before = out.deep_view();
                proof {
                    assert(all[i as int] == js@[i as int]@);
                }
                let value = &js[i];
                match HeadlessRule::from_json(value) {
                    Ok(x) => {
                        out.push(x);
                        proof {
                            assert(out.deep_view() =~= before.push(x.deep_view()));
                            assert(before.push(x.deep_view()) =~= Seq::new(
                                (i + 1) as nat,
                                |k: int| HeadlessRuleView::from_json(all[k])->0,
                            ));
                        }
                    },
                    Err(e) => {
                        reveal(json_headless_rule_list);
                        assert(HeadlessRuleView::from_json(all[i as int]) is None);
                        return Err(e);
                    },
                }
                i += 1;
            }
            proof {
                assert(out.deep_view() =~= Seq::new(all.len(), |k: int| HeadlessRuleView::from_json(all[k])->0));
            }
            Ok(out)
        },
        _ => Err(SchemaMismatch),
    }
}

/// The list that stands for a sequence of rule sets.
#[verifier::opaque]
pub open spec fn rule_set_list_json(s: Seq<RuleSetView>) -> JsonView {
    JsonView::List(Seq::new(s.len(), |i: int| s[i].to_json()))
}

/// The sequence of rule sets that a list stands for, if each of its values
/// stands for one.
#[verifier::opaque]
pub open spec fn json_rule_set_list(j: JsonView) -> Option<Seq<RuleSetView>> {
    match j {
        JsonView::List(js) => if forall|i: int|
            0 <= i < js.len() ==> (#[trigger] RuleSetView::from_json(js[i])) is Some {
            Some(Seq::new(js.len(), |i: int| RuleSetView::from_json(js[i])->0))
        } else {
            None
        },
        _ => None,
    }
}

/// Whether each of the rule sets is written in a form from which it is read
/// back.
pub open spec fn canonical_rule_set_list(s: Seq<RuleSetView>) -> bool {
    forall|i: int| 0 <= i < s.len() ==> (#[trigger] s[i]).canonical()
}

/// A sequence of rule sets is read back from the list that stands for it.
pub proof fn lemma_rule_set_list(s: Seq<RuleSetView>)
    requires
        canonical_rule_set_list(s),
    ensures
        json_rule_set_list(rule_set_list_json(s)) == Some(s),
        rule_set_list_json(s) is List,
{
    reveal(rule_set_list_json);
    reveal(json_rule_set_list);
    let js = rule_set_list_json(s)->List_0;
    assert forall|i: int| 0 <= i < js.len() implies (#[trigger] RuleSetView::from_json(js[i])) == Some(s[i]) by {
        s[i].lemma_round_trip();
    }
    assert(Seq::new(js.len(), |i: int| RuleSetView::from_json(js[i])->0) =~= s);
}

/// Writes a sequence of rule sets, as `rule_set_list_json` says.
pub fn write_rule_set_list(v: &Vec<RuleSet>) -> (r: Json)
    ensures
        r@ == rule_set_list_json(v.deep_view()),
{
    reveal(rule_set_list_json);
    let mut out: Vec<Json> = Vec::new();
    let mut i: usize = 0;
    let ghost s = v.deep_view();
    while i < v.len()
        invariant
            i <= v.len(),
            s == v.deep_view(),
            out.deep_view() == Seq::new(i as nat, |k: int| s[k].to_json()),
        decreases v.len() - i,
    {
        let ghost before = out.deep_view();
        let elem = &v[i];
        let item = elem.to_json();
        out.push(item);
        proof {
            assert(s[i as int] == v@[i as int].deep_view());
            assert(out.deep_view() =~= before.push(item@));
            assert(before.push(item@) =~= Seq::new((i + 1) as nat, |k: int| s[k].to_json()));
        }
        i += 1;
    }
    let r = Json::List(out);
    proof {
        lemma_json_view(r);
        assert(out.deep_view() =~= Seq::new(s.len(), |k: int| s[k].to_json()));
    }
    r
}

/// Reads a sequence of rule sets, as `json_rule_set_list` says.
pub fn read_rule_set_list(j: &Json) -> (r: Result<Vec<RuleSet>, SchemaMismatch>)
    ensures
        match r {
            Ok(v) => json_rule_set_list(j@) == Some(v.deep_view()),
            Err(_) => json_rule_set_list(j@) is None,
        },
{
    reveal(json_rule_set_list);
    proof {
        lemma_json_view(*j);
    }
    match j {
        Json::List(js) => {
            let mut out: Vec<RuleSet> = Vec::new();
            let mut i: usize = 0;
            let ghost all = js.deep_view();
            while i < js.len()
                invariant
                    i <= js.len(),
                    all == js.deep_view(),
                    j@ == JsonView::List(all),
                    forall|k: int| 0 <= k < i ==> (#[trigger] RuleSetView::from_json(all[k])) is Some,
                    out.deep_view() == Seq::new(i as nat, |k: int| RuleSetView::from_json(all[k])->0),
                decreases js.len() - i,
            {
                let ghost before = out.deep_view();
                proof {
                    assert(all[i as int] == js@[i as int]@);
                }
                let value = &js[i];
                match RuleSet::from_json(value) {
                    Ok(x) => {
                        out.push(x);
                        proof {
                            assert(out.deep_view() =~= before.push(x.deep_view()));
                            assert(before.push(x.deep_view()) =~= Seq::new(
                                (i + 1) as nat,
                                |k: int| RuleSetView::from_json(all[k])->0,
                            ));
                        }
                    },
                    Err(e) => {
                        reveal(json_rule_set_list);
                        assert(RuleSetView::from_json(all[i as int]) is None);
                        return Err(e);
                    },
                }
                i += 1;
            }
            proof {
                assert(out.deep_view() =~= Seq::new(all.len(), |k: int| RuleSetView::from_json(all[k])->0));
            }
            Ok(out)
        },
        _ => Err(SchemaMismatch),
    }
}

} // verus!
