//! The rules that pick a server or an answer for a DNS query.

use crate::dns::dnsruleaction::{DnsRuleAction, DnsRuleActionView};
use crate::json::{bool_json, Entries, entries_of, get, get_field, is_null, Json, json_bool, json_text, json_text_list, json_text_list_table, json_u16, json_u16_list, json_u32, json_u32_list, json_u8, JsonView, Key, lemma_get_empty, lemma_get_merge, lemma_get_put, lemma_json_view, lemma_text_list, lemma_text_list_table, lemma_text_list_table_shape, lemma_u16_list, lemma_u32_list, MAX_NESTING, merge, no_entries, optional, present, put, put_field, put_group, read_bool, read_entries, read_text, read_text_list, read_text_list_table, read_u16, read_u16_list, read_u32, read_u32_list, read_u8, required, SchemaMismatch, text_json, text_list_json, text_list_table_json, u16_json, u16_list_json, u32_json, u32_list_json, u8_json, write_text_list, write_text_list_table, write_u16_list, write_u32_list};
use crate::text::same_text;
use vstd::prelude::*;

verus! {

/// One value, or several in a list: the two forms in which a document may
/// write the same field.
#[derive(Debug, Clone, PartialEq)]
pub enum Listable<T> {
    /// A bare value.
    One(T),
    /// A list of values, in the order in which they were written.
    Many(Vec<T>),
}

/// What a [`Listable`] holds, over the views of its values.
pub enum ListableView<V> {
    One(V),
    Many(Seq<V>),
}

impl<V> ListableView<V> {
    /// The values that either form stands for, in order.
    pub open spec fn items(self) -> Seq<V> {
        match self {
            ListableView::One(x) => seq![x],
            ListableView::Many(s) => s,
        }
    }

    /// The form in which a sequence of values is written: bare when there is
    /// exactly one, a list otherwise.
    pub open spec fn canonical(s: Seq<V>) -> ListableView<V> {
        if s.len() == 1 {
            ListableView::One(s[0])
        } else {
            ListableView::Many(s)
        }
    }
}

impl<T: DeepView> DeepView for Listable<T> {
    type V = ListableView<T::V>;

    open spec fn deep_view(&self) -> ListableView<T::V> {
        match self {
            Listable::One(x) => ListableView::One(x.deep_view()),
            Listable::Many(v) => ListableView::Many(v.deep_view()),
        }
    }
}

impl<T: DeepView> Listable<T> {
    /// How many values the field holds.
    pub fn len(&self) -> (n: usize)
        ensures
            n == self.deep_view().items().len(),
    {
        match self {
            Listable::One(_) => 1,
            Listable::Many(v) => v.len(),
        }
    }

    /// The values of either form as a list, in order.
    pub fn into_vec(self) -> (r: Vec<T>)
        ensures
            r.deep_view() == self.deep_view().items(),
    {
        match self {
            Listable::One(x) => {
                let mut v: Vec<T> = Vec::new();
                v.push(x);
                assert(v.deep_view() =~= seq![x.deep_view()]);
                v
            },
            Listable::Many(v) => v,
        }
    }

    /// The canonical form of a list of values: bare when there is exactly
    /// one, a list otherwise.
    pub fn from_vec(v: Vec<T>) -> (r: Self)
        ensures
            r.deep_view() == ListableView::canonical(v.deep_view()),
    {
        let mut v = v;
        if v.len() == 1 {
            let ghost before = v.deep_view();
            let x = v.pop().unwrap();
            assert(x.deep_view() == before[0]);
            Listable::One(x)
        } else {
            Listable::Many(v)
        }
    }
}

/// Either form stands for the values that its canonical form stands for.
pub proof fn law_listable_forms_agree<V>(form: ListableView<V>)
    ensures
        ListableView::canonical(form.items()).items() == form.items(),
{
    assert(ListableView::canonical(form.items()).items() =~= form.items());
}

/// One text or several.
pub type ListableString = Listable<String>;

/// One 16-bit number or several.
pub type ListableU16 = Listable<u16>;

/// A DNS query type, by name or by number.
#[derive(Debug, Clone, PartialEq)]
pub enum QueryType {
    /// By name, such as `A`.
    Name(String),
    /// By number.
    Code(u16),
}

/// What a [`QueryType`] holds, with every text as its characters.
pub enum QueryTypeView {
    Name(Seq<char>),
    Code(u16),
}

impl DeepView for QueryType {
    type V = QueryTypeView;

    open spec fn deep_view(&self) -> QueryTypeView {
        match self {
            QueryType::Name(x) => QueryTypeView::Name(x.deep_view()),
            QueryType::Code(x) => QueryTypeView::Code(x.deep_view()),
        }
    }
}

impl View for QueryType {
    type V = QueryTypeView;

    open spec fn view(&self) -> QueryTypeView {
        self.deep_view()
    }
}

impl QueryTypeView {
    /// The value of the tree that stands for the value: that of what it holds.
    pub open spec fn to_json(self) -> JsonView {
        match self {
            QueryTypeView::Name(x) => text_json(x),
            QueryTypeView::Code(x) => u16_json(x),
        }
    }

    /// The value that a value of the tree stands for: of the first kind
    /// that it can be read as.
    pub open spec fn from_json(j: JsonView) -> Option<QueryTypeView> {
        match json_text(j) {
            Some(x) => Some(QueryTypeView::Name(x)),
            None =>
            match json_u16(j) {
                Some(x) => Some(QueryTypeView::Code(x)),
                None => None,
            },
        }
    }

    /// Whether the value is written in a form from which it is read back.
    pub open spec fn canonical(self) -> bool {
        true
    }

    /// The value is read back from the value of the tree that stands for it.
    pub proof fn lemma_round_trip(self)
        ensures
            QueryTypeView::from_json(self.to_json()) == Some(self),
            self.to_json() != JsonView::Null,
    {
        match self {
            QueryTypeView::Name(x) => {
            },
            QueryTypeView::Code(x) => {
            },
        }
    }
}

impl QueryType {
    /// The value of the tree that stands for the value.
    pub fn to_json(&self) -> (r: Json)
        ensures
            r@ == self@.to_json(),
    {
        match self {
            QueryType::Name(x) => Json::Text(x.clone()),
            QueryType::Code(x) => Json::Unsigned(*x as u64),
        }
    }

    /// Reads the value, as `QueryTypeView::from_json` says.
    pub fn from_json(j: &Json) -> (r: Result<QueryType, SchemaMismatch>)
        ensures
            match r {
                Ok(x) => QueryTypeView::from_json(j@) == Some(x@),
                Err(_) => QueryTypeView::from_json(j@) is None,
            },
    {
        match read_text(j) {
            Ok(x) => {
                return Ok(QueryType::Name(x));
            },
            Err(_) => {},
        }
        match read_u16(j) {
            Ok(x) => {
                return Ok(QueryType::Code(x));
            },
            Err(_) => {},
        }
        Err(SchemaMismatch)
    }
}

/// Addresses of interfaces, by interface or for the default one.
#[derive(Debug, Clone, PartialEq)]
pub enum InterfaceAddress {
    /// Addresses by interface name.
    PerInterface(Vec<(String, Vec<String>)>),
    /// Addresses of the default interface.
    List(Vec<String>),
}

/// What a [`InterfaceAddress`] holds, with every text as its characters.
pub enum InterfaceAddressView {
    PerInterface(Seq<(Seq<char>, Seq<Seq<char>>)>),
    List(Seq<Seq<char>>),
}

impl DeepView for InterfaceAddress {
    type V = InterfaceAddressView;

    open spec fn deep_view(&self) -> InterfaceAddressView {
        match self {
            InterfaceAddress::PerInterface(x) => InterfaceAddressView::PerInterface(x.deep_view()),
            InterfaceAddress::List(x) => InterfaceAddressView::List(x.deep_view()),
        }
    }
}

impl View for InterfaceAddress {
    type V = InterfaceAddressView;

    open spec fn view(&self) -> InterfaceAddressView {
        self.deep_view()
    }
}

impl InterfaceAddressView {
    /// The value of the tree that stands for the value: that of what it holds.
    pub open spec fn to_json(self) -> JsonView {
        match self {
            InterfaceAddressView::PerInterface(x) => text_list_table_json(x),
            InterfaceAddressView::List(x) => text_list_json(x),
        }
    }

    /// The value that a value of the tree stands for: of the first kind
    /// that it can be read as.
    pub open spec fn from_json(j: JsonView) -> Option<InterfaceAddressView> {
        match json_text_list_table(j) {
            Some(x) => Some(InterfaceAddressView::PerInterface(x)),
            None =>
            match json_text_list(j) {
                Some(x) => Some(InterfaceAddressView::List(x)),
                None => None,
            },
        }
    }

    /// Whether the value is written in a form from which it is read back.
    pub open spec fn canonical(self) -> bool {
        true
    }

    /// The value is read back from the value of the tree that stands for it.
    pub proof fn lemma_round_trip(self)
        ensures
            InterfaceAddressView::from_json(self.to_json()) == Some(self),
            self.to_json() != JsonView::Null,
    {
        match self {
            InterfaceAddressView::PerInterface(x) => {
                lemma_text_list_table(x);
            },
            InterfaceAddressView::List(x) => {
                lemma_text_list(x);
                lemma_text_list_table_shape(self.to_json());
            },
        }
    }
}

impl InterfaceAddress {
    /// The value of the tree that stands for the value.
    pub fn to_json(&self) -> (r: Json)
        ensures
            r@ == self@.to_json(),
    {
        match self {
            InterfaceAddress::PerInterface(x) => write_text_list_table(x),
            InterfaceAddress::List(x) => write_text_list(x),
        }
    }

    /// Reads the value, as `InterfaceAddressView::from_json` says.
    pub fn from_json(j: &Json) -> (r: Result<InterfaceAddress, SchemaMismatch>)
        ensures
            match r {
                Ok(x) => InterfaceAddressView::from_json(j@) == Some(x@),
                Err(_) => InterfaceAddressView::from_json(j@) is None,
            },
    {
        match read_text_list_table(j) {
            Ok(x) => {
                return Ok(InterfaceAddress::PerInterface(x));
            },
            Err(_) => {},
        }
        match read_text_list(j) {
            Ok(x) => {
                return Ok(InterfaceAddress::List(x));
            },
            Err(_) => {},
        }
        Err(SchemaMismatch)
    }
}

/// How a logical rule combines its parts.
#[allow(non_camel_case_types)]
#[derive(Debug, Clone, Copy, PartialEq, Eq, Structural)]
pub enum Mode {
    /// All parts must match.
    and,
    /// One part must match.
    or,
}

impl DeepView for Mode {
    type V = Mode;

    open spec fn deep_view(&self) -> Mode {
        *self
    }
}

impl Mode {
    /// The text that stands for the value.
    pub open spec fn as_json(self) -> JsonView {
        JsonView::Text(
            match self {
                Mode::and => "and"@,
                Mode::or => "or"@,
            },
        )
    }

    /// The value that a text stands for, if it stands for one.
    pub open spec fn of_json(j: JsonView) -> Option<Mode> {
        match j {
            JsonView::Text(s) => if s == "and"@ {
                Some(Mode::and)
            } else if s == "or"@ {
                Some(Mode::or)
            } else {
                None
            },
            _ => None,
        }
    }

    /// The value is read back from the text that stands for it.
    pub proof fn lemma_round_trip(self)
        ensures
            Mode::of_json(self.as_json()) == Some(self),
    {
        reveal_strlit("and");
        assert("and"@.len() == 3);
        reveal_strlit("or");
        assert("or"@.len() == 2);
    }

    /// The text that stands for the value.
    pub fn to_json(&self) -> (r: Json)
        ensures
            r@ == self.as_json(),
    {
        match self {
            Mode::and => Json::Text("and".to_owned()),
            Mode::or => Json::Text("or".to_owned()),
        }
    }

    /// Reads the value from a text, as `of_json` says.
    pub fn from_json(j: &Json) -> (r: Result<Mode, SchemaMismatch>)
        ensures
            match r {
                Ok(x) => Mode::of_json(j@) == Some(x),
                Err(_) => Mode::of_json(j@) is None,
            },
    {
        match j {
            Json::Text(s) => if same_text(s.as_str(), "and") {
                Ok(Mode::and)
            } else if same_text(s.as_str(), "or") {
                Ok(Mode::or)
            } else {
                Err(SchemaMismatch)
            },
            _ => Err(SchemaMismatch),
        }
    }
}

/// A DNS rule that matches a query by its properties.
#[derive(Debug, Clone, PartialEq)]
pub struct DnsDefaultRule {
    pub inbound: Option<ListableString>,
    pub ip_version: Option<u8>,
    pub query_type: Option<Listable<QueryType>>,
    pub network: Option<String>,
    pub auth_user: Option<ListableString>,
    pub protocol: Option<ListableString>,
    pub domain: Option<ListableString>,
    pub domain_suffix: Option<ListableString>,
    pub domain_keyword: Option<ListableString>,
    pub domain_regex: Option<ListableString>,
    pub source_ip_cidr: Option<ListableString>,
    pub source_ip_is_private: Option<bool>,
    pub source_port: Option<ListableU16>,
    pub source_port_range: Option<ListableString>,
    pub port: Option<ListableU16>,
    pub port_range: Option<ListableString>,
    pub process_name: Option<ListableString>,
    pub process_path: Option<ListableString>,
    pub process_path_regex: Option<ListableString>,
    pub package_name: Option<ListableString>,
    pub user: Option<ListableString>,
    pub user_id: Option<Listable<u32>>,
    pub clash_mode: Option<String>,
    pub network_type: Option<ListableString>,
    pub network_is_expensive: Option<bool>,
    pub network_is_constrained: Option<bool>,
    pub interface_address: Option<Vec<(String, Vec<String>)>>,
    pub network_interface_address: Option<Vec<(String, Vec<String>)>>,
    pub default_interface_address: Option<Vec<String>>,
    pub wifi_ssid: Option<ListableString>,
    pub wifi_bssid: Option<ListableString>,
    pub rule_set: Option<ListableString>,
    pub rule_set_ip_cidr_match_source: Option<bool>,
    pub invert: Option<bool>,
    pub action: Option<DnsRuleAction>,
    pub ip_cidr: Option<ListableString>,
    pub ip_is_private: Option<bool>,
    pub rule_set_ip_cidr_accept_empty: Option<bool>,
    pub ip_accept_any: Option<bool>,
}

/// What a [`DnsDefaultRule`] holds, with every text as its characters.
pub struct DnsDefaultRuleView {
    pub inbound: Option<ListableView<Seq<char>>>,
    pub ip_version: Option<u8>,
    pub query_type: Option<ListableView<QueryTypeView>>,
    pub network: Option<Seq<char>>,
    pub auth_user: Option<ListableView<Seq<char>>>,
    pub protocol: Option<ListableView<Seq<char>>>,
    pub domain: Option<ListableView<Seq<char>>>,
    pub domain_suffix: Option<ListableView<Seq<char>>>,
    pub domain_keyword: Option<ListableView<Seq<char>>>,
    pub domain_regex: Option<ListableView<Seq<char>>>,
    pub source_ip_cidr: Option<ListableView<Seq<char>>>,
    pub source_ip_is_private: Option<bool>,
    pub source_port: Option<ListableView<u16>>,
    pub source_port_range: Option<ListableView<Seq<char>>>,
    pub port: Option<ListableView<u16>>,
    pub port_range: Option<ListableView<Seq<char>>>,
    pub process_name: Option<ListableView<Seq<char>>>,
    pub process_path: Option<ListableView<Seq<char>>>,
    pub process_path_regex: Option<ListableView<Seq<char>>>,
    pub package_name: Option<ListableView<Seq<char>>>,
    pub user: Option<ListableView<Seq<char>>>,
    pub user_id: Option<ListableView<u32>>,
    pub clash_mode: Option<Seq<char>>,
    pub network_type: Option<ListableView<Seq<char>>>,
    pub network_is_expensive: Option<bool>,
    pub network_is_constrained: Option<bool>,
    pub interface_address: Option<Seq<(Seq<char>, Seq<Seq<char>>)>>,
    pub network_interface_address: Option<Seq<(Seq<char>, Seq<Seq<char>>)>>,
    pub default_interface_address: Option<Seq<Seq<char>>>,
    pub wifi_ssid: Option<ListableView<Seq<char>>>,
    pub wifi_bssid: Option<ListableView<Seq<char>>>,
    pub rule_set: Option<ListableView<Seq<char>>>,
    pub rule_set_ip_cidr_match_source: Option<bool>,
    pub invert: Option<bool>,
    pub action: Option<DnsRuleActionView>,
    pub ip_cidr: Option<ListableView<Seq<char>>>,
    pub ip_is_private: Option<bool>,
    pub rule_set_ip_cidr_accept_empty: Option<bool>,
    pub ip_accept_any: Option<bool>,
}

impl DeepView for DnsDefaultRule {
    type V = DnsDefaultRuleView;

    open spec fn deep_view(&self) -> DnsDefaultRuleView {
        DnsDefaultRuleView {
            inbound: self.inbound.deep_view(),
            ip_version: self.ip_version.deep_view(),
            query_type: self.query_type.deep_view(),
            network: self.network.deep_view(),
            auth_user: self.auth_user.deep_view(),
            protocol: self.protocol.deep_view(),
            domain: self.domain.deep_view(),
            domain_suffix: self.domain_suffix.deep_view(),
            domain_keyword: self.domain_keyword.deep_view(),
            domain_regex: self.domain_regex.deep_view(),
            source_ip_cidr: self.source_ip_cidr.deep_view(),
            source_ip_is_private: self.source_ip_is_private.deep_view(),
            source_port: self.source_port.deep_view(),
            source_port_range: self.source_port_range.deep_view(),
            port: self.port.deep_view(),
            port_range: self.port_range.deep_view(),
            process_name: self.process_name.deep_view(),
            process_path: self.process_path.deep_view(),
            process_path_regex: self.process_path_regex.deep_view(),
            package_name: self.package_name.deep_view(),
            user: self.user.deep_view(),
            user_id: self.user_id.deep_view(),
            clash_mode: self.clash_mode.deep_view(),
            network_type: self.network_type.deep_view(),
            network_is_expensive: self.network_is_expensive.deep_view(),
            network_is_constrained: self.network_is_constrained.deep_view(),
            interface_address: self.interface_address.deep_view(),
            network_interface_address: self.network_interface_address.deep_view(),
            default_interface_address: self.default_interface_address.deep_view(),
            wifi_ssid: self.wifi_ssid.deep_view(),
            wifi_bssid: self.wifi_bssid.deep_view(),
            rule_set: self.rule_set.deep_view(),
            rule_set_ip_cidr_match_source: self.rule_set_ip_cidr_match_source.deep_view(),
            invert: self.invert.deep_view(),
            action: self.action.deep_view(),
            ip_cidr: self.ip_cidr.deep_view(),
            ip_is_private: self.ip_is_private.deep_view(),
            rule_set_ip_cidr_accept_empty: self.rule_set_ip_cidr_accept_empty.deep_view(),
            ip_accept_any: self.ip_accept_any.deep_view(),
        }
    }
}

impl View for DnsDefaultRule {
    type V = DnsDefaultRuleView;

    open spec fn view(&self) -> DnsDefaultRuleView {
        self.deep_view()
    }
}

impl DnsDefaultRuleView {
    /// The view of what [`DnsDefaultRule::new`] returns.
    pub open spec fn fresh() -> DnsDefaultRuleView {
        DnsDefaultRuleView {
            inbound: None,
            ip_version: None,
            query_type: None,
            network: None,
            auth_user: None,
            protocol: None,
            domain: None,
            domain_suffix: None,
            domain_keyword: None,
            domain_regex: None,
            source_ip_cidr: None,
            source_ip_is_private: None,
            source_port: None,
            source_port_range: None,
            port: None,
            port_range: None,
            process_name: None,
            process_path: None,
            process_path_regex: None,
            package_name: None,
            user: None,
            user_id: None,
            clash_mode: None,
            network_type: None,
            network_is_expensive: None,
            network_is_constrained: None,
            interface_address: None,
            network_interface_address: None,
            default_interface_address: None,
            wifi_ssid: None,
            wifi_bssid: None,
            rule_set: None,
            rule_set_ip_cidr_match_source: None,
            invert: None,
            action: None,
            ip_cidr: None,
            ip_is_private: None,
            rule_set_ip_cidr_accept_empty: None,
            ip_accept_any: None,
        }
    }
}

impl DnsDefaultRule {
    /// A rule that sets no condition and no action.
    pub fn new() -> (r: Self)
        ensures
            r@ == DnsDefaultRuleView::fresh(),
    {
        DnsDefaultRule {
            inbound: None,
            ip_version: None,
            query_type: None,
            network: None,
            auth_user: None,
            protocol: None,
            domain: None,
            domain_suffix: None,
            domain_keyword: None,
            domain_regex: None,
            source_ip_cidr: None,
            source_ip_is_private: None,
            source_port: None,
            source_port_range: None,
            port: None,
            port_range: None,
            process_name: None,
            process_path: None,
            process_path_regex: None,
            package_name: None,
            user: None,
            user_id: None,
            clash_mode: None,
            network_type: None,
            network_is_expensive: None,
            network_is_constrained: None,
            interface_address: None,
            network_interface_address: None,
            default_interface_address: None,
            wifi_ssid: None,
            wifi_bssid: None,
            rule_set: None,
            rule_set_ip_cidr_match_source: None,
            invert: None,
            action: None,
            ip_cidr: None,
            ip_is_private: None,
            rule_set_ip_cidr_accept_empty: None,
            ip_accept_any: None,
        }
    }
}

impl DnsDefaultRuleView {
    /// The entries of the record that stands for the value: one for each
    /// field that is set, in the order of the fields.
    pub open spec fn record(self) -> Entries {
        let es = Seq::empty();
        let es = put(es, Key::Inbound, present(self.inbound, |x: ListableView<Seq<char>>| text_listable_json(x)));
        let es = put(es, Key::IpVersion, present(self.ip_version, |x: u8| u8_json(x)));
        let es = put(es, Key::QueryType, present(self.query_type, |x: ListableView<QueryTypeView>| query_type_listable_json(x)));
        let es = put(es, Key::Network, present(self.network, |x: Seq<char>| text_json(x)));
        let es = put(es, Key::AuthUser, present(self.auth_user, |x: ListableView<Seq<char>>| text_listable_json(x)));
        let es = put(es, Key::Protocol, present(self.protocol, |x: ListableView<Seq<char>>| text_listable_json(x)));
        let es = put(es, Key::Domain, present(self.domain, |x: ListableView<Seq<char>>| text_listable_json(x)));
        let es = put(es, Key::DomainSuffix, present(self.domain_suffix, |x: ListableView<Seq<char>>| text_listable_json(x)));
        let es = put(es, Key::DomainKeyword, present(self.domain_keyword, |x: ListableView<Seq<char>>| text_listable_json(x)));
        let es = put(es, Key::DomainRegex, present(self.domain_regex, |x: ListableView<Seq<char>>| text_listable_json(x)));
        let es = put(es, Key::SourceIpCidr, present(self.source_ip_cidr, |x: ListableView<Seq<char>>| text_listable_json(x)));
        let es = put(es, Key::SourceIpIsPrivate, present(self.source_ip_is_private, |x: bool| bool_json(x)));
        let es = put(es, Key::SourcePort, present(self.source_port, |x: ListableView<u16>| u16_listable_json(x)));
        let es = put(es, Key::SourcePortRange, present(self.source_port_range, |x: ListableView<Seq<char>>| text_listable_json(x)));
        let es = put(es, Key::Port, present(self.port, |x: ListableView<u16>| u16_listable_json(x)));
        let es = put(es, Key::PortRange, present(self.port_range, |x: ListableView<Seq<char>>| text_listable_json(x)));
        let es = put(es, Key::ProcessName, present(self.process_name, |x: ListableView<Seq<char>>| text_listable_json(x)));
        let es = put(es, Key::ProcessPath, present(self.process_path, |x: ListableView<Seq<char>>| text_listable_json(x)));
        let es = put(es, Key::ProcessPathRegex, present(self.process_path_regex, |x: ListableView<Seq<char>>| text_listable_json(x)));
        let es = put(es, Key::PackageName, present(self.package_name, |x: ListableView<Seq<char>>| text_listable_json(x)));
        let es = put(es, Key::User, present(self.user, |x: ListableView<Seq<char>>| text_listable_json(x)));
        let es = put(es, Key::UserId, present(self.user_id, |x: ListableView<u32>| u32_listable_json(x)));
        let es = put(es, Key::ClashMode, present(self.clash_mode, |x: Seq<char>| text_json(x)));
        let es = put(es, Key::NetworkType, present(self.network_type, |x: ListableView<Seq<char>>| text_listable_json(x)));
        let es = put(es, Key::NetworkIsExpensive, present(self.network_is_expensive, |x: bool| bool_json(x)));
        let es = put(es, Key::NetworkIsConstrained, present(self.network_is_constrained, |x: bool| bool_json(x)));
        let es = put(es, Key::InterfaceAddress, present(self.interface_address, |x: Seq<(Seq<char>, Seq<Seq<char>>)>| text_list_table_json(x)));
        let es = put(es, Key::NetworkInterfaceAddress, present(self.network_interface_address, |x: Seq<(Seq<char>, Seq<Seq<char>>)>| text_list_table_json(x)));
        let es = put(es, Key::DefaultInterfaceAddress, present(self.default_interface_address, |x: Seq<Seq<char>>| text_list_json(x)));
        let es = put(es, Key::WifiSsid, present(self.wifi_ssid, |x: ListableView<Seq<char>>| text_listable_json(x)));
        let es = put(es, Key::WifiBssid, present(self.wifi_bssid, |x: ListableView<Seq<char>>| text_listable_json(x)));
        let es = put(es, Key::RuleSet, present(self.rule_set, |x: ListableView<Seq<char>>| text_listable_json(x)));
        let es = put(es, Key::RuleSetIpCidrMatchSource, present(self.rule_set_ip_cidr_match_source, |x: bool| bool_json(x)));
        let es = put(es, Key::Invert, present(self.invert, |x: bool| bool_json(x)));
        let es = merge(
            es,
            match self.action {
                Some(g) => g.record(),
                None => Seq::empty(),
            },
        );
        let es = put(es, Key::IpCidr, present(self.ip_cidr, |x: ListableView<Seq<char>>| text_listable_json(x)));
        let es = put(es, Key::IpIsPrivate, present(self.ip_is_private, |x: bool| bool_json(x)));
        let es = put(es, Key::RuleSetIpCidrAcceptEmpty, present(self.rule_set_ip_cidr_accept_empty, |x: bool| bool_json(x)));
        let es = put(es, Key::IpAcceptAny, present(self.ip_accept_any, |x: bool| bool_json(x)));
        es
    }

    /// The record that stands for the value.
    pub open spec fn to_json(self) -> JsonView {
        JsonView::Record(self.record())
    }

    /// The value that the entries of an object stand for. Fails where an
    /// entry holds a value of the wrong shape.
    pub open spec fn from_record(es: Entries) -> Option<DnsDefaultRuleView> {
        let inbound = optional(get(es, Key::Inbound), |j: JsonView| json_text_listable(j));
        let ip_version = optional(get(es, Key::IpVersion), |j: JsonView| json_u8(j));
        let query_type = optional(get(es, Key::QueryType), |j: JsonView| json_query_type_listable(j));
        let network = optional(get(es, Key::Network), |j: JsonView| json_text(j));
        let auth_user = optional(get(es, Key::AuthUser), |j: JsonView| json_text_listable(j));
        let protocol = optional(get(es, Key::Protocol), |j: JsonView| json_text_listable(j));
        let domain = optional(get(es, Key::Domain), |j: JsonView| json_text_listable(j));
        let domain_suffix = optional(get(es, Key::DomainSuffix), |j: JsonView| json_text_listable(j));
        let domain_keyword = optional(get(es, Key::DomainKeyword), |j: JsonView| json_text_listable(j));
        let domain_regex = optional(get(es, Key::DomainRegex), |j: JsonView| json_text_listable(j));
        let source_ip_cidr = optional(get(es, Key::SourceIpCidr), |j: JsonView| json_text_listable(j));
        let source_ip_is_private = optional(get(es, Key::SourceIpIsPrivate), |j: JsonView| json_bool(j));
        let source_port = optional(get(es, Key::SourcePort), |j: JsonView| json_u16_listable(j));
        let source_port_range = optional(get(es, Key::SourcePortRange), |j: JsonView| json_text_listable(j));
        let port = optional(get(es, Key::Port), |j: JsonView| json_u16_listable(j));
        let port_range = optional(get(es, Key::PortRange), |j: JsonView| json_text_listable(j));
        let process_name = optional(get(es, Key::ProcessName), |j: JsonView| json_text_listable(j));
        let process_path = optional(get(es, Key::ProcessPath), |j: JsonView| json_text_listable(j));
        let process_path_regex = optional(get(es, Key::ProcessPathRegex), |j: JsonView| json_text_listable(j));
        let package_name = optional(get(es, Key::PackageName), |j: JsonView| json_text_listable(j));
        let user = optional(get(es, Key::User), |j: JsonView| json_text_listable(j));
        let user_id = optional(get(es, Key::UserId), |j: JsonView| json_u32_listable(j));
        let clash_mode = optional(get(es, Key::ClashMode), |j: JsonView| json_text(j));
        let network_type = optional(get(es, Key::NetworkType), |j: JsonView| json_text_listable(j));
        let network_is_expensive = optional(get(es, Key::NetworkIsExpensive), |j: JsonView| json_bool(j));
        let network_is_constrained = optional(get(es, Key::NetworkIsConstrained), |j: JsonView| json_bool(j));
        let interface_address = optional(get(es, Key::InterfaceAddress), |j: JsonView| json_text_list_table(j));
        let network_interface_address = optional(get(es, Key::NetworkInterfaceAddress), |j: JsonView| json_text_list_table(j));
        let default_interface_address = optional(get(es, Key::DefaultInterfaceAddress), |j: JsonView| json_text_list(j));
        let wifi_ssid = optional(get(es, Key::WifiSsid), |j: JsonView| json_text_listable(j));
        let wifi_bssid = optional(get(es, Key::WifiBssid), |j: JsonView| json_text_listable(j));
        let rule_set = optional(get(es, Key::RuleSet), |j: JsonView| json_text_listable(j));
        let rule_set_ip_cidr_match_source = optional(get(es, Key::RuleSetIpCidrMatchSource), |j: JsonView| json_bool(j));
        let invert = optional(get(es, Key::Invert), |j: JsonView| json_bool(j));
        let action = DnsRuleActionView::from_group(es);
        let ip_cidr = optional(get(es, Key::IpCidr), |j: JsonView| json_text_listable(j));
        let ip_is_private = optional(get(es, Key::IpIsPrivate), |j: JsonView| json_bool(j));
        let rule_set_ip_cidr_accept_empty = optional(get(es, Key::RuleSetIpCidrAcceptEmpty), |j: JsonView| json_bool(j));
        let ip_accept_any = optional(get(es, Key::IpAcceptAny), |j: JsonView| json_bool(j));
        if inbound is Some
            && ip_version is Some
            && query_type is Some
            && network is Some
            && auth_user is Some
            && protocol is Some
            && domain is Some
            && domain_suffix is Some
            && domain_keyword is Some
            && domain_regex is Some
            && source_ip_cidr is Some
            && source_ip_is_private is Some
            && source_port is Some
            && source_port_range is Some
            && port is Some
            && port_range is Some
            && process_name is Some
            && process_path is Some
            && process_path_regex is Some
            && package_name is Some
            && user is Some
            && user_id is Some
            && clash_mode is Some
            && network_type is Some
            && network_is_expensive is Some
            && network_is_constrained is Some
            && interface_address is Some
            && network_interface_address is Some
            && default_interface_address is Some
            && wifi_ssid is Some
            && wifi_bssid is Some
            && rule_set is Some
            && rule_set_ip_cidr_match_source is Some
            && invert is Some
            && action is Some
            && ip_cidr is Some
            && ip_is_private is Some
            && rule_set_ip_cidr_accept_empty is Some
            && ip_accept_any is Some {
            Some(
                DnsDefaultRuleView {
                    inbound: inbound->0,
                    ip_version: ip_version->0,
                    query_type: query_type->0,
                    network: network->0,
                    auth_user: auth_user->0,
                    protocol: protocol->0,
                    domain: domain->0,
                    domain_suffix: domain_suffix->0,
                    domain_keyword: domain_keyword->0,
                    domain_regex: domain_regex->0,
                    source_ip_cidr: source_ip_cidr->0,
                    source_ip_is_private: source_ip_is_private->0,
                    source_port: source_port->0,
                    source_port_range: source_port_range->0,
                    port: port->0,
                    port_range: port_range->0,
                    process_name: process_name->0,
                    process_path: process_path->0,
                    process_path_regex: process_path_regex->0,
                    package_name: package_name->0,
                    user: user->0,
                    user_id: user_id->0,
                    clash_mode: clash_mode->0,
                    network_type: network_type->0,
                    network_is_expensive: network_is_expensive->0,
                    network_is_constrained: network_is_constrained->0,
                    interface_address: interface_address->0,
                    network_interface_address: network_interface_address->0,
                    default_interface_address: default_interface_address->0,
                    wifi_ssid: wifi_ssid->0,
                    wifi_bssid: wifi_bssid->0,
                    rule_set: rule_set->0,
                    rule_set_ip_cidr_match_source: rule_set_ip_cidr_match_source->0,
                    invert: invert->0,
                    action: action->0,
                    ip_cidr: ip_cidr->0,
                    ip_is_private: ip_is_private->0,
                    rule_set_ip_cidr_accept_empty: rule_set_ip_cidr_accept_empty->0,
                    ip_accept_any: ip_accept_any->0,
                },
            )
        } else {
            None
        }
    }

    /// The value that an object stands for; none for a value that is no
    /// object.
    pub open spec fn from_json(j: JsonView) -> Option<DnsDefaultRuleView> {
        match entries_of(j) {
            Some(es) => DnsDefaultRuleView::from_record(es),
            None => None,
        }
    }

    /// Whether the value is written in a form from which it is read back:
    /// the values that it holds are, and a group of fields that is present
    /// sets at least one of them.
    pub open spec fn canonical(self) -> bool {
        &&& match self.query_type {
            Some(x) => canonical_query_type_listable(x),
            None => true,
        }
        &&& match self.action {
            Some(g) => g.canonical(),
            None => true,
        }
    }

    /// The field `inbound` is read back from the record.
    pub proof fn lemma_reads_inbound(self)
        requires
            self.canonical(),
        ensures
            optional(get(self.record(), Key::Inbound), |j: JsonView| json_text_listable(j)) == Some(self.inbound),
    {
        broadcast use {lemma_get_empty, lemma_get_put, lemma_get_merge};

        let es = self.record();
        match self.inbound {
            Some(x) => {
                lemma_text_listable(x);
            },
            None => {},
        }
    }

    /// The field `ip_version` is read back from the record.
    pub proof fn lemma_reads_ip_version(self)
        requires
            self.canonical(),
        ensures
            optional(get(self.record(), Key::IpVersion), |j: JsonView| json_u8(j)) == Some(self.ip_version),
    {
        broadcast use {lemma_get_empty, lemma_get_put, lemma_get_merge};

        let es = self.record();
    }

    /// The field `query_type` is read back from the record.
    pub proof fn lemma_reads_query_type(self)
        requires
            self.canonical(),
        ensures
            optional(get(self.record(), Key::QueryType), |j: JsonView| json_query_type_listable(j)) == Some(self.query_type),
    {
        broadcast use {lemma_get_empty, lemma_get_put, lemma_get_merge};

        let es = self.record();
        match self.query_type {
            Some(x) => {
                lemma_query_type_listable(x);
            },
            None => {},
        }
    }

    /// The field `network` is read back from the record.
    pub proof fn lemma_reads_network(self)
        requires
            self.canonical(),
        ensures
            optional(get(self.record(), Key::Network), |j: JsonView| json_text(j)) == Some(self.network),
    {
        broadcast use {lemma_get_empty, lemma_get_put, lemma_get_merge};

        let es = self.record();
    }

    /// The field `auth_user` is read back from the record.
    pub proof fn lemma_reads_auth_user(self)
        requires
            self.canonical(),
        ensures
            optional(get(self.record(), Key::AuthUser), |j: JsonView| json_text_listable(j)) == Some(self.auth_user),
    {
        broadcast use {lemma_get_empty, lemma_get_put, lemma_get_merge};

        let es = self.record();
        match self.auth_user {
            Some(x) => {
                lemma_text_listable(x);
            },
            None => {},
        }
    }

    /// The field `protocol` is read back from the record.
    pub proof fn lemma_reads_protocol(self)
        requires
            self.canonical(),
        ensures
            optional(get(self.record(), Key::Protocol), |j: JsonView| json_text_listable(j)) == Some(self.protocol),
    {
        broadcast use {lemma_get_empty, lemma_get_put, lemma_get_merge};

        let es = self.record();
        match self.protocol {
            Some(x) => {
                lemma_text_listable(x);
            },
            None => {},
        }
    }

    /// The field `domain` is read back from the record.
    pub proof fn lemma_reads_domain(self)
        requires
            self.canonical(),
        ensures
            optional(get(self.record(), Key::Domain), |j: JsonView| json_text_listable(j)) == Some(self.domain),
    {
        broadcast use {lemma_get_empty, lemma_get_put, lemma_get_merge};

        let es = self.record();
        match self.domain {
            Some(x) => {
                lemma_text_listable(x);
            },
            None => {},
        }
    }

    /// The field `domain_suffix` is read back from the record.
    pub proof fn lemma_reads_domain_suffix(self)
        requires
            self.canonical(),
        ensures
            optional(get(self.record(), Key::DomainSuffix), |j: JsonView| json_text_listable(j)) == Some(self.domain_suffix),
    {
        broadcast use {lemma_get_empty, lemma_get_put, lemma_get_merge};

        let es = self.record();
        match self.domain_suffix {
            Some(x) => {
                lemma_text_listable(x);
            },
            None => {},
        }
    }

    /// The field `domain_keyword` is read back from the record.
    pub proof fn lemma_reads_domain_keyword(self)
        requires
            self.canonical(),
        ensures
            optional(get(self.record(), Key::DomainKeyword), |j: JsonView| json_text_listable(j)) == Some(self.domain_keyword),
    {
        broadcast use {lemma_get_empty, lemma_get_put, lemma_get_merge};

        let es = self.record();
        match self.domain_keyword {
            Some(x) => {
                lemma_text_listable(x);
            },
            None => {},
        }
    }

    /// The field `domain_regex` is read back from the record.
    pub proof fn lemma_reads_domain_regex(self)
        requires
            self.canonical(),
        ensures
            optional(get(self.record(), Key::DomainRegex), |j: JsonView| json_text_listable(j)) == Some(self.domain_regex),
    {
        broadcast use {lemma_get_empty, lemma_get_put, lemma_get_merge};

        let es = self.record();
        match self.domain_regex {
            Some(x) => {
                lemma_text_listable(x);
            },
            None => {},
        }
    }

    /// The field `source_ip_cidr` is read back from the record.
    pub proof fn lemma_reads_source_ip_cidr(self)
        requires
            self.canonical(),
        ensures
            optional(get(self.record(), Key::SourceIpCidr), |j: JsonView| json_text_listable(j)) == Some(self.source_ip_cidr),
    {
        broadcast use {lemma_get_empty, lemma_get_put, lemma_get_merge};

        let es = self.record();
        match self.source_ip_cidr {
            Some(x) => {
                lemma_text_listable(x);
            },
            None => {},
        }
    }

    /// The field `source_ip_is_private` is read back from the record.
    pub proof fn lemma_reads_source_ip_is_private(self)
        requires
            self.canonical(),
        ensures
            optional(get(self.record(), Key::SourceIpIsPrivate), |j: JsonView| json_bool(j)) == Some(self.source_ip_is_private),
    {
        broadcast use {lemma_get_empty, lemma_get_put, lemma_get_merge};

        let es = self.record();
    }

    /// The field `source_port` is read back from the record.
    pub proof fn lemma_reads_source_port(self)
        requires
            self.canonical(),
        ensures
            optional(get(self.record(), Key::SourcePort), |j: JsonView| json_u16_listable(j)) == Some(self.source_port),
    {
        broadcast use {lemma_get_empty, lemma_get_put, lemma_get_merge};

        let es = self.record();
        match self.source_port {
            Some(x) => {
                lemma_u16_listable(x);
            },
            None => {},
        }
    }

    /// The field `source_port_range` is read back from the record.
    pub proof fn lemma_reads_source_port_range(self)
        requires
            self.canonical(),
        ensures
            optional(get(self.record(), Key::SourcePortRange), |j: JsonView| json_text_listable(j)) == Some(self.source_port_range),
    {
        broadcast use {lemma_get_empty, lemma_get_put, lemma_get_merge};

        let es = self.record();
        match self.source_port_range {
            Some(x) => {
                lemma_text_listable(x);
            },
            None => {},
        }
    }

    /// The field `port` is read back from the record.
    pub proof fn lemma_reads_port(self)
        requires
            self.canonical(),
        ensures
            optional(get(self.record(), Key::Port), |j: JsonView| json_u16_listable(j)) == Some(self.port),
    {
        broadcast use {lemma_get_empty, lemma_get_put, lemma_get_merge};

        let es = self.record();
        match self.port {
            Some(x) => {
                lemma_u16_listable(x);
            },
            None => {},
        }
    }

    /// The field `port_range` is read back from the record.
    pub proof fn lemma_reads_port_range(self)
        requires
            self.canonical(),
        ensures
            optional(get(self.record(), Key::PortRange), |j: JsonView| json_text_listable(j)) == Some(self.port_range),
    {
        broadcast use {lemma_get_empty, lemma_get_put, lemma_get_merge};

        let es = self.record();
        match self.port_range {
            Some(x) => {
                lemma_text_listable(x);
            },
            None => {},
        }
    }

    /// The field `process_name` is read back from the record.
    pub proof fn lemma_reads_process_name(self)
        requires
            self.canonical(),
        ensures
            optional(get(self.record(), Key::ProcessName), |j: JsonView| json_text_listable(j)) == Some(self.process_name),
    {
        broadcast use {lemma_get_empty, lemma_get_put, lemma_get_merge};

        let es = self.record();
        match self.process_name {
            Some(x) => {
                lemma_text_listable(x);
            },
            None => {},
        }
    }

    /// The field `process_path` is read back from the record.
    pub proof fn lemma_reads_process_path(self)
        requires
            self.canonical(),
        ensures
            optional(get(self.record(), Key::ProcessPath), |j: JsonView| json_text_listable(j)) == Some(self.process_path),
    {
        broadcast use {lemma_get_empty, lemma_get_put, lemma_get_merge};

        let es = self.record();
        match self.process_path {
            Some(x) => {
                lemma_text_listable(x);
            },
            None => {},
        }
    }

    /// The field `process_path_regex` is read back from the record.
    pub proof fn lemma_reads_process_path_regex(self)
        requires
            self.canonical(),
        ensures
            optional(get(self.record(), Key::ProcessPathRegex), |j: JsonView| json_text_listable(j)) == Some(self.process_path_regex),
    {
        broadcast use {lemma_get_empty, lemma_get_put, lemma_get_merge};

        let es = self.record();
        match self.process_path_regex {
            Some(x) => {
                lemma_text_listable(x);
            },
            None => {},
        }
    }

    /// The field `package_name` is read back from the record.
    pub proof fn lemma_reads_package_name(self)
        requires
            self.canonical(),
        ensures
            optional(get(self.record(), Key::PackageName), |j: JsonView| json_text_listable(j)) == Some(self.package_name),
    {
        broadcast use {lemma_get_empty, lemma_get_put, lemma_get_merge};

        let es = self.record();
        match self.package_name {
            Some(x) => {
                lemma_text_listable(x);
            },
            None => {},
        }
    }

    /// The field `user` is read back from the record.
    pub proof fn lemma_reads_user(self)
        requires
            self.canonical(),
        ensures
            optional(get(self.record(), Key::User), |j: JsonView| json_text_listable(j)) == Some(self.user),
    {
        broadcast use {lemma_get_empty, lemma_get_put, lemma_get_merge};

        let es = self.record();
        match self.user {
            Some(x) => {
                lemma_text_listable(x);
            },
            None => {},
        }
    }

    /// The field `user_id` is read back from the record.
    pub proof fn lemma_reads_user_id(self)
        requires
            self.canonical(),
        ensures
            optional(get(self.record(), Key::UserId), |j: JsonView| json_u32_listable(j)) == Some(self.user_id),
    {
        broadcast use {lemma_get_empty, lemma_get_put, lemma_get_merge};

        let es = self.record();
        match self.user_id {
            Some(x) => {
                lemma_u32_listable(x);
            },
            None => {},
        }
    }

    /// The field `clash_mode` is read back from the record.
    pub proof fn lemma_reads_clash_mode(self)
        requires
            self.canonical(),
        ensures
            optional(get(self.record(), Key::ClashMode), |j: JsonView| json_text(j)) == Some(self.clash_mode),
    {
        broadcast use {lemma_get_empty, lemma_get_put, lemma_get_merge};

        let es = self.record();
    }

    /// The field `network_type` is read back from the record.
    pub proof fn lemma_reads_network_type(self)
        requires
            self.canonical(),
        ensures
            optional(get(self.record(), Key::NetworkType), |j: JsonView| json_text_listable(j)) == Some(self.network_type),
    {
        broadcast use {lemma_get_empty, lemma_get_put, lemma_get_merge};

        let es = self.record();
        match self.network_type {
            Some(x) => {
                lemma_text_listable(x);
            },
            None => {},
        }
    }

    /// The field `network_is_expensive` is read back from the record.
    pub proof fn lemma_reads_network_is_expensive(self)
        requires
            self.canonical(),
        ensures
            optional(get(self.record(), Key::NetworkIsExpensive), |j: JsonView| json_bool(j)) == Some(self.network_is_expensive),
    {
        broadcast use {lemma_get_empty, lemma_get_put, lemma_get_merge};

        let es = self.record();
    }

    /// The field `network_is_constrained` is read back from the record.
    pub proof fn lemma_reads_network_is_constrained(self)
        requires
            self.canonical(),
        ensures
            optional(get(self.record(), Key::NetworkIsConstrained), |j: JsonView| json_bool(j)) == Some(self.network_is_constrained),
    {
        broadcast use {lemma_get_empty, lemma_get_put, lemma_get_merge};

        let es = self.record();
    }

    /// The field `interface_address` is read back from the record.
    pub proof fn lemma_reads_interface_address(self)
        requires
            self.canonical(),
        ensures
            optional(get(self.record(), Key::InterfaceAddress), |j: JsonView| json_text_list_table(j)) == Some(self.interface_address),
    {
        broadcast use {lemma_get_empty, lemma_get_put, lemma_get_merge};

        let es = self.record();
        match self.interface_address {
            Some(x) => {
                lemma_text_list_table(x);
            },
            None => {},
        }
    }

    /// The field `network_interface_address` is read back from the record.
    pub proof fn lemma_reads_network_interface_address(self)
        requires
            self.canonical(),
        ensures
            optional(get(self.record(), Key::NetworkInterfaceAddress), |j: JsonView| json_text_list_table(j)) == Some(self.network_interface_address),
    {
        broadcast use {lemma_get_empty, lemma_get_put, lemma_get_merge};

        let es = self.record();
        match self.network_interface_address {
            Some(x) => {
                lemma_text_list_table(x);
            },
            None => {},
        }
    }

    /// The field `default_interface_address` is read back from the record.
    pub proof fn lemma_reads_default_interface_address(self)
        requires
            self.canonical(),
        ensures
            optional(get(self.record(), Key::DefaultInterfaceAddress), |j: JsonView| json_text_list(j)) == Some(self.default_interface_address),
    {
        broadcast use {lemma_get_empty, lemma_get_put, lemma_get_merge};

        let es = self.record();
        match self.default_interface_address {
            Some(x) => {
                lemma_text_list(x);
            },
            None => {},
        }
    }

    /// The field `wifi_ssid` is read back from the record.
    pub proof fn lemma_reads_wifi_ssid(self)
        requires
            self.canonical(),
        ensures
            optional(get(self.record(), Key::WifiSsid), |j: JsonView| json_text_listable(j)) == Some(self.wifi_ssid),
    {
        broadcast use {lemma_get_empty, lemma_get_put, lemma_get_merge};

        let es = self.record();
        match self.wifi_ssid {
            Some(x) => {
                lemma_text_listable(x);
            },
            None => {},
        }
    }

    /// The field `wifi_bssid` is read back from the record.
    pub proof fn lemma_reads_wifi_bssid(self)
        requires
            self.canonical(),
        ensures
            optional(get(self.record(), Key::WifiBssid), |j: JsonView| json_text_listable(j)) == Some(self.wifi_bssid),
    {
        broadcast use {lemma_get_empty, lemma_get_put, lemma_get_merge};

        let es = self.record();
        match self.wifi_bssid {
            Some(x) => {
                lemma_text_listable(x);
            },
            None => {},
        }
    }

    /// The field `rule_set` is read back from the record.
    pub proof fn lemma_reads_rule_set(self)
        requires
            self.canonical(),
        ensures
            optional(get(self.record(), Key::RuleSet), |j: JsonView| json_text_listable(j)) == Some(self.rule_set),
    {
        broadcast use {lemma_get_empty, lemma_get_put, lemma_get_merge};

        let es = self.record();
        match self.rule_set {
            Some(x) => {
                lemma_text_listable(x);
            },
            None => {},
        }
    }

    /// The field `rule_set_ip_cidr_match_source` is read back from the record.
    pub proof fn lemma_reads_rule_set_ip_cidr_match_source(self)
        requires
            self.canonical(),
        ensures
            optional(get(self.record(), Key::RuleSetIpCidrMatchSource), |j: JsonView| json_bool(j)) == Some(self.rule_set_ip_cidr_match_source),
    {
        broadcast use {lemma_get_empty, lemma_get_put, lemma_get_merge};

        let es = self.record();
    }

    /// The field `invert` is read back from the record.
    pub proof fn lemma_reads_invert(self)
        requires
            self.canonical(),
        ensures
            optional(get(self.record(), Key::Invert), |j: JsonView| json_bool(j)) == Some(self.invert),
    {
        broadcast use {lemma_get_empty, lemma_get_put, lemma_get_merge};

        let es = self.record();
    }

    /// The field `action` is read back from the record.
    pub proof fn lemma_reads_action(self)
        requires
            self.canonical(),
        ensures
            DnsRuleActionView::from_group(self.record()) == Some(self.action),
    {
        broadcast use {lemma_get_empty, lemma_get_put, lemma_get_merge};

        let es = self.record();
        match self.action {
            Some(g) => {
                g.lemma_round_trip();
                assert(get(es, Key::Server) == get(g.record(), Key::Server));
                assert(get(es, Key::Strategy) == get(g.record(), Key::Strategy));
                assert(get(es, Key::DisableCache) == get(g.record(), Key::DisableCache));
                assert(get(es, Key::RewriteTtl) == get(g.record(), Key::RewriteTtl));
                assert(get(es, Key::ClientSubnet) == get(g.record(), Key::ClientSubnet));
                assert(get(es, Key::Method) == get(g.record(), Key::Method));
                assert(get(es, Key::NoDrop) == get(g.record(), Key::NoDrop));
                assert(get(es, Key::Rcode) == get(g.record(), Key::Rcode));
                assert(get(es, Key::Answer) == get(g.record(), Key::Answer));
                assert(get(es, Key::Ns) == get(g.record(), Key::Ns));
                assert(get(es, Key::Extra) == get(g.record(), Key::Extra));
                DnsRuleActionView::lemma_reads_own_keys(es, g.record());
            },
            None => {
                assert(get(es, Key::Server) is None);
                assert(get(es, Key::Strategy) is None);
                assert(get(es, Key::DisableCache) is None);
                assert(get(es, Key::RewriteTtl) is None);
                assert(get(es, Key::ClientSubnet) is None);
                assert(get(es, Key::Method) is None);
                assert(get(es, Key::NoDrop) is None);
                assert(get(es, Key::Rcode) is None);
                assert(get(es, Key::Answer) is None);
                assert(get(es, Key::Ns) is None);
                assert(get(es, Key::Extra) is None);
                DnsRuleActionView::lemma_no_group(es);
            },
        }
    }

    /// The field `ip_cidr` is read back from the record.
    pub proof fn lemma_reads_ip_cidr(self)
        requires
            self.canonical(),
        ensures
            optional(get(self.record(), Key::IpCidr), |j: JsonView| json_text_listable(j)) == Some(self.ip_cidr),
    {
        broadcast use {lemma_get_empty, lemma_get_put, lemma_get_merge};

        let es = self.record();
        match self.ip_cidr {
            Some(x) => {
                lemma_text_listable(x);
            },
            None => {},
        }
    }

    /// The field `ip_is_private` is read back from the record.
    pub proof fn lemma_reads_ip_is_private(self)
        requires
            self.canonical(),
        ensures
            optional(get(self.record(), Key::IpIsPrivate), |j: JsonView| json_bool(j)) == Some(self.ip_is_private),
    {
        broadcast use {lemma_get_empty, lemma_get_put, lemma_get_merge};

        let es = self.record();
    }

    /// The field `rule_set_ip_cidr_accept_empty` is read back from the record.
    pub proof fn lemma_reads_rule_set_ip_cidr_accept_empty(self)
        requires
            self.canonical(),
        ensures
            optional(get(self.record(), Key::RuleSetIpCidrAcceptEmpty), |j: JsonView| json_bool(j)) == Some(self.rule_set_ip_cidr_accept_empty),
    {
        broadcast use {lemma_get_empty, lemma_get_put, lemma_get_merge};

        let es = self.record();
    }

    /// The field `ip_accept_any` is read back from the record.
    pub proof fn lemma_reads_ip_accept_any(self)
        requires
            self.canonical(),
        ensures
            optional(get(self.record(), Key::IpAcceptAny), |j: JsonView| json_bool(j)) == Some(self.ip_accept_any),
    {
        broadcast use {lemma_get_empty, lemma_get_put, lemma_get_merge};

        let es = self.record();
    }

    /// The value is read back from the record that stands for it.
    pub proof fn lemma_round_trip(self)
        requires
            self.canonical(),
        ensures
            DnsDefaultRuleView::from_record(self.record()) == Some(self),
            DnsDefaultRuleView::from_json(self.to_json()) == Some(self),
    {
        self.lemma_reads_inbound();
        self.lemma_reads_ip_version();
        self.lemma_reads_query_type();
        self.lemma_reads_network();
        self.lemma_reads_auth_user();
        self.lemma_reads_protocol();
        self.lemma_reads_domain();
        self.lemma_reads_domain_suffix();
        self.lemma_reads_domain_keyword();
        self.lemma_reads_domain_regex();
        self.lemma_reads_source_ip_cidr();
        self.lemma_reads_source_ip_is_private();
        self.lemma_reads_source_port();
        self.lemma_reads_source_port_range();
        self.lemma_reads_port();
        self.lemma_reads_port_range();
        self.lemma_reads_process_name();
        self.lemma_reads_process_path();
        self.lemma_reads_process_path_regex();
        self.lemma_reads_package_name();
        self.lemma_reads_user();
        self.lemma_reads_user_id();
        self.lemma_reads_clash_mode();
        self.lemma_reads_network_type();
        self.lemma_reads_network_is_expensive();
        self.lemma_reads_network_is_constrained();
        self.lemma_reads_interface_address();
        self.lemma_reads_network_interface_address();
        self.lemma_reads_default_interface_address();
        self.lemma_reads_wifi_ssid();
        self.lemma_reads_wifi_bssid();
        self.lemma_reads_rule_set();
        self.lemma_reads_rule_set_ip_cidr_match_source();
        self.lemma_reads_invert();
        self.lemma_reads_action();
        self.lemma_reads_ip_cidr();
        self.lemma_reads_ip_is_private();
        self.lemma_reads_rule_set_ip_cidr_accept_empty();
        self.lemma_reads_ip_accept_any();
    }
}

impl DnsDefaultRule {
    /// The entries of the record that stands for the value, as
    /// `DnsDefaultRuleView::record` lists them.
    pub fn record(&self) -> (r: Vec<(Key, Json)>)
        ensures
            r.deep_view() == self@.record(),
    {
        let mut es: Vec<(Key, Json)> = no_entries();
        let ghost s = Seq::<(Key, JsonView)>::empty();
        let value = match &self.inbound {
            Some(x) => Some(write_text_listable(x)),
            None => None,
        };
        put_field(&mut es, Key::Inbound, value);
        let ghost s = put(s, Key::Inbound, present(self@.inbound, |x: ListableView<Seq<char>>| text_listable_json(x)));
        assert(es.deep_view() == s);
        let value = match &self.ip_version {
            Some(x) => Some(Json::Unsigned(*x as u64)),
            None => None,
        };
        put_field(&mut es, Key::IpVersion, value);
        let ghost s = put(s, Key::IpVersion, present(self@.ip_version, |x: u8| u8_json(x)));
        assert(es.deep_view() == s);
        let value = match &self.query_type {
            Some(x) => Some(write_query_type_listable(x)),
            None => None,
        };
        put_field(&mut es, Key::QueryType, value);
        let ghost s = put(s, Key::QueryType, present(self@.query_type, |x: ListableView<QueryTypeView>| query_type_listable_json(x)));
        assert(es.deep_view() == s);
        let value = match &self.network {
            Some(x) => Some(Json::Text(x.clone())),
            None => None,
        };
        put_field(&mut es, Key::Network, value);
        let ghost s = put(s, Key::Network, present(self@.network, |x: Seq<char>| text_json(x)));
        assert(es.deep_view() == s);
        let value = match &self.auth_user {
            Some(x) => Some(write_text_listable(x)),
            None => None,
        };
        put_field(&mut es, Key::AuthUser, value);
        let ghost s = put(s, Key::AuthUser, present(self@.auth_user, |x: ListableView<Seq<char>>| text_listable_json(x)));
        assert(es.deep_view() == s);
        let value = match &self.protocol {
            Some(x) => Some(write_text_listable(x)),
            None => None,
        };
        put_field(&mut es, Key::Protocol, value);
        let ghost s = put(s, Key::Protocol, present(self@.protocol, |x: ListableView<Seq<char>>| text_listable_json(x)));
        assert(es.deep_view() == s);
        let value = match &self.domain {
            Some(x) => Some(write_text_listable(x)),
            None => None,
        };
        put_field(&mut es, Key::Domain, value);
        let ghost s = put(s, Key::Domain, present(self@.domain, |x: ListableView<Seq<char>>| text_listable_json(x)));
        assert(es.deep_view() == s);
        let value = match &self.domain_suffix {
            Some(x) => Some(write_text_listable(x)),
            None => None,
        };
        put_field(&mut es, Key::DomainSuffix, value);
        let ghost s = put(s, Key::DomainSuffix, present(self@.domain_suffix, |x: ListableView<Seq<char>>| text_listable_json(x)));
        assert(es.deep_view() == s);
        let value = match &self.domain_keyword {
            Some(x) => Some(write_text_listable(x)),
            None => None,
        };
        put_field(&mut es, Key::DomainKeyword, value);
        let ghost s = put(s, Key::DomainKeyword, present(self@.domain_keyword, |x: ListableView<Seq<char>>| text_listable_json(x)));
        assert(es.deep_view() == s);
        let value = match &self.domain_regex {
            Some(x) => Some(write_text_listable(x)),
            None => None,
        };
        put_field(&mut es, Key::DomainRegex, value);
        let ghost s = put(s, Key::DomainRegex, present(self@.domain_regex, |x: ListableView<Seq<char>>| text_listable_json(x)));
        assert(es.deep_view() == s);
        let value = match &self.source_ip_cidr {
            Some(x) => Some(write_text_listable(x)),
            None => None,
        };
        put_field(&mut es, Key::SourceIpCidr, value);
        let ghost s = put(s, Key::SourceIpCidr, present(self@.source_ip_cidr, |x: ListableView<Seq<char>>| text_listable_json(x)));
        assert(es.deep_view() == s);
        let value = match &self.source_ip_is_private {
            Some(x) => Some(Json::Bool(*x)),
            None => None,
        };
        put_field(&mut es, Key::SourceIpIsPrivate, value);
        let ghost s = put(s, Key::SourceIpIsPrivate, present(self@.source_ip_is_private, |x: bool| bool_json(x)));
        assert(es.deep_view() == s);
        let value = match &self.source_port {
            Some(x) => Some(write_u16_listable(x)),
            None => None,
        };
        put_field(&mut es, Key::SourcePort, value);
        let ghost s = put(s, Key::SourcePort, present(self@.source_port, |x: ListableView<u16>| u16_listable_json(x)));
        assert(es.deep_view() == s);
        let value = match &self.source_port_range {
            Some(x) => Some(write_text_listable(x)),
            None => None,
        };
        put_field(&mut es, Key::SourcePortRange, value);
        let ghost s = put(s, Key::SourcePortRange, present(self@.source_port_range, |x: ListableView<Seq<char>>| text_listable_json(x)));
        assert(es.deep_view() == s);
        let value = match &self.port {
            Some(x) => Some(write_u16_listable(x)),
            None => None,
        };
        put_field(&mut es, Key::Port, value);
        let ghost s = put(s, Key::Port, present(self@.port, |x: ListableView<u16>| u16_listable_json(x)));
        assert(es.deep_view() == s);
        let value = match &self.port_range {
            Some(x) => Some(write_text_listable(x)),
            None => None,
        };
        put_field(&mut es, Key::PortRange, value);
        let ghost s = put(s, Key::PortRange, present(self@.port_range, |x: ListableView<Seq<char>>| text_listable_json(x)));
        assert(es.deep_view() == s);
        let value = match &self.process_name {
            Some(x) => Some(write_text_listable(x)),
            None => None,
        };
        put_field(&mut es, Key::ProcessName, value);
        let ghost s = put(s, Key::ProcessName, present(self@.process_name, |x: ListableView<Seq<char>>| text_listable_json(x)));
        assert(es.deep_view() == s);
        let value = match &self.process_path {
            Some(x) => Some(write_text_listable(x)),
            None => None,
        };
        put_field(&mut es, Key::ProcessPath, value);
        let ghost s = put(s, Key::ProcessPath, present(self@.process_path, |x: ListableView<Seq<char>>| text_listable_json(x)));
        assert(es.deep_view() == s);
        let value = match &self.process_path_regex {
            Some(x) => Some(write_text_listable(x)),
            None => None,
        };
        put_field(&mut es, Key::ProcessPathRegex, value);
        let ghost s = put(s, Key::ProcessPathRegex, present(self@.process_path_regex, |x: ListableView<Seq<char>>| text_listable_json(x)));
        assert(es.deep_view() == s);
        let value = match &self.package_name {
            Some(x) => Some(write_text_listable(x)),
            None => None,
        };
        put_field(&mut es, Key::PackageName, value);
        let ghost s = put(s, Key::PackageName, present(self@.package_name, |x: ListableView<Seq<char>>| text_listable_json(x)));
        assert(es.deep_view() == s);
        let value = match &self.user {
            Some(x) => Some(write_text_listable(x)),
            None => None,
        };
        put_field(&mut es, Key::User, value);
        let ghost s = put(s, Key::User, present(self@.user, |x: ListableView<Seq<char>>| text_listable_json(x)));
        assert(es.deep_view() == s);
        let value = match &self.user_id {
            Some(x) => Some(write_u32_listable(x)),
            None => None,
        };
        put_field(&mut es, Key::UserId, value);
        let ghost s = put(s, Key::UserId, present(self@.user_id, |x: ListableView<u32>| u32_listable_json(x)));
        assert(es.deep_view() == s);
        let value = match &self.clash_mode {
            Some(x) => Some(Json::Text(x.clone())),
            None => None,
        };
        put_field(&mut es, Key::ClashMode, value);
        let ghost s = put(s, Key::ClashMode, present(self@.clash_mode, |x: Seq<char>| text_json(x)));
        assert(es.deep_view() == s);
        let value = match &self.network_type {
            Some(x) => Some(write_text_listable(x)),
            None => None,
        };
        put_field(&mut es, Key::NetworkType, value);
        let ghost s = put(s, Key::NetworkType, present(self@.network_type, |x: ListableView<Seq<char>>| text_listable_json(x)));
        assert(es.deep_view() == s);
        let value = match &self.network_is_expensive {
            Some(x) => Some(Json::Bool(*x)),
            None => None,
        };
        put_field(&mut es, Key::NetworkIsExpensive, value);
        let ghost s = put(s, Key::NetworkIsExpensive, present(self@.network_is_expensive, |x: bool| bool_json(x)));
        assert(es.deep_view() == s);
        let value = match &self.network_is_constrained {
            Some(x) => Some(Json::Bool(*x)),
            None => None,
        };
        put_field(&mut es, Key::NetworkIsConstrained, value);
        let ghost s = put(s, Key::NetworkIsConstrained, present(self@.network_is_constrained, |x: bool| bool_json(x)));
        assert(es.deep_view() == s);
        let value = match &self.interface_address {
            Some(x) => Some(write_text_list_table(x)),
            None => None,
        };
        put_field(&mut es, Key::InterfaceAddress, value);
        let ghost s = put(s, Key::InterfaceAddress, present(self@.interface_address, |x: Seq<(Seq<char>, Seq<Seq<char>>)>| text_list_table_json(x)));
        assert(es.deep_view() == s);
        let value = match &self.network_interface_address {
            Some(x) => Some(write_text_list_table(x)),
            None => None,
        };
        put_field(&mut es, Key::NetworkInterfaceAddress, value);
        let ghost s = put(s, Key::NetworkInterfaceAddress, present(self@.network_interface_address, |x: Seq<(Seq<char>, Seq<Seq<char>>)>| text_list_table_json(x)));
        assert(es.deep_view() == s);
        let value = match &self.default_interface_address {
            Some(x) => Some(write_text_list(x)),
            None => None,
        };
        put_field(&mut es, Key::DefaultInterfaceAddress, value);
        let ghost s = put(s, Key::DefaultInterfaceAddress, present(self@.default_interface_address, |x: Seq<Seq<char>>| text_list_json(x)));
        assert(es.deep_view() == s);
        let value = match &self.wifi_ssid {
            Some(x) => Some(write_text_listable(x)),
            None => None,
        };
        put_field(&mut es, Key::WifiSsid, value);
        let ghost s = put(s, Key::WifiSsid, present(self@.wifi_ssid, |x: ListableView<Seq<char>>| text_listable_json(x)));
        assert(es.deep_view() == s);
        let value = match &self.wifi_bssid {
            Some(x) => Some(write_text_listable(x)),
            None => None,
        };
        put_field(&mut es, Key::WifiBssid, value);
        let ghost s = put(s, Key::WifiBssid, present(self@.wifi_bssid, |x: ListableView<Seq<char>>| text_listable_json(x)));
        assert(es.deep_view() == s);
        let value = match &self.rule_set {
            Some(x) => Some(write_text_listable(x)),
            None => None,
        };
        put_field(&mut es, Key::RuleSet, value);
        let ghost s = put(s, Key::RuleSet, present(self@.rule_set, |x: ListableView<Seq<char>>| text_listable_json(x)));
        assert(es.deep_view() == s);
        let value = match &self.rule_set_ip_cidr_match_source {
            Some(x) => Some(Json::Bool(*x)),
            None => None,
        };
        put_field(&mut es, Key::RuleSetIpCidrMatchSource, value);
        let ghost s = put(s, Key::RuleSetIpCidrMatchSource, present(self@.rule_set_ip_cidr_match_source, |x: bool| bool_json(x)));
        assert(es.deep_view() == s);
        let value = match &self.invert {
            Some(x) => Some(Json::Bool(*x)),
            None => None,
        };
        put_field(&mut es, Key::Invert, value);
        let ghost s = put(s, Key::Invert, present(self@.invert, |x: bool| bool_json(x)));
        assert(es.deep_view() == s);
        let group = match &self.action {
            Some(g) => g.record(),
            None => no_entries(),
        };
        put_group(&mut es, group);
        let ghost s = merge(
            s,
            match self@.action {
                Some(g) => g.record(),
                None => Seq::empty(),
            },
        );
        assert(es.deep_view() == s);
        let value = match &self.ip_cidr {
            Some(x) => Some(write_text_listable(x)),
            None => None,
        };
        put_field(&mut es, Key::IpCidr, value);
        let ghost s = put(s, Key::IpCidr, present(self@.ip_cidr, |x: ListableView<Seq<char>>| text_listable_json(x)));
        assert(es.deep_view() == s);
        let value = match &self.ip_is_private {
            Some(x) => Some(Json::Bool(*x)),
            None => None,
        };
        put_field(&mut es, Key::IpIsPrivate, value);
        let ghost s = put(s, Key::IpIsPrivate, present(self@.ip_is_private, |x: bool| bool_json(x)));
        assert(es.deep_view() == s);
        let value = match &self.rule_set_ip_cidr_accept_empty {
            Some(x) => Some(Json::Bool(*x)),
            None => None,
        };
        put_field(&mut es, Key::RuleSetIpCidrAcceptEmpty, value);
        let ghost s = put(s, Key::RuleSetIpCidrAcceptEmpty, present(self@.rule_set_ip_cidr_accept_empty, |x: bool| bool_json(x)));
        assert(es.deep_view() == s);
        let value = match &self.ip_accept_any {
            Some(x) => Some(Json::Bool(*x)),
            None => None,
        };
        put_field(&mut es, Key::IpAcceptAny, value);
        let ghost s = put(s, Key::IpAcceptAny, present(self@.ip_accept_any, |x: bool| bool_json(x)));
        assert(es.deep_view() == s);
        es
    }

    /// The record that stands for the value.
    pub fn to_json(&self) -> (r: Json)
        ensures
            r@ == self@.to_json(),
    {
        let r = Json::Record(self.record());
        proof {
            lemma_json_view(r);
        }
        r
    }

    /// Reads the value from the entries of an object, as
    /// `DnsDefaultRuleView::from_record` says.
    #[verifier::rlimit(100)]
    pub fn from_record(es: &Vec<(Key, &Json)>) -> (r: Result<DnsDefaultRule, SchemaMismatch>)
        ensures
            match r {
                Ok(x) => DnsDefaultRuleView::from_record(es.deep_view()) == Some(x@),
                Err(_) => DnsDefaultRuleView::from_record(es.deep_view()) is None,
            },
    {
        let inbound = match get_field(es, Key::Inbound) {
            Some(j) => if is_null(j) {
                None
            } else {
                match read_text_listable(j) {
                    Ok(x) => Some(x),
                    Err(e) => {
                        return Err(e);
                    },
                }
            },
            None => None,
        };
        assert(optional(get(es.deep_view(), Key::Inbound), |j: JsonView| json_text_listable(j)) == Some(inbound.deep_view()));
        let ip_version = match get_field(es, Key::IpVersion) {
            Some(j) => if is_null(j) {
                None
            } else {
                match read_u8(j) {
                    Ok(x) => Some(x),
                    Err(e) => {
                        return Err(e);
                    },
                }
            },
            None => None,
        };
        assert(optional(get(es.deep_view(), Key::IpVersion), |j: JsonView| json_u8(j)) == Some(ip_version.deep_view()));
        let query_type = match get_field(es, Key::QueryType) {
            Some(j) => if is_null(j) {
                None
            } else {
                match read_query_type_listable(j) {
                    Ok(x) => Some(x),
                    Err(e) => {
                        return Err(e);
                    },
                }
            },
            None => None,
        };
        assert(optional(get(es.deep_view(), Key::QueryType), |j: JsonView| json_query_type_listable(j)) == Some(query_type.deep_view()));
        let network = match get_field(es, Key::Network) {
            Some(j) => if is_null(j) {
                None
            } else {
                match read_text(j) {
                    Ok(x) => Some(x),
                    Err(e) => {
                        return Err(e);
                    },
                }
            },
            None => None,
        };
        assert(optional(get(es.deep_view(), Key::Network), |j: JsonView| json_text(j)) == Some(network.deep_view()));
        let auth_user = match get_field(es, Key::AuthUser) {
            Some(j) => if is_null(j) {
                None
            } else {
                match read_text_listable(j) {
                    Ok(x) => Some(x),
                    Err(e) => {
                        return Err(e);
                    },
                }
            },
            None => None,
        };
        assert(optional(get(es.deep_view(), Key::AuthUser), |j: JsonView| json_text_listable(j)) == Some(auth_user.deep_view()));
        let protocol = match get_field(es, Key::Protocol) {
            Some(j) => if is_null(j) {
                None
            } else {
                match read_text_listable(j) {
                    Ok(x) => Some(x),
                    Err(e) => {
                        return Err(e);
                    },
                }
            },
            None => None,
        };
        assert(optional(get(es.deep_view(), Key::Protocol), |j: JsonView| json_text_listable(j)) == Some(protocol.deep_view()));
        let domain = match get_field(es, Key::Domain) {
            Some(j) => if is_null(j) {
                None
            } else {
                match read_text_listable(j) {
                    Ok(x) => Some(x),
                    Err(e) => {
                        return Err(e);
                    },
                }
            },
            None => None,
        };
        assert(optional(get(es.deep_view(), Key::Domain), |j: JsonView| json_text_listable(j)) == Some(domain.deep_view()));
        let domain_suffix = match get_field(es, Key::DomainSuffix) {
            Some(j) => if is_null(j) {
                None
            } else {
                match read_text_listable(j) {
                    Ok(x) => Some(x),
                    Err(e) => {
                        return Err(e);
                    },
                }
            },
            None => None,
        };
        assert(optional(get(es.deep_view(), Key::DomainSuffix), |j: JsonView| json_text_listable(j)) == Some(domain_suffix.deep_view()));
        let domain_keyword = match get_field(es, Key::DomainKeyword) {
            Some(j) => if is_null(j) {
                None
            } else {
                match read_text_listable(j) {
                    Ok(x) => Some(x),
                    Err(e) => {
                        return Err(e);
                    },
                }
            },
            None => None,
        };
        assert(optional(get(es.deep_view(), Key::DomainKeyword), |j: JsonView| json_text_listable(j)) == Some(domain_keyword.deep_view()));
        let domain_regex = match get_field(es, Key::DomainRegex) {
            Some(j) => if is_null(j) {
                None
            } else {
                match read_text_listable(j) {
                    Ok(x) => Some(x),
                    Err(e) => {
                        return Err(e);
                    },
                }
            },
            None => None,
        };
        assert(optional(get(es.deep_view(), Key::DomainRegex), |j: JsonView| json_text_listable(j)) == Some(domain_regex.deep_view()));
        let source_ip_cidr = match get_field(es, Key::SourceIpCidr) {
            Some(j) => if is_null(j) {
                None
            } else {
                match read_text_listable(j) {
                    Ok(x) => Some(x),
                    Err(e) => {
                        return Err(e);
                    },
                }
            },
            None => None,
        };
        assert(optional(get(es.deep_view(), Key::SourceIpCidr), |j: JsonView| json_text_listable(j)) == Some(source_ip_cidr.deep_view()));
        let source_ip_is_private = match get_field(es, Key::SourceIpIsPrivate) {
            Some(j) => if is_null(j) {
                None
            } else {
                match read_bool(j) {
                    Ok(x) => Some(x),
                    Err(e) => {
                        return Err(e);
                    },
                }
            },
            None => None,
        };
        assert(optional(get(es.deep_view(), Key::SourceIpIsPrivate), |j: JsonView| json_bool(j)) == Some(source_ip_is_private.deep_view()));
        let source_port = match get_field(es, Key::SourcePort) {
            Some(j) => if is_null(j) {
                None
            } else {
                match read_u16_listable(j) {
                    Ok(x) => Some(x),
                    Err(e) => {
                        return Err(e);
                    },
                }
            },
            None => None,
        };
        assert(optional(get(es.deep_view(), Key::SourcePort), |j: JsonView| json_u16_listable(j)) == Some(source_port.deep_view()));
        let source_port_range = match get_field(es, Key::SourcePortRange) {
            Some(j) => if is_null(j) {
                None
            } else {
                match read_text_listable(j) {
                    Ok(x) => Some(x),
                    Err(e) => {
                        return Err(e);
                    },
                }
            },
            None => None,
        };
        assert(optional(get(es.deep_view(), Key::SourcePortRange), |j: JsonView| json_text_listable(j)) == Some(source_port_range.deep_view()));
        let port = match get_field(es, Key::Port) {
            Some(j) => if is_null(j) {
                None
            } else {
                match read_u16_listable(j) {
                    Ok(x) => Some(x),
                    Err(e) => {
                        return Err(e);
                    },
                }
            },
            None => None,
        };
        assert(optional(get(es.deep_view(), Key::Port), |j: JsonView| json_u16_listable(j)) == Some(port.deep_view()));
        let port_range = match get_field(es, Key::PortRange) {
            Some(j) => if is_null(j) {
                None
            } else {
                match read_text_listable(j) {
                    Ok(x) => Some(x),
                    Err(e) => {
                        return Err(e);
                    },
                }
            },
            None => None,
        };
        assert(optional(get(es.deep_view(), Key::PortRange), |j: JsonView| json_text_listable(j)) == Some(port_range.deep_view()));
        let process_name = match get_field(es, Key::ProcessName) {
            Some(j) => if is_null(j) {
                None
            } else {
                match read_text_listable(j) {
                    Ok(x) => Some(x),
                    Err(e) => {
                        return Err(e);
                    },
                }
            },
            None => None,
        };
        assert(optional(get(es.deep_view(), Key::ProcessName), |j: JsonView| json_text_listable(j)) == Some(process_name.deep_view()));
        let process_path = match get_field(es, Key::ProcessPath) {
            Some(j) => if is_null(j) {
                None
            } else {
                match read_text_listable(j) {
                    Ok(x) => Some(x),
                    Err(e) => {
                        return Err(e);
                    },
                }
            },
            None => None,
        };
        assert(optional(get(es.deep_view(), Key::ProcessPath), |j: JsonView| json_text_listable(j)) == Some(process_path.deep_view()));
        let process_path_regex = match get_field(es, Key::ProcessPathRegex) {
            Some(j) => if is_null(j) {
                None
            } else {
                match read_text_listable(j) {
                    Ok(x) => Some(x),
                    Err(e) => {
                        return Err(e);
                    },
                }
            },
            None => None,
        };
        assert(optional(get(es.deep_view(), Key::ProcessPathRegex), |j: JsonView| json_text_listable(j)) == Some(process_path_regex.deep_view()));
        let package_name = match get_field(es, Key::PackageName) {
            Some(j) => if is_null(j) {
                None
            } else {
                match read_text_listable(j) {
                    Ok(x) => Some(x),
                    Err(e) => {
                        return Err(e);
                    },
                }
            },
            None => None,
        };
        assert(optional(get(es.deep_view(), Key::PackageName), |j: JsonView| json_text_listable(j)) == Some(package_name.deep_view()));
        let user = match get_field(es, Key::User) {
            Some(j) => if is_null(j) {
                None
            } else {
                match read_text_listable(j) {
                    Ok(x) => Some(x),
                    Err(e) => {
                        return Err(e);
                    },
                }
            },
            None => None,
        };
        assert(optional(get(es.deep_view(), Key::User), |j: JsonView| json_text_listable(j)) == Some(user.deep_view()));
        let user_id = match get_field(es, Key::UserId) {
            Some(j) => if is_null(j) {
                None
            } else {
                match read_u32_listable(j) {
                    Ok(x) => Some(x),
                    Err(e) => {
                        return Err(e);
                    },
                }
            },
            None => None,
        };
        assert(optional(get(es.deep_view(), Key::UserId), |j: JsonView| json_u32_listable(j)) == Some(user_id.deep_view()));
        let clash_mode = match get_field(es, Key::ClashMode) {
            Some(j) => if is_null(j) {
                None
            } else {
                match read_text(j) {
                    Ok(x) => Some(x),
                    Err(e) => {
                        return Err(e);
                    },
                }
            },
            None => None,
        };
        assert(optional(get(es.deep_view(), Key::ClashMode), |j: JsonView| json_text(j)) == Some(clash_mode.deep_view()));
        let network_type = match get_field(es, Key::NetworkType) {
            Some(j) => if is_null(j) {
                None
            } else {
                match read_text_listable(j) {
                    Ok(x) => Some(x),
                    Err(e) => {
                        return Err(e);
                    },
                }
            },
            None => None,
        };
        assert(optional(get(es.deep_view(), Key::NetworkType), |j: JsonView| json_text_listable(j)) == Some(network_type.deep_view()));
        let network_is_expensive = match get_field(es, Key::NetworkIsExpensive) {
            Some(j) => if is_null(j) {
                None
            } else {
                match read_bool(j) {
                    Ok(x) => Some(x),
                    Err(e) => {
                        return Err(e);
                    },
                }
            },
            None => None,
        };
        assert(optional(get(es.deep_view(), Key::NetworkIsExpensive), |j: JsonView| json_bool(j)) == Some(network_is_expensive.deep_view()));
        let network_is_constrained = match get_field(es, Key::NetworkIsConstrained) {
            Some(j) => if is_null(j) {
                None
            } else {
                match read_bool(j) {
                    Ok(x) => Some(x),
                    Err(e) => {
                        return Err(e);
                    },
                }
            },
            None => None,
        };
        assert(optional(get(es.deep_view(), Key::NetworkIsConstrained), |j: JsonView| json_bool(j)) == Some(network_is_constrained.deep_view()));
        let interface_address = match get_field(es, Key::InterfaceAddress) {
            Some(j) => if is_null(j) {
                None
            } else {
                match read_text_list_table(j) {
                    Ok(x) => Some(x),
                    Err(e) => {
                        return Err(e);
                    },
                }
            },
            None => None,
        };
        assert(optional(get(es.deep_view(), Key::InterfaceAddress), |j: JsonView| json_text_list_table(j)) == Some(interface_address.deep_view()));
        let network_interface_address = match get_field(es, Key::NetworkInterfaceAddress) {
            Some(j) => if is_null(j) {
                None
            } else {
                match read_text_list_table(j) {
                    Ok(x) => Some(x),
                    Err(e) => {
                        return Err(e);
                    },
                }
            },
            None => None,
        };
        assert(optional(get(es.deep_view(), Key::NetworkInterfaceAddress), |j: JsonView| json_text_list_table(j)) == Some(network_interface_address.deep_view()));
        let default_interface_address = match get_field(es, Key::DefaultInterfaceAddress) {
            Some(j) => if is_null(j) {
                None
            } else {
                match read_text_list(j) {
                    Ok(x) => Some(x),
                    Err(e) => {
                        return Err(e);
                    },
                }
            },
            None => None,
        };
        assert(optional(get(es.deep_view(), Key::DefaultInterfaceAddress), |j: JsonView| json_text_list(j)) == Some(default_interface_address.deep_view()));
        let wifi_ssid = match get_field(es, Key::WifiSsid) {
            Some(j) => if is_null(j) {
                None
            } else {
                match read_text_listable(j) {
                    Ok(x) => Some(x),
                    Err(e) => {
                        return Err(e);
                    },
                }
            },
            None => None,
        };
        assert(optional(get(es.deep_view(), Key::WifiSsid), |j: JsonView| json_text_listable(j)) == Some(wifi_ssid.deep_view()));
        let wifi_bssid = match get_field(es, Key::WifiBssid) {
            Some(j) => if is_null(j) {
                None
            } else {
                match read_text_listable(j) {
                    Ok(x) => Some(x),
                    Err(e) => {
                        return Err(e);
                    },
                }
            },
            None => None,
        };
        assert(optional(get(es.deep_view(), Key::WifiBssid), |j: JsonView| json_text_listable(j)) == Some(wifi_bssid.deep_view()));
        let rule_set = match get_field(es, Key::RuleSet) {
            Some(j) => if is_null(j) {
                None
            } else {
                match read_text_listable(j) {
                    Ok(x) => Some(x),
                    Err(e) => {
                        return Err(e);
                    },
                }
            },
            None => None,
        };
        assert(optional(get(es.deep_view(), Key::RuleSet), |j: JsonView| json_text_listable(j)) == Some(rule_set.deep_view()));
        let rule_set_ip_cidr_match_source = match get_field(es, Key::RuleSetIpCidrMatchSource) {
            Some(j) => if is_null(j) {
                None
            } else {
                match read_bool(j) {
                    Ok(x) => Some(x),
                    Err(e) => {
                        return Err(e);
                    },
                }
            },
            None => None,
        };
        assert(optional(get(es.deep_view(), Key::RuleSetIpCidrMatchSource), |j: JsonView| json_bool(j)) == Some(rule_set_ip_cidr_match_source.deep_view()));
        let invert = match get_field(es, Key::Invert) {
            Some(j) => if is_null(j) {
                None
            } else {
                match read_bool(j) {
                    Ok(x) => Some(x),
                    Err(e) => {
                        return Err(e);
                    },
                }
            },
            None => None,
        };
        assert(optional(get(es.deep_view(), Key::Invert), |j: JsonView| json_bool(j)) == Some(invert.deep_view()));
        let action = match DnsRuleAction::from_group(es) {
            Ok(g) => g,
            Err(e) => {
                return Err(e);
            },
        };
        let ip_cidr = match get_field(es, Key::IpCidr) {
            Some(j) => if is_null(j) {
                None
            } else {
                match read_text_listable(j) {
                    Ok(x) => Some(x),
                    Err(e) => {
                        return Err(e);
                    },
                }
            },
            None => None,
        };
        assert(optional(get(es.deep_view(), Key::IpCidr), |j: JsonView| json_text_listable(j)) == Some(ip_cidr.deep_view()));
        let ip_is_private = match get_field(es, Key::IpIsPrivate) {
            Some(j) => if is_null(j) {
                None
            } else {
                match read_bool(j) {
                    Ok(x) => Some(x),
                    Err(e) => {
                        return Err(e);
                    },
                }
            },
            None => None,
        };
        assert(optional(get(es.deep_view(), Key::IpIsPrivate), |j: JsonView| json_bool(j)) == Some(ip_is_private.deep_view()));
        let rule_set_ip_cidr_accept_empty = match get_field(es, Key::RuleSetIpCidrAcceptEmpty) {
            Some(j) => if is_null(j) {
                None
            } else {
                match read_bool(j) {
                    Ok(x) => Some(x),
                    Err(e) => {
                        return Err(e);
                    },
                }
            },
            None => None,
        };
        assert(optional(get(es.deep_view(), Key::RuleSetIpCidrAcceptEmpty), |j: JsonView| json_bool(j)) == Some(rule_set_ip_cidr_accept_empty.deep_view()));
        let ip_accept_any = match get_field(es, Key::IpAcceptAny) {
            Some(j) => if is_null(j) {
                None
            } else {
                match read_bool(j) {
                    Ok(x) => Some(x),
                    Err(e) => {
                        return Err(e);
                    },
                }
            },
            None => None,
        };
        assert(optional(get(es.deep_view(), Key::IpAcceptAny), |j: JsonView| json_bool(j)) == Some(ip_accept_any.deep_view()));
        Ok(DnsDefaultRule { inbound, ip_version, query_type, network, auth_user, protocol, domain, domain_suffix, domain_keyword, domain_regex, source_ip_cidr, source_ip_is_private, source_port, source_port_range, port, port_range, process_name, process_path, process_path_regex, package_name, user, user_id, clash_mode, network_type, network_is_expensive, network_is_constrained, interface_address, network_interface_address, default_interface_address, wifi_ssid, wifi_bssid, rule_set, rule_set_ip_cidr_match_source, invert, action, ip_cidr, ip_is_private, rule_set_ip_cidr_accept_empty, ip_accept_any })
    }

    /// Reads the value from an object, as `DnsDefaultRuleView::from_json` says.
    pub fn from_json(j: &Json) -> (r: Result<DnsDefaultRule, SchemaMismatch>)
        ensures
            match r {
                Ok(x) => DnsDefaultRuleView::from_json(j@) == Some(x@),
                Err(_) => DnsDefaultRuleView::from_json(j@) is None,
            },
    {
        match read_entries(j) {
            Ok(es) => DnsDefaultRule::from_record(&es),
            Err(e) => Err(e),
        }
    }
}

impl DnsDefaultRuleView {
    /// The record holds nothing under the key `type`.
    pub proof fn lemma_has_no_type(self)
        ensures
            get(self.record(), Key::Type) is None,
    {
        broadcast use {lemma_get_empty, lemma_get_put, lemma_get_merge};

        match self.action {
            Some(g) => {
                g.lemma_has_no_type();
            },
            None => {},
        }
    }
}

/// A DNS rule: by properties, or a combination of rules.
#[derive(Debug, PartialEq)]
pub enum DnsRule {
    /// A rule that matches by the properties of the query.
    Default(DnsDefaultRule),
    /// A rule that combines other rules.
    Logical(DnsLogicalRule),
}

/// A DNS rule that combines other rules with `and` or `or`.
#[derive(Debug, PartialEq)]
pub struct DnsLogicalRule {
    pub rule_type: String,
    pub mode: String,
    pub rules: Vec<DnsRule>,
    pub invert: Option<bool>,
    pub action: DnsRuleAction,
}

/// What a [`DnsRule`] holds, with every text as its characters.
pub enum DnsRuleView {
    Default(DnsDefaultRuleView),
    Logical(DnsLogicalRuleView),
}

/// What a [`DnsLogicalRule`] holds, with every text as its characters.
pub struct DnsLogicalRuleView {
    pub rule_type: Seq<char>,
    pub mode: Seq<char>,
    pub rules: Seq<DnsRuleView>,
    pub invert: Option<bool>,
    pub action: DnsRuleActionView,
}

/// The view of a DNS rule, through the rules that it combines.
pub open spec fn dns_rule_view(r: DnsRule) -> DnsRuleView
    decreases r,
{
    match r {
        DnsRule::Default(d) => DnsRuleView::Default(d.deep_view()),
        DnsRule::Logical(l) => DnsRuleView::Logical(
            DnsLogicalRuleView {
                rule_type: l.rule_type.deep_view(),
                mode: l.mode.deep_view(),
                rules: Seq::new(
                    l.rules@.len(),
                    |i: int|
                        if 0 <= i < l.rules@.len() {
                            dns_rule_view(l.rules@[i])
                        } else {
                            arbitrary()
                        },
                ),
                invert: l.invert,
                action: l.action.deep_view(),
            },
        ),
    }
}

impl DeepView for DnsRule {
    type V = DnsRuleView;

    open spec fn deep_view(&self) -> DnsRuleView {
        dns_rule_view(*self)
    }
}

impl View for DnsRule {
    type V = DnsRuleView;

    open spec fn view(&self) -> DnsRuleView {
        self.deep_view()
    }
}

impl DeepView for DnsLogicalRule {
    type V = DnsLogicalRuleView;

    open spec fn deep_view(&self) -> DnsLogicalRuleView {
        dns_rule_view(DnsRule::Logical(*self))->Logical_0
    }
}

impl View for DnsLogicalRule {
    type V = DnsLogicalRuleView;

    open spec fn view(&self) -> DnsLogicalRuleView {
        self.deep_view()
    }
}

/// The rules of a logical rule are viewed one by one.
pub proof fn lemma_dns_logical_rules(l: DnsLogicalRule)
    ensures
        l@.rules == l.rules.deep_view(),
{
    assert(l@.rules =~= l.rules.deep_view());
}

/// The value that stands for a DNS rule: the record of what it holds.
pub open spec fn dns_rule_json(r: DnsRuleView) -> JsonView
    decreases r,
{
    match r {
        DnsRuleView::Default(d) => d.to_json(),
        DnsRuleView::Logical(l) => JsonView::Record(dns_logical_rule_record(l)),
    }
}

/// The entries of the record that stands for a DNS rule that combines others.
pub open spec fn dns_logical_rule_record(l: DnsLogicalRuleView) -> Entries
    decreases l,
{
    let es = Seq::empty();
    let es = put(es, Key::Type, Some(text_json(l.rule_type)));
    let es = put(es, Key::Mode, Some(text_json(l.mode)));
    let es = put(es, Key::Rules, Some(nested_dns_rule_list_json(l.rules)));
    let es = put(es, Key::Invert, present(l.invert, |x: bool| bool_json(x)));
    let es = merge(es, l.action.record());
    es
}

/// The list that stands for the DNS rules that a DNS rule combines.
pub open spec fn nested_dns_rule_list_json(s: Seq<DnsRuleView>) -> JsonView
    decreases s,
{
    JsonView::List(
        Seq::new(
            s.len(),
            |i: int|
                if 0 <= i < s.len() {
                    dns_rule_json(s[i])
                } else {
                    JsonView::Null
                },
        ),
    )
}

/// The DNS rule that an object stands for, read no deeper than `depth` levels of
/// DNS rules within DNS rules: one that combines others where its type is `logical`,
/// else one that matches by properties.
pub open spec fn json_dns_rule(j: JsonView, depth: nat) -> Option<DnsRuleView>
    decreases depth, 0nat,
{
    match entries_of(j) {
        Some(es) => if get(es, Key::Type) == Some(JsonView::Text("logical"@)) {
            if depth == 0 {
                None
            } else {
                match dns_logical_rule_from_record(es, (depth - 1) as nat) {
                    Some(l) => Some(DnsRuleView::Logical(l)),
                    None => None,
                }
            }
        } else {
            match DnsDefaultRuleView::from_record(es) {
                Some(d) => Some(DnsRuleView::Default(d)),
                None => None,
            }
        },
        None => None,
    }
}

/// The DNS rule that combines others, read from the entries of an object.
pub open spec fn dns_logical_rule_from_record(es: Entries, depth: nat) -> Option<DnsLogicalRuleView>
    decreases depth, 2nat,
{
    let rule_type = required(get(es, Key::Type), |j: JsonView| json_text(j));
    let mode = required(get(es, Key::Mode), |j: JsonView| json_text(j));
    let rules = match get(es, Key::Rules) {
        None => None,
        Some(j) => json_nested_dns_rule_list(j, depth),
    };
    let invert = optional(get(es, Key::Invert), |j: JsonView| json_bool(j));
    let action = match DnsRuleActionView::from_group(es) {
        Some(Some(g)) => Some(g),
        _ => None,
    };
    if rule_type is Some
        && mode is Some
        && rules is Some
        && invert is Some
        && action is Some {
        Some(
            DnsLogicalRuleView {
                rule_type: rule_type->0,
                mode: mode->0,
                rules: rules->0,
                invert: invert->0,
                action: action->0,
            },
        )
    } else {
        None
    }
}

/// The DNS rules that a list stands for, if each of its values stands for one.
pub open spec fn json_nested_dns_rule_list(j: JsonView, depth: nat) -> Option<Seq<DnsRuleView>>
    decreases depth, 1nat,
{
    match j {
        JsonView::List(js) => if forall|i: int|
            0 <= i < js.len() ==> json_dns_rule(#[trigger] js[i], depth) is Some {
            Some(Seq::new(js.len(), |i: int| json_dns_rule(js[i], depth)->0))
        } else {
            None
        },
        _ => None,
    }
}

/// Whether a DNS rule is written in a form from which it is read back, no
/// deeper than `depth` levels: what it holds is, and one that combines
/// others says so in its type.
pub open spec fn dns_rule_canonical(r: DnsRuleView, depth: nat) -> bool
    decreases depth, 0nat,
{
    match r {
        DnsRuleView::Default(d) => d.canonical(),
        DnsRuleView::Logical(l) => depth > 0 && dns_logical_rule_canonical(l, (depth - 1) as nat),
    }
}

/// Whether a DNS rule that combines others is written in a form from which it
/// is read back.
pub open spec fn dns_logical_rule_canonical(l: DnsLogicalRuleView, depth: nat) -> bool
    decreases depth, 2nat,
{
    &&& l.rule_type == "logical"@
    &&& nested_dns_rule_list_canonical(l.rules, depth)
    &&& l.action.canonical()
}

/// Whether each of the DNS rules is written in a form from which it is read
/// back.
pub open spec fn nested_dns_rule_list_canonical(s: Seq<DnsRuleView>, depth: nat) -> bool
    decreases depth, 1nat,
{
    forall|i: int| 0 <= i < s.len() ==> dns_rule_canonical(#[trigger] s[i], depth)
}

/// A DNS rule is read back from the value that stands for it.
pub proof fn lemma_dns_rule(r: DnsRuleView, depth: nat)
    requires
        dns_rule_canonical(r, depth),
    ensures
        json_dns_rule(dns_rule_json(r), depth) == Some(r),
    decreases depth, 0nat,
{
    broadcast use {lemma_get_empty, lemma_get_put, lemma_get_merge};

    match r {
        DnsRuleView::Default(d) => {
            d.lemma_round_trip();
            d.lemma_has_no_type();
        },
        DnsRuleView::Logical(l) => {
            lemma_dns_logical_rule(l, (depth - 1) as nat);
            lemma_dns_logical_rule_type(l);
        },
    }
}

/// The record of a DNS rule that combines others holds its type.
pub proof fn lemma_dns_logical_rule_type(l: DnsLogicalRuleView)
    ensures
        get(dns_logical_rule_record(l), Key::Type) == Some(text_json(l.rule_type)),
{
    broadcast use {lemma_get_empty, lemma_get_put, lemma_get_merge};

    l.action.lemma_has_no_type();
}

/// A DNS rule that combines others is read back from the entries that stand
/// for it.
pub proof fn lemma_dns_logical_rule(l: DnsLogicalRuleView, depth: nat)
    requires
        dns_logical_rule_canonical(l, depth),
    ensures
        dns_logical_rule_from_record(dns_logical_rule_record(l), depth) == Some(l),
    decreases depth, 2nat,
{
    broadcast use {lemma_get_empty, lemma_get_put, lemma_get_merge};

    let es = dns_logical_rule_record(l);
    assert(required(get(es, Key::Type), |j: JsonView| json_text(j)) == Some(l.rule_type));
    assert(required(get(es, Key::Mode), |j: JsonView| json_text(j)) == Some(l.mode));
    lemma_nested_dns_rule_list(l.rules, depth);
    assert(get(es, Key::Rules) == Some(nested_dns_rule_list_json(l.rules)));
    assert(optional(get(es, Key::Invert), |j: JsonView| json_bool(j)) == Some(l.invert));
    l.action.lemma_round_trip();
    assert(get(es, Key::Server) == get(l.action.record(), Key::Server));
    assert(get(es, Key::Strategy) == get(l.action.record(), Key::Strategy));
    assert(get(es, Key::DisableCache) == get(l.action.record(), Key::DisableCache));
    assert(get(es, Key::RewriteTtl) == get(l.action.record(), Key::RewriteTtl));
    assert(get(es, Key::ClientSubnet) == get(l.action.record(), Key::ClientSubnet));
    assert(get(es, Key::Method) == get(l.action.record(), Key::Method));
    assert(get(es, Key::NoDrop) == get(l.action.record(), Key::NoDrop));
    assert(get(es, Key::Rcode) == get(l.action.record(), Key::Rcode));
    assert(get(es, Key::Answer) == get(l.action.record(), Key::Answer));
    assert(get(es, Key::Ns) == get(l.action.record(), Key::Ns));
    assert(get(es, Key::Extra) == get(l.action.record(), Key::Extra));
    DnsRuleActionView::lemma_reads_own_keys(es, l.action.record());
    assert(DnsRuleActionView::from_group(es) == Some(Some(l.action)));
}

/// The DNS rules that a DNS rule combines are read back from the list that stands
/// for them.
pub proof fn lemma_nested_dns_rule_list(s: Seq<DnsRuleView>, depth: nat)
    requires
        nested_dns_rule_list_canonical(s, depth),
    ensures
        json_nested_dns_rule_list(nested_dns_rule_list_json(s), depth) == Some(s),
    decreases depth, 1nat,
{
    let js = nested_dns_rule_list_json(s)->List_0;
    assert forall|i: int| 0 <= i < js.len() implies json_dns_rule(#[trigger] js[i], depth) == Some(
        s[i],
    ) by {
        lemma_dns_rule(s[i], depth);
    }
    assert(Seq::new(js.len(), |i: int| json_dns_rule(js[i], depth)->0) =~= s);
}

impl DnsRuleView {
    /// The value that stands for the DNS rule.
    pub open spec fn to_json(self) -> JsonView {
        dns_rule_json(self)
    }

    /// The DNS rule that an object stands for, read no deeper than the nesting
    /// limit.
    pub open spec fn from_json(j: JsonView) -> Option<DnsRuleView> {
        json_dns_rule(j, MAX_NESTING as nat)
    }

    /// Whether the DNS rule is written in a form from which it is read back, and
    /// is nested no deeper than the nesting limit.
    pub open spec fn canonical(self) -> bool {
        dns_rule_canonical(self, MAX_NESTING as nat)
    }

    /// The DNS rule is read back from the value that stands for it.
    pub proof fn lemma_round_trip(self)
        requires
            self.canonical(),
        ensures
            DnsRuleView::from_json(self.to_json()) == Some(self),
    {
        lemma_dns_rule(self, MAX_NESTING as nat);
    }
}

impl DnsRule {
    /// The value that stands for the DNS rule.
    pub fn to_json(&self) -> (r: Json)
        ensures
            r@ == self@.to_json(),
        decreases self,
    {
        match self {
            DnsRule::Default(d) => d.to_json(),
            DnsRule::Logical(l) => {
                let r = Json::Record(l.record());
                proof {
                    lemma_json_view(r);
                }
                r
            },
        }
    }

    /// Reads the DNS rule from an object, no deeper than the nesting limit.
    pub fn from_json(j: &Json) -> (r: Result<DnsRule, SchemaMismatch>)
        ensures
            match r {
                Ok(x) => DnsRuleView::from_json(j@) == Some(x@),
                Err(_) => DnsRuleView::from_json(j@) is None,
            },
    {
        DnsRule::from_json_within(j, MAX_NESTING)
    }

    /// Reads the DNS rule from an object, no deeper than `depth` levels.
    pub fn from_json_within(j: &Json, depth: usize) -> (r: Result<DnsRule, SchemaMismatch>)
        ensures
            match r {
                Ok(x) => json_dns_rule(j@, depth as nat) == Some(x@),
                Err(_) => json_dns_rule(j@, depth as nat) is None,
            },
        decreases depth, 0nat,
    {
        let es = match read_entries(j) {
            Ok(es) => es,
            Err(e) => {
                return Err(e);
            },
        };
        let logical = match get_field(&es, Key::Type) {
            Some(Json::Text(s)) => same_text(s.as_str(), "logical"),
            _ => false,
        };
        if logical {
            if depth == 0 {
                Err(SchemaMismatch)
            } else {
                match DnsLogicalRule::from_record(&es, depth - 1) {
                    Ok(l) => Ok(DnsRule::Logical(l)),
                    Err(e) => Err(e),
                }
            }
        } else {
            match DnsDefaultRule::from_record(&es) {
                Ok(d) => Ok(DnsRule::Default(d)),
                Err(e) => Err(e),
            }
        }
    }
}

impl DnsLogicalRule {
    /// The entries of the record that stands for the DNS rule.
    pub fn record(&self) -> (r: Vec<(Key, Json)>)
        ensures
            r.deep_view() == dns_logical_rule_record(self@),
        decreases self,
    {
        let mut es: Vec<(Key, Json)> = no_entries();
        let ghost s = Seq::<(Key, JsonView)>::empty();
        proof {
            lemma_dns_logical_rules(*self);
        }
        put_field(&mut es, Key::Type, Some(Json::Text((&self.rule_type).clone())));
        let ghost s = put(s, Key::Type, Some(text_json(self@.rule_type)));
        assert(es.deep_view() == s);
        put_field(&mut es, Key::Mode, Some(Json::Text((&self.mode).clone())));
        let ghost s = put(s, Key::Mode, Some(text_json(self@.mode)));
        assert(es.deep_view() == s);
        put_field(&mut es, Key::Rules, Some(write_nested_dns_rule_list(&self.rules)));
        let ghost s = put(s, Key::Rules, Some(nested_dns_rule_list_json(self@.rules)));
        assert(es.deep_view() == s);
        let value = match &self.invert {
            Some(x) => Some(Json::Bool(*x)),
            None => None,
        };
        put_field(&mut es, Key::Invert, value);
        let ghost s = put(s, Key::Invert, present(self@.invert, |x: bool| bool_json(x)));
        assert(es.deep_view() == s);
        put_group(&mut es, self.action.record());
        let ghost s = merge(s, self@.action.record());
        assert(es.deep_view() == s);
        es
    }

    /// Reads the DNS rule from the entries of an object, no deeper than `depth`
    /// levels.
    pub fn from_record(es: &Vec<(Key, &Json)>, depth: usize) -> (r: Result<DnsLogicalRule, SchemaMismatch>)
        ensures
            match r {
                Ok(x) => dns_logical_rule_from_record(es.deep_view(), depth as nat) == Some(x@),
                Err(_) => dns_logical_rule_from_record(es.deep_view(), depth as nat) is None,
            },
        decreases depth, 2nat,
    {
        let rule_type = match get_field(es, Key::Type) {
            Some(j) => match read_text(j) {
                Ok(x) => x,
                Err(e) => {
                    return Err(e);
                },
            },
            None => {
                return Err(SchemaMismatch);
            },
        };
        assert(required(get(es.deep_view(), Key::Type), |j: JsonView| json_text(j)) == Some(rule_type.deep_view()));
        let mode = match get_field(es, Key::Mode) {
            Some(j) => match read_text(j) {
                Ok(x) => x,
                Err(e) => {
                    return Err(e);
                },
            },
            None => {
                return Err(SchemaMismatch);
            },
        };
        assert(required(get(es.deep_view(), Key::Mode), |j: JsonView| json_text(j)) == Some(mode.deep_view()));
        let rules = match get_field(es, Key::Rules) {
            Some(j) => match read_nested_dns_rule_list(j, depth) {
                Ok(x) => x,
                Err(e) => {
                    return Err(e);
                },
            },
            None => {
                return Err(SchemaMismatch);
            },
        };
        let invert = match get_field(es, Key::Invert) {
            Some(j) => if is_null(j) {
                None
            } else {
                match read_bool(j) {
                    Ok(x) => Some(x),
                    Err(e) => {
                        return Err(e);
                    },
                }
            },
            None => None,
        };
        assert(optional(get(es.deep_view(), Key::Invert), |j: JsonView| json_bool(j)) == Some(invert.deep_view()));
        let action = match DnsRuleAction::from_group(es) {
            Ok(Some(g)) => g,
            Ok(None) => {
                return Err(SchemaMismatch);
            },
            Err(e) => {
                return Err(e);
            },
        };
        let r = DnsLogicalRule { rule_type, mode, rules, invert, action };
        proof {
            lemma_dns_logical_rules(r);
        }
        Ok(r)
    }
}

/// Writes the DNS rules that a DNS rule combines, as `nested_dns_rule_list_json` says.
pub fn write_nested_dns_rule_list(v: &Vec<DnsRule>) -> (r: Json)
    ensures
        r@ == nested_dns_rule_list_json(v.deep_view()),
    decreases v,
{
    let mut out: Vec<Json> = Vec::new();
    let mut i: usize = 0;
    let ghost s = v.deep_view();
    while i < v.len()
        invariant
            i <= v.len(),
            s == v.deep_view(),
            out.deep_view() == Seq::new(i as nat, |k: int| dns_rule_json(s[k])),
        decreases v.len() - i,
    {
        let ghost before = out.deep_view();
        proof {
            vstd::std_specs::vec::axiom_vec_index_decreases(*v, i as int);
        }
        let item = v[i].to_json();
        out.push(item);
        proof {
            assert(s[i as int] == v@[i as int].deep_view());
            assert(out.deep_view() =~= before.push(item@));
            assert(before.push(item@) =~= Seq::new((i + 1) as nat, |k: int| dns_rule_json(s[k])));
        }
        i += 1;
    }
    let r = Json::List(out);
    proof {
        lemma_json_view(r);
        assert(out.deep_view() =~= nested_dns_rule_list_json(s)->List_0);
    }
    r
}

/// Reads the DNS rules that a DNS rule combines, as `json_nested_dns_rule_list` says.
pub fn read_nested_dns_rule_list(j: &Json, depth: usize) -> (r: Result<Vec<DnsRule>, SchemaMismatch>)
    ensures
        match r {
            Ok(v) => json_nested_dns_rule_list(j@, depth as nat) == Some(v.deep_view()),
            Err(_) => json_nested_dns_rule_list(j@, depth as nat) is None,
        },
    decreases depth, 1nat,
{
    reveal_with_fuel(json_nested_dns_rule_list, 2);
    proof {
        lemma_json_view(*j);
    }
    match j {
        Json::List(js) => {
            let mut out: Vec<DnsRule> = Vec::new();
            let mut i: usize = 0;
            let ghost all = js.deep_view();
            while i < js.len()
                invariant
                    i <= js.len(),
                    all == js.deep_view(),
                    j@ == JsonView::List(all),
                    forall|k: int|
                        0 <= k < i ==> json_dns_rule(#[trigger] all[k], depth as nat) is Some,
                    out.deep_view() == Seq::new(
                        i as nat,
                        |k: int| json_dns_rule(all[k], depth as nat)->0,
                    ),
                decreases js.len() - i,
            {
                let ghost before = out.deep_view();
                proof {
                    assert(all[i as int] == js@[i as int]@);
                }
                match DnsRule::from_json_within(&js[i], depth) {
                    Ok(x) => {
                        out.push(x);
                        proof {
                            assert(out.deep_view() =~= before.push(x.deep_view()));
                            assert(before.push(x.deep_view()) =~= Seq::new(
                                (i + 1) as nat,
                                |k: int| json_dns_rule(all[k], depth as nat)->0,
                            ));
                        }
                    },
                    Err(e) => {
                        reveal_with_fuel(json_nested_dns_rule_list, 2);
                        assert(json_dns_rule(all[i as int], depth as nat) is None);
                        return Err(e);
                    },
                }
                i += 1;
            }
            proof {
                assert(out.deep_view() =~= Seq::new(
                    all.len(),
                    |k: int| json_dns_rule(all[k], depth as nat)->0,
                ));
            }
            Ok(out)
        },
        _ => Err(SchemaMismatch),
    }
}

/// The value that stands for one text or several: the bare value for one,
/// a list for several.
#[verifier::opaque]
pub open spec fn text_listable_json(l: ListableView<Seq<char>>) -> JsonView {
    match l {
        ListableView::One(x) => text_json(x),
        ListableView::Many(s) => text_list_json(s),
    }
}

/// The text or texts that a value stands for: several for a list, one for
/// any other value.
#[verifier::opaque]
pub open spec fn json_text_listable(j: JsonView) -> Option<ListableView<Seq<char>>> {
    match j {
        JsonView::List(_) => match json_text_list(j) {
            Some(s) => Some(ListableView::Many(s)),
            None => None,
        },
        _ => match json_text(j) {
            Some(x) => Some(ListableView::One(x)),
            None => None,
        },
    }
}

/// One text or several are read back, in the form in which they were
/// written.
pub proof fn lemma_text_listable(l: ListableView<Seq<char>>)
    ensures
        json_text_listable(text_listable_json(l)) == Some(l),
        text_listable_json(l) != JsonView::Null,
{
    reveal(text_listable_json);
    reveal(json_text_listable);
    match l {
        ListableView::One(x) => {
        },
        ListableView::Many(s) => {
            lemma_text_list(s);
        },
    }
}

/// Writes one text or several, as `text_listable_json` says.
pub fn write_text_listable(l: &Listable<String>) -> (r: Json)
    ensures
        r@ == text_listable_json(l.deep_view()),
{
    reveal(text_listable_json);
    match l {
        Listable::One(x) => Json::Text(x.clone()),
        Listable::Many(v) => write_text_list(v),
    }
}

/// Reads one text or several, as `json_text_listable` says.
pub fn read_text_listable(j: &Json) -> (r: Result<Listable<String>, SchemaMismatch>)
    ensures
        match r {
            Ok(l) => json_text_listable(j@) == Some(l.deep_view()),
            Err(_) => json_text_listable(j@) is None,
        },
{
    reveal(json_text_listable);
    match j {
        Json::List(_) => match read_text_list(j) {
            Ok(v) => Ok(Listable::Many(v)),
            Err(e) => Err(e),
        },
        _ => match read_text(j) {
            Ok(x) => Ok(Listable::One(x)),
            Err(e) => Err(e),
        },
    }
}

/// The list that stands for a sequence of query types.
#[verifier::opaque]
pub open spec fn query_type_list_json(s: Seq<QueryTypeView>) -> JsonView {
    JsonView::List(Seq::new(s.len(), |i: int| s[i].to_json()))
}

/// The sequence of query types that a list stands for, if each of its values
/// stands for one.
#[verifier::opaque]
pub open spec fn json_query_type_list(j: JsonView) -> Option<Seq<QueryTypeView>> {
    match j {
        JsonView::List(js) => if forall|i: int|
            0 <= i < js.len() ==> (#[trigger] QueryTypeView::from_json(js[i])) is Some {
            Some(Seq::new(js.len(), |i: int| QueryTypeView::from_json(js[i])->0))
        } else {
            None
        },
        _ => None,
    }
}

/// Whether each of the query types is written in a form from which it is read
/// back.
pub open spec fn canonical_query_type_list(s: Seq<QueryTypeView>) -> bool {
    forall|i: int| 0 <= i < s.len() ==> (#[trigger] s[i]).canonical()
}

/// A sequence of query types is read back from the list that stands for it.
pub proof fn lemma_query_type_list(s: Seq<QueryTypeView>)
    requires
        canonical_query_type_list(s),
    ensures
        json_query_type_list(query_type_list_json(s)) == Some(s),
        query_type_list_json(s) is List,
{
    reveal(query_type_list_json);
    reveal(json_query_type_list);
    let js = query_type_list_json(s)->List_0;
    assert forall|i: int| 0 <= i < js.len() implies (#[trigger] QueryTypeView::from_json(js[i])) == Some(s[i]) by {
        s[i].lemma_round_trip();
    }
    assert(Seq::new(js.len(), |i: int| QueryTypeView::from_json(js[i])->0) =~= s);
}

/// Writes a sequence of query types, as `query_type_list_json` says.
pub fn write_query_type_list(v: &Vec<QueryType>) -> (r: Json)
    ensures
        r@ == query_type_list_json(v.deep_view()),
{
    reveal(query_type_list_json);
    let mut out: Vec<Json> = Vec::new();
    let mut i: usize = 0;
    let ghost s = v.deep_view();
    while i < v.len()
        invariant
            i <= v.len(),
            s == v.deep_view(),
            out.deep_view() == Seq::new(i as nat, |k: int| s[k].to_json()),
        decreases v.len() - i,
    {
        let ghost before = out.deep_view();
        let elem = &v[i];
        let item = elem.to_json();
        out.push(item);
        proof {
            assert(s[i as int] == v@[i as int].deep_view());
            assert(out.deep_view() =~= before.push(item@));
            assert(before.push(item@) =~= Seq::new((i + 1) as nat, |k: int| s[k].to_json()));
        }
        i += 1;
    }
    let r = Json::List(out);
    proof {
        lemma_json_view(r);
        assert(out.deep_view() =~= Seq::new(s.len(), |k: int| s[k].to_json()));
    }
    r
}

/// Reads a sequence of query types, as `json_query_type_list` says.
pub fn read_query_type_list(j: &Json) -> (r: Result<Vec<QueryType>, SchemaMismatch>)
    ensures
        match r {
            Ok(v) => json_query_type_list(j@) == Some(v.deep_view()),
            Err(_) => json_query_type_list(j@) is None,
        },
{
    reveal(json_query_type_list);
    proof {
        lemma_json_view(*j);
    }
    match j {
        Json::List(js) => {
            let mut out: Vec<QueryType> = Vec::new();
            let mut i: usize = 0;
            let ghost all = js.deep_view();
            while i < js.len()
                invariant
                    i <= js.len(),
                    all == js.deep_view(),
                    j@ == JsonView::List(all),
                    forall|k: int| 0 <= k < i ==> (#[trigger] QueryTypeView::from_json(all[k])) is Some,
                    out.deep_view() == Seq::new(i as nat, |k: int| QueryTypeView::from_json(all[k])->0),
                decreases js.len() - i,
            {
                let ghost before = out.deep_view();
                proof {
                    assert(all[i as int] == js@[i as int]@);
                }
                let value = &js[i];
                match QueryType::from_json(value) {
                    Ok(x) => {
                        out.push(x);
                        proof {
                            assert(out.deep_view() =~= before.push(x.deep_view()));
                            assert(before.push(x.deep_view()) =~= Seq::new(
                                (i + 1) as nat,
                                |k: int| QueryTypeView::from_json(all[k])->0,
                            ));
                        }
                    },
                    Err(e) => {
                        reveal(json_query_type_list);
                        assert(QueryTypeView::from_json(all[i as int]) is None);
                        return Err(e);
                    },
                }
                i += 1;
            }
            proof {
                assert(out.deep_view() =~= Seq::new(all.len(), |k: int| QueryTypeView::from_json(all[k])->0));
            }
            Ok(out)
        },
        _ => Err(SchemaMismatch),
    }
}

/// The value that stands for one query type or several: the bare value for one,
/// a list for several.
#[verifier::opaque]
pub open spec fn query_type_listable_json(l: ListableView<QueryTypeView>) -> JsonView {
    match l {
        ListableView::One(x) => x.to_json(),
        ListableView::Many(s) => query_type_list_json(s),
    }
}

/// The query type or query types that a value stands for: several for a list, one for
/// any other value.
#[verifier::opaque]
pub open spec fn json_query_type_listable(j: JsonView) -> Option<ListableView<QueryTypeView>> {
    match j {
        JsonView::List(_) => match json_query_type_list(j) {
            Some(s) => Some(ListableView::Many(s)),
            None => None,
        },
        _ => match QueryTypeView::from_json(j) {
            Some(x) => Some(ListableView::One(x)),
            None => None,
        },
    }
}

/// Whether one query type or several are written in a form from which they are
/// read back.
pub open spec fn canonical_query_type_listable(l: ListableView<QueryTypeView>) -> bool {
    match l {
        ListableView::One(x) => x.canonical(),
        ListableView::Many(s) => canonical_query_type_list(s),
    }
}

/// One query type or several are read back, in the form in which they were
/// written.
pub proof fn lemma_query_type_listable(l: ListableView<QueryTypeView>)
    requires
        canonical_query_type_listable(l),
    ensures
        json_query_type_listable(query_type_listable_json(l)) == Some(l),
        query_type_listable_json(l) != JsonView::Null,
{
    reveal(query_type_listable_json);
    reveal(json_query_type_listable);
    match l {
        ListableView::One(x) => {
            x.lemma_round_trip();
        },
        ListableView::Many(s) => {
            lemma_query_type_list(s);
        },
    }
}

/// Writes one query type or several, as `query_type_listable_json` says.
pub fn write_query_type_listable(l: &Listable<QueryType>) -> (r: Json)
    ensures
        r@ == query_type_listable_json(l.deep_view()),
{
    reveal(query_type_listable_json);
    match l {
        Listable::One(x) => x.to_json(),
        Listable::Many(v) => write_query_type_list(v),
    }
}

/// Reads one query type or several, as `json_query_type_listable` says.
pub fn read_query_type_listable(j: &Json) -> (r: Result<Listable<QueryType>, SchemaMismatch>)
    ensures
        match r {
            Ok(l) => json_query_type_listable(j@) == Some(l.deep_view()),
            Err(_) => json_query_type_listable(j@) is None,
        },
{
    reveal(json_query_type_listable);
    match j {
        Json::List(_) => match read_query_type_list(j) {
            Ok(v) => Ok(Listable::Many(v)),
            Err(e) => Err(e),
        },
        _ => match QueryType::from_json(j) {
            Ok(x) => Ok(Listable::One(x)),
            Err(e) => Err(e),
        },
    }
}

/// The value that stands for one number or several: the bare value for one,
/// a list for several.
#[verifier::opaque]
pub open spec fn u16_listable_json(l: ListableView<u16>) -> JsonView {
    match l {
        ListableView::One(x) => u16_json(x),
        ListableView::Many(s) => u16_list_json(s),
    }
}

/// The number or numbers that a value stands for: several for a list, one for
/// any other value.
#[verifier::opaque]
pub open spec fn json_u16_listable(j: JsonView) -> Option<ListableView<u16>> {
    match j {
        JsonView::List(_) => match json_u16_list(j) {
            Some(s) => Some(ListableView::Many(s)),
            None => None,
        },
        _ => match json_u16(j) {
            Some(x) => Some(ListableView::One(x)),
            None => None,
        },
    }
}

/// One number or several are read back, in the form in which they were
/// written.
pub proof fn lemma_u16_listable(l: ListableView<u16>)
    ensures
        json_u16_listable(u16_listable_json(l)) == Some(l),
        u16_listable_json(l) != JsonView::Null,
{
    reveal(u16_listable_json);
    reveal(json_u16_listable);
    match l {
        ListableView::One(x) => {
        },
        ListableView::Many(s) => {
            lemma_u16_list(s);
        },
    }
}

/// Writes one number or several, as `u16_listable_json` says.
pub fn write_u16_listable(l: &Listable<u16>) -> (r: Json)
    ensures
        r@ == u16_listable_json(l.deep_view()),
{
    reveal(u16_listable_json);
    match l {
        Listable::One(x) => Json::Unsigned(*x as u64),
        Listable::Many(v) => write_u16_list(v),
    }
}

/// Reads one number or several, as `json_u16_listable` says.
pub fn read_u16_listable(j: &Json) -> (r: Result<Listable<u16>, SchemaMismatch>)
    ensures
        match r {
            Ok(l) => json_u16_listable(j@) == Some(l.deep_view()),
            Err(_) => json_u16_listable(j@) is None,
        },
{
    reveal(json_u16_listable);
    match j {
        Json::List(_) => match read_u16_list(j) {
            Ok(v) => Ok(Listable::Many(v)),
            Err(e) => Err(e),
        },
        _ => match read_u16(j) {
            Ok(x) => Ok(Listable::One(x)),
            Err(e) => Err(e),
        },
    }
}

/// The value that stands for one number or several: the bare value for one,
/// a list for several.
#[verifier::opaque]
pub open spec fn u32_listable_json(l: ListableView<u32>) -> JsonView {
    match l {
        ListableView::One(x) => u32_json(x),
        ListableView::Many(s) => u32_list_json(s),
    }
}

/// The number or numbers that a value stands for: several for a list, one for
/// any other value.
#[verifier::opaque]
pub open spec fn json_u32_listable(j: JsonView) -> Option<ListableView<u32>> {
    match j {
        JsonView::List(_) => match json_u32_list(j) {
            Some(s) => Some(ListableView::Many(s)),
            None => None,
        },
        _ => match json_u32(j) {
            Some(x) => Some(ListableView::One(x)),
            None => None,
        },
    }
}

/// One number or several are read back, in the form in which they were
/// written.
pub proof fn lemma_u32_listable(l: ListableView<u32>)
    ensures
        json_u32_listable(u32_listable_json(l)) == Some(l),
        u32_listable_json(l) != JsonView::Null,
{
    reveal(u32_listable_json);
    reveal(json_u32_listable);
    match l {
        ListableView::One(x) => {
        },
        ListableView::Many(s) => {
            lemma_u32_list(s);
        },
    }
}

/// Writes one number or several, as `u32_listable_json` says.
pub fn write_u32_listable(l: &Listable<u32>) -> (r: Json)
    ensures
        r@ == u32_listable_json(l.deep_view()),
{
    reveal(u32_listable_json);
    match l {
        Listable::One(x) => Json::Unsigned(*x as u64),
        Listable::Many(v) => write_u32_list(v),
    }
}

/// Reads one number or several, as `json_u32_listable` says.
pub fn read_u32_listable(j: &Json) -> (r: Result<Listable<u32>, SchemaMismatch>)
    ensures
        match r {
            Ok(l) => json_u32_listable(j@) == Some(l.deep_view()),
            Err(_) => json_u32_listable(j@) is None,
        },
{
    reveal(json_u32_listable);
    match j {
        Json::List(_) => match read_u32_list(j) {
            Ok(v) => Ok(Listable::Many(v)),
            Err(e) => Err(e),
        },
        _ => match read_u32(j) {
            Ok(x) => Ok(Listable::One(x)),
            Err(e) => Err(e),
        },
    }
}

} // verus!
