//! The DNS section of a document.

pub mod dnsrule;
pub mod dnsruleaction;
pub mod dnsserver;

use crate::defaults::{DNS_LOCAL_TAG, DNS_UDP_TAG};
use crate::dns::dnsrule::{DnsRule, DnsRuleView};
use crate::dns::dnsserver::{canonical_dns_server_list, dns_server_list_json, DnsServer, DnsServerLocal, DnsServerLocalView, DnsServerUdp, DnsServerUdpView, DnsServerView, drop_marked, json_dns_server_list, lemma_dns_server_list, marked, position, read_dns_server_list, unmarked, write_dns_server_list};
use crate::json::{bool_json, Entries, entries_of, get, get_field, is_null, Json, json_bool, json_text, json_u16, JsonView, Key, lemma_get_empty, lemma_get_merge, lemma_get_put, lemma_json_view, no_entries, optional, present, put, put_field, read_bool, read_entries, read_text, read_u16, SchemaMismatch, text_json, u16_json};
use crate::scan::{first_where, found, kept, Mark};
use vstd::prelude::*;

verus! {

/// The DNS section: its servers, its rules, and the server that answers when no rule matches.
#[derive(Debug, PartialEq)]
pub struct DnsConfig {
    pub servers: Option<Vec<DnsServer>>,
    pub rules: Option<Vec<DnsRule>>,
    pub default: Option<String>,
    pub strategy: Option<String>,
    pub disable_cache: Option<bool>,
    pub disable_expire: Option<bool>,
    pub independent_cache: Option<bool>,
    pub cache_capacity: Option<u16>,
    pub reverse_mapping: Option<bool>,
    pub client_subnet: Option<String>,
}

/// What a [`DnsConfig`] holds, with every text as its characters.
pub struct DnsConfigView {
    pub servers: Option<Seq<DnsServerView>>,
    pub rules: Option<Seq<DnsRuleView>>,
    pub default: Option<Seq<char>>,
    pub strategy: Option<Seq<char>>,
    pub disable_cache: Option<bool>,
    pub disable_expire: Option<bool>,
    pub independent_cache: Option<bool>,
    pub cache_capacity: Option<u16>,
    pub reverse_mapping: Option<bool>,
    pub client_subnet: Option<Seq<char>>,
}

impl DeepView for DnsConfig {
    type V = DnsConfigView;

    open spec fn deep_view(&self) -> DnsConfigView {
        DnsConfigView {
            servers: self.servers.deep_view(),
            rules: self.rules.deep_view(),
            default: self.default.deep_view(),
            strategy: self.strategy.deep_view(),
            disable_cache: self.disable_cache.deep_view(),
            disable_expire: self.disable_expire.deep_view(),
            independent_cache: self.independent_cache.deep_view(),
            cache_capacity: self.cache_capacity.deep_view(),
            reverse_mapping: self.reverse_mapping.deep_view(),
            client_subnet: self.client_subnet.deep_view(),
        }
    }
}

impl View for DnsConfig {
    type V = DnsConfigView;

    open spec fn view(&self) -> DnsConfigView {
        self.deep_view()
    }
}

impl DnsConfigView {
    /// The view of what [`DnsConfig::new`] returns.
    pub open spec fn fresh() -> DnsConfigView {
        DnsConfigView {
            servers: None,
            rules: None,
            default: None,
            strategy: None,
            disable_cache: None,
            disable_expire: None,
            independent_cache: None,
            cache_capacity: None,
            reverse_mapping: None,
            client_subnet: None,
        }
    }
}

impl DnsConfig {
    /// A DNS section with nothing set.
    pub fn new() -> (r: Self)
        ensures
            r@ == DnsConfigView::fresh(),
    {
        DnsConfig {
            servers: None,
            rules: None,
            default: None,
            strategy: None,
            disable_cache: None,
            disable_expire: None,
            independent_cache: None,
            cache_capacity: None,
            reverse_mapping: None,
            client_subnet: None,
        }
    }
}

impl DnsConfigView {
    /// The entries of the record that stands for the value: one for each
    /// field that is set, in the order of the fields.
    pub open spec fn record(self) -> Entries {
        let es = Seq::empty();
        let es = put(es, Key::Servers, present(self.servers, |x: Seq<DnsServerView>| dns_server_list_json(x)));
        let es = put(es, Key::Rules, present(self.rules, |x: Seq<DnsRuleView>| dns_rule_list_json(x)));
        let es = put(es, Key::Final, present(self.default, |x: Seq<char>| text_json(x)));
        let es = put(es, Key::Strategy, present(self.strategy, |x: Seq<char>| text_json(x)));
        let es = put(es, Key::DisableCache, present(self.disable_cache, |x: bool| bool_json(x)));
        let es = put(es, Key::DisableExpire, present(self.disable_expire, |x: bool| bool_json(x)));
        let es = put(es, Key::IndependentCache, present(self.independent_cache, |x: bool| bool_json(x)));
        let es = put(es, Key::CacheCapacity, present(self.cache_capacity, |x: u16| u16_json(x)));
        let es = put(es, Key::ReverseMapping, present(self.reverse_mapping, |x: bool| bool_json(x)));
        let es = put(es, Key::ClientSubnet, present(self.client_subnet, |x: Seq<char>| text_json(x)));
        es
    }

    /// The record that stands for the value.
    pub open spec fn to_json(self) -> JsonView {
        JsonView::Record(self.record())
    }

    /// The value that the entries of an object stand for. Fails where an
    /// entry holds a value of the wrong shape.
    pub open spec fn from_record(es: Entries) -> Option<DnsConfigView> {
        let servers = optional(get(es, Key::Servers), |j: JsonView| json_dns_server_list(j));
        let rules = optional(get(es, Key::Rules), |j: JsonView| json_dns_rule_list(j));
        let default = optional(get(es, Key::Final), |j: JsonView| json_text(j));
        let strategy = optional(get(es, Key::Strategy), |j: JsonView| json_text(j));
        let disable_cache = optional(get(es, Key::DisableCache), |j: JsonView| json_bool(j));
        let disable_expire = optional(get(es, Key::DisableExpire), |j: JsonView| json_bool(j));
        let independent_cache = optional(get(es, Key::IndependentCache), |j: JsonView| json_bool(j));
        let cache_capacity = optional(get(es, Key::CacheCapacity), |j: JsonView| json_u16(j));
        let reverse_mapping = optional(get(es, Key::ReverseMapping), |j: JsonView| json_bool(j));
        let client_subnet = optional(get(es, Key::ClientSubnet), |j: JsonView| json_text(j));
        if servers is Some
            && rules is Some
            && default is Some
            && strategy is Some
            && disable_cache is Some
            && disable_expire is Some
            && independent_cache is Some
            && cache_capacity is Some
            && reverse_mapping is Some
            && client_subnet is Some {
            Some(
                DnsConfigView {
                    servers: servers->0,
                    rules: rules->0,
                    default: default->0,
                    strategy: strategy->0,
                    disable_cache: disable_cache->0,
                    disable_expire: disable_expire->0,
                    independent_cache: independent_cache->0,
                    cache_capacity: cache_capacity->0,
                    reverse_mapping: reverse_mapping->0,
                    client_subnet: client_subnet->0,
                },
            )
        } else {
            None
        }
    }

    /// The value that an object stands for; none for a value that is no
    /// object.
    pub open spec fn from_json(j: JsonView) -> Option<DnsConfigView> {
        match entries_of(j) {
            Some(es) => DnsConfigView::from_record(es),
            None => None,
        }
    }

    /// Whether the value is written in a form from which it is read back:
    /// the values that it holds are, and a group of fields that is present
    /// sets at least one of them.
    pub open spec fn canonical(self) -> bool {
        &&& match self.servers {
            Some(x) => canonical_dns_server_list(x),
            None => true,
        }
        &&& match self.rules {
            Some(x) => canonical_dns_rule_list(x),
            None => true,
        }
    }

    /// The value is read back from the record that stands for it.
    pub proof fn lemma_round_trip(self)
        requires
            self.canonical(),
        ensures
            DnsConfigView::from_record(self.record()) == Some(self),
            DnsConfigView::from_json(self.to_json()) == Some(self),
    {
        broadcast use {lemma_get_empty, lemma_get_put, lemma_get_merge};

        let es = self.record();
        match self.servers {
            Some(x) => {
                lemma_dns_server_list(x);
            },
            None => {},
        }
        assert(optional(get(es, Key::Servers), |j: JsonView| json_dns_server_list(j)) == Some(self.servers));
        match self.rules {
            Some(x) => {
                lemma_dns_rule_list(x);
            },
            None => {},
        }
        assert(optional(get(es, Key::Rules), |j: JsonView| json_dns_rule_list(j)) == Some(self.rules));
        assert(optional(get(es, Key::Final), |j: JsonView| json_text(j)) == Some(self.default));
        assert(optional(get(es, Key::Strategy), |j: JsonView| json_text(j)) == Some(self.strategy));
        assert(optional(get(es, Key::DisableCache), |j: JsonView| json_bool(j)) == Some(self.disable_cache));
        assert(optional(get(es, Key::DisableExpire), |j: JsonView| json_bool(j)) == Some(self.disable_expire));
        assert(optional(get(es, Key::IndependentCache), |j: JsonView| json_bool(j)) == Some(self.independent_cache));
        assert(optional(get(es, Key::CacheCapacity), |j: JsonView| json_u16(j)) == Some(self.cache_capacity));
        assert(optional(get(es, Key::ReverseMapping), |j: JsonView| json_bool(j)) == Some(self.reverse_mapping));
        assert(optional(get(es, Key::ClientSubnet), |j: JsonView| json_text(j)) == Some(self.client_subnet));
    }
}

impl DnsConfig {
    /// The entries of the record that stands for the value, as
    /// `DnsConfigView::record` lists them.
    pub fn record(&self) -> (r: Vec<(Key, Json)>)
        ensures
            r.deep_view() == self@.record(),
    {
        let mut es: Vec<(Key, Json)> = no_entries();
        let ghost s = Seq::<(Key, JsonView)>::empty();
        let value = match &self.servers {
            Some(x) => Some(write_dns_server_list(x)),
            None => None,
        };
        put_field(&mut es, Key::Servers, value);
        let ghost s = put(s, Key::Servers, present(self@.servers, |x: Seq<DnsServerView>| dns_server_list_json(x)));
        assert(es.deep_view() == s);
        let value = match &self.rules {
            Some(x) => Some(write_dns_rule_list(x)),
            None => None,
        };
        put_field(&mut es, Key::Rules, value);
        let ghost s = put(s, Key::Rules, present(self@.rules, |x: Seq<DnsRuleView>| dns_rule_list_json(x)));
        assert(es.deep_view() == s);
        let value = match &self.default {
            Some(x) => Some(Json::Text(x.clone())),
            None => None,
        };
        put_field(&mut es, Key::Final, value);
        let ghost s = put(s, Key::Final, present(self@.default, |x: Seq<char>| text_json(x)));
        assert(es.deep_view() == s);
        let value = match &self.strategy {
            Some(x) => Some(Json::Text(x.clone())),
            None => None,
        };
        put_field(&mut es, Key::Strategy, value);
        let ghost s = put(s, Key::Strategy, present(self@.strategy, |x: Seq<char>| text_json(x)));
        assert(es.deep_view() == s);
        let value = match &self.disable_cache {
            Some(x) => Some(Json::Bool(*x)),
            None => None,
        };
        put_field(&mut es, Key::DisableCache, value);
        let ghost s = put(s, Key::DisableCache, present(self@.disable_cache, |x: bool| bool_json(x)));
        assert(es.deep_view() == s);
        let value = match &self.disable_expire {
            Some(x) => Some(Json::Bool(*x)),
            None => None,
        };
        put_field(&mut es, Key::DisableExpire, value);
        let ghost s = put(s, Key::DisableExpire, present(self@.disable_expire, |x: bool| bool_json(x)));
        assert(es.deep_view() == s);
        let value = match &self.independent_cache {
            Some(x) => Some(Json::Bool(*x)),
            None => None,
        };
        put_field(&mut es, Key::IndependentCache, value);
        let ghost s = put(s, Key::IndependentCache, present(self@.independent_cache, |x: bool| bool_json(x)));
        assert(es.deep_view() == s);
        let value = match &self.cache_capacity {
            Some(x) => Some(Json::Unsigned(*x as u64)),
            None => None,
        };
        put_field(&mut es, Key::CacheCapacity, value);
        let ghost s = put(s, Key::CacheCapacity, present(self@.cache_capacity, |x: u16| u16_json(x)));
        assert(es.deep_view() == s);
        let value = match &self.reverse_mapping {
            Some(x) => Some(Json::Bool(*x)),
            None => None,
        };
        put_field(&mut es, Key::ReverseMapping, value);
        let ghost s = put(s, Key::ReverseMapping, present(self@.reverse_mapping, |x: bool| bool_json(x)));
        assert(es.deep_view() == s);
        let value = match &self.client_subnet {
            Some(x) => Some(Json::Text(x.clone())),
            None => None,
        };
        put_field(&mut es, Key::ClientSubnet, value);
        let ghost s = put(s, Key::ClientSubnet, present(self@.client_subnet, |x: Seq<char>| text_json(x)));
        assert(es.deep_view() == s);
        es
    }

    /// The record that stands for the value.
    pub fn to_json(&self) -> (r: Json)
        ensures
            r@ == self@.to_json(),
    {
        let r = Json::Record(self.record());
        proof {
            lemma_json_view(r);
        }
        r
    }

    /// Reads the value from the entries of an object, as
    /// `DnsConfigView::from_record` says.
    pub fn from_record(es: &Vec<(Key, &Json)>) -> (r: Result<DnsConfig, SchemaMismatch>)
        ensures
            match r {
                Ok(x) => DnsConfigView::from_record(es.deep_view()) == Some(x@),
                Err(_) => DnsConfigView::from_record(es.deep_view()) is None,
            },
    {
        let servers = match get_field(es, Key::Servers) {
            Some(j) => if is_null(j) {
                None
            } else {
                match read_dns_server_list(j) {
                    Ok(x) => Some(x),
                    Err(e) => {
                        return Err(e);
                    },
                }
            },
            None => None,
        };
        assert(optional(get(es.deep_view(), Key::Servers), |j: JsonView| json_dns_server_list(j)) == Some(servers.deep_view()));
        let rules = match get_field(es, Key::Rules) {
            Some(j) => if is_null(j) {
                None
            } else {
                match read_dns_rule_list(j) {
                    Ok(x) => Some(x),
                    Err(e) => {
                        return Err(e);
                    },
                }
            },
            None => None,
        };
        assert(optional(get(es.deep_view(), Key::Rules), |j: JsonView| json_dns_rule_list(j)) == Some(rules.deep_view()));
        let default = match get_field(es, Key::Final) {
            Some(j) => if is_null(j) {
                None
            } else {
                match read_text(j) {
                    Ok(x) => Some(x),
                    Err(e) => {
                        return Err(e);
                    },
                }
            },
            None => None,
        };
        assert(optional(get(es.deep_view(), Key::Final), |j: JsonView| json_text(j)) == Some(default.deep_view()));
        let strategy = match get_field(es, Key::Strategy) {
            Some(j) => if is_null(j) {
                None
            } else {
                match read_text(j) {
                    Ok(x) => Some(x),
                    Err(e) => {
                        return Err(e);
                    },
                }
            },
            None => None,
        };
        assert(optional(get(es.deep_view(), Key::Strategy), |j: JsonView| json_text(j)) == Some(strategy.deep_view()));
        let disable_cache = match get_field(es, Key::DisableCache) {
            Some(j) => if is_null(j) {
                None
            } else {
                match read_bool(j) {
                    Ok(x) => Some(x),
                    Err(e) => {
                        return Err(e);
                    },
                }
            },
            None => None,
        };
        assert(optional(get(es.deep_view(), Key::DisableCache), |j: JsonView| json_bool(j)) == Some(disable_cache.deep_view()));
        let disable_expire = match get_field(es, Key::DisableExpire) {
            Some(j) => if is_null(j) {
                None
            } else {
                match read_bool(j) {
                    Ok(x) => Some(x),
                    Err(e) => {
                        return Err(e);
                    },
                }
            },
            None => None,
        };
        assert(optional(get(es.deep_view(), Key::DisableExpire), |j: JsonView| json_bool(j)) == Some(disable_expire.deep_view()));
        let independent_cache = match get_field(es, Key::IndependentCache) {
            Some(j) => if is_null(j) {
                None
            } else {
                match read_bool(j) {
                    Ok(x) => Some(x),
                    Err(e) => {
                        return Err(e);
                    },
                }
            },
            None => None,
        };
        assert(optional(get(es.deep_view(), Key::IndependentCache), |j: JsonView| json_bool(j)) == Some(independent_cache.deep_view()));
        let cache_capacity = match get_field(es, Key::CacheCapacity) {
            Some(j) => if is_null(j) {
                None
            } else {
                match read_u16(j) {
                    Ok(x) => Some(x),
                    Err(e) => {
                        return Err(e);
                    },
                }
            },
            None => None,
        };
        assert(optional(get(es.deep_view(), Key::CacheCapacity), |j: JsonView| json_u16(j)) == Some(cache_capacity.deep_view()));
        let reverse_mapping = match get_field(es, Key::ReverseMapping) {
            Some(j) => if is_null(j) {
                None
            } else {
                match read_bool(j) {
                    Ok(x) => Some(x),
                    Err(e) => {
                        return Err(e);
                    },
                }
            },
            None => None,
        };
        assert(optional(get(es.deep_view(), Key::ReverseMapping), |j: JsonView| json_bool(j)) == Some(reverse_mapping.deep_view()));
        let client_subnet = match get_field(es, Key::ClientSubnet) {
            Some(j) => if is_null(j) {
                None
            } else {
                match read_text(j) {
                    Ok(x) => Some(x),
                    Err(e) => {
                        return Err(e);
                    },
                }
            },
            None => None,
        };
        assert(optional(get(es.deep_view(), Key::ClientSubnet), |j: JsonView| json_text(j)) == Some(client_subnet.deep_view()));
        Ok(DnsConfig { servers, rules, default, strategy, disable_cache, disable_expire, independent_cache, cache_capacity, reverse_mapping, client_subnet })
    }

    /// Reads the value from an object, as `DnsConfigView::from_json` says.
    pub fn from_json(j: &Json) -> (r: Result<DnsConfig, SchemaMismatch>)
        ensures
            match r {
                Ok(x) => DnsConfigView::from_json(j@) == Some(x@),
                Err(_) => DnsConfigView::from_json(j@) is None,
            },
    {
        match read_entries(j) {
            Ok(es) => DnsConfig::from_record(&es),
            Err(e) => Err(e),
        }
    }
}

impl DnsConfigView {
    /// The servers of the section, in their order; none where the list is unset.
    pub open spec fn entries(self) -> Seq<DnsServerView> {
        match self.servers {
            Some(v) => v,
            None => Seq::empty(),
        }
    }

    /// The tag of the first server of type `t`; none where no server is of
    /// that type, or the first that is has no tag.
    pub open spec fn tag_of_type(self, t: Seq<char>) -> Option<Seq<char>> {
        match found(self.entries(), marked(Mark::Type, t)) {
            Some(e) => e.tag(),
            None => None,
        }
    }

    /// The first server that carries `tag`, if there is one.
    pub open spec fn entry_with_tag(self, tag: Seq<char>) -> Option<DnsServerView> {
        found(self.entries(), marked(Mark::Tag, tag))
    }

    /// Whether a server carries `tag`.
    pub open spec fn has_tag(self, tag: Seq<char>) -> bool {
        self.entry_with_tag(tag) is Some
    }

    /// The section with one more server at its end.
    pub open spec fn with_entry(self, e: DnsServerView) -> DnsConfigView {
        DnsConfigView { servers: Some(self.entries().push(e)), ..self }
    }

    /// The section without the servers whose type or tag is `text`.
    pub open spec fn without(self, m: Mark, text: Seq<char>) -> DnsConfigView {
        match self.servers {
            Some(v) => DnsConfigView { servers: Some(kept(v, unmarked(m, text))), ..self },
            None => self,
        }
    }
}

impl DnsConfig {
    /// Adds a server at the end of the section.
    pub fn add_server(&mut self, e: DnsServer) -> (r: &mut Self)
        ensures
            r@ == old(self)@.with_entry(e@),
            *final(self) == *final(r),
    {
        let ghost before = self@.entries();
        let mut list: Vec<DnsServer> = match self.servers.take() {
            Some(v) => v,
            None => Vec::new(),
        };
        assert(list.deep_view() =~= before);
        list.push(e);
        assert(list.deep_view() =~= before.push(e@));
        self.servers = Some(list);
        self
    }

    /// The tag of the first server of the given type, as `tag_of_type` says.
    pub fn get_tag_by_type(&self, kind: &str) -> (r: Option<String>)
        ensures
            r.deep_view() == self@.tag_of_type(kind@),
    {
        let entries: &Vec<DnsServer> = match &self.servers {
            Some(v) => v,
            None => {
                return None;
            },
        };
        let i = position(entries, Mark::Type, kind);
        if i < entries.len() {
            assert(entries.deep_view()[i as int] == entries@[i as int]@);
            match entries[i].tag() {
                Some(t) => Some(t.clone()),
                None => None,
            }
        } else {
            None
        }
    }

    /// The first server that carries `tag`, if there is one.
    pub fn get_ref_by_tag(&self, tag: &str) -> (r: Option<&DnsServer>)
        ensures
            r.deep_view() == self@.entry_with_tag(tag@),
    {
        let entries: &Vec<DnsServer> = match &self.servers {
            Some(v) => v,
            None => {
                return None;
            },
        };
        let i = position(entries, Mark::Tag, tag);
        if i < entries.len() {
            assert(entries.deep_view()[i as int] == entries@[i as int]@);
            Some(&entries[i])
        } else {
            None
        }
    }

    /// Whether a server carries `tag`.
    pub fn has_tag(&self, tag: &str) -> (r: bool)
        ensures
            r == self@.has_tag(tag@),
    {
        self.get_ref_by_tag(tag).is_some()
    }

    /// The first server that carries `tag`, to be changed in place. What is
    /// written through the reference takes that server's place; nothing else
    /// in the section changes.
    pub fn get_mut_by_tag(&mut self, tag: &str) -> (r: Option<&mut DnsServer>)
        ensures
            match r {
                Some(e) => {
                    let i = first_where(old(self)@.entries(), marked(Mark::Tag, tag@));
                    &&& 0 <= i < old(self)@.entries().len()
                    &&& e@ == old(self)@.entries()[i]
                    &&& final(self)@.entries() =~= old(self)@.entries().update(i, final(e)@)
                    &&& final(self)@ == (DnsConfigView {
                        servers: Some(final(self)@.entries()),
                        ..old(self)@
                    })
                },
                None => old(self)@.entry_with_tag(tag@) is None && final(self)@ == old(self)@,
            },
    {
        match &mut self.servers {
            Some(v) => {
                let i = position(v, Mark::Tag, tag);
                if i < v.len() {
                    assert(v.deep_view()[i as int] == v@[i as int]@);
                    Some(&mut v[i])
                } else {
                    None
                }
            },
            None => None,
        }
    }

    /// Drops every server of the given type. Whatever refers to a dropped
    /// server by its tag is left as it is.
    pub fn remove_server_by_type(&mut self, kind: &str)
        ensures
            final(self)@ == old(self)@.without(Mark::Type, kind@),
    {
        match &mut self.servers {
            Some(v) => {
                drop_marked(v, Mark::Type, kind);
            },
            None => {},
        }
    }

    /// Drops every server that carries `tag`. Whatever refers to a dropped
    /// server by its tag is left as it is.
    pub fn remove_server_by_tag(&mut self, tag: &str)
        ensures
            final(self)@ == old(self)@.without(Mark::Tag, tag@),
    {
        match &mut self.servers {
            Some(v) => {
                drop_marked(v, Mark::Tag, tag);
            },
            None => {},
        }
    }
}

impl DnsConfigView {
    /// The section with one more local resolver, under `tag` or, where the
    /// caller names none, under the default tag of local resolvers.
    pub open spec fn with_local(self, tag: Option<Seq<char>>) -> DnsConfigView {
        self.with_entry(
            DnsServerView::Local(
                DnsServerLocalView {
                    tag: Some(
                        match tag {
                            Some(t) => t,
                            None => DNS_LOCAL_TAG@,
                        },
                    ),
                    ..DnsServerLocalView::fresh()
                },
            ),
        )
    }

    /// The section with one more UDP server at `server`, under `tag` or,
    /// where the caller names none, under the default tag of UDP servers.
    pub open spec fn with_udp(self, tag: Option<Seq<char>>, server: Seq<char>) -> DnsConfigView {
        self.with_entry(
            DnsServerView::Udp(
                DnsServerUdpView {
                    tag: Some(
                        match tag {
                            Some(t) => t,
                            None => DNS_UDP_TAG@,
                        },
                    ),
                    server: Some(server),
                    ..DnsServerUdpView::fresh()
                },
            ),
        )
    }
}

impl DnsConfig {
    /// Adds a local resolver, as `with_local` says.
    pub fn add_local(&mut self, tag: Option<String>) -> (r: &mut Self)
        ensures
            r@ == old(self)@.with_local(tag.deep_view()),
            *final(self) == *final(r),
    {
        let mut server = DnsServerLocal::new();
        server.tag = Some(
            match tag {
                Some(t) => t,
                None => DNS_LOCAL_TAG.to_owned(),
            },
        );
        self.add_server(DnsServer::Local(server))
    }

    /// Adds a UDP server, as `with_udp` says.
    pub fn add_udp(&mut self, tag: Option<String>, server: String) -> (r: &mut Self)
        ensures
            r@ == old(self)@.with_udp(tag.deep_view(), server@),
            *final(self) == *final(r),
    {
        let mut udp = DnsServerUdp::new();
        udp.tag = Some(
            match tag {
                Some(t) => t,
                None => DNS_UDP_TAG.to_owned(),
            },
        );
        udp.server = Some(server);
        self.add_server(DnsServer::Udp(udp))
    }
}

/// The list that stands for a sequence of DNS rules.
#[verifier::opaque]
pub open spec fn dns_rule_list_json(s: Seq<DnsRuleView>) -> JsonView {
    JsonView::List(Seq::new(s.len(), |i: int| s[i].to_json()))
}

/// The sequence of DNS rules that a list stands for, if each of its values
/// stands for one.
#[verifier::opaque]
pub open spec fn json_dns_rule_list(j: JsonView) -> Option<Seq<DnsRuleView>> {
    match j {
        JsonView::List(js) => if forall|i: int|
            0 <= i < js.len() ==> (#[trigger] DnsRuleView::from_json(js[i])) is Some {
            Some(Seq::new(js.len(), |i: int| DnsRuleView::from_json(js[i])->0))
        } else {
            None
        },
        _ => None,
    }
}

/// Whether each of the DNS rules is written in a form from which it is read
/// back.
pub open spec fn canonical_dns_rule_list(s: Seq<DnsRuleView>) -> bool {
    forall|i: int| 0 <= i < s.len() ==> (#[trigger] s[i]).canonical()
}

/// A sequence of DNS rules is read back from the list that stands for it.
pub proof fn lemma_dns_rule_list(s: Seq<DnsRuleView>)
    requires
        canonical_dns_rule_list(s),
    ensures
        json_dns_rule_list(dns_rule_list_json(s)) == Some(s),
        dns_rule_list_json(s) is List,
{
    reveal(dns_rule_list_json);
    reveal(json_dns_rule_list);
    let js = dns_rule_list_json(s)->List_0;
    assert forall|i: int| 0 <= i < js.len() implies (#[trigger] DnsRuleView::from_json(js[i])) == Some(s[i]) by {
        s[i].lemma_round_trip();
    }
    assert(Seq::new(js.len(), |i: int| DnsRuleView::from_json(js[i])->0) =~= s);
}

/// Writes a sequence of DNS rules, as `dns_rule_list_json` says.
pub fn write_dns_rule_list(v: &Vec<DnsRule>) -> (r: Json)
    ensures
        r@ == dns_rule_list_json(v.deep_view()),
{
    reveal(dns_rule_list_json);
    let mut out: Vec<Json> = Vec::new();
    let mut i: usize = 0;
    let ghost s = v.deep_view();
    while i < v.len()
        invariant
            i <= v.len(),
            s == v.deep_view(),
            out.deep_view() == Seq::new(i as nat, |k: int| s[k].to_json()),
        decreases v.len() - i,
    {
        let ghost before = out.deep_view();
        let elem = &v[i];
        let item = elem.to_json();
        out.push(item);
        proof {
            assert(s[i as int] == v@[i as int].deep_view());
            assert(out.deep_view() =~= before.push(item@));
            assert(before.push(item@) =~= Seq::new((i + 1) as nat, |k: int| s[k].to_json()));
        }
        i += 1;
    }
    let r = Json::List(out);
    proof {
        lemma_json_view(r);
        assert(out.deep_view() =~= Seq::new(s.len(), |k: int| s[k].to_json()));
    }
    r
}

/// Reads a sequence of DNS rules, as `json_dns_rule_list` says.
pub fn read_dns_rule_list(j: &Json) -> (r: Result<Vec<DnsRule>, SchemaMismatch>)
    ensures
        match r {
            Ok(v) => json_dns_rule_list(j@) == Some(v.deep_view()),
            Err(_) => json_dns_rule_list(j@) is None,
        },
{
    reveal(json_dns_rule_list);
    proof {
        lemma_json_view(*j);
    }
    match j {
        Json::List(js) => {
            let mut out: Vec<DnsRule> = Vec::new();
            let mut i: usize = 0;
            let ghost all = js.deep_view();
            while i < js.len()
                invariant
                    i <= js.len(),
                    all == js.deep_view(),
                    j@ == JsonView::List(all),
                    forall|k: int| 0 <= k < i ==> (#[trigger] DnsRuleView::from_json(all[k])) is Some,
                    out.deep_view() == Seq::new(i as nat, |k: int| DnsRuleView::from_json(all[k])->0),
                decreases js.len() - i,
            {
                let ghost before = out.deep_view();
                proof {
                    assert(all[i as int] == js@[i as int]@);
                }
                let value = &js[i];
                match DnsRule::from_json(value) {
                    Ok(x) => {
                        out.push(x);
                        proof {
                            assert(out.deep_view() =~= before.push(x.deep_view()));
                            assert(before.push(x.deep_view()) =~= Seq::new(
                                (i + 1) as nat,
                                |k: int| DnsRuleView::from_json(all[k])->0,
                            ));
                        }
                    },
                    Err(e) => {
                        reveal(json_dns_rule_list);
                        assert(DnsRuleView::from_json(all[i as int]) is None);
                        return Err(e);
                    },
                }
                i += 1;
            }
            proof {
                assert(out.deep_view() =~= Seq::new(all.len(), |k: int| DnsRuleView::from_json(all[k])->0));
            }
            Ok(out)
        },
        _ => Err(SchemaMismatch),
    }
}

} // verus!
