//! The route section of a document.

pub mod routerule;
pub mod ruleset;

use crate::defaults::{DIRECT_TYPE, DNS_PORT, LOCAL_TYPE};
use crate::dns::{DnsConfig, DnsConfigView};
use crate::error::CompileError;
use crate::json::{bool_json, Entries, entries_of, get, get_field, is_null, Json, json_bool, json_text, json_text_list, json_u32, JsonView, Key, lemma_get_empty, lemma_get_merge, lemma_get_put, lemma_json_view, lemma_text_list, no_entries, optional, present, put, put_field, read_bool, read_entries, read_text, read_text_list, read_u32, SchemaMismatch, text_json, text_list_json, u32_json, write_text_list};
use crate::outbound::{marked as outbound_marked, OutboundConfig, OutboundConfigView};
use crate::route::routerule::{DefaultRouteRule, DefaultRouteRuleView, RouteRule, RouteRuleView};
use crate::route::ruleset::{canonical_rule_set_list, drop_marked, json_rule_set_list, lemma_rule_set_list, marked, position, read_rule_set_list, rule_set_list_json, RuleSet, RuleSetView, unmarked, write_rule_set_list};
use crate::scan::{first_where, found, kept, lemma_found_is_entry, lemma_found_some, Mark};
use vstd::prelude::*;

verus! {

/// How the names that the route section meets are resolved.
#[derive(Debug, Clone, PartialEq)]
pub struct ResolveOptionsNoAction {
    pub server: Option<String>,
    pub strategy: Option<String>,
    pub disable_cache: Option<bool>,
    pub rewrite_ttl: Option<u32>,
    pub client_subnet: Option<String>,
}

/// What a [`ResolveOptionsNoAction`] holds, with every text as its characters.
pub struct ResolveOptionsNoActionView {
    pub server: Option<Seq<char>>,
    pub strategy: Option<Seq<char>>,
    pub disable_cache: Option<bool>,
    pub rewrite_ttl: Option<u32>,
    pub client_subnet: Option<Seq<char>>,
}

impl DeepView for ResolveOptionsNoAction {
    type V = ResolveOptionsNoActionView;

    open spec fn deep_view(&self) -> ResolveOptionsNoActionView {
        ResolveOptionsNoActionView {
            server: self.server.deep_view(),
            strategy: self.strategy.deep_view(),
            disable_cache: self.disable_cache.deep_view(),
            rewrite_ttl: self.rewrite_ttl.deep_view(),
            client_subnet: self.client_subnet.deep_view(),
        }
    }
}

impl View for ResolveOptionsNoAction {
    type V = ResolveOptionsNoActionView;

    open spec fn view(&self) -> ResolveOptionsNoActionView {
        self.deep_view()
    }
}

impl ResolveOptionsNoActionView {
    /// The view of what [`ResolveOptionsNoAction::new`] returns.
    pub open spec fn fresh() -> ResolveOptionsNoActionView {
        ResolveOptionsNoActionView {
            server: None,
            strategy: None,
            disable_cache: None,
            rewrite_ttl: None,
            client_subnet: None,
        }
    }
}

impl ResolveOptionsNoAction {
    /// Resolve options with nothing set.
    pub fn new() -> (r: Self)
        ensures
            r@ == ResolveOptionsNoActionView::fresh(),
    {
        ResolveOptionsNoAction {
            server: None,
            strategy: None,
            disable_cache: None,
            rewrite_ttl: None,
            client_subnet: None,
        }
    }
}

impl ResolveOptionsNoActionView {
    /// The entries of the record that stands for the value: one for each
    /// field that is set, in the order of the fields.
    pub open spec fn record(self) -> Entries {
        let es = Seq::empty();
        let es = put(es, Key::Server, present(self.server, |x: Seq<char>| text_json(x)));
        let es = put(es, Key::Strategy, present(self.strategy, |x: Seq<char>| text_json(x)));
        let es = put(es, Key::DisableCache, present(self.disable_cache, |x: bool| bool_json(x)));
        let es = put(es, Key::RewriteTtl, present(self.rewrite_ttl, |x: u32| u32_json(x)));
        let es = put(es, Key::ClientSubnet, present(self.client_subnet, |x: Seq<char>| text_json(x)));
        es
    }

    /// The record that stands for the value.
    pub open spec fn to_json(self) -> JsonView {
        JsonView::Record(self.record())
    }

    /// The value that the entries of an object stand for. Fails where an
    /// entry holds a value of the wrong shape.
    pub open spec fn from_record(es: Entries) -> Option<ResolveOptionsNoActionView> {
        let server = optional(get(es, Key::Server), |j: JsonView| json_text(j));
        let strategy = optional(get(es, Key::Strategy), |j: JsonView| json_text(j));
        let disable_cache = optional(get(es, Key::DisableCache), |j: JsonView| json_bool(j));
        let rewrite_ttl = optional(get(es, Key::RewriteTtl), |j: JsonView| json_u32(j));
        let client_subnet = optional(get(es, Key::ClientSubnet), |j: JsonView| json_text(j));
        if server is Some
            && strategy is Some
            && disable_cache is Some
            && rewrite_ttl is Some
            && client_subnet is Some {
            Some(
                ResolveOptionsNoActionView {
                    server: server->0,
                    strategy: strategy->0,
                    disable_cache: disable_cache->0,
                    rewrite_ttl: rewrite_ttl->0,
                    client_subnet: client_subnet->0,
                },
            )
        } else {
            None
        }
    }

    /// The value that an object stands for; none for a value that is no
    /// object.
    pub open spec fn from_json(j: JsonView) -> Option<ResolveOptionsNoActionView> {
        match entries_of(j) {
            Some(es) => ResolveOptionsNoActionView::from_record(es),
            None => None,
        }
    }

    /// Whether the value is written in a form from which it is read back:
    /// every value of this type is.
    pub open spec fn canonical(self) -> bool {
        true
    }

    /// The value is read back from the record that stands for it.
    pub proof fn lemma_round_trip(self)
        ensures
            ResolveOptionsNoActionView::from_record(self.record()) == Some(self),
            ResolveOptionsNoActionView::from_json(self.to_json()) == Some(self),
    {
        broadcast use {lemma_get_empty, lemma_get_put, lemma_get_merge};

        let es = self.record();
        assert(optional(get(es, Key::Server), |j: JsonView| json_text(j)) == Some(self.server));
        assert(optional(get(es, Key::Strategy), |j: JsonView| json_text(j)) == Some(self.strategy));
        assert(optional(get(es, Key::DisableCache), |j: JsonView| json_bool(j)) == Some(self.disable_cache));
        assert(optional(get(es, Key::RewriteTtl), |j: JsonView| json_u32(j)) == Some(self.rewrite_ttl));
        assert(optional(get(es, Key::ClientSubnet), |j: JsonView| json_text(j)) == Some(self.client_subnet));
    }
}

impl ResolveOptionsNoAction {
    /// The entries of the record that stands for the value, as
    /// `ResolveOptionsNoActionView::record` lists them.
    pub fn record(&self) -> (r: Vec<(Key, Json)>)
        ensures
            r.deep_view() == self@.record(),
    {
        let mut es: Vec<(Key, Json)> = no_entries();
        let ghost s = Seq::<(Key, JsonView)>::empty();
        let value = match &self.server {
            Some(x) => Some(Json::Text(x.clone())),
            None => None,
        };
        put_field(&mut es, Key::Server, value);
        let ghost s = put(s, Key::Server, present(self@.server, |x: Seq<char>| text_json(x)));
        assert(es.deep_view() == s);
        let value = match &self.strategy {
            Some(x) => Some(Json::Text(x.clone())),
            None => None,
        };
        put_field(&mut es, Key::Strategy, value);
        let ghost s = put(s, Key::Strategy, present(self@.strategy, |x: Seq<char>| text_json(x)));
        assert(es.deep_view() == s);
        let value = match &self.disable_cache {
            Some(x) => Some(Json::Bool(*x)),
            None => None,
        };
        put_field(&mut es, Key::DisableCache, value);
        let ghost s = put(s, Key::DisableCache, present(self@.disable_cache, |x: bool| bool_json(x)));
        assert(es.deep_view() == s);
        let value = match &self.rewrite_ttl {
            Some(x) => Some(Json::Unsigned(*x as u64)),
            None => None,
        };
        put_field(&mut es, Key::RewriteTtl, value);
        let ghost s = put(s, Key::RewriteTtl, present(self@.rewrite_ttl, |x: u32| u32_json(x)));
        assert(es.deep_view() == s);
        let value = match &self.client_subnet {
            Some(x) => Some(Json::Text(x.clone())),
            None => None,
        };
        put_field(&mut es, Key::ClientSubnet, value);
        let ghost s = put(s, Key::ClientSubnet, present(self@.client_subnet, |x: Seq<char>| text_json(x)));
        assert(es.deep_view() == s);
        es
    }

    /// The record that stands for the value.
    pub fn to_json(&self) -> (r: Json)
        ensures
            r@ == self@.to_json(),
    {
        let r = Json::Record(self.record());
        proof {
            lemma_json_view(r);
        }
        r
    }

    /// Reads the value from the entries of an object, as
    /// `ResolveOptionsNoActionView::from_record` says.
    pub fn from_record(es: &Vec<(Key, &Json)>) -> (r: Result<ResolveOptionsNoAction, SchemaMismatch>)
        ensures
            match r {
                Ok(x) => ResolveOptionsNoActionView::from_record(es.deep_view()) == Some(x@),
                Err(_) => ResolveOptionsNoActionView::from_record(es.deep_view()) is None,
            },
    {
        let server = match get_field(es, Key::Server) {
            Some(j) => if is_null(j) {
                None
            } else {
                match read_text(j) {
                    Ok(x) => Some(x),
                    Err(e) => {
                        return Err(e);
                    },
                }
            },
            None => None,
        };
        assert(optional(get(es.deep_view(), Key::Server), |j: JsonView| json_text(j)) == Some(server.deep_view()));
        let strategy = match get_field(es, Key::Strategy) {
            Some(j) => if is_null(j) {
                None
            } else {
                match read_text(j) {
                    Ok(x) => Some(x),
                    Err(e) => {
                        return Err(e);
                    },
                }
            },
            None => None,
        };
        assert(optional(get(es.deep_view(), Key::Strategy), |j: JsonView| json_text(j)) == Some(strategy.deep_view()));
        let disable_cache = match get_field(es, Key::DisableCache) {
            Some(j) => if is_null(j) {
                None
            } else {
                match read_bool(j) {
                    Ok(x) => Some(x),
                    Err(e) => {
                        return Err(e);
                    },
                }
            },
            None => None,
        };
        assert(optional(get(es.deep_view(), Key::DisableCache), |j: JsonView| json_bool(j)) == Some(disable_cache.deep_view()));
        let rewrite_ttl = match get_field(es, Key::RewriteTtl) {
            Some(j) => if is_null(j) {
                None
            } else {
                match read_u32(j) {
                    Ok(x) => Some(x),
                    Err(e) => {
                        return Err(e);
                    },
                }
            },
            None => None,
        };
        assert(optional(get(es.deep_view(), Key::RewriteTtl), |j: JsonView| json_u32(j)) == Some(rewrite_ttl.deep_view()));
        let client_subnet = match get_field(es, Key::ClientSubnet) {
            Some(j) => if is_null(j) {
                None
            } else {
                match read_text(j) {
                    Ok(x) => Some(x),
                    Err(e) => {
                        return Err(e);
                    },
                }
            },
            None => None,
        };
        assert(optional(get(es.deep_view(), Key::ClientSubnet), |j: JsonView| json_text(j)) == Some(client_subnet.deep_view()));
        Ok(ResolveOptionsNoAction { server, strategy, disable_cache, rewrite_ttl, client_subnet })
    }

    /// Reads the value from an object, as `ResolveOptionsNoActionView::from_json` says.
    pub fn from_json(j: &Json) -> (r: Result<ResolveOptionsNoAction, SchemaMismatch>)
        ensures
            match r {
                Ok(x) => ResolveOptionsNoActionView::from_json(j@) == Some(x@),
                Err(_) => ResolveOptionsNoActionView::from_json(j@) is None,
            },
    {
        match read_entries(j) {
            Ok(es) => ResolveOptionsNoAction::from_record(&es),
            Err(e) => Err(e),
        }
    }
}

/// The resolver of the route section: a DNS server by its tag, or options.
#[derive(Debug, Clone, PartialEq)]
pub enum DomainResolver {
    /// The tag of a DNS server.
    Tag(String),
    /// Options that name a server.
    Options(ResolveOptionsNoAction),
}

/// What a [`DomainResolver`] holds, with every text as its characters.
pub enum DomainResolverView {
    Tag(Seq<char>),
    Options(ResolveOptionsNoActionView),
}

impl DeepView for DomainResolver {
    type V = DomainResolverView;

    open spec fn deep_view(&self) -> DomainResolverView {
        match self {
            DomainResolver::Tag(x) => DomainResolverView::Tag(x.deep_view()),
            DomainResolver::Options(x) => DomainResolverView::Options(x.deep_view()),
        }
    }
}

impl View for DomainResolver {
    type V = DomainResolverView;

    open spec fn view(&self) -> DomainResolverView {
        self.deep_view()
    }
}

impl DomainResolverView {
    /// The value of the tree that stands for the value: that of what it holds.
    pub open spec fn to_json(self) -> JsonView {
        match self {
            DomainResolverView::Tag(x) => text_json(x),
            DomainResolverView::Options(x) => x.to_json(),
        }
    }

    /// The value that a value of the tree stands for: of the first kind
    /// that it can be read as.
    pub open spec fn from_json(j: JsonView) -> Option<DomainResolverView> {
        match json_text(j) {
            Some(x) => Some(DomainResolverView::Tag(x)),
            None =>
            match ResolveOptionsNoActionView::from_json(j) {
                Some(x) => Some(DomainResolverView::Options(x)),
                None => None,
            },
        }
    }

    /// Whether the value is written in a form from which it is read back.
    pub open spec fn canonical(self) -> bool {
        match self {
            DomainResolverView::Tag(x) => true,
            DomainResolverView::Options(x) => x.canonical(),
        }
    }

    /// The value is read back from the value of the tree that stands for it.
    pub proof fn lemma_round_trip(self)
        requires
            self.canonical(),
        ensures
            DomainResolverView::from_json(self.to_json()) == Some(self),
            self.to_json() != JsonView::Null,
    {
        match self {
            DomainResolverView::Tag(x) => {
            },
            DomainResolverView::Options(x) => {
                x.lemma_round_trip();
            },
        }
    }
}

impl DomainResolver {
    /// The value of the tree that stands for the value.
    pub fn to_json(&self) -> (r: Json)
        ensures
            r@ == self@.to_json(),
    {
        match self {
            DomainResolver::Tag(x) => Json::Text(x.clone()),
            DomainResolver::Options(x) => x.to_json(),
        }
    }

    /// Reads the value, as `DomainResolverView::from_json` says.
    pub fn from_json(j: &Json) -> (r: Result<DomainResolver, SchemaMismatch>)
        ensures
            match r {
                Ok(x) => DomainResolverView::from_json(j@) == Some(x@),
                Err(_) => DomainResolverView::from_json(j@) is None,
            },
    {
        match read_text(j) {
            Ok(x) => {
                return Ok(DomainResolver::Tag(x));
            },
            Err(_) => {},
        }
        match ResolveOptionsNoAction::from_json(j) {
            Ok(x) => {
                return Ok(DomainResolver::Options(x));
            },
            Err(_) => {},
        }
        Err(SchemaMismatch)
    }
}

/// The route section: its rules, its rule sets, and the outbound that takes what no rule matches.
#[derive(Debug, PartialEq)]
pub struct RouteConfig {
    pub rules: Option<Vec<RouteRule>>,
    pub rule_set: Option<Vec<RuleSet>>,
    pub default: Option<String>,
    pub auto_detect_interface: Option<bool>,
    pub override_android_vpn: Option<bool>,
    pub default_interface: Option<String>,
    pub default_mark: Option<u32>,
    pub default_domain_resolver: Option<DomainResolver>,
    pub default_network_strategy: Option<String>,
    pub default_network_type: Option<Vec<String>>,
    pub default_fallback_network_type: Option<Vec<String>>,
    pub default_fallback_delay: Option<String>,
}

/// What a [`RouteConfig`] holds, with every text as its characters.
pub struct RouteConfigView {
    pub rules: Option<Seq<RouteRuleView>>,
    pub rule_set: Option<Seq<RuleSetView>>,
    pub default: Option<Seq<char>>,
    pub auto_detect_interface: Option<bool>,
    pub override_android_vpn: Option<bool>,
    pub default_interface: Option<Seq<char>>,
    pub default_mark: Option<u32>,
    pub default_domain_resolver: Option<DomainResolverView>,
    pub default_network_strategy: Option<Seq<char>>,
    pub default_network_type: Option<Seq<Seq<char>>>,
    pub default_fallback_network_type: Option<Seq<Seq<char>>>,
    pub default_fallback_delay: Option<Seq<char>>,
}

impl DeepView for RouteConfig {
    type V = RouteConfigView;

    open spec fn deep_view(&self) -> RouteConfigView {
        RouteConfigView {
            rules: self.rules.deep_view(),
            rule_set: self.rule_set.deep_view(),
            default: self.default.deep_view(),
            auto_detect_interface: self.auto_detect_interface.deep_view(),
            override_android_vpn: self.override_android_vpn.deep_view(),
            default_interface: self.default_interface.deep_view(),
            default_mark: self.default_mark.deep_view(),
            default_domain_resolver: self.default_domain_resolver.deep_view(),
            default_network_strategy: self.default_network_strategy.deep_view(),
            default_network_type: self.default_network_type.deep_view(),
            default_fallback_network_type: self.default_fallback_network_type.deep_view(),
            default_fallback_delay: self.default_fallback_delay.deep_view(),
        }
    }
}

impl View for RouteConfig {
    type V = RouteConfigView;

    open spec fn view(&self) -> RouteConfigView {
        self.deep_view()
    }
}

impl RouteConfigView {
    /// The view of what [`RouteConfig::new`] returns.
    pub open spec fn fresh() -> RouteConfigView {
        RouteConfigView {
            rules: None,
            rule_set: None,
            default: None,
            auto_detect_interface: None,
            override_android_vpn: None,
            default_interface: None,
            default_mark: None,
            default_domain_resolver: None,
            default_network_strategy: None,
            default_network_type: None,
            default_fallback_network_type: None,
            default_fallback_delay: None,
        }
    }
}

impl RouteConfig {
    /// A route section with nothing set.
    pub fn new() -> (r: Self)
        ensures
            r@ == RouteConfigView::fresh(),
    {
        RouteConfig {
            rules: None,
            rule_set: None,
            default: None,
            auto_detect_interface: None,
            override_android_vpn: None,
            default_interface: None,
            default_mark: None,
            default_domain_resolver: None,
            default_network_strategy: None,
            default_network_type: None,
            default_fallback_network_type: None,
            default_fallback_delay: None,
        }
    }
}

impl RouteConfigView {
    /// The entries of the record that stands for the value: one for each
    /// field that is set, in the order of the fields.
    pub open spec fn record(self) -> Entries {
        let es = Seq::empty();
        let es = put(es, Key::Rules, present(self.rules, |x: Seq<RouteRuleView>| route_rule_list_json(x)));
        let es = put(es, Key::RuleSet, present(self.rule_set, |x: Seq<RuleSetView>| rule_set_list_json(x)));
        let es = put(es, Key::Final, present(self.default, |x: Seq<char>| text_json(x)));
        let es = put(es, Key::AutoDetectInterface, present(self.auto_detect_interface, |x: bool| bool_json(x)));
        let es = put(es, Key::OverrideAndroidVpn, present(self.override_android_vpn, |x: bool| bool_json(x)));
        let es = put(es, Key::DefaultInterface, present(self.default_interface, |x: Seq<char>| text_json(x)));
        let es = put(es, Key::DefaultMark, present(self.default_mark, |x: u32| u32_json(x)));
        let es = put(es, Key::DefaultDomainResolver, present(self.default_domain_resolver, |x: DomainResolverView| x.to_json()));
        let es = put(es, Key::DefaultNetworkStrategy, present(self.default_network_strategy, |x: Seq<char>| text_json(x)));
        let es = put(es, Key::DefaultNetworkType, present(self.default_network_type, |x: Seq<Seq<char>>| text_list_json(x)));
        let es = put(es, Key::DefaultFallbackNetworkType, present(self.default_fallback_network_type, |x: Seq<Seq<char>>| text_list_json(x)));
        let es = put(es, Key::DefaultFallbackDelay, present(self.default_fallback_delay, |x: Seq<char>| text_json(x)));
        es
    }

    /// The record that stands for the value.
    pub open spec fn to_json(self) -> JsonView {
        JsonView::Record(self.record())
    }

    /// The value that the entries of an object stand for. Fails where an
    /// entry holds a value of the wrong shape.
    pub open spec fn from_record(es: Entries) -> Option<RouteConfigView> {
        let rules = optional(get(es, Key::Rules), |j: JsonView| json_route_rule_list(j));
        let rule_set = optional(get(es, Key::RuleSet), |j: JsonView| json_rule_set_list(j));
        let default = optional(get(es, Key::Final), |j: JsonView| json_text(j));
        let auto_detect_interface = optional(get(es, Key::AutoDetectInterface), |j: JsonView| json_bool(j));
        let override_android_vpn = optional(get(es, Key::OverrideAndroidVpn), |j: JsonView| json_bool(j));
        let default_interface = optional(get(es, Key::DefaultInterface), |j: JsonView| json_text(j));
        let default_mark = optional(get(es, Key::DefaultMark), |j: JsonView| json_u32(j));
        let default_domain_resolver = optional(get(es, Key::DefaultDomainResolver), |j: JsonView| DomainResolverView::from_json(j));
        let default_network_strategy = optional(get(es, Key::DefaultNetworkStrategy), |j: JsonView| json_text(j));
        let default_network_type = optional(get(es, Key::DefaultNetworkType), |j: JsonView| json_text_list(j));
        let default_fallback_network_type = optional(get(es, Key::DefaultFallbackNetworkType), |j: JsonView| json_text_list(j));
        let default_fallback_delay = optional(get(es, Key::DefaultFallbackDelay), |j: JsonView| json_text(j));
        if rules is Some
            && rule_set is Some
            && default is Some
            && auto_detect_interface is Some
            && override_android_vpn is Some
            && default_interface is Some
            && default_mark is Some
            && default_domain_resolver is Some
            && default_network_strategy is Some
            && default_network_type is Some
            && default_fallback_network_type is Some
            && default_fallback_delay is Some {
            Some(
                RouteConfigView {
                    rules: rules->0,
                    rule_set: rule_set->0,
                    default: default->0,
                    auto_detect_interface: auto_detect_interface->0,
                    override_android_vpn: override_android_vpn->0,
                    default_interface: default_interface->0,
                    default_mark: default_mark->0,
                    default_domain_resolver: default_domain_resolver->0,
                    default_network_strategy: default_network_strategy->0,
                    default_network_type: default_network_type->0,
                    default_fallback_network_type: default_fallback_network_type->0,
                    default_fallback_delay: default_fallback_delay->0,
                },
            )
        } else {
            None
        }
    }

    /// The value that an object stands for; none for a value that is no
    /// object.
    pub open spec fn from_json(j: JsonView) -> Option<RouteConfigView> {
        match entries_of(j) {
            Some(es) => RouteConfigView::from_record(es),
            None => None,
        }
    }

    /// Whether the value is written in a form from which it is read back:
    /// the values that it holds are, and a group of fields that is present
    /// sets at least one of them.
    pub open spec fn canonical(self) -> bool {
        &&& match self.rules {
            Some(x) => canonical_route_rule_list(x),
            None => true,
        }
        &&& match self.rule_set {
            Some(x) => canonical_rule_set_list(x),
            None => true,
        }
        &&& match self.default_domain_resolver {
            Some(x) => x.canonical(),
            None => true,
        }
    }

    /// The value is read back from the record that stands for it.
    pub proof fn lemma_round_trip(self)
        requires
            self.canonical(),
        ensures
            RouteConfigView::from_record(self.record()) == Some(self),
            RouteConfigView::from_json(self.to_json()) == Some(self),
    {
        broadcast use {lemma_get_empty, lemma_get_put, lemma_get_merge};

        let es = self.record();
        match self.rules {
            Some(x) => {
                lemma_route_rule_list(x);
            },
            None => {},
        }
        assert(optional(get(es, Key::Rules), |j: JsonView| json_route_rule_list(j)) == Some(self.rules));
        match self.rule_set {
            Some(x) => {
                lemma_rule_set_list(x);
            },
            None => {},
        }
        assert(optional(get(es, Key::RuleSet), |j: JsonView| json_rule_set_list(j)) == Some(self.rule_set));
        assert(optional(get(es, Key::Final), |j: JsonView| json_text(j)) == Some(self.default));
        assert(optional(get(es, Key::AutoDetectInterface), |j: JsonView| json_bool(j)) == Some(self.auto_detect_interface));
        assert(optional(get(es, Key::OverrideAndroidVpn), |j: JsonView| json_bool(j)) == Some(self.override_android_vpn));
        assert(optional(get(es, Key::DefaultInterface), |j: JsonView| json_text(j)) == Some(self.default_interface));
        assert(optional(get(es, Key::DefaultMark), |j: JsonView| json_u32(j)) == Some(self.default_mark));
        match self.default_domain_resolver {
            Some(x) => {
                x.lemma_round_trip();
            },
            None => {},
        }
        assert(optional(get(es, Key::DefaultDomainResolver), |j: JsonView| DomainResolverView::from_json(j)) == Some(self.default_domain_resolver));
        assert(optional(get(es, Key::DefaultNetworkStrategy), |j: JsonView| json_text(j)) == Some(self.default_network_strategy));
        match self.default_network_type {
            Some(x) => {
                lemma_text_list(x);
            },
            None => {},
        }
        assert(optional(get(es, Key::DefaultNetworkType), |j: JsonView| json_text_list(j)) == Some(self.default_network_type));
        match self.default_fallback_network_type {
            Some(x) => {
                lemma_text_list(x);
            },
            None => {},
        }
        assert(optional(get(es, Key::DefaultFallbackNetworkType), |j: JsonView| json_text_list(j)) == Some(self.default_fallback_network_type));
        assert(optional(get(es, Key::DefaultFallbackDelay), |j: JsonView| json_text(j)) == Some(self.default_fallback_delay));
    }
}

impl RouteConfig {
    /// The entries of the record that stands for the value, as
    /// `RouteConfigView::record` lists them.
    pub fn record(&self) -> (r: Vec<(Key, Json)>)
        ensures
            r.deep_view() == self@.record(),
    {
        let mut es: Vec<(Key, Json)> = no_entries();
        let ghost s = Seq::<(Key, JsonView)>::empty();
        let value = match &self.rules {
            Some(x) => Some(write_route_rule_list(x)),
            None => None,
        };
        put_field(&mut es, Key::Rules, value);
        let ghost s = put(s, Key::Rules, present(self@.rules, |x: Seq<RouteRuleView>| route_rule_list_json(x)));
        assert(es.deep_view() == s);
        let value = match &self.rule_set {
            Some(x) => Some(write_rule_set_list(x)),
            None => None,
        };
        put_field(&mut es, Key::RuleSet, value);
        let ghost s = put(s, Key::RuleSet, present(self@.rule_set, |x: Seq<RuleSetView>| rule_set_list_json(x)));
        assert(es.deep_view() == s);
        let value = match &self.default {
            Some(x) => Some(Json::Text(x.clone())),
            None => None,
        };
        put_field(&mut es, Key::Final, value);
        let ghost s = put(s, Key::Final, present(self@.default, |x: Seq<char>| text_json(x)));
        assert(es.deep_view() == s);
        let value = match &self.auto_detect_interface {
            Some(x) => Some(Json::Bool(*x)),
            None => None,
        };
        put_field(&mut es, Key::AutoDetectInterface, value);
        let ghost s = put(s, Key::AutoDetectInterface, present(self@.auto_detect_interface, |x: bool| bool_json(x)));
        assert(es.deep_view() == s);
        let value = match &self.override_android_vpn {
            Some(x) => Some(Json::Bool(*x)),
            None => None,
        };
        put_field(&mut es, Key::OverrideAndroidVpn, value);
        let ghost s = put(s, Key::OverrideAndroidVpn, present(self@.override_android_vpn, |x: bool| bool_json(x)));
        assert(es.deep_view() == s);
        let value = match &self.default_interface {
            Some(x) => Some(Json::Text(x.clone())),
            None => None,
        };
        put_field(&mut es, Key::DefaultInterface, value);
        let ghost s = put(s, Key::DefaultInterface, present(self@.default_interface, |x: Seq<char>| text_json(x)));
        assert(es.deep_view() == s);
        let value = match &self.default_mark {
            Some(x) => Some(Json::Unsigned(*x as u64)),
            None => None,
        };
        put_field(&mut es, Key::DefaultMark, value);
        let ghost s = put(s, Key::DefaultMark, present(self@.default_mark, |x: u32| u32_json(x)));
        assert(es.deep_view() == s);
        let value = match &self.default_domain_resolver {
            Some(x) => Some(x.to_json()),
            None => None,
        };
        put_field(&mut es, Key::DefaultDomainResolver, value);
        let ghost s = put(s, Key::DefaultDomainResolver, present(self@.default_domain_resolver, |x: DomainResolverView| x.to_json()));
        assert(es.deep_view() == s);
        let value = match &self.default_network_strategy {
            Some(x) => Some(Json::Text(x.clone())),
            None => None,
        };
        put_field(&mut es, Key::DefaultNetworkStrategy, value);
        let ghost s = put(s, Key::DefaultNetworkStrategy, present(self@.default_network_strategy, |x: Seq<char>| text_json(x)));
        assert(es.deep_view() == s);
        let value = match &self.default_network_type {
            Some(x) => Some(write_text_list(x)),
            None => None,
        };
        put_field(&mut es, Key::DefaultNetworkType, value);
        let ghost s = put(s, Key::DefaultNetworkType, present(self@.default_network_type, |x: Seq<Seq<char>>| text_list_json(x)));
        assert(es.deep_view() == s);
        let value = match &self.default_fallback_network_type {
            Some(x) => Some(write_text_list(x)),
            None => None,
        };
        put_field(&mut es, Key::DefaultFallbackNetworkType, value);
        let ghost s = put(s, Key::DefaultFallbackNetworkType, present(self@.default_fallback_network_type, |x: Seq<Seq<char>>| text_list_json(x)));
        assert(es.deep_view() == s);
        let value = match &self.default_fallback_delay {
            Some(x) => Some(Json::Text(x.clone())),
            None => None,
        };
        put_field(&mut es, Key::DefaultFallbackDelay, value);
        let ghost s = put(s, Key::DefaultFallbackDelay, present(self@.default_fallback_delay, |x: Seq<char>| text_json(x)));
        assert(es.deep_view() == s);
        es
    }

    /// The record that stands for the value.
    pub fn to_json(&self) -> (r: Json)
        ensures
            r@ == self@.to_json(),
    {
        let r = Json::Record(self.record());
        proof {
            lemma_json_view(r);
        }
        r
    }

    /// Reads the value from the entries of an object, as
    /// `RouteConfigView::from_record` says.
    pub fn from_record(es: &Vec<(Key, &Json)>) -> (r: Result<RouteConfig, SchemaMismatch>)
        ensures
            match r {
                Ok(x) => RouteConfigView::from_record(es.deep_view()) == Some(x@),
                Err(_) => RouteConfigView::from_record(es.deep_view()) is None,
            },
    {
        let rules = match get_field(es, Key::Rules) {
            Some(j) => if is_null(j) {
                None
            } else {
                match read_route_rule_list(j) {
                    Ok(x) => Some(x),
                    Err(e) => {
                        return Err(e);
                    },
                }
            },
            None => None,
        };
        assert(optional(get(es.deep_view(), Key::Rules), |j: JsonView| json_route_rule_list(j)) == Some(rules.deep_view()));
        let rule_set = match get_field(es, Key::RuleSet) {
            Some(j) => if is_null(j) {
                None
            } else {
                match read_rule_set_list(j) {
                    Ok(x) => Some(x),
                    Err(e) => {
                        return Err(e);
                    },
                }
            },
            None => None,
        };
        assert(optional(get(es.deep_view(), Key::RuleSet), |j: JsonView| json_rule_set_list(j)) == Some(rule_set.deep_view()));
        let default = match get_field(es, Key::Final) {
            Some(j) => if is_null(j) {
                None
            } else {
                match read_text(j) {
                    Ok(x) => Some(x),
                    Err(e) => {
                        return Err(e);
                    },
                }
            },
            None => None,
        };
        assert(optional(get(es.deep_view(), Key::Final), |j: JsonView| json_text(j)) == Some(default.deep_view()));
        let auto_detect_interface = match get_field(es, Key::AutoDetectInterface) {
            Some(j) => if is_null(j) {
                None
            } else {
                match read_bool(j) {
                    Ok(x) => Some(x),
                    Err(e) => {
                        return Err(e);
                    },
                }
            },
            None => None,
        };
        assert(optional(get(es.deep_view(), Key::AutoDetectInterface), |j: JsonView| json_bool(j)) == Some(auto_detect_interface.deep_view()));
        let override_android_vpn = match get_field(es, Key::OverrideAndroidVpn) {
            Some(j) => if is_null(j) {
                None
            } else {
                match read_bool(j) {
                    Ok(x) => Some(x),
                    Err(e) => {
                        return Err(e);
                    },
                }
            },
            None => None,
        };
        assert(optional(get(es.deep_view(), Key::OverrideAndroidVpn), |j: JsonView| json_bool(j)) == Some(override_android_vpn.deep_view()));
        let default_interface = match get_field(es, Key::DefaultInterface) {
            Some(j) => if is_null(j) {
                None
            } else {
                match read_text(j) {
                    Ok(x) => Some(x),
                    Err(e) => {
                        return Err(e);
                    },
                }
            },
            None => None,
        };
        assert(optional(get(es.deep_view(), Key::DefaultInterface), |j: JsonView| json_text(j)) == Some(default_interface.deep_view()));
        let default_mark = match get_field(es, Key::DefaultMark) {
            Some(j) => if is_null(j) {
                None
            } else {
                match read_u32(j) {
                    Ok(x) => Some(x),
                    Err(e) => {
                        return Err(e);
                    },
                }
            },
            None => None,
        };
        assert(optional(get(es.deep_view(), Key::DefaultMark), |j: JsonView| json_u32(j)) == Some(default_mark.deep_view()));
        let default_domain_resolver = match get_field(es, Key::DefaultDomainResolver) {
            Some(j) => if is_null(j) {
                None
            } else {
                match DomainResolver::from_json(j) {
                    Ok(x) => Some(x),
                    Err(e) => {
                        return Err(e);
                    },
                }
            },
            None => None,
        };
        assert(optional(get(es.deep_view(), Key::DefaultDomainResolver), |j: JsonView| DomainResolverView::from_json(j)) == Some(default_domain_resolver.deep_view()));
        let default_network_strategy = match get_field(es, Key::DefaultNetworkStrategy) {
            Some(j) => if is_null(j) {
                None
            } else {
                match read_text(j) {
                    Ok(x) => Some(x),
                    Err(e) => {
                        return Err(e);
                    },
                }
            },
            None => None,
        };
        assert(optional(get(es.deep_view(), Key::DefaultNetworkStrategy), |j: JsonView| json_text(j)) == Some(default_network_strategy.deep_view()));
        let default_network_type = match get_field(es, Key::DefaultNetworkType) {
            Some(j) => if is_null(j) {
                None
            } else {
                match read_text_list(j) {
                    Ok(x) => Some(x),
                    Err(e) => {
                        return Err(e);
                    },
                }
            },
            None => None,
        };
        assert(optional(get(es.deep_view(), Key::DefaultNetworkType), |j: JsonView| json_text_list(j)) == Some(default_network_type.deep_view()));
        let default_fallback_network_type = match get_field(es, Key::DefaultFallbackNetworkType) {
            Some(j) => if is_null(j) {
                None
            } else {
                match read_text_list(j) {
                    Ok(x) => Some(x),
                    Err(e) => {
                        return Err(e);
                    },
                }
            },
            None => None,
        };
        assert(optional(get(es.deep_view(), Key::DefaultFallbackNetworkType), |j: JsonView| json_text_list(j)) == Some(default_fallback_network_type.deep_view()));
        let default_fallback_delay = match get_field(es, Key::DefaultFallbackDelay) {
            Some(j) => if is_null(j) {
                None
            } else {
                match read_text(j) {
                    Ok(x) => Some(x),
                    Err(e) => {
                        return Err(e);
                    },
                }
            },
            None => None,
        };
        assert(optional(get(es.deep_view(), Key::DefaultFallbackDelay), |j: JsonView| json_text(j)) == Some(default_fallback_delay.deep_view()));
        Ok(RouteConfig { rules, rule_set, default, auto_detect_interface, override_android_vpn, default_interface, default_mark, default_domain_resolver, default_network_strategy, default_network_type, default_fallback_network_type, default_fallback_delay })
    }

    /// Reads the value from an object, as `RouteConfigView::from_json` says.
    pub fn from_json(j: &Json) -> (r: Result<RouteConfig, SchemaMismatch>)
        ensures
            match r {
                Ok(x) => RouteConfigView::from_json(j@) == Some(x@),
                Err(_) => RouteConfigView::from_json(j@) is None,
            },
    {
        match read_entries(j) {
            Ok(es) => RouteConfig::from_record(&es),
            Err(e) => Err(e),
        }
    }
}

impl RouteConfigView {
    /// The rule sets of the section, in their order; none where the list is unset.
    pub open spec fn entries(self) -> Seq<RuleSetView> {
        match self.rule_set {
            Some(v) => v,
            None => Seq::empty(),
        }
    }

    /// The tag of the first rule set of type `t`; none where no rule set is of
    /// that type, or the first that is has no tag.
    pub open spec fn tag_of_type(self, t: Seq<char>) -> Option<Seq<char>> {
        match found(self.entries(), marked(Mark::Type, t)) {
            Some(e) => e.tag(),
            None => None,
        }
    }

    /// The first rule set that carries `tag`, if there is one.
    pub open spec fn entry_with_tag(self, tag: Seq<char>) -> Option<RuleSetView> {
        found(self.entries(), marked(Mark::Tag, tag))
    }

    /// Whether a rule set carries `tag`.
    pub open spec fn has_tag(self, tag: Seq<char>) -> bool {
        self.entry_with_tag(tag) is Some
    }

    /// The section with one more rule set at its end.
    pub open spec fn with_entry(self, e: RuleSetView) -> RouteConfigView {
        RouteConfigView { rule_set: Some(self.entries().push(e)), ..self }
    }

    /// The section without the rule sets whose type or tag is `text`.
    pub open spec fn without(self, m: Mark, text: Seq<char>) -> RouteConfigView {
        match self.rule_set {
            Some(v) => RouteConfigView { rule_set: Some(kept(v, unmarked(m, text))), ..self },
            None => self,
        }
    }
}

impl RouteConfig {
    /// Adds a rule set at the end of the section.
    pub fn add_rule_set(&mut self, e: RuleSet) -> (r: &mut Self)
        ensures
            r@ == old(self)@.with_entry(e@),
            *final(self) == *final(r),
    {
        let ghost before = self@.entries();
        let mut list: Vec<RuleSet> = match self.rule_set.take() {
            Some(v) => v,
            None => Vec::new(),
        };
        assert(list.deep_view() =~= before);
        list.push(e);
        assert(list.deep_view() =~= before.push(e@));
        self.rule_set = Some(list);
        self
    }

    /// The tag of the first rule set of the given type, as `tag_of_type` says.
    pub fn get_tag_by_type(&self, kind: &str) -> (r: Option<String>)
        ensures
            r.deep_view() == self@.tag_of_type(kind@),
    {
        let entries: &Vec<RuleSet> = match &self.rule_set {
            Some(v) => v,
            None => {
                return None;
            },
        };
        let i = position(entries, Mark::Type, kind);
        if i < entries.len() {
            assert(entries.deep_view()[i as int] == entries@[i as int]@);
            match entries[i].tag() {
                Some(t) => Some(t.clone()),
                None => None,
            }
        } else {
            None
        }
    }

    /// The first rule set that carries `tag`, if there is one.
    pub fn get_ref_by_tag(&self, tag: &str) -> (r: Option<&RuleSet>)
        ensures
            r.deep_view() == self@.entry_with_tag(tag@),
    {
        let entries: &Vec<RuleSet> = match &self.rule_set {
            Some(v) => v,
            None => {
                return None;
            },
        };
        let i = position(entries, Mark::Tag, tag);
        if i < entries.len() {
            assert(entries.deep_view()[i as int] == entries@[i as int]@);
            Some(&entries[i])
        } else {
            None
        }
    }

    /// Whether a rule set carries `tag`.
    pub fn has_tag(&self, tag: &str) -> (r: bool)
        ensures
            r == self@.has_tag(tag@),
    {
        self.get_ref_by_tag(tag).is_some()
    }

    /// The first rule set that carries `tag`, to be changed in place. What is
    /// written through the reference takes that rule set's place; nothing else
    /// in the section changes.
    pub fn get_mut_by_tag(&mut self, tag: &str) -> (r: Option<&mut RuleSet>)
        ensures
            match r {
                Some(e) => {
                    let i = first_where(old(self)@.entries(), marked(Mark::Tag, tag@));
                    &&& 0 <= i < old(self)@.entries().len()
                    &&& e@ == old(self)@.entries()[i]
                    &&& final(self)@.entries() =~= old(self)@.entries().update(i, final(e)@)
                    &&& final(self)@ == (RouteConfigView {
                        rule_set: Some(final(self)@.entries()),
                        ..old(self)@
                    })
                },
                None => old(self)@.entry_with_tag(tag@) is None && final(self)@ == old(self)@,
            },
    {
        match &mut self.rule_set {
            Some(v) => {
                let i = position(v, Mark::Tag, tag);
                if i < v.len() {
                    assert(v.deep_view()[i as int] == v@[i as int]@);
                    Some(&mut v[i])
                } else {
                    None
                }
            },
            None => None,
        }
    }

    /// Drops every rule set of the given type. Whatever refers to a dropped
    /// rule set by its tag is left as it is.
    pub fn remove_server_by_type(&mut self, kind: &str)
        ensures
            final(self)@ == old(self)@.without(Mark::Type, kind@),
    {
        match &mut self.rule_set {
            Some(v) => {
                drop_marked(v, Mark::Type, kind);
            },
            None => {},
        }
    }

    /// Drops every rule set that carries `tag`. Whatever refers to a dropped
    /// rule set by its tag is left as it is.
    pub fn remove_server_by_tag(&mut self, tag: &str)
        ensures
            final(self)@ == old(self)@.without(Mark::Tag, tag@),
    {
        match &mut self.rule_set {
            Some(v) => {
                drop_marked(v, Mark::Tag, tag);
            },
            None => {},
        }
    }
}

/// The three rules of a seeded document, each of which sends what it
/// matches to the direct outbound: connections that come in under the tag of
/// the local resolver, connections to the DNS port, and connections to
/// private addresses. The rules name the resolver and the outbound by their
/// tags, as the sections hold them now; there are no rules where the local
/// resolver or the direct outbound cannot be named.
pub open spec fn derived_rules(dns: DnsConfigView, outbounds: OutboundConfigView) -> Result<
    Seq<RouteRuleView>,
    CompileError,
> {
    match (dns.tag_of_type(LOCAL_TYPE@), outbounds.tag_of_type(DIRECT_TYPE@)) {
        (Some(resolver), Some(direct)) => Ok(
            seq![
                RouteRuleView::Default(
                    DefaultRouteRuleView {
                        inbound: Some(seq![resolver]),
                        ..DefaultRouteRuleView::routed_to(direct)
                    },
                ),
                RouteRuleView::Default(
                    DefaultRouteRuleView {
                        port: Some(seq![DNS_PORT]),
                        ..DefaultRouteRuleView::routed_to(direct)
                    },
                ),
                RouteRuleView::Default(
                    DefaultRouteRuleView {
                        ip_is_private: Some(true),
                        ..DefaultRouteRuleView::routed_to(direct)
                    },
                ),
            ],
        ),
        _ => Err(CompileError::UnresolvedTagReference),
    }
}

/// Derives the three default rules from the sections, as `derived_rules`
/// says.
pub fn default_rules(dns: &DnsConfig, outbounds: &OutboundConfig) -> (r: Result<
    Vec<RouteRule>,
    CompileError,
>)
    ensures
        match r {
            Ok(rules) => derived_rules(dns@, outbounds@) == Ok::<Seq<RouteRuleView>, CompileError>(
                rules.deep_view(),
            ),
            Err(e) => derived_rules(dns@, outbounds@) == Err::<Seq<RouteRuleView>, CompileError>(e),
        },
{
    let resolver = match DefaultRouteRule::get_dns_tag_by_type(dns, LOCAL_TYPE) {
        Ok(tag) => tag,
        Err(e) => {
            return Err(e);
        },
    };
    let direct = match DefaultRouteRule::set_final_by_type(outbounds, DIRECT_TYPE) {
        Ok(tag) => tag,
        Err(e) => {
            return Err(e);
        },
    };
    let mut by_inbound = DefaultRouteRule::routed_to(direct.clone());
    let mut from: Vec<String> = Vec::new();
    from.push(resolver);
    assert(from.deep_view() =~= seq![resolver@]);
    by_inbound.inbound = Some(from);
    let mut by_port = DefaultRouteRule::routed_to(direct.clone());
    let mut ports: Vec<u16> = Vec::new();
    ports.push(DNS_PORT);
    assert(ports.deep_view() =~= seq![DNS_PORT]);
    by_port.port = Some(ports);
    let mut by_private = DefaultRouteRule::routed_to(direct);
    by_private.ip_is_private = Some(true);
    let mut rules: Vec<RouteRule> = Vec::new();
    rules.push(RouteRule::Default(by_inbound));
    rules.push(RouteRule::Default(by_port));
    rules.push(RouteRule::Default(by_private));
    assert(rules.deep_view() =~= derived_rules(dns@, outbounds@)->Ok_0);
    Ok(rules)
}

/// Whether a reference to an outbound names one that the section holds.
pub open spec fn resolves(target: Option<Seq<char>>, outbounds: OutboundConfigView) -> bool {
    match target {
        Some(tag) => outbounds.has_tag(tag),
        None => false,
    }
}

/// Every rule that is derived from the sections sends its connections to an
/// outbound that the outbound section holds at that moment.
pub proof fn law_derived_rules_resolve(dns: DnsConfigView, outbounds: OutboundConfigView)
    ensures
        derived_rules(dns, outbounds) matches Ok(rules) ==> {
            &&& rules.len() == 3
            &&& forall|i: int|
                0 <= i < rules.len() ==> resolves((#[trigger] rules[i]).target(), outbounds)
        },
{
    match derived_rules(dns, outbounds) {
        Ok(rules) => {
            let direct = outbounds.tag_of_type(DIRECT_TYPE@)->0;
            let by_type = outbound_marked(Mark::Type, DIRECT_TYPE@);
            let by_tag = outbound_marked(Mark::Tag, direct);
            lemma_found_is_entry(outbounds.entries(), by_type);
            let e = found(outbounds.entries(), by_type)->0;
            let k = choose|k: int| 0 <= k < outbounds.entries().len() && outbounds.entries()[k] == e;
            assert(by_tag(outbounds.entries()[k]));
            lemma_found_some(outbounds.entries(), by_tag, k);
            assert forall|i: int| 0 <= i < rules.len() implies resolves(
                (#[trigger] rules[i]).target(),
                outbounds,
            ) by {
                assert(rules[i].target() == Some(direct));
            }
        },
        Err(_) => {},
    }
}

impl RouteConfigView {
    /// The rules of the section, in their order; none where the list is
    /// unset.
    pub open spec fn all_rules(self) -> Seq<RouteRuleView> {
        match self.rules {
            Some(v) => v,
            None => Seq::empty(),
        }
    }

    /// The section with one more rule at the end of its rules.
    pub open spec fn with_rule(self, rule: RouteRuleView) -> RouteConfigView {
        RouteConfigView { rules: Some(self.all_rules().push(rule)), ..self }
    }
}

impl RouteConfig {
    /// Adds a rule at the end of the rules.
    pub fn add_rule(&mut self, rule: RouteRule) -> (r: &mut Self)
        ensures
            r@ == old(self)@.with_rule(rule@),
            *final(self) == *final(r),
    {
        let ghost before = self@.all_rules();
        let mut list: Vec<RouteRule> = match self.rules.take() {
            Some(v) => v,
            None => Vec::new(),
        };
        assert(list.deep_view() =~= before);
        list.push(rule);
        assert(list.deep_view() =~= before.push(rule@));
        self.rules = Some(list);
        self
    }
}

/// The list that stands for a sequence of route rules.
#[verifier::opaque]
pub open spec fn route_rule_list_json(s: Seq<RouteRuleView>) -> JsonView {
    JsonView::List(Seq::new(s.len(), |i: int| s[i].to_json()))
}

/// The sequence of route rules that a list stands for, if each of its values
/// stands for one.
#[verifier::opaque]
pub open spec fn json_route_rule_list(j: JsonView) -> Option<Seq<RouteRuleView>> {
    match j {
        JsonView::List(js) => if forall|i: int|
            0 <= i < js.len() ==> (#[trigger] RouteRuleView::from_json(js[i])) is Some {
            Some(Seq::new(js.len(), |i: int| RouteRuleView::from_json(js[i])->0))
        } else {
            None
        },
        _ => None,
    }
}

/// Whether each of the route rules is written in a form from which it is read
/// back.
pub open spec fn canonical_route_rule_list(s: Seq<RouteRuleView>) -> bool {
    forall|i: int| 0 <= i < s.len() ==> (#[trigger] s[i]).canonical()
}

/// A sequence of route rules is read back from the list that stands for it.
pub proof fn lemma_route_rule_list(s: Seq<RouteRuleView>)
    requires
        canonical_route_rule_list(s),
    ensures
        json_route_rule_list(route_rule_list_json(s)) == Some(s),
        route_rule_list_json(s) is List,
{
    reveal(route_rule_list_json);
    reveal(json_route_rule_list);
    let js = route_rule_list_json(s)->List_0;
    assert forall|i: int| 0 <= i < js.len() implies (#[trigger] RouteRuleView::from_json(js[i])) == Some(s[i]) by {
        s[i].lemma_round_trip();
    }
    assert(Seq::new(js.len(), |i: int| RouteRuleView::from_json(js[i])->0) =~= s);
}

/// Writes a sequence of route rules, as `route_rule_list_json` says.
pub fn write_route_rule_list(v: &Vec<RouteRule>) -> (r: Json)
    ensures
        r@ == route_rule_list_json(v.deep_view()),
{
    reveal(route_rule_list_json);
    let mut out: Vec<Json> = Vec::new();
    let mut i: usize = 0;
    let ghost s = v.deep_view();
    while i < v.len()
        invariant
            i <= v.len(),
            s == v.deep_view(),
            out.deep_view() == Seq::new(i as nat, |k: int| s[k].to_json()),
        decreases v.len() - i,
    {
        let ghost before = out.deep_view();
        let elem = &v[i];
        let item = elem.to_json();
        out.push(item);
        proof {
            assert(s[i as int] == v@[i as int].deep_view());
            assert(out.deep_view() =~= before.push(item@));
            assert(before.push(item@) =~= Seq::new((i + 1) as nat, |k: int| s[k].to_json()));
        }
        i += 1;
    }
    let r = Json::List(out);
    proof {
        lemma_json_view(r);
        assert(out.deep_view() =~= Seq::new(s.len(), |k: int| s[k].to_json()));
    }
    r
}

/// Reads a sequence of route rules, as `json_route_rule_list` says.
pub fn read_route_rule_list(j: &Json) -> (r: Result<Vec<RouteRule>, SchemaMismatch>)
    ensures
        match r {
            Ok(v) => json_route_rule_list(j@) == Some(v.deep_view()),
            Err(_) => json_route_rule_list(j@) is None,
        },
{
    reveal(json_route_rule_list);
    proof {
        lemma_json_view(*j);
    }
    match j {
        Json::List(js) => {
            let mut out: Vec<RouteRule> = Vec::new();
            let mut i: usize = 0;
            let ghost all = js.deep_view();
            while i < js.len()
                invariant
                    i <= js.len(),
                    all == js.deep_view(),
                    j@ == JsonView::List(all),
                    forall|k: int| 0 <= k < i ==> (#[trigger] RouteRuleView::from_json(all[k])) is Some,
                    out.deep_view() == Seq::new(i as nat, |k: int| RouteRuleView::from_json(all[k])->0),
                decreases js.len() - i,
            {
                let ghost before = out.deep_view();
                proof {
                    assert(all[i as int] == js@[i as int]@);
                }
                let value = &js[i];
                match RouteRule::from_json(value) {
                    Ok(x) => {
                        out.push(x);
                        proof {
                            assert(out.deep_view() =~= before.push(x.deep_view()));
                            assert(before.push(x.deep_view()) =~= Seq::new(
                                (i + 1) as nat,
                                |k: int| RouteRuleView::from_json(all[k])->0,
                            ));
                        }
                    },
                    Err(e) => {
                        reveal(json_route_rule_list);
                        assert(RouteRuleView::from_json(all[i as int]) is None);
                        return Err(e);
                    },
                }
                i += 1;
            }
            proof {
                assert(out.deep_view() =~= Seq::new(all.len(), |k: int| RouteRuleView::from_json(all[k])->0));
            }
            Ok(out)
        },
        _ => Err(SchemaMismatch),
    }
}

} // verus!
