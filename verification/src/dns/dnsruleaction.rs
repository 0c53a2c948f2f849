//! What a DNS rule does with a query it matches.

use crate::json::{bool_json, Entries, entries_of, get, get_field, is_null, is_set, is_unset, Json, json_bool, json_text, json_text_list, json_u32, JsonView, Key, lemma_get_empty, lemma_get_merge, lemma_get_put, lemma_json_view, lemma_text_list, no_entries, optional, present, put, put_field, read_bool, read_entries, read_text, read_text_list, read_u32, SchemaMismatch, text_json, text_list_json, u32_json, write_text_list};
use vstd::prelude::*;

verus! {

/// Sends the query to a server.
#[derive(Debug, Clone, PartialEq)]
pub struct DnsRouteAction {
    pub server: Option<String>,
    pub strategy: Option<String>,
    pub disable_cache: Option<bool>,
    pub rewrite_ttl: Option<u32>,
    pub client_subnet: Option<String>,
}

/// What a [`DnsRouteAction`] holds, with every text as its characters.
pub struct DnsRouteActionView {
    pub server: Option<Seq<char>>,
    pub strategy: Option<Seq<char>>,
    pub disable_cache: Option<bool>,
    pub rewrite_ttl: Option<u32>,
    pub client_subnet: Option<Seq<char>>,
}

impl DeepView for DnsRouteAction {
    type V = DnsRouteActionView;

    open spec fn deep_view(&self) -> DnsRouteActionView {
        DnsRouteActionView {
            server: self.server.deep_view(),
            strategy: self.strategy.deep_view(),
            disable_cache: self.disable_cache.deep_view(),
            rewrite_ttl: self.rewrite_ttl.deep_view(),
            client_subnet: self.client_subnet.deep_view(),
        }
    }
}

impl View for DnsRouteAction {
    type V = DnsRouteActionView;

    open spec fn view(&self) -> DnsRouteActionView {
        self.deep_view()
    }
}

impl DnsRouteActionView {
    /// The view of what [`DnsRouteAction::new`] returns.
    pub open spec fn fresh() -> DnsRouteActionView {
        DnsRouteActionView {
            server: None,
            strategy: None,
            disable_cache: None,
            rewrite_ttl: None,
            client_subnet: None,
        }
    }
}

impl DnsRouteAction {
    /// A route action with nothing set.
    pub fn new() -> (r: Self)
        ensures
            r@ == DnsRouteActionView::fresh(),
    {
        DnsRouteAction {
            server: None,
            strategy: None,
            disable_cache: None,
            rewrite_ttl: None,
            client_subnet: None,
        }
    }
}

impl DnsRouteActionView {
    /// The entries of the record that stands for the value: one for each
    /// field that is set, in the order of the fields.
    pub open spec fn record(self) -> Entries {
        let es = Seq::empty();
        let es = put(es, Key::Server, present(self.server, |x: Seq<char>| text_json(x)));
        let es = put(es, Key::Strategy, present(self.strategy, |x: Seq<char>| text_json(x)));
        let es = put(es, Key::DisableCache, present(self.disable_cache, |x: bool| bool_json(x)));
        let es = put(es, Key::RewriteTtl, present(self.rewrite_ttl, |x: u32| u32_json(x)));
        let es = put(es, Key::ClientSubnet, present(self.client_subnet, |x: Seq<char>| text_json(x)));
        es
    }

    /// The record that stands for the value.
    pub open spec fn to_json(self) -> JsonView {
        JsonView::Record(self.record())
    }

    /// The value that the entries of an object stand for. Fails where an
    /// entry holds a value of the wrong shape.
    pub open spec fn from_record(es: Entries) -> Option<DnsRouteActionView> {
        let server = optional(get(es, Key::Server), |j: JsonView| json_text(j));
        let strategy = optional(get(es, Key::Strategy), |j: JsonView| json_text(j));
        let disable_cache = optional(get(es, Key::DisableCache), |j: JsonView| json_bool(j));
        let rewrite_ttl = optional(get(es, Key::RewriteTtl), |j: JsonView| json_u32(j));
        let client_subnet = optional(get(es, Key::ClientSubnet), |j: JsonView| json_text(j));
        if server is Some
            && strategy is Some
            && disable_cache is Some
            && rewrite_ttl is Some
            && client_subnet is Some {
            Some(
                DnsRouteActionView {
                    server: server->0,
                    strategy: strategy->0,
                    disable_cache: disable_cache->0,
                    rewrite_ttl: rewrite_ttl->0,
                    client_subnet: client_subnet->0,
                },
            )
        } else {
            None
        }
    }

    /// The value that an object stands for; none for a value that is no
    /// object.
    pub open spec fn from_json(j: JsonView) -> Option<DnsRouteActionView> {
        match entries_of(j) {
            Some(es) => DnsRouteActionView::from_record(es),
            None => None,
        }
    }

    /// Whether the value is written in a form from which it is read back:
    /// every value of this type is.
    pub open spec fn canonical(self) -> bool {
        true
    }

    /// The value with no field set.
    pub open spec fn blank() -> DnsRouteActionView {
        DnsRouteActionView {
            server: None,
            strategy: None,
            disable_cache: None,
            rewrite_ttl: None,
            client_subnet: None,
        }
    }

    /// The group that the entries of an object stand for where the fields
    /// of the group are written among those of its owner: no group where
    /// none of its fields is set.
    pub open spec fn from_group(es: Entries) -> Option<Option<DnsRouteActionView>> {
        match DnsRouteActionView::from_record(es) {
            Some(x) => if x == DnsRouteActionView::blank() {
                Some(None)
            } else {
                Some(Some(x))
            },
            None => None,
        }
    }

    /// What the group reads depends only on what stands under its keys.
    pub proof fn lemma_reads_own_keys(a: Entries, b: Entries)
        requires
            get(a, Key::Server) == get(b, Key::Server),
            get(a, Key::Strategy) == get(b, Key::Strategy),
            get(a, Key::DisableCache) == get(b, Key::DisableCache),
            get(a, Key::RewriteTtl) == get(b, Key::RewriteTtl),
            get(a, Key::ClientSubnet) == get(b, Key::ClientSubnet),
        ensures
            DnsRouteActionView::from_record(a) == DnsRouteActionView::from_record(b),
            DnsRouteActionView::from_group(a) == DnsRouteActionView::from_group(b),
    {
    }

    /// Entries that hold nothing under the keys of the group stand for no
    /// group.
    pub proof fn lemma_no_group(es: Entries)
        requires
            get(es, Key::Server) is None,
            get(es, Key::Strategy) is None,
            get(es, Key::DisableCache) is None,
            get(es, Key::RewriteTtl) is None,
            get(es, Key::ClientSubnet) is None,
        ensures
            DnsRouteActionView::from_group(es) == Some(None::<DnsRouteActionView>),
    {
    }

    /// The value is read back from the record that stands for it.
    pub proof fn lemma_round_trip(self)
        ensures
            DnsRouteActionView::from_record(self.record()) == Some(self),
            DnsRouteActionView::from_json(self.to_json()) == Some(self),
            self != DnsRouteActionView::blank() ==> DnsRouteActionView::from_group(self.record()) == Some(Some(self)),
    {
        broadcast use {lemma_get_empty, lemma_get_put, lemma_get_merge};

        let es = self.record();
        assert(optional(get(es, Key::Server), |j: JsonView| json_text(j)) == Some(self.server));
        assert(optional(get(es, Key::Strategy), |j: JsonView| json_text(j)) == Some(self.strategy));
        assert(optional(get(es, Key::DisableCache), |j: JsonView| json_bool(j)) == Some(self.disable_cache));
        assert(optional(get(es, Key::RewriteTtl), |j: JsonView| json_u32(j)) == Some(self.rewrite_ttl));
        assert(optional(get(es, Key::ClientSubnet), |j: JsonView| json_text(j)) == Some(self.client_subnet));
    }
}

impl DnsRouteAction {
    /// The entries of the record that stands for the value, as
    /// `DnsRouteActionView::record` lists them.
    pub fn record(&self) -> (r: Vec<(Key, Json)>)
        ensures
            r.deep_view() == self@.record(),
    {
        let mut es: Vec<(Key, Json)> = no_entries();
        let ghost s = Seq::<(Key, JsonView)>::empty();
        let value = match &self.server {
            Some(x) => Some(Json::Text(x.clone())),
            None => None,
        };
        put_field(&mut es, Key::Server, value);
        let ghost s = put(s, Key::Server, present(self@.server, |x: Seq<char>| text_json(x)));
        assert(es.deep_view() == s);
        let value = match &self.strategy {
            Some(x) => Some(Json::Text(x.clone())),
            None => None,
        };
        put_field(&mut es, Key::Strategy, value);
        let ghost s = put(s, Key::Strategy, present(self@.strategy, |x: Seq<char>| text_json(x)));
        assert(es.deep_view() == s);
        let value = match &self.disable_cache {
            Some(x) => Some(Json::Bool(*x)),
            None => None,
        };
        put_field(&mut es, Key::DisableCache, value);
        let ghost s = put(s, Key::DisableCache, present(self@.disable_cache, |x: bool| bool_json(x)));
        assert(es.deep_view() == s);
        let value = match &self.rewrite_ttl {
            Some(x) => Some(Json::Unsigned(*x as u64)),
            None => None,
        };
        put_field(&mut es, Key::RewriteTtl, value);
        let ghost s = put(s, Key::RewriteTtl, present(self@.rewrite_ttl, |x: u32| u32_json(x)));
        assert(es.deep_view() == s);
        let value = match &self.client_subnet {
            Some(x) => Some(Json::Text(x.clone())),
            None => None,
        };
        put_field(&mut es, Key::ClientSubnet, value);
        let ghost s = put(s, Key::ClientSubnet, present(self@.client_subnet, |x: Seq<char>| text_json(x)));
        assert(es.deep_view() == s);
        es
    }

    /// The record that stands for the value.
    pub fn to_json(&self) -> (r: Json)
        ensures
            r@ == self@.to_json(),
    {
        let r = Json::Record(self.record());
        proof {
            lemma_json_view(r);
        }
        r
    }

    /// Reads the value from the entries of an object, as
    /// `DnsRouteActionView::from_record` says.
    pub fn from_record(es: &Vec<(Key, &Json)>) -> (r: Result<DnsRouteAction, SchemaMismatch>)
        ensures
            match r {
                Ok(x) => DnsRouteActionView::from_record(es.deep_view()) == Some(x@),
                Err(_) => DnsRouteActionView::from_record(es.deep_view()) is None,
            },
    {
        let server = match get_field(es, Key::Server) {
            Some(j) => if is_null(j) {
                None
            } else {
                match read_text(j) {
                    Ok(x) => Some(x),
                    Err(e) => {
                        return Err(e);
                    },
                }
            },
            None => None,
        };
        assert(optional(get(es.deep_view(), Key::Server), |j: JsonView| json_text(j)) == Some(server.deep_view()));
        let strategy = match get_field(es, Key::Strategy) {
            Some(j) => if is_null(j) {
                None
            } else {
                match read_text(j) {
                    Ok(x) => Some(x),
                    Err(e) => {
                        return Err(e);
                    },
                }
            },
            None => None,
        };
        assert(optional(get(es.deep_view(), Key::Strategy), |j: JsonView| json_text(j)) == Some(strategy.deep_view()));
        let disable_cache = match get_field(es, Key::DisableCache) {
            Some(j) => if is_null(j) {
                None
            } else {
                match read_bool(j) {
                    Ok(x) => Some(x),
                    Err(e) => {
                        return Err(e);
                    },
                }
            },
            None => None,
        };
        assert(optional(get(es.deep_view(), Key::DisableCache), |j: JsonView| json_bool(j)) == Some(disable_cache.deep_view()));
        let rewrite_ttl = match get_field(es, Key::RewriteTtl) {
            Some(j) => if is_null(j) {
                None
            } else {
                match read_u32(j) {
                    Ok(x) => Some(x),
                    Err(e) => {
                        return Err(e);
                    },
                }
            },
            None => None,
        };
        assert(optional(get(es.deep_view(), Key::RewriteTtl), |j: JsonView| json_u32(j)) == Some(rewrite_ttl.deep_view()));
        let client_subnet = match get_field(es, Key::ClientSubnet) {
            Some(j) => if is_null(j) {
                None
            } else {
                match read_text(j) {
                    Ok(x) => Some(x),
                    Err(e) => {
                        return Err(e);
                    },
                }
            },
            None => None,
        };
        assert(optional(get(es.deep_view(), Key::ClientSubnet), |j: JsonView| json_text(j)) == Some(client_subnet.deep_view()));
        Ok(DnsRouteAction { server, strategy, disable_cache, rewrite_ttl, client_subnet })
    }

    /// Reads the value from an object, as `DnsRouteActionView::from_json` says.
    pub fn from_json(j: &Json) -> (r: Result<DnsRouteAction, SchemaMismatch>)
        ensures
            match r {
                Ok(x) => DnsRouteActionView::from_json(j@) == Some(x@),
                Err(_) => DnsRouteActionView::from_json(j@) is None,
            },
    {
        match read_entries(j) {
            Ok(es) => DnsRouteAction::from_record(&es),
            Err(e) => Err(e),
        }
    }

    /// Whether no field of the group is set.
    pub fn is_blank(&self) -> (r: bool)
        ensures
            r == (self@ == DnsRouteActionView::blank()),
    {
        self.server.is_none()
            && self.strategy.is_none()
            && self.disable_cache.is_none()
            && self.rewrite_ttl.is_none()
            && self.client_subnet.is_none()
    }

    /// Reads the group from the entries of its owner, as
    /// `DnsRouteActionView::from_group` says.
    pub fn from_group(es: &Vec<(Key, &Json)>) -> (r: Result<Option<DnsRouteAction>, SchemaMismatch>)
        ensures
            match r {
                Ok(g) => DnsRouteActionView::from_group(es.deep_view()) == Some(g.deep_view()),
                Err(_) => DnsRouteActionView::from_group(es.deep_view()) is None,
            },
    {
        match DnsRouteAction::from_record(es) {
            Ok(x) => if x.is_blank() {
                Ok(None)
            } else {
                Ok(Some(x))
            },
            Err(e) => Err(e),
        }
    }
}

impl DnsRouteActionView {
    /// The record holds nothing under the key `type`.
    pub proof fn lemma_has_no_type(self)
        ensures
            get(self.record(), Key::Type) is None,
    {
        broadcast use {lemma_get_empty, lemma_get_put, lemma_get_merge};

    }
}

/// Sets options for the query and goes on to the next rule.
#[derive(Debug, Clone, PartialEq)]
pub struct DnsRouteOptionsAction {
    pub disable_cache: Option<bool>,
    pub rewrite_ttl: Option<u32>,
    pub client_subnet: Option<String>,
}

/// What a [`DnsRouteOptionsAction`] holds, with every text as its characters.
pub struct DnsRouteOptionsActionView {
    pub disable_cache: Option<bool>,
    pub rewrite_ttl: Option<u32>,
    pub client_subnet: Option<Seq<char>>,
}

impl DeepView for DnsRouteOptionsAction {
    type V = DnsRouteOptionsActionView;

    open spec fn deep_view(&self) -> DnsRouteOptionsActionView {
        DnsRouteOptionsActionView {
            disable_cache: self.disable_cache.deep_view(),
            rewrite_ttl: self.rewrite_ttl.deep_view(),
            client_subnet: self.client_subnet.deep_view(),
        }
    }
}

impl View for DnsRouteOptionsAction {
    type V = DnsRouteOptionsActionView;

    open spec fn view(&self) -> DnsRouteOptionsActionView {
        self.deep_view()
    }
}

impl DnsRouteOptionsActionView {
    /// The view of what [`DnsRouteOptionsAction::new`] returns.
    pub open spec fn fresh() -> DnsRouteOptionsActionView {
        DnsRouteOptionsActionView {
            disable_cache: None,
            rewrite_ttl: None,
            client_subnet: None,
        }
    }
}

impl DnsRouteOptionsAction {
    /// A route-options action with nothing set.
    pub fn new() -> (r: Self)
        ensures
            r@ == DnsRouteOptionsActionView::fresh(),
    {
        DnsRouteOptionsAction {
            disable_cache: None,
            rewrite_ttl: None,
            client_subnet: None,
        }
    }
}

impl DnsRouteOptionsActionView {
    /// The entries of the record that stands for the value: one for each
    /// field that is set, in the order of the fields.
    pub open spec fn record(self) -> Entries {
        let es = Seq::empty();
        let es = put(es, Key::DisableCache, present(self.disable_cache, |x: bool| bool_json(x)));
        let es = put(es, Key::RewriteTtl, present(self.rewrite_ttl, |x: u32| u32_json(x)));
        let es = put(es, Key::ClientSubnet, present(self.client_subnet, |x: Seq<char>| text_json(x)));
        es
    }

    /// The record that stands for the value.
    pub open spec fn to_json(self) -> JsonView {
        JsonView::Record(self.record())
    }

    /// The value that the entries of an object stand for. Fails where an
    /// entry holds a value of the wrong shape.
    pub open spec fn from_record(es: Entries) -> Option<DnsRouteOptionsActionView> {
        let disable_cache = optional(get(es, Key::DisableCache), |j: JsonView| json_bool(j));
        let rewrite_ttl = optional(get(es, Key::RewriteTtl), |j: JsonView| json_u32(j));
        let client_subnet = optional(get(es, Key::ClientSubnet), |j: JsonView| json_text(j));
        if disable_cache is Some
            && rewrite_ttl is Some
            && client_subnet is Some {
            Some(
                DnsRouteOptionsActionView {
                    disable_cache: disable_cache->0,
                    rewrite_ttl: rewrite_ttl->0,
                    client_subnet: client_subnet->0,
                },
            )
        } else {
            None
        }
    }

    /// The value that an object stands for; none for a value that is no
    /// object.
    pub open spec fn from_json(j: JsonView) -> Option<DnsRouteOptionsActionView> {
        match entries_of(j) {
            Some(es) => DnsRouteOptionsActionView::from_record(es),
            None => None,
        }
    }

    /// Whether the value is written in a form from which it is read back:
    /// every value of this type is.
    pub open spec fn canonical(self) -> bool {
        true
    }

    /// The value with no field set.
    pub open spec fn blank() -> DnsRouteOptionsActionView {
        DnsRouteOptionsActionView {
            disable_cache: None,
            rewrite_ttl: None,
            client_subnet: None,
        }
    }

    /// The group that the entries of an object stand for where the fields
    /// of the group are written among those of its owner: no group where
    /// none of its fields is set.
    pub open spec fn from_group(es: Entries) -> Option<Option<DnsRouteOptionsActionView>> {
        match DnsRouteOptionsActionView::from_record(es) {
            Some(x) => if x == DnsRouteOptionsActionView::blank() {
                Some(None)
            } else {
                Some(Some(x))
            },
            None => None,
        }
    }

    /// What the group reads depends only on what stands under its keys.
    pub proof fn lemma_reads_own_keys(a: Entries, b: Entries)
        requires
            get(a, Key::DisableCache) == get(b, Key::DisableCache),
            get(a, Key::RewriteTtl) == get(b, Key::RewriteTtl),
            get(a, Key::ClientSubnet) == get(b, Key::ClientSubnet),
        ensures
            DnsRouteOptionsActionView::from_record(a) == DnsRouteOptionsActionView::from_record(b),
            DnsRouteOptionsActionView::from_group(a) == DnsRouteOptionsActionView::from_group(b),
    {
    }

    /// Entries that hold nothing under the keys of the group stand for no
    /// group.
    pub proof fn lemma_no_group(es: Entries)
        requires
            get(es, Key::DisableCache) is None,
            get(es, Key::RewriteTtl) is None,
            get(es, Key::ClientSubnet) is None,
        ensures
            DnsRouteOptionsActionView::from_group(es) == Some(None::<DnsRouteOptionsActionView>),
    {
    }

    /// The value is read back from the record that stands for it.
    pub proof fn lemma_round_trip(self)
        ensures
            DnsRouteOptionsActionView::from_record(self.record()) == Some(self),
            DnsRouteOptionsActionView::from_json(self.to_json()) == Some(self),
            self != DnsRouteOptionsActionView::blank() ==> DnsRouteOptionsActionView::from_group(self.record()) == Some(Some(self)),
    {
        broadcast use {lemma_get_empty, lemma_get_put, lemma_get_merge};

        let es = self.record();
        assert(optional(get(es, Key::DisableCache), |j: JsonView| json_bool(j)) == Some(self.disable_cache));
        assert(optional(get(es, Key::RewriteTtl), |j: JsonView| json_u32(j)) == Some(self.rewrite_ttl));
        assert(optional(get(es, Key::ClientSubnet), |j: JsonView| json_text(j)) == Some(self.client_subnet));
    }
}

impl DnsRouteOptionsAction {
    /// The entries of the record that stands for the value, as
    /// `DnsRouteOptionsActionView::record` lists them.
    pub fn record(&self) -> (r: Vec<(Key, Json)>)
        ensures
            r.deep_view() == self@.record(),
    {
        let mut es: Vec<(Key, Json)> = no_entries();
        let ghost s = Seq::<(Key, JsonView)>::empty();
        let value = match &self.disable_cache {
            Some(x) => Some(Json::Bool(*x)),
            None => None,
        };
        put_field(&mut es, Key::DisableCache, value);
        let ghost s = put(s, Key::DisableCache, present(self@.disable_cache, |x: bool| bool_json(x)));
        assert(es.deep_view() == s);
        let value = match &self.rewrite_ttl {
            Some(x) => Some(Json::Unsigned(*x as u64)),
            None => None,
        };
        put_field(&mut es, Key::RewriteTtl, value);
        let ghost s = put(s, Key::RewriteTtl, present(self@.rewrite_ttl, |x: u32| u32_json(x)));
        assert(es.deep_view() == s);
        let value = match &self.client_subnet {
            Some(x) => Some(Json::Text(x.clone())),
            None => None,
        };
        put_field(&mut es, Key::ClientSubnet, value);
        let ghost s = put(s, Key::ClientSubnet, present(self@.client_subnet, |x: Seq<char>| text_json(x)));
        assert(es.deep_view() == s);
        es
    }

    /// The record that stands for the value.
    pub fn to_json(&self) -> (r: Json)
        ensures
            r@ == self@.to_json(),
    {
        let r = Json::Record(self.record());
        proof {
            lemma_json_view(r);
        }
        r
    }

    /// Reads the value from the entries of an object, as
    /// `DnsRouteOptionsActionView::from_record` says.
    pub fn from_record(es: &Vec<(Key, &Json)>) -> (r: Result<DnsRouteOptionsAction, SchemaMismatch>)
        ensures
            match r {
                Ok(x) => DnsRouteOptionsActionView::from_record(es.deep_view()) == Some(x@),
                Err(_) => DnsRouteOptionsActionView::from_record(es.deep_view()) is None,
            },
    {
        let disable_cache = match get_field(es, Key::DisableCache) {
            Some(j) => if is_null(j) {
                None
            } else {
                match read_bool(j) {
                    Ok(x) => Some(x),
                    Err(e) => {
                        return Err(e);
                    },
                }
            },
            None => None,
        };
        assert(optional(get(es.deep_view(), Key::DisableCache), |j: JsonView| json_bool(j)) == Some(disable_cache.deep_view()));
        let rewrite_ttl = match get_field(es, Key::RewriteTtl) {
            Some(j) => if is_null(j) {
                None
            } else {
                match read_u32(j) {
                    Ok(x) => Some(x),
                    Err(e) => {
                        return Err(e);
                    },
                }
            },
            None => None,
        };
        assert(optional(get(es.deep_view(), Key::RewriteTtl), |j: JsonView| json_u32(j)) == Some(rewrite_ttl.deep_view()));
        let client_subnet = match get_field(es, Key::ClientSubnet) {
            Some(j) => if is_null(j) {
                None
            } else {
                match read_text(j) {
                    Ok(x) => Some(x),
                    Err(e) => {
                        return Err(e);
                    },
                }
            },
            None => None,
        };
        assert(optional(get(es.deep_view(), Key::ClientSubnet), |j: JsonView| json_text(j)) == Some(client_subnet.deep_view()));
        Ok(DnsRouteOptionsAction { disable_cache, rewrite_ttl, client_subnet })
    }

    /// Reads the value from an object, as `DnsRouteOptionsActionView::from_json` says.
    pub fn from_json(j: &Json) -> (r: Result<DnsRouteOptionsAction, SchemaMismatch>)
        ensures
            match r {
                Ok(x) => DnsRouteOptionsActionView::from_json(j@) == Some(x@),
                Err(_) => DnsRouteOptionsActionView::from_json(j@) is None,
            },
    {
        match read_entries(j) {
            Ok(es) => DnsRouteOptionsAction::from_record(&es),
            Err(e) => Err(e),
        }
    }

    /// Whether no field of the group is set.
    pub fn is_blank(&self) -> (r: bool)
        ensures
            r == (self@ == DnsRouteOptionsActionView::blank()),
    {
        self.disable_cache.is_none()
            && self.rewrite_ttl.is_none()
            && self.client_subnet.is_none()
    }

    /// Reads the group from the entries of its owner, as
    /// `DnsRouteOptionsActionView::from_group` says.
    pub fn from_group(es: &Vec<(Key, &Json)>) -> (r: Result<Option<DnsRouteOptionsAction>, SchemaMismatch>)
        ensures
            match r {
                Ok(g) => DnsRouteOptionsActionView::from_group(es.deep_view()) == Some(g.deep_view()),
                Err(_) => DnsRouteOptionsActionView::from_group(es.deep_view()) is None,
            },
    {
        match DnsRouteOptionsAction::from_record(es) {
            Ok(x) => if x.is_blank() {
                Ok(None)
            } else {
                Ok(Some(x))
            },
            Err(e) => Err(e),
        }
    }
}

impl DnsRouteOptionsActionView {
    /// The record holds nothing under the key `type`.
    pub proof fn lemma_has_no_type(self)
        ensures
            get(self.record(), Key::Type) is None,
    {
        broadcast use {lemma_get_empty, lemma_get_put, lemma_get_merge};

    }
}

/// Refuses the query.
#[derive(Debug, Clone, PartialEq)]
pub struct DnsRejectAction {
    pub method: Option<String>,
    pub no_drop: Option<bool>,
}

/// What a [`DnsRejectAction`] holds, with every text as its characters.
pub struct DnsRejectActionView {
    pub method: Option<Seq<char>>,
    pub no_drop: Option<bool>,
}

impl DeepView for DnsRejectAction {
    type V = DnsRejectActionView;

    open spec fn deep_view(&self) -> DnsRejectActionView {
        DnsRejectActionView {
            method: self.method.deep_view(),
            no_drop: self.no_drop.deep_view(),
        }
    }
}

impl View for DnsRejectAction {
    type V = DnsRejectActionView;

    open spec fn view(&self) -> DnsRejectActionView {
        self.deep_view()
    }
}

impl DnsRejectActionView {
    /// The view of what [`DnsRejectAction::new`] returns.
    pub open spec fn fresh() -> DnsRejectActionView {
        DnsRejectActionView {
            method: None,
            no_drop: None,
        }
    }
}

impl DnsRejectAction {
    /// A reject action with nothing set.
    pub fn new() -> (r: Self)
        ensures
            r@ == DnsRejectActionView::fresh(),
    {
        DnsRejectAction {
            method: None,
            no_drop: None,
        }
    }
}

impl DnsRejectActionView {
    /// The entries of the record that stands for the value: one for each
    /// field that is set, in the order of the fields.
    pub open spec fn record(self) -> Entries {
        let es = Seq::empty();
        let es = put(es, Key::Method, present(self.method, |x: Seq<char>| text_json(x)));
        let es = put(es, Key::NoDrop, present(self.no_drop, |x: bool| bool_json(x)));
        es
    }

    /// The record that stands for the value.
    pub open spec fn to_json(self) -> JsonView {
        JsonView::Record(self.record())
    }

    /// The value that the entries of an object stand for. Fails where an
    /// entry holds a value of the wrong shape.
    pub open spec fn from_record(es: Entries) -> Option<DnsRejectActionView> {
        let method = optional(get(es, Key::Method), |j: JsonView| json_text(j));
        let no_drop = optional(get(es, Key::NoDrop), |j: JsonView| json_bool(j));
        if method is Some
            && no_drop is Some {
            Some(
                DnsRejectActionView {
                    method: method->0,
                    no_drop: no_drop->0,
                },
            )
        } else {
            None
        }
    }

    /// The value that an object stands for; none for a value that is no
    /// object.
    pub open spec fn from_json(j: JsonView) -> Option<DnsRejectActionView> {
        match entries_of(j) {
            Some(es) => DnsRejectActionView::from_record(es),
            None => None,
        }
    }

    /// Whether the value is written in a form from which it is read back:
    /// every value of this type is.
    pub open spec fn canonical(self) -> bool {
        true
    }

    /// The value with no field set.
    pub open spec fn blank() -> DnsRejectActionView {
        DnsRejectActionView {
            method: None,
            no_drop: None,
        }
    }

    /// The group that the entries of an object stand for where the fields
    /// of the group are written among those of its owner: no group where
    /// none of its fields is set.
    pub open spec fn from_group(es: Entries) -> Option<Option<DnsRejectActionView>> {
        match DnsRejectActionView::from_record(es) {
            Some(x) => if x == DnsRejectActionView::blank() {
                Some(None)
            } else {
                Some(Some(x))
            },
            None => None,
        }
    }

    /// What the group reads depends only on what stands under its keys.
    pub proof fn lemma_reads_own_keys(a: Entries, b: Entries)
        requires
            get(a, Key::Method) == get(b, Key::Method),
            get(a, Key::NoDrop) == get(b, Key::NoDrop),
        ensures
            DnsRejectActionView::from_record(a) == DnsRejectActionView::from_record(b),
            DnsRejectActionView::from_group(a) == DnsRejectActionView::from_group(b),
    {
    }

    /// Entries that hold nothing under the keys of the group stand for no
    /// group.
    pub proof fn lemma_no_group(es: Entries)
        requires
            get(es, Key::Method) is None,
            get(es, Key::NoDrop) is None,
        ensures
            DnsRejectActionView::from_group(es) == Some(None::<DnsRejectActionView>),
    {
    }

    /// The value is read back from the record that stands for it.
    pub proof fn lemma_round_trip(self)
        ensures
            DnsRejectActionView::from_record(self.record()) == Some(self),
            DnsRejectActionView::from_json(self.to_json()) == Some(self),
            self != DnsRejectActionView::blank() ==> DnsRejectActionView::from_group(self.record()) == Some(Some(self)),
    {
        broadcast use {lemma_get_empty, lemma_get_put, lemma_get_merge};

        let es = self.record();
        assert(optional(get(es, Key::Method), |j: JsonView| json_text(j)) == Some(self.method));
        assert(optional(get(es, Key::NoDrop), |j: JsonView| json_bool(j)) == Some(self.no_drop));
    }
}

impl DnsRejectAction {
    /// The entries of the record that stands for the value, as
    /// `DnsRejectActionView::record` lists them.
    pub fn record(&self) -> (r: Vec<(Key, Json)>)
        ensures
            r.deep_view() == self@.record(),
    {
        let mut es: Vec<(Key, Json)> = no_entries();
        let ghost s = Seq::<(Key, JsonView)>::empty();
        let value = match &self.method {
            Some(x) => Some(Json::Text(x.clone())),
            None => None,
        };
        put_field(&mut es, Key::Method, value);
        let ghost s = put(s, Key::Method, present(self@.method, |x: Seq<char>| text_json(x)));
        assert(es.deep_view() == s);
        let value = match &self.no_drop {
            Some(x) => Some(Json::Bool(*x)),
            None => None,
        };
        put_field(&mut es, Key::NoDrop, value);
        let ghost s = put(s, Key::NoDrop, present(self@.no_drop, |x: bool| bool_json(x)));
        assert(es.deep_view() == s);
        es
    }

    /// The record that stands for the value.
    pub fn to_json(&self) -> (r: Json)
        ensures
            r@ == self@.to_json(),
    {
        let r = Json::Record(self.record());
        proof {
            lemma_json_view(r);
        }
        r
    }

    /// Reads the value from the entries of an object, as
    /// `DnsRejectActionView::from_record` says.
    pub fn from_record(es: &Vec<(Key, &Json)>) -> (r: Result<DnsRejectAction, SchemaMismatch>)
        ensures
            match r {
                Ok(x) => DnsRejectActionView::from_record(es.deep_view()) == Some(x@),
                Err(_) => DnsRejectActionView::from_record(es.deep_view()) is None,
            },
    {
        let method = match get_field(es, Key::Method) {
            Some(j) => if is_null(j) {
                None
            } else {
                match read_text(j) {
                    Ok(x) => Some(x),
                    Err(e) => {
                        return Err(e);
                    },
                }
            },
            None => None,
        };
        assert(optional(get(es.deep_view(), Key::Method), |j: JsonView| json_text(j)) == Some(method.deep_view()));
        let no_drop = match get_field(es, Key::NoDrop) {
            Some(j) => if is_null(j) {
                None
            } else {
                match read_bool(j) {
                    Ok(x) => Some(x),
                    Err(e) => {
                        return Err(e);
                    },
                }
            },
            None => None,
        };
        assert(optional(get(es.deep_view(), Key::NoDrop), |j: JsonView| json_bool(j)) == Some(no_drop.deep_view()));
        Ok(DnsRejectAction { method, no_drop })
    }

    /// Reads the value from an object, as `DnsRejectActionView::from_json` says.
    pub fn from_json(j: &Json) -> (r: Result<DnsRejectAction, SchemaMismatch>)
        ensures
            match r {
                Ok(x) => DnsRejectActionView::from_json(j@) == Some(x@),
                Err(_) => DnsRejectActionView::from_json(j@) is None,
            },
    {
        match read_entries(j) {
            Ok(es) => DnsRejectAction::from_record(&es),
            Err(e) => Err(e),
        }
    }

    /// Whether no field of the group is set.
    pub fn is_blank(&self) -> (r: bool)
        ensures
            r == (self@ == DnsRejectActionView::blank()),
    {
        self.method.is_none()
            && self.no_drop.is_none()
    }

    /// Reads the group from the entries of its owner, as
    /// `DnsRejectActionView::from_group` says.
    pub fn from_group(es: &Vec<(Key, &Json)>) -> (r: Result<Option<DnsRejectAction>, SchemaMismatch>)
        ensures
            match r {
                Ok(g) => DnsRejectActionView::from_group(es.deep_view()) == Some(g.deep_view()),
                Err(_) => DnsRejectActionView::from_group(es.deep_view()) is None,
            },
    {
        match DnsRejectAction::from_record(es) {
            Ok(x) => if x.is_blank() {
                Ok(None)
            } else {
                Ok(Some(x))
            },
            Err(e) => Err(e),
        }
    }
}

impl DnsRejectActionView {
    /// The record holds nothing under the key `type`.
    pub proof fn lemma_has_no_type(self)
        ensures
            get(self.record(), Key::Type) is None,
    {
        broadcast use {lemma_get_empty, lemma_get_put, lemma_get_merge};

    }
}

/// Answers the query with fixed records.
#[derive(Debug, Clone, PartialEq)]
pub struct DnsPredefinedAction {
    pub rcode: Option<String>,
    pub answer: Option<Vec<String>>,
    pub ns: Option<Vec<String>>,
    pub extra: Option<Vec<String>>,
}

/// What a [`DnsPredefinedAction`] holds, with every text as its characters.
pub struct DnsPredefinedActionView {
    pub rcode: Option<Seq<char>>,
    pub answer: Option<Seq<Seq<char>>>,
    pub ns: Option<Seq<Seq<char>>>,
    pub extra: Option<Seq<Seq<char>>>,
}

impl DeepView for DnsPredefinedAction {
    type V = DnsPredefinedActionView;

    open spec fn deep_view(&self) -> DnsPredefinedActionView {
        DnsPredefinedActionView {
            rcode: self.rcode.deep_view(),
            answer: self.answer.deep_view(),
            ns: self.ns.deep_view(),
            extra: self.extra.deep_view(),
        }
    }
}

impl View for DnsPredefinedAction {
    type V = DnsPredefinedActionView;

    open spec fn view(&self) -> DnsPredefinedActionView {
        self.deep_view()
    }
}

impl DnsPredefinedActionView {
    /// The view of what [`DnsPredefinedAction::new`] returns.
    pub open spec fn fresh() -> DnsPredefinedActionView {
        DnsPredefinedActionView {
            rcode: None,
            answer: None,
            ns: None,
            extra: None,
        }
    }
}

impl DnsPredefinedAction {
    /// A predefined action with nothing set.
    pub fn new() -> (r: Self)
        ensures
            r@ == DnsPredefinedActionView::fresh(),
    {
        DnsPredefinedAction {
            rcode: None,
            answer: None,
            ns: None,
            extra: None,
        }
    }
}

impl DnsPredefinedActionView {
    /// The entries of the record that stands for the value: one for each
    /// field that is set, in the order of the fields.
    pub open spec fn record(self) -> Entries {
        let es = Seq::empty();
        let es = put(es, Key::Rcode, present(self.rcode, |x: Seq<char>| text_json(x)));
        let es = put(es, Key::Answer, present(self.answer, |x: Seq<Seq<char>>| text_list_json(x)));
        let es = put(es, Key::Ns, present(self.ns, |x: Seq<Seq<char>>| text_list_json(x)));
        let es = put(es, Key::Extra, present(self.extra, |x: Seq<Seq<char>>| text_list_json(x)));
        es
    }

    /// The record that stands for the value.
    pub open spec fn to_json(self) -> JsonView {
        JsonView::Record(self.record())
    }

    /// The value that the entries of an object stand for. Fails where an
    /// entry holds a value of the wrong shape.
    pub open spec fn from_record(es: Entries) -> Option<DnsPredefinedActionView> {
        let rcode = optional(get(es, Key::Rcode), |j: JsonView| json_text(j));
        let answer = optional(get(es, Key::Answer), |j: JsonView| json_text_list(j));
        let ns = optional(get(es, Key::Ns), |j: JsonView| json_text_list(j));
        let extra = optional(get(es, Key::Extra), |j: JsonView| json_text_list(j));
        if rcode is Some
            && answer is Some
            && ns is Some
            && extra is Some {
            Some(
                DnsPredefinedActionView {
                    rcode: rcode->0,
                    answer: answer->0,
                    ns: ns->0,
                    extra: extra->0,
                },
            )
        } else {
            None
        }
    }

    /// The value that an object stands for; none for a value that is no
    /// object.
    pub open spec fn from_json(j: JsonView) -> Option<DnsPredefinedActionView> {
        match entries_of(j) {
            Some(es) => DnsPredefinedActionView::from_record(es),
            None => None,
        }
    }

    /// Whether the value is written in a form from which it is read back:
    /// every value of this type is.
    pub open spec fn canonical(self) -> bool {
        true
    }

    /// The value with no field set.
    pub open spec fn blank() -> DnsPredefinedActionView {
        DnsPredefinedActionView {
            rcode: None,
            answer: None,
            ns: None,
            extra: None,
        }
    }

    /// The group that the entries of an object stand for where the fields
    /// of the group are written among those of its owner: no group where
    /// none of its fields is set.
    pub open spec fn from_group(es: Entries) -> Option<Option<DnsPredefinedActionView>> {
        match DnsPredefinedActionView::from_record(es) {
            Some(x) => if x == DnsPredefinedActionView::blank() {
                Some(None)
            } else {
                Some(Some(x))
            },
            None => None,
        }
    }

    /// What the group reads depends only on what stands under its keys.
    pub proof fn lemma_reads_own_keys(a: Entries, b: Entries)
        requires
            get(a, Key::Rcode) == get(b, Key::Rcode),
            get(a, Key::Answer) == get(b, Key::Answer),
            get(a, Key::Ns) == get(b, Key::Ns),
            get(a, Key::Extra) == get(b, Key::Extra),
        ensures
            DnsPredefinedActionView::from_record(a) == DnsPredefinedActionView::from_record(b),
            DnsPredefinedActionView::from_group(a) == DnsPredefinedActionView::from_group(b),
    {
    }

    /// Entries that hold nothing under the keys of the group stand for no
    /// group.
    pub proof fn lemma_no_group(es: Entries)
        requires
            get(es, Key::Rcode) is None,
            get(es, Key::Answer) is None,
            get(es, Key::Ns) is None,
            get(es, Key::Extra) is None,
        ensures
            DnsPredefinedActionView::from_group(es) == Some(None::<DnsPredefinedActionView>),
    {
    }

    /// The value is read back from the record that stands for it.
    pub proof fn lemma_round_trip(self)
        ensures
            DnsPredefinedActionView::from_record(self.record()) == Some(self),
            DnsPredefinedActionView::from_json(self.to_json()) == Some(self),
            self != DnsPredefinedActionView::blank() ==> DnsPredefinedActionView::from_group(self.record()) == Some(Some(self)),
    {
        broadcast use {lemma_get_empty, lemma_get_put, lemma_get_merge};

        let es = self.record();
        assert(optional(get(es, Key::Rcode), |j: JsonView| json_text(j)) == Some(self.rcode));
        match self.answer {
            Some(x) => {
                lemma_text_list(x);
            },
            None => {},
        }
        assert(optional(get(es, Key::Answer), |j: JsonView| json_text_list(j)) == Some(self.answer));
        match self.ns {
            Some(x) => {
                lemma_text_list(x);
            },
            None => {},
        }
        assert(optional(get(es, Key::Ns), |j: JsonView| json_text_list(j)) == Some(self.ns));
        match self.extra {
            Some(x) => {
                lemma_text_list(x);
            },
            None => {},
        }
        assert(optional(get(es, Key::Extra), |j: JsonView| json_text_list(j)) == Some(self.extra));
    }
}

impl DnsPredefinedAction {
    /// The entries of the record that stands for the value, as
    /// `DnsPredefinedActionView::record` lists them.
    pub fn record(&self) -> (r: Vec<(Key, Json)>)
        ensures
            r.deep_view() == self@.record(),
    {
        let mut es: Vec<(Key, Json)> = no_entries();
        let ghost s = Seq::<(Key, JsonView)>::empty();
        let value = match &self.rcode {
            Some(x) => Some(Json::Text(x.clone())),
            None => None,
        };
        put_field(&mut es, Key::Rcode, value);
        let ghost s = put(s, Key::Rcode, present(self@.rcode, |x: Seq<char>| text_json(x)));
        assert(es.deep_view() == s);
        let value = match &self.answer {
            Some(x) => Some(write_text_list(x)),
            None => None,
        };
        put_field(&mut es, Key::Answer, value);
        let ghost s = put(s, Key::Answer, present(self@.answer, |x: Seq<Seq<char>>| text_list_json(x)));
        assert(es.deep_view() == s);
        let value = match &self.ns {
            Some(x) => Some(write_text_list(x)),
            None => None,
        };
        put_field(&mut es, Key::Ns, value);
        let ghost s = put(s, Key::Ns, present(self@.ns, |x: Seq<Seq<char>>| text_list_json(x)));
        assert(es.deep_view() == s);
        let value = match &self.extra {
            Some(x) => Some(write_text_list(x)),
            None => None,
        };
        put_field(&mut es, Key::Extra, value);
        let ghost s = put(s, Key::Extra, present(self@.extra, |x: Seq<Seq<char>>| text_list_json(x)));
        assert(es.deep_view() == s);
        es
    }

    /// The record that stands for the value.
    pub fn to_json(&self) -> (r: Json)
        ensures
            r@ == self@.to_json(),
    {
        let r = Json::Record(self.record());
        proof {
            lemma_json_view(r);
        }
        r
    }

    /// Reads the value from the entries of an object, as
    /// `DnsPredefinedActionView::from_record` says.
    pub fn from_record(es: &Vec<(Key, &Json)>) -> (r: Result<DnsPredefinedAction, SchemaMismatch>)
        ensures
            match r {
                Ok(x) => DnsPredefinedActionView::from_record(es.deep_view()) == Some(x@),
                Err(_) => DnsPredefinedActionView::from_record(es.deep_view()) is None,
            },
    {
        let rcode = match get_field(es, Key::Rcode) {
            Some(j) => if is_null(j) {
                None
            } else {
                match read_text(j) {
                    Ok(x) => Some(x),
                    Err(e) => {
                        return Err(e);
                    },
                }
            },
            None => None,
        };
        assert(optional(get(es.deep_view(), Key::Rcode), |j: JsonView| json_text(j)) == Some(rcode.deep_view()));
        let answer = match get_field(es, Key::Answer) {
            Some(j) => if is_null(j) {
                None
            } else {
                match read_text_list(j) {
                    Ok(x) => Some(x),
                    Err(e) => {
                        return Err(e);
                    },
                }
            },
            None => None,
        };
        assert(optional(get(es.deep_view(), Key::Answer), |j: JsonView| json_text_list(j)) == Some(answer.deep_view()));
        let ns = match get_field(es, Key::Ns) {
            Some(j) => if is_null(j) {
                None
            } else {
                match read_text_list(j) {
                    Ok(x) => Some(x),
                    Err(e) => {
                        return Err(e);
                    },
                }
            },
            None => None,
        };
        assert(optional(get(es.deep_view(), Key::Ns), |j: JsonView| json_text_list(j)) == Some(ns.deep_view()));
        let extra = match get_field(es, Key::Extra) {
            Some(j) => if is_null(j) {
                None
            } else {
                match read_text_list(j) {
                    Ok(x) => Some(x),
                    Err(e) => {
                        return Err(e);
                    },
                }
            },
            None => None,
        };
        assert(optional(get(es.deep_view(), Key::Extra), |j: JsonView| json_text_list(j)) == Some(extra.deep_view()));
        Ok(DnsPredefinedAction { rcode, answer, ns, extra })
    }

    /// Reads the value from an object, as `DnsPredefinedActionView::from_json` says.
    pub fn from_json(j: &Json) -> (r: Result<DnsPredefinedAction, SchemaMismatch>)
        ensures
            match r {
                Ok(x) => DnsPredefinedActionView::from_json(j@) == Some(x@),
                Err(_) => DnsPredefinedActionView::from_json(j@) is None,
            },
    {
        match read_entries(j) {
            Ok(es) => DnsPredefinedAction::from_record(&es),
            Err(e) => Err(e),
        }
    }

    /// Whether no field of the group is set.
    pub fn is_blank(&self) -> (r: bool)
        ensures
            r == (self@ == DnsPredefinedActionView::blank()),
    {
        self.rcode.is_none()
            && self.answer.is_none()
            && self.ns.is_none()
            && self.extra.is_none()
    }

    /// Reads the group from the entries of its owner, as
    /// `DnsPredefinedActionView::from_group` says.
    pub fn from_group(es: &Vec<(Key, &Json)>) -> (r: Result<Option<DnsPredefinedAction>, SchemaMismatch>)
        ensures
            match r {
                Ok(g) => DnsPredefinedActionView::from_group(es.deep_view()) == Some(g.deep_view()),
                Err(_) => DnsPredefinedActionView::from_group(es.deep_view()) is None,
            },
    {
        match DnsPredefinedAction::from_record(es) {
            Ok(x) => if x.is_blank() {
                Ok(None)
            } else {
                Ok(Some(x))
            },
            Err(e) => Err(e),
        }
    }
}

impl DnsPredefinedActionView {
    /// The record holds nothing under the key `type`.
    pub proof fn lemma_has_no_type(self)
        ensures
            get(self.record(), Key::Type) is None,
    {
        broadcast use {lemma_get_empty, lemma_get_put, lemma_get_merge};

    }
}

/// The action of a DNS rule.
#[derive(Debug, Clone, PartialEq)]
pub enum DnsRuleAction {
    /// Route to a server.
    Route(DnsRouteAction),
    /// Set options.
    RouteOptions(DnsRouteOptionsAction),
    /// Refuse.
    Reject(DnsRejectAction),
    /// Answer with fixed records.
    Predefined(DnsPredefinedAction),
}

/// What a [`DnsRuleAction`] holds, with every text as its characters.
pub enum DnsRuleActionView {
    Route(DnsRouteActionView),
    RouteOptions(DnsRouteOptionsActionView),
    Reject(DnsRejectActionView),
    Predefined(DnsPredefinedActionView),
}

impl DeepView for DnsRuleAction {
    type V = DnsRuleActionView;

    open spec fn deep_view(&self) -> DnsRuleActionView {
        match self {
            DnsRuleAction::Route(x) => DnsRuleActionView::Route(x.deep_view()),
            DnsRuleAction::RouteOptions(x) => DnsRuleActionView::RouteOptions(x.deep_view()),
            DnsRuleAction::Reject(x) => DnsRuleActionView::Reject(x.deep_view()),
            DnsRuleAction::Predefined(x) => DnsRuleActionView::Predefined(x.deep_view()),
        }
    }
}

impl View for DnsRuleAction {
    type V = DnsRuleActionView;

    open spec fn view(&self) -> DnsRuleActionView {
        self.deep_view()
    }
}

impl DnsRuleActionView {
    /// The entries that stand for the action: those of what it holds.
    pub open spec fn record(self) -> Entries {
        match self {
            DnsRuleActionView::Route(x) => x.record(),
            DnsRuleActionView::Predefined(x) => x.record(),
            DnsRuleActionView::Reject(x) => x.record(),
            DnsRuleActionView::RouteOptions(x) => x.record(),
        }
    }

    /// The action that the entries of an object stand for, of the first kind
    /// of which a field is set: no action where none is.
    pub open spec fn from_group(es: Entries) -> Option<Option<DnsRuleActionView>> {
        if !is_unset(get(es, Key::Server)) {
            match DnsRouteActionView::from_record(es) {
                Some(x) => Some(Some(DnsRuleActionView::Route(x))),
                None => None,
            }
        } else if !is_unset(get(es, Key::Rcode)) || !is_unset(get(es, Key::Answer)) || !is_unset(get(es, Key::Ns)) || !is_unset(get(es, Key::Extra)) {
            match DnsPredefinedActionView::from_record(es) {
                Some(x) => Some(Some(DnsRuleActionView::Predefined(x))),
                None => None,
            }
        } else if !is_unset(get(es, Key::Method)) || !is_unset(get(es, Key::NoDrop)) {
            match DnsRejectActionView::from_record(es) {
                Some(x) => Some(Some(DnsRuleActionView::Reject(x))),
                None => None,
            }
        } else if !is_unset(get(es, Key::DisableCache)) || !is_unset(get(es, Key::RewriteTtl)) || !is_unset(get(es, Key::ClientSubnet)) {
            match DnsRouteOptionsActionView::from_record(es) {
                Some(x) => Some(Some(DnsRuleActionView::RouteOptions(x))),
                None => None,
            }
        } else {
            Some(None)
        }
    }

    /// Whether the action is written in a form from which it is read back:
    /// what it holds is, and it is read as the kind that it is.
    pub open spec fn canonical(self) -> bool {
        match self {
            DnsRuleActionView::Route(x) => x.canonical() && (x.server is Some),
            DnsRuleActionView::Predefined(x) => x.canonical() && (x.rcode is Some || x.answer is Some || x.ns is Some || x.extra is Some),
            DnsRuleActionView::Reject(x) => x.canonical() && (x.method is Some || x.no_drop is Some),
            DnsRuleActionView::RouteOptions(x) => x.canonical() && (x.disable_cache is Some || x.rewrite_ttl is Some || x.client_subnet is Some),
        }
    }

    /// What the action reads depends only on what stands under its keys.
    pub proof fn lemma_reads_own_keys(a: Entries, b: Entries)
        requires
            get(a, Key::Server) == get(b, Key::Server),
            get(a, Key::Strategy) == get(b, Key::Strategy),
            get(a, Key::DisableCache) == get(b, Key::DisableCache),
            get(a, Key::RewriteTtl) == get(b, Key::RewriteTtl),
            get(a, Key::ClientSubnet) == get(b, Key::ClientSubnet),
            get(a, Key::Rcode) == get(b, Key::Rcode),
            get(a, Key::Answer) == get(b, Key::Answer),
            get(a, Key::Ns) == get(b, Key::Ns),
            get(a, Key::Extra) == get(b, Key::Extra),
            get(a, Key::Method) == get(b, Key::Method),
            get(a, Key::NoDrop) == get(b, Key::NoDrop),
        ensures
            DnsRuleActionView::from_group(a) == DnsRuleActionView::from_group(b),
    {
        DnsRouteActionView::lemma_reads_own_keys(a, b);
        DnsPredefinedActionView::lemma_reads_own_keys(a, b);
        DnsRejectActionView::lemma_reads_own_keys(a, b);
        DnsRouteOptionsActionView::lemma_reads_own_keys(a, b);
    }

    /// Entries that hold nothing under the keys of the action stand for no action.
    pub proof fn lemma_no_group(es: Entries)
        requires
            get(es, Key::Server) is None,
            get(es, Key::Strategy) is None,
            get(es, Key::DisableCache) is None,
            get(es, Key::RewriteTtl) is None,
            get(es, Key::ClientSubnet) is None,
            get(es, Key::Rcode) is None,
            get(es, Key::Answer) is None,
            get(es, Key::Ns) is None,
            get(es, Key::Extra) is None,
            get(es, Key::Method) is None,
            get(es, Key::NoDrop) is None,
        ensures
            DnsRuleActionView::from_group(es) == Some(None::<DnsRuleActionView>),
    {
    }

    /// The action is read back from the entries that stand for it.
    pub proof fn lemma_round_trip(self)
        requires
            self.canonical(),
        ensures
            DnsRuleActionView::from_group(self.record()) == Some(Some(self)),
    {
        broadcast use {lemma_get_empty, lemma_get_put, lemma_get_merge};

        match self {
            DnsRuleActionView::Route(x) => {
                x.lemma_round_trip();
                assert(get(x.record(), Key::Server) == present(x.server, |x: Seq<char>| text_json(x)));
            },
            DnsRuleActionView::Predefined(x) => {
                x.lemma_round_trip();
                assert(get(x.record(), Key::Server) is None);
                assert(get(x.record(), Key::Rcode) == present(x.rcode, |x: Seq<char>| text_json(x)));
                assert(get(x.record(), Key::Answer) == present(x.answer, |x: Seq<Seq<char>>| text_list_json(x)));
                assert(get(x.record(), Key::Ns) == present(x.ns, |x: Seq<Seq<char>>| text_list_json(x)));
                assert(get(x.record(), Key::Extra) == present(x.extra, |x: Seq<Seq<char>>| text_list_json(x)));
            },
            DnsRuleActionView::Reject(x) => {
                x.lemma_round_trip();
                assert(get(x.record(), Key::Server) is None);
                assert(get(x.record(), Key::Rcode) is None);
                assert(get(x.record(), Key::Answer) is None);
                assert(get(x.record(), Key::Ns) is None);
                assert(get(x.record(), Key::Extra) is None);
                assert(get(x.record(), Key::Method) == present(x.method, |x: Seq<char>| text_json(x)));
                assert(get(x.record(), Key::NoDrop) == present(x.no_drop, |x: bool| bool_json(x)));
            },
            DnsRuleActionView::RouteOptions(x) => {
                x.lemma_round_trip();
                assert(get(x.record(), Key::Server) is None);
                assert(get(x.record(), Key::Rcode) is None);
                assert(get(x.record(), Key::Answer) is None);
                assert(get(x.record(), Key::Ns) is None);
                assert(get(x.record(), Key::Extra) is None);
                assert(get(x.record(), Key::Method) is None);
                assert(get(x.record(), Key::NoDrop) is None);
                assert(get(x.record(), Key::DisableCache) == present(x.disable_cache, |x: bool| bool_json(x)));
                assert(get(x.record(), Key::RewriteTtl) == present(x.rewrite_ttl, |x: u32| u32_json(x)));
                assert(get(x.record(), Key::ClientSubnet) == present(x.client_subnet, |x: Seq<char>| text_json(x)));
            },
        }
    }
}

impl DnsRuleAction {
    /// The entries that stand for the action.
    pub fn record(&self) -> (r: Vec<(Key, Json)>)
        ensures
            r.deep_view() == self@.record(),
    {
        match self {
            DnsRuleAction::Route(x) => x.record(),
            DnsRuleAction::Predefined(x) => x.record(),
            DnsRuleAction::Reject(x) => x.record(),
            DnsRuleAction::RouteOptions(x) => x.record(),
        }
    }

    /// Reads the action from the entries of its owner, as
    /// `DnsRuleActionView::from_group` says.
    pub fn from_group(es: &Vec<(Key, &Json)>) -> (r: Result<Option<DnsRuleAction>, SchemaMismatch>)
        ensures
            match r {
                Ok(g) => DnsRuleActionView::from_group(es.deep_view()) == Some(g.deep_view()),
                Err(_) => DnsRuleActionView::from_group(es.deep_view()) is None,
            },
    {
        if is_set(es, Key::Server) {
            match DnsRouteAction::from_record(es) {
                Ok(x) => Ok(Some(DnsRuleAction::Route(x))),
                Err(e) => Err(e),
            }
        } else if is_set(es, Key::Rcode) || is_set(es, Key::Answer) || is_set(es, Key::Ns) || is_set(es, Key::Extra) {
            match DnsPredefinedAction::from_record(es) {
                Ok(x) => Ok(Some(DnsRuleAction::Predefined(x))),
                Err(e) => Err(e),
            }
        } else if is_set(es, Key::Method) || is_set(es, Key::NoDrop) {
            match DnsRejectAction::from_record(es) {
                Ok(x) => Ok(Some(DnsRuleAction::Reject(x))),
                Err(e) => Err(e),
            }
        } else if is_set(es, Key::DisableCache) || is_set(es, Key::RewriteTtl) || is_set(es, Key::ClientSubnet) {
            match DnsRouteOptionsAction::from_record(es) {
                Ok(x) => Ok(Some(DnsRuleAction::RouteOptions(x))),
                Err(e) => Err(e),
            }
        } else {
            Ok(None)
        }
    }
}

impl DnsRuleActionView {
    /// The record holds nothing under the key `type`.
    pub proof fn lemma_has_no_type(self)
        ensures
            get(self.record(), Key::Type) is None,
    {
        broadcast use {lemma_get_empty, lemma_get_put, lemma_get_merge};

        match self {
            DnsRuleActionView::Route(x) => {
                x.lemma_has_no_type();
            },
            DnsRuleActionView::Predefined(x) => {
                x.lemma_has_no_type();
            },
            DnsRuleActionView::Reject(x) => {
                x.lemma_has_no_type();
            },
            DnsRuleActionView::RouteOptions(x) => {
                x.lemma_has_no_type();
            },
        }
    }
}

} // verus!
