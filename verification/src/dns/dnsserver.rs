//! The kinds of DNS server.

use crate::json::{bool_json, Entries, entries_of, get, get_field, is_null, Json, json_bool, json_text, json_text_list, json_text_table, json_u16, JsonView, Key, lemma_get_empty, lemma_get_merge, lemma_get_put, lemma_json_view, lemma_text_list, lemma_text_table, merge, no_entries, optional, present, put, put_field, put_group, read_bool, read_entries, read_text, read_text_list, read_text_table, read_u16, SchemaMismatch, text_json, text_list_json, text_table_json, u16_json, write_text_list, write_text_table};
use crate::scan::{first_where, found, kept, lemma_first_where_unique, Mark};
use crate::shared::dialfields::{DialFields, DialFieldsView};
use crate::shared::tls::{TlsConfig, TlsConfigView};
use crate::text::same_text;
use vstd::prelude::*;

verus! {

/// The resolver of the operating system.
#[derive(Debug, Clone, PartialEq)]
pub struct DnsServerLocal {
    pub tag: Option<String>,
    pub server_type: Option<String>,
    pub prefer_go: Option<bool>,
}

/// What a [`DnsServerLocal`] holds, with every text as its characters.
pub struct DnsServerLocalView {
    pub tag: Option<Seq<char>>,
    pub server_type: Option<Seq<char>>,
    pub prefer_go: Option<bool>,
}

impl DeepView for DnsServerLocal {
    type V = DnsServerLocalView;

    open spec fn deep_view(&self) -> DnsServerLocalView {
        DnsServerLocalView {
            tag: self.tag.deep_view(),
            server_type: self.server_type.deep_view(),
            prefer_go: self.prefer_go.deep_view(),
        }
    }
}

impl View for DnsServerLocal {
    type V = DnsServerLocalView;

    open spec fn view(&self) -> DnsServerLocalView {
        self.deep_view()
    }
}

impl DnsServerLocalView {
    /// The view of what [`DnsServerLocal::new`] returns.
    pub open spec fn fresh() -> DnsServerLocalView {
        DnsServerLocalView {
            tag: None,
            server_type: Some("local"@),
            prefer_go: None,
        }
    }
}

impl DnsServerLocal {
    /// A local resolver without a tag.
    pub fn new() -> (r: Self)
        ensures
            r@ == DnsServerLocalView::fresh(),
    {
        DnsServerLocal {
            tag: None,
            server_type: Some("local".to_owned()),
            prefer_go: None,
        }
    }
}

impl DnsServerLocalView {
    /// The entries of the record that stands for the value: one for each
    /// field that is set, in the order of the fields.
    pub open spec fn record(self) -> Entries {
        let es = Seq::empty();
        let es = put(es, Key::Tag, present(self.tag, |x: Seq<char>| text_json(x)));
        let es = put(es, Key::Type, present(self.server_type, |x: Seq<char>| text_json(x)));
        let es = put(es, Key::PreferGo, present(self.prefer_go, |x: bool| bool_json(x)));
        es
    }

    /// The record that stands for the value.
    pub open spec fn to_json(self) -> JsonView {
        JsonView::Record(self.record())
    }

    /// The value that the entries of an object stand for. Fails where an
    /// entry holds a value of the wrong shape.
    pub open spec fn from_record(es: Entries) -> Option<DnsServerLocalView> {
        let tag = optional(get(es, Key::Tag), |j: JsonView| json_text(j));
        let server_type = optional(get(es, Key::Type), |j: JsonView| json_text(j));
        let prefer_go = optional(get(es, Key::PreferGo), |j: JsonView| json_bool(j));
        if tag is Some
            && server_type is Some
            && prefer_go is Some {
            Some(
                DnsServerLocalView {
                    tag: tag->0,
                    server_type: server_type->0,
                    prefer_go: prefer_go->0,
                },
            )
        } else {
            None
        }
    }

    /// The value that an object stands for; none for a value that is no
    /// object.
    pub open spec fn from_json(j: JsonView) -> Option<DnsServerLocalView> {
        match entries_of(j) {
            Some(es) => DnsServerLocalView::from_record(es),
            None => None,
        }
    }

    /// Whether the value is written in a form from which it is read back:
    /// every value of this type is.
    pub open spec fn canonical(self) -> bool {
        true
    }

    /// The value is read back from the record that stands for it.
    pub proof fn lemma_round_trip(self)
        ensures
            DnsServerLocalView::from_record(self.record()) == Some(self),
            DnsServerLocalView::from_json(self.to_json()) == Some(self),
    {
        broadcast use {lemma_get_empty, lemma_get_put, lemma_get_merge};

        let es = self.record();
        assert(optional(get(es, Key::Tag), |j: JsonView| json_text(j)) == Some(self.tag));
        assert(optional(get(es, Key::Type), |j: JsonView| json_text(j)) == Some(self.server_type));
        assert(optional(get(es, Key::PreferGo), |j: JsonView| json_bool(j)) == Some(self.prefer_go));
    }
}

impl DnsServerLocal {
    /// The entries of the record that stands for the value, as
    /// `DnsServerLocalView::record` lists them.
    pub fn record(&self) -> (r: Vec<(Key, Json)>)
        ensures
            r.deep_view() == self@.record(),
    {
        let mut es: Vec<(Key, Json)> = no_entries();
        let ghost s = Seq::<(Key, JsonView)>::empty();
        let value = match &self.tag {
            Some(x) => Some(Json::Text(x.clone())),
            None => None,
        };
        put_field(&mut es, Key::Tag, value);
        let ghost s = put(s, Key::Tag, present(self@.tag, |x: Seq<char>| text_json(x)));
        assert(es.deep_view() == s);
        let value = match &self.server_type {
            Some(x) => Some(Json::Text(x.clone())),
            None => None,
        };
        put_field(&mut es, Key::Type, value);
        let ghost s = put(s, Key::Type, present(self@.server_type, |x: Seq<char>| text_json(x)));
        assert(es.deep_view() == s);
        let value = match &self.prefer_go {
            Some(x) => Some(Json::Bool(*x)),
            None => None,
        };
        put_field(&mut es, Key::PreferGo, value);
        let ghost s = put(s, Key::PreferGo, present(self@.prefer_go, |x: bool| bool_json(x)));
        assert(es.deep_view() == s);
        es
    }

    /// The record that stands for the value.
    pub fn to_json(&self) -> (r: Json)
        ensures
            r@ == self@.to_json(),
    {
        let r = Json::Record(self.record());
        proof {
            lemma_json_view(r);
        }
        r
    }

    /// Reads the value from the entries of an object, as
    /// `DnsServerLocalView::from_record` says.
    pub fn from_record(es: &Vec<(Key, &Json)>) -> (r: Result<DnsServerLocal, SchemaMismatch>)
        ensures
            match r {
                Ok(x) => DnsServerLocalView::from_record(es.deep_view()) == Some(x@),
                Err(_) => DnsServerLocalView::from_record(es.deep_view()) is None,
            },
    {
        let tag = match get_field(es, Key::Tag) {
            Some(j) => if is_null(j) {
                None
            } else {
                match read_text(j) {
                    Ok(x) => Some(x),
                    Err(e) => {
                        return Err(e);
                    },
                }
            },
            None => None,
        };
        assert(optional(get(es.deep_view(), Key::Tag), |j: JsonView| json_text(j)) == Some(tag.deep_view()));
        let server_type = match get_field(es, Key::Type) {
            Some(j) => if is_null(j) {
                None
            } else {
                match read_text(j) {
                    Ok(x) => Some(x),
                    Err(e) => {
                        return Err(e);
                    },
                }
            },
            None => None,
        };
        assert(optional(get(es.deep_view(), Key::Type), |j: JsonView| json_text(j)) == Some(server_type.deep_view()));
        let prefer_go = match get_field(es, Key::PreferGo) {
            Some(j) => if is_null(j) {
                None
            } else {
                match read_bool(j) {
                    Ok(x) => Some(x),
                    Err(e) => {
                        return Err(e);
                    },
                }
            },
            None => None,
        };
        assert(optional(get(es.deep_view(), Key::PreferGo), |j: JsonView| json_bool(j)) == Some(prefer_go.deep_view()));
        Ok(DnsServerLocal { tag, server_type, prefer_go })
    }

    /// Reads the value from an object, as `DnsServerLocalView::from_json` says.
    pub fn from_json(j: &Json) -> (r: Result<DnsServerLocal, SchemaMismatch>)
        ensures
            match r {
                Ok(x) => DnsServerLocalView::from_json(j@) == Some(x@),
                Err(_) => DnsServerLocalView::from_json(j@) is None,
            },
    {
        match read_entries(j) {
            Ok(es) => DnsServerLocal::from_record(&es),
            Err(e) => Err(e),
        }
    }
}

/// A resolver that reads hosts files and fixed entries.
#[derive(Debug, Clone, PartialEq)]
pub struct DnsServerHosts {
    pub tag: Option<String>,
    pub server_type: Option<String>,
    pub path: Option<HostsPath>,
    pub predefined: Option<Vec<(String, HostValue)>>,
}

/// What a [`DnsServerHosts`] holds, with every text as its characters.
pub struct DnsServerHostsView {
    pub tag: Option<Seq<char>>,
    pub server_type: Option<Seq<char>>,
    pub path: Option<HostsPathView>,
    pub predefined: Option<Seq<(Seq<char>, HostValueView)>>,
}

impl DeepView for DnsServerHosts {
    type V = DnsServerHostsView;

    open spec fn deep_view(&self) -> DnsServerHostsView {
        DnsServerHostsView {
            tag: self.tag.deep_view(),
            server_type: self.server_type.deep_view(),
            path: self.path.deep_view(),
            predefined: self.predefined.deep_view(),
        }
    }
}

impl View for DnsServerHosts {
    type V = DnsServerHostsView;

    open spec fn view(&self) -> DnsServerHostsView {
        self.deep_view()
    }
}

impl DnsServerHostsView {
    /// The view of what [`DnsServerHosts::new`] returns.
    pub open spec fn fresh() -> DnsServerHostsView {
        DnsServerHostsView {
            tag: None,
            server_type: Some("hosts"@),
            path: None,
            predefined: None,
        }
    }
}

impl DnsServerHosts {
    /// A hosts resolver without a tag.
    pub fn new() -> (r: Self)
        ensures
            r@ == DnsServerHostsView::fresh(),
    {
        DnsServerHosts {
            tag: None,
            server_type: Some("hosts".to_owned()),
            path: None,
            predefined: None,
        }
    }
}

impl DnsServerHostsView {
    /// The entries of the record that stands for the value: one for each
    /// field that is set, in the order of the fields.
    pub open spec fn record(self) -> Entries {
        let es = Seq::empty();
        let es = put(es, Key::Tag, present(self.tag, |x: Seq<char>| text_json(x)));
        let es = put(es, Key::Type, present(self.server_type, |x: Seq<char>| text_json(x)));
        let es = put(es, Key::Path, present(self.path, |x: HostsPathView| x.to_json()));
        let es = put(es, Key::Predefined, present(self.predefined, |x: Seq<(Seq<char>, HostValueView)>| host_value_table_json(x)));
        es
    }

    /// The record that stands for the value.
    pub open spec fn to_json(self) -> JsonView {
        JsonView::Record(self.record())
    }

    /// The value that the entries of an object stand for. Fails where an
    /// entry holds a value of the wrong shape.
    pub open spec fn from_record(es: Entries) -> Option<DnsServerHostsView> {
        let tag = optional(get(es, Key::Tag), |j: JsonView| json_text(j));
        let server_type = optional(get(es, Key::Type), |j: JsonView| json_text(j));
        let path = optional(get(es, Key::Path), |j: JsonView| HostsPathView::from_json(j));
        let predefined = optional(get(es, Key::Predefined), |j: JsonView| json_host_value_table(j));
        if tag is Some
            && server_type is Some
            && path is Some
            && predefined is Some {
            Some(
                DnsServerHostsView {
                    tag: tag->0,
                    server_type: server_type->0,
                    path: path->0,
                    predefined: predefined->0,
                },
            )
        } else {
            None
        }
    }

    /// The value that an object stands for; none for a value that is no
    /// object.
    pub open spec fn from_json(j: JsonView) -> Option<DnsServerHostsView> {
        match entries_of(j) {
            Some(es) => DnsServerHostsView::from_record(es),
            None => None,
        }
    }

    /// Whether the value is written in a form from which it is read back:
    /// the values that it holds are, and a group of fields that is present
    /// sets at least one of them.
    pub open spec fn canonical(self) -> bool {
        &&& match self.path {
            Some(x) => x.canonical(),
            None => true,
        }
        &&& match self.predefined {
            Some(x) => canonical_host_value_table(x),
            None => true,
        }
    }

    /// The value is read back from the record that stands for it.
    pub proof fn lemma_round_trip(self)
        requires
            self.canonical(),
        ensures
            DnsServerHostsView::from_record(self.record()) == Some(self),
            DnsServerHostsView::from_json(self.to_json()) == Some(self),
    {
        broadcast use {lemma_get_empty, lemma_get_put, lemma_get_merge};

        let es = self.record();
        assert(optional(get(es, Key::Tag), |j: JsonView| json_text(j)) == Some(self.tag));
        assert(optional(get(es, Key::Type), |j: JsonView| json_text(j)) == Some(self.server_type));
        match self.path {
            Some(x) => {
                x.lemma_round_trip();
            },
            None => {},
        }
        assert(optional(get(es, Key::Path), |j: JsonView| HostsPathView::from_json(j)) == Some(self.path));
        match self.predefined {
            Some(x) => {
                lemma_host_value_table(x);
            },
            None => {},
        }
        assert(optional(get(es, Key::Predefined), |j: JsonView| json_host_value_table(j)) == Some(self.predefined));
    }
}

impl DnsServerHosts {
    /// The entries of the record that stands for the value, as
    /// `DnsServerHostsView::record` lists them.
    pub fn record(&self) -> (r: Vec<(Key, Json)>)
        ensures
            r.deep_view() == self@.record(),
    {
        let mut es: Vec<(Key, Json)> = no_entries();
        let ghost s = Seq::<(Key, JsonView)>::empty();
        let value = match &self.tag {
            Some(x) => Some(Json::Text(x.clone())),
            None => None,
        };
        put_field(&mut es, Key::Tag, value);
        let ghost s = put(s, Key::Tag, present(self@.tag, |x: Seq<char>| text_json(x)));
        assert(es.deep_view() == s);
        let value = match &self.server_type {
            Some(x) => Some(Json::Text(x.clone())),
            None => None,
        };
        put_field(&mut es, Key::Type, value);
        let ghost s = put(s, Key::Type, present(self@.server_type, |x: Seq<char>| text_json(x)));
        assert(es.deep_view() == s);
        let value = match &self.path {
            Some(x) => Some(x.to_json()),
            None => None,
        };
        put_field(&mut es, Key::Path, value);
        let ghost s = put(s, Key::Path, present(self@.path, |x: HostsPathView| x.to_json()));
        assert(es.deep_view() == s);
        let value = match &self.predefined {
            Some(x) => Some(write_host_value_table(x)),
            None => None,
        };
        put_field(&mut es, Key::Predefined, value);
        let ghost s = put(s, Key::Predefined, present(self@.predefined, |x: Seq<(Seq<char>, HostValueView)>| host_value_table_json(x)));
        assert(es.deep_view() == s);
        es
    }

    /// The record that stands for the value.
    pub fn to_json(&self) -> (r: Json)
        ensures
            r@ == self@.to_json(),
    {
        let r = Json::Record(self.record());
        proof {
            lemma_json_view(r);
        }
        r
    }

    /// Reads the value from the entries of an object, as
    /// `DnsServerHostsView::from_record` says.
    pub fn from_record(es: &Vec<(Key, &Json)>) -> (r: Result<DnsServerHosts, SchemaMismatch>)
        ensures
            match r {
                Ok(x) => DnsServerHostsView::from_record(es.deep_view()) == Some(x@),
                Err(_) => DnsServerHostsView::from_record(es.deep_view()) is None,
            },
    {
        let tag = match get_field(es, Key::Tag) {
            Some(j) => if is_null(j) {
                None
            } else {
                match read_text(j) {
                    Ok(x) => Some(x),
                    Err(e) => {
                        return Err(e);
                    },
                }
            },
            None => None,
        };
        assert(optional(get(es.deep_view(), Key::Tag), |j: JsonView| json_text(j)) == Some(tag.deep_view()));
        let server_type = match get_field(es, Key::Type) {
            Some(j) => if is_null(j) {
                None
            } else {
                match read_text(j) {
                    Ok(x) => Some(x),
                    Err(e) => {
                        return Err(e);
                    },
                }
            },
            None => None,
        };
        assert(optional(get(es.deep_view(), Key::Type), |j: JsonView| json_text(j)) == Some(server_type.deep_view()));
        let path = match get_field(es, Key::Path) {
            Some(j) => if is_null(j) {
                None
            } else {
                match HostsPath::from_json(j) {
                    Ok(x) => Some(x),
                    Err(e) => {
                        return Err(e);
                    },
                }
            },
            None => None,
        };
        assert(optional(get(es.deep_view(), Key::Path), |j: JsonView| HostsPathView::from_json(j)) == Some(path.deep_view()));
        let predefined = match get_field(es, Key::Predefined) {
            Some(j) => if is_null(j) {
                None
            } else {
                match read_host_value_table(j) {
                    Ok(x) => Some(x),
                    Err(e) => {
                        return Err(e);
                    },
                }
            },
            None => None,
        };
        assert(optional(get(es.deep_view(), Key::Predefined), |j: JsonView| json_host_value_table(j)) == Some(predefined.deep_view()));
        Ok(DnsServerHosts { tag, server_type, path, predefined })
    }

    /// Reads the value from an object, as `DnsServerHostsView::from_json` says.
    pub fn from_json(j: &Json) -> (r: Result<DnsServerHosts, SchemaMismatch>)
        ensures
            match r {
                Ok(x) => DnsServerHostsView::from_json(j@) == Some(x@),
                Err(_) => DnsServerHostsView::from_json(j@) is None,
            },
    {
        match read_entries(j) {
            Ok(es) => DnsServerHosts::from_record(&es),
            Err(e) => Err(e),
        }
    }
}

/// One hosts file or several.
#[derive(Debug, Clone, PartialEq)]
pub enum HostsPath {
    /// One path.
    One(String),
    /// Several paths.
    Many(Vec<String>),
}

/// What a [`HostsPath`] holds, with every text as its characters.
pub enum HostsPathView {
    One(Seq<char>),
    Many(Seq<Seq<char>>),
}

impl DeepView for HostsPath {
    type V = HostsPathView;

    open spec fn deep_view(&self) -> HostsPathView {
        match self {
            HostsPath::One(x) => HostsPathView::One(x.deep_view()),
            HostsPath::Many(x) => HostsPathView::Many(x.deep_view()),
        }
    }
}

impl View for HostsPath {
    type V = HostsPathView;

    open spec fn view(&self) -> HostsPathView {
        self.deep_view()
    }
}

impl HostsPathView {
    /// The value of the tree that stands for the value: that of what it holds.
    pub open spec fn to_json(self) -> JsonView {
        match self {
            HostsPathView::One(x) => text_json(x),
            HostsPathView::Many(x) => text_list_json(x),
        }
    }

    /// The value that a value of the tree stands for: of the first kind
    /// that it can be read as.
    pub open spec fn from_json(j: JsonView) -> Option<HostsPathView> {
        match json_text(j) {
            Some(x) => Some(HostsPathView::One(x)),
            None =>
            match json_text_list(j) {
                Some(x) => Some(HostsPathView::Many(x)),
                None => None,
            },
        }
    }

    /// Whether the value is written in a form from which it is read back.
    pub open spec fn canonical(self) -> bool {
        true
    }

    /// The value is read back from the value of the tree that stands for it.
    pub proof fn lemma_round_trip(self)
        ensures
            HostsPathView::from_json(self.to_json()) == Some(self),
            self.to_json() != JsonView::Null,
    {
        match self {
            HostsPathView::One(x) => {
            },
            HostsPathView::Many(x) => {
                lemma_text_list(x);
            },
        }
    }
}

impl HostsPath {
    /// The value of the tree that stands for the value.
    pub fn to_json(&self) -> (r: Json)
        ensures
            r@ == self@.to_json(),
    {
        match self {
            HostsPath::One(x) => Json::Text(x.clone()),
            HostsPath::Many(x) => write_text_list(x),
        }
    }

    /// Reads the value, as `HostsPathView::from_json` says.
    pub fn from_json(j: &Json) -> (r: Result<HostsPath, SchemaMismatch>)
        ensures
            match r {
                Ok(x) => HostsPathView::from_json(j@) == Some(x@),
                Err(_) => HostsPathView::from_json(j@) is None,
            },
    {
        match read_text(j) {
            Ok(x) => {
                return Ok(HostsPath::One(x));
            },
            Err(_) => {},
        }
        match read_text_list(j) {
            Ok(x) => {
                return Ok(HostsPath::Many(x));
            },
            Err(_) => {},
        }
        Err(SchemaMismatch)
    }
}

/// One address or several for a host name.
#[derive(Debug, Clone, PartialEq)]
pub enum HostValue {
    /// One address.
    One(String),
    /// Several addresses.
    Many(Vec<String>),
}

/// What a [`HostValue`] holds, with every text as its characters.
pub enum HostValueView {
    One(Seq<char>),
    Many(Seq<Seq<char>>),
}

impl DeepView for HostValue {
    type V = HostValueView;

    open spec fn deep_view(&self) -> HostValueView {
        match self {
            HostValue::One(x) => HostValueView::One(x.deep_view()),
            HostValue::Many(x) => HostValueView::Many(x.deep_view()),
        }
    }
}

impl View for HostValue {
    type V = HostValueView;

    open spec fn view(&self) -> HostValueView {
        self.deep_view()
    }
}

impl HostValueView {
    /// The value of the tree that stands for the value: that of what it holds.
    pub open spec fn to_json(self) -> JsonView {
        match self {
            HostValueView::One(x) => text_json(x),
            HostValueView::Many(x) => text_list_json(x),
        }
    }

    /// The value that a value of the tree stands for: of the first kind
    /// that it can be read as.
    pub open spec fn from_json(j: JsonView) -> Option<HostValueView> {
        match json_text(j) {
            Some(x) => Some(HostValueView::One(x)),
            None =>
            match json_text_list(j) {
                Some(x) => Some(HostValueView::Many(x)),
                None => None,
            },
        }
    }

    /// Whether the value is written in a form from which it is read back.
    pub open spec fn canonical(self) -> bool {
        true
    }

    /// The value is read back from the value of the tree that stands for it.
    pub proof fn lemma_round_trip(self)
        ensures
            HostValueView::from_json(self.to_json()) == Some(self),
            self.to_json() != JsonView::Null,
    {
        match self {
            HostValueView::One(x) => {
            },
            HostValueView::Many(x) => {
                lemma_text_list(x);
            },
        }
    }
}

impl HostValue {
    /// The value of the tree that stands for the value.
    pub fn to_json(&self) -> (r: Json)
        ensures
            r@ == self@.to_json(),
    {
        match self {
            HostValue::One(x) => Json::Text(x.clone()),
            HostValue::Many(x) => write_text_list(x),
        }
    }

    /// Reads the value, as `HostValueView::from_json` says.
    pub fn from_json(j: &Json) -> (r: Result<HostValue, SchemaMismatch>)
        ensures
            match r {
                Ok(x) => HostValueView::from_json(j@) == Some(x@),
                Err(_) => HostValueView::from_json(j@) is None,
            },
    {
        match read_text(j) {
            Ok(x) => {
                return Ok(HostValue::One(x));
            },
            Err(_) => {},
        }
        match read_text_list(j) {
            Ok(x) => {
                return Ok(HostValue::Many(x));
            },
            Err(_) => {},
        }
        Err(SchemaMismatch)
    }
}

/// A server reached over TCP.
#[derive(Debug, Clone, PartialEq)]
pub struct DnsServerTcp {
    pub tag: Option<String>,
    pub server_type: Option<String>,
    pub server: Option<String>,
    pub server_port: Option<u16>,
    pub dial: Option<DialFields>,
}

/// What a [`DnsServerTcp`] holds, with every text as its characters.
pub struct DnsServerTcpView {
    pub tag: Option<Seq<char>>,
    pub server_type: Option<Seq<char>>,
    pub server: Option<Seq<char>>,
    pub server_port: Option<u16>,
    pub dial: Option<DialFieldsView>,
}

impl DeepView for DnsServerTcp {
    type V = DnsServerTcpView;

    open spec fn deep_view(&self) -> DnsServerTcpView {
        DnsServerTcpView {
            tag: self.tag.deep_view(),
            server_type: self.server_type.deep_view(),
            server: self.server.deep_view(),
            server_port: self.server_port.deep_view(),
            dial: self.dial.deep_view(),
        }
    }
}

impl View for DnsServerTcp {
    type V = DnsServerTcpView;

    open spec fn view(&self) -> DnsServerTcpView {
        self.deep_view()
    }
}

impl DnsServerTcpView {
    /// The view of what [`DnsServerTcp::new`] returns.
    pub open spec fn fresh() -> DnsServerTcpView {
        DnsServerTcpView {
            tag: None,
            server_type: Some("tcp"@),
            server: None,
            server_port: None,
            dial: None,
        }
    }
}

impl DnsServerTcp {
    /// A TCP server without a tag or an address.
    pub fn new() -> (r: Self)
        ensures
            r@ == DnsServerTcpView::fresh(),
    {
        DnsServerTcp {
            tag: None,
            server_type: Some("tcp".to_owned()),
            server: None,
            server_port: None,
            dial: None,
        }
    }
}

impl DnsServerTcpView {
    /// The entries of the record that stands for the value: one for each
    /// field that is set, in the order of the fields.
    pub open spec fn record(self) -> Entries {
        let es = Seq::empty();
        let es = put(es, Key::Tag, present(self.tag, |x: Seq<char>| text_json(x)));
        let es = put(es, Key::Type, present(self.server_type, |x: Seq<char>| text_json(x)));
        let es = put(es, Key::Server, present(self.server, |x: Seq<char>| text_json(x)));
        let es = put(es, Key::ServerPort, present(self.server_port, |x: u16| u16_json(x)));
        let es = merge(
            es,
            match self.dial {
                Some(g) => g.record(),
                None => Seq::empty(),
            },
        );
        es
    }

    /// The record that stands for the value.
    pub open spec fn to_json(self) -> JsonView {
        JsonView::Record(self.record())
    }

    /// The value that the entries of an object stand for. Fails where an
    /// entry holds a value of the wrong shape.
    pub open spec fn from_record(es: Entries) -> Option<DnsServerTcpView> {
        let tag = optional(get(es, Key::Tag), |j: JsonView| json_text(j));
        let server_type = optional(get(es, Key::Type), |j: JsonView| json_text(j));
        let server = optional(get(es, Key::Server), |j: JsonView| json_text(j));
        let server_port = optional(get(es, Key::ServerPort), |j: JsonView| json_u16(j));
        let dial = DialFieldsView::from_group(es);
        if tag is Some
            && server_type is Some
            && server is Some
            && server_port is Some
            && dial is Some {
            Some(
                DnsServerTcpView {
                    tag: tag->0,
                    server_type: server_type->0,
                    server: server->0,
                    server_port: server_port->0,
                    dial: dial->0,
                },
            )
        } else {
            None
        }
    }

    /// The value that an object stands for; none for a value that is no
    /// object.
    pub open spec fn from_json(j: JsonView) -> Option<DnsServerTcpView> {
        match entries_of(j) {
            Some(es) => DnsServerTcpView::from_record(es),
            None => None,
        }
    }

    /// Whether the value is written in a form from which it is read back:
    /// the values that it holds are, and a group of fields that is present
    /// sets at least one of them.
    pub open spec fn canonical(self) -> bool {
        &&& match self.dial {
            Some(g) => g.canonical() && g != DialFieldsView::blank(),
            None => true,
        }
    }

    /// The value is read back from the record that stands for it.
    pub proof fn lemma_round_trip(self)
        requires
            self.canonical(),
        ensures
            DnsServerTcpView::from_record(self.record()) == Some(self),
            DnsServerTcpView::from_json(self.to_json()) == Some(self),
    {
        broadcast use {lemma_get_empty, lemma_get_put, lemma_get_merge};

        let es = self.record();
        assert(optional(get(es, Key::Tag), |j: JsonView| json_text(j)) == Some(self.tag));
        assert(optional(get(es, Key::Type), |j: JsonView| json_text(j)) == Some(self.server_type));
        assert(optional(get(es, Key::Server), |j: JsonView| json_text(j)) == Some(self.server));
        assert(optional(get(es, Key::ServerPort), |j: JsonView| json_u16(j)) == Some(self.server_port));
        match self.dial {
            Some(g) => {
                g.lemma_round_trip();
                assert(get(es, Key::Detour) == get(g.record(), Key::Detour));
                assert(get(es, Key::DomainResolver) == get(g.record(), Key::DomainResolver));
                assert(get(es, Key::BindInterface) == get(g.record(), Key::BindInterface));
                assert(get(es, Key::Inet4BindAddress) == get(g.record(), Key::Inet4BindAddress));
                assert(get(es, Key::Inet6BindAddress) == get(g.record(), Key::Inet6BindAddress));
                assert(get(es, Key::RoutingMark) == get(g.record(), Key::RoutingMark));
                assert(get(es, Key::ReuseAddr) == get(g.record(), Key::ReuseAddr));
                assert(get(es, Key::ConnectTimeout) == get(g.record(), Key::ConnectTimeout));
                assert(get(es, Key::TcpFastOpen) == get(g.record(), Key::TcpFastOpen));
                assert(get(es, Key::TcpMultiPath) == get(g.record(), Key::TcpMultiPath));
                assert(get(es, Key::UdpFragment) == get(g.record(), Key::UdpFragment));
                DialFieldsView::lemma_reads_own_keys(es, g.record());
            },
            None => {
                assert(get(es, Key::Detour) is None);
                assert(get(es, Key::DomainResolver) is None);
                assert(get(es, Key::BindInterface) is None);
                assert(get(es, Key::Inet4BindAddress) is None);
                assert(get(es, Key::Inet6BindAddress) is None);
                assert(get(es, Key::RoutingMark) is None);
                assert(get(es, Key::ReuseAddr) is None);
                assert(get(es, Key::ConnectTimeout) is None);
                assert(get(es, Key::TcpFastOpen) is None);
                assert(get(es, Key::TcpMultiPath) is None);
                assert(get(es, Key::UdpFragment) is None);
                DialFieldsView::lemma_no_group(es);
            },
        }
        assert(DialFieldsView::from_group(es) == Some(self.dial));
    }
}

impl DnsServerTcp {
    /// The entries of the record that stands for the value, as
    /// `DnsServerTcpView::record` lists them.
    pub fn record(&self) -> (r: Vec<(Key, Json)>)
        ensures
            r.deep_view() == self@.record(),
    {
        let mut es: Vec<(Key, Json)> = no_entries();
        let ghost s = Seq::<(Key, JsonView)>::empty();
        let value = match &self.tag {
            Some(x) => Some(Json::Text(x.clone())),
            None => None,
        };
        put_field(&mut es, Key::Tag, value);
        let ghost s = put(s, Key::Tag, present(self@.tag, |x: Seq<char>| text_json(x)));
        assert(es.deep_view() == s);
        let value = match &self.server_type {
            Some(x) => Some(Json::Text(x.clone())),
            None => None,
        };
        put_field(&mut es, Key::Type, value);
        let ghost s = put(s, Key::Type, present(self@.server_type, |x: Seq<char>| text_json(x)));
        assert(es.deep_view() == s);
        let value = match &self.server {
            Some(x) => Some(Json::Text(x.clone())),
            None => None,
        };
        put_field(&mut es, Key::Server, value);
        let ghost s = put(s, Key::Server, present(self@.server, |x: Seq<char>| text_json(x)));
        assert(es.deep_view() == s);
        let value = match &self.server_port {
            Some(x) => Some(Json::Unsigned(*x as u64)),
            None => None,
        };
        put_field(&mut es, Key::ServerPort, value);
        let ghost s = put(s, Key::ServerPort, present(self@.server_port, |x: u16| u16_json(x)));
        assert(es.deep_view() == s);
        let group = match &self.dial {
            Some(g) => g.record(),
            None => no_entries(),
        };
        put_group(&mut es, group);
        let ghost s = merge(
            s,
            match self@.dial {
                Some(g) => g.record(),
                None => Seq::empty(),
            },
        );
        assert(es.deep_view() == s);
        es
    }

    /// The record that stands for the value.
    pub fn to_json(&self) -> (r: Json)
        ensures
            r@ == self@.to_json(),
    {
        let r = Json::Record(self.record());
        proof {
            lemma_json_view(r);
        }
        r
    }

    /// Reads the value from the entries of an object, as
    /// `DnsServerTcpView::from_record` says.
    pub fn from_record(es: &Vec<(Key, &Json)>) -> (r: Result<DnsServerTcp, SchemaMismatch>)
        ensures
            match r {
                Ok(x) => DnsServerTcpView::from_record(es.deep_view()) == Some(x@),
                Err(_) => DnsServerTcpView::from_record(es.deep_view()) is None,
            },
    {
        let tag = match get_field(es, Key::Tag) {
            Some(j) => if is_null(j) {
                None
            } else {
                match read_text(j) {
                    Ok(x) => Some(x),
                    Err(e) => {
                        return Err(e);
                    },
                }
            },
            None => None,
        };
        assert(optional(get(es.deep_view(), Key::Tag), |j: JsonView| json_text(j)) == Some(tag.deep_view()));
        let server_type = match get_field(es, Key::Type) {
            Some(j) => if is_null(j) {
                None
            } else {
                match read_text(j) {
                    Ok(x) => Some(x),
                    Err(e) => {
                        return Err(e);
                    },
                }
            },
            None => None,
        };
        assert(optional(get(es.deep_view(), Key::Type), |j: JsonView| json_text(j)) == Some(server_type.deep_view()));
        let server = match get_field(es, Key::Server) {
            Some(j) => if is_null(j) {
                None
            } else {
                match read_text(j) {
                    Ok(x) => Some(x),
                    Err(e) => {
                        return Err(e);
                    },
                }
            },
            None => None,
        };
        assert(optional(get(es.deep_view(), Key::Server), |j: JsonView| json_text(j)) == Some(server.deep_view()));
        let server_port = match get_field(es, Key::ServerPort) {
            Some(j) => if is_null(j) {
                None
            } else {
                match read_u16(j) {
                    Ok(x) => Some(x),
                    Err(e) => {
                        return Err(e);
                    },
                }
            },
            None => None,
        };
        assert(optional(get(es.deep_view(), Key::ServerPort), |j: JsonView| json_u16(j)) == Some(server_port.deep_view()));
        let dial = match DialFields::from_group(es) {
            Ok(g) => g,
            Err(e) => {
                return Err(e);
            },
        };
        Ok(DnsServerTcp { tag, server_type, server, server_port, dial })
    }

    /// Reads the value from an object, as `DnsServerTcpView::from_json` says.
    pub fn from_json(j: &Json) -> (r: Result<DnsServerTcp, SchemaMismatch>)
        ensures
            match r {
                Ok(x) => DnsServerTcpView::from_json(j@) == Some(x@),
                Err(_) => DnsServerTcpView::from_json(j@) is None,
            },
    {
        match read_entries(j) {
            Ok(es) => DnsServerTcp::from_record(&es),
            Err(e) => Err(e),
        }
    }
}

/// A server reached over UDP.
#[derive(Debug, Clone, PartialEq)]
pub struct DnsServerUdp {
    pub tag: Option<String>,
    pub server_type: Option<String>,
    pub server: Option<String>,
    pub server_port: Option<u16>,
    pub dial: Option<DialFields>,
}

/// What a [`DnsServerUdp`] holds, with every text as its characters.
pub struct DnsServerUdpView {
    pub tag: Option<Seq<char>>,
    pub server_type: Option<Seq<char>>,
    pub server: Option<Seq<char>>,
    pub server_port: Option<u16>,
    pub dial: Option<DialFieldsView>,
}

impl DeepView for DnsServerUdp {
    type V = DnsServerUdpView;

    open spec fn deep_view(&self) -> DnsServerUdpView {
        DnsServerUdpView {
            tag: self.tag.deep_view(),
            server_type: self.server_type.deep_view(),
            server: self.server.deep_view(),
            server_port: self.server_port.deep_view(),
            dial: self.dial.deep_view(),
        }
    }
}

impl View for DnsServerUdp {
    type V = DnsServerUdpView;

    open spec fn view(&self) -> DnsServerUdpView {
        self.deep_view()
    }
}

impl DnsServerUdpView {
    /// The view of what [`DnsServerUdp::new`] returns.
    pub open spec fn fresh() -> DnsServerUdpView {
        DnsServerUdpView {
            tag: None,
            server_type: Some("udp"@),
            server: None,
            server_port: None,
            dial: None,
        }
    }
}

impl DnsServerUdp {
    /// A UDP server without a tag or an address.
    pub fn new() -> (r: Self)
        ensures
            r@ == DnsServerUdpView::fresh(),
    {
        DnsServerUdp {
            tag: None,
            server_type: Some("udp".to_owned()),
            server: None,
            server_port: None,
            dial: None,
        }
    }
}

impl DnsServerUdpView {
    /// The entries of the record that stands for the value: one for each
    /// field that is set, in the order of the fields.
    pub open spec fn record(self) -> Entries {
        let es = Seq::empty();
        let es = put(es, Key::Tag, present(self.tag, |x: Seq<char>| text_json(x)));
        let es = put(es, Key::Type, present(self.server_type, |x: Seq<char>| text_json(x)));
        let es = put(es, Key::Server, present(self.server, |x: Seq<char>| text_json(x)));
        let es = put(es, Key::ServerPort, present(self.server_port, |x: u16| u16_json(x)));
        let es = merge(
            es,
            match self.dial {
                Some(g) => g.record(),
                None => Seq::empty(),
            },
        );
        es
    }

    /// The record that stands for the value.
    pub open spec fn to_json(self) -> JsonView {
        JsonView::Record(self.record())
    }

    /// The value that the entries of an object stand for. Fails where an
    /// entry holds a value of the wrong shape.
    pub open spec fn from_record(es: Entries) -> Option<DnsServerUdpView> {
        let tag = optional(get(es, Key::Tag), |j: JsonView| json_text(j));
        let server_type = optional(get(es, Key::Type), |j: JsonView| json_text(j));
        let server = optional(get(es, Key::Server), |j: JsonView| json_text(j));
        let server_port = optional(get(es, Key::ServerPort), |j: JsonView| json_u16(j));
        let dial = DialFieldsView::from_group(es);
        if tag is Some
            && server_type is Some
            && server is Some
            && server_port is Some
            && dial is Some {
            Some(
                DnsServerUdpView {
                    tag: tag->0,
                    server_type: server_type->0,
                    server: server->0,
                    server_port: server_port->0,
                    dial: dial->0,
                },
            )
        } else {
            None
        }
    }

    /// The value that an object stands for; none for a value that is no
    /// object.
    pub open spec fn from_json(j: JsonView) -> Option<DnsServerUdpView> {
        match entries_of(j) {
            Some(es) => DnsServerUdpView::from_record(es),
            None => None,
        }
    }

    /// Whether the value is written in a form from which it is read back:
    /// the values that it holds are, and a group of fields that is present
    /// sets at least one of them.
    pub open spec fn canonical(self) -> bool {
        &&& match self.dial {
            Some(g) => g.canonical() && g != DialFieldsView::blank(),
            None => true,
        }
    }

    /// The value is read back from the record that stands for it.
    pub proof fn lemma_round_trip(self)
        requires
            self.canonical(),
        ensures
            DnsServerUdpView::from_record(self.record()) == Some(self),
            DnsServerUdpView::from_json(self.to_json()) == Some(self),
    {
        broadcast use {lemma_get_empty, lemma_get_put, lemma_get_merge};

        let es = self.record();
        assert(optional(get(es, Key::Tag), |j: JsonView| json_text(j)) == Some(self.tag));
        assert(optional(get(es, Key::Type), |j: JsonView| json_text(j)) == Some(self.server_type));
        assert(optional(get(es, Key::Server), |j: JsonView| json_text(j)) == Some(self.server));
        assert(optional(get(es, Key::ServerPort), |j: JsonView| json_u16(j)) == Some(self.server_port));
        match self.dial {
            Some(g) => {
                g.lemma_round_trip();
                assert(get(es, Key::Detour) == get(g.record(), Key::Detour));
                assert(get(es, Key::DomainResolver) == get(g.record(), Key::DomainResolver));
                assert(get(es, Key::BindInterface) == get(g.record(), Key::BindInterface));
                assert(get(es, Key::Inet4BindAddress) == get(g.record(), Key::Inet4BindAddress));
                assert(get(es, Key::Inet6BindAddress) == get(g.record(), Key::Inet6BindAddress));
                assert(get(es, Key::RoutingMark) == get(g.record(), Key::RoutingMark));
                assert(get(es, Key::ReuseAddr) == get(g.record(), Key::ReuseAddr));
                assert(get(es, Key::ConnectTimeout) == get(g.record(), Key::ConnectTimeout));
                assert(get(es, Key::TcpFastOpen) == get(g.record(), Key::TcpFastOpen));
                assert(get(es, Key::TcpMultiPath) == get(g.record(), Key::TcpMultiPath));
                assert(get(es, Key::UdpFragment) == get(g.record(), Key::UdpFragment));
                DialFieldsView::lemma_reads_own_keys(es, g.record());
            },
            None => {
                assert(get(es, Key::Detour) is None);
                assert(get(es, Key::DomainResolver) is None);
                assert(get(es, Key::BindInterface) is None);
                assert(get(es, Key::Inet4BindAddress) is None);
                assert(get(es, Key::Inet6BindAddress) is None);
                assert(get(es, Key::RoutingMark) is None);
                assert(get(es, Key::ReuseAddr) is None);
                assert(get(es, Key::ConnectTimeout) is None);
                assert(get(es, Key::TcpFastOpen) is None);
                assert(get(es, Key::TcpMultiPath) is None);
                assert(get(es, Key::UdpFragment) is None);
                DialFieldsView::lemma_no_group(es);
            },
        }
        assert(DialFieldsView::from_group(es) == Some(self.dial));
    }
}

impl DnsServerUdp {
    /// The entries of the record that stands for the value, as
    /// `DnsServerUdpView::record` lists them.
    pub fn record(&self) -> (r: Vec<(Key, Json)>)
        ensures
            r.deep_view() == self@.record(),
    {
        let mut es: Vec<(Key, Json)> = no_entries();
        let ghost s = Seq::<(Key, JsonView)>::empty();
        let value = match &self.tag {
            Some(x) => Some(Json::Text(x.clone())),
            None => None,
        };
        put_field(&mut es, Key::Tag, value);
        let ghost s = put(s, Key::Tag, present(self@.tag, |x: Seq<char>| text_json(x)));
        assert(es.deep_view() == s);
        let value = match &self.server_type {
            Some(x) => Some(Json::Text(x.clone())),
            None => None,
        };
        put_field(&mut es, Key::Type, value);
        let ghost s = put(s, Key::Type, present(self@.server_type, |x: Seq<char>| text_json(x)));
        assert(es.deep_view() == s);
        let value = match &self.server {
            Some(x) => Some(Json::Text(x.clone())),
            None => None,
        };
        put_field(&mut es, Key::Server, value);
        let ghost s = put(s, Key::Server, present(self@.server, |x: Seq<char>| text_json(x)));
        assert(es.deep_view() == s);
        let value = match &self.server_port {
            Some(x) => Some(Json::Unsigned(*x as u64)),
            None => None,
        };
        put_field(&mut es, Key::ServerPort, value);
        let ghost s = put(s, Key::ServerPort, present(self@.server_port, |x: u16| u16_json(x)));
        assert(es.deep_view() == s);
        let group = match &self.dial {
            Some(g) => g.record(),
            None => no_entries(),
        };
        put_group(&mut es, group);
        let ghost s = merge(
            s,
            match self@.dial {
                Some(g) => g.record(),
                None => Seq::empty(),
            },
        );
        assert(es.deep_view() == s);
        es
    }

    /// The record that stands for the value.
    pub fn to_json(&self) -> (r: Json)
        ensures
            r@ == self@.to_json(),
    {
        let r = Json::Record(self.record());
        proof {
            lemma_json_view(r);
        }
        r
    }

    /// Reads the value from the entries of an object, as
    /// `DnsServerUdpView::from_record` says.
    pub fn from_record(es: &Vec<(Key, &Json)>) -> (r: Result<DnsServerUdp, SchemaMismatch>)
        ensures
            match r {
                Ok(x) => DnsServerUdpView::from_record(es.deep_view()) == Some(x@),
                Err(_) => DnsServerUdpView::from_record(es.deep_view()) is None,
            },
    {
        let tag = match get_field(es, Key::Tag) {
            Some(j) => if is_null(j) {
                None
            } else {
                match read_text(j) {
                    Ok(x) => Some(x),
                    Err(e) => {
                        return Err(e);
                    },
                }
            },
            None => None,
        };
        assert(optional(get(es.deep_view(), Key::Tag), |j: JsonView| json_text(j)) == Some(tag.deep_view()));
        let server_type = match get_field(es, Key::Type) {
            Some(j) => if is_null(j) {
                None
            } else {
                match read_text(j) {
                    Ok(x) => Some(x),
                    Err(e) => {
                        return Err(e);
                    },
                }
            },
            None => None,
        };
        assert(optional(get(es.deep_view(), Key::Type), |j: JsonView| json_text(j)) == Some(server_type.deep_view()));
        let server = match get_field(es, Key::Server) {
            Some(j) => if is_null(j) {
                None
            } else {
                match read_text(j) {
                    Ok(x) => Some(x),
                    Err(e) => {
                        return Err(e);
                    },
                }
            },
            None => None,
        };
        assert(optional(get(es.deep_view(), Key::Server), |j: JsonView| json_text(j)) == Some(server.deep_view()));
        let server_port = match get_field(es, Key::ServerPort) {
            Some(j) => if is_null(j) {
                None
            } else {
                match read_u16(j) {
                    Ok(x) => Some(x),
                    Err(e) => {
                        return Err(e);
                    },
                }
            },
            None => None,
        };
        assert(optional(get(es.deep_view(), Key::ServerPort), |j: JsonView| json_u16(j)) == Some(server_port.deep_view()));
        let dial = match DialFields::from_group(es) {
            Ok(g) => g,
            Err(e) => {
                return Err(e);
            },
        };
        Ok(DnsServerUdp { tag, server_type, server, server_port, dial })
    }

    /// Reads the value from an object, as `DnsServerUdpView::from_json` says.
    pub fn from_json(j: &Json) -> (r: Result<DnsServerUdp, SchemaMismatch>)
        ensures
            match r {
                Ok(x) => DnsServerUdpView::from_json(j@) == Some(x@),
                Err(_) => DnsServerUdpView::from_json(j@) is None,
            },
    {
        match read_entries(j) {
            Ok(es) => DnsServerUdp::from_record(&es),
            Err(e) => Err(e),
        }
    }
}

/// A server reached over TLS.
#[derive(Debug, Clone, PartialEq)]
pub struct DnsServerTls {
    pub tag: Option<String>,
    pub server_type: Option<String>,
    pub server: Option<String>,
    pub server_port: Option<u16>,
    pub tls: Option<TlsConfig>,
    pub dial: Option<DialFields>,
}

/// What a [`DnsServerTls`] holds, with every text as its characters.
pub struct DnsServerTlsView {
    pub tag: Option<Seq<char>>,
    pub server_type: Option<Seq<char>>,
    pub server: Option<Seq<char>>,
    pub server_port: Option<u16>,
    pub tls: Option<TlsConfigView>,
    pub dial: Option<DialFieldsView>,
}

impl DeepView for DnsServerTls {
    type V = DnsServerTlsView;

    open spec fn deep_view(&self) -> DnsServerTlsView {
        DnsServerTlsView {
            tag: self.tag.deep_view(),
            server_type: self.server_type.deep_view(),
            server: self.server.deep_view(),
            server_port: self.server_port.deep_view(),
            tls: self.tls.deep_view(),
            dial: self.dial.deep_view(),
        }
    }
}

impl View for DnsServerTls {
    type V = DnsServerTlsView;

    open spec fn view(&self) -> DnsServerTlsView {
        self.deep_view()
    }
}

impl DnsServerTlsView {
    /// The view of what [`DnsServerTls::new`] returns.
    pub open spec fn fresh() -> DnsServerTlsView {
        DnsServerTlsView {
            tag: None,
            server_type: Some("tls"@),
            server: None,
            server_port: None,
            tls: None,
            dial: None,
        }
    }
}

impl DnsServerTls {
    /// A TLS server without a tag or an address.
    pub fn new() -> (r: Self)
        ensures
            r@ == DnsServerTlsView::fresh(),
    {
        DnsServerTls {
            tag: None,
            server_type: Some("tls".to_owned()),
            server: None,
            server_port: None,
            tls: None,
            dial: None,
        }
    }
}

impl DnsServerTlsView {
    /// The entries of the record that stands for the value: one for each
    /// field that is set, in the order of the fields.
    pub open spec fn record(self) -> Entries {
        let es = Seq::empty();
        let es = put(es, Key::Tag, present(self.tag, |x: Seq<char>| text_json(x)));
        let es = put(es, Key::Type, present(self.server_type, |x: Seq<char>| text_json(x)));
        let es = put(es, Key::Server, present(self.server, |x: Seq<char>| text_json(x)));
        let es = put(es, Key::ServerPort, present(self.server_port, |x: u16| u16_json(x)));
        let es = put(es, Key::Tls, present(self.tls, |x: TlsConfigView| x.to_json()));
        let es = merge(
            es,
            match self.dial {
                Some(g) => g.record(),
                None => Seq::empty(),
            },
        );
        es
    }

    /// The record that stands for the value.
    pub open spec fn to_json(self) -> JsonView {
        JsonView::Record(self.record())
    }

    /// The value that the entries of an object stand for. Fails where an
    /// entry holds a value of the wrong shape.
    pub open spec fn from_record(es: Entries) -> Option<DnsServerTlsView> {
        let tag = optional(get(es, Key::Tag), |j: JsonView| json_text(j));
        let server_type = optional(get(es, Key::Type), |j: JsonView| json_text(j));
        let server = optional(get(es, Key::Server), |j: JsonView| json_text(j));
        let server_port = optional(get(es, Key::ServerPort), |j: JsonView| json_u16(j));
        let tls = optional(get(es, Key::Tls), |j: JsonView| TlsConfigView::from_json(j));
        let dial = DialFieldsView::from_group(es);
        if tag is Some
            && server_type is Some
            && server is Some
            && server_port is Some
            && tls is Some
            && dial is Some {
            Some(
                DnsServerTlsView {
                    tag: tag->0,
                    server_type: server_type->0,
                    server: server->0,
                    server_port: server_port->0,
                    tls: tls->0,
                    dial: dial->0,
                },
            )
        } else {
            None
        }
    }

    /// The value that an object stands for; none for a value that is no
    /// object.
    pub open spec fn from_json(j: JsonView) -> Option<DnsServerTlsView> {
        match entries_of(j) {
            Some(es) => DnsServerTlsView::from_record(es),
            None => None,
        }
    }

    /// Whether the value is written in a form from which it is read back:
    /// the values that it holds are, and a group of fields that is present
    /// sets at least one of them.
    pub open spec fn canonical(self) -> bool {
        &&& match self.tls {
            Some(x) => x.canonical(),
            None => true,
        }
        &&& match self.dial {
            Some(g) => g.canonical() && g != DialFieldsView::blank(),
            None => true,
        }
    }

    /// The value is read back from the record that stands for it.
    pub proof fn lemma_round_trip(self)
        requires
            self.canonical(),
        ensures
            DnsServerTlsView::from_record(self.record()) == Some(self),
            DnsServerTlsView::from_json(self.to_json()) == Some(self),
    {
        broadcast use {lemma_get_empty, lemma_get_put, lemma_get_merge};

        let es = self.record();
        assert(optional(get(es, Key::Tag), |j: JsonView| json_text(j)) == Some(self.tag));
        assert(optional(get(es, Key::Type), |j: JsonView| json_text(j)) == Some(self.server_type));
        assert(optional(get(es, Key::Server), |j: JsonView| json_text(j)) == Some(self.server));
        assert(optional(get(es, Key::ServerPort), |j: JsonView| json_u16(j)) == Some(self.server_port));
        match self.tls {
            Some(x) => {
                x.lemma_round_trip();
            },
            None => {},
        }
        assert(optional(get(es, Key::Tls), |j: JsonView| TlsConfigView::from_json(j)) == Some(self.tls));
        match self.dial {
            Some(g) => {
                g.lemma_round_trip();
                assert(get(es, Key::Detour) == get(g.record(), Key::Detour));
                assert(get(es, Key::DomainResolver) == get(g.record(), Key::DomainResolver));
                assert(get(es, Key::BindInterface) == get(g.record(), Key::BindInterface));
                assert(get(es, Key::Inet4BindAddress) == get(g.record(), Key::Inet4BindAddress));
                assert(get(es, Key::Inet6BindAddress) == get(g.record(), Key::Inet6BindAddress));
                assert(get(es, Key::RoutingMark) == get(g.record(), Key::RoutingMark));
                assert(get(es, Key::ReuseAddr) == get(g.record(), Key::ReuseAddr));
                assert(get(es, Key::ConnectTimeout) == get(g.record(), Key::ConnectTimeout));
                assert(get(es, Key::TcpFastOpen) == get(g.record(), Key::TcpFastOpen));
                assert(get(es, Key::TcpMultiPath) == get(g.record(), Key::TcpMultiPath));
                assert(get(es, Key::UdpFragment) == get(g.record(), Key::UdpFragment));
                DialFieldsView::lemma_reads_own_keys(es, g.record());
            },
            None => {
                assert(get(es, Key::Detour) is None);
                assert(get(es, Key::DomainResolver) is None);
                assert(get(es, Key::BindInterface) is None);
                assert(get(es, Key::Inet4BindAddress) is None);
                assert(get(es, Key::Inet6BindAddress) is None);
                assert(get(es, Key::RoutingMark) is None);
                assert(get(es, Key::ReuseAddr) is None);
                assert(get(es, Key::ConnectTimeout) is None);
                assert(get(es, Key::TcpFastOpen) is None);
                assert(get(es, Key::TcpMultiPath) is None);
                assert(get(es, Key::UdpFragment) is None);
                DialFieldsView::lemma_no_group(es);
            },
        }
        assert(DialFieldsView::from_group(es) == Some(self.dial));
    }
}

impl DnsServerTls {
    /// The entries of the record that stands for the value, as
    /// `DnsServerTlsView::record` lists them.
    pub fn record(&self) -> (r: Vec<(Key, Json)>)
        ensures
            r.deep_view() == self@.record(),
    {
        let mut es: Vec<(Key, Json)> = no_entries();
        let ghost s = Seq::<(Key, JsonView)>::empty();
        let value = match &self.tag {
            Some(x) => Some(Json::Text(x.clone())),
            None => None,
        };
        put_field(&mut es, Key::Tag, value);
        let ghost s = put(s, Key::Tag, present(self@.tag, |x: Seq<char>| text_json(x)));
        assert(es.deep_view() == s);
        let value = match &self.server_type {
            Some(x) => Some(Json::Text(x.clone())),
            None => None,
        };
        put_field(&mut es, Key::Type, value);
        let ghost s = put(s, Key::Type, present(self@.server_type, |x: Seq<char>| text_json(x)));
        assert(es.deep_view() == s);
        let value = match &self.server {
            Some(x) => Some(Json::Text(x.clone())),
            None => None,
        };
        put_field(&mut es, Key::Server, value);
        let ghost s = put(s, Key::Server, present(self@.server, |x: Seq<char>| text_json(x)));
        assert(es.deep_view() == s);
        let value = match &self.server_port {
            Some(x) => Some(Json::Unsigned(*x as u64)),
            None => None,
        };
        put_field(&mut es, Key::ServerPort, value);
        let ghost s = put(s, Key::ServerPort, present(self@.server_port, |x: u16| u16_json(x)));
        assert(es.deep_view() == s);
        let value = match &self.tls {
            Some(x) => Some(x.to_json()),
            None => None,
        };
        put_field(&mut es, Key::Tls, value);
        let ghost s = put(s, Key::Tls, present(self@.tls, |x: TlsConfigView| x.to_json()));
        assert(es.deep_view() == s);
        let group = match &self.dial {
            Some(g) => g.record(),
            None => no_entries(),
        };
        put_group(&mut es, group);
        let ghost s = merge(
            s,
            match self@.dial {
                Some(g) => g.record(),
                None => Seq::empty(),
            },
        );
        assert(es.deep_view() == s);
        es
    }

    /// The record that stands for the value.
    pub fn to_json(&self) -> (r: Json)
        ensures
            r@ == self@.to_json(),
    {
        let r = Json::Record(self.record());
        proof {
            lemma_json_view(r);
        }
        r
    }

    /// Reads the value from the entries of an object, as
    /// `DnsServerTlsView::from_record` says.
    pub fn from_record(es: &Vec<(Key, &Json)>) -> (r: Result<DnsServerTls, SchemaMismatch>)
        ensures
            match r {
                Ok(x) => DnsServerTlsView::from_record(es.deep_view()) == Some(x@),
                Err(_) => DnsServerTlsView::from_record(es.deep_view()) is None,
            },
    {
        let tag = match get_field(es, Key::Tag) {
            Some(j) => if is_null(j) {
                None
            } else {
                match read_text(j) {
                    Ok(x) => Some(x),
                    Err(e) => {
                        return Err(e);
                    },
                }
            },
            None => None,
        };
        assert(optional(get(es.deep_view(), Key::Tag), |j: JsonView| json_text(j)) == Some(tag.deep_view()));
        let server_type = match get_field(es, Key::Type) {
            Some(j) => if is_null(j) {
                None
            } else {
                match read_text(j) {
                    Ok(x) => Some(x),
                    Err(e) => {
                        return Err(e);
                    },
                }
            },
            None => None,
        };
        assert(optional(get(es.deep_view(), Key::Type), |j: JsonView| json_text(j)) == Some(server_type.deep_view()));
        let server = match get_field(es, Key::Server) {
            Some(j) => if is_null(j) {
                None
            } else {
                match read_text(j) {
                    Ok(x) => Some(x),
                    Err(e) => {
                        return Err(e);
                    },
                }
            },
            None => None,
        };
        assert(optional(get(es.deep_view(), Key::Server), |j: JsonView| json_text(j)) == Some(server.deep_view()));
        let server_port = match get_field(es, Key::ServerPort) {
            Some(j) => if is_null(j) {
                None
            } else {
                match read_u16(j) {
                    Ok(x) => Some(x),
                    Err(e) => {
                        return Err(e);
                    },
                }
            },
            None => None,
        };
        assert(optional(get(es.deep_view(), Key::ServerPort), |j: JsonView| json_u16(j)) == Some(server_port.deep_view()));
        let tls = match get_field(es, Key::Tls) {
            Some(j) => if is_null(j) {
                None
            } else {
                match TlsConfig::from_json(j) {
                    Ok(x) => Some(x),
                    Err(e) => {
                        return Err(e);
                    },
                }
            },
            None => None,
        };
        assert(optional(get(es.deep_view(), Key::Tls), |j: JsonView| TlsConfigView::from_json(j)) == Some(tls.deep_view()));
        let dial = match DialFields::from_group(es) {
            Ok(g) => g,
            Err(e) => {
                return Err(e);
            },
        };
        Ok(DnsServerTls { tag, server_type, server, server_port, tls, dial })
    }

    /// Reads the value from an object, as `DnsServerTlsView::from_json` says.
    pub fn from_json(j: &Json) -> (r: Result<DnsServerTls, SchemaMismatch>)
        ensures
            match r {
                Ok(x) => DnsServerTlsView::from_json(j@) == Some(x@),
                Err(_) => DnsServerTlsView::from_json(j@) is None,
            },
    {
        match read_entries(j) {
            Ok(es) => DnsServerTls::from_record(&es),
            Err(e) => Err(e),
        }
    }
}

/// A server reached over QUIC.
#[derive(Debug, Clone, PartialEq)]
pub struct DnsServerQuic {
    pub tag: Option<String>,
    pub server_type: Option<String>,
    pub server: Option<String>,
    pub server_port: Option<u16>,
    pub tls: Option<TlsConfig>,
    pub dial: Option<DialFields>,
}

/// What a [`DnsServerQuic`] holds, with every text as its characters.
pub struct DnsServerQuicView {
    pub tag: Option<Seq<char>>,
    pub server_type: Option<Seq<char>>,
    pub server: Option<Seq<char>>,
    pub server_port: Option<u16>,
    pub tls: Option<TlsConfigView>,
    pub dial: Option<DialFieldsView>,
}

impl DeepView for DnsServerQuic {
    type V = DnsServerQuicView;

    open spec fn deep_view(&self) -> DnsServerQuicView {
        DnsServerQuicView {
            tag: self.tag.deep_view(),
            server_type: self.server_type.deep_view(),
            server: self.server.deep_view(),
            server_port: self.server_port.deep_view(),
            tls: self.tls.deep_view(),
            dial: self.dial.deep_view(),
        }
    }
}

impl View for DnsServerQuic {
    type V = DnsServerQuicView;

    open spec fn view(&self) -> DnsServerQuicView {
        self.deep_view()
    }
}

impl DnsServerQuicView {
    /// The view of what [`DnsServerQuic::new`] returns.
    pub open spec fn fresh() -> DnsServerQuicView {
        DnsServerQuicView {
            tag: None,
            server_type: Some("quic"@),
            server: None,
            server_port: None,
            tls: None,
            dial: None,
        }
    }
}

impl DnsServerQuic {
    /// A QUIC server without a tag or an address.
    pub fn new() -> (r: Self)
        ensures
            r@ == DnsServerQuicView::fresh(),
    {
        DnsServerQuic {
            tag: None,
            server_type: Some("quic".to_owned()),
            server: None,
            server_port: None,
            tls: None,
            dial: None,
        }
    }
}

impl DnsServerQuicView {
    /// The entries of the record that stands for the value: one for each
    /// field that is set, in the order of the fields.
    pub open spec fn record(self) -> Entries {
        let es = Seq::empty();
        let es = put(es, Key::Tag, present(self.tag, |x: Seq<char>| text_json(x)));
        let es = put(es, Key::Type, present(self.server_type, |x: Seq<char>| text_json(x)));
        let es = put(es, Key::Server, present(self.server, |x: Seq<char>| text_json(x)));
        let es = put(es, Key::ServerPort, present(self.server_port, |x: u16| u16_json(x)));
        let es = put(es, Key::Tls, present(self.tls, |x: TlsConfigView| x.to_json()));
        let es = merge(
            es,
            match self.dial {
                Some(g) => g.record(),
                None => Seq::empty(),
            },
        );
        es
    }

    /// The record that stands for the value.
    pub open spec fn to_json(self) -> JsonView {
        JsonView::Record(self.record())
    }

    /// The value that the entries of an object stand for. Fails where an
    /// entry holds a value of the wrong shape.
    pub open spec fn from_record(es: Entries) -> Option<DnsServerQuicView> {
        let tag = optional(get(es, Key::Tag), |j: JsonView| json_text(j));
        let server_type = optional(get(es, Key::Type), |j: JsonView| json_text(j));
        let server = optional(get(es, Key::Server), |j: JsonView| json_text(j));
        let server_port = optional(get(es, Key::ServerPort), |j: JsonView| json_u16(j));
        let tls = optional(get(es, Key::Tls), |j: JsonView| TlsConfigView::from_json(j));
        let dial = DialFieldsView::from_group(es);
        if tag is Some
            && server_type is Some
            && server is Some
            && server_port is Some
            && tls is Some
            && dial is Some {
            Some(
                DnsServerQuicView {
                    tag: tag->0,
                    server_type: server_type->0,
                    server: server->0,
                    server_port: server_port->0,
                    tls: tls->0,
                    dial: dial->0,
                },
            )
        } else {
            None
        }
    }

    /// The value that an object stands for; none for a value that is no
    /// object.
    pub open spec fn from_json(j: JsonView) -> Option<DnsServerQuicView> {
        match entries_of(j) {
            Some(es) => DnsServerQuicView::from_record(es),
            None => None,
        }
    }

    /// Whether the value is written in a form from which it is read back:
    /// the values that it holds are, and a group of fields that is present
    /// sets at least one of them.
    pub open spec fn canonical(self) -> bool {
        &&& match self.tls {
            Some(x) => x.canonical(),
            None => true,
        }
        &&& match self.dial {
            Some(g) => g.canonical() && g != DialFieldsView::blank(),
            None => true,
        }
    }

    /// The value is read back from the record that stands for it.
    pub proof fn lemma_round_trip(self)
        requires
            self.canonical(),
        ensures
            DnsServerQuicView::from_record(self.record()) == Some(self),
            DnsServerQuicView::from_json(self.to_json()) == Some(self),
    {
        broadcast use {lemma_get_empty, lemma_get_put, lemma_get_merge};

        let es = self.record();
        assert(optional(get(es, Key::Tag), |j: JsonView| json_text(j)) == Some(self.tag));
        assert(optional(get(es, Key::Type), |j: JsonView| json_text(j)) == Some(self.server_type));
        assert(optional(get(es, Key::Server), |j: JsonView| json_text(j)) == Some(self.server));
        assert(optional(get(es, Key::ServerPort), |j: JsonView| json_u16(j)) == Some(self.server_port));
        match self.tls {
            Some(x) => {
                x.lemma_round_trip();
            },
            None => {},
        }
        assert(optional(get(es, Key::Tls), |j: JsonView| TlsConfigView::from_json(j)) == Some(self.tls));
        match self.dial {
            Some(g) => {
                g.lemma_round_trip();
                assert(get(es, Key::Detour) == get(g.record(), Key::Detour));
                assert(get(es, Key::DomainResolver) == get(g.record(), Key::DomainResolver));
                assert(get(es, Key::BindInterface) == get(g.record(), Key::BindInterface));
                assert(get(es, Key::Inet4BindAddress) == get(g.record(), Key::Inet4BindAddress));
                assert(get(es, Key::Inet6BindAddress) == get(g.record(), Key::Inet6BindAddress));
                assert(get(es, Key::RoutingMark) == get(g.record(), Key::RoutingMark));
                assert(get(es, Key::ReuseAddr) == get(g.record(), Key::ReuseAddr));
                assert(get(es, Key::ConnectTimeout) == get(g.record(), Key::ConnectTimeout));
                assert(get(es, Key::TcpFastOpen) == get(g.record(), Key::TcpFastOpen));
                assert(get(es, Key::TcpMultiPath) == get(g.record(), Key::TcpMultiPath));
                assert(get(es, Key::UdpFragment) == get(g.record(), Key::UdpFragment));
                DialFieldsView::lemma_reads_own_keys(es, g.record());
            },
            None => {
                assert(get(es, Key::Detour) is None);
                assert(get(es, Key::DomainResolver) is None);
                assert(get(es, Key::BindInterface) is None);
                assert(get(es, Key::Inet4BindAddress) is None);
                assert(get(es, Key::Inet6BindAddress) is None);
                assert(get(es, Key::RoutingMark) is None);
                assert(get(es, Key::ReuseAddr) is None);
                assert(get(es, Key::ConnectTimeout) is None);
                assert(get(es, Key::TcpFastOpen) is None);
                assert(get(es, Key::TcpMultiPath) is None);
                assert(get(es, Key::UdpFragment) is None);
                DialFieldsView::lemma_no_group(es);
            },
        }
        assert(DialFieldsView::from_group(es) == Some(self.dial));
    }
}

impl DnsServerQuic {
    /// The entries of the record that stands for the value, as
    /// `DnsServerQuicView::record` lists them.
    pub fn record(&self) -> (r: Vec<(Key, Json)>)
        ensures
            r.deep_view() == self@.record(),
    {
        let mut es: Vec<(Key, Json)> = no_entries();
        let ghost s = Seq::<(Key, JsonView)>::empty();
        let value = match &self.tag {
            Some(x) => Some(Json::Text(x.clone())),
            None => None,
        };
        put_field(&mut es, Key::Tag, value);
        let ghost s = put(s, Key::Tag, present(self@.tag, |x: Seq<char>| text_json(x)));
        assert(es.deep_view() == s);
        let value = match &self.server_type {
            Some(x) => Some(Json::Text(x.clone())),
            None => None,
        };
        put_field(&mut es, Key::Type, value);
        let ghost s = put(s, Key::Type, present(self@.server_type, |x: Seq<char>| text_json(x)));
        assert(es.deep_view() == s);
        let value = match &self.server {
            Some(x) => Some(Json::Text(x.clone())),
            None => None,
        };
        put_field(&mut es, Key::Server, value);
        let ghost s = put(s, Key::Server, present(self@.server, |x: Seq<char>| text_json(x)));
        assert(es.deep_view() == s);
        let value = match &self.server_port {
            Some(x) => Some(Json::Unsigned(*x as u64)),
            None => None,
        };
        put_field(&mut es, Key::ServerPort, value);
        let ghost s = put(s, Key::ServerPort, present(self@.server_port, |x: u16| u16_json(x)));
        assert(es.deep_view() == s);
        let value = match &self.tls {
            Some(x) => Some(x.to_json()),
            None => None,
        };
        put_field(&mut es, Key::Tls, value);
        let ghost s = put(s, Key::Tls, present(self@.tls, |x: TlsConfigView| x.to_json()));
        assert(es.deep_view() == s);
        let group = match &self.dial {
            Some(g) => g.record(),
            None => no_entries(),
        };
        put_group(&mut es, group);
        let ghost s = merge(
            s,
            match self@.dial {
                Some(g) => g.record(),
                None => Seq::empty(),
            },
        );
        assert(es.deep_view() == s);
        es
    }

    /// The record that stands for the value.
    pub fn to_json(&self) -> (r: Json)
        ensures
            r@ == self@.to_json(),
    {
        let r = Json::Record(self.record());
        proof {
            lemma_json_view(r);
        }
        r
    }

    /// Reads the value from the entries of an object, as
    /// `DnsServerQuicView::from_record` says.
    pub fn from_record(es: &Vec<(Key, &Json)>) -> (r: Result<DnsServerQuic, SchemaMismatch>)
        ensures
            match r {
                Ok(x) => DnsServerQuicView::from_record(es.deep_view()) == Some(x@),
                Err(_) => DnsServerQuicView::from_record(es.deep_view()) is None,
            },
    {
        let tag = match get_field(es, Key::Tag) {
            Some(j) => if is_null(j) {
                None
            } else {
                match read_text(j) {
                    Ok(x) => Some(x),
                    Err(e) => {
                        return Err(e);
                    },
                }
            },
            None => None,
        };
        assert(optional(get(es.deep_view(), Key::Tag), |j: JsonView| json_text(j)) == Some(tag.deep_view()));
        let server_type = match get_field(es, Key::Type) {
            Some(j) => if is_null(j) {
                None
            } else {
                match read_text(j) {
                    Ok(x) => Some(x),
                    Err(e) => {
                        return Err(e);
                    },
                }
            },
            None => None,
        };
        assert(optional(get(es.deep_view(), Key::Type), |j: JsonView| json_text(j)) == Some(server_type.deep_view()));
        let server = match get_field(es, Key::Server) {
            Some(j) => if is_null(j) {
                None
            } else {
                match read_text(j) {
                    Ok(x) => Some(x),
                    Err(e) => {
                        return Err(e);
                    },
                }
            },
            None => None,
        };
        assert(optional(get(es.deep_view(), Key::Server), |j: JsonView| json_text(j)) == Some(server.deep_view()));
        let server_port = match get_field(es, Key::ServerPort) {
            Some(j) => if is_null(j) {
                None
            } else {
                match read_u16(j) {
                    Ok(x) => Some(x),
                    Err(e) => {
                        return Err(e);
                    },
                }
            },
            None => None,
        };
        assert(optional(get(es.deep_view(), Key::ServerPort), |j: JsonView| json_u16(j)) == Some(server_port.deep_view()));
        let tls = match get_field(es, Key::Tls) {
            Some(j) => if is_null(j) {
                None
            } else {
                match TlsConfig::from_json(j) {
                    Ok(x) => Some(x),
                    Err(e) => {
                        return Err(e);
                    },
                }
            },
            None => None,
        };
        assert(optional(get(es.deep_view(), Key::Tls), |j: JsonView| TlsConfigView::from_json(j)) == Some(tls.deep_view()));
        let dial = match DialFields::from_group(es) {
            Ok(g) => g,
            Err(e) => {
                return Err(e);
            },
        };
        Ok(DnsServerQuic { tag, server_type, server, server_port, tls, dial })
    }

    /// Reads the value from an object, as `DnsServerQuicView::from_json` says.
    pub fn from_json(j: &Json) -> (r: Result<DnsServerQuic, SchemaMismatch>)
        ensures
            match r {
                Ok(x) => DnsServerQuicView::from_json(j@) == Some(x@),
                Err(_) => DnsServerQuicView::from_json(j@) is None,
            },
    {
        match read_entries(j) {
            Ok(es) => DnsServerQuic::from_record(&es),
            Err(e) => Err(e),
        }
    }
}

/// A server reached over HTTPS.
#[derive(Debug, Clone, PartialEq)]
pub struct DnsServerHttps {
    pub tag: Option<String>,
    pub server_type: Option<String>,
    pub server: Option<String>,
    pub server_port: Option<u16>,
    pub path: Option<String>,
    pub headers: Option<Vec<(String, String)>>,
    pub tls: Option<TlsConfig>,
    pub dial: Option<DialFields>,
}

/// What a [`DnsServerHttps`] holds, with every text as its characters.
pub struct DnsServerHttpsView {
    pub tag: Option<Seq<char>>,
    pub server_type: Option<Seq<char>>,
    pub server: Option<Seq<char>>,
    pub server_port: Option<u16>,
    pub path: Option<Seq<char>>,
    pub headers: Option<Seq<(Seq<char>, Seq<char>)>>,
    pub tls: Option<TlsConfigView>,
    pub dial: Option<DialFieldsView>,
}

impl DeepView for DnsServerHttps {
    type V = DnsServerHttpsView;

    open spec fn deep_view(&self) -> DnsServerHttpsView {
        DnsServerHttpsView {
            tag: self.tag.deep_view(),
            server_type: self.server_type.deep_view(),
            server: self.server.deep_view(),
            server_port: self.server_port.deep_view(),
            path: self.path.deep_view(),
            headers: self.headers.deep_view(),
            tls: self.tls.deep_view(),
            dial: self.dial.deep_view(),
        }
    }
}

impl View for DnsServerHttps {
    type V = DnsServerHttpsView;

    open spec fn view(&self) -> DnsServerHttpsView {
        self.deep_view()
    }
}

impl DnsServerHttpsView {
    /// The view of what [`DnsServerHttps::new`] returns.
    pub open spec fn fresh() -> DnsServerHttpsView {
        DnsServerHttpsView {
            tag: None,
            server_type: Some("https"@),
            server: None,
            server_port: None,
            path: None,
            headers: None,
            tls: None,
            dial: None,
        }
    }
}

impl DnsServerHttps {
    /// An HTTPS server without a tag or an address.
    pub fn new() -> (r: Self)
        ensures
            r@ == DnsServerHttpsView::fresh(),
    {
        DnsServerHttps {
            tag: None,
            server_type: Some("https".to_owned()),
            server: None,
            server_port: None,
            path: None,
            headers: None,
            tls: None,
            dial: None,
        }
    }
}

impl DnsServerHttpsView {
    /// The entries of the record that stands for the value: one for each
    /// field that is set, in the order of the fields.
    pub open spec fn record(self) -> Entries {
        let es = Seq::empty();
        let es = put(es, Key::Tag, present(self.tag, |x: Seq<char>| text_json(x)));
        let es = put(es, Key::Type, present(self.server_type, |x: Seq<char>| text_json(x)));
        let es = put(es, Key::Server, present(self.server, |x: Seq<char>| text_json(x)));
        let es = put(es, Key::ServerPort, present(self.server_port, |x: u16| u16_json(x)));
        let es = put(es, Key::Path, present(self.path, |x: Seq<char>| text_json(x)));
        let es = put(es, Key::Headers, present(self.headers, |x: Seq<(Seq<char>, Seq<char>)>| text_table_json(x)));
        let es = put(es, Key::Tls, present(self.tls, |x: TlsConfigView| x.to_json()));
        let es = merge(
            es,
            match self.dial {
                Some(g) => g.record(),
                None => Seq::empty(),
            },
        );
        es
    }

    /// The record that stands for the value.
    pub open spec fn to_json(self) -> JsonView {
        JsonView::Record(self.record())
    }

    /// The value that the entries of an object stand for. Fails where an
    /// entry holds a value of the wrong shape.
    pub open spec fn from_record(es: Entries) -> Option<DnsServerHttpsView> {
        let tag = optional(get(es, Key::Tag), |j: JsonView| json_text(j));
        let server_type = optional(get(es, Key::Type), |j: JsonView| json_text(j));
        let server = optional(get(es, Key::Server), |j: JsonView| json_text(j));
        let server_port = optional(get(es, Key::ServerPort), |j: JsonView| json_u16(j));
        let path = optional(get(es, Key::Path), |j: JsonView| json_text(j));
        let headers = optional(get(es, Key::Headers), |j: JsonView| json_text_table(j));
        let tls = optional(get(es, Key::Tls), |j: JsonView| TlsConfigView::from_json(j));
        let dial = DialFieldsView::from_group(es);
        if tag is Some
            && server_type is Some
            && server is Some
            && server_port is Some
            && path is Some
            && headers is Some
            && tls is Some
            && dial is Some {
            Some(
                DnsServerHttpsView {
                    tag: tag->0,
                    server_type: server_type->0,
                    server: server->0,
                    server_port: server_port->0,
                    path: path->0,
                    headers: headers->0,
                    tls: tls->0,
                    dial: dial->0,
                },
            )
        } else {
            None
        }
    }

    /// The value that an object stands for; none for a value that is no
    /// object.
    pub open spec fn from_json(j: JsonView) -> Option<DnsServerHttpsView> {
        match entries_of(j) {
            Some(es) => DnsServerHttpsView::from_record(es),
            None => None,
        }
    }

    /// Whether the value is written in a form from which it is read back:
    /// the values that it holds are, and a group of fields that is present
    /// sets at least one of them.
    pub open spec fn canonical(self) -> bool {
        &&& match self.tls {
            Some(x) => x.canonical(),
            None => true,
        }
        &&& match self.dial {
            Some(g) => g.canonical() && g != DialFieldsView::blank(),
            None => true,
        }
    }

    /// The value is read back from the record that stands for it.
    pub proof fn lemma_round_trip(self)
        requires
            self.canonical(),
        ensures
            DnsServerHttpsView::from_record(self.record()) == Some(self),
            DnsServerHttpsView::from_json(self.to_json()) == Some(self),
    {
        broadcast use {lemma_get_empty, lemma_get_put, lemma_get_merge};

        let es = self.record();
        assert(optional(get(es, Key::Tag), |j: JsonView| json_text(j)) == Some(self.tag));
        assert(optional(get(es, Key::Type), |j: JsonView| json_text(j)) == Some(self.server_type));
        assert(optional(get(es, Key::Server), |j: JsonView| json_text(j)) == Some(self.server));
        assert(optional(get(es, Key::ServerPort), |j: JsonView| json_u16(j)) == Some(self.server_port));
        assert(optional(get(es, Key::Path), |j: JsonView| json_text(j)) == Some(self.path));
        match self.headers {
            Some(x) => {
                lemma_text_table(x);
            },
            None => {},
        }
        assert(optional(get(es, Key::Headers), |j: JsonView| json_text_table(j)) == Some(self.headers));
        match self.tls {
            Some(x) => {
                x.lemma_round_trip();
            },
            None => {},
        }
        assert(optional(get(es, Key::Tls), |j: JsonView| TlsConfigView::from_json(j)) == Some(self.tls));
        match self.dial {
            Some(g) => {
                g.lemma_round_trip();
                assert(get(es, Key::Detour) == get(g.record(), Key::Detour));
                assert(get(es, Key::DomainResolver) == get(g.record(), Key::DomainResolver));
                assert(get(es, Key::BindInterface) == get(g.record(), Key::BindInterface));
                assert(get(es, Key::Inet4BindAddress) == get(g.record(), Key::Inet4BindAddress));
                assert(get(es, Key::Inet6BindAddress) == get(g.record(), Key::Inet6BindAddress));
                assert(get(es, Key::RoutingMark) == get(g.record(), Key::RoutingMark));
                assert(get(es, Key::ReuseAddr) == get(g.record(), Key::ReuseAddr));
                assert(get(es, Key::ConnectTimeout) == get(g.record(), Key::ConnectTimeout));
                assert(get(es, Key::TcpFastOpen) == get(g.record(), Key::TcpFastOpen));
                assert(get(es, Key::TcpMultiPath) == get(g.record(), Key::TcpMultiPath));
                assert(get(es, Key::UdpFragment) == get(g.record(), Key::UdpFragment));
                DialFieldsView::lemma_reads_own_keys(es, g.record());
            },
            None => {
                assert(get(es, Key::Detour) is None);
                assert(get(es, Key::DomainResolver) is None);
                assert(get(es, Key::BindInterface) is None);
                assert(get(es, Key::Inet4BindAddress) is None);
                assert(get(es, Key::Inet6BindAddress) is None);
                assert(get(es, Key::RoutingMark) is None);
                assert(get(es, Key::ReuseAddr) is None);
                assert(get(es, Key::ConnectTimeout) is None);
                assert(get(es, Key::TcpFastOpen) is None);
                assert(get(es, Key::TcpMultiPath) is None);
                assert(get(es, Key::UdpFragment) is None);
                DialFieldsView::lemma_no_group(es);
            },
        }
        assert(DialFieldsView::from_group(es) == Some(self.dial));
    }
}

impl DnsServerHttps {
    /// The entries of the record that stands for the value, as
    /// `DnsServerHttpsView::record` lists them.
    pub fn record(&self) -> (r: Vec<(Key, Json)>)
        ensures
            r.deep_view() == self@.record(),
    {
        let mut es: Vec<(Key, Json)> = no_entries();
        let ghost s = Seq::<(Key, JsonView)>::empty();
        let value = match &self.tag {
            Some(x) => Some(Json::Text(x.clone())),
            None => None,
        };
        put_field(&mut es, Key::Tag, value);
        let ghost s = put(s, Key::Tag, present(self@.tag, |x: Seq<char>| text_json(x)));
        assert(es.deep_view() == s);
        let value = match &self.server_type {
            Some(x) => Some(Json::Text(x.clone())),
            None => None,
        };
        put_field(&mut es, Key::Type, value);
        let ghost s = put(s, Key::Type, present(self@.server_type, |x: Seq<char>| text_json(x)));
        assert(es.deep_view() == s);
        let value = match &self.server {
            Some(x) => Some(Json::Text(x.clone())),
            None => None,
        };
        put_field(&mut es, Key::Server, value);
        let ghost s = put(s, Key::Server, present(self@.server, |x: Seq<char>| text_json(x)));
        assert(es.deep_view() == s);
        let value = match &self.server_port {
            Some(x) => Some(Json::Unsigned(*x as u64)),
            None => None,
        };
        put_field(&mut es, Key::ServerPort, value);
        let ghost s = put(s, Key::ServerPort, present(self@.server_port, |x: u16| u16_json(x)));
        assert(es.deep_view() == s);
        let value = match &self.path {
            Some(x) => Some(Json::Text(x.clone())),
            None => None,
        };
        put_field(&mut es, Key::Path, value);
        let ghost s = put(s, Key::Path, present(self@.path, |x: Seq<char>| text_json(x)));
        assert(es.deep_view() == s);
        let value = match &self.headers {
            Some(x) => Some(write_text_table(x)),
            None => None,
        };
        put_field(&mut es, Key::Headers, value);
        let ghost s = put(s, Key::Headers, present(self@.headers, |x: Seq<(Seq<char>, Seq<char>)>| text_table_json(x)));
        assert(es.deep_view() == s);
        let value = match &self.tls {
            Some(x) => Some(x.to_json()),
            None => None,
        };
        put_field(&mut es, Key::Tls, value);
        let ghost s = put(s, Key::Tls, present(self@.tls, |x: TlsConfigView| x.to_json()));
        assert(es.deep_view() == s);
        let group = match &self.dial {
            Some(g) => g.record(),
            None => no_entries(),
        };
        put_group(&mut es, group);
        let ghost s = merge(
            s,
            match self@.dial {
                Some(g) => g.record(),
                None => Seq::empty(),
            },
        );
        assert(es.deep_view() == s);
        es
    }

    /// The record that stands for the value.
    pub fn to_json(&self) -> (r: Json)
        ensures
            r@ == self@.to_json(),
    {
        let r = Json::Record(self.record());
        proof {
            lemma_json_view(r);
        }
        r
    }

    /// Reads the value from the entries of an object, as
    /// `DnsServerHttpsView::from_record` says.
    pub fn from_record(es: &Vec<(Key, &Json)>) -> (r: Result<DnsServerHttps, SchemaMismatch>)
        ensures
            match r {
                Ok(x) => DnsServerHttpsView::from_record(es.deep_view()) == Some(x@),
                Err(_) => DnsServerHttpsView::from_record(es.deep_view()) is None,
            },
    {
        let tag = match get_field(es, Key::Tag) {
            Some(j) => if is_null(j) {
                None
            } else {
                match read_text(j) {
                    Ok(x) => Some(x),
                    Err(e) => {
                        return Err(e);
                    },
                }
            },
            None => None,
        };
        assert(optional(get(es.deep_view(), Key::Tag), |j: JsonView| json_text(j)) == Some(tag.deep_view()));
        let server_type = match get_field(es, Key::Type) {
            Some(j) => if is_null(j) {
                None
            } else {
                match read_text(j) {
                    Ok(x) => Some(x),
                    Err(e) => {
                        return Err(e);
                    },
                }
            },
            None => None,
        };
        assert(optional(get(es.deep_view(), Key::Type), |j: JsonView| json_text(j)) == Some(server_type.deep_view()));
        let server = match get_field(es, Key::Server) {
            Some(j) => if is_null(j) {
                None
            } else {
                match read_text(j) {
                    Ok(x) => Some(x),
                    Err(e) => {
                        return Err(e);
                    },
                }
            },
            None => None,
        };
        assert(optional(get(es.deep_view(), Key::Server), |j: JsonView| json_text(j)) == Some(server.deep_view()));
        let server_port = match get_field(es, Key::ServerPort) {
            Some(j) => if is_null(j) {
                None
            } else {
                match read_u16(j) {
                    Ok(x) => Some(x),
                    Err(e) => {
                        return Err(e);
                    },
                }
            },
            None => None,
        };
        assert(optional(get(es.deep_view(), Key::ServerPort), |j: JsonView| json_u16(j)) == Some(server_port.deep_view()));
        let path = match get_field(es, Key::Path) {
            Some(j) => if is_null(j) {
                None
            } else {
                match read_text(j) {
                    Ok(x) => Some(x),
                    Err(e) => {
                        return Err(e);
                    },
                }
            },
            None => None,
        };
        assert(optional(get(es.deep_view(), Key::Path), |j: JsonView| json_text(j)) == Some(path.deep_view()));
        let headers = match get_field(es, Key::Headers) {
            Some(j) => if is_null(j) {
                None
            } else {
                match read_text_table(j) {
                    Ok(x) => Some(x),
                    Err(e) => {
                        return Err(e);
                    },
                }
            },
            None => None,
        };
        assert(optional(get(es.deep_view(), Key::Headers), |j: JsonView| json_text_table(j)) == Some(headers.deep_view()));
        let tls = match get_field(es, Key::Tls) {
            Some(j) => if is_null(j) {
                None
            } else {
                match TlsConfig::from_json(j) {
                    Ok(x) => Some(x),
                    Err(e) => {
                        return Err(e);
                    },
                }
            },
            None => None,
        };
        assert(optional(get(es.deep_view(), Key::Tls), |j: JsonView| TlsConfigView::from_json(j)) == Some(tls.deep_view()));
        let dial = match DialFields::from_group(es) {
            Ok(g) => g,
            Err(e) => {
                return Err(e);
            },
        };
        Ok(DnsServerHttps { tag, server_type, server, server_port, path, headers, tls, dial })
    }

    /// Reads the value from an object, as `DnsServerHttpsView::from_json` says.
    pub fn from_json(j: &Json) -> (r: Result<DnsServerHttps, SchemaMismatch>)
        ensures
            match r {
                Ok(x) => DnsServerHttpsView::from_json(j@) == Some(x@),
                Err(_) => DnsServerHttpsView::from_json(j@) is None,
            },
    {
        match read_entries(j) {
            Ok(es) => DnsServerHttps::from_record(&es),
            Err(e) => Err(e),
        }
    }
}

/// A server reached over HTTP/3.
#[derive(Debug, Clone, PartialEq)]
pub struct DnsServerHttp3 {
    pub tag: Option<String>,
    pub server_type: Option<String>,
    pub server: Option<String>,
    pub server_port: Option<u16>,
    pub path: Option<String>,
    pub headers: Option<Vec<(String, String)>>,
    pub tls: Option<TlsConfig>,
    pub dial: Option<DialFields>,
}

/// What a [`DnsServerHttp3`] holds, with every text as its characters.
pub struct DnsServerHttp3View {
    pub tag: Option<Seq<char>>,
    pub server_type: Option<Seq<char>>,
    pub server: Option<Seq<char>>,
    pub server_port: Option<u16>,
    pub path: Option<Seq<char>>,
    pub headers: Option<Seq<(Seq<char>, Seq<char>)>>,
    pub tls: Option<TlsConfigView>,
    pub dial: Option<DialFieldsView>,
}

impl DeepView for DnsServerHttp3 {
    type V = DnsServerHttp3View;

    open spec fn deep_view(&self) -> DnsServerHttp3View {
        DnsServerHttp3View {
            tag: self.tag.deep_view(),
            server_type: self.server_type.deep_view(),
            server: self.server.deep_view(),
            server_port: self.server_port.deep_view(),
            path: self.path.deep_view(),
            headers: self.headers.deep_view(),
            tls: self.tls.deep_view(),
            dial: self.dial.deep_view(),
        }
    }
}

impl View for DnsServerHttp3 {
    type V = DnsServerHttp3View;

    open spec fn view(&self) -> DnsServerHttp3View {
        self.deep_view()
    }
}

impl DnsServerHttp3View {
    /// The view of what [`DnsServerHttp3::new`] returns.
    pub open spec fn fresh() -> DnsServerHttp3View {
        DnsServerHttp3View {
            tag: None,
            server_type: Some("h3"@),
            server: None,
            server_port: None,
            path: None,
            headers: None,
            tls: None,
            dial: None,
        }
    }
}

impl DnsServerHttp3 {
    /// An HTTP/3 server without a tag or an address.
    pub fn new() -> (r: Self)
        ensures
            r@ == DnsServerHttp3View::fresh(),
    {
        DnsServerHttp3 {
            tag: None,
            server_type: Some("h3".to_owned()),
            server: None,
            server_port: None,
            path: None,
            headers: None,
            tls: None,
            dial: None,
        }
    }
}

impl DnsServerHttp3View {
    /// The entries of the record that stands for the value: one for each
    /// field that is set, in the order of the fields.
    pub open spec fn record(self) -> Entries {
        let es = Seq::empty();
        let es = put(es, Key::Tag, present(self.tag, |x: Seq<char>| text_json(x)));
        let es = put(es, Key::Type, present(self.server_type, |x: Seq<char>| text_json(x)));
        let es = put(es, Key::Server, present(self.server, |x: Seq<char>| text_json(x)));
        let es = put(es, Key::ServerPort, present(self.server_port, |x: u16| u16_json(x)));
        let es = put(es, Key::Path, present(self.path, |x: Seq<char>| text_json(x)));
        let es = put(es, Key::Headers, present(self.headers, |x: Seq<(Seq<char>, Seq<char>)>| text_table_json(x)));
        let es = put(es, Key::Tls, present(self.tls, |x: TlsConfigView| x.to_json()));
        let es = merge(
            es,
            match self.dial {
                Some(g) => g.record(),
                None => Seq::empty(),
            },
        );
        es
    }

    /// The record that stands for the value.
    pub open spec fn to_json(self) -> JsonView {
        JsonView::Record(self.record())
    }

    /// The value that the entries of an object stand for. Fails where an
    /// entry holds a value of the wrong shape.
    pub open spec fn from_record(es: Entries) -> Option<DnsServerHttp3View> {
        let tag = optional(get(es, Key::Tag), |j: JsonView| json_text(j));
        let server_type = optional(get(es, Key::Type), |j: JsonView| json_text(j));
        let server = optional(get(es, Key::Server), |j: JsonView| json_text(j));
        let server_port = optional(get(es, Key::ServerPort), |j: JsonView| json_u16(j));
        let path = optional(get(es, Key::Path), |j: JsonView| json_text(j));
        let headers = optional(get(es, Key::Headers), |j: JsonView| json_text_table(j));
        let tls = optional(get(es, Key::Tls), |j: JsonView| TlsConfigView::from_json(j));
        let dial = DialFieldsView::from_group(es);
        if tag is Some
            && server_type is Some
            && server is Some
            && server_port is Some
            && path is Some
            && headers is Some
            && tls is Some
            && dial is Some {
            Some(
                DnsServerHttp3View {
                    tag: tag->0,
                    server_type: server_type->0,
                    server: server->0,
                    server_port: server_port->0,
                    path: path->0,
                    headers: headers->0,
                    tls: tls->0,
                    dial: dial->0,
                },
            )
        } else {
            None
        }
    }

    /// The value that an object stands for; none for a value that is no
    /// object.
    pub open spec fn from_json(j: JsonView) -> Option<DnsServerHttp3View> {
        match entries_of(j) {
            Some(es) => DnsServerHttp3View::from_record(es),
            None => None,
        }
    }

    /// Whether the value is written in a form from which it is read back:
    /// the values that it holds are, and a group of fields that is present
    /// sets at least one of them.
    pub open spec fn canonical(self) -> bool {
        &&& match self.tls {
            Some(x) => x.canonical(),
            None => true,
        }
        &&& match self.dial {
            Some(g) => g.canonical() && g != DialFieldsView::blank(),
            None => true,
        }
    }

    /// The value is read back from the record that stands for it.
    pub proof fn lemma_round_trip(self)
        requires
            self.canonical(),
        ensures
            DnsServerHttp3View::from_record(self.record()) == Some(self),
            DnsServerHttp3View::from_json(self.to_json()) == Some(self),
    {
        broadcast use {lemma_get_empty, lemma_get_put, lemma_get_merge};

        let es = self.record();
        assert(optional(get(es, Key::Tag), |j: JsonView| json_text(j)) == Some(self.tag));
        assert(optional(get(es, Key::Type), |j: JsonView| json_text(j)) == Some(self.server_type));
        assert(optional(get(es, Key::Server), |j: JsonView| json_text(j)) == Some(self.server));
        assert(optional(get(es, Key::ServerPort), |j: JsonView| json_u16(j)) == Some(self.server_port));
        assert(optional(get(es, Key::Path), |j: JsonView| json_text(j)) == Some(self.path));
        match self.headers {
            Some(x) => {
                lemma_text_table(x);
            },
            None => {},
        }
        assert(optional(get(es, Key::Headers), |j: JsonView| json_text_table(j)) == Some(self.headers));
        match self.tls {
            Some(x) => {
                x.lemma_round_trip();
            },
            None => {},
        }
        assert(optional(get(es, Key::Tls), |j: JsonView| TlsConfigView::from_json(j)) == Some(self.tls));
        match self.dial {
            Some(g) => {
                g.lemma_round_trip();
                assert(get(es, Key::Detour) == get(g.record(), Key::Detour));
                assert(get(es, Key::DomainResolver) == get(g.record(), Key::DomainResolver));
                assert(get(es, Key::BindInterface) == get(g.record(), Key::BindInterface));
                assert(get(es, Key::Inet4BindAddress) == get(g.record(), Key::Inet4BindAddress));
                assert(get(es, Key::Inet6BindAddress) == get(g.record(), Key::Inet6BindAddress));
                assert(get(es, Key::RoutingMark) == get(g.record(), Key::RoutingMark));
                assert(get(es, Key::ReuseAddr) == get(g.record(), Key::ReuseAddr));
                assert(get(es, Key::ConnectTimeout) == get(g.record(), Key::ConnectTimeout));
                assert(get(es, Key::TcpFastOpen) == get(g.record(), Key::TcpFastOpen));
                assert(get(es, Key::TcpMultiPath) == get(g.record(), Key::TcpMultiPath));
                assert(get(es, Key::UdpFragment) == get(g.record(), Key::UdpFragment));
                DialFieldsView::lemma_reads_own_keys(es, g.record());
            },
            None => {
                assert(get(es, Key::Detour) is None);
                assert(get(es, Key::DomainResolver) is None);
                assert(get(es, Key::BindInterface) is None);
                assert(get(es, Key::Inet4BindAddress) is None);
                assert(get(es, Key::Inet6BindAddress) is None);
                assert(get(es, Key::RoutingMark) is None);
                assert(get(es, Key::ReuseAddr) is None);
                assert(get(es, Key::ConnectTimeout) is None);
                assert(get(es, Key::TcpFastOpen) is None);
                assert(get(es, Key::TcpMultiPath) is None);
                assert(get(es, Key::UdpFragment) is None);
                DialFieldsView::lemma_no_group(es);
            },
        }
        assert(DialFieldsView::from_group(es) == Some(self.dial));
    }
}

impl DnsServerHttp3 {
    /// The entries of the record that stands for the value, as
    /// `DnsServerHttp3View::record` lists them.
    pub fn record(&self) -> (r: Vec<(Key, Json)>)
        ensures
            r.deep_view() == self@.record(),
    {
        let mut es: Vec<(Key, Json)> = no_entries();
        let ghost s = Seq::<(Key, JsonView)>::empty();
        let value = match &self.tag {
            Some(x) => Some(Json::Text(x.clone())),
            None => None,
        };
        put_field(&mut es, Key::Tag, value);
        let ghost s = put(s, Key::Tag, present(self@.tag, |x: Seq<char>| text_json(x)));
        assert(es.deep_view() == s);
        let value = match &self.server_type {
            Some(x) => Some(Json::Text(x.clone())),
            None => None,
        };
        put_field(&mut es, Key::Type, value);
        let ghost s = put(s, Key::Type, present(self@.server_type, |x: Seq<char>| text_json(x)));
        assert(es.deep_view() == s);
        let value = match &self.server {
            Some(x) => Some(Json::Text(x.clone())),
            None => None,
        };
        put_field(&mut es, Key::Server, value);
        let ghost s = put(s, Key::Server, present(self@.server, |x: Seq<char>| text_json(x)));
        assert(es.deep_view() == s);
        let value = match &self.server_port {
            Some(x) => Some(Json::Unsigned(*x as u64)),
            None => None,
        };
        put_field(&mut es, Key::ServerPort, value);
        let ghost s = put(s, Key::ServerPort, present(self@.server_port, |x: u16| u16_json(x)));
        assert(es.deep_view() == s);
        let value = match &self.path {
            Some(x) => Some(Json::Text(x.clone())),
            None => None,
        };
        put_field(&mut es, Key::Path, value);
        let ghost s = put(s, Key::Path, present(self@.path, |x: Seq<char>| text_json(x)));
        assert(es.deep_view() == s);
        let value = match &self.headers {
            Some(x) => Some(write_text_table(x)),
            None => None,
        };
        put_field(&mut es, Key::Headers, value);
        let ghost s = put(s, Key::Headers, present(self@.headers, |x: Seq<(Seq<char>, Seq<char>)>| text_table_json(x)));
        assert(es.deep_view() == s);
        let value = match &self.tls {
            Some(x) => Some(x.to_json()),
            None => None,
        };
        put_field(&mut es, Key::Tls, value);
        let ghost s = put(s, Key::Tls, present(self@.tls, |x: TlsConfigView| x.to_json()));
        assert(es.deep_view() == s);
        let group = match &self.dial {
            Some(g) => g.record(),
            None => no_entries(),
        };
        put_group(&mut es, group);
        let ghost s = merge(
            s,
            match self@.dial {
                Some(g) => g.record(),
                None => Seq::empty(),
            },
        );
        assert(es.deep_view() == s);
        es
    }

    /// The record that stands for the value.
    pub fn to_json(&self) -> (r: Json)
        ensures
            r@ == self@.to_json(),
    {
        let r = Json::Record(self.record());
        proof {
            lemma_json_view(r);
        }
        r
    }

    /// Reads the value from the entries of an object, as
    /// `DnsServerHttp3View::from_record` says.
    pub fn from_record(es: &Vec<(Key, &Json)>) -> (r: Result<DnsServerHttp3, SchemaMismatch>)
        ensures
            match r {
                Ok(x) => DnsServerHttp3View::from_record(es.deep_view()) == Some(x@),
                Err(_) => DnsServerHttp3View::from_record(es.deep_view()) is None,
            },
    {
        let tag = match get_field(es, Key::Tag) {
            Some(j) => if is_null(j) {
                None
            } else {
                match read_text(j) {
                    Ok(x) => Some(x),
                    Err(e) => {
                        return Err(e);
                    },
                }
            },
            None => None,
        };
        assert(optional(get(es.deep_view(), Key::Tag), |j: JsonView| json_text(j)) == Some(tag.deep_view()));
        let server_type = match get_field(es, Key::Type) {
            Some(j) => if is_null(j) {
                None
            } else {
                match read_text(j) {
                    Ok(x) => Some(x),
                    Err(e) => {
                        return Err(e);
                    },
                }
            },
            None => None,
        };
        assert(optional(get(es.deep_view(), Key::Type), |j: JsonView| json_text(j)) == Some(server_type.deep_view()));
        let server = match get_field(es, Key::Server) {
            Some(j) => if is_null(j) {
                None
            } else {
                match read_text(j) {
                    Ok(x) => Some(x),
                    Err(e) => {
                        return Err(e);
                    },
                }
            },
            None => None,
        };
        assert(optional(get(es.deep_view(), Key::Server), |j: JsonView| json_text(j)) == Some(server.deep_view()));
        let server_port = match get_field(es, Key::ServerPort) {
            Some(j) => if is_null(j) {
                None
            } else {
                match read_u16(j) {
                    Ok(x) => Some(x),
                    Err(e) => {
                        return Err(e);
                    },
                }
            },
            None => None,
        };
        assert(optional(get(es.deep_view(), Key::ServerPort), |j: JsonView| json_u16(j)) == Some(server_port.deep_view()));
        let path = match get_field(es, Key::Path) {
            Some(j) => if is_null(j) {
                None
            } else {
                match read_text(j) {
                    Ok(x) => Some(x),
                    Err(e) => {
                        return Err(e);
                    },
                }
            },
            None => None,
        };
        assert(optional(get(es.deep_view(), Key::Path), |j: JsonView| json_text(j)) == Some(path.deep_view()));
        let headers = match get_field(es, Key::Headers) {
            Some(j) => if is_null(j) {
                None
            } else {
                match read_text_table(j) {
                    Ok(x) => Some(x),
                    Err(e) => {
                        return Err(e);
                    },
                }
            },
            None => None,
        };
        assert(optional(get(es.deep_view(), Key::Headers), |j: JsonView| json_text_table(j)) == Some(headers.deep_view()));
        let tls = match get_field(es, Key::Tls) {
            Some(j) => if is_null(j) {
                None
            } else {
                match TlsConfig::from_json(j) {
                    Ok(x) => Some(x),
                    Err(e) => {
                        return Err(e);
                    },
                }
            },
            None => None,
        };
        assert(optional(get(es.deep_view(), Key::Tls), |j: JsonView| TlsConfigView::from_json(j)) == Some(tls.deep_view()));
        let dial = match DialFields::from_group(es) {
            Ok(g) => g,
            Err(e) => {
                return Err(e);
            },
        };
        Ok(DnsServerHttp3 { tag, server_type, server, server_port, path, headers, tls, dial })
    }

    /// Reads the value from an object, as `DnsServerHttp3View::from_json` says.
    pub fn from_json(j: &Json) -> (r: Result<DnsServerHttp3, SchemaMismatch>)
        ensures
            match r {
                Ok(x) => DnsServerHttp3View::from_json(j@) == Some(x@),
                Err(_) => DnsServerHttp3View::from_json(j@) is None,
            },
    {
        match read_entries(j) {
            Ok(es) => DnsServerHttp3::from_record(&es),
            Err(e) => Err(e),
        }
    }
}

/// The server that DHCP announces.
#[derive(Debug, Clone, PartialEq)]
pub struct DnsServerDhcp {
    pub tag: Option<String>,
    pub server_type: Option<String>,
    pub interface: Option<String>,
    pub dial: Option<DialFields>,
}

/// What a [`DnsServerDhcp`] holds, with every text as its characters.
pub struct DnsServerDhcpView {
    pub tag: Option<Seq<char>>,
    pub server_type: Option<Seq<char>>,
    pub interface: Option<Seq<char>>,
    pub dial: Option<DialFieldsView>,
}

impl DeepView for DnsServerDhcp {
    type V = DnsServerDhcpView;

    open spec fn deep_view(&self) -> DnsServerDhcpView {
        DnsServerDhcpView {
            tag: self.tag.deep_view(),
            server_type: self.server_type.deep_view(),
            interface: self.interface.deep_view(),
            dial: self.dial.deep_view(),
        }
    }
}

impl View for DnsServerDhcp {
    type V = DnsServerDhcpView;

    open spec fn view(&self) -> DnsServerDhcpView {
        self.deep_view()
    }
}

impl DnsServerDhcpView {
    /// The view of what [`DnsServerDhcp::new`] returns.
    pub open spec fn fresh() -> DnsServerDhcpView {
        DnsServerDhcpView {
            tag: None,
            server_type: Some("dhcp"@),
            interface: None,
            dial: None,
        }
    }
}

impl DnsServerDhcp {
    /// A DHCP server without a tag.
    pub fn new() -> (r: Self)
        ensures
            r@ == DnsServerDhcpView::fresh(),
    {
        DnsServerDhcp {
            tag: None,
            server_type: Some("dhcp".to_owned()),
            interface: None,
            dial: None,
        }
    }
}

impl DnsServerDhcpView {
    /// The entries of the record that stands for the value: one for each
    /// field that is set, in the order of the fields.
    pub open spec fn record(self) -> Entries {
        let es = Seq::empty();
        let es = put(es, Key::Tag, present(self.tag, |x: Seq<char>| text_json(x)));
        let es = put(es, Key::Type, present(self.server_type, |x: Seq<char>| text_json(x)));
        let es = put(es, Key::Interface, present(self.interface, |x: Seq<char>| text_json(x)));
        let es = merge(
            es,
            match self.dial {
                Some(g) => g.record(),
                None => Seq::empty(),
            },
        );
        es
    }

    /// The record that stands for the value.
    pub open spec fn to_json(self) -> JsonView {
        JsonView::Record(self.record())
    }

    /// The value that the entries of an object stand for. Fails where an
    /// entry holds a value of the wrong shape.
    pub open spec fn from_record(es: Entries) -> Option<DnsServerDhcpView> {
        let tag = optional(get(es, Key::Tag), |j: JsonView| json_text(j));
        let server_type = optional(get(es, Key::Type), |j: JsonView| json_text(j));
        let interface = optional(get(es, Key::Interface), |j: JsonView| json_text(j));
        let dial = DialFieldsView::from_group(es);
        if tag is Some
            && server_type is Some
            && interface is Some
            && dial is Some {
            Some(
                DnsServerDhcpView {
                    tag: tag->0,
                    server_type: server_type->0,
                    interface: interface->0,
                    dial: dial->0,
                },
            )
        } else {
            None
        }
    }

    /// The value that an object stands for; none for a value that is no
    /// object.
    pub open spec fn from_json(j: JsonView) -> Option<DnsServerDhcpView> {
        match entries_of(j) {
            Some(es) => DnsServerDhcpView::from_record(es),
            None => None,
        }
    }

    /// Whether the value is written in a form from which it is read back:
    /// the values that it holds are, and a group of fields that is present
    /// sets at least one of them.
    pub open spec fn canonical(self) -> bool {
        &&& match self.dial {
            Some(g) => g.canonical() && g != DialFieldsView::blank(),
            None => true,
        }
    }

    /// The value is read back from the record that stands for it.
    pub proof fn lemma_round_trip(self)
        requires
            self.canonical(),
        ensures
            DnsServerDhcpView::from_record(self.record()) == Some(self),
            DnsServerDhcpView::from_json(self.to_json()) == Some(self),
    {
        broadcast use {lemma_get_empty, lemma_get_put, lemma_get_merge};

        let es = self.record();
        assert(optional(get(es, Key::Tag), |j: JsonView| json_text(j)) == Some(self.tag));
        assert(optional(get(es, Key::Type), |j: JsonView| json_text(j)) == Some(self.server_type));
        assert(optional(get(es, Key::Interface), |j: JsonView| json_text(j)) == Some(self.interface));
        match self.dial {
            Some(g) => {
                g.lemma_round_trip();
                assert(get(es, Key::Detour) == get(g.record(), Key::Detour));
                assert(get(es, Key::DomainResolver) == get(g.record(), Key::DomainResolver));
                assert(get(es, Key::BindInterface) == get(g.record(), Key::BindInterface));
                assert(get(es, Key::Inet4BindAddress) == get(g.record(), Key::Inet4BindAddress));
                assert(get(es, Key::Inet6BindAddress) == get(g.record(), Key::Inet6BindAddress));
                assert(get(es, Key::RoutingMark) == get(g.record(), Key::RoutingMark));
                assert(get(es, Key::ReuseAddr) == get(g.record(), Key::ReuseAddr));
                assert(get(es, Key::ConnectTimeout) == get(g.record(), Key::ConnectTimeout));
                assert(get(es, Key::TcpFastOpen) == get(g.record(), Key::TcpFastOpen));
                assert(get(es, Key::TcpMultiPath) == get(g.record(), Key::TcpMultiPath));
                assert(get(es, Key::UdpFragment) == get(g.record(), Key::UdpFragment));
                DialFieldsView::lemma_reads_own_keys(es, g.record());
            },
            None => {
                assert(get(es, Key::Detour) is None);
                assert(get(es, Key::DomainResolver) is None);
                assert(get(es, Key::BindInterface) is None);
                assert(get(es, Key::Inet4BindAddress) is None);
                assert(get(es, Key::Inet6BindAddress) is None);
                assert(get(es, Key::RoutingMark) is None);
                assert(get(es, Key::ReuseAddr) is None);
                assert(get(es, Key::ConnectTimeout) is None);
                assert(get(es, Key::TcpFastOpen) is None);
                assert(get(es, Key::TcpMultiPath) is None);
                assert(get(es, Key::UdpFragment) is None);
                DialFieldsView::lemma_no_group(es);
            },
        }
        assert(DialFieldsView::from_group(es) == Some(self.dial));
    }
}

impl DnsServerDhcp {
    /// The entries of the record that stands for the value, as
    /// `DnsServerDhcpView::record` lists them.
    pub fn record(&self) -> (r: Vec<(Key, Json)>)
        ensures
            r.deep_view() == self@.record(),
    {
        let mut es: Vec<(Key, Json)> = no_entries();
        let ghost s = Seq::<(Key, JsonView)>::empty();
        let value = match &self.tag {
            Some(x) => Some(Json::Text(x.clone())),
            None => None,
        };
        put_field(&mut es, Key::Tag, value);
        let ghost s = put(s, Key::Tag, present(self@.tag, |x: Seq<char>| text_json(x)));
        assert(es.deep_view() == s);
        let value = match &self.server_type {
            Some(x) => Some(Json::Text(x.clone())),
            None => None,
        };
        put_field(&mut es, Key::Type, value);
        let ghost s = put(s, Key::Type, present(self@.server_type, |x: Seq<char>| text_json(x)));
        assert(es.deep_view() == s);
        let value = match &self.interface {
            Some(x) => Some(Json::Text(x.clone())),
            None => None,
        };
        put_field(&mut es, Key::Interface, value);
        let ghost s = put(s, Key::Interface, present(self@.interface, |x: Seq<char>| text_json(x)));
        assert(es.deep_view() == s);
        let group = match &self.dial {
            Some(g) => g.record(),
            None => no_entries(),
        };
        put_group(&mut es, group);
        let ghost s = merge(
            s,
            match self@.dial {
                Some(g) => g.record(),
                None => Seq::empty(),
            },
        );
        assert(es.deep_view() == s);
        es
    }

    /// The record that stands for the value.
    pub fn to_json(&self) -> (r: Json)
        ensures
            r@ == self@.to_json(),
    {
        let r = Json::Record(self.record());
        proof {
            lemma_json_view(r);
        }
        r
    }

    /// Reads the value from the entries of an object, as
    /// `DnsServerDhcpView::from_record` says.
    pub fn from_record(es: &Vec<(Key, &Json)>) -> (r: Result<DnsServerDhcp, SchemaMismatch>)
        ensures
            match r {
                Ok(x) => DnsServerDhcpView::from_record(es.deep_view()) == Some(x@),
                Err(_) => DnsServerDhcpView::from_record(es.deep_view()) is None,
            },
    {
        let tag = match get_field(es, Key::Tag) {
            Some(j) => if is_null(j) {
                None
            } else {
                match read_text(j) {
                    Ok(x) => Some(x),
                    Err(e) => {
                        return Err(e);
                    },
                }
            },
            None => None,
        };
        assert(optional(get(es.deep_view(), Key::Tag), |j: JsonView| json_text(j)) == Some(tag.deep_view()));
        let server_type = match get_field(es, Key::Type) {
            Some(j) => if is_null(j) {
                None
            } else {
                match read_text(j) {
                    Ok(x) => Some(x),
                    Err(e) => {
                        return Err(e);
                    },
                }
            },
            None => None,
        };
        assert(optional(get(es.deep_view(), Key::Type), |j: JsonView| json_text(j)) == Some(server_type.deep_view()));
        let interface = match get_field(es, Key::Interface) {
            Some(j) => if is_null(j) {
                None
            } else {
                match read_text(j) {
                    Ok(x) => Some(x),
                    Err(e) => {
                        return Err(e);
                    },
                }
            },
            None => None,
        };
        assert(optional(get(es.deep_view(), Key::Interface), |j: JsonView| json_text(j)) == Some(interface.deep_view()));
        let dial = match DialFields::from_group(es) {
            Ok(g) => g,
            Err(e) => {
                return Err(e);
            },
        };
        Ok(DnsServerDhcp { tag, server_type, interface, dial })
    }

    /// Reads the value from an object, as `DnsServerDhcpView::from_json` says.
    pub fn from_json(j: &Json) -> (r: Result<DnsServerDhcp, SchemaMismatch>)
        ensures
            match r {
                Ok(x) => DnsServerDhcpView::from_json(j@) == Some(x@),
                Err(_) => DnsServerDhcpView::from_json(j@) is None,
            },
    {
        match read_entries(j) {
            Ok(es) => DnsServerDhcp::from_record(&es),
            Err(e) => Err(e),
        }
    }
}

/// A server that answers with made-up addresses.
#[derive(Debug, Clone, PartialEq)]
pub struct DnsServerFakeIp {
    pub tag: Option<String>,
    pub server_type: Option<String>,
    pub inet4_range: Option<String>,
    pub inet6_range: Option<String>,
}

/// What a [`DnsServerFakeIp`] holds, with every text as its characters.
pub struct DnsServerFakeIpView {
    pub tag: Option<Seq<char>>,
    pub server_type: Option<Seq<char>>,
    pub inet4_range: Option<Seq<char>>,
    pub inet6_range: Option<Seq<char>>,
}

impl DeepView for DnsServerFakeIp {
    type V = DnsServerFakeIpView;

    open spec fn deep_view(&self) -> DnsServerFakeIpView {
        DnsServerFakeIpView {
            tag: self.tag.deep_view(),
            server_type: self.server_type.deep_view(),
            inet4_range: self.inet4_range.deep_view(),
            inet6_range: self.inet6_range.deep_view(),
        }
    }
}

impl View for DnsServerFakeIp {
    type V = DnsServerFakeIpView;

    open spec fn view(&self) -> DnsServerFakeIpView {
        self.deep_view()
    }
}

impl DnsServerFakeIpView {
    /// The view of what [`DnsServerFakeIp::new`] returns.
    pub open spec fn fresh() -> DnsServerFakeIpView {
        DnsServerFakeIpView {
            tag: None,
            server_type: Some("fakeip"@),
            inet4_range: None,
            inet6_range: None,
        }
    }
}

impl DnsServerFakeIp {
    /// A fake-address server without a tag.
    pub fn new() -> (r: Self)
        ensures
            r@ == DnsServerFakeIpView::fresh(),
    {
        DnsServerFakeIp {
            tag: None,
            server_type: Some("fakeip".to_owned()),
            inet4_range: None,
            inet6_range: None,
        }
    }
}

impl DnsServerFakeIpView {
    /// The entries of the record that stands for the value: one for each
    /// field that is set, in the order of the fields.
    pub open spec fn record(self) -> Entries {
        let es = Seq::empty();
        let es = put(es, Key::Tag, present(self.tag, |x: Seq<char>| text_json(x)));
        let es = put(es, Key::Type, present(self.server_type, |x: Seq<char>| text_json(x)));
        let es = put(es, Key::Inet4Range, present(self.inet4_range, |x: Seq<char>| text_json(x)));
        let es = put(es, Key::Inet6Range, present(self.inet6_range, |x: Seq<char>| text_json(x)));
        es
    }

    /// The record that stands for the value.
    pub open spec fn to_json(self) -> JsonView {
        JsonView::Record(self.record())
    }

    /// The value that the entries of an object stand for. Fails where an
    /// entry holds a value of the wrong shape.
    pub open spec fn from_record(es: Entries) -> Option<DnsServerFakeIpView> {
        let tag = optional(get(es, Key::Tag), |j: JsonView| json_text(j));
        let server_type = optional(get(es, Key::Type), |j: JsonView| json_text(j));
        let inet4_range = optional(get(es, Key::Inet4Range), |j: JsonView| json_text(j));
        let inet6_range = optional(get(es, Key::Inet6Range), |j: JsonView| json_text(j));
        if tag is Some
            && server_type is Some
            && inet4_range is Some
            && inet6_range is Some {
            Some(
                DnsServerFakeIpView {
                    tag: tag->0,
                    server_type: server_type->0,
                    inet4_range: inet4_range->0,
                    inet6_range: inet6_range->0,
                },
            )
        } else {
            None
        }
    }

    /// The value that an object stands for; none for a value that is no
    /// object.
    pub open spec fn from_json(j: JsonView) -> Option<DnsServerFakeIpView> {
        match entries_of(j) {
            Some(es) => DnsServerFakeIpView::from_record(es),
            None => None,
        }
    }

    /// Whether the value is written in a form from which it is read back:
    /// every value of this type is.
    pub open spec fn canonical(self) -> bool {
        true
    }

    /// The value is read back from the record that stands for it.
    pub proof fn lemma_round_trip(self)
        ensures
            DnsServerFakeIpView::from_record(self.record()) == Some(self),
            DnsServerFakeIpView::from_json(self.to_json()) == Some(self),
    {
        broadcast use {lemma_get_empty, lemma_get_put, lemma_get_merge};

        let es = self.record();
        assert(optional(get(es, Key::Tag), |j: JsonView| json_text(j)) == Some(self.tag));
        assert(optional(get(es, Key::Type), |j: JsonView| json_text(j)) == Some(self.server_type));
        assert(optional(get(es, Key::Inet4Range), |j: JsonView| json_text(j)) == Some(self.inet4_range));
        assert(optional(get(es, Key::Inet6Range), |j: JsonView| json_text(j)) == Some(self.inet6_range));
    }
}

impl DnsServerFakeIp {
    /// The entries of the record that stands for the value, as
    /// `DnsServerFakeIpView::record` lists them.
    pub fn record(&self) -> (r: Vec<(Key, Json)>)
        ensures
            r.deep_view() == self@.record(),
    {
        let mut es: Vec<(Key, Json)> = no_entries();
        let ghost s = Seq::<(Key, JsonView)>::empty();
        let value = match &self.tag {
            Some(x) => Some(Json::Text(x.clone())),
            None => None,
        };
        put_field(&mut es, Key::Tag, value);
        let ghost s = put(s, Key::Tag, present(self@.tag, |x: Seq<char>| text_json(x)));
        assert(es.deep_view() == s);
        let value = match &self.server_type {
            Some(x) => Some(Json::Text(x.clone())),
            None => None,
        };
        put_field(&mut es, Key::Type, value);
        let ghost s = put(s, Key::Type, present(self@.server_type, |x: Seq<char>| text_json(x)));
        assert(es.deep_view() == s);
        let value = match &self.inet4_range {
            Some(x) => Some(Json::Text(x.clone())),
            None => None,
        };
        put_field(&mut es, Key::Inet4Range, value);
        let ghost s = put(s, Key::Inet4Range, present(self@.inet4_range, |x: Seq<char>| text_json(x)));
        assert(es.deep_view() == s);
        let value = match &self.inet6_range {
            Some(x) => Some(Json::Text(x.clone())),
            None => None,
        };
        put_field(&mut es, Key::Inet6Range, value);
        let ghost s = put(s, Key::Inet6Range, present(self@.inet6_range, |x: Seq<char>| text_json(x)));
        assert(es.deep_view() == s);
        es
    }

    /// The record that stands for the value.
    pub fn to_json(&self) -> (r: Json)
        ensures
            r@ == self@.to_json(),
    {
        let r = Json::Record(self.record());
        proof {
            lemma_json_view(r);
        }
        r
    }

    /// Reads the value from the entries of an object, as
    /// `DnsServerFakeIpView::from_record` says.
    pub fn from_record(es: &Vec<(Key, &Json)>) -> (r: Result<DnsServerFakeIp, SchemaMismatch>)
        ensures
            match r {
                Ok(x) => DnsServerFakeIpView::from_record(es.deep_view()) == Some(x@),
                Err(_) => DnsServerFakeIpView::from_record(es.deep_view()) is None,
            },
    {
        let tag = match get_field(es, Key::Tag) {
            Some(j) => if is_null(j) {
                None
            } else {
                match read_text(j) {
                    Ok(x) => Some(x),
                    Err(e) => {
                        return Err(e);
                    },
                }
            },
            None => None,
        };
        assert(optional(get(es.deep_view(), Key::Tag), |j: JsonView| json_text(j)) == Some(tag.deep_view()));
        let server_type = match get_field(es, Key::Type) {
            Some(j) => if is_null(j) {
                None
            } else {
                match read_text(j) {
                    Ok(x) => Some(x),
                    Err(e) => {
                        return Err(e);
                    },
                }
            },
            None => None,
        };
        assert(optional(get(es.deep_view(), Key::Type), |j: JsonView| json_text(j)) == Some(server_type.deep_view()));
        let inet4_range = match get_field(es, Key::Inet4Range) {
            Some(j) => if is_null(j) {
                None
            } else {
                match read_text(j) {
                    Ok(x) => Some(x),
                    Err(e) => {
                        return Err(e);
                    },
                }
            },
            None => None,
        };
        assert(optional(get(es.deep_view(), Key::Inet4Range), |j: JsonView| json_text(j)) == Some(inet4_range.deep_view()));
        let inet6_range = match get_field(es, Key::Inet6Range) {
            Some(j) => if is_null(j) {
                None
            } else {
                match read_text(j) {
                    Ok(x) => Some(x),
                    Err(e) => {
                        return Err(e);
                    },
                }
            },
            None => None,
        };
        assert(optional(get(es.deep_view(), Key::Inet6Range), |j: JsonView| json_text(j)) == Some(inet6_range.deep_view()));
        Ok(DnsServerFakeIp { tag, server_type, inet4_range, inet6_range })
    }

    /// Reads the value from an object, as `DnsServerFakeIpView::from_json` says.
    pub fn from_json(j: &Json) -> (r: Result<DnsServerFakeIp, SchemaMismatch>)
        ensures
            match r {
                Ok(x) => DnsServerFakeIpView::from_json(j@) == Some(x@),
                Err(_) => DnsServerFakeIpView::from_json(j@) is None,
            },
    {
        match read_entries(j) {
            Ok(es) => DnsServerFakeIp::from_record(&es),
            Err(e) => Err(e),
        }
    }
}

/// The resolver of a Tailscale endpoint.
#[derive(Debug, Clone, PartialEq)]
pub struct DnsServerTailscale {
    pub tag: Option<String>,
    pub server_type: Option<String>,
    pub endpoint: Option<String>,
    pub accept_default_resolvers: Option<bool>,
}

/// What a [`DnsServerTailscale`] holds, with every text as its characters.
pub struct DnsServerTailscaleView {
    pub tag: Option<Seq<char>>,
    pub server_type: Option<Seq<char>>,
    pub endpoint: Option<Seq<char>>,
    pub accept_default_resolvers: Option<bool>,
}

impl DeepView for DnsServerTailscale {
    type V = DnsServerTailscaleView;

    open spec fn deep_view(&self) -> DnsServerTailscaleView {
        DnsServerTailscaleView {
            tag: self.tag.deep_view(),
            server_type: self.server_type.deep_view(),
            endpoint: self.endpoint.deep_view(),
            accept_default_resolvers: self.accept_default_resolvers.deep_view(),
        }
    }
}

impl View for DnsServerTailscale {
    type V = DnsServerTailscaleView;

    open spec fn view(&self) -> DnsServerTailscaleView {
        self.deep_view()
    }
}

impl DnsServerTailscaleView {
    /// The view of what [`DnsServerTailscale::new`] returns.
    pub open spec fn fresh() -> DnsServerTailscaleView {
        DnsServerTailscaleView {
            tag: None,
            server_type: Some("tailscale"@),
            endpoint: None,
            accept_default_resolvers: None,
        }
    }
}

impl DnsServerTailscale {
    /// A Tailscale resolver without a tag.
    pub fn new() -> (r: Self)
        ensures
            r@ == DnsServerTailscaleView::fresh(),
    {
        DnsServerTailscale {
            tag: None,
            server_type: Some("tailscale".to_owned()),
            endpoint: None,
            accept_default_resolvers: None,
        }
    }
}

impl DnsServerTailscaleView {
    /// The entries of the record that stands for the value: one for each
    /// field that is set, in the order of the fields.
    pub open spec fn record(self) -> Entries {
        let es = Seq::empty();
        let es = put(es, Key::Tag, present(self.tag, |x: Seq<char>| text_json(x)));
        let es = put(es, Key::Type, present(self.server_type, |x: Seq<char>| text_json(x)));
        let es = put(es, Key::Endpoint, present(self.endpoint, |x: Seq<char>| text_json(x)));
        let es = put(es, Key::AcceptDefaultResolvers, present(self.accept_default_resolvers, |x: bool| bool_json(x)));
        es
    }

    /// The record that stands for the value.
    pub open spec fn to_json(self) -> JsonView {
        JsonView::Record(self.record())
    }

    /// The value that the entries of an object stand for. Fails where an
    /// entry holds a value of the wrong shape.
    pub open spec fn from_record(es: Entries) -> Option<DnsServerTailscaleView> {
        let tag = optional(get(es, Key::Tag), |j: JsonView| json_text(j));
        let server_type = optional(get(es, Key::Type), |j: JsonView| json_text(j));
        let endpoint = optional(get(es, Key::Endpoint), |j: JsonView| json_text(j));
        let accept_default_resolvers = optional(get(es, Key::AcceptDefaultResolvers), |j: JsonView| json_bool(j));
        if tag is Some
            && server_type is Some
            && endpoint is Some
            && accept_default_resolvers is Some {
            Some(
                DnsServerTailscaleView {
                    tag: tag->0,
                    server_type: server_type->0,
                    endpoint: endpoint->0,
                    accept_default_resolvers: accept_default_resolvers->0,
                },
            )
        } else {
            None
        }
    }

    /// The value that an object stands for; none for a value that is no
    /// object.
    pub open spec fn from_json(j: JsonView) -> Option<DnsServerTailscaleView> {
        match entries_of(j) {
            Some(es) => DnsServerTailscaleView::from_record(es),
            None => None,
        }
    }

    /// Whether the value is written in a form from which it is read back:
    /// every value of this type is.
    pub open spec fn canonical(self) -> bool {
        true
    }

    /// The value is read back from the record that stands for it.
    pub proof fn lemma_round_trip(self)
        ensures
            DnsServerTailscaleView::from_record(self.record()) == Some(self),
            DnsServerTailscaleView::from_json(self.to_json()) == Some(self),
    {
        broadcast use {lemma_get_empty, lemma_get_put, lemma_get_merge};

        let es = self.record();
        assert(optional(get(es, Key::Tag), |j: JsonView| json_text(j)) == Some(self.tag));
        assert(optional(get(es, Key::Type), |j: JsonView| json_text(j)) == Some(self.server_type));
        assert(optional(get(es, Key::Endpoint), |j: JsonView| json_text(j)) == Some(self.endpoint));
        assert(optional(get(es, Key::AcceptDefaultResolvers), |j: JsonView| json_bool(j)) == Some(self.accept_default_resolvers));
    }
}

impl DnsServerTailscale {
    /// The entries of the record that stands for the value, as
    /// `DnsServerTailscaleView::record` lists them.
    pub fn record(&self) -> (r: Vec<(Key, Json)>)
        ensures
            r.deep_view() == self@.record(),
    {
        let mut es: Vec<(Key, Json)> = no_entries();
        let ghost s = Seq::<(Key, JsonView)>::empty();
        let value = match &self.tag {
            Some(x) => Some(Json::Text(x.clone())),
            None => None,
        };
        put_field(&mut es, Key::Tag, value);
        let ghost s = put(s, Key::Tag, present(self@.tag, |x: Seq<char>| text_json(x)));
        assert(es.deep_view() == s);
        let value = match &self.server_type {
            Some(x) => Some(Json::Text(x.clone())),
            None => None,
        };
        put_field(&mut es, Key::Type, value);
        let ghost s = put(s, Key::Type, present(self@.server_type, |x: Seq<char>| text_json(x)));
        assert(es.deep_view() == s);
        let value = match &self.endpoint {
            Some(x) => Some(Json::Text(x.clone())),
            None => None,
        };
        put_field(&mut es, Key::Endpoint, value);
        let ghost s = put(s, Key::Endpoint, present(self@.endpoint, |x: Seq<char>| text_json(x)));
        assert(es.deep_view() == s);
        let value = match &self.accept_default_resolvers {
            Some(x) => Some(Json::Bool(*x)),
            None => None,
        };
        put_field(&mut es, Key::AcceptDefaultResolvers, value);
        let ghost s = put(s, Key::AcceptDefaultResolvers, present(self@.accept_default_resolvers, |x: bool| bool_json(x)));
        assert(es.deep_view() == s);
        es
    }

    /// The record that stands for the value.
    pub fn to_json(&self) -> (r: Json)
        ensures
            r@ == self@.to_json(),
    {
        let r = Json::Record(self.record());
        proof {
            lemma_json_view(r);
        }
        r
    }

    /// Reads the value from the entries of an object, as
    /// `DnsServerTailscaleView::from_record` says.
    pub fn from_record(es: &Vec<(Key, &Json)>) -> (r: Result<DnsServerTailscale, SchemaMismatch>)
        ensures
            match r {
                Ok(x) => DnsServerTailscaleView::from_record(es.deep_view()) == Some(x@),
                Err(_) => DnsServerTailscaleView::from_record(es.deep_view()) is None,
            },
    {
        let tag = match get_field(es, Key::Tag) {
            Some(j) => if is_null(j) {
                None
            } else {
                match read_text(j) {
                    Ok(x) => Some(x),
                    Err(e) => {
                        return Err(e);
                    },
                }
            },
            None => None,
        };
        assert(optional(get(es.deep_view(), Key::Tag), |j: JsonView| json_text(j)) == Some(tag.deep_view()));
        let server_type = match get_field(es, Key::Type) {
            Some(j) => if is_null(j) {
                None
            } else {
                match read_text(j) {
                    Ok(x) => Some(x),
                    Err(e) => {
                        return Err(e);
                    },
                }
            },
            None => None,
        };
        assert(optional(get(es.deep_view(), Key::Type), |j: JsonView| json_text(j)) == Some(server_type.deep_view()));
        let endpoint = match get_field(es, Key::Endpoint) {
            Some(j) => if is_null(j) {
                None
            } else {
                match read_text(j) {
                    Ok(x) => Some(x),
                    Err(e) => {
                        return Err(e);
                    },
                }
            },
            None => None,
        };
        assert(optional(get(es.deep_view(), Key::Endpoint), |j: JsonView| json_text(j)) == Some(endpoint.deep_view()));
        let accept_default_resolvers = match get_field(es, Key::AcceptDefaultResolvers) {
            Some(j) => if is_null(j) {
                None
            } else {
                match read_bool(j) {
                    Ok(x) => Some(x),
                    Err(e) => {
                        return Err(e);
                    },
                }
            },
            None => None,
        };
        assert(optional(get(es.deep_view(), Key::AcceptDefaultResolvers), |j: JsonView| json_bool(j)) == Some(accept_default_resolvers.deep_view()));
        Ok(DnsServerTailscale { tag, server_type, endpoint, accept_default_resolvers })
    }

    /// Reads the value from an object, as `DnsServerTailscaleView::from_json` says.
    pub fn from_json(j: &Json) -> (r: Result<DnsServerTailscale, SchemaMismatch>)
        ensures
            match r {
                Ok(x) => DnsServerTailscaleView::from_json(j@) == Some(x@),
                Err(_) => DnsServerTailscaleView::from_json(j@) is None,
            },
    {
        match read_entries(j) {
            Ok(es) => DnsServerTailscale::from_record(&es),
            Err(e) => Err(e),
        }
    }
}

/// The resolver of a resolved service.
#[derive(Debug, Clone, PartialEq)]
pub struct DnsServerResolved {
    pub tag: Option<String>,
    pub server_type: Option<String>,
    pub service: Option<String>,
    pub accept_default_resolvers: Option<bool>,
}

/// What a [`DnsServerResolved`] holds, with every text as its characters.
pub struct DnsServerResolvedView {
    pub tag: Option<Seq<char>>,
    pub server_type: Option<Seq<char>>,
    pub service: Option<Seq<char>>,
    pub accept_default_resolvers: Option<bool>,
}

impl DeepView for DnsServerResolved {
    type V = DnsServerResolvedView;

    open spec fn deep_view(&self) -> DnsServerResolvedView {
        DnsServerResolvedView {
            tag: self.tag.deep_view(),
            server_type: self.server_type.deep_view(),
            service: self.service.deep_view(),
            accept_default_resolvers: self.accept_default_resolvers.deep_view(),
        }
    }
}

impl View for DnsServerResolved {
    type V = DnsServerResolvedView;

    open spec fn view(&self) -> DnsServerResolvedView {
        self.deep_view()
    }
}

impl DnsServerResolvedView {
    /// The view of what [`DnsServerResolved::new`] returns.
    pub open spec fn fresh() -> DnsServerResolvedView {
        DnsServerResolvedView {
            tag: None,
            server_type: Some("resolved"@),
            service: None,
            accept_default_resolvers: None,
        }
    }
}

impl DnsServerResolved {
    /// A resolved-service resolver without a tag.
    pub fn new() -> (r: Self)
        ensures
            r@ == DnsServerResolvedView::fresh(),
    {
        DnsServerResolved {
            tag: None,
            server_type: Some("resolved".to_owned()),
            service: None,
            accept_default_resolvers: None,
        }
    }
}

impl DnsServerResolvedView {
    /// The entries of the record that stands for the value: one for each
    /// field that is set, in the order of the fields.
    pub open spec fn record(self) -> Entries {
        let es = Seq::empty();
        let es = put(es, Key::Tag, present(self.tag, |x: Seq<char>| text_json(x)));
        let es = put(es, Key::Type, present(self.server_type, |x: Seq<char>| text_json(x)));
        let es = put(es, Key::Service, present(self.service, |x: Seq<char>| text_json(x)));
        let es = put(es, Key::AcceptDefaultResolvers, present(self.accept_default_resolvers, |x: bool| bool_json(x)));
        es
    }

    /// The record that stands for the value.
    pub open spec fn to_json(self) -> JsonView {
        JsonView::Record(self.record())
    }

    /// The value that the entries of an object stand for. Fails where an
    /// entry holds a value of the wrong shape.
    pub open spec fn from_record(es: Entries) -> Option<DnsServerResolvedView> {
        let tag = optional(get(es, Key::Tag), |j: JsonView| json_text(j));
        let server_type = optional(get(es, Key::Type), |j: JsonView| json_text(j));
        let service = optional(get(es, Key::Service), |j: JsonView| json_text(j));
        let accept_default_resolvers = optional(get(es, Key::AcceptDefaultResolvers), |j: JsonView| json_bool(j));
        if tag is Some
            && server_type is Some
            && service is Some
            && accept_default_resolvers is Some {
            Some(
                DnsServerResolvedView {
                    tag: tag->0,
                    server_type: server_type->0,
                    service: service->0,
                    accept_default_resolvers: accept_default_resolvers->0,
                },
            )
        } else {
            None
        }
    }

    /// The value that an object stands for; none for a value that is no
    /// object.
    pub open spec fn from_json(j: JsonView) -> Option<DnsServerResolvedView> {
        match entries_of(j) {
            Some(es) => DnsServerResolvedView::from_record(es),
            None => None,
        }
    }

    /// Whether the value is written in a form from which it is read back:
    /// every value of this type is.
    pub open spec fn canonical(self) -> bool {
        true
    }

    /// The value is read back from the record that stands for it.
    pub proof fn lemma_round_trip(self)
        ensures
            DnsServerResolvedView::from_record(self.record()) == Some(self),
            DnsServerResolvedView::from_json(self.to_json()) == Some(self),
    {
        broadcast use {lemma_get_empty, lemma_get_put, lemma_get_merge};

        let es = self.record();
        assert(optional(get(es, Key::Tag), |j: JsonView| json_text(j)) == Some(self.tag));
        assert(optional(get(es, Key::Type), |j: JsonView| json_text(j)) == Some(self.server_type));
        assert(optional(get(es, Key::Service), |j: JsonView| json_text(j)) == Some(self.service));
        assert(optional(get(es, Key::AcceptDefaultResolvers), |j: JsonView| json_bool(j)) == Some(self.accept_default_resolvers));
    }
}

impl DnsServerResolved {
    /// The entries of the record that stands for the value, as
    /// `DnsServerResolvedView::record` lists them.
    pub fn record(&self) -> (r: Vec<(Key, Json)>)
        ensures
            r.deep_view() == self@.record(),
    {
        let mut es: Vec<(Key, Json)> = no_entries();
        let ghost s = Seq::<(Key, JsonView)>::empty();
        let value = match &self.tag {
            Some(x) => Some(Json::Text(x.clone())),
            None => None,
        };
        put_field(&mut es, Key::Tag, value);
        let ghost s = put(s, Key::Tag, present(self@.tag, |x: Seq<char>| text_json(x)));
        assert(es.deep_view() == s);
        let value = match &self.server_type {
            Some(x) => Some(Json::Text(x.clone())),
            None => None,
        };
        put_field(&mut es, Key::Type, value);
        let ghost s = put(s, Key::Type, present(self@.server_type, |x: Seq<char>| text_json(x)));
        assert(es.deep_view() == s);
        let value = match &self.service {
            Some(x) => Some(Json::Text(x.clone())),
            None => None,
        };
        put_field(&mut es, Key::Service, value);
        let ghost s = put(s, Key::Service, present(self@.service, |x: Seq<char>| text_json(x)));
        assert(es.deep_view() == s);
        let value = match &self.accept_default_resolvers {
            Some(x) => Some(Json::Bool(*x)),
            None => None,
        };
        put_field(&mut es, Key::AcceptDefaultResolvers, value);
        let ghost s = put(s, Key::AcceptDefaultResolvers, present(self@.accept_default_resolvers, |x: bool| bool_json(x)));
        assert(es.deep_view() == s);
        es
    }

    /// The record that stands for the value.
    pub fn to_json(&self) -> (r: Json)
        ensures
            r@ == self@.to_json(),
    {
        let r = Json::Record(self.record());
        proof {
            lemma_json_view(r);
        }
        r
    }

    /// Reads the value from the entries of an object, as
    /// `DnsServerResolvedView::from_record` says.
    pub fn from_record(es: &Vec<(Key, &Json)>) -> (r: Result<DnsServerResolved, SchemaMismatch>)
        ensures
            match r {
                Ok(x) => DnsServerResolvedView::from_record(es.deep_view()) == Some(x@),
                Err(_) => DnsServerResolvedView::from_record(es.deep_view()) is None,
            },
    {
        let tag = match get_field(es, Key::Tag) {
            Some(j) => if is_null(j) {
                None
            } else {
                match read_text(j) {
                    Ok(x) => Some(x),
                    Err(e) => {
                        return Err(e);
                    },
                }
            },
            None => None,
        };
        assert(optional(get(es.deep_view(), Key::Tag), |j: JsonView| json_text(j)) == Some(tag.deep_view()));
        let server_type = match get_field(es, Key::Type) {
            Some(j) => if is_null(j) {
                None
            } else {
                match read_text(j) {
                    Ok(x) => Some(x),
                    Err(e) => {
                        return Err(e);
                    },
                }
            },
            None => None,
        };
        assert(optional(get(es.deep_view(), Key::Type), |j: JsonView| json_text(j)) == Some(server_type.deep_view()));
        let service = match get_field(es, Key::Service) {
            Some(j) => if is_null(j) {
                None
            } else {
                match read_text(j) {
                    Ok(x) => Some(x),
                    Err(e) => {
                        return Err(e);
                    },
                }
            },
            None => None,
        };
        assert(optional(get(es.deep_view(), Key::Service), |j: JsonView| json_text(j)) == Some(service.deep_view()));
        let accept_default_resolvers = match get_field(es, Key::AcceptDefaultResolvers) {
            Some(j) => if is_null(j) {
                None
            } else {
                match read_bool(j) {
                    Ok(x) => Some(x),
                    Err(e) => {
                        return Err(e);
                    },
                }
            },
            None => None,
        };
        assert(optional(get(es.deep_view(), Key::AcceptDefaultResolvers), |j: JsonView| json_bool(j)) == Some(accept_default_resolvers.deep_view()));
        Ok(DnsServerResolved { tag, server_type, service, accept_default_resolvers })
    }

    /// Reads the value from an object, as `DnsServerResolvedView::from_json` says.
    pub fn from_json(j: &Json) -> (r: Result<DnsServerResolved, SchemaMismatch>)
        ensures
            match r {
                Ok(x) => DnsServerResolvedView::from_json(j@) == Some(x@),
                Err(_) => DnsServerResolvedView::from_json(j@) is None,
            },
    {
        match read_entries(j) {
            Ok(es) => DnsServerResolved::from_record(&es),
            Err(e) => Err(e),
        }
    }
}

/// One DNS server of the section, of one of twelve kinds.
#[derive(Debug, Clone, PartialEq)]
pub enum DnsServer {
    /// Local.
    Local(DnsServerLocal),
    /// Hosts.
    Hosts(DnsServerHosts),
    /// TCP.
    Tcp(DnsServerTcp),
    /// UDP.
    Udp(DnsServerUdp),
    /// TLS.
    Tls(DnsServerTls),
    /// QUIC.
    Quic(DnsServerQuic),
    /// HTTPS.
    Https(DnsServerHttps),
    /// HTTP/3.
    Http3(DnsServerHttp3),
    /// DHCP.
    Dhcp(DnsServerDhcp),
    /// Fake addresses.
    FakeIp(DnsServerFakeIp),
    /// Tailscale.
    Tailscale(DnsServerTailscale),
    /// Resolved service.
    Resolved(DnsServerResolved),
}

/// What a [`DnsServer`] holds, with every text as its characters.
pub enum DnsServerView {
    Local(DnsServerLocalView),
    Hosts(DnsServerHostsView),
    Tcp(DnsServerTcpView),
    Udp(DnsServerUdpView),
    Tls(DnsServerTlsView),
    Quic(DnsServerQuicView),
    Https(DnsServerHttpsView),
    Http3(DnsServerHttp3View),
    Dhcp(DnsServerDhcpView),
    FakeIp(DnsServerFakeIpView),
    Tailscale(DnsServerTailscaleView),
    Resolved(DnsServerResolvedView),
}

impl DeepView for DnsServer {
    type V = DnsServerView;

    open spec fn deep_view(&self) -> DnsServerView {
        match self {
            DnsServer::Local(x) => DnsServerView::Local(x.deep_view()),
            DnsServer::Hosts(x) => DnsServerView::Hosts(x.deep_view()),
            DnsServer::Tcp(x) => DnsServerView::Tcp(x.deep_view()),
            DnsServer::Udp(x) => DnsServerView::Udp(x.deep_view()),
            DnsServer::Tls(x) => DnsServerView::Tls(x.deep_view()),
            DnsServer::Quic(x) => DnsServerView::Quic(x.deep_view()),
            DnsServer::Https(x) => DnsServerView::Https(x.deep_view()),
            DnsServer::Http3(x) => DnsServerView::Http3(x.deep_view()),
            DnsServer::Dhcp(x) => DnsServerView::Dhcp(x.deep_view()),
            DnsServer::FakeIp(x) => DnsServerView::FakeIp(x.deep_view()),
            DnsServer::Tailscale(x) => DnsServerView::Tailscale(x.deep_view()),
            DnsServer::Resolved(x) => DnsServerView::Resolved(x.deep_view()),
        }
    }
}

impl View for DnsServer {
    type V = DnsServerView;

    open spec fn view(&self) -> DnsServerView {
        self.deep_view()
    }
}

impl DnsServerView {
    /// The tag of the server, whatever its kind.
    pub open spec fn tag(self) -> Option<Seq<char>> {
        match self {
            DnsServerView::Local(x) => x.tag,
            DnsServerView::Hosts(x) => x.tag,
            DnsServerView::Tcp(x) => x.tag,
            DnsServerView::Udp(x) => x.tag,
            DnsServerView::Tls(x) => x.tag,
            DnsServerView::Quic(x) => x.tag,
            DnsServerView::Https(x) => x.tag,
            DnsServerView::Http3(x) => x.tag,
            DnsServerView::Dhcp(x) => x.tag,
            DnsServerView::FakeIp(x) => x.tag,
            DnsServerView::Tailscale(x) => x.tag,
            DnsServerView::Resolved(x) => x.tag,
        }
    }

    /// The type discriminator of the server, whatever its kind.
    pub open spec fn config_type(self) -> Option<Seq<char>> {
        match self {
            DnsServerView::Local(x) => x.server_type,
            DnsServerView::Hosts(x) => x.server_type,
            DnsServerView::Tcp(x) => x.server_type,
            DnsServerView::Udp(x) => x.server_type,
            DnsServerView::Tls(x) => x.server_type,
            DnsServerView::Quic(x) => x.server_type,
            DnsServerView::Https(x) => x.server_type,
            DnsServerView::Http3(x) => x.server_type,
            DnsServerView::Dhcp(x) => x.server_type,
            DnsServerView::FakeIp(x) => x.server_type,
            DnsServerView::Tailscale(x) => x.server_type,
            DnsServerView::Resolved(x) => x.server_type,
        }
    }

    /// What the server is looked up by: its type or its tag.
    pub open spec fn mark(self, m: Mark) -> Option<Seq<char>> {
        match m {
            Mark::Type => self.config_type(),
            Mark::Tag => self.tag(),
        }
    }
}

impl DnsServer {
    /// The tag of the server, whatever its kind.
    pub fn tag(&self) -> (r: Option<&String>)
        ensures
            r.deep_view() == self@.tag(),
    {
        match self {
            DnsServer::Local(x) => x.tag.as_ref(),
            DnsServer::Hosts(x) => x.tag.as_ref(),
            DnsServer::Tcp(x) => x.tag.as_ref(),
            DnsServer::Udp(x) => x.tag.as_ref(),
            DnsServer::Tls(x) => x.tag.as_ref(),
            DnsServer::Quic(x) => x.tag.as_ref(),
            DnsServer::Https(x) => x.tag.as_ref(),
            DnsServer::Http3(x) => x.tag.as_ref(),
            DnsServer::Dhcp(x) => x.tag.as_ref(),
            DnsServer::FakeIp(x) => x.tag.as_ref(),
            DnsServer::Tailscale(x) => x.tag.as_ref(),
            DnsServer::Resolved(x) => x.tag.as_ref(),
        }
    }

    /// The type discriminator of the server, whatever its kind.
    pub fn config_type(&self) -> (r: Option<&String>)
        ensures
            r.deep_view() == self@.config_type(),
    {
        match self {
            DnsServer::Local(x) => x.server_type.as_ref(),
            DnsServer::Hosts(x) => x.server_type.as_ref(),
            DnsServer::Tcp(x) => x.server_type.as_ref(),
            DnsServer::Udp(x) => x.server_type.as_ref(),
            DnsServer::Tls(x) => x.server_type.as_ref(),
            DnsServer::Quic(x) => x.server_type.as_ref(),
            DnsServer::Https(x) => x.server_type.as_ref(),
            DnsServer::Http3(x) => x.server_type.as_ref(),
            DnsServer::Dhcp(x) => x.server_type.as_ref(),
            DnsServer::FakeIp(x) => x.server_type.as_ref(),
            DnsServer::Tailscale(x) => x.server_type.as_ref(),
            DnsServer::Resolved(x) => x.server_type.as_ref(),
        }
    }

    /// Whether the type or the tag of the server is `text`.
    pub fn carries(&self, m: Mark, text: &str) -> (r: bool)
        ensures
            r == (self@.mark(m) == Some(text@)),
    {
        let held = match m {
            Mark::Type => self.config_type(),
            Mark::Tag => self.tag(),
        };
        match held {
            Some(s) => same_text(s.as_str(), text),
            None => false,
        }
    }
}

/// Picks the servers whose type or tag is `text`.
pub open spec fn marked(m: Mark, text: Seq<char>) -> spec_fn(DnsServerView) -> bool {
    |e: DnsServerView| e.mark(m) == Some(text)
}

/// Picks the servers whose type or tag is not `text`.
pub open spec fn unmarked(m: Mark, text: Seq<char>) -> spec_fn(DnsServerView) -> bool {
    |e: DnsServerView| e.mark(m) != Some(text)
}

/// Index of the first server whose type or tag is `text`, or the number of
/// servers when there is none.
pub fn position(entries: &Vec<DnsServer>, m: Mark, text: &str) -> (i: usize)
    ensures
        i == first_where(entries.deep_view(), marked(m, text@)),
        i <= entries.len(),
{
    let mut i: usize = 0;
    while i < entries.len()
        invariant
            i <= entries.len(),
            forall|j: int| 0 <= j < i ==> !marked(m, text@)(#[trigger] entries.deep_view()[j]),
        decreases entries.len() - i,
    {
        assert(entries.deep_view()[i as int] == entries@[i as int]@);
        if entries[i].carries(m, text) {
            proof {
                lemma_first_where_unique(entries.deep_view(), marked(m, text@), i as int);
            }
            return i;
        }
        i += 1;
    }
    proof {
        lemma_first_where_unique(entries.deep_view(), marked(m, text@), i as int);
    }
    i
}

/// Drops every server whose type or tag is `text` and keeps the others in
/// their order.
pub fn drop_marked(entries: &mut Vec<DnsServer>, m: Mark, text: &str)
    ensures
        final(entries).deep_view() == kept(old(entries).deep_view(), unmarked(m, text@)),
{
    let ghost all = entries.deep_view();
    let ghost keep = unmarked(m, text@);
    let mut i: usize = 0;
    let mut seen: Ghost<int> = Ghost(0);
    assert(all.take(0) =~= Seq::<DnsServerView>::empty());
    assert(entries.deep_view().take(0) =~= Seq::<DnsServerView>::empty());
    assert(all.skip(0) =~= all);
    assert(entries.deep_view().skip(0) =~= all);
    while i < entries.len()
        invariant
            i <= entries.len(),
            0 <= seen@ <= all.len(),
            keep == unmarked(m, text@),
            entries.deep_view().take(i as int) == kept(all.take(seen@), keep),
            entries.deep_view().skip(i as int) == all.skip(seen@),
        decreases entries.len() - i,
    {
        let ghost before = entries.deep_view();
        proof {
            assert(before.skip(i as int).len() == all.skip(seen@).len());
            assert(before.skip(i as int)[0] == all.skip(seen@)[0]);
            assert(before[i as int] == entries@[i as int]@);
            assert(all.take(seen@ + 1).drop_last() =~= all.take(seen@));
            assert(all.take(seen@ + 1).last() == all[seen@]);
        }
        if entries[i].carries(m, text) {
            entries.remove(i);
            proof {
                assert(entries.deep_view() =~= before.remove(i as int));
                assert(entries.deep_view().take(i as int) =~= before.take(i as int));
                assert(entries.deep_view().skip(i as int) =~= before.skip(i as int).skip(1));
                assert(all.skip(seen@).skip(1) =~= all.skip(seen@ + 1));
                seen@ = seen@ + 1;
            }
        } else {
            proof {
                assert(before.take(i + 1) =~= before.take(i as int).push(before[i as int]));
                assert(before.skip(i + 1) =~= before.skip(i as int).skip(1));
                assert(all.skip(seen@).skip(1) =~= all.skip(seen@ + 1));
                seen@ = seen@ + 1;
            }
            i += 1;
        }
    }
    proof {
        assert(entries.deep_view().take(i as int) =~= entries.deep_view());
        assert(entries.deep_view().skip(i as int).len() == 0);
        assert(all.take(seen@) =~= all);
    }
}

impl DnsServerView {
    /// The record that stands for the server: that of what it holds.
    pub open spec fn to_json(self) -> JsonView {
        match self {
            DnsServerView::Local(x) => x.to_json(),
            DnsServerView::Hosts(x) => x.to_json(),
            DnsServerView::Tcp(x) => x.to_json(),
            DnsServerView::Udp(x) => x.to_json(),
            DnsServerView::Tls(x) => x.to_json(),
            DnsServerView::Quic(x) => x.to_json(),
            DnsServerView::Https(x) => x.to_json(),
            DnsServerView::Http3(x) => x.to_json(),
            DnsServerView::Dhcp(x) => x.to_json(),
            DnsServerView::FakeIp(x) => x.to_json(),
            DnsServerView::Tailscale(x) => x.to_json(),
            DnsServerView::Resolved(x) => x.to_json(),
        }
    }

    /// The server that an object stands for, of the kind that its type names.
    /// Fails for a value that is no object, and for an object without a
    /// type or with a type that names no kind.
    pub open spec fn from_json(j: JsonView) -> Option<DnsServerView> {
        match entries_of(j) {
            Some(es) => {
                let kind = get(es, Key::Type);
                if kind == Some(JsonView::Text("local"@)) {
                    match DnsServerLocalView::from_record(es) {
                        Some(x) => Some(DnsServerView::Local(x)),
                        None => None,
                    }
                } else if kind == Some(JsonView::Text("hosts"@)) {
                    match DnsServerHostsView::from_record(es) {
                        Some(x) => Some(DnsServerView::Hosts(x)),
                        None => None,
                    }
                } else if kind == Some(JsonView::Text("tcp"@)) {
                    match DnsServerTcpView::from_record(es) {
                        Some(x) => Some(DnsServerView::Tcp(x)),
                        None => None,
                    }
                } else if kind == Some(JsonView::Text("udp"@)) {
                    match DnsServerUdpView::from_record(es) {
                        Some(x) => Some(DnsServerView::Udp(x)),
                        None => None,
                    }
                } else if kind == Some(JsonView::Text("tls"@)) {
                    match DnsServerTlsView::from_record(es) {
                        Some(x) => Some(DnsServerView::Tls(x)),
                        None => None,
                    }
                } else if kind == Some(JsonView::Text("quic"@)) {
                    match DnsServerQuicView::from_record(es) {
                        Some(x) => Some(DnsServerView::Quic(x)),
                        None => None,
                    }
                } else if kind == Some(JsonView::Text("https"@)) {
                    match DnsServerHttpsView::from_record(es) {
                        Some(x) => Some(DnsServerView::Https(x)),
                        None => None,
                    }
                } else if kind == Some(JsonView::Text("h3"@)) {
                    match DnsServerHttp3View::from_record(es) {
                        Some(x) => Some(DnsServerView::Http3(x)),
                        None => None,
                    }
                } else if kind == Some(JsonView::Text("dhcp"@)) {
                    match DnsServerDhcpView::from_record(es) {
                        Some(x) => Some(DnsServerView::Dhcp(x)),
                        None => None,
                    }
                } else if kind == Some(JsonView::Text("fakeip"@)) {
                    match DnsServerFakeIpView::from_record(es) {
                        Some(x) => Some(DnsServerView::FakeIp(x)),
                        None => None,
                    }
                } else if kind == Some(JsonView::Text("tailscale"@)) {
                    match DnsServerTailscaleView::from_record(es) {
                        Some(x) => Some(DnsServerView::Tailscale(x)),
                        None => None,
                    }
                } else if kind == Some(JsonView::Text("resolved"@)) {
                    match DnsServerResolvedView::from_record(es) {
                        Some(x) => Some(DnsServerView::Resolved(x)),
                        None => None,
                    }
                } else {
                    None
                }
            },
            None => None,
        }
    }

    /// Whether the server is written in a form from which it is read back:
    /// what it holds is, and its type names its kind.
    pub open spec fn canonical(self) -> bool {
        match self {
            DnsServerView::Local(x) => x.canonical() && x.server_type == Some("local"@),
            DnsServerView::Hosts(x) => x.canonical() && x.server_type == Some("hosts"@),
            DnsServerView::Tcp(x) => x.canonical() && x.server_type == Some("tcp"@),
            DnsServerView::Udp(x) => x.canonical() && x.server_type == Some("udp"@),
            DnsServerView::Tls(x) => x.canonical() && x.server_type == Some("tls"@),
            DnsServerView::Quic(x) => x.canonical() && x.server_type == Some("quic"@),
            DnsServerView::Https(x) => x.canonical() && x.server_type == Some("https"@),
            DnsServerView::Http3(x) => x.canonical() && x.server_type == Some("h3"@),
            DnsServerView::Dhcp(x) => x.canonical() && x.server_type == Some("dhcp"@),
            DnsServerView::FakeIp(x) => x.canonical() && x.server_type == Some("fakeip"@),
            DnsServerView::Tailscale(x) => x.canonical() && x.server_type == Some("tailscale"@),
            DnsServerView::Resolved(x) => x.canonical() && x.server_type == Some("resolved"@),
        }
    }

    /// The server is read back from the record that stands for it.
    pub proof fn lemma_round_trip(self)
        requires
            self.canonical(),
        ensures
            DnsServerView::from_json(self.to_json()) == Some(self),
    {
        broadcast use {lemma_get_empty, lemma_get_put, lemma_get_merge};

        reveal_strlit("local");
        assert("local"@.len() == 5);
        assert("local"@[0] == 'l');
        reveal_strlit("hosts");
        assert("hosts"@.len() == 5);
        assert("hosts"@[0] == 'h');
        assert("hosts"@[1] == 'o');
        reveal_strlit("tcp");
        assert("tcp"@.len() == 3);
        assert("tcp"@[0] == 't');
        assert("tcp"@[1] == 'c');
        reveal_strlit("udp");
        assert("udp"@.len() == 3);
        assert("udp"@[0] == 'u');
        reveal_strlit("tls");
        assert("tls"@.len() == 3);
        assert("tls"@[0] == 't');
        assert("tls"@[1] == 'l');
        reveal_strlit("quic");
        assert("quic"@.len() == 4);
        assert("quic"@[0] == 'q');
        reveal_strlit("https");
        assert("https"@.len() == 5);
        assert("https"@[0] == 'h');
        assert("https"@[1] == 't');
        reveal_strlit("h3");
        assert("h3"@.len() == 2);
        reveal_strlit("dhcp");
        assert("dhcp"@.len() == 4);
        assert("dhcp"@[0] == 'd');
        reveal_strlit("fakeip");
        assert("fakeip"@.len() == 6);
        reveal_strlit("tailscale");
        assert("tailscale"@.len() == 9);
        reveal_strlit("resolved");
        assert("resolved"@.len() == 8);
        match self {
            DnsServerView::Local(x) => {
                x.lemma_round_trip();
                assert(get(x.record(), Key::Type) == Some(JsonView::Text("local"@)));
            },
            DnsServerView::Hosts(x) => {
                x.lemma_round_trip();
                assert(get(x.record(), Key::Type) == Some(JsonView::Text("hosts"@)));
            },
            DnsServerView::Tcp(x) => {
                x.lemma_round_trip();
                assert(get(x.record(), Key::Type) == Some(JsonView::Text("tcp"@)));
            },
            DnsServerView::Udp(x) => {
                x.lemma_round_trip();
                assert(get(x.record(), Key::Type) == Some(JsonView::Text("udp"@)));
            },
            DnsServerView::Tls(x) => {
                x.lemma_round_trip();
                assert(get(x.record(), Key::Type) == Some(JsonView::Text("tls"@)));
            },
            DnsServerView::Quic(x) => {
                x.lemma_round_trip();
                assert(get(x.record(), Key::Type) == Some(JsonView::Text("quic"@)));
            },
            DnsServerView::Https(x) => {
                x.lemma_round_trip();
                assert(get(x.record(), Key::Type) == Some(JsonView::Text("https"@)));
            },
            DnsServerView::Http3(x) => {
                x.lemma_round_trip();
                assert(get(x.record(), Key::Type) == Some(JsonView::Text("h3"@)));
            },
            DnsServerView::Dhcp(x) => {
                x.lemma_round_trip();
                assert(get(x.record(), Key::Type) == Some(JsonView::Text("dhcp"@)));
            },
            DnsServerView::FakeIp(x) => {
                x.lemma_round_trip();
                assert(get(x.record(), Key::Type) == Some(JsonView::Text("fakeip"@)));
            },
            DnsServerView::Tailscale(x) => {
                x.lemma_round_trip();
                assert(get(x.record(), Key::Type) == Some(JsonView::Text("tailscale"@)));
            },
            DnsServerView::Resolved(x) => {
                x.lemma_round_trip();
                assert(get(x.record(), Key::Type) == Some(JsonView::Text("resolved"@)));
            },
        }
    }
}

impl DnsServer {
    /// The record that stands for the server.
    pub fn to_json(&self) -> (r: Json)
        ensures
            r@ == self@.to_json(),
    {
        match self {
            DnsServer::Local(x) => x.to_json(),
            DnsServer::Hosts(x) => x.to_json(),
            DnsServer::Tcp(x) => x.to_json(),
            DnsServer::Udp(x) => x.to_json(),
            DnsServer::Tls(x) => x.to_json(),
            DnsServer::Quic(x) => x.to_json(),
            DnsServer::Https(x) => x.to_json(),
            DnsServer::Http3(x) => x.to_json(),
            DnsServer::Dhcp(x) => x.to_json(),
            DnsServer::FakeIp(x) => x.to_json(),
            DnsServer::Tailscale(x) => x.to_json(),
            DnsServer::Resolved(x) => x.to_json(),
        }
    }

    /// Reads the server from an object, as `DnsServerView::from_json` says.
    pub fn from_json(j: &Json) -> (r: Result<DnsServer, SchemaMismatch>)
        ensures
            match r {
                Ok(x) => DnsServerView::from_json(j@) == Some(x@),
                Err(_) => DnsServerView::from_json(j@) is None,
            },
    {
        let es = match read_entries(j) {
            Ok(es) => es,
            Err(e) => {
                return Err(e);
            },
        };
        match get_field(&es, Key::Type) {
            Some(Json::Text(s)) => if same_text(s.as_str(), "local") {
                match DnsServerLocal::from_record(&es) {
                    Ok(x) => Ok(DnsServer::Local(x)),
                    Err(e) => Err(e),
                }
            } else if same_text(s.as_str(), "hosts") {
                match DnsServerHosts::from_record(&es) {
                    Ok(x) => Ok(DnsServer::Hosts(x)),
                    Err(e) => Err(e),
                }
            } else if same_text(s.as_str(), "tcp") {
                match DnsServerTcp::from_record(&es) {
                    Ok(x) => Ok(DnsServer::Tcp(x)),
                    Err(e) => Err(e),
                }
            } else if same_text(s.as_str(), "udp") {
                match DnsServerUdp::from_record(&es) {
                    Ok(x) => Ok(DnsServer::Udp(x)),
                    Err(e) => Err(e),
                }
            } else if same_text(s.as_str(), "tls") {
                match DnsServerTls::from_record(&es) {
                    Ok(x) => Ok(DnsServer::Tls(x)),
                    Err(e) => Err(e),
                }
            } else if same_text(s.as_str(), "quic") {
                match DnsServerQuic::from_record(&es) {
                    Ok(x) => Ok(DnsServer::Quic(x)),
                    Err(e) => Err(e),
                }
            } else if same_text(s.as_str(), "https") {
                match DnsServerHttps::from_record(&es) {
                    Ok(x) => Ok(DnsServer::Https(x)),
                    Err(e) => Err(e),
                }
            } else if same_text(s.as_str(), "h3") {
                match DnsServerHttp3::from_record(&es) {
                    Ok(x) => Ok(DnsServer::Http3(x)),
                    Err(e) => Err(e),
                }
            } else if same_text(s.as_str(), "dhcp") {
                match DnsServerDhcp::from_record(&es) {
                    Ok(x) => Ok(DnsServer::Dhcp(x)),
                    Err(e) => Err(e),
                }
            } else if same_text(s.as_str(), "fakeip") {
                match DnsServerFakeIp::from_record(&es) {
                    Ok(x) => Ok(DnsServer::FakeIp(x)),
                    Err(e) => Err(e),
                }
            } else if same_text(s.as_str(), "tailscale") {
                match DnsServerTailscale::from_record(&es) {
                    Ok(x) => Ok(DnsServer::Tailscale(x)),
                    Err(e) => Err(e),
                }
            } else if same_text(s.as_str(), "resolved") {
                match DnsServerResolved::from_record(&es) {
                    Ok(x) => Ok(DnsServer::Resolved(x)),
                    Err(e) => Err(e),
                }
            } else {
                Err(SchemaMismatch)
            },
            _ => Err(SchemaMismatch),
        }
    }
}

/// The table that stands for host values by name.
#[verifier::opaque]
pub open spec fn host_value_table_json(s: Seq<(Seq<char>, HostValueView)>) -> JsonView {
    JsonView::Table(Seq::new(s.len(), |i: int| (s[i].0, s[i].1.to_json())))
}

/// The host values by name that a table stands for, if each of its values stands
/// for one.
#[verifier::opaque]
pub open spec fn json_host_value_table(j: JsonView) -> Option<Seq<(Seq<char>, HostValueView)>> {
    match j {
        JsonView::Table(js) => if forall|i: int|
            0 <= i < js.len() ==> (#[trigger] HostValueView::from_json(js[i].1)) is Some {
            Some(Seq::new(js.len(), |i: int| (js[i].0, HostValueView::from_json(js[i].1)->0)))
        } else {
            None
        },
        _ => None,
    }
}

/// Whether each of the host values is written in a form from which it is read
/// back.
pub open spec fn canonical_host_value_table(s: Seq<(Seq<char>, HostValueView)>) -> bool {
    forall|i: int| 0 <= i < s.len() ==> (#[trigger] s[i]).1.canonical()
}

/// Host values by name are read back from the table that stands for them.
pub proof fn lemma_host_value_table(s: Seq<(Seq<char>, HostValueView)>)
    requires
        canonical_host_value_table(s),
    ensures
        json_host_value_table(host_value_table_json(s)) == Some(s),
        host_value_table_json(s) is Table,
{
    reveal(host_value_table_json);
    reveal(json_host_value_table);
    let js = host_value_table_json(s)->Table_0;
    assert forall|i: int| 0 <= i < js.len() implies (#[trigger] HostValueView::from_json(js[i].1)) == Some(s[i].1) by {
        s[i].1.lemma_round_trip();
    }
    assert(Seq::new(js.len(), |i: int| (js[i].0, HostValueView::from_json(js[i].1)->0)) =~= s);
}

/// Writes host values by name, as `host_value_table_json` says.
pub fn write_host_value_table(v: &Vec<(String, HostValue)>) -> (r: Json)
    ensures
        r@ == host_value_table_json(v.deep_view()),
{
    reveal(host_value_table_json);
    let mut out: Vec<(String, Json)> = Vec::new();
    let mut i: usize = 0;
    let ghost s = v.deep_view();
    while i < v.len()
        invariant
            i <= v.len(),
            s == v.deep_view(),
            out.deep_view() == Seq::new(i as nat, |k: int| (s[k].0, s[k].1.to_json())),
        decreases v.len() - i,
    {
        let ghost before = out.deep_view();
        let elem = &v[i].1;
        let item = elem.to_json();
        let name = v[i].0.clone();
        out.push((name, item));
        proof {
            assert(s[i as int] == (v@[i as int].0@, v@[i as int].1.deep_view()));
            assert(out.deep_view() =~= before.push((name@, item@)));
            assert(before.push((name@, item@)) =~= Seq::new(
                (i + 1) as nat,
                |k: int| (s[k].0, s[k].1.to_json()),
            ));
        }
        i += 1;
    }
    let r = Json::Table(out);
    proof {
        lemma_json_view(r);
        assert(out.deep_view() =~= Seq::new(s.len(), |k: int| (s[k].0, s[k].1.to_json())));
    }
    r
}

/// Reads host values by name, as `json_host_value_table` says.
pub fn read_host_value_table(j: &Json) -> (r: Result<Vec<(String, HostValue)>, SchemaMismatch>)
    ensures
        match r {
            Ok(v) => json_host_value_table(j@) == Some(v.deep_view()),
            Err(_) => json_host_value_table(j@) is None,
        },
{
    reveal(json_host_value_table);
    proof {
        lemma_json_view(*j);
    }
    match j {
        Json::Table(js) => {
            let mut out: Vec<(String, HostValue)> = Vec::new();
            let mut i: usize = 0;
            let ghost all = js.deep_view();
            while i < js.len()
                invariant
                    i <= js.len(),
                    all == js.deep_view(),
                    j@ == JsonView::Table(all),
                    forall|k: int| 0 <= k < i ==> (#[trigger] HostValueView::from_json(all[k].1)) is Some,
                    out.deep_view() == Seq::new(i as nat, |k: int| (all[k].0, HostValueView::from_json(all[k].1)->0)),
                decreases js.len() - i,
            {
                let ghost before = out.deep_view();
                proof {
                    assert(all[i as int] == (js@[i as int].0@, js@[i as int].1@));
                }
                let value = &js[i].1;
                match HostValue::from_json(value) {
                    Ok(x) => {
                        let name = js[i].0.clone();
                        out.push((name, x));
                        proof {
                            assert(out.deep_view() =~= before.push((name@, x.deep_view())));
                            assert(before.push((name@, x.deep_view())) =~= Seq::new(
                                (i + 1) as nat,
                                |k: int| (all[k].0, HostValueView::from_json(all[k].1)->0),
                            ));
                        }
                    },
                    Err(e) => {
                        reveal(json_host_value_table);
                        assert(HostValueView::from_json(all[i as int].1) is None);
                        return Err(e);
                    },
                }
                i += 1;
            }
            proof {
                assert(out.deep_view() =~= Seq::new(
                    all.len(),
                    |k: int| (all[k].0, HostValueView::from_json(all[k].1)->0),
                ));
            }
            Ok(out)
        },
        _ => Err(SchemaMismatch),
    }
}

/// The list that stands for a sequence of DNS servers.
#[verifier::opaque]
pub open spec fn dns_server_list_json(s: Seq<DnsServerView>) -> JsonView {
    JsonView::List(Seq::new(s.len(), |i: int| s[i].to_json()))
}

/// The sequence of DNS servers that a list stands for, if each of its values
/// stands for one.
#[verifier::opaque]
pub open spec fn json_dns_server_list(j: JsonView) -> Option<Seq<DnsServerView>> {
    match j {
        JsonView::List(js) => if forall|i: int|
            0 <= i < js.len() ==> (#[trigger] DnsServerView::from_json(js[i])) is Some {
            Some(Seq::new(js.len(), |i: int| DnsServerView::from_json(js[i])->0))
        } else {
            None
        },
        _ => None,
    }
}

/// Whether each of the DNS servers is written in a form from which it is read
/// back.
pub open spec fn canonical_dns_server_list(s: Seq<DnsServerView>) -> bool {
    forall|i: int| 0 <= i < s.len() ==> (#[trigger] s[i]).canonical()
}

/// A sequence of DNS servers is read back from the list that stands for it.
pub proof fn lemma_dns_server_list(s: Seq<DnsServerView>)
    requires
        canonical_dns_server_list(s),
    ensures
        json_dns_server_list(dns_server_list_json(s)) == Some(s),
        dns_server_list_json(s) is List,
{
    reveal(dns_server_list_json);
    reveal(json_dns_server_list);
    let js = dns_server_list_json(s)->List_0;
    assert forall|i: int| 0 <= i < js.len() implies (#[trigger] DnsServerView::from_json(js[i])) == Some(s[i]) by {
        s[i].lemma_round_trip();
    }
    assert(Seq::new(js.len(), |i: int| DnsServerView::from_json(js[i])->0) =~= s);
}

/// Writes a sequence of DNS servers, as `dns_server_list_json` says.
pub fn write_dns_server_list(v: &Vec<DnsServer>) -> (r: Json)
    ensures
        r@ == dns_server_list_json(v.deep_view()),
{
    reveal(dns_server_list_json);
    let mut out: Vec<Json> = Vec::new();
    let mut i: usize = 0;
    let ghost s = v.deep_view();
    while i < v.len()
        invariant
            i <= v.len(),
            s == v.deep_view(),
            out.deep_view() == Seq::new(i as nat, |k: int| s[k].to_json()),
        decreases v.len() - i,
    {
        let ghost before = out.deep_view();
        let elem = &v[i];
        let item = elem.to_json();
        out.push(item);
        proof {
            assert(s[i as int] == v@[i as int].deep_view());
            assert(out.deep_view() =~= before.push(item@));
            assert(before.push(item@) =~= Seq::new((i + 1) as nat, |k: int| s[k].to_json()));
        }
        i += 1;
    }
    let r = Json::List(out);
    proof {
        lemma_json_view(r);
        assert(out.deep_view() =~= Seq::new(s.len(), |k: int| s[k].to_json()));
    }
    r
}

/// Reads a sequence of DNS servers, as `json_dns_server_list` says.
pub fn read_dns_server_list(j: &Json) -> (r: Result<Vec<DnsServer>, SchemaMismatch>)
    ensures
        match r {
            Ok(v) => json_dns_server_list(j@) == Some(v.deep_view()),
            Err(_) => json_dns_server_list(j@) is None,
        },
{
    reveal(json_dns_server_list);
    proof {
        lemma_json_view(*j);
    }
    match j {
        Json::List(js) => {
            let mut out: Vec<DnsServer> = Vec::new();
            let mut i: usize = 0;
            let ghost all = js.deep_view();
            while i < js.len()
                invariant
                    i <= js.len(),
                    all == js.deep_view(),
                    j@ == JsonView::List(all),
                    forall|k: int| 0 <= k < i ==> (#[trigger] DnsServerView::from_json(all[k])) is Some,
                    out.deep_view() == Seq::new(i as nat, |k: int| DnsServerView::from_json(all[k])->0),
                decreases js.len() - i,
            {
                let ghost before = out.deep_view();
                proof {
                    assert(all[i as int] == js@[i as int]@);
                }
                let value = &js[i];
                match DnsServer::from_json(value) {
                    Ok(x) => {
                        out.push(x);
                        proof {
                            assert(out.deep_view() =~= before.push(x.deep_view()));
                            assert(before.push(x.deep_view()) =~= Seq::new(
                                (i + 1) as nat,
                                |k: int| DnsServerView::from_json(all[k])->0,
                            ));
                        }
                    },
                    Err(e) => {
                        reveal(json_dns_server_list);
                        assert(DnsServerView::from_json(all[i as int]) is None);
                        return Err(e);
                    },
                }
                i += 1;
            }
            proof {
                assert(out.deep_view() =~= Seq::new(all.len(), |k: int| DnsServerView::from_json(all[k])->0));
            }
            Ok(out)
        },
        _ => Err(SchemaMismatch),
    }
}

} // verus!
