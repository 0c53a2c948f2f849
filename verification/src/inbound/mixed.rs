//! The mixed inbound.

use crate::defaults::MIXED_INBOUND_TAG;
use crate::json::{bool_json, Entries, entries_of, get, get_field, is_null, Json, json_bool, json_text, JsonView, Key, lemma_get_empty, lemma_get_merge, lemma_get_put, lemma_json_view, merge, no_entries, optional, present, put, put_field, put_group, read_bool, read_entries, read_text, SchemaMismatch, text_json};
use crate::shared::listenfields::{ListenFields, ListenFieldsView};
use vstd::prelude::*;

verus! {

/// An inbound that serves SOCKS and HTTP on one port.
#[derive(Debug, Clone, PartialEq)]
pub struct MixedConfig {
    pub config_type: Option<String>,
    pub tag: Option<String>,
    pub listen: Option<ListenFields>,
    pub set_system_proxy: Option<bool>,
}

/// What a [`MixedConfig`] holds, with every text as its characters.
pub struct MixedConfigView {
    pub config_type: Option<Seq<char>>,
    pub tag: Option<Seq<char>>,
    pub listen: Option<ListenFieldsView>,
    pub set_system_proxy: Option<bool>,
}

impl DeepView for MixedConfig {
    type V = MixedConfigView;

    open spec fn deep_view(&self) -> MixedConfigView {
        MixedConfigView {
            config_type: self.config_type.deep_view(),
            tag: self.tag.deep_view(),
            listen: self.listen.deep_view(),
            set_system_proxy: self.set_system_proxy.deep_view(),
        }
    }
}

impl View for MixedConfig {
    type V = MixedConfigView;

    open spec fn view(&self) -> MixedConfigView {
        self.deep_view()
    }
}

impl MixedConfigView {
    /// The view of what [`MixedConfig::new`] returns.
    pub open spec fn fresh() -> MixedConfigView {
        MixedConfigView {
            config_type: Some("mixed"@),
            tag: Some(MIXED_INBOUND_TAG@),
            listen: None,
            set_system_proxy: None,
        }
    }
}

impl MixedConfig {
    /// A mixed inbound under its default tag.
    pub fn new() -> (r: Self)
        ensures
            r@ == MixedConfigView::fresh(),
    {
        MixedConfig {
            config_type: Some("mixed".to_owned()),
            tag: Some(MIXED_INBOUND_TAG.to_owned()),
            listen: None,
            set_system_proxy: None,
        }
    }
}

impl MixedConfigView {
    /// The entries of the record that stands for the value: one for each
    /// field that is set, in the order of the fields.
    pub open spec fn record(self) -> Entries {
        let es = Seq::empty();
        let es = put(es, Key::Type, present(self.config_type, |x: Seq<char>| text_json(x)));
        let es = put(es, Key::Tag, present(self.tag, |x: Seq<char>| text_json(x)));
        let es = merge(
            es,
            match self.listen {
                Some(g) => g.record(),
                None => Seq::empty(),
            },
        );
        let es = put(es, Key::SetSystemProxy, present(self.set_system_proxy, |x: bool| bool_json(x)));
        es
    }

    /// The record that stands for the value.
    pub open spec fn to_json(self) -> JsonView {
        JsonView::Record(self.record())
    }

    /// The value that the entries of an object stand for. Fails where an
    /// entry holds a value of the wrong shape.
    pub open spec fn from_record(es: Entries) -> Option<MixedConfigView> {
        let config_type = optional(get(es, Key::Type), |j: JsonView| json_text(j));
        let tag = optional(get(es, Key::Tag), |j: JsonView| json_text(j));
        let listen = ListenFieldsView::from_group(es);
        let set_system_proxy = optional(get(es, Key::SetSystemProxy), |j: JsonView| json_bool(j));
        if config_type is Some
            && tag is Some
            && listen is Some
            && set_system_proxy is Some {
            Some(
                MixedConfigView {
                    config_type: config_type->0,
                    tag: tag->0,
                    listen: listen->0,
                    set_system_proxy: set_system_proxy->0,
                },
            )
        } else {
            None
        }
    }

    /// The value that an object stands for; none for a value that is no
    /// object.
    pub open spec fn from_json(j: JsonView) -> Option<MixedConfigView> {
        match entries_of(j) {
            Some(es) => MixedConfigView::from_record(es),
            None => None,
        }
    }

    /// Whether the value is written in a form from which it is read back:
    /// the values that it holds are, and a group of fields that is present
    /// sets at least one of them.
    pub open spec fn canonical(self) -> bool {
        &&& match self.listen {
            Some(g) => g.canonical() && g != ListenFieldsView::blank(),
            None => true,
        }
    }

    /// The value is read back from the record that stands for it.
    pub proof fn lemma_round_trip(self)
        requires
            self.canonical(),
        ensures
            MixedConfigView::from_record(self.record()) == Some(self),
            MixedConfigView::from_json(self.to_json()) == Some(self),
    {
        broadcast use {lemma_get_empty, lemma_get_put, lemma_get_merge};

        let es = self.record();
        assert(optional(get(es, Key::Type), |j: JsonView| json_text(j)) == Some(self.config_type));
        assert(optional(get(es, Key::Tag), |j: JsonView| json_text(j)) == Some(self.tag));
        match self.listen {
            Some(g) => {
                g.lemma_round_trip();
                assert(get(es, Key::Listen) == get(g.record(), Key::Listen));
                assert(get(es, Key::ListenPort) == get(g.record(), Key::ListenPort));
                assert(get(es, Key::BindInterface) == get(g.record(), Key::BindInterface));
                assert(get(es, Key::RoutingMark) == get(g.record(), Key::RoutingMark));
                assert(get(es, Key::ReuseAddr) == get(g.record(), Key::ReuseAddr));
                assert(get(es, Key::Netns) == get(g.record(), Key::Netns));
                assert(get(es, Key::TcpFastOpen) == get(g.record(), Key::TcpFastOpen));
                assert(get(es, Key::TcpMultiPath) == get(g.record(), Key::TcpMultiPath));
                assert(get(es, Key::DisableTcpKeepAlive) == get(g.record(), Key::DisableTcpKeepAlive));
                assert(get(es, Key::TcpKeepAlive) == get(g.record(), Key::TcpKeepAlive));
                assert(get(es, Key::TcpKeepAliveInterval) == get(g.record(), Key::TcpKeepAliveInterval));
                assert(get(es, Key::UdpFragment) == get(g.record(), Key::UdpFragment));
                assert(get(es, Key::UdpTimeout) == get(g.record(), Key::UdpTimeout));
                assert(get(es, Key::Detour) == get(g.record(), Key::Detour));
                ListenFieldsView::lemma_reads_own_keys(es, g.record());
            },
            None => {
                assert(get(es, Key::Listen) is None);
                assert(get(es, Key::ListenPort) is None);
                assert(get(es, Key::BindInterface) is None);
                assert(get(es, Key::RoutingMark) is None);
                assert(get(es, Key::ReuseAddr) is None);
                assert(get(es, Key::Netns) is None);
                assert(get(es, Key::TcpFastOpen) is None);
                assert(get(es, Key::TcpMultiPath) is None);
                assert(get(es, Key::DisableTcpKeepAlive) is None);
                assert(get(es, Key::TcpKeepAlive) is None);
                assert(get(es, Key::TcpKeepAliveInterval) is None);
                assert(get(es, Key::UdpFragment) is None);
                assert(get(es, Key::UdpTimeout) is None);
                assert(get(es, Key::Detour) is None);
                ListenFieldsView::lemma_no_group(es);
            },
        }
        assert(ListenFieldsView::from_group(es) == Some(self.listen));
        assert(optional(get(es, Key::SetSystemProxy), |j: JsonView| json_bool(j)) == Some(self.set_system_proxy));
    }
}

impl MixedConfig {
    /// The entries of the record that stands for the value, as
    /// `MixedConfigView::record` lists them.
    pub fn record(&self) -> (r: Vec<(Key, Json)>)
        ensures
            r.deep_view() == self@.record(),
    {
        let mut es: Vec<(Key, Json)> = no_entries();
        let ghost s = Seq::<(Key, JsonView)>::empty();
        let value = match &self.config_type {
            Some(x) => Some(Json::Text(x.clone())),
            None => None,
        };
        put_field(&mut es, Key::Type, value);
        let ghost s = put(s, Key::Type, present(self@.config_type, |x: Seq<char>| text_json(x)));
        assert(es.deep_view() == s);
        let value = match &self.tag {
            Some(x) => Some(Json::Text(x.clone())),
            None => None,
        };
        put_field(&mut es, Key::Tag, value);
        let ghost s = put(s, Key::Tag, present(self@.tag, |x: Seq<char>| text_json(x)));
        assert(es.deep_view() == s);
        let group = match &self.listen {
            Some(g) => g.record(),
            None => no_entries(),
        };
        put_group(&mut es, group);
        let ghost s = merge(
            s,
            match self@.listen {
                Some(g) => g.record(),
                None => Seq::empty(),
            },
        );
        assert(es.deep_view() == s);
        let value = match &self.set_system_proxy {
            Some(x) => Some(Json::Bool(*x)),
            None => None,
        };
        put_field(&mut es, Key::SetSystemProxy, value);
        let ghost s = put(s, Key::SetSystemProxy, present(self@.set_system_proxy, |x: bool| bool_json(x)));
        assert(es.deep_view() == s);
        es
    }

    /// The record that stands for the value.
    pub fn to_json(&self) -> (r: Json)
        ensures
            r@ == self@.to_json(),
    {
        let r = Json::Record(self.record());
        proof {
            lemma_json_view(r);
        }
        r
    }

    /// Reads the value from the entries of an object, as
    /// `MixedConfigView::from_record` says.
    pub fn from_record(es: &Vec<(Key, &Json)>) -> (r: Result<MixedConfig, SchemaMismatch>)
        ensures
            match r {
                Ok(x) => MixedConfigView::from_record(es.deep_view()) == Some(x@),
                Err(_) => MixedConfigView::from_record(es.deep_view()) is None,
            },
    {
        let config_type = match get_field(es, Key::Type) {
            Some(j) => if is_null(j) {
                None
            } else {
                match read_text(j) {
                    Ok(x) => Some(x),
                    Err(e) => {
                        return Err(e);
                    },
                }
            },
            None => None,
        };
        assert(optional(get(es.deep_view(), Key::Type), |j: JsonView| json_text(j)) == Some(config_type.deep_view()));
        let tag = match get_field(es, Key::Tag) {
            Some(j) => if is_null(j) {
                None
            } else {
                match read_text(j) {
                    Ok(x) => Some(x),
                    Err(e) => {
                        return Err(e);
                    },
                }
            },
            None => None,
        };
        assert(optional(get(es.deep_view(), Key::Tag), |j: JsonView| json_text(j)) == Some(tag.deep_view()));
        let listen = match ListenFields::from_group(es) {
            Ok(g) => g,
            Err(e) => {
                return Err(e);
            },
        };
        let set_system_proxy = match get_field(es, Key::SetSystemProxy) {
            Some(j) => if is_null(j) {
                None
            } else {
                match read_bool(j) {
                    Ok(x) => Some(x),
                    Err(e) => {
                        return Err(e);
                    },
                }
            },
            None => None,
        };
        assert(optional(get(es.deep_view(), Key::SetSystemProxy), |j: JsonView| json_bool(j)) == Some(set_system_proxy.deep_view()));
        Ok(MixedConfig { config_type, tag, listen, set_system_proxy })
    }

    /// Reads the value from an object, as `MixedConfigView::from_json` says.
    pub fn from_json(j: &Json) -> (r: Result<MixedConfig, SchemaMismatch>)
        ensures
            match r {
                Ok(x) => MixedConfigView::from_json(j@) == Some(x@),
                Err(_) => MixedConfigView::from_json(j@) is None,
            },
    {
        match read_entries(j) {
            Ok(es) => MixedConfig::from_record(&es),
            Err(e) => Err(e),
        }
    }
}

} // verus!
