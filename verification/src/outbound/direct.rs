//! The direct outbound.

use crate::defaults::DIRECT_OUTBOUND_TAG;
use crate::json::{Entries, entries_of, get, get_field, is_null, Json, json_text, JsonView, Key, lemma_get_empty, lemma_get_merge, lemma_get_put, lemma_json_view, merge, no_entries, optional, present, put, put_field, put_group, read_entries, read_text, SchemaMismatch, text_json};
use crate::shared::dialfields::{DialFields, DialFieldsView};
use vstd::prelude::*;

verus! {

/// An outbound that connects without a proxy.
#[derive(Debug, Clone, PartialEq)]
pub struct DirectConfig {
    pub config_type: Option<String>,
    pub tag: Option<String>,
    pub dial: Option<DialFields>,
}

/// What a [`DirectConfig`] holds, with every text as its characters.
pub struct DirectConfigView {
    pub config_type: Option<Seq<char>>,
    pub tag: Option<Seq<char>>,
    pub dial: Option<DialFieldsView>,
}

impl DeepView for DirectConfig {
    type V = DirectConfigView;

    open spec fn deep_view(&self) -> DirectConfigView {
        DirectConfigView {
            config_type: self.config_type.deep_view(),
            tag: self.tag.deep_view(),
            dial: self.dial.deep_view(),
        }
    }
}

impl View for DirectConfig {
    type V = DirectConfigView;

    open spec fn view(&self) -> DirectConfigView {
        self.deep_view()
    }
}

impl DirectConfigView {
    /// The view of what [`DirectConfig::new`] returns.
    pub open spec fn fresh() -> DirectConfigView {
        DirectConfigView {
            config_type: Some("direct"@),
            tag: Some(DIRECT_OUTBOUND_TAG@),
            dial: None,
        }
    }
}

impl DirectConfig {
    /// A direct outbound under its default tag.
    pub fn new() -> (r: Self)
        ensures
            r@ == DirectConfigView::fresh(),
    {
        DirectConfig {
            config_type: Some("direct".to_owned()),
            tag: Some(DIRECT_OUTBOUND_TAG.to_owned()),
            dial: None,
        }
    }
}

impl DirectConfigView {
    /// The entries of the record that stands for the value: one for each
    /// field that is set, in the order of the fields.
    pub open spec fn record(self) -> Entries {
        let es = Seq::empty();
        let es = put(es, Key::Type, present(self.config_type, |x: Seq<char>| text_json(x)));
        let es = put(es, Key::Tag, present(self.tag, |x: Seq<char>| text_json(x)));
        let es = merge(
            es,
            match self.dial {
                Some(g) => g.record(),
                None => Seq::empty(),
            },
        );
        es
    }

    /// The record that stands for the value.
    pub open spec fn to_json(self) -> JsonView {
        JsonView::Record(self.record())
    }

    /// The value that the entries of an object stand for. Fails where an
    /// entry holds a value of the wrong shape.
    pub open spec fn from_record(es: Entries) -> Option<DirectConfigView> {
        let config_type = optional(get(es, Key::Type), |j: JsonView| json_text(j));
        let tag = optional(get(es, Key::Tag), |j: JsonView| json_text(j));
        let dial = DialFieldsView::from_group(es);
        if config_type is Some
            && tag is Some
            && dial is Some {
            Some(
                DirectConfigView {
                    config_type: config_type->0,
                    tag: tag->0,
                    dial: dial->0,
                },
            )
        } else {
            None
        }
    }

    /// The value that an object stands for; none for a value that is no
    /// object.
    pub open spec fn from_json(j: JsonView) -> Option<DirectConfigView> {
        match entries_of(j) {
            Some(es) => DirectConfigView::from_record(es),
            None => None,
        }
    }

    /// Whether the value is written in a form from which it is read back:
    /// the values that it holds are, and a group of fields that is present
    /// sets at least one of them.
    pub open spec fn canonical(self) -> bool {
        &&& match self.dial {
            Some(g) => g.canonical() && g != DialFieldsView::blank(),
            None => true,
        }
    }

    /// The value is read back from the record that stands for it.
    pub proof fn lemma_round_trip(self)
        requires
            self.canonical(),
        ensures
            DirectConfigView::from_record(self.record()) == Some(self),
            DirectConfigView::from_json(self.to_json()) == Some(self),
    {
        broadcast use {lemma_get_empty, lemma_get_put, lemma_get_merge};

        let es = self.record();
        assert(optional(get(es, Key::Type), |j: JsonView| json_text(j)) == Some(self.config_type));
        assert(optional(get(es, Key::Tag), |j: JsonView| json_text(j)) == Some(self.tag));
        match self.dial {
            Some(g) => {
                g.lemma_round_trip();
                assert(get(es, Key::Detour) == get(g.record(), Key::Detour));
                assert(get(es, Key::DomainResolver) == get(g.record(), Key::DomainResolver));
                assert(get(es, Key::BindInterface) == get(g.record(), Key::BindInterface));
                assert(get(es, Key::Inet4BindAddress) == get(g.record(), Key::Inet4BindAddress));
                assert(get(es, Key::Inet6BindAddress) == get(g.record(), Key::Inet6BindAddress));
                assert(get(es, Key::RoutingMark) == get(g.record(), Key::RoutingMark));
                assert(get(es, Key::ReuseAddr) == get(g.record(), Key::ReuseAddr));
                assert(get(es, Key::ConnectTimeout) == get(g.record(), Key::ConnectTimeout));
                assert(get(es, Key::TcpFastOpen) == get(g.record(), Key::TcpFastOpen));
                assert(get(es, Key::TcpMultiPath) == get(g.record(), Key::TcpMultiPath));
                assert(get(es, Key::UdpFragment) == get(g.record(), Key::UdpFragment));
                DialFieldsView::lemma_reads_own_keys(es, g.record());
            },
            None => {
                assert(get(es, Key::Detour) is None);
                assert(get(es, Key::DomainResolver) is None);
                assert(get(es, Key::BindInterface) is None);
                assert(get(es, Key::Inet4BindAddress) is None);
                assert(get(es, Key::Inet6BindAddress) is None);
                assert(get(es, Key::RoutingMark) is None);
                assert(get(es, Key::ReuseAddr) is None);
                assert(get(es, Key::ConnectTimeout) is None);
                assert(get(es, Key::TcpFastOpen) is None);
                assert(get(es, Key::TcpMultiPath) is None);
                assert(get(es, Key::UdpFragment) is None);
                DialFieldsView::lemma_no_group(es);
            },
        }
        assert(DialFieldsView::from_group(es) == Some(self.dial));
    }
}

impl DirectConfig {
    /// The entries of the record that stands for the value, as
    /// `DirectConfigView::record` lists them.
    pub fn record(&self) -> (r: Vec<(Key, Json)>)
        ensures
            r.deep_view() == self@.record(),
    {
        let mut es: Vec<(Key, Json)> = no_entries();
        let ghost s = Seq::<(Key, JsonView)>::empty();
        let value = match &self.config_type {
            Some(x) => Some(Json::Text(x.clone())),
            None => None,
        };
        put_field(&mut es, Key::Type, value);
        let ghost s = put(s, Key::Type, present(self@.config_type, |x: Seq<char>| text_json(x)));
        assert(es.deep_view() == s);
        let value = match &self.tag {
            Some(x) => Some(Json::Text(x.clone())),
            None => None,
        };
        put_field(&mut es, Key::Tag, value);
        let ghost s = put(s, Key::Tag, present(self@.tag, |x: Seq<char>| text_json(x)));
        assert(es.deep_view() == s);
        let group = match &self.dial {
            Some(g) => g.record(),
            None => no_entries(),
        };
        put_group(&mut es, group);
        let ghost s = merge(
            s,
            match self@.dial {
                Some(g) => g.record(),
                None => Seq::empty(),
            },
        );
        assert(es.deep_view() == s);
        es
    }

    /// The record that stands for the value.
    pub fn to_json(&self) -> (r: Json)
        ensures
            r@ == self@.to_json(),
    {
        let r = Json::Record(self.record());
        proof {
            lemma_json_view(r);
        }
        r
    }

    /// Reads the value from the entries of an object, as
    /// `DirectConfigView::from_record` says.
    pub fn from_record(es: &Vec<(Key, &Json)>) -> (r: Result<DirectConfig, SchemaMismatch>)
        ensures
            match r {
                Ok(x) => DirectConfigView::from_record(es.deep_view()) == Some(x@),
                Err(_) => DirectConfigView::from_record(es.deep_view()) is None,
            },
    {
        let config_type = match get_field(es, Key::Type) {
            Some(j) => if is_null(j) {
                None
            } else {
                match read_text(j) {
                    Ok(x) => Some(x),
                    Err(e) => {
                        return Err(e);
                    },
                }
            },
            None => None,
        };
        assert(optional(get(es.deep_view(), Key::Type), |j: JsonView| json_text(j)) == Some(config_type.deep_view()));
        let tag = match get_field(es, Key::Tag) {
            Some(j) => if is_null(j) {
                None
            } else {
                match read_text(j) {
                    Ok(x) => Some(x),
                    Err(e) => {
                        return Err(e);
                    },
                }
            },
            None => None,
        };
        assert(optional(get(es.deep_view(), Key::Tag), |j: JsonView| json_text(j)) == Some(tag.deep_view()));
        let dial = match DialFields::from_group(es) {
            Ok(g) => g,
            Err(e) => {
                return Err(e);
            },
        };
        Ok(DirectConfig { config_type, tag, dial })
    }

    /// Reads the value from an object, as `DirectConfigView::from_json` says.
    pub fn from_json(j: &Json) -> (r: Result<DirectConfig, SchemaMismatch>)
        ensures
            match r {
                Ok(x) => DirectConfigView::from_json(j@) == Some(x@),
                Err(_) => DirectConfigView::from_json(j@) is None,
            },
    {
        match read_entries(j) {
            Ok(es) => DirectConfig::from_record(&es),
            Err(e) => Err(e),
        }
    }
}

} // verus!
