//! Multiplexing of streams over one connection.

use crate::json::{bool_json, Entries, entries_of, get, get_field, is_null, Json, json_bool, json_text, json_u16, JsonView, Key, lemma_get_empty, lemma_get_merge, lemma_get_put, lemma_json_view, no_entries, optional, present, put, put_field, read_bool, read_entries, read_text, read_u16, SchemaMismatch, text_json, u16_json};
use crate::shared::{feature_attaches, feature_passes, feature_state, FeatureState, state_of};
use vstd::prelude::*;

verus! {

/// The multiplex feature: its switch, protocol and stream cap.
#[derive(Debug, Clone, PartialEq)]
pub struct MultiplexConfig {
    pub enable: Option<bool>,
    pub protocol: Option<String>,
    pub max_streams: Option<u16>,
}

/// What a [`MultiplexConfig`] holds, with every text as its characters.
pub struct MultiplexConfigView {
    pub enable: Option<bool>,
    pub protocol: Option<Seq<char>>,
    pub max_streams: Option<u16>,
}

impl DeepView for MultiplexConfig {
    type V = MultiplexConfigView;

    open spec fn deep_view(&self) -> MultiplexConfigView {
        MultiplexConfigView {
            enable: self.enable.deep_view(),
            protocol: self.protocol.deep_view(),
            max_streams: self.max_streams.deep_view(),
        }
    }
}

impl View for MultiplexConfig {
    type V = MultiplexConfigView;

    open spec fn view(&self) -> MultiplexConfigView {
        self.deep_view()
    }
}

impl MultiplexConfigView {
    /// The view of what [`MultiplexConfig::new`] returns.
    pub open spec fn fresh() -> MultiplexConfigView {
        MultiplexConfigView {
            enable: None,
            protocol: None,
            max_streams: None,
        }
    }
}

impl MultiplexConfig {
    /// A multiplex feature that is not configured.
    pub fn new() -> (r: Self)
        ensures
            r@ == MultiplexConfigView::fresh(),
    {
        MultiplexConfig {
            enable: None,
            protocol: None,
            max_streams: None,
        }
    }
}

impl MultiplexConfigView {
    /// The entries of the record that stands for the value: one for each
    /// field that is set, in the order of the fields.
    pub open spec fn record(self) -> Entries {
        let es = Seq::empty();
        let es = put(es, Key::Enable, present(self.enable, |x: bool| bool_json(x)));
        let es = put(es, Key::Protocol, present(self.protocol, |x: Seq<char>| text_json(x)));
        let es = put(es, Key::MaxStreams, present(self.max_streams, |x: u16| u16_json(x)));
        es
    }

    /// The record that stands for the value.
    pub open spec fn to_json(self) -> JsonView {
        JsonView::Record(self.record())
    }

    /// The value that the entries of an object stand for. Fails where an
    /// entry holds a value of the wrong shape.
    pub open spec fn from_record(es: Entries) -> Option<MultiplexConfigView> {
        let enable = optional(get(es, Key::Enable), |j: JsonView| json_bool(j));
        let protocol = optional(get(es, Key::Protocol), |j: JsonView| json_text(j));
        let max_streams = optional(get(es, Key::MaxStreams), |j: JsonView| json_u16(j));
        if enable is Some
            && protocol is Some
            && max_streams is Some {
            Some(
                MultiplexConfigView {
                    enable: enable->0,
                    protocol: protocol->0,
                    max_streams: max_streams->0,
                },
            )
        } else {
            None
        }
    }

    /// The value that an object stands for; none for a value that is no
    /// object.
    pub open spec fn from_json(j: JsonView) -> Option<MultiplexConfigView> {
        match entries_of(j) {
            Some(es) => MultiplexConfigView::from_record(es),
            None => None,
        }
    }

    /// Whether the value is written in a form from which it is read back:
    /// every value of this type is.
    pub open spec fn canonical(self) -> bool {
        true
    }

    /// The value is read back from the record that stands for it.
    pub proof fn lemma_round_trip(self)
        ensures
            MultiplexConfigView::from_record(self.record()) == Some(self),
            MultiplexConfigView::from_json(self.to_json()) == Some(self),
    {
        broadcast use {lemma_get_empty, lemma_get_put, lemma_get_merge};

        let es = self.record();
        assert(optional(get(es, Key::Enable), |j: JsonView| json_bool(j)) == Some(self.enable));
        assert(optional(get(es, Key::Protocol), |j: JsonView| json_text(j)) == Some(self.protocol));
        assert(optional(get(es, Key::MaxStreams), |j: JsonView| json_u16(j)) == Some(self.max_streams));
    }
}

impl MultiplexConfig {
    /// The entries of the record that stands for the value, as
    /// `MultiplexConfigView::record` lists them.
    pub fn record(&self) -> (r: Vec<(Key, Json)>)
        ensures
            r.deep_view() == self@.record(),
    {
        let mut es: Vec<(Key, Json)> = no_entries();
        let ghost s = Seq::<(Key, JsonView)>::empty();
        let value = match &self.enable {
            Some(x) => Some(Json::Bool(*x)),
            None => None,
        };
        put_field(&mut es, Key::Enable, value);
        let ghost s = put(s, Key::Enable, present(self@.enable, |x: bool| bool_json(x)));
        assert(es.deep_view() == s);
        let value = match &self.protocol {
            Some(x) => Some(Json::Text(x.clone())),
            None => None,
        };
        put_field(&mut es, Key::Protocol, value);
        let ghost s = put(s, Key::Protocol, present(self@.protocol, |x: Seq<char>| text_json(x)));
        assert(es.deep_view() == s);
        let value = match &self.max_streams {
            Some(x) => Some(Json::Unsigned(*x as u64)),
            None => None,
        };
        put_field(&mut es, Key::MaxStreams, value);
        let ghost s = put(s, Key::MaxStreams, present(self@.max_streams, |x: u16| u16_json(x)));
        assert(es.deep_view() == s);
        es
    }

    /// The record that stands for the value.
    pub fn to_json(&self) -> (r: Json)
        ensures
            r@ == self@.to_json(),
    {
        let r = Json::Record(self.record());
        proof {
            lemma_json_view(r);
        }
        r
    }

    /// Reads the value from the entries of an object, as
    /// `MultiplexConfigView::from_record` says.
    pub fn from_record(es: &Vec<(Key, &Json)>) -> (r: Result<MultiplexConfig, SchemaMismatch>)
        ensures
            match r {
                Ok(x) => MultiplexConfigView::from_record(es.deep_view()) == Some(x@),
                Err(_) => MultiplexConfigView::from_record(es.deep_view()) is None,
            },
    {
        let enable = match get_field(es, Key::Enable) {
            Some(j) => if is_null(j) {
                None
            } else {
                match read_bool(j) {
                    Ok(x) => Some(x),
                    Err(e) => {
                        return Err(e);
                    },
                }
            },
            None => None,
        };
        assert(optional(get(es.deep_view(), Key::Enable), |j: JsonView| json_bool(j)) == Some(enable.deep_view()));
        let protocol = match get_field(es, Key::Protocol) {
            Some(j) => if is_null(j) {
                None
            } else {
                match read_text(j) {
                    Ok(x) => Some(x),
                    Err(e) => {
                        return Err(e);
                    },
                }
            },
            None => None,
        };
        assert(optional(get(es.deep_view(), Key::Protocol), |j: JsonView| json_text(j)) == Some(protocol.deep_view()));
        let max_streams = match get_field(es, Key::MaxStreams) {
            Some(j) => if is_null(j) {
                None
            } else {
                match read_u16(j) {
                    Ok(x) => Some(x),
                    Err(e) => {
                        return Err(e);
                    },
                }
            },
            None => None,
        };
        assert(optional(get(es.deep_view(), Key::MaxStreams), |j: JsonView| json_u16(j)) == Some(max_streams.deep_view()));
        Ok(MultiplexConfig { enable, protocol, max_streams })
    }

    /// Reads the value from an object, as `MultiplexConfigView::from_json` says.
    pub fn from_json(j: &Json) -> (r: Result<MultiplexConfig, SchemaMismatch>)
        ensures
            match r {
                Ok(x) => MultiplexConfigView::from_json(j@) == Some(x@),
                Err(_) => MultiplexConfigView::from_json(j@) is None,
            },
    {
        match read_entries(j) {
            Ok(es) => MultiplexConfig::from_record(&es),
            Err(e) => Err(e),
        }
    }
}

impl MultiplexConfigView {
    /// The state of the feature's switch.
    pub open spec fn state(self) -> FeatureState {
        feature_state(self.enable)
    }

    /// Whether the fields that an enabled multiplex needs are present: its
    /// protocol and its stream cap.
    pub open spec fn required_present(self) -> bool {
        self.protocol is Some && self.max_streams is Some
    }

    /// Whether the feature passes its completeness check.
    pub open spec fn passes(self) -> bool {
        feature_passes(self.enable, self.required_present())
    }

    /// Whether the feature goes into the document.
    pub open spec fn attaches(self) -> bool {
        feature_attaches(self.enable, self.required_present())
    }
}

impl MultiplexConfig {
    /// The state of the feature's switch.
    pub fn state(&self) -> (r: FeatureState)
        ensures
            r == self@.state(),
    {
        state_of(self.enable)
    }

    /// The completeness check: passes unless the feature is switched on
    /// without a protocol or without a stream cap.
    pub fn check(&self) -> (r: bool)
        ensures
            r == self@.passes(),
    {
        match self.enable {
            Some(true) => self.protocol.is_some() && self.max_streams.is_some(),
            _ => true,
        }
    }
}

} // verus!
