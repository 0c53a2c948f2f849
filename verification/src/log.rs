//! Logging options of the engine.

use crate::json::{bool_json, Entries, entries_of, get, get_field, is_null, Json, json_bool, json_text, JsonView, Key, lemma_get_empty, lemma_get_merge, lemma_get_put, lemma_json_view, no_entries, optional, present, put, put_field, read_bool, read_entries, read_text, SchemaMismatch, text_json};
use vstd::prelude::*;

verus! {

/// What the engine logs and where.
#[derive(Debug, Clone, PartialEq)]
pub struct LogConfig {
    pub disable: Option<bool>,
    pub level: Option<String>,
    pub output: Option<String>,
    pub timestamp: Option<bool>,
}

/// What a [`LogConfig`] holds, with every text as its characters.
pub struct LogConfigView {
    pub disable: Option<bool>,
    pub level: Option<Seq<char>>,
    pub output: Option<Seq<char>>,
    pub timestamp: Option<bool>,
}

impl DeepView for LogConfig {
    type V = LogConfigView;

    open spec fn deep_view(&self) -> LogConfigView {
        LogConfigView {
            disable: self.disable.deep_view(),
            level: self.level.deep_view(),
            output: self.output.deep_view(),
            timestamp: self.timestamp.deep_view(),
        }
    }
}

impl View for LogConfig {
    type V = LogConfigView;

    open spec fn view(&self) -> LogConfigView {
        self.deep_view()
    }
}

impl LogConfigView {
    /// The view of what [`LogConfig::new`] returns.
    pub open spec fn fresh() -> LogConfigView {
        LogConfigView {
            disable: None,
            level: Some("info"@),
            output: None,
            timestamp: None,
        }
    }
}

impl LogConfig {
    /// Logging at level `info`, everything else unset.
    pub fn new() -> (r: Self)
        ensures
            r@ == LogConfigView::fresh(),
    {
        LogConfig {
            disable: None,
            level: Some("info".to_owned()),
            output: None,
            timestamp: None,
        }
    }
}

impl LogConfigView {
    /// The entries of the record that stands for the value: one for each
    /// field that is set, in the order of the fields.
    pub open spec fn record(self) -> Entries {
        let es = Seq::empty();
        let es = put(es, Key::Disable, present(self.disable, |x: bool| bool_json(x)));
        let es = put(es, Key::Level, present(self.level, |x: Seq<char>| text_json(x)));
        let es = put(es, Key::Output, present(self.output, |x: Seq<char>| text_json(x)));
        let es = put(es, Key::Timestamp, present(self.timestamp, |x: bool| bool_json(x)));
        es
    }

    /// The record that stands for the value.
    pub open spec fn to_json(self) -> JsonView {
        JsonView::Record(self.record())
    }

    /// The value that the entries of an object stand for. Fails where an
    /// entry holds a value of the wrong shape.
    pub open spec fn from_record(es: Entries) -> Option<LogConfigView> {
        let disable = optional(get(es, Key::Disable), |j: JsonView| json_bool(j));
        let level = optional(get(es, Key::Level), |j: JsonView| json_text(j));
        let output = optional(get(es, Key::Output), |j: JsonView| json_text(j));
        let timestamp = optional(get(es, Key::Timestamp), |j: JsonView| json_bool(j));
        if disable is Some
            && level is Some
            && output is Some
            && timestamp is Some {
            Some(
                LogConfigView {
                    disable: disable->0,
                    level: level->0,
                    output: output->0,
                    timestamp: timestamp->0,
                },
            )
        } else {
            None
        }
    }

    /// The value that an object stands for; none for a value that is no
    /// object.
    pub open spec fn from_json(j: JsonView) -> Option<LogConfigView> {
        match entries_of(j) {
            Some(es) => LogConfigView::from_record(es),
            None => None,
        }
    }

    /// Whether the value is written in a form from which it is read back:
    /// every value of this type is.
    pub open spec fn canonical(self) -> bool {
        true
    }

    /// The value is read back from the record that stands for it.
    pub proof fn lemma_round_trip(self)
        ensures
            LogConfigView::from_record(self.record()) == Some(self),
            LogConfigView::from_json(self.to_json()) == Some(self),
    {
        broadcast use {lemma_get_empty, lemma_get_put, lemma_get_merge};

        let es = self.record();
        assert(optional(get(es, Key::Disable), |j: JsonView| json_bool(j)) == Some(self.disable));
        assert(optional(get(es, Key::Level), |j: JsonView| json_text(j)) == Some(self.level));
        assert(optional(get(es, Key::Output), |j: JsonView| json_text(j)) == Some(self.output));
        assert(optional(get(es, Key::Timestamp), |j: JsonView| json_bool(j)) == Some(self.timestamp));
    }
}

impl LogConfig {
    /// The entries of the record that stands for the value, as
    /// `LogConfigView::record` lists them.
    pub fn record(&self) -> (r: Vec<(Key, Json)>)
        ensures
            r.deep_view() == self@.record(),
    {
        let mut es: Vec<(Key, Json)> = no_entries();
        let ghost s = Seq::<(Key, JsonView)>::empty();
        let value = match &self.disable {
            Some(x) => Some(Json::Bool(*x)),
            None => None,
        };
        put_field(&mut es, Key::Disable, value);
        let ghost s = put(s, Key::Disable, present(self@.disable, |x: bool| bool_json(x)));
        assert(es.deep_view() == s);
        let value = match &self.level {
            Some(x) => Some(Json::Text(x.clone())),
            None => None,
        };
        put_field(&mut es, Key::Level, value);
        let ghost s = put(s, Key::Level, present(self@.level, |x: Seq<char>| text_json(x)));
        assert(es.deep_view() == s);
        let value = match &self.output {
            Some(x) => Some(Json::Text(x.clone())),
            None => None,
        };
        put_field(&mut es, Key::Output, value);
        let ghost s = put(s, Key::Output, present(self@.output, |x: Seq<char>| text_json(x)));
        assert(es.deep_view() == s);
        let value = match &self.timestamp {
            Some(x) => Some(Json::Bool(*x)),
            None => None,
        };
        put_field(&mut es, Key::Timestamp, value);
        let ghost s = put(s, Key::Timestamp, present(self@.timestamp, |x: bool| bool_json(x)));
        assert(es.deep_view() == s);
        es
    }

    /// The record that stands for the value.
    pub fn to_json(&self) -> (r: Json)
        ensures
            r@ == self@.to_json(),
    {
        let r = Json::Record(self.record());
        proof {
            lemma_json_view(r);
        }
        r
    }

    /// Reads the value from the entries of an object, as
    /// `LogConfigView::from_record` says.
    pub fn from_record(es: &Vec<(Key, &Json)>) -> (r: Result<LogConfig, SchemaMismatch>)
        ensures
            match r {
                Ok(x) => LogConfigView::from_record(es.deep_view()) == Some(x@),
                Err(_) => LogConfigView::from_record(es.deep_view()) is None,
            },
    {
        let disable = match get_field(es, Key::Disable) {
            Some(j) => if is_null(j) {
                None
            } else {
                match read_bool(j) {
                    Ok(x) => Some(x),
                    Err(e) => {
                        return Err(e);
                    },
                }
            },
            None => None,
        };
        assert(optional(get(es.deep_view(), Key::Disable), |j: JsonView| json_bool(j)) == Some(disable.deep_view()));
        let level = match get_field(es, Key::Level) {
            Some(j) => if is_null(j) {
                None
            } else {
                match read_text(j) {
                    Ok(x) => Some(x),
                    Err(e) => {
                        return Err(e);
                    },
                }
            },
            None => None,
        };
        assert(optional(get(es.deep_view(), Key::Level), |j: JsonView| json_text(j)) == Some(level.deep_view()));
        let output = match get_field(es, Key::Output) {
            Some(j) => if is_null(j) {
                None
            } else {
                match read_text(j) {
                    Ok(x) => Some(x),
                    Err(e) => {
                        return Err(e);
                    },
                }
            },
            None => None,
        };
        assert(optional(get(es.deep_view(), Key::Output), |j: JsonView| json_text(j)) == Some(output.deep_view()));
        let timestamp = match get_field(es, Key::Timestamp) {
            Some(j) => if is_null(j) {
                None
            } else {
                match read_bool(j) {
                    Ok(x) => Some(x),
                    Err(e) => {
                        return Err(e);
                    },
                }
            },
            None => None,
        };
        assert(optional(get(es.deep_view(), Key::Timestamp), |j: JsonView| json_bool(j)) == Some(timestamp.deep_view()));
        Ok(LogConfig { disable, level, output, timestamp })
    }

    /// Reads the value from an object, as `LogConfigView::from_json` says.
    pub fn from_json(j: &Json) -> (r: Result<LogConfig, SchemaMismatch>)
        ensures
            match r {
                Ok(x) => LogConfigView::from_json(j@) == Some(x@),
                Err(_) => LogConfigView::from_json(j@) is None,
            },
    {
        match read_entries(j) {
            Ok(es) => LogConfig::from_record(&es),
            Err(e) => Err(e),
        }
    }
}

} // verus!
