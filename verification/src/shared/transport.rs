//! The transports that can carry an outbound connection.

use crate::json::{bool_json, Entries, entries_of, get, get_field, is_null, Json, json_bool, json_text, json_text_list, json_text_table, json_u16, JsonView, Key, lemma_get_empty, lemma_get_merge, lemma_get_put, lemma_json_view, lemma_text_list, lemma_text_table, no_entries, optional, present, put, put_field, read_bool, read_entries, read_text, read_text_list, read_text_table, read_u16, SchemaMismatch, text_json, text_list_json, text_table_json, u16_json, write_text_list, write_text_table};
use crate::text::same_text;
use vstd::prelude::*;

verus! {

/// A WebSocket transport.
#[derive(Debug, Clone, PartialEq)]
pub struct WebSocketConfig {
    pub config_type: Option<String>,
    pub path: Option<String>,
    pub headers: Option<Vec<(String, String)>>,
    pub max_early_data: Option<u16>,
    pub early_data_header_name: Option<String>,
}

/// What a [`WebSocketConfig`] holds, with every text as its characters.
pub struct WebSocketConfigView {
    pub config_type: Option<Seq<char>>,
    pub path: Option<Seq<char>>,
    pub headers: Option<Seq<(Seq<char>, Seq<char>)>>,
    pub max_early_data: Option<u16>,
    pub early_data_header_name: Option<Seq<char>>,
}

impl DeepView for WebSocketConfig {
    type V = WebSocketConfigView;

    open spec fn deep_view(&self) -> WebSocketConfigView {
        WebSocketConfigView {
            config_type: self.config_type.deep_view(),
            path: self.path.deep_view(),
            headers: self.headers.deep_view(),
            max_early_data: self.max_early_data.deep_view(),
            early_data_header_name: self.early_data_header_name.deep_view(),
        }
    }
}

impl View for WebSocketConfig {
    type V = WebSocketConfigView;

    open spec fn view(&self) -> WebSocketConfigView {
        self.deep_view()
    }
}

impl WebSocketConfigView {
    /// The view of what [`WebSocketConfig::new`] returns.
    pub open spec fn fresh() -> WebSocketConfigView {
        WebSocketConfigView {
            config_type: Some("ws"@),
            path: None,
            headers: None,
            max_early_data: None,
            early_data_header_name: None,
        }
    }
}

impl WebSocketConfig {
    /// A WebSocket transport with only its type set.
    pub fn new() -> (r: Self)
        ensures
            r@ == WebSocketConfigView::fresh(),
    {
        WebSocketConfig {
            config_type: Some("ws".to_owned()),
            path: None,
            headers: None,
            max_early_data: None,
            early_data_header_name: None,
        }
    }
}

impl WebSocketConfigView {
    /// The entries of the record that stands for the value: one for each
    /// field that is set, in the order of the fields.
    pub open spec fn record(self) -> Entries {
        let es = Seq::empty();
        let es = put(es, Key::Type, present(self.config_type, |x: Seq<char>| text_json(x)));
        let es = put(es, Key::Path, present(self.path, |x: Seq<char>| text_json(x)));
        let es = put(es, Key::Headers, present(self.headers, |x: Seq<(Seq<char>, Seq<char>)>| text_table_json(x)));
        let es = put(es, Key::MaxEarlyData, present(self.max_early_data, |x: u16| u16_json(x)));
        let es = put(es, Key::EarlyDataHeaderName, present(self.early_data_header_name, |x: Seq<char>| text_json(x)));
        es
    }

    /// The record that stands for the value.
    pub open spec fn to_json(self) -> JsonView {
        JsonView::Record(self.record())
    }

    /// The value that the entries of an object stand for. Fails where an
    /// entry holds a value of the wrong shape.
    pub open spec fn from_record(es: Entries) -> Option<WebSocketConfigView> {
        let config_type = optional(get(es, Key::Type), |j: JsonView| json_text(j));
        let path = optional(get(es, Key::Path), |j: JsonView| json_text(j));
        let headers = optional(get(es, Key::Headers), |j: JsonView| json_text_table(j));
        let max_early_data = optional(get(es, Key::MaxEarlyData), |j: JsonView| json_u16(j));
        let early_data_header_name = optional(get(es, Key::EarlyDataHeaderName), |j: JsonView| json_text(j));
        if config_type is Some
            && path is Some
            && headers is Some
            && max_early_data is Some
            && early_data_header_name is Some {
            Some(
                WebSocketConfigView {
                    config_type: config_type->0,
                    path: path->0,
                    headers: headers->0,
                    max_early_data: max_early_data->0,
                    early_data_header_name: early_data_header_name->0,
                },
            )
        } else {
            None
        }
    }

    /// The value that an object stands for; none for a value that is no
    /// object.
    pub open spec fn from_json(j: JsonView) -> Option<WebSocketConfigView> {
        match entries_of(j) {
            Some(es) => WebSocketConfigView::from_record(es),
            None => None,
        }
    }

    /// Whether the value is written in a form from which it is read back:
    /// every value of this type is.
    pub open spec fn canonical(self) -> bool {
        true
    }

    /// The value is read back from the record that stands for it.
    pub proof fn lemma_round_trip(self)
        ensures
            WebSocketConfigView::from_record(self.record()) == Some(self),
            WebSocketConfigView::from_json(self.to_json()) == Some(self),
    {
        broadcast use {lemma_get_empty, lemma_get_put, lemma_get_merge};

        let es = self.record();
        assert(optional(get(es, Key::Type), |j: JsonView| json_text(j)) == Some(self.config_type));
        assert(optional(get(es, Key::Path), |j: JsonView| json_text(j)) == Some(self.path));
        match self.headers {
            Some(x) => {
                lemma_text_table(x);
            },
            None => {},
        }
        assert(optional(get(es, Key::Headers), |j: JsonView| json_text_table(j)) == Some(self.headers));
        assert(optional(get(es, Key::MaxEarlyData), |j: JsonView| json_u16(j)) == Some(self.max_early_data));
        assert(optional(get(es, Key::EarlyDataHeaderName), |j: JsonView| json_text(j)) == Some(self.early_data_header_name));
    }
}

impl WebSocketConfig {
    /// The entries of the record that stands for the value, as
    /// `WebSocketConfigView::record` lists them.
    pub fn record(&self) -> (r: Vec<(Key, Json)>)
        ensures
            r.deep_view() == self@.record(),
    {
        let mut es: Vec<(Key, Json)> = no_entries();
        let ghost s = Seq::<(Key, JsonView)>::empty();
        let value = match &self.config_type {
            Some(x) => Some(Json::Text(x.clone())),
            None => None,
        };
        put_field(&mut es, Key::Type, value);
        let ghost s = put(s, Key::Type, present(self@.config_type, |x: Seq<char>| text_json(x)));
        assert(es.deep_view() == s);
        let value = match &self.path {
            Some(x) => Some(Json::Text(x.clone())),
            None => None,
        };
        put_field(&mut es, Key::Path, value);
        let ghost s = put(s, Key::Path, present(self@.path, |x: Seq<char>| text_json(x)));
        assert(es.deep_view() == s);
        let value = match &self.headers {
            Some(x) => Some(write_text_table(x)),
            None => None,
        };
        put_field(&mut es, Key::Headers, value);
        let ghost s = put(s, Key::Headers, present(self@.headers, |x: Seq<(Seq<char>, Seq<char>)>| text_table_json(x)));
        assert(es.deep_view() == s);
        let value = match &self.max_early_data {
            Some(x) => Some(Json::Unsigned(*x as u64)),
            None => None,
        };
        put_field(&mut es, Key::MaxEarlyData, value);
        let ghost s = put(s, Key::MaxEarlyData, present(self@.max_early_data, |x: u16| u16_json(x)));
        assert(es.deep_view() == s);
        let value = match &self.early_data_header_name {
            Some(x) => Some(Json::Text(x.clone())),
            None => None,
        };
        put_field(&mut es, Key::EarlyDataHeaderName, value);
        let ghost s = put(s, Key::EarlyDataHeaderName, present(self@.early_data_header_name, |x: Seq<char>| text_json(x)));
        assert(es.deep_view() == s);
        es
    }

    /// The record that stands for the value.
    pub fn to_json(&self) -> (r: Json)
        ensures
            r@ == self@.to_json(),
    {
        let r = Json::Record(self.record());
        proof {
            lemma_json_view(r);
        }
        r
    }

    /// Reads the value from the entries of an object, as
    /// `WebSocketConfigView::from_record` says.
    pub fn from_record(es: &Vec<(Key, &Json)>) -> (r: Result<WebSocketConfig, SchemaMismatch>)
        ensures
            match r {
                Ok(x) => WebSocketConfigView::from_record(es.deep_view()) == Some(x@),
                Err(_) => WebSocketConfigView::from_record(es.deep_view()) is None,
            },
    {
        let config_type = match get_field(es, Key::Type) {
            Some(j) => if is_null(j) {
                None
            } else {
                match read_text(j) {
                    Ok(x) => Some(x),
                    Err(e) => {
                        return Err(e);
                    },
                }
            },
            None => None,
        };
        assert(optional(get(es.deep_view(), Key::Type), |j: JsonView| json_text(j)) == Some(config_type.deep_view()));
        let path = match get_field(es, Key::Path) {
            Some(j) => if is_null(j) {
                None
            } else {
                match read_text(j) {
                    Ok(x) => Some(x),
                    Err(e) => {
                        return Err(e);
                    },
                }
            },
            None => None,
        };
        assert(optional(get(es.deep_view(), Key::Path), |j: JsonView| json_text(j)) == Some(path.deep_view()));
        let headers = match get_field(es, Key::Headers) {
            Some(j) => if is_null(j) {
                None
            } else {
                match read_text_table(j) {
                    Ok(x) => Some(x),
                    Err(e) => {
                        return Err(e);
                    },
                }
            },
            None => None,
        };
        assert(optional(get(es.deep_view(), Key::Headers), |j: JsonView| json_text_table(j)) == Some(headers.deep_view()));
        let max_early_data = match get_field(es, Key::MaxEarlyData) {
            Some(j) => if is_null(j) {
                None
            } else {
                match read_u16(j) {
                    Ok(x) => Some(x),
                    Err(e) => {
                        return Err(e);
                    },
                }
            },
            None => None,
        };
        assert(optional(get(es.deep_view(), Key::MaxEarlyData), |j: JsonView| json_u16(j)) == Some(max_early_data.deep_view()));
        let early_data_header_name = match get_field(es, Key::EarlyDataHeaderName) {
            Some(j) => if is_null(j) {
                None
            } else {
                match read_text(j) {
                    Ok(x) => Some(x),
                    Err(e) => {
                        return Err(e);
                    },
                }
            },
            None => None,
        };
        assert(optional(get(es.deep_view(), Key::EarlyDataHeaderName), |j: JsonView| json_text(j)) == Some(early_data_header_name.deep_view()));
        Ok(WebSocketConfig { config_type, path, headers, max_early_data, early_data_header_name })
    }

    /// Reads the value from an object, as `WebSocketConfigView::from_json` says.
    pub fn from_json(j: &Json) -> (r: Result<WebSocketConfig, SchemaMismatch>)
        ensures
            match r {
                Ok(x) => WebSocketConfigView::from_json(j@) == Some(x@),
                Err(_) => WebSocketConfigView::from_json(j@) is None,
            },
    {
        match read_entries(j) {
            Ok(es) => WebSocketConfig::from_record(&es),
            Err(e) => Err(e),
        }
    }
}

/// A gRPC transport.
#[derive(Debug, Clone, PartialEq)]
pub struct GrpcConfig {
    pub config_type: Option<String>,
    pub service_name: Option<String>,
    pub idle_timeout: Option<String>,
    pub ping_timeout: Option<String>,
    pub permit_without_stream: Option<bool>,
}

/// What a [`GrpcConfig`] holds, with every text as its characters.
pub struct GrpcConfigView {
    pub config_type: Option<Seq<char>>,
    pub service_name: Option<Seq<char>>,
    pub idle_timeout: Option<Seq<char>>,
    pub ping_timeout: Option<Seq<char>>,
    pub permit_without_stream: Option<bool>,
}

impl DeepView for GrpcConfig {
    type V = GrpcConfigView;

    open spec fn deep_view(&self) -> GrpcConfigView {
        GrpcConfigView {
            config_type: self.config_type.deep_view(),
            service_name: self.service_name.deep_view(),
            idle_timeout: self.idle_timeout.deep_view(),
            ping_timeout: self.ping_timeout.deep_view(),
            permit_without_stream: self.permit_without_stream.deep_view(),
        }
    }
}

impl View for GrpcConfig {
    type V = GrpcConfigView;

    open spec fn view(&self) -> GrpcConfigView {
        self.deep_view()
    }
}

impl GrpcConfigView {
    /// The view of what [`GrpcConfig::new`] returns.
    pub open spec fn fresh() -> GrpcConfigView {
        GrpcConfigView {
            config_type: Some("gprc"@),
            service_name: None,
            idle_timeout: Some("15s"@),
            ping_timeout: Some("15s"@),
            permit_without_stream: Some(false),
        }
    }
}

impl GrpcConfig {
    /// A gRPC transport with its type and timeouts set, and no service name.
    pub fn new() -> (r: Self)
        ensures
            r@ == GrpcConfigView::fresh(),
    {
        GrpcConfig {
            config_type: Some("gprc".to_owned()),
            service_name: None,
            idle_timeout: Some("15s".to_owned()),
            ping_timeout: Some("15s".to_owned()),
            permit_without_stream: Some(false),
        }
    }
}

impl GrpcConfigView {
    /// The entries of the record that stands for the value: one for each
    /// field that is set, in the order of the fields.
    pub open spec fn record(self) -> Entries {
        let es = Seq::empty();
        let es = put(es, Key::Type, present(self.config_type, |x: Seq<char>| text_json(x)));
        let es = put(es, Key::ServiceName, present(self.service_name, |x: Seq<char>| text_json(x)));
        let es = put(es, Key::IdleTimeout, present(self.idle_timeout, |x: Seq<char>| text_json(x)));
        let es = put(es, Key::PingTimeout, present(self.ping_timeout, |x: Seq<char>| text_json(x)));
        let es = put(es, Key::PermitWithoutStream, present(self.permit_without_stream, |x: bool| bool_json(x)));
        es
    }

    /// The record that stands for the value.
    pub open spec fn to_json(self) -> JsonView {
        JsonView::Record(self.record())
    }

    /// The value that the entries of an object stand for. Fails where an
    /// entry holds a value of the wrong shape.
    pub open spec fn from_record(es: Entries) -> Option<GrpcConfigView> {
        let config_type = optional(get(es, Key::Type), |j: JsonView| json_text(j));
        let service_name = optional(get(es, Key::ServiceName), |j: JsonView| json_text(j));
        let idle_timeout = optional(get(es, Key::IdleTimeout), |j: JsonView| json_text(j));
        let ping_timeout = optional(get(es, Key::PingTimeout), |j: JsonView| json_text(j));
        let permit_without_stream = optional(get(es, Key::PermitWithoutStream), |j: JsonView| json_bool(j));
        if config_type is Some
            && service_name is Some
            && idle_timeout is Some
            && ping_timeout is Some
            && permit_without_stream is Some {
            Some(
                GrpcConfigView {
                    config_type: config_type->0,
                    service_name: service_name->0,
                    idle_timeout: idle_timeout->0,
                    ping_timeout: ping_timeout->0,
                    permit_without_stream: permit_without_stream->0,
                },
            )
        } else {
            None
        }
    }

    /// The value that an object stands for; none for a value that is no
    /// object.
    pub open spec fn from_json(j: JsonView) -> Option<GrpcConfigView> {
        match entries_of(j) {
            Some(es) => GrpcConfigView::from_record(es),
            None => None,
        }
    }

    /// Whether the value is written in a form from which it is read back:
    /// every value of this type is.
    pub open spec fn canonical(self) -> bool {
        true
    }

    /// The value is read back from the record that stands for it.
    pub proof fn lemma_round_trip(self)
        ensures
            GrpcConfigView::from_record(self.record()) == Some(self),
            GrpcConfigView::from_json(self.to_json()) == Some(self),
    {
        broadcast use {lemma_get_empty, lemma_get_put, lemma_get_merge};

        let es = self.record();
        assert(optional(get(es, Key::Type), |j: JsonView| json_text(j)) == Some(self.config_type));
        assert(optional(get(es, Key::ServiceName), |j: JsonView| json_text(j)) == Some(self.service_name));
        assert(optional(get(es, Key::IdleTimeout), |j: JsonView| json_text(j)) == Some(self.idle_timeout));
        assert(optional(get(es, Key::PingTimeout), |j: JsonView| json_text(j)) == Some(self.ping_timeout));
        assert(optional(get(es, Key::PermitWithoutStream), |j: JsonView| json_bool(j)) == Some(self.permit_without_stream));
    }
}

impl GrpcConfig {
    /// The entries of the record that stands for the value, as
    /// `GrpcConfigView::record` lists them.
    pub fn record(&self) -> (r: Vec<(Key, Json)>)
        ensures
            r.deep_view() == self@.record(),
    {
        let mut es: Vec<(Key, Json)> = no_entries();
        let ghost s = Seq::<(Key, JsonView)>::empty();
        let value = match &self.config_type {
            Some(x) => Some(Json::Text(x.clone())),
            None => None,
        };
        put_field(&mut es, Key::Type, value);
        let ghost s = put(s, Key::Type, present(self@.config_type, |x: Seq<char>| text_json(x)));
        assert(es.deep_view() == s);
        let value = match &self.service_name {
            Some(x) => Some(Json::Text(x.clone())),
            None => None,
        };
        put_field(&mut es, Key::ServiceName, value);
        let ghost s = put(s, Key::ServiceName, present(self@.service_name, |x: Seq<char>| text_json(x)));
        assert(es.deep_view() == s);
        let value = match &self.idle_timeout {
            Some(x) => Some(Json::Text(x.clone())),
            None => None,
        };
        put_field(&mut es, Key::IdleTimeout, value);
        let ghost s = put(s, Key::IdleTimeout, present(self@.idle_timeout, |x: Seq<char>| text_json(x)));
        assert(es.deep_view() == s);
        let value = match &self.ping_timeout {
            Some(x) => Some(Json::Text(x.clone())),
            None => None,
        };
        put_field(&mut es, Key::PingTimeout, value);
        let ghost s = put(s, Key::PingTimeout, present(self@.ping_timeout, |x: Seq<char>| text_json(x)));
        assert(es.deep_view() == s);
        let value = match &self.permit_without_stream {
            Some(x) => Some(Json::Bool(*x)),
            None => None,
        };
        put_field(&mut es, Key::PermitWithoutStream, value);
        let ghost s = put(s, Key::PermitWithoutStream, present(self@.permit_without_stream, |x: bool| bool_json(x)));
        assert(es.deep_view() == s);
        es
    }

    /// The record that stands for the value.
    pub fn to_json(&self) -> (r: Json)
        ensures
            r@ == self@.to_json(),
    {
        let r = Json::Record(self.record());
        proof {
            lemma_json_view(r);
        }
        r
    }

    /// Reads the value from the entries of an object, as
    /// `GrpcConfigView::from_record` says.
    pub fn from_record(es: &Vec<(Key, &Json)>) -> (r: Result<GrpcConfig, SchemaMismatch>)
        ensures
            match r {
                Ok(x) => GrpcConfigView::from_record(es.deep_view()) == Some(x@),
                Err(_) => GrpcConfigView::from_record(es.deep_view()) is None,
            },
    {
        let config_type = match get_field(es, Key::Type) {
            Some(j) => if is_null(j) {
                None
            } else {
                match read_text(j) {
                    Ok(x) => Some(x),
                    Err(e) => {
                        return Err(e);
                    },
                }
            },
            None => None,
        };
        assert(optional(get(es.deep_view(), Key::Type), |j: JsonView| json_text(j)) == Some(config_type.deep_view()));
        let service_name = match get_field(es, Key::ServiceName) {
            Some(j) => if is_null(j) {
                None
            } else {
                match read_text(j) {
                    Ok(x) => Some(x),
                    Err(e) => {
                        return Err(e);
                    },
                }
            },
            None => None,
        };
        assert(optional(get(es.deep_view(), Key::ServiceName), |j: JsonView| json_text(j)) == Some(service_name.deep_view()));
        let idle_timeout = match get_field(es, Key::IdleTimeout) {
            Some(j) => if is_null(j) {
                None
            } else {
                match read_text(j) {
                    Ok(x) => Some(x),
                    Err(e) => {
                        return Err(e);
                    },
                }
            },
            None => None,
        };
        assert(optional(get(es.deep_view(), Key::IdleTimeout), |j: JsonView| json_text(j)) == Some(idle_timeout.deep_view()));
        let ping_timeout = match get_field(es, Key::PingTimeout) {
            Some(j) => if is_null(j) {
                None
            } else {
                match read_text(j) {
                    Ok(x) => Some(x),
                    Err(e) => {
                        return Err(e);
                    },
                }
            },
            None => None,
        };
        assert(optional(get(es.deep_view(), Key::PingTimeout), |j: JsonView| json_text(j)) == Some(ping_timeout.deep_view()));
        let permit_without_stream = match get_field(es, Key::PermitWithoutStream) {
            Some(j) => if is_null(j) {
                None
            } else {
                match read_bool(j) {
                    Ok(x) => Some(x),
                    Err(e) => {
                        return Err(e);
                    },
                }
            },
            None => None,
        };
        assert(optional(get(es.deep_view(), Key::PermitWithoutStream), |j: JsonView| json_bool(j)) == Some(permit_without_stream.deep_view()));
        Ok(GrpcConfig { config_type, service_name, idle_timeout, ping_timeout, permit_without_stream })
    }

    /// Reads the value from an object, as `GrpcConfigView::from_json` says.
    pub fn from_json(j: &Json) -> (r: Result<GrpcConfig, SchemaMismatch>)
        ensures
            match r {
                Ok(x) => GrpcConfigView::from_json(j@) == Some(x@),
                Err(_) => GrpcConfigView::from_json(j@) is None,
            },
    {
        match read_entries(j) {
            Ok(es) => GrpcConfig::from_record(&es),
            Err(e) => Err(e),
        }
    }
}

/// A QUIC transport.
#[derive(Debug, Clone, PartialEq)]
pub struct QuicConfig {
    pub config_type: Option<String>,
}

/// What a [`QuicConfig`] holds, with every text as its characters.
pub struct QuicConfigView {
    pub config_type: Option<Seq<char>>,
}

impl DeepView for QuicConfig {
    type V = QuicConfigView;

    open spec fn deep_view(&self) -> QuicConfigView {
        QuicConfigView {
            config_type: self.config_type.deep_view(),
        }
    }
}

impl View for QuicConfig {
    type V = QuicConfigView;

    open spec fn view(&self) -> QuicConfigView {
        self.deep_view()
    }
}

impl QuicConfigView {
    /// The view of what [`QuicConfig::new`] returns.
    pub open spec fn fresh() -> QuicConfigView {
        QuicConfigView {
            config_type: Some("quic"@),
        }
    }
}

impl QuicConfig {
    /// A QUIC transport.
    pub fn new() -> (r: Self)
        ensures
            r@ == QuicConfigView::fresh(),
    {
        QuicConfig {
            config_type: Some("quic".to_owned()),
        }
    }
}

impl QuicConfigView {
    /// The entries of the record that stands for the value: one for each
    /// field that is set, in the order of the fields.
    pub open spec fn record(self) -> Entries {
        let es = Seq::empty();
        let es = put(es, Key::Type, present(self.config_type, |x: Seq<char>| text_json(x)));
        es
    }

    /// The record that stands for the value.
    pub open spec fn to_json(self) -> JsonView {
        JsonView::Record(self.record())
    }

    /// The value that the entries of an object stand for. Fails where an
    /// entry holds a value of the wrong shape.
    pub open spec fn from_record(es: Entries) -> Option<QuicConfigView> {
        let config_type = optional(get(es, Key::Type), |j: JsonView| json_text(j));
        if config_type is Some {
            Some(
                QuicConfigView {
                    config_type: config_type->0,
                },
            )
        } else {
            None
        }
    }

    /// The value that an object stands for; none for a value that is no
    /// object.
    pub open spec fn from_json(j: JsonView) -> Option<QuicConfigView> {
        match entries_of(j) {
            Some(es) => QuicConfigView::from_record(es),
            None => None,
        }
    }

    /// Whether the value is written in a form from which it is read back:
    /// every value of this type is.
    pub open spec fn canonical(self) -> bool {
        true
    }

    /// The value is read back from the record that stands for it.
    pub proof fn lemma_round_trip(self)
        ensures
            QuicConfigView::from_record(self.record()) == Some(self),
            QuicConfigView::from_json(self.to_json()) == Some(self),
    {
        broadcast use {lemma_get_empty, lemma_get_put, lemma_get_merge};

        let es = self.record();
        assert(optional(get(es, Key::Type), |j: JsonView| json_text(j)) == Some(self.config_type));
    }
}

impl QuicConfig {
    /// The entries of the record that stands for the value, as
    /// `QuicConfigView::record` lists them.
    pub fn record(&self) -> (r: Vec<(Key, Json)>)
        ensures
            r.deep_view() == self@.record(),
    {
        let mut es: Vec<(Key, Json)> = no_entries();
        let ghost s = Seq::<(Key, JsonView)>::empty();
        let value = match &self.config_type {
            Some(x) => Some(Json::Text(x.clone())),
            None => None,
        };
        put_field(&mut es, Key::Type, value);
        let ghost s = put(s, Key::Type, present(self@.config_type, |x: Seq<char>| text_json(x)));
        assert(es.deep_view() == s);
        es
    }

    /// The record that stands for the value.
    pub fn to_json(&self) -> (r: Json)
        ensures
            r@ == self@.to_json(),
    {
        let r = Json::Record(self.record());
        proof {
            lemma_json_view(r);
        }
        r
    }

    /// Reads the value from the entries of an object, as
    /// `QuicConfigView::from_record` says.
    pub fn from_record(es: &Vec<(Key, &Json)>) -> (r: Result<QuicConfig, SchemaMismatch>)
        ensures
            match r {
                Ok(x) => QuicConfigView::from_record(es.deep_view()) == Some(x@),
                Err(_) => QuicConfigView::from_record(es.deep_view()) is None,
            },
    {
        let config_type = match get_field(es, Key::Type) {
            Some(j) => if is_null(j) {
                None
            } else {
                match read_text(j) {
                    Ok(x) => Some(x),
                    Err(e) => {
                        return Err(e);
                    },
                }
            },
            None => None,
        };
        assert(optional(get(es.deep_view(), Key::Type), |j: JsonView| json_text(j)) == Some(config_type.deep_view()));
        Ok(QuicConfig { config_type })
    }

    /// Reads the value from an object, as `QuicConfigView::from_json` says.
    pub fn from_json(j: &Json) -> (r: Result<QuicConfig, SchemaMismatch>)
        ensures
            match r {
                Ok(x) => QuicConfigView::from_json(j@) == Some(x@),
                Err(_) => QuicConfigView::from_json(j@) is None,
            },
    {
        match read_entries(j) {
            Ok(es) => QuicConfig::from_record(&es),
            Err(e) => Err(e),
        }
    }
}

/// An HTTP transport.
#[derive(Debug, Clone, PartialEq)]
pub struct HttpConfig {
    pub config_type: Option<String>,
    pub host: Option<Vec<String>>,
    pub path: Option<String>,
    pub method: Option<String>,
    pub headers: Option<Vec<(String, String)>>,
    pub idle_timeout: Option<String>,
    pub ping_timeout: Option<String>,
}

/// What a [`HttpConfig`] holds, with every text as its characters.
pub struct HttpConfigView {
    pub config_type: Option<Seq<char>>,
    pub host: Option<Seq<Seq<char>>>,
    pub path: Option<Seq<char>>,
    pub method: Option<Seq<char>>,
    pub headers: Option<Seq<(Seq<char>, Seq<char>)>>,
    pub idle_timeout: Option<Seq<char>>,
    pub ping_timeout: Option<Seq<char>>,
}

impl DeepView for HttpConfig {
    type V = HttpConfigView;

    open spec fn deep_view(&self) -> HttpConfigView {
        HttpConfigView {
            config_type: self.config_type.deep_view(),
            host: self.host.deep_view(),
            path: self.path.deep_view(),
            method: self.method.deep_view(),
            headers: self.headers.deep_view(),
            idle_timeout: self.idle_timeout.deep_view(),
            ping_timeout: self.ping_timeout.deep_view(),
        }
    }
}

impl View for HttpConfig {
    type V = HttpConfigView;

    open spec fn view(&self) -> HttpConfigView {
        self.deep_view()
    }
}

impl HttpConfigView {
    /// The view of what [`HttpConfig::new`] returns.
    pub open spec fn fresh() -> HttpConfigView {
        HttpConfigView {
            config_type: Some("http"@),
            host: None,
            path: None,
            method: None,
            headers: None,
            idle_timeout: None,
            ping_timeout: None,
        }
    }
}

impl HttpConfig {
    /// An HTTP transport with only its type set.
    pub fn new() -> (r: Self)
        ensures
            r@ == HttpConfigView::fresh(),
    {
        HttpConfig {
            config_type: Some("http".to_owned()),
            host: None,
            path: None,
            method: None,
            headers: None,
            idle_timeout: None,
            ping_timeout: None,
        }
    }
}

impl HttpConfigView {
    /// The entries of the record that stands for the value: one for each
    /// field that is set, in the order of the fields.
    pub open spec fn record(self) -> Entries {
        let es = Seq::empty();
        let es = put(es, Key::Type, present(self.config_type, |x: Seq<char>| text_json(x)));
        let es = put(es, Key::Host, present(self.host, |x: Seq<Seq<char>>| text_list_json(x)));
        let es = put(es, Key::Path, present(self.path, |x: Seq<char>| text_json(x)));
        let es = put(es, Key::Method, present(self.method, |x: Seq<char>| text_json(x)));
        let es = put(es, Key::Headers, present(self.headers, |x: Seq<(Seq<char>, Seq<char>)>| text_table_json(x)));
        let es = put(es, Key::IdleTimeout, present(self.idle_timeout, |x: Seq<char>| text_json(x)));
        let es = put(es, Key::PingTimeout, present(self.ping_timeout, |x: Seq<char>| text_json(x)));
        es
    }

    /// The record that stands for the value.
    pub open spec fn to_json(self) -> JsonView {
        JsonView::Record(self.record())
    }

    /// The value that the entries of an object stand for. Fails where an
    /// entry holds a value of the wrong shape.
    pub open spec fn from_record(es: Entries) -> Option<HttpConfigView> {
        let config_type = optional(get(es, Key::Type), |j: JsonView| json_text(j));
        let host = optional(get(es, Key::Host), |j: JsonView| json_text_list(j));
        let path = optional(get(es, Key::Path), |j: JsonView| json_text(j));
        let method = optional(get(es, Key::Method), |j: JsonView| json_text(j));
        let headers = optional(get(es, Key::Headers), |j: JsonView| json_text_table(j));
        let idle_timeout = optional(get(es, Key::IdleTimeout), |j: JsonView| json_text(j));
        let ping_timeout = optional(get(es, Key::PingTimeout), |j: JsonView| json_text(j));
        if config_type is Some
            && host is Some
            && path is Some
            && method is Some
            && headers is Some
            && idle_timeout is Some
            && ping_timeout is Some {
            Some(
                HttpConfigView {
                    config_type: config_type->0,
                    host: host->0,
                    path: path->0,
                    method: method->0,
                    headers: headers->0,
                    idle_timeout: idle_timeout->0,
                    ping_timeout: ping_timeout->0,
                },
            )
        } else {
            None
        }
    }

    /// The value that an object stands for; none for a value that is no
    /// object.
    pub open spec fn from_json(j: JsonView) -> Option<HttpConfigView> {
        match entries_of(j) {
            Some(es) => HttpConfigView::from_record(es),
            None => None,
        }
    }

    /// Whether the value is written in a form from which it is read back:
    /// every value of this type is.
    pub open spec fn canonical(self) -> bool {
        true
    }

    /// The value is read back from the record that stands for it.
    pub proof fn lemma_round_trip(self)
        ensures
            HttpConfigView::from_record(self.record()) == Some(self),
            HttpConfigView::from_json(self.to_json()) == Some(self),
    {
        broadcast use {lemma_get_empty, lemma_get_put, lemma_get_merge};

        let es = self.record();
        assert(optional(get(es, Key::Type), |j: JsonView| json_text(j)) == Some(self.config_type));
        match self.host {
            Some(x) => {
                lemma_text_list(x);
            },
            None => {},
        }
        assert(optional(get(es, Key::Host), |j: JsonView| json_text_list(j)) == Some(self.host));
        assert(optional(get(es, Key::Path), |j: JsonView| json_text(j)) == Some(self.path));
        assert(optional(get(es, Key::Method), |j: JsonView| json_text(j)) == Some(self.method));
        match self.headers {
            Some(x) => {
                lemma_text_table(x);
            },
            None => {},
        }
        assert(optional(get(es, Key::Headers), |j: JsonView| json_text_table(j)) == Some(self.headers));
        assert(optional(get(es, Key::IdleTimeout), |j: JsonView| json_text(j)) == Some(self.idle_timeout));
        assert(optional(get(es, Key::PingTimeout), |j: JsonView| json_text(j)) == Some(self.ping_timeout));
    }
}

impl HttpConfig {
    /// The entries of the record that stands for the value, as
    /// `HttpConfigView::record` lists them.
    pub fn record(&self) -> (r: Vec<(Key, Json)>)
        ensures
            r.deep_view() == self@.record(),
    {
        let mut es: Vec<(Key, Json)> = no_entries();
        let ghost s = Seq::<(Key, JsonView)>::empty();
        let value = match &self.config_type {
            Some(x) => Some(Json::Text(x.clone())),
            None => None,
        };
        put_field(&mut es, Key::Type, value);
        let ghost s = put(s, Key::Type, present(self@.config_type, |x: Seq<char>| text_json(x)));
        assert(es.deep_view() == s);
        let value = match &self.host {
            Some(x) => Some(write_text_list(x)),
            None => None,
        };
        put_field(&mut es, Key::Host, value);
        let ghost s = put(s, Key::Host, present(self@.host, |x: Seq<Seq<char>>| text_list_json(x)));
        assert(es.deep_view() == s);
        let value = match &self.path {
            Some(x) => Some(Json::Text(x.clone())),
            None => None,
        };
        put_field(&mut es, Key::Path, value);
        let ghost s = put(s, Key::Path, present(self@.path, |x: Seq<char>| text_json(x)));
        assert(es.deep_view() == s);
        let value = match &self.method {
            Some(x) => Some(Json::Text(x.clone())),
            None => None,
        };
        put_field(&mut es, Key::Method, value);
        let ghost s = put(s, Key::Method, present(self@.method, |x: Seq<char>| text_json(x)));
        assert(es.deep_view() == s);
        let value = match &self.headers {
            Some(x) => Some(write_text_table(x)),
            None => None,
        };
        put_field(&mut es, Key::Headers, value);
        let ghost s = put(s, Key::Headers, present(self@.headers, |x: Seq<(Seq<char>, Seq<char>)>| text_table_json(x)));
        assert(es.deep_view() == s);
        let value = match &self.idle_timeout {
            Some(x) => Some(Json::Text(x.clone())),
            None => None,
        };
        put_field(&mut es, Key::IdleTimeout, value);
        let ghost s = put(s, Key::IdleTimeout, present(self@.idle_timeout, |x: Seq<char>| text_json(x)));
        assert(es.deep_view() == s);
        let value = match &self.ping_timeout {
            Some(x) => Some(Json::Text(x.clone())),
            None => None,
        };
        put_field(&mut es, Key::PingTimeout, value);
        let ghost s = put(s, Key::PingTimeout, present(self@.ping_timeout, |x: Seq<char>| text_json(x)));
        assert(es.deep_view() == s);
        es
    }

    /// The record that stands for the value.
    pub fn to_json(&self) -> (r: Json)
        ensures
            r@ == self@.to_json(),
    {
        let r = Json::Record(self.record());
        proof {
            lemma_json_view(r);
        }
        r
    }

    /// Reads the value from the entries of an object, as
    /// `HttpConfigView::from_record` says.
    pub fn from_record(es: &Vec<(Key, &Json)>) -> (r: Result<HttpConfig, SchemaMismatch>)
        ensures
            match r {
                Ok(x) => HttpConfigView::from_record(es.deep_view()) == Some(x@),
                Err(_) => HttpConfigView::from_record(es.deep_view()) is None,
            },
    {
        let config_type = match get_field(es, Key::Type) {
            Some(j) => if is_null(j) {
                None
            } else {
                match read_text(j) {
                    Ok(x) => Some(x),
                    Err(e) => {
                        return Err(e);
                    },
                }
            },
            None => None,
        };
        assert(optional(get(es.deep_view(), Key::Type), |j: JsonView| json_text(j)) == Some(config_type.deep_view()));
        let host = match get_field(es, Key::Host) {
            Some(j) => if is_null(j) {
                None
            } else {
                match read_text_list(j) {
                    Ok(x) => Some(x),
                    Err(e) => {
                        return Err(e);
                    },
                }
            },
            None => None,
        };
        assert(optional(get(es.deep_view(), Key::Host), |j: JsonView| json_text_list(j)) == Some(host.deep_view()));
        let path = match get_field(es, Key::Path) {
            Some(j) => if is_null(j) {
                None
            } else {
                match read_text(j) {
                    Ok(x) => Some(x),
                    Err(e) => {
                        return Err(e);
                    },
                }
            },
            None => None,
        };
        assert(optional(get(es.deep_view(), Key::Path), |j: JsonView| json_text(j)) == Some(path.deep_view()));
        let method = match get_field(es, Key::Method) {
            Some(j) => if is_null(j) {
                None
            } else {
                match read_text(j) {
                    Ok(x) => Some(x),
                    Err(e) => {
                        return Err(e);
                    },
                }
            },
            None => None,
        };
        assert(optional(get(es.deep_view(), Key::Method), |j: JsonView| json_text(j)) == Some(method.deep_view()));
        let headers = match get_field(es, Key::Headers) {
            Some(j) => if is_null(j) {
                None
            } else {
                match read_text_table(j) {
                    Ok(x) => Some(x),
                    Err(e) => {
                        return Err(e);
                    },
                }
            },
            None => None,
        };
        assert(optional(get(es.deep_view(), Key::Headers), |j: JsonView| json_text_table(j)) == Some(headers.deep_view()));
        let idle_timeout = match get_field(es, Key::IdleTimeout) {
            Some(j) => if is_null(j) {
                None
            } else {
                match read_text(j) {
                    Ok(x) => Some(x),
                    Err(e) => {
                        return Err(e);
                    },
                }
            },
            None => None,
        };
        assert(optional(get(es.deep_view(), Key::IdleTimeout), |j: JsonView| json_text(j)) == Some(idle_timeout.deep_view()));
        let ping_timeout = match get_field(es, Key::PingTimeout) {
            Some(j) => if is_null(j) {
                None
            } else {
                match read_text(j) {
                    Ok(x) => Some(x),
                    Err(e) => {
                        return Err(e);
                    },
                }
            },
            None => None,
        };
        assert(optional(get(es.deep_view(), Key::PingTimeout), |j: JsonView| json_text(j)) == Some(ping_timeout.deep_view()));
        Ok(HttpConfig { config_type, host, path, method, headers, idle_timeout, ping_timeout })
    }

    /// Reads the value from an object, as `HttpConfigView::from_json` says.
    pub fn from_json(j: &Json) -> (r: Result<HttpConfig, SchemaMismatch>)
        ensures
            match r {
                Ok(x) => HttpConfigView::from_json(j@) == Some(x@),
                Err(_) => HttpConfigView::from_json(j@) is None,
            },
    {
        match read_entries(j) {
            Ok(es) => HttpConfig::from_record(&es),
            Err(e) => Err(e),
        }
    }
}

/// An HTTP-upgrade transport.
#[derive(Debug, Clone, PartialEq)]
pub struct HttpUpdateConfig {
    pub config_type: Option<String>,
    pub host: Option<Vec<String>>,
    pub path: Option<String>,
    pub headers: Option<Vec<(String, String)>>,
}

/// What a [`HttpUpdateConfig`] holds, with every text as its characters.
pub struct HttpUpdateConfigView {
    pub config_type: Option<Seq<char>>,
    pub host: Option<Seq<Seq<char>>>,
    pub path: Option<Seq<char>>,
    pub headers: Option<Seq<(Seq<char>, Seq<char>)>>,
}

impl DeepView for HttpUpdateConfig {
    type V = HttpUpdateConfigView;

    open spec fn deep_view(&self) -> HttpUpdateConfigView {
        HttpUpdateConfigView {
            config_type: self.config_type.deep_view(),
            host: self.host.deep_view(),
            path: self.path.deep_view(),
            headers: self.headers.deep_view(),
        }
    }
}

impl View for HttpUpdateConfig {
    type V = HttpUpdateConfigView;

    open spec fn view(&self) -> HttpUpdateConfigView {
        self.deep_view()
    }
}

impl HttpUpdateConfigView {
    /// The view of what [`HttpUpdateConfig::new`] returns.
    pub open spec fn fresh() -> HttpUpdateConfigView {
        HttpUpdateConfigView {
            config_type: Some("httpupgrade"@),
            host: None,
            path: None,
            headers: None,
        }
    }
}

impl HttpUpdateConfig {
    /// An HTTP-upgrade transport with only its type set.
    pub fn new() -> (r: Self)
        ensures
            r@ == HttpUpdateConfigView::fresh(),
    {
        HttpUpdateConfig {
            config_type: Some("httpupgrade".to_owned()),
            host: None,
            path: None,
            headers: None,
        }
    }
}

impl HttpUpdateConfigView {
    /// The entries of the record that stands for the value: one for each
    /// field that is set, in the order of the fields.
    pub open spec fn record(self) -> Entries {
        let es = Seq::empty();
        let es = put(es, Key::Type, present(self.config_type, |x: Seq<char>| text_json(x)));
        let es = put(es, Key::Host, present(self.host, |x: Seq<Seq<char>>| text_list_json(x)));
        let es = put(es, Key::Path, present(self.path, |x: Seq<char>| text_json(x)));
        let es = put(es, Key::Headers, present(self.headers, |x: Seq<(Seq<char>, Seq<char>)>| text_table_json(x)));
        es
    }

    /// The record that stands for the value.
    pub open spec fn to_json(self) -> JsonView {
        JsonView::Record(self.record())
    }

    /// The value that the entries of an object stand for. Fails where an
    /// entry holds a value of the wrong shape.
    pub open spec fn from_record(es: Entries) -> Option<HttpUpdateConfigView> {
        let config_type = optional(get(es, Key::Type), |j: JsonView| json_text(j));
        let host = optional(get(es, Key::Host), |j: JsonView| json_text_list(j));
        let path = optional(get(es, Key::Path), |j: JsonView| json_text(j));
        let headers = optional(get(es, Key::Headers), |j: JsonView| json_text_table(j));
        if config_type is Some
            && host is Some
            && path is Some
            && headers is Some {
            Some(
                HttpUpdateConfigView {
                    config_type: config_type->0,
                    host: host->0,
                    path: path->0,
                    headers: headers->0,
                },
            )
        } else {
            None
        }
    }

    /// The value that an object stands for; none for a value that is no
    /// object.
    pub open spec fn from_json(j: JsonView) -> Option<HttpUpdateConfigView> {
        match entries_of(j) {
            Some(es) => HttpUpdateConfigView::from_record(es),
            None => None,
        }
    }

    /// Whether the value is written in a form from which it is read back:
    /// every value of this type is.
    pub open spec fn canonical(self) -> bool {
        true
    }

    /// The value is read back from the record that stands for it.
    pub proof fn lemma_round_trip(self)
        ensures
            HttpUpdateConfigView::from_record(self.record()) == Some(self),
            HttpUpdateConfigView::from_json(self.to_json()) == Some(self),
    {
        broadcast use {lemma_get_empty, lemma_get_put, lemma_get_merge};

        let es = self.record();
        assert(optional(get(es, Key::Type), |j: JsonView| json_text(j)) == Some(self.config_type));
        match self.host {
            Some(x) => {
                lemma_text_list(x);
            },
            None => {},
        }
        assert(optional(get(es, Key::Host), |j: JsonView| json_text_list(j)) == Some(self.host));
        assert(optional(get(es, Key::Path), |j: JsonView| json_text(j)) == Some(self.path));
        match self.headers {
            Some(x) => {
                lemma_text_table(x);
            },
            None => {},
        }
        assert(optional(get(es, Key::Headers), |j: JsonView| json_text_table(j)) == Some(self.headers));
    }
}

impl HttpUpdateConfig {
    /// The entries of the record that stands for the value, as
    /// `HttpUpdateConfigView::record` lists them.
    pub fn record(&self) -> (r: Vec<(Key, Json)>)
        ensures
            r.deep_view() == self@.record(),
    {
        let mut es: Vec<(Key, Json)> = no_entries();
        let ghost s = Seq::<(Key, JsonView)>::empty();
        let value = match &self.config_type {
            Some(x) => Some(Json::Text(x.clone())),
            None => None,
        };
        put_field(&mut es, Key::Type, value);
        let ghost s = put(s, Key::Type, present(self@.config_type, |x: Seq<char>| text_json(x)));
        assert(es.deep_view() == s);
        let value = match &self.host {
            Some(x) => Some(write_text_list(x)),
            None => None,
        };
        put_field(&mut es, Key::Host, value);
        let ghost s = put(s, Key::Host, present(self@.host, |x: Seq<Seq<char>>| text_list_json(x)));
        assert(es.deep_view() == s);
        let value = match &self.path {
            Some(x) => Some(Json::Text(x.clone())),
            None => None,
        };
        put_field(&mut es, Key::Path, value);
        let ghost s = put(s, Key::Path, present(self@.path, |x: Seq<char>| text_json(x)));
        assert(es.deep_view() == s);
        let value = match &self.headers {
            Some(x) => Some(write_text_table(x)),
            None => None,
        };
        put_field(&mut es, Key::Headers, value);
        let ghost s = put(s, Key::Headers, present(self@.headers, |x: Seq<(Seq<char>, Seq<char>)>| text_table_json(x)));
        assert(es.deep_view() == s);
        es
    }

    /// The record that stands for the value.
    pub fn to_json(&self) -> (r: Json)
        ensures
            r@ == self@.to_json(),
    {
        let r = Json::Record(self.record());
        proof {
            lemma_json_view(r);
        }
        r
    }

    /// Reads the value from the entries of an object, as
    /// `HttpUpdateConfigView::from_record` says.
    pub fn from_record(es: &Vec<(Key, &Json)>) -> (r: Result<HttpUpdateConfig, SchemaMismatch>)
        ensures
            match r {
                Ok(x) => HttpUpdateConfigView::from_record(es.deep_view()) == Some(x@),
                Err(_) => HttpUpdateConfigView::from_record(es.deep_view()) is None,
            },
    {
        let config_type = match get_field(es, Key::Type) {
            Some(j) => if is_null(j) {
                None
            } else {
                match read_text(j) {
                    Ok(x) => Some(x),
                    Err(e) => {
                        return Err(e);
                    },
                }
            },
            None => None,
        };
        assert(optional(get(es.deep_view(), Key::Type), |j: JsonView| json_text(j)) == Some(config_type.deep_view()));
        let host = match get_field(es, Key::Host) {
            Some(j) => if is_null(j) {
                None
            } else {
                match read_text_list(j) {
                    Ok(x) => Some(x),
                    Err(e) => {
                        return Err(e);
                    },
                }
            },
            None => None,
        };
        assert(optional(get(es.deep_view(), Key::Host), |j: JsonView| json_text_list(j)) == Some(host.deep_view()));
        let path = match get_field(es, Key::Path) {
            Some(j) => if is_null(j) {
                None
            } else {
                match read_text(j) {
                    Ok(x) => Some(x),
                    Err(e) => {
                        return Err(e);
                    },
                }
            },
            None => None,
        };
        assert(optional(get(es.deep_view(), Key::Path), |j: JsonView| json_text(j)) == Some(path.deep_view()));
        let headers = match get_field(es, Key::Headers) {
            Some(j) => if is_null(j) {
                None
            } else {
                match read_text_table(j) {
                    Ok(x) => Some(x),
                    Err(e) => {
                        return Err(e);
                    },
                }
            },
            None => None,
        };
        assert(optional(get(es.deep_view(), Key::Headers), |j: JsonView| json_text_table(j)) == Some(headers.deep_view()));
        Ok(HttpUpdateConfig { config_type, host, path, headers })
    }

    /// Reads the value from an object, as `HttpUpdateConfigView::from_json` says.
    pub fn from_json(j: &Json) -> (r: Result<HttpUpdateConfig, SchemaMismatch>)
        ensures
            match r {
                Ok(x) => HttpUpdateConfigView::from_json(j@) == Some(x@),
                Err(_) => HttpUpdateConfigView::from_json(j@) is None,
            },
    {
        match read_entries(j) {
            Ok(es) => HttpUpdateConfig::from_record(&es),
            Err(e) => Err(e),
        }
    }
}

/// The transport chosen for an outbound, if any.
#[derive(Debug, Clone, PartialEq)]
pub enum TransportConfig {
    /// No transport was chosen.
    Unset,
    /// Plain TCP: nothing is attached.
    Tcp,
    /// WebSocket.
    WebSocket(WebSocketConfig),
    /// gRPC.
    Grpc(GrpcConfig),
    /// QUIC.
    Quic(QuicConfig),
    /// HTTP.
    Http(HttpConfig),
    /// HTTP upgrade.
    HttpUpdate(HttpUpdateConfig),
}

/// What a [`TransportConfig`] holds, with every text as its characters.
pub enum TransportConfigView {
    Unset,
    Tcp,
    WebSocket(WebSocketConfigView),
    Grpc(GrpcConfigView),
    Quic(QuicConfigView),
    Http(HttpConfigView),
    HttpUpdate(HttpUpdateConfigView),
}

impl DeepView for TransportConfig {
    type V = TransportConfigView;

    open spec fn deep_view(&self) -> TransportConfigView {
        match self {
            TransportConfig::Unset => TransportConfigView::Unset,
            TransportConfig::Tcp => TransportConfigView::Tcp,
            TransportConfig::WebSocket(x) => TransportConfigView::WebSocket(x.deep_view()),
            TransportConfig::Grpc(x) => TransportConfigView::Grpc(x.deep_view()),
            TransportConfig::Quic(x) => TransportConfigView::Quic(x.deep_view()),
            TransportConfig::Http(x) => TransportConfigView::Http(x.deep_view()),
            TransportConfig::HttpUpdate(x) => TransportConfigView::HttpUpdate(x.deep_view()),
        }
    }
}

impl View for TransportConfig {
    type V = TransportConfigView;

    open spec fn view(&self) -> TransportConfigView {
        self.deep_view()
    }
}

impl TransportConfigView {
    /// The record that stands for the transport: that of what it holds.
    pub open spec fn to_json(self) -> JsonView {
        match self {
            TransportConfigView::Unset => JsonView::Null,
            TransportConfigView::Tcp => JsonView::Null,
            TransportConfigView::WebSocket(x) => x.to_json(),
            TransportConfigView::Grpc(x) => x.to_json(),
            TransportConfigView::Quic(x) => x.to_json(),
            TransportConfigView::Http(x) => x.to_json(),
            TransportConfigView::HttpUpdate(x) => x.to_json(),
        }
    }

    /// The transport that an object stands for, of the kind that its type names.
    /// Fails for a value that is no object, and for an object without a
    /// type or with a type that names no kind.
    pub open spec fn from_json(j: JsonView) -> Option<TransportConfigView> {
        match entries_of(j) {
            Some(es) => {
                let kind = get(es, Key::Type);
                if kind == Some(JsonView::Text("ws"@)) {
                    match WebSocketConfigView::from_record(es) {
                        Some(x) => Some(TransportConfigView::WebSocket(x)),
                        None => None,
                    }
                } else if kind == Some(JsonView::Text("gprc"@)) {
                    match GrpcConfigView::from_record(es) {
                        Some(x) => Some(TransportConfigView::Grpc(x)),
                        None => None,
                    }
                } else if kind == Some(JsonView::Text("quic"@)) {
                    match QuicConfigView::from_record(es) {
                        Some(x) => Some(TransportConfigView::Quic(x)),
                        None => None,
                    }
                } else if kind == Some(JsonView::Text("http"@)) {
                    match HttpConfigView::from_record(es) {
                        Some(x) => Some(TransportConfigView::Http(x)),
                        None => None,
                    }
                } else if kind == Some(JsonView::Text("httpupgrade"@)) {
                    match HttpUpdateConfigView::from_record(es) {
                        Some(x) => Some(TransportConfigView::HttpUpdate(x)),
                        None => None,
                    }
                } else {
                    None
                }
            },
            None => None,
        }
    }

    /// Whether the transport is written in a form from which it is read back:
    /// what it holds is, and its type names its kind.
    pub open spec fn canonical(self) -> bool {
        match self {
            TransportConfigView::Unset => false,
            TransportConfigView::Tcp => false,
            TransportConfigView::WebSocket(x) => x.canonical() && x.config_type == Some("ws"@),
            TransportConfigView::Grpc(x) => x.canonical() && x.config_type == Some("gprc"@),
            TransportConfigView::Quic(x) => x.canonical() && x.config_type == Some("quic"@),
            TransportConfigView::Http(x) => x.canonical() && x.config_type == Some("http"@),
            TransportConfigView::HttpUpdate(x) => x.canonical() && x.config_type == Some("httpupgrade"@),
        }
    }

    /// The transport is read back from the record that stands for it.
    pub proof fn lemma_round_trip(self)
        requires
            self.canonical(),
        ensures
            TransportConfigView::from_json(self.to_json()) == Some(self),
    {
        broadcast use {lemma_get_empty, lemma_get_put, lemma_get_merge};

        reveal_strlit("ws");
        assert("ws"@.len() == 2);
        reveal_strlit("gprc");
        assert("gprc"@.len() == 4);
        assert("gprc"@[0] == 'g');
        reveal_strlit("quic");
        assert("quic"@.len() == 4);
        assert("quic"@[0] == 'q');
        reveal_strlit("http");
        assert("http"@.len() == 4);
        assert("http"@[0] == 'h');
        reveal_strlit("httpupgrade");
        assert("httpupgrade"@.len() == 11);
        match self {
            TransportConfigView::Unset => {},
            TransportConfigView::Tcp => {},
            TransportConfigView::WebSocket(x) => {
                x.lemma_round_trip();
                assert(get(x.record(), Key::Type) == Some(JsonView::Text("ws"@)));
            },
            TransportConfigView::Grpc(x) => {
                x.lemma_round_trip();
                assert(get(x.record(), Key::Type) == Some(JsonView::Text("gprc"@)));
            },
            TransportConfigView::Quic(x) => {
                x.lemma_round_trip();
                assert(get(x.record(), Key::Type) == Some(JsonView::Text("quic"@)));
            },
            TransportConfigView::Http(x) => {
                x.lemma_round_trip();
                assert(get(x.record(), Key::Type) == Some(JsonView::Text("http"@)));
            },
            TransportConfigView::HttpUpdate(x) => {
                x.lemma_round_trip();
                assert(get(x.record(), Key::Type) == Some(JsonView::Text("httpupgrade"@)));
            },
        }
    }
}

impl TransportConfig {
    /// The record that stands for the transport.
    pub fn to_json(&self) -> (r: Json)
        ensures
            r@ == self@.to_json(),
    {
        match self {
            TransportConfig::Unset => Json::Null,
            TransportConfig::Tcp => Json::Null,
            TransportConfig::WebSocket(x) => x.to_json(),
            TransportConfig::Grpc(x) => x.to_json(),
            TransportConfig::Quic(x) => x.to_json(),
            TransportConfig::Http(x) => x.to_json(),
            TransportConfig::HttpUpdate(x) => x.to_json(),
        }
    }

    /// Reads the transport from an object, as `TransportConfigView::from_json` says.
    pub fn from_json(j: &Json) -> (r: Result<TransportConfig, SchemaMismatch>)
        ensures
            match r {
                Ok(x) => TransportConfigView::from_json(j@) == Some(x@),
                Err(_) => TransportConfigView::from_json(j@) is None,
            },
    {
        let es = match read_entries(j) {
            Ok(es) => es,
            Err(e) => {
                return Err(e);
            },
        };
        match get_field(&es, Key::Type) {
            Some(Json::Text(s)) => if same_text(s.as_str(), "ws") {
                match WebSocketConfig::from_record(&es) {
                    Ok(x) => Ok(TransportConfig::WebSocket(x)),
                    Err(e) => Err(e),
                }
            } else if same_text(s.as_str(), "gprc") {
                match GrpcConfig::from_record(&es) {
                    Ok(x) => Ok(TransportConfig::Grpc(x)),
                    Err(e) => Err(e),
                }
            } else if same_text(s.as_str(), "quic") {
                match QuicConfig::from_record(&es) {
                    Ok(x) => Ok(TransportConfig::Quic(x)),
                    Err(e) => Err(e),
                }
            } else if same_text(s.as_str(), "http") {
                match HttpConfig::from_record(&es) {
                    Ok(x) => Ok(TransportConfig::Http(x)),
                    Err(e) => Err(e),
                }
            } else if same_text(s.as_str(), "httpupgrade") {
                match HttpUpdateConfig::from_record(&es) {
                    Ok(x) => Ok(TransportConfig::HttpUpdate(x)),
                    Err(e) => Err(e),
                }
            } else {
                Err(SchemaMismatch)
            },
            _ => Err(SchemaMismatch),
        }
    }
}

/// The headers `hs` with `name` set to `value`: the first header of that
/// name takes the value, and where there is none the header is added last.
pub open spec fn with_header(
    hs: Seq<(Seq<char>, Seq<char>)>,
    name: Seq<char>,
    value: Seq<char>,
) -> Seq<(Seq<char>, Seq<char>)> {
    if exists|i: int| 0 <= i < hs.len() && (#[trigger] hs[i]).0 == name {
        let i = choose|i: int|
            0 <= i < hs.len() && (#[trigger] hs[i]).0 == name && forall|j: int|
                0 <= j < i ==> (#[trigger] hs[j]).0 != name;
        hs.update(i, (name, value))
    } else {
        hs.push((name, value))
    }
}

/// The value of the first header called `name`, if there is one.
pub open spec fn header_value(hs: Seq<(Seq<char>, Seq<char>)>, name: Seq<char>) -> Option<
    Seq<char>,
> {
    if exists|i: int| 0 <= i < hs.len() && (#[trigger] hs[i]).0 == name {
        let i = choose|i: int|
            0 <= i < hs.len() && (#[trigger] hs[i]).0 == name && forall|j: int|
                0 <= j < i ==> (#[trigger] hs[j]).0 != name;
        Some(hs[i].1)
    } else {
        None
    }
}

/// A header that was set holds the value that it was set to, and no other
/// header is added where one of that name was there.
pub proof fn law_header_is_set(hs: Seq<(Seq<char>, Seq<char>)>, name: Seq<char>, value: Seq<char>)
    ensures
        header_value(with_header(hs, name, value), name) == Some(value),
        with_header(hs, name, value).len() == if header_value(hs, name) is Some {
            hs.len()
        } else {
            hs.len() + 1
        },
{
    let after = with_header(hs, name, value);
    if exists|i: int| 0 <= i < hs.len() && (#[trigger] hs[i]).0 == name {
        let w = choose|i: int| 0 <= i < hs.len() && (#[trigger] hs[i]).0 == name;
        lemma_first_header(hs, name, w);
        let i = choose|i: int|
            0 <= i < hs.len() && (#[trigger] hs[i]).0 == name && forall|j: int|
                0 <= j < i ==> (#[trigger] hs[j]).0 != name;
        assert(after[i].0 == name);
        lemma_first_header(after, name, i);
        let k = choose|k: int|
            0 <= k < after.len() && (#[trigger] after[k]).0 == name && forall|j: int|
                0 <= j < k ==> (#[trigger] after[j]).0 != name;
        if k < i {
            assert(hs[k].0 == after[k].0);
        }
        if i < k {
            assert(after[i].0 != name);
        }
    } else {
        let n = hs.len() as int;
        assert(after[n].0 == name);
        lemma_first_header(after, name, n);
        let k = choose|k: int|
            0 <= k < after.len() && (#[trigger] after[k]).0 == name && forall|j: int|
                0 <= j < k ==> (#[trigger] after[j]).0 != name;
        if k < n {
            assert(hs[k].0 == after[k].0);
        }
    }
}

/// Where a header of a name exists, a first one of that name exists.
pub proof fn lemma_first_header(hs: Seq<(Seq<char>, Seq<char>)>, name: Seq<char>, w: int)
    requires
        0 <= w < hs.len(),
        hs[w].0 == name,
    ensures
        exists|i: int|
            0 <= i < hs.len() && (#[trigger] hs[i]).0 == name && forall|j: int|
                0 <= j < i ==> (#[trigger] hs[j]).0 != name,
    decreases w,
{
    if exists|j: int| 0 <= j < w && (#[trigger] hs[j]).0 == name {
        let j = choose|j: int| 0 <= j < w && (#[trigger] hs[j]).0 == name;
        lemma_first_header(hs, name, j);
    } else {
        assert(hs[w].0 == name && forall|j: int| 0 <= j < w ==> (#[trigger] hs[j]).0 != name);
    }
}

/// Index of the first header called `name`, or the number of headers when
/// there is none.
pub fn find_header(hs: &Vec<(String, String)>, name: &str) -> (i: usize)
    ensures
        i <= hs.len(),
        forall|j: int| 0 <= j < i ==> (#[trigger] hs.deep_view()[j]).0 != name@,
        i < hs.len() ==> hs.deep_view()[i as int].0 == name@,
{
    let mut i: usize = 0;
    while i < hs.len()
        invariant
            i <= hs.len(),
            forall|j: int| 0 <= j < i ==> (#[trigger] hs.deep_view()[j]).0 != name@,
        decreases hs.len() - i,
    {
        assert(hs.deep_view()[i as int].0 == hs@[i as int].0@);
        if same_text(hs[i].0.as_str(), name) {
            return i;
        }
        i += 1;
    }
    i
}

/// Sets the header `name` to `value`, as `with_header` says.
pub fn set_header(hs: &mut Vec<(String, String)>, name: &str, value: String)
    ensures
        final(hs).deep_view() == with_header(old(hs).deep_view(), name@, value@),
{
    let i = find_header(hs, name);
    let ghost before = hs.deep_view();
    let entry = (name.to_owned(), value);
    if i < hs.len() {
        proof {
            let k = choose|k: int|
                0 <= k < before.len() && (#[trigger] before[k]).0 == name@ && forall|j: int|
                    0 <= j < k ==> (#[trigger] before[j]).0 != name@;
            assert(before[i as int].0 == name@);
            assert(k == i);
        }
        hs.set(i, entry);
        assert(hs.deep_view() =~= before.update(i as int, (name@, value@)));
    } else {
        hs.push(entry);
        assert(hs.deep_view() =~= before.push((name@, value@)));
    }
}

impl WebSocketConfigView {
    /// Whether the transport is complete: it has a path and headers.
    pub open spec fn passes(self) -> bool {
        self.path is Some && self.headers is Some
    }
}

impl WebSocketConfig {
    /// The completeness check: a WebSocket transport needs a path and headers.
    pub fn check(&self) -> (r: bool)
        ensures
            r == self@.passes(),
    {
        self.path.is_some() && self.headers.is_some()
    }
}

impl GrpcConfigView {
    /// Whether the transport is complete: it has a service name.
    pub open spec fn passes(self) -> bool {
        self.service_name is Some
    }
}

impl GrpcConfig {
    /// The completeness check: a gRPC transport needs a service name.
    pub fn check(&self) -> (r: bool)
        ensures
            r == self@.passes(),
    {
        self.service_name.is_some()
    }
}

impl QuicConfigView {
    /// Whether the transport is complete: it has its type.
    pub open spec fn passes(self) -> bool {
        self.config_type is Some
    }
}

impl QuicConfig {
    /// The completeness check: a QUIC transport needs its type.
    pub fn check(&self) -> (r: bool)
        ensures
            r == self@.passes(),
    {
        self.config_type.is_some()
    }
}

impl HttpConfigView {
    /// Whether the transport is complete: it has a path.
    pub open spec fn passes(self) -> bool {
        self.path is Some
    }
}

impl HttpConfig {
    /// The completeness check: an HTTP transport needs a path.
    pub fn check(&self) -> (r: bool)
        ensures
            r == self@.passes(),
    {
        self.path.is_some()
    }
}

impl HttpUpdateConfigView {
    /// Whether the transport is complete: it has a path.
    pub open spec fn passes(self) -> bool {
        self.path is Some
    }
}

impl HttpUpdateConfig {
    /// The completeness check: an HTTP-upgrade transport needs a path.
    pub fn check(&self) -> (r: bool)
        ensures
            r == self@.passes(),
    {
        self.path.is_some()
    }
}

impl TransportConfigView {
    /// Whether a transport was chosen that is attached when complete:
    /// every kind but plain TCP.
    pub open spec fn is_carried(self) -> bool {
        !(self is Unset) && !(self is Tcp)
    }

    /// Whether the chosen transport passes its completeness check; with no
    /// transport or plain TCP there is nothing to check.
    pub open spec fn passes(self) -> bool {
        match self {
            TransportConfigView::Unset => true,
            TransportConfigView::Tcp => true,
            TransportConfigView::WebSocket(x) => x.passes(),
            TransportConfigView::Grpc(x) => x.passes(),
            TransportConfigView::Quic(x) => x.passes(),
            TransportConfigView::Http(x) => x.passes(),
            TransportConfigView::HttpUpdate(x) => x.passes(),
        }
    }
}

impl TransportConfig {
    /// The completeness check of the chosen transport.
    pub fn check(&self) -> (r: bool)
        ensures
            r == self@.passes(),
    {
        match self {
            TransportConfig::Unset => true,
            TransportConfig::Tcp => true,
            TransportConfig::WebSocket(x) => x.check(),
            TransportConfig::Grpc(x) => x.check(),
            TransportConfig::Quic(x) => x.check(),
            TransportConfig::Http(x) => x.check(),
            TransportConfig::HttpUpdate(x) => x.check(),
        }
    }
}

impl TransportConfigView {
    /// The transport that a `type` value chooses, with only its defaults
    /// set; a value that names no transport leaves `current` as it is.
    pub open spec fn named(name: Seq<char>, current: TransportConfigView) -> TransportConfigView {
        if name == "tcp"@ {
            TransportConfigView::Tcp
        } else if name == "ws"@ {
            TransportConfigView::WebSocket(WebSocketConfigView::fresh())
        } else if name == "grpc"@ {
            TransportConfigView::Grpc(GrpcConfigView::fresh())
        } else if name == "quic"@ {
            TransportConfigView::Quic(QuicConfigView::fresh())
        } else if name == "http"@ {
            TransportConfigView::Http(HttpConfigView::fresh())
        } else if name == "httpupdate"@ {
            TransportConfigView::HttpUpdate(HttpUpdateConfigView::fresh())
        } else {
            current
        }
    }

    /// The transport with its path set, where the kind has a path.
    pub open spec fn with_path(self, path: Seq<char>) -> TransportConfigView {
        match self {
            TransportConfigView::WebSocket(x) => TransportConfigView::WebSocket(
                WebSocketConfigView { path: Some(path), ..x },
            ),
            TransportConfigView::Http(x) => TransportConfigView::Http(
                HttpConfigView { path: Some(path), ..x },
            ),
            TransportConfigView::HttpUpdate(x) => TransportConfigView::HttpUpdate(
                HttpUpdateConfigView { path: Some(path), ..x },
            ),
            _ => self,
        }
    }

    /// The transport with a host: a WebSocket gets its `Host` header set,
    /// an HTTP or HTTP-upgrade transport one more host at the end of its list.
    pub open spec fn with_host(self, host: Seq<char>) -> TransportConfigView {
        match self {
            TransportConfigView::WebSocket(x) => TransportConfigView::WebSocket(
                WebSocketConfigView {
                    headers: Some(
                        with_header(
                            match x.headers {
                                Some(hs) => hs,
                                None => Seq::empty(),
                            },
                            "Host"@,
                            host,
                        ),
                    ),
                    ..x
                },
            ),
            TransportConfigView::Http(x) => TransportConfigView::Http(
                HttpConfigView {
                    host: Some(
                        match x.host {
                            Some(v) => v.push(host),
                            None => seq![host],
                        },
                    ),
                    ..x
                },
            ),
            TransportConfigView::HttpUpdate(x) => TransportConfigView::HttpUpdate(
                HttpUpdateConfigView {
                    host: Some(
                        match x.host {
                            Some(v) => v.push(host),
                            None => seq![host],
                        },
                    ),
                    ..x
                },
            ),
            _ => self,
        }
    }

    /// The transport with its service name set, where the kind has one.
    pub open spec fn with_service_name(self, name: Seq<char>) -> TransportConfigView {
        match self {
            TransportConfigView::Grpc(x) => TransportConfigView::Grpc(
                GrpcConfigView { service_name: Some(name), ..x },
            ),
            _ => self,
        }
    }
}

/// Adds `host` at the end of a list of hosts, which it starts if need be.
fn push_host(hosts: &mut Option<Vec<String>>, host: String)
    ensures
        final(hosts).deep_view() == Some(
            match old(hosts).deep_view() {
                Some(v) => v.push(host@),
                None => seq![host@],
            },
        ),
{
    let ghost before = hosts.deep_view();
    let mut list: Vec<String> = match hosts.take() {
        Some(v) => v,
        None => Vec::new(),
    };
    let ghost start = list.deep_view();
    list.push(host);
    proof {
        assert(list.deep_view() =~= start.push(host@));
        if before is None {
            assert(start =~= Seq::<Seq<char>>::empty());
            assert(start.push(host@) =~= seq![host@]);
        }
    }
    *hosts = Some(list);
}

impl TransportConfig {
    /// Chooses the transport that a `type` value names, as
    /// `TransportConfigView::named` says.
    pub fn select(&mut self, name: &str)
        ensures
            final(self)@ == TransportConfigView::named(name@, old(self)@),
    {
        if same_text(name, "tcp") {
            *self = TransportConfig::Tcp;
        } else if same_text(name, "ws") {
            *self = TransportConfig::WebSocket(WebSocketConfig::new());
        } else if same_text(name, "grpc") {
            *self = TransportConfig::Grpc(GrpcConfig::new());
        } else if same_text(name, "quic") {
            *self = TransportConfig::Quic(QuicConfig::new());
        } else if same_text(name, "http") {
            *self = TransportConfig::Http(HttpConfig::new());
        } else if same_text(name, "httpupdate") {
            *self = TransportConfig::HttpUpdate(HttpUpdateConfig::new());
        }
    }

    /// Sets the path of the chosen transport, as `with_path` says.
    pub fn set_path(&mut self, path: String)
        ensures
            final(self)@ == old(self)@.with_path(path@),
    {
        match self {
            TransportConfig::WebSocket(x) => {
                x.path = Some(path);
            },
            TransportConfig::Http(x) => {
                x.path = Some(path);
            },
            TransportConfig::HttpUpdate(x) => {
                x.path = Some(path);
            },
            _ => {},
        }
    }

    /// Gives the chosen transport a host, as `with_host` says.
    pub fn set_host(&mut self, host: String)
        ensures
            final(self)@ == old(self)@.with_host(host@),
    {
        match self {
            TransportConfig::WebSocket(x) => {
                let ghost before = x.headers.deep_view();
                let mut hs: Vec<(String, String)> = match x.headers.take() {
                    Some(v) => v,
                    None => Vec::new(),
                };
                proof {
                    if before is None {
                        assert(hs.deep_view() =~= Seq::<(Seq<char>, Seq<char>)>::empty());
                    }
                }
                set_header(&mut hs, "Host", host);
                x.headers = Some(hs);
            },
            TransportConfig::Http(x) => {
                push_host(&mut x.host, host);
            },
            TransportConfig::HttpUpdate(x) => {
                push_host(&mut x.host, host);
            },
            _ => {},
        }
    }

    /// Sets the service name of the chosen transport, as
    /// `with_service_name` says.
    pub fn set_service_name(&mut self, name: String)
        ensures
            final(self)@ == old(self)@.with_service_name(name@),
    {
        match self {
            TransportConfig::Grpc(x) => {
                x.service_name = Some(name);
            },
            _ => {},
        }
    }
}

impl TransportConfigView {
    /// Whether the type of the transport names its kind.
    pub open spec fn well_typed(self) -> bool {
        match self {
            TransportConfigView::Unset => true,
            TransportConfigView::Tcp => true,
            TransportConfigView::WebSocket(x) => x.config_type == Some("ws"@),
            TransportConfigView::Grpc(x) => x.config_type == Some("gprc"@),
            TransportConfigView::Quic(x) => x.config_type == Some("quic"@),
            TransportConfigView::Http(x) => x.config_type == Some("http"@),
            TransportConfigView::HttpUpdate(x) => x.config_type == Some("httpupgrade"@),
        }
    }

    /// A transport that a `type` value chooses is of the type of its kind,
    /// and so it stays when a path, a host or a service name is set.
    pub proof fn lemma_well_typed(self, text: Seq<char>)
        requires
            self.well_typed(),
        ensures
            TransportConfigView::named(text, self).well_typed(),
            self.with_path(text).well_typed(),
            self.with_host(text).well_typed(),
            self.with_service_name(text).well_typed(),
    {
    }

    /// A transport that is carried and of the type of its kind is written in
    /// a form from which it is read back.
    pub proof fn lemma_carried_is_canonical(self)
        requires
            self.well_typed(),
            self.is_carried(),
        ensures
            self.canonical(),
    {
    }
}

} // verus!
