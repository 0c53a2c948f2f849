//! The VLESS outbound and the compiler that builds one from a share link.

use crate::defaults::VLESS_OUTBOUND_TAG;
use crate::error::CompileError;
use crate::json::{Entries, entries_of, get, get_field, is_null, Json, json_text, json_u16, JsonView, Key, lemma_get_empty, lemma_get_merge, lemma_get_put, lemma_json_view, merge, no_entries, optional, present, put, put_field, put_group, read_entries, read_text, read_u16, SchemaMismatch, text_json, u16_json};
use crate::shared::{feature_state, FeatureState, Network};
use crate::shared::dialfields::{DialFields, DialFieldsView};
use crate::shared::multiplex::{MultiplexConfig, MultiplexConfigView};
use crate::shared::tls::{RealityConfig, RealityConfigView, TlsConfig, TlsConfigView, UtlsConfig, UtlsConfigView};
use crate::shared::transport::{GrpcConfigView, HttpConfigView, HttpUpdateConfigView, QuicConfigView, TransportConfig, TransportConfigView, WebSocketConfigView};
use crate::text::{key_value, number_u16, parse_u16, pieces, same_text, split_on, split_pair};
use crate::uri::{split_uri, uri_parts, UriParts, UriPartsView};
use vstd::prelude::*;

verus! {

/// The flow control of a VLESS connection.
#[derive(Debug, Clone, Copy, PartialEq, Eq, Structural)]
pub enum Flow {
    /// No flow control, written as the empty text.
    Disabled,
    /// The vision flow, written `xtls-rprx-vision`.
    XtlsRprxVision,
}

impl DeepView for Flow {
    type V = Flow;

    open spec fn deep_view(&self) -> Flow {
        *self
    }
}

impl Flow {
    /// The text that stands for the value.
    pub open spec fn as_json(self) -> JsonView {
        JsonView::Text(
            match self {
                Flow::Disabled => ""@,
                Flow::XtlsRprxVision => "xtls-rprx-vision"@,
            },
        )
    }

    /// The value that a text stands for, if it stands for one.
    pub open spec fn of_json(j: JsonView) -> Option<Flow> {
        match j {
            JsonView::Text(s) => if s == ""@ {
                Some(Flow::Disabled)
            } else if s == "xtls-rprx-vision"@ {
                Some(Flow::XtlsRprxVision)
            } else {
                None
            },
            _ => None,
        }
    }

    /// The value is read back from the text that stands for it.
    pub proof fn lemma_round_trip(self)
        ensures
            Flow::of_json(self.as_json()) == Some(self),
    {
        reveal_strlit("");
        assert(""@.len() == 0);
        reveal_strlit("xtls-rprx-vision");
        assert("xtls-rprx-vision"@.len() == 16);
    }

    /// The text that stands for the value.
    pub fn to_json(&self) -> (r: Json)
        ensures
            r@ == self.as_json(),
    {
        match self {
            Flow::Disabled => Json::Text("".to_owned()),
            Flow::XtlsRprxVision => Json::Text("xtls-rprx-vision".to_owned()),
        }
    }

    /// Reads the value from a text, as `of_json` says.
    pub fn from_json(j: &Json) -> (r: Result<Flow, SchemaMismatch>)
        ensures
            match r {
                Ok(x) => Flow::of_json(j@) == Some(x),
                Err(_) => Flow::of_json(j@) is None,
            },
    {
        match j {
            Json::Text(s) => if same_text(s.as_str(), "") {
                Ok(Flow::Disabled)
            } else if same_text(s.as_str(), "xtls-rprx-vision") {
                Ok(Flow::XtlsRprxVision)
            } else {
                Err(SchemaMismatch)
            },
            _ => Err(SchemaMismatch),
        }
    }
}

/// How UDP packets are encoded.
#[derive(Debug, Clone, Copy, PartialEq, Eq, Structural)]
pub enum PacketEncoding {
    /// No encoding, written `none`.
    Disabled,
    /// Written `packetaddr`.
    Packetaddr,
    /// Written `xudp`.
    Xudp,
}

impl DeepView for PacketEncoding {
    type V = PacketEncoding;

    open spec fn deep_view(&self) -> PacketEncoding {
        *self
    }
}

impl PacketEncoding {
    /// The text that stands for the value.
    pub open spec fn as_json(self) -> JsonView {
        JsonView::Text(
            match self {
                PacketEncoding::Disabled => "none"@,
                PacketEncoding::Packetaddr => "packetaddr"@,
                PacketEncoding::Xudp => "xudp"@,
            },
        )
    }

    /// The value that a text stands for, if it stands for one.
    pub open spec fn of_json(j: JsonView) -> Option<PacketEncoding> {
        match j {
            JsonView::Text(s) => if s == "none"@ {
                Some(PacketEncoding::Disabled)
            } else if s == "packetaddr"@ {
                Some(PacketEncoding::Packetaddr)
            } else if s == "xudp"@ {
                Some(PacketEncoding::Xudp)
            } else {
                None
            },
            _ => None,
        }
    }

    /// The value is read back from the text that stands for it.
    pub proof fn lemma_round_trip(self)
        ensures
            PacketEncoding::of_json(self.as_json()) == Some(self),
    {
        reveal_strlit("none");
        assert("none"@.len() == 4);
        assert("none"@[0] == 'n');
        reveal_strlit("packetaddr");
        assert("packetaddr"@.len() == 10);
        reveal_strlit("xudp");
        assert("xudp"@.len() == 4);
        assert("xudp"@[0] == 'x');
    }

    /// The text that stands for the value.
    pub fn to_json(&self) -> (r: Json)
        ensures
            r@ == self.as_json(),
    {
        match self {
            PacketEncoding::Disabled => Json::Text("none".to_owned()),
            PacketEncoding::Packetaddr => Json::Text("packetaddr".to_owned()),
            PacketEncoding::Xudp => Json::Text("xudp".to_owned()),
        }
    }

    /// Reads the value from a text, as `of_json` says.
    pub fn from_json(j: &Json) -> (r: Result<PacketEncoding, SchemaMismatch>)
        ensures
            match r {
                Ok(x) => PacketEncoding::of_json(j@) == Some(x),
                Err(_) => PacketEncoding::of_json(j@) is None,
            },
    {
        match j {
            Json::Text(s) => if same_text(s.as_str(), "none") {
                Ok(PacketEncoding::Disabled)
            } else if same_text(s.as_str(), "packetaddr") {
                Ok(PacketEncoding::Packetaddr)
            } else if same_text(s.as_str(), "xudp") {
                Ok(PacketEncoding::Xudp)
            } else {
                Err(SchemaMismatch)
            },
            _ => Err(SchemaMismatch),
        }
    }
}

/// A VLESS outbound: the server, the credential and the features of the connection.
#[derive(Debug, Clone, PartialEq)]
pub struct VlessConfig {
    pub config_type: Option<String>,
    pub tag: Option<String>,
    pub server: Option<String>,
    pub server_port: Option<u16>,
    pub uuid: Option<String>,
    pub flow: Option<Flow>,
    pub network: Option<Network>,
    pub tls: Option<TlsConfig>,
    pub multiplex: Option<MultiplexConfig>,
    pub packet_encoding: Option<PacketEncoding>,
    pub transport: Option<TransportConfig>,
    pub dial: Option<DialFields>,
}

/// What a [`VlessConfig`] holds, with every text as its characters.
pub struct VlessConfigView {
    pub config_type: Option<Seq<char>>,
    pub tag: Option<Seq<char>>,
    pub server: Option<Seq<char>>,
    pub server_port: Option<u16>,
    pub uuid: Option<Seq<char>>,
    pub flow: Option<Flow>,
    pub network: Option<Network>,
    pub tls: Option<TlsConfigView>,
    pub multiplex: Option<MultiplexConfigView>,
    pub packet_encoding: Option<PacketEncoding>,
    pub transport: Option<TransportConfigView>,
    pub dial: Option<DialFieldsView>,
}

impl DeepView for VlessConfig {
    type V = VlessConfigView;

    open spec fn deep_view(&self) -> VlessConfigView {
        VlessConfigView {
            config_type: self.config_type.deep_view(),
            tag: self.tag.deep_view(),
            server: self.server.deep_view(),
            server_port: self.server_port.deep_view(),
            uuid: self.uuid.deep_view(),
            flow: self.flow.deep_view(),
            network: self.network.deep_view(),
            tls: self.tls.deep_view(),
            multiplex: self.multiplex.deep_view(),
            packet_encoding: self.packet_encoding.deep_view(),
            transport: self.transport.deep_view(),
            dial: self.dial.deep_view(),
        }
    }
}

impl View for VlessConfig {
    type V = VlessConfigView;

    open spec fn view(&self) -> VlessConfigView {
        self.deep_view()
    }
}

impl VlessConfigView {
    /// The view of what [`VlessConfig::new`] returns.
    pub open spec fn fresh() -> VlessConfigView {
        VlessConfigView {
            config_type: Some("vless"@),
            tag: Some(VLESS_OUTBOUND_TAG@),
            server: None,
            server_port: None,
            uuid: None,
            flow: None,
            network: None,
            tls: None,
            multiplex: None,
            packet_encoding: None,
            transport: None,
            dial: None,
        }
    }
}

impl VlessConfig {
    /// A VLESS outbound under its default tag, with no server and no credential.
    pub fn new() -> (r: Self)
        ensures
            r@ == VlessConfigView::fresh(),
    {
        VlessConfig {
            config_type: Some("vless".to_owned()),
            tag: Some(VLESS_OUTBOUND_TAG.to_owned()),
            server: None,
            server_port: None,
            uuid: None,
            flow: None,
            network: None,
            tls: None,
            multiplex: None,
            packet_encoding: None,
            transport: None,
            dial: None,
        }
    }
}

impl VlessConfigView {
    /// The entries of the record that stands for the value: one for each
    /// field that is set, in the order of the fields.
    pub open spec fn record(self) -> Entries {
        let es = Seq::empty();
        let es = put(es, Key::Type, present(self.config_type, |x: Seq<char>| text_json(x)));
        let es = put(es, Key::Tag, present(self.tag, |x: Seq<char>| text_json(x)));
        let es = put(es, Key::Server, present(self.server, |x: Seq<char>| text_json(x)));
        let es = put(es, Key::ServerPort, present(self.server_port, |x: u16| u16_json(x)));
        let es = put(es, Key::Uuid, present(self.uuid, |x: Seq<char>| text_json(x)));
        let es = put(es, Key::Flow, present(self.flow, |x: Flow| x.as_json()));
        let es = put(es, Key::Network, present(self.network, |x: Network| x.as_json()));
        let es = put(es, Key::Tls, present(self.tls, |x: TlsConfigView| x.to_json()));
        let es = put(es, Key::Multiplex, present(self.multiplex, |x: MultiplexConfigView| x.to_json()));
        let es = put(es, Key::PacketEncoding, present(self.packet_encoding, |x: PacketEncoding| x.as_json()));
        let es = put(es, Key::Transport, present(self.transport, |x: TransportConfigView| x.to_json()));
        let es = merge(
            es,
            match self.dial {
                Some(g) => g.record(),
                None => Seq::empty(),
            },
        );
        es
    }

    /// The record that stands for the value.
    pub open spec fn to_json(self) -> JsonView {
        JsonView::Record(self.record())
    }

    /// The value that the entries of an object stand for. Fails where an
    /// entry holds a value of the wrong shape.
    pub open spec fn from_record(es: Entries) -> Option<VlessConfigView> {
        let config_type = optional(get(es, Key::Type), |j: JsonView| json_text(j));
        let tag = optional(get(es, Key::Tag), |j: JsonView| json_text(j));
        let server = optional(get(es, Key::Server), |j: JsonView| json_text(j));
        let server_port = optional(get(es, Key::ServerPort), |j: JsonView| json_u16(j));
        let uuid = optional(get(es, Key::Uuid), |j: JsonView| json_text(j));
        let flow = optional(get(es, Key::Flow), |j: JsonView| Flow::of_json(j));
        let network = optional(get(es, Key::Network), |j: JsonView| Network::of_json(j));
        let tls = optional(get(es, Key::Tls), |j: JsonView| TlsConfigView::from_json(j));
        let multiplex = optional(get(es, Key::Multiplex), |j: JsonView| MultiplexConfigView::from_json(j));
        let packet_encoding = optional(get(es, Key::PacketEncoding), |j: JsonView| PacketEncoding::of_json(j));
        let transport = optional(get(es, Key::Transport), |j: JsonView| TransportConfigView::from_json(j));
        let dial = DialFieldsView::from_group(es);
        if config_type is Some
            && tag is Some
            && server is Some
            && server_port is Some
            && uuid is Some
            && flow is Some
            && network is Some
            && tls is Some
            && multiplex is Some
            && packet_encoding is Some
            && transport is Some
            && dial is Some {
            Some(
                VlessConfigView {
                    config_type: config_type->0,
                    tag: tag->0,
                    server: server->0,
                    server_port: server_port->0,
                    uuid: uuid->0,
                    flow: flow->0,
                    network: network->0,
                    tls: tls->0,
                    multiplex: multiplex->0,
                    packet_encoding: packet_encoding->0,
                    transport: transport->0,
                    dial: dial->0,
                },
            )
        } else {
            None
        }
    }

    /// The value that an object stands for; none for a value that is no
    /// object.
    pub open spec fn from_json(j: JsonView) -> Option<VlessConfigView> {
        match entries_of(j) {
            Some(es) => VlessConfigView::from_record(es),
            None => None,
        }
    }

    /// Whether the value is written in a form from which it is read back:
    /// the values that it holds are, and a group of fields that is present
    /// sets at least one of them.
    pub open spec fn canonical(self) -> bool {
        &&& match self.tls {
            Some(x) => x.canonical(),
            None => true,
        }
        &&& match self.multiplex {
            Some(x) => x.canonical(),
            None => true,
        }
        &&& match self.transport {
            Some(x) => x.canonical(),
            None => true,
        }
        &&& match self.dial {
            Some(g) => g.canonical() && g != DialFieldsView::blank(),
            None => true,
        }
    }

    /// The value is read back from the record that stands for it.
    pub proof fn lemma_round_trip(self)
        requires
            self.canonical(),
        ensures
            VlessConfigView::from_record(self.record()) == Some(self),
            VlessConfigView::from_json(self.to_json()) == Some(self),
    {
        broadcast use {lemma_get_empty, lemma_get_put, lemma_get_merge};

        let es = self.record();
        assert(optional(get(es, Key::Type), |j: JsonView| json_text(j)) == Some(self.config_type));
        assert(optional(get(es, Key::Tag), |j: JsonView| json_text(j)) == Some(self.tag));
        assert(optional(get(es, Key::Server), |j: JsonView| json_text(j)) == Some(self.server));
        assert(optional(get(es, Key::ServerPort), |j: JsonView| json_u16(j)) == Some(self.server_port));
        assert(optional(get(es, Key::Uuid), |j: JsonView| json_text(j)) == Some(self.uuid));
        match self.flow {
            Some(x) => {
                x.lemma_round_trip();
            },
            None => {},
        }
        assert(optional(get(es, Key::Flow), |j: JsonView| Flow::of_json(j)) == Some(self.flow));
        match self.network {
            Some(x) => {
                x.lemma_round_trip();
            },
            None => {},
        }
        assert(optional(get(es, Key::Network), |j: JsonView| Network::of_json(j)) == Some(self.network));
        match self.tls {
            Some(x) => {
                x.lemma_round_trip();
            },
            None => {},
        }
        assert(optional(get(es, Key::Tls), |j: JsonView| TlsConfigView::from_json(j)) == Some(self.tls));
        match self.multiplex {
            Some(x) => {
                x.lemma_round_trip();
            },
            None => {},
        }
        assert(optional(get(es, Key::Multiplex), |j: JsonView| MultiplexConfigView::from_json(j)) == Some(self.multiplex));
        match self.packet_encoding {
            Some(x) => {
                x.lemma_round_trip();
            },
            None => {},
        }
        assert(optional(get(es, Key::PacketEncoding), |j: JsonView| PacketEncoding::of_json(j)) == Some(self.packet_encoding));
        match self.transport {
            Some(x) => {
                x.lemma_round_trip();
            },
            None => {},
        }
        assert(optional(get(es, Key::Transport), |j: JsonView| TransportConfigView::from_json(j)) == Some(self.transport));
        match self.dial {
            Some(g) => {
                g.lemma_round_trip();
                assert(get(es, Key::Detour) == get(g.record(), Key::Detour));
                assert(get(es, Key::DomainResolver) == get(g.record(), Key::DomainResolver));
                assert(get(es, Key::BindInterface) == get(g.record(), Key::BindInterface));
                assert(get(es, Key::Inet4BindAddress) == get(g.record(), Key::Inet4BindAddress));
                assert(get(es, Key::Inet6BindAddress) == get(g.record(), Key::Inet6BindAddress));
                assert(get(es, Key::RoutingMark) == get(g.record(), Key::RoutingMark));
                assert(get(es, Key::ReuseAddr) == get(g.record(), Key::ReuseAddr));
                assert(get(es, Key::ConnectTimeout) == get(g.record(), Key::ConnectTimeout));
                assert(get(es, Key::TcpFastOpen) == get(g.record(), Key::TcpFastOpen));
                assert(get(es, Key::TcpMultiPath) == get(g.record(), Key::TcpMultiPath));
                assert(get(es, Key::UdpFragment) == get(g.record(), Key::UdpFragment));
                DialFieldsView::lemma_reads_own_keys(es, g.record());
            },
            None => {
                assert(get(es, Key::Detour) is None);
                assert(get(es, Key::DomainResolver) is None);
                assert(get(es, Key::BindInterface) is None);
                assert(get(es, Key::Inet4BindAddress) is None);
                assert(get(es, Key::Inet6BindAddress) is None);
                assert(get(es, Key::RoutingMark) is None);
                assert(get(es, Key::ReuseAddr) is None);
                assert(get(es, Key::ConnectTimeout) is None);
                assert(get(es, Key::TcpFastOpen) is None);
                assert(get(es, Key::TcpMultiPath) is None);
                assert(get(es, Key::UdpFragment) is None);
                DialFieldsView::lemma_no_group(es);
            },
        }
        assert(DialFieldsView::from_group(es) == Some(self.dial));
    }
}

impl VlessConfig {
    /// The entries of the record that stands for the value, as
    /// `VlessConfigView::record` lists them.
    pub fn record(&self) -> (r: Vec<(Key, Json)>)
        ensures
            r.deep_view() == self@.record(),
    {
        let mut es: Vec<(Key, Json)> = no_entries();
        let ghost s = Seq::<(Key, JsonView)>::empty();
        let value = match &self.config_type {
            Some(x) => Some(Json::Text(x.clone())),
            None => None,
        };
        put_field(&mut es, Key::Type, value);
        let ghost s = put(s, Key::Type, present(self@.config_type, |x: Seq<char>| text_json(x)));
        assert(es.deep_view() == s);
        let value = match &self.tag {
            Some(x) => Some(Json::Text(x.clone())),
            None => None,
        };
        put_field(&mut es, Key::Tag, value);
        let ghost s = put(s, Key::Tag, present(self@.tag, |x: Seq<char>| text_json(x)));
        assert(es.deep_view() == s);
        let value = match &self.server {
            Some(x) => Some(Json::Text(x.clone())),
            None => None,
        };
        put_field(&mut es, Key::Server, value);
        let ghost s = put(s, Key::Server, present(self@.server, |x: Seq<char>| text_json(x)));
        assert(es.deep_view() == s);
        let value = match &self.server_port {
            Some(x) => Some(Json::Unsigned(*x as u64)),
            None => None,
        };
        put_field(&mut es, Key::ServerPort, value);
        let ghost s = put(s, Key::ServerPort, present(self@.server_port, |x: u16| u16_json(x)));
        assert(es.deep_view() == s);
        let value = match &self.uuid {
            Some(x) => Some(Json::Text(x.clone())),
            None => None,
        };
        put_field(&mut es, Key::Uuid, value);
        let ghost s = put(s, Key::Uuid, present(self@.uuid, |x: Seq<char>| text_json(x)));
        assert(es.deep_view() == s);
        let value = match &self.flow {
            Some(x) => Some(x.to_json()),
            None => None,
        };
        put_field(&mut es, Key::Flow, value);
        let ghost s = put(s, Key::Flow, present(self@.flow, |x: Flow| x.as_json()));
        assert(es.deep_view() == s);
        let value = match &self.network {
            Some(x) => Some(x.to_json()),
            None => None,
        };
        put_field(&mut es, Key::Network, value);
        let ghost s = put(s, Key::Network, present(self@.network, |x: Network| x.as_json()));
        assert(es.deep_view() == s);
        let value = match &self.tls {
            Some(x) => Some(x.to_json()),
            None => None,
        };
        put_field(&mut es, Key::Tls, value);
        let ghost s = put(s, Key::Tls, present(self@.tls, |x: TlsConfigView| x.to_json()));
        assert(es.deep_view() == s);
        let value = match &self.multiplex {
            Some(x) => Some(x.to_json()),
            None => None,
        };
        put_field(&mut es, Key::Multiplex, value);
        let ghost s = put(s, Key::Multiplex, present(self@.multiplex, |x: MultiplexConfigView| x.to_json()));
        assert(es.deep_view() == s);
        let value = match &self.packet_encoding {
            Some(x) => Some(x.to_json()),
            None => None,
        };
        put_field(&mut es, Key::PacketEncoding, value);
        let ghost s = put(s, Key::PacketEncoding, present(self@.packet_encoding, |x: PacketEncoding| x.as_json()));
        assert(es.deep_view() == s);
        let value = match &self.transport {
            Some(x) => Some(x.to_json()),
            None => None,
        };
        put_field(&mut es, Key::Transport, value);
        let ghost s = put(s, Key::Transport, present(self@.transport, |x: TransportConfigView| x.to_json()));
        assert(es.deep_view() == s);
        let group = match &self.dial {
            Some(g) => g.record(),
            None => no_entries(),
        };
        put_group(&mut es, group);
        let ghost s = merge(
            s,
            match self@.dial {
                Some(g) => g.record(),
                None => Seq::empty(),
            },
        );
        assert(es.deep_view() == s);
        es
    }

    /// The record that stands for the value.
    pub fn to_json(&self) -> (r: Json)
        ensures
            r@ == self@.to_json(),
    {
        let r = Json::Record(self.record());
        proof {
            lemma_json_view(r);
        }
        r
    }

    /// Reads the value from the entries of an object, as
    /// `VlessConfigView::from_record` says.
    pub fn from_record(es: &Vec<(Key, &Json)>) -> (r: Result<VlessConfig, SchemaMismatch>)
        ensures
            match r {
                Ok(x) => VlessConfigView::from_record(es.deep_view()) == Some(x@),
                Err(_) => VlessConfigView::from_record(es.deep_view()) is None,
            },
    {
        let config_type = match get_field(es, Key::Type) {
            Some(j) => if is_null(j) {
                None
            } else {
                match read_text(j) {
                    Ok(x) => Some(x),
                    Err(e) => {
                        return Err(e);
                    },
                }
            },
            None => None,
        };
        assert(optional(get(es.deep_view(), Key::Type), |j: JsonView| json_text(j)) == Some(config_type.deep_view()));
        let tag = match get_field(es, Key::Tag) {
            Some(j) => if is_null(j) {
                None
            } else {
                match read_text(j) {
                    Ok(x) => Some(x),
                    Err(e) => {
                        return Err(e);
                    },
                }
            },
            None => None,
        };
        assert(optional(get(es.deep_view(), Key::Tag), |j: JsonView| json_text(j)) == Some(tag.deep_view()));
        let server = match get_field(es, Key::Server) {
            Some(j) => if is_null(j) {
                None
            } else {
                match read_text(j) {
                    Ok(x) => Some(x),
                    Err(e) => {
                        return Err(e);
                    },
                }
            },
            None => None,
        };
        assert(optional(get(es.deep_view(), Key::Server), |j: JsonView| json_text(j)) == Some(server.deep_view()));
        let server_port = match get_field(es, Key::ServerPort) {
            Some(j) => if is_null(j) {
                None
            } else {
                match read_u16(j) {
                    Ok(x) => Some(x),
                    Err(e) => {
                        return Err(e);
                    },
                }
            },
            None => None,
        };
        assert(optional(get(es.deep_view(), Key::ServerPort), |j: JsonView| json_u16(j)) == Some(server_port.deep_view()));
        let uuid = match get_field(es, Key::Uuid) {
            Some(j) => if is_null(j) {
                None
            } else {
                match read_text(j) {
                    Ok(x) => Some(x),
                    Err(e) => {
                        return Err(e);
                    },
                }
            },
            None => None,
        };
        assert(optional(get(es.deep_view(), Key::Uuid), |j: JsonView| json_text(j)) == Some(uuid.deep_view()));
        let flow = match get_field(es, Key::Flow) {
            Some(j) => if is_null(j) {
                None
            } else {
                match Flow::from_json(j) {
                    Ok(x) => Some(x),
                    Err(e) => {
                        return Err(e);
                    },
                }
            },
            None => None,
        };
        assert(optional(get(es.deep_view(), Key::Flow), |j: JsonView| Flow::of_json(j)) == Some(flow.deep_view()));
        let network = match get_field(es, Key::Network) {
            Some(j) => if is_null(j) {
                None
            } else {
                match Network::from_json(j) {
                    Ok(x) => Some(x),
                    Err(e) => {
                        return Err(e);
                    },
                }
            },
            None => None,
        };
        assert(optional(get(es.deep_view(), Key::Network), |j: JsonView| Network::of_json(j)) == Some(network.deep_view()));
        let tls = match get_field(es, Key::Tls) {
            Some(j) => if is_null(j) {
                None
            } else {
                match TlsConfig::from_json(j) {
                    Ok(x) => Some(x),
                    Err(e) => {
                        return Err(e);
                    },
                }
            },
            None => None,
        };
        assert(optional(get(es.deep_view(), Key::Tls), |j: JsonView| TlsConfigView::from_json(j)) == Some(tls.deep_view()));
        let multiplex = match get_field(es, Key::Multiplex) {
            Some(j) => if is_null(j) {
                None
            } else {
                match MultiplexConfig::from_json(j) {
                    Ok(x) => Some(x),
                    Err(e) => {
                        return Err(e);
                    },
                }
            },
            None => None,
        };
        assert(optional(get(es.deep_view(), Key::Multiplex), |j: JsonView| MultiplexConfigView::from_json(j)) == Some(multiplex.deep_view()));
        let packet_encoding = match get_field(es, Key::PacketEncoding) {
            Some(j) => if is_null(j) {
                None
            } else {
                match PacketEncoding::from_json(j) {
                    Ok(x) => Some(x),
                    Err(e) => {
                        return Err(e);
                    },
                }
            },
            None => None,
        };
        assert(optional(get(es.deep_view(), Key::PacketEncoding), |j: JsonView| PacketEncoding::of_json(j)) == Some(packet_encoding.deep_view()));
        let transport = match get_field(es, Key::Transport) {
            Some(j) => if is_null(j) {
                None
            } else {
                match TransportConfig::from_json(j) {
                    Ok(x) => Some(x),
                    Err(e) => {
                        return Err(e);
                    },
                }
            },
            None => None,
        };
        assert(optional(get(es.deep_view(), Key::Transport), |j: JsonView| TransportConfigView::from_json(j)) == Some(transport.deep_view()));
        let dial = match DialFields::from_group(es) {
            Ok(g) => g,
            Err(e) => {
                return Err(e);
            },
        };
        Ok(VlessConfig { config_type, tag, server, server_port, uuid, flow, network, tls, multiplex, packet_encoding, transport, dial })
    }

    /// Reads the value from an object, as `VlessConfigView::from_json` says.
    pub fn from_json(j: &Json) -> (r: Result<VlessConfig, SchemaMismatch>)
        ensures
            match r {
                Ok(x) => VlessConfigView::from_json(j@) == Some(x@),
                Err(_) => VlessConfigView::from_json(j@) is None,
            },
    {
        match read_entries(j) {
            Ok(es) => VlessConfig::from_record(&es),
            Err(e) => Err(e),
        }
    }
}

/// One field read from a share link: what it is and its value.
#[derive(Debug, Clone, PartialEq)]
pub enum Field {
    /// The host of the link.
    Server(String),
    /// The port of the link.
    ServerPort(u16),
    /// The credential of the link.
    Uuid(String),
    /// The key `security`.
    Security(String),
    /// The key `type`, which chooses the transport.
    Type(String),
    /// The key `flow`.
    Flow(String),
    /// The key `path`.
    Path(String),
    /// The key `host`.
    Host(String),
    /// The key `sni`, the TLS server name.
    Sni(String),
    /// The key `fp`, the uTLS fingerprint.
    Fp(String),
    /// The key `pbk`, the REALITY public key.
    Pbk(String),
    /// The key `sid`, the REALITY short id.
    Sid(String),
    /// The key `mux`, the multiplex stream cap.
    Mux(u16),
    /// The key `serviceName`.
    ServiceName(String),
}

/// What a [`Field`] holds, with every text as its characters.
pub enum FieldView {
    Server(Seq<char>),
    ServerPort(u16),
    Uuid(Seq<char>),
    Security(Seq<char>),
    Type(Seq<char>),
    Flow(Seq<char>),
    Path(Seq<char>),
    Host(Seq<char>),
    Sni(Seq<char>),
    Fp(Seq<char>),
    Pbk(Seq<char>),
    Sid(Seq<char>),
    Mux(u16),
    ServiceName(Seq<char>),
}

impl DeepView for Field {
    type V = FieldView;

    open spec fn deep_view(&self) -> FieldView {
        match self {
            Field::Server(x) => FieldView::Server(x.deep_view()),
            Field::ServerPort(x) => FieldView::ServerPort(x.deep_view()),
            Field::Uuid(x) => FieldView::Uuid(x.deep_view()),
            Field::Security(x) => FieldView::Security(x.deep_view()),
            Field::Type(x) => FieldView::Type(x.deep_view()),
            Field::Flow(x) => FieldView::Flow(x.deep_view()),
            Field::Path(x) => FieldView::Path(x.deep_view()),
            Field::Host(x) => FieldView::Host(x.deep_view()),
            Field::Sni(x) => FieldView::Sni(x.deep_view()),
            Field::Fp(x) => FieldView::Fp(x.deep_view()),
            Field::Pbk(x) => FieldView::Pbk(x.deep_view()),
            Field::Sid(x) => FieldView::Sid(x.deep_view()),
            Field::Mux(x) => FieldView::Mux(x.deep_view()),
            Field::ServiceName(x) => FieldView::ServiceName(x.deep_view()),
        }
    }
}

impl View for Field {
    type V = FieldView;

    open spec fn view(&self) -> FieldView {
        self.deep_view()
    }
}

/// The builders that the compiler fills while it reads the fields of a link.
#[derive(Debug, Clone, PartialEq)]
pub struct Draft {
    pub server: Option<String>,
    pub server_port: Option<u16>,
    pub uuid: Option<String>,
    pub flow: Option<Flow>,
    pub tls: TlsConfig,
    pub utls: UtlsConfig,
    pub reality: RealityConfig,
    pub multiplex: MultiplexConfig,
    pub transport: TransportConfig,
}

/// What a [`Draft`] holds, with every text as its characters.
pub struct DraftView {
    pub server: Option<Seq<char>>,
    pub server_port: Option<u16>,
    pub uuid: Option<Seq<char>>,
    pub flow: Option<Flow>,
    pub tls: TlsConfigView,
    pub utls: UtlsConfigView,
    pub reality: RealityConfigView,
    pub multiplex: MultiplexConfigView,
    pub transport: TransportConfigView,
}

impl DeepView for Draft {
    type V = DraftView;

    open spec fn deep_view(&self) -> DraftView {
        DraftView {
            server: self.server.deep_view(),
            server_port: self.server_port.deep_view(),
            uuid: self.uuid.deep_view(),
            flow: self.flow.deep_view(),
            tls: self.tls.deep_view(),
            utls: self.utls.deep_view(),
            reality: self.reality.deep_view(),
            multiplex: self.multiplex.deep_view(),
            transport: self.transport.deep_view(),
        }
    }
}

impl View for Draft {
    type V = DraftView;

    open spec fn view(&self) -> DraftView {
        self.deep_view()
    }
}

/// The scheme of the links that the compiler reads.
pub open spec fn link_scheme() -> Seq<char> {
    "vless"@
}

/// The port of a link that names none.
pub open spec fn default_port() -> u16 {
    443
}

/// The flow that a `flow` value asks for: the vision flow by its name, no
/// flow control for any other value.
pub open spec fn flow_named(name: Seq<char>) -> Flow {
    if name == "xtls-rprx-vision"@ {
        Flow::XtlsRprxVision
    } else {
        Flow::Disabled
    }
}

/// The field that a `key=value` pair of the query stands for. A key that the
/// compiler does not know gives no field, nor does `mux` with a value that
/// is no 16-bit number.
pub open spec fn named_field(key: Seq<char>, value: Seq<char>) -> Option<FieldView> {
    if key == "type"@ {
        Some(FieldView::Type(value))
    } else if key == "security"@ {
        Some(FieldView::Security(value))
    } else if key == "flow"@ {
        Some(FieldView::Flow(value))
    } else if key == "sni"@ {
        Some(FieldView::Sni(value))
    } else if key == "fp"@ {
        Some(FieldView::Fp(value))
    } else if key == "pbk"@ {
        Some(FieldView::Pbk(value))
    } else if key == "sid"@ {
        Some(FieldView::Sid(value))
    } else if key == "mux"@ {
        match number_u16(value) {
            Some(n) => Some(FieldView::Mux(n)),
            None => None,
        }
    } else if key == "path"@ {
        Some(FieldView::Path(value))
    } else if key == "host"@ {
        Some(FieldView::Host(value))
    } else if key == "serviceName"@ {
        Some(FieldView::ServiceName(value))
    } else {
        None
    }
}

/// The field of one piece of the query: a piece without `=` gives none.
pub open spec fn piece_field(piece: Seq<char>) -> Option<FieldView> {
    match key_value(piece) {
        Some((key, value)) => named_field(key, value),
        None => None,
    }
}

/// The fields of the pieces of a query, in the order of the pieces.
pub open spec fn piece_fields(ps: Seq<Seq<char>>) -> Seq<FieldView>
    decreases ps.len(),
{
    if ps.len() == 0 {
        Seq::empty()
    } else {
        match piece_field(ps.last()) {
            Some(f) => piece_fields(ps.drop_last()).push(f),
            None => piece_fields(ps.drop_last()),
        }
    }
}

/// The fields of a query: it is cut at each `&`, each piece at its first `=`.
pub open spec fn query_fields(query: Seq<char>) -> Seq<FieldView> {
    piece_fields(pieces(query, '&'))
}

/// The fields that the server, port and credential of a link give: the
/// server when the link has a host, the port of the link or 443, the
/// credential when the link has a user name.
pub open spec fn identity_fields(parts: UriPartsView) -> Seq<FieldView> {
    let server = match parts.host {
        Some(h) => seq![FieldView::Server(h)],
        None => Seq::empty(),
    };
    let port = seq![
        FieldView::ServerPort(
            match parts.port {
                Some(p) => p,
                None => default_port(),
            },
        ),
    ];
    let uuid = if parts.username.len() > 0 {
        seq![FieldView::Uuid(parts.username)]
    } else {
        Seq::empty()
    };
    server + port + uuid
}

/// All the fields of a link: those of its identity, then those of its query.
pub open spec fn link_fields(parts: UriPartsView) -> Seq<FieldView> {
    identity_fields(parts) + match parts.query {
        Some(q) => query_fields(q),
        None => Seq::empty(),
    }
}

impl DraftView {
    /// The builders before any field was read.
    pub open spec fn start() -> DraftView {
        DraftView {
            server: None,
            server_port: None,
            uuid: None,
            flow: None,
            tls: TlsConfigView::fresh(),
            utls: UtlsConfigView::fresh(),
            reality: RealityConfigView::fresh(),
            multiplex: MultiplexConfigView::fresh(),
            transport: TransportConfigView::Unset,
        }
    }

    /// The builders after one more field. Each field changes the builders of
    /// one feature and switches on what it implies: a server name switches
    /// TLS on, a fingerprint TLS and uTLS, a public key or a short id TLS
    /// and REALITY. A path, host or service name goes to the transport that
    /// was chosen before it, and is dropped when none was.
    pub open spec fn apply(self, f: FieldView) -> DraftView {
        match f {
            FieldView::Server(x) => DraftView { server: Some(x), ..self },
            FieldView::ServerPort(p) => DraftView { server_port: Some(p), ..self },
            FieldView::Uuid(x) => DraftView { uuid: Some(x), ..self },
            FieldView::Flow(x) => DraftView { flow: Some(flow_named(x)), ..self },
            FieldView::Type(x) => DraftView {
                transport: TransportConfigView::named(x, self.transport),
                ..self
            },
            FieldView::Security(x) => if x == "reality"@ {
                DraftView {
                    reality: RealityConfigView { enable: Some(true), ..self.reality },
                    ..self
                }
            } else if x == "tls"@ {
                DraftView { tls: TlsConfigView { enable: Some(true), ..self.tls }, ..self }
            } else {
                self
            },
            FieldView::Sni(x) => DraftView {
                tls: TlsConfigView { enable: Some(true), server_name: Some(x), ..self.tls },
                ..self
            },
            FieldView::Fp(x) => DraftView {
                tls: TlsConfigView { enable: Some(true), ..self.tls },
                utls: UtlsConfigView { enable: Some(true), fingerprint: Some(x) },
                ..self
            },
            FieldView::Pbk(x) => DraftView {
                tls: TlsConfigView { enable: Some(true), ..self.tls },
                reality: RealityConfigView {
                    enable: Some(true),
                    public_key: Some(x),
                    ..self.reality
                },
                ..self
            },
            FieldView::Sid(x) => DraftView {
                tls: TlsConfigView { enable: Some(true), ..self.tls },
                reality: RealityConfigView { enable: Some(true), short_id: Some(x), ..self.reality },
                ..self
            },
            FieldView::Mux(n) => DraftView {
                multiplex: MultiplexConfigView {
                    enable: Some(true),
                    protocol: Some("h2mux"@),
                    max_streams: Some(n),
                },
                ..self
            },
            FieldView::Path(x) => DraftView { transport: self.transport.with_path(x), ..self },
            FieldView::Host(x) => DraftView { transport: self.transport.with_host(x), ..self },
            FieldView::ServiceName(x) => DraftView {
                transport: self.transport.with_service_name(x),
                ..self
            },
        }
    }

    /// The builders after a list of fields, read from first to last.
    pub open spec fn after(fields: Seq<FieldView>) -> DraftView
        decreases fields.len(),
    {
        if fields.len() == 0 {
            DraftView::start()
        } else {
            DraftView::after(fields.drop_last()).apply(fields.last())
        }
    }

    /// Whether the link gave its server, its port and its credential.
    pub open spec fn identity_present(self) -> bool {
        self.server is Some && self.server_port is Some && self.uuid is Some
    }

    /// Whether REALITY was asked for and is incomplete while TLS passes its
    /// own check.
    pub open spec fn security_incomplete(self) -> bool {
        self.tls.passes() && self.reality.state() == FeatureState::Enabled
            && !self.reality.passes()
    }

    /// Whether the chosen transport goes into the outbound: it is one that
    /// is carried, and it is complete.
    pub open spec fn transport_attached(self) -> bool {
        self.transport.is_carried() && self.transport.passes()
    }

    /// The TLS feature of the outbound: none unless TLS is configured and
    /// passes; then the TLS builder with uTLS and REALITY attached where they
    /// are ready, and marked insecure where a transport is attached.
    pub open spec fn finished_tls(self) -> Option<TlsConfigView> {
        if self.tls.attaches() {
            Some(
                TlsConfigView {
                    utls: if self.utls.attaches() {
                        Some(self.utls)
                    } else {
                        self.tls.utls
                    },
                    reality: if self.reality.state() == FeatureState::Enabled
                        && self.reality.passes() {
                        Some(self.reality)
                    } else {
                        self.tls.reality
                    },
                    insecure: if self.transport_attached() {
                        Some(true)
                    } else {
                        self.tls.insecure
                    },
                    ..self.tls
                },
            )
        } else {
            None
        }
    }

    /// The flow of the outbound: none under an attached transport, else the
    /// flow that the link asked for, else the vision flow.
    pub open spec fn finished_flow(self) -> Flow {
        if self.transport_attached() {
            Flow::Disabled
        } else {
            match self.flow {
                Some(f) => f,
                None => Flow::XtlsRprxVision,
            }
        }
    }

    /// The outbound that the builders give, or the error that ends the
    /// compilation: a missing identity field first, then a REALITY that was
    /// asked for and is incomplete.
    pub open spec fn finish(self) -> Result<VlessConfigView, CompileError> {
        if !self.identity_present() {
            Err(CompileError::MissingIdentityField)
        } else if self.security_incomplete() {
            Err(CompileError::IncompleteSecurityConfig)
        } else {
            Ok(
                VlessConfigView {
                    server: self.server,
                    server_port: self.server_port,
                    uuid: self.uuid,
                    flow: Some(self.finished_flow()),
                    tls: self.finished_tls(),
                    multiplex: if self.multiplex.attaches() {
                        Some(self.multiplex)
                    } else {
                        None
                    },
                    packet_encoding: Some(PacketEncoding::Xudp),
                    transport: if self.transport_attached() {
                        Some(self.transport)
                    } else {
                        None
                    },
                    ..VlessConfigView::fresh()
                },
            )
        }
    }
}

/// The outbound that the parts of a link compile to, or the error: a scheme
/// other than `vless` is refused, then the fields of the link are read into
/// the builders and the builders finished.
pub open spec fn compiled(parts: UriPartsView) -> Result<VlessConfigView, CompileError> {
    if parts.scheme != link_scheme() {
        Err(CompileError::UnsupportedScheme)
    } else {
        DraftView::after(link_fields(parts)).finish()
    }
}

/// The outbound that a link compiles to, or the error: a text that is no
/// URI is refused, then its parts are compiled.
pub open spec fn compiled_link(input: Seq<char>) -> Result<VlessConfigView, CompileError> {
    match uri_parts(input) {
        Some(parts) => compiled(parts),
        None => Err(CompileError::UriParseError),
    }
}

/// A result of the compiler, with the outbound as its view.
pub open spec fn outcome(res: Result<VlessConfig, CompileError>) -> Result<
    VlessConfigView,
    CompileError,
> {
    match res {
        Ok(o) => Ok(o@),
        Err(e) => Err(e),
    }
}

/// The flow that a `flow` value asks for.
pub fn flow_of(name: &str) -> (r: Flow)
    ensures
        r == flow_named(name@),
{
    if same_text(name, "xtls-rprx-vision") {
        Flow::XtlsRprxVision
    } else {
        Flow::Disabled
    }
}

/// The field that a `key=value` pair of the query stands for, if any.
pub fn field_of(key: &str, value: String) -> (r: Option<Field>)
    ensures
        r.deep_view() == named_field(key@, value@),
{
    if same_text(key, "type") {
        Some(Field::Type(value))
    } else if same_text(key, "security") {
        Some(Field::Security(value))
    } else if same_text(key, "flow") {
        Some(Field::Flow(value))
    } else if same_text(key, "sni") {
        Some(Field::Sni(value))
    } else if same_text(key, "fp") {
        Some(Field::Fp(value))
    } else if same_text(key, "pbk") {
        Some(Field::Pbk(value))
    } else if same_text(key, "sid") {
        Some(Field::Sid(value))
    } else if same_text(key, "mux") {
        match parse_u16(value.as_str()) {
            Some(n) => Some(Field::Mux(n)),
            None => None,
        }
    } else if same_text(key, "path") {
        Some(Field::Path(value))
    } else if same_text(key, "host") {
        Some(Field::Host(value))
    } else if same_text(key, "serviceName") {
        Some(Field::ServiceName(value))
    } else {
        None
    }
}

/// The fields of a query, in the order in which the query gives them.
pub fn read_query(query: &str, fields: &mut Vec<Field>)
    ensures
        final(fields).deep_view() == old(fields).deep_view() + query_fields(query@),
{
    let parts = split_on(query, '&');
    let ghost ps = pieces(query@, '&');
    let ghost start = fields.deep_view();
    let mut i: usize = 0;
    assert(ps.take(0) =~= Seq::<Seq<char>>::empty());
    assert(start + piece_fields(ps.take(0)) =~= start);
    while i < parts.len()
        invariant
            i <= parts.len(),
            parts.deep_view() == ps,
            fields.deep_view() == start + piece_fields(ps.take(i as int)),
        decreases parts.len() - i,
    {
        let ghost before = fields.deep_view();
        let ghost next = ps.take(i + 1);
        proof {
            assert(next.drop_last() =~= ps.take(i as int));
            assert(next.last() == ps[i as int]);
            assert(parts.deep_view()[i as int] == parts@[i as int]@);
        }
        match split_pair(parts[i].as_str()) {
            Some((key, value)) => {
                match field_of(key.as_str(), value) {
                    Some(f) => {
                        fields.push(f);
                        assert(fields.deep_view() =~= before.push(f@));
                        assert(before.push(f@) =~= start + piece_fields(next));
                    },
                    None => {},
                }
            },
            None => {},
        }
        i += 1;
    }
    assert(ps.take(i as int) =~= ps);
}

impl Draft {
    /// The builders before any field was read.
    pub fn new() -> (r: Self)
        ensures
            r@ == DraftView::start(),
    {
        Draft {
            server: None,
            server_port: None,
            uuid: None,
            flow: None,
            tls: TlsConfig::new(),
            utls: UtlsConfig::new(),
            reality: RealityConfig::new(),
            multiplex: MultiplexConfig::new(),
            transport: TransportConfig::Unset,
        }
    }

    /// Reads one more field into the builders, as `DraftView::apply` says.
    pub fn apply(&mut self, f: Field)
        ensures
            final(self)@ == old(self)@.apply(f@),
    {
        match f {
            Field::Server(x) => {
                self.server = Some(x);
            },
            Field::ServerPort(p) => {
                self.server_port = Some(p);
            },
            Field::Uuid(x) => {
                self.uuid = Some(x);
            },
            Field::Flow(x) => {
                self.flow = Some(flow_of(x.as_str()));
            },
            Field::Type(x) => {
                self.transport.select(x.as_str());
            },
            Field::Security(x) => {
                if same_text(x.as_str(), "reality") {
                    self.reality.enable = Some(true);
                } else if same_text(x.as_str(), "tls") {
                    self.tls.enable = Some(true);
                }
            },
            Field::Sni(x) => {
                self.tls.enable = Some(true);
                self.tls.server_name = Some(x);
            },
            Field::Fp(x) => {
                self.tls.enable = Some(true);
                self.utls.enable = Some(true);
                self.utls.fingerprint = Some(x);
            },
            Field::Pbk(x) => {
                self.tls.enable = Some(true);
                self.reality.enable = Some(true);
                self.reality.public_key = Some(x);
            },
            Field::Sid(x) => {
                self.tls.enable = Some(true);
                self.reality.enable = Some(true);
                self.reality.short_id = Some(x);
            },
            Field::Mux(n) => {
                self.multiplex.enable = Some(true);
                self.multiplex.protocol = Some("h2mux".to_owned());
                self.multiplex.max_streams = Some(n);
            },
            Field::Path(x) => {
                self.transport.set_path(x);
            },
            Field::Host(x) => {
                self.transport.set_host(x);
            },
            Field::ServiceName(x) => {
                self.transport.set_service_name(x);
            },
        }
    }

    /// Runs the completeness checks and builds the outbound, as
    /// `DraftView::finish` says.
    pub fn finish(self) -> (res: Result<VlessConfig, CompileError>)
        ensures
            outcome(res) == self@.finish(),
    {
        let Draft { server, server_port, uuid, flow, tls, utls, reality, multiplex, transport } =
            self;
        if server.is_none() || server_port.is_none() || uuid.is_none() {
            return Err(CompileError::MissingIdentityField);
        }
        let reality_on = match reality.enable {
            Some(true) => true,
            _ => false,
        };
        let reality_ready = reality_on && reality.check();
        let tls_passes = tls.check();
        if tls_passes && reality_on && !reality_ready {
            return Err(CompileError::IncompleteSecurityConfig);
        }
        let carried = match &transport {
            TransportConfig::Unset => false,
            TransportConfig::Tcp => false,
            _ => transport.check(),
        };
        let mut cfg = VlessConfig::new();
        cfg.server = server;
        cfg.server_port = server_port;
        cfg.uuid = uuid;
        cfg.flow = if carried {
            Some(Flow::Disabled)
        } else {
            match flow {
                Some(f) => Some(f),
                None => Some(Flow::XtlsRprxVision),
            }
        };
        cfg.packet_encoding = Some(PacketEncoding::Xudp);
        if multiplex.enable.is_some() && multiplex.check() {
            cfg.multiplex = Some(multiplex);
        }
        if tls.enable.is_some() && tls_passes {
            let mut tls = tls;
            if utls.enable.is_some() && utls.check() {
                tls.utls = Some(utls);
            }
            if reality_ready {
                tls.reality = Some(reality);
            }
            if carried {
                tls.insecure = Some(true);
            }
            cfg.tls = Some(tls);
        }
        if carried {
            cfg.transport = Some(transport);
        }
        Ok(cfg)
    }
}

impl VlessConfigView {
    /// Whether the outbound names its server, its port and its credential.
    pub open spec fn identity_present(self) -> bool {
        self.server is Some && self.server_port is Some && self.uuid is Some
    }

    /// The outbound with the vision flow and the `xudp` encoding filled in
    /// where it names none.
    pub open spec fn with_defaults(self) -> VlessConfigView {
        VlessConfigView {
            flow: match self.flow {
                Some(f) => Some(f),
                None => Some(Flow::XtlsRprxVision),
            },
            packet_encoding: match self.packet_encoding {
                Some(p) => Some(p),
                None => Some(PacketEncoding::Xudp),
            },
            ..self
        }
    }

    /// Whether the outbound passes its completeness check: its identity is
    /// present, and its TLS feature, where it has one, passes.
    pub open spec fn passes(self) -> bool {
        self.identity_present() && match self.tls {
            Some(t) => t.passes(),
            None => true,
        }
    }
}

impl VlessConfig {
    /// The completeness check. An outbound without its server, port or
    /// credential fails and stays as it is. Any other gets its flow and
    /// packet encoding filled in where they are unset, and passes when its
    /// TLS feature does.
    pub fn check(&mut self) -> (r: bool)
        ensures
            r == old(self)@.passes(),
            final(self)@ == if old(self)@.identity_present() {
                old(self)@.with_defaults()
            } else {
                old(self)@
            },
    {
        if self.server.is_none() || self.server_port.is_none() || self.uuid.is_none() {
            false
        } else {
            if self.flow.is_none() {
                self.flow = Some(Flow::XtlsRprxVision);
            }
            if self.packet_encoding.is_none() {
                self.packet_encoding = Some(PacketEncoding::Xudp);
            }
            match &self.tls {
                Some(t) => t.check(),
                None => true,
            }
        }
    }

    /// The fields of a link, as `link_fields` lists them.
    pub fn parser(parts: &UriParts) -> (r: Vec<Field>)
        ensures
            r.deep_view() == link_fields(parts@),
    {
        let mut fields: Vec<Field> = Vec::new();
        let ghost none = fields.deep_view();
        assert(none =~= Seq::<FieldView>::empty());
        match &parts.host {
            Some(h) => {
                fields.push(Field::Server(h.clone()));
            },
            None => {},
        }
        let port: u16 = match parts.port {
            Some(p) => p,
            None => 443,
        };
        fields.push(Field::ServerPort(port));
        if parts.username.as_str().unicode_len() > 0 {
            fields.push(Field::Uuid(parts.username.clone()));
        }
        assert(fields.deep_view() =~= identity_fields(parts@));
        match &parts.query {
            Some(q) => {
                read_query(q.as_str(), &mut fields);
            },
            None => {
                assert(fields.deep_view() =~= link_fields(parts@));
            },
        }
        fields
    }

    /// The outbound that a list of fields gives: the fields are read into
    /// the builders from first to last, and the builders finished.
    pub fn from_fields(fields: Vec<Field>) -> (res: Result<VlessConfig, CompileError>)
        ensures
            outcome(res) == DraftView::after(fields.deep_view()).finish(),
    {
        let ghost all = fields.deep_view();
        let mut rest = fields;
        let mut draft = Draft::new();
        let mut done: Ghost<Seq<FieldView>> = Ghost(Seq::empty());
        assert(Seq::<FieldView>::empty() + all =~= all);
        while rest.len() > 0
            invariant
                done@ + rest.deep_view() == all,
                draft@ == DraftView::after(done@),
            decreases rest.len(),
        {
            let ghost before = rest.deep_view();
            let f = rest.remove(0);
            proof {
                assert(rest.deep_view() =~= before.drop_first());
                assert(f@ == before[0]);
                let next = done@.push(f@);
                assert(next.drop_last() =~= done@);
                assert(next + rest.deep_view() =~= done@ + before);
                done@ = next;
            }
            draft.apply(f);
        }
        assert(done@ =~= all);
        draft.finish()
    }

    /// Compiles the parts of a link, as `compiled` says.
    pub fn from_parts(parts: &UriParts) -> (res: Result<VlessConfig, CompileError>)
        ensures
            outcome(res) == compiled(parts@),
    {
        if !same_text(parts.scheme.as_str(), "vless") {
            return Err(CompileError::UnsupportedScheme);
        }
        VlessConfig::from_fields(VlessConfig::parser(parts))
    }
}

/// A kind of configuration that a share link compiles to.
pub trait Config: Sized {
    /// Compiles a share link, or says why it cannot be compiled.
    fn from_url(url: &str) -> Result<Self, CompileError>;
}

impl Config for VlessConfig {
    /// Compiles a `vless://` link into an outbound, as `compiled_link` says.
    fn from_url(url: &str) -> (res: Result<Self, CompileError>)
        ensures
            outcome(res) == compiled_link(url@),
    {
        match split_uri(url) {
            Ok(parts) => VlessConfig::from_parts(&parts),
            Err(e) => Err(e),
        }
    }
}

/// Whether one of the fields is of the kind that `kind` picks.
pub open spec fn gives(fields: Seq<FieldView>, kind: spec_fn(FieldView) -> bool) -> bool {
    exists|i: int| 0 <= i < fields.len() && #[trigger] kind(fields[i])
}

/// Picks the fields that name the server.
pub open spec fn server_field() -> spec_fn(FieldView) -> bool {
    |f: FieldView| f is Server
}

/// Picks the fields that name the port.
pub open spec fn port_field() -> spec_fn(FieldView) -> bool {
    |f: FieldView| f is ServerPort
}

/// Picks the fields that name the credential.
pub open spec fn uuid_field() -> spec_fn(FieldView) -> bool {
    |f: FieldView| f is Uuid
}

/// Picks the fields that carry a TLS server name.
pub open spec fn sni_field() -> spec_fn(FieldView) -> bool {
    |f: FieldView| f is Sni
}

/// Picks the fields that carry a REALITY public key.
pub open spec fn pbk_field() -> spec_fn(FieldView) -> bool {
    |f: FieldView| f is Pbk
}

/// Picks the fields that carry a REALITY short id.
pub open spec fn sid_field() -> spec_fn(FieldView) -> bool {
    |f: FieldView| f is Sid
}

/// Picks the fields that switch REALITY on: `security=reality`, a public
/// key, a short id.
pub open spec fn reality_switch() -> spec_fn(FieldView) -> bool {
    |f: FieldView| f == FieldView::Security("reality"@) || f is Pbk || f is Sid
}

/// Picks the fields that switch TLS on: `security=tls`, a server name, a
/// fingerprint, a public key, a short id.
pub open spec fn tls_switch() -> spec_fn(FieldView) -> bool {
    |f: FieldView|
        f == FieldView::Security("tls"@) || f is Sni || f is Fp || f is Pbk || f is Sid
}

/// The two values of `security` that the compiler knows are different texts.
pub proof fn lemma_security_values_differ()
    ensures
        "tls"@ != "reality"@,
{
    reveal_strlit("tls");
    reveal_strlit("reality");
    assert("tls"@.len() == 3);
    assert("reality"@.len() == 7);
}

/// A field is given by a list when the list without its last field gives
/// it, or the last field is of its kind.
pub proof fn lemma_gives_step(fields: Seq<FieldView>, kind: spec_fn(FieldView) -> bool)
    requires
        fields.len() > 0,
    ensures
        gives(fields, kind) == (gives(fields.drop_last(), kind) || kind(fields.last())),
{
    let init = fields.drop_last();
    if gives(fields, kind) {
        let i = choose|i: int| 0 <= i < fields.len() && #[trigger] kind(fields[i]);
        if i < init.len() {
            assert(kind(init[i]));
        }
    }
    if gives(init, kind) {
        let i = choose|i: int| 0 <= i < init.len() && #[trigger] kind(init[i]);
        assert(kind(fields[i]));
    }
    if kind(fields.last()) {
        assert(kind(fields[fields.len() - 1]));
    }
}

/// What the builders hold after a list of fields, by the kinds of field
/// that the list gives.
pub proof fn lemma_after_shape(fields: Seq<FieldView>)
    ensures
        ({
            let d = DraftView::after(fields);
            &&& d.server is Some <==> gives(fields, server_field())
            &&& d.server_port is Some <==> gives(fields, port_field())
            &&& d.uuid is Some <==> gives(fields, uuid_field())
            &&& d.tls.server_name is Some <==> gives(fields, sni_field())
            &&& d.tls.enable == if gives(fields, tls_switch()) {
                Some(true)
            } else {
                None
            }
            &&& d.tls.utls is None
            &&& d.tls.reality is None
            &&& d.reality.public_key is Some <==> gives(fields, pbk_field())
            &&& d.reality.short_id is Some <==> gives(fields, sid_field())
            &&& d.reality.enable == if gives(fields, reality_switch()) {
                Some(true)
            } else {
                None
            }
        }),
    decreases fields.len(),
{
    if fields.len() == 0 {
    } else {
        lemma_security_values_differ();
        lemma_after_shape(fields.drop_last());
        lemma_gives_step(fields, server_field());
        lemma_gives_step(fields, port_field());
        lemma_gives_step(fields, uuid_field());
        lemma_gives_step(fields, sni_field());
        lemma_gives_step(fields, tls_switch());
        lemma_gives_step(fields, pbk_field());
        lemma_gives_step(fields, sid_field());
        lemma_gives_step(fields, reality_switch());
    }
}

/// Fields without one of the three identity fields compile to the identity
/// error, whatever else they hold.
pub proof fn law_identity_is_required(fields: Seq<FieldView>)
    requires
        !gives(fields, server_field()) || !gives(fields, port_field()) || !gives(
            fields,
            uuid_field(),
        ),
    ensures
        DraftView::after(fields).finish() == Err::<VlessConfigView, CompileError>(
            CompileError::MissingIdentityField,
        ),
{
    lemma_after_shape(fields);
}

/// The query of a link gives no identity field.
pub proof fn lemma_query_gives_no_identity(ps: Seq<Seq<char>>)
    ensures
        !gives(piece_fields(ps), server_field()),
        !gives(piece_fields(ps), port_field()),
        !gives(piece_fields(ps), uuid_field()),
    decreases ps.len(),
{
    if ps.len() > 0 {
        lemma_query_gives_no_identity(ps.drop_last());
        let fs = piece_fields(ps);
        if piece_field(ps.last()) is Some {
            lemma_gives_step(fs, server_field());
            lemma_gives_step(fs, port_field());
            lemma_gives_step(fs, uuid_field());
            assert(fs.drop_last() =~= piece_fields(ps.drop_last()));
        }
    }
}

/// The identity fields of a link are given by its host and its user name
/// alone; the port is always given.
pub proof fn lemma_link_identity(parts: UriPartsView)
    ensures
        gives(link_fields(parts), server_field()) <==> parts.host is Some,
        gives(link_fields(parts), port_field()),
        gives(link_fields(parts), uuid_field()) <==> parts.username.len() > 0,
{
    let id = identity_fields(parts);
    let q = match parts.query {
        Some(q) => query_fields(q),
        None => Seq::empty(),
    };
    let all = link_fields(parts);
    match parts.query {
        Some(text) => {
            lemma_query_gives_no_identity(pieces(text, '&'));
        },
        None => {},
    }
    assert(!gives(q, server_field()) && !gives(q, port_field()) && !gives(q, uuid_field()));
    assert forall|kind: spec_fn(FieldView) -> bool| gives(all, kind) == (gives(id, kind) || gives(q, kind)) by {
        if gives(all, kind) {
            let i = choose|i: int| 0 <= i < all.len() && #[trigger] kind(all[i]);
            if i < id.len() {
                assert(kind(id[i]));
            } else {
                assert(kind(q[i - id.len()]));
            }
        }
        if gives(id, kind) {
            let i = choose|i: int| 0 <= i < id.len() && #[trigger] kind(id[i]);
            assert(kind(all[i]));
        }
        if gives(q, kind) {
            let i = choose|i: int| 0 <= i < q.len() && #[trigger] kind(q[i]);
            assert(kind(all[i + id.len()]));
        }
    }
    let port_at: int = if parts.host is Some { 1 } else { 0 };
    assert(port_field()(id[port_at]));
    if parts.host is Some {
        assert(server_field()(id[0]));
    } else {
        assert(!gives(id, server_field()));
    }
    if parts.username.len() > 0 {
        assert(uuid_field()(id[port_at + 1]));
    } else {
        assert(!gives(id, uuid_field()));
    }
}

/// A `vless` link without a host or without a credential compiles to the
/// identity error, whatever its query holds: no partial outbound comes back.
pub proof fn law_link_needs_identity(parts: UriPartsView)
    requires
        parts.scheme == link_scheme(),
        parts.host is None || parts.username.len() == 0,
    ensures
        compiled(parts) == Err::<VlessConfigView, CompileError>(
            CompileError::MissingIdentityField,
        ),
{
    lemma_link_identity(parts);
    law_identity_is_required(link_fields(parts));
}

/// Fields that ask for REALITY without giving both its public key and its
/// short id compile to the incomplete-security error, whether or not a
/// server name or a fingerprint is given. This holds where the identity is
/// given and TLS passes its own check: it has its server name, or nothing
/// switched it on.
pub proof fn law_reality_needs_key_and_id(fields: Seq<FieldView>)
    requires
        gives(fields, server_field()),
        gives(fields, port_field()),
        gives(fields, uuid_field()),
        gives(fields, reality_switch()),
        !gives(fields, pbk_field()) || !gives(fields, sid_field()),
        gives(fields, sni_field()) || !gives(fields, tls_switch()),
    ensures
        DraftView::after(fields).finish() == Err::<VlessConfigView, CompileError>(
            CompileError::IncompleteSecurityConfig,
        ),
{
    lemma_after_shape(fields);
}

/// A `vless` link with its host and credential that declares
/// `security=reality` without both `pbk` and `sid` compiles to the
/// incomplete-security error, where TLS passes its own check.
pub proof fn law_link_reality_needs_key_and_id(parts: UriPartsView)
    requires
        parts.scheme == link_scheme(),
        parts.host is Some,
        parts.username.len() > 0,
        gives(link_fields(parts), reality_switch()),
        !gives(link_fields(parts), pbk_field()) || !gives(link_fields(parts), sid_field()),
        gives(link_fields(parts), sni_field()) || !gives(link_fields(parts), tls_switch()),
    ensures
        compiled(parts) == Err::<VlessConfigView, CompileError>(
            CompileError::IncompleteSecurityConfig,
        ),
{
    lemma_link_identity(parts);
    law_reality_needs_key_and_id(link_fields(parts));
}

/// A chosen transport that lacks a field it requires is not attached, and
/// does not stop the compilation: the link compiles exactly when its
/// identity is given and REALITY is not left incomplete under a passing TLS.
pub proof fn law_incomplete_transport_is_dropped(parts: UriPartsView)
    requires
        parts.scheme == link_scheme(),
        !DraftView::after(link_fields(parts)).transport.passes(),
    ensures
        compiled(parts) matches Ok(o) ==> o.transport is None,
        compiled(parts) is Ok <==> {
            &&& DraftView::after(link_fields(parts)).identity_present()
            &&& !DraftView::after(link_fields(parts)).security_incomplete()
        },
{
}

/// The transport that the builders hold is always of the type of its kind.
pub proof fn lemma_after_well_typed(fields: Seq<FieldView>)
    ensures
        DraftView::after(fields).transport.well_typed(),
        DraftView::after(fields).tls.utls is None,
        DraftView::after(fields).tls.reality is None,
    decreases fields.len(),
{
    if fields.len() > 0 {
        let before = DraftView::after(fields.drop_last());
        lemma_after_well_typed(fields.drop_last());
        match fields.last() {
            FieldView::Type(x) => {
                before.transport.lemma_well_typed(x);
            },
            FieldView::Path(x) => {
                before.transport.lemma_well_typed(x);
            },
            FieldView::Host(x) => {
                before.transport.lemma_well_typed(x);
            },
            FieldView::ServiceName(x) => {
                before.transport.lemma_well_typed(x);
            },
            _ => {},
        }
    }
}

/// An outbound that the compiler builds is written in a form from which it
/// is read back, and is of type `vless`.
pub proof fn law_compiled_is_canonical(fields: Seq<FieldView>)
    ensures
        DraftView::after(fields).finish() matches Ok(o) ==> o.canonical() && o.config_type == Some(
            "vless"@,
        ),
{
    lemma_after_well_typed(fields);
    let d = DraftView::after(fields);
    if d.transport.is_carried() {
        d.transport.lemma_carried_is_canonical();
    }
}

/// Fields that choose gRPC and give no service name after that choice leave
/// the gRPC transport without the field it requires: it is not attached,
/// whatever else the fields hold.
pub proof fn law_grpc_needs_service_name(fields: Seq<FieldView>, at: int)
    requires
        0 <= at < fields.len(),
        fields[at] == FieldView::Type("grpc"@),
        forall|j: int|
            at < j < fields.len() ==> !((#[trigger] fields[j]) is Type) && !(fields[j]
                is ServiceName),
    ensures
        DraftView::after(fields).transport == TransportConfigView::Grpc(GrpcConfigView::fresh()),
        !DraftView::after(fields).transport.passes(),
        DraftView::after(fields).finish() matches Ok(o) ==> o.transport is None,
    decreases fields.len(),
{
    let init = fields.drop_last();
    if at == fields.len() - 1 {
        reveal_strlit("grpc");
        reveal_strlit("tcp");
        reveal_strlit("ws");
        assert("grpc"@.len() == 4);
        assert("tcp"@.len() == 3);
        assert("ws"@.len() == 2);
    } else {
        assert(init[at] == fields[at]);
        assert forall|j: int| at < j < init.len() implies !((#[trigger] init[j]) is Type) && !(
        init[j] is ServiceName) by {
            assert(init[j] == fields[j]);
        }
        law_grpc_needs_service_name(init, at);
        assert(!(fields[fields.len() - 1] is Type));
    }
}

} // verus!
