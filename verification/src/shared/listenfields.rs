//! How an entry listens.

use crate::json::{bool_json, Entries, entries_of, get, get_field, is_null, Json, json_bool, json_text, json_u16, JsonView, Key, lemma_get_empty, lemma_get_merge, lemma_get_put, lemma_json_view, no_entries, optional, present, put, put_field, read_bool, read_entries, read_text, read_u16, SchemaMismatch, text_json, u16_json};
use vstd::prelude::*;

verus! {

/// Options of a listening socket; every one may be left unset.
#[derive(Debug, Clone, PartialEq)]
pub struct ListenFields {
    pub listen: Option<String>,
    pub listen_port: Option<u16>,
    pub bind_interface: Option<String>,
    pub routing_mark: Option<u16>,
    pub reuse_addr: Option<bool>,
    pub netns: Option<String>,
    pub tcp_fast_open: Option<bool>,
    pub tcp_multi_path: Option<bool>,
    pub disable_tcp_keep_alive: Option<bool>,
    pub tcp_keep_alive: Option<String>,
    pub tcp_keep_alive_interval: Option<String>,
    pub udp_fragment: Option<bool>,
    pub udp_timeout: Option<String>,
    pub detour: Option<String>,
}

/// What a [`ListenFields`] holds, with every text as its characters.
pub struct ListenFieldsView {
    pub listen: Option<Seq<char>>,
    pub listen_port: Option<u16>,
    pub bind_interface: Option<Seq<char>>,
    pub routing_mark: Option<u16>,
    pub reuse_addr: Option<bool>,
    pub netns: Option<Seq<char>>,
    pub tcp_fast_open: Option<bool>,
    pub tcp_multi_path: Option<bool>,
    pub disable_tcp_keep_alive: Option<bool>,
    pub tcp_keep_alive: Option<Seq<char>>,
    pub tcp_keep_alive_interval: Option<Seq<char>>,
    pub udp_fragment: Option<bool>,
    pub udp_timeout: Option<Seq<char>>,
    pub detour: Option<Seq<char>>,
}

impl DeepView for ListenFields {
    type V = ListenFieldsView;

    open spec fn deep_view(&self) -> ListenFieldsView {
        ListenFieldsView {
            listen: self.listen.deep_view(),
            listen_port: self.listen_port.deep_view(),
            bind_interface: self.bind_interface.deep_view(),
            routing_mark: self.routing_mark.deep_view(),
            reuse_addr: self.reuse_addr.deep_view(),
            netns: self.netns.deep_view(),
            tcp_fast_open: self.tcp_fast_open.deep_view(),
            tcp_multi_path: self.tcp_multi_path.deep_view(),
            disable_tcp_keep_alive: self.disable_tcp_keep_alive.deep_view(),
            tcp_keep_alive: self.tcp_keep_alive.deep_view(),
            tcp_keep_alive_interval: self.tcp_keep_alive_interval.deep_view(),
            udp_fragment: self.udp_fragment.deep_view(),
            udp_timeout: self.udp_timeout.deep_view(),
            detour: self.detour.deep_view(),
        }
    }
}

impl View for ListenFields {
    type V = ListenFieldsView;

    open spec fn view(&self) -> ListenFieldsView {
        self.deep_view()
    }
}

impl ListenFieldsView {
    /// The view of what [`ListenFields::new`] returns.
    pub open spec fn fresh() -> ListenFieldsView {
        ListenFieldsView {
            listen: None,
            listen_port: None,
            bind_interface: None,
            routing_mark: None,
            reuse_addr: None,
            netns: None,
            tcp_fast_open: None,
            tcp_multi_path: None,
            disable_tcp_keep_alive: None,
            tcp_keep_alive: None,
            tcp_keep_alive_interval: None,
            udp_fragment: None,
            udp_timeout: None,
            detour: None,
        }
    }
}

impl ListenFields {
    /// Listen options with nothing set.
    pub fn new() -> (r: Self)
        ensures
            r@ == ListenFieldsView::fresh(),
    {
        ListenFields {
            listen: None,
            listen_port: None,
            bind_interface: None,
            routing_mark: None,
            reuse_addr: None,
            netns: None,
            tcp_fast_open: None,
            tcp_multi_path: None,
            disable_tcp_keep_alive: None,
            tcp_keep_alive: None,
            tcp_keep_alive_interval: None,
            udp_fragment: None,
            udp_timeout: None,
            detour: None,
        }
    }
}

impl ListenFieldsView {
    /// The entries of the record that stands for the value: one for each
    /// field that is set, in the order of the fields.
    pub open spec fn record(self) -> Entries {
        let es = Seq::empty();
        let es = put(es, Key::Listen, present(self.listen, |x: Seq<char>| text_json(x)));
        let es = put(es, Key::ListenPort, present(self.listen_port, |x: u16| u16_json(x)));
        let es = put(es, Key::BindInterface, present(self.bind_interface, |x: Seq<char>| text_json(x)));
        let es = put(es, Key::RoutingMark, present(self.routing_mark, |x: u16| u16_json(x)));
        let es = put(es, Key::ReuseAddr, present(self.reuse_addr, |x: bool| bool_json(x)));
        let es = put(es, Key::Netns, present(self.netns, |x: Seq<char>| text_json(x)));
        let es = put(es, Key::TcpFastOpen, present(self.tcp_fast_open, |x: bool| bool_json(x)));
        let es = put(es, Key::TcpMultiPath, present(self.tcp_multi_path, |x: bool| bool_json(x)));
        let es = put(es, Key::DisableTcpKeepAlive, present(self.disable_tcp_keep_alive, |x: bool| bool_json(x)));
        let es = put(es, Key::TcpKeepAlive, present(self.tcp_keep_alive, |x: Seq<char>| text_json(x)));
        let es = put(es, Key::TcpKeepAliveInterval, present(self.tcp_keep_alive_interval, |x: Seq<char>| text_json(x)));
        let es = put(es, Key::UdpFragment, present(self.udp_fragment, |x: bool| bool_json(x)));
        let es = put(es, Key::UdpTimeout, present(self.udp_timeout, |x: Seq<char>| text_json(x)));
        let es = put(es, Key::Detour, present(self.detour, |x: Seq<char>| text_json(x)));
        es
    }

    /// The record that stands for the value.
    pub open spec fn to_json(self) -> JsonView {
        JsonView::Record(self.record())
    }

    /// The value that the entries of an object stand for. Fails where an
    /// entry holds a value of the wrong shape.
    pub open spec fn from_record(es: Entries) -> Option<ListenFieldsView> {
        let listen = optional(get(es, Key::Listen), |j: JsonView| json_text(j));
        let listen_port = optional(get(es, Key::ListenPort), |j: JsonView| json_u16(j));
        let bind_interface = optional(get(es, Key::BindInterface), |j: JsonView| json_text(j));
        let routing_mark = optional(get(es, Key::RoutingMark), |j: JsonView| json_u16(j));
        let reuse_addr = optional(get(es, Key::ReuseAddr), |j: JsonView| json_bool(j));
        let netns = optional(get(es, Key::Netns), |j: JsonView| json_text(j));
        let tcp_fast_open = optional(get(es, Key::TcpFastOpen), |j: JsonView| json_bool(j));
        let tcp_multi_path = optional(get(es, Key::TcpMultiPath), |j: JsonView| json_bool(j));
        let disable_tcp_keep_alive = optional(get(es, Key::DisableTcpKeepAlive), |j: JsonView| json_bool(j));
        let tcp_keep_alive = optional(get(es, Key::TcpKeepAlive), |j: JsonView| json_text(j));
        let tcp_keep_alive_interval = optional(get(es, Key::TcpKeepAliveInterval), |j: JsonView| json_text(j));
        let udp_fragment = optional(get(es, Key::UdpFragment), |j: JsonView| json_bool(j));
        let udp_timeout = optional(get(es, Key::UdpTimeout), |j: JsonView| json_text(j));
        let detour = optional(get(es, Key::Detour), |j: JsonView| json_text(j));
        if listen is Some
            && listen_port is Some
            && bind_interface is Some
            && routing_mark is Some
            && reuse_addr is Some
            && netns is Some
            && tcp_fast_open is Some
            && tcp_multi_path is Some
            && disable_tcp_keep_alive is Some
            && tcp_keep_alive is Some
            && tcp_keep_alive_interval is Some
            && udp_fragment is Some
            && udp_timeout is Some
            && detour is Some {
            Some(
                ListenFieldsView {
                    listen: listen->0,
                    listen_port: listen_port->0,
                    bind_interface: bind_interface->0,
                    routing_mark: routing_mark->0,
                    reuse_addr: reuse_addr->0,
                    netns: netns->0,
                    tcp_fast_open: tcp_fast_open->0,
                    tcp_multi_path: tcp_multi_path->0,
                    disable_tcp_keep_alive: disable_tcp_keep_alive->0,
                    tcp_keep_alive: tcp_keep_alive->0,
                    tcp_keep_alive_interval: tcp_keep_alive_interval->0,
                    udp_fragment: udp_fragment->0,
                    udp_timeout: udp_timeout->0,
                    detour: detour->0,
                },
            )
        } else {
            None
        }
    }

    /// The value that an object stands for; none for a value that is no
    /// object.
    pub open spec fn from_json(j: JsonView) -> Option<ListenFieldsView> {
        match entries_of(j) {
            Some(es) => ListenFieldsView::from_record(es),
            None => None,
        }
    }

    /// Whether the value is written in a form from which it is read back:
    /// every value of this type is.
    pub open spec fn canonical(self) -> bool {
        true
    }

    /// The value with no field set.
    pub open spec fn blank() -> ListenFieldsView {
        ListenFieldsView {
            listen: None,
            listen_port: None,
            bind_interface: None,
            routing_mark: None,
            reuse_addr: None,
            netns: None,
            tcp_fast_open: None,
            tcp_multi_path: None,
            disable_tcp_keep_alive: None,
            tcp_keep_alive: None,
            tcp_keep_alive_interval: None,
            udp_fragment: None,
            udp_timeout: None,
            detour: None,
        }
    }

    /// The group that the entries of an object stand for where the fields
    /// of the group are written among those of its owner: no group where
    /// none of its fields is set.
    pub open spec fn from_group(es: Entries) -> Option<Option<ListenFieldsView>> {
        match ListenFieldsView::from_record(es) {
            Some(x) => if x == ListenFieldsView::blank() {
                Some(None)
            } else {
                Some(Some(x))
            },
            None => None,
        }
    }

    /// What the group reads depends only on what stands under its keys.
    pub proof fn lemma_reads_own_keys(a: Entries, b: Entries)
        requires
            get(a, Key::Listen) == get(b, Key::Listen),
            get(a, Key::ListenPort) == get(b, Key::ListenPort),
            get(a, Key::BindInterface) == get(b, Key::BindInterface),
            get(a, Key::RoutingMark) == get(b, Key::RoutingMark),
            get(a, Key::ReuseAddr) == get(b, Key::ReuseAddr),
            get(a, Key::Netns) == get(b, Key::Netns),
            get(a, Key::TcpFastOpen) == get(b, Key::TcpFastOpen),
            get(a, Key::TcpMultiPath) == get(b, Key::TcpMultiPath),
            get(a, Key::DisableTcpKeepAlive) == get(b, Key::DisableTcpKeepAlive),
            get(a, Key::TcpKeepAlive) == get(b, Key::TcpKeepAlive),
            get(a, Key::TcpKeepAliveInterval) == get(b, Key::TcpKeepAliveInterval),
            get(a, Key::UdpFragment) == get(b, Key::UdpFragment),
            get(a, Key::UdpTimeout) == get(b, Key::UdpTimeout),
            get(a, Key::Detour) == get(b, Key::Detour),
        ensures
            ListenFieldsView::from_record(a) == ListenFieldsView::from_record(b),
            ListenFieldsView::from_group(a) == ListenFieldsView::from_group(b),
    {
    }

    /// Entries that hold nothing under the keys of the group stand for no
    /// group.
    pub proof fn lemma_no_group(es: Entries)
        requires
            get(es, Key::Listen) is None,
            get(es, Key::ListenPort) is None,
            get(es, Key::BindInterface) is None,
            get(es, Key::RoutingMark) is None,
            get(es, Key::ReuseAddr) is None,
            get(es, Key::Netns) is None,
            get(es, Key::TcpFastOpen) is None,
            get(es, Key::TcpMultiPath) is None,
            get(es, Key::DisableTcpKeepAlive) is None,
            get(es, Key::TcpKeepAlive) is None,
            get(es, Key::TcpKeepAliveInterval) is None,
            get(es, Key::UdpFragment) is None,
            get(es, Key::UdpTimeout) is None,
            get(es, Key::Detour) is None,
        ensures
            ListenFieldsView::from_group(es) == Some(None::<ListenFieldsView>),
    {
    }

    /// The field `listen` is read back from the record.
    pub proof fn lemma_reads_listen(self)
        ensures
            optional(get(self.record(), Key::Listen), |j: JsonView| json_text(j)) == Some(self.listen),
    {
        broadcast use {lemma_get_empty, lemma_get_put, lemma_get_merge};

        let es = self.record();
    }

    /// The field `listen_port` is read back from the record.
    pub proof fn lemma_reads_listen_port(self)
        ensures
            optional(get(self.record(), Key::ListenPort), |j: JsonView| json_u16(j)) == Some(self.listen_port),
    {
        broadcast use {lemma_get_empty, lemma_get_put, lemma_get_merge};

        let es = self.record();
    }

    /// The field `bind_interface` is read back from the record.
    pub proof fn lemma_reads_bind_interface(self)
        ensures
            optional(get(self.record(), Key::BindInterface), |j: JsonView| json_text(j)) == Some(self.bind_interface),
    {
        broadcast use {lemma_get_empty, lemma_get_put, lemma_get_merge};

        let es = self.record();
    }

    /// The field `routing_mark` is read back from the record.
    pub proof fn lemma_reads_routing_mark(self)
        ensures
            optional(get(self.record(), Key::RoutingMark), |j: JsonView| json_u16(j)) == Some(self.routing_mark),
    {
        broadcast use {lemma_get_empty, lemma_get_put, lemma_get_merge};

        let es = self.record();
    }

    /// The field `reuse_addr` is read back from the record.
    pub proof fn lemma_reads_reuse_addr(self)
        ensures
            optional(get(self.record(), Key::ReuseAddr), |j: JsonView| json_bool(j)) == Some(self.reuse_addr),
    {
        broadcast use {lemma_get_empty, lemma_get_put, lemma_get_merge};

        let es = self.record();
    }

    /// The field `netns` is read back from the record.
    pub proof fn lemma_reads_netns(self)
        ensures
            optional(get(self.record(), Key::Netns), |j: JsonView| json_text(j)) == Some(self.netns),
    {
        broadcast use {lemma_get_empty, lemma_get_put, lemma_get_merge};

        let es = self.record();
    }

    /// The field `tcp_fast_open` is read back from the record.
    pub proof fn lemma_reads_tcp_fast_open(self)
        ensures
            optional(get(self.record(), Key::TcpFastOpen), |j: JsonView| json_bool(j)) == Some(self.tcp_fast_open),
    {
        broadcast use {lemma_get_empty, lemma_get_put, lemma_get_merge};

        let es = self.record();
    }

    /// The field `tcp_multi_path` is read back from the record.
    pub proof fn lemma_reads_tcp_multi_path(self)
        ensures
            optional(get(self.record(), Key::TcpMultiPath), |j: JsonView| json_bool(j)) == Some(self.tcp_multi_path),
    {
        broadcast use {lemma_get_empty, lemma_get_put, lemma_get_merge};

        let es = self.record();
    }

    /// The field `disable_tcp_keep_alive` is read back from the record.
    pub proof fn lemma_reads_disable_tcp_keep_alive(self)
        ensures
            optional(get(self.record(), Key::DisableTcpKeepAlive), |j: JsonView| json_bool(j)) == Some(self.disable_tcp_keep_alive),
    {
        broadcast use {lemma_get_empty, lemma_get_put, lemma_get_merge};

        let es = self.record();
    }

    /// The field `tcp_keep_alive` is read back from the record.
    pub proof fn lemma_reads_tcp_keep_alive(self)
        ensures
            optional(get(self.record(), Key::TcpKeepAlive), |j: JsonView| json_text(j)) == Some(self.tcp_keep_alive),
    {
        broadcast use {lemma_get_empty, lemma_get_put, lemma_get_merge};

        let es = self.record();
    }

    /// The field `tcp_keep_alive_interval` is read back from the record.
    pub proof fn lemma_reads_tcp_keep_alive_interval(self)
        ensures
            optional(get(self.record(), Key::TcpKeepAliveInterval), |j: JsonView| json_text(j)) == Some(self.tcp_keep_alive_interval),
    {
        broadcast use {lemma_get_empty, lemma_get_put, lemma_get_merge};

        let es = self.record();
    }

    /// The field `udp_fragment` is read back from the record.
    pub proof fn lemma_reads_udp_fragment(self)
        ensures
            optional(get(self.record(), Key::UdpFragment), |j: JsonView| json_bool(j)) == Some(self.udp_fragment),
    {
        broadcast use {lemma_get_empty, lemma_get_put, lemma_get_merge};

        let es = self.record();
    }

    /// The field `udp_timeout` is read back from the record.
    pub proof fn lemma_reads_udp_timeout(self)
        ensures
            optional(get(self.record(), Key::UdpTimeout), |j: JsonView| json_text(j)) == Some(self.udp_timeout),
    {
        broadcast use {lemma_get_empty, lemma_get_put, lemma_get_merge};

        let es = self.record();
    }

    /// The field `detour` is read back from the record.
    pub proof fn lemma_reads_detour(self)
        ensures
            optional(get(self.record(), Key::Detour), |j: JsonView| json_text(j)) == Some(self.detour),
    {
        broadcast use {lemma_get_empty, lemma_get_put, lemma_get_merge};

        let es = self.record();
    }

    /// The value is read back from the record that stands for it.
    pub proof fn lemma_round_trip(self)
        ensures
            ListenFieldsView::from_record(self.record()) == Some(self),
            ListenFieldsView::from_json(self.to_json()) == Some(self),
            self != ListenFieldsView::blank() ==> ListenFieldsView::from_group(self.record()) == Some(Some(self)),
    {
        self.lemma_reads_listen();
        self.lemma_reads_listen_port();
        self.lemma_reads_bind_interface();
        self.lemma_reads_routing_mark();
        self.lemma_reads_reuse_addr();
        self.lemma_reads_netns();
        self.lemma_reads_tcp_fast_open();
        self.lemma_reads_tcp_multi_path();
        self.lemma_reads_disable_tcp_keep_alive();
        self.lemma_reads_tcp_keep_alive();
        self.lemma_reads_tcp_keep_alive_interval();
        self.lemma_reads_udp_fragment();
        self.lemma_reads_udp_timeout();
        self.lemma_reads_detour();
    }
}

impl ListenFields {
    /// The entries of the record that stands for the value, as
    /// `ListenFieldsView::record` lists them.
    pub fn record(&self) -> (r: Vec<(Key, Json)>)
        ensures
            r.deep_view() == self@.record(),
    {
        let mut es: Vec<(Key, Json)> = no_entries();
        let ghost s = Seq::<(Key, JsonView)>::empty();
        let value = match &self.listen {
            Some(x) => Some(Json::Text(x.clone())),
            None => None,
        };
        put_field(&mut es, Key::Listen, value);
        let ghost s = put(s, Key::Listen, present(self@.listen, |x: Seq<char>| text_json(x)));
        assert(es.deep_view() == s);
        let value = match &self.listen_port {
            Some(x) => Some(Json::Unsigned(*x as u64)),
            None => None,
        };
        put_field(&mut es, Key::ListenPort, value);
        let ghost s = put(s, Key::ListenPort, present(self@.listen_port, |x: u16| u16_json(x)));
        assert(es.deep_view() == s);
        let value = match &self.bind_interface {
            Some(x) => Some(Json::Text(x.clone())),
            None => None,
        };
        put_field(&mut es, Key::BindInterface, value);
        let ghost s = put(s, Key::BindInterface, present(self@.bind_interface, |x: Seq<char>| text_json(x)));
        assert(es.deep_view() == s);
        let value = match &self.routing_mark {
            Some(x) => Some(Json::Unsigned(*x as u64)),
            None => None,
        };
        put_field(&mut es, Key::RoutingMark, value);
        let ghost s = put(s, Key::RoutingMark, present(self@.routing_mark, |x: u16| u16_json(x)));
        assert(es.deep_view() == s);
        let value = match &self.reuse_addr {
            Some(x) => Some(Json::Bool(*x)),
            None => None,
        };
        put_field(&mut es, Key::ReuseAddr, value);
        let ghost s = put(s, Key::ReuseAddr, present(self@.reuse_addr, |x: bool| bool_json(x)));
        assert(es.deep_view() == s);
        let value = match &self.netns {
            Some(x) => Some(Json::Text(x.clone())),
            None => None,
        };
        put_field(&mut es, Key::Netns, value);
        let ghost s = put(s, Key::Netns, present(self@.netns, |x: Seq<char>| text_json(x)));
        assert(es.deep_view() == s);
        let value = match &self.tcp_fast_open {
            Some(x) => Some(Json::Bool(*x)),
            None => None,
        };
        put_field(&mut es, Key::TcpFastOpen, value);
        let ghost s = put(s, Key::TcpFastOpen, present(self@.tcp_fast_open, |x: bool| bool_json(x)));
        assert(es.deep_view() == s);
        let value = match &self.tcp_multi_path {
            Some(x) => Some(Json::Bool(*x)),
            None => None,
        };
        put_field(&mut es, Key::TcpMultiPath, value);
        let ghost s = put(s, Key::TcpMultiPath, present(self@.tcp_multi_path, |x: bool| bool_json(x)));
        assert(es.deep_view() == s);
        let value = match &self.disable_tcp_keep_alive {
            Some(x) => Some(Json::Bool(*x)),
            None => None,
        };
        put_field(&mut es, Key::DisableTcpKeepAlive, value);
        let ghost s = put(s, Key::DisableTcpKeepAlive, present(self@.disable_tcp_keep_alive, |x: bool| bool_json(x)));
        assert(es.deep_view() == s);
        let value = match &self.tcp_keep_alive {
            Some(x) => Some(Json::Text(x.clone())),
            None => None,
        };
        put_field(&mut es, Key::TcpKeepAlive, value);
        let ghost s = put(s, Key::TcpKeepAlive, present(self@.tcp_keep_alive, |x: Seq<char>| text_json(x)));
        assert(es.deep_view() == s);
        let value = match &self.tcp_keep_alive_interval {
            Some(x) => Some(Json::Text(x.clone())),
            None => None,
        };
        put_field(&mut es, Key::TcpKeepAliveInterval, value);
        let ghost s = put(s, Key::TcpKeepAliveInterval, present(self@.tcp_keep_alive_interval, |x: Seq<char>| text_json(x)));
        assert(es.deep_view() == s);
        let value = match &self.udp_fragment {
            Some(x) => Some(Json::Bool(*x)),
            None => None,
        };
        put_field(&mut es, Key::UdpFragment, value);
        let ghost s = put(s, Key::UdpFragment, present(self@.udp_fragment, |x: bool| bool_json(x)));
        assert(es.deep_view() == s);
        let value = match &self.udp_timeout {
            Some(x) => Some(Json::Text(x.clone())),
            None => None,
        };
        put_field(&mut es, Key::UdpTimeout, value);
        let ghost s = put(s, Key::UdpTimeout, present(self@.udp_timeout, |x: Seq<char>| text_json(x)));
        assert(es.deep_view() == s);
        let value = match &self.detour {
            Some(x) => Some(Json::Text(x.clone())),
            None => None,
        };
        put_field(&mut es, Key::Detour, value);
        let ghost s = put(s, Key::Detour, present(self@.detour, |x: Seq<char>| text_json(x)));
        assert(es.deep_view() == s);
        es
    }

    /// The record that stands for the value.
    pub fn to_json(&self) -> (r: Json)
        ensures
            r@ == self@.to_json(),
    {
        let r = Json::Record(self.record());
        proof {
            lemma_json_view(r);
        }
        r
    }

    /// Reads the value from the entries of an object, as
    /// `ListenFieldsView::from_record` says.
    pub fn from_record(es: &Vec<(Key, &Json)>) -> (r: Result<ListenFields, SchemaMismatch>)
        ensures
            match r {
                Ok(x) => ListenFieldsView::from_record(es.deep_view()) == Some(x@),
                Err(_) => ListenFieldsView::from_record(es.deep_view()) is None,
            },
    {
        let listen = match get_field(es, Key::Listen) {
            Some(j) => if is_null(j) {
                None
            } else {
                match read_text(j) {
                    Ok(x) => Some(x),
                    Err(e) => {
                        return Err(e);
                    },
                }
            },
            None => None,
        };
        assert(optional(get(es.deep_view(), Key::Listen), |j: JsonView| json_text(j)) == Some(listen.deep_view()));
        let listen_port = match get_field(es, Key::ListenPort) {
            Some(j) => if is_null(j) {
                None
            } else {
                match read_u16(j) {
                    Ok(x) => Some(x),
                    Err(e) => {
                        return Err(e);
                    },
                }
            },
            None => None,
        };
        assert(optional(get(es.deep_view(), Key::ListenPort), |j: JsonView| json_u16(j)) == Some(listen_port.deep_view()));
        let bind_interface = match get_field(es, Key::BindInterface) {
            Some(j) => if is_null(j) {
                None
            } else {
                match read_text(j) {
                    Ok(x) => Some(x),
                    Err(e) => {
                        return Err(e);
                    },
                }
            },
            None => None,
        };
        assert(optional(get(es.deep_view(), Key::BindInterface), |j: JsonView| json_text(j)) == Some(bind_interface.deep_view()));
        let routing_mark = match get_field(es, Key::RoutingMark) {
            Some(j) => if is_null(j) {
                None
            } else {
                match read_u16(j) {
                    Ok(x) => Some(x),
                    Err(e) => {
                        return Err(e);
                    },
                }
            },
            None => None,
        };
        assert(optional(get(es.deep_view(), Key::RoutingMark), |j: JsonView| json_u16(j)) == Some(routing_mark.deep_view()));
        let reuse_addr = match get_field(es, Key::ReuseAddr) {
            Some(j) => if is_null(j) {
                None
            } else {
                match read_bool(j) {
                    Ok(x) => Some(x),
                    Err(e) => {
                        return Err(e);
                    },
                }
            },
            None => None,
        };
        assert(optional(get(es.deep_view(), Key::ReuseAddr), |j: JsonView| json_bool(j)) == Some(reuse_addr.deep_view()));
        let netns = match get_field(es, Key::Netns) {
            Some(j) => if is_null(j) {
                None
            } else {
                match read_text(j) {
                    Ok(x) => Some(x),
                    Err(e) => {
                        return Err(e);
                    },
                }
            },
            None => None,
        };
        assert(optional(get(es.deep_view(), Key::Netns), |j: JsonView| json_text(j)) == Some(netns.deep_view()));
        let tcp_fast_open = match get_field(es, Key::TcpFastOpen) {
            Some(j) => if is_null(j) {
                None
            } else {
                match read_bool(j) {
                    Ok(x) => Some(x),
                    Err(e) => {
                        return Err(e);
                    },
                }
            },
            None => None,
        };
        assert(optional(get(es.deep_view(), Key::TcpFastOpen), |j: JsonView| json_bool(j)) == Some(tcp_fast_open.deep_view()));
        let tcp_multi_path = match get_field(es, Key::TcpMultiPath) {
            Some(j) => if is_null(j) {
                None
            } else {
                match read_bool(j) {
                    Ok(x) => Some(x),
                    Err(e) => {
                        return Err(e);
                    },
                }
            },
            None => None,
        };
        assert(optional(get(es.deep_view(), Key::TcpMultiPath), |j: JsonView| json_bool(j)) == Some(tcp_multi_path.deep_view()));
        let disable_tcp_keep_alive = match get_field(es, Key::DisableTcpKeepAlive) {
            Some(j) => if is_null(j) {
                None
            } else {
                match read_bool(j) {
                    Ok(x) => Some(x),
                    Err(e) => {
                        return Err(e);
                    },
                }
            },
            None => None,
        };
        assert(optional(get(es.deep_view(), Key::DisableTcpKeepAlive), |j: JsonView| json_bool(j)) == Some(disable_tcp_keep_alive.deep_view()));
        let tcp_keep_alive = match get_field(es, Key::TcpKeepAlive) {
            Some(j) => if is_null(j) {
                None
            } else {
                match read_text(j) {
                    Ok(x) => Some(x),
                    Err(e) => {
                        return Err(e);
                    },
                }
            },
            None => None,
        };
        assert(optional(get(es.deep_view(), Key::TcpKeepAlive), |j: JsonView| json_text(j)) == Some(tcp_keep_alive.deep_view()));
        let tcp_keep_alive_interval = match get_field(es, Key::TcpKeepAliveInterval) {
            Some(j) => if is_null(j) {
                None
            } else {
                match read_text(j) {
                    Ok(x) => Some(x),
                    Err(e) => {
                        return Err(e);
                    },
                }
            },
            None => None,
        };
        assert(optional(get(es.deep_view(), Key::TcpKeepAliveInterval), |j: JsonView| json_text(j)) == Some(tcp_keep_alive_interval.deep_view()));
        let udp_fragment = match get_field(es, Key::UdpFragment) {
            Some(j) => if is_null(j) {
                None
            } else {
                match read_bool(j) {
                    Ok(x) => Some(x),
                    Err(e) => {
                        return Err(e);
                    },
                }
            },
            None => None,
        };
        assert(optional(get(es.deep_view(), Key::UdpFragment), |j: JsonView| json_bool(j)) == Some(udp_fragment.deep_view()));
        let udp_timeout = match get_field(es, Key::UdpTimeout) {
            Some(j) => if is_null(j) {
                None
            } else {
                match read_text(j) {
                    Ok(x) => Some(x),
                    Err(e) => {
                        return Err(e);
                    },
                }
            },
            None => None,
        };
        assert(optional(get(es.deep_view(), Key::UdpTimeout), |j: JsonView| json_text(j)) == Some(udp_timeout.deep_view()));
        let detour = match get_field(es, Key::Detour) {
            Some(j) => if is_null(j) {
                None
            } else {
                match read_text(j) {
                    Ok(x) => Some(x),
                    Err(e) => {
                        return Err(e);
                    },
                }
            },
            None => None,
        };
        assert(optional(get(es.deep_view(), Key::Detour), |j: JsonView| json_text(j)) == Some(detour.deep_view()));
        Ok(ListenFields { listen, listen_port, bind_interface, routing_mark, reuse_addr, netns, tcp_fast_open, tcp_multi_path, disable_tcp_keep_alive, tcp_keep_alive, tcp_keep_alive_interval, udp_fragment, udp_timeout, detour })
    }

    /// Reads the value from an object, as `ListenFieldsView::from_json` says.
    pub fn from_json(j: &Json) -> (r: Result<ListenFields, SchemaMismatch>)
        ensures
            match r {
                Ok(x) => ListenFieldsView::from_json(j@) == Some(x@),
                Err(_) => ListenFieldsView::from_json(j@) is None,
            },
    {
        match read_entries(j) {
            Ok(es) => ListenFields::from_record(&es),
            Err(e) => Err(e),
        }
    }

    /// Whether no field of the group is set.
    pub fn is_blank(&self) -> (r: bool)
        ensures
            r == (self@ == ListenFieldsView::blank()),
    {
        self.listen.is_none()
            && self.listen_port.is_none()
            && self.bind_interface.is_none()
            && self.routing_mark.is_none()
            && self.reuse_addr.is_none()
            && self.netns.is_none()
            && self.tcp_fast_open.is_none()
            && self.tcp_multi_path.is_none()
            && self.disable_tcp_keep_alive.is_none()
            && self.tcp_keep_alive.is_none()
            && self.tcp_keep_alive_interval.is_none()
            && self.udp_fragment.is_none()
            && self.udp_timeout.is_none()
            && self.detour.is_none()
    }

    /// Reads the group from the entries of its owner, as
    /// `ListenFieldsView::from_group` says.
    pub fn from_group(es: &Vec<(Key, &Json)>) -> (r: Result<Option<ListenFields>, SchemaMismatch>)
        ensures
            match r {
                Ok(g) => ListenFieldsView::from_group(es.deep_view()) == Some(g.deep_view()),
                Err(_) => ListenFieldsView::from_group(es.deep_view()) is None,
            },
    {
        match ListenFields::from_record(es) {
            Ok(x) => if x.is_blank() {
                Ok(None)
            } else {
                Ok(Some(x))
            },
            Err(e) => Err(e),
        }
    }
}

} // verus!
