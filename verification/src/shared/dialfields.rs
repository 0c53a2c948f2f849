//! How an entry dials out.

use crate::json::{bool_json, copy_json, Entries, entries_of, get, get_field, is_null, Json, json_bool, json_text, json_u32, JsonView, Key, lemma_get_empty, lemma_get_merge, lemma_get_put, lemma_json_view, no_entries, optional, present, put, put_field, read_bool, read_entries, read_text, read_u32, SchemaMismatch, text_json, u32_json};
use vstd::prelude::*;

verus! {

/// Options of an outgoing connection; every one may be left unset.
#[derive(Debug, Clone, PartialEq)]
pub struct DialFields {
    pub detour: Option<String>,
    pub domain_resolver: Option<Json>,
    pub bind_interface: Option<String>,
    pub inet4_bind_address: Option<String>,
    pub inet6_bind_address: Option<String>,
    pub routing_mark: Option<u32>,
    pub reuse_addr: Option<bool>,
    pub connect_timeout: Option<String>,
    pub tcp_fast_open: Option<bool>,
    pub tcp_multi_path: Option<bool>,
    pub udp_fragment: Option<bool>,
}

/// What a [`DialFields`] holds, with every text as its characters.
pub struct DialFieldsView {
    pub detour: Option<Seq<char>>,
    pub domain_resolver: Option<JsonView>,
    pub bind_interface: Option<Seq<char>>,
    pub inet4_bind_address: Option<Seq<char>>,
    pub inet6_bind_address: Option<Seq<char>>,
    pub routing_mark: Option<u32>,
    pub reuse_addr: Option<bool>,
    pub connect_timeout: Option<Seq<char>>,
    pub tcp_fast_open: Option<bool>,
    pub tcp_multi_path: Option<bool>,
    pub udp_fragment: Option<bool>,
}

impl DeepView for DialFields {
    type V = DialFieldsView;

    open spec fn deep_view(&self) -> DialFieldsView {
        DialFieldsView {
            detour: self.detour.deep_view(),
            domain_resolver: self.domain_resolver.deep_view(),
            bind_interface: self.bind_interface.deep_view(),
            inet4_bind_address: self.inet4_bind_address.deep_view(),
            inet6_bind_address: self.inet6_bind_address.deep_view(),
            routing_mark: self.routing_mark.deep_view(),
            reuse_addr: self.reuse_addr.deep_view(),
            connect_timeout: self.connect_timeout.deep_view(),
            tcp_fast_open: self.tcp_fast_open.deep_view(),
            tcp_multi_path: self.tcp_multi_path.deep_view(),
            udp_fragment: self.udp_fragment.deep_view(),
        }
    }
}

impl View for DialFields {
    type V = DialFieldsView;

    open spec fn view(&self) -> DialFieldsView {
        self.deep_view()
    }
}

impl DialFieldsView {
    /// The view of what [`DialFields::new`] returns.
    pub open spec fn fresh() -> DialFieldsView {
        DialFieldsView {
            detour: None,
            domain_resolver: None,
            bind_interface: None,
            inet4_bind_address: None,
            inet6_bind_address: None,
            routing_mark: None,
            reuse_addr: None,
            connect_timeout: None,
            tcp_fast_open: None,
            tcp_multi_path: None,
            udp_fragment: None,
        }
    }
}

impl DialFields {
    /// Dial options with nothing set.
    pub fn new() -> (r: Self)
        ensures
            r@ == DialFieldsView::fresh(),
    {
        DialFields {
            detour: None,
            domain_resolver: None,
            bind_interface: None,
            inet4_bind_address: None,
            inet6_bind_address: None,
            routing_mark: None,
            reuse_addr: None,
            connect_timeout: None,
            tcp_fast_open: None,
            tcp_multi_path: None,
            udp_fragment: None,
        }
    }
}

impl DialFieldsView {
    /// The entries of the record that stands for the value: one for each
    /// field that is set, in the order of the fields.
    pub open spec fn record(self) -> Entries {
        let es = Seq::empty();
        let es = put(es, Key::Detour, present(self.detour, |x: Seq<char>| text_json(x)));
        let es = put(es, Key::DomainResolver, present(self.domain_resolver, |x: JsonView| x));
        let es = put(es, Key::BindInterface, present(self.bind_interface, |x: Seq<char>| text_json(x)));
        let es = put(es, Key::Inet4BindAddress, present(self.inet4_bind_address, |x: Seq<char>| text_json(x)));
        let es = put(es, Key::Inet6BindAddress, present(self.inet6_bind_address, |x: Seq<char>| text_json(x)));
        let es = put(es, Key::RoutingMark, present(self.routing_mark, |x: u32| u32_json(x)));
        let es = put(es, Key::ReuseAddr, present(self.reuse_addr, |x: bool| bool_json(x)));
        let es = put(es, Key::ConnectTimeout, present(self.connect_timeout, |x: Seq<char>| text_json(x)));
        let es = put(es, Key::TcpFastOpen, present(self.tcp_fast_open, |x: bool| bool_json(x)));
        let es = put(es, Key::TcpMultiPath, present(self.tcp_multi_path, |x: bool| bool_json(x)));
        let es = put(es, Key::UdpFragment, present(self.udp_fragment, |x: bool| bool_json(x)));
        es
    }

    /// The record that stands for the value.
    pub open spec fn to_json(self) -> JsonView {
        JsonView::Record(self.record())
    }

    /// The value that the entries of an object stand for. Fails where an
    /// entry holds a value of the wrong shape.
    pub open spec fn from_record(es: Entries) -> Option<DialFieldsView> {
        let detour = optional(get(es, Key::Detour), |j: JsonView| json_text(j));
        let domain_resolver = optional(get(es, Key::DomainResolver), |j: JsonView| Some(j));
        let bind_interface = optional(get(es, Key::BindInterface), |j: JsonView| json_text(j));
        let inet4_bind_address = optional(get(es, Key::Inet4BindAddress), |j: JsonView| json_text(j));
        let inet6_bind_address = optional(get(es, Key::Inet6BindAddress), |j: JsonView| json_text(j));
        let routing_mark = optional(get(es, Key::RoutingMark), |j: JsonView| json_u32(j));
        let reuse_addr = optional(get(es, Key::ReuseAddr), |j: JsonView| json_bool(j));
        let connect_timeout = optional(get(es, Key::ConnectTimeout), |j: JsonView| json_text(j));
        let tcp_fast_open = optional(get(es, Key::TcpFastOpen), |j: JsonView| json_bool(j));
        let tcp_multi_path = optional(get(es, Key::TcpMultiPath), |j: JsonView| json_bool(j));
        let udp_fragment = optional(get(es, Key::UdpFragment), |j: JsonView| json_bool(j));
        if detour is Some
            && domain_resolver is Some
            && bind_interface is Some
            && inet4_bind_address is Some
            && inet6_bind_address is Some
            && routing_mark is Some
            && reuse_addr is Some
            && connect_timeout is Some
            && tcp_fast_open is Some
            && tcp_multi_path is Some
            && udp_fragment is Some {
            Some(
                DialFieldsView {
                    detour: detour->0,
                    domain_resolver: domain_resolver->0,
                    bind_interface: bind_interface->0,
                    inet4_bind_address: inet4_bind_address->0,
                    inet6_bind_address: inet6_bind_address->0,
                    routing_mark: routing_mark->0,
                    reuse_addr: reuse_addr->0,
                    connect_timeout: connect_timeout->0,
                    tcp_fast_open: tcp_fast_open->0,
                    tcp_multi_path: tcp_multi_path->0,
                    udp_fragment: udp_fragment->0,
                },
            )
        } else {
            None
        }
    }

    /// The value that an object stands for; none for a value that is no
    /// object.
    pub open spec fn from_json(j: JsonView) -> Option<DialFieldsView> {
        match entries_of(j) {
            Some(es) => DialFieldsView::from_record(es),
            None => None,
        }
    }

    /// Whether the value is written in a form from which it is read back:
    /// the values that it holds are, and a group of fields that is present
    /// sets at least one of them.
    pub open spec fn canonical(self) -> bool {
        &&& match self.domain_resolver {
            Some(x) => x != JsonView::Null,
            None => true,
        }
    }

    /// The value with no field set.
    pub open spec fn blank() -> DialFieldsView {
        DialFieldsView {
            detour: None,
            domain_resolver: None,
            bind_interface: None,
            inet4_bind_address: None,
            inet6_bind_address: None,
            routing_mark: None,
            reuse_addr: None,
            connect_timeout: None,
            tcp_fast_open: None,
            tcp_multi_path: None,
            udp_fragment: None,
        }
    }

    /// The group that the entries of an object stand for where the fields
    /// of the group are written among those of its owner: no group where
    /// none of its fields is set.
    pub open spec fn from_group(es: Entries) -> Option<Option<DialFieldsView>> {
        match DialFieldsView::from_record(es) {
            Some(x) => if x == DialFieldsView::blank() {
                Some(None)
            } else {
                Some(Some(x))
            },
            None => None,
        }
    }

    /// What the group reads depends only on what stands under its keys.
    pub proof fn lemma_reads_own_keys(a: Entries, b: Entries)
        requires
            get(a, Key::Detour) == get(b, Key::Detour),
            get(a, Key::DomainResolver) == get(b, Key::DomainResolver),
            get(a, Key::BindInterface) == get(b, Key::BindInterface),
            get(a, Key::Inet4BindAddress) == get(b, Key::Inet4BindAddress),
            get(a, Key::Inet6BindAddress) == get(b, Key::Inet6BindAddress),
            get(a, Key::RoutingMark) == get(b, Key::RoutingMark),
            get(a, Key::ReuseAddr) == get(b, Key::ReuseAddr),
            get(a, Key::ConnectTimeout) == get(b, Key::ConnectTimeout),
            get(a, Key::TcpFastOpen) == get(b, Key::TcpFastOpen),
            get(a, Key::TcpMultiPath) == get(b, Key::TcpMultiPath),
            get(a, Key::UdpFragment) == get(b, Key::UdpFragment),
        ensures
            DialFieldsView::from_record(a) == DialFieldsView::from_record(b),
            DialFieldsView::from_group(a) == DialFieldsView::from_group(b),
    {
    }

    /// Entries that hold nothing under the keys of the group stand for no
    /// group.
    pub proof fn lemma_no_group(es: Entries)
        requires
            get(es, Key::Detour) is None,
            get(es, Key::DomainResolver) is None,
            get(es, Key::BindInterface) is None,
            get(es, Key::Inet4BindAddress) is None,
            get(es, Key::Inet6BindAddress) is None,
            get(es, Key::RoutingMark) is None,
            get(es, Key::ReuseAddr) is None,
            get(es, Key::ConnectTimeout) is None,
            get(es, Key::TcpFastOpen) is None,
            get(es, Key::TcpMultiPath) is None,
            get(es, Key::UdpFragment) is None,
        ensures
            DialFieldsView::from_group(es) == Some(None::<DialFieldsView>),
    {
    }

    /// The value is read back from the record that stands for it.
    pub proof fn lemma_round_trip(self)
        requires
            self.canonical(),
        ensures
            DialFieldsView::from_record(self.record()) == Some(self),
            DialFieldsView::from_json(self.to_json()) == Some(self),
            self != DialFieldsView::blank() ==> DialFieldsView::from_group(self.record()) == Some(Some(self)),
    {
        broadcast use {lemma_get_empty, lemma_get_put, lemma_get_merge};

        let es = self.record();
        assert(optional(get(es, Key::Detour), |j: JsonView| json_text(j)) == Some(self.detour));
        assert(optional(get(es, Key::DomainResolver), |j: JsonView| Some(j)) == Some(self.domain_resolver));
        assert(optional(get(es, Key::BindInterface), |j: JsonView| json_text(j)) == Some(self.bind_interface));
        assert(optional(get(es, Key::Inet4BindAddress), |j: JsonView| json_text(j)) == Some(self.inet4_bind_address));
        assert(optional(get(es, Key::Inet6BindAddress), |j: JsonView| json_text(j)) == Some(self.inet6_bind_address));
        assert(optional(get(es, Key::RoutingMark), |j: JsonView| json_u32(j)) == Some(self.routing_mark));
        assert(optional(get(es, Key::ReuseAddr), |j: JsonView| json_bool(j)) == Some(self.reuse_addr));
        assert(optional(get(es, Key::ConnectTimeout), |j: JsonView| json_text(j)) == Some(self.connect_timeout));
        assert(optional(get(es, Key::TcpFastOpen), |j: JsonView| json_bool(j)) == Some(self.tcp_fast_open));
        assert(optional(get(es, Key::TcpMultiPath), |j: JsonView| json_bool(j)) == Some(self.tcp_multi_path));
        assert(optional(get(es, Key::UdpFragment), |j: JsonView| json_bool(j)) == Some(self.udp_fragment));
    }
}

impl DialFields {
    /// The entries of the record that stands for the value, as
    /// `DialFieldsView::record` lists them.
    pub fn record(&self) -> (r: Vec<(Key, Json)>)
        ensures
            r.deep_view() == self@.record(),
    {
        let mut es: Vec<(Key, Json)> = no_entries();
        let ghost s = Seq::<(Key, JsonView)>::empty();
        let value = match &self.detour {
            Some(x) => Some(Json::Text(x.clone())),
            None => None,
        };
        put_field(&mut es, Key::Detour, value);
        let ghost s = put(s, Key::Detour, present(self@.detour, |x: Seq<char>| text_json(x)));
        assert(es.deep_view() == s);
        let value = match &self.domain_resolver {
            Some(x) => Some(x.duplicate()),
            None => None,
        };
        put_field(&mut es, Key::DomainResolver, value);
        let ghost s = put(s, Key::DomainResolver, present(self@.domain_resolver, |x: JsonView| x));
        assert(es.deep_view() == s);
        let value = match &self.bind_interface {
            Some(x) => Some(Json::Text(x.clone())),
            None => None,
        };
        put_field(&mut es, Key::BindInterface, value);
        let ghost s = put(s, Key::BindInterface, present(self@.bind_interface, |x: Seq<char>| text_json(x)));
        assert(es.deep_view() == s);
        let value = match &self.inet4_bind_address {
            Some(x) => Some(Json::Text(x.clone())),
            None => None,
        };
        put_field(&mut es, Key::Inet4BindAddress, value);
        let ghost s = put(s, Key::Inet4BindAddress, present(self@.inet4_bind_address, |x: Seq<char>| text_json(x)));
        assert(es.deep_view() == s);
        let value = match &self.inet6_bind_address {
            Some(x) => Some(Json::Text(x.clone())),
            None => None,
        };
        put_field(&mut es, Key::Inet6BindAddress, value);
        let ghost s = put(s, Key::Inet6BindAddress, present(self@.inet6_bind_address, |x: Seq<char>| text_json(x)));
        assert(es.deep_view() == s);
        let value = match &self.routing_mark {
            Some(x) => Some(Json::Unsigned(*x as u64)),
            None => None,
        };
        put_field(&mut es, Key::RoutingMark, value);
        let ghost s = put(s, Key::RoutingMark, present(self@.routing_mark, |x: u32| u32_json(x)));
        assert(es.deep_view() == s);
        let value = match &self.reuse_addr {
            Some(x) => Some(Json::Bool(*x)),
            None => None,
        };
        put_field(&mut es, Key::ReuseAddr, value);
        let ghost s = put(s, Key::ReuseAddr, present(self@.reuse_addr, |x: bool| bool_json(x)));
        assert(es.deep_view() == s);
        let value = match &self.connect_timeout {
            Some(x) => Some(Json::Text(x.clone())),
            None => None,
        };
        put_field(&mut es, Key::ConnectTimeout, value);
        let ghost s = put(s, Key::ConnectTimeout, present(self@.connect_timeout, |x: Seq<char>| text_json(x)));
        assert(es.deep_view() == s);
        let value = match &self.tcp_fast_open {
            Some(x) => Some(Json::Bool(*x)),
            None => None,
        };
        put_field(&mut es, Key::TcpFastOpen, value);
        let ghost s = put(s, Key::TcpFastOpen, present(self@.tcp_fast_open, |x: bool| bool_json(x)));
        assert(es.deep_view() == s);
        let value = match &self.tcp_multi_path {
            Some(x) => Some(Json::Bool(*x)),
            None => None,
        };
        put_field(&mut es, Key::TcpMultiPath, value);
        let ghost s = put(s, Key::TcpMultiPath, present(self@.tcp_multi_path, |x: bool| bool_json(x)));
        assert(es.deep_view() == s);
        let value = match &self.udp_fragment {
            Some(x) => Some(Json::Bool(*x)),
            None => None,
        };
        put_field(&mut es, Key::UdpFragment, value);
        let ghost s = put(s, Key::UdpFragment, present(self@.udp_fragment, |x: bool| bool_json(x)));
        assert(es.deep_view() == s);
        es
    }

    /// The record that stands for the value.
    pub fn to_json(&self) -> (r: Json)
        ensures
            r@ == self@.to_json(),
    {
        let r = Json::Record(self.record());
        proof {
            lemma_json_view(r);
        }
        r
    }

    /// Reads the value from the entries of an object, as
    /// `DialFieldsView::from_record` says.
    pub fn from_record(es: &Vec<(Key, &Json)>) -> (r: Result<DialFields, SchemaMismatch>)
        ensures
            match r {
                Ok(x) => DialFieldsView::from_record(es.deep_view()) == Some(x@),
                Err(_) => DialFieldsView::from_record(es.deep_view()) is None,
            },
    {
        let detour = match get_field(es, Key::Detour) {
            Some(j) => if is_null(j) {
                None
            } else {
                match read_text(j) {
                    Ok(x) => Some(x),
                    Err(e) => {
                        return Err(e);
                    },
                }
            },
            None => None,
        };
        assert(optional(get(es.deep_view(), Key::Detour), |j: JsonView| json_text(j)) == Some(detour.deep_view()));
        let domain_resolver = match get_field(es, Key::DomainResolver) {
            Some(j) => if is_null(j) {
                None
            } else {
                match copy_json(j) {
                    Ok(x) => Some(x),
                    Err(e) => {
                        return Err(e);
                    },
                }
            },
            None => None,
        };
        assert(optional(get(es.deep_view(), Key::DomainResolver), |j: JsonView| Some(j)) == Some(domain_resolver.deep_view()));
        let bind_interface = match get_field(es, Key::BindInterface) {
            Some(j) => if is_null(j) {
                None
            } else {
                match read_text(j) {
                    Ok(x) => Some(x),
                    Err(e) => {
                        return Err(e);
                    },
                }
            },
            None => None,
        };
        assert(optional(get(es.deep_view(), Key::BindInterface), |j: JsonView| json_text(j)) == Some(bind_interface.deep_view()));
        let inet4_bind_address = match get_field(es, Key::Inet4BindAddress) {
            Some(j) => if is_null(j) {
                None
            } else {
                match read_text(j) {
                    Ok(x) => Some(x),
                    Err(e) => {
                        return Err(e);
                    },
                }
            },
            None => None,
        };
        assert(optional(get(es.deep_view(), Key::Inet4BindAddress), |j: JsonView| json_text(j)) == Some(inet4_bind_address.deep_view()));
        let inet6_bind_address = match get_field(es, Key::Inet6BindAddress) {
            Some(j) => if is_null(j) {
                None
            } else {
                match read_text(j) {
                    Ok(x) => Some(x),
                    Err(e) => {
                        return Err(e);
                    },
                }
            },
            None => None,
        };
        assert(optional(get(es.deep_view(), Key::Inet6BindAddress), |j: JsonView| json_text(j)) == Some(inet6_bind_address.deep_view()));
        let routing_mark = match get_field(es, Key::RoutingMark) {
            Some(j) => if is_null(j) {
                None
            } else {
                match read_u32(j) {
                    Ok(x) => Some(x),
                    Err(e) => {
                        return Err(e);
                    },
                }
            },
            None => None,
        };
        assert(optional(get(es.deep_view(), Key::RoutingMark), |j: JsonView| json_u32(j)) == Some(routing_mark.deep_view()));
        let reuse_addr = match get_field(es, Key::ReuseAddr) {
            Some(j) => if is_null(j) {
                None
            } else {
                match read_bool(j) {
                    Ok(x) => Some(x),
                    Err(e) => {
                        return Err(e);
                    },
                }
            },
            None => None,
        };
        assert(optional(get(es.deep_view(), Key::ReuseAddr), |j: JsonView| json_bool(j)) == Some(reuse_addr.deep_view()));
        let connect_timeout = match get_field(es, Key::ConnectTimeout) {
            Some(j) => if is_null(j) {
                None
            } else {
                match read_text(j) {
                    Ok(x) => Some(x),
                    Err(e) => {
                        return Err(e);
                    },
                }
            },
            None => None,
        };
        assert(optional(get(es.deep_view(), Key::ConnectTimeout), |j: JsonView| json_text(j)) == Some(connect_timeout.deep_view()));
        let tcp_fast_open = match get_field(es, Key::TcpFastOpen) {
            Some(j) => if is_null(j) {
                None
            } else {
                match read_bool(j) {
                    Ok(x) => Some(x),
                    Err(e) => {
                        return Err(e);
                    },
                }
            },
            None => None,
        };
        assert(optional(get(es.deep_view(), Key::TcpFastOpen), |j: JsonView| json_bool(j)) == Some(tcp_fast_open.deep_view()));
        let tcp_multi_path = match get_field(es, Key::TcpMultiPath) {
            Some(j) => if is_null(j) {
                None
            } else {
                match read_bool(j) {
                    Ok(x) => Some(x),
                    Err(e) => {
                        return Err(e);
                    },
                }
            },
            None => None,
        };
        assert(optional(get(es.deep_view(), Key::TcpMultiPath), |j: JsonView| json_bool(j)) == Some(tcp_multi_path.deep_view()));
        let udp_fragment = match get_field(es, Key::UdpFragment) {
            Some(j) => if is_null(j) {
                None
            } else {
                match read_bool(j) {
                    Ok(x) => Some(x),
                    Err(e) => {
                        return Err(e);
                    },
                }
            },
            None => None,
        };
        assert(optional(get(es.deep_view(), Key::UdpFragment), |j: JsonView| json_bool(j)) == Some(udp_fragment.deep_view()));
        Ok(DialFields { detour, domain_resolver, bind_interface, inet4_bind_address, inet6_bind_address, routing_mark, reuse_addr, connect_timeout, tcp_fast_open, tcp_multi_path, udp_fragment })
    }

    /// Reads the value from an object, as `DialFieldsView::from_json` says.
    pub fn from_json(j: &Json) -> (r: Result<DialFields, SchemaMismatch>)
        ensures
            match r {
                Ok(x) => DialFieldsView::from_json(j@) == Some(x@),
                Err(_) => DialFieldsView::from_json(j@) is None,
            },
    {
        match read_entries(j) {
            Ok(es) => DialFields::from_record(&es),
            Err(e) => Err(e),
        }
    }

    /// Whether no field of the group is set.
    pub fn is_blank(&self) -> (r: bool)
        ensures
            r == (self@ == DialFieldsView::blank()),
    {
        self.detour.is_none()
            && self.domain_resolver.is_none()
            && self.bind_interface.is_none()
            && self.inet4_bind_address.is_none()
            && self.inet6_bind_address.is_none()
            && self.routing_mark.is_none()
            && self.reuse_addr.is_none()
            && self.connect_timeout.is_none()
            && self.tcp_fast_open.is_none()
            && self.tcp_multi_path.is_none()
            && self.udp_fragment.is_none()
    }

    /// Reads the group from the entries of its owner, as
    /// `DialFieldsView::from_group` says.
    pub fn from_group(es: &Vec<(Key, &Json)>) -> (r: Result<Option<DialFields>, SchemaMismatch>)
        ensures
            match r {
                Ok(g) => DialFieldsView::from_group(es.deep_view()) == Some(g.deep_view()),
                Err(_) => DialFieldsView::from_group(es.deep_view()) is None,
            },
    {
        match DialFields::from_record(es) {
            Ok(x) => if x.is_blank() {
                Ok(None)
            } else {
                Ok(Some(x))
            },
            Err(e) => Err(e),
        }
    }
}

} // verus!
