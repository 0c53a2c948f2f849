//! The document: its four sections, and what builds and checks it.

use crate::defaults::{DNS_UDP_SERVER, LOOPBACK, MIXED_PORT, VLESS_TYPE};
use crate::dns::{DnsConfig, DnsConfigView};
use crate::error::CompileError;
use crate::inbound::{Inbound, InboundConfig, InboundConfigView, InboundView};
use crate::json::{Entries, entries_of, get, get_field, Json, JsonView, Key, lemma_get_empty, lemma_get_merge, lemma_get_put, lemma_json_view, no_entries, present, put, put_field, read_entries, required, SchemaMismatch};
use crate::outbound::{OutboundConfig, OutboundConfigView, OutboundView};
use crate::outbound::vless::{compiled_link, Config, law_compiled_is_canonical, link_fields, VlessConfig, VlessConfigView};
use crate::route::{default_rules, derived_rules, law_derived_rules_resolve, resolves, RouteConfig, RouteConfigView};
use crate::route::routerule::{DefaultRouteRule, RouteRuleView};
use crate::uri::uri_parts;
use vstd::prelude::*;

verus! {

/// A configuration document: one section each for DNS, inbounds, outbounds and routes.
#[derive(Debug, PartialEq)]
pub struct Configurator {
    pub dns: DnsConfig,
    pub inbounds: InboundConfig,
    pub outbounds: OutboundConfig,
    pub route: RouteConfig,
}

/// What a [`Configurator`] holds, with every text as its characters.
pub struct ConfiguratorView {
    pub dns: DnsConfigView,
    pub inbounds: InboundConfigView,
    pub outbounds: OutboundConfigView,
    pub route: RouteConfigView,
}

impl DeepView for Configurator {
    type V = ConfiguratorView;

    open spec fn deep_view(&self) -> ConfiguratorView {
        ConfiguratorView {
            dns: self.dns.deep_view(),
            inbounds: self.inbounds.deep_view(),
            outbounds: self.outbounds.deep_view(),
            route: self.route.deep_view(),
        }
    }
}

impl View for Configurator {
    type V = ConfiguratorView;

    open spec fn view(&self) -> ConfiguratorView {
        self.deep_view()
    }
}

impl ConfiguratorView {
    /// The entries of the record that stands for the value: one for each
    /// field that is set, in the order of the fields.
    pub open spec fn record(self) -> Entries {
        let es = Seq::empty();
        let es = put(es, Key::Dns, Some(self.dns.to_json()));
        let es = put(es, Key::Inbounds, Some(self.inbounds.to_json()));
        let es = put(es, Key::Outbounds, Some(self.outbounds.to_json()));
        let es = put(es, Key::Route, Some(self.route.to_json()));
        es
    }

    /// The record that stands for the value.
    pub open spec fn to_json(self) -> JsonView {
        JsonView::Record(self.record())
    }

    /// The value that the entries of an object stand for. Fails where an
    /// entry holds a value of the wrong shape, or a required entry is missing.
    pub open spec fn from_record(es: Entries) -> Option<ConfiguratorView> {
        let dns = required(get(es, Key::Dns), |j: JsonView| DnsConfigView::from_json(j));
        let inbounds = required(get(es, Key::Inbounds), |j: JsonView| InboundConfigView::from_json(j));
        let outbounds = required(get(es, Key::Outbounds), |j: JsonView| OutboundConfigView::from_json(j));
        let route = required(get(es, Key::Route), |j: JsonView| RouteConfigView::from_json(j));
        if dns is Some
            && inbounds is Some
            && outbounds is Some
            && route is Some {
            Some(
                ConfiguratorView {
                    dns: dns->0,
                    inbounds: inbounds->0,
                    outbounds: outbounds->0,
                    route: route->0,
                },
            )
        } else {
            None
        }
    }

    /// The value that an object stands for; none for a value that is no
    /// object.
    pub open spec fn from_json(j: JsonView) -> Option<ConfiguratorView> {
        match entries_of(j) {
            Some(es) => ConfiguratorView::from_record(es),
            None => None,
        }
    }

    /// Whether the value is written in a form from which it is read back:
    /// the values that it holds are, and a group of fields that is present
    /// sets at least one of them.
    pub open spec fn canonical(self) -> bool {
        &&& self.dns.canonical()
        &&& self.inbounds.canonical()
        &&& self.outbounds.canonical()
        &&& self.route.canonical()
    }

    /// The value is read back from the record that stands for it.
    pub proof fn lemma_round_trip(self)
        requires
            self.canonical(),
        ensures
            ConfiguratorView::from_record(self.record()) == Some(self),
            ConfiguratorView::from_json(self.to_json()) == Some(self),
    {
        broadcast use {lemma_get_empty, lemma_get_put, lemma_get_merge};

        let es = self.record();
        self.dns.lemma_round_trip();
        assert(required(get(es, Key::Dns), |j: JsonView| DnsConfigView::from_json(j)) == Some(self.dns));
        self.inbounds.lemma_round_trip();
        assert(required(get(es, Key::Inbounds), |j: JsonView| InboundConfigView::from_json(j)) == Some(self.inbounds));
        self.outbounds.lemma_round_trip();
        assert(required(get(es, Key::Outbounds), |j: JsonView| OutboundConfigView::from_json(j)) == Some(self.outbounds));
        self.route.lemma_round_trip();
        assert(required(get(es, Key::Route), |j: JsonView| RouteConfigView::from_json(j)) == Some(self.route));
    }
}

impl Configurator {
    /// The entries of the record that stands for the value, as
    /// `ConfiguratorView::record` lists them.
    pub fn record(&self) -> (r: Vec<(Key, Json)>)
        ensures
            r.deep_view() == self@.record(),
    {
        let mut es: Vec<(Key, Json)> = no_entries();
        let ghost s = Seq::<(Key, JsonView)>::empty();
        put_field(&mut es, Key::Dns, Some((&self.dns).to_json()));
        let ghost s = put(s, Key::Dns, Some(self@.dns.to_json()));
        assert(es.deep_view() == s);
        put_field(&mut es, Key::Inbounds, Some((&self.inbounds).to_json()));
        let ghost s = put(s, Key::Inbounds, Some(self@.inbounds.to_json()));
        assert(es.deep_view() == s);
        put_field(&mut es, Key::Outbounds, Some((&self.outbounds).to_json()));
        let ghost s = put(s, Key::Outbounds, Some(self@.outbounds.to_json()));
        assert(es.deep_view() == s);
        put_field(&mut es, Key::Route, Some((&self.route).to_json()));
        let ghost s = put(s, Key::Route, Some(self@.route.to_json()));
        assert(es.deep_view() == s);
        es
    }

    /// The record that stands for the value.
    pub fn to_json(&self) -> (r: Json)
        ensures
            r@ == self@.to_json(),
    {
        let r = Json::Record(self.record());
        proof {
            lemma_json_view(r);
        }
        r
    }

    /// Reads the value from the entries of an object, as
    /// `ConfiguratorView::from_record` says.
    pub fn from_record(es: &Vec<(Key, &Json)>) -> (r: Result<Configurator, SchemaMismatch>)
        ensures
            match r {
                Ok(x) => ConfiguratorView::from_record(es.deep_view()) == Some(x@),
                Err(_) => ConfiguratorView::from_record(es.deep_view()) is None,
            },
    {
        let dns = match get_field(es, Key::Dns) {
            Some(j) => match DnsConfig::from_json(j) {
                Ok(x) => x,
                Err(e) => {
                    return Err(e);
                },
            },
            None => {
                return Err(SchemaMismatch);
            },
        };
        assert(required(get(es.deep_view(), Key::Dns), |j: JsonView| DnsConfigView::from_json(j)) == Some(dns.deep_view()));
        let inbounds = match get_field(es, Key::Inbounds) {
            Some(j) => match InboundConfig::from_json(j) {
                Ok(x) => x,
                Err(e) => {
                    return Err(e);
                },
            },
            None => {
                return Err(SchemaMismatch);
            },
        };
        assert(required(get(es.deep_view(), Key::Inbounds), |j: JsonView| InboundConfigView::from_json(j)) == Some(inbounds.deep_view()));
        let outbounds = match get_field(es, Key::Outbounds) {
            Some(j) => match OutboundConfig::from_json(j) {
                Ok(x) => x,
                Err(e) => {
                    return Err(e);
                },
            },
            None => {
                return Err(SchemaMismatch);
            },
        };
        assert(required(get(es.deep_view(), Key::Outbounds), |j: JsonView| OutboundConfigView::from_json(j)) == Some(outbounds.deep_view()));
        let route = match get_field(es, Key::Route) {
            Some(j) => match RouteConfig::from_json(j) {
                Ok(x) => x,
                Err(e) => {
                    return Err(e);
                },
            },
            None => {
                return Err(SchemaMismatch);
            },
        };
        assert(required(get(es.deep_view(), Key::Route), |j: JsonView| RouteConfigView::from_json(j)) == Some(route.deep_view()));
        Ok(Configurator { dns, inbounds, outbounds, route })
    }

    /// Reads the value from an object, as `ConfiguratorView::from_json` says.
    pub fn from_json(j: &Json) -> (r: Result<Configurator, SchemaMismatch>)
        ensures
            match r {
                Ok(x) => ConfiguratorView::from_json(j@) == Some(x@),
                Err(_) => ConfiguratorView::from_json(j@) is None,
            },
    {
        match read_entries(j) {
            Ok(es) => Configurator::from_record(&es),
            Err(e) => Err(e),
        }
    }
}

impl ConfiguratorView {
    /// A document whose four sections hold nothing.
    pub open spec fn empty() -> ConfiguratorView {
        ConfiguratorView {
            dns: DnsConfigView::fresh(),
            inbounds: InboundConfigView { inbounds: Seq::empty() },
            outbounds: OutboundConfigView { outbounds: Seq::empty() },
            route: RouteConfigView::fresh(),
        }
    }

    /// The seeded document: a local and a UDP resolver, a mixed inbound on
    /// the loopback address that is set as the system proxy, a direct
    /// outbound, and the three rules derived from these sections.
    pub open spec fn seeded() -> ConfiguratorView {
        let dns = DnsConfigView::fresh().with_local(None).with_udp(None, DNS_UDP_SERVER@);
        let inbounds = InboundConfigView { inbounds: Seq::empty() }.with_mixed(
            None,
            LOOPBACK@,
            MIXED_PORT,
            true,
        );
        let outbounds = OutboundConfigView { outbounds: Seq::empty() }.with_direct(None);
        let route = RouteConfigView {
            rules: match derived_rules(dns, outbounds) {
                Ok(rules) => Some(rules),
                Err(_) => None,
            },
            ..RouteConfigView::fresh()
        };
        ConfiguratorView { dns, inbounds, outbounds, route }
    }

    /// The document with one more VLESS outbound, and with the route
    /// section's final target set to the tag of the first VLESS outbound
    /// that the outbound section then holds. Where that outbound cannot be
    /// named, the reference is unresolved.
    pub open spec fn with_link(self, vless: VlessConfigView) -> Result<
        ConfiguratorView,
        CompileError,
    > {
        let outbounds = self.outbounds.with_vless(vless);
        match outbounds.tag_of_type(VLESS_TYPE@) {
            Some(tag) => Ok(
                ConfiguratorView {
                    outbounds,
                    route: RouteConfigView { default: Some(tag), ..self.route },
                    ..self
                },
            ),
            None => Err(CompileError::UnresolvedTagReference),
        }
    }

    /// The document that is built around one VLESS outbound alone: a mixed
    /// inbound on the loopback address that is set as the system proxy, a
    /// direct inbound, the outbound, and empty DNS and route sections.
    pub open spec fn around(vless: VlessConfigView) -> ConfiguratorView {
        ConfiguratorView {
            dns: DnsConfigView::fresh(),
            inbounds: InboundConfigView { inbounds: Seq::empty() }.with_mixed(
                None,
                LOOPBACK@,
                MIXED_PORT,
                true,
            ).with_direct(None),
            outbounds: OutboundConfigView { outbounds: Seq::empty() }.with_vless(vless),
            route: RouteConfigView::fresh(),
        }
    }

    /// Whether every reference by tag names an entry that the document
    /// holds: the target of each route rule that has one and the final
    /// target of the route section name an outbound, and the final server of
    /// the DNS section names a DNS server.
    pub open spec fn references_resolve(self) -> bool {
        &&& forall|i: int|
            0 <= i < self.route.all_rules().len() && (#[trigger] self.route.all_rules()[i]).target()
                is Some ==> resolves(self.route.all_rules()[i].target(), self.outbounds)
        &&& self.route.default is Some ==> resolves(self.route.default, self.outbounds)
        &&& match self.dns.default {
            Some(tag) => self.dns.has_tag(tag),
            None => true,
        }
    }
}

/// The document that a link compiles to: the seeded document with the
/// outbound of the link, or the error that ended the compilation.
pub open spec fn compiled_document(input: Seq<char>) -> Result<ConfiguratorView, CompileError> {
    match compiled_link(input) {
        Ok(vless) => ConfiguratorView::seeded().with_link(vless),
        Err(e) => Err(e),
    }
}

/// A result that carries a document, with the document as its view.
pub open spec fn document_outcome(res: Result<Configurator, CompileError>) -> Result<
    ConfiguratorView,
    CompileError,
> {
    match res {
        Ok(doc) => Ok(doc@),
        Err(e) => Err(e),
    }
}

impl Configurator {
    /// A document whose four sections hold nothing.
    pub fn new() -> (r: Self)
        ensures
            r@ == ConfiguratorView::empty(),
    {
        let r = Configurator {
            dns: DnsConfig::new(),
            inbounds: InboundConfig::new(),
            outbounds: OutboundConfig::new(),
            route: RouteConfig::new(),
        };
        assert(r.inbounds@.inbounds =~= Seq::empty());
        assert(r.outbounds@.outbounds =~= Seq::empty());
        r
    }

    /// Makes the document the seeded one, whatever it held.
    pub fn default(&mut self) -> (r: &mut Self)
        ensures
            r@ == ConfiguratorView::seeded(),
            *final(self) == *final(r),
    {
        let mut doc = Configurator::new();
        doc.dns.add_local(None).add_udp(None, DNS_UDP_SERVER.to_owned());
        doc.inbounds.add_mixed(None, LOOPBACK.to_owned(), MIXED_PORT, true);
        doc.outbounds.add_direct(None);
        proof {
            lemma_seeded_rules();
            assert(doc.inbounds@.inbounds =~= ConfiguratorView::seeded().inbounds.inbounds);
            assert(doc.outbounds@.outbounds =~= ConfiguratorView::seeded().outbounds.outbounds);
        }
        match default_rules(&doc.dns, &doc.outbounds) {
            Ok(rules) => {
                doc.route.rules = Some(rules);
            },
            Err(_) => {},
        }
        *self = doc;
        self
    }

    /// Adds a VLESS outbound and makes it the route section's final target,
    /// as `with_link` says. On an error the document is left unchanged.
    pub fn set_outbound(&mut self, vless: VlessConfig) -> (res: Result<(), CompileError>)
        ensures
            match res {
                Ok(()) => old(self)@.with_link(vless@) == Ok::<ConfiguratorView, CompileError>(
                    final(self)@,
                ),
                Err(e) => old(self)@.with_link(vless@) == Err::<ConfiguratorView, CompileError>(e)
                    && final(self)@ == old(self)@,
            },
    {
        let ghost before = self.outbounds@.outbounds;
        self.outbounds.add_vless(vless);
        let ghost added = self.outbounds@.outbounds;
        assert(added == before.push(OutboundView::Vless(vless@)));
        assert(added.len() == self.outbounds.outbounds@.len());
        match DefaultRouteRule::set_final_by_type(&self.outbounds, VLESS_TYPE) {
            Ok(tag) => {
                self.route.default = Some(tag);
                Ok(())
            },
            Err(e) => {
                self.outbounds.outbounds.pop();
                assert(self.outbounds@.outbounds =~= added.drop_last());
                assert(added.drop_last() =~= before);
                Err(e)
            },
        }
    }

    /// Compiles a link and adds its outbound, as `set_outbound` does. On an
    /// error the document is left unchanged.
    pub fn set_outbound_from_url(&mut self, url: &str) -> (res: Result<(), CompileError>)
        ensures
            match res {
                Ok(()) => compiled_link(url@) matches Ok(vless) && old(self)@.with_link(vless)
                    == Ok::<ConfiguratorView, CompileError>(final(self)@),
                Err(e) => final(self)@ == old(self)@ && match compiled_link(url@) {
                    Ok(vless) => old(self)@.with_link(vless) == Err::<
                        ConfiguratorView,
                        CompileError,
                    >(e),
                    Err(c) => e == c,
                },
            },
    {
        match VlessConfig::from_url(url) {
            Ok(vless) => self.set_outbound(vless),
            Err(e) => Err(e),
        }
    }

    /// The document that is built around one VLESS outbound alone, as
    /// `around` says.
    pub fn around(vless: VlessConfig) -> (r: Self)
        ensures
            r@ == ConfiguratorView::around(vless@),
    {
        let mut doc = Configurator::new();
        doc.inbounds.add_mixed(None, LOOPBACK.to_owned(), MIXED_PORT, true).add_direct(None);
        doc.outbounds.add_vless(vless);
        proof {
            assert(doc.inbounds@.inbounds =~= ConfiguratorView::around(vless@).inbounds.inbounds);
            assert(doc.outbounds@.outbounds =~= ConfiguratorView::around(
                vless@,
            ).outbounds.outbounds);
        }
        doc
    }

    /// Compiles a link into the document that is built around its outbound
    /// alone.
    pub fn from(input: &str) -> (res: Result<Self, CompileError>)
        ensures
            document_outcome(res) == match compiled_link(input@) {
                Ok(vless) => Ok(ConfiguratorView::around(vless)),
                Err(e) => Err(e),
            },
    {
        match VlessConfig::from_url(input) {
            Ok(vless) => Ok(Configurator::around(vless)),
            Err(e) => Err(e),
        }
    }

    /// Checks every reference by tag against the section that it refers to,
    /// as `references_resolve` says.
    pub fn check_references(&self) -> (res: Result<(), CompileError>)
        ensures
            match res {
                Ok(()) => self@.references_resolve(),
                Err(e) => !self@.references_resolve() && e == CompileError::UnresolvedTagReference,
            },
    {
        match &self.dns.default {
            Some(tag) => {
                if !self.dns.has_tag(tag.as_str()) {
                    return Err(CompileError::UnresolvedTagReference);
                }
            },
            None => {},
        }
        match &self.route.default {
            Some(tag) => {
                if !self.outbounds.has_tag(tag.as_str()) {
                    return Err(CompileError::UnresolvedTagReference);
                }
            },
            None => {},
        }
        match &self.route.rules {
            Some(rules) => {
                let mut i: usize = 0;
                while i < rules.len()
                    invariant
                        i <= rules.len(),
                        self.route.rules == Some(*rules),
                        forall|j: int|
                            0 <= j < i && (#[trigger] self@.route.all_rules()[j]).target() is Some
                                ==> resolves(
                                self@.route.all_rules()[j].target(),
                                self@.outbounds,
                            ),
                    decreases rules.len() - i,
                {
                    assert(self@.route.all_rules()[i as int] == rules@[i as int]@);
                    match rules[i].target() {
                        Some(tag) => {
                            if !self.outbounds.has_tag(tag.as_str()) {
                                return Err(CompileError::UnresolvedTagReference);
                            }
                        },
                        None => {},
                    }
                    i += 1;
                }
            },
            None => {},
        }
        Ok(())
    }
}

/// The rules of the seeded document are derived without an error: its
/// sections hold a local resolver and a direct outbound, each under a tag.
pub proof fn lemma_seeded_rules()
    ensures
        derived_rules(ConfiguratorView::seeded().dns, ConfiguratorView::seeded().outbounds) is Ok,
{
    let doc = ConfiguratorView::seeded();
    let servers = doc.dns.entries();
    assert(servers[0].config_type() == Some("local"@));
    let outs = doc.outbounds.entries();
    assert(outs[0].config_type() == Some("direct"@));
}

/// The seeded document has three rules, and each of them sends its
/// connections to an outbound that the document holds.
pub proof fn law_seeded_rules_resolve()
    ensures
        ConfiguratorView::seeded().route.all_rules().len() == 3,
        forall|i: int|
            0 <= i < 3 ==> resolves(
                (#[trigger] ConfiguratorView::seeded().route.all_rules()[i]).target(),
                ConfiguratorView::seeded().outbounds,
            ),
        ConfiguratorView::seeded().references_resolve(),
{
    let doc = ConfiguratorView::seeded();
    lemma_seeded_rules();
    law_derived_rules_resolve(doc.dns, doc.outbounds);
}

/// Compiles a link into a document: the seeded document with the outbound
/// of the link as the route section's final target.
pub fn compile(uri: &str) -> (res: Result<Configurator, CompileError>)
    ensures
        document_outcome(res) == compiled_document(uri@),
{
    let vless = match VlessConfig::from_url(uri) {
        Ok(vless) => vless,
        Err(e) => {
            return Err(e);
        },
    };
    let mut doc = Configurator::new();
    doc.default();
    match doc.set_outbound(vless) {
        Ok(()) => Ok(doc),
        Err(e) => Err(e),
    }
}

impl Configurator {
    /// The serializable form of the document: a record of its four sections.
    pub fn to_serializable(&self) -> (r: Json)
        ensures
            r@ == self@.to_json(),
    {
        self.to_json()
    }

    /// Reads a document back from its serializable form.
    pub fn from_serializable(j: &Json) -> (r: Result<Configurator, SchemaMismatch>)
        ensures
            match r {
                Ok(doc) => ConfiguratorView::from_json(j@) == Some(doc@),
                Err(_) => ConfiguratorView::from_json(j@) is None,
            },
    {
        Configurator::from_json(j)
    }
}

/// A document is read back from its serializable form as it was, where it
/// is written in a form from which it is read back: every tag, every entry
/// of every section and every value of every field.
pub proof fn law_round_trip(doc: ConfiguratorView)
    requires
        doc.canonical(),
    ensures
        ConfiguratorView::from_json(doc.to_json()) == Some(doc),
{
    doc.lemma_round_trip();
}

/// The seeded document is written in a form from which it is read back.
pub proof fn law_seeded_is_canonical()
    ensures
        ConfiguratorView::seeded().canonical(),
{
    let doc = ConfiguratorView::seeded();
    lemma_seeded_rules();
    assert(doc.dns.canonical()) by {
        let servers = doc.dns.servers->0;
        assert(servers.len() == 2);
        assert(servers[0].canonical());
        assert(servers[1].canonical());
    }
    assert(doc.inbounds.canonical()) by {
        let inbounds = doc.inbounds.inbounds;
        assert(inbounds.len() == 1);
        assert(inbounds[0].canonical());
    }
    assert(doc.outbounds.canonical()) by {
        let outbounds = doc.outbounds.outbounds;
        assert(outbounds.len() == 1);
        assert(outbounds[0].canonical());
    }
    assert(doc.route.canonical()) by {
        let rules = doc.route.rules->0;
        assert(rules.len() == 3);
        assert(rules[0].canonical());
        assert(rules[1].canonical());
        assert(rules[2].canonical());
    }
}

/// Adding the outbound of a link keeps a document in a form from which it
/// is read back.
pub proof fn law_link_keeps_canonical(doc: ConfiguratorView, vless: VlessConfigView)
    requires
        doc.canonical(),
        vless.canonical(),
        vless.config_type == Some("vless"@),
    ensures
        doc.with_link(vless) matches Ok(next) ==> next.canonical(),
{
    match doc.with_link(vless) {
        Ok(next) => {
            let before = doc.outbounds.outbounds;
            let after = next.outbounds.outbounds;
            assert(after == before.push(OutboundView::Vless(vless)));
            assert forall|i: int| 0 <= i < after.len() implies (#[trigger] after[i]).canonical() by {
                if i < before.len() {
                    assert(after[i] == before[i]);
                }
            }
        },
        Err(_) => {},
    }
}

/// Every document that a link compiles to is read back from its
/// serializable form as it was.
pub proof fn law_compiled_document_round_trip(input: Seq<char>)
    ensures
        compiled_document(input) matches Ok(doc) ==> ConfiguratorView::from_json(doc.to_json())
            == Some(doc),
{
    match compiled_document(input) {
        Ok(doc) => {
            let parts = uri_parts(input)->0;
            let vless = compiled_link(input)->Ok_0;
            law_compiled_is_canonical(link_fields(parts));
            law_seeded_is_canonical();
            law_link_keeps_canonical(ConfiguratorView::seeded(), vless);
            doc.lemma_round_trip();
        },
        Err(_) => {},
    }
}

/// The system proxy that an inbound asks for: a mixed inbound that is
/// flagged as the system proxy and listens on an address and a port gives
/// that address and port, and serves SOCKS.
pub open spec fn system_proxy_of(inbound: InboundView) -> Option<(Seq<char>, u16, bool)> {
    match inbound {
        InboundView::Mixed(m) => match m.listen {
            Some(l) => if m.set_system_proxy == Some(true) && l.listen is Some && l.listen_port
                is Some {
                Some((l.listen->0, l.listen_port->0, true))
            } else {
                None
            },
            None => None,
        },
        InboundView::Direct(_) => None,
    }
}

/// The system proxies that the inbounds ask for, in the order of the
/// inbounds.
pub open spec fn system_proxies(inbounds: Seq<InboundView>) -> Seq<(Seq<char>, u16, bool)>
    decreases inbounds.len(),
{
    if inbounds.len() == 0 {
        Seq::empty()
    } else {
        match system_proxy_of(inbounds.last()) {
            Some(p) => system_proxies(inbounds.drop_last()).push(p),
            None => system_proxies(inbounds.drop_last()),
        }
    }
}

impl Configurator {
    /// The system proxies that the inbounds of the document ask for: the
    /// address, the port, and whether SOCKS is served.
    pub fn get_list_of_system_proxies(&self) -> (r: Vec<(String, u16, bool)>)
        ensures
            r.deep_view() == system_proxies(self@.inbounds.inbounds),
    {
        let mut out: Vec<(String, u16, bool)> = Vec::new();
        let inbounds = &self.inbounds.inbounds;
        let ghost all = inbounds.deep_view();
        let mut i: usize = 0;
        assert(all.take(0) =~= Seq::<InboundView>::empty());
        while i < inbounds.len()
            invariant
                i <= inbounds.len(),
                all == inbounds.deep_view(),
                out.deep_view() == system_proxies(all.take(i as int)),
            decreases inbounds.len() - i,
        {
            let ghost before = out.deep_view();
            proof {
                assert(all.take(i + 1).drop_last() =~= all.take(i as int));
                assert(all.take(i + 1).last() == all[i as int]);
                assert(all[i as int] == inbounds@[i as int]@);
            }
            match &inbounds[i] {
                Inbound::Mixed(m) => match (&m.listen, m.set_system_proxy) {
                    (Some(l), Some(true)) => match (&l.listen, l.listen_port) {
                        (Some(address), Some(port)) => {
                            out.push((address.clone(), port, true));
                            assert(out.deep_view() =~= before.push((address@, port, true)));
                        },
                        _ => {},
                    },
                    _ => {},
                },
                Inbound::Direct(_) => {},
            }
            i += 1;
        }
        assert(all.take(i as int) =~= all);
        out
    }
}

} // verus!
