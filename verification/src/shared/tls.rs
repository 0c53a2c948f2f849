//! TLS and the two features that ride on it: uTLS and REALITY.

use crate::json::{bool_json, Entries, entries_of, get, get_field, is_null, Json, json_bool, json_text, JsonView, Key, lemma_get_empty, lemma_get_merge, lemma_get_put, lemma_json_view, no_entries, optional, present, put, put_field, read_bool, read_entries, read_text, SchemaMismatch, text_json};
use crate::shared::{feature_attaches, feature_passes, feature_state, FeatureState, state_of};
use vstd::prelude::*;

verus! {

/// The REALITY feature: its switch, public key and short id.
#[derive(Debug, Clone, PartialEq)]
pub struct RealityConfig {
    pub enable: Option<bool>,
    pub public_key: Option<String>,
    pub short_id: Option<String>,
}

/// What a [`RealityConfig`] holds, with every text as its characters.
pub struct RealityConfigView {
    pub enable: Option<bool>,
    pub public_key: Option<Seq<char>>,
    pub short_id: Option<Seq<char>>,
}

impl DeepView for RealityConfig {
    type V = RealityConfigView;

    open spec fn deep_view(&self) -> RealityConfigView {
        RealityConfigView {
            enable: self.enable.deep_view(),
            public_key: self.public_key.deep_view(),
            short_id: self.short_id.deep_view(),
        }
    }
}

impl View for RealityConfig {
    type V = RealityConfigView;

    open spec fn view(&self) -> RealityConfigView {
        self.deep_view()
    }
}

impl RealityConfigView {
    /// The view of what [`RealityConfig::new`] returns.
    pub open spec fn fresh() -> RealityConfigView {
        RealityConfigView {
            enable: None,
            public_key: None,
            short_id: None,
        }
    }
}

impl RealityConfig {
    /// A REALITY feature that is not configured.
    pub fn new() -> (r: Self)
        ensures
            r@ == RealityConfigView::fresh(),
    {
        RealityConfig {
            enable: None,
            public_key: None,
            short_id: None,
        }
    }
}

impl RealityConfigView {
    /// The entries of the record that stands for the value: one for each
    /// field that is set, in the order of the fields.
    pub open spec fn record(self) -> Entries {
        let es = Seq::empty();
        let es = put(es, Key::Enable, present(self.enable, |x: bool| bool_json(x)));
        let es = put(es, Key::PublicKey, present(self.public_key, |x: Seq<char>| text_json(x)));
        let es = put(es, Key::ShortId, present(self.short_id, |x: Seq<char>| text_json(x)));
        es
    }

    /// The record that stands for the value.
    pub open spec fn to_json(self) -> JsonView {
        JsonView::Record(self.record())
    }

    /// The value that the entries of an object stand for. Fails where an
    /// entry holds a value of the wrong shape.
    pub open spec fn from_record(es: Entries) -> Option<RealityConfigView> {
        let enable = optional(get(es, Key::Enable), |j: JsonView| json_bool(j));
        let public_key = optional(get(es, Key::PublicKey), |j: JsonView| json_text(j));
        let short_id = optional(get(es, Key::ShortId), |j: JsonView| json_text(j));
        if enable is Some
            && public_key is Some
            && short_id is Some {
            Some(
                RealityConfigView {
                    enable: enable->0,
                    public_key: public_key->0,
                    short_id: short_id->0,
                },
            )
        } else {
            None
        }
    }

    /// The value that an object stands for; none for a value that is no
    /// object.
    pub open spec fn from_json(j: JsonView) -> Option<RealityConfigView> {
        match entries_of(j) {
            Some(es) => RealityConfigView::from_record(es),
            None => None,
        }
    }

    /// Whether the value is written in a form from which it is read back:
    /// every value of this type is.
    pub open spec fn canonical(self) -> bool {
        true
    }

    /// The value is read back from the record that stands for it.
    pub proof fn lemma_round_trip(self)
        ensures
            RealityConfigView::from_record(self.record()) == Some(self),
            RealityConfigView::from_json(self.to_json()) == Some(self),
    {
        broadcast use {lemma_get_empty, lemma_get_put, lemma_get_merge};

        let es = self.record();
        assert(optional(get(es, Key::Enable), |j: JsonView| json_bool(j)) == Some(self.enable));
        assert(optional(get(es, Key::PublicKey), |j: JsonView| json_text(j)) == Some(self.public_key));
        assert(optional(get(es, Key::ShortId), |j: JsonView| json_text(j)) == Some(self.short_id));
    }
}

impl RealityConfig {
    /// The entries of the record that stands for the value, as
    /// `RealityConfigView::record` lists them.
    pub fn record(&self) -> (r: Vec<(Key, Json)>)
        ensures
            r.deep_view() == self@.record(),
    {
        let mut es: Vec<(Key, Json)> = no_entries();
        let ghost s = Seq::<(Key, JsonView)>::empty();
        let value = match &self.enable {
            Some(x) => Some(Json::Bool(*x)),
            None => None,
        };
        put_field(&mut es, Key::Enable, value);
        let ghost s = put(s, Key::Enable, present(self@.enable, |x: bool| bool_json(x)));
        assert(es.deep_view() == s);
        let value = match &self.public_key {
            Some(x) => Some(Json::Text(x.clone())),
            None => None,
        };
        put_field(&mut es, Key::PublicKey, value);
        let ghost s = put(s, Key::PublicKey, present(self@.public_key, |x: Seq<char>| text_json(x)));
        assert(es.deep_view() == s);
        let value = match &self.short_id {
            Some(x) => Some(Json::Text(x.clone())),
            None => None,
        };
        put_field(&mut es, Key::ShortId, value);
        let ghost s = put(s, Key::ShortId, present(self@.short_id, |x: Seq<char>| text_json(x)));
        assert(es.deep_view() == s);
        es
    }

    /// The record that stands for the value.
    pub fn to_json(&self) -> (r: Json)
        ensures
            r@ == self@.to_json(),
    {
        let r = Json::Record(self.record());
        proof {
            lemma_json_view(r);
        }
        r
    }

    /// Reads the value from the entries of an object, as
    /// `RealityConfigView::from_record` says.
    pub fn from_record(es: &Vec<(Key, &Json)>) -> (r: Result<RealityConfig, SchemaMismatch>)
        ensures
            match r {
                Ok(x) => RealityConfigView::from_record(es.deep_view()) == Some(x@),
                Err(_) => RealityConfigView::from_record(es.deep_view()) is None,
            },
    {
        let enable = match get_field(es, Key::Enable) {
            Some(j) => if is_null(j) {
                None
            } else {
                match read_bool(j) {
                    Ok(x) => Some(x),
                    Err(e) => {
                        return Err(e);
                    },
                }
            },
            None => None,
        };
        assert(optional(get(es.deep_view(), Key::Enable), |j: JsonView| json_bool(j)) == Some(enable.deep_view()));
        let public_key = match get_field(es, Key::PublicKey) {
            Some(j) => if is_null(j) {
                None
            } else {
                match read_text(j) {
                    Ok(x) => Some(x),
                    Err(e) => {
                        return Err(e);
                    },
                }
            },
            None => None,
        };
        assert(optional(get(es.deep_view(), Key::PublicKey), |j: JsonView| json_text(j)) == Some(public_key.deep_view()));
        let short_id = match get_field(es, Key::ShortId) {
            Some(j) => if is_null(j) {
                None
            } else {
                match read_text(j) {
                    Ok(x) => Some(x),
                    Err(e) => {
                        return Err(e);
                    },
                }
            },
            None => None,
        };
        assert(optional(get(es.deep_view(), Key::ShortId), |j: JsonView| json_text(j)) == Some(short_id.deep_view()));
        Ok(RealityConfig { enable, public_key, short_id })
    }

    /// Reads the value from an object, as `RealityConfigView::from_json` says.
    pub fn from_json(j: &Json) -> (r: Result<RealityConfig, SchemaMismatch>)
        ensures
            match r {
                Ok(x) => RealityConfigView::from_json(j@) == Some(x@),
                Err(_) => RealityConfigView::from_json(j@) is None,
            },
    {
        match read_entries(j) {
            Ok(es) => RealityConfig::from_record(&es),
            Err(e) => Err(e),
        }
    }
}

/// The uTLS feature: its switch and the fingerprint to imitate.
#[derive(Debug, Clone, PartialEq)]
pub struct UtlsConfig {
    pub enable: Option<bool>,
    pub fingerprint: Option<String>,
}

/// What a [`UtlsConfig`] holds, with every text as its characters.
pub struct UtlsConfigView {
    pub enable: Option<bool>,
    pub fingerprint: Option<Seq<char>>,
}

impl DeepView for UtlsConfig {
    type V = UtlsConfigView;

    open spec fn deep_view(&self) -> UtlsConfigView {
        UtlsConfigView {
            enable: self.enable.deep_view(),
            fingerprint: self.fingerprint.deep_view(),
        }
    }
}

impl View for UtlsConfig {
    type V = UtlsConfigView;

    open spec fn view(&self) -> UtlsConfigView {
        self.deep_view()
    }
}

impl UtlsConfigView {
    /// The view of what [`UtlsConfig::new`] returns.
    pub open spec fn fresh() -> UtlsConfigView {
        UtlsConfigView {
            enable: None,
            fingerprint: None,
        }
    }
}

impl UtlsConfig {
    /// A uTLS feature that is not configured.
    pub fn new() -> (r: Self)
        ensures
            r@ == UtlsConfigView::fresh(),
    {
        UtlsConfig {
            enable: None,
            fingerprint: None,
        }
    }
}

impl UtlsConfigView {
    /// The entries of the record that stands for the value: one for each
    /// field that is set, in the order of the fields.
    pub open spec fn record(self) -> Entries {
        let es = Seq::empty();
        let es = put(es, Key::Enable, present(self.enable, |x: bool| bool_json(x)));
        let es = put(es, Key::Fingerprint, present(self.fingerprint, |x: Seq<char>| text_json(x)));
        es
    }

    /// The record that stands for the value.
    pub open spec fn to_json(self) -> JsonView {
        JsonView::Record(self.record())
    }

    /// The value that the entries of an object stand for. Fails where an
    /// entry holds a value of the wrong shape.
    pub open spec fn from_record(es: Entries) -> Option<UtlsConfigView> {
        let enable = optional(get(es, Key::Enable), |j: JsonView| json_bool(j));
        let fingerprint = optional(get(es, Key::Fingerprint), |j: JsonView| json_text(j));
        if enable is Some
            && fingerprint is Some {
            Some(
                UtlsConfigView {
                    enable: enable->0,
                    fingerprint: fingerprint->0,
                },
            )
        } else {
            None
        }
    }

    /// The value that an object stands for; none for a value that is no
    /// object.
    pub open spec fn from_json(j: JsonView) -> Option<UtlsConfigView> {
        match entries_of(j) {
            Some(es) => UtlsConfigView::from_record(es),
            None => None,
        }
    }

    /// Whether the value is written in a form from which it is read back:
    /// every value of this type is.
    pub open spec fn canonical(self) -> bool {
        true
    }

    /// The value is read back from the record that stands for it.
    pub proof fn lemma_round_trip(self)
        ensures
            UtlsConfigView::from_record(self.record()) == Some(self),
            UtlsConfigView::from_json(self.to_json()) == Some(self),
    {
        broadcast use {lemma_get_empty, lemma_get_put, lemma_get_merge};

        let es = self.record();
        assert(optional(get(es, Key::Enable), |j: JsonView| json_bool(j)) == Some(self.enable));
        assert(optional(get(es, Key::Fingerprint), |j: JsonView| json_text(j)) == Some(self.fingerprint));
    }
}

impl UtlsConfig {
    /// The entries of the record that stands for the value, as
    /// `UtlsConfigView::record` lists them.
    pub fn record(&self) -> (r: Vec<(Key, Json)>)
        ensures
            r.deep_view() == self@.record(),
    {
        let mut es: Vec<(Key, Json)> = no_entries();
        let ghost s = Seq::<(Key, JsonView)>::empty();
        let value = match &self.enable {
            Some(x) => Some(Json::Bool(*x)),
            None => None,
        };
        put_field(&mut es, Key::Enable, value);
        let ghost s = put(s, Key::Enable, present(self@.enable, |x: bool| bool_json(x)));
        assert(es.deep_view() == s);
        let value = match &self.fingerprint {
            Some(x) => Some(Json::Text(x.clone())),
            None => None,
        };
        put_field(&mut es, Key::Fingerprint, value);
        let ghost s = put(s, Key::Fingerprint, present(self@.fingerprint, |x: Seq<char>| text_json(x)));
        assert(es.deep_view() == s);
        es
    }

    /// The record that stands for the value.
    pub fn to_json(&self) -> (r: Json)
        ensures
            r@ == self@.to_json(),
    {
        let r = Json::Record(self.record());
        proof {
            lemma_json_view(r);
        }
        r
    }

    /// Reads the value from the entries of an object, as
    /// `UtlsConfigView::from_record` says.
    pub fn from_record(es: &Vec<(Key, &Json)>) -> (r: Result<UtlsConfig, SchemaMismatch>)
        ensures
            match r {
                Ok(x) => UtlsConfigView::from_record(es.deep_view()) == Some(x@),
                Err(_) => UtlsConfigView::from_record(es.deep_view()) is None,
            },
    {
        let enable = match get_field(es, Key::Enable) {
            Some(j) => if is_null(j) {
                None
            } else {
                match read_bool(j) {
                    Ok(x) => Some(x),
                    Err(e) => {
                        return Err(e);
                    },
                }
            },
            None => None,
        };
        assert(optional(get(es.deep_view(), Key::Enable), |j: JsonView| json_bool(j)) == Some(enable.deep_view()));
        let fingerprint = match get_field(es, Key::Fingerprint) {
            Some(j) => if is_null(j) {
                None
            } else {
                match read_text(j) {
                    Ok(x) => Some(x),
                    Err(e) => {
                        return Err(e);
                    },
                }
            },
            None => None,
        };
        assert(optional(get(es.deep_view(), Key::Fingerprint), |j: JsonView| json_text(j)) == Some(fingerprint.deep_view()));
        Ok(UtlsConfig { enable, fingerprint })
    }

    /// Reads the value from an object, as `UtlsConfigView::from_json` says.
    pub fn from_json(j: &Json) -> (r: Result<UtlsConfig, SchemaMismatch>)
        ensures
            match r {
                Ok(x) => UtlsConfigView::from_json(j@) == Some(x@),
                Err(_) => UtlsConfigView::from_json(j@) is None,
            },
    {
        match read_entries(j) {
            Ok(es) => UtlsConfig::from_record(&es),
            Err(e) => Err(e),
        }
    }
}

/// The TLS feature of an entry, with its nested uTLS and REALITY features.
#[derive(Debug, Clone, PartialEq)]
pub struct TlsConfig {
    pub enable: Option<bool>,
    pub disable_sni: Option<bool>,
    pub server_name: Option<String>,
    pub insecure: Option<bool>,
    pub utls: Option<UtlsConfig>,
    pub reality: Option<RealityConfig>,
}

/// What a [`TlsConfig`] holds, with every text as its characters.
pub struct TlsConfigView {
    pub enable: Option<bool>,
    pub disable_sni: Option<bool>,
    pub server_name: Option<Seq<char>>,
    pub insecure: Option<bool>,
    pub utls: Option<UtlsConfigView>,
    pub reality: Option<RealityConfigView>,
}

impl DeepView for TlsConfig {
    type V = TlsConfigView;

    open spec fn deep_view(&self) -> TlsConfigView {
        TlsConfigView {
            enable: self.enable.deep_view(),
            disable_sni: self.disable_sni.deep_view(),
            server_name: self.server_name.deep_view(),
            insecure: self.insecure.deep_view(),
            utls: self.utls.deep_view(),
            reality: self.reality.deep_view(),
        }
    }
}

impl View for TlsConfig {
    type V = TlsConfigView;

    open spec fn view(&self) -> TlsConfigView {
        self.deep_view()
    }
}

impl TlsConfigView {
    /// The view of what [`TlsConfig::new`] returns.
    pub open spec fn fresh() -> TlsConfigView {
        TlsConfigView {
            enable: None,
            disable_sni: None,
            server_name: None,
            insecure: None,
            utls: None,
            reality: None,
        }
    }
}

impl TlsConfig {
    /// A TLS feature that is not configured.
    pub fn new() -> (r: Self)
        ensures
            r@ == TlsConfigView::fresh(),
    {
        TlsConfig {
            enable: None,
            disable_sni: None,
            server_name: None,
            insecure: None,
            utls: None,
            reality: None,
        }
    }
}

impl TlsConfigView {
    /// The entries of the record that stands for the value: one for each
    /// field that is set, in the order of the fields.
    pub open spec fn record(self) -> Entries {
        let es = Seq::empty();
        let es = put(es, Key::Enable, present(self.enable, |x: bool| bool_json(x)));
        let es = put(es, Key::DisableSni, present(self.disable_sni, |x: bool| bool_json(x)));
        let es = put(es, Key::ServerName, present(self.server_name, |x: Seq<char>| text_json(x)));
        let es = put(es, Key::Insecure, present(self.insecure, |x: bool| bool_json(x)));
        let es = put(es, Key::Utls, present(self.utls, |x: UtlsConfigView| x.to_json()));
        let es = put(es, Key::Reality, present(self.reality, |x: RealityConfigView| x.to_json()));
        es
    }

    /// The record that stands for the value.
    pub open spec fn to_json(self) -> JsonView {
        JsonView::Record(self.record())
    }

    /// The value that the entries of an object stand for. Fails where an
    /// entry holds a value of the wrong shape.
    pub open spec fn from_record(es: Entries) -> Option<TlsConfigView> {
        let enable = optional(get(es, Key::Enable), |j: JsonView| json_bool(j));
        let disable_sni = optional(get(es, Key::DisableSni), |j: JsonView| json_bool(j));
        let server_name = optional(get(es, Key::ServerName), |j: JsonView| json_text(j));
        let insecure = optional(get(es, Key::Insecure), |j: JsonView| json_bool(j));
        let utls = optional(get(es, Key::Utls), |j: JsonView| UtlsConfigView::from_json(j));
        let reality = optional(get(es, Key::Reality), |j: JsonView| RealityConfigView::from_json(j));
        if enable is Some
            && disable_sni is Some
            && server_name is Some
            && insecure is Some
            && utls is Some
            && reality is Some {
            Some(
                TlsConfigView {
                    enable: enable->0,
                    disable_sni: disable_sni->0,
                    server_name: server_name->0,
                    insecure: insecure->0,
                    utls: utls->0,
                    reality: reality->0,
                },
            )
        } else {
            None
        }
    }

    /// The value that an object stands for; none for a value that is no
    /// object.
    pub open spec fn from_json(j: JsonView) -> Option<TlsConfigView> {
        match entries_of(j) {
            Some(es) => TlsConfigView::from_record(es),
            None => None,
        }
    }

    /// Whether the value is written in a form from which it is read back:
    /// the values that it holds are, and a group of fields that is present
    /// sets at least one of them.
    pub open spec fn canonical(self) -> bool {
        &&& match self.utls {
            Some(x) => x.canonical(),
            None => true,
        }
        &&& match self.reality {
            Some(x) => x.canonical(),
            None => true,
        }
    }

    /// The value is read back from the record that stands for it.
    pub proof fn lemma_round_trip(self)
        requires
            self.canonical(),
        ensures
            TlsConfigView::from_record(self.record()) == Some(self),
            TlsConfigView::from_json(self.to_json()) == Some(self),
    {
        broadcast use {lemma_get_empty, lemma_get_put, lemma_get_merge};

        let es = self.record();
        assert(optional(get(es, Key::Enable), |j: JsonView| json_bool(j)) == Some(self.enable));
        assert(optional(get(es, Key::DisableSni), |j: JsonView| json_bool(j)) == Some(self.disable_sni));
        assert(optional(get(es, Key::ServerName), |j: JsonView| json_text(j)) == Some(self.server_name));
        assert(optional(get(es, Key::Insecure), |j: JsonView| json_bool(j)) == Some(self.insecure));
        match self.utls {
            Some(x) => {
                x.lemma_round_trip();
            },
            None => {},
        }
        assert(optional(get(es, Key::Utls), |j: JsonView| UtlsConfigView::from_json(j)) == Some(self.utls));
        match self.reality {
            Some(x) => {
                x.lemma_round_trip();
            },
            None => {},
        }
        assert(optional(get(es, Key::Reality), |j: JsonView| RealityConfigView::from_json(j)) == Some(self.reality));
    }
}

impl TlsConfig {
    /// The entries of the record that stands for the value, as
    /// `TlsConfigView::record` lists them.
    pub fn record(&self) -> (r: Vec<(Key, Json)>)
        ensures
            r.deep_view() == self@.record(),
    {
        let mut es: Vec<(Key, Json)> = no_entries();
        let ghost s = Seq::<(Key, JsonView)>::empty();
        let value = match &self.enable {
            Some(x) => Some(Json::Bool(*x)),
            None => None,
        };
        put_field(&mut es, Key::Enable, value);
        let ghost s = put(s, Key::Enable, present(self@.enable, |x: bool| bool_json(x)));
        assert(es.deep_view() == s);
        let value = match &self.disable_sni {
            Some(x) => Some(Json::Bool(*x)),
            None => None,
        };
        put_field(&mut es, Key::DisableSni, value);
        let ghost s = put(s, Key::DisableSni, present(self@.disable_sni, |x: bool| bool_json(x)));
        assert(es.deep_view() == s);
        let value = match &self.server_name {
            Some(x) => Some(Json::Text(x.clone())),
            None => None,
        };
        put_field(&mut es, Key::ServerName, value);
        let ghost s = put(s, Key::ServerName, present(self@.server_name, |x: Seq<char>| text_json(x)));
        assert(es.deep_view() == s);
        let value = match &self.insecure {
            Some(x) => Some(Json::Bool(*x)),
            None => None,
        };
        put_field(&mut es, Key::Insecure, value);
        let ghost s = put(s, Key::Insecure, present(self@.insecure, |x: bool| bool_json(x)));
        assert(es.deep_view() == s);
        let value = match &self.utls {
            Some(x) => Some(x.to_json()),
            None => None,
        };
        put_field(&mut es, Key::Utls, value);
        let ghost s = put(s, Key::Utls, present(self@.utls, |x: UtlsConfigView| x.to_json()));
        assert(es.deep_view() == s);
        let value = match &self.reality {
            Some(x) => Some(x.to_json()),
            None => None,
        };
        put_field(&mut es, Key::Reality, value);
        let ghost s = put(s, Key::Reality, present(self@.reality, |x: RealityConfigView| x.to_json()));
        assert(es.deep_view() == s);
        es
    }

    /// The record that stands for the value.
    pub fn to_json(&self) -> (r: Json)
        ensures
            r@ == self@.to_json(),
    {
        let r = Json::Record(self.record());
        proof {
            lemma_json_view(r);
        }
        r
    }

    /// Reads the value from the entries of an object, as
    /// `TlsConfigView::from_record` says.
    pub fn from_record(es: &Vec<(Key, &Json)>) -> (r: Result<TlsConfig, SchemaMismatch>)
        ensures
            match r {
                Ok(x) => TlsConfigView::from_record(es.deep_view()) == Some(x@),
                Err(_) => TlsConfigView::from_record(es.deep_view()) is None,
            },
    {
        let enable = match get_field(es, Key::Enable) {
            Some(j) => if is_null(j) {
                None
            } else {
                match read_bool(j) {
                    Ok(x) => Some(x),
                    Err(e) => {
                        return Err(e);
                    },
                }
            },
            None => None,
        };
        assert(optional(get(es.deep_view(), Key::Enable), |j: JsonView| json_bool(j)) == Some(enable.deep_view()));
        let disable_sni = match get_field(es, Key::DisableSni) {
            Some(j) => if is_null(j) {
                None
            } else {
                match read_bool(j) {
                    Ok(x) => Some(x),
                    Err(e) => {
                        return Err(e);
                    },
                }
            },
            None => None,
        };
        assert(optional(get(es.deep_view(), Key::DisableSni), |j: JsonView| json_bool(j)) == Some(disable_sni.deep_view()));
        let server_name = match get_field(es, Key::ServerName) {
            Some(j) => if is_null(j) {
                None
            } else {
                match read_text(j) {
                    Ok(x) => Some(x),
                    Err(e) => {
                        return Err(e);
                    },
                }
            },
            None => None,
        };
        assert(optional(get(es.deep_view(), Key::ServerName), |j: JsonView| json_text(j)) == Some(server_name.deep_view()));
        let insecure = match get_field(es, Key::Insecure) {
            Some(j) => if is_null(j) {
                None
            } else {
                match read_bool(j) {
                    Ok(x) => Some(x),
                    Err(e) => {
                        return Err(e);
                    },
                }
            },
            None => None,
        };
        assert(optional(get(es.deep_view(), Key::Insecure), |j: JsonView| json_bool(j)) == Some(insecure.deep_view()));
        let utls = match get_field(es, Key::Utls) {
            Some(j) => if is_null(j) {
                None
            } else {
                match UtlsConfig::from_json(j) {
                    Ok(x) => Some(x),
                    Err(e) => {
                        return Err(e);
                    },
                }
            },
            None => None,
        };
        assert(optional(get(es.deep_view(), Key::Utls), |j: JsonView| UtlsConfigView::from_json(j)) == Some(utls.deep_view()));
        let reality = match get_field(es, Key::Reality) {
            Some(j) => if is_null(j) {
                None
            } else {
                match RealityConfig::from_json(j) {
                    Ok(x) => Some(x),
                    Err(e) => {
                        return Err(e);
                    },
                }
            },
            None => None,
        };
        assert(optional(get(es.deep_view(), Key::Reality), |j: JsonView| RealityConfigView::from_json(j)) == Some(reality.deep_view()));
        Ok(TlsConfig { enable, disable_sni, server_name, insecure, utls, reality })
    }

    /// Reads the value from an object, as `TlsConfigView::from_json` says.
    pub fn from_json(j: &Json) -> (r: Result<TlsConfig, SchemaMismatch>)
        ensures
            match r {
                Ok(x) => TlsConfigView::from_json(j@) == Some(x@),
                Err(_) => TlsConfigView::from_json(j@) is None,
            },
    {
        match read_entries(j) {
            Ok(es) => TlsConfig::from_record(&es),
            Err(e) => Err(e),
        }
    }
}

impl RealityConfigView {
    /// The state of the feature's switch.
    pub open spec fn state(self) -> FeatureState {
        feature_state(self.enable)
    }

    /// Whether the fields that an enabled REALITY needs are present: its
    /// public key and its short id.
    pub open spec fn required_present(self) -> bool {
        self.public_key is Some && self.short_id is Some
    }

    /// Whether the feature passes its completeness check.
    pub open spec fn passes(self) -> bool {
        feature_passes(self.enable, self.required_present())
    }

    /// Whether the feature goes into the document.
    pub open spec fn attaches(self) -> bool {
        feature_attaches(self.enable, self.required_present())
    }
}

impl RealityConfig {
    /// The state of the feature's switch.
    pub fn state(&self) -> (r: FeatureState)
        ensures
            r == self@.state(),
    {
        state_of(self.enable)
    }

    /// The completeness check: passes unless the feature is switched on
    /// without a public key or without a short id.
    pub fn check(&self) -> (r: bool)
        ensures
            r == self@.passes(),
    {
        match self.enable {
            Some(true) => self.public_key.is_some() && self.short_id.is_some(),
            _ => true,
        }
    }
}

impl UtlsConfigView {
    /// The view of what [`UtlsConfig::with_fingerprint`] returns.
    pub open spec fn with_fingerprint(fingerprint: Seq<char>) -> UtlsConfigView {
        UtlsConfigView { enable: Some(true), fingerprint: Some(fingerprint) }
    }

    /// The state of the feature's switch.
    pub open spec fn state(self) -> FeatureState {
        feature_state(self.enable)
    }

    /// Whether the field that an enabled uTLS needs is present: its
    /// fingerprint.
    pub open spec fn required_present(self) -> bool {
        self.fingerprint is Some
    }

    /// Whether the feature passes its completeness check.
    pub open spec fn passes(self) -> bool {
        feature_passes(self.enable, self.required_present())
    }

    /// Whether the feature goes into the document.
    pub open spec fn attaches(self) -> bool {
        feature_attaches(self.enable, self.required_present())
    }
}

impl UtlsConfig {
    /// A uTLS feature switched on, with the fingerprint to imitate.
    pub fn with_fingerprint(addr: String) -> (r: Self)
        ensures
            r@ == UtlsConfigView::with_fingerprint(addr@),
    {
        UtlsConfig { enable: Some(true), fingerprint: Some(addr) }
    }

    /// The state of the feature's switch.
    pub fn state(&self) -> (r: FeatureState)
        ensures
            r == self@.state(),
    {
        state_of(self.enable)
    }

    /// The completeness check: passes unless the feature is switched on
    /// without a fingerprint.
    pub fn check(&self) -> (r: bool)
        ensures
            r == self@.passes(),
    {
        match self.enable {
            Some(true) => self.fingerprint.is_some(),
            _ => true,
        }
    }
}

impl TlsConfigView {
    /// The view of what [`TlsConfig::with_server_name`] returns.
    pub open spec fn with_server_name(name: Seq<char>) -> TlsConfigView {
        TlsConfigView { server_name: Some(name), ..TlsConfigView::fresh() }
    }

    /// The state of the feature's switch.
    pub open spec fn state(self) -> FeatureState {
        feature_state(self.enable)
    }

    /// Whether the nested features let TLS pass: with none attached they do;
    /// with one attached, that one must pass; with both, one of them.
    pub open spec fn nested_pass(self) -> bool {
        match (self.utls, self.reality) {
            (None, None) => true,
            (Some(u), None) => u.passes(),
            (None, Some(r)) => r.passes(),
            (Some(u), Some(r)) => u.passes() || r.passes(),
        }
    }

    /// Whether what an enabled TLS needs is present: a server name, and
    /// nested features that let it pass.
    pub open spec fn required_present(self) -> bool {
        self.server_name is Some && self.nested_pass()
    }

    /// Whether the feature passes its completeness check.
    pub open spec fn passes(self) -> bool {
        feature_passes(self.enable, self.required_present())
    }

    /// Whether the feature goes into the document.
    pub open spec fn attaches(self) -> bool {
        feature_attaches(self.enable, self.required_present())
    }
}

impl TlsConfig {
    /// A TLS feature with only its server name set.
    pub fn with_server_name(name: String) -> (r: Self)
        ensures
            r@ == TlsConfigView::with_server_name(name@),
    {
        TlsConfig {
            enable: None,
            disable_sni: None,
            server_name: Some(name),
            insecure: None,
            utls: None,
            reality: None,
        }
    }

    /// Attaches a uTLS feature, in place of any that was attached.
    pub fn add_utls(self, utls: UtlsConfig) -> (r: Self)
        ensures
            r@ == (TlsConfigView { utls: Some(utls@), ..self@ }),
    {
        let mut this = self;
        this.utls = Some(utls);
        this
    }

    /// Attaches a REALITY feature, in place of any that was attached.
    pub fn add_reality(self, reality: RealityConfig) -> (r: Self)
        ensures
            r@ == (TlsConfigView { reality: Some(reality@), ..self@ }),
    {
        let mut this = self;
        this.reality = Some(reality);
        this
    }

    /// The state of the feature's switch.
    pub fn state(&self) -> (r: FeatureState)
        ensures
            r == self@.state(),
    {
        state_of(self.enable)
    }

    /// The completeness check: passes unless TLS is switched on without a
    /// server name, or with nested features that do not let it pass.
    pub fn check(&self) -> (r: bool)
        ensures
            r == self@.passes(),
    {
        match self.enable {
            Some(true) => {
                if self.server_name.is_none() {
                    false
                } else {
                    match (&self.utls, &self.reality) {
                        (None, None) => true,
                        (Some(u), None) => u.check(),
                        (None, Some(r)) => r.check(),
                        (Some(u), Some(r)) => u.check() || r.check(),
                    }
                }
            },
            _ => true,
        }
    }
}

} // verus!
