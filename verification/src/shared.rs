//! Groups of fields that several kinds of entry share.

pub mod dialfields;
pub mod listenfields;
pub mod multiplex;
pub mod tls;
pub mod transport;

use crate::json::{Json, JsonView, lemma_json_view, optional, present, required, SchemaMismatch};
use crate::text::same_text;
use vstd::prelude::*;

verus! {

/// The transport-layer protocol of a connection.
#[derive(Debug, Clone, Copy, PartialEq, Eq, Structural)]
pub enum Network {
    /// TCP, written `tcp`.
    Tcp,
    /// UDP, written `udp`.
    Udp,
}

impl DeepView for Network {
    type V = Network;

    open spec fn deep_view(&self) -> Network {
        *self
    }
}

impl Network {
    /// The text that stands for the value.
    pub open spec fn as_json(self) -> JsonView {
        JsonView::Text(
            match self {
                Network::Tcp => "tcp"@,
                Network::Udp => "udp"@,
            },
        )
    }

    /// The value that a text stands for, if it stands for one.
    pub open spec fn of_json(j: JsonView) -> Option<Network> {
        match j {
            JsonView::Text(s) => if s == "tcp"@ {
                Some(Network::Tcp)
            } else if s == "udp"@ {
                Some(Network::Udp)
            } else {
                None
            },
            _ => None,
        }
    }

    /// The value is read back from the text that stands for it.
    pub proof fn lemma_round_trip(self)
        ensures
            Network::of_json(self.as_json()) == Some(self),
    {
        reveal_strlit("tcp");
        assert("tcp"@.len() == 3);
        assert("tcp"@[0] == 't');
        reveal_strlit("udp");
        assert("udp"@.len() == 3);
        assert("udp"@[0] == 'u');
    }

    /// The text that stands for the value.
    pub fn to_json(&self) -> (r: Json)
        ensures
            r@ == self.as_json(),
    {
        match self {
            Network::Tcp => Json::Text("tcp".to_owned()),
            Network::Udp => Json::Text("udp".to_owned()),
        }
    }

    /// Reads the value from a text, as `of_json` says.
    pub fn from_json(j: &Json) -> (r: Result<Network, SchemaMismatch>)
        ensures
            match r {
                Ok(x) => Network::of_json(j@) == Some(x),
                Err(_) => Network::of_json(j@) is None,
            },
    {
        match j {
            Json::Text(s) => if same_text(s.as_str(), "tcp") {
                Ok(Network::Tcp)
            } else if same_text(s.as_str(), "udp") {
                Ok(Network::Udp)
            } else {
                Err(SchemaMismatch)
            },
            _ => Err(SchemaMismatch),
        }
    }
}

/// The three states of an optional feature, by its switch.
#[derive(Debug, Clone, Copy, PartialEq, Eq, Structural)]
pub enum FeatureState {
    /// The switch was never set: the feature is not configured.
    Unset,
    /// The switch is off.
    Disabled,
    /// The switch is on: the feature's required fields must be present.
    Enabled,
}

/// The state that a switch stands for.
pub open spec fn feature_state(enable: Option<bool>) -> FeatureState {
    match enable {
        None => FeatureState::Unset,
        Some(false) => FeatureState::Disabled,
        Some(true) => FeatureState::Enabled,
    }
}

/// The completeness check that every optional feature shares: a feature that
/// is not configured or is switched off passes; one that is switched on
/// passes when its required fields are present.
pub open spec fn feature_passes(enable: Option<bool>, required_present: bool) -> bool {
    feature_state(enable) == FeatureState::Enabled ==> required_present
}

/// Whether a feature goes into the document: it is configured, on or off,
/// and passes its check.
pub open spec fn feature_attaches(enable: Option<bool>, required_present: bool) -> bool {
    feature_state(enable) != FeatureState::Unset && feature_passes(enable, required_present)
}

/// The state that a switch stands for.
pub fn state_of(enable: Option<bool>) -> (r: FeatureState)
    ensures
        r == feature_state(enable),
{
    match enable {
        None => FeatureState::Unset,
        Some(false) => FeatureState::Disabled,
        Some(true) => FeatureState::Enabled,
    }
}

/// The list that stands for a sequence of networks.
#[verifier::opaque]
pub open spec fn network_list_json(s: Seq<Network>) -> JsonView {
    JsonView::List(Seq::new(s.len(), |i: int| s[i].as_json()))
}

/// The sequence of networks that a list stands for, if each of its values
/// stands for one.
#[verifier::opaque]
pub open spec fn json_network_list(j: JsonView) -> Option<Seq<Network>> {
    match j {
        JsonView::List(js) => if forall|i: int|
            0 <= i < js.len() ==> (#[trigger] Network::of_json(js[i])) is Some {
            Some(Seq::new(js.len(), |i: int| Network::of_json(js[i])->0))
        } else {
            None
        },
        _ => None,
    }
}

/// A sequence of networks is read back from the list that stands for it.
pub proof fn lemma_network_list(s: Seq<Network>)
    ensures
        json_network_list(network_list_json(s)) == Some(s),
        network_list_json(s) is List,
{
    reveal(network_list_json);
    reveal(json_network_list);
    let js = network_list_json(s)->List_0;
    assert forall|i: int| 0 <= i < js.len() implies (#[trigger] Network::of_json(js[i])) == Some(s[i]) by {
        s[i].lemma_round_trip();
    }
    assert(Seq::new(js.len(), |i: int| Network::of_json(js[i])->0) =~= s);
}

/// Writes a sequence of networks, as `network_list_json` says.
pub fn write_network_list(v: &Vec<Network>) -> (r: Json)
    ensures
        r@ == network_list_json(v.deep_view()),
{
    reveal(network_list_json);
    let mut out: Vec<Json> = Vec::new();
    let mut i: usize = 0;
    let ghost s = v.deep_view();
    while i < v.len()
        invariant
            i <= v.len(),
            s == v.deep_view(),
            out.deep_view() == Seq::new(i as nat, |k: int| s[k].as_json()),
        decreases v.len() - i,
    {
        let ghost before = out.deep_view();
        let elem = &v[i];
        let item = elem.to_json();
        out.push(item);
        proof {
            assert(s[i as int] == v@[i as int].deep_view());
            assert(out.deep_view() =~= before.push(item@));
            assert(before.push(item@) =~= Seq::new((i + 1) as nat, |k: int| s[k].as_json()));
        }
        i += 1;
    }
    let r = Json::List(out);
    proof {
        lemma_json_view(r);
        assert(out.deep_view() =~= Seq::new(s.len(), |k: int| s[k].as_json()));
    }
    r
}

/// Reads a sequence of networks, as `json_network_list` says.
pub fn read_network_list(j: &Json) -> (r: Result<Vec<Network>, SchemaMismatch>)
    ensures
        match r {
            Ok(v) => json_network_list(j@) == Some(v.deep_view()),
            Err(_) => json_network_list(j@) is None,
        },
{
    reveal(json_network_list);
    proof {
        lemma_json_view(*j);
    }
    match j {
        Json::List(js) => {
            let mut out: Vec<Network> = Vec::new();
            let mut i: usize = 0;
            let ghost all = js.deep_view();
            while i < js.len()
                invariant
                    i <= js.len(),
                    all == js.deep_view(),
                    j@ == JsonView::List(all),
                    forall|k: int| 0 <= k < i ==> (#[trigger] Network::of_json(all[k])) is Some,
                    out.deep_view() == Seq::new(i as nat, |k: int| Network::of_json(all[k])->0),
                decreases js.len() - i,
            {
                let ghost before = out.deep_view();
                proof {
                    assert(all[i as int] == js@[i as int]@);
                }
                let value = &js[i];
                match Network::from_json(value) {
                    Ok(x) => {
                        out.push(x);
                        proof {
                            assert(out.deep_view() =~= before.push(x.deep_view()));
                            assert(before.push(x.deep_view()) =~= Seq::new(
                                (i + 1) as nat,
                                |k: int| Network::of_json(all[k])->0,
                            ));
                        }
                    },
                    Err(e) => {
                        reveal(json_network_list);
                        assert(Network::of_json(all[i as int]) is None);
                        return Err(e);
                    },
                }
                i += 1;
            }
            proof {
                assert(out.deep_view() =~= Seq::new(all.len(), |k: int| Network::of_json(all[k])->0));
            }
            Ok(out)
        },
        _ => Err(SchemaMismatch),
    }
}

} // verus!
