//! The outbound section of a document.

pub mod direct;
pub mod vless;

use crate::defaults::DIRECT_OUTBOUND_TAG;
use crate::json::{entries_of, get, get_field, Json, JsonView, Key, lemma_get_empty, lemma_get_merge, lemma_get_put, lemma_json_view, read_entries, SchemaMismatch};
use crate::outbound::direct::{DirectConfig, DirectConfigView};
use crate::outbound::vless::{VlessConfig, VlessConfigView};
use crate::scan::{first_where, found, kept, lemma_first_where_unique, Mark};
use crate::text::same_text;
use vstd::prelude::*;

verus! {

/// One outbound of the section.
#[derive(Debug, Clone, PartialEq)]
pub enum Outbound {
    /// A direct outbound.
    Direct(DirectConfig),
    /// A VLESS outbound.
    Vless(VlessConfig),
}

/// What a [`Outbound`] holds, with every text as its characters.
pub enum OutboundView {
    Direct(DirectConfigView),
    Vless(VlessConfigView),
}

impl DeepView for Outbound {
    type V = OutboundView;

    open spec fn deep_view(&self) -> OutboundView {
        match self {
            Outbound::Direct(x) => OutboundView::Direct(x.deep_view()),
            Outbound::Vless(x) => OutboundView::Vless(x.deep_view()),
        }
    }
}

impl View for Outbound {
    type V = OutboundView;

    open spec fn view(&self) -> OutboundView {
        self.deep_view()
    }
}

impl OutboundView {
    /// The tag of the outbound, whatever its kind.
    pub open spec fn tag(self) -> Option<Seq<char>> {
        match self {
            OutboundView::Direct(x) => x.tag,
            OutboundView::Vless(x) => x.tag,
        }
    }

    /// The type discriminator of the outbound, whatever its kind.
    pub open spec fn config_type(self) -> Option<Seq<char>> {
        match self {
            OutboundView::Direct(x) => x.config_type,
            OutboundView::Vless(x) => x.config_type,
        }
    }

    /// What the outbound is looked up by: its type or its tag.
    pub open spec fn mark(self, m: Mark) -> Option<Seq<char>> {
        match m {
            Mark::Type => self.config_type(),
            Mark::Tag => self.tag(),
        }
    }
}

impl Outbound {
    /// The tag of the outbound, whatever its kind.
    pub fn tag(&self) -> (r: Option<&String>)
        ensures
            r.deep_view() == self@.tag(),
    {
        match self {
            Outbound::Direct(x) => x.tag.as_ref(),
            Outbound::Vless(x) => x.tag.as_ref(),
        }
    }

    /// The type discriminator of the outbound, whatever its kind.
    pub fn config_type(&self) -> (r: Option<&String>)
        ensures
            r.deep_view() == self@.config_type(),
    {
        match self {
            Outbound::Direct(x) => x.config_type.as_ref(),
            Outbound::Vless(x) => x.config_type.as_ref(),
        }
    }

    /// Whether the type or the tag of the outbound is `text`.
    pub fn carries(&self, m: Mark, text: &str) -> (r: bool)
        ensures
            r == (self@.mark(m) == Some(text@)),
    {
        let held = match m {
            Mark::Type => self.config_type(),
            Mark::Tag => self.tag(),
        };
        match held {
            Some(s) => same_text(s.as_str(), text),
            None => false,
        }
    }
}

/// Picks the outbounds whose type or tag is `text`.
pub open spec fn marked(m: Mark, text: Seq<char>) -> spec_fn(OutboundView) -> bool {
    |e: OutboundView| e.mark(m) == Some(text)
}

/// Picks the outbounds whose type or tag is not `text`.
pub open spec fn unmarked(m: Mark, text: Seq<char>) -> spec_fn(OutboundView) -> bool {
    |e: OutboundView| e.mark(m) != Some(text)
}

/// Index of the first outbound whose type or tag is `text`, or the number of
/// outbounds when there is none.
pub fn position(entries: &Vec<Outbound>, m: Mark, text: &str) -> (i: usize)
    ensures
        i == first_where(entries.deep_view(), marked(m, text@)),
        i <= entries.len(),
{
    let mut i: usize = 0;
    while i < entries.len()
        invariant
            i <= entries.len(),
            forall|j: int| 0 <= j < i ==> !marked(m, text@)(#[trigger] entries.deep_view()[j]),
        decreases entries.len() - i,
    {
        assert(entries.deep_view()[i as int] == entries@[i as int]@);
        if entries[i].carries(m, text) {
            proof {
                lemma_first_where_unique(entries.deep_view(), marked(m, text@), i as int);
            }
            return i;
        }
        i += 1;
    }
    proof {
        lemma_first_where_unique(entries.deep_view(), marked(m, text@), i as int);
    }
    i
}

/// Drops every outbound whose type or tag is `text` and keeps the others in
/// their order.
pub fn drop_marked(entries: &mut Vec<Outbound>, m: Mark, text: &str)
    ensures
        final(entries).deep_view() == kept(old(entries).deep_view(), unmarked(m, text@)),
{
    let ghost all = entries.deep_view();
    let ghost keep = unmarked(m, text@);
    let mut i: usize = 0;
    let mut seen: Ghost<int> = Ghost(0);
    assert(all.take(0) =~= Seq::<OutboundView>::empty());
    assert(entries.deep_view().take(0) =~= Seq::<OutboundView>::empty());
    assert(all.skip(0) =~= all);
    assert(entries.deep_view().skip(0) =~= all);
    while i < entries.len()
        invariant
            i <= entries.len(),
            0 <= seen@ <= all.len(),
            keep == unmarked(m, text@),
            entries.deep_view().take(i as int) == kept(all.take(seen@), keep),
            entries.deep_view().skip(i as int) == all.skip(seen@),
        decreases entries.len() - i,
    {
        let ghost before = entries.deep_view();
        proof {
            assert(before.skip(i as int).len() == all.skip(seen@).len());
            assert(before.skip(i as int)[0] == all.skip(seen@)[0]);
            assert(before[i as int] == entries@[i as int]@);
            assert(all.take(seen@ + 1).drop_last() =~= all.take(seen@));
            assert(all.take(seen@ + 1).last() == all[seen@]);
        }
        if entries[i].carries(m, text) {
            entries.remove(i);
            proof {
                assert(entries.deep_view() =~= before.remove(i as int));
                assert(entries.deep_view().take(i as int) =~= before.take(i as int));
                assert(entries.deep_view().skip(i as int) =~= before.skip(i as int).skip(1));
                assert(all.skip(seen@).skip(1) =~= all.skip(seen@ + 1));
                seen@ = seen@ + 1;
            }
        } else {
            proof {
                assert(before.take(i + 1) =~= before.take(i as int).push(before[i as int]));
                assert(before.skip(i + 1) =~= before.skip(i as int).skip(1));
                assert(all.skip(seen@).skip(1) =~= all.skip(seen@ + 1));
                seen@ = seen@ + 1;
            }
            i += 1;
        }
    }
    proof {
        assert(entries.deep_view().take(i as int) =~= entries.deep_view());
        assert(entries.deep_view().skip(i as int).len() == 0);
        assert(all.take(seen@) =~= all);
    }
}

impl OutboundView {
    /// The record that stands for the outbound: that of what it holds.
    pub open spec fn to_json(self) -> JsonView {
        match self {
            OutboundView::Direct(x) => x.to_json(),
            OutboundView::Vless(x) => x.to_json(),
        }
    }

    /// The outbound that an object stands for, of the kind that its type names.
    /// Fails for a value that is no object, and for an object without a
    /// type or with a type that names no kind.
    pub open spec fn from_json(j: JsonView) -> Option<OutboundView> {
        match entries_of(j) {
            Some(es) => {
                let kind = get(es, Key::Type);
                if kind == Some(JsonView::Text("direct"@)) {
                    match DirectConfigView::from_record(es) {
                        Some(x) => Some(OutboundView::Direct(x)),
                        None => None,
                    }
                } else if kind == Some(JsonView::Text("vless"@)) {
                    match VlessConfigView::from_record(es) {
                        Some(x) => Some(OutboundView::Vless(x)),
                        None => None,
                    }
                } else {
                    None
                }
            },
            None => None,
        }
    }

    /// Whether the outbound is written in a form from which it is read back:
    /// what it holds is, and its type names its kind.
    pub open spec fn canonical(self) -> bool {
        match self {
            OutboundView::Direct(x) => x.canonical() && x.config_type == Some("direct"@),
            OutboundView::Vless(x) => x.canonical() && x.config_type == Some("vless"@),
        }
    }

    /// The outbound is read back from the record that stands for it.
    pub proof fn lemma_round_trip(self)
        requires
            self.canonical(),
        ensures
            OutboundView::from_json(self.to_json()) == Some(self),
    {
        broadcast use {lemma_get_empty, lemma_get_put, lemma_get_merge};

        reveal_strlit("direct");
        assert("direct"@.len() == 6);
        reveal_strlit("vless");
        assert("vless"@.len() == 5);
        match self {
            OutboundView::Direct(x) => {
                x.lemma_round_trip();
                assert(get(x.record(), Key::Type) == Some(JsonView::Text("direct"@)));
            },
            OutboundView::Vless(x) => {
                x.lemma_round_trip();
                assert(get(x.record(), Key::Type) == Some(JsonView::Text("vless"@)));
            },
        }
    }
}

impl Outbound {
    /// The record that stands for the outbound.
    pub fn to_json(&self) -> (r: Json)
        ensures
            r@ == self@.to_json(),
    {
        match self {
            Outbound::Direct(x) => x.to_json(),
            Outbound::Vless(x) => x.to_json(),
        }
    }

    /// Reads the outbound from an object, as `OutboundView::from_json` says.
    pub fn from_json(j: &Json) -> (r: Result<Outbound, SchemaMismatch>)
        ensures
            match r {
                Ok(x) => OutboundView::from_json(j@) == Some(x@),
                Err(_) => OutboundView::from_json(j@) is None,
            },
    {
        let es = match read_entries(j) {
            Ok(es) => es,
            Err(e) => {
                return Err(e);
            },
        };
        match get_field(&es, Key::Type) {
            Some(Json::Text(s)) => if same_text(s.as_str(), "direct") {
                match DirectConfig::from_record(&es) {
                    Ok(x) => Ok(Outbound::Direct(x)),
                    Err(e) => Err(e),
                }
            } else if same_text(s.as_str(), "vless") {
                match VlessConfig::from_record(&es) {
                    Ok(x) => Ok(Outbound::Vless(x)),
                    Err(e) => Err(e),
                }
            } else {
                Err(SchemaMismatch)
            },
            _ => Err(SchemaMismatch),
        }
    }
}

/// The outbounds of a document, in the order in which they were added.
#[derive(Debug, Clone, PartialEq)]
pub struct OutboundConfig {
    pub outbounds: Vec<Outbound>,
}

/// What a [`OutboundConfig`] holds, with every text as its characters.
pub struct OutboundConfigView {
    pub outbounds: Seq<OutboundView>,
}

impl DeepView for OutboundConfig {
    type V = OutboundConfigView;

    open spec fn deep_view(&self) -> OutboundConfigView {
        OutboundConfigView {
            outbounds: self.outbounds.deep_view(),
        }
    }
}

impl View for OutboundConfig {
    type V = OutboundConfigView;

    open spec fn view(&self) -> OutboundConfigView {
        self.deep_view()
    }
}

impl OutboundConfigView {
    /// The list that stands for the section: its entries, in their order.
    pub open spec fn to_json(self) -> JsonView {
        outbound_list_json(self.outbounds)
    }

    /// The section that a list stands for, if each of its values stands
    /// for an entry.
    pub open spec fn from_json(j: JsonView) -> Option<OutboundConfigView> {
        match json_outbound_list(j) {
            Some(s) => Some(OutboundConfigView { outbounds: s }),
            None => None,
        }
    }

    /// Whether the section is written in a form from which it is read back:
    /// each of its entries is.
    pub open spec fn canonical(self) -> bool {
        canonical_outbound_list(self.outbounds)
    }

    /// The section is read back from the list that stands for it.
    pub proof fn lemma_round_trip(self)
        requires
            self.canonical(),
        ensures
            OutboundConfigView::from_json(self.to_json()) == Some(self),
    {
        lemma_outbound_list(self.outbounds);
    }
}

impl OutboundConfig {
    /// The list that stands for the section.
    pub fn to_json(&self) -> (r: Json)
        ensures
            r@ == self@.to_json(),
    {
        write_outbound_list((&self.outbounds))
    }

    /// Reads the section from a list, as `OutboundConfigView::from_json` says.
    pub fn from_json(j: &Json) -> (r: Result<OutboundConfig, SchemaMismatch>)
        ensures
            match r {
                Ok(x) => OutboundConfigView::from_json(j@) == Some(x@),
                Err(_) => OutboundConfigView::from_json(j@) is None,
            },
    {
        match read_outbound_list(j) {
            Ok(outbounds) => Ok(OutboundConfig { outbounds }),
            Err(e) => Err(e),
        }
    }
}

impl OutboundConfigView {
    /// The outbounds of the section, in their order.
    pub open spec fn entries(self) -> Seq<OutboundView> {
        self.outbounds
    }

    /// The tag of the first outbound of type `t`; none where no outbound is of
    /// that type, or the first that is has no tag.
    pub open spec fn tag_of_type(self, t: Seq<char>) -> Option<Seq<char>> {
        match found(self.entries(), marked(Mark::Type, t)) {
            Some(e) => e.tag(),
            None => None,
        }
    }

    /// The first outbound that carries `tag`, if there is one.
    pub open spec fn entry_with_tag(self, tag: Seq<char>) -> Option<OutboundView> {
        found(self.entries(), marked(Mark::Tag, tag))
    }

    /// Whether an outbound carries `tag`.
    pub open spec fn has_tag(self, tag: Seq<char>) -> bool {
        self.entry_with_tag(tag) is Some
    }

    /// The section with one more outbound at its end.
    pub open spec fn with_entry(self, e: OutboundView) -> OutboundConfigView {
        OutboundConfigView { outbounds: (self.entries().push(e)), ..self }
    }

    /// The section without the outbounds whose type or tag is `text`.
    pub open spec fn without(self, m: Mark, text: Seq<char>) -> OutboundConfigView {
        OutboundConfigView { outbounds: kept(self.outbounds, unmarked(m, text)), ..self }
    }
}

impl OutboundConfig {
    /// A section without outbounds.
    pub fn new() -> (r: Self)
        ensures
            r@.entries() == Seq::<OutboundView>::empty(),
    {
        let r = OutboundConfig { outbounds: Vec::new() };
        assert(r@.entries() =~= Seq::<OutboundView>::empty());
        r
    }

    /// Adds an outbound at the end of the section.
    pub fn add_outbound(&mut self, e: Outbound) -> (r: &mut Self)
        ensures
            r@ == old(self)@.with_entry(e@),
            *final(self) == *final(r),
    {
        let ghost before = self@.entries();
        self.outbounds.push(e);
        assert(self.outbounds.deep_view() =~= before.push(e@));
        self
    }

    /// The tag of the first outbound of the given type, as `tag_of_type` says.
    pub fn get_tag_by_type(&self, kind: &str) -> (r: Option<String>)
        ensures
            r.deep_view() == self@.tag_of_type(kind@),
    {
        let entries: &Vec<Outbound> = &self.outbounds;
        let i = position(entries, Mark::Type, kind);
        if i < entries.len() {
            assert(entries.deep_view()[i as int] == entries@[i as int]@);
            match entries[i].tag() {
                Some(t) => Some(t.clone()),
                None => None,
            }
        } else {
            None
        }
    }

    /// The first outbound that carries `tag`, if there is one.
    pub fn get_ref_by_tag(&self, tag: &str) -> (r: Option<&Outbound>)
        ensures
            r.deep_view() == self@.entry_with_tag(tag@),
    {
        let entries: &Vec<Outbound> = &self.outbounds;
        let i = position(entries, Mark::Tag, tag);
        if i < entries.len() {
            assert(entries.deep_view()[i as int] == entries@[i as int]@);
            Some(&entries[i])
        } else {
            None
        }
    }

    /// Whether an outbound carries `tag`.
    pub fn has_tag(&self, tag: &str) -> (r: bool)
        ensures
            r == self@.has_tag(tag@),
    {
        self.get_ref_by_tag(tag).is_some()
    }

    /// The first outbound that carries `tag`, to be changed in place. What is
    /// written through the reference takes that outbound's place; nothing else
    /// in the section changes.
    pub fn get_mut_by_tag(&mut self, tag: &str) -> (r: Option<&mut Outbound>)
        ensures
            match r {
                Some(e) => {
                    let i = first_where(old(self)@.entries(), marked(Mark::Tag, tag@));
                    &&& 0 <= i < old(self)@.entries().len()
                    &&& e@ == old(self)@.entries()[i]
                    &&& final(self)@.entries() =~= old(self)@.entries().update(i, final(e)@)
                    &&& final(self)@ == (OutboundConfigView {
                        outbounds: (final(self)@.entries()),
                        ..old(self)@
                    })
                },
                None => old(self)@.entry_with_tag(tag@) is None && final(self)@ == old(self)@,
            },
    {
        let i = position(&self.outbounds, Mark::Tag, tag);
        if i < self.outbounds.len() {
            assert(self.outbounds.deep_view()[i as int] == self.outbounds@[i as int]@);
            Some(&mut self.outbounds[i])
        } else {
            None
        }
    }

    /// Drops every outbound of the given type. Whatever refers to a dropped
    /// outbound by its tag is left as it is.
    pub fn remove_server_by_type(&mut self, kind: &str)
        ensures
            final(self)@ == old(self)@.without(Mark::Type, kind@),
    {
        drop_marked(&mut self.outbounds, Mark::Type, kind);
    }

    /// Drops every outbound that carries `tag`. Whatever refers to a dropped
    /// outbound by its tag is left as it is.
    pub fn remove_server_by_tag(&mut self, tag: &str)
        ensures
            final(self)@ == old(self)@.without(Mark::Tag, tag@),
    {
        drop_marked(&mut self.outbounds, Mark::Tag, tag);
    }
}

impl OutboundConfigView {
    /// The section with one more direct outbound, under `tag` or the default
    /// tag of direct outbounds.
    pub open spec fn with_direct(self, tag: Option<Seq<char>>) -> OutboundConfigView {
        self.with_entry(
            OutboundView::Direct(
                DirectConfigView {
                    tag: Some(
                        match tag {
                            Some(t) => t,
                            None => DIRECT_OUTBOUND_TAG@,
                        },
                    ),
                    ..DirectConfigView::fresh()
                },
            ),
        )
    }

    /// The section with one more VLESS outbound.
    pub open spec fn with_vless(self, vless: VlessConfigView) -> OutboundConfigView {
        self.with_entry(OutboundView::Vless(vless))
    }
}

impl OutboundConfig {
    /// Adds a direct outbound, as `with_direct` says.
    pub fn add_direct(&mut self, tag: Option<String>) -> (r: &mut Self)
        ensures
            r@ == old(self)@.with_direct(tag.deep_view()),
            *final(self) == *final(r),
    {
        let mut direct = DirectConfig::new();
        match tag {
            Some(t) => {
                direct.tag = Some(t);
            },
            None => {},
        }
        self.add_outbound(Outbound::Direct(direct))
    }

    /// Adds a VLESS outbound as it stands.
    pub fn add_vless(&mut self, vless: VlessConfig) -> (r: &mut Self)
        ensures
            r@ == old(self)@.with_vless(vless@),
            *final(self) == *final(r),
    {
        self.add_outbound(Outbound::Vless(vless))
    }
}

/// The list that stands for a sequence of outbounds.
#[verifier::opaque]
pub open spec fn outbound_list_json(s: Seq<OutboundView>) -> JsonView {
    JsonView::List(Seq::new(s.len(), |i: int| s[i].to_json()))
}

/// The sequence of outbounds that a list stands for, if each of its values
/// stands for one.
#[verifier::opaque]
pub open spec fn json_outbound_list(j: JsonView) -> Option<Seq<OutboundView>> {
    match j {
        JsonView::List(js) => if forall|i: int|
            0 <= i < js.len() ==> (#[trigger] OutboundView::from_json(js[i])) is Some {
            Some(Seq::new(js.len(), |i: int| OutboundView::from_json(js[i])->0))
        } else {
            None
        },
        _ => None,
    }
}

/// Whether each of the outbounds is written in a form from which it is read
/// back.
pub open spec fn canonical_outbound_list(s: Seq<OutboundView>) -> bool {
    forall|i: int| 0 <= i < s.len() ==> (#[trigger] s[i]).canonical()
}

/// A sequence of outbounds is read back from the list that stands for it.
pub proof fn lemma_outbound_list(s: Seq<OutboundView>)
    requires
        canonical_outbound_list(s),
    ensures
        json_outbound_list(outbound_list_json(s)) == Some(s),
        outbound_list_json(s) is List,
{
    reveal(outbound_list_json);
    reveal(json_outbound_list);
    let js = outbound_list_json(s)->List_0;
    assert forall|i: int| 0 <= i < js.len() implies (#[trigger] OutboundView::from_json(js[i])) == Some(s[i]) by {
        s[i].lemma_round_trip();
    }
    assert(Seq::new(js.len(), |i: int| OutboundView::from_json(js[i])->0) =~= s);
}

/// Writes a sequence of outbounds, as `outbound_list_json` says.
pub fn write_outbound_list(v: &Vec<Outbound>) -> (r: Json)
    ensures
        r@ == outbound_list_json(v.deep_view()),
{
    reveal(outbound_list_json);
    let mut out: Vec<Json> = Vec::new();
    let mut i: usize = 0;
    let ghost s = v.deep_view();
    while i < v.len()
        invariant
            i <= v.len(),
            s == v.deep_view(),
            out.deep_view() == Seq::new(i as nat, |k: int| s[k].to_json()),
        decreases v.len() - i,
    {
        let ghost before = out.deep_view();
        let elem = &v[i];
        let item = elem.to_json();
        out.push(item);
        proof {
            assert(s[i as int] == v@[i as int].deep_view());
            assert(out.deep_view() =~= before.push(item@));
            assert(before.push(item@) =~= Seq::new((i + 1) as nat, |k: int| s[k].to_json()));
        }
        i += 1;
    }
    let r = Json::List(out);
    proof {
        lemma_json_view(r);
        assert(out.deep_view() =~= Seq::new(s.len(), |k: int| s[k].to_json()));
    }
    r
}

/// Reads a sequence of outbounds, as `json_outbound_list` says.
pub fn read_outbound_list(j: &Json) -> (r: Result<Vec<Outbound>, SchemaMismatch>)
    ensures
        match r {
            Ok(v) => json_outbound_list(j@) == Some(v.deep_view()),
            Err(_) => json_outbound_list(j@) is None,
        },
{
    reveal(json_outbound_list);
    proof {
        lemma_json_view(*j);
    }
    match j {
        Json::List(js) => {
            let mut out: Vec<Outbound> = Vec::new();
            let mut i: usize = 0;
            let ghost all = js.deep_view();
            while i < js.len()
                invariant
                    i <= js.len(),
                    all == js.deep_view(),
                    j@ == JsonView::List(all),
                    forall|k: int| 0 <= k < i ==> (#[trigger] OutboundView::from_json(all[k])) is Some,
                    out.deep_view() == Seq::new(i as nat, |k: int| OutboundView::from_json(all[k])->0),
                decreases js.len() - i,
            {
                let ghost before = out.deep_view();
                proof {
                    assert(all[i as int] == js@[i as int]@);
                }
                let value = &js[i];
                match Outbound::from_json(value) {
                    Ok(x) => {
                        out.push(x);
                        proof {
                            assert(out.deep_view() =~= before.push(x.deep_view()));
                            assert(before.push(x.deep_view()) =~= Seq::new(
                                (i + 1) as nat,
                                |k: int| OutboundView::from_json(all[k])->0,
                            ));
                        }
                    },
                    Err(e) => {
                        reveal(json_outbound_list);
                        assert(OutboundView::from_json(all[i as int]) is None);
                        return Err(e);
                    },
                }
                i += 1;
            }
            proof {
                assert(out.deep_view() =~= Seq::new(all.len(), |k: int| OutboundView::from_json(all[k])->0));
            }
            Ok(out)
        },
        _ => Err(SchemaMismatch),
    }
}

} // verus!
