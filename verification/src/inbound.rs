//! The inbound section of a document.

pub mod direct;
pub mod mixed;

use crate::defaults::{DIRECT_INBOUND_TAG, MIXED_INBOUND_TAG};
use crate::inbound::direct::{DirectConfig, DirectConfigView};
use crate::inbound::mixed::{MixedConfig, MixedConfigView};
use crate::json::{entries_of, get, get_field, Json, JsonView, Key, lemma_get_empty, lemma_get_merge, lemma_get_put, lemma_json_view, read_entries, SchemaMismatch};
use crate::scan::{first_where, found, kept, lemma_first_where_unique, Mark};
use crate::shared::listenfields::{ListenFields, ListenFieldsView};
use crate::text::same_text;
use vstd::prelude::*;

verus! {

/// One inbound of the section.
#[derive(Debug, Clone, PartialEq)]
pub enum Inbound {
    /// A direct inbound.
    Direct(DirectConfig),
    /// A mixed inbound.
    Mixed(MixedConfig),
}

/// What a [`Inbound`] holds, with every text as its characters.
pub enum InboundView {
    Direct(DirectConfigView),
    Mixed(MixedConfigView),
}

impl DeepView for Inbound {
    type V = InboundView;

    open spec fn deep_view(&self) -> InboundView {
        match self {
            Inbound::Direct(x) => InboundView::Direct(x.deep_view()),
            Inbound::Mixed(x) => InboundView::Mixed(x.deep_view()),
        }
    }
}

impl View for Inbound {
    type V = InboundView;

    open spec fn view(&self) -> InboundView {
        self.deep_view()
    }
}

impl InboundView {
    /// The tag of the inbound, whatever its kind.
    pub open spec fn tag(self) -> Option<Seq<char>> {
        match self {
            InboundView::Direct(x) => x.tag,
            InboundView::Mixed(x) => x.tag,
        }
    }

    /// The type discriminator of the inbound, whatever its kind.
    pub open spec fn config_type(self) -> Option<Seq<char>> {
        match self {
            InboundView::Direct(x) => x.config_type,
            InboundView::Mixed(x) => x.config_type,
        }
    }

    /// What the inbound is looked up by: its type or its tag.
    pub open spec fn mark(self, m: Mark) -> Option<Seq<char>> {
        match m {
            Mark::Type => self.config_type(),
            Mark::Tag => self.tag(),
        }
    }
}

impl Inbound {
    /// The tag of the inbound, whatever its kind.
    pub fn tag(&self) -> (r: Option<&String>)
        ensures
            r.deep_view() == self@.tag(),
    {
        match self {
            Inbound::Direct(x) => x.tag.as_ref(),
            Inbound::Mixed(x) => x.tag.as_ref(),
        }
    }

    /// The type discriminator of the inbound, whatever its kind.
    pub fn config_type(&self) -> (r: Option<&String>)
        ensures
            r.deep_view() == self@.config_type(),
    {
        match self {
            Inbound::Direct(x) => x.config_type.as_ref(),
            Inbound::Mixed(x) => x.config_type.as_ref(),
        }
    }

    /// Whether the type or the tag of the inbound is `text`.
    pub fn carries(&self, m: Mark, text: &str) -> (r: bool)
        ensures
            r == (self@.mark(m) == Some(text@)),
    {
        let held = match m {
            Mark::Type => self.config_type(),
            Mark::Tag => self.tag(),
        };
        match held {
            Some(s) => same_text(s.as_str(), text),
            None => false,
        }
    }
}

/// Picks the inbounds whose type or tag is `text`.
pub open spec fn marked(m: Mark, text: Seq<char>) -> spec_fn(InboundView) -> bool {
    |e: InboundView| e.mark(m) == Some(text)
}

/// Picks the inbounds whose type or tag is not `text`.
pub open spec fn unmarked(m: Mark, text: Seq<char>) -> spec_fn(InboundView) -> bool {
    |e: InboundView| e.mark(m) != Some(text)
}

/// Index of the first inbound whose type or tag is `text`, or the number of
/// inbounds when there is none.
pub fn position(entries: &Vec<Inbound>, m: Mark, text: &str) -> (i: usize)
    ensures
        i == first_where(entries.deep_view(), marked(m, text@)),
        i <= entries.len(),
{
    let mut i: usize = 0;
    while i < entries.len()
        invariant
            i <= entries.len(),
            forall|j: int| 0 <= j < i ==> !marked(m, text@)(#[trigger] entries.deep_view()[j]),
        decreases entries.len() - i,
    {
        assert(entries.deep_view()[i as int] == entries@[i as int]@);
        if entries[i].carries(m, text) {
            proof {
                lemma_first_where_unique(entries.deep_view(), marked(m, text@), i as int);
            }
            return i;
        }
        i += 1;
    }
    proof {
        lemma_first_where_unique(entries.deep_view(), marked(m, text@), i as int);
    }
    i
}

/// Drops every inbound whose type or tag is `text` and keeps the others in
/// their order.
pub fn drop_marked(entries: &mut Vec<Inbound>, m: Mark, text: &str)
    ensures
        final(entries).deep_view() == kept(old(entries).deep_view(), unmarked(m, text@)),
{
    let ghost all = entries.deep_view();
    let ghost keep = unmarked(m, text@);
    let mut i: usize = 0;
    let mut seen: Ghost<int> = Ghost(0);
    assert(all.take(0) =~= Seq::<InboundView>::empty());
    assert(entries.deep_view().take(0) =~= Seq::<InboundView>::empty());
    assert(all.skip(0) =~= all);
    assert(entries.deep_view().skip(0) =~= all);
    while i < entries.len()
        invariant
            i <= entries.len(),
            0 <= seen@ <= all.len(),
            keep == unmarked(m, text@),
            entries.deep_view().take(i as int) == kept(all.take(seen@), keep),
            entries.deep_view().skip(i as int) == all.skip(seen@),
        decreases entries.len() - i,
    {
        let ghost before = entries.deep_view();
        proof {
            assert(before.skip(i as int).len() == all.skip(seen@).len());
            assert(before.skip(i as int)[0] == all.skip(seen@)[0]);
            assert(before[i as int] == entries@[i as int]@);
            assert(all.take(seen@ + 1).drop_last() =~= all.take(seen@));
            assert(all.take(seen@ + 1).last() == all[seen@]);
        }
        if entries[i].carries(m, text) {
            entries.remove(i);
            proof {
                assert(entries.deep_view() =~= before.remove(i as int));
                assert(entries.deep_view().take(i as int) =~= before.take(i as int));
                assert(entries.deep_view().skip(i as int) =~= before.skip(i as int).skip(1));
                assert(all.skip(seen@).skip(1) =~= all.skip(seen@ + 1));
                seen@ = seen@ + 1;
            }
        } else {
            proof {
                assert(before.take(i + 1) =~= before.take(i as int).push(before[i as int]));
                assert(before.skip(i + 1) =~= before.skip(i as int).skip(1));
                assert(all.skip(seen@).skip(1) =~= all.skip(seen@ + 1));
                seen@ = seen@ + 1;
            }
            i += 1;
        }
    }
    proof {
        assert(entries.deep_view().take(i as int) =~= entries.deep_view());
        assert(entries.deep_view().skip(i as int).len() == 0);
        assert(all.take(seen@) =~= all);
    }
}

impl InboundView {
    /// The record that stands for the inbound: that of what it holds.
    pub open spec fn to_json(self) -> JsonView {
        match self {
            InboundView::Direct(x) => x.to_json(),
            InboundView::Mixed(x) => x.to_json(),
        }
    }

    /// The inbound that an object stands for, of the kind that its type names.
    /// Fails for a value that is no object, and for an object without a
    /// type or with a type that names no kind.
    pub open spec fn from_json(j: JsonView) -> Option<InboundView> {
        match entries_of(j) {
            Some(es) => {
                let kind = get(es, Key::Type);
                if kind == Some(JsonView::Text("direct"@)) {
                    match DirectConfigView::from_record(es) {
                        Some(x) => Some(InboundView::Direct(x)),
                        None => None,
                    }
                } else if kind == Some(JsonView::Text("mixed"@)) {
                    match MixedConfigView::from_record(es) {
                        Some(x) => Some(InboundView::Mixed(x)),
                        None => None,
                    }
                } else {
                    None
                }
            },
            None => None,
        }
    }

    /// Whether the inbound is written in a form from which it is read back:
    /// what it holds is, and its type names its kind.
    pub open spec fn canonical(self) -> bool {
        match self {
            InboundView::Direct(x) => x.canonical() && x.config_type == Some("direct"@),
            InboundView::Mixed(x) => x.canonical() && x.config_type == Some("mixed"@),
        }
    }

    /// The inbound is read back from the record that stands for it.
    pub proof fn lemma_round_trip(self)
        requires
            self.canonical(),
        ensures
            InboundView::from_json(self.to_json()) == Some(self),
    {
        broadcast use {lemma_get_empty, lemma_get_put, lemma_get_merge};

        reveal_strlit("direct");
        assert("direct"@.len() == 6);
        reveal_strlit("mixed");
        assert("mixed"@.len() == 5);
        match self {
            InboundView::Direct(x) => {
                x.lemma_round_trip();
                assert(get(x.record(), Key::Type) == Some(JsonView::Text("direct"@)));
            },
            InboundView::Mixed(x) => {
                x.lemma_round_trip();
                assert(get(x.record(), Key::Type) == Some(JsonView::Text("mixed"@)));
            },
        }
    }
}

impl Inbound {
    /// The record that stands for the inbound.
    pub fn to_json(&self) -> (r: Json)
        ensures
            r@ == self@.to_json(),
    {
        match self {
            Inbound::Direct(x) => x.to_json(),
            Inbound::Mixed(x) => x.to_json(),
        }
    }

    /// Reads the inbound from an object, as `InboundView::from_json` says.
    pub fn from_json(j: &Json) -> (r: Result<Inbound, SchemaMismatch>)
        ensures
            match r {
                Ok(x) => InboundView::from_json(j@) == Some(x@),
                Err(_) => InboundView::from_json(j@) is None,
            },
    {
        let es = match read_entries(j) {
            Ok(es) => es,
            Err(e) => {
                return Err(e);
            },
        };
        match get_field(&es, Key::Type) {
            Some(Json::Text(s)) => if same_text(s.as_str(), "direct") {
                match DirectConfig::from_record(&es) {
                    Ok(x) => Ok(Inbound::Direct(x)),
                    Err(e) => Err(e),
                }
            } else if same_text(s.as_str(), "mixed") {
                match MixedConfig::from_record(&es) {
                    Ok(x) => Ok(Inbound::Mixed(x)),
                    Err(e) => Err(e),
                }
            } else {
                Err(SchemaMismatch)
            },
            _ => Err(SchemaMismatch),
        }
    }
}

/// The inbounds of a document, in the order in which they were added.
#[derive(Debug, Clone, PartialEq)]
pub struct InboundConfig {
    pub inbounds: Vec<Inbound>,
}

/// What a [`InboundConfig`] holds, with every text as its characters.
pub struct InboundConfigView {
    pub inbounds: Seq<InboundView>,
}

impl DeepView for InboundConfig {
    type V = InboundConfigView;

    open spec fn deep_view(&self) -> InboundConfigView {
        InboundConfigView {
            inbounds: self.inbounds.deep_view(),
        }
    }
}

impl View for InboundConfig {
    type V = InboundConfigView;

    open spec fn view(&self) -> InboundConfigView {
        self.deep_view()
    }
}

impl InboundConfigView {
    /// The list that stands for the section: its entries, in their order.
    pub open spec fn to_json(self) -> JsonView {
        inbound_list_json(self.inbounds)
    }

    /// The section that a list stands for, if each of its values stands
    /// for an entry.
    pub open spec fn from_json(j: JsonView) -> Option<InboundConfigView> {
        match json_inbound_list(j) {
            Some(s) => Some(InboundConfigView { inbounds: s }),
            None => None,
        }
    }

    /// Whether the section is written in a form from which it is read back:
    /// each of its entries is.
    pub open spec fn canonical(self) -> bool {
        canonical_inbound_list(self.inbounds)
    }

    /// The section is read back from the list that stands for it.
    pub proof fn lemma_round_trip(self)
        requires
            self.canonical(),
        ensures
            InboundConfigView::from_json(self.to_json()) == Some(self),
    {
        lemma_inbound_list(self.inbounds);
    }
}

impl InboundConfig {
    /// The list that stands for the section.
    pub fn to_json(&self) -> (r: Json)
        ensures
            r@ == self@.to_json(),
    {
        write_inbound_list((&self.inbounds))
    }

    /// Reads the section from a list, as `InboundConfigView::from_json` says.
    pub fn from_json(j: &Json) -> (r: Result<InboundConfig, SchemaMismatch>)
        ensures
            match r {
                Ok(x) => InboundConfigView::from_json(j@) == Some(x@),
                Err(_) => InboundConfigView::from_json(j@) is None,
            },
    {
        match read_inbound_list(j) {
            Ok(inbounds) => Ok(InboundConfig { inbounds }),
            Err(e) => Err(e),
        }
    }
}

impl InboundConfigView {
    /// The inbounds of the section, in their order.
    pub open spec fn entries(self) -> Seq<InboundView> {
        self.inbounds
    }

    /// The tag of the first inbound of type `t`; none where no inbound is of
    /// that type, or the first that is has no tag.
    pub open spec fn tag_of_type(self, t: Seq<char>) -> Option<Seq<char>> {
        match found(self.entries(), marked(Mark::Type, t)) {
            Some(e) => e.tag(),
            None => None,
        }
    }

    /// The first inbound that carries `tag`, if there is one.
    pub open spec fn entry_with_tag(self, tag: Seq<char>) -> Option<InboundView> {
        found(self.entries(), marked(Mark::Tag, tag))
    }

    /// Whether an inbound carries `tag`.
    pub open spec fn has_tag(self, tag: Seq<char>) -> bool {
        self.entry_with_tag(tag) is Some
    }

    /// The section with one more inbound at its end.
    pub open spec fn with_entry(self, e: InboundView) -> InboundConfigView {
        InboundConfigView { inbounds: (self.entries().push(e)), ..self }
    }

    /// The section without the inbounds whose type or tag is `text`.
    pub open spec fn without(self, m: Mark, text: Seq<char>) -> InboundConfigView {
        InboundConfigView { inbounds: kept(self.inbounds, unmarked(m, text)), ..self }
    }
}

impl InboundConfig {
    /// A section without inbounds.
    pub fn new() -> (r: Self)
        ensures
            r@.entries() == Seq::<InboundView>::empty(),
    {
        let r = InboundConfig { inbounds: Vec::new() };
        assert(r@.entries() =~= Seq::<InboundView>::empty());
        r
    }

    /// Adds an inbound at the end of the section.
    pub fn add_inbound(&mut self, e: Inbound) -> (r: &mut Self)
        ensures
            r@ == old(self)@.with_entry(e@),
            *final(self) == *final(r),
    {
        let ghost before = self@.entries();
        self.inbounds.push(e);
        assert(self.inbounds.deep_view() =~= before.push(e@));
        self
    }

    /// The tag of the first inbound of the given type, as `tag_of_type` says.
    pub fn get_tag_by_type(&self, kind: &str) -> (r: Option<String>)
        ensures
            r.deep_view() == self@.tag_of_type(kind@),
    {
        let entries: &Vec<Inbound> = &self.inbounds;
        let i = position(entries, Mark::Type, kind);
        if i < entries.len() {
            assert(entries.deep_view()[i as int] == entries@[i as int]@);
            match entries[i].tag() {
                Some(t) => Some(t.clone()),
                None => None,
            }
        } else {
            None
        }
    }

    /// The first inbound that carries `tag`, if there is one.
    pub fn get_ref_by_tag(&self, tag: &str) -> (r: Option<&Inbound>)
        ensures
            r.deep_view() == self@.entry_with_tag(tag@),
    {
        let entries: &Vec<Inbound> = &self.inbounds;
        let i = position(entries, Mark::Tag, tag);
        if i < entries.len() {
            assert(entries.deep_view()[i as int] == entries@[i as int]@);
            Some(&entries[i])
        } else {
            None
        }
    }

    /// Whether an inbound carries `tag`.
    pub fn has_tag(&self, tag: &str) -> (r: bool)
        ensures
            r == self@.has_tag(tag@),
    {
        self.get_ref_by_tag(tag).is_some()
    }

    /// The first inbound that carries `tag`, to be changed in place. What is
    /// written through the reference takes that inbound's place; nothing else
    /// in the section changes.
    pub fn get_mut_by_tag(&mut self, tag: &str) -> (r: Option<&mut Inbound>)
        ensures
            match r {
                Some(e) => {
                    let i = first_where(old(self)@.entries(), marked(Mark::Tag, tag@));
                    &&& 0 <= i < old(self)@.entries().len()
                    &&& e@ == old(self)@.entries()[i]
                    &&& final(self)@.entries() =~= old(self)@.entries().update(i, final(e)@)
                    &&& final(self)@ == (InboundConfigView {
                        inbounds: (final(self)@.entries()),
                        ..old(self)@
                    })
                },
                None => old(self)@.entry_with_tag(tag@) is None && final(self)@ == old(self)@,
            },
    {
        let i = position(&self.inbounds, Mark::Tag, tag);
        if i < self.inbounds.len() {
            assert(self.inbounds.deep_view()[i as int] == self.inbounds@[i as int]@);
            Some(&mut self.inbounds[i])
        } else {
            None
        }
    }

    /// Drops every inbound of the given type. Whatever refers to a dropped
    /// inbound by its tag is left as it is.
    pub fn remove_server_by_type(&mut self, kind: &str)
        ensures
            final(self)@ == old(self)@.without(Mark::Type, kind@),
    {
        drop_marked(&mut self.inbounds, Mark::Type, kind);
    }

    /// Drops every inbound that carries `tag`. Whatever refers to a dropped
    /// inbound by its tag is left as it is.
    pub fn remove_server_by_tag(&mut self, tag: &str)
        ensures
            final(self)@ == old(self)@.without(Mark::Tag, tag@),
    {
        drop_marked(&mut self.inbounds, Mark::Tag, tag);
    }
}

impl InboundConfigView {
    /// The section with one more mixed inbound that listens on `address`
    /// and `port`, under `tag` or the default tag of mixed inbounds.
    pub open spec fn with_mixed(
        self,
        tag: Option<Seq<char>>,
        address: Seq<char>,
        port: u16,
        system_proxy: bool,
    ) -> InboundConfigView {
        self.with_entry(
            InboundView::Mixed(
                MixedConfigView {
                    tag: Some(
                        match tag {
                            Some(t) => t,
                            None => MIXED_INBOUND_TAG@,
                        },
                    ),
                    listen: Some(
                        ListenFieldsView {
                            listen: Some(address),
                            listen_port: Some(port),
                            ..ListenFieldsView::fresh()
                        },
                    ),
                    set_system_proxy: Some(system_proxy),
                    ..MixedConfigView::fresh()
                },
            ),
        )
    }

    /// The section with one more direct inbound, under `tag` or the default
    /// tag of direct inbounds.
    pub open spec fn with_direct(self, tag: Option<Seq<char>>) -> InboundConfigView {
        self.with_entry(
            InboundView::Direct(
                DirectConfigView {
                    tag: Some(
                        match tag {
                            Some(t) => t,
                            None => DIRECT_INBOUND_TAG@,
                        },
                    ),
                    ..DirectConfigView::fresh()
                },
            ),
        )
    }
}

impl InboundConfig {
    /// Adds a mixed inbound, as `with_mixed` says.
    pub fn add_mixed(
        &mut self,
        tag: Option<String>,
        address: String,
        port: u16,
        system_proxy: bool,
    ) -> (r: &mut Self)
        ensures
            r@ == old(self)@.with_mixed(tag.deep_view(), address@, port, system_proxy),
            *final(self) == *final(r),
    {
        let mut listen = ListenFields::new();
        listen.listen = Some(address);
        listen.listen_port = Some(port);
        let mut mixed = MixedConfig::new();
        match tag {
            Some(t) => {
                mixed.tag = Some(t);
            },
            None => {},
        }
        mixed.listen = Some(listen);
        mixed.set_system_proxy = Some(system_proxy);
        self.add_inbound(Inbound::Mixed(mixed))
    }

    /// Adds a direct inbound, as `with_direct` says.
    pub fn add_direct(&mut self, tag: Option<String>) -> (r: &mut Self)
        ensures
            r@ == old(self)@.with_direct(tag.deep_view()),
            *final(self) == *final(r),
    {
        let mut direct = DirectConfig::new();
        match tag {
            Some(t) => {
                direct.tag = Some(t);
            },
            None => {},
        }
        self.add_inbound(Inbound::Direct(direct))
    }
}

/// The list that stands for a sequence of inbounds.
#[verifier::opaque]
pub open spec fn inbound_list_json(s: Seq<InboundView>) -> JsonView {
    JsonView::List(Seq::new(s.len(), |i: int| s[i].to_json()))
}

/// The sequence of inbounds that a list stands for, if each of its values
/// stands for one.
#[verifier::opaque]
pub open spec fn json_inbound_list(j: JsonView) -> Option<Seq<InboundView>> {
    match j {
        JsonView::List(js) => if forall|i: int|
            0 <= i < js.len() ==> (#[trigger] InboundView::from_json(js[i])) is Some {
            Some(Seq::new(js.len(), |i: int| InboundView::from_json(js[i])->0))
        } else {
            None
        },
        _ => None,
    }
}

/// Whether each of the inbounds is written in a form from which it is read
/// back.
pub open spec fn canonical_inbound_list(s: Seq<InboundView>) -> bool {
    forall|i: int| 0 <= i < s.len() ==> (#[trigger] s[i]).canonical()
}

/// A sequence of inbounds is read back from the list that stands for it.
pub proof fn lemma_inbound_list(s: Seq<InboundView>)
    requires
        canonical_inbound_list(s),
    ensures
        json_inbound_list(inbound_list_json(s)) == Some(s),
        inbound_list_json(s) is List,
{
    reveal(inbound_list_json);
    reveal(json_inbound_list);
    let js = inbound_list_json(s)->List_0;
    assert forall|i: int| 0 <= i < js.len() implies (#[trigger] InboundView::from_json(js[i])) == Some(s[i]) by {
        s[i].lemma_round_trip();
    }
    assert(Seq::new(js.len(), |i: int| InboundView::from_json(js[i])->0) =~= s);
}

/// Writes a sequence of inbounds, as `inbound_list_json` says.
pub fn write_inbound_list(v: &Vec<Inbound>) -> (r: Json)
    ensures
        r@ == inbound_list_json(v.deep_view()),
{
    reveal(inbound_list_json);
    let mut out: Vec<Json> = Vec::new();
    let mut i: usize = 0;
    let ghost s = v.deep_view();
    while i < v.len()
        invariant
            i <= v.len(),
            s == v.deep_view(),
            out.deep_view() == Seq::new(i as nat, |k: int| s[k].to_json()),
        decreases v.len() - i,
    {
        let ghost before = out.deep_view();
        let elem = &v[i];
        let item = elem.to_json();
        out.push(item);
        proof {
            assert(s[i as int] == v@[i as int].deep_view());
            assert(out.deep_view() =~= before.push(item@));
            assert(before.push(item@) =~= Seq::new((i + 1) as nat, |k: int| s[k].to_json()));
        }
        i += 1;
    }
    let r = Json::List(out);
    proof {
        lemma_json_view(r);
        assert(out.deep_view() =~= Seq::new(s.len(), |k: int| s[k].to_json()));
    }
    r
}

/// Reads a sequence of inbounds, as `json_inbound_list` says.
pub fn read_inbound_list(j: &Json) -> (r: Result<Vec<Inbound>, SchemaMismatch>)
    ensures
        match r {
            Ok(v) => json_inbound_list(j@) == Some(v.deep_view()),
            Err(_) => json_inbound_list(j@) is None,
        },
{
    reveal(json_inbound_list);
    proof {
        lemma_json_view(*j);
    }
    match j {
        Json::List(js) => {
            let mut out: Vec<Inbound> = Vec::new();
            let mut i: usize = 0;
            let ghost all = js.deep_view();
            while i < js.len()
                invariant
                    i <= js.len(),
                    all == js.deep_view(),
                    j@ == JsonView::List(all),
                    forall|k: int| 0 <= k < i ==> (#[trigger] InboundView::from_json(all[k])) is Some,
                    out.deep_view() == Seq::new(i as nat, |k: int| InboundView::from_json(all[k])->0),
                decreases js.len() - i,
            {
                let ghost before = out.deep_view();
                proof {
                    assert(all[i as int] == js@[i as int]@);
                }
                let value = &js[i];
                match Inbound::from_json(value) {
                    Ok(x) => {
                        out.push(x);
                        proof {
                            assert(out.deep_view() =~= before.push(x.deep_view()));
                            assert(before.push(x.deep_view()) =~= Seq::new(
                                (i + 1) as nat,
                                |k: int| InboundView::from_json(all[k])->0,
                            ));
                        }
                    },
                    Err(e) => {
                        reveal(json_inbound_list);
                        assert(InboundView::from_json(all[i as int]) is None);
                        return Err(e);
                    },
                }
                i += 1;
            }
            proof {
                assert(out.deep_view() =~= Seq::new(all.len(), |k: int| InboundView::from_json(all[k])->0));
            }
            Ok(out)
        },
        _ => Err(SchemaMismatch),
    }
}

} // verus!
