//! The profile store, modelled as plain data: named partial definitions plus
//! the single default-profile slot.  Reading and writing the files behind it
//! is a collaborator's business; everything the resolver observes of storage
//! is captured here.

use vstd::prelude::*;
use vstd::relations::{sorted_by, total_ordering};
use vstd::seq_lib::lemma_sorted_unique;

use crate::config::Config;
use crate::openai_shared::{msg_seq_view, MessageView, OpenAIChatMessage};
use crate::openai_v1_image::OpenAIImageSize;

verus! {

/// What one stored profile definition states explicitly.  Every domain field
/// is optional; an absent field means "inherit from ancestors or defaults".
/// The record carries the union of both kinds' fields — each kind's resolver
/// reads only the fields it knows, as the storage format itself does.
#[derive(Debug)]
pub struct PartialDefinition {
    pub kind: Option<String>,
    pub inherits: Option<Vec<String>>,
    pub url: Option<String>,
    pub model: Option<String>,
    pub max_tokens: Option<u32>,
    pub messages: Option<Vec<OpenAIChatMessage>>,
    pub json: Option<bool>,
    pub n: Option<u8>,
    pub prompt: Option<String>,
    pub size: Option<OpenAIImageSize>,
}

/// The mathematical value of a partial definition.
pub ghost struct PartialView {
    pub kind: Option<Seq<char>>,
    pub inherits: Option<Seq<Seq<char>>>,
    pub url: Option<Seq<char>>,
    pub model: Option<Seq<char>>,
    pub max_tokens: Option<u32>,
    pub messages: Option<Seq<MessageView>>,
    pub json: Option<bool>,
    pub n: Option<u8>,
    pub prompt: Option<Seq<char>>,
    pub size: Option<OpenAIImageSize>,
}

/// The view of an optional string.
pub open spec fn opt_string_view(o: Option<String>) -> Option<Seq<char>> {
    match o {
        Some(s) => Some(s@),
        None => None,
    }
}

/// The views of a sequence of names, element by element.
pub open spec fn names_seq_view(v: Seq<String>) -> Seq<Seq<char>> {
    v.map_values(|s: String| s@)
}

/// The view of an optional list of names.
pub open spec fn opt_names_view(o: Option<Vec<String>>) -> Option<Seq<Seq<char>>> {
    match o {
        Some(v) => Some(names_seq_view(v@)),
        None => None,
    }
}

/// The view of an optional list of messages.
pub open spec fn opt_messages_view(o: Option<Vec<OpenAIChatMessage>>) -> Option<
    Seq<MessageView>,
> {
    match o {
        Some(v) => Some(msg_seq_view(v@)),
        None => None,
    }
}

impl View for PartialDefinition {
    type V = PartialView;

    open spec fn view(&self) -> PartialView {
        PartialView {
            kind: opt_string_view(self.kind),
            inherits: opt_names_view(self.inherits),
            url: opt_string_view(self.url),
            model: opt_string_view(self.model),
            max_tokens: self.max_tokens,
            messages: opt_messages_view(self.messages),
            json: self.json,
            n: self.n,
            prompt: opt_string_view(self.prompt),
            size: self.size,
        }
    }
}

/// Clones an optional string, preserving its value.
fn clone_opt_string(o: &Option<String>) -> (r: Option<String>)
    ensures
        r == *o,
{
    match o {
        Some(s) => Some(s.clone()),
        None => None,
    }
}

/// Clones a list of names, preserving its value.
pub(crate) fn clone_names(v: &Vec<String>) -> (r: Vec<String>)
    ensures
        r@ == v@,
{
    let mut r: Vec<String> = Vec::new();
    let n = v.len();
    let mut i: usize = 0;
    while i < n
        invariant
            0 <= i <= n,
            n == v@.len(),
            r@ == v@.subrange(0, i as int),
        decreases n - i,
    {
        r.push(v[i].clone());
        proof {
            assert(v@.subrange(0, i as int + 1) =~= v@.subrange(0, i as int).push(v@[i as int]));
        }
        i = i + 1;
    }
    proof {
        assert(v@.subrange(0, n as int) =~= v@);
    }
    r
}

/// Clones a list of messages, preserving its value.
fn clone_messages(v: &Vec<OpenAIChatMessage>) -> (r: Vec<OpenAIChatMessage>)
    ensures
        r@ == v@,
{
    let mut r: Vec<OpenAIChatMessage> = Vec::new();
    let n = v.len();
    let mut i: usize = 0;
    while i < n
        invariant
            0 <= i <= n,
            n == v@.len(),
            r@ == v@.subrange(0, i as int),
        decreases n - i,
    {
        r.push(v[i].clone());
        proof {
            assert(v@.subrange(0, i as int + 1) =~= v@.subrange(0, i as int).push(v@[i as int]));
        }
        i = i + 1;
    }
    proof {
        assert(v@.subrange(0, n as int) =~= v@);
    }
    r
}

impl Clone for PartialDefinition {
    fn clone(&self) -> (r: Self)
        ensures
            r@ == self@,
    {
        PartialDefinition {
            kind: clone_opt_string(&self.kind),
            inherits: match &self.inherits {
                Some(v) => Some(clone_names(v)),
                None => None,
            },
            url: clone_opt_string(&self.url),
            model: clone_opt_string(&self.model),
            max_tokens: self.max_tokens,
            messages: match &self.messages {
                Some(v) => Some(clone_messages(v)),
                None => None,
            },
            json: self.json,
            n: self.n,
            prompt: clone_opt_string(&self.prompt),
            size: self.size,
        }
    }
}

/// What the store remembers under one name: either a definition that parsed
/// into the expected shape, or text that did not.
#[derive(Debug)]
pub enum StoredDefinition {
    Parsed(PartialDefinition),
    Malformed,
}

/// The mathematical value of a stored definition.
pub ghost enum StoredDefView {
    Parsed(PartialView),
    Malformed,
}

impl View for StoredDefinition {
    type V = StoredDefView;

    open spec fn view(&self) -> StoredDefView {
        match self {
            StoredDefinition::Parsed(d) => StoredDefView::Parsed(d@),
            StoredDefinition::Malformed => StoredDefView::Malformed,
        }
    }
}

/// One named entry of the store.
pub struct ProfileEntry {
    pub name: String,
    pub definition: StoredDefinition,
}

/// The mathematical value of one entry.
pub ghost struct EntryView {
    pub name: Seq<char>,
    pub definition: StoredDefView,
}

impl View for ProfileEntry {
    type V = EntryView;

    open spec fn view(&self) -> EntryView {
        EntryView { name: self.name@, definition: self.definition@ }
    }
}

/// The store collaborator, as a value: the named definitions and the single
/// default-profile slot.
pub struct ProfileStore {
    entries: Vec<ProfileEntry>,
    config: Config,
}

/// The mathematical value of the whole store.
pub ghost struct StoreView {
    pub entries: Seq<EntryView>,
    pub default_profile: Option<Seq<char>>,
}

impl View for ProfileStore {
    type V = StoreView;

    closed spec fn view(&self) -> StoreView {
        StoreView {
            entries: self.entries@.map_values(|e: ProfileEntry| e@),
            default_profile: self.config@.default_profile,
        }
    }
}

/// What a name resolves to among the entries: the first entry carrying it.
pub open spec fn lookup(entries: Seq<EntryView>, name: Seq<char>) -> Option<StoredDefView>
    decreases entries.len(),
{
    if entries.len() == 0 {
        None
    } else if entries.first().name == name {
        Some(entries.first().definition)
    } else {
        lookup(entries.drop_first(), name)
    }
}

/// The names the entries carry, in stored order.
pub open spec fn entry_names(entries: Seq<EntryView>) -> Seq<Seq<char>> {
    entries.map_values(|e: EntryView| e.name)
}

/// The set of stored names.
pub open spec fn name_set(entries: Seq<EntryView>) -> Set<Seq<char>> {
    entry_names(entries).to_set()
}

/// A name that resolves to something is a stored name.
pub proof fn lemma_lookup_some_in_name_set(entries: Seq<EntryView>, name: Seq<char>)
    requires
        lookup(entries, name) is Some,
    ensures
        name_set(entries).contains(name),
    decreases entries.len(),
{
    if entries.len() > 0 {
        if entries.first().name == name {
            assert(entry_names(entries)[0] == name);
        } else {
            lemma_lookup_some_in_name_set(entries.drop_first(), name);
            let i = choose|i: int|
                0 <= i < entry_names(entries.drop_first()).len()
                    && entry_names(entries.drop_first())[i] == name;
            assert(entry_names(entries)[i + 1] == name);
        }
    }
}

/// No two entries carry the same name.
pub open spec fn unique_names(entries: Seq<EntryView>) -> bool {
    forall|i: int, j: int|
        0 <= i < j < entries.len() ==> entries[i].name != entries[j].name
}

impl ProfileStore {
    /// Every store this module hands out keeps one entry per name.
    pub open spec fn wf(&self) -> bool {
        unique_names(self@.entries)
    }

    /// An empty store: no definitions, no default selected.
    pub fn new() -> (r: Self)
        ensures
            r@.entries == Seq::<EntryView>::empty(),
            r@.default_profile is None,
            r.wf(),
    {
        let r = ProfileStore {
            entries: Vec::new(),
            config: Config { default_profile: None },
        };
        proof {
            assert(r@.entries =~= Seq::<EntryView>::empty());
        }
        r
    }

    /// Reads the definition stored under `name`, if any.
    pub fn read(&self, name: &String) -> (r: Option<&StoredDefinition>)
        ensures
            match r {
                Some(d) => lookup(self@.entries, name@) == Some(d@),
                None => lookup(self@.entries, name@) is None,
            },
    {
        let n = self.entries.len();
        let mut i: usize = 0;
        proof {
            assert(self@.entries.skip(0) =~= self@.entries);
        }
        while i < n
            invariant
                0 <= i <= n,
                n == self.entries@.len(),
                lookup(self@.entries, name@) == lookup(
                    self@.entries.skip(i as int),
                    name@,
                ),
            decreases n - i,
        {
            proof {
                assert(self@.entries.skip(i as int).first() == self.entries@[i as int]@);
                assert(self@.entries.skip(i as int).drop_first() =~= self@.entries.skip(
                    i as int + 1,
                ));
            }
            if self.entries[i].name == *name {
                return Some(&self.entries[i].definition);
            }
            i = i + 1;
        }
        proof {
            assert(self@.entries.skip(n as int).len() == 0);
        }
        None
    }

    /// Whether `name` is among the stored profile names.
    pub fn contains(&self, name: &String) -> (r: bool)
        ensures
            r == lookup(self@.entries, name@) is Some,
    {
        self.read(name).is_some()
    }

    /// Stores `definition` under `name`, replacing what the name held before.
    pub fn write(&mut self, name: String, definition: StoredDefinition)
        ensures
            lookup(final(self)@.entries, name@) == Some(definition@),
            forall|other: Seq<char>|
                other != name@ ==> lookup(final(self)@.entries, other) == lookup(
                    old(self)@.entries,
                    other,
                ),
            final(self)@.default_profile == old(self)@.default_profile,
            old(self).wf() ==> final(self).wf(),
    {
        let n = self.entries.len();
        let mut i: usize = 0;
        while i < n
            invariant
                0 <= i <= n,
                n == self.entries@.len(),
                forall|k: int| 0 <= k < i ==> self.entries@[k]@.name != name@,
                *self == *old(self),
            decreases n - i,
        {
            if self.entries[i].name == name {
                let ghost before = self@.entries;
                let entry = ProfileEntry { name, definition };
                self.entries.set(i, entry);
                proof {
                    assert(self@.entries =~= before.update(i as int, self@.entries[i as int]));
                    assert(self@.entries[i as int].name == before[i as int].name);
                    lemma_lookup_set(before, self@.entries, i as int, self@.entries[i as int].name);
                    assert forall|k: int| 0 <= k < self@.entries.len() implies #[trigger] self@
                        .entries[k].name == before[k].name by {}
                }
                return ;
            }
            i = i + 1;
        }
        let ghost before = self@.entries;
        let entry = ProfileEntry { name, definition };
        self.entries.push(entry);
        proof {
            assert(self@.entries =~= before.push(self@.entries.last()));
            lemma_lookup_push(before, self@.entries, self@.entries.last());
        }
    }

    /// The currently selected default profile's name, if one was selected.
    pub fn read_default_profile_name(&self) -> (r: &Option<String>)
        ensures
            opt_string_view(*r) == self@.default_profile,
    {
        &self.config.default_profile
    }

    /// Selects `name` as the default profile, unconditionally.
    pub fn write_default_profile_name(&mut self, name: String)
        ensures
            final(self)@.default_profile == Some(name@),
            final(self)@.entries == old(self)@.entries,
            old(self).wf() ==> final(self).wf(),
    {
        crate::config::set_default_profile(&mut self.config, name);
    }
}

/// The names a listing keeps: everything but the `"config"` metadata entry.
pub open spec fn kept_name() -> spec_fn(Seq<char>) -> bool {
    |n: Seq<char>| n != "config"@
}

/// Lexicographic order on names, code point by code point: the empty name
/// comes first, and a strict prefix precedes whatever extends it.
pub open spec fn lex_le(a: Seq<char>, b: Seq<char>) -> bool
    decreases a.len(),
{
    if a.len() == 0 {
        true
    } else if b.len() == 0 {
        false
    } else if a.first() != b.first() {
        (a.first() as u32) < (b.first() as u32)
    } else {
        lex_le(a.drop_first(), b.drop_first())
    }
}

/// The name ordering, as the relation value the sorting facts speak of.
pub open spec fn name_le() -> spec_fn(Seq<char>, Seq<char>) -> bool {
    |a: Seq<char>, b: Seq<char>| lex_le(a, b)
}

proof fn lemma_lex_le_refl(a: Seq<char>)
    ensures
        lex_le(a, a),
    decreases a.len(),
{
    if a.len() > 0 {
        lemma_lex_le_refl(a.drop_first());
    }
}

proof fn lemma_lex_le_antisym(a: Seq<char>, b: Seq<char>)
    requires
        lex_le(a, b),
        lex_le(b, a),
    ensures
        a == b,
    decreases a.len(),
{
    if a.len() == 0 {
        assert(b.len() == 0);
        assert(a =~= b);
    } else {
        assert(b.len() > 0);
        assert(a.first() == b.first());
        lemma_lex_le_antisym(a.drop_first(), b.drop_first());
        assert(a.len() == b.len());
        assert forall|i: int| 0 <= i < a.len() implies a[i] == b[i] by {
            if i > 0 {
                assert(a.drop_first()[i - 1] == b.drop_first()[i - 1]);
            }
        }
        assert(a =~= b);
    }
}

proof fn lemma_lex_le_trans(a: Seq<char>, b: Seq<char>, c: Seq<char>)
    requires
        lex_le(a, b),
        lex_le(b, c),
    ensures
        lex_le(a, c),
    decreases a.len(),
{
    if a.len() > 0 {
        assert(b.len() > 0);
        assert(c.len() > 0);
        if a.first() == b.first() && b.first() == c.first() {
            lemma_lex_le_trans(a.drop_first(), b.drop_first(), c.drop_first());
        }
    }
}

proof fn lemma_lex_le_connected(a: Seq<char>, b: Seq<char>)
    ensures
        lex_le(a, b) || lex_le(b, a),
    decreases a.len(),
{
    if a.len() > 0 && b.len() > 0 {
        if a.first() == b.first() {
            lemma_lex_le_connected(a.drop_first(), b.drop_first());
        } else {
            vstd::utf8::char_u32_cast(a.first(), a.first() as u32);
            vstd::utf8::char_u32_cast(b.first(), b.first() as u32);
            assert(a.first() as u32 != b.first() as u32);
        }
    }
}

/// The name ordering is total: reflexive, antisymmetric, transitive and
/// strongly connected.
pub proof fn lemma_name_le_total_ordering()
    ensures
        total_ordering(name_le()),
{
    let r = name_le();
    assert forall|x: Seq<char>| #[trigger] r(x, x) by {
        lemma_lex_le_refl(x);
    }
    assert forall|x: Seq<char>, y: Seq<char>| #[trigger] r(x, y) && #[trigger] r(y, x) implies x
        == y by {
        lemma_lex_le_antisym(x, y);
    }
    assert forall|x: Seq<char>, y: Seq<char>, z: Seq<char>|
        #[trigger] r(x, y) && #[trigger] r(y, z) implies r(x, z) by {
        lemma_lex_le_trans(x, y, z);
    }
    assert forall|x: Seq<char>, y: Seq<char>| #[trigger] r(x, y) || #[trigger] r(y, x) by {
        lemma_lex_le_connected(x, y);
    }
}

/// Relies on `str`'s `Ord`: `<=` compares strings lexicographically over
/// their UTF-8 bytes, which orders them exactly as comparing code point by
/// code point does.
#[verifier::external_body]
fn str_le(a: &String, b: &String) -> (r: bool)
    ensures
        r == lex_le(a@, b@),
{
    a <= b
}

/// Inserting a name into a sequence inserts its view.
proof fn lemma_names_view_insert(s: Seq<String>, j: int, x: String)
    requires
        0 <= j <= s.len(),
    ensures
        names_seq_view(s.insert(j, x)) =~= names_seq_view(s).insert(j, x@),
{
    s.insert_ensures(j, x);
    names_seq_view(s).insert_ensures(j, x@);
}

/// Sorts names lexicographically, by insertion; exactly the given names come
/// back.
#[verifier::loop_isolation(false)]
fn sort_names(v: Vec<String>) -> (r: Vec<String>)
    ensures
        sorted_by(names_seq_view(r@), name_le()),
        names_seq_view(r@).to_multiset() == names_seq_view(v@).to_multiset(),
{
    broadcast use vstd::seq_lib::group_to_multiset_ensures;

    proof {
        lemma_name_le_total_ordering();
    }
    let mut out: Vec<String> = Vec::new();
    let n = v.len();
    let mut i: usize = 0;
    proof {
        assert(names_seq_view(out@) =~= Seq::<Seq<char>>::empty());
        assert(names_seq_view(v@.subrange(0, 0)) =~= Seq::<Seq<char>>::empty());
    }
    while i < n
        invariant
            0 <= i <= n,
            sorted_by(names_seq_view(out@), name_le()),
            names_seq_view(out@).to_multiset() == names_seq_view(
                v@.subrange(0, i as int),
            ).to_multiset(),
        decreases n - i,
    {
        let x = v[i].clone();
        let m = out.len();
        let mut j: usize = 0;
        while j < m && str_le(&out[j], &x)
            invariant
                0 <= j <= m,
                forall|k: int| 0 <= k < j ==> lex_le(names_seq_view(out@)[k], x@),
            decreases m - j,
        {
            j = j + 1;
        }
        let ghost prev = out@;
        let ghost s = names_seq_view(prev);
        let ghost xs = x;
        let ghost xv = x@;
        proof {
            if j < m {
                lemma_lex_le_connected(s[j as int], xv);
                assert(lex_le(xv, s[j as int]));
            }
        }
        out.insert(j, x);
        proof {
            lemma_names_view_insert(prev, j as int, xs);
            s.insert_ensures(j as int, xv);
            let s2 = s.insert(j as int, xv);
            assert forall|p: int, q: int| 0 <= p < q < s2.len() implies name_le()(
                s2[p],
                s2[q],
            ) by {
                if p < j && q == j {
                } else if p < j && q > j {
                } else if p == j && q > j {
                    if q - 1 > j {
                        assert(name_le()(s[j as int], s[q - 1]));
                        lemma_lex_le_trans(xv, s[j as int], s[q - 1]);
                    }
                }
            }
            assert(names_seq_view(out@) =~= s2);
            assert(v@.subrange(0, i as int + 1) =~= v@.subrange(0, i as int).push(
                v@[i as int],
            ));
            assert(names_seq_view(v@.subrange(0, i as int + 1)) =~= names_seq_view(
                v@.subrange(0, i as int),
            ).push(xv));
        }
        i = i + 1;
    }
    proof {
        assert(v@.subrange(0, n as int) =~= v@);
    }
    out
}

/// What listing yields: the `"config"` metadata entry removed, everything
/// else kept and sorted by name.
pub open spec fn list_profiles_spec(names: Seq<Seq<char>>) -> Seq<Seq<char>> {
    names.filter(kept_name()).sort_by(name_le())
}

/// Every element of a sequence passing the predicate leaves the filter a
/// no-op.
proof fn lemma_filter_all(s: Seq<Seq<char>>, pred: spec_fn(Seq<char>) -> bool)
    requires
        forall|i: int| 0 <= i < s.len() ==> pred(#[trigger] s[i]),
    ensures
        s.filter(pred) == s,
    decreases s.len(),
{
    reveal(Seq::filter);
    if s.len() > 0 {
        lemma_filter_all(s.drop_last(), pred);
        assert(pred(s.last()));
        assert(s.drop_last().push(s.last()) =~= s);
        assert(s.filter(pred) =~= s);
    }
}

/// Listing is idempotent and orderly: the listing is sorted, the `"config"`
/// metadata entry never appears in it, and listing the listed names again
/// returns them unchanged.
pub proof fn lemma_list_profiles_idempotent(names: Seq<Seq<char>>)
    ensures
        sorted_by(list_profiles_spec(names), name_le()),
        !list_profiles_spec(names).contains("config"@),
        list_profiles_spec(list_profiles_spec(names)) == list_profiles_spec(names),
{
    broadcast use vstd::seq_lib::group_filter_ensures;
    broadcast use vstd::seq_lib::group_to_multiset_ensures;

    lemma_name_le_total_ordering();
    let f = names.filter(kept_name());
    f.lemma_sort_by_ensures(name_le());
    let l = f.sort_by(name_le());
    assert(!f.contains("config"@)) by {
        if f.contains("config"@) {
            let i = choose|i: int| 0 <= i < f.len() && f[i] == "config"@;
            assert(kept_name()(f[i]));
        }
    }
    assert(!l.contains("config"@));
    assert forall|i: int| 0 <= i < l.len() implies kept_name()(#[trigger] l[i]) by {
        assert(l.contains(l[i]));
        assert(l.to_multiset().count(l[i]) > 0);
        assert(f.contains(l[i]));
        let j = choose|j: int| 0 <= j < f.len() && f[j] == l[i];
        assert(kept_name()(f[j]));
    }
    lemma_filter_all(l, kept_name());
    l.lemma_sort_by_ensures(name_le());
    lemma_sorted_unique(l.sort_by(name_le()), l, name_le());
}

/// Lists profile names, exactly as [`list_profiles_spec`] describes: the
/// `"config"` metadata entry excluded, the rest sorted lexicographically.
#[verifier::loop_isolation(false)]
pub fn list_profiles(names: Vec<String>) -> (r: Vec<String>)
    ensures
        names_seq_view(r@) == list_profiles_spec(names_seq_view(names@)),
{
    let cfg: String = "config".to_owned();
    let mut kept: Vec<String> = Vec::new();
    let n = names.len();
    let mut i: usize = 0;
    proof {
        reveal(Seq::filter);
        assert(names_seq_view(kept@) =~= Seq::<Seq<char>>::empty());
        assert(names_seq_view(names@.subrange(0, 0)) =~= Seq::<Seq<char>>::empty());
    }
    while i < n
        invariant
            0 <= i <= n,
            names_seq_view(kept@) == names_seq_view(names@.subrange(0, i as int)).filter(
                kept_name(),
            ),
        decreases n - i,
    {
        let ghost pre = names_seq_view(names@.subrange(0, i as int));
        let ghost keptv = kept@;
        if !(names[i] == cfg) {
            kept.push(names[i].clone());
        }
        proof {
            assert(names@.subrange(0, i as int + 1) =~= names@.subrange(0, i as int).push(
                names@[i as int],
            ));
            assert(names_seq_view(names@.subrange(0, i as int + 1)) =~= pre.push(
                names@[i as int]@,
            ));
            pre.lemma_filter_push(names@[i as int]@, kept_name());
            if names@[i as int]@ != "config"@ {
                assert(names_seq_view(kept@) =~= names_seq_view(keptv).push(names@[i as int]@));
            }
        }
        i = i + 1;
    }
    let sorted = sort_names(kept);
    proof {
        lemma_name_le_total_ordering();
        assert(names@.subrange(0, n as int) =~= names@);
        let f = names_seq_view(names@).filter(kept_name());
        f.lemma_sort_by_ensures(name_le());
        lemma_sorted_unique(names_seq_view(sorted@), f.sort_by(name_le()), name_le());
    }
    sorted
}

/// Replacing an entry by one with the same name changes what that name
/// resolves to and nothing else.
proof fn lemma_lookup_set(
    before: Seq<EntryView>,
    after: Seq<EntryView>,
    i: int,
    name: Seq<char>,
)
    requires
        0 <= i < before.len(),
        after =~= before.update(i, after[i]),
        after.len() == before.len(),
        after[i].name == name,
        before[i].name == name,
        forall|k: int| 0 <= k < i ==> before[k].name != name,
    ensures
        lookup(after, name) == Some(after[i].definition),
        forall|other: Seq<char>| other != name ==> lookup(after, other) == lookup(before, other),
    decreases before.len(),
{
    if i == 0 {
        assert(after.first().name == name);
        assert(after.drop_first() =~= before.drop_first());
        assert forall|other: Seq<char>| other != name implies lookup(after, other) == lookup(
            before,
            other,
        ) by {
            assert(lookup(after, other) == lookup(after.drop_first(), other));
            assert(lookup(before, other) == lookup(before.drop_first(), other));
        }
    } else {
        assert(after.first() == before.first());
        assert(after.first().name != name);
        assert(after.drop_first() =~= before.drop_first().update(i - 1, after[i]));
        lemma_lookup_set(before.drop_first(), after.drop_first(), i - 1, name);
        assert(lookup(after, name) == lookup(after.drop_first(), name));
        assert forall|other: Seq<char>| other != name implies lookup(after, other) == lookup(
            before,
            other,
        ) by {
            if after.first().name == other {
            } else {
                assert(lookup(after, other) == lookup(after.drop_first(), other));
                assert(lookup(before, other) == lookup(before.drop_first(), other));
            }
        }
    }
}

/// Appending an entry whose name is fresh adds that name's resolution and
/// changes nothing else.
proof fn lemma_lookup_push(before: Seq<EntryView>, after: Seq<EntryView>, entry: EntryView)
    requires
        after =~= before.push(entry),
        forall|k: int| 0 <= k < before.len() ==> before[k].name != entry.name,
    ensures
        lookup(after, entry.name) == Some(entry.definition),
        forall|other: Seq<char>|
            other != entry.name ==> lookup(after, other) == lookup(before, other),
    decreases before.len(),
{
    if before.len() == 0 {
        assert(after.len() == 1);
        assert(after.first() == entry);
        assert(after.drop_first().len() == 0);
        assert forall|other: Seq<char>|
            other != entry.name implies lookup(after, other) == lookup(before, other) by {
            assert(lookup(after, other) == lookup(after.drop_first(), other));
        }
    } else {
        assert(after.first() == before.first());
        assert(after.drop_first() =~= before.drop_first().push(entry));
        lemma_lookup_push(before.drop_first(), after.drop_first(), entry);
        assert(before.first().name != entry.name);
        assert(lookup(after, entry.name) == lookup(after.drop_first(), entry.name));
        assert forall|other: Seq<char>|
            other != entry.name implies lookup(after, other) == lookup(before, other) by {
            if after.first().name == other {
            } else {
                assert(lookup(after, other) == lookup(after.drop_first(), other));
                assert(lookup(before, other) == lookup(before.drop_first(), other));
            }
        }
    }
}

} // verus!
