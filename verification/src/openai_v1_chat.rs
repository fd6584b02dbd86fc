//! The chat-completion profile kind: its resolved shape, its built-in default
//! and its inheritance resolver.

use vstd::prelude::*;

use crate::inherit::{
    defs_view, expansion_wf, flatten, flatten_name, flatten_names, lemma_self_cycle,
    lemma_two_cycle, visiting_set,
};
use crate::io::{
    lemma_lookup_some_in_name_set, lookup, name_set, PartialDefinition, PartialView, ProfileStore,
    StoreView, StoredDefView,
};
use crate::openai_shared::{msg_seq_view, MessageView, OpenAIChatMessage};
use crate::profile::{default_name, is_default_name, ProfileError};

verus! {

/// The one structured-output marker a chat request can carry.
#[derive(PartialEq, Eq, Structural, Clone, Copy, Debug)]
pub enum OpenAIChatResponseFormatType {
    JsonObject,
}

/// The wire-level response-format record; present exactly when some definition
/// in the inheritance chain set the `json` flag.
#[derive(PartialEq, Eq, Structural, Clone, Copy, Debug)]
pub struct OpenAIChatResponseFormat {
    pub response_type: OpenAIChatResponseFormatType,
}

/// A fully resolved chat profile: every field present and concrete.
#[derive(Debug)]
pub struct OpenAIChatCompletion {
    pub url: String,
    pub model: String,
    pub max_tokens: u32,
    pub messages: Vec<OpenAIChatMessage>,
    pub response_format: Option<OpenAIChatResponseFormat>,
}

/// The mathematical value of a resolved chat profile.
pub ghost struct ChatView {
    pub url: Seq<char>,
    pub model: Seq<char>,
    pub max_tokens: u32,
    pub messages: Seq<MessageView>,
    pub response_format: Option<OpenAIChatResponseFormat>,
}

impl View for OpenAIChatCompletion {
    type V = ChatView;

    open spec fn view(&self) -> ChatView {
        ChatView {
            url: self.url@,
            model: self.model@,
            max_tokens: self.max_tokens,
            messages: msg_seq_view(self.messages@),
            response_format: self.response_format,
        }
    }
}

/// The canonical chat-completion endpoint identifier, doubling as the kind
/// discriminator in stored definitions.
pub open spec fn chat_endpoint() -> Seq<char> {
    "https://api.openai.com/v1/chat/completions"@
}

/// The marker value the sticky `json` flag produces.
pub open spec fn json_object_format() -> OpenAIChatResponseFormat {
    OpenAIChatResponseFormat { response_type: OpenAIChatResponseFormatType::JsonObject }
}

/// The built-in chat profile: fixed endpoint and model, a 550-token budget,
/// no messages and no structured-output marker.
pub open spec fn default_chat() -> ChatView {
    ChatView {
        url: chat_endpoint(),
        model: "gpt-4o"@,
        max_tokens: 550,
        messages: Seq::empty(),
        response_format: None,
    }
}

/// Constructs the built-in chat profile.
pub fn default() -> (r: OpenAIChatCompletion)
    ensures
        r@ == default_chat(),
{
    let r = OpenAIChatCompletion {
        url: "https://api.openai.com/v1/chat/completions".to_owned(),
        model: "gpt-4o".to_owned(),
        max_tokens: 550,
        messages: Vec::new(),
        response_format: None,
    };
    proof {
        assert(msg_seq_view(r.messages@) =~= Seq::<MessageView>::empty());
    }
    r
}

/// One step of the fold: a definition's explicit chat fields merged onto the
/// accumulator.  Scalars are last-write-wins, messages append, and a `json`
/// field — set to whatever value — plants the structured-output marker.
pub open spec fn merge_chat(acc: ChatView, d: PartialView) -> ChatView {
    ChatView {
        url: match d.url {
            Some(u) => u,
            None => acc.url,
        },
        model: match d.model {
            Some(m) => m,
            None => acc.model,
        },
        max_tokens: match d.max_tokens {
            Some(t) => t,
            None => acc.max_tokens,
        },
        messages: acc.messages + match d.messages {
            Some(m) => m,
            None => Seq::empty(),
        },
        response_format: if d.json is Some {
            Some(json_object_format())
        } else {
            acc.response_format
        },
    }
}

/// The whole fold: the flattened definitions merged onto the accumulator in
/// order.
pub open spec fn fold_chat(acc: ChatView, defs: Seq<PartialView>) -> ChatView
    decreases defs.len(),
{
    if defs.len() == 0 {
        acc
    } else {
        fold_chat(merge_chat(acc, defs.first()), defs.drop_first())
    }
}

/// Folding one more definition at the end merges it onto the fold of the
/// rest.
pub proof fn lemma_fold_chat_snoc(acc: ChatView, defs: Seq<PartialView>, d: PartialView)
    ensures
        fold_chat(acc, defs.push(d)) == merge_chat(fold_chat(acc, defs), d),
    decreases defs.len(),
{
    if defs.len() == 0 {
        assert(defs.push(d).first() == d);
        assert(defs.push(d).drop_first() =~= Seq::<PartialView>::empty());
        assert(fold_chat(acc, defs.push(d)) == fold_chat(merge_chat(acc, d), Seq::empty()));
    } else {
        assert(defs.push(d).first() == defs.first());
        assert(defs.push(d).drop_first() =~= defs.drop_first().push(d));
        lemma_fold_chat_snoc(merge_chat(acc, defs.first()), defs.drop_first(), d);
    }
}

/// What resolving `name` as a chat profile yields: the reserved `"default"`
/// is the built-in profile, untouched by the store; any other name flattens
/// its ancestry and folds it onto the built-in default.
pub open spec fn resolve_chat(s: StoreView, name: Seq<char>) -> Result<ChatView, ProfileError> {
    if name == default_name() {
        Ok(default_chat())
    } else {
        match flatten_name(s.entries, name, Set::empty()) {
            Err(e) => Err(e),
            Ok(defs) => Ok(fold_chat(default_chat(), defs)),
        }
    }
}

/// The view of a chat resolution result.
pub open spec fn chat_result_view(r: Result<OpenAIChatCompletion, ProfileError>) -> Result<
    ChatView,
    ProfileError,
> {
    match r {
        Ok(p) => Ok(p@),
        Err(e) => Err(e),
    }
}

/// Folds flattened definitions onto the built-in default, field by field.
#[verifier::loop_isolation(false)]
fn fold(defs: Vec<PartialDefinition>) -> (r: OpenAIChatCompletion)
    ensures
        r@ == fold_chat(default_chat(), defs_view(defs@)),
{
    let def = default();
    let mut url = def.url;
    let mut model = def.model;
    let mut max_tokens = def.max_tokens;
    let mut messages = def.messages;
    let mut response_format = def.response_format;
    let ghost dv = defs_view(defs@);
    let n = defs.len();
    let mut i: usize = 0;
    proof {
        assert(dv.take(0) =~= Seq::<PartialView>::empty());
    }
    while i < n
        invariant
            0 <= i <= n,
            ({
                let acc = fold_chat(default_chat(), dv.take(i as int));
                &&& url@ == acc.url
                &&& model@ == acc.model
                &&& max_tokens == acc.max_tokens
                &&& msg_seq_view(messages@) == acc.messages
                &&& response_format == acc.response_format
            }),
        decreases n - i,
    {
        let ghost acc = fold_chat(default_chat(), dv.take(i as int));
        let d = &defs[i];
        match &d.url {
            Some(u) => {
                url = u.clone();
            },
            None => {},
        }
        if let Some(t) = d.max_tokens {
            max_tokens = t;
        }
        match &d.messages {
            Some(msgs) => {
                let ghost start = messages@;
                let m = msgs.len();
                let mut j: usize = 0;
                proof {
                    assert(messages@ =~= start + msgs@.subrange(0, 0));
                }
                while j < m
                    invariant
                        0 <= j <= m,
                        messages@ == start + msgs@.subrange(0, j as int),
                    decreases m - j,
                {
                    messages.push(msgs[j].clone());
                    proof {
                        assert(start + msgs@.subrange(0, j as int + 1) =~= (start + msgs@.subrange(
                            0,
                            j as int,
                        )).push(msgs@[j as int]));
                    }
                    j = j + 1;
                }
                proof {
                    assert(msgs@.subrange(0, m as int) =~= msgs@);
                    assert(msg_seq_view(start + msgs@) =~= msg_seq_view(start) + msg_seq_view(
                        msgs@,
                    ));
                }
            },
            None => {
                proof {
                    assert(msg_seq_view(messages@) =~= msg_seq_view(messages@)
                        + Seq::<MessageView>::empty());
                }
            },
        }
        match &d.model {
            Some(m) => {
                model = m.clone();
            },
            None => {},
        }
        if d.json.is_some() {
            response_format = Some(
                OpenAIChatResponseFormat { response_type: OpenAIChatResponseFormatType::JsonObject },
            );
        }
        proof {
            assert(dv.take(i as int + 1) =~= dv.take(i as int).push(dv[i as int]));
            lemma_fold_chat_snoc(default_chat(), dv.take(i as int), dv[i as int]);
            assert(dv[i as int] == d@);
        }
        i = i + 1;
    }
    proof {
        assert(dv.take(n as int) =~= dv);
    }
    OpenAIChatCompletion { url, model, max_tokens, messages, response_format }
}

/// The explicit messages of one definition: its message list, or nothing.
pub open spec fn msgs_of(d: PartialView) -> Seq<MessageView> {
    match d.messages {
        Some(m) => m,
        None => Seq::empty(),
    }
}

/// The explicit messages of a definition sequence, concatenated in order.
pub open spec fn concat_messages(defs: Seq<PartialView>) -> Seq<MessageView>
    decreases defs.len(),
{
    if defs.len() == 0 {
        Seq::empty()
    } else {
        msgs_of(defs.first()) + concat_messages(defs.drop_first())
    }
}

/// Message accumulation is strictly append-in-resolution-order: the fold's
/// messages are the accumulator's followed by every definition's explicit
/// messages, concatenated in the order the definitions were flattened in —
/// nothing is replaced, dropped or reordered.
pub proof fn lemma_fold_messages_append(acc: ChatView, defs: Seq<PartialView>)
    ensures
        fold_chat(acc, defs).messages == acc.messages + concat_messages(defs),
    decreases defs.len(),
{
    if defs.len() == 0 {
        assert(acc.messages + concat_messages(defs) =~= acc.messages);
    } else {
        lemma_fold_messages_append(merge_chat(acc, defs.first()), defs.drop_first());
        assert((acc.messages + msgs_of(defs.first())) + concat_messages(defs.drop_first()) =~= acc
            .messages + concat_messages(defs));
    }
}

/// The sticky JSON flag: the structured-output marker is present after the
/// fold exactly when the accumulator already carried it or some definition in
/// the sequence sets the `json` field; once set by any ancestor it is never
/// cleared by a descendant that omits the field, and its value is always the
/// JSON-object marker.
pub proof fn lemma_fold_json_sticky(acc: ChatView, defs: Seq<PartialView>)
    ensures
        fold_chat(acc, defs).response_format == (if exists|i: int|
            0 <= i < defs.len() && (#[trigger] defs[i].json) is Some {
            Some(json_object_format())
        } else {
            acc.response_format
        }),
    decreases defs.len(),
{
    if defs.len() == 0 {
    } else {
        let rest = defs.drop_first();
        lemma_fold_json_sticky(merge_chat(acc, defs.first()), rest);
        if defs.first().json is Some {
            assert(defs[0].json is Some);
        } else {
            assert forall|i: int|
                0 <= i < rest.len() && (#[trigger] rest[i].json) is Some implies defs[i
                + 1].json is Some by {}
            if exists|i: int| 0 <= i < defs.len() && (#[trigger] defs[i].json) is Some {
                let i = choose|i: int| 0 <= i < defs.len() && (#[trigger] defs[i].json) is Some;
                assert(i > 0);
                assert(rest[i - 1].json is Some);
            }
        }
    }
}

/// A profile with no `inherits` resolves to the built-in default merged with
/// only that profile's own explicit fields.
pub proof fn lemma_resolve_no_inherits_chat(s: StoreView, name: Seq<char>, d: PartialView)
    requires
        name != default_name(),
        lookup(s.entries, name) == Some(StoredDefView::Parsed(d)),
        d.inherits is None,
    ensures
        resolve_chat(s, name) == Ok::<ChatView, ProfileError>(merge_chat(default_chat(), d)),
{
    broadcast use vstd::seq_lib::seq_to_set_is_finite;

    let e0: Set<Seq<char>> = Set::empty();
    assert(expansion_wf(s.entries, e0));
    assert(flatten_name(s.entries, name, e0) == Ok::<Seq<PartialView>, ProfileError>(seq![d]));
    assert(seq![d].first() == d);
    assert(seq![d].drop_first() =~= Seq::<PartialView>::empty());
    assert(fold_chat(default_chat(), seq![d]) == fold_chat(
        merge_chat(default_chat(), d),
        seq![d].drop_first(),
    ));
}

/// In a chain where `a` inherits `b` and `b` inherits `c`, the resolved
/// profile is the built-in default merged with `c`, then `b`, then `a`; so a
/// scalar field follows precedence c < b < a: `a`'s explicit value wins, else
/// `b`'s, else `c`'s, else the built-in default's.
pub proof fn lemma_chain_precedence_chat(
    s: StoreView,
    a: Seq<char>,
    b: Seq<char>,
    c: Seq<char>,
    da: PartialView,
    db: PartialView,
    dc: PartialView,
)
    requires
        a != default_name(),
        a != b,
        a != c,
        b != c,
        lookup(s.entries, a) == Some(StoredDefView::Parsed(da)),
        da.inherits == Some(seq![b]),
        lookup(s.entries, b) == Some(StoredDefView::Parsed(db)),
        db.inherits == Some(seq![c]),
        lookup(s.entries, c) == Some(StoredDefView::Parsed(dc)),
        dc.inherits is None,
    ensures
        resolve_chat(s, a) == Ok::<ChatView, ProfileError>(
            merge_chat(merge_chat(merge_chat(default_chat(), dc), db), da),
        ),
        ({
            let r = merge_chat(merge_chat(merge_chat(default_chat(), dc), db), da);
            &&& r.model == (if da.model is Some {
                da.model->0
            } else if db.model is Some {
                db.model->0
            } else if dc.model is Some {
                dc.model->0
            } else {
                default_chat().model
            })
            &&& r.url == (if da.url is Some {
                da.url->0
            } else if db.url is Some {
                db.url->0
            } else if dc.url is Some {
                dc.url->0
            } else {
                default_chat().url
            })
            &&& r.max_tokens == (if da.max_tokens is Some {
                da.max_tokens->0
            } else if db.max_tokens is Some {
                db.max_tokens->0
            } else if dc.max_tokens is Some {
                dc.max_tokens->0
            } else {
                default_chat().max_tokens
            })
        }),
{
    broadcast use vstd::seq_lib::seq_to_set_is_finite;

    reveal_with_fuel(flatten_name, 4);
    reveal_with_fuel(flatten_names, 4);
    reveal_with_fuel(fold_chat, 5);
    let entries = s.entries;
    let e0: Set<Seq<char>> = Set::empty();
    lemma_lookup_some_in_name_set(entries, a);
    lemma_lookup_some_in_name_set(entries, b);
    lemma_lookup_some_in_name_set(entries, c);
    let va = e0.insert(a);
    let vab = va.insert(b);
    assert(expansion_wf(entries, e0));
    assert(expansion_wf(entries, va));
    assert(expansion_wf(entries, vab));
    assert(seq![b].first() == b);
    assert(seq![c].first() == c);
    assert(seq![b].drop_first() =~= Seq::<Seq<char>>::empty());
    assert(seq![c].drop_first() =~= Seq::<Seq<char>>::empty());
    assert(!vab.contains(c));
    assert(flatten_name(entries, c, vab) == Ok::<Seq<PartialView>, ProfileError>(seq![dc]));
    assert(flatten_names(entries, seq![c], vab) == Ok::<Seq<PartialView>, ProfileError>(
        seq![dc] + Seq::<PartialView>::empty(),
    ));
    assert(seq![dc] + Seq::<PartialView>::empty() =~= seq![dc]);
    assert(flatten_name(entries, b, va) == Ok::<Seq<PartialView>, ProfileError>(
        seq![dc].push(db),
    ));
    assert(seq![dc].push(db) =~= seq![dc, db]);
    assert(flatten_names(entries, seq![b], va) == Ok::<Seq<PartialView>, ProfileError>(
        seq![dc, db] + Seq::<PartialView>::empty(),
    ));
    assert(seq![dc, db] + Seq::<PartialView>::empty() =~= seq![dc, db]);
    assert(flatten_name(entries, a, e0) == Ok::<Seq<PartialView>, ProfileError>(
        seq![dc, db].push(da),
    ));
    assert(seq![dc, db].push(da) =~= seq![dc, db, da]);
    let chain = seq![dc, db, da];
    assert(chain.drop_first() =~= seq![db, da]);
    assert(seq![db, da].drop_first() =~= seq![da]);
    assert(seq![da].drop_first() =~= Seq::<PartialView>::empty());
    assert(fold_chat(default_chat(), chain) == merge_chat(
        merge_chat(merge_chat(default_chat(), dc), db),
        da,
    ));
}

/// A profile that inherits itself resolves to the cycle error.
pub proof fn lemma_resolve_self_cycle_chat(s: StoreView, a: Seq<char>, da: PartialView)
    requires
        a != default_name(),
        lookup(s.entries, a) == Some(StoredDefView::Parsed(da)),
        da.inherits == Some(seq![a]),
    ensures
        resolve_chat(s, a) == Err::<ChatView, ProfileError>(ProfileError::CyclicInheritance),
{
    lemma_self_cycle(s.entries, a, da);
}

/// A pair of profiles that inherit each other resolves to the cycle error.
pub proof fn lemma_resolve_two_cycle_chat(
    s: StoreView,
    a: Seq<char>,
    b: Seq<char>,
    da: PartialView,
    db: PartialView,
)
    requires
        a != default_name(),
        a != b,
        lookup(s.entries, a) == Some(StoredDefView::Parsed(da)),
        da.inherits == Some(seq![b]),
        lookup(s.entries, b) == Some(StoredDefView::Parsed(db)),
        db.inherits == Some(seq![a]),
    ensures
        resolve_chat(s, a) == Err::<ChatView, ProfileError>(ProfileError::CyclicInheritance),
{
    lemma_two_cycle(s.entries, a, b, da, db);
}

/// Resolves the profile stored under `name` as a chat profile, exactly as
/// [`resolve_chat`] describes it.
pub fn profile(store: &ProfileStore, name: &String) -> (r: Result<
    OpenAIChatCompletion,
    ProfileError,
>)
    ensures
        chat_result_view(r) == resolve_chat(store@, name@),
{
    if is_default_name(name) {
        return Ok(default());
    }
    let visiting: Vec<String> = Vec::new();
    proof {
        assert(visiting_set(visiting@) =~= Set::<Seq<char>>::empty());
        assert(Set::<Seq<char>>::empty().subset_of(name_set(store@.entries)));
    }
    match flatten(store, name, &visiting) {
        Err(e) => Err(e),
        Ok(defs) => Ok(fold(defs)),
    }
}

} // verus!
