//! The profile facade: the kind registry, the tagged profile union, the error
//! taxonomy and the small helpers around the current-profile setting.

use vstd::prelude::*;

use vstd::string::StringExecFns;

use crate::config::Config;
use crate::io::{
    list_profiles, list_profiles_spec, lookup, names_seq_view, ProfileStore, StoreView,
    StoredDefView, StoredDefinition,
};
use crate::openai_shared::OpenAIChatMessage;
use crate::openai_v1_chat::{chat_endpoint, resolve_chat, ChatView, OpenAIChatCompletion};
use crate::openai_v1_image::{image_endpoint, resolve_image, ImageView, OpenAIImageGeneration};

verus! {

/// Why a profile operation failed.  Every failure is terminal for the
/// operation in progress; none is retried.
#[derive(PartialEq, Eq, Structural, Clone, Copy, Debug)]
pub enum ProfileError {
    /// The name, or a name referenced as an ancestor, is absent from the store.
    ProfileNotFound,
    /// The ancestry revisits a name that is still being expanded.
    CyclicInheritance,
    /// The kind discriminator matches no supported profile kind.
    UnknownProfileKind,
    /// The stored text does not parse into the expected shape, or the root
    /// definition lacks its kind discriminator.
    InvalidProfileFormat,
}

/// The supported profile kinds.
#[derive(PartialEq, Eq, Structural, Clone, Copy, Debug)]
pub enum Kind {
    OpenAIV1ChatCompletion,
    OpenAIV1ImageGeneration,
}

/// A resolved profile together with its kind, ready for the transport layer.
#[derive(Debug)]
pub enum Profile {
    OpenAIV1ChatCompletion(OpenAIChatCompletion),
    OpenAIV1ImageGeneration(OpenAIImageGeneration),
}

/// The mathematical value of a resolved, tagged profile.
pub ghost enum ProfileView {
    OpenAIV1ChatCompletion(ChatView),
    OpenAIV1ImageGeneration(ImageView),
}

impl View for Profile {
    type V = ProfileView;

    open spec fn view(&self) -> ProfileView {
        match self {
            Profile::OpenAIV1ChatCompletion(p) => ProfileView::OpenAIV1ChatCompletion(p@),
            Profile::OpenAIV1ImageGeneration(p) => ProfileView::OpenAIV1ImageGeneration(p@),
        }
    }
}

/// The reserved name of the built-in profile.
pub open spec fn default_name() -> Seq<char> {
    "default"@
}

/// Which kind a discriminator value selects: the closed lookup table from
/// canonical endpoint identifier to kind.
pub open spec fn kind_of_spec(discriminator: Seq<char>) -> Option<Kind> {
    if discriminator == chat_endpoint() {
        Some(Kind::OpenAIV1ChatCompletion)
    } else if discriminator == image_endpoint() {
        Some(Kind::OpenAIV1ImageGeneration)
    } else {
        None
    }
}

/// Classifies a discriminator value, or reports that it is not recognised.
pub fn kind_of(discriminator: &String) -> (r: Option<Kind>)
    ensures
        r == kind_of_spec(discriminator@),
{
    let chat: String = "https://api.openai.com/v1/chat/completions".to_owned();
    if *discriminator == chat {
        return Some(Kind::OpenAIV1ChatCompletion);
    }
    let image: String = "https://api.openai.com/v1/images/generations".to_owned();
    if *discriminator == image {
        return Some(Kind::OpenAIV1ImageGeneration);
    }
    None
}

/// Whether `name` is the reserved name of the built-in profile.
pub fn is_default_name(name: &String) -> (r: bool)
    ensures
        r == (name@ == default_name()),
{
    let d: String = "default".to_owned();
    *name == d
}

/// The name the configuration makes current: the selected default profile,
/// or the built-in `"default"` when none was ever selected.
pub open spec fn current_name(c: crate::config::ConfigView) -> Seq<char> {
    match c.default_profile {
        Some(n) => n,
        None => default_name(),
    }
}

/// The name of the profile that is current under `config`.
pub fn profile_current_text(config: &Config) -> (r: String)
    ensures
        r@ == current_name(config@),
{
    match &config.default_profile {
        Some(n) => n.clone(),
        None => "default".to_owned(),
    }
}

/// The prompt a message list displays for editing: the content of its last
/// message, or the empty string when there is none.
pub fn get_prompt(messages: &Vec<OpenAIChatMessage>) -> (r: String)
    ensures
        messages@.len() == 0 ==> r@ == Seq::<char>::empty(),
        messages@.len() > 0 ==> r@ == messages@.last()@.content,
{
    let l = messages.len();
    if l == 0 {
        let r: String = "".to_owned();
        proof {
            reveal_strlit("");
            assert(r@ =~= Seq::<char>::empty());
        }
        r
    } else {
        messages[l - 1].content.clone()
    }
}

/// Replaces the prompt in a message list: the content of the last message is
/// overwritten, and an empty list gains one user message carrying the content.
pub fn set_prompt(messages: &mut Vec<OpenAIChatMessage>, content: String)
    ensures
        old(messages)@.len() == 0 ==> {
            &&& final(messages)@.len() == 1
            &&& final(messages)@[0]@.role == "user"@
            &&& final(messages)@[0]@.content == content@
        },
        old(messages)@.len() > 0 ==> {
            &&& final(messages)@.len() == old(messages)@.len()
            &&& final(messages)@.last()@.role == old(messages)@.last()@.role
            &&& final(messages)@.last()@.content == content@
            &&& forall|i: int|
                0 <= i < old(messages)@.len() - 1 ==> final(messages)@[i] == old(messages)@[i]
        },
{
    let l = messages.len();
    if l == 0 {
        messages.push(OpenAIChatMessage { content, role: "user".to_owned() });
    } else {
        let role = messages[l - 1].role.clone();
        let updated = OpenAIChatMessage { content, role };
        messages.set(l - 1, updated);
    }
}

/// Accepts a removal request and deliberately leaves every stored profile in
/// place: the store offers no removal, and the request is a no-op.
pub fn profile_remove(name: String)
{
    let _ = name;
}

/// What fetching `name` through the facade yields.  The reserved `"default"`
/// is the built-in chat profile, untouched by the store; any other name is
/// read once, classified by its kind discriminator and resolved by the
/// matching kind's resolver.  A name the store lacks, an unreadable
/// definition, a missing discriminator and an unrecognised discriminator
/// each fail with their own error, and only with that error.
pub open spec fn profile_get_spec(s: StoreView, name: Seq<char>) -> Result<
    ProfileView,
    ProfileError,
> {
    if name == default_name() {
        Ok(ProfileView::OpenAIV1ChatCompletion(crate::openai_v1_chat::default_chat()))
    } else {
        match lookup(s.entries, name) {
            None => Err(ProfileError::ProfileNotFound),
            Some(StoredDefView::Malformed) => Err(ProfileError::InvalidProfileFormat),
            Some(StoredDefView::Parsed(d)) => match d.kind {
                None => Err(ProfileError::InvalidProfileFormat),
                Some(k) => match kind_of_spec(k) {
                    Some(Kind::OpenAIV1ChatCompletion) => match resolve_chat(s, name) {
                        Ok(p) => Ok(ProfileView::OpenAIV1ChatCompletion(p)),
                        Err(e) => Err(e),
                    },
                    Some(Kind::OpenAIV1ImageGeneration) => match resolve_image(s, name) {
                        Ok(p) => Ok(ProfileView::OpenAIV1ImageGeneration(p)),
                        Err(e) => Err(e),
                    },
                    None => Err(ProfileError::UnknownProfileKind),
                },
            },
        }
    }
}

/// The view of a facade result.
pub open spec fn profile_result_view(r: Result<Profile, ProfileError>) -> Result<
    ProfileView,
    ProfileError,
> {
    match r {
        Ok(p) => Ok(p@),
        Err(e) => Err(e),
    }
}

/// Fetches the profile stored under `name`, fully resolved and tagged with
/// its kind, exactly as [`profile_get_spec`] describes it.
pub fn profile_get(store: &ProfileStore, name: &String) -> (r: Result<Profile, ProfileError>)
    ensures
        profile_result_view(r) == profile_get_spec(store@, name@),
{
    if is_default_name(name) {
        return Ok(Profile::OpenAIV1ChatCompletion(crate::openai_v1_chat::default()));
    }
    let stored = match store.read(name) {
        None => {
            return Err(ProfileError::ProfileNotFound);
        },
        Some(s) => s,
    };
    let d = match stored {
        StoredDefinition::Malformed => {
            return Err(ProfileError::InvalidProfileFormat);
        },
        StoredDefinition::Parsed(d) => d,
    };
    let discriminator = match &d.kind {
        None => {
            return Err(ProfileError::InvalidProfileFormat);
        },
        Some(k) => k,
    };
    match kind_of(discriminator) {
        Some(Kind::OpenAIV1ChatCompletion) => {
            match crate::openai_v1_chat::profile(store, name) {
                Ok(p) => Ok(Profile::OpenAIV1ChatCompletion(p)),
                Err(e) => Err(e),
            }
        },
        Some(Kind::OpenAIV1ImageGeneration) => {
            match crate::openai_v1_image::profile(store, name) {
                Ok(p) => Ok(Profile::OpenAIV1ImageGeneration(p)),
                Err(e) => Err(e),
            }
        },
        None => Err(ProfileError::UnknownProfileKind),
    }
}

/// Selects `name` as the default profile if the store knows it; a name the
/// store lacks is rejected and nothing changes.
pub fn profile_use(store: &mut ProfileStore, name: String) -> (r: Result<(), ProfileError>)
    ensures
        lookup(old(store)@.entries, name@) is Some ==> {
            &&& r is Ok
            &&& final(store)@.default_profile == Some(name@)
            &&& final(store)@.entries == old(store)@.entries
        },
        lookup(old(store)@.entries, name@) is None ==> {
            &&& r == Err::<(), ProfileError>(ProfileError::ProfileNotFound)
            &&& *final(store) == *old(store)
        },
        old(store).wf() ==> final(store).wf(),
{
    if store.contains(&name) {
        store.write_default_profile_name(name);
        Ok(())
    } else {
        Err(ProfileError::ProfileNotFound)
    }
}

/// The listing lines: every stored name (the `"config"` metadata entry
/// excluded, the rest sorted), each prefixed with `"* "` when it is the
/// current profile and with `"  "` otherwise.
#[verifier::loop_isolation(false)]
pub fn profile_list(names: Vec<String>, config: &Config) -> (r: Vec<String>)
    ensures
        ({
            let listed = list_profiles_spec(names_seq_view(names@));
            let current = current_name(config@);
            &&& r@.len() == listed.len()
            &&& forall|i: int|
                0 <= i < listed.len() ==> r@[i]@ == (if listed[i] == current {
                    "* "@
                } else {
                    "  "@
                }) + listed[i]
        }),
{
    let current = profile_current_text(config);
    let listed = list_profiles(names);
    let ghost lv = names_seq_view(listed@);
    let mut r: Vec<String> = Vec::new();
    let n = listed.len();
    let mut i: usize = 0;
    while i < n
        invariant
            0 <= i <= n,
            r@.len() == i,
            forall|k: int|
                0 <= k < i ==> r@[k]@ == (if lv[k] == current_name(config@) {
                    "* "@
                } else {
                    "  "@
                }) + lv[k],
        decreases n - i,
    {
        let prefix: String = if listed[i] == current {
            "* ".to_owned()
        } else {
            "  ".to_owned()
        };
        let line = prefix.concat(listed[i].as_str());
        r.push(line);
        i = i + 1;
    }
    r
}

/// Resolving the reserved `"default"` never touches the store: whatever the
/// store holds, the result is the fixed built-in chat profile, at the
/// resolver and at the facade alike.
pub proof fn lemma_resolve_default_fixed(s: StoreView)
    ensures
        resolve_chat(s, default_name()) == Ok::<ChatView, ProfileError>(
            crate::openai_v1_chat::default_chat(),
        ),
        profile_get_spec(s, default_name()) == Ok::<ProfileView, ProfileError>(
            ProfileView::OpenAIV1ChatCompletion(crate::openai_v1_chat::default_chat()),
        ),
{
}

} // verus!
