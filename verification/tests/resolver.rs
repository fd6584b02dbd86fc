use airs::io::{PartialDefinition, ProfileStore, StoredDefinition};
use airs::openai_shared::OpenAIChatMessage;
use airs::openai_v1_chat::{OpenAIChatResponseFormatType, self};
use airs::openai_v1_image::{OpenAIImageSize, self};
use airs::profile::{profile_get, Profile, ProfileError};

const CHAT_KIND: &str = "https://api.openai.com/v1/chat/completions";
const IMAGE_KIND: &str = "https://api.openai.com/v1/images/generations";

fn empty_partial() -> PartialDefinition {
    PartialDefinition {
        kind: None,
        inherits: None,
        url: None,
        model: None,
        max_tokens: None,
        messages: None,
        json: None,
        n: None,
        prompt: None,
        size: None,
    }
}

fn chat_partial() -> PartialDefinition {
    let mut d = empty_partial();
    d.kind = Some(CHAT_KIND.to_string());
    d
}

fn image_partial() -> PartialDefinition {
    let mut d = empty_partial();
    d.kind = Some(IMAGE_KIND.to_string());
    d
}

fn msg(role: &str, content: &str) -> OpenAIChatMessage {
    OpenAIChatMessage {
        role: role.to_string(),
        content: content.to_string(),
    }
}

fn store_with(entries: Vec<(&str, PartialDefinition)>) -> ProfileStore {
    let mut store = ProfileStore::new();
    for (name, def) in entries {
        store.write(name.to_string(), StoredDefinition::Parsed(def));
    }
    store
}

#[test]
fn default_profile_is_fixed_builtin() {
    let mut junk = chat_partial();
    junk.model = Some("other-model".to_string());
    let store = store_with(vec![("default", junk)]);
    match profile_get(&store, &"default".to_string()) {
        Ok(Profile::OpenAIV1ChatCompletion(p)) => {
            assert_eq!(p.url, CHAT_KIND);
            assert_eq!(p.model, "gpt-4o");
            assert_eq!(p.max_tokens, 550);
            assert!(p.messages.is_empty());
            assert!(p.response_format.is_none());
        }
        _ => panic!("expected the built-in chat profile"),
    }
}

#[test]
fn default_resolver_ignores_empty_store() {
    let store = ProfileStore::new();
    let p = openai_v1_chat::profile(&store, &"default".to_string()).unwrap();
    assert_eq!(p.model, "gpt-4o");
    assert_eq!(p.max_tokens, 550);
}

#[test]
fn no_inherits_merges_onto_default() {
    let mut d = chat_partial();
    d.model = Some("gpt-4o-mini".to_string());
    let store = store_with(vec![("solo", d)]);
    let p = openai_v1_chat::profile(&store, &"solo".to_string()).unwrap();
    assert_eq!(p.model, "gpt-4o-mini");
    assert_eq!(p.url, CHAT_KIND);
    assert_eq!(p.max_tokens, 550);
    assert!(p.messages.is_empty());
    assert!(p.response_format.is_none());
}

#[test]
fn chain_scalar_precedence() {
    let mut c = chat_partial();
    c.max_tokens = Some(111);
    c.model = Some("from-c".to_string());
    let mut b = chat_partial();
    b.inherits = Some(vec!["c".to_string()]);
    b.model = Some("from-b".to_string());
    let mut a = chat_partial();
    a.inherits = Some(vec!["b".to_string()]);
    a.url = Some("https://example.test/chat".to_string());
    let store = store_with(vec![("a", a), ("b", b), ("c", c)]);
    let p = openai_v1_chat::profile(&store, &"a".to_string()).unwrap();
    assert_eq!(p.url, "https://example.test/chat");
    assert_eq!(p.model, "from-b");
    assert_eq!(p.max_tokens, 111);
}

#[test]
fn messages_append_in_resolution_order() {
    let mut b = chat_partial();
    b.messages = Some(vec![msg("system", "sys")]);
    let mut a = chat_partial();
    a.inherits = Some(vec!["b".to_string()]);
    a.messages = Some(vec![msg("user", "user1")]);
    let store = store_with(vec![("a", a), ("b", b)]);
    let p = openai_v1_chat::profile(&store, &"a".to_string()).unwrap();
    assert_eq!(p.messages.len(), 2);
    assert_eq!(p.messages[0].role, "system");
    assert_eq!(p.messages[0].content, "sys");
    assert_eq!(p.messages[1].role, "user");
    assert_eq!(p.messages[1].content, "user1");
}

#[test]
fn json_flag_is_sticky_across_descendants() {
    let mut b = chat_partial();
    b.json = Some(true);
    let mut a = chat_partial();
    a.inherits = Some(vec!["b".to_string()]);
    let store = store_with(vec![("a", a), ("b", b)]);
    let p = openai_v1_chat::profile(&store, &"a".to_string()).unwrap();
    let marker = p.response_format.expect("marker must be present");
    assert_eq!(
        marker.response_type,
        OpenAIChatResponseFormatType::JsonObject
    );
}

#[test]
fn json_field_present_plants_marker_even_when_false() {
    let mut d = chat_partial();
    d.json = Some(false);
    let store = store_with(vec![("a", d)]);
    let p = openai_v1_chat::profile(&store, &"a".to_string()).unwrap();
    assert!(p.response_format.is_some());
}

#[test]
fn json_flag_absent_everywhere_leaves_no_marker() {
    let mut b = chat_partial();
    b.model = Some("m".to_string());
    let mut a = chat_partial();
    a.inherits = Some(vec!["b".to_string()]);
    let store = store_with(vec![("a", a), ("b", b)]);
    let p = openai_v1_chat::profile(&store, &"a".to_string()).unwrap();
    assert!(p.response_format.is_none());
}

#[test]
fn self_cycle_fails() {
    let mut a = chat_partial();
    a.inherits = Some(vec!["a".to_string()]);
    let store = store_with(vec![("a", a)]);
    let e = openai_v1_chat::profile(&store, &"a".to_string()).unwrap_err();
    assert_eq!(e, ProfileError::CyclicInheritance);
}

#[test]
fn two_step_cycle_fails() {
    let mut a = chat_partial();
    a.inherits = Some(vec!["b".to_string()]);
    let mut b = chat_partial();
    b.inherits = Some(vec!["a".to_string()]);
    let store = store_with(vec![("a", a), ("b", b)]);
    let e = profile_get(&store, &"a".to_string()).unwrap_err();
    assert_eq!(e, ProfileError::CyclicInheritance);
}

#[test]
fn missing_root_fails_not_found() {
    let store = ProfileStore::new();
    let e = profile_get(&store, &"ghost".to_string()).unwrap_err();
    assert_eq!(e, ProfileError::ProfileNotFound);
}

#[test]
fn missing_ancestor_fails_not_found() {
    let mut a = chat_partial();
    a.inherits = Some(vec!["ghost".to_string()]);
    let store = store_with(vec![("a", a)]);
    let e = openai_v1_chat::profile(&store, &"a".to_string()).unwrap_err();
    assert_eq!(e, ProfileError::ProfileNotFound);
}

#[test]
fn unknown_kind_fails() {
    let mut d = empty_partial();
    d.kind = Some("https://example.test/unknown".to_string());
    let store = store_with(vec![("a", d)]);
    let e = profile_get(&store, &"a".to_string()).unwrap_err();
    assert_eq!(e, ProfileError::UnknownProfileKind);
}

#[test]
fn missing_kind_on_root_fails_invalid_format() {
    let d = empty_partial();
    let store = store_with(vec![("a", d)]);
    let e = profile_get(&store, &"a".to_string()).unwrap_err();
    assert_eq!(e, ProfileError::InvalidProfileFormat);
}

#[test]
fn malformed_root_fails_invalid_format() {
    let mut store = ProfileStore::new();
    store.write("a".to_string(), StoredDefinition::Malformed);
    let e = profile_get(&store, &"a".to_string()).unwrap_err();
    assert_eq!(e, ProfileError::InvalidProfileFormat);
}

#[test]
fn malformed_ancestor_fails_invalid_format() {
    let mut a = chat_partial();
    a.inherits = Some(vec!["b".to_string()]);
    let mut store = store_with(vec![("a", a)]);
    store.write("b".to_string(), StoredDefinition::Malformed);
    let e = profile_get(&store, &"a".to_string()).unwrap_err();
    assert_eq!(e, ProfileError::InvalidProfileFormat);
}

#[test]
fn ancestor_without_kind_still_contributes() {
    let mut parent = empty_partial();
    parent.model = Some("from-parent".to_string());
    let mut child = chat_partial();
    child.inherits = Some(vec!["parent".to_string()]);
    let store = store_with(vec![("child", child), ("parent", parent)]);
    let p = openai_v1_chat::profile(&store, &"child".to_string()).unwrap();
    assert_eq!(p.model, "from-parent");
}

#[test]
fn later_sibling_wins_at_same_level() {
    let mut b = chat_partial();
    b.model = Some("from-b".to_string());
    let mut c = chat_partial();
    c.model = Some("from-c".to_string());
    let mut a = chat_partial();
    a.inherits = Some(vec!["b".to_string(), "c".to_string()]);
    let store = store_with(vec![("a", a), ("b", b), ("c", c)]);
    let p = openai_v1_chat::profile(&store, &"a".to_string()).unwrap();
    assert_eq!(p.model, "from-c");
}

#[test]
fn base_child_example() {
    let mut base = chat_partial();
    base.model = Some("gpt-4o".to_string());
    base.messages = Some(vec![msg("system", "be terse")]);
    let mut child = chat_partial();
    child.inherits = Some(vec!["base".to_string()]);
    child.max_tokens = Some(100);
    child.messages = Some(vec![msg("user", "hi")]);
    let store = store_with(vec![("base", base), ("child", child)]);
    let p = openai_v1_chat::profile(&store, &"child".to_string()).unwrap();
    assert_eq!(p.model, "gpt-4o");
    assert_eq!(p.max_tokens, 100);
    assert_eq!(p.url, CHAT_KIND);
    assert_eq!(p.messages.len(), 2);
    assert_eq!(p.messages[0].role, "system");
    assert_eq!(p.messages[0].content, "be terse");
    assert_eq!(p.messages[1].role, "user");
    assert_eq!(p.messages[1].content, "hi");
    assert!(p.response_format.is_none());
}

#[test]
fn image_defaults_when_profile_is_empty() {
    let d = image_partial();
    let store = store_with(vec![("pic", d)]);
    match profile_get(&store, &"pic".to_string()) {
        Ok(Profile::OpenAIV1ImageGeneration(p)) => {
            assert_eq!(p.url, IMAGE_KIND);
            assert_eq!(p.model, "dall-e-3");
            assert_eq!(p.n, 1);
            assert_eq!(p.size, OpenAIImageSize::Size1024x1024);
            assert_eq!(p.prompt, "");
        }
        _ => panic!("expected an image profile"),
    }
}

#[test]
fn image_chain_overrides_scalars() {
    let mut base = image_partial();
    base.n = Some(4);
    base.size = Some(OpenAIImageSize::Size256x256);
    base.prompt = Some("a calm lake".to_string());
    let mut top = image_partial();
    top.inherits = Some(vec!["base".to_string()]);
    top.size = Some(OpenAIImageSize::Size512x512);
    let store = store_with(vec![("base", base), ("top", top)]);
    let p = openai_v1_image::profile(&store, &"top".to_string()).unwrap();
    assert_eq!(p.n, 4);
    assert_eq!(p.size, OpenAIImageSize::Size512x512);
    assert_eq!(p.prompt, "a calm lake");
    assert_eq!(p.model, "dall-e-3");
}
