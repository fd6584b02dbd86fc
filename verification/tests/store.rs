use airs::config::{set_default_profile, Config};
use airs::io::{PartialDefinition, ProfileStore, StoredDefinition};
use airs::openai_shared::OpenAIChatMessage;
use airs::profile::{
    get_prompt, is_default_name, kind_of, profile_remove, profile_use, Kind, ProfileError,
    set_prompt,
};

fn empty_partial() -> PartialDefinition {
    PartialDefinition {
        kind: None,
        inherits: None,
        url: None,
        model: None,
        max_tokens: None,
        messages: None,
        json: None,
        n: None,
        prompt: None,
        size: None,
    }
}

fn msg(role: &str, content: &str) -> OpenAIChatMessage {
    OpenAIChatMessage {
        role: role.to_string(),
        content: content.to_string(),
    }
}

#[test]
fn store_read_returns_what_was_written() {
    let mut store = ProfileStore::new();
    let mut d = empty_partial();
    d.model = Some("m".to_string());
    store.write("a".to_string(), StoredDefinition::Parsed(d));
    match store.read(&"a".to_string()) {
        Some(StoredDefinition::Parsed(found)) => {
            assert_eq!(found.model.as_deref(), Some("m"));
        }
        _ => panic!("expected the stored definition"),
    }
    assert!(store.read(&"b".to_string()).is_none());
}

#[test]
fn store_write_replaces_under_the_same_name() {
    let mut store = ProfileStore::new();
    let mut first = empty_partial();
    first.model = Some("one".to_string());
    let mut second = empty_partial();
    second.model = Some("two".to_string());
    store.write("a".to_string(), StoredDefinition::Parsed(first));
    store.write("a".to_string(), StoredDefinition::Parsed(second));
    match store.read(&"a".to_string()) {
        Some(StoredDefinition::Parsed(found)) => {
            assert_eq!(found.model.as_deref(), Some("two"));
        }
        _ => panic!("expected the replacing definition"),
    }
}

#[test]
fn profile_use_selects_an_existing_name() {
    let mut store = ProfileStore::new();
    store.write("a".to_string(), StoredDefinition::Parsed(empty_partial()));
    assert!(profile_use(&mut store, "a".to_string()).is_ok());
    assert_eq!(store.read_default_profile_name().as_deref(), Some("a"));
}

#[test]
fn profile_use_rejects_a_missing_name() {
    let mut store = ProfileStore::new();
    store.write("a".to_string(), StoredDefinition::Parsed(empty_partial()));
    let e = profile_use(&mut store, "ghost".to_string()).unwrap_err();
    assert_eq!(e, ProfileError::ProfileNotFound);
    assert!(store.read_default_profile_name().is_none());
}

#[test]
fn set_default_profile_sets_the_slot() {
    let mut config = Config {
        default_profile: None,
    };
    set_default_profile(&mut config, "picked".to_string());
    assert_eq!(config.default_profile.as_deref(), Some("picked"));
}

#[test]
fn get_prompt_of_empty_list_is_empty() {
    let messages: Vec<OpenAIChatMessage> = Vec::new();
    assert_eq!(get_prompt(&messages), "");
}

#[test]
fn get_prompt_reads_the_last_message() {
    let messages = vec![msg("system", "sys"), msg("user", "question")];
    assert_eq!(get_prompt(&messages), "question");
}

#[test]
fn set_prompt_on_empty_list_adds_a_user_message() {
    let mut messages: Vec<OpenAIChatMessage> = Vec::new();
    set_prompt(&mut messages, "hello".to_string());
    assert_eq!(messages.len(), 1);
    assert_eq!(messages[0].role, "user");
    assert_eq!(messages[0].content, "hello");
}

#[test]
fn set_prompt_replaces_the_last_content_keeping_the_role() {
    let mut messages = vec![msg("system", "sys"), msg("assistant", "old")];
    set_prompt(&mut messages, "new".to_string());
    assert_eq!(messages.len(), 2);
    assert_eq!(messages[0].content, "sys");
    assert_eq!(messages[1].role, "assistant");
    assert_eq!(messages[1].content, "new");
}

#[test]
fn kind_of_recognises_the_two_endpoints() {
    assert_eq!(
        kind_of(&"https://api.openai.com/v1/chat/completions".to_string()),
        Some(Kind::OpenAIV1ChatCompletion)
    );
    assert_eq!(
        kind_of(&"https://api.openai.com/v1/images/generations".to_string()),
        Some(Kind::OpenAIV1ImageGeneration)
    );
    assert_eq!(kind_of(&"https://example.test/other".to_string()), None);
}

#[test]
fn default_name_is_recognised_exactly() {
    assert!(is_default_name(&"default".to_string()));
    assert!(!is_default_name(&"Default".to_string()));
    assert!(!is_default_name(&"default2".to_string()));
}

#[test]
fn profile_remove_accepts_any_name() {
    profile_remove("anything".to_string());
}
