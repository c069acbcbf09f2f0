//! Tests for the message envelope helpers, the string order used for
//! eviction tie-breaks, and the documented default values.

use playground_storage::messages::{ErrorCode, MessageResult};
use playground_storage::notes::{KeyStrategy, NostrConfig};
use playground_storage::chart::LegendPosition;
use playground_storage::editor::ExecutionState;
use playground_storage::storage::{EvictionConfig, EvictionResult, Theme, UserPreferences};
use playground_storage::text::str_lex_le;

#[test]
fn message_result_constructors() {
    let ok: MessageResult<u32> = MessageResult::ok(7);
    assert!(ok.is_ok());
    assert!(!ok.is_error());
    match ok {
        MessageResult::Success { data } => assert_eq!(data, 7),
        MessageResult::Error { .. } => panic!("expected success"),
    }
    let err: MessageResult<u32> =
        MessageResult::error(ErrorCode::NotFound, String::from("missing"));
    assert!(err.is_error());
    assert!(!err.is_ok());
    match err {
        MessageResult::Error { error } => {
            assert_eq!(error.code, ErrorCode::NotFound);
            assert_eq!(error.message, "missing");
            assert!(error.details.is_none());
        },
        MessageResult::Success { .. } => panic!("expected error"),
    }
    let err2: MessageResult<u32> = MessageResult::error_with_details(
        ErrorCode::StorageError,
        String::from("write failed"),
        String::from("device full"),
    );
    match err2 {
        MessageResult::Error { error } => {
            assert_eq!(error.code, ErrorCode::StorageError);
            assert_eq!(error.message, "write failed");
            assert_eq!(error.details.as_deref(), Some("device full"));
        },
        MessageResult::Success { .. } => panic!("expected error"),
    }
}

#[test]
fn lexicographic_order_on_strings() {
    assert!(str_lex_le("", ""));
    assert!(str_lex_le("", "a"));
    assert!(!str_lex_le("a", ""));
    assert!(str_lex_le("a", "a"));
    assert!(str_lex_le("a", "b"));
    assert!(!str_lex_le("b", "a"));
    assert!(str_lex_le("ab", "abc"));
    assert!(!str_lex_le("abc", "ab"));
    assert!(str_lex_le("https://a.example/x", "https://b.example/x"));
}

#[test]
fn eviction_defaults() {
    let c = EvictionConfig::default();
    assert_eq!(c.max_cache_size, 500 * 1024 * 1024);
    assert_eq!(c.target_size, 400 * 1024 * 1024);
    assert_eq!(c.min_entries, 5);
    assert_eq!(c.max_age_seconds, 30 * 24 * 3600);
    assert!(c.is_valid());
    let r = EvictionResult::default();
    assert_eq!(r.entries_removed, 0);
    assert_eq!(r.bytes_freed, 0);
}

#[test]
fn invalid_config_detected() {
    let c = EvictionConfig {
        max_cache_size: 100,
        target_size: 200,
        min_entries: 0,
        max_age_seconds: 1,
    };
    assert!(!c.is_valid());
}

#[test]
fn preference_defaults() {
    let p = UserPreferences::default();
    assert_eq!(p.theme, Theme::System);
    assert!(p.nostr.encrypted_nsec.is_none());
    assert!(p.nostr.npub.is_none());
    assert!(p.nostr.relays.is_empty());
    assert!(!p.nostr.auto_publish);
    assert_eq!(p.editor.font_size, 14);
    assert_eq!(p.editor.tab_size, 2);
    assert_eq!(p.query.max_rows, 10000);
    assert_eq!(p.query.timeout_seconds, 30);
}

#[test]
fn nostr_config_default_relays() {
    let c = NostrConfig::default();
    assert_eq!(c.key_strategy, KeyStrategy::Ephemeral);
    assert_eq!(c.relays.len(), 3);
    assert_eq!(c.relays[0].url, "wss://relay.damus.io");
    assert!(c.relays[0].read && c.relays[0].write);
    assert_eq!(c.relays[1].url, "wss://nos.lol");
    assert!(c.relays[1].read && c.relays[1].write);
    assert_eq!(c.relays[2].url, "wss://relay.nostr.band");
    assert!(c.relays[2].read && !c.relays[2].write);
    assert_eq!(c.default_tags, vec![String::from("fredco-data")]);
}

#[test]
fn enum_defaults() {
    assert_eq!(ExecutionState::default(), ExecutionState::Idle);
    assert_eq!(Theme::default(), Theme::System);
    assert_eq!(LegendPosition::default(), LegendPosition::Top);
}
