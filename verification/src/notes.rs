//! Community-notes types: key management, note publishing and fetching,
//! relay configuration and authentication state.  The storage engine only
//! stores and forwards these records.

use vstd::prelude::*;
use vstd::string::StringExecFns;
use crate::messages::Timestamp;

verus! {

/// Nostr key management strategy.
#[derive(Clone, Debug, PartialEq)]
pub enum KeyStrategy {
    /// Use a browser extension (NIP-07).
    Nip07,
    /// Use a remote signer (NIP-46).
    Nip46 { relay_url: String, pubkey: String },
    /// Manual nsec entry.
    Manual { nsec: String },
    /// Ephemeral (generated per session).
    Ephemeral,
}

/// Note attachment type.
#[derive(Clone, Debug)]
pub enum NoteAttachment {
    /// Attached to a dataset.
    Dataset { name: String },
    /// Attached to a specific query.
    Query { sql: String, cell_id: Option<String> },
    /// Attached to a cell.
    Cell { cell_id: String },
    /// Attached to a notebook.
    Notebook { notebook_id: String },
    /// General note (no specific attachment).
    General,
}

/// Request to publish a note.
#[derive(Clone, Debug)]
pub struct PublishNoteRequest {
    /// Note content (plain text or markdown).
    pub content: String,
    /// Optional title (for long-form).
    pub title: Option<String>,
    /// What the note is attached to.
    pub attachment: NoteAttachment,
    /// Additional tags.
    pub tags: Vec<String>,
    /// Whether to publish as a long-form article.
    pub long_form: bool,
}

/// Result of publishing a note.
#[derive(Clone, Debug)]
pub struct PublishNoteResult {
    /// Event ID.
    pub event_id: String,
    /// Author pubkey.
    pub pubkey: String,
    /// Relays published to.
    pub relays: Vec<String>,
    /// Note URL (for sharing).
    pub url: String,
}

/// Request to fetch community notes.
#[derive(Clone, Debug)]
pub struct FetchNotesRequest {
    /// Filter by hashtag.
    pub hashtag: Option<String>,
    /// Filter by author pubkey.
    pub author: Option<String>,
    /// Filter by attachment type.
    pub attachment_type: Option<String>,
    /// Maximum notes to fetch.
    pub limit: u32,
    /// Fetch notes since this timestamp.
    pub since: Option<Timestamp>,
}

/// A community note.
#[derive(Clone, Debug)]
pub struct CommunityNote {
    /// Event ID.
    pub id: String,
    /// Author pubkey.
    pub pubkey: String,
    /// Author display name (from profile).
    pub author_name: Option<String>,
    /// Author NIP-05 identifier.
    pub author_nip05: Option<String>,
    /// Whether the author is verified.
    pub author_verified: bool,
    /// Note content.
    pub content: String,
    /// Title (for long-form).
    pub title: Option<String>,
    /// Creation timestamp.
    pub created_at: Timestamp,
    /// Hashtags.
    pub tags: Vec<String>,
    /// Attachment info.
    pub attachment: Option<NoteAttachment>,
    /// Reaction count.
    pub reactions: u32,
    /// Reply count.
    pub replies: u32,
}

/// Fetch notes result.
#[derive(Clone, Debug)]
pub struct FetchNotesResult {
    /// Notes.
    pub notes: Vec<CommunityNote>,
    /// Whether more notes are available.
    pub has_more: bool,
}

/// NIP-05 verification request.
#[derive(Clone, Debug)]
pub struct VerifyNip05Request {
    /// NIP-05 identifier.
    pub identifier: String,
    /// Expected pubkey.
    pub pubkey: String,
}

/// NIP-05 verification result.
#[derive(Clone, Debug)]
pub struct VerifyNip05Result {
    /// Whether verified.
    pub verified: bool,
    /// Relays associated with the identifier.
    pub relays: Vec<String>,
}

/// Nostr relay configuration.
#[derive(Clone, Debug)]
pub struct RelayConfig {
    /// Relay URL.
    pub url: String,
    /// Whether to read from this relay.
    pub read: bool,
    /// Whether to write to this relay.
    pub write: bool,
}

/// Nostr configuration.
#[derive(Clone, Debug)]
pub struct NostrConfig {
    /// Key strategy.
    pub key_strategy: KeyStrategy,
    /// Configured relays.
    pub relays: Vec<RelayConfig>,
    /// Default hashtags to include.
    pub default_tags: Vec<String>,
}

impl Default for NostrConfig {
    /// An ephemeral key, two read/write relays, one read-only relay, and
    /// the community's default hashtag.
    fn default() -> (r: Self)
        ensures
            r.key_strategy == KeyStrategy::Ephemeral,
            r.relays@.len() == 3,
            r.relays@[0].url@ == "wss://relay.damus.io"@,
            r.relays@[0].read && r.relays@[0].write,
            r.relays@[1].url@ == "wss://nos.lol"@,
            r.relays@[1].read && r.relays@[1].write,
            r.relays@[2].url@ == "wss://relay.nostr.band"@,
            r.relays@[2].read && !r.relays@[2].write,
            r.default_tags@.len() == 1,
            r.default_tags@[0]@ == "fredco-data"@,
    {
        let mut relays: Vec<RelayConfig> = Vec::new();
        relays.push(RelayConfig {
            url: String::from_str("wss://relay.damus.io"),
            read: true,
            write: true,
        });
        relays.push(RelayConfig {
            url: String::from_str("wss://nos.lol"),
            read: true,
            write: true,
        });
        relays.push(RelayConfig {
            url: String::from_str("wss://relay.nostr.band"),
            read: true,
            write: false,
        });
        let mut default_tags: Vec<String> = Vec::new();
        default_tags.push(String::from_str("fredco-data"));
        NostrConfig { key_strategy: KeyStrategy::Ephemeral, relays, default_tags }
    }
}

/// User profile from the network.
#[derive(Clone, Debug)]
pub struct NostrProfile {
    /// Pubkey.
    pub pubkey: String,
    /// Display name.
    pub name: Option<String>,
    /// About text.
    pub about: Option<String>,
    /// Profile picture URL.
    pub picture: Option<String>,
    /// NIP-05 identifier.
    pub nip05: Option<String>,
    /// Whether NIP-05 is verified.
    pub nip05_verified: bool,
}

/// Current authentication state.
#[derive(Clone, Debug)]
pub enum AuthState {
    /// Not authenticated.
    Unauthenticated,
    /// Authenticated with a profile.
    Authenticated { profile: NostrProfile, key_strategy: KeyStrategy },
    /// Authentication in progress.
    Pending,
    /// Authentication failed.
    Error { message: String },
}

} // verus!
