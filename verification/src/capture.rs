//! The capture domain: the capture input matrix (text, image, file) and operation cards.

use vstd::prelude::*;
use crate::common::{AtSource, ProvenanceSource, Timestamp};
use crate::ids::{CaptureId, CardId, EventId, NoteId, ProjectId, TodoId};
use crate::notes::NoteFormat;

verus! {

/// Capture status (an unreachable model or a failed parse degrades: the raw text goes to the
/// inbox and capture is never blocked).
#[derive(Debug, Clone, Copy, PartialEq, Eq, Structural)]
pub enum CaptureStatus {
    Submitted,
    Processing,
    CardReady,
    Degraded,
}

/// A capture submission (tagged by `type` on the wire).
#[derive(Debug, Clone, PartialEq)]
pub enum CaptureSubmit {
    /// Pasted text.
    Text { text: String },
    /// A screenshot (base64 bytes).
    Image { data_base64: String, filename: Option<String> },
    /// A file (base64 bytes).
    File { data_base64: String, filename: String, media_type: Option<String> },
}

/// The answer to a submission.
#[derive(Debug, Clone, PartialEq)]
pub struct CaptureResponse {
    pub capture_id: CaptureId,
    pub status: CaptureStatus,
}

/// The status of a capture.
#[derive(Debug, Clone, PartialEq)]
pub struct CaptureStatusResponse {
    pub id: CaptureId,
    pub status: CaptureStatus,
    /// The card awaiting review (present once the card is ready).
    pub card_id: Option<CardId>,
    pub created_at: Timestamp,
    pub updated_at: Timestamp,
}

/// Card status: pending, then executed or discarded.
#[derive(Debug, Clone, Copy, PartialEq, Eq, Structural)]
pub enum CardStatus {
    Pending,
    Executed,
    Discarded,
}

/// Confidence of the project inference.
#[derive(Debug, Clone, Copy, PartialEq, Eq, Structural)]
pub enum Confidence {
    High,
    Medium,
    Low,
}

/// The action of a card entry.
#[derive(Debug, Clone, Copy, PartialEq, Eq, Structural)]
pub enum CardAction {
    CreateNote,
    SaveFile,
    AddEvent,
    SaveCredential,
}

/// The processing channel of an executed card.
#[derive(Debug, Clone, PartialEq)]
pub struct CardProcessing {
    /// Model name.
    pub model: String,
    /// Whether a cloud channel was used.
    pub cloud: bool,
    /// Whether outbound text was redacted.
    pub redacted: bool,
}

/// Provenance of a card entry.
#[derive(Debug, Clone, PartialEq)]
pub struct CardProvenance {
    pub source: ProvenanceSource,
    pub origin: String,
    pub imported: bool,
    /// Written on execution (absent from pending cards).
    pub processing: Option<CardProcessing>,
}

/// The event line of a card entry; `type` on the wire.
#[derive(Debug, Clone, PartialEq)]
pub struct CardEvent {
    pub event_type: String,
    pub stage: Option<String>,
    pub at: Timestamp,
    pub at_source: AtSource,
}

/// A todo line of a card entry.
#[derive(Debug, Clone, PartialEq)]
pub struct CardTodo {
    pub title: String,
    pub due: Option<Timestamp>,
    pub owner: Option<String>,
}

/// A card entry.
#[derive(Debug, Clone, PartialEq)]
pub struct CardEntry {
    pub action: CardAction,
    pub title: String,
    pub target_dir: Option<String>,
    pub format: Option<NoteFormat>,
    pub tags: Option<Vec<String>>,
    pub group_name: Option<String>,
    pub event: Option<CardEvent>,
    pub todos: Option<Vec<CardTodo>>,
    pub provenance: CardProvenance,
    /// Markdown body.
    pub body: String,
}

/// Card content (tagged `card.batch` on the wire).
#[derive(Debug, Clone, PartialEq)]
pub enum CardContent {
    /// A batch: N entries with one project inference.
    Batch {
        project: Option<ProjectId>,
        confidence: Option<Confidence>,
        reason: Option<String>,
        entries: Vec<CardEntry>,
    },
}

/// A card.
#[derive(Debug, Clone, PartialEq)]
pub struct CardResponse {
    pub id: CardId,
    pub status: CardStatus,
    pub content: CardContent,
    pub created_at: Timestamp,
    pub updated_at: Timestamp,
}

/// A conversational adjustment of a draft card.
#[derive(Debug, Clone, PartialEq)]
pub struct CardPatch {
    pub project: Option<ProjectId>,
    pub confidence: Option<Confidence>,
    pub reason: Option<String>,
    /// Replaces all entries.
    pub entries: Option<Vec<CardEntry>>,
}

/// What executing a card stored.
#[derive(Debug, Clone, PartialEq)]
pub struct CardExecutionResult {
    pub card_id: CardId,
    pub note_ids: Vec<NoteId>,
    pub event_ids: Vec<EventId>,
    pub todo_ids: Vec<TodoId>,
}

} // verus!
