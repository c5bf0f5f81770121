//! The notes domain: create, read and search.

use vstd::prelude::*;
use crate::common::Timestamp;
use crate::common::Provenance;
use crate::ids::ProjectId;
use crate::ids::NoteId;

verus! {

/// Note format.
#[derive(Debug, Clone, Copy, PartialEq, Eq, Structural)]
pub enum NoteFormat {
    /// Markdown (all knowledge content is Markdown).
    Markdown,
}

/// A request to create a note.
#[derive(Debug, Clone, PartialEq)]
pub struct CreateNoteRequest {
    pub project_id: ProjectId,
    pub title: String,
    /// Markdown body.
    pub body: String,
    /// Target directory (a single home; the template default when left out).
    pub target_dir: Option<String>,
    /// Tags.
    pub tags: Option<Vec<String>>,
    pub format: Option<NoteFormat>,
}

/// A note as returned by create and read.
#[derive(Debug, Clone, PartialEq)]
pub struct NoteResponse {
    pub id: NoteId,
    pub project_id: ProjectId,
    pub title: String,
    pub body: String,
    pub target_dir: Option<String>,
    pub format: NoteFormat,
    pub tags: Vec<String>,
    pub provenance: Provenance,
    pub created_at: Timestamp,
    pub updated_at: Timestamp,
}

/// The number of hits of a search when none is given.
pub const DEFAULT_TOP_K: u32 = 10;

/// A search request (the query of `GET /api/search`, and the parameters of the
/// `search_content` tool).
#[derive(Debug, Clone, PartialEq, Default)]
pub struct SearchQuery {
    /// Search text, matched as a literal phrase.
    pub q: String,
    /// Only notes of this project.
    pub project_id: Option<ProjectId>,
    /// Only notes in this directory.
    pub target_dir: Option<String>,
    /// Only notes carrying all these tags.
    pub tags: Option<Vec<String>>,
    /// Only notes created at or after this instant.
    pub after: Option<Timestamp>,
    /// Only notes created at or before this instant.
    pub before: Option<Timestamp>,
    /// At most this many hits (10 when left out).
    pub top_k: Option<u32>,
}

} // verus!
