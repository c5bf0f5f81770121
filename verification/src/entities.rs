//! The entity domain: projects, stages and tags in full; events, timeline groups,
//! templates and todos with their core fields.

use vstd::prelude::*;
use crate::common::{AtSource, PaginationMeta, Timestamp};
use crate::ids::{EventId, IdStr, NoteId, ProjectId, StageId, TagId, TemplateId, TimelineGroupId, TodoId};

verus! {

/// A project.
#[derive(Debug, Clone, PartialEq)]
pub struct Project {
    pub id: ProjectId,
    pub name: String,
    /// Sensitive switch (on: every step uses a local model).
    pub sensitive: bool,
    /// The template the project came from.
    pub template_id: Option<TemplateId>,
    pub created_at: Timestamp,
    pub updated_at: Timestamp,
}

/// Creates (no `id`) or updates a project.
#[derive(Debug, Clone, PartialEq)]
pub struct ProjectUpsert {
    pub id: Option<ProjectId>,
    pub name: String,
    pub sensitive: Option<bool>,
    pub template_id: Option<TemplateId>,
}

/// A list of projects.
#[derive(Debug, Clone, PartialEq)]
pub struct ProjectList {
    pub items: Vec<Project>,
    pub page: PaginationMeta,
}

/// A stage of a project (ordered by position).
#[derive(Debug, Clone, PartialEq)]
pub struct Stage {
    pub id: StageId,
    pub project_id: ProjectId,
    pub name: String,
    /// Position in the sequence (from 1).
    pub position: u32,
    pub created_at: Timestamp,
    pub updated_at: Timestamp,
}

/// Creates or updates a stage.
#[derive(Debug, Clone, PartialEq)]
pub struct StageUpsert {
    pub id: Option<StageId>,
    pub project_id: ProjectId,
    pub name: String,
    pub position: u32,
}

/// Query of the stage list.
#[derive(Debug, Clone, PartialEq)]
pub struct StageListParams {
    /// The project (required).
    pub project_id: ProjectId,
}

/// A list of stages.
#[derive(Debug, Clone, PartialEq)]
pub struct StageList {
    pub items: Vec<Stage>,
    pub page: PaginationMeta,
}

/// A tag of the global pool.
#[derive(Debug, Clone, PartialEq)]
pub struct Tag {
    pub id: TagId,
    pub name: String,
    /// How many times it is used.
    pub usage_count: u64,
    pub created_at: Timestamp,
    pub updated_at: Timestamp,
}

/// Creates or updates (renames, merges) a tag.
#[derive(Debug, Clone, PartialEq)]
pub struct TagUpsert {
    pub id: Option<TagId>,
    pub name: String,
}

/// A list of tags.
#[derive(Debug, Clone, PartialEq)]
pub struct TagList {
    pub items: Vec<Tag>,
    pub page: PaginationMeta,
}

/// A timeline event (only ever added: a correction voids and re-creates).
#[derive(Debug, Clone, PartialEq)]
pub struct Event {
    pub id: EventId,
    pub project_id: ProjectId,
    /// The event type (from the template, such as a meeting); `type` on the wire.
    pub event_type: String,
    /// The stage the event belongs to.
    pub stage: Option<String>,
    pub at: Timestamp,
    /// Where the time comes from (always present).
    pub at_source: AtSource,
    /// Group name (events without one are not folded).
    pub group_name: Option<String>,
    /// The linked note.
    pub note_id: Option<NoteId>,
    /// When the event was voided (it stays visible).
    pub voided_at: Option<Timestamp>,
    pub created_at: Timestamp,
    pub updated_at: Timestamp,
}

/// Query of the event list.
#[derive(Debug, Clone, PartialEq)]
pub struct EventListParams {
    /// The project (required).
    pub project_id: ProjectId,
}

/// A list of events.
#[derive(Debug, Clone, PartialEq)]
pub struct EventList {
    pub items: Vec<Event>,
    pub page: PaginationMeta,
}

/// A timeline group.
#[derive(Debug, Clone, PartialEq)]
pub struct TimelineGroup {
    pub id: TimelineGroupId,
    pub project_id: ProjectId,
    /// The group name (equal to the events' group name).
    pub name: String,
    pub created_at: Timestamp,
    pub updated_at: Timestamp,
}

/// Query of the group list.
#[derive(Debug, Clone, PartialEq)]
pub struct TimelineGroupListParams {
    /// The project (required).
    pub project_id: ProjectId,
}

/// A list of timeline groups.
#[derive(Debug, Clone, PartialEq)]
pub struct TimelineGroupList {
    pub items: Vec<TimelineGroup>,
    pub page: PaginationMeta,
}

/// A template: stage sequence, directory tree, event types and tag pool.
#[derive(Debug, Clone, PartialEq)]
pub struct Template {
    pub id: TemplateId,
    pub name: String,
    /// The stage sequence (ordered).
    pub stage_names: Vec<String>,
    /// The directory tree.
    pub directory_paths: Vec<String>,
    /// The event type pool.
    pub event_types: Vec<String>,
    /// The tag pool.
    pub tag_names: Vec<String>,
    pub created_at: Timestamp,
    pub updated_at: Timestamp,
}

/// A list of templates.
#[derive(Debug, Clone, PartialEq)]
pub struct TemplateList {
    pub items: Vec<Template>,
    pub page: PaginationMeta,
}

/// Todo status.
#[derive(Debug, Clone, Copy, PartialEq, Eq, Structural)]
pub enum TodoStatus {
    /// Open.
    Open,
    /// Done (can be reopened).
    Done,
}

/// Where a todo came from.
#[derive(Debug, Clone, Copy, PartialEq, Eq, Structural)]
pub enum TodoSource {
    /// A todo line of an operation card.
    Card,
    /// Created by hand.
    Manual,
    /// A bulk import.
    Import,
}

/// A todo (overdue means: due time passed while still open).
#[derive(Debug, Clone, PartialEq)]
pub struct Todo {
    pub id: TodoId,
    pub project_id: Option<ProjectId>,
    pub title: String,
    /// Due time (left out when it could not be parsed).
    pub due_at: Option<Timestamp>,
    pub status: TodoStatus,
    /// Owner (recorded only).
    pub owner: Option<String>,
    pub source: TodoSource,
    /// What it came from (such as a card id).
    pub source_ref: Option<IdStr>,
    pub created_at: Timestamp,
    pub updated_at: Timestamp,
}

/// Query of the todo list.
#[derive(Debug, Clone, PartialEq, Default)]
pub struct TodoListParams {
    pub project_id: Option<ProjectId>,
    pub status: Option<TodoStatus>,
    pub source: Option<TodoSource>,
}

/// A list of todos.
#[derive(Debug, Clone, PartialEq)]
pub struct TodoList {
    pub items: Vec<Todo>,
    pub page: PaginationMeta,
}

} // verus!
