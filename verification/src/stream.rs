//! The server-sent event envelope, its framing, and the sequence of event ids.

use vstd::prelude::*;
use crate::capture::CaptureStatus;
use crate::entities::{Project, Todo};
use crate::ids::CaptureId;
use crate::notes::NoteResponse;

verus! {

/// An event envelope: a `type`, an `event_id` and a typed `payload`. New events are new
/// variants; the envelope shape does not change.
#[derive(Debug, Clone, PartialEq)]
pub enum StreamEnvelope {
    /// A note was created.
    NoteCreated { event_id: u64, payload: NoteResponse },
    /// A note was updated.
    NoteUpdated { event_id: u64, payload: NoteResponse },
    /// A project was created.
    ProjectCreated { event_id: u64, payload: Project },
    /// A project was updated.
    ProjectUpdated { event_id: u64, payload: Project },
    /// A todo was created.
    TodoCreated { event_id: u64, payload: Todo },
    /// A todo was updated.
    TodoUpdated { event_id: u64, payload: Todo },
    /// A capture changed status.
    CaptureStatusChanged { event_id: u64, payload: CaptureStatusPayload },
}

/// The payload of a capture status event.
#[derive(Debug, Clone, PartialEq)]
pub struct CaptureStatusPayload {
    pub capture_id: CaptureId,
    pub status: CaptureStatus,
}

/// The `event:` line of a frame: the envelope's type.
pub open spec fn event_name_of(e: StreamEnvelope) -> Seq<char> {
    match e {
        StreamEnvelope::NoteCreated { .. } => "note_created"@,
        StreamEnvelope::NoteUpdated { .. } => "note_updated"@,
        StreamEnvelope::ProjectCreated { .. } => "project_created"@,
        StreamEnvelope::ProjectUpdated { .. } => "project_updated"@,
        StreamEnvelope::TodoCreated { .. } => "todo_created"@,
        StreamEnvelope::TodoUpdated { .. } => "todo_updated"@,
        StreamEnvelope::CaptureStatusChanged { .. } => "capture_status_changed"@,
    }
}

/// The name of an envelope's variant.
pub open spec fn variant_name(e: StreamEnvelope) -> Seq<char> {
    match e {
        StreamEnvelope::NoteCreated { .. } => "NoteCreated"@,
        StreamEnvelope::NoteUpdated { .. } => "NoteUpdated"@,
        StreamEnvelope::ProjectCreated { .. } => "ProjectCreated"@,
        StreamEnvelope::ProjectUpdated { .. } => "ProjectUpdated"@,
        StreamEnvelope::TodoCreated { .. } => "TodoCreated"@,
        StreamEnvelope::TodoUpdated { .. } => "TodoUpdated"@,
        StreamEnvelope::CaptureStatusChanged { .. } => "CaptureStatusChanged"@,
    }
}

/// The position of an envelope's variant in the enum.
pub open spec fn variant_index(e: StreamEnvelope) -> int {
    match e {
        StreamEnvelope::NoteCreated { .. } => 0,
        StreamEnvelope::NoteUpdated { .. } => 1,
        StreamEnvelope::ProjectCreated { .. } => 2,
        StreamEnvelope::ProjectUpdated { .. } => 3,
        StreamEnvelope::TodoCreated { .. } => 4,
        StreamEnvelope::TodoUpdated { .. } => 5,
        StreamEnvelope::CaptureStatusChanged { .. } => 6,
    }
}

/// Whether a character is an ASCII capital.
pub open spec fn is_ascii_capital(c: char) -> bool {
    'A' <= c && c <= 'Z'
}

/// The ASCII small letter of a capital; other characters stay.
pub open spec fn ascii_small(c: char) -> char {
    if is_ascii_capital(c) {
        ((c as int) + 32) as char
    } else {
        c
    }
}

/// The snake_case form of a PascalCase name: each capital becomes its small letter, preceded
/// by `_` unless it starts the name.
pub open spec fn snake_case(s: Seq<char>) -> Seq<char>
    decreases s.len(),
{
    if s.len() == 0 {
        s
    } else if is_ascii_capital(s.last()) && s.len() > 1 {
        snake_case(s.drop_last()) + seq!['_', ascii_small(s.last())]
    } else {
        snake_case(s.drop_last()).push(ascii_small(s.last()))
    }
}

/// The event name of an envelope is the snake_case of its variant's name (the envelope's
/// `type` tag), and envelopes of different variants have different event names.
pub proof fn law_event_name_is_snake_case_variant(a: StreamEnvelope, b: StreamEnvelope)
    ensures
        event_name_of(a) == snake_case(variant_name(a)),
        variant_index(a) != variant_index(b) ==> event_name_of(a) != event_name_of(b),
{
    lemma_event_name_snake(a);
    lemma_event_name_snake(b);
    if variant_index(a) != variant_index(b) && event_name_of(a) == event_name_of(b) {
        lemma_event_names_differ(a, b);
    }
}

proof fn lemma_event_names_differ(a: StreamEnvelope, b: StreamEnvelope)
    requires
        variant_index(a) != variant_index(b),
    ensures
        event_name_of(a) != event_name_of(b),
{
    reveal_strlit("note_created");
    reveal_strlit("note_updated");
    reveal_strlit("project_created");
    reveal_strlit("project_updated");
    reveal_strlit("todo_created");
    reveal_strlit("todo_updated");
    reveal_strlit("capture_status_changed");
    let x = event_name_of(a);
    let y = event_name_of(b);
    if x == y {
        assert(x.len() == y.len());
        assert(x[0] == y[0]);
        assert(x[5] == y[5]);
        assert(x[8] == y[8]);
    }
}

proof fn lemma_event_name_snake(e: StreamEnvelope)
    ensures
        event_name_of(e) == snake_case(variant_name(e)),
{
    match e {
        StreamEnvelope::NoteCreated { .. } => lemma_snake_note_created(),
        StreamEnvelope::NoteUpdated { .. } => lemma_snake_note_updated(),
        StreamEnvelope::ProjectCreated { .. } => lemma_snake_project_created(),
        StreamEnvelope::ProjectUpdated { .. } => lemma_snake_project_updated(),
        StreamEnvelope::TodoCreated { .. } => lemma_snake_todo_created(),
        StreamEnvelope::TodoUpdated { .. } => lemma_snake_todo_updated(),
        StreamEnvelope::CaptureStatusChanged { .. } => lemma_snake_capture_status_changed(),
    }
}

proof fn lemma_snake_note_created()
    ensures
        snake_case("NoteCreated"@) == "note_created"@,
{
    reveal_strlit("NoteCreated");
    reveal_strlit("note_created");
    let v = "NoteCreated"@;
    let t = "note_created"@;
    assert(snake_case(v.take(0)) =~= t.take(0));
    assert(v.take(1).drop_last() =~= v.take(0));
    assert(snake_case(v.take(1)) =~= t.take(1));
    assert(v.take(2).drop_last() =~= v.take(1));
    assert(snake_case(v.take(2)) =~= t.take(2));
    assert(v.take(3).drop_last() =~= v.take(2));
    assert(snake_case(v.take(3)) =~= t.take(3));
    assert(v.take(4).drop_last() =~= v.take(3));
    assert(snake_case(v.take(4)) =~= t.take(4));
    assert(v.take(5).drop_last() =~= v.take(4));
    assert(snake_case(v.take(5)) =~= t.take(6));
    assert(v.take(6).drop_last() =~= v.take(5));
    assert(snake_case(v.take(6)) =~= t.take(7));
    assert(v.take(7).drop_last() =~= v.take(6));
    assert(snake_case(v.take(7)) =~= t.take(8));
    assert(v.take(8).drop_last() =~= v.take(7));
    assert(snake_case(v.take(8)) =~= t.take(9));
    assert(v.take(9).drop_last() =~= v.take(8));
    assert(snake_case(v.take(9)) =~= t.take(10));
    assert(v.take(10).drop_last() =~= v.take(9));
    assert(snake_case(v.take(10)) =~= t.take(11));
    assert(v.take(11).drop_last() =~= v.take(10));
    assert(snake_case(v.take(11)) =~= t.take(12));
    assert(v.take(11) =~= v);
    assert(t.take(12) =~= t);
}

proof fn lemma_snake_note_updated()
    ensures
        snake_case("NoteUpdated"@) == "note_updated"@,
{
    reveal_strlit("NoteUpdated");
    reveal_strlit("note_updated");
    let v = "NoteUpdated"@;
    let t = "note_updated"@;
    assert(snake_case(v.take(0)) =~= t.take(0));
    assert(v.take(1).drop_last() =~= v.take(0));
    assert(snake_case(v.take(1)) =~= t.take(1));
    assert(v.take(2).drop_last() =~= v.take(1));
    assert(snake_case(v.take(2)) =~= t.take(2));
    assert(v.take(3).drop_last() =~= v.take(2));
    assert(snake_case(v.take(3)) =~= t.take(3));
    assert(v.take(4).drop_last() =~= v.take(3));
    assert(snake_case(v.take(4)) =~= t.take(4));
    assert(v.take(5).drop_last() =~= v.take(4));
    assert(snake_case(v.take(5)) =~= t.take(6));
    assert(v.take(6).drop_last() =~= v.take(5));
    assert(snake_case(v.take(6)) =~= t.take(7));
    assert(v.take(7).drop_last() =~= v.take(6));
    assert(snake_case(v.take(7)) =~= t.take(8));
    assert(v.take(8).drop_last() =~= v.take(7));
    assert(snake_case(v.take(8)) =~= t.take(9));
    assert(v.take(9).drop_last() =~= v.take(8));
    assert(snake_case(v.take(9)) =~= t.take(10));
    assert(v.take(10).drop_last() =~= v.take(9));
    assert(snake_case(v.take(10)) =~= t.take(11));
    assert(v.take(11).drop_last() =~= v.take(10));
    assert(snake_case(v.take(11)) =~= t.take(12));
    assert(v.take(11) =~= v);
    assert(t.take(12) =~= t);
}

proof fn lemma_snake_project_created()
    ensures
        snake_case("ProjectCreated"@) == "project_created"@,
{
    reveal_strlit("ProjectCreated");
    reveal_strlit("project_created");
    let v = "ProjectCreated"@;
    let t = "project_created"@;
    assert(snake_case(v.take(0)) =~= t.take(0));
    assert(v.take(1).drop_last() =~= v.take(0));
    assert(snake_case(v.take(1)) =~= t.take(1));
    assert(v.take(2).drop_last() =~= v.take(1));
    assert(snake_case(v.take(2)) =~= t.take(2));
    assert(v.take(3).drop_last() =~= v.take(2));
    assert(snake_case(v.take(3)) =~= t.take(3));
    assert(v.take(4).drop_last() =~= v.take(3));
    assert(snake_case(v.take(4)) =~= t.take(4));
    assert(v.take(5).drop_last() =~= v.take(4));
    assert(snake_case(v.take(5)) =~= t.take(5));
    assert(v.take(6).drop_last() =~= v.take(5));
    assert(snake_case(v.take(6)) =~= t.take(6));
    assert(v.take(7).drop_last() =~= v.take(6));
    assert(snake_case(v.take(7)) =~= t.take(7));
    assert(v.take(8).drop_last() =~= v.take(7));
    assert(snake_case(v.take(8)) =~= t.take(9));
    assert(v.take(9).drop_last() =~= v.take(8));
    assert(snake_case(v.take(9)) =~= t.take(10));
    assert(v.take(10).drop_last() =~= v.take(9));
    assert(snake_case(v.take(10)) =~= t.take(11));
    assert(v.take(11).drop_last() =~= v.take(10));
    assert(snake_case(v.take(11)) =~= t.take(12));
    assert(v.take(12).drop_last() =~= v.take(11));
    assert(snake_case(v.take(12)) =~= t.take(13));
    assert(v.take(13).drop_last() =~= v.take(12));
    assert(snake_case(v.take(13)) =~= t.take(14));
    assert(v.take(14).drop_last() =~= v.take(13));
    assert(snake_case(v.take(14)) =~= t.take(15));
    assert(v.take(14) =~= v);
    assert(t.take(15) =~= t);
}

proof fn lemma_snake_project_updated()
    ensures
        snake_case("ProjectUpdated"@) == "project_updated"@,
{
    reveal_strlit("ProjectUpdated");
    reveal_strlit("project_updated");
    let v = "ProjectUpdated"@;
    let t = "project_updated"@;
    assert(snake_case(v.take(0)) =~= t.take(0));
    assert(v.take(1).drop_last() =~= v.take(0));
    assert(snake_case(v.take(1)) =~= t.take(1));
    assert(v.take(2).drop_last() =~= v.take(1));
    assert(snake_case(v.take(2)) =~= t.take(2));
    assert(v.take(3).drop_last() =~= v.take(2));
    assert(snake_case(v.take(3)) =~= t.take(3));
    assert(v.take(4).drop_last() =~= v.take(3));
    assert(snake_case(v.take(4)) =~= t.take(4));
    assert(v.take(5).drop_last() =~= v.take(4));
    assert(snake_case(v.take(5)) =~= t.take(5));
    assert(v.take(6).drop_last() =~= v.take(5));
    assert(snake_case(v.take(6)) =~= t.take(6));
    assert(v.take(7).drop_last() =~= v.take(6));
    assert(snake_case(v.take(7)) =~= t.take(7));
    assert(v.take(8).drop_last() =~= v.take(7));
    assert(snake_case(v.take(8)) =~= t.take(9));
    assert(v.take(9).drop_last() =~= v.take(8));
    assert(snake_case(v.take(9)) =~= t.take(10));
    assert(v.take(10).drop_last() =~= v.take(9));
    assert(snake_case(v.take(10)) =~= t.take(11));
    assert(v.take(11).drop_last() =~= v.take(10));
    assert(snake_case(v.take(11)) =~= t.take(12));
    assert(v.take(12).drop_last() =~= v.take(11));
    assert(snake_case(v.take(12)) =~= t.take(13));
    assert(v.take(13).drop_last() =~= v.take(12));
    assert(snake_case(v.take(13)) =~= t.take(14));
    assert(v.take(14).drop_last() =~= v.take(13));
    assert(snake_case(v.take(14)) =~= t.take(15));
    assert(v.take(14) =~= v);
    assert(t.take(15) =~= t);
}

proof fn lemma_snake_todo_created()
    ensures
        snake_case("TodoCreated"@) == "todo_created"@,
{
    reveal_strlit("TodoCreated");
    reveal_strlit("todo_created");
    let v = "TodoCreated"@;
    let t = "todo_created"@;
    assert(snake_case(v.take(0)) =~= t.take(0));
    assert(v.take(1).drop_last() =~= v.take(0));
    assert(snake_case(v.take(1)) =~= t.take(1));
    assert(v.take(2).drop_last() =~= v.take(1));
    assert(snake_case(v.take(2)) =~= t.take(2));
    assert(v.take(3).drop_last() =~= v.take(2));
    assert(snake_case(v.take(3)) =~= t.take(3));
    assert(v.take(4).drop_last() =~= v.take(3));
    assert(snake_case(v.take(4)) =~= t.take(4));
    assert(v.take(5).drop_last() =~= v.take(4));
    assert(snake_case(v.take(5)) =~= t.take(6));
    assert(v.take(6).drop_last() =~= v.take(5));
    assert(snake_case(v.take(6)) =~= t.take(7));
    assert(v.take(7).drop_last() =~= v.take(6));
    assert(snake_case(v.take(7)) =~= t.take(8));
    assert(v.take(8).drop_last() =~= v.take(7));
    assert(snake_case(v.take(8)) =~= t.take(9));
    assert(v.take(9).drop_last() =~= v.take(8));
    assert(snake_case(v.take(9)) =~= t.take(10));
    assert(v.take(10).drop_last() =~= v.take(9));
    assert(snake_case(v.take(10)) =~= t.take(11));
    assert(v.take(11).drop_last() =~= v.take(10));
    assert(snake_case(v.take(11)) =~= t.take(12));
    assert(v.take(11) =~= v);
    assert(t.take(12) =~= t);
}

proof fn lemma_snake_todo_updated()
    ensures
        snake_case("TodoUpdated"@) == "todo_updated"@,
{
    reveal_strlit("TodoUpdated");
    reveal_strlit("todo_updated");
    let v = "TodoUpdated"@;
    let t = "todo_updated"@;
    assert(snake_case(v.take(0)) =~= t.take(0));
    assert(v.take(1).drop_last() =~= v.take(0));
    assert(snake_case(v.take(1)) =~= t.take(1));
    assert(v.take(2).drop_last() =~= v.take(1));
    assert(snake_case(v.take(2)) =~= t.take(2));
    assert(v.take(3).drop_last() =~= v.take(2));
    assert(snake_case(v.take(3)) =~= t.take(3));
    assert(v.take(4).drop_last() =~= v.take(3));
    assert(snake_case(v.take(4)) =~= t.take(4));
    assert(v.take(5).drop_last() =~= v.take(4));
    assert(snake_case(v.take(5)) =~= t.take(6));
    assert(v.take(6).drop_last() =~= v.take(5));
    assert(snake_case(v.take(6)) =~= t.take(7));
    assert(v.take(7).drop_last() =~= v.take(6));
    assert(snake_case(v.take(7)) =~= t.take(8));
    assert(v.take(8).drop_last() =~= v.take(7));
    assert(snake_case(v.take(8)) =~= t.take(9));
    assert(v.take(9).drop_last() =~= v.take(8));
    assert(snake_case(v.take(9)) =~= t.take(10));
    assert(v.take(10).drop_last() =~= v.take(9));
    assert(snake_case(v.take(10)) =~= t.take(11));
    assert(v.take(11).drop_last() =~= v.take(10));
    assert(snake_case(v.take(11)) =~= t.take(12));
    assert(v.take(11) =~= v);
    assert(t.take(12) =~= t);
}

proof fn lemma_snake_capture_status_changed()
    ensures
        snake_case("CaptureStatusChanged"@) == "capture_status_changed"@,
{
    reveal_strlit("CaptureStatusChanged");
    reveal_strlit("capture_status_changed");
    let v = "CaptureStatusChanged"@;
    let t = "capture_status_changed"@;
    assert(snake_case(v.take(0)) =~= t.take(0));
    assert(v.take(1).drop_last() =~= v.take(0));
    assert(snake_case(v.take(1)) =~= t.take(1));
    assert(v.take(2).drop_last() =~= v.take(1));
    assert(snake_case(v.take(2)) =~= t.take(2));
    assert(v.take(3).drop_last() =~= v.take(2));
    assert(snake_case(v.take(3)) =~= t.take(3));
    assert(v.take(4).drop_last() =~= v.take(3));
    assert(snake_case(v.take(4)) =~= t.take(4));
    assert(v.take(5).drop_last() =~= v.take(4));
    assert(snake_case(v.take(5)) =~= t.take(5));
    assert(v.take(6).drop_last() =~= v.take(5));
    assert(snake_case(v.take(6)) =~= t.take(6));
    assert(v.take(7).drop_last() =~= v.take(6));
    assert(snake_case(v.take(7)) =~= t.take(7));
    assert(v.take(8).drop_last() =~= v.take(7));
    assert(snake_case(v.take(8)) =~= t.take(9));
    assert(v.take(9).drop_last() =~= v.take(8));
    assert(snake_case(v.take(9)) =~= t.take(10));
    assert(v.take(10).drop_last() =~= v.take(9));
    assert(snake_case(v.take(10)) =~= t.take(11));
    assert(v.take(11).drop_last() =~= v.take(10));
    assert(snake_case(v.take(11)) =~= t.take(12));
    assert(v.take(12).drop_last() =~= v.take(11));
    assert(snake_case(v.take(12)) =~= t.take(13));
    assert(v.take(13).drop_last() =~= v.take(12));
    assert(snake_case(v.take(13)) =~= t.take(14));
    assert(v.take(14).drop_last() =~= v.take(13));
    assert(snake_case(v.take(14)) =~= t.take(16));
    assert(v.take(15).drop_last() =~= v.take(14));
    assert(snake_case(v.take(15)) =~= t.take(17));
    assert(v.take(16).drop_last() =~= v.take(15));
    assert(snake_case(v.take(16)) =~= t.take(18));
    assert(v.take(17).drop_last() =~= v.take(16));
    assert(snake_case(v.take(17)) =~= t.take(19));
    assert(v.take(18).drop_last() =~= v.take(17));
    assert(snake_case(v.take(18)) =~= t.take(20));
    assert(v.take(19).drop_last() =~= v.take(18));
    assert(snake_case(v.take(19)) =~= t.take(21));
    assert(v.take(20).drop_last() =~= v.take(19));
    assert(snake_case(v.take(20)) =~= t.take(22));
    assert(v.take(20) =~= v);
    assert(t.take(22) =~= t);
}

/// The `id:` line of a frame: the envelope's event id.
pub open spec fn event_id_of(e: StreamEnvelope) -> u64 {
    match e {
        StreamEnvelope::NoteCreated { event_id, .. } => event_id,
        StreamEnvelope::NoteUpdated { event_id, .. } => event_id,
        StreamEnvelope::ProjectCreated { event_id, .. } => event_id,
        StreamEnvelope::ProjectUpdated { event_id, .. } => event_id,
        StreamEnvelope::TodoCreated { event_id, .. } => event_id,
        StreamEnvelope::TodoUpdated { event_id, .. } => event_id,
        StreamEnvelope::CaptureStatusChanged { event_id, .. } => event_id,
    }
}

impl StreamEnvelope {
    /// The frame's event name.
    pub fn event_name(&self) -> (s: &'static str)
        ensures
            s@ == event_name_of(*self),
    {
        match self {
            StreamEnvelope::NoteCreated { .. } => "note_created",
            StreamEnvelope::NoteUpdated { .. } => "note_updated",
            StreamEnvelope::ProjectCreated { .. } => "project_created",
            StreamEnvelope::ProjectUpdated { .. } => "project_updated",
            StreamEnvelope::TodoCreated { .. } => "todo_created",
            StreamEnvelope::TodoUpdated { .. } => "todo_updated",
            StreamEnvelope::CaptureStatusChanged { .. } => "capture_status_changed",
        }
    }

    /// The frame's event id.
    pub fn event_id(&self) -> (id: u64)
        ensures
            id == event_id_of(*self),
    {
        match self {
            StreamEnvelope::NoteCreated { event_id, .. } => *event_id,
            StreamEnvelope::NoteUpdated { event_id, .. } => *event_id,
            StreamEnvelope::ProjectCreated { event_id, .. } => *event_id,
            StreamEnvelope::ProjectUpdated { event_id, .. } => *event_id,
            StreamEnvelope::TodoCreated { event_id, .. } => *event_id,
            StreamEnvelope::TodoUpdated { event_id, .. } => *event_id,
            StreamEnvelope::CaptureStatusChanged { event_id, .. } => *event_id,
        }
    }
}

/// The source of event ids: each broadcast takes the next one, starting at 1.
#[derive(Debug)]
pub struct EventSequence {
    last: u64,
}

impl EventSequence {
    /// The id most recently handed out (0 before the first).
    pub closed spec fn last_id(&self) -> u64 {
        self.last
    }

    /// A sequence that has handed out nothing.
    pub fn new() -> (s: Self)
        ensures
            s.last_id() == 0,
    {
        EventSequence { last: 0 }
    }

    /// The id most recently handed out (0 before the first).
    pub fn last(&self) -> (id: u64)
        ensures
            id == self.last_id(),
    {
        self.last
    }

    /// Hands out the next id.
    pub fn next_id(&mut self) -> (id: u64)
        requires
            old(self).last_id() < u64::MAX,
        ensures
            id == old(self).last_id() + 1,
            final(self).last_id() == id,
    {
        self.last = self.last + 1;
        self.last
    }

    /// The `note_created` envelope of a note, with the next id.
    pub fn note_created(&mut self, note: NoteResponse) -> (e: StreamEnvelope)
        requires
            old(self).last_id() < u64::MAX,
        ensures
            e == (StreamEnvelope::NoteCreated { event_id: (old(self).last_id() + 1) as u64, payload: note }),
            final(self).last_id() == old(self).last_id() + 1,
    {
        let event_id = self.next_id();
        StreamEnvelope::NoteCreated { event_id, payload: note }
    }
}

/// Each event id handed out is greater than every one before it: for two successive
/// calls, the second id is the first plus one.
pub proof fn law_event_ids_increase(s0: EventSequence, s1: EventSequence, s2: EventSequence, a: u64, b: u64)
    requires
        a == s0.last_id() + 1,
        s1.last_id() == a,
        b == s1.last_id() + 1,
        s2.last_id() == b,
    ensures
        a < b,
        b == a + 1,
        s0.last_id() < s2.last_id(),
{
}

} // verus!
