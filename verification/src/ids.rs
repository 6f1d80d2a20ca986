//! Identifier newtypes carried by the request and response DTOs.

use vstd::prelude::*;

verus! {

/// Identifies a conversation session.
#[derive(Clone, Debug, PartialEq, Eq)]
pub struct SessionId {
    pub value: String,
}

/// Identifies a workspace.
#[derive(Clone, Debug, PartialEq, Eq)]
pub struct WorkspaceId {
    pub value: String,
}

/// Identifies a worker.
#[derive(Clone, Debug, PartialEq, Eq)]
pub struct WorkerId {
    pub value: String,
}

/// Identifies a task.
#[derive(Clone, Debug, PartialEq, Eq)]
pub struct TaskId {
    pub value: String,
}

/// Identifies a published event.
#[derive(Clone, Debug, PartialEq, Eq)]
pub struct EventId {
    pub value: String,
}

/// Milliseconds since the Unix epoch.
#[derive(Clone, Copy, Debug, PartialEq, Eq)]
pub struct UtcMillis {
    pub millis: u64,
}

impl SessionId {
    pub fn new(value: String) -> (id: Self)
        ensures
            id.value@ == value@,
    {
        SessionId { value }
    }

    pub fn as_str(&self) -> (s: &str)
        ensures
            s@ == self.value@,
    {
        self.value.as_str()
    }
}

impl WorkspaceId {
    pub fn new(value: String) -> (id: Self)
        ensures
            id.value@ == value@,
    {
        WorkspaceId { value }
    }

    pub fn as_str(&self) -> (s: &str)
        ensures
            s@ == self.value@,
    {
        self.value.as_str()
    }
}

impl WorkerId {
    pub fn new(value: String) -> (id: Self)
        ensures
            id.value@ == value@,
    {
        WorkerId { value }
    }

    pub fn as_str(&self) -> (s: &str)
        ensures
            s@ == self.value@,
    {
        self.value.as_str()
    }
}

impl TaskId {
    pub fn new(value: String) -> (id: Self)
        ensures
            id.value@ == value@,
    {
        TaskId { value }
    }

    pub fn as_str(&self) -> (s: &str)
        ensures
            s@ == self.value@,
    {
        self.value.as_str()
    }
}

impl EventId {
    pub fn new(value: String) -> (id: Self)
        ensures
            id.value@ == value@,
    {
        EventId { value }
    }

    pub fn as_str(&self) -> (s: &str)
        ensures
            s@ == self.value@,
    {
        self.value.as_str()
    }
}

} // verus!
