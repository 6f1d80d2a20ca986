//! Normalization of a session action request and the acceptance response.

use vstd::prelude::*;
use crate::ids::{EventId, SessionId, TaskId, UtcMillis};
use crate::text::{chars_of, join, join_strings, decimal, non_empty_trimmed, opt_as_str, opt_str_view, opt_string_view, str_to_string, string_from_chars, string_views, trim, trim_chars, trimmed_non_empty, usize_to_decimal};

verus! {

/// An image attached to a session action.
#[derive(Clone, Debug)]
pub struct SessionActionImageDto {
    pub name: String,
    pub data_url: String,
}

/// A user action submitted to a session.
#[derive(Clone, Debug)]
pub struct SessionActionRequestDto {
    pub session_id: Option<String>,
    pub workspace_id: Option<String>,
    pub text: Option<String>,
    pub deep_task: bool,
    pub skill_name: Option<String>,
    pub images: Vec<SessionActionImageDto>,
}

/// The acceptance record returned for a session action.
#[derive(Clone, Debug)]
pub struct SessionActionResponseDto {
    pub session_id: String,
    pub entry_id: String,
    pub event_id: String,
    pub accepted_at: UtcMillis,
    pub created_session: bool,
    pub root_task_id: Option<String>,
    pub action_task_id: Option<String>,
}

/// Longest task title, in characters.
pub const TASK_TITLE_CHAR_LIMIT: usize = 80;

/// The first 80 characters of `value`, trimmed.
pub open spec fn task_title(value: Seq<char>) -> Seq<char> {
    trim(if value.len() <= 80 { value } else { value.take(80) })
}

/// The mission title: the normalized text, or `新任务` when that is empty.
pub open spec fn spec_mission_title(trimmed_text: Option<Seq<char>>) -> Seq<char> {
    match trimmed_text {
        Some(t) => if task_title(t).len() > 0 { task_title(t) } else { "新任务"@ },
        None => "新任务"@,
    }
}

/// The lines that describe an action in the timeline, in order.
pub open spec fn timeline_lines(
    skill_name: Option<Seq<char>>,
    trimmed_text: Option<Seq<char>>,
    image_count: nat,
    deep_task: bool,
) -> Seq<Seq<char>> {
    let skill = match non_empty_trimmed(skill_name) {
        Some(s) => seq!["/"@ + s],
        None => Seq::<Seq<char>>::empty(),
    };
    let text = match trimmed_text {
        Some(t) => seq![t],
        None => Seq::<Seq<char>>::empty(),
    };
    let images = if image_count > 0 {
        seq!["[图片 "@ + decimal(image_count) + " 张]"@]
    } else {
        Seq::<Seq<char>>::empty()
    };
    let deep = if deep_task {
        seq!["[深度任务]"@]
    } else {
        Seq::<Seq<char>>::empty()
    };
    skill + text + images + deep
}

/// The timeline message: the lines joined by newlines, or `[空输入]`.
pub open spec fn spec_timeline_message(lines: Seq<Seq<char>>) -> Seq<char> {
    if lines.len() == 0 {
        "[空输入]"@
    } else {
        join(lines, "\n"@)
    }
}

/// `value.chars().take(80).collect::<String>().trim().to_string()`.
pub fn normalize_task_title(value: &str) -> (r: String)
    ensures
        r@ == task_title(value@),
{
    let chars = chars_of(value);
    let mut head: Vec<char> = Vec::new();
    let mut i: usize = 0;
    while i < chars.len() && i < TASK_TITLE_CHAR_LIMIT
        invariant
            i <= chars@.len(),
            i <= 80,
            head@ == chars@.take(i as int),
        decreases chars@.len() - i,
    {
        head.push(chars[i]);
        assert(chars@.take(i + 1) == chars@.take(i as int).push(chars@[i as int]));
        i = i + 1;
    }
    assert(head@ == (if value@.len() <= 80 { value@ } else { value@.take(80) }));
    let t = trim_chars(head.as_slice());
    string_from_chars(t.as_slice())
}

impl SessionActionRequestDto {
    /// The task title derived from the trimmed text.
    pub fn mission_title(&self, trimmed_text: Option<&str>) -> (r: String)
        ensures
            r@ == spec_mission_title(opt_str_view(trimmed_text)),
    {
        match trimmed_text {
            Some(t) => {
                let title = normalize_task_title(t);
                let chars = chars_of(title.as_str());
                if chars.len() > 0 {
                    title
                } else {
                    str_to_string("新任务")
                }
            }
            None => str_to_string("新任务"),
        }
    }

    /// The requested session, trimmed, when not blank.
    pub fn requested_session_id(&self) -> (r: Option<SessionId>)
        ensures
            r is Some <==> non_empty_trimmed(opt_string_view(self.session_id)) is Some,
            r is Some ==> Some(r->0.value@) == non_empty_trimmed(opt_string_view(self.session_id)),
    {
        match trimmed_non_empty(opt_as_str(&self.session_id)) {
            Some(v) => Some(SessionId::new(v)),
            None => None,
        }
    }

    /// The requested workspace, trimmed, when not blank.
    pub fn requested_workspace_id(&self) -> (r: Option<String>)
        ensures
            opt_string_view(r) == non_empty_trimmed(opt_string_view(self.workspace_id)),
    {
        trimmed_non_empty(opt_as_str(&self.workspace_id))
    }

    /// The text, trimmed, when not blank.
    pub fn trimmed_text(&self) -> (r: Option<String>)
        ensures
            opt_string_view(r) == non_empty_trimmed(opt_string_view(self.text)),
    {
        trimmed_non_empty(opt_as_str(&self.text))
    }

    /// The message that the timeline shows for this action.
    pub fn timeline_message(&self, trimmed_text: Option<&str>) -> (r: String)
        ensures
            r@ == spec_timeline_message(
                timeline_lines(
                    opt_string_view(self.skill_name),
                    opt_str_view(trimmed_text),
                    self.images@.len(),
                    self.deep_task,
                ),
            ),
    {
        let ghost skill_name = opt_string_view(self.skill_name);
        let ghost text = opt_str_view(trimmed_text);
        let mut lines: Vec<String> = Vec::new();
        if let Some(skill) = trimmed_non_empty(opt_as_str(&self.skill_name)) {
            let mut line = str_to_string("/");
            line.append(skill.as_str());
            lines.push(line);
        }
        let ghost after_skill = lines@;
        if let Some(t) = trimmed_text {
            lines.push(str_to_string(t));
        }
        let ghost after_text = lines@;
        if self.images.len() > 0 {
            let mut line = str_to_string("[图片 ");
            let count = usize_to_decimal(self.images.len());
            line.append(count.as_str());
            line.append(" 张]");
            lines.push(line);
        }
        let ghost after_images = lines@;
        if self.deep_task {
            lines.push(str_to_string("[深度任务]"));
        }
        proof {
            let expected = timeline_lines(skill_name, text, self.images@.len(), self.deep_task);
            assert(string_views(lines@) == expected);
        }
        if lines.len() == 0 {
            str_to_string("[空输入]")
        } else {
            join_strings(&lines, "\n")
        }
    }

    /// Whether the action itself asks for execution: a deep task, a skill or
    /// attached images.
    pub fn has_execution_trigger(&self) -> (r: bool)
        ensures
            r == (self.deep_task || non_empty_trimmed(opt_string_view(self.skill_name)) is Some
                || self.images@.len() > 0),
    {
        self.deep_task || trimmed_non_empty(opt_as_str(&self.skill_name)).is_some()
            || self.images.len() > 0
    }
}

impl SessionActionResponseDto {
    pub fn new(
        session_id: SessionId,
        entry_id: String,
        event_id: EventId,
        accepted_at: UtcMillis,
        created_session: bool,
        root_task_id: Option<TaskId>,
        action_task_id: Option<TaskId>,
    ) -> (dto: Self)
        ensures
            dto.session_id@ == session_id.value@,
            dto.entry_id@ == entry_id@,
            dto.event_id@ == event_id.value@,
            dto.accepted_at == accepted_at,
            dto.created_session == created_session,
            dto.root_task_id is Some == root_task_id is Some,
            root_task_id is Some ==> dto.root_task_id->0@ == root_task_id->0.value@,
            dto.action_task_id is Some == action_task_id is Some,
            action_task_id is Some ==> dto.action_task_id->0@ == action_task_id->0.value@,
    {
        SessionActionResponseDto {
            session_id: session_id.value,
            entry_id,
            event_id: event_id.value,
            accepted_at,
            created_session,
            root_task_id: match root_task_id {
                Some(t) => Some(t.value),
                None => None,
            },
            action_task_id: match action_task_id {
                Some(t) => Some(t.value),
                None => None,
            },
        }
    }
}

} // verus!
