//! Context data as returned from the remote server, and the text
//! lines the context commands print for it.

use vstd::prelude::*;

use crate::text::chars_to_string;
use crate::text::push_all;
use crate::text::push_dec;
use crate::text::push_str_chars;
use crate::text::spec_dec;
use crate::text::str_chars;

verus! {

/// Context information returned from the server.
pub struct ContextInfo {
    pub id: String,
    pub project: String,
    pub title: String,
    pub status: String,
    pub file_path: String,
    pub created_at: String,
    pub updated_at: String,
    pub next_actions_count: usize,
}

/// Context detail with full content.
pub struct ContextDetail {
    pub id: String,
    pub project: String,
    pub title: String,
    pub status: String,
    pub file_path: String,
    pub content: String,
    pub next_actions: Vec<NextAction>,
}

/// Next action from a context.
pub struct NextAction {
    pub test_name: String,
    pub description: String,
    pub outcome: String,
    pub status: ActionStatus,
}

/// Action status.
#[derive(Clone, Copy, Debug, PartialEq, Eq, Structural)]
pub enum ActionStatus {
    Pending,
    InProgress,
    Done,
    Blocked,
}

/// The rendered form of each action status.
pub open spec fn spec_action_status_label(s: ActionStatus) -> Seq<char> {
    match s {
        ActionStatus::Pending => "pending"@,
        ActionStatus::InProgress => "in-progress"@,
        ActionStatus::Done => "done"@,
        ActionStatus::Blocked => "blocked"@,
    }
}

impl ActionStatus {
    /// Render the status for display.
    pub fn label(&self) -> (r: String)
        ensures
            r@ == spec_action_status_label(*self),
    {
        match self {
            ActionStatus::Pending => chars_to_string(&str_chars("pending")),
            ActionStatus::InProgress => chars_to_string(&str_chars("in-progress")),
            ActionStatus::Done => chars_to_string(&str_chars("done")),
            ActionStatus::Blocked => chars_to_string(&str_chars("blocked")),
        }
    }
}

/// One context's line in the context listing.
pub open spec fn spec_context_line(c: &ContextInfo) -> Seq<char> {
    "  "@ + c.id@ + " ["@ + c.project@ + "/"@ + c.status@ + "] - "@ + c.title@ + " ("@ + spec_dec(
        c.next_actions_count as int,
    ) + " actions)"@
}

impl ContextInfo {
    /// The line the context listing prints for this context.
    pub fn summary_line(&self) -> (r: String)
        ensures
            r@ == spec_context_line(self),
    {
        let mut out: Vec<char> = Vec::new();
        push_str_chars(&mut out, "  ");
        push_all(&mut out, &str_chars(self.id.as_str()));
        push_str_chars(&mut out, " [");
        push_all(&mut out, &str_chars(self.project.as_str()));
        push_str_chars(&mut out, "/");
        push_all(&mut out, &str_chars(self.status.as_str()));
        push_str_chars(&mut out, "] - ");
        push_all(&mut out, &str_chars(self.title.as_str()));
        push_str_chars(&mut out, " (");
        push_dec(&mut out, self.next_actions_count as u64);
        push_str_chars(&mut out, " actions)");
        chars_to_string(&out)
    }
}

/// One action's line in a context's detail view.
pub open spec fn spec_action_line(a: &NextAction) -> Seq<char> {
    "  ["@ + spec_action_status_label(a.status) + "] "@ + a.test_name@ + " - "@ + a.description@
}

impl NextAction {
    /// The line the context detail view prints for this action.
    pub fn summary_line(&self) -> (r: String)
        ensures
            r@ == spec_action_line(self),
    {
        let mut out: Vec<char> = Vec::new();
        push_str_chars(&mut out, "  [");
        let label = self.status.label();
        push_all(&mut out, &str_chars(label.as_str()));
        push_str_chars(&mut out, "] ");
        push_all(&mut out, &str_chars(self.test_name.as_str()));
        push_str_chars(&mut out, " - ");
        push_all(&mut out, &str_chars(self.description.as_str()));
        chars_to_string(&out)
    }
}

} // verus!
