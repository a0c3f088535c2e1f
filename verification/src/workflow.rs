//! Workflow data as returned from the remote server, and the text
//! the workflow commands print for it.

use vstd::prelude::*;

use crate::text::chars_to_string;
use crate::text::push_all;
use crate::text::push_str_chars;
use crate::text::str_chars;

verus! {

/// Workflow information returned from the server.
pub struct WorkflowInfo {
    pub name: String,
    pub description: String,
    pub parameters: Vec<WorkflowParameter>,
}

/// Workflow parameter definition.
pub struct WorkflowParameter {
    pub name: String,
    pub description: String,
    pub required: bool,
    pub param_type: String,
    pub default: Option<String>,
}

/// Workflow execution status.
pub struct WorkflowStatus {
    pub id: String,
    pub name: String,
    pub status: ExecutionStatus,
    pub started_at: String,
    pub finished_at: Option<String>,
    pub output: Option<String>,
    pub error: Option<String>,
}

/// Execution status of a workflow run.
#[derive(Clone, Copy, Debug, PartialEq, Eq, Structural)]
pub enum ExecutionStatus {
    Pending,
    Running,
    Completed,
    Failed,
    Cancelled,
}

/// The rendered form of each execution status.
pub open spec fn spec_execution_status_label(s: ExecutionStatus) -> Seq<char> {
    match s {
        ExecutionStatus::Pending => "pending"@,
        ExecutionStatus::Running => "running"@,
        ExecutionStatus::Completed => "completed"@,
        ExecutionStatus::Failed => "failed"@,
        ExecutionStatus::Cancelled => "cancelled"@,
    }
}

impl ExecutionStatus {
    /// Render the status for display.
    pub fn label(&self) -> (r: String)
        ensures
            r@ == spec_execution_status_label(*self),
    {
        match self {
            ExecutionStatus::Pending => chars_to_string(&str_chars("pending")),
            ExecutionStatus::Running => chars_to_string(&str_chars("running")),
            ExecutionStatus::Completed => chars_to_string(&str_chars("completed")),
            ExecutionStatus::Failed => chars_to_string(&str_chars("failed")),
            ExecutionStatus::Cancelled => chars_to_string(&str_chars("cancelled")),
        }
    }
}

/// One parameter's usage line in the workflow info view: the
/// requirement marker only when the parameter is required, the
/// default clause only when it has a default.
pub open spec fn spec_param_usage_line(p: &WorkflowParameter) -> Seq<char> {
    let required = if p.required {
        " (required)"@
    } else {
        Seq::<char>::empty()
    };
    let dflt = match p.default {
        Some(d) => " [default: "@ + d@ + "]"@,
        None => Seq::<char>::empty(),
    };
    "  --"@ + p.name@ + " <string>"@ + required + dflt
}

impl WorkflowParameter {
    /// The usage line the workflow info view prints for this
    /// parameter.
    pub fn usage_line(&self) -> (r: String)
        ensures
            r@ == spec_param_usage_line(self),
    {
        let mut out: Vec<char> = Vec::new();
        push_str_chars(&mut out, "  --");
        push_all(&mut out, &str_chars(self.name.as_str()));
        push_str_chars(&mut out, " <string>");
        if self.required {
            push_str_chars(&mut out, " (required)");
        }
        match &self.default {
            Some(d) => {
                push_str_chars(&mut out, " [default: ");
                push_all(&mut out, &str_chars(d.as_str()));
                push_str_chars(&mut out, "]");
            },
            None => {},
        }
        proof {
            assert(out@ =~= spec_param_usage_line(self));
        }
        chars_to_string(&out)
    }
}

} // verus!
