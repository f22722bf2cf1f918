use vstd::prelude::*;
use vstd::string::StringExecFns;

verus! {

/// Everything that can go wrong in a session, each with the detail it carries.
#[derive(Debug, PartialEq, Eq)]
pub enum AgentError {
    /// The model backend could not be reached, refused the request or sent
    /// something unreadable.
    ApiError(String),
    /// A tool ran and reported a failure of its own.
    ToolError(String),
    /// A file operation failed; the detail is the operating system's message.
    FileError(String),
    /// A JSON document did not have the expected shape; the detail is the
    /// decoder's message.
    JsonError(String),
    /// Anything else.
    Unknown(String),
}

/// The mathematical content of an [`AgentError`].
pub enum AgentErrorView {
    ApiError(Seq<char>),
    ToolError(Seq<char>),
    FileError(Seq<char>),
    JsonError(Seq<char>),
    Unknown(Seq<char>),
}

impl View for AgentError {
    type V = AgentErrorView;

    open spec fn view(&self) -> AgentErrorView {
        match self {
            AgentError::ApiError(detail) => AgentErrorView::ApiError(detail@),
            AgentError::ToolError(detail) => AgentErrorView::ToolError(detail@),
            AgentError::FileError(detail) => AgentErrorView::FileError(detail@),
            AgentError::JsonError(detail) => AgentErrorView::JsonError(detail@),
            AgentError::Unknown(detail) => AgentErrorView::Unknown(detail@),
        }
    }
}

impl AgentErrorView {
    /// The words that introduce each kind of failure.
    pub open spec fn prefix(self) -> Seq<char> {
        match self {
            AgentErrorView::ApiError(_) => "API error: "@,
            AgentErrorView::ToolError(_) => "Tool execution error: "@,
            AgentErrorView::FileError(_) => "File operation error: "@,
            AgentErrorView::JsonError(_) => "JSON parsing error: "@,
            AgentErrorView::Unknown(_) => "Unknown error: "@,
        }
    }

    /// The detail that the failure carries.
    pub open spec fn detail(self) -> Seq<char> {
        match self {
            AgentErrorView::ApiError(detail) => detail,
            AgentErrorView::ToolError(detail) => detail,
            AgentErrorView::FileError(detail) => detail,
            AgentErrorView::JsonError(detail) => detail,
            AgentErrorView::Unknown(detail) => detail,
        }
    }

    /// The text shown for the failure: its prefix, then its detail.
    pub open spec fn message(self) -> Seq<char> {
        self.prefix() + self.detail()
    }
}

impl AgentError {
    /// The text shown for this failure.
    pub fn message(&self) -> (text: String)
        ensures
            text@ == self@.message(),
    {
        match self {
            AgentError::ApiError(detail) => String::from_str("API error: ").concat(detail.as_str()),
            AgentError::ToolError(detail) => String::from_str("Tool execution error: ").concat(
                detail.as_str(),
            ),
            AgentError::FileError(detail) => String::from_str("File operation error: ").concat(
                detail.as_str(),
            ),
            AgentError::JsonError(detail) => String::from_str("JSON parsing error: ").concat(
                detail.as_str(),
            ),
            AgentError::Unknown(detail) => String::from_str("Unknown error: ").concat(
                detail.as_str(),
            ),
        }
    }

}

impl Clone for AgentError {
    fn clone(&self) -> (copy: AgentError)
        ensures
            copy@ == self@,
    {
        match self {
            AgentError::ApiError(detail) => AgentError::ApiError(detail.clone()),
            AgentError::ToolError(detail) => AgentError::ToolError(detail.clone()),
            AgentError::FileError(detail) => AgentError::FileError(detail.clone()),
            AgentError::JsonError(detail) => AgentError::JsonError(detail.clone()),
            AgentError::Unknown(detail) => AgentError::Unknown(detail.clone()),
        }
    }
}

} // verus!
