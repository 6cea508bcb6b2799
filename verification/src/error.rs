//! The failures that the library reports.

use vstd::prelude::*;

verus! {

/// A failure, by the part of the system it came from, with its message.
#[derive(Debug)]
pub enum ForgeError {
    Config(String),
    ConfigNotFound(String),
    GitHub(String),
    Git(String),
    Claude(String),
    Timeout(String),
    State(String),
    Io(String),
    Yaml(String),
    Json(String),
    Octocrab(String),
}

/// The mathematical content of a [`ForgeError`].
pub enum ForgeErrorView {
    Config(Seq<char>),
    ConfigNotFound(Seq<char>),
    GitHub(Seq<char>),
    Git(Seq<char>),
    Claude(Seq<char>),
    Timeout(Seq<char>),
    State(Seq<char>),
    Io(Seq<char>),
    Yaml(Seq<char>),
    Json(Seq<char>),
    Octocrab(Seq<char>),
}

impl DeepView for ForgeError {
    type V = ForgeErrorView;

    open spec fn deep_view(&self) -> ForgeErrorView {
        match self {
            ForgeError::Config(m) => ForgeErrorView::Config(m@),
            ForgeError::ConfigNotFound(m) => ForgeErrorView::ConfigNotFound(m@),
            ForgeError::GitHub(m) => ForgeErrorView::GitHub(m@),
            ForgeError::Git(m) => ForgeErrorView::Git(m@),
            ForgeError::Claude(m) => ForgeErrorView::Claude(m@),
            ForgeError::Timeout(m) => ForgeErrorView::Timeout(m@),
            ForgeError::State(m) => ForgeErrorView::State(m@),
            ForgeError::Io(m) => ForgeErrorView::Io(m@),
            ForgeError::Yaml(m) => ForgeErrorView::Yaml(m@),
            ForgeError::Json(m) => ForgeErrorView::Json(m@),
            ForgeError::Octocrab(m) => ForgeErrorView::Octocrab(m@),
        }
    }
}

impl View for ForgeError {
    type V = ForgeErrorView;

    open spec fn view(&self) -> ForgeErrorView {
        self.deep_view()
    }
}

impl ForgeErrorView {
    /// The words that introduce the message of each kind of failure.
    pub open spec fn label(self) -> Seq<char> {
        match self {
            ForgeErrorView::Config(_) => "config error: "@,
            ForgeErrorView::ConfigNotFound(_) => "config file not found: "@,
            ForgeErrorView::GitHub(_) => "github error: "@,
            ForgeErrorView::Git(_) => "git error: "@,
            ForgeErrorView::Claude(_) => "agent execution error: "@,
            ForgeErrorView::Timeout(_) => "timeout: "@,
            ForgeErrorView::State(_) => "state error: "@,
            ForgeErrorView::Io(_) => "io error: "@,
            ForgeErrorView::Yaml(_) => "yaml error: "@,
            ForgeErrorView::Json(_) => "json error: "@,
            ForgeErrorView::Octocrab(_) => "octocrab error: "@,
        }
    }

    /// The message that the failure carries.
    pub open spec fn message(self) -> Seq<char> {
        match self {
            ForgeErrorView::Config(m) => m,
            ForgeErrorView::ConfigNotFound(m) => m,
            ForgeErrorView::GitHub(m) => m,
            ForgeErrorView::Git(m) => m,
            ForgeErrorView::Claude(m) => m,
            ForgeErrorView::Timeout(m) => m,
            ForgeErrorView::State(m) => m,
            ForgeErrorView::Io(m) => m,
            ForgeErrorView::Yaml(m) => m,
            ForgeErrorView::Json(m) => m,
            ForgeErrorView::Octocrab(m) => m,
        }
    }

    /// The failure in words: its label, then its message.
    pub open spec fn text(self) -> Seq<char> {
        self.label() + self.message()
    }
}

impl ForgeError {
    /// The failure in words: its label, then its message.
    pub fn to_text(&self) -> (r: String)
        ensures
            r@ == self@.text(),
    {
        let (label, message) = match self {
            ForgeError::Config(m) => ("config error: ", m),
            ForgeError::ConfigNotFound(m) => ("config file not found: ", m),
            ForgeError::GitHub(m) => ("github error: ", m),
            ForgeError::Git(m) => ("git error: ", m),
            ForgeError::Claude(m) => ("agent execution error: ", m),
            ForgeError::Timeout(m) => ("timeout: ", m),
            ForgeError::State(m) => ("state error: ", m),
            ForgeError::Io(m) => ("io error: ", m),
            ForgeError::Yaml(m) => ("yaml error: ", m),
            ForgeError::Json(m) => ("json error: ", m),
            ForgeError::Octocrab(m) => ("octocrab error: ", m),
        };
        let mut out = String::from_str(label);
        out.append(message.as_str());
        out
    }
}

} // verus!
