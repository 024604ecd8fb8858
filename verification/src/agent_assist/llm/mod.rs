//! Structured understanding of free-form requests.
//!
//! A model is given a message and a list of tools, and proposes a call of one of them. The tools in
//! [`super::tools`] remain the source of truth: the model is an adapter from free-form input to
//! typed tool input. Output that cannot be read, or that names an unknown tool, never leads to a
//! tool being run.
use super::types::Confidence;
use crate::containers::Dup;
use crate::text;
use crate::text::{decimal, Line};
use vstd::prelude::*;

pub mod global;
pub mod mock;
pub mod openai;
pub mod prompts;
pub mod router;

verus! {

broadcast use vstd::string::group_string_axioms;

/// The mathematical content of a [`ToolDescriptor`].
pub struct ToolDescriptorView {
    pub name: Seq<char>,
    pub description: Seq<char>,
    pub args_hint: Seq<char>,
}

/// Description of a tool advertised to the model.
#[derive(Debug)]
pub struct ToolDescriptor {
    pub name: String,
    pub description: String,
    /// A brief, human-readable schema sketch.
    pub args_hint: String,
}

impl DeepView for ToolDescriptor {
    type V = ToolDescriptorView;

    open spec fn deep_view(&self) -> ToolDescriptorView {
        ToolDescriptorView {
            name: self.name.deep_view(),
            description: self.description.deep_view(),
            args_hint: self.args_hint.deep_view(),
        }
    }
}

impl Dup for ToolDescriptor {
    fn dup(&self) -> (r: ToolDescriptor) {
        ToolDescriptor {
            name: self.name.dup(),
            description: self.description.dup(),
            args_hint: self.args_hint.dup(),
        }
    }
}

/// The mathematical content of a [`ClassificationContext`].
pub struct ClassificationContextView {
    pub available_tools: Seq<ToolDescriptorView>,
    pub caller_tier: Seq<char>,
}

/// Context passed to the model for classification.
#[derive(Debug)]
pub struct ClassificationContext {
    pub available_tools: Vec<ToolDescriptor>,
    /// Coarse caller tier as a lowercase string.
    pub caller_tier: &'static str,
}

impl DeepView for ClassificationContext {
    type V = ClassificationContextView;

    open spec fn deep_view(&self) -> ClassificationContextView {
        ClassificationContextView {
            available_tools: self.available_tools.deep_view(),
            caller_tier: self.caller_tier.deep_view(),
        }
    }
}

/// The mathematical content of a [`ToolIntent`].
pub struct ToolIntentView {
    pub tool: Seq<char>,
    pub args: Seq<char>,
    pub confidence: Confidence,
    pub summary: Option<Seq<char>>,
}

/// Structured intent extracted from the agent's free-form message.
#[derive(Debug)]
pub struct ToolIntent {
    /// Tool name. Validated against the advertised list before any execution.
    pub tool: String,
    /// Args extracted from the message, as JSON text.
    pub args: String,
    /// Model's self-reported confidence.
    pub confidence: Confidence,
    /// Brief one-line description of what the model thinks the user is asking.
    pub summary: Option<String>,
}

impl DeepView for ToolIntent {
    type V = ToolIntentView;

    open spec fn deep_view(&self) -> ToolIntentView {
        ToolIntentView {
            tool: self.tool.deep_view(),
            args: self.args.deep_view(),
            confidence: self.confidence.deep_view(),
            summary: self.summary.deep_view(),
        }
    }
}

impl Dup for ToolIntent {
    fn dup(&self) -> (r: ToolIntent) {
        ToolIntent {
            tool: self.tool.dup(),
            args: self.args.dup(),
            confidence: self.confidence.dup(),
            summary: self.summary.dup(),
        }
    }
}

/// The mathematical content of a [`LlmError`].
pub enum LlmErrorView {
    NotConfigured,
    Transport(Seq<char>),
    Timeout(u64),
    Unparseable(Seq<char>),
}

/// Errors a provider can raise. Always recoverable.
#[derive(Debug)]
pub enum LlmError {
    NotConfigured,
    Transport(String),
    Timeout(u64),
    Unparseable(String),
}

impl DeepView for LlmError {
    type V = LlmErrorView;

    open spec fn deep_view(&self) -> LlmErrorView {
        match self {
            LlmError::NotConfigured => LlmErrorView::NotConfigured,
            LlmError::Transport(x) => LlmErrorView::Transport(x.deep_view()),
            LlmError::Timeout(x) => LlmErrorView::Timeout(x.deep_view()),
            LlmError::Unparseable(x) => LlmErrorView::Unparseable(x.deep_view()),
        }
    }
}

/// What an error says.
pub open spec fn error_text(e: LlmErrorView) -> Seq<char> {
    match e {
        LlmErrorView::NotConfigured => "provider not configured"@,
        LlmErrorView::Transport(s) => "provider transport error: "@ + s,
        LlmErrorView::Timeout(n) => "provider timeout after "@ + text::decimal_spec(n as nat)
            + "s"@,
        LlmErrorView::Unparseable(s) => "provider returned unparseable response: "@ + s,
    }
}

impl LlmError {
    /// What the error says.
    pub fn to_string(&self) -> (r: String)
        ensures
            r@ == error_text(self.deep_view()),
    {
        match self {
            LlmError::NotConfigured => "provider not configured".to_owned(),
            LlmError::Transport(s) => Line::new("provider transport error: ").add(
                s.as_str(),
            ).done(),
            LlmError::Timeout(n) => Line::new("provider timeout after ").add(
                decimal(*n as u128).as_str(),
            ).add("s").done(),
            LlmError::Unparseable(s) => Line::new(
                "provider returned unparseable response: ",
            ).add(s.as_str()).done(),
        }
    }
}

} // verus!
