//! The slot for the active provider.
use super::{LlmError, LlmErrorView};
use vstd::prelude::*;

verus! {

/// Holds the active provider, if there is one.
pub struct ProviderSlot<P> {
    provider: Option<P>,
}

impl<P> ProviderSlot<P> {
    /// The active provider.
    pub closed spec fn active(&self) -> Option<P> {
        self.provider
    }

    /// A slot without a provider.
    pub fn new() -> (s: ProviderSlot<P>)
        ensures
            s.active() is None,
    {
        ProviderSlot { provider: None }
    }

    /// Install a provider. Replaces any previous one.
    pub fn set_provider(&mut self, provider: P)
        ensures
            final(self).active() == Some(provider),
    {
        self.provider = Some(provider);
    }

    /// Clear the active provider (back to "not configured" behaviour).
    pub fn clear_provider(&mut self)
        ensures
            final(self).active() is None,
    {
        self.provider = None;
    }

    /// True if a provider is configured.
    pub fn is_configured(&self) -> (b: bool)
        ensures
            b == (self.active() is Some),
    {
        self.provider.is_some()
    }

    /// The active provider, or the error that there is none.
    pub fn require(&self) -> (r: Result<&P, LlmError>)
        ensures
            match r {
                Ok(p) => self.active() == Some(*p),
                Err(e) => self.active() is None && e.deep_view() == LlmErrorView::NotConfigured,
            },
    {
        match &self.provider {
            Some(p) => Ok(p),
            None => Err(LlmError::NotConfigured),
        }
    }
}

} // verus!
