//! Why hints are refreshed, and what a refresh does to the hints at hand.

use vstd::prelude::*;

use crate::hint::{ExcerptId, LanguageId, LanguageServerId};
use crate::settings::InlayHintSettings;

verus! {

/// What a fetch does to the hints that the cache already holds for a document.
#[derive(Clone, Copy, Debug, PartialEq, Eq, Structural)]
pub enum InvalidationStrategy {
    /// The provider asked for a refresh: everything visible is queried again and
    /// replaces what was cached. The update need not be instant.
    RefreshRequested,
    /// A document was edited: everything visible is queried again and replaces
    /// what was cached, after a debounce that keeps fast typing from flooding
    /// the provider.
    BufferEdited,
    /// New lines came into view: nothing cached is dropped, new hints are added.
    Additive,
}

impl InvalidationStrategy {
    pub open spec fn spec_should_invalidate(&self) -> bool {
        *self is RefreshRequested || *self is BufferEdited
    }

    /// Whether a fetch under this strategy drops the hints cached before it.
    #[verifier::when_used_as_spec(spec_should_invalidate)]
    pub fn should_invalidate(&self) -> (r: bool)
        ensures
            r == self.spec_should_invalidate(),
            r <==> !(*self is Additive),
    {
        match self {
            InvalidationStrategy::RefreshRequested | InvalidationStrategy::BufferEdited => true,
            InvalidationStrategy::Additive => false,
        }
    }
}

/// The event that asks for a refresh of the hints.
#[derive(Debug)]
pub enum InlayHintRefreshReason {
    /// The key that overrides the display of hints went down or up.
    ModifiersChanged(bool),
    /// The user switched hints on or off.
    Toggle(bool),
    /// Configuration changed.
    SettingsChange(InlayHintSettings),
    /// Scrolling brought new lines into view.
    NewLinesShown,
    /// Documents in the given languages were edited.
    BufferEdited(Vec<LanguageId>),
    /// The provider asked for a refresh.
    RefreshRequested(LanguageServerId),
    /// Excerpts left the view.
    ExcerptsRemoved(Vec<ExcerptId>),
}

impl InlayHintRefreshReason {
    /// The name of the reason, for a log.
    pub open spec fn spec_description(&self) -> Seq<char> {
        match self {
            InlayHintRefreshReason::ModifiersChanged(_) => "modifiers changed"@,
            InlayHintRefreshReason::Toggle(_) => "toggle"@,
            InlayHintRefreshReason::SettingsChange(_) => "settings change"@,
            InlayHintRefreshReason::NewLinesShown => "new lines shown"@,
            InlayHintRefreshReason::BufferEdited(_) => "buffer edited"@,
            InlayHintRefreshReason::RefreshRequested(_) => "refresh requested"@,
            InlayHintRefreshReason::ExcerptsRemoved(_) => "excerpts removed"@,
        }
    }

    pub fn description(&self) -> (r: &'static str)
        ensures
            r@ == self.spec_description(),
    {
        match self {
            InlayHintRefreshReason::ModifiersChanged(_) => "modifiers changed",
            InlayHintRefreshReason::Toggle(_) => "toggle",
            InlayHintRefreshReason::SettingsChange(_) => "settings change",
            InlayHintRefreshReason::NewLinesShown => "new lines shown",
            InlayHintRefreshReason::BufferEdited(_) => "buffer edited",
            InlayHintRefreshReason::RefreshRequested(_) => "refresh requested",
            InlayHintRefreshReason::ExcerptsRemoved(_) => "excerpts removed",
        }
    }

    /// The strategy of the fetches that the reason itself asks for. The reasons
    /// that change the policy ask for none: what they do depends on the policy.
    pub open spec fn spec_strategy(&self) -> Option<InvalidationStrategy> {
        match self {
            InlayHintRefreshReason::NewLinesShown => Some(InvalidationStrategy::Additive),
            InlayHintRefreshReason::BufferEdited(_) => Some(InvalidationStrategy::BufferEdited),
            InlayHintRefreshReason::RefreshRequested(_) => Some(
                InvalidationStrategy::RefreshRequested,
            ),
            _ => None,
        }
    }

    #[verifier::when_used_as_spec(spec_strategy)]
    pub fn strategy(&self) -> (r: Option<InvalidationStrategy>)
        ensures
            r == self.spec_strategy(),
    {
        match self {
            InlayHintRefreshReason::NewLinesShown => Some(InvalidationStrategy::Additive),
            InlayHintRefreshReason::BufferEdited(_) => Some(InvalidationStrategy::BufferEdited),
            InlayHintRefreshReason::RefreshRequested(_) => Some(
                InvalidationStrategy::RefreshRequested,
            ),
            _ => None,
        }
    }

    /// Whether the fetches that follow the reason go out at once. Only an edit
    /// and a scroll are debounced.
    pub open spec fn spec_ignores_debounce(&self) -> bool {
        !(*self is NewLinesShown || *self is BufferEdited)
    }

    #[verifier::when_used_as_spec(spec_ignores_debounce)]
    pub fn ignores_debounce(&self) -> (r: bool)
        ensures
            r == self.spec_ignores_debounce(),
    {
        match self {
            InlayHintRefreshReason::NewLinesShown | InlayHintRefreshReason::BufferEdited(_) => false,
            _ => true,
        }
    }

    /// The languages that an edit touched; no other reason names any.
    pub fn required_languages(&self) -> (r: Option<&Vec<LanguageId>>)
        ensures
            r == (match self {
                InlayHintRefreshReason::BufferEdited(languages) => Some(languages),
                _ => None,
            }),
    {
        match self {
            InlayHintRefreshReason::BufferEdited(languages) => Some(languages),
            _ => None,
        }
    }
}

} // verus!
