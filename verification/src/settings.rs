//! The settings that govern hints, and the kinds of hint a user lets through.

use vstd::prelude::*;

verus! {

/// The kind of a hint. A provider may also report a hint without a kind.
#[derive(Clone, Copy, Debug, PartialEq, Eq, Hash, Structural)]
pub enum InlayHintKind {
    Type,
    Parameter,
}

/// The hint settings of a document, as configuration gives them.
#[derive(Clone, Copy, Debug, PartialEq, Eq, Structural)]
pub struct InlayHintSettings {
    pub enabled: bool,
    pub show_value_hints: bool,
    pub edit_debounce_ms: u64,
    pub scroll_debounce_ms: u64,
    pub show_type_hints: bool,
    pub show_parameter_hints: bool,
    pub show_other_hints: bool,
    pub show_background: bool,
}

/// The set of kinds that are shown. `None` stands for hints without a kind.
#[derive(Clone, Copy, Debug, PartialEq, Eq, Structural)]
pub struct AllowedHintKinds {
    pub type_hints: bool,
    pub parameter_hints: bool,
    pub other_hints: bool,
}

impl View for AllowedHintKinds {
    type V = Set<Option<InlayHintKind>>;

    open spec fn view(&self) -> Set<Option<InlayHintKind>> {
        Set::new(|kind: Option<InlayHintKind>| self.allows(kind))
    }
}

impl AllowedHintKinds {
    /// Whether hints of `kind` are shown.
    pub open spec fn allows(self, kind: Option<InlayHintKind>) -> bool {
        match kind {
            Some(InlayHintKind::Type) => self.type_hints,
            Some(InlayHintKind::Parameter) => self.parameter_hints,
            None => self.other_hints,
        }
    }

    pub fn contains(&self, kind: Option<InlayHintKind>) -> (r: bool)
        ensures
            r == self@.contains(kind),
            r == self.allows(kind),
    {
        match kind {
            Some(InlayHintKind::Type) => self.type_hints,
            Some(InlayHintKind::Parameter) => self.parameter_hints,
            None => self.other_hints,
        }
    }

    /// Two filters are equal exactly when they let the same kinds through.
    pub proof fn lemma_view_is_injective(self, other: AllowedHintKinds)
        ensures
            (self@ == other@) <==> (self == other),
    {
        if self@ == other@ {
            assert(self@.contains(Some(InlayHintKind::Type)) == other@.contains(
                Some(InlayHintKind::Type),
            ));
            assert(self@.contains(Some(InlayHintKind::Parameter)) == other@.contains(
                Some(InlayHintKind::Parameter),
            ));
            assert(self@.contains(None) == other@.contains(None));
        }
    }
}

impl InlayHintSettings {
    /// The kinds that these settings show.
    pub open spec fn spec_enabled_inlay_hint_kinds(&self) -> AllowedHintKinds {
        AllowedHintKinds {
            type_hints: self.show_type_hints,
            parameter_hints: self.show_parameter_hints,
            other_hints: self.show_other_hints,
        }
    }

    #[verifier::when_used_as_spec(spec_enabled_inlay_hint_kinds)]
    pub fn enabled_inlay_hint_kinds(&self) -> (r: AllowedHintKinds)
        ensures
            r == self.spec_enabled_inlay_hint_kinds(),
            forall|kind: Option<InlayHintKind>|
                r@.contains(kind) <==> match kind {
                    Some(InlayHintKind::Type) => self.show_type_hints,
                    Some(InlayHintKind::Parameter) => self.show_parameter_hints,
                    None => self.show_other_hints,
                },
    {
        AllowedHintKinds {
            type_hints: self.show_type_hints,
            parameter_hints: self.show_parameter_hints,
            other_hints: self.show_other_hints,
        }
    }
}

/// A debounce of no milliseconds is no debounce.
pub open spec fn spec_debounce_value(debounce_ms: u64) -> Option<u64> {
    if debounce_ms > 0 {
        Some(debounce_ms)
    } else {
        None
    }
}

/// The delay, in milliseconds, that a setting of `debounce_ms` asks for.
#[verifier::when_used_as_spec(spec_debounce_value)]
pub fn debounce_value(debounce_ms: u64) -> (r: Option<u64>)
    ensures
        r == spec_debounce_value(debounce_ms),
{
    if debounce_ms > 0 {
        Some(debounce_ms)
    } else {
        None
    }
}

} // verus!
