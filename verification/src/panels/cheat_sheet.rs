//! The keyboard-shortcut cheat sheet: which shortcut groups it shows.

use vstd::prelude::*;

verus! {

/// Where a shortcut applies.
#[derive(Clone, Copy, Debug, PartialEq, Eq, Structural)]
pub enum ShortcutContext {
    Global,
    ImageViewer,
    SignalPlotter,
}

/// The groups shown for a filter: the selected one alone, or every group in
/// display order when none is selected.
pub open spec fn shown_contexts(selected: Option<ShortcutContext>) -> Seq<ShortcutContext> {
    match selected {
        Some(c) => seq![c],
        None => seq![ShortcutContext::Global, ShortcutContext::ImageViewer, ShortcutContext::SignalPlotter],
    }
}

/// The cheat sheet and its context filter.
pub struct CheatSheetPanel {
    /// The selected context, or `None` for all.
    pub selected_context: Option<ShortcutContext>,
}

impl CheatSheetPanel {
    /// A cheat sheet showing every context.
    pub fn new() -> (r: CheatSheetPanel)
        ensures
            r.selected_context is None,
    {
        CheatSheetPanel { selected_context: None }
    }

    /// Choose the context filter (`None` shows all).
    pub fn select(&mut self, context: Option<ShortcutContext>)
        ensures
            final(self).selected_context == context,
    {
        self.selected_context = context;
    }

    /// The contexts whose shortcuts are listed, in display order.
    pub fn contexts_to_show(&self) -> (r: Vec<ShortcutContext>)
        ensures
            r@ == shown_contexts(self.selected_context),
    {
        match self.selected_context {
            Some(c) => vec![c],
            None => vec![ShortcutContext::Global, ShortcutContext::ImageViewer, ShortcutContext::SignalPlotter],
        }
    }
}

} // verus!
