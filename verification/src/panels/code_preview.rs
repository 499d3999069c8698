//! The code preview: the script of the experiment graph, regenerated when
//! the panel is shown and the graph has changed.

use vstd::prelude::*;
use crate::graph::codegen::{graph_to_rhai_script, is_graph_script, name_of, Script};
use crate::graph::structure::GraphModel;

verus! {

/// Shows the script generated from the experiment graph.
pub struct CodePreviewPanel {
    script: Option<Script>,
    visible: bool,
    last_graph_version: u64,
}

impl CodePreviewPanel {
    /// The script shown, if one was generated.
    pub closed spec fn shown_script(&self) -> Option<Script> {
        self.script
    }

    pub closed spec fn shown(&self) -> bool {
        self.visible
    }

    /// The graph version the script was generated from.
    pub closed spec fn version(&self) -> u64 {
        self.last_graph_version
    }

    /// A hidden panel with no script, at graph version 0.
    pub fn new() -> (r: Self)
        ensures
            r.shown_script() is None,
            !r.shown(),
            r.version() == 0,
    {
        CodePreviewPanel { script: None, visible: false, last_graph_version: 0 }
    }

    /// Show or hide the panel.
    pub fn toggle(&mut self)
        ensures
            final(self).shown() == !old(self).shown(),
            final(self).shown_script() == old(self).shown_script(),
            final(self).version() == old(self).version(),
    {
        self.visible = !self.visible;
    }

    pub fn is_visible(&self) -> (r: bool)
        ensures
            r == self.shown(),
    {
        self.visible
    }

    /// Regenerate the script when the panel is shown and the graph version
    /// changed; a hidden panel does no work.
    pub fn update(&mut self, g: &GraphModel, graph_version: u64)
        requires
            g.wf(),
            g.nodes.len() + 2 <= usize::MAX,
        ensures
            final(self).shown() == old(self).shown(),
            (old(self).shown() && graph_version != old(self).version()) ==> {
                &&& final(self).version() == graph_version
                &&& final(self).shown_script() is Some
                &&& exists|timestamp: Seq<char>|
                    #[trigger] is_graph_script(*g, name_of(None), timestamp, final(self).shown_script()->Some_0.tokens())
            },
            !(old(self).shown() && graph_version != old(self).version()) ==> final(self).shown_script()
                == old(self).shown_script() && final(self).version() == old(self).version(),
    {
        if !self.visible {
            return;
        }
        if graph_version != self.last_graph_version {
            let script = graph_to_rhai_script(g, None);
            let ghost made = script;
            let ghost ts = choose|ts: Seq<char>| #[trigger] is_graph_script(*g, name_of(None), ts, made.tokens());
            self.script = Some(script);
            self.last_graph_version = graph_version;
            proof {
                assert(self.shown_script() == Some(made));
                assert(is_graph_script(*g, name_of(None), ts, self.shown_script()->Some_0.tokens()));
            }
        }
    }

    /// The script shown, if one was generated.
    pub fn script(&self) -> (r: Option<&Script>)
        ensures
            r == match self.shown_script() {
                Some(s) => Some(&s),
                None => None::<&Script>,
            },
    {
        match &self.script {
            Some(s) => Some(s),
            None => None,
        }
    }
}

} // verus!
