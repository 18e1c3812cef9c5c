//! Modal session state.
//!
//! One record per editor session carries the modal flags the host's own
//! mode enum does not: the visual sub-modes, the one-shot highlight
//! flag, the paste flavour, the hook toggles, and the last visual
//! selection for later restore.  The visual sub-modes are mutually
//! exclusive: entering one clears the other.

use vstd::prelude::*;
use crate::selection::Selection;

verus! {

/// A selection saved for a later restore, with the document it was
/// captured on.
pub struct SavedSelection {
    pub selection: Selection,
    pub doc_id: u64,
}

/// Session-wide modal flags and the saved visual selection.
pub struct ModalSessionState {
    pub visual_lines: bool,
    pub gv_visual_lines: bool,
    pub visual_blocks: bool,
    pub gv_visual_blocks: bool,
    pub highlight: bool,
    pub vim_paste: bool,
    pub cmd_hook_enabled: bool,
    pub vim_mode: bool,
    pub vim_pend_enable: bool,
    pub gv_selection: Option<SavedSelection>,
}

impl ModalSessionState {
    /// The visual sub-modes never hold together, neither live nor as
    /// saved with the last visual selection.
    pub open spec fn wf(self) -> bool {
        !(self.visual_lines && self.visual_blocks) && !(self.gv_visual_lines
            && self.gv_visual_blocks)
    }

    /// What a fresh session holds.
    pub open spec fn new_spec() -> ModalSessionState {
        ModalSessionState {
            visual_lines: false,
            gv_visual_lines: false,
            visual_blocks: false,
            gv_visual_blocks: false,
            highlight: false,
            vim_paste: false,
            cmd_hook_enabled: true,
            vim_mode: true,
            vim_pend_enable: false,
            gv_selection: None,
        }
    }

    /// Fresh session state: no sub-mode active, hook and modal layer
    /// enabled, nothing saved.
    pub fn new() -> (s: ModalSessionState)
        ensures
            s == ModalSessionState::new_spec(),
            s == (ModalSessionState {
                visual_lines: false,
                gv_visual_lines: false,
                visual_blocks: false,
                gv_visual_blocks: false,
                highlight: false,
                vim_paste: false,
                cmd_hook_enabled: true,
                vim_mode: true,
                vim_pend_enable: false,
                gv_selection: None::<SavedSelection>,
            }),
            s.wf(),
    {
        ModalSessionState {
            visual_lines: false,
            gv_visual_lines: false,
            visual_blocks: false,
            gv_visual_blocks: false,
            highlight: false,
            vim_paste: false,
            cmd_hook_enabled: true,
            vim_mode: true,
            vim_pend_enable: false,
            gv_selection: None,
        }
    }

    /// Save a selection for a later restore, together with the visual
    /// sub-mode it was captured in.
    pub fn set_gv_selection(&mut self, sel: Selection, id: u64)
        ensures
            *final(self) == (ModalSessionState {
                gv_selection: Some(SavedSelection { selection: sel, doc_id: id }),
                gv_visual_lines: old(self).visual_lines,
                gv_visual_blocks: old(self).visual_blocks,
                ..*old(self)
            }),
            old(self).wf() ==> final(self).wf(),
    {
        self.gv_selection = Some(SavedSelection { selection: sel, doc_id: id });
        self.gv_visual_lines = self.visual_lines;
        self.gv_visual_blocks = self.visual_blocks;
    }

    /// Recall the saved selection; the active visual sub-mode flags are
    /// restored to those captured with it.
    pub fn get_gv_selection(&mut self) -> (r: Option<SavedSelection>)
        ensures
            *final(self) == (ModalSessionState {
                visual_lines: old(self).gv_visual_lines,
                visual_blocks: old(self).gv_visual_blocks,
                ..*old(self)
            }),
            r is Some <==> old(self).gv_selection is Some,
            old(self).wf() ==> final(self).wf(),
            r is Some ==> {
                &&& r->0.selection.ranges@ == old(self).gv_selection->0.selection.ranges@
                &&& r->0.selection.primary_index == old(
                    self,
                ).gv_selection->0.selection.primary_index
                &&& r->0.doc_id == old(self).gv_selection->0.doc_id
            },
    {
        self.visual_lines = self.gv_visual_lines;
        self.visual_blocks = self.gv_visual_blocks;
        match &self.gv_selection {
            None => None,
            Some(saved) => {
                let sel = duplicate_selection(&saved.selection);
                Some(SavedSelection { selection: sel, doc_id: saved.doc_id })
            },
        }
    }

    /// Enter line-wise visual mode, leaving block-wise if it was active.
    pub fn visual_line(&mut self)
        ensures
            *final(self) == (ModalSessionState {
                visual_lines: true,
                visual_blocks: false,
                ..*old(self)
            }),
            old(self).wf() ==> final(self).wf(),
    {
        self.visual_lines = true;
        self.visual_blocks = false;
    }

    pub fn exit_visual_line(&mut self)
        ensures
            *final(self) == (ModalSessionState { visual_lines: false, ..*old(self) }),
            old(self).wf() ==> final(self).wf(),
    {
        self.visual_lines = false;
    }

    pub fn is_visual_line(&self) -> (r: bool)
        ensures
            r == self.visual_lines,
    {
        self.visual_lines
    }

    /// Enter block-wise visual mode, leaving line-wise if it was active.
    pub fn visual_block(&mut self)
        ensures
            *final(self) == (ModalSessionState {
                visual_blocks: true,
                visual_lines: false,
                ..*old(self)
            }),
            old(self).wf() ==> final(self).wf(),
    {
        self.visual_blocks = true;
        self.visual_lines = false;
    }

    pub fn exit_visual_block(&mut self)
        ensures
            *final(self) == (ModalSessionState { visual_blocks: false, ..*old(self) }),
            old(self).wf() ==> final(self).wf(),
    {
        self.visual_blocks = false;
    }

    /// Leave both visual sub-modes.
    pub fn exit_visual_modes(&mut self)
        ensures
            *final(self) == (ModalSessionState {
                visual_lines: false,
                visual_blocks: false,
                ..*old(self)
            }),
            old(self).wf() ==> final(self).wf(),
    {
        self.exit_visual_line();
        self.exit_visual_block();
    }

    pub fn is_visual_block(&self) -> (r: bool)
        ensures
            r == self.visual_blocks,
    {
        self.visual_blocks
    }

    /// Arm the one-shot flag that lets the next normalization pass keep
    /// a search-induced selection.
    pub fn allow_highlight(&mut self)
        ensures
            *final(self) == (ModalSessionState { highlight: true, ..*old(self) }),
            old(self).wf() ==> final(self).wf(),
    {
        self.highlight = true;
    }

    pub fn reset_highlight(&mut self)
        ensures
            *final(self) == (ModalSessionState { highlight: false, ..*old(self) }),
            old(self).wf() ==> final(self).wf(),
    {
        self.highlight = false;
    }

    pub fn is_highlight_allowed(&self) -> (r: bool)
        ensures
            r == self.highlight,
    {
        self.highlight
    }

    pub fn is_vim_paste(&self) -> (r: bool)
        ensures
            r == self.vim_paste,
    {
        self.vim_paste
    }

    pub fn set_vim_paste(&mut self, val: bool)
        ensures
            *final(self) == (ModalSessionState { vim_paste: val, ..*old(self) }),
            old(self).wf() ==> final(self).wf(),
    {
        self.vim_paste = val;
    }

    pub fn is_cmd_hook_enabled(&self) -> (r: bool)
        ensures
            r == self.cmd_hook_enabled,
    {
        self.cmd_hook_enabled
    }

    pub fn set_cmd_hook_enabled(&mut self, val: bool)
        ensures
            *final(self) == (ModalSessionState { cmd_hook_enabled: val, ..*old(self) }),
            old(self).wf() ==> final(self).wf(),
    {
        self.cmd_hook_enabled = val;
    }

    /// Turn the modal layer on or off; the hook follows the toggle.
    pub fn set_vim_mode(&mut self, val: bool)
        ensures
            *final(self) == (ModalSessionState {
                vim_mode: val,
                cmd_hook_enabled: val,
                ..*old(self)
            }),
            old(self).wf() ==> final(self).wf(),
    {
        self.vim_mode = val;
        self.set_cmd_hook_enabled(val);
    }

    pub fn is_vim_mode(&self) -> (r: bool)
        ensures
            r == self.vim_mode,
    {
        self.vim_mode
    }

    pub fn is_vim_pend_enable(&self) -> (r: bool)
        ensures
            r == self.vim_pend_enable,
    {
        self.vim_pend_enable
    }

    pub fn set_vim_pend_enable(&mut self, val: bool)
        ensures
            *final(self) == (ModalSessionState { vim_pend_enable: val, ..*old(self) }),
            old(self).wf() ==> final(self).wf(),
    {
        self.vim_pend_enable = val;
    }
}

/// A value-equal copy of a selection.
pub fn duplicate_selection(sel: &Selection) -> (s: Selection)
    ensures
        s.ranges@ == sel.ranges@,
        s.primary_index == sel.primary_index,
{
    let mut v: Vec<crate::range::TextRange> = Vec::new();
    let mut i: usize = 0;
    while i < sel.ranges.len()
        invariant
            i <= sel.ranges.len(),
            v@ == sel.ranges@.take(i as int),
        decreases sel.ranges.len() - i,
    {
        v.push(sel.ranges[i]);
        proof {
            assert(sel.ranges@.take(i + 1int) =~= sel.ranges@.take(i as int).push(
                sel.ranges@[i as int],
            ));
        }
        i = i + 1;
    }
    proof {
        assert(sel.ranges@.take(sel.ranges@.len() as int) =~= sel.ranges@);
    }
    Selection { ranges: v, primary_index: sel.primary_index }
}

} // verus!
