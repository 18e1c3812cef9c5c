//! The editor session model.
//!
//! One record carries everything a modal command touches: mode, the
//! document (text and handle), the active selection, registers, the
//! modal session state, the pending-key continuation, transient count
//! and register choices, the jumplist, edit history, and an outbox of
//! requests for capabilities only the host provides (regex search,
//! prompts, bracket matching).

use vstd::prelude::*;
use crate::operator::PendingInput;
use crate::registers::Registers;
use crate::selection::Selection;
use crate::state::ModalSessionState;

verus! {

/// The host's own mode enum, as far as the modal layer cares.
#[derive(Clone, Copy, PartialEq, Eq, Structural, Debug)]
pub enum Mode {
    Normal,
    Insert,
    Select,
}

/// A keypress handed to a pending continuation.
#[derive(Clone, Copy, PartialEq, Eq, Structural, Debug)]
pub enum KeyEvent {
    Char(char),
    Enter,
    Tab,
    Other,
}

/// Work only the host can do; commands queue these for the embedding
/// loop to perform.
#[derive(Clone, Copy, PartialEq, Eq, Structural, Debug)]
pub enum HostAction {
    /// Open the regex search prompt.
    PromptSearch { forward: bool },
    /// Jump to the next or previous match of the active search pattern.
    SearchNext { forward: bool },
    /// Open the select-by-regex prompt.
    SelectRegexPrompt,
    /// Move to the matching bracket.
    MatchBrackets,
    /// Reload the configuration after a toggle.
    ConfigRefresh,
}

/// Transient help panel published while a key is awaited.
#[derive(Clone, Copy, PartialEq, Eq, Structural, Debug)]
pub enum InfoPanel {
    ApplyModifier,
    MatchInside,
    MatchAround,
}

/// User-visible status and error reports.
#[derive(Clone, Copy, PartialEq, Eq, Structural, Debug)]
pub enum StatusMsg {
    /// How many fragments were yanked, and where.
    YankedSelections { count: usize, register: char },
    /// The search register was rewritten.
    RegisterSet { register: char },
    /// No word character at or after the cursor on its line.
    NoStringUnderCursor,
}

impl StatusMsg {
    /// The report as the user sees it.
    pub fn message(&self) -> (r: &'static str)
        ensures
            *self is NoStringUnderCursor ==> r@ == "No string under cursor"@,
    {
        match self {
            StatusMsg::YankedSelections { .. } => "yanked selections to register",
            StatusMsg::RegisterSet { .. } => "register set to pattern",
            StatusMsg::NoStringUnderCursor => "No string under cursor",
        }
    }
}

/// The slice of host configuration the modal layer reads.
#[derive(Clone, Copy, PartialEq, Eq, Structural, Debug)]
pub struct Config {
    pub smart_case: bool,
    pub default_yank_register: char,
}

/// A buffer state remembered for undo.
pub struct Snapshot {
    pub text: Vec<char>,
    pub selection: Selection,
}

/// One jumplist entry.
pub struct JumpEntry {
    pub doc_id: u64,
    pub selection: Selection,
}

/// The whole session.
pub struct Editor {
    pub mode: Mode,
    pub text: Vec<char>,
    pub doc_id: u64,
    pub selection: Selection,
    pub registers: Registers,
    pub state: ModalSessionState,
    pub pending: PendingInput,
    pub count: Option<usize>,
    pub register: Option<char>,
    pub jumplist: Vec<JumpEntry>,
    pub autoinfo: Option<InfoPanel>,
    pub status: Option<StatusMsg>,
    pub host_calls: Vec<HostAction>,
    pub config: Config,
    pub history: Vec<Snapshot>,
}

impl Editor {
    /// Session well-formedness: the selection fits the text, the visual
    /// sub-modes exclude each other, a count is never zero.
    pub open spec fn wf(self) -> bool {
        &&& self.selection.wf(self.text@.len() as int)
        &&& self.state.wf()
        &&& self.count != Some(0usize)
        &&& self.text@.len() < usize::MAX
    }

    /// A fresh session over the given document, in normal mode with a
    /// cursor at the start.
    pub fn new(text: Vec<char>, doc_id: u64) -> (ed: Editor)
        requires
            text@.len() < usize::MAX,
        ensures
            ed.wf(),
            ed.text@ == text@,
            ed.doc_id == doc_id,
            ed.mode == Mode::Normal,
            ed.selection.ranges@ =~= seq![
                crate::range::TextRange { anchor: 0usize, head: 0usize },
            ],
            ed.state == ModalSessionState::new_spec(),
            ed.pending == PendingInput::Idle,
            ed.count is None,
            ed.register is None,
            ed.host_calls@.len() == 0,
            ed.history@.len() == 0,
            ed.jumplist@.len() == 0,
            forall|c: char| ed.registers.contents(c) is None,
            ed.config == (Config { smart_case: false, default_yank_register: '"' }),
    {
        Editor {
            mode: Mode::Normal,
            text,
            doc_id,
            selection: Selection::point(0),
            registers: Registers::new(),
            state: ModalSessionState::new(),
            pending: PendingInput::Idle,
            count: None,
            register: None,
            jumplist: Vec::new(),
            autoinfo: None,
            status: None,
            host_calls: Vec::new(),
            config: Config { smart_case: false, default_yank_register: '"' },
            history: Vec::new(),
        }
    }

    /// The effective count: the numeric prefix, or one.
    pub fn effective_count(&self) -> (r: usize)
        requires
            self.count != Some(0usize),
        ensures
            r == self.count_spec(),
            r >= 1,
    {
        match self.count {
            Some(n) => n,
            None => 1,
        }
    }

    pub open spec fn count_spec(self) -> int {
        match self.count {
            Some(n) => n as int,
            None => 1,
        }
    }

    /// Remember the current position in the jumplist.
    pub fn push_jump(&mut self)
        ensures
            *final(self) == (Editor { jumplist: final(self).jumplist, ..*old(self) }),
            final(self).jumplist@.len() == old(self).jumplist@.len() + 1,
            forall|i: int|
                0 <= i < old(self).jumplist@.len() ==> final(self).jumplist@[i] == old(
                    self,
                ).jumplist@[i],
            final(self).jumplist@.last().doc_id == old(self).doc_id,
            final(self).jumplist@.last().selection.ranges@ == old(self).selection.ranges@,
    {
        let sel = crate::state::duplicate_selection(&self.selection);
        self.jumplist.push(JumpEntry { doc_id: self.doc_id, selection: sel });
    }

    /// Save the active selection for a later visual restore.
    pub fn save_current_selection(&mut self)
        ensures
            *final(self) == (Editor { state: final(self).state, ..*old(self) }),
            final(self).state == (ModalSessionState {
                gv_selection: final(self).state.gv_selection,
                gv_visual_lines: old(self).state.visual_lines,
                gv_visual_blocks: old(self).state.visual_blocks,
                ..old(self).state
            }),
            final(self).state.gv_selection is Some,
            final(self).state.gv_selection->0.doc_id == old(self).doc_id,
            final(self).state.gv_selection->0.selection.ranges@ == old(self).selection.ranges@,
            final(self).state.gv_selection->0.selection.primary_index == old(
                self,
            ).selection.primary_index,
    {
        let sel = crate::state::duplicate_selection(&self.selection);
        let id = self.doc_id;
        self.state.set_gv_selection(sel, id);
    }

    /// Queue a request for the host.
    pub fn push_host_call(&mut self, action: HostAction)
        ensures
            *final(self) == (Editor { host_calls: final(self).host_calls, ..*old(self) }),
            final(self).host_calls@ == old(self).host_calls@.push(action),
    {
        self.host_calls.push(action);
    }

    /// Record the buffer and selection so the edit about to happen can
    /// be undone.
    pub fn snapshot(&mut self)
        ensures
            *final(self) == (Editor { history: final(self).history, ..*old(self) }),
            final(self).history@.len() == old(self).history@.len() + 1,
            forall|i: int|
                0 <= i < old(self).history@.len() ==> final(self).history@[i] == old(
                    self,
                ).history@[i],
            final(self).history@.last().text@ == old(self).text@,
            final(self).history@.last().selection.ranges@ == old(self).selection.ranges@,
            final(self).history@.last().selection.primary_index == old(
                self,
            ).selection.primary_index,
    {
        let text = crate::registers::duplicate_chars(&self.text);
        let sel = crate::state::duplicate_selection(&self.selection);
        self.history.push(Snapshot { text, selection: sel });
    }

    /// Restore the most recent snapshot, undoing the last recorded
    /// edit; without history this does nothing.
    pub fn undo(&mut self)
        ensures
            old(self).history@.len() == 0 ==> *final(self) == *old(self),
            old(self).history@.len() > 0 ==> {
                &&& final(self).text@ == old(self).history@.last().text@
                &&& final(self).selection.ranges@ == old(self).history@.last().selection.ranges@
                &&& final(self).selection.primary_index == old(
                    self,
                ).history@.last().selection.primary_index
                &&& final(self).history@ == old(self).history@.drop_last()
                &&& *final(self) == (Editor {
                    text: final(self).text,
                    selection: final(self).selection,
                    history: final(self).history,
                    ..*old(self)
                })
            },
    {
        if self.history.len() > 0 {
            match self.history.pop() {
                None => {},
                Some(snap) => {
                    self.text = snap.text;
                    self.selection = snap.selection;
                },
            }
        }
    }
}

} // verus!
