//! The undo/redo history of executed commands.
use vstd::prelude::*;

use crate::commands::{
    command_consistent, command_description, command_effect, command_rebuilds,
    law_effect_redo_after_undo, law_effect_undo_after_execute, Command, CommandView, RenderState,
};
use crate::project::{dirtied, Project, ProjectView};

verus! {

/// The two stacks of the history, as values.
pub struct HistoryView {
    pub undo: Seq<CommandView>,
    pub redo: Seq<CommandView>,
}

pub open spec fn commands_view(s: Seq<Command>) -> Seq<CommandView> {
    Seq::new(s.len(), |i: int| s[i]@)
}

/// The history after executing `c`, and the project it leaves.
pub open spec fn execute_step(h: HistoryView, p: ProjectView, c: CommandView) -> (HistoryView, ProjectView) {
    (HistoryView { undo: h.undo.push(c), redo: seq![] }, dirtied(command_effect(p, c, true)))
}

/// The history after an undo, and the project it leaves: the last executed
/// command is undone and moves to the redo stack; with nothing to undo,
/// nothing changes.
pub open spec fn undo_step(h: HistoryView, p: ProjectView) -> (HistoryView, ProjectView) {
    if h.undo.len() == 0 {
        (h, p)
    } else {
        let c = h.undo.last();
        (HistoryView { undo: h.undo.drop_last(), redo: h.redo.push(c) }, dirtied(command_effect(p, c, false)))
    }
}

/// The history after a redo, and the project it leaves.
pub open spec fn redo_step(h: HistoryView, p: ProjectView) -> (HistoryView, ProjectView) {
    if h.redo.len() == 0 {
        (h, p)
    } else {
        let c = h.redo.last();
        (HistoryView { undo: h.undo.push(c), redo: h.redo.drop_last() }, dirtied(command_effect(p, c, true)))
    }
}

/// Stores command history for undo/redo.
#[derive(Debug)]
pub struct CommandHistory {
    /// Commands that have been executed, the last on top.
    undo_stack: Vec<Command>,
    /// Commands that have been undone, the last on top.
    redo_stack: Vec<Command>,
}

impl View for CommandHistory {
    type V = HistoryView;

    closed spec fn view(&self) -> HistoryView {
        HistoryView { undo: commands_view(self.undo_stack@), redo: commands_view(self.redo_stack@) }
    }
}

impl CommandHistory {
    /// An empty history.
    pub fn new() -> (r: CommandHistory)
        ensures
            r@.undo.len() == 0,
            r@.redo.len() == 0,
    {
        let r = CommandHistory { undo_stack: Vec::new(), redo_stack: Vec::new() };
        proof {
            assert(r@.undo.len() == 0);
        }
        r
    }

    /// Executes a command and records it; the redo stack is cleared.
    pub fn execute(&mut self, command: Command, project: &mut Project, render_state: &mut RenderState)
        ensures
            (final(self)@, final(project)@) == execute_step(old(self)@, old(project)@, command@),
            final(render_state).needs_rebuild == (command_rebuilds(command@) || old(render_state).needs_rebuild),
    {
        command.execute(project, render_state);
        let ghost c = command@;
        let ghost before = self@;
        self.undo_stack.push(command);
        self.redo_stack.clear();
        project.mark_dirty();
        proof {
            assert(commands_view(self.undo_stack@) =~= before.undo.push(c));
            assert(commands_view(self.redo_stack@) =~= Seq::<CommandView>::empty());
        }
    }

    /// Undoes the last executed command, if any.
    pub fn undo(&mut self, project: &mut Project, render_state: &mut RenderState)
        ensures
            (final(self)@, final(project)@) == undo_step(old(self)@, old(project)@),
            final(render_state).needs_rebuild == (if old(self)@.undo.len() > 0 {
                command_rebuilds(old(self)@.undo.last()) || old(render_state).needs_rebuild
            } else {
                old(render_state).needs_rebuild
            }),
    {
        let ghost before = self@;
        match self.undo_stack.pop() {
            Some(command) => {
                proof {
                    assert(commands_view(self.undo_stack@) =~= before.undo.drop_last());
                    assert(command@ == before.undo.last());
                }
                command.undo(project, render_state);
                self.redo_stack.push(command);
                project.mark_dirty();
                proof {
                    assert(commands_view(self.redo_stack@) =~= before.redo.push(before.undo.last()));
                }
            },
            None => {},
        }
    }

    /// Redoes the last undone command, if any.
    pub fn redo(&mut self, project: &mut Project, render_state: &mut RenderState)
        ensures
            (final(self)@, final(project)@) == redo_step(old(self)@, old(project)@),
            final(render_state).needs_rebuild == (if old(self)@.redo.len() > 0 {
                command_rebuilds(old(self)@.redo.last()) || old(render_state).needs_rebuild
            } else {
                old(render_state).needs_rebuild
            }),
    {
        let ghost before = self@;
        match self.redo_stack.pop() {
            Some(command) => {
                proof {
                    assert(commands_view(self.redo_stack@) =~= before.redo.drop_last());
                    assert(command@ == before.redo.last());
                }
                command.execute(project, render_state);
                self.undo_stack.push(command);
                project.mark_dirty();
                proof {
                    assert(commands_view(self.undo_stack@) =~= before.undo.push(before.redo.last()));
                }
            },
            None => {},
        }
    }

    /// Whether there is a command to undo.
    pub fn can_undo(&self) -> (r: bool)
        ensures
            r == (self@.undo.len() > 0),
    {
        self.undo_stack.len() > 0
    }

    /// Whether there is a command to redo.
    pub fn can_redo(&self) -> (r: bool)
        ensures
            r == (self@.redo.len() > 0),
    {
        self.redo_stack.len() > 0
    }

    /// The label of the command an undo would undo.
    pub fn undo_description(&self) -> (r: Option<&str>)
        ensures
            match r {
                Some(s) => self@.undo.len() > 0 && s@ == command_description(self@.undo.last()),
                None => self@.undo.len() == 0,
            },
    {
        let n = self.undo_stack.len();
        if n > 0 {
            Some(self.undo_stack[n - 1].description())
        } else {
            None
        }
    }

    /// The label of the command a redo would redo.
    pub fn redo_description(&self) -> (r: Option<&str>)
        ensures
            match r {
                Some(s) => self@.redo.len() > 0 && s@ == command_description(self@.redo.last()),
                None => self@.redo.len() == 0,
            },
    {
        let n = self.redo_stack.len();
        if n > 0 {
            Some(self.redo_stack[n - 1].description())
        } else {
            None
        }
    }

    /// Forgets all history.
    pub fn clear(&mut self)
        ensures
            final(self)@.undo.len() == 0,
            final(self)@.redo.len() == 0,
    {
        self.undo_stack.clear();
        self.redo_stack.clear();
    }

    /// Records a command whose changes are already applied (as during
    /// painting), without executing it; the redo stack is cleared.
    pub fn push_undo(&mut self, command: Command)
        ensures
            final(self)@ == (HistoryView { undo: old(self)@.undo.push(command@), redo: seq![] }),
    {
        let ghost before = self@;
        let ghost c = command@;
        self.undo_stack.push(command);
        self.redo_stack.clear();
        proof {
            assert(commands_view(self.undo_stack@) =~= before.undo.push(c));
            assert(commands_view(self.redo_stack@) =~= Seq::<CommandView>::empty());
        }
    }
}

/// Undo after execute: when a command records the state it changes, undoing
/// it right after executing it restores the project (still marked modified)
/// and leaves the command alone on the redo stack.
pub proof fn law_undo_after_execute(h: HistoryView, p: ProjectView, c: CommandView)
    requires
        command_consistent(p, c),
    ensures
        ({
            let (h1, p1) = execute_step(h, p, c);
            let (h2, p2) = undo_step(h1, p1);
            &&& h2 == (HistoryView { undo: h.undo, redo: seq![c] })
            &&& p2 == dirtied(p)
        }),
{
    let (h1, p1) = execute_step(h, p, c);
    law_effect_undo_after_execute(p, c);
    assert(h1.undo.drop_last() =~= h.undo);
    assert(h1.redo.push(c) =~= seq![c]);
    let q = command_effect(p, c, true);
    assert(command_effect(dirtied(q), c, false) == command_effect(q, c, false));
}

/// Redo after undo: redoing what was just undone brings back the history
/// and the project of before the undo.
pub proof fn law_redo_after_undo(h: HistoryView, p: ProjectView)
    requires
        h.undo.len() > 0,
    ensures
        ({
            let (h1, p1) = undo_step(h, p);
            redo_step(h1, p1) == (HistoryView { undo: h.undo, redo: h.redo }, dirtied(
                command_effect(command_effect(p, h.undo.last(), false), h.undo.last(), true),
            ))
        }),
{
    let (h1, p1) = undo_step(h, p);
    assert(h1.undo.push(h.undo.last()) =~= h.undo);
    assert(h1.redo.drop_last() =~= h.redo);
}

/// Execute, undo, redo: the project and the history end as they were right
/// after the execute, whatever the command records.
pub proof fn law_execute_undo_redo(h: HistoryView, p: ProjectView, c: CommandView)
    ensures
        ({
            let (h1, p1) = execute_step(h, p, c);
            let (h2, p2) = undo_step(h1, p1);
            redo_step(h2, p2) == (h1, p1)
        }),
{
    let (h1, p1) = execute_step(h, p, c);
    let (h2, p2) = undo_step(h1, p1);
    assert(h1.undo.drop_last() =~= h.undo);
    assert(h2.undo.push(c) =~= h1.undo);
    assert(h2.redo.drop_last() =~= h1.redo);
    law_effect_redo_after_undo(p, c);
    let q = command_effect(p, c, true);
    assert(command_effect(dirtied(q), c, false) == command_effect(q, c, false));
    let r = command_effect(q, c, false);
    assert(command_effect(dirtied(r), c, true) == command_effect(r, c, true));
}

/// Executing a command always leaves something to undo and nothing to redo.
pub proof fn law_execute_enables_undo(h: HistoryView, p: ProjectView, c: CommandView)
    ensures
        execute_step(h, p, c).0.undo.len() == h.undo.len() + 1,
        execute_step(h, p, c).0.undo.last() == c,
        execute_step(h, p, c).0.redo.len() == 0,
{
}

} // verus!
