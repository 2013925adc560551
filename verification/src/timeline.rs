//! The windows and triggers of an animation as the dopesheet edits them:
//! dragging, adding at a point of the timeline, duplicating and deleting.
use vstd::prelude::*;
use crate::animation::{drag_fits, drag_window, dragged_window};
use crate::ids::{is_v4_uuid, new_uuid};
use crate::seqs::{first_where, lemma_first_where_found, lemma_first_where_none};
use crate::ui_state::DragHandle;

verus! {

/// A named span of an animation, in milliseconds.
#[derive(Debug)]
pub struct AnimationWindow {
    pub id: u128,
    pub name: String,
    pub start_ms: u32,
    pub end_ms: u32,
}

/// A named point of an animation, in milliseconds.
#[derive(Debug)]
pub struct AnimationTrigger {
    pub id: u128,
    pub name: String,
    pub time_ms: u32,
}

pub struct WindowView {
    pub id: u128,
    pub name: Seq<char>,
    pub start_ms: u32,
    pub end_ms: u32,
}

pub struct TriggerView {
    pub id: u128,
    pub name: Seq<char>,
    pub time_ms: u32,
}

impl View for AnimationWindow {
    type V = WindowView;

    open spec fn view(&self) -> WindowView {
        WindowView { id: self.id, name: self.name@, start_ms: self.start_ms, end_ms: self.end_ms }
    }
}

impl View for AnimationTrigger {
    type V = TriggerView;

    open spec fn view(&self) -> TriggerView {
        TriggerView { id: self.id, name: self.name@, time_ms: self.time_ms }
    }
}

/// The windows and triggers of one animation, in the order of their rows.
#[derive(Debug)]
pub struct Timeline {
    pub windows: Vec<AnimationWindow>,
    pub triggers: Vec<AnimationTrigger>,
}

pub struct TimelineView {
    pub windows: Seq<WindowView>,
    pub triggers: Seq<TriggerView>,
}

pub open spec fn windows_view(s: Seq<AnimationWindow>) -> Seq<WindowView> {
    Seq::new(s.len(), |i: int| s[i]@)
}

pub open spec fn triggers_view(s: Seq<AnimationTrigger>) -> Seq<TriggerView> {
    Seq::new(s.len(), |i: int| s[i]@)
}

impl View for Timeline {
    type V = TimelineView;

    open spec fn view(&self) -> TimelineView {
        TimelineView { windows: windows_view(self.windows@), triggers: triggers_view(self.triggers@) }
    }
}

/// The predicate "this window has id `id`".
pub open spec fn window_id_is(id: u128) -> spec_fn(WindowView) -> bool {
    |w: WindowView| w.id == id
}

/// The predicate "this trigger has id `id`".
pub open spec fn trigger_id_is(id: u128) -> spec_fn(TriggerView) -> bool {
    |t: TriggerView| t.id == id
}

/// How far a duplicate is shifted along the timeline, in milliseconds.
pub const DUPLICATE_SHIFT_MS: u32 = 50;
/// The length of a window added from the context menu, in milliseconds.
pub const NEW_WINDOW_MS: u32 = 100;

/// `a + b`, or `u32::MAX` where that overflows.
pub open spec fn sat_add(a: u32, b: u32) -> u32 {
    if a + b <= u32::MAX { (a + b) as u32 } else { u32::MAX }
}

/// `name` followed by `_copy`.
pub open spec fn copy_name(name: Seq<char>) -> Seq<char> {
    name + seq!['_', 'c', 'o', 'p', 'y']
}

/// The name of a window added from the context menu.
pub open spec fn new_window_name() -> Seq<char> {
    seq!['n', 'e', 'w', '_', 'w', 'i', 'n', 'd', 'o', 'w']
}

/// The name of a trigger added from the context menu.
pub open spec fn new_trigger_name() -> Seq<char> {
    seq!['n', 'e', 'w', '_', 't', 'r', 'i', 'g', 'g', 'e', 'r']
}

fn copy_of(name: &String) -> (r: String)
    ensures
        r@ == copy_name(name@),
{
    let mut s = name.clone();
    proof {
        reveal_strlit("_copy");
    }
    s.append("_copy");
    assert(s@ =~= copy_name(name@));
    s
}

impl Timeline {
    /// An empty timeline.
    pub fn new() -> (r: Timeline)
        ensures
            r@.windows.len() == 0,
            r@.triggers.len() == 0,
    {
        Timeline { windows: Vec::new(), triggers: Vec::new() }
    }

    fn window_index(&self, id: u128) -> (r: Option<usize>)
        ensures
            match r {
                Some(i) => first_where(self@.windows, window_id_is(id)) == Some(i as int) && i < self.windows.len(),
                None => first_where(self@.windows, window_id_is(id)) is None,
            },
    {
        let mut i: usize = 0;
        while i < self.windows.len()
            invariant
                i <= self.windows.len(),
                forall|j: int| 0 <= j < i ==> !window_id_is(id)(#[trigger] self@.windows[j]),
            decreases self.windows.len() - i,
        {
            if self.windows[i].id == id {
                proof {
                    lemma_first_where_found(self@.windows, window_id_is(id), i as int);
                }
                return Some(i);
            }
            i = i + 1;
        }
        proof {
            lemma_first_where_none(self@.windows, window_id_is(id));
        }
        None
    }

    fn trigger_index(&self, id: u128) -> (r: Option<usize>)
        ensures
            match r {
                Some(i) => first_where(self@.triggers, trigger_id_is(id)) == Some(i as int) && i
                    < self.triggers.len(),
                None => first_where(self@.triggers, trigger_id_is(id)) is None,
            },
    {
        let mut i: usize = 0;
        while i < self.triggers.len()
            invariant
                i <= self.triggers.len(),
                forall|j: int| 0 <= j < i ==> !trigger_id_is(id)(#[trigger] self@.triggers[j]),
            decreases self.triggers.len() - i,
        {
            if self.triggers[i].id == id {
                proof {
                    lemma_first_where_found(self@.triggers, trigger_id_is(id), i as int);
                }
                return Some(i);
            }
            i = i + 1;
        }
        proof {
            lemma_first_where_none(self@.triggers, trigger_id_is(id));
        }
        None
    }

    /// Drags the `handle` of the first window with id `id` to `time_ms`
    /// (see `drag_window`); returns whether there is such a window.
    pub fn drag_window_to(&mut self, id: u128, handle: DragHandle, time_ms: u32) -> (r: bool)
        requires
            first_where(old(self)@.windows, window_id_is(id)) matches Some(i) ==> drag_fits(
                old(self)@.windows[i].start_ms,
                old(self)@.windows[i].end_ms,
                handle,
                time_ms,
            ),
        ensures
            match first_where(old(self)@.windows, window_id_is(id)) {
                Some(i) => {
                    let w = old(self)@.windows[i];
                    let d = dragged_window(w.start_ms, w.end_ms, handle, time_ms);
                    r && final(self)@ == (TimelineView {
                        windows: old(self)@.windows.update(
                            i,
                            WindowView { start_ms: d.0 as u32, end_ms: d.1 as u32, ..w },
                        ),
                        ..old(self)@
                    })
                },
                None => !r && final(self)@ == old(self)@,
            },
    {
        match self.window_index(id) {
            Some(i) => {
                let (s, e) = drag_window(self.windows[i].start_ms, self.windows[i].end_ms, handle, time_ms);
                self.windows[i].start_ms = s;
                self.windows[i].end_ms = e;
                proof {
                    let w = old(self)@.windows[i as int];
                    assert(windows_view(self.windows@) =~= old(self)@.windows.update(
                        i as int,
                        WindowView { start_ms: s, end_ms: e, ..w },
                    ));
                }
                true
            },
            None => false,
        }
    }

    /// Drags the first trigger with id `id` to `time_ms`; returns whether
    /// there is such a trigger.
    pub fn drag_trigger_to(&mut self, id: u128, time_ms: u32) -> (r: bool)
        ensures
            match first_where(old(self)@.triggers, trigger_id_is(id)) {
                Some(i) => r && final(self)@ == (TimelineView {
                    triggers: old(self)@.triggers.update(i, TriggerView { time_ms, ..old(self)@.triggers[i] }),
                    ..old(self)@
                }),
                None => !r && final(self)@ == old(self)@,
            },
    {
        match self.trigger_index(id) {
            Some(i) => {
                self.triggers[i].time_ms = time_ms;
                assert(triggers_view(self.triggers@) =~= old(self)@.triggers.update(
                    i as int,
                    TriggerView { time_ms, ..old(self)@.triggers[i as int] },
                ));
                true
            },
            None => false,
        }
    }

    /// "Add Trigger Here": a trigger named `new_trigger` at `time_ms`, with
    /// a fresh random id, which is returned.
    pub fn add_trigger_at(&mut self, time_ms: u32) -> (r: u128)
        ensures
            is_v4_uuid(r),
            final(self)@ == (TimelineView {
                triggers: old(self)@.triggers.push(TriggerView { id: r, name: new_trigger_name(), time_ms }),
                ..old(self)@
            }),
    {
        let id = new_uuid();
        proof {
            reveal_strlit("new_trigger");
        }
        let name = String::from_str("new_trigger");
        assert(name@ =~= new_trigger_name());
        self.triggers.push(AnimationTrigger { id, name, time_ms });
        assert(triggers_view(self.triggers@) =~= old(self)@.triggers.push(
            TriggerView { id, name: new_trigger_name(), time_ms },
        ));
        id
    }

    /// "Add Window Here": a window named `new_window` from `time_ms`,
    /// `NEW_WINDOW_MS` long (shorter at the end of the time range), with a
    /// fresh random id, which is returned.
    pub fn add_window_at(&mut self, time_ms: u32) -> (r: u128)
        ensures
            is_v4_uuid(r),
            final(self)@ == (TimelineView {
                windows: old(self)@.windows.push(
                    WindowView {
                        id: r,
                        name: new_window_name(),
                        start_ms: time_ms,
                        end_ms: sat_add(time_ms, NEW_WINDOW_MS),
                    },
                ),
                ..old(self)@
            }),
    {
        let id = new_uuid();
        proof {
            reveal_strlit("new_window");
        }
        let name = String::from_str("new_window");
        assert(name@ =~= new_window_name());
        let end_ms = time_ms.saturating_add(NEW_WINDOW_MS);
        self.windows.push(AnimationWindow { id, name, start_ms: time_ms, end_ms });
        assert(windows_view(self.windows@) =~= old(self)@.windows.push(
            WindowView { id, name: new_window_name(), start_ms: time_ms, end_ms },
        ));
        id
    }

    /// "Duplicate" on a window: appends a copy of the first window with id
    /// `id`, named with `_copy`, shifted `DUPLICATE_SHIFT_MS` later, with a
    /// fresh random id; returns that id, or `None` where no window has `id`.
    pub fn duplicate_window(&mut self, id: u128) -> (r: Option<u128>)
        ensures
            match first_where(old(self)@.windows, window_id_is(id)) {
                Some(i) => {
                    let w = old(self)@.windows[i];
                    r matches Some(new_id) && is_v4_uuid(new_id) && final(self)@ == (TimelineView {
                        windows: old(self)@.windows.push(
                            WindowView {
                                id: new_id,
                                name: copy_name(w.name),
                                start_ms: sat_add(w.start_ms, DUPLICATE_SHIFT_MS),
                                end_ms: sat_add(w.end_ms, DUPLICATE_SHIFT_MS),
                            },
                        ),
                        ..old(self)@
                    })
                },
                None => r is None && final(self)@ == old(self)@,
            },
    {
        match self.window_index(id) {
            Some(i) => {
                let new_id = new_uuid();
                let name = copy_of(&self.windows[i].name);
                let start_ms = self.windows[i].start_ms.saturating_add(DUPLICATE_SHIFT_MS);
                let end_ms = self.windows[i].end_ms.saturating_add(DUPLICATE_SHIFT_MS);
                let ghost nv = WindowView { id: new_id, name: name@, start_ms, end_ms };
                self.windows.push(AnimationWindow { id: new_id, name, start_ms, end_ms });
                assert(windows_view(self.windows@) =~= old(self)@.windows.push(nv));
                Some(new_id)
            },
            None => None,
        }
    }

    /// "Duplicate" on a trigger: appends a copy of the first trigger with id
    /// `id`, named with `_copy`, `DUPLICATE_SHIFT_MS` later, with a fresh
    /// random id; returns that id, or `None` where no trigger has `id`.
    pub fn duplicate_trigger(&mut self, id: u128) -> (r: Option<u128>)
        ensures
            match first_where(old(self)@.triggers, trigger_id_is(id)) {
                Some(i) => {
                    let t = old(self)@.triggers[i];
                    r matches Some(new_id) && is_v4_uuid(new_id) && final(self)@ == (TimelineView {
                        triggers: old(self)@.triggers.push(
                            TriggerView {
                                id: new_id,
                                name: copy_name(t.name),
                                time_ms: sat_add(t.time_ms, DUPLICATE_SHIFT_MS),
                            },
                        ),
                        ..old(self)@
                    })
                },
                None => r is None && final(self)@ == old(self)@,
            },
    {
        match self.trigger_index(id) {
            Some(i) => {
                let new_id = new_uuid();
                let name = copy_of(&self.triggers[i].name);
                let time_ms = self.triggers[i].time_ms.saturating_add(DUPLICATE_SHIFT_MS);
                let ghost nv = TriggerView { id: new_id, name: name@, time_ms };
                self.triggers.push(AnimationTrigger { id: new_id, name, time_ms });
                assert(triggers_view(self.triggers@) =~= old(self)@.triggers.push(nv));
                Some(new_id)
            },
            None => None,
        }
    }

    /// "Delete Window": removes every window with id `id`.
    pub fn delete_window(&mut self, id: u128)
        ensures
            final(self)@ == (TimelineView {
                windows: old(self)@.windows.filter(|w: WindowView| w.id != id),
                ..old(self)@
            }),
    {
        let ghost before = windows_view(self.windows@);
        let ghost keep = |w: WindowView| w.id != id;
        let mut kept: Vec<AnimationWindow> = Vec::new();
        let mut i: usize = 0;
        while i < self.windows.len()
            invariant
                i <= self.windows@.len(),
                before == windows_view(self.windows@),
                keep == (|w: WindowView| w.id != id),
                windows_view(kept@) == before.take(i as int).filter(keep),
            decreases self.windows@.len() - i,
        {
            proof {
                reveal_with_fuel(Seq::filter, 1);
                assert(before.take(i + 1).drop_last() =~= before.take(i as int));
            }
            if self.windows[i].id != id {
                let ghost k0 = windows_view(kept@);
                let w = &self.windows[i];
                kept.push(AnimationWindow { id: w.id, name: w.name.clone(), start_ms: w.start_ms, end_ms: w.end_ms });
                assert(windows_view(kept@) =~= k0.push(before[i as int]));
            }
            i = i + 1;
        }
        assert(before.take(i as int) =~= before);
        self.windows = kept;
    }

    /// "Delete Trigger": removes every trigger with id `id`.
    pub fn delete_trigger(&mut self, id: u128)
        ensures
            final(self)@ == (TimelineView {
                triggers: old(self)@.triggers.filter(|t: TriggerView| t.id != id),
                ..old(self)@
            }),
    {
        let ghost before = triggers_view(self.triggers@);
        let ghost keep = |t: TriggerView| t.id != id;
        let mut kept: Vec<AnimationTrigger> = Vec::new();
        let mut i: usize = 0;
        while i < self.triggers.len()
            invariant
                i <= self.triggers@.len(),
                before == triggers_view(self.triggers@),
                keep == (|t: TriggerView| t.id != id),
                triggers_view(kept@) == before.take(i as int).filter(keep),
            decreases self.triggers@.len() - i,
        {
            proof {
                reveal_with_fuel(Seq::filter, 1);
                assert(before.take(i + 1).drop_last() =~= before.take(i as int));
            }
            if self.triggers[i].id != id {
                let ghost k0 = triggers_view(kept@);
                let t = &self.triggers[i];
                kept.push(AnimationTrigger { id: t.id, name: t.name.clone(), time_ms: t.time_ms });
                assert(triggers_view(kept@) =~= k0.push(before[i as int]));
            }
            i = i + 1;
        }
        assert(before.take(i as int) =~= before);
        self.triggers = kept;
    }
}

} // verus!
