//! Decisions of the animation editor: dragging the windows of the
//! dopesheet in whole milliseconds, naming and renaming animations from the
//! toolbar, and the toolbar's frame counter.
use vstd::prelude::*;
use vstd::set_lib::*;
use crate::ui_state::DragHandle;
use crate::text::{decimal, push_decimal, str_eq, digit_char};
use crate::runtime::{distinct_names, names_view};

verus! {

/// The shortest window that an edge drag leaves, in milliseconds.
pub const MIN_WINDOW_MS: u32 = 10;

/// `a - b`, or 0 where `b` is larger.
pub open spec fn sat_sub(a: int, b: int) -> int {
    if a >= b { a - b } else { 0 }
}

/// The window `(start, end)` after its `handle` is dragged to `t`: the start
/// edge stops `MIN_WINDOW_MS` before the end (or at 0), the end edge stops
/// `MIN_WINDOW_MS` after the start, and the body moves to `t` with its
/// duration kept.
pub open spec fn dragged_window(start: u32, end: u32, handle: DragHandle, t: u32) -> (int, int) {
    match handle {
        DragHandle::Start => {
            let limit = sat_sub(end as int, MIN_WINDOW_MS as int);
            (if t <= limit { t as int } else { limit }, end as int)
        },
        DragHandle::End => {
            let limit = start + MIN_WINDOW_MS;
            (start as int, if t >= limit { t as int } else { limit })
        },
        DragHandle::Body => (t as int, t + sat_sub(end as int, start as int)),
    }
}

/// The drag stays within `u32` milliseconds.
pub open spec fn drag_fits(start: u32, end: u32, handle: DragHandle, t: u32) -> bool {
    match handle {
        DragHandle::Start => true,
        DragHandle::End => start + MIN_WINDOW_MS <= u32::MAX,
        DragHandle::Body => t + sat_sub(end as int, start as int) <= u32::MAX,
    }
}

/// Drags the `handle` of the window `(start_ms, end_ms)` to `time_ms` and
/// returns the new `(start, end)`. A body drag keeps the window's duration
/// (0 for a window that ends before it starts), so repeating it on the
/// moved window gives the same duration as the window had when the drag
/// began.
pub fn drag_window(start_ms: u32, end_ms: u32, handle: DragHandle, time_ms: u32) -> (r: (u32, u32))
    requires
        drag_fits(start_ms, end_ms, handle, time_ms),
    ensures
        r.0 == dragged_window(start_ms, end_ms, handle, time_ms).0,
        r.1 == dragged_window(start_ms, end_ms, handle, time_ms).1,
        handle != DragHandle::Body ==> r.0 <= r.1,
        handle == DragHandle::End ==> r.1 - r.0 >= MIN_WINDOW_MS,
        handle == DragHandle::Body ==> r.1 - r.0 == sat_sub(end_ms as int, start_ms as int),
{
    match handle {
        DragHandle::Start => {
            let limit = if end_ms >= MIN_WINDOW_MS { end_ms - MIN_WINDOW_MS } else { 0 };
            let start = if time_ms <= limit { time_ms } else { limit };
            (start, end_ms)
        },
        DragHandle::End => {
            let limit = start_ms + MIN_WINDOW_MS;
            let end = if time_ms >= limit { time_ms } else { limit };
            (start_ms, end)
        },
        DragHandle::Body => {
            let duration = if end_ms >= start_ms { end_ms - start_ms } else { 0 };
            (time_ms, time_ms + duration)
        },
    }
}

/// Whether `c` is white space in the sense of Unicode's `White_Space`
/// property, as `char::is_whitespace` and `str::trim` use it.
pub open spec fn is_white_space(c: char) -> bool {
    let u = c as u32;
    ||| 0x09 <= u <= 0x0d
    ||| u == 0x20
    ||| u == 0x85
    ||| u == 0xa0
    ||| u == 0x1680
    ||| 0x2000 <= u <= 0x200a
    ||| u == 0x2028
    ||| u == 0x2029
    ||| u == 0x202f
    ||| u == 0x205f
    ||| u == 0x3000
}

fn white_space(c: char) -> (r: bool)
    ensures
        r == is_white_space(c),
{
    let u = c as u32;
    (0x09 <= u && u <= 0x0d) || u == 0x20 || u == 0x85 || u == 0xa0 || u == 0x1680
        || (0x2000 <= u && u <= 0x200a) || u == 0x2028 || u == 0x2029 || u == 0x202f
        || u == 0x205f || u == 0x3000
}

/// `s` without its leading white space.
pub open spec fn trim_start(s: Seq<char>) -> Seq<char>
    decreases s.len(),
{
    if s.len() > 0 && is_white_space(s[0]) {
        trim_start(s.drop_first())
    } else {
        s
    }
}

/// `s` without its trailing white space.
pub open spec fn trim_end(s: Seq<char>) -> Seq<char>
    decreases s.len(),
{
    if s.len() > 0 && is_white_space(s.last()) {
        trim_end(s.drop_last())
    } else {
        s
    }
}

/// `s` without leading and trailing white space.
pub open spec fn trimmed(s: Seq<char>) -> Seq<char> {
    trim_end(trim_start(s))
}

/// The text `s` without leading and trailing white space.
pub fn trim_text(s: &str) -> (r: String)
    ensures
        r@ == trimmed(s@),
{
    let n = s.unicode_len();
    let mut a: usize = 0;
    assert(s@.subrange(0, n as int) =~= s@);
    while a < n && white_space(s.get_char(a))
        invariant
            n == s@.len(),
            a <= n,
            trim_start(s@) == trim_start(s@.subrange(a as int, n as int)),
        decreases n - a,
    {
        assert(s@.subrange(a as int, n as int).drop_first() =~= s@.subrange(a + 1, n as int));
        a = a + 1;
    }
    let ghost front = s@.subrange(a as int, n as int);
    assert(trim_start(s@) == front) by {
        if a == n {
            assert(front.len() == 0);
        } else {
            assert(front[0] == s@[a as int]);
        }
    }
    let mut b: usize = n;
    while b > a && white_space(s.get_char(b - 1))
        invariant
            n == s@.len(),
            a <= b <= n,
            front == s@.subrange(a as int, n as int),
            trim_end(front) == trim_end(s@.subrange(a as int, b as int)),
        decreases b - a,
    {
        assert(s@.subrange(a as int, b as int).drop_last() =~= s@.subrange(a as int, b - 1));
        b = b - 1;
    }
    let ghost body = s@.subrange(a as int, b as int);
    assert(trim_end(front) == body) by {
        if a == b {
            assert(body.len() == 0);
        } else {
            assert(body.last() == s@[b - 1]);
        }
    }
    let t = s.substring_char(a, b);
    String::from_str(t)
}

/// The name that the toolbar gives the `k`-th candidate for a new
/// animation: `new_anim`, then `new_anim_1`, `new_anim_2`, and so on.
pub open spec fn candidate_name(k: nat) -> Seq<char> {
    let base = seq!['n', 'e', 'w', '_', 'a', 'n', 'i', 'm'];
    if k == 0 {
        base
    } else {
        base + seq!['_'] + decimal(k)
    }
}

/// The first candidate name that `names` does not hold.
pub open spec fn is_first_free_name(names: Seq<Seq<char>>, r: Seq<char>) -> bool {
    exists|k: nat|
        #[trigger] candidate_name(k) == r && !names.contains(r) && forall|j: nat|
            j < k ==> names.contains(#[trigger] candidate_name(j))
}

proof fn lemma_decimal_nonempty(n: nat)
    ensures
        decimal(n).len() >= 1,
        n >= 10 ==> decimal(n).len() >= 2,
    decreases n,
{
    if n >= 10 {
        lemma_decimal_nonempty(n / 10);
    }
}

proof fn lemma_decimal_injective(a: nat, b: nat)
    requires
        decimal(a) == decimal(b),
    ensures
        a == b,
    decreases a,
{
    lemma_decimal_nonempty(a);
    lemma_decimal_nonempty(b);
    if a < 10 && b < 10 {
        assert(decimal(a)[0] == digit_char(a));
        assert(decimal(b)[0] == digit_char(b));
    } else if a >= 10 && b >= 10 {
        let da = decimal(a / 10);
        let db = decimal(b / 10);
        assert(decimal(a) == da.push(digit_char(a % 10)));
        assert(decimal(b) == db.push(digit_char(b % 10)));
        assert(da =~= decimal(a).drop_last());
        assert(db =~= decimal(b).drop_last());
        assert(digit_char(a % 10) == decimal(a).last());
        assert(digit_char(b % 10) == decimal(b).last());
        lemma_decimal_injective(a / 10, b / 10);
    }
}

proof fn lemma_candidates_distinct(j: nat, k: nat)
    requires
        candidate_name(j) == candidate_name(k),
    ensures
        j == k,
{
    if j > 0 && k > 0 {
        let pre = seq!['n', 'e', 'w', '_', 'a', 'n', 'i', 'm'] + seq!['_'];
        assert(decimal(j) =~= candidate_name(j).subrange(9, candidate_name(j).len() as int));
        assert(decimal(k) =~= candidate_name(k).subrange(9, candidate_name(k).len() as int));
        lemma_decimal_injective(j, k);
    } else if j > 0 || k > 0 {
        lemma_decimal_nonempty(j);
        lemma_decimal_nonempty(k);
    }
}

/// Among the first `names.len() + 1` candidates one is free.
proof fn lemma_some_candidate_free(names: Seq<Seq<char>>)
    ensures
        exists|k: nat| k <= names.len() && !names.contains(#[trigger] candidate_name(k)),
{
    if forall|k: nat| k <= names.len() ==> names.contains(#[trigger] candidate_name(k)) {
        let n = names.len() as int;
        let x = set_int_range(0, n + 1);
        let f = |j: int| candidate_name(j as nat);
        lemma_int_range(0, n + 1);
        assert forall|i: int, j: int| x.contains(i) && x.contains(j) && #[trigger] f(i) == #[trigger] f(j) implies i == j by {
            lemma_candidates_distinct(i as nat, j as nat);
        }
        lemma_map_size(x, x.map(f), f);
        assert forall|c: Seq<char>| #[trigger] x.map(f).contains(c) implies names.to_set().contains(c) by {
            let i = choose|i: int| x.contains(i) && f(i) == c;
            assert(names.contains(candidate_name(i as nat)));
        }
        lemma_len_subset(x.map(f), names.to_set());
        names.lemma_cardinality_of_set();
    }
}

fn candidate_string(k: usize) -> (r: String)
    ensures
        r@ == candidate_name(k as nat),
{
    let mut s = String::from_str("new_anim");
    proof {
        reveal_strlit("new_anim");
        reveal_strlit("_");
    }
    if k > 0 {
        s.append("_");
        push_decimal(&mut s, k as u64);
    }
    assert(s@ =~= candidate_name(k as nat));
    s
}

fn holds_name(names: &Vec<String>, name: &str) -> (r: bool)
    ensures
        r == names_view(names@).contains(name@),
{
    let mut i: usize = 0;
    while i < names.len()
        invariant
            i <= names.len(),
            forall|j: int| 0 <= j < i ==> names@[j]@ != name@,
        decreases names.len() - i,
    {
        if str_eq(names[i].as_str(), name) {
            assert(names_view(names@)[i as int] == name@);
            return true;
        }
        i = i + 1;
    }
    proof {
        if names_view(names@).contains(name@) {
            let j = choose|j: int| 0 <= j < names_view(names@).len() && names_view(names@)[j] == name@;
            assert(names@[j]@ == name@);
        }
    }
    false
}

/// The name the toolbar gives a new animation: the first of `new_anim`,
/// `new_anim_1`, `new_anim_2`, ... that no animation has yet.
pub fn new_animation_name(names: &Vec<String>) -> (r: String)
    ensures
        is_first_free_name(names_view(names@), r@),
{
    let ghost nv = names_view(names@);
    proof {
        lemma_some_candidate_free(nv);
    }
    let mut k: usize = 0;
    loop
        invariant
            nv == names_view(names@),
            k <= names.len(),
            exists|m: nat| m <= nv.len() && !nv.contains(#[trigger] candidate_name(m)),
            forall|j: nat| j < k ==> nv.contains(#[trigger] candidate_name(j)),
        decreases names.len() - k,
    {
        let c = candidate_string(k);
        if !holds_name(names, c.as_str()) {
            assert(candidate_name(k as nat) == c@);
            return c;
        }
        proof {
            let m = choose|m: nat| m <= nv.len() && !nv.contains(#[trigger] candidate_name(m));
            if m > k {
            } else if m == k {
            } else {
                assert(nv.contains(candidate_name(m)));
            }
            assert(k < m);
        }
        k = k + 1;
    }
}

/// Whether the toolbar renames `from` to `to` among `names`: the new name
/// is not empty, differs from the old one and is not taken, and the old one
/// exists.
pub open spec fn rename_accepted(names: Seq<Seq<char>>, from: Seq<char>, to: Seq<char>) -> bool {
    &&& to.len() > 0
    &&& to != from
    &&& !names.contains(to)
    &&& names.contains(from)
}

/// `names` with `from` re-keyed as `to`.
pub open spec fn renamed(names: Seq<Seq<char>>, from: Seq<char>, to: Seq<char>) -> Seq<Seq<char>> {
    names.map_values(|s: Seq<char>| if s == from { to } else { s })
}

proof fn lemma_filter_keeps_all(s: Seq<Seq<char>>, p: spec_fn(Seq<char>) -> bool)
    requires
        forall|i: int| 0 <= i < s.len() ==> p(#[trigger] s[i]),
    ensures
        s.filter(p) == s,
    decreases s.len(),
{
    reveal_with_fuel(Seq::filter, 1);
    if s.len() > 0 {
        lemma_filter_keeps_all(s.drop_last(), p);
        assert(s.drop_last().push(s.last()) =~= s);
    }
}

/// Deleting an animation that was just added gives back the names as they
/// were before the add.
pub proof fn law_delete_undoes_add(names: Seq<Seq<char>>, added: Seq<char>)
    requires
        !names.contains(added),
    ensures
        names.push(added).filter(|s: Seq<char>| s != added) == names,
{
    let p = |s: Seq<char>| s != added;
    reveal_with_fuel(Seq::filter, 1);
    assert(names.push(added).drop_last() =~= names);
    assert forall|i: int| 0 <= i < names.len() implies p(#[trigger] names[i]) by {
        if names[i] == added {
            assert(names.contains(added));
        }
    }
    lemma_filter_keeps_all(names, p);
}

/// Renaming back undoes a rename: after `from` became `to`, renaming `to`
/// to `from` is accepted (for a non-empty `from`) and gives back the names as
/// they were.
pub proof fn law_rename_round_trip(names: Seq<Seq<char>>, from: Seq<char>, to: Seq<char>)
    requires
        rename_accepted(names, from, to),
        from.len() > 0,
    ensures
        rename_accepted(renamed(names, from, to), to, from),
        renamed(renamed(names, from, to), to, from) == names,
{
    let once = renamed(names, from, to);
    let k = choose|k: int| 0 <= k < names.len() && names[k] == from;
    assert(once[k] == to);
    if once.contains(from) {
        let j = choose|j: int| 0 <= j < once.len() && once[j] == from;
        assert(once[j] == (if names[j] == from { to } else { names[j] }));
    }
    assert forall|i: int| 0 <= i < names.len() implies names[i] != to by {
        if names[i] == to {
            assert(names.contains(to));
        }
    }
    assert(renamed(once, to, from) =~= names);
}

/// Confirms a rename in the toolbar: `buffer` without surrounding white
/// space becomes the new name of the animation `old_name` when
/// `rename_accepted` holds, and the new name is returned for selection;
/// otherwise nothing changes and `None` comes back.
pub fn rename_animation(names: &mut Vec<String>, old_name: &str, buffer: &str) -> (r: Option<String>)
    requires
        distinct_names(names_view(old(names)@)),
    ensures
        distinct_names(names_view(final(names)@)),
        rename_accepted(names_view(old(names)@), old_name@, trimmed(buffer@)) ==> r is Some
            && r->0@ == trimmed(buffer@)
            && names_view(final(names)@) == renamed(names_view(old(names)@), old_name@, trimmed(buffer@)),
        !rename_accepted(names_view(old(names)@), old_name@, trimmed(buffer@)) ==> r is None
            && final(names)@ == old(names)@,
{
    let new_name = trim_text(buffer);
    if new_name.as_str().unicode_len() == 0 || str_eq(new_name.as_str(), old_name)
        || holds_name(names, new_name.as_str()) {
        return None;
    }
    let ghost before = names_view(names@);
    let mut i: usize = 0;
    while i < names.len()
        invariant
            i <= names.len(),
            before == names_view(names@),
            before == names_view(old(names)@),
            names@ == old(names)@,
            distinct_names(before),
            new_name@ == trimmed(buffer@),
            new_name@.len() > 0,
            new_name@ != old_name@,
            !before.contains(new_name@),
            forall|j: int| 0 <= j < i ==> names@[j]@ != old_name@,
        decreases names.len() - i,
    {
        if str_eq(names[i].as_str(), old_name) {
            let reply = new_name.clone();
            assert(before[i as int] == old_name@);
            names.set(i, new_name);
            proof {
                assert forall|j: int| 0 <= j < before.len() && j != i implies before[j] != old_name@ by {
                    if j < i {
                        assert(before[j] != before[i as int]);
                    } else {
                        assert(before[i as int] != before[j]);
                    }
                }
                assert(names_view(names@) =~= renamed(before, old_name@, reply@));
                assert forall|p: int, q: int| 0 <= p < q < names_view(names@).len() implies
                    names_view(names@)[p] != names_view(names@)[q] by {
                    if p == i {
                        assert(before.contains(before[q]));
                    } else if q == i {
                        assert(before.contains(before[p]));
                    } else {
                        assert(before[p] != before[q]);
                    }
                }
            }
            return Some(reply);
        }
        i = i + 1;
    }
    proof {
        if before.contains(old_name@) {
            let j = choose|j: int| 0 <= j < before.len() && before[j] == old_name@;
            assert(names@[j]@ == old_name@);
        }
    }
    None
}

/// The frame counter of the toolbar: the 1-based frame the preview shows,
/// or 0 for an animation without frames.
pub fn frame_counter(preview_frame: usize, frame_count: usize) -> (r: usize)
    ensures
        frame_count == 0 ==> r == 0,
        frame_count > 0 ==> r == preview_frame % frame_count + 1,
{
    if frame_count > 0 {
        preview_frame % frame_count + 1
    } else {
        0
    }
}

/// The shortest frame duration the toolbar accepts, in milliseconds.
pub const MIN_FRAME_DURATION_MS: u32 = 16;

/// The frame duration kept from the toolbar's entry: at least
/// `MIN_FRAME_DURATION_MS`.
pub fn frame_duration_from_entry(entry: i32) -> (r: u32)
    ensures
        r == if entry < MIN_FRAME_DURATION_MS { MIN_FRAME_DURATION_MS as int } else { entry as int },
{
    if entry < MIN_FRAME_DURATION_MS as i32 {
        MIN_FRAME_DURATION_MS
    } else {
        entry as u32
    }
}

/// Where a click on the dopesheet landed, once its position is resolved
/// against the rows: on the windows track (on a window, or beside one), on
/// the triggers track (likewise), or elsewhere.
#[derive(Debug, Clone, Copy, PartialEq, Eq, Structural)]
pub enum TimelineHit {
    WindowTrack(Option<u128>),
    TriggerTrack(Option<u128>),
    Elsewhere,
}

/// The state of the animation editor that its decisions read: what is
/// edited, the names of the sprite data's animations (each once), the
/// selection, the preview, the loaded sheet texture, the rename in
/// progress and the drag in progress. Zoom levels, scroll offsets and the
/// preview timer are screen geometry and stay with the window.
#[derive(Debug)]
pub struct AnimationEditorState {
    /// Project-level asset being edited.
    pub asset_id: Option<u128>,
    /// Entity instance whose property is edited in place.
    pub instance_id: Option<u128>,
    /// Name of the property holding the sprite data.
    pub property_name: String,
    /// Path of the sprite sheet image.
    pub sheet_path: String,
    /// Names of the animations of the sprite data.
    pub animation_names: Vec<String>,
    pub selected_animation: Option<String>,
    pub selected_frames: Vec<usize>,
    pub preview_playing: bool,
    pub preview_frame: usize,
    /// Sheet path of the texture that was loaded, if any.
    pub loaded_sheet_path: Option<String>,
    /// Whether a texture is loaded.
    pub texture_loaded: bool,
    pub selected_trigger: Option<u128>,
    pub selected_window: Option<u128>,
    pub show_frame_picker: bool,
    pub show_preview: bool,
    /// The animation being renamed, by its name before the rename.
    pub renaming_animation: Option<String>,
    pub rename_buffer: String,
    pub dragging_trigger: Option<u128>,
    pub dragging_window: Option<(u128, DragHandle)>,
    /// Start of the dragged window (or time of the dragged trigger) when
    /// the drag began.
    pub drag_start_time: u32,
    /// End of the dragged window when the drag began.
    pub drag_original_end: u32,
    /// Where the context menu was opened on the timeline.
    pub context_menu_time: Option<u32>,
}

pub open spec fn opt_text(o: Option<String>) -> Option<Seq<char>> {
    match o {
        Some(s) => Some(s@),
        None => None,
    }
}

/// Nothing is selected, previewed, renamed or dragged, and no texture is
/// loaded.
pub open spec fn at_rest(s: AnimationEditorState) -> bool {
    &&& s.selected_animation is None
    &&& s.selected_frames@.len() == 0
    &&& !s.preview_playing
    &&& s.preview_frame == 0
    &&& s.loaded_sheet_path is None
    &&& !s.texture_loaded
    &&& s.selected_trigger is None
    &&& s.selected_window is None
    &&& !s.show_frame_picker
    &&& s.show_preview
    &&& s.renaming_animation is None
    &&& s.rename_buffer@.len() == 0
    &&& s.dragging_trigger is None
    &&& s.dragging_window is None
    &&& s.drag_start_time == 0
    &&& s.drag_original_end == 0
    &&& s.context_menu_time is None
}

impl AnimationEditorState {
    fn fresh(asset_id: Option<u128>, instance_id: Option<u128>, property_name: String, sheet_path: String, animation_names: Vec<String>) -> (r: Self)
        ensures
            at_rest(r),
            r.asset_id == asset_id,
            r.instance_id == instance_id,
            r.property_name@ == property_name@,
            r.sheet_path@ == sheet_path@,
            r.animation_names@ == animation_names@,
    {
        AnimationEditorState {
            asset_id,
            instance_id,
            property_name,
            sheet_path,
            animation_names,
            selected_animation: None,
            selected_frames: Vec::new(),
            preview_playing: false,
            preview_frame: 0,
            loaded_sheet_path: None,
            texture_loaded: false,
            selected_trigger: None,
            selected_window: None,
            show_frame_picker: false,
            show_preview: true,
            renaming_animation: None,
            rename_buffer: String::new(),
            dragging_trigger: None,
            dragging_window: None,
            drag_start_time: 0,
            drag_original_end: 0,
            context_menu_time: None,
        }
    }

    /// An editor with nothing open.
    pub fn new() -> (r: Self)
        ensures
            at_rest(r),
            r.asset_id is None,
            r.instance_id is None,
            r.property_name@.len() == 0,
            r.sheet_path@.len() == 0,
            r.animation_names@.len() == 0,
    {
        Self::fresh(None, None, String::new(), String::new(), Vec::new())
    }

    /// An editor for the project-level sprite sheet asset `asset_id`.
    pub fn from_sprite_data(sheet_path: String, animation_names: Vec<String>, asset_id: u128) -> (r: Self)
        ensures
            at_rest(r),
            r.asset_id == Some(asset_id),
            r.instance_id is None,
            r.property_name@.len() == 0,
            r.sheet_path@ == sheet_path@,
            r.animation_names@ == animation_names@,
    {
        Self::fresh(Some(asset_id), None, String::new(), sheet_path, animation_names)
    }

    /// Opens the sprite data held by the property `property_name` of the
    /// entity instance `instance_id`, with everything else reset.
    pub fn open(&mut self, instance_id: u128, property_name: String, sheet_path: String, animation_names: Vec<String>)
        ensures
            at_rest(*final(self)),
            final(self).asset_id is None,
            final(self).instance_id == Some(instance_id),
            final(self).property_name@ == property_name@,
            final(self).sheet_path@ == sheet_path@,
            final(self).animation_names@ == animation_names@,
    {
        *self = Self::fresh(None, Some(instance_id), property_name, sheet_path, animation_names);
    }

    /// Whether the sheet texture must be (re)loaded: there is a sheet path,
    /// and the loaded texture is of another path or none is loaded.
    pub fn needs_texture_load(&self) -> (r: bool)
        ensures
            r == (self.sheet_path@.len() > 0 && (opt_text(self.loaded_sheet_path) != Some(self.sheet_path@)
                || !self.texture_loaded)),
    {
        if self.sheet_path.as_str().unicode_len() == 0 {
            return false;
        }
        let same = match &self.loaded_sheet_path {
            Some(p) => str_eq(p.as_str(), self.sheet_path.as_str()),
            None => false,
        };
        !same || !self.texture_loaded
    }

    /// Records that the texture of the current sheet path was loaded.
    pub fn set_texture(&mut self)
        ensures
            final(self).texture_loaded,
            opt_text(final(self).loaded_sheet_path) == Some(old(self).sheet_path@),
            final(self).sheet_path@ == old(self).sheet_path@,
            final(self).animation_names@ == old(self).animation_names@,
    {
        self.texture_loaded = true;
        self.loaded_sheet_path = Some(self.sheet_path.clone());
    }

    /// Forgets the loaded texture.
    pub fn clear_texture(&mut self)
        ensures
            !final(self).texture_loaded,
            final(self).loaded_sheet_path is None,
            final(self).sheet_path@ == old(self).sheet_path@,
            final(self).animation_names@ == old(self).animation_names@,
    {
        self.texture_loaded = false;
        self.loaded_sheet_path = None;
    }

    /// Takes the sheet path saved by the sprite sheet editor; the texture
    /// is forgotten when it was loaded from another path.
    pub fn refresh_grid_config(&mut self, sheet_path: String)
        ensures
            final(self).sheet_path@ == sheet_path@,
            opt_text(old(self).loaded_sheet_path) == Some(sheet_path@) ==> final(self).loaded_sheet_path
                == old(self).loaded_sheet_path && final(self).texture_loaded == old(self).texture_loaded,
            opt_text(old(self).loaded_sheet_path) != Some(sheet_path@) ==> final(self).loaded_sheet_path is None
                && !final(self).texture_loaded,
            final(self).animation_names@ == old(self).animation_names@,
    {
        let same = match &self.loaded_sheet_path {
            Some(p) => str_eq(p.as_str(), sheet_path.as_str()),
            None => false,
        };
        self.sheet_path = sheet_path;
        if !same {
            self.clear_texture();
        }
    }

    /// Whether the toolbar's delete button is enabled: an animation is
    /// selected and none is being renamed.
    pub fn can_delete_animation(&self) -> (r: bool)
        ensures
            r == (self.selected_animation is Some && self.renaming_animation is None),
    {
        self.selected_animation.is_some() && self.renaming_animation.is_none()
    }

    /// The toolbar's "+": adds an animation under the first free
    /// `new_anim[_k]` name, selects it and clears the frame selection;
    /// returns its name.
    pub fn add_animation(&mut self) -> (r: String)
        ensures
            is_first_free_name(names_view(old(self).animation_names@), r@),
            names_view(final(self).animation_names@) == names_view(old(self).animation_names@).push(r@),
            opt_text(final(self).selected_animation) == Some(r@),
            final(self).selected_frames@.len() == 0,
            distinct_names(names_view(old(self).animation_names@))
                ==> distinct_names(names_view(final(self).animation_names@)),
    {
        let name = new_animation_name(&self.animation_names);
        let ghost before = names_view(self.animation_names@);
        self.animation_names.push(name.clone());
        assert(names_view(self.animation_names@) =~= before.push(name@));
        self.selected_animation = Some(name.clone());
        self.selected_frames = Vec::new();
        name
    }

    /// The toolbar's rename button: starts renaming the selected animation
    /// with its name in the text field.
    pub fn start_rename(&mut self)
        ensures
            opt_text(old(self).selected_animation) matches Some(n) ==> opt_text(final(self).renaming_animation)
                == Some(n) && final(self).rename_buffer@ == n,
            old(self).selected_animation is None ==> final(self).renaming_animation == old(self).renaming_animation
                && final(self).rename_buffer@ == old(self).rename_buffer@,
            final(self).animation_names@ == old(self).animation_names@,
            final(self).selected_animation == old(self).selected_animation,
    {
        match &self.selected_animation {
            Some(name) => {
                self.renaming_animation = Some(name.clone());
                self.rename_buffer = name.clone();
            },
            None => {},
        }
    }

    /// Confirms the rename in progress (Enter, or the field losing focus):
    /// the text field's contents, trimmed, become the animation's name when
    /// `rename_accepted` holds, and the renamed animation is selected. The
    /// rename ends either way. Returns whether the sprite data changed.
    pub fn confirm_rename(&mut self) -> (r: bool)
        requires
            distinct_names(names_view(old(self).animation_names@)),
        ensures
            distinct_names(names_view(final(self).animation_names@)),
            final(self).renaming_animation is None,
            final(self).rename_buffer@.len() == 0,
            match opt_text(old(self).renaming_animation) {
                Some(orig) => {
                    let new = trimmed(old(self).rename_buffer@);
                    let names = names_view(old(self).animation_names@);
                    if rename_accepted(names, orig, new) {
                        r && names_view(final(self).animation_names@) == renamed(names, orig, new)
                            && opt_text(final(self).selected_animation) == Some(new)
                    } else {
                        !r && final(self).animation_names@ == old(self).animation_names@
                            && final(self).selected_animation == old(self).selected_animation
                    }
                },
                None => !r && final(self).animation_names@ == old(self).animation_names@
                    && final(self).selected_animation == old(self).selected_animation,
            },
    {
        let mut changed = false;
        match &self.renaming_animation {
            Some(orig) => {
                match rename_animation(&mut self.animation_names, orig.as_str(), self.rename_buffer.as_str()) {
                    Some(new_name) => {
                        self.selected_animation = Some(new_name);
                        changed = true;
                    },
                    None => {},
                }
            },
            None => {},
        }
        self.renaming_animation = None;
        self.rename_buffer = String::new();
        changed
    }

    /// Escape: ends the rename in progress without renaming.
    pub fn cancel_rename(&mut self)
        ensures
            final(self).renaming_animation is None,
            final(self).rename_buffer@.len() == 0,
            final(self).animation_names@ == old(self).animation_names@,
            final(self).selected_animation == old(self).selected_animation,
    {
        self.renaming_animation = None;
        self.rename_buffer = String::new();
    }

    /// The toolbar's "-": deletes the selected animation, ends the
    /// selection and clears the frame selection. Returns whether an
    /// animation was selected.
    pub fn delete_selected_animation(&mut self) -> (r: bool)
        ensures
            r == old(self).selected_animation is Some,
            final(self).selected_animation is None,
            old(self).selected_animation matches Some(n) ==> names_view(final(self).animation_names@)
                == names_view(old(self).animation_names@).filter(|s: Seq<char>| s != n@)
                && final(self).selected_frames@.len() == 0,
            old(self).selected_animation is None ==> final(self).animation_names@ == old(self).animation_names@,
    {
        let mut taken: Option<String> = None;
        std::mem::swap(&mut taken, &mut self.selected_animation);
        match taken {
            Some(name) => {
                let ghost before = names_view(self.animation_names@);
                let ghost keep = |s: Seq<char>| s != name@;
                let mut kept: Vec<String> = Vec::new();
                let mut i: usize = 0;
                while i < self.animation_names.len()
                    invariant
                        i <= self.animation_names@.len(),
                        before == names_view(self.animation_names@),
                        keep == (|s: Seq<char>| s != name@),
                        names_view(kept@) == before.take(i as int).filter(keep),
                    decreases self.animation_names@.len() - i,
                {
                    proof {
                        reveal_with_fuel(Seq::filter, 1);
                        assert(before.take(i + 1).drop_last() =~= before.take(i as int));
                    }
                    if !str_eq(self.animation_names[i].as_str(), name.as_str()) {
                        let ghost k0 = names_view(kept@);
                        kept.push(self.animation_names[i].clone());
                        assert(names_view(kept@) =~= k0.push(before[i as int]));
                    }
                    i = i + 1;
                }
                assert(before.take(i as int) =~= before);
                self.animation_names = kept;
                self.selected_frames = Vec::new();
                true
            },
            None => false,
        }
    }

    /// A press on a window of the dopesheet: the drag of `handle` begins,
    /// remembering the window's span, and the window becomes the selection.
    pub fn begin_window_drag(&mut self, window_id: u128, handle: DragHandle, start_ms: u32, end_ms: u32)
        ensures
            final(self).dragging_window == Some((window_id, handle)),
            final(self).drag_start_time == start_ms,
            final(self).drag_original_end == end_ms,
            final(self).selected_window == Some(window_id),
            final(self).selected_trigger is None,
            final(self).dragging_trigger == old(self).dragging_trigger,
            final(self).animation_names@ == old(self).animation_names@,
    {
        self.dragging_window = Some((window_id, handle));
        self.drag_start_time = start_ms;
        self.drag_original_end = end_ms;
        self.selected_window = Some(window_id);
        self.selected_trigger = None;
    }

    /// A press on a trigger of the dopesheet: its drag begins and it
    /// becomes the selection.
    pub fn begin_trigger_drag(&mut self, trigger_id: u128, time_ms: u32)
        ensures
            final(self).dragging_trigger == Some(trigger_id),
            final(self).drag_start_time == time_ms,
            final(self).selected_trigger == Some(trigger_id),
            final(self).selected_window is None,
            final(self).dragging_window == old(self).dragging_window,
            final(self).drag_original_end == old(self).drag_original_end,
            final(self).animation_names@ == old(self).animation_names@,
    {
        self.dragging_trigger = Some(trigger_id);
        self.drag_start_time = time_ms;
        self.selected_trigger = Some(trigger_id);
        self.selected_window = None;
    }

    /// The drag stops: nothing is dragged any more.
    pub fn end_drag(&mut self)
        ensures
            final(self).dragging_trigger is None,
            final(self).dragging_window is None,
            final(self).selected_trigger == old(self).selected_trigger,
            final(self).selected_window == old(self).selected_window,
            final(self).animation_names@ == old(self).animation_names@,
    {
        self.dragging_trigger = None;
        self.dragging_window = None;
    }

    /// A click on the dopesheet: a window or trigger hit becomes the only
    /// selection; a click beside the items of a track clears that track's
    /// selection; a click elsewhere clears both.
    pub fn click_timeline(&mut self, hit: TimelineHit)
        ensures
            match hit {
                TimelineHit::WindowTrack(Some(id)) => final(self).selected_window == Some(id)
                    && final(self).selected_trigger is None,
                TimelineHit::WindowTrack(None) => final(self).selected_window is None
                    && final(self).selected_trigger == old(self).selected_trigger,
                TimelineHit::TriggerTrack(Some(id)) => final(self).selected_trigger == Some(id)
                    && final(self).selected_window is None,
                TimelineHit::TriggerTrack(None) => final(self).selected_trigger is None
                    && final(self).selected_window == old(self).selected_window,
                TimelineHit::Elsewhere => final(self).selected_window is None && final(self).selected_trigger is None,
            },
            final(self).dragging_window == old(self).dragging_window,
            final(self).dragging_trigger == old(self).dragging_trigger,
            final(self).animation_names@ == old(self).animation_names@,
    {
        match hit {
            TimelineHit::WindowTrack(Some(id)) => {
                self.selected_window = Some(id);
                self.selected_trigger = None;
            },
            TimelineHit::WindowTrack(None) => {
                self.selected_window = None;
            },
            TimelineHit::TriggerTrack(Some(id)) => {
                self.selected_trigger = Some(id);
                self.selected_window = None;
            },
            TimelineHit::TriggerTrack(None) => {
                self.selected_trigger = None;
            },
            TimelineHit::Elsewhere => {
                self.selected_window = None;
                self.selected_trigger = None;
            },
        }
    }

    /// Picks `name` in the animation list: it becomes the selection, its
    /// `frames` the frame selection, and the preview restarts.
    pub fn select_animation(&mut self, name: String, frames: Vec<usize>)
        ensures
            opt_text(final(self).selected_animation) == Some(name@),
            final(self).selected_frames@ == frames@,
            final(self).preview_frame == 0,
            final(self).preview_playing == old(self).preview_playing,
            final(self).animation_names@ == old(self).animation_names@,
    {
        self.selected_animation = Some(name);
        self.selected_frames = frames;
        self.preview_frame = 0;
    }

    /// "|<": back to the first frame.
    pub fn first_frame(&mut self)
        ensures
            final(self).preview_frame == 0,
            final(self).preview_playing == old(self).preview_playing,
            final(self).animation_names@ == old(self).animation_names@,
    {
        self.preview_frame = 0;
    }

    /// The play / pause button: pauses a playing preview; starts one only
    /// for an animation with frames (the button is disabled otherwise).
    pub fn toggle_playback(&mut self, frame_count: usize)
        ensures
            final(self).preview_playing == if old(self).preview_playing { false } else { frame_count > 0 },
            final(self).preview_frame == old(self).preview_frame,
            final(self).animation_names@ == old(self).animation_names@,
    {
        if self.preview_playing {
            self.preview_playing = false;
        } else if frame_count > 0 {
            self.preview_playing = true;
        }
    }

    /// "Frames" / "Hide Frames".
    pub fn toggle_frame_picker(&mut self)
        ensures
            final(self).show_frame_picker == !old(self).show_frame_picker,
            final(self).show_preview == old(self).show_preview,
    {
        self.show_frame_picker = !self.show_frame_picker;
    }

    /// "Preview" / "Hide Preview".
    pub fn toggle_preview(&mut self)
        ensures
            final(self).show_preview == !old(self).show_preview,
            final(self).show_frame_picker == old(self).show_frame_picker,
    {
        self.show_preview = !self.show_preview;
    }

    /// Whether the "Sheet..." button is offered: only for a project-level
    /// asset.
    pub fn offers_sheet_editor(&self) -> (r: bool)
        ensures
            r == self.asset_id is Some,
    {
        self.asset_id.is_some()
    }
}

} // verus!
