//! Data types of the schema as the type editor changes them: the type's
//! settings (placeable, marker size, colour, icon) and the order and
//! presence of its properties.
use vstd::prelude::*;
use crate::color::Rgb;

verus! {

/// A property of a data type, as far as the type editor's list reads it.
#[derive(Debug)]
pub struct PropertyDef {
    pub name: String,
    /// The property's type, as displayed.
    pub prop_type: String,
    pub required: bool,
}

pub struct PropertyDefView {
    pub name: Seq<char>,
    pub prop_type: Seq<char>,
    pub required: bool,
}

impl View for PropertyDef {
    type V = PropertyDefView;

    open spec fn view(&self) -> PropertyDefView {
        PropertyDefView { name: self.name@, prop_type: self.prop_type@, required: self.required }
    }
}

/// A data type of the schema.
#[derive(Debug)]
pub struct TypeDef {
    /// Whether instances can be placed in levels.
    pub placeable: bool,
    /// Marker colour as `#rrggbb` text.
    pub color: String,
    /// Path of the icon image, if any.
    pub icon: Option<String>,
    /// Size of the level marker in pixels, for placeable types.
    pub marker_size: Option<u32>,
    pub properties: Vec<PropertyDef>,
}

pub struct TypeDefView {
    pub placeable: bool,
    pub color: Seq<char>,
    pub icon: Option<Seq<char>>,
    pub marker_size: Option<u32>,
    pub properties: Seq<PropertyDefView>,
}

pub open spec fn properties_view(s: Seq<PropertyDef>) -> Seq<PropertyDefView> {
    Seq::new(s.len(), |i: int| s[i]@)
}

impl View for TypeDef {
    type V = TypeDefView;

    open spec fn view(&self) -> TypeDefView {
        TypeDefView {
            placeable: self.placeable,
            color: self.color@,
            icon: match self.icon {
                Some(s) => Some(s@),
                None => None,
            },
            marker_size: self.marker_size,
            properties: properties_view(self.properties@),
        }
    }
}

/// The lower-case hexadecimal digit of `d`, below 16.
pub open spec fn hex_char(d: nat) -> char {
    if d == 0 { '0' }
    else if d == 1 { '1' }
    else if d == 2 { '2' }
    else if d == 3 { '3' }
    else if d == 4 { '4' }
    else if d == 5 { '5' }
    else if d == 6 { '6' }
    else if d == 7 { '7' }
    else if d == 8 { '8' }
    else if d == 9 { '9' }
    else if d == 10 { 'a' }
    else if d == 11 { 'b' }
    else if d == 12 { 'c' }
    else if d == 13 { 'd' }
    else if d == 14 { 'e' }
    else { 'f' }
}

/// `b` as two lower-case hexadecimal digits.
pub open spec fn hex_byte(b: u8) -> Seq<char> {
    seq![hex_char((b / 16) as nat), hex_char((b % 16) as nat)]
}

/// The text `#rrggbb` of a colour, in lower case.
pub open spec fn color_text(c: Rgb) -> Seq<char> {
    seq!['#'] + hex_byte(c.r) + hex_byte(c.g) + hex_byte(c.b)
}

fn hex_digit_str(d: u8) -> (r: &'static str)
    requires
        d < 16,
    ensures
        r@ == seq![hex_char(d as nat)],
{
    proof {
        reveal_strlit("0");
        reveal_strlit("1");
        reveal_strlit("2");
        reveal_strlit("3");
        reveal_strlit("4");
        reveal_strlit("5");
        reveal_strlit("6");
        reveal_strlit("7");
        reveal_strlit("8");
        reveal_strlit("9");
        reveal_strlit("a");
        reveal_strlit("b");
        reveal_strlit("c");
        reveal_strlit("d");
        reveal_strlit("e");
        reveal_strlit("f");
    }
    let r = if d == 0 { "0" }
    else if d == 1 { "1" }
    else if d == 2 { "2" }
    else if d == 3 { "3" }
    else if d == 4 { "4" }
    else if d == 5 { "5" }
    else if d == 6 { "6" }
    else if d == 7 { "7" }
    else if d == 8 { "8" }
    else if d == 9 { "9" }
    else if d == 10 { "a" }
    else if d == 11 { "b" }
    else if d == 12 { "c" }
    else if d == 13 { "d" }
    else if d == 14 { "e" }
    else { "f" };
    assert(r@ =~= seq![hex_char(d as nat)]);
    r
}

fn push_hex_byte(s: &mut String, b: u8)
    ensures
        final(s)@ == old(s)@ + hex_byte(b),
{
    s.append(hex_digit_str(b / 16));
    s.append(hex_digit_str(b % 16));
    assert(s@ =~= old(s)@ + hex_byte(b));
}

/// The colour as `#rrggbb` text, in lower case.
pub fn color_hex_text(c: Rgb) -> (r: String)
    ensures
        r@ == color_text(c),
{
    let mut s = String::from_str("#");
    proof {
        reveal_strlit("#");
    }
    push_hex_byte(&mut s, c.r);
    push_hex_byte(&mut s, c.g);
    push_hex_byte(&mut s, c.b);
    assert(s@ =~= color_text(c));
    s
}

/// `s` with the elements at `i` and `j` exchanged.
pub open spec fn swapped<A>(s: Seq<A>, i: int, j: int) -> Seq<A> {
    s.update(i, s[j]).update(j, s[i])
}

/// Moving a property back undoes the move: exchanging two places twice
/// gives the list as it was.
pub proof fn law_move_round_trip<A>(s: Seq<A>, i: int, j: int)
    requires
        0 <= i < s.len(),
        0 <= j < s.len(),
    ensures
        swapped(swapped(s, i, j), j, i) == s,
        swapped(s, i, j).len() == s.len(),
{
    assert(swapped(swapped(s, i, j), j, i) =~= s);
}

impl TypeDef {
    /// Applies the settings of the type editor: whether the type is
    /// placeable, its marker size (kept only for placeable types), its
    /// colour, and its icon path (none for an empty path). The properties
    /// stay.
    pub fn apply_type_settings(&mut self, placeable: bool, marker_size: u32, color: Rgb, icon: String)
        ensures
            final(self)@ == (TypeDefView {
                placeable,
                marker_size: if placeable { Some(marker_size) } else { None },
                color: color_text(color),
                icon: if icon@.len() == 0 { None } else { Some(icon@) },
                properties: old(self)@.properties,
            }),
    {
        self.placeable = placeable;
        self.marker_size = if placeable { Some(marker_size) } else { None };
        self.color = color_hex_text(color);
        self.icon = if icon.as_str().unicode_len() == 0 { None } else { Some(icon) };
    }

    /// Deletes the property at `idx`.
    pub fn delete_property(&mut self, idx: usize)
        requires
            idx < old(self).properties@.len(),
        ensures
            final(self)@ == (TypeDefView { properties: old(self)@.properties.remove(idx as int), ..old(self)@ }),
    {
        self.properties.remove(idx);
        assert(properties_view(self.properties@) =~= old(self)@.properties.remove(idx as int));
    }

    /// Moves the property at `idx` one place up (towards the front) or
    /// down, and returns its new place for selection; `None`, with nothing
    /// changed, where it is already first (up) or last (down).
    pub fn move_property(&mut self, idx: usize, up: bool) -> (r: Option<usize>)
        requires
            idx < old(self).properties@.len(),
        ensures
            up && idx > 0 ==> r == Some((idx - 1) as usize) && final(self)@ == (TypeDefView {
                properties: swapped(old(self)@.properties, idx as int, idx - 1),
                ..old(self)@
            }),
            !up && idx + 1 < old(self).properties@.len() ==> r == Some((idx + 1) as usize) && final(self)@
                == (TypeDefView { properties: swapped(old(self)@.properties, idx as int, idx + 1), ..old(self)@ }),
            (up && idx == 0) || (!up && idx + 1 == old(self).properties@.len()) ==> r is None && final(self)@
                == old(self)@,
    {
        let other = if up {
            if idx == 0 {
                return None;
            }
            idx - 1
        } else {
            if idx >= self.properties.len() - 1 {
                return None;
            }
            idx + 1
        };
        let ghost before = properties_view(self.properties@);
        let (lo, hi) = if idx < other { (idx, other) } else { (other, idx) };
        let moved = self.properties.remove(hi);
        self.properties.insert(lo, moved);
        assert(properties_view(self.properties@) =~= swapped(before, idx as int, other as int));
        Some(other)
    }
}

/// The part of the schema editor's state that its type editor changes:
/// which property is selected, and which property dialog is open.
#[derive(Debug, Clone, Copy, PartialEq, Eq, Structural)]
pub struct TypeEditorState {
    pub selected_property_idx: Option<usize>,
    pub show_add_property_dialog: bool,
    pub show_edit_property_dialog: bool,
}

impl TypeEditorState {
    /// Nothing selected, no dialog open.
    pub fn new() -> (r: Self)
        ensures
            r == (TypeEditorState {
                selected_property_idx: None,
                show_add_property_dialog: false,
                show_edit_property_dialog: false,
            }),
    {
        TypeEditorState { selected_property_idx: None, show_add_property_dialog: false, show_edit_property_dialog: false }
    }

    /// "+ Add Property": opens the add dialog.
    pub fn request_add_property(&mut self)
        ensures
            *final(self) == (TypeEditorState { show_add_property_dialog: true, ..*old(self) }),
    {
        self.show_add_property_dialog = true;
    }

    /// "Edit" on the property at `idx`: selects it and opens the edit dialog.
    pub fn request_edit_property(&mut self, idx: usize)
        ensures
            *final(self) == (TypeEditorState {
                selected_property_idx: Some(idx),
                show_edit_property_dialog: true,
                ..*old(self)
            }),
    {
        self.selected_property_idx = Some(idx);
        self.show_edit_property_dialog = true;
    }

    /// "X" on the property at `idx`: deletes it from `type_def` and clears
    /// the selection.
    pub fn delete_property(&mut self, type_def: &mut TypeDef, idx: usize)
        requires
            idx < old(type_def).properties@.len(),
        ensures
            final(type_def)@ == (TypeDefView { properties: old(type_def)@.properties.remove(idx as int), ..old(type_def)@ }),
            *final(self) == (TypeEditorState { selected_property_idx: None, ..*old(self) }),
    {
        type_def.delete_property(idx);
        self.selected_property_idx = None;
    }

    /// "^" or "v" on the property at `idx`: moves it in `type_def` and
    /// selects it at its new place; nothing changes where it cannot move.
    pub fn move_property(&mut self, type_def: &mut TypeDef, idx: usize, up: bool)
        requires
            idx < old(type_def).properties@.len(),
        ensures
            up && idx > 0 ==> final(type_def)@ == (TypeDefView {
                properties: swapped(old(type_def)@.properties, idx as int, idx - 1),
                ..old(type_def)@
            }) && *final(self) == (TypeEditorState { selected_property_idx: Some((idx - 1) as usize), ..*old(self) }),
            !up && idx + 1 < old(type_def).properties@.len() ==> final(type_def)@ == (TypeDefView {
                properties: swapped(old(type_def)@.properties, idx as int, idx + 1),
                ..old(type_def)@
            }) && *final(self) == (TypeEditorState { selected_property_idx: Some((idx + 1) as usize), ..*old(self) }),
            (up && idx == 0) || (!up && idx + 1 == old(type_def).properties@.len()) ==> final(type_def)@
                == old(type_def)@ && *final(self) == *old(self),
    {
        match type_def.move_property(idx, up) {
            Some(n) => {
                self.selected_property_idx = Some(n);
            },
            None => {},
        }
    }
}

} // verus!
