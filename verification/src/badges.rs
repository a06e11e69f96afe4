//! Role badges shown on person nodes in compact mode, role drag sources, and
//! separation-of-duties conflicts reported during a drag.

use vstd::prelude::*;
use crate::graph_model::Position;
use crate::role_palette::SeparationClass;
use crate::text::{chars_of, string_from_chars, white_space, is_white_space};

verus! {

/// A role shown as a badge on a person.
#[derive(Debug, Clone)]
pub struct RoleBadge {
    pub name: String,
    pub separation_class: SeparationClass,
    pub level: u8,
}

/// The badges shown for one person.
#[derive(Debug, Clone)]
pub struct PersonRoleBadges {
    pub badges: Vec<RoleBadge>,
    /// The person holds more roles than are shown.
    pub has_more: bool,
}

/// Where a dragged role comes from.
#[derive(Debug, Clone, PartialEq)]
pub enum DragSource {
    /// From the palette, to be assigned to a person.
    RoleFromPalette { role_name: String, separation_class: SeparationClass },
    /// From a badge of a person, to be removed or reassigned.
    RoleFromPerson { person_id: u128, role_name: String, separation_class: SeparationClass },
}

/// A separation-of-duties conflict found while dragging a role.
#[derive(Debug, Clone, PartialEq)]
pub struct SoDConflict {
    pub conflicting_role: String,
    pub reason: String,
}

/// A role being dragged onto or from a person: where it comes from, where
/// the cursor is on the canvas, the person under the cursor, and the
/// separation-of-duties conflicts found so far.
#[derive(Debug, Clone)]
pub struct DraggingRole {
    pub source: DragSource,
    pub cursor_position: Position,
    pub hover_person: Option<u128>,
    pub sod_conflicts: Vec<SoDConflict>,
}

/// What a role drag holds.
pub struct RoleDragView {
    pub source: DragSource,
    pub cursor_position: Position,
    pub hover_person: Option<u128>,
    pub sod_conflicts: Seq<SoDConflict>,
}

/// The name of the role a drag carries.
pub open spec fn dragged_role_name(source: DragSource) -> String {
    match source {
        DragSource::RoleFromPalette { role_name, .. } => role_name,
        DragSource::RoleFromPerson { role_name, .. } => role_name,
    }
}

/// The separation class of the role a drag carries.
pub open spec fn dragged_role_class(source: DragSource) -> SeparationClass {
    match source {
        DragSource::RoleFromPalette { separation_class, .. } => separation_class,
        DragSource::RoleFromPerson { separation_class, .. } => separation_class,
    }
}

/// Position `i` of `s` starts a word: a non-space after a space or at the start.
pub open spec fn word_start(s: Seq<char>, i: int) -> bool {
    &&& 0 <= i < s.len()
    &&& !is_white_space(s[i])
    &&& (i == 0 || is_white_space(s[i - 1]))
}

/// The first character of every word of `s`, in order.
pub open spec fn initials(s: Seq<char>) -> Seq<char>
    decreases s.len(),
{
    if s.len() == 0 {
        Seq::empty()
    } else if word_start(s, s.len() - 1) {
        initials(s.drop_last()).push(s.last())
    } else {
        initials(s.drop_last())
    }
}

/// The abbreviation of a role name: names of at most three bytes stay as
/// they are; otherwise the initials of the first three words when there are
/// two words or more, else the first three characters.
pub open spec fn abbreviation(s: Seq<char>) -> Seq<char> {
    if (vstd::utf8::encode_utf8(s).len() as usize) <= 3 {
        s
    } else if initials(s).len() >= 2 {
        initials(s).take(if initials(s).len() < 3 { initials(s).len() as int } else { 3 })
    } else {
        s.take(if s.len() < 3 { s.len() as int } else { 3 })
    }
}

fn initials_of(chars: &Vec<char>) -> (r: Vec<char>)
    ensures
        r@ == initials(chars@),
{
    let mut out: Vec<char> = Vec::new();
    let mut prev_space = true;
    let mut i: usize = 0;
    assert(chars@.take(0) =~= Seq::<char>::empty());
    while i < chars.len()
        invariant
            i <= chars@.len(),
            out@ == initials(chars@.take(i as int)),
            prev_space == (i == 0 || is_white_space(chars@[i - 1])),
        decreases chars.len() - i,
    {
        let c = chars[i];
        let space = white_space(c);
        let ghost t = chars@.take(i + 1);
        proof {
            assert(t.drop_last() =~= chars@.take(i as int));
            assert(word_start(t, i as int) == (!space && prev_space));
        }
        if !space && prev_space {
            out.push(c);
        }
        prev_space = space;
        i = i + 1;
    }
    assert(chars@.take(chars@.len() as int) =~= chars@);
    out
}

impl RoleBadge {
    /// A short form of the role name, at most three characters.
    pub fn abbrev(&self) -> (r: String)
        ensures
            r@ == abbreviation(self.name@),
            r@.len() <= 3,
    {
        let bytes = self.name.as_str().as_bytes();
        proof {
            assert(bytes@.len() == bytes.len());
            lemma_abbreviation_short(self.name@);
        }
        if self.name.as_str().len() <= 3 {
            return self.name.clone();
        }
        let chars = chars_of(self.name.as_str());
        let init = initials_of(&chars);
        let mut out: Vec<char> = Vec::new();
        let source = if init.len() >= 2 { &init } else { &chars };
        let mut i: usize = 0;
        while i < source.len() && i < 3
            invariant
                i <= source@.len(),
                i <= 3,
                out@ == source@.take(i as int),
            decreases 3 - i,
        {
            out.push(source[i]);
            assert(source@.take(i + 1) =~= source@.take(i as int).push(source@[i as int]));
            i = i + 1;
        }
        string_from_chars(&out)
    }
}

proof fn lemma_encoding_at_least_chars(s: Seq<char>)
    ensures
        vstd::utf8::encode_utf8(s).len() >= s.len(),
    decreases s.len(),
{
    if s.len() > 0 {
        lemma_encoding_at_least_chars(s.drop_first());
    }
}

/// An abbreviation never has more than three characters.
pub proof fn lemma_abbreviation_short(s: Seq<char>)
    requires
        vstd::utf8::encode_utf8(s).len() <= usize::MAX,
    ensures
        abbreviation(s).len() <= 3,
{
    lemma_encoding_at_least_chars(s);
}

} // verus!
