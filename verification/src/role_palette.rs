//! Role palette: the roles of the policy grouped by separation class, each
//! group ordered by level (highest first) and name, and which class groups
//! the user has expanded.

use vstd::prelude::*;
use crate::badges::DragSource;
use crate::text::{lex_le, lemma_lex_total, lemma_lex_transitive, text_le};

verus! {

/// Separation-of-duties class of a role.
#[derive(Debug, Clone, Copy, PartialEq, Eq, Structural)]
pub enum SeparationClass {
    Operational,
    Administrative,
    Audit,
    Emergency,
    Financial,
    Personnel,
}

/// Display name of a class.
pub open spec fn class_label(c: SeparationClass) -> Seq<char> {
    match c {
        SeparationClass::Operational => "Operational"@,
        SeparationClass::Administrative => "Administrative"@,
        SeparationClass::Audit => "Audit"@,
        SeparationClass::Emergency => "Emergency"@,
        SeparationClass::Financial => "Financial"@,
        SeparationClass::Personnel => "Personnel"@,
    }
}

/// A set of separation classes.
#[derive(Debug, Clone, Copy, PartialEq, Eq, Structural)]
pub struct ClassSet {
    operational: bool,
    administrative: bool,
    audit: bool,
    emergency: bool,
    financial: bool,
    personnel: bool,
}

impl View for ClassSet {
    type V = Set<SeparationClass>;

    closed spec fn view(&self) -> Set<SeparationClass> {
        Set::new(|c: SeparationClass| match c {
            SeparationClass::Operational => self.operational,
            SeparationClass::Administrative => self.administrative,
            SeparationClass::Audit => self.audit,
            SeparationClass::Emergency => self.emergency,
            SeparationClass::Financial => self.financial,
            SeparationClass::Personnel => self.personnel,
        })
    }
}

impl ClassSet {
    /// The empty set.
    pub fn new() -> (s: Self)
        ensures
            s@ == Set::<SeparationClass>::empty(),
    {
        let s = ClassSet {
            operational: false,
            administrative: false,
            audit: false,
            emergency: false,
            financial: false,
            personnel: false,
        };
        assert(s@ =~= Set::<SeparationClass>::empty());
        s
    }

    /// Whether `c` is in the set.
    pub fn contains(&self, c: &SeparationClass) -> (r: bool)
        ensures
            r == self@.contains(*c),
    {
        match *c {
            SeparationClass::Operational => self.operational,
            SeparationClass::Administrative => self.administrative,
            SeparationClass::Audit => self.audit,
            SeparationClass::Emergency => self.emergency,
            SeparationClass::Financial => self.financial,
            SeparationClass::Personnel => self.personnel,
        }
    }

    fn set_member(&mut self, c: SeparationClass, present: bool)
        ensures
            final(self)@ == (if present { old(self)@.insert(c) } else { old(self)@.remove(c) }),
    {
        match c {
            SeparationClass::Operational => self.operational = present,
            SeparationClass::Administrative => self.administrative = present,
            SeparationClass::Audit => self.audit = present,
            SeparationClass::Emergency => self.emergency = present,
            SeparationClass::Financial => self.financial = present,
            SeparationClass::Personnel => self.personnel = present,
        }
        assert(self@ =~= (if present { old(self)@.insert(c) } else { old(self)@.remove(c) }));
    }

    /// Adds `c`; true when it was not there before.
    pub fn insert(&mut self, c: SeparationClass) -> (r: bool)
        ensures
            final(self)@ == old(self)@.insert(c),
            r == !old(self)@.contains(c),
    {
        let was = self.contains(&c);
        self.set_member(c, true);
        !was
    }

    /// Takes out `c`; true when it was there.
    pub fn remove(&mut self, c: &SeparationClass) -> (r: bool)
        ensures
            final(self)@ == old(self)@.remove(*c),
            r == old(self)@.contains(*c),
    {
        let was = self.contains(c);
        self.set_member(*c, false);
        was
    }
}

/// A standard role of the policy.
#[derive(Debug, Clone)]
pub struct StandardRoleEntry {
    pub name: String,
    pub level: u8,
    pub separation_class: SeparationClass,
    pub claims: Vec<String>,
}

impl StandardRoleEntry {
    /// The separation class of the role.
    pub fn separation_class_enum(&self) -> (c: SeparationClass)
        ensures
            c == self.separation_class,
    {
        self.separation_class
    }
}

/// The roles loaded from the policy bootstrap file.
#[derive(Debug, Clone)]
pub struct PolicyBootstrapData {
    pub standard_roles: Vec<StandardRoleEntry>,
}

/// Messages of the role palette.
#[derive(Debug, Clone)]
pub enum RolePaletteMessage {
    ToggleCategory(SeparationClass),
    StartDrag { role_name: String, separation_class: SeparationClass },
    CancelDrag,
}

/// State of the role palette.
#[derive(Debug, Clone)]
pub struct RolePalette {
    pub expanded: ClassSet,
    pub collapsed: bool,
}

/// `a` is listed no later than `b`: higher level first, then by name.
pub open spec fn role_before(a: StandardRoleEntry, b: StandardRoleEntry) -> bool {
    a.level > b.level || (a.level == b.level && lex_le(a.name@, b.name@))
}

/// `s` is ordered by `role_before`.
pub open spec fn roles_sorted(s: Seq<StandardRoleEntry>) -> bool {
    forall|i: int, j: int| 0 <= i < j < s.len() ==> role_before(s[i], s[j])
}

/// The roles of class `c`, in policy order.
pub open spec fn roles_of_class(roles: Seq<StandardRoleEntry>, c: SeparationClass) -> Seq<StandardRoleEntry> {
    roles.filter(|r: StandardRoleEntry| r.separation_class == c)
}

/// The entries that a sequence of references points to.
pub open spec fn derefs(s: Seq<&StandardRoleEntry>) -> Seq<StandardRoleEntry> {
    s.map_values(|r: &StandardRoleEntry| *r)
}

/// Every class, in declaration order.
pub open spec fn all_classes() -> Seq<SeparationClass> {
    seq![
        SeparationClass::Operational,
        SeparationClass::Administrative,
        SeparationClass::Audit,
        SeparationClass::Emergency,
        SeparationClass::Financial,
        SeparationClass::Personnel,
    ]
}

/// The classes that have at least one role, in declaration order.
pub open spec fn present_classes(roles: Seq<StandardRoleEntry>) -> Seq<SeparationClass> {
    all_classes().filter(|c: SeparationClass| roles_of_class(roles, c).len() > 0)
}

/// `groups` holds, for each class that has roles, in declaration order,
/// the roles of that class ordered by `role_before`.
pub open spec fn grouping_of(roles: Seq<StandardRoleEntry>, groups: Seq<(SeparationClass, Seq<StandardRoleEntry>)>) -> bool {
    &&& groups.len() == present_classes(roles).len()
    &&& forall|g: int| 0 <= g < groups.len() ==> {
        &&& (#[trigger] groups[g]).0 == present_classes(roles)[g]
        &&& roles_sorted(groups[g].1)
        &&& groups[g].1.to_multiset() == roles_of_class(roles, groups[g].0).to_multiset()
    }
}

proof fn lemma_before_total(a: StandardRoleEntry, b: StandardRoleEntry)
    ensures
        role_before(a, b) || role_before(b, a),
{
    lemma_lex_total(a.name@, b.name@);
}

proof fn lemma_before_transitive(a: StandardRoleEntry, b: StandardRoleEntry, c: StandardRoleEntry)
    requires
        role_before(a, b),
        role_before(b, c),
    ensures
        role_before(a, c),
{
    if a.level == b.level && b.level == c.level {
        lemma_lex_transitive(a.name@, b.name@, c.name@);
    }
}

fn before(a: &StandardRoleEntry, b: &StandardRoleEntry) -> (r: bool)
    ensures
        r == role_before(*a, *b),
{
    a.level > b.level || (a.level == b.level && text_le(a.name.as_str(), b.name.as_str()))
}

proof fn lemma_insert_multiset<A>(s: Seq<A>, pos: int, x: A)
    requires
        0 <= pos <= s.len(),
    ensures
        s.insert(pos, x).to_multiset() == s.to_multiset().insert(x),
{
    let t = s.insert(pos, x);
    s.insert_ensures(pos, x);
    assert(t.remove(pos) =~= s);
    t.to_multiset_ensures();
    assert(t.to_multiset().count(x) > 0);
    assert(t.to_multiset() =~= s.to_multiset().insert(x));
}

/// The roles of class `c`, ordered by level (highest first) and then name;
/// roles that compare equal keep their policy order.
fn sorted_group<'a>(roles: &'a Vec<StandardRoleEntry>, c: SeparationClass) -> (out: Vec<&'a StandardRoleEntry>)
    ensures
        roles_sorted(derefs(out@)),
        derefs(out@).to_multiset() == roles_of_class(roles@, c).to_multiset(),
{
    let ghost pred = |r: StandardRoleEntry| r.separation_class == c;
    let mut out: Vec<&'a StandardRoleEntry> = Vec::new();
    let mut i: usize = 0;
    assert(derefs(out@) =~= Seq::<StandardRoleEntry>::empty());
    proof {
        reveal_with_fuel(Seq::filter, 1);
        assert(roles@.take(0).filter(pred) =~= Seq::<StandardRoleEntry>::empty());
    }
    while i < roles.len()
        invariant
            i <= roles@.len(),
            pred == (|r: StandardRoleEntry| r.separation_class == c),
            roles_sorted(derefs(out@)),
            derefs(out@).to_multiset() == roles@.take(i as int).filter(pred).to_multiset(),
        decreases roles.len() - i,
    {
        proof {
            reveal_with_fuel(Seq::filter, 1);
            assert(roles@.take(i + 1).drop_last() =~= roles@.take(i as int));
        }
        let r = &roles[i];
        if r.separation_class == c {
            let mut pos: usize = 0;
            while pos < out.len() && before(out[pos], r)
                invariant
                    pos <= out@.len(),
                    forall|k: int| 0 <= k < pos ==> role_before(#[trigger] derefs(out@)[k], *r),
                decreases out.len() - pos,
            {
                pos = pos + 1;
            }
            let ghost old_vals = derefs(out@);
            out.insert(pos, r);
            proof {
                assert(derefs(out@) =~= old_vals.insert(pos as int, *r));
                lemma_insert_multiset(old_vals, pos as int, *r);
                let before_filter = roles@.take(i as int).filter(pred);
                assert(roles@.take(i + 1).filter(pred) =~= before_filter.push(*r));
                before_filter.to_multiset_ensures();
                old_vals.insert_ensures(pos as int, *r);
                let vals = derefs(out@);
                assert forall|a: int, b: int| 0 <= a < b < vals.len() implies role_before(vals[a], vals[b]) by {
                    if b < pos {
                    } else if b == pos {
                        assert(role_before(old_vals[a], *r));
                    } else if a == pos {
                        // r comes before old_vals[pos], which comes before the rest
                        assert(!role_before(old_vals[pos as int], *r));
                        lemma_before_total(*r, old_vals[pos as int]);
                        if b - 1 > pos {
                            lemma_before_transitive(*r, old_vals[pos as int], old_vals[b - 1]);
                        }
                    } else if a < pos {
                        assert(vals[a] == old_vals[a]);
                        assert(vals[b] == old_vals[b - 1]);
                    } else {
                        assert(vals[a] == old_vals[a - 1]);
                        assert(vals[b] == old_vals[b - 1]);
                    }
                }
            }
        } else {
            proof {
                assert(roles@.take(i + 1).filter(pred) =~= roles@.take(i as int).filter(pred));
            }
        }
        i = i + 1;
    }
    assert(roles@.take(roles@.len() as int) =~= roles@);
    out
}

impl Default for RolePalette {
    fn default() -> (p: Self)
        ensures
            p.expanded@ == Set::<SeparationClass>::empty(),
            !p.collapsed,
    {
        RolePalette { expanded: ClassSet::new(), collapsed: false }
    }
}

impl RolePalette {
    /// A palette with every class folded and the palette itself open.
    pub fn new() -> (p: Self)
        ensures
            p.expanded@ == Set::<SeparationClass>::empty(),
            !p.collapsed,
    {
        Self::default()
    }

    /// Folds or unfolds the whole palette.
    pub fn toggle_collapsed(&mut self)
        ensures
            final(self).collapsed == !old(self).collapsed,
            final(self).expanded == old(self).expanded,
    {
        self.collapsed = !self.collapsed;
    }

    /// Folds an unfolded class or unfolds a folded one.
    pub fn toggle_category(&mut self, class: SeparationClass)
        ensures
            final(self).expanded@ == (if old(self).expanded@.contains(class) {
                old(self).expanded@.remove(class)
            } else {
                old(self).expanded@.insert(class)
            }),
            final(self).collapsed == old(self).collapsed,
    {
        if self.expanded.contains(&class) {
            self.expanded.remove(&class);
        } else {
            self.expanded.insert(class);
        }
    }

    /// Whether the roles of `class` are shown.
    pub fn is_expanded(&self, class: &SeparationClass) -> (r: bool)
        ensures
            r == self.expanded@.contains(*class),
    {
        self.expanded.contains(class)
    }

    /// Display name of a class.
    pub fn class_name(class: &SeparationClass) -> (r: &'static str)
        ensures
            r@ == class_label(*class),
    {
        match class {
            SeparationClass::Operational => "Operational",
            SeparationClass::Administrative => "Administrative",
            SeparationClass::Audit => "Audit",
            SeparationClass::Emergency => "Emergency",
            SeparationClass::Financial => "Financial",
            SeparationClass::Personnel => "Personnel",
        }
    }

    /// The roles of the policy grouped by class. Each class with at least one
    /// role appears once, in declaration order, with its roles ordered by
    /// level (highest first) and then by name.
    pub fn group_roles_by_class(policy_data: &PolicyBootstrapData) -> (r: Vec<(SeparationClass, Vec<&StandardRoleEntry>)>)
        ensures
            grouping_of(
                policy_data.standard_roles@,
                r@.map_values(|g: (SeparationClass, Vec<&StandardRoleEntry>)| (g.0, derefs(g.1@))),
            ),
    {
        let roles = &policy_data.standard_roles;
        let mut classes: Vec<SeparationClass> = Vec::new();
        classes.push(SeparationClass::Operational);
        classes.push(SeparationClass::Administrative);
        classes.push(SeparationClass::Audit);
        classes.push(SeparationClass::Emergency);
        classes.push(SeparationClass::Financial);
        classes.push(SeparationClass::Personnel);
        assert(classes@ =~= all_classes());
        let ghost present = |c: SeparationClass| roles_of_class(roles@, c).len() > 0;
        let mut out: Vec<(SeparationClass, Vec<&StandardRoleEntry>)> = Vec::new();
        let mut k: usize = 0;
        while k < classes.len()
            invariant
                classes@ == all_classes(),
                k <= classes@.len(),
                present == (|c: SeparationClass| roles_of_class(roles@, c).len() > 0),
                grouping_prefix(roles@, out@.map_values(|g: (SeparationClass, Vec<&StandardRoleEntry>)| (g.0, derefs(g.1@))),
                    all_classes().take(k as int).filter(present)),
            decreases classes.len() - k,
        {
            let c = classes[k];
            let group = sorted_group(roles, c);
            let ghost before_out = out@.map_values(|g: (SeparationClass, Vec<&StandardRoleEntry>)| (g.0, derefs(g.1@)));
            proof {
                lemma_multiset_len(roles_of_class(roles@, c), derefs(group@));
                reveal_with_fuel(Seq::filter, 1);
                assert(all_classes().take(k + 1).drop_last() =~= all_classes().take(k as int));
            }
            if group.len() > 0 {
                out.push((c, group));
            }
            proof {
                let now = out@.map_values(|g: (SeparationClass, Vec<&StandardRoleEntry>)| (g.0, derefs(g.1@)));
                if group@.len() > 0 {
                    assert(now =~= before_out.push((c, derefs(group@))));
                } else {
                    assert(now =~= before_out);
                }
            }
            k = k + 1;
        }
        assert(all_classes().take(6) =~= all_classes());
        out
    }
}

/// `groups` pairs each class of `classes` with its sorted roles.
pub open spec fn grouping_prefix(
    roles: Seq<StandardRoleEntry>,
    groups: Seq<(SeparationClass, Seq<StandardRoleEntry>)>,
    classes: Seq<SeparationClass>,
) -> bool {
    &&& groups.len() == classes.len()
    &&& forall|g: int| 0 <= g < groups.len() ==> {
        &&& (#[trigger] groups[g]).0 == classes[g]
        &&& roles_sorted(groups[g].1)
        &&& groups[g].1.to_multiset() == roles_of_class(roles, groups[g].0).to_multiset()
    }
}

proof fn lemma_multiset_len<A>(a: Seq<A>, b: Seq<A>)
    requires
        a.to_multiset() == b.to_multiset(),
    ensures
        a.len() == b.len(),
{
    a.to_multiset_ensures();
    b.to_multiset_ensures();
}

/// Folding or unfolding the same class twice gives back the palette.
pub proof fn lemma_toggle_category_twice(s: Set<SeparationClass>, c: SeparationClass)
    ensures
        ({
            let once = if s.contains(c) { s.remove(c) } else { s.insert(c) };
            let twice = if once.contains(c) { once.remove(c) } else { once.insert(c) };
            twice == s
        }),
{
    let once = if s.contains(c) { s.remove(c) } else { s.insert(c) };
    let twice = if once.contains(c) { once.remove(c) } else { once.insert(c) };
    assert(twice =~= s);
}

/// Each role appears in the group of its own class.
pub proof fn lemma_role_in_its_group(
    roles: Seq<StandardRoleEntry>,
    groups: Seq<(SeparationClass, Seq<StandardRoleEntry>)>,
    i: int,
)
    requires
        grouping_of(roles, groups),
        0 <= i < roles.len(),
    ensures
        exists|g: int| 0 <= g < groups.len() && groups[g].0 == roles[i].separation_class
            && groups[g].1.contains(roles[i]),
{
    let c = roles[i].separation_class;
    let f = roles_of_class(roles, c);
    let pred = |r: StandardRoleEntry| r.separation_class == c;
    roles.lemma_filter_contains(pred, i);
    assert(f.contains(roles[i]));
    let present = |x: SeparationClass| roles_of_class(roles, x).len() > 0;
    let ci: int = match c {
        SeparationClass::Operational => 0,
        SeparationClass::Administrative => 1,
        SeparationClass::Audit => 2,
        SeparationClass::Emergency => 3,
        SeparationClass::Financial => 4,
        SeparationClass::Personnel => 5,
    };
    assert(all_classes()[ci] == c);
    all_classes().lemma_filter_contains(present, ci);
    assert(present_classes(roles).contains(c));
    let g = choose|g: int| 0 <= g < present_classes(roles).len() && present_classes(roles)[g] == c;
    assert(groups[g].0 == c);
    f.to_multiset_ensures();
    groups[g].1.to_multiset_ensures();
    assert(groups[g].1.to_multiset().count(roles[i]) > 0);
}


/// The drag a palette message starts: a drag of the named role from the
/// palette for a start-drag message, none for any other.
pub open spec fn drag_started_by(msg: RolePaletteMessage) -> Option<DragSource> {
    match msg {
        RolePaletteMessage::StartDrag { role_name, separation_class } => Some(
            DragSource::RoleFromPalette { role_name, separation_class },
        ),
        _ => None,
    }
}

impl From<RolePaletteMessage> for Option<DragSource> {
    fn from(msg: RolePaletteMessage) -> (r: Self) {
        match msg {
            RolePaletteMessage::StartDrag { role_name, separation_class } => Some(
                DragSource::RoleFromPalette { role_name, separation_class },
            ),
            _ => None,
        }
    }
}

impl vstd::std_specs::convert::FromSpecImpl<RolePaletteMessage> for Option<DragSource> {
    open spec fn obeys_from_spec() -> bool {
        true
    }

    open spec fn from_spec(v: RolePaletteMessage) -> Self {
        drag_started_by(v)
    }
}

} // verus!
