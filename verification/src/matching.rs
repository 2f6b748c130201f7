//! Which courses of a selection a leaf, or a subtree, speaks of.
use crate::selection::{SelectedCourse, StudentSelection};
use crate::tree::{
    ComponentPayload, ComponentPayloadLeaf, CurriculumReference, EquivalenceGroup, WildCardItem,
};
use vstd::prelude::*;

verus! {

/// Whether `pattern` fits the start of `text`, a `*` standing for any one
/// character.
pub open spec fn pattern_matches(pattern: Seq<char>, text: Seq<char>) -> bool {
    &&& pattern.len() <= text.len()
    &&& forall|i: int|
        0 <= i < pattern.len() ==> ((#[trigger] pattern[i]) == '*' || pattern[i] == text[i])
}

/// Whether the course is of the class that the wildcard names: its code fits
/// the pattern, and where the wildcard names an organisation the course is
/// known to come from it.
pub open spec fn wildcard_fits(w: WildCardItem, c: SelectedCourse) -> bool {
    &&& pattern_matches(w.code@, c.code.text())
    &&& w.org_code is Some ==> c.org_code is Some && c.org_code->Some_0@ == w.org_code->Some_0@
}

/// Whether the reference points to the course.
pub open spec fn reference_names(r: CurriculumReference, c: SelectedCourse) -> bool {
    r.code is Some && r.code->Some_0@ == c.code.text()
}

/// Whether one member of the group points to the course.
pub open spec fn group_names(g: Seq<EquivalenceGroup>, c: SelectedCourse) -> bool {
    exists|m: int| 0 <= m < g.len() && reference_names((#[trigger] g[m]).curriculum_reference, c)
}

/// Whether the leaf points to the course by its code.
pub open spec fn leaf_names(leaf: ComponentPayloadLeaf, c: SelectedCourse) -> bool {
    match leaf {
        ComponentPayloadLeaf::CurriculumReference { curriculum_reference, .. } => reference_names(
            curriculum_reference,
            c,
        ),
        ComponentPayloadLeaf::EquivalenceGroup { equivalence_group, .. } => group_names(
            equivalence_group@,
            c,
        ),
        ComponentPayloadLeaf::WildCardItem { .. } => false,
    }
}

/// Whether the course can fill the leaf: the leaf points to it, or is a
/// wildcard that it fits.
pub open spec fn leaf_admits(leaf: ComponentPayloadLeaf, c: SelectedCourse) -> bool {
    match leaf {
        ComponentPayloadLeaf::WildCardItem { wild_card_item, .. } => wildcard_fits(
            wild_card_item,
            c,
        ),
        _ => leaf_names(leaf, c),
    }
}

/// Whether the course belongs to the subtree: some leaf of it admits the
/// course. A node without children stands for a group that lists nothing, and
/// every course belongs to it.
pub open spec fn attributable(tree: ComponentPayload, c: SelectedCourse) -> bool
    decreases tree,
{
    match tree {
        ComponentPayload::Leaf(leaf) => leaf_admits(leaf, c),
        ComponentPayload::Node { header, body } => body@.len() == 0 || exists|i: int|
            0 <= i < body@.len() && attributable(#[trigger] body@[i], c),
    }
}

/// Whether the course belongs to a node with the children `body`.
pub open spec fn in_scope(body: Seq<ComponentPayload>, c: SelectedCourse) -> bool {
    body.len() == 0 || exists|i: int| 0 <= i < body.len() && attributable(#[trigger] body[i], c)
}

/// Whether what the reference points to is in the selection, as a course or
/// as a program that the student is known to be in.
pub open spec fn reference_present(r: CurriculumReference, sel: StudentSelection) -> bool {
    r.code is Some && (sel.has_course_text(r.code->Some_0@) || sel.has_program_text(
        r.code->Some_0@,
    ))
}

/// Whether what some member of the group points to is in the selection.
pub open spec fn group_present(g: Seq<EquivalenceGroup>, sel: StudentSelection) -> bool {
    exists|m: int|
        0 <= m < g.len() && reference_present((#[trigger] g[m]).curriculum_reference, sel)
}

/// Whether `pattern` fits the start of `text`, a `*` standing for any one
/// character.
pub fn matches_pattern(pattern: &str, text: &str) -> (r: bool)
    ensures
        r == pattern_matches(pattern@, text@),
{
    let n: usize = pattern.unicode_len();
    if n > text.unicode_len() {
        return false;
    }
    let mut i: usize = 0;
    while i < n
        invariant
            n == pattern@.len(),
            n <= text@.len(),
            i <= n,
            forall|k: int|
                0 <= k < i ==> ((#[trigger] pattern@[k]) == '*' || pattern@[k] == text@[k]),
        decreases n - i,
    {
        let p = pattern.get_char(i);
        if p != '*' && p != text.get_char(i) {
            return false;
        }
        i = i + 1;
    }
    true
}

/// Whether the course is of the class that the wildcard names.
pub fn fits_wildcard(w: &WildCardItem, c: &SelectedCourse) -> (r: bool)
    ensures
        r == wildcard_fits(*w, *c),
{
    let written = c.code.to_string();
    if !matches_pattern(w.code.as_str(), written.as_str()) {
        return false;
    }
    match &w.org_code {
        None => true,
        Some(wanted) => match &c.org_code {
            None => false,
            Some(given) => *given == *wanted,
        },
    }
}

/// Whether the reference points to the course.
pub fn names_course(r: &CurriculumReference, c: &SelectedCourse) -> (res: bool)
    ensures
        res == reference_names(*r, *c),
{
    match &r.code {
        None => false,
        Some(code) => {
            let written = c.code.to_string();
            *code == written
        },
    }
}

/// Whether one member of the group points to the course.
pub fn group_names_course(g: &Vec<EquivalenceGroup>, c: &SelectedCourse) -> (r: bool)
    ensures
        r == group_names(g@, *c),
{
    let mut m: usize = 0;
    while m < g.len()
        invariant
            m <= g.len(),
            forall|k: int|
                0 <= k < m ==> !reference_names((#[trigger] g@[k]).curriculum_reference, *c),
        decreases g.len() - m,
    {
        if names_course(&g[m].curriculum_reference, c) {
            return true;
        }
        m = m + 1;
    }
    false
}

/// Whether the leaf points to the course by its code.
pub fn leaf_names_course(leaf: &ComponentPayloadLeaf, c: &SelectedCourse) -> (r: bool)
    ensures
        r == leaf_names(*leaf, *c),
{
    match leaf {
        ComponentPayloadLeaf::CurriculumReference { curriculum_reference, .. } => names_course(
            curriculum_reference,
            c,
        ),
        ComponentPayloadLeaf::EquivalenceGroup { equivalence_group, .. } => group_names_course(
            equivalence_group,
            c,
        ),
        ComponentPayloadLeaf::WildCardItem { .. } => false,
    }
}

/// Whether the course can fill the leaf.
pub fn leaf_admits_course(leaf: &ComponentPayloadLeaf, c: &SelectedCourse) -> (r: bool)
    ensures
        r == leaf_admits(*leaf, *c),
{
    match leaf {
        ComponentPayloadLeaf::WildCardItem { wild_card_item, .. } => fits_wildcard(
            wild_card_item,
            c,
        ),
        _ => leaf_names_course(leaf, c),
    }
}

/// Whether the course belongs to the subtree.
pub fn is_attributable(tree: &ComponentPayload, c: &SelectedCourse) -> (r: bool)
    ensures
        r == attributable(*tree, *c),
    decreases *tree,
{
    match tree {
        ComponentPayload::Leaf(leaf) => leaf_admits_course(leaf, c),
        ComponentPayload::Node { header, body } => {
            if body.len() == 0 {
                return true;
            }
            let mut i: usize = 0;
            while i < body.len()
                invariant
                    *tree is Node,
                    *body == tree->body,
                    i <= body.len(),
                    forall|k: int| 0 <= k < i ==> !attributable(#[trigger] body@[k], *c),
                decreases body.len() - i,
            {
                proof {
                    assert(decreases_to!(tree->body => tree->body[i as int]));
                }
                if is_attributable(&body[i], c) {
                    return true;
                }
                i = i + 1;
            }
            false
        },
    }
}

/// Whether the course belongs to a node with the children `body`.
pub fn is_in_scope(body: &Vec<ComponentPayload>, c: &SelectedCourse) -> (r: bool)
    ensures
        r == in_scope(body@, *c),
{
    if body.len() == 0 {
        return true;
    }
    let mut i: usize = 0;
    while i < body.len()
        invariant
            i <= body.len(),
            forall|k: int| 0 <= k < i ==> !attributable(#[trigger] body@[k], *c),
        decreases body.len() - i,
    {
        if is_attributable(&body[i], c) {
            return true;
        }
        i = i + 1;
    }
    false
}

/// Whether what the reference points to is in the selection.
pub fn is_reference_present(r: &CurriculumReference, sel: &StudentSelection) -> (res: bool)
    ensures
        res == reference_present(*r, *sel),
{
    match &r.code {
        None => false,
        Some(code) => sel.holds_course_text(code) || sel.holds_program_text(code),
    }
}

/// Whether what some member of the group points to is in the selection.
pub fn is_group_present(g: &Vec<EquivalenceGroup>, sel: &StudentSelection) -> (r: bool)
    ensures
        r == group_present(g@, *sel),
{
    let mut m: usize = 0;
    while m < g.len()
        invariant
            m <= g.len(),
            forall|k: int|
                0 <= k < m ==> !reference_present((#[trigger] g@[k]).curriculum_reference, *sel),
        decreases g.len() - m,
    {
        if is_reference_present(&g[m].curriculum_reference, sel) {
            return true;
        }
        m = m + 1;
    }
    false
}

/// Whether the member at position `i` is the one to name when a group is
/// satisfied: what it points to is in the selection, and no other such member
/// has a lower order number, or the same one at an earlier position.
pub open spec fn is_first_present(g: Seq<EquivalenceGroup>, sel: StudentSelection, i: int) -> bool {
    &&& 0 <= i < g.len()
    &&& reference_present(g[i].curriculum_reference, sel)
    &&& forall|j: int|
        0 <= j < g.len() && reference_present((#[trigger] g[j]).curriculum_reference, sel)
            ==> g[i].order_number < g[j].order_number || (g[i].order_number == g[j].order_number
            && i <= j)
}

/// The member to name when a group is satisfied: the first in the order of
/// the order numbers whose reference is in the selection. Nothing where the
/// group is not satisfied. This is for reports only; whether the group is
/// satisfied does not depend on it.
pub fn first_present_member(g: &Vec<EquivalenceGroup>, sel: &StudentSelection) -> (r: Option<usize>)
    ensures
        match r {
            Some(i) => is_first_present(g@, *sel, i as int),
            None => !group_present(g@, *sel),
        },
{
    let mut best: Option<usize> = None;
    let mut m: usize = 0;
    while m < g.len()
        invariant
            m <= g.len(),
            match best {
                Some(b) => {
                    &&& b < m
                    &&& reference_present(g@[b as int].curriculum_reference, *sel)
                    &&& forall|j: int|
                        0 <= j < m && reference_present(
                            (#[trigger] g@[j]).curriculum_reference,
                            *sel,
                        ) ==> g@[b as int].order_number < g@[j].order_number || (g@[b as int].order_number
                            == g@[j].order_number && b <= j)
                },
                None => forall|j: int|
                    0 <= j < m ==> !reference_present((#[trigger] g@[j]).curriculum_reference, *sel),
            },
        decreases g.len() - m,
    {
        if is_reference_present(&g[m].curriculum_reference, sel) {
            match best {
                Some(b) => {
                    if g[m].order_number < g[b].order_number {
                        best = Some(m);
                    }
                },
                None => {
                    best = Some(m);
                },
            }
        }
        m = m + 1;
    }
    best
}

} // verus!
