//! Owner references, and the test for one object controlling another.

use vstd::prelude::*;

verus! {

/// A back-pointer on an object: the kind and the name of an owner, and
/// whether that owner is the one that controls the object.
#[derive(Debug)]
pub struct OwnerReference {
    pub kind: String,
    pub name: String,
    pub controller: bool,
}

/// The reference names an owner of this kind and name as the controller.
pub open spec fn controls(reference: OwnerReference, kind: Seq<char>, name: Seq<char>) -> bool {
    reference.controller && reference.kind@ == kind && reference.name@ == name
}

/// Some reference of the set names an owner of this kind and name as the
/// controller.
pub open spec fn controlled_by(
    references: Seq<OwnerReference>,
    kind: Seq<char>,
    name: Seq<char>,
) -> bool {
    exists|i: int| 0 <= i < references.len() && controls(#[trigger] references[i], kind, name)
}

/// Whether the object that carries `references` is controlled by the owner
/// of the given kind and name. Kinds and names are compared exactly.
pub fn is_controlled_by(references: &Vec<OwnerReference>, kind: &str, name: &str) -> (controlled:
    bool)
    ensures
        controlled == controlled_by(references@, kind@, name@),
{
    let wanted_kind = String::from_str(kind);
    let wanted_name = String::from_str(name);
    let mut i: usize = 0;
    while i < references.len()
        invariant
            i <= references.len(),
            wanted_kind@ == kind@,
            wanted_name@ == name@,
            forall|j: int| 0 <= j < i ==> !controls(#[trigger] references[j], kind@, name@),
        decreases references.len() - i,
    {
        let reference = &references[i];
        if reference.controller && reference.kind == wanted_kind && reference.name == wanted_name {
            assert(controls(references[i as int], kind@, name@));
            return true;
        }
        i += 1;
    }
    false
}

/// A reference that is not marked as the controller never makes its owner
/// the controller, whatever kind and name it carries.
pub proof fn lemma_controller_flag_decides(
    references: Seq<OwnerReference>,
    kind: Seq<char>,
    name: Seq<char>,
)
    requires
        forall|i: int| 0 <= i < references.len() ==> !(#[trigger] references[i]).controller,
    ensures
        !controlled_by(references, kind, name),
{
}

/// Reference `i` is the first of the set that names an owner of this kind.
pub open spec fn is_first_of_kind(references: Seq<OwnerReference>, kind: Seq<char>, i: int) -> bool {
    &&& 0 <= i < references.len()
    &&& references[i].kind@ == kind
    &&& forall|j: int| 0 <= j < i ==> (#[trigger] references[j]).kind@ != kind
}

/// The name of the owner that the first reference of the given kind points
/// to: the object to fetch in order to reach the owner of that kind.
pub fn owner_of_kind<'a>(references: &'a Vec<OwnerReference>, kind: &str) -> (owner: Option<
    &'a String,
>)
    ensures
        match owner {
            Some(name) => exists|i: int| #[trigger]
                is_first_of_kind(references@, kind@, i) && *name == references[i].name,
            None => forall|i: int|
                0 <= i < references.len() ==> (#[trigger] references[i]).kind@ != kind@,
        },
{
    let wanted = String::from_str(kind);
    let mut i: usize = 0;
    while i < references.len()
        invariant
            i <= references.len(),
            wanted@ == kind@,
            forall|j: int| 0 <= j < i ==> (#[trigger] references[j]).kind@ != kind@,
        decreases references.len() - i,
    {
        if references[i].kind == wanted {
            assert(is_first_of_kind(references@, kind@, i as int));
            return Some(&references[i].name);
        }
        i += 1;
    }
    None
}

} // verus!
