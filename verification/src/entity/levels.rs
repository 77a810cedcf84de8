//! Permission levels: the labels of the integers that residents and
//! locations carry as their level.

use vstd::prelude::*;

verus! {

/// One level: a permission code and the text that labels it.
#[derive(Debug, PartialEq, Eq)]
pub struct Model {
    pub id: i32,
    pub permission: i32,
    pub text: String,
}

impl Clone for Model {
    fn clone(&self) -> (r: Self)
        ensures
            r == *self,
    {
        Model { id: self.id, permission: self.permission, text: self.text.clone() }
    }
}

/// Some level carries this permission code.
pub open spec fn is_labelled(levels: Seq<Model>, permission: int) -> bool {
    exists|i: int| 0 <= i < levels.len() && (#[trigger] levels[i]).permission == permission
}

/// No level with this permission code stands before place `i`.
pub open spec fn first_with(levels: Seq<Model>, permission: int, i: int) -> bool {
    &&& 0 <= i < levels.len()
    &&& levels[i].permission == permission
    &&& forall|k: int| 0 <= k < i ==> (#[trigger] levels[k]).permission != permission
}

/// The label of a permission code: the text of the first level that carries
/// the code, or nothing where no level does.
pub fn label_of(levels: &Vec<Model>, permission: i32) -> (label: Option<String>)
    ensures
        label is Some <==> is_labelled(levels@, permission as int),
        label matches Some(text) ==> exists|i: int|
            first_with(levels@, permission as int, i) && text == (#[trigger] levels@[i]).text,
{
    let mut i: usize = 0;
    while i < levels.len()
        invariant
            i <= levels.len(),
            forall|k: int| 0 <= k < i ==> (#[trigger] levels@[k]).permission != permission,
        decreases levels.len() - i,
    {
        if levels[i].permission == permission {
            assert(first_with(levels@, permission as int, i as int));
            return Some(levels[i].text.clone());
        }
        i = i + 1;
    }
    None
}

} // verus!
