//! The to-do app: claims exactly the root path and shows a fixed page
//! of entries. Rendering the page through a template is glue outside
//! this crate; the decision and the entries stand here.

use vstd::prelude::*;

use crate::text::str_eq;

verus! {

/// A to-do app with a fixed index page.
pub struct ToDoApp {}

impl ToDoApp {
    /// Whether the app claims a target: exactly the root path.
    pub fn wants(&self, target: &str) -> (r: bool)
        ensures
            r == (target@ == "/"@),
    {
        str_eq(target, "/")
    }

    /// The fixed entries of the index page: position and text.
    pub fn index_entries(&self) -> (r: Vec<(usize, String)>)
        ensures
            r@.len() == 3,
            forall|i: int|
                0 <= i < 3 ==> (#[trigger] r@[i]).0 == i + 1 && r@[i].1@
                    == "I have to do everything!"@,
    {
        let mut v: Vec<(usize, String)> = Vec::new();
        v.push((1, "I have to do everything!".to_owned()));
        v.push((2, "I have to do everything!".to_owned()));
        v.push((3, "I have to do everything!".to_owned()));
        v
    }
}

} // verus!
