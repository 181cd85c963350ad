use vstd::prelude::*;

verus! {

/// A keyboard, as the window manager's device query lists it.
#[derive(Clone, Debug, PartialEq, Eq)]
pub struct Keyboard {
    pub address: String,
    pub name: String,
    pub rules: String,
    pub model: String,
    pub layout: String,
    pub variant: String,
    pub options: String,
    pub active_keymap: String,
    pub main: bool,
}

/// A workspace, as the window manager's workspace query lists it.
#[derive(Clone, Debug, PartialEq, Eq)]
pub struct Workspace {
    pub id: usize,
    pub name: String,
    pub monitor: String,
    pub windows: u64,
    pub hasfullscreen: bool,
    pub lastwindow: String,
    pub lastwindowtitle: String,
}

/// `i` is the first keyboard of the list marked as the main one.
pub open spec fn is_first_main(keyboards: Seq<Keyboard>, i: int) -> bool {
    0 <= i < keyboards.len() && keyboards[i].main && forall|j: int|
        0 <= j < i ==> !keyboards[j].main
}

/// The first keyboard marked as the main one; `None` when none is.
pub fn main_keyboard(keyboards: Vec<Keyboard>) -> (r: Option<Keyboard>)
    ensures
        r is None <==> forall|i: int| 0 <= i < keyboards@.len() ==> !keyboards@[i].main,
        r matches Some(k) ==> exists|i: int| is_first_main(keyboards@, i) && k == keyboards@[i],
{
    let mut list = keyboards;
    let ghost all = list@;
    let mut i: usize = 0;
    while i < list.len()
        invariant
            list@ == all,
            all == keyboards@,
            i <= list.len(),
            forall|j: int| 0 <= j < i ==> !all[j].main,
        decreases list.len() - i,
    {
        if list[i].main {
            let k = list.remove(i);
            assert(is_first_main(all, i as int));
            return Some(k);
        }
        i = i + 1;
    }
    None
}

} // verus!
