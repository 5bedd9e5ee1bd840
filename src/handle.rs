use vstd::prelude::*;

verus! {

/// An operating-system window identifier, held by value and compared by identifier.
/// It is only ever referenced, never owned or released by this library.
#[derive(Clone, Copy, Debug, PartialEq, Eq, Hash, Structural)]
pub struct WindowHandle {
    pub id: usize,
}

impl WindowHandle {
    pub fn new(id: usize) -> (r: WindowHandle)
        ensures
            r.id == id,
    {
        WindowHandle { id }
    }
}

} // verus!
