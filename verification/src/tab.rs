use vstd::prelude::*;

verus! {

/// Which of the two lists is active: the one receiving cursor and
/// navigation input.
#[derive(Clone, Copy, PartialEq, Eq, Structural, Debug)]
pub enum Tab {
    Todos,
    Dones,
}

impl Tab {
    /// The other tab.
    pub open spec fn spec_toggle(self) -> Tab {
        match self {
            Tab::Todos => Tab::Dones,
            Tab::Dones => Tab::Todos,
        }
    }

    pub fn toggle(self) -> (t: Tab)
        ensures
            t == self.spec_toggle(),
    {
        match self {
            Tab::Todos => Tab::Dones,
            Tab::Dones => Tab::Todos,
        }
    }
}

} // verus!
