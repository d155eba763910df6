use vstd::prelude::*;

verus! {

/// The kernel's boot argument string, set once.
pub struct BootArgs {
    value: Option<String>,
}

impl BootArgs {
    pub closed spec fn spec_value(&self) -> Option<Seq<char>> {
        match self.value {
            Some(s) => Some(s@),
            None => None,
        }
    }

    pub fn new() -> (r: BootArgs)
        ensures
            r.spec_value() is None,
    {
        BootArgs { value: None }
    }

    /// Records the boot arguments; once they are recorded, later calls
    /// change nothing.
    pub fn set(&mut self, bootargs: &str)
        ensures
            old(self).spec_value() is None ==> final(self).spec_value() == Some(bootargs@),
            old(self).spec_value() is Some ==> final(self).spec_value() == old(self).spec_value(),
    {
        if self.value.is_none() {
            self.value = Some(bootargs.to_owned());
        }
    }

    pub fn get(&self) -> (r: Option<&String>)
        ensures
            self.spec_value() is None ==> r is None,
            self.spec_value() matches Some(v) ==> r matches Some(s) && s@ == v,
    {
        self.value.as_ref()
    }
}

} // verus!
