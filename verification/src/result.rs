//! The tally of one document's run.

use vstd::prelude::*;

verus! {

/// How many image lines were found, and how many of them succeeded and failed.
#[derive(Debug)]
pub struct MdManipulationResult {
    total: usize,
    done: usize,
    failed: usize,
}

impl Default for MdManipulationResult {
    fn default() -> (res: MdManipulationResult)
        ensures
            res.total_spec() == 0,
            res.done_spec() == 0,
            res.failed_spec() == 0,
    {
        MdManipulationResult { total: 0, done: 0, failed: 0 }
    }
}

impl MdManipulationResult {
    /// The number of image lines counted.
    pub closed spec fn total_spec(&self) -> nat {
        self.total as nat
    }

    /// The number of lines counted as rewritten.
    pub closed spec fn done_spec(&self) -> nat {
        self.done as nat
    }

    /// The number of lines counted as failed.
    pub closed spec fn failed_spec(&self) -> nat {
        self.failed as nat
    }

    /// Every counted line either succeeded or failed.
    pub open spec fn wf(&self) -> bool {
        self.done_spec() + self.failed_spec() == self.total_spec()
    }

    /// Room is left to count `n` more lines.
    pub open spec fn has_room(&self, n: nat) -> bool {
        self.total_spec() + n <= usize::MAX
    }

    /// The number of image lines counted.
    pub fn total(&self) -> (n: usize)
        ensures
            n == self.total_spec(),
    {
        self.total
    }

    /// The number of lines counted as rewritten.
    pub fn done(&self) -> (n: usize)
        ensures
            n == self.done_spec(),
    {
        self.done
    }

    /// The number of lines counted as failed.
    pub fn failed(&self) -> (n: usize)
        ensures
            n == self.failed_spec(),
    {
        self.failed
    }

    /// Counts one image line with the outcome `res`.
    pub fn res_handling<E>(&mut self, res: &Result<(), E>)
        requires
            old(self).wf(),
            old(self).has_room(1),
        ensures
            final(self).wf(),
            final(self).total_spec() == old(self).total_spec() + 1,
            final(self).done_spec() == old(self).done_spec() + (if res is Ok { 1nat } else { 0nat }),
            final(self).failed_spec() == old(self).failed_spec() + (if res is Ok { 0nat } else { 1nat }),
    {
        self.total += 1;
        if res.is_ok() {
            self.done += 1;
        } else {
            self.failed += 1;
        }
    }
}

} // verus!
