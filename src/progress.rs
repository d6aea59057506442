use vstd::prelude::*;
use crate::text::{decimal, decimal_exec, string_of};

verus! {

/// Step counter for the fixed sequence of stages a run goes through. Its methods
/// return the lines to show; showing them is the caller's part.
pub struct Progress {
    total: usize,
    current: usize,
}

pub open spec fn step_line(current: nat, total: nat, message: Seq<char>) -> Seq<char> {
    "["@ + decimal(current) + "/"@ + decimal(total) + "] "@ + message
}

pub open spec fn substep_line(current: nat, total: nat, index: nat, count: nat) -> Seq<char> {
    "["@ + decimal(current) + "/"@ + decimal(total) + "] Fetching article "@ + decimal(index + 1) + "/"@
        + decimal(count) + "…"@
}

pub open spec fn done_line(output: Seq<char>) -> Seq<char> {
    "Successfully completed: "@ + output
}

fn decimal_string(n: usize) -> (r: String)
    ensures
        r@ == decimal(n as nat),
{
    string_of(&decimal_exec(n))
}

impl Progress {
    pub closed spec fn spec_total(&self) -> nat {
        self.total as nat
    }

    pub closed spec fn spec_current(&self) -> nat {
        self.current as nat
    }

    pub fn new() -> (p: Self)
        ensures
            p.spec_total() == 5,
            p.spec_current() == 0,
    {
        Self { total: 5, current: 0 }
    }

    /// Moves to the next stage and gives its line, `[current/total] message`.
    pub fn next(&mut self, message: &str) -> (line: String)
        requires
            old(self).spec_current() < usize::MAX,
        ensures
            final(self).spec_current() == old(self).spec_current() + 1,
            final(self).spec_total() == old(self).spec_total(),
            line@ == step_line(final(self).spec_current(), final(self).spec_total(), message@),
    {
        self.current = self.current + 1;
        String::from_str("[").concat(decimal_string(self.current).as_str()).concat("/").concat(
            decimal_string(self.total).as_str(),
        ).concat("] ").concat(message)
    }

    /// The line for a run that finished with `output`.
    pub fn done(&self, output: &str) -> (line: String)
        ensures
            line@ == done_line(output@),
    {
        String::from_str("Successfully completed: ").concat(output)
    }

    /// The line for fetching article `current` (counted from zero) of `total`,
    /// within the present stage.
    pub fn substep(&self, current: usize, total: usize) -> (line: String)
        requires
            current < usize::MAX,
        ensures
            line@ == substep_line(self.spec_current(), self.spec_total(), current as nat, total as nat),
    {
        let human_readable_current = current + 1;
        String::from_str("[").concat(decimal_string(self.current).as_str()).concat("/").concat(
            decimal_string(self.total).as_str(),
        ).concat("] Fetching article ").concat(decimal_string(human_readable_current).as_str()).concat(
            "/",
        ).concat(decimal_string(total).as_str()).concat("…")
    }
}

} // verus!
