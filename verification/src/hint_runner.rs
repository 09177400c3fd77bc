//! Hint runners: what a machine asks first when it meets a hint. A runner
//! that knows the hint runs it in place; a hint it does not know goes to the
//! scripting worker across the bridge.

use crate::vm_core::VirtualMachine;
use vstd::prelude::*;

verus! {

/// Why a hint runner did not run a hint.
#[derive(Debug, PartialEq, Eq)]
pub enum VMErr {
    /// The runner has no implementation of the hint.
    UnknownHint,
}

/// Something that can run the hints it knows, on the machine itself.
pub trait HintRunner {
    /// Whether the runner has an implementation of the hint with this code.
    spec fn knows(&self, hint_code: Seq<char>) -> bool;

    /// Runs the hint if the runner knows it. A hint it does not know is
    /// refused and leaves the machine as it was.
    fn run_hint(&self, vm: &mut VirtualMachine, hint_code: &String) -> (ran: Result<(), VMErr>)
        ensures
            ran is Ok <==> self.knows(hint_code@),
            ran is Err ==> final(vm)@ == old(vm)@,
    ;
}

/// The runner of the hints that are built into the machine. It knows none
/// yet, so every hint goes to the scripting worker.
#[derive(Debug, PartialEq, Eq)]
pub struct BuiltinHintRunner {}

impl BuiltinHintRunner {
    pub fn new() -> BuiltinHintRunner {
        BuiltinHintRunner {  }
    }
}

impl HintRunner for BuiltinHintRunner {
    open spec fn knows(&self, hint_code: Seq<char>) -> bool {
        false
    }

    fn run_hint(&self, _vm: &mut VirtualMachine, _code: &String) -> (ran: Result<(), VMErr>) {
        Err(VMErr::UnknownHint)
    }
}

/// Offers the hint to `hint_runner` and says whether it is left for the
/// scripting worker to run: that is so exactly when the runner does not know
/// the hint, and then the machine is untouched.
pub fn step_hint<H: HintRunner>(hint_runner: &H, vm: &mut VirtualMachine, hint_code: &String) -> (for_worker:
    bool)
    ensures
        for_worker == !hint_runner.knows(hint_code@),
        for_worker ==> final(vm)@ == old(vm)@,
{
    match hint_runner.run_hint(vm, hint_code) {
        Ok(()) => false,
        Err(VMErr::UnknownHint) => true,
    }
}

} // verus!
