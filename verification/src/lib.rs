//! Verified core of a small bare-metal x86-64 kernel: the text console, the
//! vector table and the interrupt handlers' decisions.
//!
//! The library touches no hardware. The code around it owns display memory,
//! the I/O ports and the processor's tables: it hands the library plain
//! values and carries out what the library decides.

use vstd::prelude::*;

pub mod interrupts;
pub mod vga_buffer;
pub mod vga_laws;

verus! {

/// The codes that end a run under the emulator.
#[derive(Debug, Clone, Copy, PartialEq, Eq, Structural)]
pub enum QemuExitCode {
    Success,
    Failed,
}

impl QemuExitCode {
    /// The number that is written to the emulator's exit port.
    pub open spec fn port_value(self) -> u32 {
        match self {
            QemuExitCode::Success => 0x10,
            QemuExitCode::Failed => 0x11,
        }
    }

    /// The number that is written to the emulator's exit port.
    pub fn as_u32(self) -> (value: u32)
        ensures
            value == self.port_value(),
    {
        match self {
            QemuExitCode::Success => 0x10,
            QemuExitCode::Failed => 0x11,
        }
    }
}

/// Something that the test runner can run. A test fails by panicking.
pub trait Testable {
    /// What has to hold for the test to be run: nothing, unless the type
    /// says otherwise.
    open spec fn ready(&self) -> bool {
        true
    }

    /// What holds once the test has been run and has come back: nothing
    /// more than that, unless the type says otherwise.
    open spec fn passed(&self) -> bool {
        true
    }

    /// Runs the test.
    fn run(&self)
        requires
            self.ready(),
        ensures
            self.passed(),
    ;
}

impl<T> Testable for T where T: Fn() {
    /// A function can be run where it can be called.
    open spec fn ready(&self) -> bool {
        call_requires(*self, ())
    }

    /// A function that has come back has established what it ensures.
    open spec fn passed(&self) -> bool {
        call_ensures(*self, (), ())
    }

    fn run(&self) {
        self();
    }
}

/// Runs the tests, first to last, and gives the code to leave the emulator
/// with: when the runner comes back every test has been run and has passed,
/// so the run has succeeded.
pub fn test_runner(tests: &[&dyn Testable]) -> (code: QemuExitCode)
    requires
        forall|i: int| 0 <= i < tests@.len() ==> (#[trigger] tests@[i]).ready(),
    ensures
        forall|i: int| 0 <= i < tests@.len() ==> (#[trigger] tests@[i]).passed(),
        code == QemuExitCode::Success,
{
    let mut index: usize = 0;
    while index < tests.len()
        invariant
            index <= tests.len(),
            forall|i: int| 0 <= i < tests@.len() ==> (#[trigger] tests@[i]).ready(),
            forall|i: int| 0 <= i < index ==> (#[trigger] tests@[i]).passed(),
        decreases tests.len() - index,
    {
        tests[index].run();
        index += 1;
    }
    QemuExitCode::Success
}

} // verus!
