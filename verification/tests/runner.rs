use std::cell::RefCell;

use bare_kernel::{test_runner, QemuExitCode, Testable};

#[test]
fn exit_codes_are_the_port_values() {
    assert_eq!(QemuExitCode::Success.as_u32(), 0x10);
    assert_eq!(QemuExitCode::Failed.as_u32(), 0x11);
}

#[test]
fn runner_runs_every_test_in_order() {
    let log: RefCell<Vec<u32>> = RefCell::new(Vec::new());
    let first = || log.borrow_mut().push(1);
    let second = || log.borrow_mut().push(2);
    let third = || log.borrow_mut().push(3);
    let tests: [&dyn Testable; 3] = [&first, &second, &third];
    assert_eq!(test_runner(&tests), QemuExitCode::Success);
    assert_eq!(*log.borrow(), vec![1, 2, 3]);
}

#[test]
fn runner_with_no_tests_succeeds() {
    assert_eq!(test_runner(&[]), QemuExitCode::Success);
}

#[test]
fn a_closure_is_testable() {
    let ran = RefCell::new(false);
    let test = || *ran.borrow_mut() = true;
    test.run();
    assert!(*ran.borrow());
}

struct Counting<'a> {
    runs: &'a RefCell<u32>,
}

impl Testable for Counting<'_> {
    fn run(&self) {
        *self.runs.borrow_mut() += 1;
    }
}

#[test]
fn a_type_of_the_caller_is_testable() {
    let runs = RefCell::new(0);
    let counting = Counting { runs: &runs };
    let tests: [&dyn Testable; 2] = [&counting, &counting];
    assert_eq!(test_runner(&tests), QemuExitCode::Success);
    assert_eq!(*runs.borrow(), 2);
}
