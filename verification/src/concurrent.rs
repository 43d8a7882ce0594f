//! Concurrency-safe sharing of one controller.
//!
//! A process holds exactly one controller; the periodic updater task, any
//! number of request handlers and the crash hook all reach it through one
//! mutually-exclusive lock. Every operation acquires the lock for the
//! duration of the call and releases it on return, including on error.

use vstd::prelude::*;
use vstd::rwlock::{RwLock, RwLockPredicate};

use crate::domain::OutputPin;
use crate::errors::Error;
use crate::outputs::{
    Controller, CurrentTimeProvider, OutputDefinition, OutputName, OutputState, OutputStatus,
    ScheduledActivation,
};

verus! {

/// The lock invariant of a [`SafeController`]: the guarded controller keeps
/// the output definitions it was created with, so callers can rely on the
/// set of output names without holding the lock.
pub struct ControllerInv {
    pub defs: Seq<OutputDefinition>,
}

impl<OP: OutputPin, CTP: CurrentTimeProvider> RwLockPredicate<Controller<OP, CTP>> for ControllerInv {
    open spec fn inv(self, v: Controller<OP, CTP>) -> bool {
        v.defs() == self.defs
    }
}

/// One mutually-exclusive handle around a [`Controller`], safe to share
/// among the periodic updater, concurrent request handlers and a crash
/// hook. Share it between call sites through reference counting.
pub struct SafeController<OP: OutputPin, CTP: CurrentTimeProvider> {
    controller: RwLock<Controller<OP, CTP>, ControllerInv>,
}

impl<OP: OutputPin, CTP: CurrentTimeProvider> SafeController<OP, CTP> {
    /// The definitions of the outputs the guarded controller drives; fixed
    /// for the life of the handle.
    pub closed spec fn defs(&self) -> Seq<OutputDefinition> {
        self.controller.pred().defs
    }

    /// Whether the guarded controller drives an output of the given name.
    pub open spec fn has_output(&self, name: Seq<char>) -> bool {
        exists|i: int|
            0 <= i < self.defs().len() && (#[trigger] self.defs()[i]).name_spec() == name
    }

    /// Takes sole ownership of a controller and guards it with the lock.
    pub fn new(controller: Controller<OP, CTP>) -> (r: Self)
        ensures
            r.defs() == controller.defs(),
    {
        let ghost inv = ControllerInv { defs: controller.defs() };
        Self { controller: RwLock::new(controller, Ghost(inv)) }
    }

    /// Runs one evaluation tick under the lock; the tick's effect on the
    /// guarded controller is stated by [`Controller::update_outputs`].
    pub fn update_outputs(&self) {
        let (mut controller, handle) = self.controller.acquire_write();
        controller.update_outputs();
        handle.release_write(controller);
    }

    /// A snapshot of every output's name and reported state, taken under
    /// the lock.
    pub fn status(&self) -> (r: Vec<OutputStatus>)
        ensures
            r@.len() == self.defs().len(),
            forall|i: int|
                0 <= i < r@.len() ==> (#[trigger] r@[i]).name@ == self.defs()[i].name_spec(),
    {
        let (controller, handle) = self.controller.acquire_write();
        let result = controller.status();
        handle.release_write(controller);
        result
    }

    /// Appends an override to the named output under the lock; fails iff no
    /// output carries that name.
    pub fn add_override(
        &self,
        output_name: OutputName,
        state: OutputState,
        activation: ScheduledActivation,
    ) -> (r: Result<(), Error>)
        ensures
            r is Ok <==> self.has_output(output_name@),
            r matches Err(e) ==> e == Error::UnknownOutput,
    {
        let (mut controller, handle) = self.controller.acquire_write();
        let ghost pre = controller;
        let result = controller.add_override(output_name, state, activation);
        proof {
            pre.lemma_has_output_iff_defs(output_name@);
            assert(pre.defs() == self.defs());
            assert(pre.has_output(output_name@) <==> self.has_output(output_name@));
        }
        handle.release_write(controller);
        result
    }

    /// Empties the named output's override list under the lock; fails iff
    /// no output carries that name.
    pub fn clear_overrides(&self, output_name: OutputName) -> (r: Result<(), Error>)
        ensures
            r is Ok <==> self.has_output(output_name@),
            r matches Err(e) ==> e == Error::UnknownOutput,
    {
        let (mut controller, handle) = self.controller.acquire_write();
        let ghost pre = controller;
        let result = controller.clear_overrides(output_name);
        proof {
            pre.lemma_has_output_iff_defs(output_name@);
            assert(pre.defs() == self.defs());
            assert(pre.has_output(output_name@) <==> self.has_output(output_name@));
        }
        handle.release_write(controller);
        result
    }

    /// Drives every output's pin low under the lock, ignoring schedules and
    /// overrides; the one operation reachable from a crash context.
    pub fn fail_safe(&self) {
        let (mut controller, handle) = self.controller.acquire_write();
        controller.fail_safe();
        handle.release_write(controller);
    }
}

} // verus!
