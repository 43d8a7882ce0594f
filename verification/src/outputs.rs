//! Daily time windows, per-output schedules and the controller that applies
//! them to hardware.
//!
//! All interval arithmetic happens on a circular 24-hour clock: a window is a
//! start time of day plus a duration of at most one day, and may wrap across
//! midnight.

use vstd::prelude::*;

use crate::domain::{InputPin, OutputPin, OutputPinState, PinNumber, GPIO};
use crate::errors::Error;

verus! {

/// Length of the daily cycle in seconds.
pub const SECONDS_IN_A_DAY: u32 = 86400;

/// A wall-clock time of day with second resolution, with no attached date.
#[derive(Clone, Copy, Debug, PartialEq, Eq, Structural)]
pub struct TimeOfDay {
    seconds: u32,
}

impl TimeOfDay {
    /// Seconds since midnight, always in `[0, 86400)`.
    pub closed spec fn sec(self) -> int {
        self.seconds as int
    }

    #[verifier::type_invariant]
    spec fn wf(self) -> bool {
        self.seconds < 86400
    }

    /// Builds a time of day from hours, minutes and seconds.
    pub fn from_hms_opt(hour: u32, minute: u32, second: u32) -> (r: Option<TimeOfDay>)
        ensures
            r is Some <==> (hour < 24 && minute < 60 && second < 60),
            r matches Some(t) ==> t.sec() == hour * 3600 + minute * 60 + second,
    {
        if hour < 24 && minute < 60 && second < 60 {
            Some(TimeOfDay { seconds: hour * 3600 + minute * 60 + second })
        } else {
            None
        }
    }

    /// Builds a time of day from a count of seconds since midnight.
    pub fn from_seconds_of_day(seconds: u32) -> (r: Option<TimeOfDay>)
        ensures
            r is Some <==> seconds < 86400,
            r matches Some(t) ==> t.sec() == seconds,
    {
        if seconds < SECONDS_IN_A_DAY {
            Some(TimeOfDay { seconds })
        } else {
            None
        }
    }

    /// Seconds since midnight.
    pub fn seconds_of_day(&self) -> (r: u32)
        ensures
            r == self.sec(),
            r < 86400,
    {
        proof {
            use_type_invariant(self);
        }
        self.seconds
    }
}

/// One daily interval of activity: the output is active for `for_seconds`
/// seconds starting at `when`, evaluated on the circular 24-hour clock.
#[derive(Clone, Copy, Debug, PartialEq, Eq, Structural)]
pub struct ScheduledActivation {
    when: TimeOfDay,
    for_seconds: u32,
}

impl ScheduledActivation {
    /// Start of the window, in seconds since midnight.
    pub closed spec fn start_sec(self) -> int {
        self.when.sec()
    }

    /// Duration of the window in seconds, in `[1, 86400]`.
    pub closed spec fn dur_sec(self) -> int {
        self.for_seconds as int
    }

    #[verifier::type_invariant]
    spec fn wf_inv(self) -> bool {
        self.when.wf() && 1 <= self.for_seconds <= 86400
    }

    /// Validity of a window: its start lies within the day and its duration
    /// is between one second and one full day. Constructors establish this
    /// and every held value keeps it.
    pub open spec fn wf(self) -> bool {
        0 <= self.start_sec() < 86400 && 1 <= self.dur_sec() <= 86400
    }

    /// End of the window, in seconds since midnight, computed modulo one day.
    pub open spec fn end_sec(self) -> int {
        (self.start_sec() + self.dur_sec()) % 86400
    }

    /// Whether the window contains the time `t` (in seconds since midnight).
    ///
    /// A window whose start equals its end covers the whole day. Otherwise,
    /// the window wraps across midnight exactly when the end's hour is
    /// numerically less than the start's hour, and containment follows the
    /// wrap; boundaries are inclusive on both ends.
    pub open spec fn contains_time(self, t: int) -> bool {
        let s = self.start_sec();
        let e = self.end_sec();
        if s == e {
            true
        } else if e / 3600 < s / 3600 {
            t >= s || t <= e
        } else {
            s <= t <= e
        }
    }

    /// Whether two windows overlap: one's start or end boundary point lies
    /// inside the other, checked symmetrically in both directions. Windows
    /// that merely touch at an endpoint count as overlapping.
    pub open spec fn overlaps_with(self, other: Self) -> bool {
        ||| self.contains_time(other.start_sec())
        ||| self.contains_time(other.end_sec())
        ||| other.contains_time(self.start_sec())
        ||| other.contains_time(self.end_sec())
    }

    /// Builds a window; rejects a zero duration and a duration above one day.
    pub fn new(when: TimeOfDay, for_seconds: u32) -> (r: Result<Self, Error>)
        ensures
            r is Ok <==> 1 <= for_seconds <= 86400,
            r matches Ok(a) ==> a.start_sec() == when.sec() && a.dur_sec() == for_seconds,
            r matches Err(e) ==> e == Error::InvalidWindow,
    {
        if for_seconds == 0 {
            return Err(Error::InvalidWindow);
        }
        if for_seconds > SECONDS_IN_A_DAY {
            return Err(Error::InvalidWindow);
        }
        proof {
            use_type_invariant(&when);
        }
        Ok(Self { when, for_seconds })
    }

    /// End of the window as a time of day.
    fn end(&self) -> (r: TimeOfDay)
        ensures
            r.sec() == self.end_sec(),
    {
        proof {
            use_type_invariant(self);
            use_type_invariant(&self.when);
        }
        TimeOfDay { seconds: (self.when.seconds + self.for_seconds) % 86400 }
    }

    /// Whether the window contains the given time.
    pub fn has_inside(&self, time: &TimeOfDay) -> (r: bool)
        ensures
            r == self.contains_time(time.sec()),
    {
        proof {
            use_type_invariant(self);
            use_type_invariant(&self.when);
            use_type_invariant(time);
        }
        let start = self.when;
        let end = self.end();

        if start.seconds == end.seconds {
            return true;
        }

        let jumps_over_midnight = end.seconds / 3600 < start.seconds / 3600;
        if jumps_over_midnight {
            time.seconds >= start.seconds || time.seconds <= end.seconds
        } else {
            time.seconds >= start.seconds && time.seconds <= end.seconds
        }
    }

    /// Expands this window into `times` windows of the same duration, each
    /// starting `start_every` seconds after the previous one on the
    /// circular daily clock. This is how a recurring activation is
    /// flattened once, at configuration-load time.
    pub fn repeat(&self, start_every: u32, times: u32) -> (r: Vec<ScheduledActivation>)
        ensures
            r@.len() == times,
            forall|k: int|
                0 <= k < times ==> {
                    &&& (#[trigger] r@[k]).start_sec() == (self.start_sec() + k * start_every)
                        % 86400
                    &&& r@[k].dur_sec() == self.dur_sec()
                },
    {
        proof {
            use_type_invariant(self);
            use_type_invariant(&self.when);
        }
        let mut result: Vec<ScheduledActivation> = Vec::new();
        let mut i: u32 = 0;
        while i < times
            invariant
                i <= times,
                result@.len() == i,
                self.wf(),
                self.when.wf(),
                forall|k: int|
                    0 <= k < i ==> {
                        &&& (#[trigger] result@[k]).start_sec() == (self.start_sec() + k
                            * start_every) % 86400
                        &&& result@[k].dur_sec() == self.dur_sec()
                    },
            decreases times - i,
        {
            proof {
                assert((i as int) * (start_every as int) <= 0xFFFF_FFFF * 0xFFFF_FFFF)
                    by (nonlinear_arith)
                    requires
                        i <= 0xFFFF_FFFFu32,
                        start_every <= 0xFFFF_FFFFu32,
                ;
            }
            let offset: u64 = ((i as u64) * (start_every as u64)) % 86400;
            let start: u32 = (((self.when.seconds as u64) + offset) % 86400) as u32;
            proof {
                vstd::arithmetic::div_mod::lemma_add_mod_noop(
                    self.when.seconds as int,
                    (i as int) * (start_every as int),
                    86400,
                );
            }
            result.push(ScheduledActivation { when: TimeOfDay { seconds: start }, for_seconds: self.for_seconds });
            i = i + 1;
        }
        result
    }

    /// Whether this window and `other` overlap.
    pub fn overlaps(&self, other: &Self) -> (r: bool)
        ensures
            r == self.overlaps_with(*other),
    {
        if self.has_inside(&other.when) {
            return true;
        }
        if self.has_inside(&other.end()) {
            return true;
        }
        if other.has_inside(&self.when) {
            return true;
        }
        if other.has_inside(&self.end()) {
            return true;
        }

        false
    }
}

/// Overlap is symmetric: `a.overlaps_with(b)` and `b.overlaps_with(a)` agree
/// for every pair of windows.
pub proof fn lemma_overlaps_symmetric(a: ScheduledActivation, b: ScheduledActivation)
    ensures
        a.overlaps_with(b) == b.overlaps_with(a),
{
}

/// A window contains its own boundary points: both its start time and its
/// end time lie inside it. The one exception, excluded below, is a window
/// that wraps past midnight yet ends within the very clock hour it starts
/// in; such a window satisfies neither branch of the containment rule.
pub proof fn lemma_contains_own_boundaries(a: ScheduledActivation)
    requires
        a.wf(),
        !(a.end_sec() < a.start_sec() && a.end_sec() / 3600 == a.start_sec() / 3600),
    ensures
        a.contains_time(a.start_sec()),
        a.contains_time(a.end_sec()),
{
    let s = a.start_sec();
    let e = a.end_sec();
    if s != e && e / 3600 >= s / 3600 {
        if e < s {
            vstd::arithmetic::div_mod::lemma_div_is_ordered(e, s, 3600);
        }
    }
}

/// A window whose duration is one full day (start equals end on the circular
/// clock) contains every time of day.
pub proof fn lemma_full_day_contains_all(a: ScheduledActivation, t: int)
    requires
        a.wf(),
        a.dur_sec() == 86400,
    ensures
        a.contains_time(t),
{
    let s = a.start_sec();
    assert((s + 86400) % 86400 == s) by (nonlinear_arith)
        requires
            0 <= s < 86400,
    ;
}

/// No two distinct windows of the sequence overlap.
pub open spec fn pairwise_disjoint(acts: Seq<ScheduledActivation>) -> bool {
    forall|i: int, j: int|
        0 <= i < acts.len() && 0 <= j < acts.len() && i != j ==> !(#[trigger] acts[i].overlaps_with(
            acts[j],
        ))
}

/// Some window of the sequence contains the time `t`.
pub open spec fn any_contains(acts: Seq<ScheduledActivation>, t: int) -> bool {
    exists|i: int| 0 <= i < acts.len() && (#[trigger] acts[i]).contains_time(t)
}

/// An output's daily schedule: a collection of windows no two of which
/// overlap. It may be empty (an output that is never scheduled on).
#[derive(Debug)]
pub struct ScheduledActivations {
    activations: Vec<ScheduledActivation>,
}

impl View for ScheduledActivations {
    type V = Seq<ScheduledActivation>;

    closed spec fn view(&self) -> Seq<ScheduledActivation> {
        self.activations@
    }
}

impl Clone for ScheduledActivations {
    fn clone(&self) -> (r: Self)
        ensures
            r@ == self@,
    {
        let r = Self { activations: self.activations.clone() };
        proof {
            assert(r@ =~= self@);
        }
        r
    }
}

impl ScheduledActivations {
    /// Validates a schedule: fails iff any two distinct windows overlap.
    /// Accepts the empty collection.
    pub fn new(activations: &[ScheduledActivation]) -> (r: Result<Self, Error>)
        ensures
            r is Ok <==> pairwise_disjoint(activations@),
            r matches Ok(s) ==> s@ == activations@,
            r matches Err(e) ==> e == Error::OverlappingWindows,
    {
        let ghost acts = activations@;
        let mut v: Vec<ScheduledActivation> = Vec::new();
        let mut i: usize = 0;
        while i < activations.len()
            invariant
                i <= acts.len(),
                acts == activations@,
                v@ == acts.take(i as int),
                forall|p: int, q: int|
                    0 <= p < i && 0 <= q < acts.len() && p != q ==> !(#[trigger] acts[p].overlaps_with(
                        acts[q],
                    )),
            decreases acts.len() - i,
        {
            let mut j: usize = 0;
            while j < activations.len()
                invariant
                    i < acts.len(),
                    j <= acts.len(),
                    acts == activations@,
                    forall|q: int|
                        0 <= q < j && i != q ==> !(#[trigger] acts[i as int].overlaps_with(
                            acts[q],
                        )),
                decreases acts.len() - j,
            {
                if i != j && activations[i].overlaps(&activations[j]) {
                    proof {
                        assert(!pairwise_disjoint(acts));
                    }
                    return Err(Error::OverlappingWindows);
                }
                j = j + 1;
            }
            let a = activations[i];
            v.push(a);
            proof {
                assert(v@ =~= acts.take(i as int + 1));
            }
            i = i + 1;
        }
        proof {
            assert(v@ =~= acts);
        }
        Ok(ScheduledActivations { activations: v })
    }

    /// Whether any window of the schedule contains the given time.
    pub fn has_inside(&self, time: &TimeOfDay) -> (r: bool)
        ensures
            r == any_contains(self@, time.sec()),
    {
        let mut i: usize = 0;
        while i < self.activations.len()
            invariant
                i <= self@.len(),
                forall|q: int| 0 <= q < i ==> !(#[trigger] self@[q]).contains_time(time.sec()),
            decreases self@.len() - i,
        {
            if self.activations[i].has_inside(time) {
                return true;
            }
            i = i + 1;
        }
        false
    }
}

/// The non-empty name of an output, unique within an [`OutputDefinitions`].
#[derive(Debug)]
pub struct OutputName {
    name: String,
}

impl View for OutputName {
    type V = Seq<char>;

    closed spec fn view(&self) -> Seq<char> {
        self.name@
    }
}

impl Clone for OutputName {
    fn clone(&self) -> (r: Self)
        ensures
            r@ == self@,
    {
        Self { name: self.name.clone() }
    }
}

impl PartialEq for OutputName {
    fn eq(&self, other: &Self) -> (r: bool) {
        self.name == other.name
    }
}

impl vstd::std_specs::cmp::PartialEqSpecImpl for OutputName {
    open spec fn obeys_eq_spec() -> bool {
        true
    }

    open spec fn eq_spec(&self, other: &OutputName) -> bool {
        self@ == other@
    }
}

impl OutputName {
    /// Wraps a name; rejects the empty string.
    pub fn new(name: &str) -> (r: Result<Self, Error>)
        ensures
            r is Ok <==> name@.len() > 0,
            r matches Ok(n) ==> n@ == name@,
            r matches Err(e) ==> e == Error::InvalidName,
    {
        if name.is_empty() {
            return Err(Error::InvalidName);
        }
        Ok(Self { name: name.to_owned() })
    }

    /// The name as a string.
    pub fn name(&self) -> (r: &str)
        ensures
            r@ == self@,
    {
        self.name.as_str()
    }
}

/// The binary state an output can be driven to.
#[derive(Debug, Clone, Copy, PartialEq, Eq, Structural)]
pub enum OutputState {
    On,
    Off,
}

impl From<OutputPinState> for OutputState {
    fn from(value: OutputPinState) -> (r: Self) {
        match value {
            OutputPinState::Low => Self::Off,
            OutputPinState::High => Self::On,
        }
    }
}

impl vstd::std_specs::convert::FromSpecImpl<OutputPinState> for OutputState {
    open spec fn obeys_from_spec() -> bool {
        true
    }

    open spec fn from_spec(v: OutputPinState) -> Self {
        match v {
            OutputPinState::Low => OutputState::Off,
            OutputPinState::High => OutputState::On,
        }
    }
}

/// A named output: its name, the pin that drives it and its base schedule.
#[derive(Debug)]
pub struct OutputDefinition {
    name: OutputName,
    pin: PinNumber,
    activations: ScheduledActivations,
}

impl Clone for OutputDefinition {
    fn clone(&self) -> (r: Self)
        ensures
            r.name_spec() == self.name_spec(),
            r.pin_spec() == self.pin_spec(),
            r.activations_spec() == self.activations_spec(),
    {
        Self { name: self.name.clone(), pin: self.pin, activations: self.activations.clone() }
    }
}

impl OutputDefinition {
    /// The output's name.
    pub closed spec fn name_spec(self) -> Seq<char> {
        self.name@
    }

    /// The number of the pin that drives the output.
    pub closed spec fn pin_spec(self) -> u8 {
        self.pin.num()
    }

    /// The windows of the output's base schedule.
    pub closed spec fn activations_spec(self) -> Seq<ScheduledActivation> {
        self.activations@
    }

    /// Binds a name, a pin and a schedule into one output definition.
    pub fn new(name: OutputName, pin: PinNumber, activations: ScheduledActivations) -> (r: Self)
        ensures
            r.name_spec() == name@,
            r.pin_spec() == pin.num(),
            r.activations_spec() == activations@,
    {
        Self { name, pin, activations }
    }

    /// The output's name.
    pub fn name(&self) -> (r: &OutputName)
        ensures
            r@ == self.name_spec(),
    {
        &self.name
    }
}

/// Two definitions in the sequence share a name.
pub open spec fn has_duplicate_name(defs: Seq<OutputDefinition>) -> bool {
    exists|i: int, j: int|
        0 <= i < defs.len() && 0 <= j < defs.len() && i != j && (#[trigger] defs[i].name_spec())
            == (#[trigger] defs[j].name_spec())
}

/// Two definitions in the sequence share a pin.
pub open spec fn has_duplicate_pin(defs: Seq<OutputDefinition>) -> bool {
    exists|i: int, j: int|
        0 <= i < defs.len() && 0 <= j < defs.len() && i != j && (#[trigger] defs[i].pin_spec())
            == (#[trigger] defs[j].pin_spec())
}

/// Element-wise agreement of two definition sequences on names, pins and
/// schedules.
pub open spec fn defs_match(a: Seq<OutputDefinition>, b: Seq<OutputDefinition>) -> bool {
    &&& a.len() == b.len()
    &&& forall|i: int|
        0 <= i < a.len() ==> {
            &&& (#[trigger] a[i]).name_spec() == b[i].name_spec()
            &&& a[i].pin_spec() == b[i].pin_spec()
            &&& a[i].activations_spec() == b[i].activations_spec()
        }
}

/// The validated collection of a device's output definitions: all names
/// distinct and all pins distinct, in the order they were given.
#[derive(Debug)]
pub struct OutputDefinitions {
    outputs: Vec<OutputDefinition>,
}

impl View for OutputDefinitions {
    type V = Seq<OutputDefinition>;

    closed spec fn view(&self) -> Seq<OutputDefinition> {
        self.outputs@
    }
}

impl OutputDefinitions {
    /// Validates a collection of output definitions: fails iff two share a
    /// name or two share a pin.
    pub fn new(outputs: &[OutputDefinition]) -> (r: Result<Self, Error>)
        ensures
            r is Ok <==> (!has_duplicate_name(outputs@) && !has_duplicate_pin(outputs@)),
            r matches Ok(s) ==> defs_match(s@, outputs@),
            r matches Ok(s) ==> !has_duplicate_name(s@) && !has_duplicate_pin(s@),
            r matches Err(e) ==> e == Error::DuplicateName || e == Error::DuplicatePin,
            r == Result::<Self, Error>::Err(Error::DuplicateName) ==> has_duplicate_name(outputs@),
            r == Result::<Self, Error>::Err(Error::DuplicatePin) ==> has_duplicate_pin(outputs@),
            has_duplicate_name(outputs@) && !has_duplicate_pin(outputs@) ==> r == Result::<
                Self,
                Error,
            >::Err(Error::DuplicateName),
            has_duplicate_pin(outputs@) && !has_duplicate_name(outputs@) ==> r == Result::<
                Self,
                Error,
            >::Err(Error::DuplicatePin),
    {
        let ghost defs = outputs@;
        let mut v: Vec<OutputDefinition> = Vec::new();
        let mut i: usize = 0;
        while i < outputs.len()
            invariant
                i <= defs.len(),
                defs == outputs@,
                v@.len() == i,
                forall|p: int|
                    0 <= p < i ==> {
                        &&& (#[trigger] v@[p]).name_spec() == defs[p].name_spec()
                        &&& v@[p].pin_spec() == defs[p].pin_spec()
                        &&& v@[p].activations_spec() == defs[p].activations_spec()
                    },
                forall|p: int, q: int|
                    0 <= p < i && 0 <= q < defs.len() && p != q ==> (#[trigger] defs[p].name_spec())
                        != (#[trigger] defs[q].name_spec()),
                forall|p: int, q: int|
                    0 <= p < i && 0 <= q < defs.len() && p != q ==> (#[trigger] defs[p].pin_spec())
                        != (#[trigger] defs[q].pin_spec()),
            decreases defs.len() - i,
        {
            let mut j: usize = 0;
            while j < outputs.len()
                invariant
                    i < defs.len(),
                    j <= defs.len(),
                    defs == outputs@,
                    forall|q: int|
                        0 <= q < j && i != q ==> (#[trigger] defs[i as int].name_spec())
                            != defs[q].name_spec(),
                    forall|q: int|
                        0 <= q < j && i != q ==> (#[trigger] defs[i as int].pin_spec())
                            != defs[q].pin_spec(),
                decreases defs.len() - j,
            {
                if i != j {
                    if outputs[i].name() == outputs[j].name() {
                        proof {
                            assert(has_duplicate_name(defs));
                        }
                        return Err(Error::DuplicateName);
                    }
                    if outputs[i].pin.number() == outputs[j].pin.number() {
                        proof {
                            assert(defs[i as int].pin_spec() == defs[j as int].pin_spec());
                            assert(has_duplicate_pin(defs));
                        }
                        return Err(Error::DuplicatePin);
                    }
                }
                j = j + 1;
            }
            let d = outputs[i].clone();
            v.push(d);
            i = i + 1;
        }
        proof {
            assert forall|p: int, q: int|
                0 <= p < v@.len() && 0 <= q < v@.len() && p != q implies (#[trigger] v@[p].name_spec())
                != (#[trigger] v@[q].name_spec()) by {
                assert(defs[p].name_spec() != defs[q].name_spec());
            }
            assert forall|p: int, q: int|
                0 <= p < v@.len() && 0 <= q < v@.len() && p != q implies (#[trigger] v@[p].pin_spec())
                != (#[trigger] v@[q].pin_spec()) by {
                assert(defs[p].pin_spec() != defs[q].pin_spec());
            }
        }
        Ok(Self { outputs: v })
    }

    /// The definitions in their original order.
    pub fn outputs(&self) -> (r: &[OutputDefinition])
        ensures
            r@ == self@,
    {
        self.outputs.as_slice()
    }
}

/// A temporary forced state layered above one output's base schedule. Its
/// `was_triggered` flag starts false and is set the first time the override's
/// window is found to contain the current time; the end-of-tick cleanup drops
/// an override that has triggered and whose window has passed.
#[derive(Debug, Clone, Copy, PartialEq, Eq, Structural)]
pub struct Override {
    pub state: OutputState,
    pub activation: ScheduledActivation,
    pub was_triggered: bool,
}

impl Override {
    /// Builds an override that has not yet triggered.
    pub fn new(state: OutputState, activation: ScheduledActivation) -> (r: Self)
        ensures
            r == (Override { state, activation, was_triggered: false }),
    {
        Self { state, activation, was_triggered: false }
    }
}

/// Whether the end-of-tick cleanup at time `t` keeps the override: it stays
/// while its window contains `t` or while it has never triggered.
pub open spec fn override_kept(o: Override, t: int) -> bool {
    o.activation.contains_time(t) || !o.was_triggered
}

/// The overrides that remain after the end-of-tick cleanup at time `t`, in
/// their original order.
pub open spec fn cleanup_of(ovs: Seq<Override>, t: int) -> Seq<Override> {
    ovs.filter(|o: Override| override_kept(o, t))
}

/// The override list after one evaluation at time `t`: the first override
/// whose window contains `t`, if any, is marked triggered; the rest keep
/// their flags.
pub open spec fn mark_first(ovs: Seq<Override>, t: int) -> Seq<Override>
    decreases ovs.len(),
{
    if ovs.len() == 0 {
        ovs
    } else if ovs[0].activation.contains_time(t) {
        seq![
            Override { state: ovs[0].state, activation: ovs[0].activation, was_triggered: true },
        ] + ovs.drop_first()
    } else {
        seq![ovs[0]] + mark_first(ovs.drop_first(), t)
    }
}

/// The state an output is driven to at time `t`: the first override whose
/// window contains `t` wins; with no matching override the base schedule
/// turns the output on exactly while one of its windows contains `t`.
pub open spec fn target_of(ovs: Seq<Override>, acts: Seq<ScheduledActivation>, t: int) -> OutputState
    decreases ovs.len(),
{
    if ovs.len() == 0 {
        if any_contains(acts, t) {
            OutputState::On
        } else {
            OutputState::Off
        }
    } else if ovs[0].activation.contains_time(t) {
        ovs[0].state
    } else {
        target_of(ovs.drop_first(), acts, t)
    }
}

/// With no override window containing `t`, an evaluation leaves the override
/// list unchanged and the base schedule decides the target state.
proof fn lemma_no_match_effect(ovs: Seq<Override>, acts: Seq<ScheduledActivation>, t: int)
    requires
        forall|q: int| 0 <= q < ovs.len() ==> !(#[trigger] ovs[q]).activation.contains_time(t),
    ensures
        mark_first(ovs, t) == ovs,
        target_of(ovs, acts, t) == (if any_contains(acts, t) {
            OutputState::On
        } else {
            OutputState::Off
        }),
    decreases ovs.len(),
{
    if ovs.len() > 0 {
        assert(ovs[0].activation.contains_time(t) == false);
        lemma_no_match_effect(ovs.drop_first(), acts, t);
        assert(seq![ovs[0]] + ovs.drop_first() =~= ovs);
    }
}

/// With `i` the first index whose override window contains `t`, an
/// evaluation marks exactly that override triggered and returns its state.
proof fn lemma_first_match_effect(ovs: Seq<Override>, acts: Seq<ScheduledActivation>, t: int, i: int)
    requires
        0 <= i < ovs.len(),
        ovs[i].activation.contains_time(t),
        forall|q: int| 0 <= q < i ==> !(#[trigger] ovs[q]).activation.contains_time(t),
    ensures
        mark_first(ovs, t) == ovs.update(
            i,
            Override { state: ovs[i].state, activation: ovs[i].activation, was_triggered: true },
        ),
        target_of(ovs, acts, t) == ovs[i].state,
    decreases i,
{
    let marked = Override {
        state: ovs[i].state,
        activation: ovs[i].activation,
        was_triggered: true,
    };
    if i == 0 {
        assert(seq![marked] + ovs.drop_first() =~= ovs.update(0, marked));
    } else {
        assert(!ovs[0].activation.contains_time(t));
        lemma_first_match_effect(ovs.drop_first(), acts, t, i - 1);
        assert(seq![ovs[0]] + ovs.drop_first().update(i - 1, marked) =~= ovs.update(i, marked));
    }
}

/// Marking the first matching override keeps the list's length and leaves
/// every override whose window does not contain `t` unchanged in place.
proof fn lemma_mark_first_preserves_others(ovs: Seq<Override>, t: int)
    ensures
        mark_first(ovs, t).len() == ovs.len(),
        forall|i: int|
            0 <= i < ovs.len() && !(#[trigger] ovs[i]).activation.contains_time(t) ==> mark_first(
                ovs,
                t,
            )[i] == ovs[i],
    decreases ovs.len(),
{
    if ovs.len() > 0 {
        if ovs[0].activation.contains_time(t) {
            assert forall|i: int| 1 <= i < ovs.len() implies mark_first(ovs, t)[i] == ovs[i] by {
                assert(mark_first(ovs, t)[i] == ovs.drop_first()[i - 1]);
            }
        } else {
            lemma_mark_first_preserves_others(ovs.drop_first(), t);
            assert forall|i: int|
                1 <= i < ovs.len() && !(#[trigger] ovs[i]).activation.contains_time(
                    t,
                ) implies mark_first(ovs, t)[i] == ovs[i] by {
                assert(mark_first(ovs, t)[i] == mark_first(ovs.drop_first(), t)[i - 1]);
                assert(ovs.drop_first()[i - 1] == ovs[i]);
            }
        }
    }
}

/// The override lifecycle across one tick at time `t` (an evaluation
/// followed by the cleanup): an override that had triggered and whose window
/// no longer contains `t` is removed from the list, and one whose window
/// does not contain `t` and which has never triggered is retained.
pub proof fn lemma_override_lifecycle(ovs: Seq<Override>, t: int)
    ensures
        forall|i: int|
            0 <= i < ovs.len() && (#[trigger] ovs[i]).was_triggered
                && !ovs[i].activation.contains_time(t) ==> !cleanup_of(
                mark_first(ovs, t),
                t,
            ).contains(ovs[i]),
        forall|i: int|
            0 <= i < ovs.len() && !(#[trigger] ovs[i]).was_triggered
                && !ovs[i].activation.contains_time(t) ==> cleanup_of(
                mark_first(ovs, t),
                t,
            ).contains(ovs[i]),
{
    let pred = |o: Override| override_kept(o, t);
    let marked = mark_first(ovs, t);
    let kept = marked.filter(pred);
    lemma_mark_first_preserves_others(ovs, t);
    assert forall|i: int|
        0 <= i < ovs.len() && (#[trigger] ovs[i]).was_triggered
            && !ovs[i].activation.contains_time(t) implies !kept.contains(ovs[i]) by {
        if kept.contains(ovs[i]) {
            let k = choose|k: int| 0 <= k < kept.len() && kept[k] == ovs[i];
            marked.lemma_filter_pred(pred, k);
        }
    }
    assert forall|i: int|
        0 <= i < ovs.len() && !(#[trigger] ovs[i]).was_triggered
            && !ovs[i].activation.contains_time(t) implies kept.contains(ovs[i]) by {
        assert(marked[i] == ovs[i]);
        marked.lemma_filter_contains(pred, i);
    }
}

/// The target state is stable across one tick: evaluating at `t` again
/// after the overrides were marked and cleaned up at `t` yields the same
/// state as the first evaluation, because every override whose window
/// contains `t` survives the cleanup in its original position.
proof fn lemma_target_stable_after_tick(ovs: Seq<Override>, acts: Seq<ScheduledActivation>, t: int)
    ensures
        target_of(cleanup_of(mark_first(ovs, t), t), acts, t) == target_of(ovs, acts, t),
    decreases ovs.len(),
{
    let pred = |o: Override| override_kept(o, t);
    reveal_with_fuel(Seq::filter, 2);
    if ovs.len() == 0 {
        assert(mark_first(ovs, t).filter(pred) =~= ovs);
    } else {
        let rest = ovs.drop_first();
        lemma_target_stable_after_tick(rest, acts, t);
        if ovs[0].activation.contains_time(t) {
            let marked = Override {
                state: ovs[0].state,
                activation: ovs[0].activation,
                was_triggered: true,
            };
            Seq::filter_distributes_over_add(seq![marked], rest, pred);
            assert(seq![marked].filter(pred) =~= seq![marked]);
            let cleaned = cleanup_of(mark_first(ovs, t), t);
            assert(cleaned == seq![marked] + cleanup_of(rest, t));
            assert(cleaned[0] == marked);
            assert(target_of(cleaned, acts, t) == marked.state);
        } else {
            Seq::filter_distributes_over_add(seq![ovs[0]], mark_first(rest, t), pred);
            let cleaned = cleanup_of(mark_first(ovs, t), t);
            let cleaned_rest = cleanup_of(mark_first(rest, t), t);
            if pred(ovs[0]) {
                assert(seq![ovs[0]].filter(pred) =~= seq![ovs[0]]);
                assert(cleaned == seq![ovs[0]] + cleaned_rest);
                assert(cleaned[0] == ovs[0]);
                assert(cleaned.drop_first() =~= cleaned_rest);
            } else {
                assert(seq![ovs[0]].filter(pred) =~= Seq::<Override>::empty());
                assert(cleaned =~= cleaned_rest);
            }
        }
    }
}

/// One output under the controller's care: its definition, the live pin
/// handle that drives it and its current list of overrides.
pub struct ControlledOutput<OP: OutputPin> {
    pub definition: OutputDefinition,
    pub pin: OP,
    pub overrides: Vec<Override>,
}

impl<OP: OutputPin> ControlledOutput<OP> {
    /// Evaluates the output's target state at `now`: the first override
    /// whose window contains `now` is marked triggered and its state wins;
    /// with no matching override the base schedule decides.
    pub fn target_state(&mut self, now: &TimeOfDay) -> (r: OutputState)
        ensures
            r == target_of(
                old(self).overrides@,
                old(self).definition.activations_spec(),
                now.sec(),
            ),
            final(self).overrides@ == mark_first(old(self).overrides@, now.sec()),
            final(self).definition == old(self).definition,
            final(self).pin == old(self).pin,
    {
        let ghost ovs = self.overrides@;
        let ghost acts = self.definition.activations_spec();
        let mut i: usize = 0;
        while i < self.overrides.len()
            invariant
                i <= ovs.len(),
                self.overrides@ == ovs,
                ovs == old(self).overrides@,
                self.definition == old(self).definition,
                self.pin == old(self).pin,
                acts == old(self).definition.activations_spec(),
                forall|q: int| 0 <= q < i ==> !(#[trigger] ovs[q]).activation.contains_time(
                    now.sec(),
                ),
            decreases ovs.len() - i,
        {
            if self.overrides[i].activation.has_inside(now) {
                self.overrides[i].was_triggered = true;
                proof {
                    lemma_first_match_effect(ovs, acts, now.sec(), i as int);
                }
                return self.overrides[i].state;
            }
            i = i + 1;
        }

        proof {
            lemma_no_match_effect(ovs, acts, now.sec());
        }
        if self.definition.activations.has_inside(now) {
            OutputState::On
        } else {
            OutputState::Off
        }
    }

    /// Drops every override that has already triggered and whose window no
    /// longer contains `now`.
    pub fn cleanup_overrides(&mut self, now: &TimeOfDay)
        ensures
            final(self).overrides@ == cleanup_of(old(self).overrides@, now.sec()),
            final(self).definition == old(self).definition,
            final(self).pin == old(self).pin,
    {
        let ghost ovs = self.overrides@;
        let ghost t: int = now.sec();
        let ghost pred = |o: Override| override_kept(o, t);
        let mut kept: Vec<Override> = Vec::new();
        let mut i: usize = 0;
        while i < self.overrides.len()
            invariant
                i <= ovs.len(),
                self.overrides@ == ovs,
                ovs == old(self).overrides@,
                self.definition == old(self).definition,
                self.pin == old(self).pin,
                t == now.sec(),
                pred == (|o: Override| override_kept(o, t)),
                kept@ == ovs.take(i as int).filter(pred),
            decreases ovs.len() - i,
        {
            let o = self.overrides[i];
            if o.activation.has_inside(now) || !o.was_triggered {
                kept.push(o);
            }
            proof {
                ovs.take(i as int).lemma_filter_push(ovs[i as int], pred);
                assert(ovs.take(i as int).push(ovs[i as int]) =~= ovs.take(i as int + 1));
            }
            i = i + 1;
        }
        proof {
            assert(ovs.take(ovs.len() as int) =~= ovs);
        }
        self.overrides = kept;
    }
}

/// A clock handing out the current wall-clock time of day.
pub trait CurrentTimeProvider {
    fn now(&self) -> TimeOfDay;
}

/// A snapshot of one output's name and its current hardware-reported state.
#[derive(Debug)]
pub struct OutputStatus {
    pub name: OutputName,
    pub state: OutputState,
}

/// Binds the validated output definitions to live pin handles and a clock.
/// On each tick it computes every output's target state — overrides first,
/// then the base schedule — and writes a pin only when the target differs
/// from the state the pin reports.
pub struct Controller<OP: OutputPin, CTP: CurrentTimeProvider> {
    outputs: Vec<ControlledOutput<OP>>,
    current_time_provider: CTP,
}

impl<OP: OutputPin, CTP: CurrentTimeProvider> Controller<OP, CTP> {
    /// The controlled outputs, in definition order.
    pub closed spec fn outputs_seq(&self) -> Seq<ControlledOutput<OP>> {
        self.outputs@
    }

    /// The definitions of the controlled outputs, in order.
    pub open spec fn defs(&self) -> Seq<OutputDefinition> {
        self.outputs_seq().map_values(|o: ControlledOutput<OP>| o.definition)
    }

    /// Whether some controlled output carries the given name.
    pub open spec fn has_output(&self, name: Seq<char>) -> bool {
        exists|i: int|
            0 <= i < self.outputs_seq().len() && (#[trigger] self.outputs_seq()[i]).definition
                .name_spec() == name
    }

    /// The controller drives an output of a given name exactly when its
    /// definition sequence carries that name.
    pub proof fn lemma_has_output_iff_defs(&self, name: Seq<char>)
        ensures
            self.has_output(name) <==> exists|i: int|
                0 <= i < self.defs().len() && (#[trigger] self.defs()[i]).name_spec() == name,
    {
        if self.has_output(name) {
            let i = choose|i: int|
                0 <= i < self.outputs_seq().len() && (#[trigger] self.outputs_seq()[i]).definition
                    .name_spec() == name;
            assert(self.defs()[i].name_spec() == name);
        }
        if exists|i: int|
            0 <= i < self.defs().len() && (#[trigger] self.defs()[i]).name_spec() == name {
            let i = choose|i: int|
                0 <= i < self.defs().len() && (#[trigger] self.defs()[i]).name_spec() == name;
            assert(self.outputs_seq()[i].definition.name_spec() == name);
        }
    }

    /// How one tick at time `t` transforms the controller: every output's
    /// overrides are evaluated and cleaned up, and its pin ends up driven
    /// exactly when the output's target state at `t` was on.
    pub open spec fn tick_rel(self, post: Self, t: int) -> bool {
        &&& post.outputs_seq().len() == self.outputs_seq().len()
        &&& forall|i: int|
            0 <= i < self.outputs_seq().len() ==> {
                let pre_o = self.outputs_seq()[i];
                let post_o = #[trigger] post.outputs_seq()[i];
                &&& post_o.definition == pre_o.definition
                &&& post_o.overrides@ == cleanup_of(mark_first(pre_o.overrides@, t), t)
                &&& post_o.pin.pin_state() == (if target_of(
                    pre_o.overrides@,
                    pre_o.definition.activations_spec(),
                    t,
                ) == OutputState::On {
                    OutputPinState::High
                } else {
                    OutputPinState::Low
                })
            }
    }

    /// Repeated ticks are observably idempotent: after a tick at time `t`,
    /// a second tick at the same `t` leaves every pin exactly as the first
    /// tick set it.
    pub proof fn lemma_tick_idempotent(&self, mid: Self, post: Self, t: int)
        requires
            self.tick_rel(mid, t),
            mid.tick_rel(post, t),
        ensures
            forall|i: int|
                0 <= i < post.outputs_seq().len() ==> (#[trigger] post.outputs_seq()[i]).pin
                    .pin_state() == mid.outputs_seq()[i].pin.pin_state(),
    {
        assert forall|i: int|
            0 <= i < post.outputs_seq().len() implies (#[trigger] post.outputs_seq()[i]).pin
            .pin_state() == mid.outputs_seq()[i].pin.pin_state() by {
            let pre_o = self.outputs_seq()[i];
            lemma_target_stable_after_tick(
                pre_o.overrides@,
                pre_o.definition.activations_spec(),
                t,
            );
        }
    }

    /// Acquires one pin handle per output definition through the factory and
    /// binds everything into a controller; fails iff an acquisition fails,
    /// propagating the factory's error.
    pub fn new<IP: InputPin, GP: GPIO<OP, IP>>(
        outputs: &OutputDefinitions,
        gpio: GP,
        current_time_provider: CTP,
    ) -> (r: Result<Controller<OP, CTP>, Error>)
        ensures
            outputs@.len() == 0 ==> r is Ok,
            gpio.infallible() ==> r is Ok,
            r matches Ok(c) ==> {
                &&& defs_match(c.defs(), outputs@)
                &&& forall|i: int|
                    0 <= i < c.outputs_seq().len() ==> (#[trigger] c.outputs_seq()[i]).overrides@
                        =~= Seq::<Override>::empty()
            },
    {
        let defs = outputs.outputs();
        let mut v: Vec<ControlledOutput<OP>> = Vec::new();
        let mut i: usize = 0;
        while i < defs.len()
            invariant
                i <= defs@.len(),
                defs@ == outputs@,
                v@.len() == i,
                forall|p: int|
                    0 <= p < i ==> {
                        &&& (#[trigger] v@[p]).definition.name_spec() == defs@[p].name_spec()
                        &&& v@[p].definition.pin_spec() == defs@[p].pin_spec()
                        &&& v@[p].definition.activations_spec() == defs@[p].activations_spec()
                        &&& v@[p].overrides@.len() == 0
                    },
            decreases defs@.len() - i,
        {
            let pin = match gpio.output(&defs[i].pin) {
                Ok(p) => p,
                Err(e) => {
                    return Err(e);
                },
            };
            v.push(ControlledOutput { definition: defs[i].clone(), pin, overrides: Vec::new() });
            i = i + 1;
        }
        let c = Controller { outputs: v, current_time_provider };
        proof {
            assert(forall|p: int|
                0 <= p < c.defs().len() ==> (#[trigger] c.defs()[p]) == c.outputs_seq()[p].definition);
        }
        Ok(c)
    }

    /// Runs one evaluation tick for every output at the clock's current
    /// time.
    pub fn update_outputs(&mut self)
        ensures
            exists|t: int| 0 <= t < 86400 && old(self).tick_rel(*final(self), t),
            final(self).defs() == old(self).defs(),
    {
        let now = self.current_time_provider.now();
        proof {
            use_type_invariant(&now);
        }
        self.update_outputs_for_time(now);
    }

    /// Runs one evaluation tick for every output at the given time.
    pub fn update_outputs_for_time(&mut self, now: TimeOfDay)
        ensures
            old(self).tick_rel(*final(self), now.sec()),
            final(self).defs() == old(self).defs(),
    {
        let ghost pre = self.outputs@;
        let ghost t: int = now.sec();
        let mut i: usize = 0;
        while i < self.outputs.len()
            invariant
                i <= pre.len(),
                pre == old(self).outputs@,
                self.outputs@.len() == pre.len(),
                t == now.sec(),
                forall|j: int| i <= j < pre.len() ==> self.outputs@[j] == pre[j],
                forall|j: int|
                    0 <= j < i ==> {
                        let pre_o = pre[j];
                        let post_o = #[trigger] self.outputs@[j];
                        &&& post_o.definition == pre_o.definition
                        &&& post_o.overrides@ == cleanup_of(mark_first(pre_o.overrides@, t), t)
                        &&& post_o.pin.pin_state() == (if target_of(
                            pre_o.overrides@,
                            pre_o.definition.activations_spec(),
                            t,
                        ) == OutputState::On {
                            OutputPinState::High
                        } else {
                            OutputPinState::Low
                        })
                    },
            decreases pre.len() - i,
        {
            let target = self.outputs[i].target_state(&now);
            match target {
                OutputState::On => {
                    if self.outputs[i].pin.state() != OutputPinState::High {
                        self.outputs[i].pin.set_high();
                    }
                },
                OutputState::Off => {
                    if self.outputs[i].pin.state() != OutputPinState::Low {
                        self.outputs[i].pin.set_low();
                    }
                },
            }
            self.outputs[i].cleanup_overrides(&now);
            i = i + 1;
        }
        proof {
            assert(old(self).defs() =~= final(self).defs());
        }
    }

    /// Appends an override to the first output carrying `output_name`; fails
    /// iff no output carries that name, leaving every output untouched.
    pub fn add_override(
        &mut self,
        output_name: OutputName,
        state: OutputState,
        activation: ScheduledActivation,
    ) -> (r: Result<(), Error>)
        ensures
            r is Ok <==> old(self).has_output(output_name@),
            r matches Err(e) ==> e == Error::UnknownOutput && *final(self) == *old(self),
            r is Ok ==> exists|k: int|
                {
                    &&& 0 <= k < old(self).outputs_seq().len()
                    &&& (#[trigger] old(self).outputs_seq()[k]).definition.name_spec()
                        == output_name@
                    &&& forall|q: int|
                        0 <= q < k ==> (#[trigger] old(self).outputs_seq()[q]).definition
                            .name_spec() != output_name@
                    &&& final(self).outputs_seq().len() == old(self).outputs_seq().len()
                    &&& forall|q: int|
                        0 <= q < old(self).outputs_seq().len() && q != k ==> final(self).outputs_seq()[q] == old(self).outputs_seq()[q]
                    &&& final(self).outputs_seq()[k].definition == old(self).outputs_seq()[k].definition
                    &&& final(self).outputs_seq()[k].pin == old(self).outputs_seq()[k].pin
                    &&& final(self).outputs_seq()[k].overrides@ == old(self).outputs_seq()[k].overrides@.push(
                        Override { state, activation, was_triggered: false },
                    )
                },
            final(self).defs() == old(self).defs(),
    {
        let ghost pre = self.outputs@;
        let mut i: usize = 0;
        while i < self.outputs.len()
            invariant
                i <= pre.len(),
                pre == old(self).outputs@,
                self.outputs@ == pre,
                *self == *old(self),
                forall|q: int|
                    0 <= q < i ==> (#[trigger] pre[q]).definition.name_spec() != output_name@,
            decreases pre.len() - i,
        {
            if self.outputs[i].definition.name == output_name {
                self.outputs[i].overrides.push(Override::new(state, activation));
                proof {
                    assert(old(self).defs() =~= final(self).defs());
                }
                return Ok(());
            }
            i = i + 1;
        }

        Err(Error::UnknownOutput)
    }

    /// Empties the override list of the first output carrying `output_name`;
    /// fails iff no output carries that name, leaving every output
    /// untouched.
    pub fn clear_overrides(&mut self, output_name: OutputName) -> (r: Result<(), Error>)
        ensures
            r is Ok <==> old(self).has_output(output_name@),
            r matches Err(e) ==> e == Error::UnknownOutput && *final(self) == *old(self),
            r is Ok ==> exists|k: int|
                {
                    &&& 0 <= k < old(self).outputs_seq().len()
                    &&& (#[trigger] old(self).outputs_seq()[k]).definition.name_spec()
                        == output_name@
                    &&& forall|q: int|
                        0 <= q < k ==> (#[trigger] old(self).outputs_seq()[q]).definition
                            .name_spec() != output_name@
                    &&& final(self).outputs_seq().len() == old(self).outputs_seq().len()
                    &&& forall|q: int|
                        0 <= q < old(self).outputs_seq().len() && q != k ==> final(self).outputs_seq()[q] == old(self).outputs_seq()[q]
                    &&& final(self).outputs_seq()[k].definition == old(self).outputs_seq()[k].definition
                    &&& final(self).outputs_seq()[k].pin == old(self).outputs_seq()[k].pin
                    &&& final(self).outputs_seq()[k].overrides@.len() == 0
                },
            final(self).defs() == old(self).defs(),
    {
        let ghost pre = self.outputs@;
        let mut i: usize = 0;
        while i < self.outputs.len()
            invariant
                i <= pre.len(),
                pre == old(self).outputs@,
                self.outputs@ == pre,
                *self == *old(self),
                forall|q: int|
                    0 <= q < i ==> (#[trigger] pre[q]).definition.name_spec() != output_name@,
            decreases pre.len() - i,
        {
            if self.outputs[i].definition.name == output_name {
                self.outputs[i].overrides.clear();
                proof {
                    assert(old(self).defs() =~= final(self).defs());
                }
                return Ok(());
            }
            i = i + 1;
        }

        Err(Error::UnknownOutput)
    }

    /// Unconditionally drives every output's pin low, ignoring schedules,
    /// overrides and prior state. This is the crash-recovery action; it
    /// cannot fail.
    pub fn fail_safe(&mut self)
        ensures
            final(self).outputs_seq().len() == old(self).outputs_seq().len(),
            forall|i: int|
                0 <= i < old(self).outputs_seq().len() ==> {
                    let pre_o = old(self).outputs_seq()[i];
                    let post_o = #[trigger] final(self).outputs_seq()[i];
                    &&& post_o.pin.pin_state() == OutputPinState::Low
                    &&& post_o.definition == pre_o.definition
                    &&& post_o.overrides@ == pre_o.overrides@
                },
            final(self).defs() == old(self).defs(),
    {
        let ghost pre = self.outputs@;
        let mut i: usize = 0;
        while i < self.outputs.len()
            invariant
                i <= pre.len(),
                pre == old(self).outputs@,
                self.outputs@.len() == pre.len(),
                forall|j: int| i <= j < pre.len() ==> self.outputs@[j] == pre[j],
                forall|j: int|
                    0 <= j < i ==> {
                        let post_o = #[trigger] self.outputs@[j];
                        &&& post_o.pin.pin_state() == OutputPinState::Low
                        &&& post_o.definition == pre[j].definition
                        &&& post_o.overrides@ == pre[j].overrides@
                    },
            decreases pre.len() - i,
        {
            self.outputs[i].pin.set_low();
            i = i + 1;
        }
        proof {
            assert(old(self).defs() =~= final(self).defs());
        }
    }

    /// A read-only snapshot of every output's name and hardware-reported
    /// state, in definition order.
    pub fn status(&self) -> (r: Vec<OutputStatus>)
        ensures
            r@.len() == self.outputs_seq().len(),
            forall|i: int|
                0 <= i < r@.len() ==> {
                    &&& (#[trigger] r@[i]).name@ == self.outputs_seq()[i].definition.name_spec()
                    &&& r@[i].state == (if self.outputs_seq()[i].pin.pin_state()
                        == OutputPinState::High {
                        OutputState::On
                    } else {
                        OutputState::Off
                    })
                },
    {
        let mut result: Vec<OutputStatus> = Vec::new();
        let mut i: usize = 0;
        while i < self.outputs.len()
            invariant
                i <= self.outputs_seq().len(),
                result@.len() == i,
                forall|j: int|
                    0 <= j < i ==> {
                        &&& (#[trigger] result@[j]).name@ == self.outputs_seq()[j].definition
                            .name_spec()
                        &&& result@[j].state == (if self.outputs_seq()[j].pin.pin_state()
                            == OutputPinState::High {
                            OutputState::On
                        } else {
                            OutputState::Off
                        })
                    },
            decreases self.outputs_seq().len() - i,
        {
            let status = OutputStatus {
                name: self.outputs[i].definition.name.clone(),
                state: OutputState::from(self.outputs[i].pin.state()),
            };
            result.push(status);
            i = i + 1;
        }
        result
    }
}

} // verus!
