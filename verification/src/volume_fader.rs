//! The volume fader: ramps the volume of a device in steps, one step per timer
//! tick, until the maximum is reached or the fade is cancelled. The host owns the
//! timers; the fader decides what each tick does.

use vstd::prelude::*;

verus! {

/// The volume at which a fade ends.
pub const MAX_VOLUME: u32 = 100;

/// The volume that one step adds.
pub const STEP_SIZE: u32 = 10;

/// A fade in progress, as the fader holds it. A fade that is cancelled or done is
/// not kept: that the fader holds none for a device is what says so.
#[derive(Debug)]
pub struct FadeState {
    pub device_id: String,
    pub current_volume: u32,
    pub step_size: u32,
    pub step_interval_ms: u64,
}

/// The progress of the fade of one device.
pub struct Fade {
    pub current_volume: u32,
    pub step_size: u32,
    pub step_interval_ms: u64,
}

impl View for FadeState {
    type V = Fade;

    open spec fn view(&self) -> Fade {
        Fade {
            current_volume: self.current_volume,
            step_size: self.step_size,
            step_interval_ms: self.step_interval_ms,
        }
    }
}

/// What the host does when a fade is asked for.
#[derive(Clone, Copy, Debug, PartialEq, Eq, Structural)]
pub enum FadeStart {
    /// Fading is disabled: no timer to set. Where `replaced`, a fade was running for
    /// the device: clear its timer.
    Disabled { replaced: bool },
    /// Where `replaced`, first clear the timer that runs for the device. Then set
    /// the device to `volume`, and set a timer that repeats every `step_interval_ms`.
    Begun { replaced: bool, volume: u32, step_interval_ms: u64 },
}

/// What the host does when the timer of a device fires.
#[derive(Clone, Copy, Debug, PartialEq, Eq, Structural)]
pub enum FadeTick {
    /// No fade runs for the device: no call is made.
    Idle,
    /// Set the device to `volume`; where `finished`, clear the timer.
    Step { volume: u32, finished: bool },
}

/// The interval of a host timer, whose milliseconds are a `u32`, for steps that
/// are `step_interval_ms` apart: the same, or the longest that the timer takes.
pub open spec fn timer_interval(step_interval_ms: u64) -> u32 {
    if step_interval_ms > u32::MAX {
        u32::MAX
    } else {
        step_interval_ms as u32
    }
}

/// Milliseconds between two steps of a fade that lasts `duration_seconds`: the
/// duration divided evenly over the steps from zero to `MAX_VOLUME`.
pub open spec fn step_interval(duration_seconds: u32) -> u64 {
    (duration_seconds * 1000 / (MAX_VOLUME / STEP_SIZE) as int) as u64
}

/// The volume after one more step of a fade, never above `MAX_VOLUME`.
pub open spec fn next_volume(fade: Fade) -> u32 {
    if fade.current_volume + fade.step_size >= MAX_VOLUME {
        MAX_VOLUME
    } else {
        (fade.current_volume + fade.step_size) as u32
    }
}

/// A fade is asked for: the fades after it, and what the host does. Whatever fade
/// ran for the device is discarded first. With a duration of zero none takes its
/// place; otherwise the new fade starts at volume zero.
pub open spec fn started(fades: Map<Seq<char>, Fade>, device_id: Seq<char>, duration_seconds: u32) -> (
    Map<Seq<char>, Fade>,
    FadeStart,
) {
    if duration_seconds == 0 {
        (fades.remove(device_id), FadeStart::Disabled { replaced: fades.contains_key(device_id) })
    } else {
        let fade = Fade {
            current_volume: 0,
            step_size: STEP_SIZE,
            step_interval_ms: step_interval(duration_seconds),
        };
        (
            fades.insert(device_id, fade),
            FadeStart::Begun {
                replaced: fades.contains_key(device_id),
                volume: 0,
                step_interval_ms: step_interval(duration_seconds),
            },
        )
    }
}

/// The timer of a device fires: the fades after it, and what the host does.
pub open spec fn ticked(fades: Map<Seq<char>, Fade>, device_id: Seq<char>) -> (
    Map<Seq<char>, Fade>,
    FadeTick,
) {
    if !fades.contains_key(device_id) {
        (fades, FadeTick::Idle)
    } else {
        let fade = fades[device_id];
        let volume = next_volume(fade);
        if volume >= MAX_VOLUME {
            (fades.remove(device_id), FadeTick::Step { volume, finished: true })
        } else {
            (
                fades.insert(device_id, Fade { current_volume: volume, ..fade }),
                FadeTick::Step { volume, finished: false },
            )
        }
    }
}

/// The fade of a device is cancelled: the fades after it, and whether a timer is to be cleared.
pub open spec fn cancelled(fades: Map<Seq<char>, Fade>, device_id: Seq<char>) -> (
    Map<Seq<char>, Fade>,
    bool,
) {
    (fades.remove(device_id), fades.contains_key(device_id))
}

/// The fades after the timer of a device has fired `count` times.
pub open spec fn ticked_times(fades: Map<Seq<char>, Fade>, device_id: Seq<char>, count: nat) -> Map<
    Seq<char>,
    Fade,
>
    decreases count,
{
    if count == 0 {
        fades
    } else {
        ticked(ticked_times(fades, device_id, (count - 1) as nat), device_id).0
    }
}

/// The steps of a fade divide its duration evenly: ten intervals make up the whole.
pub proof fn lemma_steps_span_duration(duration_seconds: u32)
    ensures
        step_interval(duration_seconds) == duration_seconds * 100,
        (MAX_VOLUME / STEP_SIZE) * step_interval(duration_seconds) == duration_seconds * 1000,
{
}

/// While a fade started with a duration above zero is left to run, the timer's
/// tick number `step`, for `step` from one to ten, sets the volume to ten times
/// `step`; the tenth reaches `MAX_VOLUME` and ends the fade.
pub proof fn lemma_fade_ramps(fades: Map<Seq<char>, Fade>, device_id: Seq<char>, duration_seconds: u32, step: nat)
    requires
        duration_seconds > 0,
        1 <= step <= 10,
    ensures
        ({
            let begun = started(fades, device_id, duration_seconds).0;
            let before = ticked_times(begun, device_id, (step - 1) as nat);
            let after = ticked_times(begun, device_id, step);
            &&& ticked(before, device_id).1 == FadeTick::Step {
                volume: (step * STEP_SIZE) as u32,
                finished: step == 10,
            }
            &&& after.contains_key(device_id) <==> step < 10
            &&& step < 10 ==> after[device_id] == Fade {
                current_volume: (step * STEP_SIZE) as u32,
                step_size: STEP_SIZE,
                step_interval_ms: step_interval(duration_seconds),
            }
        }),
    decreases step,
{
    if step > 1 {
        lemma_fade_ramps(fades, device_id, duration_seconds, (step - 1) as nat);
    }
}

/// Where no fade runs for a device, its timer's ticks make no call and change
/// nothing, however many there are.
pub proof fn lemma_no_fade_no_call(fades: Map<Seq<char>, Fade>, device_id: Seq<char>, count: nat)
    requires
        !fades.contains_key(device_id),
    ensures
        ticked_times(fades, device_id, count) == fades,
        ticked(ticked_times(fades, device_id, count), device_id) == (fades, FadeTick::Idle),
    decreases count,
{
    if count > 0 {
        lemma_no_fade_no_call(fades, device_id, (count - 1) as nat);
    }
}

/// After a cancel no tick of the device's timer makes a call, whatever had been done of the fade.
pub proof fn lemma_cancel_stops_fade(fades: Map<Seq<char>, Fade>, device_id: Seq<char>, count: nat)
    ensures
        ({
            let rest = cancelled(fades, device_id).0;
            ticked(ticked_times(rest, device_id, count), device_id) == (rest, FadeTick::Idle)
        }),
{
    lemma_no_fade_no_call(cancelled(fades, device_id).0, device_id, count);
}

/// A fade makes ten calls and no more: every tick after the tenth is idle.
pub proof fn lemma_fade_ends(fades: Map<Seq<char>, Fade>, device_id: Seq<char>, duration_seconds: u32, count: nat)
    requires
        duration_seconds > 0,
    ensures
        ({
            let begun = started(fades, device_id, duration_seconds).0;
            ticked(ticked_times(begun, device_id, 10 + count), device_id).1 == FadeTick::Idle
        }),
{
    let begun = started(fades, device_id, duration_seconds).0;
    lemma_fade_ramps(fades, device_id, duration_seconds, 10);
    lemma_ticks_add(begun, device_id, 10, count);
    lemma_no_fade_no_call(ticked_times(begun, device_id, 10), device_id, count);
}

/// Ticks one after the other: first `first` of them, then `then` more.
proof fn lemma_ticks_add(fades: Map<Seq<char>, Fade>, device_id: Seq<char>, first: nat, then: nat)
    ensures
        ticked_times(fades, device_id, first + then) == ticked_times(
            ticked_times(fades, device_id, first),
            device_id,
            then,
        ),
    decreases then,
{
    if then > 0 {
        lemma_ticks_add(fades, device_id, first, (then - 1) as nat);
    }
}

/// A fade with a duration of zero is no fade: afterwards none runs for the device,
/// and no tick of its timer makes a call, however many there are. The fades of
/// other devices stay as they are.
pub proof fn lemma_zero_duration_is_no_fade(fades: Map<Seq<char>, Fade>, device_id: Seq<char>, count: nat)
    ensures
        started(fades, device_id, 0).0 == fades.remove(device_id),
        !(started(fades, device_id, 0).1 is Begun),
        ticked(ticked_times(started(fades, device_id, 0).0, device_id, count), device_id).1
            == FadeTick::Idle,
{
    lemma_no_fade_no_call(fades.remove(device_id), device_id, count);
}

/// A second start for a device, while the fade of a first start still runs, tells the
/// host to clear the first's timer, whatever the second duration is, and leaves the
/// fades as if the first had never been started: what the first had reached is
/// discarded, and at most the second fade runs for the device.
pub proof fn lemma_restart_replaces(
    fades: Map<Seq<char>, Fade>,
    device_id: Seq<char>,
    first_seconds: u32,
    done: nat,
    second_seconds: u32,
)
    requires
        first_seconds > 0,
        done < 10,
    ensures
        ({
            let running = ticked_times(started(fades, device_id, first_seconds).0, device_id, done);
            started(running, device_id, second_seconds) == (
                started(fades, device_id, second_seconds).0,
                if second_seconds == 0 {
                    FadeStart::Disabled { replaced: true }
                } else {
                    FadeStart::Begun {
                        replaced: true,
                        volume: 0,
                        step_interval_ms: step_interval(second_seconds),
                    }
                },
            )
        }),
{
    let begun = started(fades, device_id, first_seconds).0;
    let running = ticked_times(begun, device_id, done);
    lemma_fade_touches_one_device(begun, device_id, done);
    if done > 0 {
        lemma_fade_ramps(fades, device_id, first_seconds, done);
    }
    assert forall|id: Seq<char>| id != device_id implies running.contains_key(id) == fades.contains_key(id)
        && running[id] == fades[id] by {
        assert(running.remove(device_id).contains_key(id) == begun.remove(device_id).contains_key(id));
        assert(running.remove(device_id)[id] == begun.remove(device_id)[id]);
    }
    assert(started(running, device_id, second_seconds).0 =~= started(fades, device_id, second_seconds).0);
}

/// The ticks of one device's timer leave the fades of every other device as they are.
pub proof fn lemma_fade_touches_one_device(fades: Map<Seq<char>, Fade>, device_id: Seq<char>, count: nat)
    ensures
        ticked_times(fades, device_id, count).remove(device_id) == fades.remove(device_id),
    decreases count,
{
    if count > 0 {
        lemma_fade_touches_one_device(fades, device_id, (count - 1) as nat);
        let before = ticked_times(fades, device_id, (count - 1) as nat);
        assert(ticked(before, device_id).0.remove(device_id) =~= before.remove(device_id));
    }
}

spec fn has_fade(fades: Seq<FadeState>, device_id: Seq<char>) -> bool {
    exists|i: int| 0 <= i < fades.len() && fades[i].device_id@ == device_id
}

spec fn position(fades: Seq<FadeState>, device_id: Seq<char>) -> int {
    choose|i: int| 0 <= i < fades.len() && fades[i].device_id@ == device_id
}

spec fn one_per_device(fades: Seq<FadeState>) -> bool {
    forall|i: int, j: int| 0 <= i < j < fades.len() ==> fades[i].device_id@ != fades[j].device_id@
}

spec fn table(fades: Seq<FadeState>) -> Map<Seq<char>, Fade> {
    Map::new(|id: Seq<char>| has_fade(fades, id), |id: Seq<char>| fades[position(fades, id)]@)
}

proof fn lemma_table_push(fades: Seq<FadeState>, fade: FadeState)
    requires
        one_per_device(fades),
        !has_fade(fades, fade.device_id@),
    ensures
        one_per_device(fades.push(fade)),
        table(fades.push(fade)) == table(fades).insert(fade.device_id@, fade@),
{
    let more = fades.push(fade);
    assert forall|id: Seq<char>| has_fade(more, id) <==> has_fade(fades, id) || id == fade.device_id@ by {
        if has_fade(fades, id) {
            assert(more[position(fades, id)].device_id@ == id);
        }
        if id == fade.device_id@ {
            assert(more[fades.len() as int].device_id@ == id);
        }
    }
    assert forall|id: Seq<char>| has_fade(more, id) implies #[trigger] table(more)[id] == table(fades).insert(
        fade.device_id@,
        fade@,
    )[id] by {
        let p = position(more, id);
        if id != fade.device_id@ {
            let q = position(fades, id);
            assert(more[q].device_id@ == id);
        }
    }
    assert(table(more) =~= table(fades).insert(fade.device_id@, fade@));
}

proof fn lemma_table_remove(fades: Seq<FadeState>, i: int)
    requires
        one_per_device(fades),
        0 <= i < fades.len(),
    ensures
        one_per_device(fades.remove(i)),
        table(fades.remove(i)) == table(fades).remove(fades[i].device_id@),
{
    let fewer = fades.remove(i);
    let gone = fades[i].device_id@;
    assert forall|k: int| 0 <= k < fewer.len() implies fewer[k] == fades[if k < i { k } else { k + 1 }] by {}
    assert forall|id: Seq<char>| has_fade(fewer, id) <==> has_fade(fades, id) && id != gone by {
        if has_fade(fewer, id) {
            let k = position(fewer, id);
            assert(fades[if k < i { k } else { k + 1 }].device_id@ == id);
        }
        if has_fade(fades, id) && id != gone {
            let q = position(fades, id);
            assert(fewer[if q < i { q } else { q - 1 }].device_id@ == id);
        }
    }
    assert forall|id: Seq<char>| has_fade(fewer, id) implies #[trigger] table(fewer)[id] == table(fades)[id] by {
        let k = position(fewer, id);
        let q = position(fades, id);
        assert(fewer[k] == fades[if k < i { k } else { k + 1 }]);
    }
    assert(table(fewer) =~= table(fades).remove(gone));
}

/// The fades in progress, at most one for each device.
#[derive(Debug)]
pub struct VolumeFader {
    fades: Vec<FadeState>,
}

impl View for VolumeFader {
    type V = Map<Seq<char>, Fade>;

    closed spec fn view(&self) -> Map<Seq<char>, Fade> {
        table(self.fades@)
    }
}

impl VolumeFader {
    #[verifier::type_invariant]
    spec fn well_formed(&self) -> bool {
        &&& one_per_device(self.fades@)
        &&& forall|i: int|
            0 <= i < self.fades@.len() ==> (#[trigger] self.fades@[i]).current_volume < MAX_VOLUME
                && self.fades@[i].step_size == STEP_SIZE
    }

    /// A fader with no fade in progress.
    pub fn new() -> (fader: VolumeFader)
        ensures
            fader@ == Map::<Seq<char>, Fade>::empty(),
    {
        let fader = VolumeFader { fades: Vec::new() };
        assert(fader@ =~= Map::<Seq<char>, Fade>::empty());
        fader
    }

    fn find(fades: &Vec<FadeState>, device_id: &String) -> (found: Option<usize>)
        ensures
            match found {
                Some(i) => i < fades@.len() && fades@[i as int].device_id@ == device_id@,
                None => !has_fade(fades@, device_id@),
            },
    {
        let mut i: usize = 0;
        while i < fades.len()
            invariant
                i <= fades.len(),
                forall|k: int| 0 <= k < i ==> fades@[k].device_id@ != device_id@,
            decreases fades.len() - i,
        {
            if fades[i].device_id == *device_id {
                return Some(i);
            }
            i += 1;
        }
        None
    }

    /// Whether a fade runs for the device.
    pub fn is_fading(&self, device_id: &str) -> (fading: bool)
        ensures
            fading == self@.contains_key(device_id@),
    {
        let id = device_id.to_owned();
        Self::find(&self.fades, &id).is_some()
    }

    /// The volume that the fade of the device has reached, if one runs.
    pub fn current_volume(&self, device_id: &str) -> (volume: Option<u32>)
        ensures
            volume == if self@.contains_key(device_id@) {
                Some(self@[device_id@].current_volume)
            } else {
                None
            },
    {
        proof {
            use_type_invariant(self);
        }
        let id = device_id.to_owned();
        match Self::find(&self.fades, &id) {
            Some(i) => {
                assert(self.fades@[position(self.fades@, id@)] == self.fades@[i as int]);
                Some(self.fades[i].current_volume)
            },
            None => None,
        }
    }

    /// Start a fade for the device that lasts `duration_seconds`. Any fade that runs
    /// for the device is cancelled first. A duration of zero means that fading is
    /// disabled, and no fade begins; otherwise the new one begins at volume zero.
    pub fn start(&mut self, device_id: &str, duration_seconds: u32) -> (start: FadeStart)
        ensures
            (final(self)@, start) == started(old(self)@, device_id@, duration_seconds),
    {
        proof {
            use_type_invariant(&*self);
        }
        let replaced = self.cancel(device_id);
        if duration_seconds == 0 {
            return FadeStart::Disabled { replaced };
        }
        proof {
            use_type_invariant(&*self);
        }
        let id = device_id.to_owned();
        let mut fades: Vec<FadeState> = Vec::new();
        std::mem::swap(&mut fades, &mut self.fades);
        assert(!has_fade(fades@, id@)) by {
            assert(!table(fades@).contains_key(id@));
        }
        let step_interval_ms: u64 = (duration_seconds as u64) * 1000 / ((MAX_VOLUME / STEP_SIZE) as u64);
        let fade = FadeState { device_id: id, current_volume: 0, step_size: STEP_SIZE, step_interval_ms };
        proof {
            lemma_table_push(fades@, fade);
            assert(table(old(self).fades@).remove(id@).insert(id@, fade@) =~= table(old(self).fades@).insert(
                id@,
                fade@,
            ));
        }
        fades.push(fade);
        self.fades = fades;
        FadeStart::Begun { replaced, volume: 0, step_interval_ms }
    }

    /// The timer of the device fired. Where a fade runs for it, the volume goes up by
    /// one step, and the fade ends when it reaches `MAX_VOLUME`. Where none runs,
    /// because it ended or was cancelled, nothing happens.
    pub fn tick(&mut self, device_id: &str) -> (tick: FadeTick)
        ensures
            (final(self)@, tick) == ticked(old(self)@, device_id@),
    {
        proof {
            use_type_invariant(&*self);
        }
        let id = device_id.to_owned();
        match Self::find(&self.fades, &id) {
            None => FadeTick::Idle,
            Some(i) => {
                let mut fades: Vec<FadeState> = Vec::new();
                std::mem::swap(&mut fades, &mut self.fades);
                proof {
                    assert(fades@[position(fades@, id@)] == fades@[i as int]);
                    lemma_table_remove(fades@, i as int);
                }
                let fade = fades.remove(i);
                let raised = fade.current_volume + fade.step_size;
                if raised >= MAX_VOLUME {
                    self.fades = fades;
                    FadeTick::Step { volume: MAX_VOLUME, finished: true }
                } else {
                    let next = FadeState { current_volume: raised, ..fade };
                    proof {
                        lemma_table_push(fades@, next);
                        assert(table(old(self).fades@).remove(id@).insert(id@, next@) =~= table(
                            old(self).fades@,
                        ).insert(id@, next@));
                    }
                    fades.push(next);
                    self.fades = fades;
                    FadeTick::Step { volume: raised, finished: false }
                }
            },
        }
    }

    /// The milliseconds to set a host timer to, for steps `step_interval_ms` apart.
    pub fn timer_millis(step_interval_ms: u64) -> (millis: u32)
        ensures
            millis == timer_interval(step_interval_ms),
    {
        if step_interval_ms > 0xffff_ffff {
            u32::MAX
        } else {
            step_interval_ms as u32
        }
    }

    /// Cancel the fade of the device, if one runs. Returns whether one ran: the host
    /// then clears its timer. Cancelling where none runs is a harmless no-op.
    pub fn cancel(&mut self, device_id: &str) -> (was_fading: bool)
        ensures
            (final(self)@, was_fading) == cancelled(old(self)@, device_id@),
    {
        proof {
            use_type_invariant(&*self);
        }
        let id = device_id.to_owned();
        match Self::find(&self.fades, &id) {
            None => {
                assert(self@.remove(id@) =~= self@);
                false
            },
            Some(i) => {
                let mut fades: Vec<FadeState> = Vec::new();
                std::mem::swap(&mut fades, &mut self.fades);
                proof {
                    lemma_table_remove(fades@, i as int);
                }
                let _ = fades.remove(i);
                self.fades = fades;
                true
            },
        }
    }
}

} // verus!
