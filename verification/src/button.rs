use vstd::prelude::*;

verus! {

/// The buttons of the Sprig, as the C button driver numbers them.
#[allow(non_camel_case_types)]
pub enum ButtonType {
    BOOTSEL,
    L_UP,
    L_DOWN,
    L_LEFT,
    L_RIGHT,
    R_UP,
    R_DOWN,
    R_LEFT,
    R_RIGHT,
}

impl ButtonType {
    /// The GPIO pin of the button: 0 for BOOTSEL, 5 to 8 for the left pad
    /// (up 5, left 6, down 7, right 8) and 12 to 15 for the right pad (up 12,
    /// left 13, down 14, right 15).
    pub open spec fn spec_pin(self) -> u32 {
        match self {
            ButtonType::BOOTSEL => 0,
            ButtonType::L_UP => 5,
            ButtonType::L_DOWN => 7,
            ButtonType::L_LEFT => 6,
            ButtonType::L_RIGHT => 8,
            ButtonType::R_UP => 12,
            ButtonType::R_DOWN => 14,
            ButtonType::R_LEFT => 13,
            ButtonType::R_RIGHT => 15,
        }
    }

    /// The GPIO pin of the button, which is the value the C driver receives.
    pub fn pin(&self) -> (p: u32)
        ensures
            p == self.spec_pin(),
    {
        match self {
            ButtonType::BOOTSEL => 0,
            ButtonType::L_UP => 5,
            ButtonType::L_DOWN => 7,
            ButtonType::L_LEFT => 6,
            ButtonType::L_RIGHT => 8,
            ButtonType::R_UP => 12,
            ButtonType::R_DOWN => 14,
            ButtonType::R_LEFT => 13,
            ButtonType::R_RIGHT => 15,
        }
    }
}

/// How long the button is left alone between two readings, in milliseconds.
pub const DEBOUNCE_MS: u64 = 50;

/// How long the button must stay down to count as held, in milliseconds.
pub const HOLD_MS: u64 = 800;

/// Where the watch over a button stands.
#[derive(PartialEq, Eq, Structural, Clone, Copy, Debug)]
pub enum HoldPhase {
    /// Waiting for the button to go down.
    WaitingForPress,
    /// The button went down and the hold timer runs: either the button comes
    /// up first, or the timer runs out first and the button counts as held.
    Timing,
    /// The button is held; waiting for it to come up.
    Held,
}

/// What the driver observed.
#[derive(PartialEq, Eq, Structural, Clone, Copy, Debug)]
pub enum ButtonEvent {
    /// A reading of the pin: `true` when the button is down.
    Reading(bool),
    /// The hold timer ran out.
    HoldTimeout,
}

/// What the driver does next.
#[derive(PartialEq, Eq, Structural, Clone, Copy, Debug)]
pub enum ButtonAction {
    /// Read the pin at once.
    ReadNow,
    /// Wait `DEBOUNCE_MS`, then read the pin.
    ReadAfterDebounce,
    /// Start the `HOLD_MS` hold timer and read the pin at once.
    StartHoldTimerAndRead,
    /// Stop the hold timer and read the pin at once.
    StopHoldTimerAndRead,
    /// Wait `DEBOUNCE_MS`, then read the pin, unless the hold timer runs out
    /// first.
    ReadAfterDebounceOrTimeout,
}

/// The phase after `event` in phase `phase`, and what the driver does next.
///
/// Waiting for a press, a reading of the button down starts the hold timer
/// and reads again at once; any other reading is followed by another after
/// the debounce interval. While timing, a reading of the button down is
/// followed by another after the debounce interval unless the timer runs
/// out first; a reading of the button up stops the timer and starts waiting
/// for a press again, reading at once; the timer running out makes the
/// button held and reads at once. Held, a reading of the button up starts
/// waiting for a press again, reading at once; a reading of it down is
/// followed by another after the debounce interval. A timeout outside of
/// timing is stale and changes nothing.
pub open spec fn hold_step(phase: HoldPhase, event: ButtonEvent) -> (HoldPhase, ButtonAction) {
    match phase {
        HoldPhase::WaitingForPress => match event {
            ButtonEvent::Reading(true) => (HoldPhase::Timing, ButtonAction::StartHoldTimerAndRead),
            _ => (HoldPhase::WaitingForPress, ButtonAction::ReadAfterDebounce),
        },
        HoldPhase::Timing => match event {
            ButtonEvent::Reading(true) => (HoldPhase::Timing, ButtonAction::ReadAfterDebounceOrTimeout),
            ButtonEvent::Reading(false) => (HoldPhase::WaitingForPress, ButtonAction::StopHoldTimerAndRead),
            ButtonEvent::HoldTimeout => (HoldPhase::Held, ButtonAction::ReadNow),
        },
        HoldPhase::Held => match event {
            ButtonEvent::Reading(false) => (HoldPhase::WaitingForPress, ButtonAction::ReadNow),
            _ => (HoldPhase::Held, ButtonAction::ReadAfterDebounce),
        },
    }
}

/// Tracks whether a button is held: down for `HOLD_MS` without a reading
/// of it up in between, and not yet read up since.
pub struct HoldTracker {
    phase: HoldPhase,
}

impl View for HoldTracker {
    type V = HoldPhase;

    closed spec fn view(&self) -> HoldPhase {
        self.phase
    }
}

impl HoldTracker {
    /// A tracker waiting for the first press. The driver starts by reading
    /// the pin at once.
    pub fn new() -> (t: Self)
        ensures
            t@ == HoldPhase::WaitingForPress,
    {
        Self { phase: HoldPhase::WaitingForPress }
    }

    /// The button counts as held.
    pub fn is_held(&self) -> (b: bool)
        ensures
            b == (self@ == HoldPhase::Held),
    {
        match self.phase {
            HoldPhase::Held => true,
            _ => false,
        }
    }

    /// Takes in what the driver observed and says what it does next.
    pub fn step(&mut self, event: ButtonEvent) -> (a: ButtonAction)
        ensures
            (final(self)@, a) == hold_step(old(self)@, event),
    {
        let (phase, action) = match self.phase {
            HoldPhase::WaitingForPress => match event {
                ButtonEvent::Reading(true) => (HoldPhase::Timing, ButtonAction::StartHoldTimerAndRead),
                _ => (HoldPhase::WaitingForPress, ButtonAction::ReadAfterDebounce),
            },
            HoldPhase::Timing => match event {
                ButtonEvent::Reading(true) => (HoldPhase::Timing, ButtonAction::ReadAfterDebounceOrTimeout),
                ButtonEvent::Reading(false) => (HoldPhase::WaitingForPress, ButtonAction::StopHoldTimerAndRead),
                ButtonEvent::HoldTimeout => (HoldPhase::Held, ButtonAction::ReadNow),
            },
            HoldPhase::Held => match event {
                ButtonEvent::Reading(false) => (HoldPhase::WaitingForPress, ButtonAction::ReadNow),
                _ => (HoldPhase::Held, ButtonAction::ReadAfterDebounce),
            },
        };
        self.phase = phase;
        action
    }
}

/// The button becomes held only by the hold timer running out while timing,
/// and a reading of the button up always ends a hold.
pub proof fn lemma_held_only_after_timeout(phase: HoldPhase, event: ButtonEvent)
    ensures
        hold_step(phase, event).0 == HoldPhase::Held && phase != HoldPhase::Held ==> phase
            == HoldPhase::Timing && event == ButtonEvent::HoldTimeout,
        event == ButtonEvent::Reading(false) ==> hold_step(phase, event).0
            == HoldPhase::WaitingForPress,
{
}

/// The phase after a run of events, from `phase`.
pub open spec fn hold_run(phase: HoldPhase, events: Seq<ButtonEvent>) -> HoldPhase
    decreases events.len(),
{
    if events.len() == 0 {
        phase
    } else {
        hold_run(hold_step(phase, events[0]).0, events.drop_first())
    }
}

/// From waiting for a press, a run of readings of the button down with no
/// timeout never makes it held: holding takes the timer running out.
pub proof fn lemma_no_hold_without_timeout(phase: HoldPhase, events: Seq<ButtonEvent>)
    requires
        phase != HoldPhase::Held,
        forall|i: int| 0 <= i < events.len() ==> #[trigger] events[i] != ButtonEvent::HoldTimeout,
    ensures
        hold_run(phase, events) != HoldPhase::Held,
    decreases events.len(),
{
    if events.len() > 0 {
        assert(events[0] != ButtonEvent::HoldTimeout);
        assert forall|i: int| 0 <= i < events.drop_first().len() implies #[trigger] events.drop_first()[i]
            != ButtonEvent::HoldTimeout by {
            assert(events.drop_first()[i] == events[i + 1]);
        }
        lemma_no_hold_without_timeout(hold_step(phase, events[0]).0, events.drop_first());
    }
}

} // verus!
