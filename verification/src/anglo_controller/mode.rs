//! The controller's operating mode, which only moves along the transitions below: after
//! startup it sets up the keyboards, then plays; a long press of the panel button makes it wait
//! for new firmware, and once a transfer starts it receives it; it plays again when the update
//! is done or given up.
use vstd::prelude::*;

verus! {

/// What the controller is doing.
#[derive(Debug, Clone, Copy, PartialEq, Eq, Structural)]
pub enum Mode {
    Startup,
    KeyboardInit,
    WaitingForFirmware,
    ReceivingFirmware,
    Ready,
}

/// Whether the controller moves from `current` to `requested` when asked to.
pub open spec fn accepts(current: Mode, requested: Mode) -> bool {
    match current {
        Mode::Startup => requested == Mode::KeyboardInit,
        Mode::KeyboardInit => requested == Mode::Ready,
        Mode::WaitingForFirmware => requested == Mode::ReceivingFirmware || requested == Mode::Ready,
        Mode::ReceivingFirmware => requested == Mode::Ready,
        Mode::Ready => requested == Mode::WaitingForFirmware,
    }
}

/// The mode after one request, the requested one when the move is allowed, else the current one.
pub open spec fn after_request(current: Mode, requested: Mode) -> Mode {
    if accepts(current, requested) {
        requested
    } else {
        current
    }
}

/// The mode the controller is in after a request: the requested one when the move is allowed,
/// else the current one.
pub fn next_mode(current: Mode, requested: Mode) -> (r: Mode)
    ensures
        r == after_request(current, requested),
{
    let accept_request = match current {
        Mode::Startup => matches!(requested, Mode::KeyboardInit),
        Mode::KeyboardInit => matches!(requested, Mode::Ready),
        Mode::WaitingForFirmware => matches!(requested, Mode::ReceivingFirmware | Mode::Ready),
        Mode::ReceivingFirmware => matches!(requested, Mode::Ready),
        Mode::Ready => matches!(requested, Mode::WaitingForFirmware),
    };
    if accept_request {
        requested
    } else {
        current
    }
}

/// The mode the controller is in after a series of requests, from startup.
pub open spec fn reachable(requests: Seq<Mode>) -> Mode
    decreases requests.len(),
{
    if requests.len() == 0 {
        Mode::Startup
    } else {
        let before = reachable(requests.drop_last());
        if accepts(before, requests.last()) {
            requests.last()
        } else {
            before
        }
    }
}

/// Firmware is only received after waiting for it: whatever the requests, the mode before
/// receiving firmware is waiting for it or receiving it already.
pub proof fn lemma_receiving_follows_waiting(requests: Seq<Mode>)
    requires
        requests.len() > 0,
        reachable(requests) == Mode::ReceivingFirmware,
    ensures
        reachable(requests.drop_last()) == Mode::WaitingForFirmware || reachable(
            requests.drop_last(),
        ) == Mode::ReceivingFirmware,
{
}

/// The controller never returns to startup once it has left it, nor to setting up the
/// keyboards once it has played: one more request keeps it out of both.
pub proof fn lemma_no_return_to_setup(requests: Seq<Mode>, request: Mode)
    ensures
        reachable(requests) != Mode::Startup ==> reachable(requests.push(request)) != Mode::Startup,
        reachable(requests) != Mode::Startup && reachable(requests) != Mode::KeyboardInit
            ==> reachable(requests.push(request)) != Mode::Startup && reachable(
            requests.push(request),
        ) != Mode::KeyboardInit,
{
    assert(requests.push(request).drop_last() =~= requests);
}

/// Each mode is entered only from the modes the controller's life allows, whatever the mode it
/// is asked in: setting up the keyboards only from startup, playing from any mode but startup,
/// waiting for firmware only while playing, receiving firmware only while waiting for it, and
/// startup never again. A request that is refused leaves the mode as it was.
pub proof fn lemma_mode_entries(current: Mode, requested: Mode)
    ensures
        after_request(current, requested) == requested || after_request(current, requested) == current,
        after_request(current, Mode::Startup) == current,
        current != Mode::KeyboardInit ==> (after_request(current, Mode::KeyboardInit) == Mode::KeyboardInit
            <==> current == Mode::Startup),
        current != Mode::Startup ==> after_request(current, Mode::Ready) == Mode::Ready,
        after_request(Mode::Startup, Mode::Ready) == Mode::Startup,
        current != Mode::WaitingForFirmware ==> (after_request(current, Mode::WaitingForFirmware)
            == Mode::WaitingForFirmware <==> current == Mode::Ready),
        current != Mode::ReceivingFirmware ==> (after_request(current, Mode::ReceivingFirmware)
            == Mode::ReceivingFirmware <==> current == Mode::WaitingForFirmware),
{
}

/// The controller always gets to play: from any mode, asking to set up the keyboards and then
/// to play ends in playing.
pub proof fn lemma_always_reaches_ready(current: Mode)
    ensures
        after_request(after_request(current, Mode::KeyboardInit), Mode::Ready) == Mode::Ready,
{
}

/// After any requests, asking to set up the keyboards and then to play ends in playing.
pub proof fn lemma_requests_reach_ready(requests: Seq<Mode>)
    ensures
        reachable(requests.push(Mode::KeyboardInit).push(Mode::Ready)) == Mode::Ready,
{
    let a = requests.push(Mode::KeyboardInit);
    let b = a.push(Mode::Ready);
    assert(b.drop_last() =~= a);
    assert(a.drop_last() =~= requests);
    assert(a.last() == Mode::KeyboardInit);
    assert(b.last() == Mode::Ready);
    assert(reachable(a) == after_request(reachable(requests), Mode::KeyboardInit));
    assert(reachable(b) == after_request(reachable(a), Mode::Ready));
    lemma_always_reaches_ready(reachable(requests));
}

/// The mode the firmware update task asks for after handing a message to its file dump
/// receiver, given whether a transfer is running afterwards: waiting turns into receiving once
/// a transfer runs, and receiving turns back into playing once none does. Messages that come
/// in other modes are not handed over, and nothing is asked.
pub open spec fn firmware_request(mode: Mode, active: bool) -> Option<Mode> {
    match mode {
        Mode::WaitingForFirmware => if active { Some(Mode::ReceivingFirmware) } else { None },
        Mode::ReceivingFirmware => if !active { Some(Mode::Ready) } else { None },
        _ => None,
    }
}

/// Whether the firmware update task hands messages to its receiver in a mode.
pub fn takes_firmware(mode: Mode) -> (r: bool)
    ensures
        r == (mode == Mode::WaitingForFirmware || mode == Mode::ReceivingFirmware),
{
    matches!(mode, Mode::WaitingForFirmware | Mode::ReceivingFirmware)
}

/// The mode the firmware update task asks for after a message.
pub fn firmware_mode_request(mode: Mode, active: bool) -> (r: Option<Mode>)
    ensures
        r == firmware_request(mode, active),
{
    match mode {
        Mode::WaitingForFirmware => if active { Some(Mode::ReceivingFirmware) } else { None },
        Mode::ReceivingFirmware => if !active { Some(Mode::Ready) } else { None },
        _ => None,
    }
}

/// Every mode the firmware update task asks for is one the controller moves to from the mode
/// it asked in.
pub proof fn lemma_firmware_requests_accepted(mode: Mode, active: bool)
    ensures
        firmware_request(mode, active) matches Some(m) ==> accepts(mode, m),
{
}

/// How the control panel's LED signals a mode.
#[derive(Debug, Clone, Copy, PartialEq, Eq)]
pub enum PanelSignal {
    /// This many blinks, then, if `pause`, a second dark.
    Blink { count: u32, pause: bool },
    /// Steadily on.
    Steady,
}

/// The control panel's signal for a mode.
pub open spec fn panel_signal_of(mode: Mode) -> PanelSignal {
    match mode {
        Mode::Startup => PanelSignal::Blink { count: 2, pause: true },
        Mode::KeyboardInit => PanelSignal::Blink { count: 3, pause: true },
        Mode::WaitingForFirmware => PanelSignal::Blink { count: 4, pause: true },
        Mode::ReceivingFirmware => PanelSignal::Blink { count: 1, pause: false },
        Mode::Ready => PanelSignal::Steady,
    }
}

/// The control panel's signal for a mode.
pub fn panel_signal(mode: Mode) -> (r: PanelSignal)
    ensures
        r == panel_signal_of(mode),
{
    match mode {
        Mode::Startup => PanelSignal::Blink { count: 2, pause: true },
        Mode::KeyboardInit => PanelSignal::Blink { count: 3, pause: true },
        Mode::WaitingForFirmware => PanelSignal::Blink { count: 4, pause: true },
        Mode::ReceivingFirmware => PanelSignal::Blink { count: 1, pause: false },
        Mode::Ready => PanelSignal::Steady,
    }
}

} // verus!
