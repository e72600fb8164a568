//! Watching an EA into CEFDK manufacturing mode, and saying so out loud.
//!
//! The serial install needs the recessed ID button held through a power cycle.
//! That is the one step this tool cannot do for the user, so it is narrated:
//! what to do, and what is being seen while waiting. Console lines go in, events
//! come out; nothing here opens a port or sleeps.
//!
//! A bare `shell>` before the boot cookie was accepted is not a shell: it is the
//! stored autoscript echoing its own commands.
use crate::engine::flow::{Event, EventModel, Log};
use crate::num::{dec, dec_string};
use crate::text::{cat2, contains, contains_str, from_chars, to_chars, trim, trimmed};
use vstd::prelude::*;
use vstd::slice::slice_subrange;
use vstd::string::*;

verus! {

/// Where the box is in the manufacturing-mode sequence.
#[derive(Debug, Clone, Copy, PartialEq, Eq, Structural)]
pub enum Stage {
    /// Nothing seen yet. The box is off, or booting normally without us.
    WaitingForPowerCycle,
    /// CEFDK printed its mode line with the button not held.
    ButtonNotHeld,
    /// Manufacturing mode confirmed. CEFDK is looking for a BOOTP server.
    WaitingForCookie,
    /// Our cookie was accepted; CEFDK is dropping to its shell.
    WaitingForShell,
    /// At the CEFDK shell, ready to be driven.
    AtShell,
    /// CEFDK rejected the cookie and took its normal boot path instead.
    CookieRejected,
}

pub const HOLD_TITLE: &'static str = "Hold the ID button and power-cycle the EA";

pub const HOLD_INSTRUCTION: &'static str = "1. Unplug power from the EA.\n2. Press and HOLD the recessed ID button.\n3. Plug power back in, still holding.\n4. Keep holding until this window says manufacturing mode is enabled (~10 s).";

pub const RETRY_TITLE: &'static str = "Button was not registered — try again";

pub const RETRY_INSTRUCTION: &'static str = "The box powered up but did not see the ID button held.\nHold it BEFORE applying power and keep holding for ~10 s after.\nUnplug, hold the button, plug in, keep holding.";

pub const MODE_LINE: &'static str = "Manufacturing Mode:";

pub const ENTERING_LINE: &'static str = "Entering Control4 Manufacturing Mode";

/// What the tool does next, phrased for someone watching the box.
pub open spec fn next_words(s: Stage) -> Option<Seq<char>> {
    match s {
        Stage::WaitingForCookie => Some(
            "answering the box's BOOTP request with the Control4 boot cookie"@,
        ),
        Stage::WaitingForShell => Some("waiting for the CEFDK shell prompt"@),
        Stage::AtShell => Some("at the CEFDK shell — starting the transfer"@),
        Stage::CookieRejected => Some("re-arming — power-cycle with the button held to retry"@),
        Stage::ButtonNotHeld => None,
        Stage::WaitingForPowerCycle => None,
    }
}

pub fn next_action(s: Stage) -> (r: Option<&'static str>)
    ensures
        crate::flasher::board::opt_str(r) == next_words(s),
{
    match s {
        Stage::WaitingForCookie => Some(
            "answering the box's BOOTP request with the Control4 boot cookie",
        ),
        Stage::WaitingForShell => Some("waiting for the CEFDK shell prompt"),
        Stage::AtShell => Some("at the CEFDK shell — starting the transfer"),
        Stage::CookieRejected => Some("re-arming — power-cycle with the button held to retry"),
        Stage::ButtonNotHeld => None,
        Stage::WaitingForPowerCycle => None,
    }
}

/// Consumes console lines and reports progress.
#[derive(Debug)]
pub struct MfgWatch {
    stage: Stage,
    /// Whether a line came since the last change of stage.
    heard: bool,
}

pub ghost struct WatchModel {
    pub stage: Stage,
    pub heard: bool,
}

impl View for MfgWatch {
    type V = WatchModel;

    closed spec fn view(&self) -> WatchModel {
        WatchModel { stage: self.stage, heard: self.heard }
    }
}

/// The stage a line takes the box to, if it is a milestone. The mode line is
/// judged first, so a disabled button never reads as progress; a refused cookie
/// and a prompt count only while one is expected.
pub open spec fn milestone(stage: Stage, l: Seq<char>) -> Option<Stage> {
    if contains(l, MODE_LINE@) {
        Some(
            if contains(l, "Enabled"@) {
                Stage::WaitingForCookie
            } else {
                Stage::ButtonNotHeld
            },
        )
    } else if contains(l, ENTERING_LINE@) {
        Some(Stage::WaitingForShell)
    } else if contains(l, "AC_BOOT"@) && stage is WaitingForCookie {
        Some(Stage::CookieRejected)
    } else if contains(l, "shell>"@) && stage is WaitingForShell {
        Some(Stage::AtShell)
    } else {
        None
    }
}

/// What is said of a milestone before the stage changes.
pub open spec fn milestone_told(to: Stage, l: Seq<char>) -> Seq<EventModel> {
    match to {
        Stage::WaitingForCookie => seq![
            EventModel::Resolved("manufacturing mode enabled — button was held"@),
        ],
        Stage::ButtonNotHeld => seq![
            EventModel::Warn("the box reported: "@ + l),
            EventModel::Await { title: RETRY_TITLE@, instruction: RETRY_INSTRUCTION@ },
        ],
        Stage::WaitingForShell => seq![EventModel::Resolved("CEFDK accepted our boot cookie"@)],
        Stage::CookieRejected => seq![
            EventModel::Warn("CEFDK took its normal boot path (AC_BOOT) — the cookie was refused"@),
        ],
        _ => seq![EventModel::Resolved("CEFDK shell is up — taking over"@)],
    }
}

/// What is said when the stage changes: the next action, if there is one.
pub open spec fn change_told(from: Stage, to: Stage) -> Seq<EventModel> {
    if from == to || next_words(to) is None {
        seq![]
    } else {
        seq![EventModel::Step(next_words(to)->0)]
    }
}

/// The first 120 characters of a line.
pub open spec fn shortened(l: Seq<char>) -> Seq<char> {
    if l.len() > 120 {
        l.take(120)
    } else {
        l
    }
}

/// One line: the state after it, and what it made the watcher say. A blank line
/// is nothing; a line that is no milestone is proof of life.
pub open spec fn fed(m: WatchModel, line: Seq<char>) -> (WatchModel, Seq<EventModel>) {
    let l = trim(line);
    if l.len() == 0 {
        (m, seq![])
    } else {
        match milestone(m.stage, l) {
            Some(to) => (
                WatchModel { stage: to, heard: m.stage == to },
                milestone_told(to, l) + change_told(m.stage, to),
            ),
            None => (
                WatchModel { stage: m.stage, heard: true },
                seq![EventModel::Observed(shortened(l))],
            ),
        }
    }
}

/// The report of a silent port: every 45 seconds, as long as nothing was ever
/// seen.
pub open spec fn silence_told(m: WatchModel, elapsed_s: u64) -> Seq<EventModel> {
    if !(m.stage is WaitingForPowerCycle) || m.heard || elapsed_s == 0 || elapsed_s % 45 != 0 {
        seq![]
    } else {
        seq![
            EventModel::Detail(
                dec(elapsed_s as nat)
                    + "s: still nothing on the console. Check the serial cable and that the adapter is the one this tool opened; the box prints its banner at 115200 within a second or two of power-on."@,
            ),
        ]
    }
}

impl MfgWatch {
    pub fn new() -> (r: MfgWatch)
        ensures
            r@ == (WatchModel { stage: Stage::WaitingForPowerCycle, heard: false }),
    {
        MfgWatch { stage: Stage::WaitingForPowerCycle, heard: false }
    }

    pub fn stage(&self) -> (r: Stage)
        ensures
            r == self@.stage,
    {
        self.stage
    }

    /// The opening instruction, before any waiting.
    pub fn prompt(&self, log: &mut Log)
        ensures
            final(log)@ == old(log)@.push(
                EventModel::Await { title: HOLD_TITLE@, instruction: HOLD_INSTRUCTION@ },
            ).push(
                EventModel::Detail(
                    "watching the console — every line the box prints will appear below"@,
                ),
            ),
    {
        log.put(Event::await_user(HOLD_TITLE, HOLD_INSTRUCTION));
        log.detail(
            String::from_str("watching the console — every line the box prints will appear below"),
        );
    }

    fn to(&mut self, s: Stage, log: &mut Log) -> (r: Option<Stage>)
        ensures
            final(log)@ == old(log)@ + change_told(old(self)@.stage, s),
            old(self)@.stage == s ==> r is None && *final(self) == *old(self),
            old(self)@.stage != s ==> r == Some(s) && final(self)@ == (WatchModel {
                stage: s,
                heard: false,
            }),
    {
        if self.stage == s {
            return None;
        }
        self.stage = s;
        self.heard = false;
        if let Some(words) = next_action(s) {
            log.step(String::from_str(words));
        }
        Some(s)
    }

    /// Feed one console line. Returns the new stage if it changed.
    pub fn feed(&mut self, line: &str, log: &mut Log) -> (r: Option<Stage>)
        ensures
            final(self)@ == fed(old(self)@, line@).0,
            final(log)@ == old(log)@ + fed(old(self)@, line@).1,
            r == (if final(self)@.stage == old(self)@.stage {
                None
            } else {
                Some(final(self)@.stage)
            }),
    {
        let chars = to_chars(line);
        let l: &[char] = trimmed(chars.as_slice());
        if l.len() == 0 {
            return None;
        }
        self.heard = true;
        if contains_str(l, MODE_LINE) {
            if contains_str(l, "Enabled") {
                log.resolved(String::from_str("manufacturing mode enabled — button was held"));
                return self.to(Stage::WaitingForCookie, log);
            }
            log.warn(cat2("the box reported: ", from_chars(l).as_str()));
            log.put(Event::await_user(RETRY_TITLE, RETRY_INSTRUCTION));
            return self.to(Stage::ButtonNotHeld, log);
        }
        if contains_str(l, ENTERING_LINE) {
            log.resolved(String::from_str("CEFDK accepted our boot cookie"));
            return self.to(Stage::WaitingForShell, log);
        }
        if contains_str(l, "AC_BOOT") && self.stage == Stage::WaitingForCookie {
            log.warn(
                String::from_str("CEFDK took its normal boot path (AC_BOOT) — the cookie was refused"),
            );
            return self.to(Stage::CookieRejected, log);
        }
        if contains_str(l, "shell>") && self.stage == Stage::WaitingForShell {
            log.resolved(String::from_str("CEFDK shell is up — taking over"));
            return self.to(Stage::AtShell, log);
        }
        let shown: &[char] = if l.len() > 120 { slice_subrange(l, 0, 120) } else { l };
        assert(shown@ =~= shortened(l@));
        log.put(Event::observed(from_chars(shown)));
        None
    }

    /// Called now and then when nothing has arrived, so a silent port is
    /// reported as silence.
    pub fn tick(&self, elapsed_s: u64, log: &mut Log)
        ensures
            final(log)@ == old(log)@ + silence_told(self@, elapsed_s),
    {
        if self.stage != Stage::WaitingForPowerCycle || self.heard {
            return;
        }
        if elapsed_s > 0 && elapsed_s % 45 == 0 {
            log.detail(
                cat2(
                    dec_string(elapsed_s).as_str(),
                    "s: still nothing on the console. Check the serial cable and that the adapter is the one this tool opened; the box prints its banner at 115200 within a second or two of power-on.",
                ),
            );
        }
    }
}

/// The state after a sequence of lines.
pub open spec fn watched(v: Seq<Seq<char>>) -> WatchModel
    decreases v.len(),
{
    if v.len() == 0 {
        WatchModel { stage: Stage::WaitingForPowerCycle, heard: false }
    } else {
        fed(watched(v.drop_last()), v.last()).0
    }
}

/// The shell is believed only after CEFDK said that it accepted the cookie and
/// a prompt came later; whatever came before, a prompt alone is never taken for
/// a shell.
pub proof fn law_no_shell_before_the_cookie(v: Seq<Seq<char>>)
    ensures
        watched(v).stage is WaitingForShell || watched(v).stage is AtShell ==> exists|i: int|
            0 <= i < v.len() && contains(trim(#[trigger] v[i]), ENTERING_LINE@),
        watched(v).stage is AtShell ==> exists|i: int, j: int|
            0 <= i < j < v.len() && contains(trim(#[trigger] v[i]), ENTERING_LINE@) && contains(
                trim(#[trigger] v[j]),
                "shell>"@,
            ),
    decreases v.len(),
{
    if v.len() > 0 {
        let u = v.drop_last();
        law_no_shell_before_the_cookie(u);
        let was = watched(u).stage;
        let l = trim(v.last());
        let n = v.len() - 1;
        if was is WaitingForShell || was is AtShell {
            let i = choose|i: int| 0 <= i < u.len() && contains(trim(#[trigger] u[i]), ENTERING_LINE@);
            assert(v[i] == u[i]);
            if was is AtShell {
                let (a, b) = choose|a: int, b: int|
                    0 <= a < b < u.len() && contains(trim(#[trigger] u[a]), ENTERING_LINE@) && contains(
                        trim(#[trigger] u[b]),
                        "shell>"@,
                    );
                assert(v[a] == u[a] && v[b] == u[b]);
            }
            if l.len() > 0 && milestone(was, l) == Some(Stage::AtShell) {
                assert(contains(trim(v[n]), "shell>"@));
            }
        }
        if l.len() > 0 && milestone(was, l) == Some(Stage::WaitingForShell) {
            assert(contains(trim(v[n]), ENTERING_LINE@));
        }
    }
}

/// On a box that was not asked for a cookie, `AC_BOOT` is an ordinary boot and
/// changes nothing.
pub proof fn law_an_ordinary_boot_is_no_refusal(m: WatchModel, line: Seq<char>)
    requires
        !(m.stage is WaitingForCookie),
        !(m.stage is CookieRejected),
    ensures
        !(fed(m, line).0.stage is CookieRejected),
{
}

} // verus!
