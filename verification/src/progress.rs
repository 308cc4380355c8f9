//! How the progress of an update is shown.
//!
//! The engine reports once per network chunk. On a terminal one line is rewritten in place;
//! elsewhere one line is printed per phase and tenth.
use vstd::prelude::*;

use crate::proto;
use crate::proto::{Phase, Progress};
use crate::text;

verus! {

/// The tenth a percentage falls in, with a bucket of its own for the end.
pub open spec fn decile_of(percent: u8) -> u8 {
    if percent >= 100 {
        10
    } else {
        percent / 10
    }
}

/// A phase and how far it is.
pub open spec fn counter_text(phase: Phase, percent: u8) -> Seq<char> {
    "  "@ + proto::phase_name(phase) + " "@ + text::dec(percent as nat) + "%"@
}

/// What was shown last: the phase and its tenth. On a terminal, that a counter line is open and
/// owes a line feed.
pub type Last = Option<(Phase, u8)>;

/// What to print for one report.
pub open spec fn shown(last: Last, tty: bool, phase: Phase, percent: Option<u8>) -> Seq<char> {
    match percent {
        None => if tty && last is Some {
            "\n"@ + "  "@ + proto::phase_name(phase) + "\n"@
        } else {
            "  "@ + proto::phase_name(phase) + "\n"@
        },
        Some(p) => if tty {
            if p >= 100 {
                "\r"@ + counter_text(phase, p) + "\n"@
            } else {
                "\r"@ + counter_text(phase, p)
            }
        } else if last == Some((phase, decile_of(p))) {
            Seq::empty()
        } else {
            counter_text(phase, p) + "\n"@
        },
    }
}

/// What is remembered of it.
pub open spec fn remembered(tty: bool, phase: Phase, percent: Option<u8>) -> Last {
    match percent {
        None => None,
        Some(p) => if tty {
            if p >= 100 {
                None
            } else {
                Some((phase, 0))
            }
        } else {
            Some((phase, decile_of(p)))
        },
    }
}

/// Remembers what was shown last.
#[derive(Debug)]
pub struct Reporter {
    pub last: Last,
}

fn counter(phase: Phase, percent: u8) -> (r: String)
    ensures
        r@ == counter_text(phase, percent),
{
    let mut out = "  ".to_owned();
    out.append(phase.name());
    out.append(" ");
    out.append(text::decimal(percent as u64).as_str());
    out.append("%");
    out
}

impl Reporter {
    pub fn new() -> (r: Self)
        ensures
            r.last is None,
    {
        Reporter { last: None }
    }

    /// What to print for one report.
    pub fn report(&mut self, tty: bool, phase: Phase, percent: Option<u8>) -> (r: String)
        ensures
            r@ == shown(old(self).last, tty, phase, percent),
            final(self).last == remembered(tty, phase, percent),
    {
        match percent {
            None => {
                let mut out = if tty && self.last.is_some() {
                    "\n".to_owned().concat("  ")
                } else {
                    "  ".to_owned()
                };
                out.append(phase.name());
                out.append("\n");
                self.last = None;
                out
            },
            Some(p) => if tty {
                let mut out = "\r".to_owned();
                out.append(counter(phase, p).as_str());
                if p >= 100 {
                    out.append("\n");
                    self.last = None;
                } else {
                    self.last = Some((phase, 0));
                }
                out
            } else {
                let decile: u8 = if p >= 100 {
                    10
                } else {
                    p / 10
                };
                let repeated = match self.last {
                    Some((ph, d)) => ph == phase && d == decile,
                    None => false,
                };
                self.last = Some((phase, decile));
                if repeated {
                    String::new()
                } else {
                    counter(phase, p).concat("\n")
                }
            },
        }
    }
}

/// On a terminal a counter line is open after a report exactly when the report did not end it,
/// so the next phase knows whether to end it first.
pub proof fn an_open_counter_line_is_remembered(last: Last, phase: Phase, percent: Option<u8>)
    ensures
        remembered(true, phase, percent) is Some <==> shown(last, true, phase, percent).last()
            != '\n',
        percent is None && last is Some ==> shown(last, true, phase, percent)[0] == '\n',
{
    reveal_strlit("\n");
    reveal_strlit("%");
    reveal_strlit("\r");
    reveal_strlit("  ");
}

/// Away from a terminal nothing is printed twice for one phase and tenth, and whatever is
/// printed is a whole line.
pub proof fn one_line_for_each_tenth(last: Last, phase: Phase, percent: Option<u8>)
    ensures
        shown(last, false, phase, percent).len() == 0 <==> (percent matches Some(p) && last == Some(
            (phase, decile_of(p)),
        )),
        shown(last, false, phase, percent).len() > 0 ==> shown(last, false, phase, percent).last()
            == '\n',
{
    reveal_strlit("\n");
}

/// The line that following progress prints.
pub open spec fn watch_text(component: Seq<char>, phase: Phase, percent: Option<u8>) -> Seq<char> {
    component + " "@ + proto::phase_name(phase) + match percent {
        Some(p) => " Some("@ + text::dec(p as nat) + ")"@,
        None => " None"@,
    }
}

/// The line that following progress prints.
pub fn watch_line(progress: &Progress) -> (r: String)
    ensures
        r@ == watch_text(progress.component@, progress.phase, progress.percent),
{
    let mut out = progress.component.as_str().to_owned();
    out.append(" ");
    out.append(progress.phase.name());
    let percent = match progress.percent {
        Some(p) => " Some(".to_owned().concat(text::decimal(p as u64).as_str()).concat(")"),
        None => " None".to_owned(),
    };
    out.append(percent.as_str());
    out
}

/// The tenth of a percentage is the one it lies in, and a percentage of a hundred or more lies in
/// none of the ten but behind them.
pub proof fn a_percentage_lies_in_its_tenth(percent: u8)
    ensures
        percent < 100 ==> 10 * decile_of(percent) <= percent < 10 * decile_of(percent) + 10,
        percent >= 100 <==> decile_of(percent) == 10,
{
}

/// A counter shows the phase and the percentage behind it, with a percent sign at the end.
/// Another percentage changes nothing else.
pub proof fn a_counter_shows_its_percentage(phase: Phase, p: u8, q: u8)
    ensures
        text::differ_behind(
            counter_text(phase, p),
            counter_text(phase, q),
            proto::phase_name(phase) + " "@,
            text::dec(p as nat) + "%"@,
            text::dec(q as nat) + "%"@,
        ),
        text::reads(counter_text(phase, p), 2, proto::phase_name(phase)),
        counter_text(phase, p).last() == '%',
{
    let none = Seq::<char>::empty();
    let name = proto::phase_name(phase);
    let (x, y) = (text::dec(p as nat), text::dec(q as nat));
    reveal_strlit("  ");
    reveal_strlit("%");
    text::a_change_behind_a_label("  "@, name + " "@, x + "%"@, y + "%"@, none);
    assert(counter_text(phase, p) =~= "  "@ + (name + " "@) + (x + "%"@) + none);
    assert(counter_text(phase, q) =~= "  "@ + (name + " "@) + (y + "%"@) + none);
    assert(counter_text(phase, p).subrange(2, 2int + name.len()) =~= name);
}

/// On a terminal every percentage is shown, over the line it replaces, and only the last one of
/// a phase ends the line.
pub proof fn a_terminal_shows_every_percentage(last: Last, phase: Phase, p: u8)
    ensures
        ({
            let t = shown(last, true, phase, Some(p));
            let counter = counter_text(phase, p);
            &&& t[0] == '\r'
            &&& text::reads(t, 1, counter)
            &&& p < 100 ==> t.len() == counter.len() + 1
            &&& p >= 100 ==> t.len() == counter.len() + 2 && t.last() == '\n'
        }),
{
    reveal_strlit("\r");
    reveal_strlit("\n");
    let t = shown(last, true, phase, Some(p));
    let counter = counter_text(phase, p);
    assert(t.subrange(1, 1int + counter.len()) =~= counter);
}

/// Away from a terminal the first percentage of each phase and tenth is shown, on a line of its
/// own, and a second one of the same tenth is not, whatever was shown before.
pub proof fn elsewhere_a_tenth_is_shown_once(
    last: Last,
    phase: Phase,
    p: u8,
    next: Phase,
    q: u8,
)
    requires
        p <= 100,
        q <= 100,
    ensures
        ({
            let then = shown(remembered(false, phase, Some(p)), false, next, Some(q));
            &&& next == phase && p / 10 == q / 10 ==> then.len() == 0
            &&& next != phase || p / 10 != q / 10 ==> then == counter_text(next, q).push('\n')
        }),
        shown(None, false, phase, Some(p)) == counter_text(phase, p).push('\n'),
        remembered(false, phase, None) is None,
        remembered(true, phase, None) is None,
        remembered(true, phase, Some(p)) is Some <==> p < 100,
{
    reveal_strlit("\n");
    assert("\n"@ =~= seq!['\n']);
    assert(counter_text(next, q) + "\n"@ =~= counter_text(next, q).push('\n'));
    assert(counter_text(phase, p) + "\n"@ =~= counter_text(phase, p).push('\n'));
}

/// A phase without a percentage is named on a line of its own, wherever it is shown; on a
/// terminal an open counter is ended first.
pub proof fn a_phase_without_a_percentage_is_named(last: Last, tty: bool, phase: Phase)
    ensures
        ({
            let t = shown(last, tty, phase, None);
            let line = "  "@ + proto::phase_name(phase) + "\n"@;
            &&& tty && last is Some ==> t == seq!['\n'] + line
            &&& !(tty && last is Some) ==> t == line
        }),
{
    reveal_strlit("\n");
    assert("\n"@ =~= seq!['\n']);
    let name = proto::phase_name(phase);
    assert("\n"@ + "  "@ + name + "\n"@ =~= seq!['\n'] + ("  "@ + name + "\n"@));
}

/// A line of followed progress names the component, then the phase, then how far it is, and
/// another component or percentage changes nothing else.
pub proof fn a_followed_line_shows_each_part(
    a: Seq<char>,
    b: Seq<char>,
    phase: Phase,
    percent: Option<u8>,
    p: u8,
    q: u8,
)
    ensures
        text::differ_behind(
            watch_text(a, phase, percent),
            watch_text(b, phase, percent),
            Seq::empty(),
            a + " "@ + proto::phase_name(phase),
            b + " "@ + proto::phase_name(phase),
        ),
        text::differ_behind(
            watch_text(a, phase, Some(p)),
            watch_text(a, phase, Some(q)),
            " Some("@,
            text::dec(p as nat),
            text::dec(q as nat),
        ),
        watch_text(a, phase, None) == a + " "@ + proto::phase_name(phase) + " None"@,
{
    let none = Seq::<char>::empty();
    let name = proto::phase_name(phase);
    let end = match percent {
        Some(p) => " Some("@ + text::dec(p as nat) + ")"@,
        None => " None"@,
    };
    text::a_change_behind_a_label(none, none, a + " "@ + name, b + " "@ + name, end);
    assert(watch_text(a, phase, percent) =~= none + none + (a + " "@ + name) + end);
    assert(watch_text(b, phase, percent) =~= none + none + (b + " "@ + name) + end);
    let (x, y) = (text::dec(p as nat), text::dec(q as nat));
    text::a_change_behind_a_label(a + " "@ + name, " Some("@, x, y, ")"@);
    assert(watch_text(a, phase, Some(p)) =~= a + " "@ + name + " Some("@ + x + ")"@);
    assert(watch_text(a, phase, Some(q)) =~= a + " "@ + name + " Some("@ + y + ")"@);
}

} // verus!
