//! What the run reports: the display string echoing the invoked command,
//! and the notification text with the exit code and the elapsed time
//! rendered to two decimal places.

use vstd::prelude::*;

use crate::text::{dec_digit, dec_str, i32_to_string, int_str, trim_end, trim_end_spec, u64_to_string};

verus! {

/// The outcome of waiting for the child process: its exit code, or none
/// when the platform reports no code (e.g. termination by a signal).
#[derive(Debug, Clone, Copy, PartialEq, Eq, Structural)]
pub struct ExitReport {
    pub code: Option<i32>,
}

/// The exit code placed in the notification: the child's own code, or the
/// sentinel `-1` when the platform supplied none.
pub open spec fn displayed_code_spec(report: ExitReport) -> int {
    match report.code {
        Some(c) => c as int,
        None => -1,
    }
}

/// Runtime counterpart of [`displayed_code_spec`].
pub fn displayed_code(report: &ExitReport) -> (r: i32)
    ensures
        r as int == displayed_code_spec(*report),
{
    match report.code {
        Some(c) => c,
        None => -1,
    }
}

/// The arguments joined with single spaces.
pub open spec fn joined(args: Seq<Seq<char>>) -> Seq<char>
    decreases args.len(),
{
    if args.len() == 0 {
        Seq::empty()
    } else if args.len() == 1 {
        args[0]
    } else {
        joined(args.drop_last()) + seq![' '] + args.last()
    }
}

/// The views of a sequence of strings.
pub open spec fn views_of(args: Seq<String>) -> Seq<Seq<char>> {
    args.map_values(|a: String| a@)
}

/// The display string for a command and its arguments: the command, a
/// space, the space-joined arguments, with trailing white space trimmed
/// (so a command with no arguments shows bare).
pub open spec fn display_spec(command: Seq<char>, args: Seq<Seq<char>>) -> Seq<char> {
    trim_end_spec(command + seq![' '] + joined(args))
}

/// Builds the display string for `command` run with `args`.
pub fn display_string(command: &str, args: &Vec<String>) -> (r: String)
    ensures
        r@ == display_spec(command@, views_of(args@)),
{
    let mut full = command.to_owned();
    proof {
        reveal_strlit(" ");
    }
    full.append(" ");
    let n = args.len();
    let mut i: usize = 0;
    while i < n
        invariant
            i <= n,
            n == args@.len(),
            " "@ == seq![' '],
            full@ == command@ + seq![' '] + joined(views_of(args@.subrange(0, i as int))),
        decreases n - i,
    {
        if i > 0 {
            full.append(" ");
        }
        let arg = &args[i];
        full.append(arg.as_str());
        proof {
            let prev = views_of(args@.subrange(0, i as int));
            let now = views_of(args@.subrange(0, i + 1));
            assert(args@.subrange(0, i + 1).drop_last() =~= args@.subrange(0, i as int));
            assert(now.drop_last() =~= prev);
            assert(now.last() == args@[i as int]@);
            if i == 0 {
                assert(now.len() == 1);
                assert(now[0] == args@[0]@);
                assert(joined(now) == args@[0]@);
                assert(full@ =~= command@ + seq![' '] + joined(now));
            } else {
                assert(joined(now) == joined(prev) + seq![' '] + args@[i as int]@);
                assert(full@ =~= command@ + seq![' '] + joined(now));
            }
        }
        i = i + 1;
    }
    proof {
        assert(args@.subrange(0, n as int) =~= args@);
    }
    trim_end(full.as_str())
}

/// How many hundredths of `unit` the duration `nanos` covers, the
/// fractional part rounded half up: the whole units times one hundred,
/// plus the remainder scaled to hundredths and rounded.
pub open spec fn scaled_hundredths(nanos: nat, unit: nat) -> nat
    recommends
        unit >= 1,
{
    (nanos / unit) * 100 + ((nanos % unit) * 100 + unit / 2) / unit
}

/// Two-digit decimal rendering of `f` (`f < 100`), with a leading zero.
pub open spec fn two_digit_str(f: nat) -> Seq<char> {
    seq![dec_digit(f / 10), dec_digit(f % 10)]
}

/// `nanos` as a count of `unit`s with two decimal places.
pub open spec fn decimal_of(nanos: nat, unit: nat) -> Seq<char>
    recommends
        unit >= 1,
{
    let h = scaled_hundredths(nanos, unit);
    dec_str(h / 100) + seq!['.'] + two_digit_str(h % 100)
}

/// A duration of `nanos` nanoseconds rendered with two decimal places in
/// the unit matching its magnitude: seconds, milliseconds, microseconds or
/// nanoseconds.
pub open spec fn duration_spec(nanos: nat) -> Seq<char> {
    if nanos >= 1_000_000_000 {
        decimal_of(nanos, 1_000_000_000) + "s"@
    } else if nanos >= 1_000_000 {
        decimal_of(nanos, 1_000_000) + "ms"@
    } else if nanos >= 1_000 {
        decimal_of(nanos, 1_000) + "\u{b5}s"@
    } else {
        decimal_of(nanos, 1) + "ns"@
    }
}

fn decimal_unit(nanos: u64, unit: u64, suffix: &str) -> (r: String)
    requires
        unit == 1_000_000_000 || (unit == 1_000_000 && nanos < 1_000_000_000) || (unit == 1_000
            && nanos < 1_000_000) || (unit == 1 && nanos < 1_000),
    ensures
        r@ == decimal_of(nanos as nat, unit as nat) + suffix@,
{
    let whole = nanos / unit;
    let rem = nanos % unit;
    let h = whole * 100 + (rem * 100 + unit / 2) / unit;
    proof {
        reveal_strlit(".");
        assert(h == scaled_hundredths(nanos as nat, unit as nat));
    }
    let mut r = u64_to_string(h / 100);
    r.append(".");
    r.append(digit_pair(h % 100).as_str());
    r.append(suffix);
    proof {
        assert(r@ =~= decimal_of(nanos as nat, unit as nat) + suffix@);
    }
    r
}

fn digit_pair(f: u64) -> (r: String)
    requires
        f < 100,
    ensures
        r@ == two_digit_str(f as nat),
{
    let mut r = u64_to_string(f / 10);
    let tail = u64_to_string(f % 10);
    r.append(tail.as_str());
    proof {
        assert(r@ =~= two_digit_str(f as nat));
    }
    r
}

/// Renders a duration of `nanos` nanoseconds as [`duration_spec`] says.
pub fn format_duration(nanos: u64) -> (r: String)
    ensures
        r@ == duration_spec(nanos as nat),
{
    if nanos >= 1_000_000_000 {
        decimal_unit(nanos, 1_000_000_000, "s")
    } else if nanos >= 1_000_000 {
        decimal_unit(nanos, 1_000_000, "ms")
    } else if nanos >= 1_000 {
        decimal_unit(nanos, 1_000, "\u{b5}s")
    } else {
        decimal_unit(nanos, 1, "ns")
    }
}

/// The notification body: the command text, the exit code (or the `-1`
/// sentinel), and the elapsed time with two decimal places.
pub open spec fn message_spec(command: Seq<char>, report: ExitReport, nanos: nat) -> Seq<char> {
    "Command: "@ + command + "\nFinished with exit code: "@ + int_str(displayed_code_spec(report))
        + "\nExecution time: "@ + duration_spec(nanos)
}

/// Builds the notification body for one finished run.
pub fn message_text(command: &str, report: &ExitReport, nanos: u64) -> (r: String)
    ensures
        r@ == message_spec(command@, *report, nanos as nat),
{
    let mut r = "Command: ".to_owned();
    r.append(command);
    r.append("\nFinished with exit code: ");
    r.append(i32_to_string(displayed_code(report)).as_str());
    r.append("\nExecution time: ");
    r.append(format_duration(nanos).as_str());
    proof {
        assert(r@ =~= message_spec(command@, *report, nanos as nat));
    }
    r
}

} // verus!
