//! Prompt specifications: parsing `PS1`-style strings into pieces and
//! rendering the pieces against a snapshot of shell state and clock.
//!
//! Rendering takes every outside fact (user, hostname, directory, time) as a
//! plain value in a context, so the same spec and context always render the
//! same text.

use std::fmt::Write;
use vstd::prelude::*;

use crate::error::{Error, ErrorKind};
use crate::strings::{spec_decimal, u64_to_string};

verus! {

/// A fixed time format of `\t`, `\T`, `\@` and `\A`.
#[derive(Clone, Copy, PartialEq, Eq, Structural, Debug)]
pub enum PromptTimeFormat {
    /// `\@`: `01:34 PM`.
    TwelveHourAM,
    /// `\T`: `01:34:56`.
    TwelveHourHHMMSS,
    /// `\A`: `13:34`.
    TwentyFourHourHHMM,
    /// `\t`: `13:34:56`.
    TwentyFourHourHHMMSS,
}

/// A date format of `\d` and `\D{...}`.
#[derive(Debug)]
pub enum PromptDateFormat {
    /// `\d`: `Wed Dec 25`.
    WeekdayMonthDate,
    /// `\D{fmt}`: a strftime-style format handed to the date library.
    Custom(String),
}

/// One piece of a parsed prompt specification.
#[derive(Debug)]
pub enum PromptPiece {
    Literal(String),
    /// An escape with no special meaning, kept as its two characters.
    EscapedSequence(String),
    /// `\nnn`: a character by its octal code.
    AsciiCharacter(u32),
    Backslash,
    BellCharacter,
    CarriageReturn,
    CurrentCommandNumber,
    CurrentHistoryNumber,
    CurrentUser,
    CurrentWorkingDirectory { tilde_replaced: bool, basename: bool },
    Date(PromptDateFormat),
    DollarOrPound,
    EndNonPrintingSequence,
    EscapeCharacter,
    Hostname { only_up_to_first_dot: bool },
    Newline,
    NumberOfManagedJobs,
    ShellBaseName,
    ShellRelease,
    ShellVersion,
    StartNonPrintingSequence,
    TerminalDeviceBaseName,
    Time(PromptTimeFormat),
}

/// The ghost mirror of a parsed piece, over character sequences.
pub ghost enum PromptPieceModel {
    Literal(Seq<char>),
    EscapedSequence(Seq<char>),
    AsciiCharacter(u32),
    Backslash,
    BellCharacter,
    CarriageReturn,
    CurrentCommandNumber,
    CurrentHistoryNumber,
    CurrentUser,
    CurrentWorkingDirectory { tilde_replaced: bool, basename: bool },
    DateWeekdayMonthDate,
    DateCustom(Seq<char>),
    DollarOrPound,
    EndNonPrintingSequence,
    EscapeCharacter,
    Hostname { only_up_to_first_dot: bool },
    Newline,
    NumberOfManagedJobs,
    ShellBaseName,
    ShellRelease,
    ShellVersion,
    StartNonPrintingSequence,
    TerminalDeviceBaseName,
    Time(PromptTimeFormat),
}

/// What a parsed piece stands for.
pub open spec fn piece_model(p: PromptPiece) -> PromptPieceModel {
    match p {
        PromptPiece::Literal(s) => PromptPieceModel::Literal(s@),
        PromptPiece::EscapedSequence(s) => PromptPieceModel::EscapedSequence(s@),
        PromptPiece::AsciiCharacter(u) => PromptPieceModel::AsciiCharacter(u),
        PromptPiece::Backslash => PromptPieceModel::Backslash,
        PromptPiece::BellCharacter => PromptPieceModel::BellCharacter,
        PromptPiece::CarriageReturn => PromptPieceModel::CarriageReturn,
        PromptPiece::CurrentCommandNumber => PromptPieceModel::CurrentCommandNumber,
        PromptPiece::CurrentHistoryNumber => PromptPieceModel::CurrentHistoryNumber,
        PromptPiece::CurrentUser => PromptPieceModel::CurrentUser,
        PromptPiece::CurrentWorkingDirectory { tilde_replaced, basename } => PromptPieceModel::CurrentWorkingDirectory {
            tilde_replaced,
            basename,
        },
        PromptPiece::Date(PromptDateFormat::WeekdayMonthDate) => PromptPieceModel::DateWeekdayMonthDate,
        PromptPiece::Date(PromptDateFormat::Custom(f)) => PromptPieceModel::DateCustom(f@),
        PromptPiece::DollarOrPound => PromptPieceModel::DollarOrPound,
        PromptPiece::EndNonPrintingSequence => PromptPieceModel::EndNonPrintingSequence,
        PromptPiece::EscapeCharacter => PromptPieceModel::EscapeCharacter,
        PromptPiece::Hostname { only_up_to_first_dot } => PromptPieceModel::Hostname {
            only_up_to_first_dot,
        },
        PromptPiece::Newline => PromptPieceModel::Newline,
        PromptPiece::NumberOfManagedJobs => PromptPieceModel::NumberOfManagedJobs,
        PromptPiece::ShellBaseName => PromptPieceModel::ShellBaseName,
        PromptPiece::ShellRelease => PromptPieceModel::ShellRelease,
        PromptPiece::ShellVersion => PromptPieceModel::ShellVersion,
        PromptPiece::StartNonPrintingSequence => PromptPieceModel::StartNonPrintingSequence,
        PromptPiece::TerminalDeviceBaseName => PromptPieceModel::TerminalDeviceBaseName,
        PromptPiece::Time(f) => PromptPieceModel::Time(f),
    }
}

/// Whether `c` is an octal digit.
pub open spec fn spec_is_octal(c: char) -> bool {
    '0' <= c <= '7'
}

/// The value of an octal digit.
pub open spec fn spec_octal_val(c: char) -> u32 {
    if spec_is_octal(c) {
        ((c as int) - ('0' as int)) as u32
    } else {
        0
    }
}

/// The index of the first `}` at or after `i`, if any.
pub open spec fn spec_find_brace(s: Seq<char>, i: int) -> Option<int>
    decreases s.len() - i,
{
    if i < 0 || i >= s.len() {
        None
    } else if s[i] == '}' {
        Some(i)
    } else {
        spec_find_brace(s, i + 1)
    }
}

/// The piece an escape at position `i` (the character after the backslash)
/// denotes, together with the position after it.
pub open spec fn spec_escape_at(s: Seq<char>, i: int) -> (PromptPieceModel, int) {
    let c = s[i];
    if c == 'a' {
        (PromptPieceModel::BellCharacter, i + 1)
    } else if c == 'd' {
        (PromptPieceModel::DateWeekdayMonthDate, i + 1)
    } else if c == 'D' {
        if i + 1 < s.len() && s[i + 1] == '{' {
            match spec_find_brace(s, i + 2) {
                Some(k) => (PromptPieceModel::DateCustom(s.subrange(i + 2, k)), k + 1),
                None => (PromptPieceModel::EscapedSequence(seq!['\\', 'D']), i + 1),
            }
        } else {
            (PromptPieceModel::EscapedSequence(seq!['\\', 'D']), i + 1)
        }
    } else if c == 'e' {
        (PromptPieceModel::EscapeCharacter, i + 1)
    } else if c == 'h' {
        (PromptPieceModel::Hostname { only_up_to_first_dot: true }, i + 1)
    } else if c == 'H' {
        (PromptPieceModel::Hostname { only_up_to_first_dot: false }, i + 1)
    } else if c == 'j' {
        (PromptPieceModel::NumberOfManagedJobs, i + 1)
    } else if c == 'l' {
        (PromptPieceModel::TerminalDeviceBaseName, i + 1)
    } else if c == 'n' {
        (PromptPieceModel::Newline, i + 1)
    } else if c == 'r' {
        (PromptPieceModel::CarriageReturn, i + 1)
    } else if c == 's' {
        (PromptPieceModel::ShellBaseName, i + 1)
    } else if c == 't' {
        (PromptPieceModel::Time(PromptTimeFormat::TwentyFourHourHHMMSS), i + 1)
    } else if c == 'T' {
        (PromptPieceModel::Time(PromptTimeFormat::TwelveHourHHMMSS), i + 1)
    } else if c == '@' {
        (PromptPieceModel::Time(PromptTimeFormat::TwelveHourAM), i + 1)
    } else if c == 'A' {
        (PromptPieceModel::Time(PromptTimeFormat::TwentyFourHourHHMM), i + 1)
    } else if c == 'u' {
        (PromptPieceModel::CurrentUser, i + 1)
    } else if c == 'v' {
        (PromptPieceModel::ShellVersion, i + 1)
    } else if c == 'V' {
        (PromptPieceModel::ShellRelease, i + 1)
    } else if c == 'w' {
        (
            PromptPieceModel::CurrentWorkingDirectory { tilde_replaced: true, basename: false },
            i + 1,
        )
    } else if c == 'W' {
        (
            PromptPieceModel::CurrentWorkingDirectory { tilde_replaced: true, basename: true },
            i + 1,
        )
    } else if c == '!' {
        (PromptPieceModel::CurrentHistoryNumber, i + 1)
    } else if c == '#' {
        (PromptPieceModel::CurrentCommandNumber, i + 1)
    } else if c == '$' {
        (PromptPieceModel::DollarOrPound, i + 1)
    } else if c == '\\' {
        (PromptPieceModel::Backslash, i + 1)
    } else if c == '[' {
        (PromptPieceModel::StartNonPrintingSequence, i + 1)
    } else if c == ']' {
        (PromptPieceModel::EndNonPrintingSequence, i + 1)
    } else if spec_is_octal(c) {
        if i + 1 < s.len() && spec_is_octal(s[i + 1]) {
            if i + 2 < s.len() && spec_is_octal(s[i + 2]) {
                (
                    PromptPieceModel::AsciiCharacter(
                        (spec_octal_val(c) * 64 + spec_octal_val(s[i + 1]) * 8 + spec_octal_val(
                            s[i + 2],
                        )) as u32,
                    ),
                    i + 3,
                )
            } else {
                (
                    PromptPieceModel::AsciiCharacter(
                        (spec_octal_val(c) * 8 + spec_octal_val(s[i + 1])) as u32,
                    ),
                    i + 2,
                )
            }
        } else {
            (PromptPieceModel::AsciiCharacter(spec_octal_val(c)), i + 1)
        }
    } else {
        (PromptPieceModel::EscapedSequence(seq!['\\', c]), i + 1)
    }
}

/// The pieces a prompt specification parses into, from position `i` on.
/// Plain characters are literals; a backslash starts an escape; a trailing
/// backslash stays a literal backslash.
pub open spec fn spec_parse_from(s: Seq<char>, i: int) -> Seq<PromptPieceModel>
    decreases s.len() - i,
{
    if i < 0 || i >= s.len() {
        Seq::<PromptPieceModel>::empty()
    } else if s[i] != '\\' {
        seq![PromptPieceModel::Literal(seq![s[i]])] + spec_parse_from(s, i + 1)
    } else if i + 1 >= s.len() {
        seq![PromptPieceModel::Literal(seq!['\\'])]
    } else {
        let (piece, k) = spec_escape_at(s, i + 1);
        if i < k <= s.len() {
            seq![piece] + spec_parse_from(s, k)
        } else {
            Seq::<PromptPieceModel>::empty()
        }
    }
}

/// The pieces a whole prompt specification parses into.
pub open spec fn spec_parse_prompt(s: Seq<char>) -> Seq<PromptPieceModel> {
    spec_parse_from(s, 0)
}

fn find_brace(s: &str, start: usize) -> (r: Option<usize>)
    requires
        start <= s@.len(),
    ensures
        match r {
            Some(k) => spec_find_brace(s@, start as int) == Some(k as int) && start <= k
                < s@.len(),
            None => spec_find_brace(s@, start as int) is None,
        },
{
    let n = s.unicode_len();
    let mut i = start;
    while i < n
        invariant
            start <= i <= n,
            n == s@.len(),
            spec_find_brace(s@, start as int) == spec_find_brace(s@, i as int),
        decreases n - i,
    {
        if s.get_char(i) == '}' {
            return Some(i);
        }
        i = i + 1;
    }
    None
}

fn octal_val(c: char) -> (r: u32)
    ensures
        r == spec_octal_val(c),
{
    let u = c as u32;
    if u >= 48 && u <= 55 {
        proof {
            vstd::utf8::char_u32_cast(c, c as u32);
        }
        u - 48
    } else {
        proof {
            vstd::utf8::char_u32_cast(c, c as u32);
        }
        0
    }
}

fn is_octal(c: char) -> (r: bool)
    ensures
        r == spec_is_octal(c),
{
    let u = c as u32;
    proof {
        vstd::utf8::char_u32_cast(c, c as u32);
    }
    u >= 48 && u <= 55
}

/// Parses a prompt specification into its pieces.
pub fn parse_prompt(spec: &str) -> (r: Vec<PromptPiece>)
    ensures
        r@.map_values(|p: PromptPiece| piece_model(p)) =~= spec_parse_prompt(spec@),
{
    let n = spec.unicode_len();
    let mut out: Vec<PromptPiece> = Vec::new();
    let mut i: usize = 0;
    while i < n
        invariant
            i <= n,
            n == spec@.len(),
            spec_parse_prompt(spec@) =~= out@.map_values(|p: PromptPiece| piece_model(p))
                + spec_parse_from(spec@, i as int),
        decreases n - i,
    {
        let ghost pre = out@.map_values(|p: PromptPiece| piece_model(p));
        let c = spec.get_char(i);
        if c != '\\' {
            out.push(PromptPiece::Literal(crate::strings::char_to_string(c)));
            i = i + 1;
        } else if i + 1 >= n {
            out.push(PromptPiece::Literal(String::from_str("\\")));
            proof {
                reveal_strlit("\\");
                assert(("\\"@) =~= seq!['\\']);
            }
            i = i + 1;
        } else {
            let e = spec.get_char(i + 1);
            let (piece, next): (PromptPiece, usize) = if e == 'a' {
                (PromptPiece::BellCharacter, i + 2)
            } else if e == 'd' {
                (PromptPiece::Date(PromptDateFormat::WeekdayMonthDate), i + 2)
            } else if e == 'D' {
                if i + 2 < n && spec.get_char(i + 2) == '{' {
                    match find_brace(spec, i + 3) {
                        Some(k) => {
                            let f = String::from_str(spec.substring_char(i + 3, k));
                            proof {
                                assert(f@ =~= spec@.subrange(i + 3, k as int));
                            }
                            (PromptPiece::Date(PromptDateFormat::Custom(f)), k + 1)
                        },
                        None => {
                            let mut t = String::from_str("\\");
                            t.append("D");
                            proof {
                                reveal_strlit("\\");
                                reveal_strlit("D");
                                assert(t@ =~= seq!['\\', 'D']);
                            }
                            (PromptPiece::EscapedSequence(t), i + 2)
                        },
                    }
                } else {
                    let mut t = String::from_str("\\");
                    t.append("D");
                    proof {
                        reveal_strlit("\\");
                        reveal_strlit("D");
                        assert(t@ =~= seq!['\\', 'D']);
                    }
                    (PromptPiece::EscapedSequence(t), i + 2)
                }
            } else if e == 'e' {
                (PromptPiece::EscapeCharacter, i + 2)
            } else if e == 'h' {
                (PromptPiece::Hostname { only_up_to_first_dot: true }, i + 2)
            } else if e == 'H' {
                (PromptPiece::Hostname { only_up_to_first_dot: false }, i + 2)
            } else if e == 'j' {
                (PromptPiece::NumberOfManagedJobs, i + 2)
            } else if e == 'l' {
                (PromptPiece::TerminalDeviceBaseName, i + 2)
            } else if e == 'n' {
                (PromptPiece::Newline, i + 2)
            } else if e == 'r' {
                (PromptPiece::CarriageReturn, i + 2)
            } else if e == 's' {
                (PromptPiece::ShellBaseName, i + 2)
            } else if e == 't' {
                (PromptPiece::Time(PromptTimeFormat::TwentyFourHourHHMMSS), i + 2)
            } else if e == 'T' {
                (PromptPiece::Time(PromptTimeFormat::TwelveHourHHMMSS), i + 2)
            } else if e == '@' {
                (PromptPiece::Time(PromptTimeFormat::TwelveHourAM), i + 2)
            } else if e == 'A' {
                (PromptPiece::Time(PromptTimeFormat::TwentyFourHourHHMM), i + 2)
            } else if e == 'u' {
                (PromptPiece::CurrentUser, i + 2)
            } else if e == 'v' {
                (PromptPiece::ShellVersion, i + 2)
            } else if e == 'V' {
                (PromptPiece::ShellRelease, i + 2)
            } else if e == 'w' {
                (
                    PromptPiece::CurrentWorkingDirectory {
                        tilde_replaced: true,
                        basename: false,
                    },
                    i + 2,
                )
            } else if e == 'W' {
                (
                    PromptPiece::CurrentWorkingDirectory { tilde_replaced: true, basename: true },
                    i + 2,
                )
            } else if e == '!' {
                (PromptPiece::CurrentHistoryNumber, i + 2)
            } else if e == '#' {
                (PromptPiece::CurrentCommandNumber, i + 2)
            } else if e == '$' {
                (PromptPiece::DollarOrPound, i + 2)
            } else if e == '\\' {
                (PromptPiece::Backslash, i + 2)
            } else if e == '[' {
                (PromptPiece::StartNonPrintingSequence, i + 2)
            } else if e == ']' {
                (PromptPiece::EndNonPrintingSequence, i + 2)
            } else if is_octal(e) {
                if i + 2 < n && is_octal(spec.get_char(i + 2)) {
                    if i + 3 < n && is_octal(spec.get_char(i + 3)) {
                        (
                            PromptPiece::AsciiCharacter(
                                octal_val(e) * 64 + octal_val(spec.get_char(i + 2)) * 8
                                    + octal_val(spec.get_char(i + 3)),
                            ),
                            i + 4,
                        )
                    } else {
                        (
                            PromptPiece::AsciiCharacter(
                                octal_val(e) * 8 + octal_val(spec.get_char(i + 2)),
                            ),
                            i + 3,
                        )
                    }
                } else {
                    (PromptPiece::AsciiCharacter(octal_val(e)), i + 2)
                }
            } else {
                let mut t = String::from_str("\\");
                t.append(crate::strings::char_to_string(e).as_str());
                proof {
                    reveal_strlit("\\");
                    assert(t@ =~= seq!['\\', e]);
                }
                (PromptPiece::EscapedSequence(t), i + 2)
            };
            proof {
                let (pm, k) = spec_escape_at(spec@, i + 1);
                assert(piece_model(piece) == pm);
                assert(next as int == k);
                assert(next <= n);
            }
            out.push(piece);
            i = next;
        }
        proof {
            assert(out@.map_values(|p: PromptPiece| piece_model(p)) =~= pre + seq![piece_model(
                out@.last(),
            )]);
        }
    }
    out
}

/// A calendar date and wall-clock time, as plain fields.  The host reads the
/// clock and hands a value of this in; everything after that is a pure
/// function of the fields.
#[derive(Clone, Copy, PartialEq, Eq, Structural, Debug)]
pub struct LocalDateTime {
    pub year: u32,
    pub month: u32,
    pub day: u32,
    pub hour: u32,
    pub minute: u32,
    pub second: u32,
    pub nanosecond: u32,
}

impl LocalDateTime {
    /// Fields in calendar range.
    pub open spec fn wf(self) -> bool {
        &&& 1 <= self.year <= 9999
        &&& 1 <= self.month <= 12
        &&& 1 <= self.day <= 31
        &&& self.hour < 24
        &&& self.minute < 60
        &&& self.second < 60
        &&& self.nanosecond < 1000000000
    }
}

/// Two digits, zero-padded.
pub open spec fn spec_pad2(n: u32) -> Seq<char> {
    if n < 10 {
        "0"@ + spec_decimal(n as nat)
    } else {
        spec_decimal(n as nat)
    }
}

/// Renders a number as at least two digits.
pub fn pad2(n: u32) -> (r: String)
    ensures
        r@ == spec_pad2(n),
{
    if n < 10 {
        String::from_str("0").concat(u64_to_string(n as u64).as_str())
    } else {
        u64_to_string(n as u64)
    }
}

/// The hour on a 12-hour clock.
pub open spec fn spec_hour12(h: u32) -> u32 {
    if h % 12 == 0 {
        12
    } else {
        h % 12
    }
}

/// The text a fixed time format renders as.
pub open spec fn spec_time_text(dt: LocalDateTime, format: PromptTimeFormat) -> Seq<char> {
    match format {
        PromptTimeFormat::TwelveHourAM => spec_pad2(spec_hour12(dt.hour)) + ":"@ + spec_pad2(
            dt.minute,
        ) + " "@ + (if dt.hour < 12 {
            "AM"@
        } else {
            "PM"@
        }),
        PromptTimeFormat::TwelveHourHHMMSS => spec_pad2(spec_hour12(dt.hour)) + ":"@ + spec_pad2(
            dt.minute,
        ) + ":"@ + spec_pad2(dt.second),
        PromptTimeFormat::TwentyFourHourHHMM => spec_pad2(dt.hour) + ":"@ + spec_pad2(dt.minute),
        PromptTimeFormat::TwentyFourHourHHMMSS => spec_pad2(dt.hour) + ":"@ + spec_pad2(dt.minute)
            + ":"@ + spec_pad2(dt.second),
    }
}

/// Renders the time of day in one of the fixed prompt formats.
pub fn format_time(dt: &LocalDateTime, format: &PromptTimeFormat) -> (r: String)
    requires
        dt.wf(),
    ensures
        r@ == spec_time_text(*dt, *format),
{
    let h12: u32 = if dt.hour % 12 == 0 {
        12
    } else {
        dt.hour % 12
    };
    match format {
        PromptTimeFormat::TwelveHourAM => {
            let suffix = if dt.hour < 12 {
                "AM"
            } else {
                "PM"
            };
            pad2(h12).concat(":").concat(pad2(dt.minute).as_str()).concat(" ").concat(suffix)
        },
        PromptTimeFormat::TwelveHourHHMMSS => pad2(h12).concat(":").concat(
            pad2(dt.minute).as_str(),
        ).concat(":").concat(pad2(dt.second).as_str()),
        PromptTimeFormat::TwentyFourHourHHMM => pad2(dt.hour).concat(":").concat(
            pad2(dt.minute).as_str(),
        ),
        PromptTimeFormat::TwentyFourHourHHMMSS => pad2(dt.hour).concat(":").concat(
            pad2(dt.minute).as_str(),
        ).concat(":").concat(pad2(dt.second).as_str()),
    }
}

/// The month's offset in the day-of-week computation.
pub open spec fn spec_month_key(m: u32) -> u32 {
    if m == 1 {
        0
    } else if m == 2 {
        3
    } else if m == 3 {
        2
    } else if m == 4 {
        5
    } else if m == 5 {
        0
    } else if m == 6 {
        3
    } else if m == 7 {
        5
    } else if m == 8 {
        1
    } else if m == 9 {
        4
    } else if m == 10 {
        6
    } else if m == 11 {
        2
    } else {
        4
    }
}

/// The day of the week of a Gregorian date, 0 for Sunday, by the classic
/// month-key formula: years before March count as the previous year.
pub open spec fn spec_day_of_week(year: u32, month: u32, day: u32) -> int {
    let y: int = if month < 3 {
        year - 1
    } else {
        year as int
    };
    (y + y / 4 - y / 100 + y / 400 + spec_month_key(month) + day) % 7
}

fn month_key(m: u32) -> (r: u32)
    ensures
        r == spec_month_key(m),
{
    if m == 1 {
        0
    } else if m == 2 {
        3
    } else if m == 3 {
        2
    } else if m == 4 {
        5
    } else if m == 5 {
        0
    } else if m == 6 {
        3
    } else if m == 7 {
        5
    } else if m == 8 {
        1
    } else if m == 9 {
        4
    } else if m == 10 {
        6
    } else if m == 11 {
        2
    } else {
        4
    }
}

/// Computes the day of the week, 0 for Sunday.
pub fn day_of_week(year: u32, month: u32, day: u32) -> (r: u32)
    requires
        1 <= year <= 9999,
        1 <= month <= 12,
        1 <= day <= 31,
    ensures
        r == spec_day_of_week(year, month, day),
{
    let y: u32 = if month < 3 {
        year - 1
    } else {
        year
    };
    (y + y / 4 - y / 100 + y / 400 + month_key(month) + day) % 7
}

/// The three-letter weekday name for a day number (0 = Sunday).
pub open spec fn spec_weekday_name(d: int) -> Seq<char> {
    if d == 0 {
        "Sun"@
    } else if d == 1 {
        "Mon"@
    } else if d == 2 {
        "Tue"@
    } else if d == 3 {
        "Wed"@
    } else if d == 4 {
        "Thu"@
    } else if d == 5 {
        "Fri"@
    } else {
        "Sat"@
    }
}

/// The three-letter month name.
pub open spec fn spec_month_abbrev(m: u32) -> Seq<char> {
    if m == 1 {
        "Jan"@
    } else if m == 2 {
        "Feb"@
    } else if m == 3 {
        "Mar"@
    } else if m == 4 {
        "Apr"@
    } else if m == 5 {
        "May"@
    } else if m == 6 {
        "Jun"@
    } else if m == 7 {
        "Jul"@
    } else if m == 8 {
        "Aug"@
    } else if m == 9 {
        "Sep"@
    } else if m == 10 {
        "Oct"@
    } else if m == 11 {
        "Nov"@
    } else {
        "Dec"@
    }
}

fn weekday_name(d: u32) -> (r: &'static str)
    ensures
        r@ == spec_weekday_name(d as int),
{
    if d == 0 {
        "Sun"
    } else if d == 1 {
        "Mon"
    } else if d == 2 {
        "Tue"
    } else if d == 3 {
        "Wed"
    } else if d == 4 {
        "Thu"
    } else if d == 5 {
        "Fri"
    } else {
        "Sat"
    }
}

fn month_abbrev(m: u32) -> (r: &'static str)
    ensures
        r@ == spec_month_abbrev(m),
{
    if m == 1 {
        "Jan"
    } else if m == 2 {
        "Feb"
    } else if m == 3 {
        "Mar"
    } else if m == 4 {
        "Apr"
    } else if m == 5 {
        "May"
    } else if m == 6 {
        "Jun"
    } else if m == 7 {
        "Jul"
    } else if m == 8 {
        "Aug"
    } else if m == 9 {
        "Sep"
    } else if m == 10 {
        "Oct"
    } else if m == 11 {
        "Nov"
    } else {
        "Dec"
    }
}

/// The `Wed Dec 25` rendering of a date.
pub open spec fn spec_date_text(dt: LocalDateTime) -> Seq<char> {
    spec_weekday_name(spec_day_of_week(dt.year, dt.month, dt.day)) + " "@ + spec_month_abbrev(
        dt.month,
    ) + " "@ + spec_pad2(dt.day)
}

/// What the date library's strftime-style formatting returns for these
/// date-time fields and this format string, or nothing for a format it
/// rejects.
pub uninterp spec fn strftime_of(
    year: int,
    month: int,
    day: int,
    hour: int,
    minute: int,
    second: int,
    nanosecond: int,
    format: Seq<char>,
) -> Option<Seq<char>>;

/// Relies on chrono's `NaiveDate`/`NaiveTime` constructors and its strftime
/// formatter: the result depends on the date-time fields and the format
/// string alone; an invalid date or format yields nothing.
#[verifier::external_body]
fn chrono_format(dt: &LocalDateTime, format: &str) -> (r: Option<String>)
    requires
        dt.wf(),
    ensures
        r.deep_view() == strftime_of(
            dt.year as int,
            dt.month as int,
            dt.day as int,
            dt.hour as int,
            dt.minute as int,
            dt.second as int,
            dt.nanosecond as int,
            format@,
        ),
{
    let date = chrono::NaiveDate::from_ymd_opt(dt.year as i32, dt.month, dt.day)?;
    let time = chrono::NaiveTime::from_hms_nano_opt(dt.hour, dt.minute, dt.second, dt.nanosecond)?;
    let moment = chrono::NaiveDateTime::new(date, time);
    let items = chrono::format::StrftimeItems::new(format);
    let mut out = String::new();
    match write!(out, "{}", moment.format_with_items(items)) {
        Ok(_) => Some(out),
        Err(_) => None,
    }
}

/// Renders a date: the fixed weekday-month-day form is computed here, a
/// custom strftime form is the date library's and fails on formats it
/// rejects.
pub fn format_date(dt: &LocalDateTime, format: &PromptDateFormat) -> (r: Result<String, Error>)
    requires
        dt.wf(),
    ensures
        r matches Err(e) ==> e.kind is Parse,
        match format {
            PromptDateFormat::WeekdayMonthDate => r matches Ok(s) && s@ == spec_date_text(*dt),
            PromptDateFormat::Custom(f) => match strftime_of(
                dt.year as int,
                dt.month as int,
                dt.day as int,
                dt.hour as int,
                dt.minute as int,
                dt.second as int,
                dt.nanosecond as int,
                f@,
            ) {
                Some(t) => r matches Ok(s) && s@ == t,
                None => r matches Err(e) && e.kind is Parse,
            },
        },
{
    match format {
        PromptDateFormat::WeekdayMonthDate => {
            let dow = day_of_week(dt.year, dt.month, dt.day);
            Ok(
                String::from_str(weekday_name(dow)).concat(" ").concat(
                    month_abbrev(dt.month),
                ).concat(" ").concat(pad2(dt.day).as_str()),
            )
        },
        PromptDateFormat::Custom(f) => {
            match chrono_format(dt, f.as_str()) {
                Some(s) => Ok(s),
                None => Err(Error::new(ErrorKind::Parse(String::from_str(
                    "invalid date format",
                )))),
            }
        },
    }
}

/// The snapshot a prompt renders against: every outside fact as a plain
/// value.
#[derive(Debug)]
pub struct PromptContext {
    pub user: String,
    pub hostname: String,
    pub working_dir: String,
    pub home: String,
    pub is_root: bool,
    pub jobs_count: u64,
    pub shell_name: Option<String>,
    pub now: LocalDateTime,
    /// When set, pieces that a second expansion pass must see verbatim are
    /// prefixed with a backslash, as that pass expects.
    pub expand_prompt_strings: bool,
}

impl PromptContext {
    pub open spec fn wf(self) -> bool {
        self.now.wf()
    }
}

/// The index where the basename of a path starts, scanning back from `i`.
pub open spec fn spec_basename_start(s: Seq<char>, i: int) -> int
    decreases i,
{
    if i <= 0 {
        0
    } else if s[i - 1] == '/' {
        i
    } else {
        spec_basename_start(s, i - 1)
    }
}

/// The last path component.
pub open spec fn spec_basename(s: Seq<char>) -> Seq<char> {
    s.subrange(spec_basename_start(s, s.len() as int), s.len() as int)
}

/// Takes the last `/`-separated component.
pub fn basename(s: &str) -> (r: String)
    ensures
        r@ == spec_basename(s@),
{
    let n = s.unicode_len();
    let mut i = n;
    loop
        invariant
            i <= n,
            n == s@.len(),
            spec_basename_start(s@, n as int) == spec_basename_start(s@, i as int),
        decreases i,
    {
        if i == 0 {
            return String::from_str(s.substring_char(0, n));
        }
        if s.get_char(i - 1) == '/' {
            return String::from_str(s.substring_char(i, n));
        }
        i = i - 1;
    }
}

/// The tilde-shortened form of a working directory under `home`.
pub open spec fn spec_tilde_text(wd: Seq<char>, home: Seq<char>) -> Seq<char> {
    if home.len() > 0 && home.len() <= wd.len() && wd.subrange(0, home.len() as int) == home {
        "~"@ + wd.subrange(home.len() as int, wd.len() as int)
    } else {
        wd
    }
}

/// The `\w`/`\W` rendering of the working directory: optionally
/// tilde-shortened, optionally reduced to its basename.  A directory whose
/// basename is empty (the root, or a path ending in a separator) keeps its
/// full rendering.
pub open spec fn spec_cwd_text(
    wd: Seq<char>,
    home: Seq<char>,
    tilde_replaced: bool,
    basename: bool,
) -> Seq<char> {
    let t = if tilde_replaced {
        spec_tilde_text(wd, home)
    } else {
        wd
    };
    if basename && spec_basename(t).len() > 0 {
        spec_basename(t)
    } else {
        t
    }
}

/// Renders the working directory for a prompt.
pub fn format_current_working_directory(
    working_dir: &str,
    home: &str,
    tilde_replaced: bool,
    with_basename: bool,
) -> (r: String)
    ensures
        r@ == spec_cwd_text(working_dir@, home@, tilde_replaced, with_basename),
{
    let t = if tilde_replaced {
        crate::shell::Shell::tilde_shorten(working_dir, home)
    } else {
        String::from_str(working_dir)
    };
    if with_basename {
        let b = basename(t.as_str());
        if b.as_str().unicode_len() > 0 {
            b
        } else {
            t
        }
    } else {
        t
    }
}

/// The hostname up to its first dot.
pub open spec fn spec_first_dot_prefix(s: Seq<char>, i: int) -> Seq<char>
    decreases s.len() - i,
{
    if i < 0 || i >= s.len() {
        s
    } else if s[i] == '.' {
        s.subrange(0, i)
    } else {
        spec_first_dot_prefix(s, i + 1)
    }
}

fn first_dot_prefix(s: &str) -> (r: String)
    ensures
        r@ == spec_first_dot_prefix(s@, 0),
{
    let n = s.unicode_len();
    let mut i: usize = 0;
    while i < n
        invariant
            i <= n,
            n == s@.len(),
            spec_first_dot_prefix(s@, 0) == spec_first_dot_prefix(s@, i as int),
        decreases n - i,
    {
        if s.get_char(i) == '.' {
            return String::from_str(s.substring_char(0, i));
        }
        i = i + 1;
    }
    String::from_str(s)
}

/// Whether `u` is a Unicode scalar value.
pub open spec fn spec_valid_scalar(u: u32) -> bool {
    u < 0xD800 || (0xE000 <= u && u <= 0x10FFFF)
}

/// Relies on `char::from_u32`: it yields a character exactly for valid
/// Unicode scalar values, and that character casts back to the same number.
#[verifier::external_body]
fn char_from_u32(u: u32) -> (r: Option<char>)
    ensures
        match r {
            Some(c) => spec_valid_scalar(u) && c as u32 == u,
            None => !spec_valid_scalar(u),
        },
{
    char::from_u32(u)
}

/// What one parsed piece renders as, or nothing for the pieces the engine
/// knowingly does not implement (command number, history number, terminal
/// device) and for a rejected custom date format.
pub open spec fn spec_render_piece(ctx: PromptContext, m: PromptPieceModel) -> Option<Seq<char>> {
    match m {
        PromptPieceModel::Literal(t) => Some(t),
        PromptPieceModel::EscapedSequence(t) => Some(t),
        PromptPieceModel::AsciiCharacter(u) => Some(
            if spec_valid_scalar(u) {
                seq![u as char]
            } else {
                Seq::<char>::empty()
            },
        ),
        PromptPieceModel::Backslash => Some(seq!['\\']),
        PromptPieceModel::BellCharacter => Some(seq!['\u{7}']),
        PromptPieceModel::CarriageReturn => Some(seq!['\r']),
        PromptPieceModel::CurrentCommandNumber => None,
        PromptPieceModel::CurrentHistoryNumber => None,
        PromptPieceModel::CurrentUser => Some(ctx.user@),
        PromptPieceModel::CurrentWorkingDirectory { tilde_replaced, basename } => Some(
            spec_cwd_text(ctx.working_dir@, ctx.home@, tilde_replaced, basename),
        ),
        PromptPieceModel::DateWeekdayMonthDate => Some(spec_date_text(ctx.now)),
        PromptPieceModel::DateCustom(f) => strftime_of(
            ctx.now.year as int,
            ctx.now.month as int,
            ctx.now.day as int,
            ctx.now.hour as int,
            ctx.now.minute as int,
            ctx.now.second as int,
            ctx.now.nanosecond as int,
            f,
        ),
        PromptPieceModel::DollarOrPound => Some(
            if ctx.is_root {
                seq!['#']
            } else {
                seq!['$']
            },
        ),
        PromptPieceModel::EndNonPrintingSequence => Some(Seq::<char>::empty()),
        PromptPieceModel::EscapeCharacter => Some(seq!['\u{1b}']),
        PromptPieceModel::Hostname { only_up_to_first_dot } => Some(
            if only_up_to_first_dot {
                spec_first_dot_prefix(ctx.hostname@, 0)
            } else {
                ctx.hostname@
            },
        ),
        PromptPieceModel::Newline => Some(seq!['\n']),
        PromptPieceModel::NumberOfManagedJobs => Some(spec_decimal(ctx.jobs_count as nat)),
        PromptPieceModel::ShellBaseName => Some(
            match ctx.shell_name {
                Some(s) => spec_basename(s@),
                None => Seq::<char>::empty(),
            },
        ),
        PromptPieceModel::ShellRelease => Some(seq!['0', '.', '1', '.', '0']),
        PromptPieceModel::ShellVersion => Some(seq!['0', '.', '1']),
        PromptPieceModel::StartNonPrintingSequence => Some(Seq::<char>::empty()),
        PromptPieceModel::TerminalDeviceBaseName => None,
        PromptPieceModel::Time(f) => Some(spec_time_text(ctx.now, f)),
    }
}

/// Whether a rendered piece must be re-escaped for a second expansion pass.
pub open spec fn spec_needs_escaping(m: PromptPieceModel) -> bool {
    m is EscapedSequence || m is DollarOrPound
}

/// What a sequence of pieces renders as, left to right; a failing piece
/// fails the prompt.
pub open spec fn spec_render_pieces(ctx: PromptContext, pieces: Seq<PromptPieceModel>) -> Option<
    Seq<char>,
>
    decreases pieces.len(),
{
    if pieces.len() == 0 {
        Some(Seq::<char>::empty())
    } else {
        match spec_render_pieces(ctx, pieces.drop_last()) {
            None => None,
            Some(prefix) => match spec_render_piece(ctx, pieces.last()) {
                None => None,
                Some(t) => Some(
                    prefix + (if ctx.expand_prompt_strings && spec_needs_escaping(pieces.last()) {
                        seq!['\\'] + t
                    } else {
                        t
                    }),
                ),
            },
        }
    }
}

/// What a whole prompt specification renders as against a context.
pub open spec fn spec_expand_prompt(s: Seq<char>, ctx: PromptContext) -> Option<Seq<char>> {
    spec_render_pieces(ctx, spec_parse_prompt(s))
}

/// Renders one parsed piece against the context.
pub fn format_prompt_piece(ctx: &PromptContext, piece: &PromptPiece) -> (r: Result<String, Error>)
    requires
        ctx.wf(),
    ensures
        match spec_render_piece(*ctx, piece_model(*piece)) {
            Some(t) => r matches Ok(s) && s@ == t,
            None => r matches Err(e) && (e.kind is Unimplemented || e.kind is Parse),
        },
        (*piece) is CurrentCommandNumber ==> (r matches Err(e) && e.kind is Unimplemented),
        (*piece) is CurrentHistoryNumber ==> (r matches Err(e) && e.kind is Unimplemented),
        (*piece) is TerminalDeviceBaseName ==> (r matches Err(e) && e.kind is Unimplemented),
        r matches Err(e) && e.kind is Parse ==> (*piece) matches PromptPiece::Date(
            PromptDateFormat::Custom(_),
        ),
{
    match piece {
        PromptPiece::Literal(s) => Ok(s.clone()),
        PromptPiece::EscapedSequence(s) => Ok(s.clone()),
        PromptPiece::AsciiCharacter(u) => match char_from_u32(*u) {
            Some(c) => {
                proof {
                    vstd::utf8::char_u32_cast(c, *u);
                }
                Ok(crate::strings::char_to_string(c))
            },
            None => Ok(String::new()),
        },
        PromptPiece::Backslash => {
            let r = String::from_str("\\");
            proof {
                reveal_strlit("\\");
                assert(r@ =~= seq!['\\']);
            }
            Ok(r)
        },
        PromptPiece::BellCharacter => {
            let r = String::from_str("\u{7}");
            proof {
                reveal_strlit("\u{7}");
                assert(r@ =~= seq!['\u{7}']);
            }
            Ok(r)
        },
        PromptPiece::CarriageReturn => {
            let r = String::from_str("\r");
            proof {
                reveal_strlit("\r");
                assert(r@ =~= seq!['\r']);
            }
            Ok(r)
        },
        PromptPiece::CurrentCommandNumber => Err(Error::unimp("prompt: current command number")),
        PromptPiece::CurrentHistoryNumber => Err(Error::unimp("prompt: current history number")),
        PromptPiece::CurrentUser => Ok(ctx.user.clone()),
        PromptPiece::CurrentWorkingDirectory { tilde_replaced, basename } => Ok(
            format_current_working_directory(
                ctx.working_dir.as_str(),
                ctx.home.as_str(),
                *tilde_replaced,
                *basename,
            ),
        ),
        PromptPiece::Date(f) => format_date(&ctx.now, f),
        PromptPiece::DollarOrPound => {
            if ctx.is_root {
                let r = String::from_str("#");
                proof {
                    reveal_strlit("#");
                    assert(r@ =~= seq!['#']);
                }
                Ok(r)
            } else {
                let r = String::from_str("$");
                proof {
                    reveal_strlit("$");
                    assert(r@ =~= seq!['$']);
                }
                Ok(r)
            }
        },
        PromptPiece::EndNonPrintingSequence => Ok(String::new()),
        PromptPiece::EscapeCharacter => {
            let r = String::from_str("\u{1b}");
            proof {
                reveal_strlit("\u{1b}");
                assert(r@ =~= seq!['\u{1b}']);
            }
            Ok(r)
        },
        PromptPiece::Hostname { only_up_to_first_dot } => {
            if *only_up_to_first_dot {
                Ok(first_dot_prefix(ctx.hostname.as_str()))
            } else {
                Ok(ctx.hostname.clone())
            }
        },
        PromptPiece::Newline => {
            let r = String::from_str("\n");
            proof {
                reveal_strlit("\n");
                assert(r@ =~= seq!['\n']);
            }
            Ok(r)
        },
        PromptPiece::NumberOfManagedJobs => Ok(u64_to_string(ctx.jobs_count)),
        PromptPiece::ShellBaseName => match &ctx.shell_name {
            Some(s) => Ok(basename(s.as_str())),
            None => Ok(String::new()),
        },
        PromptPiece::ShellRelease => {
            let r = String::from_str("0.1.0");
            proof {
                reveal_strlit("0.1.0");
                assert(r@ =~= seq!['0', '.', '1', '.', '0']);
            }
            Ok(r)
        },
        PromptPiece::ShellVersion => {
            let r = String::from_str("0.1");
            proof {
                reveal_strlit("0.1");
                assert(r@ =~= seq!['0', '.', '1']);
            }
            Ok(r)
        },
        PromptPiece::StartNonPrintingSequence => Ok(String::new()),
        PromptPiece::TerminalDeviceBaseName => Err(
            Error::unimp("prompt: terminal device base name"),
        ),
        PromptPiece::Time(f) => Ok(format_time(&ctx.now, f)),
    }
}

/// Renders parsed pieces left to right, escaping the marked pieces when the
/// context asks for a second expansion pass.
pub fn render_prompt_pieces(ctx: &PromptContext, pieces: &Vec<PromptPiece>) -> (r: Result<
    String,
    Error,
>)
    requires
        ctx.wf(),
    ensures
        match spec_render_pieces(*ctx, pieces@.map_values(|p: PromptPiece| piece_model(p))) {
            Some(t) => r matches Ok(s) && s@ == t,
            None => r is Err,
        },
{
    let n = pieces.len();
    let ghost models = pieces@.map_values(|p: PromptPiece| piece_model(p));
    let mut out = String::new();
    let mut i: usize = 0;
    while i < n
        invariant
            i <= n,
            n == pieces@.len(),
            ctx.wf(),
            models == pieces@.map_values(|p: PromptPiece| piece_model(p)),
            spec_render_pieces(*ctx, models.subrange(0, i as int)) == Some(out@),
        decreases n - i,
    {
        let piece = &pieces[i];
        let needs_escaping = match piece {
            PromptPiece::EscapedSequence(_) => true,
            PromptPiece::DollarOrPound => true,
            _ => false,
        };
        let formatted = match format_prompt_piece(ctx, piece) {
            Ok(s) => s,
            Err(e) => {
                proof {
                    assert(models.subrange(0, i + 1).drop_last() =~= models.subrange(0, i as int));
                    assert(models.subrange(0, i + 1).last() == models[i as int]);
                    lemma_render_pieces_prefix_none(*ctx, models, i + 1);
                }
                return Err(e);
            },
        };
        if ctx.expand_prompt_strings && needs_escaping {
            out.append("\\");
            proof {
                reveal_strlit("\\");
            }
        }
        out.append(formatted.as_str());
        proof {
            assert(models.subrange(0, i + 1).drop_last() =~= models.subrange(0, i as int));
            assert(models.subrange(0, i + 1).last() == models[i as int]);
        }
        i = i + 1;
    }
    proof {
        assert(models.subrange(0, n as int) =~= models);
    }
    Ok(out)
}

/// A failing prefix fails the whole rendering.
proof fn lemma_render_pieces_prefix_none(ctx: PromptContext, models: Seq<PromptPieceModel>, i: int)
    requires
        0 <= i <= models.len(),
        spec_render_pieces(ctx, models.subrange(0, i)) is None,
    ensures
        spec_render_pieces(ctx, models) is None,
    decreases models.len() - i,
{
    if i < models.len() {
        assert(models.subrange(0, i + 1).drop_last() =~= models.subrange(0, i));
        lemma_render_pieces_prefix_none(ctx, models, i + 1);
    } else {
        assert(models.subrange(0, i) =~= models);
    }
}

/// Parses and renders a prompt specification against a context.
pub fn expand_prompt(ctx: &PromptContext, spec: &str) -> (r: Result<String, Error>)
    requires
        ctx.wf(),
    ensures
        match spec_expand_prompt(spec@, *ctx) {
            Some(t) => r matches Ok(s) && s@ == t,
            None => r is Err,
        },
{
    let pieces = parse_prompt(spec);
    render_prompt_pieces(ctx, &pieces)
}

/// Rendering is a function of the specification and the context: two
/// renderings from the same spec against the same user, hostname, working
/// directory, home, clock and options are the same text.
pub proof fn lemma_prompt_rendering_deterministic(
    s: Seq<char>,
    ctx: PromptContext,
    r1: Option<Seq<char>>,
    r2: Option<Seq<char>>,
)
    requires
        r1 == spec_expand_prompt(s, ctx),
        r2 == spec_expand_prompt(s, ctx),
    ensures
        r1 == r2,
{
}

/// A bounded cache of parsed prompt specifications, keyed on the spec text.
/// When full, the oldest entry leaves.
#[derive(Debug)]
pub struct PromptCache {
    pub entries: Vec<(String, Vec<PromptPiece>)>,
}

impl PromptCache {
    /// Every cached entry holds exactly what its key parses to.
    pub open spec fn wf(self) -> bool {
        forall|j: int|
            0 <= j < self.entries@.len() ==> (#[trigger] self.entries@[j]).1@.map_values(
                |p: PromptPiece| piece_model(p),
            ) == spec_parse_prompt(self.entries@[j].0@)
    }

    /// The cache's capacity.
    pub open spec fn spec_capacity() -> nat {
        64
    }

    /// An empty cache.
    pub fn new() -> (r: PromptCache)
        ensures
            r.wf(),
            r.entries@.len() == 0,
    {
        PromptCache { entries: Vec::new() }
    }

    fn find(&self, spec: &str) -> (r: Option<usize>)
        ensures
            match r {
                Some(k) => k < self.entries@.len() && self.entries@[k as int].0@ == spec@,
                None => true,
            },
    {
        let n = self.entries.len();
        let mut i: usize = 0;
        while i < n
            invariant
                i <= n,
                n == self.entries@.len(),
            decreases n - i,
        {
            if crate::strings::str_eq(self.entries[i].0.as_str(), spec) {
                return Some(i);
            }
            i = i + 1;
        }
        None
    }

    /// The parsed pieces of `spec`, from the cache when present, freshly
    /// parsed and remembered otherwise.
    pub fn get_or_parse(&mut self, spec: &str) -> (r: &Vec<PromptPiece>)
        requires
            old(self).wf(),
        ensures
            final(self).wf(),
            old(self).entries@.len() <= Self::spec_capacity() ==> final(self).entries@.len()
                <= Self::spec_capacity(),
            r@.map_values(|p: PromptPiece| piece_model(p)) == spec_parse_prompt(spec@),
    {
        match self.find(spec) {
            Some(k) => &self.entries[k].1,
            None => {
                if self.entries.len() >= 64 {
                    let ghost pre = self.entries@;
                    let _ = self.entries.remove(0);
                    proof {
                        assert forall|j: int| 0 <= j < self.entries@.len() implies (
                        #[trigger] self.entries@[j]).1@.map_values(|p: PromptPiece| piece_model(p))
                            == spec_parse_prompt(self.entries@[j].0@) by {
                            assert(self.entries@[j] == pre[j + 1]);
                        }
                    }
                }
                let pieces = parse_prompt(spec);
                let key = String::from_str(spec);
                let ghost pre2 = self.entries@;
                self.entries.push((key, pieces));
                proof {
                    assert forall|j: int| 0 <= j < self.entries@.len() implies (
                    #[trigger] self.entries@[j]).1@.map_values(|p: PromptPiece| piece_model(p))
                        == spec_parse_prompt(self.entries@[j].0@) by {
                        if j < pre2.len() {
                            assert(self.entries@[j] == pre2[j]);
                        } else {
                            assert(self.entries@[j] == self.entries@.last());
                        }
                    }
                }
                let last = self.entries.len() - 1;
                &self.entries[last].1
            },
        }
    }
}

} // verus!
