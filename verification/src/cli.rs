//! Decisions of the command line: how much is logged where, and under which name a
//! document is saved when no name is given.

use vstd::prelude::*;
use vstd::string::StringExecFns;

verus! {

/// How much is logged.
#[derive(Clone, Copy, Debug, PartialEq, Eq, Structural)]
pub enum LogLevel {
    Off,
    Warn,
    Info,
    Debug,
    Trace,
}

/// Level of the terminal log: nothing when quiet; otherwise warnings, with `-v` info, with
/// `-vv` debug and with `-vvv` or more trace.
pub fn terminal_log_level(quiet: bool, verbose: u8) -> (r: LogLevel)
    ensures
        r == (if quiet {
            LogLevel::Off
        } else if verbose == 0 {
            LogLevel::Warn
        } else if verbose == 1 {
            LogLevel::Info
        } else if verbose == 2 {
            LogLevel::Debug
        } else {
            LogLevel::Trace
        }),
{
    if quiet {
        LogLevel::Off
    } else {
        match verbose {
            0 => LogLevel::Warn,
            1 => LogLevel::Info,
            2 => LogLevel::Debug,
            _ => LogLevel::Trace,
        }
    }
}

/// Level of the log file, which quiet does not silence: info, also with `-v`, with `-vv`
/// debug and with `-vvv` or more trace.
pub fn file_log_level(verbose: u8) -> (r: LogLevel)
    ensures
        r == (if verbose <= 1 {
            LogLevel::Info
        } else if verbose == 2 {
            LogLevel::Debug
        } else {
            LogLevel::Trace
        }),
{
    match verbose {
        0 | 1 => LogLevel::Info,
        2 => LogLevel::Debug,
        _ => LogLevel::Trace,
    }
}

/// What `char::is_alphanumeric` says of `c`.
pub uninterp spec fn alphanumeric(c: char) -> bool;

/// Calls `char::is_alphanumeric`; claims only that the answer is a function of the
/// character, and that ASCII letters and digits are alphanumeric and other ASCII
/// characters are not, as its documentation says.
#[verifier::external_body]
fn is_alphanumeric(c: char) -> (r: bool)
    ensures
        r == alphanumeric(c),
        c <= '\u{7f}' ==> r == is_ascii_alphanumeric(c),
{
    c.is_alphanumeric()
}

/// Whether `c` is an ASCII letter or digit.
pub open spec fn is_ascii_alphanumeric(c: char) -> bool {
    ('a' <= c && c <= 'z') || ('A' <= c && c <= 'Z') || ('0' <= c && c <= '9')
}

/// `title` with every character that is not alphanumeric replaced by `_`.
pub open spec fn file_stem(title: Seq<char>) -> Seq<char> {
    title.map_values(|c: char| if alphanumeric(c) { c } else { '_' })
}

/// Name under which a document titled `title` is saved when no name is given: the title
/// with every character that is not alphanumeric replaced by `_`, and `.pdf` appended. ASCII
/// letters and digits are kept and every other ASCII character becomes `_`.
pub fn default_output_name(title: &str) -> (r: String)
    ensures
        r@ == file_stem(title@) + ".pdf"@,
        r@.len() == title@.len() + 4,
        forall|i: int|
            0 <= i < title@.len() && title@[i] <= '\u{7f}' ==> #[trigger] r@[i] == (if is_ascii_alphanumeric(title@[i]) {
                title@[i]
            } else {
                '_'
            }),
{
    let n = title.unicode_len();
    let mut out = String::new();
    let mut i: usize = 0;
    while i < n
        invariant
            n == title@.len(),
            i <= n,
            out@ == file_stem(title@.take(i as int)),
            forall|j: int| 0 <= j < i && title@[j] <= '\u{7f}' ==> alphanumeric(#[trigger] title@[j]) == is_ascii_alphanumeric(title@[j]),
        decreases n - i,
    {
        let c = title.get_char(i);
        let ghost before = out@;
        if is_alphanumeric(c) {
            let piece = title.substring_char(i, i + 1);
            assert(piece@ =~= seq![c]);
            out.append(piece);
        } else {
            proof {
                reveal_strlit("_");
            }
            out.append("_");
        }
        proof {
            assert(title@.take(i + 1) =~= title@.take(i as int).push(c));
            assert(file_stem(title@.take(i + 1)) =~= before.push(if alphanumeric(c) { c } else { '_' }));
        }
        i = i + 1;
    }
    proof {
        assert(title@.take(n as int) =~= title@);
        reveal_strlit(".pdf");
    }
    out.append(".pdf");
    proof {
        assert forall|i: int| 0 <= i < title@.len() && title@[i] <= '\u{7f}' implies #[trigger] out@[i] == (if is_ascii_alphanumeric(title@[i]) {
            title@[i]
        } else {
            '_'
        }) by {
            assert(out@[i] == file_stem(title@)[i]);
        }
    }
    out
}

} // verus!
