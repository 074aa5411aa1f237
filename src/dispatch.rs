//! Pre-dispatch classification of a raw invocation: a single-shot run, or the batch query
//! server on two file descriptors given with `--p-slurminfo R W`.
use vstd::prelude::*;
use crate::wire::strs_view;

verus! {

/// A decimal digit character.
pub open spec fn is_digit(c: char) -> bool {
    '0' <= c && c <= '9'
}

/// The value of decimal digit character `c`.
pub open spec fn digit_value(c: char) -> int {
    (c as u32) - ('0' as u32)
}

/// The value of a string of decimal digits.
pub open spec fn digits_value(s: Seq<char>) -> int
    decreases s.len(),
{
    if s.len() == 0 {
        0
    } else {
        digits_value(s.drop_last()) * 10 + digit_value(s.last())
    }
}

/// A non-empty string of decimal digits.
pub open spec fn all_digits(s: Seq<char>) -> bool {
    s.len() > 0 && forall|i: int| 0 <= i < s.len() ==> is_digit(#[trigger] s[i])
}

/// The integer written in `s`: an optional `+` or `-` sign, then one or more decimal digits.
pub open spec fn int_text_value(s: Seq<char>) -> Option<int> {
    if s.len() > 0 && (s[0] == '-' || s[0] == '+') {
        if all_digits(s.drop_first()) {
            Some(
                if s[0] == '-' {
                    -digits_value(s.drop_first())
                } else {
                    digits_value(s.drop_first())
                },
            )
        } else {
            None
        }
    } else if all_digits(s) {
        Some(digits_value(s))
    } else {
        None
    }
}

/// The file descriptor (an `i32`) written in `s`, if `s` writes one in range.
pub open spec fn descriptor_value(s: Seq<char>) -> Option<i32> {
    match int_text_value(s) {
        Some(v) => if i32::MIN <= v <= i32::MAX {
            Some(v as i32)
        } else {
            None
        },
        None => None,
    }
}

proof fn lemma_digits_value_prefix(s: Seq<char>, j: int)
    requires
        0 <= j <= s.len(),
        forall|i: int| 0 <= i < s.len() ==> is_digit(#[trigger] s[i]),
    ensures
        digits_value(s) >= digits_value(s.take(j)),
        digits_value(s.take(j)) >= 0,
    decreases s.len(),
{
    if s.len() > 0 {
        if j == s.len() {
            assert(s.take(j) =~= s);
            lemma_digits_value_prefix(s.drop_last(), s.len() - 1);
            assert(s.drop_last().take(s.len() - 1) =~= s.drop_last());
            assert(is_digit(s[s.len() - 1]));
        } else {
            lemma_digits_value_prefix(s.drop_last(), j);
            assert(s.drop_last().take(j) =~= s.take(j));
            lemma_digits_value_prefix(s.drop_last(), s.len() - 1);
            assert(s.drop_last().take(s.len() - 1) =~= s.drop_last());
            assert(is_digit(s[s.len() - 1]));
        }
    } else {
        assert(s.take(j) =~= s);
    }
}

/// Reads a file descriptor number: an optional sign and decimal digits, within `i32`.
pub fn parse_descriptor(s: &str) -> (r: Option<i32>)
    ensures
        r == descriptor_value(s@),
{
    let n = s.unicode_len();
    if n == 0 {
        return None;
    }
    let first = s.get_char(0);
    let signed = first == '-' || first == '+';
    let start: usize = if signed {
        1
    } else {
        0
    };
    if start >= n {
        return None;
    }
    let ghost ds = s@.subrange(start as int, n as int);
    let mut acc: u64 = 0;
    let mut i: usize = start;
    while i < n
        invariant
            start <= i <= n,
            n == s@.len(),
            n > 0,
            first == s@[0],
            signed == (first == '-' || first == '+'),
            signed ==> start == 1,
            !signed ==> start == 0,
            ds == s@.subrange(start as int, n as int),
            forall|k: int| start <= k < i ==> is_digit(#[trigger] s@[k]),
            acc == digits_value(ds.take(i - start)),
            acc <= 2147483648,
        decreases n - i,
    {
        let c = s.get_char(i);
        if !('0' <= c && c <= '9') {
            proof {
                assert(ds[i - start] == c);
                if signed {
                    assert(s@.drop_first() =~= ds);
                } else {
                    assert(s@ =~= ds);
                }
            }
            return None;
        }
        let d = (c as u32 - '0' as u32) as u64;
        proof {
            assert(ds.take(i - start + 1).drop_last() =~= ds.take(i - start));
            assert(ds.take(i - start + 1).last() == c);
        }
        let next = acc * 10 + d;
        if next > 2147483648 {
            proof {
                if all_digits(ds) {
                    lemma_digits_value_prefix(ds, i - start + 1);
                }
                if signed {
                    assert(s@.drop_first() =~= ds);
                } else {
                    assert(s@ =~= ds);
                }
            }
            return None;
        }
        acc = next;
        i = i + 1;
    }
    proof {
        assert(ds.take(ds.len() as int) =~= ds);
        if signed {
            assert(s@.drop_first() =~= ds);
        } else {
            assert(s@ =~= ds);
        }
    }
    if first == '-' {
        Some((0 - (acc as i64)) as i32)
    } else if acc <= 2147483647 {
        Some(acc as i32)
    } else {
        None
    }
}

/// What a scan of the raw arguments met first.
pub enum PipeScan {
    /// No `--p-slurminfo`.
    NotFound,
    /// `--help` or `-h`, before any repeated `--p-slurminfo`.
    Help,
    /// A second `--p-slurminfo`.
    Repeated,
    /// One `--p-slurminfo`, with the (up to two) arguments that follow it.
    Found(Option<Seq<char>>, Option<Seq<char>>),
}

/// The argument at `i`, if there is one.
pub open spec fn arg_at(args: Seq<Seq<char>>, i: int) -> Option<Seq<char>> {
    if 0 <= i < args.len() {
        Some(args[i])
    } else {
        None
    }
}

/// Scans the arguments from position `i`, where `found` holds the two arguments taken after
/// an earlier `--p-slurminfo`. The two arguments after the flag are taken as they are, and not
/// scanned further; `--help` or `-h` ends the scan.
pub open spec fn scan_args(
    args: Seq<Seq<char>>,
    i: int,
    found: Option<(Option<Seq<char>>, Option<Seq<char>>)>,
) -> PipeScan
    decreases args.len() - i,
{
    if i < 0 || i >= args.len() {
        match found {
            Some(p) => PipeScan::Found(p.0, p.1),
            None => PipeScan::NotFound,
        }
    } else if args[i] == "--p-slurminfo"@ {
        if found is Some {
            PipeScan::Repeated
        } else {
            let next = if i + 3 <= args.len() {
                i + 3
            } else {
                args.len() as int
            };
            scan_args(args, next, Some((arg_at(args, i + 1), arg_at(args, i + 2))))
        }
    } else if args[i] == "--help"@ || args[i] == "-h"@ {
        PipeScan::Help
    } else {
        scan_args(args, i + 1, found)
    }
}

/// Why the raw arguments could not be classified.
#[derive(Debug, Clone, PartialEq, Eq)]
pub enum ArgError {
    /// `--p-slurminfo` given more than once.
    RepeatedPipeFlag,
    /// `--p-slurminfo` without two arguments after it.
    MissingDescriptor,
    /// An argument of `--p-slurminfo` that is not an integer file descriptor.
    BadDescriptor(String),
}

/// The abstract outcome of classifying the raw arguments.
pub enum PipeOutcome {
    SingleShot,
    Pipe(i32, i32),
    Repeated,
    Missing,
    Bad(Seq<char>),
}

/// The classification of a raw invocation (program name included): single-shot, or the
/// batch server reading from the first descriptor and writing to the second.
pub open spec fn pipe_outcome(args: Seq<Seq<char>>) -> PipeOutcome {
    match scan_args(args, 0, None) {
        PipeScan::NotFound => PipeOutcome::SingleShot,
        PipeScan::Help => PipeOutcome::SingleShot,
        PipeScan::Repeated => PipeOutcome::Repeated,
        PipeScan::Found(rd, wd) => match rd {
            None => PipeOutcome::Missing,
            Some(r) => match descriptor_value(r) {
                None => PipeOutcome::Bad(r),
                Some(rv) => match wd {
                    None => PipeOutcome::Missing,
                    Some(w) => match descriptor_value(w) {
                        None => PipeOutcome::Bad(w),
                        Some(wv) => PipeOutcome::Pipe(rv, wv),
                    },
                },
            },
        },
    }
}

/// The abstract form of a classification result.
pub open spec fn outcome_view(r: Result<Option<(i32, i32)>, ArgError>) -> PipeOutcome {
    match r {
        Ok(None) => PipeOutcome::SingleShot,
        Ok(Some((rd, wd))) => PipeOutcome::Pipe(rd, wd),
        Err(ArgError::RepeatedPipeFlag) => PipeOutcome::Repeated,
        Err(ArgError::MissingDescriptor) => PipeOutcome::Missing,
        Err(ArgError::BadDescriptor(t)) => PipeOutcome::Bad(t@),
    }
}

spec fn found_view(
    args: Seq<Seq<char>>,
    found: bool,
    rd: Option<usize>,
    wd: Option<usize>,
) -> Option<(Option<Seq<char>>, Option<Seq<char>>)> {
    if found {
        Some(
            (
                match rd {
                    Some(k) => Some(args[k as int]),
                    None => None,
                },
                match wd {
                    Some(k) => Some(args[k as int]),
                    None => None,
                },
            ),
        )
    } else {
        None
    }
}

fn descriptor_arg(args: &Vec<String>, at: Option<usize>) -> (r: Result<i32, ArgError>)
    requires
        at is Some ==> at->0 < args@.len(),
    ensures
        outcome_view(
            match r {
                Ok(v) => Ok(Some((v, v))),
                Err(e) => Err(e),
            },
        ) == match at {
            None => PipeOutcome::Missing,
            Some(k) => match descriptor_value(args@[k as int]@) {
                None => PipeOutcome::Bad(args@[k as int]@),
                Some(v) => PipeOutcome::Pipe(v, v),
            },
        },
{
    match at {
        None => Err(ArgError::MissingDescriptor),
        Some(k) => match parse_descriptor(args[k].as_str()) {
            Some(v) => Ok(v),
            None => Err(ArgError::BadDescriptor(args[k].clone())),
        },
    }
}

/// Classifies a raw invocation (program name included) before any other parsing: `Some((r, w))`
/// when it asks for the batch server on descriptors `r` and `w` with `--p-slurminfo R W`,
/// `None` for a single-shot run or when help is asked for first.
pub fn check_args_for_slurm_pipe(args: &Vec<String>) -> (r: Result<Option<(i32, i32)>, ArgError>)
    ensures
        outcome_view(r) == pipe_outcome(strs_view(args@)),
{
    let ghost av = strs_view(args@);
    let flag = String::from_str("--p-slurminfo");
    let help_long = String::from_str("--help");
    let help_short = String::from_str("-h");
    let n = args.len();
    let mut i: usize = 0;
    let mut found = false;
    let mut rd: Option<usize> = None;
    let mut wd: Option<usize> = None;
    while i < n
        invariant
            n == args@.len(),
            av == strs_view(args@),
            i <= n,
            flag@ == "--p-slurminfo"@,
            help_long@ == "--help"@,
            help_short@ == "-h"@,
            rd is Some ==> rd->0 < n,
            wd is Some ==> wd->0 < n,
            scan_args(av, i as int, found_view(av, found, rd, wd)) == scan_args(av, 0, None),
        decreases n - i,
    {
        proof {
            assert(av[i as int] == args@[i as int]@);
        }
        if args[i] == flag {
            if found {
                return Err(ArgError::RepeatedPipeFlag);
            }
            found = true;
            rd = if n - i > 1 {
                Some(i + 1)
            } else {
                None
            };
            wd = if n - i > 2 {
                Some(i + 2)
            } else {
                None
            };
            i = if n - i > 3 {
                i + 3
            } else {
                n
            };
        } else if args[i] == help_long || args[i] == help_short {
            return Ok(None);
        } else {
            i = i + 1;
        }
    }
    if found {
        let r = descriptor_arg(args, rd);
        match r {
            Err(e) => Err(e),
            Ok(rv) => {
                let w = descriptor_arg(args, wd);
                match w {
                    Err(e) => Err(e),
                    Ok(wv) => Ok(Some((rv, wv))),
                }
            },
        }
    } else {
        Ok(None)
    }
}

} // verus!
