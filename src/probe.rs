//! Memory probes: where the shared physical window is, how a probe address is
//! read, and what the way a probe process ended says about isolation.
use vstd::prelude::*;
use crate::hex::{HexError, has_hex_prefix, parse_hex_digits, parse_hex_spec, starts_with_hex_prefix, strip_hex_prefix, strip_radix16};
use crate::text::{split_spec, split_text, split_words, texts, trim_text, trimmed, words};

verus! {

/// The bus-error signal, which an access to isolated memory raises.
pub const SIGBUS: i32 = 7;

/// Size in bytes of the physical window that a probe maps and a guest shares.
pub const WINDOW_SIZE: u64 = 4096;

/// How a probe process ended.
#[derive(Debug, Clone, Copy, PartialEq, Eq, Structural)]
pub enum ProbeOutcome {
    /// Killed by the bus-error signal: the access was refused, isolation held.
    FaultedExpected,
    /// Killed by another signal, whose number is kept.
    FaultedUnexpected(i32),
    /// Ended on its own, with its exit code if it had one.
    Exited(Option<i32>),
}

/// The outcome of a probe that was killed by `signal`, if it was, and
/// otherwise exited with `code`.
pub open spec fn probe_outcome_spec(signal: Option<i32>, code: Option<i32>) -> ProbeOutcome {
    match signal {
        Some(s) => if s == SIGBUS { ProbeOutcome::FaultedExpected } else { ProbeOutcome::FaultedUnexpected(s) },
        None => ProbeOutcome::Exited(code),
    }
}

/// Classifies how a probe process ended, from the signal that killed it (if
/// any) and its exit code (if any).
pub fn classify_probe(signal: Option<i32>, code: Option<i32>) -> (r: ProbeOutcome)
    ensures
        r == probe_outcome_spec(signal, code),
{
    match signal {
        Some(s) => if s == SIGBUS { ProbeOutcome::FaultedExpected } else { ProbeOutcome::FaultedUnexpected(s) },
        None => ProbeOutcome::Exited(code),
    }
}

impl ProbeOutcome {
    /// Whether the outcome shows that isolation held.
    pub fn passed(&self) -> (r: bool)
        ensures
            r == (*self is FaultedExpected),
    {
        match self {
            ProbeOutcome::FaultedExpected => true,
            _ => false,
        }
    }
}

/// Whether a probe killed by `signal` (if it was) and otherwise exited with
/// `code` shows that isolation held.
pub fn read_mem_assert_signal_bus(signal: Option<i32>, code: Option<i32>) -> (r: bool)
    ensures
        r == (signal == Some(SIGBUS)),
{
    classify_probe(signal, code).passed()
}

/// Why a probe address could not be read.
#[derive(Debug, Clone, Copy, PartialEq, Eq, Structural)]
pub enum AddressError {
    /// The address does not start with `0x`.
    MissingPrefix,
    /// What follows `0x` is no hexadecimal number.
    Number(HexError),
}

/// The offset that a probe address denotes: `0x`, then hexadecimal digits,
/// possibly surrounded by white space.
pub open spec fn probe_address_spec(addr: Seq<char>) -> Result<u64, AddressError> {
    if !has_hex_prefix(addr) {
        Err(AddressError::MissingPrefix)
    } else {
        match parse_hex_spec(trimmed(addr.subrange(2, addr.len() as int))) {
            Ok(v) => Ok(v),
            Err(e) => Err(AddressError::Number(e)),
        }
    }
}

/// Reads the physical offset that a probe is asked to map.
pub fn parse_probe_address(addr: &str) -> (r: Result<u64, AddressError>)
    ensures
        r == probe_address_spec(addr@),
{
    if !starts_with_hex_prefix(addr) {
        return Err(AddressError::MissingPrefix);
    }
    let n = addr.unicode_len();
    let digits = trim_text(addr.substring_char(2, n));
    match parse_hex_digits(digits) {
        Ok(v) => Ok(v),
        Err(e) => Err(AddressError::Number(e)),
    }
}

/// Why a PCI resource listing could not be read.
#[derive(Debug, Clone, Copy, PartialEq, Eq, Structural)]
pub enum ResourceError {
    /// A line holds a start address but no end address.
    MissingEnd,
    /// An address is no hexadecimal number.
    Number(HexError),
}

/// What one line of a resource listing says, its fields being separated by
/// white space: nothing for a blank line, else its start field when the inclusive range it gives spans exactly one
/// window, and no field when it spans another size.
pub open spec fn line_window_spec(line: Seq<char>) -> Result<Option<Seq<char>>, ResourceError> {
    let fields = words(line);
    if fields.len() == 0 {
        Ok(None)
    } else {
        match parse_hex_spec(strip_hex_prefix(fields[0])) {
            Err(e) => Err(ResourceError::Number(e)),
            Ok(start) => if fields.len() < 2 {
                Err(ResourceError::MissingEnd)
            } else {
                match parse_hex_spec(strip_hex_prefix(fields[1])) {
                    Err(e) => Err(ResourceError::Number(e)),
                    Ok(end) => if end - start + 1 == WINDOW_SIZE {
                        Ok(Some(fields[0]))
                    } else {
                        Ok(None)
                    },
                }
            },
        }
    }
}

/// The start field of the last line of `lines` that spans exactly one
/// window (empty if none does), or the error of the first line that cannot
/// be read.
pub open spec fn select_window_spec(lines: Seq<Seq<char>>) -> Result<Seq<char>, ResourceError>
    decreases lines.len(),
{
    if lines.len() == 0 {
        Ok(Seq::<char>::empty())
    } else {
        match select_window_spec(lines.drop_last()) {
            Err(e) => Err(e),
            Ok(prev) => match line_window_spec(lines.last()) {
                Err(e) => Err(e),
                Ok(Some(w)) => Ok(w),
                Ok(None) => Ok(prev),
            },
        }
    }
}

/// The characters of a string result.
pub open spec fn result_text<E>(r: Result<String, E>) -> Result<Seq<char>, E> {
    match r {
        Ok(s) => Ok(s@),
        Err(e) => Err(e),
    }
}

fn line_window(line: &str) -> (r: Result<Option<String>, ResourceError>)
    ensures
        match (r, line_window_spec(line@)) {
            (Ok(Some(a)), Ok(Some(b))) => a@ == b,
            (Ok(None), Ok(None)) => true,
            (Err(a), Err(b)) => a == b,
            _ => false,
        },
{
    let fields = split_words(line);
    proof {
        assert(texts(fields@).len() == fields@.len());
    }
    if fields.len() == 0 {
        return Ok(None);
    }
    proof {
        assert(texts(fields@)[0] == fields@[0]@);
    }
    let start = match strip_radix16(fields[0].as_str()) {
        Ok(v) => v,
        Err(e) => return Err(ResourceError::Number(e)),
    };
    if fields.len() < 2 {
        return Err(ResourceError::MissingEnd);
    }
    proof {
        assert(texts(fields@)[1] == fields@[1]@);
    }
    let end = match strip_radix16(fields[1].as_str()) {
        Ok(v) => v,
        Err(e) => return Err(ResourceError::Number(e)),
    };
    if end >= start && end - start == WINDOW_SIZE - 1 {
        Ok(Some(fields[0].clone()))
    } else {
        Ok(None)
    }
}

/// Finds the shared physical window in a PCI device's resource listing: one
/// line per range, with hexadecimal start and end addresses (inclusive)
/// separated by white space. Gives the start field of the last range of exactly
/// one window, as it is written, or an empty string when there is none.
pub fn select_shared_window(listing: &str) -> (r: Result<String, ResourceError>)
    ensures
        result_text(r) == select_window_spec(split_spec(listing@, '\n')),
{
    let lines = split_text(listing, '\n');
    let ghost all = texts(lines@);
    let mut found = String::new();
    let mut i: usize = 0;
    while i < lines.len()
        invariant
            all == texts(lines@),
            all == split_spec(listing@, '\n'),
            i <= lines.len(),
            select_window_spec(all.subrange(0, i as int)) == Ok::<Seq<char>, ResourceError>(found@),
        decreases lines.len() - i,
    {
        proof {
            assert(all.subrange(0, i + 1).drop_last() =~= all.subrange(0, i as int));
            assert(all[i as int] == lines@[i as int]@);
        }
        match line_window(lines[i].as_str()) {
            Ok(Some(w)) => {
                found = w;
            },
            Ok(None) => {},
            Err(e) => {
                proof {
                    lemma_select_error_sticks(all, i as int + 1);
                }
                return Err(e);
            },
        }
        i = i + 1;
    }
    assert(all.subrange(0, lines.len() as int) =~= all);
    Ok(found)
}

/// A line whose range is empty or reversed (end below start) is ignored:
/// it names no window, whatever the listing around it.
pub proof fn lemma_reversed_range_ignored(lines: Seq<Seq<char>>, line: Seq<char>)
    requires
        words(line).len() >= 2,
        parse_hex_spec(strip_hex_prefix(words(line)[0])) is Ok,
        parse_hex_spec(strip_hex_prefix(words(line)[1])) is Ok,
        parse_hex_spec(strip_hex_prefix(words(line)[1]))->Ok_0 < parse_hex_spec(strip_hex_prefix(words(line)[0]))->Ok_0,
    ensures
        line_window_spec(line) == Ok::<Option<Seq<char>>, ResourceError>(None),
        select_window_spec(lines.push(line)) == select_window_spec(lines),
{
    assert(lines.push(line).drop_last() =~= lines);
}

/// In a listing whose lines all read, where exactly one line spans one
/// window, the selection is that line's start field as it is written.
pub proof fn lemma_unique_window_selected(lines: Seq<Seq<char>>, i: int)
    requires
        0 <= i < lines.len(),
        line_window_spec(lines[i]) is Ok,
        line_window_spec(lines[i])->Ok_0 is Some,
        forall|j: int| 0 <= j < lines.len() && j != i ==>
            line_window_spec(#[trigger] lines[j]) == Ok::<Option<Seq<char>>, ResourceError>(None),
    ensures
        select_window_spec(lines) == Ok::<Seq<char>, ResourceError>(words(lines[i])[0]),
    decreases lines.len(),
{
    let n = lines.len() - 1;
    assert(lines.drop_last().len() == n);
    if i < n {
        assert forall|j: int| 0 <= j < n && j != i implies
            line_window_spec(#[trigger] lines.drop_last()[j]) == Ok::<Option<Seq<char>>, ResourceError>(None) by {
            assert(lines.drop_last()[j] == lines[j]);
        }
        assert(lines.drop_last()[i] == lines[i]);
        lemma_unique_window_selected(lines.drop_last(), i);
        assert(line_window_spec(lines[n]) == Ok::<Option<Seq<char>>, ResourceError>(None));
    } else {
        lemma_no_window_reads(lines.drop_last());
    }
}

/// A listing whose lines all read and none spans one window selects nothing.
proof fn lemma_no_window_reads(lines: Seq<Seq<char>>)
    requires
        forall|j: int| 0 <= j < lines.len() ==>
            line_window_spec(#[trigger] lines[j]) == Ok::<Option<Seq<char>>, ResourceError>(None),
    ensures
        select_window_spec(lines) is Ok,
    decreases lines.len(),
{
    if lines.len() > 0 {
        assert forall|j: int| 0 <= j < lines.len() - 1 implies
            line_window_spec(#[trigger] lines.drop_last()[j]) == Ok::<Option<Seq<char>>, ResourceError>(None) by {
            assert(lines.drop_last()[j] == lines[j]);
        }
        lemma_no_window_reads(lines.drop_last());
        assert(line_window_spec(lines[lines.len() - 1]) == Ok::<Option<Seq<char>>, ResourceError>(None));
    }
}

proof fn lemma_select_error_sticks(lines: Seq<Seq<char>>, k: int)
    requires
        0 <= k <= lines.len(),
        select_window_spec(lines.subrange(0, k)) is Err,
    ensures
        select_window_spec(lines) == select_window_spec(lines.subrange(0, k)),
    decreases lines.len() - k,
{
    if k < lines.len() {
        assert(lines.subrange(0, k + 1).drop_last() =~= lines.subrange(0, k));
        lemma_select_error_sticks(lines, k + 1);
    } else {
        assert(lines.subrange(0, k) =~= lines);
    }
}

} // verus!
