//! Finding the enclosure's device path in a listing of SCSI devices.

use crate::text::{
    contains, lemma_blank_has_no_token, lines, occurs_at, occurs_in, split_lines, split_whitespace,
    starts_with, texts, tokens, whitespace,
};
use vstd::prelude::*;

verus! {

/// The command that lists the SCSI devices with their generic device paths.
pub const LIST_COMMAND: &'static str = "lsscsi -g";

/// What marks the line of an enclosure in the listing.
pub const ENCLOSURE_MARKER: &'static str = "enclosu";

/// What the device path of an enclosure starts with.
pub const DEVICE_PREFIX: &'static str = "/dev/sg";

/// Why a listing gives no enclosure.
#[derive(Debug, PartialEq, Eq)]
pub enum EnclosureError {
    /// No line of the listing is that of an enclosure.
    NoEnclosureFound,
    /// The enclosure's line does not end in a device path.
    MalformedEnclosureLine { line: String },
}

/// What an `EnclosureError` stands for.
pub enum EnclosureFault {
    NoEnclosureFound,
    MalformedEnclosureLine { line: Seq<char> },
}

impl View for EnclosureError {
    type V = EnclosureFault;

    open spec fn view(&self) -> EnclosureFault {
        match self {
            EnclosureError::NoEnclosureFound => EnclosureFault::NoEnclosureFound,
            EnclosureError::MalformedEnclosureLine { line } => EnclosureFault::MalformedEnclosureLine {
                line: line@,
            },
        }
    }
}

/// The index of the first of `all` at or after `from` that holds `pat`, or
/// the length of `all` where none does.
pub open spec fn first_with(all: Seq<Seq<char>>, pat: Seq<char>, from: int) -> int
    decreases all.len() - from,
{
    if 0 <= from < all.len() && !occurs_in(all[from], pat) {
        first_with(all, pat, from + 1)
    } else {
        from
    }
}

/// The device path that an enclosure's `line` names: its last token, which
/// has to start like a generic SCSI device.
pub open spec fn device_of(line: Seq<char>) -> Result<Seq<char>, EnclosureFault> {
    let words = tokens(line);
    if words.len() == 0 {
        Err(EnclosureFault::NoEnclosureFound)
    } else if DEVICE_PREFIX@.is_prefix_of(words.last()) {
        Ok(words.last())
    } else {
        Err(EnclosureFault::MalformedEnclosureLine { line })
    }
}

/// The enclosure's device path according to the listing `output`: the one
/// that the first line with the enclosure marker names.
pub open spec fn enclosure(output: Seq<char>) -> Result<Seq<char>, EnclosureFault> {
    let all = lines(output);
    let at = first_with(all, ENCLOSURE_MARKER@, 0);
    if at < all.len() {
        device_of(all[at])
    } else {
        Err(EnclosureFault::NoEnclosureFound)
    }
}

/// The first line that holds `pat` is found between `from` and the end, and
/// no line before it holds `pat`.
pub proof fn lemma_first_with(all: Seq<Seq<char>>, pat: Seq<char>, from: int)
    requires
        0 <= from <= all.len(),
    ensures
        from <= first_with(all, pat, from) <= all.len(),
        forall|i: int| from <= i < first_with(all, pat, from) ==> !occurs_in(#[trigger] all[i], pat),
        first_with(all, pat, from) < all.len() ==> occurs_in(all[first_with(all, pat, from)], pat),
    decreases all.len() - from,
{
    if from < all.len() && !occurs_in(all[from], pat) {
        lemma_first_with(all, pat, from + 1);
    }
}

/// A listing without a line that holds the enclosure marker gives
/// `NoEnclosureFound`.
pub proof fn lemma_no_marker_no_enclosure(output: Seq<char>)
    requires
        forall|i: int|
            0 <= i < lines(output).len() ==> !occurs_in(#[trigger] lines(output)[i], ENCLOSURE_MARKER@),
    ensures
        enclosure(output) == Err::<Seq<char>, EnclosureFault>(EnclosureFault::NoEnclosureFound),
{
    lemma_first_with(lines(output), ENCLOSURE_MARKER@, 0);
}

/// The first line that holds the enclosure marker decides: the listing
/// gives what that line gives, whatever follows it.
pub proof fn lemma_first_marked_line_decides(output: Seq<char>, at: int)
    requires
        0 <= at < lines(output).len(),
        occurs_in(lines(output)[at], ENCLOSURE_MARKER@),
        forall|i: int| 0 <= i < at ==> !occurs_in(#[trigger] lines(output)[i], ENCLOSURE_MARKER@),
    ensures
        enclosure(output) == device_of(lines(output)[at]),
{
    lemma_first_with(lines(output), ENCLOSURE_MARKER@, 0);
}

/// A line that holds the enclosure marker has a last token, so it either
/// names a device or is malformed.
pub proof fn lemma_marked_line(line: Seq<char>)
    requires
        occurs_in(line, ENCLOSURE_MARKER@),
    ensures
        tokens(line).len() > 0,
        device_of(line) == if DEVICE_PREFIX@.is_prefix_of(tokens(line).last()) {
            Ok::<Seq<char>, EnclosureFault>(tokens(line).last())
        } else {
            Err::<Seq<char>, EnclosureFault>(EnclosureFault::MalformedEnclosureLine { line })
        },
{
    reveal_strlit("enclosu");
    let at = choose|at: int| occurs_at(line, ENCLOSURE_MARKER@, at);
    assert(line.subrange(at, at + 7)[0] == 'e');
    assert(!whitespace(line[at]));
    lemma_blank_has_no_token(line);
}

/// Finds the enclosure's device path in `output`, the output of the listing
/// command. Only the first line that mentions an enclosure counts.
pub fn get_sg(output: &str) -> (device: Result<String, EnclosureError>)
    ensures
        match enclosure(output@) {
            Ok(expected) => device matches Ok(path) && path@ == expected,
            Err(fault) => device matches Err(error) && error@ == fault,
        },
{
    let all = split_lines(output);
    let mut at: usize = 0;
    while at < all.len()
        invariant
            texts(all@) == lines(output@),
            at <= all.len(),
            first_with(lines(output@), ENCLOSURE_MARKER@, 0) == first_with(
                lines(output@),
                ENCLOSURE_MARKER@,
                at as int,
            ),
        decreases all.len() - at,
    {
        let line = all[at].as_str();
        if contains(line, ENCLOSURE_MARKER) {
            let mut words = split_whitespace(line);
            return match words.pop() {
                None => Err(EnclosureError::NoEnclosureFound),
                Some(last) => {
                    if starts_with(last.as_str(), DEVICE_PREFIX) {
                        Ok(last)
                    } else {
                        Err(EnclosureError::MalformedEnclosureLine { line: String::from_str(line) })
                    }
                },
            };
        }
        at += 1;
    }
    Err(EnclosureError::NoEnclosureFound)
}

} // verus!
