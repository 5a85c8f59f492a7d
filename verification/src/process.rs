//! Process ancestry: the parent of a process, read from its status record.

use vstd::prelude::*;
use vstd::string::StrSliceExecFns;
use vstd::string::StringExecFns;
use crate::text::{chars_of, parse_i64, parsed_i64};

verus! {

/// Whether `c` is white space: a character with the Unicode property
/// `White_Space`, among them the space, the tab and the line feed.
pub open spec fn is_whitespace(c: char) -> bool {
    ||| ('\u{9}' <= c && c <= '\u{d}')
    ||| c == ' '
    ||| c == '\u{85}'
    ||| c == '\u{a0}'
    ||| c == '\u{1680}'
    ||| ('\u{2000}' <= c && c <= '\u{200a}')
    ||| c == '\u{2028}'
    ||| c == '\u{2029}'
    ||| c == '\u{202f}'
    ||| c == '\u{205f}'
    ||| c == '\u{3000}'
}

/// The fields of a record: its maximal runs of characters that are not
/// white space, in their order. White space, however much of it, only
/// divides the fields, so no field is empty.
pub open spec fn fields(record: Seq<char>) -> Seq<Seq<char>>
    decreases record.len(),
{
    if record.len() == 0 {
        Seq::empty()
    } else {
        let before = fields(record.drop_last());
        let last = record.last();
        if is_whitespace(last) {
            before
        } else if record.len() >= 2 && !is_whitespace(record[record.len() - 2]) {
            // The character goes on with the field that the one before it
            // is in.
            before.drop_last().push(before.last().push(last))
        } else {
            before.push(seq![last])
        }
    }
}

/// The `n`-th field of the record, counted from 0.
pub open spec fn field(record: Seq<char>, n: nat) -> Option<Seq<char>> {
    if n < fields(record).len() {
        Some(fields(record)[n as int])
    } else {
        None
    }
}

/// No field is empty, and none holds white space.
pub proof fn lemma_fields_hold_no_whitespace(record: Seq<char>)
    ensures
        forall|k: int|
            0 <= k < fields(record).len() ==> (#[trigger] fields(record)[k]).len() > 0,
        forall|k: int, i: int|
            0 <= k < fields(record).len() && 0 <= i < fields(record)[k].len() ==> !is_whitespace(
                #[trigger] fields(record)[k][i],
            ),
        record.len() > 0 && !is_whitespace(record.last()) ==> fields(record).len() > 0,
    decreases record.len(),
{
    if record.len() > 0 {
        let front = record.drop_last();
        let before = fields(front);
        let last = record.last();
        lemma_fields_hold_no_whitespace(front);
        if is_whitespace(last) {
            // The fields are those of the record before the character.
        } else if record.len() >= 2 && !is_whitespace(record[record.len() - 2]) {
            assert(front.last() == record[record.len() - 2]);
            let grown = before.last().push(last);
            assert(fields(record) == before.drop_last().push(grown));
            assert forall|k: int| 0 <= k < fields(record).len() implies (#[trigger] fields(
                record,
            )[k]).len() > 0 by {
                if k < before.len() - 1 {
                    assert(fields(record)[k] == before[k]);
                }
            }
            assert forall|k: int, i: int|
                0 <= k < fields(record).len() && 0 <= i < fields(
                    record,
                )[k].len() implies !is_whitespace(#[trigger] fields(record)[k][i]) by {
                if k < before.len() - 1 {
                    assert(fields(record)[k] == before[k]);
                } else if i < before.last().len() {
                    assert(grown[i] == before[before.len() - 1][i]);
                }
            }
        } else {
            assert(fields(record) == before.push(seq![last]));
            assert forall|k: int| 0 <= k < fields(record).len() implies (#[trigger] fields(
                record,
            )[k]).len() > 0 by {
                if k < before.len() {
                    assert(fields(record)[k] == before[k]);
                }
            }
            assert forall|k: int, i: int|
                0 <= k < fields(record).len() && 0 <= i < fields(
                    record,
                )[k].len() implies !is_whitespace(#[trigger] fields(record)[k][i]) by {
                if k < before.len() {
                    assert(fields(record)[k] == before[k]);
                }
            }
        }
    }
}

/// White space behind a record adds no field and changes none.
pub proof fn lemma_fields_ignore_trailing_whitespace(record: Seq<char>, c: char)
    requires
        is_whitespace(c),
    ensures
        fields(record.push(c)) == fields(record),
{
    assert(record.push(c).drop_last() == record);
}

/// The position of the parent's identifier among the fields of a status
/// record, counted from 0.
pub const PARENT_FIELD: usize = 3;

/// Decides [`is_whitespace`].
pub fn whitespace(c: char) -> (white: bool)
    ensures
        white == is_whitespace(c),
{
    ('\u{9}' <= c && c <= '\u{d}') || c == ' ' || c == '\u{85}' || c == '\u{a0}' || c
        == '\u{1680}' || ('\u{2000}' <= c && c <= '\u{200a}') || c == '\u{2028}' || c
        == '\u{2029}' || c == '\u{202f}' || c == '\u{205f}' || c == '\u{3000}'
}

/// Where each field of `chars` starts and ends, in the order of the fields.
pub fn field_ranges(chars: &Vec<char>) -> (ranges: Vec<(usize, usize)>)
    ensures
        ranges@.len() == fields(chars@).len(),
        forall|k: int|
            0 <= k < ranges@.len() ==> {
                let (from, to) = #[trigger] ranges@[k];
                &&& from < to <= chars@.len()
                &&& fields(chars@)[k] == chars@.subrange(from as int, to as int)
            },
{
    let ghost record = chars@;
    let mut ranges: Vec<(usize, usize)> = Vec::new();
    let mut in_field = false;
    let mut i: usize = 0;
    while i < chars.len()
        invariant
            i <= chars@.len(),
            record == chars@,
            ranges@.len() == fields(record.take(i as int)).len(),
            forall|k: int|
                0 <= k < ranges@.len() ==> {
                    let (from, to) = #[trigger] ranges@[k];
                    &&& from < to <= i
                    &&& fields(record.take(i as int))[k] == record.subrange(from as int, to as int)
                },
            in_field == (i > 0 && !is_whitespace(record[i - 1])),
            in_field ==> ranges@.len() > 0 && ranges@[ranges@.len() - 1].1 == i,
        decreases chars@.len() - i,
    {
        let c = chars[i];
        let ghost before = record.take(i as int);
        let ghost after = record.take(i + 1);
        let ghost old_ranges = ranges@;
        proof {
            assert(after.drop_last() == before);
            assert(after.last() == c);
            if i > 0 {
                assert(after[after.len() - 2] == record[i - 1]);
            }
        }
        if whitespace(c) {
            in_field = false;
        } else if in_field {
            let last = ranges.len() - 1;
            let from = ranges[last].0;
            ranges.set(last, (from, i + 1));
            proof {
                let grown = fields(before).last().push(c);
                assert(fields(after) == fields(before).drop_last().push(grown));
                assert(record.subrange(from as int, i as int).push(c) == record.subrange(
                    from as int,
                    i + 1,
                ));
                assert forall|k: int| 0 <= k < ranges@.len() implies ({
                    let (from, to) = #[trigger] ranges@[k];
                    &&& from < to <= i + 1
                    &&& fields(after)[k] == record.subrange(from as int, to as int)
                }) by {
                    if k < last {
                        assert(ranges@[k] == old_ranges[k]);
                        assert(fields(after)[k] == fields(before)[k]);
                    } else {
                        assert(old_ranges[k].0 == from);
                    }
                }
            }
        } else {
            ranges.push((i, i + 1));
            in_field = true;
            proof {
                assert(fields(after) == fields(before).push(seq![c]));
                assert(record.subrange(i as int, i + 1) == seq![c]);
                assert forall|k: int| 0 <= k < ranges@.len() implies ({
                    let (from, to) = #[trigger] ranges@[k];
                    &&& from < to <= i + 1
                    &&& fields(after)[k] == record.subrange(from as int, to as int)
                }) by {
                    if k < old_ranges.len() {
                        assert(ranges@[k] == old_ranges[k]);
                        assert(fields(after)[k] == fields(before)[k]);
                    }
                }
            }
        }
        i += 1;
    }
    proof {
        assert(record.take(i as int) == record);
    }
    ranges
}

/// A running process.
#[derive(Debug)]
pub struct Process {
    /// The parent's process identifier; `None` for a process without one.
    pub ppid: Option<i64>,
}

/// Why the parent of a process could not be told.
#[derive(Debug)]
pub enum Error {
    /// The status record holds fewer fields than the parent's position asks.
    InsufficientFields { pid: i64 },
    /// The parent's field does not write a number.
    ParentMalformedNumber { parent: String, pid: i64 },
    /// The status record could not be opened.
    Open { reason: String, pid: i64 },
    /// The status record could not be read.
    Read { reason: String, pid: i64 },
}

/// What a status record says of the parent: the number in its fourth
/// field, with 0 standing for no parent.
pub open spec fn parent_of(record: Seq<char>) -> Option<Option<i64>> {
    match field(record, PARENT_FIELD as nat) {
        Some(text) => match parsed_i64(text) {
            Some(ppid) => Some(if ppid == 0 { None } else { Some(ppid) }),
            None => None,
        },
        None => None,
    }
}

impl Process {
    /// Instantiates the process `pid` from the text of its status record.
    ///
    /// The parent is the fourth field, the fields being divided by white
    /// space. A parent of 0 says that the process is an orphan or the first
    /// process, and is given as `None`.
    pub fn new(pid: i64, stat: &str) -> (process: Result<Self, Error>)
        ensures
            process is Ok <==> parent_of(stat@) is Some,
            match process {
                Ok(p) => parent_of(stat@) == Some(p.ppid),
                Err(Error::InsufficientFields { pid: p }) => p == pid && fields(stat@).len()
                    <= PARENT_FIELD,
                Err(Error::ParentMalformedNumber { parent, pid: p }) => {
                    &&& p == pid
                    &&& field(stat@, PARENT_FIELD as nat) == Some(parent@)
                    &&& parsed_i64(parent@) is None
                },
                Err(_) => false,
            },
    {
        let chars = chars_of(stat);
        let ranges = field_ranges(&chars);
        if ranges.len() <= PARENT_FIELD {
            return Err(Error::InsufficientFields { pid });
        }
        let (from, to) = ranges[PARENT_FIELD];
        match parse_i64(&chars, from, to) {
            None => Err(
                Error::ParentMalformedNumber {
                    parent: String::from_str(stat.substring_char(from, to)),
                    pid,
                },
            ),
            Some(ppid) => Ok(
                Process {
                    // Parent 0 says that the process is an orphan or the
                    // first process: callers get an `Option` instead.
                    ppid: if ppid == 0 {
                        None
                    } else {
                        Some(ppid)
                    },
                },
            ),
        }
    }
}

} // verus!
