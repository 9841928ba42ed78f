//! The bytes of a stored task.
//!
//! A record is a header of fixed size followed by three texts in UTF-8:
//!
//! ```text
//!  0  id                 8 bytes, little endian
//!  8  created_at         8 bytes, little endian
//! 16  completed          1 byte, 0 or 1
//! 17  completed_late     1 byte, 0 or 1
//! 18  updated_at         1 byte, 0 or 1, then 8 bytes, little endian
//! 27  deadline           1 byte, 0 or 1, then 8 bytes, little endian
//! 36  length of owner    8 bytes, little endian
//! 44  length of title    8 bytes, little endian
//! 52  owner, title, description
//! ```
//!
//! A time stamp that is absent is written as nine zero bytes. The description
//! takes what is left of the record.

use crate::task::{Task, TaskView};
use vstd::bytes::*;
use vstd::prelude::*;
use vstd::slice::*;
use vstd::string::*;
use vstd::utf8::*;

verus! {

/// The size of the largest record that the store keeps.
pub const MAX_RECORD_SIZE: usize = 1024;

/// The size of the part of a record that comes before its texts.
pub const HEADER_SIZE: usize = 52;

/// The byte that stands for a truth value.
pub open spec fn flag_byte(flag: bool) -> u8 {
    if flag {
        1
    } else {
        0
    }
}

/// The nine bytes that stand for a time stamp that may be absent.
pub open spec fn stamp_bytes(stamp: Option<u64>) -> Seq<u8> {
    match stamp {
        Some(at) => seq![1u8] + spec_u64_to_le_bytes(at),
        None => seq![0u8] + spec_u64_to_le_bytes(0),
    }
}

/// The number of bytes of the record of a task with these texts.
pub open spec fn record_size(owner: Seq<char>, title: Seq<char>, description: Seq<char>) -> nat {
    HEADER_SIZE as nat + encode_utf8(owner).len() + encode_utf8(title).len() + encode_utf8(
        description,
    ).len()
}

/// The header of the record of `task`.
pub open spec fn record_header(task: TaskView) -> Seq<u8> {
    spec_u64_to_le_bytes(task.id) + spec_u64_to_le_bytes(task.created_at) + seq![
        flag_byte(task.completed),
        flag_byte(task.completed_late),
    ] + stamp_bytes(task.updated_at) + stamp_bytes(task.deadline) + spec_u64_to_le_bytes(
        encode_utf8(task.owner).len() as u64,
    ) + spec_u64_to_le_bytes(encode_utf8(task.title).len() as u64)
}

/// The record of `task`.
pub open spec fn record_bytes(task: TaskView) -> Seq<u8> {
    record_header(task) + encode_utf8(task.owner) + encode_utf8(task.title) + encode_utf8(
        task.description,
    )
}

/// The truth value that a byte stands for, if it stands for one.
pub open spec fn parse_flag(byte: u8) -> Option<bool> {
    if byte == 0 {
        Some(false)
    } else if byte == 1 {
        Some(true)
    } else {
        None
    }
}

/// The time stamp that nine bytes stand for, if they stand for one.
pub open spec fn parse_stamp(bytes: Seq<u8>) -> Option<Option<u64>> {
    let at = spec_u64_from_le_bytes(bytes.subrange(1, 9));
    if bytes[0] == 1 {
        Some(Some(at))
    } else if bytes[0] == 0 && at == 0 {
        Some(None)
    } else {
        None
    }
}

/// The text that bytes hold in UTF-8, if they hold one.
pub open spec fn parse_text(bytes: Seq<u8>) -> Option<Seq<char>> {
    if valid_utf8(bytes) {
        Some(decode_utf8(bytes))
    } else {
        None
    }
}

/// The task that `bytes` is the record of, if it is the record of one.
pub open spec fn parse_record(bytes: Seq<u8>) -> Option<TaskView> {
    if bytes.len() < HEADER_SIZE {
        None
    } else {
        let owner_end = HEADER_SIZE + spec_u64_from_le_bytes(bytes.subrange(36, 44));
        let title_end = owner_end + spec_u64_from_le_bytes(bytes.subrange(44, 52));
        if bytes.len() < title_end {
            None
        } else {
            match (
                parse_flag(bytes[16]),
                parse_flag(bytes[17]),
                parse_stamp(bytes.subrange(18, 27)),
                parse_stamp(bytes.subrange(27, 36)),
                parse_text(bytes.subrange(HEADER_SIZE as int, owner_end)),
                parse_text(bytes.subrange(owner_end, title_end)),
                parse_text(bytes.subrange(title_end, bytes.len() as int)),
            ) {
                (
                    Some(completed),
                    Some(completed_late),
                    Some(updated_at),
                    Some(deadline),
                    Some(owner),
                    Some(title),
                    Some(description),
                ) => Some(
                    TaskView {
                        owner,
                        id: spec_u64_from_le_bytes(bytes.subrange(0, 8)),
                        title,
                        description,
                        completed,
                        created_at: spec_u64_from_le_bytes(bytes.subrange(8, 16)),
                        updated_at,
                        deadline,
                        completed_late,
                    },
                ),
                _ => None,
            }
        }
    }
}

/// The nine bytes of a time stamp stand for that time stamp.
pub proof fn lemma_parse_stamp_bytes(stamp: Option<u64>)
    ensures
        stamp_bytes(stamp).len() == 9,
        parse_stamp(stamp_bytes(stamp)) == Some(stamp),
{
    lemma_auto_spec_u64_to_from_le_bytes();
    let bytes = stamp_bytes(stamp);
    match stamp {
        Some(at) => {
            assert(bytes.subrange(1, 9) =~= spec_u64_to_le_bytes(at));
        },
        None => {
            assert(bytes.subrange(1, 9) =~= spec_u64_to_le_bytes(0));
        },
    }
}

/// A record stands for the task it was made of: parsing undoes encoding.
/// This holds of every task whose texts have lengths that a `u64` can hold,
/// as those of every `Task` do.
pub proof fn lemma_parse_record_bytes(task: TaskView)
    requires
        encode_utf8(task.owner).len() <= u64::MAX,
        encode_utf8(task.title).len() <= u64::MAX,
    ensures
        record_bytes(task).len() == record_size(task.owner, task.title, task.description),
        parse_record(record_bytes(task)) == Some(task),
{
    lemma_auto_spec_u64_to_from_le_bytes();
    lemma_parse_stamp_bytes(task.updated_at);
    lemma_parse_stamp_bytes(task.deadline);
    encode_utf8_valid_utf8(task.owner);
    encode_utf8_valid_utf8(task.title);
    encode_utf8_valid_utf8(task.description);
    encode_utf8_decode_utf8(task.owner);
    encode_utf8_decode_utf8(task.title);
    encode_utf8_decode_utf8(task.description);
    let bytes = record_bytes(task);
    let owner = encode_utf8(task.owner);
    let title = encode_utf8(task.title);
    let description = encode_utf8(task.description);
    let owner_end = HEADER_SIZE + owner.len();
    let title_end = owner_end + title.len();
    assert(record_header(task).len() == HEADER_SIZE);
    assert(bytes.subrange(0, 8) =~= spec_u64_to_le_bytes(task.id));
    assert(bytes.subrange(8, 16) =~= spec_u64_to_le_bytes(task.created_at));
    assert(bytes[16] == flag_byte(task.completed));
    assert(bytes[17] == flag_byte(task.completed_late));
    assert(bytes.subrange(18, 27) =~= stamp_bytes(task.updated_at));
    assert(bytes.subrange(27, 36) =~= stamp_bytes(task.deadline));
    assert(bytes.subrange(36, 44) =~= spec_u64_to_le_bytes(owner.len() as u64));
    assert(bytes.subrange(44, 52) =~= spec_u64_to_le_bytes(title.len() as u64));
    assert(bytes.subrange(HEADER_SIZE as int, owner_end) =~= owner);
    assert(bytes.subrange(owner_end, title_end) =~= title);
    assert(bytes.subrange(title_end, bytes.len() as int) =~= description);
}

/// Nine bytes that stand for a time stamp are the bytes of that time stamp.
pub proof fn lemma_stamp_bytes_parse(bytes: Seq<u8>)
    requires
        bytes.len() == 9,
        parse_stamp(bytes) is Some,
    ensures
        stamp_bytes(parse_stamp(bytes).unwrap()) == bytes,
{
    lemma_auto_spec_u64_to_from_le_bytes();
    let at = spec_u64_from_le_bytes(bytes.subrange(1, 9));
    assert(spec_u64_to_le_bytes(at) == bytes.subrange(1, 9));
    assert(stamp_bytes(parse_stamp(bytes).unwrap()) =~= bytes);
}

/// Bytes that parse as a record are the record of the task they stand for:
/// a task has one record, and no other bytes stand for it.
pub proof fn lemma_record_bytes_parse(bytes: Seq<u8>)
    requires
        parse_record(bytes) is Some,
    ensures
        record_bytes(parse_record(bytes).unwrap()) == bytes,
{
    lemma_auto_spec_u64_to_from_le_bytes();
    let task = parse_record(bytes).unwrap();
    let owner_end = HEADER_SIZE + spec_u64_from_le_bytes(bytes.subrange(36, 44));
    let title_end = owner_end + spec_u64_from_le_bytes(bytes.subrange(44, 52));
    let owner = bytes.subrange(HEADER_SIZE as int, owner_end);
    let title = bytes.subrange(owner_end, title_end);
    let description = bytes.subrange(title_end, bytes.len() as int);
    decode_utf8_encode_utf8(owner);
    decode_utf8_encode_utf8(title);
    decode_utf8_encode_utf8(description);
    lemma_stamp_bytes_parse(bytes.subrange(18, 27));
    lemma_stamp_bytes_parse(bytes.subrange(27, 36));
    assert(spec_u64_to_le_bytes(task.id) == bytes.subrange(0, 8));
    assert(spec_u64_to_le_bytes(task.created_at) == bytes.subrange(8, 16));
    assert(spec_u64_to_le_bytes(owner.len() as u64) == bytes.subrange(36, 44));
    assert(spec_u64_to_le_bytes(title.len() as u64) == bytes.subrange(44, 52));
    assert(record_header(task) =~= bytes.subrange(0, HEADER_SIZE as int));
    assert(record_bytes(task) =~= bytes);
}

/// Calls `String::from_utf8`. Claims what its documentation says: the result
/// is a string exactly when the bytes are valid UTF-8, and the string is then
/// the text that the bytes encode.
#[verifier::external_body]
pub(crate) fn text_from_utf8(bytes: Vec<u8>) -> (text: Option<String>)
    ensures
        match text {
            Some(decoded) => valid_utf8(bytes@) && decoded@ == decode_utf8(bytes@),
            None => !valid_utf8(bytes@),
        },
{
    String::from_utf8(bytes).ok()
}

/// Whether a task with these texts has a record that the store keeps.
pub fn fits_record(owner: &String, title: &String, description: &String) -> (fits: bool)
    ensures
        fits == (record_size(owner@, title@, description@) <= MAX_RECORD_SIZE),
{
    let owner_len = owner.as_str().as_bytes().len();
    let title_len = title.as_str().as_bytes().len();
    let description_len = description.as_str().as_bytes().len();
    let room = MAX_RECORD_SIZE - HEADER_SIZE;
    if owner_len > room {
        return false;
    }
    if title_len > room - owner_len {
        return false;
    }
    description_len <= room - owner_len - title_len
}

fn push_flag(out: &mut Vec<u8>, flag: bool)
    ensures
        final(out)@ == old(out)@.push(flag_byte(flag)),
{
    if flag {
        out.push(1);
    } else {
        out.push(0);
    }
}

fn push_stamp(out: &mut Vec<u8>, stamp: Option<u64>)
    ensures
        final(out)@ == old(out)@ + stamp_bytes(stamp),
{
    let mut at = match stamp {
        Some(at) => {
            out.push(1);
            u64_to_le_bytes(at)
        },
        None => {
            out.push(0);
            u64_to_le_bytes(0)
        },
    };
    out.append(&mut at);
    assert(out@ =~= old(out)@ + stamp_bytes(stamp));
}

fn push_text(out: &mut Vec<u8>, text: &String)
    ensures
        final(out)@ == old(out)@ + encode_utf8(text@),
{
    let mut bytes = slice_to_vec(text.as_str().as_bytes());
    out.append(&mut bytes);
}

fn read_flag(byte: u8) -> (flag: Option<bool>)
    ensures
        flag == parse_flag(byte),
{
    if byte == 0 {
        Some(false)
    } else if byte == 1 {
        Some(true)
    } else {
        None
    }
}

fn read_stamp(bytes: &[u8]) -> (stamp: Option<Option<u64>>)
    requires
        bytes@.len() == 9,
    ensures
        stamp == parse_stamp(bytes@),
{
    let at = u64_from_le_bytes(slice_subrange(bytes, 1, 9));
    let tag = bytes[0];
    if tag == 1 {
        Some(Some(at))
    } else if tag == 0 && at == 0 {
        Some(None)
    } else {
        None
    }
}

fn read_text(bytes: &[u8]) -> (text: Option<String>)
    ensures
        match text {
            Some(decoded) => parse_text(bytes@) == Some(decoded@),
            None => parse_text(bytes@) is None,
        },
{
    text_from_utf8(slice_to_vec(bytes))
}

impl Task {
    /// The record of the task.
    pub fn to_bytes(&self) -> (bytes: Vec<u8>)
        ensures
            bytes@ == record_bytes(self@),
            bytes@.len() == record_size(self@.owner, self@.title, self@.description),
            parse_record(bytes@) == Some(self@),
    {
        let owner_len = self.owner.as_str().as_bytes().len();
        let title_len = self.title.as_str().as_bytes().len();
        proof {
            lemma_parse_record_bytes(self@);
        }
        let mut out: Vec<u8> = Vec::new();
        let mut id = u64_to_le_bytes(self.id);
        out.append(&mut id);
        let mut created_at = u64_to_le_bytes(self.created_at);
        out.append(&mut created_at);
        push_flag(&mut out, self.completed);
        push_flag(&mut out, self.completed_late);
        push_stamp(&mut out, self.updated_at);
        push_stamp(&mut out, self.deadline);
        let mut owner_size = u64_to_le_bytes(owner_len as u64);
        out.append(&mut owner_size);
        let mut title_size = u64_to_le_bytes(title_len as u64);
        out.append(&mut title_size);
        assert(out@ =~= record_header(self@));
        push_text(&mut out, &self.owner);
        push_text(&mut out, &self.title);
        push_text(&mut out, &self.description);
        out
    }

    /// The task that `bytes` is the record of, if it is the record of one.
    pub fn from_bytes(bytes: &[u8]) -> (task: Option<Task>)
        ensures
            match task {
                Some(parsed) => parse_record(bytes@) == Some(parsed@),
                None => parse_record(bytes@) is None,
            },
    {
        let len = bytes.len();
        if len < HEADER_SIZE {
            return None;
        }
        let owner_len = u64_from_le_bytes(slice_subrange(bytes, 36, 44));
        let title_len = u64_from_le_bytes(slice_subrange(bytes, 44, 52));
        if owner_len > (len - HEADER_SIZE) as u64 {
            return None;
        }
        let owner_end = HEADER_SIZE + owner_len as usize;
        if title_len > (len - owner_end) as u64 {
            return None;
        }
        let title_end = owner_end + title_len as usize;
        let completed = read_flag(bytes[16]);
        let completed_late = read_flag(bytes[17]);
        let updated_at = read_stamp(slice_subrange(bytes, 18, 27));
        let deadline = read_stamp(slice_subrange(bytes, 27, 36));
        let owner = read_text(slice_subrange(bytes, HEADER_SIZE, owner_end));
        let title = read_text(slice_subrange(bytes, owner_end, title_end));
        let description = read_text(slice_subrange(bytes, title_end, len));
        match (completed, completed_late, updated_at, deadline, owner, title, description) {
            (
                Some(completed),
                Some(completed_late),
                Some(updated_at),
                Some(deadline),
                Some(owner),
                Some(title),
                Some(description),
            ) => Some(
                Task {
                    owner,
                    id: u64_from_le_bytes(slice_subrange(bytes, 0, 8)),
                    title,
                    description,
                    completed,
                    created_at: u64_from_le_bytes(slice_subrange(bytes, 8, 16)),
                    updated_at,
                    deadline,
                    completed_late,
                },
            ),
            _ => None,
        }
    }
}

} // verus!
