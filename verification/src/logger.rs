//! The hardware observer's logger: which records it keeps, and how a record's
//! text is cut into the 16-byte strings that its channel carries to the host.

use vstd::prelude::*;
use vstd::string::StringSliceAdditionalSpecFns;
use vstd::utf8::{
    encode_utf8_valid_utf8, is_char_boundary, is_char_boundary_iff_not_is_continuation_byte,
    is_char_boundary_start_end_of_seq, valid_utf8, valid_utf8_split,
};

verus! {

/// The severity of a log record, most severe first.
#[derive(Debug, Clone, Copy, PartialEq, Eq, Structural)]
pub enum LogLevel {
    Error,
    Warn,
    Info,
    Debug,
    Trace,
}

/// The rank of a level: more verbose levels rank higher.
pub open spec fn level_rank(level: LogLevel) -> nat {
    match level {
        LogLevel::Error => 1,
        LogLevel::Warn => 2,
        LogLevel::Info => 3,
        LogLevel::Debug => 4,
        LogLevel::Trace => 5,
    }
}

/// Records at `Info` and more severe levels are logged; `Debug` and `Trace` are dropped.
pub fn log_enabled(level: LogLevel) -> (enabled: bool)
    ensures
        enabled == (level_rank(level) <= level_rank(LogLevel::Info)),
{
    match level {
        LogLevel::Error | LogLevel::Warn | LogLevel::Info => true,
        LogLevel::Debug | LogLevel::Trace => false,
    }
}

/// The most bytes that one message of the log channel holds.
pub open spec fn chunk_capacity() -> int {
    16
}

/// How many messages a text of `len` bytes is sent as: one per started
/// 16 bytes, and one more, empty, when `len` is a multiple of 16.
pub open spec fn chunk_count(len: int) -> int {
    len / 16 + 1
}

/// The bytes of the `k`-th message of `bytes`.
pub open spec fn chunk_bytes(bytes: Seq<u8>, k: int) -> Seq<u8> {
    let start = 16 * k;
    let end = if bytes.len() < start + 16 {
        bytes.len() as int
    } else {
        start + 16
    };
    bytes.subrange(start, end)
}

/// The first `n` messages of `bytes`, put back together.
pub open spec fn joined_chunks(bytes: Seq<u8>, n: int) -> Seq<u8>
    decreases n,
{
    if n <= 0 {
        Seq::empty()
    } else {
        joined_chunks(bytes, n - 1) + chunk_bytes(bytes, n - 1)
    }
}

/// Every multiple of 16 up to the length is a character boundary of `bytes`:
/// the text can be cut into 16-byte pieces without splitting a character.
pub open spec fn cuttable(bytes: Seq<u8>) -> bool {
    forall|k: int| 0 <= k && 16 * k <= bytes.len() ==> is_char_boundary(bytes, #[trigger] (16 * k))
}

/// A character boundary of a text, seen from an earlier character boundary.
proof fn lemma_boundary_in_suffix(bytes: Seq<u8>, start: int, j: int)
    requires
        valid_utf8(bytes),
        0 <= start,
        0 <= j,
        start + j <= bytes.len(),
        is_char_boundary(bytes, start),
        is_char_boundary(bytes, start + j),
    ensures
        is_char_boundary(bytes.subrange(start, bytes.len() as int), j),
{
    let rest = bytes.subrange(start, bytes.len() as int);
    valid_utf8_split(bytes, start);
    if start + j == bytes.len() {
        is_char_boundary_start_end_of_seq(rest);
    } else {
        is_char_boundary_iff_not_is_continuation_byte(rest, j);
        is_char_boundary_iff_not_is_continuation_byte(bytes, start + j);
    }
}

/// Cuts the text of a log record into the messages of the log channel: the
/// pieces `s[16k .. min(len, 16k + 16)]` for `k = 0, 1, ...` while `16k <= len`.
/// The cuts must fall between characters.
pub fn log_chunks(s: &str) -> (chunks: Vec<&str>)
    requires
        cuttable(s.spec_bytes()),
    ensures
        chunks.len() == chunk_count(s.spec_bytes().len() as int),
        forall|k: int|
            0 <= k < chunks.len() ==> (#[trigger] chunks[k]).spec_bytes() == chunk_bytes(
                s.spec_bytes(),
                k,
            ),
{
    let ghost bytes = s.spec_bytes();
    proof {
        encode_utf8_valid_utf8(s@);
    }
    let len: usize = s.as_bytes().len();
    let mut chunks: Vec<&str> = Vec::new();
    let mut start: usize = 0;
    loop
        invariant_except_break
            start <= len,
            start == 16 * chunks.len(),
        invariant
            bytes == s.spec_bytes(),
            valid_utf8(bytes),
            cuttable(bytes),
            len == bytes.len(),
            forall|k: int|
                0 <= k < chunks.len() ==> (#[trigger] chunks[k]).spec_bytes() == chunk_bytes(
                    bytes,
                    k,
                ),
        ensures
            chunks.len() == chunk_count(len as int),
            forall|k: int|
                0 <= k < chunks.len() ==> (#[trigger] chunks[k]).spec_bytes() == chunk_bytes(
                    bytes,
                    k,
                ),
        decreases len - start,
    {
        let last = len - start < 16;
        let end: usize = if last {
            len
        } else {
            start + 16
        };
        proof {
            let k = chunks.len() as int;
            assert(is_char_boundary(bytes, 16 * k));
            if !last {
                assert(is_char_boundary(bytes, 16 * (k + 1)));
                assert(16 * (k + 1) == end);
                lemma_boundary_in_suffix(bytes, start as int, (end - start) as int);
            } else {
                is_char_boundary_start_end_of_seq(bytes);
                lemma_boundary_in_suffix(bytes, start as int, (end - start) as int);
            }
        }
        let (_, rest) = s.split_at(start);
        let (chunk, _) = rest.split_at(end - start);
        proof {
            assert(chunk.spec_bytes() =~= chunk_bytes(bytes, chunks.len() as int));
        }
        chunks.push(chunk);
        if last {
            proof {
                assert(chunks.len() == len as int / 16 + 1);
            }
            break;
        }
        start = start + 16;
    }
    chunks
}

/// The messages of a text, put back together in order, give the text back,
/// and none holds more than 16 bytes.
pub proof fn lemma_chunks_rejoin(bytes: Seq<u8>)
    ensures
        joined_chunks(bytes, chunk_count(bytes.len() as int)) =~= bytes,
        forall|k: int|
            0 <= k < chunk_count(bytes.len() as int) ==> (#[trigger] chunk_bytes(bytes, k)).len()
                <= chunk_capacity(),
{
    let n = chunk_count(bytes.len() as int);
    lemma_joined_prefix(bytes, n);
    assert(16 * (n - 1) <= bytes.len() < 16 * n);
}

/// The first `n` messages put together are the first `16n` bytes (or all of them).
proof fn lemma_joined_prefix(bytes: Seq<u8>, n: int)
    requires
        0 <= n,
        16 * (n - 1) <= bytes.len(),
    ensures
        joined_chunks(bytes, n) =~= bytes.subrange(
            0,
            if bytes.len() < 16 * n {
                bytes.len() as int
            } else {
                16 * n
            },
        ),
    decreases n,
{
    if n > 0 {
        lemma_joined_prefix(bytes, n - 1);
    }
}

} // verus!
