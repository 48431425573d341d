//! Storage of subscribed log channels.
//!
//! Discord channel ids are unsigned 64-bit numbers, while the `log_channels`
//! table stores them in a signed 64-bit column. An id is kept by its bit
//! pattern: the row holds the two's-complement reading of the id's 64 bits.

use vstd::prelude::*;

verus! {

/// The signed value whose 64-bit two's-complement pattern equals that of `channel`.
pub open spec fn row_of_channel(channel: u64) -> int {
    if channel <= i64::MAX {
        channel as int
    } else {
        channel - 0x1_0000_0000_0000_0000
    }
}

/// The unsigned value whose 64-bit pattern equals the two's-complement pattern of `row`.
pub open spec fn channel_of_row(row: i64) -> int {
    if row >= 0 {
        row as int
    } else {
        row + 0x1_0000_0000_0000_0000
    }
}

/// The value stored in the `channel_id` column for a channel id.
pub fn channel_to_row(channel: u64) -> (row: i64)
    ensures
        row as int == row_of_channel(channel),
{
    if channel <= i64::MAX as u64 {
        channel as i64
    } else {
        -((u64::MAX - channel) as i64) - 1
    }
}

/// The channel id that a stored `channel_id` value stands for.
pub fn row_to_channel(row: i64) -> (channel: u64)
    ensures
        channel as int == channel_of_row(row),
{
    if row >= 0 {
        row as u64
    } else {
        u64::MAX - ((-(row + 1)) as u64)
    }
}

/// The channel ids of the rows of `log_channels`, in the order of the rows.
pub fn channel_ids_from_rows(rows: &Vec<i64>) -> (ids: Vec<u64>)
    ensures
        ids.len() == rows.len(),
        forall|i: int| 0 <= i < rows.len() ==> ids[i] as int == channel_of_row(#[trigger] rows[i]),
{
    let mut ids: Vec<u64> = Vec::new();
    let mut i: usize = 0;
    while i < rows.len()
        invariant
            i <= rows.len(),
            ids.len() == i,
            forall|j: int| 0 <= j < i ==> ids[j] as int == channel_of_row(#[trigger] rows[j]),
        decreases rows.len() - i,
    {
        ids.push(row_to_channel(rows[i]));
        i = i + 1;
    }
    ids
}

/// The message with which SQLite refuses a channel that is already in `log_channels`.
pub open spec fn duplicate_channel_message() -> Seq<char> {
    "UNIQUE constraint failed: log_channels.channel_id"@
}

/// Whether a database error message says that the channel was already subscribed.
pub fn is_duplicate_subscription(message: &str) -> (dup: bool)
    ensures
        dup == (message@ == duplicate_channel_message()),
{
    let given = message.to_owned();
    let expected = "UNIQUE constraint failed: log_channels.channel_id".to_owned();
    given == expected
}

/// The outcome of subscribing a channel, given the outcome of the insert and,
/// when the insert failed with a database error, that error's message: a
/// subscription that already existed counts as done; any other failure is passed on.
pub fn subscription_result<E>(insert: Result<(), E>, database_message: Option<&str>) -> (r: Result<
    (),
    E,
>)
    ensures
        match insert {
            Ok(()) => r is Ok,
            Err(e) => match database_message {
                Some(m) => if m@ == duplicate_channel_message() {
                    r is Ok
                } else {
                    r == Err::<(), E>(e)
                },
                None => r == Err::<(), E>(e),
            },
        },
{
    match insert {
        Ok(()) => Ok(()),
        Err(e) => {
            match database_message {
                Some(m) => {
                    if is_duplicate_subscription(m) {
                        Ok(())
                    } else {
                        Err(e)
                    }
                },
                None => Err(e),
            }
        },
    }
}

/// A channel id survives being stored and read back: the stored value is a
/// signed 64-bit number and reading it gives back exactly the id that was written.
pub proof fn lemma_channel_row_round_trip(channel: u64)
    ensures
        i64::MIN <= row_of_channel(channel) <= i64::MAX,
        channel_of_row(row_of_channel(channel) as i64) == channel,
{
}

/// Every stored value is read as some channel id, and storing that id again
/// gives the same stored value: the encoding is a bijection.
pub proof fn lemma_row_channel_round_trip(row: i64)
    ensures
        0 <= channel_of_row(row) <= u64::MAX,
        row_of_channel(channel_of_row(row) as u64) == row,
{
}

/// Distinct channels are stored as distinct values.
pub proof fn lemma_rows_distinct(a: u64, b: u64)
    requires
        a != b,
    ensures
        row_of_channel(a) != row_of_channel(b),
{
}

} // verus!
