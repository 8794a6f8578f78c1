//! Finding the largest payload that one write transaction can carry.
//!
//! The planner knows nothing of how a write is encoded. It is handed the function that
//! builds the wire message of a write and measures what that function returns, so that
//! length prefixes of variable width and every fixed overhead are counted as they are.

use vstd::prelude::*;

verus! {

/// What a message builder returned, by its bytes.
pub open spec fn outcome_bytes(outcome: Option<Vec<u8>>) -> Option<Seq<u8>> {
    match outcome {
        Some(message) => Some(message@),
        None => None,
    }
}

/// Whether `wire` is a message of at most `ceiling` bytes. A write that has no wire form
/// is not within any ceiling.
pub open spec fn within(wire: Option<Seq<u8>>, ceiling: nat) -> bool {
    wire matches Some(message) && message.len() <= ceiling
}

/// The payload that the planner measures with: `len` zero bytes.
pub open spec fn zero_payload(len: nat) -> Seq<u8> {
    Seq::new(len, |i: int| 0u8)
}

/// `builder` answered the write of `len` zero bytes at offset 0 with `outcome`.
pub open spec fn measured<F: Fn(u32, Vec<u8>) -> Option<Vec<u8>>>(
    builder: &F,
    len: nat,
    outcome: Option<Vec<u8>>,
) -> bool {
    exists|payload: Vec<u8>|
        payload@ == zero_payload(len) && #[trigger] call_ensures(builder, (0u32, payload), outcome)
}

/// Measured with zero bytes at offset 0, a write of `len` bytes was within `ceiling`.
pub open spec fn measured_within<F: Fn(u32, Vec<u8>) -> Option<Vec<u8>>>(
    builder: &F,
    len: nat,
    ceiling: nat,
) -> bool {
    exists|outcome: Option<Vec<u8>>| #[trigger]
        measured(builder, len, outcome) && within(outcome_bytes(outcome), ceiling)
}

/// Measured with zero bytes at offset 0, a write of `len` bytes was not within `ceiling`.
pub open spec fn measured_beyond<F: Fn(u32, Vec<u8>) -> Option<Vec<u8>>>(
    builder: &F,
    len: nat,
    ceiling: nat,
) -> bool {
    exists|outcome: Option<Vec<u8>>| #[trigger]
        measured(builder, len, outcome) && !within(outcome_bytes(outcome), ceiling)
}

/// `size` is a payload length at which the measured messages cross `ceiling`: a write of
/// `size` bytes was within it (unless `size` is 0), and a write of one byte more was not
/// (unless `size` is the ceiling itself, which no payload is measured beyond).
pub open spec fn is_chunk_size<F: Fn(u32, Vec<u8>) -> Option<Vec<u8>>>(
    builder: &F,
    ceiling: nat,
    size: nat,
) -> bool {
    &&& size <= ceiling
    &&& size > 0 ==> measured_within(builder, size, ceiling)
    &&& size < ceiling ==> measured_beyond(builder, size + 1, ceiling)
}

/// `shorter` is a message no longer than `longer`; where the longer write has a wire form,
/// so has the shorter.
pub open spec fn no_longer(shorter: Option<Seq<u8>>, longer: Option<Seq<u8>>) -> bool {
    match longer {
        None => true,
        Some(long) => shorter matches Some(short) && short.len() <= long.len(),
    }
}

/// The builder's messages grow with the payload and with nothing else: whatever the offsets
/// and the bytes written, the message of a payload that is no longer is no longer.
pub open spec fn grows_with_payload<F: Fn(u32, Vec<u8>) -> Option<Vec<u8>>>(builder: &F) -> bool {
    forall|
        offset1: u32,
        payload1: Vec<u8>,
        outcome1: Option<Vec<u8>>,
        offset2: u32,
        payload2: Vec<u8>,
        outcome2: Option<Vec<u8>>,
    |
        #[trigger] call_ensures(builder, (offset1, payload1), outcome1) && #[trigger] call_ensures(
            builder,
            (offset2, payload2),
            outcome2,
        ) && payload1@.len() <= payload2@.len() ==> no_longer(
            outcome_bytes(outcome1),
            outcome_bytes(outcome2),
        )
}

/// A payload of `len` zero bytes.
fn zeroed(len: usize) -> (r: Vec<u8>)
    ensures
        r@ == zero_payload(len as nat),
{
    let mut payload: Vec<u8> = Vec::new();
    while payload.len() < len
        invariant
            payload@.len() <= len,
            forall|i: int| 0 <= i < payload@.len() ==> payload@[i] == 0,
        decreases len - payload@.len(),
    {
        payload.push(0);
    }
    assert(payload@ =~= zero_payload(len as nat));
    payload
}

/// Builds the message of a write of `len` zero bytes at offset 0 and says whether it is
/// within `ceiling`.
fn probe<F: Fn(u32, Vec<u8>) -> Option<Vec<u8>>>(builder: &F, len: usize, ceiling: usize) -> (fits:
    bool)
    requires
        forall|offset: u32, payload: Vec<u8>| call_requires(builder, (offset, payload)),
    ensures
        fits ==> measured_within(builder, len as nat, ceiling as nat),
        !fits ==> measured_beyond(builder, len as nat, ceiling as nat),
{
    let payload = zeroed(len);
    let ghost sent = payload;
    let outcome = builder(0, payload);
    assert(call_ensures(builder, (0u32, sent), outcome));
    assert(measured(builder, len as nat, outcome));
    match outcome {
        Some(message) => message.len() <= ceiling,
        None => false,
    }
}

/// The largest payload length whose write message, as `message_builder` builds it, is
/// within `size_ceiling` bytes; 0 where not even a write of one byte is.
///
/// The builder is called with zero bytes at offset 0 and lengths up to `size_ceiling`
/// (a message holds its payload, so no longer payload is tried). The lengths tried double
/// until a message is too long and are then halved in on the crossing, so that no payload
/// much longer than the answer is ever built.
pub fn max_chunk_size<F: Fn(u32, Vec<u8>) -> Option<Vec<u8>>>(
    message_builder: &F,
    size_ceiling: usize,
) -> (r: usize)
    requires
        forall|offset: u32, payload: Vec<u8>| call_requires(message_builder, (offset, payload)),
    ensures
        is_chunk_size(message_builder, size_ceiling as nat, r as nat),
{
    let mut low: usize = 0;
    let mut high: usize = size_ceiling;
    let mut step: usize = 1;
    let mut doubling: bool = true;
    while low < high
        invariant
            forall|offset: u32, payload: Vec<u8>| call_requires(message_builder, (offset, payload)),
            low <= high <= size_ceiling,
            step >= 1,
            low > 0 ==> measured_within(message_builder, low as nat, size_ceiling as nat),
            high < size_ceiling ==> measured_beyond(
                message_builder,
                (high + 1) as nat,
                size_ceiling as nat,
            ),
        decreases high - low,
    {
        let reach: usize = if doubling && high - low > step {
            low + step
        } else {
            high - (high - low) / 2
        };
        if probe(message_builder, reach, size_ceiling) {
            low = reach;
            if step <= usize::MAX / 2 {
                step = step * 2;
            }
        } else {
            high = reach - 1;
            doubling = false;
        }
    }
    low
}

/// Where the builder's messages grow with the payload, the chunk size is the largest
/// payload length that fits:
/// - no write of at most that many bytes, at any offset and of any content, has a message
///   beyond the ceiling;
/// - every write of more bytes, up to the ceiling, has one;
/// - and the chunk size is not zero where some write of one byte is within the ceiling.
pub proof fn lemma_chunk_size_is_largest<F: Fn(u32, Vec<u8>) -> Option<Vec<u8>>>(
    builder: &F,
    ceiling: nat,
    size: nat,
)
    requires
        grows_with_payload(builder),
        is_chunk_size(builder, ceiling, size),
    ensures
        forall|offset: u32, payload: Vec<u8>, outcome: Option<Vec<u8>>|
            #[trigger] call_ensures(builder, (offset, payload), outcome) && payload@.len() <= size
                && size > 0 ==> within(outcome_bytes(outcome), ceiling),
        forall|offset: u32, payload: Vec<u8>, outcome: Option<Vec<u8>>|
            #[trigger] call_ensures(builder, (offset, payload), outcome) && size < payload@.len()
                <= ceiling ==> !within(outcome_bytes(outcome), ceiling),
        (exists|offset: u32, payload: Vec<u8>, outcome: Option<Vec<u8>>|
            #[trigger] call_ensures(builder, (offset, payload), outcome) && payload@.len() == 1
                && 1 <= ceiling && within(outcome_bytes(outcome), ceiling)) ==> size >= 1,
{
    assert forall|offset: u32, payload: Vec<u8>, outcome: Option<Vec<u8>>|
        #[trigger] call_ensures(builder, (offset, payload), outcome) && payload@.len() <= size
            && size > 0 implies within(outcome_bytes(outcome), ceiling) by {
        let fitting = choose|fitting: Option<Vec<u8>>| #[trigger]
            measured(builder, size, fitting) && within(outcome_bytes(fitting), ceiling);
        let zeros = choose|zeros: Vec<u8>|
            zeros@ == zero_payload(size) && #[trigger] call_ensures(builder, (0u32, zeros), fitting);
        assert(no_longer(outcome_bytes(outcome), outcome_bytes(fitting)));
    }
    assert forall|offset: u32, payload: Vec<u8>, outcome: Option<Vec<u8>>|
        #[trigger] call_ensures(builder, (offset, payload), outcome) && size < payload@.len()
            <= ceiling implies !within(outcome_bytes(outcome), ceiling) by {
        let beyond = choose|beyond: Option<Vec<u8>>| #[trigger]
            measured(builder, size + 1, beyond) && !within(outcome_bytes(beyond), ceiling);
        let zeros = choose|zeros: Vec<u8>|
            zeros@ == zero_payload(size + 1) && #[trigger] call_ensures(
                builder,
                (0u32, zeros),
                beyond,
            );
        assert(no_longer(outcome_bytes(beyond), outcome_bytes(outcome)));
    }
    if size == 0 && 1 <= ceiling {
        let beyond = choose|beyond: Option<Vec<u8>>| #[trigger]
            measured(builder, 1, beyond) && !within(outcome_bytes(beyond), ceiling);
        let zeros = choose|zeros: Vec<u8>|
            zeros@ == zero_payload(1) && #[trigger] call_ensures(builder, (0u32, zeros), beyond);
        assert forall|offset: u32, payload: Vec<u8>, outcome: Option<Vec<u8>>|
            #[trigger] call_ensures(builder, (offset, payload), outcome) && payload@.len()
                == 1 implies !within(outcome_bytes(outcome), ceiling) by {
            assert(no_longer(outcome_bytes(beyond), outcome_bytes(outcome)));
        }
    }
}

} // verus!
