//! The staging buffer and the program account, as the deployer reasons about them: how
//! large they are, what a write does to the staged bytes, and what finalization makes of
//! them.

use crate::chunks::{chunk_bytes, lemma_chunk_bounds, plannable, planned_chunks, Chunk};
use solana_sdk::bpf_loader_upgradeable::UpgradeableLoaderState;
use vstd::prelude::*;

verus! {

/// Bytes that the loader keeps in front of the program bytes of an account that holds a
/// program's data.
pub const PROGRAM_DATA_HEADER_LEN: usize = 45;

/// Bytes of a program account: it holds no code, only where the code is kept.
pub const PROGRAM_ACCOUNT_LEN: usize = 36;

/// Size of an account that holds `program_len` program bytes behind the loader's header;
/// the largest `usize` where the sum does not fit.
pub open spec fn program_data_len(program_len: nat) -> nat {
    if PROGRAM_DATA_HEADER_LEN + program_len <= usize::MAX {
        (PROGRAM_DATA_HEADER_LEN + program_len) as nat
    } else {
        usize::MAX as nat
    }
}

/// `solana_sdk::bpf_loader_upgradeable::UpgradeableLoaderState::size_of_programdata`: the
/// header's 45 bytes and `program_len`, added without wrapping.
#[verifier::external_body]
fn size_of_programdata(program_len: usize) -> (r: usize)
    ensures
        r == program_data_len(program_len as nat),
{
    UpgradeableLoaderState::size_of_programdata(program_len)
}

/// `solana_sdk::bpf_loader_upgradeable::UpgradeableLoaderState::size_of_program`: the
/// constant 36.
#[verifier::external_body]
fn size_of_program() -> (r: usize)
    ensures
        r == PROGRAM_ACCOUNT_LEN,
{
    UpgradeableLoaderState::size_of_program()
}

/// The capacity that the staging buffer of an image of `image_len` bytes is funded for:
/// the loader's header and the image.
pub fn staging_capacity(image_len: usize) -> (r: usize)
    ensures
        r == program_data_len(image_len as nat),
        image_len <= usize::MAX - PROGRAM_DATA_HEADER_LEN ==> r == PROGRAM_DATA_HEADER_LEN
            + image_len,
{
    size_of_programdata(image_len)
}

/// The size that the program account is funded for. It does not depend on the image.
pub fn program_account_size() -> (r: usize)
    ensures
        r == PROGRAM_ACCOUNT_LEN,
{
    size_of_program()
}

/// What the staged bytes are after `payload` is written at `offset`: the bytes from
/// `offset` on are replaced, all others stay. A write that does not lie inside the buffer
/// changes nothing.
pub open spec fn apply_write(content: Seq<u8>, offset: nat, payload: Seq<u8>) -> Seq<u8> {
    if offset + payload.len() <= content.len() {
        content.take(offset as int) + payload + content.skip((offset + payload.len()) as int)
    } else {
        content
    }
}

/// What the staged bytes are after the first `count` chunks of `chunks` are written, each
/// with its bytes of `image`.
pub open spec fn stage(content: Seq<u8>, image: Seq<u8>, chunks: Seq<Chunk>, count: nat) -> Seq<u8>
    decreases count,
{
    if count == 0 || count > chunks.len() {
        content
    } else {
        let chunk = chunks[count - 1];
        apply_write(
            stage(content, image, chunks, (count - 1) as nat),
            chunk.offset as nat,
            chunk_bytes(image, chunk),
        )
    }
}

/// Idempotence: a write that is issued again, with the same offset and the same payload,
/// leaves the staged bytes as the first one left them.
pub proof fn lemma_write_is_idempotent(content: Seq<u8>, offset: nat, payload: Seq<u8>)
    ensures
        apply_write(apply_write(content, offset, payload), offset, payload) == apply_write(
            content,
            offset,
            payload,
        ),
        apply_write(content, offset, payload).len() == content.len(),
{
    let once = apply_write(content, offset, payload);
    assert(once.len() == content.len());
    assert(apply_write(once, offset, payload) =~= once);
}

/// Writes to byte ranges that do not overlap can be confirmed in either order: the staged
/// bytes are the same.
pub proof fn lemma_disjoint_writes_commute(
    content: Seq<u8>,
    offset1: nat,
    payload1: Seq<u8>,
    offset2: nat,
    payload2: Seq<u8>,
)
    requires
        offset1 + payload1.len() <= offset2 || offset2 + payload2.len() <= offset1,
    ensures
        apply_write(apply_write(content, offset1, payload1), offset2, payload2) == apply_write(
            apply_write(content, offset2, payload2),
            offset1,
            payload1,
        ),
{
    assert(apply_write(apply_write(content, offset1, payload1), offset2, payload2)
        =~= apply_write(apply_write(content, offset2, payload2), offset1, payload1));
}

/// After the first `count` planned chunks are written, the staged bytes begin with the
/// image's bytes as far as those chunks reach, and are untouched behind them.
proof fn lemma_stage_prefix(content: Seq<u8>, image: Seq<u8>, chunk_size: nat, count: nat)
    requires
        plannable(image.len(), chunk_size),
        chunk_size <= usize::MAX,
        content.len() == image.len(),
        count <= planned_chunks(image.len(), chunk_size).len(),
    ensures
        ({
            let chunks = planned_chunks(image.len(), chunk_size);
            let staged = stage(content, image, chunks, count);
            let reach = if count == chunks.len() {
                image.len() as int
            } else {
                (count * chunk_size) as int
            };
            &&& 0 <= reach <= image.len()
            &&& staged.len() == image.len()
            &&& staged.take(reach) == image.take(reach)
            &&& staged.skip(reach) == content.skip(reach)
        }),
    decreases count,
{
    let chunks = planned_chunks(image.len(), chunk_size);
    let staged = stage(content, image, chunks, count);
    if count == 0 {
        assert(0 * chunk_size == 0) by (nonlinear_arith);
        assert(staged.take(0) =~= image.take(0));
        if chunks.len() == 0 {
            assert(image.len() == 0);
        }
    } else {
        let before = (count - 1) as nat;
        lemma_stage_prefix(content, image, chunk_size, before);
        lemma_chunk_bounds(image.len(), chunk_size, before);
        let earlier = stage(content, image, chunks, before);
        let chunk = chunks[before as int];
        let start = before * chunk_size;
        assert(chunk.offset == start);
        let reach = if count == chunks.len() {
            image.len() as int
        } else {
            (count * chunk_size) as int
        };
        assert(start + chunk.len == reach);
        assert(earlier.take(start as int) == image.take(start as int));
        assert forall|i: int| 0 <= i < reach implies staged[i] == image[i] by {
            if i < start {
                assert(earlier.take(start as int)[i] == image.take(start as int)[i]);
            }
        }
        assert(staged.take(reach) =~= image.take(reach));
        assert forall|i: int| reach <= i < image.len() implies staged[i] == content[i] by {
            assert(earlier.skip(start as int)[i - start] == content.skip(start as int)[i - start]);
        }
        assert(staged.skip(reach) =~= content.skip(reach));
    }
}

/// Once every planned chunk is written, the staged bytes are the image, whatever the
/// buffer held before.
pub proof fn lemma_staged_image_is_complete(content: Seq<u8>, image: Seq<u8>, chunk_size: nat)
    requires
        plannable(image.len(), chunk_size),
        chunk_size <= usize::MAX,
        content.len() == image.len(),
    ensures
        stage(
            content,
            image,
            planned_chunks(image.len(), chunk_size),
            planned_chunks(image.len(), chunk_size).len(),
        ) == image,
{
    let chunks = planned_chunks(image.len(), chunk_size);
    lemma_stage_prefix(content, image, chunk_size, chunks.len());
    let staged = stage(content, image, chunks, chunks.len());
    assert(staged.take(image.len() as int) =~= staged);
    assert(image.take(image.len() as int) =~= image);
}

/// The program bytes of a staging buffer. A buffer is created zeroed, is written at
/// offsets, and is given up when it is promoted.
#[derive(Debug, PartialEq, Eq)]
pub struct StagingBuffer {
    content: Vec<u8>,
}

impl View for StagingBuffer {
    type V = Seq<u8>;

    closed spec fn view(&self) -> Seq<u8> {
        self.content@
    }
}

/// A write did not lie inside the buffer: it would have ended at byte `end` of `len`.
#[derive(Clone, Copy, Debug, PartialEq, Eq, Structural)]
pub struct OutOfBounds {
    pub end: usize,
    pub len: usize,
}

impl StagingBuffer {
    /// A buffer for `program_len` program bytes, all zero.
    pub fn create(program_len: usize) -> (r: StagingBuffer)
        ensures
            r@.len() == program_len,
            forall|i: int| 0 <= i < program_len ==> r@[i] == 0,
    {
        let mut content: Vec<u8> = Vec::new();
        while content.len() < program_len
            invariant
                content@.len() <= program_len,
                forall|i: int| 0 <= i < content@.len() ==> content@[i] == 0,
            decreases program_len - content@.len(),
        {
            content.push(0);
        }
        StagingBuffer { content }
    }

    /// Number of program bytes that the buffer holds.
    pub fn len(&self) -> (r: usize)
        ensures
            r == self@.len(),
    {
        self.content.len()
    }

    /// The staged bytes.
    pub fn content(&self) -> (r: &Vec<u8>)
        ensures
            r@ == self@,
    {
        &self.content
    }

    /// Writes `payload` at `offset`. A write that does not lie inside the buffer is
    /// refused and changes nothing.
    pub fn write(&mut self, offset: u32, payload: &Vec<u8>) -> (r: Result<(), OutOfBounds>)
        ensures
            r is Ok <==> offset + payload@.len() <= old(self)@.len(),
            final(self)@ == apply_write(old(self)@, offset as nat, payload@),
            r matches Err(e) ==> e.len == old(self)@.len() && e.end == (if offset + payload@.len()
                <= usize::MAX {
                offset + payload@.len()
            } else {
                usize::MAX as int
            }),
    {
        let start: usize = offset as usize;
        let len: usize = self.content.len();
        if start > len || payload.len() > len - start {
            let end: usize = if payload.len() <= usize::MAX - start {
                start + payload.len()
            } else {
                usize::MAX
            };
            return Err(OutOfBounds { end, len });
        }
        let mut at: usize = 0;
        while at < payload.len()
            invariant
                start + payload@.len() <= len,
                len == old(self)@.len(),
                self.content@.len() == len,
                at <= payload@.len(),
                forall|i: int| 0 <= i < len ==> self.content@[i] == (if start <= i < start + at {
                    payload@[i - start]
                } else {
                    old(self)@[i]
                }),
            decreases payload@.len() - at,
        {
            self.content[start + at] = payload[at];
            at = at + 1;
        }
        assert(self.content@ =~= apply_write(old(self)@, offset as nat, payload@));
        Ok(())
    }
}

/// The permanent account that a finalization leaves behind.
#[derive(Debug, PartialEq, Eq)]
pub struct ProgramAccount {
    executable: bool,
    content: Vec<u8>,
}

impl View for ProgramAccount {
    type V = Seq<u8>;

    closed spec fn view(&self) -> Seq<u8> {
        self.content@
    }
}

impl ProgramAccount {
    /// Whether the ledger runs the account's content as a program.
    pub closed spec fn spec_executable(&self) -> bool {
        self.executable
    }

    /// Promotes a staging buffer: the program account takes over the staged bytes and is
    /// executable. The buffer is used up and cannot be written again.
    pub fn promote(buffer: StagingBuffer) -> (r: ProgramAccount)
        ensures
            r@ == buffer@,
            r.spec_executable(),
    {
        ProgramAccount { executable: true, content: buffer.content }
    }

    #[verifier::when_used_as_spec(spec_executable)]
    pub fn executable(&self) -> (r: bool)
        ensures
            r == self.spec_executable(),
    {
        self.executable
    }

    /// Number of program bytes of the account.
    pub fn content_len(&self) -> (r: usize)
        ensures
            r == self@.len(),
    {
        self.content.len()
    }

    /// The program bytes of the account.
    pub fn content(&self) -> (r: &Vec<u8>)
        ensures
            r@ == self@,
    {
        &self.content
    }
}

} // verus!
