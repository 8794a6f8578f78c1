//! Cutting a program image into the byte ranges that single write transactions carry.

use vstd::prelude::*;

verus! {

/// A contiguous byte range of a program image: where it starts and how many bytes it holds.
#[derive(Clone, Copy, Debug, PartialEq, Eq, Structural)]
pub struct Chunk {
    pub offset: u32,
    pub len: usize,
}

/// Why an image cannot be cut into chunks.
#[derive(Clone, Copy, Debug, PartialEq, Eq, Structural)]
pub enum PlanError {
    /// The image holds more bytes than a 32-bit write offset can address.
    ImageTooLarge,
    /// The image is not empty, and no payload byte fits into a write.
    ZeroChunkSize,
}

/// Number of chunks of an image of `image_len` bytes cut every `chunk_size` bytes.
pub open spec fn chunk_count(image_len: nat, chunk_size: nat) -> nat {
    if image_len == 0 || chunk_size == 0 {
        0
    } else {
        ((image_len - 1) / (chunk_size as int) + 1) as nat
    }
}

/// The chunk at position `index`: it starts at `index * chunk_size` and holds `chunk_size`
/// bytes, or what is left of the image where that is less.
pub open spec fn chunk_at(image_len: nat, chunk_size: nat, index: nat) -> Chunk {
    let start = index * chunk_size;
    let len = if start + chunk_size <= image_len {
        chunk_size as int
    } else {
        image_len - start
    };
    Chunk { offset: start as u32, len: len as usize }
}

/// All chunks of an image, by ascending offset.
pub open spec fn planned_chunks(image_len: nat, chunk_size: nat) -> Seq<Chunk> {
    Seq::new(chunk_count(image_len, chunk_size), |i: int| chunk_at(image_len, chunk_size, i as nat))
}

/// The bytes of `image` that `chunk` covers.
pub open spec fn chunk_bytes(image: Seq<u8>, chunk: Chunk) -> Seq<u8> {
    image.subrange(chunk.offset as int, chunk.offset + chunk.len)
}

/// The payloads of `chunks`, one after the other.
pub open spec fn reassemble(image: Seq<u8>, chunks: Seq<Chunk>) -> Seq<u8>
    decreases chunks.len(),
{
    if chunks.len() == 0 {
        Seq::empty()
    } else {
        reassemble(image, chunks.drop_last()) + chunk_bytes(image, chunks.last())
    }
}

/// Whether an image of `image_len` bytes can be cut every `chunk_size` bytes.
pub open spec fn plannable(image_len: nat, chunk_size: nat) -> bool {
    image_len <= u32::MAX && (chunk_size > 0 || image_len == 0)
}

/// Every planned chunk lies inside the image and is not empty; all but the last are full,
/// and the last one ends where the image ends.
pub proof fn lemma_chunk_bounds(image_len: nat, chunk_size: nat, index: nat)
    requires
        chunk_size > 0,
        index < chunk_count(image_len, chunk_size),
    ensures
        index * chunk_size < image_len,
        index + 1 < chunk_count(image_len, chunk_size) ==> (index + 1) * chunk_size < image_len,
        index + 1 == chunk_count(image_len, chunk_size) ==> image_len <= (index + 1) * chunk_size,
        (index + 1) * chunk_size == index * chunk_size + chunk_size,
{
    let q = (image_len - 1) / (chunk_size as int);
    assert(q * chunk_size <= image_len - 1 < (q + 1) * chunk_size) by (nonlinear_arith)
        requires
            q == (image_len - 1) / (chunk_size as int),
            chunk_size > 0,
            image_len >= 1,
    ;
    assert(index * chunk_size <= q * chunk_size) by (nonlinear_arith)
        requires
            index <= q,
            chunk_size > 0,
    ;
    assert((index + 1) * chunk_size == index * chunk_size + chunk_size) by (nonlinear_arith);
    if index + 1 < chunk_count(image_len, chunk_size) {
        assert((index + 1) * chunk_size <= q * chunk_size) by (nonlinear_arith)
            requires
                index + 1 <= q,
                chunk_size > 0,
        ;
    }
}

/// The last chunk holds the remainder of the image length by the chunk size, and a full
/// chunk where that remainder is zero.
pub proof fn lemma_last_chunk_len(image_len: nat, chunk_size: nat)
    requires
        chunk_size > 0,
        0 < image_len <= u32::MAX,
    ensures
        chunk_count(image_len, chunk_size) >= 1,
        chunk_size <= usize::MAX ==> planned_chunks(image_len, chunk_size).last().len == (if image_len
            % chunk_size == 0 {
            chunk_size
        } else {
            image_len % chunk_size
        }),
{
    let n = chunk_count(image_len, chunk_size);
    let last = (n - 1) as nat;
    lemma_chunk_bounds(image_len, chunk_size, last);
    let start = last * chunk_size;
    let rest = image_len - start;
    assert(0 < rest <= chunk_size);
    assert(image_len == chunk_size * last + rest) by (nonlinear_arith)
        requires
            image_len == last * chunk_size + rest,
    ;
    vstd::arithmetic::div_mod::lemma_mod_multiples_vanish(
        last as int,
        rest as int,
        chunk_size as int,
    );
    if rest == chunk_size {
        vstd::arithmetic::div_mod::lemma_mod_self_0(chunk_size as int);
    } else {
        vstd::arithmetic::div_mod::lemma_small_mod(rest as nat, chunk_size);
    }
}

/// The payloads of the first `count` planned chunks make up the image's first bytes: as
/// many as those chunks cover.
proof fn lemma_reassemble_prefix(image: Seq<u8>, chunk_size: nat, count: nat)
    requires
        chunk_size > 0,
        chunk_size <= usize::MAX,
        image.len() <= u32::MAX,
        count <= chunk_count(image.len(), chunk_size),
    ensures
        count < chunk_count(image.len(), chunk_size) ==> count * chunk_size < image.len()
            && reassemble(image, planned_chunks(image.len(), chunk_size).take(count as int))
            == image.take((count * chunk_size) as int),
        count == chunk_count(image.len(), chunk_size) ==> reassemble(
            image,
            planned_chunks(image.len(), chunk_size).take(count as int),
        ) == image,
    decreases count,
{
    let all = planned_chunks(image.len(), chunk_size);
    let head = all.take(count as int);
    if count == 0 {
        assert(0 * chunk_size == 0) by (nonlinear_arith);
        assert(image.take(0) =~= Seq::<u8>::empty());
        if chunk_count(image.len(), chunk_size) == 0 {
            assert(image.len() == 0);
            assert(image =~= Seq::<u8>::empty());
        } else {
            lemma_chunk_bounds(image.len(), chunk_size, 0);
        }
    } else {
        let before = (count - 1) as nat;
        lemma_reassemble_prefix(image, chunk_size, before);
        lemma_chunk_bounds(image.len(), chunk_size, before);
        assert(head.drop_last() =~= all.take(before as int));
        assert(head.last() == chunk_at(image.len(), chunk_size, before));
        let start = before * chunk_size;
        assert(count * chunk_size == start + chunk_size);
        let chunk = head.last();
        assert(chunk.offset == start);
        if count < chunk_count(image.len(), chunk_size) {
            assert(chunk.len == chunk_size);
            assert(image.take(start as int) + image.subrange(start as int, (start + chunk_size) as int)
                =~= image.take((count * chunk_size) as int));
        } else {
            assert(chunk.len == image.len() - start);
            assert(image.take(start as int) + image.subrange(start as int, image.len() as int)
                =~= image);
        }
    }
}

/// Round trip: the payloads of all planned chunks, taken by ascending offset and put one
/// after the other, are the image.
pub proof fn lemma_chunks_reassemble_image(image: Seq<u8>, chunk_size: nat)
    requires
        plannable(image.len(), chunk_size),
        chunk_size <= usize::MAX,
    ensures
        reassemble(image, planned_chunks(image.len(), chunk_size)) == image,
{
    let all = planned_chunks(image.len(), chunk_size);
    assert(all.take(all.len() as int) =~= all);
    if chunk_size == 0 {
        assert(image =~= Seq::<u8>::empty());
    } else {
        lemma_reassemble_prefix(image, chunk_size, chunk_count(image.len(), chunk_size));
    }
}

/// The planned chunks leave no gap and do not overlap: the first starts at byte 0, each
/// next one starts where the one before it ends, and the last ends where the image ends.
pub proof fn lemma_chunks_are_contiguous(image_len: nat, chunk_size: nat)
    requires
        plannable(image_len, chunk_size),
        chunk_size <= usize::MAX,
    ensures
        ({
            let chunks = planned_chunks(image_len, chunk_size);
            &&& chunks.len() > 0 ==> chunks[0].offset == 0
            &&& forall|i: int|
                0 <= i && i + 1 < chunks.len() ==> (#[trigger] chunks[i + 1]).offset == chunks[i].offset
                    + chunks[i].len
            &&& forall|i: int| 0 <= i < chunks.len() ==> (#[trigger] chunks[i]).len > 0
            &&& chunks.len() > 0 ==> chunks.last().offset + chunks.last().len == image_len
            &&& chunks.len() == 0 <==> image_len == 0
        }),
{
    let chunks = planned_chunks(image_len, chunk_size);
    if chunks.len() > 0 {
        assert(0 * chunk_size == 0) by (nonlinear_arith);
        lemma_chunk_bounds(image_len, chunk_size, (chunks.len() - 1) as nat);
    }
    assert forall|i: int| 0 <= i && i + 1 < chunks.len() implies (#[trigger] chunks[i + 1]).offset
        == chunks[i].offset + chunks[i].len by {
        lemma_chunk_bounds(image_len, chunk_size, i as nat);
        lemma_chunk_bounds(image_len, chunk_size, (i + 1) as nat);
    }
    assert forall|i: int| 0 <= i < chunks.len() implies (#[trigger] chunks[i]).len > 0 by {
        lemma_chunk_bounds(image_len, chunk_size, i as nat);
    }
}

/// The chunks of one image for one chunk size.
#[derive(Clone, Copy, Debug)]
pub struct ChunkPlan {
    image_len: usize,
    chunk_size: usize,
}

impl View for ChunkPlan {
    type V = Seq<Chunk>;

    /// The planned chunks, by ascending offset.
    open spec fn view(&self) -> Seq<Chunk> {
        planned_chunks(self.spec_image_len(), self.spec_chunk_size())
    }
}

impl ChunkPlan {
    #[verifier::type_invariant]
    spec fn inv(self) -> bool {
        plannable(self.image_len as nat, self.chunk_size as nat)
    }

    /// Length of the image that the plan cuts.
    pub closed spec fn spec_image_len(&self) -> nat {
        self.image_len as nat
    }

    /// Length of every chunk but the last.
    pub closed spec fn spec_chunk_size(&self) -> nat {
        self.chunk_size as nat
    }

    /// Plans the chunks of an image of `image_len` bytes, `chunk_size` bytes each. An
    /// empty image has no chunks, whatever the chunk size.
    pub fn new(image_len: usize, chunk_size: usize) -> (r: Result<ChunkPlan, PlanError>)
        ensures
            r is Ok <==> plannable(image_len as nat, chunk_size as nat),
            r matches Ok(plan) ==> plan.spec_image_len() == image_len && plan.spec_chunk_size()
                == chunk_size,
            r matches Err(e) ==> (e == PlanError::ImageTooLarge <==> image_len > u32::MAX),
    {
        if image_len > u32::MAX as usize {
            Err(PlanError::ImageTooLarge)
        } else if chunk_size == 0 && image_len > 0 {
            Err(PlanError::ZeroChunkSize)
        } else {
            Ok(ChunkPlan { image_len, chunk_size })
        }
    }

    #[verifier::when_used_as_spec(spec_image_len_usize)]
    pub fn image_len(&self) -> (r: usize)
        ensures
            r == self.spec_image_len(),
    {
        self.image_len
    }

    #[verifier::when_used_as_spec(spec_chunk_size_usize)]
    pub fn chunk_size(&self) -> (r: usize)
        ensures
            r == self.spec_chunk_size(),
    {
        self.chunk_size
    }

    pub closed spec fn spec_image_len_usize(&self) -> usize {
        self.image_len
    }

    pub closed spec fn spec_chunk_size_usize(&self) -> usize {
        self.chunk_size
    }

    /// Number of chunks.
    pub fn count(&self) -> (r: usize)
        ensures
            r == self@.len(),
    {
        proof {
            use_type_invariant(self);
        }
        if self.image_len == 0 || self.chunk_size == 0 {
            0
        } else {
            (self.image_len - 1) / self.chunk_size + 1
        }
    }

    /// The chunk at position `index`, counted from 0 by ascending offset.
    pub fn chunk(&self, index: usize) -> (r: Option<Chunk>)
        ensures
            r is Some <==> index < self@.len(),
            r matches Some(c) ==> c == self@[index as int],
    {
        proof {
            use_type_invariant(self);
        }
        if index >= self.count() {
            return None;
        }
        proof {
            lemma_chunk_bounds(self.image_len as nat, self.chunk_size as nat, index as nat);
        }
        let start: usize = index * self.chunk_size;
        let rest: usize = self.image_len - start;
        let len: usize = if rest >= self.chunk_size {
            self.chunk_size
        } else {
            rest
        };
        Some(Chunk { offset: start as u32, len })
    }

    /// All chunks, by ascending offset.
    pub fn chunks(&self) -> (r: Vec<Chunk>)
        ensures
            r@ == self@,
    {
        let count: usize = self.count();
        let mut all: Vec<Chunk> = Vec::new();
        let mut index: usize = 0;
        while index < count
            invariant
                count == self@.len(),
                index <= count,
                all@ == self@.take(index as int),
            decreases count - index,
        {
            match self.chunk(index) {
                Some(c) => {
                    all.push(c);
                    assert(all@ =~= self@.take(index + 1));
                },
                None => {},
            }
            index = index + 1;
        }
        assert(self@.take(count as int) =~= self@);
        all
    }
}

/// Copies out of `image` the bytes that `chunk` covers; `None` where the chunk does not
/// lie inside the image.
pub fn chunk_payload(image: &Vec<u8>, chunk: Chunk) -> (r: Option<Vec<u8>>)
    ensures
        r is Some <==> chunk.offset + chunk.len <= image.len(),
        r matches Some(bytes) ==> bytes@ == chunk_bytes(image@, chunk),
{
    let start: usize = chunk.offset as usize;
    if start > image.len() || chunk.len > image.len() - start {
        return None;
    }
    let end: usize = start + chunk.len;
    let mut bytes: Vec<u8> = Vec::new();
    let mut at: usize = start;
    while at < end
        invariant
            start <= at <= end <= image.len(),
            bytes@ == image@.subrange(start as int, at as int),
        decreases end - at,
    {
        bytes.push(image[at]);
        assert(bytes@ =~= image@.subrange(start as int, at + 1));
        at = at + 1;
    }
    Some(bytes)
}

} // verus!
