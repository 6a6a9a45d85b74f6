use vstd::prelude::*;

verus! {

/// A compressed block that can be copied out of a byte buffer.
pub trait ReadBlock: Sized {
    /// The number of bytes of one block.
    const SIZE_IN_BYTES: usize;

    /// The bytes that the block holds.
    spec fn bytes(&self) -> Seq<u8>;

    /// Copies the block that starts at `offset` in `data`.
    fn read_block(data: &[u8], offset: usize) -> (block: Self)
        requires
            offset + Self::SIZE_IN_BYTES <= data@.len(),
        ensures
            block.bytes() == data@.subrange(offset as int, offset + Self::SIZE_IN_BYTES),
    ;
}

/// An 8-byte compressed block (BC1, BC4).
pub struct Block8(pub [u8; 8]);

/// A 16-byte compressed block (BC2, BC3, BC5, BC6H, BC7).
pub struct Block16(pub [u8; 16]);

impl ReadBlock for Block8 {
    const SIZE_IN_BYTES: usize = 8;

    open spec fn bytes(&self) -> Seq<u8> {
        self.0@
    }

    fn read_block(data: &[u8], offset: usize) -> (block: Self) {
        let mut bytes = [0u8; 8];
        let mut i: usize = 0;
        while i < 8
            invariant
                i <= 8,
                offset + 8 <= data@.len(),
                forall|j: int| 0 <= j < i ==> bytes@[j] == data@[offset + j],
            decreases 8 - i,
        {
            bytes[i] = data[offset + i];
            i += 1;
        }
        assert(bytes@ =~= data@.subrange(offset as int, offset + 8));
        Block8(bytes)
    }
}

impl ReadBlock for Block16 {
    const SIZE_IN_BYTES: usize = 16;

    open spec fn bytes(&self) -> Seq<u8> {
        self.0@
    }

    fn read_block(data: &[u8], offset: usize) -> (block: Self) {
        let mut bytes = [0u8; 16];
        let mut i: usize = 0;
        while i < 16
            invariant
                i <= 16,
                offset + 16 <= data@.len(),
                forall|j: int| 0 <= j < i ==> bytes@[j] == data@[offset + j],
            decreases 16 - i,
        {
            bytes[i] = data[offset + i];
            i += 1;
        }
        assert(bytes@ =~= data@.subrange(offset as int, offset + 16));
        Block16(bytes)
    }
}

/// The sizes of the two block types: 8 and 16 bytes.
pub proof fn lemma_block_sizes()
    ensures
        <Block8 as ReadBlock>::SIZE_IN_BYTES == 8,
        <Block16 as ReadBlock>::SIZE_IN_BYTES == 16,
{
}

} // verus!
