use vstd::prelude::*;

verus! {

/// One decoded chunk: its tag and its payload.
#[derive(Debug)]
pub struct Chunk {
    pub fourcc: String,
    pub variant: ChunkVariant,
}

/// The payload shapes of a chunk.
#[derive(Debug)]
pub enum ChunkVariant {
    Meta(Meta),
    InitialMap(InitialMap),
    MemoryMap(MemoryMap),
    /// A tag whose payload is not decoded.
    Unimplemented,
}

/// The outermost chunk: names the embedded codec.
#[derive(Debug)]
pub struct Meta {
    pub codec: String,
}

/// The initial map: its first entry is the file offset of the memory map.
#[derive(Debug)]
pub struct InitialMap {
    pub entry_count: u32,
    pub entries: Vec<u32>,
}

/// The memory map: the table of every physical chunk slot.
#[derive(Debug)]
pub struct MemoryMap {
    pub unknown0: u16,
    pub unknown1: u16,
    pub chunk_count_max: u32,
    pub chunk_count_used: u32,
    pub junk_pointer: i32,
    pub unknown2: i32,
    pub free_pointer: i32,
    pub entries: Vec<MemoryMapEntry>,
}

/// One slot of the memory map.
#[derive(Debug)]
pub struct MemoryMapEntry {
    pub fourcc: String,
    pub length: u32,
    pub offset: u32,
    pub padding: i16,
    pub unknown0: i16,
    pub link: i32,
}

} // verus!
