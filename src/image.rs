//! Memory images, system states and digests.

use vstd::prelude::*;

verus! {

/// Size in bytes of one machine word.
pub const WORD_SIZE: u32 = 4;

/// Start of the page table: the first address past the memory an image holds
/// as data, guest memory and system memory alike.
pub const PAGE_TABLE_START: u32 = 0x0D00_0000;

/// Size in bytes of one memory page.
pub const PAGE_SIZE: u32 = 1024;

/// A content digest, as raw bytes.
pub struct Digest {
    pub bytes: Vec<u8>,
}

impl View for Digest {
    type V = Seq<u8>;

    open spec fn view(&self) -> Seq<u8> {
        self.bytes@
    }
}

/// The all-zero digest.
pub open spec fn zero_digest() -> Seq<u8> {
    Seq::new(32, |i: int| 0u8)
}

impl Digest {
    /// The digest whose 32 bytes are all zero.
    pub fn zero() -> (r: Digest)
        ensures
            r@ == zero_digest(),
    {
        let bytes: Vec<u8> = vec![0u8; 32];
        let r = Digest { bytes };
        assert(r@ =~= zero_digest());
        r
    }

    /// A copy of this digest.
    pub fn duplicate(&self) -> (r: Digest)
        ensures
            r@ == self@,
    {
        Digest { bytes: copy_bytes(&self.bytes) }
    }

    /// Whether two digests hold the same bytes.
    pub fn same_as(&self, other: &Digest) -> (r: bool)
        ensures
            r == (self@ == other@),
    {
        seq_bytes_equal(&self.bytes, &other.bytes)
    }
}

/// A copy of a byte vector.
pub fn copy_bytes(v: &Vec<u8>) -> (r: Vec<u8>)
    ensures
        r@ == v@,
{
    let mut r: Vec<u8> = Vec::new();
    let mut i: usize = 0;
    while i < v.len()
        invariant
            i <= v@.len(),
            r@ == v@.subrange(0, i as int),
        decreases v@.len() - i,
    {
        r.push(v[i]);
        i = i + 1;
        assert(r@ =~= v@.subrange(0, i as int));
    }
    assert(r@ =~= v@);
    r
}

/// A copy of a vector of words.
pub fn copy_words(v: &Vec<u32>) -> (r: Vec<u32>)
    ensures
        r@ == v@,
{
    let mut r: Vec<u32> = Vec::new();
    let mut i: usize = 0;
    while i < v.len()
        invariant
            i <= v@.len(),
            r@ == v@.subrange(0, i as int),
        decreases v@.len() - i,
    {
        r.push(v[i]);
        i = i + 1;
        assert(r@ =~= v@.subrange(0, i as int));
    }
    assert(r@ =~= v@);
    r
}

fn seq_bytes_equal(a: &Vec<u8>, b: &Vec<u8>) -> (r: bool)
    ensures
        r == (a@ == b@),
{
    if a.len() != b.len() {
        return false;
    }
    let mut i: usize = 0;
    while i < a.len()
        invariant
            i <= a@.len(),
            a@.len() == b@.len(),
            forall|j: int| 0 <= j < i ==> a@[j] == b@[j],
        decreases a@.len() - i,
    {
        if a[i] != b[i] {
            return false;
        }
        i = i + 1;
    }
    assert(a@ =~= b@);
    true
}

/// Whether a word address may hold data of a memory image: word aligned and
/// below the page table, which the image derives from the rest of memory.
pub open spec fn valid_word_addr(addr: u32) -> bool {
    addr % WORD_SIZE == 0 && addr < PAGE_TABLE_START
}

/// A snapshot of machine memory and program counter.
///
/// Memory is held sparsely, as a list of (word address, word value) entries;
/// a word that is not listed is zero. Where an address is listed twice the
/// later entry holds.
pub struct MemoryImage {
    pub pc: u32,
    pub words: Vec<(u32, u32)>,
}

impl MemoryImage {
    /// Every address held is a valid word address.
    pub open spec fn wf(&self) -> bool {
        forall|i: int| 0 <= i < self.words@.len() ==> valid_word_addr(#[trigger] self.words@[i].0)
    }

    /// Builds an image from a program counter and word entries, or `None`
    /// where an entry is misaligned or lies in or past the page table.
    pub fn new(pc: u32, words: Vec<(u32, u32)>) -> (r: Option<MemoryImage>)
        ensures
            r is Some <==> (forall|i: int| 0 <= i < words@.len() ==> valid_word_addr(#[trigger] words@[i].0)),
            r matches Some(m) ==> m.pc == pc && m.words@ == words@ && m.wf(),
    {
        let mut i: usize = 0;
        while i < words.len()
            invariant
                i <= words@.len(),
                forall|j: int| 0 <= j < i ==> valid_word_addr(#[trigger] words@[j].0),
            decreases words@.len() - i,
        {
            let (addr, _) = words[i];
            if addr % WORD_SIZE != 0 || addr >= PAGE_TABLE_START {
                return None;
            }
            i = i + 1;
        }
        Some(MemoryImage { pc, words })
    }

    /// A copy of this image.
    pub fn duplicate(&self) -> (r: MemoryImage)
        ensures
            r.pc == self.pc,
            r.words@ == self.words@,
    {
        let mut words: Vec<(u32, u32)> = Vec::new();
        let mut i: usize = 0;
        while i < self.words.len()
            invariant
                i <= self.words@.len(),
                words@ == self.words@.subrange(0, i as int),
            decreases self.words@.len() - i,
        {
            words.push(self.words[i]);
            i = i + 1;
            assert(words@ =~= self.words@.subrange(0, i as int));
        }
        assert(words@ =~= self.words@);
        MemoryImage { pc: self.pc, words }
    }

    /// The Merkle root of this image's memory.
    pub fn compute_root_hash(&self) -> (r: Digest)
        requires
            self.wf(),
        ensures
            r@ == memory_root_of(self.words@),
    {
        merkle_root(self.pc, &self.words)
    }
}

/// The Merkle root of a memory holding the given word entries, as the zkVM's
/// page table computes it with pages of `PAGE_SIZE` bytes.
pub uninterp spec fn memory_root_of(words: Seq<(u32, u32)>) -> Seq<u8>;

/// Relies on risc0_binfmt's PageTableInfo::new, MemoryImage::store_region_in_page,
/// MemoryImage::hash_pages and MemoryImage::compute_root_hash: with the
/// platform's page table and page size the layout is built without error; an
/// aligned word below the page table lies inside one page below MEM_SIZE, so
/// storing it does not panic; hashing all pages writes the root page; and the
/// root depends on the stored words alone, later entries overwriting earlier
/// ones.
#[verifier::external_body]
fn merkle_root(pc: u32, words: &Vec<(u32, u32)>) -> (r: Digest)
    requires
        forall|i: int| 0 <= i < words@.len() ==> valid_word_addr(#[trigger] words@[i].0),
    ensures
        r@ == memory_root_of(words@),
{
    let page_size = risc0_zkvm_platform::PAGE_SIZE as u32;
    let table = risc0_zkvm_platform::memory::PAGE_TABLE.start() as u32;
    let info = risc0_binfmt::PageTableInfo::new(table, page_size).expect("platform layout");
    let mut image = risc0_binfmt::MemoryImage { pages: std::collections::BTreeMap::new(), info, pc };
    for &(addr, word) in words.iter() {
        image.store_region_in_page(addr, &word.to_le_bytes());
    }
    image.hash_pages().expect("whole pages");
    let root = image.compute_root_hash().expect("page-aligned root region");
    Digest { bytes: root.as_bytes().to_vec() }
}

/// The program counter and memory root of a machine.
pub struct SystemState {
    pub pc: u32,
    pub merkle_root: Digest,
}

impl SystemState {
    /// A copy of this state.
    pub fn duplicate(&self) -> (r: SystemState)
        ensures
            r.pc == self.pc,
            r.merkle_root@ == self.merkle_root@,
    {
        SystemState { pc: self.pc, merkle_root: self.merkle_root.duplicate() }
    }

    /// The state of the machine that holds `image`.
    pub fn of_image(image: &MemoryImage) -> (r: SystemState)
        requires
            image.wf(),
        ensures
            r.pc == image.pc,
            r.merkle_root@ == memory_root_of(image.words@),
    {
        SystemState { pc: image.pc, merkle_root: image.compute_root_hash() }
    }
}

} // verus!
