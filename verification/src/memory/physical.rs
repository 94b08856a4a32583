//! Bitmap-based physical page allocator.
//!
//! Every page of the managed range has one bit in a bitmap of 64-bit words; a set
//! bit marks a page that is in use. The allocator hands out the lowest free page,
//! refuses to free a page twice, and counts the pages it has handed out.

use vstd::prelude::*;

verus! {

/// Size of a physical page in bytes.
pub const PAGE_SIZE: u64 = 4096;

/// Number of pages in the 4 GiB physical address space the kernel targets.
pub const MAX_PAGES: u64 = 1_000_000;

/// A physical page, named by its index in the managed range.
#[derive(Debug, Clone, Copy, PartialEq, Eq)]
pub struct PhysicalPage {
    index: u64,
}

impl PhysicalPage {
    /// The index of this page in the managed range.
    pub closed spec fn page_index(self) -> u64 {
        self.index
    }

    /// Get physical address of this page.
    pub fn address(&self) -> (addr: u64)
        requires
            self.page_index() * PAGE_SIZE <= u64::MAX,
        ensures
            addr == self.page_index() * PAGE_SIZE,
    {
        self.index * PAGE_SIZE
    }
}

/// Why an allocation or a release was refused.
#[derive(Debug, Clone, Copy, PartialEq, Eq)]
pub enum AllocError {
    OutOfMemory,
    InvalidPage,
    DoubleFreePrevented,
}

/// Whether bit `b` of `word` is set.
pub open spec fn word_bit(word: u64, b: u64) -> bool {
    word & (1u64 << b) != 0
}

/// The page bitmap read as one flag per page: page `i` is in use when bit `i % 64`
/// of word `i / 64` is set.
pub open spec fn pages_in_use(words: Seq<u64>) -> Seq<bool> {
    Seq::new((words.len() * 64) as nat, |i: int| word_bit(words[i / 64], (i % 64) as u64))
}

/// The abstract state of an allocator: which pages are in use, how many pages the
/// allocator may hand out, and the counter of handed-out pages.
pub struct AllocatorModel {
    pub in_use: Seq<bool>,
    pub total_pages: u64,
    pub allocated: u64,
}

/// `i` is the lowest page that is not in use.
pub open spec fn is_first_free(in_use: Seq<bool>, i: int) -> bool {
    &&& 0 <= i < in_use.len()
    &&& !in_use[i]
    &&& forall|j: int| 0 <= j < i ==> #[trigger] in_use[j]
}

/// `x + 1`, wrapping around at 2^64.
pub open spec fn wrapping_inc(x: u64) -> u64 {
    if x == u64::MAX { 0 } else { (x + 1) as u64 }
}

/// `x - 1`, wrapping around at 0.
pub open spec fn wrapping_dec(x: u64) -> u64 {
    if x == 0 { u64::MAX } else { (x - 1) as u64 }
}

/// What an allocation does: the lowest free page of the bitmap is marked in use; it
/// is handed out, and counted, when it lies below `total_pages`; otherwise the
/// allocation fails with the bit left set. With no free bit, nothing changes.
pub open spec fn model_allocate(m: AllocatorModel) -> (AllocatorModel, Result<u64, AllocError>) {
    if exists|i: int| is_first_free(m.in_use, i) {
        let i = choose|i: int| is_first_free(m.in_use, i);
        if i >= m.total_pages {
            (
                AllocatorModel { in_use: m.in_use.update(i, true), total_pages: m.total_pages, allocated: m.allocated },
                Err(AllocError::OutOfMemory),
            )
        } else {
            (
                AllocatorModel {
                    in_use: m.in_use.update(i, true),
                    total_pages: m.total_pages,
                    allocated: wrapping_inc(m.allocated),
                },
                Ok(i as u64),
            )
        }
    } else {
        (m, Err(AllocError::OutOfMemory))
    }
}

/// What releasing page `index` does: a page this allocator cannot have handed out (at
/// or past `total_pages`, or outside the bitmap) is invalid, a page not in use is a
/// double free; otherwise the page is marked free and the counter drops.
pub open spec fn model_free(m: AllocatorModel, index: u64) -> (AllocatorModel, Result<(), AllocError>) {
    if index >= m.total_pages || index >= m.in_use.len() {
        (m, Err(AllocError::InvalidPage))
    } else if !m.in_use[index as int] {
        (m, Err(AllocError::DoubleFreePrevented))
    } else {
        (
            AllocatorModel {
                in_use: m.in_use.update(index as int, false),
                total_pages: m.total_pages,
                allocated: wrapping_dec(m.allocated),
            },
            Ok(()),
        )
    }
}

/// The page index of an allocation result.
pub open spec fn page_result(r: Result<PhysicalPage, AllocError>) -> Result<u64, AllocError> {
    match r {
        Ok(p) => Ok(p.page_index()),
        Err(e) => Err(e),
    }
}

/// Bitmap-based physical memory allocator.
pub struct PhysicalAllocator {
    bitmap: Vec<u64>,
    total_pages: u64,
    allocated_pages: u64,
}

impl View for PhysicalAllocator {
    type V = AllocatorModel;

    closed spec fn view(&self) -> AllocatorModel {
        AllocatorModel {
            in_use: pages_in_use(self.bitmap@),
            total_pages: self.total_pages,
            allocated: self.allocated_pages,
        }
    }
}

proof fn lemma_set_bit(w: u64, b: u64, c: u64)
    requires
        b < 64,
        c < 64,
    ensures
        word_bit(w | (1u64 << b), c) == (c == b || word_bit(w, c)),
{
    assert(b < 64 && c < 64 ==> ((w | (1u64 << b)) & (1u64 << c) != 0) == (c == b || w & (1u64 << c) != 0))
        by (bit_vector);
}

proof fn lemma_clear_bit(w: u64, b: u64, c: u64)
    requires
        b < 64,
        c < 64,
    ensures
        word_bit(w & !(1u64 << b), c) == (c != b && word_bit(w, c)),
{
    assert(b < 64 && c < 64 ==> ((w & !(1u64 << b)) & (1u64 << c) != 0) == (c != b && w & (1u64 << c) != 0))
        by (bit_vector);
}

proof fn lemma_full_word(c: u64)
    requires
        c < 64,
    ensures
        word_bit(u64::MAX, c),
{
    assert(c < 64 ==> 0xffff_ffff_ffff_ffffu64 & (1u64 << c) != 0) by (bit_vector);
}

/// Replacing word `k` by a word that differs from it only in bit `b` changes only
/// page `64 * k + b`.
proof fn lemma_update_word(words: Seq<u64>, k: int, b: u64, new_word: u64)
    requires
        0 <= k < words.len(),
        b < 64,
        forall|c: u64| c < 64 && c != b ==> word_bit(new_word, c) == word_bit(#[trigger] words[k], c),
    ensures
        pages_in_use(words.update(k, new_word))
            =~= pages_in_use(words).update(64 * k + b, word_bit(new_word, b)),
{
    let old_pages = pages_in_use(words);
    let new_pages = pages_in_use(words.update(k, new_word));
    assert forall|i: int| 0 <= i < new_pages.len() implies new_pages[i]
        == old_pages.update(64 * k + b, word_bit(new_word, b))[i] by {
        if i / 64 == k {
            assert(words.update(k, new_word)[i / 64] == new_word);
            if i != 64 * k + b {
                assert((i % 64) as u64 != b);
                assert(word_bit(new_word, (i % 64) as u64) == word_bit(words[k], (i % 64) as u64));
            }
        }
    }
}

impl PhysicalAllocator {
    /// Internal consistency: every page index of the bitmap fits in a `u64`.
    #[verifier::type_invariant]
    spec fn wf(self) -> bool {
        self.bitmap.len() * 64 <= u64::MAX
    }

    /// A new allocator for `total_pages` pages, all free: the bitmap has one bit per
    /// page, rounded up to whole words.
    pub fn new(total_pages: u64) -> (a: Self)
        requires
            total_pages <= u64::MAX - 63,
            (total_pages + 63) / 64 <= usize::MAX,
        ensures
            a@.total_pages == total_pages,
            a@.allocated == 0,
            a@.in_use.len() == (total_pages + 63) / 64 * 64,
            forall|i: int| 0 <= i < a@.in_use.len() ==> !#[trigger] a@.in_use[i],
    {
        let words = ((total_pages + 63) / 64) as usize;
        let mut bitmap: Vec<u64> = Vec::new();
        while bitmap.len() < words
            invariant
                bitmap.len() <= words,
                forall|j: int| 0 <= j < bitmap.len() ==> bitmap@[j] == 0,
            decreases words - bitmap.len(),
        {
            bitmap.push(0);
        }
        let a = PhysicalAllocator { bitmap, total_pages, allocated_pages: 0 };
        assert forall|i: int| 0 <= i < a@.in_use.len() implies !#[trigger] a@.in_use[i] by {
            assert(a.bitmap@[i / 64] == 0);
            assert(0u64 & (1u64 << ((i % 64) as u64)) == 0) by (bit_vector);
        }
        a
    }

    /// Allocate a new physical page: the lowest page whose bit is clear is marked in
    /// use and returned, provided it lies below `total_pages`.
    pub fn allocate(&mut self) -> (r: Result<PhysicalPage, AllocError>)
        ensures
            final(self)@ == model_allocate(old(self)@).0,
            page_result(r) == model_allocate(old(self)@).1,
    {
        proof {
            use_type_invariant(&*self);
        }
        let n = self.bitmap.len();
        let mut word_idx: usize = 0;
        while word_idx < n
            invariant
                n == self.bitmap.len(),
                *self == *old(self),
                self.wf(),
                word_idx <= n,
                forall|j: int| 0 <= j < word_idx * 64 ==> #[trigger] self@.in_use[j],
            decreases n - word_idx,
        {
            let word = self.bitmap[word_idx];
            if word == u64::MAX {
                proof {
                    assert forall|j: int| 0 <= j < (word_idx + 1) * 64 implies #[trigger] self@.in_use[j] by {
                        if j >= word_idx * 64 {
                            assert(j / 64 == word_idx);
                            lemma_full_word((j % 64) as u64);
                        }
                    }
                }
            } else {
                let mut bit: u64 = 0;
                while bit < 64
                    invariant
                        n == self.bitmap.len(),
                        *self == *old(self),
                        self.wf(),
                        word_idx < n,
                        word == self.bitmap@[word_idx as int],
                        bit <= 64,
                        forall|j: int| 0 <= j < word_idx * 64 + bit ==> #[trigger] self@.in_use[j],
                    decreases 64 - bit,
                {
                    if word & (1u64 << bit) == 0 {
                        let new_word = word | (1u64 << bit);
                        let page_idx = word_idx as u64 * 64 + bit;
                        proof {
                            let i = word_idx * 64 + bit;
                            assert(i / 64 == word_idx);
                            assert(i % 64 == bit);
                            assert(!old(self)@.in_use[i]);
                            assert(is_first_free(old(self)@.in_use, i));
                            let c = choose|c: int| is_first_free(old(self)@.in_use, c);
                            assert(c == i) by {
                                if c < i {
                                    assert(old(self)@.in_use[c]);
                                } else if c > i {
                                    assert(old(self)@.in_use[i]);
                                }
                            }
                            assert forall|c: u64| c < 64 && c != bit implies word_bit(new_word, c)
                                == word_bit(#[trigger] self.bitmap@[word_idx as int], c) by {
                                lemma_set_bit(word, bit, c);
                            }
                            lemma_set_bit(word, bit, bit);
                            lemma_update_word(self.bitmap@, word_idx as int, bit, new_word);
                        }
                        self.bitmap[word_idx] = new_word;
                        if page_idx >= self.total_pages {
                            return Err(AllocError::OutOfMemory);
                        }
                        self.allocated_pages = self.allocated_pages.wrapping_add(1);
                        return Ok(PhysicalPage { index: page_idx });
                    }
                    proof {
                        assert(word_bit(word, bit));
                        let i = word_idx * 64 + bit;
                        assert(i / 64 == word_idx);
                        assert(i % 64 == bit);
                        assert(self@.in_use[i]);
                    }
                    bit = bit + 1;
                }
            }
            word_idx = word_idx + 1;
        }
        proof {
            assert(!exists|i: int| is_first_free(old(self)@.in_use, i)) by {
                if exists|i: int| is_first_free(old(self)@.in_use, i) {
                    let i = choose|i: int| is_first_free(old(self)@.in_use, i);
                    assert(old(self)@.in_use[i]);
                }
            }
        }
        Err(AllocError::OutOfMemory)
    }

    /// Free a physical page: a page at or past `total_pages`, which this allocator never
    /// hands out, or outside the bitmap is refused as invalid, a page that is not in
    /// use is refused as a double free; otherwise its bit is cleared and the allocation
    /// counter drops by one.
    pub fn free(&mut self, page: PhysicalPage) -> (r: Result<(), AllocError>)
        ensures
            final(self)@ == model_free(old(self)@, page.page_index()).0,
            r == model_free(old(self)@, page.page_index()).1,
    {
        proof {
            use_type_invariant(&*self);
        }
        let word_idx = page.index / 64;
        let bit_idx = page.index % 64;
        if page.index >= self.total_pages || word_idx >= self.bitmap.len() as u64 {
            return Err(AllocError::InvalidPage);
        }
        let w = self.bitmap[word_idx as usize];
        proof {
            let i = page.index as int;
            assert(i / 64 == word_idx);
            assert(i % 64 == bit_idx);
            assert(self@.in_use[i] == word_bit(w, bit_idx));
        }
        if w & (1u64 << bit_idx) == 0 {
            return Err(AllocError::DoubleFreePrevented);
        }
        let new_word = w & !(1u64 << bit_idx);
        proof {
            assert forall|c: u64| c < 64 && c != bit_idx implies word_bit(new_word, c)
                == word_bit(#[trigger] self.bitmap@[word_idx as int], c) by {
                lemma_clear_bit(w, bit_idx, c);
            }
            lemma_clear_bit(w, bit_idx, bit_idx);
            lemma_update_word(self.bitmap@, word_idx as int, bit_idx, new_word);
        }
        self.bitmap[word_idx as usize] = new_word;
        self.allocated_pages = self.allocated_pages.wrapping_sub(1);
        Ok(())
    }

    /// Get number of allocated pages.
    pub fn allocated_count(&self) -> (n: u64)
        ensures
            n == self@.allocated,
    {
        self.allocated_pages
    }
}

/// Allocate a physical page from the kernel's allocator, which may not have been
/// installed yet: with no allocator there is no memory to hand out.
pub fn alloc_page(allocator: &mut Option<PhysicalAllocator>) -> (r: Result<PhysicalPage, AllocError>)
    ensures
        match *old(allocator) {
            None => *final(allocator) is None && r == Err::<PhysicalPage, AllocError>(AllocError::OutOfMemory),
            Some(a) => *final(allocator) matches Some(b) && {
                &&& b@ == model_allocate(a@).0
                &&& page_result(r) == model_allocate(a@).1
            },
        },
{
    match allocator {
        Some(a) => a.allocate(),
        None => Err(AllocError::OutOfMemory),
    }
}

/// Number of `true` entries of `s`.
pub open spec fn count_true(s: Seq<bool>) -> nat
    decreases s.len(),
{
    if s.len() == 0 {
        0
    } else {
        count_true(s.drop_last()) + if s.last() { 1nat } else { 0nat }
    }
}

/// The pages an allocator may hand out: those below `total_pages` that the bitmap
/// holds.
pub open spec fn issuable_pages(m: AllocatorModel) -> Seq<bool> {
    m.in_use.take(if m.total_pages < m.in_use.len() { m.total_pages as int } else { m.in_use.len() as int })
}

/// The allocation counter equals the number of issuable pages in use.
pub open spec fn counter_matches(m: AllocatorModel) -> bool {
    m.allocated == count_true(issuable_pages(m))
}

proof fn lemma_count_true_bounds(s: Seq<bool>)
    ensures
        count_true(s) <= s.len(),
        (exists|i: int| 0 <= i < s.len() && !s[i]) ==> count_true(s) < s.len(),
        (exists|i: int| 0 <= i < s.len() && s[i]) ==> count_true(s) > 0,
    decreases s.len(),
{
    if s.len() > 0 {
        lemma_count_true_bounds(s.drop_last());
        if exists|i: int| 0 <= i < s.len() && !s[i] {
            let i = choose|i: int| 0 <= i < s.len() && !s[i];
            if i < s.len() - 1 {
                assert(!s.drop_last()[i]);
            }
        }
        if exists|i: int| 0 <= i < s.len() && s[i] {
            let i = choose|i: int| 0 <= i < s.len() && s[i];
            if i < s.len() - 1 {
                assert(s.drop_last()[i]);
            }
        }
    }
}

proof fn lemma_count_true_update(s: Seq<bool>, i: int, v: bool)
    requires
        0 <= i < s.len(),
    ensures
        count_true(s.update(i, v)) + (if s[i] { 1int } else { 0int })
            == count_true(s) + (if v { 1int } else { 0int }),
    decreases s.len(),
{
    let t = s.update(i, v);
    if i == s.len() - 1 {
        assert(t.drop_last() =~= s.drop_last());
    } else {
        assert(t.drop_last() =~= s.drop_last().update(i, v));
        lemma_count_true_update(s.drop_last(), i, v);
    }
}

proof fn lemma_count_true_all_false(s: Seq<bool>)
    requires
        forall|i: int| 0 <= i < s.len() ==> !#[trigger] s[i],
    ensures
        count_true(s) == 0,
    decreases s.len(),
{
    if s.len() > 0 {
        lemma_count_true_all_false(s.drop_last());
    }
}

/// A page that `allocate` hands out lies below `total_pages`, was free, is in use
/// afterwards, and no lower page was free: the lowest free page is the one handed out.
pub proof fn lemma_allocate_takes_lowest_free(m: AllocatorModel)
    ensures
        model_allocate(m).1 matches Ok(i) ==> {
            &&& i < m.total_pages
            &&& is_first_free(m.in_use, i as int)
            &&& model_allocate(m).0.in_use == m.in_use.update(i as int, true)
        },
        model_allocate(m).1 is Err ==> model_allocate(m).0.allocated == m.allocated,
{
}

/// No double allocation: a page handed out by `allocate` is not handed out again by
/// the next `allocate` unless it is freed in between.
pub proof fn lemma_no_double_allocation(m: AllocatorModel)
    ensures
        model_allocate(m).1 matches Ok(i) ==> model_allocate(model_allocate(m).0).1 != Ok::<u64, AllocError>(i),
{
    if let Ok(i) = model_allocate(m).1 {
        let m2 = model_allocate(m).0;
        assert(m2.in_use[i as int]);
        if exists|j: int| is_first_free(m2.in_use, j) {
            let j = choose|j: int| is_first_free(m2.in_use, j);
            assert(j != i);
        }
    }
}

/// Freeing the page that `allocate` just handed out gives back the allocator state
/// from before the allocation.
pub proof fn lemma_free_undoes_allocate(m: AllocatorModel)
    ensures
        model_allocate(m).1 matches Ok(i) ==> model_free(model_allocate(m).0, i) == (m, Ok::<(), AllocError>(())),
{
    if let Ok(i) = model_allocate(m).1 {
        let m2 = model_allocate(m).0;
        assert(model_free(m2, i).0.in_use =~= m.in_use);
    }
}

/// No double free: once a page has been freed, freeing it again is refused and
/// changes nothing.
pub proof fn lemma_no_double_free(m: AllocatorModel, index: u64)
    ensures
        model_free(m, index).1 is Ok ==> model_free(model_free(m, index).0, index)
            == (model_free(m, index).0, Err::<(), AllocError>(AllocError::DoubleFreePrevented)),
{
}

/// A refused `free` changes nothing.
pub proof fn lemma_refused_free_changes_nothing(m: AllocatorModel, index: u64)
    ensures
        model_free(m, index).1 is Err ==> model_free(m, index).0 == m,
{
}

/// A new allocator's counter matches the pages in use.
pub proof fn lemma_new_counter_matches(m: AllocatorModel)
    requires
        m.allocated == 0,
        forall|i: int| 0 <= i < m.in_use.len() ==> !#[trigger] m.in_use[i],
    ensures
        counter_matches(m),
{
    lemma_count_true_all_false(issuable_pages(m));
}

/// `allocate` keeps the counter equal to the number of issuable pages in use.
pub proof fn lemma_allocate_keeps_counter(m: AllocatorModel)
    requires
        counter_matches(m),
    ensures
        counter_matches(model_allocate(m).0),
{
    let k: int = if m.total_pages < m.in_use.len() { m.total_pages as int } else { m.in_use.len() as int };
    if exists|i: int| is_first_free(m.in_use, i) {
        let i = choose|i: int| is_first_free(m.in_use, i);
        let m2 = model_allocate(m).0;
        if i >= m.total_pages {
            assert(issuable_pages(m2) =~= issuable_pages(m));
        } else {
            assert(issuable_pages(m2) =~= issuable_pages(m).update(i, true));
            assert(!issuable_pages(m)[i]);
            lemma_count_true_update(issuable_pages(m), i, true);
            lemma_count_true_bounds(issuable_pages(m));
            assert(count_true(issuable_pages(m)) < k);
        }
    }
}

/// `free` keeps the counter equal to the number of issuable pages in use.
pub proof fn lemma_free_keeps_counter(m: AllocatorModel, index: u64)
    requires
        counter_matches(m),
    ensures
        counter_matches(model_free(m, index).0),
{
    if model_free(m, index).1 is Ok {
        let i = index as int;
        let m2 = model_free(m, index).0;
        assert(issuable_pages(m2) =~= issuable_pages(m).update(i, false));
        assert(issuable_pages(m)[i]);
        lemma_count_true_update(issuable_pages(m), i, false);
        lemma_count_true_bounds(issuable_pages(m));
    }
}

/// Allocation succeeds whenever a page below `total_pages` is free: it hands out the
/// lowest free page, which lies at or below any free page `i`, marks it in use, and
/// raises the counter by one (wrapping at 2^64).
pub proof fn lemma_allocate_succeeds_when_a_page_is_free(m: AllocatorModel, i: int)
    requires
        0 <= i < m.in_use.len(),
        i < m.total_pages,
        !m.in_use[i],
    ensures
        model_allocate(m).1 matches Ok(j) && {
            &&& j <= i
            &&& !m.in_use[j as int]
            &&& forall|k: int| 0 <= k < j ==> #[trigger] m.in_use[k]
            &&& model_allocate(m).0.in_use == m.in_use.update(j as int, true)
            &&& model_allocate(m).0.total_pages == m.total_pages
            &&& model_allocate(m).0.allocated == (if m.allocated == u64::MAX { 0 } else { m.allocated + 1 })
        },
{
    assert(exists|c: int| is_first_free(m.in_use, c)) by {
        lemma_some_first_free(m.in_use, i);
    }
    let j = choose|c: int| is_first_free(m.in_use, c);
    if j > i {
        assert(m.in_use[i]);
    }
}

/// If some page of `s` up to `i` is free, there is a lowest free page.
proof fn lemma_some_first_free(s: Seq<bool>, i: int)
    requires
        0 <= i < s.len(),
        !s[i],
    ensures
        exists|c: int| is_first_free(s, c),
    decreases i,
{
    if forall|k: int| 0 <= k < i ==> #[trigger] s[k] {
        assert(is_first_free(s, i));
    } else {
        let k = choose|k: int| 0 <= k < i && !s[k];
        lemma_some_first_free(s, k);
    }
}

/// Allocation fails only when every page below `total_pages` (and inside the bitmap)
/// is in use.
pub proof fn lemma_allocate_fails_only_when_full(m: AllocatorModel)
    ensures
        model_allocate(m).1 is Err ==> forall|i: int|
            0 <= i < m.in_use.len() && i < m.total_pages ==> #[trigger] m.in_use[i],
{
    assert forall|i: int| 0 <= i < m.in_use.len() && i < m.total_pages && model_allocate(m).1 is Err
        implies #[trigger] m.in_use[i] by {
        if !m.in_use[i] {
            lemma_allocate_succeeds_when_a_page_is_free(m, i);
        }
    }
}

/// Freeing a page in use below `total_pages` always succeeds, in every state: its bit
/// is cleared, nothing else changes, and the counter drops by one (wrapping at 0).
pub proof fn lemma_free_releases_page_in_use(m: AllocatorModel, index: u64)
    requires
        index < m.total_pages,
        index < m.in_use.len(),
        m.in_use[index as int],
    ensures
        model_free(m, index).1 == Ok::<(), AllocError>(()),
        model_free(m, index).0.in_use == m.in_use.update(index as int, false),
        model_free(m, index).0.total_pages == m.total_pages,
        model_free(m, index).0.allocated == (if m.allocated == 0 { u64::MAX } else { (m.allocated - 1) as u64 }),
{
}

/// `free` refuses exactly the pages it must: a page at or past `total_pages` or outside
/// the bitmap as invalid, a page not in use as a double free; a refusal changes
/// nothing.
pub proof fn lemma_free_refusals(m: AllocatorModel, index: u64)
    ensures
        index >= m.total_pages || index >= m.in_use.len() ==> model_free(m, index) == (m, Err::<(), AllocError>(AllocError::InvalidPage)),
        index < m.total_pages && index < m.in_use.len() && !m.in_use[index as int]
            ==> model_free(m, index) == (m, Err::<(), AllocError>(AllocError::DoubleFreePrevented)),
{
}

/// An operation on an allocator.
pub enum AllocOp {
    Allocate,
    Free(u64),
}

/// The state after one operation.
pub open spec fn apply_op(m: AllocatorModel, op: AllocOp) -> AllocatorModel {
    match op {
        AllocOp::Allocate => model_allocate(m).0,
        AllocOp::Free(index) => model_free(m, index).0,
    }
}

/// The page an operation hands out, if any.
pub open spec fn handed_out(m: AllocatorModel, op: AllocOp) -> Option<u64> {
    match op {
        AllocOp::Allocate => match model_allocate(m).1 {
            Ok(i) => Some(i),
            Err(_) => None,
        },
        AllocOp::Free(_) => None,
    }
}

/// The state after a sequence of operations, applied in order.
pub open spec fn run_ops(m: AllocatorModel, ops: Seq<AllocOp>) -> AllocatorModel
    decreases ops.len(),
{
    if ops.len() == 0 {
        m
    } else {
        apply_op(run_ops(m, ops.drop_last()), ops.last())
    }
}

/// A page in use stays in use through any operations that do not free it, and the
/// bitmap size and page total never change.
proof fn lemma_run_keeps_page_in_use(m: AllocatorModel, ops: Seq<AllocOp>, i: int)
    requires
        0 <= i < m.in_use.len(),
        m.in_use[i],
        forall|k: int| 0 <= k < ops.len() ==> #[trigger] ops[k] != AllocOp::Free(i as u64),
    ensures
        run_ops(m, ops).in_use.len() == m.in_use.len(),
        run_ops(m, ops).total_pages == m.total_pages,
        run_ops(m, ops).in_use[i],
    decreases ops.len(),
{
    if ops.len() > 0 {
        let prefix = ops.drop_last();
        assert forall|k: int| 0 <= k < prefix.len() implies #[trigger] prefix[k] != AllocOp::Free(i as u64) by {
            assert(prefix[k] == ops[k]);
        }
        lemma_run_keeps_page_in_use(m, prefix, i);
        let before = run_ops(m, prefix);
        assert(ops[ops.len() - 1] != AllocOp::Free(i as u64));
        match ops.last() {
            AllocOp::Allocate => {
                if exists|j: int| is_first_free(before.in_use, j) {
                    let j = choose|j: int| is_first_free(before.in_use, j);
                    assert(j != i);
                }
            },
            AllocOp::Free(index) => {},
        }
    }
}

/// No page is handed out twice while it is allocated: once a page is in use, no
/// `allocate` in any later sequence of operations that never frees that page hands
/// it out again.
pub proof fn lemma_in_use_page_never_handed_out(m: AllocatorModel, ops: Seq<AllocOp>, page: u64)
    requires
        page < m.in_use.len(),
        m.in_use[page as int],
        forall|k: int| 0 <= k < ops.len() ==> #[trigger] ops[k] != AllocOp::Free(page),
    ensures
        forall|k: int| 0 <= k < ops.len() ==> handed_out(run_ops(m, ops.take(k)), #[trigger] ops[k]) != Some(page),
{
    assert forall|k: int| 0 <= k < ops.len() implies handed_out(run_ops(m, ops.take(k)), #[trigger] ops[k]) != Some(page) by {
        let prefix = ops.take(k);
        assert forall|q: int| 0 <= q < prefix.len() implies #[trigger] prefix[q] != AllocOp::Free(page as int as u64) by {
            assert(prefix[q] == ops[q]);
        }
        lemma_run_keeps_page_in_use(m, prefix, page as int);
        let before = run_ops(m, prefix);
        if ops[k] is Allocate {
            if exists|j: int| is_first_free(before.in_use, j) {
                let j = choose|j: int| is_first_free(before.in_use, j);
                assert(j != page);
            }
        }
    }
}

/// Over any sequence of allocations and frees, the counter stays equal to the number
/// of issuable pages in use; in particular from a new allocator.
pub proof fn lemma_run_keeps_counter(m: AllocatorModel, ops: Seq<AllocOp>)
    requires
        counter_matches(m),
    ensures
        counter_matches(run_ops(m, ops)),
        run_ops(m, ops).total_pages == m.total_pages,
    decreases ops.len(),
{
    if ops.len() > 0 {
        let prefix = ops.drop_last();
        lemma_run_keeps_counter(m, prefix);
        let before = run_ops(m, prefix);
        assert(ops[ops.len() - 1] == ops.last());
        match ops.last() {
            AllocOp::Allocate => lemma_allocate_keeps_counter(before),
            AllocOp::Free(index) => lemma_free_keeps_counter(before, index),
        }
    }
}

} // verus!
