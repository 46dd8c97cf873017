//! The initial memory of a guest: a program's words in the primary region, plus a playground.
use vstd::prelude::*;
use crate::layout::{MEM_SIZE, PLAYGROUND_BASE};
use crate::loader::Program;
use vstd::std_specs::btree::spec_btree_map_iter;
use vstd::std_specs::iter::IteratorSpec;
use crate::memory::{
    lemma_region_unique, lemma_word_write_read, lemma_zero_cell, read_spec, MemAccessSize,
    MemorySpace,
};

verus! {

broadcast use vstd::std_specs::btree::group_btree_axioms, vstd::laws_cmp::group_laws_cmp;

/// An image of a guest's whole memory.
pub struct MemoryImage {
    /// The regions and their contents.
    pub memory_space: MemorySpace,
}

/// The initial word at `a` of the primary region: the program's word, or zero.
pub open spec fn initial_word(img: Map<u64, u32>, a: u64) -> u64 {
    if img.contains_key(a) {
        img[a] as u64
    } else {
        0
    }
}

impl MemoryImage {
    pub open spec fn wf(&self) -> bool {
        self.memory_space.wf()
    }

    /// An image over the given regions.
    pub fn from_space(memory_space: MemorySpace) -> (r: MemoryImage)
        ensures
            r.memory_space == memory_space,
    {
        MemoryImage { memory_space }
    }

    /// The initial image of `program`: the primary region `[0, MEM_SIZE)` holding the program's
    /// words (zero elsewhere; words at unaligned or out-of-range addresses are left out), and
    /// the zero-filled playground region of the same size at `PLAYGROUND_BASE`.
    pub fn new(program: &Program, page_size: u64) -> (r: MemoryImage)
        ensures
            r.wf(),
            r.memory_space@.len() == 2,
            r.memory_space@[0].base == 0,
            r.memory_space@[0].size == MEM_SIZE,
            r.memory_space@[1].base == PLAYGROUND_BASE,
            r.memory_space@[1].size == MEM_SIZE,
            forall|a: u64|
                a % 4 == 0 && a + 4 <= MEM_SIZE ==> #[trigger] read_spec(
                    r.memory_space@,
                    a,
                    MemAccessSize::Word,
                ) == Some(initial_word(program.image_view(), a)),
            forall|j: int|
                0 <= j < r.memory_space@[1].cells.len() ==> #[trigger] r.memory_space@[1].cells[j]
                    == 0,
    {
        let mut space = MemorySpace::new();
        let _ = space.add_memory(0, MEM_SIZE);
        let m = &program.image;
        let ghost sq = spec_btree_map_iter(m).remaining();
        let ghost mut n: int = 0;
        proof {
            assert(space@[0].cells.len() == MEM_SIZE / 8);
            assert forall|a: u64| a % 4 == 0 && a + 4 <= MEM_SIZE implies #[trigger] read_spec(
                space@,
                a,
                MemAccessSize::Word,
            ) == Some(0u64) by {
                assert(space@[0].holds(a as int, 4));
                lemma_region_unique(space@, a as int, 4, 0);
                let off = (a - 0) as u64;
                assert(space@[0].cells[(off / 8) as int] == 0);
                lemma_zero_cell(((off % 8) * 8) as u64, 0xffff_ffff);
            }
        }
        for (addr, word) in it: m.iter()
            invariant
                it.seq() == sq,
                n == it.index(),
                forall|i: int|
                    0 <= i < sq.len() ==> m@.contains_key(*sq[i].0) && m@[*sq[i].0] == *sq[i].1,
                space.wf(),
                space@.len() == 1,
                space@[0].base == 0,
                space@[0].size == MEM_SIZE,
                forall|a: u64|
                    a % 4 == 0 && a + 4 <= MEM_SIZE ==> #[trigger] read_spec(
                        space@,
                        a,
                        MemAccessSize::Word,
                    ) == Some(
                        if exists|j: int| 0 <= j < n && *sq[j].0 == a {
                            m@[a] as u64
                        } else {
                            0u64
                        },
                    ),
        {
            let ghost pre = space@;
            let ghost n0 = n;
            let _ = space.write(*addr, MemAccessSize::Word, *word as u64);
            proof {
                assert(*sq[n0].0 == *addr && *sq[n0].1 == *word);
                n = n + 1;
                assert forall|a: u64| a % 4 == 0 && a + 4 <= MEM_SIZE implies #[trigger] read_spec(
                    space@,
                    a,
                    MemAccessSize::Word,
                ) == Some(
                    if exists|j: int| 0 <= j < n && *sq[j].0 == a {
                        m@[a] as u64
                    } else {
                        0u64
                    },
                ) by {
                    assert(pre[0].holds(a as int, 4));
                    if *addr % 4 == 0 {
                        lemma_word_write_read(pre, *addr, *word, a);
                    } else {
                        assert(space@ == pre);
                    }
                    if exists|j: int| 0 <= j < n && *sq[j].0 == a {
                        let j = choose|j: int| 0 <= j < n && *sq[j].0 == a;
                        if j < n0 {
                            assert(exists|j: int| 0 <= j < n0 && *sq[j].0 == a);
                        }
                    } else {
                        assert(*sq[n0].0 != a);
                    }
                }
            }
        }
        proof {
            assert(n == sq.len());
            assert forall|a: u64| a % 4 == 0 && a + 4 <= MEM_SIZE implies #[trigger] read_spec(
                space@,
                a,
                MemAccessSize::Word,
            ) == Some(initial_word(program.image_view(), a)) by {
                if m@.contains_key(a) {
                    assert(sq.contains((&a, &m@[a])));
                    let j = choose|j: int| 0 <= j < sq.len() && sq[j] == (&a, &m@[a]);
                    assert(*sq[j].0 == a);
                } else {
                    if exists|j: int| 0 <= j < n && *sq[j].0 == a {
                        let j = choose|j: int| 0 <= j < n && *sq[j].0 == a;
                        assert(m@.contains_key(*sq[j].0));
                    }
                }
            }
        }
        let ghost primary = space@;
        let _ = space.add_memory(PLAYGROUND_BASE, MEM_SIZE);
        proof {
            assert(space@ == primary.push(space@[1]));
            assert forall|a: u64| a % 4 == 0 && a + 4 <= MEM_SIZE implies #[trigger] read_spec(
                space@,
                a,
                MemAccessSize::Word,
            ) == Some(initial_word(program.image_view(), a)) by {
                assert(read_spec(primary, a, MemAccessSize::Word) == Some(
                    initial_word(program.image_view(), a),
                ));
                assert(primary[0].holds(a as int, 4));
                assert(space@[0] == primary[0]);
                assert(space@[0].holds(a as int, 4));
                lemma_region_unique(space@, a as int, 4, 0);
                lemma_region_unique(primary, a as int, 4, 0);
            }
        }
        MemoryImage { memory_space: space }
    }
}

} // verus!
