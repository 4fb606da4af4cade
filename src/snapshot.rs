//! Capturing the mutable state of an instantiation (its linear memories and
//! global values) as a snapshot, and installing a snapshot into a compatible
//! instantiation.
use vstd::prelude::*;

verus! {

/// A global variable's value, floats held as their bits.
#[derive(Clone, Copy, Debug, PartialEq, Eq, Structural)]
pub enum Val {
    I32(i32),
    I64(i64),
    F32(u32),
    F64(u64),
    V128(u128),
}

/// The mutable state of an instantiation: each exported linear memory's
/// bytes (its length is the memory's current size), and each exported
/// instance's global values.
pub struct Instance {
    pub memories: Vec<Vec<u8>>,
    pub globals: Vec<Vec<Val>>,
}

/// A captured state; it holds raw values only, no capability.
pub struct Snapshot {
    pub memories: Vec<Vec<u8>>,
    pub globals: Vec<Vec<Val>>,
}

/// Why a snapshot cannot be restored into an instantiation.
#[derive(Clone, Copy, Debug, PartialEq, Eq, Structural)]
pub enum SnapshotError {
    /// The number of memories differs.
    MemoryCount { expected: usize, actual: usize },
    /// The number of global sets differs.
    GlobalCount { expected: usize, actual: usize },
    /// Memory `index` is smaller than the size the snapshot recorded.
    SizeMismatch { index: usize, expected: usize, actual: usize },
    /// Global set `index` holds another number of globals.
    GlobalSetSize { index: usize, expected: usize, actual: usize },
}

pub open spec fn mems_view(m: Seq<Vec<u8>>) -> Seq<Seq<u8>> {
    m.map_values(|v: Vec<u8>| v@)
}

pub open spec fn globals_view(g: Seq<Vec<Val>>) -> Seq<Seq<Val>> {
    g.map_values(|v: Vec<Val>| v@)
}

impl Instance {
    pub open spec fn mems(&self) -> Seq<Seq<u8>> {
        mems_view(self.memories@)
    }

    pub open spec fn globs(&self) -> Seq<Seq<Val>> {
        globals_view(self.globals@)
    }
}

impl Snapshot {
    pub open spec fn mems(&self) -> Seq<Seq<u8>> {
        mems_view(self.memories@)
    }

    pub open spec fn globs(&self) -> Seq<Seq<Val>> {
        globals_view(self.globals@)
    }
}

/// A memory after the snapshot bytes `snap` were written over its start;
/// the bytes past them are left as they were.
pub open spec fn restored_memory(current: Seq<u8>, snap: Seq<u8>) -> Seq<u8> {
    snap + current.subrange(snap.len() as int, current.len() as int)
}

pub open spec fn memory_fits(mems: Seq<Seq<u8>>, snap: Seq<Seq<u8>>, i: int) -> bool {
    snap[i].len() <= mems[i].len()
}

pub open spec fn global_set_fits(globs: Seq<Seq<Val>>, snap: Seq<Seq<Val>>, i: int) -> bool {
    snap[i].len() == globs[i].len()
}

/// The first index from `from` on whose memory is smaller than the
/// snapshot's, or `m.len()` where there is none.
pub open spec fn first_unfit_memory(m: Seq<Seq<u8>>, sm: Seq<Seq<u8>>, from: int) -> int
    decreases m.len() - from,
{
    if from < 0 || from >= m.len() {
        m.len() as int
    } else if !memory_fits(m, sm, from) {
        from
    } else {
        first_unfit_memory(m, sm, from + 1)
    }
}

/// The first index from `from` on whose global set differs in length from
/// the snapshot's, or `g.len()` where there is none.
pub open spec fn first_unfit_global_set(g: Seq<Seq<Val>>, sg: Seq<Seq<Val>>, from: int) -> int
    decreases g.len() - from,
{
    if from < 0 || from >= g.len() {
        g.len() as int
    } else if !global_set_fits(g, sg, from) {
        from
    } else {
        first_unfit_global_set(g, sg, from + 1)
    }
}

/// What restoring the snapshot `(sm, sg)` into the state `(m, g)` reports:
/// `None` where it is compatible, else the first mismatch, checked in the
/// order memory count, global set count, memory sizes, global set sizes.
pub open spec fn restore_error(
    m: Seq<Seq<u8>>,
    g: Seq<Seq<Val>>,
    sm: Seq<Seq<u8>>,
    sg: Seq<Seq<Val>>,
) -> Option<SnapshotError> {
    let i = first_unfit_memory(m, sm, 0);
    let j = first_unfit_global_set(g, sg, 0);
    if sm.len() != m.len() {
        Some(SnapshotError::MemoryCount { expected: sm.len() as usize, actual: m.len() as usize })
    } else if sg.len() != g.len() {
        Some(SnapshotError::GlobalCount { expected: sg.len() as usize, actual: g.len() as usize })
    } else if i < m.len() {
        Some(
            SnapshotError::SizeMismatch {
                index: i as usize,
                expected: sm[i].len() as usize,
                actual: m[i].len() as usize,
            },
        )
    } else if j < g.len() {
        Some(
            SnapshotError::GlobalSetSize {
                index: j as usize,
                expected: sg[j].len() as usize,
                actual: g[j].len() as usize,
            },
        )
    } else {
        None
    }
}

proof fn lemma_memory_scan(m: Seq<Seq<u8>>, sm: Seq<Seq<u8>>, from: int, to: int)
    requires
        0 <= from <= to <= m.len(),
        forall|k: int| from <= k < to ==> #[trigger] memory_fits(m, sm, k),
    ensures
        first_unfit_memory(m, sm, from) == first_unfit_memory(m, sm, to),
    decreases to - from,
{
    if from < to {
        lemma_memory_scan(m, sm, from + 1, to);
    }
}

proof fn lemma_global_scan(g: Seq<Seq<Val>>, sg: Seq<Seq<Val>>, from: int, to: int)
    requires
        0 <= from <= to <= g.len(),
        forall|k: int| from <= k < to ==> #[trigger] global_set_fits(g, sg, k),
    ensures
        first_unfit_global_set(g, sg, from) == first_unfit_global_set(g, sg, to),
    decreases to - from,
{
    if from < to {
        lemma_global_scan(g, sg, from + 1, to);
    }
}

/// The scan stops at an unfit memory or runs to the end past fitting ones.
proof fn lemma_memory_scan_result(m: Seq<Seq<u8>>, sm: Seq<Seq<u8>>, from: int)
    requires
        0 <= from <= m.len(),
    ensures
        from <= first_unfit_memory(m, sm, from) <= m.len(),
        forall|k: int| from <= k < first_unfit_memory(m, sm, from) ==> #[trigger] memory_fits(m, sm, k),
        first_unfit_memory(m, sm, from) < m.len() ==> !memory_fits(m, sm, first_unfit_memory(m, sm, from)),
    decreases m.len() - from,
{
    if from < m.len() && memory_fits(m, sm, from) {
        lemma_memory_scan_result(m, sm, from + 1);
    }
}

proof fn lemma_global_scan_result(g: Seq<Seq<Val>>, sg: Seq<Seq<Val>>, from: int)
    requires
        0 <= from <= g.len(),
    ensures
        from <= first_unfit_global_set(g, sg, from) <= g.len(),
        forall|k: int| from <= k < first_unfit_global_set(g, sg, from) ==> #[trigger] global_set_fits(g, sg, k),
    decreases g.len() - from,
{
    if from < g.len() && global_set_fits(g, sg, from) {
        lemma_global_scan_result(g, sg, from + 1);
    }
}

fn copy_bytes(src: &Vec<u8>) -> (r: Vec<u8>)
    ensures
        r@ == src@,
{
    let mut r: Vec<u8> = Vec::new();
    let mut i: usize = 0;
    while i < src.len()
        invariant
            i <= src@.len(),
            r@ == src@.subrange(0, i as int),
        decreases src@.len() - i,
    {
        r.push(src[i]);
        i = i + 1;
    }
    r
}

fn copy_vals(src: &Vec<Val>) -> (r: Vec<Val>)
    ensures
        r@ == src@,
{
    let mut r: Vec<Val> = Vec::new();
    let mut i: usize = 0;
    while i < src.len()
        invariant
            i <= src@.len(),
            r@ == src@.subrange(0, i as int),
        decreases src@.len() - i,
    {
        r.push(src[i]);
        i = i + 1;
    }
    r
}

fn copy_memories(src: &Vec<Vec<u8>>) -> (r: Vec<Vec<u8>>)
    ensures
        mems_view(r@) == mems_view(src@),
{
    let mut r: Vec<Vec<u8>> = Vec::new();
    let mut i: usize = 0;
    while i < src.len()
        invariant
            i <= src@.len(),
            r@.len() == i,
            forall|k: int| 0 <= k < i ==> (#[trigger] r@[k])@ == src@[k]@,
        decreases src@.len() - i,
    {
        r.push(copy_bytes(&src[i]));
        i = i + 1;
    }
    assert(mems_view(r@) =~= mems_view(src@));
    r
}

fn copy_globals(src: &Vec<Vec<Val>>) -> (r: Vec<Vec<Val>>)
    ensures
        globals_view(r@) == globals_view(src@),
{
    let mut r: Vec<Vec<Val>> = Vec::new();
    let mut i: usize = 0;
    while i < src.len()
        invariant
            i <= src@.len(),
            r@.len() == i,
            forall|k: int| 0 <= k < i ==> (#[trigger] r@[k])@ == src@[k]@,
        decreases src@.len() - i,
    {
        r.push(copy_vals(&src[i]));
        i = i + 1;
    }
    assert(globals_view(r@) =~= globals_view(src@));
    r
}

/// Each memory of `m` after the matching snapshot memory of `sm` was
/// written over its start.
pub open spec fn restored_mems(m: Seq<Seq<u8>>, sm: Seq<Seq<u8>>) -> Seq<Seq<u8>> {
    Seq::new(m.len(), |i: int| restored_memory(m[i], sm[i]))
}

fn overwrite_prefix(current: &Vec<u8>, snap: &Vec<u8>) -> (r: Vec<u8>)
    requires
        snap@.len() <= current@.len(),
    ensures
        r@ == restored_memory(current@, snap@),
{
    let mut r = copy_bytes(snap);
    let mut i: usize = snap.len();
    while i < current.len()
        invariant
            snap@.len() <= i <= current@.len(),
            r@ == snap@ + current@.subrange(snap@.len() as int, i as int),
        decreases current@.len() - i,
    {
        r.push(current[i]);
        i = i + 1;
        assert(r@ =~= snap@ + current@.subrange(snap@.len() as int, i as int));
    }
    r
}

impl Instance {
    /// Captures every memory's bytes (up to its current size) and every
    /// global set's values, in export order.
    pub fn snapshot(&self) -> (s: Snapshot)
        ensures
            s.mems() == self.mems(),
            s.globs() == self.globs(),
    {
        Snapshot { memories: copy_memories(&self.memories), globals: copy_globals(&self.globals) }
    }

    /// Writes the snapshot's memories over the start of the matching
    /// memories, and its global values over the matching globals. Checks
    /// the whole shape first: on a mismatch nothing is written and the first
    /// mismatch is reported. Memory is never grown here.
    pub fn restore(&mut self, snapshot: &Snapshot) -> (res: Result<(), SnapshotError>)
        ensures
            match restore_error(old(self).mems(), old(self).globs(), snapshot.mems(), snapshot.globs()) {
                Some(e) => res == Err::<(), SnapshotError>(e) && final(self).mems() == old(self).mems()
                    && final(self).globs() == old(self).globs(),
                None => res is Ok && final(self).mems() == restored_mems(
                    old(self).mems(),
                    snapshot.mems(),
                ) && final(self).globs() == snapshot.globs(),
            },
    {
        let ghost m = self.mems();
        let ghost g = self.globs();
        let ghost sm = snapshot.mems();
        let ghost sg = snapshot.globs();
        if snapshot.memories.len() != self.memories.len() {
            return Err(
                SnapshotError::MemoryCount {
                    expected: snapshot.memories.len(),
                    actual: self.memories.len(),
                },
            );
        }
        if snapshot.globals.len() != self.globals.len() {
            return Err(
                SnapshotError::GlobalCount {
                    expected: snapshot.globals.len(),
                    actual: self.globals.len(),
                },
            );
        }
        let mut i: usize = 0;
        while i < self.memories.len()
            invariant
                m == self.mems(),
                g == self.globs(),
                sm == snapshot.mems(),
                sg == snapshot.globs(),
                self.memories@.len() == snapshot.memories@.len(),
                self.globals@.len() == snapshot.globals@.len(),
                i <= self.memories@.len(),
                forall|k: int| 0 <= k < i ==> #[trigger] memory_fits(m, sm, k),
            decreases self.memories@.len() - i,
        {
            if self.memories[i].len() < snapshot.memories[i].len() {
                let e = SnapshotError::SizeMismatch {
                    index: i,
                    expected: snapshot.memories[i].len(),
                    actual: self.memories[i].len(),
                };
                proof {
                    lemma_memory_scan(m, sm, 0, i as int);
                }
                return Err(e);
            }
            i = i + 1;
        }
        let mut i: usize = 0;
        while i < self.globals.len()
            invariant
                m == self.mems(),
                g == self.globs(),
                sm == snapshot.mems(),
                sg == snapshot.globs(),
                m.len() == sm.len(),
                self.globals@.len() == snapshot.globals@.len(),
                i <= self.globals@.len(),
                forall|k: int| 0 <= k < m.len() ==> #[trigger] memory_fits(m, sm, k),
                forall|k: int| 0 <= k < i ==> #[trigger] global_set_fits(g, sg, k),
            decreases self.globals@.len() - i,
        {
            if self.globals[i].len() != snapshot.globals[i].len() {
                let e = SnapshotError::GlobalSetSize {
                    index: i,
                    expected: snapshot.globals[i].len(),
                    actual: self.globals[i].len(),
                };
                proof {
                    lemma_memory_scan(m, sm, 0, m.len() as int);
                    lemma_global_scan(g, sg, 0, i as int);
                }
                return Err(e);
            }
            i = i + 1;
        }
        proof {
            lemma_memory_scan(m, sm, 0, m.len() as int);
            lemma_global_scan(g, sg, 0, g.len() as int);
        }
        let mut restored: Vec<Vec<u8>> = Vec::new();
        let mut i: usize = 0;
        while i < self.memories.len()
            invariant
                m == self.mems(),
                sm == snapshot.mems(),
                m.len() == sm.len(),
                self.memories@.len() == snapshot.memories@.len(),
                i <= self.memories@.len(),
                forall|k: int| 0 <= k < m.len() ==> #[trigger] memory_fits(m, sm, k),
                restored@.len() == i,
                forall|k: int|
                    0 <= k < i ==> (#[trigger] restored@[k])@ == restored_memory(m[k], sm[k]),
            decreases self.memories@.len() - i,
        {
            assert(memory_fits(m, sm, i as int));
            restored.push(overwrite_prefix(&self.memories[i], &snapshot.memories[i]));
            i = i + 1;
        }
        assert(mems_view(restored@) =~= restored_mems(m, sm));
        self.memories = restored;
        self.globals = copy_globals(&snapshot.globals);
        Ok(())
    }

    /// Grows memory `index` to `desired` bytes, filled with zeros, where
    /// `allowed` (the host's growth policy said yes), the memory exists and
    /// `desired` is not below its size. Otherwise nothing changes: growth is
    /// all or nothing.
    pub fn grow_memory(&mut self, index: usize, desired: usize, allowed: bool) -> (r: bool)
        ensures
            r == (allowed && index < old(self).mems().len() && desired >= old(self).mems()[index as int].len()),
            r ==> final(self).mems() == old(self).mems().update(
                index as int,
                old(self).mems()[index as int] + Seq::new(
                    (desired - old(self).mems()[index as int].len()) as nat,
                    |k: int| 0u8,
                ),
            ),
            !r ==> final(self).mems() == old(self).mems(),
            final(self).globs() == old(self).globs(),
    {
        if !allowed || index >= self.memories.len() || desired < self.memories[index].len() {
            return false;
        }
        let ghost before = self.memories@[index as int]@;
        let mut grown = copy_bytes(&self.memories[index]);
        while grown.len() < desired
            invariant
                before.len() <= grown@.len() <= desired,
                grown@ == before + Seq::new((grown@.len() - before.len()) as nat, |k: int| 0u8),
            decreases desired - grown@.len(),
        {
            grown.push(0u8);
            assert(grown@ =~= before + Seq::new((grown@.len() - before.len()) as nat, |k: int| 0u8));
        }
        self.memories.set(index, grown);
        assert(self.mems() =~= old(self).mems().update(
            index as int,
            before + Seq::new((desired - before.len()) as nat, |k: int| 0u8),
        ));
        true
    }
}

/// Restoring a snapshot into an instantiation whose memories have the sizes
/// the snapshot recorded, and whose global sets the same lengths, succeeds
/// and leaves it with exactly the snapshot's memories; its globals are the
/// snapshot's by the contract of `restore`.
pub proof fn lemma_round_trip(
    m: Seq<Seq<u8>>,
    g: Seq<Seq<Val>>,
    sm: Seq<Seq<u8>>,
    sg: Seq<Seq<Val>>,
)
    requires
        sm.len() == m.len(),
        sg.len() == g.len(),
        forall|i: int| 0 <= i < m.len() ==> (#[trigger] sm[i]).len() == m[i].len(),
        forall|i: int| 0 <= i < g.len() ==> (#[trigger] sg[i]).len() == g[i].len(),
    ensures
        restore_error(m, g, sm, sg) is None,
        restored_mems(m, sm) == sm,
{
    assert forall|i: int| 0 <= i < m.len() implies #[trigger] memory_fits(m, sm, i) by {
        assert(sm[i].len() == m[i].len());
    }
    assert forall|i: int| 0 <= i < g.len() implies #[trigger] global_set_fits(g, sg, i) by {
        assert(sg[i].len() == g[i].len());
    }
    lemma_memory_scan(m, sm, 0, m.len() as int);
    lemma_global_scan(g, sg, 0, g.len() as int);
    assert forall|i: int| 0 <= i < m.len() implies restored_memory(m[i], sm[i]) == sm[i] by {
        assert(sm[i].len() == m[i].len());
        assert(restored_memory(m[i], sm[i]) =~= sm[i]);
    }
    assert(restored_mems(m, sm) =~= sm);
}

/// Restoring the same snapshot a second time is accepted and changes
/// nothing more: the state equals that after the first restore.
pub proof fn lemma_restore_idempotent(
    m: Seq<Seq<u8>>,
    g: Seq<Seq<Val>>,
    sm: Seq<Seq<u8>>,
    sg: Seq<Seq<Val>>,
)
    requires
        restore_error(m, g, sm, sg) is None,
    ensures
        restore_error(restored_mems(m, sm), sg, sm, sg) is None,
        restored_mems(restored_mems(m, sm), sm) == restored_mems(m, sm),
{
    let r = restored_mems(m, sm);
    lemma_memory_scan_result(m, sm, 0);
    lemma_global_scan_result(g, sg, 0);
    assert forall|i: int| 0 <= i < r.len() implies #[trigger] memory_fits(r, sm, i) by {
        assert(memory_fits(m, sm, i));
    }
    lemma_memory_scan(r, sm, 0, r.len() as int);
    assert forall|i: int| 0 <= i < sg.len() implies #[trigger] global_set_fits(sg, sg, i) by {}
    lemma_global_scan(sg, sg, 0, sg.len() as int);
    assert forall|i: int| 0 <= i < r.len() implies restored_memory(r[i], sm[i]) == r[i] by {
        assert(memory_fits(m, sm, i));
        assert(restored_memory(r[i], sm[i]) =~= r[i]);
    }
    assert(restored_mems(r, sm) =~= r);
}

/// Restoring a snapshot that recorded a memory larger than the matching
/// memory of the target always fails (by the contract of `restore`, with
/// nothing written). Where the counts match, the failure is a size mismatch
/// that names an undersized memory, the first one, at or before `i`.
pub proof fn lemma_undersized_memory_is_size_mismatch(
    m: Seq<Seq<u8>>,
    g: Seq<Seq<Val>>,
    sm: Seq<Seq<u8>>,
    sg: Seq<Seq<Val>>,
    i: int,
)
    requires
        0 <= i < m.len(),
        i < sm.len(),
        sm[i].len() > m[i].len(),
    ensures
        restore_error(m, g, sm, sg) is Some,
        sm.len() == m.len() && sg.len() == g.len() ==> {
            let k = first_unfit_memory(m, sm, 0);
            &&& 0 <= k <= i
            &&& sm[k].len() > m[k].len()
            &&& restore_error(m, g, sm, sg) == Some(
                SnapshotError::SizeMismatch {
                    index: k as usize,
                    expected: sm[k].len() as usize,
                    actual: m[k].len() as usize,
                },
            )
        },
{
    lemma_memory_scan_result(m, sm, 0);
    if first_unfit_memory(m, sm, 0) > i {
        assert(memory_fits(m, sm, i));
    }
}

} // verus!
