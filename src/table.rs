//! An arena of host resources addressed by opaque, never reused handles.
use vstd::prelude::*;

verus! {

#[verifier::external_type_specification]
#[verifier::external_body]
pub struct ExCapDir(cap_std::fs::Dir);

/// Permissions on a preopened directory itself.
#[derive(Clone, Copy, Debug, PartialEq, Eq, Structural)]
pub struct DirPerms {
    pub read: bool,
    pub mutate: bool,
}

/// Permissions on the files opened beneath a preopened directory.
#[derive(Clone, Copy, Debug, PartialEq, Eq, Structural)]
pub struct FilePerms {
    pub read: bool,
    pub write: bool,
}

/// Whether a standard stream is attached to a terminal.
#[derive(Clone, Copy, Debug, PartialEq, Eq, Structural)]
pub enum IsATTY {
    Yes,
    No,
}

/// Where a guest's input stream reads from.
#[derive(Clone, Debug, PartialEq, Eq)]
pub enum InputStream {
    /// Reads signal end of input at once.
    Closed,
    /// The host process's standard input.
    Stdin,
    /// A fixed sequence of bytes.
    Bytes(Vec<u8>),
}

/// Where a guest's output stream writes to.
#[derive(Clone, Copy, Debug, PartialEq, Eq, Structural)]
pub enum OutputStream {
    /// Writes are accepted and discarded.
    Sink,
    /// The host process's standard output.
    Stdout,
    /// The host process's standard error.
    Stderr,
}

/// A directory capability with the permissions granted on it.
pub struct DirResource {
    pub dir: cap_std::fs::Dir,
    pub perms: DirPerms,
    pub file_perms: FilePerms,
}

/// A host resource held in a [`Table`].
pub enum Resource {
    InputStream(InputStream),
    OutputStream(OutputStream),
    Dir(DirResource),
}

/// The capability kind of a [`Resource`].
#[derive(Clone, Copy, Debug, PartialEq, Eq, Structural)]
pub enum ResourceKind {
    InputStream,
    OutputStream,
    Dir,
}

/// Why a table operation failed.
#[derive(Clone, Copy, Debug, PartialEq, Eq, Structural)]
pub enum TableError {
    /// The handle was never issued, or its resource was removed.
    NotFound { handle: u32 },
    /// The handle holds a resource of another kind.
    TypeMismatch { handle: u32, expected: ResourceKind, actual: ResourceKind },
    /// The table has issued every handle it may.
    Full,
}

pub open spec fn kind_of(r: Resource) -> ResourceKind {
    match r {
        Resource::InputStream(_) => ResourceKind::InputStream,
        Resource::OutputStream(_) => ResourceKind::OutputStream,
        Resource::Dir(_) => ResourceKind::Dir,
    }
}

impl Resource {
    pub fn kind(&self) -> (k: ResourceKind)
        ensures
            k == kind_of(*self),
    {
        match self {
            Resource::InputStream(_) => ResourceKind::InputStream,
            Resource::OutputStream(_) => ResourceKind::OutputStream,
            Resource::Dir(_) => ResourceKind::Dir,
        }
    }
}

/// The number of handles a table can ever issue.
pub const CAPACITY: usize = 0xffff_ffff;

/// What a lookup of `handle` with the expected `kind` gives on the slots `s`.
pub open spec fn lookup(s: Seq<Option<Resource>>, handle: u32, kind: ResourceKind) -> Result<
    Resource,
    TableError,
> {
    if handle < s.len() && s[handle as int] is Some {
        let r = s[handle as int]->Some_0;
        if kind_of(r) == kind {
            Ok(r)
        } else {
            Err(TableError::TypeMismatch { handle, expected: kind, actual: kind_of(r) })
        }
    } else {
        Err(TableError::NotFound { handle })
    }
}

/// The slots after pushing each of `rs` in turn into an empty table.
pub open spec fn pushed_all(rs: Seq<Resource>) -> Seq<Option<Resource>>
    decreases rs.len(),
{
    if rs.len() == 0 {
        Seq::empty()
    } else {
        pushed_all(rs.drop_last()).push(Some(rs.last()))
    }
}

/// The handle that `push` returns for the `i`-th resource pushed into an
/// empty table.
pub open spec fn pushed_handle(i: int) -> u32 {
    i as u32
}

/// The handles and kinds of the live entries among the first `n` slots.
pub open spec fn live_entries(s: Seq<Option<Resource>>, n: nat) -> Seq<(u32, ResourceKind)>
    decreases n,
{
    if n == 0 {
        Seq::empty()
    } else {
        let before = live_entries(s, (n - 1) as nat);
        match s[n - 1] {
            Some(r) => before.push(((n - 1) as u32, kind_of(r))),
            None => before,
        }
    }
}

/// Handle `h` is the index of its slot; a removed entry leaves an empty slot
/// behind, so no handle is ever issued twice.
pub struct Table {
    slots: Vec<Option<Resource>>,
    limit: usize,
}

impl Table {
    /// The slots of the table: entry `h` is the resource under handle `h`.
    pub closed spec fn slots(&self) -> Seq<Option<Resource>> {
        self.slots@
    }

    /// The number of handles this table will issue.
    pub closed spec fn limit(&self) -> nat {
        self.limit as nat
    }

    pub open spec fn wf(&self) -> bool {
        self.slots().len() <= self.limit() <= CAPACITY
    }

    pub fn new() -> (t: Table)
        ensures
            t.wf(),
            t.slots() == Seq::<Option<Resource>>::empty(),
            t.limit() == CAPACITY,
    {
        Table { slots: Vec::new(), limit: CAPACITY }
    }

    /// An empty table that issues at most `limit` handles (at most
    /// `CAPACITY` whatever `limit` is).
    pub fn with_limit(limit: usize) -> (t: Table)
        ensures
            t.wf(),
            t.slots() == Seq::<Option<Resource>>::empty(),
            t.limit() == if limit < CAPACITY {
                limit as nat
            } else {
                CAPACITY as nat
            },
    {
        let limit = if limit < CAPACITY {
            limit
        } else {
            CAPACITY
        };
        Table { slots: Vec::new(), limit }
    }

    /// Inserts `r` under a fresh handle.
    pub fn push(&mut self, r: Resource) -> (res: Result<u32, TableError>)
        requires
            old(self).wf(),
        ensures
            final(self).wf(),
            final(self).limit() == old(self).limit(),
            old(self).slots().len() < old(self).limit() ==> res == Ok::<u32, TableError>(
                old(self).slots().len() as u32,
            ) && final(self).slots() == old(self).slots().push(Some(r)),
            old(self).slots().len() >= old(self).limit() ==> res == Err::<u32, TableError>(
                TableError::Full,
            ) && final(self).slots() == old(self).slots(),
    {
        if self.slots.len() >= self.limit {
            return Err(TableError::Full);
        }
        let h = self.slots.len() as u32;
        self.slots.push(Some(r));
        Ok(h)
    }

    /// The resource under `handle`, provided it is of kind `kind`.
    pub fn get(&self, handle: u32, kind: ResourceKind) -> (res: Result<&Resource, TableError>)
        ensures
            match (res, lookup(self.slots(), handle, kind)) {
                (Ok(r), Ok(s)) => *r == s,
                (Err(e), Err(f)) => e == f,
                _ => false,
            },
    {
        let i = handle as usize;
        if i >= self.slots.len() {
            return Err(TableError::NotFound { handle });
        }
        match &self.slots[i] {
            None => Err(TableError::NotFound { handle }),
            Some(r) => {
                let actual = r.kind();
                if actual == kind {
                    Ok(r)
                } else {
                    Err(TableError::TypeMismatch { handle, expected: kind, actual })
                }
            },
        }
    }

    /// Takes the resource under `handle` out of the table, provided it is of
    /// kind `kind`; the handle is invalid from then on.
    pub fn remove(&mut self, handle: u32, kind: ResourceKind) -> (res: Result<Resource, TableError>)
        requires
            old(self).wf(),
        ensures
            final(self).wf(),
            final(self).limit() == old(self).limit(),
            match (res, lookup(old(self).slots(), handle, kind)) {
                (Ok(r), Ok(s)) => r == s && final(self).slots() == old(self).slots().update(
                    handle as int,
                    None,
                ),
                (Err(e), Err(f)) => e == f && final(self).slots() == old(self).slots(),
                _ => false,
            },
    {
        let i = handle as usize;
        if i >= self.slots.len() {
            return Err(TableError::NotFound { handle });
        }
        let actual = match &self.slots[i] {
            None => {
                return Err(TableError::NotFound { handle });
            },
            Some(r) => r.kind(),
        };
        if actual != kind {
            return Err(TableError::TypeMismatch { handle, expected: kind, actual });
        }
        let mut taken: Option<Resource> = None;
        std::mem::swap(&mut taken, &mut self.slots[i]);
        match taken {
            Some(r) => Ok(r),
            None => Err(TableError::NotFound { handle }),
        }
    }

    /// The handle and kind of every live entry, in handle order.
    pub fn entries(&self) -> (r: Vec<(u32, ResourceKind)>)
        requires
            self.wf(),
        ensures
            r@ == live_entries(self.slots(), self.slots().len()),
    {
        let mut r: Vec<(u32, ResourceKind)> = Vec::new();
        let mut i: usize = 0;
        while i < self.slots.len()
            invariant
                i <= self.slots@.len() <= CAPACITY,
                r@ == live_entries(self.slots@, i as nat),
            decreases self.slots@.len() - i,
        {
            match &self.slots[i] {
                Some(x) => {
                    r.push((i as u32, x.kind()));
                },
                None => {},
            }
            i = i + 1;
        }
        r
    }
}

/// Pushing resources one by one into an empty table gives handles
/// `0, 1, 2, ...`, which are pairwise distinct, and each handle looks up the
/// resource pushed under it when asked for that resource's kind.
pub proof fn lemma_pushes_distinct_and_retrievable(rs: Seq<Resource>)
    requires
        rs.len() <= CAPACITY,
    ensures
        pushed_all(rs).len() == rs.len(),
        forall|i: int, j: int|
            0 <= i < j < rs.len() ==> (#[trigger] pushed_handle(i)) != #[trigger] pushed_handle(j),
        forall|i: int|
            0 <= i < rs.len() ==> #[trigger] lookup(pushed_all(rs), pushed_handle(i), kind_of(rs[i]))
                == Ok::<Resource, TableError>(rs[i]),
{
    lemma_pushed_len(rs);
    assert forall|i: int| 0 <= i < rs.len() implies #[trigger] lookup(
        pushed_all(rs),
        pushed_handle(i),
        kind_of(rs[i]),
    ) == Ok::<Resource, TableError>(rs[i]) by {
        lemma_pushed_slot(rs, i);
    }
}

proof fn lemma_pushed_slot(rs: Seq<Resource>, i: int)
    requires
        0 <= i < rs.len(),
    ensures
        pushed_all(rs).len() == rs.len(),
        pushed_all(rs)[i] == Some(rs[i]),
    decreases rs.len(),
{
    lemma_pushed_len(rs);
    if i < rs.len() - 1 {
        lemma_pushed_slot(rs.drop_last(), i);
    }
}

proof fn lemma_pushed_len(rs: Seq<Resource>)
    ensures
        pushed_all(rs).len() == rs.len(),
    decreases rs.len(),
{
    if rs.len() > 0 {
        lemma_pushed_len(rs.drop_last());
    }
}

/// Once the entry under `handle` has been removed, looking the handle up
/// fails with `NotFound` whatever kind is asked for.
pub proof fn lemma_removed_is_not_found(
    s: Seq<Option<Resource>>,
    handle: u32,
    kind: ResourceKind,
    other: ResourceKind,
)
    requires
        lookup(s, handle, kind) is Ok,
    ensures
        lookup(s.update(handle as int, None), handle, other) == Err::<Resource, TableError>(
            TableError::NotFound { handle },
        ),
{
}

/// Looking up a live handle with a kind other than that of its resource
/// fails with `TypeMismatch`.
pub proof fn lemma_wrong_kind_is_mismatch(s: Seq<Option<Resource>>, handle: u32, kind: ResourceKind)
    requires
        handle < s.len(),
        s[handle as int] is Some,
        kind_of(s[handle as int]->Some_0) != kind,
    ensures
        lookup(s, handle, kind) == Err::<Resource, TableError>(
            TableError::TypeMismatch {
                handle,
                expected: kind,
                actual: kind_of(s[handle as int]->Some_0),
            },
        ),
{
}

} // verus!
