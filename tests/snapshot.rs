use wasi_ctx::{Instance, SnapshotError, Val};

fn source() -> Instance {
    Instance {
        memories: vec![(1..=255u8).collect(), vec![9, 8, 7]],
        globals: vec![vec![Val::I64(42), Val::I64(-7)], vec![Val::I32(3)]],
    }
}

fn fresh() -> Instance {
    Instance {
        memories: vec![vec![0; 255], vec![0; 3]],
        globals: vec![vec![Val::I64(0), Val::I64(0)], vec![Val::I32(0)]],
    }
}

#[test]
fn snapshot_round_trip() {
    let src = source();
    let snap = src.snapshot();
    assert_eq!(snap.memories, src.memories);
    assert_eq!(snap.globals, src.globals);
    let mut dst = fresh();
    assert_eq!(dst.restore(&snap), Ok(()));
    assert_eq!(dst.memories, src.memories);
    assert_eq!(dst.globals, src.globals);
    let mut other = fresh();
    assert_eq!(other.restore(&snap), Ok(()));
    assert_eq!(other.memories, src.memories);
}

#[test]
fn restore_twice_is_the_same() {
    let snap = source().snapshot();
    let mut dst = Instance { memories: vec![vec![5; 300], vec![0; 3]], globals: fresh().globals };
    dst.restore(&snap).unwrap();
    let once = (dst.memories.clone(), dst.globals.clone());
    dst.restore(&snap).unwrap();
    assert_eq!((dst.memories.clone(), dst.globals.clone()), once);
    assert_eq!(dst.memories[0].len(), 300);
    assert_eq!(dst.memories[0][254], 255);
    assert_eq!(dst.memories[0][255], 5);
}

#[test]
fn restore_into_smaller_memory_is_size_mismatch() {
    let snap = source().snapshot();
    let mut dst = Instance { memories: vec![vec![0; 100], vec![0; 3]], globals: fresh().globals };
    assert_eq!(
        dst.restore(&snap),
        Err(SnapshotError::SizeMismatch { index: 0, expected: 255, actual: 100 })
    );
    assert_eq!(dst.memories, vec![vec![0; 100], vec![0; 3]]);
    assert_eq!(dst.globals, fresh().globals);
}

#[test]
fn restore_count_mismatches() {
    let snap = source().snapshot();
    let mut dst = Instance { memories: vec![vec![0; 255]], globals: fresh().globals };
    assert_eq!(dst.restore(&snap), Err(SnapshotError::MemoryCount { expected: 2, actual: 1 }));
    let mut dst = Instance { memories: fresh().memories, globals: vec![] };
    assert_eq!(dst.restore(&snap), Err(SnapshotError::GlobalCount { expected: 2, actual: 0 }));
    let mut dst = Instance {
        memories: fresh().memories,
        globals: vec![vec![Val::I64(0)], vec![Val::I32(0)]],
    };
    assert_eq!(
        dst.restore(&snap),
        Err(SnapshotError::GlobalSetSize { index: 0, expected: 2, actual: 1 })
    );
    assert_eq!(dst.memories, fresh().memories);
}

#[test]
fn growth_follows_the_policy_answer() {
    let mut inst = Instance { memories: vec![vec![1, 2]], globals: vec![] };
    assert!(!inst.grow_memory(0, 5, false));
    assert_eq!(inst.memories, vec![vec![1, 2]]);
    assert!(!inst.grow_memory(1, 5, true));
    assert!(!inst.grow_memory(0, 1, true));
    assert!(inst.grow_memory(0, 5, true));
    assert_eq!(inst.memories, vec![vec![1, 2, 0, 0, 0]]);
}
