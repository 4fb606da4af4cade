use wasi_ctx::{InputStream, OutputStream, Resource, ResourceKind, Table, TableError};

#[test]
fn pushes_give_distinct_retrievable_handles() {
    let mut t = Table::new();
    let mut handles = Vec::new();
    for i in 0..10u8 {
        let r = if i % 2 == 0 {
            Resource::InputStream(InputStream::Bytes(vec![i]))
        } else {
            Resource::OutputStream(OutputStream::Sink)
        };
        handles.push(t.push(r).unwrap());
    }
    assert_eq!(handles, (0..10u32).collect::<Vec<_>>());
    for (i, h) in handles.iter().enumerate() {
        if i % 2 == 0 {
            match t.get(*h, ResourceKind::InputStream).unwrap() {
                Resource::InputStream(InputStream::Bytes(b)) => assert_eq!(b, &vec![i as u8]),
                _ => panic!("wrong resource"),
            }
        } else {
            assert!(matches!(
                t.get(*h, ResourceKind::OutputStream).unwrap(),
                Resource::OutputStream(OutputStream::Sink)
            ));
        }
    }
}

#[test]
fn removed_handle_is_not_found_for_every_kind() {
    let mut t = Table::new();
    let h = t.push(Resource::InputStream(InputStream::Closed)).unwrap();
    let r = t.remove(h, ResourceKind::InputStream).unwrap();
    assert!(matches!(r, Resource::InputStream(InputStream::Closed)));
    for kind in [ResourceKind::InputStream, ResourceKind::OutputStream, ResourceKind::Dir] {
        assert_eq!(t.get(h, kind).err(), Some(TableError::NotFound { handle: h }));
        assert_eq!(t.remove(h, kind).err(), Some(TableError::NotFound { handle: h }));
    }
    let h2 = t.push(Resource::OutputStream(OutputStream::Stdout)).unwrap();
    assert_ne!(h2, h);
}

#[test]
fn wrong_kind_is_type_mismatch() {
    let mut t = Table::new();
    let h = t.push(Resource::OutputStream(OutputStream::Stderr)).unwrap();
    assert_eq!(
        t.get(h, ResourceKind::InputStream).err(),
        Some(TableError::TypeMismatch {
            handle: h,
            expected: ResourceKind::InputStream,
            actual: ResourceKind::OutputStream,
        })
    );
    assert_eq!(
        t.remove(h, ResourceKind::Dir).err(),
        Some(TableError::TypeMismatch {
            handle: h,
            expected: ResourceKind::Dir,
            actual: ResourceKind::OutputStream,
        })
    );
    assert!(t.get(h, ResourceKind::OutputStream).is_ok());
}

#[test]
fn never_issued_handle_is_not_found() {
    let t = Table::new();
    assert_eq!(t.get(0, ResourceKind::Dir).err(), Some(TableError::NotFound { handle: 0 }));
    assert_eq!(
        t.get(u32::MAX, ResourceKind::InputStream).err(),
        Some(TableError::NotFound { handle: u32::MAX })
    );
}

#[test]
fn entries_list_live_handles_in_order() {
    let mut t = Table::new();
    t.push(Resource::InputStream(InputStream::Stdin)).unwrap();
    t.push(Resource::OutputStream(OutputStream::Stdout)).unwrap();
    t.push(Resource::OutputStream(OutputStream::Stderr)).unwrap();
    t.remove(1, ResourceKind::OutputStream).unwrap();
    assert_eq!(
        t.entries(),
        vec![(0, ResourceKind::InputStream), (2, ResourceKind::OutputStream)]
    );
    assert_eq!(Table::new().entries(), vec![]);
}

#[test]
fn limited_table_reports_full() {
    let mut t = Table::with_limit(2);
    assert_eq!(t.push(Resource::InputStream(InputStream::Closed)), Ok(0));
    assert_eq!(t.push(Resource::InputStream(InputStream::Closed)), Ok(1));
    assert_eq!(t.push(Resource::InputStream(InputStream::Closed)), Err(TableError::Full));
    t.remove(0, ResourceKind::InputStream).unwrap();
    assert_eq!(t.push(Resource::InputStream(InputStream::Closed)), Err(TableError::Full));
    assert_eq!(t.entries(), vec![(1, ResourceKind::InputStream)]);
}
