use wasi_ctx::{
    BuildError, DirPerms, FilePerms, InputStream, IpAddress, IpNetwork, IsATTY, MonotonicClock,
    OutputStream, Resource, ResourceKind, SocketAddress, Table, WallClock, WasiCtxBuilder,
};

fn open_dir() -> cap_std::fs::Dir {
    cap_std::fs::Dir::open_ambient_dir(".", cap_std::ambient_authority()).unwrap()
}

const READ_DIR: DirPerms = DirPerms { read: true, mutate: false };
const READ_FILE: FilePerms = FilePerms { read: true, write: false };

#[test]
fn end_to_end_context() {
    let mut b = WasiCtxBuilder::new();
    b.preopened_dir(open_dir(), READ_DIR, READ_FILE, "/data");
    b.inherit_network();
    let mut table = Table::new();
    let ctx = b.build(&mut table).unwrap();
    assert_eq!(ctx.preopens().len(), 1);
    assert_eq!(ctx.preopens()[0], (3, "/data".to_string()));
    let addr = SocketAddress { ip: IpAddress::V4(u32::from_be_bytes([93, 184, 216, 34])), port: 443 };
    assert!(ctx.is_authorized(addr));
    assert!(ctx.is_authorized(SocketAddress { ip: IpAddress::V6(1), port: 1 }));
    assert_eq!(ctx.stdin().input_stream, 0);
    assert_eq!(ctx.stdin().isatty, IsATTY::No);
    assert_eq!(ctx.stdout().output_stream, 1);
    assert_eq!(ctx.stderr().output_stream, 2);
    assert!(matches!(
        table.get(0, ResourceKind::InputStream).unwrap(),
        Resource::InputStream(InputStream::Closed)
    ));
    assert!(matches!(
        table.get(1, ResourceKind::OutputStream).unwrap(),
        Resource::OutputStream(OutputStream::Sink)
    ));
    match table.get(3, ResourceKind::Dir).unwrap() {
        Resource::Dir(d) => assert_eq!(d.perms, READ_DIR),
        _ => panic!("expected a directory"),
    }
    assert_eq!(table.entries().len(), 4);
}

#[test]
fn default_context_authorizes_no_address() {
    let mut b = WasiCtxBuilder::new();
    let mut table = Table::new();
    let ctx = b.build(&mut table).unwrap();
    assert!(ctx.preopens().is_empty());
    assert!(ctx.env().is_empty());
    assert!(ctx.args().is_empty());
    assert_eq!(ctx.wall_clock(), WallClock::Host);
    assert_eq!(ctx.monotonic_clock(), MonotonicClock::Host);
    let addr = SocketAddress { ip: IpAddress::V4(u32::from_be_bytes([93, 184, 216, 34])), port: 443 };
    assert!(!ctx.is_authorized(addr));
}

#[test]
fn handles_follow_existing_entries() {
    let mut table = Table::new();
    table.push(Resource::OutputStream(OutputStream::Sink)).unwrap();
    table.push(Resource::OutputStream(OutputStream::Sink)).unwrap();
    let mut b = WasiCtxBuilder::new();
    b.preopened_dir(open_dir(), READ_DIR, READ_FILE, "/a");
    b.preopened_dir(open_dir(), READ_DIR, READ_FILE, "/b");
    let ctx = b.build(&mut table).unwrap();
    assert_eq!(ctx.stdin().input_stream, 2);
    assert_eq!(ctx.stderr().output_stream, 4);
    assert_eq!(ctx.preopens()[0], (5, "/a".to_string()));
    assert_eq!(ctx.preopens()[1], (6, "/b".to_string()));
}

#[test]
fn env_and_args_keep_order_and_duplicates() {
    let mut b = WasiCtxBuilder::new();
    b.env("A", "1");
    b.envs(&[("B", "2"), ("A", "3")]);
    b.arg("prog");
    b.args(&["-v", "x"]);
    let mut table = Table::new();
    let ctx = b.build(&mut table).unwrap();
    let env: Vec<(String, String)> = ctx.env().clone();
    assert_eq!(
        env,
        vec![
            ("A".to_string(), "1".to_string()),
            ("B".to_string(), "2".to_string()),
            ("A".to_string(), "3".to_string()),
        ]
    );
    assert_eq!(ctx.args(), &vec!["prog".to_string(), "-v".to_string(), "x".to_string()]);
}

#[test]
fn stdio_settings_carry_into_the_context() {
    let mut b = WasiCtxBuilder::new();
    b.inherit_stdio(true, false, true);
    b.insecure_random_seed(77);
    b.wall_clock(WallClock::Fixed { seconds: 5, nanoseconds: 6 });
    b.monotonic_clock(MonotonicClock::Fixed(9));
    let mut table = Table::new();
    let ctx = b.build(&mut table).unwrap();
    assert_eq!(ctx.stdin().isatty, IsATTY::Yes);
    assert_eq!(ctx.stdout().isatty, IsATTY::No);
    assert_eq!(ctx.stderr().isatty, IsATTY::Yes);
    assert_eq!(ctx.insecure_random_seed(), 77);
    assert_eq!(ctx.wall_clock(), WallClock::Fixed { seconds: 5, nanoseconds: 6 });
    assert_eq!(ctx.monotonic_clock(), MonotonicClock::Fixed(9));
    assert!(matches!(
        table.get(0, ResourceKind::InputStream).unwrap(),
        Resource::InputStream(InputStream::Stdin)
    ));
    assert!(matches!(
        table.get(2, ResourceKind::OutputStream).unwrap(),
        Resource::OutputStream(OutputStream::Stderr)
    ));
}

#[test]
fn first_context_survives_builder_reuse() {
    let mut b = WasiCtxBuilder::new();
    b.arg("first");
    b.insert_ip_net_port_any(IpNetwork { addr: IpAddress::V4(0x0a00_0000), prefix_len: 8 });
    let mut table = Table::new();
    let ctx = b.build(&mut table).unwrap();
    b.arg("second");
    b.insert_ip_net(IpNetwork { addr: IpAddress::V4(0x0b00_0000), prefix_len: 8 }, 1);
    assert_eq!(ctx.args(), &vec!["first".to_string()]);
    assert!(ctx.is_authorized(SocketAddress { ip: IpAddress::V4(0x0a01_0203), port: 9 }));
    assert!(!ctx.is_authorized(SocketAddress { ip: IpAddress::V4(0x0b01_0203), port: 1 }));
}

#[test]
fn build_error_names_the_resource_that_did_not_fit() {
    let expected = [BuildError::Stdin, BuildError::Stdout, BuildError::Stderr];
    for (limit, err) in expected.iter().enumerate() {
        let mut b = WasiCtxBuilder::new();
        let mut table = Table::with_limit(limit);
        assert_eq!(b.build(&mut table).err(), Some(err.clone()));
        assert_eq!(table.entries().len(), limit);
    }
    let mut b = WasiCtxBuilder::new();
    b.preopened_dir(open_dir(), READ_DIR, READ_FILE, "/a");
    b.preopened_dir(open_dir(), READ_DIR, READ_FILE, "/b");
    let mut table = Table::with_limit(4);
    assert_eq!(b.build(&mut table).err(), Some(BuildError::Preopen("/b".to_string())));
    assert_eq!(table.entries().len(), 4);
}

#[test]
fn setters_leave_other_settings_alone() {
    let mut b = WasiCtxBuilder::new();
    b.stdout(OutputStream::Stderr, IsATTY::Yes);
    b.env("K", "V");
    b.inherit_stdin(true);
    b.arg("a");
    b.wall_clock(WallClock::Fixed { seconds: 1, nanoseconds: 2 });
    b.insert_ip_net_port_range(IpNetwork { addr: IpAddress::V4(0x7f00_0001), prefix_len: 32 }, 80, Some(81));
    b.envs(&[]);
    b.args(&[]);
    let mut table = Table::new();
    let ctx = b.build(&mut table).unwrap();
    assert_eq!(ctx.stdout().isatty, IsATTY::Yes);
    assert_eq!(ctx.stdin().isatty, IsATTY::Yes);
    assert_eq!(ctx.stderr().isatty, IsATTY::No);
    assert_eq!(ctx.env(), &vec![("K".to_string(), "V".to_string())]);
    assert_eq!(ctx.args(), &vec!["a".to_string()]);
    assert_eq!(ctx.wall_clock(), WallClock::Fixed { seconds: 1, nanoseconds: 2 });
    assert_eq!(ctx.monotonic_clock(), MonotonicClock::Host);
    assert!(ctx.is_authorized(SocketAddress { ip: IpAddress::V4(0x7f00_0001), port: 80 }));
    assert!(!ctx.is_authorized(SocketAddress { ip: IpAddress::V4(0x7f00_0001), port: 81 }));
    assert!(matches!(
        table.get(1, ResourceKind::OutputStream).unwrap(),
        Resource::OutputStream(OutputStream::Stderr)
    ));
}
