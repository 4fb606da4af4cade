//! Staging a host context's capabilities and fixing them, once, into an
//! immutable [`WasiCtx`].
use crate::pool::{Grant, IpNetwork, NetworkPool, SocketAddress, all_v4, all_v6, any_port_grant, authorized, host_network, single_port_grant};
use crate::table::{
    DirPerms, DirResource, FilePerms, InputStream, IsATTY, OutputStream, Resource, Table,
};
use vstd::prelude::*;

verus! {

#[verifier::external_type_specification]
#[verifier::external_body]
pub struct ExStdRng(cap_rand::rngs::StdRng);

#[verifier::external_type_specification]
#[verifier::external_body]
pub struct ExSmallRng(cap_rand::rngs::SmallRng);

/// Relies on cap_rand::std_rng_from_entropy: a generator seeded from the
/// platform's entropy source.
#[verifier::external_body]
fn secure_rng_from_entropy() -> cap_rand::rngs::StdRng {
    cap_rand::std_rng_from_entropy(cap_rand::ambient_authority())
}

/// Relies on cap_rand's SmallRng::from_entropy: a fast generator seeded
/// from the platform's entropy source.
#[verifier::external_body]
fn small_rng_from_entropy() -> cap_rand::rngs::SmallRng {
    <cap_rand::rngs::SmallRng as cap_rand::SeedableRng>::from_entropy()
}

/// Relies on cap_rand::thread_rng and Rng::gen: one random `u128`, drawn
/// apart from the insecure generator so it cannot be guessed from it.
#[verifier::external_body]
fn random_u128() -> u128 {
    let mut rng = cap_rand::thread_rng(cap_rand::ambient_authority());
    <cap_rand::rngs::CapRng as cap_rand::Rng>::gen::<u128>(&mut rng)
}

/// The wall clock a context reads.
#[derive(Clone, Copy, Debug, PartialEq, Eq, Structural)]
pub enum WallClock {
    /// The host's system clock.
    Host,
    /// A clock that always reads the given time since the epoch.
    Fixed { seconds: u64, nanoseconds: u32 },
}

/// The monotonic clock a context reads.
#[derive(Clone, Copy, Debug, PartialEq, Eq, Structural)]
pub enum MonotonicClock {
    /// The host's monotonic clock.
    Host,
    /// A clock that always reads the given nanoseconds.
    Fixed(u64),
}

/// A standard input stream as the guest sees it: a table handle.
#[derive(Clone, Copy, Debug, PartialEq, Eq, Structural)]
pub struct StdioInput {
    pub input_stream: u32,
    pub isatty: IsATTY,
}

/// A standard output stream as the guest sees it: a table handle.
#[derive(Clone, Copy, Debug, PartialEq, Eq, Structural)]
pub struct StdioOutput {
    pub output_stream: u32,
    pub isatty: IsATTY,
}

/// Which resource could not be registered because the table was full.
#[derive(Clone, Debug, PartialEq, Eq)]
pub enum BuildError {
    Stdin,
    Stdout,
    Stderr,
    /// The preopened directory with this guest path.
    Preopen(String),
}

/// The mutable staging value of a host context: each method changes one
/// part of the configuration, and [`WasiCtxBuilder::build`] fixes it once.
pub struct WasiCtxBuilder {
    stdin: (InputStream, IsATTY),
    stdout: (OutputStream, IsATTY),
    stderr: (OutputStream, IsATTY),
    env: Vec<(String, String)>,
    args: Vec<String>,
    preopens: Vec<(DirResource, String)>,
    pool: NetworkPool,
    random: cap_rand::rngs::StdRng,
    insecure_random: cap_rand::rngs::SmallRng,
    insecure_random_seed: u128,
    wall_clock: WallClock,
    monotonic_clock: MonotonicClock,
    built: bool,
}

/// The capabilities of one instantiation, fixed when it was built.
pub struct WasiCtx {
    random: cap_rand::rngs::StdRng,
    insecure_random: cap_rand::rngs::SmallRng,
    insecure_random_seed: u128,
    wall_clock: WallClock,
    monotonic_clock: MonotonicClock,
    env: Vec<(String, String)>,
    args: Vec<String>,
    preopens: Vec<(u32, String)>,
    stdin: StdioInput,
    stdout: StdioOutput,
    stderr: StdioOutput,
    pool: NetworkPool,
}

/// Everything a builder holds, as one value. Each configuration method
/// states its effect as the old model with one part replaced.
pub struct BuilderModel {
    pub stdin: (InputStream, IsATTY),
    pub stdout: (OutputStream, IsATTY),
    pub stderr: (OutputStream, IsATTY),
    pub env: Seq<(Seq<char>, Seq<char>)>,
    pub args: Seq<Seq<char>>,
    pub preopens: Seq<(DirResource, String)>,
    pub grants: Seq<Grant>,
    pub random: cap_rand::rngs::StdRng,
    pub insecure_random: cap_rand::rngs::SmallRng,
    pub insecure_random_seed: u128,
    pub wall_clock: WallClock,
    pub monotonic_clock: MonotonicClock,
    pub built: bool,
}

impl WasiCtxBuilder {
    /// The builder's whole configuration.
    pub closed spec fn model(&self) -> BuilderModel {
        BuilderModel {
            stdin: self.stdin,
            stdout: self.stdout,
            stderr: self.stderr,
            env: env_view(self.env@),
            args: args_view(self.args@),
            preopens: self.preopens@,
            grants: self.pool.grants(),
            random: self.random,
            insecure_random: self.insecure_random,
            insecure_random_seed: self.insecure_random_seed,
            wall_clock: self.wall_clock,
            monotonic_clock: self.monotonic_clock,
            built: self.built,
        }
    }

    pub open spec fn stdin_spec(&self) -> (InputStream, IsATTY) {
        self.model().stdin
    }

    pub open spec fn stdout_spec(&self) -> (OutputStream, IsATTY) {
        self.model().stdout
    }

    pub open spec fn stderr_spec(&self) -> (OutputStream, IsATTY) {
        self.model().stderr
    }

    pub open spec fn env_spec(&self) -> Seq<(Seq<char>, Seq<char>)> {
        self.model().env
    }

    pub open spec fn args_spec(&self) -> Seq<Seq<char>> {
        self.model().args
    }

    /// The preopened directories with their guest paths, in the order added.
    pub open spec fn preopens_spec(&self) -> Seq<(DirResource, String)> {
        self.model().preopens
    }

    pub open spec fn grants(&self) -> Seq<Grant> {
        self.model().grants
    }

    pub open spec fn random_spec(&self) -> cap_rand::rngs::StdRng {
        self.model().random
    }

    pub open spec fn insecure_random_spec(&self) -> cap_rand::rngs::SmallRng {
        self.model().insecure_random
    }

    pub open spec fn insecure_random_seed_spec(&self) -> u128 {
        self.model().insecure_random_seed
    }

    pub open spec fn wall_clock_spec(&self) -> WallClock {
        self.model().wall_clock
    }

    pub open spec fn monotonic_clock_spec(&self) -> MonotonicClock {
        self.model().monotonic_clock
    }

    /// `build` may run: it has not run on this builder yet.
    pub open spec fn can_build(&self) -> bool {
        !self.is_built()
    }

    /// Whether `build` has already run on this builder.
    pub open spec fn is_built(&self) -> bool {
        self.model().built
    }

    /// A builder with the defaults: stdin closed, stdout and stderr
    /// discarding, no environment, arguments, preopens or network grants,
    /// host clocks, and generators seeded from the platform's entropy.
    pub fn new() -> (b: WasiCtxBuilder)
        ensures
            b.stdin_spec() == (InputStream::Closed, IsATTY::No),
            b.stdout_spec() == (OutputStream::Sink, IsATTY::No),
            b.stderr_spec() == (OutputStream::Sink, IsATTY::No),
            b.env_spec() == Seq::<(Seq<char>, Seq<char>)>::empty(),
            b.args_spec() == Seq::<Seq<char>>::empty(),
            b.preopens_spec() == Seq::<(DirResource, String)>::empty(),
            b.grants() == Seq::<Grant>::empty(),
            b.wall_clock_spec() == WallClock::Host,
            b.monotonic_clock_spec() == MonotonicClock::Host,
            !b.is_built(),
    {
        let insecure_random = small_rng_from_entropy();
        proof {
            assert(env_view(Seq::empty()) =~= Seq::empty());
            assert(args_view(Seq::empty()) =~= Seq::empty());
        }
        let insecure_random_seed = random_u128();
        WasiCtxBuilder {
            stdin: (InputStream::Closed, IsATTY::No),
            stdout: (OutputStream::Sink, IsATTY::No),
            stderr: (OutputStream::Sink, IsATTY::No),
            env: Vec::new(),
            args: Vec::new(),
            preopens: Vec::new(),
            pool: NetworkPool::new(),
            random: secure_rng_from_entropy(),
            insecure_random,
            insecure_random_seed,
            wall_clock: WallClock::Host,
            monotonic_clock: MonotonicClock::Host,
            built: false,
        }
    }

    pub fn stdin(&mut self, stdin: InputStream, isatty: IsATTY)
        ensures
            final(self).model() == (BuilderModel { stdin: (stdin, isatty), ..old(self).model() }),
    {
        self.stdin = (stdin, isatty);
    }

    pub fn stdout(&mut self, stdout: OutputStream, isatty: IsATTY)
        ensures
            final(self).model() == (BuilderModel { stdout: (stdout, isatty), ..old(self).model() }),
    {
        self.stdout = (stdout, isatty);
    }

    pub fn stderr(&mut self, stderr: OutputStream, isatty: IsATTY)
        ensures
            final(self).model() == (BuilderModel { stderr: (stderr, isatty), ..old(self).model() }),
    {
        self.stderr = (stderr, isatty);
    }

    /// Reads the host's standard input; `is_terminal` tells whether it is
    /// attached to a terminal.
    pub fn inherit_stdin(&mut self, is_terminal: bool)
        ensures
            final(self).model() == (BuilderModel { stdin: (InputStream::Stdin, tty_flag(is_terminal)), ..old(self).model() }),
    {
        self.stdin(InputStream::Stdin, if is_terminal { IsATTY::Yes } else { IsATTY::No });
    }

    /// Writes to the host's standard output; `is_terminal` tells whether it
    /// is attached to a terminal.
    pub fn inherit_stdout(&mut self, is_terminal: bool)
        ensures
            final(self).model() == (BuilderModel { stdout: (OutputStream::Stdout, tty_flag(is_terminal)), ..old(self).model() }),
    {
        self.stdout(OutputStream::Stdout, if is_terminal { IsATTY::Yes } else { IsATTY::No });
    }

    /// Writes to the host's standard error; `is_terminal` tells whether it
    /// is attached to a terminal.
    pub fn inherit_stderr(&mut self, is_terminal: bool)
        ensures
            final(self).model() == (BuilderModel { stderr: (OutputStream::Stderr, tty_flag(is_terminal)), ..old(self).model() }),
    {
        self.stderr(OutputStream::Stderr, if is_terminal { IsATTY::Yes } else { IsATTY::No });
    }

    /// Inherits all three standard streams of the host.
    pub fn inherit_stdio(&mut self, stdin_tty: bool, stdout_tty: bool, stderr_tty: bool)
        ensures
            final(self).model() == (BuilderModel {
                stdin: (InputStream::Stdin, tty_flag(stdin_tty)),
                stdout: (OutputStream::Stdout, tty_flag(stdout_tty)),
                stderr: (OutputStream::Stderr, tty_flag(stderr_tty)),
                ..old(self).model()
            }),
    {
        self.inherit_stdin(stdin_tty);
        self.inherit_stdout(stdout_tty);
        self.inherit_stderr(stderr_tty);
    }

    /// Appends each pair of `env`, in order; duplicates are kept.
    pub fn envs(&mut self, env: &[(&str, &str)])
        ensures
            final(self).model() == (BuilderModel {
                env: old(self).env_spec() + env@.map_values(|p: (&str, &str)| (p.0@, p.1@)),
                ..old(self).model()
            }),
    {
        let mut i: usize = 0;
        while i < env.len()
            invariant
                i <= env@.len(),
                self.model() == (BuilderModel {
                    env: old(self).env_spec() + env@.subrange(0, i as int).map_values(
                        |p: (&str, &str)| (p.0@, p.1@),
                    ),
                    ..old(self).model()
                }),
            decreases env@.len() - i,
        {
            let (k, v) = env[i];
            self.env(k, v);
            i = i + 1;
            assert(env@.subrange(0, i as int) =~= env@.subrange(0, i - 1).push(env@[i - 1]));
            assert(old(self).env_spec() + env@.subrange(0, i as int).map_values(
                |p: (&str, &str)| (p.0@, p.1@),
            ) =~= (old(self).env_spec() + env@.subrange(0, i - 1).map_values(
                |p: (&str, &str)| (p.0@, p.1@),
            )).push((k@, v@)));
        }
        assert(env@.subrange(0, i as int) =~= env@);
    }

    /// Appends the pair `k`, `v`.
    pub fn env(&mut self, k: &str, v: &str)
        ensures
            final(self).model() == (BuilderModel { env: old(self).env_spec().push((k@, v@)), ..old(self).model() }),
    {
        self.env.push((k.to_owned(), v.to_owned()));
        assert(env_view(self.env@) =~= env_view(old(self).env@).push((k@, v@)));
    }

    /// Appends each of `args`, in order.
    pub fn args(&mut self, args: &[&str])
        ensures
            final(self).model() == (BuilderModel {
                args: old(self).args_spec() + args@.map_values(|a: &str| a@),
                ..old(self).model()
            }),
    {
        let mut i: usize = 0;
        while i < args.len()
            invariant
                i <= args@.len(),
                self.model() == (BuilderModel {
                    args: old(self).args_spec() + args@.subrange(0, i as int).map_values(
                        |a: &str| a@,
                    ),
                    ..old(self).model()
                }),
            decreases args@.len() - i,
        {
            self.arg(args[i]);
            i = i + 1;
            assert(args@.subrange(0, i as int) =~= args@.subrange(0, i - 1).push(args@[i - 1]));
            assert(old(self).args_spec() + args@.subrange(0, i as int).map_values(|a: &str| a@)
                =~= (old(self).args_spec() + args@.subrange(0, i - 1).map_values(|a: &str| a@)).push(
                args@[i - 1]@,
            ));
        }
        assert(args@.subrange(0, i as int) =~= args@);
    }

    /// Appends the argument `arg`.
    pub fn arg(&mut self, arg: &str)
        ensures
            final(self).model() == (BuilderModel { args: old(self).args_spec().push(arg@), ..old(self).model() }),
    {
        self.args.push(arg.to_owned());
        assert(args_view(self.args@) =~= args_view(old(self).args@).push(arg@));
    }

    /// Grants the directory `dir`, with the given permissions, under the
    /// guest path `path`.
    pub fn preopened_dir(
        &mut self,
        dir: cap_std::fs::Dir,
        perms: DirPerms,
        file_perms: FilePerms,
        path: &str,
    )
        ensures
            final(self).model() == (BuilderModel {
                preopens: old(self).preopens_spec().push(
                    (DirResource { dir, perms, file_perms }, final(self).preopens_spec().last().1),
                ),
                ..old(self).model()
            }),
            final(self).preopens_spec().last().1@ == path@,
    {
        self.preopens.push((DirResource { dir, perms, file_perms }, path.to_owned()));
        assert(self.preopens@ =~= old(self).preopens@.push(self.preopens@.last()));
    }

    pub fn secure_random(&mut self, random: cap_rand::rngs::StdRng)
        ensures
            final(self).model() == (BuilderModel { random: random, ..old(self).model() }),
    {
        self.random = random;
    }

    pub fn insecure_random(&mut self, insecure_random: cap_rand::rngs::SmallRng)
        ensures
            final(self).model() == (BuilderModel { insecure_random: insecure_random, ..old(self).model() }),
    {
        self.insecure_random = insecure_random;
    }

    /// Records the seed reported for the insecure generator; nothing ties
    /// it to that generator's state.
    pub fn insecure_random_seed(&mut self, insecure_random_seed: u128)
        ensures
            final(self).model() == (BuilderModel { insecure_random_seed: insecure_random_seed, ..old(self).model() }),
    {
        self.insecure_random_seed = insecure_random_seed;
    }

    pub fn wall_clock(&mut self, clock: WallClock)
        ensures
            final(self).model() == (BuilderModel { wall_clock: clock, ..old(self).model() }),
    {
        self.wall_clock = clock;
    }

    pub fn monotonic_clock(&mut self, clock: MonotonicClock)
        ensures
            final(self).model() == (BuilderModel { monotonic_clock: clock, ..old(self).model() }),
    {
        self.monotonic_clock = clock;
    }

    /// Authorizes every network address the host can reach, on every port.
    pub fn inherit_network(&mut self)
        ensures
            final(self).model() == (BuilderModel {
                grants: old(self).grants().push(any_port_grant(all_v4())).push(
                    any_port_grant(all_v6()),
                ),
                ..old(self).model()
            }),
    {
        self.pool.insert_all();
    }

    /// Authorizes the one socket address `addr`.
    pub fn insert_socket_addr(&mut self, addr: SocketAddress)
        ensures
            final(self).model() == (BuilderModel {
                grants: old(self).grants().push(
                    single_port_grant(host_network(addr.ip), addr.port),
                ),
                ..old(self).model()
            }),
    {
        self.pool.insert_socket_addr(addr);
    }

    /// Authorizes every address of `ip_net` on every port.
    pub fn insert_ip_net_port_any(&mut self, ip_net: IpNetwork)
        requires
            ip_net.wf(),
        ensures
            final(self).model() == (BuilderModel {
                grants: old(self).grants().push(any_port_grant(ip_net)),
                ..old(self).model()
            }),
    {
        self.pool.insert_ip_net_port_any(ip_net);
    }

    /// Authorizes every address of `ip_net` on the ports from `ports_start`
    /// up to, and not including, `ports_end`.
    pub fn insert_ip_net_port_range(
        &mut self,
        ip_net: IpNetwork,
        ports_start: u16,
        ports_end: Option<u16>,
    )
        requires
            ip_net.wf(),
        ensures
            final(self).model() == (BuilderModel {
                grants: old(self).grants().push(
                    Grant { net: ip_net, ports_start, ports_end },
                ),
                ..old(self).model()
            }),
    {
        self.pool.insert_ip_net_port_range(ip_net, ports_start, ports_end);
    }

    /// Authorizes every address of `ip_net` on the one port `port`.
    pub fn insert_ip_net(&mut self, ip_net: IpNetwork, port: u16)
        requires
            ip_net.wf(),
        ensures
            final(self).model() == (BuilderModel {
                grants: old(self).grants().push(single_port_grant(ip_net, port)),
                ..old(self).model()
            }),
    {
        self.pool.insert_ip_net(ip_net, port);
    }

    /// Fixes the configuration into a [`WasiCtx`]: registers stdin, stdout
    /// and stderr, then each preopened directory in the order added, into
    /// `table`, and hands out their handles. The builder is left holding
    /// the defaults and marked as built; it cannot build again.
    ///
    /// Fails, naming the resource, when the table reaches its limit; the
    /// entries registered before that stay in the table.
    pub fn build(&mut self, table: &mut Table) -> (res: Result<WasiCtx, BuildError>)
        requires
            old(self).can_build(),
            old(table).wf(),
        ensures
            final(self).is_built(),
            final(table).wf(),
            final(table).limit() == old(table).limit(),
            ({
                let n = old(table).slots().len();
                let m = old(self).preopens_spec().len();
                let b = *old(self);
                let cap = old(table).limit();
                &&& n + 3 + m <= cap ==> {
                    &&& res is Ok
                    &&& res->Ok_0.stdin_spec() == StdioInput {
                        input_stream: n as u32,
                        isatty: b.stdin_spec().1,
                    }
                    &&& res->Ok_0.stdout_spec() == StdioOutput {
                        output_stream: (n + 1) as u32,
                        isatty: b.stdout_spec().1,
                    }
                    &&& res->Ok_0.stderr_spec() == StdioOutput {
                        output_stream: (n + 2) as u32,
                        isatty: b.stderr_spec().1,
                    }
                    &&& res->Ok_0.preopens_spec() == preopen_handles(
                        b.preopens_spec(),
                        (n + 3) as nat,
                    )
                    &&& res->Ok_0.env_spec() == b.env_spec()
                    &&& res->Ok_0.args_spec() == b.args_spec()
                    &&& res->Ok_0.grants() == b.grants()
                    &&& res->Ok_0.random_spec() == b.random_spec()
                    &&& res->Ok_0.insecure_random_spec() == b.insecure_random_spec()
                    &&& res->Ok_0.insecure_random_seed_spec() == b.insecure_random_seed_spec()
                    &&& res->Ok_0.wall_clock_spec() == b.wall_clock_spec()
                    &&& res->Ok_0.monotonic_clock_spec() == b.monotonic_clock_spec()
                    &&& final(table).slots() == old(table).slots() + stdio_slots(b)
                        + dir_slots(b.preopens_spec())
                }
                &&& n >= cap ==> res == Err::<WasiCtx, BuildError>(BuildError::Stdin)
                &&& n + 1 == cap ==> res == Err::<WasiCtx, BuildError>(BuildError::Stdout)
                &&& n + 2 == cap ==> res == Err::<WasiCtx, BuildError>(BuildError::Stderr)
                &&& n + 3 <= cap < n + 3 + m ==> res == Err::<WasiCtx, BuildError>(
                    BuildError::Preopen(b.preopens_spec()[cap - n - 3].1),
                )
                &&& res is Err ==> final(table).slots().len() == cap
                    && final(table).slots().subrange(0, n as int) == old(table).slots()
            }),
    {
        let ghost n = table.slots().len();
        let ghost cap = table.limit();
        let ghost b = *self;
        let mut staged = WasiCtxBuilder::new();
        std::mem::swap(self, &mut staged);
        self.built = true;
        let WasiCtxBuilder {
            stdin,
            stdout,
            stderr,
            env,
            args,
            preopens,
            pool,
            random,
            insecure_random,
            insecure_random_seed,
            wall_clock,
            monotonic_clock,
            built: _,
        } = staged;
        let stdin_ix = match table.push(Resource::InputStream(stdin.0)) {
            Ok(h) => h,
            Err(_) => {
                return Err(BuildError::Stdin);
            },
        };
        let stdout_ix = match table.push(Resource::OutputStream(stdout.0)) {
            Ok(h) => h,
            Err(_) => {
                return Err(BuildError::Stdout);
            },
        };
        let stderr_ix = match table.push(Resource::OutputStream(stderr.0)) {
            Ok(h) => h,
            Err(_) => {
                return Err(BuildError::Stderr);
            },
        };
        assert(table.slots() =~= old(table).slots() + stdio_slots(b));
        let ghost dirs0 = preopens@;
        let mut rest = preopens;
        let mut handles: Vec<(u32, String)> = Vec::new();
        let mut i: usize = 0;
        while rest.len() > 0
            invariant
                table.wf(),
                table.limit() == old(table).limit(),
                self.built,
                b == *old(self),
                n + 3 <= cap,
                cap == old(table).limit(),
                table.slots().len() == n + 3 + i,
                n == old(table).slots().len(),
                dirs0 == b.preopens_spec(),
                i + rest@.len() == dirs0.len(),
                rest@ == dirs0.subrange(i as int, dirs0.len() as int),
                handles@ == preopen_handles(dirs0.subrange(0, i as int), (n + 3) as nat),
                table.slots() == old(table).slots() + stdio_slots(b) + dir_slots(
                    dirs0.subrange(0, i as int),
                ),
            decreases rest@.len(),
        {
            let (dir, path) = rest.remove(0);
            assert(path == dirs0[i as int].1);
            assert(table.slots().subrange(0, n as int) =~= old(table).slots());
            assert(dirs0.subrange(0, i + 1) =~= dirs0.subrange(0, i as int).push(dirs0[i as int]));
            match table.push(Resource::Dir(dir)) {
                Ok(h) => {
                    handles.push((h, path));
                },
                Err(_) => {
                    return Err(BuildError::Preopen(path));
                },
            }
            i = i + 1;
            assert(handles@ =~= preopen_handles(dirs0.subrange(0, i as int), (n + 3) as nat));
            assert(table.slots() =~= old(table).slots() + stdio_slots(b) + dir_slots(
                dirs0.subrange(0, i as int),
            ));
        }
        assert(dirs0.subrange(0, i as int) =~= dirs0);
        Ok(
            WasiCtx {
                stdin: StdioInput { input_stream: stdin_ix, isatty: stdin.1 },
                stdout: StdioOutput { output_stream: stdout_ix, isatty: stdout.1 },
                stderr: StdioOutput { output_stream: stderr_ix, isatty: stderr.1 },
                env,
                args,
                preopens: handles,
                pool,
                random,
                insecure_random,
                insecure_random_seed,
                wall_clock,
                monotonic_clock,
            },
        )
    }
}

pub open spec fn env_view(env: Seq<(String, String)>) -> Seq<(Seq<char>, Seq<char>)> {
    env.map_values(|p: (String, String)| (p.0@, p.1@))
}

pub open spec fn args_view(args: Seq<String>) -> Seq<Seq<char>> {
    args.map_values(|a: String| a@)
}

pub open spec fn tty_flag(is_terminal: bool) -> IsATTY {
    if is_terminal {
        IsATTY::Yes
    } else {
        IsATTY::No
    }
}

/// The table entries that a build adds for the standard streams of `b`.
pub open spec fn stdio_slots(b: WasiCtxBuilder) -> Seq<Option<Resource>> {
    seq![
        Some(Resource::InputStream(b.stdin_spec().0)),
        Some(Resource::OutputStream(b.stdout_spec().0)),
        Some(Resource::OutputStream(b.stderr_spec().0)),
    ]
}

/// The table entries that a build adds for the preopened directories `ps`.
pub open spec fn dir_slots(ps: Seq<(DirResource, String)>) -> Seq<Option<Resource>> {
    ps.map_values(|p: (DirResource, String)| Some(Resource::Dir(p.0)))
}

/// The handles of the preopens `ps` registered from handle `first` on,
/// each with its guest path.
pub open spec fn preopen_handles(ps: Seq<(DirResource, String)>, first: nat) -> Seq<(u32, String)> {
    Seq::new(ps.len(), |k: int| ((first + k) as u32, ps[k].1))
}

impl WasiCtx {
    pub closed spec fn stdin_spec(&self) -> StdioInput {
        self.stdin
    }

    pub closed spec fn stdout_spec(&self) -> StdioOutput {
        self.stdout
    }

    pub closed spec fn stderr_spec(&self) -> StdioOutput {
        self.stderr
    }

    pub closed spec fn env_spec(&self) -> Seq<(Seq<char>, Seq<char>)> {
        env_view(self.env@)
    }

    pub closed spec fn args_spec(&self) -> Seq<Seq<char>> {
        args_view(self.args@)
    }

    /// The handle of each preopened directory, with its guest path.
    pub closed spec fn preopens_spec(&self) -> Seq<(u32, String)> {
        self.preopens@
    }

    pub closed spec fn grants(&self) -> Seq<Grant> {
        self.pool.grants()
    }

    /// The generator behind the secure random API.
    pub closed spec fn random_spec(&self) -> cap_rand::rngs::StdRng {
        self.random
    }

    /// The generator behind the insecure random API.
    pub closed spec fn insecure_random_spec(&self) -> cap_rand::rngs::SmallRng {
        self.insecure_random
    }

    pub closed spec fn insecure_random_seed_spec(&self) -> u128 {
        self.insecure_random_seed
    }

    pub closed spec fn wall_clock_spec(&self) -> WallClock {
        self.wall_clock
    }

    pub closed spec fn monotonic_clock_spec(&self) -> MonotonicClock {
        self.monotonic_clock
    }

    pub fn stdin(&self) -> (r: StdioInput)
        ensures
            r == self.stdin_spec(),
    {
        self.stdin
    }

    pub fn stdout(&self) -> (r: StdioOutput)
        ensures
            r == self.stdout_spec(),
    {
        self.stdout
    }

    pub fn stderr(&self) -> (r: StdioOutput)
        ensures
            r == self.stderr_spec(),
    {
        self.stderr
    }

    pub fn env(&self) -> (r: &Vec<(String, String)>)
        ensures
            env_view(r@) == self.env_spec(),
    {
        &self.env
    }

    pub fn args(&self) -> (r: &Vec<String>)
        ensures
            args_view(r@) == self.args_spec(),
    {
        &self.args
    }

    /// The handle of each preopened directory with its guest path.
    pub fn preopens(&self) -> (r: &Vec<(u32, String)>)
        ensures
            r@ == self.preopens_spec(),
    {
        &self.preopens
    }

    pub fn insecure_random_seed(&self) -> (r: u128)
        ensures
            r == self.insecure_random_seed_spec(),
    {
        self.insecure_random_seed
    }

    pub fn wall_clock(&self) -> (r: WallClock)
        ensures
            r == self.wall_clock_spec(),
    {
        self.wall_clock
    }

    pub fn monotonic_clock(&self) -> (r: MonotonicClock)
        ensures
            r == self.monotonic_clock_spec(),
    {
        self.monotonic_clock
    }

    /// Whether the context's network grants cover `addr`.
    pub fn is_authorized(&self, addr: SocketAddress) -> (r: bool)
        ensures
            r == authorized(self.grants(), addr),
    {
        self.pool.is_authorized(addr)
    }
}

/// What an embedder's per-instantiation host state offers: the resource
/// table and the context built over it, which it owns together.
pub trait WasiView {
    fn table(&self) -> &Table;

    fn table_mut(&mut self) -> &mut Table;

    fn ctx(&self) -> &WasiCtx;

    fn ctx_mut(&mut self) -> &mut WasiCtx;
}

/// Appending `a` and then `b` with `envs` adds the same pairs as appending
/// `a + b` at once; the same holds for `args`. Since each call changes the
/// builder's model in its environment (or arguments) alone, the two ways
/// leave equal builders.
pub proof fn lemma_appends_compose(
    a: Seq<(&str, &str)>,
    b: Seq<(&str, &str)>,
    x: Seq<&str>,
    y: Seq<&str>,
)
    ensures
        (a + b).map_values(|p: (&str, &str)| (p.0@, p.1@)) == a.map_values(
            |p: (&str, &str)| (p.0@, p.1@),
        ) + b.map_values(|p: (&str, &str)| (p.0@, p.1@)),
        (x + y).map_values(|s: &str| s@) == x.map_values(|s: &str| s@) + y.map_values(
            |s: &str| s@,
        ),
{
    assert((a + b).map_values(|p: (&str, &str)| (p.0@, p.1@)) =~= a.map_values(
        |p: (&str, &str)| (p.0@, p.1@),
    ) + b.map_values(|p: (&str, &str)| (p.0@, p.1@)));
    assert((x + y).map_values(|s: &str| s@) =~= x.map_values(|s: &str| s@) + y.map_values(
        |s: &str| s@,
    ));
}

/// A builder is single-use: once `build` has run on it, no configuration
/// call makes it buildable again, so a second `build` is refused by its
/// precondition. The context the first call returned is a value of its own
/// and is not touched.
pub proof fn lemma_built_builder_cannot_build(b: WasiCtxBuilder)
    requires
        b.is_built(),
    ensures
        !b.can_build(),
{
}

} // verus!
