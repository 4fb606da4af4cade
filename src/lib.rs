//! Host-side capability table, host context builder and instance state
//! snapshots for a sandboxed component runtime.

pub mod ctx;
pub mod pool;
pub mod snapshot;
pub mod table;

pub use ctx::{BuilderModel, BuildError, MonotonicClock, StdioInput, StdioOutput, WallClock, WasiCtx, WasiCtxBuilder,
    WasiView};
pub use pool::{Grant, IpAddress, IpNetwork, NetworkPool, SocketAddress};
pub use snapshot::{Instance, Snapshot, SnapshotError, Val};
pub use table::{
    DirPerms, DirResource, FilePerms, IsATTY, InputStream, OutputStream, Resource, ResourceKind, Table, TableError,
};
