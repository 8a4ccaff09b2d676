//! Verified core of a Ceph client library: version parsing and ordering,
//! monitor command construction, JSON navigation and rendering, the trivial
//! map (tmap) wire format, and the decisions taken around librados calls.

pub mod error;
pub mod text;
pub mod ceph_version;
pub mod tmap;
pub mod json;
pub mod mon_command;
pub mod cmd;
pub mod ceph;
pub mod completion;
pub mod admin_sockets;
pub mod ceph_volume;
pub mod status;
pub mod read_stream;
pub mod tracing_integration;
pub mod ceph_choices;

pub use ceph_version::CephVersion;
pub use error::{RadosError, RadosResult};
pub use cmd::OsdOption;
pub use json::{JsonData, JsonValue};
pub use mon_command::MonCommand;
