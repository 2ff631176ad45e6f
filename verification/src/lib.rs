//! The HTTP transport of nestrs: how routes, versions and self-mounts are
//! claimed and resolved at boot, who a request came from, which version it
//! asked for, what every response carries, and the one error shape at the
//! boundary — each decision stated as a contract and proved.
mod lexical;
mod text;
mod wire;

pub mod allow;
pub mod challenge;
pub mod client_ip;
pub mod config;
pub mod context;
pub mod controller;
pub mod cors;
pub mod edge;
pub mod endpoint;
pub mod header;
pub mod location;
pub mod metadata;
pub mod paths;
pub mod pipe;
pub mod priority;
pub mod problem;
pub mod raw_body;
pub mod security_headers;
pub mod shaper;
pub mod tls;
pub mod trace_context;
pub mod transport;
pub mod versioning;

pub use allow::MethodTable;
pub use client_ip::{ClientIp, ClientOrigin, IpAddress};
pub use config::{HttpConfig, HttpSettings, SseSettings, DEFAULT_HOST, DEFAULT_PORT};
pub use context::{Ctx, RejectedCredential};
pub use controller::{HttpControllerMeta, HttpRouteMeta, HttpVerb};
pub use cors::{CorsConfig, CorsSettings};
pub use endpoint::{EdgePosture, HttpEndpointMeta};
pub use header::{Header, HeaderError, Part};
pub use metadata::{GlobalGuardsActive, HandlerMetadata, HttpModule, MappedError, Public};
pub use paths::{canonical_path, join_path, normalize_mount_path, version_path, versions_declare};
pub use pipe::{IntoInner, Valid};
pub use problem::ProblemDetails;
pub use security_headers::{InvalidSetting, SecurityHeaderSettings, SecurityHeadersConfig};
pub use shaper::{MaskProbe, ShapingStep};
pub use tls::{PemSetting, TlsConfig, TlsSource};
pub use transport::{plan_mounts, MountPlan};
pub use versioning::{
    declared_versions, ApiVersioning, VersionSelector, DEFAULT_VERSION_HEADER, MEDIA_TYPE_PARAM,
};
