//! Self-mounted endpoints another surface declares (a GraphQL schema, an MCP
//! service, a WebSocket gateway) and how each relates to the global guards.
use vstd::prelude::*;

use crate::paths::{mount_path_spec, normalize_mount_path};

verus! {

/// How a self-mounted endpoint relates to the global guard pool.
#[derive(Copy, Clone, Debug, PartialEq, Eq, Structural)]
pub enum EdgePosture {
    /// Run the global guard chain at the HTTP edge. The default.
    Guarded,
    /// Skip the global edge guard: the surface gates in-band, or is public.
    Exempt,
}

impl Default for EdgePosture {
    fn default() -> (r: Self)
        ensures
            r == EdgePosture::Guarded,
    {
        EdgePosture::Guarded
    }
}

/// Discovery metadata of a self-mounting endpoint: the path it owns, a label
/// for the boot log, and its edge posture.
#[derive(Clone, Debug)]
pub struct HttpEndpointMeta {
    path: String,
    label: String,
    posture: EdgePosture,
}

impl HttpEndpointMeta {
    /// A self-mount at `path` (made canonical first, so `"/x"` and `"/x/"`
    /// are one owner), labelled `label`, `Guarded` until it opts out.
    pub fn new(path: &str, label: &str) -> (r: Self)
        ensures
            r.path_view() == mount_path_spec(path@),
            r.label_view() == label@,
            r.posture_view() == EdgePosture::Guarded,
    {
        HttpEndpointMeta {
            path: normalize_mount_path(path),
            label: label.to_owned(),
            posture: EdgePosture::Guarded,
        }
    }

    /// The path's text.
    pub closed spec fn path_view(&self) -> Seq<char> {
        self.path@
    }

    /// The label's text.
    pub closed spec fn label_view(&self) -> Seq<char> {
        self.label@
    }

    /// The posture.
    pub closed spec fn posture_view(&self) -> EdgePosture {
        self.posture
    }

    /// Mark this self-mount `Exempt`.
    pub fn exempt(self) -> (r: Self)
        ensures
            r.path_view() == self.path_view(),
            r.label_view() == self.label_view(),
            r.posture_view() == EdgePosture::Exempt,
    {
        HttpEndpointMeta { path: self.path, label: self.label, posture: EdgePosture::Exempt }
    }

    /// The path this surface self-mounts at.
    pub fn path(&self) -> (r: &str)
        ensures
            r@ == self.path_view(),
    {
        self.path.as_str()
    }

    /// Human-readable label for the boot mount log.
    pub fn label(&self) -> (r: &str)
        ensures
            r@ == self.label_view(),
    {
        self.label.as_str()
    }

    /// This self-mount's edge posture.
    pub fn posture(&self) -> (r: EdgePosture)
        ensures
            r == self.posture_view(),
    {
        self.posture
    }

    /// The edge access decision is implicit: `Guarded`, with no global pool.
    pub fn edge_access_is_implicit(&self, global_guards: bool) -> (r: bool)
        ensures
            r == (!global_guards && self.posture_view() == EdgePosture::Guarded),
    {
        !global_guards && self.posture == EdgePosture::Guarded
    }
}

} // verus!
