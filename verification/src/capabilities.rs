//! What the program can do right now.

use crate::rtx::RtxState;
use vstd::prelude::*;

verus! {

#[derive(Clone, Copy, Debug, PartialEq, Eq, Structural)]
pub struct RtxLifecycle {
    pub supported: bool,
    pub requested: bool,
    pub configured: bool,
    pub building: bool,
    pub active: bool,
    pub stale: bool,
    pub failed: bool,
}

#[derive(Clone, Copy, Debug, PartialEq, Eq, Structural)]
pub struct ProjectCaps {
    pub list: bool,
    pub save: bool,
    pub open: bool,
    pub create: bool,
}

#[derive(Clone, Copy, Debug, PartialEq, Eq, Structural)]
pub struct ApplyCaps {
    pub create_mesh: bool,
    pub patch_color: bool,
    pub patch_translation: bool,
    pub patch_rotation: bool,
    pub dry_run: bool,
    pub max_ops: u32,
    pub aliases: bool,
    pub max_entities: u32,
    pub layout_pattern: bool,
    pub group: bool,
    pub ungroup: bool,
    pub graph_create: bool,
    pub graph_patch: bool,
    pub graph_bind: bool,
    pub patch_light: bool,
}

#[derive(Clone, Copy, Debug, PartialEq, Eq, Structural)]
pub struct QueryCaps {
    pub left_of: bool,
    pub color_of: bool,
    pub on_screen: bool,
    pub assembly_of: bool,
    pub elements: bool,
}

#[derive(Clone, Copy, Debug, PartialEq, Eq, Structural)]
pub struct Capabilities {
    pub mcp: bool,
    pub render: bool,
    pub history: bool,
    pub jobs: bool,
    pub play: bool,
    pub rtx: bool,
    pub graphs: bool,
    pub export: bool,
    pub import: bool,
    pub lighting: bool,
    pub shadows: bool,
    pub cycles_stream: bool,
    pub behavior_runtime: bool,
    pub apply: ApplyCaps,
    pub query: QueryCaps,
    pub project: ProjectCaps,
    pub rtx_lifecycle: RtxLifecycle,
}

/// What is supported, given whether the Cycles sidecar is installed and the state of the
/// ray-tracing lifecycle.
pub open spec fn supported(cycles_stream: bool, rtx: RtxState) -> Capabilities {
    Capabilities {
        mcp: true,
        render: true,
        history: true,
        jobs: false,
        play: true,
        rtx: false,
        graphs: true,
        export: true,
        import: true,
        lighting: true,
        shadows: true,
        cycles_stream,
        behavior_runtime: false,
        apply: ApplyCaps {
            create_mesh: true,
            patch_color: true,
            patch_translation: true,
            patch_rotation: true,
            dry_run: true,
            max_ops: 128,
            aliases: true,
            max_entities: 20_000,
            layout_pattern: true,
            group: true,
            ungroup: true,
            graph_create: true,
            graph_patch: true,
            graph_bind: true,
            patch_light: true,
        },
        query: QueryCaps {
            left_of: true,
            color_of: true,
            on_screen: true,
            assembly_of: true,
            elements: true,
        },
        project: ProjectCaps { list: true, save: true, open: true, create: true },
        rtx_lifecycle: RtxLifecycle {
            supported: rtx.supported,
            requested: rtx.requested,
            configured: rtx.configured,
            building: rtx.building,
            active: rtx.active,
            stale: rtx.stale,
            failed: rtx.failed,
        },
    }
}

/// The capabilities right now.
pub fn live(cycles_stream: bool, rtx: &RtxState) -> (r: Capabilities)
    ensures
        r == supported(cycles_stream, *rtx),
        r.apply.max_ops == crate::apply::MAX_OPS,
        r.apply.max_entities == crate::document::MAX_ENTITIES,
{
    Capabilities {
        mcp: true,
        render: true,
        history: true,
        jobs: false,
        play: true,
        rtx: false,
        graphs: true,
        export: true,
        import: true,
        lighting: true,
        shadows: true,
        cycles_stream,
        behavior_runtime: false,
        apply: ApplyCaps {
            create_mesh: true,
            patch_color: true,
            patch_translation: true,
            patch_rotation: true,
            dry_run: true,
            max_ops: 128,
            aliases: true,
            max_entities: 20_000,
            layout_pattern: true,
            group: true,
            ungroup: true,
            graph_create: true,
            graph_patch: true,
            graph_bind: true,
            patch_light: true,
        },
        query: QueryCaps {
            left_of: true,
            color_of: true,
            on_screen: true,
            assembly_of: true,
            elements: true,
        },
        project: ProjectCaps { list: true, save: true, open: true, create: true },
        rtx_lifecycle: RtxLifecycle {
            supported: rtx.supported,
            requested: rtx.requested,
            configured: rtx.configured,
            building: rtx.building,
            active: rtx.active,
            stale: rtx.stale,
            failed: rtx.failed,
        },
    }
}

/// The names of the tools that an assistant can call.
pub open spec fn tool_names() -> Seq<Seq<char>> {
    seq![
        "three_studio_status"@,
        "three_studio_project"@,
        "three_studio_inspect"@,
        "three_studio_apply"@,
        "three_studio_validate"@,
        "three_studio_play"@,
        "three_studio_render"@,
        "three_studio_history"@,
        "three_studio_job"@,
    ]
}

pub fn mcp_tool_names() -> (r: Vec<String>)
    ensures
        crate::text::texts(r@) == tool_names(),
{
    let r = vec![
        "three_studio_status".to_owned(),
        "three_studio_project".to_owned(),
        "three_studio_inspect".to_owned(),
        "three_studio_apply".to_owned(),
        "three_studio_validate".to_owned(),
        "three_studio_play".to_owned(),
        "three_studio_render".to_owned(),
        "three_studio_history".to_owned(),
        "three_studio_job".to_owned(),
    ];
    assert(crate::text::texts(r@) =~= tool_names());
    r
}

} // verus!
