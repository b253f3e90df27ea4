//! Surface coordination: visibility and geometry commands.
//!
//! The core never talks to the window system itself. Every side effect on a
//! surface is expressed as a [`SurfaceCommand`] value; the embedding host
//! executes the commands in the order given. Content surfaces are addressed
//! by the numeric handle recorded in the registry.

use vstd::prelude::*;

use crate::geometry::{chrome_strip, content_rect, full_rect, LogicalSize, Rect};

verus! {

/// One side effect for the embedding host to perform on a surface.
#[derive(Clone, Copy, Debug, PartialEq, Eq, Structural)]
pub enum SurfaceCommand {
    /// Hide the content surface with this handle.
    HideSurface { id: u32 },
    /// Show the content surface with this handle.
    ShowSurface { id: u32 },
    /// Move and resize the content surface with this handle.
    ResizeSurface { id: u32, rect: Rect },
    /// Move and resize the chrome surface.
    ResizeChrome { rect: Rect },
    /// Destroy the content surface with this handle.
    CloseSurface { id: u32 },
}

/// Hide commands for every id in `ids` except `target`, in sequence order.
pub open spec fn hide_commands(ids: Seq<u32>, target: Option<u32>) -> Seq<SurfaceCommand>
    decreases ids.len(),
{
    if ids.len() == 0 {
        Seq::empty()
    } else {
        let rest = hide_commands(ids.drop_last(), target);
        if target == Some(ids.last()) {
            rest
        } else {
            rest.push(SurfaceCommand::HideSurface { id: ids.last() })
        }
    }
}

/// The command sequence that makes `target` the only visible content
/// surface: hide every other surface first, then show the target. With no
/// target, hide everything.
pub open spec fn visibility_commands(target: Option<u32>, ids: Seq<u32>) -> Seq<SurfaceCommand> {
    match target {
        Some(t) => hide_commands(ids, target).push(SurfaceCommand::ShowSurface { id: t }),
        None => hide_commands(ids, target),
    }
}

/// Computes the visibility commands for activating `target` among the
/// surfaces `ids` (or for hiding everything, with no target). Hiding all
/// others before showing the target keeps two surfaces from ever being
/// visible at once.
pub fn apply_visibility(target: Option<u32>, ids: &Vec<u32>) -> (cmds: Vec<SurfaceCommand>)
    ensures
        cmds@ == visibility_commands(target, ids@),
{
    let mut cmds: Vec<SurfaceCommand> = Vec::new();
    let skip = target;
    let mut i: usize = 0;
    while i < ids.len()
        invariant
            i <= ids@.len(),
            skip == target,
            cmds@ == hide_commands(ids@.take(i as int), target),
        decreases ids@.len() - i,
    {
        let id = ids[i];
        proof {
            assert(ids@.take(i + 1 as int).drop_last() =~= ids@.take(i as int));
            assert(ids@.take(i + 1 as int).last() == ids@[i as int]);
        }
        let hide_it = match skip {
            Some(t) => id != t,
            None => true,
        };
        if hide_it {
            cmds.push(SurfaceCommand::HideSurface { id });
        }
        i += 1;
    }
    proof {
        assert(ids@.take(ids@.len() as int) =~= ids@);
    }
    match target {
        Some(t) => {
            cmds.push(SurfaceCommand::ShowSurface { id: t });
        }
        None => {}
    }
    cmds
}

/// Resize commands for one window size: the chrome strip plus one resize per
/// content surface when tabs exist, or the full-window chrome alone when
/// none do.
pub open spec fn surface_resizes(ids: Seq<u32>, rect: Rect) -> Seq<SurfaceCommand>
    decreases ids.len(),
{
    if ids.len() == 0 {
        Seq::empty()
    } else {
        surface_resizes(ids.drop_last(), rect).push(
            SurfaceCommand::ResizeSurface { id: ids.last(), rect },
        )
    }
}

/// The command sequence that brings all geometry in line with a new window
/// size, for the given set of content surfaces in presentation order.
pub open spec fn resize_commands(ids: Seq<u32>, window: LogicalSize) -> Seq<SurfaceCommand> {
    if ids.len() == 0 {
        seq![SurfaceCommand::ResizeChrome { rect: full_rect(window) }]
    } else {
        seq![SurfaceCommand::ResizeChrome { rect: chrome_strip(window) }] + surface_resizes(
            ids,
            content_rect(window),
        )
    }
}

/// Computes the resize commands for a new window size: with tabs, the chrome
/// shrinks to the strip and every content surface fills the content area;
/// without tabs, the chrome takes the full window.
pub fn compute_resize(ids: &Vec<u32>, window: LogicalSize) -> (cmds: Vec<SurfaceCommand>)
    ensures
        cmds@ == resize_commands(ids@, window),
{
    let mut cmds: Vec<SurfaceCommand> = Vec::new();
    if ids.len() == 0 {
        cmds.push(SurfaceCommand::ResizeChrome { rect: Rect { x: 0, y: 0, width: window.width, height: window.height } });
        proof {
            assert(cmds@ =~= resize_commands(ids@, window));
        }
        return cmds;
    }
    let strip = crate::geometry::layout(window, ids.len());
    cmds.push(SurfaceCommand::ResizeChrome { rect: strip.chrome });
    let content = match strip.content {
        Some(r) => r,
        None => Rect { x: 0, y: 0, width: 0, height: 0 },
    };
    let mut i: usize = 0;
    while i < ids.len()
        invariant
            i <= ids@.len(),
            ids@.len() > 0,
            content == content_rect(window),
            cmds@ == seq![SurfaceCommand::ResizeChrome { rect: chrome_strip(window) }]
                + surface_resizes(ids@.take(i as int), content_rect(window)),
        decreases ids@.len() - i,
    {
        proof {
            assert(ids@.take(i + 1 as int).drop_last() =~= ids@.take(i as int));
            assert(ids@.take(i + 1 as int).last() == ids@[i as int]);
        }
        cmds.push(SurfaceCommand::ResizeSurface { id: ids[i], rect: content });
        i += 1;
    }
    proof {
        assert(ids@.take(ids@.len() as int) =~= ids@);
    }
    cmds
}

} // verus!
