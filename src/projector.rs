use vstd::prelude::*;
use crate::entity::EntityType;
use crate::geometry::{Vec2, Vec3, coord_ok};

verus! {

/// Which of the two play modes is running.
#[derive(Clone, Copy, Debug, PartialEq, Eq, Structural)]
pub enum GameMode {
    /// Top-down sailing and hooking floating materials.
    Raft,
    /// Side-on swimming under water.
    Dive,
}

/// How world positions map to the screen.
#[derive(Clone, Copy, Debug, PartialEq, Eq, Structural)]
pub enum RenderViewMode {
    /// Screen x and y are world x and y.
    TopDown,
    /// Screen x is world x; screen y grows with depth.
    SideScroll,
}

pub open spec fn spec_view_mode(mode: GameMode) -> RenderViewMode {
    match mode {
        GameMode::Raft => RenderViewMode::TopDown,
        GameMode::Dive => RenderViewMode::SideScroll,
    }
}

/// The view used in a game mode: top-down when sailing, side-on when diving.
pub fn view_mode_for(mode: GameMode) -> (r: RenderViewMode)
    ensures
        r == spec_view_mode(mode),
{
    match mode {
        GameMode::Raft => RenderViewMode::TopDown,
        GameMode::Dive => RenderViewMode::SideScroll,
    }
}

/// The vertical screen axis of a world position: y from above, minus z from the side.
pub open spec fn view_y(p: Vec3, mode: RenderViewMode) -> int {
    match mode {
        RenderViewMode::TopDown => p.y as int,
        RenderViewMode::SideScroll => -p.z,
    }
}

/// Whether an entity of kind `kind` is drawn in `mode`: fish only from the
/// side, floating items only from above, all others in both.
pub open spec fn spec_visible(kind: EntityType, mode: RenderViewMode) -> bool {
    match mode {
        RenderViewMode::TopDown => kind != EntityType::Fish,
        RenderViewMode::SideScroll => kind != EntityType::FloatingItem,
    }
}

/// A position on screen, in thousandths of a unit, and whether to draw there.
#[derive(Clone, Copy, Debug, PartialEq, Eq, Structural)]
pub struct Projection {
    pub screen: Vec2,
    pub visible: bool,
}

/// Maps world positions to the screen for the active view, centred on a camera point.
pub struct ViewProjector {
    pub mode: RenderViewMode,
    /// The camera point in view coordinates: world x, and the view's vertical axis.
    pub camera: Vec2,
    /// Half the screen's width and height, in thousandths of a unit.
    pub half_screen: Vec2,
}

impl ViewProjector {
    pub open spec fn wf(&self) -> bool {
        &&& coord_ok(self.camera.x as int)
        &&& coord_ok(self.camera.y as int)
        &&& 0 <= self.half_screen.x <= crate::geometry::WORLD_LIMIT
        &&& 0 <= self.half_screen.y <= crate::geometry::WORLD_LIMIT
    }

    /// Where `p` lands on screen and whether an entity of `kind` there is drawn.
    pub open spec fn project_spec(&self, p: Vec3, kind: EntityType) -> Projection {
        Projection {
            screen: Vec2 {
                x: (p.x - self.camera.x + self.half_screen.x) as i64,
                y: (view_y(p, self.mode) - self.camera.y + self.half_screen.y) as i64,
            },
            visible: spec_visible(kind, self.mode),
        }
    }

    /// A top-down projector centred on the origin of a screen `width` by
    /// `height` thousandths of a unit.
    pub fn new(width: u32, height: u32) -> (r: ViewProjector)
        ensures
            r.wf(),
            r.mode == RenderViewMode::TopDown,
            r.camera == (Vec2 { x: 0, y: 0 }),
            r.half_screen == (Vec2 { x: (width / 2) as i64, y: (height / 2) as i64 }),
    {
        ViewProjector {
            mode: RenderViewMode::TopDown,
            camera: Vec2 { x: 0, y: 0 },
            half_screen: Vec2 { x: (width / 2) as i64, y: (height / 2) as i64 },
        }
    }

    /// Switches to the view of `mode`.
    pub fn set_game_mode(&mut self, mode: GameMode)
        ensures
            final(self).mode == spec_view_mode(mode),
            final(self).camera == old(self).camera,
            final(self).half_screen == old(self).half_screen,
    {
        self.mode = view_mode_for(mode);
    }

    /// Centres the camera on the world position `target`.
    pub fn set_camera_target(&mut self, target: &Vec3)
        requires
            target.in_world(),
        ensures
            final(self).mode == old(self).mode,
            final(self).half_screen == old(self).half_screen,
            final(self).camera == (Vec2 { x: target.x, y: view_y(*target, old(self).mode) as i64 }),
    {
        let y = match self.mode {
            RenderViewMode::TopDown => target.y,
            RenderViewMode::SideScroll => -target.z,
        };
        self.camera = Vec2 { x: target.x, y };
    }

    /// Where the world position `p` lands on screen, and whether an entity of
    /// kind `kind` there is drawn.
    pub fn project(&self, p: &Vec3, kind: EntityType) -> (r: Projection)
        requires
            self.wf(),
            p.in_world(),
        ensures
            r == self.project_spec(*p, kind),
    {
        let vy = match self.mode {
            RenderViewMode::TopDown => p.y,
            RenderViewMode::SideScroll => -p.z,
        };
        let visible = match self.mode {
            RenderViewMode::TopDown => kind != EntityType::Fish,
            RenderViewMode::SideScroll => kind != EntityType::FloatingItem,
        };
        Projection {
            screen: Vec2 {
                x: p.x - self.camera.x + self.half_screen.x,
                y: vy - self.camera.y + self.half_screen.y,
            },
            visible,
        }
    }
}

} // verus!
