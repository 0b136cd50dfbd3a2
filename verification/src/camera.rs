//! The camera and the pointer.

use crate::fixed::Vec2;
use crate::model::{World, WorldView};
use crate::schedule::{Entry, Schedule, System, Trigger};
use vstd::prelude::*;

verus! {

/// The camera and the pointer.
#[derive(Clone, Copy, Debug)]
pub struct GameCameraPlugin;

impl GameCameraPlugin {
    /// The systems of this plugin with their moments, in the order in
    /// which they are entered.
    pub open spec fn entries() -> Seq<Entry> {
        seq![
            Entry { trigger: Trigger::Startup, system: System::SpawnCamera, after: None },
            Entry { trigger: Trigger::Always, system: System::UpdateCursor, after: None },
            Entry { trigger: Trigger::PostUpdate, system: System::CameraFollow, after: None },
        ]
    }

    /// Enters the systems of this plugin into `schedule`.
    pub fn build(&self, schedule: &mut Schedule)
        ensures
            final(schedule)@ == old(schedule)@ + GameCameraPlugin::entries(),
    {
        schedule.add(Trigger::Startup, System::SpawnCamera);
        schedule.add(Trigger::Always, System::UpdateCursor);
        schedule.add(Trigger::PostUpdate, System::CameraFollow);
        assert(schedule@ =~= old(schedule)@ + GameCameraPlugin::entries());
    }
}

/// Where the pointer is on the screen: each coordinate as a share of the
/// window, in millionths, from the lower left corner.
#[derive(Clone, Copy, PartialEq, Eq, Structural, Debug)]
pub struct CursorPosition {
    pub screen_position: Vec2,
}

impl Default for CursorPosition {
    fn default() -> (r: CursorPosition)
        ensures
            r == (CursorPosition { screen_position: Vec2 { x: 0, y: 0 } }),
    {
        CursorPosition { screen_position: Vec2::zero() }
    }
}

/// The share that `part` pixels have of `whole` pixels, in millionths,
/// rounded down.
pub open spec fn share(part: u32, whole: u32) -> int
    recommends
        part <= whole,
        whole > 0,
{
    (part * 1_000_000) / (whole as int)
}

/// The pointer's place on the screen when it is `x` pixels from the left
/// and `y` pixels from the top of a window of `width` by `height` pixels.
pub open spec fn screen_position(x: u32, y: u32, width: u32, height: u32) -> Vec2
    recommends
        x <= width,
        y <= height,
        width > 0,
        height > 0,
{
    Vec2 { x: share(x, width) as i32, y: (1_000_000 - share(y, height)) as i32 }
}

/// Whether the pointer is inside the window.
pub open spec fn pointer_inside(pointer: Option<(u32, u32)>, width: u32, height: u32) -> bool {
    pointer matches Some((x, y)) && x <= width && y <= height && width > 0 && height > 0
}

/// Takes down where the pointer is. `pointer` gives its place in pixels
/// from the upper left corner of the window; the cursor stays as it was
/// while the pointer is outside the window.
pub fn update_cursor(
    cursor: &mut CursorPosition,
    pointer: Option<(u32, u32)>,
    width: u32,
    height: u32,
)
    ensures
        *final(cursor) == if pointer_inside(pointer, width, height) {
            CursorPosition {
                screen_position: screen_position(
                    pointer.unwrap().0,
                    pointer.unwrap().1,
                    width,
                    height,
                ),
            }
        } else {
            *old(cursor)
        },
{
    if let Some((x, y)) = pointer {
        if x <= width && y <= height && width > 0 && height > 0 {
            let across: u64 = (x as u64) * 1_000_000 / (width as u64);
            let down: u64 = (y as u64) * 1_000_000 / (height as u64);
            proof {
                vstd::arithmetic::div_mod::lemma_div_is_ordered(
                    x * 1_000_000,
                    width * 1_000_000,
                    width as int,
                );
                vstd::arithmetic::div_mod::lemma_div_is_ordered(
                    y * 1_000_000,
                    height * 1_000_000,
                    height as int,
                );
                vstd::arithmetic::div_mod::lemma_div_by_multiple(1_000_000, width as int);
                vstd::arithmetic::div_mod::lemma_div_by_multiple(1_000_000, height as int);
                assert(width * 1_000_000 == 1_000_000 * width);
                assert(height * 1_000_000 == 1_000_000 * height);
            }
            cursor.screen_position = Vec2::new(across as i32, (1_000_000 - down) as i32);
        }
    }
}

/// The world with the camera over the player; unchanged without a player.
pub open spec fn camera_follow_done(w: WorldView) -> WorldView {
    match w.player {
        Some(player) => WorldView { camera: player.position, ..w },
        None => w,
    }
}

/// Keeps the camera over the player.
pub fn camera_follow(world: &mut World)
    ensures
        final(world)@ == camera_follow_done(old(world)@),
{
    if let Some(player) = world.player {
        world.camera = player.position;
    }
}

} // verus!
