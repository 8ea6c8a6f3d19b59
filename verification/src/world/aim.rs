//! What follows from where the player aims: the highlight moves from block
//! to block, taking the geometry of at most two chunks with it, and a click
//! removes the block aimed at or puts one against it.

use crate::world::block::{Block, BlockType};
use crate::world::coords::{GridPoint, Normal};
use crate::world::raycast::{cast, cursor_start, neighbour, Ray};
use crate::world::world::{chunk_holding, chunk_of, meshed, Remeshed, World};
use vstd::prelude::*;

verus! {

/// A button of the mouse.
#[derive(Clone, Copy, Debug, PartialEq, Eq, Structural)]
pub enum MouseButton {
    Left,
    Right,
    Other,
}

/// The chunk that holds the highlighted block, if there is a highlight.
pub open spec fn aimed_chunk(highlighted: Option<(GridPoint, Normal)>) -> Option<GridPoint> {
    match highlighted {
        None => None,
        Some((position, _)) => Some(chunk_of(position)),
    }
}

/// The chunk that a highlight leaves when it moves: the one that held it,
/// if that chunk exists.
pub open spec fn left_chunk(world: World, before: Option<(GridPoint, Normal)>) -> Option<
    GridPoint,
> {
    match aimed_chunk(before) {
        None => None,
        Some(c) => if world.chunk_at(c) is Some {
            Some(c)
        } else {
            None
        },
    }
}

/// The chunk that a highlight enters when it moves: the one that holds it
/// now, if that chunk exists and is not the one that held it before.
pub open spec fn entered_chunk(
    world: World,
    before: Option<(GridPoint, Normal)>,
    after: Option<(GridPoint, Normal)>,
) -> Option<GridPoint> {
    match aimed_chunk(after) {
        None => None,
        Some(c) => if aimed_chunk(before) != Some(c) && world.chunk_at(c) is Some {
            Some(c)
        } else {
            None
        },
    }
}

/// What a click asks for when the ray hits `hit`: the left button empties
/// the block that was hit, the right button puts cobblestone against the
/// face that was hit, any other button asks for nothing.
pub open spec fn click_edit(button: MouseButton, hit: Option<(GridPoint, Normal)>) -> Option<
    (GridPoint, Option<Block>),
> {
    match hit {
        None => None,
        Some((position, normal)) => match button {
            MouseButton::Left => Some((position, None)),
            MouseButton::Right => match neighbour(position, normal) {
                None => None,
                Some(place) => Some((place, Some(Block { block_type: BlockType::Cobblestone }))),
            },
            MouseButton::Other => None,
        },
    }
}

fn same_point(a: GridPoint, b: GridPoint) -> (r: bool)
    ensures
        r == (a == b),
{
    a.x == b.x && a.y == b.y && a.z == b.z
}

fn same_highlight(a: Option<(GridPoint, Normal)>, b: Option<(GridPoint, Normal)>) -> (r: bool)
    ensures
        r == (a == b),
{
    match (a, b) {
        (None, None) => true,
        (Some((p, n)), Some((q, m))) => same_point(p, q) && n.x == m.x && n.y == m.y && n.z == m.z,
        _ => false,
    }
}

fn checked_neighbour(position: GridPoint, normal: Normal) -> (r: Option<GridPoint>)
    ensures
        r == neighbour(position, normal),
{
    let x: i128 = position.x as i128 + normal.x as i128;
    let y: i128 = position.y as i128 + normal.y as i128;
    let z: i128 = position.z as i128 + normal.z as i128;
    let low: i128 = i64::MIN as i128;
    let high: i128 = i64::MAX as i128;
    if low <= x && x <= high && low <= y && y <= high && low <= z && z <= high {
        Some(GridPoint { x: x as i64, y: y as i64, z: z as i64 })
    } else {
        None
    }
}

impl World {
    /// Moves the highlight. If it changes, the chunk that held it and the
    /// chunk that holds it now are meshed anew, the second only if it is
    /// another chunk; no other chunk is touched, and no cell changes.
    pub fn set_highlight(&mut self, highlighted: Option<(GridPoint, Normal)>) -> (remeshed:
        Remeshed)
        requires
            old(self).wf(),
        ensures
            final(self).wf(),
            final(self).aim() == highlighted,
            final(self).coords() == old(self).coords(),
            forall|c: GridPoint|
                (#[trigger] final(self).chunk_at(c)) is Some <==> old(self).chunk_at(c) is Some,
            forall|c: GridPoint|
                old(self).chunk_at(c) is Some ==> (#[trigger] final(self).chunk_at(c)).unwrap()@
                    == old(self).chunk_at(c).unwrap()@,
            forall|p: GridPoint| #[trigger] final(self).block_at(p) == old(self).block_at(p),
            old(self).aim() == highlighted ==> *final(self) == *old(self) && remeshed == (
            Remeshed { left: None, entered: None }),
            old(self).aim() != highlighted ==> {
                &&& remeshed.left == left_chunk(*old(self), old(self).aim())
                &&& remeshed.entered == entered_chunk(*old(self), old(self).aim(), highlighted)
                &&& forall|c: GridPoint|
                    Some(c) != remeshed.left && Some(c) != remeshed.entered
                        ==> #[trigger] final(self).chunk_at(c) == old(self).chunk_at(c)
                &&& remeshed.left matches Some(c) ==> meshed(
                    final(self).chunk_at(c).unwrap(),
                    c,
                    highlighted,
                )
                &&& remeshed.entered matches Some(c) ==> meshed(
                    final(self).chunk_at(c).unwrap(),
                    c,
                    highlighted,
                )
            },
    {
        let before = self.highlight();
        if same_highlight(before, highlighted) {
            return Remeshed { left: None, entered: None };
        }
        self.aim_at(highlighted);
        let ghost moved = *self;
        let was = match before {
            None => None,
            Some((position, _)) => Some(chunk_holding(position)),
        };
        let mut left: Option<GridPoint> = None;
        match was {
            None => {},
            Some(c) => {
                if self.update_chunk_geometry(c) {
                    left = Some(c);
                }
            },
        }
        let ghost halfway = *self;
        let mut entered: Option<GridPoint> = None;
        match highlighted {
            None => {},
            Some((position, _)) => {
                let c = chunk_holding(position);
                let again = match was {
                    None => false,
                    Some(w) => same_point(w, c),
                };
                if !again {
                    if self.update_chunk_geometry(c) {
                        entered = Some(c);
                    }
                }
            },
        }
        assert forall|c: GridPoint|
            ((#[trigger] self.chunk_at(c)) is Some <==> old(self).chunk_at(c) is Some) && (old(
                self,
            ).chunk_at(c) is Some ==> self.chunk_at(c).unwrap()@ == old(self).chunk_at(
                c,
            ).unwrap()@) by {
            assert(moved.chunk_at(c) == old(self).chunk_at(c));
            assert(halfway.chunk_at(c) is Some <==> moved.chunk_at(c) is Some);
            if moved.chunk_at(c) is Some {
                assert(halfway.chunk_at(c).unwrap()@ == moved.chunk_at(c).unwrap()@);
            }
        }
        assert forall|p: GridPoint| #[trigger] self.block_at(p) == old(self).block_at(p) by {
            let c = chunk_of(p);
            assert(self.chunk_at(c) is Some <==> old(self).chunk_at(c) is Some);
        }
        assert forall|c: GridPoint|
            Some(c) != left && Some(c) != entered implies #[trigger] self.chunk_at(c) == old(
            self,
        ).chunk_at(c) by {
            assert(halfway.chunk_at(c) == moved.chunk_at(c));
        }
        Remeshed { left, entered }
    }

    /// Casts `ray` and moves the highlight to what it hits.
    pub fn update_aim(&mut self, ray: &Ray, reach: u32) -> (remeshed: Remeshed)
        requires
            old(self).wf(),
        ensures
            final(self).wf(),
            final(self).aim() == cast(*old(self), cursor_start(*ray), ray.direction, reach as nat),
            final(self).coords() == old(self).coords(),
            forall|p: GridPoint| #[trigger] final(self).block_at(p) == old(self).block_at(p),
            old(self).aim() == final(self).aim() ==> *final(self) == *old(self) && remeshed == (
            Remeshed { left: None, entered: None }),
            old(self).aim() != final(self).aim() ==> {
                &&& remeshed.left == left_chunk(*old(self), old(self).aim())
                &&& remeshed.entered == entered_chunk(*old(self), old(self).aim(), final(self).aim())
                &&& forall|c: GridPoint|
                    Some(c) != remeshed.left && Some(c) != remeshed.entered
                        ==> #[trigger] final(self).chunk_at(c) == old(self).chunk_at(c)
                &&& remeshed.left matches Some(c) ==> meshed(
                    final(self).chunk_at(c).unwrap(),
                    c,
                    final(self).aim(),
                )
                &&& remeshed.entered matches Some(c) ==> meshed(
                    final(self).chunk_at(c).unwrap(),
                    c,
                    final(self).aim(),
                )
            },
    {
        let hit = self.raycast(ray, reach);
        self.set_highlight(hit)
    }

    /// Answers a click: casts `ray`, and with the left button empties the
    /// block that is hit, with the right button puts cobblestone against
    /// the face that is hit. The chunk that holds the edited block is
    /// meshed anew. Returns the block that was edited, if one was.
    pub fn input_mouse_button(&mut self, button: MouseButton, ray: &Ray, reach: u32) -> (edited:
        Option<GridPoint>)
        requires
            old(self).wf(),
        ensures
            final(self).wf(),
            final(self).aim() == old(self).aim(),
            final(self).coords() == old(self).coords(),
            edited == (match click_edit(
                button,
                cast(*old(self), cursor_start(*ray), ray.direction, reach as nat),
            ) {
                None => None,
                Some((position, _)) => if old(self).chunk_at(chunk_of(position)) is Some {
                    Some(position)
                } else {
                    None
                },
            }),
            edited is None ==> *final(self) == *old(self),
            forall|p: GridPoint| #[trigger]
                final(self).block_at(p) == (if edited == Some(p) {
                    click_edit(
                        button,
                        cast(*old(self), cursor_start(*ray), ray.direction, reach as nat),
                    ).unwrap().1
                } else {
                    old(self).block_at(p)
                }),
            edited matches Some(position) ==> meshed(
                final(self).chunk_at(chunk_of(position)).unwrap(),
                chunk_of(position),
                old(self).aim(),
            ),
    {
        let (position, normal) = match self.raycast(ray, reach) {
            None => {
                return None;
            },
            Some(hit) => hit,
        };
        let (target, block) = match button {
            MouseButton::Left => (position, None),
            MouseButton::Right => match checked_neighbour(position, normal) {
                None => {
                    return None;
                },
                Some(place) => (place, Some(Block { block_type: BlockType::Cobblestone })),
            },
            MouseButton::Other => {
                return None;
            },
        };
        if self.set_block(target, block) {
            Some(target)
        } else {
            None
        }
    }
}

} // verus!
