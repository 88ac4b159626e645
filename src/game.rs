use vstd::prelude::*;
use crate::aabb::{fits_i64, Aabb, UNITS_PER_PIXEL, Vec2};
use crate::input::capped;
pub use crate::input::InputModel;

verus! {

/// An entity handle. Handles are never reused, so at most `u16::MAX`
/// entities can be created over the store's lifetime.
pub type EntityId = u16;

/// An 8-bit RGB colour.
#[derive(Debug, Clone, Copy, PartialEq, Eq, Structural)]
pub struct Colour {
    pub r: u8,
    pub g: u8,
    pub b: u8,
}

impl Colour {
    pub fn new(r: u8, g: u8, b: u8) -> (c: Colour)
        ensures
            c == (Colour { r, g, b }),
    {
        Colour { r, g, b }
    }
}

/// Hands out entity ids `0, 1, 2, ...`, each once.
pub struct EntityIdAllocator {
    next: EntityId,
}

impl Default for EntityIdAllocator {
    fn default() -> (r: EntityIdAllocator)
        ensures
            r.next_id() == 0,
    {
        EntityIdAllocator { next: 0 }
    }
}

impl EntityIdAllocator {
    /// The id that the next allocation returns.
    pub closed spec fn next_id(&self) -> EntityId {
        self.next
    }

    /// The ids handed out so far.
    pub open spec fn issued(&self) -> Set<EntityId> {
        Set::new(|id: EntityId| id < self.next_id())
    }

    /// Whether another id can be handed out.
    pub fn can_allocate(&self) -> (r: bool)
        ensures
            r == (self.next_id() < u16::MAX),
    {
        self.next < u16::MAX
    }

    pub fn allocate(&mut self) -> (id: EntityId)
        requires
            old(self).next_id() < u16::MAX,
        ensures
            id == old(self).next_id(),
            final(self).next_id() == old(self).next_id() + 1,
            !old(self).issued().contains(id),
            final(self).issued() == old(self).issued().insert(id),
    {
        let id = self.next;
        self.next = self.next + 1;
        proof {
            assert(final(self).issued() =~= old(self).issued().insert(id));
        }
        id
    }
}

/// One entry of the render snapshot: an entity that has both a geometry and
/// a colour.
#[derive(Debug, Clone, Copy, PartialEq, Eq, Structural)]
pub struct ToRender {
    pub id: EntityId,
    pub aabb: Aabb,
    pub colour: Colour,
}

/// Per-entity geometry and colour tables, the id allocator and the player.
///
/// Each table is indexed by entity id and has one slot per id handed out.
pub struct GameState {
    aabb: Vec<Option<Aabb>>,
    colour: Vec<Option<Colour>>,
    player_id: EntityId,
    entity_id_allocator: EntityIdAllocator,
}

/// The player's geometry at startup.
pub open spec fn initial_player_aabb() -> Aabb {
    Aabb {
        top_left_coord: Vec2 {
            x: (40 * UNITS_PER_PIXEL) as i64,
            y: (60 * UNITS_PER_PIXEL) as i64,
        },
        size: Vec2 { x: (10 * UNITS_PER_PIXEL) as i64, y: (16 * UNITS_PER_PIXEL) as i64 },
    }
}

/// The player's colour at startup: red.
pub open spec fn initial_player_colour() -> Colour {
    Colour { r: 255, g: 0, b: 0 }
}

/// `aabb` moved by `v`.
pub open spec fn moved(aabb: Aabb, v: Vec2) -> Aabb {
    Aabb {
        top_left_coord: Vec2 {
            x: (aabb.top_left_coord.x + v.x) as i64,
            y: (aabb.top_left_coord.y + v.y) as i64,
        },
        size: aabb.size,
    }
}

/// With a zero input vector the player stays where it is; with a vector of
/// one pixel along x it moves right by exactly one pixel, vertically not at
/// all, and keeps its size.
pub proof fn lemma_update_step(a: Aabb)
    requires
        fits_i64(a.top_left_coord.x + UNITS_PER_PIXEL),
    ensures
        moved(a, capped(Vec2 { x: 0, y: 0 })) == a,
        moved(a, capped(Vec2 { x: UNITS_PER_PIXEL, y: 0 })).top_left_coord.x
            == a.top_left_coord.x + UNITS_PER_PIXEL,
        moved(a, capped(Vec2 { x: UNITS_PER_PIXEL, y: 0 })).top_left_coord.y
            == a.top_left_coord.y,
        moved(a, capped(Vec2 { x: UNITS_PER_PIXEL, y: 0 })).size == a.size,
{
}

impl GameState {
    /// The geometry table.
    pub closed spec fn geometry(&self) -> Map<EntityId, Aabb> {
        Map::new(
            |id: EntityId| id < self.aabb@.len() && self.aabb@[id as int] is Some,
            |id: EntityId| self.aabb@[id as int]->Some_0,
        )
    }

    /// The colour table.
    pub closed spec fn colours(&self) -> Map<EntityId, Colour> {
        Map::new(
            |id: EntityId| id < self.colour@.len() && self.colour@[id as int] is Some,
            |id: EntityId| self.colour@[id as int]->Some_0,
        )
    }

    pub closed spec fn player(&self) -> EntityId {
        self.player_id
    }

    /// The ids handed out so far.
    pub closed spec fn issued(&self) -> Set<EntityId> {
        self.entity_id_allocator.issued()
    }

    /// The id that the next created entity gets.
    pub closed spec fn next_entity_id(&self) -> EntityId {
        self.entity_id_allocator.next_id()
    }

    pub closed spec fn wf(&self) -> bool {
        &&& self.aabb@.len() == self.entity_id_allocator.next_id()
        &&& self.colour@.len() == self.entity_id_allocator.next_id()
    }

    /// Every id in either table was handed out by the allocator; with
    /// `create_entity` handing out only ids not issued before, a new entity
    /// never starts with components of an earlier one.
    pub proof fn lemma_tables_hold_issued_ids(&self)
        requires
            self.wf(),
        ensures
            self.geometry().dom().subset_of(self.issued()),
            self.colours().dom().subset_of(self.issued()),
    {
    }

    /// A store that holds the player alone, as entity 0.
    pub fn new() -> (r: GameState)
        ensures
            r.wf(),
            r.player() == 0,
            r.issued() == set![0u16],
            r.next_entity_id() == 1,
            r.geometry() == map![0u16 => initial_player_aabb()],
            r.colours() == map![0u16 => initial_player_colour()],
    {
        let mut entity_id_allocator = EntityIdAllocator::default();
        let player_id = entity_id_allocator.allocate();
        let mut game_state = GameState {
            aabb: Vec::new(),
            colour: Vec::new(),
            player_id,
            entity_id_allocator,
        };
        game_state.aabb.push(
            Some(
                Aabb::new(
                    Vec2::new(40 * UNITS_PER_PIXEL, 60 * UNITS_PER_PIXEL),
                    Vec2::new(10 * UNITS_PER_PIXEL, 16 * UNITS_PER_PIXEL),
                ),
            ),
        );
        game_state.colour.push(Some(Colour::new(255, 0, 0)));
        proof {
            assert(game_state.issued() =~= set![0u16]);
            assert(game_state.geometry() =~= map![0u16 => initial_player_aabb()]);
            assert(game_state.colours() =~= map![0u16 => initial_player_colour()]);
        }
        game_state
    }

    pub fn player_id(&self) -> (r: EntityId)
        ensures
            r == self.player(),
    {
        self.player_id
    }

    /// The geometry of `id`, if it has one.
    pub fn aabb_of(&self, id: EntityId) -> (r: Option<Aabb>)
        ensures
            r == (if self.geometry().contains_key(id) {
                Some(self.geometry()[id])
            } else {
                None
            }),
    {
        if (id as usize) < self.aabb.len() {
            self.aabb[id as usize]
        } else {
            None
        }
    }

    /// Hands out a fresh id, with neither a geometry nor a colour yet.
    pub fn create_entity(&mut self) -> (id: EntityId)
        requires
            old(self).wf(),
            old(self).next_entity_id() < u16::MAX,
        ensures
            final(self).wf(),
            id == old(self).next_entity_id(),
            final(self).next_entity_id() == old(self).next_entity_id() + 1,
            !old(self).issued().contains(id),
            final(self).issued() == old(self).issued().insert(id),
            final(self).geometry() == old(self).geometry(),
            final(self).colours() == old(self).colours(),
            final(self).player() == old(self).player(),
    {
        let id = self.entity_id_allocator.allocate();
        self.aabb.push(None);
        self.colour.push(None);
        proof {
            assert(final(self).geometry() =~= old(self).geometry());
            assert(final(self).colours() =~= old(self).colours());
        }
        id
    }

    /// Sets the geometry of an entity that was handed out.
    pub fn insert_aabb(&mut self, id: EntityId, aabb: Aabb)
        requires
            old(self).wf(),
            old(self).issued().contains(id),
        ensures
            final(self).wf(),
            final(self).next_entity_id() == old(self).next_entity_id(),
            final(self).issued() == old(self).issued(),
            final(self).geometry() == old(self).geometry().insert(id, aabb),
            final(self).colours() == old(self).colours(),
            final(self).player() == old(self).player(),
    {
        self.aabb.set(id as usize, Some(aabb));
        proof {
            assert(final(self).geometry() =~= old(self).geometry().insert(id, aabb));
            assert(final(self).colours() =~= old(self).colours());
        }
    }

    /// Sets the colour of an entity that was handed out.
    pub fn insert_colour(&mut self, id: EntityId, colour: Colour)
        requires
            old(self).wf(),
            old(self).issued().contains(id),
        ensures
            final(self).wf(),
            final(self).next_entity_id() == old(self).next_entity_id(),
            final(self).issued() == old(self).issued(),
            final(self).geometry() == old(self).geometry(),
            final(self).colours() == old(self).colours().insert(id, colour),
            final(self).player() == old(self).player(),
    {
        self.colour.set(id as usize, Some(colour));
        proof {
            assert(final(self).geometry() =~= old(self).geometry());
            assert(final(self).colours() =~= old(self).colours().insert(id, colour));
        }
    }

    /// The entities that have both a geometry and a colour, in increasing
    /// id order, each once.
    pub fn to_render(&self) -> (r: Vec<ToRender>)
        requires
            self.wf(),
        ensures
            forall|i: int|
                0 <= i < r@.len() ==> {
                    let t = #[trigger] r@[i];
                    &&& self.geometry().contains_key(t.id)
                    &&& self.colours().contains_key(t.id)
                    &&& t.aabb == self.geometry()[t.id]
                    &&& t.colour == self.colours()[t.id]
                },
            forall|id: EntityId|
                self.geometry().contains_key(id) && self.colours().contains_key(id) ==> exists|
                    i: int,
                |
                    0 <= i < r@.len() && (#[trigger] r@[i]).id == id,
            forall|i: int, j: int| 0 <= i < j < r@.len() ==> r@[i].id < r@[j].id,
            r@.len() == self.geometry().dom().intersect(self.colours().dom()).len(),
    {
        let mut r: Vec<ToRender> = Vec::new();
        let n = self.aabb.len();
        let mut k: usize = 0;
        while k < n
            invariant
                self.wf(),
                n == self.aabb@.len(),
                k <= n,
                forall|i: int|
                    0 <= i < r@.len() ==> {
                        let t = #[trigger] r@[i];
                        &&& t.id < k
                        &&& self.geometry().contains_key(t.id)
                        &&& self.colours().contains_key(t.id)
                        &&& t.aabb == self.geometry()[t.id]
                        &&& t.colour == self.colours()[t.id]
                    },
                forall|id: EntityId|
                    id < k && self.geometry().contains_key(id) && self.colours().contains_key(id)
                        ==> exists|i: int| 0 <= i < r@.len() && (#[trigger] r@[i]).id == id,
                forall|i: int, j: int| 0 <= i < j < r@.len() ==> r@[i].id < r@[j].id,
            decreases n - k,
        {
            let id = k as EntityId;
            match (self.aabb[k], self.colour[k]) {
                (Some(aabb), Some(colour)) => {
                    let ghost before = r@;
                    r.push(ToRender { id, aabb, colour });
                    proof {
                        assert(r@[before.len() as int].id == id);
                        assert forall|j: EntityId|
                            j < k + 1 && self.geometry().contains_key(j)
                                && self.colours().contains_key(j) implies exists|i: int|
                            0 <= i < r@.len() && (#[trigger] r@[i]).id == j by {
                            if j < k {
                                let i = choose|i: int| 0 <= i < before.len() && before[i].id == j;
                                assert(r@[i] == before[i]);
                            } else {
                                assert(r@[before.len() as int].id == j);
                            }
                        }
                    }
                },
                _ => {},
            }
            k = k + 1;
        }
        proof {
            let ids = r@.map_values(|t: ToRender| t.id);
            assert(ids.no_duplicates()) by {
                assert forall|i: int, j: int|
                    0 <= i < ids.len() && 0 <= j < ids.len() && i != j implies ids[i] != ids[j] by {
                    if i < j {
                        assert(r@[i].id < r@[j].id);
                    } else {
                        assert(r@[j].id < r@[i].id);
                    }
                }
            }
            ids.unique_seq_to_set();
            let both = self.geometry().dom().intersect(self.colours().dom());
            assert forall|id: EntityId| #[trigger] both.contains(id) implies ids.to_set().contains(
                id,
            ) by {
                let i = choose|i: int| 0 <= i < r@.len() && (#[trigger] r@[i]).id == id;
                assert(ids[i] == id);
            }
            assert forall|id: EntityId| #[trigger] ids.to_set().contains(id) implies both.contains(
                id,
            ) by {
                let i = choose|i: int| 0 <= i < ids.len() && ids[i] == id;
                assert(r@[i].id == id);
            }
            assert(ids.to_set() =~= both);
        }
        r
    }

    /// Moves the player's top-left corner by the capped input vector, once.
    pub fn update(&mut self, input_model: &InputModel)
        requires
            old(self).wf(),
            old(self).geometry().contains_key(old(self).player()) ==> {
                let a = old(self).geometry()[old(self).player()];
                let v = capped(input_model.stored());
                fits_i64(a.top_left_coord.x + v.x) && fits_i64(a.top_left_coord.y + v.y)
            },
        ensures
            final(self).wf(),
            final(self).next_entity_id() == old(self).next_entity_id(),
            final(self).issued() == old(self).issued(),
            final(self).player() == old(self).player(),
            final(self).colours() == old(self).colours(),
            old(self).geometry().contains_key(old(self).player()) ==> final(self).geometry()
                == old(self).geometry().insert(
                old(self).player(),
                moved(old(self).geometry()[old(self).player()], capped(input_model.stored())),
            ),
            !old(self).geometry().contains_key(old(self).player()) ==> final(self).geometry()
                == old(self).geometry(),
    {
        let p = self.player_id as usize;
        if p < self.aabb.len() {
            if let Some(aabb) = self.aabb[p] {
                let v = input_model.vector();
                let top_left = Vec2::new(aabb.top_left_coord.x + v.x, aabb.top_left_coord.y + v.y);
                self.aabb.set(p, Some(Aabb::new(top_left, aabb.size)));
                proof {
                    assert(final(self).geometry() =~= old(self).geometry().insert(
                        old(self).player(),
                        moved(aabb, v),
                    ));
                }
            }
        }
    }
}

} // verus!
