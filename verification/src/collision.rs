//! The channel scan: which boxes of one channel overlap which boxes of
//! another, and the dispatch of a response to every such pair.

use vstd::prelude::*;
use crate::geometry::{HitboxCollision, Position};
use crate::hitstate::{HitModel, HitState, HITSTATE_SIZE};
use crate::storage::{component, fetch, World, WorldModel};

verus! {

/// One overlap found by a scan: the box on the source channel of `entity_a`
/// overlaps the box on the target channel of `entity_b`.
#[derive(Clone, Copy, Debug, PartialEq, Eq)]
pub struct CollisionEvent {
    pub collision: HitboxCollision,
    pub entity_a: usize,
    pub entity_b: usize,
}

/// The overlap between the source box of `a` and the target box of `b`, both
/// moved to where their entities stand.
///
/// There is none when `a` and `b` are the same entity, when either lacks a
/// channel table or a position, or when either channel is empty.
pub open spec fn pair_collision(
    hit_states: Seq<Option<HitModel>>,
    transforms: Seq<Option<Position>>,
    source: int,
    target: int,
    a: int,
    b: int,
) -> Option<HitboxCollision> {
    if a == b {
        None
    } else {
        match (
            component(hit_states, a),
            component(transforms, a),
            component(hit_states, b),
            component(transforms, b),
        ) {
            (Some(state_a), Some(pos_a), Some(state_b), Some(pos_b)) => match (
                state_a.seen(source),
                state_b.seen(target),
            ) {
                (Some(attack), Some(hit)) => attack.overlap(hit, pos_a, pos_b),
                _ => None,
            },
            _ => None,
        }
    }
}

/// The events of source entity `a` against the first `count` entities, in
/// the order of the targets.
pub open spec fn row_events(
    hit_states: Seq<Option<HitModel>>,
    transforms: Seq<Option<Position>>,
    source: int,
    target: int,
    a: int,
    count: int,
) -> Seq<CollisionEvent>
    decreases count,
{
    if count <= 0 {
        Seq::empty()
    } else {
        let before = row_events(hit_states, transforms, source, target, a, count - 1);
        match pair_collision(hit_states, transforms, source, target, a, count - 1) {
            Some(collision) => before.push(
                CollisionEvent { collision, entity_a: a as usize, entity_b: (count - 1) as usize },
            ),
            None => before,
        }
    }
}

/// The events of the first `rows` source entities against every entity, row
/// after row.
pub open spec fn scan_events(
    hit_states: Seq<Option<HitModel>>,
    transforms: Seq<Option<Position>>,
    source: int,
    target: int,
    rows: int,
) -> Seq<CollisionEvent>
    decreases rows,
{
    if rows <= 0 {
        Seq::empty()
    } else {
        scan_events(hit_states, transforms, source, target, rows - 1) + row_events(
            hit_states,
            transforms,
            source,
            target,
            rows - 1,
            hit_states.len() as int,
        )
    }
}

/// Every event of a scan from channel `source` to channel `target`: one for
/// each ordered pair of distinct entities whose boxes overlap, sources in
/// rising order and, for one source, targets in rising order.
pub open spec fn collisions(
    hit_states: Seq<Option<HitModel>>,
    transforms: Seq<Option<Position>>,
    source: int,
    target: int,
) -> Seq<CollisionEvent> {
    scan_events(hit_states, transforms, source, target, hit_states.len() as int)
}

/// Tests the source box of `a` against the target box of `b`.
pub fn collide_pair(
    hit_states: &Vec<Option<HitState>>,
    transforms: &Vec<Option<Position>>,
    source: usize,
    target: usize,
    a: usize,
    b: usize,
) -> (r: Option<HitboxCollision>)
    requires
        source < HITSTATE_SIZE,
        target < HITSTATE_SIZE,
    ensures
        r == pair_collision(hit_states.deep_view(), transforms@, source as int, target as int, a as int, b as int),
{
    if a == b {
        return None;
    }
    match (fetch(hit_states, a), fetch(transforms, a), fetch(hit_states, b), fetch(transforms, b)) {
        (Some(state_a), Some(pos_a), Some(state_b), Some(pos_b)) => {
            match (state_a.get(source), state_b.get(target)) {
                (Some(attack), Some(hit)) => attack.depth(&hit, pos_a, pos_b),
                _ => None,
            }
        },
        _ => None,
    }
}

/// Scans every ordered pair of entities and lists the overlaps between the
/// `source` channel of the first and the `target` channel of the second.
pub fn scan(
    hit_states: &Vec<Option<HitState>>,
    transforms: &Vec<Option<Position>>,
    source: usize,
    target: usize,
) -> (events: Vec<CollisionEvent>)
    requires
        source < HITSTATE_SIZE,
        target < HITSTATE_SIZE,
    ensures
        events@ == collisions(hit_states.deep_view(), transforms@, source as int, target as int),
        forall|k: int| 0 <= k < events@.len() ==> (#[trigger] events@[k]).entity_a != events@[k].entity_b,
{
    let mut events: Vec<CollisionEvent> = Vec::new();
    let count = hit_states.len();
    proof {
        assert(hit_states.deep_view().len() == count);
        lemma_scan_sound(
            hit_states.deep_view(),
            transforms@,
            source as int,
            target as int,
            count as int,
        );
    }
    let mut a: usize = 0;
    while a < count
        invariant
            a <= count,
            count == hit_states.deep_view().len(),
            source < HITSTATE_SIZE,
            target < HITSTATE_SIZE,
            events@ == scan_events(hit_states.deep_view(), transforms@, source as int, target as int, a as int),
        decreases count - a,
    {
        let ghost done = events@;
        let mut b: usize = 0;
        while b < count
            invariant
                b <= count,
                a < count,
                count == hit_states.deep_view().len(),
                source < HITSTATE_SIZE,
                target < HITSTATE_SIZE,
                events@ == done + row_events(
                    hit_states.deep_view(),
                    transforms@,
                    source as int,
                    target as int,
                    a as int,
                    b as int,
                ),
            decreases count - b,
        {
            let ghost row = row_events(
                hit_states.deep_view(),
                transforms@,
                source as int,
                target as int,
                a as int,
                b as int,
            );
            if let Some(collision) = collide_pair(hit_states, transforms, source, target, a, b) {
                events.push(CollisionEvent { collision, entity_a: a, entity_b: b });
                assert(events@ =~= done + row.push(
                    CollisionEvent { collision, entity_a: a, entity_b: b },
                ));
            }
            b += 1;
        }
        a += 1;
    }
    events
}

/// A gameplay rule driven by overlaps: the two channels it watches and what
/// it does to the world for each overlap found.
pub trait HitboxCollisionSystem: Sized {
    /// The channel whose boxes act.
    spec fn source_channel() -> usize;

    /// The channel whose boxes are acted on.
    spec fn target_channel() -> usize;

    /// The world after the rule has answered `event`.
    spec fn response(world: WorldModel, event: CollisionEvent) -> WorldModel;

    fn source() -> (r: usize)
        ensures
            r == Self::source_channel(),
            r < HITSTATE_SIZE,
    ;

    fn target() -> (r: usize)
        ensures
            r == Self::target_channel(),
            r < HITSTATE_SIZE,
    ;

    /// Answers one overlap of the source box of `entity_a` with the target
    /// box of `entity_b`.
    fn collide(
        &self,
        collision: HitboxCollision,
        entity_a: usize,
        entity_b: usize,
        world: &mut World,
    )
        ensures
            final(world)@ == Self::response(
                old(world)@,
                CollisionEvent { collision, entity_a, entity_b },
            ),
    ;
}

/// The world after the rule `S` has answered `events` one after the other.
pub open spec fn responses<S: HitboxCollisionSystem>(
    world: WorldModel,
    events: Seq<CollisionEvent>,
) -> WorldModel
    decreases events.len(),
{
    if events.len() == 0 {
        world
    } else {
        S::response(responses::<S>(world, events.drop_last()), events.last())
    }
}

/// The world after a full scan by the rule `S`: every overlap between its two
/// channels is found in `world` as it stands, then answered in scan order.
pub open spec fn checked<S: HitboxCollisionSystem>(world: WorldModel) -> WorldModel {
    responses::<S>(
        world,
        collisions(
            world.hit_states,
            world.transforms,
            S::source_channel() as int,
            S::target_channel() as int,
        ),
    )
}

/// Runs the rule `system` over the world: scans its two channels and lets it
/// answer every overlap.
pub fn check_collisions<S: HitboxCollisionSystem>(system: &S, world: &mut World)
    ensures
        final(world)@ == checked::<S>(old(world)@),
{
    let events = scan(&world.hit_states, &world.transforms, S::source(), S::target());
    let mut i: usize = 0;
    while i < events.len()
        invariant
            i <= events.len(),
            world@ == responses::<S>(old(world)@, events@.subrange(0, i as int)),
        decreases events.len() - i,
    {
        assert(events@.subrange(0, i + 1).drop_last() =~= events@.subrange(0, i as int));
        let event = events[i];
        system.collide(event.collision, event.entity_a, event.entity_b, world);
        i += 1;
    }
    assert(events@.subrange(0, i as int) =~= events@);
}

/// The targets among the first `count` entities that the source box of `a`
/// overlaps.
pub open spec fn targets_hit(
    hit_states: Seq<Option<HitModel>>,
    transforms: Seq<Option<Position>>,
    source: int,
    target: int,
    a: int,
    count: int,
) -> Set<int> {
    Set::new(
        |b: int| 0 <= b < count && pair_collision(hit_states, transforms, source, target, a, b) is Some,
    )
}

/// What a row of the scan holds: every event names `a` as its source and
/// another entity below `count` as its target, and carries the overlap of
/// that pair; the targets come in rising order.
pub proof fn lemma_row_sound(
    hit_states: Seq<Option<HitModel>>,
    transforms: Seq<Option<Position>>,
    source: int,
    target: int,
    a: int,
    count: int,
)
    requires
        0 <= a < hit_states.len() <= usize::MAX,
        count <= hit_states.len(),
    ensures
        forall|k: int|
            #![trigger row_events(hit_states, transforms, source, target, a, count)[k]]
            0 <= k < row_events(hit_states, transforms, source, target, a, count).len() ==> {
                let event = row_events(hit_states, transforms, source, target, a, count)[k];
                &&& event.entity_a == a
                &&& event.entity_b < count
                &&& event.entity_a != event.entity_b
                &&& pair_collision(
                    hit_states,
                    transforms,
                    source,
                    target,
                    a,
                    event.entity_b as int,
                ) == Some(event.collision)
            },
        forall|j: int, k: int|
            0 <= j < k < row_events(hit_states, transforms, source, target, a, count).len()
                ==> row_events(hit_states, transforms, source, target, a, count)[j].entity_b
                < row_events(hit_states, transforms, source, target, a, count)[k].entity_b,
    decreases count,
{
    if count > 0 {
        lemma_row_sound(hit_states, transforms, source, target, a, count - 1);
        let before = row_events(hit_states, transforms, source, target, a, count - 1);
        let row = row_events(hit_states, transforms, source, target, a, count);
        assert forall|k: int| 0 <= k < row.len() implies {
            let event = #[trigger] row[k];
            &&& event.entity_a == a
            &&& event.entity_b < count
            &&& event.entity_a != event.entity_b
            &&& pair_collision(hit_states, transforms, source, target, a, event.entity_b as int)
                == Some(event.collision)
        } by {
            if k < before.len() {
                assert(row[k] == before[k]);
            }
        }
        assert forall|j: int, k: int| 0 <= j < k < row.len() implies row[j].entity_b
            < row[k].entity_b by {
            assert(row[j] == before[j]);
            if k < before.len() {
                assert(row[k] == before[k]);
            }
        }
    }
}

/// A row of the scan holds one event for each target that the source box
/// overlaps, and no other.
pub proof fn lemma_row_count(
    hit_states: Seq<Option<HitModel>>,
    transforms: Seq<Option<Position>>,
    source: int,
    target: int,
    a: int,
    count: int,
)
    requires
        0 <= count,
    ensures
        targets_hit(hit_states, transforms, source, target, a, count).finite(),
        row_events(hit_states, transforms, source, target, a, count).len() == targets_hit(
            hit_states,
            transforms,
            source,
            target,
            a,
            count,
        ).len(),
    decreases count,
{
    let hits = targets_hit(hit_states, transforms, source, target, a, count);
    if count == 0 {
        assert(hits =~= Set::empty());
    } else {
        lemma_row_count(hit_states, transforms, source, target, a, count - 1);
        let before = targets_hit(hit_states, transforms, source, target, a, count - 1);
        if pair_collision(hit_states, transforms, source, target, a, count - 1) is Some {
            assert(hits =~= before.insert(count - 1));
        } else {
            assert(hits =~= before);
        }
    }
}

/// A source that overlaps nothing adds nothing to the scan.
pub proof fn lemma_row_empty(
    hit_states: Seq<Option<HitModel>>,
    transforms: Seq<Option<Position>>,
    source: int,
    target: int,
    a: int,
    count: int,
)
    requires
        forall|b: int| pair_collision(hit_states, transforms, source, target, a, b) is None,
    ensures
        row_events(hit_states, transforms, source, target, a, count) == Seq::<
            CollisionEvent,
        >::empty(),
    decreases count,
{
    if count > 0 {
        lemma_row_empty(hit_states, transforms, source, target, a, count - 1);
    }
}

/// What a scan holds: every event names two distinct entities and carries
/// the overlap of the source box of the first with the target box of the
/// second. In particular no entity ever collides with itself.
pub proof fn lemma_scan_sound(
    hit_states: Seq<Option<HitModel>>,
    transforms: Seq<Option<Position>>,
    source: int,
    target: int,
    rows: int,
)
    requires
        rows <= hit_states.len() <= usize::MAX,
    ensures
        forall|k: int|
            #![trigger scan_events(hit_states, transforms, source, target, rows)[k]]
            0 <= k < scan_events(hit_states, transforms, source, target, rows).len() ==> {
                let event = scan_events(hit_states, transforms, source, target, rows)[k];
                &&& event.entity_a < rows
                &&& event.entity_b < hit_states.len()
                &&& event.entity_a != event.entity_b
                &&& pair_collision(
                    hit_states,
                    transforms,
                    source,
                    target,
                    event.entity_a as int,
                    event.entity_b as int,
                ) == Some(event.collision)
            },
    decreases rows,
{
    if rows > 0 {
        lemma_scan_sound(hit_states, transforms, source, target, rows - 1);
        lemma_row_sound(
            hit_states,
            transforms,
            source,
            target,
            rows - 1,
            hit_states.len() as int,
        );
        let before = scan_events(hit_states, transforms, source, target, rows - 1);
        let row = row_events(
            hit_states,
            transforms,
            source,
            target,
            rows - 1,
            hit_states.len() as int,
        );
        let all = scan_events(hit_states, transforms, source, target, rows);
        assert forall|k: int| 0 <= k < all.len() implies {
            let event = #[trigger] all[k];
            &&& event.entity_a < rows
            &&& event.entity_b < hit_states.len()
            &&& event.entity_a != event.entity_b
            &&& pair_collision(
                hit_states,
                transforms,
                source,
                target,
                event.entity_a as int,
                event.entity_b as int,
            ) == Some(event.collision)
        } by {
            if k < before.len() {
                assert(all[k] == before[k]);
            } else {
                assert(all[k] == row[k - before.len()]);
            }
        }
    }
}

/// Every overlapping pair is found: the scan holds its event.
pub proof fn lemma_scan_complete(
    hit_states: Seq<Option<HitModel>>,
    transforms: Seq<Option<Position>>,
    source: int,
    target: int,
    a: int,
    b: int,
)
    requires
        pair_collision(hit_states, transforms, source, target, a, b) is Some,
    ensures
        collisions(hit_states, transforms, source, target).contains(
            CollisionEvent {
                collision: pair_collision(hit_states, transforms, source, target, a, b).unwrap(),
                entity_a: a as usize,
                entity_b: b as usize,
            },
        ),
{
    let event = CollisionEvent {
        collision: pair_collision(hit_states, transforms, source, target, a, b).unwrap(),
        entity_a: a as usize,
        entity_b: b as usize,
    };
    lemma_row_holds(hit_states, transforms, source, target, a, b, hit_states.len() as int);
    lemma_scan_holds_row(hit_states, transforms, source, target, a, hit_states.len() as int, event);
}

/// A row that has passed an overlapping target holds its event.
proof fn lemma_row_holds(
    hit_states: Seq<Option<HitModel>>,
    transforms: Seq<Option<Position>>,
    source: int,
    target: int,
    a: int,
    b: int,
    count: int,
)
    requires
        pair_collision(hit_states, transforms, source, target, a, b) is Some,
        0 <= b < count,
    ensures
        row_events(hit_states, transforms, source, target, a, count).contains(
            CollisionEvent {
                collision: pair_collision(hit_states, transforms, source, target, a, b).unwrap(),
                entity_a: a as usize,
                entity_b: b as usize,
            },
        ),
    decreases count,
{
    let event = CollisionEvent {
        collision: pair_collision(hit_states, transforms, source, target, a, b).unwrap(),
        entity_a: a as usize,
        entity_b: b as usize,
    };
    let row = row_events(hit_states, transforms, source, target, a, count);
    if b == count - 1 {
        assert(row[row.len() - 1] == event);
    } else {
        lemma_row_holds(hit_states, transforms, source, target, a, b, count - 1);
        let before = row_events(hit_states, transforms, source, target, a, count - 1);
        let k = choose|k: int| 0 <= k < before.len() && before[k] == event;
        assert(row[k] == event);
    }
}

/// A scan that has passed a source holds every event of its row.
proof fn lemma_scan_holds_row(
    hit_states: Seq<Option<HitModel>>,
    transforms: Seq<Option<Position>>,
    source: int,
    target: int,
    a: int,
    rows: int,
    event: CollisionEvent,
)
    requires
        0 <= a < rows,
        row_events(hit_states, transforms, source, target, a, hit_states.len() as int).contains(
            event,
        ),
    ensures
        scan_events(hit_states, transforms, source, target, rows).contains(event),
    decreases rows,
{
    let all = scan_events(hit_states, transforms, source, target, rows);
    let before = scan_events(hit_states, transforms, source, target, rows - 1);
    let row = row_events(hit_states, transforms, source, target, rows - 1, hit_states.len() as int);
    if a == rows - 1 {
        let k = choose|k: int| 0 <= k < row.len() && row[k] == event;
        assert(all[before.len() + k] == event);
    } else {
        lemma_scan_holds_row(hit_states, transforms, source, target, a, rows - 1, event);
        let k = choose|k: int| 0 <= k < before.len() && before[k] == event;
        assert(all[k] == event);
    }
}

/// One box against many: when `a` is the only entity whose source box
/// overlaps anything, the scan holds exactly as many events as there are
/// targets that the box overlaps.
pub proof fn lemma_fan_out(
    hit_states: Seq<Option<HitModel>>,
    transforms: Seq<Option<Position>>,
    source: int,
    target: int,
    a: int,
)
    requires
        forall|other: int, b: int|
            other != a ==> pair_collision(hit_states, transforms, source, target, other, b) is None,
    ensures
        targets_hit(hit_states, transforms, source, target, a, hit_states.len() as int).finite(),
        collisions(hit_states, transforms, source, target).len() == targets_hit(
            hit_states,
            transforms,
            source,
            target,
            a,
            hit_states.len() as int,
        ).len(),
{
    let count = hit_states.len() as int;
    lemma_row_count(hit_states, transforms, source, target, a, count);
    lemma_fan_out_rows(hit_states, transforms, source, target, a, count);
    if !(0 <= a < count) {
        assert(targets_hit(hit_states, transforms, source, target, a, count) =~= Set::empty());
    }
}

/// The scan of the first `rows` sources, when only `a` overlaps anything.
proof fn lemma_fan_out_rows(
    hit_states: Seq<Option<HitModel>>,
    transforms: Seq<Option<Position>>,
    source: int,
    target: int,
    a: int,
    rows: int,
)
    requires
        forall|other: int, b: int|
            other != a ==> pair_collision(hit_states, transforms, source, target, other, b) is None,
        0 <= rows <= hit_states.len(),
    ensures
        scan_events(hit_states, transforms, source, target, rows) == (if 0 <= a < rows {
            row_events(hit_states, transforms, source, target, a, hit_states.len() as int)
        } else {
            Seq::<CollisionEvent>::empty()
        }),
    decreases rows,
{
    if rows > 0 {
        lemma_fan_out_rows(hit_states, transforms, source, target, a, rows - 1);
        let before = scan_events(hit_states, transforms, source, target, rows - 1);
        let row = row_events(
            hit_states,
            transforms,
            source,
            target,
            rows - 1,
            hit_states.len() as int,
        );
        if a != rows - 1 {
            lemma_row_empty(
                hit_states,
                transforms,
                source,
                target,
                rows - 1,
                hit_states.len() as int,
            );
        }
        assert(before + row =~= (if 0 <= a < rows {
            row_events(hit_states, transforms, source, target, a, hit_states.len() as int)
        } else {
            Seq::<CollisionEvent>::empty()
        }));
    }
}

} // verus!
