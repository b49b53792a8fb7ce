//! The snake: its steering law, its body that grows on a fixed cadence while
//! it has glucose to spend, and the test for biting itself.
use crate::geometry::{circles_overlap, clamp_to, clamped, collides, Vector, COORDINATE_LIMIT};
use std::collections::VecDeque;
use vstd::prelude::*;

verus! {

/// Milliseconds between two growth ticks: four segments a second.
pub const GROWTH_INTERVAL_MS: u64 = 250;

/// Glucose of a new snake.
pub const GLUCOSE_LEVEL_AT_START: u64 = 10;

/// Radius of the head, in millipixels.
pub const SNAKE_HEAD_SIZE: u32 = 3000;

/// Speed of the snake, in millipixels per second.
pub const SPEED: i64 = 30_000;

/// Segments at this index or nearer the head never count as a bite: growth
/// ticks per second plus the head's radius in pixels.
pub const BITE_DEAD_ZONE: usize = 7;

/// Largest turn rate, in milliradians per second, either way.
pub const TURN_LIMIT: i64 = 1000;

/// The turn rate toward a target whose bearing in the snake's own frame is
/// `bearing` milliradians: the bearing negated and held within the turn limit.
pub open spec fn turn_rate(bearing: int) -> int {
    clamped(-bearing, -TURN_LIMIT as int, TURN_LIMIT as int)
}

/// Steering law: turn at full rate toward any target off the axis, go straight
/// toward one dead ahead. `bearing` is the signed angle of the target in the
/// snake's frame, in milliradians (zero where the heading is undefined).
pub fn compute_acceleration(bearing: i64) -> (r: i64)
    ensures
        r == turn_rate(bearing as int),
        -TURN_LIMIT <= r <= TURN_LIMIT,
{
    let r = clamp_to(-(bearing as i128), -TURN_LIMIT as i128, TURN_LIMIT as i128);
    r as i64
}

/// One growth tick on (body length, glucose): with glucose left the body gains
/// a segment and spends one unit; without, it gains one and loses its tail.
pub open spec fn tick(length: nat, glucose: nat) -> (nat, nat) {
    if glucose > 0 {
        (length + 1, (glucose - 1) as nat)
    } else {
        (length, glucose)
    }
}

/// (body length, glucose) after `k` growth ticks.
pub open spec fn ticks(length: nat, glucose: nat, k: nat) -> (nat, nat)
    decreases k,
{
    if k == 0 {
        (length, glucose)
    } else {
        let (l, g) = ticks(length, glucose, (k - 1) as nat);
        tick(l, g)
    }
}

/// With no apple eaten, a body that starts with glucose `g` is `g` segments
/// longer after `g` growth ticks, and keeps that length on every later tick.
pub proof fn lemma_growth_then_constant(length: nat, g: nat, k: nat)
    ensures
        ticks(length, g, g) == (length + g, 0nat),
        ticks(length, g, g + k) == (length + g, 0nat),
    decreases g + k,
{
    if k > 0 {
        lemma_growth_then_constant(length, g, (k - 1) as nat);
    } else if g > 0 {
        lemma_ticks_spend(length, g, g);
    }
}

proof fn lemma_ticks_spend(length: nat, g: nat, k: nat)
    requires
        k <= g,
    ensures
        ticks(length, g, k) == (length + k, (g - k) as nat),
    decreases k,
{
    if k > 0 {
        lemma_ticks_spend(length, g, (k - 1) as nat);
    }
}

/// The head circle overlaps segment `i` of `spine`, whose radius is `sizes[i]`,
/// and `i` lies beyond the dead zone.
pub open spec fn bites_at(head: Vector, spine: Seq<Vector>, sizes: Seq<u32>, i: int) -> bool {
    &&& BITE_DEAD_ZONE < i < spine.len()
    &&& circles_overlap(head, SNAKE_HEAD_SIZE as int, spine[i], sizes[i] as int)
}

/// Segments at the dead-zone index or nearer the head have no say in a bite:
/// two bodies of one length that agree beyond the dead zone, with radii that
/// agree there too, bite or not alike, wherever their near segments lie.
pub proof fn lemma_dead_zone_ignored(
    head: Vector,
    spine: Seq<Vector>,
    sizes: Seq<u32>,
    other_spine: Seq<Vector>,
    other_sizes: Seq<u32>,
)
    requires
        spine.len() == other_spine.len(),
        forall|i: int| BITE_DEAD_ZONE < i < spine.len() ==> spine[i] == other_spine[i],
        forall|i: int| BITE_DEAD_ZONE < i < spine.len() ==> sizes[i] == other_sizes[i],
    ensures
        (exists|i: int| bites_at(head, spine, sizes, i)) == (exists|i: int|
            bites_at(head, other_spine, other_sizes, i)),
{
    if exists|i: int| bites_at(head, spine, sizes, i) {
        let i = choose|i: int| bites_at(head, spine, sizes, i);
        assert(bites_at(head, other_spine, other_sizes, i));
    }
    if exists|i: int| bites_at(head, other_spine, other_sizes, i) {
        let i = choose|i: int| bites_at(head, other_spine, other_sizes, i);
        assert(bites_at(head, spine, sizes, i));
    }
}

/// A target dead ahead gives no turn, and a frame of `frame_ms` at full speed
/// along the x axis moves the head by that speed times the frame's duration
/// along the x axis alone, where the plane's edge is not reached.
pub proof fn lemma_dead_ahead_frame(head: Vector, frame_ms: u64)
    requires
        head.wf(),
        head.x + SPEED * frame_ms / 1000 <= COORDINATE_LIMIT,
    ensures
        turn_rate(0) == 0,
        head.translated_spec(Vector { x: SPEED, y: 0 }, frame_ms as int) == (Vector {
            x: (head.x + SPEED * frame_ms / 1000) as i64,
            y: head.y,
        }),
{
    assert(SPEED * frame_ms >= 0) by (nonlinear_arith);
    assert(SPEED * frame_ms / 1000 >= 0) by (nonlinear_arith)
        requires
            SPEED * frame_ms >= 0,
    ;
}

/// Frames that each run a growth tick, with no apple eaten in between, follow
/// the tick model: after `g` of them a body that started with glucose `g` is
/// `g` segments longer, and it keeps that length on every later one.
pub proof fn lemma_growth_over_frames(
    snakes: Seq<Snake>,
    nows: Seq<u64>,
    frames: Seq<u64>,
    velocities: Seq<Vector>,
)
    requires
        snakes.len() >= 1,
        nows.len() == snakes.len() - 1,
        frames.len() == snakes.len() - 1,
        velocities.len() == snakes.len() - 1,
        forall|j: int|
            0 <= j < snakes.len() - 1 ==> #[trigger] snakes[j].steps_to(
                snakes[j + 1],
                nows[j],
                frames[j],
                velocities[j],
            ) && growth_due(nows[j], snakes[j].time_of_last_redraw),
    ensures
        forall|k: int|
            0 <= k < snakes.len() ==> ((#[trigger] snakes[k]).spine@.len(),
            snakes[k].glucose_level as nat) == ticks(
                snakes[0].spine@.len(),
                snakes[0].glucose_level as nat,
                k as nat,
            ),
        forall|k: int|
            snakes[0].glucose_level <= k < snakes.len() ==> (#[trigger] snakes[k]).spine@.len()
                == snakes[0].spine@.len() + snakes[0].glucose_level,
    decreases snakes.len(),
{
    let l0 = snakes[0].spine@.len();
    let g0 = snakes[0].glucose_level as nat;
    if snakes.len() > 1 {
        let n = snakes.len() - 1;
        lemma_growth_over_frames(
            snakes.drop_last(),
            nows.drop_last(),
            frames.drop_last(),
            velocities.drop_last(),
        );
        assert forall|k: int| 0 <= k < snakes.len() implies ((#[trigger] snakes[k]).spine@.len(),
            snakes[k].glucose_level as nat) == ticks(l0, g0, k as nat) by {
            if k < n {
                assert(snakes[k] == snakes.drop_last()[k]);
            } else {
                let j = n - 1;
                assert(snakes[j] == snakes.drop_last()[j]);
                assert(snakes[j].steps_to(snakes[j + 1], nows[j], frames[j], velocities[j])
                    && growth_due(nows[j], snakes[j].time_of_last_redraw));
                assert(j + 1 == k);
            }
        }
    }
    assert forall|k: int| g0 <= k < snakes.len() implies (#[trigger] snakes[k]).spine@.len() == l0
        + g0 by {
        lemma_growth_then_constant(l0, g0, (k - g0) as nat);
        assert(((snakes[k]).spine@.len(), snakes[k].glucose_level as nat) == ticks(l0, g0, k as nat));
    }
}

/// A growth tick is due at `now` after one at `last`.
pub open spec fn growth_due(now: u64, last: u64) -> bool {
    now > last + GROWTH_INTERVAL_MS
}

pub struct Snake {
    /// Body segments, the newest (nearest the head) first.
    pub spine: VecDeque<Vector>,
    /// Time of the last growth tick, in milliseconds.
    pub time_of_last_redraw: u64,
    pub head: Vector,
    pub glucose_level: u64,
    /// Millipixels per second.
    pub velocity: Vector,
}

impl Snake {
    /// A body of at least one segment, and every point within the plane.
    pub open spec fn wf(&self) -> bool {
        &&& self.spine@.len() >= 1
        &&& forall|i: int| 0 <= i < self.spine@.len() ==> (#[trigger] self.spine@[i]).wf()
        &&& self.head.wf()
        &&& self.velocity.wf()
    }

    /// This is a new snake at `head` created at `now`.
    pub open spec fn is_new(&self, head: Vector, now: u64) -> bool {
        &&& self.spine@ == seq![head]
        &&& self.head == head
        &&& self.time_of_last_redraw == now
        &&& self.glucose_level == GLUCOSE_LEVEL_AT_START
        &&& self.velocity == (Vector { x: SPEED, y: 0 })
    }

    /// `next` is this snake after one frame's step: it takes `velocity`, its
    /// head moves along it for `frame_ms`, and when a growth tick is due at
    /// `now` a segment at the new head goes to the front, glucose is spent or
    /// the tail goes, and the tick's time advances by one interval; otherwise
    /// body, glucose and tick time stay.
    pub open spec fn steps_to(&self, next: Snake, now: u64, frame_ms: u64, velocity: Vector) -> bool {
        &&& next.velocity == velocity
        &&& next.head == self.head.translated_spec(velocity, frame_ms as int)
        &&& growth_due(now, self.time_of_last_redraw) ==> {
            &&& next.time_of_last_redraw == self.time_of_last_redraw + GROWTH_INTERVAL_MS
            &&& next.spine@.len() >= 1
            &&& next.spine@[0] == next.head
            &&& next.spine@.subrange(1, next.spine@.len() as int) == if self.glucose_level > 0 {
                self.spine@
            } else {
                self.spine@.drop_last()
            }
            &&& (next.spine@.len(), next.glucose_level as nat) == tick(
                self.spine@.len(),
                self.glucose_level as nat,
            )
        }
        &&& !growth_due(now, self.time_of_last_redraw) ==> {
            &&& next.time_of_last_redraw == self.time_of_last_redraw
            &&& next.spine@ == self.spine@
            &&& next.glucose_level == self.glucose_level
        }
    }

    /// A snake at `head`, heading along the x axis at full speed, with one
    /// segment under its head and the starting glucose.
    pub fn initial_snake(head: Vector, now: u64) -> (r: Snake)
        requires
            head.wf(),
        ensures
            r.wf(),
            r.is_new(head, now),
    {
        let mut spine: VecDeque<Vector> = VecDeque::new();
        spine.push_front(head);
        assert(spine@ =~= seq![head]);
        Snake {
            spine,
            time_of_last_redraw: now,
            head,
            glucose_level: GLUCOSE_LEVEL_AT_START,
            velocity: Vector { x: SPEED, y: 0 },
        }
    }

    /// The kinematic part of a frame: take the steered `velocity`, move the
    /// head along it for `frame_ms`, and run a growth tick if one is due at
    /// `now` (at most one per frame; the tick's time advances by one interval).
    pub fn step(&mut self, now: u64, frame_ms: u64, velocity: Vector)
        requires
            old(self).wf(),
            velocity.wf(),
        ensures
            final(self).wf(),
            old(self).steps_to(*final(self), now, frame_ms, velocity),
    {
        self.velocity = velocity;
        self.head = self.head.translated(velocity, frame_ms);
        if now > self.time_of_last_redraw && now - self.time_of_last_redraw > GROWTH_INTERVAL_MS {
            let ghost before = self.spine@;
            self.grow();
            assert(self.spine@.subrange(1, self.spine@.len() as int) =~= if old(self).glucose_level
                > 0 {
                before
            } else {
                before.drop_last()
            });
            self.time_of_last_redraw = self.time_of_last_redraw + GROWTH_INTERVAL_MS;
        }
    }

    /// Whether the head circle overlaps a segment beyond the dead zone;
    /// `sizes[i]` is the radius of segment `i`, in millipixels.
    pub fn does_snake_bite_itself(&self, sizes: &Vec<u32>) -> (r: bool)
        requires
            self.wf(),
            sizes@.len() == self.spine@.len(),
        ensures
            r == exists|i: int| bites_at(self.head, self.spine@, sizes@, i),
    {
        let n = self.spine.len();
        let mut i: usize = 0;
        while i < n
            invariant
                self.wf(),
                n == self.spine@.len(),
                sizes@.len() == n,
                0 <= i <= n,
                forall|j: int| 0 <= j < i ==> !bites_at(self.head, self.spine@, sizes@, j),
            decreases n - i,
        {
            if i > BITE_DEAD_ZONE && collides(self.head, SNAKE_HEAD_SIZE, self.spine[i], sizes[i]) {
                assert(bites_at(self.head, self.spine@, sizes@, i as int));
                return true;
            }
            i = i + 1;
        }
        assert forall|j: int| !bites_at(self.head, self.spine@, sizes@, j) by {
            if 0 <= j < i {
            }
        }
        false
    }

    pub fn spine_len(&self) -> (r: usize)
        ensures
            r == self.spine@.len(),
    {
        self.spine.len()
    }

    /// One growth tick: a segment at the head goes to the front; glucose is
    /// spent if there is any, else the tail segment is removed.
    pub fn grow(&mut self)
        requires
            old(self).wf(),
        ensures
            final(self).wf(),
            final(self).head == old(self).head,
            final(self).velocity == old(self).velocity,
            final(self).time_of_last_redraw == old(self).time_of_last_redraw,
            old(self).glucose_level > 0 ==> final(self).spine@ == seq![old(self).head]
                + old(self).spine@,
            old(self).glucose_level == 0 ==> final(self).spine@ == seq![old(self).head]
                + old(self).spine@.drop_last(),
            (final(self).spine@.len(), final(self).glucose_level as nat) == tick(
                old(self).spine@.len(),
                old(self).glucose_level as nat,
            ),
    {
        let ghost before = self.spine@;
        self.spine.push_front(self.head);
        if self.glucose_level > 0 {
            self.glucose_level = self.glucose_level - 1;
        } else {
            self.spine.pop_back();
            assert(self.spine@ =~= seq![self.head] + before.drop_last());
        }
        assert forall|i: int| 0 <= i < self.spine@.len() implies (#[trigger] self.spine@[i]).wf() by {
            if i > 0 {
                assert(self.spine@[i] == before[i - 1]);
            }
        }
    }
}

} // verus!
