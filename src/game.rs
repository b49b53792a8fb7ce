//! The game: a snake, its apples and a score, in play or over, advanced one
//! frame at a time.
use crate::apple::{
    does_apple_collide_with_snake, eaten, expired, is_apple_eaten_by_snake, reference_index,
    touches_segment, Apple,
};
use crate::geometry::Vector;
use crate::snake::{bites_at, Snake};
use vstd::prelude::*;

verus! {

#[derive(Clone, Copy, Debug, PartialEq, Eq, Structural)]
pub enum Mode {
    Playing,
    Over,
}

/// The apple stays for the next frame: neither eaten nor expired.
pub open spec fn kept(a: Apple, head: Vector, reference_radius: u32, now: u64) -> bool {
    !eaten(a, head, reference_radius) && !expired(a, now)
}

/// The apples that stay, in their order.
pub open spec fn surviving(apples: Seq<Apple>, head: Vector, reference_radius: u32, now: u64) -> Seq<
    Apple,
>
    decreases apples.len(),
{
    if apples.len() == 0 {
        Seq::empty()
    } else {
        let rest = surviving(apples.drop_last(), head, reference_radius, now);
        if kept(apples.last(), head, reference_radius, now) {
            rest.push(apples.last())
        } else {
            rest
        }
    }
}

/// Total size of the apples that the head eats.
pub open spec fn eaten_size(apples: Seq<Apple>, head: Vector, reference_radius: u32) -> int
    decreases apples.len(),
{
    if apples.len() == 0 {
        0
    } else {
        eaten_size(apples.drop_last(), head, reference_radius) + if eaten(
            apples.last(),
            head,
            reference_radius,
        ) {
            apples.last().size as int
        } else {
            0
        }
    }
}

/// `x` held at the largest `u64`.
pub open spec fn saturated(x: int) -> int {
    if x > u64::MAX as int {
        u64::MAX as int
    } else {
        x
    }
}

/// An apple stays exactly when it was there and was neither eaten nor
/// expired; in particular an uneaten apple goes at the first frame at which
/// its age reaches its life time, and not before.
pub proof fn lemma_apple_lifecycle(
    apples: Seq<Apple>,
    head: Vector,
    reference_radius: u32,
    now: u64,
    a: Apple,
)
    ensures
        surviving(apples, head, reference_radius, now).contains(a) <==> (apples.contains(a) && kept(
            a,
            head,
            reference_radius,
            now,
        )),
        apples.contains(a) && !eaten(a, head, reference_radius) ==> (surviving(
            apples,
            head,
            reference_radius,
            now,
        ).contains(a) <==> !expired(a, now)),
    decreases apples.len(),
{
    if apples.len() > 0 {
        let init = apples.drop_last();
        lemma_apple_lifecycle(init, head, reference_radius, now, a);
        assert(apples == init.push(apples.last()));
        if apples.contains(a) {
            let k = choose|k: int| 0 <= k < apples.len() && apples[k] == a;
            if k < init.len() {
                assert(init[k] == a);
            }
        }
        let rest = surviving(init, head, reference_radius, now);
        if kept(apples.last(), head, reference_radius, now) {
            let s = rest.push(apples.last());
            if s.contains(a) {
                let k = choose|k: int| 0 <= k < s.len() && s[k] == a;
                if k < rest.len() {
                    assert(rest[k] == a);
                }
            }
            if rest.contains(a) {
                let k = choose|k: int| 0 <= k < rest.len() && rest[k] == a;
                assert(s[k] == a);
            }
            assert(s[rest.len() as int] == apples.last());
        }
        if init.contains(a) {
            let k = choose|k: int| 0 <= k < init.len() && init[k] == a;
            assert(apples[k] == a);
        }
        assert(apples[init.len() as int] == apples.last());
    }
}

/// The apples once a spawned candidate, if any, has been offered: it joins
/// at the back unless it touches a segment of the body.
pub open spec fn offered(
    apples: Seq<Apple>,
    candidate: Option<Apple>,
    spine: Seq<Vector>,
    sizes: Seq<u32>,
) -> Seq<Apple> {
    match candidate {
        Some(a) => if exists|i: int| touches_segment(a, spine, sizes, i) {
            apples
        } else {
            apples.push(a)
        },
        None => apples,
    }
}

pub struct Game {
    pub score: u64,
    pub mode: Mode,
    pub snake: Snake,
    pub apples: Vec<Apple>,
}

impl Game {
    pub open spec fn wf(&self) -> bool {
        &&& self.snake.wf()
        &&& forall|i: int| 0 <= i < self.apples@.len() ==> (#[trigger] self.apples@[i]).position.wf()
    }

    /// A game in play with score zero, a new snake at `center` and one apple.
    pub fn initial_game(center: Vector, now: u64, first_apple: Apple) -> (r: Game)
        requires
            center.wf(),
            first_apple.position.wf(),
        ensures
            r.wf(),
            r.score == 0,
            r.mode == Mode::Playing,
            r.snake.is_new(center, now),
            r.apples@ == seq![first_apple],
    {
        let mut apples: Vec<Apple> = Vec::new();
        apples.push(first_apple);
        Game { score: 0, mode: Mode::Playing, snake: Snake::initial_snake(center, now), apples }
    }

    /// On the game-over screen, start again with `fresh`, keeping the score
    /// as a running tally; in play, nothing changes.
    pub fn restart(&mut self, fresh: Game)
        requires
            old(self).wf(),
            fresh.wf(),
        ensures
            final(self).wf(),
            old(self).mode == Mode::Over ==> {
                &&& final(self).score == old(self).score
                &&& final(self).mode == fresh.mode
                &&& final(self).snake == fresh.snake
                &&& final(self).apples == fresh.apples
            },
            old(self).mode == Mode::Playing ==> *final(self) == *old(self),
    {
        if let Mode::Over = self.mode {
            let score = self.score;
            *self = fresh;
            self.score = score;
        }
    }

    /// The first part of a frame in play: steer, move and grow the snake, as
    /// `Snake::steps_to` states; the rest of the game stays.
    pub fn begin_frame(&mut self, now: u64, frame_ms: u64, velocity: Vector)
        requires
            old(self).wf(),
            velocity.wf(),
        ensures
            final(self).wf(),
            final(self).score == old(self).score,
            final(self).mode == old(self).mode,
            final(self).apples == old(self).apples,
            old(self).snake.steps_to(final(self).snake, now, frame_ms, velocity),
    {
        self.snake.step(now, frame_ms, velocity);
    }

    /// End the round if the snake bites itself: the score becomes the length
    /// of its body. `sizes[i]` is the radius of segment `i`.
    pub fn check_bite(&mut self, sizes: &Vec<u32>)
        requires
            old(self).wf(),
            sizes@.len() == old(self).snake.spine@.len(),
        ensures
            final(self).snake == old(self).snake,
            final(self).apples == old(self).apples,
            (exists|i: int| bites_at(old(self).snake.head, old(self).snake.spine@, sizes@, i)) ==> {
                &&& final(self).mode == Mode::Over
                &&& final(self).score == old(self).snake.spine@.len()
            },
            !(exists|i: int| bites_at(old(self).snake.head, old(self).snake.spine@, sizes@, i))
                ==> *final(self) == *old(self),
    {
        if self.snake.does_snake_bite_itself(sizes) {
            self.mode = Mode::Over;
            self.score = self.snake.spine_len() as u64;
        }
    }

    /// A spawned candidate joins the apples unless it overlaps the body, in
    /// which case it is dropped.
    pub fn offer_apple(&mut self, candidate: Apple, sizes: &Vec<u32>)
        requires
            old(self).wf(),
            candidate.position.wf(),
            sizes@.len() == old(self).snake.spine@.len(),
        ensures
            final(self).wf(),
            final(self).snake == old(self).snake,
            final(self).score == old(self).score,
            final(self).mode == old(self).mode,
            (exists|i: int| touches_segment(candidate, old(self).snake.spine@, sizes@, i))
                ==> final(self).apples@ == old(self).apples@,
            !(exists|i: int| touches_segment(candidate, old(self).snake.spine@, sizes@, i))
                ==> final(self).apples@ == old(self).apples@.push(candidate),
    {
        if !does_apple_collide_with_snake(&candidate, &self.snake, sizes) {
            self.apples.push(candidate);
        }
    }

    /// Visit every apple once: an eaten one goes and its size is added to the
    /// snake's glucose (held at the largest `u64`); an expired one goes; the
    /// others stay, in order. The head's reach is the radius of the mid-body
    /// segment.
    pub fn update_apples(&mut self, now: u64, sizes: &Vec<u32>)
        requires
            old(self).wf(),
            sizes@.len() == old(self).snake.spine@.len(),
        ensures
            final(self).wf(),
            final(self).score == old(self).score,
            final(self).mode == old(self).mode,
            final(self).snake.spine == old(self).snake.spine,
            final(self).snake.head == old(self).snake.head,
            final(self).snake.velocity == old(self).snake.velocity,
            final(self).snake.time_of_last_redraw == old(self).snake.time_of_last_redraw,
            final(self).apples@ == surviving(
                old(self).apples@,
                old(self).snake.head,
                sizes@[reference_index(old(self).snake.spine@.len() as int)],
                now,
            ),
            final(self).snake.glucose_level == saturated(
                old(self).snake.glucose_level + eaten_size(
                    old(self).apples@,
                    old(self).snake.head,
                    sizes@[reference_index(old(self).snake.spine@.len() as int)],
                ),
            ),
    {
        let ghost apples = self.apples@;
        let ghost g0 = self.snake.glucose_level;
        let ghost reach = sizes@[reference_index(self.snake.spine@.len() as int)];
        let n = self.apples.len();
        let mut stay: Vec<Apple> = Vec::new();
        let mut i: usize = 0;
        while i < n
            invariant
                self.snake.wf(),
                self.apples@ == apples,
                n == apples.len(),
                sizes@.len() == self.snake.spine@.len(),
                reach == sizes@[reference_index(self.snake.spine@.len() as int)],
                self.snake.spine == old(self).snake.spine,
                self.snake.head == old(self).snake.head,
                self.snake.velocity == old(self).snake.velocity,
                self.snake.time_of_last_redraw == old(self).snake.time_of_last_redraw,
                self.score == old(self).score,
                self.mode == old(self).mode,
                forall|k: int| 0 <= k < apples.len() ==> (#[trigger] apples[k]).position.wf(),
                0 <= i <= n,
                stay@ == surviving(apples.subrange(0, i as int), self.snake.head, reach, now),
                self.snake.glucose_level == saturated(
                    g0 + eaten_size(apples.subrange(0, i as int), self.snake.head, reach),
                ),
            decreases n - i,
        {
            let apple = self.apples[i];
            assert(apples.subrange(0, i + 1).drop_last() =~= apples.subrange(0, i as int));
            assert(apples.subrange(0, i + 1).last() == apple);
            if is_apple_eaten_by_snake(&apple, &self.snake, sizes) {
                let size = apple.size as u64;
                if self.snake.glucose_level > u64::MAX - size {
                    self.snake.glucose_level = u64::MAX;
                } else {
                    self.snake.glucose_level = self.snake.glucose_level + size;
                }
            } else if !apple.is_expired(now) {
                stay.push(apple);
            }
            i = i + 1;
        }
        assert(apples.subrange(0, n as int) =~= apples);
        assert forall|k: int| 0 <= k < stay@.len() implies (#[trigger] stay@[k]).position.wf() by {
            lemma_surviving_within(apples, self.snake.head, reach, now, k);
        }
        self.apples = stay;
    }

    /// The rest of a frame in play, once the body has its length for the frame
    /// and `sizes[i]` is the radius of segment `i`: the bite test, the spawned
    /// candidate if any, then the apples.
    pub fn end_frame(&mut self, now: u64, sizes: &Vec<u32>, candidate: Option<Apple>)
        requires
            old(self).wf(),
            sizes@.len() == old(self).snake.spine@.len(),
            candidate matches Some(a) ==> a.position.wf(),
        ensures
            final(self).wf(),
            final(self).snake.spine == old(self).snake.spine,
            final(self).snake.head == old(self).snake.head,
            final(self).snake.velocity == old(self).snake.velocity,
            final(self).snake.time_of_last_redraw == old(self).snake.time_of_last_redraw,
            (exists|i: int| bites_at(old(self).snake.head, old(self).snake.spine@, sizes@, i)) ==> {
                &&& final(self).mode == Mode::Over
                &&& final(self).score == old(self).snake.spine@.len()
            },
            !(exists|i: int| bites_at(old(self).snake.head, old(self).snake.spine@, sizes@, i))
                ==> {
                &&& final(self).mode == old(self).mode
                &&& final(self).score == old(self).score
            },
            final(self).apples@ == surviving(
                offered(old(self).apples@, candidate, old(self).snake.spine@, sizes@),
                old(self).snake.head,
                sizes@[reference_index(old(self).snake.spine@.len() as int)],
                now,
            ),
            final(self).snake.glucose_level == saturated(
                old(self).snake.glucose_level + eaten_size(
                    offered(old(self).apples@, candidate, old(self).snake.spine@, sizes@),
                    old(self).snake.head,
                    sizes@[reference_index(old(self).snake.spine@.len() as int)],
                ),
            ),
    {
        self.check_bite(sizes);
        if let Some(a) = candidate {
            self.offer_apple(a, sizes);
        }
        self.update_apples(now, sizes);
    }
}

/// Every apple that stays was one of the apples before.
proof fn lemma_surviving_within(
    apples: Seq<Apple>,
    head: Vector,
    reference_radius: u32,
    now: u64,
    k: int,
)
    requires
        0 <= k < surviving(apples, head, reference_radius, now).len(),
    ensures
        apples.contains(surviving(apples, head, reference_radius, now)[k]),
{
    let a = surviving(apples, head, reference_radius, now)[k];
    lemma_apple_lifecycle(apples, head, reference_radius, now, a);
}

} // verus!
