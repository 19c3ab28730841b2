use crate::dice::{roll, SIDES};
use crate::frame::{Frame, Pixel};
use crate::geometry::{lemma_heading_components, steers, Vec2, UNIT};
use crate::walker::{turn_amount, Segment, Walker};
use vstd::prelude::*;

verus! {

/// Largest width or height of a canvas, in lattice steps.
pub const MAX_EXTENT: i64 = 0x1000_0000_0000_0000;

/// What governs a population for its lifetime.
#[derive(Clone, Copy, Debug, PartialEq, Eq, Structural)]
pub struct Params {
    /// How many of the hundred rolls make a walker turn.
    pub turn_chance: u32,
    /// Largest turn to either side.
    pub turn_angle: i32,
    /// How many of the hundred rolls make a walker divide.
    pub division_chance: u32,
    /// Largest turn of an offspring away from its parent.
    pub division_angle: i32,
    /// What a velocity is multiplied by to give the step of one tick.
    pub speed: i64,
    /// Width of the canvas, in the lattice steps that positions are counted in.
    pub width: i64,
    /// Height of the canvas, in the same steps.
    pub height: i64,
    /// Brightness from which a walker dies.
    pub kill_threshold: u8,
    /// Weight of the strokes drawn.
    pub line_weight: u32,
}

/// The four rolls that one walker consumes in a tick.
#[derive(Clone, Copy, Debug, PartialEq, Eq, Structural)]
pub struct Rolls {
    pub turn: u32,
    pub turn_factor: u32,
    pub division: u32,
    pub division_factor: u32,
}

impl Rolls {
    pub open spec fn valid(self) -> bool {
        &&& self.turn < SIDES
        &&& self.turn_factor < SIDES
        &&& self.division < SIDES
        &&& self.division_factor < SIDES
    }
}

/// Why a tick was not installed.
#[derive(Clone, Copy, Debug, PartialEq, Eq, Structural)]
pub enum TickError {
    /// The number of results differs from the number of walkers dispatched.
    Incomplete,
}

/// A population of walkers and the parameters that govern it.
pub struct Walkers {
    pub walkers: Vec<Walker>,
    pub params: Params,
}

/// The walkers of `group` that are alive.
pub open spec fn alive(group: Seq<Walker>) -> Seq<Walker> {
    group.filter(|w: Walker| !w.dead)
}

/// All results of a tick in the order collected, the dead dropped.
pub open spec fn survivors(groups: Seq<Seq<Walker>>) -> Seq<Walker> {
    alive(groups.flatten())
}

/// How many of the results hold an offspring beside the walker itself.
pub open spec fn divisions(groups: Seq<Seq<Walker>>) -> nat {
    groups.filter(|g: Seq<Walker>| g.len() == 2).len()
}

/// How many walkers among the results are dead.
pub open spec fn deaths(groups: Seq<Seq<Walker>>) -> nat {
    groups.flatten().filter(|w: Walker| w.dead).len()
}

/// The results as sequences.
pub open spec fn views(groups: Seq<Vec<Walker>>) -> Seq<Seq<Walker>> {
    groups.map_values(|g: Vec<Walker>| g@)
}

impl Params {
    /// The canvas is not empty and not too large, and one tick never carries
    /// a walker further than once across it.
    pub open spec fn wf(self) -> bool {
        &&& 0 < self.width <= MAX_EXTENT
        &&& 0 < self.height <= MAX_EXTENT
        &&& -self.width <= UNIT * self.speed <= self.width
        &&& -self.height <= UNIT * self.speed <= self.height
    }

    /// `w` stands on the canvas and its velocity is a heading.
    pub open spec fn admits(self, w: Walker) -> bool {
        &&& w.velocity.is_heading()
        &&& -self.width <= 2 * w.position.x <= self.width
        &&& -self.height <= 2 * w.position.y <= self.height
    }

    /// Every walker of `group` is admitted.
    pub open spec fn admits_all(self, group: Seq<Walker>) -> bool {
        forall|i: int| 0 <= i < group.len() ==> self.admits(#[trigger] group[i])
    }

    /// `w` once it has been moved, wrapped and judged by the sample it then
    /// stands on.
    pub open spec fn spec_settle(self, w: Walker, frame: &Frame) -> Walker {
        let moved = w.spec_update(self.speed as int).spec_wrap(
            self.width as int,
            self.height as int,
        );
        moved.spec_judge(
            frame.spec_sample(moved.position, self.width as int, self.height as int),
            self.kill_threshold,
        )
    }

    /// `group` is what one tick makes of `w` under the rolls `rolls`: the
    /// walker, turned if the first roll says so, then settled; before it an
    /// offspring, if the third roll says so, which is the turned walker
    /// before its step, turned once more.
    pub open spec fn spec_step<F: Fn(Vec2, i64) -> Vec2>(
        self,
        w: Walker,
        rolls: Rolls,
        frame: &Frame,
        rotate: &F,
        group: Seq<Walker>,
    ) -> bool {
        let divides = rolls.division < self.division_chance;
        &&& group.len() == if divides { 2nat } else { 1nat }
        &&& {
            let heading = group.last().velocity;
            let turned = Walker {
                position: w.position,
                prev_position: w.prev_position,
                velocity: heading,
                dead: w.dead,
            };
            &&& if rolls.turn < self.turn_chance {
                call_ensures(
                    rotate,
                    (w.velocity, turn_amount(self.turn_angle as int, rolls.turn_factor as int) as i64),
                    heading,
                )
            } else {
                heading == w.velocity
            }
            &&& group.last() == self.spec_settle(turned, frame)
            &&& divides ==> {
                &&& group[0].position == w.position
                &&& group[0].prev_position == w.prev_position
                &&& group[0].dead == w.dead
                &&& call_ensures(
                    rotate,
                    (
                        heading,
                        turn_amount(
                            self.division_angle as int,
                            rolls.division_factor as int,
                        ) as i64,
                    ),
                    group[0].velocity,
                )
            }
        }
    }

    /// `group` is what one tick makes of `w` under some four rolls.
    pub open spec fn spec_stepped<F: Fn(Vec2, i64) -> Vec2>(
        self,
        w: Walker,
        frame: &Frame,
        rotate: &F,
        group: Seq<Walker>,
    ) -> bool {
        exists|rolls: Rolls| rolls.valid() && #[trigger] self.spec_step(w, rolls, frame, rotate, group)
    }

    /// Decides `wf`.
    pub fn check(&self) -> (ok: bool)
        ensures
            ok == self.wf(),
    {
        if self.width <= 0 || self.width > MAX_EXTENT || self.height <= 0 || self.height
            > MAX_EXTENT {
            return false;
        }
        assert(-0x10_0000 * 0x8000_0000_0000_0000 <= UNIT * self.speed <= 0x10_0000
            * 0x8000_0000_0000_0000) by (nonlinear_arith)
            requires
                UNIT == 0x10_0000,
                -0x8000_0000_0000_0000 <= self.speed <= 0x8000_0000_0000_0000,
        ;
        let stride: i128 = (UNIT as i128) * (self.speed as i128);
        let w: i128 = self.width as i128;
        let h: i128 = self.height as i128;
        -w <= stride && stride <= w && -h <= stride && stride <= h
    }

    /// Decides `admits`.
    pub fn check_walker(&self, w: &Walker) -> (ok: bool)
        ensures
            ok == self.admits(*w),
    {
        let x: i128 = 2 * (w.position.x as i128);
        let y: i128 = 2 * (w.position.y as i128);
        let width: i128 = self.width as i128;
        let height: i128 = self.height as i128;
        w.velocity.check_heading() && -width <= x && x <= width && -height <= y && y <= height
    }

    /// Moves `walker` one step, wraps it round the canvas and kills it if the
    /// sample of `frame` that it then stands on is bright enough.
    pub fn settle(&self, walker: Walker, frame: &Frame) -> (after: Walker)
        requires
            self.wf(),
            self.admits(walker),
            frame.wf(),
            !frame.spec_is_degenerate(),
        ensures
            after == self.spec_settle(walker, frame),
            self.admits(after),
    {
        proof {
            lemma_stride(walker.velocity, self.speed as int, self.width as int);
            lemma_stride(walker.velocity, self.speed as int, self.height as int);
        }
        let mut w = walker;
        w.update(self.speed);
        w.wrap(self.width, self.height);
        let pixel = frame.sample(w.position, self.width, self.height);
        w.judge(pixel, self.kill_threshold);
        w
    }

    /// One walker's tick under given rolls.
    pub fn step_with<F: Fn(Vec2, i64) -> Vec2>(
        &self,
        walker: Walker,
        rolls: Rolls,
        frame: &Frame,
        rotate: &F,
    ) -> (group: Vec<Walker>)
        requires
            self.wf(),
            self.admits(walker),
            rolls.valid(),
            frame.wf(),
            !frame.spec_is_degenerate(),
            steers(rotate),
        ensures
            self.spec_step(walker, rolls, frame, rotate, group@),
            self.admits_all(group@),
    {
        let mut walker = walker;
        let mut group: Vec<Walker> = Vec::new();
        if rolls.turn < self.turn_chance {
            walker.turn_by(self.turn_angle, rolls.turn_factor, rotate);
        }
        if rolls.division < self.division_chance {
            let mut child = walker;
            child.turn_by(self.division_angle, rolls.division_factor, rotate);
            group.push(child);
        }
        let settled = self.settle(walker, frame);
        group.push(settled);
        group
    }

    /// One walker's tick, with rolls of its own.
    pub fn step<F: Fn(Vec2, i64) -> Vec2>(&self, walker: Walker, frame: &Frame, rotate: &F) -> (group:
        Vec<Walker>)
        requires
            self.wf(),
            self.admits(walker),
            frame.wf(),
            !frame.spec_is_degenerate(),
            steers(rotate),
        ensures
            self.spec_stepped(walker, frame, rotate, group@),
            self.admits_all(group@),
    {
        let rolls = Rolls {
            turn: roll(),
            turn_factor: roll(),
            division: roll(),
            division_factor: roll(),
        };
        self.step_with(walker, rolls, frame, rotate)
    }
}

impl Walkers {
    /// The parameters are well formed, and every walker is alive and admitted
    /// by them.
    pub open spec fn wf(&self) -> bool {
        &&& self.params.wf()
        &&& self.params.admits_all(self.walkers@)
        &&& forall|i: int| 0 <= i < self.walkers@.len() ==> !(#[trigger] self.walkers@[i]).dead
    }

    /// `groups` holds one result for each walker, in their order, each made
    /// of its walker by one tick over `frame`.
    pub open spec fn spec_ticked<F: Fn(Vec2, i64) -> Vec2>(
        &self,
        frame: &Frame,
        rotate: &F,
        groups: Seq<Seq<Walker>>,
    ) -> bool {
        &&& groups.len() == self.walkers@.len()
        &&& forall|i: int|
            0 <= i < groups.len() ==> self.params.spec_stepped(
                self.walkers@[i],
                frame,
                rotate,
                #[trigger] groups[i],
            )
    }

    /// Two walkers on a canvas of `width` by `height`: one at the middle of
    /// the lower edge heading up, one at the middle of the left edge heading
    /// right. Angles are in microradians: the walkers turn on one roll in a
    /// hundred, by up to a sixth of a full turn, and would part from an
    /// offspring by up to an eighth, but never divide. They die on a
    /// brightness of 150.
    pub fn new(speed: i64, width: i64, height: i64) -> (population: Walkers)
        requires
            0 < width <= MAX_EXTENT,
            0 < height <= MAX_EXTENT,
            -width <= UNIT * speed <= width,
            -height <= UNIT * speed <= height,
        ensures
            population.wf(),
            population.params == (Params {
                turn_chance: 1,
                turn_angle: 1047198,
                division_chance: 0,
                division_angle: 785398,
                speed,
                width,
                height,
                kill_threshold: 150,
                line_weight: 1,
            }),
            population.walkers@ == seq![
                Walker {
                    position: Vec2 { x: 0, y: (-(height / 2)) as i64 },
                    prev_position: Vec2 { x: 0, y: (-(height / 2)) as i64 },
                    velocity: Vec2 { x: 0, y: UNIT },
                    dead: false,
                },
                Walker {
                    position: Vec2 { x: (-(width / 2)) as i64, y: 0 },
                    prev_position: Vec2 { x: (-(width / 2)) as i64, y: 0 },
                    velocity: Vec2 { x: UNIT, y: 0 },
                    dead: false,
                },
            ],
    {
        let up = Walker::new(Vec2 { x: 0, y: -(height / 2) }, Vec2 { x: 0, y: UNIT });
        let right = Walker::new(Vec2 { x: -(width / 2), y: 0 }, Vec2 { x: UNIT, y: 0 });
        let mut walkers: Vec<Walker> = Vec::new();
        walkers.push(up);
        walkers.push(right);
        Walkers {
            walkers,
            params: Params {
                turn_chance: 1,
                turn_angle: 1047198,
                division_chance: 0,
                division_angle: 785398,
                speed,
                width,
                height,
                kill_threshold: 150,
                line_weight: 1,
            },
        }
    }

    /// A population of `walkers` under `params`, if the parameters are well
    /// formed and every walker is alive and admitted by them.
    pub fn from_parts(params: Params, walkers: Vec<Walker>) -> (population: Option<Walkers>)
        ensures
            population.is_some() <==> (Walkers { walkers, params }).wf(),
            population.is_some() ==> population.unwrap().walkers@ == walkers@
                && population.unwrap().params == params,
    {
        if !params.check() {
            return None;
        }
        let mut i: usize = 0;
        while i < walkers.len()
            invariant
                i <= walkers@.len(),
                forall|j: int| 0 <= j < i ==> params.admits(#[trigger] walkers@[j]) && !walkers@[j].dead,
            decreases walkers@.len() - i,
        {
            if walkers[i].dead || !params.check_walker(&walkers[i]) {
                return None;
            }
            i += 1;
        }
        Some(Walkers { walkers, params })
    }

    /// Replaces the population by the survivors of `groups`, the results of
    /// one tick, provided that there is one result for each walker; else
    /// the population stays as it is.
    pub fn install(&mut self, groups: Vec<Vec<Walker>>) -> (done: Result<(), TickError>)
        requires
            old(self).wf(),
            forall|i: int| 0 <= i < groups@.len() ==> old(self).params.admits_all(#[trigger] groups@[i]@),
        ensures
            final(self).wf(),
            final(self).params == old(self).params,
            done.is_ok() <==> groups@.len() == old(self).walkers@.len(),
            done.is_ok() ==> final(self).walkers@ == survivors(views(groups@)),
            done.is_err() ==> final(self).walkers@ == old(self).walkers@,
    {
        if groups.len() != self.walkers.len() {
            return Err(TickError::Incomplete);
        }
        let ghost all = views(groups@);
        let mut kept: Vec<Walker> = Vec::new();
        let mut i: usize = 0;
        proof {
            assert(all.take(0) =~= Seq::<Seq<Walker>>::empty());
            assert(all.take(0).flatten() =~= Seq::<Walker>::empty());
        }
        while i < groups.len()
            invariant
                i <= groups@.len(),
                all == views(groups@),
                kept@ == survivors(all.take(i as int)),
                self.params.admits_all(kept@),
                forall|j: int| 0 <= j < kept@.len() ==> !(#[trigger] kept@[j]).dead,
                forall|j: int| 0 <= j < groups@.len() ==> self.params.admits_all(#[trigger] groups@[j]@),
            decreases groups@.len() - i,
        {
            let group = &groups[i];
            let ghost base = all.take(i as int).flatten();
            let ghost g = group@;
            assert(all[i as int] == g);
            assert(self.params.admits_all(g));
            proof {
                all.lemma_take_succ_push(i as int);
                all.take(i as int).lemma_flatten_push(g);
                assert(g.take(0) =~= Seq::<Walker>::empty());
                assert(base + g.take(0) =~= base);
            }
            let mut j: usize = 0;
            while j < group.len()
                invariant
                    j <= g.len(),
                    g == group@,
                    self.params.admits_all(g),
                    kept@ == alive(base + g.take(j as int)),
                    self.params.admits_all(kept@),
                    forall|k: int| 0 <= k < kept@.len() ==> !(#[trigger] kept@[k]).dead,
                decreases g.len() - j,
            {
                let w = group[j];
                proof {
                    g.lemma_take_succ_push(j as int);
                    assert(base + g.take(j as int + 1) =~= (base + g.take(j as int)).push(w));
                    (base + g.take(j as int)).lemma_filter_push(w, |w: Walker| !w.dead);
                }
                if !w.dead {
                    kept.push(w);
                }
                j += 1;
            }
            proof {
                assert(g.take(g.len() as int) =~= g);
            }
            i += 1;
        }
        proof {
            assert(all.take(all.len() as int) =~= all);
        }
        self.walkers = kept;
        Ok(())
    }

    /// Advances the population by one tick over `prev_frame`, the frame
    /// rendered last. Without a frame, or with one that has no sample,
    /// nothing changes.
    pub fn update<F: Fn(Vec2, i64) -> Vec2>(&mut self, prev_frame: Option<&Frame>, rotate: &F)
        requires
            old(self).wf(),
            prev_frame.is_some() ==> prev_frame.unwrap().wf(),
            steers(rotate),
        ensures
            final(self).wf(),
            final(self).params == old(self).params,
            prev_frame.is_none() || prev_frame.unwrap().spec_is_degenerate() ==> final(self).walkers@
                == old(self).walkers@,
            prev_frame.is_some() && !prev_frame.unwrap().spec_is_degenerate() ==> exists|
                groups: Seq<Seq<Walker>>,
            |
                #[trigger] old(self).spec_ticked(prev_frame.unwrap(), rotate, groups)
                    && final(self).walkers@ == survivors(groups),
    {
        let frame = match prev_frame {
            Some(frame) => frame,
            None => { return ; },
        };
        if frame.is_degenerate() {
            return ;
        }
        let mut groups: Vec<Vec<Walker>> = Vec::new();
        let mut i: usize = 0;
        while i < self.walkers.len()
            invariant
                *self == *old(self),
                self.wf(),
                frame.wf(),
                !frame.spec_is_degenerate(),
                steers(rotate),
                i <= self.walkers@.len(),
                groups@.len() == i,
                forall|j: int|
                    0 <= j < i ==> self.params.spec_stepped(
                        self.walkers@[j],
                        frame,
                        rotate,
                        #[trigger] groups@[j]@,
                    ),
                forall|j: int| 0 <= j < i ==> self.params.admits_all(#[trigger] groups@[j]@),
            decreases self.walkers@.len() - i,
        {
            let group = self.params.step(self.walkers[i], frame, rotate);
            groups.push(group);
            i += 1;
        }
        proof {
            let all = views(groups@);
            assert(forall|j: int| 0 <= j < all.len() ==> #[trigger] all[j] == groups@[j]@);
            assert(old(self).spec_ticked(frame, rotate, all));
        }
        let done = self.install(groups);
        assert(done.is_ok());
    }

    /// One stroke for each walker, in the order of the population.
    pub fn draw(&self) -> (strokes: Vec<Segment>)
        ensures
            strokes@.len() == self.walkers@.len(),
            forall|i: int|
                0 <= i < strokes@.len() ==> #[trigger] strokes@[i] == (Segment {
                    start: self.walkers@[i].prev_position,
                    end: self.walkers@[i].position,
                    weight: self.params.line_weight,
                    color: Pixel::spec_white(),
                }),
    {
        let mut strokes: Vec<Segment> = Vec::new();
        let mut i: usize = 0;
        while i < self.walkers.len()
            invariant
                i <= self.walkers@.len(),
                strokes@.len() == i,
                forall|j: int|
                    0 <= j < i ==> #[trigger] strokes@[j] == (Segment {
                        start: self.walkers@[j].prev_position,
                        end: self.walkers@[j].position,
                        weight: self.params.line_weight,
                        color: Pixel::spec_white(),
                    }),
            decreases self.walkers@.len() - i,
        {
            strokes.push(self.walkers[i].draw(self.params.line_weight));
            i += 1;
        }
        strokes
    }
}

/// Every walker of a sequence is either alive or dead.
pub proof fn lemma_alive_or_dead(group: Seq<Walker>)
    ensures
        alive(group).len() + group.filter(|w: Walker| w.dead).len() == group.len(),
        forall|k: int| 0 <= k < alive(group).len() ==> !(#[trigger] alive(group)[k]).dead,
    decreases group.len(),
{
    if group.len() == 0 {
        assert(alive(group) =~= Seq::<Walker>::empty());
        assert(group.filter(|w: Walker| w.dead) =~= Seq::<Walker>::empty());
    } else {
        let front = group.drop_last();
        lemma_alive_or_dead(front);
        assert(group =~= front.push(group.last()));
        front.lemma_filter_push(group.last(), |w: Walker| !w.dead);
        front.lemma_filter_push(group.last(), |w: Walker| w.dead);
    }
}

/// The survivors of a tick are as many as the results, each counted with its
/// offspring if it has one, less the dead among them; and none of them is
/// dead.
pub proof fn lemma_census(groups: Seq<Seq<Walker>>)
    requires
        forall|i: int| 0 <= i < groups.len() ==> 1 <= (#[trigger] groups[i]).len() <= 2,
    ensures
        survivors(groups).len() == groups.len() + divisions(groups) - deaths(groups),
        forall|k: int| 0 <= k < survivors(groups).len() ==> !(#[trigger] survivors(groups)[k]).dead,
    decreases groups.len(),
{
    lemma_alive_or_dead(groups.flatten());
    if groups.len() == 0 {
        assert(groups.flatten() =~= Seq::<Walker>::empty());
        assert(groups.filter(|g: Seq<Walker>| g.len() == 2) =~= Seq::<Seq<Walker>>::empty());
    } else {
        let front = groups.drop_last();
        let last = groups.last();
        lemma_census(front);
        lemma_alive_or_dead(front.flatten());
        lemma_alive_or_dead(last);
        assert(groups =~= front.push(last));
        front.lemma_flatten_push(last);
        front.lemma_filter_push(last, |g: Seq<Walker>| g.len() == 2);
        Seq::filter_distributes_over_add(front.flatten(), last, |w: Walker| !w.dead);
        Seq::filter_distributes_over_add(front.flatten(), last, |w: Walker| w.dead);
    }
}

/// After a tick the population holds as many walkers as before, plus one for
/// each division, less one for each death, and no dead walker.
pub proof fn lemma_tick_census<F: Fn(Vec2, i64) -> Vec2>(
    before: Walkers,
    frame: &Frame,
    rotate: &F,
    groups: Seq<Seq<Walker>>,
)
    requires
        before.spec_ticked(frame, rotate, groups),
    ensures
        survivors(groups).len() == before.walkers@.len() + divisions(groups) - deaths(groups),
        forall|k: int| 0 <= k < survivors(groups).len() ==> !(#[trigger] survivors(groups)[k]).dead,
{
    assert forall|i: int| 0 <= i < groups.len() implies 1 <= (#[trigger] groups[i]).len() <= 2 by {
        assert(before.params.spec_stepped(before.walkers@[i], frame, rotate, groups[i]));
    }
    lemma_census(groups);
}

/// A tick yields exactly one result for each walker dispatched, of one or
/// two walkers, and each result ends with its own walker once it has been
/// moved, wrapped and judged, so that none is seen half way.
pub proof fn lemma_tick_complete<F: Fn(Vec2, i64) -> Vec2>(
    before: Walkers,
    frame: &Frame,
    rotate: &F,
    groups: Seq<Seq<Walker>>,
)
    requires
        before.spec_ticked(frame, rotate, groups),
    ensures
        groups.len() == before.walkers@.len(),
        forall|i: int|
            0 <= i < groups.len() ==> {
                let w = before.walkers@[i];
                let after = (#[trigger] groups[i]).last();
                &&& 1 <= groups[i].len() <= 2
                &&& after == before.params.spec_settle(
                    Walker {
                        position: w.position,
                        prev_position: w.prev_position,
                        velocity: after.velocity,
                        dead: w.dead,
                    },
                    frame,
                )
            },
{
    assert forall|i: int| 0 <= i < groups.len() implies {
        let w = before.walkers@[i];
        let after = (#[trigger] groups[i]).last();
        &&& 1 <= groups[i].len() <= 2
        &&& after == before.params.spec_settle(
            Walker {
                position: w.position,
                prev_position: w.prev_position,
                velocity: after.velocity,
                dead: w.dead,
            },
            frame,
        )
    } by {
        assert(before.params.spec_stepped(before.walkers@[i], frame, rotate, groups[i]));
    }
}

/// A heading multiplied by a speed that fits an extent fits it too.
pub proof fn lemma_stride(v: Vec2, speed: int, extent: int)
    requires
        v.is_heading(),
        -extent <= UNIT * speed <= extent,
    ensures
        -extent <= v.x * speed <= extent,
        -extent <= v.y * speed <= extent,
{
    lemma_heading_components(v);
    let u = UNIT as int;
    let x = v.x as int;
    let y = v.y as int;
    assert(-extent <= x * speed <= extent) by (nonlinear_arith)
        requires
            -u <= x <= u,
            u > 0,
            -extent <= u * speed <= extent,
    ;
    assert(-extent <= y * speed <= extent) by (nonlinear_arith)
        requires
            -u <= y <= u,
            u > 0,
            -extent <= u * speed <= extent,
    ;
}

} // verus!
