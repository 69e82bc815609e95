//! The ray tracer: casts a light source against the physics world, reflecting off surfaces,
//! and records the polyline the beam follows and the colliders it strikes.
//!
//! The physics world answers one cast at a time; [`Tracer::advance`] takes each answer and
//! decides the next step, and [`simulate_ray`] drives the casts through a caller-supplied
//! backend.
use vstd::prelude::*;

use crate::geometry::{
    advance_spec, dir_in_range, same_magnitude, is_axis_unit, point_in_range, reflect_spec, Vec2,
    MAX_DIR,
};
use crate::sources::{has_color, LightSources};
use crate::light::{
    bounces_spec, ray_groups, ray_groups_spec, CollisionGroups, LightColor, LightRaySource,
    MAX_DISTANCE,
};

verus! {

/// Hits closer than this to the cast's origin are treated as the ray touching the surface it
/// just left, and end the trace.
pub const MIN_HIT_DISTANCE: i64 = 1;

/// One query to the physics world: the first collider met from `origin` along `dir` within
/// `max_toi` multiples of `dir`, among those `groups` interacts with, leaving out `excluded`.
#[derive(Debug)]
pub struct RayCast {
    pub origin: Vec2,
    pub dir: Vec2,
    pub max_toi: i64,
    pub groups: CollisionGroups,
    pub excluded: Vec<u64>,
}

/// The physics world's answer to a [`RayCast`] that met a collider.
#[derive(Clone, Copy, Debug, PartialEq, Eq, Structural)]
pub struct RayHit {
    /// The collider that was hit.
    pub entity: u64,
    /// How many multiples of the cast's direction lie between its origin and the hit.
    pub toi: i64,
    /// The surface normal at the hit.
    pub normal: Vec2,
}

pub open spec fn sum(s: Seq<i64>) -> int
    decreases s.len(),
{
    if s.len() == 0 {
        0
    } else {
        sum(s.drop_last()) + s.last()
    }
}

pub proof fn lemma_sum_push(s: Seq<i64>, x: i64)
    ensures
        sum(s.push(x)) == sum(s) + x,
{
    assert(s.push(x).drop_last() =~= s);
}

proof fn lemma_step_bound(a: int, t: int)
    requires
        -MAX_DIR <= a <= MAX_DIR,
        0 <= t,
    ensures
        -MAX_DIR * t <= a * t <= MAX_DIR * t,
{
    assert(-MAX_DIR * t <= a * t <= MAX_DIR * t) by (nonlinear_arith)
        requires
            -0x10_0000 <= a <= 0x10_0000,
            0 <= t,
    ;
}

/// `p` lies at `(x, y)`.
pub open spec fn at(p: Vec2, xy: (int, int)) -> bool {
    p.x == xy.0 && p.y == xy.1
}

/// A hit that the tracer reflects off: far enough from the cast's origin, within the distance
/// left, and off a surface with an axis unit normal.
pub open spec fn usable_hit(h: RayHit, remaining: int) -> bool {
    MIN_HIT_DISTANCE <= h.toi <= remaining && is_axis_unit(h.normal)
}

/// What changes as a trace goes on: the fields of [`Tracer`] other than the fixed ones.
pub struct TraceView {
    pub pos: Vec2,
    pub dir: Vec2,
    pub remaining: i64,
    pub casts_left: usize,
    pub excluded: Seq<u64>,
    pub points: Seq<Vec2>,
    pub dirs: Seq<Vec2>,
    pub lengths: Seq<i64>,
    pub struck: Seq<u64>,
    pub done: bool,
}

/// The point reached from `p` after `t` multiples of `d`.
pub open spec fn moved(p: Vec2, d: Vec2, t: int) -> Vec2 {
    Vec2 { x: (p.x + d.x * t) as i64, y: (p.y + d.y * t) as i64 }
}

/// `d` reflected off a surface with normal `n`.
pub open spec fn reflected(d: Vec2, n: Vec2) -> Vec2 {
    Vec2 { x: reflect_spec(d, n).0 as i64, y: reflect_spec(d, n).1 as i64 }
}

/// The trace state before any cast of `source`.
pub open spec fn start_view(source: LightRaySource) -> TraceView {
    TraceView {
        pos: source.start_pos,
        dir: source.start_dir,
        remaining: source.time_traveled,
        casts_left: (bounces_spec(source.color) + 1) as usize,
        excluded: Seq::empty(),
        points: seq![source.start_pos],
        dirs: Seq::empty(),
        lengths: Seq::empty(),
        struck: Seq::empty(),
        done: false,
    }
}

/// One step of a trace, given the physics world's answer to its next cast.
///
/// No hit: the beam runs out its remaining distance along the current direction and the trace
/// ends. A usable hit: the hit point joins the polyline, the distance to it is used up, the
/// collider is recorded and excluded from later casts, and the direction is reflected off the
/// surface; the trace ends when no cast is left. Any other hit (touching the surface just left,
/// beyond the distance left, or off an unsupported normal) ends the trace with nothing added.
pub open spec fn step(v: TraceView, hit: Option<RayHit>) -> TraceView {
    let casts_left = (v.casts_left - 1) as usize;
    match hit {
        None => TraceView {
            casts_left,
            points: v.points.push(moved(v.pos, v.dir, v.remaining as int)),
            dirs: v.dirs.push(v.dir),
            lengths: v.lengths.push(v.remaining),
            remaining: 0,
            done: true,
            ..v
        },
        Some(h) => if usable_hit(h, v.remaining as int) {
            let p = moved(v.pos, v.dir, h.toi as int);
            TraceView {
                pos: p,
                dir: reflected(v.dir, h.normal),
                remaining: (v.remaining - h.toi) as i64,
                casts_left,
                excluded: v.excluded.push(h.entity),
                points: v.points.push(p),
                dirs: v.dirs.push(v.dir),
                lengths: v.lengths.push(h.toi),
                struck: v.struck.push(h.entity),
                done: casts_left == 0,
            }
        } else {
            TraceView { casts_left, done: true, ..v }
        },
    }
}

/// The trace state after the answers `answers`, from `v`.
pub open spec fn replay(v: TraceView, answers: Seq<Option<RayHit>>) -> TraceView
    decreases answers.len(),
{
    if answers.len() == 0 {
        v
    } else {
        step(replay(v, answers.drop_last()), answers.last())
    }
}

/// `q` is the cast a trace in state `v` makes, with collision groups `groups`.
pub open spec fn query_of(v: TraceView, groups: CollisionGroups, q: RayCast) -> bool {
    &&& q.origin == v.pos
    &&& q.dir == v.dir
    &&& q.max_toi == v.remaining
    &&& q.groups == groups
    &&& q.excluded@ == v.excluded
}

/// `answer` is something `cast` may return for the cast a trace in state `v` makes.
pub open spec fn answered<F: Fn(&RayCast) -> Option<RayHit>>(
    cast: &F,
    v: TraceView,
    groups: CollisionGroups,
    answer: Option<RayHit>,
) -> bool {
    exists|q: RayCast| query_of(v, groups, q) && #[trigger] cast.ensures((&q,), answer)
}

/// `v` is a finished trace of `source` through the physics world answered by `cast`: the
/// trace that some run of answers `cast` may give, one per cast, leads to, each cast being the
/// one the trace makes in the state reached so far.
pub open spec fn traced<F: Fn(&RayCast) -> Option<RayHit>>(
    source: LightRaySource,
    cast: &F,
    v: TraceView,
) -> bool {
    exists|answers: Seq<Option<RayHit>>|
        {
            &&& answers.len() >= 1
            &&& v == #[trigger] replay(start_view(source), answers)
            &&& v.done
            &&& forall|k: int|
                0 <= k < answers.len() ==> !replay(start_view(source), answers.take(k)).done
                    && answered(
                    cast,
                    #[trigger] replay(start_view(source), answers.take(k)),
                    ray_groups_spec(source.color),
                    answers[k],
                )
        }
}

/// The state of one trace in progress.
#[derive(Debug)]
pub struct Tracer {
    /// Where the beam starts.
    pub origin: Vec2,
    /// The beam's initial direction.
    pub start_dir: Vec2,
    /// The total distance the beam may cover.
    pub distance: i64,
    /// The most casts the trace may make: one more than the color's bounce budget.
    pub budget: usize,
    pub groups: CollisionGroups,
    /// Start of the next cast.
    pub pos: Vec2,
    /// Direction of the next cast.
    pub dir: Vec2,
    /// Distance not covered yet.
    pub remaining: i64,
    /// Casts still allowed.
    pub casts_left: usize,
    /// Colliders the next cast ignores: each surface already hit.
    pub excluded: Vec<u64>,
    /// The beam's polyline, starting at `origin`.
    pub points: Vec<Vec2>,
    /// Direction of each segment of the polyline.
    pub dirs: Vec<Vec2>,
    /// Length of each segment, in multiples of its direction.
    pub lengths: Vec<i64>,
    /// Every collider struck, in order.
    pub struck: Vec<u64>,
    /// Whether the trace has ended.
    pub done: bool,
}

impl Tracer {
    pub open spec fn view(&self) -> TraceView {
        TraceView {
            pos: self.pos,
            dir: self.dir,
            remaining: self.remaining,
            casts_left: self.casts_left,
            excluded: self.excluded@,
            points: self.points@,
            dirs: self.dirs@,
            lengths: self.lengths@,
            struck: self.struck@,
            done: self.done,
        }
    }

    pub open spec fn wf(&self) -> bool {
        let n = self.lengths@.len();
        let used = self.distance - self.remaining;
        &&& point_in_range(self.origin)
        &&& dir_in_range(self.start_dir)
        &&& 0 <= self.distance <= MAX_DISTANCE
        &&& 0 <= self.remaining <= self.distance
        &&& self.points@.len() == n + 1
        &&& self.dirs@.len() == n
        &&& self.points@[0] == self.origin
        &&& forall|i: int|
            0 <= i < n ==> #[trigger] self.lengths@[i] >= 0 && at(
                self.points@[i + 1],
                advance_spec(self.points@[i], self.dirs@[i], self.lengths@[i] as int),
            )
        &&& forall|i: int|
            0 <= i < n ==> same_magnitude(#[trigger] self.dirs@[i], self.start_dir)
        &&& sum(self.lengths@) + self.remaining == self.distance
        &&& n + self.casts_left <= self.budget
        &&& same_magnitude(self.dir, self.start_dir)
        &&& -MAX_DIR * used <= self.pos.x - self.origin.x <= MAX_DIR * used
        &&& -MAX_DIR * used <= self.pos.y - self.origin.y <= MAX_DIR * used
        &&& !self.done ==> self.casts_left > 0 && self.points@.last() == self.pos
        &&& self.excluded@ == self.struck@
        &&& self.struck@.len() <= n
    }

    /// A trace of `source` that has made no cast yet.
    pub fn new(source: &LightRaySource) -> (r: Tracer)
        requires
            source.wf(),
        ensures
            r.wf(),
            r.origin == source.start_pos,
            r.start_dir == source.start_dir,
            r.distance == source.time_traveled,
            r.budget == bounces_spec(source.color) + 1,
            r.groups == ray_groups_spec(source.color),
            r.pos == source.start_pos,
            r.dir == source.start_dir,
            r.remaining == source.time_traveled,
            r.casts_left == r.budget,
            r.points@ == seq![source.start_pos],
            r.dirs@.len() == 0,
            r.lengths@.len() == 0,
            r.struck@.len() == 0,
            r.excluded@.len() == 0,
            !r.done,
            r.view() == start_view(*source),
    {
        let budget = source.color.num_bounces() + 1;
        let r = Tracer {
            origin: source.start_pos,
            start_dir: source.start_dir,
            distance: source.time_traveled,
            budget,
            groups: ray_groups(source.color),
            pos: source.start_pos,
            dir: source.start_dir,
            remaining: source.time_traveled,
            casts_left: budget,
            excluded: Vec::new(),
            points: vec![source.start_pos],
            dirs: Vec::new(),
            lengths: Vec::new(),
            struck: Vec::new(),
            done: false,
        };
        proof {
            assert(r.lengths@ =~= Seq::<i64>::empty());
            assert(r.excluded@ =~= Seq::<u64>::empty());
            assert(r.struck@ =~= Seq::<u64>::empty());
            assert(r.dirs@ =~= Seq::<Vec2>::empty());
            assert(r.points@ =~= seq![source.start_pos]);
        }
        r
    }

    /// Takes the physics world's answer to [`Tracer::query`] and moves the trace on, as
    /// [`step`] says. Light sensors are colliders like any other: a beam that strikes one is
    /// recorded and goes on, reflected.
    pub fn advance(&mut self, hit: Option<RayHit>)
        requires
            old(self).wf(),
            !old(self).done,
        ensures
            final(self).wf(),
            final(self).origin == old(self).origin,
            final(self).start_dir == old(self).start_dir,
            final(self).distance == old(self).distance,
            final(self).budget == old(self).budget,
            final(self).groups == old(self).groups,
            final(self).view() == step(old(self).view(), hit),
    {
        self.casts_left = self.casts_left - 1;
        let used: Ghost<int> = Ghost(self.distance - self.remaining);
        match hit {
            None => {
                let t = self.remaining;
                proof {
                    lemma_step_bound(self.dir.x as int, t as int);
                    lemma_step_bound(self.dir.y as int, t as int);
                    lemma_sum_push(self.lengths@, t);
                }
                let end = Vec2 { x: self.pos.x + self.dir.x * t, y: self.pos.y + self.dir.y * t };
                self.points.push(end);
                self.dirs.push(self.dir);
                self.lengths.push(t);
                self.remaining = 0;
                self.done = true;
                proof {
                    assert(self.points@.drop_last() =~= old(self).points@);
                    let n = old(self).lengths@.len() as int;
                    assert(self.points@[n] == old(self).pos);
                }
            },
            Some(h) => {
                if h.toi < MIN_HIT_DISTANCE || h.toi > self.remaining || !h.normal.is_axis_unit() {
                    self.done = true;
                } else {
                    let t = h.toi;
                    proof {
                        lemma_step_bound(self.dir.x as int, t as int);
                        lemma_step_bound(self.dir.y as int, t as int);
                        lemma_sum_push(self.lengths@, t);
                    }
                    let p = Vec2 { x: self.pos.x + self.dir.x * t, y: self.pos.y + self.dir.y * t };
                    self.points.push(p);
                    self.dirs.push(self.dir);
                    self.lengths.push(t);
                    self.remaining = self.remaining - t;
                    self.struck.push(h.entity);
                    self.excluded.push(h.entity);
                    self.dir = self.dir.reflect(h.normal);
                    self.pos = p;
                    self.done = self.casts_left == 0;
                    proof {
                        let n = old(self).lengths@.len() as int;
                        assert(self.points@[n] == old(self).pos);
                        }
                }
            },
        }
    }

    /// The cast the trace makes next.
    pub fn query(&self) -> (q: RayCast)
        ensures
            q.origin == self.pos,
            q.dir == self.dir,
            q.max_toi == self.remaining,
            q.groups == self.groups,
            q.excluded@ == self.excluded@,
    {
        RayCast {
            origin: self.pos,
            dir: self.dir,
            max_toi: self.remaining,
            groups: self.groups,
            excluded: self.excluded.clone(),
        }
    }
}

/// Traces `source` through the physics world answered by `cast`, for as many casts as the
/// source's color allows, and returns the finished trace.
pub fn simulate_ray<F: Fn(&RayCast) -> Option<RayHit>>(source: &LightRaySource, cast: &F) -> (r:
    Tracer)
    requires
        source.wf(),
        forall|q: &RayCast| cast.requires((q,)),
    ensures
        r.wf(),
        r.done,
        r.origin == source.start_pos,
        r.start_dir == source.start_dir,
        r.distance == source.time_traveled,
        r.budget == bounces_spec(source.color) + 1,
        r.groups == ray_groups_spec(source.color),
        r.points@.len() <= bounces_spec(source.color) + 2,
        r.struck@.len() <= bounces_spec(source.color) + 1,
        0 <= r.remaining,
        sum(r.lengths@) == source.time_traveled - r.remaining,
        traced(*source, cast, r.view()),
{
    let mut t = Tracer::new(source);
    let ghost start = start_view(*source);
    let ghost groups = ray_groups_spec(source.color);
    let ghost mut answers: Seq<Option<RayHit>> = Seq::empty();
    while !t.done
        invariant
            t.view() == replay(start, answers),
            start == start_view(*source),
            groups == ray_groups_spec(source.color),
            answers.len() == 0 ==> !t.done,
            forall|k: int|
                0 <= k < answers.len() ==> !replay(start, answers.take(k)).done && answered(
                    cast,
                    #[trigger] replay(start, answers.take(k)),
                    groups,
                    answers[k],
                ),
            t.wf(),
            t.origin == source.start_pos,
            t.start_dir == source.start_dir,
            t.distance == source.time_traveled,
            t.budget == bounces_spec(source.color) + 1,
            t.groups == ray_groups_spec(source.color),
            t.struck@.len() <= t.lengths@.len(),
            forall|q: &RayCast| cast.requires((q,)),
        decreases t.casts_left,
    {
        let q = t.query();
        let hit = cast(&q);
        proof {
            assert(query_of(t.view(), groups, q));
            assert(answered(cast, t.view(), groups, hit));
            let old_answers = answers;
            answers = answers.push(hit);
            assert(answers.drop_last() =~= old_answers);
            assert(answers.take(old_answers.len() as int) =~= old_answers);
            assert forall|k: int| 0 <= k < old_answers.len() implies answers.take(k)
                =~= old_answers.take(k) by {}
        }
        t.advance(hit);
    }
    assert(answers.take(answers.len() as int) =~= answers);
    t
}

/// The source a preview traces: a beam of `color` from `origin` along `dir` at its full length.
pub open spec fn preview_source(origin: Vec2, dir: Vec2, color: LightColor) -> LightRaySource {
    LightRaySource {
        start_pos: origin,
        start_dir: dir,
        time_traveled: MAX_DISTANCE,
        num_bounces: 0,
        color,
    }
}

/// The path shown while aiming a beam of `color` from `origin` along `dir`: the beam is traced
/// at its full length as [`simulate_ray`] does, and the path runs from the origin through each
/// surface hit, with nothing past the last one. Nothing is shown (`None`) for a zero direction,
/// or while a beam of that color is already in flight.
pub fn preview_light_path<F: Fn(&RayCast) -> Option<RayHit>>(
    sources: &LightSources,
    origin: Vec2,
    dir: Vec2,
    color: LightColor,
    cast: &F,
) -> (r: Option<Vec<Vec2>>)
    requires
        point_in_range(origin),
        dir_in_range(dir),
        forall|q: &RayCast| cast.requires((q,)),
    ensures
        r.is_none() <==> (dir.x == 0 && dir.y == 0) || has_color(sources@, color),
        r.is_some() ==> exists|v: TraceView|
            #[trigger] traced(preview_source(origin, dir, color), cast, v) && r.unwrap()@
                == v.points.take(v.struck.len() + 1int),
{
    if dir.is_zero() || sources.has_source(color) {
        return None;
    }
    let source = LightRaySource {
        start_pos: origin,
        start_dir: dir,
        time_traveled: MAX_DISTANCE,
        num_bounces: 0,
        color,
    };
    let t = simulate_ray(&source, cast);
    let n = t.struck.len() + 1;
    let mut path: Vec<Vec2> = Vec::new();
    let mut i: usize = 0;
    while i < n
        invariant
            n == t.struck@.len() + 1,
            n <= t.points@.len(),
            i <= n,
            path@ == t.points@.take(i as int),
        decreases n - i,
    {
        path.push(t.points[i]);
        i = i + 1;
        assert(path@ =~= t.points@.take(i as int));
    }
    assert(traced(preview_source(origin, dir, color), cast, t.view()));
    Some(path)
}

/// Whatever the physics world answers, a trace never makes more segments than one more than its
/// color's bounce budget, never has a negative distance left, and its segments add up to the
/// distance travelled less what is left: all of it when the beam ran out in open space, less
/// when it stopped early.
pub proof fn lemma_trace_bounds(t: Tracer)
    requires
        t.wf(),
    ensures
        t.lengths@.len() <= t.budget,
        t.points@.len() == t.lengths@.len() + 1,
        t.remaining >= 0,
        sum(t.lengths@) == t.distance - t.remaining,
        sum(t.lengths@) <= t.distance,
{
}

/// Every cast of `answers`, each made in the state the earlier ones lead to from the start of a
/// trace of `source`, met a usable hit while the trace was still going.
pub open spec fn all_usable(source: LightRaySource, answers: Seq<Option<RayHit>>) -> bool {
    forall|k: int|
        0 <= k < answers.len() ==> {
            let v = #[trigger] replay(start_view(source), answers.take(k));
            &&& !v.done
            &&& answers[k].is_some()
            &&& usable_hit(answers[k].unwrap(), v.remaining as int)
        }
}

proof fn lemma_usable_run(source: LightRaySource, answers: Seq<Option<RayHit>>)
    requires
        all_usable(source, answers),
    ensures
        ({
            let v = replay(start_view(source), answers);
            &&& v.casts_left == bounces_spec(source.color) + 1 - answers.len()
            &&& v.points.len() == answers.len() + 1
            &&& v.done == (answers.len() > 0 && v.casts_left == 0)
        }),
    decreases answers.len(),
{
    if answers.len() > 0 {
        let prev = answers.drop_last();
        let m = prev.len() as int;
        assert forall|k: int| 0 <= k < prev.len() implies prev.take(k) =~= answers.take(k) by {}
        assert(all_usable(source, prev)) by {
            assert forall|k: int| 0 <= k < prev.len() implies {
                let v = #[trigger] replay(start_view(source), prev.take(k));
                &&& !v.done
                &&& prev[k].is_some()
                &&& usable_hit(prev[k].unwrap(), v.remaining as int)
            } by {
                assert(prev.take(k) =~= answers.take(k));
                assert(replay(start_view(source), answers.take(k)) == replay(start_view(source), prev.take(k)));
            }
        }
        lemma_usable_run(source, prev);
        assert(answers.take(m) =~= prev);
        assert(replay(start_view(source), answers.take(m)) == replay(start_view(source), prev));
    }
}

/// A trace whose every cast meets a usable surface goes on until its bounce budget is spent: it
/// makes one cast more than its color's bounce budget, and its polyline has that many segments.
pub proof fn lemma_all_hits_use_budget(source: LightRaySource, answers: Seq<Option<RayHit>>)
    requires
        all_usable(source, answers),
        replay(start_view(source), answers).done,
    ensures
        answers.len() == bounces_spec(source.color) + 1,
        replay(start_view(source), answers).points.len() == bounces_spec(source.color) + 2,
{
    lemma_usable_run(source, answers);
}

} // verus!
