//! The train rig: a fixed chain of car descriptors placed along the
//! sampled track by travelled distance, emitting one frame's draw requests
//! and the camera anchors.

use vstd::prelude::*;
use crate::geom::{Vec2i, in_range, dist, dist_spec, div_floor, add_spec, sub_spec};
use crate::geom;
use crate::path::{track_point, poly_point_spec, polyline_wf};
use crate::art::Art;
use crate::queue::{RenderQueue, DrawCmd, Pose};
use crate::COORD_LIMIT;

verus! {

/// How far the train advances along the track every simulation tick.
pub const TICK_ADVANCE: i64 = 800;

/// The gap left between the cars of the train.
pub const COUPLING_GAP: i64 = 2109;

/// How far each wheel sits beside the car's centerline.
pub const WHEEL_GAUGE: i64 = 1400;

/// How far behind the train the camera's trailing anchor sits.
pub const CAMERA_TRAIL: i64 = 20000;

/// The most cars a train may carry.
pub const MAX_CARS: usize = 64;

/// The farthest the travelled distance may grow.
pub const TRAVEL_LIMIT: i64 = 1099511627776;

/// One wheel pair's descriptor: the wheel radius and how far behind the
/// car's front the axle sits.
#[derive(Clone, Copy, PartialEq, Eq, Structural, Debug)]
pub struct Axle {
    pub wheel_radius: i64,
    pub offset: i64,
}

/// A turret-like attachment: how far behind the car's front it sits.
#[derive(Clone, Copy, PartialEq, Eq, Structural, Debug)]
pub struct Gun {
    pub offset: i64,
}

/// One car of the train: its art, its coupled length, up to two axles and
/// an optional gun.
#[derive(Clone, Copy, Debug)]
pub struct Car {
    pub length: i64,
    pub art: Art,
    pub axle_front: Option<Axle>,
    pub axle_back: Option<Axle>,
    pub gun: Option<Gun>,
}

/// An axle's measures stay within the scene range.
pub open spec fn axle_wf(a: Axle) -> bool {
    0 <= a.wheel_radius <= COORD_LIMIT && -COORD_LIMIT <= a.offset <= COORD_LIMIT
}

/// A car's measures stay within the scene range.
pub open spec fn car_wf(c: Car) -> bool {
    &&& 0 <= c.length <= COORD_LIMIT
    &&& match c.axle_front {
        Some(a) => axle_wf(a),
        None => true,
    }
    &&& match c.axle_back {
        Some(a) => axle_wf(a),
        None => true,
    }
    &&& match c.gun {
        Some(g) => -COORD_LIMIT <= g.offset <= COORD_LIMIT,
        None => true,
    }
}

impl Default for Car {
    /// A bare cart of five units with no axles and no gun.
    fn default() -> (r: Car)
        ensures
            r.length == 5000,
            r.art == Art::Cart,
            r.axle_front is None,
            r.axle_back is None,
            r.gun is None,
            car_wf(r),
    {
        Car { length: 5000, art: Art::Cart, axle_front: None, axle_back: None, gun: None }
    }
}

/// The whole train: its ordered cars and the distance travelled so far.
#[derive(Debug)]
pub struct Cars {
    pub cars: Vec<Car>,
    pub track_travelled: i64,
}

impl Cars {
    /// The train's invariant: a bounded number of well-formed cars and a
    /// bounded travelled distance.
    pub open spec fn wf(self) -> bool {
        &&& self.cars@.len() <= MAX_CARS
        &&& forall|i: int| 0 <= i < self.cars@.len() ==> car_wf(#[trigger] self.cars@[i])
        &&& 0 <= self.track_travelled <= TRAVEL_LIMIT
    }
}

impl Default for Cars {
    /// The reference consist: a locomotive of eight units with two axles,
    /// then a cart with one axle and a gun, at distance zero.
    fn default() -> (r: Cars)
        ensures
            r.wf(),
            r.track_travelled == 0,
            r.cars@.len() == 2,
            r.cars@[0].length == 8000,
            r.cars@[0].art == Art::Train,
            r.cars@[0].axle_front == Some(Axle { wheel_radius: 1500, offset: 2000 }),
            r.cars@[0].axle_back == Some(Axle { wheel_radius: 1100, offset: 6000 }),
            r.cars@[0].gun is None,
            r.cars@[1].length == 4760,
            r.cars@[1].art == Art::Cart,
            r.cars@[1].axle_front == Some(Axle { wheel_radius: 1100, offset: 3000 }),
            r.cars@[1].axle_back is None,
            r.cars@[1].gun == Some(Gun { offset: -1205i64 }),
    {
        let mut cars: Vec<Car> = Vec::new();
        cars.push(Car {
            length: 8000,
            art: Art::Train,
            axle_front: Some(Axle { wheel_radius: 1500, offset: 2000 }),
            axle_back: Some(Axle { wheel_radius: 1100, offset: 6000 }),
            gun: None,
        });
        cars.push(Car {
            length: 4760,
            art: Art::Cart,
            axle_front: Some(Axle { wheel_radius: 1100, offset: 3000 }),
            axle_back: None,
            gun: Some(Gun { offset: -1205 }),
        });
        Cars { cars, track_travelled: 0 }
    }
}

/// The coupled length of the first `k` cars: their lengths plus one
/// coupling gap after each.
pub open spec fn len_before(cars: Seq<Car>, k: int) -> int
    decreases k,
{
    if k <= 0 {
        0
    } else {
        len_before(cars, k - 1) + cars[k - 1].length + COUPLING_GAP
    }
}

/// Coupled lengths are never negative and grow boundedly.
pub proof fn lemma_len_before_bounds(cars: Seq<Car>, k: int)
    requires
        0 <= k <= cars.len(),
        forall|i: int| 0 <= i < cars.len() ==> car_wf(#[trigger] cars[i]),
    ensures
        0 <= len_before(cars, k) <= k * 1050685,
    decreases k,
{
    if k > 0 {
        lemma_len_before_bounds(cars, k - 1);
    }
}

/// A direction scaled to length `k`: `heading` times `k` over its length,
/// or `k` along the first axis where the heading collapses.
pub open spec fn unit_mul_spec(heading: Vec2i, hl: int, k: int) -> Vec2i {
    if hl > 0 {
        Vec2i { x: ((heading.x * k) / hl) as i64, y: ((heading.y * k) / hl) as i64 }
    } else {
        Vec2i { x: k as i64, y: 0 }
    }
}

/// The quarter turn of a direction scaled to length `k`, with the matching
/// fallback where the heading collapses.
pub open spec fn unit_perp_mul_spec(heading: Vec2i, hl: int, k: int) -> Vec2i {
    if hl > 0 {
        Vec2i { x: ((-heading.y * k) / hl) as i64, y: ((heading.x * k) / hl) as i64 }
    } else {
        Vec2i { x: 0, y: k as i64 }
    }
}

/// Scales a heading to length `k`.
fn unit_mul(heading: Vec2i, hl: i64, k: i64) -> (r: Vec2i)
    requires
        -4194304 <= heading.x <= 4194304,
        -4194304 <= heading.y <= 4194304,
        -2097152 <= k <= 2097152,
        0 <= hl <= 0x4000000,
    ensures
        r == unit_mul_spec(heading, hl as int, k as int),
        -0x80000000000 <= r.x <= 0x80000000000,
        -0x80000000000 <= r.y <= 0x80000000000,
{
    if hl > 0 {
        proof {
            assert(-0x80000000000 <= heading.x * k <= 0x80000000000
                && -0x80000000000 <= heading.y * k <= 0x80000000000) by (nonlinear_arith)
                requires -4194304 <= heading.x <= 4194304, -4194304 <= heading.y <= 4194304,
                    -2097152 <= k <= 2097152;
        }
        Vec2i { x: div_floor(heading.x * k, hl), y: div_floor(heading.y * k, hl) }
    } else {
        Vec2i { x: k, y: 0 }
    }
}

/// Scales the quarter turn of a heading to length `k`.
fn unit_perp_mul(heading: Vec2i, hl: i64, k: i64) -> (r: Vec2i)
    requires
        -4194304 <= heading.x <= 4194304,
        -4194304 <= heading.y <= 4194304,
        -2097152 <= k <= 2097152,
        0 <= hl <= 0x4000000,
    ensures
        r == unit_perp_mul_spec(heading, hl as int, k as int),
        -0x80000000000 <= r.x <= 0x80000000000,
        -0x80000000000 <= r.y <= 0x80000000000,
{
    if hl > 0 {
        proof {
            assert(-0x80000000000 <= -heading.y * k <= 0x80000000000
                && -0x80000000000 <= heading.x * k <= 0x80000000000) by (nonlinear_arith)
                requires -4194304 <= heading.x <= 4194304, -4194304 <= heading.y <= 4194304,
                    -2097152 <= k <= 2097152;
        }
        Vec2i { x: div_floor(-heading.y * k, hl), y: div_floor(heading.x * k, hl) }
    } else {
        Vec2i { x: 0, y: k }
    }
}

/// The two wheel draw requests of one axle: a wheel on either side of the
/// car, offset along the heading by the axle's measure and sideways by the
/// wheel gauge, the left one first.
pub open spec fn axle_cmds(axle: Axle, front: Vec2i, heading: Vec2i, hl: int, dist: int)
    -> Seq<DrawCmd> {
    let center = add_spec(front, unit_mul_spec(heading, hl, axle.offset as int));
    seq![
        DrawCmd {
            art: Art::Wheel,
            pose: Pose::Wheel {
                pos: add_spec(center, unit_perp_mul_spec(heading, hl, -WHEEL_GAUGE as int)),
                radius: axle.wheel_radius,
                heading,
                right_side: false,
                travelled: dist as i64,
            },
        },
        DrawCmd {
            art: Art::Wheel,
            pose: Pose::Wheel {
                pos: add_spec(center, unit_perp_mul_spec(heading, hl, WHEEL_GAUGE as int)),
                radius: axle.wheel_radius,
                heading,
                right_side: true,
                travelled: dist as i64,
            },
        },
    ]
}

/// All draw requests of one car: its body at the front point facing its
/// back point, two wheels per axle, and the gun behind the front.
pub open spec fn car_cmds(car: Car, dist: int, lsf: int, pts: Seq<Vec2i>) -> Seq<DrawCmd> {
    let front = poly_point_spec(pts, dist - lsf);
    let back = poly_point_spec(pts, dist - lsf - car.length);
    let heading = sub_spec(back, front);
    let hl = dist_spec(front, back);
    let body = seq![DrawCmd { art: car.art, pose: Pose::Ground { pos: front, heading } }];
    let a0 = match car.axle_front {
        Some(a) => axle_cmds(a, front, heading, hl, dist),
        None => Seq::empty(),
    };
    let a1 = match car.axle_back {
        Some(a) => axle_cmds(a, front, heading, hl, dist),
        None => Seq::empty(),
    };
    let g = match car.gun {
        Some(g) => seq![
            DrawCmd {
                art: Art::Gun,
                pose: Pose::Ground {
                    pos: sub_spec(front, unit_mul_spec(heading, hl, g.offset as int)),
                    heading,
                },
            },
        ],
        None => Seq::empty(),
    };
    body + a0 + a1 + g
}

/// The draw requests of the first `k` cars, in car order.
pub open spec fn train_cmds(cars: Seq<Car>, dist: int, pts: Seq<Vec2i>, k: int) -> Seq<DrawCmd>
    decreases k,
{
    if k <= 0 {
        Seq::empty()
    } else {
        train_cmds(cars, dist, pts, k - 1)
            + car_cmds(cars[k - 1], dist, len_before(cars, k - 1), pts)
    }
}

/// The two ground points the camera follows: the front of the train, and a
/// point trailing the whole train by the camera's fixed distance.
#[derive(Clone, Copy, PartialEq, Eq, Structural, Debug)]
pub struct CamAnchor {
    pub target: Vec2i,
    pub trail: Vec2i,
}

/// Emits both wheels of one axle.
fn draw_axle(rq: &mut RenderQueue, axle: Axle, front: Vec2i, heading: Vec2i, hl: i64, dist: i64)
    requires
        axle_wf(axle),
        in_range(front),
        -4194304 <= heading.x <= 4194304,
        -4194304 <= heading.y <= 4194304,
        0 <= hl <= 0x4000000,
    ensures
        final(rq).items@ == old(rq).items@
            + axle_cmds(axle, front, heading, hl as int, dist as int),
{
    let center = front.add(unit_mul(heading, hl, axle.offset));
    let left = center.add(unit_perp_mul(heading, hl, -WHEEL_GAUGE));
    let right = center.add(unit_perp_mul(heading, hl, WHEEL_GAUGE));
    rq.draw_wheel(Art::Wheel, left, axle.wheel_radius, heading, false, dist);
    rq.draw_wheel(Art::Wheel, right, axle.wheel_radius, heading, true, dist);
    proof {
        assert(rq.items@ =~= old(rq).items@
            + axle_cmds(axle, front, heading, hl as int, dist as int));
    }
}

/// Emits all draw requests of one car whose coupled predecessors span
/// `lsf` of track.
fn draw_car(rq: &mut RenderQueue, car: Car, dist: i64, lsf: i64, points: &Vec<Vec2i>)
    requires
        polyline_wf(points@),
        car_wf(car),
        -0x20000000000 <= dist <= 0x20000000000,
        0 <= lsf <= 0x10000000,
    ensures
        final(rq).items@ == old(rq).items@
            + car_cmds(car, dist as int, lsf as int, points@),
{
    let front = track_point(points, dist - lsf);
    let back = track_point(points, dist - lsf - car.length);
    let heading = back.sub(front);
    let hl = geom::dist(front, back);
    rq.draw(car.art, front, heading);
    if let Some(axle) = car.axle_front {
        draw_axle(rq, axle, front, heading, hl, dist);
    }
    if let Some(axle) = car.axle_back {
        draw_axle(rq, axle, front, heading, hl, dist);
    }
    if let Some(gun) = car.gun {
        rq.draw(Art::Gun, front.sub(unit_mul(heading, hl, gun.offset)), heading);
    }
    proof {
        assert(rq.items@ =~= old(rq).items@
            + car_cmds(car, dist as int, lsf as int, points@));
    }
}

impl Cars {
    /// Advances the train by one tick and emits this frame's draw
    /// requests: per car, in order, a body, two wheels per axle and the
    /// gun, each placed by resolving distances along the sampled track
    /// polyline. Returns the camera anchors for the new front position.
    pub fn draw_train(&mut self, points: &Vec<Vec2i>, rq: &mut RenderQueue) -> (cam: CamAnchor)
        requires
            old(self).wf(),
            polyline_wf(points@),
            old(self).track_travelled + TICK_ADVANCE <= TRAVEL_LIMIT,
        ensures
            final(self).wf(),
            final(self).cars == old(self).cars,
            final(self).track_travelled == old(self).track_travelled + TICK_ADVANCE,
            final(rq).items@ == old(rq).items@ + train_cmds(old(self).cars@,
                old(self).track_travelled + TICK_ADVANCE, points@,
                old(self).cars@.len() as int),
            cam.target == poly_point_spec(points@,
                old(self).track_travelled + TICK_ADVANCE),
            cam.trail == poly_point_spec(points@,
                old(self).track_travelled + TICK_ADVANCE
                    - len_before(old(self).cars@, old(self).cars@.len() as int)
                    - CAMERA_TRAIL),
    {
        self.track_travelled = self.track_travelled + TICK_ADVANCE;
        let dist = self.track_travelled;
        let n = self.cars.len();
        let mut lsf: i64 = 0;
        let mut i: usize = 0;
        while i < n
            invariant
                i <= n,
                n == self.cars@.len(),
                self.wf(),
                self.cars == old(self).cars,
                dist == self.track_travelled,
                dist == old(self).track_travelled + TICK_ADVANCE,
                polyline_wf(points@),
                lsf == len_before(self.cars@, i as int),
                0 <= lsf <= (i as int) * 1050685,
                rq.items@ == old(rq).items@
                    + train_cmds(self.cars@, dist as int, points@, i as int),
            decreases n - i,
        {
            let car = self.cars[i];
            proof {
                lemma_len_before_bounds(self.cars@, i as int + 1);
            }
            draw_car(rq, car, dist, lsf, points);
            proof {
                assert(rq.items@ =~= old(rq).items@
                    + train_cmds(self.cars@, dist as int, points@, i as int + 1));
            }
            lsf = lsf + car.length + COUPLING_GAP;
            i = i + 1;
        }
        let target = track_point(points, dist);
        let trail = track_point(points, dist - lsf - CAMERA_TRAIL);
        CamAnchor { target, trail }
    }
}

} // verus!
