use train::geom::{Vec2i, dist, isqrt, div_floor, lerp};
use train::curve::{BezierPoint, BezierCurve};
use train::track::{Track, TrackError};
use train::path::track_point;
use train::art::{Art, ArtData, ArtError, ArtIndices, ArtIndicesBuilder, IndexRange, Vertex,
    Vec3i, VERTEX_COUNT, INDEX_COUNT, IMAGE_SIZE};
use train::queue::{Pose, RenderQueue};
use train::cars::{Cars, Car, Axle, TICK_ADVANCE};
use train::blob::{encode, decode, BlobError, BLOB_SIZE, OFF_NV, OFF_VERTS};

fn v(x: i64, y: i64) -> Vec2i {
    Vec2i { x, y }
}

/// A 3-segment square-ish loop over four anchors with centered handles.
fn square_points(side: i64) -> Vec<BezierPoint> {
    vec![
        BezierPoint::centered(v(0, 0)),
        BezierPoint::centered(v(side, 0)),
        BezierPoint::centered(v(side, side)),
        BezierPoint::centered(v(0, side)),
    ]
}

fn square_track(side: i64) -> Track {
    match Track::from_points(&square_points(side), 3) {
        Ok(t) => t,
        Err(_) => panic!("square track must build"),
    }
}

#[test]
fn isqrt_exact_values() {
    assert_eq!(isqrt(0), 0);
    assert_eq!(isqrt(1), 1);
    assert_eq!(isqrt(2), 1);
    assert_eq!(isqrt(3), 1);
    assert_eq!(isqrt(4), 2);
    assert_eq!(isqrt(99), 9);
    assert_eq!(isqrt(100), 10);
    assert_eq!(isqrt(u64::MAX), 0xffffffff);
}

#[test]
fn div_floor_rounds_down() {
    assert_eq!(div_floor(7, 2), 3);
    assert_eq!(div_floor(-7, 2), -4);
    assert_eq!(div_floor(-6, 2), -3);
    assert_eq!(div_floor(0, 5), 0);
}

#[test]
fn dist_exact_values() {
    assert_eq!(dist(v(0, 0), v(3, 4)), 5);
    assert_eq!(dist(v(1, 1), v(1, 1)), 0);
    assert_eq!(dist(v(0, 0), v(1, 1)), 1);
    assert_eq!(dist(v(-3000, 0), v(0, 4000)), 5000);
}

#[test]
fn lerp_hits_endpoints_exactly() {
    let a = v(-137, 4099);
    let b = v(5521, -12);
    assert_eq!(lerp(a, b, 0, 7), a);
    assert_eq!(lerp(a, b, 7, 7), b);
    assert_eq!(lerp(v(0, 0), v(10, 10), 1, 2), v(5, 5));
}

#[test]
fn bezier_curve_pairs_control_points() {
    let a = BezierPoint { left: v(1, 2), right: v(3, 4), pos: v(5, 6) };
    let b = BezierPoint { left: v(7, 8), right: v(9, 10), pos: v(11, 12) };
    let c = BezierCurve::new(a, b);
    assert_eq!(c.start, v(5, 6));
    assert_eq!(c.left, v(3, 4));
    assert_eq!(c.right, v(7, 8));
    assert_eq!(c.end, v(11, 12));
}

#[test]
fn bezier_point_midpoint_exact() {
    let c = BezierCurve {
        start: v(0, 0),
        left: v(0, 8000),
        right: v(8000, 8000),
        end: v(8000, 0),
    };
    assert_eq!(c.point(0, 2), v(0, 0));
    assert_eq!(c.point(2, 2), v(8000, 0));
    assert_eq!(c.point(1, 2), v(4000, 6000));
}

#[test]
fn arc_length_of_straight_line_is_chord() {
    // Four colinear, evenly spaced control points: the segment is the
    // straight line between its ends, and every sample lands exactly.
    let c = BezierCurve {
        start: v(0, 0),
        left: v(50000, 0),
        right: v(100000, 0),
        end: v(150000, 0),
    };
    assert_eq!(c.len(), 150000);
    assert_eq!(c.len(), dist(c.start, c.end));
}

#[test]
fn arc_length_nonnegative_and_degenerate_zero() {
    let flat = BezierCurve { start: v(77, -3), left: v(77, -3), right: v(77, -3), end: v(77, -3) };
    assert_eq!(flat.len(), 0);
    let bent = BezierCurve {
        start: v(0, 0),
        left: v(0, 20000),
        right: v(20000, 20000),
        end: v(20000, 0),
    };
    assert!(bent.len() >= 0);
    // The sampled polyline never exceeds, and here stays close to, the
    // control polygon length of 60000.
    assert!(bent.len() <= 60000);
    assert!(bent.len() > 20000);
}

#[test]
fn from_points_builds_exactly_n_segments() {
    let pts = square_points(40000);
    let t = match Track::from_points(&pts, 3) {
        Ok(t) => t,
        Err(_) => panic!("four points give three segments"),
    };
    assert_eq!(t.segments.len(), 3);
    for i in 0..3 {
        assert_eq!(t.segments[i].start, pts[i].pos);
        assert_eq!(t.segments[i].end, pts[i + 1].pos);
        assert_eq!(t.segments[i].left, pts[i].right);
        assert_eq!(t.segments[i].right, pts[i + 1].left);
    }
}

#[test]
fn from_points_rejects_too_few() {
    let pts = square_points(40000);
    match Track::from_points(&pts, 4) {
        Ok(_) => panic!("four points cannot give four segments"),
        Err(e) => assert_eq!(e, TrackError::NotEnoughPoints),
    }
    match Track::from_points(&Vec::new(), 0) {
        Ok(_) => panic!("zero segments still take one point"),
        Err(e) => assert_eq!(e, TrackError::NotEnoughPoints),
    }
}

#[test]
fn track_point_at_parameter_ends() {
    let t = square_track(40000);
    let den = 1000;
    assert_eq!(t.point(0, den), t.segments[0].start);
    assert_eq!(t.point(den, den), t.segments[2].end);
}

#[test]
fn track_total_length_positive() {
    let t = square_track(40000);
    let total = t.len();
    assert!(total > 0);
    // Three sides of forty units, sampled: close to 120 units.
    assert!(total > 110000 && total < 125000);
}

#[test]
fn track_point_is_deterministic() {
    let pts = vec![v(0, 0), v(10000, 0), v(10000, 10000)];
    for d in [-100, 0, 1, 4999, 10000, 15000, 99999] {
        assert_eq!(track_point(&pts, d), track_point(&pts, d));
    }
}

#[test]
fn track_point_zero_gives_first_point() {
    let pts = vec![v(123, 456), v(10123, 456)];
    assert_eq!(track_point(&pts, 0), v(123, 456));
    assert_eq!(track_point(&pts, -7000), v(123, 456));
}

#[test]
fn track_point_hits_edge_boundaries() {
    let pts = vec![v(0, 0), v(10000, 0), v(10000, 10000)];
    assert_eq!(track_point(&pts, 5000), v(5000, 0));
    assert_eq!(track_point(&pts, 10000), v(10000, 0));
    assert_eq!(track_point(&pts, 15000), v(10000, 5000));
    assert_eq!(track_point(&pts, 20000), v(10000, 10000));
    // Past the total length the walk clamps to the last vertex.
    assert_eq!(track_point(&pts, 90000), v(10000, 10000));
}

#[test]
fn make_track_emits_four_vertices_and_six_indices_per_sample() {
    let mut a = ArtData::default();
    a.track = square_track(40000);
    let total = a.track.len();
    let mut expected = (total + 500) / 1000;
    if expected < 2 {
        expected = 2;
    }
    let points = match a.make_track() {
        Ok(p) => p,
        Err(_) => panic!("the empty arena has room for the square track"),
    };
    assert_eq!(points.len() as i64, expected);
    assert_eq!(a.vertices.len() as i64, 4 * expected);
    assert_eq!(a.indices.len() as i64, 6 * expected);
    assert_eq!(a.track_indices, IndexRange { start: 0, count: (6 * expected) as u32 });
}

#[test]
fn make_track_reports_overflow_and_changes_nothing() {
    let mut a = ArtData::default();
    a.track = square_track(10000);
    let zero = Vertex {
        pos: Vec3i { x: 0, y: 0, z: 0 },
        norm: Vec3i { x: 0, y: 0, z: 0 },
        uv: Vec2i { x: 0, y: 0 },
    };
    for _ in 0..15990 {
        assert!(a.add_vert(zero).is_ok());
    }
    match a.make_track() {
        Ok(_) => panic!("fewer than forty free slots cannot hold the rails"),
        Err(e) => assert_eq!(e, ArtError::GeometryOverflow),
    }
    assert_eq!(a.vertices.len(), 15990);
    assert_eq!(a.indices.len(), 0);
    assert_eq!(a.track_indices, IndexRange { start: 0, count: 0 });
}

#[test]
fn arena_rejects_appends_past_capacity() {
    let mut a = ArtData::default();
    let vert = Vertex {
        pos: Vec3i { x: 1, y: 2, z: 3 },
        norm: Vec3i { x: 0, y: 1000, z: 0 },
        uv: Vec2i { x: 4, y: 5 },
    };
    for i in 0..VERTEX_COUNT {
        assert_eq!(a.add_vert(vert), Ok(i as u16));
    }
    assert_eq!(a.add_vert(vert), Err(ArtError::GeometryOverflow));
    assert_eq!(a.vertices.len(), VERTEX_COUNT);
    for _ in 0..INDEX_COUNT {
        assert!(a.add_index(7).is_ok());
    }
    assert_eq!(a.add_index(7), Err(ArtError::GeometryOverflow));
    assert_eq!(a.indices.len(), INDEX_COUNT);
}

#[test]
fn art_catalogue_builder_accepts_the_four_meshes() {
    let mut b = ArtIndicesBuilder::default();
    assert!(b.insert(&"cart".to_string(), 0, 6).is_ok());
    assert!(b.insert(&"train".to_string(), 6, 12).is_ok());
    assert!(b.insert(&"wheel".to_string(), 18, 9).is_ok());
    assert!(b.insert(&"gun".to_string(), 27, 3).is_ok());
    let ai = match b.finish() {
        Ok(ai) => ai,
        Err(_) => panic!("all four meshes were recorded"),
    };
    assert_eq!(ai.cart, IndexRange { start: 0, count: 6 });
    assert_eq!(ai.indices(Art::Train), IndexRange { start: 6, count: 12 });
    assert_eq!(ai.indices(Art::Wheel), IndexRange { start: 18, count: 9 });
    assert_eq!(ai.indices(Art::Gun), IndexRange { start: 27, count: 3 });
}

#[test]
fn art_catalogue_builder_rejects_strangers_and_gaps() {
    let mut b = ArtIndicesBuilder::default();
    assert_eq!(b.insert(&"boiler".to_string(), 0, 6), Err(ArtError::UnknownMesh));
    assert!(b.insert(&"cart".to_string(), 0, 6).is_ok());
    match b.finish() {
        Ok(_) => panic!("three meshes are still missing"),
        Err(e) => assert_eq!(e, ArtError::MissingMesh),
    }
}

#[test]
fn render_queue_keeps_insertion_order_and_clears() {
    let mut rq = RenderQueue::new();
    rq.draw(Art::Train, v(1, 2), v(3, 4));
    rq.draw_wheel(Art::Wheel, v(5, 6), 1500, v(3, 4), true, 800);
    assert_eq!(rq.len(), 2);
    assert_eq!(rq.items[0].art, Art::Train);
    assert_eq!(rq.items[0].pose, Pose::Ground { pos: v(1, 2), heading: v(3, 4) });
    assert_eq!(rq.items[1].pose, Pose::Wheel {
        pos: v(5, 6),
        radius: 1500,
        heading: v(3, 4),
        right_side: true,
        travelled: 800,
    });
    rq.clear_draws();
    assert_eq!(rq.len(), 0);
}

#[test]
fn draw_train_emits_one_command_per_body_wheel_and_gun() {
    let mut a = ArtData::default();
    a.track = square_track(40000);
    let points = a.make_track().unwrap();
    let mut cars = Cars::default();
    let mut rq = RenderQueue::new();
    cars.draw_train(&points, &mut rq);
    // Two bodies, three axles of two wheels each, one gun.
    assert_eq!(rq.len(), 9);
    assert_eq!(cars.track_travelled, TICK_ADVANCE);
    assert_eq!(rq.items[0].art, Art::Train);
    assert_eq!(rq.items[1].art, Art::Wheel);
    assert_eq!(rq.items[5].art, Art::Cart);
    assert_eq!(rq.items[8].art, Art::Gun);
    // The next frame clears and repopulates to the same count.
    rq.clear_draws();
    cars.draw_train(&points, &mut rq);
    assert_eq!(rq.len(), 9);
    assert_eq!(cars.track_travelled, 2 * TICK_ADVANCE);
}

#[test]
fn end_to_end_square_loop_scenario() {
    let pts = square_points(40000);
    let t = match Track::from_points(&pts, 3) {
        Ok(t) => t,
        Err(_) => panic!("four points give three segments"),
    };
    assert!(t.len() > 0);
    let mut a = ArtData::default();
    a.track = t;
    let total = a.track.len();
    let points = a.make_track().unwrap();
    let mut expected = (total + 500) / 1000;
    if expected < 2 {
        expected = 2;
    }
    assert_eq!(points.len() as i64, expected);

    // A single car of five units at distance zero: its front sits at the
    // start of the polyline and its back clamps there too.
    let car = Car::default();
    assert_eq!(car.length, 5000);
    let front = track_point(&points, 0);
    let back = track_point(&points, -car.length);
    assert_eq!(front, points[0]);
    assert_eq!(back, points[0]);
}

#[test]
fn asset_blob_round_trip_restores_every_field() {
    let mut a = ArtData::default();
    a.track = square_track(30000);
    for i in 0..IMAGE_SIZE {
        a.image[i] = (i % 251) as u8;
    }
    let v0 = a.add_vert(Vertex {
        pos: Vec3i { x: -1200, y: 0, z: 77 },
        norm: Vec3i { x: 0, y: 1000, z: 0 },
        uv: Vec2i { x: 125, y: 3 },
    }).unwrap();
    let v1 = a.add_vert(Vertex {
        pos: Vec3i { x: 4000, y: 6000, z: -9999 },
        norm: Vec3i { x: 1000, y: 0, z: 0 },
        uv: Vec2i { x: 0, y: 15 },
    }).unwrap();
    a.add_index(v0).unwrap();
    a.add_index(v1).unwrap();
    a.add_index(v0).unwrap();
    a.art_indices = ArtIndices {
        cart: IndexRange { start: 0, count: 6 },
        train: IndexRange { start: 6, count: 12 },
        wheel: IndexRange { start: 18, count: 9 },
        gun: IndexRange { start: 27, count: 3 },
    };
    a.track_indices = IndexRange { start: 1, count: 2 };

    let bytes = encode(&a);
    assert_eq!(bytes.len(), BLOB_SIZE);
    let b = match decode(&bytes) {
        Ok(b) => b,
        Err(_) => panic!("a written blob reads back"),
    };
    assert_eq!(b.image, a.image);
    assert_eq!(b.vertices, a.vertices);
    assert_eq!(b.indices, a.indices);
    assert_eq!(b.art_indices, a.art_indices);
    assert_eq!(b.track_indices, a.track_indices);
    assert_eq!(b.track.segments.len(), a.track.segments.len());
    for i in 0..3 {
        assert_eq!(b.track.segments[i], a.track.segments[i]);
    }
}

#[test]
fn decode_rejects_malformed_blobs() {
    let a = ArtData::default();
    let good = encode(&a);

    let short = vec![0u8; 16];
    assert_eq!(decode(&short).err(), Some(BlobError::WrongSize));

    let mut bad_cursor = good.clone();
    bad_cursor[OFF_NV] = 0xff;
    bad_cursor[OFF_NV + 1] = 0xff;
    bad_cursor[OFF_NV + 2] = 0xff;
    bad_cursor[OFF_NV + 3] = 0xff;
    assert_eq!(decode(&bad_cursor).err(), Some(BlobError::BadCursor));

    let mut bad_value = good.clone();
    bad_value[OFF_NV] = 1;
    bad_value[OFF_VERTS] = 0xff;
    bad_value[OFF_VERTS + 1] = 0xff;
    bad_value[OFF_VERTS + 2] = 0xff;
    bad_value[OFF_VERTS + 3] = 0xff;
    assert_eq!(decode(&bad_value).err(), Some(BlobError::BadValue));
}

#[test]
fn default_scene_is_empty() {
    let a = ArtData::default();
    assert_eq!(a.image.len(), IMAGE_SIZE);
    assert!(a.image.iter().all(|&b| b == 0));
    assert_eq!(a.vertices.len(), 0);
    assert_eq!(a.indices.len(), 0);
    assert_eq!(a.track_indices, IndexRange { start: 0, count: 0 });
    assert_eq!(a.track.segments.len(), 3);

    let cars = Cars::default();
    assert_eq!(cars.cars.len(), 2);
    assert_eq!(cars.track_travelled, 0);
    assert_eq!(cars.cars[0].length, 8000);
    assert_eq!(cars.cars[0].axle_front, Some(Axle { wheel_radius: 1500, offset: 2000 }));
    assert_eq!(cars.cars[1].length, 4760);
    assert_eq!(cars.cars[1].gun.map(|g| g.offset), Some(-1205));
}

#[test]
fn degenerate_track_clamps_to_its_end() {
    // The empty scene's track rests at the origin with zero length; every
    // parameter resolves to the final segment's end point.
    let t = Track::default();
    assert_eq!(t.segments.len(), 3);
    assert_eq!(t.len(), 0);
    assert_eq!(t.point(0, 2), v(0, 0));
    assert_eq!(t.point(1, 2), v(0, 0));
    assert_eq!(t.point(2, 2), v(0, 0));
}

#[test]
fn make_track_on_degenerate_track_takes_minimum_samples() {
    let mut a = ArtData::default();
    let points = a.make_track().unwrap();
    assert_eq!(points.len(), 2);
    assert_eq!(a.vertices.len(), 8);
    assert_eq!(a.indices.len(), 12);
    assert_eq!(a.track_indices, IndexRange { start: 0, count: 12 });
}

#[test]
fn defaults_rest_at_the_origin() {
    let p = BezierPoint::default();
    assert_eq!(p.pos, v(0, 0));
    assert_eq!(p.left, v(0, 0));
    assert_eq!(p.right, v(0, 0));
    let vert = Vertex::default();
    assert_eq!(vert.pos, Vec3i { x: 0, y: 0, z: 0 });
    assert_eq!(vert.uv, v(0, 0));
}
