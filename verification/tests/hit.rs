use strolle::hit::Hit;
use strolle::math::{Vec3, Vec4};

fn hit(point: (i16, i16, i16), normal: (i16, i16, i16), material_id: u32, distance: u32) -> Hit {
    Hit {
        point: Vec3::new(point.0, point.1, point.2),
        normal: Vec3::new(normal.0, normal.1, normal.2),
        material_id,
        distance,
    }
}

#[test]
fn hit_packs_point_distance_normal_material() {
    let h = hit((1, -2, 300), (0, -32768, 32767), 42, 65536);
    let d = h.serialize();
    assert_eq!(d[0], Vec4::new(1, 0xfffe, 300, 65536));
    assert_eq!(d[1], Vec4::new(0, 0x8000, 0x7fff, 42));
}

#[test]
fn hit_round_trips_for_all_kinds_of_coordinates() {
    let coords: [i16; 7] = [i16::MIN, -12345, -1, 0, 1, 12345, i16::MAX];
    for &x in coords.iter() {
        for &y in coords.iter() {
            for &d in [1u32, 2, 65536, u32::MAX].iter() {
                let h = hit((x, y, -x.saturating_add(1)), (y, x, 5), x as u16 as u32 * 3, d);
                let p = h.serialize();
                assert_eq!(Hit::deserialize(p[0], p[1]), h);
            }
        }
    }
}

#[test]
fn no_hit_round_trips_to_no_hit() {
    let p = Hit::none().serialize();
    assert_eq!(p[0].w, 0);
    assert!(Hit::deserialize(p[0], p[1]).is_none());
    assert_eq!(Hit::deserialize(p[0], p[1]), Hit::none());
    // a record of zero distance is no hit, whatever else it holds
    let stale = hit((5, 6, 7), (1, 0, 0), 9, 0);
    assert!(stale.is_none());
    let p = stale.serialize();
    assert_eq!(Hit::deserialize(p[0], p[1]), Hit::none());
    assert!(!Hit::deserialize(p[0], p[1]).is_some());
}

#[test]
fn similar_hits_share_material_normal_and_depth() {
    let a = hit((0, 0, 0), (0, 0, 100), 1, 80000);
    assert!(a.is_similar_to(&a));
    // depth within an eighth
    assert!(a.is_similar_to(&hit((0, 0, 0), (0, 0, 100), 1, 90000)));
    assert!(!a.is_similar_to(&hit((0, 0, 0), (0, 0, 100), 1, 100000)));
    // other material
    assert!(!a.is_similar_to(&hit((0, 0, 0), (0, 0, 100), 2, 80000)));
    // normal 45 degrees off, and opposite
    assert!(!a.is_similar_to(&hit((0, 0, 0), (0, 100, 100), 1, 80000)));
    assert!(!a.is_similar_to(&hit((0, 0, 0), (0, 0, -100), 1, 80000)));
    // normal about 27 degrees off
    assert!(a.is_similar_to(&hit((0, 0, 0), (0, 50, 100), 1, 80000)));
    // exactly 30 degrees is the limit: cos^2 = 3/4
    assert!(a.is_similar_to(&hit((0, 0, 0), (0, 1000, 1733), 1, 80000)));
    assert!(!a.is_similar_to(&hit((0, 0, 0), (0, 1000, 1731), 1, 80000)));
    // no hit is similar to nothing
    assert!(!a.is_similar_to(&Hit::none()));
    assert!(!Hit::none().is_similar_to(&Hit::none()));
}
