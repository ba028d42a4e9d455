use engine3d::geom::{
    disp_box_box, disp_box_plane, disp_box_sphere, disp_sphere_plane, disp_sphere_sphere, dist_3d,
    touching_box_box, touching_box_sphere, touching_sphere_plane, touching_sphere_sphere, BBox,
    Plane, Sphere, Vec3,
};

fn bx(x: i64, y: i64, z: i64, h: i64) -> BBox {
    BBox { center: Vec3::new(x, y, z), halfwidth: h }
}

#[test]
fn overlapping_boxes_give_full_depth_per_axis() {
    let a = bx(0, 0, 0, 1000);
    let b = bx(500, -1500, 0, 1000);
    let v = disp_box_box(&a, &b).unwrap();
    assert_eq!(v, Vec3::new(-1500, 500, 2000));
}

#[test]
fn disp_box_box_is_antisymmetric() {
    let a = bx(100, 250, -300, 900);
    let b = bx(-400, 1200, 700, 1000);
    let v1 = disp_box_box(&a, &b).unwrap();
    let v2 = disp_box_box(&b, &a).unwrap();
    assert_eq!(v1, Vec3::new(-v2.x, -v2.y, -v2.z));
    let far = bx(5000, 0, 0, 1000);
    assert!(disp_box_box(&a, &far).is_none());
    assert!(disp_box_box(&far, &a).is_none());
}

#[test]
fn separated_boxes_do_not_overlap() {
    let a = bx(0, 0, 0, 1000);
    assert!(disp_box_box(&a, &bx(2001, 0, 0, 1000)).is_none());
    assert!(disp_box_box(&a, &bx(0, -2001, 0, 1000)).is_none());
    assert!(disp_box_box(&a, &bx(0, 0, 3000, 1000)).is_none());
}

#[test]
fn boxes_sharing_a_face_touch_but_do_not_overlap() {
    let a = bx(0, 0, 0, 1000);
    let b = bx(2000, 0, 0, 1000);
    assert!(touching_box_box(&a, &b));
    assert!(disp_box_box(&a, &b).is_none());
    assert!(!touching_box_box(&a, &bx(2001, 0, 0, 1000)));
}

#[test]
fn distance_rounds_down() {
    assert_eq!(dist_3d(Vec3::new(0, 0, 0), Vec3::new(3000, 4000, 0)), 5000);
    assert_eq!(dist_3d(Vec3::new(0, 0, 0), Vec3::new(1, 1, 1)), 1);
    assert_eq!(dist_3d(Vec3::new(7, 7, 7), Vec3::new(7, 7, 7)), 0);
}

#[test]
fn spheres_touch_within_sum_of_radii() {
    let a = Sphere { c: Vec3::new(0, 0, 0), r: 1000 };
    let b = Sphere { c: Vec3::new(2000, 0, 0), r: 1000 };
    let c = Sphere { c: Vec3::new(2001, 0, 0), r: 1000 };
    assert!(touching_sphere_sphere(&a, &b));
    assert!(!touching_sphere_sphere(&a, &c));
}

#[test]
fn sphere_sphere_push_scales_offset() {
    let a = Sphere { c: Vec3::new(0, 0, 0), r: 1000 };
    let b = Sphere { c: Vec3::new(1500, 0, 0), r: 1000 };
    assert_eq!(disp_sphere_sphere(&a, &b), Some(Vec3::new(500, 0, 0)));
    let same = Sphere { c: Vec3::new(0, 0, 0), r: 500 };
    assert_eq!(disp_sphere_sphere(&a, &same), Some(Vec3::new(0, 0, 0)));
    let apart = Sphere { c: Vec3::new(2000, 0, 0), r: 1000 };
    assert_eq!(disp_sphere_sphere(&a, &apart), None);
}

#[test]
fn sphere_and_floor_plane() {
    let floor = Plane { n: Vec3::new(0, 1000, 0), d: 0 };
    let s = Sphere { c: Vec3::new(5000, 400, 0), r: 1000 };
    assert!(touching_sphere_plane(&s, &floor));
    assert_eq!(disp_sphere_plane(&s, &floor), Some(Vec3::new(0, 600, 0)));
    let high = Sphere { c: Vec3::new(0, 1001, 0), r: 1000 };
    assert!(!touching_sphere_plane(&high, &floor));
    assert_eq!(disp_sphere_plane(&high, &floor), None);
}

#[test]
fn box_and_plane_push_has_margin() {
    let floor = Plane { n: Vec3::new(0, 1000, 0), d: 0 };
    let b = bx(0, 0, 0, 1000);
    assert_eq!(disp_box_plane(&b, &floor), Some(Vec3::new(0, 1030, 0)));
    assert_eq!(disp_box_plane(&bx(0, 1500, 0, 1000), &floor), None);
}

#[test]
fn box_sphere_push_along_least_axis() {
    let b = bx(0, 0, 0, 1000);
    let s = Sphere { c: Vec3::new(1500, 200, 0), r: 1000 };
    assert!(touching_box_sphere(&b, &s));
    assert_eq!(disp_box_sphere(&b, &s), Some(Vec3::new(-500, 0, 0)));
    let far = Sphere { c: Vec3::new(5000, 0, 0), r: 1000 };
    assert!(!touching_box_sphere(&b, &far));
    assert_eq!(disp_box_sphere(&b, &far), None);
}
