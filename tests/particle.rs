use engine3d::geom::{Sphere, Vec3};
use engine3d::particle::{Particle, PARTICLE_LIFETIME};

fn particle() -> Particle {
    Particle {
        body: Sphere { c: Vec3::new(0, 0, 0), r: 500 },
        velocity: Vec3::new(10, 20, 0),
        lifetime: 2,
        visible: true,
    }
}

#[test]
fn particle_falls_and_expires() {
    let mut p = particle();
    p.update(5);
    assert_eq!(p.velocity, Vec3::new(10, 15, 0));
    assert_eq!(p.body.c, Vec3::new(10, 15, 0));
    assert_eq!(p.lifetime, 1);
    assert!(p.visible);
    p.update(5);
    assert_eq!(p.body.c, Vec3::new(20, 25, 0));
    assert_eq!(p.lifetime, 0);
    assert!(!p.visible);
    p.update(5);
    assert_eq!(p.body.c, Vec3::new(0, 0, 0));
    assert!(!p.visible);
}

#[test]
fn particle_reset() {
    let mut p = particle();
    p.visible = false;
    p.reset();
    assert_eq!(p.body.c, Vec3::new(10_000, 10_000, 10_000));
    assert_eq!(p.body.r, 500);
    assert_eq!(p.lifetime, PARTICLE_LIFETIME);
    assert!(p.visible);
    assert_eq!(p.velocity, Vec3::new(10, 20, 0));
}
