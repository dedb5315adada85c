use mlt_render::camera::{Camera, ImageBuffer};
use mlt_render::color::Color;
use mlt_render::fx::{fx_div, fx_mul, fx_sqrt, FX_ONE};
use mlt_render::material::{BaseMaterial, Material, INV_2PI};
use mlt_render::mlt::{accept_mutation, draw, sample_weight, Chain, Path, THIRD};
use mlt_render::scene::{Light, Object, Scene, Shape, INV_4PI, MIN_DIST};
use mlt_render::vector::{Ray, Vec3};

fn fxf(v: f64) -> i64 {
    (v * FX_ONE as f64) as i64
}

fn white() -> Color {
    Color::new(FX_ONE, FX_ONE, FX_ONE)
}

fn unit_sphere_scene() -> Scene {
    Scene {
        camera: Camera::new(
            Vec3::new(0, 0, fxf(-4.0)),
            Vec3::new(0, 0, FX_ONE),
            Vec3::new(0, FX_ONE, 0),
            FX_ONE,
        ),
        lights: vec![Light { pos: Vec3::new(fxf(1.5), fxf(1.5), fxf(-1.5)), color: white() }],
        objects: vec![Object {
            shape: Shape::Sphere { center: Vec3::new(0, 0, 0), radius: FX_ONE },
            material: Material::Diffuse(white()),
        }],
    }
}

#[test]
fn color_into() {
    let c1 = Color::new(FX_ONE, FX_ONE / 2, 0).to_u32();
    let c2 = 0x00_ff_80_00;
    assert_eq!(c1, c2, "{:x} != {:x}", c1, c2);
}

#[test]
fn casting() {
    let scene = Scene {
        camera: Camera::new(
            Vec3::new(0, 0, fxf(2.0)),
            Vec3::new(0, 0, -FX_ONE),
            Vec3::new(0, FX_ONE, 0),
            FX_ONE,
        ),
        lights: vec![],
        objects: vec![Object {
            shape: Shape::Sphere { center: Vec3::new(0, 0, 0), radius: FX_ONE },
            material: Material::Diffuse(white()),
        }],
    };
    let rng = &mut rand::thread_rng();
    for _ in 0..100 {
        let x: i64 = rand::Rng::gen_range(rng, -FX_ONE..FX_ONE);
        let y: i64 = rand::Rng::gen_range(rng, -FX_ONE..FX_ONE);
        let dir = scene.camera.propose(x, y);
        let ray = Ray::new(scene.camera.pos, dir);
        if let Some((t, _, _)) = scene.cast(ray) {
            let p = ray.of(t);
            let norm = fx_sqrt(fx_mul(p.x, p.x) + fx_mul(p.y, p.y) + fx_mul(p.z, p.z));
            // within fixed-point tolerance of the unit radius
            assert!((norm - FX_ONE).abs() <= 1 << 22, "norm {}", norm);
            assert!(p.z > 0);
        }
    }
}

#[test]
fn sphere_cast_exact() {
    // a ray down the axis meets the unit sphere at distance exactly 3
    let shape = Shape::Sphere { center: Vec3::new(0, 0, 0), radius: FX_ONE };
    let ray = Ray::new(Vec3::new(0, 0, fxf(-4.0)), Vec3::new(0, 0, FX_ONE));
    let (t, n) = shape.cast(ray).expect("hit");
    assert_eq!(t, 3 * FX_ONE);
    assert_eq!(n, Vec3::new(0, 0, -FX_ONE));
    assert!(t > MIN_DIST);
}

#[test]
fn plane_cast_exact() {
    let shape = Shape::Plane {
        center: Vec3::new(0, fxf(-2.0), 0),
        normal: Vec3::new(0, FX_ONE, 0),
    };
    let ray = Ray::new(Vec3::new(0, 0, 0), Vec3::new(0, -FX_ONE, 0));
    let (t, n) = shape.cast(ray).expect("hit");
    assert_eq!(t, 2 * FX_ONE);
    assert_eq!(n, Vec3::new(0, FX_ONE, 0));
    // a parallel ray misses
    let side = Ray::new(Vec3::new(0, 0, 0), Vec3::new(FX_ONE, 0, 0));
    assert!(shape.cast(side).is_none());
}

#[test]
fn nearest_hit_wins() {
    let near = Object {
        shape: Shape::Sphere { center: Vec3::new(0, 0, fxf(2.0)), radius: FX_ONE / 2 },
        material: Material::Diffuse(white()),
    };
    let far = Object {
        shape: Shape::Sphere { center: Vec3::new(0, 0, fxf(6.0)), radius: FX_ONE / 2 },
        material: Material::Diffuse(white()),
    };
    let scene = Scene {
        camera: Camera::new(Vec3::new(0, 0, 0), Vec3::new(0, 0, FX_ONE), Vec3::new(0, FX_ONE, 0), FX_ONE),
        lights: vec![],
        objects: vec![far, near],
    };
    let ray = Ray::new(Vec3::new(0, 0, 0), Vec3::new(0, 0, FX_ONE));
    let (t, _, idx) = scene.cast(ray).expect("hit");
    assert_eq!(idx, 1, "the nearer sphere is the second surface");
    assert!((t - fxf(1.5)).abs() <= 1 << 16);
}

#[test]
fn light_sampling_density() {
    let light = Light { pos: Vec3::new(0, 0, 0), color: white() };
    let rng = &mut rand::thread_rng();
    let n = 20000;
    let mut sx = 0.0f64;
    let mut sy = 0.0f64;
    let mut sz = 0.0f64;
    let mut smag = 0.0f64;
    for _ in 0..n {
        let (density, dir) = light.propose(rng);
        assert_eq!(density, INV_4PI);
        let x = dir.x as f64 / FX_ONE as f64;
        let y = dir.y as f64 / FX_ONE as f64;
        let z = dir.z as f64 / FX_ONE as f64;
        sx += x;
        sy += y;
        sz += z;
        smag += (x * x + y * y + z * z).sqrt();
    }
    let n = n as f64;
    assert!((sx / n).abs() < 0.05, "mean x {}", sx / n);
    assert!((sy / n).abs() < 0.05, "mean y {}", sy / n);
    assert!((sz / n).abs() < 0.05, "mean z {}", sz / n);
    assert!((smag / n - 1.0).abs() < 0.02, "mean magnitude {}", smag / n);
}

#[test]
fn material_density_is_brightness_over_half_turn() {
    let m = Material::Diffuse(Color::new(FX_ONE, FX_ONE, FX_ONE));
    let rng = &mut rand::thread_rng();
    let (density, _) = m.propose(Vec3::new(0, 0, FX_ONE), rng);
    // luminance one, so the density is exactly 1 / (2 pi)
    assert_eq!(density, INV_2PI);
    let dim = Material::Diffuse(Color::new(0, 0, 0));
    let (density, _) = dim.propose(Vec3::new(0, 0, FX_ONE), rng);
    assert_eq!(density, 0);
}

#[test]
fn diffuse_bsdf_ignores_angles() {
    let c = Color::new(fxf(0.25), fxf(0.5), fxf(0.75));
    let m = Material::Diffuse(c);
    assert_eq!(m.bsdf(0, FX_ONE, 0, 0, FX_ONE), c);
    assert_eq!(m.bsdf(FX_ONE, 0, -FX_ONE, FX_ONE, 0), c);
}

#[test]
fn specular_bsdf_peaks_at_mirror() {
    // alpha = 1: the response is the color scaled by
    // |cos(phi_in) cos(phi_out) - cos(theta) sin(phi_in) sin(phi_out)|
    let m = Material::Specular(white(), 1);
    // mirror geometry: theta = pi (cos -1), phi_in = phi_out = 45 degrees
    let c45 = fx_sqrt(FX_ONE / 2);
    let peak = m.bsdf(c45, c45, -FX_ONE, c45, c45);
    let expected = fx_mul(c45, c45) + fx_mul(FX_ONE, fx_mul(c45, c45));
    assert!((peak.r - expected).abs() <= 2, "{} vs {}", peak.r, expected);
    // one sine vanishing at theta zero: the lobe term is zero
    let off = m.bsdf(0, FX_ONE, FX_ONE, FX_ONE, 0);
    assert_eq!(off.r, 0);
}

#[test]
fn combined_material_weights_responses() {
    let half = Color::new(FX_ONE / 2, FX_ONE / 2, FX_ONE / 2);
    let m = Material::Combined(vec![
        (FX_ONE / 2, BaseMaterial::Diffuse(white())),
        (FX_ONE / 4, BaseMaterial::Diffuse(half)),
    ]);
    let c = m.bsdf(0, FX_ONE, 0, 0, FX_ONE);
    // 0.5 * 1 + 0.25 * 0.5 = 0.625
    assert_eq!(c.r, fxf(0.625));
    assert_eq!(m.color().r, fxf(0.625));
}

#[test]
fn accumulator_linearity() {
    let mut one = ImageBuffer::new(4, 4);
    let mut two = ImageBuffer::new(4, 4);
    let c = Color::new(fxf(0.3), fxf(0.6), fxf(0.9));
    let w1 = fxf(0.2);
    let w2 = fxf(0.5);
    two.add_sample(5, c, w1);
    two.add_sample(5, c, w2);
    one.add_sample(5, c, w1 + w2);
    assert_eq!(one.cell(5), two.cell(5));
    for i in 0..16 {
        if i != 5 {
            assert_eq!(one.cell(i), two.cell(i));
        }
    }
}

#[test]
fn measure_of_direct_path_is_light_density() {
    // no interior vertex: the measure is exactly the light sampling density
    let scene = unit_sphere_scene();
    let path = Path {
        light: 0,
        objects: vec![],
        points: vec![scene.lights[0].pos, scene.camera.pos],
        normals: vec![],
    };
    assert_eq!(path.measure(&scene), INV_4PI);
}

#[test]
fn measure_positive_when_visible_zero_when_blocked() {
    let scene = unit_sphere_scene();
    // camera ray through the image center hits the sphere at (0, 0, -1)
    let hit = Vec3::new(0, 0, -FX_ONE);
    let path = Path {
        light: 0,
        objects: vec![0],
        points: vec![scene.lights[0].pos, hit, scene.camera.pos],
        normals: vec![Vec3::new(0, 0, -FX_ONE)],
    };
    let open_measure = path.measure(&scene);
    assert!(open_measure > 0, "visible path must carry weight, got {}", open_measure);

    // a blocking sphere between the hit point and the light zeroes it
    let mut blocked = unit_sphere_scene();
    blocked.objects.push(Object {
        shape: Shape::Sphere {
            center: Vec3::new(fxf(0.75), fxf(0.75), fxf(-1.25)),
            radius: fxf(0.3),
        },
        material: Material::Diffuse(white()),
    });
    assert_eq!(path.measure(&blocked), 0);
}

#[test]
fn propose_keeps_path_shape() {
    let scene = unit_sphere_scene();
    let rng = &mut rand::thread_rng();
    for _ in 0..50 {
        let (p, path) = scene.propose(0, 0, 0, rng);
        assert!(p >= 0 && p <= FX_ONE);
        assert_eq!(path.points.len(), path.objects.len() + 2);
        assert_eq!(path.normals.len() + 2, path.points.len());
        assert_eq!(path.points[0], scene.lights[0].pos);
        assert_eq!(*path.points.last().unwrap(), scene.camera.pos);
    }
}

#[test]
fn splice_keeps_ends() {
    let scene = unit_sphere_scene();
    let hit = Vec3::new(0, 0, -FX_ONE);
    let path = Path {
        light: 0,
        objects: vec![0],
        points: vec![scene.lights[0].pos, hit, scene.camera.pos],
        normals: vec![Vec3::new(0, 0, -FX_ONE)],
    };
    let lp = vec![Vec3::new(fxf(0.5), 0, fxf(-0.9))];
    let ln = vec![Vec3::new(0, FX_ONE, 0)];
    let lo = vec![0usize];
    let cp: Vec<Vec3> = vec![];
    let cn: Vec<Vec3> = vec![];
    let co: Vec<usize> = vec![];
    let fresh = path.splice(&scene, 0, 0, &lp, &ln, &lo, &cp, &cn, &co);
    // the lead through the join vertex and the tail from past `end` are kept
    assert_eq!(fresh.points[0], path.points[0]);
    assert_eq!(fresh.points[1], path.points[1]);
    assert_eq!(fresh.points[2], lp[0]);
    assert_eq!(fresh.points[3], path.points[1]);
    assert_eq!(fresh.points[4], path.points[2]);
    assert_eq!(fresh.objects, vec![0, 0, 0]);
    assert_eq!(fresh.normals[0], path.normals[0]);
    assert_eq!(fresh.normals[1], ln[0]);
    assert_eq!(fresh.normals[2], path.normals[0]);
    assert_eq!(fresh.points.len(), fresh.objects.len() + 2);
}

#[test]
fn mutation_keeps_portion_outside_range() {
    let scene = unit_sphere_scene();
    let rng = &mut rand::thread_rng();
    let hit = Vec3::new(0, 0, -FX_ONE);
    let path = Path {
        light: 0,
        objects: vec![0],
        points: vec![scene.lights[0].pos, hit, scene.camera.pos],
        normals: vec![Vec3::new(0, 0, -FX_ONE)],
    };
    let mut seen = 0;
    for _ in 0..200 {
        if let Some((p, fresh)) = path.mutate(&scene, rng) {
            seen += 1;
            assert!(p >= 0 && p <= FX_ONE);
            // one interior vertex forces start = end = 0: the two leading
            // positions and the two trailing positions are kept exactly
            let fp = &fresh.points;
            assert_eq!(fp[0], path.points[0]);
            assert_eq!(fp[1], path.points[1]);
            assert_eq!(fp[fp.len() - 2], path.points[1]);
            assert_eq!(fp[fp.len() - 1], path.points[2]);
            assert_eq!(fresh.normals[0], path.normals[0]);
            assert_eq!(fresh.objects[0], path.objects[0]);
            assert_eq!(fresh.points.len(), fresh.objects.len() + 2);
            assert_eq!(fresh.normals.len() + 2, fresh.points.len());
        }
    }
    assert!(seen > 0, "no mutation ever succeeded");
}

#[test]
fn empty_path_never_mutates() {
    let scene = unit_sphere_scene();
    let rng = &mut rand::thread_rng();
    let path = Path {
        light: 0,
        objects: vec![],
        points: vec![scene.lights[0].pos, scene.camera.pos],
        normals: vec![],
    };
    for _ in 0..20 {
        assert!(path.mutate(&scene, rng).is_none());
    }
}

#[test]
fn acceptance_rule_cases() {
    // equal measures and densities: the boosted ratio is 10, above any draw
    assert!(accept_mutation(FX_ONE, FX_ONE, FX_ONE, FX_ONE, FX_ONE - 1));
    // a candidate with much smaller measure: 10 * ratio = 1/10, draw above it
    assert!(!accept_mutation(FX_ONE, FX_ONE / 100, FX_ONE, FX_ONE, FX_ONE / 2));
    // and a draw below it is accepted
    assert!(accept_mutation(FX_ONE, FX_ONE / 100, FX_ONE, FX_ONE, FX_ONE / 20));
    // a negative current measure flips the comparison and rejects
    assert!(!accept_mutation(-FX_ONE, FX_ONE, FX_ONE, FX_ONE, FX_ONE / 2));
}

#[test]
fn sample_weight_spreads_budget() {
    // ten over one light and fifty samples: a fifth
    assert_eq!(sample_weight(1, 50), fxf(0.2));
    assert_eq!(sample_weight(2, 5), FX_ONE);
}

#[test]
fn tone_map_clamps() {
    assert_eq!(Color::new(-FX_ONE, 0, 2 * FX_ONE).to_u32(), 0x0000_00ff);
    assert_eq!(Color::new(FX_ONE / 4, FX_ONE / 4, FX_ONE / 4).to_u32(), 0x0040_4040);
}

#[test]
fn end_to_end_center_pixel_lights_up() {
    let scene = unit_sphere_scene();
    let mut image = ImageBuffer::new(64, 64);
    let rng = &mut rand::thread_rng();
    for _ in 0..5 {
        draw(50, 0, 0, 0, &scene, &mut image, rng);
    }
    // the chain for the central image-plane point lands on the center cell
    let center = image.cell(64 * 32 + 32);
    assert!(center.r > 0, "center pixel stayed dark: {}", center.r);
    assert!(center.g > 0 && center.b > 0);
    // a cell far from the projection stays untouched
    let corner = image.cell(64 * 5 + 5);
    assert_eq!(corner.r, 0);
    assert_eq!(corner.g, 0);
    assert_eq!(corner.b, 0);
}

#[test]
fn fx_arithmetic_exact_values() {
    assert_eq!(fx_mul(fxf(1.5), fxf(2.0)), fxf(3.0));
    assert_eq!(fx_mul(fxf(-1.5), fxf(2.0)), fxf(-3.0));
    assert_eq!(fx_div(fxf(3.0), fxf(2.0), i64::MAX), fxf(1.5));
    assert_eq!(fx_sqrt(fxf(4.0)), fxf(2.0));
    assert_eq!(fx_sqrt(-FX_ONE), 0);
    assert_eq!(THIRD, FX_ONE / 3);
}

#[test]
fn record_sample_adds_one_cell() {
    let scene = unit_sphere_scene();
    let path = Path {
        light: 0,
        objects: vec![],
        points: vec![scene.lights[0].pos, scene.camera.pos],
        normals: vec![],
    };
    let mut image = ImageBuffer::new(10, 10);
    scene.camera.record_sample(&path, &scene, &mut image, FX_ONE);
    let mut lit = 0;
    for i in 0..100 {
        let cell = image.cell(i);
        if cell.r != 0 || cell.g != 0 || cell.b != 0 {
            lit += 1;
            assert!(cell.r > 0 && cell.g > 0 && cell.b > 0);
        }
    }
    assert_eq!(lit, 1, "one direct sample lights exactly one cell");
}

#[test]
fn display_reads_tone_mapped_cells() {
    let mut image = ImageBuffer::new(2, 2);
    // weight one: the cell holds the color itself at double scale
    image.add_sample(3, Color::new(FX_ONE / 4, FX_ONE / 2, 2 * FX_ONE), FX_ONE);
    let pixels = image.to_pixels();
    assert_eq!(pixels.len(), 4);
    assert_eq!(pixels[0], 0);
    assert_eq!(pixels[3], 0x0040_80ff);
}

#[test]
fn measure_never_negative() {
    // a backfacing interior vertex: the cosine pins to zero, never below
    let scene = unit_sphere_scene();
    let hit = Vec3::new(0, 0, -FX_ONE);
    let path = Path {
        light: 0,
        objects: vec![0],
        points: vec![scene.lights[0].pos, hit, scene.camera.pos],
        normals: vec![Vec3::new(0, 0, FX_ONE)],
    };
    assert_eq!(path.measure(&scene), 0);
}

#[test]
fn chain_steps_match_draw() {
    // stepping a chain by hand accumulates at the same pixel draw uses
    let scene = unit_sphere_scene();
    let mut image = ImageBuffer::new(64, 64);
    let rng = &mut rand::thread_rng();
    let w = sample_weight(1, 50);
    let mut chain = Chain::start(&scene, 0, 0, 0, rng);
    for _ in 0..50 {
        chain.step(&scene, &mut image, w, rng);
    }
    assert!(image.cell(64 * 32 + 32).r > 0);
}

#[test]
fn camera_frame_follows_pose() {
    // facing +z with +y overhead gives exactly the identity rows
    let cam = Camera::new(Vec3::new(0, 0, 0), Vec3::new(0, 0, FX_ONE), Vec3::new(0, FX_ONE, 0), FX_ONE);
    assert_eq!(cam.rz, Vec3::new(0, 0, FX_ONE));
    assert_eq!(cam.rx, Vec3::new(FX_ONE, 0, 0));
    assert_eq!(cam.ry, Vec3::new(0, FX_ONE, 0));
    // facing -z flips the facing row, and the frame stays right-handed
    let back = Camera::new(Vec3::new(0, 0, 0), Vec3::new(0, 0, -FX_ONE), Vec3::new(0, FX_ONE, 0), FX_ONE);
    assert_eq!(back.rz, Vec3::new(0, 0, -FX_ONE));
    assert_eq!(back.rx, Vec3::new(-FX_ONE, 0, 0));
    // a degenerate pose falls back to the identity frame
    let degenerate = Camera::new(Vec3::new(0, 0, 0), Vec3::new(0, 0, 0), Vec3::new(0, FX_ONE, 0), FX_ONE);
    assert_eq!(degenerate.rz, Vec3::new(0, 0, FX_ONE));
}

#[test]
fn propose_primary_miss_is_bare_path() {
    // no surface anywhere: the primary cast misses and the proposal is the
    // two-point light-to-camera path at probability one
    let scene = Scene {
        camera: Camera::new(
            Vec3::new(0, 0, fxf(-4.0)),
            Vec3::new(0, 0, FX_ONE),
            Vec3::new(0, FX_ONE, 0),
            FX_ONE,
        ),
        lights: vec![Light { pos: Vec3::new(fxf(1.5), fxf(1.5), fxf(-1.5)), color: white() }],
        objects: vec![],
    };
    let rng = &mut rand::thread_rng();
    for _ in 0..10 {
        let (p, path) = scene.propose(0, 0, 0, rng);
        assert_eq!(p, FX_ONE);
        assert_eq!(path.points, vec![scene.lights[0].pos, scene.camera.pos]);
        assert!(path.objects.is_empty() && path.normals.is_empty());
    }
}

#[test]
fn propose_primary_hit_ends_at_surface() {
    // the camera ray through the image center meets the unit sphere at
    // (0, 0, -1): every proposal's second-to-last position is that hit
    let scene = unit_sphere_scene();
    let rng = &mut rand::thread_rng();
    for _ in 0..20 {
        let (_, path) = scene.propose(0, 0, 0, rng);
        assert!(path.points.len() >= 3);
        let p = path.points[path.points.len() - 2];
        assert_eq!(p, Vec3::new(0, 0, -FX_ONE));
        assert_eq!(*path.objects.last().unwrap(), 0);
    }
}
