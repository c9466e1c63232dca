use fastnoise_lite::{FastNoiseLite, NoiseType};
use softraster::color::Color;
use softraster::fragment::{Fragment, Pixel};
use softraster::noise::{create_noise, noise_level, NoiseSource};
use softraster::shader::{
    noise_based_fragment_shader, shade, transform_normal, transform_position, vertex_shader,
    NOISE_PERIOD, NOISE_SCALE,
};
use softraster::uniforms::{create_model_matrix, create_viewport_matrix, Uniforms};
use softraster::vector::{Mat4, Vec2, Vec3, Vec4};
use softraster::vertex::Vertex;

const ONE: i32 = 65536;

fn identity() -> Mat4 {
    Mat4 {
        x: Vec4 { x: ONE, y: 0, z: 0, w: 0 },
        y: Vec4 { x: 0, y: ONE, z: 0, w: 0 },
        z: Vec4 { x: 0, y: 0, z: ONE, w: 0 },
        w: Vec4 { x: 0, y: 0, z: 0, w: ONE },
    }
}

fn uniforms<'a>(transformation: Mat4, model: Mat4, time: u32, noise: &'a NoiseSource) -> Uniforms<'a> {
    Uniforms {
        model_matrix: model,
        view_matrix: identity(),
        projection_matrix: identity(),
        viewport_matrix: identity(),
        transformation_matrix: transformation,
        time,
        noise,
    }
}

fn fragment_at(position: Vec3, intensity: i32) -> Fragment {
    Fragment::new(
        Pixel { x: 3, y: 4 },
        Color::new(255, 255, 255),
        77,
        Vec3::new(0, 0, ONE),
        intensity,
        position,
        Vec2::new(5, 6),
    )
}

fn reference(seed: i32) -> FastNoiseLite {
    let mut generator = FastNoiseLite::with_seed(seed);
    generator.set_noise_type(Some(NoiseType::OpenSimplex2));
    generator
}

#[test]
fn model_matrix_is_the_identity() {
    assert_eq!(create_model_matrix(), identity());
}

#[test]
fn viewport_matrix_maps_the_unit_square_onto_the_screen() {
    let m = create_viewport_matrix(800 * ONE, 600 * ONE);
    assert_eq!(m.x, Vec4 { x: 400 * ONE, y: 0, z: 0, w: 400 * ONE });
    assert_eq!(m.y, Vec4 { x: 0, y: -300 * ONE, z: 0, w: 300 * ONE });
    assert_eq!(m.z, Vec4 { x: 0, y: 0, z: ONE, w: 0 });
    assert_eq!(m.w, Vec4 { x: 0, y: 0, z: 0, w: ONE });
    assert_eq!(
        transform_position(&m, &Vec3::new(-ONE, -ONE, 0)),
        Some(Vec3::new(0, 600 * ONE, 0))
    );
    assert_eq!(
        transform_position(&m, &Vec3::new(ONE, ONE, ONE / 2)),
        Some(Vec3::new(800 * ONE, 0, ONE / 2))
    );
    assert_eq!(
        transform_position(&m, &Vec3::new(0, 0, 0)),
        Some(Vec3::new(400 * ONE, 300 * ONE, 0))
    );
}

#[test]
fn viewport_matrix_rounds_halves_down() {
    let m = create_viewport_matrix(3, 3);
    assert_eq!(m.x, Vec4 { x: 1, y: 0, z: 0, w: 1 });
    assert_eq!(m.y, Vec4 { x: 0, y: -2, z: 0, w: 1 });
    let m = create_viewport_matrix(i32::MIN, i32::MIN);
    assert_eq!(m.x, Vec4 { x: -(1 << 30), y: 0, z: 0, w: -(1 << 30) });
    assert_eq!(m.y, Vec4 { x: 0, y: 1 << 30, z: 0, w: -(1 << 30) });
    let m = create_viewport_matrix(i32::MAX, i32::MAX);
    assert_eq!(m.x, Vec4 { x: (1 << 30) - 1, y: 0, z: 0, w: (1 << 30) - 1 });
    assert_eq!(m.y, Vec4 { x: 0, y: -(1 << 30), z: 0, w: (1 << 30) - 1 });
}

#[test]
fn identity_leaves_a_position_alone() {
    let p = Vec3::new(3 * ONE, -7 * ONE + 5, 12345);
    assert_eq!(transform_position(&identity(), &p), Some(p));
    let p = Vec3::new(i32::MAX, i32::MIN, 0);
    assert_eq!(transform_position(&identity(), &p), Some(p));
}

#[test]
fn transform_position_applies_rows_and_offsets() {
    let m = Mat4 {
        x: Vec4 { x: 2 * ONE, y: 0, z: 0, w: 10 * ONE },
        y: Vec4 { x: 0, y: 0, z: ONE, w: 0 },
        z: Vec4 { x: ONE, y: ONE, z: ONE, w: -ONE },
        w: Vec4 { x: 0, y: 0, z: 0, w: ONE },
    };
    assert_eq!(
        transform_position(&m, &Vec3::new(ONE, 2 * ONE, 3 * ONE)),
        Some(Vec3::new(12 * ONE, 3 * ONE, 5 * ONE))
    );
}

#[test]
fn transform_position_divides_by_w() {
    let mut m = identity();
    m.w = Vec4 { x: 0, y: 0, z: ONE, w: 0 };
    assert_eq!(
        transform_position(&m, &Vec3::new(6 * ONE, -9 * ONE, 3 * ONE)),
        Some(Vec3::new(2 * ONE, -3 * ONE, ONE))
    );
    assert_eq!(
        transform_position(&m, &Vec3::new(ONE, -ONE, 3 * ONE)),
        Some(Vec3::new(21845, -21846, ONE))
    );
    assert_eq!(
        transform_position(&m, &Vec3::new(6 * ONE, -9 * ONE, -3 * ONE)),
        Some(Vec3::new(-2 * ONE, 3 * ONE, ONE))
    );
    assert_eq!(
        transform_position(&m, &Vec3::new(ONE, -ONE, -3 * ONE)),
        Some(Vec3::new(-21846, 21845, ONE))
    );
}

#[test]
fn transform_position_has_no_result_where_w_is_zero() {
    let mut m = identity();
    m.w = Vec4 { x: 0, y: 0, z: ONE, w: 0 };
    assert_eq!(transform_position(&m, &Vec3::new(ONE, ONE, 0)), None);
    m.w = Vec4 { x: 0, y: 0, z: 0, w: 0 };
    assert_eq!(transform_position(&m, &Vec3::new(ONE, ONE, ONE)), None);
    m.w = Vec4 { x: ONE, y: 0, z: 0, w: -ONE };
    assert_eq!(transform_position(&m, &Vec3::new(ONE, 5, 5)), None);
}

#[test]
fn transform_position_has_no_result_where_it_does_not_fit() {
    let mut m = identity();
    m.w = Vec4 { x: 0, y: 0, z: 0, w: 1 };
    assert_eq!(transform_position(&m, &Vec3::new(ONE, 0, 0)), None);
    assert_eq!(transform_position(&m, &Vec3::new(0, 0, 0)), Some(Vec3::new(0, 0, 0)));
    let mut m = identity();
    m.x = Vec4 { x: 2 * ONE, y: 0, z: 0, w: 0 };
    assert_eq!(transform_position(&m, &Vec3::new(1 << 30, 0, 0)), None);
    assert_eq!(transform_position(&m, &Vec3::new(-(1 << 30), 0, 0)), Some(Vec3::new(i32::MIN, 0, 0)));
    assert_eq!(
        transform_position(&m, &Vec3::new((1 << 30) - 1, 0, 0)),
        Some(Vec3::new(i32::MAX - 1, 0, 0))
    );
}

#[test]
fn transform_normal_ignores_offsets_and_projection() {
    let m = Mat4 {
        x: Vec4 { x: 0, y: -ONE, z: 0, w: 55 * ONE },
        y: Vec4 { x: ONE, y: 0, z: 0, w: -3 * ONE },
        z: Vec4 { x: 0, y: 0, z: ONE, w: 8 * ONE },
        w: Vec4 { x: ONE, y: ONE, z: ONE, w: 0 },
    };
    assert_eq!(
        transform_normal(&m, &Vec3::new(ONE, 0, 0)),
        Some(Vec3::new(0, ONE, 0))
    );
    assert_eq!(
        transform_normal(&m, &Vec3::new(ONE / 2, ONE / 4, -ONE)),
        Some(Vec3::new(-ONE / 4, ONE / 2, -ONE))
    );
}

#[test]
fn transform_normal_has_no_result_where_it_does_not_fit() {
    let mut m = identity();
    m.x = Vec4 { x: 2 * ONE, y: 0, z: 0, w: 0 };
    assert_eq!(transform_normal(&m, &Vec3::new(1 << 30, 0, 0)), None);
    assert_eq!(
        transform_normal(&m, &Vec3::new(1 << 29, 0, 7)),
        Some(Vec3::new(1 << 30, 0, 7))
    );
}

#[test]
fn vertex_shader_fills_the_transformed_fields() {
    let noise = create_noise();
    let mut transformation = identity();
    transformation.x.w = 100 * ONE;
    transformation.w = Vec4 { x: 0, y: 0, z: 0, w: 2 * ONE };
    let mut model = identity();
    model.x = Vec4 { x: 0, y: ONE, z: 0, w: 0 };
    model.y = Vec4 { x: -ONE, y: 0, z: 0, w: 0 };
    let u = uniforms(transformation, model, 0, &noise);
    let v = Vertex::new(
        Vec3::new(4 * ONE, 6 * ONE, 8 * ONE),
        Vec3::new(ONE, 0, 0),
        Vec2::new(1, 2),
    );
    assert_eq!(
        vertex_shader(&v, &u),
        Some(Vertex {
            position: Vec3::new(4 * ONE, 6 * ONE, 8 * ONE),
            normal: Vec3::new(ONE, 0, 0),
            tex_coords: Vec2::new(1, 2),
            transformed_position: Vec3::new(52 * ONE, 3 * ONE, 4 * ONE),
            transformed_normal: Vec3::new(0, -ONE, 0),
        })
    );
}

#[test]
fn vertex_shader_gives_the_same_result_twice() {
    let noise = create_noise();
    let mut transformation = create_viewport_matrix(800 * ONE, 600 * ONE);
    transformation.w = Vec4 { x: 0, y: 0, z: -ONE, w: 3 * ONE };
    let u = uniforms(transformation, identity(), 0, &noise);
    let v = Vertex::new(Vec3::new(12345, -67890, 13579), Vec3::new(1, 2, 3), Vec2::new(0, 0));
    let first = vertex_shader(&v, &u);
    let second = vertex_shader(&v, &u);
    assert!(first.is_some());
    assert_eq!(first, second);
}

#[test]
fn vertex_shader_drops_a_vertex_without_a_place() {
    let noise = create_noise();
    let mut transformation = identity();
    transformation.w = Vec4 { x: 0, y: 0, z: ONE, w: 0 };
    let u = uniforms(transformation, identity(), 0, &noise);
    let v = Vertex::new(Vec3::new(ONE, ONE, 0), Vec3::new(0, 0, ONE), Vec2::new(0, 0));
    assert_eq!(vertex_shader(&v, &u), None);
    let mut model = identity();
    model.z = Vec4 { x: 0, y: 0, z: i32::MAX, w: 0 };
    let u = uniforms(identity(), model, 0, &noise);
    let v = Vertex::new(Vec3::new(ONE, ONE, 0), Vec3::new(0, 0, i32::MAX), Vec2::new(0, 0));
    assert_eq!(vertex_shader(&v, &u), None);
}

#[test]
fn shade_maps_the_level_to_the_ramp() {
    assert_eq!(shade(-ONE, ONE), Color::new(20, 40, 110));
    assert_eq!(shade(ONE, ONE), Color::new(250, 230, 160));
    assert_eq!(shade(0, ONE), Color::new(135, 135, 135));
    assert_eq!(shade(-1, ONE), Color::new(134, 134, 134));
    assert_eq!(shade(ONE / 2, ONE), Color::new(192, 182, 147));
    assert_eq!(shade(i32::MIN, ONE), Color::new(20, 40, 110));
    assert_eq!(shade(i32::MAX, ONE), Color::new(250, 230, 160));
}

#[test]
fn shade_scales_the_colour_by_the_intensity() {
    assert_eq!(shade(0, 0), Color::new(0, 0, 0));
    assert_eq!(shade(ONE, -5), Color::new(0, 0, 0));
    assert_eq!(shade(0, ONE / 2), Color::new(67, 67, 67));
    assert_eq!(shade(-ONE, 2 * ONE), Color::new(40, 80, 220));
    assert_eq!(shade(ONE, 2 * ONE), Color::new(255, 255, 255));
    let mut last = Color::new(0, 0, 0);
    for step in 0..40 {
        let c = shade(12345, step * 4000);
        assert!(c.r >= last.r && c.g >= last.g && c.b >= last.b);
        last = c;
    }
}

#[test]
fn fragment_shader_samples_the_noise_at_the_position() {
    let noise = NoiseSource::with_seed(2312);
    let generator = reference(2312);
    let u = uniforms(identity(), identity(), 7, &noise);
    let position = Vec3::new(3 * ONE / 2, -9 * ONE / 4, 6554);
    let f = fragment_at(position, ONE);
    let shaded = noise_based_fragment_shader(&f, &u);
    let level = noise_level(generator.get_noise_3d(157.0, -225.0, 10.0).to_bits());
    assert_eq!(shaded.color, shade(level, ONE));
    assert_eq!(shaded, Fragment { color: shaded.color, ..f });
}

#[test]
fn fragment_shader_scales_by_the_intensity_of_the_fragment() {
    let noise = NoiseSource::with_seed(2312);
    let u = uniforms(identity(), identity(), 0, &noise);
    let position = Vec3::new(5 * ONE, 5 * ONE, 5 * ONE);
    let level = noise.sample(500, 500, 500);
    for intensity in [0, ONE / 3, ONE, 2 * ONE] {
        let shaded = noise_based_fragment_shader(&fragment_at(position, intensity), &u);
        assert_eq!(shaded.color, shade(level, intensity));
    }
    let dark = noise_based_fragment_shader(&fragment_at(position, 0), &u);
    assert_eq!(dark.color, Color::new(0, 0, 0));
}

#[test]
fn fragment_shader_is_deterministic() {
    let first = NoiseSource::with_seed(2312);
    let second = NoiseSource::with_seed(2312);
    for i in 0..30 {
        let position = Vec3::new(i * 7919, -i * 104729, i * 1299709);
        let f = fragment_at(position, ONE);
        let a = noise_based_fragment_shader(&f, &uniforms(identity(), identity(), 42, &first));
        let b = noise_based_fragment_shader(&f, &uniforms(identity(), identity(), 42, &first));
        let c = noise_based_fragment_shader(&f, &uniforms(identity(), identity(), 42, &second));
        assert_eq!(a, b);
        assert_eq!(a, c);
    }
}

#[test]
fn fragment_shader_drifts_with_time_and_starts_over() {
    assert_eq!(NOISE_SCALE, 100);
    assert_eq!(NOISE_PERIOD, 32768);
    let noise = NoiseSource::with_seed(2312);
    let position = Vec3::new(-2 * ONE, ONE, 0);
    let f = fragment_at(position, ONE);
    for time in [0u32, 1, 50, 32767] {
        let shaded = noise_based_fragment_shader(&f, &uniforms(identity(), identity(), time, &noise));
        let level = noise.sample((-200 + time as i32) as i16, 100, 0);
        assert_eq!(shaded.color, shade(level, ONE));
    }
    let start = noise_based_fragment_shader(&f, &uniforms(identity(), identity(), 0, &noise));
    let again = noise_based_fragment_shader(&f, &uniforms(identity(), identity(), 32768, &noise));
    assert_eq!(start, again);
}

#[test]
fn fragment_shader_keeps_far_positions_on_the_grid() {
    let noise = NoiseSource::with_seed(2312);
    let f = fragment_at(Vec3::new(i32::MAX, i32::MIN, 400 * ONE), ONE);
    let shaded = noise_based_fragment_shader(&f, &uniforms(identity(), identity(), 9, &noise));
    assert_eq!(shaded.color, shade(noise.sample(i16::MAX, i16::MIN, i16::MAX), ONE));
}
