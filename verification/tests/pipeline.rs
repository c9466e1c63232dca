use softraster::color::Color;
use softraster::fragment::{Fragment, Pixel};
use softraster::framebuffer::{Framebuffer, FAR_DEPTH};
use softraster::noise::{create_noise, NoiseSource};
use softraster::render::{
    assemble_triangles, draw_fragments, rasterize, render, transform_vertices,
};
use softraster::shader::{noise_based_fragment_shader, vertex_shader};
use softraster::triangle::{calculate_bounding_box, triangle};
use softraster::uniforms::{create_model_matrix, create_viewport_matrix, Uniforms};
use softraster::vector::{Mat4, Vec2, Vec3, Vec4};
use softraster::vertex::Vertex;

const ONE: i32 = 65536;

fn fx(v: f32) -> i32 {
    (v as f64 * 65536.0).round() as i32
}

fn row(m: &nalgebra_glm::Mat4, r: usize) -> Vec4 {
    Vec4 { x: fx(m[(r, 0)]), y: fx(m[(r, 1)]), z: fx(m[(r, 2)]), w: fx(m[(r, 3)]) }
}

fn fixed(m: &nalgebra_glm::Mat4) -> Mat4 {
    Mat4 { x: row(m, 0), y: row(m, 1), z: row(m, 2), w: row(m, 3) }
}

fn float(m: &Mat4) -> nalgebra_glm::Mat4 {
    let f = |v: i32| v as f32 / 65536.0;
    nalgebra_glm::Mat4::new(
        f(m.x.x), f(m.x.y), f(m.x.z), f(m.x.w),
        f(m.y.x), f(m.y.y), f(m.y.z), f(m.y.w),
        f(m.z.x), f(m.z.y), f(m.z.z), f(m.z.w),
        f(m.w.x), f(m.w.y), f(m.w.z), f(m.w.w),
    )
}

fn scene<'a>(noise: &'a NoiseSource, time: u32) -> Uniforms<'a> {
    let model = create_model_matrix();
    let viewport = create_viewport_matrix(800 * ONE, 600 * ONE);
    let view = nalgebra_glm::look_at(
        &nalgebra_glm::vec3(0.0, 0.0, 3.0),
        &nalgebra_glm::vec3(0.0, 0.0, 0.0),
        &nalgebra_glm::vec3(0.0, 1.0, 0.0),
    );
    let projection = nalgebra_glm::perspective(800.0 / 600.0, 45.0f32.to_radians(), 0.1, 100.0);
    let transformation = float(&viewport) * projection * view * float(&model);
    Uniforms {
        model_matrix: model,
        view_matrix: fixed(&view),
        projection_matrix: fixed(&projection),
        viewport_matrix: viewport,
        transformation_matrix: fixed(&transformation),
        time,
        noise,
    }
}

fn flat<'a>(noise: &'a NoiseSource) -> Uniforms<'a> {
    let identity = create_model_matrix();
    Uniforms {
        model_matrix: identity,
        view_matrix: identity,
        projection_matrix: identity,
        viewport_matrix: identity,
        transformation_matrix: identity,
        time: 0,
        noise,
    }
}

fn mesh_vertex(x: i32, y: i32, z: i32) -> Vertex {
    Vertex::new(Vec3::new(x * ONE, y * ONE, z * ONE), Vec3::new(0, 0, ONE), Vec2::new(0, 0))
}

fn single_triangle() -> Vec<Vertex> {
    vec![mesh_vertex(0, 0, 0), mesh_vertex(1, 0, 0), mesh_vertex(0, 1, 0)]
}

fn at_depth(x: i32, y: i32, size: i32, depth: i32) -> Vec<Vertex> {
    let corner = |dx: i32, dy: i32| {
        Vertex::new(
            Vec3::new((x + dx) * ONE, (y + dy) * ONE, depth),
            Vec3::new(0, 0, ONE),
            Vec2::new(0, 0),
        )
    };
    vec![corner(0, 0), corner(size, 0), corner(0, size)]
}

#[test]
fn single_triangle_yields_fragments_inside_its_bounding_box() {
    let noise = create_noise();
    let uniforms = scene(&noise, 1);
    let transformed = transform_vertices(&single_triangle(), &uniforms);
    assert_eq!(transformed.len(), 3);
    assert!(transformed.iter().all(|v| v.is_some()));
    let triangles = assemble_triangles(&transformed);
    assert_eq!(triangles.len(), 1);
    let (a, b, c) = triangles[0];
    let at = |v: &Vertex| (v.transformed_position.x >> 16, v.transformed_position.y >> 16);
    assert_eq!(at(&a), (400, 300));
    assert!((640..=642).contains(&at(&b).0) && at(&b).1 == 300);
    assert!(at(&c).0 == 400 && (57..=59).contains(&at(&c).1));
    let (min_x, min_y, max_x, max_y) = calculate_bounding_box(
        &a.transformed_position,
        &b.transformed_position,
        &c.transformed_position,
    );
    let fragments = rasterize(&triangles);
    assert!(!fragments.is_empty());
    assert!(fragments.len() > 25000 && fragments.len() < 33000);
    for f in &fragments {
        assert!(min_x <= f.position.x && f.position.x <= max_x);
        assert!(min_y <= f.position.y && f.position.y <= max_y);
        assert_eq!(f.intensity, 2 * ONE);
    }
    assert_eq!(fragments, triangle(&a, &b, &c));
}

#[test]
fn single_triangle_shows_on_the_picture() {
    let noise = create_noise();
    let uniforms = scene(&noise, 1);
    let mut fb = Framebuffer::new(800, 600);
    fb.set_background_color(0x433878);
    fb.clear();
    render(&mut fb, &uniforms, &single_triangle());
    let drawn = fb.zbuffer().iter().filter(|&&d| d != FAR_DEPTH).count();
    assert!(drawn > 25000 && drawn < 33000);
    assert_ne!(fb.zbuffer()[250 * 800 + 450], FAR_DEPTH);
    assert_eq!(fb.zbuffer()[100 * 800 + 700], FAR_DEPTH);
    assert_eq!(fb.buffer()[100 * 800 + 700], 0x433878);
    assert_eq!(fb.buffer()[0], 0x433878);
    for (color, depth) in fb.buffer().iter().zip(fb.zbuffer().iter()) {
        if *depth == FAR_DEPTH {
            assert_eq!(*color, 0x433878);
        }
    }
}

#[test]
fn render_without_triangles_leaves_the_background() {
    let noise = create_noise();
    let uniforms = scene(&noise, 1);
    let mut fb = Framebuffer::new(800, 600);
    fb.set_background_color(0x433878);
    fb.clear();
    fb.set_current_color(0xffdddd);
    render(&mut fb, &uniforms, &[]);
    assert_eq!(fb.buffer().len(), 480000);
    assert!(fb.buffer().iter().all(|&c| c == 0x433878));
    assert!(fb.zbuffer().iter().all(|&d| d == FAR_DEPTH));
}

#[test]
fn render_is_the_four_stages_in_a_row() {
    let noise = create_noise();
    let uniforms = scene(&noise, 3);
    let mut mesh = single_triangle();
    mesh.extend(at_depth(-1, -1, 1, 0));
    let mut whole = Framebuffer::new(800, 600);
    render(&mut whole, &uniforms, &mesh);
    let mut staged = Framebuffer::new(800, 600);
    let fragments = rasterize(&assemble_triangles(&transform_vertices(&mesh, &uniforms)));
    draw_fragments(&mut staged, &fragments, &uniforms);
    assert_eq!(whole.buffer(), staged.buffer());
    assert_eq!(whole.zbuffer(), staged.zbuffer());
    let mut by_hand = Framebuffer::new(800, 600);
    for f in &fragments {
        let color = noise_based_fragment_shader(f, &uniforms).color;
        by_hand.set_current_color(color.to_hex());
        if f.position.x >= 0 && f.position.y >= 0 {
            by_hand.point(f.position.x as usize, f.position.y as usize, f.depth);
        }
    }
    assert_eq!(whole.buffer(), by_hand.buffer());
    assert_eq!(whole.zbuffer(), by_hand.zbuffer());
}

#[test]
fn transform_vertices_is_the_vertex_stage_on_each() {
    let noise = create_noise();
    let uniforms = scene(&noise, 0);
    let mut mesh = single_triangle();
    mesh.push(mesh_vertex(0, 0, 3));
    mesh.push(mesh_vertex(5, -2, 1));
    let transformed = transform_vertices(&mesh, &uniforms);
    assert_eq!(transformed.len(), 5);
    for (v, t) in mesh.iter().zip(transformed.iter()) {
        assert_eq!(*t, vertex_shader(v, &uniforms));
    }
    assert_eq!(transformed[3], None);
    assert!(transform_vertices(&[], &uniforms).is_empty());
}

#[test]
fn assembler_groups_vertices_in_threes() {
    let v: Vec<Vertex> = (0..7).map(|i| mesh_vertex(i, 0, 0)).collect();
    let all: Vec<Option<Vertex>> = v.iter().copied().map(Some).collect();
    assert_eq!(assemble_triangles(&all), vec![(v[0], v[1], v[2]), (v[3], v[4], v[5])]);
    assert_eq!(assemble_triangles(&all[..6].to_vec()), vec![(v[0], v[1], v[2]), (v[3], v[4], v[5])]);
    assert_eq!(assemble_triangles(&all[..5].to_vec()), vec![(v[0], v[1], v[2])]);
    assert_eq!(assemble_triangles(&all[..3].to_vec()), vec![(v[0], v[1], v[2])]);
    assert!(assemble_triangles(&all[..2].to_vec()).is_empty());
    assert!(assemble_triangles(&all[..1].to_vec()).is_empty());
    assert!(assemble_triangles(&Vec::new()).is_empty());
}

#[test]
fn assembler_drops_a_triangle_with_a_missing_corner() {
    let v: Vec<Vertex> = (0..9).map(|i| mesh_vertex(i, 0, 0)).collect();
    let mut all: Vec<Option<Vertex>> = v.iter().copied().map(Some).collect();
    all[4] = None;
    assert_eq!(assemble_triangles(&all), vec![(v[0], v[1], v[2]), (v[6], v[7], v[8])]);
    all[0] = None;
    all[8] = None;
    assert!(assemble_triangles(&all).is_empty());
}

#[test]
fn rasterize_keeps_the_order_of_the_triangles() {
    let first = at_depth(0, 0, 4, 0);
    let second = at_depth(10, 10, 3, 0);
    let third = at_depth(0, 0, 0, 0);
    let triangles = vec![
        (first[0], first[1], first[2]),
        (third[0], third[1], third[2]),
        (second[0], second[1], second[2]),
    ];
    let mut expected = triangle(&first[0], &first[1], &first[2]);
    expected.extend(triangle(&second[0], &second[1], &second[2]));
    assert_eq!(expected.len(), 16);
    assert_eq!(rasterize(&triangles), expected);
    assert!(rasterize(&Vec::new()).is_empty());
}

#[test]
fn nearer_triangle_hides_the_farther_one_in_either_order() {
    let noise = create_noise();
    let uniforms = flat(&noise);
    let near = at_depth(0, 0, 6, 100);
    let far = at_depth(0, 0, 6, 200);
    for order in [[&near, &far], [&far, &near]] {
        let mut mesh = order[0].clone();
        mesh.extend(order[1].iter().copied());
        let mut fb = Framebuffer::new(8, 8);
        render(&mut fb, &uniforms, &mesh);
        let mut only_near = Framebuffer::new(8, 8);
        render(&mut only_near, &uniforms, &near);
        assert_eq!(fb.zbuffer(), only_near.zbuffer());
        assert_eq!(fb.zbuffer()[0], 100);
        assert_eq!(fb.zbuffer()[7 * 8 + 7], FAR_DEPTH);
    }
}

#[test]
fn draw_fragments_shades_before_it_draws() {
    let noise = create_noise();
    let uniforms = flat(&noise);
    let f = Fragment::new(
        Pixel { x: 2, y: 1 },
        Color::new(255, 255, 255),
        5,
        Vec3::new(0, 0, ONE),
        ONE,
        Vec3::new(3 * ONE, 4 * ONE, 5 * ONE),
        Vec2::new(0, 0),
    );
    let mut fb = Framebuffer::new(4, 3);
    draw_fragments(&mut fb, &vec![f], &uniforms);
    let color = noise_based_fragment_shader(&f, &uniforms).color.to_hex();
    let mut colors = vec![0u32; 12];
    colors[6] = color;
    assert_eq!(fb.buffer(), &colors);
    assert_eq!(fb.zbuffer()[6], 5);
}

#[test]
fn draw_fragments_skips_what_lies_beyond_the_picture() {
    let noise = create_noise();
    let uniforms = flat(&noise);
    let at = |x: i32, y: i32| {
        Fragment::new(
            Pixel { x, y },
            Color::new(255, 255, 255),
            5,
            Vec3::new(0, 0, ONE),
            ONE,
            Vec3::new(0, 0, 0),
            Vec2::new(0, 0),
        )
    };
    let mut fb = Framebuffer::new(4, 3);
    draw_fragments(&mut fb, &vec![at(4, 0), at(0, 3), at(i32::MAX, i32::MAX), at(4, -1)], &uniforms);
    assert_eq!(fb.zbuffer(), &vec![FAR_DEPTH; 12]);
    assert_eq!(fb.buffer(), &vec![0u32; 12]);
}

#[test]
fn draw_fragments_skips_negative_columns_and_rows() {
    let noise = create_noise();
    let uniforms = flat(&noise);
    let at = |x: i32, y: i32, depth: i32| {
        Fragment::new(
            Pixel { x, y },
            Color::new(255, 255, 255),
            depth,
            Vec3::new(0, 0, ONE),
            ONE,
            Vec3::new(0, 0, 0),
            Vec2::new(0, 0),
        )
    };
    let mut fb = Framebuffer::new(4, 3);
    draw_fragments(
        &mut fb,
        &vec![at(-3, 2, 9), at(1, -8, 8), at(-1, 0, 6), at(0, -1, 5), at(i32::MIN, i32::MIN, 7)],
        &uniforms,
    );
    assert_eq!(fb.zbuffer(), &vec![FAR_DEPTH; 12]);
    assert_eq!(fb.buffer(), &vec![0u32; 12]);
    draw_fragments(&mut fb, &vec![at(0, 0, 4), at(3, 2, 3)], &uniforms);
    let mut depths = vec![FAR_DEPTH; 12];
    depths[0] = 4;
    depths[11] = 3;
    assert_eq!(fb.zbuffer(), &depths);
}

#[test]
fn triangle_left_of_the_picture_changes_nothing() {
    let noise = create_noise();
    let uniforms = flat(&noise);
    let mesh = vec![mesh_vertex(-10, 5, 0), mesh_vertex(-2, 5, 0), mesh_vertex(-10, 20, 0)];
    let fragments = rasterize(&assemble_triangles(&transform_vertices(&mesh, &uniforms)));
    assert!(!fragments.is_empty());
    assert!(fragments.iter().all(|f| f.position.x < 0));
    let mut fb = Framebuffer::new(800, 600);
    fb.set_background_color(0x433878);
    fb.clear();
    render(&mut fb, &uniforms, &mesh);
    assert!(fb.buffer().iter().all(|&c| c == 0x433878));
    assert!(fb.zbuffer().iter().all(|&d| d == FAR_DEPTH));
}

#[test]
fn triangle_above_the_picture_changes_nothing() {
    let noise = create_noise();
    let uniforms = flat(&noise);
    let mesh = vec![mesh_vertex(5, -10, 0), mesh_vertex(20, -10, 0), mesh_vertex(5, -2, 0)];
    let mut fb = Framebuffer::new(30, 30);
    render(&mut fb, &uniforms, &mesh);
    assert_eq!(fb.buffer(), &vec![0u32; 900]);
    assert_eq!(fb.zbuffer(), &vec![FAR_DEPTH; 900]);
}

#[test]
fn first_column_keeps_the_depth_of_its_own_fragment() {
    let noise = create_noise();
    let uniforms = flat(&noise);
    let corner = |x: i32, y: i32, depth: i32| {
        Vertex::new(Vec3::new(x * ONE, y * ONE, depth), Vec3::new(0, 0, ONE), Vec2::new(0, 0))
    };
    let mesh = vec![corner(-2, 0, 0), corner(3, 0, 50), corner(-2, 6, 0)];
    let fragments = rasterize(&assemble_triangles(&transform_vertices(&mesh, &uniforms)));
    let own: Vec<i32> = fragments
        .iter()
        .filter(|f| f.position == Pixel { x: 0, y: 1 })
        .map(|f| f.depth)
        .collect();
    assert_eq!(own, vec![25]);
    assert!(fragments.iter().any(|f| f.position.x < 0 && f.depth < 25));
    let mut fb = Framebuffer::new(8, 8);
    render(&mut fb, &uniforms, &mesh);
    assert_eq!(fb.zbuffer()[8], 25);
    assert_eq!(fb.zbuffer()[0], 25);
    assert_eq!(fb.zbuffer()[1], 35);
}

#[test]
fn every_pixel_keeps_its_nearest_fragment_in_either_order() {
    let noise = create_noise();
    let uniforms = flat(&noise);
    let corner = |x: i32, y: i32, depth: i32| {
        Vertex::new(Vec3::new(x * ONE, y * ONE, depth), Vec3::new(0, 0, ONE), Vec2::new(0, 0))
    };
    let first = vec![corner(-2, 0, 0), corner(9, 0, 500), corner(-2, 9, 0)];
    let second = vec![corner(0, -3, 400), corner(7, -3, 0), corner(0, 7, 100)];
    let mut both = first.clone();
    both.extend(second.iter().copied());
    let mut swapped = second.clone();
    swapped.extend(first.iter().copied());
    let fragments = rasterize(&assemble_triangles(&transform_vertices(&both, &uniforms)));
    let mut one_way = Framebuffer::new(8, 8);
    render(&mut one_way, &uniforms, &both);
    let mut other_way = Framebuffer::new(8, 8);
    render(&mut other_way, &uniforms, &swapped);
    assert_eq!(one_way.zbuffer(), other_way.zbuffer());
    let mut overlapping = 0;
    for y in 0..8 {
        for x in 0..8 {
            let here: Vec<&Fragment> =
                fragments.iter().filter(|f| f.position == Pixel { x, y }).collect();
            let index = (y * 8 + x) as usize;
            match here.iter().map(|f| f.depth).min() {
                None => {
                    assert_eq!(one_way.zbuffer()[index], FAR_DEPTH);
                    assert_eq!(one_way.buffer()[index], 0);
                }
                Some(nearest) => {
                    assert_eq!(one_way.zbuffer()[index], nearest);
                    let colors: Vec<u32> = here
                        .iter()
                        .filter(|f| f.depth == nearest)
                        .map(|f| noise_based_fragment_shader(f, &uniforms).color.to_hex())
                        .collect();
                    assert!(colors.contains(&one_way.buffer()[index]));
                    assert!(colors.contains(&other_way.buffer()[index]));
                }
            }
            if here.len() == 2 {
                overlapping += 1;
            }
        }
    }
    assert!(overlapping > 5);
}

#[test]
fn single_triangle_is_written_inside_its_bounding_box() {
    let noise = create_noise();
    let uniforms = scene(&noise, 1);
    let transformed = transform_vertices(&single_triangle(), &uniforms);
    let (a, b, c) = assemble_triangles(&transformed)[0];
    let (min_x, min_y, max_x, max_y) = calculate_bounding_box(
        &a.transformed_position,
        &b.transformed_position,
        &c.transformed_position,
    );
    let mut fb = Framebuffer::new(800, 600);
    fb.set_background_color(0x433878);
    fb.clear();
    render(&mut fb, &uniforms, &single_triangle());
    let mut written = 0;
    for y in 0..600i32 {
        for x in 0..800i32 {
            let index = (y * 800 + x) as usize;
            if fb.zbuffer()[index] != FAR_DEPTH || fb.buffer()[index] != 0x433878 {
                written += 1;
                assert!(min_x <= x && x <= max_x && min_y <= y && y <= max_y);
            }
        }
    }
    assert!(written > 0);
}
