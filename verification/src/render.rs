//! The render pass: transform the vertices, assemble triangles, rasterize
//! them, shade the fragments and write them into the framebuffer.

use vstd::prelude::*;
use crate::color::hex_of;
use crate::coverage::{count_at, lemma_count_concat, lemma_covered_in_bounding_box, lemma_triangle_covers_exactly};
use crate::fragment::Fragment;
use crate::framebuffer::{
    lemma_index_in_range, lemma_nearer_wins, lemma_pixels_stored_apart, Framebuffer, FramebufferView,
};
use crate::shader::{noise_based_fragment_shader, shader_color, vertex_shader, vertex_shader_spec};
use crate::triangle::{covers, in_bounding_box, triangle, triangle_fragments};
use crate::uniforms::Uniforms;
use crate::vector::Mat4;
use crate::vertex::Vertex;

verus! {

/// The vertices after the vertex stage, in their order; `None` stands for a
/// vertex that has no place on the screen.
pub open spec fn transformed_vertices(vertices: Seq<Vertex>, transformation: Mat4, model: Mat4) -> Seq<
    Option<Vertex>,
> {
    Seq::new(vertices.len(), |i: int| vertex_shader_spec(vertices[i], transformation, model))
}

/// The triangle made of the vertices `3 * i`, `3 * i + 1` and `3 * i + 2`,
/// or nothing where one of the three has no place on the screen.
pub open spec fn triangle_at(vertices: Seq<Option<Vertex>>, i: int) -> Seq<(Vertex, Vertex, Vertex)> {
    match (vertices[3 * i], vertices[3 * i + 1], vertices[3 * i + 2]) {
        (Some(a), Some(b), Some(c)) => seq![(a, b, c)],
        _ => Seq::empty(),
    }
}

/// The triangles made of the first `count` groups of three vertices.
pub open spec fn first_triangles(vertices: Seq<Option<Vertex>>, count: nat) -> Seq<
    (Vertex, Vertex, Vertex),
>
    decreases count,
{
    if count == 0 {
        Seq::empty()
    } else {
        first_triangles(vertices, (count - 1) as nat) + triangle_at(vertices, count - 1)
    }
}

/// The triangles of a list of vertices: each group of three vertices in a
/// row is one triangle, and one or two vertices left at the end are
/// dropped.
pub open spec fn assembled(vertices: Seq<Option<Vertex>>) -> Seq<(Vertex, Vertex, Vertex)> {
    first_triangles(vertices, vertices.len() / 3)
}

/// The fragments of a list of triangles, triangle after triangle.
pub open spec fn rasterized(triangles: Seq<(Vertex, Vertex, Vertex)>) -> Seq<Fragment>
    decreases triangles.len(),
{
    if triangles.len() == 0 {
        Seq::empty()
    } else {
        rasterized(triangles.drop_last()) + triangle_fragments(
            triangles.last().0,
            triangles.last().1,
            triangles.last().2,
        )
    }
}

/// Whether a fragment lies at a pixel of the picture: neither its column
/// nor its row is negative, and both are within the width and the height.
pub open spec fn on_screen(view: FramebufferView, f: Fragment) -> bool {
    view.contains(f.position.x as int, f.position.y as int)
}

/// The picture after one fragment was shaded and drawn. A fragment that
/// does not lie at a pixel of the picture changes nothing. Any other makes
/// its shaded colour the current colour, and is then drawn as a point at
/// its own pixel if it is nearer than what that pixel shows.
pub open spec fn drawn_one(view: FramebufferView, f: Fragment, time: u32, seed: int) -> FramebufferView {
    if on_screen(view, f) {
        (FramebufferView {
            current: hex_of(shader_color(f.vertex_position, f.intensity as int, time, seed)) as u32,
            ..view
        }).with_point(f.position.x as int, f.position.y as int, f.depth as int)
    } else {
        view
    }
}

/// The picture after a list of fragments was shaded and drawn, one after
/// the other.
pub open spec fn drawn(view: FramebufferView, fragments: Seq<Fragment>, time: u32, seed: int) -> FramebufferView
    decreases fragments.len(),
{
    if fragments.len() == 0 {
        view
    } else {
        drawn_one(drawn(view, fragments.drop_last(), time, seed), fragments.last(), time, seed)
    }
}

/// The picture after a render pass over `vertices`.
pub open spec fn render_spec(
    view: FramebufferView,
    vertices: Seq<Vertex>,
    transformation: Mat4,
    model: Mat4,
    time: u32,
    seed: int,
) -> FramebufferView {
    drawn(
        view,
        rasterized(assembled(transformed_vertices(vertices, transformation, model))),
        time,
        seed,
    )
}

/// The vertex stage on every vertex of a mesh.
pub fn transform_vertices(vertex_array: &[Vertex], uniforms: &Uniforms) -> (transformed: Vec<
    Option<Vertex>,
>)
    ensures
        transformed@ == transformed_vertices(
            vertex_array@,
            uniforms.transformation_matrix,
            uniforms.model_matrix,
        ),
{
    let mut transformed: Vec<Option<Vertex>> = Vec::new();
    let mut i: usize = 0;
    while i < vertex_array.len()
        invariant
            i <= vertex_array@.len(),
            transformed@.len() == i,
            forall|j: int|
                0 <= j < i ==> transformed@[j] == vertex_shader_spec(
                    vertex_array@[j],
                    uniforms.transformation_matrix,
                    uniforms.model_matrix,
                ),
        decreases vertex_array@.len() - i,
    {
        transformed.push(vertex_shader(&vertex_array[i], uniforms));
        i = i + 1;
    }
    assert(transformed@ =~= transformed_vertices(
        vertex_array@,
        uniforms.transformation_matrix,
        uniforms.model_matrix,
    ));
    transformed
}

/// Groups transformed vertices into triangles: every three vertices in a
/// row are one triangle. Vertices left at the end that do not make up a
/// triangle are dropped, and so is a triangle with a corner that has no
/// place on the screen.
pub fn assemble_triangles(vertices: &Vec<Option<Vertex>>) -> (triangles: Vec<
    (Vertex, Vertex, Vertex),
>)
    ensures
        triangles@ == assembled(vertices@),
{
    let mut triangles: Vec<(Vertex, Vertex, Vertex)> = Vec::new();
    let count: usize = vertices.len() / 3;
    let mut i: usize = 0;
    while i < count
        invariant
            i <= count,
            count == vertices@.len() / 3,
            vertices@.len() <= usize::MAX,
            triangles@ == first_triangles(vertices@, i as nat),
        decreases count - i,
    {
        let ghost before: Seq<(Vertex, Vertex, Vertex)> = triangles@;
        match (vertices[3 * i], vertices[3 * i + 1], vertices[3 * i + 2]) {
            (Some(a), Some(b), Some(c)) => {
                triangles.push((a, b, c));
                assert(triangles@ =~= before + seq![(a, b, c)]);
            },
            _ => {
                assert(triangles@ =~= before + Seq::<(Vertex, Vertex, Vertex)>::empty());
            },
        }
        i = i + 1;
    }
    triangles
}

/// The fragments of every triangle, triangle after triangle.
pub fn rasterize(triangles: &Vec<(Vertex, Vertex, Vertex)>) -> (fragments: Vec<Fragment>)
    ensures
        fragments@ == rasterized(triangles@),
{
    let mut fragments: Vec<Fragment> = Vec::new();
    let mut i: usize = 0;
    while i < triangles.len()
        invariant
            i <= triangles@.len(),
            fragments@ == rasterized(triangles@.take(i as int)),
        decreases triangles@.len() - i,
    {
        let ghost before: Seq<Fragment> = fragments@;
        let mut piece: Vec<Fragment> = triangle(&triangles[i].0, &triangles[i].1, &triangles[i].2);
        fragments.append(&mut piece);
        proof {
            let next = triangles@.take(i + 1);
            assert(next.drop_last() =~= triangles@.take(i as int));
            assert(next.last() == triangles@[i as int]);
        }
        i = i + 1;
    }
    assert(triangles@.take(i as int) =~= triangles@);
    fragments
}

/// Shades the fragments and draws them into the framebuffer, one after the
/// other. A fragment with a negative column or row, or one beyond the
/// width or the height, is skipped.
pub fn draw_fragments(framebuffer: &mut Framebuffer, fragments: &Vec<Fragment>, uniforms: &Uniforms)
    ensures
        final(framebuffer)@ == drawn(
            old(framebuffer)@,
            fragments@,
            uniforms.time,
            uniforms.noise.seed(),
        ),
{
    let mut i: usize = 0;
    while i < fragments.len()
        invariant
            i <= fragments@.len(),
            framebuffer@ == drawn(
                old(framebuffer)@,
                fragments@.take(i as int),
                uniforms.time,
                uniforms.noise.seed(),
            ),
        decreases fragments@.len() - i,
    {
        let fragment: &Fragment = &fragments[i];
        if fragment.position.x >= 0 && fragment.position.y >= 0 {
            let x: usize = fragment.position.x as usize;
            let y: usize = fragment.position.y as usize;
            if x < framebuffer.width() && y < framebuffer.height() {
                let shaded: Fragment = noise_based_fragment_shader(fragment, uniforms);
                framebuffer.set_current_color(shaded.color.to_hex());
                framebuffer.point(x, y, fragment.depth);
            }
        }
        proof {
            let next = fragments@.take(i + 1);
            assert(next.drop_last() =~= fragments@.take(i as int));
            assert(next.last() == fragments@[i as int]);
        }
        i = i + 1;
    }
    assert(fragments@.take(i as int) =~= fragments@);
}

/// One render pass: the vertex stage on every vertex, the assembly of
/// triangles, their rasterization, and the shading and depth-tested
/// drawing of every fragment, in the order of the mesh.
pub fn render(framebuffer: &mut Framebuffer, uniforms: &Uniforms, vertex_array: &[Vertex])
    ensures
        final(framebuffer)@ == render_spec(
            old(framebuffer)@,
            vertex_array@,
            uniforms.transformation_matrix,
            uniforms.model_matrix,
            uniforms.time,
            uniforms.noise.seed(),
        ),
{
    let transformed: Vec<Option<Vertex>> = transform_vertices(vertex_array, uniforms);
    let triangles: Vec<(Vertex, Vertex, Vertex)> = assemble_triangles(&transformed);
    let fragments: Vec<Fragment> = rasterize(&triangles);
    draw_fragments(framebuffer, &fragments, uniforms);
}

/// Drawing keeps the nearest: whatever fragments are drawn, the picture
/// keeps its size and no pixel ends farther away than it was.
pub proof fn lemma_drawing_keeps_nearest(
    view: FramebufferView,
    fragments: Seq<Fragment>,
    time: u32,
    seed: int,
    i: int,
)
    requires
        view.wf(),
        0 <= i < view.depths.len(),
    ensures
        drawn(view, fragments, time, seed).wf(),
        drawn(view, fragments, time, seed).width == view.width,
        drawn(view, fragments, time, seed).height == view.height,
        drawn(view, fragments, time, seed).background == view.background,
        drawn(view, fragments, time, seed).depths[i] <= view.depths[i],
    decreases fragments.len(),
{
    if fragments.len() > 0 {
        let before = drawn(view, fragments.drop_last(), time, seed);
        let f = fragments.last();
        lemma_drawing_keeps_nearest(view, fragments.drop_last(), time, seed, i);
        let shaded = FramebufferView {
            current: hex_of(shader_color(f.vertex_position, f.intensity as int, time, seed)) as u32,
            ..before
        };
        lemma_nearer_wins(
            shaded,
            f.position.x as int,
            f.position.y as int,
            f.depth as int,
            i,
        );
    }
}

/// Whether the fragment lies at pixel `(x, y)`.
pub open spec fn lies_at(f: Fragment, x: int, y: int) -> bool {
    f.position.x == x && f.position.y == y
}

/// The colour that a fragment is drawn with, as `0xRRGGBB`.
pub open spec fn shaded_hex(f: Fragment, time: u32, seed: int) -> u32 {
    hex_of(shader_color(f.vertex_position, f.intensity as int, time, seed)) as u32
}

/// Drawing touches only the pixels that fragments lie at: a pixel of the
/// picture at which none of the fragments lies keeps its colour and its
/// depth.
pub proof fn lemma_drawing_touches_only_fragments(
    view: FramebufferView,
    fragments: Seq<Fragment>,
    time: u32,
    seed: int,
    x: int,
    y: int,
)
    requires
        view.wf(),
        view.contains(x, y),
        count_at(fragments, x, y) == 0,
    ensures
        drawn(view, fragments, time, seed).colors[view.index_of(x, y)] == view.colors[view.index_of(
            x,
            y,
        )],
        drawn(view, fragments, time, seed).depths[view.index_of(x, y)] == view.depths[view.index_of(
            x,
            y,
        )],
    decreases fragments.len(),
{
    lemma_index_in_range(view.width as int, view.height as int, x, y);
    if fragments.len() > 0 {
        let i = view.index_of(x, y);
        let before = drawn(view, fragments.drop_last(), time, seed);
        let f = fragments.last();
        lemma_drawing_touches_only_fragments(view, fragments.drop_last(), time, seed, x, y);
        lemma_drawing_keeps_nearest(view, fragments.drop_last(), time, seed, i);
        let shaded = FramebufferView { current: shaded_hex(f, time, seed), ..before };
        if on_screen(before, f) {
            lemma_pixels_stored_apart(
                view.width as int,
                view.height as int,
                x,
                y,
                f.position.x as int,
                f.position.y as int,
            );
        }
        lemma_nearer_wins(shaded, f.position.x as int, f.position.y as int, f.depth as int, i);
    }
}

/// The nearest fragment wins, in whatever order the fragments are drawn.
/// After drawing, the depth of a pixel is the smallest among the depth it
/// had and the depths of the fragments that lie at it. Where a fragment
/// was nearer than what the pixel showed, the pixel has the depth and the
/// shaded colour of one of the nearest fragments; where none was, it keeps
/// its colour.
pub proof fn lemma_nearest_fragment_wins(
    view: FramebufferView,
    fragments: Seq<Fragment>,
    time: u32,
    seed: int,
    x: int,
    y: int,
)
    requires
        view.wf(),
        view.contains(x, y),
    ensures
        ({
            let i = view.index_of(x, y);
            let after = drawn(view, fragments, time, seed);
            &&& after.depths[i] <= view.depths[i]
            &&& forall|j: int|
                0 <= j < fragments.len() && lies_at(#[trigger] fragments[j], x, y)
                    ==> after.depths[i] <= fragments[j].depth
            &&& (after.depths[i] == view.depths[i] && after.colors[i] == view.colors[i])
                || exists|j: int|
                    0 <= j < fragments.len() && lies_at(#[trigger] fragments[j], x, y)
                        && after.depths[i] == fragments[j].depth && after.colors[i] == shaded_hex(
                        fragments[j],
                        time,
                        seed,
                    )
        }),
    decreases fragments.len(),
{
    lemma_index_in_range(view.width as int, view.height as int, x, y);
    if fragments.len() > 0 {
        let i = view.index_of(x, y);
        let rest = fragments.drop_last();
        let before = drawn(view, rest, time, seed);
        let after = drawn(view, fragments, time, seed);
        let f = fragments.last();
        lemma_nearest_fragment_wins(view, rest, time, seed, x, y);
        lemma_drawing_keeps_nearest(view, rest, time, seed, i);
        let shaded = FramebufferView { current: shaded_hex(f, time, seed), ..before };
        if on_screen(before, f) && !lies_at(f, x, y) {
            lemma_pixels_stored_apart(
                view.width as int,
                view.height as int,
                x,
                y,
                f.position.x as int,
                f.position.y as int,
            );
        }
        lemma_nearer_wins(shaded, f.position.x as int, f.position.y as int, f.depth as int, i);
        assert forall|j: int|
            0 <= j < fragments.len() && lies_at(#[trigger] fragments[j], x, y) implies after.depths[i]
            <= fragments[j].depth by {
            if j < rest.len() {
                assert(rest[j] == fragments[j]);
            }
        }
        if after.depths[i] == before.depths[i] && after.colors[i] == before.colors[i] {
            if !(before.depths[i] == view.depths[i] && before.colors[i] == view.colors[i]) {
                let j = choose|j: int|
                    0 <= j < rest.len() && lies_at(#[trigger] rest[j], x, y) && before.depths[i]
                        == rest[j].depth && before.colors[i] == shaded_hex(rest[j], time, seed);
                assert(fragments[j] == rest[j]);
            }
        } else {
            assert(lies_at(fragments[fragments.len() - 1], x, y));
        }
    }
}

/// The number of triangles that cover the centre of pixel `(x, y)`.
pub open spec fn cover_count(triangles: Seq<(Vertex, Vertex, Vertex)>, x: int, y: int) -> nat
    decreases triangles.len(),
{
    if triangles.len() == 0 {
        0
    } else {
        cover_count(triangles.drop_last(), x, y) + if covers(
            triangles.last().0.transformed_position,
            triangles.last().1.transformed_position,
            triangles.last().2.transformed_position,
            x,
            y,
        ) {
            1nat
        } else {
            0nat
        }
    }
}

/// A pixel gets one fragment from every triangle that covers its centre,
/// and no other.
pub proof fn lemma_rasterized_count(triangles: Seq<(Vertex, Vertex, Vertex)>, x: int, y: int)
    ensures
        count_at(rasterized(triangles), x, y) == cover_count(triangles, x, y),
    decreases triangles.len(),
{
    if triangles.len() > 0 {
        let t = triangles.last();
        lemma_rasterized_count(triangles.drop_last(), x, y);
        lemma_count_concat(
            rasterized(triangles.drop_last()),
            triangle_fragments(t.0, t.1, t.2),
            x,
            y,
        );
        lemma_triangle_covers_exactly(t.0, t.1, t.2, x, y);
    }
}

/// No triangle covers a pixel that lies outside the bounding boxes of all
/// triangles.
pub proof fn lemma_outside_all_boxes(triangles: Seq<(Vertex, Vertex, Vertex)>, x: int, y: int)
    requires
        forall|k: int|
            0 <= k < triangles.len() ==> !in_bounding_box(
                (#[trigger] triangles[k]).0.transformed_position,
                triangles[k].1.transformed_position,
                triangles[k].2.transformed_position,
                x,
                y,
            ),
    ensures
        cover_count(triangles, x, y) == 0,
    decreases triangles.len(),
{
    if triangles.len() > 0 {
        let rest = triangles.drop_last();
        let t = triangles.last();
        assert forall|k: int| 0 <= k < rest.len() implies !in_bounding_box(
            (#[trigger] rest[k]).0.transformed_position,
            rest[k].1.transformed_position,
            rest[k].2.transformed_position,
            x,
            y,
        ) by {
            assert(rest[k] == triangles[k]);
        }
        lemma_outside_all_boxes(rest, x, y);
        assert(t == triangles[triangles.len() - 1]);
        if covers(t.0.transformed_position, t.1.transformed_position, t.2.transformed_position, x, y) {
            lemma_covered_in_bounding_box(
                t.0.transformed_position,
                t.1.transformed_position,
                t.2.transformed_position,
                x,
                y,
            );
        }
    }
}

/// A render pass writes only where a triangle is. It keeps the size and
/// the background of the picture, and a pixel whose centre no assembled
/// triangle covers keeps its colour and its depth: so does every pixel
/// left of, right of, above or below the picture's triangles.
pub proof fn lemma_render_writes_only_covered_pixels(
    view: FramebufferView,
    vertices: Seq<Vertex>,
    transformation: Mat4,
    model: Mat4,
    time: u32,
    seed: int,
    x: int,
    y: int,
)
    requires
        view.wf(),
        view.contains(x, y),
        cover_count(assembled(transformed_vertices(vertices, transformation, model)), x, y) == 0,
    ensures
        ({
            let after = render_spec(view, vertices, transformation, model, time, seed);
            &&& after.wf()
            &&& after.width == view.width
            &&& after.height == view.height
            &&& after.background == view.background
            &&& after.colors[view.index_of(x, y)] == view.colors[view.index_of(x, y)]
            &&& after.depths[view.index_of(x, y)] == view.depths[view.index_of(x, y)]
        }),
{
    let triangles = assembled(transformed_vertices(vertices, transformation, model));
    lemma_index_in_range(view.width as int, view.height as int, x, y);
    lemma_rasterized_count(triangles, x, y);
    lemma_drawing_touches_only_fragments(view, rasterized(triangles), time, seed, x, y);
    lemma_drawing_keeps_nearest(view, rasterized(triangles), time, seed, view.index_of(x, y));
}

/// A render pass writes inside the bounding boxes of its triangles: a
/// pixel that lies in the bounding box of no assembled triangle keeps its
/// colour and its depth.
pub proof fn lemma_render_stays_in_bounding_boxes(
    view: FramebufferView,
    vertices: Seq<Vertex>,
    transformation: Mat4,
    model: Mat4,
    time: u32,
    seed: int,
    x: int,
    y: int,
)
    requires
        view.wf(),
        view.contains(x, y),
        forall|k: int|
            0 <= k < assembled(transformed_vertices(vertices, transformation, model)).len()
                ==> !in_bounding_box(
                (#[trigger] assembled(
                    transformed_vertices(vertices, transformation, model),
                )[k]).0.transformed_position,
                assembled(
                    transformed_vertices(vertices, transformation, model),
                )[k].1.transformed_position,
                assembled(
                    transformed_vertices(vertices, transformation, model),
                )[k].2.transformed_position,
                x,
                y,
            ),
    ensures
        render_spec(view, vertices, transformation, model, time, seed).colors[view.index_of(x, y)]
            == view.colors[view.index_of(x, y)],
        render_spec(view, vertices, transformation, model, time, seed).depths[view.index_of(x, y)]
            == view.depths[view.index_of(x, y)],
{
    let triangles = assembled(transformed_vertices(vertices, transformation, model));
    lemma_outside_all_boxes(triangles, x, y);
    lemma_render_writes_only_covered_pixels(view, vertices, transformation, model, time, seed, x, y);
}

/// A render pass over one triangle writes inside the triangle's bounding
/// box: where the three vertices come through the vertex stage, every
/// pixel outside the box of their places on the screen keeps its colour
/// and its depth.
pub proof fn lemma_single_triangle_stays_in_its_box(
    view: FramebufferView,
    v1: Vertex,
    v2: Vertex,
    v3: Vertex,
    transformation: Mat4,
    model: Mat4,
    time: u32,
    seed: int,
    x: int,
    y: int,
)
    requires
        view.wf(),
        view.contains(x, y),
        vertex_shader_spec(v1, transformation, model) is Some,
        vertex_shader_spec(v2, transformation, model) is Some,
        vertex_shader_spec(v3, transformation, model) is Some,
        !in_bounding_box(
            vertex_shader_spec(v1, transformation, model)->0.transformed_position,
            vertex_shader_spec(v2, transformation, model)->0.transformed_position,
            vertex_shader_spec(v3, transformation, model)->0.transformed_position,
            x,
            y,
        ),
    ensures
        render_spec(view, seq![v1, v2, v3], transformation, model, time, seed).colors[view.index_of(
            x,
            y,
        )] == view.colors[view.index_of(x, y)],
        render_spec(view, seq![v1, v2, v3], transformation, model, time, seed).depths[view.index_of(
            x,
            y,
        )] == view.depths[view.index_of(x, y)],
{
    let vertices = seq![v1, v2, v3];
    let transformed = transformed_vertices(vertices, transformation, model);
    let a = vertex_shader_spec(v1, transformation, model)->0;
    let b = vertex_shader_spec(v2, transformation, model)->0;
    let c = vertex_shader_spec(v3, transformation, model)->0;
    assert(transformed.len() == 3);
    assert(transformed[0] == Some(a));
    assert(transformed[1] == Some(b));
    assert(transformed[2] == Some(c));
    assert(first_triangles(transformed, 0) =~= Seq::<(Vertex, Vertex, Vertex)>::empty());
    assert(triangle_at(transformed, 0) == seq![(a, b, c)]);
    assert(first_triangles(transformed, 1) =~= seq![(a, b, c)]);
    assert(assembled(transformed) =~= seq![(a, b, c)]);
    lemma_render_stays_in_bounding_boxes(view, vertices, transformation, model, time, seed, x, y);
}

/// One or two vertices after the last whole triangle change nothing.
pub proof fn lemma_trailing_vertices_dropped(
    vertices: Seq<Option<Vertex>>,
    trailing: Seq<Option<Vertex>>,
)
    requires
        vertices.len() % 3 == 0,
        trailing.len() < 3,
    ensures
        assembled(vertices + trailing) == assembled(vertices),
{
    let n = vertices.len() / 3;
    assert((vertices + trailing).len() / 3 == n);
    lemma_first_triangles_of_prefix(vertices, trailing, n);
}

proof fn lemma_first_triangles_of_prefix(
    vertices: Seq<Option<Vertex>>,
    trailing: Seq<Option<Vertex>>,
    count: nat,
)
    requires
        3 * count <= vertices.len(),
    ensures
        first_triangles(vertices + trailing, count) == first_triangles(vertices, count),
    decreases count,
{
    if count > 0 {
        lemma_first_triangles_of_prefix(vertices, trailing, (count - 1) as nat);
        let i = count - 1;
        assert((vertices + trailing)[3 * i] == vertices[3 * i]);
        assert((vertices + trailing)[3 * i + 1] == vertices[3 * i + 1]);
        assert((vertices + trailing)[3 * i + 2] == vertices[3 * i + 2]);
    }
}

/// A render pass over no vertices leaves the picture as it is.
pub proof fn lemma_render_nothing(
    view: FramebufferView,
    transformation: Mat4,
    model: Mat4,
    time: u32,
    seed: int,
)
    ensures
        render_spec(view, Seq::<Vertex>::empty(), transformation, model, time, seed) == view,
{
    let transformed = transformed_vertices(Seq::<Vertex>::empty(), transformation, model);
    assert(transformed.len() == 0);
    assert(assembled(transformed) =~= Seq::<(Vertex, Vertex, Vertex)>::empty());
}

} // verus!
