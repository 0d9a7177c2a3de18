use rasterizer::bitmap::Bitmap;
use rasterizer::edge::Edge;
use rasterizer::interpolant::{ScreenVert, UV};
use rasterizer::mesh_loader::Mesh;
use rasterizer::render_system::{Frame, RenderSystem, Renderable};
use rasterizer::scanline::{
    new_vertex, triangle_signed_area, xy_cross_product_magnitude, Mat4x, Scanline, Vec3x,
};
use rasterizer::Rat;

const C00: [u8; 4] = [10, 0, 0, 255];
const C10: [u8; 4] = [0, 20, 0, 255];
const C01: [u8; 4] = [0, 0, 30, 255];
const C11: [u8; 4] = [40, 40, 0, 255];
const BG: [u8; 4] = [0, 0, 0, 0];

fn checker() -> Bitmap {
    Bitmap {
        pixels: vec![C00, C10, C01, C11],
        width: 2,
        height: 2,
    }
}

fn identity_matrix() -> Mat4x {
    // w = 1 for every vertex: screen coordinates equal model coordinates.
    Mat4x {
        m: [
            [2, 0, 0, 0],
            [0, 2, 0, 0],
            [0, 0, 2, 0],
            [0, 0, 0, 2],
        ],
        d: 2,
    }
}

fn w_from_z_matrix() -> Mat4x {
    // w = z: screen x,y are x/z, y/z and 1/w varies per vertex.
    Mat4x {
        m: [
            [2, 0, 0, 0],
            [0, 2, 0, 0],
            [0, 0, 2, 0],
            [0, 0, 2, 0],
        ],
        d: 2,
    }
}

/// Model-space corner triangle covering the unit uv square:
/// (0,0) uv (0,0); (10,0) uv (1,0); (0,10) uv (0,1); all at w = 1.
fn corner_mesh() -> Mesh {
    let positions = vec![
        Vec3x { xn: 0, yn: 0, zn: 8 },
        Vec3x { xn: 80, yn: 0, zn: 8 },
        Vec3x { xn: 0, yn: 80, zn: 8 },
    ];
    let uvs = vec![
        UV { un: 0, vn: 0 },
        UV { un: 256, vn: 0 },
        UV { un: 0, vn: 256 },
    ];
    // Slot order (v0, v2, v1) so the facing test keeps the triangle.
    let indices = vec![0usize, 2, 1];
    Mesh::from_parts(positions, indices, uvs).expect("mesh")
}

fn render_to_frame(mesh: Mesh, tex: Bitmap, mat: Mat4x, w: usize, h: usize) -> Frame {
    let sl = Scanline::new(mesh, tex, mat);
    let mut frame = Frame::new(w, h);
    sl.render(&mut frame);
    frame
}

fn at(frame: &Frame, x: usize, y: usize) -> [u8; 4] {
    frame.data[y * frame.width + x]
}

#[test]
fn rat_rounding() {
    assert_eq!(Rat { n: -3, d: 2 }.ceil(), -1);
    assert_eq!(Rat { n: -3, d: 2 }.floor(), -2);
    assert_eq!(Rat { n: -3, d: 2 }.round(), -1);
    assert_eq!(Rat { n: 7, d: 2 }.ceil(), 4);
    assert_eq!(Rat { n: 7, d: 2 }.floor(), 3);
    assert_eq!(Rat { n: 7, d: 2 }.round(), 4);
    assert_eq!(Rat { n: 10, d: 5 }.ceil(), 2);
    assert_eq!(Rat { n: 0, d: 3 }.floor(), 0);
}

#[test]
fn bitmap_nearest_sample() {
    let tex = checker();
    // uv (0.5, 0.5) rounds to texel (1, 1).
    let half = Rat { n: 1, d: 2 };
    assert_eq!(tex.get_pixel(&half, &half), C11);
    // uv (0.2, 0.7) rounds to texel (0, 1).
    assert_eq!(tex.get_pixel(&Rat { n: 1, d: 5 }, &Rat { n: 7, d: 10 }), C01);
    // Corners.
    assert_eq!(tex.get_pixel(&Rat { n: 0, d: 1 }, &Rat { n: 0, d: 1 }), C00);
    assert_eq!(tex.get_pixel(&Rat { n: 1, d: 1 }, &Rat { n: 0, d: 1 }), C10);
}

#[test]
fn bitmap_constructors() {
    let b = Bitmap::new(3, 5);
    assert_eq!(b.pixels.len(), 15);
    assert!(b.pixels.iter().all(|p| *p == [0, 0, 0, 0]));
    let r = Bitmap::new_random(4, 4);
    assert_eq!(r.pixels.len(), 16);
}

#[test]
fn signed_area_winding_flip() {
    // Handedness: swapping two vertices flips the sign of the area.
    let a = ScreenVert { xn: 0, yn: 0, zn: 8, iwn: 256 };
    let b = ScreenVert { xn: 80, yn: 0, zn: 8, iwn: 256 };
    let c = ScreenVert { xn: 0, yn: 80, zn: 8, iwn: 256 };
    let ar1 = triangle_signed_area(&a, &b, &c);
    let ar2 = triangle_signed_area(&a, &c, &b);
    assert_eq!(ar1.n, -ar2.n);
    assert_eq!(ar1.d, ar2.d);
    // Concrete value: twice the area times SCALE^2, over 2*SCALE^2.
    assert_eq!(ar1.n, 6400);
    assert_eq!(ar1.d, 128);
}

#[test]
fn cross_product_magnitude_value() {
    let v1 = Vec3x { xn: 80, yn: 0, zn: 0 };
    let v2 = Vec3x { xn: 0, yn: 80, zn: 0 };
    let r = xy_cross_product_magnitude(&v1, &v2);
    assert_eq!(r.n, 6400);
    assert_eq!(r.d, 128);
}

#[test]
fn new_vertex_has_unit_w() {
    let v = new_vertex(&Vec3x { xn: 3, yn: -4, zn: 5 });
    assert_eq!((v.xn, v.yn, v.zn, v.wn), (3, -4, 5, 8));
}

fn sorted_screen_triangle() -> ([ScreenVert; 3], [UV; 3]) {
    // Sorted by y: (0,0), (8,5), (0,10), all in front, w = 1.
    (
        [
            ScreenVert { xn: 0, yn: 0, zn: 8, iwn: 256 },
            ScreenVert { xn: 64, yn: 40, zn: 8, iwn: 256 },
            ScreenVert { xn: 0, yn: 80, zn: 8, iwn: 256 },
        ],
        [
            UV { un: 256, vn: 0 },
            UV { un: 0, vn: 256 },
            UV { un: 0, vn: 0 },
        ],
    )
}

#[test]
fn row_coverage_of_edge_pairs() {
    // Rows [0,10) split exactly at the middle vertex's row 5:
    // no gap and no overlap between the two pairs' row ranges.
    let (ovs, uvs) = sorted_screen_triangle();
    let long = Edge::new(&ovs, 0, 2, 0, 10, &uvs);
    let top_mid = Edge::new(&ovs, 0, 1, 0, 10, &uvs);
    let mid_bot = Edge::new(&ovs, 1, 2, 0, 10, &uvs);
    assert_eq!((long.y_start(), long.y_end()), (0, 10));
    assert_eq!((top_mid.y_start(), top_mid.y_end()), (0, 5));
    assert_eq!((mid_bot.y_start(), mid_bot.y_end()), (5, 10));
}

#[test]
fn interpolant_reproduces_vertex_attribute() {
    // Gradient correctness on concrete values: at the start vertex's
    // own row (zero prestep) the edge interpolants hold exactly the
    // vertex's u/w, v/w and 1/w.
    let (ovs, uvs) = sorted_screen_triangle();
    let long = Edge::new(&ovs, 0, 2, 0, 10, &uvs);
    let (uw, vw) = long.uv();
    let iw = long.inverse_w();
    // Vertex 0: u = 1, v = 0, 1/w = 1.
    assert_eq!(uw.n, uw.d); // u/w == 1
    assert_eq!(vw.n, 0); // v/w == 0
    assert_eq!(iw.n, iw.d); // 1/w == 1
    // One row down the long edge (x = 0, y = 1): the plane's exact
    // values there are u = 0.9 and v = 0.
    let mut long2 = Edge::new(&ovs, 0, 2, 0, 10, &uvs);
    long2.step();
    let (uw2, vw2) = long2.uv();
    assert_eq!(uw2.n * 10, uw2.d * 9);
    assert_eq!(vw2.n, 0);
}

#[test]
fn end_to_end_checkerboard_triangle() {
    // The unit-square-mapped corner triangle against a 2x2 checker:
    // inside pixels sample the texel their uv rounds to.
    let frame = render_to_frame(corner_mesh(), checker(), identity_matrix(), 16, 16);
    // uv at pixel (x, y) is (x/10, y/10).
    assert_eq!(at(&frame, 2, 2), C00); // uv (0.2, 0.2) -> texel (0,0)
    assert_eq!(at(&frame, 6, 2), C10); // uv (0.6, 0.2) -> texel (1,0)
    assert_eq!(at(&frame, 2, 6), C01); // uv (0.2, 0.6) -> texel (0,1)
    assert_eq!(at(&frame, 5, 4), C10); // uv (0.5, 0.4): half rounds up
    // The hypotenuse itself is excluded by the fill convention: the
    // span of row y is [0, 10 - y), so (5,5) stays background.
    assert_eq!(at(&frame, 5, 5), BG);
    assert_eq!(at(&frame, 0, 0), C00);
    // Outside the triangle nothing is written.
    assert_eq!(at(&frame, 11, 1), BG);
    assert_eq!(at(&frame, 1, 11), BG);
}

#[test]
fn winding_order_cull() {
    // The opposite winding of the same triangle is back-facing and
    // culled: nothing is drawn.
    let mut mesh = corner_mesh();
    mesh.indices = vec![0, 1, 2];
    let frame = render_to_frame(mesh, checker(), identity_matrix(), 16, 16);
    for y in 0..16 {
        for x in 0..16 {
            assert_eq!(at(&frame, x, y), BG);
        }
    }
}

#[test]
fn cyclic_vertex_order_same_pixels() {
    // Handedness invariance: a cyclic shift of the vertex order keeps
    // the winding, and the filled pixels are identical.
    let frame1 = render_to_frame(corner_mesh(), checker(), identity_matrix(), 16, 16);
    let mut mesh2 = corner_mesh();
    mesh2.indices = vec![1, 0, 2];
    let frame2 = render_to_frame(mesh2, checker(), identity_matrix(), 16, 16);
    assert_eq!(frame1.data, frame2.data);
}

#[test]
fn perspective_correct_interpolation() {
    // Vertices at w = (1, 2, 4): screen positions (0,0), (10,0), (0,10)
    // with uv (0,0), (1,0), (0,1). At pixel (5,0) the perspective-
    // correct u is (0.5 * 0.5) / (0.5 * 1 + 0.5 * 0.5) = 1/3, which
    // rounds to texel column 0; screen-linear interpolation would give
    // u = 0.5 and texel column 1.
    let positions = vec![
        Vec3x { xn: 0, yn: 0, zn: 8 },
        Vec3x { xn: 160, yn: 0, zn: 16 },
        Vec3x { xn: 0, yn: 320, zn: 32 },
    ];
    let uvs = vec![
        UV { un: 0, vn: 0 },
        UV { un: 256, vn: 0 },
        UV { un: 0, vn: 256 },
    ];
    let indices = vec![0usize, 2, 1];
    let mesh = Mesh::from_parts(positions, indices, uvs).expect("mesh");
    let frame = render_to_frame(mesh, checker(), w_from_z_matrix(), 16, 16);
    assert_eq!(at(&frame, 5, 0), C00);
    // Closer to the near vertex the corrected u stays below 0.5 even
    // longer: pixel (6,0) has u = (0.6*0.5)/(0.4 + 0.3) = 3/7 -> 0.
    assert_eq!(at(&frame, 6, 0), C00);
    // Very near the far end of the row the texel column flips: at
    // (9,0), u = (0.9*0.5)/(0.1 + 0.45) = 9/11 -> 1.
    assert_eq!(at(&frame, 9, 0), C10);
}

#[test]
fn flat_triangle_draws_nothing() {
    // Degenerate guard: all three vertices share one y; the signed
    // area is zero, the triangle is culled, and no row is produced.
    let positions = vec![
        Vec3x { xn: 0, yn: 40, zn: 8 },
        Vec3x { xn: 80, yn: 40, zn: 8 },
        Vec3x { xn: 40, yn: 40, zn: 8 },
    ];
    let uvs = vec![
        UV { un: 0, vn: 0 },
        UV { un: 256, vn: 0 },
        UV { un: 0, vn: 256 },
    ];
    let mesh = Mesh::from_parts(positions, vec![0, 1, 2], uvs).expect("mesh");
    let frame = render_to_frame(mesh, checker(), identity_matrix(), 16, 16);
    for y in 0..16 {
        for x in 0..16 {
            assert_eq!(at(&frame, x, y), BG);
        }
    }
}

#[test]
fn behind_camera_triangle_skipped() {
    // A vertex with w <= 0 fails the transform guard; the triangle is
    // skipped rather than drawn.
    let positions = vec![
        Vec3x { xn: 0, yn: 0, zn: -8 },
        Vec3x { xn: 160, yn: 0, zn: 16 },
        Vec3x { xn: 0, yn: 320, zn: 32 },
    ];
    let uvs = vec![
        UV { un: 0, vn: 0 },
        UV { un: 256, vn: 0 },
        UV { un: 0, vn: 256 },
    ];
    let mesh = Mesh::from_parts(positions, vec![0, 2, 1], uvs).expect("mesh");
    let frame = render_to_frame(mesh, checker(), w_from_z_matrix(), 16, 16);
    for y in 0..16 {
        for x in 0..16 {
            assert_eq!(at(&frame, x, y), BG);
        }
    }
}

#[test]
fn mesh_from_parts_rejects_bad_input() {
    let good_pos = vec![Vec3x { xn: 0, yn: 0, zn: 0 }];
    let good_uv = vec![UV { un: 0, vn: 0 }];
    // Index out of range.
    assert!(Mesh::from_parts(good_pos.clone(), vec![1], good_uv.clone()).is_none());
    // Arrays not parallel.
    assert!(Mesh::from_parts(good_pos.clone(), vec![], vec![]).is_none());
    // Texture coordinate outside the unit square.
    assert!(Mesh::from_parts(good_pos.clone(), vec![0], vec![UV { un: 300, vn: 0 }]).is_none());
    // Position out of range.
    assert!(
        Mesh::from_parts(vec![Vec3x { xn: 0x20_0000, yn: 0, zn: 0 }], vec![0], good_uv.clone())
            .is_none()
    );
    // A valid single-vertex mesh passes.
    assert!(Mesh::from_parts(good_pos, vec![0, 0, 0], good_uv).is_some());
}

#[test]
fn mesh_new_dedups_and_fans() {
    // Two quads sharing an edge: 8 vertex references, 6 unique pairs,
    // 2 polygons fanned into 2 triangles each.
    let raw_positions = vec![
        Vec3x { xn: 0, yn: 0, zn: 0 },
        Vec3x { xn: 8, yn: 0, zn: 0 },
        Vec3x { xn: 8, yn: 8, zn: 0 },
        Vec3x { xn: 0, yn: 8, zn: 0 },
        Vec3x { xn: 16, yn: 0, zn: 0 },
        Vec3x { xn: 16, yn: 8, zn: 0 },
    ];
    let raw_uvs = vec![UV { un: 0, vn: 0 }, UV { un: 256, vn: 256 }];
    let polys: Vec<Vec<(usize, usize)>> = vec![
        vec![(0, 0), (1, 0), (2, 1), (3, 1)],
        vec![(1, 0), (4, 0), (5, 1), (2, 1)],
    ];
    let (m, _) = Mesh::new(&polys, &raw_positions, &raw_uvs);
    let m = m.expect("mesh");
    // 6 shared pairs survive dedup: (1,0) and (2,1) occur twice.
    assert_eq!(m.positions.len(), 6);
    assert_eq!(m.uvs.len(), 6);
    // Two fans of two triangles each.
    assert_eq!(m.indices.len(), 12);
    // First quad fans as (0,1,2), (0,2,3) in interned order.
    assert_eq!(&m.indices[0..6], &[0, 1, 2, 0, 2, 3]);
    // The shared vertices of the second quad reuse interned slots.
    assert_eq!(&m.indices[6..12], &[1, 4, 5, 1, 5, 2]);
    // Gathered data follows the pairs.
    assert_eq!(m.positions[1].xn, 8);
    assert_eq!(m.uvs[2].un, 256);
    // A polygon with too few vertices is rejected.
    let bad: Vec<Vec<(usize, usize)>> = vec![vec![(0, 0), (1, 0)]];
    assert!(Mesh::new(&bad, &raw_positions, &raw_uvs).0.is_none());
    // A polygon pointing outside the tables is rejected.
    let oob: Vec<Vec<(usize, usize)>> = vec![vec![(0, 0), (1, 0), (9, 0)]];
    assert!(Mesh::new(&oob, &raw_positions, &raw_uvs).0.is_none());
}

#[test]
fn display_carries_dimensions() {
    let d = rasterizer::display::create_display(360, 240);
    assert_eq!(d.width, 360);
    assert_eq!(d.height, 240);
}
