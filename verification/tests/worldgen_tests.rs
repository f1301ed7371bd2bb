use wave_world::math::Pnt2;
use wave_world::math::Pnt3;
use wave_world::math::Vec3;
use wave_world::worldgen::generate_3d_vertices;
use wave_world::worldgen::load_level_from_desc;
use wave_world::worldgen::LevelError;
use wave_world::worldgen::Shape;
use wave_world::worldgen::Tile;
use wave_world::worldgen::Worldgen;

const ONE: i64 = 1_000_000;

fn p(x: i64, y: i64, z: i64) -> Pnt3 {
    Pnt3 { x: x * ONE, y: y * ONE, z: z * ONE }
}

fn t(u: i64, v: i64) -> Pnt2 {
    Pnt2 { x: u, y: v }
}

#[test]
fn a_new_level_is_flat() {
    let w = Worldgen::new((3, 2));
    assert_eq!(w.dims(), (3, 2));
    assert_eq!(w.tiles(), &vec![Tile { shape: Shape::Flat(0) }; 6]);
    assert!(Worldgen::new((0, 5)).tiles().is_empty());
    assert!(Worldgen::new((0, 0)).tiles().is_empty());
}

#[test]
fn a_level_from_its_description() {
    let level = load_level_from_desc(
        "# kinds of tile\n\
         block ch=. height=0\n\
         block ch=- height=2.5\r\n\
         \n\
         block ch=/ shape=l height=0 heightb=2.5\n\
         block ch=\\ shape=r height=0 heightb=2.5\n\
         block ch=^ shape=u height=1 heightb=3\n\
         block ch=v shape=d height=1 heightb=3\n\
         block ch=# shape=lu height=-1 heightb=+1\n\
         tiles\n\
         ./-\\\n\
         ^v#.\n",
    )
    .unwrap();
    assert_eq!(level.dims(), (4, 2));
    let shapes: Vec<Shape> = level.tiles().iter().map(|t| t.shape).collect();
    assert_eq!(
        shapes,
        vec![
            Shape::Flat(0),
            Shape::Left(0, 2_500_000),
            Shape::Flat(2_500_000),
            Shape::Right(0, 2_500_000),
            Shape::Up(ONE, 3 * ONE),
            Shape::Down(ONE, 3 * ONE),
            Shape::LeftUp(-ONE, ONE),
            Shape::Flat(0),
        ]
    );
}

#[test]
fn levels_without_a_map() {
    let empty = load_level_from_desc("").unwrap();
    assert_eq!(empty.dims(), (0, 0));
    assert!(empty.tiles().is_empty());
    let only_blocks = load_level_from_desc("block ch=a height=1\n# done\n\n").unwrap();
    assert_eq!(only_blocks.dims(), (0, 0));
    let no_rows = load_level_from_desc("tiles\n\n  \n").unwrap();
    assert_eq!(no_rows.dims(), (0, 0));
}

#[test]
fn later_blocks_and_later_values_win() {
    let level = load_level_from_desc(
        "block ch=a height=1\n\
         block ch=a height=2 height=3 shape=l shape=flat\n\
         block height=4 ch=b ch=c\n\
         block ch=dd height=5 colour=red\n\
         tiles\n\
         acd\n",
    )
    .unwrap();
    let shapes: Vec<Shape> = level.tiles().iter().map(|t| t.shape).collect();
    assert_eq!(shapes, vec![Shape::Flat(3 * ONE), Shape::Flat(4 * ONE), Shape::Flat(5 * ONE)]);
    assert_eq!(level.dims(), (3, 1));
}

#[test]
fn in_the_map_a_hash_is_a_tile() {
    let level = load_level_from_desc("block ch=# height=1\ntiles\n#\n  #  \n\n#\n").unwrap();
    assert_eq!(level.dims(), (1, 3));
    assert_eq!(level.tiles(), &vec![Tile { shape: Shape::Flat(ONE) }; 3]);
}

#[test]
fn the_first_bad_line_of_a_level_is_named() {
    let bad = |desc: &str| load_level_from_desc(desc).unwrap_err().line;
    assert_eq!(bad("wall ch=a height=1"), 0);
    assert_eq!(bad("# fine\nblock ch=a"), 1);
    assert_eq!(bad("block height=1"), 0);
    assert_eq!(bad("block ch= height=1"), 0);
    assert_eq!(bad("block ch=a height=x"), 0);
    assert_eq!(bad("block ch=a height=1 extra"), 0);
    assert_eq!(bad("block ch=a shape=l height=1"), 0);
    assert_eq!(bad("block ch=a shape=l heightb=1"), 0);
    assert_eq!(bad("block ch=a shape=slope height=1 heightb=2"), 0);
    assert_eq!(bad("block ch=a shape=L height=1 heightb=2"), 0);
    assert_eq!(bad("tiles now"), 0);
    assert_eq!(bad("tiles\na"), 1);
    assert_eq!(bad("block ch=a height=1\ntiles\naa\naaa"), 3);
    assert_eq!(bad("block ch=a height=1\ntiles\naa\na"), 3);
    assert_eq!(bad("block ch=a height=1\ntiles\naa\nab"), 3);
    assert_eq!(bad("block ch=a height=1\ntiles\na a"), 2);
    assert_eq!(bad("block ch=a height=1\ntiles\naa\n# aa"), 3);
    assert_eq!(bad("tiles\ntiles"), 1);
    assert_eq!(load_level_from_desc("nonsense").err(), Some(LevelError { line: 0 }));
}

#[test]
fn a_flat_tile_is_a_block_of_thirty_vertices() {
    let level = load_level_from_desc("block ch=a height=2\ntiles\na\n").unwrap();
    let (pos, nor, tex) = generate_3d_vertices(&level);
    assert_eq!(
        pos,
        vec![
            // The top.
            p(0, 2, 0), p(0, 2, 10), p(10, 2, 10), p(10, 2, 10), p(10, 2, 0), p(0, 2, 0),
            // The side that faces down x.
            p(0, 2, 10), p(0, 0, 10), p(0, 0, 0), p(0, 0, 0), p(0, 2, 0), p(0, 2, 10),
            // The side that faces up x.
            p(10, 2, 10), p(10, 0, 10), p(10, 0, 0), p(10, 0, 0), p(10, 2, 0), p(10, 2, 10),
            // The side that faces down z.
            p(10, 2, 0), p(10, 0, 0), p(0, 0, 0), p(0, 0, 0), p(0, 2, 0), p(10, 2, 0),
            // The side that faces up z.
            p(10, 2, 10), p(10, 0, 10), p(0, 0, 10), p(0, 0, 10), p(0, 2, 10), p(10, 2, 10),
        ]
    );
    let mut normals = Vec::new();
    for n in [
        Vec3::new(0, ONE, 0),
        Vec3::new(-ONE, 0, 0),
        Vec3::new(ONE, 0, 0),
        Vec3::new(0, 0, -ONE),
        Vec3::new(0, 0, ONE),
    ] {
        normals.extend(vec![n; 6]);
    }
    assert_eq!(nor, normals);
    let half = 500_000;
    assert_eq!(
        tex,
        vec![
            t(0, 0), t(0, ONE), t(half, ONE), t(half, ONE), t(half, 0), t(0, 0),
            t(ONE, ONE), t(ONE, 0), t(half, 0), t(half, 0), t(half, ONE), t(ONE, ONE),
            t(half, ONE), t(half, 0), t(ONE, 0), t(ONE, 0), t(ONE, ONE), t(half, ONE),
            t(half, ONE), t(half, 0), t(ONE, 0), t(ONE, 0), t(ONE, ONE), t(half, ONE),
            t(ONE, ONE), t(ONE, 0), t(half, 0), t(half, 0), t(half, ONE), t(ONE, ONE),
        ]
    );
}

#[test]
fn slopes_raise_their_corners() {
    let tops = |shape: &str| -> Vec<i64> {
        let desc = format!("block ch=a shape={} height=1 heightb=4\ntiles\na\n", shape);
        let (pos, _, _) = generate_3d_vertices(&load_level_from_desc(&desc).unwrap());
        // Near corner, along z, across, along x.
        vec![pos[0].y / ONE, pos[1].y / ONE, pos[2].y / ONE, pos[4].y / ONE]
    };
    assert_eq!(tops("l"), vec![1, 1, 4, 4]);
    assert_eq!(tops("r"), vec![4, 4, 1, 1]);
    assert_eq!(tops("u"), vec![1, 4, 4, 1]);
    assert_eq!(tops("d"), vec![4, 1, 1, 4]);
    assert_eq!(tops("lu"), vec![1, 1, 4, 1]);
    assert_eq!(tops("flat"), vec![1, 1, 1, 1]);
}

#[test]
fn tiles_come_column_by_column() {
    let level = load_level_from_desc(
        "block ch=a height=1\nblock ch=b height=2\nblock ch=c height=3\ntiles\nab\nca\nbc\n",
    )
    .unwrap();
    assert_eq!(level.dims(), (2, 3));
    let (pos, nor, tex) = generate_3d_vertices(&level);
    assert_eq!(pos.len(), 180);
    assert_eq!(nor.len(), 180);
    assert_eq!(tex.len(), 180);
    // The first vertex of each block: its near top corner.
    let firsts: Vec<Pnt3> = (0..6).map(|b| pos[30 * b]).collect();
    assert_eq!(
        firsts,
        vec![p(0, 1, 0), p(0, 3, 10), p(0, 2, 20), p(10, 2, 0), p(10, 1, 10), p(10, 3, 20)]
    );
    let empty = generate_3d_vertices(&Worldgen::new((0, 0)));
    assert!(empty.0.is_empty() && empty.1.is_empty() && empty.2.is_empty());
}
