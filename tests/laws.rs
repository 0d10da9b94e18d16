use shadowcast::vision_distance::{Circle, Diamond, Square};
use shadowcast::{
    Coord, Direction, DirectionBitmap, InputGrid, OpacityGrid, ShadowcastContext, Sighting,
    Size, VisionDistance,
};

fn grid_from(rows: &[&str]) -> (OpacityGrid, Coord) {
    let size = Size::new(rows[0].len() as u32, rows.len() as u32);
    let mut grid = OpacityGrid::new_filled(size, 0);
    let mut eye = Coord::new(0, 0);
    for (y, row) in rows.iter().enumerate() {
        for (x, ch) in row.chars().enumerate() {
            let coord = Coord::new(x as i32, y as i32);
            match ch {
                '@' => eye = coord,
                '#' => grid.set(coord, 255),
                '&' => grid.set(coord, 128),
                _ => {}
            }
        }
    }
    (grid, eye)
}

const ROOM: [&str; 9] = [
    "..........#",
    "......#...#",
    "..##..#...#",
    "..........#",
    "...@......#",
    "......#...#",
    "##....#...#",
    "..........#",
    "####..##..#",
];

fn cells(seen: &[Sighting]) -> Vec<Coord> {
    seen.iter().map(|s| s.0).collect()
}

#[test]
fn origin_is_reported_first_with_every_edge() {
    let (grid, eye) = grid_from(&ROOM);
    let mut ctx = ShadowcastContext::new();
    let seen = ctx.for_each(eye, &grid, Circle::new(100), 200);
    assert_eq!(seen[0], (eye, DirectionBitmap::all(), 200));
}

#[test]
fn repeated_calls_report_the_same() {
    let (grid, eye) = grid_from(&ROOM);
    let mut ctx = ShadowcastContext::new();
    let first = ctx.for_each(eye, &grid, Circle::new(4), 255);
    let second = ctx.for_each(eye, &grid, Circle::new(4), 255);
    let mut fresh = ShadowcastContext::new();
    let third = fresh.for_each(eye, &grid, Circle::new(4), 255);
    assert_eq!(first, second);
    assert_eq!(first, third);
}

#[test]
fn wider_range_only_adds_cells() {
    let (grid, eye) = grid_from(&ROOM);
    let mut ctx = ShadowcastContext::new();
    let mut previous: Vec<Sighting> = Vec::new();
    for distance in 0..8u32 {
        let seen = ctx.for_each(eye, &grid, Circle::new(distance), 255);
        for s in &previous {
            assert!(seen.contains(s), "{:?} lost at distance {}", s, distance);
        }
        previous = seen;
    }
    let near = ctx.for_each(eye, &grid, Diamond::new(2), 255);
    let far = ctx.for_each(eye, &grid, Diamond::new(5), 255);
    assert!(near.len() < far.len());
    assert!(near.iter().all(|s| far.contains(s)));
}

#[test]
fn nothing_outside_range_is_reported() {
    let (grid, eye) = grid_from(&ROOM);
    let mut ctx = ShadowcastContext::new();
    let seen = ctx.for_each(eye, &grid, Circle::new(2), 255);
    for s in &seen[1..] {
        let dx = s.0.x - eye.x;
        let dy = s.0.y - eye.y;
        assert!(dx * dx + dy * dy <= 4, "{:?} out of range", s);
    }
    assert!(cells(&seen).contains(&Coord::new(eye.x + 2, eye.y)));
    assert!(!cells(&seen).contains(&Coord::new(eye.x + 2, eye.y + 1)));
    let zero = ctx.for_each(eye, &grid, Square::new(0), 255);
    assert_eq!(zero, vec![(eye, DirectionBitmap::all(), 255)]);
}

#[test]
fn every_reported_cell_shows_an_edge() {
    let (grid, eye) = grid_from(&ROOM);
    let mut ctx = ShadowcastContext::new();
    let seen = ctx.for_each(eye, &grid, Circle::new(100), 255);
    assert!(seen.len() > 1);
    assert!(seen.iter().all(|s| !s.1.is_empty()));
}

#[test]
fn translucent_cells_reduce_visibility() {
    let (grid, eye) = grid_from(&["@.&&."]);
    let mut ctx = ShadowcastContext::new();
    let seen = ctx.for_each(eye, &grid, Circle::new(100), 255);
    assert_eq!(
        seen,
        vec![
            (eye, DirectionBitmap::all(), 255),
            (Coord::new(1, 0), DirectionBitmap::all(), 255),
            (Coord::new(2, 0), DirectionBitmap::all(), 255),
            (Coord::new(3, 0), Direction::West.bitmap(), 127),
        ]
    );
}

#[test]
fn wall_shows_its_facing_edge_only() {
    let (grid, eye) = grid_from(&["@#."]);
    let mut ctx = ShadowcastContext::new();
    let seen = ctx.for_each(eye, &grid, Circle::new(100), 255);
    assert_eq!(
        seen,
        vec![
            (eye, DirectionBitmap::all(), 255),
            (Coord::new(1, 0), Direction::West.bitmap(), 255),
        ]
    );
}

#[test]
fn translucent_column_leaves_top_block_clear() {
    let mut rows = vec!["@...................."; 9];
    rows[1] = ".....................";
    let column = "........&............";
    for _ in 0..16 {
        rows.push(column);
    }
    rows[0] = "@....................";
    let (grid, eye) = grid_from(&rows);
    let mut ctx = ShadowcastContext::new();
    let seen = ctx.for_each(eye, &grid, Circle::new(100), 255);
    for y in 0..9 {
        for x in 0..21 {
            let coord = Coord::new(x, y);
            if coord != eye {
                assert!(
                    seen.iter().any(|s| s.0 == coord && s.1 == DirectionBitmap::all()),
                    "{:?} not seen whole",
                    coord
                );
            }
        }
    }
    let first = seen.iter().find(|s| s.0 == Coord::new(8, 9)).expect("first translucent cell");
    assert_eq!(first.1, DirectionBitmap::all());
}

#[test]
fn vision_shapes() {
    let circle = Circle::new(5);
    assert!(circle.in_range(Coord::new(3, -4)));
    assert!(!circle.in_range(Coord::new(4, 4)));
    let square = Square::new(2);
    assert!(square.in_range(Coord::new(-2, 2)));
    assert!(!square.in_range(Coord::new(3, 0)));
    let diamond = Diamond::new(3);
    assert!(diamond.in_range(Coord::new(2, -1)));
    assert!(!diamond.in_range(Coord::new(2, 2)));
    assert!(Circle::new(0).in_range(Coord::new(0, 0)));
    assert!(Circle::new(65535).in_range(Coord::new(65535, 0)));
    assert!(!Circle::new(65535).in_range(Coord::new(i32::MIN, i32::MIN)));
}

#[test]
fn bitmap_operations() {
    let n = Direction::North.bitmap();
    let e = Direction::East.bitmap();
    let ne = Direction::NorthEast.bitmap();
    assert_eq!(n.raw, 1);
    assert_eq!(Direction::NorthWest.bitmap().raw, 0x80);
    let both = n.union(e);
    assert!(both.contains(Direction::North) && both.contains(Direction::East));
    assert!(!both.contains(Direction::South));
    assert_eq!(both.union(ne).intersection(DirectionBitmap::all_cardinal()), both);
    assert_eq!(
        DirectionBitmap::all_cardinal(),
        n.union(e).union(Direction::South.bitmap()).union(Direction::West.bitmap())
    );
    assert!(DirectionBitmap::empty().is_empty());
    assert!(DirectionBitmap::all().is_full());
    assert!(!both.is_full() && !both.is_empty());
}

#[test]
fn grid_stores_opacity_by_cell() {
    let size = Size::new(3, 2);
    let mut grid = OpacityGrid::new_filled(size, 7);
    grid.set(Coord::new(2, 1), 200);
    assert_eq!(grid.size(), size);
    assert_eq!(grid.get_opacity(Coord::new(2, 1)), 200);
    assert_eq!(grid.get_opacity(Coord::new(1, 1)), 7);
    assert!(Coord::new(2, 1).is_valid(size));
    assert!(!Coord::new(3, 0).is_valid(size));
    assert!(!Coord::new(0, -1).is_valid(size));
}

#[test]
fn sight_is_mutual_in_open_and_walled_rooms() {
    let open = [
        "...........",
        "...........",
        "...........",
        "...........",
        ".....@.....",
        "...........",
        "...........",
        "...........",
        "...........",
    ];
    let walled = [
        "###########",
        "###########",
        "###########",
        "###########",
        "#####@#####",
        "###########",
        "###########",
        "###########",
        "###########",
    ];
    for rows in [open, walled] {
        let (grid, eye) = grid_from(&rows);
        let mut ctx = ShadowcastContext::new();
        for s in ctx.for_each(eye, &grid, Circle::new(100), 255) {
            if grid.get_opacity(s.0) == 0 {
                let back = ctx.for_each(s.0, &grid, Circle::new(100), 255);
                assert!(cells(&back).contains(&eye), "{:?} does not see the eye", s.0);
            }
        }
    }
}
