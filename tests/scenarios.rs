use shadowcast::vision_distance::Circle;
use shadowcast::Direction::{
    East, North, NorthEast, NorthWest, South, SouthEast, SouthWest, West,
};
use shadowcast::{Coord, Direction, DirectionBitmap, OpacityGrid, ShadowcastContext, Size};

fn input_from_strs(strs: &[&str]) -> (OpacityGrid, Coord) {
    let size = Size::new(strs[0].len() as u32, strs.len() as u32);
    let mut grid = OpacityGrid::new_filled(size, 0);
    let mut eye = None;
    for (i, row) in strs.iter().enumerate() {
        for (j, ch) in row.chars().enumerate() {
            let coord = Coord::new(j as i32, i as i32);
            let cell = match ch {
                '@' => {
                    eye = Some(coord);
                    0
                }
                '.' => 0,
                '#' => 255,
                '&' => 128,
                _ => panic!("unknown char"),
            };
            grid.set(coord, cell);
        }
    }
    (grid, eye.expect("no eye"))
}

fn glyph(directions: DirectionBitmap) -> char {
    let is = |d: Direction| directions == d.bitmap();
    let pair = |a: Direction, b: Direction| directions == a.bitmap().union(b.bitmap());
    if directions == DirectionBitmap::all() {
        ','
    } else if is(North) {
        '\u{2580}'
    } else if is(East) {
        '\u{2590}'
    } else if is(South) {
        '\u{2584}'
    } else if is(West) {
        '\u{258c}'
    } else if is(NorthEast) {
        '\u{259d}'
    } else if is(NorthWest) {
        '\u{2598}'
    } else if is(SouthWest) {
        '\u{2596}'
    } else if is(SouthEast) {
        '\u{2597}'
    } else if pair(North, East) {
        '\u{259c}'
    } else if pair(South, East) {
        '\u{259f}'
    } else if pair(South, West) {
        '\u{2599}'
    } else if pair(North, West) {
        '\u{259b}'
    } else {
        '?'
    }
}

fn render(size: Size, eye: Coord, seen: &[Option<DirectionBitmap>]) -> Vec<String> {
    let mut strings = Vec::new();
    for i in 0..size.height() {
        let mut string = String::new();
        for j in 0..size.width() {
            let coord = Coord::new(j as i32, i as i32);
            let ch = if coord == eye {
                '@'
            } else if let Some(directions) = seen[(i * size.width() + j) as usize] {
                glyph(directions)
            } else {
                '%'
            };
            string.push(ch);
        }
        strings.push(string);
    }
    strings
}

fn check_scenario(input_strs: &[&str], expected_output: &[&str]) {
    let (input, eye) = input_from_strs(input_strs);
    let size = Size::new(input_strs[0].len() as u32, input_strs.len() as u32);
    let mut ctx = ShadowcastContext::new();
    let mut seen = vec![None; (size.width() * size.height()) as usize];
    for (coord, bitmap, _visibility) in ctx.for_each(eye, &input, Circle::new(100), 255) {
        if coord.is_valid(size) {
            seen[(coord.y as u32 * size.width() + coord.x as u32) as usize] = Some(bitmap);
        }
    }
    let output_strings = render(size, eye, &seen);
    if output_strings != expected_output {
        panic!("Unexpected output:\n{:#?}", output_strings);
    }
}

#[test]
fn single() {
    check_scenario(&["@"], &["@"]);
}

#[test]
fn empty() {
    check_scenario(
        &[
            "...........",
            "...........",
            "...........",
            "...........",
            ".....@.....",
            "...........",
            "...........",
            "...........",
            "...........",
        ],
        &[
            ",,,,,,,,,,,",
            ",,,,,,,,,,,",
            ",,,,,,,,,,,",
            ",,,,,,,,,,,",
            ",,,,,@,,,,,",
            ",,,,,,,,,,,",
            ",,,,,,,,,,,",
            ",,,,,,,,,,,",
            ",,,,,,,,,,,",
        ],
    );
}

#[test]
fn full() {
    check_scenario(
        &[
            "###########",
            "###########",
            "###########",
            "###########",
            "#####@#####",
            "###########",
            "###########",
            "###########",
            "###########",
        ],
        &[
            "%%%%%%%%%%%",
            "%%%%%%%%%%%",
            "%%%%%%%%%%%",
            "%%%%▗▄▖%%%%",
            "%%%%▐@▌%%%%",
            "%%%%▝▀▘%%%%",
            "%%%%%%%%%%%",
            "%%%%%%%%%%%",
            "%%%%%%%%%%%",
        ],
    );
}
