use raycaster::grid::{Cell, Grid};

fn room(side: usize) -> Vec<Vec<i32>> {
    let mut rows = Vec::new();
    for r in 0..side {
        let mut row = Vec::new();
        for c in 0..side {
            let border = r == 0 || c == 0 || r == side - 1 || c == side - 1;
            row.push(if border { 1 } else { 0 });
        }
        rows.push(row);
    }
    rows
}

#[test]
fn grid_construction_and_tile_size() {
    let g = Grid::new(&room(10), 500).expect("valid layout");
    assert_eq!(g.side(), 10);
    assert_eq!(g.tile_size(), 50);
}

#[test]
fn grid_cell_tags_follow_layout() {
    let g = Grid::new(&room(3), 300).expect("valid layout");
    assert_eq!(g.cell_at(0, 0), Cell::Wall);
    assert_eq!(g.cell_at(1, 1), Cell::Open);
    assert_eq!(g.cell_at(2, 1), Cell::Wall);
    assert!(g.is_wall(0, 2));
    assert!(!g.is_wall(1, 1));
}

#[test]
fn grid_refuses_bad_layouts() {
    // Not square.
    let mut jagged = room(3);
    jagged[1].push(0);
    assert!(Grid::new(&jagged, 300).is_none());
    // Empty.
    let empty: Vec<Vec<i32>> = Vec::new();
    assert!(Grid::new(&empty, 300).is_none());
    // Screen shorter than one unit per cell.
    assert!(Grid::new(&room(10), 5).is_none());
}

#[test]
fn border_check_accepts_walled_room() {
    let g = Grid::new(&room(5), 500).expect("valid layout");
    assert!(g.check_border_walled());
}

#[test]
fn border_check_rejects_open_border() {
    let mut layout = room(5);
    layout[0][2] = 0;
    let g = Grid::new(&layout, 500).expect("valid layout");
    assert!(!g.check_border_walled());
}

#[test]
fn nonbinary_values_are_open() {
    let mut layout = room(3);
    layout[1][1] = 7;
    let g = Grid::new(&layout, 300).expect("valid layout");
    assert_eq!(g.cell_at(1, 1), Cell::Open);
}
