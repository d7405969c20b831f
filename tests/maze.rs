use synacor::maze::{tile, Move, State, Tile};

fn start() -> State {
    State { pos: (0, 3), total: 22, moves: Vec::new() }
}

#[test]
fn tiles_of_the_grid() {
    assert_eq!(tile(0, 3), Tile::Num(22));
    assert_eq!(tile(3, 0).get_num(), 1);
    assert_eq!(tile(0, 0), Tile::Multi);
}

#[test]
fn moves_from_the_start() {
    let s = start();
    assert!(s.south().is_none());
    assert!(s.west().is_none());
    let n = s.north().unwrap();
    assert_eq!(n.pos, (0, 2));
    assert_eq!(n.total, 22);
    let e = n.east().unwrap();
    assert_eq!(e.pos, (1, 2));
    assert_eq!(e.total, 26);
    assert_eq!(e.moves, vec![Move::North, Move::East]);
    assert_eq!(s.next().len(), 2);
}

#[test]
fn vault_corner_is_the_end() {
    let s = State { pos: (3, 0), total: 30, moves: Vec::new() };
    assert!(s.is_exit());
    assert!(s.next().is_empty());
    let t = State { pos: (3, 0), total: 31, moves: Vec::new() };
    assert!(!t.is_exit());
}
