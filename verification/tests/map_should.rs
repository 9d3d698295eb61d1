use gridbot::model::Entity::{Banana, Empty, Player, Wall};
use gridbot::model::{Entity, Grid, Move, PlayerMove};

use std::collections::HashMap;

fn content(matrix: [[Entity; 3]; 3]) -> Vec<Vec<Entity>> {
    matrix.into_iter().map(|row| row.to_vec()).collect()
}

fn assert_content(expected: [[Entity; 3]; 3], map: Grid) {
    assert_eq!(content(expected), map.content);
}

fn new_map(matrix: [[Entity; 3]; 3]) -> Grid {
    let content = content(matrix);
    Grid { content }
}

#[test]
fn deserialize() {
    let data = r#"{
            "map": [
                [1, 2, 3],
                [4, 5, 6],
                [7, 8, 9]
            ]
        }"#;
    let payload: HashMap<String, Vec<Vec<i64>>> =
        serde_json::from_str(data).expect("Can't parse map resource");
    let map = Grid::from_codes(&payload["map"]);
    assert_content(
        [
            [Banana, Wall, Player(3)],
            [Player(4), Player(5), Player(6)],
            [Player(7), Player(8), Player(9)],
        ],
        map,
    );
}

#[test]
fn do_nothing_when_applying_move_None() {
    let mut map = new_map([
        [Empty, Empty, Empty],
        [Empty, Player(3), Empty],
        [Empty, Empty, Empty],
    ]);
    map.apply_move(&PlayerMove {
        id: 3,
        direction: Move::Stay,
    });
    assert_content(
        [
            [Empty, Empty, Empty],
            [Empty, Player(3), Empty],
            [Empty, Empty, Empty],
        ],
        map,
    );
}

#[test]
fn move_up_when_applying_move_North() {
    let mut map = new_map([
        [Empty, Empty, Empty],
        [Empty, Player(3), Empty],
        [Empty, Empty, Empty],
    ]);
    map.apply_move(&PlayerMove {
        id: 3,
        direction: Move::North,
    });
    assert_content(
        [
            [Empty, Player(3), Empty],
            [Empty, Empty, Empty],
            [Empty, Empty, Empty],
        ],
        map,
    );
}

#[test]
fn move_left_when_applying_move_West() {
    let mut map = new_map([
        [Empty, Empty, Empty],
        [Empty, Player(3), Empty],
        [Empty, Empty, Empty],
    ]);
    map.apply_move(&PlayerMove {
        id: 3,
        direction: Move::West,
    });
    assert_content(
        [
            [Empty, Empty, Empty],
            [Player(3), Empty, Empty],
            [Empty, Empty, Empty],
        ],
        map,
    );
}

#[test]
fn move_down_when_applying_move_South() {
    let mut map = new_map([
        [Empty, Empty, Empty],
        [Empty, Player(3), Empty],
        [Empty, Empty, Empty],
    ]);
    map.apply_move(&PlayerMove {
        id: 3,
        direction: Move::South,
    });
    assert_content(
        [
            [Empty, Empty, Empty],
            [Empty, Empty, Empty],
            [Empty, Player(3), Empty],
        ],
        map,
    );
}

#[test]
fn move_right_when_applying_move_East() {
    let mut map = new_map([
        [Empty, Empty, Empty],
        [Empty, Player(3), Empty],
        [Empty, Empty, Empty],
    ]);
    map.apply_move(&PlayerMove {
        id: 3,
        direction: Move::East,
    });
    assert_content(
        [
            [Empty, Empty, Empty],
            [Empty, Empty, Player(3)],
            [Empty, Empty, Empty],
        ],
        map,
    );
}

#[test]
fn do_nothing_when_applying_move_North_on_north_border() {
    let mut map = new_map([
        [Empty, Player(3), Empty],
        [Empty, Empty, Empty],
        [Empty, Empty, Empty],
    ]);
    map.apply_move(&PlayerMove {
        id: 3,
        direction: Move::North,
    });
    assert_content(
        [
            [Empty, Player(3), Empty],
            [Empty, Empty, Empty],
            [Empty, Empty, Empty],
        ],
        map,
    );
}

#[test]
fn do_nothing_when_applying_move_West_on_west_border() {
    let mut map = new_map([
        [Empty, Empty, Empty],
        [Player(3), Empty, Empty],
        [Empty, Empty, Empty],
    ]);
    map.apply_move(&PlayerMove {
        id: 3,
        direction: Move::West,
    });
    assert_content(
        [
            [Empty, Empty, Empty],
            [Player(3), Empty, Empty],
            [Empty, Empty, Empty],
        ],
        map,
    );
}

#[test]
fn do_nothing_when_applying_move_South_on_south_border() {
    let mut map = new_map([
        [Empty, Empty, Empty],
        [Empty, Empty, Empty],
        [Empty, Player(3), Empty],
    ]);
    map.apply_move(&PlayerMove {
        id: 3,
        direction: Move::South,
    });
    assert_content(
        [
            [Empty, Empty, Empty],
            [Empty, Empty, Empty],
            [Empty, Player(3), Empty],
        ],
        map,
    );
}

#[test]
fn do_nothing_when_applying_move_East_on_east_border() {
    let mut map = new_map([
        [Empty, Empty, Empty],
        [Empty, Empty, Player(3)],
        [Empty, Empty, Empty],
    ]);
    map.apply_move(&PlayerMove {
        id: 3,
        direction: Move::East,
    });
    assert_content(
        [
            [Empty, Empty, Empty],
            [Empty, Empty, Player(3)],
            [Empty, Empty, Empty],
        ],
        map,
    );
}

#[test]
fn applying_move_None_many_times_is_the_identity() {
    let mut map = new_map([
        [Empty, Empty, Empty],
        [Empty, Player(3), Empty],
        [Empty, Empty, Empty],
    ]);
    let stay = PlayerMove {
        id: 3,
        direction: Move::Stay,
    };
    map.apply_move(&stay);
    map.apply_move(&stay);
    map.apply_move(&stay);
    assert_content(
        [
            [Empty, Empty, Empty],
            [Empty, Player(3), Empty],
            [Empty, Empty, Empty],
        ],
        map,
    );
}

#[test]
fn do_nothing_when_player_is_absent() {
    let mut map = new_map([
        [Empty, Empty, Empty],
        [Empty, Player(3), Empty],
        [Empty, Empty, Empty],
    ]);
    map.apply_move(&PlayerMove {
        id: 7,
        direction: Move::North,
    });
    assert_content(
        [
            [Empty, Empty, Empty],
            [Empty, Player(3), Empty],
            [Empty, Empty, Empty],
        ],
        map,
    );
}

#[test]
fn overwrite_target_cell_on_arrival() {
    let mut map = new_map([
        [Empty, Empty, Empty],
        [Empty, Player(3), Banana],
        [Empty, Empty, Empty],
    ]);
    map.apply_move(&PlayerMove {
        id: 3,
        direction: Move::East,
    });
    assert_content(
        [
            [Empty, Empty, Empty],
            [Empty, Empty, Player(3)],
            [Empty, Empty, Empty],
        ],
        map,
    );
}

#[test]
fn apply_moves_in_arrival_order_last_writer_wins() {
    let mut map = new_map([
        [Player(3), Empty, Player(4)],
        [Empty, Empty, Empty],
        [Empty, Empty, Empty],
    ]);
    let moves = vec![
        PlayerMove {
            id: 3,
            direction: Move::East,
        },
        PlayerMove {
            id: 4,
            direction: Move::West,
        },
    ];
    map.apply_moves(&moves);
    assert_content(
        [
            [Empty, Player(4), Empty],
            [Empty, Empty, Empty],
            [Empty, Empty, Empty],
        ],
        map,
    );
}

#[test]
fn compute_target_coordinates_per_direction() {
    assert_eq!(Some((0, 1)), Move::North.move_from(1, 1));
    assert_eq!(Some((1, 0)), Move::West.move_from(1, 1));
    assert_eq!(Some((2, 1)), Move::South.move_from(1, 1));
    assert_eq!(Some((1, 2)), Move::East.move_from(1, 1));
    assert_eq!(None, Move::Stay.move_from(1, 1));
    assert_eq!(None, Move::North.move_from(0, 1));
    assert_eq!(None, Move::West.move_from(1, 0));
}

#[test]
fn move_on_ragged_rows_checks_target_row_length() {
    let mut map = Grid {
        content: vec![vec![Empty, Empty, Player(3)], vec![Empty]],
    };
    map.apply_move(&PlayerMove {
        id: 3,
        direction: Move::South,
    });
    assert_eq!(
        vec![vec![Empty, Empty, Player(3)], vec![Empty]],
        map.content
    );
}
