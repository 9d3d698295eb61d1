use gridbot::model::Entity;

fn deserialize_as(expected: Entity, from: &'static str) {
    let code: i64 = serde_json::from_str(from).unwrap();
    let entity = Entity::from_i64(code);
    assert_eq!(expected, entity);
}

#[test]
fn deserialize_from_0_as_empty() {
    deserialize_as(Entity::Empty, "0");
}

#[test]
fn deserialize_from_1_as_banana() {
    deserialize_as(Entity::Banana, "1");
}

#[test]
fn deserialize_from_2_as_wall() {
    deserialize_as(Entity::Wall, "2");
}

#[test]
fn deserialize_from_3_as_player_3() {
    deserialize_as(Entity::Player(3), "3");
}

#[test]
fn encode_entities_back_to_their_codes() {
    assert_eq!(0, Entity::Empty.to_i64());
    assert_eq!(1, Entity::Banana.to_i64());
    assert_eq!(2, Entity::Wall.to_i64());
    assert_eq!(3, Entity::Player(3).to_i64());
    assert_eq!(314, Entity::Player(314).to_i64());
    assert_eq!(-5, Entity::Player(-5).to_i64());
}

#[test]
fn grid_codes_survive_a_decode_encode_round_trip() {
    let codes: Vec<Vec<i64>> = vec![vec![0, 1, 2], vec![3, 42, 0], vec![2, 1, 1000]];
    let grid = gridbot::model::Grid::from_codes(&codes);
    assert_eq!(codes, grid.to_codes());
}
