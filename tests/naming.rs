use wang_autotile::naming::{pascal_case_of, snake_case_of, to_pascal_case, to_snake_case};

#[test]
fn test_to_snake_case() {
    assert_eq!(to_snake_case("Player"), "player");
    assert_eq!(to_snake_case("PlayerCharacter"), "player_character");
    assert_eq!(to_snake_case("NPCController"), "n_p_c_controller");
    assert_eq!(to_snake_case("MyHTTPHandler"), "my_h_t_t_p_handler");
}

#[test]
fn test_to_pascal_case() {
    assert_eq!(to_pascal_case("player"), "Player");
    assert_eq!(to_pascal_case("player_character"), "PlayerCharacter");
    assert_eq!(to_pascal_case("my_type"), "MyType");
}

#[test]
fn snake_case_edge_inputs() {
    assert_eq!(to_snake_case(""), "");
    assert_eq!(to_snake_case("already_snake"), "already_snake");
    assert_eq!(to_snake_case("ÉtéX"), "Été_x");
}

#[test]
fn pascal_case_edge_inputs() {
    assert_eq!(to_pascal_case(""), "");
    assert_eq!(to_pascal_case("__a__b_"), "AB");
    assert_eq!(to_pascal_case("straße_x"), "StraßeX");
    assert_eq!(to_pascal_case("ß"), "SS");
}

#[test]
fn snake_case_from_given_flags() {
    let chars: Vec<char> = "aBc".chars().collect();
    let r = snake_case_of(&chars, &vec![false, true, true]);
    assert_eq!(r.iter().collect::<String>(), "a_b_c");
    let r = snake_case_of(&chars, &vec![true, false, false]);
    assert_eq!(r.iter().collect::<String>(), "aBc");
}

#[test]
fn pascal_case_from_given_mappings() {
    let chars: Vec<char> = "a_b".chars().collect();
    let ups = vec![vec!['X', 'Y'], vec!['_'], vec!['Z']];
    let r = pascal_case_of(&chars, &ups);
    assert_eq!(r.iter().collect::<String>(), "XYZ");
}
