use bevy_enum_event::naming::{enum_module_ident, snake_case_from_info, to_snake_case, CharInfo};

#[test]
fn test_snake_case_conversion() {
    assert_eq!(to_snake_case("LifeFSM"), "life_fsm");
    assert_eq!(to_snake_case("PlayerState"), "player_state");
    assert_eq!(to_snake_case("HTTPServer"), "http_server");
    assert_eq!(to_snake_case("FSM"), "fsm");
    assert_eq!(to_snake_case("MyHTTPSConnection"), "my_https_connection");
}

#[test]
fn snake_case_of_camel_and_digits() {
    assert_eq!(to_snake_case("camelCase"), "camel_case");
    assert_eq!(to_snake_case("Player2State"), "player2_state");
    assert_eq!(to_snake_case("A"), "a");
    assert_eq!(to_snake_case("already_snake"), "already_snake");
    assert_eq!(to_snake_case(""), "");
}

#[test]
fn snake_case_lowercases_non_ascii() {
    assert_eq!(to_snake_case("ÉtatJeu"), "état_jeu");
}

#[test]
fn snake_case_from_classified_characters() {
    let info = |ch: char, upper: bool, lower: bool, lowered: char| CharInfo { ch, upper, lower, lowered };
    let cs = vec![
        info('A', true, false, 'a'),
        info('B', true, false, 'b'),
        info('c', false, true, 'c'),
    ];
    assert_eq!(snake_case_from_info(&cs), vec!['a', '_', 'b', 'c']);
    let cs = vec![info('x', false, true, 'x'), info('Y', true, false, 'y')];
    assert_eq!(snake_case_from_info(&cs), vec!['x', '_', 'y']);
    assert_eq!(snake_case_from_info(&vec![]), Vec::<char>::new());
}

#[test]
fn test_module_names_match() {
    for name in ["TestEnum", "LifeFSM", "HTTPServer", "PlayerState"] {
        assert_eq!(enum_module_ident(name), to_snake_case(name));
    }
    assert_eq!(enum_module_ident("TestEnum"), "test_enum");
    assert_eq!(enum_module_ident("LifeFSM"), "life_fsm");
    assert_eq!(enum_module_ident("HTTPServer"), "http_server");
}
