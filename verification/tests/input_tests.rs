use flip_rotate::input_handling::{char_to_input_key, substitute_command_parameters};

#[test]
fn space_becomes_word() {
    assert_eq!(char_to_input_key(' '), "space");
}

#[test]
fn plus_becomes_add() {
    assert_eq!(char_to_input_key('+'), "add");
}

#[test]
fn minus_becomes_subtract() {
    assert_eq!(char_to_input_key('-'), "subtract");
}

#[test]
fn plain_characters_stand_for_themselves() {
    assert_eq!(char_to_input_key('a'), "a");
    assert_eq!(char_to_input_key('F'), "F");
}

#[test]
fn substitutes_every_variable() {
    let vars = vec![
        ("${img}".to_string(), "/pics/a.png".to_string()),
        ("${folder}".to_string(), "/pics".to_string()),
    ];
    let result = substitute_command_parameters("view ${img} in ${folder}", &vars);
    assert_eq!(result, "view /pics/a.png in /pics");
}

#[test]
fn replaces_all_occurrences_left_to_right() {
    let vars = vec![("aa".to_string(), "b".to_string())];
    assert_eq!(substitute_command_parameters("aaa", &vars), "ba");
    assert_eq!(substitute_command_parameters("aaaa", &vars), "bb");
}

#[test]
fn empty_table_changes_nothing() {
    let vars: Vec<(String, String)> = Vec::new();
    assert_eq!(substitute_command_parameters("echo ${img}", &vars), "echo ${img}");
}
