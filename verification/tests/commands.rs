use gtp::{entity, Command, Entity};

#[test]
fn a_command_with_an_argument_and_an_id() {
    let mut c = Command::new("boardsize");
    c.args(|b| b.i(19));
    assert_eq!(c.to_string(), "boardsize 19\n");
    c.set_id(12);
    assert_eq!(c.to_string(), "12 boardsize 19\n");
}

#[test]
fn a_command_with_nothing_but_its_name() {
    assert_eq!(Command::new("clear_board").to_string(), "clear_board\n");
    assert_eq!(Command::new("").to_string(), "\n");
}

#[test]
fn the_last_id_counts() {
    let mut c = Command::new("name");
    c.set_id(1);
    c.set_id(0);
    assert_eq!(c.to_string(), "0 name\n");
    c.set_id(u32::MAX);
    assert_eq!(c.to_string(), "4294967295 name\n");
}

#[test]
fn the_last_arguments_count() {
    let mut c = Command::new("play");
    c.set_args(&entity(|eb| eb.v((19, 19))));
    assert_eq!(c.to_string(), "play T19\n");
    c.set_args(&Entity::Move((gtp::Color::B, (4, 4))));
    assert_eq!(c.to_string(), "play b D4\n");
    c.args(|eb| eb.w().v_pass().list());
    assert_eq!(c.to_string(), "play w pass\n");
}

#[test]
fn a_command_is_made_with_its_arguments() {
    assert_eq!(Command::new_with_args("boardsize", |eb| eb.i(9)).to_string(), "boardsize 9\n");
    assert_eq!(Command::cmd("komi", |eb| eb.f("6.5")).to_string(), "komi 6.5\n");
    assert_eq!(
        Command::cmd("play", |eb| eb.mv_b((3, 3))),
        Command::new_with_args("play", |eb| eb.mv(false, (3, 3)))
    );
}

#[test]
fn arguments_that_are_lists_of_lists_take_lines() {
    let c = Command::cmd("rows", |eb| eb.i(1).i(2).list().i(3).i(4).list().list());
    assert_eq!(c.to_string(), "rows 1 2 3 4\n");
    let mut rows = Command::new("rows");
    rows.set_args(&Entity::List(vec![
        Entity::List(vec![Entity::Int(1), Entity::Int(2)]),
        Entity::List(vec![Entity::Int(3), Entity::Int(4)]),
    ]));
    assert_eq!(rows.to_string(), "rows 1 2\n3 4\n");
}

#[test]
fn the_bytes_of_a_command_are_its_text() {
    let mut c = Command::cmd("play", |eb| eb.mv_w((8, 8)));
    c.set_id(3);
    assert_eq!(c.to_bytes(), b"3 play w H8\n".to_vec());
    assert_eq!(c.to_bytes(), c.to_string().into_bytes());
    let named = Command::new("caf\u{e9}");
    assert_eq!(named.to_bytes(), vec![b'c', b'a', b'f', 0xC3, 0xA9, b'\n']);
}

#[test]
fn a_command_is_copied_whole() {
    let mut c = Command::cmd("play", |eb| eb.mv_w((8, 8)));
    c.set_id(3);
    let copy = c.clone();
    assert_eq!(copy, c);
    assert_eq!(copy.to_string(), "3 play w H8\n");
    c.set_id(4);
    assert_ne!(copy, c);
}
