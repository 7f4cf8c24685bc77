use gtp::entity::gen_move_char;
use gtp::{entity, Color, Entity, EntityBuilder, EntityParser};

#[test]
fn column_letters_skip_i() {
    assert_eq!(gen_move_char(1), 'A');
    assert_eq!(gen_move_char(8), 'H');
    assert_eq!(gen_move_char(9), 'J');
    assert_eq!(gen_move_char(19), 'T');
    assert_eq!(gen_move_char(25), 'Z');
    for i in 1..=25u32 {
        assert_ne!(gen_move_char(i), 'I');
    }
}

#[test]
fn column_letters_past_the_alphabet() {
    assert_eq!(gen_move_char(26), '[');
    assert_eq!(gen_move_char(0xD800 - 65), 'Z');
    assert_eq!(gen_move_char(0xE000 - 65), '\u{E000}');
    assert_eq!(gen_move_char(0x10FFFF - 65), '\u{10FFFF}');
    assert_eq!(gen_move_char(0x10FFFF - 64), 'Z');
    assert_eq!(gen_move_char(0x7FFF_FFFF), 'Z');
    assert_eq!(Entity::Vertex((0x7FFF_FFFF, 1)).to_string(), "Z1");
}

#[test]
fn numbers_are_written_in_decimal() {
    assert_eq!(Entity::Int(0).to_string(), "0");
    assert_eq!(Entity::Int(7).to_string(), "7");
    assert_eq!(Entity::Int(100).to_string(), "100");
    assert_eq!(Entity::Int(u32::MAX).to_string(), "4294967295");
    assert_eq!(Entity::Vertex((1, i32::MAX)).to_string(), "A2147483647");
}

#[test]
fn a_vertex_with_a_coordinate_of_zero_or_less_is_a_pass() {
    assert_eq!(Entity::Vertex((0, 0)).to_string(), "pass");
    assert_eq!(Entity::Vertex((0, 5)).to_string(), "pass");
    assert_eq!(Entity::Vertex((5, 0)).to_string(), "pass");
    assert_eq!(Entity::Vertex((-3, 5)).to_string(), "pass");
    assert_eq!(Entity::Vertex((i32::MIN, i32::MIN)).to_string(), "pass");
    assert_eq!(Entity::Move((Color::W, (3, -1))).to_string(), "w pass");
}

#[test]
fn lists_of_lists_are_joined_by_newlines() {
    let row = |a: u32, b: u32| Entity::List(vec![Entity::Int(a), Entity::Int(b)]);
    assert_eq!(Entity::List(vec![row(1, 2), row(3, 4), row(5, 6)]).to_string(), "1 2\n3 4\n5 6");
    assert_eq!(Entity::List(vec![row(1, 2)]).to_string(), "1 2");
}

#[test]
fn a_list_with_a_member_that_is_no_list_is_joined_by_spaces() {
    let row = Entity::List(vec![Entity::Int(1), Entity::Int(2)]);
    assert_eq!(Entity::List(vec![row.clone(), Entity::Int(3)]).to_string(), "1 2 3");
    assert_eq!(Entity::List(vec![Entity::Int(3), row]).to_string(), "3 1 2");
}

#[test]
fn an_empty_list_is_written_as_nothing() {
    assert_eq!(Entity::List(vec![]).to_string(), "");
    assert_eq!(Entity::List(vec![Entity::List(vec![]), Entity::List(vec![])]).to_string(), "\n");
}

#[test]
fn a_float_is_written_as_its_text() {
    assert_eq!(Entity::Float(0.5f32.to_string()).to_string(), "0.5");
    assert_eq!(Entity::Float((-2.0f32).to_string()).to_string(), "-2");
    assert_eq!(Entity::Float(1e10f32.to_string()).to_string(), "10000000000");
}

#[test]
fn a_clone_is_equal_to_its_origin() {
    let e = Entity::List(vec![
        Entity::Int(1),
        Entity::Float(String::from("1.5")),
        Entity::String(String::from("x")),
        Entity::Vertex((3, 4)),
        Entity::Color(Color::B),
        Entity::Move((Color::W, (1, 1))),
        Entity::Boolean(true),
        Entity::List(vec![Entity::Int(2)]),
    ]);
    assert_eq!(e.clone(), e);
    assert_eq!(e.clone().to_string(), e.to_string());
}

#[test]
fn the_builder_stages_one_entity_at_a_time() {
    let mut eb = EntityBuilder::new();
    eb.i(1);
    assert_eq!(eb.build(), Entity::Int(1));
    eb.s("two");
    assert_eq!(eb.build(), Entity::String(String::from("two")));
    eb.list();
    assert_eq!(eb.build(), Entity::List(vec![Entity::Int(1), Entity::String(String::from("two"))]));
}

#[test]
fn the_builder_nests_lists() {
    let e = entity(|eb| eb.i(1).i(2).list().i(3).list());
    assert_eq!(
        e,
        Entity::List(vec![Entity::List(vec![Entity::Int(1), Entity::Int(2)]), Entity::Int(3)])
    );
    let board = entity(|eb| eb.i(1).i(2).list().list());
    assert_eq!(board, Entity::List(vec![Entity::List(vec![Entity::Int(1), Entity::Int(2)])]));
}

#[test]
fn the_builder_wraps_nothing_into_an_empty_list() {
    assert_eq!(entity(|eb| eb.list()), Entity::List(vec![]));
    assert_eq!(entity(|eb| eb.list()).to_string(), "");
}

#[test]
fn the_builder_stages_every_kind() {
    assert_eq!(entity(|eb| eb.v((3, 4))), Entity::Vertex((3, 4)));
    assert_eq!(entity(|eb| eb.v_pass()), Entity::Vertex((0, 0)));
    assert_eq!(entity(|eb| eb.w()), Entity::Color(Color::W));
    assert_eq!(entity(|eb| eb.b()), Entity::Color(Color::B));
    assert_eq!(entity(|eb| eb.color(true)), Entity::Color(Color::W));
    assert_eq!(entity(|eb| eb.color(false)), Entity::Color(Color::B));
    assert_eq!(entity(|eb| eb.bool(true)), Entity::Boolean(true));
    assert_eq!(entity(|eb| eb.mv_w((1, 2))), Entity::Move((Color::W, (1, 2))));
    assert_eq!(entity(|eb| eb.mv_b((1, 2))), Entity::Move((Color::B, (1, 2))));
    assert_eq!(entity(|eb| eb.mv(false, (1, 2))), Entity::Move((Color::B, (1, 2))));
    assert_eq!(entity(|eb| eb.f("2.5")), Entity::Float(String::from("2.5")));
    assert_eq!(entity(|eb| eb.s("name")), Entity::String(String::from("name")));
}

#[test]
fn a_builder_starts_empty_by_default() {
    assert_eq!(EntityBuilder::default(), EntityBuilder::new());
    let mut eb = EntityBuilder::default();
    eb.i(4);
    assert_eq!(eb.clone(), eb);
    assert_eq!(eb.clone().build(), Entity::Int(4));
}

/// Reads `text` with one read of the kind of `e`.
fn read_back(e: &Entity, text: &str) -> Option<Vec<Entity>> {
    let mut ep = EntityParser::new(text);
    match e {
        Entity::Int(_) => ep.i(),
        Entity::String(_) => ep.s(),
        Entity::Vertex(_) => ep.vertex(),
        Entity::Color(_) => ep.color(),
        Entity::Move(_) => ep.mv(),
        Entity::Boolean(_) => ep.bool(),
        _ => unreachable!(),
    };
    assert!(ep.is_eof());
    ep.result()
}

#[test]
fn plain_entities_are_read_back_from_their_text() {
    let plain = vec![
        Entity::Int(0),
        Entity::Int(19),
        Entity::Int(u32::MAX),
        Entity::String(String::from("ok")),
        Entity::String(String::from("+")),
        Entity::Vertex((0, 0)),
        Entity::Vertex((1, 1)),
        Entity::Vertex((8, 19)),
        Entity::Vertex((9, 19)),
        Entity::Vertex((25, 99)),
        Entity::Color(Color::W),
        Entity::Color(Color::B),
        Entity::Move((Color::W, (0, 0))),
        Entity::Move((Color::B, (19, 19))),
        Entity::Boolean(true),
        Entity::Boolean(false),
    ];
    for e in plain {
        assert_eq!(read_back(&e, &e.to_string()), Some(vec![e.clone()]));
    }
}

#[test]
fn every_plain_vertex_is_read_back() {
    for col in 1..=25 {
        for row in 1..=99 {
            let e = Entity::Vertex((col, row));
            assert_eq!(read_back(&e, &e.to_string()), Some(vec![e.clone()]));
        }
    }
}

#[test]
fn entities_that_are_not_plain_are_not_read_back() {
    let pass = Entity::Vertex((-1, -1));
    assert_eq!(read_back(&pass, &pass.to_string()), Some(vec![Entity::Vertex((0, 0))]));
    let wide = Entity::Vertex((26, 1));
    assert_eq!(read_back(&wide, &wide.to_string()), None);
    let tall = Entity::Vertex((1, 100));
    assert_eq!(read_back(&tall, &tall.to_string()), None);
    let empty = Entity::String(String::new());
    assert_eq!(read_back(&empty, &empty.to_string()), None);
}

#[test]
fn a_list_of_plain_entities_is_read_back_member_by_member() {
    let members = vec![
        Entity::Int(10),
        Entity::Move((Color::W, (8, 8))),
        Entity::String(String::from("OK")),
        Entity::Vertex((9, 9)),
        Entity::Boolean(true),
        Entity::Color(Color::B),
    ];
    let text = Entity::List(members.clone()).to_string();
    assert_eq!(text, "10 w H8 OK J9 true b");
    let mut ep = EntityParser::new(&text);
    ep.i().mv().s().vertex().bool().color();
    assert!(ep.is_eof());
    assert_eq!(ep.result(), Some(members));
}
