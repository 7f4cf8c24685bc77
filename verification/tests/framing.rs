use gtp::response::refine_input;
use gtp::{Color, Entity, Response, ResponseError, ResponseParser};

fn parser_fed(pieces: &[&str]) -> ResponseParser {
    let mut rp = ResponseParser::new();
    for piece in pieces {
        rp.feed(piece);
    }
    rp
}

fn parse_one(s: &str) -> Result<Response, ResponseError> {
    parser_fed(&[s]).get_response()
}

fn success(id: Option<u32>, text: &str) -> Result<Response, ResponseError> {
    Ok(Response::Result((id, String::from(text))))
}

fn failure(id: Option<u32>, text: &str) -> Result<Response, ResponseError> {
    Ok(Response::Error((id, String::from(text))))
}

#[test]
fn text_fed_in_pieces_is_read_as_text_fed_at_once() {
    let at_once = parser_fed(&["= ok\n\n"]).get_response();
    let in_pieces = parser_fed(&["= o", "k\n\n"]).get_response();
    assert_eq!(at_once, success(None, "ok"));
    assert_eq!(in_pieces, at_once);
    assert_eq!(parser_fed(&["= o", "k\n\n"]), parser_fed(&["= ok\n\n"]));
}

#[test]
fn every_split_of_a_text_is_read_alike() {
    let text = "#c\n=12 a b\nc\n\n? no\n\n";
    for cut in 0..=text.len() {
        let mut rp = parser_fed(&[&text[..cut], &text[cut..]]);
        assert_eq!(rp.get_response(), success(Some(12), "a b\nc"));
        assert_eq!(rp.get_response(), failure(None, "no"));
        assert_eq!(rp.get_response(), Err(ResponseError::IncompleteResponse));
    }
}

#[test]
fn a_response_can_arrive_between_two_reads() {
    let mut rp = ResponseParser::new();
    rp.feed("= o");
    assert_eq!(rp.get_response(), Err(ResponseError::IncompleteResponse));
    rp.feed("k\n\n");
    assert_eq!(rp.get_response(), success(None, "ok"));
}

#[test]
fn a_comment_at_the_head_changes_nothing() {
    assert_eq!(parse_one("#\n=10 ok\n\n"), parse_one("=10 ok\n\n"));
    assert_eq!(parse_one("#\n=10 ok\n\n"), success(Some(10), "ok"));
    assert_eq!(parse_one("# a longer comment\r\n= ok\n\n"), success(None, "ok"));
    assert_eq!(parse_one("#one\n#two\n= ok\n\n"), success(None, "ok"));
}

#[test]
fn blank_characters_behind_a_leading_comment_stay() {
    assert_eq!(
        parse_one("#\n = ok\n\n"),
        Err(ResponseError::BadResponse(String::from(" = ok\n\n")))
    );
}

#[test]
fn a_comment_in_the_text_is_taken_out() {
    assert_eq!(parse_one("= foo # all ok\n\n\n"), success(None, "foo "));
    assert_eq!(parse_one("= a #x\nb\n\n"), success(None, "a b"));
    assert_eq!(parse_one("=#x\n1 a\n\n"), success(Some(1), "a"));
}

#[test]
fn a_single_newline_does_not_end_a_response() {
    assert_eq!(parse_one("= ok\n"), Err(ResponseError::IncompleteResponse));
    assert_eq!(parse_one("= ok"), Err(ResponseError::IncompleteResponse));
    assert_eq!(parse_one("= a\nb\nc\n"), Err(ResponseError::IncompleteResponse));
    assert_eq!(parse_one("="), Err(ResponseError::IncompleteResponse));
    assert_eq!(parse_one("=12"), Err(ResponseError::IncompleteResponse));
    assert_eq!(parse_one("=12 "), Err(ResponseError::IncompleteResponse));
}

#[test]
fn nothing_is_read_from_nothing() {
    assert_eq!(parse_one(""), Err(ResponseError::IncompleteResponse));
    assert_eq!(parse_one("\n\n \t\r\n"), Err(ResponseError::IncompleteResponse));
    assert_eq!(parse_one("# only a comment\n"), Err(ResponseError::IncompleteResponse));
    assert_eq!(ResponseParser::new().get_response(), Err(ResponseError::IncompleteResponse));
}

#[test]
fn incomplete_text_is_kept() {
    let mut rp = parser_fed(&["\r\n=7 a\tb"]);
    assert_eq!(rp.get_response(), Err(ResponseError::IncompleteResponse));
    assert_eq!(rp, parser_fed(&["=7 a b"]));
    rp.feed("\n\n");
    assert_eq!(rp.get_response(), success(Some(7), "a b"));
    assert_eq!(rp, ResponseParser::new());
}

#[test]
fn a_comment_that_has_not_ended_holds_the_response_back() {
    let mut rp = parser_fed(&["= ok\n\n# not yet"]);
    assert_eq!(rp.get_response(), Err(ResponseError::IncompleteResponse));
    rp.feed(" ended\n");
    assert_eq!(rp.get_response(), success(None, "ok"));

    let mut inside = parser_fed(&["= ok # note"]);
    assert_eq!(inside.get_response(), Err(ResponseError::IncompleteResponse));
    inside.feed("\n\n");
    assert_eq!(inside.get_response(), Err(ResponseError::IncompleteResponse));
    inside.feed("\n");
    assert_eq!(inside.get_response(), success(None, "ok "));
}

#[test]
fn two_responses_and_their_entities() {
    let mut rp = parser_fed(&["= A\nB\nC\n\n= white b3 b T19\n\n"]);
    let first = rp.get_response().unwrap();
    assert_eq!(first, Response::Result((None, String::from("A\nB\nC"))));
    assert_eq!(first.text(), "A\nB\nC");
    let second = rp.get_response().unwrap();
    assert_eq!(second.text(), "white b3 b T19");
    assert!(matches!(second, Response::Result(_)));
    let entities = second.entities(|ep| ep.color().vertex().mv()).unwrap();
    assert_eq!(
        entities,
        vec![
            Entity::Color(Color::W),
            Entity::Vertex((2, 3)),
            Entity::Move((Color::B, (19, 19))),
        ]
    );
    assert_eq!(entities[0].to_string(), "w");
    assert_eq!(entities[1].to_string(), "B3");
    assert_eq!(entities[2].to_string(), "b T19");
}

#[test]
fn responses_are_read_one_by_one() {
    let mut rp = parser_fed(&["=1 a\n\n=2 b\n\n?3 c\n\n=4 d"]);
    let mut texts = Vec::new();
    while let Ok(response) = rp.get_response() {
        texts.push((response.id_0(), response.text()));
    }
    assert_eq!(
        texts,
        vec![(1, String::from("a")), (2, String::from("b")), (3, String::from("c"))]
    );
    rp.feed("\n\n");
    assert_eq!(rp.get_response(), success(Some(4), "d"));
}

#[test]
fn any_other_mark_than_the_equals_sign_is_a_failure() {
    assert_eq!(parse_one("? unknown command\n\n"), failure(None, "unknown command"));
    assert_eq!(parse_one("?7 illegal move\n\n"), failure(Some(7), "illegal move"));
    assert_eq!(parse_one("x ok\n\n"), failure(None, "ok"));
    assert_eq!(parse_one("\u{e9} ok\n\n"), failure(None, "ok"));
    assert_eq!(parse_one("\u{e9}"), Err(ResponseError::IncompleteResponse));
}

#[test]
fn the_id_is_made_of_digits() {
    assert_eq!(parse_one("=10 ok\n\n"), success(Some(10), "ok"));
    assert_eq!(parse_one("=007 ok\n\n"), success(Some(7), "ok"));
    assert_eq!(parse_one("=0 ok\n\n"), success(Some(0), "ok"));
    assert_eq!(parse_one("=4294967295 ok\n\n"), success(Some(u32::MAX), "ok"));
    assert_eq!(parse_one("=4294967296 ok\n\n"), success(None, "ok"));
    assert_eq!(parse_one("=99999999999999999999 ok\n\n"), success(None, "ok"));
}

#[test]
fn what_is_no_id_is_refused() {
    for text in ["=1x ok\n\n", "=ok\n\n", "=\n\n", "=+1 ok\n\n", "=-1 ok\n\n", "=1\n ok\n\n", "=x"] {
        assert_eq!(parse_one(text), Err(ResponseError::BadResponse(String::from(text))));
    }
}

#[test]
fn refused_text_is_kept() {
    let mut rp = parser_fed(&["\t=1x ok\r\n\n"]);
    let refused = Err(ResponseError::BadResponse(String::from("=1x ok\n\n")));
    assert_eq!(rp.get_response(), refused);
    assert_eq!(rp.get_response(), refused);
    assert_eq!(rp, parser_fed(&["=1x ok\n\n"]));
}

#[test]
fn carriage_returns_are_dropped_and_tabs_are_spaces() {
    assert_eq!(parse_one("=1\tok\r\n\r\n"), success(Some(1), "ok"));
    assert_eq!(parse_one("=\tok\n\n"), success(None, "ok"));
    assert_eq!(parse_one("= a\tb\r\n\tc\n\r\n"), success(None, "a b\n c"));
    assert_eq!(parse_one("= a\n\r\r\nb\n\n"), success(None, "a"));
}

#[test]
fn leading_blank_characters_are_dropped() {
    assert_eq!(parse_one("\n\n  \t= ok\n\n"), success(None, "ok"));
    assert_eq!(parse_one(" \r\n=3 ok\n\n"), success(Some(3), "ok"));
}

#[test]
fn the_text_of_a_response_keeps_its_lines_and_spaces() {
    assert_eq!(parse_one("= a \n b\n\n"), success(None, "a \n b"));
    assert_eq!(parse_one("=  two\n\n"), success(None, " two"));
    assert_eq!(parse_one("= \n\n"), success(None, ""));
    assert_eq!(parse_one("= \na\n\n"), success(None, "\na"));
}

#[test]
fn blank_lines_between_responses_are_skipped() {
    let mut rp = parser_fed(&["= a\n\n\n\n\n= b\n\n"]);
    assert_eq!(rp.get_response(), success(None, "a"));
    assert_eq!(rp.get_response(), success(None, "b"));
}

#[test]
fn input_is_refined() {
    assert_eq!(refine_input(String::from("= ok\n\n")), "= ok\n\n");
    assert_eq!(refine_input(String::from("\r\n \t= a\tb # c\r\nd\n#tail")), "= a b d\n#tail");
    assert_eq!(refine_input(String::from("#\n=10 ok\n\n")), "=10 ok\n\n");
    assert_eq!(refine_input(String::from("#\n x")), " x");
    assert_eq!(refine_input(String::from("a#b#c\nd#e\n#f")), "ad#f");
    assert_eq!(refine_input(String::from("a#b#c\nd#e\n")), "ad");
    assert_eq!(refine_input(String::from("\r\r")), "");
    assert_eq!(refine_input(String::new()), "");
}

#[test]
fn a_response_gives_its_text_and_its_id() {
    let with_id = Response::Result((Some(5), String::from("a\nb")));
    assert_eq!(with_id.text(), "a\nb");
    assert_eq!(with_id.id_0(), 5);
    let without = Response::Error((None, String::from("no")));
    assert_eq!(without.text(), "no");
    assert_eq!(without.id_0(), 0);
    assert_eq!(Response::Error((Some(9), String::new())).id_0(), 9);
    assert_eq!(Response::Result((None, String::new())).id_0(), 0);
    assert_eq!(with_id.clone(), with_id);
    assert_ne!(with_id, Response::Error((Some(5), String::from("a\nb"))));
}

#[test]
fn a_parser_is_copied_with_its_text() {
    let rp = parser_fed(&["= half"]);
    let mut copy = rp.clone();
    assert_eq!(copy, rp);
    copy.feed("\n\n");
    assert_eq!(copy.get_response(), success(None, "half"));
    assert_eq!(rp, parser_fed(&["= half"]));
    assert_eq!(ResponseParser::default(), ResponseParser::new());
    let e = ResponseError::BadResponse(String::from("x"));
    assert_eq!(e.clone(), e);
    assert_eq!(ResponseError::IncompleteResponse.clone(), ResponseError::IncompleteResponse);
}
