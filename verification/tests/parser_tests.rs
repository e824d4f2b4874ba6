use parsec::cursor::{Cursor, Span};
use parsec::parser::{
    alt, apply, apply_cont, bind, cont_to_parser, gen_parse_char, gen_trivial, parse_digit,
    parse_literal, parse_spaces, two_digit_number, Cont, Parser,
};
use parsec::token::Token;
use parsec::value::Compute;

fn one_span(start: usize, end: usize) -> Compute {
    Compute::One(Span { start, end })
}

#[test]
fn parse_spaces_test() {
    let text = "  1";
    let c = Cursor::new(text);

    let act = parse_spaces(c);

    assert!(act.is_some());
    let (value, tail) = act.unwrap();
    assert_eq!(value, Compute::Number(2));
    assert_eq!(tail.remaining_str(), "1");
}

#[test]
fn gen_parse_char_test() {
    let text = "123";
    let parser = gen_parse_char('1');
    let c = Cursor::new(text);

    let act = apply(&parser, c);

    assert!(act.is_some());
    let (value, tail) = act.unwrap();
    match value {
        Compute::One(sp) => assert_eq!(c.span_str(sp), "1"),
        _ => panic!("expected a one-span value"),
    }
    assert_eq!(tail.remaining_str(), "23");
}

#[test]
fn parse_two_digit_test() {
    let text = "123";
    let parser = bind(Parser::Digit, Cont::ThenPair(Box::new(Parser::Digit)));
    let c = Cursor::new(text);

    let act = apply(&parser, c);

    assert!(act.is_some());
    let (value, tail) = act.unwrap();
    assert_eq!(two_digit_number(&c, value), Some(12));
    assert_eq!(tail.remaining_str(), "3");
}

#[test]
fn test() {
    let data = "12  ";

    let parse_two_digit_number = bind(Parser::Digit, Cont::ThenPair(Box::new(Parser::Digit)));

    let res = apply(&parse_two_digit_number, Cursor::new(data));
    assert!(res.is_some());

    let c = Cursor::new(data);
    let (value, tail) = res.unwrap();
    assert_eq!(tail.remaining_str(), &data[2..]);
    assert!(match value {
        Compute::Two(a, b) => c.span_str(a) == &data[0..1] && c.span_str(b) == &data[1..2],
        _ => false,
    });
}

#[test]
fn digit_matches_single_digit_head() {
    let c = Cursor::new("5x");
    let act = parse_digit(c);
    assert!(act.is_some());
    let (value, tail) = act.unwrap();
    assert_eq!(value, one_span(0, 1));
    assert_eq!(c.span_str(Span { start: 0, end: 1 }), "5");
    assert_eq!(tail.remaining_str(), "x");
}

#[test]
fn digit_fails_on_empty_and_non_digit() {
    assert!(parse_digit(Cursor::new("")).is_none());
    assert!(parse_digit(Cursor::new("x9")).is_none());
}

#[test]
fn spaces_fail_when_all_spaces() {
    assert!(parse_spaces(Cursor::new("   ")).is_none());
    assert!(parse_spaces(Cursor::new("")).is_none());
}

#[test]
fn spaces_zero_count() {
    let act = parse_spaces(Cursor::new("a"));
    assert!(act.is_some());
    let (value, tail) = act.unwrap();
    assert_eq!(value, Compute::Number(0));
    assert_eq!(tail.remaining_str(), "a");
}

#[test]
fn two_digit_sequence_yields_two_spans() {
    let parser = bind(Parser::Digit, Cont::ThenPair(Box::new(Parser::Digit)));
    let c = Cursor::new("123");
    let act = apply(&parser, c);
    assert!(act.is_some());
    let (value, tail) = act.unwrap();
    assert_eq!(value, Compute::Two(Span { start: 0, end: 1 }, Span { start: 1, end: 2 }));
    assert_eq!(c.span_str(Span { start: 0, end: 1 }), "1");
    assert_eq!(c.span_str(Span { start: 1, end: 2 }), "2");
    assert_eq!(tail.remaining_str(), "3");
}

#[test]
fn alt_falls_through_to_literal() {
    let parser = alt(vec![Parser::Digit, gen_parse_char('a')]);
    let c = Cursor::new("a1");
    let act = apply(&parser, c);
    assert!(act.is_some());
    let (value, tail) = act.unwrap();
    assert_eq!(value, one_span(0, 1));
    assert_eq!(c.span_str(Span { start: 0, end: 1 }), "a");
    assert_eq!(tail.remaining_str(), "1");
}

#[test]
fn alt_prefers_the_first_success() {
    let parser = alt(vec![
        gen_trivial(Compute::Number(7)),
        gen_trivial(Compute::Number(9)),
    ]);
    let act = apply(&parser, Cursor::new("x"));
    assert!(act.is_some());
    let (value, tail) = act.unwrap();
    assert_eq!(value, Compute::Number(7));
    assert_eq!(tail.remaining_str(), "x");
}

#[test]
fn alt_fails_when_every_alternative_fails() {
    let parser = alt(vec![Parser::Digit, gen_parse_char('a')]);
    assert!(apply(&parser, Cursor::new("zz")).is_none());
    let empty = alt(Vec::new());
    assert!(apply(&empty, Cursor::new("zz")).is_none());
}

#[test]
fn lift_consumes_nothing() {
    let parser = gen_trivial(Compute::Nothing);
    let act = apply(&parser, Cursor::new("abc"));
    assert!(act.is_some());
    let (value, tail) = act.unwrap();
    assert_eq!(value, Compute::Nothing);
    assert_eq!(tail.remaining_str(), "abc");
}

#[test]
fn literal_is_strict_on_mismatch() {
    assert!(parse_literal('a', Cursor::new("b")).is_none());
    assert!(parse_literal('a', Cursor::new("")).is_none());
    let parser = gen_parse_char('x');
    assert!(apply(&parser, Cursor::new("yx")).is_none());
}

#[test]
fn bind_propagates_failure() {
    let parser = bind(Parser::Digit, Cont::Done);
    assert!(apply(&parser, Cursor::new("x1")).is_none());
}

#[test]
fn bind_threads_the_tail() {
    let parser = bind(Parser::Digit, Cont::To(Box::new(Parser::Spaces)));
    let c = Cursor::new("1 x");
    let act = apply(&parser, c);
    assert!(act.is_some());
    let (value, tail) = act.unwrap();
    assert_eq!(value, Compute::Number(1));
    assert_eq!(tail.remaining_str(), "x");
}

#[test]
fn parsing_is_deterministic() {
    let parser = bind(Parser::Digit, Cont::ThenPair(Box::new(Parser::Digit)));
    let c = Cursor::new("42x");
    let first = apply(&parser, c);
    let second = apply(&parser, c);
    assert!(first.is_some() && second.is_some());
    let (v1, t1) = first.unwrap();
    let (v2, t2) = second.unwrap();
    assert_eq!(v1, v2);
    assert_eq!(t1.remaining_str(), t2.remaining_str());
    assert_eq!(t1.pos, t2.pos);
}

#[test]
fn bind_is_associative_on_a_cursor() {
    let lhs = bind(
        bind(Parser::Digit, Cont::ThenPair(Box::new(Parser::Digit))),
        Cont::ThenPair(Box::new(Parser::Spaces)),
    );
    let rhs = bind(
        Parser::Digit,
        Cont::AndThen(
            Box::new(Cont::ThenPair(Box::new(Parser::Digit))),
            Box::new(Cont::ThenPair(Box::new(Parser::Spaces))),
        ),
    );
    let c = Cursor::new("12 x");
    let left = apply(&lhs, c);
    let right = apply(&rhs, c);
    assert!(left.is_some() && right.is_some());
    let (lv, lt) = left.unwrap();
    let (rv, rt) = right.unwrap();
    assert_eq!(lv, rv);
    assert_eq!(lt.pos, rt.pos);
    assert_eq!(lt.remaining_str(), "x");
}

#[test]
fn bind_left_identity_on_a_cursor() {
    let v = one_span(0, 1);
    let k = Cont::ThenPair(Box::new(Parser::Digit));
    let c = Cursor::new("12");
    let bound = bind(gen_trivial(v), Cont::ThenPair(Box::new(Parser::Digit)));
    let left = apply(&bound, c);
    let right = apply_cont(&k, v, c);
    assert!(left.is_some() && right.is_some());
    let (lv, lt) = left.unwrap();
    let (rv, rt) = right.unwrap();
    assert_eq!(lv, rv);
    assert_eq!(lt.pos, rt.pos);
}

#[test]
fn bind_right_identity_on_a_cursor() {
    let bound = bind(Parser::Digit, Cont::Done);
    let c = Cursor::new("7z");
    let left = apply(&bound, c);
    let right = parse_digit(c);
    assert!(left.is_some() && right.is_some());
    let (lv, lt) = left.unwrap();
    let (rv, rt) = right.unwrap();
    assert_eq!(lv, rv);
    assert_eq!(lt.pos, rt.pos);
}

#[test]
fn continuation_builds_the_chosen_parser() {
    let parser = cont_to_parser(Cont::PairWith(one_span(0, 1)), one_span(1, 2));
    let act = apply(&parser, Cursor::new("ab"));
    assert!(act.is_some());
    let (value, tail) = act.unwrap();
    assert_eq!(value, Compute::Two(Span { start: 0, end: 1 }, Span { start: 1, end: 2 }));
    assert_eq!(tail.pos, 0);
}

#[test]
fn pairing_needs_two_single_spans() {
    let parser = bind(Parser::Spaces, Cont::ThenPair(Box::new(Parser::Digit)));
    let c = Cursor::new(" 1x");
    let act = apply(&parser, c);
    assert!(act.is_some());
    let (value, tail) = act.unwrap();
    assert_eq!(value, Compute::Nothing);
    assert_eq!(tail.remaining_str(), "x");
}

#[test]
fn two_digit_number_rejects_other_values() {
    let c = Cursor::new("ab");
    assert_eq!(two_digit_number(&c, Compute::Nothing), None);
    assert_eq!(two_digit_number(&c, Compute::Number(3)), None);
    let not_digits = Compute::Two(Span { start: 0, end: 1 }, Span { start: 1, end: 2 });
    assert_eq!(two_digit_number(&c, not_digits), None);
}

#[test]
fn token_constructors_build_nodes() {
    let one = Token::from_one(Token::Number(3));
    assert_eq!(one, Token::Node(vec![Token::Number(3)]));
    let many = Token::from_many(vec![Token::Word(String::from("hi")), Token::Empty]);
    assert_eq!(many, Token::Node(vec![Token::Word(String::from("hi")), Token::Empty]));
}

#[test]
fn cursor_reports_its_remainder() {
    let c = Cursor::new("hello");
    assert_eq!(c.remaining_len(), 5);
    assert_eq!(c.remaining_str(), "hello");
}
