use parser_combinators::{
    alternative, any_char, bind, fail, input_sub, make_input, many, many_exact, optional,
    parse_while, prefix, run, sequence_keep_left, sequence_keep_right, sequence_pair, wrap,
    CharClass, Parser, ParserError,
};

fn any_char_error(pos: usize) -> ParserError {
    ParserError {
        desc: "expected any char, got none (input.len() = 0)".to_string(),
        pos,
    }
}

#[test]
fn key_value_pair_parser_test() {
    let input = "key1 = value1".to_string();
    let wss = parse_while(CharClass::Whitespace);

    let name_parser = parse_while(CharClass::Alphanumeric);
    let entry_parser = sequence_pair(
        sequence_keep_left(
            sequence_keep_left(
                sequence_keep_right(wss.clone(), name_parser.clone()),
                wss.clone(),
            ),
            prefix("="),
        ),
        sequence_keep_right(wss.clone(), name_parser.clone()),
    );

    let parsed = run(entry_parser, input);
    assert_eq!(parsed, Ok(("key1".to_string(), "value1".to_string())));
}

#[test]
fn or_test() {
    let input = "111aaa".to_string();
    let parser = alternative(prefix("aaa"), prefix("111"));

    let parsed = run(parser, input);
    assert_eq!(parsed, Ok("111"));
}

#[test]
fn optional_test() {
    let input = "111aaa".to_string();
    let parser = optional(prefix("111"));

    let parsed = run(parser, input);
    assert_eq!(parsed, Ok(Some("111")));

    let input = "aaa".to_string();
    let parser = optional(prefix("111"));

    let parsed = run(parser, input);
    assert_eq!(parsed, Ok(None));
}

#[test]
fn any_char_test() {
    let parser = any_char();
    let parsed = run(parser, "hello".to_string());
    assert_eq!(parsed, Ok('h'));

    let parser = any_char();
    let parsed = run(parser, "".to_string());

    assert_eq!(
        parsed,
        Err(ParserError {
            desc: format!("expected any char, got none (input.len() = {})", 0).to_string(),
            pos: 0
        })
    );
}

#[test]
fn many_exact_test() {
    let input = "hel".to_string();
    let parser = many_exact(3, any_char());

    let parsed = run(parser, input);
    assert_eq!(parsed, Ok(vec!['h', 'e', 'l']));

    let input = "he".to_string();
    let parser = many_exact(3, any_char());

    let parsed = run(parser, input);
    assert_eq!(
        parsed,
        Err(ParserError {
            desc: format!("expected any char, got none (input.len() = {})", 0).to_string(),
            pos: 2
        })
    );
}

#[test]
fn many_test() {
    let input = "hello".to_string();
    let parser = many(any_char());

    let parsed = run(parser, input);
    assert_eq!(parsed, Ok(vec!['h', 'e', 'l', 'l', 'o']));
}

#[test]
fn parse_while_stops_at_first_failing_char() {
    let parsed = run(parse_while(CharClass::AsciiDigit), "123abc4".to_string());
    assert_eq!(parsed, Ok("123".to_string()));
    let rest = sequence_keep_right(parse_while(CharClass::AsciiDigit), any_char());
    assert_eq!(run(rest, "123abc4".to_string()), Ok('a'));
}

#[test]
fn parse_while_empty_match() {
    assert_eq!(run(parse_while(CharClass::AsciiDigit), "abc".to_string()), Ok(String::new()));
    assert_eq!(run(parse_while(CharClass::Whitespace), "".to_string()), Ok(String::new()));
}

#[test]
fn parse_while_whole_input() {
    assert_eq!(run(parse_while(CharClass::Not(',')), "abc".to_string()), Ok("abc".to_string()));
    assert_eq!(run(parse_while(CharClass::Not(',')), "ab,c".to_string()), Ok("ab".to_string()));
    assert_eq!(run(parse_while(CharClass::Is('a')), "aab".to_string()), Ok("aa".to_string()));
}

#[test]
fn parse_while_unicode_classes() {
    assert_eq!(
        run(parse_while(CharClass::Whitespace), "\u{3000}\t x".to_string()),
        Ok("\u{3000}\t ".to_string())
    );
    assert_eq!(
        run(parse_while(CharClass::Alphanumeric), "é9z-".to_string()),
        Ok("é9z".to_string())
    );
    assert_eq!(run(parse_while(CharClass::Alphanumeric), " a".to_string()), Ok(String::new()));
}

#[test]
fn many_exact_zero_consumes_nothing() {
    let parser = sequence_pair(many_exact(0, any_char()), any_char());
    assert_eq!(run(parser, "xy".to_string()), Ok((vec![], 'x')));
    assert_eq!(run(many_exact(0, any_char()), "".to_string()), Ok(vec![]));
}

#[test]
fn many_exact_fails_at_end_of_input() {
    assert_eq!(run(many_exact(5, any_char()), "abc".to_string()), Err(any_char_error(3)));
    assert_eq!(run(many_exact(1, any_char()), "".to_string()), Err(any_char_error(0)));
}

#[test]
fn many_on_empty_input() {
    assert_eq!(run(many(any_char()), "".to_string()), Ok(vec![]));
}

#[test]
fn many_consumes_all_input() {
    let parser = sequence_pair(many(any_char()), optional(any_char()));
    assert_eq!(run(parser, "ab".to_string()), Ok((vec!['a', 'b'], None)));
}

#[test]
fn many_stops_where_inner_consumes_nothing() {
    let parser = many(parse_while(CharClass::Is('z')));
    assert_eq!(run(parser, "abc".to_string()), Ok(vec![]));
    let parser = many(parse_while(CharClass::Is('z')));
    assert_eq!(run(parser, "zzab".to_string()), Ok(vec!["zz".to_string()]));
}

#[test]
fn many_of_prefix() {
    let parser = sequence_pair(many(prefix("ab")), any_char());
    assert_eq!(run(parser, "ababa".to_string()), Ok((vec!["ab", "ab"], 'a')));
}

#[test]
fn optional_no_match_leaves_input() {
    let parser = sequence_pair(optional(prefix("x")), any_char());
    assert_eq!(run(parser, "yes".to_string()), Ok((None, 'y')));
}

#[test]
fn alternative_both_fail_reports_second() {
    let parser = alternative(prefix("a"), prefix("b"));
    assert_eq!(
        run(parser, "c".to_string()),
        Err(ParserError { desc: "expected b".to_string(), pos: 0 })
    );
}

#[test]
fn alternative_backtracks_after_partial_consumption() {
    let left = sequence_keep_right(prefix("1"), prefix("x"));
    let parser = alternative(left, prefix("11"));
    assert_eq!(run(parser, "111aaa".to_string()), Ok("11"));
}

#[test]
fn prefix_longer_than_input_fails() {
    assert_eq!(
        run(prefix("abc"), "ab".to_string()),
        Err(ParserError { desc: "expected abc".to_string(), pos: 0 })
    );
    assert_eq!(run(prefix(""), "".to_string()), Ok(""));
}

#[test]
fn error_position_is_absolute() {
    let parser = sequence_keep_right(prefix("ab"), prefix("cd"));
    assert_eq!(
        run(parser, "abxx".to_string()),
        Err(ParserError { desc: "expected cd".to_string(), pos: 2 })
    );
    let parser = sequence_keep_left(prefix("ab"), any_char());
    assert_eq!(run(parser, "ab".to_string()), Err(any_char_error(2)));
}

#[test]
fn wrap_succeeds_without_consuming() {
    let parser = sequence_pair(wrap(7u32), any_char());
    assert_eq!(run(parser, "q".to_string()), Ok((7u32, 'q')));
}

#[test]
fn fail_reports_given_error() {
    let e = ParserError { desc: "nope".to_string(), pos: 0 };
    assert_eq!(run(fail::<u32>(e.clone()), "abc".to_string()), Err(e));
    let e = ParserError { desc: "late".to_string(), pos: 0 };
    let parser = sequence_keep_right(prefix("ab"), fail::<u32>(e));
    assert_eq!(
        run(parser, "abc".to_string()),
        Err(ParserError { desc: "late".to_string(), pos: 2 })
    );
}

#[test]
fn map_applies_function() {
    let parser = parser_combinators::transform::map(|c: char| c as u32, any_char());
    assert_eq!(run(parser, "A".to_string()), Ok(65u32));
    let parser = parser_combinators::transform::map(|c: char| c as u32, any_char());
    assert_eq!(run(parser, "".to_string()), Err(any_char_error(0)));
}

#[test]
fn bind_chooses_next_parser() {
    let parser = bind(
        |c: char| many_exact(c.to_digit(10).unwrap_or(0) as usize, any_char()),
        any_char(),
    );
    assert_eq!(run(parser, "3abcd".to_string()), Ok(vec!['a', 'b', 'c']));
    let parser = bind(
        |c: char| many_exact(c.to_digit(10).unwrap_or(0) as usize, any_char()),
        any_char(),
    );
    assert_eq!(run(parser, "4ab".to_string()), Err(any_char_error(3)));
}

#[test]
fn any_char_takes_one_unicode_char() {
    let parser = sequence_pair(any_char(), any_char());
    assert_eq!(run(parser, "éx".to_string()), Ok(('é', 'x')));
}

#[test]
fn states_hold_remaining_text_and_offset() {
    let s = make_input("hello".to_string());
    assert_eq!(s.text, "hello");
    assert_eq!(s.pos, 0);
    let t = input_sub(1, 3, &s);
    assert_eq!(t.text, "ell");
    assert_eq!(t.pos, 1);
    let (rest, r) = any_char().parse(t);
    assert_eq!(r, Ok('e'));
    assert_eq!(rest.text, "ll");
    assert_eq!(rest.pos, 2);
}
