use ceceo::ast::{Atom, Node};
use ceceo::lexer::{Lexer, Tok};
use ceceo::parser::{parse_ceceo, ParseError};

#[test]
fn lexer_works_properly() {
    let source = "(atom 10 \"string\" '(1 2 3) string-append #true)";

    let mut all = Lexer::new(source);
    while let Some(t) = all.next() {
        println!("{:?}", t.unwrap().1);
    }

    let mut lex = Lexer::new(source);
    assert_eq!(lex.next().unwrap().unwrap().1, Tok::LeftParen);
    assert_eq!(
        lex.next().unwrap().unwrap().1,
        Tok::Symbol("atom".to_string())
    );
    assert_eq!(lex.next().unwrap().unwrap().1, Tok::Num("10".to_string()));
    assert_eq!(
        lex.next().unwrap().unwrap().1,
        Tok::Str("string".to_string())
    );

    assert_eq!(lex.next().unwrap().unwrap().1, Tok::Quote);
    assert_eq!(lex.next().unwrap().unwrap().1, Tok::LeftParen);
    assert_eq!(lex.next().unwrap().unwrap().1, Tok::Num("1".to_string()));
    assert_eq!(lex.next().unwrap().unwrap().1, Tok::Num("2".to_string()));
    assert_eq!(lex.next().unwrap().unwrap().1, Tok::Num("3".to_string()));
    assert_eq!(lex.next().unwrap().unwrap().1, Tok::RightParen);

    assert_eq!(
        lex.next().unwrap().unwrap().1,
        Tok::Symbol("string-append".to_string())
    );

    assert_eq!(
        lex.next().unwrap().unwrap().1,
        Tok::HashSymbol("#true".to_string())
    );

    assert_eq!(lex.next().unwrap().unwrap().1, Tok::RightParen);

    let mut count = 0;
    let mut counting = Lexer::new(source);
    while let Some(_) = counting.next() {
        count += 1;
    }
    assert_eq!(count, 13);
}

#[test]
fn lexer_lexer_works_properly() {
    let source = "(atom 10 \"string\")";

    let mut all = Lexer::new(source);
    while let Some(t) = all.next() {
        println!("{:?}", t.unwrap().1);
    }

    let mut lex = Lexer::new(source);
    assert_eq!(lex.next().unwrap().unwrap().1, Tok::LeftParen);
    assert_eq!(
        lex.next().unwrap().unwrap().1,
        Tok::Symbol("atom".to_string())
    );
    assert_eq!(lex.next().unwrap().unwrap().1, Tok::Num("10".to_string()));
    assert_eq!(
        lex.next().unwrap().unwrap().1,
        Tok::Str("string".to_string())
    );
    assert_eq!(lex.next().unwrap().unwrap().1, Tok::RightParen);

    let mut count = 0;
    let mut counting = Lexer::new(source);
    while let Some(_) = counting.next() {
        count += 1;
    }
    assert_eq!(count, 5);
}

#[test]
fn lib_basic_expr_test() {
    let input = "(atom 10 \"string\" + - * /)";
    let parsed_expr = parse_ceceo(input).unwrap();
    println!("{parsed_expr:?}");
}

#[test]
fn lib_recursive_expr_test() {
    let input = "(atom atom (atom 10 \"string\" + - * /))";
    let parsed_expr = parse_ceceo(input).unwrap();
    println!("{parsed_expr:?}");
}

#[test]
fn multiple_expr_test() {
    let input = "(atom atom (atom 10 \"string\" + - * /)) (atom atom (atom 10 \"string\" + - * /))";
    let parsed_expr = parse_ceceo(input).unwrap();
    println!("{parsed_expr:?}");
}

#[test]
fn simple_program_test() {
    let input = "(auto i 0) (auto j 1) (auto k 2)";
    let x: Vec<char> = input.chars().skip(57).collect();
    println!("{x:?}");
    let parsed_expr = parse_ceceo(input).unwrap();
    println!("{parsed_expr:?}");
}

#[test]
fn real_program_test() {
    let input = "
    (auto i 0)
    (while (< i 30)
      (prog
        (cond ((&& (! (% i 3)) (! (% i 5))) (print \"FizzBuzz\"))
              ((! (% i 3)) (print \"Fizz\"))
              ((! (% i 5)) (print \"Buzz\"))
              (print i))
        (set i (+ i 1))))";
    match parse_ceceo(input) {
        Ok(parsed_expr) => println!("{parsed_expr:?}"),
        Err(err) => {
            println!("{err:?}");
            panic!();
        }
    }
}

#[test]
fn quote_list_test() {
    let input = "('(1 2 3) '(\"string\") '(symbol))";
    let parsed_expr = parse_ceceo(input).unwrap();
    println!("{parsed_expr:?}");
}

#[test]
fn quote_atom_test() {
    let input = "('1 'symbol '\"string\" '+)";
    let parsed_expr = parse_ceceo(input).unwrap();
    println!("{parsed_expr:?}");
}

#[test]
fn main_basic_expr_test() {
    let input = "(atom 10 \"string\" + - * /)";
    let parsed_expr = parse_ceceo(input).unwrap();
    println!("{:?}", parsed_expr);
}

#[test]
fn main_recursive_expr_test() {
    let input = "(atom atom (atom 10 \"string\" + - * /))";
    let parsed_expr = parse_ceceo(input).unwrap();
    println!("{:?}", parsed_expr);
}

#[test]
fn expr_test() {
    let input = "(atom 10 \"string\" + - * /)";
    let x = parse_ceceo(input).unwrap();
    println!("{:?}", x);
}

#[test]
fn parse_shapes_are_faithful() {
    let parsed = parse_ceceo("(a '(1) 'b \"s\" -3 #f)").unwrap();
    assert_eq!(parsed.len(), 1);
    let form = &parsed[0];
    assert_eq!(form[0], Node::Atom(Atom::Symbol("a".to_string())));
    assert_eq!(
        form[1],
        Node::QuoteList(vec![Node::Atom(Atom::Num(1))])
    );
    assert_eq!(form[2], Node::QuoteAtom(Atom::Symbol("b".to_string())));
    assert_eq!(form[3], Node::Atom(Atom::Str("s".to_string())));
    assert_eq!(form[4], Node::Atom(Atom::Num(-3)));
    assert_eq!(form[5], Node::Atom(Atom::Bool(false)));
}

#[test]
fn mixed_delimiters_are_interchangeable() {
    let parsed = parse_ceceo("[+ {* 2 2} (+ 5 1)]").unwrap();
    assert_eq!(parsed.len(), 1);
    assert_eq!(parsed[0].len(), 3);
}

#[test]
fn unclosed_form_fails() {
    assert_eq!(parse_ceceo("(+ 1 2"), Err(ParseError::UnexpectedEnd));
}

#[test]
fn top_level_atom_fails() {
    assert_eq!(parse_ceceo("5 (+ 1 2)"), Err(ParseError::UnexpectedToken));
}

#[test]
fn oversized_number_fails() {
    assert_eq!(parse_ceceo("(+ 3000000000)"), Err(ParseError::InvalidNumber));
    assert_eq!(parse_ceceo("(+ 2147483647)").is_ok(), true);
    assert_eq!(parse_ceceo("(+ -2147483648)").is_ok(), true);
    assert_eq!(parse_ceceo("(+ -2147483649)"), Err(ParseError::InvalidNumber));
}

#[test]
fn unknown_hash_literal_fails() {
    assert_eq!(parse_ceceo("(#maybe)"), Err(ParseError::UnknownHashSymbol));
}

#[test]
fn hash_literals_parse_to_booleans() {
    let t = ceceo::ast::parse_hash_symbol("#T");
    assert_eq!(t, Atom::Bool(true));
    let f = ceceo::ast::parse_hash_symbol("#false");
    assert_eq!(f, Atom::Bool(false));
}

#[test]
fn lexer_character_classes() {
    assert!(Lexer::is_whitespace(' '));
    assert!(Lexer::is_whitespace('\r'));
    assert!(Lexer::is_left_paren('['));
    assert!(Lexer::is_right_paren('}'));
    assert!(Lexer::is_quote('\''));
    assert!(Lexer::is_string_quote('"'));
    assert!(Lexer::is_hash_char('#'));
    assert!(Lexer::is_decimal_digit('7'));
    assert!(!Lexer::is_decimal_digit('a'));
    assert!(Lexer::is_symbol_char('-'));
    assert!(!Lexer::is_symbol_char('('));
}
