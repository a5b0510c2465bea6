use iridium::expression_parsers::expression;
use iridium::token::Token;

#[test]
fn test_parse_expression() {
    let result = expression("3*4");
    assert_eq!(result.is_ok(), true);
}

#[test]
fn test_parse_nested_expression() {
    let result = expression("(3*4)+1");
    assert_eq!(result.is_ok(), true);
}

fn int_factor(v: i64) -> Token {
    Token::Factor { value: Box::new(Token::Integer { value: v }) }
}

#[test]
fn expression_tree_of_a_product() {
    let (rest, t) = expression("3*4").unwrap();
    assert_eq!(rest, "");
    let expected = Token::Expression {
        left: Box::new(Token::Term {
            left: Box::new(int_factor(3)),
            right: vec![(Token::MultiplicationOperator, int_factor(4))],
        }),
        right: vec![],
    };
    assert_eq!(t, expected);
}

#[test]
fn expression_tree_of_a_nested_sum() {
    let (rest, t) = expression("(3*4)+1").unwrap();
    assert_eq!(rest, "");
    let inner = Token::Expression {
        left: Box::new(Token::Term {
            left: Box::new(int_factor(3)),
            right: vec![(Token::MultiplicationOperator, int_factor(4))],
        }),
        right: vec![],
    };
    let expected = Token::Expression {
        left: Box::new(Token::Term {
            left: Box::new(Token::Factor { value: Box::new(inner) }),
            right: vec![],
        }),
        right: vec![(
            Token::AdditionnOperator,
            Token::Term { left: Box::new(int_factor(1)), right: vec![] },
        )],
    };
    assert_eq!(t, expected);
}

#[test]
fn expression_operators_and_precedence() {
    let (rest, t) = expression("8 / 2 - 1 ").unwrap();
    assert_eq!(rest, "");
    let expected = Token::Expression {
        left: Box::new(Token::Term {
            left: Box::new(int_factor(8)),
            right: vec![(Token::DivisionOperator, int_factor(2))],
        }),
        right: vec![(
            Token::SubtractionOperator,
            Token::Term { left: Box::new(int_factor(1)), right: vec![] },
        )],
    };
    assert_eq!(t, expected);
}

#[test]
fn expression_numbers() {
    let (_, t) = expression("-2.50").unwrap();
    let expected_float = Token::Expression {
        left: Box::new(Token::Term {
            left: Box::new(Token::Factor {
                value: Box::new(Token::Float { value: "-2.50".to_string() }),
            }),
            right: vec![],
        }),
        right: vec![],
    };
    assert_eq!(t, expected_float);
    let (_, t) = expression("-9223372036854775808").unwrap();
    let expected_min = Token::Expression {
        left: Box::new(Token::Term { left: Box::new(int_factor(i64::MIN)), right: vec![] }),
        right: vec![],
    };
    assert_eq!(t, expected_min);
    assert!(expression("9223372036854775808").is_err());
}

#[test]
fn expression_leaves_what_it_cannot_read() {
    let (rest, _) = expression("1 + 2)").unwrap();
    assert_eq!(rest, ")");
    assert!(expression("(1 + 2").is_err());
    assert!(expression("*").is_err());
    let (rest, _) = expression("2 *").unwrap();
    assert_eq!(rest, "*");
}
