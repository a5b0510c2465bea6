//! Tokens of arithmetic expressions.
use vstd::prelude::*;

verus! {

/// A token of an arithmetic expression. A float literal is kept as its text.
#[derive(Debug, PartialEq)]
#[allow(inconsistent_fields)]
pub enum Token {
    AdditionnOperator,
    SubtractionOperator,
    MultiplicationOperator,
    DivisionOperator,
    Integer { value: i64 },
    Float { value: String },
    Factor { value: Box<Token> },
    Term { left: Box<Token>, right: Vec<(Token, Token)> },
    Expression { left: Box<Token>, right: Vec<(Token, Token)> },
    Program { expressions: Vec<Token> },
}

/// An expression token with its text as characters.
#[allow(inconsistent_fields)]
pub enum ExprView {
    AdditionnOperator,
    SubtractionOperator,
    MultiplicationOperator,
    DivisionOperator,
    Integer { value: i64 },
    Float { value: Seq<char> },
    Factor { value: Box<ExprView> },
    Term { left: Box<ExprView>, right: Seq<(ExprView, ExprView)> },
    Expression { left: Box<ExprView>, right: Seq<(ExprView, ExprView)> },
    Program { expressions: Seq<ExprView> },
}

/// A token, viewed.
pub open spec fn token_view(t: Token) -> ExprView
    decreases t,
{
    match t {
        Token::AdditionnOperator => ExprView::AdditionnOperator,
        Token::SubtractionOperator => ExprView::SubtractionOperator,
        Token::MultiplicationOperator => ExprView::MultiplicationOperator,
        Token::DivisionOperator => ExprView::DivisionOperator,
        Token::Integer { value } => ExprView::Integer { value },
        Token::Float { value } => ExprView::Float { value: value@ },
        Token::Factor { value } => ExprView::Factor { value: Box::new(token_view(*value)) },
        Token::Term { left, right } => ExprView::Term {
            left: Box::new(token_view(*left)),
            right: pairs_view(right@),
        },
        Token::Expression { left, right } => ExprView::Expression {
            left: Box::new(token_view(*left)),
            right: pairs_view(right@),
        },
        Token::Program { expressions } => ExprView::Program {
            expressions: list_view(expressions@),
        },
    }
}

/// A list of operator and operand pairs, viewed.
pub open spec fn pairs_view(v: Seq<(Token, Token)>) -> Seq<(ExprView, ExprView)>
    decreases v,
{
    if v.len() == 0 {
        Seq::empty()
    } else {
        pairs_view(v.drop_last()).push((token_view(v.last().0), token_view(v.last().1)))
    }
}

/// A list of tokens, viewed.
pub open spec fn list_view(v: Seq<Token>) -> Seq<ExprView>
    decreases v,
{
    if v.len() == 0 {
        Seq::empty()
    } else {
        list_view(v.drop_last()).push(token_view(v.last()))
    }
}

impl View for Token {
    type V = ExprView;

    open spec fn view(&self) -> ExprView {
        token_view(*self)
    }
}

} // verus!
