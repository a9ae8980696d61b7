use rs_lox::{Precedence, TokenType};

#[test]
fn precedence_of_each_operator() {
    assert_eq!(Precedence::from(TokenType::Equal), Precedence::Assignment);
    assert_eq!(Precedence::from(TokenType::Or), Precedence::Or);
    assert_eq!(Precedence::from(TokenType::And), Precedence::And);
    assert_eq!(Precedence::from(TokenType::EqualEqual), Precedence::Equality);
    assert_eq!(Precedence::from(TokenType::BangEqual), Precedence::Equality);
    assert_eq!(Precedence::from(TokenType::Greater), Precedence::Comparison);
    assert_eq!(Precedence::from(TokenType::GreaterEqual), Precedence::Comparison);
    assert_eq!(Precedence::from(TokenType::Less), Precedence::Comparison);
    assert_eq!(Precedence::from(TokenType::LessEqual), Precedence::Comparison);
    assert_eq!(Precedence::from(TokenType::Plus), Precedence::Term);
    assert_eq!(Precedence::from(TokenType::Minus), Precedence::Term);
    assert_eq!(Precedence::from(TokenType::Star), Precedence::Factor);
    assert_eq!(Precedence::from(TokenType::Slash), Precedence::Factor);
    assert_eq!(Precedence::from(TokenType::Dot), Precedence::Call);
}

#[test]
fn other_tokens_bind_nothing() {
    assert_eq!(Precedence::from(TokenType::Semicolon), Precedence::Lowest);
    assert_eq!(Precedence::from(TokenType::Bang), Precedence::Lowest);
    assert_eq!(Precedence::from(TokenType::Ident), Precedence::Lowest);
    assert_eq!(Precedence::from(TokenType::EoF), Precedence::Lowest);
}

#[test]
fn precedences_are_ordered() {
    let order = [
        Precedence::Lowest,
        Precedence::Assignment,
        Precedence::Or,
        Precedence::And,
        Precedence::Equality,
        Precedence::Comparison,
        Precedence::Term,
        Precedence::Factor,
        Precedence::Unary,
        Precedence::Call,
        Precedence::Primary,
    ];
    for i in 0..order.len() {
        assert_eq!(order[i].rank() as usize, i);
        for j in 0..order.len() {
            assert_eq!(order[i].at_least(order[j]), i >= j);
            assert_eq!(order[i] < order[j], i < j);
        }
    }
}
