//! What holds of the three stages together: what comes out when the text of
//! a tree is scanned and parsed again.

use crate::lexer::laws::law_float_literal;
use crate::lexer::rules::tokenize;
use crate::lexer::{eof_token, TokenType, TokenView, ValueView};
use crate::parser::ast::AstView;
use crate::parser::grammar::program;
use crate::parser::laws::law_single_literal;
use crate::text::all_digits;
use crate::transpiler::rendering::render;
use vstd::prelude::*;

verus! {

/// The trees that come out when the text of a tree is scanned and parsed as
/// a program; nothing where one of the three stages fails.
pub open spec fn reparsed(node: AstView) -> Option<Seq<AstView>> {
    match render(node, 0) {
        Err(_) => None,
        Ok(text) => match tokenize(text) {
            Err(_) => None,
            Ok(tokens) => match program(tokens) {
                Err(_) => None,
                Ok((trees, _)) => Some(trees),
            },
        },
    }
}

/// A float literal, digits with a point among them that is neither first nor
/// last, comes back as it was.
pub proof fn law_float_literal_comes_back(whole: Seq<char>, fraction: Seq<char>)
    requires
        whole.len() > 0,
        fraction.len() > 0,
        all_digits(whole),
        all_digits(fraction),
    ensures
        reparsed(AstView::FloatLiteral(whole + seq!['.'] + fraction)) == Some(
            seq![AstView::FloatLiteral(whole + seq!['.'] + fraction)],
        ),
{
    let text = whole + seq!['.'] + fraction;
    law_float_literal(whole, fraction);
    let token = TokenView {
        kind: TokenType::Float,
        lexeme: text,
        value: Some(ValueView::FloatLiteral(text)),
    };
    assert(seq![token, eof_token()].drop_first() =~= seq![eof_token()]);
    law_single_literal(token, AstView::FloatLiteral(text));
}

} // verus!
