//! Blocks do not come back: the text of a conditional or of a loop is Python
//! and no source text, so scanning and parsing it again gives no tree.

use crate::laws::reparsed;
use crate::lexer::rules::{
    digraph_kind, keyword_table, lookup, prepend, scan_at, tokens_from, word_kind, Scan,
};
use crate::lexer::{advance, TokenType, TokenView};
use crate::parser::ast::AstView;
use crate::lexer::laws::is_word;
use crate::parser::grammar::{
    chain, consume, function_definition, function_header, function_return, if_statement,
    param_list, program, statement, while_loop, Level,
};
use crate::parser::SyntaxError;
use crate::round_trip::{
    lemma_chain_comes_back, lemma_first_char, lemma_name_scans, lemma_occurs_split,
    lemma_plain_text_scans, lemma_prepend_twice, lemma_word_scans, name_token, occurs_at, plain,
    scans, source_tokens, stands,
};
use crate::transpiler::rendering::{render, render_block, render_list};
use crate::transpiler::GenerationError;
use vstd::prelude::*;

verus! {

/// The token of a colon.
pub open spec fn colon_token() -> TokenView {
    TokenView { kind: TokenType::Colon, lexeme: seq![':'], value: None }
}

/// The token of a reserved word.
pub open spec fn word_token(word: Seq<char>) -> TokenView {
    TokenView { kind: word_kind(word), lexeme: word, value: None }
}

/// A word that a table holds at a place, and at no place before it, makes the
/// kind that the table gives at that place.
pub proof fn lemma_lookup_at(table: Seq<(Seq<char>, TokenType)>, word: Seq<char>, at: int)
    requires
        0 <= at < table.len(),
        table[at].0 == word,
        forall|j: int| 0 <= j < at ==> (#[trigger] table[j]).0 != word,
    ensures
        lookup(table, word) == Some(table[at].1),
    decreases at,
{
    if at > 0 {
        assert(table[0].0 != word);
        let rest = table.drop_first();
        assert(rest[at - 1] == table[at]);
        assert forall|j: int| 0 <= j < at - 1 implies (#[trigger] rest[j]).0 != word by {
            assert(rest[j] == table[j + 1]);
        }
        lemma_lookup_at(rest, word, at - 1);
    }
}

/// `if` is a reserved word.
pub proof fn lemma_if_is_reserved()
    ensures
        word_kind(seq!['i', 'f']) == TokenType::If,
{
    reveal_strlit("enum");
    reveal_strlit("endenum");
    reveal_strlit("struct");
    reveal_strlit("endstruct");
    reveal_strlit("if");
    let table = keyword_table();
    let word = seq!['i', 'f'];
    assert(table[4].0 =~= word);
    assert forall|j: int| 0 <= j < 4 implies (#[trigger] table[j]).0 != word by {
        assert(table[j].0.len() != 2);
    }
    lemma_lookup_at(table, word, 4);
}

/// `while` is a reserved word.
pub proof fn lemma_while_is_reserved()
    ensures
        word_kind(seq!['w', 'h', 'i', 'l', 'e']) == TokenType::While,
{
    reveal_strlit("enum");
    reveal_strlit("endenum");
    reveal_strlit("struct");
    reveal_strlit("endstruct");
    reveal_strlit("if");
    reveal_strlit("then");
    reveal_strlit("endif");
    reveal_strlit("else");
    reveal_strlit("def");
    reveal_strlit("enddef");
    reveal_strlit("for");
    reveal_strlit("do");
    reveal_strlit("done");
    reveal_strlit("while");
    let table = keyword_table();
    let word = seq!['w', 'h', 'i', 'l', 'e'];
    assert(table[13].0 =~= word);
    assert forall|j: int| 0 <= j < 13 implies (#[trigger] table[j]).0 != word by {
        assert(table[j].0.len() != 5 || table[j].0[0] != 'w');
    }
    lemma_lookup_at(table, word, 13);
}

/// The length of the header of a block: the word, a space, the expression, a
/// colon and a line break.
pub open spec fn header_length(word: Seq<char>, condition: AstView) -> int {
    (word.len() + render(condition, 0)->Ok_0.len() + 2) as int
}

/// The header of a block in Python, a word, a space, a plain expression and
/// a colon at the end of the line, is scanned as the token of the word, the
/// tokens of the expression and a colon.
pub proof fn lemma_header_scans(word: Seq<char>, condition: AstView, src: Seq<char>)
    requires
        word.len() > 0,
        forall|i: int| 0 <= i < word.len() ==> 'a' <= #[trigger] word[i] <= 'z',
        plain(condition),
        render(condition, 0) is Ok,
        occurs_at(src, 0, word + seq![' '] + render(condition, 0)->Ok_0 + seq![':', '\n']),
    ensures
        tokens_from(src, 0, 0, 0) == prepend(
            seq![word_token(word)] + source_tokens(condition) + seq![colon_token()],
            tokens_from(
                src,
                header_length(word, condition),
                0,
                header_length(word, condition),
            ),
        ),
{
    let c = render(condition, 0)->Ok_0;
    let w = word.len() as int;
    let q = w + 1 + c.len();
    lemma_occurs_split(src, 0, word + seq![' '] + c, seq![':', '\n']);
    lemma_occurs_split(src, 0, word + seq![' '], c);
    lemma_occurs_split(src, 0, word, seq![' ']);
    assert(src[w + 0] == seq![' '][0]);
    assert(src[q + 0] == seq![':', '\n'][0]);
    assert(src[q + 1] == seq![':', '\n'][1]);
    lemma_word_scans(word, src, 0, 0, 0);
    assert(tokens_from(src, w, 0, w) == tokens_from(src, w + 1, 0, w + 1));
    assert(stands(condition, src, w + 1)) by {
        reveal(stands);
    }
    lemma_plain_text_scans(condition, src, w + 1, 0, w + 1);
    reveal(scans);
    assert(digraph_kind(':', '\n') is None);
    assert(scan_at(src, q) == (Scan::Token { kind: TokenType::Colon, value: None, end: q + 1 }));
    assert(src.subrange(q, q + 1) =~= seq![':']);
    let after = tokens_from(src, q + 1, 0, q + 1);
    assert(tokens_from(src, q, 0, q) == prepend(seq![colon_token()], after));
    lemma_prepend_twice(source_tokens(condition), seq![colon_token()], after);
    lemma_prepend_twice(
        seq![word_token(word)],
        source_tokens(condition) + seq![colon_token()],
        after,
    );
    assert(seq![word_token(word)] + (source_tokens(condition) + seq![colon_token()])
        =~= seq![word_token(word)] + source_tokens(condition) + seq![colon_token()]);
}

/// No program begins with `if`, a plain expression and a colon.
pub proof fn lemma_conditional_header_is_no_program(
    opening: TokenView,
    condition: AstView,
    rest: Seq<TokenView>,
)
    requires
        opening.kind == TokenType::If,
        plain(condition),
    ensures
        program(seq![opening] + source_tokens(condition) + seq![colon_token()] + rest) is Err,
{
    let s = seq![opening] + source_tokens(condition) + seq![colon_token()] + rest;
    let behind = seq![colon_token()] + rest;
    assert(advance(s) =~= source_tokens(condition) + behind);
    lemma_chain_comes_back(condition, behind, Level::Equality);
    assert(chain(condition, behind, Level::Equality) == Ok::<
        (AstView, Seq<TokenView>),
        SyntaxError,
    >((condition, behind)));
    assert(consume(behind, TokenType::Then) is Err);
    assert(if_statement(s) is Err);
    assert(statement(s) == if_statement(s));
}

/// No program begins with `while`, a plain expression and a colon.
pub proof fn lemma_loop_header_is_no_program(
    opening: TokenView,
    condition: AstView,
    rest: Seq<TokenView>,
)
    requires
        opening.kind == TokenType::While,
        plain(condition),
    ensures
        program(seq![opening] + source_tokens(condition) + seq![colon_token()] + rest) is Err,
{
    let s = seq![opening] + source_tokens(condition) + seq![colon_token()] + rest;
    let behind = seq![colon_token()] + rest;
    assert(advance(s) =~= source_tokens(condition) + behind);
    lemma_chain_comes_back(condition, behind, Level::Equality);
    assert(chain(condition, behind, Level::Equality) == Ok::<
        (AstView, Seq<TokenView>),
        SyntaxError,
    >((condition, behind)));
    assert(consume(behind, TokenType::Do) is Err);
    assert(while_loop(s) is Err);
    assert(statement(s) == while_loop(s));
}

/// A conditional whose condition is a plain expression does not come back,
/// whatever its body: its text is not a program.
pub proof fn law_conditional_does_not_come_back(condition: AstView, body: Seq<AstView>)
    requires
        plain(condition),
    ensures
        reparsed(AstView::IfStatement { condition: Box::new(condition), body }) is None,
{
    let tree = AstView::IfStatement { condition: Box::new(condition), body };
    lemma_first_char(condition);
    if let Ok(text) = render(tree, 0) {
        reveal_strlit("if ");
        reveal_strlit(":\n");
        let c = render(condition, 0)->Ok_0;
        let b = render_block(body, body.len(), 1)->Ok_0;
        let word = seq!['i', 'f'];
        let header = word + seq![' '] + c + seq![':', '\n'];
        assert("if "@ + c + ":\n"@ =~= header);
        assert(text == header + b);
        assert(occurs_at(text, 0, header)) by {
            assert forall|i: int| 0 <= i < header.len() implies text[0 + i]
                == #[trigger] header[i] by {}
        }
        lemma_header_scans(word, condition, text);
        lemma_if_is_reserved();
        let p = header_length(word, condition);
        if let Ok(rest) = tokens_from(text, p, 0, p) {
            lemma_conditional_header_is_no_program(word_token(word), condition, rest);
        }
    }
}

/// A loop whose condition is a plain expression does not come back, whatever
/// its body: its text is not a program.
pub proof fn law_loop_does_not_come_back(condition: AstView, body: Seq<AstView>)
    requires
        plain(condition),
    ensures
        reparsed(AstView::WhileLoop { condition: Box::new(condition), body }) is None,
{
    let tree = AstView::WhileLoop { condition: Box::new(condition), body };
    lemma_first_char(condition);
    if let Ok(text) = render(tree, 0) {
        reveal_strlit("while ");
        reveal_strlit(":\n");
        let c = render(condition, 0)->Ok_0;
        let b = render_block(body, body.len(), 1)->Ok_0;
        let word = seq!['w', 'h', 'i', 'l', 'e'];
        let header = word + seq![' '] + c + seq![':', '\n'];
        assert("while "@ + c + ":\n"@ =~= header);
        assert(text == header + b);
        assert(occurs_at(text, 0, header)) by {
            assert forall|i: int| 0 <= i < header.len() implies text[0 + i]
                == #[trigger] header[i] by {}
        }
        lemma_header_scans(word, condition, text);
        lemma_while_is_reserved();
        let p = header_length(word, condition);
        if let Ok(rest) = tokens_from(text, p, 0, p) {
            lemma_loop_header_is_no_program(word_token(word), condition, rest);
        }
    }
}

/// `def` is a reserved word.
pub proof fn lemma_def_is_reserved()
    ensures
        word_kind(seq!['d', 'e', 'f']) == TokenType::Def,
{
    reveal_strlit("enum");
    reveal_strlit("endenum");
    reveal_strlit("struct");
    reveal_strlit("endstruct");
    reveal_strlit("if");
    reveal_strlit("then");
    reveal_strlit("endif");
    reveal_strlit("else");
    reveal_strlit("def");
    let table = keyword_table();
    let word = seq!['d', 'e', 'f'];
    assert(table[8].0 =~= word);
    assert forall|j: int| 0 <= j < 8 implies (#[trigger] table[j]).0 != word by {
        assert(table[j].0.len() != 3);
    }
    lemma_lookup_at(table, word, 8);
}

/// The token of an opening parenthesis.
pub open spec fn left_paren_token() -> TokenView {
    TokenView { kind: TokenType::LeftParen, lexeme: seq!['('], value: None }
}

/// The token of a closing parenthesis.
pub open spec fn right_paren_token() -> TokenView {
    TokenView { kind: TokenType::RightParen, lexeme: seq![')'], value: None }
}

/// The tokens of the Python header of a function without parameters.
pub open spec fn function_header_tokens(name: Seq<char>) -> Seq<TokenView> {
    seq![
        word_token(seq!['d', 'e', 'f']),
        name_token(name),
        left_paren_token(),
        right_paren_token(),
        colon_token(),
    ]
}

/// The Python header of a function without parameters is scanned as `def`,
/// the name, two parentheses and a colon.
pub proof fn lemma_function_header_scans(name: Seq<char>, src: Seq<char>)
    requires
        is_word(name),
        lookup(keyword_table(), name) is None,
        occurs_at(src, 0, seq!['d', 'e', 'f', ' '] + name + seq!['(', ')', ':', '\n']),
    ensures
        tokens_from(src, 0, 0, 0) == prepend(
            function_header_tokens(name),
            tokens_from(src, name.len() as int + 7, 0, name.len() as int + 7),
        ),
{
    let word = seq!['d', 'e', 'f'];
    let opening = seq!['d', 'e', 'f', ' '];
    let closing = seq!['(', ')', ':', '\n'];
    let q = name.len() as int + 4;
    lemma_occurs_split(src, 0, opening + name, closing);
    lemma_occurs_split(src, 0, opening, name);
    assert(src[0int + 0] == opening[0]);
    assert(src[0int + 1] == opening[1]);
    assert(src[0int + 2] == opening[2]);
    assert(src[0int + 3] == opening[3]);
    assert(src[q + 0] == closing[0]);
    assert(src[q + 1] == closing[1]);
    assert(src[q + 2] == closing[2]);
    assert(src[q + 3] == closing[3]);
    assert(occurs_at(src, 0, word));
    lemma_word_scans(word, src, 0, 0, 0);
    assert(tokens_from(src, 3, 0, 3) == tokens_from(src, 4, 0, 4));
    lemma_name_scans(name, src, 4, 0, 4);
    assert(scan_at(src, q) == (Scan::Token {
        kind: TokenType::LeftParen,
        value: None,
        end: q + 1,
    }));
    assert(src.subrange(q, q + 1) =~= seq!['(']);
    assert(scan_at(src, q + 1) == (Scan::Token {
        kind: TokenType::RightParen,
        value: None,
        end: q + 2,
    }));
    assert(src.subrange(q + 1, q + 2) =~= seq![')']);
    assert(scan_at(src, q + 2) == (Scan::Token {
        kind: TokenType::Colon,
        value: None,
        end: q + 3,
    }));
    assert(src.subrange(q + 2, q + 3) =~= seq![':']);
    let after = tokens_from(src, q + 3, 0, q + 3);
    let t3 = prepend(seq![colon_token()], after);
    let t2 = prepend(seq![right_paren_token()], t3);
    let t1 = prepend(seq![left_paren_token()], t2);
    assert(tokens_from(src, q + 2, 0, q + 2) == t3);
    assert(tokens_from(src, q + 1, 0, q + 1) == t2);
    assert(tokens_from(src, q, 0, q) == t1);
    lemma_prepend_twice(seq![right_paren_token()], seq![colon_token()], after);
    lemma_prepend_twice(
        seq![left_paren_token()],
        seq![right_paren_token()] + seq![colon_token()],
        after,
    );
    lemma_prepend_twice(
        seq![name_token(name)],
        seq![left_paren_token()] + (seq![right_paren_token()] + seq![colon_token()]),
        after,
    );
    lemma_prepend_twice(
        seq![word_token(word)],
        seq![name_token(name)] + (seq![left_paren_token()] + (seq![right_paren_token()] + seq![
            colon_token(),
        ])),
        after,
    );
    assert(seq![word_token(word)] + (seq![name_token(name)] + (seq![left_paren_token()] + (seq![
        right_paren_token(),
    ] + seq![colon_token()]))) =~= function_header_tokens(name));
}

/// No program begins with the Python header of a function without
/// parameters.
pub proof fn lemma_function_header_is_no_program(name: Seq<char>, rest: Seq<TokenView>)
    ensures
        word_kind(seq!['d', 'e', 'f']) == TokenType::Def ==> program(
            function_header_tokens(name) + rest,
        ) is Err,
{
    if word_kind(seq!['d', 'e', 'f']) == TokenType::Def {
        let s = function_header_tokens(name) + rest;
        let s1 = advance(s);
        let s2 = advance(s1);
        let s3 = advance(s2);
        let s4 = advance(s3);
        assert(s1 =~= seq![name_token(name), left_paren_token(), right_paren_token(), colon_token()]
            + rest);
        assert(s2 =~= seq![left_paren_token(), right_paren_token(), colon_token()] + rest);
        assert(s3 =~= seq![right_paren_token(), colon_token()] + rest);
        assert(s4 =~= seq![colon_token()] + rest);
        assert(function_header(s) == Ok::<(Seq<char>, Seq<TokenView>), SyntaxError>((name, s3)));
        assert(param_list(s3) == Ok::<(Seq<AstView>, Seq<TokenView>), SyntaxError>(
            (Seq::empty(), s3),
        ));
        assert(consume(s4, TokenType::RightArrow) is Err);
        assert(function_return(s3) is Err);
        assert(function_definition(s) is Err);
        assert(statement(s) == function_definition(s));
    }
}

/// A function definition without parameters whose name is a name does not
/// come back, whatever its body: its text is not a program.
pub proof fn law_function_definition_does_not_come_back(
    name: Seq<char>,
    return_type: TokenType,
    body: Seq<AstView>,
)
    requires
        is_word(name),
        lookup(keyword_table(), name) is None,
    ensures
        reparsed(
            AstView::FunctionDefinition { name, return_type, params: Seq::empty(), body },
        ) is None,
{
    let tree = AstView::FunctionDefinition { name, return_type, params: Seq::empty(), body };
    if let Ok(text) = render(tree, 0) {
        reveal_strlit("def ");
        reveal_strlit("(");
        reveal_strlit("):\n");
        let b = render_block(body, body.len(), 1)->Ok_0;
        let header = seq!['d', 'e', 'f', ' '] + name + seq!['(', ')', ':', '\n'];
        let params = render_list(Seq::<AstView>::empty(), 0, 0);
        assert(params == Ok::<Seq<char>, GenerationError>(Seq::empty()));
        assert("def "@ + name + "("@ + params->Ok_0 + "):\n"@ =~= header);
        assert(text == "def "@ + name + "("@ + params->Ok_0 + "):\n"@ + b);
        assert(text == header + b);
        assert(occurs_at(text, 0, header)) by {
            assert forall|i: int| 0 <= i < header.len() implies text[0 + i]
                == #[trigger] header[i] by {}
        }
        lemma_function_header_scans(name, text);
        lemma_def_is_reserved();
        let p = name.len() as int + 7;
        if let Ok(rest) = tokens_from(text, p, 0, p) {
            lemma_function_header_is_no_program(name, rest);
        }
    }
}

} // verus!
