//! The three stages in a row: from a source text, or from its tokens, to the
//! Python text of each top-level statement.

use crate::lexer::rules::tokenize;
use crate::lexer::{scan_all_tokens, LexError, PieTokenStream, TokenView};
use crate::parser::ast::{node_views, AstNode, AstView};
use crate::parser::grammar::program;
use crate::parser::{generate_ast, SyntaxError};
use crate::transpiler::rendering::{depth, render};
use crate::transpiler::{depth_within, transpile, GenerationError};
use vstd::prelude::*;
use vstd::string::*;

verus! {

/// Why a source text has no Python text.
#[derive(Clone, Copy, Debug, PartialEq, Eq, Structural)]
pub enum Failure {
    /// The text is against the lexical rules.
    Lexical(LexError),
    /// The tokens are no program.
    Syntax(SyntaxError),
    /// A statement has no text.
    Generation(GenerationError),
    /// A statement nests its blocks deeper than the generator counts.
    NestingTooDeep,
}

/// The views of the texts of a list, in order.
pub open spec fn text_views(texts: Seq<String>) -> Seq<Seq<char>> {
    Seq::new(texts.len(), |i: int| texts[i]@)
}

/// The texts of the first `n` statements of a list, each written from level
/// zero, or the reason why the first one that has none has none.
pub open spec fn texts_of_first(trees: Seq<AstView>, n: nat) -> Result<Seq<Seq<char>>, Failure>
    decreases n,
{
    if n == 0 || n > trees.len() {
        Ok(Seq::empty())
    } else {
        match texts_of_first(trees, (n - 1) as nat) {
            Err(e) => Err(e),
            Ok(before) => if depth(trees[n - 1]) > u16::MAX {
                Err(Failure::NestingTooDeep)
            } else {
                match render(trees[n - 1], 0) {
                    Err(e) => Err(Failure::Generation(e)),
                    Ok(text) => Ok(before.push(text)),
                }
            },
        }
    }
}

/// The Python texts of the statements of a program, given as its tokens.
pub open spec fn python_of_tokens(tokens: Seq<TokenView>) -> Result<Seq<Seq<char>>, Failure> {
    match program(tokens) {
        Err(e) => Err(Failure::Syntax(e)),
        Ok((trees, _)) => texts_of_first(trees, trees.len()),
    }
}

/// The Python texts of the statements of a program, given as its source
/// text.
pub open spec fn python_of(source: Seq<char>) -> Result<Seq<Seq<char>>, Failure> {
    match tokenize(source) {
        Err(e) => Err(Failure::Lexical(e)),
        Ok(tokens) => python_of_tokens(tokens),
    }
}

/// Whether a run of the stages came out as defined: with the texts, or with
/// the failure.
pub open spec fn written(
    result: Result<Vec<String>, Failure>,
    expected: Result<Seq<Seq<char>>, Failure>,
) -> bool {
    match expected {
        Ok(texts) => result is Ok && text_views(result->Ok_0@) == texts,
        Err(e) => result is Err && result->Err_0 == e,
    }
}

impl Failure {
    /// The message for this failure.
    pub open spec fn message_text(self) -> Seq<char> {
        match self {
            Failure::Lexical(e) => e.message_text(),
            Failure::Syntax(e) => e.message_text(),
            Failure::Generation(e) => e.message_text(),
            Failure::NestingTooDeep => "Blocks are nested too deeply"@,
        }
    }

    /// Describes the failure in one line.
    pub fn message(&self) -> (r: String)
        ensures
            r@ == self.message_text(),
    {
        match self {
            Failure::Lexical(e) => e.message(),
            Failure::Syntax(e) => e.message(),
            Failure::Generation(e) => e.message(),
            Failure::NestingTooDeep => String::from_str("Blocks are nested too deeply"),
        }
    }
}

/// Writes each of a list of statements as Python text, from level zero.
/// Stops at the first statement that has no text.
pub fn transpile_all(statements: &Vec<AstNode>) -> (r: Result<Vec<String>, Failure>)
    ensures
        written(r, texts_of_first(node_views(statements@), statements.len() as nat)),
{
    let ghost trees = node_views(statements@);
    let mut texts: Vec<String> = Vec::new();
    let mut i: usize = 0;
    assert(text_views(texts@) =~= Seq::<Seq<char>>::empty());
    while i < statements.len()
        invariant
            i <= statements.len(),
            trees == node_views(statements@),
            texts_of_first(trees, i as nat) == Ok::<Seq<Seq<char>>, Failure>(text_views(texts@)),
        decreases statements.len() - i,
    {
        let statement = &statements[i];
        if !depth_within(statement, u16::MAX) {
            proof {
                lemma_texts_fail(trees, statements.len() as nat, i as int);
            }
            return Err(Failure::NestingTooDeep);
        }
        let text = match transpile(statement) {
            Ok(text) => text,
            Err(e) => {
                proof {
                    lemma_texts_fail(trees, statements.len() as nat, i as int);
                }
                return Err(Failure::Generation(e));
            },
        };
        let ghost before = text_views(texts@);
        texts.push(text);
        assert(text_views(texts@) =~= before.push(text@));
        i = i + 1;
    }
    Ok(texts)
}

/// Where the statements before the `i`th have texts and the `i`th has none,
/// the failure of the list is that of the `i`th.
pub proof fn lemma_texts_fail(trees: Seq<AstView>, n: nat, i: int)
    requires
        0 <= i < n <= trees.len(),
        texts_of_first(trees, i as nat) is Ok,
        texts_of_first(trees, (i + 1) as nat) is Err,
    ensures
        texts_of_first(trees, n) == texts_of_first(trees, (i + 1) as nat),
    decreases n,
{
    if i < n - 1 {
        lemma_texts_fail(trees, (n - 1) as nat, i);
    }
}

/// Parses the tokens of a stream as a program and writes each of its
/// statements as Python text.
pub fn transpile_tokens(token_stream: &mut PieTokenStream) -> (r: Result<Vec<String>, Failure>)
    ensures
        written(r, python_of_tokens(old(token_stream)@)),
{
    match generate_ast(token_stream) {
        Ok(statements) => transpile_all(&statements),
        Err(e) => Err(Failure::Syntax(e)),
    }
}

/// Scans a source text, parses it as a program and writes each of its
/// statements as Python text.
pub fn transpile_source(source: &str) -> (r: Result<Vec<String>, Failure>)
    ensures
        written(r, python_of(source@)),
{
    match scan_all_tokens(source) {
        Ok(mut token_stream) => transpile_tokens(&mut token_stream),
        Err(e) => Err(Failure::Lexical(e)),
    }
}

} // verus!
