//! The parser: tokens to a tree of blocks.
//!
//! ```text
//! document := block*
//! block    := RAW params ( '{' block* '}' | ';' )
//! params   := (RAW | STRING)*
//! ```
//!
//! [`parse_tokens`] says which tree a sequence of tokens has, and [`run`]
//! computes it by recursive descent, looking one token ahead. An error
//! carries the position of the last token that was read before it was
//! noticed, or `(0, 0)` when none was.

use crate::config::{strings_view, BlockView, ConfigBlock};
use crate::error::{CodePos, Error, ErrorType, ErrorTypeView, ErrorView};
use crate::lexer::{tokens_view, Token, TokenType, TokenTypeView, TokenView};
use vstd::prelude::*;

verus! {

// ---------------------------------------------------------------------------
// The grammar
// ---------------------------------------------------------------------------

/// The position that an error carries when the first `i` tokens of `toks`
/// have been read: that of the last token read, or `(0, 0)` when none was.
pub open spec fn location_before(toks: Seq<TokenView>, i: int) -> (u32, u16) {
    if 0 < i <= toks.len() {
        (toks[i - 1].line, toks[i - 1].col)
    } else {
        (0u32, 0u16)
    }
}

/// The error of kind `ty` raised when the first `i` tokens of `toks` have
/// been read.
pub open spec fn error_before(toks: Seq<TokenView>, i: int, ty: ErrorTypeView) -> ErrorView {
    ErrorView {
        error_type: ty,
        line: location_before(toks, i).0,
        col: location_before(toks, i).1,
        expected: None,
    }
}

/// Whether `t` is a literal, quoted or bare.
pub open spec fn is_literal(t: TokenView) -> bool {
    t.token_type is StringLiteral || t.token_type is RawLiteral
}

/// The text of the literal `t`.
pub open spec fn literal_text(t: TokenView) -> Seq<char> {
    match t.token_type {
        TokenTypeView::StringLiteral(s) => s,
        TokenTypeView::RawLiteral(s) => s,
        _ => Seq::empty(),
    }
}

/// The length of the longest run of literals in `toks` that begins at
/// index `i`.
pub open spec fn count_literals(toks: Seq<TokenView>, i: int) -> nat
    decreases toks.len() - i,
{
    if 0 <= i < toks.len() && is_literal(toks[i]) {
        1 + count_literals(toks, i + 1)
    } else {
        0
    }
}

/// Whether a token of kind `ty` may follow the parameters of a block. In
/// lenient mode every token that is no literal may.
pub open spec fn ends_params(ty: TokenTypeView, lenient: bool) -> bool {
    ty is OpenBrace || ty is Semicolon || lenient
}

/// The parameters that begin at index `i` of `toks`: the texts of the longest
/// run of literals there. The run must be followed by a token that may end
/// it; that token is not part of the parameters.
pub open spec fn params_spec(toks: Seq<TokenView>, i: int, lenient: bool) -> Result<
    Seq<Seq<char>>,
    ErrorView,
> {
    let n = count_literals(toks, i);
    if i + n >= toks.len() {
        Err(error_before(toks, i + n, ErrorTypeView::UnexpectedEOF))
    } else if ends_params(toks[i + n].token_type, lenient) {
        Ok(Seq::new(n, |k: int| literal_text(toks[i + k])))
    } else {
        Err(error_before(toks, i + n, ErrorTypeView::Unexpected(toks[i + n])))
    }
}

/// A run of blocks and the number of tokens that it is made of.
pub struct Parsed {
    pub blocks: Seq<BlockView>,
    pub used: nat,
}

/// The number of tokens of `toks` from index `i` on.
pub open spec fn tokens_left(toks: Seq<TokenView>, i: int) -> nat {
    if 0 <= i < toks.len() {
        (toks.len() - i) as nat
    } else {
        0
    }
}

/// The run of blocks that begins at index `i` of `toks`.
///
/// At the top level (`inner` is false) the run ends with the tokens. Inside
/// braces (`inner` is true) it ends with the closing brace, which is counted
/// among the tokens used, and the end of the tokens is an error.
///
/// A block is a bare word, its parameters, and then either an opening brace,
/// the run of its children and the closing brace, or one other token, which
/// ends the block.
pub open spec fn parse_blocks(toks: Seq<TokenView>, i: int, inner: bool, lenient: bool) -> Result<
    Parsed,
    ErrorView,
>
    decreases tokens_left(toks, i),
{
    if i < 0 || i >= toks.len() {
        if inner {
            Err(error_before(toks, i, ErrorTypeView::UnexpectedEOF))
        } else {
            Ok(Parsed { blocks: Seq::empty(), used: 0 })
        }
    } else {
        match toks[i].token_type {
            TokenTypeView::RawLiteral(name) => {
                match params_spec(toks, i + 1, lenient) {
                    Err(e) => Err(e),
                    Ok(params) => {
                        let j = i + 1 + params.len();
                        let body = if toks[j].token_type is OpenBrace {
                            parse_blocks(toks, j + 1, true, lenient)
                        } else {
                            Ok(Parsed { blocks: Seq::empty(), used: 0 })
                        };
                        match body {
                            Err(e) => Err(e),
                            Ok(b) => {
                                let k = j + 1 + b.used;
                                let block = BlockView {
                                    name: name,
                                    params: params,
                                    inner: b.blocks,
                                };
                                prepend(seq![block], (k - i) as nat, parse_blocks(toks, k, inner, lenient))
                            },
                        }
                    },
                }
            },
            TokenTypeView::CloseBrace if inner => Ok(Parsed { blocks: Seq::empty(), used: 1 }),
            _ => Err(error_before(toks, i + 1, ErrorTypeView::Unexpected(toks[i]))),
        }
    }
}

/// The run `r` with the blocks `first`, made of `used` tokens, before it.
pub open spec fn prepend(first: Seq<BlockView>, used: nat, r: Result<Parsed, ErrorView>) -> Result<
    Parsed,
    ErrorView,
> {
    match r {
        Ok(p) => Ok(Parsed { blocks: first + p.blocks, used: used + p.used }),
        Err(e) => Err(e),
    }
}

/// The tree of the document `toks`: a root without name or parameters whose
/// children are the blocks of `toks`.
pub open spec fn parse_tokens(toks: Seq<TokenView>, lenient: bool) -> Result<BlockView, ErrorView> {
    match parse_blocks(toks, 0, false, lenient) {
        Ok(p) => Ok(BlockView { name: Seq::empty(), params: Seq::empty(), inner: p.blocks }),
        Err(e) => Err(e),
    }
}

/// The models of a parser result: of the tree, or of the error.
pub open spec fn parse_result_view(r: Result<ConfigBlock, Error>) -> Result<BlockView, ErrorView> {
    match r {
        Ok(b) => Ok(b@),
        Err(e) => Err(e@),
    }
}


// ---------------------------------------------------------------------------
// Nesting
// ---------------------------------------------------------------------------

/// Whether the `3 * depth` tokens of `toks` from index `i` on are `depth`
/// blocks named `name`, without parameters, each the only child of the one
/// before: `depth` times the name and an opening brace, then `depth` closing
/// braces.
pub open spec fn nested_at(toks: Seq<TokenView>, i: int, name: Seq<char>, depth: nat) -> bool
    decreases depth,
{
    depth == 0 || {
        &&& 0 <= i
        &&& i + 3 * depth <= toks.len()
        &&& toks[i].token_type == TokenTypeView::RawLiteral(name)
        &&& toks[i + 1].token_type is OpenBrace
        &&& nested_at(toks, i + 2, name, (depth - 1) as nat)
        &&& toks[i + 3 * depth - 1].token_type is CloseBrace
    }
}

/// The outermost of `depth` blocks named `name`, without parameters, each the
/// only child of the one before.
pub open spec fn nested_block(name: Seq<char>, depth: nat) -> BlockView
    decreases depth,
{
    BlockView {
        name: name,
        params: Seq::empty(),
        inner: if depth <= 1 {
            Seq::empty()
        } else {
            seq![nested_block(name, (depth - 1) as nat)]
        },
    }
}

/// Blocks nested to any depth parse as one block, and what follows them is
/// parsed as if they were not there.
pub proof fn lemma_nested_blocks(
    toks: Seq<TokenView>,
    i: int,
    name: Seq<char>,
    depth: nat,
    inner: bool,
    lenient: bool,
)
    requires
        depth >= 1,
        nested_at(toks, i, name, depth),
    ensures
        parse_blocks(toks, i, inner, lenient) == prepend(
            seq![nested_block(name, depth)],
            3 * depth,
            parse_blocks(toks, i + 3 * depth, inner, lenient),
        ),
    decreases depth,
{
    let end = i + 3 * depth;
    assert(count_literals(toks, i + 1) == 0);
    assert(params_spec(toks, i + 1, lenient) == Ok::<Seq<Seq<char>>, ErrorView>(
        Seq::new(0, |k: int| literal_text(toks[i + 1 + k])),
    ));
    assert(params_spec(toks, i + 1, lenient)->Ok_0 =~= Seq::<Seq<char>>::empty());
    let close = parse_blocks(toks, end - 1, true, lenient);
    assert(close == Ok::<Parsed, ErrorView>(Parsed { blocks: Seq::empty(), used: 1 }));
    let body = parse_blocks(toks, i + 2, true, lenient);
    if depth == 1 {
        assert(body == close);
    } else {
        lemma_nested_blocks(toks, i + 2, name, (depth - 1) as nat, true, lenient);
        assert(body->Ok_0.blocks =~= seq![nested_block(name, (depth - 1) as nat)]);
    }
    assert(body is Ok && body->Ok_0.blocks == nested_block(name, depth).inner && body->Ok_0.used
        == 3 * depth - 2);
}

/// Nesting depth is unbounded: for every `depth`, a document that is `depth`
/// blocks nested in one another has a tree of that depth.
pub proof fn lemma_nesting_is_unbounded(
    toks: Seq<TokenView>,
    name: Seq<char>,
    depth: nat,
    lenient: bool,
)
    requires
        depth >= 1,
        toks.len() == 3 * depth,
        nested_at(toks, 0, name, depth),
    ensures
        parse_tokens(toks, lenient) == Ok::<BlockView, ErrorView>(
            BlockView {
                name: Seq::empty(),
                params: Seq::empty(),
                inner: seq![nested_block(name, depth)],
            },
        ),
{
    lemma_nested_blocks(toks, 0, name, depth, false, lenient);
    let p = parse_blocks(toks, 0, false, lenient)->Ok_0;
    assert(p.blocks =~= seq![nested_block(name, depth)]);
}

// ---------------------------------------------------------------------------
// The parser proper
// ---------------------------------------------------------------------------

struct ParseState {
    tokens: Vec<Token>,
    /// How many of the tokens have been read.
    pos: usize,
    lenient: bool,
}

impl ParseState {
    spec fn all(&self) -> Seq<TokenView> {
        tokens_view(self.tokens@)
    }

    spec fn wf(&self) -> bool {
        self.pos <= self.tokens@.len()
    }

    /// The position of the last token read.
    pub closed spec fn position(&self) -> (u32, u16) {
        location_before(self.all(), self.pos as int)
    }

    /// `self` is `before` moved on to the token at index `pos`.
    spec fn moved(&self, before: &ParseState, pos: int) -> bool {
        &&& self.wf()
        &&& self.tokens == before.tokens
        &&& self.lenient == before.lenient
        &&& self.pos == pos
    }
}

impl CodePos for ParseState {
    fn location(&self) -> (r: (u32, u16))
        ensures
            r == self.position(),
    {
        if 0 < self.pos && self.pos <= self.tokens.len() {
            let t = &self.tokens[self.pos - 1];
            (t.line, t.col)
        } else {
            (0, 0)
        }
    }
}

/// Reads the next token.
fn next(state: &mut ParseState) -> (r: Option<Token>)
    requires
        old(state).wf(),
    ensures
        old(state).pos < old(state).tokens@.len() ==> r == Some(
            old(state).tokens@[old(state).pos as int],
        ) && final(state).moved(old(state), old(state).pos + 1),
        old(state).pos >= old(state).tokens@.len() ==> r is None && final(state).moved(
            old(state),
            old(state).pos as int,
        ),
{
    let v = lookahead(state);
    pop(state);
    v
}

/// Reads the next token and drops it.
fn pop(state: &mut ParseState)
    requires
        old(state).wf(),
    ensures
        old(state).pos < old(state).tokens@.len() ==> final(state).moved(
            old(state),
            old(state).pos + 1,
        ),
        old(state).pos >= old(state).tokens@.len() ==> final(state).moved(
            old(state),
            old(state).pos as int,
        ),
{
    if state.pos < state.tokens.len() {
        state.pos = state.pos + 1;
    }
}

/// Looks at the next token without reading it.
fn lookahead(state: &ParseState) -> (r: Option<Token>)
    requires
        state.wf(),
    ensures
        state.pos < state.tokens@.len() ==> r == Some(state.tokens@[state.pos as int]),
        state.pos >= state.tokens@.len() ==> r is None,
{
    if state.pos < state.tokens.len() {
        Some(state.tokens[state.pos].clone())
    } else {
        None
    }
}

/// The error `error_type` at the position of the last token read.
fn fail<T>(state: &ParseState, error_type: ErrorType) -> (r: Result<T, Error>)
    ensures
        r matches Err(e) && e@ == error_before(state.all(), state.pos as int, error_type@),
{
    Err(Error::from_state(state, error_type, None))
}

/// Reads the parameters of a block, up to the token that ends them.
fn parse_params(state: &mut ParseState) -> (r: Result<Vec<String>, Error>)
    requires
        old(state).wf(),
    ensures
        match params_spec(old(state).all(), old(state).pos as int, old(state).lenient) {
            Ok(params) => r matches Ok(v) && strings_view(v@) == params && final(state).moved(
                old(state),
                old(state).pos + params.len(),
            ),
            Err(e) => r matches Err(x) && x@ == e,
        },
{
    let ghost toks = state.all();
    let ghost start = state.pos as int;
    let mut ret: Vec<String> = Vec::new();
    loop
        invariant_except_break
            state.moved(old(state), start + ret@.len()),
            count_literals(toks, start) == ret@.len() + count_literals(toks, state.pos as int),
            strings_view(ret@) =~= Seq::new(ret@.len(), |k: int| literal_text(toks[start + k])),
        invariant
            toks == old(state).all(),
            start == old(state).pos,
        ensures
            params_spec(toks, start, old(state).lenient) == Ok::<Seq<Seq<char>>, ErrorView>(
                strings_view(ret@),
            ),
            state.moved(old(state), start + ret@.len()),
        decreases state.tokens@.len() - state.pos,
    {
        let opt_t = lookahead(state);
        match opt_t {
            Some(t) => {
                match t.token_type {
                    TokenType::StringLiteral(s) => {
                        proof {
                            assert(toks[state.pos as int] == t@);
                            assert(strings_view(ret@.push(s)) =~= strings_view(ret@).push(s@));
                        }
                        ret.push(s);
                        pop(state);
                    },
                    TokenType::RawLiteral(s) => {
                        proof {
                            assert(toks[state.pos as int] == t@);
                            assert(strings_view(ret@.push(s)) =~= strings_view(ret@).push(s@));
                        }
                        ret.push(s);
                        pop(state);
                    },
                    TokenType::OpenBrace => {
                        break ;
                    },
                    TokenType::Semicolon => {
                        break ;
                    },
                    _ => {
                        if state.lenient {
                            break ;
                        } else {
                            return fail(state, ErrorType::Unexpected(t));
                        }
                    },
                }
            },
            None => {
                return fail(state, ErrorType::UnexpectedEOF);
            },
        }
    }
    Ok(ret)
}

/// Reads a run of blocks and returns the block named `name`, with the
/// parameters `options`, that has them as its children.
fn parse_block(state: &mut ParseState, inner: bool, name: String, options: Vec<String>) -> (r:
    Result<ConfigBlock, Error>)
    requires
        old(state).wf(),
    ensures
        match parse_blocks(old(state).all(), old(state).pos as int, inner, old(state).lenient) {
            Ok(p) => r matches Ok(b) && b@ == (BlockView {
                name: name@,
                params: strings_view(options@),
                inner: p.blocks,
            }) && final(state).moved(old(state), old(state).pos + p.used),
            Err(e) => r matches Err(x) && x@ == e,
        },
    decreases old(state).tokens@.len() - old(state).pos,
{
    let ghost toks = state.all();
    let ghost start = state.pos as int;
    let ghost lenient = state.lenient;
    let ghost goal = parse_blocks(toks, start, inner, lenient);
    let mut ret = ConfigBlock::new(name, options, Vec::new());
    assert(ret@.inner =~= Seq::empty());
    loop
        invariant_except_break
            state.moved(old(state), state.pos as int),
            start <= state.pos,
            goal == prepend(
                ret@.inner,
                (state.pos - start) as nat,
                parse_blocks(toks, state.pos as int, inner, lenient),
            ),
        invariant
            toks == old(state).all(),
            start == old(state).pos,
            lenient == old(state).lenient,
            goal == parse_blocks(toks, start, inner, lenient),
            ret@.name == name@,
            ret@.params == strings_view(options@),
        ensures
            state.moved(old(state), state.pos as int),
            start <= state.pos,
            goal == Ok::<Parsed, ErrorView>(
                Parsed { blocks: ret@.inner, used: (state.pos - start) as nat },
            ),
        decreases state.tokens@.len() - state.pos,
    {
        let ghost i = state.pos as int;
        let ghost done = ret@.inner;
        let read = next(state);
        if read.is_none() {
            if inner {
                return fail(state, ErrorType::UnexpectedEOF);
            } else {
                assert(done + Seq::<BlockView>::empty() =~= done);
                return Ok(ret);
            }
        }
        let tok = read.unwrap();
        match tok.clone().token_type {
            TokenType::RawLiteral(option_name) => {
                let params = match parse_params(state) {
                    Ok(params) => params,
                    Err(e) => {
                        return Err(e);
                    },
                };
                let ghost j = state.pos as int;
                proof {
                    assert(toks[i] == tok@);
                    assert(params_spec(toks, i + 1, lenient) == Ok::<Seq<Seq<char>>, ErrorView>(
                        strings_view(params@),
                    ));
                    assert(j == i + 1 + strings_view(params@).len());
                    assert(j < toks.len());
                }
                let t = match next(state) {
                    Some(t) => t,
                    None => {
                        return fail(state, ErrorType::UnexpectedEOF);
                    },
                };
                let block = match t.token_type {
                    TokenType::OpenBrace => {
                        match parse_block(state, true, option_name, params) {
                            Ok(block) => block,
                            Err(e) => {
                                return Err(e);
                            },
                        }
                    },
                    _ => ConfigBlock::new(option_name, params, Vec::new()),
                };
                proof {
                    let k = state.pos as int;
                    let rest = parse_blocks(toks, k, inner, lenient);
                    assert(toks[j] == t@);
                    if !(t@.token_type is OpenBrace) {
                        assert(block@.inner =~= Seq::<BlockView>::empty());
                    }
                    assert(parse_blocks(toks, i, inner, lenient) == prepend(
                        seq![block@],
                        (k - i) as nat,
                        rest,
                    ));
                    assert(done.push(block@) =~= done + seq![block@]);
                    if let Ok(p) = rest {
                        assert(done + (seq![block@] + p.blocks) =~= done.push(block@) + p.blocks);
                    }
                }
                ret.add_block(block);
            },
            TokenType::CloseBrace => {
                if inner {
                    assert(done + Seq::<BlockView>::empty() =~= done);
                    break ;
                } else {
                    return fail(state, ErrorType::Unexpected(tok));
                }
            },
            _ => {
                return fail(state, ErrorType::Unexpected(tok));
            },
        }
    }
    Ok(ret)
}

/// Parses the document `tokens`.
///
/// The result is the tree that [`parse_tokens`] describes, in strict mode: a
/// token other than `{` and `;` after the parameters of a block is an error.
pub fn run(tokens: Vec<Token>) -> (r: Result<ConfigBlock, Error>)
    ensures
        parse_result_view(r) == parse_tokens(tokens_view(tokens@), false),
{
    let mut state = ParseState { tokens: tokens, pos: 0, lenient: false };
    parse_document(&mut state)
}

/// Parses the document `tokens` in lenient mode: any token that is no literal
/// ends the parameters of a block.
pub fn run_lenient(tokens: Vec<Token>) -> (r: Result<ConfigBlock, Error>)
    ensures
        parse_result_view(r) == parse_tokens(tokens_view(tokens@), true),
{
    let mut state = ParseState { tokens: tokens, pos: 0, lenient: true };
    parse_document(&mut state)
}

/// Parses all the tokens of `state` as one document.
fn parse_document(state: &mut ParseState) -> (r: Result<ConfigBlock, Error>)
    requires
        old(state).pos == 0,
    ensures
        parse_result_view(r) == parse_tokens(old(state).all(), old(state).lenient),
{
    let params: Vec<String> = Vec::new();
    assert(strings_view(params@) =~= Seq::empty());
    parse_block(state, false, String::new(), params)
}

} // verus!
