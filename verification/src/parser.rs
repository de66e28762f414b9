//! Tokens, the tokenizer and the reordering of infix tokens into postfix form.
use vstd::prelude::*;
use vstd::string::*;
use crate::text::{alphanumeric, same_text};

verus! {

/// What a token stands for.
#[derive(Clone, Copy, Debug, PartialEq, Eq, Structural)]
pub enum TokenType {
    Operand,
    Operator,
    OpenBrace,
    CloseBrace,
    ArgSeparator,
}

/// A piece of the input: its kind and the characters it was made of.
#[derive(Debug)]
pub struct Token {
    pub t: TokenType,
    pub v: String,
}

/// The mathematical value of a [`Token`]: its kind and its text as a sequence
/// of characters.
pub struct TokenView {
    pub t: TokenType,
    pub v: Seq<char>,
}

impl View for Token {
    type V = TokenView;

    open spec fn view(&self) -> TokenView {
        TokenView { t: self.t, v: self.v@ }
    }
}

impl DeepView for Token {
    type V = TokenView;

    open spec fn deep_view(&self) -> TokenView {
        self@
    }
}

impl Clone for Token {
    fn clone(&self) -> (r: Token)
        ensures
            r@ == self@,
    {
        Token { t: self.t, v: self.v.clone() }
    }
}

impl PartialEq for Token {
    fn eq(&self, other: &Token) -> (r: bool) {
        self.t == other.t && self.v == other.v
    }
}

impl vstd::std_specs::cmp::PartialEqSpecImpl for Token {
    open spec fn obeys_eq_spec() -> bool {
        true
    }

    open spec fn eq_spec(&self, other: &Token) -> bool {
        self@ == other@
    }
}

/// One of the characters that operators are written with.
pub open spec fn is_operator_char(c: char) -> bool {
    c == '*' || c == '/' || c == '%' || c == '+' || c == '-' || c == '<' || c == '>' || c == '='
        || c == '!' || c == '&' || c == '^' || c == '|'
}

/// The kind of token that a character belongs to; `None` for a character that
/// the tokenizer drops, such as white space.
pub open spec fn char_kind(c: char) -> Option<TokenType> {
    if c == '.' {
        Some(TokenType::Operand)
    } else if c == '(' {
        Some(TokenType::OpenBrace)
    } else if c == ')' {
        Some(TokenType::CloseBrace)
    } else if c == ',' {
        Some(TokenType::ArgSeparator)
    } else if is_operator_char(c) {
        Some(TokenType::Operator)
    } else if alphanumeric(c) {
        Some(TokenType::Operand)
    } else {
        None
    }
}

/// What is put before `c` where it opens a token: a zero before a `.`, and
/// nothing before any other character.
pub open spec fn lead(c: char) -> Seq<char> {
    if c == '.' {
        seq!['0']
    } else {
        Seq::empty()
    }
}

/// Whether consecutive characters of this kind run together into one token.
pub open spec fn merges(kind: TokenType) -> bool {
    kind == TokenType::Operand || kind == TokenType::Operator
}

/// The tokens after a character of kind `kind` has been taken in: `c` is
/// appended to the last token if that token has the same kind, and otherwise
/// opens a new token that begins with `prefix`.
pub open spec fn absorb(tokens: Seq<TokenView>, c: char, kind: TokenType, prefix: Seq<char>) -> Seq<
    TokenView,
> {
    if tokens.len() > 0 && tokens.last().t == kind {
        tokens.update(tokens.len() - 1, TokenView { t: kind, v: tokens.last().v.push(c) })
    } else {
        tokens.push(TokenView { t: kind, v: prefix.push(c) })
    }
}

/// The tokens after one more character of the input has been read.
pub open spec fn feed(tokens: Seq<TokenView>, c: char) -> Seq<TokenView> {
    match char_kind(c) {
        None => tokens,
        Some(kind) => if merges(kind) {
            absorb(tokens, c, kind, lead(c))
        } else {
            tokens.push(TokenView { t: kind, v: seq![c] })
        },
    }
}

/// The tokens of a text: its characters fed one by one, from left to right.
pub open spec fn scan(s: Seq<char>) -> Seq<TokenView>
    decreases s.len(),
{
    if s.len() == 0 {
        Seq::empty()
    } else {
        feed(scan(s.drop_last()), s.last())
    }
}

/// Whether no token is empty and no two neighbours are runs of one kind:
/// what could have run together has run together.
pub open spec fn runs_are_whole(tokens: Seq<TokenView>) -> bool {
    &&& forall|i: int| 0 <= i < tokens.len() ==> (#[trigger] tokens[i]).v.len() > 0
    &&& forall|i: int|
        0 < i < tokens.len() && merges(tokens[i].t) ==> tokens[i - 1].t != (#[trigger] tokens[i]).t
}

/// The tokens of any text are whole runs: two operands never stand side by
/// side, nor do two operators, and no token is empty.
pub proof fn lemma_scan_gives_whole_runs(s: Seq<char>)
    ensures
        runs_are_whole(scan(s)),
    decreases s.len(),
{
    if s.len() > 0 {
        lemma_scan_gives_whole_runs(s.drop_last());
    }
}

/// Takes `c` into `tokens` as a character of kind `token_type`: it extends
/// the last token where that has the same kind, and otherwise starts a new
/// token made of `prefix`, if one is given, and `c`.
pub fn process_char(tokens: &mut Vec<Token>, c: char, token_type: TokenType, prefix: Option<&str>)
    ensures
        final(tokens).deep_view() == absorb(
            old(tokens).deep_view(),
            c,
            token_type,
            match prefix {
                Some(p) => p@,
                None => Seq::empty(),
            },
        ),
{
    let ghost before = tokens.deep_view();
    let n = tokens.len();
    if n > 0 && tokens[n - 1].t == token_type {
        let mut last = tokens.pop().unwrap();
        last.v.push(c);
        tokens.push(last);
        assert(tokens.deep_view() =~= before.update(
            n - 1,
            TokenView { t: token_type, v: before.last().v.push(c) },
        ));
    } else {
        let mut v = match prefix {
            Some(p) => String::from_str(p),
            None => String::new(),
        };
        v.push(c);
        tokens.push(Token { t: token_type, v });
        assert(tokens.deep_view() =~= before.push(tokens@.last()@));
    }
}

/// Splits a text into tokens, reading it once from left to right.
///
/// Letters, digits and `.` gather into operands, the operator characters into
/// operators, each bracket and each comma is a token of its own, and every
/// other character is dropped.
pub fn str_to_tokens(s: &str) -> (tokens: Vec<Token>)
    ensures
        tokens.deep_view() == scan(s@),
        runs_are_whole(tokens.deep_view()),
{
    let mut tokens: Vec<Token> = Vec::new();
    assert(tokens.deep_view() =~= Seq::empty());
    for c in it: s.chars()
        invariant
            it.seq() == s@,
            tokens.deep_view() == scan(s@.take(it.index())),
    {
        proof {
            let upto = s@.take(it.index() + 1);
            assert(upto.drop_last() == s@.take(it.index()));
            assert(upto.last() == c);
        }
        let ghost before = tokens.deep_view();
        if c == '.' {
            process_char(&mut tokens, c, TokenType::Operand, Some("0"));
            proof {
                reveal_strlit("0");
                assert("0"@ =~= lead(c));
            }
        } else if c == '(' {
            tokens.push(Token { t: TokenType::OpenBrace, v: single(c) });
            assert(tokens.deep_view() =~= before.push(tokens@.last()@));
        } else if c == ')' {
            tokens.push(Token { t: TokenType::CloseBrace, v: single(c) });
            assert(tokens.deep_view() =~= before.push(tokens@.last()@));
        } else if c == ',' {
            tokens.push(Token { t: TokenType::ArgSeparator, v: single(c) });
            assert(tokens.deep_view() =~= before.push(tokens@.last()@));
        } else if c == '*' || c == '/' || c == '%' || c == '+' || c == '-' || c == '<' || c == '>'
            || c == '=' || c == '!' || c == '&' || c == '^' || c == '|' {
            process_char(&mut tokens, c, TokenType::Operator, None);
        } else if c.is_alphanumeric() {
            process_char(&mut tokens, c, TokenType::Operand, None);
        }
    }
    proof {
        assert(s@.take(s@.len() as int) == s@);
        lemma_scan_gives_whole_runs(s@);
    }
    tokens
}

/// The string that holds `c` and nothing else.
fn single(c: char) -> (r: String)
    ensures
        r@ == seq![c],
{
    let mut r = String::new();
    r.push(c);
    r
}

/// The precedence rank of an operator symbol; a lower rank binds tighter, and
/// a symbol that the table does not hold gets the highest rank there is.
pub open spec fn rank(op: Seq<char>) -> u8 {
    if op == "^"@ {
        29
    } else if op == "*"@ || op == "/"@ || op == "%"@ {
        30
    } else if op == "+"@ || op == "-"@ {
        40
    } else if op == "<"@ || op == "<="@ || op == ">"@ || op == ">="@ {
        60
    } else if op == "&&"@ {
        110
    } else if op == "||"@ {
        120
    } else {
        u8::MAX
    }
}

/// Looks an operator symbol up in the precedence table.
pub fn get_operator_precedence(op: &str) -> (r: u8)
    ensures
        r == rank(op@),
{
    if same_text(op, "^") {
        29
    } else if same_text(op, "*") || same_text(op, "/") || same_text(op, "%") {
        30
    } else if same_text(op, "+") || same_text(op, "-") {
        40
    } else if same_text(op, "<") || same_text(op, "<=") || same_text(op, ">") || same_text(
        op,
        ">=",
    ) {
        60
    } else if same_text(op, "&&") {
        110
    } else if same_text(op, "||") {
        120
    } else {
        u8::MAX
    }
}

/// The two piles of the reordering: what has been emitted, and the operators
/// and open brackets that wait, the most recent last.
pub struct Yard {
    pub output: Seq<TokenView>,
    pub stack: Seq<TokenView>,
}

/// The piles that two vectors of tokens stand for.
pub open spec fn yard(output: Vec<Token>, stack: Vec<Token>) -> Yard {
    Yard { output: output.deep_view(), stack: stack.deep_view() }
}

/// Moves the top of the waiting pile to the output.
pub open spec fn emit_top(y: Yard) -> Yard
    recommends
        y.stack.len() > 0,
{
    Yard { output: y.output.push(y.stack.last()), stack: y.stack.drop_last() }
}

/// A closing bracket: waiting tokens are emitted down to the nearest open
/// bracket, which is thrown away; without one the whole pile is emitted.
pub open spec fn close_brace(y: Yard) -> Yard
    decreases y.stack.len(),
{
    if y.stack.len() == 0 {
        y
    } else if y.stack.last().t == TokenType::OpenBrace {
        Yard { output: y.output, stack: y.stack.drop_last() }
    } else {
        close_brace(emit_top(y))
    }
}

/// Emits waiting tokens from the top for as long as their rank is at most
/// `r`, that is, while they bind at least as tightly.
pub open spec fn emit_tighter(y: Yard, r: u8) -> Yard
    decreases y.stack.len(),
{
    if y.stack.len() > 0 && rank(y.stack.last().v) <= r {
        emit_tighter(emit_top(y), r)
    } else {
        y
    }
}

/// The piles after one more token of the infix sequence.
pub open spec fn place(y: Yard, token: TokenView) -> Yard {
    match token.t {
        TokenType::OpenBrace => Yard { output: y.output, stack: y.stack.push(token) },
        TokenType::CloseBrace => close_brace(y),
        TokenType::Operator => {
            let e = emit_tighter(y, rank(token.v));
            Yard { output: e.output, stack: e.stack.push(token) }
        },
        _ => Yard { output: y.output.push(token), stack: y.stack },
    }
}

/// The piles after a whole infix sequence, taken token by token.
pub open spec fn shunt(tokens: Seq<TokenView>) -> Yard
    decreases tokens.len(),
{
    if tokens.len() == 0 {
        Yard { output: Seq::empty(), stack: Seq::empty() }
    } else {
        place(shunt(tokens.drop_last()), tokens.last())
    }
}

/// The postfix form of an infix sequence: what the reordering emitted,
/// followed by what was still waiting at the end, the most recent first.
pub open spec fn postfix(tokens: Seq<TokenView>) -> Seq<TokenView> {
    let y = shunt(tokens);
    y.output + y.stack.reverse()
}

/// Whether the piles hold no closing bracket and no more than `n` tokens.
pub open spec fn is_tidy(y: Yard, n: int) -> bool {
    &&& y.output.len() + y.stack.len() <= n
    &&& forall|i: int| 0 <= i < y.output.len() ==> (#[trigger] y.output[i]).t != TokenType::CloseBrace
    &&& forall|i: int| 0 <= i < y.stack.len() ==> (#[trigger] y.stack[i]).t != TokenType::CloseBrace
}

/// Closing a bracket keeps the piles tidy.
proof fn lemma_close_brace_is_tidy(y: Yard, n: int)
    requires
        is_tidy(y, n),
    ensures
        is_tidy(close_brace(y), n),
    decreases y.stack.len(),
{
    if y.stack.len() > 0 && y.stack.last().t != TokenType::OpenBrace {
        lemma_close_brace_is_tidy(emit_top(y), n);
    }
}

/// Emitting the tighter operators keeps the piles tidy.
proof fn lemma_emit_tighter_is_tidy(y: Yard, r: u8, n: int)
    requires
        is_tidy(y, n),
    ensures
        is_tidy(emit_tighter(y, r), n),
    decreases y.stack.len(),
{
    if y.stack.len() > 0 && rank(y.stack.last().v) <= r {
        lemma_emit_tighter_is_tidy(emit_top(y), r, n);
    }
}

/// The postfix form invents nothing and keeps no closing bracket: it is no
/// longer than the infix sequence, and none of its tokens is a closing
/// bracket.
pub proof fn lemma_postfix_is_tidy(tokens: Seq<TokenView>)
    ensures
        is_tidy(shunt(tokens), tokens.len() as int),
        postfix(tokens).len() <= tokens.len(),
        forall|i: int|
            0 <= i < postfix(tokens).len() ==> (#[trigger] postfix(tokens)[i]).t
                != TokenType::CloseBrace,
    decreases tokens.len(),
{
    if tokens.len() > 0 {
        let before = shunt(tokens.drop_last());
        lemma_postfix_is_tidy(tokens.drop_last());
        lemma_close_brace_is_tidy(before, tokens.len() - 1);
        lemma_emit_tighter_is_tidy(before, rank(tokens.last().v), tokens.len() - 1);
    }
}

/// Reorders infix tokens into postfix (reverse Polish) form.
///
/// Operators of equal rank leave in the order in which they came, so they
/// group from the left. Brackets that do not match are not reported here; they
/// leave a sequence that no expression can be built from.
pub fn to_rpn(tokens: Vec<Token>) -> (rpn: Vec<Token>)
    ensures
        rpn.deep_view() == postfix(tokens.deep_view()),
        rpn.len() <= tokens.len(),
        forall|i: int| 0 <= i < rpn.len() ==> (#[trigger] rpn[i]).t != TokenType::CloseBrace,
{
    let ghost all = tokens.deep_view();
    let mut rpn: Vec<Token> = Vec::new();
    let mut ops: Vec<Token> = Vec::new();
    assert(rpn.deep_view() =~= Seq::empty() && ops.deep_view() =~= Seq::empty());
    for token in it: tokens
        invariant
            it.seq().map_values(|t: Token| t@) == all,
            shunt(all.take(it.index())) == yard(rpn, ops),
    {
        proof {
            let upto = all.take(it.index() + 1);
            assert(upto.drop_last() == all.take(it.index()));
            assert(upto.last() == token@);
        }
        let ghost before = yard(rpn, ops);
        if token.t == TokenType::OpenBrace {
            ops.push(token);
            assert(ops.deep_view() =~= before.stack.push(token@));
        } else if token.t == TokenType::CloseBrace {
            let mut open = false;
            while !open && ops.len() > 0
                invariant
                    !open ==> close_brace(yard(rpn, ops)) == close_brace(before),
                    open ==> yard(rpn, ops) == close_brace(before),
                decreases ops.len() + if open { 0int } else { 1int },
            {
                let ghost y = yard(rpn, ops);
                let op = ops.pop().unwrap();
                assert(ops.deep_view() =~= y.stack.drop_last());
                if op.t == TokenType::OpenBrace {
                    open = true;
                } else {
                    rpn.push(op);
                    assert(rpn.deep_view() =~= y.output.push(op@));
                }
            }
        } else if token.t == TokenType::Operator {
            let r = get_operator_precedence(token.v.as_str());
            while ops.len() > 0 && get_operator_precedence(ops[ops.len() - 1].v.as_str()) <= r
                invariant
                    emit_tighter(yard(rpn, ops), r) == emit_tighter(before, r),
                decreases ops.len(),
            {
                let ghost y = yard(rpn, ops);
                let op = ops.pop().unwrap();
                rpn.push(op);
                assert(ops.deep_view() =~= y.stack.drop_last());
                assert(rpn.deep_view() =~= y.output.push(op@));
            }
            let ghost e = yard(rpn, ops);
            ops.push(token);
            assert(ops.deep_view() =~= e.stack.push(token@));
        } else {
            rpn.push(token);
            assert(rpn.deep_view() =~= before.output.push(token@));
        }
    }
    assert(all.take(all.len() as int) == all);
    let ghost rest = yard(rpn, ops);
    while ops.len() > 0
        invariant
            rpn.deep_view() + ops.deep_view().reverse() == rest.output + rest.stack.reverse(),
        decreases ops.len(),
    {
        let ghost y = yard(rpn, ops);
        let op = ops.pop().unwrap();
        rpn.push(op);
        assert(ops.deep_view() =~= y.stack.drop_last());
        assert(rpn.deep_view() =~= y.output.push(op@));
        assert(y.output.push(op@) + y.stack.drop_last().reverse() =~= y.output
            + y.stack.reverse());
    }
    proof {
        assert(rpn.deep_view() + ops.deep_view().reverse() =~= rpn.deep_view());
        lemma_postfix_is_tidy(all);
        assert forall|i: int| 0 <= i < rpn.len() implies (#[trigger] rpn[i]).t
            != TokenType::CloseBrace by {
            assert(postfix(all)[i] == rpn[i]@);
        }
    }
    rpn
}

} // verus!
