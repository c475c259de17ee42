//! The matcher registry and the document driver.
use vstd::prelude::*;
use crate::body::{body_tokens, fence_tokens, BodyMatcher};
use crate::headers::{heading_tokens, is_heading, HeaderMatcher};
use crate::text::{chars_of, trim, words};
use crate::tokens::{lemma_views_concat, Token, TokenMatcher, TokenView, Type, views};

verus! {

/// One of the matchers of the registry.
pub enum Lexer {
    Header(HeaderMatcher),
    Body(BodyMatcher),
}

impl TokenMatcher for Lexer {
    open spec fn accepts(&self, line: Seq<char>) -> bool {
        match self {
            Lexer::Header(m) => m.accepts(line),
            Lexer::Body(m) => m.accepts(line),
        }
    }

    open spec fn tokens_for(&self, line: Seq<char>) -> Seq<TokenView> {
        match self {
            Lexer::Header(m) => m.tokens_for(line),
            Lexer::Body(m) => m.tokens_for(line),
        }
    }

    fn validate(&self, line: &String) -> (r: bool) {
        match self {
            Lexer::Header(m) => m.validate(line),
            Lexer::Body(m) => m.validate(line),
        }
    }

    fn get_token(&self, line: &String) -> (r: Vec<Token>) {
        match self {
            Lexer::Header(m) => m.get_token(line),
            Lexer::Body(m) => m.get_token(line),
        }
    }
}

/// The matchers, in priority order: headings before the body fallback.
pub open spec fn registry() -> Seq<Lexer> {
    seq![Lexer::Header(HeaderMatcher), Lexer::Body(BodyMatcher)]
}

/// Builds the matcher registry.
pub struct LexerFactory;

impl LexerFactory {
    /// The matchers, in the order in which they are tried.
    pub fn get_lexers() -> (r: Vec<Lexer>)
        ensures
            r@ == registry(),
    {
        let lexers = vec![Lexer::Header(HeaderMatcher), Lexer::Body(BodyMatcher)];
        assert(lexers@ =~= registry());
        lexers
    }
}

/// The tokens of `line` from the first matcher of `ms` that accepts it; none
/// if no matcher does.
pub open spec fn first_match(ms: Seq<Lexer>, line: Seq<char>) -> Seq<TokenView>
    decreases ms.len(),
{
    if ms.len() == 0 {
        seq![]
    } else if ms[0].accepts(line) {
        ms[0].tokens_for(line)
    } else {
        first_match(ms.drop_first(), line)
    }
}

/// The tokens of `line` under the registry.
pub open spec fn line_tokens(line: Seq<char>) -> Seq<TokenView> {
    first_match(registry(), line)
}

/// A line goes to the heading matcher when its trimmed form starts with `#`,
/// and to the body matcher otherwise. A heading gives one token, a blank line
/// one `NewLine`, and any other line one token per fence marker and then one
/// `Paragraph`.
pub proof fn lemma_line_tokens(line: Seq<char>)
    ensures
        line_tokens(line) == (if is_heading(line) {
            heading_tokens(line)
        } else {
            body_tokens(line)
        }),
        is_heading(line) ==> line_tokens(line).len() == 1,
        !is_heading(line) && trim(line).len() == 0 ==> line_tokens(line).len() == 1,
        !is_heading(line) && trim(line).len() > 0 ==> line_tokens(line).len() == fence_tokens(
            words(line),
            line,
        ).len() + 1,
{
    reveal_with_fuel(first_match, 3);
    assert(registry().drop_first() =~= seq![Lexer::Body(BodyMatcher)]);
    assert(seq![Lexer::Body(BodyMatcher)].drop_first() =~= Seq::<Lexer>::empty());
}

/// No token of a line whose trimmed form starts with `#` is a `Paragraph`.
pub proof fn lemma_heading_precedence(line: Seq<char>)
    requires
        is_heading(line),
    ensures
        forall|k: int| 0 <= k < line_tokens(line).len() ==> line_tokens(line)[k].kind
            != Type::Paragraph,
{
    lemma_line_tokens(line);
}

/// Every line gives at least one token.
pub proof fn lemma_line_gives_a_token(line: Seq<char>)
    ensures
        line_tokens(line).len() >= 1,
{
    lemma_line_tokens(line);
}

/// The tokens of a run of lines are at least as many as the lines.
pub proof fn lemma_tokens_of_lines_len(ls: Seq<Seq<char>>)
    ensures
        tokens_of_lines(ls).len() >= ls.len(),
    decreases ls.len(),
{
    if ls.len() > 0 {
        lemma_tokens_of_lines_len(ls.drop_last());
        lemma_line_gives_a_token(ls.last());
    }
}

/// A document gives at least one token per line.
pub proof fn lemma_parse_covers_lines(doc: Seq<char>)
    ensures
        document_tokens(doc).len() >= lines(doc).len(),
{
    lemma_tokens_of_lines_len(lines(doc));
}

/// Two calls of `get_token` with the same matcher on the same line give the
/// same tokens.
pub proof fn lemma_get_token_repeatable(m: Lexer, line: Seq<char>, r1: Seq<Token>, r2: Seq<Token>)
    requires
        views(r1) == m.tokens_for(line),
        views(r2) == m.tokens_for(line),
    ensures
        views(r1) == views(r2),
{
}

/// `s` without one trailing carriage return.
pub open spec fn strip_cr(s: Seq<char>) -> Seq<char> {
    if s.len() > 0 && s.last() == '\r' {
        s.drop_last()
    } else {
        s
    }
}

/// The lines of `s` after the pending line `cur`, as `str::lines` yields them:
/// a line ends at `\n` or `\r\n`, and a final line needs no terminator.
pub open spec fn lines_from(s: Seq<char>, cur: Seq<char>) -> Seq<Seq<char>>
    decreases s.len(),
{
    if s.len() == 0 {
        if cur.len() > 0 {
            seq![cur]
        } else {
            seq![]
        }
    } else if s[0] == '\n' {
        seq![strip_cr(cur)] + lines_from(s.drop_first(), seq![])
    } else {
        lines_from(s.drop_first(), cur.push(s[0]))
    }
}

/// The lines of the document `s`.
pub open spec fn lines(s: Seq<char>) -> Seq<Seq<char>> {
    lines_from(s, seq![])
}

/// The tokens of the lines `ls`, concatenated in order.
pub open spec fn tokens_of_lines(ls: Seq<Seq<char>>) -> Seq<TokenView>
    decreases ls.len(),
{
    if ls.len() == 0 {
        seq![]
    } else {
        tokens_of_lines(ls.drop_last()) + line_tokens(ls.last())
    }
}

/// The tokens of the document `s`.
pub open spec fn document_tokens(s: Seq<char>) -> Seq<TokenView> {
    tokens_of_lines(lines(s))
}

/// The tokens of `line` from the first matcher of `matchers` that accepts it.
fn tokenize_line(matchers: &Vec<Lexer>, line: &String) -> (r: Vec<Token>)
    ensures
        views(r@) == first_match(matchers@, line@),
{
    let mut j: usize = 0;
    assert(matchers@.subrange(0, matchers@.len() as int) =~= matchers@);
    while j < matchers.len()
        invariant
            j <= matchers.len(),
            first_match(matchers@, line@) == first_match(
                matchers@.subrange(j as int, matchers@.len() as int),
                line@,
            ),
        decreases matchers.len() - j,
    {
        let ghost rest = matchers@.subrange(j as int, matchers@.len() as int);
        assert(rest[0] == matchers@[j as int]);
        if matchers[j].validate(line) {
            return matchers[j].get_token(line);
        }
        assert(rest.drop_first() =~= matchers@.subrange(j + 1, matchers@.len() as int));
        j = j + 1;
    }
    assert(views(Seq::<Token>::empty()) =~= Seq::<TokenView>::empty());
    Vec::new()
}

/// Turns a document into its tokens: each line in order, through the first
/// matcher of the registry that accepts it.
pub fn parse(contents: String) -> (r: Vec<Token>)
    ensures
        views(r@) == document_tokens(contents@),
{
    let matchers = LexerFactory::get_lexers();
    let v = chars_of(contents.as_str());
    let n = v.len();
    let mut tokens: Vec<Token> = Vec::new();
    let mut start: usize = 0;
    let mut i: usize = 0;
    let ghost done: Seq<Seq<char>> = seq![];
    assert(v@.subrange(0, n as int) =~= contents@);
    assert(v@.subrange(0, 0) =~= Seq::<char>::empty());
    assert(views(tokens@) =~= Seq::<TokenView>::empty());
    while i < n
        invariant
            v@ == contents@,
            n == v.len(),
            start <= i <= n,
            matchers@ == registry(),
            lines(contents@) == done + lines_from(
                v@.subrange(i as int, n as int),
                v@.subrange(start as int, i as int),
            ),
            views(tokens@) == tokens_of_lines(done),
        decreases n - i,
    {
        let ghost rest = v@.subrange(i as int, n as int);
        let ghost cur = v@.subrange(start as int, i as int);
        assert(rest.drop_first() =~= v@.subrange(i + 1, n as int));
        if v[i] == '\n' {
            let end = if start < i && v[i - 1] == '\r' {
                i - 1
            } else {
                i
            };
            assert(v@.subrange(start as int, end as int) =~= strip_cr(cur));
            let line = String::from_str(contents.as_str().substring_char(start, end));
            let mut found = tokenize_line(&matchers, &line);
            let ghost before = tokens@;
            let ghost added = found@;
            tokens.append(&mut found);
            proof {
                lemma_views_concat(before, added);
                assert(done.push(strip_cr(cur)).drop_last() =~= done);
                assert(done + lines_from(rest, cur) =~= done.push(strip_cr(cur)) + lines_from(
                    v@.subrange(i + 1, n as int),
                    seq![],
                ));
                done = done.push(strip_cr(cur));
            }
            start = i + 1;
            assert(v@.subrange(start as int, i + 1) =~= Seq::<char>::empty());
        } else {
            assert(cur.push(v@[i as int]) =~= v@.subrange(start as int, i + 1));
        }
        i = i + 1;
    }
    let ghost cur = v@.subrange(start as int, n as int);
    assert(v@.subrange(n as int, n as int) =~= Seq::<char>::empty());
    if start < n {
        let line = String::from_str(contents.as_str().substring_char(start, n));
        let mut found = tokenize_line(&matchers, &line);
        let ghost before = tokens@;
        let ghost added = found@;
        tokens.append(&mut found);
        proof {
            lemma_views_concat(before, added);
            assert(done.push(cur).drop_last() =~= done);
            assert(lines(contents@) =~= done.push(cur));
        }
    } else {
        assert(lines(contents@) =~= done);
    }
    tokens
}

} // verus!
