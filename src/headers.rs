//! The heading matcher: lines whose trimmed form starts with `#`.
use vstd::prelude::*;
use crate::text::{chars_of, removed, trim, trim_bounds, trimmed, remove_all};
use crate::tokens::{make_token, Token, TokenMatcher, TokenView, Type, views};

verus! {

/// The one-character heading marker.
pub open spec fn h1_marker() -> Seq<char> {
    seq!['#']
}

/// The two-character heading marker.
pub open spec fn h2_marker() -> Seq<char> {
    seq!['#', '#']
}

/// Whether `s` starts with `p`.
pub open spec fn starts_with(s: Seq<char>, p: Seq<char>) -> bool {
    p.len() <= s.len() && s.subrange(0, p.len() as int) == p
}

/// Whether `line` is a heading: its trimmed form starts with `#`.
pub open spec fn is_heading(line: Seq<char>) -> bool {
    starts_with(trim(line), h1_marker())
}

/// The text of a heading: the trimmed line with every `marker` taken out,
/// trimmed again.
pub open spec fn heading_text(line: Seq<char>, marker: Seq<char>) -> Seq<char> {
    trim(remove_all(trim(line), marker))
}

/// The tokens the heading matcher makes of `line`.
pub open spec fn heading_tokens(line: Seq<char>) -> Seq<TokenView> {
    if starts_with(trim(line), h2_marker()) {
        seq![TokenView { kind: Type::HeaderH2, text: heading_text(line, h2_marker()) }]
    } else if starts_with(trim(line), h1_marker()) {
        seq![TokenView { kind: Type::HeaderH1, text: heading_text(line, h1_marker()) }]
    } else {
        seq![TokenView { kind: Type::Unknown, text: Seq::empty() }]
    }
}

/// Recognises `#` and `##` headings.
pub struct HeaderMatcher;

/// A heading token of `kind`, whose text is `line` trimmed, with every
/// `marker` removed, and trimmed again.
fn heading_token(line: &String, marker: &Vec<char>, kind: Type) -> (r: Token)
    requires
        marker.len() > 0,
    ensures
        r@ == (TokenView { kind, text: heading_text(line@, marker@) }),
{
    let t = trimmed(line.as_str());
    let v = chars_of(t.as_str());
    let stripped = removed(t.as_str(), &v, 0, v.len(), marker);
    assert(v@.subrange(0, v@.len() as int) =~= t@);
    make_token(kind, trimmed(stripped.as_str()))
}

/// The first-level heading token of `line`.
pub fn parse_h1(line: &String) -> (r: Token)
    ensures
        r@ == (TokenView { kind: Type::HeaderH1, text: heading_text(line@, h1_marker()) }),
{
    let marker = vec!['#'];
    assert(marker@ =~= h1_marker());
    heading_token(line, &marker, Type::HeaderH1)
}

/// The second-level heading token of `line`.
pub fn parse_h2(line: &String) -> (r: Token)
    ensures
        r@ == (TokenView { kind: Type::HeaderH2, text: heading_text(line@, h2_marker()) }),
{
    let marker = vec!['#', '#'];
    assert(marker@ =~= h2_marker());
    heading_token(line, &marker, Type::HeaderH2)
}

/// How many `#` the trimmed form of `line` starts with, counting up to two.
fn leading_hashes(line: &String) -> (r: usize)
    ensures
        r <= 2,
        r == 2 <==> starts_with(trim(line@), h2_marker()),
        r >= 1 <==> starts_with(trim(line@), h1_marker()),
{
    let v = chars_of(line.as_str());
    let (a, b) = trim_bounds(&v, 0, v.len());
    assert(v@.subrange(0, v@.len() as int) =~= line@);
    let ghost t = trim(line@);
    assert(t =~= v@.subrange(a as int, b as int));
    if a < b && v[a] == '#' {
        assert(t.subrange(0, 1) =~= h1_marker());
        if a + 1 < b && v[a + 1] == '#' {
            assert(t.subrange(0, 2) =~= h2_marker());
            2
        } else {
            assert(t.len() >= 2 ==> t.subrange(0, 2)[1] != h2_marker()[1]);
            1
        }
    } else {
        assert(t.len() >= 1 ==> t.subrange(0, 1)[0] != h1_marker()[0]);
        assert(t.len() >= 2 ==> t.subrange(0, 2)[0] != h2_marker()[0]);
        0
    }
}

impl TokenMatcher for HeaderMatcher {
    open spec fn accepts(&self, line: Seq<char>) -> bool {
        is_heading(line)
    }

    open spec fn tokens_for(&self, line: Seq<char>) -> Seq<TokenView> {
        heading_tokens(line)
    }

    fn validate(&self, line: &String) -> (r: bool) {
        leading_hashes(line) >= 1
    }

    fn get_token(&self, line: &String) -> (r: Vec<Token>) {
        let n = leading_hashes(line);
        let mut tokens: Vec<Token> = Vec::new();
        if n == 2 {
            tokens.push(parse_h2(line));
        } else if n == 1 {
            tokens.push(parse_h1(line));
        } else {
            tokens.push(make_token(Type::Unknown, String::new()));
        }
        assert(views(tokens@) =~= heading_tokens(line@));
        tokens
    }
}

} // verus!
