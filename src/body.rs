//! The body matcher: blank lines, paragraphs and inline code-fence markers.
use vstd::prelude::*;
use crate::text::{chars_of, is_whitespace, occurs_at, trim, trim_bounds, words, words_from};
use crate::tokens::{make_token, Token, TokenMatcher, TokenView, Type, views};

verus! {

/// The marker that opens a code fence.
pub open spec fn open_marker() -> Seq<char> {
    seq!['<', 'c', 'o', 'd', 'e', '>']
}

/// The marker that closes a code fence.
pub open spec fn close_marker() -> Seq<char> {
    seq!['<', '/', 'c', 'o', 'd', 'e', '>']
}

/// The fence token, if any, that the word `w` of `line` makes.
pub open spec fn fence_token(w: Seq<char>, line: Seq<char>) -> Seq<TokenView> {
    if w == open_marker() {
        seq![TokenView { kind: Type::CodeBlockOpen, text: line }]
    } else if w == close_marker() {
        seq![TokenView { kind: Type::CodeBlockClose, text: line }]
    } else {
        seq![]
    }
}

/// The fence tokens that the words `ws` of `line` make, in order.
pub open spec fn fence_tokens(ws: Seq<Seq<char>>, line: Seq<char>) -> Seq<TokenView>
    decreases ws.len(),
{
    if ws.len() == 0 {
        seq![]
    } else {
        fence_tokens(ws.drop_last(), line) + fence_token(ws.last(), line)
    }
}

/// The tokens the body matcher makes of `line`: a blank line is one `NewLine`
/// with empty text; any other line gives its fence tokens, then a `Paragraph`
/// holding the whole line.
pub open spec fn body_tokens(line: Seq<char>) -> Seq<TokenView> {
    if trim(line).len() == 0 {
        seq![TokenView { kind: Type::NewLine, text: Seq::empty() }]
    } else {
        fence_tokens(words(line), line).push(TokenView { kind: Type::Paragraph, text: line })
    }
}

/// Recognises every line: the fallback matcher.
pub struct BodyMatcher;

/// Whether `line` holds nothing but whitespace.
fn is_the_line_empty(line: &String) -> (r: bool)
    ensures
        r == (trim(line@).len() == 0),
{
    let v = chars_of(line.as_str());
    let (a, b) = trim_bounds(&v, 0, v.len());
    assert(v@.subrange(0, v@.len() as int) =~= line@);
    a == b
}

/// Whether `line` holds some non-whitespace character.
fn is_there_text_on_this_line(line: &String) -> (r: bool)
    ensures
        r == (trim(line@).len() > 0),
{
    !is_the_line_empty(line)
}

/// Appends to `tokens` the fence token that the word `v[start..end]` of `line` makes.
fn push_fence_token(
    tokens: &mut Vec<Token>,
    v: &Vec<char>,
    start: usize,
    end: usize,
    line: &String,
    open: &Vec<char>,
    close: &Vec<char>,
)
    requires
        start <= end <= v.len(),
        open@ == open_marker(),
        close@ == close_marker(),
    ensures
        views(final(tokens)@) == views(old(tokens)@) + fence_token(
            v@.subrange(start as int, end as int),
            line@,
        ),
{
    let ghost w = v@.subrange(start as int, end as int);
    let ghost before = tokens@;
    if end - start == open.len() && occurs_at(v, start, end, open) {
        tokens.push(make_token(Type::CodeBlockOpen, line.clone()));
        assert(views(tokens@) =~= views(before) + fence_token(w, line@));
    } else if end - start == close.len() && occurs_at(v, start, end, close) {
        assert(w != open_marker());
        tokens.push(make_token(Type::CodeBlockClose, line.clone()));
        assert(views(tokens@) =~= views(before) + fence_token(w, line@));
    } else {
        assert(w.len() == open@.len() ==> w != open_marker());
        assert(w.len() == close@.len() ==> w != close_marker());
        assert(views(tokens@) =~= views(before) + fence_token(w, line@));
    }
}

impl TokenMatcher for BodyMatcher {
    /// Every line is accepted.
    open spec fn accepts(&self, line: Seq<char>) -> bool {
        true
    }

    open spec fn tokens_for(&self, line: Seq<char>) -> Seq<TokenView> {
        body_tokens(line)
    }

    fn validate(&self, line: &String) -> (r: bool) {
        is_the_line_empty(line) || is_there_text_on_this_line(line)
    }

    fn get_token(&self, line: &String) -> (r: Vec<Token>) {
        let mut tokens: Vec<Token> = Vec::new();
        if is_the_line_empty(line) {
            tokens.push(make_token(Type::NewLine, String::new()));
            assert(views(tokens@) =~= body_tokens(line@));
            return tokens;
        }
        let open = vec!['<', 'c', 'o', 'd', 'e', '>'];
        let close = vec!['<', '/', 'c', 'o', 'd', 'e', '>'];
        assert(open@ =~= open_marker());
        assert(close@ =~= close_marker());
        let v = chars_of(line.as_str());
        let n = v.len();
        let mut start: usize = 0;
        let mut i: usize = 0;
        let ghost done: Seq<Seq<char>> = seq![];
        assert(v@.subrange(0, n as int) =~= line@);
        assert(v@.subrange(0, 0) =~= Seq::<char>::empty());
        while i < n
            invariant
                v@ == line@,
                n == v.len(),
                start <= i <= n,
                open@ == open_marker(),
                close@ == close_marker(),
                words(line@) == done + words_from(
                    v@.subrange(i as int, n as int),
                    v@.subrange(start as int, i as int),
                ),
                views(tokens@) == fence_tokens(done, line@),
            decreases n - i,
        {
            let ghost rest = v@.subrange(i as int, n as int);
            let ghost cur = v@.subrange(start as int, i as int);
            assert(rest.drop_first() =~= v@.subrange(i + 1, n as int));
            if is_whitespace(v[i]) {
                if start < i {
                    push_fence_token(&mut tokens, &v, start, i, line, &open, &close);
                    assert(done.push(cur).drop_last() =~= done);
                    assert(done + words_from(rest, cur) =~= done.push(cur) + words_from(
                        v@.subrange(i + 1, n as int),
                        seq![],
                    ));
                    proof {
                        done = done.push(cur);
                    }
                } else {
                    assert(done + words_from(rest, cur) =~= done + words_from(
                        v@.subrange(i + 1, n as int),
                        seq![],
                    ));
                }
                start = i + 1;
                assert(v@.subrange(start as int, i + 1) =~= Seq::<char>::empty());
            } else {
                assert(cur.push(v@[i as int]) =~= v@.subrange(start as int, i + 1));
            }
            i = i + 1;
        }
        let ghost cur = v@.subrange(start as int, n as int);
        assert(v@.subrange(n as int, n as int) =~= Seq::<char>::empty());
        if start < n {
            push_fence_token(&mut tokens, &v, start, n, line, &open, &close);
            assert(done.push(cur).drop_last() =~= done);
            assert(words(line@) =~= done.push(cur));
            proof {
                done = done.push(cur);
            }
        } else {
            assert(words(line@) =~= done);
        }
        let ghost fences = tokens@;
        tokens.push(make_token(Type::Paragraph, line.clone()));
        assert(views(tokens@) =~= views(fences).push(
            TokenView { kind: Type::Paragraph, text: line@ },
        ));
        tokens
    }
}

} // verus!
