//! The token model and the line-matcher capability.
use vstd::prelude::*;

verus! {

/// The kind of a token.
#[derive(Clone, Copy, Debug, PartialEq, Eq, Structural)]
pub enum Type {
    HeaderH1,
    HeaderH2,
    Unknown,
    Paragraph,
    NewLine,
    CodeBlockOpen,
    CodeBlockClose,
}

/// The fixed display name of each kind.
pub open spec fn kind_name(t: Type) -> Seq<char> {
    match t {
        Type::HeaderH1 => seq!['H', '1'],
        Type::HeaderH2 => seq!['H', '2'],
        Type::Unknown => seq!['U', 'n', 'k', 'n', 'o', 'w', 'n'],
        Type::Paragraph => seq!['P', 'a', 'r', 'a', 'g', 'r', 'a', 'p', 'h'],
        Type::NewLine => seq!['N', 'e', 'w', 'L', 'i', 'n', 'e'],
        Type::CodeBlockOpen => seq![
            'C', 'o', 'd', 'e', 'B', 'l', 'o', 'c', 'k', 'O', 'p', 'e', 'n',
        ],
        Type::CodeBlockClose => seq![
            'C', 'o', 'd', 'e', 'B', 'l', 'o', 'c', 'k', 'C', 'l', 'o', 's', 'e',
        ],
    }
}

impl Type {
    /// The display name of this kind, as presenters show it.
    pub fn to_string(&self) -> (r: String)
        ensures
            r@ == kind_name(*self),
    {
        let s = match self {
            Type::HeaderH1 => "H1",
            Type::HeaderH2 => "H2",
            Type::Unknown => "Unknown",
            Type::Paragraph => "Paragraph",
            Type::NewLine => "NewLine",
            Type::CodeBlockOpen => "CodeBlockOpen",
            Type::CodeBlockClose => "CodeBlockClose",
        };
        proof {
            reveal_strlit("H1");
            reveal_strlit("H2");
            reveal_strlit("Unknown");
            reveal_strlit("Paragraph");
            reveal_strlit("NewLine");
            reveal_strlit("CodeBlockOpen");
            reveal_strlit("CodeBlockClose");
        }
        let r = String::from_str(s);
        assert(r@ =~= kind_name(*self));
        r
    }
}

/// A token: its kind and the text extracted for it.
#[derive(Debug)]
pub struct Token {
    pub token_type: Type,
    pub token_value: String,
}

/// What a token stands for: a kind and a text.
pub struct TokenView {
    pub kind: Type,
    pub text: Seq<char>,
}

impl View for Token {
    type V = TokenView;

    open spec fn view(&self) -> TokenView {
        TokenView { kind: self.token_type, text: self.token_value@ }
    }
}

/// The views of a sequence of tokens.
pub open spec fn views(ts: Seq<Token>) -> Seq<TokenView> {
    ts.map_values(|t: Token| t@)
}

/// The views of two token sequences, one after the other.
pub proof fn lemma_views_concat(a: Seq<Token>, b: Seq<Token>)
    ensures
        views(a + b) == views(a) + views(b),
{
    assert(views(a + b) =~= views(a) + views(b));
}

/// Builds a token of the given kind and text.
pub fn make_token(kind: Type, text: String) -> (r: Token)
    ensures
        r@ == (TokenView { kind, text: text@ }),
{
    Token { token_type: kind, token_value: text }
}

impl Token {
    /// The text of this token, as presenters show it.
    pub fn to_string(&self) -> (r: String)
        ensures
            r@ == self.token_value@,
    {
        self.token_value.clone()
    }
}

/// A stateless matcher: decides whether it can read a line and which tokens it
/// makes of it.
pub trait TokenMatcher {
    /// Whether this matcher accepts `line`.
    spec fn accepts(&self, line: Seq<char>) -> bool;

    /// The tokens this matcher makes of `line`.
    spec fn tokens_for(&self, line: Seq<char>) -> Seq<TokenView>;

    /// Whether this matcher can read `line`.
    fn validate(&self, line: &String) -> (r: bool)
        ensures
            r == self.accepts(line@),
    ;

    /// The tokens this matcher makes of `line`, in order.
    fn get_token(&self, line: &String) -> (r: Vec<Token>)
        ensures
            views(r@) == self.tokens_for(line@),
    ;
}

} // verus!
