//! Tokens: what the lexer emits.

use vstd::prelude::*;

verus! {

/// The lexical categories of the language.
#[derive(Clone, Debug, PartialEq, Eq)]
pub enum TokenKind {
    /// A colon, which introduces a type.
    TypeAssignment,
    /// An equals sign on its own.
    LetAssignment,
    /// An assignment that names its type, as in `let a : u32 = 10;`. The type's
    /// name is carried. The lexer does not emit this kind.
    TypedAssignment(String),
    /// An assignment without a type: `:=`.
    UnTypedAssignment,
    /// `;`
    Semicolon,
    /// A name that is no keyword.
    Identifier,
    /// The keyword `let`.
    Assign,
    /// A string in single or double quotes, with its escapes resolved.
    String,
    /// An integer, with its value.
    Number(usize),
    /// `+`
    Plus,
    /// `+=`
    ShortIncrement,
    /// `-`
    Minus,
    /// `-=`
    ShortDecrement,
    /// `*`
    Multiply,
    /// `*=`
    ShortMultiply,
    /// `/`
    Divide,
    /// `/=`
    ShortDivide,
    /// `%`
    Modulo,
    /// `%=`
    ShortModulo,
    /// `(`
    OpenParen,
    /// `)`
    CloseParen,
    /// `{`
    OpenBrace,
    /// `}`
    CloseBrace,
    /// `[`
    OpenBracket,
    /// `]`
    CloseBracket,
    /// `,`
    Comma,
    /// The keyword `func`.
    Function,
    /// The keyword `return`.
    Return,
    /// The keyword `import`.
    Import,
}

/// A token kind as a mathematical value: a type's name is a sequence of
/// characters, a number's value a natural number.
pub enum KindView {
    TypeAssignment,
    LetAssignment,
    TypedAssignment(Seq<char>),
    UnTypedAssignment,
    Semicolon,
    Identifier,
    Assign,
    String,
    Number(nat),
    Plus,
    ShortIncrement,
    Minus,
    ShortDecrement,
    Multiply,
    ShortMultiply,
    Divide,
    ShortDivide,
    Modulo,
    ShortModulo,
    OpenParen,
    CloseParen,
    OpenBrace,
    CloseBrace,
    OpenBracket,
    CloseBracket,
    Comma,
    Function,
    Return,
    Import,
}

impl View for TokenKind {
    type V = KindView;

    open spec fn view(&self) -> KindView {
        match *self {
            TokenKind::TypeAssignment => KindView::TypeAssignment,
            TokenKind::LetAssignment => KindView::LetAssignment,
            TokenKind::TypedAssignment(name) => KindView::TypedAssignment(name@),
            TokenKind::UnTypedAssignment => KindView::UnTypedAssignment,
            TokenKind::Semicolon => KindView::Semicolon,
            TokenKind::Identifier => KindView::Identifier,
            TokenKind::Assign => KindView::Assign,
            TokenKind::String => KindView::String,
            TokenKind::Number(value) => KindView::Number(value as nat),
            TokenKind::Plus => KindView::Plus,
            TokenKind::ShortIncrement => KindView::ShortIncrement,
            TokenKind::Minus => KindView::Minus,
            TokenKind::ShortDecrement => KindView::ShortDecrement,
            TokenKind::Multiply => KindView::Multiply,
            TokenKind::ShortMultiply => KindView::ShortMultiply,
            TokenKind::Divide => KindView::Divide,
            TokenKind::ShortDivide => KindView::ShortDivide,
            TokenKind::Modulo => KindView::Modulo,
            TokenKind::ShortModulo => KindView::ShortModulo,
            TokenKind::OpenParen => KindView::OpenParen,
            TokenKind::CloseParen => KindView::CloseParen,
            TokenKind::OpenBrace => KindView::OpenBrace,
            TokenKind::CloseBrace => KindView::CloseBrace,
            TokenKind::OpenBracket => KindView::OpenBracket,
            TokenKind::CloseBracket => KindView::CloseBracket,
            TokenKind::Comma => KindView::Comma,
            TokenKind::Function => KindView::Function,
            TokenKind::Return => KindView::Return,
            TokenKind::Import => KindView::Import,
        }
    }
}

/// One lexical unit: its kind, and the text that stands for it.
#[derive(Clone, Debug, PartialEq, Eq)]
pub struct Token {
    /// The kind of token.
    pub kind: TokenKind,
    /// The text of the token: what the source held, but for a string, whose
    /// escapes are resolved and whose quotes are dropped, and for a compound
    /// operator, which is written without a gap.
    pub literal: String,
}

/// A token as a mathematical value.
pub struct TokenView {
    pub kind: KindView,
    pub literal: Seq<char>,
}

impl View for Token {
    type V = TokenView;

    open spec fn view(&self) -> TokenView {
        TokenView { kind: self.kind@, literal: self.literal@ }
    }
}

impl Token {
    /// Create a new token.
    pub fn new(kind: TokenKind, literal: String) -> (token: Self)
        ensures
            token.kind == kind,
            token.literal == literal,
    {
        Self { kind, literal }
    }
}

/// The views of a sequence of tokens, in order.
pub open spec fn views(tokens: Seq<Token>) -> Seq<TokenView> {
    tokens.map_values(|token: Token| token@)
}

} // verus!
