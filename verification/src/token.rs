use vstd::prelude::*;

verus! {

/// The kinds of tokens of the Lox language.
#[derive(Clone, Copy, Debug, PartialEq, Eq, Hash, Structural)]
pub enum TokenType {
    LeftParen,
    RightParen,
    LeftBrace,
    RightBrace,
    Comma,
    Dot,
    Minus,
    Plus,
    Semicolon,
    Star,
    Slash,
    Equal,
    EqualEqual,
    Bang,
    BangEqual,
    Less,
    LessEqual,
    Greater,
    GreaterEqual,
    Identifier,
    String,
    Number,
    And,
    Class,
    Else,
    False,
    Fun,
    For,
    If,
    Nil,
    Or,
    Print,
    Return,
    Super,
    This,
    True,
    Var,
    While,
    Eof,
    Unknown,
}

/// The keyword, if any, that a word of the source spells.
pub open spec fn spec_keyword(s: Seq<char>) -> TokenType {
    if s == seq!['a', 'n', 'd'] {
        TokenType::And
    } else if s == seq!['c', 'l', 'a', 's', 's'] {
        TokenType::Class
    } else if s == seq!['e', 'l', 's', 'e'] {
        TokenType::Else
    } else if s == seq!['f', 'a', 'l', 's', 'e'] {
        TokenType::False
    } else if s == seq!['f', 'u', 'n'] {
        TokenType::Fun
    } else if s == seq!['f', 'o', 'r'] {
        TokenType::For
    } else if s == seq!['i', 'f'] {
        TokenType::If
    } else if s == seq!['n', 'i', 'l'] {
        TokenType::Nil
    } else if s == seq!['o', 'r'] {
        TokenType::Or
    } else if s == seq!['p', 'r', 'i', 'n', 't'] {
        TokenType::Print
    } else if s == seq!['r', 'e', 't', 'u', 'r', 'n'] {
        TokenType::Return
    } else if s == seq!['s', 'u', 'p', 'e', 'r'] {
        TokenType::Super
    } else if s == seq!['t', 'h', 'i', 's'] {
        TokenType::This
    } else if s == seq!['t', 'r', 'u', 'e'] {
        TokenType::True
    } else if s == seq!['v', 'a', 'r'] {
        TokenType::Var
    } else if s == seq!['w', 'h', 'i', 'l', 'e'] {
        TokenType::While
    } else {
        TokenType::Identifier
    }
}

/// Whether two character slices hold the same characters.
pub fn chars_equal(a: &[char], b: &[char]) -> (r: bool)
    ensures
        r == (a@ == b@),
{
    if a.len() != b.len() {
        return false;
    }
    let mut i: usize = 0;
    while i < a.len()
        invariant
            a@.len() == b@.len(),
            i <= a@.len(),
            forall|k: int| 0 <= k < i ==> a@[k] == b@[k],
        decreases a@.len() - i,
    {
        if a[i] != b[i] {
            return false;
        }
        i = i + 1;
    }
    assert(a@ =~= b@);
    true
}

impl TokenType {
    /// The token type of a word: its keyword, or `Identifier`.
    pub fn parse(word: &[char]) -> (t: TokenType)
        ensures
            t == spec_keyword(word@),
    {
        if chars_equal(word, &['a', 'n', 'd']) {
            TokenType::And
        } else if chars_equal(word, &['c', 'l', 'a', 's', 's']) {
            TokenType::Class
        } else if chars_equal(word, &['e', 'l', 's', 'e']) {
            TokenType::Else
        } else if chars_equal(word, &['f', 'a', 'l', 's', 'e']) {
            TokenType::False
        } else if chars_equal(word, &['f', 'u', 'n']) {
            TokenType::Fun
        } else if chars_equal(word, &['f', 'o', 'r']) {
            TokenType::For
        } else if chars_equal(word, &['i', 'f']) {
            TokenType::If
        } else if chars_equal(word, &['n', 'i', 'l']) {
            TokenType::Nil
        } else if chars_equal(word, &['o', 'r']) {
            TokenType::Or
        } else if chars_equal(word, &['p', 'r', 'i', 'n', 't']) {
            TokenType::Print
        } else if chars_equal(word, &['r', 'e', 't', 'u', 'r', 'n']) {
            TokenType::Return
        } else if chars_equal(word, &['s', 'u', 'p', 'e', 'r']) {
            TokenType::Super
        } else if chars_equal(word, &['t', 'h', 'i', 's']) {
            TokenType::This
        } else if chars_equal(word, &['t', 'r', 'u', 'e']) {
            TokenType::True
        } else if chars_equal(word, &['v', 'a', 'r']) {
            TokenType::Var
        } else if chars_equal(word, &['w', 'h', 'i', 'l', 'e']) {
            TokenType::While
        } else {
            TokenType::Identifier
        }
    }
}

impl TokenType {
    /// The name under which a token type is shown.
    pub open spec fn spec_name(self) -> Seq<char> {
        match self {
            TokenType::LeftParen => "LEFT_PAREN"@,
            TokenType::RightParen => "RIGHT_PAREN"@,
            TokenType::LeftBrace => "LEFT_BRACE"@,
            TokenType::RightBrace => "RIGHT_BRACE"@,
            TokenType::Comma => "COMMA"@,
            TokenType::Dot => "DOT"@,
            TokenType::Minus => "MINUS"@,
            TokenType::Plus => "PLUS"@,
            TokenType::Semicolon => "SEMICOLON"@,
            TokenType::Star => "STAR"@,
            TokenType::Slash => "SLASH"@,
            TokenType::Equal => "EQUAL"@,
            TokenType::EqualEqual => "EQUAL_EQUAL"@,
            TokenType::Bang => "BANG"@,
            TokenType::BangEqual => "BANG_EQUAL"@,
            TokenType::Less => "LESS"@,
            TokenType::LessEqual => "LESS_EQUAL"@,
            TokenType::Greater => "GREATER"@,
            TokenType::GreaterEqual => "GREATER_EQUAL"@,
            TokenType::Identifier => "IDENTIFIER"@,
            TokenType::String => "STRING"@,
            TokenType::Number => "NUMBER"@,
            TokenType::And => "AND"@,
            TokenType::Class => "CLASS"@,
            TokenType::Else => "ELSE"@,
            TokenType::False => "FALSE"@,
            TokenType::Fun => "FUN"@,
            TokenType::For => "FOR"@,
            TokenType::If => "IF"@,
            TokenType::Nil => "NIL"@,
            TokenType::Or => "OR"@,
            TokenType::Print => "PRINT"@,
            TokenType::Return => "RETURN"@,
            TokenType::Super => "SUPER"@,
            TokenType::This => "THIS"@,
            TokenType::True => "TRUE"@,
            TokenType::Var => "VAR"@,
            TokenType::While => "WHILE"@,
            TokenType::Eof => "EOF"@,
            TokenType::Unknown => "UNKNOWN"@,
        }
    }

    /// The name under which a token type is shown, such as `LEFT_PAREN`.
    pub fn name(&self) -> (s: &'static str)
        ensures
            s@ == self.spec_name(),
    {
        match self {
            TokenType::LeftParen => "LEFT_PAREN",
            TokenType::RightParen => "RIGHT_PAREN",
            TokenType::LeftBrace => "LEFT_BRACE",
            TokenType::RightBrace => "RIGHT_BRACE",
            TokenType::Comma => "COMMA",
            TokenType::Dot => "DOT",
            TokenType::Minus => "MINUS",
            TokenType::Plus => "PLUS",
            TokenType::Semicolon => "SEMICOLON",
            TokenType::Star => "STAR",
            TokenType::Slash => "SLASH",
            TokenType::Equal => "EQUAL",
            TokenType::EqualEqual => "EQUAL_EQUAL",
            TokenType::Bang => "BANG",
            TokenType::BangEqual => "BANG_EQUAL",
            TokenType::Less => "LESS",
            TokenType::LessEqual => "LESS_EQUAL",
            TokenType::Greater => "GREATER",
            TokenType::GreaterEqual => "GREATER_EQUAL",
            TokenType::Identifier => "IDENTIFIER",
            TokenType::String => "STRING",
            TokenType::Number => "NUMBER",
            TokenType::And => "AND",
            TokenType::Class => "CLASS",
            TokenType::Else => "ELSE",
            TokenType::False => "FALSE",
            TokenType::Fun => "FUN",
            TokenType::For => "FOR",
            TokenType::If => "IF",
            TokenType::Nil => "NIL",
            TokenType::Or => "OR",
            TokenType::Print => "PRINT",
            TokenType::Return => "RETURN",
            TokenType::Super => "SUPER",
            TokenType::This => "THIS",
            TokenType::True => "TRUE",
            TokenType::Var => "VAR",
            TokenType::While => "WHILE",
            TokenType::Eof => "EOF",
            TokenType::Unknown => "UNKNOWN",
        }
    }
}

/// The abstract value of a token: its kind, its text, its literal text and its line.
pub struct TokenView {
    pub token_type: TokenType,
    pub lexeme: Seq<char>,
    pub literal: Option<Seq<char>>,
    pub line: nat,
}

/// A token of the source: its kind, the text it was read from, the text of its
/// literal value (the contents of a string, the digits of a number) and its line.
#[derive(Debug, Clone)]
pub struct Token {
    pub token_type: TokenType,
    pub lexeme: String,
    pub literal: Option<String>,
    pub line: usize,
}

/// The text of an optional literal.
pub open spec fn literal_view(l: Option<String>) -> Option<Seq<char>> {
    match l {
        Some(s) => Some(s@),
        None => None,
    }
}

impl View for Token {
    type V = TokenView;

    open spec fn view(&self) -> TokenView {
        TokenView {
            token_type: self.token_type,
            lexeme: self.lexeme@,
            literal: literal_view(self.literal),
            line: self.line as nat,
        }
    }
}

/// The text that stands for an absent literal.
pub open spec fn null_text() -> Seq<char> {
    "null"@
}

/// How a token is shown: its type's name, its lexeme and its literal text, separated by spaces.
pub open spec fn spec_token_text(t: TokenView) -> Seq<char> {
    t.token_type.spec_name() + " "@ + t.lexeme + " "@ + match t.literal {
        Some(l) => l,
        None => null_text(),
    }
}

impl Token {
    pub fn new(token_type: TokenType, lexeme: String, literal: Option<String>, line: usize) -> (t: Token)
        ensures
            t.token_type == token_type,
            t.lexeme == lexeme,
            t.literal == literal,
            t.line == line,
    {
        Token { token_type, lexeme, literal, line }
    }

    /// A copy of this token.
    pub fn copy(&self) -> (t: Token)
        ensures
            t == *self,
    {
        let literal = match &self.literal {
            Some(l) => Some(l.clone()),
            None => None,
        };
        Token { token_type: self.token_type, lexeme: self.lexeme.clone(), literal, line: self.line }
    }

    /// Whether this token is `other`: same type, lexeme, literal and line.
    pub fn same(&self, other: &Token) -> (b: bool)
        ensures
            b == (self@ == other@),
    {
        let literal_same = match (&self.literal, &other.literal) {
            (Some(a), Some(b)) => *a == *b,
            (None, None) => true,
            _ => false,
        };
        self.token_type == other.token_type && self.lexeme == other.lexeme && literal_same
            && self.line == other.line
    }

    /// The text that shows this token: `TYPE lexeme literal`, with `null` for no literal.
    pub fn to_display_string(&self) -> (s: String)
        ensures
            s@ == spec_token_text(self@),
    {
        let mut s = String::from_str(self.token_type.name());
        s.append(" ");
        s.append(self.lexeme.as_str());
        s.append(" ");
        match &self.literal {
            Some(l) => s.append(l.as_str()),
            None => s.append("null"),
        }
        s
    }
}

} // verus!
