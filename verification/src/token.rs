//! The tokens of the language.

use vstd::prelude::*;
use vstd::string::StringExecFns;

verus! {

/// A token.
#[derive(Debug, Clone, PartialEq)]
pub enum Token {
    /// A numeral, as written.
    Number(String),
    /// A string literal, with its escapes resolved.
    String(String),
    Identifier(String),
    Frame,
    Frames,
    Num,
    Text,
    Pattern,
    Animate,
    Evolve,
    Using,
    From,
    If,
    Then,
    Elsif,
    Else,
    End,
    Repeat,
    Do,
    Times,
    When,
    Clicked,
    Idle,
    Return,
    And,
    Or,
    Not,
    Plus,
    Minus,
    Star,
    Slash,
    Percent,
    Caret,
    Equal,
    EqualEqual,
    NotEqual,
    Less,
    Greater,
    LessEqual,
    GreaterEqual,
    LeftParen,
    RightParen,
    LeftBracket,
    RightBracket,
    LeftBrace,
    RightBrace,
    Comma,
    Semicolon,
    Colon,
    Question,
    Newline,
    Eof,
}

/// The mathematical value of a token.
pub enum TokenView {
    Number(Seq<char>),
    String(Seq<char>),
    Identifier(Seq<char>),
    Frame,
    Frames,
    Num,
    Text,
    Pattern,
    Animate,
    Evolve,
    Using,
    From,
    If,
    Then,
    Elsif,
    Else,
    End,
    Repeat,
    Do,
    Times,
    When,
    Clicked,
    Idle,
    Return,
    And,
    Or,
    Not,
    Plus,
    Minus,
    Star,
    Slash,
    Percent,
    Caret,
    Equal,
    EqualEqual,
    NotEqual,
    Less,
    Greater,
    LessEqual,
    GreaterEqual,
    LeftParen,
    RightParen,
    LeftBracket,
    RightBracket,
    LeftBrace,
    RightBrace,
    Comma,
    Semicolon,
    Colon,
    Question,
    Newline,
    Eof,
}

impl View for Token {
    type V = TokenView;

    open spec fn view(&self) -> TokenView {
        match self {
            Token::Number(s) => TokenView::Number(s@),
            Token::String(s) => TokenView::String(s@),
            Token::Identifier(s) => TokenView::Identifier(s@),
            Token::Frame => TokenView::Frame,
            Token::Frames => TokenView::Frames,
            Token::Num => TokenView::Num,
            Token::Text => TokenView::Text,
            Token::Pattern => TokenView::Pattern,
            Token::Animate => TokenView::Animate,
            Token::Evolve => TokenView::Evolve,
            Token::Using => TokenView::Using,
            Token::From => TokenView::From,
            Token::If => TokenView::If,
            Token::Then => TokenView::Then,
            Token::Elsif => TokenView::Elsif,
            Token::Else => TokenView::Else,
            Token::End => TokenView::End,
            Token::Repeat => TokenView::Repeat,
            Token::Do => TokenView::Do,
            Token::Times => TokenView::Times,
            Token::When => TokenView::When,
            Token::Clicked => TokenView::Clicked,
            Token::Idle => TokenView::Idle,
            Token::Return => TokenView::Return,
            Token::And => TokenView::And,
            Token::Or => TokenView::Or,
            Token::Not => TokenView::Not,
            Token::Plus => TokenView::Plus,
            Token::Minus => TokenView::Minus,
            Token::Star => TokenView::Star,
            Token::Slash => TokenView::Slash,
            Token::Percent => TokenView::Percent,
            Token::Caret => TokenView::Caret,
            Token::Equal => TokenView::Equal,
            Token::EqualEqual => TokenView::EqualEqual,
            Token::NotEqual => TokenView::NotEqual,
            Token::Less => TokenView::Less,
            Token::Greater => TokenView::Greater,
            Token::LessEqual => TokenView::LessEqual,
            Token::GreaterEqual => TokenView::GreaterEqual,
            Token::LeftParen => TokenView::LeftParen,
            Token::RightParen => TokenView::RightParen,
            Token::LeftBracket => TokenView::LeftBracket,
            Token::RightBracket => TokenView::RightBracket,
            Token::LeftBrace => TokenView::LeftBrace,
            Token::RightBrace => TokenView::RightBrace,
            Token::Comma => TokenView::Comma,
            Token::Semicolon => TokenView::Semicolon,
            Token::Colon => TokenView::Colon,
            Token::Question => TokenView::Question,
            Token::Newline => TokenView::Newline,
            Token::Eof => TokenView::Eof,
        }
    }
}

/// The views of a list of tokens.
pub open spec fn tokens_view(ts: Seq<Token>) -> Seq<TokenView> {
    Seq::new(ts.len(), |i: int| ts[i]@)
}

impl TokenView {
    /// A number that tells the kinds of tokens apart.
    pub open spec fn code(self) -> int {
        match self {
            TokenView::Number(_) => 0,
            TokenView::String(_) => 1,
            TokenView::Identifier(_) => 2,
            TokenView::Frame => 3,
            TokenView::Frames => 4,
            TokenView::Num => 5,
            TokenView::Text => 6,
            TokenView::Pattern => 7,
            TokenView::Animate => 8,
            TokenView::Evolve => 9,
            TokenView::Using => 10,
            TokenView::From => 11,
            TokenView::If => 12,
            TokenView::Then => 13,
            TokenView::Elsif => 14,
            TokenView::Else => 15,
            TokenView::End => 16,
            TokenView::Repeat => 17,
            TokenView::Do => 18,
            TokenView::Times => 19,
            TokenView::When => 20,
            TokenView::Clicked => 21,
            TokenView::Idle => 22,
            TokenView::Return => 23,
            TokenView::And => 24,
            TokenView::Or => 25,
            TokenView::Not => 26,
            TokenView::Plus => 27,
            TokenView::Minus => 28,
            TokenView::Star => 29,
            TokenView::Slash => 30,
            TokenView::Percent => 31,
            TokenView::Caret => 32,
            TokenView::Equal => 33,
            TokenView::EqualEqual => 34,
            TokenView::NotEqual => 35,
            TokenView::Less => 36,
            TokenView::Greater => 37,
            TokenView::LessEqual => 38,
            TokenView::GreaterEqual => 39,
            TokenView::LeftParen => 40,
            TokenView::RightParen => 41,
            TokenView::LeftBracket => 42,
            TokenView::RightBracket => 43,
            TokenView::LeftBrace => 44,
            TokenView::RightBrace => 45,
            TokenView::Comma => 46,
            TokenView::Semicolon => 47,
            TokenView::Colon => 48,
            TokenView::Question => 49,
            TokenView::Newline => 50,
            TokenView::Eof => 51,
        }
    }

    /// Whether the token carries no text of its own.
    pub open spec fn plain(self) -> bool {
        !(self is Number || self is String || self is Identifier)
    }

    /// A token without text of its own is known by its code.
    pub proof fn lemma_code(self, other: TokenView)
        requires
            other.plain(),
        ensures
            (self == other) <==> self.code() == other.code(),
    {
    }

    /// The token as it is shown in messages: a numeral or identifier as
    /// written, a string between double quotes, a keyword or operator as
    /// its spelling; the line break shows as `\n` and the end as `EOF`.
    pub open spec fn text(self) -> Seq<char> {
        match self {
            TokenView::Number(s) => s,
            TokenView::String(s) => seq!['"'] + s + seq!['"'],
            TokenView::Identifier(s) => s,
            TokenView::Frame => "frame"@,
            TokenView::Frames => "frames"@,
            TokenView::Num => "num"@,
            TokenView::Text => "text"@,
            TokenView::Pattern => "pattern"@,
            TokenView::Animate => "animate"@,
            TokenView::Evolve => "evolve"@,
            TokenView::Using => "using"@,
            TokenView::From => "from"@,
            TokenView::If => "if"@,
            TokenView::Then => "then"@,
            TokenView::Elsif => "elsif"@,
            TokenView::Else => "else"@,
            TokenView::End => "end"@,
            TokenView::Repeat => "repeat"@,
            TokenView::Do => "do"@,
            TokenView::Times => "times"@,
            TokenView::When => "when"@,
            TokenView::Clicked => "clicked"@,
            TokenView::Idle => "idle"@,
            TokenView::Return => "return"@,
            TokenView::And => "and"@,
            TokenView::Or => "or"@,
            TokenView::Not => "not"@,
            TokenView::Plus => "+"@,
            TokenView::Minus => "-"@,
            TokenView::Star => "*"@,
            TokenView::Slash => "/"@,
            TokenView::Percent => "%"@,
            TokenView::Caret => "^"@,
            TokenView::Equal => "="@,
            TokenView::EqualEqual => "=="@,
            TokenView::NotEqual => "!="@,
            TokenView::Less => "<"@,
            TokenView::Greater => ">"@,
            TokenView::LessEqual => "<="@,
            TokenView::GreaterEqual => ">="@,
            TokenView::LeftParen => "("@,
            TokenView::RightParen => ")"@,
            TokenView::LeftBracket => "["@,
            TokenView::RightBracket => "]"@,
            TokenView::LeftBrace => "{"@,
            TokenView::RightBrace => "}"@,
            TokenView::Comma => ","@,
            TokenView::Semicolon => ";"@,
            TokenView::Colon => ":"@,
            TokenView::Question => "?"@,
            TokenView::Newline => "\\n"@,
            TokenView::Eof => "EOF"@,
        }
    }

    /// The keyword that a word is, if it is one.
    pub open spec fn keyword(word: Seq<char>) -> Option<TokenView> {
        if word == "frame"@ {
            Some(TokenView::Frame)
        } else if word == "frames"@ {
            Some(TokenView::Frames)
        } else if word == "num"@ {
            Some(TokenView::Num)
        } else if word == "text"@ {
            Some(TokenView::Text)
        } else if word == "pattern"@ {
            Some(TokenView::Pattern)
        } else if word == "animate"@ {
            Some(TokenView::Animate)
        } else if word == "evolve"@ {
            Some(TokenView::Evolve)
        } else if word == "using"@ {
            Some(TokenView::Using)
        } else if word == "from"@ {
            Some(TokenView::From)
        } else if word == "if"@ {
            Some(TokenView::If)
        } else if word == "then"@ {
            Some(TokenView::Then)
        } else if word == "elsif"@ {
            Some(TokenView::Elsif)
        } else if word == "else"@ {
            Some(TokenView::Else)
        } else if word == "end"@ {
            Some(TokenView::End)
        } else if word == "repeat"@ {
            Some(TokenView::Repeat)
        } else if word == "do"@ {
            Some(TokenView::Do)
        } else if word == "times"@ {
            Some(TokenView::Times)
        } else if word == "when"@ {
            Some(TokenView::When)
        } else if word == "clicked"@ {
            Some(TokenView::Clicked)
        } else if word == "idle"@ {
            Some(TokenView::Idle)
        } else if word == "return"@ {
            Some(TokenView::Return)
        } else if word == "and"@ {
            Some(TokenView::And)
        } else if word == "or"@ {
            Some(TokenView::Or)
        } else if word == "not"@ {
            Some(TokenView::Not)
        } else {
            None
        }
    }

    /// The token that a word is: its keyword, or else an identifier.
    pub open spec fn of_word(word: Seq<char>) -> TokenView {
        match Self::keyword(word) {
            Some(t) => t,
            None => TokenView::Identifier(word),
        }
    }
}

impl Token {
    /// A number that tells the kinds of tokens apart.
    pub fn code(&self) -> (c: u8)
        ensures
            c == self@.code(),
    {
        match self {
            Token::Number(_) => 0,
            Token::String(_) => 1,
            Token::Identifier(_) => 2,
            Token::Frame => 3,
            Token::Frames => 4,
            Token::Num => 5,
            Token::Text => 6,
            Token::Pattern => 7,
            Token::Animate => 8,
            Token::Evolve => 9,
            Token::Using => 10,
            Token::From => 11,
            Token::If => 12,
            Token::Then => 13,
            Token::Elsif => 14,
            Token::Else => 15,
            Token::End => 16,
            Token::Repeat => 17,
            Token::Do => 18,
            Token::Times => 19,
            Token::When => 20,
            Token::Clicked => 21,
            Token::Idle => 22,
            Token::Return => 23,
            Token::And => 24,
            Token::Or => 25,
            Token::Not => 26,
            Token::Plus => 27,
            Token::Minus => 28,
            Token::Star => 29,
            Token::Slash => 30,
            Token::Percent => 31,
            Token::Caret => 32,
            Token::Equal => 33,
            Token::EqualEqual => 34,
            Token::NotEqual => 35,
            Token::Less => 36,
            Token::Greater => 37,
            Token::LessEqual => 38,
            Token::GreaterEqual => 39,
            Token::LeftParen => 40,
            Token::RightParen => 41,
            Token::LeftBracket => 42,
            Token::RightBracket => 43,
            Token::LeftBrace => 44,
            Token::RightBrace => 45,
            Token::Comma => 46,
            Token::Semicolon => 47,
            Token::Colon => 48,
            Token::Question => 49,
            Token::Newline => 50,
            Token::Eof => 51,
        }
    }

    /// The token as it is shown in messages.
    pub fn to_text(&self) -> (s: String)
        ensures
            s@ == self@.text(),
    {
        match self {
            Token::Number(s) => s.clone(),
            Token::String(s) => {
                let mut out = String::new();
                out.push('"');
                out.append(s.as_str());
                out.push('"');
                assert(out@ =~= seq!['"'] + s@ + seq!['"']);
                out
            },
            Token::Identifier(s) => s.clone(),
            Token::Frame => String::from_str("frame"),
            Token::Frames => String::from_str("frames"),
            Token::Num => String::from_str("num"),
            Token::Text => String::from_str("text"),
            Token::Pattern => String::from_str("pattern"),
            Token::Animate => String::from_str("animate"),
            Token::Evolve => String::from_str("evolve"),
            Token::Using => String::from_str("using"),
            Token::From => String::from_str("from"),
            Token::If => String::from_str("if"),
            Token::Then => String::from_str("then"),
            Token::Elsif => String::from_str("elsif"),
            Token::Else => String::from_str("else"),
            Token::End => String::from_str("end"),
            Token::Repeat => String::from_str("repeat"),
            Token::Do => String::from_str("do"),
            Token::Times => String::from_str("times"),
            Token::When => String::from_str("when"),
            Token::Clicked => String::from_str("clicked"),
            Token::Idle => String::from_str("idle"),
            Token::Return => String::from_str("return"),
            Token::And => String::from_str("and"),
            Token::Or => String::from_str("or"),
            Token::Not => String::from_str("not"),
            Token::Plus => String::from_str("+"),
            Token::Minus => String::from_str("-"),
            Token::Star => String::from_str("*"),
            Token::Slash => String::from_str("/"),
            Token::Percent => String::from_str("%"),
            Token::Caret => String::from_str("^"),
            Token::Equal => String::from_str("="),
            Token::EqualEqual => String::from_str("=="),
            Token::NotEqual => String::from_str("!="),
            Token::Less => String::from_str("<"),
            Token::Greater => String::from_str(">"),
            Token::LessEqual => String::from_str("<="),
            Token::GreaterEqual => String::from_str(">="),
            Token::LeftParen => String::from_str("("),
            Token::RightParen => String::from_str(")"),
            Token::LeftBracket => String::from_str("["),
            Token::RightBracket => String::from_str("]"),
            Token::LeftBrace => String::from_str("{"),
            Token::RightBrace => String::from_str("}"),
            Token::Comma => String::from_str(","),
            Token::Semicolon => String::from_str(";"),
            Token::Colon => String::from_str(":"),
            Token::Question => String::from_str("?"),
            Token::Newline => String::from_str("\\n"),
            Token::Eof => String::from_str("EOF"),
        }
    }

    /// An independent copy of the token.
    pub fn duplicate(&self) -> (t: Token)
        ensures
            t@ == self@,
    {
        match self {
            Token::Number(s) => Token::Number(s.clone()),
            Token::String(s) => Token::String(s.clone()),
            Token::Identifier(s) => Token::Identifier(s.clone()),
            Token::Frame => Token::Frame,
            Token::Frames => Token::Frames,
            Token::Num => Token::Num,
            Token::Text => Token::Text,
            Token::Pattern => Token::Pattern,
            Token::Animate => Token::Animate,
            Token::Evolve => Token::Evolve,
            Token::Using => Token::Using,
            Token::From => Token::From,
            Token::If => Token::If,
            Token::Then => Token::Then,
            Token::Elsif => Token::Elsif,
            Token::Else => Token::Else,
            Token::End => Token::End,
            Token::Repeat => Token::Repeat,
            Token::Do => Token::Do,
            Token::Times => Token::Times,
            Token::When => Token::When,
            Token::Clicked => Token::Clicked,
            Token::Idle => Token::Idle,
            Token::Return => Token::Return,
            Token::And => Token::And,
            Token::Or => Token::Or,
            Token::Not => Token::Not,
            Token::Plus => Token::Plus,
            Token::Minus => Token::Minus,
            Token::Star => Token::Star,
            Token::Slash => Token::Slash,
            Token::Percent => Token::Percent,
            Token::Caret => Token::Caret,
            Token::Equal => Token::Equal,
            Token::EqualEqual => Token::EqualEqual,
            Token::NotEqual => Token::NotEqual,
            Token::Less => Token::Less,
            Token::Greater => Token::Greater,
            Token::LessEqual => Token::LessEqual,
            Token::GreaterEqual => Token::GreaterEqual,
            Token::LeftParen => Token::LeftParen,
            Token::RightParen => Token::RightParen,
            Token::LeftBracket => Token::LeftBracket,
            Token::RightBracket => Token::RightBracket,
            Token::LeftBrace => Token::LeftBrace,
            Token::RightBrace => Token::RightBrace,
            Token::Comma => Token::Comma,
            Token::Semicolon => Token::Semicolon,
            Token::Colon => Token::Colon,
            Token::Question => Token::Question,
            Token::Newline => Token::Newline,
            Token::Eof => Token::Eof,
        }
    }
}

} // verus!
