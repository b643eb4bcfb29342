//! Operators and their binding powers.
//!
//! An operator binds with a power that depends on the role in which it stands: before its
//! operand, between two operands, or behind its operand. A second, smaller set of tables
//! holds where a type is expected.

use vstd::prelude::*;
use crate::lexer::token::Token;

verus! {

/// The operators of expressions.
#[derive(Clone, Copy, Debug, PartialEq, Eq, Structural)]
pub enum Opcode {
    /// Member access, `a.b`.
    Period,
    /// Indexing, `a[b]`.
    Subscript,
    /// A call, `a(b)`.
    Call,
    /// `:`
    Colon,
    /// `>>`
    GreaterGreater,
    /// `<<`
    LessLess,
    /// `==`
    EqualsEquals,
    /// `!=`
    ExclamationEquals,
    /// `>=`
    GreaterEquals,
    /// `<=`
    LessEquals,
    /// `&&`
    AndAnd,
    /// `||`
    OrOr,
    /// `>`
    Greater,
    /// `<`
    Less,
    /// `&`
    And,
    /// `|`
    Or,
    /// `^`
    Caret,
    /// `~`
    Not,
    /// `=`
    Equals,
    /// `+`
    Plus,
    /// `-`
    Minus,
    /// `*`
    Asterisk,
    /// `/`
    Slash,
    /// `%`
    Percent,
    /// `!`
    Exclamation,
}

impl Opcode {
    /// The operator that a token stands for.
    pub open spec fn of_token(tok: Token) -> Option<Opcode> {
        match tok {
            Token::Colon => Some(Opcode::Colon),
            Token::Period => Some(Opcode::Period),
            Token::LBrack => Some(Opcode::Subscript),
            Token::LParen => Some(Opcode::Call),
            Token::EqualsEquals => Some(Opcode::EqualsEquals),
            Token::Exclamation => Some(Opcode::Exclamation),
            Token::ExclamationEquals => Some(Opcode::ExclamationEquals),
            Token::GreaterEquals => Some(Opcode::GreaterEquals),
            Token::LessEquals => Some(Opcode::LessEquals),
            Token::GreaterGreater => Some(Opcode::GreaterGreater),
            Token::LessLess => Some(Opcode::LessLess),
            Token::Less => Some(Opcode::Less),
            Token::Greater => Some(Opcode::Greater),
            Token::AndAnd => Some(Opcode::AndAnd),
            Token::OrOr => Some(Opcode::OrOr),
            Token::And => Some(Opcode::And),
            Token::Or => Some(Opcode::Or),
            Token::Caret => Some(Opcode::Caret),
            Token::Not => Some(Opcode::Not),
            Token::Equals => Some(Opcode::Equals),
            Token::Plus => Some(Opcode::Plus),
            Token::Minus => Some(Opcode::Minus),
            Token::Asterisk => Some(Opcode::Asterisk),
            Token::Slash => Some(Opcode::Slash),
            Token::Percent => Some(Opcode::Percent),
            _ => None,
        }
    }

    /// The left and right binding powers of the operator between two operands.
    pub open spec fn infix_power(self) -> Option<(usize, usize)> {
        match self {
            Opcode::Period => Some((100, 99)),
            Opcode::Exclamation => Some((93, 94)),
            Opcode::Not => Some((93, 94)),
            Opcode::Asterisk => Some((91, 92)),
            Opcode::Slash => Some((91, 92)),
            Opcode::Percent => Some((91, 92)),
            Opcode::Plus => Some((89, 90)),
            Opcode::Minus => Some((89, 90)),
            Opcode::GreaterGreater => Some((87, 88)),
            Opcode::LessLess => Some((87, 88)),
            Opcode::Greater => Some((85, 86)),
            Opcode::Less => Some((85, 86)),
            Opcode::GreaterEquals => Some((85, 86)),
            Opcode::LessEquals => Some((85, 86)),
            Opcode::EqualsEquals => Some((83, 84)),
            Opcode::ExclamationEquals => Some((83, 84)),
            Opcode::And => Some((81, 82)),
            Opcode::Caret => Some((79, 80)),
            Opcode::Or => Some((77, 78)),
            Opcode::AndAnd => Some((75, 76)),
            Opcode::OrOr => Some((73, 74)),
            Opcode::Colon => Some((71, 72)),
            Opcode::Equals => Some((69, 70)),
            _ => None,
        }
    }

    /// The binding power of the operator behind its operand.
    pub open spec fn postfix_power(self) -> Option<usize> {
        match self {
            Opcode::Subscript => Some(100),
            Opcode::Call => Some(98),
            _ => None,
        }
    }

    /// The binding power of the operator before its operand.
    pub open spec fn prefix_power(self) -> Option<usize> {
        match self {
            Opcode::Exclamation => Some(98),
            Opcode::Plus => Some(97),
            Opcode::Minus => Some(97),
            _ => None,
        }
    }

    /// The binding powers of the operator between two operands where a type is expected.
    pub open spec fn type_infix_power(self) -> Option<(usize, usize)> {
        match self {
            Opcode::Period => Some((100, 99)),
            Opcode::Plus => Some((97, 98)),
            Opcode::Colon => Some((95, 96)),
            _ => None,
        }
    }

    /// The binding power of the operator behind its operand where a type is expected. `<`
    /// opens a list of template parameters there.
    pub open spec fn type_postfix_power(self) -> Option<usize> {
        match self {
            Opcode::Subscript => Some(100),
            Opcode::Less => Some(99),
            _ => None,
        }
    }

    /// The operator that a token stands for, if any.
    pub fn from_token(tok: Token) -> (r: Option<Opcode>)
        ensures
            r == Opcode::of_token(tok),
    {
        match tok {
            Token::Colon => Some(Opcode::Colon),
            Token::Period => Some(Opcode::Period),
            Token::LBrack => Some(Opcode::Subscript),
            Token::LParen => Some(Opcode::Call),
            Token::EqualsEquals => Some(Opcode::EqualsEquals),
            Token::Exclamation => Some(Opcode::Exclamation),
            Token::ExclamationEquals => Some(Opcode::ExclamationEquals),
            Token::GreaterEquals => Some(Opcode::GreaterEquals),
            Token::LessEquals => Some(Opcode::LessEquals),
            Token::GreaterGreater => Some(Opcode::GreaterGreater),
            Token::LessLess => Some(Opcode::LessLess),
            Token::Less => Some(Opcode::Less),
            Token::Greater => Some(Opcode::Greater),
            Token::AndAnd => Some(Opcode::AndAnd),
            Token::OrOr => Some(Opcode::OrOr),
            Token::And => Some(Opcode::And),
            Token::Or => Some(Opcode::Or),
            Token::Caret => Some(Opcode::Caret),
            Token::Not => Some(Opcode::Not),
            Token::Equals => Some(Opcode::Equals),
            Token::Plus => Some(Opcode::Plus),
            Token::Minus => Some(Opcode::Minus),
            Token::Asterisk => Some(Opcode::Asterisk),
            Token::Slash => Some(Opcode::Slash),
            Token::Percent => Some(Opcode::Percent),
            _ => None,
        }
    }

    /// The left and right binding powers of this operator between two operands, if it can
    /// stand there.
    pub fn infix_precedence(&self) -> (r: Option<(usize, usize)>)
        ensures
            r == self.infix_power(),
    {
        Some(
            match self {
                Opcode::Period => (100, 99),
                Opcode::Exclamation => (93, 94),
                Opcode::Not => (93, 94),
                Opcode::Asterisk => (91, 92),
                Opcode::Slash => (91, 92),
                Opcode::Percent => (91, 92),
                Opcode::Plus => (89, 90),
                Opcode::Minus => (89, 90),
                Opcode::GreaterGreater => (87, 88),
                Opcode::LessLess => (87, 88),
                Opcode::Greater => (85, 86),
                Opcode::Less => (85, 86),
                Opcode::GreaterEquals => (85, 86),
                Opcode::LessEquals => (85, 86),
                Opcode::EqualsEquals => (83, 84),
                Opcode::ExclamationEquals => (83, 84),
                Opcode::And => (81, 82),
                Opcode::Caret => (79, 80),
                Opcode::Or => (77, 78),
                Opcode::AndAnd => (75, 76),
                Opcode::OrOr => (73, 74),
                Opcode::Colon => (71, 72),
                Opcode::Equals => (69, 70),
                _ => {
                    return None;
                },
            },
        )
    }

    /// The binding power of this operator behind its operand, if it can stand there.
    pub fn postfix_precedence(&self) -> (r: Option<usize>)
        ensures
            r == self.postfix_power(),
    {
        match self {
            Opcode::Subscript => Some(100),
            Opcode::Call => Some(98),
            _ => None,
        }
    }

    /// The binding power of this operator before its operand, if it can stand there.
    pub fn prefix_precedence(&self) -> (r: Option<usize>)
        ensures
            r == self.prefix_power(),
    {
        match self {
            Opcode::Exclamation => Some(98),
            Opcode::Plus => Some(97),
            Opcode::Minus => Some(97),
            _ => None,
        }
    }

    /// The binding powers of this operator between two operands where a type is expected.
    pub fn type_infix_precedence(&self) -> (r: Option<(usize, usize)>)
        ensures
            r == self.type_infix_power(),
    {
        match self {
            Opcode::Period => Some((100, 99)),
            Opcode::Plus => Some((97, 98)),
            Opcode::Colon => Some((95, 96)),
            _ => None,
        }
    }

    /// The binding power of this operator behind its operand where a type is expected.
    pub fn type_postfix_precedence(&self) -> (r: Option<usize>)
        ensures
            r == self.type_postfix_power(),
    {
        match self {
            Opcode::Subscript => Some(100),
            Opcode::Less => Some(99),
            _ => None,
        }
    }
}

/// Every operator between two operands groups to the left, its left power being the
/// smaller, but for member access, which groups to the right.
pub proof fn infix_operators_group_left(op: Opcode)
    requires
        op.infix_power().is_some(),
    ensures
        (op == Opcode::Period) ==> op.infix_power().unwrap().0 > op.infix_power().unwrap().1,
        (op != Opcode::Period) ==> op.infix_power().unwrap().0 + 1 == op.infix_power().unwrap().1,
{
}

/// Multiplying binds tighter than adding, adding tighter than comparing, comparing tighter
/// than assigning, and a member access tighter than any operator before an operand.
pub proof fn precedence_is_layered(prefix: Opcode)
    requires
        prefix.prefix_power().is_some(),
    ensures
        Opcode::Asterisk.infix_power().unwrap().0 > Opcode::Plus.infix_power().unwrap().1,
        Opcode::Plus.infix_power().unwrap().0 > Opcode::EqualsEquals.infix_power().unwrap().1,
        Opcode::EqualsEquals.infix_power().unwrap().0 > Opcode::Equals.infix_power().unwrap().1,
        Opcode::Period.infix_power().unwrap().0 >= prefix.prefix_power().unwrap(),
{
}

} // verus!
