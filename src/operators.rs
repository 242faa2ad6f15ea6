//! Operators and kinds that nodes carry as scalar fields, each with its
//! source text, and parsing from that text.
use vstd::prelude::*;

verus! {

/// The text names no member of the enumeration.
#[derive(Debug, Clone, Copy, PartialEq, Eq, Structural)]
pub struct TryFromStringError;

impl TryFromStringError {
    /// A description of the error.
    pub fn message(&self) -> (r: &'static str)
        ensures
            r@ == "Invalid string property for AST node"@,
    {
        "Invalid string property for AST node"
    }
}

/// Whether two strings hold the same characters.
pub fn same_text(a: &str, b: &str) -> (r: bool)
    ensures
        r == (a@ == b@),
{
    a.to_owned() == b.to_owned()
}

/// The `UnaryExpressionOperator` values and their source text.
#[derive(Debug, Clone, Copy, PartialEq, Eq, Hash, Structural)]
pub enum UnaryExpressionOperator {
    Delete,
    Void,
    Typeof,
    Plus,
    Minus,
    BitNot,
    Not,
}

impl UnaryExpressionOperator {
    /// The source text of the value.
    pub open spec fn text(self) -> Seq<char> {
        match self {
            UnaryExpressionOperator::Delete => "delete"@,
            UnaryExpressionOperator::Void => "void"@,
            UnaryExpressionOperator::Typeof => "typeof"@,
            UnaryExpressionOperator::Plus => "+"@,
            UnaryExpressionOperator::Minus => "-"@,
            UnaryExpressionOperator::BitNot => "~"@,
            UnaryExpressionOperator::Not => "!"@,
        }
    }

    /// The source text of the value.
    pub fn as_str(&self) -> (r: &'static str)
        ensures
            r@ == self.text(),
    {
        match self {
            UnaryExpressionOperator::Delete => "delete",
            UnaryExpressionOperator::Void => "void",
            UnaryExpressionOperator::Typeof => "typeof",
            UnaryExpressionOperator::Plus => "+",
            UnaryExpressionOperator::Minus => "-",
            UnaryExpressionOperator::BitNot => "~",
            UnaryExpressionOperator::Not => "!",
        }
    }

    /// The value whose source text is `s`, or an error when none has it.
    pub fn parse(s: &str) -> (r: Result<Self, TryFromStringError>)
        ensures
            r matches Ok(v) ==> v.text() == s@,
            r is Err <==> forall|v: UnaryExpressionOperator| #[trigger] v.text() != s@,
    {
        if same_text(s, "delete") {
            assert(UnaryExpressionOperator::Delete.text() == s@);
            return Ok(UnaryExpressionOperator::Delete);
        }
        if same_text(s, "void") {
            assert(UnaryExpressionOperator::Void.text() == s@);
            return Ok(UnaryExpressionOperator::Void);
        }
        if same_text(s, "typeof") {
            assert(UnaryExpressionOperator::Typeof.text() == s@);
            return Ok(UnaryExpressionOperator::Typeof);
        }
        if same_text(s, "+") {
            assert(UnaryExpressionOperator::Plus.text() == s@);
            return Ok(UnaryExpressionOperator::Plus);
        }
        if same_text(s, "-") {
            assert(UnaryExpressionOperator::Minus.text() == s@);
            return Ok(UnaryExpressionOperator::Minus);
        }
        if same_text(s, "~") {
            assert(UnaryExpressionOperator::BitNot.text() == s@);
            return Ok(UnaryExpressionOperator::BitNot);
        }
        if same_text(s, "!") {
            assert(UnaryExpressionOperator::Not.text() == s@);
            return Ok(UnaryExpressionOperator::Not);
        }
        assert forall|v: UnaryExpressionOperator| #[trigger] v.text() != s@ by {
            match v {
                UnaryExpressionOperator::Delete => {},
                UnaryExpressionOperator::Void => {},
                UnaryExpressionOperator::Typeof => {},
                UnaryExpressionOperator::Plus => {},
                UnaryExpressionOperator::Minus => {},
                UnaryExpressionOperator::BitNot => {},
                UnaryExpressionOperator::Not => {},
            }
        };
        Err(TryFromStringError)
    }
}

/// The `BinaryExpressionOperator` values and their source text.
#[derive(Debug, Clone, Copy, PartialEq, Eq, Hash, Structural)]
pub enum BinaryExpressionOperator {
    LooseEquals,
    LooseNotEquals,
    StrictEquals,
    StrictNotEquals,
    Less,
    LessEquals,
    Greater,
    GreaterEquals,
    LShift,
    RShift,
    RShift3,
    Plus,
    Minus,
    Mult,
    Div,
    Mod,
    BitOr,
    BitXor,
    BitAnd,
    Exp,
    In,
    Instanceof,
}

impl BinaryExpressionOperator {
    /// The source text of the value.
    pub open spec fn text(self) -> Seq<char> {
        match self {
            BinaryExpressionOperator::LooseEquals => "=="@,
            BinaryExpressionOperator::LooseNotEquals => "!="@,
            BinaryExpressionOperator::StrictEquals => "==="@,
            BinaryExpressionOperator::StrictNotEquals => "!=="@,
            BinaryExpressionOperator::Less => "<"@,
            BinaryExpressionOperator::LessEquals => "<="@,
            BinaryExpressionOperator::Greater => ">"@,
            BinaryExpressionOperator::GreaterEquals => ">="@,
            BinaryExpressionOperator::LShift => "<<"@,
            BinaryExpressionOperator::RShift => ">>"@,
            BinaryExpressionOperator::RShift3 => ">>>"@,
            BinaryExpressionOperator::Plus => "+"@,
            BinaryExpressionOperator::Minus => "-"@,
            BinaryExpressionOperator::Mult => "*"@,
            BinaryExpressionOperator::Div => "/"@,
            BinaryExpressionOperator::Mod => "%"@,
            BinaryExpressionOperator::BitOr => "|"@,
            BinaryExpressionOperator::BitXor => "^"@,
            BinaryExpressionOperator::BitAnd => "&"@,
            BinaryExpressionOperator::Exp => "**"@,
            BinaryExpressionOperator::In => "in"@,
            BinaryExpressionOperator::Instanceof => "instanceof"@,
        }
    }

    /// The source text of the value.
    pub fn as_str(&self) -> (r: &'static str)
        ensures
            r@ == self.text(),
    {
        match self {
            BinaryExpressionOperator::LooseEquals => "==",
            BinaryExpressionOperator::LooseNotEquals => "!=",
            BinaryExpressionOperator::StrictEquals => "===",
            BinaryExpressionOperator::StrictNotEquals => "!==",
            BinaryExpressionOperator::Less => "<",
            BinaryExpressionOperator::LessEquals => "<=",
            BinaryExpressionOperator::Greater => ">",
            BinaryExpressionOperator::GreaterEquals => ">=",
            BinaryExpressionOperator::LShift => "<<",
            BinaryExpressionOperator::RShift => ">>",
            BinaryExpressionOperator::RShift3 => ">>>",
            BinaryExpressionOperator::Plus => "+",
            BinaryExpressionOperator::Minus => "-",
            BinaryExpressionOperator::Mult => "*",
            BinaryExpressionOperator::Div => "/",
            BinaryExpressionOperator::Mod => "%",
            BinaryExpressionOperator::BitOr => "|",
            BinaryExpressionOperator::BitXor => "^",
            BinaryExpressionOperator::BitAnd => "&",
            BinaryExpressionOperator::Exp => "**",
            BinaryExpressionOperator::In => "in",
            BinaryExpressionOperator::Instanceof => "instanceof",
        }
    }

    /// The value whose source text is `s`, or an error when none has it.
    pub fn parse(s: &str) -> (r: Result<Self, TryFromStringError>)
        ensures
            r matches Ok(v) ==> v.text() == s@,
            r is Err <==> forall|v: BinaryExpressionOperator| #[trigger] v.text() != s@,
    {
        if same_text(s, "==") {
            assert(BinaryExpressionOperator::LooseEquals.text() == s@);
            return Ok(BinaryExpressionOperator::LooseEquals);
        }
        if same_text(s, "!=") {
            assert(BinaryExpressionOperator::LooseNotEquals.text() == s@);
            return Ok(BinaryExpressionOperator::LooseNotEquals);
        }
        if same_text(s, "===") {
            assert(BinaryExpressionOperator::StrictEquals.text() == s@);
            return Ok(BinaryExpressionOperator::StrictEquals);
        }
        if same_text(s, "!==") {
            assert(BinaryExpressionOperator::StrictNotEquals.text() == s@);
            return Ok(BinaryExpressionOperator::StrictNotEquals);
        }
        if same_text(s, "<") {
            assert(BinaryExpressionOperator::Less.text() == s@);
            return Ok(BinaryExpressionOperator::Less);
        }
        if same_text(s, "<=") {
            assert(BinaryExpressionOperator::LessEquals.text() == s@);
            return Ok(BinaryExpressionOperator::LessEquals);
        }
        if same_text(s, ">") {
            assert(BinaryExpressionOperator::Greater.text() == s@);
            return Ok(BinaryExpressionOperator::Greater);
        }
        if same_text(s, ">=") {
            assert(BinaryExpressionOperator::GreaterEquals.text() == s@);
            return Ok(BinaryExpressionOperator::GreaterEquals);
        }
        if same_text(s, "<<") {
            assert(BinaryExpressionOperator::LShift.text() == s@);
            return Ok(BinaryExpressionOperator::LShift);
        }
        if same_text(s, ">>") {
            assert(BinaryExpressionOperator::RShift.text() == s@);
            return Ok(BinaryExpressionOperator::RShift);
        }
        if same_text(s, ">>>") {
            assert(BinaryExpressionOperator::RShift3.text() == s@);
            return Ok(BinaryExpressionOperator::RShift3);
        }
        if same_text(s, "+") {
            assert(BinaryExpressionOperator::Plus.text() == s@);
            return Ok(BinaryExpressionOperator::Plus);
        }
        if same_text(s, "-") {
            assert(BinaryExpressionOperator::Minus.text() == s@);
            return Ok(BinaryExpressionOperator::Minus);
        }
        if same_text(s, "*") {
            assert(BinaryExpressionOperator::Mult.text() == s@);
            return Ok(BinaryExpressionOperator::Mult);
        }
        if same_text(s, "/") {
            assert(BinaryExpressionOperator::Div.text() == s@);
            return Ok(BinaryExpressionOperator::Div);
        }
        if same_text(s, "%") {
            assert(BinaryExpressionOperator::Mod.text() == s@);
            return Ok(BinaryExpressionOperator::Mod);
        }
        if same_text(s, "|") {
            assert(BinaryExpressionOperator::BitOr.text() == s@);
            return Ok(BinaryExpressionOperator::BitOr);
        }
        if same_text(s, "^") {
            assert(BinaryExpressionOperator::BitXor.text() == s@);
            return Ok(BinaryExpressionOperator::BitXor);
        }
        if same_text(s, "&") {
            assert(BinaryExpressionOperator::BitAnd.text() == s@);
            return Ok(BinaryExpressionOperator::BitAnd);
        }
        if same_text(s, "**") {
            assert(BinaryExpressionOperator::Exp.text() == s@);
            return Ok(BinaryExpressionOperator::Exp);
        }
        if same_text(s, "in") {
            assert(BinaryExpressionOperator::In.text() == s@);
            return Ok(BinaryExpressionOperator::In);
        }
        if same_text(s, "instanceof") {
            assert(BinaryExpressionOperator::Instanceof.text() == s@);
            return Ok(BinaryExpressionOperator::Instanceof);
        }
        assert forall|v: BinaryExpressionOperator| #[trigger] v.text() != s@ by {
            match v {
                BinaryExpressionOperator::LooseEquals => {},
                BinaryExpressionOperator::LooseNotEquals => {},
                BinaryExpressionOperator::StrictEquals => {},
                BinaryExpressionOperator::StrictNotEquals => {},
                BinaryExpressionOperator::Less => {},
                BinaryExpressionOperator::LessEquals => {},
                BinaryExpressionOperator::Greater => {},
                BinaryExpressionOperator::GreaterEquals => {},
                BinaryExpressionOperator::LShift => {},
                BinaryExpressionOperator::RShift => {},
                BinaryExpressionOperator::RShift3 => {},
                BinaryExpressionOperator::Plus => {},
                BinaryExpressionOperator::Minus => {},
                BinaryExpressionOperator::Mult => {},
                BinaryExpressionOperator::Div => {},
                BinaryExpressionOperator::Mod => {},
                BinaryExpressionOperator::BitOr => {},
                BinaryExpressionOperator::BitXor => {},
                BinaryExpressionOperator::BitAnd => {},
                BinaryExpressionOperator::Exp => {},
                BinaryExpressionOperator::In => {},
                BinaryExpressionOperator::Instanceof => {},
            }
        };
        Err(TryFromStringError)
    }
}

/// The `LogicalExpressionOperator` values and their source text.
#[derive(Debug, Clone, Copy, PartialEq, Eq, Hash, Structural)]
pub enum LogicalExpressionOperator {
    And,
    Or,
    NullishCoalesce,
}

impl LogicalExpressionOperator {
    /// The source text of the value.
    pub open spec fn text(self) -> Seq<char> {
        match self {
            LogicalExpressionOperator::And => "&&"@,
            LogicalExpressionOperator::Or => "||"@,
            LogicalExpressionOperator::NullishCoalesce => "??"@,
        }
    }

    /// The source text of the value.
    pub fn as_str(&self) -> (r: &'static str)
        ensures
            r@ == self.text(),
    {
        match self {
            LogicalExpressionOperator::And => "&&",
            LogicalExpressionOperator::Or => "||",
            LogicalExpressionOperator::NullishCoalesce => "??",
        }
    }

    /// The value whose source text is `s`, or an error when none has it.
    pub fn parse(s: &str) -> (r: Result<Self, TryFromStringError>)
        ensures
            r matches Ok(v) ==> v.text() == s@,
            r is Err <==> forall|v: LogicalExpressionOperator| #[trigger] v.text() != s@,
    {
        if same_text(s, "&&") {
            assert(LogicalExpressionOperator::And.text() == s@);
            return Ok(LogicalExpressionOperator::And);
        }
        if same_text(s, "||") {
            assert(LogicalExpressionOperator::Or.text() == s@);
            return Ok(LogicalExpressionOperator::Or);
        }
        if same_text(s, "??") {
            assert(LogicalExpressionOperator::NullishCoalesce.text() == s@);
            return Ok(LogicalExpressionOperator::NullishCoalesce);
        }
        assert forall|v: LogicalExpressionOperator| #[trigger] v.text() != s@ by {
            match v {
                LogicalExpressionOperator::And => {},
                LogicalExpressionOperator::Or => {},
                LogicalExpressionOperator::NullishCoalesce => {},
            }
        };
        Err(TryFromStringError)
    }
}

/// The `UpdateExpressionOperator` values and their source text.
#[derive(Debug, Clone, Copy, PartialEq, Eq, Hash, Structural)]
pub enum UpdateExpressionOperator {
    Increment,
    Decrement,
}

impl UpdateExpressionOperator {
    /// The source text of the value.
    pub open spec fn text(self) -> Seq<char> {
        match self {
            UpdateExpressionOperator::Increment => "++"@,
            UpdateExpressionOperator::Decrement => "--"@,
        }
    }

    /// The source text of the value.
    pub fn as_str(&self) -> (r: &'static str)
        ensures
            r@ == self.text(),
    {
        match self {
            UpdateExpressionOperator::Increment => "++",
            UpdateExpressionOperator::Decrement => "--",
        }
    }

    /// The value whose source text is `s`, or an error when none has it.
    pub fn parse(s: &str) -> (r: Result<Self, TryFromStringError>)
        ensures
            r matches Ok(v) ==> v.text() == s@,
            r is Err <==> forall|v: UpdateExpressionOperator| #[trigger] v.text() != s@,
    {
        if same_text(s, "++") {
            assert(UpdateExpressionOperator::Increment.text() == s@);
            return Ok(UpdateExpressionOperator::Increment);
        }
        if same_text(s, "--") {
            assert(UpdateExpressionOperator::Decrement.text() == s@);
            return Ok(UpdateExpressionOperator::Decrement);
        }
        assert forall|v: UpdateExpressionOperator| #[trigger] v.text() != s@ by {
            match v {
                UpdateExpressionOperator::Increment => {},
                UpdateExpressionOperator::Decrement => {},
            }
        };
        Err(TryFromStringError)
    }
}

/// The `AssignmentExpressionOperator` values and their source text.
#[derive(Debug, Clone, Copy, PartialEq, Eq, Hash, Structural)]
pub enum AssignmentExpressionOperator {
    Assign,
    LShiftAssign,
    RShiftAssign,
    RShift3Assign,
    PlusAssign,
    MinusAssign,
    MultAssign,
    DivAssign,
    ModAssign,
    BitOrAssign,
    BitXorAssign,
    BitAndAssign,
    ExpAssign,
    LogicalOrAssign,
    LogicalAndAssign,
    NullishCoalesceAssign,
}

impl AssignmentExpressionOperator {
    /// The source text of the value.
    pub open spec fn text(self) -> Seq<char> {
        match self {
            AssignmentExpressionOperator::Assign => "="@,
            AssignmentExpressionOperator::LShiftAssign => "<<="@,
            AssignmentExpressionOperator::RShiftAssign => ">>="@,
            AssignmentExpressionOperator::RShift3Assign => ">>>="@,
            AssignmentExpressionOperator::PlusAssign => "+="@,
            AssignmentExpressionOperator::MinusAssign => "-="@,
            AssignmentExpressionOperator::MultAssign => "*="@,
            AssignmentExpressionOperator::DivAssign => "/="@,
            AssignmentExpressionOperator::ModAssign => "%="@,
            AssignmentExpressionOperator::BitOrAssign => "|="@,
            AssignmentExpressionOperator::BitXorAssign => "^="@,
            AssignmentExpressionOperator::BitAndAssign => "&="@,
            AssignmentExpressionOperator::ExpAssign => "**="@,
            AssignmentExpressionOperator::LogicalOrAssign => "||="@,
            AssignmentExpressionOperator::LogicalAndAssign => "&&="@,
            AssignmentExpressionOperator::NullishCoalesceAssign => "??="@,
        }
    }

    /// The source text of the value.
    pub fn as_str(&self) -> (r: &'static str)
        ensures
            r@ == self.text(),
    {
        match self {
            AssignmentExpressionOperator::Assign => "=",
            AssignmentExpressionOperator::LShiftAssign => "<<=",
            AssignmentExpressionOperator::RShiftAssign => ">>=",
            AssignmentExpressionOperator::RShift3Assign => ">>>=",
            AssignmentExpressionOperator::PlusAssign => "+=",
            AssignmentExpressionOperator::MinusAssign => "-=",
            AssignmentExpressionOperator::MultAssign => "*=",
            AssignmentExpressionOperator::DivAssign => "/=",
            AssignmentExpressionOperator::ModAssign => "%=",
            AssignmentExpressionOperator::BitOrAssign => "|=",
            AssignmentExpressionOperator::BitXorAssign => "^=",
            AssignmentExpressionOperator::BitAndAssign => "&=",
            AssignmentExpressionOperator::ExpAssign => "**=",
            AssignmentExpressionOperator::LogicalOrAssign => "||=",
            AssignmentExpressionOperator::LogicalAndAssign => "&&=",
            AssignmentExpressionOperator::NullishCoalesceAssign => "??=",
        }
    }

    /// The value whose source text is `s`, or an error when none has it.
    pub fn parse(s: &str) -> (r: Result<Self, TryFromStringError>)
        ensures
            r matches Ok(v) ==> v.text() == s@,
            r is Err <==> forall|v: AssignmentExpressionOperator| #[trigger] v.text() != s@,
    {
        if same_text(s, "=") {
            assert(AssignmentExpressionOperator::Assign.text() == s@);
            return Ok(AssignmentExpressionOperator::Assign);
        }
        if same_text(s, "<<=") {
            assert(AssignmentExpressionOperator::LShiftAssign.text() == s@);
            return Ok(AssignmentExpressionOperator::LShiftAssign);
        }
        if same_text(s, ">>=") {
            assert(AssignmentExpressionOperator::RShiftAssign.text() == s@);
            return Ok(AssignmentExpressionOperator::RShiftAssign);
        }
        if same_text(s, ">>>=") {
            assert(AssignmentExpressionOperator::RShift3Assign.text() == s@);
            return Ok(AssignmentExpressionOperator::RShift3Assign);
        }
        if same_text(s, "+=") {
            assert(AssignmentExpressionOperator::PlusAssign.text() == s@);
            return Ok(AssignmentExpressionOperator::PlusAssign);
        }
        if same_text(s, "-=") {
            assert(AssignmentExpressionOperator::MinusAssign.text() == s@);
            return Ok(AssignmentExpressionOperator::MinusAssign);
        }
        if same_text(s, "*=") {
            assert(AssignmentExpressionOperator::MultAssign.text() == s@);
            return Ok(AssignmentExpressionOperator::MultAssign);
        }
        if same_text(s, "/=") {
            assert(AssignmentExpressionOperator::DivAssign.text() == s@);
            return Ok(AssignmentExpressionOperator::DivAssign);
        }
        if same_text(s, "%=") {
            assert(AssignmentExpressionOperator::ModAssign.text() == s@);
            return Ok(AssignmentExpressionOperator::ModAssign);
        }
        if same_text(s, "|=") {
            assert(AssignmentExpressionOperator::BitOrAssign.text() == s@);
            return Ok(AssignmentExpressionOperator::BitOrAssign);
        }
        if same_text(s, "^=") {
            assert(AssignmentExpressionOperator::BitXorAssign.text() == s@);
            return Ok(AssignmentExpressionOperator::BitXorAssign);
        }
        if same_text(s, "&=") {
            assert(AssignmentExpressionOperator::BitAndAssign.text() == s@);
            return Ok(AssignmentExpressionOperator::BitAndAssign);
        }
        if same_text(s, "**=") {
            assert(AssignmentExpressionOperator::ExpAssign.text() == s@);
            return Ok(AssignmentExpressionOperator::ExpAssign);
        }
        if same_text(s, "||=") {
            assert(AssignmentExpressionOperator::LogicalOrAssign.text() == s@);
            return Ok(AssignmentExpressionOperator::LogicalOrAssign);
        }
        if same_text(s, "&&=") {
            assert(AssignmentExpressionOperator::LogicalAndAssign.text() == s@);
            return Ok(AssignmentExpressionOperator::LogicalAndAssign);
        }
        if same_text(s, "??=") {
            assert(AssignmentExpressionOperator::NullishCoalesceAssign.text() == s@);
            return Ok(AssignmentExpressionOperator::NullishCoalesceAssign);
        }
        assert forall|v: AssignmentExpressionOperator| #[trigger] v.text() != s@ by {
            match v {
                AssignmentExpressionOperator::Assign => {},
                AssignmentExpressionOperator::LShiftAssign => {},
                AssignmentExpressionOperator::RShiftAssign => {},
                AssignmentExpressionOperator::RShift3Assign => {},
                AssignmentExpressionOperator::PlusAssign => {},
                AssignmentExpressionOperator::MinusAssign => {},
                AssignmentExpressionOperator::MultAssign => {},
                AssignmentExpressionOperator::DivAssign => {},
                AssignmentExpressionOperator::ModAssign => {},
                AssignmentExpressionOperator::BitOrAssign => {},
                AssignmentExpressionOperator::BitXorAssign => {},
                AssignmentExpressionOperator::BitAndAssign => {},
                AssignmentExpressionOperator::ExpAssign => {},
                AssignmentExpressionOperator::LogicalOrAssign => {},
                AssignmentExpressionOperator::LogicalAndAssign => {},
                AssignmentExpressionOperator::NullishCoalesceAssign => {},
            }
        };
        Err(TryFromStringError)
    }
}

/// The `VariableDeclarationKind` values and their source text.
#[derive(Debug, Clone, Copy, PartialEq, Eq, Hash, Structural)]
pub enum VariableDeclarationKind {
    Var,
    Let,
    Const,
}

impl VariableDeclarationKind {
    /// The source text of the value.
    pub open spec fn text(self) -> Seq<char> {
        match self {
            VariableDeclarationKind::Var => "var"@,
            VariableDeclarationKind::Let => "let"@,
            VariableDeclarationKind::Const => "const"@,
        }
    }

    /// The source text of the value.
    pub fn as_str(&self) -> (r: &'static str)
        ensures
            r@ == self.text(),
    {
        match self {
            VariableDeclarationKind::Var => "var",
            VariableDeclarationKind::Let => "let",
            VariableDeclarationKind::Const => "const",
        }
    }

    /// The value whose source text is `s`, or an error when none has it.
    pub fn parse(s: &str) -> (r: Result<Self, TryFromStringError>)
        ensures
            r matches Ok(v) ==> v.text() == s@,
            r is Err <==> forall|v: VariableDeclarationKind| #[trigger] v.text() != s@,
    {
        if same_text(s, "var") {
            assert(VariableDeclarationKind::Var.text() == s@);
            return Ok(VariableDeclarationKind::Var);
        }
        if same_text(s, "let") {
            assert(VariableDeclarationKind::Let.text() == s@);
            return Ok(VariableDeclarationKind::Let);
        }
        if same_text(s, "const") {
            assert(VariableDeclarationKind::Const.text() == s@);
            return Ok(VariableDeclarationKind::Const);
        }
        assert forall|v: VariableDeclarationKind| #[trigger] v.text() != s@ by {
            match v {
                VariableDeclarationKind::Var => {},
                VariableDeclarationKind::Let => {},
                VariableDeclarationKind::Const => {},
            }
        };
        Err(TryFromStringError)
    }
}

/// The `PropertyKind` values and their source text.
#[derive(Debug, Clone, Copy, PartialEq, Eq, Hash, Structural)]
pub enum PropertyKind {
    Init,
    Get,
    Setter,
}

impl PropertyKind {
    /// The source text of the value.
    pub open spec fn text(self) -> Seq<char> {
        match self {
            PropertyKind::Init => "init"@,
            PropertyKind::Get => "get"@,
            PropertyKind::Setter => "set"@,
        }
    }

    /// The source text of the value.
    pub fn as_str(&self) -> (r: &'static str)
        ensures
            r@ == self.text(),
    {
        match self {
            PropertyKind::Init => "init",
            PropertyKind::Get => "get",
            PropertyKind::Setter => "set",
        }
    }

    /// The value whose source text is `s`, or an error when none has it.
    pub fn parse(s: &str) -> (r: Result<Self, TryFromStringError>)
        ensures
            r matches Ok(v) ==> v.text() == s@,
            r is Err <==> forall|v: PropertyKind| #[trigger] v.text() != s@,
    {
        if same_text(s, "init") {
            assert(PropertyKind::Init.text() == s@);
            return Ok(PropertyKind::Init);
        }
        if same_text(s, "get") {
            assert(PropertyKind::Get.text() == s@);
            return Ok(PropertyKind::Get);
        }
        if same_text(s, "set") {
            assert(PropertyKind::Setter.text() == s@);
            return Ok(PropertyKind::Setter);
        }
        assert forall|v: PropertyKind| #[trigger] v.text() != s@ by {
            match v {
                PropertyKind::Init => {},
                PropertyKind::Get => {},
                PropertyKind::Setter => {},
            }
        };
        Err(TryFromStringError)
    }
}

/// The `MethodDefinitionKind` values and their source text.
#[derive(Debug, Clone, Copy, PartialEq, Eq, Hash, Structural)]
pub enum MethodDefinitionKind {
    Method,
    Constructor,
    Get,
    Setter,
}

impl MethodDefinitionKind {
    /// The source text of the value.
    pub open spec fn text(self) -> Seq<char> {
        match self {
            MethodDefinitionKind::Method => "method"@,
            MethodDefinitionKind::Constructor => "constructor"@,
            MethodDefinitionKind::Get => "get"@,
            MethodDefinitionKind::Setter => "set"@,
        }
    }

    /// The source text of the value.
    pub fn as_str(&self) -> (r: &'static str)
        ensures
            r@ == self.text(),
    {
        match self {
            MethodDefinitionKind::Method => "method",
            MethodDefinitionKind::Constructor => "constructor",
            MethodDefinitionKind::Get => "get",
            MethodDefinitionKind::Setter => "set",
        }
    }

    /// The value whose source text is `s`, or an error when none has it.
    pub fn parse(s: &str) -> (r: Result<Self, TryFromStringError>)
        ensures
            r matches Ok(v) ==> v.text() == s@,
            r is Err <==> forall|v: MethodDefinitionKind| #[trigger] v.text() != s@,
    {
        if same_text(s, "method") {
            assert(MethodDefinitionKind::Method.text() == s@);
            return Ok(MethodDefinitionKind::Method);
        }
        if same_text(s, "constructor") {
            assert(MethodDefinitionKind::Constructor.text() == s@);
            return Ok(MethodDefinitionKind::Constructor);
        }
        if same_text(s, "get") {
            assert(MethodDefinitionKind::Get.text() == s@);
            return Ok(MethodDefinitionKind::Get);
        }
        if same_text(s, "set") {
            assert(MethodDefinitionKind::Setter.text() == s@);
            return Ok(MethodDefinitionKind::Setter);
        }
        assert forall|v: MethodDefinitionKind| #[trigger] v.text() != s@ by {
            match v {
                MethodDefinitionKind::Method => {},
                MethodDefinitionKind::Constructor => {},
                MethodDefinitionKind::Get => {},
                MethodDefinitionKind::Setter => {},
            }
        };
        Err(TryFromStringError)
    }
}

/// The `ImportKind` values and their source text.
#[derive(Debug, Clone, Copy, PartialEq, Eq, Hash, Structural)]
pub enum ImportKind {
    Value,
    Type,
    Typeof,
}

impl ImportKind {
    /// The source text of the value.
    pub open spec fn text(self) -> Seq<char> {
        match self {
            ImportKind::Value => "value"@,
            ImportKind::Type => "type"@,
            ImportKind::Typeof => "typeof"@,
        }
    }

    /// The source text of the value.
    pub fn as_str(&self) -> (r: &'static str)
        ensures
            r@ == self.text(),
    {
        match self {
            ImportKind::Value => "value",
            ImportKind::Type => "type",
            ImportKind::Typeof => "typeof",
        }
    }

    /// The value whose source text is `s`, or an error when none has it.
    pub fn parse(s: &str) -> (r: Result<Self, TryFromStringError>)
        ensures
            r matches Ok(v) ==> v.text() == s@,
            r is Err <==> forall|v: ImportKind| #[trigger] v.text() != s@,
    {
        if same_text(s, "value") {
            assert(ImportKind::Value.text() == s@);
            return Ok(ImportKind::Value);
        }
        if same_text(s, "type") {
            assert(ImportKind::Type.text() == s@);
            return Ok(ImportKind::Type);
        }
        if same_text(s, "typeof") {
            assert(ImportKind::Typeof.text() == s@);
            return Ok(ImportKind::Typeof);
        }
        assert forall|v: ImportKind| #[trigger] v.text() != s@ by {
            match v {
                ImportKind::Value => {},
                ImportKind::Type => {},
                ImportKind::Typeof => {},
            }
        };
        Err(TryFromStringError)
    }
}

/// The `ExportKind` values and their source text.
#[derive(Debug, Clone, Copy, PartialEq, Eq, Hash, Structural)]
pub enum ExportKind {
    Value,
    Type,
}

impl ExportKind {
    /// The source text of the value.
    pub open spec fn text(self) -> Seq<char> {
        match self {
            ExportKind::Value => "value"@,
            ExportKind::Type => "type"@,
        }
    }

    /// The source text of the value.
    pub fn as_str(&self) -> (r: &'static str)
        ensures
            r@ == self.text(),
    {
        match self {
            ExportKind::Value => "value",
            ExportKind::Type => "type",
        }
    }

    /// The value whose source text is `s`, or an error when none has it.
    pub fn parse(s: &str) -> (r: Result<Self, TryFromStringError>)
        ensures
            r matches Ok(v) ==> v.text() == s@,
            r is Err <==> forall|v: ExportKind| #[trigger] v.text() != s@,
    {
        if same_text(s, "value") {
            assert(ExportKind::Value.text() == s@);
            return Ok(ExportKind::Value);
        }
        if same_text(s, "type") {
            assert(ExportKind::Type.text() == s@);
            return Ok(ExportKind::Type);
        }
        assert forall|v: ExportKind| #[trigger] v.text() != s@ by {
            match v {
                ExportKind::Value => {},
                ExportKind::Type => {},
            }
        };
        Err(TryFromStringError)
    }
}

} // verus!
