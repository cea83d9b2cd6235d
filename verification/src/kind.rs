//! The closed enumeration of node kinds and what a kind says about a node's
//! child slots.

use vstd::prelude::*;

verus! {

/// The kind tag of a node.
///
/// The variants fall into four groups, which differ in how many child slots a
/// node has: value nodes, declarations, lists, and plain nodes whose kind
/// fixes the number of slots.
#[derive(Clone, Copy, Debug, PartialEq, Eq, Structural)]
pub enum Kind {
    // value nodes
    Zval,
    Znode,
    // declarations
    FuncDecl,
    Closure,
    Method,
    Class,
    // lists
    ArgList,
    Array,
    EncapsList,
    ExprList,
    StmtList,
    If,
    SwitchList,
    CatchList,
    ParamList,
    ClosureUses,
    PropDecl,
    ConstDecl,
    ClassConstDecl,
    NameList,
    TraitAdaptations,
    Use,
    // no child slot
    MagicConst,
    Type,
    // one child slot
    Var,
    Const,
    Unpack,
    UnaryPlus,
    UnaryMinus,
    Cast,
    Empty,
    Isset,
    Silence,
    ShellExec,
    Clone,
    Exit,
    Print,
    IncludeOrEval,
    UnaryOp,
    PreInc,
    PreDec,
    PostInc,
    PostDec,
    YieldFrom,
    Global,
    Unset,
    Return,
    Label,
    Ref,
    HaltCompiler,
    Echo,
    Throw,
    Goto,
    Break,
    Continue,
    // two child slots
    Dim,
    Prop,
    StaticProp,
    Call,
    ClassConst,
    Assign,
    AssignRef,
    AssignOp,
    BinaryOp,
    Greater,
    GreaterEqual,
    And,
    Or,
    ArrayElem,
    New,
    Instanceof,
    Yield,
    Coalesce,
    Static,
    While,
    DoWhile,
    IfElem,
    Switch,
    SwitchCase,
    Declare,
    UseTrait,
    TraitPrecedence,
    MethodReference,
    Namespace,
    UseElem,
    TraitAlias,
    GroupUse,
    // three child slots
    MethodCall,
    StaticCall,
    Conditional,
    Try,
    Catch,
    Param,
    PropElem,
    ConstElem,
    // four child slots
    For,
    Foreach,
}

/// How the number of child slots of a node follows from its kind.
#[derive(Clone, Copy, Debug, PartialEq, Eq, Structural)]
pub enum Shape {
    /// A declaration: three slots for a class, four for the others.
    Declaration,
    /// A list: the node itself says how many slots it has.
    List,
    /// Any other node: the kind fixes the number of slots.
    Plain,
}

impl Kind {
    /// Whether nodes of this kind are declarations.
    pub open spec fn spec_is_decl(self) -> bool {
        self == Kind::FuncDecl || self == Kind::Closure || self == Kind::Method || self
            == Kind::Class
    }

    /// Whether nodes of this kind are lists.
    pub open spec fn spec_is_list(self) -> bool {
        match self {
            Kind::ArgList
            | Kind::Array
            | Kind::EncapsList
            | Kind::ExprList
            | Kind::StmtList
            | Kind::If
            | Kind::SwitchList
            | Kind::CatchList
            | Kind::ParamList
            | Kind::ClosureUses
            | Kind::PropDecl
            | Kind::ConstDecl
            | Kind::ClassConstDecl
            | Kind::NameList
            | Kind::TraitAdaptations
            | Kind::Use => true,
            _ => false,
        }
    }

    /// The number of child slots that the kind alone gives a node that is
    /// neither a declaration nor a list.
    pub open spec fn spec_num_children(self) -> nat {
        match self {
            Kind::Var
            | Kind::Const
            | Kind::Unpack
            | Kind::UnaryPlus
            | Kind::UnaryMinus
            | Kind::Cast
            | Kind::Empty
            | Kind::Isset
            | Kind::Silence
            | Kind::ShellExec
            | Kind::Clone
            | Kind::Exit
            | Kind::Print
            | Kind::IncludeOrEval
            | Kind::UnaryOp
            | Kind::PreInc
            | Kind::PreDec
            | Kind::PostInc
            | Kind::PostDec
            | Kind::YieldFrom
            | Kind::Global
            | Kind::Unset
            | Kind::Return
            | Kind::Label
            | Kind::Ref
            | Kind::HaltCompiler
            | Kind::Echo
            | Kind::Throw
            | Kind::Goto
            | Kind::Break
            | Kind::Continue => 1,
            Kind::Dim
            | Kind::Prop
            | Kind::StaticProp
            | Kind::Call
            | Kind::ClassConst
            | Kind::Assign
            | Kind::AssignRef
            | Kind::AssignOp
            | Kind::BinaryOp
            | Kind::Greater
            | Kind::GreaterEqual
            | Kind::And
            | Kind::Or
            | Kind::ArrayElem
            | Kind::New
            | Kind::Instanceof
            | Kind::Yield
            | Kind::Coalesce
            | Kind::Static
            | Kind::While
            | Kind::DoWhile
            | Kind::IfElem
            | Kind::Switch
            | Kind::SwitchCase
            | Kind::Declare
            | Kind::UseTrait
            | Kind::TraitPrecedence
            | Kind::MethodReference
            | Kind::Namespace
            | Kind::UseElem
            | Kind::TraitAlias
            | Kind::GroupUse => 2,
            Kind::MethodCall
            | Kind::StaticCall
            | Kind::Conditional
            | Kind::Try
            | Kind::Catch
            | Kind::Param
            | Kind::PropElem
            | Kind::ConstElem => 3,
            Kind::For | Kind::Foreach => 4,
            _ => 0,
        }
    }

    /// The group that the kind belongs to.
    pub open spec fn spec_shape(self) -> Shape {
        if self.spec_is_decl() {
            Shape::Declaration
        } else if self.spec_is_list() {
            Shape::List
        } else {
            Shape::Plain
        }
    }

    /// The number of child slots of a node of this kind, where `listed` is the
    /// number that a list node itself reports.
    pub open spec fn spec_slot_count(self, listed: nat) -> nat {
        match self.spec_shape() {
            Shape::Declaration => if self == Kind::Class {
                3
            } else {
                4
            },
            Shape::List => listed,
            Shape::Plain => self.spec_num_children(),
        }
    }

    #[verifier::when_used_as_spec(spec_is_decl)]
    pub fn is_decl(self) -> (b: bool)
        ensures
            b == self.spec_is_decl(),
    {
        self == Kind::FuncDecl || self == Kind::Closure || self == Kind::Method || self
            == Kind::Class
    }

    #[verifier::when_used_as_spec(spec_is_list)]
    pub fn is_list(self) -> (b: bool)
        ensures
            b == self.spec_is_list(),
    {
        match self {
            Kind::ArgList
            | Kind::Array
            | Kind::EncapsList
            | Kind::ExprList
            | Kind::StmtList
            | Kind::If
            | Kind::SwitchList
            | Kind::CatchList
            | Kind::ParamList
            | Kind::ClosureUses
            | Kind::PropDecl
            | Kind::ConstDecl
            | Kind::ClassConstDecl
            | Kind::NameList
            | Kind::TraitAdaptations
            | Kind::Use => true,
            _ => false,
        }
    }

    pub fn num_children(self) -> (n: usize)
        ensures
            n == self.spec_num_children(),
            n <= 4,
    {
        match self {
            Kind::Var
            | Kind::Const
            | Kind::Unpack
            | Kind::UnaryPlus
            | Kind::UnaryMinus
            | Kind::Cast
            | Kind::Empty
            | Kind::Isset
            | Kind::Silence
            | Kind::ShellExec
            | Kind::Clone
            | Kind::Exit
            | Kind::Print
            | Kind::IncludeOrEval
            | Kind::UnaryOp
            | Kind::PreInc
            | Kind::PreDec
            | Kind::PostInc
            | Kind::PostDec
            | Kind::YieldFrom
            | Kind::Global
            | Kind::Unset
            | Kind::Return
            | Kind::Label
            | Kind::Ref
            | Kind::HaltCompiler
            | Kind::Echo
            | Kind::Throw
            | Kind::Goto
            | Kind::Break
            | Kind::Continue => 1,
            Kind::Dim
            | Kind::Prop
            | Kind::StaticProp
            | Kind::Call
            | Kind::ClassConst
            | Kind::Assign
            | Kind::AssignRef
            | Kind::AssignOp
            | Kind::BinaryOp
            | Kind::Greater
            | Kind::GreaterEqual
            | Kind::And
            | Kind::Or
            | Kind::ArrayElem
            | Kind::New
            | Kind::Instanceof
            | Kind::Yield
            | Kind::Coalesce
            | Kind::Static
            | Kind::While
            | Kind::DoWhile
            | Kind::IfElem
            | Kind::Switch
            | Kind::SwitchCase
            | Kind::Declare
            | Kind::UseTrait
            | Kind::TraitPrecedence
            | Kind::MethodReference
            | Kind::Namespace
            | Kind::UseElem
            | Kind::TraitAlias
            | Kind::GroupUse => 2,
            Kind::MethodCall
            | Kind::StaticCall
            | Kind::Conditional
            | Kind::Try
            | Kind::Catch
            | Kind::Param
            | Kind::PropElem
            | Kind::ConstElem => 3,
            Kind::For | Kind::Foreach => 4,
            _ => 0,
        }
    }

    #[verifier::when_used_as_spec(spec_shape)]
    pub fn shape(self) -> (s: Shape)
        ensures
            s == self.spec_shape(),
    {
        if self.is_decl() {
            Shape::Declaration
        } else if self.is_list() {
            Shape::List
        } else {
            Shape::Plain
        }
    }

    /// The number of child slots of a node of this kind: three for a class
    /// declaration, four for any other declaration, `listed` for a list, and
    /// what the kind fixes for every other node.
    pub fn slot_count(self, listed: usize) -> (n: usize)
        ensures
            n == self.spec_slot_count(listed as nat),
    {
        match self.shape() {
            Shape::Declaration => if self == Kind::Class {
                3
            } else {
                4
            },
            Shape::List => listed,
            Shape::Plain => self.num_children(),
        }
    }
}

impl Kind {
    /// The name of the kind, as a trace shows it.
    pub open spec fn spec_name(self) -> Seq<char> {
        match self {
            Kind::Zval => "ZVAL"@,
            Kind::Znode => "ZNODE"@,
            Kind::FuncDecl => "FUNC_DECL"@,
            Kind::Closure => "CLOSURE"@,
            Kind::Method => "METHOD"@,
            Kind::Class => "CLASS"@,
            Kind::ArgList => "ARG_LIST"@,
            Kind::Array => "ARRAY"@,
            Kind::EncapsList => "ENCAPS_LIST"@,
            Kind::ExprList => "EXPR_LIST"@,
            Kind::StmtList => "STMT_LIST"@,
            Kind::If => "IF"@,
            Kind::SwitchList => "SWITCH_LIST"@,
            Kind::CatchList => "CATCH_LIST"@,
            Kind::ParamList => "PARAM_LIST"@,
            Kind::ClosureUses => "CLOSURE_USES"@,
            Kind::PropDecl => "PROP_DECL"@,
            Kind::ConstDecl => "CONST_DECL"@,
            Kind::ClassConstDecl => "CLASS_CONST_DECL"@,
            Kind::NameList => "NAME_LIST"@,
            Kind::TraitAdaptations => "TRAIT_ADAPTATIONS"@,
            Kind::Use => "USE"@,
            Kind::MagicConst => "MAGIC_CONST"@,
            Kind::Type => "TYPE"@,
            Kind::Var => "VAR"@,
            Kind::Const => "CONST"@,
            Kind::Unpack => "UNPACK"@,
            Kind::UnaryPlus => "UNARY_PLUS"@,
            Kind::UnaryMinus => "UNARY_MINUS"@,
            Kind::Cast => "CAST"@,
            Kind::Empty => "EMPTY"@,
            Kind::Isset => "ISSET"@,
            Kind::Silence => "SILENCE"@,
            Kind::ShellExec => "SHELL_EXEC"@,
            Kind::Clone => "CLONE"@,
            Kind::Exit => "EXIT"@,
            Kind::Print => "PRINT"@,
            Kind::IncludeOrEval => "INCLUDE_OR_EVAL"@,
            Kind::UnaryOp => "UNARY_OP"@,
            Kind::PreInc => "PRE_INC"@,
            Kind::PreDec => "PRE_DEC"@,
            Kind::PostInc => "POST_INC"@,
            Kind::PostDec => "POST_DEC"@,
            Kind::YieldFrom => "YIELD_FROM"@,
            Kind::Global => "GLOBAL"@,
            Kind::Unset => "UNSET"@,
            Kind::Return => "RETURN"@,
            Kind::Label => "LABEL"@,
            Kind::Ref => "REF"@,
            Kind::HaltCompiler => "HALT_COMPILER"@,
            Kind::Echo => "ECHO"@,
            Kind::Throw => "THROW"@,
            Kind::Goto => "GOTO"@,
            Kind::Break => "BREAK"@,
            Kind::Continue => "CONTINUE"@,
            Kind::Dim => "DIM"@,
            Kind::Prop => "PROP"@,
            Kind::StaticProp => "STATIC_PROP"@,
            Kind::Call => "CALL"@,
            Kind::ClassConst => "CLASS_CONST"@,
            Kind::Assign => "ASSIGN"@,
            Kind::AssignRef => "ASSIGN_REF"@,
            Kind::AssignOp => "ASSIGN_OP"@,
            Kind::BinaryOp => "BINARY_OP"@,
            Kind::Greater => "GREATER"@,
            Kind::GreaterEqual => "GREATER_EQUAL"@,
            Kind::And => "AND"@,
            Kind::Or => "OR"@,
            Kind::ArrayElem => "ARRAY_ELEM"@,
            Kind::New => "NEW"@,
            Kind::Instanceof => "INSTANCEOF"@,
            Kind::Yield => "YIELD"@,
            Kind::Coalesce => "COALESCE"@,
            Kind::Static => "STATIC"@,
            Kind::While => "WHILE"@,
            Kind::DoWhile => "DO_WHILE"@,
            Kind::IfElem => "IF_ELEM"@,
            Kind::Switch => "SWITCH"@,
            Kind::SwitchCase => "SWITCH_CASE"@,
            Kind::Declare => "DECLARE"@,
            Kind::UseTrait => "USE_TRAIT"@,
            Kind::TraitPrecedence => "TRAIT_PRECEDENCE"@,
            Kind::MethodReference => "METHOD_REFERENCE"@,
            Kind::Namespace => "NAMESPACE"@,
            Kind::UseElem => "USE_ELEM"@,
            Kind::TraitAlias => "TRAIT_ALIAS"@,
            Kind::GroupUse => "GROUP_USE"@,
            Kind::MethodCall => "METHOD_CALL"@,
            Kind::StaticCall => "STATIC_CALL"@,
            Kind::Conditional => "CONDITIONAL"@,
            Kind::Try => "TRY"@,
            Kind::Catch => "CATCH"@,
            Kind::Param => "PARAM"@,
            Kind::PropElem => "PROP_ELEM"@,
            Kind::ConstElem => "CONST_ELEM"@,
            Kind::For => "FOR"@,
            Kind::Foreach => "FOREACH"@,
        }
    }

    /// The name of the kind, as a trace shows it.
    pub fn name(self) -> (name: &'static str)
        ensures
            name@ == self.spec_name(),
    {
        match self {
            Kind::Zval => "ZVAL",
            Kind::Znode => "ZNODE",
            Kind::FuncDecl => "FUNC_DECL",
            Kind::Closure => "CLOSURE",
            Kind::Method => "METHOD",
            Kind::Class => "CLASS",
            Kind::ArgList => "ARG_LIST",
            Kind::Array => "ARRAY",
            Kind::EncapsList => "ENCAPS_LIST",
            Kind::ExprList => "EXPR_LIST",
            Kind::StmtList => "STMT_LIST",
            Kind::If => "IF",
            Kind::SwitchList => "SWITCH_LIST",
            Kind::CatchList => "CATCH_LIST",
            Kind::ParamList => "PARAM_LIST",
            Kind::ClosureUses => "CLOSURE_USES",
            Kind::PropDecl => "PROP_DECL",
            Kind::ConstDecl => "CONST_DECL",
            Kind::ClassConstDecl => "CLASS_CONST_DECL",
            Kind::NameList => "NAME_LIST",
            Kind::TraitAdaptations => "TRAIT_ADAPTATIONS",
            Kind::Use => "USE",
            Kind::MagicConst => "MAGIC_CONST",
            Kind::Type => "TYPE",
            Kind::Var => "VAR",
            Kind::Const => "CONST",
            Kind::Unpack => "UNPACK",
            Kind::UnaryPlus => "UNARY_PLUS",
            Kind::UnaryMinus => "UNARY_MINUS",
            Kind::Cast => "CAST",
            Kind::Empty => "EMPTY",
            Kind::Isset => "ISSET",
            Kind::Silence => "SILENCE",
            Kind::ShellExec => "SHELL_EXEC",
            Kind::Clone => "CLONE",
            Kind::Exit => "EXIT",
            Kind::Print => "PRINT",
            Kind::IncludeOrEval => "INCLUDE_OR_EVAL",
            Kind::UnaryOp => "UNARY_OP",
            Kind::PreInc => "PRE_INC",
            Kind::PreDec => "PRE_DEC",
            Kind::PostInc => "POST_INC",
            Kind::PostDec => "POST_DEC",
            Kind::YieldFrom => "YIELD_FROM",
            Kind::Global => "GLOBAL",
            Kind::Unset => "UNSET",
            Kind::Return => "RETURN",
            Kind::Label => "LABEL",
            Kind::Ref => "REF",
            Kind::HaltCompiler => "HALT_COMPILER",
            Kind::Echo => "ECHO",
            Kind::Throw => "THROW",
            Kind::Goto => "GOTO",
            Kind::Break => "BREAK",
            Kind::Continue => "CONTINUE",
            Kind::Dim => "DIM",
            Kind::Prop => "PROP",
            Kind::StaticProp => "STATIC_PROP",
            Kind::Call => "CALL",
            Kind::ClassConst => "CLASS_CONST",
            Kind::Assign => "ASSIGN",
            Kind::AssignRef => "ASSIGN_REF",
            Kind::AssignOp => "ASSIGN_OP",
            Kind::BinaryOp => "BINARY_OP",
            Kind::Greater => "GREATER",
            Kind::GreaterEqual => "GREATER_EQUAL",
            Kind::And => "AND",
            Kind::Or => "OR",
            Kind::ArrayElem => "ARRAY_ELEM",
            Kind::New => "NEW",
            Kind::Instanceof => "INSTANCEOF",
            Kind::Yield => "YIELD",
            Kind::Coalesce => "COALESCE",
            Kind::Static => "STATIC",
            Kind::While => "WHILE",
            Kind::DoWhile => "DO_WHILE",
            Kind::IfElem => "IF_ELEM",
            Kind::Switch => "SWITCH",
            Kind::SwitchCase => "SWITCH_CASE",
            Kind::Declare => "DECLARE",
            Kind::UseTrait => "USE_TRAIT",
            Kind::TraitPrecedence => "TRAIT_PRECEDENCE",
            Kind::MethodReference => "METHOD_REFERENCE",
            Kind::Namespace => "NAMESPACE",
            Kind::UseElem => "USE_ELEM",
            Kind::TraitAlias => "TRAIT_ALIAS",
            Kind::GroupUse => "GROUP_USE",
            Kind::MethodCall => "METHOD_CALL",
            Kind::StaticCall => "STATIC_CALL",
            Kind::Conditional => "CONDITIONAL",
            Kind::Try => "TRY",
            Kind::Catch => "CATCH",
            Kind::Param => "PARAM",
            Kind::PropElem => "PROP_ELEM",
            Kind::ConstElem => "CONST_ELEM",
            Kind::For => "FOR",
            Kind::Foreach => "FOREACH",
        }
    }
}

} // verus!
