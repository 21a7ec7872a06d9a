use vstd::prelude::*;

verus! {

/// One syntax node of a parsed, alias-expanded revset expression: the source
/// text that its span covers, and its shape.
pub struct ExprNode {
    pub text: String,
    pub kind: ExprKind,
}

/// The shapes of a revset syntax node. Operators and literal payloads are not
/// kept where the walk does not read them.
pub enum ExprKind {
    /// A prefix or postfix operator on its operand.
    Unary(Box<ExprNode>),
    /// An infix operator on its left and right operands.
    Binary(Box<ExprNode>, Box<ExprNode>),
    /// `x | y | ..`, flattened, in source order.
    UnionAll(Vec<ExprNode>),
    /// A function's name and its positional arguments.
    FunctionCall(String, Vec<ExprNode>),
    /// An alias reference, by name, and the node it expanded to.
    AliasExpanded(String, Box<ExprNode>),
    /// An unquoted symbol.
    Identifier(String),
    /// A quoted string literal.
    String(String),
    /// A `kind:value` pattern literal, by its kind.
    Pattern(String),
    /// `name@remote`.
    RemoteSymbol(String),
    /// `workspace@`.
    AtWorkspace(String),
    /// `@`.
    AtCurrentWorkspace,
    /// `::`.
    DagRangeAll,
    /// `..`.
    RangeAll,
}

/// Whether a node of this kind may denote a set of commits: string and
/// pattern literals never do.
pub open spec fn is_revset_kind(kind: ExprKind) -> bool {
    !(kind is String || kind is Pattern)
}

/// Whether the walk descends into a node of this kind where it is optional:
/// an alias body or a function argument.
pub fn might_be_revset(kind: &ExprKind) -> (r: bool)
    ensures
        r == is_revset_kind(*kind),
{
    match kind {
        ExprKind::String(_) | ExprKind::Pattern(_) => false,
        _ => true,
    }
}

} // verus!
