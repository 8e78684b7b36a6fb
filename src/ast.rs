use vstd::prelude::*;

verus! {

/// A node of the syntax tree. Every node owns its children.
#[derive(Debug, PartialEq)]
pub enum ASTNode {
    Program(Vec<ASTNode>),
    UseStatement(String),
    ReturnStatement(Box<ASTNode>),
    VariableDeclaration { var_type: String, name: String, value: Box<ASTNode> },
    FunctionDeclaration {
        name: String,
        params: Vec<(String, String)>,
        return_type: String,
        body: Vec<ASTNode>,
    },
    Literal(String),
    Identifier(String),
    ArrayLiteral(Vec<ASTNode>),
    ObjectLiteral(Vec<(String, ASTNode)>),
    PropertyAccess { object: Box<ASTNode>, property: String },
    FunctionCall { function: String, arguments: Vec<ASTNode> },
    BinaryExpression { left: Box<ASTNode>, operator: String, right: Box<ASTNode> },
    MethodCall { object: Box<ASTNode>, method: String, arguments: Vec<ASTNode> },
    ExpressionStatement(Box<ASTNode>),
    IfStatement {
        condition: Box<ASTNode>,
        then_branch: Vec<ASTNode>,
        else_branch: Option<Vec<ASTNode>>,
    },
    WhileLoop { condition: Box<ASTNode>, body: Vec<ASTNode> },
    ForLoop {
        initializer: Option<Box<ASTNode>>,
        condition: Option<Box<ASTNode>>,
        increment: Option<Box<ASTNode>>,
        body: Vec<ASTNode>,
    },
    UnaryExpression { operator: String, operand: Box<ASTNode> },
    TypeCast { expression: Box<ASTNode>, target_type: String },
    ConditionalExpression {
        condition: Box<ASTNode>,
        then_expr: Box<ASTNode>,
        else_expr: Box<ASTNode>,
    },
    TryCatch {
        try_block: Vec<ASTNode>,
        catch_variable: Option<String>,
        catch_block: Vec<ASTNode>,
        finally_block: Option<Vec<ASTNode>>,
    },
    ClassDeclaration {
        name: String,
        extends: Option<String>,
        implements: Vec<String>,
        methods: Vec<ASTNode>,
        properties: Vec<ASTNode>,
    },
    Block(Vec<ASTNode>),
    MatchExpression { expression: Box<ASTNode>, cases: Vec<(ASTNode, Vec<ASTNode>)> },
}

/// The mathematical value of a syntax tree: the same shape, with text as
/// character sequences and lists as sequences.
pub enum Ast {
    Program(Seq<Ast>),
    UseStatement(Seq<char>),
    ReturnStatement(Box<Ast>),
    VariableDeclaration { var_type: Seq<char>, name: Seq<char>, value: Box<Ast> },
    FunctionDeclaration {
        name: Seq<char>,
        params: Seq<(Seq<char>, Seq<char>)>,
        return_type: Seq<char>,
        body: Seq<Ast>,
    },
    Literal(Seq<char>),
    Identifier(Seq<char>),
    ArrayLiteral(Seq<Ast>),
    ObjectLiteral(Seq<(Seq<char>, Ast)>),
    PropertyAccess { object: Box<Ast>, property: Seq<char> },
    FunctionCall { function: Seq<char>, arguments: Seq<Ast> },
    BinaryExpression { left: Box<Ast>, operator: Seq<char>, right: Box<Ast> },
    MethodCall { object: Box<Ast>, method: Seq<char>, arguments: Seq<Ast> },
    ExpressionStatement(Box<Ast>),
    IfStatement { condition: Box<Ast>, then_branch: Seq<Ast>, else_branch: Option<Seq<Ast>> },
    WhileLoop { condition: Box<Ast>, body: Seq<Ast> },
    ForLoop {
        initializer: Option<Box<Ast>>,
        condition: Option<Box<Ast>>,
        increment: Option<Box<Ast>>,
        body: Seq<Ast>,
    },
    UnaryExpression { operator: Seq<char>, operand: Box<Ast> },
    TypeCast { expression: Box<Ast>, target_type: Seq<char> },
    ConditionalExpression { condition: Box<Ast>, then_expr: Box<Ast>, else_expr: Box<Ast> },
    TryCatch {
        try_block: Seq<Ast>,
        catch_variable: Option<Seq<char>>,
        catch_block: Seq<Ast>,
        finally_block: Option<Seq<Ast>>,
    },
    ClassDeclaration {
        name: Seq<char>,
        extends: Option<Seq<char>>,
        implements: Seq<Seq<char>>,
        methods: Seq<Ast>,
        properties: Seq<Ast>,
    },
    Block(Seq<Ast>),
    MatchExpression { expression: Box<Ast>, cases: Seq<(Ast, Seq<Ast>)> },
}

#[verifier::opaque]
/// The values of a list of nodes.
pub open spec fn view_nodes(s: Seq<ASTNode>) -> Seq<Ast>
    decreases s,
{
    if s.len() == 0 {
        Seq::empty()
    } else {
        view_nodes(s.drop_last()).push(s.last().view_ast())
    }
}

#[verifier::opaque]
/// The values of the properties of an object literal.
pub open spec fn view_properties(s: Seq<(String, ASTNode)>) -> Seq<(Seq<char>, Ast)>
    decreases s,
{
    if s.len() == 0 {
        Seq::empty()
    } else {
        view_properties(s.drop_last()).push((s.last().0@, s.last().1.view_ast()))
    }
}

/// The values of the cases of a match expression.
pub open spec fn view_cases(s: Seq<(ASTNode, Vec<ASTNode>)>) -> Seq<(Ast, Seq<Ast>)>
    decreases s,
{
    if s.len() == 0 {
        Seq::empty()
    } else {
        view_cases(s.drop_last()).push((s.last().0.view_ast(), view_nodes(s.last().1@)))
    }
}

/// The values of a list of names.
pub open spec fn view_texts(s: Seq<String>) -> Seq<Seq<char>> {
    s.map_values(|x: String| x@)
}

/// The values of (name, type) parameter pairs.
pub open spec fn view_params(s: Seq<(String, String)>) -> Seq<(Seq<char>, Seq<char>)> {
    s.map_values(|x: (String, String)| (x.0@, x.1@))
}

/// The value of an optional name.
pub open spec fn view_opt_text(o: Option<String>) -> Option<Seq<char>> {
    match o {
        Some(s) => Some(s@),
        None => None,
    }
}

impl ASTNode {
    /// The value of the tree.
    pub open spec fn view_ast(&self) -> Ast
        decreases self,
    {
        match self {
            ASTNode::Program(v) => Ast::Program(view_nodes(v@)),
            ASTNode::UseStatement(s) => Ast::UseStatement(s@),
            ASTNode::ReturnStatement(e) => Ast::ReturnStatement(Box::new(e.view_ast())),
            ASTNode::VariableDeclaration { var_type, name, value } => Ast::VariableDeclaration {
                var_type: var_type@,
                name: name@,
                value: Box::new(value.view_ast()),
            },
            ASTNode::FunctionDeclaration { name, params, return_type, body } => Ast::FunctionDeclaration {
                name: name@,
                params: view_params(params@),
                return_type: return_type@,
                body: view_nodes(body@),
            },
            ASTNode::Literal(s) => Ast::Literal(s@),
            ASTNode::Identifier(s) => Ast::Identifier(s@),
            ASTNode::ArrayLiteral(v) => Ast::ArrayLiteral(view_nodes(v@)),
            ASTNode::ObjectLiteral(v) => Ast::ObjectLiteral(view_properties(v@)),
            ASTNode::PropertyAccess { object, property } => Ast::PropertyAccess {
                object: Box::new(object.view_ast()),
                property: property@,
            },
            ASTNode::FunctionCall { function, arguments } => Ast::FunctionCall {
                function: function@,
                arguments: view_nodes(arguments@),
            },
            ASTNode::BinaryExpression { left, operator, right } => Ast::BinaryExpression {
                left: Box::new(left.view_ast()),
                operator: operator@,
                right: Box::new(right.view_ast()),
            },
            ASTNode::MethodCall { object, method, arguments } => Ast::MethodCall {
                object: Box::new(object.view_ast()),
                method: method@,
                arguments: view_nodes(arguments@),
            },
            ASTNode::ExpressionStatement(e) => Ast::ExpressionStatement(Box::new(e.view_ast())),
            ASTNode::IfStatement { condition, then_branch, else_branch } => Ast::IfStatement {
                condition: Box::new(condition.view_ast()),
                then_branch: view_nodes(then_branch@),
                else_branch: match else_branch {
                    Some(v) => Some(view_nodes(v@)),
                    None => None,
                },
            },
            ASTNode::WhileLoop { condition, body } => Ast::WhileLoop {
                condition: Box::new(condition.view_ast()),
                body: view_nodes(body@),
            },
            ASTNode::ForLoop { initializer, condition, increment, body } => Ast::ForLoop {
                initializer: match initializer {
                    Some(e) => Some(Box::new(e.view_ast())),
                    None => None,
                },
                condition: match condition {
                    Some(e) => Some(Box::new(e.view_ast())),
                    None => None,
                },
                increment: match increment {
                    Some(e) => Some(Box::new(e.view_ast())),
                    None => None,
                },
                body: view_nodes(body@),
            },
            ASTNode::UnaryExpression { operator, operand } => Ast::UnaryExpression {
                operator: operator@,
                operand: Box::new(operand.view_ast()),
            },
            ASTNode::TypeCast { expression, target_type } => Ast::TypeCast {
                expression: Box::new(expression.view_ast()),
                target_type: target_type@,
            },
            ASTNode::ConditionalExpression { condition, then_expr, else_expr } => Ast::ConditionalExpression {
                condition: Box::new(condition.view_ast()),
                then_expr: Box::new(then_expr.view_ast()),
                else_expr: Box::new(else_expr.view_ast()),
            },
            ASTNode::TryCatch { try_block, catch_variable, catch_block, finally_block } => Ast::TryCatch {
                try_block: view_nodes(try_block@),
                catch_variable: view_opt_text(*catch_variable),
                catch_block: view_nodes(catch_block@),
                finally_block: match finally_block {
                    Some(v) => Some(view_nodes(v@)),
                    None => None,
                },
            },
            ASTNode::ClassDeclaration { name, extends, implements, methods, properties } => Ast::ClassDeclaration {
                name: name@,
                extends: view_opt_text(*extends),
                implements: view_texts(implements@),
                methods: view_nodes(methods@),
                properties: view_nodes(properties@),
            },
            ASTNode::Block(v) => Ast::Block(view_nodes(v@)),
            ASTNode::MatchExpression { expression, cases } => Ast::MatchExpression {
                expression: Box::new(expression.view_ast()),
                cases: view_cases(cases@),
            },
        }
    }
}

/// Appending a node appends its value.
pub proof fn lemma_view_nodes_push(s: Seq<ASTNode>, n: ASTNode)
    ensures
        view_nodes(s.push(n)) == view_nodes(s).push(n.view_ast()),
{
    reveal_with_fuel(view_nodes, 1);
    assert(s.push(n).drop_last() =~= s);
}

/// Appending a property appends its value.
pub proof fn lemma_view_properties_push(s: Seq<(String, ASTNode)>, p: (String, ASTNode))
    ensures
        view_properties(s.push(p)) == view_properties(s).push((p.0@, p.1.view_ast())),
{
    reveal_with_fuel(view_properties, 1);
    assert(s.push(p).drop_last() =~= s);
}

/// Appending a case appends its value.
pub proof fn lemma_view_cases_push(s: Seq<(ASTNode, Vec<ASTNode>)>, c: (ASTNode, Vec<ASTNode>))
    ensures
        view_cases(s.push(c)) == view_cases(s).push((c.0.view_ast(), view_nodes(c.1@))),
{
    reveal_with_fuel(view_nodes, 1);
    assert(s.push(c).drop_last() =~= s);
}

/// Empty lists have empty values.
pub proof fn lemma_view_empty()
    ensures
        view_nodes(Seq::empty()) == Seq::<Ast>::empty(),
        view_properties(Seq::empty()) == Seq::<(Seq<char>, Ast)>::empty(),
        view_cases(Seq::empty()) == Seq::<(Ast, Seq<Ast>)>::empty(),
{
    reveal(view_nodes);
    reveal(view_properties);
}

} // verus!
