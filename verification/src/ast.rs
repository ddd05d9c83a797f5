//! The syntax tree the parser builds and the compiler consumes, with a
//! printer that renders every node back to source-like text.
//!
//! The printer walks the tree recursively. Each walk carries a depth budget
//! so that its termination is immediate; the budget is far beyond any tree a
//! parser of bounded input can build, and a walk that ran out would render
//! the offending subtree as the empty string.

use vstd::prelude::*;
use vstd::string::StringExecFns;

use crate::strutil::i64_to_string;
use crate::strutil::push_char;
use crate::token::Token;

verus! {

/// The depth budget for printing walks.
const PRINT_FUEL: u64 = u64::MAX;

/// Any node of the syntax tree.
#[derive(Debug, PartialEq)]
pub enum Node {
    Program(Program),
    Statement(Statement),
    Expression(Expression),
}

/// A whole program: its statements in declaration order.
#[derive(Debug, PartialEq)]
pub struct Program {
    pub statements: Vec<Statement>,
}

/// One statement.
#[derive(Debug, PartialEq)]
pub enum Statement {
    Let(LetStatement),
    Return(ReturnStatement),
    Expression(ExpressionStatement),
    Block(BlockStatement),
    ClassDeclaration(ClassDeclaration),
    InterfaceDeclaration(InterfaceDeclaration),
    StructDeclaration(StructDeclaration),
}

/// One expression.
#[derive(Debug, PartialEq)]
pub enum Expression {
    Identifier(Identifier),
    IntegerLiteral(IntegerLiteral),
    Boolean(BooleanLiteral),
    Prefix(PrefixExpression),
    Infix(InfixExpression),
    If(IfExpression),
    FunctionLiteral(FunctionLiteral),
    Call(CallExpression),
    StringLiteral(StringLiteral),
    ArrayLiteral(ArrayLiteral),
    New(NewExpression),
    This(ThisExpression),
    Super(SuperExpression),
    PropertyAccess(PropertyAccessExpression),
    MethodCall(MethodCallExpression),
    Match(MatchExpression),
}

/// `let <name> = <value>;`
#[derive(Debug, PartialEq)]
pub struct LetStatement {
    pub token: Token,
    pub name: Identifier,
    pub value: Expression,
}

/// A name standing for a value.
#[derive(Debug, PartialEq, Clone)]
pub struct Identifier {
    pub token: Token,
    pub value: String,
}

/// `return <value>;`
#[derive(Debug, PartialEq)]
pub struct ReturnStatement {
    pub token: Token,
    pub return_value: Expression,
}

/// A bare expression in statement position.
#[derive(Debug, PartialEq)]
pub struct ExpressionStatement {
    pub token: Token,
    pub expression: Expression,
}

/// `{ <statements> }`
#[derive(Debug, PartialEq)]
pub struct BlockStatement {
    pub token: Token,
    pub statements: Vec<Statement>,
}

/// An integer literal.
#[derive(Debug, PartialEq, Clone)]
pub struct IntegerLiteral {
    pub token: Token,
    pub value: i64,
}

/// A boolean literal.
#[derive(Debug, PartialEq, Clone)]
pub struct BooleanLiteral {
    pub token: Token,
    pub value: bool,
}

/// `<operator><right>`
#[derive(Debug, PartialEq)]
pub struct PrefixExpression {
    pub token: Token,
    pub operator: String,
    pub right: Box<Expression>,
}

/// `<left> <operator> <right>`
#[derive(Debug, PartialEq)]
pub struct InfixExpression {
    pub token: Token,
    pub left: Box<Expression>,
    pub operator: String,
    pub right: Box<Expression>,
}

/// `if (<condition>) { <consequence> } else { <alternative> }`
#[derive(Debug, PartialEq)]
pub struct IfExpression {
    pub token: Token,
    pub condition: Box<Expression>,
    pub consequence: BlockStatement,
    pub alternative: Option<BlockStatement>,
}

/// `fn(<parameters>) { <body> }`
#[derive(Debug, PartialEq)]
pub struct FunctionLiteral {
    pub token: Token,
    pub parameters: Vec<Identifier>,
    pub body: BlockStatement,
}

/// `<function>(<arguments>)`
#[derive(Debug, PartialEq)]
pub struct CallExpression {
    pub token: Token,
    pub function: Box<Expression>,
    pub arguments: Vec<Expression>,
}

/// A string literal.
#[derive(Debug, PartialEq, Clone)]
pub struct StringLiteral {
    pub token: Token,
    pub value: String,
}

/// `[<elements>]`
#[derive(Debug, PartialEq)]
pub struct ArrayLiteral {
    pub token: Token,
    pub elements: Vec<Expression>,
}

/// Visibility of a class or struct member.
#[derive(Debug, PartialEq, Clone)]
pub enum AccessModifier {
    Public,
    Private,
}

/// `class <name> extends <super> implements <interfaces> { ... }`
#[derive(Debug, PartialEq)]
pub struct ClassDeclaration {
    pub token: Token,
    pub name: Identifier,
    pub super_class: Option<Identifier>,
    pub interfaces: Vec<Identifier>,
    pub properties: Vec<PropertyDeclaration>,
    pub methods: Vec<MethodDeclaration>,
}

/// `interface <name> { <signatures> }`
#[derive(Debug, PartialEq)]
pub struct InterfaceDeclaration {
    pub token: Token,
    pub name: Identifier,
    pub method_signatures: Vec<MethodSignatureDeclaration>,
}

/// `struct <name> { <properties> }`
#[derive(Debug, PartialEq)]
pub struct StructDeclaration {
    pub token: Token,
    pub name: Identifier,
    pub properties: Vec<PropertyDeclaration>,
}

/// One property of a class or struct.
#[derive(Debug, PartialEq)]
pub struct PropertyDeclaration {
    pub token: Token,
    pub name: Identifier,
    pub value: Option<Expression>,
    pub access_modifier: AccessModifier,
    pub is_static: bool,
}

/// One method of a class.
#[derive(Debug, PartialEq)]
pub struct MethodDeclaration {
    pub token: Token,
    pub name: Identifier,
    pub parameters: Vec<Identifier>,
    pub body: BlockStatement,
    pub access_modifier: AccessModifier,
    pub is_static: bool,
}

/// One method signature of an interface.
#[derive(Debug, PartialEq, Clone)]
pub struct MethodSignatureDeclaration {
    pub token: Token,
    pub name: Identifier,
    pub parameters: Vec<Identifier>,
}

/// `new <class>(<arguments>)`
#[derive(Debug, PartialEq)]
pub struct NewExpression {
    pub token: Token,
    pub class_name: Identifier,
    pub arguments: Vec<Expression>,
}

/// `this`
#[derive(Debug, PartialEq, Clone)]
pub struct ThisExpression {
    pub token: Token,
}

/// `super`
#[derive(Debug, PartialEq, Clone)]
pub struct SuperExpression {
    pub token: Token,
}

/// `<left>.<property>`
#[derive(Debug, PartialEq)]
pub struct PropertyAccessExpression {
    pub token: Token,
    pub left: Box<Expression>,
    pub property: Identifier,
}

/// `<object>.<method>(<arguments>)`
#[derive(Debug, PartialEq)]
pub struct MethodCallExpression {
    pub token: Token,
    pub object: Box<Expression>,
    pub method: Identifier,
    pub arguments: Vec<Expression>,
}

/// `match <value> { <arms> }`
#[derive(Debug, PartialEq)]
pub struct MatchExpression {
    pub token: Token,
    pub value: Box<Expression>,
    pub arms: Vec<MatchArm>,
}

/// One arm of a match: a pattern, an optional guard, and a consequence.
#[derive(Debug, PartialEq)]
pub struct MatchArm {
    pub pattern: Pattern,
    pub guard: Option<Expression>,
    pub consequence: BlockStatement,
}

/// A pattern of a match arm.
#[derive(Debug, PartialEq)]
pub enum Pattern {
    Literal(Expression),
    Identifier(Identifier),
    Range(RangePattern),
    Tuple(Vec<Pattern>),
    Struct(StructPattern),
    Wildcard,
}

/// `<start>..<end>` or `<start>..=<end>`
#[derive(Debug, PartialEq)]
pub struct RangePattern {
    pub start: Box<Expression>,
    pub end: Box<Expression>,
    pub inclusive: bool,
}

/// `<name> { <field>: <pattern>, <field> }`
#[derive(Debug, PartialEq)]
pub struct StructPattern {
    pub name: Identifier,
    pub fields: Vec<(Identifier, Option<Pattern>)>,
}

impl Program {
    /// An empty program.
    pub fn new() -> (r: Program)
        ensures
            r.statements@ == Seq::<Statement>::empty(),
    {
        Program { statements: Vec::new() }
    }

    /// Renders the program: its statements, back to back.
    pub fn string(&self) -> String {
        let mut s = String::new();
        let mut i: usize = 0;
        while i < self.statements.len()
            decreases self.statements@.len() - i,
        {
            let part = self.statements[i].string();
            s.append(part.as_str());
            i = i + 1;
        }
        s
    }
}

impl Node {
    /// Renders the node as source-like text.
    pub fn string(&self) -> String {
        match self {
            Node::Program(p) => p.string(),
            Node::Statement(s) => statement_string(s, PRINT_FUEL),
            Node::Expression(e) => expression_string(e, PRINT_FUEL),
        }
    }
}

impl Statement {
    /// Renders the statement as source-like text.
    pub fn string(&self) -> String {
        statement_string(self, PRINT_FUEL)
    }
}

impl Expression {
    /// Renders the expression as source-like text.
    pub fn string(&self) -> String {
        expression_string(self, PRINT_FUEL)
    }
}

impl BlockStatement {
    /// Renders the block: its statements, back to back.
    pub fn string(&self) -> String {
        block_string(self, PRINT_FUEL)
    }
}

impl AccessModifier {
    /// The keyword of the modifier.
    pub fn string(&self) -> (r: &'static str)
        ensures
            *self is Public ==> r@ == "public"@,
            *self is Private ==> r@ == "private"@,
    {
        match self {
            AccessModifier::Public => "public",
            AccessModifier::Private => "private",
        }
    }
}

impl PropertyDeclaration {
    /// Renders the property declaration.
    pub fn string(&self) -> String {
        property_string(self, PRINT_FUEL)
    }
}

impl MethodDeclaration {
    /// Renders the method declaration.
    pub fn string(&self) -> String {
        method_string(self, PRINT_FUEL)
    }
}

impl MethodSignatureDeclaration {
    /// Renders the method signature.
    pub fn string(&self) -> String {
        let mut out = String::new();
        out.append(self.name.value.as_str());
        append_params(&mut out, &self.parameters);
        out
    }
}

impl MatchExpression {
    /// Renders the match expression.
    pub fn string(&self) -> String {
        match_expression_string(self, PRINT_FUEL)
    }
}

impl MatchArm {
    /// Renders one match arm.
    pub fn string(&self) -> String {
        match_arm_string(self, PRINT_FUEL)
    }
}

impl Pattern {
    /// Renders the pattern.
    pub fn string(&self) -> String {
        pattern_string(self, PRINT_FUEL)
    }
}

impl RangePattern {
    /// Renders the range pattern.
    pub fn string(&self) -> String {
        range_pattern_string(self, PRINT_FUEL)
    }
}

impl StructPattern {
    /// Renders the struct pattern.
    pub fn string(&self) -> String {
        struct_pattern_string(self, PRINT_FUEL)
    }
}

/// Appends `(p1, p2, ...)` for a parameter list.
fn append_params(out: &mut String, params: &Vec<Identifier>) {
    push_char(out, '(');
    let mut i: usize = 0;
    while i < params.len()
        decreases params@.len() - i,
    {
        if i > 0 {
            out.append(", ");
        }
        out.append(params[i].value.as_str());
        i = i + 1;
    }
    push_char(out, ')');
}

fn statement_string(st: &Statement, fuel: u64) -> String
    decreases fuel, 3int,
{
    if fuel == 0 {
        return String::new();
    }
    match st {
        Statement::Let(ls) => {
            let mut out = String::new();
            out.append(ls.token.literal.as_str());
            push_char(&mut out, ' ');
            out.append(ls.name.value.as_str());
            out.append(" = ");
            let value = expression_string(&ls.value, fuel - 1);
            out.append(value.as_str());
            push_char(&mut out, ';');
            out
        },
        Statement::Return(rs) => {
            let mut out = String::new();
            out.append(rs.token.literal.as_str());
            push_char(&mut out, ' ');
            let value = expression_string(&rs.return_value, fuel - 1);
            out.append(value.as_str());
            push_char(&mut out, ';');
            out
        },
        Statement::Expression(es) => expression_string(&es.expression, fuel - 1),
        Statement::Block(bs) => block_string(bs, fuel - 1),
        Statement::ClassDeclaration(cd) => {
            let mut out = String::new();
            out.append("class ");
            out.append(cd.name.value.as_str());
            push_char(&mut out, ' ');
            if let Some(sc) = &cd.super_class {
                out.append("extends ");
                out.append(sc.value.as_str());
                push_char(&mut out, ' ');
            }
            if cd.interfaces.len() > 0 {
                out.append("implements ");
                let mut i: usize = 0;
                while i < cd.interfaces.len()
                    invariant
                        fuel >= 1,
                    decreases cd.interfaces@.len() - i,
                {
                    if i > 0 {
                        out.append(", ");
                    }
                    out.append(cd.interfaces[i].value.as_str());
                    i = i + 1;
                }
                push_char(&mut out, ' ');
            }
            out.append("{\n");
            let mut i: usize = 0;
            while i < cd.properties.len()
                invariant
                    fuel >= 1,
                decreases cd.properties@.len() - i,
            {
                out.append("    ");
                let prop = property_string(&cd.properties[i], fuel - 1);
                out.append(prop.as_str());
                push_char(&mut out, '\n');
                i = i + 1;
            }
            let mut j: usize = 0;
            while j < cd.methods.len()
                invariant
                    fuel >= 1,
                decreases cd.methods@.len() - j,
            {
                out.append("    ");
                let m = method_string(&cd.methods[j], fuel - 1);
                out.append(m.as_str());
                push_char(&mut out, '\n');
                j = j + 1;
            }
            push_char(&mut out, '}');
            out
        },
        Statement::InterfaceDeclaration(id) => {
            let mut out = String::new();
            out.append("interface ");
            out.append(id.name.value.as_str());
            out.append(" {\n");
            let mut i: usize = 0;
            while i < id.method_signatures.len()
                invariant
                    fuel >= 1,
                decreases id.method_signatures@.len() - i,
            {
                out.append("    ");
                let sig = id.method_signatures[i].string();
                out.append(sig.as_str());
                out.append(";\n");
                i = i + 1;
            }
            push_char(&mut out, '}');
            out
        },
        Statement::StructDeclaration(sd) => {
            let mut out = String::new();
            out.append("struct ");
            out.append(sd.name.value.as_str());
            out.append(" {\n");
            let mut i: usize = 0;
            while i < sd.properties.len()
                invariant
                    fuel >= 1,
                decreases sd.properties@.len() - i,
            {
                out.append("    ");
                let prop = property_string(&sd.properties[i], fuel - 1);
                out.append(prop.as_str());
                out.append(";\n");
                i = i + 1;
            }
            push_char(&mut out, '}');
            out
        },
    }
}

fn block_string(bs: &BlockStatement, fuel: u64) -> String
    decreases fuel, 4int,
{
    if fuel == 0 {
        return String::new();
    }
    let mut out = String::new();
    let mut i: usize = 0;
    while i < bs.statements.len()
        invariant
            fuel >= 1,
        decreases bs.statements@.len() - i,
    {
        let part = statement_string(&bs.statements[i], fuel - 1);
        out.append(part.as_str());
        i = i + 1;
    }
    out
}

fn property_string(pd: &PropertyDeclaration, fuel: u64) -> String
    decreases fuel, 2int,
{
    if fuel == 0 {
        return String::new();
    }
    let mut out = String::new();
    if pd.is_static {
        out.append("static ");
    }
    out.append(pd.access_modifier.string());
    push_char(&mut out, ' ');
    out.append(pd.name.value.as_str());
    if let Some(val) = &pd.value {
        out.append(" = ");
        let v = expression_string(val, fuel - 1);
        out.append(v.as_str());
    }
    push_char(&mut out, ';');
    out
}

fn method_string(md: &MethodDeclaration, fuel: u64) -> String
    decreases fuel, 2int,
{
    if fuel == 0 {
        return String::new();
    }
    let mut out = String::new();
    if md.is_static {
        out.append("static ");
    }
    out.append(md.access_modifier.string());
    push_char(&mut out, ' ');
    out.append(md.name.value.as_str());
    append_params(&mut out, &md.parameters);
    push_char(&mut out, ' ');
    let body = block_string(&md.body, fuel - 1);
    out.append(body.as_str());
    out
}

/// Appends the renderings of `args`, separated by `", "`.
fn append_args(out: &mut String, args: &Vec<Expression>, fuel: u64)
    decreases fuel, 1int,
{
    if fuel == 0 {
        return ;
    }
    let mut i: usize = 0;
    while i < args.len()
        invariant
            fuel >= 1,
        decreases args@.len() - i,
    {
        if i > 0 {
            out.append(", ");
        }
        let part = expression_string(&args[i], fuel - 1);
        out.append(part.as_str());
        i = i + 1;
    }
}

fn expression_string(e: &Expression, fuel: u64) -> String
    decreases fuel, 2int,
{
    if fuel == 0 {
        return String::new();
    }
    match e {
        Expression::Identifier(i) => i.value.clone(),
        Expression::IntegerLiteral(i) => i64_to_string(i.value),
        Expression::Boolean(b) => {
            if b.value {
                String::from_str("true")
            } else {
                String::from_str("false")
            }
        },
        Expression::Prefix(p) => {
            let mut out = String::new();
            push_char(&mut out, '(');
            out.append(p.operator.as_str());
            let right = expression_string(&p.right, fuel - 1);
            out.append(right.as_str());
            push_char(&mut out, ')');
            out
        },
        Expression::Infix(ie) => {
            let mut out = String::new();
            push_char(&mut out, '(');
            let left = expression_string(&ie.left, fuel - 1);
            out.append(left.as_str());
            push_char(&mut out, ' ');
            out.append(ie.operator.as_str());
            push_char(&mut out, ' ');
            let right = expression_string(&ie.right, fuel - 1);
            out.append(right.as_str());
            push_char(&mut out, ')');
            out
        },
        Expression::If(ie) => {
            let mut out = String::new();
            out.append("if ");
            let cond = expression_string(&ie.condition, fuel - 1);
            out.append(cond.as_str());
            push_char(&mut out, ' ');
            let cons = block_string(&ie.consequence, fuel - 1);
            out.append(cons.as_str());
            if let Some(alt) = &ie.alternative {
                out.append(" else ");
                let alt_s = block_string(alt, fuel - 1);
                out.append(alt_s.as_str());
            }
            out
        },
        Expression::FunctionLiteral(fl) => {
            let mut out = String::new();
            out.append(fl.token.literal.as_str());
            append_params(&mut out, &fl.parameters);
            push_char(&mut out, ' ');
            let body = block_string(&fl.body, fuel - 1);
            out.append(body.as_str());
            out
        },
        Expression::Call(c) => {
            let mut out = String::new();
            let f = expression_string(&c.function, fuel - 1);
            out.append(f.as_str());
            push_char(&mut out, '(');
            append_args(&mut out, &c.arguments, fuel - 1);
            push_char(&mut out, ')');
            out
        },
        Expression::StringLiteral(s) => s.value.clone(),
        Expression::ArrayLiteral(a) => {
            let mut out = String::new();
            push_char(&mut out, '[');
            append_args(&mut out, &a.elements, fuel - 1);
            push_char(&mut out, ']');
            out
        },
        Expression::New(n) => {
            let mut out = String::new();
            out.append("new ");
            out.append(n.class_name.value.as_str());
            push_char(&mut out, '(');
            append_args(&mut out, &n.arguments, fuel - 1);
            push_char(&mut out, ')');
            out
        },
        Expression::This(_) => String::from_str("this"),
        Expression::Super(_) => String::from_str("super"),
        Expression::PropertyAccess(p) => {
            let mut out = String::new();
            push_char(&mut out, '(');
            let left = expression_string(&p.left, fuel - 1);
            out.append(left.as_str());
            push_char(&mut out, '.');
            out.append(p.property.value.as_str());
            push_char(&mut out, ')');
            out
        },
        Expression::MethodCall(m) => {
            let mut out = String::new();
            let obj = expression_string(&m.object, fuel - 1);
            out.append(obj.as_str());
            push_char(&mut out, '.');
            out.append(m.method.value.as_str());
            push_char(&mut out, '(');
            append_args(&mut out, &m.arguments, fuel - 1);
            push_char(&mut out, ')');
            out
        },
        Expression::Match(m) => match_expression_string(m, fuel),
    }
}

fn match_expression_string(m: &MatchExpression, fuel: u64) -> String
    decreases fuel, 1int,
{
    if fuel == 0 {
        return String::new();
    }
    let mut out = String::new();
    out.append("match ");
    let v = expression_string(&m.value, fuel - 1);
    out.append(v.as_str());
    out.append(" {\n");
    let mut i: usize = 0;
    while i < m.arms.len()
        invariant
            fuel >= 1,
        decreases m.arms@.len() - i,
    {
        if i > 0 {
            push_char(&mut out, '\n');
        }
        let arm = match_arm_string(&m.arms[i], fuel - 1);
        out.append(arm.as_str());
        i = i + 1;
    }
    out.append("\n}");
    out
}

fn match_arm_string(arm: &MatchArm, fuel: u64) -> String
    decreases fuel, 3int,
{
    if fuel == 0 {
        return String::new();
    }
    let mut out = String::new();
    out.append("    ");
    let pat = pattern_string(&arm.pattern, fuel - 1);
    out.append(pat.as_str());
    if let Some(guard) = &arm.guard {
        out.append(" if ");
        let g = expression_string(guard, fuel - 1);
        out.append(g.as_str());
    }
    out.append(" => ");
    let cons = block_string(&arm.consequence, fuel - 1);
    out.append(cons.as_str());
    out
}

fn pattern_string(p: &Pattern, fuel: u64) -> String
    decreases fuel, 3int,
{
    if fuel == 0 {
        return String::new();
    }
    match p {
        Pattern::Literal(e) => expression_string(e, fuel - 1),
        Pattern::Identifier(i) => i.value.clone(),
        Pattern::Range(r) => range_pattern_string(r, fuel - 1),
        Pattern::Tuple(ps) => {
            let mut out = String::new();
            push_char(&mut out, '(');
            let mut i: usize = 0;
            while i < ps.len()
                invariant
                    fuel >= 1,
                decreases ps@.len() - i,
            {
                if i > 0 {
                    out.append(", ");
                }
                let part = pattern_string(&ps[i], fuel - 1);
                out.append(part.as_str());
                i = i + 1;
            }
            push_char(&mut out, ')');
            out
        },
        Pattern::Struct(sp) => struct_pattern_string(sp, fuel - 1),
        Pattern::Wildcard => String::from_str("_"),
    }
}

fn range_pattern_string(r: &RangePattern, fuel: u64) -> String
    decreases fuel, 2int,
{
    if fuel == 0 {
        return String::new();
    }
    let mut out = String::new();
    let start = expression_string(&r.start, fuel - 1);
    out.append(start.as_str());
    if r.inclusive {
        out.append("..=");
    } else {
        out.append("..");
    }
    let end = expression_string(&r.end, fuel - 1);
    out.append(end.as_str());
    out
}

fn struct_pattern_string(sp: &StructPattern, fuel: u64) -> String
    decreases fuel, 2int,
{
    if fuel == 0 {
        return String::new();
    }
    let mut out = String::new();
    out.append(sp.name.value.as_str());
    out.append(" { ");
    let mut i: usize = 0;
    while i < sp.fields.len()
        invariant
            fuel >= 1,
        decreases sp.fields@.len() - i,
    {
        if i > 0 {
            out.append(", ");
        }
        out.append(sp.fields[i].0.value.as_str());
        if let Some(pat) = &sp.fields[i].1 {
            out.append(": ");
            let p = pattern_string(pat, fuel - 1);
            out.append(p.as_str());
        }
        i = i + 1;
    }
    out.append(" }");
    out
}

} // verus!
