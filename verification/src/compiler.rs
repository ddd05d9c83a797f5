//! The bytecode compiler: one walk over the syntax tree that emits into a
//! bytecode container, tracking a symbol table and a scope stack, and lowers
//! control flow by backpatching forward jumps.
//!
//! The whole walk is mirrored by the spec functions [`c_program`],
//! [`c_statement`] and [`c_expression`]: on success `compile` produces
//! exactly the bytes, constants and global bindings those functions compute,
//! and on failure an error of exactly the kind they name.

use vstd::prelude::*;

use crate::ast::Expression;
use crate::ast::Program;
use crate::ast::Statement;
use crate::instructions::Instructions;
use crate::instructions::decode_operands;
use crate::instructions::encode_operand;
use crate::instructions::encode_operands;
use crate::instructions::encoding;
use crate::object::Object;
use crate::object::Value;
use crate::object::arr_view;
use crate::object::lemma_arr_view;
use crate::object::lemma_arr_view_push;
use crate::opcode::Opcode;
use crate::opcode::opcode_of_byte;
use crate::opcode::tag_of;
use crate::opcode::widths_of;
use crate::strutil::str_eq;

verus! {

broadcast use vstd::std_specs::vec::group_vec_axioms, vstd::seq::group_seq_axioms, vstd::array::group_array_axioms, vstd::set::group_set_axioms;

/// An error that aborts compilation; the first one anywhere ends the whole
/// `compile` call with no partial output.
#[derive(Debug, PartialEq, Clone)]
pub enum CompilerError {
    /// A construct the bytecode backend does not support.
    Unsupported(String),
    /// A malformed expression.
    ExpressionError(String),
    /// An operator with no opcode mapping.
    UnknownOperator(String),
}

/// What the mirror of the compiler knows about a failure: its kind and its
/// text — the description of an unsupported construct, or the unknown
/// operator itself.
pub enum CompileFailure {
    Unsupported(Seq<char>),
    UnknownOperator(Seq<char>),
}

/// Whether an error value reports the given failure, text included.
pub open spec fn reports(e: CompilerError, k: CompileFailure) -> bool {
    match k {
        CompileFailure::Unsupported(s) => e matches CompilerError::Unsupported(t) && t@ == s,
        CompileFailure::UnknownOperator(s) => e matches CompilerError::UnknownOperator(t) && t@
            == s,
    }
}

/// The state the compiler threads through its walk: the bytes emitted so
/// far, the models of the constants pooled so far, and the names bound as
/// globals so far.
#[verifier::ext_equal]
pub struct CompilerState {
    pub code: Seq<u8>,
    pub consts: Seq<Value>,
    pub globals: Set<Seq<char>>,
}

/// The big-endian bytes that backpatching writes over a placeholder operand:
/// the low sixteen bits of the target offset.
pub open spec fn patched(code: Seq<u8>, site: int, target: int) -> Seq<u8> {
    code.update(site + 1, ((target / 256) % 256) as u8).update(site + 2, (target % 256) as u8)
}

/// The mirror of compiling one statement.
pub open spec fn c_statement(st: Statement, s: CompilerState) -> Result<
    CompilerState,
    CompileFailure,
>
    decreases st, 0int,
        via c_statement_decreases
{
    match st {
        Statement::Expression(es) => match c_expression(es.expression, s) {
            Ok(s1) => Ok(
                CompilerState {
                    code: s1.code + encoding(Opcode::Pop, seq![]),
                    consts: s1.consts,
                    globals: s1.globals,
                },
            ),
            Err(k) => Err(k),
        },
        Statement::Let(ls) => match c_expression(ls.value, s) {
            Ok(s1) => Ok(
                CompilerState {
                    code: s1.code + encoding(
                        Opcode::SetGlobal,
                        seq![(s1.consts.len() % 0x10000) as u16],
                    ),
                    consts: s1.consts.push(Value::Str(ls.name.value@)),
                    globals: s1.globals.insert(ls.name.value@),
                },
            ),
            Err(k) => Err(k),
        },
        Statement::Return(rs) => match c_expression(rs.return_value, s) {
            Ok(s1) => Ok(
                CompilerState {
                    code: s1.code + encoding(Opcode::Return, seq![]),
                    consts: s1.consts,
                    globals: s1.globals,
                },
            ),
            Err(k) => Err(k),
        },
        Statement::Block(bs) => c_statements(bs.statements@, 0, s),
        _ => Err(CompileFailure::Unsupported("statement form outside the bytecode subset"@)),
    }
}

/// The mirror of compiling the statements of a list from index `i` on.
pub open spec fn c_statements(stmts: Seq<Statement>, i: int, s: CompilerState) -> Result<
    CompilerState,
    CompileFailure,
>
    decreases stmts, stmts.len() - i,
        via c_statements_decreases
{
    if i < 0 || i >= stmts.len() {
        Ok(s)
    } else {
        match c_statement(stmts[i], s) {
            Ok(s1) => c_statements(stmts, i + 1, s1),
            Err(k) => Err(k),
        }
    }
}

/// The mirror of compiling one expression.
pub open spec fn c_expression(e: Expression, s: CompilerState) -> Result<
    CompilerState,
    CompileFailure,
>
    decreases e, 0int,
        via c_expression_decreases
{
    match e {
        Expression::IntegerLiteral(il) => Ok(
            CompilerState {
                code: s.code + encoding(Opcode::Constant, seq![(s.consts.len() % 0x10000) as u16]),
                consts: s.consts.push(Value::Integer(il.value)),
                globals: s.globals,
            },
        ),
        Expression::Boolean(bl) => Ok(
            CompilerState {
                code: s.code + encoding(
                    if bl.value {
                        Opcode::True
                    } else {
                        Opcode::False
                    },
                    seq![],
                ),
                consts: s.consts,
                globals: s.globals,
            },
        ),
        Expression::StringLiteral(sl) => Ok(
            CompilerState {
                code: s.code + encoding(Opcode::Constant, seq![(s.consts.len() % 0x10000) as u16]),
                consts: s.consts.push(Value::Str(sl.value@)),
                globals: s.globals,
            },
        ),
        Expression::Identifier(ident) => {
            if s.globals.contains(ident.value@) {
                Ok(
                    CompilerState {
                        code: s.code + encoding(
                            Opcode::GetGlobal,
                            seq![(s.consts.len() % 0x10000) as u16],
                        ),
                        consts: s.consts.push(Value::Str(ident.value@)),
                        globals: s.globals,
                    },
                )
            } else {
                Ok(
                    CompilerState {
                        code: s.code + encoding(Opcode::Null, seq![]),
                        consts: s.consts,
                        globals: s.globals,
                    },
                )
            }
        },
        Expression::Prefix(pe) => match c_expression(*pe.right, s) {
            Ok(s1) => {
                if pe.operator@ == "!"@ {
                    Ok(CompilerState { code: s1.code + encoding(Opcode::Not, seq![]), ..s1 })
                } else if pe.operator@ == "-"@ {
                    Ok(CompilerState { code: s1.code + encoding(Opcode::Neg, seq![]), ..s1 })
                } else {
                    Err(CompileFailure::UnknownOperator(pe.operator@))
                }
            },
            Err(k) => Err(k),
        },
        Expression::Infix(ie) => match c_expression(*ie.left, s) {
            Ok(s1) => match c_expression(*ie.right, s1) {
                Ok(s2) => match infix_opcode(ie.operator@) {
                    Some(op) => Ok(CompilerState { code: s2.code + encoding(op, seq![]), ..s2 }),
                    None => Err(CompileFailure::UnknownOperator(ie.operator@)),
                },
                Err(k) => Err(k),
            },
            Err(k) => Err(k),
        },
        Expression::If(if_expr) => match c_expression(*if_expr.condition, s) {
            Ok(s1) => {
                let site = s1.code.len() as int;
                let s2 = CompilerState {
                    code: s1.code + encoding(Opcode::JumpIfFalse, seq![0u16]),
                    ..s1
                };
                match c_statements(if_expr.consequence.statements@, 0, s2) {
                    Ok(s3) => {
                        let s4 = CompilerState {
                            code: patched(s3.code, site, s3.code.len() as int),
                            ..s3
                        };
                        match if_expr.alternative {
                            Some(alt) => {
                                let site2 = s4.code.len() as int;
                                let s5 = CompilerState {
                                    code: s4.code + encoding(Opcode::Jump, seq![0u16]),
                                    ..s4
                                };
                                match c_statements(alt.statements@, 0, s5) {
                                    Ok(s6) => Ok(
                                        CompilerState {
                                            code: patched(s6.code, site2, s6.code.len() as int),
                                            ..s6
                                        },
                                    ),
                                    Err(k) => Err(k),
                                }
                            },
                            None => Ok(s4),
                        }
                    },
                    Err(k) => Err(k),
                }
            },
            Err(k) => Err(k),
        },
        Expression::ArrayLiteral(al) => match c_expressions(al.elements@, 0, s) {
            Ok(s1) => Ok(
                CompilerState {
                    code: s1.code + encoding(
                        Opcode::Array,
                        seq![(al.elements@.len() % 0x10000) as u16],
                    ),
                    ..s1
                },
            ),
            Err(k) => Err(k),
        },
        _ => Err(CompileFailure::Unsupported("expression form outside the bytecode subset"@)),
    }
}

/// The mirror of compiling the expressions of a list from index `i` on.
pub open spec fn c_expressions(es: Seq<Expression>, i: int, s: CompilerState) -> Result<
    CompilerState,
    CompileFailure,
>
    decreases es, es.len() - i,
        via c_expressions_decreases
{
    if i < 0 || i >= es.len() {
        Ok(s)
    } else {
        match c_expression(es[i], s) {
            Ok(s1) => c_expressions(es, i + 1, s1),
            Err(k) => Err(k),
        }
    }
}

/// The mirror of compiling a whole program, statement by statement.
pub open spec fn c_program(prog: Program, s: CompilerState) -> Result<
    CompilerState,
    CompileFailure,
> {
    c_statements(prog.statements@, 0, s)
}

/// The opcode an infix operator lowers to, if any.
pub open spec fn infix_opcode(op: Seq<char>) -> Option<Opcode> {
    if op == "+"@ {
        Some(Opcode::Add)
    } else if op == "-"@ {
        Some(Opcode::Sub)
    } else if op == "*"@ {
        Some(Opcode::Mul)
    } else if op == "/"@ {
        Some(Opcode::Div)
    } else if op == "%"@ {
        Some(Opcode::Mod)
    } else if op == "**"@ {
        Some(Opcode::Pow)
    } else if op == "=="@ {
        Some(Opcode::Equal)
    } else if op == "!="@ {
        Some(Opcode::NotEqual)
    } else if op == ">"@ {
        Some(Opcode::GreaterThan)
    } else if op == "<"@ {
        Some(Opcode::LessThan)
    } else if op == ">="@ {
        Some(Opcode::GreaterThanOrEqual)
    } else if op == "<="@ {
        Some(Opcode::LessThanOrEqual)
    } else if op == "&&"@ {
        Some(Opcode::And)
    } else if op == "||"@ {
        Some(Opcode::Or)
    } else {
        None
    }
}

#[via_fn]
proof fn c_statement_decreases(st: Statement, s: CompilerState) {
    match st {
        Statement::Expression(es) => {
            assert(decreases_to!(st => es));
            assert(decreases_to!(es => es.expression));
        },
        Statement::Let(ls) => {
            assert(decreases_to!(st => ls));
            assert(decreases_to!(ls => ls.value));
        },
        Statement::Return(rs) => {
            assert(decreases_to!(st => rs));
            assert(decreases_to!(rs => rs.return_value));
        },
        Statement::Block(bs) => {
            assert(decreases_to!(st => bs));
            assert(decreases_to!(bs => bs.statements));
            assert(decreases_to!(bs.statements => bs.statements@));
        },
        _ => {},
    }
}

#[via_fn]
proof fn c_statements_decreases(stmts: Seq<Statement>, i: int, s: CompilerState) {
    if 0 <= i < stmts.len() {
        assert(decreases_to!(stmts => stmts[i]));
    }
}

#[via_fn]
proof fn c_expression_decreases(e: Expression, s: CompilerState) {
    match e {
        Expression::Prefix(pe) => {
            assert(decreases_to!(e => pe));
            assert(decreases_to!(pe => pe.right));
        },
        Expression::Infix(ie) => {
            assert(decreases_to!(e => ie));
            assert(decreases_to!(ie => ie.left));
            assert(decreases_to!(ie => ie.right));
        },
        Expression::If(if_expr) => {
            assert(decreases_to!(e => if_expr));
            assert(decreases_to!(if_expr => if_expr.condition));
            assert(decreases_to!(if_expr => if_expr.consequence));
            assert(decreases_to!(if_expr.consequence => if_expr.consequence.statements));
            assert(decreases_to!(if_expr.consequence.statements
                => if_expr.consequence.statements@));
            if let Some(alt) = if_expr.alternative {
                assert(decreases_to!(if_expr => if_expr.alternative));
                assert(decreases_to!(if_expr.alternative => alt));
                assert(decreases_to!(alt => alt.statements));
                assert(decreases_to!(alt.statements => alt.statements@));
            }
        },
        Expression::ArrayLiteral(al) => {
            assert(decreases_to!(e => al));
            assert(decreases_to!(al => al.elements));
            assert(decreases_to!(al.elements => al.elements@));
        },
        _ => {},
    }
}

#[via_fn]
proof fn c_expressions_decreases(es: Seq<Expression>, i: int, s: CompilerState) {
    if 0 <= i < es.len() {
        assert(decreases_to!(es => es[i]));
    }
}

/// The set of names a symbol table binds.
pub open spec fn sym_names(symbols: Seq<(String, SymbolInfo)>) -> Set<Seq<char>> {
    Set::new(
        |n: Seq<char>| exists|i: int| 0 <= i < symbols.len() && (#[trigger] symbols[i]).0@ == n,
    )
}

/// Recording one more binding adds exactly its name to the bound set.
proof fn lemma_sym_names_push(pre: Seq<(String, SymbolInfo)>, entry: (String, SymbolInfo))
    ensures
        sym_names(pre.push(entry)) == sym_names(pre).insert(entry.0@),
{
    assert forall|n: Seq<char>| #[trigger] sym_names(pre.push(entry)).contains(n) implies sym_names(
        pre,
    ).insert(entry.0@).contains(n) by {
        let i = choose|i: int| 0 <= i < pre.push(entry).len() && (#[trigger] pre.push(entry)[i]).0@
            == n;
        if i < pre.len() {
            assert(pre[i] == pre.push(entry)[i]);
            assert(sym_names(pre).contains(n));
        }
    }
    assert forall|n: Seq<char>| #[trigger] sym_names(pre).insert(entry.0@).contains(n) implies
        sym_names(pre.push(entry)).contains(n) by {
        if n == entry.0@ {
            assert(pre.push(entry)[pre.len() as int].0@ == n);
        } else {
            let i = choose|i: int| 0 <= i < pre.len() && (#[trigger] pre[i]).0@ == n;
            assert(pre.push(entry)[i].0@ == n);
        }
    }
    assert(sym_names(pre.push(entry)) =~= sym_names(pre).insert(entry.0@));
}

/// A local variable of the current scope: its name and its stack slot.
#[derive(Debug, Clone)]
struct LocalVariable {
    name: String,
    index: usize,
}

/// One scope: its locals in declaration order.
#[derive(Debug, Clone)]
struct Scope {
    locals: Vec<LocalVariable>,
    num_locals: usize,
}

/// What the symbol table records about one name.
#[derive(Debug, Clone)]
pub struct SymbolInfo {
    name: String,
    is_global: bool,
    index: usize,
}

/// The compiler: the container it emits into, a symbol table, and a scope
/// stack. The current backend supports exactly one flat scope with no
/// locals, so every binding is global.
pub struct Compiler {
    instructions: Instructions,
    symbols: Vec<(String, SymbolInfo)>,
    scopes: Vec<Scope>,
    scope_index: usize,
}

/// The low sixteen bits of an index, as the operand that encodes it.
fn low16(x: usize) -> (r: u16)
    ensures
        r == (x % 0x10000) as u16,
{
    let wide: u64 = x as u64;
    proof {
        assert((wide as u16) == ((wide % 0x10000) as u16) && wide % 0x10000 < 0x10000)
            by (bit_vector);
        assert(wide % 0x10000 == x % 0x10000);
    }
    #[verifier::truncate] (wide as u16)
}

impl Compiler {
    /// The names the symbol table holds.
    pub closed spec fn global_names(&self) -> Set<Seq<char>> {
        sym_names(self.symbols@)
    }

    /// The compiler's well-formedness: one flat scope with no locals, and a
    /// symbol table of global bindings only. `new` establishes it and
    /// `compile` preserves it.
    pub closed spec fn wf(&self) -> bool {
        &&& self.scopes@.len() == 1
        &&& self.scope_index == 0
        &&& self.scopes@[0].locals@.len() == 0
        &&& forall|i: int| 0 <= i < self.symbols@.len() ==> (#[trigger] self.symbols@[i]).1.is_global
    }

    /// The mirror state this compiler stands at.
    pub closed spec fn state(&self) -> CompilerState {
        CompilerState {
            code: self.instructions.bytes@,
            consts: arr_view(self.instructions.constants@),
            globals: self.global_names(),
        }
    }

    /// A fresh compiler: empty container, empty symbol table, one empty
    /// scope.
    pub fn new() -> (r: Compiler)
        ensures
            r.wf(),
            r.state() == (CompilerState {
                code: Seq::<u8>::empty(),
                consts: Seq::<Value>::empty(),
                globals: Set::<Seq<char>>::empty(),
            }),
    {
        let mut scopes: Vec<Scope> = Vec::new();
        scopes.push(Scope { locals: Vec::new(), num_locals: 0 });
        let r = Compiler { instructions: Instructions::new(), symbols: Vec::new(), scopes, scope_index: 0 };
        proof {
            assert(r.global_names() =~= Set::<Seq<char>>::empty());
            assert(arr_view(r.instructions.constants@) =~= Seq::<Value>::empty());
        }
        r
    }

    /// Whether the name is a local of the current scope.
    fn is_local(&self, name: &str) -> (r: bool)
        requires
            self.scope_index < self.scopes@.len(),
        ensures
            r == exists|i: int|
                0 <= i < self.scopes@[self.scope_index as int].locals@.len() && (
                #[trigger] self.scopes@[self.scope_index as int].locals@[i]).name@ == name@,
    {
        let mut i: usize = 0;
        let n = self.scopes[self.scope_index].locals.len();
        while i < n
            invariant
                i <= n,
                self.scope_index < self.scopes@.len(),
                n == self.scopes@[self.scope_index as int].locals@.len(),
                forall|j: int|
                    0 <= j < i as int ==> (#[trigger] self.scopes@[self.scope_index as int].locals@[j]).name@
                        != name@,
            decreases n - i,
        {
            if str_eq(self.scopes[self.scope_index].locals[i].name.as_str(), name) {
                return true;
            }
            i = i + 1;
        }
        false
    }

    /// Whether the symbol table binds the name.
    fn has_symbol(&self, name: &str) -> (r: bool)
        ensures
            r == self.global_names().contains(name@),
    {
        let mut i: usize = 0;
        while i < self.symbols.len()
            invariant
                i <= self.symbols@.len(),
                forall|j: int| 0 <= j < i as int ==> (#[trigger] self.symbols@[j]).0@ != name@,
            decreases self.symbols@.len() - i,
        {
            if str_eq(self.symbols[i].0.as_str(), name) {
                proof {
                    assert(self.global_names().contains(name@));
                }
                return true;
            }
            i = i + 1;
        }
        proof {
            assert(!self.global_names().contains(name@));
        }
        false
    }

    /// Compiles a program into one container: its statements in declaration
    /// order, each through [`Self::compile_statement`]. On the first
    /// unsupported construct or unknown operator, compilation aborts with
    /// that error and no usable output.
    ///
    /// Every bare expression statement ends in a trailing `Pop` that
    /// discards exactly the one value it produced. A program's result is
    /// therefore observed through `return` or the globals it binds: a
    /// program that is nothing but a bare expression runs to `Null`, and a
    /// bare `if` statement, whose branches already popped their own values,
    /// runs to a stack underflow.
    pub fn compile(&mut self, program: &Program) -> (r: Result<Instructions, CompilerError>)
        requires
            old(self).wf(),
        ensures
            final(self).wf(),
            match c_program(*program, old(self).state()) {
                Ok(st) => r matches Ok(ins) && ins.bytes@ == st.code && arr_view(ins.constants@)
                    == st.consts && final(self).state() == st,
                Err(k) => r matches Err(e) && reports(e, k),
            },
    {
        let r = self.compile_statements_from(&program.statements);
        match r {
            Ok(_) => Ok(self.instructions.duplicate()),
            Err(e) => Err(e),
        }
    }

    /// Compiles every statement of the list, in order, stopping at the first
    /// error.
    fn compile_statements_from(&mut self, stmts: &Vec<Statement>) -> (r: Result<
        (),
        CompilerError,
    >)
        requires
            old(self).wf(),
        ensures
            final(self).wf(),
            match c_statements(stmts@, 0, old(self).state()) {
                Ok(st) => r is Ok && final(self).state() == st,
                Err(k) => r matches Err(e) && reports(e, k),
            },
        decreases *stmts, 1int, 0int,
    {
        let ghost start = self.state();
        let mut i: usize = 0;
        while i < stmts.len()
            invariant
                i <= stmts@.len(),
                self.wf(),
                start == old(self).state(),
                c_statements(stmts@, i as int, self.state()) == c_statements(stmts@, 0, start),
            decreases stmts@.len() - i,
        {
            proof {
                assert(decreases_to!(stmts => stmts@));
                assert(decreases_to!(stmts@ => stmts@[i as int]));
            }
            let ghost pre = self.state();
            let r = self.compile_statement(&stmts[i]);
            if let Err(e) = r {
                proof {
                    assert(c_statements(stmts@, i as int, pre) == c_statements(stmts@, 0, start));
                }
                return Err(e);
            }
            i = i + 1;
        }
        Ok(())
    }

    /// Compiles one statement.
    fn compile_statement(&mut self, statement: &Statement) -> (r: Result<(), CompilerError>)
        requires
            old(self).wf(),
        ensures
            final(self).wf(),
            match c_statement(*statement, old(self).state()) {
                Ok(st) => r is Ok && final(self).state() == st,
                Err(k) => r matches Err(e) && reports(e, k),
            },
        decreases *statement, 0int, 1int,
    {
        match statement {
            Statement::Expression(expr_stmt) => {
                proof {
                    assert(decreases_to!(*expr_stmt => expr_stmt.expression));
                }
                let r = self.compile_expression(&expr_stmt.expression);
                if let Err(e) = r {
                    return Err(e);
                }
                self.emit0(Opcode::Pop);
                Ok(())
            },
            Statement::Let(let_stmt) => {
                proof {
                    assert(decreases_to!(*let_stmt => let_stmt.value));
                }
                let r = self.compile_expression(&let_stmt.value);
                if let Err(e) = r {
                    return Err(e);
                }
                let var_name = let_stmt.name.value.clone();
                let ghost consts_before = self.instructions.constants@;
                let name_idx = self.instructions.add_constant(Object::String(var_name.clone()));
                proof {
                    lemma_arr_view(consts_before);
                    lemma_arr_view_push(consts_before, Object::String(let_stmt.name.value));
                }
                let operand: u16 = low16(name_idx);
                self.emit1(Opcode::SetGlobal, operand);
                let ghost syms_before = self.symbols@;
                self.symbols.push(
                    (
                        var_name,
                        SymbolInfo {
                            name: let_stmt.name.value.clone(),
                            is_global: true,
                            index: name_idx,
                        },
                    ),
                );
                proof {
                    lemma_sym_names_push(syms_before, self.symbols@.last());
                    let st = c_statement(*statement, old(self).state())->Ok_0;
                    assert(self.state().code =~= st.code);
                    assert(self.state().consts =~= st.consts);
                    assert(self.state().globals =~= st.globals);
                    assert(self.state() =~= st);
                }
                Ok(())
            },
            Statement::Return(ret_stmt) => {
                proof {
                    assert(decreases_to!(*ret_stmt => ret_stmt.return_value));
                }
                let r = self.compile_expression(&ret_stmt.return_value);
                if let Err(e) = r {
                    return Err(e);
                }
                self.emit0(Opcode::Return);
                Ok(())
            },
            Statement::Block(block_stmt) => {
                proof {
                    assert(decreases_to!(*block_stmt => block_stmt.statements));
                }
                self.compile_statements_from(&block_stmt.statements)
            },
            _ => Err(
                CompilerError::Unsupported(
                    String::from_str("statement form outside the bytecode subset"),
                ),
            ),
        }
    }

    /// Compiles every expression of the list, in order, stopping at the
    /// first error.
    fn compile_expressions_from(&mut self, exprs: &Vec<Expression>) -> (r: Result<
        (),
        CompilerError,
    >)
        requires
            old(self).wf(),
        ensures
            final(self).wf(),
            match c_expressions(exprs@, 0, old(self).state()) {
                Ok(st) => r is Ok && final(self).state() == st,
                Err(k) => r matches Err(e) && reports(e, k),
            },
        decreases *exprs, 1int, 0int,
    {
        let ghost start = self.state();
        let mut i: usize = 0;
        while i < exprs.len()
            invariant
                i <= exprs@.len(),
                self.wf(),
                start == old(self).state(),
                c_expressions(exprs@, i as int, self.state()) == c_expressions(exprs@, 0, start),
            decreases exprs@.len() - i,
        {
            proof {
                assert(decreases_to!(exprs => exprs@));
                assert(decreases_to!(exprs@ => exprs@[i as int]));
            }
            let ghost pre = self.state();
            let r = self.compile_expression(&exprs[i]);
            if let Err(e) = r {
                proof {
                    assert(c_expressions(exprs@, i as int, pre) == c_expressions(exprs@, 0, start));
                }
                return Err(e);
            }
            i = i + 1;
        }
        Ok(())
    }

    /// Compiles one expression.
    #[verifier::rlimit(50)]
    fn compile_expression(&mut self, expression: &Expression) -> (r: Result<(), CompilerError>)
        requires
            old(self).wf(),
        ensures
            final(self).wf(),
            match c_expression(*expression, old(self).state()) {
                Ok(st) => r is Ok && final(self).state() == st,
                Err(k) => r matches Err(e) && reports(e, k),
            },
        decreases *expression, 0int, 1int,
    {
        match expression {
            Expression::IntegerLiteral(il) => {
                let const_idx = self.instructions.add_constant(Object::Integer(il.value));
                proof {
                    lemma_arr_view(old(self).instructions.constants@);
                    lemma_arr_view_push(old(self).instructions.constants@, Object::Integer(il.value));
                }
                let operand: u16 = low16(const_idx);
                self.emit1(Opcode::Constant, operand);
                proof {
                    let st = c_expression(*expression, old(self).state())->Ok_0;
                    assert(self.state().code =~= st.code);
                    assert(self.state().consts =~= st.consts);
                    assert(self.state().globals =~= st.globals);
                    assert(self.state() =~= st);
                }
                Ok(())
            },
            Expression::Boolean(bl) => {
                if bl.value {
                    self.emit0(Opcode::True);
                } else {
                    self.emit0(Opcode::False);
                }
                Ok(())
            },
            Expression::StringLiteral(sl) => {
                let const_idx = self.instructions.add_constant(Object::String(sl.value.clone()));
                proof {
                    lemma_arr_view(old(self).instructions.constants@);
                    lemma_arr_view_push(old(self).instructions.constants@, Object::String(sl.value));
                }
                let operand: u16 = low16(const_idx);
                self.emit1(Opcode::Constant, operand);
                Ok(())
            },
            Expression::Identifier(ident) => {
                if self.is_local(ident.value.as_str()) {
                    // Unreachable while the scope stack stays flat and empty;
                    // kept so the resolution order reads as designed: locals
                    // first, then globals, then the null fallback.
                    let scope = &self.scopes[self.scope_index];
                    let mut i: usize = 0;
                    let mut slot: usize = 0;
                    let mut found: bool = false;
                    while i < scope.locals.len()
                        invariant
                            self.wf(),
                        decreases scope.locals@.len() - i,
                    {
                        if str_eq(scope.locals[i].name.as_str(), ident.value.as_str()) {
                            if !found {
                                slot = scope.locals[i].index;
                                found = true;
                            }
                        }
                        i = i + 1;
                    }
                    if found {
                        let operand: u16 = low16(slot);
                        self.emit1(Opcode::GetLocal, operand);
                    }
                    Ok(())
                } else if self.has_symbol(ident.value.as_str()) {
                    let const_idx = self.instructions.add_constant(
                        Object::String(ident.value.clone()),
                    );
                    proof {
                        lemma_arr_view(old(self).instructions.constants@);
                        lemma_arr_view_push(
                            old(self).instructions.constants@,
                            Object::String(ident.value),
                        );
                    }
                    let operand: u16 = low16(const_idx);
                    self.emit1(Opcode::GetGlobal, operand);
                    Ok(())
                } else {
                    self.emit0(Opcode::Null);
                    Ok(())
                }
            },
            Expression::Prefix(pe) => {
                proof {
                    assert(decreases_to!(*pe => pe.right));
                }
                let r = self.compile_expression(&pe.right);
                if let Err(e) = r {
                    return Err(e);
                }
                if str_eq(pe.operator.as_str(), "!") {
                    self.emit0(Opcode::Not);
                    Ok(())
                } else if str_eq(pe.operator.as_str(), "-") {
                    self.emit0(Opcode::Neg);
                    Ok(())
                } else {
                    Err(CompilerError::UnknownOperator(pe.operator.clone()))
                }
            },
            Expression::Infix(ie) => {
                proof {
                    assert(decreases_to!(*ie => ie.left));
                    assert(decreases_to!(*ie => ie.right));
                }
                let r = self.compile_expression(&ie.left);
                if let Err(e) = r {
                    return Err(e);
                }
                let r2 = self.compile_expression(&ie.right);
                if let Err(e) = r2 {
                    return Err(e);
                }
                let op = ie.operator.as_str();
                if str_eq(op, "+") {
                    self.emit0(Opcode::Add);
                } else if str_eq(op, "-") {
                    self.emit0(Opcode::Sub);
                } else if str_eq(op, "*") {
                    self.emit0(Opcode::Mul);
                } else if str_eq(op, "/") {
                    self.emit0(Opcode::Div);
                } else if str_eq(op, "%") {
                    self.emit0(Opcode::Mod);
                } else if str_eq(op, "**") {
                    self.emit0(Opcode::Pow);
                } else if str_eq(op, "==") {
                    self.emit0(Opcode::Equal);
                } else if str_eq(op, "!=") {
                    self.emit0(Opcode::NotEqual);
                } else if str_eq(op, ">") {
                    self.emit0(Opcode::GreaterThan);
                } else if str_eq(op, "<") {
                    self.emit0(Opcode::LessThan);
                } else if str_eq(op, ">=") {
                    self.emit0(Opcode::GreaterThanOrEqual);
                } else if str_eq(op, "<=") {
                    self.emit0(Opcode::LessThanOrEqual);
                } else if str_eq(op, "&&") {
                    self.emit0(Opcode::And);
                } else if str_eq(op, "||") {
                    self.emit0(Opcode::Or);
                } else {
                    return Err(CompilerError::UnknownOperator(ie.operator.clone()));
                }
                Ok(())
            },
            Expression::If(if_expr) => {
                proof {
                    assert(decreases_to!(*if_expr => if_expr.condition));
                    assert(decreases_to!(*if_expr => if_expr.consequence));
                    assert(decreases_to!(if_expr.consequence => if_expr.consequence.statements));
                }
                let r = self.compile_expression(&if_expr.condition);
                if let Err(e) = r {
                    return Err(e);
                }
                let jump_if_false_pos = self.instructions.bytes.len();
                self.emit1(Opcode::JumpIfFalse, 0u16);

                let ghost s2 = self.state();
                let r2 = self.compile_statements_from(&if_expr.consequence.statements);
                if let Err(e) = r2 {
                    return Err(e);
                }
                proof {
                    lemma_c_statements_extends(if_expr.consequence.statements@, 0, s2);
                }
                let target = self.instructions.bytes.len();
                let high = ((target / 256) % 256) as u8;
                let low = (target % 256) as u8;
                self.instructions.bytes[jump_if_false_pos + 1] = high;
                self.instructions.bytes[jump_if_false_pos + 2] = low;

                if let Some(alt) = &if_expr.alternative {
                    proof {
                        assert(decreases_to!(*if_expr => if_expr.alternative));
                        assert(decreases_to!(*alt => alt.statements));
                    }
                    let jump_pos = self.instructions.bytes.len();
                    self.emit1(Opcode::Jump, 0u16);

                    let ghost s5 = self.state();
                    let r3 = self.compile_statements_from(&alt.statements);
                    if let Err(e) = r3 {
                        return Err(e);
                    }
                    proof {
                        lemma_c_statements_extends(alt.statements@, 0, s5);
                    }
                    let target2 = self.instructions.bytes.len();
                    let high2 = ((target2 / 256) % 256) as u8;
                    let low2 = (target2 % 256) as u8;
                    self.instructions.bytes[jump_pos + 1] = high2;
                    self.instructions.bytes[jump_pos + 2] = low2;
                }
                Ok(())
            },
            Expression::ArrayLiteral(arr_expr) => {
                proof {
                    assert(decreases_to!(*arr_expr => arr_expr.elements));
                }
                let r = self.compile_expressions_from(&arr_expr.elements);
                if let Err(e) = r {
                    return Err(e);
                }
                let operand: u16 = low16(arr_expr.elements.len());
                self.emit1(Opcode::Array, operand);
                Ok(())
            },
            _ => Err(
                CompilerError::Unsupported(
                    String::from_str("expression form outside the bytecode subset"),
                ),
            ),
        }
    }

    /// Emits one operand-less instruction into the container, leaving the
    /// symbol table and scopes alone.
    fn emit0(&mut self, op: Opcode) -> (pos: usize)
        requires
            crate::opcode::widths_of(op).len() == 0,
        ensures
            final(self).instructions.bytes@ == old(self).instructions.bytes@ + encoding(
                op,
                seq![],
            ),
            final(self).instructions.constants == old(self).instructions.constants,
            final(self).symbols == old(self).symbols,
            final(self).scopes == old(self).scopes,
            final(self).scope_index == old(self).scope_index,
            final(self).global_names() == old(self).global_names(),
            pos == old(self).instructions.bytes@.len(),
    {
        let ops: [u16; 0] = [];
        let pos = self.instructions.emit(op, &ops);
        proof {
            assert(ops@ =~= Seq::<u16>::empty());
            assert(encoding(op, ops@) =~= encoding(op, seq![]));
        }
        pos
    }

    /// Emits one single-operand instruction into the container, leaving the
    /// symbol table and scopes alone.
    fn emit1(&mut self, op: Opcode, operand: u16) -> (pos: usize)
        requires
            crate::opcode::widths_of(op).len() == 1,
        ensures
            final(self).instructions.bytes@ == old(self).instructions.bytes@ + encoding(
                op,
                seq![operand],
            ),
            final(self).instructions.constants == old(self).instructions.constants,
            final(self).symbols == old(self).symbols,
            final(self).scopes == old(self).scopes,
            final(self).scope_index == old(self).scope_index,
            final(self).global_names() == old(self).global_names(),
            pos == old(self).instructions.bytes@.len(),
    {
        let ops: [u16; 1] = [operand];
        let pos = self.instructions.emit(op, &ops);
        proof {
            assert(ops@ =~= seq![operand]);
            assert(encoding(op, ops@) =~= encoding(op, seq![operand]));
        }
        pos
    }
}


/// `a` is an unchanged initial segment of `b`.
pub open spec fn prefix_of(a: Seq<u8>, b: Seq<u8>) -> bool {
    a.len() <= b.len() && b.take(a.len() as int) == a
}

/// Prefixes compose.
proof fn lemma_prefix_trans(a: Seq<u8>, b: Seq<u8>, c: Seq<u8>)
    requires
        prefix_of(a, b),
        prefix_of(b, c),
    ensures
        prefix_of(a, c),
{
    assert(c.take(a.len() as int) =~= b.take(a.len() as int));
}

/// Appending preserves the prefix.
proof fn lemma_prefix_append(a: Seq<u8>, ext: Seq<u8>)
    ensures
        prefix_of(a, a + ext),
{
    assert((a + ext).take(a.len() as int) =~= a);
}

/// Patching at or past the end of the prefix preserves it.
proof fn lemma_prefix_patch(a: Seq<u8>, b: Seq<u8>, site: int, target: int)
    requires
        prefix_of(a, b),
        site >= a.len(),
        0 <= site,
        site + 2 < b.len(),
    ensures
        prefix_of(a, patched(b, site, target)),
{
    assert forall|j: int| 0 <= j < a.len() implies patched(b, site, target).take(a.len() as int)[j]
        == b.take(a.len() as int)[j] by {
        assert(patched(b, site, target)[j] == b[j]);
    }
    assert(patched(b, site, target).take(a.len() as int) =~= b.take(a.len() as int));
}

/// A successful mirror run only ever appends code, and patches only sites it
/// emitted itself: the bytes it starts from stay exactly in place, so earlier
/// patch sites and jump targets stay in bounds and untouched.
pub proof fn lemma_c_statements_extends(stmts: Seq<Statement>, i: int, s: CompilerState)
    ensures
        c_statements(stmts, i, s) matches Ok(st) ==> prefix_of(s.code, st.code),
    decreases stmts, stmts.len() - i, 1int,
{
    assert(s.code.take(s.code.len() as int) =~= s.code);
    if 0 <= i < stmts.len() {
        if let Ok(s1) = c_statement(stmts[i], s) {
            assert(decreases_to!(stmts => stmts[i]));
            lemma_c_statement_extends(stmts[i], s);
            lemma_c_statements_extends(stmts, i + 1, s1);
            if c_statements(stmts, i + 1, s1) is Ok {
                lemma_prefix_trans(s.code, s1.code, c_statements(stmts, i + 1, s1)->Ok_0.code);
            }
        }
    }
}

/// As [`lemma_c_statements_extends`], for one statement.
pub proof fn lemma_c_statement_extends(st: Statement, s: CompilerState)
    ensures
        c_statement(st, s) matches Ok(st1) ==> prefix_of(s.code, st1.code),
    decreases st, 0int, 2int,
{
    match st {
        Statement::Expression(es) => {
            assert(decreases_to!(st => es));
            assert(decreases_to!(es => es.expression));
            lemma_c_expression_extends(es.expression, s);
            if let Ok(s1) = c_expression(es.expression, s) {
                lemma_prefix_append(s1.code, encoding(Opcode::Pop, seq![]));
                lemma_prefix_trans(s.code, s1.code, s1.code + encoding(Opcode::Pop, seq![]));
            }
        },
        Statement::Let(ls) => {
            assert(decreases_to!(st => ls));
            assert(decreases_to!(ls => ls.value));
            lemma_c_expression_extends(ls.value, s);
            if let Ok(s1) = c_expression(ls.value, s) {
                let ext = encoding(Opcode::SetGlobal, seq![(s1.consts.len() % 0x10000) as u16]);
                lemma_prefix_append(s1.code, ext);
                lemma_prefix_trans(s.code, s1.code, s1.code + ext);
            }
        },
        Statement::Return(rs) => {
            assert(decreases_to!(st => rs));
            assert(decreases_to!(rs => rs.return_value));
            lemma_c_expression_extends(rs.return_value, s);
            if let Ok(s1) = c_expression(rs.return_value, s) {
                lemma_prefix_append(s1.code, encoding(Opcode::Return, seq![]));
                lemma_prefix_trans(s.code, s1.code, s1.code + encoding(Opcode::Return, seq![]));
            }
        },
        Statement::Block(bs) => {
            assert(decreases_to!(st => bs));
            assert(decreases_to!(bs => bs.statements));
            assert(decreases_to!(bs.statements => bs.statements@));
            lemma_c_statements_extends(bs.statements@, 0, s);
        },
        _ => {},
    }
}

/// As [`lemma_c_statements_extends`], for a list of expressions.
pub proof fn lemma_c_expressions_extends(es: Seq<Expression>, i: int, s: CompilerState)
    ensures
        c_expressions(es, i, s) matches Ok(st) ==> prefix_of(s.code, st.code),
    decreases es, es.len() - i, 1int,
{
    assert(s.code.take(s.code.len() as int) =~= s.code);
    if 0 <= i < es.len() {
        if let Ok(s1) = c_expression(es[i], s) {
            assert(decreases_to!(es => es[i]));
            lemma_c_expression_extends(es[i], s);
            lemma_c_expressions_extends(es, i + 1, s1);
            if c_expressions(es, i + 1, s1) is Ok {
                lemma_prefix_trans(s.code, s1.code, c_expressions(es, i + 1, s1)->Ok_0.code);
            }
        }
    }
}

/// As [`lemma_c_statements_extends`], for one expression.
pub proof fn lemma_c_expression_extends(e: Expression, s: CompilerState)
    ensures
        c_expression(e, s) matches Ok(st1) ==> prefix_of(s.code, st1.code),
    decreases e, 0int, 2int,
{
    assert(s.code.take(s.code.len() as int) =~= s.code);
    match e {
        Expression::Prefix(pe) => {
            assert(decreases_to!(e => pe));
            assert(decreases_to!(pe => pe.right));
            assert(e->Prefix_0 == pe);
            lemma_c_expression_extends(*pe.right, s);
            if let Ok(s1) = c_expression(*pe.right, s) {
                if pe.operator@ == "!"@ {
                    lemma_prefix_append(s1.code, encoding(Opcode::Not, seq![]));
                    lemma_prefix_trans(s.code, s1.code, s1.code + encoding(Opcode::Not, seq![]));
                } else if pe.operator@ == "-"@ {
                    lemma_prefix_append(s1.code, encoding(Opcode::Neg, seq![]));
                    lemma_prefix_trans(s.code, s1.code, s1.code + encoding(Opcode::Neg, seq![]));
                }
                if c_expression(e, s) is Ok {
                    assert(prefix_of(s.code, c_expression(e, s)->Ok_0.code));
                }
            }
        },
        Expression::Infix(ie) => {
            assert(decreases_to!(e => ie));
            assert(decreases_to!(ie => ie.left));
            assert(decreases_to!(ie => ie.right));
            lemma_c_expression_extends(*ie.left, s);
            if let Ok(s1) = c_expression(*ie.left, s) {
                lemma_c_expression_extends(*ie.right, s1);
                if let Ok(s2) = c_expression(*ie.right, s1) {
                    lemma_prefix_trans(s.code, s1.code, s2.code);
                    if let Some(op) = infix_opcode(ie.operator@) {
                        lemma_prefix_append(s2.code, encoding(op, seq![]));
                        lemma_prefix_trans(s.code, s2.code, s2.code + encoding(op, seq![]));
                    }
                }
            }
        },
        Expression::If(if_expr) => {
            assert(decreases_to!(e => if_expr));
            assert(decreases_to!(if_expr => if_expr.condition));
            assert(decreases_to!(if_expr => if_expr.consequence));
            assert(decreases_to!(if_expr.consequence => if_expr.consequence.statements));
            assert(decreases_to!(if_expr.consequence.statements
                => if_expr.consequence.statements@));
            lemma_c_expression_extends(*if_expr.condition, s);
            if let Ok(s1) = c_expression(*if_expr.condition, s) {
                let s2 = CompilerState {
                    code: s1.code + encoding(Opcode::JumpIfFalse, seq![0u16]),
                    ..s1
                };
                lemma_prefix_append(s1.code, encoding(Opcode::JumpIfFalse, seq![0u16]));
                lemma_prefix_trans(s.code, s1.code, s2.code);
                lemma_c_statements_extends(if_expr.consequence.statements@, 0, s2);
                if let Ok(s3) = c_statements(if_expr.consequence.statements@, 0, s2) {
                    lemma_prefix_trans(s.code, s2.code, s3.code);
                    let s4 = CompilerState {
                        code: patched(s3.code, s1.code.len() as int, s3.code.len() as int),
                        ..s3
                    };
                    lemma_prefix_patch(s.code, s3.code, s1.code.len() as int, s3.code.len() as int);
                    if let Some(alt) = if_expr.alternative {
                        assert(decreases_to!(if_expr => if_expr.alternative));
                        assert(decreases_to!(if_expr.alternative => alt));
                        assert(decreases_to!(alt => alt.statements));
                        assert(decreases_to!(alt.statements => alt.statements@));
                        let s5 = CompilerState {
                            code: s4.code + encoding(Opcode::Jump, seq![0u16]),
                            ..s4
                        };
                        lemma_prefix_append(s4.code, encoding(Opcode::Jump, seq![0u16]));
                        lemma_prefix_trans(s.code, s4.code, s5.code);
                        lemma_c_statements_extends(alt.statements@, 0, s5);
                        if let Ok(s6) = c_statements(alt.statements@, 0, s5) {
                            lemma_prefix_trans(s.code, s5.code, s6.code);
                            lemma_prefix_patch(
                                s.code,
                                s6.code,
                                s4.code.len() as int,
                                s6.code.len() as int,
                            );
                        }
                    }
                }
            }
        },
        Expression::ArrayLiteral(al) => {
            assert(decreases_to!(e => al));
            assert(decreases_to!(al => al.elements));
            assert(decreases_to!(al.elements => al.elements@));
            lemma_c_expressions_extends(al.elements@, 0, s);
            if let Ok(s1) = c_expressions(al.elements@, 0, s) {
                let ext = encoding(Opcode::Array, seq![(al.elements@.len() % 0x10000) as u16]);
                lemma_prefix_append(s1.code, ext);
                lemma_prefix_trans(s.code, s1.code, s1.code + ext);
            }
        },
        Expression::IntegerLiteral(_) | Expression::StringLiteral(_) => {
            lemma_prefix_append(s.code, encoding(Opcode::Constant, seq![(s.consts.len() % 0x10000) as u16]));
        },
        Expression::Boolean(bl) => {
            lemma_prefix_append(s.code, encoding(Opcode::True, seq![]));
            lemma_prefix_append(s.code, encoding(Opcode::False, seq![]));
        },
        Expression::Identifier(_) => {
            lemma_prefix_append(s.code, encoding(Opcode::GetGlobal, seq![(s.consts.len() % 0x10000) as u16]));
            lemma_prefix_append(s.code, encoding(Opcode::Null, seq![]));
        },
        _ => {},
    }
}


/// Backpatch correctness: when compiling an `if` expression succeeds, the
/// conditional jump emitted right after the condition is patched with the
/// offset just past the consequence, which lies at least three bytes beyond
/// the patch site; within the addressing ceiling of two-byte operands its
/// operand byte pair is therefore never left as the zero placeholder.
pub proof fn lemma_if_backpatched(if_expr: crate::ast::IfExpression, s: CompilerState)
    requires
        c_expression(Expression::If(if_expr), s) is Ok,
    ensures
        ({
            let e = Expression::If(if_expr);
            let s1 = c_expression(*if_expr.condition, s)->Ok_0;
            let site = s1.code.len() as int;
            let st = c_expression(e, s)->Ok_0;
            &&& st.code.len() >= site + 3
            &&& (st.code.len() < 0x10000 ==> !(st.code[site + 1] == 0 && st.code[site + 2] == 0))
        }),
{
    let e = Expression::If(if_expr);
    let s1 = c_expression(*if_expr.condition, s)->Ok_0;
    let site = s1.code.len() as int;
    let s2 = CompilerState { code: s1.code + encoding(Opcode::JumpIfFalse, seq![0u16]), ..s1 };
    assert(encode_operands(widths_of(Opcode::JumpIfFalse).skip(1), seq![0u16].skip(1)) =~= seq![]);
    assert(encoding(Opcode::JumpIfFalse, seq![0u16]).len() == 3);
    assert(s2.code.len() == site + 3);
    lemma_c_statements_extends(if_expr.consequence.statements@, 0, s2);
    let s3 = c_statements(if_expr.consequence.statements@, 0, s2)->Ok_0;
    let target = s3.code.len() as int;
    assert(target >= site + 3);
    let s4 = CompilerState { code: patched(s3.code, site, target), ..s3 };
    let hi = ((target / 256) % 256) as u8;
    let lo = (target % 256) as u8;
    assert(s4.code[site + 1] == hi && s4.code[site + 2] == lo);
    let st = c_expression(e, s)->Ok_0;
    match if_expr.alternative {
        Some(alt) => {
            let site2 = s4.code.len() as int;
            let s5 = CompilerState { code: s4.code + encoding(Opcode::Jump, seq![0u16]), ..s4 };
            assert(encode_operands(widths_of(Opcode::Jump).skip(1), seq![0u16].skip(1)) =~= seq![]);
            assert(encoding(Opcode::Jump, seq![0u16]).len() == 3);
            lemma_prefix_append(s4.code, encoding(Opcode::Jump, seq![0u16]));
            lemma_c_statements_extends(alt.statements@, 0, s5);
            let s6 = c_statements(alt.statements@, 0, s5)->Ok_0;
            lemma_prefix_trans(s4.code, s5.code, s6.code);
            assert(s6.code.len() >= site2 + 3);
            assert(st.code == patched(s6.code, site2, s6.code.len() as int));
            assert(s6.code[site + 1] == s6.code.take(s4.code.len() as int)[site + 1]);
            assert(s6.code[site + 2] == s6.code.take(s4.code.len() as int)[site + 2]);
            assert(st.code[site + 1] == hi && st.code[site + 2] == lo);
            assert(st.code.len() >= site + 3);
        },
        None => {
            assert(st == s4);
        },
    }
    if st.code.len() < 0x10000 {
        assert(0 < target < 0x10000);
        assert(hi == target / 256 && lo == target % 256);
        if hi == 0 && lo == 0 {
            assert(target == 256 * (target / 256) + target % 256);
            assert(false);
        }
    }
}


/// The jump family: opcodes whose two-byte operand is a code offset.
pub open spec fn is_jump(op: Opcode) -> bool {
    op == Opcode::Jump || op == Opcode::JumpIfFalse || op == Opcode::JumpIfTrue
}

/// The number of operand bytes an opcode's instruction carries.
pub open spec fn operand_width(op: Opcode) -> int {
    if widths_of(op).len() == 0 {
        0
    } else {
        widths_of(op)[0] as int
    }
}

/// The bytes from `i` to `end` decode as a sequence of whole instructions,
/// and every jump among them carries the low sixteen bits of a target that
/// was positive and at most `cap` when it was written: while `cap` stays
/// under the two-byte addressing ceiling, no jump operand pair is left as
/// the zero placeholder.
pub open spec fn patched_region(code: Seq<u8>, i: int, end: int, cap: int) -> bool
    decreases end - i,
        via patched_region_decreases
{
    if i == end {
        true
    } else if i < 0 || i > end || end > code.len() {
        false
    } else {
        match opcode_of_byte(code[i]) {
            None => false,
            Some(op) => {
                let d = decode_operands(widths_of(op), code, i + 1);
                &&& d.1 == operand_width(op)
                &&& i + 1 + d.1 <= end
                &&& (is_jump(op) && cap < 0x10000 ==> d.0.len() == 1 && d.0[0] != 0)
                &&& patched_region(code, i + 1 + d.1, end, cap)
            },
        }
    }
}

#[via_fn]
proof fn patched_region_decreases(code: Seq<u8>, i: int, end: int, cap: int) {
    if i != end && 0 <= i <= end && end <= code.len() {
        if let Some(op) = opcode_of_byte(code[i]) {
            crate::instructions::lemma_decode_operands_bounds(op, code, i + 1);
        }
    }
}

/// Decoding is unchanged between two byte sequences that agree on the whole
/// instruction.
proof fn lemma_decode_agree(op: Opcode, code1: Seq<u8>, code2: Seq<u8>, offset: int)
    requires
        decode_operands(widths_of(op), code1, offset).1 == operand_width(op),
        offset >= 0,
        offset + operand_width(op) <= code1.len(),
        offset + operand_width(op) <= code2.len(),
        forall|j: int| offset <= j < offset + operand_width(op) ==> code2[j] == code1[j],
    ensures
        decode_operands(widths_of(op), code2, offset) == decode_operands(
            widths_of(op),
            code1,
            offset,
        ),
{
    crate::instructions::lemma_widths_shape(op);
    let w = widths_of(op);
    if w.len() == 1 {
        assert(decode_operands(w.skip(1), code1, offset + 1) == (Seq::<u16>::empty(), 0int));
        assert(decode_operands(w.skip(1), code1, offset + 2) == (Seq::<u16>::empty(), 0int));
        assert(decode_operands(w.skip(1), code2, offset + 1) == (Seq::<u16>::empty(), 0int));
        assert(decode_operands(w.skip(1), code2, offset + 2) == (Seq::<u16>::empty(), 0int));
        if w[0] == 1 {
            assert(decode_operands(w, code1, offset).0 =~= decode_operands(w, code2, offset).0);
        } else {
            assert(decode_operands(w, code1, offset).0 =~= decode_operands(w, code2, offset).0);
        }
    }
}

/// A patched region stays patched in any byte sequence that agrees with the
/// old one on the region itself.
proof fn lemma_patched_region_stable(code1: Seq<u8>, code2: Seq<u8>, i: int, end: int, cap: int)
    requires
        patched_region(code1, i, end, cap),
        end <= code2.len(),
        forall|j: int| i <= j < end ==> code2[j] == code1[j],
    ensures
        patched_region(code2, i, end, cap),
    decreases end - i,
{
    if i != end {
        let op = opcode_of_byte(code1[i])->Some_0;
        let d = decode_operands(widths_of(op), code1, i + 1);
        crate::instructions::lemma_decode_operands_bounds(op, code1, i + 1);
        lemma_decode_agree(op, code1, code2, i + 1);
        lemma_patched_region_stable(code1, code2, i + 1 + d.1, end, cap);
    }
}

/// Two adjacent patched regions form one patched region.
proof fn lemma_patched_region_concat(code: Seq<u8>, i: int, mid: int, end: int, cap: int)
    requires
        patched_region(code, i, mid, cap),
        patched_region(code, mid, end, cap),
    ensures
        patched_region(code, i, end, cap),
    decreases mid - i,
{
    if i != mid {
        let op = opcode_of_byte(code[i])->Some_0;
        let d = decode_operands(widths_of(op), code, i + 1);
        lemma_patched_region_concat(code, i + 1 + d.1, mid, end, cap);
    }
}

/// The bytes of one freshly encoded instruction form a patched region, as
/// long as a jump's operand is not the zero placeholder.
proof fn lemma_patched_region_single(
    code: Seq<u8>,
    i: int,
    op: Opcode,
    operands: Seq<u16>,
    cap: int,
)
    requires
        operands.len() == widths_of(op).len(),
        0 <= i,
        i + 1 + operand_width(op) <= code.len(),
        code.subrange(i, i + 1 + operand_width(op)) == encoding(op, operands),
        is_jump(op) && cap < 0x10000 ==> operands[0] != 0,
    ensures
        patched_region(code, i, i + 1 + operand_width(op), cap),
{
    crate::instructions::lemma_widths_shape(op);
    crate::opcode::lemma_opcode_tag_bijection();
    let w = widths_of(op);
    let seg = code.subrange(i, i + 1 + operand_width(op));
    assert(code[i] == seg[0]);
    assert(patched_region(code, i + 1 + operand_width(op), i + 1 + operand_width(op), cap));
    if w.len() == 0 {
        assert(encode_operands(w, operands) =~= seq![]);
        assert(seg =~= seq![tag_of(op)]);
        assert(code[i] == tag_of(op));
        assert(opcode_of_byte(code[i]) == Some(op));
        assert(decode_operands(w, code, i + 1) == (Seq::<u16>::empty(), 0int));
    } else {
        let v = operands[0];
        assert(encode_operands(w.skip(1), operands.skip(1)) =~= seq![]);
        assert(encode_operands(w, operands) =~= encode_operand(w[0], v));
        if w[0] == 1 {
            assert(seg =~= seq![tag_of(op), (v % 256) as u8]);
            assert(code[i] == tag_of(op) && code[i + 1] == seg[1]);
            assert(opcode_of_byte(code[i]) == Some(op));
            assert(decode_operands(w.skip(1), code, i + 2) == (Seq::<u16>::empty(), 0int));
            assert(decode_operands(w, code, i + 1).1 == 1);
        } else {
            assert(seg =~= seq![tag_of(op), (v / 256) as u8, (v % 256) as u8]);
            assert(code[i] == tag_of(op) && code[i + 1] == seg[1] && code[i + 2] == seg[2]);
            assert(opcode_of_byte(code[i]) == Some(op));
            assert(decode_operands(w.skip(1), code, i + 3) == (Seq::<u16>::empty(), 0int));
            assert(decode_operands(w, code, i + 1).1 == 2);
            if is_jump(op) && cap < 0x10000 {
                let got = decode_operands(w, code, i + 1).0;
                assert(got =~= seq![(code[i + 1] * 256 + code[i + 2]) as u16]);
                assert(((v / 256) as u8) * 256 + ((v % 256) as u8) == v) by {
                    assert(v / 256 < 256);
                    assert(v == 256 * (v / 256) + v % 256);
                }
                assert(got[0] == v);
            }
        }
    }
}


/// The two bytes backpatching writes recompose to the target's low sixteen
/// bits.
proof fn lemma_low16_bytes(t: int)
    requires
        0 <= t,
    ensures
        0 <= t % 0x10000 < 0x10000,
        (t % 0x10000) / 256 == (t / 256) % 256,
        (t % 0x10000) % 256 == t % 256,
{
    vstd::arithmetic::div_mod::lemma_mod_breakdown(t, 256, 256);
    assert(256 * 256 == 0x10000);
    let q = (t / 256) % 256;
    let r = t % 256;
    assert(t % 0x10000 == 256 * q + r);
    assert((256 * q + r) / 256 == q) by (nonlinear_arith)
        requires
            0 <= r < 256,
            0 <= q,
    ;
    assert((256 * q + r) % 256 == r) by (nonlinear_arith)
        requires
            0 <= r < 256,
            0 <= q,
    ;
}

/// A prefix is unchanged byte for byte.
proof fn lemma_prefix_agree(a: Seq<u8>, b: Seq<u8>)
    requires
        prefix_of(a, b),
    ensures
        forall|j: int| 0 <= j < a.len() ==> #[trigger] b[j] == a[j],
{
    assert forall|j: int| 0 <= j < a.len() implies #[trigger] b[j] == a[j] by {
        assert(b.take(a.len() as int)[j] == b[j]);
    }
}

/// Appending leaves the old bytes in place.
proof fn lemma_append_agree(a: Seq<u8>, ext: Seq<u8>)
    ensures
        forall|j: int| 0 <= j < a.len() ==> #[trigger] (a + ext)[j] == a[j],
{
}

/// Patching touches only the two operand bytes of its site.
proof fn lemma_patch_agree_outside(code: Seq<u8>, site: int, t: int, lo: int, hi: int)
    requires
        0 <= lo,
        hi <= code.len(),
        0 <= site,
        site + 3 <= code.len(),
        hi <= site + 1 || lo >= site + 3,
    ensures
        forall|j: int| lo <= j < hi ==> #[trigger] patched(code, site, t)[j] == code[j],
{
    assert forall|j: int| lo <= j < hi implies #[trigger] patched(code, site, t)[j] == code[j] by {
        assert(j != site + 1 && j != site + 2);
        assert(code.update(site + 1, ((t / 256) % 256) as u8)[j] == code[j]);
    }
}

/// One freshly emitted non-jump instruction extends the code by a patched
/// region of its own length.
proof fn lemma_emitted_region(code1: Seq<u8>, op: Opcode, operands: Seq<u16>, cap: int)
    requires
        operands.len() == widths_of(op).len(),
        !is_jump(op),
    ensures
        (code1 + encoding(op, operands)).len() == code1.len() + 1 + operand_width(op),
        patched_region(
            code1 + encoding(op, operands),
            code1.len() as int,
            (code1 + encoding(op, operands)).len() as int,
            cap,
        ),
{
    crate::instructions::lemma_widths_shape(op);
    if operands.len() == 0 {
        assert(encode_operands(widths_of(op), operands) =~= seq![]);
    } else {
        assert(encode_operands(widths_of(op).skip(1), operands.skip(1)) =~= seq![]);
        assert(encode_operands(widths_of(op), operands) =~= encode_operand(
            widths_of(op)[0],
            operands[0],
        ));
    }
    let code2 = code1 + encoding(op, operands);
    assert(code2.subrange(code1.len() as int, code1.len() + 1 + operand_width(op)) =~= encoding(
        op,
        operands,
    ));
    lemma_patched_region_single(code2, code1.len() as int, op, operands, cap);
}

/// Backpatching a jump's placeholder turns its three bytes into a patched
/// region: the operand pair carries the target's low sixteen bits, non-zero
/// while the bound on targets stays under the addressing ceiling.
proof fn lemma_patched_jump_region(code: Seq<u8>, site: int, t: int, op: Opcode, cap: int)
    requires
        is_jump(op),
        0 <= site,
        site + 3 <= code.len(),
        code[site] == tag_of(op),
        0 < t <= cap,
    ensures
        patched(code, site, t).len() == code.len(),
        patched_region(patched(code, site, t), site, site + 3, cap),
{
    lemma_low16_bytes(t);
    let pc = patched(code, site, t);
    let v = (t % 0x10000) as u16;
    assert(pc[site] == code[site]);
    assert(pc[site + 1] == ((t / 256) % 256) as u8);
    assert(pc[site + 2] == (t % 256) as u8);
    assert((v / 256) as u8 == ((t / 256) % 256) as u8);
    assert((v % 256) as u8 == (t % 256) as u8);
    assert(widths_of(op) =~= seq![2u8]);
    assert(encode_operands(widths_of(op).skip(1), seq![v].skip(1)) =~= seq![]);
    assert(encode_operands(widths_of(op), seq![v]) =~= encode_operand(2, v));
    assert(pc.subrange(site, site + 3) =~= encoding(op, seq![v]));
    if cap < 0x10000 {
        assert(t % 0x10000 == t);
        assert(v != 0);
    }
    lemma_patched_region_single(pc, site, op, seq![v], cap);
}

/// Successful compilation leaves every emitted jump patched: the code a
/// statement list appends is a patched region under any bound on the final
/// length.
pub proof fn lemma_c_statements_patched(stmts: Seq<Statement>, i: int, s: CompilerState, cap: int)
    ensures
        c_statements(stmts, i, s) is Ok && c_statements(stmts, i, s)->Ok_0.code.len() <= cap
            ==> patched_region(
            c_statements(stmts, i, s)->Ok_0.code,
            s.code.len() as int,
            c_statements(stmts, i, s)->Ok_0.code.len() as int,
            cap,
        ),
    decreases stmts, stmts.len() - i, 1int,
{
    if c_statements(stmts, i, s) is Ok {
        let sr = c_statements(stmts, i, s)->Ok_0;
        if sr.code.len() <= cap {
            if 0 <= i < stmts.len() {
                assert(decreases_to!(stmts => stmts[i]));
                let s1 = c_statement(stmts[i], s)->Ok_0;
                lemma_c_statement_extends(stmts[i], s);
                lemma_c_statements_extends(stmts, i + 1, s1);
                lemma_c_statement_patched(stmts[i], s, cap);
                lemma_c_statements_patched(stmts, i + 1, s1, cap);
                lemma_prefix_agree(s1.code, sr.code);
                lemma_patched_region_stable(
                    s1.code,
                    sr.code,
                    s.code.len() as int,
                    s1.code.len() as int,
                    cap,
                );
                lemma_patched_region_concat(
                    sr.code,
                    s.code.len() as int,
                    s1.code.len() as int,
                    sr.code.len() as int,
                    cap,
                );
            }
        }
    }
}

/// As [`lemma_c_statements_patched`], for one statement.
pub proof fn lemma_c_statement_patched(st: Statement, s: CompilerState, cap: int)
    ensures
        c_statement(st, s) is Ok && c_statement(st, s)->Ok_0.code.len() <= cap ==> patched_region(
            c_statement(st, s)->Ok_0.code,
            s.code.len() as int,
            c_statement(st, s)->Ok_0.code.len() as int,
            cap,
        ),
    decreases st, 0int, 2int,
{
    if c_statement(st, s) is Ok && c_statement(st, s)->Ok_0.code.len() <= cap {
        let sr = c_statement(st, s)->Ok_0;
        match st {
            Statement::Expression(es) => {
                assert(decreases_to!(st => es));
                assert(decreases_to!(es => es.expression));
                let s1 = c_expression(es.expression, s)->Ok_0;
                lemma_c_expression_patched(es.expression, s, cap);
                lemma_emitted_region(s1.code, Opcode::Pop, seq![], cap);
                lemma_append_agree(s1.code, encoding(Opcode::Pop, seq![]));
                lemma_patched_region_stable(
                    s1.code,
                    sr.code,
                    s.code.len() as int,
                    s1.code.len() as int,
                    cap,
                );
                lemma_patched_region_concat(
                    sr.code,
                    s.code.len() as int,
                    s1.code.len() as int,
                    sr.code.len() as int,
                    cap,
                );
            },
            Statement::Let(ls) => {
                assert(decreases_to!(st => ls));
                assert(decreases_to!(ls => ls.value));
                let s1 = c_expression(ls.value, s)->Ok_0;
                lemma_c_expression_patched(ls.value, s, cap);
                let ops = seq![(s1.consts.len() % 0x10000) as u16];
                lemma_emitted_region(s1.code, Opcode::SetGlobal, ops, cap);
                lemma_append_agree(s1.code, encoding(Opcode::SetGlobal, ops));
                lemma_patched_region_stable(
                    s1.code,
                    sr.code,
                    s.code.len() as int,
                    s1.code.len() as int,
                    cap,
                );
                lemma_patched_region_concat(
                    sr.code,
                    s.code.len() as int,
                    s1.code.len() as int,
                    sr.code.len() as int,
                    cap,
                );
            },
            Statement::Return(rs) => {
                assert(decreases_to!(st => rs));
                assert(decreases_to!(rs => rs.return_value));
                let s1 = c_expression(rs.return_value, s)->Ok_0;
                lemma_c_expression_patched(rs.return_value, s, cap);
                lemma_emitted_region(s1.code, Opcode::Return, seq![], cap);
                lemma_append_agree(s1.code, encoding(Opcode::Return, seq![]));
                lemma_patched_region_stable(
                    s1.code,
                    sr.code,
                    s.code.len() as int,
                    s1.code.len() as int,
                    cap,
                );
                lemma_patched_region_concat(
                    sr.code,
                    s.code.len() as int,
                    s1.code.len() as int,
                    sr.code.len() as int,
                    cap,
                );
            },
            Statement::Block(bs) => {
                assert(decreases_to!(st => bs));
                assert(decreases_to!(bs => bs.statements));
                assert(decreases_to!(bs.statements => bs.statements@));
                lemma_c_statements_patched(bs.statements@, 0, s, cap);
            },
            _ => {},
        }
    }
}

/// As [`lemma_c_statements_patched`], for a list of expressions.
pub proof fn lemma_c_expressions_patched(es: Seq<Expression>, i: int, s: CompilerState, cap: int)
    ensures
        c_expressions(es, i, s) is Ok && c_expressions(es, i, s)->Ok_0.code.len() <= cap
            ==> patched_region(
            c_expressions(es, i, s)->Ok_0.code,
            s.code.len() as int,
            c_expressions(es, i, s)->Ok_0.code.len() as int,
            cap,
        ),
    decreases es, es.len() - i, 1int,
{
    if c_expressions(es, i, s) is Ok {
        let sr = c_expressions(es, i, s)->Ok_0;
        if sr.code.len() <= cap {
            if 0 <= i < es.len() {
                assert(decreases_to!(es => es[i]));
                let s1 = c_expression(es[i], s)->Ok_0;
                lemma_c_expression_extends(es[i], s);
                lemma_c_expressions_extends(es, i + 1, s1);
                lemma_c_expression_patched(es[i], s, cap);
                lemma_c_expressions_patched(es, i + 1, s1, cap);
                lemma_prefix_agree(s1.code, sr.code);
                lemma_patched_region_stable(
                    s1.code,
                    sr.code,
                    s.code.len() as int,
                    s1.code.len() as int,
                    cap,
                );
                lemma_patched_region_concat(
                    sr.code,
                    s.code.len() as int,
                    s1.code.len() as int,
                    sr.code.len() as int,
                    cap,
                );
            }
        }
    }
}

/// As [`lemma_c_statements_patched`], for one expression: in particular the
/// jumps an `if` emits are backpatched before it returns.
pub proof fn lemma_c_expression_patched(e: Expression, s: CompilerState, cap: int)
    ensures
        c_expression(e, s) is Ok && c_expression(e, s)->Ok_0.code.len() <= cap ==> patched_region(
            c_expression(e, s)->Ok_0.code,
            s.code.len() as int,
            c_expression(e, s)->Ok_0.code.len() as int,
            cap,
        ),
    decreases e, 0int, 2int,
{
    if c_expression(e, s) is Ok && c_expression(e, s)->Ok_0.code.len() <= cap {
        let sr = c_expression(e, s)->Ok_0;
        match e {
            Expression::IntegerLiteral(_) | Expression::StringLiteral(_) => {
                lemma_emitted_region(
                    s.code,
                    Opcode::Constant,
                    seq![(s.consts.len() % 0x10000) as u16],
                    cap,
                );
            },
            Expression::Boolean(bl) => {
                if bl.value {
                    lemma_emitted_region(s.code, Opcode::True, seq![], cap);
                } else {
                    lemma_emitted_region(s.code, Opcode::False, seq![], cap);
                }
            },
            Expression::Identifier(ident) => {
                if s.globals.contains(ident.value@) {
                    lemma_emitted_region(
                        s.code,
                        Opcode::GetGlobal,
                        seq![(s.consts.len() % 0x10000) as u16],
                        cap,
                    );
                } else {
                    lemma_emitted_region(s.code, Opcode::Null, seq![], cap);
                }
            },
            Expression::Prefix(pe) => {
                assert(decreases_to!(e => pe));
                assert(decreases_to!(pe => pe.right));
                let s1 = c_expression(*pe.right, s)->Ok_0;
                lemma_c_expression_patched(*pe.right, s, cap);
                let op = if pe.operator@ == "!"@ {
                    Opcode::Not
                } else {
                    Opcode::Neg
                };
                lemma_emitted_region(s1.code, op, seq![], cap);
                lemma_append_agree(s1.code, encoding(op, seq![]));
                lemma_patched_region_stable(
                    s1.code,
                    sr.code,
                    s.code.len() as int,
                    s1.code.len() as int,
                    cap,
                );
                lemma_patched_region_concat(
                    sr.code,
                    s.code.len() as int,
                    s1.code.len() as int,
                    sr.code.len() as int,
                    cap,
                );
            },
            Expression::Infix(ie) => {
                assert(decreases_to!(e => ie));
                assert(decreases_to!(ie => ie.left));
                assert(decreases_to!(ie => ie.right));
                let s1 = c_expression(*ie.left, s)->Ok_0;
                let s2 = c_expression(*ie.right, s1)->Ok_0;
                let op = infix_opcode(ie.operator@)->Some_0;
                lemma_c_expression_extends(*ie.left, s);
                lemma_c_expression_extends(*ie.right, s1);
                assert(s1.code.len() <= s2.code.len() <= sr.code.len());
                lemma_c_expression_patched(*ie.left, s, cap);
                lemma_c_expression_patched(*ie.right, s1, cap);
                lemma_prefix_agree(s1.code, s2.code);
                lemma_patched_region_stable(
                    s1.code,
                    s2.code,
                    s.code.len() as int,
                    s1.code.len() as int,
                    cap,
                );
                lemma_patched_region_concat(
                    s2.code,
                    s.code.len() as int,
                    s1.code.len() as int,
                    s2.code.len() as int,
                    cap,
                );
                lemma_emitted_region(s2.code, op, seq![], cap);
                lemma_append_agree(s2.code, encoding(op, seq![]));
                lemma_patched_region_stable(
                    s2.code,
                    sr.code,
                    s.code.len() as int,
                    s2.code.len() as int,
                    cap,
                );
                lemma_patched_region_concat(
                    sr.code,
                    s.code.len() as int,
                    s2.code.len() as int,
                    sr.code.len() as int,
                    cap,
                );
            },
            Expression::If(if_expr) => {
                lemma_if_expression_patched(e, if_expr, s, cap);
            },
            Expression::ArrayLiteral(al) => {
                assert(decreases_to!(e => al));
                assert(decreases_to!(al => al.elements));
                assert(decreases_to!(al.elements => al.elements@));
                let s1 = c_expressions(al.elements@, 0, s)->Ok_0;
                let ops = seq![(al.elements@.len() % 0x10000) as u16];
                lemma_c_expressions_extends(al.elements@, 0, s);
                lemma_c_expressions_patched(al.elements@, 0, s, cap);
                lemma_emitted_region(s1.code, Opcode::Array, ops, cap);
                lemma_append_agree(s1.code, encoding(Opcode::Array, ops));
                lemma_patched_region_stable(
                    s1.code,
                    sr.code,
                    s.code.len() as int,
                    s1.code.len() as int,
                    cap,
                );
                lemma_patched_region_concat(
                    sr.code,
                    s.code.len() as int,
                    s1.code.len() as int,
                    sr.code.len() as int,
                    cap,
                );
            },
            _ => {},
        }
    }
}

/// The `if` case of [`lemma_c_expression_patched`]: both jump placeholders
/// are backpatched to targets past their sites before the expression's
/// compilation returns.
proof fn lemma_if_expression_patched(
    e: Expression,
    if_expr: crate::ast::IfExpression,
    s: CompilerState,
    cap: int,
)
    requires
        e == Expression::If(if_expr),
        c_expression(e, s) is Ok,
        c_expression(e, s)->Ok_0.code.len() <= cap,
    ensures
        patched_region(
            c_expression(e, s)->Ok_0.code,
            s.code.len() as int,
            c_expression(e, s)->Ok_0.code.len() as int,
            cap,
        ),
    decreases e, 0int, 1int,
{
    let sr = c_expression(e, s)->Ok_0;
    assert(decreases_to!(e => if_expr));
    assert(decreases_to!(if_expr => if_expr.condition));
    assert(decreases_to!(if_expr => if_expr.consequence));
    assert(decreases_to!(if_expr.consequence => if_expr.consequence.statements));
    assert(decreases_to!(if_expr.consequence.statements => if_expr.consequence.statements@));
    let l0 = s.code.len() as int;
    let s1 = c_expression(*if_expr.condition, s)->Ok_0;
    let site = s1.code.len() as int;
    let s2 = CompilerState { code: s1.code + encoding(Opcode::JumpIfFalse, seq![0u16]), ..s1 };
    assert(encode_operands(widths_of(Opcode::JumpIfFalse).skip(1), seq![0u16].skip(1)) =~= seq![]);
    assert(encoding(Opcode::JumpIfFalse, seq![0u16]).len() == 3);
    assert(s2.code[site] == tag_of(Opcode::JumpIfFalse));
    let s3 = c_statements(if_expr.consequence.statements@, 0, s2)->Ok_0;
    let t = s3.code.len() as int;
    let s4 = CompilerState { code: patched(s3.code, site, t), ..s3 };

    lemma_c_expression_extends(*if_expr.condition, s);
    lemma_c_statements_extends(if_expr.consequence.statements@, 0, s2);
    lemma_prefix_agree(s2.code, s3.code);
    assert(s3.code[site] == tag_of(Opcode::JumpIfFalse));
    assert(s4.code.len() == s3.code.len());
    assert(s4.code.len() <= sr.code.len()) by {
        match if_expr.alternative {
            None => {
                assert(sr == s4);
            },
            Some(alt) => {
                let s5a = CompilerState {
                    code: s4.code + encoding(Opcode::Jump, seq![0u16]),
                    ..s4
                };
                lemma_c_statements_extends(alt.statements@, 0, s5a);
            },
        }
    }
    assert(s1.code.len() + 3 == s2.code.len() <= s3.code.len());
    assert(s3.code.len() <= cap && t <= cap && s1.code.len() <= cap);

    // the condition's region, carried through the append, the growth and
    // the patch
    lemma_c_expression_patched(*if_expr.condition, s, cap);
    lemma_append_agree(s1.code, encoding(Opcode::JumpIfFalse, seq![0u16]));
    lemma_patched_region_stable(s1.code, s2.code, l0, site, cap);
    lemma_patched_region_stable(s2.code, s3.code, l0, site, cap);
    lemma_patch_agree_outside(s3.code, site, t, l0, site);
    lemma_patched_region_stable(s3.code, s4.code, l0, site, cap);

    // the consequence's region, carried through the patch
    lemma_c_statements_patched(if_expr.consequence.statements@, 0, s2, cap);
    lemma_patch_agree_outside(s3.code, site, t, site + 3, t);
    lemma_patched_region_stable(s3.code, s4.code, site + 3, t, cap);

    // the patched conditional jump itself
    lemma_patched_jump_region(s3.code, site, t, Opcode::JumpIfFalse, cap);

    lemma_patched_region_concat(s4.code, l0, site, site + 3, cap);
    lemma_patched_region_concat(s4.code, l0, site + 3, t, cap);

    match if_expr.alternative {
        None => {
            assert(sr == s4);
        },
        Some(alt) => {
            assert(decreases_to!(if_expr => if_expr.alternative));
            assert(decreases_to!(if_expr.alternative => alt));
            assert(decreases_to!(alt => alt.statements));
            assert(decreases_to!(alt.statements => alt.statements@));
            let site2 = s4.code.len() as int;
            let s5 = CompilerState { code: s4.code + encoding(Opcode::Jump, seq![0u16]), ..s4 };
            assert(encode_operands(widths_of(Opcode::Jump).skip(1), seq![0u16].skip(1))
                =~= seq![]);
            assert(encoding(Opcode::Jump, seq![0u16]).len() == 3);
            assert(s5.code[site2] == tag_of(Opcode::Jump));
            let s6 = c_statements(alt.statements@, 0, s5)->Ok_0;
            let t2 = s6.code.len() as int;
            assert(sr.code == patched(s6.code, site2, t2));

            lemma_c_statements_extends(alt.statements@, 0, s5);
            lemma_prefix_agree(s5.code, s6.code);
            assert(s6.code[site2] == tag_of(Opcode::Jump));

            // the code up to the second site, carried forward and past the
            // second patch
            lemma_append_agree(s4.code, encoding(Opcode::Jump, seq![0u16]));
            lemma_patched_region_stable(s4.code, s5.code, l0, site2, cap);
            lemma_patched_region_stable(s5.code, s6.code, l0, site2, cap);
            lemma_patch_agree_outside(s6.code, site2, t2, l0, site2);
            lemma_patched_region_stable(s6.code, sr.code, l0, site2, cap);

            // the alternative's region, carried through the second patch
            lemma_c_statements_patched(alt.statements@, 0, s5, cap);
            lemma_patch_agree_outside(s6.code, site2, t2, site2 + 3, t2);
            lemma_patched_region_stable(s6.code, sr.code, site2 + 3, t2, cap);

            // the patched unconditional jump itself
            lemma_patched_jump_region(s6.code, site2, t2, Opcode::Jump, cap);

            lemma_patched_region_concat(sr.code, l0, site2, site2 + 3, cap);
            lemma_patched_region_concat(sr.code, l0, site2 + 3, t2, cap);
        },
    }
}

/// Backpatch law for whole programs: in a successfully compiled program
/// whose code stays under the two-byte addressing ceiling, the byte stream
/// decodes instruction by instruction and no jump's operand pair is left as
/// the zero placeholder.
pub proof fn lemma_program_jumps_patched(prog: Program, s: CompilerState)
    requires
        c_program(prog, s) is Ok,
    ensures
        ({
            let st = c_program(prog, s)->Ok_0;
            st.code.len() < 0x10000 ==> patched_region(
                st.code,
                s.code.len() as int,
                st.code.len() as int,
                st.code.len() as int,
            )
        }),
{
    let st = c_program(prog, s)->Ok_0;
    if st.code.len() < 0x10000 {
        lemma_c_statements_patched(prog.statements@, 0, s, st.code.len() as int);
    }
}

} // verus!
