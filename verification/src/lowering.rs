//! What the code generator does, as a function on mathematical states: the
//! model of a builder, and the state and result that each node leads to.

use vstd::prelude::*;
use either::Either;
use crate::error::{CompileError, Error};
use crate::ir::{BinaryOp, ContextModel};
use crate::machine::spec_execute;
use crate::myast::{Node, Op, node_size, nodes_size, same_params, same_tree, same_trees};
use crate::types::{DescriptorModel, builtin_types, spec_resolve};
use crate::wrapper::{Function, Type, Value};

verus! {

/// The sum type `either::Either`. Entries of the function table are of
/// this type: a native function on the left, a function of the context on
/// the right. The declaration takes the two variants `Left` and `Right` as
/// the crate `either` defines them, and claims nothing of the type beyond
/// that definition.
#[verifier::external_type_specification]
#[verifier::reject_recursive_types(L)]
#[verifier::reject_recursive_types(R)]
pub struct ExEither<L, R>(Either<L, R>);

/// The number by which the built-in native function `printint` is known.
pub const PRINTINT: usize = 0;

/// A native function as the function table models it.
pub struct NativeModel {
    pub entry: usize,
    pub argtypes: Seq<Type>,
    pub ret: Type,
}

/// A callee: a native function or a function of the context.
pub type Callee = Either<NativeModel, Function>;

/// The state of a builder.
pub struct BuilderModel {
    pub context: ContextModel,
    /// The function that instructions are emitted into.
    pub main: Function,
    /// The symbol table.
    pub vtable: Map<Seq<char>, Value>,
    /// The function table.
    pub ftable: Map<Seq<char>, Callee>,
    /// The type registry.
    pub types: Seq<DescriptorModel>,
}

/// The state that a node leaves and the value or error that it gives.
pub type Visited = (BuilderModel, Result<Value, CompileError>);

/// The state that a list of nodes leaves and the values or error that it
/// gives.
pub type VisitedList = (BuilderModel, Result<Seq<Value>, CompileError>);

/// The instruction that an operator lowers to. `Div` has none.
pub open spec fn lowered(op: Op) -> Option<BinaryOp> {
    match op {
        Op::Add => Some(BinaryOp::Add),
        Op::Sub => Some(BinaryOp::Sub),
        Op::Mul => Some(BinaryOp::Mul),
        Op::Div => None,
        Op::Eql => Some(BinaryOp::Eq),
        Op::Neq => Some(BinaryOp::Ne),
        Op::Lwt => Some(BinaryOp::Lt),
        Op::Lwe => Some(BinaryOp::Le),
        Op::Grt => Some(BinaryOp::Gt),
        Op::Gre => Some(BinaryOp::Ge),
        Op::And => Some(BinaryOp::And),
        Op::Or => Some(BinaryOp::Or),
    }
}

/// There are as many arguments as parameters, and each argument has the
/// type of its parameter.
pub open spec fn args_match(args: Seq<Value>, params: Seq<Type>) -> bool {
    &&& args.len() == params.len()
    &&& forall|i: int| 0 <= i < args.len() ==> (#[trigger] args[i]).ty == params[i]
}

/// The type that a type name stands for, if it is registered.
pub open spec fn type_named(types: Seq<DescriptorModel>, name: Seq<char>) -> Option<Type> {
    match spec_resolve(types, name) {
        Some(d) => Some(d.backend_type),
        None => None,
    }
}

/// Every parameter's type name is registered.
pub open spec fn all_known(types: Seq<DescriptorModel>, params: Seq<(String, String)>) -> bool {
    forall|i: int| 0 <= i < params.len() ==> type_named(types, (#[trigger] params[i]).1@) is Some
}

/// The types that the parameters' type names stand for.
pub open spec fn param_types(types: Seq<DescriptorModel>, params: Seq<(String, String)>) -> Seq<
    Type,
> {
    Seq::new(params.len(), |i: int| type_named(types, params[i].1@)->0)
}

/// The symbol table after the first `n` parameters are bound, each to the
/// slot with its own number. A later parameter replaces an earlier one of
/// the same name.
pub open spec fn bind_params(params: Seq<(String, String)>, types: Seq<Type>, n: int) -> Map<
    Seq<char>,
    Value,
>
    decreases n,
{
    if n <= 0 {
        Map::empty()
    } else {
        bind_params(params, types, n - 1).insert(
            params[n - 1].0@,
            Value { handle: (n - 1) as usize, ty: types[n - 1] },
        )
    }
}

impl BuilderModel {
    /// The state of a new builder: an entry function without parameters that
    /// returns an integer, an empty symbol table, `printint` in the function
    /// table, and the built-in types.
    pub open spec fn initial() -> BuilderModel {
        BuilderModel {
            context: ContextModel::fresh().with_function(Seq::empty(), Type::integer()),
            main: Function { id: 0, argc: 0 },
            vtable: Map::empty(),
            ftable: Map::empty().insert(
                "printint"@,
                Either::Left(
                    NativeModel {
                        entry: PRINTINT,
                        argtypes: seq![Type::integer()],
                        ret: Type::void(),
                    },
                ),
            ),
            types: builtin_types(),
        }
    }

    /// The current function and every compiled function of the function
    /// table belong to the context.
    pub open spec fn wf(self) -> bool {
        &&& self.context.has(self.main)
        &&& forall|name: Seq<char>| #[trigger]
            self.ftable.contains_key(name) ==> (self.ftable[name] matches Either::Right(f)
                ==> self.context.has(f))
    }

    /// The state with `context` in place of its context.
    pub open spec fn with_context(self, context: ContextModel) -> BuilderModel {
        BuilderModel { context, ..self }
    }

    /// The state in which the program is run: the current function is
    /// final and the context is finished.
    pub open spec fn sealed(self) -> BuilderModel {
        self.with_context(self.context.finalize(self.main).finished())
    }

    /// Failure with `e`, which leaves the state as it is.
    pub open spec fn fail(self, e: CompileError) -> Visited {
        (self, Err(e))
    }

    /// A new constant of the current function as the result.
    pub open spec fn constant(self, ty: Type, val: i64) -> Visited {
        (
            self.with_context(self.context.constant(self.main, ty, val)),
            Ok(self.context.next_value(self.main, ty)),
        )
    }

    /// A number: an integer constant.
    pub open spec fn number(self, i: i64) -> Visited {
        self.constant(Type::integer(), i)
    }

    /// An identifier: a copy of the value that it is bound to.
    pub open spec fn ident(self, name: Seq<char>) -> Visited {
        if self.vtable.contains_key(name) {
            (
                self.with_context(self.context.load(self.main, self.vtable[name])),
                Ok(self.context.next_value(self.main, self.vtable[name].ty)),
            )
        } else {
            self.fail(CompileError::UndefinedVariable)
        }
    }

    /// One instruction for `lhs op rhs`; the result has the type that the
    /// instruction gives.
    pub open spec fn emit_binary(self, op: BinaryOp, lhs: Value, rhs: Value) -> Visited {
        (
            self.with_context(self.context.binary(self.main, op, lhs, rhs)),
            Ok(self.context.next_value(self.main, op.result_type())),
        )
    }

    /// A comparison, and the conversion of its result to a boolean.
    pub open spec fn emit_compare(self, op: BinaryOp, lhs: Value, rhs: Value) -> Visited {
        let compared = self.context.binary(self.main, op, lhs, rhs);
        let flag = self.context.next_value(self.main, Type::integer());
        (
            self.with_context(compared.convert(self.main, flag, Type::bool())),
            Ok(compared.next_value(self.main, Type::bool())),
        )
    }

    /// A binary operator on compiled operands. The types of the operands
    /// decide: two integers take arithmetic and comparisons, two booleans
    /// take the logical operators, `Div` has no lowering on either, and
    /// every other pairing is a type mismatch.
    pub open spec fn binop(self, op: Op, lhs: Value, rhs: Value) -> Visited {
        let ints = lhs.ty == Type::integer() && rhs.ty == Type::integer();
        let bools = lhs.ty == Type::bool() && rhs.ty == Type::bool();
        if !ints && !bools {
            self.fail(CompileError::TypeMismatch)
        } else {
            match lowered(op) {
                None => self.fail(CompileError::Unsupported),
                Some(insn) => {
                    if ints && op.is_arithmetic() {
                        self.emit_binary(insn, lhs, rhs)
                    } else if ints && op.is_comparison() {
                        self.emit_compare(insn, lhs, rhs)
                    } else if bools && op.is_logical() {
                        self.emit_binary(insn, lhs, rhs)
                    } else {
                        self.fail(CompileError::TypeMismatch)
                    }
                },
            }
        }
    }

    /// A return of `v`, and an integer constant as the placeholder result.
    pub open spec fn ret(self, v: Value) -> Visited {
        self.with_context(self.context.ret(self.main, v)).constant(Type::integer(), 0)
    }

    /// A binding of `name` to `v`, which replaces any earlier one, and a
    /// void constant as the placeholder result.
    pub open spec fn vardef(self, name: Seq<char>, v: Value) -> Visited {
        (BuilderModel { vtable: self.vtable.insert(name, v), ..self }).constant(Type::void(), 0)
    }

    /// A call of `name` with compiled arguments. The result has the
    /// callee's return type, whichever kind of callee it is.
    pub open spec fn call(self, name: Seq<char>, args: Seq<Value>) -> Visited {
        if !self.ftable.contains_key(name) {
            self.fail(CompileError::UndefinedFunction)
        } else {
            match self.ftable[name] {
                Either::Left(native) => {
                    if args_match(args, native.argtypes) {
                        (
                            self.with_context(
                                self.context.call_native(
                                    self.main,
                                    native.entry,
                                    args,
                                    native.ret,
                                ),
                            ),
                            Ok(self.context.next_value(self.main, native.ret)),
                        )
                    } else {
                        self.fail(CompileError::ArgumentTypeMismatch)
                    }
                },
                Either::Right(f) => {
                    if args_match(args, self.context.body(f).params) {
                        (
                            self.with_context(self.context.call(self.main, f, args)),
                            Ok(self.context.next_value(self.main, self.context.body(f).ret)),
                        )
                    } else {
                        self.fail(CompileError::ArgumentTypeMismatch)
                    }
                },
            }
        }
    }

    /// The jump over the first branch of an `if` whose condition is `cond`.
    pub open spec fn if_test(self, cond: Value) -> BuilderModel {
        self.with_context(self.context.branch_if_not(self.main, cond, None))
    }

    /// The place of `label`, the target of the jump over the first branch.
    pub open spec fn if_else(self, label: usize) -> BuilderModel {
        self.with_context(self.context.mark(self.main, Some(label)))
    }

    /// The state in which the body of a new function is compiled: the
    /// function exists and is current, the symbol table holds its
    /// parameters and nothing else, and the function table knows it under
    /// `name`, in place of any earlier entry.
    pub open spec fn enter(
        self,
        name: Seq<char>,
        params: Seq<(String, String)>,
        argtypes: Seq<Type>,
        ret: Type,
    ) -> BuilderModel {
        let f = self.context.next_function(argtypes);
        BuilderModel {
            context: self.context.with_function(argtypes, ret),
            main: f,
            vtable: bind_params(params, argtypes, params.len() as int),
            ftable: self.ftable.insert(name, Either::Right(f)),
            types: self.types,
        }
    }

    /// The end of a function definition: the current function is made
    /// final, `outer` is current again, and a void constant of it is the
    /// placeholder result. The symbol table stays as the body left it.
    pub open spec fn leave(self, outer: Function) -> Visited {
        (BuilderModel {
            context: self.context.finalize(self.main),
            main: outer,
            ..self
        }).constant(Type::void(), 0)
    }
}

/// The state and result of compiling `n` in state `b`.
pub open spec fn spec_visit(b: BuilderModel, n: Node) -> Visited
    decreases n, 0nat,
{
    match n {
        Node::Empty => b.fail(CompileError::Unsupported),
        Node::StrLiteral(_) => b.fail(CompileError::Unsupported),
        Node::Number(i) => b.number(i),
        Node::Ident(name) => b.ident(name@),
        Node::BinOp(lhs, op, rhs) => {
            let (b1, l) = spec_visit(b, *lhs);
            match l {
                Err(e) => b1.fail(e),
                Ok(lv) => {
                    let (b2, r) = spec_visit(b1, *rhs);
                    match r {
                        Err(e) => b2.fail(e),
                        Ok(rv) => b2.binop(op, lv, rv),
                    }
                },
            }
        },
        Node::Ret(val) => {
            let (b1, r) = spec_visit(b, *val);
            match r {
                Err(e) => b1.fail(e),
                Ok(v) => b1.ret(v),
            }
        },
        Node::VarDef(name, init) => {
            let (b1, r) = spec_visit(b, *init);
            match r {
                Err(e) => b1.fail(e),
                Ok(v) => b1.vardef(name@, v),
            }
        },
        Node::Call(list) => {
            if list@.len() == 0 {
                b.fail(CompileError::InvalidCallTarget)
            } else {
                match list@[0] {
                    Node::Ident(name) => {
                        let (b1, r) = spec_visit_list(b, list@, 1, Seq::empty());
                        match r {
                            Err(e) => b1.fail(e),
                            Ok(args) => b1.call(name@, args),
                        }
                    },
                    _ => b.fail(CompileError::InvalidCallTarget),
                }
            }
        },
        Node::If(cond, then, other) => {
            let (b1, c) = spec_visit(b, *cond);
            match c {
                Err(e) => b1.fail(e),
                Ok(cv) => {
                    if cv.ty != Type::bool() {
                        b1.fail(CompileError::ConditionNotBoolean)
                    } else {
                        let label = b1.context.label_id(b1.main, None);
                        let (b2, t) = spec_visit(b1.if_test(cv), *then);
                        match t {
                            Err(e) => b2.fail(e),
                            Ok(_) => {
                                let b3 = b2.if_else(label);
                                if *other is Empty {
                                    b3.constant(Type::void(), 0)
                                } else {
                                    let (b4, o) = spec_visit(b3, *other);
                                    match o {
                                        Err(e) => b4.fail(e),
                                        Ok(_) => b4.constant(Type::void(), 0),
                                    }
                                }
                            },
                        }
                    }
                },
            }
        },
        Node::FuncDef(name, params, rettype, body) => {
            if !all_known(b.types, params@) || type_named(b.types, rettype@) is None {
                b.fail(CompileError::UnknownType)
            } else {
                let entered = b.enter(
                    name@,
                    params@,
                    param_types(b.types, params@),
                    type_named(b.types, rettype@)->0,
                );
                let (b1, r) = spec_visit_list(entered, body@, 0, Seq::empty());
                match r {
                    Err(e) => b1.fail(e),
                    Ok(_) => b1.leave(b.main),
                }
            }
        },
    }
}

/// The state and results of compiling `list[from..]` in order, in state
/// `b`, after the results `done` of the nodes before. It stops at the first
/// error.
pub open spec fn spec_visit_list(b: BuilderModel, list: Seq<Node>, from: int, done: Seq<Value>)
    -> VisitedList
    decreases list, list.len() - from,
{
    if 0 <= from < list.len() {
        let (b1, r) = spec_visit(b, list[from]);
        match r {
            Err(e) => (b1, Err(e)),
            Ok(v) => spec_visit_list(b1, list, from + 1, done.push(v)),
        }
    } else {
        (b, Ok(done))
    }
}

/// The state and result of compiling a whole program: the statements in
/// order into the entry function of a new builder, then a return of the
/// value of the last one, or of zero if there is none.
pub open spec fn spec_program(nodes: Seq<Node>) -> Visited {
    let (b0, zero) = BuilderModel::initial().number(0);
    let (b1, r) = spec_visit_list(b0, nodes, 0, seq![zero->Ok_0]);
    match r {
        Err(e) => b1.fail(e),
        Ok(vals) => (b1.with_context(b1.context.ret(b1.main, vals.last())), Ok(vals.last())),
    }
}

/// What a whole program gives: the error of its compilation, or else what
/// its entry function gives on the reference machine, once that function is
/// final and the context is finished.
pub open spec fn spec_compile_and_run(nodes: Seq<Node>) -> Result<i32, Error> {
    let (b, r) = spec_program(nodes);
    match r {
        Err(e) => Err(Error::Compile(e)),
        Ok(_) => match spec_execute(b.sealed().context, b.main) {
            Ok(w) => Ok(w),
            Err(e) => Err(Error::Exec(e)),
        },
    }
}

impl BuilderModel {
    /// `self` comes after `before`: the context has every function that it
    /// had, and the registry is the same.
    pub open spec fn follows(self, before: BuilderModel) -> bool {
        &&& before.context.funcs.len() <= self.context.funcs.len()
        &&& self.types == before.types
    }
}

/// Compiling a node keeps the state well formed and keeps every function
/// of the context with its signature, as long as the context has room for
/// one more function per node. On success the current function is the one
/// it was.
pub proof fn lemma_visit_wf(b: BuilderModel, n: Node)
    requires
        b.wf(),
        b.context.funcs.len() + node_size(n) <= usize::MAX,
    ensures
        spec_visit(b, n).0.wf(),
        spec_visit(b, n).0.follows(b),
        spec_visit(b, n).0.context.funcs.len() <= b.context.funcs.len() + node_size(n),
        spec_visit(b, n).1 is Ok ==> spec_visit(b, n).0.main == b.main,
    decreases n, 0nat,
{
    match n {
        Node::Empty => {},
        Node::StrLiteral(_) => {},
        Node::Number(i) => {},
        Node::Ident(name) => {},
        Node::BinOp(lhs, op, rhs) => {
            lemma_visit_wf(b, *lhs);
            let (b1, l) = spec_visit(b, *lhs);
            if l is Ok {
                lemma_visit_wf(b1, *rhs);
            }
        },
        Node::Ret(val) => {
            lemma_visit_wf(b, *val);
        },
        Node::VarDef(name, init) => {
            lemma_visit_wf(b, *init);
        },
        Node::Call(list) => {
            if list@.len() > 0 {
                assert(nodes_size(list@, 1) <= nodes_size(list@, 0));
                lemma_visit_list_wf(b, list@, 1, Seq::empty());
            }
        },
        Node::If(cond, then, other) => {
            lemma_visit_wf(b, *cond);
            let (b1, c) = spec_visit(b, *cond);
            if c is Ok && c->Ok_0.ty == Type::bool() {
                let cv = c->Ok_0;
                let label = b1.context.label_id(b1.main, None);
                lemma_visit_wf(b1.if_test(cv), *then);
                let (b2, t) = spec_visit(b1.if_test(cv), *then);
                if t is Ok {
                    let b3 = b2.if_else(label);
                    if !(*other is Empty) {
                        lemma_visit_wf(b3, *other);
                    }
                }
            }
        },
        Node::FuncDef(name, params, rettype, body) => {
            if all_known(b.types, params@) && type_named(b.types, rettype@) is Some {
                let entered = b.enter(
                    name@,
                    params@,
                    param_types(b.types, params@),
                    type_named(b.types, rettype@)->0,
                );
                assert(entered.wf());
                lemma_visit_list_wf(entered, body@, 0, Seq::empty());
            }
        },
    }
}

/// Compiling a list of nodes keeps the state well formed and keeps every
/// function of the context with its signature, as long as the context has
/// room for one more function per node. On success the current function is
/// the one it was.
pub proof fn lemma_visit_list_wf(b: BuilderModel, list: Seq<Node>, from: int, done: Seq<Value>)
    requires
        b.wf(),
        b.context.funcs.len() + nodes_size(list, from) <= usize::MAX,
    ensures
        spec_visit_list(b, list, from, done).0.wf(),
        spec_visit_list(b, list, from, done).0.follows(b),
        spec_visit_list(b, list, from, done).0.context.funcs.len() <= b.context.funcs.len()
            + nodes_size(list, from),
        spec_visit_list(b, list, from, done).1 is Ok ==> spec_visit_list(b, list, from, done).0.main
            == b.main,
    decreases list, list.len() - from,
{
    if 0 <= from < list.len() {
        lemma_visit_wf(b, list[from]);
        let (b1, r) = spec_visit(b, list[from]);
        if r is Ok {
            lemma_visit_list_wf(b1, list, from + 1, done.push(r->Ok_0));
        }
    }
}

impl BuilderModel {
    /// The function table of `self` has every name that `before` had, and
    /// each of its entries is either the entry that `before` had under that
    /// name or a function that the context got after `before`.
    pub open spec fn redefines_only(self, before: BuilderModel) -> bool {
        &&& forall|name: Seq<char>| #[trigger]
            before.ftable.contains_key(name) ==> self.ftable.contains_key(name)
        &&& forall|name: Seq<char>| #[trigger]
            self.ftable.contains_key(name) ==> {
                ||| before.ftable.contains_key(name) && self.ftable[name] == before.ftable[name]
                ||| (self.ftable[name] matches Either::Right(f) && before.context.funcs.len()
                    <= f.id < self.context.funcs.len())
            }
    }
}

/// Compiling a node changes the function table only by binding names to
/// functions that it creates.
pub proof fn lemma_visit_ftable(b: BuilderModel, n: Node)
    requires
        b.wf(),
        b.context.funcs.len() + node_size(n) <= usize::MAX,
    ensures
        spec_visit(b, n).0.redefines_only(b),
    decreases n, 0nat,
{
    lemma_visit_wf(b, n);
    match n {
        Node::Empty => {},
        Node::StrLiteral(_) => {},
        Node::Number(i) => {},
        Node::Ident(name) => {},
        Node::BinOp(lhs, op, rhs) => {
            lemma_visit_ftable(b, *lhs);
            lemma_visit_wf(b, *lhs);
            let (b1, l) = spec_visit(b, *lhs);
            if l is Ok {
                lemma_visit_ftable(b1, *rhs);
                lemma_visit_wf(b1, *rhs);
            }
        },
        Node::Ret(val) => {
            lemma_visit_ftable(b, *val);
        },
        Node::VarDef(name, init) => {
            lemma_visit_ftable(b, *init);
        },
        Node::Call(list) => {
            if list@.len() > 0 {
                assert(nodes_size(list@, 1) <= nodes_size(list@, 0));
                lemma_visit_list_ftable(b, list@, 1, Seq::empty());
            }
        },
        Node::If(cond, then, other) => {
            lemma_visit_ftable(b, *cond);
            lemma_visit_wf(b, *cond);
            let (b1, c) = spec_visit(b, *cond);
            if c is Ok && c->Ok_0.ty == Type::bool() {
                let cv = c->Ok_0;
                let label = b1.context.label_id(b1.main, None);
                lemma_visit_ftable(b1.if_test(cv), *then);
                lemma_visit_wf(b1.if_test(cv), *then);
                let (b2, t) = spec_visit(b1.if_test(cv), *then);
                if t is Ok {
                    let b3 = b2.if_else(label);
                    if !(*other is Empty) {
                        lemma_visit_ftable(b3, *other);
                        lemma_visit_wf(b3, *other);
                    }
                }
            }
        },
        Node::FuncDef(name, params, rettype, body) => {
            if all_known(b.types, params@) && type_named(b.types, rettype@) is Some {
                let entered = b.enter(
                    name@,
                    params@,
                    param_types(b.types, params@),
                    type_named(b.types, rettype@)->0,
                );
                assert(entered.wf());
                assert(entered.redefines_only(b));
                lemma_visit_list_ftable(entered, body@, 0, Seq::empty());
                lemma_visit_list_wf(entered, body@, 0, Seq::empty());
            }
        },
    }
}

/// Compiling a list of nodes changes the function table only by binding
/// names to functions that it creates.
pub proof fn lemma_visit_list_ftable(b: BuilderModel, list: Seq<Node>, from: int, done: Seq<Value>)
    requires
        b.wf(),
        b.context.funcs.len() + nodes_size(list, from) <= usize::MAX,
    ensures
        spec_visit_list(b, list, from, done).0.redefines_only(b),
    decreases list, list.len() - from,
{
    if 0 <= from < list.len() {
        lemma_visit_wf(b, list[from]);
        lemma_visit_ftable(b, list[from]);
        let (b1, r) = spec_visit(b, list[from]);
        if r is Ok {
            lemma_visit_list_wf(b1, list, from + 1, done.push(r->Ok_0));
            lemma_visit_list_ftable(b1, list, from + 1, done.push(r->Ok_0));
        }
    }
}

/// Parameter lists that are alike stand for the same types and bind the
/// same names.
proof fn lemma_same_params(
    types: Seq<DescriptorModel>,
    params1: Seq<(String, String)>,
    params2: Seq<(String, String)>,
    argtypes: Seq<Type>,
    n: int,
)
    requires
        same_params(params1, params2),
        n <= params1.len(),
    ensures
        all_known(types, params1) == all_known(types, params2),
        param_types(types, params1) == param_types(types, params2),
        bind_params(params1, argtypes, n) == bind_params(params2, argtypes, n),
    decreases n,
{
    if all_known(types, params1) {
        assert forall|i: int| 0 <= i < params2.len() implies type_named(
            types,
            (#[trigger] params2[i]).1@,
        ) is Some by {
            assert(params1[i].1@ == params2[i].1@);
        }
    }
    if all_known(types, params2) {
        assert forall|i: int| 0 <= i < params1.len() implies type_named(
            types,
            (#[trigger] params1[i]).1@,
        ) is Some by {
            assert(params1[i].1@ == params2[i].1@);
        }
    }
    assert(param_types(types, params1) =~= param_types(types, params2)) by {
        assert forall|i: int| 0 <= i < params1.len() implies param_types(types, params1)[i] == param_types(
            types,
            params2,
        )[i] by {
            assert(params1[i].1@ == params2[i].1@);
        }
    }
    if n > 0 {
        lemma_same_params(types, params1, params2, argtypes, n - 1);
        assert(params1[n - 1].0@ == params2[n - 1].0@);
    }
}

/// Of two trees that are alike, both are empty or none is.
proof fn lemma_same_tree_same_kind(n1: Node, n2: Node)
    requires
        same_tree(n1, n2),
    ensures
        n1 is Empty <==> n2 is Empty,
{
}

/// Trees that are alike compile alike: in every state they leave the same
/// state and give the same value or error.
pub proof fn lemma_same_tree_same_code(b: BuilderModel, n1: Node, n2: Node)
    requires
        same_tree(n1, n2),
    ensures
        spec_visit(b, n1) == spec_visit(b, n2),
    decreases n1, 0nat,
{
    match (n1, n2) {
        (Node::BinOp(l1, op1, r1), Node::BinOp(l2, op2, r2)) => {
            lemma_same_tree_same_code(b, *l1, *l2);
            lemma_same_tree_same_code(spec_visit(b, *l1).0, *r1, *r2);
        },
        (Node::Call(l1), Node::Call(l2)) => {
            assert(same_trees(l1@, l2@, 0));
            if l1@.len() > 0 {
                assert(same_tree(l1@[0], l2@[0]));
                assert(same_trees(l1@, l2@, 1));
                lemma_same_trees_same_code(b, l1@, l2@, 1, Seq::empty());
            }
        },
        (Node::VarDef(s, i1), Node::VarDef(t, i2)) => {
            lemma_same_tree_same_code(b, *i1, *i2);
        },
        (Node::FuncDef(name1, params1, rt1, body1), Node::FuncDef(name2, params2, rt2, body2)) => {
            lemma_same_params(b.types, params1@, params2@, param_types(b.types, params1@), params1@.len() as int);
            let entered = b.enter(
                name1@,
                params1@,
                param_types(b.types, params1@),
                type_named(b.types, rt1@)->0,
            );
            lemma_same_trees_same_code(entered, body1@, body2@, 0, Seq::empty());
        },
        (Node::If(c1, t1, e1), Node::If(c2, t2, e2)) => {
            lemma_same_tree_same_code(b, *c1, *c2);
            let (b1, c) = spec_visit(b, *c1);
            if c is Ok {
                let cv = c->Ok_0;
                let label = b1.context.label_id(b1.main, None);
                lemma_same_tree_same_code(b1.if_test(cv), *t1, *t2);
                let b2 = spec_visit(b1.if_test(cv), *t1).0;
                lemma_same_tree_same_code(b2.if_else(label), *e1, *e2);
                lemma_same_tree_same_kind(*e1, *e2);
            }
        },
        (Node::Ret(v1), Node::Ret(v2)) => {
            lemma_same_tree_same_code(b, *v1, *v2);
        },
        _ => {},
    }
}

/// Lists of trees that are alike compile alike.
pub proof fn lemma_same_trees_same_code(
    b: BuilderModel,
    l1: Seq<Node>,
    l2: Seq<Node>,
    from: int,
    done: Seq<Value>,
)
    requires
        0 <= from,
        same_trees(l1, l2, from),
    ensures
        spec_visit_list(b, l1, from, done) == spec_visit_list(b, l2, from, done),
    decreases l1, l1.len() - from,
{
    if from < l1.len() {
        lemma_same_tree_same_code(b, l1[from], l2[from]);
        let (b1, r) = spec_visit(b, l1[from]);
        if r is Ok {
            lemma_same_trees_same_code(b1, l1, l2, from + 1, done.push(r->Ok_0));
        }
    }
}

} // verus!
