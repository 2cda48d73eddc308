//! The code generator: a builder that walks syntax trees, checks types and
//! emits instructions into the current function of its context.

use vstd::prelude::*;
use vstd::hash_map::StringHashMap;
use either::Either;
use crate::error::{CompileError, Error, ExecError};
use crate::ir::param_values;
use crate::lowering::{
    BuilderModel, Callee, NativeModel, PRINTINT, args_match, bind_params, param_types,
    spec_compile_and_run, spec_program, spec_visit, spec_visit_list, type_named,
};
use crate::machine::spec_execute;
use crate::myast::{Node, Op, lemma_nodes_size_bounds, node_size, nodes_size};
use crate::types::TypeRegistry;
use crate::wrapper::{Context, Function, Label, Type, Value};

verus! {

/// A function that is implemented outside the language: the number of its
/// entry point and its signature.
#[derive(Debug)]
pub struct NativeFunc {
    pub entry: usize,
    pub argtypes: Vec<Type>,
    pub ret: Type,
}

impl View for NativeFunc {
    type V = NativeModel;

    open spec fn view(&self) -> NativeModel {
        NativeModel { entry: self.entry, argtypes: self.argtypes@, ret: self.ret }
    }
}

/// The model of an entry of the function table.
pub open spec fn callee_view(c: Either<NativeFunc, Function>) -> Callee {
    match c {
        Either::Left(native) => Either::Left(native@),
        Either::Right(f) => Either::Right(f),
    }
}

/// The code generator.
pub struct Builder {
    pub context: Context,
    /// The function that instructions are emitted into.
    pub main: Function,
    /// The symbol table.
    pub vtable: StringHashMap<Value>,
    /// The function table.
    pub ftable: StringHashMap<Either<NativeFunc, Function>>,
    /// The type registry.
    pub types: TypeRegistry,
}

impl View for Builder {
    type V = BuilderModel;

    open spec fn view(&self) -> BuilderModel {
        BuilderModel {
            context: self.context@,
            main: self.main,
            vtable: self.vtable@,
            ftable: self.ftable@.map_values(|c: Either<NativeFunc, Function>| callee_view(c)),
            types: self.types@,
        }
    }
}

/// Whether the arguments fit the parameters in number and in type.
fn check_args(args: &Vec<Value>, params: &Vec<Type>) -> (ok: bool)
    ensures
        ok == args_match(args@, params@),
{
    if args.len() != params.len() {
        return false;
    }
    let mut i: usize = 0;
    while i < args.len()
        invariant
            i <= args.len(),
            args.len() == params.len(),
            forall|j: int| 0 <= j < i ==> (#[trigger] args@[j]).ty == params@[j],
        decreases args.len() - i,
    {
        if args[i].get_type() != params[i] {
            return false;
        }
        i += 1;
    }
    true
}

impl Builder {
    /// The current function and every compiled function of the function
    /// table belong to the context.
    pub open spec fn wf(&self) -> bool {
        self@.wf()
    }

    /// A builder with an empty entry function, the built-in types and the
    /// built-in native functions.
    pub fn new() -> (b: Builder)
        ensures
            b@ == BuilderModel::initial(),
            b.wf(),
    {
        let mut context = Context::new();
        let no_params: Vec<Type> = Vec::new();
        let main = context.new_function(no_params.as_slice(), Type::integer());
        let mut ftable: StringHashMap<Either<NativeFunc, Function>> = StringHashMap::new();
        let printint = NativeFunc {
            entry: PRINTINT,
            argtypes: vec![Type::integer()],
            ret: Type::void(),
        };
        assert(printint@.argtypes =~= seq![Type::integer()]);
        ftable.insert("printint".to_owned(), Either::Left(printint));
        let b = Builder {
            context,
            main,
            vtable: StringHashMap::new(),
            ftable,
            types: TypeRegistry::new(),
        };
        proof {
            assert(no_params@ =~= Seq::<Type>::empty());
            assert(b@.ftable =~= BuilderModel::initial().ftable);
        }
        b
    }

    /// The type that a type name stands for. Fails with `UnknownType`
    /// exactly when the registry does not have the name.
    pub fn get_type(&self, s: &String) -> (r: Result<Type, CompileError>)
        ensures
            match r {
                Ok(t) => type_named(self@.types, s@) == Some(t),
                Err(e) => e == CompileError::UnknownType && type_named(self@.types, s@) is None,
            },
    {
        match self.types.resolve(s) {
            Ok(d) => Ok(d.backend_type),
            Err(e) => Err(e),
        }
    }

    /// Makes the current function final, finishes the context and runs the
    /// function on the reference machine.
    pub fn execute(&mut self) -> (r: Result<i32, ExecError>)
        requires
            old(self).wf(),
        ensures
            final(self).wf(),
            final(self)@ == old(self)@.sealed(),
            r == spec_execute(final(self)@.context, final(self).main),
    {
        self.main.compile(&mut self.context);
        self.context.finish();
        self.main.standard_execute(&self.context)
    }

    /// Compiles a node into the current function. The state it leaves and
    /// the value or error it gives are those of `spec_visit`; compilation
    /// stops at the first error and leaves the state as it was then.
    pub fn visit(&mut self, n: &Node) -> (r: Result<Value, CompileError>)
        requires
            old(self).wf(),
        ensures
            final(self).wf(),
            final(self)@.follows(old(self)@),
            r is Ok ==> final(self).main == old(self).main,
            (final(self)@, r) == spec_visit(old(self)@, *n),
        decreases node_size(*n), 1nat,
    {
        match n {
            Node::Number(i) => self.visit_number(i),
            Node::BinOp(lhs, op, rhs) => self.visit_binop(&**lhs, op, &**rhs),
            Node::FuncDef(name, args, rettype, body) => self.visit_funcdef(
                name,
                args,
                rettype,
                body,
            ),
            Node::VarDef(name, val) => self.visit_vardef(name, val),
            Node::Ident(name) => self.visit_ident(name),
            Node::Call(name_and_args) => self.visit_call(name_and_args),
            Node::If(cond, then, other) => self.visit_if(cond, then, other),
            Node::Ret(val) => self.visit_ret(val),
            _ => Err(CompileError::Unsupported),
        }
    }

    /// A number: an integer constant of the current function.
    fn visit_number(&mut self, i: &i64) -> (r: Result<Value, CompileError>)
        requires
            old(self).wf(),
        ensures
            final(self).wf(),
            final(self)@.follows(old(self)@),
            final(self).main == old(self).main,
            (final(self)@, r) == old(self)@.number(*i),
    {
        Ok(Value::constant_long(&mut self.context, &self.main, *i))
    }

    /// An identifier: a copy of the value that it is bound to. Fails with
    /// `UndefinedVariable` if it is bound to none.
    fn visit_ident(&mut self, name: &String) -> (r: Result<Value, CompileError>)
        requires
            old(self).wf(),
        ensures
            final(self).wf(),
            final(self)@.follows(old(self)@),
            final(self).main == old(self).main,
            (final(self)@, r) == old(self)@.ident(name@),
    {
        match self.vtable.get(name.as_str()) {
            Some(ptr) => {
                let bound = *ptr;
                Ok(self.main.i_load(&mut self.context, &bound))
            },
            None => Err(CompileError::UndefinedVariable),
        }
    }

    /// A return: the value, a return of it, and an integer constant as
    /// the placeholder result.
    fn visit_ret(&mut self, val: &Box<Node>) -> (r: Result<Value, CompileError>)
        requires
            old(self).wf(),
        ensures
            final(self).wf(),
            final(self)@.follows(old(self)@),
            r is Ok ==> final(self).main == old(self).main,
            (final(self)@, r) == spec_visit(old(self)@, Node::Ret(*val)),
        decreases node_size(**val) + 1, 0nat,
    {
        let cval = match self.visit(&**val) {
            Ok(v) => v,
            Err(e) => {
                return Err(e);
            },
        };
        self.main.i_return(&mut self.context, &cval);
        Ok(Value::constant_long(&mut self.context, &self.main, 0))
    }

    /// A binary operator: the left operand, the right operand, and then
    /// what the types of the two allow.
    fn visit_binop(&mut self, lhs: &Node, op: &Op, rhs: &Node) -> (r: Result<Value, CompileError>)
        requires
            old(self).wf(),
        ensures
            final(self).wf(),
            final(self)@.follows(old(self)@),
            r is Ok ==> final(self).main == old(self).main,
            (final(self)@, r) == spec_visit(
                old(self)@,
                Node::BinOp(Box::new(*lhs), *op, Box::new(*rhs)),
            ),
        decreases node_size(*lhs) + node_size(*rhs) + 1, 0nat,
    {
        let lhs = match self.visit(lhs) {
            Ok(v) => v,
            Err(e) => {
                return Err(e);
            },
        };
        let rhs = match self.visit(rhs) {
            Ok(v) => v,
            Err(e) => {
                return Err(e);
            },
        };
        if lhs.get_type().is_int() && rhs.get_type().is_int() {
            match op {
                Op::Add => Ok(self.main.i_add(&mut self.context, &lhs, &rhs)),
                Op::Sub => Ok(self.main.i_sub(&mut self.context, &lhs, &rhs)),
                Op::Mul => Ok(self.main.i_mul(&mut self.context, &lhs, &rhs)),
                Op::Eql => {
                    let flag = self.main.i_eq(&mut self.context, &lhs, &rhs);
                    Ok(self.main.i_convert(&mut self.context, &flag, Type::bool()))
                },
                Op::Neq => {
                    let flag = self.main.i_ne(&mut self.context, &lhs, &rhs);
                    Ok(self.main.i_convert(&mut self.context, &flag, Type::bool()))
                },
                Op::Lwt => {
                    let flag = self.main.i_lt(&mut self.context, &lhs, &rhs);
                    Ok(self.main.i_convert(&mut self.context, &flag, Type::bool()))
                },
                Op::Lwe => {
                    let flag = self.main.i_le(&mut self.context, &lhs, &rhs);
                    Ok(self.main.i_convert(&mut self.context, &flag, Type::bool()))
                },
                Op::Grt => {
                    let flag = self.main.i_gt(&mut self.context, &lhs, &rhs);
                    Ok(self.main.i_convert(&mut self.context, &flag, Type::bool()))
                },
                Op::Gre => {
                    let flag = self.main.i_ge(&mut self.context, &lhs, &rhs);
                    Ok(self.main.i_convert(&mut self.context, &flag, Type::bool()))
                },
                Op::Div => Err(CompileError::Unsupported),
                _ => Err(CompileError::TypeMismatch),
            }
        } else if lhs.get_type().is_bool() && rhs.get_type().is_bool() {
            match op {
                Op::And => Ok(self.main.i_and(&mut self.context, &lhs, &rhs)),
                Op::Or => Ok(self.main.i_or(&mut self.context, &lhs, &rhs)),
                Op::Div => Err(CompileError::Unsupported),
                _ => Err(CompileError::TypeMismatch),
            }
        } else {
            Err(CompileError::TypeMismatch)
        }
    }

    /// A binding: the initial value, bound to the name in place of any
    /// earlier binding, and a void constant as the placeholder result.
    fn visit_vardef(&mut self, name: &String, val: &Box<Node>) -> (r: Result<
        Value,
        CompileError,
    >)
        requires
            old(self).wf(),
        ensures
            final(self).wf(),
            final(self)@.follows(old(self)@),
            r is Ok ==> final(self).main == old(self).main,
            (final(self)@, r) == spec_visit(old(self)@, Node::VarDef(*name, *val)),
        decreases node_size(**val) + 1, 0nat,
    {
        let val = match self.visit(&**val) {
            Ok(v) => v,
            Err(e) => {
                return Err(e);
            },
        };
        self.vtable.insert(name.clone(), val);
        Ok(Value::constant_void(&mut self.context, &self.main))
    }

    /// An `if`: the condition, which must be a boolean; a jump over the
    /// first branch that is taken when the condition is false; the first
    /// branch; the target of the jump; and the second branch unless it is
    /// empty. There is no jump over the second branch.
    fn visit_if(&mut self, cond: &Box<Node>, then: &Box<Node>, other: &Box<Node>) -> (r: Result<
        Value,
        CompileError,
    >)
        requires
            old(self).wf(),
        ensures
            final(self).wf(),
            final(self)@.follows(old(self)@),
            r is Ok ==> final(self).main == old(self).main,
            (final(self)@, r) == spec_visit(old(self)@, Node::If(*cond, *then, *other)),
        decreases node_size(**cond) + node_size(**then) + node_size(**other) + 1, 0nat,
    {
        let ccond = match self.visit(&**cond) {
            Ok(v) => v,
            Err(e) => {
                return Err(e);
            },
        };
        if !ccond.get_type().is_bool() {
            return Err(CompileError::ConditionNotBoolean);
        }
        let mut elsetree = Label::new();
        self.main.i_branch_if_not(&mut self.context, &ccond, &mut elsetree);
        match self.visit(&**then) {
            Ok(_) => {},
            Err(e) => {
                return Err(e);
            },
        }
        elsetree.place(&mut self.context, &self.main);
        match &**other {
            Node::Empty => {},
            other => {
                match self.visit(other) {
                    Ok(_) => {},
                    Err(e) => {
                        return Err(e);
                    },
                }
            },
        }
        Ok(Value::constant_void(&mut self.context, &self.main))
    }

    /// A call: the arguments from left to right, then the callee, which
    /// must be in the function table, then the types of the arguments, which
    /// must be those of the parameters.
    fn visit_call(&mut self, name_and_args: &Vec<Node>) -> (r: Result<Value, CompileError>)
        requires
            old(self).wf(),
        ensures
            final(self).wf(),
            final(self)@.follows(old(self)@),
            r is Ok ==> final(self).main == old(self).main,
            (final(self)@, r) == spec_visit(old(self)@, Node::Call(*name_and_args)),
        decreases nodes_size(name_and_args@, 0) + 1, 0nat,
    {
        if name_and_args.len() == 0 {
            return Err(CompileError::InvalidCallTarget);
        }
        let fname = match &name_and_args[0] {
            Node::Ident(id) => id,
            _ => {
                return Err(CompileError::InvalidCallTarget);
            },
        };
        let ghost whole = spec_visit(old(self)@, Node::Call(*name_and_args));
        let ghost target = spec_visit_list(old(self)@, name_and_args@, 1, Seq::empty());
        assert(whole == match target.1 {
            Err(e) => target.0.fail(e),
            Ok(vals) => target.0.call(fname@, vals),
        });
        let mut args: Vec<Value> = Vec::new();
        let mut i: usize = 1;
        while i < name_and_args.len()
            invariant
                1 <= i <= name_and_args.len(),
                self.wf(),
                self@.follows(old(self)@),
                self.main == old(self).main,
                target == spec_visit_list(self@, name_and_args@, i as int, args@),
                whole == spec_visit(old(self)@, Node::Call(*name_and_args)),
                whole == match target.1 {
                    Err(e) => target.0.fail(e),
                    Ok(vals) => target.0.call(fname@, vals),
                },
            decreases name_and_args.len() - i,
        {
            proof {
                lemma_nodes_size_bounds(name_and_args@, 0, i as int);
            }
            let ghost before = self@;
            match self.visit(&name_and_args[i]) {
                Ok(v) => {
                    args.push(v);
                },
                Err(e) => {
                    assert(spec_visit_list(before, name_and_args@, i as int, args@) == (
                        self@,
                        Err::<Seq<Value>, CompileError>(e),
                    ));
                    return Err(e);
                },
            }
            i += 1;
        }
        assert(self@.ftable.contains_key(fname@) == self.ftable@.contains_key(fname@));
        assert(self.ftable@.contains_key(fname@) ==> self@.ftable[fname@] == callee_view(
            self.ftable@[fname@],
        ));
        match self.ftable.get(fname.as_str()) {
            None => Err(CompileError::UndefinedFunction),
            Some(Either::Left(nativefunc)) => {
                if check_args(&args, &nativefunc.argtypes) {
                    Ok(
                        self.main.i_native_call(
                            &mut self.context,
                            nativefunc.entry,
                            args.as_slice(),
                            nativefunc.ret,
                        ),
                    )
                } else {
                    Err(CompileError::ArgumentTypeMismatch)
                }
            },
            Some(Either::Right(codefunc)) => {
                if check_args(&args, &self.context.funcs[codefunc.id].params) {
                    Ok(self.main.i_normal_call(&mut self.context, codefunc, args.as_slice()))
                } else {
                    Err(CompileError::ArgumentTypeMismatch)
                }
            },
        }
    }

    /// A function definition: a new function becomes the current one, the
    /// symbol table is emptied and filled with the parameters, and the name
    /// is bound to the function before the body is compiled. After the body
    /// the function is made final and the function that was current before
    /// is current again; the symbol table stays as it is.
    fn visit_funcdef(
        &mut self,
        name: &String,
        args: &Vec<(String, String)>,
        rettype: &String,
        body: &Vec<Node>,
    ) -> (r: Result<Value, CompileError>)
        requires
            old(self).wf(),
        ensures
            final(self).wf(),
            final(self)@.follows(old(self)@),
            r is Ok ==> final(self).main == old(self).main,
            (final(self)@, r) == spec_visit(
                old(self)@,
                Node::FuncDef(*name, *args, *rettype, *body),
            ),
        decreases nodes_size(body@, 0) + 1, 0nat,
    {
        let mut argtypes: Vec<Type> = Vec::new();
        let mut i: usize = 0;
        while i < args.len()
            invariant
                i <= args.len(),
                self@ == old(self)@,
                self.wf(),
                forall|j: int|
                    0 <= j < i ==> type_named(self@.types, (#[trigger] args@[j]).1@) is Some,
                argtypes@ == param_types(self@.types, args@.take(i as int)),
            decreases args.len() - i,
        {
            match self.get_type(&args[i].1) {
                Ok(t) => {
                    argtypes.push(t);
                },
                Err(e) => {
                    return Err(e);
                },
            }
            assert(argtypes@ =~= param_types(self@.types, args@.take(i + 1)));
            i += 1;
        }
        assert(args@.take(args.len() as int) =~= args@);
        let ret = match self.get_type(rettype) {
            Ok(t) => t,
            Err(e) => {
                return Err(e);
            },
        };
        let func = self.context.new_function(argtypes.as_slice(), ret);
        let pre_main = self.main;
        self.main = func;
        self.vtable.clear();
        assert(self.context@.body(func).params == argtypes@);
        let params = self.main.get_params(&self.context);
        let ghost created = self.context;
        let mut i: usize = 0;
        while i < params.len()
            invariant
                i <= params.len(),
                params.len() == args.len(),
                params@ == param_values(argtypes@),
                self.context == created,
                self.main == func,
                self.ftable == old(self).ftable,
                self.types == old(self).types,
                self.vtable@ == bind_params(args@, argtypes@, i as int),
            decreases params.len() - i,
        {
            self.vtable.insert(args[i].0.clone(), params[i]);
            i += 1;
        }
        self.ftable.insert(name.clone(), Either::Right(self.main));
        let ghost entered = old(self)@.enter(name@, args@, argtypes@, ret);
        assert(self@.ftable =~= entered.ftable);
        assert(self@ == entered);
        let ghost whole = spec_visit(old(self)@, Node::FuncDef(*name, *args, *rettype, *body));
        let ghost target = spec_visit_list(entered, body@, 0, Seq::empty());
        assert(whole == match target.1 {
            Err(e) => target.0.fail(e),
            Ok(_) => target.0.leave(pre_main),
        });
        let ghost mut done: Seq<Value> = Seq::empty();
        let mut k: usize = 0;
        while k < body.len()
            invariant
                k <= body.len(),
                self.wf(),
                self@.follows(old(self)@),
                self@.context.has(pre_main),
                self.main == func,
                target == spec_visit_list(self@, body@, k as int, done),
                whole == spec_visit(old(self)@, Node::FuncDef(*name, *args, *rettype, *body)),
                whole == match target.1 {
                    Err(e) => target.0.fail(e),
                    Ok(_) => target.0.leave(pre_main),
                },
            decreases body.len() - k,
        {
            proof {
                lemma_nodes_size_bounds(body@, 0, k as int);
            }
            let ghost before = self@;
            match self.visit(&body[k]) {
                Ok(v) => {
                    proof {
                        done = done.push(v);
                    }
                },
                Err(e) => {
                    assert(spec_visit_list(before, body@, k as int, done) == (
                        self@,
                        Err::<Seq<Value>, CompileError>(e),
                    ));
                    return Err(e);
                },
            }
            k += 1;
        }
        self.main.compile(&mut self.context);
        self.main = pre_main;
        Ok(Value::constant_void(&mut self.context, &self.main))
    }
}

/// Compiles a whole program: the statements in order into the entry
/// function of a new builder, then a return of the value of the last one,
/// or of zero if there is none. Gives the builder, or the first error.
pub fn compile_program(nodes: &Vec<Node>) -> (r: Result<Builder, CompileError>)
    ensures
        match r {
            Ok(b) => b.wf() && spec_program(nodes@).1 is Ok && b@ == spec_program(nodes@).0,
            Err(e) => spec_program(nodes@).1 == Err::<Value, CompileError>(e),
        },
{
    let mut builder = Builder::new();
    let mut val = Value::constant_long(&mut builder.context, &builder.main, 0);
    let ghost start = builder@;
    let ghost mut done: Seq<Value> = seq![val];
    let ghost target = spec_visit_list(start, nodes@, 0, seq![val]);
    let ghost whole = spec_program(nodes@);
    assert(whole == match target.1 {
        Err(e) => target.0.fail(e),
        Ok(vals) => (
            target.0.with_context(target.0.context.ret(target.0.main, vals.last())),
            Ok(vals.last()),
        ),
    });
    let mut i: usize = 0;
    while i < nodes.len()
        invariant
            i <= nodes.len(),
            builder.wf(),
            done.len() > 0,
            done.last() == val,
            target == spec_visit_list(builder@, nodes@, i as int, done),
            whole == spec_program(nodes@),
            whole == match target.1 {
                Err(e) => target.0.fail(e),
                Ok(vals) => (
                    target.0.with_context(target.0.context.ret(target.0.main, vals.last())),
                    Ok(vals.last()),
                ),
            },
        decreases nodes.len() - i,
    {
        let ghost before = builder@;
        match builder.visit(&nodes[i]) {
            Ok(v) => {
                val = v;
                proof {
                    done = done.push(v);
                }
            },
            Err(e) => {
                assert(spec_visit_list(before, nodes@, i as int, done) == (
                    builder@,
                    Err::<Seq<Value>, CompileError>(e),
                ));
                return Err(e);
            },
        }
        i += 1;
    }
    builder.main.i_return(&mut builder.context, &val);
    Ok(builder)
}

/// Compiles a whole program and runs it. Gives the result of the entry
/// function, or the first error of compilation, or the reason why the
/// machine gave no result.
pub fn compile_and_run(nodes: &Vec<Node>) -> (r: Result<i32, Error>)
    ensures
        r == spec_compile_and_run(nodes@),
{
    match compile_program(nodes) {
        Err(e) => Err(Error::Compile(e)),
        Ok(mut builder) => match builder.execute() {
            Ok(w) => Ok(w),
            Err(e) => Err(Error::Exec(e)),
        },
    }
}

} // verus!
