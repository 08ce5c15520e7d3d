//! The syntax tree of the generated program text.
//!
//! Every node type has an executable form, which owns its strings and
//! children, and a mathematical model (its view), in which strings are
//! sequences of characters and children are sequences of models. Contracts
//! elsewhere in the crate speak of the models.

use vstd::prelude::*;

verus! {

/// A binary operator of the generated language.
#[derive(Clone, Copy, Debug, PartialEq, Eq, Structural)]
pub enum BinaryOp {
    /// `!==`
    NotEqEq,
    /// `&&`
    LogicalAnd,
    /// `>>>`
    ZeroFillRShift,
}

/// An assignment operator of the generated language.
#[derive(Clone, Copy, Debug, PartialEq, Eq, Structural)]
pub enum AssignOp {
    /// `=`
    Assign,
    /// `??=`
    NullishAssign,
}

/// A keyword type of the generated language.
#[derive(Clone, Copy, Debug, PartialEq, Eq, Structural)]
pub enum TsKeyword {
    Number,
    BigInt,
    String,
    Boolean,
    Undefined,
}

/// How a variable is declared.
#[derive(Clone, Copy, Debug, PartialEq, Eq, Structural)]
pub enum VarKind {
    Const,
    Let,
}

/// A type expression.
#[derive(Debug, PartialEq, Eq)]
pub enum TsType {
    /// `number`, `bigint`, `string`, `boolean`, `undefined`
    Keyword(TsKeyword),
    /// A named type with its type arguments: `Name<A, B>`.
    Ref(String, Vec<TsType>),
    /// `T[]`
    Array(Box<TsType>),
    /// `A | B`
    Union(Vec<TsType>),
}

/// The model of a [`TsType`].
pub enum SpecTsType {
    Keyword(TsKeyword),
    Ref(Seq<char>, Seq<SpecTsType>),
    Array(Box<SpecTsType>),
    Union(Seq<SpecTsType>),
}

/// The model of one type expression.
pub open spec fn ts_type_view(t: TsType) -> SpecTsType
    decreases t,
{
    match t {
        TsType::Keyword(k) => SpecTsType::Keyword(k),
        TsType::Ref(name, params) => SpecTsType::Ref(name@, ts_types_view(params@)),
        TsType::Array(elem) => SpecTsType::Array(Box::new(ts_type_view(*elem))),
        TsType::Union(types) => SpecTsType::Union(ts_types_view(types@)),
    }
}

/// The models of a sequence of type expressions, in order.
pub open spec fn ts_types_view(ts: Seq<TsType>) -> Seq<SpecTsType>
    decreases ts,
{
    Seq::new(
        ts.len(),
        |i: int|
            if 0 <= i < ts.len() {
                ts_type_view(ts[i])
            } else {
                SpecTsType::Keyword(TsKeyword::Undefined)
            },
    )
}

impl View for TsType {
    type V = SpecTsType;

    open spec fn view(&self) -> SpecTsType {
        ts_type_view(*self)
    }
}

/// The model of an optional type annotation.
pub open spec fn opt_ts_type_view(t: Option<TsType>) -> Option<SpecTsType> {
    match t {
        Some(t) => Some(t@),
        None => None,
    }
}

/// A parameter of an arrow function, with its optional type annotation.
#[derive(Debug, PartialEq, Eq)]
pub struct Param {
    pub name: String,
    pub type_ann: Option<TsType>,
}

/// The model of a [`Param`].
pub struct SpecParam {
    pub name: Seq<char>,
    pub type_ann: Option<SpecTsType>,
}

impl View for Param {
    type V = SpecParam;

    open spec fn view(&self) -> SpecParam {
        SpecParam { name: self.name@, type_ann: opt_ts_type_view(self.type_ann) }
    }
}

/// The models of a sequence of parameters, in order.
pub open spec fn params_view(ps: Seq<Param>) -> Seq<SpecParam> {
    Seq::new(ps.len(), |i: int| ps[i]@)
}

/// An expression.
#[derive(Debug, PartialEq, Eq)]
pub enum Expr {
    /// `this`
    This,
    /// A bare identifier.
    Ident(String),
    /// An integer literal.
    Num(i64),
    /// A numeric literal given by its decimal text.
    NumText(String),
    /// A string literal.
    Str(String),
    /// `true` or `false`
    Bool(bool),
    /// `[a, b]`
    Array(Vec<Expr>),
    /// `obj.prop`
    Member(Box<Expr>, String),
    /// `obj?.prop`
    OptMember(Box<Expr>, String),
    /// `callee(args)`
    Call(Box<Expr>, Vec<Expr>),
    /// `new callee(args)`
    New(Box<Expr>, Vec<Expr>),
    /// `left op right`
    Bin(BinaryOp, Box<Expr>, Box<Expr>),
    /// `!arg`
    Not(Box<Expr>),
    /// `target op value`
    Assign(AssignOp, Box<Expr>, Box<Expr>),
    /// `expr!`
    NonNull(Box<Expr>),
    /// `(params) => body`
    Arrow(Vec<Param>, Box<Expr>),
    /// `(params) => { body }`
    ArrowBlock(Vec<Param>, Vec<Stmt>),
}

/// One arm of a `switch`: `case test:` or, without a test, `default:`.
#[derive(Debug, PartialEq, Eq)]
pub struct SwitchCase {
    pub test: Option<Expr>,
    pub cons: Vec<Stmt>,
}

/// What a `for ... of` loop binds on each round.
#[derive(Debug, PartialEq, Eq)]
pub enum Binding {
    /// `const name`
    Name(String),
    /// `const [first, second]`
    Pair(String, String),
}

/// A statement.
#[derive(Debug, PartialEq, Eq)]
pub enum Stmt {
    /// An expression followed by `;`.
    Expr(Expr),
    /// `const name: T = init;` or `let name: T = init;`
    Decl(VarKind, String, Option<TsType>, Expr),
    /// `if (test) cons else alt`
    If(Expr, Box<Stmt>, Option<Box<Stmt>>),
    /// `break;`
    Break,
    /// `throw arg;`
    Throw(Expr),
    /// `return arg;`
    Return(Expr),
    /// `switch (discriminant) { cases }`
    Switch(Expr, Vec<SwitchCase>),
    /// `while (test) body`
    While(Expr, Box<Stmt>),
    /// `for (const binding of iterable) body`
    ForOf(Binding, Expr, Box<Stmt>),
    /// `{ stmts }`
    Block(Vec<Stmt>),
}

/// The model of an [`Expr`].
pub enum SpecExpr {
    This,
    Ident(Seq<char>),
    Num(int),
    NumText(Seq<char>),
    Str(Seq<char>),
    Bool(bool),
    Array(Seq<SpecExpr>),
    Member(Box<SpecExpr>, Seq<char>),
    OptMember(Box<SpecExpr>, Seq<char>),
    Call(Box<SpecExpr>, Seq<SpecExpr>),
    New(Box<SpecExpr>, Seq<SpecExpr>),
    Bin(BinaryOp, Box<SpecExpr>, Box<SpecExpr>),
    Not(Box<SpecExpr>),
    Assign(AssignOp, Box<SpecExpr>, Box<SpecExpr>),
    NonNull(Box<SpecExpr>),
    Arrow(Seq<SpecParam>, Box<SpecExpr>),
    ArrowBlock(Seq<SpecParam>, Seq<SpecStmt>),
}

/// The model of a [`SwitchCase`].
pub struct SpecSwitchCase {
    pub test: Option<SpecExpr>,
    pub cons: Seq<SpecStmt>,
}

/// The model of a [`Binding`].
pub enum SpecBinding {
    Name(Seq<char>),
    Pair(Seq<char>, Seq<char>),
}

/// The model of a [`Stmt`].
pub enum SpecStmt {
    Expr(SpecExpr),
    Decl(VarKind, Seq<char>, Option<SpecTsType>, SpecExpr),
    If(SpecExpr, Box<SpecStmt>, Option<Box<SpecStmt>>),
    Break,
    Throw(SpecExpr),
    Return(SpecExpr),
    Switch(SpecExpr, Seq<SpecSwitchCase>),
    While(SpecExpr, Box<SpecStmt>),
    ForOf(SpecBinding, SpecExpr, Box<SpecStmt>),
    Block(Seq<SpecStmt>),
}

impl View for Binding {
    type V = SpecBinding;

    open spec fn view(&self) -> SpecBinding {
        match *self {
            Binding::Name(n) => SpecBinding::Name(n@),
            Binding::Pair(a, b) => SpecBinding::Pair(a@, b@),
        }
    }
}

/// The model of one expression.
pub open spec fn expr_view(e: Expr) -> SpecExpr
    decreases e,
{
    match e {
        Expr::This => SpecExpr::This,
        Expr::Ident(name) => SpecExpr::Ident(name@),
        Expr::Num(n) => SpecExpr::Num(n as int),
        Expr::NumText(text) => SpecExpr::NumText(text@),
        Expr::Str(value) => SpecExpr::Str(value@),
        Expr::Bool(b) => SpecExpr::Bool(b),
        Expr::Array(elems) => SpecExpr::Array(exprs_view(elems@)),
        Expr::Member(obj, prop) => SpecExpr::Member(Box::new(expr_view(*obj)), prop@),
        Expr::OptMember(obj, prop) => SpecExpr::OptMember(Box::new(expr_view(*obj)), prop@),
        Expr::Call(callee, args) => SpecExpr::Call(
            Box::new(expr_view(*callee)),
            exprs_view(args@),
        ),
        Expr::New(callee, args) => SpecExpr::New(Box::new(expr_view(*callee)), exprs_view(args@)),
        Expr::Bin(op, left, right) => SpecExpr::Bin(
            op,
            Box::new(expr_view(*left)),
            Box::new(expr_view(*right)),
        ),
        Expr::Not(arg) => SpecExpr::Not(Box::new(expr_view(*arg))),
        Expr::Assign(op, target, value) => SpecExpr::Assign(
            op,
            Box::new(expr_view(*target)),
            Box::new(expr_view(*value)),
        ),
        Expr::NonNull(arg) => SpecExpr::NonNull(Box::new(expr_view(*arg))),
        Expr::Arrow(params, body) => SpecExpr::Arrow(
            params_view(params@),
            Box::new(expr_view(*body)),
        ),
        Expr::ArrowBlock(params, body) => SpecExpr::ArrowBlock(
            params_view(params@),
            stmts_view(body@),
        ),
    }
}

/// The models of a sequence of expressions, in order.
pub open spec fn exprs_view(es: Seq<Expr>) -> Seq<SpecExpr>
    decreases es,
{
    Seq::new(
        es.len(),
        |i: int|
            if 0 <= i < es.len() {
                expr_view(es[i])
            } else {
                SpecExpr::This
            },
    )
}

/// The model of one statement.
pub open spec fn stmt_view(s: Stmt) -> SpecStmt
    decreases s,
{
    match s {
        Stmt::Expr(e) => SpecStmt::Expr(expr_view(e)),
        Stmt::Decl(kind, name, type_ann, init) => SpecStmt::Decl(
            kind,
            name@,
            opt_ts_type_view(type_ann),
            expr_view(init),
        ),
        Stmt::If(test, cons, alt) => SpecStmt::If(
            expr_view(test),
            Box::new(stmt_view(*cons)),
            match alt {
                Some(alt) => Some(Box::new(stmt_view(*alt))),
                None => None,
            },
        ),
        Stmt::Break => SpecStmt::Break,
        Stmt::Throw(arg) => SpecStmt::Throw(expr_view(arg)),
        Stmt::Return(arg) => SpecStmt::Return(expr_view(arg)),
        Stmt::Switch(discriminant, cases) => SpecStmt::Switch(
            expr_view(discriminant),
            cases_view(cases@),
        ),
        Stmt::While(test, body) => SpecStmt::While(expr_view(test), Box::new(stmt_view(*body))),
        Stmt::ForOf(binding, iterable, body) => SpecStmt::ForOf(
            binding@,
            expr_view(iterable),
            Box::new(stmt_view(*body)),
        ),
        Stmt::Block(stmts) => SpecStmt::Block(stmts_view(stmts@)),
    }
}

/// The models of a sequence of statements, in order.
pub open spec fn stmts_view(ss: Seq<Stmt>) -> Seq<SpecStmt>
    decreases ss,
{
    Seq::new(
        ss.len(),
        |i: int|
            if 0 <= i < ss.len() {
                stmt_view(ss[i])
            } else {
                SpecStmt::Break
            },
    )
}

/// The model of one `switch` arm.
pub open spec fn case_view(c: SwitchCase) -> SpecSwitchCase
    decreases c,
{
    SpecSwitchCase {
        test: match c.test {
            Some(t) => Some(expr_view(t)),
            None => None,
        },
        cons: stmts_view(c.cons@),
    }
}

/// The models of a sequence of `switch` arms, in order.
pub open spec fn cases_view(cs: Seq<SwitchCase>) -> Seq<SpecSwitchCase>
    decreases cs,
{
    Seq::new(
        cs.len(),
        |i: int|
            if 0 <= i < cs.len() {
                case_view(cs[i])
            } else {
                SpecSwitchCase { test: None, cons: Seq::empty() }
            },
    )
}

impl View for Expr {
    type V = SpecExpr;

    open spec fn view(&self) -> SpecExpr {
        expr_view(*self)
    }
}

impl View for Stmt {
    type V = SpecStmt;

    open spec fn view(&self) -> SpecStmt {
        stmt_view(*self)
    }
}

impl View for SwitchCase {
    type V = SpecSwitchCase;

    open spec fn view(&self) -> SpecSwitchCase {
        case_view(*self)
    }
}

/// The model of an optional expression.
pub open spec fn opt_expr_view(e: Option<Expr>) -> Option<SpecExpr> {
    match e {
        Some(e) => Some(e@),
        None => None,
    }
}

/// A property of a generated class: `key: T = value;`, or `key?: T = value;`
/// where it is optional.
#[derive(Debug, PartialEq, Eq)]
pub struct ClassProp {
    pub key: String,
    pub optional: bool,
    pub value: Option<Expr>,
    pub type_ann: Option<TsType>,
}

/// The model of a [`ClassProp`].
pub struct SpecClassProp {
    pub key: Seq<char>,
    pub optional: bool,
    pub value: Option<SpecExpr>,
    pub type_ann: Option<SpecTsType>,
}

impl View for ClassProp {
    type V = SpecClassProp;

    open spec fn view(&self) -> SpecClassProp {
        SpecClassProp {
            key: self.key@,
            optional: self.optional,
            value: opt_expr_view(self.value),
            type_ann: opt_ts_type_view(self.type_ann),
        }
    }
}

impl SpecExpr {
    /// `undefined`
    pub open spec fn undefined() -> SpecExpr {
        SpecExpr::Ident("undefined"@)
    }

    /// `name`
    pub open spec fn ident(name: Seq<char>) -> SpecExpr {
        SpecExpr::Ident(name)
    }

    /// `obj.prop`
    pub open spec fn member(obj: SpecExpr, prop: Seq<char>) -> SpecExpr {
        SpecExpr::Member(Box::new(obj), prop)
    }

    /// `obj?.prop`
    pub open spec fn opt_member(obj: SpecExpr, prop: Seq<char>) -> SpecExpr {
        SpecExpr::OptMember(Box::new(obj), prop)
    }

    /// `callee(args)`
    pub open spec fn call(callee: SpecExpr, args: Seq<SpecExpr>) -> SpecExpr {
        SpecExpr::Call(Box::new(callee), args)
    }

    /// `new callee(args)`
    pub open spec fn new_of(callee: SpecExpr, args: Seq<SpecExpr>) -> SpecExpr {
        SpecExpr::New(Box::new(callee), args)
    }

    /// `left op right`
    pub open spec fn bin(op: BinaryOp, left: SpecExpr, right: SpecExpr) -> SpecExpr {
        SpecExpr::Bin(op, Box::new(left), Box::new(right))
    }

    /// `left !== right`
    pub open spec fn not_eq(left: SpecExpr, right: SpecExpr) -> SpecExpr {
        SpecExpr::bin(BinaryOp::NotEqEq, left, right)
    }

    /// `left && right`
    pub open spec fn and(left: SpecExpr, right: SpecExpr) -> SpecExpr {
        SpecExpr::bin(BinaryOp::LogicalAnd, left, right)
    }

    /// `!arg`
    pub open spec fn not(arg: SpecExpr) -> SpecExpr {
        SpecExpr::Not(Box::new(arg))
    }

    /// `target op value`
    pub open spec fn assign(op: AssignOp, target: SpecExpr, value: SpecExpr) -> SpecExpr {
        SpecExpr::Assign(op, Box::new(target), Box::new(value))
    }

    /// `arg!`
    pub open spec fn non_null(arg: SpecExpr) -> SpecExpr {
        SpecExpr::NonNull(Box::new(arg))
    }

    /// `(params) => body`
    pub open spec fn arrow(params: Seq<SpecParam>, body: SpecExpr) -> SpecExpr {
        SpecExpr::Arrow(params, Box::new(body))
    }
}

impl SpecStmt {
    /// `if (test) cons else alt`
    pub open spec fn if_else(test: SpecExpr, cons: SpecStmt, alt: SpecStmt) -> SpecStmt {
        SpecStmt::If(test, Box::new(cons), Some(Box::new(alt)))
    }

    /// `if (test) cons`
    pub open spec fn if_then(test: SpecExpr, cons: SpecStmt) -> SpecStmt {
        SpecStmt::If(test, Box::new(cons), None)
    }

    /// `while (test) body`
    pub open spec fn while_loop(test: SpecExpr, body: SpecStmt) -> SpecStmt {
        SpecStmt::While(test, Box::new(body))
    }

    /// `for (const binding of iterable) body`
    pub open spec fn for_of(binding: SpecBinding, iterable: SpecExpr, body: SpecStmt) -> SpecStmt {
        SpecStmt::ForOf(binding, iterable, Box::new(body))
    }
}

/// Appending a statement appends its model.
pub proof fn lemma_stmts_view_push(ss: Seq<Stmt>, s: Stmt)
    ensures
        stmts_view(ss.push(s)) == stmts_view(ss).push(s@),
{
}

/// Appending a `switch` arm appends its model.
pub proof fn lemma_cases_view_push(cs: Seq<SwitchCase>, c: SwitchCase)
    ensures
        cases_view(cs.push(c)) == cases_view(cs).push(c@),
{
}

/// The empty argument list.
pub fn args0() -> (r: Vec<Expr>)
    ensures
        exprs_view(r@) == Seq::<SpecExpr>::empty(),
{
    let r: Vec<Expr> = Vec::new();
    r
}

/// The argument list of one expression.
pub fn args1(a: Expr) -> (r: Vec<Expr>)
    ensures
        exprs_view(r@) == seq![a@],
{
    let mut r: Vec<Expr> = Vec::new();
    r.push(a);
    r
}

/// The argument list of two expressions.
pub fn args2(a: Expr, b: Expr) -> (r: Vec<Expr>)
    ensures
        exprs_view(r@) == seq![a@, b@],
{
    let mut r: Vec<Expr> = Vec::new();
    r.push(a);
    r.push(b);
    r
}

/// The argument list of three expressions.
pub fn args3(a: Expr, b: Expr, c: Expr) -> (r: Vec<Expr>)
    ensures
        exprs_view(r@) == seq![a@, b@, c@],
{
    let mut r: Vec<Expr> = Vec::new();
    r.push(a);
    r.push(b);
    r.push(c);
    r
}

/// The empty parameter list.
pub fn params0() -> (r: Vec<Param>)
    ensures
        params_view(r@) == Seq::<SpecParam>::empty(),
{
    let r: Vec<Param> = Vec::new();
    r
}

/// The parameter list of one parameter.
pub fn params1(name: &str, type_ann: Option<TsType>) -> (r: Vec<Param>)
    ensures
        params_view(r@) == seq![SpecParam { name: name@, type_ann: opt_ts_type_view(type_ann) }],
{
    let mut r: Vec<Param> = Vec::new();
    r.push(Param { name: name.to_owned(), type_ann });
    r
}

/// `name`
pub fn ident(name: &str) -> (r: Expr)
    ensures
        r@ == SpecExpr::ident(name@),
{
    Expr::Ident(name.to_owned())
}

/// `undefined`
pub fn undefined() -> (r: Expr)
    ensures
        r@ == SpecExpr::undefined(),
{
    ident("undefined")
}

/// The integer literal `n`.
pub fn num(n: i64) -> (r: Expr)
    ensures
        r@ == SpecExpr::Num(n as int),
{
    Expr::Num(n)
}

/// The string literal with the given contents.
pub fn str_lit(value: &str) -> (r: Expr)
    ensures
        r@ == SpecExpr::Str(value@),
{
    Expr::Str(value.to_owned())
}

/// `obj.prop`
pub fn member(obj: Expr, prop: &str) -> (r: Expr)
    ensures
        r@ == SpecExpr::member(obj@, prop@),
{
    Expr::Member(Box::new(obj), prop.to_owned())
}

/// `obj?.prop`
pub fn opt_member(obj: Expr, prop: &str) -> (r: Expr)
    ensures
        r@ == SpecExpr::opt_member(obj@, prop@),
{
    Expr::OptMember(Box::new(obj), prop.to_owned())
}

/// `callee(args)`
pub fn call(callee: Expr, args: Vec<Expr>) -> (r: Expr)
    ensures
        r@ == SpecExpr::call(callee@, exprs_view(args@)),
{
    Expr::Call(Box::new(callee), args)
}

/// `callee()`
pub fn call0(callee: Expr) -> (r: Expr)
    ensures
        r@ == SpecExpr::call(callee@, Seq::empty()),
{
    call(callee, args0())
}

/// `callee(a)`
pub fn call1(callee: Expr, a: Expr) -> (r: Expr)
    ensures
        r@ == SpecExpr::call(callee@, seq![a@]),
{
    call(callee, args1(a))
}

/// `new callee(args)`
pub fn new_of(callee: Expr, args: Vec<Expr>) -> (r: Expr)
    ensures
        r@ == SpecExpr::new_of(callee@, exprs_view(args@)),
{
    Expr::New(Box::new(callee), args)
}

/// `new callee()`
pub fn new0(callee: Expr) -> (r: Expr)
    ensures
        r@ == SpecExpr::new_of(callee@, Seq::empty()),
{
    new_of(callee, args0())
}

/// `left op right`
pub fn bin(op: BinaryOp, left: Expr, right: Expr) -> (r: Expr)
    ensures
        r@ == SpecExpr::bin(op, left@, right@),
{
    Expr::Bin(op, Box::new(left), Box::new(right))
}

/// `left !== right`
pub fn not_eq(left: Expr, right: Expr) -> (r: Expr)
    ensures
        r@ == SpecExpr::not_eq(left@, right@),
{
    bin(BinaryOp::NotEqEq, left, right)
}

/// `left && right`
pub fn and(left: Expr, right: Expr) -> (r: Expr)
    ensures
        r@ == SpecExpr::and(left@, right@),
{
    bin(BinaryOp::LogicalAnd, left, right)
}

/// `!arg`
pub fn not(arg: Expr) -> (r: Expr)
    ensures
        r@ == SpecExpr::not(arg@),
{
    Expr::Not(Box::new(arg))
}

/// `target op value`
pub fn assign(op: AssignOp, target: Expr, value: Expr) -> (r: Expr)
    ensures
        r@ == SpecExpr::assign(op, target@, value@),
{
    Expr::Assign(op, Box::new(target), Box::new(value))
}

/// `arg!`
pub fn non_null(arg: Expr) -> (r: Expr)
    ensures
        r@ == SpecExpr::non_null(arg@),
{
    Expr::NonNull(Box::new(arg))
}

/// `(params) => body`
pub fn arrow(params: Vec<Param>, body: Expr) -> (r: Expr)
    ensures
        r@ == SpecExpr::arrow(params_view(params@), body@),
{
    Expr::Arrow(params, Box::new(body))
}

/// `(params) => { body }`
pub fn arrow_block(params: Vec<Param>, body: Vec<Stmt>) -> (r: Expr)
    ensures
        r@ == SpecExpr::ArrowBlock(params_view(params@), stmts_view(body@)),
{
    Expr::ArrowBlock(params, body)
}

/// The type `Name<A>`.
pub fn named_type1(name: &str, a: TsType) -> (r: TsType)
    ensures
        r@ == SpecTsType::Ref(name@, seq![a@]),
{
    let mut params: Vec<TsType> = Vec::new();
    params.push(a);
    assert(ts_types_view(params@) =~= seq![a@]);
    TsType::Ref(name.to_owned(), params)
}

/// The type `Name<A, B>`.
pub fn named_type2(name: &str, a: TsType, b: TsType) -> (r: TsType)
    ensures
        r@ == SpecTsType::Ref(name@, seq![a@, b@]),
{
    let mut params: Vec<TsType> = Vec::new();
    params.push(a);
    params.push(b);
    assert(ts_types_view(params@) =~= seq![a@, b@]);
    TsType::Ref(name.to_owned(), params)
}

/// The type `A | B`.
pub fn union2(a: TsType, b: TsType) -> (r: TsType)
    ensures
        r@ == SpecTsType::Union(seq![a@, b@]),
{
    let mut types: Vec<TsType> = Vec::new();
    types.push(a);
    types.push(b);
    assert(ts_types_view(types@) =~= seq![a@, b@]);
    TsType::Union(types)
}

/// The type `Name` without type arguments.
pub fn named_type(name: &str) -> (r: TsType)
    ensures
        r@ == SpecTsType::Ref(name@, Seq::empty()),
{
    let params: Vec<TsType> = Vec::new();
    assert(ts_types_view(params@) =~= Seq::<SpecTsType>::empty());
    TsType::Ref(name.to_owned(), params)
}

/// `if (test) cons else alt`
pub fn if_else(test: Expr, cons: Stmt, alt: Stmt) -> (r: Stmt)
    ensures
        r@ == SpecStmt::if_else(test@, cons@, alt@),
{
    Stmt::If(test, Box::new(cons), Some(Box::new(alt)))
}

/// `if (test) cons`
pub fn if_then(test: Expr, cons: Stmt) -> (r: Stmt)
    ensures
        r@ == SpecStmt::if_then(test@, cons@),
{
    Stmt::If(test, Box::new(cons), None)
}

/// `while (test) body`
pub fn while_loop(test: Expr, body: Stmt) -> (r: Stmt)
    ensures
        r@ == SpecStmt::while_loop(test@, body@),
{
    Stmt::While(test, Box::new(body))
}

/// `for (const binding of iterable) body`
pub fn for_of(binding: Binding, iterable: Expr, body: Stmt) -> (r: Stmt)
    ensures
        r@ == SpecStmt::for_of(binding@, iterable@, body@),
{
    Stmt::ForOf(binding, iterable, Box::new(body))
}

/// The statement list of one statement.
pub fn stmts1(a: Stmt) -> (r: Vec<Stmt>)
    ensures
        stmts_view(r@) == seq![a@],
{
    let mut r: Vec<Stmt> = Vec::new();
    r.push(a);
    r
}

/// The statement list of two statements.
pub fn stmts2(a: Stmt, b: Stmt) -> (r: Vec<Stmt>)
    ensures
        stmts_view(r@) == seq![a@, b@],
{
    let mut r: Vec<Stmt> = Vec::new();
    r.push(a);
    r.push(b);
    r
}

/// The statement list of three statements.
pub fn stmts3(a: Stmt, b: Stmt, c: Stmt) -> (r: Vec<Stmt>)
    ensures
        stmts_view(r@) == seq![a@, b@, c@],
{
    let mut r: Vec<Stmt> = Vec::new();
    r.push(a);
    r.push(b);
    r.push(c);
    r
}

impl TsType {
    /// A copy of the type expression.
    pub fn duplicate(&self) -> (r: TsType)
        ensures
            r@ == self@,
        decreases self,
    {
        match self {
            TsType::Keyword(k) => TsType::Keyword(*k),
            TsType::Ref(name, params) => TsType::Ref(name.clone(), duplicate_types(params)),
            TsType::Array(elem) => TsType::Array(Box::new(elem.duplicate())),
            TsType::Union(types) => TsType::Union(duplicate_types(types)),
        }
    }
}

/// Copies of the type expressions, in order.
pub fn duplicate_types(types: &Vec<TsType>) -> (r: Vec<TsType>)
    ensures
        ts_types_view(r@) == ts_types_view(types@),
    decreases types,
{
    let mut out: Vec<TsType> = Vec::new();
    let mut i: usize = 0;
    while i < types.len()
        invariant
            i <= types@.len(),
            out@.len() == i,
            forall|j: int| 0 <= j < i ==> (#[trigger] out@[j])@ == types@[j]@,
        decreases types@.len() - i,
    {
        out.push(types[i].duplicate());
        i += 1;
    }
    out
}

/// A copy of an optional type annotation.
pub fn duplicate_type_ann(t: &Option<TsType>) -> (r: Option<TsType>)
    ensures
        opt_ts_type_view(r) == opt_ts_type_view(*t),
{
    match t {
        Some(t) => Some(t.duplicate()),
        None => None,
    }
}

/// Copies of the parameters, in order.
pub fn duplicate_params(params: &Vec<Param>) -> (r: Vec<Param>)
    ensures
        params_view(r@) == params_view(params@),
{
    let mut out: Vec<Param> = Vec::new();
    let mut i: usize = 0;
    while i < params.len()
        invariant
            i <= params@.len(),
            out@.len() == i,
            forall|j: int| 0 <= j < i ==> (#[trigger] out@[j])@ == params@[j]@,
        decreases params@.len() - i,
    {
        let p = &params[i];
        out.push(Param { name: p.name.clone(), type_ann: duplicate_type_ann(&p.type_ann) });
        i += 1;
    }
    out
}

impl Expr {
    /// A copy of the expression.
    pub fn duplicate(&self) -> (r: Expr)
        ensures
            r@ == self@,
        decreases self,
    {
        match self {
            Expr::This => Expr::This,
            Expr::Ident(name) => Expr::Ident(name.clone()),
            Expr::Num(n) => Expr::Num(*n),
            Expr::NumText(text) => Expr::NumText(text.clone()),
            Expr::Str(value) => Expr::Str(value.clone()),
            Expr::Bool(b) => Expr::Bool(*b),
            Expr::Array(elems) => Expr::Array(duplicate_exprs(elems)),
            Expr::Member(obj, prop) => Expr::Member(Box::new(obj.duplicate()), prop.clone()),
            Expr::OptMember(obj, prop) => Expr::OptMember(Box::new(obj.duplicate()), prop.clone()),
            Expr::Call(callee, args) => Expr::Call(
                Box::new(callee.duplicate()),
                duplicate_exprs(args),
            ),
            Expr::New(callee, args) => Expr::New(
                Box::new(callee.duplicate()),
                duplicate_exprs(args),
            ),
            Expr::Bin(op, left, right) => Expr::Bin(
                *op,
                Box::new(left.duplicate()),
                Box::new(right.duplicate()),
            ),
            Expr::Not(arg) => Expr::Not(Box::new(arg.duplicate())),
            Expr::Assign(op, target, value) => Expr::Assign(
                *op,
                Box::new(target.duplicate()),
                Box::new(value.duplicate()),
            ),
            Expr::NonNull(arg) => Expr::NonNull(Box::new(arg.duplicate())),
            Expr::Arrow(params, body) => Expr::Arrow(
                duplicate_params(params),
                Box::new(body.duplicate()),
            ),
            Expr::ArrowBlock(params, body) => Expr::ArrowBlock(
                duplicate_params(params),
                duplicate_stmts(body),
            ),
        }
    }
}

/// Copies of the expressions, in order.
pub fn duplicate_exprs(exprs: &Vec<Expr>) -> (r: Vec<Expr>)
    ensures
        exprs_view(r@) == exprs_view(exprs@),
    decreases exprs,
{
    let mut out: Vec<Expr> = Vec::new();
    let mut i: usize = 0;
    while i < exprs.len()
        invariant
            i <= exprs@.len(),
            out@.len() == i,
            forall|j: int| 0 <= j < i ==> (#[trigger] out@[j])@ == exprs@[j]@,
        decreases exprs@.len() - i,
    {
        out.push(exprs[i].duplicate());
        i += 1;
    }
    out
}

impl Stmt {
    /// A copy of the statement.
    pub fn duplicate(&self) -> (r: Stmt)
        ensures
            r@ == self@,
        decreases self,
    {
        match self {
            Stmt::Expr(e) => Stmt::Expr(e.duplicate()),
            Stmt::Decl(kind, name, type_ann, init) => Stmt::Decl(
                *kind,
                name.clone(),
                duplicate_type_ann(type_ann),
                init.duplicate(),
            ),
            Stmt::If(test, cons, alt) => Stmt::If(
                test.duplicate(),
                Box::new(cons.duplicate()),
                match alt {
                    Some(alt) => Some(Box::new(alt.duplicate())),
                    None => None,
                },
            ),
            Stmt::Break => Stmt::Break,
            Stmt::Throw(arg) => Stmt::Throw(arg.duplicate()),
            Stmt::Return(arg) => Stmt::Return(arg.duplicate()),
            Stmt::Switch(discriminant, cases) => Stmt::Switch(
                discriminant.duplicate(),
                duplicate_cases(cases),
            ),
            Stmt::While(test, body) => Stmt::While(test.duplicate(), Box::new(body.duplicate())),
            Stmt::ForOf(binding, iterable, body) => Stmt::ForOf(
                match binding {
                    Binding::Name(n) => Binding::Name(n.clone()),
                    Binding::Pair(a, b) => Binding::Pair(a.clone(), b.clone()),
                },
                iterable.duplicate(),
                Box::new(body.duplicate()),
            ),
            Stmt::Block(stmts) => Stmt::Block(duplicate_stmts(stmts)),
        }
    }
}

/// Copies of the statements, in order.
pub fn duplicate_stmts(stmts: &Vec<Stmt>) -> (r: Vec<Stmt>)
    ensures
        stmts_view(r@) == stmts_view(stmts@),
    decreases stmts,
{
    let mut out: Vec<Stmt> = Vec::new();
    let mut i: usize = 0;
    while i < stmts.len()
        invariant
            i <= stmts@.len(),
            out@.len() == i,
            forall|j: int| 0 <= j < i ==> (#[trigger] out@[j])@ == stmts@[j]@,
        decreases stmts@.len() - i,
    {
        out.push(stmts[i].duplicate());
        i += 1;
    }
    out
}

/// Copies of the arms, in order.
pub fn duplicate_cases(cases: &Vec<SwitchCase>) -> (r: Vec<SwitchCase>)
    ensures
        cases_view(r@) == cases_view(cases@),
    decreases cases,
{
    let mut out: Vec<SwitchCase> = Vec::new();
    let mut i: usize = 0;
    while i < cases.len()
        invariant
            i <= cases@.len(),
            out@.len() == i,
            forall|j: int| 0 <= j < i ==> (#[trigger] out@[j])@ == cases@[j]@,
        decreases cases@.len() - i,
    {
        let c = &cases[i];
        let arm = SwitchCase {
            test: match &c.test {
                Some(t) => Some(t.duplicate()),
                None => None,
            },
            cons: duplicate_stmts(&c.cons),
        };
        out.push(arm);
        i += 1;
    }
    out
}

} // verus!
