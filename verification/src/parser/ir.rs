//! The intermediate representation that the parser builds: one program is
//! a list of extern types and one function made of basic blocks.
//! Each type has a mathematical value (its view), over which the contracts
//! of the parser, the analyser and the code generator are stated.

use vstd::prelude::*;

verus! {

/// A whole program: the extern types it declares, then its one function.
#[derive(Debug, Clone)]
pub struct Program {
    pub externtypes: Vec<ExternType>,
    pub function: Function,
}

/// `extern type Path { field : type; ... }`
#[derive(Debug, Clone)]
pub struct ExternType {
    pub path: Path,
    pub fields: Vec<Field>,
}

/// `ident : type`
#[derive(Debug, Clone)]
pub struct Field {
    pub ident: Ident,
    pub typealt: Type,
}

/// `function Path(params) -> rettype { locals { ... } entry label; blocks }`
#[derive(Debug, Clone)]
pub struct Function {
    pub path: Path,
    pub params: Option<Params>,
    pub rettype: RetType,
    pub locals: Vec<(Local, Type)>,
    pub entry: Label,
    pub blocks: Vec<Block>,
}

/// A non-empty parameter list.
#[derive(Debug, Clone)]
pub struct Params {
    pub params: Vec<Param>,
}

/// `%local : type`
#[derive(Debug, Clone)]
pub struct Param {
    pub local: Local,
    pub typealt: Type,
}

/// `void` or a type.
#[allow(non_camel_case_types)]
#[derive(Debug, Clone)]
pub enum RetType {
    Void,
    typealt(Type),
}

/// `label: statements terminator`
#[derive(Debug, Clone)]
pub struct Block {
    pub label: Label,
    pub stmt: Vec<Stmt>,
    pub term: Term,
}

/// `[%local =] rhs`
#[derive(Debug, Clone)]
pub struct Stmt {
    pub local: Option<Local>,
    pub rhs: Rhs,
}

/// The right-hand side of a statement.
#[allow(non_camel_case_types)]
#[derive(Debug, Clone)]
pub enum Rhs {
    Use(Local),
    Const(Literal),
    Cast(Local, Type),
    Un(UnOp, Local),
    Bin(BinOp, Local, Local),
    Addr_of(Local),
    Member_ptr(Local, Ident),
    Load(Local),
    Store(Local, Local),
    Call(Path, Option<Args>),
}

/// A non-empty argument list.
#[derive(Debug, Clone)]
pub struct Args {
    pub locals: Vec<Local>,
}

/// The terminator that ends a block.
#[derive(Debug, Clone)]
pub enum Term {
    Jump(Label),
    CJump(Local, Label, Label),
    Return(Option<Local>),
}

/// A type: primitive, named by a path, or a pointer.
#[derive(Debug)]
pub enum Type {
    PrimType(PrimType),
    Path(Path),
    Ptr(Box<Type>),
}

/// The primitive types.
#[derive(Debug, Clone, Copy, PartialEq, Eq, Structural)]
pub enum PrimType {
    Bool,
    I32,
    I64,
    U32,
    F64,
}

/// `A::B::C`
#[derive(Debug, Clone)]
pub struct Path {
    pub ident: Vec<Ident>,
}

/// `%name` (without the `%`)
#[derive(Debug, Clone)]
pub struct Local {
    pub ident: Ident,
}

/// `bbN`, held as the digits of N.
#[derive(Debug, Clone)]
pub struct Label {
    pub digits: Vec<Digit>,
}

/// A literal. A float literal is held as its decimal text.
#[derive(Debug, Clone)]
pub enum Literal {
    IntegerLiteral(i64),
    FloatLiteral(String),
    True,
    False,
    Null,
}

/// The unary operators.
#[derive(Debug, Clone, Copy, PartialEq, Eq, Structural)]
pub enum UnOp {
    Neg,
    Not,
}

/// The binary operators.
#[derive(Debug, Clone, Copy, PartialEq, Eq, Structural)]
pub enum BinOp {
    Add,
    Sub,
    Mul,
    Div,
    Mod,
    Eq,
    Ne,
    Lt,
    Le,
    Gt,
    Ge,
    And,
    Or,
}

/// A name.
#[derive(Debug, Clone)]
pub struct Ident {
    pub string: String,
}

/// One decimal digit of a label.
#[derive(Debug, Clone)]
pub struct Digit {
    pub digit: u32,
}

// ============================ values ============================

/// The value of a type.
pub enum TypeV {
    Prim(PrimType),
    Path(Seq<Seq<char>>),
    Ptr(Box<TypeV>),
}

/// The value of a return type.
pub enum RetTypeV {
    Void,
    Type(TypeV),
}

/// The value of a literal.
pub enum LiteralV {
    Int(i64),
    Float(Seq<char>),
    True,
    False,
    Null,
}

/// The value of a right-hand side (locals and fields by their names).
pub enum RhsV {
    Use(Seq<char>),
    Const(LiteralV),
    Cast(Seq<char>, TypeV),
    Un(UnOp, Seq<char>),
    Bin(BinOp, Seq<char>, Seq<char>),
    AddrOf(Seq<char>),
    MemberPtr(Seq<char>, Seq<char>),
    Load(Seq<char>),
    Store(Seq<char>, Seq<char>),
    Call(Seq<Seq<char>>, Option<Seq<Seq<char>>>),
}

/// The value of a statement.
pub struct StmtV {
    pub local: Option<Seq<char>>,
    pub rhs: RhsV,
}

/// The value of a terminator (labels by their digits).
pub enum TermV {
    Jump(Seq<u32>),
    CJump(Seq<char>, Seq<u32>, Seq<u32>),
    Return(Option<Seq<char>>),
}

/// The value of a block.
pub struct BlockV {
    pub label: Seq<u32>,
    pub stmts: Seq<StmtV>,
    pub term: TermV,
}

/// The value of a parameter or a field: a name and a type.
pub struct DeclV {
    pub name: Seq<char>,
    pub typ: TypeV,
}

/// The value of an extern type.
pub struct ExternTypeV {
    pub path: Seq<Seq<char>>,
    pub fields: Seq<DeclV>,
}

/// The value of a function.
pub struct FunctionV {
    pub path: Seq<Seq<char>>,
    pub params: Option<Seq<DeclV>>,
    pub rettype: RetTypeV,
    pub locals: Seq<DeclV>,
    pub entry: Seq<u32>,
    pub blocks: Seq<BlockV>,
}

/// The value of a program.
pub struct ProgramV {
    pub externtypes: Seq<ExternTypeV>,
    pub function: FunctionV,
}

impl View for PrimType {
    type V = PrimType;

    open spec fn view(&self) -> PrimType {
        *self
    }
}

impl View for UnOp {
    type V = UnOp;

    open spec fn view(&self) -> UnOp {
        *self
    }
}

impl View for BinOp {
    type V = BinOp;

    open spec fn view(&self) -> BinOp {
        *self
    }
}

impl View for Ident {
    type V = Seq<char>;

    open spec fn view(&self) -> Seq<char> {
        self.string@
    }
}

impl View for Local {
    type V = Seq<char>;

    open spec fn view(&self) -> Seq<char> {
        self.ident.string@
    }
}

/// The names of a sequence of identifiers.
pub open spec fn ident_values(s: Seq<Ident>) -> Seq<Seq<char>> {
    s.map_values(|i: Ident| i@)
}

/// The names of a sequence of locals.
pub open spec fn local_values(s: Seq<Local>) -> Seq<Seq<char>> {
    s.map_values(|l: Local| l@)
}

impl View for Path {
    type V = Seq<Seq<char>>;

    open spec fn view(&self) -> Seq<Seq<char>> {
        ident_values(self.ident@)
    }
}

/// The digits of a sequence of digits.
pub open spec fn digit_values(s: Seq<Digit>) -> Seq<u32> {
    s.map_values(|d: Digit| d.digit)
}

impl View for Label {
    type V = Seq<u32>;

    open spec fn view(&self) -> Seq<u32> {
        digit_values(self.digits@)
    }
}

/// The value of a type.
pub open spec fn type_value(t: Type) -> TypeV
    decreases t,
{
    match t {
        Type::PrimType(p) => TypeV::Prim(p),
        Type::Path(p) => TypeV::Path(p@),
        Type::Ptr(inner) => TypeV::Ptr(Box::new(type_value(*inner))),
    }
}

impl View for Type {
    type V = TypeV;

    open spec fn view(&self) -> TypeV {
        type_value(*self)
    }
}

impl View for RetType {
    type V = RetTypeV;

    open spec fn view(&self) -> RetTypeV {
        match self {
            RetType::Void => RetTypeV::Void,
            RetType::typealt(t) => RetTypeV::Type(t@),
        }
    }
}

impl View for Literal {
    type V = LiteralV;

    open spec fn view(&self) -> LiteralV {
        match self {
            Literal::IntegerLiteral(i) => LiteralV::Int(*i),
            Literal::FloatLiteral(f) => LiteralV::Float(f@),
            Literal::True => LiteralV::True,
            Literal::False => LiteralV::False,
            Literal::Null => LiteralV::Null,
        }
    }
}

impl View for Args {
    type V = Seq<Seq<char>>;

    open spec fn view(&self) -> Seq<Seq<char>> {
        local_values(self.locals@)
    }
}

impl View for Rhs {
    type V = RhsV;

    open spec fn view(&self) -> RhsV {
        match self {
            Rhs::Use(l) => RhsV::Use(l@),
            Rhs::Const(lit) => RhsV::Const(lit@),
            Rhs::Cast(l, t) => RhsV::Cast(l@, t@),
            Rhs::Un(op, l) => RhsV::Un(*op, l@),
            Rhs::Bin(op, a, b) => RhsV::Bin(*op, a@, b@),
            Rhs::Addr_of(l) => RhsV::AddrOf(l@),
            Rhs::Member_ptr(l, f) => RhsV::MemberPtr(l@, f@),
            Rhs::Load(l) => RhsV::Load(l@),
            Rhs::Store(a, b) => RhsV::Store(a@, b@),
            Rhs::Call(p, args) => RhsV::Call(
                p@,
                match args {
                    Some(a) => Some(a@),
                    None => None,
                },
            ),
        }
    }
}

impl View for Stmt {
    type V = StmtV;

    open spec fn view(&self) -> StmtV {
        StmtV {
            local: match self.local {
                Some(l) => Some(l@),
                None => None,
            },
            rhs: self.rhs@,
        }
    }
}

impl View for Term {
    type V = TermV;

    open spec fn view(&self) -> TermV {
        match self {
            Term::Jump(l) => TermV::Jump(l@),
            Term::CJump(c, a, b) => TermV::CJump(c@, a@, b@),
            Term::Return(l) => TermV::Return(
                match l {
                    Some(l) => Some(l@),
                    None => None,
                },
            ),
        }
    }
}

/// The values of a sequence of statements.
pub open spec fn stmt_values(s: Seq<Stmt>) -> Seq<StmtV> {
    s.map_values(|x: Stmt| x@)
}

impl View for Block {
    type V = BlockV;

    open spec fn view(&self) -> BlockV {
        BlockV { label: self.label@, stmts: stmt_values(self.stmt@), term: self.term@ }
    }
}

/// The values of a sequence of blocks.
pub open spec fn block_values(s: Seq<Block>) -> Seq<BlockV> {
    s.map_values(|x: Block| x@)
}

impl View for Param {
    type V = DeclV;

    open spec fn view(&self) -> DeclV {
        DeclV { name: self.local@, typ: self.typealt@ }
    }
}

impl View for Field {
    type V = DeclV;

    open spec fn view(&self) -> DeclV {
        DeclV { name: self.ident@, typ: self.typealt@ }
    }
}

/// The values of a sequence of parameters.
pub open spec fn param_values(s: Seq<Param>) -> Seq<DeclV> {
    s.map_values(|x: Param| x@)
}

/// The values of a sequence of fields.
pub open spec fn field_values(s: Seq<Field>) -> Seq<DeclV> {
    s.map_values(|x: Field| x@)
}

/// The values of a sequence of local declarations.
pub open spec fn local_decl_values(s: Seq<(Local, Type)>) -> Seq<DeclV> {
    s.map_values(|x: (Local, Type)| DeclV { name: x.0@, typ: x.1@ })
}

impl View for Params {
    type V = Seq<DeclV>;

    open spec fn view(&self) -> Seq<DeclV> {
        param_values(self.params@)
    }
}

impl View for ExternType {
    type V = ExternTypeV;

    open spec fn view(&self) -> ExternTypeV {
        ExternTypeV { path: self.path@, fields: field_values(self.fields@) }
    }
}

/// The values of a sequence of extern types.
pub open spec fn extern_values(s: Seq<ExternType>) -> Seq<ExternTypeV> {
    s.map_values(|x: ExternType| x@)
}

impl View for Function {
    type V = FunctionV;

    open spec fn view(&self) -> FunctionV {
        FunctionV {
            path: self.path@,
            params: match self.params {
                Some(p) => Some(p@),
                None => None,
            },
            rettype: self.rettype@,
            locals: local_decl_values(self.locals@),
            entry: self.entry@,
            blocks: block_values(self.blocks@),
        }
    }
}

impl View for Program {
    type V = ProgramV;

    open spec fn view(&self) -> ProgramV {
        ProgramV { externtypes: extern_values(self.externtypes@), function: self.function@ }
    }
}

// ============================ copies ============================

impl Ident {
    /// A copy of this name.
    pub fn copy(&self) -> (r: Ident)
        ensures
            r@ == self@,
    {
        Ident { string: self.string.clone() }
    }
}

impl Local {
    /// A copy of this local.
    pub fn copy(&self) -> (r: Local)
        ensures
            r@ == self@,
    {
        Local { ident: self.ident.copy() }
    }
}

impl Path {
    /// A copy of this path.
    pub fn copy(&self) -> (r: Path)
        ensures
            r@ == self@,
    {
        let mut ident: Vec<Ident> = Vec::new();
        let mut i: usize = 0;
        while i < self.ident.len()
            invariant
                i <= self.ident@.len(),
                ident_values(ident@) == ident_values(self.ident@.take(i as int)),
            decreases self.ident@.len() - i,
        {
            let ghost before = ident@;
            ident.push(self.ident[i].copy());
            proof {
                assert(ident_values(ident@) =~= ident_values(before) + seq![self.ident@[i as int]@]);
                assert(ident_values(self.ident@.take(i + 1)) =~= ident_values(self.ident@.take(i as int)) + seq![self.ident@[i as int]@]);
            }
            i = i + 1;
        }
        proof {
            assert(self.ident@.take(i as int) =~= self.ident@);
        }
        Path { ident }
    }
}

impl Label {
    /// A copy of this label.
    pub fn copy(&self) -> (r: Label)
        ensures
            r@ == self@,
    {
        let mut digits: Vec<Digit> = Vec::new();
        let mut i: usize = 0;
        while i < self.digits.len()
            invariant
                i <= self.digits@.len(),
                digit_values(digits@) == digit_values(self.digits@.take(i as int)),
            decreases self.digits@.len() - i,
        {
            let ghost before = digits@;
            digits.push(Digit { digit: self.digits[i].digit });
            proof {
                assert(digit_values(digits@) =~= digit_values(before) + seq![self.digits@[i as int].digit]);
                assert(digit_values(self.digits@.take(i + 1)) =~= digit_values(self.digits@.take(i as int)) + seq![self.digits@[i as int].digit]);
            }
            i = i + 1;
        }
        proof {
            assert(self.digits@.take(i as int) =~= self.digits@);
        }
        Label { digits }
    }
}

impl Type {
    /// A copy of this type.
    pub fn copy(&self) -> (r: Type)
        ensures
            r@ == self@,
        decreases self,
    {
        match self {
            Type::PrimType(p) => Type::PrimType(*p),
            Type::Path(p) => Type::Path(p.copy()),
            Type::Ptr(inner) => {
                let c = (**inner).copy();
                Type::Ptr(Box::new(c))
            },
        }
    }
}


impl Literal {
    /// A copy of this literal.
    pub fn copy(&self) -> (r: Literal)
        ensures
            r@ == self@,
    {
        match self {
            Literal::IntegerLiteral(i) => Literal::IntegerLiteral(*i),
            Literal::FloatLiteral(f) => Literal::FloatLiteral(f.clone()),
            Literal::True => Literal::True,
            Literal::False => Literal::False,
            Literal::Null => Literal::Null,
        }
    }
}

/// A copy of a list of locals.
pub fn copy_locals(v: &Vec<Local>) -> (r: Vec<Local>)
    ensures
        local_values(r@) == local_values(v@),
{
    let mut out: Vec<Local> = Vec::new();
    let mut i: usize = 0;
    while i < v.len()
        invariant
            i <= v@.len(),
            local_values(out@) == local_values(v@.take(i as int)),
        decreases v@.len() - i,
    {
        let ghost before = out@;
        out.push(v[i].copy());
        proof {
            assert(local_values(out@) =~= local_values(before).push(v@[i as int]@));
            assert(local_values(v@.take(i + 1)) =~= local_values(v@.take(i as int)).push(v@[i as int]@));
        }
        i = i + 1;
    }
    proof {
        assert(v@.take(i as int) =~= v@);
    }
    out
}

impl Rhs {
    /// A copy of this right-hand side.
    pub fn copy(&self) -> (r: Rhs)
        ensures
            r@ == self@,
    {
        match self {
            Rhs::Use(l) => Rhs::Use(l.copy()),
            Rhs::Const(lit) => Rhs::Const(lit.copy()),
            Rhs::Cast(l, t) => Rhs::Cast(l.copy(), t.copy()),
            Rhs::Un(op, l) => Rhs::Un(*op, l.copy()),
            Rhs::Bin(op, a, b) => Rhs::Bin(*op, a.copy(), b.copy()),
            Rhs::Addr_of(l) => Rhs::Addr_of(l.copy()),
            Rhs::Member_ptr(l, f) => Rhs::Member_ptr(l.copy(), f.copy()),
            Rhs::Load(l) => Rhs::Load(l.copy()),
            Rhs::Store(a, b) => Rhs::Store(a.copy(), b.copy()),
            Rhs::Call(p, args) => Rhs::Call(
                p.copy(),
                match args {
                    Some(a) => Some(Args { locals: copy_locals(&a.locals) }),
                    None => None,
                },
            ),
        }
    }
}

impl Stmt {
    /// A copy of this statement.
    pub fn copy(&self) -> (r: Stmt)
        ensures
            r@ == self@,
    {
        Stmt {
            local: match &self.local {
                Some(l) => Some(l.copy()),
                None => None,
            },
            rhs: self.rhs.copy(),
        }
    }
}

/// A copy of a list of statements.
pub fn copy_stmts(v: &Vec<Stmt>) -> (r: Vec<Stmt>)
    ensures
        stmt_values(r@) == stmt_values(v@),
{
    let mut out: Vec<Stmt> = Vec::new();
    let mut i: usize = 0;
    while i < v.len()
        invariant
            i <= v@.len(),
            stmt_values(out@) == stmt_values(v@.take(i as int)),
        decreases v@.len() - i,
    {
        let ghost before = out@;
        out.push(v[i].copy());
        proof {
            assert(stmt_values(out@) =~= stmt_values(before).push(v@[i as int]@));
            assert(stmt_values(v@.take(i + 1)) =~= stmt_values(v@.take(i as int)).push(v@[i as int]@));
        }
        i = i + 1;
    }
    proof {
        assert(v@.take(i as int) =~= v@);
    }
    out
}

impl Term {
    /// A copy of this terminator.
    pub fn copy(&self) -> (r: Term)
        ensures
            r@ == self@,
    {
        match self {
            Term::Jump(l) => Term::Jump(l.copy()),
            Term::CJump(c, a, b) => Term::CJump(c.copy(), a.copy(), b.copy()),
            Term::Return(l) => Term::Return(
                match l {
                    Some(l) => Some(l.copy()),
                    None => None,
                },
            ),
        }
    }
}

impl Clone for Type {
    fn clone(&self) -> (r: Type)
        ensures
            r@ == self@,
    {
        self.copy()
    }
}

} // verus!
