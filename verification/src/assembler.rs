//! Backend type vocabulary, compiler session state, and the expression
//! builder: the validation chokepoint between the parsed surface syntax and
//! the code-generation collaborator.
//!
//! The session state holds three mappings: per-base-name fresh-name counters,
//! registered extern function signatures, and declared field types. All
//! mutation goes through the builder operations; exclusive access is the
//! caller's `&mut` borrow of the session (a host that shares one session
//! across threads wraps it in a lock of its own).

use vstd::prelude::*;

use crate::frontend::Expr as AstExpr;
use crate::frontend::Program;
use crate::frontend::Stmt;

verus! {

/// A primitive type of the code-generation backend. `Nil` stands for the
/// absence of a value (a call with no declared return type).
#[derive(PartialEq, Eq, Structural, Hash, Copy, Clone, Debug)]
pub enum Type {
    Nil,
    Bool,
    I8,
    I16,
    I32,
    I64,
    F32,
    F64,
    Ptr32,
    Ptr64,
}

/// The backend type denoted by a type-annotation token, or `None` for a
/// token that names no backend type.
pub open spec fn spec_type_of_token(s: Seq<char>) -> Option<Type> {
    if s == "bool"@ {
        Some(Type::Bool)
    } else if s == "i8"@ {
        Some(Type::I8)
    } else if s == "i16"@ {
        Some(Type::I16)
    } else if s == "i32"@ {
        Some(Type::I32)
    } else if s == "i64"@ {
        Some(Type::I64)
    } else if s == "f32"@ {
        Some(Type::F32)
    } else if s == "f64"@ {
        Some(Type::F64)
    } else if s == "ptr32"@ {
        Some(Type::Ptr32)
    } else if s == "ptr64"@ {
        Some(Type::Ptr64)
    } else {
        None
    }
}

/// Character-wise string equality, specified against the string views.
pub fn str_eq(a: &str, b: &str) -> (r: bool)
    ensures
        r == (a@ == b@),
{
    let alen = a.unicode_len();
    if alen != b.unicode_len() {
        return false;
    }
    let mut i: usize = 0;
    while i < alen
        invariant
            i <= alen,
            alen == a@.len(),
            alen == b@.len(),
            forall|j: int| 0 <= j < i ==> a@[j] == b@[j],
        decreases alen - i,
    {
        if a.get_char(i) != b.get_char(i) {
            return false;
        }
        i = i + 1;
    }
    proof {
        assert(a@ =~= b@);
    }
    true
}

impl Type {
    /// Resolves a type-annotation token to a backend type. An unrecognized
    /// token is reported by `None`; it is never a crash.
    pub fn from(x: &str) -> (r: Option<Type>)
        ensures
            r == spec_type_of_token(x@),
    {
        if str_eq(x, "bool") {
            Some(Type::Bool)
        } else if str_eq(x, "i8") {
            Some(Type::I8)
        } else if str_eq(x, "i16") {
            Some(Type::I16)
        } else if str_eq(x, "i32") {
            Some(Type::I32)
        } else if str_eq(x, "i64") {
            Some(Type::I64)
        } else if str_eq(x, "f32") {
            Some(Type::F32)
        } else if str_eq(x, "f64") {
            Some(Type::F64)
        } else if str_eq(x, "ptr32") {
            Some(Type::Ptr32)
        } else if str_eq(x, "ptr64") {
            Some(Type::Ptr64)
        } else {
            None
        }
    }
}

/// The strict, total lowering from a surface type to its backend type.
pub open spec fn spec_lower(t: crate::frontend::Typ) -> Type {
    match t {
        crate::frontend::Typ::Ptr => Type::Ptr64,
        crate::frontend::Typ::I64 => Type::I64,
    }
}

/// Lowers a surface type to the one backend type it maps to.
pub fn lower(t: crate::frontend::Typ) -> (r: Type)
    ensures
        r == spec_lower(t),
{
    match t {
        crate::frontend::Typ::Ptr => Type::Ptr64,
        crate::frontend::Typ::I64 => Type::I64,
    }
}

/// A declared name paired with its resolved backend type.
#[derive(Clone, Debug)]
pub struct NameType {
    pub name: String,
    pub typ: Type,
}

impl NameType {
    pub fn new(name: String, typ: Type) -> (r: Self)
        ensures
            r.name == name,
            r.typ == typ,
    {
        Self { name, typ }
    }
}

/// The variant tree of a builder-constructed expression. Operand
/// sub-expressions are owned, typed nodes.
#[derive(Debug)]
pub enum ExprCode {
    Literal(String),
    Identifier(String),
    CmpEq(Box<Expr>, Box<Expr>),
    CmpNe(Box<Expr>, Box<Expr>),
    CmpLt(Box<Expr>, Box<Expr>),
    CmpLe(Box<Expr>, Box<Expr>),
    CmpGt(Box<Expr>, Box<Expr>),
    CmpGe(Box<Expr>, Box<Expr>),
    Add(Box<Expr>, Box<Expr>),
    Sub(Box<Expr>, Box<Expr>),
    Mul(Box<Expr>, Box<Expr>),
    Div(Box<Expr>, Box<Expr>),
    Call(String, Vec<Expr>),
    GlobalDataAddr(String),
}

/// A type-checked statement, ready for the code-generation collaborator.
#[derive(Debug)]
pub enum StmtCode {
    IfElse(Box<ExprCode>, Vec<StmtCode>, Vec<StmtCode>),
    WhileLoop(Box<ExprCode>, Vec<StmtCode>),
    Declare(NameType),
    Assign(String, Box<ExprCode>),
    Initialization(NameType, Box<ExprCode>),
    SideEffect(Box<ExprCode>),
}

/// A builder-constructed expression paired with its resolved backend type.
#[derive(Debug)]
pub struct Expr {
    code: ExprCode,
    type_: Type,
}

impl Expr {
    /// The variant tree of this node.
    pub closed spec fn spec_code(self) -> ExprCode {
        self.code
    }

    /// The resolved backend type of this node.
    pub closed spec fn typ(self) -> Type {
        self.type_
    }

    pub fn new(code: ExprCode, type_: Type) -> (r: Self)
        ensures
            r.spec_code() == code,
            r.typ() == type_,
    {
        Self { code, type_ }
    }

    /// The resolved backend type, as an executable value.
    pub fn get_type(&self) -> (t: Type)
        ensures
            t == self.typ(),
    {
        self.type_
    }
}

/// A semantic or linkage error raised by the builder, carrying the context
/// needed to act on it.
#[derive(Debug)]
pub enum BuildError {
    UnknownIdentifier(String),
    DuplicateFunction(String),
    UnknownFunction(String),
    ArityMismatch { func: String, expected: usize, actual: usize },
    ArgTypeMismatch { func: String, index: usize, expected: Type, actual: Type },
}

/// The mapping an association list denotes: a later entry for a name
/// overrides an earlier one.
pub open spec fn assoc_map<V>(s: Seq<(String, V)>) -> Map<Seq<char>, V>
    decreases s.len(),
{
    if s.len() == 0 {
        Map::empty()
    } else {
        assoc_map(s.drop_last()).insert(s.last().0@, s.last().1)
    }
}

proof fn lemma_assoc_last_match<V>(s: Seq<(String, V)>, i: int, k: Seq<char>)
    requires
        0 <= i < s.len(),
        s[i].0@ == k,
        forall|j: int| i < j < s.len() ==> s[j].0@ != k,
    ensures
        assoc_map(s).contains_key(k),
        assoc_map(s)[k] == s[i].1,
    decreases s.len(),
{
    if i == s.len() - 1 {
    } else {
        assert(s.drop_last()[i] == s[i]);
        lemma_assoc_last_match(s.drop_last(), i, k);
    }
}

proof fn lemma_assoc_no_match<V>(s: Seq<(String, V)>, k: Seq<char>)
    requires
        forall|j: int| 0 <= j < s.len() ==> s[j].0@ != k,
    ensures
        !assoc_map(s).contains_key(k),
    decreases s.len(),
{
    if s.len() > 0 {
        lemma_assoc_no_match(s.drop_last(), k);
    }
}

proof fn lemma_assoc_push<V>(s: Seq<(String, V)>, p: (String, V))
    ensures
        assoc_map(s.push(p)) == assoc_map(s).insert(p.0@, p.1),
{
    assert(s.push(p).drop_last() =~= s);
}

/// Looks a name up in an association list; the last entry for the name wins.
fn assoc_get<'a, V>(v: &'a Vec<(String, V)>, name: &str) -> (r: Option<&'a V>)
    ensures
        match r {
            Some(val) => assoc_map(v@).contains_key(name@) && *val == assoc_map(v@)[name@],
            None => !assoc_map(v@).contains_key(name@),
        },
{
    let mut i: usize = v.len();
    while i > 0
        invariant
            i <= v@.len(),
            forall|j: int| i <= j < v@.len() ==> v@[j].0@ != name@,
        decreases i,
    {
        i = i - 1;
        let entry = &v[i];
        if str_eq(entry.0.as_str(), name) {
            proof {
                lemma_assoc_last_match(v@, i as int, name@);
            }
            return Some(&entry.1);
        }
    }
    proof {
        lemma_assoc_no_match(v@, name@);
    }
    None
}

/// One registered native callable: its name, native entry address, ordered
/// parameter backend types, and optional return backend type.
#[derive(Debug)]
pub struct ExternFuncSignature {
    pub name: String,
    pub code: usize,
    pub params: Vec<Type>,
    pub returns: Option<Type>,
}

/// The compiler session state: per-base-name fresh-name counters, the extern
/// function registry, and the declared field types. It is shared across all
/// compilations that use the same session; mutation requires exclusive
/// access.
pub struct AssemblerState {
    name_next_id: Vec<(String, u64)>,
    extern_funcs: Vec<(String, ExternFuncSignature)>,
    fields: Vec<(String, Type)>,
}

impl AssemblerState {
    /// The fresh-name counter mapping this session denotes.
    pub closed spec fn spec_counters(self) -> Map<Seq<char>, u64> {
        assoc_map(self.name_next_id@)
    }

    /// The extern function registry this session denotes.
    pub closed spec fn spec_funcs(self) -> Map<Seq<char>, ExternFuncSignature> {
        assoc_map(self.extern_funcs@)
    }

    /// The declared-field-type mapping this session denotes.
    pub closed spec fn spec_fields(self) -> Map<Seq<char>, Type> {
        assoc_map(self.fields@)
    }

    /// The next fresh id for a base name: the stored counter, or zero if the
    /// base was never drawn from.
    pub open spec fn counter_of(self, base: Seq<char>) -> u64 {
        if self.spec_counters().contains_key(base) {
            self.spec_counters()[base]
        } else {
            0
        }
    }

    /// A fresh session with no counters, no extern functions and no fields.
    pub fn new() -> (r: Self)
        ensures
            r.spec_counters() == Map::<Seq<char>, u64>::empty(),
            r.spec_funcs() == Map::<Seq<char>, ExternFuncSignature>::empty(),
            r.spec_fields() == Map::<Seq<char>, Type>::empty(),
    {
        Self { name_next_id: Vec::new(), extern_funcs: Vec::new(), fields: Vec::new() }
    }

    /// Draws the next fresh name for a base: `base_<counter>`, then bumps the
    /// stored counter, so successive draws for one base never repeat.
    pub fn fresh_name(&mut self, name: &str) -> (r: String)
        requires
            old(self).counter_of(name@) < u64::MAX,
        ensures
            r@ == spec_fresh_name(name@, old(self).counter_of(name@)),
            final(self).spec_counters() == old(self).spec_counters().insert(
                name@,
                (old(self).counter_of(name@) + 1) as u64,
            ),
            final(self).spec_funcs() == old(self).spec_funcs(),
            final(self).spec_fields() == old(self).spec_fields(),
    {
        let c: u64 = match assoc_get(&self.name_next_id, name) {
            Some(c) => *c,
            None => 0,
        };
        let mut r = name.to_owned();
        r.append("_");
        let digits = u64_to_string(c);
        r.append(digits.as_str());
        let owned = name.to_owned();
        proof {
            reveal_strlit("_");
            assert(r@ =~= spec_fresh_name(name@, c));
            lemma_assoc_push(self.name_next_id@, (owned, (c + 1) as u64));
        }
        self.name_next_id.push((owned, c + 1));
        r
    }
}

/// The decimal digit character for a value below ten.
pub open spec fn spec_digit(d: nat) -> char {
    if d == 0 {
        '0'
    } else if d == 1 {
        '1'
    } else if d == 2 {
        '2'
    } else if d == 3 {
        '3'
    } else if d == 4 {
        '4'
    } else if d == 5 {
        '5'
    } else if d == 6 {
        '6'
    } else if d == 7 {
        '7'
    } else if d == 8 {
        '8'
    } else {
        '9'
    }
}

/// The decimal rendering of a natural number, most significant digit first.
pub open spec fn spec_dec(n: nat) -> Seq<char>
    decreases n,
{
    if n < 10 {
        seq![spec_digit(n)]
    } else {
        spec_dec(n / 10).push(spec_digit(n % 10))
    }
}

/// The name drawn for a base at a given counter value: the base, an
/// underscore, and the counter in decimal.
pub open spec fn spec_fresh_name(base: Seq<char>, c: u64) -> Seq<char> {
    base + seq!['_'] + spec_dec(c as nat)
}

fn digit_str(d: u64) -> (r: &'static str)
    requires
        d < 10,
    ensures
        r@ == seq![spec_digit(d as nat)],
{
    proof {
        reveal_strlit("0");
        reveal_strlit("1");
        reveal_strlit("2");
        reveal_strlit("3");
        reveal_strlit("4");
        reveal_strlit("5");
        reveal_strlit("6");
        reveal_strlit("7");
        reveal_strlit("8");
        reveal_strlit("9");
    }
    if d == 0 {
        "0"
    } else if d == 1 {
        "1"
    } else if d == 2 {
        "2"
    } else if d == 3 {
        "3"
    } else if d == 4 {
        "4"
    } else if d == 5 {
        "5"
    } else if d == 6 {
        "6"
    } else if d == 7 {
        "7"
    } else if d == 8 {
        "8"
    } else {
        "9"
    }
}

/// Renders a number in decimal.
pub fn u64_to_string(n: u64) -> (r: String)
    ensures
        r@ == spec_dec(n as nat),
    decreases n,
{
    if n < 10 {
        digit_str(n).to_owned()
    } else {
        let mut s = u64_to_string(n / 10);
        s.append(digit_str(n % 10));
        proof {
            assert(s@ =~= spec_dec(n as nat));
        }
        s
    }
}

/// The resolved backend types of a sequence of typed expression nodes.
pub open spec fn arg_types(s: Seq<Expr>) -> Seq<Type> {
    s.map_values(|e: Expr| e.typ())
}

/// The first position at or after `i` where the two type sequences differ,
/// if any.
pub open spec fn first_mismatch_from(a: Seq<Type>, b: Seq<Type>, i: int) -> Option<int>
    decreases a.len() - i,
{
    if i < 0 || i >= a.len() || i >= b.len() {
        None
    } else if a[i] != b[i] {
        Some(i)
    } else {
        first_mismatch_from(a, b, i + 1)
    }
}

/// The expression builder: the validation chokepoint between the parsed
/// surface syntax and backend-ready typed nodes. It owns the session state it
/// validates against; callers needing to share one session across threads
/// guard the whole builder with a lock of their own.
pub struct Assembler {
    pub state: AssemblerState,
}

impl Assembler {
    /// A builder over a fresh, empty session.
    pub fn new() -> (r: Self)
        ensures
            r.state.spec_counters() == Map::<Seq<char>, u64>::empty(),
            r.state.spec_funcs() == Map::<Seq<char>, ExternFuncSignature>::empty(),
            r.state.spec_fields() == Map::<Seq<char>, Type>::empty(),
    {
        Self { state: AssemblerState::new() }
    }

    /// Constructs a literal node of the given type; literal construction
    /// itself never fails.
    pub fn lit(&self, val: String, ty: Type) -> (r: Expr)
        ensures
            r.spec_code() == ExprCode::Literal(val),
            r.typ() == ty,
    {
        Expr::new(ExprCode::Literal(val), ty)
    }

    /// Resolves an identifier against the declared field types: a node of
    /// the declared type, or an unknown-identifier error naming the culprit.
    pub fn id(&self, name: &str) -> (r: Result<Expr, BuildError>)
        ensures
            self.state.spec_fields().contains_key(name@) ==> (r matches Ok(e)
                && (e.spec_code() matches ExprCode::Identifier(n) && n@ == name@)
                && e.typ() == self.state.spec_fields()[name@]),
            !self.state.spec_fields().contains_key(name@) ==> (r matches Err(
                BuildError::UnknownIdentifier(n),
            ) && n@ == name@),
    {
        match assoc_get(&self.state.fields, name) {
            Some(t) => Ok(Expr::new(ExprCode::Identifier(name.to_owned()), *t)),
            None => Err(BuildError::UnknownIdentifier(name.to_owned())),
        }
    }

    /// Registers a native callable under a name. A second registration under
    /// the same name fails and leaves the session exactly as it was, prior
    /// entry included.
    pub fn register_extern_fn(
        &mut self,
        name: &str,
        code: usize,
        params: Vec<Type>,
        returns: Option<Type>,
    ) -> (r: Result<(), BuildError>)
        ensures
            old(self).state.spec_funcs().contains_key(name@) ==> ((r matches Err(
                BuildError::DuplicateFunction(n),
            ) && n@ == name@) && final(self).state == old(self).state),
            !old(self).state.spec_funcs().contains_key(name@) ==> ({
                let m = final(self).state.spec_funcs();
                &&& r is Ok
                &&& m.contains_key(name@)
                &&& m[name@].name@ == name@
                &&& m[name@].code == code
                &&& m[name@].params == params
                &&& m[name@].returns == returns
                &&& m.remove(name@) == old(self).state.spec_funcs().remove(name@)
                &&& final(self).state.spec_counters() == old(self).state.spec_counters()
                &&& final(self).state.spec_fields() == old(self).state.spec_fields()
            }),
    {
        if assoc_get(&self.state.extern_funcs, name).is_some() {
            return Err(BuildError::DuplicateFunction(name.to_owned()));
        }
        let fn_name = name.to_owned();
        let key = name.to_owned();
        let sig = ExternFuncSignature { name: fn_name, code, params, returns };
        proof {
            lemma_assoc_push(self.state.extern_funcs@, (key, sig));
        }
        self.state.extern_funcs.push((key, sig));
        proof {
            assert(self.state.spec_funcs().remove(name@) =~= old(
                self,
            ).state.spec_funcs().remove(name@));
        }
        Ok(())
    }

    /// The registered signature for a name, if any: what a code-generation
    /// consumer reads to resolve linkage.
    pub fn get_extern<'a>(&'a self, name: &str) -> (r: Option<&'a ExternFuncSignature>)
        ensures
            match r {
                Some(sig) => self.state.spec_funcs().contains_key(name@) && *sig
                    == self.state.spec_funcs()[name@],
                None => !self.state.spec_funcs().contains_key(name@),
            },
    {
        assoc_get(&self.state.extern_funcs, name)
    }

    /// Constructs a type-checked call node: the named signature must exist,
    /// the arity must match, and each argument's resolved type must equal the
    /// declared parameter type at its position; the first offending position
    /// is reported with the expected and actual types. On success the node's
    /// type is the signature's return type, or `Nil` if none was declared.
    pub fn call(&self, name: &str, params: Vec<Expr>) -> (r: Result<Expr, BuildError>)
        ensures
            !self.state.spec_funcs().contains_key(name@) ==> (r matches Err(
                BuildError::UnknownFunction(n),
            ) && n@ == name@),
            self.state.spec_funcs().contains_key(name@) ==> ({
                let sig = self.state.spec_funcs()[name@];
                let mis = first_mismatch_from(arg_types(params@), sig.params@, 0);
                &&& (params@.len() != sig.params@.len() ==> (r matches Err(
                    BuildError::ArityMismatch { func, expected, actual },
                ) && func@ == name@ && expected == sig.params@.len() && actual == params@.len()))
                &&& (params@.len() == sig.params@.len() && mis is Some ==> (r matches Err(
                    BuildError::ArgTypeMismatch { func, index, expected, actual },
                ) && func@ == name@ && index == mis.unwrap() && expected
                    == sig.params@[mis.unwrap()] && actual == arg_types(params@)[mis.unwrap()]))
                &&& (params@.len() == sig.params@.len() && mis is None ==> (r matches Ok(e) && (
                e.spec_code() matches ExprCode::Call(n, args) && n@ == name@ && args == params)
                    && e.typ() == (if sig.returns is Some {
                    sig.returns.unwrap()
                } else {
                    Type::Nil
                })))
            }),
    {
        let sig = match assoc_get(&self.state.extern_funcs, name) {
            Some(s) => s,
            None => {
                return Err(BuildError::UnknownFunction(name.to_owned()));
            },
        };
        if params.len() != sig.params.len() {
            return Err(
                BuildError::ArityMismatch {
                    func: name.to_owned(),
                    expected: sig.params.len(),
                    actual: params.len(),
                },
            );
        }
        let n = params.len();
        let mut i: usize = 0;
        while i < n
            invariant
                i <= n,
                n == params@.len(),
                n == sig.params@.len(),
                self.state.spec_funcs().contains_key(name@),
                *sig == self.state.spec_funcs()[name@],
                forall|j: int| 0 <= j < i ==> arg_types(params@)[j] == sig.params@[j],
                first_mismatch_from(arg_types(params@), sig.params@, 0) == first_mismatch_from(
                    arg_types(params@),
                    sig.params@,
                    i as int,
                ),
            decreases n - i,
        {
            let pe = &params[i];
            let t1 = pe.get_type();
            let t2 = sig.params[i];
            proof {
                assert(arg_types(params@)[i as int] == params@[i as int].typ());
            }
            if t1 != t2 {
                return Err(
                    BuildError::ArgTypeMismatch {
                        func: name.to_owned(),
                        index: i,
                        expected: t2,
                        actual: t1,
                    },
                );
            }
            i = i + 1;
        }
        let ret = match sig.returns {
            Some(t) => t,
            None => Type::Nil,
        };
        Ok(Expr::new(ExprCode::Call(name.to_owned(), params), ret))
    }
}

/// The type of a well-typed binary operation: both operands must be
/// well-typed; the node itself is a 64-bit integer computation.
pub open spec fn binop_type(a: Option<Type>, b: Option<Type>) -> Option<Type> {
    if a is Some && b is Some {
        Some(Type::I64)
    } else {
        None
    }
}

/// The resolved backend type of a surface expression under the given
/// declared fields and extern registry, or `None` if the expression does not
/// type-check: every identifier must resolve, every called name must be
/// registered, and call arguments must equal the declared parameter types
/// positionally and exactly.
pub open spec fn expr_type(
    e: AstExpr,
    fields: Map<Seq<char>, Type>,
    funcs: Map<Seq<char>, ExternFuncSignature>,
) -> Option<Type>
    decreases e,
{
    match e {
        AstExpr::Literal(_) => Some(Type::I64),
        AstExpr::Identifier(n) => if fields.contains_key(n@) {
            Some(fields[n@])
        } else {
            None
        },
        AstExpr::CmpEq(a, b) => binop_type(
            expr_type(*a, fields, funcs),
            expr_type(*b, fields, funcs),
        ),
        AstExpr::CmpNe(a, b) => binop_type(
            expr_type(*a, fields, funcs),
            expr_type(*b, fields, funcs),
        ),
        AstExpr::CmpLt(a, b) => binop_type(
            expr_type(*a, fields, funcs),
            expr_type(*b, fields, funcs),
        ),
        AstExpr::CmpLe(a, b) => binop_type(
            expr_type(*a, fields, funcs),
            expr_type(*b, fields, funcs),
        ),
        AstExpr::CmpGt(a, b) => binop_type(
            expr_type(*a, fields, funcs),
            expr_type(*b, fields, funcs),
        ),
        AstExpr::CmpGe(a, b) => binop_type(
            expr_type(*a, fields, funcs),
            expr_type(*b, fields, funcs),
        ),
        AstExpr::Add(a, b) => binop_type(
            expr_type(*a, fields, funcs),
            expr_type(*b, fields, funcs),
        ),
        AstExpr::Sub(a, b) => binop_type(
            expr_type(*a, fields, funcs),
            expr_type(*b, fields, funcs),
        ),
        AstExpr::Mul(a, b) => binop_type(
            expr_type(*a, fields, funcs),
            expr_type(*b, fields, funcs),
        ),
        AstExpr::Div(a, b) => binop_type(
            expr_type(*a, fields, funcs),
            expr_type(*b, fields, funcs),
        ),
        AstExpr::Call(n, args) => if funcs.contains_key(n@) {
            let ts = exprs_types(args@, fields, funcs);
            if ts is Some && ts.unwrap() == funcs[n@].params@ {
                if funcs[n@].returns is Some {
                    Some(funcs[n@].returns.unwrap())
                } else {
                    Some(Type::Nil)
                }
            } else {
                None
            }
        } else {
            None
        },
        AstExpr::GlobalDataAddr(_) => Some(Type::Ptr64),
    }
}

/// The types of a sequence of surface expressions, or `None` if any of them
/// does not type-check.
pub open spec fn exprs_types(
    s: Seq<AstExpr>,
    fields: Map<Seq<char>, Type>,
    funcs: Map<Seq<char>, ExternFuncSignature>,
) -> Option<Seq<Type>>
    decreases s,
{
    if s.len() == 0 {
        Some(Seq::empty())
    } else {
        let h = expr_type(s[0], fields, funcs);
        let t = exprs_types(s.drop_first(), fields, funcs);
        if h is Some && t is Some {
            Some(seq![h.unwrap()] + t.unwrap())
        } else {
            None
        }
    }
}

/// The declared fields after checking one statement against the session, or
/// `None` if the statement does not type-check. Declarations extend the
/// fields; the scope is flat, so a declaration inside a branch or a loop
/// body stays visible afterwards, and an assignment target must already be
/// declared.
pub open spec fn stmt_fields(
    s: Stmt,
    fields: Map<Seq<char>, Type>,
    funcs: Map<Seq<char>, ExternFuncSignature>,
) -> Option<Map<Seq<char>, Type>>
    decreases s,
{
    match s {
        Stmt::IfElse(c, t, e) => if expr_type(*c, fields, funcs) is Some {
            let f1 = stmts_fields(t@, fields, funcs);
            if f1 is Some {
                stmts_fields(e@, f1.unwrap(), funcs)
            } else {
                None
            }
        } else {
            None
        },
        Stmt::WhileLoop(c, b) => if expr_type(*c, fields, funcs) is Some {
            stmts_fields(b@, fields, funcs)
        } else {
            None
        },
        Stmt::Declare(nt) => Some(fields.insert(nt.name@, spec_lower(nt.typ))),
        Stmt::Assign(n, e) => if fields.contains_key(n@) && expr_type(*e, fields, funcs)
            is Some {
            Some(fields)
        } else {
            None
        },
        Stmt::Initialization(nt, e) => if expr_type(*e, fields, funcs) is Some {
            Some(fields.insert(nt.name@, spec_lower(nt.typ)))
        } else {
            None
        },
        Stmt::SideEffect(e) => if expr_type(*e, fields, funcs) is Some {
            Some(fields)
        } else {
            None
        },
    }
}

/// The declared fields after checking a statement sequence in order, or
/// `None` as soon as one statement does not type-check.
pub open spec fn stmts_fields(
    s: Seq<Stmt>,
    fields: Map<Seq<char>, Type>,
    funcs: Map<Seq<char>, ExternFuncSignature>,
) -> Option<Map<Seq<char>, Type>>
    decreases s,
{
    if s.len() == 0 {
        Some(fields)
    } else {
        let f1 = stmt_fields(s[0], fields, funcs);
        if f1 is Some {
            stmts_fields(s.drop_first(), f1.unwrap(), funcs)
        } else {
            None
        }
    }
}

/// The declared fields after declaring a function's parameters in order.
pub open spec fn params_fields(
    ps: Seq<crate::frontend::NameType>,
    fields: Map<Seq<char>, Type>,
) -> Map<Seq<char>, Type>
    decreases ps,
{
    if ps.len() == 0 {
        fields
    } else {
        params_fields(ps.drop_first(), fields.insert(ps[0].name@, spec_lower(ps[0].typ)))
    }
}

/// The declared fields after checking a whole function: parameters and the
/// optional return slot are declared first, then the body is checked in
/// order. `None` if the function does not type-check.
pub open spec fn program_fields(
    p: Program,
    fields: Map<Seq<char>, Type>,
    funcs: Map<Seq<char>, ExternFuncSignature>,
) -> Option<Map<Seq<char>, Type>> {
    let f0 = params_fields(p.params@, fields);
    let f1 = if p.returns is Some {
        f0.insert(p.returns.unwrap().name@, spec_lower(p.returns.unwrap().typ))
    } else {
        f0
    };
    stmts_fields(p.body@, f1, funcs)
}

/// Structural correspondence between a built code tree and the surface
/// expression it was built from: same shape, same names, same literal texts.
pub open spec fn code_matches(c: ExprCode, e: AstExpr) -> bool
    decreases e,
{
    match e {
        AstExpr::Literal(s) => (c matches ExprCode::Literal(t) && t@ == s@),
        AstExpr::Identifier(s) => (c matches ExprCode::Identifier(t) && t@ == s@),
        AstExpr::CmpEq(a, b) => (c matches ExprCode::CmpEq(x, y) && code_matches(x.spec_code(), *a)
            && code_matches(y.spec_code(), *b)),
        AstExpr::CmpNe(a, b) => (c matches ExprCode::CmpNe(x, y) && code_matches(x.spec_code(), *a)
            && code_matches(y.spec_code(), *b)),
        AstExpr::CmpLt(a, b) => (c matches ExprCode::CmpLt(x, y) && code_matches(x.spec_code(), *a)
            && code_matches(y.spec_code(), *b)),
        AstExpr::CmpLe(a, b) => (c matches ExprCode::CmpLe(x, y) && code_matches(x.spec_code(), *a)
            && code_matches(y.spec_code(), *b)),
        AstExpr::CmpGt(a, b) => (c matches ExprCode::CmpGt(x, y) && code_matches(x.spec_code(), *a)
            && code_matches(y.spec_code(), *b)),
        AstExpr::CmpGe(a, b) => (c matches ExprCode::CmpGe(x, y) && code_matches(x.spec_code(), *a)
            && code_matches(y.spec_code(), *b)),
        AstExpr::Add(a, b) => (c matches ExprCode::Add(x, y) && code_matches(x.spec_code(), *a)
            && code_matches(y.spec_code(), *b)),
        AstExpr::Sub(a, b) => (c matches ExprCode::Sub(x, y) && code_matches(x.spec_code(), *a)
            && code_matches(y.spec_code(), *b)),
        AstExpr::Mul(a, b) => (c matches ExprCode::Mul(x, y) && code_matches(x.spec_code(), *a)
            && code_matches(y.spec_code(), *b)),
        AstExpr::Div(a, b) => (c matches ExprCode::Div(x, y) && code_matches(x.spec_code(), *a)
            && code_matches(y.spec_code(), *b)),
        AstExpr::Call(n, args) => (c matches ExprCode::Call(m, cargs) && m@ == n@ && codes_match(
            cargs@,
            args@,
        )),
        AstExpr::GlobalDataAddr(n) => (c matches ExprCode::GlobalDataAddr(m) && m@ == n@),
    }
}

/// Elementwise structural correspondence of built argument nodes.
pub open spec fn codes_match(cs: Seq<Expr>, es: Seq<AstExpr>) -> bool
    decreases es,
{
    cs.len() == es.len() && (es.len() == 0 || (code_matches(cs[0].spec_code(), es[0])
        && codes_match(cs.drop_first(), es.drop_first())))
}

proof fn lemma_codes_match_snoc(cs: Seq<Expr>, es: Seq<AstExpr>, c: Expr, e: AstExpr)
    requires
        codes_match(cs, es),
        code_matches(c.spec_code(), e),
    ensures
        codes_match(cs.push(c), es.push(e)),
    decreases es.len(),
{
    if es.len() == 0 {
        assert(cs.push(c).drop_first() =~= Seq::<Expr>::empty());
        assert(es.push(e).drop_first() =~= Seq::<AstExpr>::empty());
        assert(cs.push(c)[0] == c);
        assert(es.push(e)[0] == e);
        assert(codes_match(Seq::<Expr>::empty(), Seq::<AstExpr>::empty()));
    } else {
        assert(cs.push(c).drop_first() =~= cs.drop_first().push(c));
        assert(es.push(e).drop_first() =~= es.drop_first().push(e));
        lemma_codes_match_snoc(cs.drop_first(), es.drop_first(), c, e);
        assert(cs.push(c)[0] == cs[0]);
        assert(es.push(e)[0] == es[0]);
    }
}

/// Structural correspondence between a checked statement and the surface
/// statement it was built from, declarations lowered.
pub open spec fn stmt_code_matches(c: StmtCode, s: Stmt) -> bool
    decreases s,
{
    match s {
        Stmt::IfElse(cond, t, e) => (c matches StmtCode::IfElse(cc, ct, ce) && code_matches(
            *cc,
            *cond,
        ) && stmt_codes_match(ct@, t@) && stmt_codes_match(ce@, e@)),
        Stmt::WhileLoop(cond, b) => (c matches StmtCode::WhileLoop(cc, cb) && code_matches(
            *cc,
            *cond,
        ) && stmt_codes_match(cb@, b@)),
        Stmt::Declare(nt) => (c matches StmtCode::Declare(cnt) && cnt.name@ == nt.name@ && cnt.typ
            == spec_lower(nt.typ)),
        Stmt::Assign(n, e) => (c matches StmtCode::Assign(m, ce) && m@ == n@ && code_matches(
            *ce,
            *e,
        )),
        Stmt::Initialization(nt, e) => (c matches StmtCode::Initialization(cnt, ce) && cnt.name@
            == nt.name@ && cnt.typ == spec_lower(nt.typ) && code_matches(*ce, *e)),
        Stmt::SideEffect(e) => (c matches StmtCode::SideEffect(ce) && code_matches(*ce, *e)),
    }
}

/// Elementwise structural correspondence of checked statement sequences.
pub open spec fn stmt_codes_match(cs: Seq<StmtCode>, ss: Seq<Stmt>) -> bool
    decreases ss,
{
    cs.len() == ss.len() && (ss.len() == 0 || (stmt_code_matches(cs[0], ss[0])
        && stmt_codes_match(cs.drop_first(), ss.drop_first())))
}

proof fn lemma_stmt_codes_match_snoc(cs: Seq<StmtCode>, ss: Seq<Stmt>, c: StmtCode, s: Stmt)
    requires
        stmt_codes_match(cs, ss),
        stmt_code_matches(c, s),
    ensures
        stmt_codes_match(cs.push(c), ss.push(s)),
    decreases ss.len(),
{
    if ss.len() == 0 {
        assert(cs.push(c).drop_first() =~= Seq::<StmtCode>::empty());
        assert(ss.push(s).drop_first() =~= Seq::<Stmt>::empty());
        assert(cs.push(c)[0] == c);
        assert(ss.push(s)[0] == s);
        assert(stmt_codes_match(Seq::<StmtCode>::empty(), Seq::<Stmt>::empty()));
    } else {
        assert(cs.push(c).drop_first() =~= cs.drop_first().push(c));
        assert(ss.push(s).drop_first() =~= ss.drop_first().push(s));
        lemma_stmt_codes_match_snoc(cs.drop_first(), ss.drop_first(), c, s);
        assert(cs.push(c)[0] == cs[0]);
        assert(ss.push(s)[0] == ss[0]);
    }
}

/// The mathematical value of a build error: payload strings as character
/// sequences.
pub enum BuildErrV {
    UnknownIdentifier(Seq<char>),
    DuplicateFunction(Seq<char>),
    UnknownFunction(Seq<char>),
    ArityMismatch { func: Seq<char>, expected: int, actual: int },
    ArgTypeMismatch { func: Seq<char>, index: int, expected: Type, actual: Type },
}

/// The value a build error denotes.
pub open spec fn err_v(e: BuildError) -> BuildErrV {
    match e {
        BuildError::UnknownIdentifier(n) => BuildErrV::UnknownIdentifier(n@),
        BuildError::DuplicateFunction(n) => BuildErrV::DuplicateFunction(n@),
        BuildError::UnknownFunction(n) => BuildErrV::UnknownFunction(n@),
        BuildError::ArityMismatch { func, expected, actual } => BuildErrV::ArityMismatch {
            func: func@,
            expected: expected as int,
            actual: actual as int,
        },
        BuildError::ArgTypeMismatch { func, index, expected, actual } => BuildErrV::ArgTypeMismatch {
            func: func@,
            index: index as int,
            expected,
            actual,
        },
    }
}

/// The error the builder reports for an expression that does not
/// type-check: the first failure in left-to-right construction order.
/// Meaningful only when `expr_type` is `None`.
pub open spec fn expr_err(
    e: AstExpr,
    fields: Map<Seq<char>, Type>,
    funcs: Map<Seq<char>, ExternFuncSignature>,
) -> BuildErrV
    decreases e,
{
    match e {
        AstExpr::Literal(_) => BuildErrV::UnknownIdentifier(Seq::empty()),
        AstExpr::Identifier(n) => BuildErrV::UnknownIdentifier(n@),
        AstExpr::CmpEq(a, b) => if expr_type(*a, fields, funcs) is None {
            expr_err(*a, fields, funcs)
        } else {
            expr_err(*b, fields, funcs)
        },
        AstExpr::CmpNe(a, b) => if expr_type(*a, fields, funcs) is None {
            expr_err(*a, fields, funcs)
        } else {
            expr_err(*b, fields, funcs)
        },
        AstExpr::CmpLt(a, b) => if expr_type(*a, fields, funcs) is None {
            expr_err(*a, fields, funcs)
        } else {
            expr_err(*b, fields, funcs)
        },
        AstExpr::CmpLe(a, b) => if expr_type(*a, fields, funcs) is None {
            expr_err(*a, fields, funcs)
        } else {
            expr_err(*b, fields, funcs)
        },
        AstExpr::CmpGt(a, b) => if expr_type(*a, fields, funcs) is None {
            expr_err(*a, fields, funcs)
        } else {
            expr_err(*b, fields, funcs)
        },
        AstExpr::CmpGe(a, b) => if expr_type(*a, fields, funcs) is None {
            expr_err(*a, fields, funcs)
        } else {
            expr_err(*b, fields, funcs)
        },
        AstExpr::Add(a, b) => if expr_type(*a, fields, funcs) is None {
            expr_err(*a, fields, funcs)
        } else {
            expr_err(*b, fields, funcs)
        },
        AstExpr::Sub(a, b) => if expr_type(*a, fields, funcs) is None {
            expr_err(*a, fields, funcs)
        } else {
            expr_err(*b, fields, funcs)
        },
        AstExpr::Mul(a, b) => if expr_type(*a, fields, funcs) is None {
            expr_err(*a, fields, funcs)
        } else {
            expr_err(*b, fields, funcs)
        },
        AstExpr::Div(a, b) => if expr_type(*a, fields, funcs) is None {
            expr_err(*a, fields, funcs)
        } else {
            expr_err(*b, fields, funcs)
        },
        AstExpr::Call(n, args) => if exprs_types(args@, fields, funcs) is None {
            exprs_err(args@, fields, funcs)
        } else if !funcs.contains_key(n@) {
            BuildErrV::UnknownFunction(n@)
        } else {
            let sig = funcs[n@];
            let at = exprs_types(args@, fields, funcs).unwrap();
            if at.len() != sig.params@.len() {
                BuildErrV::ArityMismatch {
                    func: n@,
                    expected: sig.params@.len() as int,
                    actual: at.len() as int,
                }
            } else {
                let i = first_mismatch_from(at, sig.params@, 0).unwrap();
                BuildErrV::ArgTypeMismatch {
                    func: n@,
                    index: i,
                    expected: sig.params@[i],
                    actual: at[i],
                }
            }
        },
        AstExpr::GlobalDataAddr(_) => BuildErrV::UnknownIdentifier(Seq::empty()),
    }
}

/// The error for the first expression of a sequence that does not
/// type-check. Meaningful only when `exprs_types` is `None`.
pub open spec fn exprs_err(
    s: Seq<AstExpr>,
    fields: Map<Seq<char>, Type>,
    funcs: Map<Seq<char>, ExternFuncSignature>,
) -> BuildErrV
    decreases s,
{
    if s.len() == 0 {
        BuildErrV::UnknownIdentifier(Seq::empty())
    } else if expr_type(s[0], fields, funcs) is None {
        expr_err(s[0], fields, funcs)
    } else {
        exprs_err(s.drop_first(), fields, funcs)
    }
}

/// The error the builder reports for a statement that does not type-check:
/// the first failure in construction order (an assignment builds its value
/// before resolving its target). Meaningful only when `stmt_fields` is
/// `None`.
pub open spec fn stmt_err(
    s: Stmt,
    fields: Map<Seq<char>, Type>,
    funcs: Map<Seq<char>, ExternFuncSignature>,
) -> BuildErrV
    decreases s,
{
    match s {
        Stmt::IfElse(c, t, e) => if expr_type(*c, fields, funcs) is None {
            expr_err(*c, fields, funcs)
        } else if stmts_fields(t@, fields, funcs) is None {
            stmts_err(t@, fields, funcs)
        } else {
            stmts_err(e@, stmts_fields(t@, fields, funcs).unwrap(), funcs)
        },
        Stmt::WhileLoop(c, b) => if expr_type(*c, fields, funcs) is None {
            expr_err(*c, fields, funcs)
        } else {
            stmts_err(b@, fields, funcs)
        },
        Stmt::Declare(_) => BuildErrV::UnknownIdentifier(Seq::empty()),
        Stmt::Assign(n, e) => if expr_type(*e, fields, funcs) is None {
            expr_err(*e, fields, funcs)
        } else {
            BuildErrV::UnknownIdentifier(n@)
        },
        Stmt::Initialization(_, e) => expr_err(*e, fields, funcs),
        Stmt::SideEffect(e) => expr_err(*e, fields, funcs),
    }
}

/// The error for the first statement of a sequence that does not
/// type-check, each checked against the fields the previous statements
/// left. Meaningful only when `stmts_fields` is `None`.
pub open spec fn stmts_err(
    ss: Seq<Stmt>,
    fields: Map<Seq<char>, Type>,
    funcs: Map<Seq<char>, ExternFuncSignature>,
) -> BuildErrV
    decreases ss,
{
    if ss.len() == 0 {
        BuildErrV::UnknownIdentifier(Seq::empty())
    } else if stmt_fields(ss[0], fields, funcs) is None {
        stmt_err(ss[0], fields, funcs)
    } else {
        stmts_err(ss.drop_first(), stmt_fields(ss[0], fields, funcs).unwrap(), funcs)
    }
}

/// The error the builder reports for a function that does not type-check:
/// parameters and the return slot are declared first and never fail, so it
/// is the body's first failure. Meaningful only when `program_fields` is
/// `None`.
pub open spec fn program_err(
    p: Program,
    fields: Map<Seq<char>, Type>,
    funcs: Map<Seq<char>, ExternFuncSignature>,
) -> BuildErrV {
    let f0 = params_fields(p.params@, fields);
    let f1 = if p.returns is Some {
        f0.insert(p.returns.unwrap().name@, spec_lower(p.returns.unwrap().typ))
    } else {
        f0
    };
    stmts_err(p.body@, f1, funcs)
}

/// A fully type-checked, scope-resolved function, ready to hand to the
/// code-generation collaborator: the function name, the lowered parameter
/// and return-slot declarations, and the checked statement body.
#[derive(Debug)]
pub struct TypedFunction {
    pub name: String,
    pub params: Vec<NameType>,
    pub returns: Option<NameType>,
    pub body: Vec<StmtCode>,
}

proof fn lemma_no_mismatch_from(a: Seq<Type>, b: Seq<Type>, i: int)
    requires
        a.len() == b.len(),
        0 <= i <= a.len(),
    ensures
        first_mismatch_from(a, b, i) is None <==> (forall|j: int| i <= j < a.len() ==> a[j] == b[j]),
    decreases a.len() - i,
{
    if i < a.len() {
        lemma_no_mismatch_from(a, b, i + 1);
    }
}

proof fn lemma_no_mismatch_iff(a: Seq<Type>, b: Seq<Type>)
    ensures
        (a.len() == b.len() && first_mismatch_from(a, b, 0) is None) <==> a == b,
{
    if a.len() == b.len() {
        lemma_no_mismatch_from(a, b, 0);
        if first_mismatch_from(a, b, 0) is None {
            assert(a =~= b);
        }
    }
}

impl Assembler {
    /// Declares a field type in the session; a later declaration of the same
    /// name overrides the earlier one.
    fn declare_field(&mut self, name: &str, ty: Type)
        ensures
            final(self).state.spec_fields() == old(self).state.spec_fields().insert(name@, ty),
            final(self).state.spec_funcs() == old(self).state.spec_funcs(),
            final(self).state.spec_counters() == old(self).state.spec_counters(),
    {
        let key = name.to_owned();
        proof {
            lemma_assoc_push(self.state.fields@, (key, ty));
        }
        self.state.fields.push((key, ty));
    }

    /// Builds the typed node of one surface expression, validating
    /// identifier scope and extern-call linkage against the session: it
    /// succeeds exactly when the expression type-checks, and the node then
    /// carries the expression's resolved type.
    #[verifier::rlimit(100)]
    pub fn build_expr(&self, e: &AstExpr) -> (r: Result<Expr, BuildError>)
        ensures
            ({
                let et = expr_type(*e, self.state.spec_fields(), self.state.spec_funcs());
                &&& (r is Ok <==> et is Some)
                &&& (r matches Ok(ex) ==> ex.typ() == et.unwrap() && code_matches(
                    ex.spec_code(),
                    *e,
                ))
                &&& (r matches Err(er) ==> err_v(er) == expr_err(
                    *e,
                    self.state.spec_fields(),
                    self.state.spec_funcs(),
                ))
            }),
        decreases e,
    {
        match e {
            AstExpr::Literal(s) => Ok(self.lit(s.clone(), Type::I64)),
            AstExpr::Identifier(n) => self.id(n.as_str()),
            AstExpr::CmpEq(a, b) => {
                let ea = match self.build_expr(&**a) {
                    Ok(x) => x,
                    Err(er) => return Err(er),
                };
                let eb = match self.build_expr(&**b) {
                    Ok(x) => x,
                    Err(er) => return Err(er),
                };
                Ok(Expr::new(ExprCode::CmpEq(Box::new(ea), Box::new(eb)), Type::I64))
            },
            AstExpr::CmpNe(a, b) => {
                let ea = match self.build_expr(&**a) {
                    Ok(x) => x,
                    Err(er) => return Err(er),
                };
                let eb = match self.build_expr(&**b) {
                    Ok(x) => x,
                    Err(er) => return Err(er),
                };
                Ok(Expr::new(ExprCode::CmpNe(Box::new(ea), Box::new(eb)), Type::I64))
            },
            AstExpr::CmpLt(a, b) => {
                let ea = match self.build_expr(&**a) {
                    Ok(x) => x,
                    Err(er) => return Err(er),
                };
                let eb = match self.build_expr(&**b) {
                    Ok(x) => x,
                    Err(er) => return Err(er),
                };
                Ok(Expr::new(ExprCode::CmpLt(Box::new(ea), Box::new(eb)), Type::I64))
            },
            AstExpr::CmpLe(a, b) => {
                let ea = match self.build_expr(&**a) {
                    Ok(x) => x,
                    Err(er) => return Err(er),
                };
                let eb = match self.build_expr(&**b) {
                    Ok(x) => x,
                    Err(er) => return Err(er),
                };
                Ok(Expr::new(ExprCode::CmpLe(Box::new(ea), Box::new(eb)), Type::I64))
            },
            AstExpr::CmpGt(a, b) => {
                let ea = match self.build_expr(&**a) {
                    Ok(x) => x,
                    Err(er) => return Err(er),
                };
                let eb = match self.build_expr(&**b) {
                    Ok(x) => x,
                    Err(er) => return Err(er),
                };
                Ok(Expr::new(ExprCode::CmpGt(Box::new(ea), Box::new(eb)), Type::I64))
            },
            AstExpr::CmpGe(a, b) => {
                let ea = match self.build_expr(&**a) {
                    Ok(x) => x,
                    Err(er) => return Err(er),
                };
                let eb = match self.build_expr(&**b) {
                    Ok(x) => x,
                    Err(er) => return Err(er),
                };
                Ok(Expr::new(ExprCode::CmpGe(Box::new(ea), Box::new(eb)), Type::I64))
            },
            AstExpr::Add(a, b) => {
                let ea = match self.build_expr(&**a) {
                    Ok(x) => x,
                    Err(er) => return Err(er),
                };
                let eb = match self.build_expr(&**b) {
                    Ok(x) => x,
                    Err(er) => return Err(er),
                };
                Ok(Expr::new(ExprCode::Add(Box::new(ea), Box::new(eb)), Type::I64))
            },
            AstExpr::Sub(a, b) => {
                let ea = match self.build_expr(&**a) {
                    Ok(x) => x,
                    Err(er) => return Err(er),
                };
                let eb = match self.build_expr(&**b) {
                    Ok(x) => x,
                    Err(er) => return Err(er),
                };
                Ok(Expr::new(ExprCode::Sub(Box::new(ea), Box::new(eb)), Type::I64))
            },
            AstExpr::Mul(a, b) => {
                let ea = match self.build_expr(&**a) {
                    Ok(x) => x,
                    Err(er) => return Err(er),
                };
                let eb = match self.build_expr(&**b) {
                    Ok(x) => x,
                    Err(er) => return Err(er),
                };
                Ok(Expr::new(ExprCode::Mul(Box::new(ea), Box::new(eb)), Type::I64))
            },
            AstExpr::Div(a, b) => {
                let ea = match self.build_expr(&**a) {
                    Ok(x) => x,
                    Err(er) => return Err(er),
                };
                let eb = match self.build_expr(&**b) {
                    Ok(x) => x,
                    Err(er) => return Err(er),
                };
                Ok(Expr::new(ExprCode::Div(Box::new(ea), Box::new(eb)), Type::I64))
            },
            AstExpr::Call(n, args) => {
                let ghost fu = self.state.spec_funcs();
                let built = match self.build_exprs(args) {
                    Ok(v) => v,
                    Err(er) => return Err(er),
                };
                proof {
                    if fu.contains_key(n@) {
                        lemma_no_mismatch_iff(arg_types(built@), fu[n@].params@);
                    }
                }
                self.call(n.as_str(), built)
            },
            AstExpr::GlobalDataAddr(n) => Ok(
                Expr::new(ExprCode::GlobalDataAddr(n.clone()), Type::Ptr64),
            ),
        }
    }

    /// Builds the typed nodes of a sequence of surface expressions, in
    /// order: it succeeds exactly when every expression type-checks, and the
    /// built nodes then carry exactly the expressions' resolved types.
    pub fn build_exprs(&self, args: &Vec<AstExpr>) -> (r: Result<Vec<Expr>, BuildError>)
        ensures
            ({
                let ts = exprs_types(args@, self.state.spec_fields(), self.state.spec_funcs());
                &&& (r is Ok <==> ts is Some)
                &&& (r matches Ok(v) ==> arg_types(v@) == ts.unwrap() && codes_match(v@, args@))
                &&& (r matches Err(er) ==> err_v(er) == exprs_err(
                    args@,
                    self.state.spec_fields(),
                    self.state.spec_funcs(),
                ))
            }),
        decreases args@,
    {
        let ghost f = self.state.spec_fields();
        let ghost fu = self.state.spec_funcs();
        let mut built: Vec<Expr> = Vec::new();
        let mut i: usize = 0;
        proof {
            assert(args@.skip(0) =~= args@);
            assert(args@.subrange(0, 0) =~= Seq::<AstExpr>::empty());
        }
        while i < args.len()
            invariant
                i <= args@.len(),
                f == self.state.spec_fields(),
                fu == self.state.spec_funcs(),
                codes_match(built@, args@.subrange(0, i as int)),
                exprs_err(args@, f, fu) == exprs_err(args@.skip(i as int), f, fu),
                ({
                    let whole = exprs_types(args@, f, fu);
                    let rest = exprs_types(args@.skip(i as int), f, fu);
                    &&& (whole is Some <==> rest is Some)
                    &&& (whole is Some ==> whole.unwrap() == arg_types(built@) + rest.unwrap())
                }),
            decreases args@.len() - i,
        {
            proof {
                assert(args@.skip(i as int)[0] == args@[i as int]);
                assert(args@.skip(i as int).drop_first() =~= args@.skip(i as int + 1));
            }
            let ghost built0 = built@;
            let res_i = self.build_expr(&args[i]);
            proof {
                if expr_type(args@[i as int], f, fu) is None {
                    assert(exprs_types(args@.skip(i as int), f, fu) is None);
                }
            }
            let ex = match res_i {
                Ok(x) => x,
                Err(er) => return Err(er),
            };
            proof {
                lemma_codes_match_snoc(built0, args@.subrange(0, i as int), ex, args@[i as int]);
                assert(args@.subrange(0, i as int + 1) =~= args@.subrange(0, i as int).push(
                    args@[i as int],
                ));
            }
            built.push(ex);
            i = i + 1;
            proof {
                assert(arg_types(built@) =~= arg_types(built0).push(ex.typ()));
                if exprs_types(args@, f, fu) is Some {
                    assert(arg_types(built@) + exprs_types(args@.skip(i as int), f, fu).unwrap()
                        =~= arg_types(built0) + exprs_types(
                        args@.skip(i as int - 1),
                        f,
                        fu,
                    ).unwrap());
                }
            }
        }
        proof {
            assert(args@.skip(args@.len() as int) =~= Seq::<AstExpr>::empty());
            assert(args@.subrange(0, args@.len() as int) =~= args@);
            assert(exprs_types(args@, f, fu) is Some ==> exprs_types(args@, f, fu).unwrap()
                =~= arg_types(built@));
        }
        Ok(built)
    }

    /// Checks and translates one statement, threading declarations through
    /// the session: it succeeds exactly when the statement type-checks
    /// against the current session, and the session's declared fields are
    /// then exactly the checker's result.
    pub fn build_stmt(&mut self, s: &Stmt) -> (r: Result<StmtCode, BuildError>)
        ensures
            ({
                let res = stmt_fields(
                    *s,
                    old(self).state.spec_fields(),
                    old(self).state.spec_funcs(),
                );
                &&& (r is Ok <==> res is Some)
                &&& (res is Some ==> final(self).state.spec_fields() == res.unwrap())
                &&& final(self).state.spec_funcs() == old(self).state.spec_funcs()
                &&& final(self).state.spec_counters() == old(self).state.spec_counters()
                &&& (r matches Ok(sc) ==> stmt_code_matches(sc, *s))
                &&& (r matches Err(er) ==> err_v(er) == stmt_err(
                    *s,
                    old(self).state.spec_fields(),
                    old(self).state.spec_funcs(),
                ))
            }),
        decreases s,
    {
        match s {
            Stmt::IfElse(c, t, e) => {
                let cond = match self.build_expr(&**c) {
                    Ok(x) => x,
                    Err(er) => return Err(er),
                };
                let tb = match self.build_stmts(t) {
                    Ok(x) => x,
                    Err(er) => return Err(er),
                };
                let eb = match self.build_stmts(e) {
                    Ok(x) => x,
                    Err(er) => return Err(er),
                };
                Ok(StmtCode::IfElse(Box::new(cond.code), tb, eb))
            },
            Stmt::WhileLoop(c, b) => {
                let cond = match self.build_expr(&**c) {
                    Ok(x) => x,
                    Err(er) => return Err(er),
                };
                let body = match self.build_stmts(b) {
                    Ok(x) => x,
                    Err(er) => return Err(er),
                };
                Ok(StmtCode::WhileLoop(Box::new(cond.code), body))
            },
            Stmt::Declare(nt) => {
                let ty = lower(nt.typ);
                self.declare_field(nt.name.as_str(), ty);
                Ok(StmtCode::Declare(NameType::new(nt.name.clone(), ty)))
            },
            Stmt::Assign(n, e) => {
                let ex = match self.build_expr(&**e) {
                    Ok(x) => x,
                    Err(er) => return Err(er),
                };
                match self.id(n.as_str()) {
                    Ok(_) => (),
                    Err(er) => return Err(er),
                };
                Ok(StmtCode::Assign(n.clone(), Box::new(ex.code)))
            },
            Stmt::Initialization(nt, e) => {
                let ex = match self.build_expr(&**e) {
                    Ok(x) => x,
                    Err(er) => return Err(er),
                };
                let ty = lower(nt.typ);
                self.declare_field(nt.name.as_str(), ty);
                Ok(StmtCode::Initialization(NameType::new(nt.name.clone(), ty), Box::new(ex.code)))
            },
            Stmt::SideEffect(e) => {
                let ex = match self.build_expr(&**e) {
                    Ok(x) => x,
                    Err(er) => return Err(er),
                };
                Ok(StmtCode::SideEffect(Box::new(ex.code)))
            },
        }
    }

    /// Checks and translates a statement sequence in order; it succeeds
    /// exactly when every statement type-checks, each against the session as
    /// the previous statements left it.
    pub fn build_stmts(&mut self, stmts: &Vec<Stmt>) -> (r: Result<Vec<StmtCode>, BuildError>)
        ensures
            ({
                let res = stmts_fields(
                    stmts@,
                    old(self).state.spec_fields(),
                    old(self).state.spec_funcs(),
                );
                &&& (r is Ok <==> res is Some)
                &&& (res is Some ==> final(self).state.spec_fields() == res.unwrap())
                &&& final(self).state.spec_funcs() == old(self).state.spec_funcs()
                &&& final(self).state.spec_counters() == old(self).state.spec_counters()
                &&& (r matches Ok(out) ==> stmt_codes_match(out@, stmts@))
                &&& (r matches Err(er) ==> err_v(er) == stmts_err(
                    stmts@,
                    old(self).state.spec_fields(),
                    old(self).state.spec_funcs(),
                ))
            }),
        decreases stmts@,
    {
        let mut out: Vec<StmtCode> = Vec::new();
        let mut i: usize = 0;
        proof {
            assert(stmts@.skip(0) =~= stmts@);
            assert(stmts@.subrange(0, 0) =~= Seq::<Stmt>::empty());
        }
        while i < stmts.len()
            invariant
                i <= stmts@.len(),
                out@.len() == i,
                stmt_codes_match(out@, stmts@.subrange(0, i as int)),
                stmts_err(stmts@, old(self).state.spec_fields(), old(self).state.spec_funcs())
                    == stmts_err(
                    stmts@.skip(i as int),
                    self.state.spec_fields(),
                    self.state.spec_funcs(),
                ),
                self.state.spec_funcs() == old(self).state.spec_funcs(),
                self.state.spec_counters() == old(self).state.spec_counters(),
                stmts_fields(stmts@, old(self).state.spec_fields(), old(self).state.spec_funcs())
                    == stmts_fields(
                    stmts@.skip(i as int),
                    self.state.spec_fields(),
                    self.state.spec_funcs(),
                ),
            decreases stmts@.len() - i,
        {
            proof {
                assert(stmts@.skip(i as int)[0] == stmts@[i as int]);
                assert(stmts@.skip(i as int).drop_first() =~= stmts@.skip(i as int + 1));
            }
            let sc = match self.build_stmt(&stmts[i]) {
                Ok(x) => x,
                Err(er) => return Err(er),
            };
            let ghost out0 = out@;
            let ghost sc_v = sc;
            proof {
                lemma_stmt_codes_match_snoc(out0, stmts@.subrange(0, i as int), sc_v, stmts@[i as int]);
                assert(stmts@.subrange(0, i as int + 1) =~= stmts@.subrange(0, i as int).push(
                    stmts@[i as int],
                ));
            }
            out.push(sc);
            i = i + 1;
        }
        proof {
            assert(stmts@.skip(stmts@.len() as int) =~= Seq::<Stmt>::empty());
            assert(stmts@.subrange(0, stmts@.len() as int) =~= stmts@);
        }
        Ok(out)
    }

    /// Checks and translates one parsed function against the session: the
    /// parameters and the optional return slot are declared first, then the
    /// body is checked in order. It succeeds exactly when the function
    /// type-checks, and then hands back the type-checked function with its
    /// lowered declarations.
    pub fn build_program(&mut self, p: &Program) -> (r: Result<TypedFunction, BuildError>)
        ensures
            ({
                let res = program_fields(
                    *p,
                    old(self).state.spec_fields(),
                    old(self).state.spec_funcs(),
                );
                &&& (r is Ok <==> res is Some)
                &&& (res is Some ==> final(self).state.spec_fields() == res.unwrap())
                &&& final(self).state.spec_funcs() == old(self).state.spec_funcs()
                &&& final(self).state.spec_counters() == old(self).state.spec_counters()
                &&& (r matches Ok(tf) ==> tf.name == p.name && tf.params@.len() == p.params@.len()
                    && (forall|j: int|
                    0 <= j < p.params@.len() ==> tf.params@[j].name@ == p.params@[j].name@
                        && tf.params@[j].typ == spec_lower(p.params@[j].typ)) && (tf.returns
                    is Some <==> p.returns is Some) && (p.returns is Some
                    ==> tf.returns.unwrap().name@ == p.returns.unwrap().name@
                    && tf.returns.unwrap().typ == spec_lower(p.returns.unwrap().typ))
                    && stmt_codes_match(tf.body@, p.body@))
                &&& (r matches Err(er) ==> err_v(er) == program_err(
                    *p,
                    old(self).state.spec_fields(),
                    old(self).state.spec_funcs(),
                ))
            }),
    {
        let mut lowered: Vec<NameType> = Vec::new();
        let mut i: usize = 0;
        proof {
            assert(p.params@.skip(0) =~= p.params@);
        }
        while i < p.params.len()
            invariant
                i <= p.params@.len(),
                lowered@.len() == i,
                self.state.spec_funcs() == old(self).state.spec_funcs(),
                self.state.spec_counters() == old(self).state.spec_counters(),
                params_fields(p.params@, old(self).state.spec_fields()) == params_fields(
                    p.params@.skip(i as int),
                    self.state.spec_fields(),
                ),
                forall|j: int|
                    0 <= j < i ==> lowered@[j].name@ == p.params@[j].name@ && lowered@[j].typ
                        == spec_lower(p.params@[j].typ),
            decreases p.params@.len() - i,
        {
            proof {
                assert(p.params@.skip(i as int)[0] == p.params@[i as int]);
                assert(p.params@.skip(i as int).drop_first() =~= p.params@.skip(i as int + 1));
            }
            let nt = &p.params[i];
            let ty = lower(nt.typ);
            self.declare_field(nt.name.as_str(), ty);
            lowered.push(NameType::new(nt.name.clone(), ty));
            i = i + 1;
        }
        proof {
            assert(p.params@.skip(p.params@.len() as int) =~= Seq::<crate::frontend::NameType>::empty());
        }
        let rets: Option<NameType> = match &p.returns {
            Some(nt) => {
                let ty = lower(nt.typ);
                self.declare_field(nt.name.as_str(), ty);
                Some(NameType::new(nt.name.clone(), ty))
            },
            None => None,
        };
        let body = match self.build_stmts(&p.body) {
            Ok(b) => b,
            Err(er) => return Err(er),
        };
        Ok(TypedFunction { name: p.name.clone(), params: lowered, returns: rets, body })
    }
}

proof fn lemma_dec_len(n: nat)
    ensures
        spec_dec(n).len() >= 1,
    decreases n,
{
    if n >= 10 {
        lemma_dec_len(n / 10);
    }
}

proof fn lemma_dec_injective(m: nat, n: nat)
    requires
        spec_dec(m) == spec_dec(n),
    ensures
        m == n,
    decreases m,
{
    lemma_dec_len(m);
    lemma_dec_len(n);
    if m < 10 && n < 10 {
        assert(spec_dec(m)[0] == spec_digit(m));
        assert(spec_dec(n)[0] == spec_digit(n));
        lemma_digit_injective(m, n);
    } else if m < 10 {
        lemma_dec_len(n / 10);
        assert(spec_dec(n).len() >= 2);
        assert(false);
    } else if n < 10 {
        lemma_dec_len(m / 10);
        assert(spec_dec(m).len() >= 2);
        assert(false);
    } else {
        assert(spec_dec(m).last() == spec_dec(n).last());
        assert(spec_dec(m).last() == spec_digit(m % 10));
        assert(spec_dec(n).last() == spec_digit(n % 10));
        assert(spec_dec(m).drop_last() =~= spec_dec(m / 10));
        assert(spec_dec(n).drop_last() =~= spec_dec(n / 10));
        lemma_dec_injective(m / 10, n / 10);
        lemma_digit_injective(m % 10, n % 10);
        vstd::arithmetic::div_mod::lemma_fundamental_div_mod(m as int, 10);
        vstd::arithmetic::div_mod::lemma_fundamental_div_mod(n as int, 10);
    }
}

proof fn lemma_digit_injective(a: nat, b: nat)
    requires
        a < 10,
        b < 10,
        spec_digit(a) == spec_digit(b),
    ensures
        a == b,
{
}

/// Fresh-name monotonicity over a run of draws: if a base's counter stands
/// at `c0`, then by `fresh_name`'s postcondition the next draw for that base
/// uses counter `c0`, the one after it `c0 + 1`, and so on — draws for other
/// bases insert at other keys and leave this base's counter untouched — so
/// the j-th and k-th draws for the base use counters `c0 + j` and `c0 + k`,
/// and two distinct draws of the run never repeat a name.
pub proof fn lemma_fresh_name_sequence(base: Seq<char>, c0: u64, j: u64, k: u64)
    requires
        j != k,
        c0 + j <= u64::MAX,
        c0 + k <= u64::MAX,
    ensures
        spec_fresh_name(base, (c0 + j) as u64) != spec_fresh_name(base, (c0 + k) as u64),
{
    lemma_fresh_name_injective(base, (c0 + j) as u64, (c0 + k) as u64);
}

/// Fresh-name uniqueness: for one base name, draws at different counter
/// values yield different names. Together with `fresh_name`'s postcondition
/// (each draw uses the current counter and bumps it) this gives that a
/// session never repeats a fresh name for a base, however draws for other
/// bases are interleaved.
pub proof fn lemma_fresh_name_injective(base: Seq<char>, c1: u64, c2: u64)
    requires
        c1 != c2,
    ensures
        spec_fresh_name(base, c1) != spec_fresh_name(base, c2),
{
    let p = base + seq!['_'];
    let d1 = spec_dec(c1 as nat);
    let d2 = spec_dec(c2 as nat);
    assert(spec_fresh_name(base, c1) == p + d1);
    assert(spec_fresh_name(base, c2) == p + d2);
    if spec_fresh_name(base, c1) == spec_fresh_name(base, c2) {
        assert(d1.len() == d2.len());
        assert(d1 =~= (p + d1).subrange(p.len() as int, (p + d1).len() as int));
        assert(d2 =~= (p + d2).subrange(p.len() as int, (p + d2).len() as int));
        assert(d1 == d2);
        lemma_dec_injective(c1 as nat, c2 as nat);
        assert(false);
    }
}

} // verus!
