//! The values of the language and what can be done with them.

use crate::error::{Diagnostic, DiagnosticView, ErrorKind};
use crate::grammar::{FnDecl, FnDeclView};
use crate::number::{Comparison, Number, Numerics, Question, Reply, ask};
use crate::text::chars_of;
use crate::token::{Token, TokenType, TokenView};
use vstd::prelude::*;

verus! {

/// A function of the language: its declaration, and the environment in which
/// it was declared, whose names its body sees.
#[derive(Debug)]
pub struct Function {
    pub declaration: FnDecl,
    pub closure: usize,
}

/// A class, by its name.
#[derive(Debug)]
pub struct Class {
    pub ident: String,
}

/// The builtin that prints a value on a line of its own.
#[derive(Clone, Copy, Debug)]
pub struct Println {}

/// What can be called.
#[derive(Debug)]
pub enum Callable {
    Function(Function),
    Class(Class),
    Println(Println),
}

/// An instance of a class, with its fields.
#[derive(Debug)]
pub struct Instance {
    class: Class,
    fields: Vec<(String, Object)>,
}

/// A value.
#[derive(Debug)]
pub enum Object {
    Str(String),
    Boolean(bool),
    Number(Number),
    Callable(Callable),
    Instance(Instance),
    Null,
}

/// A function as a mathematical value.
pub struct FunctionView {
    pub declaration: FnDeclView,
    pub closure: nat,
}

/// A callable as a mathematical value.
pub enum CallableView {
    Function(FunctionView),
    Class(Seq<char>),
    Println,
}

/// An instance as a mathematical value.
pub struct InstanceView {
    pub class: Seq<char>,
    pub fields: Seq<(Seq<char>, ObjectView)>,
}

/// A value as a mathematical value.
pub enum ObjectView {
    Str(Seq<char>),
    Boolean(bool),
    Number(Number),
    Callable(CallableView),
    Instance(InstanceView),
    Null,
}

impl View for Function {
    type V = FunctionView;

    open spec fn view(&self) -> FunctionView {
        FunctionView { declaration: self.declaration@, closure: self.closure as nat }
    }
}

impl View for Class {
    type V = Seq<char>;

    open spec fn view(&self) -> Seq<char> {
        self.ident@
    }
}

impl View for Callable {
    type V = CallableView;

    open spec fn view(&self) -> CallableView {
        match self {
            Callable::Function(f) => CallableView::Function(f@),
            Callable::Class(c) => CallableView::Class(c@),
            Callable::Println(_) => CallableView::Println,
        }
    }
}

impl Instance {
    /// The instance as a mathematical value.
    pub closed spec fn model(&self) -> InstanceView
        decreases self,
    {
        InstanceView {
            class: self.class@,
            fields: Seq::new(
                self.fields@.len(),
                |i: int|
                    if 0 <= i < self.fields@.len() {
                        (self.fields@[i].0@, self.fields@[i].1.model())
                    } else {
                        (Seq::empty(), ObjectView::Null)
                    },
            ),
        }
    }
}

impl Object {
    /// The value as a mathematical value.
    pub open spec fn model(&self) -> ObjectView
        decreases self,
    {
        match self {
            Object::Str(s) => ObjectView::Str(s@),
            Object::Boolean(b) => ObjectView::Boolean(*b),
            Object::Number(n) => ObjectView::Number(*n),
            Object::Callable(c) => ObjectView::Callable(c@),
            Object::Instance(i) => ObjectView::Instance(i.model()),
            Object::Null => ObjectView::Null,
        }
    }
}

impl View for Instance {
    type V = InstanceView;

    open spec fn view(&self) -> InstanceView {
        self.model()
    }
}

impl View for Object {
    type V = ObjectView;

    open spec fn view(&self) -> ObjectView {
        self.model()
    }
}

/// The views of a list of values, in order.
pub open spec fn objects_view(values: Seq<Object>) -> Seq<ObjectView> {
    Seq::new(values.len(), |i: int| values[i]@)
}

impl Clone for Function {
    fn clone(&self) -> (r: Self)
        ensures
            r@ == self@,
    {
        Function { declaration: self.declaration.clone(), closure: self.closure }
    }
}

impl Clone for Class {
    fn clone(&self) -> (r: Self)
        ensures
            r@ == self@,
    {
        Class { ident: self.ident.clone() }
    }
}

impl Clone for Callable {
    fn clone(&self) -> (r: Self)
        ensures
            r@ == self@,
    {
        match self {
            Callable::Function(f) => Callable::Function(f.clone()),
            Callable::Class(c) => Callable::Class(c.clone()),
            Callable::Println(p) => Callable::Println(*p),
        }
    }
}

impl Instance {
    /// A copy of the instance.
    pub fn copy(&self) -> (r: Instance)
        ensures
            r@ == self@,
        decreases self,
    {
        let mut fields: Vec<(String, Object)> = Vec::new();
        let mut i: usize = 0;
        while i < self.fields.len()
            invariant
                i <= self.fields.len(),
                fields@.len() == i,
                forall|j: int|
                    0 <= j < i ==> fields@[j].0@ == self.fields@[j].0@ && fields@[j].1@
                        == self.fields@[j].1@,
            decreases self.fields.len() - i,
        {
            let name = self.fields[i].0.clone();
            let value = self.fields[i].1.copy();
            fields.push((name, value));
            i = i + 1;
        }
        let r = Instance { class: self.class.clone(), fields };
        assert(r@.fields =~= self@.fields);
        r
    }
}

impl Object {
    /// A copy of the value.
    pub fn copy(&self) -> (r: Object)
        ensures
            r@ == self@,
        decreases self,
    {
        match self {
            Object::Number(n) => Object::Number(*n),
            Object::Str(s) => Object::Str(s.clone()),
            Object::Boolean(b) => Object::Boolean(*b),
            Object::Null => Object::Null,
            Object::Callable(c) => Object::Callable(c.clone()),
            Object::Instance(instance) => Object::Instance(instance.copy()),
        }
    }
}

impl Clone for Instance {
    fn clone(&self) -> (r: Self)
        ensures
            r@ == self@,
    {
        self.copy()
    }
}

impl Clone for Object {
    fn clone(&self) -> (r: Self)
        ensures
            r@ == self@,
    {
        self.copy()
    }
}

/// The truth that a value stands for where one is asked: `null` and `false`
/// stand for falsehood, everything else for truth.
pub open spec fn truthy(v: ObjectView) -> bool {
    match v {
        ObjectView::Null => false,
        ObjectView::Boolean(b) => b,
        _ => true,
    }
}

/// Equality of two values: values of one kind are compared by what they
/// hold, values of different kinds are never equal, and neither callables nor
/// instances are equal to anything.
pub open spec fn equal(a: ObjectView, b: ObjectView) -> bool {
    match (a, b) {
        (ObjectView::Number(x), ObjectView::Number(y)) => x.same(y),
        (ObjectView::Str(x), ObjectView::Str(y)) => x == y,
        (ObjectView::Boolean(x), ObjectView::Boolean(y)) => x == y,
        (ObjectView::Null, ObjectView::Null) => true,
        _ => false,
    }
}

/// The order of two texts from position `i` on, where they agree before it:
/// by the first character in which they differ, and a text comes before
/// every text that it begins.
pub open spec fn text_order_from(a: Seq<char>, b: Seq<char>, i: int) -> Comparison
    decreases a.len() - i,
{
    if i < 0 || i >= a.len() {
        if i < b.len() {
            Comparison::Less
        } else {
            Comparison::Equal
        }
    } else if i >= b.len() {
        Comparison::Greater
    } else if (a[i] as u32) < (b[i] as u32) {
        Comparison::Less
    } else if (a[i] as u32) > (b[i] as u32) {
        Comparison::Greater
    } else {
        text_order_from(a, b, i + 1)
    }
}

/// The lexicographic order of two texts.
pub open spec fn text_order(a: Seq<char>, b: Seq<char>) -> Comparison {
    text_order_from(a, b, 0)
}

/// The order of two values: of two numbers and of two strings; no other two
/// values are ordered.
pub open spec fn order(a: ObjectView, b: ObjectView) -> Option<Comparison> {
    match (a, b) {
        (ObjectView::Number(x), ObjectView::Number(y)) => x.order(y),
        (ObjectView::Str(x), ObjectView::Str(y)) => Some(text_order(x, y)),
        _ => None,
    }
}

/// How a callable is shown.
pub open spec fn callable_text(c: CallableView) -> Seq<char> {
    match c {
        CallableView::Function(f) => "<user fn "@ + f.declaration.ident.lexeme + ">"@,
        CallableView::Class(name) => "<class "@ + name + ">"@,
        CallableView::Println => "<std fn println>"@,
    }
}

/// How many arguments a callable takes.
pub open spec fn callable_arity(c: CallableView) -> nat {
    match c {
        CallableView::Function(f) => f.declaration.params.len(),
        CallableView::Class(_) => 0,
        CallableView::Println => 1,
    }
}

/// How a value is shown, given how its number is shown if it is one.
pub open spec fn shown(v: ObjectView, number: Seq<char>) -> Seq<char> {
    match v {
        ObjectView::Str(s) => s,
        ObjectView::Boolean(b) => if b {
            "true"@
        } else {
            "false"@
        },
        ObjectView::Number(_) => number,
        ObjectView::Null => "null"@,
        ObjectView::Callable(c) => callable_text(c),
        ObjectView::Instance(i) => "<"@ + i.class + " instance>"@,
    }
}

/// Compares two texts lexicographically.
pub fn compare_text(a: &str, b: &str) -> (r: Comparison)
    ensures
        r == text_order(a@, b@),
{
    let x = chars_of(a);
    let y = chars_of(b);
    let mut i: usize = 0;
    while i < x.len() && i < y.len()
        invariant
            x@ == a@,
            y@ == b@,
            i <= x.len(),
            i <= y.len(),
            text_order_from(a@, b@, i as int) == text_order(a@, b@),
        decreases x.len() - i,
    {
        if (x[i] as u32) < (y[i] as u32) {
            return Comparison::Less;
        }
        if (x[i] as u32) > (y[i] as u32) {
            return Comparison::Greater;
        }
        i = i + 1;
    }
    if i < y.len() {
        Comparison::Less
    } else if i < x.len() {
        Comparison::Greater
    } else {
        Comparison::Equal
    }
}

impl Function {
    /// How many arguments the function takes.
    pub fn arity(&self) -> (r: usize)
        ensures
            r == callable_arity(CallableView::Function(self@)),
    {
        proof {
            reveal(FnDecl::model);
        }
        self.declaration.params.len()
    }

    /// How the function is shown.
    pub fn to_string(&self) -> (r: String)
        ensures
            r@ == callable_text(CallableView::Function(self@)),
    {
        proof {
            reveal(FnDecl::model);
        }
        let mut out = String::from_str("<user fn ");
        out.append(self.declaration.ident.lexeme.as_str());
        out.append(">");
        out
    }
}

impl Class {
    /// A class takes no arguments.
    pub fn arity(&self) -> (r: usize)
        ensures
            r == 0,
    {
        0
    }

    /// How the class is shown.
    pub fn to_string(&self) -> (r: String)
        ensures
            r@ == callable_text(CallableView::Class(self@)),
    {
        let mut out = String::from_str("<class ");
        out.append(self.ident.as_str());
        out.append(">");
        out
    }

    /// Calling a class makes an instance without fields.
    pub fn call(&self) -> (r: Object)
        ensures
            r@ == ObjectView::Instance(InstanceView { class: self@, fields: Seq::empty() }),
    {
        let instance = Instance::new(self.clone());
        Object::Instance(instance)
    }
}

impl Println {
    /// `println` takes one argument.
    pub fn arity(&self) -> (r: usize)
        ensures
            r == 1,
    {
        1
    }

    /// How the builtin is shown.
    pub fn to_string(&self) -> (r: String)
        ensures
            r@ == callable_text(CallableView::Println),
    {
        String::from_str("<std fn println>")
    }
}

impl Callable {
    /// How many arguments the callable takes.
    pub fn arity(&self) -> (r: usize)
        ensures
            r == callable_arity(self@),
    {
        match self {
            Callable::Function(f) => f.arity(),
            Callable::Class(c) => c.arity(),
            Callable::Println(p) => p.arity(),
        }
    }

    /// How the callable is shown.
    pub fn to_string(&self) -> (r: String)
        ensures
            r@ == callable_text(self@),
    {
        match self {
            Callable::Function(f) => f.to_string(),
            Callable::Class(c) => c.to_string(),
            Callable::Println(p) => p.to_string(),
        }
    }
}

impl Instance {
    /// An instance of `class` without fields.
    pub fn new(class: Class) -> (r: Self)
        ensures
            r@ == (InstanceView { class: class@, fields: Seq::empty() }),
    {
        let r = Self { class, fields: Vec::new() };
        assert(r@.fields =~= Seq::empty());
        r
    }
}

/// The index of the first field named `name` from `from` on; the number of
/// fields where there is none.
pub open spec fn field_index(fields: Seq<(Seq<char>, ObjectView)>, name: Seq<char>, from: int) -> int
    decreases fields.len() - from,
{
    if from < 0 || from >= fields.len() {
        fields.len() as int
    } else if fields[from].0 == name {
        from
    } else {
        field_index(fields, name, from + 1)
    }
}

/// The value of the field named `name`, if there is one.
pub open spec fn field(fields: Seq<(Seq<char>, ObjectView)>, name: Seq<char>) -> Option<ObjectView> {
    let i = field_index(fields, name, 0);
    if i < fields.len() {
        Some(fields[i].1)
    } else {
        None
    }
}

/// The message for a field that an instance does not have.
pub open spec fn undefined_field(name: Seq<char>) -> Seq<char> {
    "Undefined field "@ + name
}

proof fn lemma_field_index(fields: Seq<(Seq<char>, ObjectView)>, name: Seq<char>, from: int, i: int)
    requires
        0 <= from <= i <= fields.len(),
        forall|j: int| from <= j < i ==> fields[j].0 != name,
        i < fields.len() ==> fields[i].0 == name,
    ensures
        field_index(fields, name, from) == i,
    decreases i - from,
{
    if from < i {
        lemma_field_index(fields, name, from + 1, i);
    }
}

proof fn lemma_field_found(fields: Seq<(Seq<char>, ObjectView)>, name: Seq<char>, from: int)
    requires
        0 <= from <= fields.len(),
    ensures
        from <= field_index(fields, name, from) <= fields.len(),
        field_index(fields, name, from) < fields.len() ==> fields[field_index(
            fields,
            name,
            from,
        )].0 == name,
        forall|j: int| from <= j < field_index(fields, name, from) ==> fields[j].0 != name,
    decreases fields.len() - from,
{
    if from < fields.len() && fields[from].0 != name {
        lemma_field_found(fields, name, from + 1);
    }
}

impl Instance {
    /// The index of the field named `key`; the number of fields where there
    /// is none.
    fn position(&self, key: &String) -> (r: usize)
        ensures
            r == field_index(self@.fields, key@, 0),
            r <= self.fields@.len(),
            self@.fields.len() == self.fields@.len(),
    {
        let mut i: usize = 0;
        while i < self.fields.len()
            invariant
                i <= self.fields.len(),
                self@.fields.len() == self.fields@.len(),
                forall|j: int| 0 <= j < i ==> self@.fields[j].0 != key@,
            decreases self.fields.len() - i,
        {
            if self.fields[i].0 == *key {
                proof {
                    lemma_field_index(self@.fields, key@, 0, i as int);
                }
                return i;
            }
            i = i + 1;
        }
        proof {
            lemma_field_index(self@.fields, key@, 0, i as int);
        }
        i
    }

    /// The value of the field that `key` names. An instance has only the
    /// fields that were set.
    pub fn get(&self, key: &Token) -> (r: Result<Object, Diagnostic>)
        ensures
            match field(self@.fields, key@.lexeme) {
                Some(v) => r matches Ok(found) && found@ == v,
                None => r matches Err(d) && d@ == failure(key@.line, undefined_field(key@.lexeme)),
            },
    {
        let i = self.position(&key.lexeme);
        if i < self.fields.len() {
            return Ok(self.fields[i].1.clone());
        }
        let mut message = String::from_str("Undefined field ");
        message.append(key.lexeme.as_str());
        Err(Diagnostic::runtime(key.line, message))
    }

    /// Gives the field that `key` names the value `value`, whether or not
    /// the instance had the field.
    pub fn set(&mut self, key: Token, value: Object)
        ensures
            final(self)@.class == old(self)@.class,
            forall|name: Seq<char>| #[trigger]
                field(final(self)@.fields, name) == if name == key@.lexeme {
                    Some(value@)
                } else {
                    field(old(self)@.fields, name)
                },
    {
        let i = self.position(&key.lexeme);
        let ghost before = self@.fields;
        let ghost named = key@.lexeme;
        let ghost bound = value@;
        if i < self.fields.len() {
            self.fields.set(i, (key.lexeme, value));
        } else {
            self.fields.push((key.lexeme, value));
        }
        proof {
            let after = self@.fields;
            lemma_field_found(before, named, 0);
            assert(forall|j: int| 0 <= j < before.len() && j != i ==> after[j] == before[j]);
            assert forall|name: Seq<char>| #[trigger]
                field(after, name) == (if name == named {
                    Some(bound)
                } else {
                    field(before, name)
                }) by {
                lemma_field_found(before, name, 0);
                let k = field_index(before, name, 0);
                if name == named {
                    lemma_field_index(after, name, 0, i as int);
                } else if k < before.len() {
                    lemma_field_index(after, name, 0, k);
                } else {
                    lemma_field_index(after, name, 0, after.len() as int);
                }
            }
        }
    }
}

/// The diagnostic of a failure of the running program on `line`.
pub open spec fn failure(line: nat, message: Seq<char>) -> DiagnosticView {
    DiagnosticView { kind: ErrorKind::Runtime, line, message }
}

impl Object {
    /// The truth that the value stands for.
    pub fn truthiness(&self) -> (r: bool)
        ensures
            r == truthy(self@),
    {
        match self {
            Object::Boolean(b) => *b,
            Object::Null => false,
            _ => true,
        }
    }

    /// The truth that the value stands for.
    pub fn thrutiness(&self) -> (r: bool)
        ensures
            r == truthy(self@),
    {
        self.truthiness()
    }

    /// The number that the value is; a diagnostic on `line` if it is none.
    pub fn expect_number(self, line: &usize) -> (r: Result<Number, Diagnostic>)
        ensures
            match self@ {
                ObjectView::Number(n) => r == Ok::<Number, Diagnostic>(n),
                _ => r matches Err(d) && d@ == failure(*line as nat, "Expected number"@),
            },
    {
        if let Object::Number(n) = self {
            return Ok(n);
        }
        Err(Diagnostic::runtime(*line, String::from_str("Expected number")))
    }

    /// The text that the value is; a diagnostic on `line` if it is no string.
    pub fn expect_string(self, line: &usize) -> (r: Result<String, Diagnostic>)
        ensures
            match self@ {
                ObjectView::Str(s) => r matches Ok(text) && text@ == s,
                _ => r matches Err(d) && d@ == failure(*line as nat, "Expected string"@),
            },
    {
        if let Object::Str(s) = self {
            return Ok(s);
        }
        Err(Diagnostic::runtime(*line, String::from_str("Expected string")))
    }

    /// The truth value that the value is; a diagnostic on `line` if it is
    /// none.
    pub fn expect_boolean(self, line: &usize) -> (r: Result<bool, Diagnostic>)
        ensures
            match self@ {
                ObjectView::Boolean(b) => r == Ok::<bool, Diagnostic>(b),
                _ => r matches Err(d) && d@ == failure(*line as nat, "Expected boolean"@),
            },
    {
        if let Object::Boolean(b) = self {
            return Ok(b);
        }
        Err(Diagnostic::runtime(*line, String::from_str("Expected boolean")))
    }

    /// Tests two values for equality.
    pub fn equals(&self, other: &Object) -> (r: bool)
        ensures
            r == equal(self@, other@),
    {
        match (self, other) {
            (Object::Number(a), Object::Number(b)) => a.equals(*b),
            (Object::Str(a), Object::Str(b)) => *a == *b,
            (Object::Boolean(a), Object::Boolean(b)) => *a == *b,
            (Object::Null, Object::Null) => true,
            _ => false,
        }
    }

    /// Compares two values.
    pub fn compare(&self, other: &Object) -> (r: Option<Comparison>)
        ensures
            r == order(self@, other@),
    {
        match (self, other) {
            (Object::Str(a), Object::Str(b)) => Some(compare_text(a.as_str(), b.as_str())),
            (Object::Number(a), Object::Number(b)) => a.compare(*b),
            _ => None,
        }
    }

    /// Shows the value. A number is shown as the host shows it.
    pub fn to_string<H: Numerics>(&self, host: &H) -> (r: String)
        ensures
            !(self@ is Number) ==> r@ == shown(self@, Seq::empty()),
    {
        match self {
            Object::Number(n) => match ask(&Question::Show(*n), host) {
                Reply::Text(text) => text,
                Reply::Number(_) => String::new(),
            },
            _ => self.show(String::new()),
        }
    }

    /// Shows the value, given how its number is shown if it is one.
    pub fn show(&self, number: String) -> (r: String)
        ensures
            r@ == shown(self@, number@),
    {
        match self {
            Object::Str(s) => s.clone(),
            Object::Boolean(b) => if *b {
                String::from_str("true")
            } else {
                String::from_str("false")
            },
            Object::Number(_) => number,
            Object::Null => String::from_str("null"),
            Object::Callable(callable) => callable.to_string(),
            Object::Instance(instance) => {
                let mut out = String::from_str("<");
                out.append(instance.class.ident.as_str());
                out.append(" instance>");
                out
            },
        }
    }
}

/// Whether the token is of the kind `kind`.
pub open spec fn of_kind(token: TokenView, kind: TokenType) -> bool {
    token.ty.same_kind(kind@)
}

/// `a + b`, where `computed` is the sum if both are numbers: two numbers are
/// added, two strings are joined, and nothing else can be added.
pub open spec fn sum(a: ObjectView, b: ObjectView, computed: Number) -> Result<ObjectView, Seq<char>> {
    match (a, b) {
        (ObjectView::Str(x), ObjectView::Str(y)) => Ok(ObjectView::Str(x + y)),
        (ObjectView::Number(_), ObjectView::Number(_)) => Ok(ObjectView::Number(computed)),
        (ObjectView::Str(_), ObjectView::Number(_)) | (ObjectView::Number(_), ObjectView::Str(_)) => Err(
            "Expected both operands to be of the same type"@,
        ),
        _ => Err("Unsupported operand types for addition"@),
    }
}

/// `a - b`, `a * b` or `a / b`, where `computed` is the result if both are
/// numbers and `message` says what is wrong if they are not. Nothing is
/// divided by zero.
pub open spec fn numeric(
    a: ObjectView,
    b: ObjectView,
    computed: Number,
    dividing: bool,
    message: Seq<char>,
) -> Result<ObjectView, Seq<char>> {
    match (a, b) {
        (ObjectView::Number(_), ObjectView::Number(y)) => if dividing && y.is_zero() {
            Err("Division by zero is not allowed"@)
        } else {
            Ok(ObjectView::Number(computed))
        },
        _ => Err(message),
    }
}

/// The answer of an ordering operator: `less`, `equal` or `greater`,
/// whichever the order of its operands is; an error where they are not
/// ordered.
pub open spec fn ordering(
    a: ObjectView,
    b: ObjectView,
    less: bool,
    equal: bool,
    greater: bool,
) -> Result<ObjectView, Seq<char>> {
    match order(a, b) {
        Some(Comparison::Less) => Ok(ObjectView::Boolean(less)),
        Some(Comparison::Equal) => Ok(ObjectView::Boolean(equal)),
        Some(Comparison::Greater) => Ok(ObjectView::Boolean(greater)),
        None => Err(
            "Ordering operators can only be used when both operands are 'string' or 'number'"@,
        ),
    }
}

/// What a binary operator makes of two values, where `computed` is what the
/// host computed if the operator is arithmetic and both are numbers.
pub open spec fn binary_value(
    operator: TokenView,
    a: ObjectView,
    b: ObjectView,
    computed: Number,
) -> Result<ObjectView, Seq<char>> {
    if of_kind(operator, TokenType::EqualEqual) {
        Ok(ObjectView::Boolean(equal(a, b)))
    } else if of_kind(operator, TokenType::BangEqual) {
        Ok(ObjectView::Boolean(!equal(a, b)))
    } else if of_kind(operator, TokenType::Minus) {
        numeric(a, b, computed, false, "Expected both operands to be numbers in subtraction operation"@)
    } else if of_kind(operator, TokenType::Star) {
        numeric(
            a,
            b,
            computed,
            false,
            "Expected both operands to be numbers in multiplication operation"@,
        )
    } else if of_kind(operator, TokenType::Slash) {
        numeric(a, b, computed, true, "Expected both operands to be numbers in division operation"@)
    } else if of_kind(operator, TokenType::Plus) {
        sum(a, b, computed)
    } else if of_kind(operator, TokenType::Greater) {
        ordering(a, b, false, false, true)
    } else if of_kind(operator, TokenType::GreaterEqual) {
        ordering(a, b, false, true, true)
    } else if of_kind(operator, TokenType::LessEqual) {
        ordering(a, b, true, true, false)
    } else if of_kind(operator, TokenType::Less) {
        ordering(a, b, true, false, false)
    } else {
        Err("Unexpected binary operator"@)
    }
}

/// The outcome of a binary operator: its value, or a diagnostic on the line
/// of the operator.
pub open spec fn binary_outcome(
    operator: TokenView,
    a: ObjectView,
    b: ObjectView,
    computed: Number,
) -> Result<ObjectView, DiagnosticView> {
    match binary_value(operator, a, b, computed) {
        Ok(v) => Ok(v),
        Err(message) => Err(failure(operator.line, message)),
    }
}

/// The outcome of a unary operator: `!` answers whether the value stands for
/// falsehood, `-` changes the sign of a number.
pub open spec fn unary_outcome(operator: TokenView, v: ObjectView) -> Result<
    ObjectView,
    DiagnosticView,
> {
    if of_kind(operator, TokenType::Bang) {
        Ok(ObjectView::Boolean(!truthy(v)))
    } else if of_kind(operator, TokenType::Minus) {
        match v {
            ObjectView::Number(n) => Ok(ObjectView::Number(n.negated())),
            _ => Err(failure(operator.line, "Expected number"@)),
        }
    } else {
        Err(failure(operator.line, "Expected '-' or '!' in unary operations"@))
    }
}

/// The outcome of an operation as a mathematical value.
pub open spec fn outcome_view(r: Result<Object, Diagnostic>) -> Result<ObjectView, DiagnosticView> {
    match r {
        Ok(v) => Ok(v@),
        Err(d) => Err(d@),
    }
}

/// The value or the message of an operation as a mathematical value.
pub open spec fn value_view(r: Result<Object, String>) -> Result<ObjectView, Seq<char>> {
    match r {
        Ok(v) => Ok(v@),
        Err(m) => Err(m@),
    }
}

impl Object {
    /// `self + other`, where `computed` is the sum if both are numbers.
    pub fn add(self, other: Object, computed: Number) -> (r: Result<Object, String>)
        ensures
            value_view(r) == sum(self@, other@, computed),
    {
        match (self, other) {
            (Object::Str(s1), Object::Str(s2)) => Ok(Object::Str(s1.concat(s2.as_str()))),
            (Object::Number(_), Object::Number(_)) => Ok(Object::Number(computed)),
            (Object::Str(_), Object::Number(_)) | (Object::Number(_), Object::Str(_)) => Err(
                String::from_str("Expected both operands to be of the same type"),
            ),
            _ => Err(String::from_str("Unsupported operand types for addition")),
        }
    }

    /// `self / other`, where `computed` is the quotient if both are numbers.
    pub fn div(self, other: Object, computed: Number) -> (r: Result<Object, String>)
        ensures
            value_view(r) == numeric(
                self@,
                other@,
                computed,
                true,
                "Expected both operands to be numbers in division operation"@,
            ),
    {
        match (self, other) {
            (Object::Number(_), Object::Number(n2)) => {
                if n2.zero() {
                    return Err(String::from_str("Division by zero is not allowed"));
                }
                Ok(Object::Number(computed))
            },
            _ => Err(String::from_str("Expected both operands to be numbers in division operation")),
        }
    }

    /// `self * other`, where `computed` is the product if both are numbers.
    pub fn mul(self, other: Object, computed: Number) -> (r: Result<Object, String>)
        ensures
            value_view(r) == numeric(
                self@,
                other@,
                computed,
                false,
                "Expected both operands to be numbers in multiplication operation"@,
            ),
    {
        match (self, other) {
            (Object::Number(_), Object::Number(_)) => Ok(Object::Number(computed)),
            _ => Err(
                String::from_str("Expected both operands to be numbers in multiplication operation"),
            ),
        }
    }

    /// `self - other`, where `computed` is the difference if both are
    /// numbers.
    pub fn sub(self, other: Object, computed: Number) -> (r: Result<Object, String>)
        ensures
            value_view(r) == numeric(
                self@,
                other@,
                computed,
                false,
                "Expected both operands to be numbers in subtraction operation"@,
            ),
    {
        match (self, other) {
            (Object::Number(_), Object::Number(_)) => Ok(Object::Number(computed)),
            _ => Err(
                String::from_str("Expected both operands to be numbers in subtraction operation"),
            ),
        }
    }

    /// The answer of an ordering operator: `less`, `equal` or `greater`,
    /// whichever the order of the operands is.
    pub fn ordered(&self, other: &Object, less: bool, equal: bool, greater: bool) -> (r: Result<
        Object,
        String,
    >)
        ensures
            value_view(r) == ordering(self@, other@, less, equal, greater),
    {
        match self.compare(other) {
            Some(Comparison::Less) => Ok(Object::Boolean(less)),
            Some(Comparison::Equal) => Ok(Object::Boolean(equal)),
            Some(Comparison::Greater) => Ok(Object::Boolean(greater)),
            None => Err(
                String::from_str(
                    "Ordering operators can only be used when both operands are 'string' or 'number'",
                ),
            ),
        }
    }
}

/// What a binary operator makes of two values, where `computed` is what the
/// host computed if the operator is arithmetic and both are numbers.
pub fn binary_result(operator: &Token, left: Object, right: Object, computed: Number) -> (r: Result<
    Object,
    Diagnostic,
>)
    ensures
        outcome_view(r) == binary_outcome(operator@, left@, right@, computed),
{
    let value = if operator.ty.same_kind(&TokenType::EqualEqual) {
        Ok(Object::Boolean(left.equals(&right)))
    } else if operator.ty.same_kind(&TokenType::BangEqual) {
        Ok(Object::Boolean(!left.equals(&right)))
    } else if operator.ty.same_kind(&TokenType::Minus) {
        left.sub(right, computed)
    } else if operator.ty.same_kind(&TokenType::Star) {
        left.mul(right, computed)
    } else if operator.ty.same_kind(&TokenType::Slash) {
        left.div(right, computed)
    } else if operator.ty.same_kind(&TokenType::Plus) {
        left.add(right, computed)
    } else if operator.ty.same_kind(&TokenType::Greater) {
        left.ordered(&right, false, false, true)
    } else if operator.ty.same_kind(&TokenType::GreaterEqual) {
        left.ordered(&right, false, true, true)
    } else if operator.ty.same_kind(&TokenType::LessEqual) {
        left.ordered(&right, true, true, false)
    } else if operator.ty.same_kind(&TokenType::Less) {
        left.ordered(&right, true, false, false)
    } else {
        Err(String::from_str("Unexpected binary operator"))
    };
    match value {
        Ok(v) => Ok(v),
        Err(message) => Err(Diagnostic::runtime(operator.line, message)),
    }
}

/// What a unary operator makes of a value.
pub fn unary_result(operator: &Token, value: Object) -> (r: Result<Object, Diagnostic>)
    ensures
        outcome_view(r) == unary_outcome(operator@, value@),
{
    if operator.ty.same_kind(&TokenType::Bang) {
        Ok(Object::Boolean(!value.truthiness()))
    } else if operator.ty.same_kind(&TokenType::Minus) {
        match value.expect_number(&operator.line) {
            Ok(n) => Ok(Object::Number(n.negate())),
            Err(d) => Err(d),
        }
    } else {
        Err(
            Diagnostic::runtime(
                operator.line,
                String::from_str("Expected '-' or '!' in unary operations"),
            ),
        )
    }
}

/// Every value stands for truth or for falsehood, `!` always answers a
/// truth value, and negating a value twice answers the truth that the value
/// stands for.
pub proof fn law_double_negation(operator: TokenView, v: ObjectView)
    requires
        of_kind(operator, TokenType::Bang),
    ensures
        unary_outcome(operator, v) == Ok::<ObjectView, DiagnosticView>(
            ObjectView::Boolean(!truthy(v)),
        ),
        unary_outcome(operator, ObjectView::Boolean(!truthy(v))) == Ok::<
            ObjectView,
            DiagnosticView,
        >(ObjectView::Boolean(truthy(v))),
{
}

/// A value that is neither a callable nor an instance, and no number that
/// is NaN, is equal to itself: `v == v` is `true` and `v != v` is `false`.
pub proof fn law_equality_reflexive(
    equals: TokenView,
    differs: TokenView,
    v: ObjectView,
    computed: Number,
)
    requires
        of_kind(equals, TokenType::EqualEqual),
        of_kind(differs, TokenType::BangEqual),
        !(v is Callable),
        !(v is Instance),
        v matches ObjectView::Number(n) ==> !n.is_nan(),
    ensures
        equal(v, v),
        binary_value(equals, v, v, computed) == Ok::<ObjectView, Seq<char>>(
            ObjectView::Boolean(true),
        ),
        binary_value(differs, v, v, computed) == Ok::<ObjectView, Seq<char>>(
            ObjectView::Boolean(false),
        ),
{
    reveal(crate::token::TokenKind::same_kind);
}

/// A callable is equal to nothing, not even to itself: `c == c` is `false`.
pub proof fn law_callables_never_equal(
    equals: TokenView,
    c: ObjectView,
    other: ObjectView,
    computed: Number,
)
    requires
        of_kind(equals, TokenType::EqualEqual),
        c is Callable,
    ensures
        !equal(c, other),
        !equal(other, c),
        binary_value(equals, c, c, computed) == Ok::<ObjectView, Seq<char>>(
            ObjectView::Boolean(false),
        ),
{
}

} // verus!
