use vstd::prelude::*;
use vstd::string::*;
pub use crate::code::Const;
pub use crate::code::ConstView;
use crate::float::Float;
use crate::lexer::text::string_push;

pub mod laws;

verus! {

/// The functions that the engine itself provides.
#[derive(Debug, Clone, Copy, PartialEq, Eq, Hash, Structural)]
pub enum Builtin {
    Print,
    Panic,
    Assert,
    Import,
    Table,
    Get,
    SetKey,
}

/// A function that is part of the engine, not of a program.
#[derive(Debug, Clone, Copy, PartialEq, Eq, Hash, Structural)]
pub struct RustFunc(pub Builtin);

/// A runtime value. A table is held by its handle: the index of the table in the heap.
#[derive(Debug, PartialEq, Eq)]
pub enum Data {
    Null,
    Int(i64),
    Float(Float),
    Bool(bool),
    Str(String),
    Func { id: usize, nargs: usize, module: String },
    Rust(RustFunc),
    Table(usize),
}

/// The mathematical value of a [`Data`].
pub enum DataView {
    Null,
    Int(i64),
    Float(Float),
    Bool(bool),
    Str(Seq<char>),
    Func { id: usize, nargs: usize, module: Seq<char> },
    Rust(RustFunc),
    Table(usize),
}

/// A value with its super link: the item that lookups fall through to.
#[derive(Debug, PartialEq, Eq)]
pub struct Item {
    pub val: Data,
    pub sup: Option<Box<Item>>,
}

/// The mathematical value of an [`Item`].
pub struct ItemView {
    pub val: DataView,
    pub sup: Option<Box<ItemView>>,
}

impl View for Data {
    type V = DataView;

    open spec fn view(&self) -> DataView {
        match self {
            Data::Null => DataView::Null,
            Data::Int(x) => DataView::Int(*x),
            Data::Float(x) => DataView::Float(*x),
            Data::Bool(x) => DataView::Bool(*x),
            Data::Str(s) => DataView::Str(s@),
            Data::Func { id, nargs, module } => DataView::Func {
                id: *id,
                nargs: *nargs,
                module: module@,
            },
            Data::Rust(f) => DataView::Rust(*f),
            Data::Table(t) => DataView::Table(*t),
        }
    }
}

impl Clone for Data {
    fn clone(&self) -> (r: Data)
        ensures
            r@ == self@,
    {
        match self {
            Data::Null => Data::Null,
            Data::Int(x) => Data::Int(*x),
            Data::Float(x) => Data::Float(*x),
            Data::Bool(x) => Data::Bool(*x),
            Data::Str(s) => Data::Str(s.clone()),
            Data::Func { id, nargs, module } => Data::Func {
                id: *id,
                nargs: *nargs,
                module: module.clone(),
            },
            Data::Rust(f) => Data::Rust(*f),
            Data::Table(t) => Data::Table(*t),
        }
    }
}

impl Clone for Item {
    fn clone(&self) -> (r: Item)
        ensures
            r@ == self@,
    {
        self.copy()
    }
}

/// Whether two values are the same value: floats by their place in the order of
/// numbers, so that both zeros are one value and NaN is itself; tables by their handle;
/// all others by what they hold.
pub open spec fn same_data(a: DataView, b: DataView) -> bool {
    match (a, b) {
        (DataView::Float(x), DataView::Float(y)) => x.rank() == y.rank(),
        _ => a == b,
    }
}

/// The null item.
pub open spec fn null_item() -> ItemView {
    ItemView { val: DataView::Null, sup: None }
}

/// A value without a super link.
pub open spec fn plain(val: DataView) -> ItemView {
    ItemView { val, sup: None }
}

/// Whether a value counts as true: everything but null and `false`.
pub open spec fn truthy(val: DataView) -> bool {
    !(val is Null) && val != DataView::Bool(false)
}

/// The value that a constant stands for.
pub open spec fn const_data(c: ConstView) -> DataView {
    match c {
        ConstView::Null => DataView::Null,
        ConstView::Int(x) => DataView::Int(x),
        ConstView::Float(x) => DataView::Float(x),
        ConstView::Bool(x) => DataView::Bool(x),
        ConstView::Str(s) => DataView::Str(s),
    }
}

/// The constant that holds a value; null for a value that no constant can hold.
pub open spec fn data_const(d: DataView) -> ConstView {
    match d {
        DataView::Int(x) => ConstView::Int(x),
        DataView::Float(x) => ConstView::Float(x),
        DataView::Bool(x) => ConstView::Bool(x),
        DataView::Str(s) => ConstView::Str(s),
        _ => ConstView::Null,
    }
}

/// The digit for a value below sixteen.
pub open spec fn digit_char(d: nat) -> char {
    if d < 10 {
        ((48 + d) as u8) as char
    } else {
        ((87 + d) as u8) as char
    }
}

/// The digits of a number in a base from two to sixteen, most significant first.
pub open spec fn digits(n: nat, base: nat) -> Seq<char>
    decreases n,
{
    if base < 2 || n < base {
        seq![digit_char(n)]
    } else {
        proof {
            assert(n / base < n) by (nonlinear_arith)
                requires
                    base >= 2,
                    n >= base,
            ;
        }
        digits(n / base, base).push(digit_char(n % base))
    }
}

/// An integer in base ten, with a minus sign if it is negative.
pub open spec fn int_text(x: int) -> Seq<char> {
    if x < 0 {
        seq!['-'] + digits((-x) as nat, 10)
    } else {
        digits(x as nat, 10)
    }
}

/// The name of a builtin, as it is bound in the root scope.
pub open spec fn builtin_name(b: Builtin) -> Seq<char> {
    match b {
        Builtin::Print => "print"@,
        Builtin::Panic => "panic"@,
        Builtin::Assert => "assert"@,
        Builtin::Import => "import"@,
        Builtin::Table => "table"@,
        Builtin::Get => "get"@,
        Builtin::SetKey => "set"@,
    }
}

/// The text that stands for a value; none for a float, whose text only the host can make.
///
/// A table prints as its handle, never as what it holds.
pub open spec fn data_text(d: DataView) -> Option<Seq<char>> {
    match d {
        DataView::Null => Some("null"@),
        DataView::Int(x) => Some(int_text(x as int)),
        DataView::Float(_) => None,
        DataView::Bool(x) => Some(
            if x {
                "true"@
            } else {
                "false"@
            },
        ),
        DataView::Str(s) => Some(s),
        DataView::Func { id, nargs, module } => Some(
            "func["@ + digits(id as nat, 10) + "/"@ + digits(nargs as nat, 10) + " from "@ + module
                + "]"@,
        ),
        DataView::Table(t) => Some("table["@ + digits(t as nat, 16) + "]"@),
        DataView::Rust(f) => Some("rustfunc["@ + builtin_name(f.0) + "]"@),
    }
}

/// Appends the digits of `n` in the given base.
pub fn push_digits(s: &mut String, n: u64, base: u64)
    requires
        2 <= base <= 16,
    ensures
        final(s)@ == old(s)@ + digits(n as nat, base as nat),
    decreases n,
{
    if n >= base {
        assert(n / base < n) by (nonlinear_arith)
            requires
                base >= 2,
                n >= base,
        ;
        push_digits(s, n / base, base);
    }
    let d: u8 = (n % base) as u8;
    let c: char = if d < 10 {
        (48u8 + d) as char
    } else {
        (87u8 + d) as char
    };
    assert(c == digit_char((n % base) as nat));
    string_push(s, c);
    proof {
        let d = digits(n as nat, base as nat);
        if n >= base {
            let front = digits((n / base) as nat, base as nat);
            assert((n as nat) / (base as nat) == (n / base) as nat);
            assert((n as nat) % (base as nat) == (n % base) as nat);
            assert(d == front.push(c));
            assert(old(s)@ + front.push(c) =~= (old(s)@ + front).push(c));
        } else {
            assert(n % base == n) by (nonlinear_arith)
                requires
                    n < base,
            ;
            assert(d =~= seq![c]);
            assert(old(s)@ + seq![c] =~= old(s)@.push(c));
        }
    }
}

/// Appends an integer in base ten.
pub fn push_int(s: &mut String, x: i64)
    ensures
        final(s)@ == old(s)@ + int_text(x as int),
{
    if x < 0 {
        string_push(s, '-');
        let magnitude: u64 = ((-(x + 1)) as u64) + 1;
        push_digits(s, magnitude, 10);
        assert(old(s)@.push('-') + digits((-x) as nat, 10) =~= old(s)@ + (seq!['-'] + digits(
            (-x) as nat,
            10,
        )));
    } else {
        push_digits(s, x as u64, 10);
    }
}

/// Appends a text.
pub fn push_text(s: &mut String, text: &str)
    ensures
        final(s)@ == old(s)@ + text@,
{
    s.append(text);
}

impl Data {
    /// A copy of the value.
    pub fn copy(&self) -> (r: Data)
        ensures
            r@ == self@,
    {
        self.clone()
    }

    /// Whether two values are the same value; tables are the same if they are one table.
    pub fn same(&self, other: &Data) -> (r: bool)
        ensures
            r == same_data(self@, other@),
    {
        match (self, other) {
            (Data::Null, Data::Null) => true,
            (Data::Int(a), Data::Int(b)) => *a == *b,
            (Data::Float(a), Data::Float(b)) => a.num_eq(b),
            (Data::Bool(a), Data::Bool(b)) => *a == *b,
            (Data::Str(a), Data::Str(b)) => *a == *b,
            (
                Data::Func { id: a, nargs: n, module: m },
                Data::Func { id: b, nargs: k, module: l },
            ) => *a == *b && *n == *k && *m == *l,
            (Data::Rust(a), Data::Rust(b)) => *a == *b,
            (Data::Table(a), Data::Table(b)) => *a == *b,
            _ => false,
        }
    }

    /// Whether the value counts as true.
    pub fn truth(&self) -> (r: bool)
        ensures
            r == truthy(self@),
    {
        match self {
            Data::Null => false,
            Data::Bool(false) => false,
            _ => true,
        }
    }

    /// Whether the value is null.
    pub fn null(&self) -> (r: bool)
        ensures
            r == (self@ is Null),
    {
        match self {
            Data::Null => true,
            _ => false,
        }
    }

    /// The constant that holds this value; null for a value that no constant can hold.
    pub fn to_const(&self) -> (r: Const)
        ensures
            r@ == data_const(self@),
    {
        match self {
            Data::Int(x) => Const::Int(*x),
            Data::Float(x) => Const::Float(*x),
            Data::Bool(x) => Const::Bool(*x),
            Data::Str(s) => Const::Str(s.clone()),
            _ => Const::Null,
        }
    }

    /// Whether keys can be set on the value: whether it is a table.
    pub fn can_set_key(&self) -> (r: bool)
        ensures
            r == (self@ is Table),
    {
        match self {
            Data::Table(_) => true,
            _ => false,
        }
    }

    /// The text that stands for the value; none for a float.
    pub fn to_string(&self) -> (r: Option<String>)
        ensures
            match r {
                Some(s) => data_text(self@) == Some(s@),
                None => data_text(self@) is None,
            },
    {
        match self {
            Data::Null => Some(String::from_str("null")),
            Data::Int(x) => {
                let mut s = String::new();
                push_int(&mut s, *x);
                assert(Seq::<char>::empty() + int_text(*x as int) =~= int_text(*x as int));
                Some(s)
            },
            Data::Float(_) => None,
            Data::Bool(x) => if *x {
                Some(String::from_str("true"))
            } else {
                Some(String::from_str("false"))
            },
            Data::Str(s) => Some(s.clone()),
            Data::Func { id, nargs, module } => {
                let mut s = String::from_str("func[");
                push_digits(&mut s, *id as u64, 10);
                push_text(&mut s, "/");
                push_digits(&mut s, *nargs as u64, 10);
                push_text(&mut s, " from ");
                push_text(&mut s, module.as_str());
                push_text(&mut s, "]");
                Some(s)
            },
            Data::Table(t) => {
                let mut s = String::from_str("table[");
                push_digits(&mut s, *t as u64, 16);
                push_text(&mut s, "]");
                Some(s)
            },
            Data::Rust(f) => {
                let mut s = String::from_str("rustfunc[");
                push_text(&mut s, builtin_text(f.0));
                push_text(&mut s, "]");
                Some(s)
            },
        }
    }

    /// The value as an item without a super link.
    pub fn to_item(&self) -> (r: Item)
        ensures
            r@ == plain(self@),
    {
        Item { val: self.clone(), sup: None }
    }

    /// The value as an item without a super link.
    pub fn into_item(self) -> (r: Item)
        ensures
            r@ == plain(self@),
    {
        Item { val: self, sup: None }
    }
}

/// The name of a builtin.
pub fn builtin_text(b: Builtin) -> (r: &'static str)
    ensures
        r@ == builtin_name(b),
{
    match b {
        Builtin::Print => "print",
        Builtin::Panic => "panic",
        Builtin::Assert => "assert",
        Builtin::Import => "import",
        Builtin::Table => "table",
        Builtin::Get => "get",
        Builtin::SetKey => "set",
    }
}

/// The value that a constant stands for.
pub fn const_to_data(c: &Const) -> (r: Data)
    ensures
        r@ == const_data(c@),
{
    match c {
        Const::Null => Data::Null,
        Const::Int(x) => Data::Int(*x),
        Const::Float(x) => Data::Float(*x),
        Const::Bool(x) => Data::Bool(*x),
        Const::Str(s) => Data::Str(s.clone()),
    }
}

impl Const {
    /// The value that the constant stands for.
    pub fn into_data(self) -> (r: Data)
        ensures
            r@ == const_data(self@),
    {
        const_to_data(&self)
    }

    /// The value that the constant stands for.
    pub fn to_data(&self) -> (r: Data)
        ensures
            r@ == const_data(self@),
    {
        const_to_data(self)
    }

    /// The constant's value as an item without a super link.
    pub fn to_item(&self) -> (r: Item)
        ensures
            r@ == plain(const_data(self@)),
    {
        self.to_data().into_item()
    }

    /// The constant's value as an item without a super link.
    pub fn into_item(self) -> (r: Item)
        ensures
            r@ == plain(const_data(self@)),
    {
        self.into_data().into_item()
    }
}

impl Item {
    pub open spec fn view(&self) -> ItemView
        decreases self,
    {
        ItemView {
            val: self.val@,
            sup: match self.sup {
                Some(b) => Some(Box::new(b.view())),
                None => None,
            },
        }
    }

    /// A deep copy of the item and its chain of super links.
    pub fn copy(&self) -> (r: Item)
        ensures
            r@ == self@,
        decreases self,
    {
        Item {
            val: self.val.clone(),
            sup: match &self.sup {
                Some(b) => Some(Box::new(b.copy())),
                None => None,
            },
        }
    }

    /// Whether the item's value counts as true.
    pub fn truth(&self) -> (r: bool)
        ensures
            r == truthy(self@.val),
    {
        self.val.truth()
    }

    /// Whether the item's value is null.
    pub fn null(&self) -> (r: bool)
        ensures
            r == (self@.val is Null),
    {
        self.val.null()
    }

    /// The text that stands for the item's value; none for a float.
    pub fn to_string(&self) -> (r: Option<String>)
        ensures
            match r {
                Some(s) => data_text(self@.val) == Some(s@),
                None => data_text(self@.val) is None,
            },
    {
        self.val.to_string()
    }
}

/// The values of a sequence of items.
pub open spec fn item_views(v: Seq<Item>) -> Seq<ItemView> {
    Seq::new(v.len(), |i: int| v[i]@)
}

} // verus!
