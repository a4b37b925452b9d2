use vstd::prelude::*;

verus! {

/// The kind of value that a column holds.
#[derive(Clone, Copy, PartialEq, Eq, Debug, Structural)]
pub enum ValueType {
    Unknown,
    UnsignedByte,
    UnsignedShort,
    UnsignedInt,
    SignedByte,
    SignedShort,
    SignedInt,
    String,
    Float,
    HashRef,
    Percent,
    DebugString,
    Unknown12,
    MessageId,
}

/// One cell's value. A float is held as its IEEE-754 bits.
#[derive(Clone, Debug, PartialEq)]
pub enum Value {
    Unknown,
    UnsignedByte(u8),
    UnsignedShort(u16),
    UnsignedInt(u32),
    SignedByte(i8),
    SignedShort(i16),
    SignedInt(i32),
    String(String),
    Float(u32),
    HashRef(u32),
    Percent(u8),
    DebugString(String),
    Unknown12(u8),
    MessageId(u16),
}

/// A cell's value with its text seen as characters.
pub enum ValueView {
    Unknown,
    UnsignedByte(u8),
    UnsignedShort(u16),
    UnsignedInt(u32),
    SignedByte(i8),
    SignedShort(i16),
    SignedInt(i32),
    String(Seq<char>),
    Float(u32),
    HashRef(u32),
    Percent(u8),
    DebugString(Seq<char>),
    Unknown12(u8),
    MessageId(u16),
}

impl View for Value {
    type V = ValueView;

    open spec fn view(&self) -> ValueView {
        match self {
            Value::Unknown => ValueView::Unknown,
            Value::UnsignedByte(x) => ValueView::UnsignedByte(*x),
            Value::UnsignedShort(x) => ValueView::UnsignedShort(*x),
            Value::UnsignedInt(x) => ValueView::UnsignedInt(*x),
            Value::SignedByte(x) => ValueView::SignedByte(*x),
            Value::SignedShort(x) => ValueView::SignedShort(*x),
            Value::SignedInt(x) => ValueView::SignedInt(*x),
            Value::String(s) => ValueView::String(s@),
            Value::Float(x) => ValueView::Float(*x),
            Value::HashRef(x) => ValueView::HashRef(*x),
            Value::Percent(x) => ValueView::Percent(*x),
            Value::DebugString(s) => ValueView::DebugString(s@),
            Value::Unknown12(x) => ValueView::Unknown12(*x),
            Value::MessageId(x) => ValueView::MessageId(*x),
        }
    }
}

/// The kind of a value.
pub open spec fn type_of(v: ValueView) -> ValueType {
    match v {
        ValueView::Unknown => ValueType::Unknown,
        ValueView::UnsignedByte(_) => ValueType::UnsignedByte,
        ValueView::UnsignedShort(_) => ValueType::UnsignedShort,
        ValueView::UnsignedInt(_) => ValueType::UnsignedInt,
        ValueView::SignedByte(_) => ValueType::SignedByte,
        ValueView::SignedShort(_) => ValueType::SignedShort,
        ValueView::SignedInt(_) => ValueType::SignedInt,
        ValueView::String(_) => ValueType::String,
        ValueView::Float(_) => ValueType::Float,
        ValueView::HashRef(_) => ValueType::HashRef,
        ValueView::Percent(_) => ValueType::Percent,
        ValueView::DebugString(_) => ValueType::DebugString,
        ValueView::Unknown12(_) => ValueType::Unknown12,
        ValueView::MessageId(_) => ValueType::MessageId,
    }
}

impl Value {
    /// A copy of the value.
    pub fn copy(&self) -> (r: Value)
        ensures
            r@ == self@,
    {
        match self {
            Value::Unknown => Value::Unknown,
            Value::UnsignedByte(x) => Value::UnsignedByte(*x),
            Value::UnsignedShort(x) => Value::UnsignedShort(*x),
            Value::UnsignedInt(x) => Value::UnsignedInt(*x),
            Value::SignedByte(x) => Value::SignedByte(*x),
            Value::SignedShort(x) => Value::SignedShort(*x),
            Value::SignedInt(x) => Value::SignedInt(*x),
            Value::String(s) => Value::String(s.clone()),
            Value::Float(x) => Value::Float(*x),
            Value::HashRef(x) => Value::HashRef(*x),
            Value::Percent(x) => Value::Percent(*x),
            Value::DebugString(s) => Value::DebugString(s.clone()),
            Value::Unknown12(x) => Value::Unknown12(*x),
            Value::MessageId(x) => Value::MessageId(*x),
        }
    }

    /// The kind of the value.
    pub fn value_type(&self) -> (r: ValueType)
        ensures
            r == type_of(self@),
    {
        match self {
            Value::Unknown => ValueType::Unknown,
            Value::UnsignedByte(_) => ValueType::UnsignedByte,
            Value::UnsignedShort(_) => ValueType::UnsignedShort,
            Value::UnsignedInt(_) => ValueType::UnsignedInt,
            Value::SignedByte(_) => ValueType::SignedByte,
            Value::SignedShort(_) => ValueType::SignedShort,
            Value::SignedInt(_) => ValueType::SignedInt,
            Value::String(_) => ValueType::String,
            Value::Float(_) => ValueType::Float,
            Value::HashRef(_) => ValueType::HashRef,
            Value::Percent(_) => ValueType::Percent,
            Value::DebugString(_) => ValueType::DebugString,
            Value::Unknown12(_) => ValueType::Unknown12,
            Value::MessageId(_) => ValueType::MessageId,
        }
    }
}

/// How many values a column holds per row: one, a list, or a set of flags
/// taken from the bits of one value.
#[derive(Clone, Copy, PartialEq, Eq, Debug, Structural)]
pub enum Shape {
    Single,
    List,
    Flags,
}

/// One cell of a row.
#[derive(Clone, Debug, PartialEq)]
pub enum Cell {
    Single(Value),
    List(Vec<Value>),
    Flags(Vec<u32>),
}

pub enum CellView {
    Single(ValueView),
    List(Seq<ValueView>),
    Flags(Seq<u32>),
}

impl View for Cell {
    type V = CellView;

    open spec fn view(&self) -> CellView {
        match self {
            Cell::Single(v) => CellView::Single(v@),
            Cell::List(vs) => CellView::List(vs@.map_values(|v: Value| v@)),
            Cell::Flags(fs) => CellView::Flags(fs@),
        }
    }
}

/// Whether a cell fits a column of the given shape and kind: a single value
/// of the kind, a list of values all of the kind, or flags.
pub open spec fn cell_fits(shape: Shape, ty: ValueType, c: CellView) -> bool {
    match (shape, c) {
        (Shape::Single, CellView::Single(v)) => type_of(v) == ty,
        (Shape::List, CellView::List(vs)) => forall|i: int| 0 <= i < vs.len() ==> type_of(#[trigger] vs[i]) == ty,
        (Shape::Flags, CellView::Flags(_)) => true,
        _ => false,
    }
}

impl Cell {
    /// A copy of the cell.
    pub fn copy(&self) -> (r: Cell)
        ensures
            r@ == self@,
    {
        match self {
            Cell::Single(v) => Cell::Single(v.copy()),
            Cell::List(vs) => {
                let mut out: Vec<Value> = Vec::new();
                let mut i: usize = 0;
                while i < vs.len()
                    invariant
                        0 <= i <= vs.len(),
                        out@.len() == i,
                        forall|k: int| 0 <= k < i ==> (#[trigger] out@[k])@ == vs@[k]@,
                    decreases vs.len() - i,
                {
                    out.push(vs[i].copy());
                    i = i + 1;
                }
                assert(out@.map_values(|v: Value| v@) =~= vs@.map_values(|v: Value| v@));
                Cell::List(out)
            },
            Cell::Flags(fs) => Cell::Flags(fs.clone()),
        }
    }

    /// Whether the cell fits a column of the given shape and kind.
    pub fn fits(&self, shape: Shape, ty: ValueType) -> (r: bool)
        ensures
            r == cell_fits(shape, ty, self@),
    {
        match (shape, self) {
            (Shape::Single, Cell::Single(v)) => v.value_type() == ty,
            (Shape::List, Cell::List(vs)) => {
                let ghost w = vs@.map_values(|v: Value| v@);
                assert(self@ == CellView::List(w));
                let mut i: usize = 0;
                while i < vs.len()
                    invariant
                        w == vs@.map_values(|v: Value| v@),
                        self@ == CellView::List(w),
                        0 <= i <= vs.len(),
                        forall|k: int| 0 <= k < i ==> type_of(#[trigger] vs@[k]@) == ty,
                    decreases vs.len() - i,
                {
                    if vs[i].value_type() != ty {
                        assert(w[i as int] == vs@[i as int]@);
                        return false;
                    }
                    i = i + 1;
                }
                assert(forall|k: int| 0 <= k < w.len() ==> w[k] == vs@[k]@);
                true
            },
            (Shape::Flags, Cell::Flags(_)) => true,
            _ => false,
        }
    }
}

} // verus!
