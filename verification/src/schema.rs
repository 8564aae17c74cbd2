use vstd::prelude::*;

verus! {

/// The closed set of column types.
#[derive(Clone, Copy, Debug, PartialEq, Eq, Structural)]
pub enum DataType {
    UnsignedLong,
    Double,
    String,
    Boolean,
    Point,
}

/// A named, typed column.
#[derive(Debug, PartialEq)]
pub struct Field {
    pub name: String,
    pub data_type: DataType,
    pub nullable: bool,
}

/// What a `Field` is, as a mathematical value.
pub struct FieldModel {
    pub name: Seq<char>,
    pub data_type: DataType,
    pub nullable: bool,
}

impl View for Field {
    type V = FieldModel;

    open spec fn view(&self) -> FieldModel {
        FieldModel { name: self.name@, data_type: self.data_type, nullable: self.nullable }
    }
}

impl Field {
    pub fn new(name: &str, data_type: DataType, nullable: bool) -> (f: Field)
        ensures
            f@ == (FieldModel { name: name@, data_type, nullable }),
    {
        Field { name: name.to_owned(), data_type, nullable }
    }
}

impl Clone for Field {
    fn clone(&self) -> (f: Field)
        ensures
            f@ == self@,
    {
        Field { name: self.name.clone(), data_type: self.data_type, nullable: self.nullable }
    }
}

/// An ordered list of columns. The order is the positional contract of every
/// row that is paired with the schema.
#[derive(Debug, PartialEq)]
pub struct Schema {
    pub columns: Vec<Field>,
}

impl View for Schema {
    type V = Seq<FieldModel>;

    open spec fn view(&self) -> Seq<FieldModel> {
        Seq::new(self.columns@.len(), |i: int| self.columns@[i]@)
    }
}

/// The first position at or after `from` whose column is called `name`.
pub open spec fn first_named(columns: Seq<FieldModel>, name: Seq<char>, from: int) -> Option<int>
    decreases columns.len() - from,
{
    if from < 0 || from >= columns.len() {
        None
    } else if columns[from].name == name {
        Some(from)
    } else {
        first_named(columns, name, from + 1)
    }
}

impl Schema {
    pub fn new(columns: Vec<Field>) -> (s: Schema)
        ensures
            s@ == Seq::new(columns@.len(), |i: int| columns@[i]@),
            s.columns == columns,
    {
        Schema { columns }
    }

    /// Looks a column up by name: the first column of that name, with its position.
    pub fn column(&self, name: &str) -> (found: Option<(usize, Field)>)
        ensures
            match found {
                Some((i, f)) => first_named(self@, name@, 0) == Some(i as int) && f@ == self@[
                    i as int],
                None => first_named(self@, name@, 0) is None,
            },
    {
        let wanted: String = name.to_owned();
        let mut i: usize = 0;
        while i < self.columns.len()
            invariant
                i <= self.columns.len(),
                wanted@ == name@,
                first_named(self@, name@, 0) == first_named(self@, name@, i as int),
            decreases self.columns.len() - i,
        {
            if self.columns[i].name == wanted {
                return Some((i, self.columns[i].clone()));
            }
            i += 1;
        }
        None
    }
}

impl Clone for Schema {
    fn clone(&self) -> (s: Schema)
        ensures
            s@ == self@,
    {
        let mut columns: Vec<Field> = Vec::new();
        let mut i: usize = 0;
        while i < self.columns.len()
            invariant
                i <= self.columns.len(),
                columns@.len() == i,
                forall|j: int| 0 <= j < i ==> columns@[j]@ == self.columns@[j]@,
            decreases self.columns.len() - i,
        {
            columns.push(self.columns[i].clone());
            i += 1;
        }
        assert(Seq::new(columns@.len(), |i: int| columns@[i]@) =~= self@);
        Schema { columns }
    }
}

/// One typed datum. A double is held as its IEEE 754 binary64 bit pattern, a
/// point as the bit patterns of its latitude and longitude.
#[derive(Debug, PartialEq)]
pub enum Value {
    UnsignedLong(u64),
    Double(u64),
    String(String),
    Boolean(bool),
    Point(u64, u64),
}

/// What a `Value` is, as a mathematical value.
pub enum ValueModel {
    UnsignedLong(u64),
    Double(u64),
    String(Seq<char>),
    Boolean(bool),
    Point(u64, u64),
}

impl View for Value {
    type V = ValueModel;

    open spec fn view(&self) -> ValueModel {
        match *self {
            Value::UnsignedLong(n) => ValueModel::UnsignedLong(n),
            Value::Double(b) => ValueModel::Double(b),
            Value::String(s) => ValueModel::String(s@),
            Value::Boolean(b) => ValueModel::Boolean(b),
            Value::Point(lat, lng) => ValueModel::Point(lat, lng),
        }
    }
}

impl Clone for Value {
    fn clone(&self) -> (v: Value)
        ensures
            v@ == self@,
    {
        match self {
            Value::UnsignedLong(n) => Value::UnsignedLong(*n),
            Value::Double(b) => Value::Double(*b),
            Value::String(s) => Value::String(s.clone()),
            Value::Boolean(b) => Value::Boolean(*b),
            Value::Point(lat, lng) => Value::Point(*lat, *lng),
        }
    }
}

/// The column type that a value belongs to.
pub open spec fn type_of(v: ValueModel) -> DataType {
    match v {
        ValueModel::UnsignedLong(_) => DataType::UnsignedLong,
        ValueModel::Double(_) => DataType::Double,
        ValueModel::String(_) => DataType::String,
        ValueModel::Boolean(_) => DataType::Boolean,
        ValueModel::Point(_, _) => DataType::Point,
    }
}

/// A row matches a schema when it has one value per column, each of the
/// column's declared type.
pub open spec fn conforms(row: Seq<ValueModel>, schema: Seq<FieldModel>) -> bool {
    &&& row.len() == schema.len()
    &&& forall|i: int| 0 <= i < row.len() ==> type_of(#[trigger] row[i]) == schema[i].data_type
}

/// One record: values in the order of the columns of a schema.
#[derive(Debug, PartialEq)]
pub struct Row {
    pub values: Vec<Value>,
}

impl View for Row {
    type V = Seq<ValueModel>;

    open spec fn view(&self) -> Seq<ValueModel> {
        Seq::new(self.values@.len(), |i: int| self.values@[i]@)
    }
}

impl Row {
    pub fn new(values: Vec<Value>) -> (r: Row)
        ensures
            r@ == Seq::new(values@.len(), |i: int| values@[i]@),
            r.values == values,
    {
        Row { values }
    }
}

impl Clone for Row {
    fn clone(&self) -> (r: Row)
        ensures
            r@ == self@,
    {
        let mut values: Vec<Value> = Vec::new();
        let mut i: usize = 0;
        while i < self.values.len()
            invariant
                i <= self.values.len(),
                values@.len() == i,
                forall|j: int| 0 <= j < i ==> values@[j]@ == self.values@[j]@,
            decreases self.values.len() - i,
        {
            values.push(self.values[i].clone());
            i += 1;
        }
        assert(Seq::new(values@.len(), |i: int| values@[i]@) =~= self@);
        Row { values }
    }
}

} // verus!
