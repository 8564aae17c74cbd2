use vstd::prelude::*;
use crate::error::ExecutionError;
use crate::schema::{conforms, DataType, FieldModel, Row, Schema, Value, ValueModel};
use crate::text::{decimal_u64, parse_u64};

verus! {

/// The error of the `csv` crate; nothing is read from it.
#[verifier::external_type_specification]
#[verifier::external_body]
pub struct ExCsvError(csv::Error);

/// The records that the `csv` crate reads from a header-less source, in
/// source order: the fields of each record, or `None` for a record that it
/// reports as malformed.
pub uninterp spec fn csv_records(data: Seq<u8>) -> Seq<Option<Seq<Seq<char>>>>;

/// The fields of a record, each as a text.
pub open spec fn record_model(fields: Seq<String>) -> Seq<Seq<char>> {
    Seq::new(fields.len(), |i: int| fields[i]@)
}

/// What was read, record by record, without the details of a failure.
pub open spec fn read_model(records: Seq<Result<Vec<String>, csv::Error>>) -> Seq<
    Option<Seq<Seq<char>>>,
> {
    Seq::new(
        records.len(),
        |i: int|
            match records[i] {
                Ok(fields) => Some(record_model(fields@)),
                Err(_) => None,
            },
    )
}

/// `csv::ReaderBuilder::from_reader` without headers, then
/// `csv::Reader::into_records`: every record of `data`, in order, with the
/// reader's error in the place of a record that it could not read. What is
/// read depends on `data` alone.
#[verifier::external_body]
fn read_csv(data: &[u8]) -> (records: Vec<Result<Vec<String>, csv::Error>>)
    ensures
        read_model(records@) == csv_records(data@),
{
    let reader = csv::ReaderBuilder::new().has_headers(false).from_reader(data);
    let mut records = Vec::new();
    for item in reader.into_records() {
        records.push(item.map(|record| record.iter().map(String::from).collect()));
    }
    records
}

/// A source as the operators see it: one entry per record, the fields of the
/// record or the failure that takes its place.
pub type RecordModel = Result<Seq<Seq<char>>, ExecutionError>;

/// The records of a source: a malformed record becomes a failure that names
/// its position.
pub open spec fn records_of(data: Seq<u8>) -> Seq<RecordModel> {
    Seq::new(
        csv_records(data).len(),
        |i: int|
            match csv_records(data)[i] {
                Some(fields) => Ok(fields),
                None => Err(ExecutionError::CsvError(i as usize)),
            },
    )
}

/// Records as mathematical values.
pub open spec fn records_model(records: Seq<Result<Vec<String>, ExecutionError>>) -> Seq<
    RecordModel,
> {
    Seq::new(
        records.len(),
        |i: int|
            match records[i] {
                Ok(fields) => Ok(record_model(fields@)),
                Err(e) => Err(e),
            },
    )
}

/// Reads the records of a comma-delimited, header-less source.
pub fn read_records(data: &[u8]) -> (records: Vec<Result<Vec<String>, ExecutionError>>)
    ensures
        records_model(records@) == records_of(data@),
{
    let mut raw: Vec<Result<Vec<String>, csv::Error>> = read_csv(data);
    let ghost read = read_model(raw@);
    let mut rest: usize = raw.len();
    let ghost total = raw@.len();
    // The records are taken from the back, so they are collected in reverse.
    let mut reversed: Vec<Result<Vec<String>, ExecutionError>> = Vec::new();
    while rest > 0
        invariant
            rest == raw@.len(),
            rest <= total,
            read.len() == total,
            read == csv_records(data@),
            forall|i: int| 0 <= i < rest ==> #[trigger] read_model(raw@)[i] == read[i],
            reversed@.len() == total - rest,
            forall|j: int|
                0 <= j < reversed@.len() ==> #[trigger] records_model(reversed@)[j] == records_of(
                    data@,
                )[total - 1 - j],
        decreases rest,
    {
        let ghost before = raw@;
        let ghost collected = reversed@;
        let item = raw.pop();
        rest -= 1;
        assert(forall|i: int| 0 <= i < rest ==> raw@[i] == before[i]);
        assert(read_model(before)[rest as int] == read[rest as int]);
        match item {
            Some(Ok(fields)) => {
                reversed.push(Ok(fields));
            },
            Some(Err(_)) => {
                reversed.push(Err(ExecutionError::CsvError(rest)));
            },
            None => {},
        }
        assert forall|i: int| 0 <= i < rest implies #[trigger] read_model(raw@)[i] == read[i] by {
            assert(read_model(before)[i] == read[i]);
        }
        assert forall|j: int| 0 <= j < reversed@.len() implies #[trigger] records_model(
            reversed@,
        )[j] == records_of(data@)[total - 1 - j] by {
            if j < collected.len() {
                assert(records_model(collected)[j] == records_of(data@)[total - 1 - j]);
            }
        }
    }
    let mut records: Vec<Result<Vec<String>, ExecutionError>> = Vec::new();
    while reversed.len() > 0
        invariant
            reversed@.len() + records@.len() == total,
            total == records_of(data@).len(),
            forall|j: int|
                0 <= j < reversed@.len() ==> #[trigger] records_model(reversed@)[j] == records_of(
                    data@,
                )[total - 1 - j],
            forall|i: int|
                0 <= i < records@.len() ==> #[trigger] records_model(records@)[i] == records_of(
                    data@,
                )[i],
        decreases reversed@.len(),
    {
        let ghost before = reversed@;
        let ghost done = records@;
        let item = reversed.pop();
        assert(records_model(before)[before.len() - 1] == records_of(data@)[total - before.len()]);
        match item {
            Some(r) => {
                records.push(r);
            },
            None => {},
        }
        assert forall|j: int| 0 <= j < reversed@.len() implies #[trigger] records_model(
            reversed@,
        )[j] == records_of(data@)[total - 1 - j] by {
            assert(records_model(before)[j] == records_of(data@)[total - 1 - j]);
        }
        assert forall|i: int| 0 <= i < records@.len() implies #[trigger] records_model(records@)[i]
            == records_of(data@)[i] by {
            if i < done.len() {
                assert(records_model(done)[i] == records_of(data@)[i]);
            }
        }
    }
    assert(records_model(records@) =~= records_of(data@));
    records
}

/// The value that a field of a record stands for in a column of the given
/// type. An unsigned integer is parsed from the text and a string is the text
/// itself. A double is the bit pattern that the caller decoded from the text,
/// if the text is a number. No other type can be read from a source.
pub open spec fn field_model(data_type: DataType, text: Seq<char>, double: Option<u64>, column: int)
    -> Result<ValueModel, ExecutionError> {
    match data_type {
        DataType::UnsignedLong => match decimal_u64(text) {
            Some(n) => Ok(ValueModel::UnsignedLong(n)),
            None => Err(ExecutionError::FieldParse(column as usize)),
        },
        DataType::String => Ok(ValueModel::String(text)),
        DataType::Double => match double {
            Some(bits) => Ok(ValueModel::Double(bits)),
            None => Err(ExecutionError::FieldParse(column as usize)),
        },
        _ => Err(ExecutionError::UnsupportedType(column as usize)),
    }
}

/// The decoded double of a field, where the caller supplied one.
pub open spec fn double_at(doubles: Seq<Option<u64>>, i: int) -> Option<u64> {
    if 0 <= i < doubles.len() {
        doubles[i]
    } else {
        None
    }
}

/// The values of the first `n` fields of a record; the first field that
/// cannot be read ends the row.
pub open spec fn tuple_prefix(
    schema: Seq<FieldModel>,
    record: Seq<Seq<char>>,
    doubles: Seq<Option<u64>>,
    n: nat,
) -> Result<Seq<ValueModel>, ExecutionError>
    decreases n,
{
    if n == 0 {
        Ok(Seq::empty())
    } else {
        match tuple_prefix(schema, record, doubles, (n - 1) as nat) {
            Err(e) => Err(e),
            Ok(values) => match field_model(
                schema[n - 1].data_type,
                record[n - 1],
                double_at(doubles, n - 1),
                n - 1,
            ) {
                Err(e) => Err(e),
                Ok(v) => Ok(values.push(v)),
            },
        }
    }
}

/// The row that a record stands for under a schema.
pub open spec fn tuple_model(
    schema: Seq<FieldModel>,
    record: Seq<Seq<char>>,
    doubles: Seq<Option<u64>>,
) -> Result<Seq<ValueModel>, ExecutionError> {
    if schema.len() != record.len() {
        Err(ExecutionError::ArityMismatch)
    } else {
        tuple_prefix(schema, record, doubles, schema.len())
    }
}

/// A row, or the failure in its place, as a mathematical value.
pub type RowModel = Result<Seq<ValueModel>, ExecutionError>;

pub open spec fn row_result_model(r: Result<Row, ExecutionError>) -> RowModel {
    match r {
        Ok(row) => Ok(row@),
        Err(e) => Err(e),
    }
}

/// Every row that is read from a record matches the schema it was read under.
pub proof fn tuple_conforms(
    schema: Seq<FieldModel>,
    record: Seq<Seq<char>>,
    doubles: Seq<Option<u64>>,
    n: nat,
)
    requires
        n <= schema.len(),
    ensures
        match tuple_prefix(schema, record, doubles, n) {
            Ok(values) => conforms(values, schema.take(n as int)),
            Err(_) => true,
        },
    decreases n,
{
    if n > 0 {
        tuple_conforms(schema, record, doubles, (n - 1) as nat);
    }
}

/// Converts a record into a row under a schema. `doubles` holds, for each
/// field whose text is a number, the bit pattern of that number.
pub fn create_tuple(schema: &Schema, r: &Vec<String>, doubles: &Vec<Option<u64>>) -> (result:
    Result<Row, ExecutionError>)
    ensures
        row_result_model(result) == tuple_model(schema@, record_model(r@), doubles@),
        result matches Ok(row) ==> conforms(row@, schema@),
{
    if schema.columns.len() != r.len() {
        return Err(ExecutionError::ArityMismatch);
    }
    let mut values: Vec<Value> = Vec::new();
    let mut i: usize = 0;
    let ghost record = record_model(r@);
    assert(Seq::new(values@.len(), |k: int| values@[k]@) =~= Seq::<ValueModel>::empty());
    while i < r.len()
        invariant
            i <= r@.len(),
            r@.len() == schema@.len(),
            schema.columns@.len() == schema@.len(),
            record == record_model(r@),
            tuple_prefix(schema@, record, doubles@, i as nat) == Ok::<
                Seq<ValueModel>,
                ExecutionError,
            >(Seq::new(values@.len(), |k: int| values@[k]@)),
        decreases r@.len() - i,
    {
        let ghost before = Seq::new(values@.len(), |k: int| values@[k]@);
        let double: Option<u64> = if i < doubles.len() {
            doubles[i]
        } else {
            None
        };
        let item: Result<Value, ExecutionError> = match schema.columns[i].data_type {
            DataType::UnsignedLong => match parse_u64(r[i].as_str()) {
                Some(n) => Ok(Value::UnsignedLong(n)),
                None => Err(ExecutionError::FieldParse(i)),
            },
            DataType::String => Ok(Value::String(r[i].clone())),
            DataType::Double => match double {
                Some(bits) => Ok(Value::Double(bits)),
                None => Err(ExecutionError::FieldParse(i)),
            },
            _ => Err(ExecutionError::UnsupportedType(i)),
        };
        match item {
            Ok(v) => {
                values.push(v);
                assert(Seq::new(values@.len(), |k: int| values@[k]@) =~= before.push(v@));
            },
            Err(e) => {
                proof {
                    tuple_prefix_fails(schema@, record, doubles@, i as nat + 1, schema@.len());
                }
                return Err(e);
            },
        }
        i += 1;
    }
    proof {
        tuple_conforms(schema@, record, doubles@, schema@.len());
        assert(schema@.take(schema@.len() as int) =~= schema@);
    }
    Ok(Row::new(values))
}

/// Once a field of a record has failed, the fields after it change nothing.
pub proof fn tuple_prefix_fails(
    schema: Seq<FieldModel>,
    record: Seq<Seq<char>>,
    doubles: Seq<Option<u64>>,
    n: nat,
    m: nat,
)
    requires
        n <= m,
        tuple_prefix(schema, record, doubles, n) is Err,
    ensures
        tuple_prefix(schema, record, doubles, m) == tuple_prefix(schema, record, doubles, n),
    decreases m,
{
    if n < m {
        tuple_prefix_fails(schema, record, doubles, n, (m - 1) as nat);
    }
}

} // verus!
