use crate::error::DecodeError;
use crate::readers::{
    le_value, read_and_decode_byte_as_number_u8, read_and_decode_bytes_as_string, read_double,
    read_float_from_binary_at_offset, read_unsigned_long, read_unsigned_short, text_of,
};
use crate::type_code::{parse_type_code, type_of_code, FieldType};
use vstd::prelude::*;

verus! {

/// One field of a record layout: its name, its type code and its offset from
/// the start of the record.
#[derive(Debug, Clone, Copy)]
pub struct FieldSpec<'a> {
    pub name: &'a str,
    pub code: &'a str,
    pub offset: usize,
}

impl<'a> FieldSpec<'a> {
    pub fn new(name: &'a str, code: &'a str, offset: usize) -> (r: FieldSpec<'a>)
        ensures
            r.name@ == name@,
            r.code@ == code@,
            r.offset == offset,
    {
        FieldSpec { name, code, offset }
    }
}

/// A decoded field value. Floats are kept as their IEEE 754 bit patterns.
#[derive(Debug, PartialEq, Eq)]
pub enum FieldValue {
    Byte(u8),
    Short(u16),
    Long(u32),
    Float(u32),
    Double(u64),
    Text(String),
    /// A reserved region: never read, always zero.
    Zero,
}

/// The mathematical value of a `FieldValue`, with text as its characters.
pub enum FieldValueModel {
    Byte(u8),
    Short(u16),
    Long(u32),
    Float(u32),
    Double(u64),
    Text(Seq<char>),
    Zero,
}

impl View for FieldValue {
    type V = FieldValueModel;

    open spec fn view(&self) -> FieldValueModel {
        match self {
            FieldValue::Byte(v) => FieldValueModel::Byte(*v),
            FieldValue::Short(v) => FieldValueModel::Short(*v),
            FieldValue::Long(v) => FieldValueModel::Long(*v),
            FieldValue::Float(v) => FieldValueModel::Float(*v),
            FieldValue::Double(v) => FieldValueModel::Double(*v),
            FieldValue::Text(s) => FieldValueModel::Text(s@),
            FieldValue::Zero => FieldValueModel::Zero,
        }
    }
}

/// A field value that may be absent: `None` where the field could not be read.
pub open spec fn value_model(v: Option<FieldValue>) -> Option<FieldValueModel> {
    match v {
        Some(x) => Some(x@),
        None => None,
    }
}

/// One named field of a decoded record; `value` is `None` where the field
/// could not be read.
#[derive(Debug)]
pub struct DecodedField {
    pub name: String,
    pub value: Option<FieldValue>,
}

/// A field's name and its value, if it could be read.
pub type FieldModel = (Seq<char>, Option<FieldValueModel>);

impl View for DecodedField {
    type V = FieldModel;

    open spec fn view(&self) -> FieldModel {
        (self.name@, value_model(self.value))
    }
}

/// The fields of one decoded record, in the order of its layout.
#[derive(Debug)]
pub struct DecodedRecord {
    pub fields: Vec<DecodedField>,
}

impl View for DecodedRecord {
    type V = Seq<FieldModel>;

    open spec fn view(&self) -> Seq<FieldModel> {
        self.fields@.map_values(|f: DecodedField| f@)
    }
}

/// The value of a field of type `t` whose first byte is at `at`: `None` where
/// the field runs past the end of `data` or its text is not valid UTF-8.
pub open spec fn field_value_at(t: FieldType, data: Seq<u8>, at: int) -> Option<FieldValueModel> {
    match t {
        FieldType::Padding(_) => Some(FieldValueModel::Zero),
        _ => if at + t.spec_size() > data.len() {
            None
        } else {
            let v = le_value(data.subrange(at, at + t.spec_size()));
            match t {
                FieldType::Byte => Some(FieldValueModel::Byte(data[at])),
                FieldType::Short => Some(FieldValueModel::Short(v as u16)),
                FieldType::Long => Some(FieldValueModel::Long(v as u32)),
                FieldType::Float => Some(FieldValueModel::Float(v as u32)),
                FieldType::Double => Some(FieldValueModel::Double(v as u64)),
                FieldType::Text(n) => match text_of(data.subrange(at, at + n)) {
                    Some(s) => Some(FieldValueModel::Text(s)),
                    None => None,
                },
                FieldType::Padding(_) => Some(FieldValueModel::Zero),
            }
        },
    }
}

/// The types of a layout's fields, or the error of its first bad type code.
pub open spec fn schema_types(schema: Seq<FieldSpec>) -> Result<Seq<FieldType>, DecodeError>
    decreases schema.len(),
{
    if schema.len() == 0 {
        Ok(Seq::empty())
    } else {
        match schema_types(schema.drop_last()) {
            Err(e) => Err(e),
            Ok(ts) => match type_of_code(schema.last().code@) {
                Err(e) => Err(e),
                Ok(t) => Ok(ts.push(t)),
            },
        }
    }
}

/// Where a record ends: its base, plus the offset and the size of its last
/// field (not the largest extent of any field).
pub open spec fn record_end(schema: Seq<FieldSpec>, types: Seq<FieldType>, base: int) -> int {
    base + schema.last().offset + types.last().spec_size()
}

/// The named values of a record whose fields have the types `types`.
pub open spec fn decoded_fields(
    schema: Seq<FieldSpec>,
    types: Seq<FieldType>,
    data: Seq<u8>,
    base: int,
) -> Seq<FieldModel> {
    Seq::new(
        schema.len(),
        |i: int| (schema[i].name@, field_value_at(types[i], data, base + schema[i].offset)),
    )
}

/// The record that `schema` describes at `base` in `data`, with its end offset.
/// A layout without fields or with a bad type code yields an error; so does a
/// record whose end cannot be represented as an offset. A field that cannot be
/// read is absent and does not stop the others.
pub open spec fn decode_spec(schema: Seq<FieldSpec>, data: Seq<u8>, base: int) -> Result<
    (Seq<FieldModel>, int),
    DecodeError,
> {
    if schema.len() == 0 {
        Err(DecodeError::EmptySchema)
    } else {
        match schema_types(schema) {
            Err(e) => Err(e),
            Ok(types) => {
                let end = record_end(schema, types, base);
                if end > usize::MAX {
                    Err(DecodeError::TruncatedRecord)
                } else {
                    Ok((decoded_fields(schema, types, data, base), end))
                }
            },
        }
    }
}

/// The result of `read_headers` as mathematical values.
pub open spec fn decode_result_model(r: Result<(DecodedRecord, usize), DecodeError>) -> Result<
    (Seq<FieldModel>, int),
    DecodeError,
> {
    match r {
        Ok((rec, end)) => Ok((rec@, end as int)),
        Err(e) => Err(e),
    }
}

/// The index of the first field named `name`, if any.
pub open spec fn position_of(fields: Seq<FieldModel>, name: Seq<char>) -> Option<int>
    decreases fields.len(),
{
    if fields.len() == 0 {
        None
    } else if fields[0].0 == name {
        Some(0)
    } else {
        match position_of(fields.drop_first(), name) {
            Some(i) => Some(i + 1),
            None => None,
        }
    }
}

/// The value of the first field named `name`, where that field holds a short.
pub open spec fn short_value_of(fields: Seq<FieldModel>, name: Seq<char>) -> Option<u16> {
    match position_of(fields, name) {
        Some(i) => match fields[i].1 {
            Some(FieldValueModel::Short(v)) => Some(v),
            _ => None,
        },
        None => None,
    }
}

/// `position_of` counted from the start of `fields` when searched from `skip` on.
pub open spec fn shifted(p: Option<int>, skip: int) -> Option<int> {
    match p {
        Some(i) => Some(i + skip),
        None => None,
    }
}

proof fn lemma_position_bound(fields: Seq<FieldModel>, name: Seq<char>)
    ensures
        position_of(fields, name) matches Some(i) ==> 0 <= i < fields.len() && fields[i].0
            == name,
    decreases fields.len(),
{
    if fields.len() > 0 {
        lemma_position_bound(fields.drop_first(), name);
    }
}

/// The indices of the fields that could not be read, in increasing order.
pub open spec fn absent_indices(fields: Seq<FieldModel>) -> Seq<usize>
    decreases fields.len(),
{
    if fields.len() == 0 {
        Seq::empty()
    } else {
        let rest = absent_indices(fields.drop_last());
        if fields.last().1 is None {
            rest.push((fields.len() - 1) as usize)
        } else {
            rest
        }
    }
}

impl DecodedRecord {
    /// The indices of the fields that could not be read, in increasing order.
    pub fn unreadable(&self) -> (r: Vec<usize>)
        ensures
            r@ == absent_indices(self@),
    {
        let n = self.fields.len();
        let mut r: Vec<usize> = Vec::new();
        let mut i: usize = 0;
        while i < n
            invariant
                i <= n,
                n == self.fields@.len(),
                r@ == absent_indices(self@.subrange(0, i as int)),
            decreases n - i,
        {
            proof {
                assert(self@.subrange(0, i + 1).drop_last() =~= self@.subrange(0, i as int));
            }
            if self.fields[i].value.is_none() {
                r.push(i);
            }
            i = i + 1;
        }
        proof {
            assert(self@.subrange(0, n as int) =~= self@);
        }
        r
    }

    /// The index of the first field named `name`, if there is one.
    pub fn find(&self, name: &str) -> (r: Option<usize>)
        ensures
            match r {
                Some(i) => position_of(self@, name@) == Some(i as int),
                None => position_of(self@, name@) is None,
            },
    {
        let key = name.to_owned();
        let n = self.fields.len();
        let mut i: usize = 0;
        proof {
            assert(self@.subrange(0, n as int) =~= self@);
        }
        while i < n
            invariant
                i <= n,
                n == self.fields@.len(),
                key@ == name@,
                position_of(self@, name@) == shifted(
                    position_of(self@.subrange(i as int, n as int), name@),
                    i as int,
                ),
            decreases n - i,
        {
            proof {
                let rest = self@.subrange(i as int, n as int);
                assert(rest.drop_first() =~= self@.subrange(i + 1, n as int));
                assert(rest[0] == self.fields@[i as int]@);
            }
            if self.fields[i].name == key {
                return Some(i);
            }
            i = i + 1;
        }
        None
    }

    /// The value of the first field named `name`, where it holds a short.
    pub fn short_value(&self, name: &str) -> (r: Option<u16>)
        ensures
            r == short_value_of(self@, name@),
    {
        match self.find(name) {
            Some(i) => {
                proof {
                    lemma_position_bound(self@, name@);
                }
                match &self.fields[i].value {
                    Some(FieldValue::Short(v)) => Some(*v),
                    _ => None,
                }
            },
            None => None,
        }
    }
}

/// Reads one field of type `t` at `base + offset`.
fn read_field(t: FieldType, data: &[u8], base: usize, offset: usize) -> (r: Option<FieldValue>)
    ensures
        value_model(r) == field_value_at(t, data@, base + offset),
{
    if let FieldType::Padding(_) = t {
        return Some(FieldValue::Zero);
    }
    let len = data.len();
    let at = match base.checked_add(offset) {
        Some(a) => a,
        None => {
            assert(len < base + offset);
            return None;
        },
    };
    match t {
        FieldType::Byte => match read_and_decode_byte_as_number_u8(data, at) {
            Ok(v) => Some(FieldValue::Byte(v)),
            Err(_) => None,
        },
        FieldType::Short => match read_unsigned_short(data, at) {
            Ok(v) => Some(FieldValue::Short(v)),
            Err(_) => None,
        },
        FieldType::Long => match read_unsigned_long(data, at) {
            Ok(v) => Some(FieldValue::Long(v)),
            Err(_) => None,
        },
        FieldType::Float => match read_float_from_binary_at_offset(data, at) {
            Ok(v) => Some(FieldValue::Float(v)),
            Err(_) => None,
        },
        FieldType::Double => match read_double(data, at) {
            Ok(v) => Some(FieldValue::Double(v)),
            Err(_) => None,
        },
        FieldType::Text(n) => match read_and_decode_bytes_as_string(data, at, n) {
            Ok(s) => Some(FieldValue::Text(s)),
            Err(_) => None,
        },
        FieldType::Padding(_) => Some(FieldValue::Zero),
    }
}

/// Decodes the record that `schema` lays out at `base_offset` in `data`, and
/// returns it with the offset where the next record starts.
pub fn read_headers(schema: &[FieldSpec], data: &[u8], base_offset: usize) -> (r: Result<
    (DecodedRecord, usize),
    DecodeError,
>)
    ensures
        decode_result_model(r) == decode_spec(schema@, data@, base_offset as int),
{
    if schema.len() == 0 {
        return Err(DecodeError::EmptySchema);
    }
    let mut types: Vec<FieldType> = Vec::new();
    let mut i: usize = 0;
    while i < schema.len()
        invariant
            i <= schema@.len(),
            schema_types(schema@.subrange(0, i as int)) == Ok::<Seq<FieldType>, DecodeError>(
                types@,
            ),
        decreases schema@.len() - i,
    {
        proof {
            assert(schema@.subrange(0, i + 1).drop_last() =~= schema@.subrange(0, i as int));
        }
        match parse_type_code(schema[i].code) {
            Ok(t) => types.push(t),
            Err(e) => {
                proof {
                    lemma_schema_types_error(schema@, i + 1);
                }
                return Err(e);
            },
        }
        i = i + 1;
    }
    proof {
        assert(schema@.subrange(0, i as int) =~= schema@);
        lemma_schema_types_len(schema@);
    }
    let last = schema.len() - 1;
    let end = match base_offset.checked_add(schema[last].offset) {
        Some(a) => a.checked_add(types[last].size()),
        None => None,
    };
    let end = match end {
        Some(e) => e,
        None => {
            return Err(DecodeError::TruncatedRecord);
        },
    };
    let mut fields: Vec<DecodedField> = Vec::new();
    let mut j: usize = 0;
    while j < schema.len()
        invariant
            j <= schema@.len(),
            types@.len() == schema@.len(),
            fields@.len() == j,
            forall|k: int|
                0 <= k < j ==> (#[trigger] fields@[k])@ == decoded_fields(
                    schema@,
                    types@,
                    data@,
                    base_offset as int,
                )[k],
        decreases schema@.len() - j,
    {
        let value = read_field(types[j], data, base_offset, schema[j].offset);
        fields.push(DecodedField { name: schema[j].name.to_owned(), value });
        j = j + 1;
    }
    let record = DecodedRecord { fields };
    proof {
        assert(record@ =~= decoded_fields(schema@, types@, data@, base_offset as int));
    }
    Ok((record, end))
}

proof fn lemma_schema_types_len(schema: Seq<FieldSpec>)
    ensures
        schema_types(schema) matches Ok(ts) ==> ts.len() == schema.len(),
    decreases schema.len(),
{
    if schema.len() > 0 {
        lemma_schema_types_len(schema.drop_last());
    }
}

/// Once a prefix of a layout holds a bad type code, the whole layout does.
proof fn lemma_schema_types_error(schema: Seq<FieldSpec>, n: int)
    requires
        0 < n <= schema.len(),
        schema_types(schema.subrange(0, n)) is Err,
    ensures
        schema_types(schema) == schema_types(schema.subrange(0, n)),
    decreases schema.len(),
{
    if n < schema.len() {
        assert(schema.drop_last().subrange(0, n) =~= schema.subrange(0, n));
        lemma_schema_types_error(schema.drop_last(), n);
    } else {
        assert(schema.subrange(0, n) =~= schema);
    }
}

} // verus!
