use crate::error::DecodeError;
use crate::readers::{le_value, pow256, text_of, without_nulls};
use crate::record::{
    decode_spec, field_value_at, record_end, schema_types, FieldModel, FieldSpec, FieldValueModel,
};
use crate::scanner::{first_match_from, short_at, PING_MAGIC};
use crate::type_code::{type_of_code, FieldType};
use vstd::prelude::*;
use vstd::utf8::{
    decode_utf8, encode_utf8, encode_utf8_decode_utf8, encode_utf8_valid_utf8, is_ascii_chars,
    is_ascii_chars_encode_utf8, valid_utf8,
};

verus! {

/// A little-endian short is its low byte plus 256 times its high byte.
pub proof fn lemma_le_value_short(b: Seq<u8>)
    requires
        b.len() == 2,
    ensures
        le_value(b) == b[0] + 0x100 * b[1],
{
    reveal_with_fuel(le_value, 3);
    assert(b.drop_first().drop_first().len() == 0);
}

/// A little-endian 32-bit number, byte by byte.
pub proof fn lemma_le_value_long(b: Seq<u8>)
    requires
        b.len() == 4,
    ensures
        le_value(b) == b[0] + 0x100 * b[1] + 0x1_0000 * b[2] + 0x100_0000 * b[3],
{
    reveal_with_fuel(le_value, 5);
    assert(b.drop_first().drop_first().drop_first().drop_first().len() == 0);
}

/// The `n` bytes that encode `v` least significant first.
pub open spec fn le_bytes(v: nat, n: nat) -> Seq<u8>
    decreases n,
{
    if n == 0 {
        Seq::empty()
    } else {
        seq![(v % 256) as u8] + le_bytes(v / 256, (n - 1) as nat)
    }
}

/// Reading back `n` bytes written least significant first gives the number
/// that was written, where it fits in `n` bytes.
pub proof fn lemma_le_bytes_round_trip(v: nat, n: nat)
    requires
        v < pow256(n),
    ensures
        le_bytes(v, n).len() == n,
        le_value(le_bytes(v, n)) == v,
    decreases n,
{
    if n > 0 {
        let m = (n - 1) as nat;
        let p = pow256(m);
        assert(v / 256 < p) by (nonlinear_arith)
            requires
                v < 256 * p,
        ;
        lemma_le_bytes_round_trip(v / 256, m);
        assert(le_bytes(v, n).drop_first() =~= le_bytes(v / 256, m));
        assert(v == v % 256 + 256 * (v / 256)) by (nonlinear_arith);
    }
}

/// Every character is ASCII and none is the null character.
pub open spec fn ascii_without_nul(s: Seq<char>) -> bool {
    forall|i: int| 0 <= i < s.len() ==> '\0' < #[trigger] s[i] && s[i] <= '\u{7f}'
}

/// `n` null bytes.
pub open spec fn zeros(n: nat) -> Seq<u8> {
    Seq::new(n, |i: int| 0u8)
}

/// The bytes that a field of type `t` holding `v` occupies: numbers least
/// significant byte first, text as its characters padded with nulls, and
/// padding as nulls. `None` where `v` does not fit `t`, or is text that is not
/// ASCII or holds a null character.
pub open spec fn field_bytes(t: FieldType, v: FieldValueModel) -> Option<Seq<u8>> {
    match (t, v) {
        (FieldType::Byte, FieldValueModel::Byte(b)) => Some(seq![b]),
        (FieldType::Short, FieldValueModel::Short(x)) => Some(le_bytes(x as nat, 2)),
        (FieldType::Long, FieldValueModel::Long(x)) => Some(le_bytes(x as nat, 4)),
        (FieldType::Float, FieldValueModel::Float(x)) => Some(le_bytes(x as nat, 4)),
        (FieldType::Double, FieldValueModel::Double(x)) => Some(le_bytes(x as nat, 8)),
        (FieldType::Text(n), FieldValueModel::Text(s)) => if ascii_without_nul(s) && s.len() <= n {
            Some(encode_utf8(s) + zeros((n - s.len()) as nat))
        } else {
            None
        },
        (FieldType::Padding(n), FieldValueModel::Zero) => Some(zeros(n as nat)),
        _ => None,
    }
}

proof fn lemma_filter_keeps_nonzero(b: Seq<u8>)
    requires
        forall|i: int| 0 <= i < b.len() ==> #[trigger] b[i] != 0,
    ensures
        without_nulls(b) == b,
    decreases b.len(),
{
    reveal(Seq::filter);
    if b.len() > 0 {
        lemma_filter_keeps_nonzero(b.drop_last());
        assert(b.drop_last().push(b.last()) =~= b);
    }
}

proof fn lemma_filter_drops_zeros(b: Seq<u8>)
    requires
        forall|i: int| 0 <= i < b.len() ==> #[trigger] b[i] == 0,
    ensures
        without_nulls(b) == Seq::<u8>::empty(),
    decreases b.len(),
{
    reveal(Seq::filter);
    if b.len() > 0 {
        lemma_filter_drops_zeros(b.drop_last());
    }
}

proof fn lemma_text_round_trip(s: Seq<char>, k: nat)
    requires
        ascii_without_nul(s),
    ensures
        text_of(encode_utf8(s) + zeros(k)) == Some(s),
        (encode_utf8(s) + zeros(k)).len() == s.len() + k,
{
    assert(is_ascii_chars(s));
    is_ascii_chars_encode_utf8(s);
    let e = encode_utf8(s);
    assert forall|i: int| 0 <= i < e.len() implies #[trigger] e[i] != 0 by {
        assert(s[i] as u8 == e[i]);
    }
    lemma_filter_keeps_nonzero(e);
    lemma_filter_drops_zeros(zeros(k));
    Seq::filter_distributes_over_add(e, zeros(k), |b: u8| b != 0);
    assert(without_nulls(e + zeros(k)) =~= e);
    encode_utf8_valid_utf8(s);
    encode_utf8_decode_utf8(s);
}

/// Reading a field back from the bytes that encode a value gives that value.
pub proof fn lemma_field_round_trip(t: FieldType, v: FieldValueModel, data: Seq<u8>, at: int)
    requires
        field_bytes(t, v) is Some,
        0 <= at,
        at + t.spec_size() <= data.len(),
        data.subrange(at, at + t.spec_size()) == field_bytes(t, v)->Some_0,
    ensures
        field_value_at(t, data, at) == Some(v),
{
    let sub = data.subrange(at, at + t.spec_size());
    match (t, v) {
        (FieldType::Byte, FieldValueModel::Byte(b)) => {
            assert(sub[0] == data[at]);
        },
        (FieldType::Short, FieldValueModel::Short(x)) => {
            reveal_with_fuel(pow256, 3);
            lemma_le_bytes_round_trip(x as nat, 2);
        },
        (FieldType::Long, FieldValueModel::Long(x)) => {
            reveal_with_fuel(pow256, 5);
            lemma_le_bytes_round_trip(x as nat, 4);
        },
        (FieldType::Float, FieldValueModel::Float(x)) => {
            reveal_with_fuel(pow256, 5);
            lemma_le_bytes_round_trip(x as nat, 4);
        },
        (FieldType::Double, FieldValueModel::Double(x)) => {
            reveal_with_fuel(pow256, 9);
            lemma_le_bytes_round_trip(x as nat, 8);
        },
        (FieldType::Text(n), FieldValueModel::Text(s)) => {
            lemma_text_round_trip(s, (n - s.len()) as nat);
        },
        _ => {},
    }
}

proof fn lemma_schema_types_shape(schema: Seq<FieldSpec>)
    requires
        schema_types(schema) is Ok,
    ensures
        schema_types(schema)->Ok_0.len() == schema.len(),
        forall|i: int|
            0 <= i < schema.len() ==> type_of_code(#[trigger] schema[i].code@) == Ok::<
                FieldType,
                DecodeError,
            >(schema_types(schema)->Ok_0[i]),
    decreases schema.len(),
{
    if schema.len() > 0 {
        lemma_schema_types_shape(schema.drop_last());
        assert forall|i: int| 0 <= i < schema.len() implies type_of_code(
            #[trigger] schema[i].code@,
        ) == Ok::<FieldType, DecodeError>(schema_types(schema)->Ok_0[i]) by {
            if i < schema.len() - 1 {
                assert(schema.drop_last()[i] == schema[i]);
            }
        }
    }
}

/// Round trip: in a buffer where each field of a well-formed layout holds the
/// bytes that encode a chosen value, decoding the record yields exactly those
/// values under the fields' names, and the record ends after its last field.
pub proof fn lemma_decode_round_trip(
    schema: Seq<FieldSpec>,
    data: Seq<u8>,
    base: int,
    values: Seq<FieldValueModel>,
)
    requires
        schema.len() > 0,
        schema_types(schema) is Ok,
        values.len() == schema.len(),
        0 <= base,
        record_end(schema, schema_types(schema)->Ok_0, base) <= usize::MAX,
        forall|i: int|
            #![trigger schema[i]]
            0 <= i < schema.len() ==> {
                let t = schema_types(schema)->Ok_0[i];
                let at = base + schema[i].offset;
                &&& field_bytes(t, values[i]) is Some
                &&& at + t.spec_size() <= data.len()
                &&& data.subrange(at, at + t.spec_size()) == field_bytes(t, values[i])->Some_0
            },
    ensures
        decode_spec(schema, data, base) == Ok::<(Seq<FieldModel>, int), DecodeError>(
            (
                Seq::new(schema.len(), |i: int| (schema[i].name@, Some(values[i]))),
                record_end(schema, schema_types(schema)->Ok_0, base),
            ),
        ),
{
    let types = schema_types(schema)->Ok_0;
    lemma_schema_types_shape(schema);
    let fields = decode_spec(schema, data, base)->Ok_0.0;
    assert forall|i: int| 0 <= i < schema.len() implies fields[i] == (
        schema[i].name@,
        Some(values[i]),
    ) by {
        let _ = schema[i];
        lemma_field_round_trip(types[i], values[i], data, base + schema[i].offset);
    }
    assert(fields =~= Seq::new(schema.len(), |i: int| (schema[i].name@, Some(values[i]))));
}

/// A decoded record ends at its base plus the offset and the size of its last
/// field.
pub proof fn lemma_next_offset(schema: Seq<FieldSpec>, data: Seq<u8>, base: int)
    requires
        decode_spec(schema, data, base) is Ok,
    ensures
        type_of_code(schema.last().code@) is Ok,
        decode_spec(schema, data, base)->Ok_0.1 == base + schema.last().offset + type_of_code(
            schema.last().code@,
        )->Ok_0.spec_size(),
{
    lemma_schema_types_shape(schema);
}

/// A malformed type code in a layout makes decoding fail, with that error when
/// every code before it is sound.
pub proof fn lemma_malformed_code_fails(schema: Seq<FieldSpec>, data: Seq<u8>, base: int, i: int)
    requires
        0 <= i < schema.len(),
        type_of_code(schema[i].code@) == Err::<FieldType, DecodeError>(
            DecodeError::MalformedTypeCode,
        ),
    ensures
        decode_spec(schema, data, base) is Err,
        (forall|j: int| 0 <= j < i ==> (#[trigger] type_of_code(schema[j].code@)) is Ok)
            ==> decode_spec(schema, data, base) == Err::<(Seq<FieldModel>, int), DecodeError>(
            DecodeError::MalformedTypeCode,
        ),
{
    if schema_types(schema) is Ok {
        lemma_schema_types_shape(schema);
    }
    if forall|j: int| 0 <= j < i ==> (#[trigger] type_of_code(schema[j].code@)) is Ok {
        lemma_first_bad_code(schema, i);
    }
}

proof fn lemma_first_bad_code(schema: Seq<FieldSpec>, i: int)
    requires
        0 <= i < schema.len(),
        type_of_code(schema[i].code@) is Err,
        forall|j: int| 0 <= j < i ==> (#[trigger] type_of_code(schema[j].code@)) is Ok,
    ensures
        schema_types(schema) == Err::<Seq<FieldType>, DecodeError>(
            type_of_code(schema[i].code@)->Err_0,
        ),
    decreases schema.len(),
{
    let prefix = schema.drop_last();
    if i < schema.len() - 1 {
        assert forall|j: int| 0 <= j < i implies (#[trigger] type_of_code(
            prefix[j].code@,
        )) is Ok by {
            assert(prefix[j] == schema[j]);
        }
        assert(prefix[i] == schema[i]);
        lemma_first_bad_code(prefix, i);
    } else {
        lemma_all_codes_sound(prefix);
        assert forall|j: int| 0 <= j < prefix.len() implies (#[trigger] type_of_code(
            prefix[j].code@,
        )) is Ok by {
            assert(prefix[j] == schema[j]);
        }
    }
}

proof fn lemma_all_codes_sound(schema: Seq<FieldSpec>)
    ensures
        (forall|j: int| 0 <= j < schema.len() ==> (#[trigger] type_of_code(schema[j].code@)) is Ok)
            ==> schema_types(schema) is Ok,
    decreases schema.len(),
{
    if schema.len() > 0 {
        let prefix = schema.drop_last();
        lemma_all_codes_sound(prefix);
        if forall|j: int|
            0 <= j < schema.len() ==> (#[trigger] type_of_code(schema[j].code@)) is Ok {
            assert forall|j: int| 0 <= j < prefix.len() implies (#[trigger] type_of_code(
                prefix[j].code@,
            )) is Ok by {
                assert(prefix[j] == schema[j]);
            }
        }
    }
}

/// Text decoding is stable under the null-stripping rule: removing the nulls
/// first changes nothing, and a field of nulls only is the empty text.
pub proof fn lemma_text_nulls(bytes: Seq<u8>)
    ensures
        text_of(without_nulls(bytes)) == text_of(bytes),
        (forall|i: int| 0 <= i < bytes.len() ==> #[trigger] bytes[i] == 0) ==> text_of(bytes)
            == Some(Seq::<char>::empty()),
{
    let kept = without_nulls(bytes);
    bytes.filter_lemma(|b: u8| b != 0);
    lemma_filter_keeps_nonzero(kept);
    if forall|i: int| 0 <= i < bytes.len() ==> #[trigger] bytes[i] == 0 {
        lemma_filter_drops_zeros(bytes);
        assert(valid_utf8(Seq::<u8>::empty()));
        assert(decode_utf8(Seq::<u8>::empty()) =~= Seq::<char>::empty());
    }
}

/// The bytes `0xCE, 0xFA` are the ping magic number read little-endian.
pub proof fn lemma_magic_bytes(data: Seq<u8>, k: int)
    requires
        0 <= k,
        k + 2 <= data.len(),
        data[k] == 0xCE,
        data[k + 1] == 0xFA,
    ensures
        short_at(data, k) == PING_MAGIC,
{
    lemma_le_value_short(data.subrange(k, k + 2));
}

/// The scan from `start` finds `k` when `k` holds the target and no offset
/// between `start` and `k` does.
pub proof fn lemma_scan_finds_first(data: Seq<u8>, start: int, k: int, target: u16)
    requires
        0 <= start <= k,
        k + 2 <= data.len(),
        short_at(data, k) == target,
        forall|j: int| start <= j < k ==> short_at(data, j) != target,
    ensures
        first_match_from(data, start, target) == Some(k),
    decreases k - start,
{
    if start < k {
        lemma_scan_finds_first(data, start + 1, k, target);
    }
}

/// The scan from `start` finds nothing when no offset from `start` on holds
/// the target.
pub proof fn lemma_scan_finds_none(data: Seq<u8>, start: int, target: u16)
    requires
        forall|j: int| start <= j && j + 2 <= data.len() ==> short_at(data, j) != target,
    ensures
        first_match_from(data, start, target) is None,
    decreases data.len() - start,
{
    if 0 <= start && start + 2 <= data.len() {
        lemma_scan_finds_none(data, start + 1, target);
    }
}

/// With the magic bytes at an offset `k`, unaligned or not, and nowhere else,
/// a scan from 0 finds exactly `k`, and a scan from `k + 1` finds nothing.
pub proof fn lemma_scan_magic_at(data: Seq<u8>, k: int)
    requires
        0 <= k,
        k + 2 <= data.len(),
        data[k] == 0xCE,
        data[k + 1] == 0xFA,
        forall|j: int| 0 <= j && j + 2 <= data.len() && j != k ==> short_at(data, j) != PING_MAGIC,
    ensures
        first_match_from(data, 0, PING_MAGIC) == Some(k),
        first_match_from(data, k + 1, PING_MAGIC) is None,
{
    lemma_magic_bytes(data, k);
    lemma_scan_finds_first(data, 0, k, PING_MAGIC);
    lemma_scan_finds_none(data, k + 1, PING_MAGIC);
}

} // verus!
