//! Logical record v1 and the meter error type shared by all fee meters.
//!
//! A logical record is the ASCII text `DYTALLIX/ORDINARY-LOGICAL`, a zero byte,
//! the big-endian version 1, the big-endian key length and key, the big-endian
//! field count, then fields with strictly increasing big-endian ids. Field type
//! tags: 1=u64be, 2=u128be, 3=u32be-length blob, 4=u32be-length UTF-8,
//! 5=32-byte digest, 6=u8. Counters use eight bytes and balances sixteen,
//! independent of magnitude.
use vstd::prelude::*;
use vstd::utf8::encode_utf8;
use crate::bytes::{be_bytes, lemma_be_len, push_all, push_be};

verus! {

#[derive(Clone, Debug, PartialEq, Eq)]
pub enum MeterError {
    PreAcceptanceRejected(&'static str),
    AcceptedOutOfGas,
    BlockCapacity,
    Internal(&'static str),
}

#[derive(Clone, Debug, PartialEq, Eq)]
pub enum LogicalValue {
    U64(u64),
    U128(u128),
    Bytes(Vec<u8>),
    Utf8(String),
    Digest([u8; 32]),
    U8(u8),
}

#[derive(Clone, Debug, PartialEq, Eq)]
pub struct LogicalField {
    pub id: u16,
    pub value: LogicalValue,
}

/// A bounded canonical encoding of one typed state record.
#[derive(Clone, Debug, PartialEq, Eq)]
pub struct LogicalRecord {
    key: Vec<u8>,
    bytes: Vec<u8>,
}

/// Why a record cannot be encoded, in the order the checks apply.
pub enum RecordFailure {
    Shape,
    NotOrdered,
    BlobOverflow,
    TooLarge,
}

/// `DYTALLIX/ORDINARY-LOGICAL` followed by a zero byte.
pub open spec fn record_magic() -> Seq<u8> {
    seq![
        68u8, 89, 84, 65, 76, 76, 73, 88, 47, 79, 82, 68, 73, 78, 65, 82, 89, 45, 76, 79, 71,
        73, 67, 65, 76, 0,
    ]
}

pub open spec fn record_header(key: Seq<u8>, field_count: nat) -> Seq<u8> {
    record_magic() + be_bytes(1, 2) + be_bytes(key.len(), 2) + key + be_bytes(field_count, 2)
}

/// The variable-length payload of a blob-typed value.
pub open spec fn blob_payload(v: LogicalValue) -> Option<Seq<u8>> {
    match v {
        LogicalValue::Bytes(b) => Some(b@),
        LogicalValue::Utf8(s) => Some(encode_utf8(s@)),
        _ => None,
    }
}

pub open spec fn value_bytes(v: LogicalValue) -> Seq<u8> {
    match v {
        LogicalValue::U64(x) => seq![1u8] + be_bytes(x as nat, 8),
        LogicalValue::U128(x) => seq![2u8] + be_bytes(x as nat, 16),
        LogicalValue::Bytes(b) => seq![3u8] + be_bytes(b@.len(), 4) + b@,
        LogicalValue::Utf8(s) => seq![4u8] + be_bytes(encode_utf8(s@).len(), 4) + encode_utf8(s@),
        LogicalValue::Digest(d) => seq![5u8] + d@,
        LogicalValue::U8(x) => seq![6u8, x],
    }
}

pub open spec fn field_bytes(f: LogicalField) -> Seq<u8> {
    be_bytes(f.id as nat, 2) + value_bytes(f.value)
}

pub open spec fn fields_bytes(fields: Seq<LogicalField>) -> Seq<u8>
    decreases fields.len(),
{
    if fields.len() == 0 {
        Seq::empty()
    } else {
        field_bytes(fields[0]) + fields_bytes(fields.drop_first())
    }
}

/// The canonical bytes of a record with the given key and fields.
pub open spec fn record_bytes(key: Seq<u8>, fields: Seq<LogicalField>) -> Seq<u8> {
    record_header(key, fields.len()) + fields_bytes(fields)
}

/// The first failing check when encoding `fields` after `len` bytes of output.
pub open spec fn fields_failure(
    len: int,
    prev: Option<u16>,
    fields: Seq<LogicalField>,
    max: int,
) -> Option<RecordFailure>
    decreases fields.len(),
{
    if fields.len() == 0 {
        if len > max {
            Some(RecordFailure::TooLarge)
        } else {
            None
        }
    } else {
        let f = fields[0];
        if prev matches Some(p) && f.id <= p {
            Some(RecordFailure::NotOrdered)
        } else if blob_payload(f.value) matches Some(b) && b.len() > u32::MAX {
            Some(RecordFailure::BlobOverflow)
        } else if len + field_bytes(f).len() > max {
            Some(RecordFailure::TooLarge)
        } else {
            fields_failure(len + field_bytes(f).len(), Some(f.id), fields.drop_first(), max)
        }
    }
}

/// The first failing check for a whole record, or `None` when it encodes.
pub open spec fn record_failure(key: Seq<u8>, fields: Seq<LogicalField>, max: int) -> Option<
    RecordFailure,
> {
    if key.len() == 0 || key.len() > u16::MAX || fields.len() > u16::MAX {
        Some(RecordFailure::Shape)
    } else {
        fields_failure(record_header(key, fields.len()).len() as int, None, fields, max)
    }
}

pub open spec fn failure_message(f: RecordFailure) -> &'static str {
    match f {
        RecordFailure::Shape => "logical record shape outside bounds",
        RecordFailure::NotOrdered => "logical fields not strictly ordered",
        RecordFailure::BlobOverflow => "logical blob length overflow",
        RecordFailure::TooLarge => "logical record exceeds bound",
    }
}

pub proof fn lemma_fields_bytes_push(s: Seq<LogicalField>, f: LogicalField)
    ensures
        fields_bytes(s.push(f)) == fields_bytes(s) + field_bytes(f),
    decreases s.len(),
{
    if s.len() == 0 {
        assert(s.push(f).drop_first() =~= Seq::<LogicalField>::empty());
        assert(s.push(f)[0] == f);
        assert(fields_bytes(s.push(f).drop_first()) == Seq::<u8>::empty());
        assert(fields_bytes(s) == Seq::<u8>::empty());
        assert(fields_bytes(s.push(f)) =~= fields_bytes(s) + field_bytes(f));
    } else {
        assert(s.push(f).drop_first() =~= s.drop_first().push(f));
        assert(s.push(f)[0] == s[0]);
        lemma_fields_bytes_push(s.drop_first(), f);
        assert(fields_bytes(s.push(f)) == field_bytes(s[0]) + fields_bytes(s.drop_first().push(f)));
        assert(fields_bytes(s) == field_bytes(s[0]) + fields_bytes(s.drop_first()));
        assert(fields_bytes(s.push(f)) =~= fields_bytes(s) + field_bytes(f));
    }
}

pub proof fn lemma_value_len(v: LogicalValue)
    ensures
        value_bytes(v).len() == match v {
            LogicalValue::U64(_) => 9int,
            LogicalValue::U128(_) => 17int,
            LogicalValue::Bytes(b) => 5 + b@.len() as int,
            LogicalValue::Utf8(s) => 5 + encode_utf8(s@).len() as int,
            LogicalValue::Digest(_) => 33int,
            LogicalValue::U8(_) => 2int,
        },
{
    lemma_be_len(0, 4);
    match v {
        LogicalValue::U64(x) => lemma_be_len(x as nat, 8),
        LogicalValue::U128(x) => lemma_be_len(x as nat, 16),
        LogicalValue::Bytes(b) => lemma_be_len(b@.len(), 4),
        LogicalValue::Utf8(s) => lemma_be_len(encode_utf8(s@).len(), 4),
        _ => {},
    }
}

impl LogicalRecord {
    pub closed spec fn key_view(&self) -> Seq<u8> {
        self.key@
    }

    pub closed spec fn bytes_view(&self) -> Seq<u8> {
        self.bytes@
    }

    /// Encode one record; every bound is checked before the record exists.
    pub fn new(key: &[u8], fields: &[LogicalField], max_bytes: u32) -> (r: Result<Self, MeterError>)
        ensures
            match r {
                Ok(rec) => {
                    &&& record_failure(key@, fields@, max_bytes as int) is None
                    &&& rec.key_view() == key@
                    &&& rec.bytes_view() == record_bytes(key@, fields@)
                    &&& rec.bytes_view().len() <= max_bytes
                },
                Err(e) => record_failure(key@, fields@, max_bytes as int) matches Some(f)
                    && e == MeterError::Internal(failure_message(f)),
            },
    {
        if key.len() == 0 || key.len() > 65535 || fields.len() > 65535 {
            return Err(MeterError::Internal("logical record shape outside bounds"));
        }
        let mut bytes: Vec<u8> = vec![
            68u8, 89, 84, 65, 76, 76, 73, 88, 47, 79, 82, 68, 73, 78, 65, 82, 89, 45, 76, 79, 71,
            73, 67, 65, 76, 0,
        ];
        assert(bytes@ =~= record_magic());
        push_be(&mut bytes, 1, 2);
        push_be(&mut bytes, key.len() as u128, 2);
        push_all(&mut bytes, key);
        push_be(&mut bytes, fields.len() as u128, 2);
        assert(bytes@ =~= record_header(key@, fields@.len()));
        let ghost header = bytes@;
        let mut previous: Option<u16> = None;
        let mut i: usize = 0;
        assert(fields@.skip(0) =~= fields@);
        assert(fields@.take(0) =~= Seq::<LogicalField>::empty());
        while i < fields.len()
            invariant
                i <= fields@.len(),
                key.len() > 0 && key.len() <= 65535 && fields.len() <= 65535,
                header == record_header(key@, fields@.len()),
                bytes@ == header + fields_bytes(fields@.take(i as int)),
                i > 0 ==> bytes@.len() <= max_bytes,
                i > 0 ==> previous == Some(fields@[i - 1].id),
                i == 0 ==> previous is None,
                record_failure(key@, fields@, max_bytes as int) == fields_failure(
                    bytes@.len() as int,
                    previous,
                    fields@.skip(i as int),
                    max_bytes as int,
                ),
            decreases fields@.len() - i,
        {
            let field = &fields[i];
            let ghost before = bytes@;
            assert(fields@.skip(i as int)[0] == fields@[i as int]);
            assert(fields@.skip(i as int).drop_first() =~= fields@.skip(i + 1));
            proof {
                lemma_value_len(field.value);
                lemma_be_len(field.id as nat, 2);
            }
            match previous {
                Some(id) => {
                    if field.id <= id {
                        return Err(MeterError::Internal("logical fields not strictly ordered"));
                    }
                },
                None => {},
            }
            previous = Some(field.id);
            push_be(&mut bytes, field.id as u128, 2);
            match &field.value {
                LogicalValue::U64(v) => {
                    bytes.push(1);
                    push_be(&mut bytes, *v as u128, 8);
                },
                LogicalValue::U128(v) => {
                    bytes.push(2);
                    push_be(&mut bytes, *v, 16);
                },
                LogicalValue::Bytes(v) => {
                    bytes.push(3);
                    let res = append_blob(&mut bytes, v.as_slice(), max_bytes);
                    if res.is_err() {
                        return res.map(|_u| LogicalRecord { key: Vec::new(), bytes: Vec::new() });
                    }
                },
                LogicalValue::Utf8(v) => {
                    bytes.push(4);
                    let res = append_blob(&mut bytes, v.as_str().as_bytes(), max_bytes);
                    if res.is_err() {
                        return res.map(|_u| LogicalRecord { key: Vec::new(), bytes: Vec::new() });
                    }
                },
                LogicalValue::Digest(v) => {
                    bytes.push(5);
                    push_all(&mut bytes, v);
                },
                LogicalValue::U8(v) => {
                    bytes.push(6);
                    bytes.push(*v);
                },
            }
            assert(bytes@ =~= before + field_bytes(fields@[i as int]));
            if bytes.len() as u128 > max_bytes as u128 {
                return Err(MeterError::Internal("logical record exceeds bound"));
            }
            proof {
                lemma_fields_bytes_push(fields@.take(i as int), fields@[i as int]);
                assert(fields@.take(i as int).push(fields@[i as int]) =~= fields@.take(i + 1));
            }
            i = i + 1;
        }
        assert(fields@.take(fields@.len() as int) =~= fields@);
        assert(fields@.skip(i as int) =~= Seq::<LogicalField>::empty());
        if bytes.len() as u128 > max_bytes as u128 {
            return Err(MeterError::Internal("logical record exceeds bound"));
        }
        let mut key_bytes: Vec<u8> = Vec::new();
        push_all(&mut key_bytes, key);
        assert(key_bytes@ =~= key@);
        Ok(LogicalRecord { key: key_bytes, bytes })
    }

    pub fn canonical_bytes(&self) -> (r: &[u8])
        ensures
            r@ == self.bytes_view(),
    {
        self.bytes.as_slice()
    }

    pub fn key(&self) -> (r: &[u8])
        ensures
            r@ == self.key_view(),
    {
        self.key.as_slice()
    }

    pub fn byte_len(&self) -> (r: u64)
        ensures
            r == self.bytes_view().len(),
    {
        self.bytes.len() as u64
    }
}

/// Appends a u32 big-endian length prefix and the blob, unless the result
/// would exceed `max` bytes or the blob length does not fit in 32 bits.
fn append_blob(out: &mut Vec<u8>, value: &[u8], max: u32) -> (r: Result<(), MeterError>)
    ensures
        value@.len() > u32::MAX ==> r == Err::<(), MeterError>(
            MeterError::Internal("logical blob length overflow"),
        ),
        value@.len() <= u32::MAX && old(out)@.len() + 4 + value@.len() > max ==> r == Err::<
            (),
            MeterError,
        >(MeterError::Internal("logical record exceeds bound")),
        value@.len() <= u32::MAX && old(out)@.len() + 4 + value@.len() <= max ==> r is Ok,
        r is Ok ==> final(out)@ == old(out)@ + be_bytes(value@.len(), 4) + value@,
{
    if value.len() as u128 > 4294967295u128 {
        return Err(MeterError::Internal("logical blob length overflow"));
    }
    if out.len() as u128 + 4 + value.len() as u128 > max as u128 {
        return Err(MeterError::Internal("logical record exceeds bound"));
    }
    push_be(out, value.len() as u128, 4);
    push_all(out, value);
    assert(out@ =~= old(out)@ + be_bytes(value@.len(), 4) + value@);
    Ok(())
}

} // verus!
