//! Values, schemas and errors that every part of the runtime shares.

use crate::text::same;
use vstd::prelude::*;

verus! {

/// What kind of failure an error reports.
#[derive(Clone, Copy, Debug, PartialEq, Eq, Structural)]
pub enum ErrorCode {
    BoundExceeded,
    Cancelled,
    CodecViolation,
    FeatureUnavailable,
    IntegerOverflow,
    Internal,
    InvalidArgument,
    InvalidSchema,
    JobFailed,
    MaxRecordSize,
    PolicyDenied,
    ResourceExhausted,
    SecretMissing,
    TypeMismatch,
    UnsupportedDelivery,
    UnsupportedRestore,
}

/// What an error says: its code, its message and an optional named detail.
pub ghost struct Fault {
    pub code: ErrorCode,
    pub text: Seq<char>,
    pub context: Option<(Seq<char>, Seq<char>)>,
}

/// A fault without a named detail.
pub open spec fn fault(code: ErrorCode, text: Seq<char>) -> Fault {
    Fault { code, text, context: None }
}

/// An error of the runtime.
#[derive(Debug)]
pub struct SparrowError {
    pub code: ErrorCode,
    pub message: String,
    pub context: Option<(String, String)>,
}

impl View for SparrowError {
    type V = Fault;

    open spec fn view(&self) -> Fault {
        Fault {
            code: self.code,
            text: self.message@,
            context: match self.context {
                Some(p) => Some((p.0@, p.1@)),
                None => None,
            },
        }
    }
}

impl SparrowError {
    /// An error with a code and a message.
    pub fn new(code: ErrorCode, message: String) -> (r: Self)
        ensures
            r@ == fault(code, message@),
    {
        SparrowError { code, message, context: None }
    }
}

impl Clone for SparrowError {
    fn clone(&self) -> (r: Self)
        ensures
            r == *self,
    {
        SparrowError {
            code: self.code,
            message: self.message.clone(),
            context: match &self.context {
                Some(p) => Some((p.0.clone(), p.1.clone())),
                None => None,
            },
        }
    }
}

/// An error with a fixed message.
pub fn err(code: ErrorCode, message: &str) -> (r: SparrowError)
    ensures
        r@ == fault(code, message@),
{
    SparrowError::new(code, message.to_owned())
}

/// A result with the error taken by what it says.
pub open spec fn outcome<T>(r: Result<T, SparrowError>) -> Result<T, Fault> {
    match r {
        Ok(v) => Ok(v),
        Err(e) => Err(e@),
    }
}

/// Bytes of queued rows that one job may hold.
pub const COMPACT_QUEUE_BYTES: usize = 2097152;

/// Bounds on one encoded record.
#[derive(Clone, Copy, Debug, PartialEq, Eq, Structural)]
pub struct JsonLimits {
    pub max_bytes: usize,
}

impl Default for JsonLimits {
    /// Records of up to 64 KiB.
    fn default() -> (r: Self)
        ensures
            r.max_bytes == 65536,
    {
        JsonLimits { max_bytes: 65536 }
    }
}

/// The type of a value.
#[derive(Clone, Copy, Debug, PartialEq, Eq, Structural)]
pub enum DataType {
    Null,
    Bool,
    Int64,
    UInt64,
    Float64,
    Utf8,
    Bytes,
    TimestampMicrosUTC,
    Dynamic,
}

impl DataType {
    /// The type's name in messages.
    pub open spec fn name(self) -> Seq<char> {
        match self {
            DataType::Null => "null"@,
            DataType::Bool => "bool"@,
            DataType::Int64 => "int64"@,
            DataType::UInt64 => "uint64"@,
            DataType::Float64 => "float64"@,
            DataType::Utf8 => "utf8"@,
            DataType::Bytes => "bytes"@,
            DataType::TimestampMicrosUTC => "timestamp_micros_utc"@,
            DataType::Dynamic => "dynamic"@,
        }
    }

    /// The type's name in messages.
    pub fn as_str(self) -> (r: &'static str)
        ensures
            r@ == self.name(),
    {
        match self {
            DataType::Null => "null",
            DataType::Bool => "bool",
            DataType::Int64 => "int64",
            DataType::UInt64 => "uint64",
            DataType::Float64 => "float64",
            DataType::Utf8 => "utf8",
            DataType::Bytes => "bytes",
            DataType::TimestampMicrosUTC => "timestamp_micros_utc",
            DataType::Dynamic => "dynamic",
        }
    }
}

/// A value whose shape is known only at run time. Floating-point numbers are
/// held by their IEEE 754 bits.
#[derive(Debug, PartialEq, Eq)]
pub enum DynamicValue {
    Null,
    Bool(bool),
    Int64(i64),
    UInt64(u64),
    Float64(u64),
    Utf8(String),
    Bytes(Vec<u8>),
    Array(Vec<DynamicValue>),
    Object(Vec<(String, DynamicValue)>),
}

/// The mathematical value of a [`DynamicValue`].
#[verifier::ext_equal]
pub ghost enum Dyn {
    Null,
    Bool(bool),
    Int64(i64),
    UInt64(u64),
    Float64(u64),
    Utf8(Seq<char>),
    Bytes(Seq<u8>),
    Array(Seq<Dyn>),
    Object(Seq<(Seq<char>, Dyn)>),
}

/// The value that a dynamic value holds.
pub open spec fn dyn_of(d: DynamicValue) -> Dyn
    decreases d,
{
    match d {
        DynamicValue::Null => Dyn::Null,
        DynamicValue::Bool(v) => Dyn::Bool(v),
        DynamicValue::Int64(v) => Dyn::Int64(v),
        DynamicValue::UInt64(v) => Dyn::UInt64(v),
        DynamicValue::Float64(v) => Dyn::Float64(v),
        DynamicValue::Utf8(v) => Dyn::Utf8(v@),
        DynamicValue::Bytes(v) => Dyn::Bytes(v@),
        DynamicValue::Array(v) => Dyn::Array(dyns_of(v@)),
        DynamicValue::Object(v) => Dyn::Object(members_of(v@)),
    }
}

/// The values of a list, in order.
pub open spec fn dyns_of(v: Seq<DynamicValue>) -> Seq<Dyn>
    decreases v,
{
    if v.len() == 0 {
        Seq::empty()
    } else {
        dyns_of(v.drop_last()).push(dyn_of(v.last()))
    }
}

/// The members of an object, in order.
pub open spec fn members_of(v: Seq<(String, DynamicValue)>) -> Seq<(Seq<char>, Dyn)>
    decreases v,
{
    if v.len() == 0 {
        Seq::empty()
    } else {
        members_of(v.drop_last()).push((v.last().0@, dyn_of(v.last().1)))
    }
}

pub proof fn lemma_dyns(v: Seq<DynamicValue>)
    ensures
        dyns_of(v).len() == v.len(),
        forall|i: int| 0 <= i < v.len() ==> #[trigger] dyns_of(v)[i] == dyn_of(v[i]),
    decreases v.len(),
{
    if v.len() > 0 {
        lemma_dyns(v.drop_last());
    }
}

pub proof fn lemma_members(v: Seq<(String, DynamicValue)>)
    ensures
        members_of(v).len() == v.len(),
        forall|i: int|
            0 <= i < v.len() ==> #[trigger] members_of(v)[i] == (v[i].0@, dyn_of(v[i].1)),
    decreases v.len(),
{
    if v.len() > 0 {
        lemma_members(v.drop_last());
    }
}

impl Clone for DynamicValue {
    fn clone(&self) -> (r: Self)
        ensures
            dyn_of(r) == dyn_of(*self),
        decreases self,
    {
        match self {
            DynamicValue::Null => DynamicValue::Null,
            DynamicValue::Bool(v) => DynamicValue::Bool(*v),
            DynamicValue::Int64(v) => DynamicValue::Int64(*v),
            DynamicValue::UInt64(v) => DynamicValue::UInt64(*v),
            DynamicValue::Float64(v) => DynamicValue::Float64(*v),
            DynamicValue::Utf8(v) => DynamicValue::Utf8(v.clone()),
            DynamicValue::Bytes(v) => DynamicValue::Bytes(v.clone()),
            DynamicValue::Array(v) => {
                let mut out: Vec<DynamicValue> = Vec::new();
                let mut i: usize = 0;
                while i < v.len()
                    invariant
                        i <= v.len(),
                        *self == DynamicValue::Array(*v),
                        dyns_of(out@) == dyns_of(v@.take(i as int)),
                    decreases v.len() - i,
                {
                    let ghost prev = out@;
                    proof {
                        assert(decreases_to!(*self => self->Array_0));
                        assert(decreases_to!(self->Array_0 => self->Array_0@));
                        assert(decreases_to!(v@ => v@[i as int]));
                    }
                    out.push(v[i].clone());
                    assert(out@.drop_last() == prev);
                    assert(v@.take(i + 1).drop_last() == v@.take(i as int));
                    i = i + 1;
                }
                assert(v@.take(v@.len() as int) == v@);
                DynamicValue::Array(out)
            },
            DynamicValue::Object(v) => {
                let mut out: Vec<(String, DynamicValue)> = Vec::new();
                let mut i: usize = 0;
                while i < v.len()
                    invariant
                        i <= v.len(),
                        *self == DynamicValue::Object(*v),
                        members_of(out@) == members_of(v@.take(i as int)),
                    decreases v.len() - i,
                {
                    let ghost prev = out@;
                    let key: String = v[i].0.clone();
                    proof {
                        assert(decreases_to!(*self => self->Object_0));
                        assert(decreases_to!(self->Object_0 => self->Object_0@));
                        assert(decreases_to!(v@ => v@[i as int]));
                        assert(decreases_to!(v@[i as int] => v@[i as int].1));
                    }
                    out.push((key, v[i].1.clone()));
                    assert(out@.drop_last() == prev);
                    assert(v@.take(i + 1).drop_last() == v@.take(i as int));
                    i = i + 1;
                }
                assert(v@.take(v@.len() as int) == v@);
                DynamicValue::Object(out)
            },
        }
    }
}

/// The member that an object holds under `key`: the first of that name.
pub open spec fn member(d: Dyn, key: Seq<char>) -> Option<Dyn> {
    match d {
        Dyn::Object(m) => first_member(m, key),
        _ => None,
    }
}

/// The first member named `key`.
pub open spec fn first_member(m: Seq<(Seq<char>, Dyn)>, key: Seq<char>) -> Option<Dyn>
    decreases m.len(),
{
    if m.len() == 0 {
        None
    } else if m[0].0 == key {
        Some(m[0].1)
    } else {
        first_member(m.skip(1), key)
    }
}

impl DynamicValue {
    /// Looks up a member of an object.
    pub fn get(&self, key: &str) -> (r: Option<&DynamicValue>)
        ensures
            match r {
                Some(v) => member(dyn_of(*self), key@) == Some(dyn_of(*v)),
                None => member(dyn_of(*self), key@) is None,
            },
    {
        match self {
            DynamicValue::Object(v) => {
                let mut i: usize = 0;
                let ghost m = members_of(v@);
                proof {
                    lemma_members(v@);
                    assert(m.skip(0) == m);
                }
                while i < v.len()
                    invariant
                        i <= v.len(),
                        dyn_of(*self) == Dyn::Object(m),
                        m.len() == v@.len(),
                        forall|j: int|
                            0 <= j < v@.len() ==> #[trigger] m[j] == (v@[j].0@, dyn_of(v@[j].1)),
                        first_member(m, key@) == first_member(m.skip(i as int), key@),
                    decreases v.len() - i,
                {
                    assert(m.skip(i as int)[0] == m[i as int]);
                    if same(v[i].0.as_str(), key) {
                        return Some(&v[i].1);
                    }
                    assert(m.skip(i as int).skip(1) == m.skip(i + 1));
                    i = i + 1;
                }
                None
            },
            _ => None,
        }
    }
}

/// One cell of a row. Floating-point numbers are held by their IEEE 754 bits.
#[derive(Debug, PartialEq, Eq)]
pub enum Scalar {
    Null,
    Bool(bool),
    Int64(i64),
    UInt64(u64),
    Float64(u64),
    Utf8(String),
    Bytes(Vec<u8>),
    TimestampMicrosUTC(i64),
    Dynamic(DynamicValue),
}

/// The mathematical value of a [`Scalar`].
#[verifier::ext_equal]
pub ghost enum Val {
    Null,
    Bool(bool),
    Int64(i64),
    UInt64(u64),
    Float64(u64),
    Utf8(Seq<char>),
    Bytes(Seq<u8>),
    TimestampMicrosUTC(i64),
    Dynamic(Dyn),
}

impl View for Scalar {
    type V = Val;

    open spec fn view(&self) -> Val {
        match *self {
            Scalar::Null => Val::Null,
            Scalar::Bool(v) => Val::Bool(v),
            Scalar::Int64(v) => Val::Int64(v),
            Scalar::UInt64(v) => Val::UInt64(v),
            Scalar::Float64(v) => Val::Float64(v),
            Scalar::Utf8(v) => Val::Utf8(v@),
            Scalar::Bytes(v) => Val::Bytes(v@),
            Scalar::TimestampMicrosUTC(v) => Val::TimestampMicrosUTC(v),
            Scalar::Dynamic(v) => Val::Dynamic(dyn_of(v)),
        }
    }
}

/// The values of a row.
pub open spec fn vals(row: Seq<Scalar>) -> Seq<Val> {
    row.map_values(|s: Scalar| s@)
}

/// The type of a value.
pub open spec fn type_of(v: Val) -> DataType {
    match v {
        Val::Null => DataType::Null,
        Val::Bool(_) => DataType::Bool,
        Val::Int64(_) => DataType::Int64,
        Val::UInt64(_) => DataType::UInt64,
        Val::Float64(_) => DataType::Float64,
        Val::Utf8(_) => DataType::Utf8,
        Val::Bytes(_) => DataType::Bytes,
        Val::TimestampMicrosUTC(_) => DataType::TimestampMicrosUTC,
        Val::Dynamic(_) => DataType::Dynamic,
    }
}

impl Clone for Scalar {
    fn clone(&self) -> (r: Self)
        ensures
            r@ == self@,
    {
        match self {
            Scalar::Null => Scalar::Null,
            Scalar::Bool(v) => Scalar::Bool(*v),
            Scalar::Int64(v) => Scalar::Int64(*v),
            Scalar::UInt64(v) => Scalar::UInt64(*v),
            Scalar::Float64(v) => Scalar::Float64(*v),
            Scalar::Utf8(v) => Scalar::Utf8(v.clone()),
            Scalar::Bytes(v) => Scalar::Bytes(v.clone()),
            Scalar::TimestampMicrosUTC(v) => Scalar::TimestampMicrosUTC(*v),
            Scalar::Dynamic(v) => Scalar::Dynamic(v.clone()),
        }
    }
}

impl Scalar {
    /// A text value.
    pub fn utf8(s: &str) -> (r: Self)
        ensures
            r@ == Val::Utf8(s@),
    {
        Scalar::Utf8(s.to_owned())
    }

    /// Whether the value is NULL.
    pub fn is_null(&self) -> (r: bool)
        ensures
            r == (self@ is Null),
    {
        match self {
            Scalar::Null => true,
            _ => false,
        }
    }

    /// The value's type.
    pub fn data_type(&self) -> (r: DataType)
        ensures
            r == type_of(self@),
    {
        match self {
            Scalar::Null => DataType::Null,
            Scalar::Bool(_) => DataType::Bool,
            Scalar::Int64(_) => DataType::Int64,
            Scalar::UInt64(_) => DataType::UInt64,
            Scalar::Float64(_) => DataType::Float64,
            Scalar::Utf8(_) => DataType::Utf8,
            Scalar::Bytes(_) => DataType::Bytes,
            Scalar::TimestampMicrosUTC(_) => DataType::TimestampMicrosUTC,
            Scalar::Dynamic(_) => DataType::Dynamic,
        }
    }
}

/// A named column.
#[derive(Debug)]
pub struct Field {
    pub id: u16,
    pub name: String,
    pub data_type: DataType,
    pub nullable: bool,
}

/// The columns of a stream, in order.
#[derive(Debug)]
pub struct Schema {
    pub id: u32,
    pub fields: Vec<Field>,
}

/// A row of cells.
#[derive(Debug)]
pub struct Row {
    pub values: Vec<Scalar>,
}

impl Clone for Field {
    fn clone(&self) -> (r: Self)
        ensures
            r == *self,
    {
        Field {
            id: self.id,
            name: self.name.clone(),
            data_type: self.data_type,
            nullable: self.nullable,
        }
    }
}

impl Clone for Schema {
    fn clone(&self) -> (r: Self)
        ensures
            r.id == self.id,
            r.fields@ == self.fields@,
    {
        let mut fields: Vec<Field> = Vec::new();
        let mut i: usize = 0;
        while i < self.fields.len()
            invariant
                i <= self.fields.len(),
                fields@ == self.fields@.take(i as int),
            decreases self.fields.len() - i,
        {
            fields.push(self.fields[i].clone());
            assert(self.fields@.take(i + 1) =~= self.fields@.take(i as int).push(
                self.fields@[i as int],
            ));
            i = i + 1;
        }
        assert(self.fields@.take(i as int) =~= self.fields@);
        Schema { id: self.id, fields }
    }
}

/// The index of the first column called `name`.
pub open spec fn column(fields: Seq<Field>, name: Seq<char>) -> Option<int>
    decreases fields.len(),
{
    if fields.len() == 0 {
        None
    } else {
        match column(fields.drop_last(), name) {
            Some(i) => Some(i),
            None => if fields.last().name@ == name {
                Some(fields.len() - 1)
            } else {
                None
            },
        }
    }
}

/// A column index lies inside the list, and its name is the one asked for.
pub proof fn lemma_column(fields: Seq<Field>, name: Seq<char>)
    ensures
        match column(fields, name) {
            Some(i) => 0 <= i < fields.len() && fields[i].name@ == name,
            None => forall|i: int| 0 <= i < fields.len() ==> #[trigger] fields[i].name@ != name,
        },
    decreases fields.len(),
{
    if fields.len() > 0 {
        lemma_column(fields.drop_last(), name);
        assert(forall|i: int|
            0 <= i < fields.len() - 1 ==> #[trigger] fields[i] == fields.drop_last()[i]);
    }
}

proof fn lemma_column_prefix(fields: Seq<Field>, k: int, name: Seq<char>)
    requires
        0 <= k <= fields.len(),
        column(fields.take(k), name) is Some,
    ensures
        column(fields, name) == column(fields.take(k), name),
    decreases fields.len() - k,
{
    if k < fields.len() {
        assert(fields.take(k + 1).drop_last() == fields.take(k));
        lemma_column_prefix(fields, k + 1, name);
    } else {
        assert(fields.take(k) == fields);
    }
}

impl Schema {
    /// The index of the first column called `name`.
    pub fn index_of_name(&self, name: &str) -> (r: Option<usize>)
        ensures
            match r {
                Some(i) => i < self.fields.len() && column(self.fields@, name@) == Some(i as int),
                None => column(self.fields@, name@) is None,
            },
    {
        let mut i: usize = 0;
        while i < self.fields.len()
            invariant
                i <= self.fields.len(),
                column(self.fields@.take(i as int), name@) is None,
            decreases self.fields.len() - i,
        {
            assert(self.fields@.take(i + 1).drop_last() == self.fields@.take(i as int));
            if same(self.fields[i].name.as_str(), name) {
                proof {
                    lemma_column_prefix(self.fields@, i + 1, name@);
                }
                return Some(i);
            }
            i = i + 1;
        }
        assert(self.fields@.take(self.fields@.len() as int) == self.fields@);
        None
    }
}

} // verus!
