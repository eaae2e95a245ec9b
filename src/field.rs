use vstd::prelude::*;

verus! {

/// How one element of a template is compared with a tuple field.
#[derive(Clone, Copy, Debug, PartialEq, Eq, Structural)]
pub enum TemplateType {
    /// The field must have the element's kind and be equal to it.
    Actual,
    /// The field must have the element's kind; its value is not looked at.
    Formal,
}

/// One value stored in a tuple, tagged with its kind.
///
/// `Custom` holds a value of a kind registered by the user: the kind's name
/// and the value's encoded bytes.
pub enum TupleField {
    I8(i8),
    I16(i16),
    I32(i32),
    I64(i64),
    I128(i128),
    U8(u8),
    U16(u16),
    U32(u32),
    U64(u64),
    U128(u128),
    Usize(usize),
    Isize(isize),
    Char(char),
    Bool(bool),
    Str(String),
    Custom(String, Vec<u8>),
}

/// The mathematical value of a field.
pub enum FieldValue {
    I8(i8),
    I16(i16),
    I32(i32),
    I64(i64),
    I128(i128),
    U8(u8),
    U16(u16),
    U32(u32),
    U64(u64),
    U128(u128),
    Usize(usize),
    Isize(isize),
    Char(char),
    Bool(bool),
    Str(Seq<char>),
    Custom(Seq<char>, Seq<u8>),
}

/// The kind of a field: what matching compares under `Formal`.
pub enum Kind {
    I8,
    I16,
    I32,
    I64,
    I128,
    U8,
    U16,
    U32,
    U64,
    U128,
    Usize,
    Isize,
    Char,
    Bool,
    Str,
    Custom(Seq<char>),
}

impl View for TupleField {
    type V = FieldValue;

    open spec fn view(&self) -> FieldValue {
        match self {
            TupleField::I8(x) => FieldValue::I8(*x),
            TupleField::I16(x) => FieldValue::I16(*x),
            TupleField::I32(x) => FieldValue::I32(*x),
            TupleField::I64(x) => FieldValue::I64(*x),
            TupleField::I128(x) => FieldValue::I128(*x),
            TupleField::U8(x) => FieldValue::U8(*x),
            TupleField::U16(x) => FieldValue::U16(*x),
            TupleField::U32(x) => FieldValue::U32(*x),
            TupleField::U64(x) => FieldValue::U64(*x),
            TupleField::U128(x) => FieldValue::U128(*x),
            TupleField::Usize(x) => FieldValue::Usize(*x),
            TupleField::Isize(x) => FieldValue::Isize(*x),
            TupleField::Char(x) => FieldValue::Char(*x),
            TupleField::Bool(x) => FieldValue::Bool(*x),
            TupleField::Str(s) => FieldValue::Str(s@),
            TupleField::Custom(k, d) => FieldValue::Custom(k@, d@),
        }
    }
}

/// The kind of a field value.
pub open spec fn kind_of(v: FieldValue) -> Kind {
    match v {
        FieldValue::I8(_) => Kind::I8,
        FieldValue::I16(_) => Kind::I16,
        FieldValue::I32(_) => Kind::I32,
        FieldValue::I64(_) => Kind::I64,
        FieldValue::I128(_) => Kind::I128,
        FieldValue::U8(_) => Kind::U8,
        FieldValue::U16(_) => Kind::U16,
        FieldValue::U32(_) => Kind::U32,
        FieldValue::U64(_) => Kind::U64,
        FieldValue::U128(_) => Kind::U128,
        FieldValue::Usize(_) => Kind::Usize,
        FieldValue::Isize(_) => Kind::Isize,
        FieldValue::Char(_) => Kind::Char,
        FieldValue::Bool(_) => Kind::Bool,
        FieldValue::Str(_) => Kind::Str,
        FieldValue::Custom(k, _) => Kind::Custom(k),
    }
}

/// Whether a template element `(sample, mode)` matches the field `element`:
/// the kinds are the same, and under `Actual` the values are too.
pub open spec fn element_matches(sample: FieldValue, mode: TemplateType, element: FieldValue) -> bool {
    match mode {
        TemplateType::Actual => element == sample,
        TemplateType::Formal => kind_of(element) == kind_of(sample),
    }
}

/// Two byte vectors hold the same bytes.
fn same_bytes(a: &Vec<u8>, b: &Vec<u8>) -> (r: bool)
    ensures
        r == (a@ == b@),
{
    if a.len() != b.len() {
        return false;
    }
    let mut i: usize = 0;
    while i < a.len()
        invariant
            a@.len() == b@.len(),
            i <= a@.len(),
            forall|j: int| 0 <= j < i ==> a@[j] == b@[j],
        decreases a@.len() - i,
    {
        if a[i] != b[i] {
            return false;
        }
        i = i + 1;
    }
    assert(a@ =~= b@);
    true
}

impl TupleField {
    /// Whether both fields have the same kind.
    pub fn same_kind(&self, other: &TupleField) -> (r: bool)
        ensures
            r == (kind_of(self@) == kind_of(other@)),
    {
        match (self, other) {
            (TupleField::I8(_), TupleField::I8(_)) => true,
            (TupleField::I16(_), TupleField::I16(_)) => true,
            (TupleField::I32(_), TupleField::I32(_)) => true,
            (TupleField::I64(_), TupleField::I64(_)) => true,
            (TupleField::I128(_), TupleField::I128(_)) => true,
            (TupleField::U8(_), TupleField::U8(_)) => true,
            (TupleField::U16(_), TupleField::U16(_)) => true,
            (TupleField::U32(_), TupleField::U32(_)) => true,
            (TupleField::U64(_), TupleField::U64(_)) => true,
            (TupleField::U128(_), TupleField::U128(_)) => true,
            (TupleField::Usize(_), TupleField::Usize(_)) => true,
            (TupleField::Isize(_), TupleField::Isize(_)) => true,
            (TupleField::Char(_), TupleField::Char(_)) => true,
            (TupleField::Bool(_), TupleField::Bool(_)) => true,
            (TupleField::Str(_), TupleField::Str(_)) => true,
            (TupleField::Custom(k1, _), TupleField::Custom(k2, _)) => *k1 == *k2,
            _ => false,
        }
    }

    /// Whether both fields have the same kind and the same value.
    pub fn same_value(&self, other: &TupleField) -> (r: bool)
        ensures
            r == (self@ == other@),
    {
        match (self, other) {
            (TupleField::I8(a), TupleField::I8(b)) => *a == *b,
            (TupleField::I16(a), TupleField::I16(b)) => *a == *b,
            (TupleField::I32(a), TupleField::I32(b)) => *a == *b,
            (TupleField::I64(a), TupleField::I64(b)) => *a == *b,
            (TupleField::I128(a), TupleField::I128(b)) => *a == *b,
            (TupleField::U8(a), TupleField::U8(b)) => *a == *b,
            (TupleField::U16(a), TupleField::U16(b)) => *a == *b,
            (TupleField::U32(a), TupleField::U32(b)) => *a == *b,
            (TupleField::U64(a), TupleField::U64(b)) => *a == *b,
            (TupleField::U128(a), TupleField::U128(b)) => *a == *b,
            (TupleField::Usize(a), TupleField::Usize(b)) => *a == *b,
            (TupleField::Isize(a), TupleField::Isize(b)) => *a == *b,
            (TupleField::Char(a), TupleField::Char(b)) => *a == *b,
            (TupleField::Bool(a), TupleField::Bool(b)) => *a == *b,
            (TupleField::Str(a), TupleField::Str(b)) => *a == *b,
            (TupleField::Custom(k1, d1), TupleField::Custom(k2, d2)) => *k1 == *k2 && same_bytes(d1, d2),
            _ => false,
        }
    }

    /// Whether this field, used as a template element under `matching`,
    /// matches `element`.
    pub fn query(&self, element: &TupleField, matching: &TemplateType) -> (r: bool)
        ensures
            r == element_matches(self@, *matching, element@),
    {
        match matching {
            TemplateType::Actual => element.same_value(self),
            TemplateType::Formal => element.same_kind(self),
        }
    }
}

impl Clone for TupleField {
    fn clone(&self) -> (r: TupleField)
        ensures
            r@ == self@,
    {
        match self {
            TupleField::I8(x) => TupleField::I8(*x),
            TupleField::I16(x) => TupleField::I16(*x),
            TupleField::I32(x) => TupleField::I32(*x),
            TupleField::I64(x) => TupleField::I64(*x),
            TupleField::I128(x) => TupleField::I128(*x),
            TupleField::U8(x) => TupleField::U8(*x),
            TupleField::U16(x) => TupleField::U16(*x),
            TupleField::U32(x) => TupleField::U32(*x),
            TupleField::U64(x) => TupleField::U64(*x),
            TupleField::U128(x) => TupleField::U128(*x),
            TupleField::Usize(x) => TupleField::Usize(*x),
            TupleField::Isize(x) => TupleField::Isize(*x),
            TupleField::Char(x) => TupleField::Char(*x),
            TupleField::Bool(x) => TupleField::Bool(*x),
            TupleField::Str(s) => TupleField::Str(s.clone()),
            TupleField::Custom(k, d) => {
                let d2 = d.clone();
                assert(d2@ =~= d@);
                TupleField::Custom(k.clone(), d2)
            },
        }
    }
}

/// A plain value that can be stored in a tuple and used in a template.
pub trait FieldType: Sized {
    /// The field that this value becomes.
    spec fn spec_field(&self) -> FieldValue;

    /// This value as a tuple field.
    fn into_field(self) -> (r: TupleField)
        ensures
            r@ == self.spec_field(),
    ;

    /// A template element that matches any field of this value's kind.
    fn formal(self) -> (r: (TupleField, TemplateType))
        ensures
            r.0@ == self.spec_field(),
            r.1 == TemplateType::Formal,
    {
        (self.into_field(), TemplateType::Formal)
    }

    /// A template element that matches only a field equal to this value.
    fn actual(self) -> (r: (TupleField, TemplateType))
        ensures
            r.0@ == self.spec_field(),
            r.1 == TemplateType::Actual,
    {
        (self.into_field(), TemplateType::Actual)
    }
}

impl FieldType for i8 {
    open spec fn spec_field(&self) -> FieldValue {
        FieldValue::I8(*self)
    }

    fn into_field(self) -> (r: TupleField) {
        TupleField::I8(self)
    }
}

impl FieldType for i16 {
    open spec fn spec_field(&self) -> FieldValue {
        FieldValue::I16(*self)
    }

    fn into_field(self) -> (r: TupleField) {
        TupleField::I16(self)
    }
}

impl FieldType for i32 {
    open spec fn spec_field(&self) -> FieldValue {
        FieldValue::I32(*self)
    }

    fn into_field(self) -> (r: TupleField) {
        TupleField::I32(self)
    }
}

impl FieldType for i64 {
    open spec fn spec_field(&self) -> FieldValue {
        FieldValue::I64(*self)
    }

    fn into_field(self) -> (r: TupleField) {
        TupleField::I64(self)
    }
}

impl FieldType for i128 {
    open spec fn spec_field(&self) -> FieldValue {
        FieldValue::I128(*self)
    }

    fn into_field(self) -> (r: TupleField) {
        TupleField::I128(self)
    }
}

impl FieldType for u8 {
    open spec fn spec_field(&self) -> FieldValue {
        FieldValue::U8(*self)
    }

    fn into_field(self) -> (r: TupleField) {
        TupleField::U8(self)
    }
}

impl FieldType for u16 {
    open spec fn spec_field(&self) -> FieldValue {
        FieldValue::U16(*self)
    }

    fn into_field(self) -> (r: TupleField) {
        TupleField::U16(self)
    }
}

impl FieldType for u32 {
    open spec fn spec_field(&self) -> FieldValue {
        FieldValue::U32(*self)
    }

    fn into_field(self) -> (r: TupleField) {
        TupleField::U32(self)
    }
}

impl FieldType for u64 {
    open spec fn spec_field(&self) -> FieldValue {
        FieldValue::U64(*self)
    }

    fn into_field(self) -> (r: TupleField) {
        TupleField::U64(self)
    }
}

impl FieldType for u128 {
    open spec fn spec_field(&self) -> FieldValue {
        FieldValue::U128(*self)
    }

    fn into_field(self) -> (r: TupleField) {
        TupleField::U128(self)
    }
}

impl FieldType for usize {
    open spec fn spec_field(&self) -> FieldValue {
        FieldValue::Usize(*self)
    }

    fn into_field(self) -> (r: TupleField) {
        TupleField::Usize(self)
    }
}

impl FieldType for isize {
    open spec fn spec_field(&self) -> FieldValue {
        FieldValue::Isize(*self)
    }

    fn into_field(self) -> (r: TupleField) {
        TupleField::Isize(self)
    }
}

impl FieldType for char {
    open spec fn spec_field(&self) -> FieldValue {
        FieldValue::Char(*self)
    }

    fn into_field(self) -> (r: TupleField) {
        TupleField::Char(self)
    }
}

impl FieldType for bool {
    open spec fn spec_field(&self) -> FieldValue {
        FieldValue::Bool(*self)
    }

    fn into_field(self) -> (r: TupleField) {
        TupleField::Bool(self)
    }
}

impl FieldType for String {
    open spec fn spec_field(&self) -> FieldValue {
        FieldValue::Str(self@)
    }

    fn into_field(self) -> (r: TupleField) {
        TupleField::Str(self)
    }
}

impl TupleField {
    /// The value, if this field is of kind `i8`.
    pub fn as_i8(&self) -> (r: Option<i8>)
        ensures
            r == match self@ {
                FieldValue::I8(x) => Some(x),
                _ => None::<i8>,
            },
    {
        match self {
            TupleField::I8(x) => Some(*x),
            _ => None,
        }
    }

    /// The value, if this field is of kind `i16`.
    pub fn as_i16(&self) -> (r: Option<i16>)
        ensures
            r == match self@ {
                FieldValue::I16(x) => Some(x),
                _ => None::<i16>,
            },
    {
        match self {
            TupleField::I16(x) => Some(*x),
            _ => None,
        }
    }

    /// The value, if this field is of kind `i32`.
    pub fn as_i32(&self) -> (r: Option<i32>)
        ensures
            r == match self@ {
                FieldValue::I32(x) => Some(x),
                _ => None::<i32>,
            },
    {
        match self {
            TupleField::I32(x) => Some(*x),
            _ => None,
        }
    }

    /// The value, if this field is of kind `i64`.
    pub fn as_i64(&self) -> (r: Option<i64>)
        ensures
            r == match self@ {
                FieldValue::I64(x) => Some(x),
                _ => None::<i64>,
            },
    {
        match self {
            TupleField::I64(x) => Some(*x),
            _ => None,
        }
    }

    /// The value, if this field is of kind `i128`.
    pub fn as_i128(&self) -> (r: Option<i128>)
        ensures
            r == match self@ {
                FieldValue::I128(x) => Some(x),
                _ => None::<i128>,
            },
    {
        match self {
            TupleField::I128(x) => Some(*x),
            _ => None,
        }
    }

    /// The value, if this field is of kind `u8`.
    pub fn as_u8(&self) -> (r: Option<u8>)
        ensures
            r == match self@ {
                FieldValue::U8(x) => Some(x),
                _ => None::<u8>,
            },
    {
        match self {
            TupleField::U8(x) => Some(*x),
            _ => None,
        }
    }

    /// The value, if this field is of kind `u16`.
    pub fn as_u16(&self) -> (r: Option<u16>)
        ensures
            r == match self@ {
                FieldValue::U16(x) => Some(x),
                _ => None::<u16>,
            },
    {
        match self {
            TupleField::U16(x) => Some(*x),
            _ => None,
        }
    }

    /// The value, if this field is of kind `u32`.
    pub fn as_u32(&self) -> (r: Option<u32>)
        ensures
            r == match self@ {
                FieldValue::U32(x) => Some(x),
                _ => None::<u32>,
            },
    {
        match self {
            TupleField::U32(x) => Some(*x),
            _ => None,
        }
    }

    /// The value, if this field is of kind `u64`.
    pub fn as_u64(&self) -> (r: Option<u64>)
        ensures
            r == match self@ {
                FieldValue::U64(x) => Some(x),
                _ => None::<u64>,
            },
    {
        match self {
            TupleField::U64(x) => Some(*x),
            _ => None,
        }
    }

    /// The value, if this field is of kind `u128`.
    pub fn as_u128(&self) -> (r: Option<u128>)
        ensures
            r == match self@ {
                FieldValue::U128(x) => Some(x),
                _ => None::<u128>,
            },
    {
        match self {
            TupleField::U128(x) => Some(*x),
            _ => None,
        }
    }

    /// The value, if this field is of kind `usize`.
    pub fn as_usize(&self) -> (r: Option<usize>)
        ensures
            r == match self@ {
                FieldValue::Usize(x) => Some(x),
                _ => None::<usize>,
            },
    {
        match self {
            TupleField::Usize(x) => Some(*x),
            _ => None,
        }
    }

    /// The value, if this field is of kind `isize`.
    pub fn as_isize(&self) -> (r: Option<isize>)
        ensures
            r == match self@ {
                FieldValue::Isize(x) => Some(x),
                _ => None::<isize>,
            },
    {
        match self {
            TupleField::Isize(x) => Some(*x),
            _ => None,
        }
    }

    /// The value, if this field is of kind `char`.
    pub fn as_char(&self) -> (r: Option<char>)
        ensures
            r == match self@ {
                FieldValue::Char(x) => Some(x),
                _ => None::<char>,
            },
    {
        match self {
            TupleField::Char(x) => Some(*x),
            _ => None,
        }
    }

    /// The value, if this field is of kind `bool`.
    pub fn as_bool(&self) -> (r: Option<bool>)
        ensures
            r == match self@ {
                FieldValue::Bool(x) => Some(x),
                _ => None::<bool>,
            },
    {
        match self {
            TupleField::Bool(x) => Some(*x),
            _ => None,
        }
    }

    /// The text, if this field is a string.
    pub fn as_str(&self) -> (r: Option<&str>)
        ensures
            match self@ {
                FieldValue::Str(s) => r is Some && r->Some_0@ == s,
                _ => r is None,
            },
    {
        match self {
            TupleField::Str(s) => Some(s.as_str()),
            _ => None,
        }
    }

    /// The kind name and the data, if this field is of a custom kind.
    pub fn as_custom(&self) -> (r: Option<(&str, &[u8])>)
        ensures
            match self@ {
                FieldValue::Custom(k, d) => r is Some && r->Some_0.0@ == k && r->Some_0.1@ == d,
                _ => r is None,
            },
    {
        match self {
            TupleField::Custom(k, d) => Some((k.as_str(), d.as_slice())),
            _ => None,
        }
    }
}

} // verus!
