use vstd::prelude::*;
use crate::error::HostError;
use crate::plain::{
    pattern_of, pattern_of_wide, signed_of, signed_of_wide, to_pattern, to_pattern_wide, to_signed,
    to_signed_wide,
};

verus! {

/// The kind of one value that crosses the boundary in a call.
#[derive(Clone, Copy, Debug, PartialEq, Eq, Structural)]
pub enum ValueKind {
    /// A 32-bit integer; the guest does not record its signedness.
    I32,
    /// A 64-bit integer; the guest does not record its signedness.
    I64,
    /// A 32-bit IEEE-754 number.
    F32,
    /// A 64-bit IEEE-754 number.
    F64,
    /// A 128-bit vector.
    V128,
    /// A reference to something the execution engine owns.
    Ref,
}

/// One value that crosses the boundary in a call. Integers travel as the
/// guest holds them, in two's complement; numbers with a fraction travel as
/// their IEEE-754 bit pattern.
#[derive(Clone, Copy, Debug, PartialEq, Eq, Structural)]
pub enum Value {
    I32(i32),
    I64(i64),
    F32(u32),
    F64(u64),
}

impl Value {
    /// The kind of the value.
    pub open spec fn kind(self) -> ValueKind {
        match self {
            Value::I32(_) => ValueKind::I32,
            Value::I64(_) => ValueKind::I64,
            Value::F32(_) => ValueKind::F32,
            Value::F64(_) => ValueKind::F64,
        }
    }
}

/// The kinds of the arguments and of the results of a function.
#[derive(Clone, Debug, PartialEq, Eq)]
pub struct Signature {
    pub params: Vec<ValueKind>,
    pub results: Vec<ValueKind>,
}

/// What a signature says, as mathematical values.
pub ghost struct SignatureShape {
    pub params: Seq<ValueKind>,
    pub results: Seq<ValueKind>,
}

impl View for Signature {
    type V = SignatureShape;

    open spec fn view(&self) -> SignatureShape {
        SignatureShape { params: self.params@, results: self.results@ }
    }
}

/// Whether two lists hold the same kinds in the same order.
pub fn same_kinds(left: &Vec<ValueKind>, right: &Vec<ValueKind>) -> (same: bool)
    ensures
        same == (left@ == right@),
{
    if left.len() != right.len() {
        return false;
    }
    let count: usize = left.len();
    let mut i: usize = 0;
    while i < count
        invariant
            i <= count,
            count == left@.len(),
            count == right@.len(),
            forall|k: int| 0 <= k < i ==> left@[k] == right@[k],
        decreases count - i,
    {
        if left[i] != right[i] {
            return false;
        }
        i += 1;
    }
    assert(left@ =~= right@);
    true
}

/// A list of the same kinds in the same order.
pub fn copy_kinds(kinds: &Vec<ValueKind>) -> (copy: Vec<ValueKind>)
    ensures
        copy@ == kinds@,
{
    let mut copy: Vec<ValueKind> = Vec::new();
    let mut i: usize = 0;
    while i < kinds.len()
        invariant
            i <= kinds@.len(),
            copy@ == kinds@.take(i as int),
        decreases kinds@.len() - i,
    {
        copy.push(kinds[i]);
        assert(kinds@.take(i + 1) =~= kinds@.take(i as int).push(kinds@[i as int]));
        i += 1;
    }
    assert(kinds@.take(kinds@.len() as int) =~= kinds@);
    copy
}

impl Signature {
    /// A signature that says the same.
    pub fn duplicate(&self) -> (copy: Signature)
        ensures
            copy@ == self@,
    {
        Signature { params: copy_kinds(&self.params), results: copy_kinds(&self.results) }
    }

    /// Whether the two signatures agree in every argument and every result.
    pub fn matches(&self, declared: &Signature) -> (same: bool)
        ensures
            same == (self@ == declared@),
    {
        same_kinds(&self.params, &declared.params) && same_kinds(&self.results, &declared.results)
    }
}

/// A host type that can stand for the arguments or the results of a guest
/// function: nothing, one integer, or a pair of such types.
pub trait Native: Sized {
    /// The kinds the guest must declare where the host uses this type.
    spec fn kinds() -> Seq<ValueKind>;

    /// The values that carry `self` across the boundary.
    spec fn values(&self) -> Seq<Value>;

    /// The host value that `values` carry, or `None` where they are not of
    /// the kinds of this type.
    spec fn parse(values: Seq<Value>) -> Option<Self>;

    /// A host value carries as many values as its type has kinds, each of
    /// its kind, and is read back from them unchanged.
    proof fn lemma_carried(value: Self)
        ensures
            value.values().len() == Self::kinds().len(),
            forall|i: int|
                0 <= i < Self::kinds().len() ==> (#[trigger] value.values()[i]).kind()
                    == Self::kinds()[i],
            Self::parse(value.values()) == Some(value),
    ;

    /// The kinds the guest must declare where the host uses this type.
    fn value_kinds() -> (kinds: Vec<ValueKind>)
        ensures
            kinds@ == Self::kinds(),
    ;

    /// The values that carry `self` across the boundary.
    fn to_values(&self) -> (values: Vec<Value>)
        ensures
            values@ == self.values(),
    ;

    /// Reads a host value from the values that carry it.
    fn from_values(values: &Vec<Value>) -> (value: Option<Self>)
        ensures
            value == Self::parse(values@),
    ;
}

impl Native for () {
    open spec fn kinds() -> Seq<ValueKind> {
        Seq::empty()
    }

    open spec fn values(&self) -> Seq<Value> {
        Seq::empty()
    }

    open spec fn parse(values: Seq<Value>) -> Option<()> {
        if values.len() == 0 {
            Some(())
        } else {
            None
        }
    }

    proof fn lemma_carried(value: ()) {
    }

    fn value_kinds() -> (kinds: Vec<ValueKind>) {
        Vec::new()
    }

    fn to_values(&self) -> (values: Vec<Value>) {
        Vec::new()
    }

    fn from_values(values: &Vec<Value>) -> (value: Option<()>) {
        if values.len() == 0 {
            Some(())
        } else {
            None
        }
    }
}

impl Native for i32 {
    open spec fn kinds() -> Seq<ValueKind> {
        seq![ValueKind::I32]
    }

    open spec fn values(&self) -> Seq<Value> {
        seq![Value::I32(*self)]
    }

    open spec fn parse(values: Seq<Value>) -> Option<i32> {
        if values.len() == 1 {
            match values[0] {
                Value::I32(v) => Some(v),
                _ => None,
            }
        } else {
            None
        }
    }

    proof fn lemma_carried(value: i32) {
    }

    fn value_kinds() -> (kinds: Vec<ValueKind>) {
        let mut kinds: Vec<ValueKind> = Vec::new();
        kinds.push(ValueKind::I32);
        assert(kinds@ =~= Self::kinds());
        kinds
    }

    fn to_values(&self) -> (values: Vec<Value>) {
        let mut values: Vec<Value> = Vec::new();
        values.push(Value::I32(*self));
        assert(values@ =~= self.values());
        values
    }

    fn from_values(values: &Vec<Value>) -> (value: Option<i32>) {
        if values.len() == 1 {
            match values[0] {
                Value::I32(v) => Some(v),
                _ => None,
            }
        } else {
            None
        }
    }
}

impl Native for u32 {
    open spec fn kinds() -> Seq<ValueKind> {
        seq![ValueKind::I32]
    }

    open spec fn values(&self) -> Seq<Value> {
        seq![Value::I32(signed_of(*self))]
    }

    open spec fn parse(values: Seq<Value>) -> Option<u32> {
        if values.len() == 1 {
            match values[0] {
                Value::I32(v) => Some(pattern_of(v)),
                _ => None,
            }
        } else {
            None
        }
    }

    proof fn lemma_carried(value: u32) {
    }

    fn value_kinds() -> (kinds: Vec<ValueKind>) {
        let mut kinds: Vec<ValueKind> = Vec::new();
        kinds.push(ValueKind::I32);
        assert(kinds@ =~= Self::kinds());
        kinds
    }

    fn to_values(&self) -> (values: Vec<Value>) {
        let mut values: Vec<Value> = Vec::new();
        values.push(Value::I32(to_signed(*self)));
        assert(values@ =~= self.values());
        values
    }

    fn from_values(values: &Vec<Value>) -> (value: Option<u32>) {
        if values.len() == 1 {
            match values[0] {
                Value::I32(v) => Some(to_pattern(v)),
                _ => None,
            }
        } else {
            None
        }
    }
}

impl Native for i64 {
    open spec fn kinds() -> Seq<ValueKind> {
        seq![ValueKind::I64]
    }

    open spec fn values(&self) -> Seq<Value> {
        seq![Value::I64(*self)]
    }

    open spec fn parse(values: Seq<Value>) -> Option<i64> {
        if values.len() == 1 {
            match values[0] {
                Value::I64(v) => Some(v),
                _ => None,
            }
        } else {
            None
        }
    }

    proof fn lemma_carried(value: i64) {
    }

    fn value_kinds() -> (kinds: Vec<ValueKind>) {
        let mut kinds: Vec<ValueKind> = Vec::new();
        kinds.push(ValueKind::I64);
        assert(kinds@ =~= Self::kinds());
        kinds
    }

    fn to_values(&self) -> (values: Vec<Value>) {
        let mut values: Vec<Value> = Vec::new();
        values.push(Value::I64(*self));
        assert(values@ =~= self.values());
        values
    }

    fn from_values(values: &Vec<Value>) -> (value: Option<i64>) {
        if values.len() == 1 {
            match values[0] {
                Value::I64(v) => Some(v),
                _ => None,
            }
        } else {
            None
        }
    }
}

impl Native for u64 {
    open spec fn kinds() -> Seq<ValueKind> {
        seq![ValueKind::I64]
    }

    open spec fn values(&self) -> Seq<Value> {
        seq![Value::I64(signed_of_wide(*self))]
    }

    open spec fn parse(values: Seq<Value>) -> Option<u64> {
        if values.len() == 1 {
            match values[0] {
                Value::I64(v) => Some(pattern_of_wide(v)),
                _ => None,
            }
        } else {
            None
        }
    }

    proof fn lemma_carried(value: u64) {
    }

    fn value_kinds() -> (kinds: Vec<ValueKind>) {
        let mut kinds: Vec<ValueKind> = Vec::new();
        kinds.push(ValueKind::I64);
        assert(kinds@ =~= Self::kinds());
        kinds
    }

    fn to_values(&self) -> (values: Vec<Value>) {
        let mut values: Vec<Value> = Vec::new();
        values.push(Value::I64(to_signed_wide(*self)));
        assert(values@ =~= self.values());
        values
    }

    fn from_values(values: &Vec<Value>) -> (value: Option<u64>) {
        if values.len() == 1 {
            match values[0] {
                Value::I64(v) => Some(to_pattern_wide(v)),
                _ => None,
            }
        } else {
            None
        }
    }
}

/// The signature a guest function must declare to be called with arguments
/// of type `Args` for a result of type `Ret`.
pub open spec fn requested<Args: Native, Ret: Native>() -> SignatureShape {
    SignatureShape { params: Args::kinds(), results: Ret::kinds() }
}

/// The signature a guest function must declare to be called with arguments
/// of type `Args` for a result of type `Ret`.
pub fn signature_of<Args: Native, Ret: Native>() -> (signature: Signature)
    ensures
        signature@ == requested::<Args, Ret>(),
{
    Signature { params: Args::value_kinds(), results: Ret::value_kinds() }
}

/// Decides whether an export may be called with arguments of type `Args` for
/// a result of type `Ret`, given the signature it declares, or `None` where
/// nothing is exported under the name.
pub fn check_export<Args: Native, Ret: Native>(declared: Option<&Signature>, name: &str) -> (checked:
    Result<(), HostError>)
    ensures
        match declared {
            None => checked matches Err(HostError::ExportNotFound { name: missing }) && missing@
                == name@,
            Some(signature) => if signature@ == requested::<Args, Ret>() {
                checked is Ok
            } else {
                checked matches Err(HostError::SignatureMismatch { name: refused }) && refused@
                    == name@
            },
        },
{
    match declared {
        None => Err(HostError::ExportNotFound { name: name.to_owned() }),
        Some(signature) => {
            let wanted: Signature = signature_of::<Args, Ret>();
            if wanted.matches(signature) {
                Ok(())
            } else {
                Err(HostError::SignatureMismatch { name: name.to_owned() })
            }
        },
    }
}

/// Two 32-bit integer types of the host stand for the same guest kind, and a
/// 64-bit one for another: an export acquired for one signedness is acquired
/// for the other, and never for another width.
pub proof fn lemma_width_decides()
    ensures
        requested::<u32, u32>() == requested::<i32, i32>(),
        requested::<u64, u32>() != requested::<i32, i32>(),
{
    assert(<u64 as Native>::kinds()[0] != <i32 as Native>::kinds()[0]);
}

} // verus!
