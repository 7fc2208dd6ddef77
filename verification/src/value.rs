//! The variant-typed value model and its bidirectional conversion to the
//! service's tagged-union wire shape.
//!
//! A [`Value`] owns all of its data. Its wire counterpart, [`WireValue`],
//! mirrors the service's tagged union: every array and string payload sits in
//! a separately owned buffer, booleans travel as one wide flag word per
//! element, and doubles travel as their IEEE-754 bit patterns. Moving a
//! `WireValue` moves its buffers with it and dropping it releases them
//! exactly once, which is the ownership-transfer contract the wire format
//! demands.
use vstd::prelude::*;
use vstd::pervasive::arbitrary;
use vstd::pervasive::unreached;

verus! {

/// An owned value read from or written to a table entry.
///
/// Exactly one variant is active at a time. Doubles are carried as their
/// IEEE-754 bit patterns (`u64`): the library moves them losslessly between
/// the application and the wire and never does arithmetic on them itself.
#[derive(Debug)]
pub enum Value {
    Bool(bool),
    BoolArray(Vec<bool>),
    Double(u64),
    DoubleArray(Vec<u64>),
    String(String),
    StringArray(Vec<String>),
    Raw(Vec<u8>),
}

/// The mathematical model of a [`Value`].
#[verifier::ext_equal]
pub enum ValueView {
    Bool(bool),
    BoolArray(Seq<bool>),
    Double(u64),
    DoubleArray(Seq<u64>),
    String(Seq<char>),
    StringArray(Seq<Seq<char>>),
    Raw(Seq<u8>),
}

impl View for Value {
    type V = ValueView;

    open spec fn view(&self) -> ValueView {
        match self {
            Value::Bool(b) => ValueView::Bool(*b),
            Value::BoolArray(v) => ValueView::BoolArray(v@),
            Value::Double(d) => ValueView::Double(*d),
            Value::DoubleArray(v) => ValueView::DoubleArray(v@),
            Value::String(s) => ValueView::String(s@),
            Value::StringArray(v) => ValueView::StringArray(v.deep_view()),
            Value::Raw(v) => ValueView::Raw(v@),
        }
    }
}

impl Value {
    /// Applies the transform to the payload if this value is a `Bool`;
    /// any other value passes through unchanged.
    pub fn map_bool<F: Fn(bool) -> bool>(self, func: F) -> (r: Value)
        requires
            self matches Value::Bool(x) ==> call_requires(func, (x,)),
        ensures
            self matches Value::Bool(x) ==> r matches Value::Bool(y) && call_ensures(
                func,
                (x,),
                y,
            ),
            !(self is Bool) ==> r == self,
    {
        if let Value::Bool(inner) = self {
            Value::Bool(func(inner))
        } else {
            self
        }
    }

    /// Applies the transform to the payload (an IEEE-754 bit pattern) if
    /// this value is a `Double`; any other value passes through unchanged.
    pub fn map_double<F: Fn(u64) -> u64>(self, func: F) -> (r: Value)
        requires
            self matches Value::Double(x) ==> call_requires(func, (x,)),
        ensures
            self matches Value::Double(x) ==> r matches Value::Double(y) && call_ensures(
                func,
                (x,),
                y,
            ),
            !(self is Double) ==> r == self,
    {
        if let Value::Double(inner) = self {
            Value::Double(func(inner))
        } else {
            self
        }
    }

    /// Applies the transform to the payload if this value is a `String`;
    /// any other value passes through unchanged.
    pub fn map_string<F: Fn(String) -> String>(self, func: F) -> (r: Value)
        requires
            self matches Value::String(x) ==> call_requires(func, (x,)),
        ensures
            self matches Value::String(x) ==> r matches Value::String(y) && call_ensures(
                func,
                (x,),
                y,
            ),
            !(self is String) ==> r == self,
    {
        if let Value::String(inner) = self {
            Value::String(func(inner))
        } else {
            self
        }
    }

    /// Applies the transform to the payload if this value is a `BoolArray`;
    /// any other value passes through unchanged.
    pub fn map_bool_array<F: Fn(Vec<bool>) -> Vec<bool>>(self, func: F) -> (r: Value)
        requires
            self matches Value::BoolArray(x) ==> call_requires(func, (x,)),
        ensures
            self matches Value::BoolArray(x) ==> r matches Value::BoolArray(y) && call_ensures(
                func,
                (x,),
                y,
            ),
            !(self is BoolArray) ==> r == self,
    {
        if let Value::BoolArray(inner) = self {
            Value::BoolArray(func(inner))
        } else {
            self
        }
    }

    /// Applies the transform to the payload (IEEE-754 bit patterns) if this
    /// value is a `DoubleArray`; any other value passes through unchanged.
    pub fn map_double_array<F: Fn(Vec<u64>) -> Vec<u64>>(self, func: F) -> (r: Value)
        requires
            self matches Value::DoubleArray(x) ==> call_requires(func, (x,)),
        ensures
            self matches Value::DoubleArray(x) ==> r matches Value::DoubleArray(y) && call_ensures(
                func,
                (x,),
                y,
            ),
            !(self is DoubleArray) ==> r == self,
    {
        if let Value::DoubleArray(inner) = self {
            Value::DoubleArray(func(inner))
        } else {
            self
        }
    }

    /// Applies the transform to the payload if this value is a
    /// `StringArray`; any other value passes through unchanged.
    pub fn map_string_array<F: Fn(Vec<String>) -> Vec<String>>(self, func: F) -> (r: Value)
        requires
            self matches Value::StringArray(x) ==> call_requires(func, (x,)),
        ensures
            self matches Value::StringArray(x) ==> r matches Value::StringArray(y) && call_ensures(
                func,
                (x,),
                y,
            ),
            !(self is StringArray) ==> r == self,
    {
        if let Value::StringArray(inner) = self {
            Value::StringArray(func(inner))
        } else {
            self
        }
    }

    /// Applies the transform to the payload if this value is `Raw`; any
    /// other value passes through unchanged.
    pub fn map_raw<F: Fn(Vec<u8>) -> Vec<u8>>(self, func: F) -> (r: Value)
        requires
            self matches Value::Raw(x) ==> call_requires(func, (x,)),
        ensures
            self matches Value::Raw(x) ==> r matches Value::Raw(y) && call_ensures(func, (x,), y),
            !(self is Raw) ==> r == self,
    {
        if let Value::Raw(inner) = self {
            Value::Raw(func(inner))
        } else {
            self
        }
    }
}

/// One value in the service's wire shape: a tag (the active variant), the
/// change stamp the service attached, and the payload.
#[derive(Debug)]
pub struct WireValue {
    pub last_change: u64,
    pub data: WireData,
}

/// The payload of a wire value, one variant per wire tag.
///
/// `Boolean` and `BooleanArray` carry one wide flag word per boolean, as the
/// wire ABI does; `Double` and `DoubleArray` carry IEEE-754 bit patterns.
/// String payloads are UTF-8 by construction, which is exactly the guarantee
/// the service gives for strings on the wire. `Rpc` payloads are opaque
/// bytes that this library recognizes but never materializes as a [`Value`].
#[derive(Debug)]
pub enum WireData {
    Unassigned,
    Boolean(i32),
    Double(u64),
    String(String),
    Raw(Vec<u8>),
    BooleanArray(Vec<i32>),
    DoubleArray(Vec<u64>),
    StringArray(Vec<String>),
    Rpc(Vec<u8>),
}

/// The mathematical model of a [`WireValue`].
#[verifier::ext_equal]
pub struct WireView {
    pub last_change: u64,
    pub data: WireDataView,
}

/// The mathematical model of a [`WireData`].
#[verifier::ext_equal]
pub enum WireDataView {
    Unassigned,
    Boolean(i32),
    Double(u64),
    String(Seq<char>),
    Raw(Seq<u8>),
    BooleanArray(Seq<i32>),
    DoubleArray(Seq<u64>),
    StringArray(Seq<Seq<char>>),
    Rpc(Seq<u8>),
}

impl View for WireData {
    type V = WireDataView;

    open spec fn view(&self) -> WireDataView {
        match self {
            WireData::Unassigned => WireDataView::Unassigned,
            WireData::Boolean(f) => WireDataView::Boolean(*f),
            WireData::Double(d) => WireDataView::Double(*d),
            WireData::String(s) => WireDataView::String(s@),
            WireData::Raw(v) => WireDataView::Raw(v@),
            WireData::BooleanArray(v) => WireDataView::BooleanArray(v@),
            WireData::DoubleArray(v) => WireDataView::DoubleArray(v@),
            WireData::StringArray(v) => WireDataView::StringArray(v.deep_view()),
            WireData::Rpc(v) => WireDataView::Rpc(v@),
        }
    }
}

impl View for WireValue {
    type V = WireView;

    open spec fn view(&self) -> WireView {
        WireView { last_change: self.last_change, data: self.data@ }
    }
}

/// The wide flag word the wire ABI uses for one boolean.
pub open spec fn bool_flag(b: bool) -> i32 {
    if b {
        1
    } else {
        0
    }
}

/// The wire payload a given value converts to.
pub open spec fn wire_data_of(v: ValueView) -> WireDataView {
    match v {
        ValueView::Bool(b) => WireDataView::Boolean(bool_flag(b)),
        ValueView::BoolArray(s) => WireDataView::BooleanArray(s.map_values(|b: bool| bool_flag(b))),
        ValueView::Double(d) => WireDataView::Double(d),
        ValueView::DoubleArray(s) => WireDataView::DoubleArray(s),
        ValueView::String(s) => WireDataView::String(s),
        ValueView::StringArray(s) => WireDataView::StringArray(s),
        ValueView::Raw(s) => WireDataView::Raw(s),
    }
}

/// The whole wire value a given value converts to, under a given stamp.
pub open spec fn wire_of(v: ValueView, last_change: u64) -> WireView {
    WireView { last_change, data: wire_data_of(v) }
}

/// True of the wire tags that carry an actual value: everything except
/// `Unassigned` (no entry) and `Rpc` (recognized, never materialized).
pub open spec fn is_value_data(d: WireDataView) -> bool {
    !(d is Unassigned) && !(d is Rpc)
}

/// The value a wire payload reads back as. Meaningful only where
/// [`is_value_data`] holds.
pub open spec fn value_of_wire(d: WireDataView) -> ValueView {
    match d {
        WireDataView::Boolean(f) => ValueView::Bool(f != 0),
        WireDataView::Double(d) => ValueView::Double(d),
        WireDataView::String(s) => ValueView::String(s),
        WireDataView::Raw(s) => ValueView::Raw(s),
        WireDataView::BooleanArray(s) => ValueView::BoolArray(
            s.map_values(|f: i32| f != 0),
        ),
        WireDataView::DoubleArray(s) => ValueView::DoubleArray(s),
        WireDataView::StringArray(s) => ValueView::StringArray(s),
        WireDataView::Unassigned => arbitrary(),
        WireDataView::Rpc(_) => arbitrary(),
    }
}

/// Expands a packed boolean sequence into one wide flag word per element,
/// as the wire ABI requires.
fn expand_bools(v: &Vec<bool>) -> (r: Vec<i32>)
    ensures
        r@ == v@.map_values(|b: bool| bool_flag(b)),
{
    let mut r: Vec<i32> = Vec::new();
    let mut i: usize = 0;
    while i < v.len()
        invariant
            i <= v.len(),
            r@.len() == i,
            forall|j: int| 0 <= j < i ==> r@[j] == bool_flag(v@[j]),
        decreases v.len() - i,
    {
        r.push(if v[i] {
            1
        } else {
            0
        });
        i = i + 1;
    }
    proof {
        assert(r@ =~= v@.map_values(|b: bool| bool_flag(b)));
    }
    r
}

/// Narrows wide flag words back into booleans: any nonzero flag is true.
fn narrow_flags(v: &Vec<i32>) -> (r: Vec<bool>)
    ensures
        r@ == v@.map_values(|f: i32| f != 0),
{
    let mut r: Vec<bool> = Vec::new();
    let mut i: usize = 0;
    while i < v.len()
        invariant
            i <= v.len(),
            r@.len() == i,
            forall|j: int| 0 <= j < i ==> r@[j] == (v@[j] != 0),
        decreases v.len() - i,
    {
        r.push(v[i] != 0);
        i = i + 1;
    }
    proof {
        assert(r@ =~= v@.map_values(|f: i32| f != 0));
    }
    r
}

/// Copies every element of a vector of plain values into a fresh vector.
fn copy_items<T: Copy>(v: &Vec<T>) -> (r: Vec<T>)
    ensures
        r@ == v@,
{
    let mut r: Vec<T> = Vec::new();
    let mut i: usize = 0;
    while i < v.len()
        invariant
            i <= v.len(),
            r@.len() == i,
            forall|j: int| 0 <= j < i ==> r@[j] == v@[j],
        decreases v.len() - i,
    {
        r.push(v[i]);
        i = i + 1;
    }
    proof {
        assert(r@ =~= v@);
    }
    r
}

/// Copies every string of a vector into a fresh vector of fresh strings.
fn copy_strings(v: &Vec<String>) -> (r: Vec<String>)
    ensures
        r@ == v@,
{
    let mut r: Vec<String> = Vec::new();
    let mut i: usize = 0;
    while i < v.len()
        invariant
            i <= v.len(),
            r@.len() == i,
            forall|j: int| 0 <= j < i ==> r@[j] == v@[j],
        decreases v.len() - i,
    {
        r.push(v[i].clone());
        i = i + 1;
    }
    proof {
        assert(r@ =~= v@);
    }
    r
}

impl WireValue {
    /// Deep-copies this wire value into freshly owned buffers, exactly as
    /// the service does when a value is read out of the store.
    pub fn duplicate(&self) -> (w: WireValue)
        ensures
            w@ == self@,
    {
        let data = match &self.data {
            WireData::Unassigned => WireData::Unassigned,
            WireData::Boolean(f) => WireData::Boolean(*f),
            WireData::Double(d) => WireData::Double(*d),
            WireData::String(s) => WireData::String(s.clone()),
            WireData::Raw(v) => WireData::Raw(copy_items(v)),
            WireData::BooleanArray(v) => WireData::BooleanArray(copy_items(v)),
            WireData::DoubleArray(v) => WireData::DoubleArray(copy_items(v)),
            WireData::StringArray(v) => WireData::StringArray(copy_strings(v)),
            WireData::Rpc(v) => WireData::Rpc(copy_items(v)),
        };
        WireValue { last_change: self.last_change, data }
    }
}

/// Converts a value into its wire shape under the given change stamp.
///
/// Ownership of every payload buffer passes to the returned wire value; the
/// caller keeps it alive until whatever consumes the wire value has read it,
/// and dropping the wire value releases the buffers exactly once. A boolean
/// sequence is expanded into one wide flag per element, each 0 or 1,
/// matching the source booleans positionally.
pub fn to_wire(value: Value, last_change: u64) -> (w: WireValue)
    ensures
        w@ == wire_of(value@, last_change),
        is_value_data(w@.data),
        value matches Value::BoolArray(b) ==> {
            &&& w@.data matches WireDataView::BooleanArray(flags)
            &&& flags.len() == b@.len()
            &&& forall|i: int|
                0 <= i < b@.len() ==> #[trigger] flags[i] == bool_flag(b@[i]) && (flags[i] == 0
                    || flags[i] == 1)
        },
{
    let data = match value {
        Value::Bool(b) => WireData::Boolean(if b {
            1
        } else {
            0
        }),
        Value::BoolArray(v) => WireData::BooleanArray(expand_bools(&v)),
        Value::Double(d) => WireData::Double(d),
        Value::DoubleArray(v) => WireData::DoubleArray(v),
        Value::String(s) => WireData::String(s),
        Value::StringArray(v) => WireData::StringArray(v),
        Value::Raw(v) => WireData::Raw(v),
    };
    WireValue { last_change, data }
}

/// Failure of a wire read that is recoverable by the caller.
#[derive(Copy, Clone, Debug, PartialEq, Eq, Structural)]
pub enum WireError {
    /// The wire value carries a tag this library recognizes but does not
    /// materialize as a [`Value`] (the RPC kind).
    UnsupportedType,
}

/// Reads a wire value back into an owned [`Value`].
///
/// The wire value is consumed: its buffers either move into the returned
/// value or are dropped here, so its disposal happens exactly once whatever
/// the outcome. Reading an unassigned wire value is a caller error — callers
/// check existence first — so it is excluded ahead of the call. An RPC-typed
/// wire value is refused explicitly, never treated as raw bytes.
pub fn from_wire(wire: WireValue) -> (r: Result<Value, WireError>)
    requires
        !(wire@.data is Unassigned),
    ensures
        r is Err <==> wire@.data is Rpc,
        r matches Err(e) ==> e == WireError::UnsupportedType,
        r matches Ok(v) ==> v@ == value_of_wire(wire@.data),
{
    match wire.data {
        WireData::Boolean(f) => Ok(Value::Bool(f != 0)),
        WireData::Double(d) => Ok(Value::Double(d)),
        WireData::String(s) => Ok(Value::String(s)),
        WireData::Raw(v) => Ok(Value::Raw(v)),
        WireData::BooleanArray(v) => Ok(Value::BoolArray(narrow_flags(&v))),
        WireData::DoubleArray(v) => Ok(Value::DoubleArray(v)),
        WireData::StringArray(v) => Ok(Value::StringArray(v)),
        WireData::Rpc(_) => Err(WireError::UnsupportedType),
        WireData::Unassigned => unreached(),
    }
}

/// Compares two boolean vectors by contents.
fn vec_eq_bool(a: &Vec<bool>, b: &Vec<bool>) -> (r: bool)
    ensures
        r == (a@ == b@),
{
    if a.len() != b.len() {
        proof {
            assert(a@ != b@);
        }
        return false;
    }
    let mut i: usize = 0;
    while i < a.len()
        invariant
            a@.len() == b@.len(),
            i <= a@.len(),
            forall|j: int| 0 <= j < i ==> a@[j] == b@[j],
        decreases a@.len() - i,
    {
        if a[i] != b[i] {
            proof {
                assert(a@[i as int] != b@[i as int]);
            }
            return false;
        }
        i = i + 1;
    }
    proof {
        assert(a@ =~= b@);
    }
    true
}

/// Compares two vectors of 64-bit words by contents.
fn vec_eq_u64(a: &Vec<u64>, b: &Vec<u64>) -> (r: bool)
    ensures
        r == (a@ == b@),
{
    if a.len() != b.len() {
        proof {
            assert(a@ != b@);
        }
        return false;
    }
    let mut i: usize = 0;
    while i < a.len()
        invariant
            a@.len() == b@.len(),
            i <= a@.len(),
            forall|j: int| 0 <= j < i ==> a@[j] == b@[j],
        decreases a@.len() - i,
    {
        if a[i] != b[i] {
            proof {
                assert(a@[i as int] != b@[i as int]);
            }
            return false;
        }
        i = i + 1;
    }
    proof {
        assert(a@ =~= b@);
    }
    true
}

/// Compares two byte vectors by contents.
fn vec_eq_u8(a: &Vec<u8>, b: &Vec<u8>) -> (r: bool)
    ensures
        r == (a@ == b@),
{
    if a.len() != b.len() {
        proof {
            assert(a@ != b@);
        }
        return false;
    }
    let mut i: usize = 0;
    while i < a.len()
        invariant
            a@.len() == b@.len(),
            i <= a@.len(),
            forall|j: int| 0 <= j < i ==> a@[j] == b@[j],
        decreases a@.len() - i,
    {
        if a[i] != b[i] {
            proof {
                assert(a@[i as int] != b@[i as int]);
            }
            return false;
        }
        i = i + 1;
    }
    proof {
        assert(a@ =~= b@);
    }
    true
}

/// Compares two string vectors by contents.
fn vec_eq_string(a: &Vec<String>, b: &Vec<String>) -> (r: bool)
    ensures
        r == (a.deep_view() == b.deep_view()),
{
    if a.len() != b.len() {
        proof {
            assert(a.deep_view().len() != b.deep_view().len());
        }
        return false;
    }
    let mut i: usize = 0;
    while i < a.len()
        invariant
            a@.len() == b@.len(),
            i <= a@.len(),
            forall|j: int| 0 <= j < i ==> a.deep_view()[j] == b.deep_view()[j],
        decreases a@.len() - i,
    {
        if !(a[i] == b[i]) {
            proof {
                assert(a.deep_view()[i as int] != b.deep_view()[i as int]);
            }
            return false;
        }
        i = i + 1;
    }
    proof {
        assert(a.deep_view() =~= b.deep_view());
    }
    true
}

impl PartialEq for Value {
    /// Two values are equal when the same variant is active and the
    /// payloads are equal by contents.
    fn eq(&self, other: &Value) -> (r: bool) {
        match (self, other) {
            (Value::Bool(a), Value::Bool(b)) => *a == *b,
            (Value::BoolArray(a), Value::BoolArray(b)) => vec_eq_bool(a, b),
            (Value::Double(a), Value::Double(b)) => *a == *b,
            (Value::DoubleArray(a), Value::DoubleArray(b)) => vec_eq_u64(a, b),
            (Value::String(a), Value::String(b)) => *a == *b,
            (Value::StringArray(a), Value::StringArray(b)) => vec_eq_string(a, b),
            (Value::Raw(a), Value::Raw(b)) => vec_eq_u8(a, b),
            _ => false,
        }
    }
}

impl vstd::std_specs::cmp::PartialEqSpecImpl for Value {
    open spec fn obeys_eq_spec() -> bool {
        true
    }

    open spec fn eq_spec(&self, other: &Value) -> bool {
        self@ == other@
    }
}

/// Law: converting any value to its wire shape and reading it back yields
/// the same value, for every change stamp, empty sequences and zero-length
/// strings included.
pub proof fn lemma_wire_round_trip(v: ValueView, last_change: u64)
    ensures
        is_value_data(wire_of(v, last_change).data),
        value_of_wire(wire_of(v, last_change).data) == v,
{
    match v {
        ValueView::BoolArray(s) => {
            let expanded = s.map_values(|b: bool| bool_flag(b));
            assert(expanded.map_values(|f: i32| f != 0) =~= s);
        },
        _ => {},
    }
}

} // verus!
