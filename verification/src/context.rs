//! The typed key/value store that rules share during one traversal.

use crate::error::{RuleError, RuleResult};
use vstd::hash_map::StringHashMap;
use vstd::prelude::*;
use vstd::string::StringExecFns;

verus! {

/// What a stored value is, as plain data.
///
/// A float is held as its 64-bit IEEE 754 pattern, so that two values are the
/// same exactly when their bits are.
pub enum ValueView {
    Bool(bool),
    Int(i64),
    Float(u64),
    Text(Seq<char>),
    Bytes(Seq<u8>),
}

/// The contents of a context: at most one value for each key.
pub type ContextView = Map<Seq<char>, ValueView>;

/// A value of one of the five kinds that a context can hold.
#[derive(Debug)]
pub enum ContextValue {
    Bool(bool),
    Int(i64),
    /// A float, as its 64-bit IEEE 754 pattern.
    Float(u64),
    String(String),
    Bytes(Vec<u8>),
}

impl View for ContextValue {
    type V = ValueView;

    open spec fn view(&self) -> ValueView {
        match *self {
            ContextValue::Bool(v) => ValueView::Bool(v),
            ContextValue::Int(v) => ValueView::Int(v),
            ContextValue::Float(v) => ValueView::Float(v),
            ContextValue::String(v) => ValueView::Text(v@),
            ContextValue::Bytes(v) => ValueView::Bytes(v@),
        }
    }
}

/// The error of a typed read that did not find a value of the kind `expected` under `key`.
pub open spec fn mismatch(key: &'static str, expected: &'static str) -> RuleError {
    RuleError::TypeMismatch { key, expected }
}

/// What reading `v` as a boolean gives.
pub open spec fn bool_of(v: ValueView) -> RuleResult<bool> {
    match v {
        ValueView::Bool(b) => Ok(b),
        _ => Err(mismatch("unknown", "bool")),
    }
}

/// What reading `v` as an integer gives.
pub open spec fn int_of(v: ValueView) -> RuleResult<i64> {
    match v {
        ValueView::Int(i) => Ok(i),
        _ => Err(mismatch("unknown", "i64")),
    }
}

/// What reading `v` as a float gives: the bits of the float.
pub open spec fn float_of(v: ValueView) -> RuleResult<u64> {
    match v {
        ValueView::Float(bits) => Ok(bits),
        _ => Err(mismatch("unknown", "f64")),
    }
}

/// What reading `v` as a string gives.
pub open spec fn text_of(v: ValueView) -> RuleResult<Seq<char>> {
    match v {
        ValueView::Text(s) => Ok(s),
        _ => Err(mismatch("unknown", "String")),
    }
}

/// What reading `v` as a byte sequence gives.
pub open spec fn bytes_of(v: ValueView) -> RuleResult<Seq<u8>> {
    match v {
        ValueView::Bytes(s) => Ok(s),
        _ => Err(mismatch("unknown", "Vec<u8>")),
    }
}

/// What a borrowed string result holds.
pub open spec fn str_result_view(r: RuleResult<&str>) -> RuleResult<Seq<char>> {
    match r {
        Ok(s) => Ok(s@),
        Err(e) => Err(e),
    }
}

/// What a borrowed byte-slice result holds.
pub open spec fn slice_result_view(r: RuleResult<&[u8]>) -> RuleResult<Seq<u8>> {
    match r {
        Ok(s) => Ok(s@),
        Err(e) => Err(e),
    }
}

impl ContextValue {
    /// The boolean in this value, or a `TypeMismatch` if it holds another kind.
    pub fn as_bool(&self) -> (r: RuleResult<bool>)
        ensures
            r == bool_of(self@),
    {
        match self {
            ContextValue::Bool(v) => Ok(*v),
            _ => Err(RuleError::TypeMismatch { key: "unknown", expected: "bool" }),
        }
    }

    /// The integer in this value, or a `TypeMismatch` if it holds another kind.
    pub fn as_int(&self) -> (r: RuleResult<i64>)
        ensures
            r == int_of(self@),
    {
        match self {
            ContextValue::Int(v) => Ok(*v),
            _ => Err(RuleError::TypeMismatch { key: "unknown", expected: "i64" }),
        }
    }

    /// The bits of the float in this value, or a `TypeMismatch` if it holds another kind.
    pub fn as_float(&self) -> (r: RuleResult<u64>)
        ensures
            r == float_of(self@),
    {
        match self {
            ContextValue::Float(v) => Ok(*v),
            _ => Err(RuleError::TypeMismatch { key: "unknown", expected: "f64" }),
        }
    }

    /// The string in this value, or a `TypeMismatch` if it holds another kind.
    pub fn as_string(&self) -> (r: RuleResult<&str>)
        ensures
            str_result_view(r) == text_of(self@),
    {
        match self {
            ContextValue::String(v) => Ok(v.as_str()),
            _ => Err(RuleError::TypeMismatch { key: "unknown", expected: "String" }),
        }
    }

    /// The bytes in this value, or a `TypeMismatch` if it holds another kind.
    pub fn as_bytes(&self) -> (r: RuleResult<&[u8]>)
        ensures
            slice_result_view(r) == bytes_of(self@),
    {
        match self {
            ContextValue::Bytes(v) => Ok(v.as_slice()),
            _ => Err(RuleError::TypeMismatch { key: "unknown", expected: "Vec<u8>" }),
        }
    }

    /// A second value with the same contents.
    fn duplicate(&self) -> (copy: ContextValue)
        ensures
            copy@ == self@,
    {
        match self {
            ContextValue::Bool(v) => ContextValue::Bool(*v),
            ContextValue::Int(v) => ContextValue::Int(*v),
            ContextValue::Float(v) => ContextValue::Float(*v),
            ContextValue::String(v) => ContextValue::String(v.clone()),
            ContextValue::Bytes(v) => ContextValue::Bytes(v.clone()),
        }
    }
}

/// What a typed read of `key` gives in a context with the contents `ctx`:
/// what `convert` finds in the value under `key`, or a `TypeMismatch` that
/// names `key` and `expected`, both where the context holds nothing under
/// `key` and where the value there is of another kind.
pub open spec fn read<T>(
    ctx: ContextView,
    key: &'static str,
    expected: &'static str,
    convert: spec_fn(ValueView) -> RuleResult<T>,
) -> RuleResult<T> {
    if ctx.contains_key(key@) && convert(ctx[key@]) is Ok {
        convert(ctx[key@])
    } else {
        Err(mismatch(key, expected))
    }
}

/// What `get_bool` gives for `key`.
pub open spec fn read_bool(ctx: ContextView, key: &'static str) -> RuleResult<bool> {
    read(ctx, key, "bool", |v: ValueView| bool_of(v))
}

/// What `get_int` gives for `key`.
pub open spec fn read_int(ctx: ContextView, key: &'static str) -> RuleResult<i64> {
    read(ctx, key, "i64", |v: ValueView| int_of(v))
}

/// What `get_float` gives for `key`.
pub open spec fn read_float(ctx: ContextView, key: &'static str) -> RuleResult<u64> {
    read(ctx, key, "f64", |v: ValueView| float_of(v))
}

/// What `get_string` gives for `key`.
pub open spec fn read_text(ctx: ContextView, key: &'static str) -> RuleResult<Seq<char>> {
    read(ctx, key, "String", |v: ValueView| text_of(v))
}

/// What `get_bytes` gives for `key`.
pub open spec fn read_bytes(ctx: ContextView, key: &'static str) -> RuleResult<Seq<u8>> {
    read(ctx, key, "Vec<u8>", |v: ValueView| bytes_of(v))
}

/// The typed key/value store that one traversal hands to every rule it visits.
pub struct RuleContext {
    context_map: StringHashMap<ContextValue>,
}

impl View for RuleContext {
    type V = ContextView;

    closed spec fn view(&self) -> ContextView {
        self.context_map@.map_values(|v: ContextValue| v@)
    }
}

impl RuleContext {
    /// An empty context.
    pub fn new() -> (ctx: Self)
        ensures
            ctx@ == ContextView::empty(),
    {
        let ctx = RuleContext { context_map: StringHashMap::new() };
        assert(ctx@ =~= ContextView::empty());
        ctx
    }

    fn put(&mut self, key: &'static str, value: ContextValue)
        ensures
            final(self)@ == old(self)@.insert(key@, value@),
    {
        self.context_map.insert(String::from_str(key), value);
        assert(self@ =~= old(self)@.insert(key@, value@));
    }

    fn lookup(&self, key: &'static str) -> (found: Option<&ContextValue>)
        ensures
            match found {
                Some(v) => self@.contains_key(key@) && v@ == self@[key@],
                None => !self@.contains_key(key@),
            },
    {
        self.context_map.get(key)
    }

    /// Stores a boolean under `key`, in place of whatever was there.
    pub fn set_bool(&mut self, key: &'static str, value: bool)
        ensures
            final(self)@ == old(self)@.insert(key@, ValueView::Bool(value)),
    {
        self.put(key, ContextValue::Bool(value));
    }

    /// Stores an integer under `key`, in place of whatever was there.
    pub fn set_int(&mut self, key: &'static str, value: i64)
        ensures
            final(self)@ == old(self)@.insert(key@, ValueView::Int(value)),
    {
        self.put(key, ContextValue::Int(value));
    }

    /// Stores a float, given by its bits, under `key`, in place of whatever was there.
    pub fn set_float(&mut self, key: &'static str, value: u64)
        ensures
            final(self)@ == old(self)@.insert(key@, ValueView::Float(value)),
    {
        self.put(key, ContextValue::Float(value));
    }

    /// Stores a string under `key`, in place of whatever was there.
    pub fn set_string(&mut self, key: &'static str, value: String)
        ensures
            final(self)@ == old(self)@.insert(key@, ValueView::Text(value@)),
    {
        self.put(key, ContextValue::String(value));
    }

    /// Stores a byte sequence under `key`, in place of whatever was there.
    pub fn set_bytes(&mut self, key: &'static str, value: Vec<u8>)
        ensures
            final(self)@ == old(self)@.insert(key@, ValueView::Bytes(value@)),
    {
        self.put(key, ContextValue::Bytes(value));
    }

    /// The boolean under `key`; a `TypeMismatch` that names `key` if
    /// the key is absent or holds another kind.
    pub fn get_bool(&self, key: &'static str) -> (r: RuleResult<bool>)
        ensures
            r == read_bool(self@, key),
    {
        match self.lookup(key) {
            Some(v) => match v.as_bool() {
                Ok(found) => Ok(found),
                Err(_) => Err(RuleError::TypeMismatch { key, expected: "bool" }),
            },
            None => Err(RuleError::TypeMismatch { key, expected: "bool" }),
        }
    }

    /// The integer under `key`; a `TypeMismatch` that names `key` if
    /// the key is absent or holds another kind.
    pub fn get_int(&self, key: &'static str) -> (r: RuleResult<i64>)
        ensures
            r == read_int(self@, key),
    {
        match self.lookup(key) {
            Some(v) => match v.as_int() {
                Ok(found) => Ok(found),
                Err(_) => Err(RuleError::TypeMismatch { key, expected: "i64" }),
            },
            None => Err(RuleError::TypeMismatch { key, expected: "i64" }),
        }
    }

    /// The bits of the float under `key`; a `TypeMismatch` that names `key` if
    /// the key is absent or holds another kind.
    pub fn get_float(&self, key: &'static str) -> (r: RuleResult<u64>)
        ensures
            r == read_float(self@, key),
    {
        match self.lookup(key) {
            Some(v) => match v.as_float() {
                Ok(found) => Ok(found),
                Err(_) => Err(RuleError::TypeMismatch { key, expected: "f64" }),
            },
            None => Err(RuleError::TypeMismatch { key, expected: "f64" }),
        }
    }

    /// The string under `key`; a `TypeMismatch` that names `key` if
    /// the key is absent or holds another kind.
    pub fn get_string(&self, key: &'static str) -> (r: RuleResult<&str>)
        ensures
            str_result_view(r) == read_text(self@, key),
    {
        match self.lookup(key) {
            Some(v) => match v.as_string() {
                Ok(found) => Ok(found),
                Err(_) => Err(RuleError::TypeMismatch { key, expected: "String" }),
            },
            None => Err(RuleError::TypeMismatch { key, expected: "String" }),
        }
    }

    /// The bytes under `key`; a `TypeMismatch` that names `key` if
    /// the key is absent or holds another kind.
    pub fn get_bytes(&self, key: &'static str) -> (r: RuleResult<&[u8]>)
        ensures
            slice_result_view(r) == read_bytes(self@, key),
    {
        match self.lookup(key) {
            Some(v) => match v.as_bytes() {
                Ok(found) => Ok(found),
                Err(_) => Err(RuleError::TypeMismatch { key, expected: "Vec<u8>" }),
            },
            None => Err(RuleError::TypeMismatch { key, expected: "Vec<u8>" }),
        }
    }

    /// Whether a value of any kind is stored under `key`.
    pub fn contains_key(&self, key: &'static str) -> (found: bool)
        ensures
            found == self@.contains_key(key@),
    {
        self.context_map.contains_key(key)
    }

    /// Takes the value under `key` out of the context and returns it, if there is one.
    pub fn remove(&mut self, key: &'static str) -> (previous: Option<ContextValue>)
        ensures
            final(self)@ == old(self)@.remove(key@),
            match previous {
                Some(v) => old(self)@.contains_key(key@) && v@ == old(self)@[key@],
                None => !old(self)@.contains_key(key@),
            },
    {
        let previous = match self.context_map.get(key) {
            Some(v) => Some(v.duplicate()),
            None => None,
        };
        self.context_map.remove(key);
        assert(self@ =~= old(self)@.remove(key@));
        previous
    }

    /// Empties the context.
    pub fn clear(&mut self)
        ensures
            final(self)@ == ContextView::empty(),
    {
        self.context_map.clear();
        assert(self@ =~= ContextView::empty());
    }
}

impl Default for RuleContext {
    fn default() -> (ctx: Self)
        ensures
            ctx@ == ContextView::empty(),
    {
        RuleContext::new()
    }
}

/// Round trip: after a value of some kind is stored under a key, the read of
/// that kind returns it unchanged, and the read of every other kind fails with
/// a `TypeMismatch` that names the key and the kind that was asked for.
pub proof fn lemma_read_after_write(ctx: ContextView, key: &'static str, value: ValueView)
    ensures
        read_bool(ctx.insert(key@, value), key) == match value {
            ValueView::Bool(b) => Ok(b),
            _ => Err(mismatch(key, "bool")),
        },
        read_int(ctx.insert(key@, value), key) == match value {
            ValueView::Int(i) => Ok(i),
            _ => Err(mismatch(key, "i64")),
        },
        read_float(ctx.insert(key@, value), key) == match value {
            ValueView::Float(bits) => Ok(bits),
            _ => Err(mismatch(key, "f64")),
        },
        read_text(ctx.insert(key@, value), key) == match value {
            ValueView::Text(s) => Ok(s),
            _ => Err(mismatch(key, "String")),
        },
        read_bytes(ctx.insert(key@, value), key) == match value {
            ValueView::Bytes(s) => Ok(s),
            _ => Err(mismatch(key, "Vec<u8>")),
        },
{
}

/// A typed read fails with a `TypeMismatch` that names the key that was read
/// and the kind that was asked for, or it does not fail at all.
pub proof fn lemma_read_names_key(ctx: ContextView, key: &'static str)
    ensures
        read_bool(ctx, key) is Err ==> read_bool(ctx, key)->Err_0 == mismatch(key, "bool"),
        read_int(ctx, key) is Err ==> read_int(ctx, key)->Err_0 == mismatch(key, "i64"),
        read_float(ctx, key) is Err ==> read_float(ctx, key)->Err_0 == mismatch(key, "f64"),
        read_text(ctx, key) is Err ==> read_text(ctx, key)->Err_0 == mismatch(key, "String"),
        read_bytes(ctx, key) is Err ==> read_bytes(ctx, key)->Err_0 == mismatch(key, "Vec<u8>"),
{
}

/// A write under one key leaves the reads of every other key as they were.
pub proof fn lemma_write_elsewhere(
    ctx: ContextView,
    key: &'static str,
    value: ValueView,
    other: &'static str,
)
    requires
        other@ != key@,
    ensures
        read_bool(ctx.insert(key@, value), other) == read_bool(ctx, other),
        read_int(ctx.insert(key@, value), other) == read_int(ctx, other),
        read_float(ctx.insert(key@, value), other) == read_float(ctx, other),
        read_text(ctx.insert(key@, value), other) == read_text(ctx, other),
        read_bytes(ctx.insert(key@, value), other) == read_bytes(ctx, other),
{
}

/// A typed read of a key that the context does not hold fails with a
/// `TypeMismatch` that names the key and the kind that was asked for; in
/// particular every read of an empty context fails so.
pub proof fn lemma_read_missing(ctx: ContextView, key: &'static str)
    requires
        !ctx.contains_key(key@),
    ensures
        read_bool(ctx, key) == Err::<bool, RuleError>(mismatch(key, "bool")),
        read_int(ctx, key) == Err::<i64, RuleError>(mismatch(key, "i64")),
        read_float(ctx, key) == Err::<u64, RuleError>(mismatch(key, "f64")),
        read_text(ctx, key) == Err::<Seq<char>, RuleError>(mismatch(key, "String")),
        read_bytes(ctx, key) == Err::<Seq<u8>, RuleError>(mismatch(key, "Vec<u8>")),
        !ContextView::empty().contains_key(key@),
{
}

} // verus!
