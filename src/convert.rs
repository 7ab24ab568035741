//! Turning one raw string into a value of a declared leaf type.
use vstd::prelude::*;
use vstd::string::{StrSliceExecFns, StringExecFns};
use vstd::utf8::encode_utf8;

use crate::literal::{
    bool_literal, parse_bool, parse_i64, parse_u64, signed_literal, signed_within,
    unsigned_literal, unsigned_within,
};
use crate::scanner::{spans, split_sequence};

verus! {

/// The declared type of a leaf.
#[derive(Debug, PartialEq, Eq)]
pub enum TypeTag {
    Bool,
    I8,
    I16,
    I32,
    I64,
    U8,
    U16,
    U32,
    U64,
    Char,
    /// Text, taken verbatim.
    Text,
    /// The UTF-8 encoding of the text.
    Bytes,
    /// Absent for the empty string, else the inner type.
    Optional(Box<TypeTag>),
    /// Delimited elements, each of the inner type.
    Sequence(Box<TypeTag>),
    /// Delimited elements, the i-th of the i-th type; spans past the arity
    /// are not looked at.
    Tuple(Vec<TypeTag>),
    /// A wrapper read as its inner type.
    Newtype(Box<TypeTag>),
    /// A unit-like marker, written as its declared name.
    UnitMarker(String),
    /// An enumeration, written as one of its variant names.
    Enumeration(Vec<String>),
    /// A map: cannot be written as one string.
    Mapping,
    /// A structure with named fields: cannot be written as one string.
    Record,
    /// A type that would infer its shape from the data.
    Any,
    /// A domain type with a converter of its own (an address, a URL), named
    /// by its kind; the whole text goes to that converter.
    Custom(String),
}

/// A converted leaf value.
#[derive(Debug, PartialEq, Eq)]
pub enum Value {
    Bool(bool),
    Int(i64),
    UInt(u64),
    Char(char),
    Text(String),
    Bytes(Vec<u8>),
    Absent,
    Present(Box<Value>),
    List(Vec<Value>),
    Unit,
    Variant(String),
}

/// Shapes that no single string can stand for.
#[derive(Debug, Clone, Copy, PartialEq, Eq)]
pub enum Composite {
    Maps,
    Structs,
}

/// Why a string could not be converted.
#[derive(Debug, PartialEq, Eq)]
pub enum ConvError {
    Custom(String),
    ParseBool,
    ParseInt(String),
    CannotDeserialize(Composite),
    NotChar(String),
    /// The expected marker name, and the text found.
    NotUnit(String, String),
    NoSuchVariant(String),
    NotSelfDescribing,
}

/// The converters of the domain types that a schema declares as
/// `TypeTag::Custom`, each known by its kind name.
pub trait CustomLeaf {
    /// What converting `s` as a value of the kind `kind` gives: the value,
    /// or the converter's message. An implementation verified with this
    /// library defines it. One written in plain Rust keeps this unspecified
    /// default; nothing then holds its `parse` to the contract below, and
    /// the contracts of `convert` and `hydrate` describe it only as far as
    /// its `parse` keeps to that contract.
    open spec fn parse_spec(&self, kind: Seq<char>, s: Seq<char>) -> Result<Value, Seq<char>> {
        arbitrary()
    }

    /// Converts the whole text `s` to a value of the kind `kind`.
    fn parse(&self, kind: &str, s: &str) -> (r: Result<Value, String>)
        ensures
            match r {
                Ok(v) => self.parse_spec(kind@, s@) == Ok::<Value, Seq<char>>(v),
                Err(m) => self.parse_spec(kind@, s@) == Err::<Value, Seq<char>>(m@),
            },
    ;
}

/// The converters for a schema that declares no domain types: every custom
/// kind is refused.
pub struct NoCustomLeaves;

/// The message with which [`NoCustomLeaves`] refuses a value.
pub open spec fn no_converter_message() -> Seq<char> {
    "no converter for this kind"@
}

impl CustomLeaf for NoCustomLeaves {
    open spec fn parse_spec(&self, kind: Seq<char>, s: Seq<char>) -> Result<Value, Seq<char>> {
        Err(no_converter_message())
    }

    fn parse(&self, kind: &str, s: &str) -> (r: Result<Value, String>) {
        Err(String::from_str("no converter for this kind"))
    }
}

/// The mathematical content of a [`ConvError`].
pub enum Fault {
    Custom(Seq<char>),
    ParseBool,
    ParseInt(Seq<char>),
    CannotDeserialize(Composite),
    NotChar(Seq<char>),
    NotUnit(Seq<char>, Seq<char>),
    NoSuchVariant(Seq<char>),
    NotSelfDescribing,
}

impl View for ConvError {
    type V = Fault;

    open spec fn view(&self) -> Fault {
        match self {
            ConvError::Custom(m) => Fault::Custom(m@),
            ConvError::ParseBool => Fault::ParseBool,
            ConvError::ParseInt(t) => Fault::ParseInt(t@),
            ConvError::CannotDeserialize(c) => Fault::CannotDeserialize(*c),
            ConvError::NotChar(t) => Fault::NotChar(t@),
            ConvError::NotUnit(n, t) => Fault::NotUnit(n@, t@),
            ConvError::NoSuchVariant(t) => Fault::NoSuchVariant(t@),
            ConvError::NotSelfDescribing => Fault::NotSelfDescribing,
        }
    }
}

/// The message of the error for a tuple literal with too few elements.
pub open spec fn too_few_message() -> Seq<char> {
    "too few elements for a tuple"@
}

/// Whether `s` converts to the type `tag`.
pub open spec fn accepts<C: CustomLeaf>(custom: C, s: Seq<char>, tag: TypeTag) -> bool
    decreases tag,
{
    match tag {
        TypeTag::Bool => bool_literal(s) is Some,
        TypeTag::I8 => signed_within(s, i8::MIN as int, i8::MAX as int),
        TypeTag::I16 => signed_within(s, i16::MIN as int, i16::MAX as int),
        TypeTag::I32 => signed_within(s, i32::MIN as int, i32::MAX as int),
        TypeTag::I64 => signed_within(s, i64::MIN as int, i64::MAX as int),
        TypeTag::U8 => unsigned_within(s, u8::MAX as int),
        TypeTag::U16 => unsigned_within(s, u16::MAX as int),
        TypeTag::U32 => unsigned_within(s, u32::MAX as int),
        TypeTag::U64 => unsigned_within(s, u64::MAX as int),
        TypeTag::Char => s.len() == 1,
        TypeTag::Text => true,
        TypeTag::Bytes => true,
        TypeTag::Optional(inner) => s.len() == 0 || accepts(custom, s, *inner),
        TypeTag::Sequence(elem) => forall|i: int|
            0 <= i < spans(s).len() ==> accepts(custom, #[trigger] spans(s)[i], *elem),
        TypeTag::Tuple(tags) => spans(s).len() >= tags.len() && forall|i: int|
            0 <= i < tags.len() ==> accepts(custom, spans(s)[i], #[trigger] tags[i]),
        TypeTag::Newtype(inner) => accepts(custom, s, *inner),
        TypeTag::UnitMarker(name) => s == name@,
        TypeTag::Enumeration(names) => exists|i: int|
            0 <= i < names@.len() && (#[trigger] names@[i])@ == s,
        TypeTag::Mapping => false,
        TypeTag::Record => false,
        TypeTag::Any => false,
        TypeTag::Custom(kind) => custom.parse_spec(kind@, s) is Ok,
    }
}

/// Whether `v` is the value that an accepted `s` converts to under `tag`.
pub open spec fn value_of<C: CustomLeaf>(custom: C, s: Seq<char>, tag: TypeTag, v: Value) -> bool
    decreases tag,
{
    match tag {
        TypeTag::Bool => v == Value::Bool(bool_literal(s)->0),
        TypeTag::I8 | TypeTag::I16 | TypeTag::I32 | TypeTag::I64 => v is Int && v->Int_0 as int
            == signed_literal(s)->0,
        TypeTag::U8 | TypeTag::U16 | TypeTag::U32 | TypeTag::U64 => v is UInt && v->UInt_0 as int
            == unsigned_literal(s)->0,
        TypeTag::Char => v == Value::Char(s[0]),
        TypeTag::Text => v is Text && v->Text_0@ == s,
        TypeTag::Bytes => v is Bytes && v->Bytes_0@ == encode_utf8(s),
        TypeTag::Optional(inner) => if s.len() == 0 {
            v == Value::Absent
        } else {
            v is Present && value_of(custom, s, *inner, *v->Present_0)
        },
        TypeTag::Sequence(elem) => v is List && v->List_0.len() == spans(s).len() && forall|i: int|
            0 <= i < spans(s).len() ==> value_of(
                custom,
                spans(s)[i],
                *elem,
                #[trigger] v->List_0[i],
            ),
        TypeTag::Tuple(tags) => v is List && v->List_0.len() == tags.len() && forall|i: int|
            0 <= i < tags.len() ==> value_of(custom, spans(s)[i], tags[i], #[trigger] v->List_0[i]),
        TypeTag::Newtype(inner) => value_of(custom, s, *inner, v),
        TypeTag::UnitMarker(_) => v == Value::Unit,
        TypeTag::Enumeration(_) => v is Variant && v->Variant_0@ == s,
        TypeTag::Mapping => false,
        TypeTag::Record => false,
        TypeTag::Any => false,
        TypeTag::Custom(kind) => custom.parse_spec(kind@, s) == Ok::<Value, Seq<char>>(v),
    }
}

/// Index of the first item that its type rejects, or the shorter length
/// where every item up to it is accepted.
pub open spec fn first_rejected<C: CustomLeaf>(
    custom: C,
    items: Seq<Seq<char>>,
    tags: Seq<TypeTag>,
) -> int
    decreases items.len(),
{
    if items.len() == 0 || tags.len() == 0 {
        0
    } else if !accepts(custom, items[0], tags[0]) {
        0
    } else {
        1 + first_rejected(custom, items.drop_first(), tags.drop_first())
    }
}

/// `n` copies of `tag`.
pub open spec fn repeat(tag: TypeTag, n: nat) -> Seq<TypeTag> {
    Seq::new(n, |_i: int| tag)
}

/// The error that a rejected `s` gives under `tag`.
pub open spec fn error_of<C: CustomLeaf>(custom: C, s: Seq<char>, tag: TypeTag) -> Fault
    decreases tag,
{
    match tag {
        TypeTag::Bool => Fault::ParseBool,
        TypeTag::I8 | TypeTag::I16 | TypeTag::I32 | TypeTag::I64 => Fault::ParseInt(s),
        TypeTag::U8 | TypeTag::U16 | TypeTag::U32 | TypeTag::U64 => Fault::ParseInt(s),
        TypeTag::Char => Fault::NotChar(s),
        TypeTag::Optional(inner) => error_of(custom, s, *inner),
        TypeTag::Sequence(elem) => {
            let k = first_rejected(custom, spans(s), repeat(*elem, spans(s).len()));
            error_of(custom, spans(s)[k], *elem)
        },
        TypeTag::Tuple(tags) => {
            let k = first_rejected(custom, spans(s), tags@);
            if 0 <= k < spans(s).len() && k < tags.len() {
                error_of(custom, spans(s)[k], tags[k])
            } else {
                Fault::Custom(too_few_message())
            }
        },
        TypeTag::Newtype(inner) => error_of(custom, s, *inner),
        TypeTag::UnitMarker(name) => Fault::NotUnit(name@, s),
        TypeTag::Enumeration(_) => Fault::NoSuchVariant(s),
        TypeTag::Mapping => Fault::CannotDeserialize(Composite::Maps),
        TypeTag::Record => Fault::CannotDeserialize(Composite::Structs),
        TypeTag::Any => Fault::NotSelfDescribing,
        TypeTag::Custom(kind) => Fault::Custom(custom.parse_spec(kind@, s)->Err_0),
        TypeTag::Text | TypeTag::Bytes => Fault::NotSelfDescribing,
    }
}

/// What converting `s` under `tag` must give.
pub open spec fn conversion<C: CustomLeaf>(
    custom: C,
    s: Seq<char>,
    tag: TypeTag,
    r: Result<Value, ConvError>,
) -> bool {
    match r {
        Ok(v) => accepts(custom, s, tag) && value_of(custom, s, tag, v),
        Err(e) => !accepts(custom, s, tag) && e@ == error_of(custom, s, tag),
    }
}

/// Under an optional type the empty string is always absent; any other
/// string is present, wrapping its conversion under the inner type, or fails
/// as that conversion does.
pub proof fn lemma_optional<C: CustomLeaf>(
    custom: C,
    s: Seq<char>,
    inner: TypeTag,
    r: Result<Value, ConvError>,
)
    requires
        conversion(custom, s, TypeTag::Optional(Box::new(inner)), r),
    ensures
        s.len() == 0 ==> r == Ok::<Value, ConvError>(Value::Absent),
        s.len() > 0 ==> match r {
            Ok(v) => v is Present && conversion(custom, s, inner, Ok(*v->Present_0)),
            Err(e) => conversion(custom, s, inner, Err(e)),
        },
{
}

proof fn lemma_first_rejected<C: CustomLeaf>(
    custom: C,
    items: Seq<Seq<char>>,
    tags: Seq<TypeTag>,
    k: int,
)
    requires
        0 <= k <= items.len(),
        k <= tags.len(),
        forall|i: int| 0 <= i < k ==> accepts(custom, #[trigger] items[i], tags[i]),
        k == items.len() || k == tags.len() || !accepts(custom, items[k], tags[k]),
    ensures
        first_rejected(custom, items, tags) == k,
    decreases k,
{
    if k > 0 {
        let it = items.drop_first();
        let tg = tags.drop_first();
        assert forall|i: int| 0 <= i < k - 1 implies accepts(custom, #[trigger] it[i], tg[i]) by {
            assert(it[i] == items[i + 1]);
            assert(accepts(custom, items[i + 1], tags[i + 1]));
        }
        lemma_first_rejected(custom, it, tg, k - 1);
    }
}

proof fn lemma_variant_accepted<C: CustomLeaf>(custom: C, s: Seq<char>, names: Vec<String>, j: int)
    requires
        0 <= j < names.len(),
        names@[j]@ == s,
    ensures
        accepts(custom, s, TypeTag::Enumeration(names)),
{
    let t = TypeTag::Enumeration(names);
    assert(t->Enumeration_0 == names);
}

fn text_of(s: &str) -> (r: String)
    ensures
        r@ == s@,
{
    String::from_str(s)
}

fn convert_signed(s: &str, lo: i64, hi: i64) -> (r: Result<Value, ConvError>)
    ensures
        match r {
            Ok(v) => signed_within(s@, lo as int, hi as int) && v is Int && v->Int_0 as int
                == signed_literal(s@)->0,
            Err(e) => !signed_within(s@, lo as int, hi as int) && e@ == Fault::ParseInt(s@),
        },
{
    match parse_i64(s) {
        Some(n) => {
            if lo <= n && n <= hi {
                Ok(Value::Int(n))
            } else {
                Err(ConvError::ParseInt(text_of(s)))
            }
        },
        None => Err(ConvError::ParseInt(text_of(s))),
    }
}

fn convert_unsigned(s: &str, hi: u64) -> (r: Result<Value, ConvError>)
    ensures
        match r {
            Ok(v) => unsigned_within(s@, hi as int) && v is UInt && v->UInt_0 as int
                == unsigned_literal(s@)->0,
            Err(e) => !unsigned_within(s@, hi as int) && e@ == Fault::ParseInt(s@),
        },
{
    match parse_u64(s) {
        Some(n) => {
            if n <= hi {
                Ok(Value::UInt(n))
            } else {
                Err(ConvError::ParseInt(text_of(s)))
            }
        },
        None => Err(ConvError::ParseInt(text_of(s))),
    }
}

/// Converts the raw string `s` to a value of the type `tag`.
pub fn convert<C: CustomLeaf>(s: &str, tag: &TypeTag, custom: &C) -> (r: Result<Value, ConvError>)
    ensures
        conversion(*custom, s@, *tag, r),
    decreases tag, 0nat,
{
    match tag {
        TypeTag::Bool => match parse_bool(s) {
            Some(b) => Ok(Value::Bool(b)),
            None => Err(ConvError::ParseBool),
        },
        TypeTag::I8 => convert_signed(s, i8::MIN as i64, i8::MAX as i64),
        TypeTag::I16 => convert_signed(s, i16::MIN as i64, i16::MAX as i64),
        TypeTag::I32 => convert_signed(s, i32::MIN as i64, i32::MAX as i64),
        TypeTag::I64 => convert_signed(s, i64::MIN, i64::MAX),
        TypeTag::U8 => convert_unsigned(s, u8::MAX as u64),
        TypeTag::U16 => convert_unsigned(s, u16::MAX as u64),
        TypeTag::U32 => convert_unsigned(s, u32::MAX as u64),
        TypeTag::U64 => convert_unsigned(s, u64::MAX),
        TypeTag::Char => {
            if s.unicode_len() == 1 {
                Ok(Value::Char(s.get_char(0)))
            } else {
                Err(ConvError::NotChar(text_of(s)))
            }
        },
        TypeTag::Text => Ok(Value::Text(text_of(s))),
        TypeTag::Bytes => Ok(Value::Bytes(s.as_bytes_vec())),
        TypeTag::Custom(kind) => match custom.parse(kind.as_str(), s) {
            Ok(v) => Ok(v),
            Err(m) => Err(ConvError::Custom(m)),
        },
        TypeTag::Optional(inner) => {
            if s.unicode_len() == 0 {
                Ok(Value::Absent)
            } else {
                match convert(s, inner, custom) {
                    Ok(v) => Ok(Value::Present(Box::new(v))),
                    Err(e) => Err(e),
                }
            }
        },
        TypeTag::Newtype(inner) => convert(s, inner, custom),
        TypeTag::Sequence(elem) => convert_sequence(s, elem, custom),
        TypeTag::Tuple(tags) => convert_tuple(s, tags, custom),
        TypeTag::UnitMarker(name) => {
            let text = text_of(s);
            if text == *name {
                Ok(Value::Unit)
            } else {
                Err(ConvError::NotUnit(name.clone(), text))
            }
        },
        TypeTag::Enumeration(names) => {
            let text = text_of(s);
            let mut i: usize = 0;
            while i < names.len()
                invariant
                    i <= names.len(),
                    text@ == s@,
                    *tag == TypeTag::Enumeration(*names),
                    forall|j: int| 0 <= j < i ==> (#[trigger] names@[j])@ != s@,
                decreases names.len() - i,
            {
                let same = names[i].eq(&text);
                if same {
                    proof {
                        lemma_variant_accepted(*custom, s@, *names, i as int);
                    }
                    return Ok(Value::Variant(text));
                }
                i = i + 1;
            }
            Err(ConvError::NoSuchVariant(text))
        },
        TypeTag::Mapping => Err(ConvError::CannotDeserialize(Composite::Maps)),
        TypeTag::Record => Err(ConvError::CannotDeserialize(Composite::Structs)),
        TypeTag::Any => Err(ConvError::NotSelfDescribing),
    }
}

fn convert_sequence<C: CustomLeaf>(s: &str, elem: &TypeTag, custom: &C) -> (r: Result<
    Value,
    ConvError,
>)
    ensures
        conversion(*custom, s@, TypeTag::Sequence(Box::new(*elem)), r),
    decreases elem, 1nat,
{
    let ghost sp = spans(s@);
    let ghost tags = repeat(*elem, sp.len());
    let items = split_sequence(s);
    let mut out: Vec<Value> = Vec::new();
    let mut i: usize = 0;
    while i < items.len()
        invariant
            i <= items.len(),
            items@.map_values(|x: String| x@) == sp,
            sp == spans(s@),
            tags == repeat(*elem, sp.len()),
            out@.len() == i,
            forall|j: int| 0 <= j < i ==> accepts(*custom, #[trigger] sp[j], *elem),
            forall|j: int| 0 <= j < i ==> value_of(*custom, sp[j], *elem, #[trigger] out@[j]),
        decreases items.len() - i,
    {
        assert(items@.map_values(|x: String| x@)[i as int] == items@[i as int]@);
        match convert(items[i].as_str(), elem, custom) {
            Ok(v) => {
                out.push(v);
            },
            Err(e) => {
                proof {
                    assert forall|j: int|
                        0 <= j < i implies accepts(*custom, #[trigger] sp[j], tags[j]) by {
                    }
                    lemma_first_rejected(*custom, sp, tags, i as int);
                }
                return Err(e);
            },
        }
        i = i + 1;
    }
    proof {
        assert forall|j: int| 0 <= j < sp.len() implies value_of(
            *custom,
            sp[j],
            *elem,
            #[trigger] out@[j],
        ) by {}
    }
    Ok(Value::List(out))
}

fn convert_tuple<C: CustomLeaf>(s: &str, tags: &Vec<TypeTag>, custom: &C) -> (r: Result<
    Value,
    ConvError,
>)
    ensures
        conversion(*custom, s@, TypeTag::Tuple(*tags), r),
    decreases tags, 1nat,
{
    let ghost sp = spans(s@);
    let items = split_sequence(s);
    let mut out: Vec<Value> = Vec::new();
    let mut i: usize = 0;
    while i < tags.len()
        invariant
            i <= tags.len(),
            items@.map_values(|x: String| x@) == sp,
            sp == spans(s@),
            out@.len() == i,
            i <= sp.len(),
            forall|j: int| 0 <= j < i ==> accepts(*custom, sp[j], #[trigger] tags@[j]),
            forall|j: int| 0 <= j < i ==> value_of(*custom, sp[j], tags@[j], #[trigger] out@[j]),
        decreases tags.len() - i,
    {
        if i >= items.len() {
            proof {
                assert forall|j: int|
                    0 <= j < i implies accepts(*custom, #[trigger] sp[j], tags@[j]) by {}
                lemma_first_rejected(*custom, sp, tags@, i as int);
            }
            return Err(ConvError::Custom(String::from_str("too few elements for a tuple")));
        }
        assert(items@.map_values(|x: String| x@)[i as int] == items@[i as int]@);
        match convert(items[i].as_str(), &tags[i], custom) {
            Ok(v) => {
                out.push(v);
            },
            Err(e) => {
                proof {
                    assert forall|j: int|
                    0 <= j < i implies accepts(*custom, #[trigger] sp[j], tags@[j]) by {}
                    lemma_first_rejected(*custom, sp, tags@, i as int);
                }
                return Err(e);
            },
        }
        i = i + 1;
    }
    Ok(Value::List(out))
}

} // verus!
