use vstd::prelude::*;
use crate::error::ConvertError;
use crate::text::str_is;

verus! {

/// What the engine needs of a matrix element: a copyable value whose
/// default is the zero that stands for an absent entry.
pub trait Element: Copy + Default {}

impl<T: Copy + Default> Element for T {}

/// `v` is a value that `T::default()` may return: the element type's zero.
pub open spec fn is_default<T: Default>(v: T) -> bool {
    call_ensures(T::default, (), v)
}

} // verus!

verus! {

/// The numeric element types a matrix can be stored with.
#[derive(Clone, Copy, Debug, PartialEq, Eq, Structural)]
pub enum ElementType {
    Int8,
    Int16,
    Int32,
    Int64,
    Uint8,
    Uint16,
    Uint32,
    Uint64,
    Float32,
    Float64,
}

/// How the bits of a stored number are read.
#[derive(Clone, Copy, Debug, PartialEq, Eq, Structural)]
pub enum NumberKind {
    Signed,
    Unsigned,
    Float,
}

/// The tag that names each element type.
pub open spec fn type_tag(e: ElementType) -> Seq<char> {
    match e {
        ElementType::Int8 => "int8"@,
        ElementType::Int16 => "int16"@,
        ElementType::Int32 => "int32"@,
        ElementType::Int64 => "int64"@,
        ElementType::Uint8 => "uint8"@,
        ElementType::Uint16 => "uint16"@,
        ElementType::Uint32 => "uint32"@,
        ElementType::Uint64 => "uint64"@,
        ElementType::Float32 => "float32"@,
        ElementType::Float64 => "float64"@,
    }
}

/// Every supported tag, in order.
pub open spec fn supported_tags() -> Seq<Seq<char>> {
    seq![
        type_tag(ElementType::Int8),
        type_tag(ElementType::Int16),
        type_tag(ElementType::Int32),
        type_tag(ElementType::Int64),
        type_tag(ElementType::Uint8),
        type_tag(ElementType::Uint16),
        type_tag(ElementType::Uint32),
        type_tag(ElementType::Uint64),
        type_tag(ElementType::Float32),
        type_tag(ElementType::Float64),
    ]
}

/// The element type a tag names, if any.
pub open spec fn element_of_tag(tag: Seq<char>) -> Option<ElementType> {
    if tag == "int8"@ {
        Some(ElementType::Int8)
    } else if tag == "int16"@ {
        Some(ElementType::Int16)
    } else if tag == "int32"@ {
        Some(ElementType::Int32)
    } else if tag == "int64"@ {
        Some(ElementType::Int64)
    } else if tag == "uint8"@ {
        Some(ElementType::Uint8)
    } else if tag == "uint16"@ {
        Some(ElementType::Uint16)
    } else if tag == "uint32"@ {
        Some(ElementType::Uint32)
    } else if tag == "uint64"@ {
        Some(ElementType::Uint64)
    } else if tag == "float32"@ {
        Some(ElementType::Float32)
    } else if tag == "float64"@ {
        Some(ElementType::Float64)
    } else {
        None
    }
}

/// The element type of a number of the given kind stored in `width` bytes.
pub open spec fn element_of_layout(kind: NumberKind, width: nat) -> Option<ElementType> {
    match kind {
        NumberKind::Signed => if width == 1 {
            Some(ElementType::Int8)
        } else if width == 2 {
            Some(ElementType::Int16)
        } else if width == 4 {
            Some(ElementType::Int32)
        } else if width == 8 {
            Some(ElementType::Int64)
        } else {
            None
        },
        NumberKind::Unsigned => if width == 1 {
            Some(ElementType::Uint8)
        } else if width == 2 {
            Some(ElementType::Uint16)
        } else if width == 4 {
            Some(ElementType::Uint32)
        } else if width == 8 {
            Some(ElementType::Uint64)
        } else {
            None
        },
        NumberKind::Float => if width == 4 {
            Some(ElementType::Float32)
        } else if width == 8 {
            Some(ElementType::Float64)
        } else {
            None
        },
    }
}

impl ElementType {
    /// The tag that names this type.
    pub fn tag(&self) -> (r: String)
        ensures
            r@ == type_tag(*self),
    {
        match self {
            ElementType::Int8 => "int8".to_owned(),
            ElementType::Int16 => "int16".to_owned(),
            ElementType::Int32 => "int32".to_owned(),
            ElementType::Int64 => "int64".to_owned(),
            ElementType::Uint8 => "uint8".to_owned(),
            ElementType::Uint16 => "uint16".to_owned(),
            ElementType::Uint32 => "uint32".to_owned(),
            ElementType::Uint64 => "uint64".to_owned(),
            ElementType::Float32 => "float32".to_owned(),
            ElementType::Float64 => "float64".to_owned(),
        }
    }

    /// The tags of all supported types.
    pub fn supported_tags() -> (r: Vec<String>)
        ensures
            r@.map_values(|s: String| s@) == supported_tags(),
    {
        let all: Vec<ElementType> = vec![
            ElementType::Int8,
            ElementType::Int16,
            ElementType::Int32,
            ElementType::Int64,
            ElementType::Uint8,
            ElementType::Uint16,
            ElementType::Uint32,
            ElementType::Uint64,
            ElementType::Float32,
            ElementType::Float64,
        ];
        let mut r: Vec<String> = Vec::new();
        let mut i: usize = 0;
        while i < all.len()
            invariant
                i <= all@.len(),
                all@.len() == 10,
                r@.len() == i,
                forall|j: int| 0 <= j < i ==> #[trigger] r@[j]@ == type_tag(all@[j]),
            decreases all@.len() - i,
        {
            r.push(all[i].tag());
            i = i + 1;
        }
        assert(r@.map_values(|s: String| s@) =~= supported_tags());
        r
    }

    /// Reads an element type from its tag; an unknown tag is an error that
    /// carries the tag and every supported one.
    pub fn from_tag(tag: &str) -> (r: Result<ElementType, ConvertError>)
        ensures
            r is Ok <==> element_of_tag(tag@) is Some,
            r matches Ok(e) ==> element_of_tag(tag@) == Some(e),
            r matches Err(e) ==> (e matches ConvertError::UnsupportedType { tag: t, supported } && t@ == tag@
                && supported@.map_values(|s: String| s@) == supported_tags()),
    {
        if str_is(tag, "int8") {
            Ok(ElementType::Int8)
        } else if str_is(tag, "int16") {
            Ok(ElementType::Int16)
        } else if str_is(tag, "int32") {
            Ok(ElementType::Int32)
        } else if str_is(tag, "int64") {
            Ok(ElementType::Int64)
        } else if str_is(tag, "uint8") {
            Ok(ElementType::Uint8)
        } else if str_is(tag, "uint16") {
            Ok(ElementType::Uint16)
        } else if str_is(tag, "uint32") {
            Ok(ElementType::Uint32)
        } else if str_is(tag, "uint64") {
            Ok(ElementType::Uint64)
        } else if str_is(tag, "float32") {
            Ok(ElementType::Float32)
        } else if str_is(tag, "float64") {
            Ok(ElementType::Float64)
        } else {
            Err(ConvertError::UnsupportedType { tag: tag.to_owned(), supported: ElementType::supported_tags() })
        }
    }

    /// The element type of a number of kind `kind` stored in `width` bytes.
    pub fn from_layout(kind: NumberKind, width: usize) -> (r: Option<ElementType>)
        ensures
            r == element_of_layout(kind, width as nat),
    {
        match kind {
            NumberKind::Signed => if width == 1 {
                Some(ElementType::Int8)
            } else if width == 2 {
                Some(ElementType::Int16)
            } else if width == 4 {
                Some(ElementType::Int32)
            } else if width == 8 {
                Some(ElementType::Int64)
            } else {
                None
            },
            NumberKind::Unsigned => if width == 1 {
                Some(ElementType::Uint8)
            } else if width == 2 {
                Some(ElementType::Uint16)
            } else if width == 4 {
                Some(ElementType::Uint32)
            } else if width == 8 {
                Some(ElementType::Uint64)
            } else {
                None
            },
            NumberKind::Float => if width == 4 {
                Some(ElementType::Float32)
            } else if width == 8 {
                Some(ElementType::Float64)
            } else {
                None
            },
        }
    }
}

} // verus!
