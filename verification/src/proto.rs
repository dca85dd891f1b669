//! The type model: the closed set of primitive C types and the qualifier
//! wrapped around one of them, together with the spelling of each in the two
//! target languages.
//!
//! The native spelling is used verbatim in the glue translation unit; the
//! foreign spelling is what the declaration module imports.  References and
//! pointers spell the same on the native side because the fixed C-linkage
//! convention passes both across the boundary as pointers.

use vstd::prelude::*;

use crate::text::emit;
use crate::text::lemma_cat_assoc;

verus! {

/// Mathematical image of a `CType`: the custom spelling is a plain
/// character sequence.
pub enum CTypeView {
    Void,
    UChar,
    UInt,
    SizeT,
    Long,
    Custom(Seq<char>),
}

/// Mathematical image of a `BasicType`.
pub enum BasicTypeView {
    Simple(CTypeView),
    MutPointer(CTypeView),
    ConstPointer(CTypeView),
    MutRef(CTypeView),
    ConstRef(CTypeView),
}

/// A primitive type of the wrapped native surface.  `Custom` carries the
/// native spelling of an opaque type and is used verbatim on the native side
/// only; the foreign side sees it as an opaque pointee.
pub enum CType {
    Void,
    UChar,
    UInt,
    SizeT,
    Long,
    Custom(String),
}

/// A primitive type together with its qualifier.  Reference qualifiers only
/// make sense for parameters; the trampoline body forwards them with one
/// dereference (see the signature renderings).
pub enum BasicType {
    Simple(CType),
    MutPointer(CType),
    ConstPointer(CType),
    MutRef(CType),
    ConstRef(CType),
}

impl View for CType {
    type V = CTypeView;

    open spec fn view(&self) -> CTypeView {
        match self {
            CType::Void => CTypeView::Void,
            CType::UChar => CTypeView::UChar,
            CType::UInt => CTypeView::UInt,
            CType::SizeT => CTypeView::SizeT,
            CType::Long => CTypeView::Long,
            CType::Custom(s) => CTypeView::Custom(s@),
        }
    }
}

impl View for BasicType {
    type V = BasicTypeView;

    open spec fn view(&self) -> BasicTypeView {
        match self {
            BasicType::Simple(t) => BasicTypeView::Simple(t@),
            BasicType::MutPointer(t) => BasicTypeView::MutPointer(t@),
            BasicType::ConstPointer(t) => BasicTypeView::ConstPointer(t@),
            BasicType::MutRef(t) => BasicTypeView::MutRef(t@),
            BasicType::ConstRef(t) => BasicTypeView::ConstRef(t@),
        }
    }
}

/// Native spelling of a primitive type.
pub open spec fn ctype_cpp(t: CTypeView) -> Seq<char> {
    match t {
        CTypeView::Void => "void"@,
        CTypeView::UChar => "unsigned char"@,
        CTypeView::UInt => "unsigned int"@,
        CTypeView::SizeT => "size_t"@,
        CTypeView::Long => "long"@,
        CTypeView::Custom(s) => s,
    }
}

/// Foreign spelling of a primitive type.  A custom native type is never
/// named on the foreign side: it collapses to the opaque pointee spelling.
pub open spec fn ctype_rs(t: CTypeView) -> Seq<char> {
    match t {
        CTypeView::Void => "c_void"@,
        CTypeView::UChar => "c_uchar"@,
        CTypeView::UInt => "c_uint"@,
        CTypeView::SizeT => "size_t"@,
        CTypeView::Long => "c_long"@,
        CTypeView::Custom(_) => "c_void"@,
    }
}

/// Native spelling of a qualified type: pointers and references both render
/// as pointers, `const` ones with a ` const*` suffix.
pub open spec fn basic_cpp(t: BasicTypeView) -> Seq<char> {
    match t {
        BasicTypeView::Simple(c) => ctype_cpp(c),
        BasicTypeView::MutPointer(c) => ctype_cpp(c) + "*"@,
        BasicTypeView::MutRef(c) => ctype_cpp(c) + "*"@,
        BasicTypeView::ConstPointer(c) => ctype_cpp(c) + " const*"@,
        BasicTypeView::ConstRef(c) => ctype_cpp(c) + " const*"@,
    }
}

/// Foreign spelling of a qualified type.
pub open spec fn basic_rs(t: BasicTypeView) -> Seq<char> {
    match t {
        BasicTypeView::Simple(c) => ctype_rs(c),
        BasicTypeView::MutPointer(c) => "*mut "@ + ctype_rs(c),
        BasicTypeView::MutRef(c) => "*mut "@ + ctype_rs(c),
        BasicTypeView::ConstPointer(c) => "*const "@ + ctype_rs(c),
        BasicTypeView::ConstRef(c) => "*const "@ + ctype_rs(c),
    }
}

/// Whether a qualified type is exactly the bare `void`.
pub open spec fn spec_is_void(t: BasicTypeView) -> bool {
    t == BasicTypeView::Simple(CTypeView::Void)
}

/// Whether a qualified type is a reference parameter, which the trampoline
/// body must dereference when forwarding.
pub open spec fn spec_is_ref(t: BasicTypeView) -> bool {
    t is MutRef || t is ConstRef
}

impl CType {
    /// Writes the native spelling of this primitive type.
    pub fn generate_cpp(&self, out_stream: &mut String)
        ensures
            final(out_stream)@ == old(out_stream)@ + ctype_cpp(self@),
    {
        match self {
            CType::Void => emit(out_stream, "void"),
            CType::UChar => emit(out_stream, "unsigned char"),
            CType::UInt => emit(out_stream, "unsigned int"),
            CType::SizeT => emit(out_stream, "size_t"),
            CType::Long => emit(out_stream, "long"),
            CType::Custom(s) => emit(out_stream, s.as_str()),
        }
    }

    /// Writes the foreign spelling of this primitive type.
    pub fn generate_rs(&self, out_stream: &mut String)
        ensures
            final(out_stream)@ == old(out_stream)@ + ctype_rs(self@),
    {
        match self {
            CType::Void => emit(out_stream, "c_void"),
            CType::UChar => emit(out_stream, "c_uchar"),
            CType::UInt => emit(out_stream, "c_uint"),
            CType::SizeT => emit(out_stream, "size_t"),
            CType::Long => emit(out_stream, "c_long"),
            CType::Custom(_) => emit(out_stream, "c_void"),
        }
    }
}

impl BasicType {
    /// Whether this is the bare `void` type.
    pub fn is_void(&self) -> (r: bool)
        ensures
            r == spec_is_void(self@),
    {
        if let BasicType::Simple(CType::Void) = self {
            return true;
        }
        false
    }

    /// Whether this is a reference parameter.
    pub fn is_ref(&self) -> (r: bool)
        ensures
            r == spec_is_ref(self@),
    {
        match self {
            BasicType::MutRef(_) => true,
            BasicType::ConstRef(_) => true,
            _ => false,
        }
    }

    /// Writes the native spelling of this qualified type.
    pub fn generate_cpp(&self, out_stream: &mut String)
        ensures
            final(out_stream)@ == old(out_stream)@ + basic_cpp(self@),
    {
        match self {
            BasicType::Simple(t) => t.generate_cpp(out_stream),
            BasicType::MutPointer(t) => {
                t.generate_cpp(out_stream);
                emit(out_stream, "*");
                proof {
                    lemma_cat_assoc(old(out_stream)@, ctype_cpp(t@), "*"@);
                }
            },
            BasicType::MutRef(t) => {
                t.generate_cpp(out_stream);
                emit(out_stream, "*");
                proof {
                    lemma_cat_assoc(old(out_stream)@, ctype_cpp(t@), "*"@);
                }
            },
            BasicType::ConstPointer(t) => {
                t.generate_cpp(out_stream);
                emit(out_stream, " const*");
                proof {
                    lemma_cat_assoc(old(out_stream)@, ctype_cpp(t@), " const*"@);
                }
            },
            BasicType::ConstRef(t) => {
                t.generate_cpp(out_stream);
                emit(out_stream, " const*");
                proof {
                    lemma_cat_assoc(old(out_stream)@, ctype_cpp(t@), " const*"@);
                }
            },
        }
    }

    /// Writes the foreign spelling of this qualified type.
    pub fn generate_rs(&self, out_stream: &mut String)
        ensures
            final(out_stream)@ == old(out_stream)@ + basic_rs(self@),
    {
        match self {
            BasicType::Simple(t) => t.generate_rs(out_stream),
            BasicType::MutPointer(t) => {
                emit(out_stream, "*mut ");
                t.generate_rs(out_stream);
                proof {
                    lemma_cat_assoc(old(out_stream)@, "*mut "@, ctype_rs(t@));
                }
            },
            BasicType::MutRef(t) => {
                emit(out_stream, "*mut ");
                t.generate_rs(out_stream);
                proof {
                    lemma_cat_assoc(old(out_stream)@, "*mut "@, ctype_rs(t@));
                }
            },
            BasicType::ConstPointer(t) => {
                emit(out_stream, "*const ");
                t.generate_rs(out_stream);
                proof {
                    lemma_cat_assoc(old(out_stream)@, "*const "@, ctype_rs(t@));
                }
            },
            BasicType::ConstRef(t) => {
                emit(out_stream, "*const ");
                t.generate_rs(out_stream);
                proof {
                    lemma_cat_assoc(old(out_stream)@, "*const "@, ctype_rs(t@));
                }
            },
        }
    }
}

/// The bare `void` type.
pub fn void() -> (r: BasicType)
    ensures
        r@ == BasicTypeView::Simple(CTypeView::Void),
{
    BasicType::Simple(CType::Void)
}

/// The bare `size_t` type.
pub fn size_t() -> (r: BasicType)
    ensures
        r@ == BasicTypeView::Simple(CTypeView::SizeT),
{
    BasicType::Simple(CType::SizeT)
}

/// The bare `unsigned int` type.
pub fn uint() -> (r: BasicType)
    ensures
        r@ == BasicTypeView::Simple(CTypeView::UInt),
{
    BasicType::Simple(CType::UInt)
}

/// The bare `long` type.
pub fn long() -> (r: BasicType)
    ensures
        r@ == BasicTypeView::Simple(CTypeView::Long),
{
    BasicType::Simple(CType::Long)
}

/// A mutable pointer to `t`.
pub fn mut_ptr(t: CType) -> (r: BasicType)
    ensures
        r@ == BasicTypeView::MutPointer(t@),
{
    BasicType::MutPointer(t)
}

/// A const pointer to `t`.
pub fn const_ptr(t: CType) -> (r: BasicType)
    ensures
        r@ == BasicTypeView::ConstPointer(t@),
{
    BasicType::ConstPointer(t)
}

/// A const reference to `t`.
pub fn const_ref(t: CType) -> (r: BasicType)
    ensures
        r@ == BasicTypeView::ConstRef(t@),
{
    BasicType::ConstRef(t)
}

} // verus!
