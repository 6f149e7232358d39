//! Types, their sizes and alignments, and a registry of named types.

use vstd::hash_map::StringHashMap;
use vstd::prelude::*;
use vstd::string::StringExecFns;

verus! {

/// A type of the language.
#[derive(Debug, PartialEq)]
pub enum Type {
    Void,
    Bool,
    Char,
    Int,
    Float,
    Double,
    Long,
    Short,
    Signed,
    Unsigned,
    Pointer(Box<Type>),
    Reference(Box<Type>),
    Array(Box<Type>, usize),
    Function { return_type: Box<Type>, param_types: Vec<Type> },
    Struct { name: String, fields: Vec<(String, Type)> },
    Union { name: String, fields: Vec<(String, Type)> },
    Enum { name: String, variants: Vec<String> },
    TemplateInstance { template_name: String, args: Vec<Type> },
    Auto,
    Decltype(String),
    Complex,
    Imaginary,
}

/// Model of [`Type`].
pub enum SpecType {
    Void,
    Bool,
    Char,
    Int,
    Float,
    Double,
    Long,
    Short,
    Signed,
    Unsigned,
    Pointer(Box<SpecType>),
    Reference(Box<SpecType>),
    Array(Box<SpecType>, usize),
    Function { return_type: Box<SpecType>, param_types: Seq<SpecType> },
    Struct { name: Seq<char>, fields: Seq<(Seq<char>, SpecType)> },
    Union { name: Seq<char>, fields: Seq<(Seq<char>, SpecType)> },
    Enum { name: Seq<char>, variants: Seq<Seq<char>> },
    TemplateInstance { template_name: Seq<char>, args: Seq<SpecType> },
    Auto,
    Decltype(Seq<char>),
    Complex,
    Imaginary,
}

/// The models of a list of types.
pub open spec fn types_model(list: Seq<Type>) -> Seq<SpecType>
    decreases list, 1int,
{
    Seq::new(
        list.len(),
        |i: int|
            if 0 <= i < list.len() {
                type_model(list[i])
            } else {
                SpecType::Void
            },
    )
}

/// The models of a list of fields.
pub open spec fn fields_model(list: Seq<(String, Type)>) -> Seq<(Seq<char>, SpecType)>
    decreases list, 1int,
{
    Seq::new(
        list.len(),
        |i: int|
            if 0 <= i < list.len() {
                (list[i].0@, type_model(list[i].1))
            } else {
                (Seq::empty(), SpecType::Void)
            },
    )
}

/// The model of a type.
pub open spec fn type_model(t: Type) -> SpecType
    decreases t, 0int,
{
    match t {
        Type::Void => SpecType::Void,
        Type::Bool => SpecType::Bool,
        Type::Char => SpecType::Char,
        Type::Int => SpecType::Int,
        Type::Float => SpecType::Float,
        Type::Double => SpecType::Double,
        Type::Long => SpecType::Long,
        Type::Short => SpecType::Short,
        Type::Signed => SpecType::Signed,
        Type::Unsigned => SpecType::Unsigned,
        Type::Pointer(inner) => SpecType::Pointer(Box::new(type_model(*inner))),
        Type::Reference(inner) => SpecType::Reference(Box::new(type_model(*inner))),
        Type::Array(inner, count) => SpecType::Array(Box::new(type_model(*inner)), count),
        Type::Function { return_type, param_types } => SpecType::Function {
            return_type: Box::new(type_model(*return_type)),
            param_types: types_model(param_types@),
        },
        Type::Struct { name, fields } => SpecType::Struct {
            name: name@,
            fields: fields_model(fields@),
        },
        Type::Union { name, fields } => SpecType::Union {
            name: name@,
            fields: fields_model(fields@),
        },
        Type::Enum { name, variants } => SpecType::Enum {
            name: name@,
            variants: variants@.map_values(|v: String| v@),
        },
        Type::TemplateInstance { template_name, args } => SpecType::TemplateInstance {
            template_name: template_name@,
            args: types_model(args@),
        },
        Type::Auto => SpecType::Auto,
        Type::Decltype(e) => SpecType::Decltype(e@),
        Type::Complex => SpecType::Complex,
        Type::Imaginary => SpecType::Imaginary,
    }
}

impl View for Type {
    type V = SpecType;

    open spec fn view(&self) -> SpecType {
        type_model(*self)
    }
}

/// The sum of the sizes of the first `upto` fields, if every one of them
/// has a size and the sum fits a machine word.
pub open spec fn fields_size(fields: Seq<(Seq<char>, SpecType)>, upto: int) -> Option<usize>
    decreases fields, upto,
{
    if upto <= 0 || upto > fields.len() {
        Some(0)
    } else {
        match (fields_size(fields, upto - 1), size_of_type(fields[upto - 1].1)) {
            (Some(total), Some(size)) => if total + size <= usize::MAX {
                Some((total + size) as usize)
            } else {
                None
            },
            _ => None,
        }
    }
}

/// The largest of the sizes of the first `upto` fields, if every one of
/// them has a size.
pub open spec fn fields_largest(fields: Seq<(Seq<char>, SpecType)>, upto: int) -> Option<usize>
    decreases fields, upto,
{
    if upto <= 0 || upto > fields.len() {
        Some(0)
    } else {
        match (fields_largest(fields, upto - 1), size_of_type(fields[upto - 1].1)) {
            (Some(largest), Some(size)) => Some(
                if size > largest {
                    size
                } else {
                    largest
                },
            ),
            _ => None,
        }
    }
}

/// The size of a type in bytes, where it is known and fits a machine word.
/// A pointer has 8 bytes; an array has the size of its elements together; a
/// struct that of its fields together, without padding; a union that of its
/// largest field.
pub open spec fn size_of_type(t: SpecType) -> Option<usize>
    decreases t, 0int,
{
    match t {
        SpecType::Void => Some(0),
        SpecType::Bool => Some(1),
        SpecType::Char => Some(1),
        SpecType::Int => Some(4),
        SpecType::Float => Some(4),
        SpecType::Double => Some(8),
        SpecType::Long => Some(8),
        SpecType::Short => Some(2),
        SpecType::Signed => Some(4),
        SpecType::Unsigned => Some(4),
        SpecType::Pointer(_) => Some(8),
        SpecType::Reference(_) => Some(8),
        SpecType::Array(element, count) => match size_of_type(*element) {
            Some(size) => if size * count <= usize::MAX {
                Some((size * count) as usize)
            } else {
                None
            },
            None => None,
        },
        SpecType::Struct { name, fields } => fields_size(fields, fields.len() as int),
        SpecType::Union { name, fields } => fields_largest(fields, fields.len() as int),
        SpecType::Enum { .. } => Some(4),
        SpecType::Function { .. } => Some(0),
        SpecType::TemplateInstance { .. } => None,
        SpecType::Auto => None,
        SpecType::Decltype(_) => None,
        SpecType::Complex => Some(8),
        SpecType::Imaginary => Some(8),
    }
}

/// The largest of the alignments of the first `upto` fields and 1. A field
/// without an alignment does not count.
pub open spec fn fields_alignment(fields: Seq<(Seq<char>, SpecType)>, upto: int) -> usize
    decreases fields, upto,
{
    if upto <= 0 || upto > fields.len() {
        1
    } else {
        let before = fields_alignment(fields, upto - 1);
        match alignment_of_type(fields[upto - 1].1) {
            Some(a) => if a > before {
                a
            } else {
                before
            },
            None => before,
        }
    }
}

/// The alignment of a type in bytes, where it is known. An array is aligned
/// as its elements, a struct or a union as its most demanding field; the
/// types that this does not name are aligned to their size.
pub open spec fn alignment_of_type(t: SpecType) -> Option<usize>
    decreases t, 0int,
{
    match t {
        SpecType::Void => Some(1),
        SpecType::Bool => Some(1),
        SpecType::Char => Some(1),
        SpecType::Short => Some(2),
        SpecType::Int => Some(4),
        SpecType::Float => Some(4),
        SpecType::Long => Some(8),
        SpecType::Double => Some(8),
        SpecType::Pointer(_) => Some(8),
        SpecType::Reference(_) => Some(8),
        SpecType::Array(element, _) => alignment_of_type(*element),
        SpecType::Struct { name, fields } => Some(fields_alignment(fields, fields.len() as int)),
        SpecType::Union { name, fields } => Some(fields_alignment(fields, fields.len() as int)),
        _ => size_of_type(t),
    }
}

/// The types of numbers, characters and truth values.
pub open spec fn is_arithmetic_type(t: SpecType) -> bool {
    t is Bool || t is Char || t is Int || t is Float || t is Double || t is Long || t is Short
        || t is Signed || t is Unsigned
}

/// The arithmetic types, the pointers and the enums.
pub open spec fn is_scalar_type(t: SpecType) -> bool {
    is_arithmetic_type(t) || t is Pointer || t is Enum
}

/// The types of which there are objects: all but functions and `void`.
pub open spec fn is_object_type(t: SpecType) -> bool {
    !(t is Function || t is Void)
}

/// The pointers, arrays, structs and unions.
pub open spec fn is_compound_type(t: SpecType) -> bool {
    t is Pointer || t is Array || t is Struct || t is Union
}

/// The types of numbers with a sign.
pub open spec fn is_signed_type(t: SpecType) -> bool {
    t is Char || t is Int || t is Float || t is Double || t is Long || t is Short
}

/// The types of numbers without a sign.
pub open spec fn is_unsigned_type(t: SpecType) -> bool {
    t is Bool || t is Unsigned
}

/// `void` and the arithmetic types.
pub open spec fn is_primitive_type(t: SpecType) -> bool {
    t is Void || is_arithmetic_type(t)
}

/// Once the first fields have no size together, neither have all of them.
pub proof fn lemma_fields_size_none(fields: Seq<(Seq<char>, SpecType)>, upto: int, all: int)
    requires
        0 <= upto <= all <= fields.len(),
        fields_size(fields, upto) is None,
    ensures
        fields_size(fields, all) is None,
    decreases all - upto,
{
    if upto < all {
        lemma_fields_size_none(fields, upto, all - 1);
    }
}

/// Once the first fields have no largest size, neither have all of them.
pub proof fn lemma_fields_largest_none(fields: Seq<(Seq<char>, SpecType)>, upto: int, all: int)
    requires
        0 <= upto <= all <= fields.len(),
        fields_largest(fields, upto) is None,
    ensures
        fields_largest(fields, all) is None,
    decreases all - upto,
{
    if upto < all {
        lemma_fields_largest_none(fields, upto, all - 1);
    }
}

impl Type {
    /// The size of the type in bytes: see [`size_of_type`]. `None` where
    /// the size is not known or does not fit a machine word.
    #[verifier::loop_isolation(false)]
    pub fn size_of(&self) -> (r: Option<usize>)
        ensures
            r == size_of_type(self@),
        decreases self,
    {
        match self {
            Type::Void => Some(0),
            Type::Bool => Some(1),
            Type::Char => Some(1),
            Type::Int => Some(4),
            Type::Float => Some(4),
            Type::Double => Some(8),
            Type::Long => Some(8),
            Type::Short => Some(2),
            Type::Signed => Some(4),
            Type::Unsigned => Some(4),
            Type::Pointer(_) => Some(8),
            Type::Reference(_) => Some(8),
            Type::Array(element, count) => match element.size_of() {
                Some(size) => size.checked_mul(*count),
                None => None,
            },
            Type::Struct { name, fields } => {
                let ghost models = fields_model(fields@);
                let mut total: usize = 0;
                let mut i: usize = 0;
                while i < fields.len()
                    invariant
                        i <= fields.len(),
                        fields_size(models, i as int) == Some(total),
                    decreases fields.len() - i,
                {
                    assert(models[i as int].1 == fields@[i as int].1@);
                    let next = match fields[i].1.size_of() {
                        Some(size) => total.checked_add(size),
                        None => None,
                    };
                    total = match next {
                        Some(sum) => sum,
                        None => {
                            proof {
                                lemma_fields_size_none(models, i + 1, fields.len() as int);
                            }
                            return None;
                        },
                    };
                    i += 1;
                }
                Some(total)
            },
            Type::Union { name, fields } => {
                let ghost models = fields_model(fields@);
                let mut largest: usize = 0;
                let mut i: usize = 0;
                while i < fields.len()
                    invariant
                        i <= fields.len(),
                        fields_largest(models, i as int) == Some(largest),
                    decreases fields.len() - i,
                {
                    assert(models[i as int].1 == fields@[i as int].1@);
                    let size = match fields[i].1.size_of() {
                        Some(size) => size,
                        None => {
                            proof {
                                lemma_fields_largest_none(models, i + 1, fields.len() as int);
                            }
                            return None;
                        },
                    };
                    if size > largest {
                        largest = size;
                    }
                    i += 1;
                }
                Some(largest)
            },
            Type::Enum { .. } => Some(4),
            Type::Function { .. } => Some(0),
            Type::TemplateInstance { .. } => None,
            Type::Auto => None,
            Type::Decltype(_) => None,
            Type::Complex => Some(8),
            Type::Imaginary => Some(8),
        }
    }

    /// The largest alignment among the fields, and at least 1.
    #[verifier::loop_isolation(false)]
    fn alignment_of_fields(fields: &Vec<(String, Type)>) -> (r: usize)
        ensures
            r == fields_alignment(fields_model(fields@), fields@.len() as int),
        decreases fields, 1int,
    {
        let ghost models = fields_model(fields@);
        let mut largest: usize = 1;
        let mut i: usize = 0;
        while i < fields.len()
            invariant
                i <= fields.len(),
                fields_alignment(models, i as int) == largest,
            decreases fields.len() - i,
        {
            assert(models[i as int].1 == fields@[i as int].1@);
            match fields[i].1.alignment() {
                Some(a) => {
                    if a > largest {
                        largest = a;
                    }
                },
                None => {},
            }
            i += 1;
        }
        largest
    }

    /// The alignment of the type in bytes: see [`alignment_of_type`].
    pub fn alignment(&self) -> (r: Option<usize>)
        ensures
            r == alignment_of_type(self@),
        decreases self, 0int,
    {
        match self {
            Type::Void => Some(1),
            Type::Bool | Type::Char => Some(1),
            Type::Short => Some(2),
            Type::Int | Type::Float => Some(4),
            Type::Long | Type::Double => Some(8),
            Type::Pointer(_) | Type::Reference(_) => Some(8),
            Type::Array(element, _) => element.alignment(),
            Type::Struct { name, fields } => Some(Self::alignment_of_fields(fields)),
            Type::Union { name, fields } => Some(Self::alignment_of_fields(fields)),
            _ => self.size_of(),
        }
    }

    /// Whether the type is arithmetic: see [`is_arithmetic_type`].
    pub fn is_arithmetic(&self) -> (r: bool)
        ensures
            r == is_arithmetic_type(self@),
    {
        match self {
            Type::Bool
            | Type::Char
            | Type::Int
            | Type::Float
            | Type::Double
            | Type::Long
            | Type::Short
            | Type::Signed
            | Type::Unsigned => true,
            _ => false,
        }
    }

    /// Whether the type is scalar: see [`is_scalar_type`].
    pub fn is_scalar(&self) -> (r: bool)
        ensures
            r == is_scalar_type(self@),
    {
        self.is_arithmetic() || match self {
            Type::Pointer(_) | Type::Enum { .. } => true,
            _ => false,
        }
    }

    /// Whether there are objects of the type: see [`is_object_type`].
    pub fn is_object(&self) -> (r: bool)
        ensures
            r == is_object_type(self@),
    {
        match self {
            Type::Function { .. } | Type::Void => false,
            _ => true,
        }
    }

    /// Whether the type is compound: see [`is_compound_type`].
    pub fn is_compound(&self) -> (r: bool)
        ensures
            r == is_compound_type(self@),
    {
        match self {
            Type::Pointer(_) | Type::Array(_, _) | Type::Struct { .. } | Type::Union { .. } => true,
            _ => false,
        }
    }

    /// Whether the type is signed: see [`is_signed_type`].
    pub fn is_signed(&self) -> (r: bool)
        ensures
            r == is_signed_type(self@),
    {
        match self {
            Type::Char | Type::Int | Type::Float | Type::Double | Type::Long | Type::Short => true,
            _ => false,
        }
    }

    /// Whether the type is unsigned: see [`is_unsigned_type`].
    pub fn is_unsigned(&self) -> (r: bool)
        ensures
            r == is_unsigned_type(self@),
    {
        match self {
            Type::Bool | Type::Unsigned => true,
            _ => false,
        }
    }

    /// Whether the type is `void` or an arithmetic type.
    pub fn is_primitive(&self) -> (r: bool)
        ensures
            r == is_primitive_type(self@),
    {
        match self {
            Type::Void => true,
            _ => self.is_arithmetic(),
        }
    }

    /// The type of pointers to this type.
    pub fn ptr(self) -> (r: Type)
        ensures
            r@ == SpecType::Pointer(Box::new(self@)),
    {
        Type::Pointer(Box::new(self))
    }
}

/// A copy of a list of types.
#[verifier::loop_isolation(false)]
fn clone_types(list: &Vec<Type>) -> (r: Vec<Type>)
    ensures
        types_model(r@) == types_model(list@),
    decreases list, 1int,
{
    let mut out: Vec<Type> = Vec::new();
    let mut i: usize = 0;
    while i < list.len()
        invariant
            i <= list.len(),
            out@.len() == i,
            forall|j: int| 0 <= j < i ==> (#[trigger] out@[j])@ == list@[j]@,
        decreases list.len() - i,
    {
        out.push(list[i].clone());
        i += 1;
    }
    proof {
        assert(types_model(out@) =~= types_model(list@));
    }
    out
}

/// A copy of a list of fields.
#[verifier::loop_isolation(false)]
fn clone_fields(list: &Vec<(String, Type)>) -> (r: Vec<(String, Type)>)
    ensures
        fields_model(r@) == fields_model(list@),
    decreases list, 1int,
{
    let mut out: Vec<(String, Type)> = Vec::new();
    let mut i: usize = 0;
    while i < list.len()
        invariant
            i <= list.len(),
            out@.len() == i,
            forall|j: int|
                0 <= j < i ==> (#[trigger] out@[j]).0@ == list@[j].0@ && out@[j].1@ == list@[j].1@,
        decreases list.len() - i,
    {
        out.push((list[i].0.clone(), list[i].1.clone()));
        i += 1;
    }
    proof {
        assert(fields_model(out@) =~= fields_model(list@));
    }
    out
}

/// A copy of a list of strings.
fn clone_strings(list: &Vec<String>) -> (r: Vec<String>)
    ensures
        r@.map_values(|s: String| s@) == list@.map_values(|s: String| s@),
{
    let mut out: Vec<String> = Vec::new();
    let mut i: usize = 0;
    while i < list.len()
        invariant
            i <= list.len(),
            out@.len() == i,
            forall|j: int| 0 <= j < i ==> (#[trigger] out@[j])@ == list@[j]@,
        decreases list.len() - i,
    {
        out.push(list[i].clone());
        i += 1;
    }
    proof {
        assert(out@.map_values(|s: String| s@) =~= list@.map_values(|s: String| s@));
    }
    out
}

impl Clone for Type {
    fn clone(&self) -> (r: Self)
        ensures
            r@ == self@,
        decreases self, 0int,
    {
        match self {
            Type::Void => Type::Void,
            Type::Bool => Type::Bool,
            Type::Char => Type::Char,
            Type::Int => Type::Int,
            Type::Float => Type::Float,
            Type::Double => Type::Double,
            Type::Long => Type::Long,
            Type::Short => Type::Short,
            Type::Signed => Type::Signed,
            Type::Unsigned => Type::Unsigned,
            Type::Pointer(inner) => Type::Pointer(Box::new((**inner).clone())),
            Type::Reference(inner) => Type::Reference(Box::new((**inner).clone())),
            Type::Array(inner, count) => Type::Array(Box::new((**inner).clone()), *count),
            Type::Function { return_type, param_types } => Type::Function {
                return_type: Box::new((**return_type).clone()),
                param_types: clone_types(param_types),
            },
            Type::Struct { name, fields } => Type::Struct {
                name: name.clone(),
                fields: clone_fields(fields),
            },
            Type::Union { name, fields } => Type::Union {
                name: name.clone(),
                fields: clone_fields(fields),
            },
            Type::Enum { name, variants } => Type::Enum {
                name: name.clone(),
                variants: clone_strings(variants),
            },
            Type::TemplateInstance { template_name, args } => Type::TemplateInstance {
                template_name: template_name.clone(),
                args: clone_types(args),
            },
            Type::Auto => Type::Auto,
            Type::Decltype(e) => Type::Decltype(e.clone()),
            Type::Complex => Type::Complex,
            Type::Imaginary => Type::Imaginary,
        }
    }
}

/// What is recorded of a named type.
#[derive(Debug, Clone, PartialEq)]
pub struct TypeInfo {
    pub name: String,
    pub ty: Type,
    pub size: usize,
    pub alignment: usize,
}

impl TypeInfo {
    /// What is recorded of the type `ty` under `name`.
    pub fn new(name: String, ty: Type, size: usize, alignment: usize) -> (r: Self)
        ensures
            r.name == name,
            r.ty == ty,
            r.size == size,
            r.alignment == alignment,
    {
        TypeInfo { name, ty, size, alignment }
    }
}

/// The message of a refused registration.
pub open spec fn already_registered(name: Seq<char>) -> Seq<char> {
    "Type '"@ + name + "' already registered"@
}

/// Named types, each with the number under which it was registered.
pub struct TypeRegistry {
    types: StringHashMap<Type>,
    next_id: u32,
}

impl TypeRegistry {
    /// The types by name.
    pub closed spec fn types(&self) -> Map<Seq<char>, Type> {
        self.types@
    }

    /// The number that the next registered type gets: how many types were
    /// registered so far.
    pub closed spec fn next_id(&self) -> u32 {
        self.next_id
    }

    /// A registry without types.
    pub fn new() -> (r: Self)
        ensures
            r.types() == Map::<Seq<char>, Type>::empty(),
            r.next_id() == 0,
    {
        TypeRegistry { types: StringHashMap::new(), next_id: 0 }
    }

    /// Registers a type under a name that is not taken, and gives the number
    /// of the registration; the numbers count up from 0. A name that is
    /// taken is refused, and the registry is left as it was.
    pub fn register_type(&mut self, name: String, ty: Type) -> (r: Result<u32, String>)
        requires
            old(self).next_id() < u32::MAX,
        ensures
            match r {
                Ok(id) => {
                    &&& !old(self).types().contains_key(name@)
                    &&& id == old(self).next_id()
                    &&& final(self).next_id() == id + 1
                    &&& final(self).types() == old(self).types().insert(name@, ty)
                },
                Err(message) => {
                    &&& old(self).types().contains_key(name@)
                    &&& message@ == already_registered(name@)
                    &&& final(self).next_id() == old(self).next_id()
                    &&& final(self).types() == old(self).types()
                },
            },
    {
        if self.types.contains_key(name.as_str()) {
            let mut message = String::from_str("Type '");
            message.append(name.as_str());
            message.append("' already registered");
            return Err(message);
        }
        self.types.insert(name, ty);
        let id = self.next_id;
        self.next_id = id + 1;
        Ok(id)
    }

    /// The type registered under `name`, if there is one.
    pub fn get_type(&self, name: &str) -> (r: Option<&Type>)
        ensures
            match r {
                Some(t) => self.types().contains_key(name@) && *t == self.types()[name@],
                None => !self.types().contains_key(name@),
            },
    {
        self.types.get(name)
    }

    /// Whether a type is registered under `name`.
    pub fn type_exists(&self, name: &str) -> (r: bool)
        ensures
            r == self.types().contains_key(name@),
    {
        self.types.contains_key(name)
    }
}

} // verus!
