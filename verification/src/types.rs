//! The type system: types with their sizes, traits and templates.

pub mod template;
pub mod trait_;
pub mod type_;

pub use template::{
    TemplateArgument, TemplateConstraints, TemplateDeclaration, TemplateInstantiation,
    TemplateParameter, TemplateSubstitution, TemplateSystem,
};
pub use trait_::{
    MethodSignature, Trait, TraitImplementation, TraitSystem, TypeCategory, TypeProperties,
};
pub use type_::{SpecType, Type, TypeInfo, TypeRegistry};
pub use vstd::hash_map::StringHashMap;
