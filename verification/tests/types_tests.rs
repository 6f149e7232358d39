use cpp_frontend::types::{
    MethodSignature, StringHashMap, TemplateArgument, TemplateConstraints, TemplateDeclaration,
    TemplateInstantiation, TemplateParameter, TemplateSubstitution, TemplateSystem, Trait,
    TraitImplementation, TraitSystem, Type, TypeCategory, TypeInfo, TypeProperties, TypeRegistry,
};

#[test]
fn test_template_system() {
    let mut system = TemplateSystem::new();

    let vector_template = TemplateDeclaration {
        name: "Vector".to_string(),
        parameters: vec![TemplateParameter::TypeParameter {
            name: "T".to_string(),
            default_type: Some("int".to_string()),
        }],
        body: "class Vector<T> { T* data; size_t size; };".to_string(),
        specializations: Vec::new(),
    };

    system.define_template(vector_template).unwrap();

    assert!(system.has_template("Vector"));

    let instantiation = TemplateInstantiation {
        template_name: "Vector".to_string(),
        arguments: vec![TemplateArgument::Type("double".to_string())],
        instantiated_type: "Vector<double>".to_string(),
    };

    let result = system.instantiate_template(instantiation);
    assert!(result.is_ok());
    assert_eq!(result.unwrap(), "Vector<double>");
}

#[test]
fn test_template_substitution() {
    let mut subst = TemplateSubstitution::new();
    subst.add_type_substitution("T".to_string(), "int".to_string());
    subst.add_value_substitution("N".to_string(), "10".to_string());

    let body = "class Array<{T}, {N}> { {T} data[{N}]; };".to_string();
    let result = subst.apply_to_body(&body);

    assert!(result.contains("class Array<int, 10>"));
    assert!(result.contains("int data[10];"));
}

#[test]
fn test_template_constraints() {
    let mut constraints = TemplateConstraints::new();
    constraints.add_concept_requirement("Comparable".to_string());
    constraints.add_type_constraint("T".to_string(), "Copyable".to_string());

    let args = vec![TemplateArgument::Type("int".to_string())];
    let result = constraints.validate_arguments(&args);
    assert!(result.is_ok());
}

#[test]
fn test_trait_system() {
    let mut system = TraitSystem::new();

    let printable_trait = Trait {
        name: "Printable".to_string(),
        methods: vec![MethodSignature {
            name: "print".to_string(),
            param_types: vec![],
            return_type: "void".to_string(),
            is_const: true,
            is_virtual: true,
        }],
        associated_types: vec![],
        required_traits: vec![],
    };

    system.define_trait(printable_trait).unwrap();

    assert!(system.get_trait("Printable").is_some());

    let mut methods = StringHashMap::new();
    methods.insert("print".to_string(), "int_print".to_string());
    let impl_def = TraitImplementation {
        trait_name: "Printable".to_string(),
        implementing_type: "Int".to_string(),
        method_implementations: methods,
        associated_type_mappings: StringHashMap::new(),
    };

    let result = system.implement_trait(impl_def);
    assert!(result.is_ok());

    assert!(system.has_trait_implementation("Int", "Printable"));
}

#[test]
fn trait__test_type_properties() {
    let props = TypeProperties::new(TypeCategory::Arithmetic).with_const();

    assert_eq!(props.category, TypeCategory::Arithmetic);
    assert!(props.is_const);
}

#[test]
fn test_type_sizes() {
    assert_eq!(Type::Int.size_of(), Some(4));
    assert_eq!(Type::Char.size_of(), Some(1));
    assert_eq!(Type::Double.size_of(), Some(8));

    let array_type = Type::Array(Box::new(Type::Int), 5);
    assert_eq!(array_type.size_of(), Some(20)); // 4 * 5
}

#[test]
fn type__test_type_properties() {
    assert!(Type::Int.is_arithmetic());
    assert!(Type::Float.is_arithmetic());
    assert!(!Type::Void.is_arithmetic());

    assert!(Type::Int.is_scalar());
    assert!(Type::Pointer(Box::new(Type::Int)).is_scalar());
    assert!(!Type::Struct { name: "S".to_string(), fields: vec![] }.is_scalar());
}

#[test]
fn test_type_registry() {
    let mut registry = TypeRegistry::new();

    let id = registry.register_type("MyInt".to_string(), Type::Int).unwrap();
    assert_eq!(id, 0);

    assert!(registry.get_type("MyInt").is_some());
    assert!(registry.type_exists("MyInt"));

    let result = registry.register_type("MyInt".to_string(), Type::Float);
    assert!(result.is_err());
}

#[test]
fn test_type_creation() {
    let int_type = Type::Int;
    assert!(int_type.is_primitive());

    let ptr_type = Type::Int.ptr();
    assert!(ptr_type.is_compound());
}

#[test]
fn test_type_info_creation() {
    let info = TypeInfo::new("test".to_string(), Type::Int, 4, 4);
    assert_eq!(info.name, "test");
}

fn record(fields: Vec<(&str, Type)>) -> Vec<(String, Type)> {
    fields.into_iter().map(|(name, ty)| (name.to_string(), ty)).collect()
}

#[test]
fn sizes_of_compound_types() {
    let fields = || record(vec![("a", Type::Char), ("b", Type::Long), ("c", Type::Short)]);
    assert_eq!(Type::Struct { name: "S".to_string(), fields: fields() }.size_of(), Some(11));
    assert_eq!(Type::Union { name: "U".to_string(), fields: fields() }.size_of(), Some(8));
    assert_eq!(Type::Struct { name: "E".to_string(), fields: vec![] }.size_of(), Some(0));
    assert_eq!(Type::Union { name: "E".to_string(), fields: vec![] }.size_of(), Some(0));
    let unknown = || record(vec![("a", Type::Int), ("b", Type::Auto)]);
    assert_eq!(Type::Struct { name: "S".to_string(), fields: unknown() }.size_of(), None);
    assert_eq!(Type::Union { name: "U".to_string(), fields: unknown() }.size_of(), None);
    assert_eq!(Type::Array(Box::new(Type::Auto), 3).size_of(), None);
    assert_eq!(Type::Array(Box::new(Type::Int), 0).size_of(), Some(0));
    assert_eq!(Type::Array(Box::new(Type::Void), usize::MAX).size_of(), Some(0));
    assert_eq!(Type::Array(Box::new(Type::Int), usize::MAX).size_of(), None);
    let doubled = record(vec![
        ("a", Type::Array(Box::new(Type::Char), usize::MAX)),
        ("b", Type::Char),
    ]);
    assert_eq!(Type::Struct { name: "S".to_string(), fields: doubled }.size_of(), None);
    assert_eq!(Type::Pointer(Box::new(Type::Auto)).size_of(), Some(8));
    assert_eq!(Type::Reference(Box::new(Type::Char)).size_of(), Some(8));
    assert_eq!(Type::Void.size_of(), Some(0));
    assert_eq!(Type::Bool.size_of(), Some(1));
    assert_eq!(Type::Float.size_of(), Some(4));
    assert_eq!(Type::Long.size_of(), Some(8));
    assert_eq!(Type::Short.size_of(), Some(2));
    assert_eq!(Type::Signed.size_of(), Some(4));
    assert_eq!(Type::Unsigned.size_of(), Some(4));
    assert_eq!(Type::Complex.size_of(), Some(8));
    assert_eq!(Type::Imaginary.size_of(), Some(8));
    assert_eq!(Type::Enum { name: "E".to_string(), variants: vec![] }.size_of(), Some(4));
    assert_eq!(
        Type::Function { return_type: Box::new(Type::Int), param_types: vec![Type::Int] }.size_of(),
        Some(0)
    );
    assert_eq!(
        Type::TemplateInstance { template_name: "V".to_string(), args: vec![] }.size_of(),
        None
    );
    assert_eq!(Type::Decltype("x".to_string()).size_of(), None);
}

#[test]
fn alignments() {
    assert_eq!(Type::Void.alignment(), Some(1));
    assert_eq!(Type::Char.alignment(), Some(1));
    assert_eq!(Type::Short.alignment(), Some(2));
    assert_eq!(Type::Float.alignment(), Some(4));
    assert_eq!(Type::Double.alignment(), Some(8));
    assert_eq!(Type::Pointer(Box::new(Type::Char)).alignment(), Some(8));
    assert_eq!(Type::Array(Box::new(Type::Short), 100).alignment(), Some(2));
    assert_eq!(Type::Array(Box::new(Type::Auto), 1).alignment(), None);
    let fields = record(vec![("a", Type::Char), ("b", Type::Auto), ("c", Type::Int)]);
    assert_eq!(Type::Struct { name: "S".to_string(), fields }.alignment(), Some(4));
    assert_eq!(Type::Union { name: "U".to_string(), fields: vec![] }.alignment(), Some(1));
    assert_eq!(Type::Signed.alignment(), Some(4));
    assert_eq!(Type::Enum { name: "E".to_string(), variants: vec![] }.alignment(), Some(4));
    assert_eq!(Type::Complex.alignment(), Some(8));
    assert_eq!(Type::Auto.alignment(), None);
}

#[test]
fn kinds_of_types() {
    assert!(Type::Bool.is_arithmetic() && Type::Unsigned.is_arithmetic());
    assert!(!Type::Pointer(Box::new(Type::Int)).is_arithmetic());
    assert!(Type::Enum { name: "E".to_string(), variants: vec![] }.is_scalar());
    assert!(!Type::Array(Box::new(Type::Int), 1).is_scalar());
    assert!(Type::Int.is_object());
    assert!(!Type::Void.is_object());
    assert!(!Type::Function { return_type: Box::new(Type::Void), param_types: vec![] }.is_object());
    assert!(Type::Array(Box::new(Type::Int), 1).is_compound());
    assert!(Type::Union { name: "U".to_string(), fields: vec![] }.is_compound());
    assert!(!Type::Int.is_compound());
    assert!(Type::Char.is_signed() && Type::Double.is_signed());
    assert!(!Type::Unsigned.is_signed() && !Type::Bool.is_signed());
    assert!(Type::Bool.is_unsigned() && Type::Unsigned.is_unsigned());
    assert!(!Type::Int.is_unsigned());
    assert!(Type::Void.is_primitive());
    assert!(!Type::Auto.is_primitive());
    assert_eq!(Type::Char.ptr(), Type::Pointer(Box::new(Type::Char)));
}

#[test]
fn registry_numbers_count_up() {
    let mut registry = TypeRegistry::new();
    assert_eq!(registry.register_type("A".to_string(), Type::Int), Ok(0));
    assert_eq!(registry.register_type("B".to_string(), Type::Char), Ok(1));
    assert_eq!(
        registry.register_type("A".to_string(), Type::Char),
        Err("Type 'A' already registered".to_string())
    );
    assert_eq!(registry.register_type("C".to_string(), Type::Char), Ok(2));
    assert_eq!(registry.get_type("A"), Some(&Type::Int));
    assert_eq!(registry.get_type("D"), None);
    assert!(!registry.type_exists("D"));
}

fn simple_trait(name: &str, methods: Vec<&str>, required: Vec<&str>) -> Trait {
    Trait {
        name: name.to_string(),
        methods: methods
            .into_iter()
            .map(|m| MethodSignature {
                name: m.to_string(),
                param_types: vec![],
                return_type: "void".to_string(),
                is_const: false,
                is_virtual: false,
            })
            .collect(),
        associated_types: vec![],
        required_traits: required.into_iter().map(|r| r.to_string()).collect(),
    }
}

fn implementation(trait_name: &str, of_type: &str, methods: Vec<&str>) -> TraitImplementation {
    let mut provided = StringHashMap::new();
    for m in methods {
        provided.insert(m.to_string(), format!("{}_{}", of_type, m));
    }
    TraitImplementation {
        trait_name: trait_name.to_string(),
        implementing_type: of_type.to_string(),
        method_implementations: provided,
        associated_type_mappings: StringHashMap::new(),
    }
}

#[test]
fn trait_implementations_are_checked() {
    let mut system = TraitSystem::new();
    assert_eq!(system.define_trait(simple_trait("Eq", vec!["eq"], vec![])), Ok(()));
    assert_eq!(system.define_trait(simple_trait("Ord", vec!["lt", "le"], vec!["Eq"])), Ok(()));
    assert_eq!(
        system.define_trait(simple_trait("Eq", vec![], vec![])),
        Err("Trait 'Eq' already defined".to_string())
    );
    assert_eq!(
        system.implement_trait(implementation("Hash", "Int", vec![])),
        Err("Trait 'Hash' does not exist".to_string())
    );
    assert_eq!(
        system.implement_trait(implementation("Ord", "Int", vec!["lt", "le"])),
        Err("Type 'Int' must implement required trait 'Eq' before implementing 'Ord'".to_string())
    );
    assert_eq!(
        system.implement_trait(implementation("Eq", "Int", vec![])),
        Err("Missing implementation for method 'eq' in trait 'Eq'".to_string())
    );
    assert_eq!(system.implement_trait(implementation("Eq", "Int", vec!["eq"])), Ok(()));
    assert_eq!(
        system.implement_trait(implementation("Ord", "Int", vec!["lt"])),
        Err("Missing implementation for method 'le' in trait 'Ord'".to_string())
    );
    assert_eq!(system.implement_trait(implementation("Ord", "Int", vec!["le", "lt"])), Ok(()));
    assert_eq!(system.implement_trait(implementation("Eq", "Char", vec!["eq"])), Ok(()));
    assert!(system.has_trait_implementation("Int", "Ord"));
    assert!(system.can_coerce_to_trait("Char", "Eq"));
    assert!(!system.can_coerce_to_trait("Char", "Ord"));
    assert!(system.get_trait("Hash").is_none());
    let for_int = system.get_implementations_for_type("Int");
    assert_eq!(for_int.len(), 2);
    assert_eq!(for_int[0].trait_name, "Eq");
    assert_eq!(for_int[1].trait_name, "Ord");
    let of_eq = system.get_implementations_of_trait("Eq");
    assert_eq!(of_eq.len(), 2);
    assert_eq!(of_eq[0].implementing_type, "Int");
    assert_eq!(of_eq[1].implementing_type, "Char");
    assert!(system.get_implementations_of_trait("Hash").is_empty());
}

#[test]
fn type_properties_builders() {
    let props = TypeProperties::new(TypeCategory::Pointer);
    assert_eq!(props.size, None);
    assert_eq!(props.alignment, None);
    assert!(!props.is_const && !props.is_volatile && !props.is_restrict);
    let all = props.with_volatile().with_restrict();
    assert!(!all.is_const && all.is_volatile && all.is_restrict);
    assert_eq!(all.category, TypeCategory::Pointer);
}

fn template(name: &str, parameters: usize) -> TemplateDeclaration {
    TemplateDeclaration {
        name: name.to_string(),
        parameters: (0..parameters)
            .map(|i| TemplateParameter::TypeParameter { name: format!("T{}", i), default_type: None })
            .collect(),
        body: String::new(),
        specializations: Vec::new(),
    }
}

#[test]
fn templates_are_defined_once_and_instantiated_by_count() {
    let mut system = TemplateSystem::new();
    assert_eq!(system.define_template(template("Pair", 2)), Ok(()));
    assert_eq!(
        system.define_template(template("Pair", 1)),
        Err("Template 'Pair' already defined".to_string())
    );
    let instance = |name: &str, arguments: usize| TemplateInstantiation {
        template_name: name.to_string(),
        arguments: (0..arguments).map(|_| TemplateArgument::Type("int".to_string())).collect(),
        instantiated_type: format!("{}<{}>", name, arguments),
    };
    assert_eq!(
        system.instantiate_template(instance("Triple", 3)),
        Err("Template 'Triple' not found".to_string())
    );
    assert_eq!(
        system.instantiate_template(instance("Pair", 3)),
        Err("Template argument count mismatch: expected 2, got 3".to_string())
    );
    assert!(!system.has_instantiation("Pair<3>"));
    assert_eq!(system.instantiate_template(instance("Pair", 2)), Ok("Pair<2>".to_string()));
    assert!(system.has_instantiation("Pair<2>"));
    assert_eq!(system.get_instantiation("Pair<2>").unwrap().template_name, "Pair");
    assert!(system.get_instantiation("Pair").is_none());
    assert_eq!(system.get_template("Pair").unwrap().parameters.len(), 2);
    assert!(system.get_template("Triple").is_none());
    assert_eq!(system.get_template_parameters("Pair").unwrap().len(), 2);
    assert!(system.get_template_parameters("Triple").is_none());
    assert!(!system.has_template("Triple"));
}

#[test]
fn specializations_are_keyed_by_their_arguments() {
    let mut system = TemplateSystem::new();
    system.define_template(template("V", 1)).unwrap();
    let arguments = vec![
        TemplateArgument::Type("int".to_string()),
        TemplateArgument::Value("3".to_string()),
        TemplateArgument::Template(template("W", 0)),
    ];
    assert_eq!(system.create_specialization_key(&arguments), "type_int_value_3_template_W");
    assert_eq!(system.create_specialization_key(&[]), "");
    assert_eq!(system.specialize_template("V", &arguments, "body".to_string()), Ok(()));
    assert_eq!(
        system.specialize_template("X", &arguments, "body".to_string()),
        Err("Template 'X' not found".to_string())
    );
    assert_eq!(
        system.get_template("V").unwrap().specializations,
        vec![("type_int_value_3_template_W".to_string(), "body".to_string())]
    );
}

#[test]
fn substitution_replaces_placeholders_in_order() {
    let mut subst = TemplateSubstitution::new();
    subst.add_type_substitution("T".to_string(), "{N}".to_string());
    subst.add_type_substitution("U".to_string(), "char".to_string());
    subst.add_type_substitution("T".to_string(), "x{N}".to_string());
    subst.add_value_substitution("N".to_string(), "7".to_string());
    assert_eq!(
        subst.type_map,
        vec![("T".to_string(), "x{N}".to_string()), ("U".to_string(), "char".to_string())]
    );
    assert_eq!(subst.apply_to_body("{T} {U} {N} {V} {T}{T} {{T}}"), "x7 char 7 {V} x7x7 {x7}");
    assert_eq!(subst.apply_to_body(""), "");
    assert_eq!(TemplateSubstitution::new().apply_to_body("{T}"), "{T}");
}

#[test]
fn constraints_are_grouped_by_parameter() {
    let mut constraints = TemplateConstraints::new();
    constraints.add_type_constraint("T".to_string(), "Copy".to_string());
    constraints.add_type_constraint("U".to_string(), "Eq".to_string());
    constraints.add_type_constraint("T".to_string(), "Ord".to_string());
    constraints.add_concept_requirement("C".to_string());
    assert_eq!(
        constraints.type_constraints,
        vec![
            ("T".to_string(), vec!["Copy".to_string(), "Ord".to_string()]),
            ("U".to_string(), vec!["Eq".to_string()]),
        ]
    );
    assert_eq!(constraints.concept_requirements, vec!["C".to_string()]);
    assert_eq!(constraints.requires_clause, None);
    assert_eq!(constraints.validate_arguments(&[]), Ok(()));
}

#[test]
fn copies_of_types_are_equal() {
    let ty = Type::Function {
        return_type: Box::new(Type::Struct {
            name: "S".to_string(),
            fields: record(vec![("a", Type::Enum {
                name: "E".to_string(),
                variants: vec!["x".to_string(), "y".to_string()],
            })]),
        }),
        param_types: vec![
            Type::Reference(Box::new(Type::Decltype("e".to_string()))),
            Type::TemplateInstance { template_name: "V".to_string(), args: vec![Type::Long] },
        ],
    };
    assert_eq!(ty.clone(), ty);
}
