//! Traits of types, and which type implements which trait.

use vstd::hash_map::StringHashMap;
use vstd::prelude::*;
use vstd::string::StringExecFns;

verus! {

/// The signature of a method of a trait.
#[derive(Debug, Clone, PartialEq)]
pub struct MethodSignature {
    pub name: String,
    pub param_types: Vec<String>,
    pub return_type: String,
    pub is_const: bool,
    pub is_virtual: bool,
}

/// A trait: its methods, its associated types, and the traits that a type
/// must implement before it can implement this one.
#[derive(Debug, Clone, PartialEq)]
pub struct Trait {
    pub name: String,
    pub methods: Vec<MethodSignature>,
    pub associated_types: Vec<String>,
    pub required_traits: Vec<String>,
}

/// An implementation of a trait for a type: for each method the name of the
/// function that implements it, and for each associated type the type that
/// stands for it.
pub struct TraitImplementation {
    pub trait_name: String,
    pub implementing_type: String,
    pub method_implementations: StringHashMap<String>,
    pub associated_type_mappings: StringHashMap<String>,
}

/// Whether one of the implementations is that of `trait_name` for
/// `of_type`.
pub open spec fn implements(
    list: Seq<TraitImplementation>,
    of_type: Seq<char>,
    trait_name: Seq<char>,
) -> bool {
    exists|i: int|
        0 <= i < list.len() && (#[trigger] list[i]).implementing_type@ == of_type
            && list[i].trait_name@ == trait_name
}

/// The first of the required traits from index `from` on that the type does
/// not implement.
pub open spec fn missing_requirement(
    list: Seq<TraitImplementation>,
    of_type: Seq<char>,
    required: Seq<String>,
    from: int,
) -> Option<Seq<char>>
    decreases required.len() - from,
{
    if from < 0 || from >= required.len() {
        None
    } else if !implements(list, of_type, required[from]@) {
        Some(required[from]@)
    } else {
        missing_requirement(list, of_type, required, from + 1)
    }
}

/// The first of the methods from index `from` on that has no implementation.
pub open spec fn missing_method(
    methods: Seq<MethodSignature>,
    provided: Map<Seq<char>, String>,
    from: int,
) -> Option<Seq<char>>
    decreases methods.len() - from,
{
    if from < 0 || from >= methods.len() {
        None
    } else if !provided.contains_key(methods[from].name@) {
        Some(methods[from].name@)
    } else {
        missing_method(methods, provided, from + 1)
    }
}

/// Why an implementation is refused, if it is: its trait is not defined,
/// the type lacks a required trait, or a method has no implementation.
pub open spec fn implementation_error(
    traits: Map<Seq<char>, Trait>,
    list: Seq<TraitImplementation>,
    def: TraitImplementation,
) -> Option<Seq<char>> {
    if !traits.contains_key(def.trait_name@) {
        Some("Trait '"@ + def.trait_name@ + "' does not exist"@)
    } else {
        let t = traits[def.trait_name@];
        match missing_requirement(list, def.implementing_type@, t.required_traits@, 0) {
            Some(required) => Some(
                "Type '"@ + def.implementing_type@ + "' must implement required trait '"@
                    + required + "' before implementing '"@ + def.trait_name@ + "'"@,
            ),
            None => match missing_method(t.methods@, def.method_implementations@, 0) {
                Some(method) => Some(
                    "Missing implementation for method '"@ + method + "' in trait '"@
                        + def.trait_name@ + "'"@,
                ),
                None => None,
            },
        }
    }
}

/// The traits that are defined and the implementations that were accepted.
pub struct TraitSystem {
    traits: StringHashMap<Trait>,
    implementations: Vec<TraitImplementation>,
}

impl TraitSystem {
    /// The traits by name.
    pub closed spec fn traits(&self) -> Map<Seq<char>, Trait> {
        self.traits@
    }

    /// The implementations, in the order in which they were accepted.
    pub closed spec fn implementations(&self) -> Seq<TraitImplementation> {
        self.implementations@
    }

    /// A system without traits and implementations.
    pub fn new() -> (r: Self)
        ensures
            r.traits() == Map::<Seq<char>, Trait>::empty(),
            r.implementations() == Seq::<TraitImplementation>::empty(),
    {
        TraitSystem { traits: StringHashMap::new(), implementations: Vec::new() }
    }

    /// Defines a trait under its name, unless the name is taken.
    pub fn define_trait(&mut self, trait_def: Trait) -> (r: Result<(), String>)
        ensures
            final(self).implementations() == old(self).implementations(),
            match r {
                Ok(_) => {
                    &&& !old(self).traits().contains_key(trait_def.name@)
                    &&& final(self).traits() == old(self).traits().insert(
                        trait_def.name@,
                        trait_def,
                    )
                },
                Err(message) => {
                    &&& old(self).traits().contains_key(trait_def.name@)
                    &&& message@ == "Trait '"@ + trait_def.name@ + "' already defined"@
                    &&& final(self).traits() == old(self).traits()
                },
            },
    {
        if self.traits.contains_key(trait_def.name.as_str()) {
            let mut message = String::from_str("Trait '");
            message.append(trait_def.name.as_str());
            message.append("' already defined");
            return Err(message);
        }
        let name = trait_def.name.clone();
        self.traits.insert(name, trait_def);
        Ok(())
    }

    /// Whether `of_type` implements `trait_name`.
    pub fn has_trait_implementation(&self, of_type: &str, trait_name: &str) -> (r: bool)
        ensures
            r == implements(self.implementations(), of_type@, trait_name@),
    {
        let wanted_type = String::from_str(of_type);
        let wanted_trait = String::from_str(trait_name);
        let mut i: usize = 0;
        while i < self.implementations.len()
            invariant
                i <= self.implementations.len(),
                wanted_type@ == of_type@,
                wanted_trait@ == trait_name@,
                forall|j: int|
                    0 <= j < i ==> !((#[trigger] self.implementations@[j]).implementing_type@
                        == of_type@ && self.implementations@[j].trait_name@ == trait_name@),
            decreases self.implementations.len() - i,
        {
            if self.implementations[i].implementing_type == wanted_type
                && self.implementations[i].trait_name == wanted_trait {
                return true;
            }
            i += 1;
        }
        false
    }

    /// Whether a value of `of_type` can stand where `trait_name` is asked
    /// for: whether the type implements the trait.
    pub fn can_coerce_to_trait(&self, of_type: &str, trait_name: &str) -> (r: bool)
        ensures
            r == implements(self.implementations(), of_type@, trait_name@),
    {
        self.has_trait_implementation(of_type, trait_name)
    }

    /// The trait defined under `trait_name`, if there is one.
    pub fn get_trait(&self, trait_name: &str) -> (r: Option<&Trait>)
        ensures
            match r {
                Some(t) => self.traits().contains_key(trait_name@) && *t == self.traits()[trait_name@],
                None => !self.traits().contains_key(trait_name@),
            },
    {
        self.traits.get(trait_name)
    }

    /// Accepts an implementation and adds it to the list, or refuses it with
    /// a message: see [`implementation_error`].
    #[verifier::loop_isolation(false)]
    pub fn implement_trait(&mut self, impl_def: TraitImplementation) -> (r: Result<(), String>)
        ensures
            final(self).traits() == old(self).traits(),
            match implementation_error(old(self).traits(), old(self).implementations(), impl_def) {
                None => r is Ok && final(self).implementations() == old(self).implementations().push(
                    impl_def,
                ),
                Some(message) => r matches Err(m) && m@ == message
                    && final(self).implementations() == old(self).implementations(),
            },
    {
        let ghost list = self.implementations();
        let trait_def = match self.traits.get(impl_def.trait_name.as_str()) {
            Some(t) => t,
            None => {
                let mut message = String::from_str("Trait '");
                message.append(impl_def.trait_name.as_str());
                message.append("' does not exist");
                return Err(message);
            },
        };
        let mut i: usize = 0;
        while i < trait_def.required_traits.len()
            invariant
                i <= trait_def.required_traits.len(),
                list == self.implementations(),
                missing_requirement(
                    list,
                    impl_def.implementing_type@,
                    trait_def.required_traits@,
                    0,
                ) == missing_requirement(
                    list,
                    impl_def.implementing_type@,
                    trait_def.required_traits@,
                    i as int,
                ),
            decreases trait_def.required_traits.len() - i,
        {
            if !self.has_trait_implementation(
                impl_def.implementing_type.as_str(),
                trait_def.required_traits[i].as_str(),
            ) {
                let mut message = String::from_str("Type '");
                message.append(impl_def.implementing_type.as_str());
                message.append("' must implement required trait '");
                message.append(trait_def.required_traits[i].as_str());
                message.append("' before implementing '");
                message.append(impl_def.trait_name.as_str());
                message.append("'");
                return Err(message);
            }
            i += 1;
        }
        let mut j: usize = 0;
        while j < trait_def.methods.len()
            invariant
                j <= trait_def.methods.len(),
                missing_method(trait_def.methods@, impl_def.method_implementations@, 0)
                    == missing_method(
                    trait_def.methods@,
                    impl_def.method_implementations@,
                    j as int,
                ),
            decreases trait_def.methods.len() - j,
        {
            if !impl_def.method_implementations.contains_key(trait_def.methods[j].name.as_str()) {
                let mut message = String::from_str("Missing implementation for method '");
                message.append(trait_def.methods[j].name.as_str());
                message.append("' in trait '");
                message.append(impl_def.trait_name.as_str());
                message.append("'");
                return Err(message);
            }
            j += 1;
        }
        self.implementations.push(impl_def);
        Ok(())
    }

    /// The implementations for `of_type`, in the order in which they were
    /// accepted.
    pub fn get_implementations_for_type(&self, of_type: &str) -> (r: Vec<&TraitImplementation>)
        ensures
            r@.map_values(|x: &TraitImplementation| *x) == self.implementations().filter(
                |x: TraitImplementation| x.implementing_type@ == of_type@,
            ),
    {
        let wanted = String::from_str(of_type);
        let ghost pred = |x: TraitImplementation| x.implementing_type@ == of_type@;
        let mut out: Vec<&TraitImplementation> = Vec::new();
        let mut i: usize = 0;
        proof {
            reveal(Seq::filter);
            assert(self.implementations@.take(0).filter(pred) =~= Seq::empty());
        }
        while i < self.implementations.len()
            invariant
                i <= self.implementations.len(),
                wanted@ == of_type@,
                pred == |x: TraitImplementation| x.implementing_type@ == of_type@,
                out@.map_values(|x: &TraitImplementation| *x) == self.implementations@.take(
                    i as int,
                ).filter(pred),
            decreases self.implementations.len() - i,
        {
            let ghost before = out@.map_values(|x: &TraitImplementation| *x);
            proof {
                reveal(Seq::filter);
                let head = self.implementations@.take(i + 1);
                assert(head.drop_last() =~= self.implementations@.take(i as int));
                assert(head.last() == self.implementations@[i as int]);
            }
            if self.implementations[i].implementing_type == wanted {
                out.push(&self.implementations[i]);
                proof {
                    assert(out@.map_values(|x: &TraitImplementation| *x) =~= before.push(
                        self.implementations@[i as int],
                    ));
                }
            }
            i += 1;
        }
        proof {
            assert(self.implementations@.take(self.implementations.len() as int)
                =~= self.implementations@);
        }
        out
    }

    /// The implementations of `trait_name`, in the order in which they were
    /// accepted.
    pub fn get_implementations_of_trait(&self, trait_name: &str) -> (r: Vec<&TraitImplementation>)
        ensures
            r@.map_values(|x: &TraitImplementation| *x) == self.implementations().filter(
                |x: TraitImplementation| x.trait_name@ == trait_name@,
            ),
    {
        let wanted = String::from_str(trait_name);
        let ghost pred = |x: TraitImplementation| x.trait_name@ == trait_name@;
        let mut out: Vec<&TraitImplementation> = Vec::new();
        let mut i: usize = 0;
        proof {
            reveal(Seq::filter);
            assert(self.implementations@.take(0).filter(pred) =~= Seq::empty());
        }
        while i < self.implementations.len()
            invariant
                i <= self.implementations.len(),
                wanted@ == trait_name@,
                pred == |x: TraitImplementation| x.trait_name@ == trait_name@,
                out@.map_values(|x: &TraitImplementation| *x) == self.implementations@.take(
                    i as int,
                ).filter(pred),
            decreases self.implementations.len() - i,
        {
            let ghost before = out@.map_values(|x: &TraitImplementation| *x);
            proof {
                reveal(Seq::filter);
                let head = self.implementations@.take(i + 1);
                assert(head.drop_last() =~= self.implementations@.take(i as int));
                assert(head.last() == self.implementations@[i as int]);
            }
            if self.implementations[i].trait_name == wanted {
                out.push(&self.implementations[i]);
                proof {
                    assert(out@.map_values(|x: &TraitImplementation| *x) =~= before.push(
                        self.implementations@[i as int],
                    ));
                }
            }
            i += 1;
        }
        proof {
            assert(self.implementations@.take(self.implementations.len() as int)
                =~= self.implementations@);
        }
        out
    }
}

/// A property that a type may have.
#[derive(Debug, Clone, Copy, PartialEq, Eq, Structural)]
pub enum TypeCategory {
    Arithmetic,
    Integral,
    FloatingPoint,
    Signed,
    Unsigned,
    Compound,
    Fundamental,
    POD,
    Trivial,
    StandardLayout,
    Aggregate,
    Polymorphic,
    Abstract,
    Final,
    Reference,
    Pointer,
    MemberPointer,
}

/// What is known of a type: its category, its size and alignment where
/// known, and its qualifiers.
#[derive(Debug, Clone)]
pub struct TypeProperties {
    pub category: TypeCategory,
    pub size: Option<usize>,
    pub alignment: Option<usize>,
    pub is_const: bool,
    pub is_volatile: bool,
    pub is_restrict: bool,
}

impl TypeProperties {
    /// Properties of a type of the given category, of unknown size and
    /// alignment and without qualifiers.
    pub fn new(category: TypeCategory) -> (r: Self)
        ensures
            r == (TypeProperties {
                category,
                size: None,
                alignment: None,
                is_const: false,
                is_volatile: false,
                is_restrict: false,
            }),
    {
        TypeProperties {
            category,
            size: None,
            alignment: None,
            is_const: false,
            is_volatile: false,
            is_restrict: false,
        }
    }

    /// The same properties, qualified `const`.
    pub fn with_const(self) -> (r: Self)
        ensures
            r == (TypeProperties { is_const: true, ..self }),
    {
        let mut r = self;
        r.is_const = true;
        r
    }

    /// The same properties, qualified `volatile`.
    pub fn with_volatile(self) -> (r: Self)
        ensures
            r == (TypeProperties { is_volatile: true, ..self }),
    {
        let mut r = self;
        r.is_volatile = true;
        r
    }

    /// The same properties, qualified `restrict`.
    pub fn with_restrict(self) -> (r: Self)
        ensures
            r == (TypeProperties { is_restrict: true, ..self }),
    {
        let mut r = self;
        r.is_restrict = true;
        r
    }
}

} // verus!
