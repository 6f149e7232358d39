//! Templates, their instantiations and specializations, substitution of
//! arguments into a template body, and constraints on arguments.

use crate::text::{
    decimal, join, lemma_join_step, push_joined, replace_all, replace_text, size_string,
};
use vstd::hash_map::StringHashMap;
use vstd::prelude::*;
use vstd::string::StringExecFns;

verus! {

/// A parameter of a template.
#[derive(Debug, PartialEq)]
pub enum TemplateParameter {
    TypeParameter { name: String, default_type: Option<String> },
    ValueParameter { name: String, param_type: String, default_value: Option<String> },
    TemplateTemplateParameter { name: String, params: Vec<TemplateParameter> },
}

/// A template: its parameters, its body as text, and its specializations,
/// each a key (see [`specialization_key`]) with the body that stands for it.
/// Of two specializations with one key the later one counts.
#[derive(Debug, PartialEq)]
pub struct TemplateDeclaration {
    pub name: String,
    pub parameters: Vec<TemplateParameter>,
    pub body: String,
    pub specializations: Vec<(String, String)>,
}

/// An argument of a template.
#[derive(Debug, PartialEq)]
pub enum TemplateArgument {
    Type(String),
    Value(String),
    Template(TemplateDeclaration),
}

/// A use of a template with arguments, and the name of the type it gives.
#[derive(Debug, PartialEq)]
pub struct TemplateInstantiation {
    pub template_name: String,
    pub arguments: Vec<TemplateArgument>,
    pub instantiated_type: String,
}

/// The index of the first template called `name`, if there is one.
pub open spec fn template_index(list: Seq<TemplateDeclaration>, name: Seq<char>, from: int) -> Option<
    int,
>
    decreases list.len() - from,
{
    if from < 0 || from >= list.len() {
        None
    } else if list[from].name@ == name {
        Some(from)
    } else {
        template_index(list, name, from + 1)
    }
}

/// The part that an argument adds to the key of a specialization.
pub open spec fn argument_key(a: TemplateArgument) -> Seq<char> {
    match a {
        TemplateArgument::Type(t) => "type_"@ + t@,
        TemplateArgument::Value(v) => "value_"@ + v@,
        TemplateArgument::Template(t) => "template_"@ + t.name@,
    }
}

/// The key of a specialization: the parts of its arguments with `_` between
/// them.
pub open spec fn specialization_key(arguments: Seq<TemplateArgument>) -> Seq<char> {
    join(arguments.map_values(|a: TemplateArgument| argument_key(a)), "_"@)
}

/// `after` is `before` with one more specialization, of key `key` and body
/// `body`, at the end of those of the template at index `i`.
pub open spec fn specialized(
    before: Seq<TemplateDeclaration>,
    after: Seq<TemplateDeclaration>,
    i: int,
    key: Seq<char>,
    body: String,
) -> bool {
    &&& after.len() == before.len()
    &&& forall|j: int| 0 <= j < before.len() && j != i ==> after[j] == before[j]
    &&& after[i].name == before[i].name
    &&& after[i].parameters == before[i].parameters
    &&& after[i].body == before[i].body
    &&& after[i].specializations@.len() == before[i].specializations@.len() + 1
    &&& after[i].specializations@.last().0@ == key
    &&& after[i].specializations@.last().1 == body
    &&& after[i].specializations@.drop_last() == before[i].specializations@
}

/// The message for a template that is not defined.
pub open spec fn not_found(name: Seq<char>) -> Seq<char> {
    "Template '"@ + name + "' not found"@
}

/// The message for a wrong number of arguments.
pub open spec fn count_mismatch(expected: int, actual: int) -> Seq<char> {
    "Template argument count mismatch: expected "@ + decimal(expected) + ", got "@ + decimal(
        actual,
    )
}

/// The templates that are defined and the instantiations that were made.
pub struct TemplateSystem {
    templates: Vec<TemplateDeclaration>,
    instantiations: StringHashMap<TemplateInstantiation>,
}

impl TemplateSystem {
    /// The templates, in the order in which they were defined.
    pub closed spec fn templates(&self) -> Seq<TemplateDeclaration> {
        self.templates@
    }

    /// The instantiations, by the name of the type they give.
    pub closed spec fn instantiations(&self) -> Map<Seq<char>, TemplateInstantiation> {
        self.instantiations@
    }

    /// A system without templates and instantiations.
    pub fn new() -> (r: Self)
        ensures
            r.templates() == Seq::<TemplateDeclaration>::empty(),
            r.instantiations() == Map::<Seq<char>, TemplateInstantiation>::empty(),
    {
        TemplateSystem { templates: Vec::new(), instantiations: StringHashMap::new() }
    }

    /// The index of the template called `name`.
    fn find(&self, name: &str) -> (r: Option<usize>)
        ensures
            match r {
                Some(i) => i < self.templates().len() && template_index(self.templates(), name@, 0)
                    == Some(i as int),
                None => template_index(self.templates(), name@, 0) is None,
            },
    {
        let wanted = String::from_str(name);
        let mut i: usize = 0;
        while i < self.templates.len()
            invariant
                i <= self.templates.len(),
                wanted@ == name@,
                template_index(self.templates@, name@, 0) == template_index(
                    self.templates@,
                    name@,
                    i as int,
                ),
            decreases self.templates.len() - i,
        {
            if self.templates[i].name == wanted {
                return Some(i);
            }
            i += 1;
        }
        None
    }

    /// Whether a template is defined under `name`.
    pub fn has_template(&self, name: &str) -> (r: bool)
        ensures
            r == (template_index(self.templates(), name@, 0) is Some),
    {
        self.find(name).is_some()
    }

    /// The template defined under `name`, if there is one.
    pub fn get_template(&self, name: &str) -> (r: Option<&TemplateDeclaration>)
        ensures
            match template_index(self.templates(), name@, 0) {
                Some(i) => r == Some(&self.templates()[i]),
                None => r is None,
            },
    {
        match self.find(name) {
            Some(i) => Some(&self.templates[i]),
            None => None,
        }
    }

    /// The parameters of the template defined under `name`, if there is one.
    pub fn get_template_parameters(&self, name: &str) -> (r: Option<&[TemplateParameter]>)
        ensures
            match template_index(self.templates(), name@, 0) {
                Some(i) => r matches Some(p) && p@ == self.templates()[i].parameters@,
                None => r is None,
            },
    {
        match self.find(name) {
            Some(i) => Some(self.templates[i].parameters.as_slice()),
            None => None,
        }
    }

    /// Defines a template under its name, unless the name is taken.
    pub fn define_template(&mut self, template: TemplateDeclaration) -> (r: Result<(), String>)
        ensures
            final(self).instantiations() == old(self).instantiations(),
            match r {
                Ok(_) => {
                    &&& template_index(old(self).templates(), template.name@, 0) is None
                    &&& final(self).templates() == old(self).templates().push(template)
                },
                Err(message) => {
                    &&& template_index(old(self).templates(), template.name@, 0) is Some
                    &&& message@ == "Template '"@ + template.name@ + "' already defined"@
                    &&& final(self).templates() == old(self).templates()
                },
            },
    {
        if self.has_template(template.name.as_str()) {
            let mut message = String::from_str("Template '");
            message.append(template.name.as_str());
            message.append("' already defined");
            return Err(message);
        }
        self.templates.push(template);
        Ok(())
    }

    /// Whether an instantiation gives the type `name`.
    pub fn has_instantiation(&self, name: &str) -> (r: bool)
        ensures
            r == self.instantiations().contains_key(name@),
    {
        self.instantiations.contains_key(name)
    }

    /// The instantiation that gives the type `name`, if there is one.
    pub fn get_instantiation(&self, name: &str) -> (r: Option<&TemplateInstantiation>)
        ensures
            match r {
                Some(i) => self.instantiations().contains_key(name@) && *i
                    == self.instantiations()[name@],
                None => !self.instantiations().contains_key(name@),
            },
    {
        self.instantiations.get(name)
    }

    /// Records an instantiation under the name of the type it gives, and
    /// returns that name. The template must be defined and take as many
    /// parameters as there are arguments.
    pub fn instantiate_template(&mut self, instantiation: TemplateInstantiation) -> (r: Result<
        String,
        String,
    >)
        ensures
            final(self).templates() == old(self).templates(),
            match template_index(old(self).templates(), instantiation.template_name@, 0) {
                None => r matches Err(m) && m@ == not_found(instantiation.template_name@)
                    && final(self).instantiations() == old(self).instantiations(),
                Some(i) => if old(self).templates()[i].parameters@.len()
                    != instantiation.arguments@.len() {
                    r matches Err(m) && m@ == count_mismatch(
                        old(self).templates()[i].parameters@.len() as int,
                        instantiation.arguments@.len() as int,
                    ) && final(self).instantiations() == old(self).instantiations()
                } else {
                    r matches Ok(name) && name@ == instantiation.instantiated_type@
                        && final(self).instantiations() == old(self).instantiations().insert(
                        instantiation.instantiated_type@,
                        instantiation,
                    )
                },
            },
    {
        let index = match self.find(instantiation.template_name.as_str()) {
            Some(i) => i,
            None => {
                let mut message = String::from_str("Template '");
                message.append(instantiation.template_name.as_str());
                message.append("' not found");
                return Err(message);
            },
        };
        let expected = self.templates[index].parameters.len();
        let actual = instantiation.arguments.len();
        if actual != expected {
            let mut message = String::from_str("Template argument count mismatch: expected ");
            let e = size_string(expected);
            message.append(e.as_str());
            message.append(", got ");
            let a = size_string(actual);
            message.append(a.as_str());
            return Err(message);
        }
        let name = instantiation.instantiated_type.clone();
        self.instantiations.insert(name.clone(), instantiation);
        Ok(name)
    }

    /// The key of a specialization: see [`specialization_key`].
    pub fn create_specialization_key(&self, args: &[TemplateArgument]) -> (r: String)
        ensures
            r@ == specialization_key(args@),
    {
        let ghost parts = args@.map_values(|a: TemplateArgument| argument_key(a));
        let mut out = String::new();
        let mut i: usize = 0;
        while i < args.len()
            invariant
                i <= args.len(),
                parts == args@.map_values(|a: TemplateArgument| argument_key(a)),
                out@ == join(parts.take(i as int), "_"@),
            decreases args.len() - i,
        {
            let part = match &args[i] {
                TemplateArgument::Type(t) => {
                    let mut s = String::from_str("type_");
                    s.append(t.as_str());
                    s
                },
                TemplateArgument::Value(v) => {
                    let mut s = String::from_str("value_");
                    s.append(v.as_str());
                    s
                },
                TemplateArgument::Template(t) => {
                    let mut s = String::from_str("template_");
                    s.append(t.name.as_str());
                    s
                },
            };
            push_joined(&mut out, i, "_", part.as_str());
            proof {
                lemma_join_step(parts, "_"@, i as int);
                assert(parts[i as int] == part@);
                assert(out@ =~= join(parts.take(i + 1), "_"@));
            }
            i += 1;
        }
        proof {
            assert(parts.take(args.len() as int) =~= parts);
        }
        out
    }

    /// Adds a specialization to the template defined under `template_name`:
    /// the key of the arguments with the body that stands for them.
    pub fn specialize_template(
        &mut self,
        template_name: &str,
        specialization_args: &[TemplateArgument],
        body: String,
    ) -> (r: Result<(), String>)
        ensures
            final(self).instantiations() == old(self).instantiations(),
            match template_index(old(self).templates(), template_name@, 0) {
                None => r matches Err(m) && m@ == not_found(template_name@)
                    && final(self).templates() == old(self).templates(),
                Some(i) => r is Ok && specialized(
                    old(self).templates(),
                    final(self).templates(),
                    i,
                    specialization_key(specialization_args@),
                    body,
                ),
            },
    {
        let index = match self.find(template_name) {
            Some(i) => i,
            None => {
                let mut message = String::from_str("Template '");
                message.append(template_name);
                message.append("' not found");
                return Err(message);
            },
        };
        let key = self.create_specialization_key(specialization_args);
        let mut list: Vec<(String, String)> = Vec::new();
        std::mem::swap(&mut list, &mut self.templates[index].specializations);
        let ghost before = list@;
        list.push((key, body));
        std::mem::swap(&mut list, &mut self.templates[index].specializations);
        proof {
            assert(self.templates@[index as int].specializations@.drop_last() =~= before);
        }
        Ok(())
    }
}

/// The models of a list of pairs of strings.
pub open spec fn pairs_model(list: Seq<(String, String)>) -> Seq<(Seq<char>, Seq<char>)> {
    list.map_values(|p: (String, String)| (p.0@, p.1@))
}

/// The index of the first pair from index `from` on whose first part is
/// `key`.
pub open spec fn key_index(pairs: Seq<(Seq<char>, Seq<char>)>, key: Seq<char>, from: int) -> Option<
    int,
>
    decreases pairs.len() - from,
{
    if from < 0 || from >= pairs.len() {
        None
    } else if pairs[from].0 == key {
        Some(from)
    } else {
        key_index(pairs, key, from + 1)
    }
}

/// The pairs with `value` for `key`: in the place of the pair that had the
/// key, or at the end if there was none.
pub open spec fn with_entry(
    pairs: Seq<(Seq<char>, Seq<char>)>,
    key: Seq<char>,
    value: Seq<char>,
) -> Seq<(Seq<char>, Seq<char>)> {
    match key_index(pairs, key, 0) {
        Some(i) => pairs.update(i, (key, value)),
        None => pairs.push((key, value)),
    }
}

/// How a parameter is written in a template body: its name in braces.
pub open spec fn placeholder(param: Seq<char>) -> Seq<char> {
    "{"@ + param + "}"@
}

/// `body` after the first `upto` substitutions, made one after another:
/// each replaces every placeholder of its parameter by its argument.
pub open spec fn substituted(body: Seq<char>, pairs: Seq<(Seq<char>, Seq<char>)>, upto: int) -> Seq<
    char,
>
    decreases upto,
{
    if upto <= 0 || upto > pairs.len() {
        body
    } else {
        replace_all(substituted(body, pairs, upto - 1), placeholder(pairs[upto - 1].0), pairs[upto
            - 1].1)
    }
}

/// Sets the value for a key in a list of pairs: see [`with_entry`].
fn set_entry(list: &mut Vec<(String, String)>, key: String, value: String)
    ensures
        pairs_model(final(list)@) == with_entry(pairs_model(old(list)@), key@, value@),
{
    let ghost before = pairs_model(list@);
    let mut i: usize = 0;
    while i < list.len()
        invariant
            i <= list.len(),
            *list == *old(list),
            before == pairs_model(list@),
            key_index(before, key@, 0) == key_index(before, key@, i as int),
        decreases list.len() - i,
    {
        if list[i].0 == key {
            list.set(i, (key, value));
            proof {
                assert(pairs_model(list@) =~= before.update(i as int, (key@, value@)));
            }
            return ;
        }
        i += 1;
    }
    list.push((key, value));
    proof {
        assert(pairs_model(list@) =~= before.push((key@, value@)));
    }
}

/// `text` with the placeholders of every pair replaced, one pair after
/// another: see [`substituted`].
fn substitute(text: String, list: &Vec<(String, String)>) -> (r: String)
    ensures
        r@ == substituted(text@, pairs_model(list@), list@.len() as int),
{
    let ghost pairs = pairs_model(list@);
    let ghost body = text@;
    let mut result = text;
    let mut i: usize = 0;
    while i < list.len()
        invariant
            i <= list.len(),
            pairs == pairs_model(list@),
            result@ == substituted(body, pairs, i as int),
        decreases list.len() - i,
    {
        let mut pattern = String::from_str("{");
        pattern.append(list[i].0.as_str());
        pattern.append("}");
        proof {
            assert(pairs[i as int] == (list@[i as int].0@, list@[i as int].1@));
        }
        result = replace_text(result.as_str(), pattern.as_str(), list[i].1.as_str());
        i += 1;
    }
    result
}

/// Arguments for the parameters of a template: types, values and templates,
/// each a list of pairs of a parameter and its argument, in the order in
/// which the parameters were first given one.
pub struct TemplateSubstitution {
    pub type_map: Vec<(String, String)>,
    pub value_map: Vec<(String, String)>,
    pub template_map: Vec<(String, String)>,
}

impl TemplateSubstitution {
    /// A substitution without arguments.
    pub fn new() -> (r: Self)
        ensures
            r.type_map@.len() == 0,
            r.value_map@.len() == 0,
            r.template_map@.len() == 0,
    {
        TemplateSubstitution { type_map: Vec::new(), value_map: Vec::new(), template_map: Vec::new() }
    }

    /// Gives the type parameter `param` the argument `arg`.
    pub fn add_type_substitution(&mut self, param: String, arg: String)
        ensures
            pairs_model(final(self).type_map@) == with_entry(
                pairs_model(old(self).type_map@),
                param@,
                arg@,
            ),
            final(self).value_map == old(self).value_map,
            final(self).template_map == old(self).template_map,
    {
        set_entry(&mut self.type_map, param, arg);
    }

    /// Gives the value parameter `param` the argument `arg`.
    pub fn add_value_substitution(&mut self, param: String, arg: String)
        ensures
            pairs_model(final(self).value_map@) == with_entry(
                pairs_model(old(self).value_map@),
                param@,
                arg@,
            ),
            final(self).type_map == old(self).type_map,
            final(self).template_map == old(self).template_map,
    {
        set_entry(&mut self.value_map, param, arg);
    }

    /// The body with the arguments in the place of the placeholders: first
    /// the types, then the values, each list in its order.
    pub fn apply_to_body(&self, body: &str) -> (r: String)
        ensures
            r@ == substituted(
                substituted(body@, pairs_model(self.type_map@), self.type_map@.len() as int),
                pairs_model(self.value_map@),
                self.value_map@.len() as int,
            ),
    {
        let with_types = substitute(String::from_str(body), &self.type_map);
        substitute(with_types, &self.value_map)
    }
}

/// The index of the first entry from index `from` on that is for `param`.
pub open spec fn constraint_index(list: Seq<(String, Vec<String>)>, param: Seq<char>, from: int) -> Option<
    int,
>
    decreases list.len() - from,
{
    if from < 0 || from >= list.len() {
        None
    } else if list[from].0@ == param {
        Some(from)
    } else {
        constraint_index(list, param, from + 1)
    }
}

/// `after` is `before` with `constraint` added for `param`: at the end of
/// the entry of the parameter, or in a new entry at the end.
pub open spec fn constrained(
    before: Seq<(String, Vec<String>)>,
    after: Seq<(String, Vec<String>)>,
    param: String,
    constraint: String,
) -> bool {
    match constraint_index(before, param@, 0) {
        Some(i) => {
            &&& after.len() == before.len()
            &&& forall|j: int| 0 <= j < before.len() && j != i ==> after[j] == before[j]
            &&& after[i].0 == before[i].0
            &&& after[i].1@ == before[i].1@.push(constraint)
        },
        None => {
            &&& after.len() == before.len() + 1
            &&& after.drop_last() == before
            &&& after.last().0 == param
            &&& after.last().1@ == seq![constraint]
        },
    }
}

/// Constraints on the arguments of a template.
pub struct TemplateConstraints {
    pub requires_clause: Option<String>,
    pub concept_requirements: Vec<String>,
    pub type_constraints: Vec<(String, Vec<String>)>,
}

impl TemplateConstraints {
    /// No constraints.
    pub fn new() -> (r: Self)
        ensures
            r.requires_clause is None,
            r.concept_requirements@.len() == 0,
            r.type_constraints@.len() == 0,
    {
        TemplateConstraints {
            requires_clause: None,
            concept_requirements: Vec::new(),
            type_constraints: Vec::new(),
        }
    }

    /// Adds a concept that the arguments must satisfy.
    pub fn add_concept_requirement(&mut self, concept: String)
        ensures
            final(self).concept_requirements@ == old(self).concept_requirements@.push(concept),
            final(self).requires_clause == old(self).requires_clause,
            final(self).type_constraints == old(self).type_constraints,
    {
        self.concept_requirements.push(concept);
    }

    /// Adds a constraint for a parameter: see [`constrained`].
    pub fn add_type_constraint(&mut self, param: String, constraint: String)
        ensures
            constrained(
                old(self).type_constraints@,
                final(self).type_constraints@,
                param,
                constraint,
            ),
            final(self).requires_clause == old(self).requires_clause,
            final(self).concept_requirements == old(self).concept_requirements,
    {
        let ghost before = self.type_constraints@;
        let mut i: usize = 0;
        while i < self.type_constraints.len()
            invariant
                i <= self.type_constraints.len(),
                *self == *old(self),
                before == self.type_constraints@,
                constraint_index(before, param@, 0) == constraint_index(before, param@, i as int),
            decreases self.type_constraints.len() - i,
        {
            if self.type_constraints[i].0 == param {
                let mut list: Vec<String> = Vec::new();
                std::mem::swap(&mut list, &mut self.type_constraints[i].1);
                list.push(constraint);
                std::mem::swap(&mut list, &mut self.type_constraints[i].1);
                return ;
            }
            i += 1;
        }
        let mut list: Vec<String> = Vec::new();
        list.push(constraint);
        self.type_constraints.push((param, list));
        proof {
            assert(self.type_constraints@.drop_last() =~= before);
        }
    }

    /// Checks arguments against the constraints. Nothing is checked yet:
    /// every list of arguments is accepted.
    pub fn validate_arguments(&self, _args: &[TemplateArgument]) -> (r: Result<(), String>)
        ensures
            r is Ok,
    {
        Ok(())
    }
}

} // verus!
