//! Functions and modules.

use crate::ir::basic_block::{
    block_index, blocks_model, check_blocks, graph_error, index_of, BasicBlock, ControlFlowGraph,
    SpecBlock, SpecGraph,
};
use crate::ir::error::IRError;
use crate::model::same_failure;
use crate::types::type_::{SpecType, Type};
use vstd::hash_map::StringHashMap;
use vstd::prelude::*;
use vstd::string::StringExecFns;

verus! {

/// A parameter of a function.
#[derive(Debug, Clone, PartialEq)]
pub struct Parameter {
    pub name: String,
    pub param_type: Type,
}

/// Model of [`Parameter`].
pub struct SpecParameter {
    pub name: Seq<char>,
    pub param_type: SpecType,
}

impl View for Parameter {
    type V = SpecParameter;

    open spec fn view(&self) -> SpecParameter {
        SpecParameter { name: self.name@, param_type: self.param_type@ }
    }
}

/// The models of the types of a table of variables.
pub open spec fn variables_model(table: Map<Seq<char>, Type>) -> Map<Seq<char>, SpecType> {
    table.map_values(|t: Type| t@)
}

/// A function: its blocks in the order in which they were added, the name
/// of the block at which it is entered, and the types of its parameters
/// and of the variables it allocates.
pub struct Function {
    pub name: String,
    pub return_type: Type,
    pub parameters: Vec<Parameter>,
    pub basic_blocks: Vec<BasicBlock>,
    pub entry_block: String,
    pub local_variables: StringHashMap<Type>,
}

/// Model of [`Function`].
pub struct SpecFunction {
    pub name: Seq<char>,
    pub return_type: SpecType,
    pub parameters: Seq<SpecParameter>,
    pub blocks: Seq<SpecBlock>,
    pub entry_block: Seq<char>,
    pub local_variables: Map<Seq<char>, SpecType>,
}

impl View for Function {
    type V = SpecFunction;

    open spec fn view(&self) -> SpecFunction {
        SpecFunction {
            name: self.name@,
            return_type: self.return_type@,
            parameters: self.parameters@.map_values(|p: Parameter| p@),
            blocks: blocks_model(self.basic_blocks@),
            entry_block: self.entry_block@,
            local_variables: variables_model(self.local_variables@),
        }
    }
}

/// The graph of a function.
pub open spec fn function_graph(f: SpecFunction) -> SpecGraph {
    SpecGraph { blocks: f.blocks, entry_block: f.entry_block }
}

impl Function {
    /// A function without parameters, blocks and variables, to be entered
    /// at the block `entry`.
    pub fn new(name: String, return_type: Type) -> (r: Self)
        ensures
            r@ == (SpecFunction {
                name: name@,
                return_type: return_type@,
                parameters: Seq::empty(),
                blocks: Seq::empty(),
                entry_block: "entry"@,
                local_variables: Map::empty(),
            }),
    {
        let r = Function {
            name,
            return_type,
            parameters: Vec::new(),
            basic_blocks: Vec::new(),
            entry_block: String::from_str("entry"),
            local_variables: StringHashMap::new(),
        };
        proof {
            assert(r@.parameters =~= Seq::<SpecParameter>::empty());
            assert(r@.blocks =~= Seq::<SpecBlock>::empty());
            assert(r@.local_variables =~= Map::<Seq<char>, SpecType>::empty());
        }
        r
    }

    /// The function with one more parameter.
    pub fn add_parameter(self, param: Parameter) -> (r: Self)
        ensures
            r@ == (SpecFunction { parameters: self@.parameters.push(param@), ..self@ }),
    {
        let mut r = self;
        r.parameters.push(param);
        proof {
            assert(r@.parameters =~= self@.parameters.push(param@));
        }
        r
    }

    /// Adds a block at the end.
    pub fn add_basic_block(&mut self, block: BasicBlock)
        ensures
            final(self)@ == (SpecFunction { blocks: old(self)@.blocks.push(block@), ..old(self)@ }),
    {
        self.basic_blocks.push(block);
        proof {
            assert(self@.blocks =~= old(self)@.blocks.push(block@));
        }
    }

    /// Records the type of a variable; a type recorded before for the name
    /// is replaced.
    pub fn add_local_variable(&mut self, name: String, var_type: Type)
        ensures
            final(self)@ == (SpecFunction {
                local_variables: old(self)@.local_variables.insert(name@, var_type@),
                ..old(self)@
            }),
    {
        self.local_variables.insert(name, var_type);
        proof {
            assert(self@.local_variables =~= old(self)@.local_variables.insert(name@, var_type@));
        }
    }

    /// The block called `name`: the first that bears the name.
    pub fn get_basic_block(&self, name: &str) -> (r: Option<&BasicBlock>)
        ensures
            match block_index(self@.blocks, name@, 0) {
                Some(i) => r == Some(&self.basic_blocks@[i]),
                None => r is None,
            },
    {
        let wanted = String::from_str(name);
        match index_of(&self.basic_blocks, &wanted) {
            Some(i) => Some(&self.basic_blocks[i]),
            None => None,
        }
    }

    /// The block called `name`, to be changed in its place.
    pub fn get_basic_block_mut(&mut self, name: &str) -> (r: Option<&mut BasicBlock>)
        ensures
            final(self).name == old(self).name,
            final(self).return_type == old(self).return_type,
            final(self).parameters == old(self).parameters,
            final(self).entry_block == old(self).entry_block,
            final(self).local_variables == old(self).local_variables,
            match block_index(old(self)@.blocks, name@, 0) {
                Some(i) => r matches Some(b) && *b == old(self).basic_blocks@[i]
                    && final(self).basic_blocks@ == old(self).basic_blocks@.update(i, *final(b)),
                None => r is None && final(self).basic_blocks@ == old(self).basic_blocks@,
            },
    {
        let wanted = String::from_str(name);
        match index_of(&self.basic_blocks, &wanted) {
            Some(i) => Some(&mut self.basic_blocks[i]),
            None => None,
        }
    }

    /// The number of blocks.
    pub fn len(&self) -> (r: usize)
        ensures
            r == self@.blocks.len(),
    {
        self.basic_blocks.len()
    }

    /// Whether the function has no block.
    pub fn is_empty(&self) -> (r: bool)
        ensures
            r == (self@.blocks.len() == 0),
    {
        self.basic_blocks.len() == 0
    }

    /// Checks the graph of the function: see [`graph_error`].
    pub fn validate(&self) -> (r: Result<(), IRError>)
        ensures
            same_failure(r, graph_error(function_graph(self@))),
    {
        check_blocks(&self.basic_blocks, &self.entry_block)
    }

    /// The graph of the function: its blocks and the name of its entry
    /// block. The rest of the function is given up.
    pub fn into_graph(self) -> (r: ControlFlowGraph)
        ensures
            r@ == function_graph(self@),
    {
        ControlFlowGraph { blocks: self.basic_blocks, entry_block: self.entry_block }
    }
}

/// A module: functions in the order in which they were added, and the
/// types of the global variables.
pub struct Module {
    pub name: String,
    pub functions: Vec<Function>,
    pub global_variables: StringHashMap<Type>,
}

/// Model of [`Module`].
pub struct SpecModule {
    pub name: Seq<char>,
    pub functions: Seq<SpecFunction>,
    pub global_variables: Map<Seq<char>, SpecType>,
}

impl View for Module {
    type V = SpecModule;

    open spec fn view(&self) -> SpecModule {
        SpecModule {
            name: self.name@,
            functions: self.functions@.map_values(|f: Function| f@),
            global_variables: variables_model(self.global_variables@),
        }
    }
}

/// The index of the first function from index `from` on that is called
/// `name`.
pub open spec fn function_index(list: Seq<SpecFunction>, name: Seq<char>, from: int) -> Option<int>
    decreases list.len() - from,
{
    if from < 0 || from >= list.len() {
        None
    } else if list[from].name == name {
        Some(from)
    } else {
        function_index(list, name, from + 1)
    }
}

impl Module {
    /// A module without functions and variables.
    pub fn new(name: String) -> (r: Self)
        ensures
            r@ == (SpecModule {
                name: name@,
                functions: Seq::empty(),
                global_variables: Map::empty(),
            }),
    {
        let r = Module { name, functions: Vec::new(), global_variables: StringHashMap::new() };
        proof {
            assert(r@.functions =~= Seq::<SpecFunction>::empty());
            assert(r@.global_variables =~= Map::<Seq<char>, SpecType>::empty());
        }
        r
    }

    /// Adds a function at the end.
    pub fn add_function(&mut self, func: Function)
        ensures
            final(self)@ == (SpecModule {
                functions: old(self)@.functions.push(func@),
                ..old(self)@
            }),
    {
        self.functions.push(func);
        proof {
            assert(self@.functions =~= old(self)@.functions.push(func@));
        }
    }

    /// Records the type of a global variable; a type recorded before for
    /// the name is replaced.
    pub fn add_global_variable(&mut self, name: String, var_type: Type)
        ensures
            final(self)@ == (SpecModule {
                global_variables: old(self)@.global_variables.insert(name@, var_type@),
                ..old(self)@
            }),
    {
        self.global_variables.insert(name, var_type);
        proof {
            assert(self@.global_variables =~= old(self)@.global_variables.insert(
                name@,
                var_type@,
            ));
        }
    }

    /// The index of the function called `name`.
    fn find(&self, name: &str) -> (r: Option<usize>)
        ensures
            match r {
                Some(i) => i < self.functions@.len() && function_index(self@.functions, name@, 0)
                    == Some(i as int),
                None => function_index(self@.functions, name@, 0) is None,
            },
    {
        let wanted = String::from_str(name);
        let ghost models = self@.functions;
        let mut i: usize = 0;
        while i < self.functions.len()
            invariant
                i <= self.functions.len(),
                wanted@ == name@,
                models == self@.functions,
                function_index(models, name@, 0) == function_index(models, name@, i as int),
            decreases self.functions.len() - i,
        {
            if self.functions[i].name == wanted {
                return Some(i);
            }
            i += 1;
        }
        None
    }

    /// The function called `name`: the first that bears the name.
    pub fn get_function(&self, name: &str) -> (r: Option<&Function>)
        ensures
            match function_index(self@.functions, name@, 0) {
                Some(i) => r == Some(&self.functions@[i]),
                None => r is None,
            },
    {
        match self.find(name) {
            Some(i) => Some(&self.functions[i]),
            None => None,
        }
    }

    /// The function called `name`, to be changed in its place.
    pub fn get_function_mut(&mut self, name: &str) -> (r: Option<&mut Function>)
        ensures
            final(self).name == old(self).name,
            final(self).global_variables == old(self).global_variables,
            match function_index(old(self)@.functions, name@, 0) {
                Some(i) => r matches Some(f) && *f == old(self).functions@[i]
                    && final(self).functions@ == old(self).functions@.update(i, *final(f)),
                None => r is None && final(self).functions@ == old(self).functions@,
            },
    {
        match self.find(name) {
            Some(i) => Some(&mut self.functions[i]),
            None => None,
        }
    }
}

} // verus!
