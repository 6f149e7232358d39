//! Basic blocks and the graph they form.

use crate::ir::error::{IRError, SpecIRError};
use crate::ir::instruction::{is_terminator, Instruction, SpecInstruction};
use crate::model::same_failure;
use vstd::prelude::*;
use vstd::string::StringExecFns;

verus! {

/// A block: instructions that do not end it, in order, and at most one
/// terminator, which comes last.
#[derive(Debug, Clone, PartialEq)]
pub struct BasicBlock {
    pub name: String,
    pub instructions: Vec<Instruction>,
    pub terminator: Option<Instruction>,
}

/// Model of [`BasicBlock`].
pub struct SpecBlock {
    pub name: Seq<char>,
    pub instructions: Seq<SpecInstruction>,
    pub terminator: Option<SpecInstruction>,
}

impl View for BasicBlock {
    type V = SpecBlock;

    open spec fn view(&self) -> SpecBlock {
        SpecBlock {
            name: self.name@,
            instructions: self.instructions@.map_values(|i: Instruction| i@),
            terminator: match self.terminator {
                Some(i) => Some(i@),
                None => None,
            },
        }
    }
}

/// The block with one more instruction, or the error of adding to a block
/// that has its terminator. A terminator seals the block.
pub open spec fn block_add(b: SpecBlock, i: SpecInstruction) -> Result<SpecBlock, SpecIRError> {
    if b.terminator is Some {
        Err(SpecIRError::TerminatedBlock { block: b.name })
    } else if is_terminator(i) {
        Ok(SpecBlock { terminator: Some(i), ..b })
    } else {
        Ok(SpecBlock { instructions: b.instructions.push(i), ..b })
    }
}

/// The block after the instructions from index `from` on were added one
/// after another, or the block as it was when one could not be added.
pub open spec fn block_add_all(b: SpecBlock, list: Seq<SpecInstruction>, from: int) -> SpecBlock
    decreases list.len() - from,
{
    if from < 0 || from >= list.len() {
        b
    } else {
        match block_add(b, list[from]) {
            Ok(next) => block_add_all(next, list, from + 1),
            Err(_) => b,
        }
    }
}

/// The error of adding the instructions from index `from` on, if one of
/// them cannot be added.
pub open spec fn block_add_all_error(b: SpecBlock, list: Seq<SpecInstruction>, from: int) -> Option<
    SpecIRError,
>
    decreases list.len() - from,
{
    if from < 0 || from >= list.len() {
        None
    } else {
        match block_add(b, list[from]) {
            Ok(next) => block_add_all_error(next, list, from + 1),
            Err(error) => Some(error),
        }
    }
}

/// What holds of a block that was built by adding instructions: none of
/// its instructions is a terminator, and its terminator is one.
pub open spec fn block_wf(b: SpecBlock) -> bool {
    &&& forall|i: int| 0 <= i < b.instructions.len() ==> !is_terminator(#[trigger] b.instructions[i])
    &&& b.terminator matches Some(t) ==> is_terminator(t)
}

/// The number of instructions of a block, its terminator included.
pub open spec fn block_len(b: SpecBlock) -> nat {
    b.instructions.len() + if b.terminator is Some {
        1nat
    } else {
        0nat
    }
}

impl BasicBlock {
    /// A block without instructions.
    pub fn new(name: String) -> (r: Self)
        ensures
            r@ == (SpecBlock { name: name@, instructions: Seq::empty(), terminator: None }),
            block_wf(r@),
    {
        let r = BasicBlock { name, instructions: Vec::new(), terminator: None };
        proof {
            assert(r@.instructions =~= Seq::<SpecInstruction>::empty());
        }
        r
    }

    /// Adds an instruction at the end of the block: see [`block_add`]. A
    /// block that has its terminator takes no more; it is left as it was.
    pub fn add_instruction(&mut self, instr: Instruction) -> (r: Result<(), IRError>)
        ensures
            match block_add(old(self)@, instr@) {
                Ok(b) => r is Ok && final(self)@ == b,
                Err(error) => r matches Err(e) && e@ == error && final(self)@ == old(self)@,
            },
            block_wf(old(self)@) ==> block_wf(final(self)@),
    {
        if self.terminator.is_some() {
            return Err(IRError::TerminatedBlock { block: self.name.clone() });
        }
        if instr.is_terminator() {
            self.terminator = Some(instr);
        } else {
            let ghost before = self@.instructions;
            self.instructions.push(instr);
            proof {
                assert(self@.instructions =~= before.push(instr@));
            }
        }
        Ok(())
    }

    /// Adds instructions one after another, up to the first that cannot be
    /// added: see [`block_add_all`].
    pub fn add_instructions(&mut self, instrs: Vec<Instruction>) -> (r: Result<(), IRError>)
        ensures
            final(self)@ == block_add_all(
                old(self)@,
                instrs@.map_values(|i: Instruction| i@),
                0,
            ),
            same_failure(
                r,
                block_add_all_error(old(self)@, instrs@.map_values(|i: Instruction| i@), 0),
            ),
            block_wf(old(self)@) ==> block_wf(final(self)@),
    {
        let ghost all = instrs@;
        let ghost models = all.map_values(|i: Instruction| i@);
        for instr in it: instrs
            invariant
                it.seq() == all,
                models == all.map_values(|i: Instruction| i@),
                block_add_all(self@, models, it.index() as int) == block_add_all(
                    old(self)@,
                    models,
                    0,
                ),
                block_add_all_error(self@, models, it.index() as int) == block_add_all_error(
                    old(self)@,
                    models,
                    0,
                ),
                block_wf(old(self)@) ==> block_wf(self@),
        {
            assert(instr@ == models[it.index() as int]);
            match self.add_instruction(instr) {
                Ok(_) => {},
                Err(error) => {
                    return Err(error);
                },
            }
        }
        Ok(())
    }

    /// Whether the block has its terminator.
    pub fn is_terminated(&self) -> (r: bool)
        ensures
            r == (self@.terminator is Some),
    {
        self.terminator.is_some()
    }

    /// The number of instructions, the terminator included.
    pub fn len(&self) -> (r: usize)
        requires
            block_len(self@) <= usize::MAX,
        ensures
            r == block_len(self@),
    {
        if self.terminator.is_some() {
            self.instructions.len() + 1
        } else {
            self.instructions.len()
        }
    }

    /// Whether the block holds no instruction.
    pub fn is_empty(&self) -> (r: bool)
        ensures
            r == (block_len(self@) == 0),
    {
        self.instructions.len() == 0 && self.terminator.is_none()
    }
}

/// The blocks of a function and the name of the block at which it is
/// entered.
#[derive(Debug, Clone, PartialEq)]
pub struct ControlFlowGraph {
    pub blocks: Vec<BasicBlock>,
    pub entry_block: String,
}

/// Model of [`ControlFlowGraph`].
pub struct SpecGraph {
    pub blocks: Seq<SpecBlock>,
    pub entry_block: Seq<char>,
}

/// The models of a list of blocks.
pub open spec fn blocks_model(list: Seq<BasicBlock>) -> Seq<SpecBlock> {
    list.map_values(|b: BasicBlock| b@)
}

impl View for ControlFlowGraph {
    type V = SpecGraph;

    open spec fn view(&self) -> SpecGraph {
        SpecGraph { blocks: blocks_model(self.blocks@), entry_block: self.entry_block@ }
    }
}

/// The index of the first block from index `from` on that is called
/// `name`. A name stands for the first block that bears it.
pub open spec fn block_index(blocks: Seq<SpecBlock>, name: Seq<char>, from: int) -> Option<int>
    decreases blocks.len() - from,
{
    if from < 0 || from >= blocks.len() {
        None
    } else if blocks[from].name == name {
        Some(from)
    } else {
        block_index(blocks, name, from + 1)
    }
}

/// The names of the blocks that a block may pass control to.
pub open spec fn successors(b: SpecBlock) -> Seq<Seq<char>> {
    match b.terminator {
        Some(SpecInstruction::Jump { target }) => seq![target],
        Some(SpecInstruction::Branch { condition, true_target, false_target }) => seq![
            true_target,
            false_target,
        ],
        _ => Seq::empty(),
    }
}

/// Control passes from block `i` to block `j`: one of the names that
/// block `i` may pass control to stands for block `j`.
pub open spec fn follows(blocks: Seq<SpecBlock>, i: int, j: int) -> bool {
    &&& 0 <= i < blocks.len()
    &&& exists|k: int|
        0 <= k < successors(blocks[i]).len() && block_index(
            blocks,
            #[trigger] successors(blocks[i])[k],
            0,
        ) == Some(j)
}

/// A way through the graph: a list of blocks, given by their indices, in
/// which control passes from each to the next.
pub open spec fn is_path(blocks: Seq<SpecBlock>, p: Seq<int>) -> bool {
    &&& p.len() > 0
    &&& forall|k: int| 0 <= k < p.len() - 1 ==> follows(blocks, #[trigger] p[k], p[k + 1])
}

/// Control can reach block `j`: a way leads to it from the entry block.
pub open spec fn connected(g: SpecGraph, j: int) -> bool {
    exists|p: Seq<int>|
        #![trigger is_path(g.blocks, p)]
        is_path(g.blocks, p) && block_index(g.blocks, g.entry_block, 0) == Some(p[0]) && p.last()
            == j
}

/// For each block, whether control can reach it from the entry block.
pub open spec fn reachable(g: SpecGraph) -> Seq<bool> {
    Seq::new(g.blocks.len(), |j: int| connected(g, j))
}

/// The number of marks that are set.
pub open spec fn marked(marks: Seq<bool>) -> nat
    decreases marks.len(),
{
    if marks.len() == 0 {
        0
    } else {
        marked(marks.drop_last()) + if marks.last() {
            1nat
        } else {
            0nat
        }
    }
}

/// No more marks are set than there are.
pub proof fn lemma_marked_bound(marks: Seq<bool>)
    ensures
        marked(marks) <= marks.len(),
    decreases marks.len(),
{
    if marks.len() > 0 {
        lemma_marked_bound(marks.drop_last());
    }
}

/// Setting a mark that was not set makes one more.
pub proof fn lemma_marked_one_more(marks: Seq<bool>, j: int)
    requires
        0 <= j < marks.len(),
        !marks[j],
    ensures
        marked(marks.update(j, true)) == marked(marks) + 1,
    decreases marks.len(),
{
    let after = marks.update(j, true);
    if j == marks.len() - 1 {
        assert(after.drop_last() =~= marks.drop_last());
    } else {
        lemma_marked_one_more(marks.drop_last(), j);
        assert(after.drop_last() =~= marks.drop_last().update(j, true));
    }
}

/// The marks are passed on everywhere: the blocks that follow a marked
/// block are marked.
pub open spec fn closed(blocks: Seq<SpecBlock>, marks: Seq<bool>) -> bool {
    forall|i: int, j: int|
        0 <= i < marks.len() && marks[i] && #[trigger] follows(blocks, i, j) ==> 0 <= j
            < marks.len() && marks[j]
}

/// Where the marks are passed on everywhere and the first block of a way
/// is marked, every block of the way is.
pub proof fn lemma_closed_holds_path(blocks: Seq<SpecBlock>, marks: Seq<bool>, p: Seq<int>, k: int)
    requires
        closed(blocks, marks),
        is_path(blocks, p),
        0 <= p[0] < marks.len(),
        marks[p[0]],
        0 <= k < p.len(),
    ensures
        0 <= p[k] < marks.len(),
        marks[p[k]],
    decreases k,
{
    if k > 0 {
        lemma_closed_holds_path(blocks, marks, p, k - 1);
        assert(follows(blocks, p[k - 1], p[k]));
    }
}

/// A block that follows one that control can reach can be reached too.
pub proof fn lemma_connected_step(g: SpecGraph, i: int, j: int)
    requires
        connected(g, i),
        follows(g.blocks, i, j),
    ensures
        connected(g, j),
{
    let p = choose|p: Seq<int>|
        #![trigger is_path(g.blocks, p)]
        is_path(g.blocks, p) && block_index(g.blocks, g.entry_block, 0) == Some(p[0]) && p.last()
            == i;
    let q = p.push(j);
    assert forall|k: int| 0 <= k < q.len() - 1 implies follows(g.blocks, #[trigger] q[k], q[k + 1]) by {
        if k < p.len() - 1 {
            assert(follows(g.blocks, p[k], p[k + 1]));
        }
    }
    assert(is_path(g.blocks, q));
    assert(q[0] == p[0]);
}

/// Control can reach the entry block.
pub proof fn lemma_connected_entry(g: SpecGraph, e: int)
    requires
        block_index(g.blocks, g.entry_block, 0) == Some(e),
    ensures
        connected(g, e),
{
    let p = seq![e];
    assert(is_path(g.blocks, p));
    assert(p[0] == e);
}

/// A block that a name stands for is one of the blocks.
pub proof fn lemma_block_index_bound(blocks: Seq<SpecBlock>, name: Seq<char>, from: int)
    requires
        0 <= from,
    ensures
        block_index(blocks, name, from) matches Some(i) ==> from <= i < blocks.len(),
    decreases blocks.len() - from,
{
    if from < blocks.len() && blocks[from].name != name {
        lemma_block_index_bound(blocks, name, from + 1);
    }
}

/// The first block from index `from` on that control can reach and that
/// has no terminator.
pub open spec fn open_block(blocks: Seq<SpecBlock>, marks: Seq<bool>, from: int) -> Option<int>
    decreases blocks.len() - from,
{
    if from < 0 || from >= blocks.len() {
        None
    } else if from < marks.len() && marks[from] && blocks[from].terminator is None {
        Some(from)
    } else {
        open_block(blocks, marks, from + 1)
    }
}

/// What is wrong with a graph, if anything is: its entry block is
/// missing, or control can reach a block that has no terminator.
pub open spec fn graph_error(g: SpecGraph) -> Option<SpecIRError> {
    if block_index(g.blocks, g.entry_block, 0) is None {
        Some(SpecIRError::MissingEntryBlock { name: g.entry_block })
    } else {
        match open_block(g.blocks, reachable(g), 0) {
            Some(i) => Some(SpecIRError::UnterminatedBlock { block: g.blocks[i].name }),
            None => None,
        }
    }
}

/// The index of the block called `name`: see [`block_index`].
pub fn index_of(blocks: &Vec<BasicBlock>, name: &String) -> (r: Option<usize>)
    ensures
        match r {
            Some(i) => i < blocks.len() && block_index(blocks_model(blocks@), name@, 0) == Some(
                i as int,
            ),
            None => block_index(blocks_model(blocks@), name@, 0) is None,
        },
{
    let ghost models = blocks_model(blocks@);
    let mut i: usize = 0;
    while i < blocks.len()
        invariant
            i <= blocks.len(),
            models == blocks_model(blocks@),
            block_index(models, name@, 0) == block_index(models, name@, i as int),
        decreases blocks.len() - i,
    {
        if blocks[i].name == *name {
            return Some(i);
        }
        i += 1;
    }
    None
}

/// What holds while the marks are passed on: only blocks that control
/// can reach are marked, and `count` marks are set.
pub open spec fn marking(g: SpecGraph, marks: Seq<bool>, count: int) -> bool {
    &&& marks.len() == g.blocks.len()
    &&& count == marked(marks)
    &&& forall|j: int| 0 <= j < marks.len() && #[trigger] marks[j] ==> connected(g, j)
}

/// Marks the block called `name`, which control can reach, and tells
/// whether the mark is new.
fn mark_block(
    blocks: &Vec<BasicBlock>,
    marks: &mut Vec<bool>,
    count: &mut usize,
    name: &String,
    Ghost(g): Ghost<SpecGraph>,
) -> (r: bool)
    requires
        g.blocks == blocks_model(blocks@),
        marking(g, old(marks)@, *old(count) as int),
        block_index(g.blocks, name@, 0) matches Some(j) ==> connected(g, j),
    ensures
        marking(g, final(marks)@, *final(count) as int),
        final(marks)@.len() == old(marks)@.len(),
        forall|j: int| 0 <= j < old(marks)@.len() && #[trigger] old(marks)@[j] ==> final(marks)@[j],
        block_index(g.blocks, name@, 0) matches Some(j) ==> final(marks)@[j],
        !r ==> final(marks)@ == old(marks)@,
        r ==> *final(count) > *old(count),
{
    match index_of(blocks, name) {
        Some(i) => {
            if marks[i] {
                false
            } else {
                proof {
                    lemma_marked_one_more(marks@, i as int);
                    lemma_marked_bound(marks@.update(i as int, true));
                }
                marks.set(i, true);
                *count = *count + 1;
                true
            }
        },
        None => false,
    }
}

/// For each block, whether control can reach it from the block called
/// `entry`: see [`reachable`].
pub fn reachable_from(blocks: &Vec<BasicBlock>, entry: &String) -> (r: Vec<bool>)
    ensures
        r@ == reachable(SpecGraph { blocks: blocks_model(blocks@), entry_block: entry@ }),
{
    let ghost g = SpecGraph { blocks: blocks_model(blocks@), entry_block: entry@ };
    let n = blocks.len();
    let mut marks: Vec<bool> = Vec::new();
    let mut k: usize = 0;
    while k < n
        invariant
            k <= n,
            marks@.len() == k,
            marked(marks@) == 0,
            forall|j: int| 0 <= j < k ==> !(#[trigger] marks@[j]),
        decreases n - k,
    {
        let ghost before = marks@;
        marks.push(false);
        proof {
            assert(marks@.drop_last() =~= before);
        }
        k += 1;
    }
    let mut count: usize = 0;
    proof {
        lemma_block_index_bound(g.blocks, entry@, 0);
        match block_index(g.blocks, entry@, 0) {
            Some(e) => {
                lemma_connected_entry(g, e);
            },
            None => {},
        }
    }
    let ghost clear = marks@;
    let mut changed = mark_block(blocks, &mut marks, &mut count, entry, Ghost(g));
    proof {
        lemma_marked_bound(marks@);
        if !changed {
            // there is no entry block, so nothing is marked
            match block_index(g.blocks, entry@, 0) {
                Some(e) => {
                    assert(!clear[e]);
                    assert(false);
                },
                None => {
                    assert forall|i: int, j: int|
                        0 <= i < marks@.len() && marks@[i] && #[trigger] follows(
                            g.blocks,
                            i,
                            j,
                        ) implies 0 <= j < marks@.len() && marks@[j] by {}
                },
            }
        }
    }
    while changed
        invariant
            n == blocks.len(),
            g == (SpecGraph { blocks: blocks_model(blocks@), entry_block: entry@ }),
            marking(g, marks@, count as int),
            count <= n,
            block_index(g.blocks, entry@, 0) matches Some(e) ==> 0 <= e < marks@.len() && marks@[e],
            !changed ==> closed(g.blocks, marks@),
        decreases
                n - count + if changed {
                    1int
                } else {
                    0int
                },
    {
        changed = false;
        let ghost start = marks@;
        let ghost start_count = count;
        let mut i: usize = 0;
        while i < n
            invariant
                i <= n,
                n == blocks.len(),
                g == (SpecGraph { blocks: blocks_model(blocks@), entry_block: entry@ }),
                marking(g, marks@, count as int),
                count <= n,
                marks@.len() == start.len(),
                forall|j: int| 0 <= j < start.len() && #[trigger] start[j] ==> marks@[j],
                !changed ==> marks@ == start && count == start_count,
                changed ==> count > start_count,
                !changed ==> forall|a: int, b: int|
                    0 <= a < i && marks@[a] && #[trigger] follows(g.blocks, a, b) ==> 0 <= b
                        < marks@.len() && marks@[b],
            decreases n - i,
        {
            if marks[i] {
                let ghost here = g.blocks[i as int];
                match &blocks[i].terminator {
                    Some(Instruction::Jump { target }) => {
                        proof {
                            assert(successors(here) =~= seq![target@]);
                            lemma_block_index_bound(g.blocks, target@, 0);
                            match block_index(g.blocks, target@, 0) {
                                Some(j) => {
                                    assert(successors(here)[0] == target@);
                                    assert(follows(g.blocks, i as int, j));
                                    lemma_connected_step(g, i as int, j);
                                },
                                None => {},
                            }
                        }
                        let fresh = mark_block(blocks, &mut marks, &mut count, target, Ghost(g));
                        changed = changed || fresh;
                        proof {
                            lemma_marked_bound(marks@);
                        }
                    },
                    Some(Instruction::Branch { condition, true_target, false_target }) => {
                        proof {
                            assert(successors(here) =~= seq![true_target@, false_target@]);
                            lemma_block_index_bound(g.blocks, true_target@, 0);
                            lemma_block_index_bound(g.blocks, false_target@, 0);
                            match block_index(g.blocks, true_target@, 0) {
                                Some(j) => {
                                    assert(successors(here)[0] == true_target@);
                                    assert(follows(g.blocks, i as int, j));
                                    lemma_connected_step(g, i as int, j);
                                },
                                None => {},
                            }
                            match block_index(g.blocks, false_target@, 0) {
                                Some(j) => {
                                    assert(successors(here)[1] == false_target@);
                                    assert(follows(g.blocks, i as int, j));
                                    lemma_connected_step(g, i as int, j);
                                },
                                None => {},
                            }
                        }
                        let first = mark_block(blocks, &mut marks, &mut count, true_target, Ghost(g));
                        let second = mark_block(
                            blocks,
                            &mut marks,
                            &mut count,
                            false_target,
                            Ghost(g),
                        );
                        changed = changed || first || second;
                        proof {
                            lemma_marked_bound(marks@);
                        }
                    },
                    _ => {
                        proof {
                            assert(successors(here) =~= Seq::<Seq<char>>::empty());
                        }
                    },
                }
            }
            proof {
                if !changed {
                    assert forall|a: int, b: int|
                        0 <= a < i + 1 && marks@[a] && #[trigger] follows(
                            g.blocks,
                            a,
                            b,
                        ) implies 0 <= b < marks@.len() && marks@[b] by {
                        if a == i {
                            let k = choose|k: int|
                                0 <= k < successors(g.blocks[a]).len() && block_index(
                                    g.blocks,
                                    #[trigger] successors(g.blocks[a])[k],
                                    0,
                                ) == Some(b);
                            lemma_block_index_bound(g.blocks, successors(g.blocks[a])[k], 0);
                        }
                    }
                }
            }
            i += 1;
        }
        proof {
            match block_index(g.blocks, entry@, 0) {
                Some(e) => {
                    assert(start[e]);
                },
                None => {},
            }
        }
    }
    proof {
        assert forall|j: int| 0 <= j < n implies marks@[j] == connected(g, j) by {
            if connected(g, j) {
                let p = choose|p: Seq<int>|
                    #![trigger is_path(g.blocks, p)]
                    is_path(g.blocks, p) && block_index(g.blocks, g.entry_block, 0) == Some(p[0])
                        && p.last() == j;
                lemma_block_index_bound(g.blocks, g.entry_block, 0);
                lemma_closed_holds_path(g.blocks, marks@, p, p.len() - 1);
            }
        }
        assert(marks@ =~= reachable(g));
    }
    marks
}

/// Checks the blocks of a graph that is entered at `entry`: see
/// [`graph_error`].
pub fn check_blocks(blocks: &Vec<BasicBlock>, entry: &String) -> (r: Result<(), IRError>)
    ensures
        same_failure(
            r,
            graph_error(SpecGraph { blocks: blocks_model(blocks@), entry_block: entry@ }),
        ),
{
    let ghost g = SpecGraph { blocks: blocks_model(blocks@), entry_block: entry@ };
    if index_of(blocks, entry).is_none() {
        return Err(IRError::MissingEntryBlock { name: entry.clone() });
    }
    let marks = reachable_from(blocks, entry);
    let ghost models = blocks_model(blocks@);
    let mut i: usize = 0;
    proof {
        lemma_reachable_len(g);
    }
    while i < blocks.len()
        invariant
            i <= blocks.len(),
            models == blocks_model(blocks@),
            g == (SpecGraph { blocks: models, entry_block: entry@ }),
            marks@.len() == blocks.len(),
            marks@ == reachable(g),
            block_index(models, entry@, 0) is Some,
            open_block(models, marks@, 0) == open_block(models, marks@, i as int),
        decreases blocks.len() - i,
    {
        if marks[i] && blocks[i].terminator.is_none() {
            return Err(IRError::UnterminatedBlock { block: blocks[i].name.clone() });
        }
        i += 1;
    }
    Ok(())
}

impl ControlFlowGraph {
    /// A graph without blocks, to be entered at the block `entry_block`.
    pub fn new(entry_block: String) -> (r: Self)
        ensures
            r@ == (SpecGraph { blocks: Seq::empty(), entry_block: entry_block@ }),
    {
        let r = ControlFlowGraph { blocks: Vec::new(), entry_block };
        proof {
            assert(r@.blocks =~= Seq::<SpecBlock>::empty());
        }
        r
    }

    /// Adds a block at the end.
    pub fn add_block(&mut self, block: BasicBlock)
        ensures
            final(self)@ == (SpecGraph {
                blocks: old(self)@.blocks.push(block@),
                entry_block: old(self)@.entry_block,
            }),
    {
        let ghost before = self@.blocks;
        self.blocks.push(block);
        proof {
            assert(self@.blocks =~= before.push(block@));
        }
    }

    /// The block called `name`: the first that bears the name.
    pub fn get_block(&self, name: &str) -> (r: Option<&BasicBlock>)
        ensures
            match block_index(self@.blocks, name@, 0) {
                Some(i) => r == Some(&self.blocks@[i]),
                None => r is None,
            },
    {
        let wanted = String::from_str(name);
        match index_of(&self.blocks, &wanted) {
            Some(i) => Some(&self.blocks[i]),
            None => None,
        }
    }

    /// The block called `name`, to be changed in its place.
    pub fn get_block_mut(&mut self, name: &str) -> (r: Option<&mut BasicBlock>)
        ensures
            final(self).entry_block == old(self).entry_block,
            match block_index(old(self)@.blocks, name@, 0) {
                Some(i) => r matches Some(b) && *b == old(self).blocks@[i] && final(self).blocks@
                    == old(self).blocks@.update(i, *final(b)),
                None => r is None && final(self).blocks@ == old(self).blocks@,
            },
    {
        let wanted = String::from_str(name);
        match index_of(&self.blocks, &wanted) {
            Some(i) => Some(&mut self.blocks[i]),
            None => None,
        }
    }

    /// For each block, whether control can reach it: see [`reachable`].
    pub fn reachable_blocks(&self) -> (r: Vec<bool>)
        ensures
            r@ == reachable(self@),
    {
        reachable_from(&self.blocks, &self.entry_block)
    }

    /// Checks the graph: see [`graph_error`].
    pub fn validate(&self) -> (r: Result<(), IRError>)
        ensures
            same_failure(r, graph_error(self@)),
    {
        check_blocks(&self.blocks, &self.entry_block)
    }
}

/// There is a mark for every block.
pub proof fn lemma_reachable_len(g: SpecGraph)
    ensures
        reachable(g).len() == g.blocks.len(),
{
}

} // verus!
