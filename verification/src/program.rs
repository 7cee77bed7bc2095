//! A program: instructions in execution order, addressed by label for jumps.

use std::collections::HashMap;
use vstd::prelude::*;

use crate::instruction::Instruction;

verus! {

broadcast use vstd::std_specs::hash::group_hash_axioms;

/// Whether some instruction of `program` carries `label`.
pub open spec fn has_label(program: Seq<Instruction>, label: usize) -> bool {
    exists|i: int| 0 <= i < program.len() && program[i].label == label
}

/// Whether `pos` is the position of the first instruction of `program` that
/// carries `label`.
pub open spec fn is_first_with_label(program: Seq<Instruction>, label: usize, pos: int) -> bool {
    &&& 0 <= pos < program.len()
    &&& program[pos].label == label
    &&& forall|j: int| 0 <= j < pos ==> program[j].label != label
}

/// The position a jump to `label` lands on: that of the first instruction
/// carrying the label, or `None` where no instruction carries it.
///
/// In a program whose labels are unique this is the position of the one
/// instruction with that label.
pub open spec fn resolve(program: Seq<Instruction>, label: usize) -> Option<int> {
    if has_label(program, label) {
        Some(choose|pos: int| is_first_with_label(program, label, pos))
    } else {
        None
    }
}

/// Among the positions below `bound` that carry `label` there is a first one.
proof fn lemma_first_below(program: Seq<Instruction>, label: usize, bound: int)
    requires
        0 <= bound <= program.len(),
        exists|i: int| 0 <= i < bound && program[i].label == label,
    ensures
        exists|pos: int| pos < bound && is_first_with_label(program, label, pos),
    decreases bound,
{
    if exists|i: int| 0 <= i < bound - 1 && program[i].label == label {
        lemma_first_below(program, label, bound - 1);
    } else {
        assert(is_first_with_label(program, label, bound - 1));
    }
}

/// `resolve` answers `Some(pos)` exactly for the first position carrying the
/// label, and `None` exactly where the label is absent.
pub proof fn lemma_resolve(program: Seq<Instruction>, label: usize)
    ensures
        resolve(program, label) is None <==> !has_label(program, label),
        forall|pos: int|
            resolve(program, label) == Some(pos) <==> is_first_with_label(program, label, pos),
{
    if has_label(program, label) {
        lemma_first_below(program, label, program.len() as int);
        let first = choose|pos: int| is_first_with_label(program, label, pos);
        assert forall|pos: int| is_first_with_label(program, label, pos) implies pos == first by {
            if pos < first {
                assert(program[pos].label != label);
            } else if first < pos {
                assert(program[first].label != label);
            }
        }
    } else {
        assert forall|pos: int| !is_first_with_label(program, label, pos) by {
            if is_first_with_label(program, label, pos) {
                assert(0 <= pos < program.len() && program[pos].label == label);
            }
        }
    }
}

/// Whether no two instructions of `program` carry the same label.
pub open spec fn labels_unique(program: Seq<Instruction>) -> bool {
    forall|i: int, j: int|
        0 <= i < j < program.len() ==> (#[trigger] program[i]).label != (#[trigger] program[j]).label
}

/// In a program whose labels are unique, the label of an instruction resolves
/// to the position of that instruction.
pub proof fn theorem_unique_label_resolves_to_its_instruction(
    program: Seq<Instruction>,
    pos: int,
)
    requires
        labels_unique(program),
        0 <= pos < program.len(),
    ensures
        resolve(program, program[pos].label) == Some(pos),
{
    assert(is_first_with_label(program, program[pos].label, pos));
    lemma_resolve(program, program[pos].label);
}

/// An instruction sequence with an index from each label to the position of
/// the first instruction that carries it, built once so that a jump resolves
/// its target without scanning the program.
pub struct Program {
    instructions: Vec<Instruction>,
    index: HashMap<usize, usize>,
}

impl View for Program {
    type V = Seq<Instruction>;

    closed spec fn view(&self) -> Seq<Instruction> {
        self.instructions@
    }
}

impl Program {
    /// The index holds every label of the program, each with its first position.
    #[verifier::type_invariant]
    spec fn indexed(self) -> bool {
        &&& forall|label: usize| #[trigger]
            self.index@.contains_key(label) ==> is_first_with_label(
                self.instructions@,
                label,
                self.index@[label] as int,
            )
        &&& forall|i: int|
            0 <= i < self.instructions@.len() ==> self.index@.contains_key(
                #[trigger] self.instructions@[i].label,
            )
    }

    /// Takes the instructions as they are, in order, and indexes their labels.
    pub fn new(instructions: Vec<Instruction>) -> (program: Self)
        ensures
            program@ == instructions@,
    {
        let mut index: HashMap<usize, usize> = HashMap::new();
        let mut i: usize = 0;
        while i < instructions.len()
            invariant
                i <= instructions.len(),
                forall|label: usize| #[trigger]
                    index@.contains_key(label) ==> is_first_with_label(
                        instructions@,
                        label,
                        index@[label] as int,
                    ),
                forall|j: int|
                    0 <= j < i ==> index@.contains_key(#[trigger] instructions@[j].label),
            decreases instructions.len() - i,
        {
            let label = instructions[i].label;
            if !index.contains_key(&label) {
                index.insert(label, i);
            }
            i += 1;
        }
        Program { instructions, index }
    }

    /// A program never holds more instructions than a `usize` counts.
    pub proof fn lemma_len_bounded(&self)
        ensures
            self@.len() <= usize::MAX,
    {
        assert(self.instructions@.len() == self.instructions.len());
    }

    /// The number of instructions.
    pub fn len(&self) -> (n: usize)
        ensures
            n == self@.len(),
    {
        self.instructions.len()
    }

    /// The instruction at `pos`, or `None` where `pos` is past the last one.
    pub fn fetch(&self, pos: usize) -> (ins: Option<Instruction>)
        ensures
            ins == if pos < self@.len() {
                Some(self@[pos as int])
            } else {
                None
            },
    {
        if pos < self.instructions.len() {
            Some(self.instructions[pos])
        } else {
            None
        }
    }

    /// The position that a jump to `label` lands on, or `None` where no
    /// instruction carries the label.
    pub fn position_of(&self, label: usize) -> (pos: Option<usize>)
        ensures
            match pos {
                Some(p) => resolve(self@, label) == Some(p as int),
                None => resolve(self@, label) is None,
            },
    {
        proof {
            use_type_invariant(self);
            lemma_resolve(self.instructions@, label);
        }
        match self.index.get(&label) {
            Some(p) => Some(*p),
            None => {
                assert(!has_label(self.instructions@, label));
                None
            },
        }
    }
}

} // verus!
