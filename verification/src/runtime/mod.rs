//! Running programs: the memory, the control flow and the runtime itself.
use vstd::prelude::*;

use crate::base::{Accumulator, MemoryCell};
use crate::instructions::semantics::step_spec;
use crate::instructions::{Instruction, InstructionV};
use crate::runtime::error_handling::{RuntimeError, RuntimeErrorType, RuntimeErrorV};
use crate::runtime::memory_config::MemoryConfig;
use crate::runtime::storage::{IdMap, NameMap};
use crate::text::{str_views, string_views};

pub mod builder;
pub mod error_handling;
pub mod memory_config;
pub mod storage;

verus! {

/// The contents of all memory locations while a program runs.
pub struct MemoryView {
    /// Accumulators that exist, with their values.
    pub accumulators: Map<usize, Option<i32>>,
    /// `None` if the gamma accumulator is disabled, else its value.
    pub gamma: Option<Option<i32>>,
    /// Memory cells that exist, with their values.
    pub memory_cells: Map<Seq<char>, Option<i32>>,
    /// Index memory cells that exist, with their values.
    pub index_memory_cells: Map<usize, Option<i32>>,
    /// The stack, its top last.
    pub stack: Seq<i32>,
}

/// Used to store the values of the different memory spaces while a program is run.
pub struct RuntimeMemory {
    /// The accumulators and their values.
    pub accumulators: IdMap<Option<i32>>,
    /// The gamma accumulator: the outer option tells whether it is enabled,
    /// the inner one whether it holds a value.
    pub gamma: Option<Option<i32>>,
    /// The memory cells and their values.
    pub memory_cells: NameMap<Option<i32>>,
    /// The index memory cells and their values.
    pub index_memory_cells: IdMap<Option<i32>>,
    /// The stack of the runner.
    pub stack: Vec<i32>,
}

/// Another name for [`RuntimeMemory`]: the values that a program runs on.
pub type RuntimeArgs = RuntimeMemory;

impl View for RuntimeMemory {
    type V = MemoryView;

    open spec fn view(&self) -> MemoryView {
        MemoryView {
            accumulators: self.accumulators@,
            gamma: self.gamma,
            memory_cells: self.memory_cells@,
            index_memory_cells: self.index_memory_cells@,
            stack: self.stack@,
        }
    }
}

/// `k` is the smallest id that `m` has no entry for.
pub open spec fn least_free_id<V>(m: Map<usize, V>, k: usize) -> bool {
    !m.contains_key(k) && forall|j: usize| j < k ==> m.contains_key(j)
}

/// The id of an accumulator added to `m`: the number of entries of `m`
/// where no entry has that id, else the smallest free id.
pub open spec fn new_accumulator_id<V>(m: Map<usize, V>, k: usize) -> bool {
    if m.contains_key(m.dom().len() as usize) {
        least_free_id(m, k)
    } else {
        k == m.dom().len()
    }
}

/// The ids below `k`.
pub open spec fn id_range(k: nat) -> Set<usize> {
    Set::new(|i: usize| i < k)
}

/// There are `k` ids below `k`.
pub proof fn lemma_id_range(k: nat)
    requires
        k <= usize::MAX + 1,
    ensures
        id_range(k).finite(),
        id_range(k).len() == k,
    decreases k,
{
    if k == 0 {
        assert(id_range(k) =~= Set::<usize>::empty());
    } else {
        lemma_id_range((k - 1) as nat);
        assert(id_range(k) =~= id_range((k - 1) as nat).insert((k - 1) as usize));
    }
}

/// The accumulators `0..n`, all empty.
pub open spec fn empty_accumulators(n: nat) -> Map<usize, Option<i32>>
    decreases n,
{
    if n == 0 {
        Map::empty()
    } else {
        empty_accumulators((n - 1) as nat).insert((n - 1) as usize, None)
    }
}

/// The memory cells named in `names`, all empty.
pub open spec fn empty_cells(names: Seq<Seq<char>>) -> Map<Seq<char>, Option<i32>>
    decreases names.len(),
{
    if names.len() == 0 {
        Map::empty()
    } else {
        empty_cells(names.drop_last()).insert(names.last(), None)
    }
}

/// The index memory cells of `idx`, all empty.
pub open spec fn empty_index_cells(idx: Seq<usize>) -> Map<usize, Option<i32>>
    decreases idx.len(),
{
    if idx.len() == 0 {
        Map::empty()
    } else {
        empty_index_cells(idx.drop_last()).insert(idx.last(), None)
    }
}

/// `m` with every value removed and an empty stack; the locations stay.
pub open spec fn cleared(m: MemoryView) -> MemoryView {
    MemoryView {
        accumulators: m.accumulators.map_values(|v: Option<i32>| None::<i32>),
        gamma: match m.gamma {
            Some(_) => Some(None),
            None => None,
        },
        memory_cells: m.memory_cells.map_values(|v: Option<i32>| None::<i32>),
        index_memory_cells: m.index_memory_cells.map_values(|v: Option<i32>| None::<i32>),
        stack: Seq::empty(),
    }
}

/// The memory of a runtime that nobody configured: four accumulators and
/// the memory cells `h0` to `h3`, all empty, and no gamma accumulator.
pub open spec fn default_memory() -> MemoryView {
    MemoryView {
        accumulators: empty_accumulators(4),
        gamma: None,
        memory_cells: empty_cells(seq!["h0"@, "h1"@, "h2"@, "h3"@]),
        index_memory_cells: Map::empty(),
        stack: Seq::empty(),
    }
}

/// The memory of a test setup: four accumulators, the gamma accumulator and
/// the memory cells `names`, all empty.
pub open spec fn debug_memory(names: Seq<Seq<char>>) -> MemoryView {
    MemoryView {
        accumulators: empty_accumulators(4),
        gamma: Some(None),
        memory_cells: empty_cells(names),
        index_memory_cells: Map::empty(),
        stack: Seq::empty(),
    }
}

impl Default for RuntimeMemory {
    fn default() -> (res: Self)
        ensures
            res@ == default_memory(),
    {
        let names: Vec<String> = vec!["h0".to_string(), "h1".to_string(), "h2".to_string(), "h3".to_string()];
        let res = RuntimeMemory::new(4, names, None, false);
        assert(string_views(names@) =~= seq!["h0"@, "h1"@, "h2"@, "h3"@]);
        assert(res@.index_memory_cells =~= Map::<usize, Option<i32>>::empty());
        res
    }
}

impl RuntimeMemory {
    /// The memory that the layout `config` describes, with an empty stack.
    pub fn from_config(config: &MemoryConfig) -> (res: Self)
        ensures
            res@ == crate::runtime::memory_config::config_memory(config@),
    {
        RuntimeMemory {
            accumulators: config.accumulators.values.duplicate(),
            gamma: if config.gamma_accumulator.enabled { Some(config.gamma_accumulator.value) } else { None },
            memory_cells: config.memory_cells.values.duplicate(),
            index_memory_cells: config.index_memory_cells.values.duplicate(),
            stack: Vec::new(),
        }
    }

    /// A memory with the same locations, values and stack.
    pub fn duplicate(&self) -> (res: Self)
        ensures
            res@ == self@,
    {
        let mut stack: Vec<i32> = Vec::new();
        let mut i: usize = 0;
        while i < self.stack.len()
            invariant
                i <= self.stack.len(),
                stack@ == self.stack@.take(i as int),
            decreases self.stack.len() - i,
        {
            stack.push(self.stack[i]);
            assert(stack@ =~= self.stack@.take(i + 1));
            i = i + 1;
        }
        assert(stack@ =~= self.stack@);
        RuntimeMemory {
            accumulators: self.accumulators.duplicate(),
            gamma: self.gamma,
            memory_cells: self.memory_cells.duplicate(),
            index_memory_cells: self.index_memory_cells.duplicate(),
            stack,
        }
    }

    /// A memory without any location.
    pub fn new_empty() -> (res: Self)
        ensures
            res@.accumulators == Map::<usize, Option<i32>>::empty(),
            res@.gamma is None,
            res@.memory_cells == Map::<Seq<char>, Option<i32>>::empty(),
            res@.index_memory_cells == Map::<usize, Option<i32>>::empty(),
            res@.stack == Seq::<i32>::empty(),
    {
        RuntimeMemory {
            accumulators: IdMap::new(),
            gamma: None,
            memory_cells: NameMap::new(),
            index_memory_cells: IdMap::new(),
            stack: Vec::new(),
        }
    }

    /// A memory with the accumulators `0..acc`, the memory cells `m_cells`,
    /// the index memory cells `idx_m_cells` and, if `enable_gamma`, the
    /// gamma accumulator, all empty.
    pub fn new(acc: usize, m_cells: Vec<String>, idx_m_cells: Option<Vec<usize>>, enable_gamma: bool) -> (res: Self)
        ensures
            res@.accumulators == empty_accumulators(acc as nat),
            res@.gamma == if enable_gamma { Some(None::<i32>) } else { None },
            res@.memory_cells == empty_cells(string_views(m_cells@)),
            res@.index_memory_cells == match idx_m_cells {
                Some(v) => empty_index_cells(v@),
                None => Map::<usize, Option<i32>>::empty(),
            },
            res@.stack == Seq::<i32>::empty(),
    {
        let mut accumulators: IdMap<Option<i32>> = IdMap::new();
        let mut i: usize = 0;
        while i < acc
            invariant
                i <= acc,
                accumulators@ == empty_accumulators(i as nat),
            decreases acc - i,
        {
            accumulators.insert(i, None);
            i = i + 1;
        }
        let ghost names = string_views(m_cells@);
        let mut memory_cells: NameMap<Option<i32>> = NameMap::new();
        let mut j: usize = 0;
        while j < m_cells.len()
            invariant
                j <= m_cells.len(),
                names == string_views(m_cells@),
                memory_cells@ == empty_cells(names.take(j as int)),
            decreases m_cells.len() - j,
        {
            let name = m_cells[j].clone();
            assert(name@ == names[j as int]);
            memory_cells.insert(name, None);
            proof {
                assert(names.take(j + 1).drop_last() =~= names.take(j as int));
            }
            j = j + 1;
        }
        assert(names.take(m_cells.len() as int) =~= names);
        let mut index_memory_cells: IdMap<Option<i32>> = IdMap::new();
        match idx_m_cells {
            Some(cells) => {
                let mut k: usize = 0;
                while k < cells.len()
                    invariant
                        k <= cells.len(),
                        index_memory_cells@ == empty_index_cells(cells@.take(k as int)),
                    decreases cells.len() - k,
                {
                    index_memory_cells.insert(cells[k], None);
                    proof {
                        assert(cells@.take(k + 1).drop_last() =~= cells@.take(k as int));
                    }
                    k = k + 1;
                }
                assert(cells@.take(cells.len() as int) =~= cells@);
            },
            None => {
                assert(index_memory_cells@ =~= Map::<usize, Option<i32>>::empty());
            },
        }
        RuntimeMemory {
            accumulators,
            gamma: if enable_gamma { Some(None) } else { None },
            memory_cells,
            index_memory_cells,
            stack: Vec::new(),
        }
    }

    /// A memory with four accumulators, the gamma accumulator and the memory
    /// cells `memory_cells`, all empty.
    pub fn new_debug(memory_cells: &[&str]) -> (res: Self)
        ensures
            res@ == debug_memory(str_views(memory_cells@)),
    {
        let mut names: Vec<String> = Vec::new();
        let mut i: usize = 0;
        while i < memory_cells.len()
            invariant
                i <= memory_cells.len(),
                names@.len() == i,
                forall|k: int| 0 <= k < i ==> (#[trigger] names@[k])@ == memory_cells@[k]@,
            decreases memory_cells.len() - i,
        {
            let name = memory_cells[i].to_string();
            names.push(name);
            i = i + 1;
        }
        assert(string_views(names@) =~= str_views(memory_cells@));
        RuntimeMemory::new(4, names, None, true)
    }

    /// Creates the memory cell `label`, unless it exists.
    pub fn add_storage_cell(&mut self, label: &str)
        ensures
            final(self)@.memory_cells == if old(self)@.memory_cells.contains_key(label@) {
                old(self)@.memory_cells
            } else {
                old(self)@.memory_cells.insert(label@, None)
            },
            final(self)@.accumulators == old(self)@.accumulators,
            final(self)@.gamma == old(self)@.gamma,
            final(self)@.index_memory_cells == old(self)@.index_memory_cells,
            final(self)@.stack == old(self)@.stack,
    {
        let name = label.to_string();
        if !self.memory_cells.contains_key(&name) {
            self.memory_cells.insert(name, None);
        }
    }

    /// Adds one empty accumulator whose id is the number of accumulators;
    /// where that id is taken, the smallest id that no accumulator has is
    /// used. Every existing accumulator stays as it was.
    pub fn add_accumulator(&mut self)
        ensures
            exists|k: usize|
                #![trigger old(self)@.accumulators.insert(k, None)]
                new_accumulator_id(old(self)@.accumulators, k) && final(self)@.accumulators
                    == old(self)@.accumulators.insert(k, None),
            final(self)@.gamma == old(self)@.gamma,
            final(self)@.memory_cells == old(self)@.memory_cells,
            final(self)@.index_memory_cells == old(self)@.index_memory_cells,
            final(self)@.stack == old(self)@.stack,
    {
        let n = self.accumulators.len();
        let ghost before = self@.accumulators;
        assert(before.dom().len() as usize == n);
        if !self.accumulators.contains_key(n) {
            self.accumulators.insert(n, None);
            assert(new_accumulator_id(before, n));
            assert(self@.accumulators == before.insert(n, None));
            return;
        }
        let mut k: usize = 0;
        while self.accumulators.contains_key(k)
            invariant
                n == self@.accumulators.dom().len(),
                self@.accumulators.dom().finite(),
                self@.accumulators.contains_key(n),
                forall|j: usize| j < k ==> self@.accumulators.contains_key(j),
            decreases n - k,
        {
            proof {
                lemma_id_range((k + 1) as nat);
                assert(id_range((k + 1) as nat).subset_of(self@.accumulators.dom()));
                vstd::set_lib::lemma_len_subset(id_range((k + 1) as nat), self@.accumulators.dom());
            }
            k = k + 1;
        }
        self.accumulators.insert(k, None);
        assert(new_accumulator_id(before, k));
    }

    /// Whether the accumulator `id` exists.
    pub fn exists_accumulator(&self, id: usize) -> (res: bool)
        ensures
            res == self@.accumulators.contains_key(id),
    {
        self.accumulators.contains_key(id)
    }

    /// Removes all values and empties the stack; every location stays.
    pub fn reset(&mut self)
        ensures
            final(self)@ == cleared(old(self)@),
    {
        self.accumulators.set_all(None);
        self.memory_cells.set_all(None);
        self.index_memory_cells.set_all(None);
        if self.gamma.is_some() {
            self.gamma = Some(None);
        }
        self.stack = Vec::new();
        assert(self@.accumulators =~= cleared(old(self)@).accumulators);
        assert(self@.memory_cells =~= cleared(old(self)@).memory_cells);
        assert(self@.index_memory_cells =~= cleared(old(self)@).index_memory_cells);
    }

    /// The accumulators with their values, ordered by index.
    pub fn accumulator_list(&self) -> (res: Vec<Accumulator>)
        ensures
            res.len() == self@.accumulators.dom().len(),
            forall|i: int| 0 <= i < res.len() ==> self@.accumulators.contains_key(#[trigger] res@[i].id)
                && self@.accumulators[res@[i].id] == res@[i].data,
            forall|i: int, j: int| 0 <= i < j < res.len() ==> res@[i].id < res@[j].id,
    {
        let entries = self.accumulators.entries();
        let mut res: Vec<Accumulator> = Vec::new();
        let mut i: usize = 0;
        while i < entries.len()
            invariant
                i <= entries.len(),
                res.len() == i,
                entries@.len() == self@.accumulators.dom().len(),
                crate::runtime::storage::unique_keys(entries@),
                forall|k: int| 0 <= k < entries@.len() ==> self@.accumulators.contains_key(#[trigger] entries@[k].0)
                    && self@.accumulators[entries@[k].0] == entries@[k].1,
                forall|k: int| 0 <= k < res.len() ==> self@.accumulators.contains_key(#[trigger] res@[k].id)
                    && self@.accumulators[res@[k].id] == res@[k].data,
                forall|k: int| 0 <= k < res.len() ==> exists|e: int| 0 <= e < i && #[trigger] res@[k].id == entries@[e].0,
                forall|a: int, b: int| 0 <= a < b < res.len() ==> res@[a].id < res@[b].id,
            decreases entries.len() - i,
        {
            let id = entries[i].0;
            let item = Accumulator { id, data: entries[i].1 };
            assert forall|k: int| 0 <= k < res.len() implies res@[k].id != id by {
                let e = choose|e: int| 0 <= e < i && res@[k].id == entries@[e].0;
                assert(entries@[e].0 != entries@[i as int].0);
            }
            let mut p: usize = 0;
            while p < res.len() && res[p].id < id
                invariant
                    p <= res.len(),
                    forall|k: int| 0 <= k < p ==> res@[k].id < id,
                decreases res.len() - p,
            {
                p = p + 1;
            }
            let ghost before = res@;
            res.insert(p, item);
            assert forall|a: int, b: int| 0 <= a < b < res.len() implies res@[a].id < res@[b].id by {
                if b < p {
                } else if b == p {
                } else if a < p {
                    assert(before[b - 1].id > id || before[b - 1].id == id);
                } else if a == p {
                    assert(before[b - 1].id != id);
                    assert(before[p as int].id >= id);
                    if b - 1 > p {
                        assert(before[p as int].id < before[b - 1].id);
                    }
                } else {
                    assert(before[a - 1].id < before[b - 1].id);
                }
            }
            assert forall|k: int| 0 <= k < res.len() implies exists|e: int| 0 <= e < i + 1 && #[trigger] res@[k].id == entries@[e].0 by {
                if k < p {
                    assert(res@[k] == before[k]);
                } else if k == p {
                    assert(res@[k].id == entries@[i as int].0);
                } else {
                    assert(res@[k] == before[k - 1]);
                }
            }
            i = i + 1;
        }
        res
    }
}


/// The state of the control flow: which instruction runs next, the labels,
/// and the return addresses of the calls that have not returned.
pub struct ControlFlowView {
    pub next: usize,
    pub labels: Map<Seq<char>, usize>,
    pub call_stack: Seq<usize>,
    pub initial: usize,
}

/// Used to control what instruction should be executed next.
pub struct ControlFlow {
    /// The index of the instruction that should be executed next.
    pub next_instruction_index: usize,
    /// The index of the instruction that each label marks.
    pub instruction_labels: NameMap<usize>,
    /// The index of the instruction to continue with after each pending call.
    pub call_stack: Vec<usize>,
    /// The index of the instruction that runs first.
    pub initial_instruction: usize,
}

impl View for ControlFlow {
    type V = ControlFlowView;

    open spec fn view(&self) -> ControlFlowView {
        ControlFlowView {
            next: self.next_instruction_index,
            labels: self.instruction_labels@,
            call_stack: self.call_stack@,
            initial: self.initial_instruction,
        }
    }
}

/// The control flow after a jump to `label`, or the error for a label that
/// does not exist.
pub open spec fn jump_spec(cf: ControlFlowView, label: Seq<char>) -> Result<ControlFlowView, RuntimeErrorV> {
    if cf.labels.contains_key(label) {
        Ok(ControlFlowView { next: cf.labels[label], ..cf })
    } else {
        Err(RuntimeErrorV::LabelMissing(label))
    }
}

impl ControlFlow {
    /// A control flow with the same position, labels, pending calls and start.
    pub fn duplicate(&self) -> (res: Self)
        ensures
            res@ == self@,
    {
        let mut call_stack: Vec<usize> = Vec::new();
        let mut i: usize = 0;
        while i < self.call_stack.len()
            invariant
                i <= self.call_stack.len(),
                call_stack@ == self.call_stack@.take(i as int),
            decreases self.call_stack.len() - i,
        {
            call_stack.push(self.call_stack[i]);
            assert(call_stack@ =~= self.call_stack@.take(i + 1));
            i = i + 1;
        }
        assert(call_stack@ =~= self.call_stack@);
        ControlFlow {
            next_instruction_index: self.next_instruction_index,
            instruction_labels: self.instruction_labels.duplicate(),
            call_stack,
            initial_instruction: self.initial_instruction,
        }
    }

    /// A control flow that starts at the first instruction and knows no label.
    pub fn new() -> (res: Self)
        ensures
            res@ == (ControlFlowView {
                next: 0,
                labels: Map::empty(),
                call_stack: Seq::empty(),
                initial: 0,
            }),
    {
        ControlFlow {
            next_instruction_index: 0,
            instruction_labels: NameMap::new(),
            call_stack: Vec::new(),
            initial_instruction: 0,
        }
    }

    /// Jumps to `label`: the instruction that it marks runs next.
    ///
    /// Fails, and changes nothing, when the label does not exist.
    pub fn next_instruction_index(&mut self, label: &str) -> (res: Result<(), RuntimeErrorType>)
        ensures
            match jump_spec(old(self)@, label@) {
                Ok(cf) => res == Ok::<(), RuntimeErrorType>(()) && final(self)@ == cf,
                Err(e) => res matches Err(r) && r@ == e && final(self)@ == old(self)@,
            },
    {
        let l = label.to_string();
        match self.instruction_labels.get(&l) {
            Some(index) => {
                self.next_instruction_index = index;
                Ok(())
            },
            None => Err(RuntimeErrorType::LabelMissing(l)),
        }
    }

    /// Calls the function at `label`: remembers the instruction that would
    /// run next, then jumps.
    ///
    /// When the label does not exist, the return address stays on the call
    /// stack and the error is returned.
    pub fn call_function(&mut self, label: &str) -> (res: Result<(), RuntimeErrorType>)
        ensures
            ({
                let pushed = ControlFlowView {
                    call_stack: old(self)@.call_stack.push(old(self)@.next),
                    ..old(self)@
                };
                match jump_spec(pushed, label@) {
                    Ok(cf) => res == Ok::<(), RuntimeErrorType>(()) && final(self)@ == cf,
                    Err(e) => res matches Err(r) && r@ == e && final(self)@ == pushed,
                }
            }),
    {
        self.call_stack.push(self.next_instruction_index);
        self.next_instruction_index(label)
    }

    /// Starts over at the first instruction, forgets all labels and pending calls.
    pub fn reset(&mut self)
        ensures
            final(self)@ == (ControlFlowView {
                next: 0,
                labels: Map::empty(),
                call_stack: Seq::empty(),
                initial: old(self)@.initial,
            }),
    {
        self.next_instruction_index = 0;
        self.instruction_labels = NameMap::new();
        self.call_stack = Vec::new();
    }

    /// Starts over at instruction 0 and forgets all pending calls; the
    /// labels and the initial instruction stay.
    pub fn reset_soft(&mut self)
        ensures
            final(self)@ == (ControlFlowView {
                next: 0,
                call_stack: Seq::empty(),
                ..old(self)@
            }),
    {
        self.next_instruction_index = 0;
        self.call_stack = Vec::new();
    }
}

/// Settings that the runtime consults while a program runs.
#[derive(Debug, Clone, Copy, PartialEq, Eq, Structural)]
pub struct RuntimeSettings {
    /// If true, there is no limit to the number of instructions that run.
    pub disable_instruction_limit: bool,
    /// If true, accumulators that are written but do not exist are created.
    pub autodetect_accumulators: bool,
    /// If true, the gamma accumulator is enabled when it is written while disabled.
    pub autodetect_gamma_accumulator: bool,
    /// If true, memory cells that are written but do not exist are created.
    pub autodetect_memory_cells: bool,
    /// If true, index memory cells that are written but do not exist are created.
    pub autodetect_index_memory_cells: bool,
}

/// The settings of a runtime that nobody configured: the instruction limit
/// is on, index memory cells are created when they are written, and no
/// other memory location is created that does not exist.
pub open spec fn default_settings() -> RuntimeSettings {
    RuntimeSettings {
        disable_instruction_limit: false,
        autodetect_accumulators: false,
        autodetect_gamma_accumulator: false,
        autodetect_memory_cells: false,
        autodetect_index_memory_cells: true,
    }
}

impl Default for RuntimeSettings {
    fn default() -> (res: Self)
        ensures
            res == default_settings(),
    {
        RuntimeSettings {
            disable_instruction_limit: false,
            autodetect_accumulators: false,
            autodetect_gamma_accumulator: false,
            autodetect_memory_cells: false,
            autodetect_index_memory_cells: true,
        }
    }
}


/// The most calls that may be pending at once.
pub const MAX_CALL_STACK_SIZE: usize = 65535;

/// The most instructions that run when the instruction limit is on.
pub const MAX_INSTRUCTION_RUNS: usize = 1000000;

/// The state of a runtime: its memory, its program, its control flow, how
/// many instructions it has run and its settings.
pub struct RuntimeView {
    pub memory: MemoryView,
    pub instructions: Seq<InstructionV>,
    pub control_flow: ControlFlowView,
    pub instruction_runs: usize,
    pub settings: RuntimeSettings,
}

/// A program together with the memory and the control flow it runs on.
pub struct Runtime {
    memory: RuntimeMemory,
    instructions: Vec<Instruction>,
    control_flow: ControlFlow,
    /// How many instructions have run. Once more than
    /// [`MAX_INSTRUCTION_RUNS`] have run, the runtime stops with an error,
    /// unless the instruction limit is disabled.
    instruction_runs: usize,
    settings: RuntimeSettings,
}

/// The instructions of a program as mathematical values.
pub open spec fn program_view(v: Seq<Instruction>) -> Seq<InstructionV> {
    v.map_values(|i: Instruction| i@)
}

impl View for Runtime {
    type V = RuntimeView;

    closed spec fn view(&self) -> RuntimeView {
        RuntimeView {
            memory: self.memory@,
            instructions: program_view(self.instructions@),
            control_flow: self.control_flow@,
            instruction_runs: self.instruction_runs,
            settings: self.settings,
        }
    }
}

/// The error that the checks after an instruction in line `line` raise,
/// if any: too many pending calls, or too many instructions run.
pub open spec fn limit_error(r: RuntimeView) -> Option<RuntimeErrorV> {
    if r.control_flow.call_stack.len() >= MAX_CALL_STACK_SIZE {
        Some(RuntimeErrorV::StackOverflowError)
    } else if !r.settings.disable_instruction_limit && r.instruction_runs > MAX_INSTRUCTION_RUNS {
        Some(RuntimeErrorV::DesignLimitReached(MAX_INSTRUCTION_RUNS))
    } else if r.instruction_runs == usize::MAX {
        Some(RuntimeErrorV::DesignLimitReached(usize::MAX))
    } else {
        None
    }
}

/// What one step of the runtime `r` does: the result (`Ok(true)` when no
/// instruction was left to run, `Ok(false)` when one ran, else the error
/// and the line of the instruction) and the runtime after it.
///
/// The runtime moves on to the next instruction before the current one
/// runs, so that a jump of the instruction overrides that move.
pub open spec fn runtime_step(r: RuntimeView) -> (Result<bool, (RuntimeErrorV, usize)>, RuntimeView) {
    let current = r.control_flow.next;
    let moved = RuntimeView {
        control_flow: ControlFlowView { next: (current + 1) as usize, ..r.control_flow },
        ..r
    };
    if current >= r.instructions.len() {
        (Ok(true), moved)
    } else {
        let out = step_spec(r.instructions[current as int], r.memory, moved.control_flow, r.settings);
        let after = RuntimeView { memory: out.1, control_flow: out.2, ..r };
        match out.0 {
            Err(e) => (Err((e, (current + 1) as usize)), after),
            Ok(_) => match limit_error(after) {
                Some(e) => (Err((e, (current + 1) as usize)), after),
                None => (Ok(false), RuntimeView { instruction_runs: (r.instruction_runs + 1) as usize, ..after }),
            },
        }
    }
}

/// What running the runtime `r` until its program ends does: steps are
/// taken while an instruction is left, until one fails.
pub open spec fn run_spec(r: RuntimeView) -> (Result<bool, (RuntimeErrorV, usize)>, RuntimeView)
    decreases usize::MAX - r.instruction_runs,
{
    if r.control_flow.next >= r.instructions.len() {
        (Ok(true), r)
    } else {
        let out = runtime_step(r);
        match out.0 {
            Err(e) => (Err(e), out.1),
            Ok(_) => if out.1.instruction_runs > r.instruction_runs {
                run_spec(out.1)
            } else {
                (Ok(true), out.1)
            },
        }
    }
}

/// `res` is the result that `spec` describes.
pub open spec fn runtime_agrees<T>(res: Result<T, RuntimeError>, spec: Result<T, (RuntimeErrorV, usize)>) -> bool {
    match spec {
        Ok(v) => res == Ok::<T, RuntimeError>(v),
        Err(e) => res matches Err(r) && r.reason@ == e.0 && r.line_number == e.1,
    }
}

impl Runtime {
    /// A runtime that has run no instruction yet.
    pub(crate) fn from_parts(
        memory: RuntimeMemory,
        instructions: Vec<Instruction>,
        control_flow: ControlFlow,
        settings: RuntimeSettings,
    ) -> (res: Runtime)
        ensures
            res@ == (RuntimeView {
                memory: memory@,
                instructions: program_view(instructions@),
                control_flow: control_flow@,
                instruction_runs: 0,
                settings,
            }),
    {
        Runtime { memory, instructions, control_flow, instruction_runs: 0, settings }
    }

    /// A runtime without instructions on the memory `runtime_args`.
    pub fn new_playground(runtime_args: RuntimeMemory) -> (res: Runtime)
        ensures
            res@.memory == runtime_args@,
            res@.instructions == Seq::<InstructionV>::empty(),
            res@.control_flow == (ControlFlowView {
                next: 0,
                labels: Map::empty(),
                call_stack: Seq::empty(),
                initial: 0,
            }),
            res@.instruction_runs == 0,
            res@.settings == default_settings(),
    {
        Runtime {
            memory: runtime_args,
            instructions: Vec::new(),
            control_flow: ControlFlow::new(),
            instruction_runs: 0,
            settings: RuntimeSettings::default(),
        }
    }

    /// Runs the complete program, until no instruction is left or one fails.
    pub fn run(&mut self) -> (res: Result<bool, RuntimeError>)
        ensures
            runtime_agrees(res, run_spec(old(self)@).0),
            final(self)@ == run_spec(old(self)@).1,
    {
        while self.control_flow.next_instruction_index < self.instructions.len()
            invariant
                run_spec(self@) == run_spec(old(self)@),
            decreases usize::MAX - self.instruction_runs,
        {
            let runs_before = self.instruction_runs;
            let ghost before = self@;
            assert(before.control_flow.next < before.instructions.len());
            assert(run_spec(before) == match runtime_step(before).0 {
                Err(e) => (Err(e), runtime_step(before).1),
                Ok(_) => if runtime_step(before).1.instruction_runs > before.instruction_runs {
                    run_spec(runtime_step(before).1)
                } else {
                    (Ok(true), runtime_step(before).1)
                },
            });
            match self.step() {
                Err(e) => return Err(e),
                Ok(_) => {},
            }
            if self.instruction_runs <= runs_before {
                return Ok(true);
            }
        }
        Ok(true)
    }

    /// Runs the next instruction only.
    ///
    /// Returns true when no instruction was run because the last one was
    /// already run.
    pub fn step(&mut self) -> (res: Result<bool, RuntimeError>)
        requires
            old(self)@.control_flow.next < usize::MAX,
        ensures
            runtime_agrees(res, runtime_step(old(self)@).0),
            final(self)@ == runtime_step(old(self)@).1,
    {
        let current = self.control_flow.next_instruction_index;
        self.control_flow.next_instruction_index = current + 1;
        if current >= self.instructions.len() {
            return Ok(true);
        }
        let instruction = &self.instructions[current];
        match instruction.run(&mut self.memory, &mut self.control_flow, &self.settings) {
            Err(e) => {
                return Err(RuntimeError { reason: e, line_number: current + 1 });
            },
            Ok(()) => {},
        }
        match self.verify(current + 1) {
            Err(e) => return Err(e),
            Ok(()) => {},
        }
        self.instruction_runs = self.instruction_runs + 1;
        Ok(false)
    }

    /// Checks that the runtime may go on: the call stack must not be too
    /// large, and no more than the allowed number of instructions may have
    /// run.
    fn verify(&self, line_number: usize) -> (res: Result<(), RuntimeError>)
        ensures
            match limit_error(self@) {
                Some(e) => res matches Err(r) && r.reason@ == e && r.line_number == line_number,
                None => res is Ok,
            },
    {
        if self.control_flow.call_stack.len() >= MAX_CALL_STACK_SIZE {
            return Err(RuntimeError { reason: RuntimeErrorType::StackOverflowError, line_number });
        }
        if !self.settings.disable_instruction_limit && self.instruction_runs > MAX_INSTRUCTION_RUNS {
            return Err(RuntimeError {
                reason: RuntimeErrorType::DesignLimitReached(MAX_INSTRUCTION_RUNS),
                line_number,
            });
        }
        if self.instruction_runs == usize::MAX {
            return Err(RuntimeError { reason: RuntimeErrorType::DesignLimitReached(usize::MAX), line_number });
        }
        Ok(())
    }

    /// Sets the instruction that runs next.
    pub fn set_next_instruction(&mut self, idx: usize)
        ensures
            final(self)@ == (RuntimeView {
                control_flow: ControlFlowView { next: idx, ..old(self)@.control_flow },
                ..old(self)@
            }),
    {
        self.control_flow.next_instruction_index = idx;
    }

    /// Whether no instruction is left to run.
    pub fn finished(&self) -> (res: bool)
        ensures
            res == (self@.control_flow.next >= self@.instructions.len()),
    {
        self.control_flow.next_instruction_index >= self.instructions.len()
    }

    /// The index of the instruction that runs next.
    pub fn next_instruction_index(&self) -> (res: usize)
        ensures
            res == self@.control_flow.next,
    {
        self.control_flow.next_instruction_index
    }

    /// How many instructions have run.
    pub fn instruction_runs(&self) -> (res: usize)
        ensures
            res == self@.instruction_runs,
    {
        self.instruction_runs
    }

    /// The index of the instruction that ran last.
    pub fn current_instruction_index(&self) -> (res: usize)
        requires
            self@.control_flow.next > 0,
        ensures
            res == self@.control_flow.next - 1,
    {
        self.control_flow.next_instruction_index - 1
    }

    /// The memory of the runtime.
    pub fn runtime_args(&self) -> (res: &RuntimeMemory)
        ensures
            res@ == self@.memory,
    {
        &self.memory
    }

    /// The memory of the runtime.
    pub fn runtime_memory(&self) -> (res: &RuntimeMemory)
        ensures
            res@ == self@.memory,
    {
        &self.memory
    }

    /// The control flow of the runtime.
    pub fn control_flow(&self) -> (res: &ControlFlow)
        ensures
            res@ == self@.control_flow,
    {
        &self.control_flow
    }

    /// The instructions of the program.
    pub fn instructions(&self) -> (res: &Vec<Instruction>)
        ensures
            program_view(res@) == self@.instructions,
    {
        &self.instructions
    }

    /// Starts over: instruction 0 runs next, no call is pending, and every
    /// memory location is empty; labels and instructions stay.
    pub fn reset(&mut self)
        ensures
            final(self)@ == (RuntimeView {
                memory: cleared(old(self)@.memory),
                control_flow: ControlFlowView {
                    next: 0,
                    call_stack: Seq::empty(),
                    ..old(self)@.control_flow
                },
                ..old(self)@
            }),
    {
        self.control_flow.reset_soft();
        self.memory.reset();
    }

    /// The index of the instruction that runs first.
    pub fn initial_instruction_index(&self) -> (res: usize)
        ensures
            res == self@.control_flow.initial,
    {
        self.control_flow.initial_instruction
    }

    /// Runs `instruction` on the memory and the control flow of this
    /// runtime. An error names the line of the instruction that runs next.
    pub fn run_foreign_instruction(&mut self, instruction: Instruction) -> (res: Result<(), RuntimeError>)
        ensures
            ({
                let out = step_spec(instruction@, old(self)@.memory, old(self)@.control_flow, old(self)@.settings);
                &&& final(self)@ == RuntimeView { memory: out.1, control_flow: out.2, ..old(self)@ }
                &&& runtime_agrees(res, match out.0 {
                    Ok(v) => Ok(v),
                    Err(e) => Err((e, out.2.next)),
                })
            }),
    {
        match instruction.run(&mut self.memory, &mut self.control_flow, &self.settings) {
            Err(e) => Err(RuntimeError { reason: e, line_number: self.control_flow.next_instruction_index }),
            Ok(()) => Ok(()),
        }
    }

    /// Whether the program holds a call.
    pub fn contains_call_instruction(&self) -> (res: bool)
        ensures
            res == exists|i: int| 0 <= i < self@.instructions.len() && self@.instructions[i] is Call,
    {
        let mut i: usize = 0;
        while i < self.instructions.len()
            invariant
                i <= self.instructions.len(),
                forall|j: int| 0 <= j < i ==> !(program_view(self.instructions@)[j] is Call),
            decreases self.instructions.len() - i,
        {
            if let Instruction::Call(_) = &self.instructions[i] {
                assert(program_view(self.instructions@)[i as int] is Call);
                return true;
            }
            i = i + 1;
        }
        false
    }
}

} // verus!
