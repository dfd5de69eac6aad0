//! Which memory locations a runtime has, with their first values, and
//! whether missing ones are created when a program uses them.
use vstd::prelude::*;

use crate::runtime::storage::{IdMap, NameMap};
use crate::runtime::MemoryView;

verus! {

/// The memory layout of a runtime.
pub struct MemoryConfig {
    pub accumulators: AccumulatorConfig,
    pub gamma_accumulator: GammaAccumulatorConfig,
    pub memory_cells: MemoryCellConfig,
    pub index_memory_cells: IndexMemoryCellConfig,
}

/// The accumulators, with their first values.
pub struct AccumulatorConfig {
    pub values: IdMap<Option<i32>>,
    /// Whether accumulators that a program uses are created; unset means yes.
    pub autodetection: Option<bool>,
}

/// The gamma accumulator.
pub struct GammaAccumulatorConfig {
    pub enabled: bool,
    pub value: Option<i32>,
    /// Whether the gamma accumulator is enabled when a program uses it; unset means yes.
    pub autodetection: Option<bool>,
}

/// The memory cells, with their first values.
pub struct MemoryCellConfig {
    pub values: NameMap<Option<i32>>,
    /// Whether memory cells that a program uses are created; unset means yes.
    pub autodetection: Option<bool>,
}

/// The index memory cells, with their first values.
pub struct IndexMemoryCellConfig {
    pub values: IdMap<Option<i32>>,
    /// Whether index memory cells that a program uses are created; unset means yes.
    pub autodetection: Option<bool>,
}

/// The autodetection values of a memory layout, each unset or set.
pub struct Autodetection {
    pub accumulators: Option<bool>,
    pub gamma: Option<bool>,
    pub memory_cells: Option<bool>,
    pub index_memory_cells: Option<bool>,
}

/// A memory layout as mathematical values.
pub struct ConfigView {
    pub accumulators: Map<usize, Option<i32>>,
    pub gamma_enabled: bool,
    pub gamma_value: Option<i32>,
    pub memory_cells: Map<Seq<char>, Option<i32>>,
    pub index_memory_cells: Map<usize, Option<i32>>,
    pub autodetection: Autodetection,
}

impl View for MemoryConfig {
    type V = ConfigView;

    open spec fn view(&self) -> ConfigView {
        ConfigView {
            accumulators: self.accumulators.values@,
            gamma_enabled: self.gamma_accumulator.enabled,
            gamma_value: self.gamma_accumulator.value,
            memory_cells: self.memory_cells.values@,
            index_memory_cells: self.index_memory_cells.values@,
            autodetection: Autodetection {
                accumulators: self.accumulators.autodetection,
                gamma: self.gamma_accumulator.autodetection,
                memory_cells: self.memory_cells.autodetection,
                index_memory_cells: self.index_memory_cells.autodetection,
            },
        }
    }
}

/// A layout without any location, whose autodetection is unset.
pub open spec fn empty_config() -> ConfigView {
    ConfigView {
        accumulators: Map::empty(),
        gamma_enabled: false,
        gamma_value: None,
        memory_cells: Map::empty(),
        index_memory_cells: Map::empty(),
        autodetection: Autodetection { accumulators: None, gamma: None, memory_cells: None, index_memory_cells: None },
    }
}

/// The memory that the layout `c` describes, with an empty stack.
pub open spec fn config_memory(c: ConfigView) -> MemoryView {
    MemoryView {
        accumulators: c.accumulators,
        gamma: if c.gamma_enabled { Some(c.gamma_value) } else { None },
        memory_cells: c.memory_cells,
        index_memory_cells: c.index_memory_cells,
        stack: Seq::empty(),
    }
}

impl Default for MemoryConfig {
    fn default() -> (res: Self)
        ensures
            res@ == empty_config(),
    {
        MemoryConfig {
            accumulators: AccumulatorConfig { values: IdMap::new(), autodetection: None },
            gamma_accumulator: GammaAccumulatorConfig { enabled: false, value: None, autodetection: None },
            memory_cells: MemoryCellConfig { values: NameMap::new(), autodetection: None },
            index_memory_cells: IndexMemoryCellConfig { values: IdMap::new(), autodetection: None },
        }
    }
}

impl MemoryConfig {
    /// A layout with the same locations, values and settings.
    pub fn duplicate(&self) -> (res: Self)
        ensures
            res@ == self@,
    {
        MemoryConfig {
            accumulators: AccumulatorConfig {
                values: self.accumulators.values.duplicate(),
                autodetection: self.accumulators.autodetection,
            },
            gamma_accumulator: GammaAccumulatorConfig {
                enabled: self.gamma_accumulator.enabled,
                value: self.gamma_accumulator.value,
                autodetection: self.gamma_accumulator.autodetection,
            },
            memory_cells: MemoryCellConfig {
                values: self.memory_cells.values.duplicate(),
                autodetection: self.memory_cells.autodetection,
            },
            index_memory_cells: IndexMemoryCellConfig {
                values: self.index_memory_cells.values.duplicate(),
                autodetection: self.index_memory_cells.autodetection,
            },
        }
    }
}

} // verus!
