//! Amounts of compute that a worker offers or a job asks for.

use vstd::prelude::*;

use crate::number::Double;

verus! {

/// Amounts of each kind of resource.
#[derive(Clone, Copy, Debug, PartialEq, Eq, Structural)]
pub struct Resources {
    pub cpu: Double,
    pub gpu: Double,
    pub memory: Double,
}

impl Default for Resources {
    /// No resources at all: the all-zero pattern is the number zero.
    fn default() -> (resources: Resources)
        ensures
            resources.cpu.bits == 0,
            resources.gpu.bits == 0,
            resources.memory.bits == 0,
    {
        Resources {
            cpu: Double { bits: 0 },
            gpu: Double { bits: 0 },
            memory: Double { bits: 0 },
        }
    }
}

impl Resources {
    pub fn gpu(&self) -> (amount: Double)
        ensures
            amount == self.gpu,
    {
        self.gpu
    }

    pub fn with_cpu(self, amount: Double) -> (resources: Resources)
        ensures
            resources == (Resources { cpu: amount, ..self }),
    {
        Resources { cpu: amount, ..self }
    }

    pub fn with_gpu(self, amount: Double) -> (resources: Resources)
        ensures
            resources == (Resources { gpu: amount, ..self }),
    {
        Resources { gpu: amount, ..self }
    }

    pub fn with_memory(self, amount: Double) -> (resources: Resources)
        ensures
            resources == (Resources { memory: amount, ..self }),
    {
        Resources { memory: amount, ..self }
    }
}

/// Each amount is set on its own: the one that is set is what it was set to, the others stay.
/// Without any set there are none.
pub proof fn law_amounts_are_set_one_by_one(
    resources: Resources,
    amount: Double,
    none: Resources,
    cpu: Resources,
    gpu: Resources,
    memory: Resources,
    told: Double,
)
    requires
        call_ensures(<Resources as Default>::default, (), none),
        call_ensures(Resources::with_cpu, (resources, amount), cpu),
        call_ensures(Resources::with_gpu, (resources, amount), gpu),
        call_ensures(Resources::with_memory, (resources, amount), memory),
        call_ensures(Resources::gpu, (&gpu,), told),
    ensures
        none.cpu.bits == 0 && none.gpu.bits == 0 && none.memory.bits == 0,
        cpu.cpu == amount && cpu.gpu == resources.gpu && cpu.memory == resources.memory,
        gpu.cpu == resources.cpu && gpu.gpu == amount && gpu.memory == resources.memory,
        memory.cpu == resources.cpu && memory.gpu == resources.gpu && memory.memory == amount,
        told == amount,
{
}

} // verus!
