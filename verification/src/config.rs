//! The benchmark's configuration matrix.
//!
//! A configuration is an immutable record of pointer width, bounds-check
//! strategy and speculative-execution mitigation, supplied to the creation of
//! one virtual-machine instance and never mutated afterwards. The matrix is a
//! fixed data table so that the comparison stays exhaustive: adding a
//! strategy is a table change, not a control-flow change.

use vstd::prelude::*;

verus! {

/// The pointer width the guest binary was compiled for. It determines which
/// guest binary is instantiated and which integer type carries addresses
/// across the boundary; the two builds are not interchangeable.
#[derive(Clone, Copy, Debug, PartialEq, Eq, Structural)]
pub enum PointerWidth {
    /// Guest addresses are 32-bit integers.
    W32,
    /// Guest addresses are 64-bit integers.
    W64,
}

/// How out-of-range access inside the sandbox is caught: a statically
/// reserved guard region, or explicit runtime range checks.
#[derive(Clone, Copy, Debug, PartialEq, Eq, Structural)]
pub enum BoundsStrategy {
    /// A statically reserved maximum-size region backs every access.
    Static,
    /// Every access is range-checked at runtime.
    Dynamic,
}

/// One isolation configuration: pointer width, bounds-check strategy, and
/// whether the speculative-execution bounds-check mitigation is on.
#[derive(Clone, Copy, Debug, PartialEq, Eq, Structural)]
pub struct BenchConfig {
    /// Pointer width of the matching guest binary.
    pub width: PointerWidth,
    /// Bounds-check strategy for the instance's linear memory.
    pub bounds: BoundsStrategy,
    /// Whether the speculative-execution mitigation is enabled.
    pub spectre_mitigation: bool,
}

impl BenchConfig {
    /// The static memory reservation handed to the virtual machine, in
    /// bytes: a 2 GiB guard region for the static strategy, and zero for the
    /// dynamic strategy, zero meaning no static reservation at all.
    pub open spec fn static_memory_maximum_size_spec(&self) -> u64 {
        match self.bounds {
            BoundsStrategy::Static => 0x8000_0000u64,
            BoundsStrategy::Dynamic => 0u64,
        }
    }

    /// The static memory reservation handed to the virtual machine.
    pub fn static_memory_maximum_size(&self) -> (r: u64)
        ensures
            r == self.static_memory_maximum_size_spec(),
    {
        match self.bounds {
            BoundsStrategy::Static => 0x8000_0000u64,
            BoundsStrategy::Dynamic => 0u64,
        }
    }

    /// The row label of this configuration in the report.
    pub open spec fn label_spec(&self) -> Seq<char> {
        match self.bounds {
            BoundsStrategy::Static => if self.spectre_mitigation {
                "static-spectre"@
            } else {
                "static"@
            },
            BoundsStrategy::Dynamic => if self.spectre_mitigation {
                "dynamic-spectre"@
            } else {
                "dynamic"@
            },
        }
    }

    /// The row label of this configuration in the report.
    pub fn label(&self) -> (r: &'static str)
        ensures
            r@ == self.label_spec(),
    {
        match self.bounds {
            BoundsStrategy::Static => if self.spectre_mitigation {
                "static-spectre"
            } else {
                "static"
            },
            BoundsStrategy::Dynamic => if self.spectre_mitigation {
                "dynamic-spectre"
            } else {
                "dynamic"
            },
        }
    }
}

/// The fixed matrix compared per run: for each pointer width, the static and
/// dynamic bounds strategies, each without and with the speculative
/// mitigation; the 32-bit rows first.
pub open spec fn config_matrix() -> Seq<BenchConfig> {
    seq![
        (BenchConfig { width: PointerWidth::W32, bounds: BoundsStrategy::Static, spectre_mitigation: false }),
        (BenchConfig { width: PointerWidth::W32, bounds: BoundsStrategy::Dynamic, spectre_mitigation: false }),
        (BenchConfig { width: PointerWidth::W32, bounds: BoundsStrategy::Static, spectre_mitigation: true }),
        (BenchConfig { width: PointerWidth::W32, bounds: BoundsStrategy::Dynamic, spectre_mitigation: true }),
        (BenchConfig { width: PointerWidth::W64, bounds: BoundsStrategy::Static, spectre_mitigation: false }),
        (BenchConfig { width: PointerWidth::W64, bounds: BoundsStrategy::Dynamic, spectre_mitigation: false }),
        (BenchConfig { width: PointerWidth::W64, bounds: BoundsStrategy::Static, spectre_mitigation: true }),
        (BenchConfig { width: PointerWidth::W64, bounds: BoundsStrategy::Dynamic, spectre_mitigation: true }),
    ]
}

/// The configurations a run benchmarks, in report order: exactly the fixed
/// matrix of pointer width times bounds strategy times mitigation flag.
pub fn configs() -> (v: Vec<BenchConfig>)
    ensures
        v@ == config_matrix(),
        v@.len() == 8,
{
    let mut v: Vec<BenchConfig> = Vec::new();
    v.push(BenchConfig { width: PointerWidth::W32, bounds: BoundsStrategy::Static, spectre_mitigation: false });
    v.push(BenchConfig { width: PointerWidth::W32, bounds: BoundsStrategy::Dynamic, spectre_mitigation: false });
    v.push(BenchConfig { width: PointerWidth::W32, bounds: BoundsStrategy::Static, spectre_mitigation: true });
    v.push(BenchConfig { width: PointerWidth::W32, bounds: BoundsStrategy::Dynamic, spectre_mitigation: true });
    v.push(BenchConfig { width: PointerWidth::W64, bounds: BoundsStrategy::Static, spectre_mitigation: false });
    v.push(BenchConfig { width: PointerWidth::W64, bounds: BoundsStrategy::Dynamic, spectre_mitigation: false });
    v.push(BenchConfig { width: PointerWidth::W64, bounds: BoundsStrategy::Static, spectre_mitigation: true });
    v.push(BenchConfig { width: PointerWidth::W64, bounds: BoundsStrategy::Dynamic, spectre_mitigation: true });
    proof {
        assert(v@ =~= config_matrix());
    }
    v
}

} // verus!
