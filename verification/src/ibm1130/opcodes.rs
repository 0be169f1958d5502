//! Mnemonics of common IBM 1130 assembler operations.

use vstd::prelude::*;

verus! {

/// Load Accumulator.
pub const LD: &'static str = "LD";

/// Store Accumulator.
pub const STO: &'static str = "STO";

/// Add to Accumulator.
pub const ADD: &'static str = "ADD";

/// Subtract from Accumulator.
pub const SUB: &'static str = "SUB";

/// Multiply.
pub const MPY: &'static str = "MPY";

/// Divide.
pub const DIV: &'static str = "DIV";

/// Branch or Skip Conditional.
pub const BSC: &'static str = "BSC";

/// Define Constant.
pub const DC: &'static str = "DC";

/// Define Storage Area.
pub const DSA: &'static str = "DSA";

/// End of Assembly.
pub const END: &'static str = "END";

} // verus!
