//! Output configuration: single-line versus indented layout, quoted
//! versus raw string emission, and the indentation style.

use vstd::prelude::*;

verus! {

/// Configuration for output formatting.
#[derive(Debug)]
pub struct OutputConfig {
    pub compact: bool,
    pub raw_strings: bool,
    pub use_tabs: bool,
    pub indent_size: usize,
}

impl Default for OutputConfig {
    /// Indented output, quoted strings, two spaces per level.
    fn default() -> (c: OutputConfig)
        ensures
            !c.compact,
            !c.raw_strings,
            !c.use_tabs,
            c.indent_size == 2,
    {
        OutputConfig { compact: false, raw_strings: false, use_tabs: false, indent_size: 2 }
    }
}

} // verus!
