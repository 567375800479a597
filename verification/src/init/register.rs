//! Which input sources start, from the bindings that listen to them.
use vstd::prelude::*;

use crate::config::binding::BindingsConfig;

verus! {

/// The sources to start: a source starts when at least one binding listens to it.
#[derive(Debug, Clone, Copy, PartialEq, Eq)]
pub struct SourcePlan {
    pub uart: bool,
    pub timer: bool,
    pub loop_source: bool,
    pub debug: bool,
}

/// The sources the bindings need.
pub fn source_plan(bindings: &BindingsConfig) -> (r: SourcePlan)
    ensures
        r.uart == (bindings.uart_source@.len() > 0),
        r.timer == (bindings.timer_source@.len() > 0),
        r.loop_source == (bindings.loop_source@.len() > 0),
        r.debug == (bindings.debug_source@.len() > 0),
{
    SourcePlan {
        uart: bindings.uart_source.len() > 0,
        timer: bindings.timer_source.len() > 0,
        loop_source: bindings.loop_source.len() > 0,
        debug: bindings.debug_source.len() > 0,
    }
}

} // verus!
