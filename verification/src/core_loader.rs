//! Counts of the registered mining core factories.

use vstd::prelude::*;
use crate::logging::formatter::{decimal, push_decimal};

verus! {

/// How many core factories are registered and how many cores run.
#[derive(Debug, Clone, Copy, PartialEq, Eq)]
pub struct RegistryStats {
    pub registered_factories: usize,
    pub active_cores: usize,
}

impl RegistryStats {
    /// The text of the counts: the running cores are named only when some
    /// run.
    pub fn to_string(&self) -> (r: String)
        ensures
            self.active_cores == 0 ==> r@ == "注册工厂: "@ + decimal(self.registered_factories as nat),
            self.active_cores != 0 ==> r@ == "注册工厂: "@ + decimal(self.registered_factories as nat) + ", 活跃核心: "@
                + decimal(self.active_cores as nat),
    {
        let mut s = String::from_str("注册工厂: ");
        push_decimal(&mut s, self.registered_factories as u64);
        if self.active_cores != 0 {
            s.append(", 活跃核心: ");
            push_decimal(&mut s, self.active_cores as u64);
        }
        s
    }
}

} // verus!
