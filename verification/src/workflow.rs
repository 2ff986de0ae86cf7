//! Custom workflows: scripts registered under a name.
use vstd::prelude::*;
use crate::config::{ConfigDirLookup, GlobalConfig, under_config_dir};
use crate::error::ToadResult;
use crate::keyed::KeyedList;
use crate::order::text_eq;
use crate::paths::{join_path, path_join};
use crate::time::Timestamp;

verus! {

/// A script registered under a name.
#[derive(Debug, Clone, PartialEq)]
pub struct CustomWorkflow {
    pub name: String,
    pub description: Option<String>,
    pub script_path: String,
    pub registered_at: Timestamp,
}

/// The registered workflows, and the names that workflows may not take.
#[derive(Debug, Clone)]
pub struct WorkflowRegistry {
    pub workflows: KeyedList<CustomWorkflow>,
    pub reserved_namespaces: Vec<String>,
}

impl Default for WorkflowRegistry {
    fn default() -> (r: Self)
        ensures
            r.workflows@ == Map::<Seq<char>, CustomWorkflow>::empty(),
            r.reserved_namespaces@.len() == 0,
    {
        WorkflowRegistry { workflows: KeyedList::new(), reserved_namespaces: Vec::new() }
    }
}

impl WorkflowRegistry {
    /// The path of `workflows.json` in the configuration directory.
    pub fn registry_path(lookup: &ConfigDirLookup) -> (r: ToadResult<String>)
        ensures
            under_config_dir(*lookup, r, |d: Seq<char>| path_join(d, "workflows.json"@)),
    {
        match GlobalConfig::config_dir(lookup) {
            Ok(d) => Ok(join_path(d.as_str(), "workflows.json")),
            Err(e) => Err(e),
        }
    }

    /// Whether `name` is a reserved namespace.
    pub fn is_reserved(&self, name: &str) -> (r: bool)
        ensures
            r == exists|i: int| 0 <= i < self.reserved_namespaces@.len() && #[trigger] self.reserved_namespaces@[i]@ == name@,
    {
        let mut i: usize = 0;
        while i < self.reserved_namespaces.len()
            invariant
                i <= self.reserved_namespaces@.len(),
                forall|j: int| 0 <= j < i ==> #[trigger] self.reserved_namespaces@[j]@ != name@,
            decreases self.reserved_namespaces@.len() - i,
        {
            if text_eq(self.reserved_namespaces[i].as_str(), name) {
                return true;
            }
            i = i + 1;
        }
        false
    }
}

} // verus!
