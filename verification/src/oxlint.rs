use vstd::prelude::*;
use std::collections::BTreeMap;
use crate::lsp::ZedLspSupport;

verus! {

/// The Oxlint language server.
pub struct ZedOxlintLsp {
    sources: BTreeMap<u64, bool>,
}

impl Default for ZedOxlintLsp {
    fn default() -> (r: Self)
        ensures
            r.source_map() == Map::<u64, bool>::empty(),
    {
        ZedOxlintLsp { sources: BTreeMap::new() }
    }
}

impl ZedOxlintLsp {
    pub fn new() -> (r: Self)
        ensures
            r.source_map() == Map::<u64, bool>::empty(),
    {
        ZedOxlintLsp { sources: BTreeMap::new() }
    }
}

impl ZedLspSupport for ZedOxlintLsp {
    closed spec fn source_map(&self) -> Map<u64, bool> {
        self.sources@
    }

    open spec fn spec_package_name(&self) -> Seq<char> {
        "oxlint"@
    }

    fn package_name(&self) -> (r: &'static str) {
        "oxlint"
    }

    fn sources(&self) -> (r: &BTreeMap<u64, bool>) {
        &self.sources
    }

    fn sources_mut(&mut self) -> (r: &mut BTreeMap<u64, bool>) {
        &mut self.sources
    }
}

} // verus!
