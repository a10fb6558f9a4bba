use vstd::prelude::*;
use std::collections::BTreeMap;
use crate::lsp::ZedLspSupport;

verus! {

/// The Oxfmt language server.
pub struct ZedOxfmtLsp {
    sources: BTreeMap<u64, bool>,
}

impl Default for ZedOxfmtLsp {
    fn default() -> (r: Self)
        ensures
            r.source_map() == Map::<u64, bool>::empty(),
    {
        ZedOxfmtLsp { sources: BTreeMap::new() }
    }
}

impl ZedOxfmtLsp {
    pub fn new() -> (r: Self)
        ensures
            r.source_map() == Map::<u64, bool>::empty(),
    {
        ZedOxfmtLsp { sources: BTreeMap::new() }
    }
}

impl ZedLspSupport for ZedOxfmtLsp {
    closed spec fn source_map(&self) -> Map<u64, bool> {
        self.sources@
    }

    open spec fn spec_package_name(&self) -> Seq<char> {
        "oxfmt"@
    }

    fn package_name(&self) -> (r: &'static str) {
        "oxfmt"
    }

    fn sources(&self) -> (r: &BTreeMap<u64, bool>) {
        &self.sources
    }

    fn sources_mut(&mut self) -> (r: &mut BTreeMap<u64, bool>) {
        &mut self.sources
    }
}

} // verus!
