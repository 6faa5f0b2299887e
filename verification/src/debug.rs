//! Which parts of a decoder report what they do.

use vstd::prelude::*;

verus! {

/// A part of the decoder that can report; `All` stands for every part.
#[derive(Debug, Clone, Copy, PartialEq, Eq, Structural)]
pub enum DebugType {
    All,
    Decoder,
    Header,
    SideInfo,
    ScaleFactor,
}

/// The parts that report.
#[derive(Debug, Default, PartialEq, Eq)]
pub struct DebugConfig {
    pub enabled_types: Vec<DebugType>,
}

/// The four parts of the decoder, which `All` stands for.
pub open spec fn every_part() -> Seq<DebugType> {
    seq![DebugType::Decoder, DebugType::Header, DebugType::SideInfo, DebugType::ScaleFactor]
}

impl DebugConfig {
    /// The configuration that a list of parts asks for: every part if `All`
    /// is among them, else the parts as listed.
    pub fn new(debug_types: &[DebugType]) -> (config: Self)
        ensures
            config.enabled_types@ == (if debug_types@.contains(DebugType::All) {
                every_part()
            } else {
                debug_types@
            }),
    {
        let mut listed: Vec<DebugType> = Vec::new();
        let mut k: usize = 0;
        while k < debug_types.len()
            invariant
                k <= debug_types@.len(),
                listed@ == debug_types@.subrange(0, k as int),
                forall|j: int| 0 <= j < k ==> debug_types@[j] != DebugType::All,
            decreases debug_types.len() - k,
        {
            let part = debug_types[k];
            if part == DebugType::All {
                let mut all: Vec<DebugType> = Vec::new();
                all.push(DebugType::Decoder);
                all.push(DebugType::Header);
                all.push(DebugType::SideInfo);
                all.push(DebugType::ScaleFactor);
                assert(all@ =~= every_part());
                assert(debug_types@[k as int] == DebugType::All);
                return DebugConfig { enabled_types: all };
            }
            listed.push(part);
            assert(listed@ =~= debug_types@.subrange(0, k + 1));
            k = k + 1;
        }
        assert(debug_types@.subrange(0, k as int) =~= debug_types@);
        DebugConfig { enabled_types: listed }
    }

    /// Whether a part reports: whether it is among the enabled parts.
    pub fn is_enabled(&self, debug_type: DebugType) -> (enabled: bool)
        ensures
            enabled == self.enabled_types@.contains(debug_type),
    {
        let mut k: usize = 0;
        while k < self.enabled_types.len()
            invariant
                k <= self.enabled_types@.len(),
                forall|j: int| 0 <= j < k ==> self.enabled_types@[j] != debug_type,
            decreases self.enabled_types.len() - k,
        {
            if self.enabled_types[k] == debug_type {
                return true;
            }
            k = k + 1;
        }
        false
    }
}

} // verus!
