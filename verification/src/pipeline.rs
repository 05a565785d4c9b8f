//! Specialized render-pipeline cache.
//!
//! A pipeline variant is determined by a small set of view-level flags. The
//! first view that needs a variant has it specialized (a command to the
//! backend); every later view or frame with the same key reuses the cached
//! handle.

use vstd::prelude::*;

use crate::cache::{assoc_get, distinct_keys, lemma_assoc_elem, lemma_assoc_none, lemma_assoc_some};
use crate::gpu::{GpuCommand, HandleAllocator};

verus! {

/// The view-level flags a pipeline variant is specialized for. The
/// primitive topology is always the unit quad's triangle list and is not
/// part of the key.
#[derive(Clone, Copy, PartialEq, Eq, Structural, Debug)]
pub struct PipelineKey {
    pub msaa_samples: u32,
    pub hdr: bool,
}

/// Cache of specialized pipeline variants, keyed by view-level flags.
pub struct SpecializedPipelines {
    pub entries: Vec<(PipelineKey, u64)>,
}

impl SpecializedPipelines {
    pub open spec fn wf(self) -> bool {
        distinct_keys(self.entries@)
    }

    /// The cached pipeline handle for `key`, if one was specialized.
    pub open spec fn spec_get(self, key: PipelineKey) -> Option<u64> {
        assoc_get(self.entries@, key)
    }

    pub fn new() -> (r: SpecializedPipelines)
        ensures
            r.wf(),
            forall|key: PipelineKey| r.spec_get(key) is None,
    {
        SpecializedPipelines { entries: Vec::new() }
    }

    /// The pipeline variant for `key`: the cached handle if the variant was
    /// specialized before (no new work), else a fresh handle under which
    /// the backend is told to specialize it once.
    pub fn specialize(
        &mut self,
        key: PipelineKey,
        alloc: &mut HandleAllocator,
        commands: &mut Vec<GpuCommand>,
    ) -> (pipeline: u64)
        requires
            old(self).wf(),
            old(alloc).next < u64::MAX,
        ensures
            final(self).wf(),
            final(self).spec_get(key) == Some(pipeline),
            forall|other: PipelineKey|
                other != key ==> final(self).spec_get(other) == old(self).spec_get(other),
            old(alloc).next <= final(alloc).next <= old(alloc).next + 1,
            final(commands)@.take(old(commands)@.len() as int) == old(commands)@,
            (match old(self).spec_get(key) {
                Some(p) => pipeline == p && *final(self) == *old(self) && *final(alloc) == *old(
                    alloc,
                ) && final(commands)@ == old(commands)@,
                None => pipeline == old(alloc).next && final(alloc).next == old(alloc).next + 1
                    && final(commands)@ == old(commands)@.push(
                    GpuCommand::SpecializePipeline {
                        pipeline,
                        msaa_samples: key.msaa_samples,
                        hdr: key.hdr,
                    },
                ),
            }),
    {
        let ghost prev = self.entries@;
        let n = self.entries.len();
        let mut i: usize = 0;
        while i < n
            invariant
                self.wf(),
                i <= n,
                n == self.entries@.len(),
                forall|j: int| 0 <= j < i ==> self.entries@[j].0 != key,
            decreases n - i,
        {
            if self.entries[i].0 == key {
                let pipeline = self.entries[i].1;
                proof {
                    lemma_assoc_elem(self.entries@, key, pipeline, i as int);
                    assert(commands@.take(commands@.len() as int) =~= commands@);
                }
                return pipeline;
            }
            i = i + 1;
        }
        proof {
            lemma_assoc_none(self.entries@, key);
        }
        let pipeline = alloc.fresh();
        commands.push(
            GpuCommand::SpecializePipeline { pipeline, msaa_samples: key.msaa_samples, hdr: key.hdr },
        );
        self.entries.push((key, pipeline));
        proof {
            let cur = self.entries@;
            assert(distinct_keys(cur)) by {
                assert(forall|j: int| 0 <= j < prev.len() ==> cur[j] == prev[j]);
                assert(cur[cur.len() - 1].0 == key);
            }
            lemma_assoc_elem(cur, key, pipeline, cur.len() - 1);
            assert forall|other: PipelineKey| other != key implies assoc_get(cur, other)
                == assoc_get(prev, other) by {
                assert(cur.drop_last() =~= prev);
            }
            assert(commands@.take(old(commands)@.len() as int) =~= old(commands)@);
        }
        pipeline
    }
}

} // verus!
