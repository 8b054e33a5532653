use vstd::prelude::*;

use crate::engine::{detect_scale, ModelConstraints, Provider};
use crate::error::{AppError, AppResult};
use crate::tiling::InferenceSession;

verus! {

/// Below this much available memory the session cache is bypassed:
/// the session is loaded, used and dropped, and the slot left alone.
pub const LOW_MEMORY_THRESHOLD_BYTES: u64 = 2147483648;

/// What the library knows of one loaded session held by the embedding
/// shell: a process-unique identifier and the metadata read at load.
#[derive(Clone, Copy, Debug)]
pub struct SessionHandle {
    pub session_id: u64,
    pub provider: Provider,
    pub constraints: ModelConstraints,
}

/// What a cache lookup tells the caller to do: reuse the cached
/// session, or load a fresh one (and cache it afterwards or not).
#[derive(Clone, Copy, Debug)]
pub enum CacheDecision {
    Cached(SessionHandle),
    LoadFresh { cache_after: bool },
}

/// The scale recorded for a key in an association list, latest entry
/// winning; the sentinel value `0` records a failed probe.
pub open spec fn find_scale(entries: Seq<(String, u32)>, key: Seq<char>) -> Option<u32>
    decreases entries.len(),
{
    if entries.len() == 0 {
        Option::None
    } else if entries.last().0@ == key {
        Option::Some(entries.last().1)
    } else {
        find_scale(entries.drop_last(), key)
    }
}

/// The single-slot session cache and the per-path scale cache.
pub struct ModelCache {
    slot: Option<(String, SessionHandle)>,
    scale_entries: Vec<(String, u32)>,
}

impl ModelCache {
    /// The session slot: the path of the last cached model and its
    /// session handle.
    pub closed spec fn slot_view(&self) -> Option<(Seq<char>, SessionHandle)> {
        match self.slot {
            Option::Some((p, h)) => Option::Some((p@, h)),
            Option::None => Option::None,
        }
    }

    /// The scale recorded for a model path: a positive native scale,
    /// the sentinel `0` for a remembered probe failure, or nothing.
    pub closed spec fn scale_of(&self, path: Seq<char>) -> Option<u32> {
        find_scale(self.scale_entries@, path)
    }

    /// What a lookup decides, as a function of the cache state, the
    /// path and the memory headroom.
    pub open spec fn spec_lookup(&self, path: Seq<char>, available_ram_bytes: u64) -> CacheDecision {
        if available_ram_bytes < LOW_MEMORY_THRESHOLD_BYTES {
            CacheDecision::LoadFresh { cache_after: false }
        } else {
            match self.slot_view() {
                Option::Some((p, h)) => if p == path {
                    CacheDecision::Cached(h)
                } else {
                    CacheDecision::LoadFresh { cache_after: true }
                },
                Option::None => CacheDecision::LoadFresh { cache_after: true },
            }
        }
    }

    /// An empty cache: no session slot, no scale entries.
    pub fn new() -> (r: ModelCache)
        ensures
            r.slot_view() is None,
            forall|k: Seq<char>| r.scale_of(k) is None,
    {
        let r = ModelCache { slot: Option::None, scale_entries: Vec::new() };
        proof {
            assert(forall|k: Seq<char>| r.scale_of(k) is None) by {
                assert(r.scale_entries@.len() == 0);
            }
        }
        r
    }

    /// Decides how to serve a session for `path`: when memory is low
    /// the cache is bypassed and the slot untouched; when the slot
    /// already holds this path the cached handle is reused; otherwise
    /// a fresh load is called for, to be stored afterwards.
    pub fn lookup_session(&self, path: &String, available_ram_bytes: u64) -> (r: CacheDecision)
        ensures
            r == self.spec_lookup(path@, available_ram_bytes),
    {
        if available_ram_bytes < LOW_MEMORY_THRESHOLD_BYTES {
            return CacheDecision::LoadFresh { cache_after: false };
        }
        match &self.slot {
            Option::Some((p, h)) => {
                if *p == *path {
                    CacheDecision::Cached(*h)
                } else {
                    CacheDecision::LoadFresh { cache_after: true }
                }
            },
            Option::None => CacheDecision::LoadFresh { cache_after: true },
        }
    }

    /// Replaces the session slot with this path and handle; the scale
    /// entries are untouched. The session displaced from the slot is
    /// released by the shell once no job holds it any more.
    pub fn store_session(&mut self, path: &String, handle: SessionHandle)
        ensures
            final(self).slot_view() == Option::Some((path@, handle)),
            forall|k: Seq<char>| final(self).scale_of(k) == old(self).scale_of(k),
    {
        self.slot = Option::Some((path.clone(), handle));
    }

    /// Returns the model's native scale for `path`. A recorded scale
    /// answers without touching the session; the recorded sentinel `0`
    /// fails immediately without touching the session; otherwise the
    /// session is probed, and the result — the scale, or `0` for a
    /// failure — is recorded for the next call.
    pub fn get_model_scale<S: InferenceSession>(
        &mut self,
        path: &String,
        session: &mut S,
    ) -> (r: AppResult<u32>)
        ensures
            old(self).scale_of(path@) matches Some(s) ==> final(session).runs() == old(
                session,
            ).runs() && final(session).probed() == old(session).probed() && (s == 0 ==> r == Err::<
                u32,
                AppError,
            >(AppError::NegativeCacheHit)) && (s != 0 ==> r == Ok::<u32, AppError>(s)),
            old(self).scale_of(path@) is Some ==> final(self).slot_view() == old(
                self,
            ).slot_view() && forall|k: Seq<char>| final(self).scale_of(k) == old(self).scale_of(k),
            old(self).scale_of(path@) is None ==> old(session).runs() + 1 <= final(session).runs()
                <= old(session).runs() + 3,
            old(self).scale_of(path@) is None ==> (r matches Ok(s) ==> final(self).scale_of(path@)
                == Option::Some(s)),
            old(self).scale_of(path@) is None ==> (r is Err ==> final(self).scale_of(path@)
                == Option::Some(0u32)),
            old(self).scale_of(path@) is None ==> final(self).slot_view() == old(self).slot_view()
                && forall|k: Seq<char>|
                k != path@ ==> final(self).scale_of(k) == old(self).scale_of(k),
    {
        let cached = self.find_entry(path);
        match cached {
            Option::Some(scale) => {
                if scale == 0 {
                    Err(AppError::NegativeCacheHit)
                } else {
                    Ok(scale)
                }
            },
            Option::None => {
                let result = detect_scale(session);
                match result {
                    Ok(scale) => {
                        self.scale_entries.push((path.clone(), scale));
                        proof {
                            assert(self.scale_entries@.drop_last()
                                =~= old(self).scale_entries@);
                        }
                        Ok(scale)
                    },
                    Err(e) => {
                        self.scale_entries.push((path.clone(), 0));
                        proof {
                            assert(self.scale_entries@.drop_last()
                                =~= old(self).scale_entries@);
                        }
                        Err(e)
                    },
                }
            },
        }
    }

    /// Looks the path up in the scale entries, latest entry winning.
    fn find_entry(&self, path: &String) -> (r: Option<u32>)
        ensures
            r == self.scale_of(path@),
    {
        let mut i: usize = self.scale_entries.len();
        proof {
            assert(self.scale_entries@.take(i as int) =~= self.scale_entries@);
        }
        while i > 0
            invariant
                i <= self.scale_entries@.len(),
                find_scale(self.scale_entries@, path@) == find_scale(
                    self.scale_entries@.take(i as int),
                    path@,
                ),
            decreases i,
        {
            let entry = &self.scale_entries[i - 1];
            proof {
                assert(self.scale_entries@.take(i as int).last() == self.scale_entries@[i - 1]);
                assert(self.scale_entries@.take(i as int).drop_last() =~= self.scale_entries@.take(
                    i - 1,
                ));
            }
            if entry.0 == *path {
                return Option::Some(entry.1);
            }
            i = i - 1;
        }
        proof {
            assert(self.scale_entries@.take(0) =~= Seq::<(String, u32)>::empty());
        }
        Option::None
    }

    /// Forgets everything recorded for this path: its scale entries
    /// are removed, and the session slot is emptied when it holds this
    /// path. Entries for other paths are untouched.
    pub fn invalidate_cache(&mut self, path: &String)
        ensures
            final(self).scale_of(path@) is None,
            forall|k: Seq<char>| k != path@ ==> final(self).scale_of(k) == old(self).scale_of(k),
            final(self).slot_view() == (match old(self).slot_view() {
                Option::Some((p, h)) => if p == path@ {
                    Option::None
                } else {
                    Option::Some((p, h))
                },
                Option::None => Option::None::<(Seq<char>, SessionHandle)>,
            }),
    {
        let count = self.scale_entries.len();
        let mut kept: Vec<(String, u32)> = Vec::new();
        let mut i: usize = 0;
        while i < count
            invariant
                count == self.scale_entries@.len(),
                i <= count,
                find_scale(kept@, path@) is None,
                forall|k: Seq<char>|
                    k != path@ ==> find_scale(kept@, k) == find_scale(
                        self.scale_entries@.take(i as int),
                        k,
                    ),
            decreases count - i,
        {
            let entry = &self.scale_entries[i];
            proof {
                assert(self.scale_entries@.take(i + 1).last() == self.scale_entries@[i as int]);
                assert(self.scale_entries@.take(i + 1).drop_last() =~= self.scale_entries@.take(
                    i as int,
                ));
            }
            if entry.0 == *path {
                proof {
                    assert forall|k: Seq<char>| k != path@ implies find_scale(kept@, k)
                        == find_scale(self.scale_entries@.take(i + 1), k) by {
                        assert(self.scale_entries@.take(i + 1).last().0@ == path@);
                    }
                }
            } else {
                let ghost pre = kept@;
                kept.push((entry.0.clone(), entry.1));
                proof {
                    assert(kept@.drop_last() =~= pre);
                    assert(kept@.last().0@ == self.scale_entries@.take(i + 1).last().0@);
                    assert forall|k: Seq<char>| k != path@ implies find_scale(kept@, k)
                        == find_scale(self.scale_entries@.take(i + 1), k) by {
                        if kept@.last().0@ == k {
                        } else {
                            assert(find_scale(kept@, k) == find_scale(pre, k));
                        }
                    }
                }
            }
            i = i + 1;
        }
        proof {
            assert(self.scale_entries@.take(count as int) =~= self.scale_entries@);
        }
        self.scale_entries = kept;
        let clear_slot = match &self.slot {
            Option::Some((p, _)) => *p == *path,
            Option::None => false,
        };
        if clear_slot {
            self.slot = Option::None;
        }
    }
}

/// Cache idempotence: once a session for a path sits in the slot, a
/// lookup for the same path with enough memory headroom returns that
/// very handle — and since a lookup never changes the cache, any two
/// consecutive lookups return the same handle. Only the low-memory
/// preflight bypasses this.
pub proof fn lemma_cache_idempotence(
    cache: ModelCache,
    path: Seq<char>,
    handle: SessionHandle,
    available_ram_bytes: u64,
)
    requires
        cache.slot_view() == Option::Some((path, handle)),
        available_ram_bytes >= LOW_MEMORY_THRESHOLD_BYTES,
    ensures
        cache.spec_lookup(path, available_ram_bytes) == CacheDecision::Cached(handle),
{
}

/// One queued or finished job, as persisted by the shell.
#[derive(Clone, Debug)]
pub struct Job {
    pub id: String,
    pub path: String,
    pub status: String,
    pub model: String,
}

/// The in-memory list of jobs; the shell persists it around calls.
#[derive(Debug)]
pub struct JobStore {
    pub jobs: Vec<Job>,
}

impl JobStore {
    /// An empty store.
    pub fn new() -> (r: JobStore)
        ensures
            r.jobs@.len() == 0,
    {
        JobStore { jobs: Vec::new() }
    }

    /// Appends a job.
    pub fn add_job(&mut self, job: Job)
        ensures
            final(self).jobs@ == old(self).jobs@.push(job),
    {
        self.jobs.push(job);
    }

    /// Sets the status of the first job with this id; without a match
    /// the store is unchanged. Returns whether a job was found.
    pub fn update_job_status(&mut self, id: &String, status: String) -> (r: bool)
        ensures
            !r ==> final(self).jobs@ == old(self).jobs@ && (forall|i: int|
                0 <= i < old(self).jobs@.len() ==> (#[trigger] old(self).jobs@[i]).id@ != id@),
            r ==> exists|i: int|
                {
                    &&& 0 <= i < old(self).jobs@.len()
                    &&& (#[trigger] old(self).jobs@[i]).id@ == id@
                    &&& forall|k: int| 0 <= k < i ==> (#[trigger] old(self).jobs@[k]).id@ != id@
                    &&& final(self).jobs@.len() == old(self).jobs@.len()
                    &&& final(self).jobs@[i].id@ == old(self).jobs@[i].id@
                    &&& final(self).jobs@[i].path@ == old(self).jobs@[i].path@
                    &&& final(self).jobs@[i].model@ == old(self).jobs@[i].model@
                    &&& final(self).jobs@[i].status@ == status@
                    &&& forall|k: int|
                        0 <= k < final(self).jobs@.len() && k != i ==> final(self).jobs@[k]
                            == old(self).jobs@[k]
                },
    {
        let count = self.jobs.len();
        let mut i: usize = 0;
        while i < count
            invariant
                count == self.jobs@.len(),
                i <= count,
                self.jobs@ == old(self).jobs@,
                forall|k: int| 0 <= k < i ==> (#[trigger] old(self).jobs@[k]).id@ != id@,
            decreases count - i,
        {
            if self.jobs[i].id == *id {
                let updated = Job {
                    id: self.jobs[i].id.clone(),
                    path: self.jobs[i].path.clone(),
                    status,
                    model: self.jobs[i].model.clone(),
                };
                self.jobs[i] = updated;
                return true;
            }
            i = i + 1;
        }
        false
    }
}

impl Default for JobStore {
    /// The default store is empty.
    fn default() -> (r: JobStore)
        ensures
            r.jobs@.len() == 0,
    {
        JobStore::new()
    }
}

} // verus!
