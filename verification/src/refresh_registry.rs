//! At most one refresh per source at a time.
use vstd::prelude::*;

use crate::error::{CoreError, ErrorKind};
use crate::text::{chars_of, same_text};

verus! {

/// The sources whose refresh is under way.
///
/// They are held in a vector whose view is a set, not in a `HashSet`: source ids are
/// text, and vstd gives no specification of a `HashSet` of text that membership could be
/// proved against.
#[derive(Debug)]
pub struct RefreshRegistry {
    running_sources: Vec<String>,
}

/// The right to refresh one source, handed out by [`RefreshRegistry::try_acquire`] and
/// given back with [`RefreshRegistry::release`].
#[derive(Debug)]
pub struct RefreshGuard {
    source_id: String,
}

impl RefreshGuard {
    /// The source this guard is for.
    pub closed spec fn source(&self) -> Seq<char> {
        self.source_id@
    }

    /// The source this guard is for.
    pub fn source_id(&self) -> (r: &str)
        ensures
            r@ == self.source(),
    {
        self.source_id.as_str()
    }
}

impl View for RefreshRegistry {
    type V = Set<Seq<char>>;

    closed spec fn view(&self) -> Set<Seq<char>> {
        self.running_sources.deep_view().to_set()
    }
}

/// What acquiring `id` does to the running sources: refused when `id` runs already, else
/// `id` joins them.
pub open spec fn acquire_spec(running: Set<Seq<char>>, id: Seq<char>) -> (bool, Set<Seq<char>>) {
    if running.contains(id) {
        (false, running)
    } else {
        (true, running.insert(id))
    }
}

impl RefreshRegistry {
    /// No source runs yet.
    pub fn new() -> (r: RefreshRegistry)
        ensures
            r@ == Set::<Seq<char>>::empty(),
    {
        let r = RefreshRegistry { running_sources: Vec::new() };
        assert(r.running_sources.deep_view().to_set() =~= Set::<Seq<char>>::empty());
        r
    }

    fn position(&self, source_id: &[char]) -> (r: Option<usize>)
        ensures
            match r {
                Some(i) => i < self.running_sources@.len() && self.running_sources.deep_view()[i as int]
                    == source_id@,
                None => !self.running_sources.deep_view().contains(source_id@),
            },
    {
        let mut i: usize = 0;
        while i < self.running_sources.len()
            invariant
                i <= self.running_sources@.len(),
                forall|k: int| 0 <= k < i ==> self.running_sources.deep_view()[k] != source_id@,
            decreases self.running_sources@.len() - i,
        {
            if same_text(chars_of(self.running_sources[i].as_str()).as_slice(), source_id) {
                return Some(i);
            }
            i += 1;
        }
        None
    }

    /// Whether a refresh of `source_id` is under way.
    pub fn is_running(&self, source_id: &str) -> (r: bool)
        ensures
            r == self@.contains(source_id@),
    {
        self.position(chars_of(source_id).as_slice()).is_some()
    }

    /// Starts a refresh of `source_id`: refused with `RefreshAlreadyRunning(source_id)`
    /// while one is under way, else the source is marked as running and a guard for it is
    /// handed out.
    pub fn try_acquire(&mut self, source_id: &str) -> (r: Result<RefreshGuard, CoreError>)
        ensures
            acquire_spec(old(self)@, source_id@).0 == r is Ok,
            final(self)@ == acquire_spec(old(self)@, source_id@).1,
            match r {
                Ok(g) => g.source() == source_id@,
                Err(e) => e@ == (ErrorKind::RefreshAlreadyRunning, source_id@),
            },
    {
        let id = chars_of(source_id);
        match self.position(id.as_slice()) {
            Some(_) => Err(CoreError::RefreshAlreadyRunning(source_id.to_owned())),
            None => {
                let ghost before = self.running_sources.deep_view();
                self.running_sources.push(source_id.to_owned());
                proof {
                    assert(self.running_sources.deep_view() =~= before.push(source_id@));
                    before.lemma_push_to_set_commute(source_id@);
                }
                Ok(RefreshGuard { source_id: source_id.to_owned() })
            },
        }
    }

    /// Ends the refresh a guard stands for: its source is no longer running.
    pub fn release(&mut self, guard: RefreshGuard)
        ensures
            final(self)@ == old(self)@.remove(guard.source()),
    {
        let ghost id = guard.source();
        let ghost before = self.running_sources.deep_view();
        let mut kept: Vec<String> = Vec::new();
        let mut i: usize = 0;
        let target = chars_of(guard.source_id.as_str());
        while i < self.running_sources.len()
            invariant
                i <= self.running_sources@.len(),
                before == self.running_sources.deep_view(),
                target@ == id,
                kept.deep_view().to_set() == before.take(i as int).to_set().remove(id),
            decreases self.running_sources@.len() - i,
        {
            let ghost pre = kept.deep_view();
            proof {
                assert(before.take(i + 1) =~= before.take(i as int).push(before[i as int]));
                before.take(i as int).lemma_push_to_set_commute(before[i as int]);
            }
            if !same_text(chars_of(self.running_sources[i].as_str()).as_slice(), target.as_slice()) {
                kept.push(self.running_sources[i].clone());
                proof {
                    assert(kept.deep_view() =~= pre.push(before[i as int]));
                    pre.lemma_push_to_set_commute(before[i as int]);
                    assert(kept.deep_view().to_set() =~= before.take(i + 1).to_set().remove(id));
                }
            } else {
                assert(kept.deep_view().to_set() =~= before.take(i + 1).to_set().remove(id));
            }
            i += 1;
        }
        assert(before.take(before.len() as int) =~= before);
        self.running_sources = kept;
    }
}

/// While a source's refresh is under way a second one is refused, and once it is released
/// the source can be refreshed again; other sources are not affected.
pub proof fn lemma_one_refresh_per_source(running: Set<Seq<char>>, id: Seq<char>, other: Seq<char>)
    requires
        !running.contains(id),
        other != id,
    ensures
        acquire_spec(running, id).0,
        !acquire_spec(acquire_spec(running, id).1, id).0,
        acquire_spec(running, id).1.remove(id) == running,
        acquire_spec(acquire_spec(running, id).1.remove(id), id).0,
        acquire_spec(running, id).1.contains(other) == running.contains(other),
{
    assert(acquire_spec(running, id).1.remove(id) =~= running);
}

} // verus!
