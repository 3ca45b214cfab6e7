//! The dedup store: a persistent membership set of forwarded notification
//! identifiers, and the connection-string dispatch that selects a backend.
//!
//! The store is polymorphic over the capability set {initialize, check
//! membership, record membership}. The in-memory backend below is verified;
//! networked backends implement the same capability outside the library and
//! hand their answers back as events.

use vstd::prelude::*;

use crate::errors::StoreError;
use crate::errors::UnsupportedStoreError;
use crate::strutil::spec_starts_with;
use crate::strutil::str_eq;
use crate::strutil::str_starts_with;

verus! {

/// A persistent membership set of notification identifiers.
///
/// `sent_ids` is the abstract contents: the set of identifiers whose forward
/// succeeded. Insertion is idempotent; a failed operation leaves the contents
/// unchanged.
pub trait NotificationStore: Sized {
    /// The identifiers recorded as sent.
    spec fn sent_ids(&self) -> Set<Seq<char>>;

    /// Idempotently ensures the backing structure exists.
    fn init(&mut self) -> (r: Result<(), StoreError>)
        ensures
            final(self).sent_ids() == old(self).sent_ids(),
            r matches Err(e) ==> e == StoreError::StoreInitError,
    ;

    /// Whether `id` has a recorded membership. Never conflates "not found"
    /// with an error.
    fn is_sent(&self, id: &str) -> (r: Result<bool, StoreError>)
        ensures
            r matches Ok(b) ==> b == self.sent_ids().contains(id@),
            r matches Err(e) ==> e == StoreError::StoreQueryError,
    ;

    /// Records `id` as sent; a no-op if it is already present. On failure the
    /// contents are unchanged (no partial record).
    fn mark_sent(&mut self, id: &str) -> (r: Result<(), StoreError>)
        ensures
            r is Ok ==> final(self).sent_ids() == old(self).sent_ids().insert(id@),
            r matches Err(e) ==> e == StoreError::StoreWriteError && final(self).sent_ids()
                == old(self).sent_ids(),
    ;
}

/// An in-memory dedup store: membership lasts for the life of the value.
pub struct MemoryStore {
    ids: Vec<String>,
}

impl MemoryStore {
    /// An empty store.
    pub fn new() -> (r: MemoryStore)
        ensures
            r.sent_ids() == Set::<Seq<char>>::empty(),
    {
        let r = MemoryStore { ids: Vec::new() };
        proof {
            assert(r.ids@.map_values(|s: String| s@).to_set() =~= Set::<Seq<char>>::empty());
        }
        r
    }

    /// Scans for `id`, returning its presence.
    fn contains_id(&self, id: &str) -> (r: bool)
        ensures
            r == self.sent_ids().contains(id@),
    {
        let ghost views = self.ids@.map_values(|s: String| s@);
        let mut i: usize = 0;
        while i < self.ids.len()
            invariant
                i <= self.ids@.len(),
                views == self.ids@.map_values(|s: String| s@),
                forall|k: int| 0 <= k < i ==> views[k] != id@,
            decreases self.ids@.len() - i,
        {
            if str_eq(self.ids[i].as_str(), id) {
                proof {
                    assert(views[i as int] == id@);
                    assert(views.to_set().contains(id@));
                }
                return true;
            }
            i = i + 1;
        }
        proof {
            assert forall|e: Seq<char>| views.to_set().contains(e) implies e != id@ by {
                let k = choose|k: int| 0 <= k < views.len() && views[k] == e;
            }
        }
        false
    }
}

impl NotificationStore for MemoryStore {
    closed spec fn sent_ids(&self) -> Set<Seq<char>> {
        self.ids@.map_values(|s: String| s@).to_set()
    }

    /// Nothing to create for an in-memory store.
    fn init(&mut self) -> (r: Result<(), StoreError>)
        ensures
            r is Ok,
    {
        Ok(())
    }

    fn is_sent(&self, id: &str) -> (r: Result<bool, StoreError>)
        ensures
            r is Ok,
    {
        Ok(self.contains_id(id))
    }

    fn mark_sent(&mut self, id: &str) -> (r: Result<(), StoreError>)
        ensures
            r is Ok,
    {
        if !self.contains_id(id) {
            let owned: String = id.to_owned();
            let ghost old_views = self.ids@.map_values(|s: String| s@);
            self.ids.push(owned);
            proof {
                assert(self.ids@.map_values(|s: String| s@) =~= old_views.push(id@));
                old_views.lemma_push_to_set_commute(id@);
            }
        } else {
            proof {
                assert(old(self).sent_ids().insert(id@) =~= old(self).sent_ids());
            }
        }
        Ok(())
    }
}

/// Marking an identifier sent makes membership hold, and marking it again
/// changes nothing: the contents after one insertion and after two are the
/// same set, and both contain the identifier.
pub proof fn lemma_mark_sent_idempotent(sent: Set<Seq<char>>, id: Seq<char>)
    ensures
        sent.insert(id).contains(id),
        sent.insert(id).insert(id) == sent.insert(id),
{
    assert(sent.insert(id).insert(id) =~= sent.insert(id));
}

/// The storage backend a connection string selects.
#[derive(Debug, Clone, Copy, PartialEq, Eq, Structural)]
pub enum StoreScheme {
    /// A local single-file (or in-memory) embedded engine.
    Sqlite,
    /// A networked relational engine.
    Postgres,
}

/// Whether `url` names the embedded engine.
pub open spec fn spec_is_sqlite_url(url: Seq<char>) -> bool {
    spec_starts_with(url, "sqlite://"@) || url == "sqlite::memory:"@
}

/// Whether `url` names the networked engine.
pub open spec fn spec_is_postgres_url(url: Seq<char>) -> bool {
    spec_starts_with(url, "postgres://"@) || spec_starts_with(url, "postgresql://"@)
}

/// Selects a backend from a connection string, failing fast on a scheme no
/// backend handles, before any connection attempt.
pub fn store_scheme(url: &str) -> (r: Result<StoreScheme, UnsupportedStoreError>)
    ensures
        spec_is_postgres_url(url@) ==> r == Ok::<StoreScheme, UnsupportedStoreError>(
            StoreScheme::Postgres,
        ),
        !spec_is_postgres_url(url@) && spec_is_sqlite_url(url@) ==> r == Ok::<
            StoreScheme,
            UnsupportedStoreError,
        >(StoreScheme::Sqlite),
        !spec_is_postgres_url(url@) && !spec_is_sqlite_url(url@) ==> r == Err::<
            StoreScheme,
            UnsupportedStoreError,
        >(UnsupportedStoreError),
{
    if str_starts_with(url, "postgres://") || str_starts_with(url, "postgresql://") {
        Ok(StoreScheme::Postgres)
    } else if str_starts_with(url, "sqlite://") || str_eq(url, "sqlite::memory:") {
        Ok(StoreScheme::Sqlite)
    } else {
        Err(UnsupportedStoreError)
    }
}

/// The position of the last separator in a path, `-1` when there is none.
pub open spec fn spec_last_slash(p: Seq<char>) -> int
    decreases p.len(),
{
    if p.len() == 0 {
        -1
    } else if p.last() == '/' {
        p.len() - 1
    } else {
        spec_last_slash(p.drop_last())
    }
}

proof fn lemma_last_slash_at(p: Seq<char>, j: int)
    requires
        0 <= j < p.len(),
        p[j] == '/',
        forall|k: int| j < k < p.len() ==> p[k] != '/',
    ensures
        spec_last_slash(p) == j,
    decreases p.len(),
{
    if j < p.len() - 1 {
        let dl = p.drop_last();
        assert(forall|k: int| 0 <= k < dl.len() ==> dl[k] == p[k]);
        lemma_last_slash_at(dl, j);
    }
}

proof fn lemma_no_slash(p: Seq<char>)
    requires
        forall|k: int| 0 <= k < p.len() ==> p[k] != '/',
    ensures
        spec_last_slash(p) == -1,
    decreases p.len(),
{
    if p.len() > 0 {
        let dl = p.drop_last();
        assert(forall|k: int| 0 <= k < dl.len() ==> dl[k] == p[k]);
        lemma_no_slash(dl);
    }
}

/// The directory the embedded engine's file needs, read off the connection
/// string: the path characters before the last separator. There is none for
/// a string that does not name a file path, for a bare file name, and for a
/// file directly under the root.
pub open spec fn spec_sqlite_parent_dir(url: Seq<char>) -> Option<Seq<char>> {
    if !spec_starts_with(url, "sqlite://"@) {
        None
    } else {
        let p = url.skip(9);
        if spec_last_slash(p) <= 0 {
            None
        } else {
            Some(p.take(spec_last_slash(p)))
        }
    }
}

/// Computes the directory that must exist before the embedded engine can
/// create its file. In-memory identifiers carry no path and need none.
#[verifier::loop_isolation(false)]
pub fn sqlite_parent_dir(url: &str) -> (r: Option<String>)
    ensures
        r is Some <==> spec_sqlite_parent_dir(url@) is Some,
        r matches Some(d) ==> Some(d@) == spec_sqlite_parent_dir(url@),
{
    if !str_starts_with(url, "sqlite://") {
        return None;
    }
    let len = url.unicode_len();
    proof {
        reveal_strlit("sqlite://");
        assert(url@.len() >= 9);
    }
    let ghost p = url@.skip(9);
    let mut j: usize = len;
    while j > 9
        invariant
            9 <= j <= len,
            len == url@.len(),
            forall|k: int| j <= k < len ==> url@[k] != '/',
        decreases j,
    {
        if url.get_char(j - 1) == '/' {
            proof {
                assert(forall|k: int| 0 <= k < p.len() ==> p[k] == url@[k + 9]);
                lemma_last_slash_at(p, j - 1 - 9);
            }
            if j - 1 == 9 {
                return None;
            }
            let dir = url.substring_char(9, j - 1);
            proof {
                assert(dir@ =~= p.take(j - 1 - 9));
            }
            return Some(dir.to_owned());
        }
        j = j - 1;
    }
    proof {
        assert(forall|k: int| 0 <= k < p.len() ==> p[k] == url@[k + 9]);
        lemma_no_slash(p);
    }
    None
}

} // verus!
