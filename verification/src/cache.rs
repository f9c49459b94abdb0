//! The cache of generated classes: for each class, the source it came from
//! and the hash of that source when it was generated.
use crate::assoc::StrTable;
use vstd::prelude::*;

verus! {

/// The version of this generator, which a cache must carry to be used.
pub open spec fn version_spec() -> Seq<char> {
    "0.1.0"@
}

/// The version of this generator; see `version_spec`.
pub fn current_version() -> (r: &'static str)
    ensures
        r@ == version_spec(),
{
    "0.1.0"
}

/// The current time in RFC 3339 form (`chrono::Utc::now`, then
/// `to_rfc3339`); nothing is claimed of it, as it depends on the clock.
#[verifier::external_body]
fn now_text() -> String {
    chrono::Utc::now().to_rfc3339()
}

/// The source and hash recorded for a class.
#[derive(Debug, Clone)]
pub struct CacheEntry {
    pub source: String,
    pub hash: String,
}

impl View for CacheEntry {
    type V = (Seq<char>, Seq<char>);

    open spec fn view(&self) -> (Seq<char>, Seq<char>) {
        (self.source@, self.hash@)
    }
}

/// The cache: the generator version that wrote it, when, and the entries
/// by class name.
#[derive(Debug)]
pub struct Cache {
    pub version: String,
    /// The time of writing, in RFC 3339 form.
    pub generated_at: String,
    pub entries: StrTable<CacheEntry>,
}

impl Cache {
    /// The entries, by class name.
    pub open spec fn entry_map(&self) -> Map<Seq<char>, (Seq<char>, Seq<char>)> {
        self.entries.view_map()
    }

    /// An empty cache of the current version, written now.
    pub fn new() -> (c: Self)
        ensures
            c.version@ == version_spec(),
            c.entry_map() == Map::<Seq<char>, (Seq<char>, Seq<char>)>::empty(),
    {
        let c = Cache {
            version: String::from_str(current_version()),
            generated_at: now_text(),
            entries: StrTable::new(),
        };
        assert(c.entries.view_map() =~= Map::<Seq<char>, (Seq<char>, Seq<char>)>::empty());
        c
    }

    /// A cache read from disk, kept when it has the current version and
    /// replaced by an empty one otherwise.
    pub fn from_loaded(cache: Cache) -> (c: Self)
        ensures
            cache.version@ == version_spec() ==> c == cache,
            cache.version@ != version_spec() ==> c.version@ == version_spec()
                && c.entry_map() == Map::<Seq<char>, (Seq<char>, Seq<char>)>::empty(),
    {
        if crate::text::str_eq(cache.version.as_str(), current_version()) {
            cache
        } else {
            Self::new()
        }
    }

    /// The entry of a class, if any.
    pub fn get_entry(&self, class_name: &str) -> (r: Option<&CacheEntry>)
        ensures
            r.is_none() <==> !self.entry_map().contains_key(class_name@),
            r matches Some(e) ==> e@ == self.entry_map()[class_name@],
    {
        self.entries.get(class_name)
    }

    /// Records the source and hash of a class, replacing any entry it had.
    pub fn set_entry(&mut self, class_name: &str, source: &str, hash: &str)
        ensures
            final(self).entry_map() == old(self).entry_map().insert(class_name@, (source@, hash@)),
            final(self).version == old(self).version,
    {
        self.entries.insert(
            String::from_str(class_name),
            CacheEntry { source: String::from_str(source), hash: String::from_str(hash) },
        );
    }

    /// Whether a class has an entry with this hash.
    pub fn is_valid(&self, class_name: &str, current_hash: &str) -> (r: bool)
        ensures
            r == (self.entry_map().contains_key(class_name@) && self.entry_map()[class_name@].1
                == current_hash@),
    {
        match self.entries.get(class_name) {
            Some(e) => crate::text::str_eq(e.hash.as_str(), current_hash),
            None => false,
        }
    }

    /// Removes all entries; the cache is written now.
    pub fn clear(&mut self)
        ensures
            final(self).entry_map() == Map::<Seq<char>, (Seq<char>, Seq<char>)>::empty(),
            final(self).version == old(self).version,
    {
        self.entries = StrTable::new();
        self.generated_at = now_text();
        assert(self.entries.view_map() =~= Map::<Seq<char>, (Seq<char>, Seq<char>)>::empty());
    }
}

/// After recording a class's source and hash, the cache gives back that
/// entry (so the class is valid for that hash), and keeps every other
/// class's entry.
pub proof fn law_cache_read_after_write(
    before: Map<Seq<char>, (Seq<char>, Seq<char>)>,
    after: Map<Seq<char>, (Seq<char>, Seq<char>)>,
    name: Seq<char>,
    source: Seq<char>,
    hash: Seq<char>,
)
    requires
        after == before.insert(name, (source, hash)),
    ensures
        after.contains_key(name),
        after[name] == (source, hash),
        forall|other: Seq<char>|
            other != name ==> (after.contains_key(other) == before.contains_key(other) && (
            before.contains_key(other) ==> after[other] == before[other])),
{
}

} // verus!
