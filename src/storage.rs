use crate::text::same_text;
use vstd::prelude::*;

verus! {

/// What identifies a file that needs no upload: its name, its size and the
/// device it was found on.
pub type SkipKey = (Seq<char>, i64, Seq<char>);

/// A file known to need no upload.
#[derive(Debug)]
pub struct SkippedFile {
    pub filename: String,
    pub size: i64,
    pub device_id: String,
}

impl View for SkippedFile {
    type V = SkipKey;

    open spec fn view(&self) -> SkipKey {
        (self.filename@, self.size, self.device_id@)
    }
}

impl SkippedFile {
    pub fn new(filename: String, size: i64, device_id: String) -> (r: Self)
        ensures
            r.filename == filename,
            r.size == size,
            r.device_id == device_id,
    {
        Self { filename, size, device_id }
    }

    /// A copy of the record.
    pub fn duplicate(&self) -> (r: Self)
        ensures
            r@ == self@,
    {
        Self { filename: self.filename.clone(), size: self.size, device_id: self.device_id.clone() }
    }
}

/// The skip cache: the set of records known to need no upload. It is held in
/// memory; the caller loads it from its store and writes `records` back after
/// a change.
#[derive(Debug)]
pub struct SkipCache {
    records: Vec<SkippedFile>,
}

impl View for SkipCache {
    type V = Set<SkipKey>;

    closed spec fn view(&self) -> Set<SkipKey> {
        Set::new(|k: SkipKey| exists|j: int| 0 <= j < self.records@.len() && self.records@[j]@ == k)
    }
}

impl SkipCache {
    /// An empty cache.
    pub fn new() -> (r: Self)
        ensures
            r@ == Set::<SkipKey>::empty(),
    {
        let r = SkipCache { records: Vec::new() };
        assert(r@ =~= Set::<SkipKey>::empty());
        r
    }

    /// A cache holding the given records; repeated records count once.
    pub fn from_records(records: Vec<SkippedFile>) -> (r: Self)
        ensures
            r@ == Set::new(|k: SkipKey| exists|j: int| 0 <= j < records@.len() && records@[j]@ == k),
    {
        SkipCache { records }
    }

    /// The records, each once, for writing back to the store.
    pub fn records(&self) -> (r: &Vec<SkippedFile>)
        ensures
            self@ == Set::new(|k: SkipKey| exists|j: int| 0 <= j < r@.len() && r@[j]@ == k),
    {
        &self.records
    }

    pub fn contains(&self, filename: &str, size: i64, device_id: &str) -> (r: bool)
        ensures
            r == self@.contains((filename@, size, device_id@)),
    {
        let ghost key = (filename@, size, device_id@);
        let mut i: usize = 0;
        while i < self.records.len()
            invariant
                i <= self.records@.len(),
                key == (filename@, size, device_id@),
                forall|j: int| 0 <= j < i ==> self.records@[j]@ != key,
            decreases self.records@.len() - i,
        {
            let rec = &self.records[i];
            let same_name = same_text(rec.filename.as_str(), filename);
            let same_device = same_text(rec.device_id.as_str(), device_id);
            assert(rec == self.records@[i as int]);
            if rec.size == size && same_name && same_device {
                assert(self.records@[i as int]@ == key);
                return true;
            }
            i = i + 1;
        }
        false
    }

    /// Adds a record; adding one that is already there changes nothing.
    pub fn insert(&mut self, record: SkippedFile)
        ensures
            final(self)@ == old(self)@.insert(record@),
    {
        if self.contains(record.filename.as_str(), record.size, record.device_id.as_str()) {
            assert(self@ =~= self@.insert(record@));
        } else {
            let ghost before = self.records@;
            self.records.push(record);
            assert forall|k: SkipKey| #[trigger] self@.contains(k) == old(self)@.insert(record@).contains(k) by {
                if old(self)@.contains(k) {
                    let j = choose|j: int| 0 <= j < before.len() && before[j]@ == k;
                    assert(self.records@[j] == before[j]);
                }
                if self@.contains(k) && k != record@ {
                    let j = choose|j: int| 0 <= j < self.records@.len() && self.records@[j]@ == k;
                    assert(j < before.len());
                    assert(before[j] == self.records@[j]);
                }
                if k == record@ {
                    assert(self.records@[before.len() as int] == record);
                }
            }
            assert(self@ =~= old(self)@.insert(record@));
        }
    }

    /// Removes every record.
    pub fn clear(&mut self)
        ensures
            final(self)@ == Set::<SkipKey>::empty(),
    {
        self.records.clear();
        assert(self@ =~= Set::<SkipKey>::empty());
    }
}

/// Records a file as needing no upload.
pub fn add_skipped_file(cache: &mut SkipCache, skipped_file: SkippedFile)
    ensures
        final(cache)@ == old(cache)@.insert(skipped_file@),
{
    cache.insert(skipped_file);
}

/// Forgets every recorded file.
pub fn clear_skipped_files(cache: &mut SkipCache)
    ensures
        final(cache)@ == Set::<SkipKey>::empty(),
{
    cache.clear();
}

/// Whether the file with this name and size, on this device, is known to need
/// no upload.
pub fn is_file_skipped(cache: &SkipCache, filename: &str, size: i64, device_id: &str) -> (r: bool)
    ensures
        r == cache@.contains((filename@, size, device_id@)),
{
    cache.contains(filename, size, device_id)
}

/// A record added to the cache is found there afterwards, and none is found
/// once the cache has been cleared.
pub proof fn lemma_cache_round_trip(cache: Set<SkipKey>, record: SkipKey)
    ensures
        cache.insert(record).contains(record),
        !Set::<SkipKey>::empty().contains(record),
{
}

} // verus!
