//! The record of which files were indexed, and with what content.
//!
//! Each known file has the fingerprint of the bytes it held when it was
//! last indexed. A file counts as changed when it has no fingerprint yet or
//! when the fingerprint of its present bytes differs from the recorded one.

use crate::indexing::chunker::{is_blank, text_is_blank};
use crate::text::{hex_fixed, push_hex_fixed, same_text, texts};
use crate::Config;
use md5::Digest;
use vstd::prelude::*;

verus! {

/// A file name with the fingerprint of the file's content.
#[derive(Debug)]
pub struct TrackedFile {
    pub name: String,
    pub content_hash: String,
}

/// A candidate for indexing: a file name with the bytes that the file holds
/// now, or `None` where the file could not be read.
#[derive(Debug)]
pub struct FileSnapshot {
    pub name: String,
    pub content: Option<Vec<u8>>,
}

/// The known files. They are kept in a vector in which no name occurs
/// twice, and are seen as a map from names to fingerprints: `vstd`
/// specifies hash maps for keys of a few plain types, and texts are not
/// among them.
#[derive(Debug)]
pub struct FileTracker {
    files: Vec<TrackedFile>,
}

/// The MD5 digest of `content`: the bytes that `md5::Md5::digest` gives.
pub uninterp spec fn md5_digest(content: Seq<u8>) -> Seq<u8>;

/// Computes the MD5 digest of `content` with `md5::Md5::digest` and hands
/// its bytes over as a vector.
#[verifier::external_body]
fn md5_of(content: &[u8]) -> (digest: Vec<u8>)
    ensures
        digest@ == md5_digest(content@),
{
    md5::Md5::digest(content).to_vec()
}

/// `bytes` written as lower-case hexadecimal digits, two for each byte.
pub open spec fn hex_of(bytes: Seq<u8>) -> Seq<char>
    decreases bytes.len(),
{
    if bytes.len() == 0 {
        Seq::empty()
    } else {
        hex_of(bytes.drop_last()) + hex_fixed(bytes.last() as nat, 2)
    }
}

/// The fingerprint of `content`: its MD5 digest, written as lower-case
/// hexadecimal digits.
pub open spec fn md5_hex(content: Seq<u8>) -> Seq<char> {
    hex_of(md5_digest(content))
}

/// Writes `bytes` as lower-case hexadecimal digits.
pub fn hex_string(bytes: &Vec<u8>) -> (hex: String)
    ensures
        hex@ == hex_of(bytes@),
{
    let mut hex = String::new();
    let mut i: usize = 0;
    assert(bytes@.take(0) =~= Seq::<u8>::empty());
    while i < bytes.len()
        invariant
            i <= bytes.len(),
            hex@ == hex_of(bytes@.take(i as int)),
        decreases bytes.len() - i,
    {
        assert(bytes@.take(i + 1).drop_last() =~= bytes@.take(i as int));
        assert(bytes@.take(i + 1).last() == bytes@[i as int]);
        push_hex_fixed(&mut hex, bytes[i] as u64, 2);
        i += 1;
    }
    assert(bytes@.take(bytes.len() as int) =~= bytes@);
    hex
}

/// The fingerprint of `content`. Equal contents have equal fingerprints.
pub fn content_hash(content: &[u8]) -> (hash: String)
    ensures
        hash@ == md5_hex(content@),
{
    hex_string(&md5_of(content))
}

/// Whether no name occurs twice in `files`.
pub open spec fn names_distinct(files: Seq<TrackedFile>) -> bool {
    forall|i: int, j: int|
        0 <= i < j < files.len() ==> (#[trigger] files[i]).name@ != (#[trigger] files[j]).name@
}

/// The mapping from names to fingerprints that `files` stands for. Where a
/// name occurs twice, the later entry counts.
pub open spec fn mapping(files: Seq<TrackedFile>) -> Map<Seq<char>, Seq<char>>
    decreases files.len(),
{
    if files.len() == 0 {
        Map::empty()
    } else {
        mapping(files.drop_last()).insert(files.last().name@, files.last().content_hash@)
    }
}

/// Whether a file counts as changed: it is not known, or its fingerprint
/// differs from the recorded one.
pub open spec fn changed(
    known: Map<Seq<char>, Seq<char>>,
    name: Seq<char>,
    content: Seq<u8>,
) -> bool {
    !known.contains_key(name) || known[name] != md5_hex(content)
}

/// The mapping after the fingerprint of `content` was recorded for `name`.
pub open spec fn recorded(
    known: Map<Seq<char>, Seq<char>>,
    name: Seq<char>,
    content: Seq<u8>,
) -> Map<Seq<char>, Seq<char>> {
    known.insert(name, md5_hex(content))
}

/// Whether a candidate counts as changed: it could not be read, or its
/// bytes count as changed.
pub open spec fn candidate_changed(known: Map<Seq<char>, Seq<char>>, file: FileSnapshot) -> bool {
    match file.content {
        None => true,
        Some(bytes) => changed(known, file.name@, bytes@),
    }
}

/// The names of the candidates that count as changed, in their order.
pub open spec fn changed_names(
    known: Map<Seq<char>, Seq<char>>,
    files: Seq<FileSnapshot>,
) -> Seq<Seq<char>>
    decreases files.len(),
{
    if files.len() == 0 {
        Seq::empty()
    } else if candidate_changed(known, files.last()) {
        changed_names(known, files.drop_last()).push(files.last().name@)
    } else {
        changed_names(known, files.drop_last())
    }
}

proof fn lemma_mapping_dom(files: Seq<TrackedFile>, name: Seq<char>)
    ensures
        mapping(files).contains_key(name) <==> exists|i: int|
            0 <= i < files.len() && (#[trigger] files[i]).name@ == name,
    decreases files.len(),
{
    if files.len() > 0 {
        let front = files.drop_last();
        lemma_mapping_dom(front, name);
        if mapping(files).contains_key(name) {
            if files.last().name@ == name {
                assert(files[files.len() - 1].name@ == name);
            } else {
                let i = choose|i: int| 0 <= i < front.len() && (#[trigger] front[i]).name@ == name;
                assert(files[i].name@ == name);
            }
        }
        if exists|i: int| 0 <= i < files.len() && (#[trigger] files[i]).name@ == name {
            let i = choose|i: int| 0 <= i < files.len() && (#[trigger] files[i]).name@ == name;
            if i < files.len() - 1 {
                assert(front[i].name@ == name);
            }
        }
    }
}

proof fn lemma_mapping_at(files: Seq<TrackedFile>, i: int)
    requires
        names_distinct(files),
        0 <= i < files.len(),
    ensures
        mapping(files).contains_key(files[i].name@),
        mapping(files)[files[i].name@] == files[i].content_hash@,
    decreases files.len(),
{
    let front = files.drop_last();
    if i < files.len() - 1 {
        assert(names_distinct(front)) by {
            assert forall|a: int, b: int| 0 <= a < b < front.len() implies (#[trigger] front[a]).name@
                != (#[trigger] front[b]).name@ by {
                assert(files[a].name@ != files[b].name@);
            }
        }
        lemma_mapping_at(front, i);
        assert(front[i] == files[i]);
        assert(files[i].name@ != files[files.len() - 1].name@);
    }
}

proof fn lemma_distinct_front(files: Seq<TrackedFile>)
    requires
        names_distinct(files),
        files.len() > 0,
    ensures
        names_distinct(files.drop_last()),
{
    let front = files.drop_last();
    assert forall|a: int, b: int| 0 <= a < b < front.len() implies (#[trigger] front[a]).name@
        != (#[trigger] front[b]).name@ by {
        assert(files[a].name@ != files[b].name@);
    }
}

proof fn lemma_mapping_update(files: Seq<TrackedFile>, i: int, entry: TrackedFile)
    requires
        names_distinct(files),
        0 <= i < files.len(),
        entry.name@ == files[i].name@,
    ensures
        names_distinct(files.update(i, entry)),
        mapping(files.update(i, entry)) == mapping(files).insert(
            entry.name@,
            entry.content_hash@,
        ),
    decreases files.len(),
{
    let updated = files.update(i, entry);
    assert(names_distinct(updated)) by {
        assert forall|a: int, b: int| 0 <= a < b < updated.len() implies (
        #[trigger] updated[a]).name@ != (#[trigger] updated[b]).name@ by {
            assert(files[a].name@ != files[b].name@);
        }
    }
    let front = files.drop_last();
    lemma_distinct_front(files);
    if i == files.len() - 1 {
        assert(updated.drop_last() =~= front);
        assert(mapping(updated) =~= mapping(files).insert(entry.name@, entry.content_hash@));
    } else {
        lemma_mapping_update(front, i, entry);
        assert(updated.drop_last() =~= front.update(i, entry));
        assert(updated.last() == files.last());
        assert(files[i].name@ != files[files.len() - 1].name@);
        assert(mapping(updated) =~= mapping(files).insert(entry.name@, entry.content_hash@));
    }
}

proof fn lemma_mapping_remove(files: Seq<TrackedFile>, i: int)
    requires
        names_distinct(files),
        0 <= i < files.len(),
    ensures
        names_distinct(files.remove(i)),
        mapping(files.remove(i)) == mapping(files).remove(files[i].name@),
    decreases files.len(),
{
    let removed = files.remove(i);
    assert(names_distinct(removed)) by {
        assert forall|a: int, b: int| 0 <= a < b < removed.len() implies (
        #[trigger] removed[a]).name@ != (#[trigger] removed[b]).name@ by {
            let a0 = if a < i { a } else { a + 1 };
            let b0 = if b < i { b } else { b + 1 };
            assert(files[a0].name@ != files[b0].name@);
        }
    }
    let front = files.drop_last();
    lemma_distinct_front(files);
    if i == files.len() - 1 {
        assert(removed =~= front);
        lemma_mapping_dom(front, files[i].name@);
        assert(!mapping(front).contains_key(files[i].name@)) by {
            if exists|k: int| 0 <= k < front.len() && (#[trigger] front[k]).name@ == files[i].name@ {
                let k = choose|k: int|
                    0 <= k < front.len() && (#[trigger] front[k]).name@ == files[i].name@;
                assert(files[k].name@ != files[i].name@);
            }
        }
        assert(mapping(removed) =~= mapping(files).remove(files[i].name@));
    } else {
        lemma_mapping_remove(front, i);
        assert(removed.drop_last() =~= front.remove(i));
        assert(removed.last() == files.last());
        assert(files[i].name@ != files[files.len() - 1].name@);
        assert(mapping(removed) =~= mapping(files).remove(files[i].name@));
    }
}

impl FileTracker {
    /// Whether the tracker is well formed: no name occurs twice. Every
    /// tracker that this module hands out is.
    pub closed spec fn wf(&self) -> bool {
        names_distinct(self.files@)
    }

    /// The mapping from file names to recorded fingerprints.
    pub closed spec fn view(&self) -> Map<Seq<char>, Seq<char>> {
        mapping(self.files@)
    }

    /// A tracker that tracks nothing.
    pub fn new() -> (tracker: FileTracker)
        ensures
            tracker.wf(),
            tracker@ == Map::<Seq<char>, Seq<char>>::empty(),
    {
        FileTracker { files: Vec::new() }
    }

    fn position(&self, filename: &str) -> (at: Option<usize>)
        ensures
            match at {
                Some(i) => i < self.files@.len() && self.files@[i as int].name@ == filename@,
                None => forall|i: int|
                    0 <= i < self.files@.len() ==> (#[trigger] self.files@[i]).name@ != filename@,
            },
    {
        let mut i: usize = 0;
        while i < self.files.len()
            invariant
                i <= self.files@.len(),
                forall|k: int| 0 <= k < i ==> (#[trigger] self.files@[k]).name@ != filename@,
            decreases self.files@.len() - i,
        {
            if same_text(self.files[i].name.as_str(), filename) {
                return Some(i);
            }
            i += 1;
        }
        None
    }

    /// The fingerprint recorded for `filename`, if the file is known.
    pub fn get_file_md5(&self, filename: &str) -> (hash: Option<&String>)
        requires
            self.wf(),
        ensures
            match hash {
                Some(h) => self@.contains_key(filename@) && h@ == self@[filename@],
                None => !self@.contains_key(filename@),
            },
    {
        proof {
            lemma_mapping_dom(self.files@, filename@);
        }
        match self.position(filename) {
            Some(i) => {
                proof {
                    lemma_mapping_at(self.files@, i as int);
                }
                Some(&self.files[i].content_hash)
            },
            None => None,
        }
    }

    /// Records `md5` as the fingerprint of `filename`, in place of any
    /// earlier one.
    pub fn set_file_md5(&mut self, filename: String, md5: String)
        requires
            old(self).wf(),
        ensures
            final(self).wf(),
            final(self)@ == old(self)@.insert(filename@, md5@),
    {
        proof {
            lemma_mapping_dom(self.files@, filename@);
        }
        let at = self.position(filename.as_str());
        let entry = TrackedFile { name: filename, content_hash: md5 };
        match at {
            Some(i) => {
                proof {
                    lemma_mapping_update(self.files@, i as int, entry);
                }
                self.files.set(i, entry);
            },
            None => {
                let ghost before = self.files@;
                self.files.push(entry);
                assert(self.files@.drop_last() =~= before);
                assert(names_distinct(self.files@));
            },
        }
    }

    /// Stops tracking `filename`.
    pub fn remove_file(&mut self, filename: &str)
        requires
            old(self).wf(),
        ensures
            final(self).wf(),
            final(self)@ == old(self)@.remove(filename@),
    {
        proof {
            lemma_mapping_dom(self.files@, filename@);
        }
        match self.position(filename) {
            Some(i) => {
                proof {
                    lemma_mapping_remove(self.files@, i as int);
                }
                self.files.remove(i);
            },
            None => {
                assert(self@.remove(filename@) =~= self@);
            },
        }
    }

    /// Forgets every file: the one way in which files leave the tracker
    /// all at once.
    pub fn reset(&mut self)
        ensures
            final(self).wf(),
            final(self)@ == Map::<Seq<char>, Seq<char>>::empty(),
    {
        self.files = Vec::new();
    }

    /// Whether `filename`, holding `content` now, counts as changed.
    pub fn is_file_changed(&self, filename: &str, content: &[u8]) -> (is_changed: bool)
        requires
            self.wf(),
        ensures
            is_changed == changed(self@, filename@, content@),
    {
        let current = content_hash(content);
        match self.get_file_md5(filename) {
            Some(stored) => !same_text(stored.as_str(), current.as_str()),
            None => true,
        }
    }

    /// Records the fingerprint of `content` for `filename`.
    pub fn record_hash(&mut self, filename: String, content: &[u8])
        requires
            old(self).wf(),
        ensures
            final(self).wf(),
            final(self)@ == recorded(old(self)@, filename@, content@),
    {
        let hash = content_hash(content);
        self.set_file_md5(filename, hash);
    }

    /// The names of the candidates that have to be indexed: those that
    /// could not be read and those whose bytes count as changed, in the
    /// order of `files`.
    pub fn get_changed_files(&self, files: &Vec<FileSnapshot>) -> (names: Vec<String>)
        requires
            self.wf(),
        ensures
            texts(names@) == changed_names(self@, files@),
    {
        let mut names: Vec<String> = Vec::new();
        let mut i: usize = 0;
        assert(texts(names@) =~= Seq::<Seq<char>>::empty());
        assert(files@.take(0) =~= Seq::<FileSnapshot>::empty());
        while i < files.len()
            invariant
                i <= files.len(),
                self.wf(),
                texts(names@) == changed_names(self@, files@.take(i as int)),
            decreases files.len() - i,
        {
            let file = &files[i];
            let ghost before = texts(names@);
            assert(files@.take(i + 1).drop_last() =~= files@.take(i as int));
            assert(files@.take(i + 1).last() == files@[i as int]);
            let is_changed = match &file.content {
                None => true,
                Some(bytes) => self.is_file_changed(file.name.as_str(), bytes.as_slice()),
            };
            if is_changed {
                names.push(file.name.clone());
                assert(texts(names@) =~= before.push(file.name@));
            }
            i += 1;
        }
        assert(files@.take(files.len() as int) =~= files@);
        names
    }

    /// The known files with their fingerprints: the full mapping.
    pub fn entries(&self) -> (all: Vec<TrackedFile>)
        requires
            self.wf(),
        ensures
            mapping(all@) == self@,
            names_distinct(all@),
    {
        let mut all: Vec<TrackedFile> = Vec::new();
        let mut i: usize = 0;
        while i < self.files.len()
            invariant
                i <= self.files@.len(),
                all@.len() == i,
                forall|k: int|
                    0 <= k < i ==> (#[trigger] all@[k]).name@ == self.files@[k].name@
                        && all@[k].content_hash@ == self.files@[k].content_hash@,
            decreases self.files@.len() - i,
        {
            let entry = &self.files[i];
            all.push(
                TrackedFile { name: entry.name.clone(), content_hash: entry.content_hash.clone() },
            );
            i += 1;
        }
        proof {
            lemma_mapping_same(all@, self.files@);
        }
        all
    }

    /// Replaces what is known by `entries`. Where a name occurs twice, the
    /// later entry counts.
    pub fn replace_entries(&mut self, entries: Vec<TrackedFile>)
        ensures
            final(self).wf(),
            final(self)@ == mapping(entries@),
    {
        let mut fresh = FileTracker::new();
        let mut i: usize = 0;
        assert(entries@.take(0) =~= Seq::<TrackedFile>::empty());
        while i < entries.len()
            invariant
                i <= entries.len(),
                fresh.wf(),
                fresh@ == mapping(entries@.take(i as int)),
            decreases entries.len() - i,
        {
            assert(entries@.take(i + 1).drop_last() =~= entries@.take(i as int));
            assert(entries@.take(i + 1).last() == entries@[i as int]);
            fresh.set_file_md5(entries[i].name.clone(), entries[i].content_hash.clone());
            i += 1;
        }
        assert(entries@.take(entries.len() as int) =~= entries@);
        *self = fresh;
    }

    /// Where the tracker is kept between runs, by the configuration.
    pub fn get_tracker_path(config: &Config) -> (path: String)
        ensures
            path@ == config.indexing.file_tracker_path@,
    {
        config.indexing.file_tracker_path.clone()
    }
}

proof fn lemma_mapping_same(a: Seq<TrackedFile>, b: Seq<TrackedFile>)
    requires
        a.len() == b.len(),
        forall|k: int|
            0 <= k < a.len() ==> (#[trigger] a[k]).name@ == b[k].name@ && a[k].content_hash@
                == b[k].content_hash@,
    ensures
        mapping(a) == mapping(b),
        names_distinct(b) ==> names_distinct(a),
    decreases a.len(),
{
    if a.len() > 0 {
        lemma_mapping_same(a.drop_last(), b.drop_last());
        assert(a.last().name@ == b.last().name@);
    }
    if names_distinct(b) {
        assert forall|i: int, j: int| 0 <= i < j < a.len() implies (#[trigger] a[i]).name@ != (
        #[trigger] a[j]).name@ by {
            assert(b[i].name@ != b[j].name@);
        }
    }
}

/// Whether the text of a stored tracker holds anything to decode: a store
/// that is missing, empty or blank stands for an empty tracker.
pub fn stored_text_is_present(stored: Option<&str>) -> (present: bool)
    ensures
        present == (stored matches Some(text) && !is_blank(text@)),
{
    match stored {
        None => false,
        Some(text) => !text_is_blank(text),
    }
}

/// Right after the fingerprint of some bytes was recorded for a file, the
/// file with those bytes does not count as changed.
pub proof fn lemma_unchanged_after_record(
    known: Map<Seq<char>, Seq<char>>,
    name: Seq<char>,
    content: Seq<u8>,
)
    ensures
        !changed(recorded(known, name, content), name, content),
{
}

/// After the fingerprint of some bytes was recorded for a file, the file
/// with other bytes counts as changed, provided that the two fingerprints
/// differ.
pub proof fn lemma_changed_after_other_record(
    known: Map<Seq<char>, Seq<char>>,
    name: Seq<char>,
    recorded_content: Seq<u8>,
    content: Seq<u8>,
)
    ensures
        md5_hex(recorded_content) != md5_hex(content) ==> changed(
            recorded(known, name, recorded_content),
            name,
            content,
        ),
{
}

/// A file that is not known counts as changed, whatever it holds.
pub proof fn lemma_untracked_is_changed(
    known: Map<Seq<char>, Seq<char>>,
    name: Seq<char>,
    content: Seq<u8>,
)
    ensures
        !known.contains_key(name) ==> changed(known, name, content),
{
}

} // verus!
