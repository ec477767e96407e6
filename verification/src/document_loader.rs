//! Loading a document: content fingerprints, the cache of parsed documents
//! that a reload of unchanged text reuses, and the decisions a reload makes.
use std::hash::Hasher;
use std::collections::hash_map::DefaultHasher;
use std::sync::Arc;
use std::time::Duration;

use vstd::prelude::*;
use vstd::utf8::encode_utf8;
use vstd::std_specs::hash::DefaultHasherAdditionalSpecFns;

use crate::events::markdown_events;
use crate::parser::{blocks_of_events, blocks_view, heading_items, parse_markdown, MarkdownDocument};

verus! {

broadcast use vstd::string::group_string_axioms;

/// Most parsed documents the cache keeps.
pub const MAX_PARSED_DOCUMENT_CACHE_ENTRIES: usize = 4;

/// The length in bytes and the hash of a document's text.
#[derive(Clone, Copy, Debug, PartialEq, Eq, Structural)]
pub struct DocumentFingerprint {
    byte_len: usize,
    hash: u64,
}

impl View for DocumentFingerprint {
    type V = (nat, u64);

    closed spec fn view(&self) -> (nat, u64) {
        (self.byte_len as nat, self.hash)
    }
}

/// What a fingerprint holds of a text: its length in UTF-8 bytes, and the
/// hash of the `DefaultHasher` that was fed its bytes and then the byte
/// `0xff`, as `Hash for str` feeds it.
pub open spec fn fingerprint_spec(content: Seq<char>) -> (nat, u64) {
    (
        encode_utf8(content).len(),
        DefaultHasher::spec_finish(seq![encode_utf8(content), seq![0xffu8]]),
    )
}


/// The fingerprint of `content`.
pub fn fingerprint_content(content: &str) -> (fingerprint: DocumentFingerprint)
    ensures
        fingerprint@ == fingerprint_spec(content@),
{
    let mut hasher = DefaultHasher::new();
    let bytes = content.as_bytes();
    assert(bytes@ == encode_utf8(content@));
    let byte_len = bytes.len();
    hasher.write(bytes);
    let mut terminator: Vec<u8> = Vec::new();
    terminator.push(0xffu8);
    let tail = terminator.as_slice();
    assert(tail@ =~= seq![0xffu8]);
    hasher.write(tail);
    let hash = hasher.finish();
    assert(hasher@ =~= seq![encode_utf8(content@), seq![0xffu8]]);
    DocumentFingerprint { byte_len, hash }
}

impl DocumentFingerprint {
    /// The length of the text in bytes.
    pub fn byte_len(&self) -> (r: usize)
        ensures
            r == self@.0,
    {
        self.byte_len
    }
}

/// The size and the modification time of a file, the time in nanoseconds
/// from the Unix epoch (negative before it).
#[derive(Clone, Copy, Debug, PartialEq, Eq, Structural)]
pub struct FileSnapshot {
    byte_len: usize,
    modified_nanos: i128,
}

impl View for FileSnapshot {
    type V = (nat, int);

    closed spec fn view(&self) -> (nat, int) {
        (self.byte_len as nat, self.modified_nanos as int)
    }
}

impl FileSnapshot {
    /// A snapshot of a file of `byte_len` bytes modified at `modified_nanos`.
    pub fn new(byte_len: usize, modified_nanos: i128) -> (r: Self)
        ensures
            r@ == (byte_len as nat, modified_nanos as int),
    {
        FileSnapshot { byte_len, modified_nanos }
    }

    /// The size of the file in bytes.
    pub fn byte_len(&self) -> (r: usize)
        ensures
            r == self@.0,
    {
        self.byte_len
    }
}

/// How long a load took, and how much of it went to parsing.
pub struct DocumentTiming {
    pub total: Duration,
    pub parse: Duration,
    pub byte_len: usize,
}

// ---------------------------------------------------------------------------
// The cache of parsed documents
// ---------------------------------------------------------------------------
/// A cached entry: the fingerprint of a text and the document parsed from it.
pub type CacheEntryV = (DocumentFingerprint, Arc<MarkdownDocument>);

/// The first entry with fingerprint `fingerprint`, searching from `i`.
pub open spec fn entry_position_from(
    entries: Seq<CacheEntryV>,
    fingerprint: DocumentFingerprint,
    i: int,
) -> Option<int>
    decreases entries.len() - i,
{
    if i < 0 || i >= entries.len() {
        None
    } else if entries[i].0 == fingerprint {
        Some(i)
    } else {
        entry_position_from(entries, fingerprint, i + 1)
    }
}

/// The entry with fingerprint `fingerprint`, if any.
pub open spec fn entry_position(entries: Seq<CacheEntryV>, fingerprint: DocumentFingerprint) -> Option<
    int,
> {
    entry_position_from(entries, fingerprint, 0)
}

/// The document cached for `fingerprint`, if any.
pub open spec fn cached_document(entries: Seq<CacheEntryV>, fingerprint: DocumentFingerprint) -> Option<
    Arc<MarkdownDocument>,
> {
    match entry_position(entries, fingerprint) {
        Some(i) => Some(entries[i].1),
        None => None,
    }
}

/// The entries after a lookup of `fingerprint`: a found entry moves to the
/// end, as the most recently used.
pub open spec fn touched(entries: Seq<CacheEntryV>, fingerprint: DocumentFingerprint) -> Seq<
    CacheEntryV,
> {
    match entry_position(entries, fingerprint) {
        Some(i) => entries.remove(i).push(entries[i]),
        None => entries,
    }
}

/// The entries after storing `document` for `fingerprint`: an older entry
/// for it goes, the least recently used entry goes when the cache is full,
/// and the new entry comes last.
pub open spec fn stored(
    entries: Seq<CacheEntryV>,
    fingerprint: DocumentFingerprint,
    document: Arc<MarkdownDocument>,
) -> Seq<CacheEntryV> {
    let without = match entry_position(entries, fingerprint) {
        Some(i) => entries.remove(i),
        None => entries,
    };
    let kept = if without.len() >= MAX_PARSED_DOCUMENT_CACHE_ENTRIES {
        without.remove(0)
    } else {
        without
    };
    kept.push((fingerprint, document))
}

/// A well-formed cache holds at most its limit of entries, no two for the
/// same fingerprint.
pub open spec fn cache_wf(entries: Seq<CacheEntryV>) -> bool {
    &&& entries.len() <= MAX_PARSED_DOCUMENT_CACHE_ENTRIES
    &&& forall|i: int, j: int|
        0 <= i < j < entries.len() ==> #[trigger] entries[i].0 != #[trigger] entries[j].0
}

proof fn lemma_entry_position_from(
    entries: Seq<CacheEntryV>,
    fingerprint: DocumentFingerprint,
    i: int,
)
    requires
        0 <= i,
    ensures
        match entry_position_from(entries, fingerprint, i) {
            Some(k) => i <= k < entries.len() && entries[k].0 == fingerprint && forall|j: int|
                i <= j < k ==> #[trigger] entries[j].0 != fingerprint,
            None => forall|j: int| i <= j < entries.len() ==> #[trigger] entries[j].0 != fingerprint,
        },
    decreases entries.len() - i,
{
    if i < entries.len() && entries[i].0 != fingerprint {
        lemma_entry_position_from(entries, fingerprint, i + 1);
    }
}

/// What a lookup finds: the position of an entry with that fingerprint, or
/// that no entry has it.
pub proof fn lemma_entry_position(entries: Seq<CacheEntryV>, fingerprint: DocumentFingerprint)
    ensures
        match entry_position(entries, fingerprint) {
            Some(k) => 0 <= k < entries.len() && entries[k].0 == fingerprint && forall|j: int|
                0 <= j < k ==> #[trigger] entries[j].0 != fingerprint,
            None => forall|j: int| 0 <= j < entries.len() ==> #[trigger] entries[j].0 != fingerprint,
        },
{
    lemma_entry_position_from(entries, fingerprint, 0);
}

/// Parsed documents by the fingerprint of their text, least recently used
/// first.
pub struct ParsedDocumentCache {
    entries: Vec<ParsedDocumentCacheEntry>,
}

struct ParsedDocumentCacheEntry {
    fingerprint: DocumentFingerprint,
    document: Arc<MarkdownDocument>,
}

spec fn entries_view(entries: Seq<ParsedDocumentCacheEntry>) -> Seq<CacheEntryV> {
    entries.map_values(|e: ParsedDocumentCacheEntry| (e.fingerprint, e.document))
}

impl View for ParsedDocumentCache {
    type V = Seq<CacheEntryV>;

    closed spec fn view(&self) -> Seq<CacheEntryV> {
        entries_view(self.entries@)
    }
}

/// Another handle to the same parsed document.
#[verifier::external_body]
fn share_document(document: &Arc<MarkdownDocument>) -> (r: Arc<MarkdownDocument>)
    ensures
        r == *document,
{
    Arc::clone(document)
}

/// Every entry holds a document parsed from a text with the entry's
/// fingerprint.
pub open spec fn entries_parsed(entries: Seq<CacheEntryV>) -> bool {
    forall|i: int|
        0 <= i < entries.len() ==> exists|t: Seq<char>|
            fingerprint_spec(t) == (#[trigger] entries[i]).0@ && parsed_from(*entries[i].1, t)
}

impl ParsedDocumentCache {
    /// Each cached document was parsed from a text with its fingerprint.
    #[verifier::type_invariant]
    spec fn holds_parsed_documents(self) -> bool {
        entries_parsed(self@)
    }

    /// An empty cache.
    pub fn new() -> (r: Self)
        ensures
            r@ == Seq::<CacheEntryV>::empty(),
    {
        let r = ParsedDocumentCache { entries: Vec::new() };
        assert(r@ =~= Seq::<CacheEntryV>::empty());
        r
    }

    /// The number of cached documents.
    pub fn len(&self) -> (r: usize)
        ensures
            r == self@.len(),
    {
        self.entries.len()
    }

    fn position(&self, fingerprint: DocumentFingerprint) -> (r: Option<usize>)
        ensures
            match r {
                Some(k) => entry_position(self@, fingerprint) == Some(k as int),
                None => entry_position(self@, fingerprint) is None,
            },
    {
        let ghost es = self@;
        let mut i: usize = 0;
        while i < self.entries.len()
            invariant
                es == entries_view(self.entries@),
                es.len() == self.entries@.len(),
                i <= self.entries@.len(),
                entry_position_from(es, fingerprint, i as int) == entry_position_from(
                    es,
                    fingerprint,
                    0,
                ),
            decreases self.entries.len() - i,
        {
            assert(es[i as int].0 == self.entries@[i as int].fingerprint);
            if self.entries[i].fingerprint == fingerprint {
                return Some(i);
            }
            i = i + 1;
        }
        None
    }

    /// The document parsed from a text with this fingerprint, if the cache
    /// holds one; it becomes the most recently used.
    pub fn cached_parsed_document(&mut self, fingerprint: DocumentFingerprint) -> (r: Option<
        Arc<MarkdownDocument>,
    >)
        ensures
            r == cached_document(old(self)@, fingerprint),
            final(self)@ == touched(old(self)@, fingerprint),
            r matches Some(d) ==> exists|t: Seq<char>|
                fingerprint_spec(t) == fingerprint@ && parsed_from(*d, t),
    {
        proof {
            use_type_invariant(&*self);
        }
        let ghost es = self@;
        proof {
            lemma_entry_position(es, fingerprint);
        }
        match self.position(fingerprint) {
            Some(index) => {
                let mut entries: Vec<ParsedDocumentCacheEntry> = Vec::new();
                std::mem::swap(&mut entries, &mut self.entries);
                let entry = entries.remove(index);
                let document = share_document(&entry.document);
                entries.push(entry);
                proof {
                    let t = es.remove(index as int).push(es[index as int]);
                    assert(entries_view(entries@) =~= t);
                    assert(es[index as int].0@ == fingerprint@);
                    assert forall|i: int| 0 <= i < t.len() implies exists|x: Seq<char>|
                        fingerprint_spec(x) == (#[trigger] t[i]).0@ && parsed_from(*t[i].1, x) by {
                        let oi = if i == t.len() - 1 {
                            index as int
                        } else if i < index {
                            i
                        } else {
                            i + 1
                        };
                        assert(t[i] == es[oi]);
                    }
                }
                self.entries = entries;
                assert(self@ =~= es.remove(index as int).push(es[index as int]));
                Some(document)
            },
            None => None,
        }
    }

    /// Keeps `document`, parsed from `text`, as the document for the text's
    /// fingerprint, as the most recently used entry.
    fn store_parsed_document(
        &mut self,
        fingerprint: DocumentFingerprint,
        document: Arc<MarkdownDocument>,
        Ghost(text): Ghost<Seq<char>>,
    )
        requires
            fingerprint@ == fingerprint_spec(text),
            parsed_from(*document, text),
        ensures
            final(self)@ == stored(old(self)@, fingerprint, document),
    {
        proof {
            use_type_invariant(&*self);
        }
        let ghost es = self@;
        proof {
            lemma_entry_position(es, fingerprint);
        }
        let ghost without = match entry_position(es, fingerprint) {
            Some(i) => es.remove(i),
            None => es,
        };
        let position = self.position(fingerprint);
        let mut entries: Vec<ParsedDocumentCacheEntry> = Vec::new();
        std::mem::swap(&mut entries, &mut self.entries);
        assert(entries_view(entries@) == es);
        if let Some(index) = position {
            entries.remove(index);
        }
        assert(entries_view(entries@) =~= without);
        if entries.len() >= MAX_PARSED_DOCUMENT_CACHE_ENTRIES {
            entries.remove(0);
        }
        entries.push(ParsedDocumentCacheEntry { fingerprint, document });
        let ghost st = stored(es, fingerprint, document);
        proof {
            assert(entries_view(entries@) =~= st);
            let kept = if without.len() >= MAX_PARSED_DOCUMENT_CACHE_ENTRIES {
                without.remove(0)
            } else {
                without
            };
            assert(st == kept.push((fingerprint, document)));
            assert forall|i: int| 0 <= i < st.len() implies exists|x: Seq<char>|
                fingerprint_spec(x) == (#[trigger] st[i]).0@ && parsed_from(*st[i].1, x) by {
                if i == st.len() - 1 {
                    assert(st[i] == (fingerprint, document));
                } else {
                    let ki = if without.len() >= MAX_PARSED_DOCUMENT_CACHE_ENTRIES {
                        i + 1
                    } else {
                        i
                    };
                    assert(st[i] == without[ki]);
                    match entry_position(es, fingerprint) {
                        Some(k) => {
                            let oi = if ki < k {
                                ki
                            } else {
                                ki + 1
                            };
                            assert(without[ki] == es[oi]);
                        },
                        None => {},
                    }
                }
            }
        }
        self.entries = entries;
        assert(self@ =~= st);
    }
}

/// A lookup keeps a cache well formed.
pub proof fn law_touched_keeps_cache_wf(entries: Seq<CacheEntryV>, fingerprint: DocumentFingerprint)
    requires
        cache_wf(entries),
    ensures
        cache_wf(touched(entries, fingerprint)),
        touched(entries, fingerprint).len() == entries.len(),
{
    lemma_entry_position(entries, fingerprint);
    match entry_position(entries, fingerprint) {
        Some(k) => {
            let t = touched(entries, fingerprint);
            let rest = entries.remove(k);
            assert(t == rest.push(entries[k]));
            assert forall|i: int, j: int| 0 <= i < j < t.len() implies #[trigger] t[i].0
                != #[trigger] t[j].0 by {
                let oi = if i < k { i } else { i + 1 };
                if j == t.len() - 1 {
                    assert(t[j] == entries[k]);
                    assert(t[i] == entries[oi]);
                } else {
                    let oj = if j < k { j } else { j + 1 };
                    assert(t[i] == entries[oi]);
                    assert(t[j] == entries[oj]);
                }
            }
        },
        None => {},
    }
}

/// Storing keeps a cache well formed, and the stored document is then what
/// a lookup of its fingerprint gives back.
pub proof fn law_store_then_lookup(
    entries: Seq<CacheEntryV>,
    fingerprint: DocumentFingerprint,
    document: Arc<MarkdownDocument>,
)
    requires
        cache_wf(entries),
    ensures
        cache_wf(stored(entries, fingerprint, document)),
        cached_document(stored(entries, fingerprint, document), fingerprint) == Some(document),
{
    lemma_entry_position(entries, fingerprint);
    let without = match entry_position(entries, fingerprint) {
        Some(i) => entries.remove(i),
        None => entries,
    };
    assert forall|j: int| 0 <= j < without.len() implies #[trigger] without[j].0 != fingerprint
        by {
        match entry_position(entries, fingerprint) {
            Some(k) => {
                let oj = if j < k { j } else { j + 1 };
                assert(without[j] == entries[oj]);
            },
            None => {},
        }
    }
    assert forall|i: int, j: int| 0 <= i < j < without.len() implies #[trigger] without[i].0
        != #[trigger] without[j].0 by {
        match entry_position(entries, fingerprint) {
            Some(k) => {
                let oi = if i < k { i } else { i + 1 };
                let oj = if j < k { j } else { j + 1 };
                assert(without[i] == entries[oi]);
                assert(without[j] == entries[oj]);
            },
            None => {},
        }
    }
    let kept = if without.len() >= MAX_PARSED_DOCUMENT_CACHE_ENTRIES {
        without.remove(0)
    } else {
        without
    };
    assert(kept.len() < MAX_PARSED_DOCUMENT_CACHE_ENTRIES);
    assert forall|j: int| 0 <= j < kept.len() implies #[trigger] kept[j].0 != fingerprint by {
        if without.len() >= MAX_PARSED_DOCUMENT_CACHE_ENTRIES {
            assert(kept[j] == without[j + 1]);
        }
    }
    assert forall|i: int, j: int| 0 <= i < j < kept.len() implies #[trigger] kept[i].0
        != #[trigger] kept[j].0 by {
        if without.len() >= MAX_PARSED_DOCUMENT_CACHE_ENTRIES {
            assert(kept[i] == without[i + 1]);
            assert(kept[j] == without[j + 1]);
        }
    }
    let s = stored(entries, fingerprint, document);
    assert(s == kept.push((fingerprint, document)));
    assert forall|i: int, j: int| 0 <= i < j < s.len() implies #[trigger] s[i].0
        != #[trigger] s[j].0 by {
        assert(s[i] == kept[i]);
        if j < kept.len() {
            assert(s[j] == kept[j]);
        }
    }
    lemma_entry_position(s, fingerprint);
    assert(s[kept.len() as int].0 == fingerprint);
}

/// The text's fingerprint and the document for it, and whether the document
/// came from the cache rather than from parsing.
pub struct PreparedDocument {
    pub document: Arc<MarkdownDocument>,
    pub fingerprint: DocumentFingerprint,
    pub reused: bool,
}

/// What parsing `content` gives: its blocks and their headings.
pub open spec fn parsed_from(document: MarkdownDocument, content: Seq<char>) -> bool {
    &&& blocks_view(document.blocks@) == blocks_of_events(markdown_events(content))
    &&& document.heading_list() == heading_items(blocks_view(document.blocks@))
}

proof fn lemma_same_fingerprint_text(
    document: Arc<MarkdownDocument>,
    fingerprint: DocumentFingerprint,
    content: Seq<char>,
)
    requires
        fingerprint@ == fingerprint_spec(content),
        exists|t: Seq<char>| fingerprint_spec(t) == fingerprint@ && parsed_from(*document, t),
    ensures
        exists|t: Seq<char>| fingerprint_spec(t) == fingerprint_spec(content) && parsed_from(*document, t),
{
    let t = choose|t: Seq<char>| fingerprint_spec(t) == fingerprint@ && parsed_from(*document, t);
    assert(fingerprint_spec(t) == fingerprint_spec(content) && parsed_from(*document, t));
}

/// The document for `content`: the cached one for its fingerprint, or a
/// freshly parsed one that the cache then keeps.
pub fn prepare_document(cache: &mut ParsedDocumentCache, content: &str) -> (r: PreparedDocument)
    ensures
        r.fingerprint@ == fingerprint_spec(content@),
        exists|t: Seq<char>|
            fingerprint_spec(t) == fingerprint_spec(content@) && parsed_from(*r.document, t),
        match cached_document(old(cache)@, r.fingerprint) {
            Some(d) => {
                &&& r.reused
                &&& r.document == d
                &&& final(cache)@ == touched(old(cache)@, r.fingerprint)
            },
            None => {
                &&& !r.reused
                &&& parsed_from(*r.document, content@)
                &&& final(cache)@ == stored(old(cache)@, r.fingerprint, r.document)
            },
        },
{
    let fingerprint = fingerprint_content(content);
    if let Some(document) = cache.cached_parsed_document(fingerprint) {
        let ghost t = choose|t: Seq<char>|
            fingerprint_spec(t) == fingerprint@ && parsed_from(*document, t);
        let r = PreparedDocument { document, fingerprint, reused: true };
        assert(fingerprint_spec(t) == fingerprint_spec(content@) && parsed_from(*r.document, t));
        return r;
    }
    let document = Arc::new(parse_markdown(content));
    cache.store_parsed_document(fingerprint, share_document(&document), Ghost(content@));
    let r = PreparedDocument { document, fingerprint, reused: false };
    assert(fingerprint_spec(content@) == fingerprint_spec(content@) && parsed_from(*r.document, content@));
    r
}

/// The fingerprint a reload can keep without reading the file: when the
/// file's size and modification time are what they were at the last load,
/// the text is taken to be unchanged.
pub open spec fn unchanged_by_snapshot_spec(
    current: Option<FileSnapshot>,
    previous_snapshot: Option<FileSnapshot>,
    previous_fingerprint: Option<DocumentFingerprint>,
) -> Option<DocumentFingerprint> {
    match (current, previous_snapshot, previous_fingerprint) {
        (Some(c), Some(p), Some(f)) => if c == p {
            Some(f)
        } else {
            None
        },
        _ => None,
    }
}

/// The fingerprint to keep when the file has the same snapshot as at the
/// last load, so that a reload need not read it.
pub fn unchanged_by_snapshot(
    current: Option<FileSnapshot>,
    previous_snapshot: Option<FileSnapshot>,
    previous_fingerprint: Option<DocumentFingerprint>,
) -> (r: Option<DocumentFingerprint>)
    ensures
        r == unchanged_by_snapshot_spec(current, previous_snapshot, previous_fingerprint),
{
    match (current, previous_snapshot, previous_fingerprint) {
        (Some(c), Some(p), Some(f)) => if c == p {
            Some(f)
        } else {
            None
        },
        _ => None,
    }
}

/// What a reload found in the text it read: the same text as before, or a
/// document to show.
pub enum ContentReload {
    Unchanged(DocumentFingerprint),
    Reloaded(PreparedDocument),
}

/// A reload of the text `content`: unchanged when its fingerprint is the
/// previous one (the cache is then left alone), else the document for it,
/// from the cache or freshly parsed.
pub fn reload_content(
    cache: &mut ParsedDocumentCache,
    content: &str,
    previous_fingerprint: Option<DocumentFingerprint>,
) -> (r: ContentReload)
    ensures
        match r {
            ContentReload::Unchanged(f) => {
                &&& f@ == fingerprint_spec(content@)
                &&& previous_fingerprint == Some(f)
                &&& final(cache)@ == old(cache)@
            },
            ContentReload::Reloaded(p) => {
                &&& p.fingerprint@ == fingerprint_spec(content@)
                &&& exists|t: Seq<char>|
                    fingerprint_spec(t) == fingerprint_spec(content@) && parsed_from(*p.document, t)
                &&& previous_fingerprint != Some(p.fingerprint)
                &&& match cached_document(old(cache)@, p.fingerprint) {
                    Some(d) => p.reused && p.document == d && final(cache)@ == touched(
                        old(cache)@,
                        p.fingerprint,
                    ),
                    None => !p.reused && parsed_from(*p.document, content@) && final(cache)@
                        == stored(old(cache)@, p.fingerprint, p.document),
                }
            },
        },
{
    let fingerprint = fingerprint_content(content);
    if let Some(previous) = previous_fingerprint {
        if previous == fingerprint {
            return ContentReload::Unchanged(fingerprint);
        }
    }
    if let Some(document) = cache.cached_parsed_document(fingerprint) {
        proof {
            lemma_same_fingerprint_text(document, fingerprint, content@);
        }
        return ContentReload::Reloaded(PreparedDocument { document, fingerprint, reused: true });
    }
    let document = Arc::new(parse_markdown(content));
    cache.store_parsed_document(fingerprint, share_document(&document), Ghost(content@));
    assert(parsed_from(*document, content@));
    ContentReload::Reloaded(PreparedDocument { document, fingerprint, reused: false })
}

/// A fingerprint is taken over the whole text: its length counts every
/// UTF-8 byte, and its hash is the `DefaultHasher`'s after being fed every
/// byte of the text and then `0xff`. What the hasher is fed determines the
/// text, so two texts that differ anywhere (also past any prefix) feed it
/// different input; a reload of a text reports it unchanged only when the
/// previous fingerprint is this text's.
pub proof fn law_fingerprint_covers_whole_text(a: Seq<char>, b: Seq<char>)
    ensures
        fingerprint_spec(a).0 == encode_utf8(a).len(),
        fingerprint_spec(a).1 == DefaultHasher::spec_finish(seq![encode_utf8(a), seq![0xffu8]]),
        seq![encode_utf8(a), seq![0xffu8]] == seq![encode_utf8(b), seq![0xffu8]] ==> a == b,
        a != b ==> seq![encode_utf8(a), seq![0xffu8]] != seq![encode_utf8(b), seq![0xffu8]],
{
    broadcast use vstd::utf8::encode_utf8_decode_utf8;

    if seq![encode_utf8(a), seq![0xffu8]] == seq![encode_utf8(b), seq![0xffu8]] {
        assert(seq![encode_utf8(a), seq![0xffu8]][0] == encode_utf8(a));
        assert(seq![encode_utf8(b), seq![0xffu8]][0] == encode_utf8(b));
        assert(vstd::utf8::decode_utf8(encode_utf8(a)) == a);
        assert(vstd::utf8::decode_utf8(encode_utf8(b)) == b);
    }
}

} // verus!
