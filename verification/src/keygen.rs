//! Canonical checkpoint hashing for verifier-key generation.
//!
//! The canonical byte stream of a checkpoint directory is `config.json`,
//! every direct `*.safetensors` file in lexicographic filename order,
//! `tokenizer.json`, and `tokenizer.model` when present. The directory is
//! read by the caller and handed over as a [`CheckpointListing`].

use vstd::prelude::*;
use vstd::relations::{sorted_by, total_ordering};

use crate::checksum::{sha256, sha256_digest};
use crate::client::prepend;
use crate::errors::{ViError, ViErrorView};
use crate::text::{chars_to_string, hex_text, push_hex, str_chars};

verus! {

broadcast use vstd::seq_lib::group_to_multiset_ensures;

/// Canonical checkpoint hash result.
#[derive(Debug, Clone, PartialEq, Eq)]
pub struct CheckpointHash {
    /// SHA-256 digest over the canonical checkpoint file byte stream.
    pub hash: [u8; 32],
    /// Relative file paths used as hash input, in canonical order.
    pub files: Vec<String>,
}

impl CheckpointHash {
    /// Lowercase hex representation of `hash`.
    pub fn hash_hex(&self) -> (s: String)
        ensures
            s@ == hex_text(self.hash@),
            s@.len() == 64,
    {
        let mut out = String::new();
        proof {
            reveal_strlit("");
        }
        push_hex(&mut out, self.hash.as_slice());
        proof {
            crate::text::lemma_hex_text_len(self.hash@);
        }
        out
    }
}

/// The name of a directory entry.
#[derive(Debug, Clone, PartialEq, Eq)]
pub enum EntryName {
    /// A UTF-8 file name.
    Utf8(String),
    /// A file name that is not UTF-8, and whether its extension is `safetensors`.
    NonUtf8 { safetensors_extension: bool },
}

/// A direct entry of the checkpoint directory.
#[derive(Debug, Clone, PartialEq, Eq)]
pub struct DirEntry {
    /// Whether the entry is (or links to) a regular file.
    pub is_file: bool,
    /// Its file name.
    pub name: EntryName,
}

/// One step of reading the checkpoint directory.
#[derive(Debug, Clone, PartialEq, Eq)]
pub enum ListedEntry {
    /// An entry that was read.
    Entry(DirEntry),
    /// An entry that could not be read, with the reason.
    Unreadable { error: String },
}

/// What was found in a checkpoint directory.
#[derive(Debug, PartialEq, Eq)]
pub struct CheckpointListing {
    /// The directory's path, as displayed.
    pub dir: String,
    /// Whether `config.json` is a file there.
    pub has_config: bool,
    /// Whether `tokenizer.json` is a file there.
    pub has_tokenizer: bool,
    /// Whether `tokenizer.model` is a file there.
    pub has_tokenizer_model: bool,
    /// The directory's entries, or why it could not be listed.
    pub entries: Result<Vec<ListedEntry>, String>,
}

/// An input error about the checkpoint.
pub open spec fn checkpoint_error(reason: Seq<char>) -> ViErrorView {
    ViErrorView::Input { arg: "checkpoint"@, reason, detail: None }
}

/// The error for a missing required file.
pub open spec fn missing_file_error(file_name: Seq<char>) -> ViErrorView {
    checkpoint_error("checkpoint directory is missing required file "@ + file_name)
}

/// The error for a path that could not be read.
pub open spec fn read_error_of(path: Seq<char>, error: Seq<char>) -> ViErrorView {
    ViErrorView::Input { arg: path, reason: "failed to read checkpoint path: "@ + error, detail: None }
}

/// The error for a checkpoint path that is not a directory.
pub open spec fn not_a_directory_error() -> ViErrorView {
    checkpoint_error("checkpoint path is not a directory"@)
}

/// The error for a directory without weights.
pub open spec fn no_safetensors_error() -> ViErrorView {
    checkpoint_error("checkpoint directory has no *.safetensors files"@)
}

/// The error for a weights file whose name is not UTF-8.
pub open spec fn non_utf8_error() -> ViErrorView {
    checkpoint_error("checkpoint contains a non-UTF-8 safetensors filename"@)
}

fn checkpoint_input_error(reason: String) -> (e: ViError)
    ensures
        e@ == checkpoint_error(reason@),
{
    ViError::Input { arg: "checkpoint".to_owned(), reason, detail: None }
}

/// The error for a checkpoint path that is not a directory.
pub fn not_a_directory() -> (e: ViError)
    ensures
        e@ == not_a_directory_error(),
{
    checkpoint_input_error("checkpoint path is not a directory".to_owned())
}

/// The error for a path that could not be read, given the reason.
pub fn read_error(path: &str, error: &str) -> (e: ViError)
    ensures
        e@ == read_error_of(path@, error@),
{
    let mut reason = "failed to read checkpoint path: ".to_owned();
    reason.append(error);
    ViError::Input { arg: path.to_owned(), reason, detail: None }
}

/// Whether a file name has the extension `safetensors`, as
/// `Path::extension` finds it: after the last `.`, which is not the name's
/// first character.
pub open spec fn safetensors_ext(name: Seq<char>) -> bool {
    name.len() > 12 && name.subrange(name.len() - 12, name.len() as int) == ".safetensors"@
}

/// Whether an entry is a weights file.
pub open spec fn entry_selected(e: DirEntry) -> bool {
    e.is_file && match e.name {
        EntryName::Utf8(n) => safetensors_ext(n@),
        EntryName::NonUtf8 { safetensors_extension } => safetensors_extension,
    }
}

/// The names of the weights files among directory entries, in listing order;
/// the first unreadable entry or non-UTF-8 weights name refuses the listing.
pub open spec fn scan_entries(entries: Seq<ListedEntry>, dir: Seq<char>) -> Result<Seq<Seq<char>>, ViErrorView>
    decreases entries.len(),
{
    if entries.len() == 0 {
        Ok(Seq::empty())
    } else {
        match entries[0] {
            ListedEntry::Unreadable { error } => Err(read_error_of(dir, error@)),
            ListedEntry::Entry(e) => if !entry_selected(e) {
                scan_entries(entries.drop_first(), dir)
            } else {
                match e.name {
                    EntryName::NonUtf8 { .. } => Err(non_utf8_error()),
                    EntryName::Utf8(n) => prepend(seq![n@], scan_entries(entries.drop_first(), dir)),
                }
            },
        }
    }
}

/// Lexicographic order of texts, character by character.
pub open spec fn text_le(a: Seq<char>, b: Seq<char>) -> bool
    decreases a.len(),
{
    if a.len() == 0 {
        true
    } else if b.len() == 0 {
        false
    } else if a[0] != b[0] {
        a[0] < b[0]
    } else {
        text_le(a.drop_first(), b.drop_first())
    }
}

/// [`text_le`] as a relation.
pub open spec fn text_order() -> spec_fn(Seq<char>, Seq<char>) -> bool {
    |a: Seq<char>, b: Seq<char>| text_le(a, b)
}

/// The canonical file list of a listing, or the error that refuses it.
pub open spec fn canonical_files_of(listing: CheckpointListing) -> Result<Seq<Seq<char>>, ViErrorView> {
    if !listing.has_config {
        Err(missing_file_error("config.json"@))
    } else if !listing.has_tokenizer {
        Err(missing_file_error("tokenizer.json"@))
    } else {
        match listing.entries {
            Err(e) => Err(read_error_of(listing.dir@, e@)),
            Ok(es) => match scan_entries(es@, listing.dir@) {
                Err(e) => Err(e),
                Ok(names) => if names.len() == 0 {
                    Err(no_safetensors_error())
                } else {
                    Ok(
                        seq!["config.json"@] + names.sort_by(text_order()) + seq!["tokenizer.json"@]
                            + if listing.has_tokenizer_model {
                            seq!["tokenizer.model"@]
                        } else {
                            Seq::empty()
                        },
                    )
                },
            },
        }
    }
}


proof fn lemma_text_le_reflexive(a: Seq<char>)
    ensures
        text_le(a, a),
    decreases a.len(),
{
    if a.len() > 0 {
        lemma_text_le_reflexive(a.drop_first());
    }
}

proof fn lemma_text_le_antisymmetric(a: Seq<char>, b: Seq<char>)
    requires
        text_le(a, b),
        text_le(b, a),
    ensures
        a == b,
    decreases a.len(),
{
    if a.len() == 0 {
        assert(b.len() == 0);
        assert(a =~= b);
    } else if b.len() > 0 && a[0] == b[0] {
        lemma_text_le_antisymmetric(a.drop_first(), b.drop_first());
        assert(a =~= seq![a[0]] + a.drop_first());
        assert(b =~= seq![b[0]] + b.drop_first());
    }
}

proof fn lemma_text_le_transitive(a: Seq<char>, b: Seq<char>, c: Seq<char>)
    requires
        text_le(a, b),
        text_le(b, c),
    ensures
        text_le(a, c),
    decreases a.len(),
{
    if a.len() > 0 && b.len() > 0 && c.len() > 0 && a[0] == b[0] && b[0] == c[0] {
        lemma_text_le_transitive(a.drop_first(), b.drop_first(), c.drop_first());
    }
}

proof fn lemma_text_le_total(a: Seq<char>, b: Seq<char>)
    ensures
        text_le(a, b) || text_le(b, a),
    decreases a.len(),
{
    if a.len() > 0 && b.len() > 0 && a[0] == b[0] {
        lemma_text_le_total(a.drop_first(), b.drop_first());
    }
}

/// Lexicographic order of texts is a total order.
pub proof fn lemma_text_order_total()
    ensures
        total_ordering(text_order()),
{
    let leq = text_order();
    assert forall|x: Seq<char>| #[trigger] leq(x, x) by {
        lemma_text_le_reflexive(x);
    }
    assert forall|x: Seq<char>, y: Seq<char>| #[trigger] leq(x, y) && #[trigger] leq(y, x) implies x == y by {
        lemma_text_le_antisymmetric(x, y);
    }
    assert forall|x: Seq<char>, y: Seq<char>, z: Seq<char>| #[trigger] leq(x, y) && #[trigger] leq(y, z) implies leq(x, z) by {
        lemma_text_le_transitive(x, y, z);
    }
    assert forall|x: Seq<char>, y: Seq<char>| #[trigger] leq(x, y) || #[trigger] leq(y, x) by {
        lemma_text_le_total(x, y);
    }
}

/// Names are compared character by character: at the first position where
/// two names differ, the name with the smaller character comes first.
pub proof fn lemma_text_order_first_difference(a: Seq<char>, b: Seq<char>, i: int)
    requires
        0 <= i < a.len(),
        i < b.len(),
        a[i] != b[i],
        forall|j: int| 0 <= j < i ==> a[j] == b[j],
    ensures
        text_le(a, b) <==> a[i] < b[i],
{
    lemma_text_le_skip(a, b, i);
    assert(a.subrange(i, a.len() as int)[0] == a[i]);
    assert(b.subrange(i, b.len() as int)[0] == b[i]);
}

/// A name comes before every name that it begins.
pub proof fn lemma_text_order_prefix_first(a: Seq<char>, b: Seq<char>)
    requires
        a.len() <= b.len(),
        b.subrange(0, a.len() as int) == a,
    ensures
        text_le(a, b),
{
    assert forall|j: int| 0 <= j < a.len() implies a[j] == b[j] by {
        assert(b.subrange(0, a.len() as int)[j] == b[j]);
    }
    lemma_text_le_skip(a, b, a.len() as int);
}

proof fn lemma_text_le_skip(a: Seq<char>, b: Seq<char>, i: int)
    requires
        0 <= i <= a.len(),
        i <= b.len(),
        forall|j: int| 0 <= j < i ==> a[j] == b[j],
    ensures
        text_le(a, b) == text_le(a.subrange(i, a.len() as int), b.subrange(i, b.len() as int)),
    decreases i,
{
    if i == 0 {
        assert(a.subrange(0, a.len() as int) =~= a);
        assert(b.subrange(0, b.len() as int) =~= b);
    } else {
        lemma_text_le_skip(a.drop_first(), b.drop_first(), i - 1);
        assert(a.drop_first().subrange(i - 1, a.len() - 1) =~= a.subrange(i, a.len() as int));
        assert(b.drop_first().subrange(i - 1, b.len() - 1) =~= b.subrange(i, b.len() as int));
    }
}

/// Whether `a` comes no later than `b` in lexicographic order.
fn text_le_exec(a: &[char], b: &[char]) -> (r: bool)
    ensures
        r == text_le(a@, b@),
{
    let mut i: usize = 0;
    loop
        invariant
            i <= a@.len(),
            i <= b@.len(),
            forall|j: int| 0 <= j < i ==> a@[j] == b@[j],
        ensures
            i <= a@.len(),
            i <= b@.len(),
            forall|j: int| 0 <= j < i ==> a@[j] == b@[j],
            i == a@.len() || i == b@.len() || a@[i as int] != b@[i as int],
        decreases a@.len() - i,
    {
        if i == a.len() || i == b.len() || a[i] != b[i] {
            break;
        }
        i = i + 1;
    }
    proof {
        lemma_text_le_skip(a@, b@, i as int);
        if i < a@.len() {
            assert(a@.subrange(i as int, a@.len() as int)[0] == a@[i as int]);
        }
        if i < b@.len() {
            assert(b@.subrange(i as int, b@.len() as int)[0] == b@[i as int]);
        }
    }
    if i == a.len() {
        true
    } else if i == b.len() {
        false
    } else {
        a[i] < b[i]
    }
}

/// Views of a sequence of strings.
pub open spec fn names_view(v: Seq<String>) -> Seq<Seq<char>> {
    v.map_values(|s: String| s@)
}

/// Sort names in lexicographic order.
fn sort_names(names: Vec<String>) -> (out: Vec<String>)
    ensures
        names_view(out@) == names_view(names@).sort_by(text_order()),
{
    let ghost leq = text_order();
    let ghost orig = names_view(names@);
    proof {
        lemma_text_order_total();
    }
    let mut rest = names;
    let mut out: Vec<String> = Vec::new();
    let ghost mut i: int = 0;
    assert(orig.subrange(0, 0) =~= Seq::<Seq<char>>::empty());
    assert(names_view(out@) =~= Seq::<Seq<char>>::empty());
    assert(orig.subrange(0, orig.len() as int) =~= orig);
    while rest.len() > 0
        invariant
            0 <= i <= orig.len(),
            leq == text_order(),
            total_ordering(leq),
            names_view(rest@) == orig.subrange(i, orig.len() as int),
            sorted_by(names_view(out@), leq),
            names_view(out@).to_multiset() == orig.subrange(0, i).to_multiset(),
        decreases rest@.len(),
    {
        let ghost rest_before = names_view(rest@);
        assert(rest_before.len() == rest@.len());
        assert(rest_before[0] == orig.subrange(i, orig.len() as int)[0]);
        let n = rest.remove(0);
        assert(n@ == rest_before[0]);
        assert(rest_before[0] == orig[i]);
        assert(names_view(rest@) =~= rest_before.drop_first());
        let nc = str_chars(n.as_str());
        let ghost ov = names_view(out@);
        let mut j: usize = 0;
        loop
            invariant
                j <= out@.len(),
                ov == names_view(out@),
                nc@ == n@,
                forall|k: int| 0 <= k < j ==> text_le(#[trigger] ov[k], n@),
            ensures
                j <= out@.len(),
                forall|k: int| 0 <= k < j ==> text_le(#[trigger] ov[k], n@),
                j < out@.len() ==> !text_le(ov[j as int], n@),
            decreases out@.len() - j,
        {
            if j == out.len() {
                break;
            }
            let oc = str_chars(out[j].as_str());
            if !text_le_exec(oc.as_slice(), nc.as_slice()) {
                break;
            }
            j = j + 1;
        }
        proof {
            if j < ov.len() {
                lemma_text_le_total(ov[j as int], n@);
            }
        }
        out.insert(j, n);
        proof {
            let nv = names_view(out@);
            assert(nv =~= ov.insert(j as int, n@));
            assert forall|a: int, b: int| 0 <= a < b < nv.len() implies #[trigger] leq(nv[a], nv[b]) by {
                if b < j {
                    assert(leq(ov[a], ov[b]));
                } else if b == j {
                    assert(text_le(ov[a], n@));
                } else if a < j {
                    assert(text_le(ov[a], n@));
                    assert(leq(ov[j as int], ov[b - 1]) || j == b - 1);
                    lemma_text_le_transitive(ov[a], n@, ov[j as int]);
                    if j < b - 1 {
                        lemma_text_le_transitive(ov[a], ov[j as int], ov[b - 1]);
                    }
                } else if a == j {
                    if j < b - 1 {
                        assert(leq(ov[j as int], ov[b - 1]));
                        lemma_text_le_transitive(n@, ov[j as int], ov[b - 1]);
                    }
                } else {
                    assert(leq(ov[a - 1], ov[b - 1]));
                }
            }
            assert(orig.subrange(0, i + 1) =~= orig.subrange(0, i).push(n@));
            i = i + 1;
            assert(names_view(rest@) =~= orig.subrange(i, orig.len() as int));
        }
    }
    proof {
        orig.lemma_sort_by_ensures(leq);
        vstd::seq_lib::lemma_sorted_unique(names_view(out@), orig.sort_by(leq), leq);
    }
    out
}

fn has_safetensors_extension(name: &str) -> (r: bool)
    ensures
        r == safetensors_ext(name@),
{
    let chars = str_chars(name);
    let n = chars.len();
    if n <= 12 {
        return false;
    }
    let suffix = str_chars(".safetensors");
    proof {
        reveal_strlit(".safetensors");
    }
    let tail = vstd::slice::slice_subrange(chars.as_slice(), n - 12, n);
    let r = crate::text::chars_starts_with(tail, suffix.as_slice());
    assert(tail@.subrange(0, 12) =~= tail@);
    r
}

fn is_weights_file(e: &DirEntry) -> (r: bool)
    ensures
        r == entry_selected(*e),
{
    if !e.is_file {
        return false;
    }
    match &e.name {
        EntryName::Utf8(n) => has_safetensors_extension(n.as_str()),
        EntryName::NonUtf8 { safetensors_extension } => *safetensors_extension,
    }
}

fn non_utf8_name() -> (e: ViError)
    ensures
        e@ == non_utf8_error(),
{
    checkpoint_input_error("checkpoint contains a non-UTF-8 safetensors filename".to_owned())
}

/// The names of the weights files among the entries, in listing order.
fn scan_weights(entries: &Vec<ListedEntry>, dir: &str) -> (r: Result<Vec<String>, ViError>)
    ensures
        match scan_entries(entries@, dir@) {
            Ok(ns) => r matches Ok(v) && names_view(v@) == ns,
            Err(e) => r matches Err(x) && x@ == e,
        },
{
    let mut names: Vec<String> = Vec::new();
    let mut i: usize = 0;
    assert(entries@.subrange(0, entries@.len() as int) =~= entries@);
    assert(names_view(names@) =~= Seq::<Seq<char>>::empty());
    proof {
        crate::client::lemma_prepend_empty(scan_entries(entries@, dir@));
    }
    while i < entries.len()
        invariant
            i <= entries@.len(),
            scan_entries(entries@, dir@) == prepend(
                names_view(names@),
                scan_entries(entries@.subrange(i as int, entries@.len() as int), dir@),
            ),
        decreases entries@.len() - i,
    {
        let ghost rest = entries@.subrange(i as int, entries@.len() as int);
        assert(rest.drop_first() =~= entries@.subrange(i + 1, entries@.len() as int));
        assert(rest[0] == entries@[i as int]);
        match &entries[i] {
            ListedEntry::Unreadable { error } => {
                return Err(read_error(dir, error.as_str()));
            },
            ListedEntry::Entry(e) => {
                if is_weights_file(e) {
                    match &e.name {
                        EntryName::NonUtf8 { .. } => {
                            return Err(non_utf8_name());
                        },
                        EntryName::Utf8(n) => {
                            let ghost before = names_view(names@);
                            names.push(n.as_str().to_owned());
                            assert(names_view(names@) =~= before + seq![n@]);
                            proof {
                                crate::client::lemma_prepend_prepend(
                                    before,
                                    seq![n@],
                                    scan_entries(rest.drop_first(), dir@),
                                );
                            }
                        },
                    }
                }
            },
        }
        i = i + 1;
    }
    assert(entries@.subrange(i as int, entries@.len() as int) =~= Seq::<ListedEntry>::empty());
    assert(names_view(names@) + Seq::<Seq<char>>::empty() =~= names_view(names@));
    Ok(names)
}

fn missing_file(file_name: &str) -> (e: ViError)
    ensures
        e@ == missing_file_error(file_name@),
{
    let mut reason = "checkpoint directory is missing required file ".to_owned();
    reason.append(file_name);
    checkpoint_input_error(reason)
}

/// The canonical file list of a checkpoint directory: `config.json`, the
/// `*.safetensors` files in lexicographic order, `tokenizer.json`, and
/// `tokenizer.model` when present.
pub fn canonical_checkpoint_files(listing: &CheckpointListing) -> (r: Result<Vec<String>, ViError>)
    ensures
        match canonical_files_of(*listing) {
            Ok(files) => r matches Ok(v) && names_view(v@) == files,
            Err(e) => r matches Err(x) && x@ == e,
        },
{
    if !listing.has_config {
        return Err(missing_file("config.json"));
    }
    if !listing.has_tokenizer {
        return Err(missing_file("tokenizer.json"));
    }
    let entries = match &listing.entries {
        Ok(es) => es,
        Err(e) => return Err(read_error(listing.dir.as_str(), e.as_str())),
    };
    let names = match scan_weights(entries, listing.dir.as_str()) {
        Ok(ns) => ns,
        Err(e) => return Err(e),
    };
    if names.len() == 0 {
        return Err(checkpoint_input_error("checkpoint directory has no *.safetensors files".to_owned()));
    }
    let sorted = sort_names(names);
    let mut files: Vec<String> = Vec::new();
    files.push("config.json".to_owned());
    let mut k: usize = 0;
    let ghost head = names_view(files@);
    while k < sorted.len()
        invariant
            k <= sorted@.len(),
            names_view(files@) == head + names_view(sorted@).subrange(0, k as int),
        decreases sorted@.len() - k,
    {
        let ghost before = names_view(files@);
        files.push(sorted[k].as_str().to_owned());
        assert(names_view(files@) =~= before.push(sorted@[k as int]@));
        assert(names_view(sorted@).subrange(0, k + 1) =~= names_view(sorted@).subrange(0, k as int).push(
            sorted@[k as int]@,
        ));
        k = k + 1;
    }
    assert(names_view(sorted@).subrange(0, sorted@.len() as int) =~= names_view(sorted@));
    let ghost middle = names_view(files@);
    files.push("tokenizer.json".to_owned());
    let ghost with_tokenizer = names_view(files@);
    assert(with_tokenizer =~= middle.push("tokenizer.json"@));
    if listing.has_tokenizer_model {
        files.push("tokenizer.model".to_owned());
        assert(names_view(files@) =~= with_tokenizer.push("tokenizer.model"@));
    }
    assert(names_view(files@) =~= seq!["config.json"@] + names_view(names@).sort_by(text_order())
        + seq!["tokenizer.json"@] + if listing.has_tokenizer_model {
        seq!["tokenizer.model"@]
    } else {
        Seq::<Seq<char>>::empty()
    });
    Ok(files)
}

/// Views of file contents.
pub open spec fn contents_view(v: Seq<Vec<u8>>) -> Seq<Seq<u8>> {
    v.map_values(|b: Vec<u8>| b@)
}

/// The checkpoint hash of files whose contents, in the same order, are
/// `contents`: the SHA-256 digest of the concatenated contents.
pub fn checkpoint_hash(files: Vec<String>, contents: &Vec<Vec<u8>>) -> (h: CheckpointHash)
    ensures
        h.files@ == files@,
        h.hash@ == sha256_digest(contents_view(contents@).flatten()),
{
    let mut stream: Vec<u8> = Vec::new();
    let mut i: usize = 0;
    assert(contents_view(contents@).subrange(0, 0) =~= Seq::<Seq<u8>>::empty());
    while i < contents.len()
        invariant
            i <= contents@.len(),
            stream@ == contents_view(contents@).subrange(0, i as int).flatten(),
        decreases contents@.len() - i,
    {
        let ghost before = contents_view(contents@).subrange(0, i as int);
        crate::text::extend_bytes(&mut stream, contents[i].as_slice());
        proof {
            before.lemma_flatten_push(contents@[i as int]@);
            assert(contents_view(contents@).subrange(0, i + 1) =~= before.push(contents@[i as int]@));
        }
        i = i + 1;
    }
    assert(contents_view(contents@).subrange(0, contents@.len() as int) =~= contents_view(contents@));
    CheckpointHash { hash: sha256(stream.as_slice()), files }
}

// ----------------------------------------------------------------------------
// The canonical order does not depend on the order of the listing.

/// Whether every entry of a listing could be read.
pub open spec fn all_readable(entries: Seq<ListedEntry>) -> bool {
    forall|i: int| 0 <= i < entries.len() ==> #[trigger] entries[i] is Entry
}

/// Whether an entry is a weights file whose name is not UTF-8.
pub open spec fn is_bad_entry(x: ListedEntry) -> bool {
    x matches ListedEntry::Entry(d) && entry_selected(d) && d.name is NonUtf8
}

/// Whether a listing holds a weights file whose name is not UTF-8.
pub open spec fn has_bad_entry(entries: Seq<ListedEntry>) -> bool {
    exists|i: int| 0 <= i < entries.len() && is_bad_entry(#[trigger] entries[i])
}

/// The weights-file name an entry contributes, if any.
pub open spec fn entry_names(x: ListedEntry) -> Seq<Seq<char>> {
    match x {
        ListedEntry::Entry(d) => if entry_selected(d) {
            match d.name {
                EntryName::Utf8(n) => seq![n@],
                EntryName::NonUtf8 { .. } => Seq::empty(),
            }
        } else {
            Seq::empty()
        },
        ListedEntry::Unreadable { .. } => Seq::empty(),
    }
}

/// The UTF-8 weights-file names of a listing, in listing order.
pub open spec fn selected_names(entries: Seq<ListedEntry>) -> Seq<Seq<char>>
    decreases entries.len(),
{
    if entries.len() == 0 {
        Seq::empty()
    } else {
        entry_names(entries[0]) + selected_names(entries.drop_first())
    }
}

proof fn lemma_scan_readable(entries: Seq<ListedEntry>, dir: Seq<char>)
    requires
        all_readable(entries),
    ensures
        scan_entries(entries, dir) == if has_bad_entry(entries) {
            Err(non_utf8_error())
        } else {
            Ok::<Seq<Seq<char>>, ViErrorView>(selected_names(entries))
        },
    decreases entries.len(),
{
    if entries.len() > 0 {
        let rest = entries.drop_first();
        assert(entries[0] is Entry);
        assert(all_readable(rest)) by {
            assert forall|i: int| 0 <= i < rest.len() implies #[trigger] rest[i] is Entry by {
                assert(rest[i] == entries[i + 1]);
            }
        }
        lemma_scan_readable(rest, dir);
        assert(has_bad_entry(entries) <==> is_bad_entry(entries[0]) || has_bad_entry(rest)) by {
            if has_bad_entry(rest) {
                let i = choose|i: int| 0 <= i < rest.len() && is_bad_entry(#[trigger] rest[i]);
                assert(entries[i + 1] == rest[i]);
            }
            if has_bad_entry(entries) && !is_bad_entry(entries[0]) {
                let i = choose|i: int| 0 <= i < entries.len() && is_bad_entry(#[trigger] entries[i]);
                assert(rest[i - 1] == entries[i]);
            }
        }
        match entries[0] {
            ListedEntry::Entry(d) => {
                if entry_selected(d) {
                    match d.name {
                        EntryName::Utf8(n) => {
                            assert(!is_bad_entry(entries[0]));
                        },
                        EntryName::NonUtf8 { .. } => {},
                    }
                } else {
                    assert(entry_names(entries[0]) + selected_names(rest) =~= selected_names(rest));
                }
            },
            ListedEntry::Unreadable { .. } => {},
        }
    } else {
        assert(!has_bad_entry(entries));
    }
}

proof fn lemma_selected_names_remove(s: Seq<ListedEntry>, k: int)
    requires
        0 <= k < s.len(),
    ensures
        selected_names(s).to_multiset() == entry_names(s[k]).to_multiset().add(
            selected_names(s.remove(k)).to_multiset(),
        ),
    decreases k,
{
    broadcast use vstd::seq_lib::lemma_multiset_commutative;
    broadcast use vstd::multiset::group_multiset_axioms;

    if k == 0 {
        assert(s.remove(0) =~= s.drop_first());
    } else {
        let d = s.drop_first();
        lemma_selected_names_remove(d, k - 1);
        assert(s.remove(k).drop_first() =~= d.remove(k - 1));
        assert(s.remove(k)[0] == s[0]);
        assert(d[k - 1] == s[k]);
        let a = entry_names(s[0]).to_multiset();
        let b = entry_names(s[k]).to_multiset();
        let c = selected_names(d.remove(k - 1)).to_multiset();
        assert(a.add(b.add(c)) =~= b.add(a.add(c)));
    }
}

proof fn lemma_selected_names_multiset(e1: Seq<ListedEntry>, e2: Seq<ListedEntry>)
    requires
        e1.to_multiset() == e2.to_multiset(),
    ensures
        selected_names(e1).to_multiset() == selected_names(e2).to_multiset(),
    decreases e1.len(),
{
    broadcast use vstd::seq_lib::lemma_multiset_commutative;
    broadcast use vstd::multiset::group_multiset_axioms;

    if e1.len() == 0 {
        vstd::seq_lib::to_multiset_len(e1);
        vstd::seq_lib::to_multiset_len(e2);
        assert(e2.len() == 0);
        assert(e1 =~= e2);
    } else {
        let x = e1[0];
        assert(e1.contains(x));
        assert(e2.to_multiset().count(x) > 0);
        assert(e2.contains(x));
        let k = choose|k: int| 0 <= k < e2.len() && e2[k] == x;
        assert(e1.remove(0) =~= e1.drop_first());
        lemma_selected_names_multiset(e1.drop_first(), e2.remove(k));
        lemma_selected_names_remove(e2, k);
    }
}

proof fn lemma_has_bad_entry_multiset(e1: Seq<ListedEntry>, e2: Seq<ListedEntry>)
    requires
        e1.to_multiset() == e2.to_multiset(),
        has_bad_entry(e1),
    ensures
        has_bad_entry(e2),
{
    let i = choose|i: int| 0 <= i < e1.len() && is_bad_entry(#[trigger] e1[i]);
    let x = e1[i];
    assert(e1.contains(x));
    assert(e1.to_multiset().count(x) > 0);
    assert(e2.contains(x));
    let k = choose|k: int| 0 <= k < e2.len() && e2[k] == x;
    assert(is_bad_entry(e2[k]));
}

/// Reordering the readable entries of a checkpoint directory does not change
/// its canonical file list: the weights files come in lexicographic order
/// whatever order the directory lists them in.
pub proof fn lemma_canonical_files_order_independent(l1: CheckpointListing, l2: CheckpointListing)
    requires
        l1.dir@ == l2.dir@,
        l1.has_config == l2.has_config,
        l1.has_tokenizer == l2.has_tokenizer,
        l1.has_tokenizer_model == l2.has_tokenizer_model,
        l1.entries matches Ok(e1) && l2.entries matches Ok(e2) && e1@.to_multiset() == e2@.to_multiset()
            && all_readable(e1@) && all_readable(e2@),
    ensures
        canonical_files_of(l1) == canonical_files_of(l2),
{
    let e1 = l1.entries->Ok_0@;
    let e2 = l2.entries->Ok_0@;
    lemma_scan_readable(e1, l1.dir@);
    lemma_scan_readable(e2, l2.dir@);
    if has_bad_entry(e1) {
        lemma_has_bad_entry_multiset(e1, e2);
    }
    if has_bad_entry(e2) {
        lemma_has_bad_entry_multiset(e2, e1);
    }
    let n1 = selected_names(e1);
    let n2 = selected_names(e2);
    lemma_selected_names_multiset(e1, e2);
    assert(n1.len() == n2.len()) by {
        vstd::seq_lib::to_multiset_len(n1);
        vstd::seq_lib::to_multiset_len(n2);
    }
    lemma_text_order_total();
    n1.lemma_sort_by_ensures(text_order());
    n2.lemma_sort_by_ensures(text_order());
    vstd::seq_lib::lemma_sorted_unique(n1.sort_by(text_order()), n2.sort_by(text_order()), text_order());
}

/// Link-graph anchor; does nothing.
pub fn placeholder() {
}

} // verus!
