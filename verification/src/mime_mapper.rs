//! `Content-Type` header lines: a fixed table by file extension, and a cache
//! that builds each line once per media type.

use mime_guess::MimeGuess;
use std::sync::RwLock;
use vstd::prelude::*;
use vstd::string::StringExecFns;

use crate::sync::held;
use crate::sync::held_mut;
use crate::text::after_last;
use crate::text::last_index_of;
use crate::text::str_eq;

verus! {

/// The header line sent where nothing better is known.
pub const CT_APPLICATION_OCTET_STREAM: &'static str = "Content-Type: application/octet-stream";

/// What follows the last `.` of `path`; empty where `path` has no `.`.
pub open spec fn extension(path: Seq<char>) -> Seq<char> {
    let dot = last_index_of(path, '.');
    if dot < 0 {
        Seq::empty()
    } else {
        path.subrange(dot + 1, path.len() as int)
    }
}

/// The header line that the fixed table gives for a lower-case extension.
pub open spec fn extension_header(ext: Seq<char>) -> Seq<char> {
    if ext == "html"@ {
        "Content-Type: text/html; charset=utf-8"@
    } else if ext == "jpg"@ || ext == "jpeg"@ {
        "Content-Type: image/jpeg"@
    } else if ext == "png"@ {
        "Content-Type: image/png"@
    } else if ext == "svg"@ {
        "Content-Type: image/svg+xml"@
    } else if ext == "css"@ {
        "Content-Type: text/css"@
    } else if ext == "js"@ {
        "Content-Type: text/javascript"@
    } else if ext == "txt"@ {
        "Content-Type: text/plain"@
    } else if ext == "xml"@ {
        "Content-Type: text/xml"@
    } else {
        CT_APPLICATION_OCTET_STREAM@
    }
}

/// Whether the fixed table has an entry for the lower-case extension `ext`.
pub open spec fn known_extension(ext: Seq<char>) -> bool {
    ext == "html"@ || ext == "jpg"@ || ext == "jpeg"@ || ext == "png"@ || ext == "svg"@ || ext
        == "css"@ || ext == "js"@ || ext == "txt"@ || ext == "xml"@
}

/// An extension without an entry in the fixed table gets the octet-stream line.
pub proof fn lemma_unknown_extension_is_octet_stream(ext: Seq<char>)
    requires
        !known_extension(ext),
    ensures
        extension_header(ext) == CT_APPLICATION_OCTET_STREAM@,
{
}

/// The lower-case form of `s` as `str::to_lowercase` of the standard library
/// computes it (Unicode case mapping, independent of any locale).
pub uninterp spec fn lowercase(s: Seq<char>) -> Seq<char>;

/// Calls `str::to_lowercase`. Trusted: the result is the lower-case form of
/// the argument, which `lowercase` names.
#[verifier::external_body]
fn to_lowercase(s: &str) -> (lower: String)
    ensures
        lower@ == lowercase(s@),
{
    s.to_lowercase()
}

/// The header line of the fixed table for an extension already in lower case.
pub fn header_for_extension(ext: &str) -> (ct: &'static str)
    ensures
        ct@ == extension_header(ext@),
{
    if str_eq(ext, "html") {
        "Content-Type: text/html; charset=utf-8"
    } else if str_eq(ext, "jpg") || str_eq(ext, "jpeg") {
        "Content-Type: image/jpeg"
    } else if str_eq(ext, "png") {
        "Content-Type: image/png"
    } else if str_eq(ext, "svg") {
        "Content-Type: image/svg+xml"
    } else if str_eq(ext, "css") {
        "Content-Type: text/css"
    } else if str_eq(ext, "js") {
        "Content-Type: text/javascript"
    } else if str_eq(ext, "txt") {
        "Content-Type: text/plain"
    } else if str_eq(ext, "xml") {
        "Content-Type: text/xml"
    } else {
        CT_APPLICATION_OCTET_STREAM
    }
}

/// The header line for `path` by the fixed table: the table is asked for the
/// lower-case form of the path's extension.
pub fn mime_map(path: &str) -> (ct: &'static str)
    ensures
        ct@ == extension_header(lowercase(extension(path@))),
{
    let ext = match after_last(path, '.') {
        Some(tail) => tail,
        None => {
            proof {
                reveal_strlit("");
                assert(""@ =~= Seq::<char>::empty());
            }
            ""
        },
    };
    let lower = to_lowercase(ext);
    header_for_extension(lower.as_str())
}

/// The header line for the media type `mime`.
pub open spec fn content_type_header(mime: Seq<char>) -> Seq<char> {
    "Content-Type: "@ + mime
}

/// A media type such as `text/css`, held as its text.
pub struct MimeClass {
    name: String,
}

impl View for MimeClass {
    type V = Seq<char>;

    closed spec fn view(&self) -> Seq<char> {
        self.name@
    }
}

/// `mime_guess::MimeGuess`, opaque: the media types guessed for one
/// extension or path.
#[verifier::external_type_specification]
#[verifier::external_body]
pub struct ExMimeGuess(MimeGuess);

/// The media types that a guess holds, first the preferred one, each as the
/// text of its `Mime`.
pub uninterp spec fn guessed_types(guess: MimeGuess) -> Seq<Seq<char>>;

/// The media types that `mime_guess::from_path` guesses for `path`, in the
/// same form. It goes by the extension alone, which it takes from the path
/// as `std::path::Path::extension` does, and never looks at a file.
pub uninterp spec fn path_types(path: Seq<char>) -> Seq<Seq<char>>;

/// The first of `types`, or `application/octet-stream` where there is none.
pub open spec fn first_or_octet_stream_of(types: Seq<Seq<char>>) -> Seq<char> {
    if types.len() > 0 {
        types[0]
    } else {
        "application/octet-stream"@
    }
}

/// Calls `mime_guess::from_path`. Trusted: the guess holds the media types
/// that `path_types` names for this path.
#[verifier::external_body]
fn from_path(path: &str) -> (guess: MimeGuess)
    ensures
        guessed_types(guess) == path_types(path@),
{
    mime_guess::from_path(path)
}

/// Calls `MimeGuess::first_or_octet_stream`. Trusted: the result is the first
/// media type of the guess, and `application/octet-stream` where the guess is
/// empty.
#[verifier::external_body]
fn first_or_octet_stream(guess: &MimeGuess) -> (mime: MimeClass)
    ensures
        mime@ == first_or_octet_stream_of(guessed_types(*guess)),
{
    MimeClass { name: String::from(guess.first_or_octet_stream().as_ref()) }
}

impl MimeClass {
    /// The media type guessed for `path`: the first that its extension is
    /// known for, or `application/octet-stream`.
    pub fn from_path(path: &str) -> (mime: Self)
        ensures
            mime@ == first_or_octet_stream_of(path_types(path@)),
    {
        let guess = from_path(path);
        first_or_octet_stream(&guess)
    }

    /// The media type that `name` spells.
    pub fn new(name: &str) -> (mime: Self)
        ensures
            mime@ == name@,
    {
        MimeClass { name: name.to_owned() }
    }

    /// The text of the media type.
    pub fn as_str(&self) -> (name: &str)
        ensures
            name@ == self@,
    {
        self.name.as_str()
    }
}

/// Calls `String::leak`. Trusted: the text handed out, which lives as long
/// as the process, is the text given.
#[verifier::external_body]
fn leak(s: String) -> (text: &'static str)
    ensures
        text@ == s@,
{
    s.leak()
}

/// What a cache holds after it was asked for `mime`: what it held before,
/// and the header line for `mime` if that was missing.
pub open spec fn with_header(cache: Map<Seq<char>, Seq<char>>, mime: Seq<char>) -> Map<
    Seq<char>,
    Seq<char>,
> {
    if cache.contains_key(mime) {
        cache
    } else {
        cache.insert(mime, content_type_header(mime))
    }
}

/// What a cache holds after it was asked for each of `mimes` in turn.
pub open spec fn with_headers(cache: Map<Seq<char>, Seq<char>>, mimes: Seq<Seq<char>>) -> Map<
    Seq<char>,
    Seq<char>,
>
    decreases mimes.len(),
{
    if mimes.len() == 0 {
        cache
    } else {
        with_header(with_headers(cache, mimes.drop_last()), mimes.last())
    }
}

/// Asking again for the same media type leaves the cache as the first
/// request left it, and one request adds at most one line: none where the
/// media type had one.
pub proof fn lemma_get_or_insert_idempotent(cache: Map<Seq<char>, Seq<char>>, mime: Seq<char>)
    requires
        cache.dom().finite(),
    ensures
        with_header(with_header(cache, mime), mime) == with_header(cache, mime),
        with_header(cache, mime).dom().finite(),
        with_header(cache, mime).contains_key(mime),
        cache.contains_key(mime) ==> with_header(cache, mime) == cache,
        !cache.contains_key(mime) ==> with_header(cache, mime).len() == cache.len() + 1,
        forall|other: Seq<char>|
            cache.contains_key(other) ==> with_header(cache, mime).contains_key(other)
                && with_header(cache, mime)[other] == cache[other],
{
}

/// After any run of requests the cache holds the lines it held before,
/// unchanged, and one line for each media type asked for that had none: the
/// number of lines grows by at most the number of distinct media types asked
/// for.
pub proof fn lemma_one_line_per_media_type(cache: Map<Seq<char>, Seq<char>>, mimes: Seq<Seq<char>>)
    requires
        cache.dom().finite(),
    ensures
        with_headers(cache, mimes).dom() == cache.dom().union(mimes.to_set()),
        with_headers(cache, mimes).dom().finite(),
        with_headers(cache, mimes).len() <= cache.len() + mimes.to_set().len(),
        forall|mime: Seq<char>| #[trigger]
            with_headers(cache, mimes).contains_key(mime) ==> with_headers(cache, mimes)[mime] == (
            if cache.contains_key(mime) {
                cache[mime]
            } else {
                content_type_header(mime)
            }),
    decreases mimes.len(),
{
    if mimes.len() == 0 {
        assert(mimes.to_set() =~= Set::<Seq<char>>::empty());
        assert(cache.dom().union(mimes.to_set()) =~= cache.dom());
    } else {
        let before = mimes.drop_last();
        let last = mimes.last();
        lemma_one_line_per_media_type(cache, before);
        assert(mimes.to_set() =~= before.to_set().insert(last)) by {
            assert forall|m: Seq<char>| mimes.to_set().contains(m) <==> before.to_set().insert(
                last,
            ).contains(m) by {
                if mimes.contains(m) {
                    let i = choose|i: int| 0 <= i < mimes.len() && mimes[i] == m;
                    if i < before.len() {
                        assert(before[i] == m);
                    }
                }
                if before.contains(m) {
                    let i = choose|i: int| 0 <= i < before.len() && before[i] == m;
                    assert(mimes[i] == m);
                }
                if m == last {
                    assert(mimes[mimes.len() - 1] == m);
                }
            }
        }
        assert(with_headers(cache, mimes).dom() =~= cache.dom().union(mimes.to_set()));
        vstd::set_lib::lemma_len_union(cache.dom(), mimes.to_set());
    }
}

struct Entry {
    mime: String,
    header: &'static str,
}

/// Header lines by media type. Each media type has at most one line, the
/// line is the one that `content_type_header` gives, and no line ever
/// changes or leaves.
pub struct MimeMap {
    entries: Vec<Entry>,
}

impl MimeMap {
    #[verifier::type_invariant]
    spec fn inv(self) -> bool {
        &&& forall|i: int, j: int|
            0 <= i < j < self.entries.len() ==> self.entries[i].mime@ != self.entries[j].mime@
        &&& forall|i: int|
            0 <= i < self.entries.len() ==> (#[trigger] self.entries[i]).header@
                == content_type_header(self.entries[i].mime@)
    }

    spec fn at(&self, mime: Seq<char>, i: int) -> bool {
        0 <= i < self.entries.len() && self.entries[i].mime@ == mime
    }

    /// The header line stored for each media type.
    pub closed spec fn view(&self) -> Map<Seq<char>, Seq<char>> {
        Map::new(
            |mime: Seq<char>| exists|i: int| self.at(mime, i),
            |mime: Seq<char>| self.entries[choose|i: int| self.at(mime, i)].header@,
        )
    }

    /// An empty table.
    pub fn new() -> (table: Self)
        ensures
            table@ == Map::<Seq<char>, Seq<char>>::empty(),
    {
        let table = MimeMap { entries: Vec::new() };
        assert(table@ =~= Map::<Seq<char>, Seq<char>>::empty());
        table
    }

    /// How many media types have a line.
    pub fn len(&self) -> (n: usize)
        ensures
            self@.dom().finite(),
            n == self@.len(),
    {
        proof {
            use_type_invariant(self);
            let keys = Seq::new(self.entries.len() as nat, |i: int| self.entries[i].mime@);
            assert forall|m: Seq<char>| self@.dom().contains(m) <==> keys.to_set().contains(m) by {
                if self@.dom().contains(m) {
                    let i = choose|i: int| self.at(m, i);
                    assert(keys[i] == m);
                }
                if keys.to_set().contains(m) {
                    let i = choose|i: int| 0 <= i < keys.len() && keys[i] == m;
                    assert(self.at(m, i));
                }
            }
            assert(self@.dom() =~= keys.to_set());
            keys.unique_seq_to_set();
        }
        self.entries.len()
    }

    /// The line stored for `mime`, if there is one.
    pub fn get(&self, mime: &str) -> (found: Option<&'static str>)
        ensures
            match found {
                Some(ct) => self@.contains_key(mime@) && ct@ == self@[mime@] && ct@
                    == content_type_header(mime@),
                None => !self@.contains_key(mime@),
            },
    {
        proof {
            use_type_invariant(self);
        }
        let mut i: usize = 0;
        while i < self.entries.len()
            invariant
                i <= self.entries.len(),
                self.inv(),
                forall|j: int| 0 <= j < i ==> !self.at(mime@, j),
            decreases self.entries.len() - i,
        {
            if str_eq(self.entries[i].mime.as_str(), mime) {
                proof {
                    assert(self.at(mime@, i as int));
                    let k = choose|k: int| self.at(mime@, k);
                    assert(k == i);
                }
                return Some(self.entries[i].header);
            }
            i += 1;
        }
        assert forall|j: int| !self.at(mime@, j) by {}
        None
    }

    /// The line for `mime`: the stored one, or else a new one, which is
    /// stored.
    pub fn get_or_insert(&mut self, mime: MimeClass) -> (ct: &'static str)
        ensures
            ct@ == content_type_header(mime@),
            final(self)@ == with_header(old(self)@, mime@),
            final(self)@[mime@] == ct@,
    {
        if let Some(ct) = self.get(mime.as_str()) {
            return ct;
        }
        let ghost asked = mime@;
        let ghost n = old(self).entries.len() as int;
        proof {
            use_type_invariant(&*self);
            assert forall|i: int| 0 <= i < n implies old(self).entries[i].mime@ != asked by {
                assert(!old(self).at(asked, i));
            }
        }
        let mut line = "Content-Type: ".to_owned();
        line.append(mime.as_str());
        let ct = leak(line);
        let mut entries: Vec<Entry> = Vec::new();
        core::mem::swap(&mut self.entries, &mut entries);
        entries.push(Entry { mime: mime.name, header: ct });
        self.entries = entries;
        proof {
            assert(self.at(asked, n));
            assert forall|m: Seq<char>| self@.contains_key(m) <==> old(self)@.contains_key(m) || m
                == asked by {
                if old(self)@.contains_key(m) {
                    let i = choose|i: int| old(self).at(m, i);
                    assert(self.at(m, i));
                }
                if self@.contains_key(m) && m != asked {
                    let i = choose|i: int| self.at(m, i);
                    assert(old(self).at(m, i));
                }
            }
            assert forall|m: Seq<char>| self@.contains_key(m) implies self@[m] == with_header(
                old(self)@,
                asked,
            )[m] by {
                let i = choose|i: int| self.at(m, i);
                if m != asked {
                    let k = choose|k: int| old(self).at(m, k);
                    assert(old(self).at(m, i));
                    assert(i == k);
                } else {
                    assert(i == n);
                }
            }
            assert(self@ =~= with_header(old(self)@, asked));
        }
        ct
    }
}

/// Where no media type is known, as for a path with an extension that maps
/// to none, the header line is the octet-stream line.
pub proof fn lemma_no_media_type_is_octet_stream(types: Seq<Seq<char>>)
    requires
        types.len() == 0,
    ensures
        content_type_header(first_or_octet_stream_of(types)) == CT_APPLICATION_OCTET_STREAM@,
{
    reveal_strlit("Content-Type: ");
    reveal_strlit("application/octet-stream");
    reveal_strlit("Content-Type: application/octet-stream");
    assert("Content-Type: "@ + "application/octet-stream"@
        =~= "Content-Type: application/octet-stream"@);
}

/// The header-line cache that request handlers share: a `MimeMap` behind a
/// reader/writer lock.
pub struct MimeMapper {
    mappings: RwLock<MimeMap>,
}

impl MimeMapper {
    /// A cache that holds no line yet.
    pub fn new() -> Self {
        MimeMapper { mappings: RwLock::new(MimeMap::new()) }
    }

    /// The header line for `mime`. A line that is already there is read
    /// under the shared lock. Else the exclusive lock is taken, the table is
    /// asked again, and the line is made and stored if it is still missing.
    /// Where the lock cannot be had, because a holder panicked, the
    /// octet-stream line is returned.
    pub fn get_or_insert(&self, mime: MimeClass) -> (ct: &'static str)
        ensures
            ct@ == content_type_header(mime@) || ct@ == CT_APPLICATION_OCTET_STREAM@,
    {
        if let Ok(table) = self.mappings.read() {
            if let Some(ct) = held(&table).get(mime.as_str()) {
                return ct;
            }
        }
        if let Ok(mut table) = self.mappings.write() {
            return held_mut(&mut table).get_or_insert(mime);
        }
        CT_APPLICATION_OCTET_STREAM
    }

    /// How many media types have a line at the moment, or `None` where the
    /// lock cannot be had.
    pub fn len(&self) -> Option<usize> {
        match self.mappings.read() {
            Ok(table) => Some(held(&table).len()),
            Err(_) => None,
        }
    }
}

} // verus!
