use vstd::prelude::*;
use crate::text::text_equals;

verus! {

/// A directory entry as listed: its path (lossily converted when it is not valid
/// UTF-8), whether it is a regular file, and whether its path was valid UTF-8.
pub struct DirEntryInfo {
    pub path: String,
    pub is_file: bool,
    pub utf8: bool,
}

/// A directory entry together with the extension of its path.
pub struct DescribedEntry {
    pub path: String,
    pub is_file: bool,
    pub utf8: bool,
    pub extension: Option<String>,
}

/// A chosen file: its path, and whether that path was valid UTF-8 (the speech
/// engine takes only UTF-8 paths).
pub struct ChosenPath {
    pub path: String,
    pub utf8: bool,
}

/// The files the speech engine is loaded from.
pub struct ModelFiles {
    /// The acoustic model.
    pub model: ChosenPath,
    /// The external scorer, if the directory holds one.
    pub scorer: Option<ChosenPath>,
}

/// The abstract value of [`ModelFiles`]: each path as text, with its UTF-8 flag.
pub struct ModelFilesView {
    pub model: (Seq<char>, bool),
    pub scorer: Option<(Seq<char>, bool)>,
}

impl View for ChosenPath {
    type V = (Seq<char>, bool);

    open spec fn view(&self) -> (Seq<char>, bool) {
        (self.path@, self.utf8)
    }
}

impl View for ModelFiles {
    type V = ModelFilesView;

    open spec fn view(&self) -> ModelFilesView {
        ModelFilesView {
            model: self.model@,
            scorer: match self.scorer {
                Some(s) => Some(s@),
                None => None,
            },
        }
    }
}

/// Extensions of acoustic model files.
pub open spec fn is_model_extension(e: Seq<char>) -> bool {
    ||| e == seq!['p', 'b']
    ||| e == seq!['p', 'b', 'm', 'm']
    ||| e == seq!['t', 'f', 'l', 'i', 't', 'e']
}

/// Extension of scorer files.
pub open spec fn is_scorer_extension(e: Seq<char>) -> bool {
    e == seq!['s', 'c', 'o', 'r', 'e', 'r']
}

pub open spec fn is_model_entry(e: DescribedEntry) -> bool {
    e.is_file && (e.extension matches Some(x) && is_model_extension(x@))
}

pub open spec fn is_scorer_entry(e: DescribedEntry) -> bool {
    e.is_file && (e.extension matches Some(x) && is_scorer_extension(x@))
}

/// Index of the last acoustic model file among `entries`.
pub open spec fn last_model_index(entries: Seq<DescribedEntry>) -> Option<int>
    decreases entries.len(),
{
    if entries.len() == 0 {
        None
    } else if is_model_entry(entries.last()) {
        Some(entries.len() - 1)
    } else {
        last_model_index(entries.drop_last())
    }
}

/// Index of the last scorer file among `entries`.
pub open spec fn last_scorer_index(entries: Seq<DescribedEntry>) -> Option<int>
    decreases entries.len(),
{
    if entries.len() == 0 {
        None
    } else if is_scorer_entry(entries.last()) {
        Some(entries.len() - 1)
    } else {
        last_scorer_index(entries.drop_last())
    }
}

/// The files chosen from a directory whose default model path is `default_model`:
/// the last model file listed (else the default path), and the last scorer file
/// listed, if any.
pub open spec fn chosen_files(default_model: Seq<char>, entries: Seq<DescribedEntry>) -> ModelFilesView {
    ModelFilesView {
        model: match last_model_index(entries) {
            Some(i) => (entries[i].path@, entries[i].utf8),
            None => (default_model, true),
        },
        scorer: match last_scorer_index(entries) {
            Some(i) => Some((entries[i].path@, entries[i].utf8)),
            None => None,
        },
    }
}

/// The last index found is the last one that qualifies.
pub proof fn lemma_last_index_is_last(entries: Seq<DescribedEntry>)
    ensures
        last_model_index(entries) matches Some(i) ==> {
            &&& 0 <= i < entries.len()
            &&& is_model_entry(entries[i])
            &&& forall|j: int| i < j < entries.len() ==> !is_model_entry(#[trigger] entries[j])
        },
        last_model_index(entries) is None ==> forall|j: int|
            0 <= j < entries.len() ==> !is_model_entry(#[trigger] entries[j]),
        last_scorer_index(entries) matches Some(i) ==> {
            &&& 0 <= i < entries.len()
            &&& is_scorer_entry(entries[i])
            &&& forall|j: int| i < j < entries.len() ==> !is_scorer_entry(#[trigger] entries[j])
        },
        last_scorer_index(entries) is None ==> forall|j: int|
            0 <= j < entries.len() ==> !is_scorer_entry(#[trigger] entries[j]),
    decreases entries.len(),
{
    if entries.len() > 0 {
        let d = entries.drop_last();
        let n: int = entries.len() - 1;
        lemma_last_index_is_last(d);
        assert(entries.last() == entries[n]);
        assert forall|j: int| 0 <= j < n implies entries[j] == #[trigger] d[j] by {}
        if !is_model_entry(entries.last()) {
            assert forall|j: int|
                last_model_index(entries) matches Some(i) && i < j < entries.len() implies !is_model_entry(
                #[trigger] entries[j]) by {
                if j < n {
                    assert(entries[j] == d[j]);
                }
            }
            assert forall|j: int|
                last_model_index(entries) is None && 0 <= j < entries.len() implies !is_model_entry(
                #[trigger] entries[j]) by {
                if j < n {
                    assert(entries[j] == d[j]);
                }
            }
        }
        if !is_scorer_entry(entries.last()) {
            assert forall|j: int|
                last_scorer_index(entries) matches Some(i) && i < j < entries.len() implies !is_scorer_entry(
                #[trigger] entries[j]) by {
                if j < n {
                    assert(entries[j] == d[j]);
                }
            }
            assert forall|j: int|
                last_scorer_index(entries) is None && 0 <= j < entries.len() implies !is_scorer_entry(
                #[trigger] entries[j]) by {
                if j < n {
                    assert(entries[j] == d[j]);
                }
            }
        }
    }
}

/// No entry is both a model file and a scorer file.
pub proof fn lemma_model_and_scorer_differ(e: DescribedEntry)
    ensures
        !(is_model_entry(e) && is_scorer_entry(e)),
{
}

fn is_model_ext(e: &str) -> (b: bool)
    ensures
        b == is_model_extension(e@),
{
    proof {
        reveal_strlit("pb");
        reveal_strlit("pbmm");
        reveal_strlit("tflite");
        assert("pb"@ =~= seq!['p', 'b']);
        assert("pbmm"@ =~= seq!['p', 'b', 'm', 'm']);
        assert("tflite"@ =~= seq!['t', 'f', 'l', 'i', 't', 'e']);
    }
    text_equals(e, "pb") || text_equals(e, "pbmm") || text_equals(e, "tflite")
}

fn is_scorer_ext(e: &str) -> (b: bool)
    ensures
        b == is_scorer_extension(e@),
{
    proof {
        reveal_strlit("scorer");
        assert("scorer"@ =~= seq!['s', 'c', 'o', 'r', 'e', 'r']);
    }
    text_equals(e, "scorer")
}

/// Chooses the model and scorer files among the entries of a model directory:
/// the last model file (extension `pb`, `pbmm` or `tflite`) wins, else
/// `default_model`; the last scorer file (extension `scorer`) is the scorer.
pub fn choose_model_files(default_model: String, entries: &Vec<DescribedEntry>) -> (files: ModelFiles)
    ensures
        files@ == chosen_files(default_model@, entries@),
{
    let mut model: Option<usize> = None;
    let mut scorer: Option<usize> = None;
    let n: usize = entries.len();
    let mut i: usize = 0;
    while i < n
        invariant
            n == entries@.len(),
            i <= n,
            model == (match last_model_index(entries@.take(i as int)) {
                Some(k) => Some(k as usize),
                None => None::<usize>,
            }),
            scorer == (match last_scorer_index(entries@.take(i as int)) {
                Some(k) => Some(k as usize),
                None => None::<usize>,
            }),
            forall|k: usize| model == Some(k) ==> k < i,
            forall|k: usize| scorer == Some(k) ==> k < i,
        decreases n - i,
    {
        let e = &entries[i];
        proof {
            let t = entries@.take(i + 1);
            assert(t.drop_last() =~= entries@.take(i as int));
            assert(t.last() == entries@[i as int]);
            lemma_last_index_is_last(entries@.take(i as int));
        }
        if e.is_file {
            match &e.extension {
                Some(x) => {
                    if is_model_ext(x.as_str()) {
                        model = Some(i);
                    } else if is_scorer_ext(x.as_str()) {
                        scorer = Some(i);
                    }
                },
                None => {},
            }
        }
        i = i + 1;
    }
    proof {
        assert(entries@.take(n as int) =~= entries@);
        lemma_last_index_is_last(entries@);
    }
    let model_path = match model {
        Some(k) => ChosenPath { path: entries[k].path.clone(), utf8: entries[k].utf8 },
        None => ChosenPath { path: default_model, utf8: true },
    };
    let scorer_path = match scorer {
        Some(k) => Some(ChosenPath { path: entries[k].path.clone(), utf8: entries[k].utf8 }),
        None => None,
    };
    ModelFiles { model: model_path, scorer: scorer_path }
}

/// A file name with no directory or drive part on any platform, and not one
/// of the names `.` and `..` that a path may drop.
pub open spec fn is_plain_file_name(f: Seq<char>) -> bool {
    &&& f.len() > 0
    &&& f != seq!['.']
    &&& f != seq!['.', '.']
    &&& forall|k: int| 0 <= k < f.len() ==> #[trigger] f[k] != '/' && f[k] != '\\' && f[k] != ':'
}

/// Text with neither `\` nor `:`, which the path rules of every platform read
/// alike: `/` is the only separator and there is no drive or server prefix.
pub open spec fn is_portable(t: Seq<char>) -> bool {
    forall|k: int| 0 <= k < t.len() ==> #[trigger] t[k] != '\\' && t[k] != ':'
}

/// `text` ends with `suffix`.
pub open spec fn ends_with(text: Seq<char>, suffix: Seq<char>) -> bool {
    &&& suffix.len() <= text.len()
    &&& text.subrange(text.len() - suffix.len(), text.len() as int) == suffix
}

/// Index of the last `c` in `s`, or -1 when there is none.
pub open spec fn last_index_of(s: Seq<char>, c: char) -> int
    decreases s.len(),
{
    if s.len() == 0 {
        -1
    } else if s.last() == c {
        s.len() - 1
    } else {
        last_index_of(s.drop_last(), c)
    }
}

/// The text after the last `/` of a path.
pub open spec fn file_name_of(path: Seq<char>) -> Seq<char> {
    path.subrange(last_index_of(path, '/') + 1, path.len() as int)
}

/// A path whose extension is the same on every platform: portable text that
/// does not start with `//` (a server prefix on some platforms) and whose last
/// component is a name (the path does not end in `/` and its last component is
/// not `.`).
pub open spec fn has_portable_name(path: Seq<char>) -> bool {
    &&& is_portable(path)
    &&& !(path.len() >= 2 && path[0] == '/' && path[1] == '/')
    &&& file_name_of(path).len() > 0
    &&& file_name_of(path) != seq!['.']
}

/// The extension of a file name: none for `..`, for a name without `.` and for a
/// name whose only `.` leads it; otherwise the text after the last `.`.
pub open spec fn name_extension(name: Seq<char>) -> Option<Seq<char>> {
    if name == seq!['.', '.'] {
        None
    } else {
        let d = last_index_of(name, '.');
        if d <= 0 {
            None
        } else {
            Some(name.subrange(d + 1, name.len() as int))
        }
    }
}

/// A path separator on some platform.
pub open spec fn is_sep(c: char) -> bool {
    c == '/' || c == '\\'
}

/// A character that some platform reads as part of a path's structure.
pub open spec fn is_structural(c: char) -> bool {
    is_sep(c) || c == ':'
}

/// The path starts with two separators (a server or device prefix on some
/// platforms).
pub open spec fn starts_with_two_separators(path: Seq<char>) -> bool {
    path.len() >= 2 && is_sep(path[0]) && is_sep(path[1])
}

/// The text after the last `.` of a path (the whole path when it has none).
pub open spec fn after_last_dot(path: Seq<char>) -> Seq<char> {
    path.subrange(last_index_of(path, '.') + 1, path.len() as int)
}

/// A path whose file name, on every platform, is a name with a `.` that is
/// neither its first character nor part of `..`: the last `.` of the path
/// follows every separator and `:`, is not right after one of them nor at the
/// start, the path does not end in the name `..`, and it does not start with two
/// separators.
pub open spec fn has_dotted_name(path: Seq<char>) -> bool {
    let d = last_index_of(path, '.');
    &&& d > 0
    &&& forall|k: int| d - 1 <= k < path.len() ==> !is_structural(#[trigger] path[k])
    &&& !(d == path.len() - 1 && path[d - 1] == '.' && (d == 1 || is_structural(path[d - 2])))
    &&& !starts_with_two_separators(path)
}

/// A path that ends in its file name on every platform, when it has one: it
/// does not end in a separator nor in a `.` component, and it does not start
/// with two separators.
pub open spec fn ends_in_name(path: Seq<char>) -> bool {
    &&& path.len() > 0
    &&& !is_sep(path.last())
    &&& !(path.last() == '.' && (path.len() == 1 || is_sep(path[path.len() - 2])))
    &&& !starts_with_two_separators(path)
}

/// The extension of a path where it is the same on every platform.
pub open spec fn settled_extension(path: Seq<char>) -> Option<Option<Seq<char>>> {
    if has_dotted_name(path) {
        Some(Some(after_last_dot(path)))
    } else if !path.contains('.') {
        Some(None)
    } else if has_portable_name(path) {
        Some(name_extension(file_name_of(path)))
    } else {
        None
    }
}

/// An optional text, as characters.
pub open spec fn text_option(o: Option<String>) -> Option<Seq<char>> {
    match o {
        Some(e) => Some(e@),
        None => None,
    }
}

/// What holds of the extension of `path` on every platform: it is text that
/// follows a `.` in the path and holds no `.` itself; where it is settled
/// (`settled_extension`) it is exactly that; and for a path that ends in its
/// name it is absent or the text after the path's last `.`.
pub open spec fn extension_fits(path: Seq<char>, ext: Option<Seq<char>>) -> bool {
    &&& ext matches Some(e) ==> {
        &&& forall|k: int| 0 <= k < e.len() ==> #[trigger] e[k] != '.'
        &&& exists|i: int|
            0 <= i && i + 1 + e.len() <= path.len() && #[trigger] path[i] == '.'
                && path.subrange(i + 1, i + 1 + e.len()) == e
    }
    &&& settled_extension(path) matches Some(v) ==> ext == v
    &&& ends_in_name(path) ==> (ext is None || ext == Some(after_last_dot(path)))
}

/// `joined` is `dir` joined with the plain file name `file`: the file name alone
/// for an empty directory; for a portable directory, the directory, then a
/// separator unless it already ends with `/`, then the file name (the separator
/// is `/` or `\` depending on the platform); in every case it ends with the file
/// name.
pub open spec fn joins(dir: Seq<char>, file: Seq<char>, joined: Seq<char>) -> bool {
    &&& ends_with(joined, file)
    &&& dir.len() == 0 ==> joined == file
    &&& (dir.len() > 0 && is_portable(dir)) ==> if dir.last() == '/' {
        joined == dir + file
    } else {
        joined == dir + seq!['/'] + file || joined == dir + seq!['\\'] + file
    }
}

/// `std::path::Path::join` of a directory and a plain file name, as text. The
/// contract claims what `joins` says; which separator goes between a portable
/// directory and the name (`/` or `\`) depends on the platform and is left open,
/// as is the result for a directory holding `\` or `:`, beyond its ending.
#[verifier::external_body]
fn join_path(dir: &str, file: &str) -> (joined: String)
    requires
        is_plain_file_name(file@),
    ensures
        joins(dir@, file@, joined@),
{
    std::path::Path::new(dir).join(file).to_string_lossy().into_owned()
}

/// `std::path::Path::extension` of a path, as text. The contract claims what
/// `extension_fits` says. Where the extension depends on the platform (a path
/// whose last `.` comes right after a `\`, or whose name or prefix the
/// platforms read differently) it leaves open which of the platforms' answers
/// comes back.
#[verifier::external_body]
fn path_extension(path: &str) -> (ext: Option<String>)
    ensures
        extension_fits(path@, text_option(ext)),
{
    match std::path::Path::new(path).extension() {
        Some(e) => Some(e.to_string_lossy().into_owned()),
        None => None,
    }
}

/// The name of the model file looked for when the directory lists none.
pub open spec fn default_model_file() -> Seq<char> {
    seq!['o', 'u', 't', 'p', 'u', 't', '_', 'g', 'r', 'a', 'p', 'h', '.', 'p', 'b']
}

/// `described` lists the same entries as `entries`, each with an extension that
/// fits its path.
pub open spec fn describes(entries: Seq<DirEntryInfo>, described: Seq<DescribedEntry>) -> bool {
    &&& described.len() == entries.len()
    &&& forall|i: int|
        0 <= i < entries.len() ==> {
            &&& (#[trigger] described[i]).path@ == entries[i].path@
            &&& described[i].is_file == entries[i].is_file
            &&& described[i].utf8 == entries[i].utf8
            &&& extension_fits(described[i].path@, text_option(described[i].extension))
        }
}

/// The entries of a directory listing, each with the extension of its path.
pub fn describe_entries(entries: &Vec<DirEntryInfo>) -> (described: Vec<DescribedEntry>)
    ensures
        describes(entries@, described@),
{
    let mut described: Vec<DescribedEntry> = Vec::new();
    let n: usize = entries.len();
    let mut i: usize = 0;
    while i < n
        invariant
            n == entries@.len(),
            i <= n,
            described@.len() == i,
            forall|j: int|
                0 <= j < i ==> {
                    &&& (#[trigger] described@[j]).path@ == entries@[j].path@
                    &&& described@[j].is_file == entries@[j].is_file
                    &&& described@[j].utf8 == entries@[j].utf8
                    &&& extension_fits(described@[j].path@, text_option(described@[j].extension))
                },
        decreases n - i,
    {
        let e = &entries[i];
        let extension = path_extension(e.path.as_str());
        described.push(
            DescribedEntry { path: e.path.clone(), is_file: e.is_file, utf8: e.utf8, extension },
        );
        i = i + 1;
    }
    described
}

/// The two kinds of files looked for in a model directory.
#[derive(Clone, Copy, PartialEq, Eq, Structural, Debug)]
pub enum FileKind {
    Model,
    Scorer,
}

/// `x` is an extension of files of the given kind.
pub open spec fn kind_extension(kind: FileKind, x: Seq<char>) -> bool {
    match kind {
        FileKind::Model => is_model_extension(x),
        FileKind::Scorer => is_scorer_extension(x),
    }
}

/// The listed entry is, on every platform, a file of the given kind.
pub open spec fn surely_of_kind(e: DirEntryInfo, kind: FileKind) -> bool {
    e.is_file && (settled_extension(e.path@) matches Some(Some(x)) && kind_extension(kind, x))
}

/// The listed entry is, on every platform, not a file of the given kind.
pub open spec fn surely_not_of_kind(e: DirEntryInfo, kind: FileKind) -> bool {
    ||| !e.is_file
    ||| (settled_extension(e.path@) matches Some(v) && !(v matches Some(x) && kind_extension(kind, x)))
    ||| (ends_in_name(e.path@) && !kind_extension(kind, after_last_dot(e.path@)))
}

/// Every entry of the listing is, on every platform, of the given kind or not.
pub open spec fn kind_decided(entries: Seq<DirEntryInfo>, kind: FileKind) -> bool {
    forall|i: int|
        0 <= i < entries.len() ==> surely_of_kind(#[trigger] entries[i], kind) || surely_not_of_kind(
            entries[i],
            kind,
        )
}

/// Index of the last entry of a listing that is surely a file of the given kind.
pub open spec fn last_listed(entries: Seq<DirEntryInfo>, kind: FileKind) -> Option<int>
    decreases entries.len(),
{
    if entries.len() == 0 {
        None
    } else if surely_of_kind(entries.last(), kind) {
        Some(entries.len() - 1)
    } else {
        last_listed(entries.drop_last(), kind)
    }
}

/// A described entry is of a kind as its listing says, where that is decided.
proof fn lemma_entry_kind(e: DirEntryInfo, d: DescribedEntry)
    requires
        d.path@ == e.path@,
        d.is_file == e.is_file,
        extension_fits(d.path@, text_option(d.extension)),
    ensures
        surely_of_kind(e, FileKind::Model) ==> is_model_entry(d),
        surely_not_of_kind(e, FileKind::Model) ==> !is_model_entry(d),
        surely_of_kind(e, FileKind::Scorer) ==> is_scorer_entry(d),
        surely_not_of_kind(e, FileKind::Scorer) ==> !is_scorer_entry(d),
{
}

/// Where the listing decides the kind of every entry, the described entries
/// chosen are the listed ones.
proof fn lemma_described_choice(entries: Seq<DirEntryInfo>, described: Seq<DescribedEntry>)
    requires
        describes(entries, described),
    ensures
        kind_decided(entries, FileKind::Model) ==> last_model_index(described) == last_listed(
            entries,
            FileKind::Model,
        ),
        kind_decided(entries, FileKind::Scorer) ==> last_scorer_index(described) == last_listed(
            entries,
            FileKind::Scorer,
        ),
    decreases entries.len(),
{
    if entries.len() > 0 {
        let n = entries.len() - 1;
        let de = entries.drop_last();
        let dd = described.drop_last();
        assert forall|i: int| 0 <= i < de.len() implies {
            &&& (#[trigger] dd[i]).path@ == de[i].path@
            &&& dd[i].is_file == de[i].is_file
            &&& dd[i].utf8 == de[i].utf8
            &&& extension_fits(dd[i].path@, text_option(dd[i].extension))
        } by {
            assert(dd[i] == described[i]);
            assert(de[i] == entries[i]);
        }
        lemma_described_choice(de, dd);
        lemma_entry_kind(entries[n], described[n]);
        assert(entries.last() == entries[n]);
        assert(described.last() == described[n]);
        if kind_decided(entries, FileKind::Model) {
            assert forall|i: int| 0 <= i < de.len() implies surely_of_kind(
                #[trigger] de[i],
                FileKind::Model,
            ) || surely_not_of_kind(de[i], FileKind::Model) by {
                assert(de[i] == entries[i]);
            }
            assert(surely_of_kind(entries[n], FileKind::Model) || surely_not_of_kind(
                entries[n],
                FileKind::Model,
            ));
        }
        if kind_decided(entries, FileKind::Scorer) {
            assert forall|i: int| 0 <= i < de.len() implies surely_of_kind(
                #[trigger] de[i],
                FileKind::Scorer,
            ) || surely_not_of_kind(de[i], FileKind::Scorer) by {
                assert(de[i] == entries[i]);
            }
            assert(surely_of_kind(entries[n], FileKind::Scorer) || surely_not_of_kind(
                entries[n],
                FileKind::Scorer,
            ));
        }
    }
}

/// The choice made over described entries, read over the listing.
proof fn lemma_choice_from_listing(
    dir: Seq<char>,
    default_model: Seq<char>,
    entries: Seq<DirEntryInfo>,
    described: Seq<DescribedEntry>,
    files: ModelFilesView,
)
    requires
        joins(dir, default_model_file(), default_model),
        describes(entries, described),
        files == chosen_files(default_model, described),
    ensures
        kind_decided(entries, FileKind::Scorer) ==> files.scorer == match last_listed(
            entries,
            FileKind::Scorer,
        ) {
            Some(i) => Some((entries[i].path@, entries[i].utf8)),
            None => None,
        },
        kind_decided(entries, FileKind::Model) ==> match last_listed(entries, FileKind::Model) {
            Some(i) => files.model == (entries[i].path@, entries[i].utf8),
            None => files.model.1 && joins(dir, default_model_file(), files.model.0),
        },
{
    lemma_described_choice(entries, described);
    lemma_last_index_is_last(described);
    if let Some(i) = last_model_index(described) {
        assert(described[i].path@ == entries[i].path@);
    }
    if let Some(i) = last_scorer_index(described) {
        assert(described[i].path@ == entries[i].path@);
    }
}

/// Finds the model and scorer files of the model directory `dir`, given its
/// listing: the default model path is `dir` joined with `output_graph.pb`, and
/// the choice among the entries is that of `choose_model_files`. Where the
/// listing decides, on every platform, which entries are model files (or
/// scorer files), the choice is fixed by it: the last model file listed (else
/// the default path), and the last scorer file listed.
pub fn find_model_files(dir: &str, entries: &Vec<DirEntryInfo>) -> (files: ModelFiles)
    ensures
        exists|default_model: Seq<char>, described: Seq<DescribedEntry>|
            joins(dir@, default_model_file(), default_model) && describes(entries@, described)
                && files@ == #[trigger] chosen_files(default_model, described),
        kind_decided(entries@, FileKind::Scorer) ==> files@.scorer == match last_listed(
            entries@,
            FileKind::Scorer,
        ) {
            Some(i) => Some((entries@[i].path@, entries@[i].utf8)),
            None => None,
        },
        kind_decided(entries@, FileKind::Model) ==> match last_listed(entries@, FileKind::Model) {
            Some(i) => files@.model == (entries@[i].path@, entries@[i].utf8),
            None => files@.model.1 && joins(dir@, default_model_file(), files@.model.0),
        },
{
    proof {
        reveal_strlit("output_graph.pb");
        assert("output_graph.pb"@ =~= default_model_file());
    }
    let default_model = join_path(dir, "output_graph.pb");
    let described = describe_entries(entries);
    let files = choose_model_files(default_model, &described);
    proof {
        lemma_choice_from_listing(dir@, default_model@, entries@, described@, files@);
    }
    assert(joins(dir@, default_model_file(), default_model@) && describes(entries@, described@)
        && files@ == chosen_files(default_model@, described@));
    files
}

} // verus!
