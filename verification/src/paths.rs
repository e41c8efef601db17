//! Paths as sequences of segments, and the mapping from a source document
//! to the place of its rendered page.

use crate::text::chars_of;
use vstd::prelude::*;
use vstd::string::{StrSliceExecFns, StringExecFns};

verus! {

/// The extension that marks a source document.
pub open spec fn markdown_extension() -> Seq<char> {
    seq!['m', 'd']
}

/// The extension of a rendered page.
pub open spec fn html_extension() -> Seq<char> {
    seq!['h', 't', 'm', 'l']
}

/// The segment `..`, which names no file.
pub open spec fn parent_segment() -> Seq<char> {
    seq!['.', '.']
}

/// The segment `.`, which names no file.
pub open spec fn current_segment() -> Seq<char> {
    seq!['.']
}

/// Whether `segment` is the name of a file or directory, rather than a
/// root, `.` or `..`.
pub open spec fn names_file(segment: Seq<char>) -> bool {
    &&& segment.len() > 0
    &&& segment != current_segment()
    &&& segment != parent_segment()
    &&& !segment.contains('/')
}

/// The position of the last `.` in `name`.
pub open spec fn last_dot(name: Seq<char>) -> Option<int>
    decreases name.len(),
{
    if name.len() == 0 {
        None
    } else if name.last() == '.' {
        Some(name.len() - 1)
    } else {
        last_dot(name.drop_last())
    }
}

/// Where `name` divides into stem and extension: at its last `.`, unless
/// that is its first character or the name is `..`.
pub open spec fn extension_dot(name: Seq<char>) -> Option<int> {
    match last_dot(name) {
        Some(dot) => if dot > 0 && name != parent_segment() {
            Some(dot)
        } else {
            None
        },
        None => None,
    }
}

/// The extension of `name`: what follows its last `.`, if the name has one
/// that is not its first character.
pub open spec fn extension_of(name: Seq<char>) -> Option<Seq<char>> {
    match extension_dot(name) {
        Some(dot) => Some(name.subrange(dot + 1, name.len() as int)),
        None => None,
    }
}

/// The stem of `name`: the name without its extension and the `.` before it.
pub open spec fn stem_of(name: Seq<char>) -> Seq<char> {
    match extension_dot(name) {
        Some(dot) => name.subrange(0, dot),
        None => name,
    }
}

/// `name` with its extension replaced by `extension`, or given one if it had
/// none. A segment that names no file is left as it is.
pub open spec fn with_extension(name: Seq<char>, extension: Seq<char>) -> Seq<char> {
    if !names_file(name) {
        name
    } else if extension.len() == 0 {
        stem_of(name)
    } else {
        stem_of(name) + seq!['.'] + extension
    }
}

/// `last_dot` finds a `.` exactly when there is one, and then the last.
pub proof fn lemma_last_dot(name: Seq<char>)
    ensures
        match last_dot(name) {
            Some(dot) => {
                &&& 0 <= dot < name.len()
                &&& name[dot] == '.'
                &&& forall|k: int| dot < k < name.len() ==> name[k] != '.'
            },
            None => forall|k: int| 0 <= k < name.len() ==> name[k] != '.',
        },
    decreases name.len(),
{
    if name.len() > 0 && name.last() != '.' {
        lemma_last_dot(name.drop_last());
        assert forall|k: int| 0 <= k < name.len() - 1 implies name[k] == name.drop_last()[k] by {}
    }
}

/// Finds the last `.` in `chars`.
fn find_last_dot(chars: &Vec<char>) -> (found: Option<usize>)
    ensures
        match found {
            Some(dot) => last_dot(chars@) == Some(dot as int),
            None => last_dot(chars@) is None,
        },
{
    let mut i: usize = chars.len();
    assert(chars@.take(i as int) =~= chars@);
    while i > 0
        invariant
            i <= chars.len(),
            last_dot(chars@) == last_dot(chars@.take(i as int)),
        decreases i,
    {
        let ghost head = chars@.take(i as int);
        assert(head.last() == chars@[i - 1]);
        assert(head.drop_last() =~= chars@.take(i - 1));
        if chars[i - 1] == '.' {
            return Some(i - 1);
        }
        i = i - 1;
    }
    assert(chars@.take(0).len() == 0);
    None
}

/// Decides whether `chars` spell a segment that names a file.
fn spells_file_name(chars: &Vec<char>) -> (named: bool)
    ensures
        named == names_file(chars@),
{
    let len = chars.len();
    if len == 0 {
        return false;
    }
    if len == 1 && chars[0] == '.' {
        assert(chars@ =~= current_segment());
        return false;
    }
    if len == 2 && chars[0] == '.' && chars[1] == '.' {
        assert(chars@ =~= parent_segment());
        return false;
    }
    assert(chars@ != current_segment()) by {
        if chars@ == current_segment() {
            assert(current_segment().len() == 1 && current_segment()[0] == '.');
        }
    }
    assert(chars@ != parent_segment()) by {
        if chars@ == parent_segment() {
            assert(parent_segment().len() == 2 && parent_segment()[0] == '.'
                && parent_segment()[1] == '.');
        }
    }
    let mut i: usize = 0;
    while i < len
        invariant
            len == chars.len(),
            i <= len,
            forall|k: int| 0 <= k < i ==> chars@[k] != '/',
        decreases len - i,
    {
        if chars[i] == '/' {
            return false;
        }
        i = i + 1;
    }
    true
}

/// Finds where `chars` divide into stem and extension.
fn find_extension_dot(chars: &Vec<char>) -> (found: Option<usize>)
    ensures
        match found {
            Some(dot) => extension_dot(chars@) == Some(dot as int) && dot < chars.len(),
            None => extension_dot(chars@) is None,
        },
{
    proof {
        lemma_last_dot(chars@);
    }
    match find_last_dot(chars) {
        Some(dot) => {
            let is_parent = chars.len() == 2 && chars[0] == '.' && chars[1] == '.';
            proof {
                if is_parent {
                    assert(chars@ =~= parent_segment());
                } else if chars@ == parent_segment() {
                    assert(parent_segment().len() == 2 && parent_segment()[0] == '.'
                        && parent_segment()[1] == '.');
                }
            }
            if dot > 0 && !is_parent {
                Some(dot)
            } else {
                None
            }
        },
        None => None,
    }
}

/// The extension of the file name `name`, if it has one.
pub fn file_extension(name: &str) -> (extension: Option<String>)
    ensures
        match extension {
            Some(e) => extension_of(name@) == Some(e@),
            None => extension_of(name@) is None,
        },
{
    let chars = chars_of(name);
    match find_extension_dot(&chars) {
        Some(dot) => Some(name.substring_char(dot + 1, chars.len()).to_owned()),
        None => None,
    }
}

/// `name` with its extension replaced by `extension`.
pub fn replace_extension(name: &str, extension: &str) -> (renamed: String)
    ensures
        renamed@ == with_extension(name@, extension@),
{
    let chars = chars_of(name);
    if !spells_file_name(&chars) {
        return name.to_owned();
    }
    let stem = match find_extension_dot(&chars) {
        Some(dot) => name.substring_char(0, dot).to_owned(),
        None => name.to_owned(),
    };
    if extension.is_empty() {
        stem
    } else {
        proof {
            reveal_strlit(".");
            assert("."@ =~= seq!['.']);
        }
        stem.concat(".").concat(extension)
    }
}

/// A path, held as the sequence of its segments from the outermost inwards.
#[derive(Debug)]
pub struct SitePath {
    pub segments: Vec<String>,
}

impl View for SitePath {
    type V = Seq<Seq<char>>;

    open spec fn view(&self) -> Seq<Seq<char>> {
        self.segments@.map_values(|segment: String| segment@)
    }
}

/// One entry met while walking the input directory.
#[derive(Debug)]
pub struct WalkEntry {
    pub path: SitePath,
    pub is_file: bool,
}

/// Why a source path has no output path.
#[derive(Debug)]
pub enum PathError {
    /// The source path does not lie under the input root.
    OutsideInputRoot,
}

/// Whether `entry` is a source document: a regular file whose name has
/// exactly the extension `md`.
pub open spec fn is_markdown_source(entry: WalkEntry) -> bool {
    &&& entry.is_file
    &&& entry.path@.len() > 0
    &&& extension_of(entry.path@.last()) == Some(markdown_extension())
}

/// The paths of the source documents among `entries`, in the order met.
pub open spec fn markdown_sources(entries: Seq<WalkEntry>) -> Seq<SitePath> {
    entries.filter(|entry: WalkEntry| is_markdown_source(entry)).map_values(
        |entry: WalkEntry| entry.path,
    )
}

/// `path` with the extension of its last segment replaced by `html`.
pub open spec fn as_html_path(path: Seq<Seq<char>>) -> Seq<Seq<char>> {
    if path.len() == 0 {
        path
    } else {
        path.drop_last().push(with_extension(path.last(), html_extension()))
    }
}

/// Where the page of the document at `source` goes: the path of `source`
/// relative to `input_root`, under `output_root`, as an HTML file. There is
/// none if `source` does not lie under `input_root`.
pub open spec fn mapped_path(
    source: Seq<Seq<char>>,
    input_root: Seq<Seq<char>>,
    output_root: Seq<Seq<char>>,
) -> Option<Seq<Seq<char>>> {
    if input_root.is_prefix_of(source) {
        Some(as_html_path(output_root + source.skip(input_root.len() as int)))
    } else {
        None
    }
}

/// Decides whether `entry` is a source document.
pub fn is_markdown_file(entry: &WalkEntry) -> (selected: bool)
    ensures
        selected == is_markdown_source(*entry),
{
    let count = entry.path.segments.len();
    if !entry.is_file || count == 0 {
        return false;
    }
    let name = entry.path.segments[count - 1].as_str();
    assert(name@ == entry.path@.last());
    match file_extension(name) {
        Some(extension) => {
            proof {
                reveal_strlit("md");
                assert("md"@ =~= markdown_extension());
            }
            extension == "md".to_owned()
        },
        None => false,
    }
}

/// Selects the source documents among the entries of a directory walk:
/// regular files with the extension `md`, in the order the walk met them.
pub fn collect_markdown_files(entries: Vec<WalkEntry>) -> (files: Vec<SitePath>)
    ensures
        files@ == markdown_sources(entries@),
{
    let ghost selects = |entry: WalkEntry| is_markdown_source(entry);
    let ghost path_of = |entry: WalkEntry| entry.path;
    let mut files: Vec<SitePath> = Vec::new();
    proof {
        reveal(Seq::filter);
        assert(entries@.take(0).filter(selects).map_values(path_of) =~= files@);
    }
    for entry in it: entries
        invariant
            it.seq() == entries@,
            selects == |entry: WalkEntry| is_markdown_source(entry),
            path_of == |entry: WalkEntry| entry.path,
            files@ == entries@.take(it.index()).filter(selects).map_values(path_of),
    {
        proof {
            let seen = entries@.take(it.index());
            assert(entries@.take(it.index() + 1) =~= seen.push(entry));
            seen.lemma_filter_push(entry, selects);
            if selects(entry) {
                assert(seen.filter(selects).push(entry).map_values(path_of) =~= seen.filter(
                    selects,
                ).map_values(path_of).push(entry.path));
            }
        }
        if is_markdown_file(&entry) {
            files.push(entry.path);
        }
    }
    assert(entries@.take(entries@.len() as int) =~= entries@);
    files
}

/// Decides whether every segment of `prefix` opens `path`, in order.
fn starts_with(path: &SitePath, prefix: &SitePath) -> (found: bool)
    ensures
        found == prefix@.is_prefix_of(path@),
{
    let count = prefix.segments.len();
    if count > path.segments.len() {
        return false;
    }
    let mut i: usize = 0;
    while i < count
        invariant
            count == prefix.segments.len(),
            count <= path.segments.len(),
            i <= count,
            forall|k: int| 0 <= k < i ==> prefix@[k] == path@[k],
        decreases count - i,
    {
        if prefix.segments[i] != path.segments[i] {
            assert(prefix@[i as int] != path@.subrange(0, count as int)[i as int]);
            return false;
        }
        i = i + 1;
    }
    assert(prefix@ =~= path@.subrange(0, count as int));
    true
}

/// Computes where the page of the document at `source` is written.
pub fn output_path(source: &SitePath, input_root: &SitePath, output_root: &SitePath) -> (mapped:
    Result<SitePath, PathError>)
    ensures
        match mapped {
            Ok(path) => mapped_path(source@, input_root@, output_root@) == Some(path@),
            Err(PathError::OutsideInputRoot) => mapped_path(source@, input_root@, output_root@)
                is None,
        },
{
    if !starts_with(source, input_root) {
        return Err(PathError::OutsideInputRoot);
    }
    let ghost joined = output_root@ + source@.skip(input_root@.len() as int);
    let mut segments: Vec<String> = Vec::new();
    let mut i: usize = 0;
    while i < output_root.segments.len()
        invariant
            i <= output_root.segments.len(),
            segments@.len() == i,
            forall|k: int| 0 <= k < i ==> (#[trigger] segments@[k])@ == output_root@[k],
        decreases output_root.segments.len() - i,
    {
        segments.push(output_root.segments[i].clone());
        i = i + 1;
    }
    let mut j: usize = input_root.segments.len();
    while j < source.segments.len()
        invariant
            input_root.segments.len() <= j <= source.segments.len(),
            joined == output_root@ + source@.skip(input_root@.len() as int),
            segments@.len() == output_root@.len() + j - input_root@.len(),
            forall|k: int| 0 <= k < segments@.len() ==> (#[trigger] segments@[k])@ == joined[k],
        decreases source.segments.len() - j,
    {
        segments.push(source.segments[j].clone());
        j = j + 1;
    }
    let count = segments.len();
    assert(count == joined.len());
    if count > 0 {
        proof {
            reveal_strlit("html");
            assert("html"@ =~= html_extension());
        }
        let renamed = replace_extension(segments[count - 1].as_str(), "html");
        segments.set(count - 1, renamed);
    }
    let path = SitePath { segments };
    assert(path@ =~= as_html_path(joined));
    Ok(path)
}

/// The segments of `segments`, written one after the other with `/`
/// between them.
pub open spec fn joined(segments: Seq<Seq<char>>) -> Seq<char>
    decreases segments.len(),
{
    if segments.len() == 0 {
        Seq::empty()
    } else if segments.len() == 1 {
        segments[0]
    } else {
        joined(segments.drop_last()) + seq!['/'] + segments.last()
    }
}

/// The name of the file at `file` as seen from `root`: the segments below
/// `root`, joined by `/`. There is none if `file` does not lie under `root`.
pub open spec fn relative_name_of(file: Seq<Seq<char>>, root: Seq<Seq<char>>) -> Option<
    Seq<char>,
> {
    if root.is_prefix_of(file) {
        Some(joined(file.skip(root.len() as int)))
    } else {
        None
    }
}

/// Names the file at `file` relative to `root`, with `/` between segments
/// whatever the platform's separator is.
pub fn relative_name(file: &SitePath, root: &SitePath) -> (name: Option<String>)
    ensures
        match name {
            Some(text) => relative_name_of(file@, root@) == Some(text@),
            None => relative_name_of(file@, root@) is None,
        },
{
    if !starts_with(file, root) {
        return None;
    }
    let start = root.segments.len();
    let count = file.segments.len();
    let ghost rest = file@.skip(start as int);
    let mut name = String::new();
    let mut i: usize = start;
    assert(rest.take(0) =~= Seq::<Seq<char>>::empty());
    while i < count
        invariant
            start <= i <= count,
            count == file.segments.len(),
            start == root.segments.len(),
            rest == file@.skip(start as int),
            name@ == joined(rest.take(i - start)),
        decreases count - i,
    {
        proof {
            let before = rest.take(i - start);
            let after = rest.take(i - start + 1);
            assert(after.last() == file@[i as int]);
            assert(after.drop_last() =~= before);
            if i > start {
                reveal_strlit("/");
                assert("/"@ =~= seq!['/']);
            } else {
                assert(joined(before) =~= Seq::<char>::empty());
                assert(Seq::<char>::empty() + file@[i as int] =~= file@[i as int]);
            }
        }
        if i > start {
            name.append("/");
        }
        name.append(file.segments[i].as_str());
        i = i + 1;
    }
    assert(rest.take(count - start) =~= rest);
    Some(name)
}

/// Discovery and mapping agree on the root: when every entry of a walk
/// lies under `input_root`, every source document that discovery selects
/// has an output path.
pub proof fn lemma_selected_sources_are_mapped(
    entries: Seq<WalkEntry>,
    input_root: Seq<Seq<char>>,
    output_root: Seq<Seq<char>>,
)
    requires
        forall|j: int|
            0 <= j < entries.len() ==> input_root.is_prefix_of((#[trigger] entries[j]).path@),
    ensures
        forall|i: int|
            0 <= i < markdown_sources(entries).len() ==> mapped_path(
                (#[trigger] markdown_sources(entries)[i])@,
                input_root,
                output_root,
            ) is Some,
{
    let selects = |entry: WalkEntry| is_markdown_source(entry);
    let selected = entries.filter(selects);
    assert forall|i: int| 0 <= i < markdown_sources(entries).len() implies mapped_path(
        (#[trigger] markdown_sources(entries)[i])@,
        input_root,
        output_root,
    ) is Some by {
        assert(markdown_sources(entries)[i] == selected[i].path);
        assert(selected.contains(selected[i]));
        entries.lemma_filter_contains_rev(selects, selected[i]);
        let j = choose|j: int| 0 <= j < entries.len() && entries[j] == selected[i];
        assert(input_root.is_prefix_of(entries[j].path@));
    }
}

/// Directory structure is preserved exactly: a document `stem.md` found
/// under `input_root`, inside the directories `directories`, is written as
/// `stem.html` inside the same directories under `output_root`.
pub proof fn lemma_output_mirrors_source(
    input_root: Seq<Seq<char>>,
    output_root: Seq<Seq<char>>,
    directories: Seq<Seq<char>>,
    stem: Seq<char>,
)
    requires
        stem.len() > 0,
        !stem.contains('/'),
    ensures
        mapped_path(
            input_root + directories.push(stem + seq!['.'] + markdown_extension()),
            input_root,
            output_root,
        ) == Some(output_root + directories.push(stem + seq!['.'] + html_extension())),
{
    let name = stem + seq!['.'] + markdown_extension();
    let source = input_root + directories.push(name);
    assert(source.subrange(0, input_root.len() as int) =~= input_root);
    assert(source.skip(input_root.len() as int) =~= directories.push(name));
    let joined = output_root + directories.push(name);
    assert(joined.last() == name);
    assert(joined.drop_last() =~= output_root + directories);
    lemma_extension_of_joined(stem, markdown_extension());
    assert(as_html_path(joined) =~= output_root + directories.push(
        stem + seq!['.'] + html_extension(),
    ));
}

/// A name put together from a stem, a `.` and an extension without `.`
/// divides again at that `.`.
pub proof fn lemma_extension_of_joined(stem: Seq<char>, extension: Seq<char>)
    requires
        stem.len() > 0,
        !stem.contains('/'),
        !extension.contains('.'),
        !extension.contains('/'),
        extension.len() > 0,
    ensures
        names_file(stem + seq!['.'] + extension),
        extension_of(stem + seq!['.'] + extension) == Some(extension),
        stem_of(stem + seq!['.'] + extension) == stem,
{
    let name = stem + seq!['.'] + extension;
    let dot = stem.len() as int;
    lemma_last_dot(name);
    assert(name[dot] == '.');
    assert forall|k: int| dot < k < name.len() implies name[k] != '.' by {
        assert(name[k] == extension[k - dot - 1]);
        assert(extension.contains(extension[k - dot - 1]));
    }
    assert(last_dot(name) == Some(dot));
    assert(name != parent_segment()) by {
        assert(name.len() >= 3);
        assert(parent_segment().len() == 2);
    }
    assert(name != current_segment()) by {
        assert(current_segment().len() == 1);
    }
    assert(!name.contains('/')) by {
        if name.contains('/') {
            let k = choose|k: int| 0 <= k < name.len() && name[k] == '/';
            if k < dot {
                assert(stem[k] == '/');
                assert(stem.contains('/'));
            } else if k > dot {
                assert(extension[k - dot - 1] == '/');
                assert(extension.contains('/'));
            }
        }
    }
    assert(name.subrange(dot + 1, name.len() as int) =~= extension);
    assert(name.subrange(0, dot) =~= stem);
}

} // verus!
