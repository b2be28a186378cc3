//! The files that a pack manages: where each comes from, where it goes, and
//! the collection of them, which holds one file per install path.

use crate::order::{
    compare_str, flip, int_cmp, is_total_order, lemma_lex_equal, lemma_lex_flip, lemma_lex_trans,
    lemma_str_cmp_equal, lemma_str_cmp_flip, lemma_str_cmp_trans, lex_cmp, str_cmp,
};
use relative_path::{Component, RelativePath, RelativePathBuf};
use std::cmp::Ordering;
use vstd::prelude::*;
use vstd::string::StringExecFns;

verus! {

#[verifier::external_type_specification]
#[verifier::external_body]
pub struct ExUrl(url::Url);

#[verifier::external_type_specification]
#[verifier::external_body]
pub struct ExUrlParseError(url::ParseError);

#[verifier::external_type_specification]
#[verifier::external_body]
pub struct ExRelativePathBuf(RelativePathBuf);

/// Relies on the `Clone` impl of `url::Url`; nothing is assumed of the copy.
pub assume_specification[ <url::Url as Clone>::clone ](u: &url::Url) -> url::Url;

/// Relies on the `Clone` impl of `relative_path::RelativePathBuf`; nothing is
/// assumed of the copy.
pub assume_specification[ <RelativePathBuf as Clone>::clone ](p: &RelativePathBuf) -> RelativePathBuf;

/// Whether `url::Url::parse` accepts `text`.
pub uninterp spec fn url_parses(text: Seq<char>) -> bool;

/// Relies on `url::Url::parse`: whether it succeeds depends on the text
/// alone.
#[verifier::external_body]
fn parse_url(text: &str) -> (r: Result<url::Url, url::ParseError>)
    ensures
        r is Ok <==> url_parses(text@),
{
    url::Url::parse(text)
}

/// Relies on `From<String> for relative_path::RelativePathBuf`, which keeps
/// the text as it is.
#[verifier::external_body]
fn relative_path_from(text: String) -> (r: RelativePathBuf) {
    RelativePathBuf::from(text)
}

/// Whether a file is needed on the client, the server, or both.
#[derive(PartialEq, Eq, Structural, Debug, Clone, Copy, Hash, PartialOrd, Ord)]
pub enum Side {
    /// Client side
    Client,
    /// Server side
    Server,
    /// Both server and client side
    Both,
}

impl Default for Side {
    /// Both sides.
    fn default() -> (r: Side)
        ensures
            r == Side::Both,
    {
        Side::Both
    }
}

/// Where a file comes from.
///
/// Sources order by kind in declaration order, then by their fields.
#[derive(PartialEq, Eq, Debug, Clone, Hash, PartialOrd, Ord)]
pub enum Source {
    /// A raw URL, with no version management
    Url {
        /// Where to download the file from
        url: url::Url,
        /// The BLAKE3 digest of the file
        blake3: [u8; 32],
    },
    /// A file of the repository that holds the manifest
    Path {
        /// The file's path, relative to the manifest's directory
        path: RelativePathBuf,
        /// The BLAKE3 digest of the file
        blake3: [u8; 32],
    },
    /// A git repository
    Git {
        /// The repository's URL
        url: url::Url,
        /// The branch to follow; the default branch when absent
        branch: Option<String>,
    },
    /// A repository on a supported forge (`github:user/project`, ...)
    Slug {
        /// The slug
        slug: String,
        /// The branch to follow; the default branch when absent
        branch: Option<String>,
    },
    /// The releases page of a repository on a supported forge. The latest
    /// release with exactly one artifact matching `artifact_regex` is used.
    SlugReleases {
        /// The slug
        slug: String,
        /// Matches the artifact's name
        artifact_regex: String,
        /// Matches the names of the releases to consider
        release_regex: Option<String>,
    },
    /// A Modrinth mod
    Modrinth {
        /// The mod's slug
        slug: String,
    },
    /// A Curseforge mod
    Curseforge {
        /// The mod's slug
        slug: String,
    },
}

/// The example download of a new manifest: the URL
/// `https://example.org/mods/MyAwesomeMod-1.2.3.jar` with an all-zero
/// digest, or, should the URL parser refuse that text, the same file as a
/// repository path with an all-zero digest.
pub open spec fn is_example_source(s: Source) -> bool {
    if url_parses("https://example.org/mods/MyAwesomeMod-1.2.3.jar"@) {
        s matches Source::Url { blake3, .. } && blake3@ == seq![0u8; 32]
    } else {
        s matches Source::Path { blake3, .. } && blake3@ == seq![0u8; 32]
    }
}

impl Default for Source {
    /// The example download by URL with an all-zero digest.
    fn default() -> (r: Source)
        ensures
            is_example_source(r),
    {
        let zero = [0u8; 32];
        assert(zero@ =~= seq![0u8; 32]);
        match parse_url("https://example.org/mods/MyAwesomeMod-1.2.3.jar") {
            Ok(url) => Source::Url { url, blake3: zero },
            Err(_) => Source::Path {
                path: relative_path_from(String::from_str("mods/MyAwesomeMod-1.2.3.jar")),
                blake3: zero,
            },
        }
    }
}

/// One component of a relative path.
#[derive(PartialEq, Eq, Debug, Clone, Hash)]
pub enum PathPart {
    /// `.`
    CurDir,
    /// `..`
    ParentDir,
    /// Any other component
    Normal(String),
}

/// What a `PathPart` denotes.
pub enum PartModel {
    CurDir,
    ParentDir,
    Normal(Seq<char>),
}

impl View for PathPart {
    type V = PartModel;

    open spec fn view(&self) -> PartModel {
        match self {
            PathPart::CurDir => PartModel::CurDir,
            PathPart::ParentDir => PartModel::ParentDir,
            PathPart::Normal(s) => PartModel::Normal(s@),
        }
    }
}

pub open spec fn parts_view(parts: Seq<PathPart>) -> Seq<PartModel> {
    parts.map_values(|p: PathPart| p@)
}

/// The components of the relative path whose text is `path`, as
/// `relative_path` splits it.
pub uninterp spec fn path_components(path: Seq<char>) -> Seq<PartModel>;

/// Relies on `relative_path::RelativePath::components`: the components of
/// the path, in order, each kept as its variant and its text.
#[verifier::external_body]
fn components_of(path: &str) -> (r: Vec<PathPart>)
    ensures
        parts_view(r@) == path_components(path@),
{
    RelativePath::new(path).components().map(
        |c| match c {
            Component::CurDir => PathPart::CurDir,
            Component::ParentDir => PathPart::ParentDir,
            Component::Normal(name) => PathPart::Normal(name.to_string()),
        },
    ).collect()
}

pub open spec fn part_rank(p: PartModel) -> int {
    match p {
        PartModel::CurDir => 0,
        PartModel::ParentDir => 1,
        PartModel::Normal(_) => 2,
    }
}

/// Components order `.` first, then `..`, then the others by their text.
pub open spec fn part_cmp(a: PartModel, b: PartModel) -> Ordering {
    match (a, b) {
        (PartModel::Normal(x), PartModel::Normal(y)) => str_cmp(x, y),
        _ => int_cmp(part_rank(a), part_rank(b)),
    }
}

/// Paths order lexicographically by their components.
pub open spec fn path_cmp(a: Seq<PartModel>, b: Seq<PartModel>) -> Ordering {
    lex_cmp(a, b, |x: PartModel, y: PartModel| part_cmp(x, y))
}

proof fn lemma_part_cmp_total()
    ensures
        is_total_order(|x: PartModel, y: PartModel| part_cmp(x, y)),
{
    let c = |x: PartModel, y: PartModel| part_cmp(x, y);
    assert forall|a: PartModel, b: PartModel|
        (#[trigger] c(a, b) == Ordering::Equal) == (a == b) by {
        if a is Normal && b is Normal {
            lemma_str_cmp_equal(a->Normal_0, b->Normal_0);
        }
    }
    assert forall|a: PartModel, b: PartModel| #[trigger] c(b, a) == flip(c(a, b)) by {
        if a is Normal && b is Normal {
            lemma_str_cmp_flip(a->Normal_0, b->Normal_0);
        }
    }
    assert forall|a: PartModel, b: PartModel, d: PartModel|
        #[trigger] c(a, b) == Ordering::Less && #[trigger] c(b, d) == Ordering::Less implies c(a, d)
            == Ordering::Less by {
        if a is Normal && b is Normal && d is Normal {
            lemma_str_cmp_trans(a->Normal_0, b->Normal_0, d->Normal_0);
        }
    }
}

/// Path order says `Equal` exactly of equal component sequences.
pub proof fn lemma_path_cmp_equal(a: Seq<PartModel>, b: Seq<PartModel>)
    ensures
        (path_cmp(a, b) == Ordering::Equal) == (a == b),
{
    lemma_part_cmp_total();
    lemma_lex_equal(a, b, |x: PartModel, y: PartModel| part_cmp(x, y));
}

/// Swapping two paths flips their comparison.
pub proof fn lemma_path_cmp_flip(a: Seq<PartModel>, b: Seq<PartModel>)
    ensures
        path_cmp(b, a) == flip(path_cmp(a, b)),
{
    lemma_part_cmp_total();
    lemma_lex_flip(a, b, |x: PartModel, y: PartModel| part_cmp(x, y));
}

/// Path order is transitive.
pub proof fn lemma_path_cmp_trans(a: Seq<PartModel>, b: Seq<PartModel>, d: Seq<PartModel>)
    requires
        path_cmp(a, b) == Ordering::Less,
        path_cmp(b, d) == Ordering::Less,
    ensures
        path_cmp(a, d) == Ordering::Less,
{
    lemma_part_cmp_total();
    lemma_lex_trans(a, b, d, |x: PartModel, y: PartModel| part_cmp(x, y));
}

fn compare_part(a: &PathPart, b: &PathPart) -> (r: Ordering)
    ensures
        r == part_cmp(a@, b@),
{
    match (a, b) {
        (PathPart::Normal(x), PathPart::Normal(y)) => compare_str(x.as_str(), y.as_str()),
        (PathPart::CurDir, PathPart::CurDir) => Ordering::Equal,
        (PathPart::ParentDir, PathPart::ParentDir) => Ordering::Equal,
        (PathPart::CurDir, _) => Ordering::Less,
        (_, PathPart::CurDir) => Ordering::Greater,
        (PathPart::ParentDir, _) => Ordering::Less,
        (_, PathPart::ParentDir) => Ordering::Greater,
    }
}

/// Three-way comparison of two component sequences in path order.
fn compare_parts(a: &Vec<PathPart>, b: &Vec<PathPart>) -> (r: Ordering)
    ensures
        r == path_cmp(parts_view(a@), parts_view(b@)),
{
    let ghost va = parts_view(a@);
    let ghost vb = parts_view(b@);
    let n = a.len();
    let m = b.len();
    let mut i: usize = 0;
    assert(va.skip(0) =~= va);
    assert(vb.skip(0) =~= vb);
    while i < n && i < m
        invariant
            n == a@.len(),
            m == b@.len(),
            va == parts_view(a@),
            vb == parts_view(b@),
            i <= n,
            i <= m,
            path_cmp(va, vb) == path_cmp(va.skip(i as int), vb.skip(i as int)),
        decreases n - i,
    {
        let o = compare_part(&a[i], &b[i]);
        assert(va.skip(i as int)[0] == a@[i as int]@);
        assert(vb.skip(i as int)[0] == b@[i as int]@);
        match o {
            Ordering::Equal => {},
            _ => {
                return o;
            },
        }
        assert(va.skip(i as int).drop_first() =~= va.skip(i + 1));
        assert(vb.skip(i as int).drop_first() =~= vb.skip(i + 1));
        i = i + 1;
    }
    if i < n {
        Ordering::Greater
    } else if i < m {
        Ordering::Less
    } else {
        Ordering::Equal
    }
}

/// A file that the pack installs.
#[derive(PartialEq, Eq, Debug, Clone, Hash)]
pub struct ManagedFile {
    /// The name of the mod or file
    pub name: Option<String>,
    /// A description of the mod
    pub description: Option<String>,
    /// The name of the file to download
    pub filename: String,
    /// Whether the file is installed in the pack's development profile
    pub devel: bool,
    /// Where the file goes, relative to the game directory
    pub path: String,
    /// Whether the file is needed on the client, the server, or both
    pub side: Side,
    /// Where the file comes from
    pub source: Source,
}

/// The key that identifies a file's slot in a pack: its install path.
pub open spec fn path_key(f: ManagedFile) -> Seq<PartModel> {
    path_components(f.path@)
}

/// The example file of a new manifest: `mods/MyAwesomeMod.jar`, installed
/// on both sides and in the development profile, from the example source.
pub open spec fn is_example_file(f: ManagedFile) -> bool {
    &&& f.path@ == "mods/MyAwesomeMod.jar"@
    &&& f.filename@ == "My Awesome Mod.jar"@
    &&& f.devel
    &&& f.side == Side::Both
    &&& f.name matches Some(n) && n@ == "My totally awesome mode"@
    &&& f.description matches Some(d) && d@ == "It makes trees blue"@
    &&& is_example_source(f.source)
}

impl Default for ManagedFile {
    /// An example mod, installed at `mods/MyAwesomeMod.jar` on both sides.
    fn default() -> (r: ManagedFile)
        ensures
            is_example_file(r),
    {
        ManagedFile {
            name: Some(String::from_str("My totally awesome mode")),
            description: Some(String::from_str("It makes trees blue")),
            filename: String::from_str("My Awesome Mod.jar"),
            devel: true,
            path: String::from_str("mods/MyAwesomeMod.jar"),
            side: Side::default(),
            source: Source::default(),
        }
    }
}

impl ManagedFile {
    /// Compares two files by install path alone, component by component.
    pub fn compare(&self, other: &ManagedFile) -> (r: Ordering)
        ensures
            r == path_cmp(path_key(*self), path_key(*other)),
            (r == Ordering::Equal) == (path_key(*self) == path_key(*other)),
    {
        let a = components_of(self.path.as_str());
        let b = components_of(other.path.as_str());
        proof {
            lemma_path_cmp_equal(path_key(*self), path_key(*other));
        }
        compare_parts(&a, &b)
    }
}

/// Files sorted strictly by path: so each path occurs at most once.
pub open spec fn sorted_by_path(files: Seq<ManagedFile>) -> bool {
    forall|i: int, j: int|
        0 <= i < j < files.len() ==> path_cmp(path_key(#[trigger] files[i]), path_key(
            #[trigger] files[j],
        )) == Ordering::Less
}

/// Some file of `files` has path key `k`.
pub open spec fn has_path(files: Seq<ManagedFile>, k: Seq<PartModel>) -> bool {
    exists|i: int| 0 <= i < files.len() && path_key(#[trigger] files[i]) == k
}

/// `e` is in `input` and no later file of `input` has its path.
pub open spec fn last_of_its_path(input: Seq<ManagedFile>, e: ManagedFile) -> bool {
    exists|j: int|
        0 <= j < input.len() && input[j] == e && forall|t: int|
            j < t < input.len() ==> path_key(#[trigger] input[t]) != path_key(e)
}

/// `out` is what collecting `input` gives: sorted strictly by path, holding
/// a file for every path of `input`, and for each path the last file of
/// `input` with it.
pub open spec fn collected(input: Seq<ManagedFile>, out: Seq<ManagedFile>) -> bool {
    &&& sorted_by_path(out)
    &&& forall|j: int| 0 <= j < input.len() ==> has_path(out, path_key(#[trigger] input[j]))
    &&& forall|i: int| 0 <= i < out.len() ==> last_of_its_path(input, #[trigger] out[i])
}

/// Two files with the same install path take one slot: collecting them
/// keeps the later one alone.
pub proof fn lemma_same_path_one_slot(input: Seq<ManagedFile>, out: Seq<ManagedFile>)
    requires
        collected(input, out),
        input.len() == 2,
        input[0].path@ == input[1].path@,
    ensures
        out.len() == 1,
        out[0] == input[1],
{
    let k = path_key(input[1]);
    lemma_path_cmp_equal(k, k);
    assert(has_path(out, path_key(input[0])));
    assert forall|i: int| 0 <= i < out.len() implies #[trigger] out[i] == input[1] by {
        assert(last_of_its_path(input, out[i]));
        let j = choose|j: int|
            0 <= j < input.len() && input[j] == out[i] && forall|t: int|
                j < t < input.len() ==> path_key(#[trigger] input[t]) != path_key(out[i]);
        if j == 0 {
            assert(path_key(input[1]) == path_key(out[i]));
        }
    }
    if out.len() > 1 {
        assert(out[0] == input[1] && out[1] == input[1]);
        assert(path_cmp(path_key(out[0]), path_key(out[1])) == Ordering::Less);
    }
}

/// The managed files of a pack: one file per path, in ascending path order.
#[derive(PartialEq, Eq, Debug, Clone, Hash)]
pub struct ManagedFiles {
    files: Vec<ManagedFile>,
}

impl View for ManagedFiles {
    type V = Seq<ManagedFile>;

    closed spec fn view(&self) -> Seq<ManagedFile> {
        self.files@
    }
}

impl ManagedFiles {
    /// The collection's invariant: sorted strictly by path.
    pub open spec fn wf(&self) -> bool {
        sorted_by_path(self@)
    }

    /// An empty collection.
    pub fn new() -> (r: ManagedFiles)
        ensures
            r.wf(),
            r@ == Seq::<ManagedFile>::empty(),
    {
        ManagedFiles { files: Vec::new() }
    }

    /// The number of files.
    pub fn len(&self) -> (r: usize)
        ensures
            r == self@.len(),
    {
        self.files.len()
    }

    /// The files, in ascending path order.
    pub fn files(&self) -> (r: &Vec<ManagedFile>)
        ensures
            r@ == self@,
    {
        &self.files
    }

    /// Collects `files` into slots by path; where several files share a
    /// path, the last of them is kept.
    pub fn from_files(files: Vec<ManagedFile>) -> (r: ManagedFiles)
        ensures
            r.wf(),
            collected(files@, r@),
    {
        let ghost input = files@;
        let mut rest = files;
        let mut out = ManagedFiles::new();
        let mut i: usize = 0;
        let n = rest.len();
        while rest.len() > 0
            invariant
                n == input.len(),
                i + rest@.len() == n,
                rest@ == input.skip(i as int),
                out.wf(),
                collected(input.take(i as int), out@),
            decreases rest@.len(),
        {
            let f = rest.remove(0);
            let ghost prev = out@;
            let ghost pre = input.take(i as int);
            let ghost post = input.take(i + 1);
            assert(f == input[i as int]);
            out.insert(f);
            proof {
                let now = out@;
                assert forall|j: int| 0 <= j < post.len() implies has_path(now, path_key(#[trigger] post[j])) by {
                    if j == i {
                        let t = choose|t: int| 0 <= t < now.len() && now[t] == f;
                        assert(path_key(now[t]) == path_key(post[j]));
                    } else {
                        assert(post[j] == pre[j]);
                        assert(has_path(prev, path_key(pre[j])));
                        let t = choose|t: int| 0 <= t < prev.len() && path_key(#[trigger] prev[t]) == path_key(pre[j]);
                        if path_key(prev[t]) == path_key(f) {
                            let u = choose|u: int| 0 <= u < now.len() && now[u] == f;
                            assert(path_key(now[u]) == path_key(post[j]));
                        } else {
                            assert(now.contains(prev[t]));
                            let u = choose|u: int| 0 <= u < now.len() && now[u] == prev[t];
                            assert(path_key(now[u]) == path_key(post[j]));
                        }
                    }
                }
                assert forall|e: int| 0 <= e < now.len() implies last_of_its_path(post, #[trigger] now[e]) by {
                    if now[e] == f {
                        assert(post[i as int] == f);
                    } else {
                        let u = choose|u: int| 0 <= u < prev.len() && prev[u] == now[e];
                        assert(last_of_its_path(pre, prev[u]));
                        let j = choose|j: int|
                            0 <= j < pre.len() && pre[j] == prev[u] && forall|t: int|
                                j < t < pre.len() ==> path_key(#[trigger] pre[t]) != path_key(prev[u]);
                        assert(post[j] == pre[j]);
                        assert forall|t: int| j < t < post.len() implies path_key(#[trigger] post[t]) != path_key(now[e]) by {
                            if t < i {
                                assert(post[t] == pre[t]);
                            }
                        }
                    }
                }
            }
            i = i + 1;
            assert(rest@ =~= input.skip(i as int));
        }
        assert(input.take(n as int) =~= input);
        out
    }

    /// Puts `f` in the slot of its path: it replaces the file of the same
    /// path, if there is one, and is otherwise added in path order.
    pub fn insert(&mut self, f: ManagedFile)
        requires
            old(self).wf(),
        ensures
            final(self).wf(),
            has_path(old(self)@, path_key(f)) ==> final(self)@.len() == old(self)@.len(),
            !has_path(old(self)@, path_key(f)) ==> final(self)@.len() == old(self)@.len() + 1,
            exists|i: int| 0 <= i < final(self)@.len() && final(self)@[i] == f,
            forall|i: int|
                0 <= i < final(self)@.len() ==> #[trigger] final(self)@[i] == f || (path_key(
                    final(self)@[i],
                ) != path_key(f) && old(self)@.contains(final(self)@[i])),
            forall|j: int|
                0 <= j < old(self)@.len() && path_key(#[trigger] old(self)@[j]) != path_key(f)
                    ==> final(self)@.contains(old(self)@[j]),
    {
        let ghost k = path_key(f);
        let key = components_of(f.path.as_str());
        let n = self.files.len();
        let mut p: usize = 0;
        let mut found = false;
        while p < n
            invariant_except_break
                !found,
            invariant
                n == self.files@.len(),
                self.wf(),
                p <= n,
                parts_view(key@) == k,
                k == path_key(f),
                forall|t: int|
                    0 <= t < p ==> path_cmp(path_key(#[trigger] self.files@[t]), k)
                        == Ordering::Less,
            ensures
                p <= n,
                forall|t: int|
                    0 <= t < p ==> path_cmp(path_key(#[trigger] self.files@[t]), k)
                        == Ordering::Less,
                found ==> p < n && path_key(self.files@[p as int]) == k,
                !found && p < n ==> path_cmp(path_key(self.files@[p as int]), k)
                    == Ordering::Greater,
            decreases n - p,
        {
            let other = components_of(self.files[p].path.as_str());
            match compare_parts(&other, &key) {
                Ordering::Less => {
                    p = p + 1;
                },
                Ordering::Equal => {
                    proof {
                        lemma_path_cmp_equal(path_key(self.files@[p as int]), k);
                    }
                    found = true;
                    break ;
                },
                Ordering::Greater => {
                    break ;
                },
            }
        }
        let ghost before = self.files@;
        proof {
            lemma_path_cmp_equal(k, k);
            assert forall|t: int| 0 <= t < before.len() && path_key(#[trigger] before[t]) == k implies t
                == p && found by {
                if t > p {
                    assert(path_cmp(path_key(before[p as int]), path_key(before[t])) == Ordering::Less);
                } else if t == p && !found {
                    assert(path_cmp(path_key(before[p as int]), k) == Ordering::Greater);
                }
            }
        }
        if found {
            self.files.set(p, f);
            proof {
                let after = self.files@;
                assert(after[p as int] == f);
                assert forall|i: int, j: int| 0 <= i < j < after.len() implies path_cmp(
                    path_key(#[trigger] after[i]),
                    path_key(#[trigger] after[j]),
                ) == Ordering::Less by {
                    assert(path_key(after[i]) == path_key(before[i]));
                    assert(path_key(after[j]) == path_key(before[j]));
                }
                assert forall|i: int| 0 <= i < after.len() implies #[trigger] after[i] == f || (
                path_key(after[i]) != path_key(f) && before.contains(after[i])) by {
                    if i != p {
                        assert(after[i] == before[i]);
                    }
                }
                assert forall|j: int|
                    0 <= j < before.len() && path_key(#[trigger] before[j]) != path_key(f)
                        implies after.contains(before[j]) by {
                    assert(after[j] == before[j]);
                }
            }
        } else {
            self.files.insert(p, f);
            proof {
                let after = self.files@;
                assert(after[p as int] == f);
                assert forall|i: int, j: int| 0 <= i < j < after.len() implies path_cmp(
                    path_key(#[trigger] after[i]),
                    path_key(#[trigger] after[j]),
                ) == Ordering::Less by {
                    if j < p {
                        assert(after[i] == before[i] && after[j] == before[j]);
                    } else if j == p {
                        assert(after[i] == before[i]);
                    } else if i == p {
                        assert(after[j] == before[j - 1]);
                        lemma_path_cmp_flip(path_key(before[p as int]), k);
                        if j - 1 > p {
                            lemma_path_cmp_trans(k, path_key(before[p as int]), path_key(before[j - 1]));
                        }
                    } else if i < p {
                        assert(after[i] == before[i] && after[j] == before[j - 1]);
                    } else {
                        assert(after[i] == before[i - 1] && after[j] == before[j - 1]);
                    }
                }
                assert forall|i: int| 0 <= i < after.len() implies #[trigger] after[i] == f || (
                path_key(after[i]) != path_key(f) && before.contains(after[i])) by {
                    if i < p {
                        assert(after[i] == before[i]);
                    } else if i > p {
                        assert(after[i] == before[i - 1]);
                    }
                }
                assert forall|j: int|
                    0 <= j < before.len() && path_key(#[trigger] before[j]) != path_key(f)
                        implies after.contains(before[j]) by {
                    if j < p {
                        assert(after[j] == before[j]);
                    } else {
                        assert(after[j + 1] == before[j]);
                    }
                }
            }
        }
    }
}

} // verus!
