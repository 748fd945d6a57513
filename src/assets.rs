//! Where assets come from: request path normalization, and the compiled
//! asset table that maps normalized paths to content or to a directory's
//! index.

use vstd::prelude::*;
use vstd::string::{StrSliceExecFns, StringExecFns};

use crate::metadata::Metadata;

verus! {

/// How many directory redirects one resolution follows at most, so that a
/// table whose redirects form a cycle still ends.
pub const MAX_REDIRECTS: usize = 8;

/// The relative path that a request path names: one leading `/` dropped,
/// and the index file name appended when it names a directory (it is empty
/// or ends in `/`).
pub open spec fn normalize_path(path: Seq<char>, index: Seq<char>) -> Seq<char> {
    let rel = if path.len() > 0 && path[0] == '/' {
        path.skip(1)
    } else {
        path
    };
    if rel.len() == 0 || rel.last() == '/' {
        rel + index
    } else {
        rel
    }
}

/// Normalizes a request path, with `index` as the name of a directory's index file.
pub fn normalize_path_with_index(path: &str, index: &str) -> (r: String)
    ensures
        r@ == normalize_path(path@, index@),
{
    let n = path.unicode_len();
    let rel: &str = if n > 0 && path.get_char(0) == '/' {
        path.substring_char(1, n)
    } else {
        path
    };
    let m = rel.unicode_len();
    let mut out = <String as StringExecFns>::from_str(rel);
    if m == 0 || rel.get_char(m - 1) == '/' {
        out.append(index);
    }
    proof {
        if n > 0 && path@[0] == '/' {
            assert(rel@ =~= path@.skip(1));
        }
    }
    out
}

/// A directory path and a path inside it, through its index file, name the
/// same resource: `/` and `index.html`, `docs/` and `docs/index.html`.
pub proof fn lemma_directory_is_index(
    entries: Seq<TableEntry>,
    dir: Seq<char>,
    index: Seq<char>,
    hops: nat,
)
    requires
        dir.len() == 0 || dir.last() == '/',
        index.len() > 0,
        index[0] != '/',
        index.last() != '/',
    ensures
        normalize_path(dir, index) == normalize_path(dir + index, index),
        dir.len() == 1 ==> normalize_path(dir, index) == normalize_path(index, index),
        resolve_in(entries, normalize_path(dir, index), hops) == resolve_in(
            entries,
            normalize_path(dir + index, index),
            hops,
        ),
{
    let rel = if dir.len() > 0 && dir[0] == '/' {
        dir.skip(1)
    } else {
        dir
    };
    let full = dir + index;
    assert(full.last() == index.last());
    if dir.len() > 0 && dir[0] == '/' {
        assert(full[0] == '/');
        assert(full.skip(1) =~= rel + index);
    } else if dir.len() > 0 {
        assert(full[0] == dir[0]);
    } else {
        assert(full =~= index);
    }
    if dir.len() == 1 {
        assert(dir[0] == '/');
        assert(rel =~= Seq::<char>::empty());
        assert(rel + index =~= index);
    }
}

/// An asset: its bytes and what is known of them.
pub struct Asset {
    pub content: Vec<u8>,
    pub metadata: Metadata,
}

/// What a path of the table leads to.
pub enum Entry {
    /// The asset itself.
    File(Asset),
    /// Another path of the table: a directory's index file.
    Redirect(String),
}

/// One path of the table and what it leads to.
pub struct TableEntry {
    pub path: String,
    pub entry: Entry,
}

/// Why a path did not resolve.
#[derive(Clone, Copy, Debug, PartialEq, Eq, Structural)]
pub enum ResolveError {
    /// No asset at that path, directly or through redirects.
    NotFound,
    /// The source failed otherwise.
    Other,
}

/// The position of the first entry for `path`, searching from `i` on.
pub open spec fn find_from(entries: Seq<TableEntry>, path: Seq<char>, i: int) -> Option<int>
    decreases entries.len() - i,
{
    if i < 0 || i >= entries.len() {
        None
    } else if entries[i].path@ == path {
        Some(i)
    } else {
        find_from(entries, path, i + 1)
    }
}

/// The position of the first entry for `path`.
pub open spec fn find_entry(entries: Seq<TableEntry>, path: Seq<char>) -> Option<int> {
    find_from(entries, path, 0)
}

/// The position of the file that `path` leads to, following at most `hops`
/// redirects; nothing when there is none.
pub open spec fn resolve_in(entries: Seq<TableEntry>, path: Seq<char>, hops: nat) -> Option<int>
    decreases hops,
{
    match find_entry(entries, path) {
        None => None,
        Some(i) => match entries[i].entry {
            Entry::File(_) => Some(i),
            Entry::Redirect(target) => if hops == 0 {
                None
            } else {
                resolve_in(entries, target@, (hops - 1) as nat)
            },
        },
    }
}

/// A path whose entry redirects (as a directory without its trailing `/`
/// does to its index file) resolves like the redirect's target, with one
/// redirect fewer to spare.
pub proof fn lemma_redirect_resolves_as_target(
    entries: Seq<TableEntry>,
    path: Seq<char>,
    i: int,
    target: String,
    hops: nat,
)
    requires
        find_entry(entries, path) == Some(i),
        entries[i].entry == Entry::Redirect(target),
        hops > 0,
    ensures
        resolve_in(entries, path, hops) == resolve_in(entries, target@, (hops - 1) as nat),
{
}

/// Where a directory's entry redirects: its index file (the root directory,
/// whose path is empty, to the index file itself).
pub open spec fn index_target(dir: Seq<char>, index: Seq<char>) -> Seq<char> {
    if dir.len() == 0 {
        index
    } else {
        dir + seq!['/'] + index
    }
}

/// The table entry of a directory that holds an index file: a redirect to it.
pub fn directory_entry(dir: String, index: &str) -> (r: TableEntry)
    ensures
        r.path@ == dir@,
        r.entry matches Entry::Redirect(t) && t@ == index_target(dir@, index@),
{
    let mut target = <String as StringExecFns>::from_str(dir.as_str());
    if dir.as_str().unicode_len() > 0 {
        target.append("/");
        target.append(index);
        proof {
            reveal_strlit("/");
        }
    } else {
        target.append(index);
    }
    TableEntry { path: dir, entry: Entry::Redirect(target) }
}

/// A directory named without its trailing `/` resolves like the directory
/// named with it, when its table entry is the redirect `directory_entry`
/// makes: `/d`, `/d/` and `/d/index.html` reach the same asset.
pub proof fn lemma_directory_without_slash(
    entries: Seq<TableEntry>,
    dir: Seq<char>,
    index: Seq<char>,
    i: int,
    hops: nat,
)
    requires
        dir.len() > 0,
        dir[0] != '/',
        dir.last() != '/',
        index.len() > 0,
        index[0] != '/',
        index.last() != '/',
        find_entry(entries, dir) == Some(i),
        entries[i].entry matches Entry::Redirect(t) && t@ == index_target(dir, index),
        hops > 0,
    ensures
        resolve_in(entries, normalize_path(seq!['/'] + dir, index), hops) == resolve_in(
            entries,
            normalize_path(seq!['/'] + dir + seq!['/'], index),
            (hops - 1) as nat,
        ),
{
    let p = seq!['/'] + dir;
    assert(p.skip(1) =~= dir);
    assert(p.last() == dir.last());
    let q = seq!['/'] + dir + seq!['/'];
    assert(q.skip(1) =~= dir + seq!['/']);
    assert(normalize_path(q, index) =~= dir + seq!['/'] + index);
}

proof fn lemma_find_from_bounds(entries: Seq<TableEntry>, path: Seq<char>, i: int)
    ensures
        find_from(entries, path, i) matches Some(j) ==> 0 <= j < entries.len() && entries[j].path@
            == path,
    decreases entries.len() - i,
{
    if 0 <= i < entries.len() && entries[i].path@ != path {
        lemma_find_from_bounds(entries, path, i + 1);
    }
}

/// The read-only table of compiled assets.
///
/// Its paths are strings, and no proof reaches into a std map keyed by
/// strings, so the table keeps its entries in a vector and looks a path up
/// at its first entry: a later entry for the same path is never reached.
pub struct AssetTable {
    entries: Vec<TableEntry>,
    index: String,
}

impl AssetTable {
    /// The table's entries, in order.
    pub closed spec fn entries(&self) -> Seq<TableEntry> {
        self.entries@
    }

    /// The name of a directory's index file.
    pub closed spec fn index_name(&self) -> Seq<char> {
        self.index@
    }

    /// A table of `entries`, whose directories have index files named
    /// `index`. Where two entries share a path, the first one counts.
    pub fn new(index: String, entries: Vec<TableEntry>) -> (r: AssetTable)
        ensures
            r.entries() == entries@,
            r.index_name() == index@,
    {
        AssetTable { entries, index }
    }

    /// The name of a directory's index file.
    pub fn index(&self) -> (r: &str)
        ensures
            r@ == self.index_name(),
    {
        self.index.as_str()
    }

    /// The position of the first entry for `path`.
    fn find(&self, path: &String) -> (r: Option<usize>)
        ensures
            match r {
                Some(i) => find_entry(self.entries(), path@) == Some(i as int),
                None => find_entry(self.entries(), path@) is None,
            },
    {
        let mut i: usize = 0;
        while i < self.entries.len()
            invariant
                i <= self.entries@.len(),
                find_entry(self.entries(), path@) == find_from(self.entries(), path@, i as int),
            decreases self.entries@.len() - i,
        {
            if self.entries[i].path == *path {
                return Some(i);
            }
            i = i + 1;
        }
        None
    }

    /// Resolves a request path: normalizes it, then follows directory
    /// redirects, at most `MAX_REDIRECTS` of them, to an asset.
    pub fn resolve(&self, path: &str) -> (r: Result<&Asset, ResolveError>)
        ensures
            match resolve_in(
                self.entries(),
                normalize_path(path@, self.index_name()),
                MAX_REDIRECTS as nat,
            ) {
                Some(i) => r matches Ok(a) && self.entries()[i].entry == Entry::File(*a),
                None => r == Err::<&Asset, ResolveError>(ResolveError::NotFound),
            },
    {
        let target = normalize_path_with_index(path, self.index.as_str());
        self.resolve_normalized(&target)
    }

    /// Resolves a path that is already normalized (as the request flow hands
    /// it out), following at most `MAX_REDIRECTS` directory redirects.
    pub fn resolve_normalized(&self, path: &String) -> (r: Result<&Asset, ResolveError>)
        ensures
            match resolve_in(self.entries(), path@, MAX_REDIRECTS as nat) {
                Some(i) => r matches Ok(a) && self.entries()[i].entry == Entry::File(*a),
                None => r == Err::<&Asset, ResolveError>(ResolveError::NotFound),
            },
    {
        let mut current: &String = path;
        let mut hops: usize = MAX_REDIRECTS;
        loop
            invariant
                hops <= MAX_REDIRECTS,
                resolve_in(self.entries(), path@, MAX_REDIRECTS as nat) == resolve_in(
                    self.entries(),
                    current@,
                    hops as nat,
                ),
            decreases hops,
        {
            proof {
                lemma_find_from_bounds(self.entries(), current@, 0);
            }
            match self.find(current) {
                None => {
                    return Err(ResolveError::NotFound);
                },
                Some(i) => {
                    match &self.entries[i].entry {
                        Entry::File(asset) => {
                            return Ok(asset);
                        },
                        Entry::Redirect(next) => {
                            if hops == 0 {
                                return Err(ResolveError::NotFound);
                            }
                            current = next;
                            hops = hops - 1;
                        },
                    }
                },
            }
        }
    }
}

} // verus!
