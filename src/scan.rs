use vstd::prelude::*;
use vstd::seq_lib::lemma_multiset_commutative;
use crate::classify::{
    LineKind,
    classify_line,
    count_kind,
    lemma_buckets_partition_lines,
};

verus! {

broadcast use vstd::seq_lib::group_to_multiset_ensures;

/// The six counters that a scan of a directory tree reports.
#[derive(Clone, Copy, Debug, PartialEq, Eq, Structural)]
pub struct ProjectOverview {
    pub files: u64,
    pub folders: u64,
    pub lines: u64,
    pub code_lines: u64,
    pub comments: u64,
    pub blanks: u64,
}

impl ProjectOverview {
    /// Every line is counted in exactly one of the three buckets.
    pub open spec fn is_balanced(self) -> bool {
        self.lines == self.code_lines + self.comments + self.blanks
    }

    /// No counter of `self` exceeds the same counter of `later`.
    pub open spec fn counters_le(self, later: ProjectOverview) -> bool {
        &&& self.files <= later.files
        &&& self.folders <= later.folders
        &&& self.lines <= later.lines
        &&& self.code_lines <= later.code_lines
        &&& self.comments <= later.comments
        &&& self.blanks <= later.blanks
    }

    pub open spec fn spec_empty() -> ProjectOverview {
        ProjectOverview { files: 0, folders: 0, lines: 0, code_lines: 0, comments: 0, blanks: 0 }
    }

    /// The overview with every counter at zero.
    pub fn empty() -> (r: ProjectOverview)
        ensures
            r == ProjectOverview::spec_empty(),
    {
        ProjectOverview { files: 0, folders: 0, lines: 0, code_lines: 0, comments: 0, blanks: 0 }
    }
}

/// Why a scan stopped without a result.
#[derive(Clone, Copy, Debug, PartialEq, Eq, Structural)]
pub enum ScanError {
    /// The root path does not exist.
    PathNotFound,
    /// A directory or file could not be listed or read.
    IoFailure,
    /// A counter would pass the largest value it can hold.
    CounterOverflow,
}

impl ScanError {
    /// The text shown to the user for this error.
    pub fn message(&self) -> (r: &'static str)
        ensures
            *self == ScanError::PathNotFound ==> r@ == "Could not find the path specified"@,
            *self == ScanError::IoFailure ==> r@ == "Could not read the directory tree"@,
            *self == ScanError::CounterOverflow ==> r@ == "Too much to count"@,
    {
        match self {
            ScanError::PathNotFound => "Could not find the path specified",
            ScanError::IoFailure => "Could not read the directory tree",
            ScanError::CounterOverflow => "Too much to count",
        }
    }
}

/// The number of lines in all of `files`, each given as its lines.
pub open spec fn total_lines(files: Seq<Seq<Seq<char>>>) -> nat
    decreases files.len(),
{
    if files.len() == 0 {
        0
    } else {
        total_lines(files.drop_last()) + files.last().len()
    }
}

/// The number of lines in all of `files` that fall into bucket `k`.
pub open spec fn total_kind(files: Seq<Seq<Seq<char>>>, k: LineKind) -> nat
    decreases files.len(),
{
    if files.len() == 0 {
        0
    } else {
        total_kind(files.drop_last(), k) + count_kind(files.last(), k)
    }
}

/// `o` is what a scan reports after finding the folders `folders` and reading
/// the files `files`.
pub open spec fn reports(
    o: ProjectOverview,
    files: Seq<Seq<Seq<char>>>,
    folders: Seq<Seq<char>>,
) -> bool {
    &&& o.files == files.len()
    &&& o.folders == folders.len()
    &&& o.lines == total_lines(files)
    &&& o.blanks == total_kind(files, LineKind::Blank)
    &&& o.comments == total_kind(files, LineKind::Comment)
    &&& o.code_lines == total_kind(files, LineKind::Code)
}

/// The lines of all files together fall into the three buckets.
pub proof fn lemma_totals_partition(files: Seq<Seq<Seq<char>>>)
    ensures
        total_lines(files) == total_kind(files, LineKind::Blank) + total_kind(
            files,
            LineKind::Comment,
        ) + total_kind(files, LineKind::Code),
    decreases files.len(),
{
    if files.len() > 0 {
        lemma_totals_partition(files.drop_last());
        lemma_buckets_partition_lines(files.last());
    }
}

/// Whatever was read, the reported lines equal code lines plus comments plus
/// blanks.
pub proof fn lemma_report_is_balanced(
    o: ProjectOverview,
    files: Seq<Seq<Seq<char>>>,
    folders: Seq<Seq<char>>,
)
    requires
        reports(o, files, folders),
    ensures
        o.is_balanced(),
{
    lemma_totals_partition(files);
}

/// The text of each string of `v`.
pub open spec fn texts(v: Seq<String>) -> Seq<Seq<char>> {
    v.map_values(|s: String| s@)
}

/// A scan in progress: the counters so far and the directories still to list.
///
/// The scan decides; the caller lists directories and reads files, and hands
/// what it found to the scan.
pub struct Scan {
    overview: ProjectOverview,
    pending: Vec<String>,
    root: Ghost<Seq<char>>,
    files: Ghost<Seq<Seq<Seq<char>>>>,
    folders: Ghost<Seq<Seq<char>>>,
    visited: Ghost<Seq<Seq<char>>>,
}

impl Scan {
    /// The counters so far.
    pub closed spec fn report(&self) -> ProjectOverview {
        self.overview
    }

    /// The path the scan started from.
    pub closed spec fn root(&self) -> Seq<char> {
        self.root@
    }

    /// The directories still to list.
    pub closed spec fn pending_dirs(&self) -> Seq<Seq<char>> {
        texts(self.pending@)
    }

    /// Each file read so far, as its lines, in the order read.
    pub closed spec fn files_read(&self) -> Seq<Seq<Seq<char>>> {
        self.files@
    }

    /// Each folder found so far, in the order found.
    pub closed spec fn folders_found(&self) -> Seq<Seq<char>> {
        self.folders@
    }

    /// The directories handed out for listing so far.
    pub closed spec fn visited(&self) -> Seq<Seq<char>> {
        self.visited@
    }

    /// The counters match what was read, and the directories handed out
    /// together with those still pending are the root and the folders found,
    /// each once.
    pub closed spec fn wf(&self) -> bool {
        &&& reports(self.overview, self.files@, self.folders@)
        &&& self.overview.is_balanced()
        &&& (self.visited@ + texts(self.pending@)).to_multiset() =~= (seq![self.root@]
            + self.folders@).to_multiset()
    }

    /// Begins a scan at `root`. `root_exists` is whether that path exists; a
    /// scan of a path that does not exist fails before anything is listed.
    pub fn start(root: String, root_exists: bool) -> (r: Result<Scan, ScanError>)
        ensures
            r is Err <==> !root_exists,
            r is Err ==> r == Err::<Scan, ScanError>(ScanError::PathNotFound),
            r is Ok ==> ({
                let s = r->Ok_0;
                &&& s.wf()
                &&& s.report() == ProjectOverview::spec_empty()
                &&& s.root() == root@
                &&& s.pending_dirs() == seq![root@]
                &&& s.files_read().len() == 0
                &&& s.folders_found().len() == 0
                &&& s.visited().len() == 0
            }),
    {
        if !root_exists {
            return Err(ScanError::PathNotFound);
        }
        let ghost root_text = root@;
        let mut pending: Vec<String> = Vec::new();
        pending.push(root);
        let s = Scan {
            overview: ProjectOverview::empty(),
            pending,
            root: Ghost(root_text),
            files: Ghost(Seq::empty()),
            folders: Ghost(Seq::empty()),
            visited: Ghost(Seq::empty()),
        };
        proof {
            assert(texts(s.pending@) =~= seq![root_text]);
            assert(s.visited@ + texts(s.pending@) =~= seq![root_text] + s.folders@);
        }
        Ok(s)
    }

    /// Whether no directory is left to list.
    pub fn is_done(&self) -> (r: bool)
        ensures
            r <==> self.pending_dirs().len() == 0,
    {
        self.pending.len() == 0
    }

    /// The counters so far; once `is_done`, the result of the scan.
    pub fn overview(&self) -> (r: ProjectOverview)
        requires
            self.wf(),
        ensures
            r == self.report(),
            r.is_balanced(),
            reports(r, self.files_read(), self.folders_found()),
    {
        self.overview
    }

    /// Takes the next directory to list, or `None` when none is left.
    pub fn next_directory(&mut self) -> (r: Option<String>)
        requires
            old(self).wf(),
        ensures
            final(self).wf(),
            old(self).pending_dirs().len() == 0 <==> r is None,
            r is None ==> *final(self) == *old(self),
            r is Some ==> ({
                let d = r->Some_0;
                &&& d@ == old(self).pending_dirs().last()
                &&& final(self).pending_dirs() == old(self).pending_dirs().drop_last()
                &&& final(self).visited() == old(self).visited().push(d@)
                &&& final(self).report() == old(self).report()
                &&& final(self).root() == old(self).root()
                &&& final(self).files_read() == old(self).files_read()
                &&& final(self).folders_found() == old(self).folders_found()
            }),
    {
        if self.pending.len() == 0 {
            return None;
        }
        let ghost old_pending = self.pending@;
        let r = self.pending.pop();
        match r {
            None => None,
            Some(d) => {
                proof {
                    let v = self.visited@;
                    let p = texts(self.pending@);
                    assert(texts(old_pending) =~= p.push(d@));
                    lemma_multiset_commutative(v, p.push(d@));
                    lemma_multiset_commutative(v.push(d@), p);
                }
                self.visited = Ghost(self.visited@.push(d@));
                proof {
                    assert(texts(self.pending@) =~= texts(old_pending).drop_last());
                }
                Some(d)
            },
        }
    }

    /// Counts a folder found while listing a directory, and queues it to be
    /// listed in turn. Fails, changing nothing, when the folder counter is full.
    pub fn record_folder(&mut self, path: String) -> (r: Result<(), ScanError>)
        requires
            old(self).wf(),
        ensures
            final(self).wf(),
            r is Err <==> old(self).report().folders == u64::MAX,
            r is Err ==> r == Err::<(), ScanError>(ScanError::CounterOverflow) && *final(self)
                == *old(self),
            r is Ok ==> ({
                &&& final(self).report() == (ProjectOverview {
                    folders: (old(self).report().folders + 1) as u64,
                    ..old(self).report()
                })
                &&& final(self).pending_dirs() == old(self).pending_dirs().push(path@)
                &&& final(self).folders_found() == old(self).folders_found().push(path@)
                &&& final(self).visited() == old(self).visited()
                &&& final(self).root() == old(self).root()
                &&& final(self).files_read() == old(self).files_read()
            }),
            old(self).report().counters_le(final(self).report()),
    {
        if self.overview.folders == u64::MAX {
            return Err(ScanError::CounterOverflow);
        }
        let ghost old_pending = self.pending@;
        let ghost p = path@;
        self.overview.folders = self.overview.folders + 1;
        self.pending.push(path);
        self.folders = Ghost(self.folders@.push(p));
        proof {
            let v = self.visited@;
            let q = texts(old_pending);
            assert(texts(self.pending@) =~= q.push(p));
            assert(v + q.push(p) =~= (v + q).push(p));
            assert(seq![self.root@] + self.folders@ =~= (seq![self.root@] + old(
                self,
            ).folders@).push(p));
        }
        Ok(())
    }

    /// Counts a file and its lines, `lines` being the file's content split
    /// into lines. Fails, changing nothing, when a counter would overflow.
    pub fn record_file(&mut self, lines: &Vec<String>) -> (r: Result<(), ScanError>)
        requires
            old(self).wf(),
        ensures
            final(self).wf(),
            r is Err <==> old(self).report().files == u64::MAX || old(self).report().lines
                + lines@.len() > u64::MAX,
            r is Err ==> r == Err::<(), ScanError>(ScanError::CounterOverflow) && *final(self)
                == *old(self),
            r is Ok ==> ({
                let ls = texts(lines@);
                let o = old(self).report();
                &&& final(self).report() == (ProjectOverview {
                    files: (o.files + 1) as u64,
                    folders: o.folders,
                    lines: (o.lines + ls.len()) as u64,
                    code_lines: (o.code_lines + count_kind(ls, LineKind::Code)) as u64,
                    comments: (o.comments + count_kind(ls, LineKind::Comment)) as u64,
                    blanks: (o.blanks + count_kind(ls, LineKind::Blank)) as u64,
                })
                &&& final(self).files_read() == old(self).files_read().push(ls)
                &&& final(self).pending_dirs() == old(self).pending_dirs()
                &&& final(self).folders_found() == old(self).folders_found()
                &&& final(self).visited() == old(self).visited()
                &&& final(self).root() == old(self).root()
            }),
            old(self).report().counters_le(final(self).report()),
    {
        let n = lines.len();
        if self.overview.files == u64::MAX || n as u64 > u64::MAX - self.overview.lines {
            return Err(ScanError::CounterOverflow);
        }
        let ghost ls = texts(lines@);
        let ghost start = self.overview;
        let mut o = self.overview;
        o.files = o.files + 1;
        let mut i: usize = 0;
        while i < n
            invariant
                n == lines.len(),
                i <= n,
                ls == texts(lines@),
                start.lines + n <= u64::MAX,
                o.files == start.files + 1,
                o.folders == start.folders,
                o.lines == start.lines + i,
                o.blanks == start.blanks + count_kind(ls.take(i as int), LineKind::Blank),
                o.comments == start.comments + count_kind(ls.take(i as int), LineKind::Comment),
                o.code_lines == start.code_lines + count_kind(ls.take(i as int), LineKind::Code),
                o.is_balanced(),
            decreases n - i,
        {
            let k = classify_line(lines[i].as_str());
            proof {
                assert(ls.take(i + 1).drop_last() =~= ls.take(i as int));
                assert(ls.take(i + 1).last() == lines@[i as int]@);
            }
            o.lines = o.lines + 1;
            match k {
                LineKind::Blank => {
                    o.blanks = o.blanks + 1;
                },
                LineKind::Comment => {
                    o.comments = o.comments + 1;
                },
                LineKind::Code => {
                    o.code_lines = o.code_lines + 1;
                },
            }
            i = i + 1;
        }
        proof {
            assert(ls.take(n as int) =~= ls);
            assert(self.files@.push(ls).drop_last() =~= self.files@);
        }
        self.overview = o;
        self.files = Ghost(self.files@.push(ls));
        Ok(())
    }
}

/// A scan with no directory left has handed out the root and every folder it
/// found for listing, each exactly once, and its counters are balanced.
pub proof fn lemma_finished_scan_lists_each_directory_once(s: &Scan)
    requires
        s.wf(),
        s.pending_dirs().len() == 0,
    ensures
        s.visited().to_multiset() =~= (seq![s.root()] + s.folders_found()).to_multiset(),
        s.report().is_balanced(),
        reports(s.report(), s.files_read(), s.folders_found()),
{
    assert(s.visited@ + texts(s.pending@) =~= s.visited@);
}

} // verus!
