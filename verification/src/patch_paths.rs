//! File paths of a patch, and the directories that it has to write to.

use vstd::prelude::*;
use vstd::slice::slice_to_vec;

use crate::text::same_bytes;

verus! {

/// What a path starts with on systems that have drives and shares. Names are
/// held as the bytes that the system has them in, which need not be UTF-8.
#[derive(Debug)]
pub enum PathPrefix {
    Verbatim(Vec<u8>),
    /// A server and a share, taken as they stand.
    VerbatimUnc(Vec<u8>, Vec<u8>),
    /// The letter of a drive, taken as it stands.
    VerbatimDisk(u8),
    DeviceNs(Vec<u8>),
    /// A server and a share.
    Unc(Vec<u8>, Vec<u8>),
    /// The letter of a drive.
    Disk(u8),
}

/// A component of a path.
#[derive(Debug)]
pub enum PathPart {
    Prefix(PathPrefix),
    Root,
    Current,
    Parent,
    Normal(Vec<u8>),
}

/// What a prefix is. The letter of a drive is the same in either case, and is
/// given in upper case.
pub enum PrefixView {
    Verbatim(Seq<u8>),
    VerbatimUnc(Seq<u8>, Seq<u8>),
    VerbatimDisk(u8),
    DeviceNs(Seq<u8>),
    Unc(Seq<u8>, Seq<u8>),
    Disk(u8),
}

/// A letter in upper case.
pub open spec fn upper(letter: u8) -> u8 {
    if 97 <= letter <= 122 {
        (letter - 32) as u8
    } else {
        letter
    }
}

impl PathPrefix {
    pub open spec fn view(&self) -> PrefixView {
        match self {
            PathPrefix::Verbatim(name) => PrefixView::Verbatim(name@),
            PathPrefix::VerbatimUnc(server, share) => PrefixView::VerbatimUnc(server@, share@),
            PathPrefix::VerbatimDisk(letter) => PrefixView::VerbatimDisk(upper(*letter)),
            PathPrefix::DeviceNs(name) => PrefixView::DeviceNs(name@),
            PathPrefix::Unc(server, share) => PrefixView::Unc(server@, share@),
            PathPrefix::Disk(letter) => PrefixView::Disk(upper(*letter)),
        }
    }

    fn copy(&self) -> (result: PathPrefix)
        ensures
            result@ == self@,
    {
        match self {
            PathPrefix::Verbatim(name) => PathPrefix::Verbatim(slice_to_vec(name.as_slice())),
            PathPrefix::VerbatimUnc(server, share) => PathPrefix::VerbatimUnc(
                slice_to_vec(server.as_slice()),
                slice_to_vec(share.as_slice()),
            ),
            PathPrefix::VerbatimDisk(letter) => PathPrefix::VerbatimDisk(*letter),
            PathPrefix::DeviceNs(name) => PathPrefix::DeviceNs(slice_to_vec(name.as_slice())),
            PathPrefix::Unc(server, share) => PathPrefix::Unc(
                slice_to_vec(server.as_slice()),
                slice_to_vec(share.as_slice()),
            ),
            PathPrefix::Disk(letter) => PathPrefix::Disk(*letter),
        }
    }
}

/// What a path component is.
pub enum PartView {
    Prefix(PrefixView),
    Root,
    Current,
    Parent,
    Normal(Seq<u8>),
}

impl PathPart {
    pub open spec fn view(&self) -> PartView {
        match self {
            PathPart::Prefix(prefix) => PartView::Prefix(prefix@),
            PathPart::Root => PartView::Root,
            PathPart::Current => PartView::Current,
            PathPart::Parent => PartView::Parent,
            PathPart::Normal(name) => PartView::Normal(name@),
        }
    }

    fn copy(&self) -> (result: PathPart)
        ensures
            result@ == self@,
    {
        match self {
            PathPart::Prefix(prefix) => PathPart::Prefix(prefix.copy()),
            PathPart::Root => PathPart::Root,
            PathPart::Current => PathPart::Current,
            PathPart::Parent => PathPart::Parent,
            PathPart::Normal(name) => PathPart::Normal(slice_to_vec(name.as_slice())),
        }
    }
}

/// A path: the list of its components.
#[derive(Debug)]
pub struct FilePath {
    pub parts: Vec<PathPart>,
}

/// What components are, in order.
pub open spec fn parts_view(parts: Seq<PathPart>) -> Seq<PartView> {
    parts.map_values(|part: PathPart| part@)
}

impl FilePath {
    pub open spec fn view(&self) -> Seq<PartView> {
        parts_view(self.parts@)
    }

    /// The same path.
    pub fn copy(&self) -> (result: FilePath)
        ensures
            result@ == self@,
    {
        self.first_parts(self.parts.len())
    }

    /// The path made of the first `n` components.
    fn first_parts(&self, n: usize) -> (result: FilePath)
        requires
            n <= self.parts.len(),
        ensures
            result@ == self@.take(n as int),
    {
        let mut parts: Vec<PathPart> = Vec::new();
        let mut i: usize = 0;
        while i < n
            invariant
                i <= n <= self.parts.len(),
                parts.len() == i,
                forall|j: int| 0 <= j < i ==> #[trigger] parts[j]@ == self.parts[j]@,
            decreases n - i,
        {
            parts.push(self.parts[i].copy());
            i = i + 1;
        }
        let result = FilePath { parts };
        assert(result@ =~= self@.take(n as int));
        result
    }
}

/// What paths are, in order.
pub open spec fn paths_view(paths: Seq<FilePath>) -> Seq<Seq<PartView>> {
    paths.map_values(|path: FilePath| path@)
}

/// The directory that a path is in, or nothing where it has none above it.
pub open spec fn parent_of(path: Seq<PartView>) -> Option<Seq<PartView>> {
    if path.len() == 0 {
        None
    } else {
        match path.last() {
            PartView::Root => None,
            PartView::Prefix(_) => None,
            _ => Some(path.drop_last()),
        }
    }
}

/// The directory whose permission counts for a path: the one that it is in,
/// else itself.
pub open spec fn write_root(path: Seq<PartView>) -> Seq<PartView> {
    match parent_of(path) {
        Some(parent) => parent,
        None => path,
    }
}

/// The directory whose permission counts for `path`.
pub fn write_root_of(path: &FilePath) -> (result: FilePath)
    ensures
        result@ == write_root(path@),
{
    let n: usize = path.parts.len();
    if n == 0 {
        return path.copy();
    }
    match &path.parts[n - 1] {
        PathPart::Root => path.copy(),
        PathPart::Prefix(_) => path.copy(),
        _ => {
            let parent = path.first_parts(n - 1);
            assert(path@.take(n - 1) =~= path@.drop_last());
            parent
        },
    }
}

/// A file that a patch changes: where it is, and where it moves to.
#[derive(Debug)]
pub struct PatchedFile {
    pub path: FilePath,
    pub move_path: Option<FilePath>,
}

/// The paths that changed files have to do with, in order: that of each, and
/// behind it the one that it moves to.
pub open spec fn touched_paths(files: Seq<PatchedFile>) -> Seq<Seq<PartView>>
    decreases files.len(),
{
    if files.len() == 0 {
        Seq::empty()
    } else {
        let paths = touched_paths(files.drop_last()).push(files.last().path@);
        match files.last().move_path {
            Some(dest) => paths.push(dest@),
            None => paths,
        }
    }
}

/// The paths that the changed files have to do with.
pub fn file_paths_for_action(files: &Vec<PatchedFile>) -> (result: Vec<FilePath>)
    ensures
        paths_view(result@) == touched_paths(files@),
{
    let mut paths: Vec<FilePath> = Vec::new();
    let mut i: usize = 0;
    assert(files@.take(0) =~= Seq::empty());
    assert(paths_view(paths@) =~= Seq::empty());
    while i < files.len()
        invariant
            i <= files.len(),
            paths_view(paths@) == touched_paths(files@.take(i as int)),
        decreases files.len() - i,
    {
        let ghost before = paths_view(paths@);
        assert(files@.take(i + 1).drop_last() =~= files@.take(i as int));
        paths.push(files[i].path.copy());
        assert(paths_view(paths@) =~= before.push(files[i as int].path@));
        if let Some(dest) = &files[i].move_path {
            let ghost with_path = paths_view(paths@);
            paths.push(dest.copy());
            assert(paths_view(paths@) =~= with_path.push(dest@));
        }
        i = i + 1;
    }
    assert(files@.take(i as int) =~= files@);
    paths
}

/// Whether `left` comes before `right`, byte by byte.
pub open spec fn bytes_before(left: Seq<u8>, right: Seq<u8>) -> bool
    decreases left.len(),
{
    if right.len() == 0 {
        false
    } else if left.len() == 0 {
        true
    } else if left.first() != right.first() {
        left.first() < right.first()
    } else {
        bytes_before(left.drop_first(), right.drop_first())
    }
}

/// The place of a component's kind in the order of components.
pub open spec fn part_rank(part: PartView) -> int {
    match part {
        PartView::Prefix(PrefixView::Verbatim(_)) => 0,
        PartView::Prefix(PrefixView::VerbatimUnc(_, _)) => 1,
        PartView::Prefix(PrefixView::VerbatimDisk(_)) => 2,
        PartView::Prefix(PrefixView::DeviceNs(_)) => 3,
        PartView::Prefix(PrefixView::Unc(_, _)) => 4,
        PartView::Prefix(PrefixView::Disk(_)) => 5,
        PartView::Root => 6,
        PartView::Current => 7,
        PartView::Parent => 8,
        PartView::Normal(_) => 9,
    }
}

/// The names that a component holds, empty where it holds none.
pub open spec fn part_names(part: PartView) -> (Seq<u8>, Seq<u8>) {
    match part {
        PartView::Prefix(PrefixView::Verbatim(name)) => (name, Seq::empty()),
        PartView::Prefix(PrefixView::VerbatimUnc(server, share)) => (server, share),
        PartView::Prefix(PrefixView::VerbatimDisk(letter)) => (seq![letter], Seq::empty()),
        PartView::Prefix(PrefixView::DeviceNs(name)) => (name, Seq::empty()),
        PartView::Prefix(PrefixView::Unc(server, share)) => (server, share),
        PartView::Prefix(PrefixView::Disk(letter)) => (seq![letter], Seq::empty()),
        PartView::Normal(name) => (name, Seq::empty()),
        _ => (Seq::empty(), Seq::empty()),
    }
}

/// Whether a component comes before another: by kind, then by names.
pub open spec fn part_before(left: PartView, right: PartView) -> bool {
    let (left_first, left_second) = part_names(left);
    let (right_first, right_second) = part_names(right);
    if part_rank(left) != part_rank(right) {
        part_rank(left) < part_rank(right)
    } else if left_first != right_first {
        bytes_before(left_first, right_first)
    } else {
        bytes_before(left_second, right_second)
    }
}

/// Whether a path comes before another, component by component.
pub open spec fn path_before(left: Seq<PartView>, right: Seq<PartView>) -> bool
    decreases left.len(),
{
    if right.len() == 0 {
        false
    } else if left.len() == 0 {
        true
    } else if left.first() != right.first() {
        part_before(left.first(), right.first())
    } else {
        path_before(left.drop_first(), right.drop_first())
    }
}

proof fn lemma_bytes_order(a: Seq<u8>, b: Seq<u8>, c: Seq<u8>)
    ensures
        !bytes_before(a, a),
        a != b ==> bytes_before(a, b) || bytes_before(b, a),
        bytes_before(a, b) && bytes_before(b, c) ==> bytes_before(a, c),
    decreases a.len(),
{
    if a.len() > 0 {
        lemma_bytes_order(a.drop_first(), b.drop_first(), c.drop_first());
        if b.len() > 0 && a.first() == b.first() && a.drop_first() == b.drop_first() {
            assert(a =~= seq![a.first()] + a.drop_first());
            assert(b =~= seq![b.first()] + b.drop_first());
        }
    } else if b.len() == 0 {
        assert(a =~= b);
    }
}

proof fn lemma_part_order(a: PartView, b: PartView, c: PartView)
    ensures
        !part_before(a, a),
        a != b ==> part_before(a, b) || part_before(b, a),
        part_before(a, b) && part_before(b, c) ==> part_before(a, c),
{
    lemma_bytes_order(part_names(a).0, part_names(b).0, part_names(c).0);
    lemma_bytes_order(part_names(a).1, part_names(b).1, part_names(c).1);
    lemma_same_part(a, b);
    lemma_same_part(b, c);
    lemma_same_part(a, c);
}

/// A component is known by its kind and its names.
proof fn lemma_same_part(a: PartView, b: PartView)
    ensures
        a == b <==> part_rank(a) == part_rank(b) && part_names(a) == part_names(b),
{
    if part_rank(a) == part_rank(b) && part_names(a) == part_names(b) {
        match (a, b) {
            (
                PartView::Prefix(PrefixView::Disk(letter)),
                PartView::Prefix(PrefixView::Disk(other)),
            ) => {
                assert(part_names(a).0[0] == letter && part_names(b).0[0] == other);
            },
            (
                PartView::Prefix(PrefixView::VerbatimDisk(letter)),
                PartView::Prefix(PrefixView::VerbatimDisk(other)),
            ) => {
                assert(part_names(a).0[0] == letter && part_names(b).0[0] == other);
            },
            _ => {},
        }
    }
}

/// The order of paths is a strict total order.
pub proof fn lemma_path_order(a: Seq<PartView>, b: Seq<PartView>, c: Seq<PartView>)
    ensures
        !path_before(a, a),
        a != b ==> path_before(a, b) || path_before(b, a),
        path_before(a, b) && path_before(b, c) ==> path_before(a, c),
    decreases a.len(),
{
    if a.len() > 0 {
        lemma_path_order(a.drop_first(), b.drop_first(), c.drop_first());
        if b.len() > 0 {
            lemma_part_order(a.first(), b.first(), c.first());
            if a.first() == b.first() && a.drop_first() == b.drop_first() {
                assert(a =~= seq![a.first()] + a.drop_first());
                assert(b =~= seq![b.first()] + b.drop_first());
            }
        }
    } else if b.len() == 0 {
        assert(a =~= b);
    }
}

fn bytes_precede(left: &[u8], right: &[u8]) -> (result: bool)
    ensures
        result == bytes_before(left@, right@),
{
    let mut i: usize = 0;
    assert(left@.skip(0) =~= left@);
    assert(right@.skip(0) =~= right@);
    while i < left.len() && i < right.len()
        invariant
            i <= left.len(),
            i <= right.len(),
            bytes_before(left@, right@) == bytes_before(left@.skip(i as int), right@.skip(i as int)),
        decreases left.len() - i,
    {
        if left[i] != right[i] {
            return left[i] < right[i];
        }
        assert(left@.skip(i as int).drop_first() =~= left@.skip(i + 1));
        assert(right@.skip(i as int).drop_first() =~= right@.skip(i + 1));
        i = i + 1;
    }
    i < right.len()
}

/// A letter in upper case.
fn to_upper(letter: u8) -> (result: u8)
    ensures
        result == upper(letter),
{
    if 97 <= letter && letter <= 122 {
        letter - 32
    } else {
        letter
    }
}

impl PathPart {
    fn rank(&self) -> (result: u8)
        ensures
            result == part_rank(self@),
    {
        match self {
            PathPart::Prefix(PathPrefix::Verbatim(_)) => 0,
            PathPart::Prefix(PathPrefix::VerbatimUnc(_, _)) => 1,
            PathPart::Prefix(PathPrefix::VerbatimDisk(_)) => 2,
            PathPart::Prefix(PathPrefix::DeviceNs(_)) => 3,
            PathPart::Prefix(PathPrefix::Unc(_, _)) => 4,
            PathPart::Prefix(PathPrefix::Disk(_)) => 5,
            PathPart::Root => 6,
            PathPart::Current => 7,
            PathPart::Parent => 8,
            PathPart::Normal(_) => 9,
        }
    }

    /// The names that the component holds.
    fn names(&self) -> (result: (Vec<u8>, Vec<u8>))
        ensures
            (result.0@, result.1@) == part_names(self@),
    {
        let mut first: Vec<u8> = Vec::new();
        let mut second: Vec<u8> = Vec::new();
        match self {
            PathPart::Prefix(PathPrefix::Verbatim(name)) => {
                first = slice_to_vec(name.as_slice());
            },
            PathPart::Prefix(PathPrefix::VerbatimUnc(server, share)) => {
                first = slice_to_vec(server.as_slice());
                second = slice_to_vec(share.as_slice());
            },
            PathPart::Prefix(PathPrefix::VerbatimDisk(letter)) => {
                first.push(to_upper(*letter));
            },
            PathPart::Prefix(PathPrefix::DeviceNs(name)) => {
                first = slice_to_vec(name.as_slice());
            },
            PathPart::Prefix(PathPrefix::Unc(server, share)) => {
                first = slice_to_vec(server.as_slice());
                second = slice_to_vec(share.as_slice());
            },
            PathPart::Prefix(PathPrefix::Disk(letter)) => {
                first.push(to_upper(*letter));
            },
            PathPart::Normal(name) => {
                first = slice_to_vec(name.as_slice());
            },
            PathPart::Root => {},
            PathPart::Current => {},
            PathPart::Parent => {},
        }
        assert(first@ =~= part_names(self@).0);
        assert(second@ =~= part_names(self@).1);
        (first, second)
    }

    fn precedes(&self, other: &PathPart) -> (result: bool)
        ensures
            result == part_before(self@, other@),
    {
        let left: u8 = self.rank();
        let right: u8 = other.rank();
        if left != right {
            return left < right;
        }
        let (left_first, left_second) = self.names();
        let (right_first, right_second) = other.names();
        if same_bytes(left_first.as_slice(), right_first.as_slice()) {
            bytes_precede(left_second.as_slice(), right_second.as_slice())
        } else {
            bytes_precede(left_first.as_slice(), right_first.as_slice())
        }
    }

    fn same(&self, other: &PathPart) -> (result: bool)
        ensures
            result == (self@ == other@),
    {
        proof {
            lemma_same_part(self@, other@);
        }
        if self.rank() != other.rank() {
            return false;
        }
        let (left_first, left_second) = self.names();
        let (right_first, right_second) = other.names();
        same_bytes(left_first.as_slice(), right_first.as_slice()) && same_bytes(
            left_second.as_slice(),
            right_second.as_slice(),
        )
    }
}

impl FilePath {
    /// Whether the path comes before `other`.
    pub fn precedes(&self, other: &FilePath) -> (result: bool)
        ensures
            result == path_before(self@, other@),
    {
        let mut i: usize = 0;
        assert(self@.skip(0) =~= self@);
        assert(other@.skip(0) =~= other@);
        while i < self.parts.len() && i < other.parts.len()
            invariant
                i <= self.parts.len(),
                i <= other.parts.len(),
                path_before(self@, other@) == path_before(
                    self@.skip(i as int),
                    other@.skip(i as int),
                ),
            decreases self.parts.len() - i,
        {
            if !self.parts[i].same(&other.parts[i]) {
                return self.parts[i].precedes(&other.parts[i]);
            }
            assert(self@.skip(i as int).drop_first() =~= self@.skip(i + 1));
            assert(other@.skip(i as int).drop_first() =~= other@.skip(i + 1));
            i = i + 1;
        }
        i < other.parts.len()
    }

    /// Whether the path has the components of `other`.
    pub fn same(&self, other: &FilePath) -> (result: bool)
        ensures
            result == (self@ == other@),
    {
        if self.parts.len() != other.parts.len() {
            assert(self@.len() != other@.len());
            return false;
        }
        let mut i: usize = 0;
        while i < self.parts.len()
            invariant
                i <= self.parts.len(),
                self.parts.len() == other.parts.len(),
                forall|j: int| 0 <= j < i ==> #[trigger] self@[j] == other@[j],
            decreases self.parts.len() - i,
        {
            if !self.parts[i].same(&other.parts[i]) {
                assert(self@[i as int] != other@[i as int]);
                return false;
            }
            i = i + 1;
        }
        assert(self@ =~= other@);
        true
    }
}

/// Whether paths stand in order, none twice.
pub open spec fn is_sorted(paths: Seq<Seq<PartView>>) -> bool {
    forall|i: int, j: int|
        0 <= i < j < paths.len() ==> path_before(#[trigger] paths[i], #[trigger] paths[j])
}

/// The directories that cannot be written to.
pub open spec fn unwritable(roots: Seq<Seq<PartView>>, writable: Seq<bool>) -> Set<Seq<PartView>> {
    Set::new(
        |path: Seq<PartView>|
            exists|i: int|
                0 <= i < roots.len() && i < writable.len() && !writable[i] && #[trigger] roots[i]
                    == path,
    )
}

/// Puts a path into its place in a sorted list, unless it is there.
fn insert_sorted(paths: &mut Vec<FilePath>, path: FilePath)
    requires
        is_sorted(paths_view(old(paths)@)),
    ensures
        is_sorted(paths_view(final(paths)@)),
        paths_view(final(paths)@).to_set() == paths_view(old(paths)@).to_set().insert(path@),
{
    let ghost before = paths_view(paths@);
    let mut i: usize = 0;
    while i < paths.len() && paths[i].precedes(&path)
        invariant
            i <= paths.len(),
            before == paths_view(paths@),
            forall|j: int| 0 <= j < i ==> path_before(#[trigger] before[j], path@),
        decreases paths.len() - i,
    {
        i = i + 1;
    }
    if i < paths.len() && paths[i].same(&path) {
        assert(before[i as int] == path@);
        assert(before.to_set() =~= before.to_set().insert(path@));
        return;
    }
    let ghost added = path@;
    paths.insert(i, path);
    proof {
        let after = paths_view(paths@);
        assert(after =~= before.insert(i as int, added));
        if i < before.len() {
            lemma_path_order(added, before[i as int], added);
            assert forall|k: int| i <= k < before.len() implies path_before(
                added,
                #[trigger] before[k],
            ) by {
                lemma_path_order(added, before[i as int], before[k]);
            }
        }
        assert forall|j: int, k: int| 0 <= j < k < after.len() implies path_before(
            #[trigger] after[j],
            #[trigger] after[k],
        ) by {
            if j < i && k > i {
                assert(after[j] == before[j] && after[k] == before[k - 1]);
            } else if j < i && k == i {
                assert(after[j] == before[j] && after[k] == added);
            } else if j < i {
                assert(after[j] == before[j] && after[k] == before[k]);
            } else if j == i {
                assert(after[j] == added && after[k] == before[k - 1]);
            } else {
                assert(after[j] == before[j - 1] && after[k] == before[k - 1]);
            }
        }
        assert(after.to_set() =~= before.to_set().insert(added)) by {
            assert forall|p: Seq<PartView>| after.to_set().contains(p)
                == before.to_set().insert(added).contains(p) by {
                if after.to_set().contains(p) {
                    let k = choose|k: int| 0 <= k < after.len() && after[k] == p;
                    if k < i {
                        assert(before[k] == p);
                    } else if k > i {
                        assert(before[k - 1] == p);
                    }
                }
                if before.to_set().contains(p) {
                    let k = choose|k: int| 0 <= k < before.len() && before[k] == p;
                    if k < i {
                        assert(after[k] == p);
                    } else {
                        assert(after[k + 1] == p);
                    }
                }
                assert(after[i as int] == added);
            }
        }
    }
}

/// The directories of `file_paths` whose permission counts, in order.
pub fn write_roots(file_paths: &Vec<FilePath>) -> (result: Vec<FilePath>)
    ensures
        paths_view(result@) == paths_view(file_paths@).map_values(
            |path: Seq<PartView>| write_root(path),
        ),
{
    let mut roots: Vec<FilePath> = Vec::new();
    let mut i: usize = 0;
    while i < file_paths.len()
        invariant
            i <= file_paths.len(),
            roots.len() == i,
            forall|j: int| 0 <= j < i ==> #[trigger] roots[j]@ == write_root(file_paths[j]@),
        decreases file_paths.len() - i,
    {
        roots.push(write_root_of(&file_paths[i]));
        i = i + 1;
    }
    assert(paths_view(roots@) =~= paths_view(file_paths@).map_values(
        |path: Seq<PartView>| write_root(path),
    ));
    roots
}

/// The write permissions that a patch has to ask for: of the directories `roots`
/// those that are not `writable`, in order and each once, or nothing where every
/// one of them is.
pub fn write_permissions_for_paths(roots: &Vec<FilePath>, writable: &Vec<bool>) -> (result: Option<
    Vec<FilePath>,
>)
    requires
        roots.len() == writable.len(),
    ensures
        match result {
            Some(paths) => {
                &&& paths.len() > 0
                &&& is_sorted(paths_view(paths@))
                &&& paths_view(paths@).to_set() == unwritable(paths_view(roots@), writable@)
            },
            None => forall|i: int| 0 <= i < writable.len() ==> #[trigger] writable[i],
        },
{
    let ghost views = paths_view(roots@);
    let mut paths: Vec<FilePath> = Vec::new();
    let mut i: usize = 0;
    assert(paths_view(paths@).to_set() =~= unwritable(views.take(0), writable@.take(0)));
    while i < roots.len()
        invariant
            i <= roots.len(),
            roots.len() == writable.len(),
            views == paths_view(roots@),
            is_sorted(paths_view(paths@)),
            paths_view(paths@).to_set() == unwritable(
                views.take(i as int),
                writable@.take(i as int),
            ),
            paths.len() == 0 ==> forall|j: int| 0 <= j < i ==> #[trigger] writable[j],
        decreases roots.len() - i,
    {
        let ghost before = unwritable(views.take(i as int), writable@.take(i as int));
        let ghost after = unwritable(views.take(i + 1), writable@.take(i + 1));
        proof {
            let w = writable@.take(i as int);
            let w1 = writable@.take(i + 1);
            let v = views.take(i as int);
            let v1 = views.take(i + 1);
            assert forall|p: Seq<PartView>| after.contains(p) == (before.contains(p) || (
            !writable[i as int] && p == views[i as int])) by {
                if after.contains(p) {
                    let k = choose|k: int| 0 <= k < i + 1 && !w1[k] && #[trigger] v1[k] == p;
                    if k < i {
                        assert(v[k] == p && !w[k]);
                    }
                }
                if before.contains(p) {
                    let k = choose|k: int| 0 <= k < i && !w[k] && #[trigger] v[k] == p;
                    assert(v1[k] == p && !w1[k]);
                }
                if !writable[i as int] && p == views[i as int] {
                    assert(v1[i as int] == p && !w1[i as int]);
                }
            }
        }
        if !writable[i] {
            insert_sorted(&mut paths, roots[i].copy());
            assert(before.insert(views[i as int]) =~= after);
            proof {
                if paths.len() == 0 {
                    assert(paths_view(paths@).to_set().contains(views[i as int]));
                }
            }
        } else {
            assert(before =~= after);
        }
        i = i + 1;
    }
    assert(views.take(i as int) =~= views);
    assert(writable@.take(i as int) =~= writable@);
    if paths.len() > 0 {
        Some(paths)
    } else {
        None
    }
}

/// What a patch needs to know of permissions: the paths that it has to do with,
/// and the directories whose permission counts for them.
#[derive(Debug)]
pub struct PatchPermissions {
    pub file_paths: Vec<FilePath>,
    pub roots: Vec<FilePath>,
}

/// What a patch that changes `files` needs to know of permissions. Which of the
/// directories may be written to already is for the caller to find out, and for
/// `write_permissions_for_paths` to make a request of.
pub fn effective_patch_permissions(files: &Vec<PatchedFile>) -> (result: PatchPermissions)
    ensures
        paths_view(result.file_paths@) == touched_paths(files@),
        paths_view(result.roots@) == touched_paths(files@).map_values(
            |path: Seq<PartView>| write_root(path),
        ),
{
    let file_paths = file_paths_for_action(files);
    let roots = write_roots(&file_paths);
    PatchPermissions { file_paths, roots }
}

proof fn lemma_last_path_is_greatest(paths: Seq<Seq<PartView>>, path: Seq<PartView>)
    requires
        is_sorted(paths),
        paths.to_set().contains(path),
    ensures
        path == paths.last() || path_before(path, paths.last()),
{
    let k = choose|k: int| 0 <= k < paths.len() && paths[k] == path;
    if k < paths.len() - 1 {
        assert(path_before(paths[k], paths[paths.len() - 1]));
    }
}

proof fn lemma_shorter_paths(paths: Seq<Seq<PartView>>)
    requires
        is_sorted(paths),
        paths.len() > 0,
    ensures
        is_sorted(paths.drop_last()),
        paths.drop_last().to_set() == paths.to_set().remove(paths.last()),
{
    let shorter = paths.drop_last();
    assert forall|i: int, j: int| 0 <= i < j < shorter.len() implies path_before(
        #[trigger] shorter[i],
        #[trigger] shorter[j],
    ) by {
        assert(path_before(paths[i], paths[j]));
    }
    assert forall|p: Seq<PartView>| shorter.to_set().contains(p) == paths.to_set().remove(
        paths.last(),
    ).contains(p) by {
        if shorter.to_set().contains(p) {
            let k = choose|k: int| 0 <= k < shorter.len() && shorter[k] == p;
            assert(path_before(paths[k], paths[paths.len() - 1]));
            lemma_path_order(p, p, p);
            assert(paths[k] == p);
        }
        if paths.to_set().contains(p) && p != paths.last() {
            let k = choose|k: int| 0 <= k < paths.len() && paths[k] == p;
            assert(shorter[k] == p);
        }
    }
    assert(shorter.to_set() =~= paths.to_set().remove(paths.last()));
}

/// There is one way to list directories in order: the permissions that a patch
/// asks for depend on which directories it needs alone, not on the order in
/// which its files were looked at.
pub proof fn law_sorted_lists_are_determined(left: Seq<Seq<PartView>>, right: Seq<Seq<PartView>>)
    requires
        is_sorted(left),
        is_sorted(right),
        left.to_set() == right.to_set(),
    ensures
        left == right,
    decreases left.len(),
{
    if left.len() == 0 {
        if right.len() > 0 {
            assert(right.to_set().contains(right[0]));
        }
        assert(left =~= right);
    } else {
        assert(left.to_set().contains(left[left.len() - 1]));
        assert(right.len() > 0);
        assert(right.to_set().contains(right[right.len() - 1]));
        lemma_last_path_is_greatest(right, left.last());
        lemma_last_path_is_greatest(left, right.last());
        lemma_path_order(left.last(), right.last(), left.last());
        lemma_shorter_paths(left);
        lemma_shorter_paths(right);
        law_sorted_lists_are_determined(left.drop_last(), right.drop_last());
        assert(left =~= left.drop_last().push(left.last()));
        assert(right =~= right.drop_last().push(right.last()));
    }
}

} // verus!
