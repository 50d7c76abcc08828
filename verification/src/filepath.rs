//! Paths of the file system as byte strings, compared by their components.
use crate::text;
use vstd::prelude::*;
use vstd::utf8::*;

verus! {

/// A path of the file system: any bytes, with `/` between the components. Two paths are equal
/// where their components are.
#[derive(Debug)]
pub struct FilePath {
    pub bytes: Vec<u8>,
}

impl PartialEq for FilePath {
    fn eq(&self, other: &Self) -> (same: bool) {
        self.same_as(other)
    }
}

impl vstd::std_specs::cmp::PartialEqSpecImpl for FilePath {
    open spec fn obeys_eq_spec() -> bool {
        true
    }

    open spec fn eq_spec(&self, other: &Self) -> bool {
        same_path(self@, other@)
    }
}

impl Eq for FilePath {

}

impl View for FilePath {
    type V = Seq<u8>;

    open spec fn view(&self) -> Seq<u8> {
        self.bytes@
    }
}

impl DeepView for FilePath {
    type V = Seq<u8>;

    open spec fn deep_view(&self) -> Seq<u8> {
        self.bytes@
    }
}

impl Clone for FilePath {
    fn clone(&self) -> (copy: Self)
        ensures
            copy@ == self@,
    {
        let bytes = text::copy_bytes(self.bytes.as_slice(), 0, self.bytes.len());
        assert(bytes@ =~= self.bytes@);
        FilePath { bytes }
    }
}

/// The byte between two components.
pub const SEPARATOR: u8 = 47;

/// The byte that a component which stands for the directory itself is made of.
pub const DOT: u8 = 46;

/// Whether a path starts at the root.
pub open spec fn absolute(path: Seq<u8>) -> bool {
    path.len() > 0 && path[0] == SEPARATOR
}

/// The pieces between separators that count as components: none is empty, and `.` counts only
/// at the start of a relative path.
pub open spec fn significant(pieces: Seq<Seq<u8>>, relative: bool) -> Seq<Seq<u8>>
    decreases pieces.len(),
{
    if pieces.len() == 0 {
        Seq::empty()
    } else {
        let before = significant(pieces.drop_last(), relative);
        let piece = pieces.last();
        if piece.len() == 0 || (piece == seq![DOT] && !(relative && pieces.len() == 1)) {
            before
        } else {
            before.push(piece)
        }
    }
}

/// The component that stands for the root.
pub open spec fn root_component() -> Seq<u8> {
    seq![SEPARATOR]
}

/// The components of a path, with the root as a component of its own.
pub open spec fn components(path: Seq<u8>) -> Seq<Seq<u8>> {
    let names = significant(text::split_bytes(path, SEPARATOR, SEPARATOR), !absolute(path));
    if absolute(path) {
        seq![root_component()] + names
    } else {
        names
    }
}

/// Whether two paths have the same components.
pub open spec fn same_path(left: Seq<u8>, right: Seq<u8>) -> bool {
    components(left) == components(right)
}

/// Whether `path` is `base` or lies below it.
pub open spec fn path_within(path: Seq<u8>, base: Seq<u8>) -> bool {
    components(base).is_prefix_of(components(path))
}

/// `tail` as seen from `base`: an absolute `tail` replaces `base`.
pub open spec fn joined(base: Seq<u8>, tail: Seq<u8>) -> Seq<u8> {
    if absolute(tail) || base.len() == 0 {
        tail
    } else if base.last() == SEPARATOR {
        base + tail
    } else {
        base.push(SEPARATOR) + tail
    }
}

/// The name that a path ends in, if it ends in one.
pub open spec fn file_name(path: Seq<u8>) -> Option<Seq<u8>> {
    let parts = components(path);
    if parts.len() == 0 || parts.last() == root_component() || parts.last() == seq![DOT]
        || parts.last() == seq![DOT, DOT] {
        None
    } else {
        Some(parts.last())
    }
}

/// Whether `left` comes before `right` in the order of a dictionary.
pub open spec fn bytes_before(left: Seq<u8>, right: Seq<u8>) -> bool
    decreases left.len(),
{
    if right.len() == 0 {
        false
    } else if left.len() == 0 {
        true
    } else if left[0] != right[0] {
        left[0] < right[0]
    } else {
        bytes_before(left.skip(1), right.skip(1))
    }
}

/// The place of a component among the kinds of components: the root, the directory itself, the
/// parent, a name.
pub open spec fn component_rank(part: Seq<u8>) -> nat {
    if part == root_component() {
        0
    } else if part == seq![DOT] {
        1
    } else if part == seq![DOT, DOT] {
        2
    } else {
        3
    }
}

/// Whether one component comes before another.
pub open spec fn component_before(left: Seq<u8>, right: Seq<u8>) -> bool {
    component_rank(left) < component_rank(right) || component_rank(left) == component_rank(right)
        && bytes_before(left, right)
}

/// Whether one row of components comes before another, component by component.
pub open spec fn parts_before(left: Seq<Seq<u8>>, right: Seq<Seq<u8>>) -> bool
    decreases left.len(),
{
    if right.len() == 0 {
        false
    } else if left.len() == 0 {
        true
    } else if left[0] != right[0] {
        component_before(left[0], right[0])
    } else {
        parts_before(left.skip(1), right.skip(1))
    }
}

/// Whether the path `left` comes before the path `right`.
pub open spec fn path_before(left: Seq<u8>, right: Seq<u8>) -> bool {
    parts_before(components(left), components(right))
}

/// The position behind the last separator at or behind `start`, or `start` where there is none.
pub open spec fn last_piece(path: Seq<u8>, start: int) -> int
    decreases path.len(),
{
    if path.len() == 0 || path.len() <= start {
        start
    } else if path.last() == SEPARATOR {
        path.len() as int
    } else {
        last_piece(path.drop_last(), start)
    }
}

/// The position where the components behind the root start.
pub open spec fn body_start(path: Seq<u8>) -> int {
    if absolute(path) {
        1
    } else {
        0
    }
}

/// The bytes before the piece that starts at `piece`, and before the separator in front of it.
pub open spec fn before_piece(path: Seq<u8>, piece: int, start: int) -> Seq<u8> {
    if piece > start {
        path.take(piece - 1)
    } else {
        path.take(start)
    }
}

/// `path` without trailing separators and trailing `.` pieces; a `.` that a relative path starts
/// with stays.
pub open spec fn trim_path(path: Seq<u8>, start: int) -> Seq<u8>
    decreases path.len(),
{
    let piece = last_piece(path, start);
    if start < 0 || path.len() <= start {
        path
    } else if start <= piece <= path.len() && (path.skip(piece).len() == 0 || piece > 0
        && path.skip(piece) == seq![DOT]) {
        trim_path(before_piece(path, piece, start), start)
    } else {
        path
    }
}

/// The path of the directory that holds the last component of `path`; none for the root and
/// for the empty path.
pub open spec fn parent_path(path: Seq<u8>) -> Option<Seq<u8>> {
    let start = body_start(path);
    let full = trim_path(path, start);
    if full.len() <= start {
        None
    } else {
        Some(trim_path(before_piece(full, last_piece(full, start), start), start))
    }
}

/// Whether `left` comes before `right` in the order of a dictionary.
pub fn is_bytes_before(left: &Vec<u8>, right: &Vec<u8>) -> (result: bool)
    ensures
        result == bytes_before(left@, right@),
{
    let mut i: usize = 0;
    assert(left@.skip(0) =~= left@);
    assert(right@.skip(0) =~= right@);
    while i < left.len() && i < right.len() && left[i] == right[i]
        invariant
            i <= left.len(),
            i <= right.len(),
            bytes_before(left@, right@) == bytes_before(
                left@.skip(i as int),
                right@.skip(i as int),
            ),
        decreases left.len() - i,
    {
        assert(left@.skip(i as int).skip(1) =~= left@.skip(i + 1));
        assert(right@.skip(i as int).skip(1) =~= right@.skip(i + 1));
        i += 1;
    }
    if i >= right.len() {
        false
    } else if i >= left.len() {
        true
    } else {
        left[i] < right[i]
    }
}

fn rank(part: &Vec<u8>) -> (rank: u8)
    ensures
        rank == component_rank(part@),
{
    let length = part.len();
    proof {
        if length == 1 {
            assert(part@ =~= seq![part@[0]]);
        }
        if length == 2 {
            assert(part@ =~= seq![part@[0], part@[1]]);
        }
        if part@ == root_component() || part@ == seq![DOT] {
            assert(part@.len() == 1);
            assert(part@[0] == SEPARATOR || part@[0] == DOT);
        }
        if part@ == seq![DOT, DOT] {
            assert(part@.len() == 2 && part@[0] == DOT && part@[1] == DOT);
        }
    }
    if length == 1 && part[0] == SEPARATOR {
        0
    } else if length == 1 && part[0] == DOT {
        1
    } else if length == 2 && part[0] == DOT && part[1] == DOT {
        2
    } else {
        3
    }
}

fn find_last_piece(path: &Vec<u8>, length: usize, start: usize) -> (piece: usize)
    requires
        start <= length <= path.len(),
    ensures
        start <= piece <= length,
        piece == last_piece(path@.take(length as int), start as int),
{
    let mut end: usize = length;
    while end > start && path[end - 1] != SEPARATOR
        invariant
            start <= end <= length <= path.len(),
            last_piece(path@.take(length as int), start as int) == last_piece(
                path@.take(end as int),
                start as int,
            ),
        decreases end,
    {
        assert(path@.take(end as int).drop_last() =~= path@.take(end - 1));
        end -= 1;
    }
    end
}

fn trimmed_length(path: &Vec<u8>, length: usize, start: usize) -> (trimmed: usize)
    requires
        length <= path.len(),
        start <= path.len(),
    ensures
        trimmed <= length,
        trim_path(path@.take(length as int), start as int) == path@.take(trimmed as int),
    decreases length,
{
    if length <= start {
        return length;
    }
    let ghost whole = path@.take(length as int);
    let piece = find_last_piece(path, length, start);
    assert(whole.skip(piece as int) =~= path@.subrange(piece as int, length as int));
    if piece == length || (piece > 0 && piece + 1 == length && path[piece] == DOT) {
        proof {
            if piece + 1 == length {
                assert(whole.skip(piece as int) =~= seq![DOT]);
            }
        }
        let shorter: usize = if piece > start {
            piece - 1
        } else {
            start
        };
        assert(before_piece(whole, piece as int, start as int) =~= path@.take(shorter as int));
        trimmed_length(path, shorter, start)
    } else {
        assert(piece == 0 || whole.skip(piece as int) != seq![DOT]) by {
            if piece + 1 == length {
                assert(whole.skip(piece as int)[0] == path@[piece as int]);
            }
        }
        length
    }
}

impl FilePath {
    /// The path with the given bytes.
    pub fn new(bytes: Vec<u8>) -> (path: FilePath)
        ensures
            path@ == bytes@,
    {
        FilePath { bytes }
    }

    /// The path that `text` spells in UTF-8.
    pub fn from_text(text: &str) -> (path: FilePath)
        ensures
            path@ == encode_utf8(text@),
    {
        let spelled = text.as_bytes();
        let bytes = text::copy_bytes(spelled, 0, spelled.len());
        assert(bytes@ =~= spelled@);
        FilePath { bytes }
    }

    /// The path as text, for messages and for command lines that take text.
    pub fn display(&self) -> (text: String)
        ensures
            text@ == text::lossy_text(self@),
    {
        text::lossy(self.bytes.as_slice())
    }

    /// Whether the path starts at the root.
    pub fn is_absolute(&self) -> (result: bool)
        ensures
            result == absolute(self@),
    {
        self.bytes.len() > 0 && self.bytes[0] == SEPARATOR
    }

    /// The components of the path.
    pub fn components(&self) -> (parts: Vec<Vec<u8>>)
        ensures
            text::contents(parts@) == components(self@),
    {
        let pieces = text::split_at_bytes(self.bytes.as_slice(), SEPARATOR, SEPARATOR);
        let relative = !self.is_absolute();
        let mut parts: Vec<Vec<u8>> = Vec::new();
        let ghost root: Seq<Seq<u8>> = if relative {
            Seq::empty()
        } else {
            seq![root_component()]
        };
        if !relative {
            let mut slash: Vec<u8> = Vec::new();
            slash.push(SEPARATOR);
            assert(slash@ =~= root_component());
            parts.push(slash);
        }
        assert(text::contents(parts@) =~= root);
        let mut i: usize = 0;
        assert(root + significant(text::contents(pieces@).take(0), relative) =~= root);
        while i < pieces.len()
            invariant
                i <= pieces.len(),
                text::contents(parts@) == root + significant(
                    text::contents(pieces@).take(i as int),
                    relative,
                ),
            decreases pieces.len() - i,
        {
            let ghost shown = text::contents(pieces@);
            let ghost done = significant(shown.take(i as int), relative);
            assert(shown.take(i + 1).drop_last() =~= shown.take(i as int));
            assert(shown.take(i + 1).last() == pieces@[i as int]@);
            let piece = &pieces[i];
            let alone = piece.len() == 1 && piece[0] == DOT;
            assert(alone == (piece@ == seq![DOT])) by {
                if alone {
                    assert(piece@ =~= seq![DOT]);
                }
            }
            if piece.len() > 0 && !(alone && !(relative && i == 0)) {
                let copy = text::copy_bytes(piece.as_slice(), 0, piece.len());
                assert(copy@ =~= piece@);
                let ghost before = text::contents(parts@);
                parts.push(copy);
                assert(text::contents(parts@) =~= before.push(piece@));
                assert(text::contents(parts@) =~= root + done.push(piece@));
            }
            i += 1;
        }
        assert(text::contents(pieces@).take(i as int) =~= text::contents(pieces@));
        parts
    }

    /// Whether the two paths have the same components.
    pub fn same_as(&self, other: &FilePath) -> (same: bool)
        ensures
            same == same_path(self@, other@),
    {
        let left = self.components();
        let right = other.components();
        if left.len() != right.len() {
            assert(text::contents(left@).len() != text::contents(right@).len());
            return false;
        }
        let within = starts_with_parts(&left, &right);
        proof {
            let l = text::contents(left@);
            let r = text::contents(right@);
            if within {
                assert(l.subrange(0, r.len() as int) =~= l);
            } else if l == r {
                assert(r =~= l.subrange(0, r.len() as int));
            }
        }
        within
    }

    /// Whether the path is `base` or lies below it.
    pub fn is_within(&self, base: &FilePath) -> (within: bool)
        ensures
            within == path_within(self@, base@),
    {
        let parts = self.components();
        let prefix = base.components();
        starts_with_parts(&parts, &prefix)
    }

    /// Whether the path comes before `other`.
    pub fn is_before(&self, other: &FilePath) -> (before: bool)
        ensures
            before == path_before(self@, other@),
    {
        let left = self.components();
        let right = other.components();
        let ghost l = text::contents(left@);
        let ghost r = text::contents(right@);
        let mut i: usize = 0;
        assert(l.skip(0) =~= l);
        assert(r.skip(0) =~= r);
        while i < left.len() && i < right.len() && text::same_bytes(
            left[i].as_slice(),
            right[i].as_slice(),
        )
            invariant
                i <= left.len(),
                i <= right.len(),
                l == text::contents(left@),
                r == text::contents(right@),
                parts_before(l, r) == parts_before(l.skip(i as int), r.skip(i as int)),
            decreases left.len() - i,
        {
            assert(l[i as int] == left@[i as int]@ && r[i as int] == right@[i as int]@);
            assert(l.skip(i as int).skip(1) =~= l.skip(i + 1));
            assert(r.skip(i as int).skip(1) =~= r.skip(i + 1));
            i += 1;
        }
        if i >= right.len() {
            false
        } else if i >= left.len() {
            true
        } else {
            assert(l.skip(i as int)[0] == left@[i as int]@ && r.skip(i as int)[0]
                == right@[i as int]@);
            let ranks = (rank(&left[i]), rank(&right[i]));
            ranks.0 < ranks.1 || (ranks.0 == ranks.1 && is_bytes_before(&left[i], &right[i]))
        }
    }

    /// `tail` as seen from this path.
    pub fn join(&self, tail: &FilePath) -> (path: FilePath)
        ensures
            path@ == joined(self@, tail@),
    {
        if tail.is_absolute() || self.bytes.len() == 0 {
            return tail.clone();
        }
        let mut bytes = text::copy_bytes(self.bytes.as_slice(), 0, self.bytes.len());
        assert(bytes@ =~= self@);
        if bytes[bytes.len() - 1] != SEPARATOR {
            bytes.push(SEPARATOR);
        }
        let ghost base = bytes@;
        let mut i: usize = 0;
        while i < tail.bytes.len()
            invariant
                i <= tail.bytes.len(),
                bytes@ == base + tail@.take(i as int),
            decreases tail.bytes.len() - i,
        {
            bytes.push(tail.bytes[i]);
            assert(tail@.take(i + 1) =~= tail@.take(i as int).push(tail@[i as int]));
            i += 1;
        }
        assert(tail@.take(i as int) =~= tail@);
        FilePath { bytes }
    }

    /// The path that `text` spells, as seen from this path.
    pub fn join_text(&self, text: &str) -> (path: FilePath)
        ensures
            path@ == joined(self@, encode_utf8(text@)),
    {
        self.join(&FilePath::from_text(text))
    }

    /// The name that the path ends in, if it ends in one.
    pub fn file_name(&self) -> (name: Option<Vec<u8>>)
        ensures
            name is Some <==> file_name(self@) is Some,
            name is Some ==> name->0@ == file_name(self@)->0,
    {
        let parts = self.components();
        if parts.len() == 0 {
            return None;
        }
        let last = &parts[parts.len() - 1];
        let ghost end = components(self@).last();
        assert(last@ == end);
        let special = (last.len() == 1 && (last[0] == SEPARATOR || last[0] == DOT)) || (last.len()
            == 2 && last[0] == DOT && last[1] == DOT);
        proof {
            if special {
                if last.len() == 1 {
                    if last[0] == SEPARATOR {
                        assert(end =~= root_component());
                    } else {
                        assert(end =~= seq![DOT]);
                    }
                } else {
                    assert(end =~= seq![DOT, DOT]);
                }
            } else {
                assert(end != root_component() && end != seq![DOT] && end != seq![DOT, DOT]);
            }
        }
        if special {
            return None;
        }
        let name = text::copy_bytes(last.as_slice(), 0, last.len());
        assert(name@ =~= last@);
        Some(name)
    }

    /// The path of the directory that holds the last component.
    pub fn parent(&self) -> (path: Option<FilePath>)
        ensures
            path.deep_view() == parent_path(self@),
    {
        let start: usize = if self.is_absolute() {
            1
        } else {
            0
        };
        assert(self@.take(self@.len() as int) =~= self@);
        let length = trimmed_length(&self.bytes, self.bytes.len(), start);
        if length <= start {
            return None;
        }
        let piece = find_last_piece(&self.bytes, length, start);
        let shorter: usize = if piece > start {
            piece - 1
        } else {
            start
        };
        assert(before_piece(self@.take(length as int), piece as int, start as int) =~= self@.take(
            shorter as int,
        ));
        let end = trimmed_length(&self.bytes, shorter, start);
        let bytes = text::copy_bytes(self.bytes.as_slice(), 0, end);
        assert(bytes@ =~= self@.take(end as int));
        Some(FilePath { bytes })
    }
}

fn starts_with_parts(parts: &Vec<Vec<u8>>, prefix: &Vec<Vec<u8>>) -> (result: bool)
    ensures
        result == text::contents(prefix@).is_prefix_of(text::contents(parts@)),
{
    if prefix.len() > parts.len() {
        return false;
    }
    let ghost p = text::contents(prefix@);
    let ghost whole = text::contents(parts@);
    let mut i: usize = 0;
    while i < prefix.len()
        invariant
            i <= prefix.len() <= parts.len(),
            p == text::contents(prefix@),
            whole == text::contents(parts@),
            forall|j: int| 0 <= j < i ==> p[j] == whole[j],
        decreases prefix.len() - i,
    {
        if !text::same_bytes(prefix[i].as_slice(), parts[i].as_slice()) {
            assert(p[i as int] != whole.subrange(0, p.len() as int)[i as int]);
            return false;
        }
        i += 1;
    }
    assert(p =~= whole.subrange(0, p.len() as int));
    true
}

/// A copy of each path.
pub fn clone_paths(paths: &Vec<FilePath>) -> (copy: Vec<FilePath>)
    ensures
        copy.deep_view() == paths.deep_view(),
{
    let mut copy: Vec<FilePath> = Vec::new();
    let mut i: usize = 0;
    while i < paths.len()
        invariant
            i <= paths.len(),
            copy.deep_view() == paths.deep_view().take(i as int),
        decreases paths.len() - i,
    {
        let ghost before = copy.deep_view();
        copy.push(paths[i].clone());
        assert(copy.deep_view() =~= before.push(paths[i as int]@));
        assert(paths.deep_view().take(i + 1) =~= before.push(paths.deep_view()[i as int]));
        i += 1;
    }
    assert(paths.deep_view().take(i as int) =~= paths.deep_view());
    copy
}

/// A path that a variable of the environment names, with the text by which messages show it.
///
/// The text is what the `Debug` format of the path gives: it is quoted, and whatever is not text is
/// escaped. It comes along with the path, since only interfaces of the operating system make a path
/// of bytes that are not text.
#[derive(Debug, PartialEq, Eq)]
pub struct ShownPath {
    pub path: FilePath,
    pub shown: String,
}

/// The content of a [`ShownPath`].
pub struct ShownPathView {
    pub path: Seq<u8>,
    pub shown: Seq<char>,
}

impl DeepView for ShownPath {
    type V = ShownPathView;

    open spec fn deep_view(&self) -> ShownPathView {
        ShownPathView { path: self.path@, shown: self.shown@ }
    }
}

impl Clone for ShownPath {
    fn clone(&self) -> (copy: Self)
        ensures
            copy.deep_view() == self.deep_view(),
    {
        ShownPath { path: self.path.clone(), shown: self.shown.clone() }
    }
}

/// A copy of a path that need not be there, with the text by which messages show it.
pub(crate) fn clone_shown(path: &Option<ShownPath>) -> (copy: Option<ShownPath>)
    ensures
        copy.deep_view() == path.deep_view(),
{
    match path {
        None => None,
        Some(path) => Some(path.clone()),
    }
}

/// A copy of a path, if there is one.
pub fn clone_optional(path: &Option<FilePath>) -> (copy: Option<FilePath>)
    ensures
        copy.deep_view() == path.deep_view(),
{
    match path {
        None => None,
        Some(path) => Some(path.clone()),
    }
}

/// Appends `path` to `paths`.
pub fn push_path(paths: &mut Vec<FilePath>, path: FilePath)
    ensures
        final(paths).deep_view() == old(paths).deep_view().push(path@),
{
    let ghost before = paths.deep_view();
    let ghost added = path@;
    paths.push(path);
    assert(paths.deep_view() =~= before.push(added));
}

/// Whether one of `paths` has the same components as `path`.
pub open spec fn holds_path(paths: Seq<Seq<u8>>, path: Seq<u8>) -> bool {
    exists|i: int| 0 <= i < paths.len() && #[trigger] same_path(paths[i], path)
}

/// Whether one of `paths` has the same components as `path`.
pub fn contains_path(paths: &Vec<FilePath>, path: &FilePath) -> (found: bool)
    ensures
        found == holds_path(paths.deep_view(), path@),
{
    let ghost all = paths.deep_view();
    let mut i: usize = 0;
    while i < paths.len()
        invariant
            i <= paths.len(),
            all == paths.deep_view(),
            forall|j: int| 0 <= j < i ==> !#[trigger] same_path(all[j], path@),
        decreases paths.len() - i,
    {
        if paths[i].same_as(path) {
            assert(same_path(all[i as int], path@));
            return true;
        }
        assert(all[i as int] == paths[i as int]@);
        i += 1;
    }
    false
}

proof fn lemma_bytes_total(left: Seq<u8>, right: Seq<u8>)
    ensures
        bytes_before(left, right) || bytes_before(right, left) || left == right,
        !(bytes_before(left, right) && bytes_before(right, left)),
        left == right ==> !bytes_before(left, right),
    decreases left.len(),
{
    if left.len() > 0 && right.len() > 0 && left[0] == right[0] {
        lemma_bytes_total(left.skip(1), right.skip(1));
        if left.skip(1) == right.skip(1) {
            assert(left =~= seq![left[0]] + left.skip(1));
            assert(right =~= seq![right[0]] + right.skip(1));
        }
    } else if left.len() == 0 && right.len() == 0 {
        assert(left =~= right);
    }
}

proof fn lemma_bytes_transitive(first: Seq<u8>, second: Seq<u8>, third: Seq<u8>)
    requires
        bytes_before(first, second),
        bytes_before(second, third),
    ensures
        bytes_before(first, third),
    decreases first.len(),
{
    if first.len() > 0 && first[0] == second[0] && second[0] == third[0] {
        lemma_bytes_transitive(first.skip(1), second.skip(1), third.skip(1));
    }
}

proof fn lemma_parts_total(left: Seq<Seq<u8>>, right: Seq<Seq<u8>>)
    ensures
        parts_before(left, right) || parts_before(right, left) || left == right,
        !(parts_before(left, right) && parts_before(right, left)),
        left == right ==> !parts_before(left, right),
    decreases left.len(),
{
    if left.len() > 0 && right.len() > 0 {
        lemma_bytes_total(left[0], right[0]);
        if left[0] == right[0] {
            lemma_parts_total(left.skip(1), right.skip(1));
            if left.skip(1) == right.skip(1) {
                assert(left =~= seq![left[0]] + left.skip(1));
                assert(right =~= seq![right[0]] + right.skip(1));
            }
        }
    } else if left.len() == 0 && right.len() == 0 {
        assert(left =~= right);
    }
}

proof fn lemma_parts_transitive(
    first: Seq<Seq<u8>>,
    second: Seq<Seq<u8>>,
    third: Seq<Seq<u8>>,
)
    requires
        parts_before(first, second),
        parts_before(second, third),
    ensures
        parts_before(first, third),
    decreases first.len(),
{
    if first.len() > 0 {
        if first[0] == second[0] && second[0] == third[0] {
            lemma_parts_transitive(first.skip(1), second.skip(1), third.skip(1));
        } else if first[0] != second[0] && second[0] != third[0] {
            if component_rank(first[0]) == component_rank(second[0]) && component_rank(second[0])
                == component_rank(third[0]) {
                lemma_bytes_transitive(first[0], second[0], third[0]);
            }
            lemma_bytes_total(first[0], third[0]);
        }
    }
}

/// Of two paths either one comes before the other, or they are the same.
pub(crate) proof fn lemma_path_total(left: Seq<u8>, right: Seq<u8>)
    ensures
        path_before(left, right) || path_before(right, left) || same_path(left, right),
        !(path_before(left, right) && path_before(right, left)),
        same_path(left, right) ==> !path_before(left, right),
{
    lemma_parts_total(components(left), components(right));
}

/// The order of paths is transitive.
pub(crate) proof fn lemma_path_transitive(first: Seq<u8>, second: Seq<u8>, third: Seq<u8>)
    requires
        path_before(first, second),
        path_before(second, third),
    ensures
        path_before(first, third),
{
    lemma_parts_transitive(components(first), components(second), components(third));
}

/// The components of a path, kept for comparison.
#[derive(Debug, PartialEq, Eq)]
pub struct Parts {
    pub parts: Vec<Vec<u8>>,
}

impl DeepView for Parts {
    type V = Seq<Seq<u8>>;

    open spec fn deep_view(&self) -> Seq<Seq<u8>> {
        text::contents(self.parts@)
    }
}

impl Parts {
    /// The components of `path`.
    pub fn of(path: &FilePath) -> (parts: Parts)
        ensures
            parts.deep_view() == components(path@),
    {
        Parts { parts: path.components() }
    }

    /// Whether the components are the same; the last ones are compared first.
    pub fn same_as(&self, other: &Parts) -> (same: bool)
        ensures
            same == (self.deep_view() == other.deep_view()),
    {
        if self.parts.len() != other.parts.len() {
            assert(self.deep_view().len() != other.deep_view().len());
            return false;
        }
        let mut i: usize = self.parts.len();
        while i > 0
            invariant
                i <= self.parts.len() == other.parts.len(),
                forall|j: int|
                    i <= j < self.parts.len() ==> (#[trigger] self.parts@[j])@ == other.parts@[j]@,
            decreases i,
        {
            if !text::same_bytes(self.parts[i - 1].as_slice(), other.parts[i - 1].as_slice()) {
                assert(self.deep_view()[i - 1] != other.deep_view()[i - 1]);
                return false;
            }
            i -= 1;
        }
        assert(self.deep_view() =~= other.deep_view());
        true
    }
}

/// Whether `all` hold the components `parts`.
pub fn contains_parts(all: &Vec<Parts>, parts: &Parts) -> (found: bool)
    ensures
        found == all.deep_view().contains(parts.deep_view()),
{
    let ghost shown = all.deep_view();
    let mut i: usize = 0;
    while i < all.len()
        invariant
            i <= all.len(),
            shown == all.deep_view(),
            forall|j: int| 0 <= j < i ==> shown[j] != parts.deep_view(),
        decreases all.len() - i,
    {
        if all[i].same_as(parts) {
            assert(shown[i as int] == parts.deep_view());
            return true;
        }
        assert(shown[i as int] == all[i as int].deep_view());
        i += 1;
    }
    false
}

/// A path lies within another exactly when it has the components of the other and perhaps some
/// behind them; so it lies within itself, and what lies within something within it lies within it.
pub proof fn law_paths_lie_within(path: Seq<u8>, base: Seq<u8>, top: Seq<u8>)
    ensures
        path_within(path, base) <==> exists|rest: Seq<Seq<u8>>|
            components(path) == #[trigger] (components(base) + rest),
        path_within(path, path),
        path_within(path, base) && path_within(base, top) ==> path_within(path, top),
        path_within(path, base) && path_within(base, path) <==> same_path(path, base),
{
    let whole = components(path);
    let front = components(base);
    if path_within(path, base) {
        let rest = whole.skip(front.len() as int);
        assert(whole =~= front + rest);
    }
    if exists|rest: Seq<Seq<u8>>| whole == #[trigger] (front + rest) {
        let rest = choose|rest: Seq<Seq<u8>>| whole == #[trigger] (front + rest);
        assert((front + rest).take(front.len() as int) =~= front);
    }
    assert(whole.take(whole.len() as int) =~= whole);
    if path_within(path, base) && path_within(base, top) {
        let upper = components(top);
        assert(front.take(upper.len() as int) =~= upper);
        assert(whole.take(upper.len() as int) =~= upper) by {
            assert forall|i: int| 0 <= i < upper.len() implies whole[i] == #[trigger] upper[i] by {
                assert(front[i] == upper[i]);
                assert(whole.take(front.len() as int)[i] == front[i]);
            }
        }
    }
    if path_within(path, base) && path_within(base, path) {
        assert(whole.len() == front.len());
        assert(whole.take(front.len() as int) =~= whole);
    }
}

} // verus!
