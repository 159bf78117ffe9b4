//! File-system paths as lists of components.
//!
//! A path is a flag saying whether it starts at the root, followed by the
//! names of its components. Prefix tests, parents and joins work on whole
//! components, never on raw characters.

use crate::order::{bytes_before, list_before, slice_before};
use crate::text::{
    lemma_pieces_after_mark, lemma_pieces_hold_no_mark, lemma_pieces_of_joined, lemma_pieces_of_plain, pieces,
};
use vstd::prelude::*;
use vstd::string::*;
use vstd::utf8::{encode_utf8, encode_utf8_decode_utf8};

verus! {

/// The mathematical value of a path.
pub struct PathModel {
    /// Whether the path starts at the file-system root.
    pub absolute: bool,
    /// The names of the components, outermost first.
    pub parts: Seq<Seq<char>>,
}

/// The views of a list of strings, in order.
pub open spec fn names_view(names: Seq<String>) -> Seq<Seq<char>> {
    Seq::new(names.len(), |i: int| names[i]@)
}

impl PathModel {
    /// Whether `base` is a prefix of this path, counted in whole
    /// components. The root counts as a component, so a relative base is a
    /// prefix of an absolute path only when it is empty.
    pub open spec fn starts_with(self, base: PathModel) -> bool {
        &&& base.absolute ==> self.absolute
        &&& self.absolute && !base.absolute ==> base.parts.len() == 0
        &&& base.parts.is_prefix_of(self.parts)
    }

    /// This path extended by one component.
    pub open spec fn join(self, name: Seq<char>) -> PathModel {
        PathModel { absolute: self.absolute, parts: self.parts.push(name) }
    }

    /// The path without its last component, if it has one.
    pub open spec fn parent(self) -> Option<PathModel> {
        if self.parts.len() == 0 {
            None
        } else {
            Some(PathModel { absolute: self.absolute, parts: self.parts.drop_last() })
        }
    }

    /// The last component, unless the path is empty or ends in `..`.
    pub open spec fn file_name(self) -> Option<Seq<char>> {
        if self.parts.len() == 0 || self.parts.last() == seq!['.', '.'] {
            None
        } else {
            Some(self.parts.last())
        }
    }

    /// The direct child of this directory that lies on the way to `file`:
    /// this path extended by the next component of `file`. A `file` equal
    /// to this path stands for itself; one that does not lie below this
    /// path has no such child.
    pub open spec fn child_toward(self, file: PathModel) -> Option<PathModel> {
        if !file.starts_with(self) {
            None
        } else if file.parts.len() == self.parts.len() {
            Some(file)
        } else {
            Some(PathModel { absolute: self.absolute, parts: self.parts.push(file.parts[self.parts.len() as int]) })
        }
    }

    /// Whether every component is a name that the text of a path can hold.
    pub open spec fn wf(self) -> bool {
        forall|i: int| 0 <= i < self.parts.len() ==> is_component(#[trigger] self.parts[i])
    }

    /// The text of the path: the components separated by `/`, after a
    /// leading `/` when the path is absolute.
    pub open spec fn display(self) -> Seq<char> {
        if self.absolute {
            seq!['/'] + join_names(self.parts)
        } else {
            join_names(self.parts)
        }
    }

    /// Whether this path sorts strictly before `other`. Absolute paths
    /// come before relative ones; otherwise the components are compared in
    /// order, each by the bytes of its UTF-8 encoding.
    pub open spec fn sorts_before(self, other: PathModel) -> bool {
        if self.absolute != other.absolute {
            self.absolute
        } else {
            list_before(encoded_names(self.parts), encoded_names(other.parts))
        }
    }
}

/// The UTF-8 encodings of a list of names, in order.
pub open spec fn encoded_names(parts: Seq<Seq<char>>) -> Seq<Seq<u8>> {
    Seq::new(parts.len(), |i: int| encode_utf8(parts[i]))
}

/// The names separated by single `/` characters.
pub open spec fn join_names(parts: Seq<Seq<char>>) -> Seq<char>
    decreases parts.len(),
{
    if parts.len() == 0 {
        Seq::empty()
    } else if parts.len() == 1 {
        parts[0]
    } else {
        join_names(parts.drop_last()) + seq!['/'] + parts.last()
    }
}

/// The pieces of `text` between its `/` characters, empty pieces
/// included.
pub open spec fn segments(text: Seq<char>) -> Seq<Seq<char>> {
    pieces(text, '/')
}

/// Whether a piece of path text names a component: it is neither empty nor
/// the single dot that stands for the current directory.
pub open spec fn is_name(segment: Seq<char>) -> bool {
    segment.len() > 0 && segment != seq!['.']
}

/// Whether a name can stand as one component in the text of a path: it is
/// not empty, not the single dot, and holds no `/`.
pub open spec fn is_component(name: Seq<char>) -> bool {
    is_name(name) && !name.contains('/')
}

/// The pieces that name components, in order.
pub open spec fn names_among(pieces: Seq<Seq<char>>) -> Seq<Seq<char>>
    decreases pieces.len(),
{
    if pieces.len() == 0 {
        Seq::empty()
    } else if is_name(pieces.last()) {
        names_among(pieces.drop_last()).push(pieces.last())
    } else {
        names_among(pieces.drop_last())
    }
}

/// The path that a text denotes. It is absolute when the text starts with
/// `/`; its components are the pieces between slashes, without the empty
/// ones and the single dots.
pub open spec fn parse_path(text: Seq<char>) -> PathModel {
    PathModel { absolute: text.len() > 0 && text[0] == '/', parts: names_among(segments(text)) }
}

/// Names with the same encoding are the same name.
pub proof fn lemma_encoded_names_injective(a: Seq<Seq<char>>, b: Seq<Seq<char>>)
    requires
        encoded_names(a) == encoded_names(b),
    ensures
        a == b,
{
    assert(a.len() == encoded_names(a).len());
    assert(b.len() == encoded_names(b).len());
    assert forall|i: int| 0 <= i < a.len() implies a[i] == b[i] by {
        assert(encoded_names(a)[i] == encoded_names(b)[i]);
        encode_utf8_decode_utf8(a[i]);
        encode_utf8_decode_utf8(b[i]);
    }
    assert(a =~= b);
}

/// Of two different paths exactly one sorts before the other, and no path
/// sorts before itself.
pub proof fn lemma_sorts_before_total(a: PathModel, b: PathModel)
    ensures
        a != b ==> (a.sorts_before(b) || b.sorts_before(a)),
        !(a.sorts_before(b) && b.sorts_before(a)),
        !a.sorts_before(a),
{
    crate::order::lemma_list_before_total(encoded_names(a.parts), encoded_names(b.parts));
    crate::order::lemma_list_before_irreflexive(encoded_names(a.parts));
    if a.absolute == b.absolute && encoded_names(a.parts) == encoded_names(b.parts) {
        lemma_encoded_names_injective(a.parts, b.parts);
    }
}

/// The sorting order of paths is transitive.
pub proof fn lemma_sorts_before_transitive(a: PathModel, b: PathModel, c: PathModel)
    requires
        a.sorts_before(b),
        b.sorts_before(c),
    ensures
        a.sorts_before(c),
{
    if a.absolute == b.absolute && b.absolute == c.absolute {
        crate::order::lemma_list_before_transitive(
            encoded_names(a.parts),
            encoded_names(b.parts),
            encoded_names(c.parts),
        );
    }
}

/// Every piece that is kept as a name is one of the pieces.
pub proof fn lemma_names_are_pieces(pieces: Seq<Seq<char>>, i: int)
    requires
        0 <= i < names_among(pieces).len(),
    ensures
        is_name(names_among(pieces)[i]),
        pieces.contains(names_among(pieces)[i]),
    decreases pieces.len(),
{
    if pieces.len() > 0 {
        let before = names_among(pieces.drop_last());
        if i < before.len() {
            lemma_names_are_pieces(pieces.drop_last(), i);
            let k = choose|k: int| 0 <= k < pieces.drop_last().len() && pieces.drop_last()[k] == before[i];
            assert(pieces[k] == before[i]);
        } else {
            assert(pieces[pieces.len() - 1] == pieces.last());
        }
    }
}

/// The path that a text denotes is well formed.
pub proof fn lemma_parsed_path_is_wf(text: Seq<char>)
    ensures
        parse_path(text).wf(),
{
    let cut = segments(text);
    let names = names_among(cut);
    lemma_pieces_hold_no_mark(text, '/');
    assert forall|i: int| 0 <= i < names.len() implies is_component(#[trigger] names[i]) by {
        lemma_names_are_pieces(cut, i);
        let k = choose|k: int| 0 <= k < cut.len() && cut[k] == names[i];
        assert(!cut[k].contains('/'));
    }
}

proof fn lemma_names_among_split(first: Seq<Seq<char>>, second: Seq<Seq<char>>)
    ensures
        names_among(first + second) == names_among(first) + names_among(second),
    decreases second.len(),
{
    if second.len() == 0 {
        assert(first + second =~= first);
        assert(names_among(first) + names_among(second) =~= names_among(first));
    } else {
        assert((first + second).drop_last() =~= first + second.drop_last());
        assert((first + second).last() == second.last());
        lemma_names_among_split(first, second.drop_last());
        if is_name(second.last()) {
            assert((names_among(first) + names_among(second.drop_last())).push(second.last()) =~= names_among(
                first,
            ) + names_among(second.drop_last()).push(second.last()));
        }
    }
}

proof fn lemma_names_among_names(parts: Seq<Seq<char>>)
    requires
        forall|i: int| 0 <= i < parts.len() ==> is_name(#[trigger] parts[i]),
    ensures
        names_among(parts) == parts,
    decreases parts.len(),
{
    if parts.len() > 0 {
        lemma_names_among_names(parts.drop_last());
        assert(parts.drop_last().push(parts.last()) =~= parts);
    } else {
        assert(parts =~= Seq::empty());
    }
}

proof fn lemma_joined_names_cut_back(parts: Seq<Seq<char>>)
    requires
        parts.len() >= 1,
        forall|i: int| 0 <= i < parts.len() ==> is_component(#[trigger] parts[i]),
    ensures
        segments(join_names(parts)) == parts,
        join_names(parts).len() >= 1,
        join_names(parts)[0] != '/',
    decreases parts.len(),
{
    let last = parts.last();
    assert(is_component(parts[parts.len() - 1]));
    if parts.len() == 1 {
        lemma_pieces_of_plain(parts[0], '/');
        assert(seq![parts[0]] =~= parts);
        assert(parts[0].contains(parts[0][0]));
    } else {
        let lead = parts.drop_last();
        assert forall|i: int| 0 <= i < lead.len() implies is_component(#[trigger] lead[i]) by {
            assert(lead[i] == parts[i]);
        }
        lemma_joined_names_cut_back(lead);
        lemma_pieces_of_joined(join_names(lead), '/', last);
        assert(lead.push(last) =~= parts);
        assert(join_names(parts)[0] == join_names(lead)[0]);
    }
}

proof fn lemma_no_names_among_empty_pieces(count: nat)
    ensures
        names_among(Seq::new(count, |i: int| Seq::<char>::empty())) == Seq::<Seq<char>>::empty(),
    decreases count,
{
    let all = Seq::new(count, |i: int| Seq::<char>::empty());
    if count > 0 {
        assert(all.drop_last() =~= Seq::new((count - 1) as nat, |i: int| Seq::<char>::empty()));
        assert(all.last() == Seq::<char>::empty());
        lemma_no_names_among_empty_pieces((count - 1) as nat);
    }
}

/// Reading the text of a well-formed path gives the path back.
pub proof fn lemma_display_parses_back(path: PathModel)
    requires
        path.wf(),
    ensures
        parse_path(path.display()) == path,
{
    let joined = join_names(path.parts);
    let nothing = Seq::<char>::empty();
    if path.parts.len() == 0 {
        assert(joined =~= nothing);
        assert(path.parts =~= Seq::<Seq<char>>::empty());
        if path.absolute {
            assert(path.display() =~= seq!['/'] + nothing);
            lemma_pieces_after_mark('/', nothing);
            assert(segments(path.display()) =~= Seq::new(2, |i: int| nothing));
            lemma_no_names_among_empty_pieces(2);
            assert(path.display()[0] == '/');
        } else {
            assert(path.display() =~= nothing);
            assert(segments(path.display()) =~= Seq::new(1, |i: int| nothing));
            lemma_no_names_among_empty_pieces(1);
        }
    } else {
        lemma_joined_names_cut_back(path.parts);
        lemma_names_among_names(path.parts);
        if path.absolute {
            lemma_pieces_after_mark('/', joined);
            let first = seq![nothing];
            lemma_names_among_split(first, path.parts);
            assert(first =~= Seq::new(1, |i: int| nothing));
            lemma_no_names_among_empty_pieces(1);
            assert(Seq::<Seq<char>>::empty() + path.parts =~= path.parts);
            assert(path.display()[0] == '/');
        } else {
            assert(path.display() == joined);
        }
    }
}

/// A path held as owned component names.
#[derive(Debug, PartialEq, Eq)]
pub struct FsPath {
    absolute: bool,
    parts: Vec<String>,
}

impl View for FsPath {
    type V = PathModel;

    closed spec fn view(&self) -> PathModel {
        PathModel { absolute: self.absolute, parts: names_view(self.parts@) }
    }
}

impl Clone for FsPath {
    fn clone(&self) -> (copy: FsPath)
        ensures
            copy@ == self@,
    {
        let mut parts: Vec<String> = Vec::new();
        let mut i: usize = 0;
        while i < self.parts.len()
            invariant
                i <= self.parts.len(),
                parts.len() == i,
                forall|j: int| 0 <= j < i ==> parts[j]@ == self.parts[j]@,
            decreases self.parts.len() - i,
        {
            parts.push(self.parts[i].clone());
            i += 1;
        }
        assert(names_view(parts@) =~= names_view(self.parts@));
        FsPath { absolute: self.absolute, parts }
    }
}

impl FsPath {
    /// The empty relative path.
    pub fn empty() -> (p: FsPath)
        ensures
            p@ == (PathModel { absolute: false, parts: Seq::empty() }),
            p@.wf(),
    {
        let p = FsPath { absolute: false, parts: Vec::new() };
        assert(p@.parts =~= Seq::empty());
        p
    }

    /// The file-system root.
    pub fn root() -> (p: FsPath)
        ensures
            p@ == (PathModel { absolute: true, parts: Seq::empty() }),
            p@.wf(),
    {
        let p = FsPath { absolute: true, parts: Vec::new() };
        assert(p@.parts =~= Seq::empty());
        p
    }

    /// Whether the path starts at the root.
    pub fn is_absolute(&self) -> (b: bool)
        ensures
            b == self@.absolute,
    {
        self.absolute
    }

    /// The number of components.
    pub fn depth(&self) -> (n: usize)
        ensures
            n == self@.parts.len(),
    {
        self.parts.len()
    }

    /// Whether the two paths have the same components.
    pub fn same_as(&self, other: &FsPath) -> (b: bool)
        ensures
            b == (self@ == other@),
    {
        if self.absolute != other.absolute || self.parts.len() != other.parts.len() {
            assert(self@.parts.len() == self.parts.len() && other@.parts.len() == other.parts.len());
            return false;
        }
        let mut i: usize = 0;
        while i < self.parts.len()
            invariant
                i <= self.parts.len(),
                self.parts.len() == other.parts.len(),
                forall|j: int| 0 <= j < i ==> self@.parts[j] == other@.parts[j],
            decreases self.parts.len() - i,
        {
            if self.parts[i] != other.parts[i] {
                assert(self@.parts[i as int] != other@.parts[i as int]);
                return false;
            }
            i += 1;
        }
        assert(self@.parts =~= other@.parts);
        true
    }

    /// Whether `base` is a prefix of this path, in whole components.
    pub fn starts_with(&self, base: &FsPath) -> (b: bool)
        ensures
            b == self@.starts_with(base@),
    {
        if base.absolute && !self.absolute {
            return false;
        }
        if self.absolute && !base.absolute {
            return base.parts.len() == 0;
        }
        if base.parts.len() > self.parts.len() {
            return false;
        }
        let mut i: usize = 0;
        while i < base.parts.len()
            invariant
                i <= base.parts.len() <= self.parts.len(),
                forall|j: int| 0 <= j < i ==> self@.parts[j] == base@.parts[j],
            decreases base.parts.len() - i,
        {
            if self.parts[i] != base.parts[i] {
                assert(self@.parts[i as int] != base@.parts[i as int]);
                return false;
            }
            i += 1;
        }
        assert(base@.parts =~= self@.parts.subrange(0, base@.parts.len() as int));
        true
    }

    /// This path extended by the component `name`.
    pub fn join(&self, name: &str) -> (p: FsPath)
        ensures
            p@ == self@.join(name@),
            self@.wf() && is_component(name@) ==> p@.wf(),
    {
        let mut p = self.clone();
        p.parts.push(String::from_str(name));
        assert(p@.parts =~= self@.parts.push(name@));
        p
    }

    /// The path without its last component, if it has one.
    pub fn parent(&self) -> (p: Option<FsPath>)
        ensures
            p.is_some() == self@.parent().is_some(),
            p.is_some() ==> p.unwrap()@ == self@.parent().unwrap(),
            p.is_some() && self@.wf() ==> p.unwrap()@.wf(),
    {
        if self.parts.len() == 0 {
            return None;
        }
        let mut p = self.clone();
        p.parts.pop();
        assert(p@.parts =~= self@.parts.drop_last());
        Some(p)
    }

    /// The last component, unless the path is empty or ends in `..`.
    pub fn file_name(&self) -> (name: Option<String>)
        ensures
            name.is_some() == self@.file_name().is_some(),
            name.is_some() ==> name.unwrap()@ == self@.file_name().unwrap(),
    {
        if self.parts.len() == 0 {
            return None;
        }
        let last = &self.parts[self.parts.len() - 1];
        proof {
            reveal_strlit("..");
            assert(last@ == self@.parts.last());
            assert(".."@ =~= seq!['.', '.']);
        }
        if last.as_str().unicode_len() == 2 && last.as_str().get_char(0) == '.' && last.as_str().get_char(1) == '.' {
            assert(last@ =~= seq!['.', '.']);
            return None;
        }
        Some(last.clone())
    }

    /// The direct child of this directory on the way to `file`.
    pub fn child_toward(&self, file: &FsPath) -> (child: Option<FsPath>)
        ensures
            child.is_some() == self@.child_toward(file@).is_some(),
            child.is_some() ==> child.unwrap()@ == self@.child_toward(file@).unwrap(),
            child.is_some() && self@.wf() && file@.wf() ==> child.unwrap()@.wf(),
    {
        if !file.starts_with(self) {
            return None;
        }
        if file.parts.len() == self.parts.len() {
            return Some(file.clone());
        }
        let mut child = self.clone();
        child.parts.push(file.parts[self.parts.len()].clone());
        assert(child@.parts =~= self@.parts.push(file@.parts[self@.parts.len() as int]));
        Some(child)
    }
    /// Reads a path from its text.
    pub fn parse(text: &str) -> (p: FsPath)
        ensures
            p@ == parse_path(text@),
            p@.wf(),
    {
        proof {
            lemma_parsed_path_is_wf(text@);
        }
        let n = text.unicode_len();
        let absolute = n > 0 && text.get_char(0) == '/';
        let mut parts: Vec<String> = Vec::new();
        let mut start: usize = 0;
        let mut i: usize = 0;
        let ghost mut closed: Seq<Seq<char>> = Seq::empty();
        assert(text@.take(0) =~= Seq::empty());
        assert(text@.subrange(0, 0) =~= Seq::empty());
        assert(seq![Seq::<char>::empty()] =~= Seq::<Seq<char>>::empty().push(Seq::empty()));
        assert(names_view(parts@) =~= names_among(closed));
        while i < n
            invariant
                n == text@.len(),
                start <= i <= n,
                segments(text@.take(i as int)) == closed.push(text@.subrange(start as int, i as int)),
                names_view(parts@) == names_among(closed),
            decreases n - i,
        {
            let c = text.get_char(i);
            proof {
                let next = text@.take(i + 1);
                assert(next.drop_last() =~= text@.take(i as int));
                assert(next.last() == c);
                let before = segments(text@.take(i as int));
                assert(before.drop_last() =~= closed);
                assert(before.last() == text@.subrange(start as int, i as int));
            }
            if c == '/' {
                let piece = text.substring_char(start, i);
                Self::push_if_name(&mut parts, piece);
                proof {
                    assert(closed.push(piece@).drop_last() =~= closed);
                    closed = closed.push(piece@);
                    assert(text@.subrange(i + 1, i + 1) =~= Seq::empty());
                }
                start = i + 1;
            } else {
                assert(text@.subrange(start as int, i as int).push(c) =~= text@.subrange(
                    start as int,
                    i + 1,
                ));
            }
            i += 1;
        }
        let piece = text.substring_char(start, n);
        Self::push_if_name(&mut parts, piece);
        proof {
            assert(text@.take(n as int) =~= text@);
            assert(closed.push(piece@).drop_last() =~= closed);
        }
        FsPath { absolute, parts }
    }

    fn push_if_name(parts: &mut Vec<String>, piece: &str)
        ensures
            names_view(final(parts)@) == if is_name(piece@) {
                names_view(old(parts)@).push(piece@)
            } else {
                names_view(old(parts)@)
            },
    {
        let len = piece.unicode_len();
        if len == 0 {
            return ;
        }
        if len == 1 && piece.get_char(0) == '.' {
            assert(piece@ =~= seq!['.']);
            return ;
        }
        assert(piece@ != seq!['.']) by {
            if piece@ == seq!['.'] {
                assert(seq!['.'].len() == 1);
                assert(seq!['.'][0] == '.');
            }
        }
        parts.push(String::from_str(piece));
        assert(names_view(parts@) =~= names_view(old(parts)@).push(piece@));
    }

    /// The text of the path.
    pub fn display(&self) -> (text: String)
        ensures
            text@ == self@.display(),
    {
        proof {
            reveal_strlit("/");
        }
        let mut text = String::new();
        if self.absolute {
            text.append("/");
        }
        let ghost lead = text@;
        let mut i: usize = 0;
        assert(names_view(self.parts@).take(0) =~= Seq::empty());
        assert(text@ =~= lead + join_names(names_view(self.parts@).take(0)));
        while i < self.parts.len()
            invariant
                i <= self.parts.len(),
                "/"@ == seq!['/'],
                text@ == lead + join_names(names_view(self.parts@).take(i as int)),
            decreases self.parts.len() - i,
        {
            let ghost names = names_view(self.parts@);
            proof {
                assert(names.take(i + 1).drop_last() =~= names.take(i as int));
                assert(names.take(i + 1).last() == self.parts[i as int]@);
            }
            if i > 0 {
                text.append("/");
            } else {
                assert(names.take(1)[0] == self.parts[0]@);
            }
            text.append(self.parts[i].as_str());
            i += 1;
            assert(text@ =~= lead + join_names(names.take(i as int)));
        }
        assert(names_view(self.parts@).take(i as int) =~= names_view(self.parts@));
        assert(text@ =~= self@.display());
        text
    }

    /// Whether this path sorts strictly before `other`.
    pub fn sorts_before(&self, other: &FsPath) -> (b: bool)
        ensures
            b == self@.sorts_before(other@),
    {
        if self.absolute != other.absolute {
            return self.absolute;
        }
        let ghost mine = encoded_names(self@.parts);
        let ghost theirs = encoded_names(other@.parts);
        let mut i: usize = 0;
        assert(mine.skip(0) =~= mine && theirs.skip(0) =~= theirs);
        while i < self.parts.len() && i < other.parts.len()
            invariant
                i <= self.parts.len(),
                i <= other.parts.len(),
                self.absolute == other.absolute,
                mine == encoded_names(self@.parts),
                theirs == encoded_names(other@.parts),
                list_before(mine, theirs) == list_before(mine.skip(i as int), theirs.skip(i as int)),
            decreases self.parts.len() - i,
        {
            proof {
                let ra = mine.skip(i as int);
                let rb = theirs.skip(i as int);
                assert(ra[0] == encode_utf8(self.parts[i as int]@));
                assert(rb[0] == encode_utf8(other.parts[i as int]@));
                assert(ra.drop_first() =~= mine.skip(i + 1));
                assert(rb.drop_first() =~= theirs.skip(i + 1));
                encode_utf8_decode_utf8(self.parts[i as int]@);
                encode_utf8_decode_utf8(other.parts[i as int]@);
            }
            if self.parts[i] != other.parts[i] {
                let a = self.parts[i].as_str().as_bytes();
                let b = other.parts[i].as_str().as_bytes();
                proof {
                    assert(a@ == encode_utf8(self.parts[i as int]@));
                    assert(b@ == encode_utf8(other.parts[i as int]@));
                    assert(a@ != b@) by {
                        if a@ == b@ {
                            assert(self.parts[i as int]@ == other.parts[i as int]@);
                        }
                    }
                    let ra = mine.skip(i as int);
                    let rb = theirs.skip(i as int);
                    assert(ra.len() > 0 && rb.len() > 0);
                    assert(list_before(ra, rb) == bytes_before(ra[0], rb[0]));
                }
                return slice_before(a, b);
            }
            i += 1;
        }
        assert(mine.skip(i as int).len() == self.parts.len() - i);
        assert(theirs.skip(i as int).len() == other.parts.len() - i);
        i < other.parts.len()
    }
}

} // verus!
