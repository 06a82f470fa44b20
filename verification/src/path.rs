//! Filesystem paths as sequences of components, with the component semantics of
//! Unix paths: a root, `.` at the start of a relative path, `..`, and names.

use crate::text::{chars_of, concat2, join, join_seq, string_of, str_eq, to_string, views};
use vstd::prelude::*;

verus! {

/// One component of a path.
pub enum Component {
    RootDir,
    CurDir,
    ParentDir,
    Normal(String),
}

/// The mathematical form of a component.
pub enum Part {
    Root,
    Cur,
    Parent,
    Name(Seq<char>),
}

pub open spec fn part_of(c: Component) -> Part {
    match c {
        Component::RootDir => Part::Root,
        Component::CurDir => Part::Cur,
        Component::ParentDir => Part::Parent,
        Component::Normal(s) => Part::Name(s@),
    }
}

pub open spec fn parts_of(v: Seq<Component>) -> Seq<Part> {
    v.map_values(|c: Component| part_of(c))
}

/// A path, as the components that iterating it yields.
pub struct FsPath {
    pub components: Vec<Component>,
}

/// The pieces of `s` between slashes (there is always at least one).
pub open spec fn split_slash(s: Seq<char>) -> Seq<Seq<char>>
    decreases s.len(),
{
    if s.len() == 0 {
        seq![Seq::<char>::empty()]
    } else {
        let r = split_slash(s.drop_last());
        if s.last() == '/' {
            r.push(Seq::<char>::empty())
        } else {
            r.update(r.len() - 1, r.last().push(s.last()))
        }
    }
}

/// What one piece between slashes contributes: nothing for an empty piece or `.`.
pub open spec fn piece_parts(seg: Seq<char>) -> Seq<Part> {
    if seg.len() == 0 || seg == seq!['.'] {
        Seq::empty()
    } else if seg == seq!['.', '.'] {
        seq![Part::Parent]
    } else {
        seq![Part::Name(seg)]
    }
}

/// The components of a run of pieces.
pub open spec fn pieces_parts(segs: Seq<Seq<char>>) -> Seq<Part>
    decreases segs.len(),
{
    if segs.len() == 0 {
        Seq::empty()
    } else {
        pieces_parts(segs.drop_last()) + piece_parts(segs.last())
    }
}

/// The components of a path written as `s`: a leading `/` is the root, a leading
/// `.` piece of a relative path is kept as `.`, other `.` pieces and empty pieces
/// are dropped.
pub open spec fn parse_parts(s: Seq<char>) -> Seq<Part> {
    let segs = split_slash(s);
    if s.len() > 0 && s[0] == '/' {
        seq![Part::Root] + pieces_parts(segs.drop_first())
    } else if segs[0] == seq!['.'] {
        seq![Part::Cur] + pieces_parts(segs.drop_first())
    } else {
        pieces_parts(segs)
    }
}

pub proof fn lemma_split_nonempty(s: Seq<char>)
    ensures
        split_slash(s).len() >= 1,
    decreases s.len(),
{
    if s.len() > 0 {
        lemma_split_nonempty(s.drop_last());
    }
}

/// Whether the path starts at the root.
pub open spec fn is_abs(p: Seq<Part>) -> bool {
    p.len() > 0 && p[0] == Part::Root
}

/// `base` is a prefix of `p`, component by component.
pub open spec fn has_prefix(p: Seq<Part>, base: Seq<Part>) -> bool {
    base.len() <= p.len() && p.take(base.len() as int) == base
}

/// `child` is a suffix of `p`, component by component.
pub open spec fn has_suffix(p: Seq<Part>, child: Seq<Part>) -> bool {
    child.len() <= p.len() && p.skip(p.len() - child.len()) == child
}

/// `p` with `q` appended, as joining two paths does: an absolute `q` replaces `p`,
/// and a leading `.` of `q` disappears when `p` is not empty.
pub open spec fn join_parts(p: Seq<Part>, q: Seq<Part>) -> Seq<Part> {
    if is_abs(q) {
        q
    } else if p.len() == 0 {
        q
    } else if q.len() > 0 && q[0] == Part::Cur {
        p + q.drop_first()
    } else {
        p + q
    }
}

/// The parent: the path without its last component, unless that is the root or
/// there is none.
pub open spec fn parent_parts(p: Seq<Part>) -> Option<Seq<Part>> {
    if p.len() == 0 || p.last() == Part::Root {
        None
    } else {
        Some(p.drop_last())
    }
}

/// The text of a component.
pub open spec fn part_text(c: Part) -> Seq<char> {
    match c {
        Part::Root => seq!['/'],
        Part::Cur => seq!['.'],
        Part::Parent => seq!['.', '.'],
        Part::Name(n) => n,
    }
}

/// The path written out: components joined by `/`, after the root's own `/`.
pub open spec fn render_parts(p: Seq<Part>) -> Seq<char> {
    if is_abs(p) {
        seq!['/'] + join_seq(p.drop_first().map_values(|c: Part| part_text(c)), seq!['/'])
    } else {
        join_seq(p.map_values(|c: Part| part_text(c)), seq!['/'])
    }
}

/// Lexical normalization: `..` drops the last name kept so far, names are kept,
/// the root and `.` are skipped.
pub open spec fn lexical_names(p: Seq<Part>) -> Seq<Seq<char>>
    decreases p.len(),
{
    if p.len() == 0 {
        Seq::empty()
    } else {
        let r = lexical_names(p.drop_last());
        match p.last() {
            Part::Parent => if r.len() > 0 { r.drop_last() } else { r },
            Part::Name(n) => r.push(n),
            _ => r,
        }
    }
}

/// Names as components.
pub open spec fn names_parts(names: Seq<Seq<char>>) -> Seq<Part> {
    names.map_values(|n: Seq<char>| Part::Name(n))
}

pub open spec fn seg_views(v: Seq<Vec<char>>) -> Seq<Seq<char>> {
    v.map_values(|x: Vec<char>| x@)
}

fn clone_component(c: &Component) -> (r: Component)
    ensures
        part_of(r) == part_of(*c),
{
    match c {
        Component::RootDir => Component::RootDir,
        Component::CurDir => Component::CurDir,
        Component::ParentDir => Component::ParentDir,
        Component::Normal(s) => Component::Normal(s.clone()),
    }
}

fn is_dot(v: &Vec<char>) -> (r: bool)
    ensures
        r == (v@ == seq!['.']),
{
    proof {
        lemma_dot(v@);
    }
    v.len() == 1 && v[0] == '.'
}

fn is_dot_dot(v: &Vec<char>) -> (r: bool)
    ensures
        r == (v@ == seq!['.', '.']),
{
    let r = v.len() == 2 && v[0] == '.' && v[1] == '.';
    proof {
        if v@.len() == 2 && v@[0] == '.' && v@[1] == '.' {
            assert(v@ =~= seq!['.', '.']);
        }
    }
    r
}

proof fn lemma_dot(v: Seq<char>)
    ensures
        v == seq!['.'] <==> (v.len() == 1 && v[0] == '.'),
{
    if v.len() == 1 && v[0] == '.' {
        assert(v =~= seq!['.']);
    }
}

/// Appends the components contributed by one piece.
fn push_piece(out: &mut Vec<Component>, seg: &Vec<char>)
    ensures
        parts_of(final(out)@) == parts_of(old(out)@) + piece_parts(seg@),
{
    proof {
        lemma_dot(seg@);
    }
    let ghost before = out@;
    if seg.len() == 0 || is_dot(seg) {
        assert(parts_of(out@) =~= parts_of(before) + Seq::<Part>::empty());
    } else if is_dot_dot(seg) {
        out.push(Component::ParentDir);
        assert(parts_of(out@) =~= parts_of(before) + seq![Part::Parent]);
    } else {
        out.push(Component::Normal(string_of(seg)));
        assert(parts_of(out@) =~= parts_of(before) + seq![Part::Name(seg@)]);
    }
}

/// The pieces of `cs` between slashes.
fn split_pieces(cs: &Vec<char>) -> (r: Vec<Vec<char>>)
    ensures
        seg_views(r@) == split_slash(cs@),
{
    let mut segs: Vec<Vec<char>> = Vec::new();
    segs.push(Vec::new());
    assert(seg_views(segs@) =~= split_slash(cs@.take(0)));
    let mut i: usize = 0;
    while i < cs.len()
        invariant
            i <= cs@.len(),
            seg_views(segs@) == split_slash(cs@.take(i as int)),
            segs@.len() >= 1,
        decreases cs@.len() - i,
    {
        let c = cs[i];
        let ghost prev = split_slash(cs@.take(i as int));
        proof {
            assert(cs@.take(i + 1).drop_last() == cs@.take(i as int));
            assert(cs@.take(i + 1).last() == c);
        }
        if c == '/' {
            segs.push(Vec::new());
            assert(seg_views(segs@) =~= prev.push(Seq::<char>::empty()));
        } else {
            let ghost before = segs@;
            let mut last = segs.pop().unwrap();
            last.push(c);
            segs.push(last);
            assert(seg_views(segs@) =~= prev.update(prev.len() - 1, prev.last().push(c)));
        }
        i = i + 1;
    }
    assert(cs@.take(cs@.len() as int) == cs@);
    segs
}

/// Appends the components of `segs[from..]`.
fn push_pieces(out: &mut Vec<Component>, segs: &Vec<Vec<char>>, from: usize)
    requires
        from <= segs@.len(),
    ensures
        parts_of(final(out)@) == parts_of(old(out)@) + pieces_parts(seg_views(segs@).skip(from as int)),
{
    let ghost start = parts_of(out@);
    let mut i = from;
    assert(seg_views(segs@).skip(from as int).take(0) =~= Seq::<Seq<char>>::empty());
    assert(start =~= start + pieces_parts(Seq::<Seq<char>>::empty()));
    while i < segs.len()
        invariant
            from <= i <= segs@.len(),
            parts_of(out@) == start + pieces_parts(seg_views(segs@).skip(from as int).take(i - from)),
        decreases segs@.len() - i,
    {
        push_piece(out, &segs[i]);
        proof {
            let all = seg_views(segs@).skip(from as int);
            assert(all.take(i + 1 - from).drop_last() == all.take(i - from));
            assert(all.take(i + 1 - from).last() == segs@[i as int]@);
        }
        i = i + 1;
    }
    assert(seg_views(segs@).skip(from as int).take(segs@.len() - from) == seg_views(segs@).skip(from as int));
}

impl FsPath {
    /// The components.
    pub open spec fn view(&self) -> Seq<Part> {
        parts_of(self.components@)
    }

    /// Parses a path written as text.
    pub fn parse(s: &str) -> (r: FsPath)
        ensures
            r.view() == parse_parts(s@),
    {
        let cs = chars_of(s);
        let segs = split_pieces(&cs);
        proof {
            lemma_split_nonempty(cs@);
        }
        let mut out: Vec<Component> = Vec::new();
        if cs.len() > 0 && cs[0] == '/' {
            out.push(Component::RootDir);
            let ghost head = parts_of(out@);
            assert(head =~= seq![Part::Root]);
            push_pieces(&mut out, &segs, 1);
        } else if is_dot(&segs[0]) {
            out.push(Component::CurDir);
            let ghost head = parts_of(out@);
            assert(head =~= seq![Part::Cur]);
            push_pieces(&mut out, &segs, 1);
        } else {
            assert(parts_of(out@) =~= Seq::<Part>::empty());
            push_pieces(&mut out, &segs, 0);
            assert(seg_views(segs@).skip(0) == seg_views(segs@));
            assert(Seq::<Part>::empty() + pieces_parts(seg_views(segs@)) == pieces_parts(seg_views(segs@)));
        }
        assert(seg_views(segs@).skip(1) == seg_views(segs@).drop_first());
        FsPath { components: out }
    }

    /// A path with exactly these components.
    pub fn from_components(components: Vec<Component>) -> (r: FsPath)
        ensures
            r.view() == parts_of(components@),
    {
        FsPath { components }
    }

    /// A copy of the path.
    pub fn copy(&self) -> (r: FsPath)
        ensures
            r.view() == self.view(),
    {
        let mut out: Vec<Component> = Vec::new();
        let mut i: usize = 0;
        while i < self.components.len()
            invariant
                i <= self.components@.len(),
                parts_of(out@) == self.view().take(i as int),
            decreases self.components@.len() - i,
        {
            let ghost before = out@;
            let c = clone_component(&self.components[i]);
            out.push(c);
            assert(parts_of(out@) =~= parts_of(before).push(self.view()[i as int]));
            assert(parts_of(out@) =~= self.view().take(i + 1));
            i = i + 1;
        }
        assert(self.view().take(self.components@.len() as int) == self.view());
        FsPath { components: out }
    }

    /// Whether the path starts at the root.
    pub fn is_absolute(&self) -> (r: bool)
        ensures
            r == is_abs(self.view()),
    {
        self.components.len() > 0 && match &self.components[0] {
            Component::RootDir => true,
            _ => false,
        }
    }

    /// Whether the path has no components.
    pub fn is_empty(&self) -> (r: bool)
        ensures
            r == (self.view().len() == 0),
    {
        self.components.len() == 0
    }

    /// Whether two paths have the same components.
    pub fn same_as(&self, other: &FsPath) -> (r: bool)
        ensures
            r == (self.view() == other.view()),
    {
        if self.components.len() != other.components.len() {
            assert(self.view().len() != other.view().len());
            return false;
        }
        let r = self.prefix_len_matches(other, other.components.len());
        proof {
            assert(self.view().take(self.view().len() as int) == self.view());
            assert(other.view().take(other.view().len() as int) == other.view());
        }
        r
    }

    fn component_eq(a: &Component, b: &Component) -> (r: bool)
        ensures
            r == (part_of(*a) == part_of(*b)),
    {
        match (a, b) {
            (Component::RootDir, Component::RootDir) => true,
            (Component::CurDir, Component::CurDir) => true,
            (Component::ParentDir, Component::ParentDir) => true,
            (Component::Normal(x), Component::Normal(y)) => str_eq(x.as_str(), y.as_str()),
            _ => false,
        }
    }

    /// Whether the first `n` components of both paths agree.
    fn prefix_len_matches(&self, base: &FsPath, n: usize) -> (r: bool)
        requires
            n <= self.components@.len(),
            n <= base.components@.len(),
        ensures
            r == (self.view().take(n as int) == base.view().take(n as int)),
    {
        let mut i: usize = 0;
        while i < n
            invariant
                i <= n,
                n <= self.components@.len(),
                n <= base.components@.len(),
                self.view().take(i as int) == base.view().take(i as int),
            decreases n - i,
        {
            if !Self::component_eq(&self.components[i], &base.components[i]) {
                proof {
                    assert(self.view().take(n as int)[i as int] != base.view().take(n as int)[i as int]);
                }
                return false;
            }
            proof {
                assert(self.view().take(i + 1) =~= self.view().take(i as int).push(self.view()[i as int]));
                assert(base.view().take(i + 1) =~= base.view().take(i as int).push(base.view()[i as int]));
            }
            i = i + 1;
        }
        true
    }

    /// Whether `base` is a prefix of this path, component by component.
    pub fn starts_with(&self, base: &FsPath) -> (r: bool)
        ensures
            r == has_prefix(self.view(), base.view()),
    {
        if base.components.len() > self.components.len() {
            return false;
        }
        let n = base.components.len();
        let r = self.prefix_len_matches(base, n);
        proof {
            assert(base.view().take(n as int) == base.view());
        }
        r
    }

    /// Whether `child` is a suffix of this path, component by component.
    pub fn ends_with(&self, child: &FsPath) -> (r: bool)
        ensures
            r == has_suffix(self.view(), child.view()),
    {
        let n = child.components.len();
        let m = self.components.len();
        if n > m {
            return false;
        }
        let mut i: usize = 0;
        while i < n
            invariant
                n <= m,
                m == self.components@.len(),
                n == child.components@.len(),
                i <= n,
                forall|j: int| 0 <= j < i ==> self.view()[m - n + j] == child.view()[j],
            decreases n - i,
        {
            if !Self::component_eq(&self.components[m - n + i], &child.components[i]) {
                proof {
                    assert(self.view().skip(m - n)[i as int] == self.view()[m - n + i]);
                }
                return false;
            }
            i = i + 1;
        }
        proof {
            assert(self.view().skip(m - n) =~= child.view());
        }
        true
    }

    /// This path with `other` appended (see `join_parts`).
    pub fn join(&self, other: &FsPath) -> (r: FsPath)
        ensures
            r.view() == join_parts(self.view(), other.view()),
    {
        if other.is_absolute() || self.components.len() == 0 {
            return other.copy();
        }
        let mut out = self.copy().components;
        let skip_first = other.components.len() > 0 && match &other.components[0] {
            Component::CurDir => true,
            _ => false,
        };
        let start: usize = if skip_first { 1 } else { 0 };
        let ghost base = parts_of(out@);
        let mut i = start;
        while i < other.components.len()
            invariant
                start <= i <= other.components@.len(),
                parts_of(out@) == base + other.view().subrange(start as int, i as int),
            decreases other.components@.len() - i,
        {
            let ghost before = out@;
            let c = clone_component(&other.components[i]);
            out.push(c);
            assert(parts_of(out@) =~= parts_of(before).push(other.view()[i as int]));
            assert(parts_of(out@) =~= base + other.view().subrange(start as int, i + 1));
            i = i + 1;
        }
        proof {
            if skip_first {
                assert(other.view().subrange(1, other.view().len() as int) == other.view().drop_first());
            } else {
                assert(other.view().subrange(0, other.view().len() as int) == other.view());
            }
        }
        FsPath { components: out }
    }

    /// This path with one more name at the end.
    pub fn join_name(&self, name: &str) -> (r: FsPath)
        ensures
            r.view() == self.view().push(Part::Name(name@)),
    {
        let mut out = self.copy().components;
        out.push(Component::Normal(to_string(name)));
        let r = FsPath { components: out };
        assert(r.view() =~= self.view().push(Part::Name(name@)));
        r
    }

    /// The parent path, if there is one.
    pub fn parent(&self) -> (r: Option<FsPath>)
        ensures
            match r {
                Some(p) => parent_parts(self.view()) == Some(p.view()),
                None => parent_parts(self.view()) is None,
            },
    {
        let n = self.components.len();
        if n == 0 {
            return None;
        }
        match &self.components[n - 1] {
            Component::RootDir => None,
            _ => {
                let mut out = self.copy().components;
                out.pop();
                let r = FsPath { components: out };
                assert(r.view() =~= self.view().drop_last());
                Some(r)
            },
        }
    }

    /// The last component, if it is a name.
    pub fn file_name(&self) -> (r: Option<String>)
        ensures
            match r {
                Some(n) => self.view().len() > 0 && self.view().last() == Part::Name(n@),
                None => self.view().len() == 0 || !(self.view().last() is Name),
            },
    {
        let n = self.components.len();
        if n == 0 {
            return None;
        }
        match &self.components[n - 1] {
            Component::Normal(s) => Some(s.clone()),
            _ => None,
        }
    }

    /// The path written out (see `render_parts`).
    pub fn display(&self) -> (r: String)
        ensures
            r@ == render_parts(self.view()),
    {
        let abs = self.is_absolute();
        let start: usize = if abs { 1 } else { 0 };
        let mut texts: Vec<String> = Vec::new();
        let mut i = start;
        let ghost rest = self.view().skip(start as int);
        while i < self.components.len()
            invariant
                start <= i <= self.components@.len(),
                rest == self.view().skip(start as int),
                views(texts@) == rest.take(i - start).map_values(|c: Part| part_text(c)),
            decreases self.components@.len() - i,
        {
            let t = match &self.components[i] {
                Component::RootDir => to_string("/"),
                Component::CurDir => to_string("."),
                Component::ParentDir => to_string(".."),
                Component::Normal(s) => s.clone(),
            };
            proof {
                reveal_strlit("/");
                reveal_strlit(".");
                reveal_strlit("..");
                assert("/"@ =~= seq!['/']);
                assert("."@ =~= seq!['.']);
                assert(".."@ =~= seq!['.', '.']);
                assert(t@ == part_text(self.view()[i as int]));
            }
            let ghost before = texts@;
            let ghost tv = t@;
            texts.push(t);
            assert(views(texts@) =~= views(before).push(tv));
            assert(rest[i - start] == self.view()[i as int]);
            assert(views(texts@) =~= rest.take(i + 1 - start).map_values(|c: Part| part_text(c)));
            i = i + 1;
        }
        assert(rest.take(self.components@.len() - start) == rest);
        let body = join(&texts, "/");
        proof {
            reveal_strlit("/");
            assert("/"@ =~= seq!['/']);
        }
        if abs {
            let r = concat2("/", body.as_str());
            proof {
                assert(self.view().skip(1) == self.view().drop_first());
            }
            r
        } else {
            assert(self.view().skip(0) == self.view());
            body
        }
    }

    /// The names that remain after lexical normalization (see `lexical_names`).
    pub fn lexical_names(&self) -> (r: Vec<String>)
        ensures
            views(r@) == lexical_names(self.view()),
    {
        let mut names: Vec<String> = Vec::new();
        let mut i: usize = 0;
        while i < self.components.len()
            invariant
                i <= self.components@.len(),
                views(names@) == lexical_names(self.view().take(i as int)),
            decreases self.components@.len() - i,
        {
            let ghost before = names@;
            proof {
                assert(self.view().take(i + 1).drop_last() == self.view().take(i as int));
                assert(self.view().take(i + 1).last() == self.view()[i as int]);
            }
            match &self.components[i] {
                Component::ParentDir => {
                    if names.len() > 0 {
                        names.pop();
                        assert(views(names@) =~= views(before).drop_last());
                    }
                },
                Component::Normal(s) => {
                    names.push(s.clone());
                    assert(views(names@) =~= views(before).push(s@));
                },
                _ => {},
            }
            i = i + 1;
        }
        assert(self.view().take(self.components@.len() as int) == self.view());
        names
    }

    /// This path with the names appended.
    pub fn join_names(&self, names: &Vec<String>) -> (r: FsPath)
        ensures
            r.view() == self.view() + names_parts(views(names@)),
    {
        let mut out = self.copy().components;
        let ghost base = parts_of(out@);
        let mut i: usize = 0;
        while i < names.len()
            invariant
                i <= names@.len(),
                parts_of(out@) == base + names_parts(views(names@).take(i as int)),
            decreases names@.len() - i,
        {
            let ghost before = out@;
            let nm = names[i].clone();
            let ghost nv = nm@;
            out.push(Component::Normal(nm));
            assert(parts_of(out@) =~= parts_of(before).push(Part::Name(nv)));
            assert(parts_of(out@) =~= base + names_parts(views(names@).take(i + 1)));
            i = i + 1;
        }
        assert(views(names@).take(names@.len() as int) == views(names@));
        FsPath { components: out }
    }
}

} // verus!
