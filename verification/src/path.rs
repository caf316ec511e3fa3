//! Virtual paths: a path is a sequence of components, as a walk of the world
//! directory yields them and as the members of an archive are named.

use vstd::prelude::*;
use vstd::string::*;
use crate::text::{joined, last_index_of, rfind_char, same_text};

verus! {

/// One step of a path.
#[derive(Debug)]
pub enum Component {
    /// The root `/`; a path that starts with it is absolute.
    RootDir,
    /// The directory itself, `.`.
    CurDir,
    /// The parent directory, `..`.
    ParentDir,
    /// A file or directory name.
    Normal(String),
}

/// What a [`Component`] stands for.
pub enum ComponentV {
    RootDir,
    CurDir,
    ParentDir,
    Normal(Seq<char>),
}

impl View for Component {
    type V = ComponentV;

    open spec fn view(&self) -> ComponentV {
        match self {
            Component::RootDir => ComponentV::RootDir,
            Component::CurDir => ComponentV::CurDir,
            Component::ParentDir => ComponentV::ParentDir,
            Component::Normal(name) => ComponentV::Normal(name@),
        }
    }
}

/// A path, held as its components in order.
#[derive(Debug)]
pub struct PackPath {
    pub parts: Vec<Component>,
}

/// The components of `parts`, each by its view.
pub open spec fn component_views(parts: Seq<Component>) -> Seq<ComponentV> {
    Seq::new(parts.len(), |i: int| parts[i]@)
}

/// Appending a component appends its view.
pub proof fn lemma_views_push(parts: Seq<Component>, c: Component)
    ensures
        component_views(parts.push(c)) == component_views(parts).push(c@),
{
    assert(component_views(parts.push(c)) =~= component_views(parts).push(c@));
}

impl View for PackPath {
    type V = Seq<ComponentV>;

    open spec fn view(&self) -> Seq<ComponentV> {
        component_views(self.parts@)
    }
}

/// Whether `base` is a prefix of `path`, component by component.
pub open spec fn is_prefix(base: Seq<ComponentV>, path: Seq<ComponentV>) -> bool {
    base.len() <= path.len() && path.subrange(0, base.len() as int) == base
}

/// Whether `path` lies strictly below `base`.
pub open spec fn is_strict_prefix(base: Seq<ComponentV>, path: Seq<ComponentV>) -> bool {
    base.len() < path.len() && is_prefix(base, path)
}

/// A path is absolute when it starts at the root.
pub open spec fn is_absolute(path: Seq<ComponentV>) -> bool {
    path.len() > 0 && path[0] is RootDir
}

/// `rel` resolved against `base`: an absolute `rel` replaces `base`.
pub open spec fn join_spec(base: Seq<ComponentV>, rel: Seq<ComponentV>) -> Seq<ComponentV> {
    if is_absolute(rel) {
        rel
    } else {
        base + rel
    }
}

/// The effect of one more component on a normalized path: the root
/// replaces what came before, `.` changes nothing, `..` removes a trailing
/// name and is dropped where there is none, and a name is appended.
pub open spec fn normalize_step(acc: Seq<ComponentV>, c: ComponentV) -> Seq<ComponentV> {
    match c {
        ComponentV::RootDir => seq![ComponentV::RootDir],
        ComponentV::CurDir => acc,
        ComponentV::ParentDir => if acc.len() > 0 && acc.last() is Normal {
            acc.drop_last()
        } else {
            acc
        },
        ComponentV::Normal(name) => acc.push(ComponentV::Normal(name)),
    }
}

/// `path` with its `.` and `..` components resolved, left to right.
pub open spec fn normalize_spec(path: Seq<ComponentV>) -> Seq<ComponentV>
    decreases path.len(),
{
    if path.len() == 0 {
        Seq::empty()
    } else {
        normalize_step(normalize_spec(path.drop_last()), path.last())
    }
}

/// A path without `.` and `..`: names only, but for a root at its start.
pub open spec fn is_normal(path: Seq<ComponentV>) -> bool {
    forall|i: int|
        0 <= i < path.len() ==> (#[trigger] path[i]) is Normal || (i == 0 && path[i] is RootDir)
}

/// What `normalize_spec` returns is normal.
pub proof fn lemma_normalize_is_normal(path: Seq<ComponentV>)
    ensures
        is_normal(normalize_spec(path)),
    decreases path.len(),
{
    if path.len() > 0 {
        lemma_normalize_is_normal(path.drop_last());
    }
}

/// A normal path is its own normal form.
pub proof fn lemma_normal_is_kept(path: Seq<ComponentV>)
    requires
        is_normal(path),
    ensures
        normalize_spec(path) == path,
    decreases path.len(),
{
    if path.len() > 0 {
        let front = path.drop_last();
        assert forall|i: int| 0 <= i < front.len() implies (#[trigger] front[i]) is Normal || (i
            == 0 && front[i] is RootDir) by {
            assert(front[i] == path[i]);
        }
        lemma_normal_is_kept(front);
        assert(path[path.len() - 1] is Normal || path.len() == 1);
        assert(normalize_spec(path) =~= path);
    } else {
        assert(normalize_spec(path) =~= path);
    }
}

/// Normalizing twice is normalizing once.
pub proof fn lemma_normalize_is_idempotent(path: Seq<ComponentV>)
    ensures
        normalize_spec(normalize_spec(path)) == normalize_spec(path),
{
    lemma_normalize_is_normal(path);
    lemma_normal_is_kept(normalize_spec(path));
}

/// `path` placed under `dir`, where there is one, and normalized.
pub open spec fn prefix_spec(path: Seq<ComponentV>, dir: Option<Seq<ComponentV>>) -> Seq<
    ComponentV,
> {
    match dir {
        Some(d) => normalize_spec(join_spec(d, path)),
        None => normalize_spec(path),
    }
}

/// The final component of `path`, if it is a name.
pub open spec fn file_name_spec(path: Seq<ComponentV>) -> Option<Seq<char>> {
    if path.len() > 0 && path.last() is Normal {
        Some(path.last()->Normal_0)
    } else {
        None
    }
}

/// The part of a file name after its last dot; none where the name has no
/// dot, or only a leading one.
pub open spec fn extension_of(name: Seq<char>) -> Option<Seq<char>> {
    let dot = last_index_of(name, '.');
    if dot <= 0 {
        None
    } else {
        Some(name.subrange(dot + 1, name.len() as int))
    }
}

/// The file name without its extension.
pub open spec fn stem_of(name: Seq<char>) -> Seq<char> {
    let dot = last_index_of(name, '.');
    if dot <= 0 {
        name
    } else {
        name.subrange(0, dot)
    }
}

/// The extension of the final component of `path`.
pub open spec fn extension_spec(path: Seq<ComponentV>) -> Option<Seq<char>> {
    match file_name_spec(path) {
        Some(name) => extension_of(name),
        None => None,
    }
}

/// A file name with its extension replaced by `ext`; an empty `ext` leaves
/// the bare stem.
pub open spec fn renamed(name: Seq<char>, ext: Seq<char>) -> Seq<char> {
    if ext.len() == 0 {
        stem_of(name)
    } else {
        stem_of(name) + seq!['.'] + ext
    }
}

/// `path` with the extension of its file name replaced by `ext`; a path
/// without a file name is left as it is.
pub open spec fn with_extension_spec(path: Seq<ComponentV>, ext: Seq<char>) -> Seq<ComponentV> {
    match file_name_spec(path) {
        Some(name) => path.drop_last().push(ComponentV::Normal(renamed(name, ext))),
        None => path,
    }
}

/// `path` with `suffix` added to its file name; a path without a file
/// name is left as it is.
pub open spec fn with_suffix_spec(path: Seq<ComponentV>, suffix: Seq<char>) -> Seq<ComponentV> {
    match file_name_spec(path) {
        Some(name) => path.drop_last().push(ComponentV::Normal(name + suffix)),
        None => path,
    }
}

/// The text of one component.
pub open spec fn component_text(c: ComponentV) -> Seq<char> {
    match c {
        ComponentV::RootDir => seq!['/'],
        ComponentV::CurDir => seq!['.'],
        ComponentV::ParentDir => seq!['.', '.'],
        ComponentV::Normal(name) => name,
    }
}

/// The text of a path: its components joined by `/`, with no separator
/// after the root.
pub open spec fn text_spec(path: Seq<ComponentV>) -> Seq<char>
    decreases path.len(),
{
    if path.len() == 0 {
        Seq::empty()
    } else if path.len() == 1 {
        component_text(path[0])
    } else if path[path.len() - 2] is RootDir {
        text_spec(path.drop_last()) + component_text(path.last())
    } else {
        text_spec(path.drop_last()) + seq!['/'] + component_text(path.last())
    }
}

impl Component {
    /// A copy of this component.
    pub fn duplicate(&self) -> (r: Component)
        ensures
            r@ == self@,
    {
        match self {
            Component::RootDir => Component::RootDir,
            Component::CurDir => Component::CurDir,
            Component::ParentDir => Component::ParentDir,
            Component::Normal(name) => Component::Normal(name.clone()),
        }
    }

    /// Whether two components are the same.
    pub fn same(&self, other: &Component) -> (r: bool)
        ensures
            r == (self@ == other@),
    {
        match (self, other) {
            (Component::RootDir, Component::RootDir) => true,
            (Component::CurDir, Component::CurDir) => true,
            (Component::ParentDir, Component::ParentDir) => true,
            (Component::Normal(a), Component::Normal(b)) => same_text(a.as_str(), b.as_str()),
            _ => false,
        }
    }

    /// The text of this component.
    pub fn text(&self) -> (r: String)
        ensures
            r@ == component_text(self@),
    {
        match self {
            Component::RootDir => {
                proof {
                    reveal_strlit("/");
                }
                assert("/"@ =~= seq!['/']);
                "/".to_owned()
            },
            Component::CurDir => {
                proof {
                    reveal_strlit(".");
                }
                assert("."@ =~= seq!['.']);
                ".".to_owned()
            },
            Component::ParentDir => {
                proof {
                    reveal_strlit("..");
                }
                assert(".."@ =~= seq!['.', '.']);
                "..".to_owned()
            },
            Component::Normal(name) => name.clone(),
        }
    }
}

/// Operations the packaging logic needs on top of plain paths.
pub trait PathUtils: Sized {
    /// This path under `prefix`, where one is given, and normalized.
    fn prefix(&self, prefix: Option<&PackPath>) -> (r: PackPath);

    /// This path with `.` and `..` resolved.
    fn normalize(&self) -> (r: PackPath);
}

impl PackPath {
    /// The empty path.
    pub fn new() -> (r: PackPath)
        ensures
            r@ == Seq::<ComponentV>::empty(),
    {
        let r = PackPath { parts: Vec::new() };
        assert(r@ =~= Seq::<ComponentV>::empty());
        r
    }

    /// The path `.`.
    pub fn current() -> (r: PackPath)
        ensures
            r@ == seq![ComponentV::CurDir],
    {
        let mut parts: Vec<Component> = Vec::new();
        parts.push(Component::CurDir);
        let r = PackPath { parts };
        assert(r@ =~= seq![ComponentV::CurDir]);
        r
    }

    /// The path `/`.
    pub fn root() -> (r: PackPath)
        ensures
            r@ == seq![ComponentV::RootDir],
    {
        let mut parts: Vec<Component> = Vec::new();
        parts.push(Component::RootDir);
        let r = PackPath { parts };
        assert(r@ =~= seq![ComponentV::RootDir]);
        r
    }

    /// This path followed by the name `name`.
    pub fn child(self, name: &str) -> (r: PackPath)
        ensures
            r@ == self@.push(ComponentV::Normal(name@)),
    {
        let mut parts = self.parts;
        parts.push(Component::Normal(name.to_owned()));
        let r = PackPath { parts };
        assert(r@ =~= self@.push(ComponentV::Normal(name@)));
        r
    }

    /// The number of components.
    pub fn len(&self) -> (r: usize)
        ensures
            r == self@.len(),
    {
        self.parts.len()
    }

    /// A copy of this path.
    pub fn duplicate(&self) -> (r: PackPath)
        ensures
            r@ == self@,
    {
        let mut parts: Vec<Component> = Vec::new();
        let mut i: usize = 0;
        while i < self.parts.len()
            invariant
                i <= self.parts@.len(),
                component_views(parts@) == self@.subrange(0, i as int),
            decreases self.parts@.len() - i,
        {
            let c = self.parts[i].duplicate();
            proof {
                lemma_views_push(parts@, c);
            }
            parts.push(c);
            assert(component_views(parts@) =~= self@.subrange(0, i + 1));
            i += 1;
        }
        assert(self@.subrange(0, i as int) =~= self@);
        PackPath { parts }
    }

    /// Whether two paths have the same components.
    pub fn same(&self, other: &PackPath) -> (r: bool)
        ensures
            r == (self@ == other@),
    {
        if self.parts.len() != other.parts.len() {
            assert(self@.len() != other@.len());
            return false;
        }
        let mut i: usize = 0;
        while i < self.parts.len()
            invariant
                i <= self.parts@.len(),
                self.parts@.len() == other.parts@.len(),
                forall|j: int| 0 <= j < i ==> self@[j] == other@[j],
            decreases self.parts@.len() - i,
        {
            if !self.parts[i].same(&other.parts[i]) {
                assert(self@[i as int] != other@[i as int]);
                return false;
            }
            i += 1;
        }
        assert(self@ =~= other@);
        true
    }

    /// Whether this path starts with all of `base`.
    pub fn starts_with(&self, base: &PackPath) -> (r: bool)
        ensures
            r == is_prefix(base@, self@),
    {
        if base.parts.len() > self.parts.len() {
            return false;
        }
        let mut i: usize = 0;
        while i < base.parts.len()
            invariant
                i <= base.parts@.len(),
                base.parts@.len() <= self.parts@.len(),
                forall|j: int| 0 <= j < i ==> self@[j] == base@[j],
            decreases base.parts@.len() - i,
        {
            if !self.parts[i].same(&base.parts[i]) {
                assert(self@.subrange(0, base@.len() as int)[i as int] != base@[i as int]);
                return false;
            }
            i += 1;
        }
        assert(self@.subrange(0, base@.len() as int) =~= base@);
        true
    }

    /// The components of this path from index `from` on.
    pub fn tail(&self, from: usize) -> (r: PackPath)
        requires
            from <= self@.len(),
        ensures
            r@ == self@.subrange(from as int, self@.len() as int),
    {
        let mut parts: Vec<Component> = Vec::new();
        let mut i: usize = from;
        while i < self.parts.len()
            invariant
                from <= i <= self.parts@.len(),
                component_views(parts@) == self@.subrange(from as int, i as int),
            decreases self.parts@.len() - i,
        {
            let c = self.parts[i].duplicate();
            proof {
                lemma_views_push(parts@, c);
            }
            parts.push(c);
            assert(component_views(parts@) =~= self@.subrange(from as int, i + 1));
            i += 1;
        }
        PackPath { parts }
    }

    /// The first `count` components of this path.
    pub fn head(&self, count: usize) -> (r: PackPath)
        requires
            count <= self@.len(),
        ensures
            r@ == self@.subrange(0, count as int),
    {
        let mut parts: Vec<Component> = Vec::new();
        let mut i: usize = 0;
        while i < count
            invariant
                i <= count <= self.parts@.len(),
                component_views(parts@) == self@.subrange(0, i as int),
            decreases count - i,
        {
            let c = self.parts[i].duplicate();
            proof {
                lemma_views_push(parts@, c);
            }
            parts.push(c);
            assert(component_views(parts@) =~= self@.subrange(0, i + 1));
            i += 1;
        }
        PackPath { parts }
    }

    /// What is left of this path below `base`, where it lies under `base`.
    pub fn strip_prefix(&self, base: &PackPath) -> (r: Option<PackPath>)
        ensures
            match r {
                Some(rest) => is_prefix(base@, self@) && rest@ == self@.subrange(
                    base@.len() as int,
                    self@.len() as int,
                ),
                None => !is_prefix(base@, self@),
            },
    {
        if self.starts_with(base) {
            Some(self.tail(base.parts.len()))
        } else {
            None
        }
    }

    /// Whether this path starts at the root.
    pub fn is_absolute(&self) -> (r: bool)
        ensures
            r == is_absolute(self@),
    {
        if self.parts.len() == 0 {
            false
        } else {
            match &self.parts[0] {
                Component::RootDir => true,
                _ => false,
            }
        }
    }

    /// `rel` resolved against this path.
    pub fn join(&self, rel: &PackPath) -> (r: PackPath)
        ensures
            r@ == join_spec(self@, rel@),
    {
        if rel.is_absolute() {
            return rel.duplicate();
        }
        let mut out = self.duplicate();
        let mut i: usize = 0;
        while i < rel.parts.len()
            invariant
                i <= rel.parts@.len(),
                out@ == self@ + rel@.subrange(0, i as int),
            decreases rel.parts@.len() - i,
        {
            let c = rel.parts[i].duplicate();
            proof {
                lemma_views_push(out.parts@, c);
            }
            out.parts.push(c);
            assert(out@ =~= self@ + rel@.subrange(0, i + 1));
            i += 1;
        }
        assert(rel@.subrange(0, i as int) =~= rel@);
        out
    }

    /// The final component, if it is a name.
    pub fn file_name(&self) -> (r: Option<&String>)
        ensures
            match r {
                Some(name) => file_name_spec(self@) == Some(name@),
                None => file_name_spec(self@) is None,
            },
    {
        let n: usize = self.parts.len();
        if n == 0 {
            None
        } else {
            match &self.parts[n - 1] {
                Component::Normal(name) => Some(name),
                _ => None,
            }
        }
    }

    /// The extension of the file name.
    pub fn extension(&self) -> (r: Option<String>)
        ensures
            match r {
                Some(ext) => extension_spec(self@) == Some(ext@),
                None => extension_spec(self@) is None,
            },
    {
        match self.file_name() {
            None => None,
            Some(name) => {
                let s: &str = name.as_str();
                match rfind_char(s, '.') {
                    None => None,
                    Some(dot) => {
                        if dot == 0 {
                            None
                        } else {
                            let n: usize = s.unicode_len();
                            Some(s.substring_char(dot + 1, n).to_owned())
                        }
                    },
                }
            },
        }
    }

    /// This path with the extension of its file name replaced by `ext`.
    pub fn with_extension(&self, ext: &str) -> (r: PackPath)
        ensures
            r@ == with_extension_spec(self@, ext@),
    {
        let n: usize = self.parts.len();
        match self.file_name() {
            None => self.duplicate(),
            Some(name) => {
                let s: &str = name.as_str();
                let stem: &str = match rfind_char(s, '.') {
                    None => s,
                    Some(dot) => if dot == 0 {
                        s
                    } else {
                        s.substring_char(0, dot)
                    },
                };
                assert(stem@ == stem_of(name@));
                let renamed_name: String = if ext.unicode_len() == 0 {
                    stem.to_owned()
                } else {
                    proof {
                        reveal_strlit(".");
                    }
                    assert("."@ =~= seq!['.']);
                    let dotted: String = joined(stem, ".");
                    joined(dotted.as_str(), ext)
                };
                assert(renamed_name@ == renamed(name@, ext@));
                let mut out = self.head(n - 1);
                out.parts.push(Component::Normal(renamed_name));
                assert(out@ =~= self@.drop_last().push(ComponentV::Normal(renamed(name@, ext@))));
                out
            },
        }
    }

    /// This path with `suffix` added to its file name.
    pub fn with_suffix(&self, suffix: &str) -> (r: PackPath)
        ensures
            r@ == with_suffix_spec(self@, suffix@),
    {
        let n: usize = self.parts.len();
        match self.file_name() {
            None => self.duplicate(),
            Some(name) => {
                let longer: String = joined(name.as_str(), suffix);
                let mut out = self.head(n - 1);
                proof {
                    lemma_views_push(out.parts@, Component::Normal(longer));
                }
                out.parts.push(Component::Normal(longer));
                assert(out@ =~= self@.drop_last().push(ComponentV::Normal(name@ + suffix@)));
                out
            },
        }
    }

    /// The text of this path.
    pub fn to_text(&self) -> (r: String)
        ensures
            r@ == text_spec(self@),
    {
        let mut out: String = String::new();
        let mut i: usize = 0;
        while i < self.parts.len()
            invariant
                i <= self.parts@.len(),
                out@ == text_spec(self@.subrange(0, i as int)),
            decreases self.parts@.len() - i,
        {
            let ghost before = self@.subrange(0, i as int);
            let ghost after = self@.subrange(0, i + 1);
            assert(after.drop_last() =~= before);
            assert(after.last() == self@[i as int]);
            let piece: String = self.parts[i].text();
            if i == 0 {
                out = piece;
                assert(out@ == text_spec(after));
            } else {
                let after_root: bool = match &self.parts[i - 1] {
                    Component::RootDir => true,
                    _ => false,
                };
                assert(after[after.len() - 2] == self@[i - 1]);
                if !after_root {
                    proof {
                        reveal_strlit("/");
                    }
                    assert("/"@ =~= seq!['/']);
                    out.append("/");
                }
                out.append(piece.as_str());
                assert(out@ == text_spec(after));
            }
            i += 1;
        }
        assert(self@.subrange(0, i as int) =~= self@);
        out
    }
}

impl PathUtils for PackPath {
    fn prefix(&self, prefix: Option<&PackPath>) -> (r: PackPath)
        ensures
            r@ == prefix_spec(
                self@,
                match prefix {
                    Some(d) => Some(d@),
                    None => None,
                },
            ),
    {
        match prefix {
            Some(dir) => dir.join(self).normalize(),
            None => self.normalize(),
        }
    }

    fn normalize(&self) -> (r: PackPath)
        ensures
            r@ == normalize_spec(self@),
    {
        let mut out: Vec<Component> = Vec::new();
        let mut i: usize = 0;
        assert(self@.subrange(0, 0) =~= Seq::<ComponentV>::empty());
        while i < self.parts.len()
            invariant
                i <= self.parts@.len(),
                component_views(out@) == normalize_spec(self@.subrange(0, i as int)),
            decreases self.parts@.len() - i,
        {
            let ghost before = self@.subrange(0, i as int);
            let ghost after = self@.subrange(0, i + 1);
            assert(after.drop_last() =~= before);
            assert(after.last() == self@[i as int]);
            let ghost acc = component_views(out@);
            match &self.parts[i] {
                Component::RootDir => {
                    out = Vec::new();
                    out.push(Component::RootDir);
                    assert(component_views(out@) =~= seq![ComponentV::RootDir]);
                },
                Component::CurDir => {},
                Component::ParentDir => {
                    let n: usize = out.len();
                    if n > 0 {
                        let named: bool = match &out[n - 1] {
                            Component::Normal(_) => true,
                            _ => false,
                        };
                        assert(named == (acc.last() is Normal));
                        if named {
                            out.pop();
                            assert(component_views(out@) =~= acc.drop_last());
                        }
                    }
                },
                Component::Normal(name) => {
                    out.push(Component::Normal(name.clone()));
                    assert(component_views(out@) =~= acc.push(ComponentV::Normal(name@)));
                },
            }
            i += 1;
        }
        assert(self@.subrange(0, i as int) =~= self@);
        PackPath { parts: out }
    }
}

} // verus!
