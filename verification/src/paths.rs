use vstd::prelude::*;

use crate::error::{IoErrorKind, IoFailure};
use crate::text::{
    chars_of, contains_char, contains_char_chars, find_chars, find_from, lemma_find_from_bounds,
    string_from_chars,
};

verus! {

/// One component of a local filesystem path, as `std::path::Component` tells them apart.
/// `NonUnicode` stands for a normal component whose name is not valid Unicode.
#[derive(Debug, PartialEq)]
pub enum PathComponent {
    Prefix(String),
    RootDir,
    CurDir,
    ParentDir,
    Normal(String),
    NonUnicode,
}

/// A path by its components; two paths are equal, and one starts with another, exactly
/// when their component sequences are equal, or one is a prefix of the other.
#[derive(Debug, PartialEq)]
pub struct LocalPath {
    pub components: Vec<PathComponent>,
}

/// A path component as a plain value.
pub enum ComponentModel {
    Prefix(Seq<char>),
    RootDir,
    CurDir,
    ParentDir,
    Normal(Seq<char>),
    NonUnicode,
}

impl PathComponent {
    pub open spec fn model(self) -> ComponentModel {
        match self {
            PathComponent::Prefix(p) => ComponentModel::Prefix(p@),
            PathComponent::RootDir => ComponentModel::RootDir,
            PathComponent::CurDir => ComponentModel::CurDir,
            PathComponent::ParentDir => ComponentModel::ParentDir,
            PathComponent::Normal(n) => ComponentModel::Normal(n@),
            PathComponent::NonUnicode => ComponentModel::NonUnicode,
        }
    }
}

impl Clone for PathComponent {
    fn clone(&self) -> (r: Self)
        ensures
            r == *self,
    {
        match self {
            PathComponent::Prefix(p) => PathComponent::Prefix(p.clone()),
            PathComponent::RootDir => PathComponent::RootDir,
            PathComponent::CurDir => PathComponent::CurDir,
            PathComponent::ParentDir => PathComponent::ParentDir,
            PathComponent::Normal(n) => PathComponent::Normal(n.clone()),
            PathComponent::NonUnicode => PathComponent::NonUnicode,
        }
    }
}

impl Clone for LocalPath {
    fn clone(&self) -> (r: Self)
        ensures
            r@ == self@,
    {
        let mut components: Vec<PathComponent> = Vec::new();
        let mut i: usize = 0;
        while i < self.components.len()
            invariant
                i <= self.components.len(),
                components@.len() == i,
                forall|k: int| 0 <= k < i ==> #[trigger] components@[k] == self.components@[k],
            decreases self.components.len() - i,
        {
            components.push(self.components[i].clone());
            i = i + 1;
        }
        let r = LocalPath { components };
        assert(r@ =~= self@);
        r
    }
}

impl View for LocalPath {
    type V = Seq<ComponentModel>;

    open spec fn view(&self) -> Seq<ComponentModel> {
        self.components@.map_values(|c: PathComponent| c.model())
    }
}

/// The failure reported for a path that is not a plain relative path.
pub open spec fn traversal_failure() -> (IoErrorKind, Seq<char>) {
    (IoErrorKind::InvalidInput, "Snapshot paths must be relative and cannot contain traversal"@)
}

pub open spec fn non_unicode_failure() -> (IoErrorKind, Seq<char>) {
    (IoErrorKind::InvalidData, "Save path contains non UTF-8 text"@)
}

/// The parts of `s` separated by `sep`, from position `start` on, as `str::split` yields them.
pub open spec fn split_from(s: Seq<char>, sep: char, start: int) -> Seq<Seq<char>>
    decreases s.len() + 1 - start,
{
    if start < 0 || start > s.len() {
        Seq::empty()
    } else {
        proof { lemma_find_from_bounds(s, seq![sep], start); }
        match find_from(s, seq![sep], start) {
            Some(i) => if start <= i {
                seq![s.subrange(start, i)] + split_from(s, sep, i + 1)
            } else {
                Seq::empty()
            },
            None => seq![s.subrange(start, s.len() as int)],
        }
    }
}

pub open spec fn split(s: Seq<char>, sep: char) -> Seq<Seq<char>> {
    split_from(s, sep, 0)
}

/// The characters of each vector.
pub open spec fn char_views(v: Seq<Vec<char>>) -> Seq<Seq<char>> {
    v.map_values(|c: Vec<char>| c@)
}

/// Splits `s` at every `sep`, as `str::split` does.
pub fn split_chars(s: &Vec<char>, sep: char) -> (r: Vec<Vec<char>>)
    ensures
        char_views(r@) == split(s@, sep),
{
    let pat = vec![sep];
    let mut parts: Vec<Vec<char>> = Vec::new();
    let mut start: usize = 0;
    let ghost whole = split(s@, sep);
    assert(char_views(parts@) + split_from(s@, sep, 0) =~= whole);
    loop
        invariant
            pat@ == seq![sep],
            whole == split(s@, sep),
            start <= s.len(),
            char_views(parts@) + split_from(s@, sep, start as int) == whole,
        decreases s.len() + 1 - start,
    {
        let ghost before = char_views(parts@);
        proof { lemma_find_from_bounds(s@, seq![sep], start as int); }
        match find_chars(s, &pat, start) {
            Some(i) => {
                let piece = crate::text::sub_chars(s, start, i);
                parts.push(piece);
                assert(char_views(parts@) =~= before.push(piece@));
                assert(split_from(s@, sep, start as int) == seq![piece@] + split_from(s@, sep, i + 1));
                assert(before.push(piece@) + split_from(s@, sep, i + 1) =~= before + split_from(s@, sep, start as int));
                start = i + 1;
            },
            None => {
                let piece = crate::text::sub_chars(s, start, s.len());
                parts.push(piece);
                assert(char_views(parts@) =~= before.push(piece@));
                assert(split_from(s@, sep, start as int) =~= seq![piece@]);
                return parts;
            },
        }
    }
}

/// The parts joined with `sep` between each two of them, as `[String]::join` does.
pub open spec fn join(parts: Seq<Seq<char>>, sep: char) -> Seq<char>
    decreases parts.len(),
{
    if parts.len() == 0 {
        Seq::empty()
    } else if parts.len() == 1 {
        parts[0]
    } else {
        join(parts.drop_last(), sep) + seq![sep] + parts.last()
    }
}

/// The names of a relative path's components, or the failure for the first component
/// that is not a plain name.
pub open spec fn relative_names(cs: Seq<ComponentModel>) -> Result<Seq<Seq<char>>, (IoErrorKind, Seq<char>)>
    decreases cs.len(),
{
    if cs.len() == 0 {
        Ok(Seq::empty())
    } else {
        match cs[0] {
            ComponentModel::Normal(name) => match relative_names(cs.drop_first()) {
                Ok(rest) => Ok(seq![name] + rest),
                Err(e) => Err(e),
            },
            ComponentModel::NonUnicode => Err(non_unicode_failure()),
            _ => Err(traversal_failure()),
        }
    }
}

/// The `/` separated manifest form of a relative local path.
pub open spec fn normalized_relative_path(cs: Seq<ComponentModel>) -> Result<Seq<char>, (IoErrorKind, Seq<char>)> {
    match relative_names(cs) {
        Ok(names) => Ok(join(names, '/')),
        Err(e) => Err(e),
    }
}

proof fn lemma_relative_names_suffix(cs: Seq<ComponentModel>, i: int)
    requires
        0 <= i <= cs.len(),
        forall|k: int| 0 <= k < i ==> cs[k] is Normal,
    ensures
        relative_names(cs) == match relative_names(cs.skip(i)) {
            Ok(rest) => Ok(Seq::new(i as nat, |k: int| cs[k]->Normal_0) + rest),
            Err(e) => Err(e),
        },
    decreases i,
{
    if i > 0 {
        lemma_relative_names_suffix(cs.drop_first(), i - 1);
        assert(cs.drop_first().skip(i - 1) =~= cs.skip(i));
        match relative_names(cs.skip(i)) {
            Ok(rest) => {
                assert(Seq::new(i as nat, |k: int| cs[k]->Normal_0) =~= seq![cs[0]->Normal_0]
                    + Seq::new((i - 1) as nat, |k: int| cs.drop_first()[k]->Normal_0));
                assert(Seq::new(i as nat, |k: int| cs[k]->Normal_0) + rest =~= seq![cs[0]->Normal_0]
                    + (Seq::new((i - 1) as nat, |k: int| cs.drop_first()[k]->Normal_0) + rest));
            },
            Err(e) => {},
        }
    } else {
        assert(cs.skip(0) =~= cs);
        match relative_names(cs) {
            Ok(rest) => { assert(Seq::new(0, |k: int| cs[k]->Normal_0) + rest =~= rest); },
            Err(e) => {},
        }
    }
}

/// Converts a relative local path, given by its components, into the `/` separated form
/// that snapshot manifests record.
pub fn normalize_relative_path(path: &LocalPath) -> (r: Result<String, IoFailure>)
    ensures
        match r {
            Ok(text) => normalized_relative_path(path@) == Ok::<Seq<char>, (IoErrorKind, Seq<char>)>(text@),
            Err(e) => normalized_relative_path(path@) == Err::<Seq<char>, (IoErrorKind, Seq<char>)>(e.model()),
        },
{
    let cs = &path.components;
    let ghost m = path@;
    let mut text = String::new();
    let mut i: usize = 0;
    while i < cs.len()
        invariant
            i <= cs.len(),
            m == path@,
            m.len() == cs.len(),
            forall|k: int| 0 <= k < m.len() ==> m[k] == (#[trigger] cs@[k]).model(),
            forall|k: int| 0 <= k < i ==> m[k] is Normal,
            text@ == join(Seq::new(i as nat, |k: int| m[k]->Normal_0), '/'),
        decreases cs.len() - i,
    {
        let ghost before = Seq::new(i as nat, |k: int| m[k]->Normal_0);
        match &cs[i] {
            PathComponent::Normal(name) => {
                if i > 0 {
                    text.push('/');
                }
                let name_chars = chars_of(name.as_str());
                let piece = string_from_chars(&name_chars, 0, name_chars.len());
                assert(name_chars@.subrange(0, name_chars@.len() as int) =~= name_chars@);
                text.append(piece.as_str());
                proof {
                    let after = Seq::new((i + 1) as nat, |k: int| m[k]->Normal_0);
                    assert(after.drop_last() =~= before);
                    if i == 0 {
                        assert(after =~= seq![name@]);
                    }
                }
            },
            PathComponent::NonUnicode => {
                proof {
                    lemma_relative_names_suffix(m, i as int);
                    assert(m.skip(i as int)[0] == m[i as int]);
                }
                return Err(IoFailure::new(IoErrorKind::InvalidData, "Save path contains non UTF-8 text"));
            },
            _ => {
                proof {
                    lemma_relative_names_suffix(m, i as int);
                    assert(m.skip(i as int)[0] == m[i as int]);
                }
                return Err(
                    IoFailure::new(
                        IoErrorKind::InvalidInput,
                        "Snapshot paths must be relative and cannot contain traversal",
                    ),
                );
            },
        }
        i = i + 1;
    }
    proof {
        lemma_relative_names_suffix(m, m.len() as int);
        assert(m.skip(m.len() as int) =~= Seq::<ComponentModel>::empty());
        assert(Seq::new(i as nat, |k: int| m[k]->Normal_0) + Seq::<Seq<char>>::empty() =~= Seq::new(
            i as nat,
            |k: int| m[k]->Normal_0,
        ));
    }
    Ok(text)
}

pub open spec fn unsafe_path_failure() -> (IoErrorKind, Seq<char>) {
    (IoErrorKind::InvalidData, "Manifest contains an unsafe save path"@)
}

pub open spec fn unsafe_component_failure() -> (IoErrorKind, Seq<char>) {
    (IoErrorKind::InvalidData, "Manifest contains an unsafe path component"@)
}

/// A manifest path component that could leave, or not name, a place inside the location.
pub open spec fn is_unsafe_manifest_part(p: Seq<char>) -> bool {
    ||| p.len() == 0
    ||| p == seq!['.']
    ||| p == seq!['.', '.']
    ||| contains_char(p, '\0')
    ||| contains_char(p, ':')
}

/// The local relative path that a manifest path names: nothing for the empty path (the
/// location itself is the save file), else its `/` separated parts, provided every part
/// is a plain name.
pub open spec fn manifest_relative_path(p: Seq<char>) -> Result<Option<Seq<Seq<char>>>, (IoErrorKind, Seq<char>)> {
    if p.len() == 0 {
        Ok(None)
    } else if p[0] == '/' || p.last() == '/' || contains_char(p, '\\') {
        Err(unsafe_path_failure())
    } else if exists|i: int| 0 <= i < split(p, '/').len() && is_unsafe_manifest_part(#[trigger] split(p, '/')[i]) {
        Err(unsafe_component_failure())
    } else {
        Ok(Some(split(p, '/')))
    }
}

pub open spec fn string_views(v: Seq<String>) -> Seq<Seq<char>> {
    v.map_values(|s: String| s@)
}

fn is_unsafe_part_chars(part: &Vec<char>) -> (r: bool)
    ensures
        r == is_unsafe_manifest_part(part@),
{
    let dot = vec!['.'];
    let dots = vec!['.', '.'];
    if part.len() == 0 {
        return true;
    }
    let same_as_dot = part.len() == 1 && part[0] == '.';
    let same_as_dots = part.len() == 2 && part[0] == '.' && part[1] == '.';
    assert(same_as_dot == (part@ == seq!['.'])) by {
        if part@ == seq!['.'] { assert(part@[0] == seq!['.'][0]); }
        if same_as_dot { assert(part@ =~= seq!['.']); }
    }
    assert(same_as_dots == (part@ == seq!['.', '.'])) by {
        if part@ == seq!['.', '.'] { assert(part@[0] == seq!['.', '.'][0] && part@[1] == seq!['.', '.'][1]); }
        if same_as_dots { assert(part@ =~= seq!['.', '.']); }
    }
    same_as_dot || same_as_dots || contains_char_chars(part, '\0') || contains_char_chars(part, ':')
}

/// Converts a portable manifest path into a safe relative path, given by its parts.
/// `Ok(None)` means that the location itself is the save file.
pub fn path_from_manifest(relative_path: String) -> (r: Result<Option<Vec<String>>, IoFailure>)
    ensures
        match r {
            Ok(None) => manifest_relative_path(relative_path@) == Ok::<Option<Seq<Seq<char>>>, (IoErrorKind, Seq<char>)>(None),
            Ok(Some(parts)) => manifest_relative_path(relative_path@)
                == Ok::<Option<Seq<Seq<char>>>, (IoErrorKind, Seq<char>)>(Some(string_views(parts@))),
            Err(e) => manifest_relative_path(relative_path@)
                == Err::<Option<Seq<Seq<char>>>, (IoErrorKind, Seq<char>)>(e.model()),
        },
{
    let p = chars_of(relative_path.as_str());
    if p.len() == 0 {
        return Ok(None);
    }
    if p[0] == '/' || p[p.len() - 1] == '/' || contains_char_chars(&p, '\\') {
        return Err(IoFailure::new(IoErrorKind::InvalidData, "Manifest contains an unsafe save path"));
    }
    let slash = vec!['/'];
    assert(slash@ == seq!['/']);
    let ghost whole = split(p@, '/');
    let mut parts: Vec<String> = Vec::new();
    let mut start: usize = 0;
    let mut done = false;
    assert(string_views(parts@) + split_from(p@, '/', 0) =~= whole);
    while !done
        invariant
            slash@ == seq!['/'],
            p@ == relative_path@,
            p@.len() > 0 && p@[0] != '/' && p@.last() != '/' && !contains_char(p@, '\\'),
            whole == split(p@, '/'),
            done ==> string_views(parts@) =~= whole,
            !done ==> start <= p.len() && string_views(parts@) + split_from(p@, '/', start as int) == whole,
            forall|i: int| 0 <= i < parts@.len() ==> !is_unsafe_manifest_part(#[trigger] string_views(parts@)[i]),
        decreases p.len() + 1 - start, if done { 0int } else { 1int },
    {
        let ghost before = string_views(parts@);
        proof { lemma_find_from_bounds(p@, seq!['/'], start as int); }
        let end = match find_chars(&p, &slash, start) {
            Some(i) => i,
            None => p.len(),
        };
        let piece = crate::text::sub_chars(&p, start, end);
        if is_unsafe_part_chars(&piece) {
            assert(whole[before.len() as int] == piece@) by {
                assert((before + split_from(p@, '/', start as int))[before.len() as int] == split_from(p@, '/', start as int)[0]);
            }
            assert(is_unsafe_manifest_part(split(p@, '/')[before.len() as int]));
            assert(before.len() < split(p@, '/').len());
            return Err(IoFailure::new(IoErrorKind::InvalidData, "Manifest contains an unsafe path component"));
        }
        let piece_text = crate::text::string_of(&piece);
        parts.push(piece_text);
        assert(string_views(parts@) =~= before.push(piece@));
        if end == p.len() {
            done = true;
            assert(split_from(p@, '/', start as int) =~= seq![piece@]);
        } else {
            assert(split_from(p@, '/', start as int) == seq![piece@] + split_from(p@, '/', end + 1));
            assert(before.push(piece@) + split_from(p@, '/', end + 1) =~= before + split_from(p@, '/', start as int));
            start = end + 1;
        }
    }
    Ok(Some(parts))
}

/// The order that `std::path::Component` derives: by kind first, then by name.
pub open spec fn component_rank(c: ComponentModel) -> int {
    match c {
        ComponentModel::Prefix(_) => 0,
        ComponentModel::RootDir => 1,
        ComponentModel::CurDir => 2,
        ComponentModel::ParentDir => 3,
        ComponentModel::Normal(_) => 4,
        ComponentModel::NonUnicode => 5,
    }
}

/// Lexicographic order on character sequences, by code point; for UTF-8 text this is
/// the byte order in which `OsStr` and `str` compare.
pub open spec fn chars_lt(a: Seq<char>, b: Seq<char>) -> bool
    decreases a.len(),
{
    if a.len() == 0 {
        b.len() > 0
    } else if b.len() == 0 {
        false
    } else if a[0] != b[0] {
        a[0] < b[0]
    } else {
        chars_lt(a.drop_first(), b.drop_first())
    }
}

pub open spec fn component_lt(a: ComponentModel, b: ComponentModel) -> bool {
    if component_rank(a) != component_rank(b) {
        component_rank(a) < component_rank(b)
    } else {
        match (a, b) {
            (ComponentModel::Prefix(x), ComponentModel::Prefix(y)) => chars_lt(x, y),
            (ComponentModel::Normal(x), ComponentModel::Normal(y)) => chars_lt(x, y),
            _ => false,
        }
    }
}

/// Component-wise lexicographic order, the order in which `Path` values compare.
pub open spec fn path_lt(a: Seq<ComponentModel>, b: Seq<ComponentModel>) -> bool
    decreases a.len(),
{
    if a.len() == 0 {
        b.len() > 0
    } else if b.len() == 0 {
        false
    } else if a[0] != b[0] {
        component_lt(a[0], b[0])
    } else {
        path_lt(a.drop_first(), b.drop_first())
    }
}

/// Whether path `a` starts with path `b`, component by component, as `Path::starts_with` decides.
pub open spec fn path_starts_with(a: Seq<ComponentModel>, b: Seq<ComponentModel>) -> bool {
    b.len() <= a.len() && a.take(b.len() as int) == b
}

fn component_eq(a: &PathComponent, b: &PathComponent) -> (r: bool)
    ensures
        r == (a.model() == b.model()),
{
    match a {
        PathComponent::Prefix(x) => match b {
            PathComponent::Prefix(y) => x.eq(y),
            _ => false,
        },
        PathComponent::RootDir => match b {
            PathComponent::RootDir => true,
            _ => false,
        },
        PathComponent::CurDir => match b {
            PathComponent::CurDir => true,
            _ => false,
        },
        PathComponent::ParentDir => match b {
            PathComponent::ParentDir => true,
            _ => false,
        },
        PathComponent::Normal(x) => match b {
            PathComponent::Normal(y) => x.eq(y),
            _ => false,
        },
        PathComponent::NonUnicode => match b {
            PathComponent::NonUnicode => true,
            _ => false,
        },
    }
}

fn rank_of(c: &PathComponent) -> (r: u8)
    ensures
        r as int == component_rank(c.model()),
{
    match c {
        PathComponent::Prefix(_) => 0,
        PathComponent::RootDir => 1,
        PathComponent::CurDir => 2,
        PathComponent::ParentDir => 3,
        PathComponent::Normal(_) => 4,
        PathComponent::NonUnicode => 5,
    }
}

proof fn lemma_chars_lt_suffix(a: Seq<char>, b: Seq<char>, i: int)
    requires
        0 <= i <= a.len(),
        i <= b.len(),
        a.take(i) == b.take(i),
    ensures
        chars_lt(a, b) == chars_lt(a.skip(i), b.skip(i)),
    decreases i,
{
    if i > 0 {
        assert(a[0] == a.take(i)[0] && b[0] == b.take(i)[0]);
        assert(a.drop_first().take(i - 1) =~= a.take(i).drop_first());
        assert(b.drop_first().take(i - 1) =~= b.take(i).drop_first());
        lemma_chars_lt_suffix(a.drop_first(), b.drop_first(), i - 1);
        assert(a.drop_first().skip(i - 1) =~= a.skip(i));
        assert(b.drop_first().skip(i - 1) =~= b.skip(i));
    } else {
        assert(a.skip(0) =~= a);
        assert(b.skip(0) =~= b);
    }
}

/// Whether `a` comes before `b` in code point order.
pub fn text_lt(a: &String, b: &String) -> (r: bool)
    ensures
        r == chars_lt(a@, b@),
{
    let x = chars_of(a.as_str());
    let y = chars_of(b.as_str());
    let mut i: usize = 0;
    while i < x.len() && i < y.len() && x[i] == y[i]
        invariant
            i <= x.len() && i <= y.len(),
            x@.take(i as int) == y@.take(i as int),
        decreases x.len() - i,
    {
        assert(x@.take(i + 1) =~= x@.take(i as int).push(x@[i as int]));
        assert(y@.take(i + 1) =~= y@.take(i as int).push(y@[i as int]));
        i = i + 1;
    }
    proof { lemma_chars_lt_suffix(x@, y@, i as int); }
    if i == x.len() {
        i < y.len()
    } else if i == y.len() {
        false
    } else {
        assert(x@.skip(i as int)[0] == x@[i as int] && y@.skip(i as int)[0] == y@[i as int]);
        x[i] < y[i]
    }
}

fn component_lt_exec(a: &PathComponent, b: &PathComponent) -> (r: bool)
    ensures
        r == component_lt(a.model(), b.model()),
{
    let ra = rank_of(a);
    let rb = rank_of(b);
    if ra != rb {
        return ra < rb;
    }
    match (a, b) {
        (PathComponent::Prefix(x), PathComponent::Prefix(y)) => text_lt(x, y),
        (PathComponent::Normal(x), PathComponent::Normal(y)) => text_lt(x, y),
        _ => false,
    }
}

proof fn lemma_path_lt_suffix(a: Seq<ComponentModel>, b: Seq<ComponentModel>, i: int)
    requires
        0 <= i <= a.len(),
        i <= b.len(),
        a.take(i) == b.take(i),
    ensures
        path_lt(a, b) == path_lt(a.skip(i), b.skip(i)),
    decreases i,
{
    if i > 0 {
        assert(a[0] == a.take(i)[0] && b[0] == b.take(i)[0]);
        assert(a.drop_first().take(i - 1) =~= a.take(i).drop_first());
        assert(b.drop_first().take(i - 1) =~= b.take(i).drop_first());
        lemma_path_lt_suffix(a.drop_first(), b.drop_first(), i - 1);
        assert(a.drop_first().skip(i - 1) =~= a.skip(i));
        assert(b.drop_first().skip(i - 1) =~= b.skip(i));
    } else {
        assert(a.skip(0) =~= a);
        assert(b.skip(0) =~= b);
    }
}

pub proof fn lemma_chars_lt_total(a: Seq<char>, b: Seq<char>)
    requires
        a != b,
    ensures
        chars_lt(a, b) || chars_lt(b, a),
    decreases a.len(),
{
    if a.len() > 0 && b.len() > 0 && a[0] == b[0] {
        if a.drop_first() == b.drop_first() {
            assert(a =~= seq![a[0]] + a.drop_first());
            assert(b =~= seq![b[0]] + b.drop_first());
        }
        lemma_chars_lt_total(a.drop_first(), b.drop_first());
    } else if a.len() == 0 && b.len() == 0 {
        assert(a =~= b);
    }
}

proof fn lemma_component_lt_total(a: ComponentModel, b: ComponentModel)
    requires
        a != b,
    ensures
        component_lt(a, b) || component_lt(b, a),
{
    match (a, b) {
        (ComponentModel::Prefix(x), ComponentModel::Prefix(y)) => lemma_chars_lt_total(x, y),
        (ComponentModel::Normal(x), ComponentModel::Normal(y)) => lemma_chars_lt_total(x, y),
        _ => {},
    }
}

/// Two different paths are always ordered one way or the other.
pub proof fn lemma_path_lt_total(a: Seq<ComponentModel>, b: Seq<ComponentModel>)
    requires
        a != b,
    ensures
        path_lt(a, b) || path_lt(b, a),
    decreases a.len(),
{
    if a.len() > 0 && b.len() > 0 {
        if a[0] == b[0] {
            if a.drop_first() == b.drop_first() {
                assert(a =~= seq![a[0]] + a.drop_first());
                assert(b =~= seq![b[0]] + b.drop_first());
            }
            lemma_path_lt_total(a.drop_first(), b.drop_first());
        } else {
            lemma_component_lt_total(a[0], b[0]);
        }
    } else if a.len() == 0 && b.len() == 0 {
        assert(a =~= b);
    }
}

impl LocalPath {
    /// Whether the two paths are the same path.
    pub fn same_as(&self, other: &LocalPath) -> (r: bool)
        ensures
            r == (self@ == other@),
    {
        if self.components.len() != other.components.len() {
            return false;
        }
        let r = self.starts_with(other);
        assert(self@.take(other@.len() as int) =~= self@);
        r
    }

    /// Whether this path starts with `base`, component by component.
    pub fn starts_with(&self, base: &LocalPath) -> (r: bool)
        ensures
            r == path_starts_with(self@, base@),
    {
        let n = base.components.len();
        if n > self.components.len() {
            return false;
        }
        let mut i: usize = 0;
        while i < n
            invariant
                n == base.components.len() <= self.components.len(),
                forall|k: int| 0 <= k < self@.len() ==> self@[k] == (#[trigger] self.components@[k]).model(),
                forall|k: int| 0 <= k < base@.len() ==> base@[k] == (#[trigger] base.components@[k]).model(),
                i <= n,
                forall|k: int| 0 <= k < i ==> self@[k] == base@[k],
            decreases n - i,
        {
            if !component_eq(&self.components[i], &base.components[i]) {
                assert(self@.take(n as int)[i as int] != base@[i as int]);
                return false;
            }
            i = i + 1;
        }
        assert(self@.take(n as int) =~= base@);
        true
    }

    /// Whether this path comes before `other` in the order of `Path` values.
    pub fn lt(&self, other: &LocalPath) -> (r: bool)
        ensures
            r == path_lt(self@, other@),
    {
        let a = &self.components;
        let b = &other.components;
        let mut i: usize = 0;
        while i < a.len() && i < b.len() && component_eq(&a[i], &b[i])
            invariant
                i <= a.len() && i <= b.len(),
                a@.len() == self@.len() && b@.len() == other@.len(),
                forall|k: int| 0 <= k < a@.len() ==> self@[k] == (#[trigger] a@[k]).model(),
                forall|k: int| 0 <= k < b@.len() ==> other@[k] == (#[trigger] b@[k]).model(),
                self@.take(i as int) == other@.take(i as int),
            decreases a.len() - i,
        {
            assert(self@.take(i + 1) =~= self@.take(i as int).push(self@[i as int]));
            assert(other@.take(i + 1) =~= other@.take(i as int).push(other@[i as int]));
            i = i + 1;
        }
        proof { lemma_path_lt_suffix(self@, other@, i as int); }
        if i == a.len() {
            i < b.len()
        } else if i == b.len() {
            false
        } else {
            assert(self@.skip(i as int)[0] == self@[i as int] && other@.skip(i as int)[0] == other@[i as int]);
            component_lt_exec(&a[i], &b[i])
        }
    }

    /// This path with one more normal component at its end.
    pub fn join_name(&self, name: String) -> (r: LocalPath)
        ensures
            r@ == self@.push(ComponentModel::Normal(name@)),
    {
        let mut r = self.clone();
        r.components.push(PathComponent::Normal(name));
        assert(r@ =~= self@.push(ComponentModel::Normal(name@)));
        r
    }
}

/// A name that a manifest path can carry: a plain component name without separators.
pub open spec fn portable_name(n: Seq<char>) -> bool {
    !is_unsafe_manifest_part(n) && !contains_char(n, '/') && !contains_char(n, '\\')
}

proof fn lemma_find_in_prefix(a: Seq<char>, t: Seq<char>, c: char, i: int)
    requires
        0 <= i,
        find_from(a, seq![c], i) is Some,
    ensures
        find_from(a + t, seq![c], i) == find_from(a, seq![c], i),
    decreases a.len() + 1 - i,
{
    let s = a + t;
    if i + 1 <= a.len() {
        assert(s.subrange(i, i + 1) =~= a.subrange(i, i + 1));
        if a.subrange(i, i + 1) != seq![c] {
            lemma_find_in_prefix(a, t, c, i + 1);
        }
    }
}

proof fn lemma_find_at_separator(a: Seq<char>, b: Seq<char>, c: char, i: int)
    requires
        0 <= i <= a.len(),
        find_from(a, seq![c], i) is None,
    ensures
        find_from(a + seq![c] + b, seq![c], i) == Some(a.len() as int),
    decreases a.len() - i,
{
    let s = a + seq![c] + b;
    if i < a.len() {
        assert(s.subrange(i, i + 1) =~= a.subrange(i, i + 1));
        lemma_find_at_separator(a, b, c, i + 1);
    } else {
        assert(s.subrange(i, i + 1) =~= seq![c]);
    }
}

proof fn lemma_find_none_in_suffix(x: Seq<char>, b: Seq<char>, c: char, k: int)
    requires
        0 <= k,
        !contains_char(b, c),
    ensures
        find_from(x + b, seq![c], x.len() + k) is None,
    decreases b.len() + 1 - k,
{
    let s = x + b;
    if k + 1 <= b.len() {
        assert(s.subrange(x.len() + k, x.len() + k + 1) =~= b.subrange(k, k + 1));
        if b.subrange(k, k + 1) == seq![c] {
            assert(b[k] == b.subrange(k, k + 1)[0]);
        }
        lemma_find_none_in_suffix(x, b, c, k + 1);
    }
}

proof fn lemma_split_without_separator(b: Seq<char>, c: char)
    requires
        !contains_char(b, c),
    ensures
        split(b, c) == seq![b],
{
    lemma_find_none_in_suffix(Seq::empty(), b, c, 0);
    assert(Seq::<char>::empty() + b =~= b);
    assert(b.subrange(0, b.len() as int) =~= b);
}

proof fn lemma_split_appended(a: Seq<char>, b: Seq<char>, c: char, start: int)
    requires
        0 <= start <= a.len(),
        !contains_char(b, c),
    ensures
        split_from(a + seq![c] + b, c, start) == split_from(a, c, start) + seq![b],
    decreases a.len() - start,
{
    let s = a + seq![c] + b;
    lemma_find_from_bounds(a, seq![c], start);
    match find_from(a, seq![c], start) {
        Some(j) => {
            lemma_find_in_prefix(a, seq![c] + b, c, start);
            assert(a + (seq![c] + b) =~= s);
            assert(s.subrange(start, j) =~= a.subrange(start, j));
            lemma_split_appended(a, b, c, j + 1);
            assert(split_from(s, c, start) == seq![s.subrange(start, j)] + split_from(s, c, j + 1));
            assert(split_from(a, c, start) == seq![a.subrange(start, j)] + split_from(a, c, j + 1));
            assert(seq![a.subrange(start, j)] + (split_from(a, c, j + 1) + seq![b]) =~= (seq![a.subrange(start, j)] + split_from(a, c, j + 1)) + seq![b]);
        },
        None => {
            lemma_find_at_separator(a, b, c, start);
            assert(s.subrange(start, a.len() as int) =~= a.subrange(start, a.len() as int));
            lemma_find_none_in_suffix(a + seq![c], b, c, 0);
            assert(a + seq![c] + b == (a + seq![c]) + b);
            assert(split_from(s, c, a.len() + 1int) == seq![s.subrange(a.len() + 1int, s.len() as int)]);
            assert(s.subrange(a.len() + 1int, s.len() as int) =~= b);
            assert(split_from(a, c, start) == seq![a.subrange(start, a.len() as int)]);
        },
    }
}

proof fn lemma_split_join(names: Seq<Seq<char>>, c: char)
    requires
        names.len() > 0,
        forall|k: int| 0 <= k < names.len() ==> !contains_char(#[trigger] names[k], c),
    ensures
        split(join(names, c), c) == names,
    decreases names.len(),
{
    if names.len() == 1 {
        lemma_split_without_separator(names[0], c);
        assert(seq![names[0]] =~= names);
    } else {
        let init = names.drop_last();
        assert forall|k: int| 0 <= k < init.len() implies !contains_char(#[trigger] init[k], c) by {
            assert(init[k] == names[k]);
        }
        lemma_split_join(init, c);
        assert(names.last() == names[names.len() - 1]);
        lemma_split_appended(join(init, c), names.last(), c, 0);
        assert(init + seq![names.last()] =~= names);
    }
}

proof fn lemma_join_edges(names: Seq<Seq<char>>, c: char, x: char)
    requires
        names.len() > 0,
        forall|k: int| 0 <= k < names.len() ==> (#[trigger] names[k]).len() > 0 && !contains_char(names[k], x),
        c != x,
    ensures
        join(names, c).len() > 0,
        join(names, c)[0] == names[0][0],
        join(names, c).last() == names.last().last(),
        !contains_char(join(names, c), x),
    decreases names.len(),
{
    if names.len() > 1 {
        let init = names.drop_last();
        assert forall|k: int| 0 <= k < init.len() implies (#[trigger] init[k]).len() > 0 && !contains_char(init[k], x) by {
            assert(init[k] == names[k]);
        }
        lemma_join_edges(init, c, x);
        let j = join(names, c);
        let l = names[names.len() - 1];
        assert(j == join(init, c) + seq![c] + l);
        assert(init[0] == names[0]);
        assert forall|i: int| 0 <= i < j.len() implies #[trigger] j[i] != x by {
            if i < join(init, c).len() {
                assert(j[i] == join(init, c)[i]);
            } else if i == join(init, c).len() {
                assert(j[i] == c);
            } else {
                assert(j[i] == l[i - join(init, c).len() - 1]);
            }
        }
    }
}

proof fn lemma_relative_names_of_normal(names: Seq<Seq<char>>)
    ensures
        relative_names(names.map_values(|n: Seq<char>| ComponentModel::Normal(n))) == Ok::<Seq<Seq<char>>, (IoErrorKind, Seq<char>)>(names),
    decreases names.len(),
{
    let cs = names.map_values(|n: Seq<char>| ComponentModel::Normal(n));
    if names.len() > 0 {
        lemma_relative_names_of_normal(names.drop_first());
        assert(cs.drop_first() =~= names.drop_first().map_values(|n: Seq<char>| ComponentModel::Normal(n)));
        assert(cs[0] == ComponentModel::Normal(names[0]));
        assert(seq![names[0]] + names.drop_first() =~= names);
    } else {
        assert(names =~= Seq::<Seq<char>>::empty());
    }
}

/// The relative path of a save file survives the trip through a manifest: a path of
/// portable names, written in manifest form, is read back on restore as the same names
/// (and the empty path, a location that is itself the save file, as no names at all).
pub proof fn law_manifest_paths_round_trip(names: Seq<Seq<char>>)
    requires
        forall|k: int| 0 <= k < names.len() ==> portable_name(#[trigger] names[k]),
    ensures
        normalized_relative_path(names.map_values(|n: Seq<char>| ComponentModel::Normal(n)))
            == Ok::<Seq<char>, (IoErrorKind, Seq<char>)>(join(names, '/')),
        names.len() == 0 ==> manifest_relative_path(join(names, '/')) == Ok::<Option<Seq<Seq<char>>>, (IoErrorKind, Seq<char>)>(None),
        names.len() > 0 ==> manifest_relative_path(join(names, '/')) == Ok::<Option<Seq<Seq<char>>>, (IoErrorKind, Seq<char>)>(Some(names)),
{
    lemma_relative_names_of_normal(names);
    if names.len() > 0 {
        let p = join(names, '/');
        assert forall|k: int| 0 <= k < names.len() implies (#[trigger] names[k]).len() > 0 && !contains_char(names[k], '\\') by {
            assert(portable_name(names[k]));
        }
        lemma_join_edges(names, '/', '\\');
        assert forall|k: int| 0 <= k < names.len() implies !contains_char(#[trigger] names[k], '/') by {
            assert(portable_name(names[k]));
        }
        lemma_split_join(names, '/');
        assert(p[0] != '/') by {
            assert(portable_name(names[0]));
            assert(names[0].len() > 0);
            if names[0][0] == '/' {
                assert(contains_char(names[0], '/'));
            }
        }
        assert(p.last() != '/') by {
            let l = names[names.len() - 1];
            assert(portable_name(l));
            assert(l.len() > 0);
            if l.last() == '/' {
                assert(l[l.len() - 1] == '/');
                assert(contains_char(l, '/'));
            }
        }
        assert(!(exists|i: int| 0 <= i < split(p, '/').len() && is_unsafe_manifest_part(#[trigger] split(p, '/')[i]))) by {
            assert forall|i: int| 0 <= i < split(p, '/').len() implies !is_unsafe_manifest_part(#[trigger] split(p, '/')[i]) by {
                assert(portable_name(names[i]));
            }
        }
    }
}

proof fn lemma_join_cons(a: Seq<char>, rest: Seq<Seq<char>>, c: char)
    requires
        rest.len() > 0,
    ensures
        join(seq![a] + rest, c) == a + seq![c] + join(rest, c),
    decreases rest.len(),
{
    let all = seq![a] + rest;
    assert(all.len() >= 2);
    if rest.len() == 1 {
        assert(all.drop_last() =~= seq![a]);
        assert(all.last() == rest[0]);
        assert(join(seq![a], c) == a);
        assert(join(rest, c) == rest[0]);
        assert(join(all, c) == join(all.drop_last(), c) + seq![c] + all.last());
    } else {
        lemma_join_cons(a, rest.drop_last(), c);
        assert(all.drop_last() =~= seq![a] + rest.drop_last());
        assert(all.last() == rest.last());
        assert(join(all, c) == join(all.drop_last(), c) + seq![c] + all.last());
        assert(join(rest, c) == join(rest.drop_last(), c) + seq![c] + rest.last());
        assert(a + seq![c] + join(rest.drop_last(), c) + seq![c] + rest.last()
            =~= a + seq![c] + (join(rest.drop_last(), c) + seq![c] + rest.last()));
    }
}

proof fn lemma_join_split_from(s: Seq<char>, c: char, start: int)
    requires
        0 <= start <= s.len(),
    ensures
        split_from(s, c, start).len() > 0,
        join(split_from(s, c, start), c) == s.subrange(start, s.len() as int),
    decreases s.len() + 1 - start,
{
    lemma_find_from_bounds(s, seq![c], start);
    match find_from(s, seq![c], start) {
        Some(i) => {
            lemma_join_split_from(s, c, i + 1);
            let rest = split_from(s, c, i + 1);
            lemma_join_cons(s.subrange(start, i), rest, c);
            assert(s.subrange(i, i + 1)[0] == s[i]);
            assert(s.subrange(start, s.len() as int) =~= s.subrange(start, i) + seq![c] + s.subrange(i + 1, s.len() as int));
        },
        None => {
            assert(split_from(s, c, start) == seq![s.subrange(start, s.len() as int)]);
        },
    }
}

/// A path that a manifest records, once accepted and read as local names, is written in
/// manifest form exactly as it was: the names of a nested path give back the same text,
/// and the empty path of a location that is itself the save file gives back the empty text.
pub proof fn law_accepted_manifest_paths_round_trip(p: Seq<char>)
    ensures
        manifest_relative_path(p) == Ok::<Option<Seq<Seq<char>>>, (IoErrorKind, Seq<char>)>(None)
            ==> normalized_relative_path(Seq::empty()) == Ok::<Seq<char>, (IoErrorKind, Seq<char>)>(p),
        manifest_relative_path(p) matches Ok(Some(names))
            ==> normalized_relative_path(names.map_values(|n: Seq<char>| ComponentModel::Normal(n)))
                == Ok::<Seq<char>, (IoErrorKind, Seq<char>)>(p),
{
    assert(relative_names(Seq::<ComponentModel>::empty()) == Ok::<Seq<Seq<char>>, (IoErrorKind, Seq<char>)>(Seq::empty()));
    if p.len() == 0 {
        assert(p =~= Seq::<char>::empty());
    }
    if let Ok(Some(names)) = manifest_relative_path(p) {
        lemma_relative_names_of_normal(names);
        lemma_join_split_from(p, '/', 0);
        assert(p.subrange(0, p.len() as int) =~= p);
    }
}

} // verus!
