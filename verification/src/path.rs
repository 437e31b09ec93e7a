//! Paths as text, with `/` between the components.

use crate::text::{
    chars_of, concat, concat3, ends_with, join, join_append, join_front, join_seq,
    join_splits_back, same, split, split_joins_back, split_parts_lack, split_seq, starts_with,
    string_of,
};
use vstd::prelude::*;

verus! {

broadcast use vstd::string::group_string_axioms;

/// A component of a path.
#[derive(Clone, Debug, PartialEq, Eq)]
pub enum Component {
    /// The `/` that an absolute path begins with.
    Root,
    /// A leading `.`.
    CurDir,
    /// `..`.
    ParentDir,
    /// A name.
    Normal(String),
}

/// A [`Component`] with its name as a sequence.
pub enum ComponentModel {
    Root,
    CurDir,
    ParentDir,
    Normal(Seq<char>),
}

impl DeepView for Component {
    type V = ComponentModel;

    open spec fn deep_view(&self) -> ComponentModel {
        match self {
            Component::Root => ComponentModel::Root,
            Component::CurDir => ComponentModel::CurDir,
            Component::ParentDir => ComponentModel::ParentDir,
            Component::Normal(name) => ComponentModel::Normal(name@),
        }
    }
}

/// The component that the piece number `i` between the slashes stands for. An
/// empty piece stands for none, but for the one before a leading slash; a `.`
/// stands for none, but for a leading one.
pub open spec fn component_at(pieces: Seq<Seq<char>>, i: int) -> Option<ComponentModel> {
    if pieces[i] == ""@ {
        if i == 0 && pieces.len() > 1 {
            Some(ComponentModel::Root)
        } else {
            None
        }
    } else if pieces[i] == "."@ {
        if i == 0 {
            Some(ComponentModel::CurDir)
        } else {
            None
        }
    } else if pieces[i] == ".."@ {
        Some(ComponentModel::ParentDir)
    } else {
        Some(ComponentModel::Normal(pieces[i]))
    }
}

/// The components among the first `n` pieces.
pub open spec fn components_of(pieces: Seq<Seq<char>>, n: int) -> Seq<ComponentModel>
    decreases n,
{
    if n <= 0 {
        Seq::empty()
    } else {
        match component_at(pieces, n - 1) {
            Some(c) => components_of(pieces, n - 1).push(c),
            None => components_of(pieces, n - 1),
        }
    }
}

/// The pieces of a path between its slashes.
pub open spec fn pieces_of(path: Seq<char>) -> Seq<Seq<char>> {
    split_seq(path, "/"@)
}

/// The components of a path.
pub open spec fn components_seq(path: Seq<char>) -> Seq<ComponentModel> {
    components_of(pieces_of(path), pieces_of(path).len() as int)
}

fn split_path(path: &str) -> (r: Vec<String>)
    ensures
        r.deep_view() == pieces_of(path@),
        r@.len() > 0,
{
    proof {
        reveal_strlit("/");
    }
    split(path, "/")
}

fn read_component(pieces: &Vec<String>, i: usize) -> (r: Option<Component>)
    requires
        i < pieces@.len(),
    ensures
        r.deep_view() == component_at(pieces.deep_view(), i as int),
{
    let piece: &str = pieces[i].as_str();
    assert(pieces.deep_view()[i as int] == piece@);
    if same(piece, "") {
        if i == 0 && pieces.len() > 1 {
            Some(Component::Root)
        } else {
            None
        }
    } else if same(piece, ".") {
        if i == 0 {
            Some(Component::CurDir)
        } else {
            None
        }
    } else if same(piece, "..") {
        Some(Component::ParentDir)
    } else {
        Some(Component::Normal(pieces[i].clone()))
    }
}

/// The components of a path.
pub fn components(path: &str) -> (r: Vec<Component>)
    ensures
        r.deep_view() == components_seq(path@),
{
    let pieces: Vec<String> = split_path(path);
    let ghost all = pieces.deep_view();
    let mut r: Vec<Component> = Vec::new();
    let mut i: usize = 0;
    assert(r.deep_view() == components_of(all, 0));
    while i < pieces.len()
        invariant
            i <= pieces@.len(),
            all == pieces.deep_view(),
            r.deep_view() == components_of(all, i as int),
        decreases pieces@.len() - i,
    {
        let ghost before = r.deep_view();
        match read_component(&pieces, i) {
            Some(c) => {
                let ghost model = c.deep_view();
                r.push(c);
                assert(r.deep_view() == before.push(model));
            },
            None => {},
        }
        i = i + 1;
    }
    r
}

/// The last component, where it is a name.
pub open spec fn file_name_seq(path: Seq<char>) -> Option<Seq<char>> {
    let components = components_seq(path);
    if components.len() == 0 {
        None
    } else {
        match components.last() {
            ComponentModel::Normal(name) => Some(name),
            _ => None,
        }
    }
}

/// The file name of a path.
pub fn file_name(path: &str) -> (r: Option<String>)
    ensures
        r.deep_view() == file_name_seq(path@),
{
    let mut all: Vec<Component> = components(path);
    let ghost models = all.deep_view();
    match all.pop() {
        Some(last) => {
            assert(last.deep_view() == models.last());
            match last {
                Component::Normal(name) => Some(name),
                _ => None,
            }
        },
        None => None,
    }
}

/// The position of the last dot of `s`, or -1.
pub open spec fn last_dot(s: Seq<char>) -> int
    decreases s.len(),
{
    if s.len() == 0 {
        -1
    } else if s.last() == '.' {
        s.len() - 1
    } else {
        last_dot(s.drop_last())
    }
}

/// What follows the last dot of a file name, unless that dot begins it.
pub open spec fn extension_of_name(name: Seq<char>) -> Option<Seq<char>> {
    if last_dot(name) > 0 {
        Some(name.skip(last_dot(name) + 1))
    } else {
        None
    }
}

/// The extension of a path's file name.
pub open spec fn extension_seq(path: Seq<char>) -> Option<Seq<char>> {
    match file_name_seq(path) {
        Some(name) => extension_of_name(name),
        None => None,
    }
}

/// A path's file name without its extension.
pub open spec fn file_stem_seq(path: Seq<char>) -> Option<Seq<char>> {
    match file_name_seq(path) {
        Some(name) => if last_dot(name) > 0 {
            Some(name.take(last_dot(name)))
        } else {
            Some(name)
        },
        None => None,
    }
}

fn find_last_dot(chars: &Vec<char>) -> (r: Option<usize>)
    ensures
        match r {
            Some(i) => i == last_dot(chars@) && i < chars@.len(),
            None => last_dot(chars@) == -1,
        },
{
    let mut n: usize = chars.len();
    assert(chars@.take(n as int) == chars@);
    while n > 0
        invariant
            n <= chars@.len(),
            last_dot(chars@.take(n as int)) == last_dot(chars@),
        decreases n,
    {
        assert(chars@.take(n as int).drop_last() == chars@.take(n - 1));
        if chars[n - 1] == '.' {
            return Some(n - 1);
        }
        n = n - 1;
    }
    None
}

/// The extension of a path's file name.
pub fn extension(path: &str) -> (r: Option<String>)
    ensures
        r.deep_view() == extension_seq(path@),
{
    let name: String = match file_name(path) {
        Some(name) => name,
        None => return None,
    };
    let chars: Vec<char> = chars_of(name.as_str());
    match find_last_dot(&chars) {
        Some(i) if i > 0 => {
            let n: usize = chars.len();
            assert(chars@.subrange(i + 1, n as int) == chars@.skip(i + 1));
            Some(string_of(&chars, i + 1, n))
        },
        _ => None,
    }
}

/// A path's file name without its extension.
pub fn file_stem(path: &str) -> (r: Option<String>)
    ensures
        r.deep_view() == file_stem_seq(path@),
{
    let name: String = match file_name(path) {
        Some(name) => name,
        None => return None,
    };
    let chars: Vec<char> = chars_of(name.as_str());
    match find_last_dot(&chars) {
        Some(i) if i > 0 => {
            assert(chars@.subrange(0, i as int) == chars@.take(i as int));
            Some(string_of(&chars, 0, i))
        },
        _ => Some(name),
    }
}

/// Whether a path begins with a slash.
pub fn is_absolute(path: &str) -> (r: bool)
    ensures
        r == "/"@.is_prefix_of(path@),
{
    starts_with(path, "/")
}

/// `path` below `base`; an absolute path stands for itself.
pub open spec fn join_path_seq(base: Seq<char>, path: Seq<char>) -> Seq<char> {
    if "/"@.is_prefix_of(path) {
        path
    } else if base.len() == 0 || "/"@.is_suffix_of(base) {
        base + path
    } else {
        base + "/"@ + path
    }
}

/// Puts a path below another.
pub fn join_path(base: &str, path: &str) -> (r: String)
    ensures
        r@ == join_path_seq(base@, path@),
{
    if starts_with(path, "/") {
        path.to_owned()
    } else if base.is_empty() || ends_with(base, "/") {
        concat(base, path)
    } else {
        concat3(base, "/", path)
    }
}

// ---------------------------------------------------------------------------
// Prefixes
// ---------------------------------------------------------------------------

/// The position of the piece that holds the component number `k`, or the
/// number of pieces where there are no more than `k` components.
pub open spec fn piece_of_component(pieces: Seq<Seq<char>>, k: int, from: int) -> int
    decreases pieces.len() - from,
{
    if from >= pieces.len() {
        pieces.len() as int
    } else if component_at(pieces, from) is Some {
        if k <= 0 {
            from
        } else {
            piece_of_component(pieces, k - 1, from + 1)
        }
    } else {
        piece_of_component(pieces, k, from + 1)
    }
}

/// The number of pieces up to the last that holds a component.
pub open spec fn pieces_used(pieces: Seq<Seq<char>>, n: int) -> int
    decreases n,
{
    if n <= 0 {
        0
    } else if component_at(pieces, n - 1) is Some {
        n
    } else {
        pieces_used(pieces, n - 1)
    }
}

/// The text of a path from its component number `k` on, without the slashes
/// and dots around it.
pub open spec fn path_from_component(path: Seq<char>, k: int) -> Seq<char> {
    let pieces = pieces_of(path);
    let first = piece_of_component(pieces, k, 0);
    let end = pieces_used(pieces, pieces.len() as int);
    if first >= end {
        Seq::empty()
    } else if end == 1 && component_at(pieces, 0) == Some(ComponentModel::Root) {
        "/"@
    } else {
        join_seq(pieces.subrange(first, end), "/"@)
    }
}

/// `path` relative to `base`, where its components begin with those of `base`.
pub open spec fn strip_base_seq(path: Seq<char>, base: Seq<char>) -> Option<Seq<char>> {
    if components_seq(base).is_prefix_of(components_seq(path)) {
        Some(path_from_component(path, components_seq(base).len() as int))
    } else {
        None
    }
}

fn same_component(a: &Component, b: &Component) -> (r: bool)
    ensures
        r == (a.deep_view() == b.deep_view()),
{
    match (a, b) {
        (Component::Root, Component::Root) => true,
        (Component::CurDir, Component::CurDir) => true,
        (Component::ParentDir, Component::ParentDir) => true,
        (Component::Normal(x), Component::Normal(y)) => same(x.as_str(), y.as_str()),
        _ => false,
    }
}

/// Whether two texts are the same path, component by component.
pub fn same_path(a: &str, b: &str) -> (r: bool)
    ensures
        r == (components_seq(a@) == components_seq(b@)),
{
    let x: Vec<Component> = components(a);
    let y: Vec<Component> = components(b);
    let ghost xs = x.deep_view();
    let ghost ys = y.deep_view();
    if x.len() != y.len() {
        assert(xs.len() != ys.len());
        return false;
    }
    let mut i: usize = 0;
    while i < x.len()
        invariant
            i <= x@.len() == y@.len(),
            xs == x.deep_view(),
            ys == y.deep_view(),
            xs == components_seq(a@),
            ys == components_seq(b@),
            forall|j: int| 0 <= j < i ==> xs[j] == ys[j],
        decreases x@.len() - i,
    {
        if !same_component(&x[i], &y[i]) {
            assert(xs[i as int] != ys[i as int]);
            return false;
        }
        assert(xs[i as int] == ys[i as int]);
        i = i + 1;
    }
    assert(xs == ys);
    true
}

fn text_from_component(path: &str, k: usize) -> (r: String)
    ensures
        r@ == path_from_component(path@, k as int),
{
    let pieces: Vec<String> = split_path(path);
    let ghost all = pieces.deep_view();
    let n: usize = pieces.len();
    let mut first: usize = 0;
    let mut left: usize = k;
    while first < n
        invariant_except_break
            piece_of_component(all, left as int, first as int) == piece_of_component(
                all,
                k as int,
                0,
            ),
        invariant
            first <= n == pieces@.len(),
            all == pieces.deep_view(),
            all.len() == n,
        ensures
            first == piece_of_component(all, k as int, 0),
        decreases n - first,
    {
        if read_component(&pieces, first).is_some() {
            if left == 0 {
                break;
            }
            left = left - 1;
        }
        first = first + 1;
    }
    let mut end: usize = n;
    while end > 0 && read_component(&pieces, end - 1).is_none()
        invariant
            end <= n == pieces@.len(),
            all == pieces.deep_view(),
            pieces_used(all, end as int) == pieces_used(all, n as int),
        ensures
            end <= n,
            end == pieces_used(all, n as int),
        decreases end,
    {
        end = end - 1;
    }
    if first >= end {
        return String::new();
    }
    if end == 1 {
        if let Some(Component::Root) = read_component(&pieces, 0) {
            return "/".to_owned();
        }
    }
    join(&pieces, first, end, "/")
}

/// A path relative to another.
pub fn strip_base(path: &str, base: &str) -> (r: Option<String>)
    ensures
        r.deep_view() == strip_base_seq(path@, base@),
{
    let mine: Vec<Component> = components(path);
    let theirs: Vec<Component> = components(base);
    let ghost mine_seq = mine.deep_view();
    let ghost theirs_seq = theirs.deep_view();
    if mine.len() < theirs.len() {
        return None;
    }
    let mut i: usize = 0;
    while i < theirs.len()
        invariant
            i <= theirs@.len() <= mine@.len(),
            mine_seq == mine.deep_view(),
            theirs_seq == theirs.deep_view(),
            mine_seq == components_seq(path@),
            theirs_seq == components_seq(base@),
            forall|j: int| 0 <= j < i ==> mine_seq[j] == theirs_seq[j],
        decreases theirs@.len() - i,
    {
        if !same_component(&mine[i], &theirs[i]) {
            assert(mine_seq[i as int] != theirs_seq[i as int]);
            assert(!theirs_seq.is_prefix_of(mine_seq)) by {
                if theirs_seq.is_prefix_of(mine_seq) {
                    assert(mine_seq.take(theirs_seq.len() as int)[i as int]
                        == mine_seq[i as int]);
                }
            }
            return None;
        }
        assert(mine_seq[i as int] == theirs_seq[i as int]);
        i = i + 1;
    }
    assert(mine_seq.take(theirs_seq.len() as int) == theirs_seq);
    Some(text_from_component(path, theirs.len()))
}

// ---------------------------------------------------------------------------
// Normalizing
// ---------------------------------------------------------------------------

/// The names that are left once each `..` took the name before it away.
pub open spec fn names_left(components: Seq<ComponentModel>) -> Seq<Seq<char>>
    decreases components.len(),
{
    if components.len() == 0 {
        Seq::empty()
    } else {
        let before = names_left(components.drop_last());
        match components.last() {
            ComponentModel::Normal(name) => before.push(name),
            ComponentModel::ParentDir => if before.len() > 0 {
                before.drop_last()
            } else {
                before
            },
            _ => before,
        }
    }
}

/// A path made of names.
pub open spec fn path_of_names(rooted: bool, names: Seq<Seq<char>>) -> Seq<char> {
    (if rooted {
        "/"@
    } else {
        ""@
    }) + join_seq(names, "/"@)
}

/// Whether a path is absolute, by its components.
pub open spec fn is_rooted(components: Seq<ComponentModel>) -> bool {
    components.len() > 0 && components[0] is Root
}

/// `path` without `.` and `..`, by its text alone.
pub open spec fn normalize_seq(path: Seq<char>) -> Seq<char> {
    path_of_names(is_rooted(components_seq(path)), names_left(components_seq(path)))
}

/// Resolves `.` and `..` by the path's text alone.
pub fn normalize_path(path: &str) -> (r: String)
    ensures
        r@ == normalize_seq(path@),
{
    let all: Vec<Component> = components(path);
    let ghost models = all.deep_view();
    let mut names: Vec<String> = Vec::new();
    let mut rooted: bool = false;
    let mut i: usize = 0;
    assert(names.deep_view() == names_left(models.take(0)));
    while i < all.len()
        invariant
            i <= all@.len(),
            models == all.deep_view(),
            models == components_seq(path@),
            names.deep_view() == names_left(models.take(i as int)),
            i > 0 ==> rooted == is_rooted(models),
            i == 0 ==> !rooted,
        decreases all@.len() - i,
    {
        let ghost before = names.deep_view();
        assert(models.take(i + 1).drop_last() == models.take(i as int));
        assert(models.take(i + 1).last() == all@[i as int].deep_view());
        match &all[i] {
            Component::Root => {
                if i == 0 {
                    rooted = true;
                }
            },
            Component::CurDir => {},
            Component::ParentDir => {
                if names.len() > 0 {
                    names.pop();
                    assert(names.deep_view() == before.drop_last());
                }
            },
            Component::Normal(name) => {
                names.push(name.clone());
                assert(names.deep_view() == before.push(name@));
            },
        }
        assert(i == 0 ==> rooted == is_rooted(models));
        i = i + 1;
    }
    assert(models.take(models.len() as int) == models);
    let n: usize = names.len();
    assert(names.deep_view().subrange(0, n as int) == names.deep_view());
    let tail: String = join(&names, 0, n, "/");
    if rooted {
        concat("/", tail.as_str())
    } else {
        concat("", tail.as_str())
    }
}

/// A name that stands for itself in a path.
pub open spec fn is_plain(name: Seq<char>) -> bool {
    name != ""@ && name != "."@ && name != ".."@ && !name.contains('/')
}

/// No `.` and no `..`.
pub open spec fn lacks_dots(components: Seq<ComponentModel>) -> bool {
    forall|i: int|
        0 <= i < components.len() ==> !((#[trigger] components[i]) is CurDir)
            && !(components[i] is ParentDir)
}

/// The components of a path made of names.
pub open spec fn named_components(rooted: bool, names: Seq<Seq<char>>) -> Seq<ComponentModel> {
    (if rooted {
        seq![ComponentModel::Root]
    } else {
        Seq::empty()
    }) + names.map_values(|name: Seq<char>| ComponentModel::Normal(name))
}

/// The pieces between the slashes of a path made of names.
pub open spec fn named_pieces(rooted: bool, names: Seq<Seq<char>>) -> Seq<Seq<char>> {
    (if rooted {
        seq![""@]
    } else {
        Seq::empty()
    }) + (if names.len() == 0 {
        seq![""@]
    } else {
        names
    })
}

/// A path made of plain names has just these components.
proof fn plain_components(rooted: bool, names: Seq<Seq<char>>)
    requires
        forall|i: int| 0 <= i < names.len() ==> is_plain(#[trigger] names[i]),
    ensures
        is_rooted(components_seq(path_of_names(rooted, names))) == rooted,
        names_left(components_seq(path_of_names(rooted, names))) == names,
        lacks_dots(components_seq(path_of_names(rooted, names))),
        components_seq(path_of_names(rooted, names)) == named_components(rooted, names),
        pieces_of(path_of_names(rooted, names)) == named_pieces(rooted, names),
{
    reveal_strlit("/");
    reveal_strlit("");
    assert("/"@ == seq!['/']);
    assert(""@ == Seq::<char>::empty());
    let path = path_of_names(rooted, names);
    let pieces = pieces_of(path);
    let parts = if names.len() == 0 {
        seq![""@]
    } else {
        names
    };
    let all = if rooted {
        seq![""@] + parts
    } else {
        parts
    };
    assert(path == join_seq(all, "/"@)) by {
        if rooted {
            join_front(""@, parts, "/"@);
            if names.len() == 0 {
                assert(join_seq(parts, "/"@) == ""@);
                assert(path == ""@ + "/"@ + ""@);
            } else {
                assert(path == ""@ + "/"@ + join_seq(names, "/"@));
            }
        } else {
            assert(join_seq(parts, "/"@) == join_seq(names, "/"@));
            assert(path == join_seq(names, "/"@));
        }
    }
    assert forall|i: int| 0 <= i < all.len() implies !(#[trigger] all[i]).contains('/') by {
        if !rooted && names.len() > 0 {
            assert(is_plain(names[i]));
        } else if rooted && names.len() > 0 && i > 0 {
            assert(is_plain(names[i - 1]));
        }
    }
    join_splits_back(all, '/');
    assert(pieces == all);
    assert(all == named_pieces(rooted, names));
    if names.len() == 0 {
        assert(components_of(pieces, 0) == Seq::<ComponentModel>::empty());
        if rooted {
            assert(components_of(pieces, 1) == seq![ComponentModel::Root]);
            assert(components_of(pieces, 2) == seq![ComponentModel::Root]);
            assert(components_seq(path).drop_last() == Seq::<ComponentModel>::empty());
            assert(names_left(components_seq(path).drop_last()) == Seq::<Seq<char>>::empty());
        } else {
            assert(components_of(pieces, 1) == Seq::<ComponentModel>::empty());
        }
        assert(components_seq(path) == named_components(rooted, names));
    } else {
        plain_pieces(pieces, names, rooted, names.len() as int);
        assert(names.take(names.len() as int) == names);
    }
}

/// The components among the first pieces of a path made of plain names.
proof fn plain_pieces(pieces: Seq<Seq<char>>, names: Seq<Seq<char>>, rooted: bool, n: int)
    requires
        0 <= n <= names.len(),
        names.len() > 0,
        forall|i: int| 0 <= i < names.len() ==> is_plain(#[trigger] names[i]),
        pieces == (if rooted {
            seq![""@] + names
        } else {
            names
        }),
    ensures
        ({
            let components = components_of(
                pieces,
                n + (if rooted {
                    1int
                } else {
                    0int
                }),
            );
            &&& components.len() == n + (if rooted {
                1int
            } else {
                0int
            })
            &&& (rooted ==> is_rooted(components))
            &&& (!rooted ==> !is_rooted(components))
            &&& names_left(components) == names.take(n)
            &&& lacks_dots(components)
            &&& components == named_components(rooted, names.take(n))
        }),
    decreases n,
{
    let offset: int = if rooted {
        1
    } else {
        0
    };
    let components = components_of(pieces, n + offset);
    if n == 0 {
        assert(components_of(pieces, 0) == Seq::<ComponentModel>::empty());
        if rooted {
            assert(components == seq![ComponentModel::Root]);
            assert(components.drop_last() == Seq::<ComponentModel>::empty());
            assert(names_left(components.drop_last()) == Seq::<Seq<char>>::empty());
        }
        assert(names.take(0) == Seq::<Seq<char>>::empty());
        assert(components == named_components(rooted, names.take(0)));
    } else {
        plain_pieces(pieces, names, rooted, n - 1);
        assert(is_plain(names[n - 1]));
        assert(pieces[n - 1 + offset] == names[n - 1]);
        let before = components_of(pieces, n - 1 + offset);
        assert(components == before.push(ComponentModel::Normal(names[n - 1])));
        assert(components.drop_last() == before);
        assert(names.take(n) == names.take(n - 1).push(names[n - 1]));
        assert(components == named_components(rooted, names.take(n)));
    }
}

/// The names that normalizing leaves are plain.
proof fn names_left_are_plain(pieces: Seq<Seq<char>>, n: int)
    requires
        0 <= n <= pieces.len(),
        forall|i: int| 0 <= i < pieces.len() ==> !(#[trigger] pieces[i]).contains('/'),
    ensures
        forall|i: int|
            0 <= i < names_left(components_of(pieces, n)).len() ==> is_plain(
                #[trigger] names_left(components_of(pieces, n))[i],
            ),
    decreases n,
{
    if n > 0 {
        names_left_are_plain(pieces, n - 1);
        let before = components_of(pieces, n - 1);
        let names = names_left(components_of(pieces, n));
        if component_at(pieces, n - 1) is Some {
            assert(components_of(pieces, n).drop_last() == before);
        }
        assert(!pieces[n - 1].contains('/'));
        assert forall|i: int| 0 <= i < names.len() implies is_plain(#[trigger] names[i]) by {
            if i < names_left(before).len() {
                assert(names[i] == names_left(before)[i]);
            }
        }
    }
}

/// Normalizing a second time changes nothing, and what it yields has no `.` and
/// no `..` in it.
pub proof fn normalizing_is_idempotent(path: Seq<char>)
    ensures
        normalize_seq(normalize_seq(path)) == normalize_seq(path),
        lacks_dots(components_seq(normalize_seq(path))),
{
    plain_names_left(path);
    plain_components(is_rooted(components_seq(path)), names_left(components_seq(path)));
}

// ---------------------------------------------------------------------------
// Joining
// ---------------------------------------------------------------------------

proof fn pieces_append(a: Seq<char>, b: Seq<char>)
    ensures
        pieces_of(a + "/"@ + b) == pieces_of(a) + pieces_of(b),
        pieces_of(a).len() > 0,
        pieces_of(b).len() > 0,
{
    reveal_strlit("/");
    assert("/"@ == seq!['/']);
    let front = pieces_of(a);
    let back = pieces_of(b);
    split_joins_back(a, "/"@);
    split_joins_back(b, "/"@);
    join_append(front, back, "/"@);
    let all = front + back;
    assert forall|i: int| 0 <= i < all.len() implies !(#[trigger] all[i]).contains('/') by {
        if i < front.len() {
            split_parts_lack(a, '/', 0, i);
        } else {
            split_parts_lack(b, '/', 0, i - front.len());
        }
    }
    join_splits_back(all, '/');
}

/// The components of the first pieces do not depend on what follows, as long as
/// there is more than one piece or the first is not empty.
proof fn same_front(a: Seq<Seq<char>>, b: Seq<Seq<char>>, n: int)
    requires
        0 <= n <= a.len(),
        n <= b.len(),
        forall|i: int| 0 <= i < n ==> a[i] == b[i],
        a.len() > 1 && b.len() > 1 || n > 0 && a[0] != ""@,
    ensures
        components_of(a, n) == components_of(b, n),
    decreases n,
{
    if n > 1 {
        same_front(a, b, n - 1);
    }
    if n > 0 {
        assert(components_of(a, 0) == components_of(b, 0));
        assert(component_at(a, n - 1) == component_at(b, n - 1));
    }
}

/// Plain names behind other pieces are components of their own.
proof fn names_follow(front: Seq<Seq<char>>, names: Seq<Seq<char>>, n: int)
    requires
        front.len() > 0,
        0 <= n <= names.len(),
        forall|i: int| 0 <= i < names.len() ==> is_plain(#[trigger] names[i]),
    ensures
        names_left(components_of(front + names, front.len() + n)) == names_left(
            components_of(front + names, front.len() as int),
        ) + names.take(n),
        is_rooted(components_of(front + names, front.len() + n)) == is_rooted(
            components_of(front + names, front.len() as int),
        ),
    decreases n,
{
    let all = front + names;
    if n == 0 {
        assert(names.take(0) == Seq::<Seq<char>>::empty());
        let left = names_left(components_of(all, front.len() as int));
        assert(left + names.take(0) == left);
    } else {
        names_follow(front, names, n - 1);
        let before = components_of(all, front.len() + n - 1);
        let after = components_of(all, front.len() + n);
        assert(is_plain(names[n - 1]));
        assert(all[front.len() + n - 1] == names[n - 1]);
        assert(after == before.push(ComponentModel::Normal(names[n - 1])));
        assert(after.drop_last() == before);
        assert(names.take(n) == names.take(n - 1).push(names[n - 1]));
        let left = names_left(components_of(all, front.len() as int));
        assert(left + names.take(n) == (left + names.take(n - 1)).push(names[n - 1]));
    }
}

/// A path made of plain names below another path: the names follow those that
/// are left of the other.
proof fn join_names(base: Seq<char>, names: Seq<Seq<char>>)
    requires
        forall|i: int| 0 <= i < names.len() ==> is_plain(#[trigger] names[i]),
    ensures
        !"/"@.is_prefix_of(join_seq(names, "/"@)),
        normalize_seq(join_path_seq(base, join_seq(names, "/"@))) == path_of_names(
            is_rooted(components_seq(base)),
            names_left(components_seq(base)) + names,
        ),
{
    reveal_strlit("/");
    reveal_strlit("");
    assert("/"@ == seq!['/']);
    assert(""@ == Seq::<char>::empty());
    let text = join_seq(names, "/"@);
    plain_components(false, names);
    assert(path_of_names(false, names) == text);
    let tail = pieces_of(text);
    assert(tail == named_pieces(false, names));
    assert(!"/"@.is_prefix_of(text)) by {
        if "/"@.is_prefix_of(text) {
            assert("/"@[0] == text.subrange(0, 1)[0]);
            let first = names[0];
            assert(is_plain(first));
            assert(first.len() == 0 ==> first == ""@);
            if names.len() > 1 {
                assert(names == seq![first] + names.skip(1));
                join_front(first, names.skip(1), "/"@);
            } else {
                assert(names.drop_last() == Seq::<Seq<char>>::empty());
            }
            assert(first[0] == text[0]);
            assert(first.contains('/'));
        }
    }
    let joined = join_path_seq(base, text);
    if base.len() == 0 {
        assert(joined == text);
        assert(base == path_of_names(false, Seq::empty()));
        plain_components(false, Seq::empty());
        assert(Seq::<Seq<char>>::empty() + names == names);
    } else {
        let slash = "/"@.is_suffix_of(base);
        let stem = if slash {
            base.drop_last()
        } else {
            base
        };
        let front = pieces_of(stem);
        pieces_append(stem, text);
        if slash {
            assert(base == stem + "/"@ + ""@);
            assert(joined == stem + "/"@ + text);
        }
        let all = front + tail;
        assert(pieces_of(joined) == all);
        let n = front.len() as int;
        assert(components_of(all, n) == components_seq(base)) by {
            if slash {
                pieces_append(stem, ""@);
                plain_components(false, Seq::empty());
                assert(path_of_names(false, Seq::empty()) == ""@);
                assert(pieces_of(""@) == seq![""@]);
                let mine = front + seq![""@];
                assert(pieces_of(base) == mine);
                assert(mine[n] == ""@);
                assert(components_of(mine, n + 1) == components_of(mine, n));
                same_front(all, mine, n);
            } else {
                split_joins_back(base, "/"@);
                if n == 1 {
                    assert(front.drop_last() == Seq::<Seq<char>>::empty());
                    assert(front[0] == base);
                }
                same_front(all, front, n);
            }
        }
        if names.len() == 0 {
            assert(all[n] == ""@);
            assert(components_of(all, n + 1) == components_of(all, n));
            assert(names_left(components_seq(base)) + names == names_left(components_seq(base)));
        } else {
            assert(tail == names);
            names_follow(front, names, names.len() as int);
            assert(names.take(names.len() as int) == names);
        }
    }
}

proof fn every_piece_counts(pieces: Seq<Seq<char>>, k: int, from: int)
    requires
        0 <= from <= pieces.len(),
        0 <= k,
        forall|i: int| from <= i < pieces.len() ==> #[trigger] component_at(pieces, i) is Some,
    ensures
        piece_of_component(pieces, k, from) == (if from + k <= pieces.len() {
            from + k
        } else {
            pieces.len() as int
        }),
    decreases pieces.len() - from,
{
    if from < pieces.len() {
        assert(component_at(pieces, from) is Some);
        if k > 0 {
            every_piece_counts(pieces, k - 1, from + 1);
        }
    }
}

/// What is left of a path made of plain names behind its first components.
proof fn strip_names(rooted: bool, names: Seq<Seq<char>>, n: int)
    requires
        0 <= n <= names.len(),
        forall|i: int| 0 <= i < names.len() ==> is_plain(#[trigger] names[i]),
    ensures
        path_from_component(
            path_of_names(rooted, names),
            n + (if rooted {
                1int
            } else {
                0int
            }),
        ) == join_seq(names.skip(n), "/"@),
        path_from_component(path_of_names(rooted, names), 0) == path_of_names(rooted, names),
{
    reveal_strlit("/");
    reveal_strlit("");
    assert(""@ == Seq::<char>::empty());
    let path = path_of_names(rooted, names);
    let pieces = pieces_of(path);
    plain_components(rooted, names);
    split_joins_back(path, "/"@);
    let offset: int = if rooted {
        1
    } else {
        0
    };
    let total = pieces.len() as int;
    if names.len() == 0 {
        assert(names.skip(n) == Seq::<Seq<char>>::empty());
        assert(pieces[total - 1] == ""@);
        assert(component_at(pieces, total - 1) is None);
        assert(pieces_used(pieces, 0) == 0);
        assert(pieces_used(pieces, total) == pieces_used(pieces, total - 1));
        if rooted {
            assert(total == 2);
            assert(component_at(pieces, 0) == Some(ComponentModel::Root));
            assert(pieces_used(pieces, 1) == 1);
            reveal_with_fuel(piece_of_component, 4);
            assert(path == "/"@);
        } else {
            reveal_with_fuel(piece_of_component, 3);
        }
    } else {
        assert forall|i: int| 0 <= i < total implies #[trigger] component_at(
            pieces,
            i,
        ) is Some by {
            if rooted && i > 0 || !rooted {
                assert(is_plain(names[i - offset]));
                assert(pieces[i] == names[i - offset]);
            }
        }
        every_piece_counts(pieces, n + offset, 0);
        every_piece_counts(pieces, 0, 0);
        assert(component_at(pieces, total - 1) is Some);
        assert(pieces.subrange(0, total) == pieces);
        assert(pieces.subrange(n + offset, total) == names.skip(n));
    }
}

/// What lies below a directory leads back when it is put below it again, also
/// where the directory was not in its plain form. It is relative, but for an
/// absolute path below a directory without any name.
pub proof fn stripped_path_leads_back(path: Seq<char>, base: Seq<char>)
    requires
        components_seq(normalize_seq(base)).is_prefix_of(components_seq(normalize_seq(path))),
    ensures
        strip_base_seq(normalize_seq(path), normalize_seq(base)) matches Some(rest) && {
            &&& normalize_seq(join_path_seq(base, rest)) == normalize_seq(path)
            &&& "/"@.is_prefix_of(rest) ==> normalize_seq(base).len() == 0 && "/"@.is_prefix_of(
                normalize_seq(path),
            )
            &&& normalize_seq(path) == normalize_seq(base) ==> rest.len() == 0
        },
{
    reveal_strlit("/");
    reveal_strlit("");
    assert("/"@ == seq!['/']);
    assert(""@ == Seq::<char>::empty());
    let names = names_left(components_seq(path));
    let outer = names_left(components_seq(base));
    let rooted = is_rooted(components_seq(path));
    let base_rooted = is_rooted(components_seq(base));
    plain_names_left(path);
    plain_names_left(base);
    plain_components(rooted, names);
    plain_components(base_rooted, outer);
    let mine = named_components(rooted, names);
    let theirs = named_components(base_rooted, outer);
    let k = theirs.len() as int;
    let rest = path_from_component(normalize_seq(path), k);
    if k == 0 {
        assert(outer.len() == 0 && !base_rooted);
        strip_names(rooted, names, 0);
        assert(rest == normalize_seq(path));
        if rooted {
            assert("/"@.is_prefix_of(rest));
            assert(join_path_seq(base, rest) == rest);
            normalizing_is_idempotent(path);
            assert(join_seq(outer, "/"@) == Seq::<char>::empty());
        } else {
            assert(names.skip(0) == names);
            join_names(base, names);
            assert(outer + names == names);
        }
        if normalize_seq(path) == normalize_seq(base) {
            assert(join_seq(outer, "/"@) == Seq::<char>::empty());
        }
    } else {
        assert(theirs[0] == mine[0]) by {
            assert(mine.take(k)[0] == theirs[0]);
        }
        assert(base_rooted == rooted) by {
            if base_rooted {
                assert(theirs[0] == ComponentModel::Root);
                if !rooted {
                    assert(mine[0] == ComponentModel::Normal(names[0]));
                }
            } else {
                assert(theirs[0] == ComponentModel::Normal(outer[0]));
                if rooted {
                    assert(mine[0] == ComponentModel::Root);
                }
            }
        }
        let offset: int = if rooted {
            1
        } else {
            0
        };
        let n = outer.len() as int;
        assert forall|i: int| 0 <= i < n implies outer[i] == #[trigger] names[i] by {
            assert(theirs[i + offset] == ComponentModel::Normal(outer[i]));
            assert(mine.take(k)[i + offset] == theirs[i + offset]);
            assert(mine[i + offset] == ComponentModel::Normal(names[i]));
        }
        let inner = names.skip(n);
        assert(outer + inner == names);
        strip_names(rooted, names, n);
        assert forall|i: int| 0 <= i < inner.len() implies is_plain(#[trigger] inner[i]) by {
            assert(is_plain(names[i + n]));
        }
        join_names(base, inner);
        if normalize_seq(path) == normalize_seq(base) {
            assert(mine.len() == theirs.len());
            assert(inner.len() == 0);
        }
    }
}

proof fn plain_names_left(path: Seq<char>)
    ensures
        forall|i: int|
            0 <= i < names_left(components_seq(path)).len() ==> is_plain(
                #[trigger] names_left(components_seq(path))[i],
            ),
{
    reveal_strlit("/");
    assert("/"@ == seq!['/']);
    let pieces = pieces_of(path);
    assert forall|i: int| 0 <= i < pieces.len() implies !(#[trigger] pieces[i]).contains('/') by {
        split_parts_lack(path, '/', 0, i);
    }
    names_left_are_plain(pieces, pieces.len() as int);
}

/// A file below a directory goes by its own name, and an absolute path stands for
/// itself below every directory.
pub proof fn joined_files_keep_their_names(base: Seq<char>, name: Seq<char>)
    requires
        is_plain(name),
        base.len() > 0,
        !"/"@.is_suffix_of(base),
    ensures
        file_name_seq(join_path_seq(base, name)) == Some(name),
        file_name_seq(base + "/"@ + name) == Some(name),
        join_path_seq(base, "/"@ + name) == "/"@ + name,
{
    reveal_strlit("/");
    assert("/"@ == seq!['/']);
    assert("/"@.is_prefix_of("/"@ + name));
    if "/"@.is_prefix_of(name) {
        assert("/"@[0] == name.subrange(0, 1)[0]);
        assert(name[0] == '/');
        assert(name.contains('/'));
    }
    pieces_append(base, name);
    join_splits_back(seq![name], '/');
    assert(join_seq(seq![name], seq!['/']) == name);
    let all = pieces_of(base + "/"@ + name);
    assert(all[all.len() - 1] == name);
    assert(component_at(all, all.len() - 1) == Some(ComponentModel::Normal(name)));
}

proof fn last_dot_is_last(stem: Seq<char>, ext: Seq<char>)
    requires
        !ext.contains('.'),
    ensures
        last_dot(stem.push('.') + ext) == stem.len(),
    decreases ext.len(),
{
    let name = stem.push('.') + ext;
    if ext.len() == 0 {
        assert(name == stem.push('.'));
    } else {
        let front = ext.drop_last();
        assert(ext.last() == ext[ext.len() - 1]);
        if front.contains('.') {
            let i = choose|i: int| 0 <= i < front.len() && front[i] == '.';
            assert(ext[i] == '.');
        }
        last_dot_is_last(stem, front);
        assert(name.drop_last() == stem.push('.') + front);
        assert(name.last() == ext.last());
    }
}

/// A name is its stem, a dot and its extension: what follows the last dot is the
/// extension, unless nothing stands before the dot.
pub proof fn extensions_follow_the_last_dot(stem: Seq<char>, ext: Seq<char>)
    requires
        !ext.contains('.'),
    ensures
        stem.len() > 0 ==> extension_of_name(stem.push('.') + ext) == Some(ext),
        stem.len() == 0 ==> extension_of_name(stem.push('.') + ext) is None,
        extension_of_name(ext) is None,
{
    last_dot_is_last(stem, ext);
    assert((stem.push('.') + ext).skip(stem.len() as int + 1) == ext);
    no_dot(ext);
}

proof fn no_dot(s: Seq<char>)
    requires
        !s.contains('.'),
    ensures
        last_dot(s) == -1,
    decreases s.len(),
{
    if s.len() > 0 {
        assert(s.last() == s[s.len() - 1]);
        let front = s.drop_last();
        if front.contains('.') {
            let i = choose|i: int| 0 <= i < front.len() && front[i] == '.';
            assert(s[i] == '.');
        }
        no_dot(front);
    }
}

/// A way up takes back the name before it, and a dot nothing.
pub proof fn ways_up_take_back_names(components: Seq<ComponentModel>, name: Seq<char>)
    ensures
        names_left(components.push(ComponentModel::Normal(name)).push(ComponentModel::ParentDir))
            == names_left(components),
        names_left(components.push(ComponentModel::Normal(name))) == names_left(components).push(
            name,
        ),
        names_left(components.push(ComponentModel::CurDir)) == names_left(components),
        names_left(components).len() == 0 ==> names_left(components.push(ComponentModel::ParentDir))
            == names_left(components),
{
    let below = components.push(ComponentModel::Normal(name));
    assert(below.drop_last() == components);
    assert(names_left(below) == names_left(components).push(name));
    assert(below.push(ComponentModel::ParentDir).drop_last() == below);
    assert(components.push(ComponentModel::CurDir).drop_last() == components);
    assert(components.push(ComponentModel::ParentDir).drop_last() == components);
    assert(names_left(components).push(name).drop_last() == names_left(components));
}

/// The stem of a name is what stands before its last dot, and the whole name where it has
/// none.
pub proof fn stems_come_before_the_last_dot(
    path: Seq<char>,
    other: Seq<char>,
    stem: Seq<char>,
    ext: Seq<char>,
)
    requires
        !ext.contains('.'),
        stem.len() > 0,
        file_name_seq(path) == Some(stem.push('.') + ext),
        file_name_seq(other) == Some(ext),
    ensures
        file_stem_seq(path) == Some(stem),
        extension_seq(path) == Some(ext),
        file_stem_seq(other) == Some(ext),
        extension_seq(other) is None,
{
    last_dot_is_last(stem, ext);
    assert((stem.push('.') + ext).take(stem.len() as int) == stem);
    extensions_follow_the_last_dot(stem, ext);
    no_dot(ext);
}

} // verus!
