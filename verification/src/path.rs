//! Unix paths as text, and the components that they consist of.

use vstd::prelude::*;

use crate::error::{protocol_error, HarnessServerError};
use crate::error;
use crate::text;
use crate::text::{chars_of, concat, concat3, split_once, text_eq};

verus! {

/// A component of a path.
#[derive(Debug)]
pub enum PathComponent {
    RootDir,
    CurDir,
    ParentDir,
    Normal(String),
}

/// The content of a [`PathComponent`].
pub enum PathPart {
    RootDir,
    CurDir,
    ParentDir,
    Normal(Seq<char>),
}

impl View for PathComponent {
    type V = PathPart;

    open spec fn view(&self) -> PathPart {
        match self {
            PathComponent::RootDir => PathPart::RootDir,
            PathComponent::CurDir => PathPart::CurDir,
            PathComponent::ParentDir => PathPart::ParentDir,
            PathComponent::Normal(name) => PathPart::Normal(name@),
        }
    }
}

/// The content of a list of components.
pub open spec fn parts(components: Seq<PathComponent>) -> Seq<PathPart> {
    components.map_values(|c: PathComponent| c@)
}

/// Whether a path starts at the root.
pub open spec fn spec_absolute(path: Seq<char>) -> bool {
    path.len() > 0 && path[0] == '/'
}

/// The components that one piece of a path between slashes gives: none for an empty piece, and
/// for a single dot only where it begins a relative path.
pub open spec fn piece_parts(piece: Seq<char>, leads: bool) -> Seq<PathPart> {
    if piece == Seq::<char>::empty() {
        seq![]
    } else if piece == seq!['.'] {
        if leads {
            seq![PathPart::CurDir]
        } else {
            seq![]
        }
    } else if piece == seq!['.', '.'] {
        seq![PathPart::ParentDir]
    } else {
        seq![PathPart::Normal(piece)]
    }
}

/// The components that the pieces of a path give. A relative path begins with its first piece.
pub open spec fn pieces_parts(pieces: Seq<Seq<char>>, absolute: bool) -> Seq<PathPart>
    decreases pieces.len(),
{
    if pieces.len() == 0 {
        seq![]
    } else {
        pieces_parts(pieces.drop_last(), absolute) + piece_parts(
            pieces.last(),
            pieces.len() == 1 && !absolute,
        )
    }
}

/// The components of a path.
pub open spec fn spec_components(path: Seq<char>) -> Seq<PathPart> {
    let absolute = spec_absolute(path);
    let front = if absolute {
        seq![PathPart::RootDir]
    } else {
        Seq::<PathPart>::empty()
    };
    front + pieces_parts(text::spec_split(path, '/'), absolute)
}

/// Whether the first components are `root`.
pub open spec fn within(components: Seq<PathPart>, root: Seq<PathPart>) -> bool {
    root.len() <= components.len() && components.take(root.len() as int) == root
}

/// Normalized components with one more taken into account: a parent component takes back the name
/// before it.
pub open spec fn normalize_step(done: Seq<PathPart>, next: PathPart) -> Option<Seq<PathPart>> {
    match next {
        PathPart::RootDir => Some(seq![PathPart::RootDir]),
        PathPart::CurDir => Some(done),
        PathPart::ParentDir => if done.len() > 0 && done.last() is Normal {
            Some(done.drop_last())
        } else {
            None
        },
        PathPart::Normal(_) => Some(done.push(next)),
    }
}

/// The components with every parent component carried out, where none leads out of the path.
pub open spec fn spec_normalize(components: Seq<PathPart>) -> Option<Seq<PathPart>>
    decreases components.len(),
{
    if components.len() == 0 {
        Some(seq![])
    } else {
        match spec_normalize(components.drop_last()) {
            None => None,
            Some(done) => normalize_step(done, components.last()),
        }
    }
}

/// `name` below the directory `base`; an absolute `name` stands for itself.
pub open spec fn spec_join_path(base: Seq<char>, name: Seq<char>) -> Seq<char> {
    if spec_absolute(name) || base.len() == 0 {
        name
    } else if base.last() == '/' {
        base + name
    } else {
        base + seq!['/'] + name
    }
}

/// What follows the last dot of the last component, where that is a name in which something
/// stands before that dot.
pub open spec fn spec_extension(path: Seq<char>) -> Option<Seq<char>> {
    let components = spec_components(path);
    if components.len() == 0 {
        None
    } else {
        match components.last() {
            PathPart::Normal(name) => {
                let dot = last_dot(name);
                if dot > 0 {
                    Some(name.skip(dot + 1))
                } else {
                    None
                }
            },
            _ => None,
        }
    }
}

/// The position of the last dot, or -1 where there is none.
pub open spec fn last_dot(name: Seq<char>) -> int
    decreases name.len(),
{
    if name.len() == 0 {
        -1
    } else if name.last() == '.' {
        name.len() - 1
    } else {
        last_dot(name.drop_last())
    }
}

// ---------------------------------------------------------------------------
// Lemmas
// ---------------------------------------------------------------------------

proof fn lemma_pieces_push(pieces: Seq<Seq<char>>, piece: Seq<char>, absolute: bool)
    ensures
        pieces_parts(pieces.push(piece), absolute) == pieces_parts(pieces, absolute) + piece_parts(
            piece,
            pieces.len() == 0 && !absolute,
        ),
{
    assert(pieces.push(piece).drop_last() =~= pieces);
}

/// Splitting cuts at the first separator and goes on behind it.
pub proof fn lemma_split_unfold(s: Seq<char>, c: char)
    ensures
        s.contains(c) ==> text::spec_split(s, c) == seq![s.take(text::spec_find(s, c))]
            + text::spec_split(s.skip(text::spec_find(s, c) + 1), c),
        !s.contains(c) ==> text::spec_split(s, c) == seq![s],
        text::spec_split(s, c).len() > 0,
{
    text::lemma_find(s, c);
    if s.contains(c) {
        assert(text::spec_split_once(s, c) is Some);
    }
}

/// Splitting what is joined by a separator gives the pieces of both sides.
pub proof fn lemma_split_joined(a: Seq<char>, b: Seq<char>, c: char)
    ensures
        text::spec_split(a + seq![c] + b, c) == text::spec_split(a, c) + text::spec_split(b, c),
    decreases a.len(),
{
    let s = a + seq![c] + b;
    text::lemma_find(a, c);
    let at = text::spec_find(a, c);
    lemma_split_unfold(s, c);
    lemma_split_unfold(a, c);
    assert(s.len() == a.len() + 1 + b.len());
    assert(s[at] == c);
    assert forall|j: int| 0 <= j < at implies s[j] != c by {
        assert(s[j] == a[j]);
    }
    text::lemma_find_at(s, c, at);
    assert(s.take(at) =~= a.take(at));
    if a.contains(c) {
        let rest = a.skip(at + 1);
        assert(s.skip(at + 1) =~= rest + seq![c] + b);
        lemma_split_joined(rest, b, c);
        assert(text::spec_split(s, c) =~= text::spec_split(a, c) + text::spec_split(b, c));
    } else {
        assert(a.take(at) =~= a);
        assert(s.skip(at + 1) =~= b);
    }
}

proof fn lemma_split_leaf(name: Seq<char>)
    requires
        !name.contains('/'),
    ensures
        text::spec_split(name, '/') == seq![name],
{
    lemma_split_unfold(name, '/');
}

/// A plain file name: not empty, not a dot component, without a slash.
pub open spec fn plain_name(name: Seq<char>) -> bool {
    &&& name.len() > 0
    &&& name != seq!['.']
    &&& name != seq!['.', '.']
    &&& !name.contains('/')
}

/// Joining a plain name to a directory adds exactly that name.
pub proof fn lemma_join_components(base: Seq<char>, name: Seq<char>)
    requires
        plain_name(name),
    ensures
        spec_components(spec_join_path(base, name)) == spec_components(base).push(
            PathPart::Normal(name),
        ),
{
    let joined = spec_join_path(base, name);
    assert(!spec_absolute(name)) by {
        if name[0] == '/' {
            assert(name.contains('/'));
        }
    }
    let absolute = spec_absolute(base);
    lemma_split_leaf(name);
    lemma_split_unfold(base, '/');
    if base.len() == 0 {
        let nothing = Seq::<Seq<char>>::empty();
        assert(!base.contains('/'));
        assert(base =~= Seq::<char>::empty());
        assert(text::spec_split(base, '/') =~= nothing.push(base));
        assert(text::spec_split(name, '/') =~= nothing.push(name));
        lemma_pieces_push(nothing, base, false);
        lemma_pieces_push(nothing, name, false);
        assert(spec_components(joined) =~= spec_components(base).push(PathPart::Normal(name)));
    } else if base.last() == '/' {
        assert(joined[0] == base[0]);
        let dir = base.drop_last();
        assert(base =~= dir + seq!['/'] + Seq::<char>::empty());
        assert(joined =~= dir + seq!['/'] + name);
        lemma_split_joined(dir, Seq::empty(), '/');
        lemma_split_joined(dir, name, '/');
        lemma_split_leaf(Seq::empty());
        let pieces = text::spec_split(dir, '/');
        lemma_split_unfold(dir, '/');
        assert(text::spec_split(base, '/') =~= pieces.push(Seq::empty()));
        assert(text::spec_split(joined, '/') =~= pieces.push(name));
        lemma_pieces_push(pieces, Seq::empty(), absolute);
        lemma_pieces_push(pieces, name, absolute);
        assert(spec_components(joined) =~= spec_components(base).push(PathPart::Normal(name)));
    } else {
        assert(joined[0] == base[0]);
        lemma_split_joined(base, name, '/');
        let pieces = text::spec_split(base, '/');
        assert(text::spec_split(joined, '/') =~= pieces.push(name));
        lemma_pieces_push(pieces, name, absolute);
        assert(spec_components(joined) =~= spec_components(base).push(PathPart::Normal(name)));
    }
}

/// Normalized components name no current and no parent directory, and the root only in front.
pub open spec fn is_normal(components: Seq<PathPart>) -> bool {
    forall|i: int|
        0 <= i < components.len() ==> {
            ||| (#[trigger] components[i]) is Normal
            ||| i == 0 && components[i] is RootDir
        }
}

/// Normalizing leaves no current and no parent directory.
pub proof fn law_normalized_has_no_detours(components: Seq<PathPart>)
    requires
        forall|i: int| 0 < i < components.len() ==> !((#[trigger] components[i]) is RootDir),
    ensures
        spec_normalize(components) matches Some(done) ==> is_normal(done),
    decreases components.len(),
{
    if components.len() > 0 {
        law_normalized_has_no_detours(components.drop_last());
    }
}

/// Normalizing what is normalized changes nothing.
pub proof fn law_normalizing_twice(components: Seq<PathPart>)
    requires
        is_normal(components),
    ensures
        spec_normalize(components) == Some(components),
    decreases components.len(),
{
    if components.len() > 0 {
        let front = components.drop_last();
        assert forall|i: int| 0 <= i < front.len() implies {
            ||| (#[trigger] front[i]) is Normal
            ||| i == 0 && front[i] is RootDir
        } by {
            assert(components[i] == front[i]);
        }
        law_normalizing_twice(front);
        let last = components.len() - 1;
        assert(components[last] == components.last());
        if components.last() is RootDir {
            assert(components =~= seq![PathPart::RootDir]);
        } else {
            assert(front.push(components.last()) =~= components);
        }
    }
}

/// A path has the root as a component only in front.
pub proof fn lemma_root_in_front(path: Seq<char>)
    ensures
        forall|i: int|
            0 < i < spec_components(path).len() ==> !((#[trigger] spec_components(
                path,
            )[i]) is RootDir),
        spec_components(path).len() > 0 && spec_components(path)[0] is RootDir <==> spec_absolute(
            path,
        ),
{
    lemma_pieces_no_root(text::spec_split(path, '/'), spec_absolute(path));
}

proof fn lemma_pieces_no_root(pieces: Seq<Seq<char>>, absolute: bool)
    ensures
        forall|i: int|
            0 <= i < pieces_parts(pieces, absolute).len() ==> !((#[trigger] pieces_parts(
                pieces,
                absolute,
            )[i]) is RootDir),
    decreases pieces.len(),
{
    if pieces.len() > 0 {
        lemma_pieces_no_root(pieces.drop_last(), absolute);
    }
}

// ---------------------------------------------------------------------------
// The operations
// ---------------------------------------------------------------------------

/// Whether a path starts at the root.
pub fn is_absolute(path: &str) -> (yes: bool)
    ensures
        yes == spec_absolute(path@),
{
    let chars = chars_of(path);
    chars.len() > 0 && chars[0] == '/'
}

/// Adds the components that one piece between slashes gives.
fn add_piece(components: &mut Vec<PathComponent>, piece: &str, leads: bool)
    ensures
        parts(final(components)@) == parts(old(components)@) + piece_parts(piece@, leads),
{
    proof {
        reveal_strlit("");
        reveal_strlit(".");
        reveal_strlit("..");
        assert(""@ =~= Seq::<char>::empty());
        assert("."@ =~= seq!['.']);
        assert(".."@ =~= seq!['.', '.']);
    }
    let ghost before = components@;
    if text_eq(piece, "") {
    } else if text_eq(piece, ".") {
        if leads {
            components.push(PathComponent::CurDir);
        }
    } else if text_eq(piece, "..") {
        components.push(PathComponent::ParentDir);
    } else {
        components.push(PathComponent::Normal(piece.to_owned()));
    }
    assert(parts(components@) =~= parts(before) + piece_parts(piece@, leads));
}

/// The components of a path.
pub fn components(path: &str) -> (r: Vec<PathComponent>)
    ensures
        parts(r@) == spec_components(path@),
{
    let absolute = is_absolute(path);
    let mut r: Vec<PathComponent> = Vec::new();
    if absolute {
        r.push(PathComponent::RootDir);
    }
    let ghost front = parts(r@);
    let ghost mut done: Seq<Seq<char>> = seq![];
    let mut rest = path;
    assert(done + text::spec_split(rest@, '/') =~= text::spec_split(path@, '/'));
    assert(parts(r@) =~= front + pieces_parts(done, absolute));
    assert(front =~= if absolute { seq![PathPart::RootDir] } else { Seq::<PathPart>::empty() });
    let mut leads = !absolute;
    loop
        invariant
            absolute == spec_absolute(path@),
            done + text::spec_split(rest@, '/') == text::spec_split(path@, '/'),
            parts(r@) == front + pieces_parts(done, absolute),
            front == if absolute { seq![PathPart::RootDir] } else { Seq::<PathPart>::empty() },
            leads == (done.len() == 0 && !absolute),
        decreases rest@.len(),
    {
        proof {
            lemma_split_unfold(rest@, '/');
            text::lemma_find(rest@, '/');
        }
        match split_once(rest, '/') {
            Some((piece, tail)) => {
                add_piece(&mut r, piece, leads);
                proof {
                    lemma_pieces_push(done, piece@, absolute);
                    assert(done + text::spec_split(rest@, '/') =~= done.push(piece@)
                        + text::spec_split(tail@, '/'));
                    assert(front + pieces_parts(done, absolute) + piece_parts(piece@, leads)
                        =~= front + pieces_parts(done.push(piece@), absolute));
                    done = done.push(piece@);
                }
                leads = false;
                rest = tail;
            },
            None => {
                add_piece(&mut r, rest, leads);
                proof {
                    lemma_pieces_push(done, rest@, absolute);
                    assert(text::spec_split(path@, '/') =~= done.push(rest@));
                    assert(front + pieces_parts(done, absolute) + piece_parts(rest@, leads)
                        =~= front + pieces_parts(done.push(rest@), absolute));
                }
                return r;
            },
        }
    }
}

/// Whether two components are the same.
pub fn same_component(a: &PathComponent, b: &PathComponent) -> (same: bool)
    ensures
        same == (a@ == b@),
{
    match (a, b) {
        (PathComponent::RootDir, PathComponent::RootDir) => true,
        (PathComponent::CurDir, PathComponent::CurDir) => true,
        (PathComponent::ParentDir, PathComponent::ParentDir) => true,
        (PathComponent::Normal(x), PathComponent::Normal(y)) => text_eq(x.as_str(), y.as_str()),
        _ => false,
    }
}

/// Whether the first components are those of `root`.
pub fn components_start_with(path: &Vec<PathComponent>, root: &Vec<PathComponent>) -> (yes: bool)
    ensures
        yes == within(parts(path@), parts(root@)),
{
    if root.len() > path.len() {
        return false;
    }
    let mut i: usize = 0;
    while i < root.len()
        invariant
            i <= root@.len() <= path@.len(),
            forall|j: int| 0 <= j < i ==> path@[j]@ == root@[j]@,
        decreases root@.len() - i,
    {
        if !same_component(&path[i], &root[i]) {
            assert(parts(path@).take(root@.len() as int)[i as int] != parts(root@)[i as int]);
            return false;
        }
        i += 1;
    }
    assert(parts(path@).take(root@.len() as int) =~= parts(root@));
    true
}

/// Whether a path lies at or below a directory, component by component.
pub fn starts_with(path: &str, root: &str) -> (yes: bool)
    ensures
        yes == within(spec_components(path@), spec_components(root@)),
{
    let p = components(path);
    let r = components(root);
    components_start_with(&p, &r)
}

/// Whether two paths have the same components.
pub fn same_path(a: &str, b: &str) -> (same: bool)
    ensures
        same == (spec_components(a@) == spec_components(b@)),
{
    let x = components(a);
    let y = components(b);
    let same = x.len() == y.len() && components_start_with(&x, &y);
    proof {
        if x@.len() == y@.len() {
            assert(parts(x@).take(y@.len() as int) =~= parts(x@));
        }
        assert(parts(x@).len() == x@.len());
        assert(parts(y@).len() == y@.len());
    }
    same
}

/// The components of a path with every parent component carried out, without looking at any file.
/// A path in which one would lead out at the front is refused.
pub fn normalize_without_symlinks(path: &str) -> (r: Result<
    Vec<PathComponent>,
    HarnessServerError,
>)
    ensures
        match r {
            Ok(done) => spec_normalize(spec_components(path@)) == Some(parts(done@)),
            Err(e) => spec_normalize(spec_components(path@)) is None && e@
                == error::protocol_fault("OMP session path escapes its root"@),
        },
{
    let all = components(path);
    let ghost whole = spec_components(path@);
    let mut done: Vec<PathComponent> = Vec::new();
    let mut i: usize = 0;
    assert(whole.take(0) =~= Seq::<PathPart>::empty());
    assert(parts(done@) =~= Seq::<PathPart>::empty());
    while i < all.len()
        invariant
            i <= all@.len(),
            whole == spec_components(path@),
            parts(all@) == whole,
            spec_normalize(whole.take(i as int)) == Some(parts(done@)),
        decreases all@.len() - i,
    {
        let ghost before = done@;
        proof {
            assert(whole.take(i + 1).drop_last() =~= whole.take(i as int));
            assert(whole.take(i + 1).last() == all@[i as int]@);
        }
        match &all[i] {
            PathComponent::RootDir => {
                done = Vec::new();
                done.push(PathComponent::RootDir);
                assert(parts(done@) =~= seq![PathPart::RootDir]);
            },
            PathComponent::CurDir => {},
            PathComponent::ParentDir => {
                let can_pop = done.len() > 0 && match &done[done.len() - 1] {
                    PathComponent::Normal(_) => true,
                    _ => false,
                };
                assert(parts(before).len() == before.len());
                assert(before.len() > 0 ==> parts(before).last() == before.last()@);
                if !can_pop {
                    proof {
                        lemma_normalize_fails(whole, i + 1);
                    }
                    return Err(protocol_error("OMP session path escapes its root"));
                }
                done.pop();
                assert(parts(done@) =~= parts(before).drop_last());
            },
            PathComponent::Normal(name) => {
                done.push(PathComponent::Normal(name.clone()));
                assert(parts(done@) =~= parts(before).push(PathPart::Normal(name@)));
            },
        }
        i += 1;
    }
    assert(whole.take(i as int) =~= whole);
    Ok(done)
}

/// Where a beginning of the components cannot be normalized, neither can the whole.
proof fn lemma_normalize_fails(components: Seq<PathPart>, n: int)
    requires
        0 <= n <= components.len(),
        spec_normalize(components.take(n)) is None,
    ensures
        spec_normalize(components) is None,
    decreases components.len(),
{
    if n < components.len() {
        assert(components.drop_last().take(n) =~= components.take(n));
        lemma_normalize_fails(components.drop_last(), n);
    } else {
        assert(components.take(n) =~= components);
    }
}

/// A name below a directory.
pub fn join_path(base: &str, name: &str) -> (r: String)
    ensures
        r@ == spec_join_path(base@, name@),
{
    let dir = chars_of(base);
    if is_absolute(name) || dir.len() == 0 {
        name.to_owned()
    } else if dir[dir.len() - 1] == '/' {
        concat(base, name)
    } else {
        proof {
            reveal_strlit("/");
            assert("/"@ =~= seq!['/']);
        }
        concat3(base, "/", name)
    }
}

/// What follows the last dot of the file name of a path.
pub fn extension(path: &str) -> (r: Option<String>)
    ensures
        match r {
            Some(e) => spec_extension(path@) == Some(e@),
            None => spec_extension(path@) is None,
        },
{
    let all = components(path);
    assert(parts(all@).len() == all@.len());
    if all.len() == 0 {
        return None;
    }
    assert(parts(all@).last() == all@.last()@);
    match &all[all.len() - 1] {
        PathComponent::Normal(name) => {
            let chars = chars_of(name.as_str());
            let n = chars.len();
            let mut i: usize = n;
            assert(name@.take(n as int) =~= name@);
            while i > 0
                invariant
                    i <= n,
                    n == chars@.len(),
                    chars@ == name@,
                    last_dot(name@) == last_dot(name@.take(i as int)),
                    spec_components(path@).len() > 0,
                    spec_components(path@).last() == PathPart::Normal(name@),
                decreases i,
            {
                i -= 1;
                assert(name@.take(i + 1).last() == name@[i as int]);
                assert(name@.take(i + 1).drop_last() =~= name@.take(i as int));
                if chars[i] == '.' {
                    if i == 0 {
                        return None;
                    }
                    assert(name@.skip(i + 1) =~= name@.subrange(i + 1, n as int));
                    return Some(name.as_str().substring_char(i + 1, n).to_owned());
                }
            }
            None
        },
        _ => None,
    }
}

} // verus!
