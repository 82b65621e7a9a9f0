use vstd::prelude::*;

use crate::text::{append_chars, chars_of, lemma_split_nonempty, split_on, split_pieces, string_of, texts};

verus! {

/// The root component, written as it appears in a path.
pub open spec fn root_component() -> Seq<char> {
    seq!['/']
}

/// The current-directory component.
pub open spec fn current_component() -> Seq<char> {
    seq!['.']
}

/// A piece that names something: neither empty (a repeated or trailing
/// separator) nor `.`, which paths normalize away.
pub open spec fn is_named(piece: Seq<char>) -> bool {
    piece.len() > 0 && piece != current_component()
}

/// The named pieces, in order.
pub open spec fn named_pieces(pieces: Seq<Seq<char>>) -> Seq<Seq<char>>
    decreases pieces.len(),
{
    if pieces.len() == 0 {
        seq![]
    } else if is_named(pieces.last()) {
        named_pieces(pieces.drop_last()).push(pieces.last())
    } else {
        named_pieces(pieces.drop_last())
    }
}

/// The components of a Unix path, as `std::path::Path::components` yields
/// them: the root when the path starts with `/`; a leading `.` when the path
/// is relative and starts with it; then every named piece. Repeated
/// separators, trailing separators and inner `.` pieces vanish; `..` stays.
pub open spec fn components(s: Seq<char>) -> Seq<Seq<char>> {
    let pieces = split_on(s, '/');
    if s.len() > 0 && s[0] == '/' {
        seq![root_component()] + named_pieces(pieces)
    } else if pieces[0] == current_component() {
        seq![current_component()] + named_pieces(pieces)
    } else {
        named_pieces(pieces)
    }
}

/// Whether `path` lies beneath `base`, comparing whole components:
/// `base`'s components are the first components of `path`.
pub open spec fn path_within(path: Seq<char>, base: Seq<char>) -> bool {
    let p = components(path);
    let b = components(base);
    b.len() <= p.len() && p.take(b.len() as int) == b
}

/// Whether `path` lies beneath at least one of `roots`.
pub open spec fn within_some(path: Seq<char>, roots: Seq<Seq<char>>) -> bool {
    exists|i: int| 0 <= i < roots.len() && path_within(path, #[trigger] roots[i])
}

fn is_named_piece(piece: &Vec<char>) -> (r: bool)
    ensures
        r == is_named(piece@),
{
    if piece.len() == 0 {
        false
    } else if piece.len() == 1 && piece[0] == '.' {
        assert(piece@ =~= current_component());
        false
    } else {
        assert(piece@ != current_component()) by {
            if piece.len() == 1 {
                assert(piece@[0] != current_component()[0]);
            }
        }
        true
    }
}

/// The components of the path `s`.
pub fn path_components(s: &str) -> (r: Vec<Vec<char>>)
    ensures
        texts(r@) == components(s@),
{
    let cs = chars_of(s);
    let pieces = split_pieces(&cs, '/');
    proof {
        lemma_split_nonempty(cs@, '/');
    }
    let mut r: Vec<Vec<char>> = Vec::new();
    let leading = cs.len() > 0 && cs[0] == '/';
    let dot = !leading && pieces[0].len() == 1 && pieces[0][0] == '.';
    if leading {
        let mut root: Vec<char> = Vec::new();
        root.push('/');
        assert(root@ =~= root_component());
        r.push(root);
    } else if dot {
        let mut cur: Vec<char> = Vec::new();
        cur.push('.');
        assert(cur@ =~= current_component());
        r.push(cur);
    }
    proof {
        if dot {
            assert(pieces@[0]@ =~= current_component());
        } else if !leading {
            if pieces@[0]@.len() == 1 {
                assert(pieces@[0]@[0] != current_component()[0]);
            }
            assert(pieces@[0]@ != current_component());
        }
    }
    let ghost head = texts(r@);
    let mut j: usize = 0;
    assert(texts(pieces@).take(0) =~= Seq::<Seq<char>>::empty());
    assert(texts(r@) =~= head + named_pieces(texts(pieces@).take(0)));
    while j < pieces.len()
        invariant
            j <= pieces.len(),
            texts(r@) == head + named_pieces(texts(pieces@).take(j as int)),
        decreases pieces.len() - j,
    {
        let ghost taken = texts(pieces@).take(j + 1);
        assert(taken.drop_last() =~= texts(pieces@).take(j as int));
        assert(taken.last() == pieces[j as int]@);
        if is_named_piece(&pieces[j]) {
            let ghost prev = texts(r@);
            r.push(pieces[j].clone());
            assert(texts(r@) =~= prev.push(pieces[j as int]@));
            assert(texts(r@) =~= head + named_pieces(taken));
        } else {
            assert(texts(r@) =~= head + named_pieces(taken));
        }
        j = j + 1;
    }
    assert(texts(pieces@).take(j as int) =~= texts(pieces@));
    proof {
        if leading {
            assert(head =~= seq![root_component()]);
        } else if pieces@[0]@ == current_component() {
            assert(head =~= seq![current_component()]);
        } else {
            assert(head =~= Seq::<Seq<char>>::empty());
            assert(texts(r@) =~= named_pieces(texts(pieces@)));
        }
    }
    r
}

fn char_vecs_equal(a: &Vec<char>, b: &Vec<char>) -> (r: bool)
    ensures
        r == (a@ == b@),
{
    if a.len() != b.len() {
        return false;
    }
    let mut k: usize = 0;
    while k < a.len()
        invariant
            k <= a.len(),
            a.len() == b.len(),
            forall|m: int| 0 <= m < k ==> a@[m] == b@[m],
        decreases a.len() - k,
    {
        if a[k] != b[k] {
            return false;
        }
        k = k + 1;
    }
    assert(a@ =~= b@);
    true
}

/// Whether `path` lies beneath `base`, component by component: `/work-secrets`
/// is not beneath `/work`, though the string starts with it.
pub fn is_within(path: &str, base: &str) -> (r: bool)
    ensures
        r == path_within(path@, base@),
{
    let p = path_components(path);
    let b = path_components(base);
    if b.len() > p.len() {
        return false;
    }
    let mut k: usize = 0;
    while k < b.len()
        invariant
            k <= b.len() <= p.len(),
            texts(p@) == components(path@),
            texts(b@) == components(base@),
            forall|m: int| 0 <= m < k ==> texts(p@)[m] == texts(b@)[m],
        decreases b.len() - k,
    {
        if !char_vecs_equal(&p[k], &b[k]) {
            assert(texts(p@).take(b.len() as int)[k as int] != texts(b@)[k as int]);
            return false;
        }
        k = k + 1;
    }
    assert(texts(p@).take(b.len() as int) =~= texts(b@));
    true
}

/// Whether `path` lies beneath at least one of `roots`.
pub fn is_within_any(path: &str, roots: &[String]) -> (r: bool)
    ensures
        r == within_some(path@, roots.deep_view()),
{
    let mut k: usize = 0;
    while k < roots.len()
        invariant
            k <= roots.len(),
            forall|m: int| 0 <= m < k ==> !path_within(path@, #[trigger] roots.deep_view()[m]),
        decreases roots.len() - k,
    {
        if is_within(path, roots[k].as_str()) {
            assert(roots.deep_view()[k as int] == roots[k as int]@);
            return true;
        }
        k = k + 1;
    }
    false
}

/// A path lies beneath a base exactly when the base's components are the
/// first components of the path, one for one: each of the base's components
/// equals the path's component at the same position.
pub proof fn within_is_component_prefix(path: Seq<char>, base: Seq<char>)
    ensures
        path_within(path, base) <==> (components(base).len() <= components(path).len() && forall|
            i: int,
        |
            0 <= i < components(base).len() ==> #[trigger] components(path)[i] == components(
                base,
            )[i]),
        path_within(path, base) <==> exists|rest: Seq<Seq<char>>|
            #[trigger] (components(base) + rest) == components(path),
{
    let p = components(path);
    let b = components(base);
    if b.len() <= p.len() && forall|i: int| 0 <= i < b.len() ==> #[trigger] p[i] == b[i] {
        assert(p.take(b.len() as int) =~= b);
        assert(b + p.skip(b.len() as int) =~= p);
    }
    if path_within(path, base) {
        assert forall|i: int| 0 <= i < b.len() implies #[trigger] p[i] == b[i] by {
            assert(p.take(b.len() as int)[i] == p[i]);
        }
        assert(b + p.skip(b.len() as int) =~= p);
    }
    if exists|rest: Seq<Seq<char>>| #[trigger] (b + rest) == p {
        let rest = choose|rest: Seq<Seq<char>>| #[trigger] (b + rest) == p;
        assert(p.take(b.len() as int) =~= b);
    }
}

/// The components of a path are its pieces between `/` that are neither
/// empty nor `.`, every other piece kept, hidden names such as `.cargo`
/// among them, preceded by the root when the path starts with `/` and by
/// `.` when a relative path starts with the piece `.`.
pub proof fn components_keep_every_named_piece(s: Seq<char>)
    ensures
        components(s) == (if s.len() > 0 && s[0] == '/' {
            seq![seq!['/']]
        } else if split_on(s, '/')[0] == seq!['.'] {
            seq![seq!['.']]
        } else {
            Seq::<Seq<char>>::empty()
        }) + split_on(s, '/').filter(|x: Seq<char>| x.len() > 0 && x != seq!['.']),
{
    lemma_named_pieces_filter(split_on(s, '/'));
    assert(root_component() =~= seq!['/']);
    assert(current_component() =~= seq!['.']);
}

/// A path beneath an absolute root repeats, in order after the root, every
/// piece of the root that is neither empty nor `.`, hidden names included:
/// a root `/home/u/.cargo` grants nothing outside `.cargo`.
pub proof fn within_repeats_every_piece_of_the_root(path: Seq<char>, base: Seq<char>)
    requires
        base.len() > 0,
        base[0] == '/',
        path_within(path, base),
    ensures
        ({
            let named = split_on(base, '/').filter(|x: Seq<char>| x.len() > 0 && x != seq!['.']);
            &&& components(path)[0] == seq!['/']
            &&& named.len() < components(path).len()
            &&& forall|i: int| 0 <= i < named.len() ==> #[trigger] components(path)[i + 1] == named[i]
        }),
{
    components_keep_every_named_piece(base);
    within_is_component_prefix(path, base);
    let named = split_on(base, '/').filter(|x: Seq<char>| x.len() > 0 && x != seq!['.']);
    let b = components(base);
    assert(b[0] == seq!['/']);
    assert(components(path)[0] == b[0]);
    assert forall|i: int| 0 <= i < named.len() implies #[trigger] components(path)[i + 1] == named[i] by {
        assert(b[i + 1] == named[i]);
        assert(components(path)[i + 1] == b[i + 1]);
    }
}

proof fn lemma_named_pieces_filter(pieces: Seq<Seq<char>>)
    ensures
        named_pieces(pieces) == pieces.filter(|x: Seq<char>| x.len() > 0 && x != seq!['.']),
    decreases pieces.len(),
{
    reveal(Seq::filter);
    let pred = |x: Seq<char>| x.len() > 0 && x != seq!['.'];
    assert(current_component() =~= seq!['.']);
    if pieces.len() > 0 {
        lemma_named_pieces_filter(pieces.drop_last());
        assert(is_named(pieces.last()) == pred(pieces.last()));
    } else {
        assert(pieces.filter(pred) =~= Seq::<Seq<char>>::empty());
    }
}

/// Adding roots never revokes access: a path beneath one of `roots` is
/// still beneath one of any set of roots that includes them.
pub proof fn more_roots_never_revoke(path: Seq<char>, roots: Seq<Seq<char>>, more: Seq<Seq<char>>)
    requires
        forall|i: int| 0 <= i < roots.len() ==> more.contains(#[trigger] roots[i]),
        within_some(path, roots),
    ensures
        within_some(path, more),
{
    let i = choose|i: int| 0 <= i < roots.len() && path_within(path, #[trigger] roots[i]);
    assert(more.contains(roots[i]));
    let j = choose|j: int| 0 <= j < more.len() && more[j] == roots[i];
    assert(path_within(path, more[j]));
}

/// No root grants nothing: no path lies beneath a root of an empty list.
pub proof fn no_roots_grant_nothing(path: Seq<char>)
    ensures
        !within_some(path, Seq::<Seq<char>>::empty()),
{
}

/// The parent of a path, as `std::path::Path::parent` computes it.
pub uninterp spec fn path_parent(path: Seq<char>) -> Option<Seq<char>>;

/// The parent-directory component.
pub open spec fn parent_component() -> Seq<char> {
    seq!['.', '.']
}

/// The name a path ends in, as `std::path::Path::file_name` gives it: its
/// last component, when that names something; nothing when the path ends in
/// the root, a leading `.`, or `..`, or has no components.
pub open spec fn path_file_name(path: Seq<char>) -> Option<Seq<char>> {
    let c = components(path);
    if c.len() > 0 && c.last() != root_component() && c.last() != current_component() && c.last()
        != parent_component() {
        Some(c.last())
    } else {
        None
    }
}

/// `name` appended to `base`, as `std::path::Path::join` does it on Unix: an
/// absolute `name` replaces `base`; otherwise a separator goes between them
/// unless `base` is empty or already ends in one.
pub open spec fn path_join(base: Seq<char>, name: Seq<char>) -> Seq<char> {
    if name.len() > 0 && name[0] == '/' {
        name
    } else if base.len() == 0 || base.last() == '/' {
        base + name
    } else {
        base + seq!['/'] + name
    }
}

/// Calls `std::path::Path::parent`. Trusted: the result is the text of the
/// parent path std computes for `path`, or `None` where std gives none (the
/// path ends in a root, or is empty). The parent of a path that came from a
/// `&str` is a part of that string, so converting it back loses nothing.
#[verifier::external_body]
pub(crate) fn parent_of(path: &str) -> (r: Option<String>)
    ensures
        match r {
            Some(p) => path_parent(path@) == Some(p@),
            None => path_parent(path@) is None,
        },
{
    std::path::Path::new(path).parent().map(|p| p.to_string_lossy().into_owned())
}

/// The name `path` ends in, if it ends in one.
pub fn file_name_of(path: &str) -> (r: Option<String>)
    ensures
        match r {
            Some(n) => path_file_name(path@) == Some(n@),
            None => path_file_name(path@) is None,
        },
{
    let c = path_components(path);
    if c.len() == 0 {
        return None;
    }
    let last = &c[c.len() - 1];
    assert(texts(c@).last() == last@);
    let named = last.len() > 0 && !(last.len() == 1 && (last[0] == '/' || last[0] == '.')) && !(
    last.len() == 2 && last[0] == '.' && last[1] == '.');
    proof {
        lemma_components_named(path@);
        assert(last@.len() > 0);
        if last@.len() == 1 {
            if last@[0] == '/' {
                assert(last@ =~= root_component());
            } else {
                assert(last@[0] != root_component()[0]);
            }
            if last@[0] == '.' {
                assert(last@ =~= current_component());
            } else {
                assert(last@[0] != current_component()[0]);
            }
            assert(last@.len() != parent_component().len());
        } else if last@.len() == 2 {
            if last@[0] == '.' && last@[1] == '.' {
                assert(last@ =~= parent_component());
            } else if last@[0] != '.' {
                assert(last@[0] != parent_component()[0]);
            } else {
                assert(last@[1] != parent_component()[1]);
            }
            assert(last@.len() != root_component().len());
            assert(last@.len() != current_component().len());
        } else {
            assert(last@.len() != root_component().len());
            assert(last@.len() != current_component().len());
            assert(last@.len() != parent_component().len());
        }
    }
    if named {
        Some(string_of(last.as_slice()))
    } else {
        None
    }
}

/// `name` appended to `base`, as a path.
pub fn join_path(base: &str, name: &str) -> (r: String)
    ensures
        r@ == path_join(base@, name@),
{
    let b = chars_of(base);
    let n = chars_of(name);
    if n.len() > 0 && n[0] == '/' {
        return string_of(n.as_slice());
    }
    let mut out: Vec<char> = Vec::new();
    append_chars(&mut out, &b);
    if b.len() > 0 && b[b.len() - 1] != '/' {
        out.push('/');
    }
    append_chars(&mut out, &n);
    assert(out@ =~= path_join(base@, name@));
    string_of(out.as_slice())
}

/// No component is empty.
proof fn lemma_components_named(s: Seq<char>)
    ensures
        forall|i: int| 0 <= i < components(s).len() ==> #[trigger] components(s)[i].len() > 0,
{
    lemma_named_pieces_nonempty(split_on(s, '/'));
}

proof fn lemma_named_pieces_nonempty(pieces: Seq<Seq<char>>)
    ensures
        forall|i: int| 0 <= i < named_pieces(pieces).len() ==> #[trigger] named_pieces(pieces)[i].len() > 0,
    decreases pieces.len(),
{
    if pieces.len() > 0 {
        lemma_named_pieces_nonempty(pieces.drop_last());
        let r = named_pieces(pieces.drop_last());
        if is_named(pieces.last()) {
            assert(named_pieces(pieces) == r.push(pieces.last()));
            assert forall|i: int| 0 <= i < named_pieces(pieces).len() implies #[trigger] named_pieces(
                pieces,
            )[i].len() > 0 by {
                if i < r.len() {
                    assert(named_pieces(pieces)[i] == r[i]);
                }
            }
        } else {
            assert(named_pieces(pieces) == r);
        }
    }
}

} // verus!
