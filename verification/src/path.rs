//! Unix file paths as texts.

use vstd::prelude::*;

use crate::text;

verus! {

/// Whether a path is absolute.
pub open spec fn absolute(p: Seq<char>) -> bool {
    p.len() > 0 && p[0] == '/'
}

/// Whether a path is absolute.
pub fn is_absolute(p: &str) -> (r: bool)
    ensures
        r == absolute(p@),
{
    let p = text::chars(p);
    p.len() > 0 && p[0] == '/'
}

/// `part` taken relative to `base`: an absolute `part` stands for itself.
pub open spec fn joined(base: Seq<char>, part: Seq<char>) -> Seq<char> {
    if absolute(part) {
        part
    } else if base.len() == 0 || base.last() == '/' {
        base + part
    } else {
        base + "/"@ + part
    }
}

/// `part` taken relative to `base`.
pub fn join(base: &str, part: &str) -> (r: String)
    ensures
        r@ == joined(base@, part@),
{
    let tail = text::chars(part);
    if tail.len() > 0 && tail[0] == '/' {
        return text::string(&tail);
    }
    let mut out = text::chars(base);
    if out.len() > 0 && out[out.len() - 1] != '/' {
        text::append(&mut out, "/");
    }
    text::append_chars(&mut out, &tail);
    text::string(&out)
}

/// The test for a piece of a path that names something: empty pieces and `.`
/// do not.
pub open spec fn names() -> spec_fn(Seq<char>) -> bool {
    |w: Seq<char>| w.len() > 0 && w != "."@
}

/// The components of a path below its root.
pub open spec fn components(p: Seq<char>) -> Seq<Seq<char>> {
    text::split_on(p, '/').filter(names())
}

/// The last component of a path; none where the path is empty, is the root, or
/// ends in `..`.
pub open spec fn name_of(p: Seq<char>) -> Option<Seq<char>> {
    let c = components(p);
    if c.len() == 0 || c.last() == ".."@ {
        None
    } else {
        Some(c.last())
    }
}

/// The last component of a path.
pub fn file_name(p: &str) -> (r: Option<Vec<char>>)
    ensures
        match r {
            Some(n) => name_of(p@) == Some(n@),
            None => name_of(p@) is None,
        },
{
    let p = text::chars(p);
    file_name_chars(&p)
}

/// The last component of a path.
pub fn file_name_chars(p: &Vec<char>) -> (r: Option<Vec<char>>)
    ensures
        match r {
            Some(n) => name_of(p@) == Some(n@),
            None => name_of(p@) is None,
        },
{
    let pieces = text::split(p, '/');
    let ghost all = text::split_on(p@, '/');
    let mut i: usize = pieces.len();
    assert(all.take(i as int) =~= all);
    while i > 0
        invariant
            i <= pieces.len(),
            all == text::chars_views(pieces@),
            components(p@) == all.take(i as int).filter(names()),
        decreases i,
    {
        let piece = &pieces[i - 1];
        let ghost before = all.take(i - 1);
        proof {
            reveal(Seq::filter);
            assert(all.take(i as int).drop_last() =~= before);
            assert(all.take(i as int).last() == piece@);
        }
        if piece.len() > 0 && !text::same(piece, ".") {
            assert(components(p@).last() == piece@);
            if text::same(piece, "..") {
                return None;
            }
            return Some(text::copied(piece));
        }
        assert(!names()(piece@));
        i = i - 1;
    }
    proof {
        reveal(Seq::filter);
    }
    None
}

/// The position of the last `.` in a file name, where it is not its first
/// character.
pub open spec fn dot_of(name: Seq<char>) -> Option<int>
    decreases name.len(),
{
    if name.len() <= 1 {
        None
    } else if name.last() == '.' {
        Some(name.len() - 1)
    } else {
        dot_of(name.drop_last())
    }
}

/// The position of the last `.` in a file name, where it is not its first
/// character.
pub fn last_dot(name: &Vec<char>) -> (r: Option<usize>)
    ensures
        match r {
            Some(i) => dot_of(name@) == Some(i as int) && 0 < i < name.len(),
            None => dot_of(name@) is None,
        },
{
    let mut n: usize = name.len();
    assert(name@.take(n as int) =~= name@);
    while n > 1
        invariant
            n <= name.len(),
            dot_of(name@.take(n as int)) == dot_of(name@),
        decreases n,
    {
        if name[n - 1] == '.' {
            return Some(n - 1);
        }
        assert(name@.take(n as int).drop_last() =~= name@.take(n - 1));
        n = n - 1;
    }
    None
}

/// What stands behind the last `.` of a path's file name.
pub open spec fn extension_of(p: Seq<char>) -> Option<Seq<char>> {
    match name_of(p) {
        Some(name) => match dot_of(name) {
            Some(i) => Some(name.skip(i + 1)),
            None => None,
        },
        None => None,
    }
}

/// What stands behind the last `.` of a path's file name.
pub fn extension(p: &str) -> (r: Option<Vec<char>>)
    ensures
        match r {
            Some(e) => extension_of(p@) == Some(e@),
            None => extension_of(p@) is None,
        },
{
    match file_name(p) {
        Some(name) => match last_dot(&name) {
            Some(i) => {
                let e = text::part(&name, i + 1, name.len());
                assert(e@ =~= name@.skip(i + 1));
                Some(e)
            },
            None => None,
        },
        None => None,
    }
}

/// A path's file name without its extension.
pub open spec fn stem_of(p: Seq<char>) -> Option<Seq<char>> {
    match name_of(p) {
        Some(name) => match dot_of(name) {
            Some(i) => Some(name.take(i)),
            None => Some(name),
        },
        None => None,
    }
}

/// A path's file name without its extension.
pub fn stem(p: &str) -> (r: Option<Vec<char>>)
    ensures
        match r {
            Some(e) => stem_of(p@) == Some(e@),
            None => stem_of(p@) is None,
        },
{
    match file_name(p) {
        Some(name) => match last_dot(&name) {
            Some(i) => {
                let e = text::part(&name, 0, i);
                assert(e@ =~= name@.take(i as int));
                Some(e)
            },
            None => Some(name),
        },
        None => None,
    }
}

// --- Laws ------------------------------------------------------------------

/// A path is absolute where a slash comes first. Joining puts one slash between a
/// directory and a name, and none where there is one already or no directory; an
/// absolute path stands for itself.
pub proof fn joining(dir: Seq<char>, name: Seq<char>)
    ensures
        absolute(seq!['/'] + name),
        !absolute(Seq::empty()),
        name.len() > 0 && name[0] != '/' ==> !absolute(name),
        joined(dir, seq!['/'] + name) == seq!['/'] + name,
        !(name.len() > 0 && name[0] == '/') ==> {
            &&& joined(dir.push('/'), name) == dir.push('/') + name
            &&& joined(Seq::empty(), name) == name
            &&& dir.len() > 0 && dir.last() != '/' ==> joined(dir, name) == dir.push('/') + name
        },
{
    reveal_strlit("/");
    assert(dir + "/"@ =~= dir.push('/'));
    assert(Seq::<char>::empty() + name =~= name);
}

/// A path ends in the name behind its last slash, slashes at its end and `.`
/// components aside; the root, the empty path and one that ends in `..` have no
/// name.
pub proof fn names_end_paths(dir: Seq<char>, name: Seq<char>)
    requires
        name.len() > 0,
        !name.contains('/'),
        name != "."@,
    ensures
        name != ".."@ ==> {
            &&& name_of(name) == Some(name)
            &&& name_of(dir.push('/') + name) == Some(name)
        },
        name_of(dir.push('/')) == name_of(dir),
        name_of(dir.push('/') + "."@) == name_of(dir),
        name_of(dir.push('/') + ".."@) is None,
        name_of(Seq::empty()) is None,
        name_of(seq!['/']) is None,
{
    reveal(Seq::filter);
    reveal_strlit(".");
    reveal_strlit("..");
    let none = Seq::<char>::empty();
    let d = text::split_on(dir, '/');
    assert(!none.contains('/'));
    assert(!"."@.contains('/'));
    assert(!".."@.contains('/'));
    last_component(dir, name);
    last_component(dir, none);
    last_component(dir, "."@);
    last_component(dir, ".."@);
    last_component(none, none);
    assert(dir.push('/') + none =~= dir.push('/'));
    assert(none.push('/') + none =~= seq!['/']);
    assert(names()(name) && !names()(none) && !names()("."@));
    assert("."@.len() == 1 && ".."@.len() == 2);
    assert(names()(".."@));
    assert(components(none) =~= Seq::<Seq<char>>::empty());
}

proof fn last_component(dir: Seq<char>, name: Seq<char>)
    requires
        !name.contains('/'),
    ensures
        components(name) == (if names()(name) {
            seq![name]
        } else {
            Seq::<Seq<char>>::empty()
        }),
        components(dir.push('/') + name) == (if names()(name) {
            components(dir).push(name)
        } else {
            components(dir)
        }),
{
    reveal(Seq::filter);
    text::pieces_of_a_joined_text(dir, '/', name);
    let d = text::split_on(dir, '/');
    let one = seq![name];
    assert(one.drop_last() =~= Seq::<Seq<char>>::empty());
    assert(one.drop_last().filter(names()) =~= Seq::<Seq<char>>::empty());
    assert(one.filter(names()) =~= (if names()(name) {
        one
    } else {
        Seq::<Seq<char>>::empty()
    }));
    Seq::<Seq<char>>::filter_distributes_over_add(d, one, names());
    assert(components(dir.push('/') + name) =~= d.filter(names()) + one.filter(names()));
}

proof fn dot_is_last(stem: Seq<char>, ext: Seq<char>)
    requires
        !ext.contains('.'),
    ensures
        stem.len() > 0 ==> dot_of(stem.push('.') + ext) == Some(stem.len() as int),
        dot_of(ext) is None,
        dot_of(seq!['.'] + ext) is None,
    decreases ext.len(),
{
    let s = stem.push('.') + ext;
    if ext.len() == 0 {
        assert(s =~= stem.push('.'));
    } else {
        let e = ext.drop_last();
        assert(ext.contains(ext.last()));
        assert forall|x: char| e.contains(x) implies ext.contains(x) by {
            let k = choose|k: int| 0 <= k < e.len() && e[k] == x;
            assert(ext[k] == x);
        }
        dot_is_last(stem, e);
        assert(s.drop_last() =~= stem.push('.') + e);
        assert((seq!['.'] + ext).drop_last() =~= seq!['.'] + e);
    }
}

/// A file name is its stem, a dot and its extension, which holds no dot; a name
/// without a dot, or with one only in front, is all stem.
pub proof fn names_are_stems_and_extensions(
    p: Seq<char>,
    q: Seq<char>,
    stem: Seq<char>,
    ext: Seq<char>,
)
    requires
        !ext.contains('.'),
        stem.len() > 0,
        name_of(p) == Some(stem.push('.') + ext),
        name_of(q) == Some(ext) || name_of(q) == Some(seq!['.'] + ext) || name_of(q) is None,
    ensures
        stem_of(p) == Some(stem),
        extension_of(p) == Some(ext),
        stem_of(q) == name_of(q),
        extension_of(q) is None,
{
    dot_is_last(stem, ext);
    let name = stem.push('.') + ext;
    assert(name.take(stem.len() as int) =~= stem);
    assert(name.skip((stem.len() + 1) as int) =~= ext);
}

} // verus!
