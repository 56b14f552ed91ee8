//! Paths as `std::path` reads them on Unix: components, file name, stem,
//! extension, parent name, equality, prefix and joining.
use vstd::prelude::*;
use crate::text::chars_of;

verus! {

/// The pieces of `p` between `/` separators, empty pieces included, as
/// `str::split('/')` gives them.
pub open spec fn segments(p: Seq<char>) -> Seq<Seq<char>>
    decreases p.len(),
{
    if p.len() == 0 {
        seq![Seq::empty()]
    } else {
        let prev = segments(p.drop_last());
        if p.last() == '/' {
            prev.push(Seq::empty())
        } else {
            prev.update(prev.len() - 1, prev.last().push(p.last()))
        }
    }
}

/// A piece that stands as a component: not empty and not `.`.
pub open spec fn is_kept(s: Seq<char>) -> bool {
    s.len() > 0 && s != seq!['.']
}

/// The piece filter as a function value.
pub open spec fn kept() -> spec_fn(Seq<char>) -> bool {
    |s: Seq<char>| is_kept(s)
}

/// The leading component: `/` for a rooted path, `.` for a path that is `.`
/// or starts with `./`, none otherwise.
pub open spec fn leading_component(p: Seq<char>) -> Seq<Seq<char>> {
    if p.len() > 0 && p[0] == '/' {
        seq![seq!['/']]
    } else if p.len() > 0 && p[0] == '.' && (p.len() == 1 || p[1] == '/') {
        seq![seq!['.']]
    } else {
        Seq::empty()
    }
}

/// The components of `p`, each written as `Component::as_os_str` writes it:
/// `/` for the root, `.` for a leading current directory, `..` for a parent
/// directory, the name itself otherwise. Repeated separators and inner `.`
/// pieces are dropped.
pub open spec fn components(p: Seq<char>) -> Seq<Seq<char>> {
    leading_component(p) + segments(p).filter(kept())
}

/// A component that names a file or directory: not the root, `.` or `..`.
pub open spec fn is_normal(c: Seq<char>) -> bool {
    c != seq!['/'] && c != seq!['.'] && c != seq!['.', '.']
}

/// `Path::file_name`: the last component when it is a name.
pub open spec fn file_name(p: Seq<char>) -> Option<Seq<char>> {
    let c = components(p);
    if c.len() > 0 && is_normal(c.last()) {
        Some(c.last())
    } else {
        None
    }
}

/// The file name of `Path::parent`: the component before the last, when
/// there is one and it is a name.
pub open spec fn parent_name(p: Seq<char>) -> Option<Seq<char>> {
    let c = components(p);
    if c.len() >= 2 && is_normal(c[c.len() - 2]) {
        Some(c[c.len() - 2])
    } else {
        None
    }
}

/// Index of the last `.` in `n`, or -1.
pub open spec fn last_dot(n: Seq<char>) -> int
    decreases n.len(),
{
    if n.len() == 0 {
        -1
    } else if n.last() == '.' {
        n.len() - 1
    } else {
        last_dot(n.drop_last())
    }
}

/// `Path::extension`: what follows the last `.` of the file name, when that
/// dot is not its first character.
pub open spec fn extension(p: Seq<char>) -> Option<Seq<char>> {
    match file_name(p) {
        Some(n) => if last_dot(n) > 0 {
            Some(n.skip(last_dot(n) + 1))
        } else {
            None
        },
        None => None,
    }
}

/// `Path::file_stem`: the file name without its extension.
pub open spec fn file_stem(p: Seq<char>) -> Option<Seq<char>> {
    match file_name(p) {
        Some(n) => if last_dot(n) > 0 {
            Some(n.take(last_dot(n)))
        } else {
            Some(n)
        },
        None => None,
    }
}

/// `Path` equality: the same components.
pub open spec fn same_path(a: Seq<char>, b: Seq<char>) -> bool {
    components(a) == components(b)
}

/// `Path::starts_with`: the components of `base` are a prefix of those of `p`.
pub open spec fn path_starts_with(p: Seq<char>, base: Seq<char>) -> bool {
    components(base).len() <= components(p).len() && components(p).take(
        components(base).len() as int,
    ) == components(base)
}

/// `PathBuf::join` on Unix: a rooted `name` replaces `base`; otherwise a `/`
/// is put between them unless `base` is empty or already ends with one.
pub open spec fn joined(base: Seq<char>, name: Seq<char>) -> Seq<char> {
    if name.len() > 0 && name[0] == '/' {
        name
    } else if base.len() > 0 && base.last() != '/' {
        base + seq!['/'] + name
    } else {
        base + name
    }
}

proof fn lemma_chars_deep_view(v: Vec<char>)
    ensures
        v.deep_view() == v@,
{
    assert(v.deep_view() =~= v@);
}

proof fn lemma_push_deep_view(out: Vec<Vec<char>>, old_out: Vec<Vec<char>>, done: Vec<char>)
    requires
        out@ == old_out@.push(done),
    ensures
        out.deep_view() == old_out.deep_view().push(done@),
{
    lemma_chars_deep_view(done);
    assert(out.deep_view() =~= old_out.deep_view().push(done@));
}

proof fn lemma_segments_nonempty(p: Seq<char>)
    ensures
        segments(p).len() >= 1,
    decreases p.len(),
{
    if p.len() > 0 {
        lemma_segments_nonempty(p.drop_last());
    }
}

/// Builds a `String` from characters with `FromIterator<&char>`; the string
/// holds exactly those characters.
#[verifier::external_body]
pub(crate) fn string_from_chars(v: &Vec<char>) -> (s: String)
    ensures
        s@ == v@,
{
    v.iter().collect()
}

/// The components of `p` (see `components`).
pub fn path_components(p: &str) -> (c: Vec<Vec<char>>)
    ensures
        c.deep_view() == components(p@),
{
    let chars = chars_of(p);
    let ghost s = p@;
    let mut out: Vec<Vec<char>> = Vec::new();
    if chars.len() > 0 && chars[0] == '/' {
        let mut root: Vec<char> = Vec::new();
        root.push('/');
        let ghost empty = out;
        out.push(root);
        proof {
            lemma_push_deep_view(out, empty, root);
            assert(root@ =~= seq!['/']);
        }
    } else if chars.len() > 0 && chars[0] == '.' && (chars.len() == 1 || chars[1] == '/') {
        let mut cur_dir: Vec<char> = Vec::new();
        cur_dir.push('.');
        let ghost empty = out;
        out.push(cur_dir);
        proof {
            lemma_push_deep_view(out, empty, cur_dir);
            assert(cur_dir@ =~= seq!['.']);
        }
    }
    assert(out.deep_view() =~= leading_component(s));
    let mut cur: Vec<char> = Vec::new();
    let mut i: usize = 0;
    assert(s.take(0) =~= Seq::<char>::empty());
    assert(segments(s.take(0)).drop_last().filter(kept()) =~= Seq::<Seq<char>>::empty()) by {
        reveal_with_fuel(Seq::filter, 1);
    }
    while i < chars.len()
        invariant
            chars@ == s,
            i <= chars.len(),
            segments(s.take(i as int)).len() >= 1,
            out.deep_view() == leading_component(s) + segments(s.take(i as int)).drop_last().filter(
                kept(),
            ),
            cur@ == segments(s.take(i as int)).last(),
        decreases chars.len() - i,
    {
        let ghost prev = segments(s.take(i as int));
        let ghost old_vec = out;
        let ghost old_out = out.deep_view();
        assert(s.take(i + 1).drop_last() =~= s.take(i as int));
        let ch = chars[i];
        if ch == '/' {
            assert(segments(s.take(i + 1)) == prev.push(Seq::<char>::empty()));
            assert(prev.push(Seq::<char>::empty()).drop_last() =~= prev);
            assert(prev =~= prev.drop_last().push(prev.last()));
            proof {
                prev.drop_last().lemma_filter_push(prev.last(), kept());
            }
            if cur.len() > 0 && !(cur.len() == 1 && cur[0] == '.') {
                assert(is_kept(cur@)) by {
                    if cur@ == seq!['.'] {
                        assert(cur@[0] == '.');
                    }
                }
                let done = cur;
                out.push(done);
                proof {
                    lemma_push_deep_view(out, old_vec, done);
                }
            } else {
                assert(!is_kept(cur@)) by {
                    if cur.len() == 1 {
                        assert(cur@ =~= seq!['.']);
                    }
                }
            }
            cur = Vec::new();
            assert(cur@ =~= Seq::<char>::empty());
        } else {
            let ghost upd = prev.update(prev.len() - 1, prev.last().push(ch));
            assert(segments(s.take(i + 1)) == upd);
            assert(upd.drop_last() =~= prev.drop_last());
            cur.push(ch);
        }
        i = i + 1;
    }
    assert(s.take(i as int) =~= s);
    let ghost segs = segments(s);
    assert(segs =~= segs.drop_last().push(segs.last()));
    proof {
        segs.drop_last().lemma_filter_push(segs.last(), kept());
    }
    let ghost old_vec = out;
    let ghost old_out = out.deep_view();
    if cur.len() > 0 && !(cur.len() == 1 && cur[0] == '.') {
        assert(is_kept(cur@)) by {
            if cur@ == seq!['.'] {
                assert(cur@[0] == '.');
            }
        }
        let done = cur;
        out.push(done);
        proof {
            lemma_push_deep_view(out, old_vec, done);
        }
    } else {
        assert(!is_kept(cur@)) by {
            if cur.len() == 1 {
                assert(cur@ =~= seq!['.']);
            }
        }
    }
    out
}

/// A plain file name: not empty, without `/`, and neither `.` nor `..`.
pub open spec fn is_plain_name(n: Seq<char>) -> bool {
    &&& n.len() > 0
    &&& forall|i: int| 0 <= i < n.len() ==> n[i] != '/'
    &&& n != seq!['.']
    &&& n != seq!['.', '.']
}

proof fn lemma_segments_append(x: Seq<char>, n: Seq<char>)
    requires
        forall|i: int| 0 <= i < n.len() ==> n[i] != '/',
    ensures
        segments(x + n) == segments(x).update(
            segments(x).len() - 1,
            segments(x).last() + n,
        ),
    decreases n.len(),
{
    lemma_segments_nonempty(x);
    let sx = segments(x);
    if n.len() == 0 {
        assert(x + n =~= x);
        assert(sx.last() + n =~= sx.last());
        assert(sx.update(sx.len() - 1, sx.last()) =~= sx);
    } else {
        let m = n.drop_last();
        lemma_segments_append(x, m);
        assert((x + n).drop_last() =~= x + m);
        assert((x + n).last() == n.last());
        let prev = segments(x + m);
        assert(prev.last() == sx.last() + m);
        assert(prev.last().push(n.last()) =~= sx.last() + n);
        assert(prev.update(prev.len() - 1, prev.last().push(n.last())) =~= sx.update(
            sx.len() - 1,
            sx.last() + n,
        ));
    }
}

/// Joining a plain file name to any directory path gives a path whose file
/// name is that name.
pub proof fn lemma_joined_file_name(base: Seq<char>, n: Seq<char>)
    requires
        is_plain_name(n),
    ensures
        file_name(joined(base, n)) == Some(n),
{
    let x = if base.len() > 0 && base.last() != '/' {
        base + seq!['/']
    } else {
        base
    };
    assert(n[0] != '/');
    assert(joined(base, n) =~= x + n);
    lemma_segments_nonempty(x);
    let sx = segments(x);
    assert(sx.last() == Seq::<char>::empty()) by {
        if x.len() > 0 {
            assert(x.last() == '/');
            assert(sx == segments(x.drop_last()).push(Seq::<char>::empty()));
        }
    }
    lemma_segments_append(x, n);
    let sxn = segments(x + n);
    assert(sxn =~= sx.drop_last().push(n));
    sx.drop_last().lemma_filter_push(n, kept());
    assert(is_kept(n));
    let c = components(x + n);
    assert(c.last() == n);
    assert(is_normal(n)) by {
        if n == seq!['/'] {
            assert(n[0] == '/');
        }
    }
}

/// The characters of an optional string.
pub open spec fn opt_chars(o: Option<String>) -> Option<Seq<char>> {
    match o {
        Some(s) => Some(s@),
        None => None,
    }
}

/// Whether two character vectors hold the same characters.
pub fn chars_equal(a: &Vec<char>, b: &Vec<char>) -> (r: bool)
    ensures
        r == (a@ == b@),
{
    if a.len() != b.len() {
        return false;
    }
    let mut i: usize = 0;
    while i < a.len()
        invariant
            a.len() == b.len(),
            i <= a.len(),
            forall|k: int| 0 <= k < i ==> a@[k] == b@[k],
        decreases a.len() - i,
    {
        if a[i] != b[i] {
            return false;
        }
        i = i + 1;
    }
    assert(a@ =~= b@);
    true
}

fn is_normal_component(c: &Vec<char>) -> (r: bool)
    ensures
        r == is_normal(c@),
{
    let root = c.len() == 1 && c[0] == '/';
    let cur = c.len() == 1 && c[0] == '.';
    let up = c.len() == 2 && c[0] == '.' && c[1] == '.';
    proof {
        if c.len() == 1 {
            assert(c@ =~= seq![c@[0]]);
        }
        if c.len() == 2 {
            assert(c@ =~= seq![c@[0], c@[1]]);
        }
    }
    !(root || cur || up)
}

/// The file name of `p`, as characters (see `file_name`).
pub fn file_name_chars(p: &str) -> (r: Option<Vec<char>>)
    ensures
        match r {
            Some(n) => file_name(p@) == Some(n@),
            None => file_name(p@) is None,
        },
{
    let comps = path_components(p);
    let n = comps.len();
    proof {
        assert(comps.deep_view().len() == comps@.len());
    }
    if n > 0 && is_normal_component(&comps[n - 1]) {
        proof {
            lemma_chars_deep_view(comps@[n - 1]);
            assert(comps.deep_view()[n - 1] == comps@[n - 1].deep_view());
        }
        Some(comps[n - 1].clone())
    } else {
        proof {
            if n > 0 {
                lemma_chars_deep_view(comps@[n - 1]);
                assert(comps.deep_view()[n - 1] == comps@[n - 1].deep_view());
            }
        }
        None
    }
}

/// `Path::file_name` of `p` (see `file_name`).
pub fn path_file_name(p: &str) -> (r: Option<String>)
    ensures
        opt_chars(r) == file_name(p@),
{
    match file_name_chars(p) {
        Some(n) => Some(string_from_chars(&n)),
        None => None,
    }
}

/// The file name of the parent of `p` (see `parent_name`).
pub fn path_parent_name(p: &str) -> (r: Option<String>)
    ensures
        opt_chars(r) == parent_name(p@),
{
    let comps = path_components(p);
    let n = comps.len();
    proof {
        assert(comps.deep_view().len() == comps@.len());
    }
    if n >= 2 {
        proof {
            lemma_chars_deep_view(comps@[n - 2]);
            assert(comps.deep_view()[n - 2] == comps@[n - 2].deep_view());
        }
        if is_normal_component(&comps[n - 2]) {
            return Some(string_from_chars(&comps[n - 2]));
        }
    }
    None
}

fn last_dot_index(n: &Vec<char>) -> (r: Option<usize>)
    ensures
        match r {
            Some(i) => last_dot(n@) == i as int,
            None => last_dot(n@) == -1,
        },
{
    let mut i: usize = n.len();
    assert(n@.take(i as int) =~= n@);
    while i > 0
        invariant
            i <= n.len(),
            last_dot(n@) == last_dot(n@.take(i as int)),
        decreases i,
    {
        assert(n@.take(i as int).drop_last() =~= n@.take(i - 1));
        if n[i - 1] == '.' {
            return Some(i - 1);
        }
        i = i - 1;
    }
    None
}

proof fn lemma_last_dot_bounds(n: Seq<char>)
    ensures
        -1 <= last_dot(n) < n.len(),
    decreases n.len(),
{
    if n.len() > 0 && n.last() != '.' {
        lemma_last_dot_bounds(n.drop_last());
    }
}

pub(crate) fn chars_between(v: &Vec<char>, from: usize, to: usize) -> (r: Vec<char>)
    requires
        from <= to <= v.len(),
    ensures
        r@ == v@.subrange(from as int, to as int),
{
    let mut r: Vec<char> = Vec::new();
    let mut i = from;
    while i < to
        invariant
            from <= i <= to <= v.len(),
            r@ == v@.subrange(from as int, i as int),
        decreases to - i,
    {
        r.push(v[i]);
        i = i + 1;
        assert(r@ =~= v@.subrange(from as int, i as int));
    }
    r
}

/// `Path::extension` of `p` (see `extension`).
pub fn path_extension(p: &str) -> (r: Option<String>)
    ensures
        opt_chars(r) == extension(p@),
{
    match file_name_chars(p) {
        Some(n) => {
            proof {
                lemma_last_dot_bounds(n@);
            }
            match last_dot_index(&n) {
                Some(d) => {
                    if d > 0 {
                        assert(d < n.len());
                        let e = chars_between(&n, d + 1, n.len());
                        assert(e@ =~= n@.skip(d + 1));
                        Some(string_from_chars(&e))
                    } else {
                        None
                    }
                },
                None => None,
            }
        },
        None => None,
    }
}

/// `Path::file_stem` of `p` (see `file_stem`).
pub fn path_file_stem(p: &str) -> (r: Option<String>)
    ensures
        opt_chars(r) == file_stem(p@),
{
    match file_name_chars(p) {
        Some(n) => {
            proof {
                lemma_last_dot_bounds(n@);
            }
            match last_dot_index(&n) {
                Some(d) => {
                    if d > 0 {
                        let e = chars_between(&n, 0, d);
                        assert(e@ =~= n@.take(d as int));
                        Some(string_from_chars(&e))
                    } else {
                        Some(string_from_chars(&n))
                    }
                },
                None => Some(string_from_chars(&n)),
            }
        },
        None => None,
    }
}

fn components_prefix(c: &Vec<Vec<char>>, base: &Vec<Vec<char>>) -> (r: bool)
    ensures
        r == (base.deep_view().len() <= c.deep_view().len() && c.deep_view().take(
            base.deep_view().len() as int,
        ) == base.deep_view()),
{
    let ghost cd = c.deep_view();
    let ghost bd = base.deep_view();
    if base.len() > c.len() {
        return false;
    }
    let mut i: usize = 0;
    while i < base.len()
        invariant
            base.len() <= c.len(),
            cd == c.deep_view(),
            bd == base.deep_view(),
            i <= base.len(),
            forall|k: int| 0 <= k < i ==> cd[k] == bd[k],
        decreases base.len() - i,
    {
        proof {
            lemma_chars_deep_view(c@[i as int]);
            lemma_chars_deep_view(base@[i as int]);
        }
        if !chars_equal(&c[i], &base[i]) {
            assert(cd.take(bd.len() as int)[i as int] != bd[i as int]);
            return false;
        }
        i = i + 1;
    }
    assert(cd.take(bd.len() as int) =~= bd);
    true
}

/// `Path::starts_with` (see `path_starts_with`).
pub fn starts_with_path(p: &str, base: &str) -> (r: bool)
    ensures
        r == path_starts_with(p@, base@),
{
    let c = path_components(p);
    let b = path_components(base);
    components_prefix(&c, &b)
}

/// `Path` equality (see `same_path`).
pub fn paths_equal(a: &str, b: &str) -> (r: bool)
    ensures
        r == same_path(a@, b@),
{
    let ca = path_components(a);
    let cb = path_components(b);
    if ca.len() != cb.len() {
        proof {
            assert(ca.deep_view().len() != cb.deep_view().len());
        }
        return false;
    }
    let r = components_prefix(&ca, &cb);
    proof {
        assert(ca.deep_view().take(cb.deep_view().len() as int) =~= ca.deep_view());
    }
    r
}

/// `PathBuf::join` on Unix (see `joined`).
pub fn join_path(base: &str, name: &str) -> (r: String)
    ensures
        r@ == joined(base@, name@),
{
    let n = chars_of(name);
    let b = chars_of(base);
    if n.len() > 0 && n[0] == '/' {
        return String::from_str(name);
    }
    let mut r = String::from_str(base);
    if b.len() > 0 && b[b.len() - 1] != '/' {
        r.append("/");
        proof {
            reveal_strlit("/");
        }
    }
    r.append(name);
    r
}

} // verus!
