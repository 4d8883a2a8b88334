//! File names and paths: the parent directory, file name, stem and extension of a
//! path whose separator is `/`.
use vstd::prelude::*;
use crate::text::{push_char, chars_of, string_of};

verus! {

/// The pieces of `s` between `/` separators, in order (always at least one).
pub open spec fn segments(s: Seq<char>) -> Seq<Seq<char>>
    decreases s.len(),
{
    if s.len() == 0 {
        seq![Seq::<char>::empty()]
    } else {
        let segs = segments(s.drop_last());
        if s.last() == '/' {
            segs.push(Seq::<char>::empty())
        } else {
            segs.update(segs.len() - 1, segs.last().push(s.last()))
        }
    }
}

/// A piece that names a path component: neither empty nor `.`.
pub open spec fn is_named(seg: Seq<char>) -> bool {
    seg.len() > 0 && seg != seq!['.']
}

/// The last piece that names a path component.
pub open spec fn last_named(segs: Seq<Seq<char>>) -> Option<Seq<char>>
    decreases segs.len(),
{
    if segs.len() == 0 {
        None
    } else if is_named(segs.last()) {
        Some(segs.last())
    } else {
        last_named(segs.drop_last())
    }
}

/// The final component of a path, unless it is `..` or there is none.
pub open spec fn path_file_name(s: Seq<char>) -> Option<Seq<char>> {
    match last_named(segments(s)) {
        Some(n) => if n == seq!['.', '.'] {
            None
        } else {
            Some(n)
        },
        None => None,
    }
}

/// The index of the last `.` in `n`.
pub open spec fn last_dot(n: Seq<char>) -> Option<int>
    decreases n.len(),
{
    if n.len() == 0 {
        None
    } else if n.last() == '.' {
        Some(n.len() - 1)
    } else {
        last_dot(n.drop_last())
    }
}

/// A file name split at its last `.`: the stem and the extension. A name with no `.`
/// after its first character, and `..`, have no extension.
pub open spec fn split_at_dot(n: Seq<char>) -> (Seq<char>, Option<Seq<char>>) {
    if n == seq!['.', '.'] {
        (n, None)
    } else {
        match last_dot(n) {
            None => (n, None),
            Some(i) => if i == 0 {
                (n, None)
            } else {
                (n.take(i), Some(n.skip(i + 1)))
            },
        }
    }
}

/// The stem of a path's file name.
pub open spec fn path_file_stem(s: Seq<char>) -> Option<Seq<char>> {
    match path_file_name(s) {
        Some(n) => Some(split_at_dot(n).0),
        None => None,
    }
}

/// The extension of a path's file name.
pub open spec fn path_extension(s: Seq<char>) -> Option<Seq<char>> {
    match path_file_name(s) {
        Some(n) => split_at_dot(n).1,
        None => None,
    }
}

/// The text of an optional name, or nothing.
pub open spec fn or_empty(o: Option<Seq<char>>) -> Seq<char> {
    match o {
        Some(t) => t,
        None => Seq::empty(),
    }
}

fn is_named_chars(seg: &Vec<char>) -> (r: bool)
    ensures
        r == is_named(seg@),
{
    if seg.len() == 0 {
        false
    } else if seg.len() == 1 && seg[0] == '.' {
        assert(seg@ =~= seq!['.']);
        false
    } else {
        assert(seg@ != seq!['.']) by {
            if seg@.len() == 1 {
                assert(seg@[0] != seq!['.'][0]);
            }
        }
        true
    }
}

/// The final component of a path, as characters.
fn file_name_chars(s: &str) -> (r: Option<Vec<char>>)
    ensures
        match r {
            Some(v) => path_file_name(s@) == Some(v@),
            None => path_file_name(s@) is None,
        },
{
    let chars = chars_of(s);
    let mut cur: Vec<char> = Vec::new();
    let mut last: Option<Vec<char>> = None;
    let mut i: usize = 0;
    while i < chars.len()
        invariant
            chars@ == s@,
            i <= chars@.len(),
            segments(chars@.take(i as int)).len() >= 1,
            cur@ == segments(chars@.take(i as int)).last(),
            match last {
                Some(v) => last_named(segments(chars@.take(i as int)).drop_last()) == Some(v@),
                None => last_named(segments(chars@.take(i as int)).drop_last()) is None,
            },
        decreases chars@.len() - i,
    {
        let ghost pre = chars@.take(i as int);
        let c = chars[i];
        assert(chars@.take(i + 1).drop_last() =~= pre);
        if c == '/' {
            if is_named_chars(&cur) {
                last = Some(cur);
            }
            cur = Vec::new();
            assert(segments(chars@.take(i + 1)).drop_last() =~= segments(pre));
        } else {
            cur.push(c);
            assert(segments(chars@.take(i + 1)).drop_last() =~= segments(pre).drop_last());
        }
        i = i + 1;
    }
    assert(chars@.take(chars@.len() as int) =~= chars@);
    let named = if is_named_chars(&cur) {
        Some(cur)
    } else {
        last
    };
    match named {
        Some(n) => {
            if n.len() == 2 && n[0] == '.' && n[1] == '.' {
                assert(n@ =~= seq!['.', '.']);
                None
            } else {
                assert(n@ != seq!['.', '.']) by {
                    if n@.len() == 2 {
                        assert(n@[0] != '.' || n@[1] != '.');
                        if n@[0] != '.' { assert(n@[0] != seq!['.', '.'][0]); }
                        else { assert(n@[1] != seq!['.', '.'][1]); }
                    }
                }
                Some(n)
            }
        },
        None => None,
    }
}

/// Splits a file name at its last `.`.
fn split_name(n: &Vec<char>) -> (r: (String, Option<String>))
    ensures
        r.0@ == split_at_dot(n@).0,
        match r.1 {
            Some(e) => split_at_dot(n@).1 == Some(e@),
            None => split_at_dot(n@).1 is None,
        },
{
    let whole = string_of(n.as_slice(), 0, n.len());
    assert(n@.subrange(0, n@.len() as int) =~= n@);
    if n.len() == 2 && n[0] == '.' && n[1] == '.' {
        assert(n@ =~= seq!['.', '.']);
        return (whole, None);
    }
    assert(n@ != seq!['.', '.']) by {
        if n@.len() == 2 {
            if n@[0] != '.' { assert(n@[0] != seq!['.', '.'][0]); }
            else { assert(n@[1] != seq!['.', '.'][1]); }
        }
    }
    let mut i: usize = n.len();
    let mut dot: Option<usize> = None;
    while i > 0
        invariant
            i <= n@.len(),
            dot is None ==> last_dot(n@) == last_dot(n@.take(i as int)),
            dot matches Some(d) ==> last_dot(n@) == Some(d as int) && d < n@.len(),
        decreases i,
    {
        if dot.is_none() {
            assert(n@.take(i as int).drop_last() =~= n@.take(i - 1));
            if n[i - 1] == '.' {
                dot = Some(i - 1);
            }
        }
        i = i - 1;
    }
    proof {
        assert(n@.take(0) =~= Seq::<char>::empty());
    }
    match dot {
        None => (whole, None),
        Some(d) => {
            if d == 0 {
                (whole, None)
            } else {
                let stem = string_of(n.as_slice(), 0, d);
                let ext = string_of(n.as_slice(), d + 1, n.len());
                assert(n@.subrange(0, d as int) =~= n@.take(d as int));
                assert(n@.subrange(d + 1, n@.len() as int) =~= n@.skip(d + 1));
                (stem, Some(ext))
            }
        },
    }
}

/// The file name of a path, or an empty string where it has none.
pub fn filename(path: &str) -> (r: String)
    ensures
        r@ == or_empty(path_file_name(path@)),
{
    match file_name_chars(path) {
        Some(n) => {
            let r = string_of(n.as_slice(), 0, n.len());
            assert(n@.subrange(0, n@.len() as int) =~= n@);
            r
        },
        None => String::new(),
    }
}

/// The stem of a path's file name (its name up to the last `.`), or an empty string.
pub fn title(path: &str) -> (r: String)
    ensures
        r@ == or_empty(path_file_stem(path@)),
{
    match file_name_chars(path) {
        Some(n) => split_name(&n).0,
        None => String::new(),
    }
}

/// The extension of a path's file name (after the last `.`), or an empty string.
pub fn extension(path: &str) -> (r: String)
    ensures
        r@ == or_empty(path_extension(path@)),
{
    match file_name_chars(path) {
        Some(n) => match split_name(&n).1 {
            Some(e) => e,
            None => String::new(),
        },
        None => String::new(),
    }
}

/// The stem of a path's file name, where it has one.
pub fn file_stem_of(path: &str) -> (r: Option<String>)
    ensures
        match r {
            Some(t) => path_file_stem(path@) == Some(t@),
            None => path_file_stem(path@) is None,
        },
{
    match file_name_chars(path) {
        Some(n) => Some(split_name(&n).0),
        None => None,
    }
}

/// Whether the piece at place `i` of a path names a component: it is not empty, and it
/// is not `.` unless it comes first.
pub open spec fn is_component(segs: Seq<Seq<char>>, i: int) -> bool {
    segs[i].len() > 0 && (segs[i] != seq!['.'] || i == 0)
}

/// The place of the last piece that names a component, among the first `k`.
pub open spec fn last_component(segs: Seq<Seq<char>>, k: int) -> Option<int>
    decreases k,
{
    if k <= 0 {
        None
    } else if is_component(segs, k - 1) {
        Some(k - 1)
    } else {
        last_component(segs, k - 1)
    }
}

/// The pieces without trailing empty and `.` pieces after the first.
pub open spec fn trim_trailing(t: Seq<Seq<char>>) -> Seq<Seq<char>>
    decreases t.len(),
{
    if t.len() >= 2 && (t.last().len() == 0 || t.last() == seq!['.']) {
        trim_trailing(t.drop_last())
    } else {
        t
    }
}

/// The pieces joined by `/`.
pub open spec fn join_pieces(t: Seq<Seq<char>>) -> Seq<char>
    decreases t.len(),
{
    if t.len() == 0 {
        Seq::empty()
    } else if t.len() == 1 {
        t[0]
    } else {
        join_pieces(t.drop_last()).push('/') + t.last()
    }
}

/// The parent directory of a path: everything before its last component, without
/// trailing separators or `.` pieces; the root for a component right under it; `None`
/// for a path with no component (empty, or only the root).
pub open spec fn path_parent(s: Seq<char>) -> Option<Seq<char>> {
    let segs = segments(s);
    match last_component(segs, segs.len() as int) {
        None => None,
        Some(j) => {
            let t = trim_trailing(segs.take(j));
            if t.len() == 1 && t[0].len() == 0 {
                Some(seq!['/'])
            } else {
                Some(join_pieces(t))
            }
        },
    }
}

/// The pieces of `s` between `/` separators.
fn segments_of(s: &str) -> (r: Vec<Vec<char>>)
    ensures
        r@.len() == segments(s@).len(),
        forall|i: int| 0 <= i < r@.len() ==> #[trigger] r@[i]@ == segments(s@)[i],
{
    let chars = chars_of(s);
    let mut done: Vec<Vec<char>> = Vec::new();
    let mut cur: Vec<char> = Vec::new();
    let mut i: usize = 0;
    while i < chars.len()
        invariant
            chars@ == s@,
            i <= chars@.len(),
            done@.len() + 1 == segments(s@.take(i as int)).len(),
            forall|k: int| 0 <= k < done@.len() ==> #[trigger] done@[k]@ == segments(s@.take(i as int))[k],
            cur@ == segments(s@.take(i as int)).last(),
        decreases chars@.len() - i,
    {
        let c = chars[i];
        let ghost pre = s@.take(i as int);
        assert(s@.take(i + 1).drop_last() =~= pre);
        assert(s@.take(i + 1).last() == c);
        if c == '/' {
            let piece = cur;
            cur = Vec::new();
            done.push(piece);
        } else {
            cur.push(c);
        }
        i = i + 1;
    }
    assert(s@.take(i as int) =~= s@);
    done.push(cur);
    done
}

/// The parent directory of a path followed by `/`, or nothing for a path without a
/// parent.
pub fn path(filename: &str) -> (r: String)
    ensures
        r@ == match path_parent(filename@) {
            Some(p) => p.push('/'),
            None => Seq::empty(),
        },
{
    let segs = segments_of(filename);
    let ghost sv = segments(filename@);
    let mut k: usize = segs.len();
    while k > 0 && !(segs[k - 1].len() > 0 && (!(segs[k - 1].len() == 1 && segs[k - 1][0] == '.') || k - 1 == 0))
        invariant
            k <= segs@.len() == sv.len(),
            forall|i: int| 0 <= i < segs@.len() ==> #[trigger] segs@[i]@ == sv[i],
            last_component(sv, sv.len() as int) == last_component(sv, k as int),
        decreases k,
    {
        proof {
            let x = sv[k - 1];
            assert(segs@[k - 1]@ == x);
            if x.len() > 0 && x == seq!['.'] {
                assert(x.len() == 1 && x[0] == '.');
            }
            if x.len() == 1 && x[0] == '.' {
                assert(x =~= seq!['.']);
            }
            assert(!is_component(sv, k - 1));
        }
        k = k - 1;
    }
    if k == 0 {
        return String::new();
    }
    proof {
        let x = sv[k - 1];
        assert(segs@[k - 1]@ == x);
        if x.len() == 1 && x[0] == '.' {
            assert(x =~= seq!['.']);
        }
    }
    let j = k - 1;
    assert(last_component(sv, sv.len() as int) == Some(j as int));
    let mut m: usize = j;
    assert(trim_trailing(sv.take(j as int)) == trim_trailing(sv.take(m as int)));
    while m >= 2 && (segs[m - 1].len() == 0 || (segs[m - 1].len() == 1 && segs[m - 1][0] == '.'))
        invariant
            m <= j < segs@.len() == sv.len(),
            forall|i: int| 0 <= i < segs@.len() ==> #[trigger] segs@[i]@ == sv[i],
            trim_trailing(sv.take(j as int)) == trim_trailing(sv.take(m as int)),
        decreases m,
    {
        proof {
            let x = sv[m - 1];
            assert(segs@[m - 1]@ == x);
            assert(sv.take(m as int).last() == x);
            assert(sv.take(m as int).drop_last() =~= sv.take(m - 1));
            if x.len() == 1 && x[0] == '.' {
                assert(x =~= seq!['.']);
            }
        }
        m = m - 1;
    }
    proof {
        if m >= 2 {
            let x = sv[m - 1];
            assert(segs@[m - 1]@ == x);
            assert(sv.take(m as int).last() == x);
            if x == seq!['.'] {
                assert(x.len() == 1 && x[0] == '.');
            }
        }
    }
    let ghost t = sv.take(m as int);
    assert(trim_trailing(sv.take(j as int)) == t);
    let mut r = String::new();
    if m == 1 && segs[0].len() == 0 {
        assert(segs@[0]@ == t[0]);
        push_char(&mut r, '/');
        assert(r@ =~= seq!['/']);
    } else {
        let mut q: usize = 0;
        while q < m
            invariant
                q <= m <= segs@.len() == sv.len(),
                t == sv.take(m as int),
                forall|i: int| 0 <= i < segs@.len() ==> #[trigger] segs@[i]@ == sv[i],
                r@ == join_pieces(t.take(q as int)),
            decreases m - q,
        {
            let ghost before = r@;
            if q > 0 {
                push_char(&mut r, '/');
            }
            let piece = &segs[q];
            let mut z: usize = 0;
            let ghost mid = r@;
            while z < piece.len()
                invariant
                    z <= piece@.len(),
                    r@ == mid + piece@.take(z as int),
                decreases piece@.len() - z,
            {
                push_char(&mut r, piece[z]);
                assert(piece@.take(z + 1) =~= piece@.take(z as int).push(piece@[z as int]));
                z = z + 1;
            }
            assert(piece@.take(z as int) =~= piece@);
            assert(segs@[q as int]@ == t[q as int]);
            assert(t.take(q + 1).drop_last() =~= t.take(q as int));
            assert(t.take(q + 1).last() == t[q as int]);
            if q == 0 {
                assert(t.take(1)[0] == t[0]);
                assert(r@ =~= join_pieces(t.take(1)));
            }
            q = q + 1;
        }
        assert(t.take(m as int) =~= t);
    }
    push_char(&mut r, '/');
    r
}

/// A text without `/` is a single piece.
pub proof fn lemma_segments_single(s: Seq<char>)
    requires
        !s.contains('/'),
    ensures
        segments(s) == seq![s],
    decreases s.len(),
{
    if s.len() > 0 {
        assert(!s.drop_last().contains('/')) by {
            if s.drop_last().contains('/') {
                let i = choose|i: int| 0 <= i < s.drop_last().len() && s.drop_last()[i] == '/';
                assert(s[i] == '/');
            }
        }
        lemma_segments_single(s.drop_last());
        assert(s.last() != '/') by {
            assert(s[s.len() - 1] == s.last());
        }
        assert(s.drop_last().push(s.last()) =~= s);
    } else {
        assert(s =~= Seq::<char>::empty());
    }
}

/// The last `.` of `n + "." + e`, where `e` holds none, is the one before `e`.
pub proof fn lemma_last_dot_joined(n: Seq<char>, e: Seq<char>)
    requires
        !e.contains('.'),
    ensures
        last_dot(n.push('.') + e) == Some(n.len() as int),
    decreases e.len(),
{
    if e.len() == 0 {
        assert(n.push('.') + e =~= n.push('.'));
    } else {
        assert(!e.drop_last().contains('.')) by {
            if e.drop_last().contains('.') {
                let i = choose|i: int| 0 <= i < e.drop_last().len() && e.drop_last()[i] == '.';
                assert(e[i] == '.');
            }
        }
        lemma_last_dot_joined(n, e.drop_last());
        assert((n.push('.') + e).drop_last() =~= n.push('.') + e.drop_last());
        assert((n.push('.') + e).last() == e.last());
        assert(e.last() != '.') by {
            assert(e[e.len() - 1] == e.last());
        }
    }
}

/// The stem and extension of the file name `n.e`, where `n` is not empty, neither holds
/// `/` and `e` holds no `.`, are `n` and `e`.
pub proof fn lemma_joined_name_parts(n: Seq<char>, e: Seq<char>)
    requires
        n.len() > 0,
        !n.contains('/'),
        !e.contains('/'),
        !e.contains('.'),
        !(n == seq!['.'] && e.len() == 0),
    ensures
        path_file_stem(n.push('.') + e) == Some(n),
        path_extension(n.push('.') + e) == Some(e),
{
    let full = n.push('.') + e;
    assert(!full.contains('/')) by {
        if full.contains('/') {
            let i = choose|i: int| 0 <= i < full.len() && full[i] == '/';
            if i < n.len() {
                assert(n[i] == '/');
            } else if i > n.len() {
                assert(e[i - n.len() - 1] == '/');
            }
        }
    }
    lemma_segments_single(full);
    assert(full.len() > 1);
    assert(full != seq!['.']) by {
        assert(full.len() != 1);
    }
    assert(is_named(full));
    assert(seq![full].last() == full);
    assert(last_named(seq![full]) == Some(full));
    assert(full != seq!['.', '.']) by {
        if full == seq!['.', '.'] {
            assert(full.len() == 2);
            assert(n.len() == 1 && e.len() == 0);
            assert(full[0] == '.');
            assert(n[0] == '.');
            assert(n =~= seq!['.']);
        }
    }
    assert(path_file_name(full) == Some(full));
    lemma_last_dot_joined(n, e);
    assert(full.take(n.len() as int) =~= n);
    assert(full.skip(n.len() as int + 1) =~= e);
}

} // verus!
