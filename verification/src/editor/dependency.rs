//! The dependencies of the open file: their order, which ones the selected tag uses,
//! adding and removing them.
use vstd::prelude::*;
use crate::format::file_block::{File, FileView, full_name};
use crate::format::pray::{Block, BlockView, blocks_view, files_view};
use crate::format::agent_block::{AgentView, contains_name};
use crate::format::egg_block::EggView;
use crate::format::gb_block::GardenBoxView;
use super::file::{FileState, EditorStateView, touched, change_selected, selected_index, selected_place, modify_file};
use super::history::{HistoryState, recorded};
use crate::text::{chars_lt, chars_less, lemma_chars_lt_irreflexive, lemma_chars_lt_asymmetric, lemma_chars_lt_total, lemma_chars_lt_transitive, str_eq, strings_view, to_owned, push_char, push_str, ascii_lowercase, to_ascii_lowercase, lossy_text, utf8_lossy, decimal, decimal_string};
use crate::error::Error;
use crate::file_helper::{title, extension, or_empty, path_file_stem, path_extension};

verus! {

/// The place of a dependency's kind in the list: scripts, genetics, catalogues,
/// backgrounds, sprites, sounds, body data, then anything else.
pub open spec fn sort_category(ext: Seq<char>) -> u32 {
    if ext == "cos"@ {
        0
    } else if ext == "gen"@ {
        1
    } else if ext == "gno"@ {
        2
    } else if ext == "catalogue"@ {
        3
    } else if ext == "blk"@ {
        4
    } else if ext == "c16"@ {
        5
    } else if ext == "s16"@ {
        6
    } else if ext == "mng"@ {
        7
    } else if ext == "wav"@ {
        8
    } else if ext == "att"@ {
        9
    } else {
        10
    }
}

fn sort_category_of(ext: &str) -> (r: u32)
    ensures
        r == sort_category(ext@),
{
    if str_eq(ext, "cos") {
        0
    } else if str_eq(ext, "gen") {
        1
    } else if str_eq(ext, "gno") {
        2
    } else if str_eq(ext, "catalogue") {
        3
    } else if str_eq(ext, "blk") {
        4
    } else if str_eq(ext, "c16") {
        5
    } else if str_eq(ext, "s16") {
        6
    } else if str_eq(ext, "mng") {
        7
    } else if str_eq(ext, "wav") {
        8
    } else if str_eq(ext, "att") {
        9
    } else {
        10
    }
}

/// Whether dependency `a` sorts before dependency `b`: by kind, then by name.
pub open spec fn key_lt(a: FileView, b: FileView) -> bool {
    sort_category(a.extension) < sort_category(b.extension) || (sort_category(a.extension) == sort_category(
        b.extension,
    ) && chars_lt(a.name, b.name))
}

/// Whether no dependency sorts before the one in front of it.
pub open spec fn sorted_by_key(s: Seq<FileView>) -> bool {
    forall|i: int| 0 <= i && i + 1 < s.len() ==> !key_lt(#[trigger] s[i + 1], s[i])
}

/// Dependencies that do not sort before one another in turn do not sort before one
/// another: the order by kind and name is a total preorder.
pub proof fn lemma_key_not_lt_transitive(a: FileView, b: FileView, c: FileView)
    requires
        !key_lt(b, a),
        !key_lt(c, b),
    ensures
        !key_lt(c, a),
{
    lemma_chars_lt_total(a.name, b.name);
    lemma_chars_lt_total(b.name, c.name);
    if key_lt(c, a) {
        if sort_category(a.extension) == sort_category(b.extension) && sort_category(b.extension) == sort_category(
            c.extension,
        ) {
            if chars_lt(a.name, b.name) && chars_lt(b.name, c.name) {
                lemma_chars_lt_transitive(a.name, b.name, c.name);
                lemma_chars_lt_transitive(c.name, a.name, b.name);
                lemma_chars_lt_asymmetric(c.name, b.name);
            } else if chars_lt(a.name, b.name) {
                lemma_chars_lt_transitive(c.name, a.name, b.name);
                lemma_chars_lt_irreflexive(c.name);
            } else if chars_lt(b.name, c.name) {
                lemma_chars_lt_transitive(b.name, c.name, a.name);
                lemma_chars_lt_irreflexive(a.name);
            } else {
                lemma_chars_lt_irreflexive(a.name);
            }
        }
    }
}

/// In a list sorted by kind and name, no dependency sorts before any one in front of
/// it, near or far.
pub proof fn lemma_sorted_pairwise(s: Seq<FileView>)
    requires
        sorted_by_key(s),
    ensures
        forall|i: int, j: int| 0 <= i < j < s.len() ==> !key_lt(#[trigger] s[j], #[trigger] s[i]),
{
    assert forall|i: int, j: int| 0 <= i < j < s.len() implies !key_lt(#[trigger] s[j], #[trigger] s[i]) by {
        lemma_sorted_from(s, i, j);
    }
}

proof fn lemma_sorted_from(s: Seq<FileView>, i: int, j: int)
    requires
        sorted_by_key(s),
        0 <= i < j < s.len(),
    ensures
        !key_lt(s[j], s[i]),
    decreases j - i,
{
    if j == i + 1 {
        assert(!key_lt(s[i + 1], s[i]));
    } else {
        lemma_sorted_from(s, i, j - 1);
        assert(!key_lt(s[(j - 1) + 1], s[j - 1]));
        lemma_key_not_lt_transitive(s[i], s[j - 1], s[j]);
    }
}

/// Whether two dependencies have the same key: the same kind and the same name.
pub open spec fn same_key(a: FileView, b: FileView) -> bool {
    sort_category(a.extension) == sort_category(b.extension) && a.name == b.name
}

/// Whether `s` is `o` reordered by `perm` (`s[k]` is `o[perm[k]]`, each place of `o`
/// taken once) so that, among the first `i`, dependencies with the same key keep the
/// order they had in `o`, and from `i` on nothing has moved.
pub open spec fn reordered_stably(perm: Seq<int>, s: Seq<File>, o: Seq<File>, i: int) -> bool {
    &&& perm.len() == s.len() == o.len()
    &&& forall|k: int| 0 <= k < perm.len() ==> 0 <= #[trigger] perm[k] < perm.len()
    &&& forall|k: int, l: int| 0 <= k < l < perm.len() ==> #[trigger] perm[k] != #[trigger] perm[l]
    &&& forall|k: int| 0 <= k < perm.len() ==> #[trigger] s[k] == o[perm[k]]
    &&& forall|k: int| i <= k < perm.len() ==> #[trigger] perm[k] == k
    &&& forall|k: int| 0 <= k < i && k < perm.len() ==> #[trigger] perm[k] < i
    &&& forall|k: int, l: int| 0 <= k < l < i && l < perm.len() && same_key(#[trigger] s[k]@, #[trigger] s[l]@) ==> perm[k] < perm[l]
}

proof fn lemma_lt_not_same(a: FileView, b: FileView)
    requires
        key_lt(a, b),
    ensures
        !same_key(a, b),
        !same_key(b, a),
{
    lemma_chars_lt_irreflexive(a.name);
}

proof fn lemma_insertion_step(perm: Seq<int>, before: Seq<File>, o: Seq<File>, i: int, j: int)
    requires
        reordered_stably(perm, before, o, i),
        0 <= j <= i < before.len(),
        forall|k: int| j <= k < i ==> key_lt(before[i]@, #[trigger] before[k]@),
    ensures
        reordered_stably(perm.remove(i).insert(j, perm[i]), before.remove(i).insert(j, before[i]), o, i + 1),
{
    let np = perm.remove(i).insert(j, perm[i]);
    let ns = before.remove(i).insert(j, before[i]);
    let n = before.len();
    assert(np.len() == n && ns.len() == n);
    assert forall|k: int| 0 <= k < n implies (np[k] == if k < j { perm[k] } else if k == j { perm[i] } else if k <= i { perm[k - 1] } else { perm[k] })
        && (ns[k] == if k < j { before[k] } else if k == j { before[i] } else if k <= i { before[k - 1] } else { before[k] }) by {}
    assert forall|k: int| 0 <= k < n implies 0 <= #[trigger] np[k] < n by {
        if k < j {} else if k == j { assert(0 <= perm[i] < n); } else if k <= i { assert(0 <= perm[k - 1] < n); } else {}
    }
    assert forall|k: int, l: int| 0 <= k < l < n implies #[trigger] np[k] != #[trigger] np[l] by {
        let ok = if k < j { k } else if k == j { i } else if k <= i { k - 1 } else { k };
        let ol = if l < j { l } else if l == j { i } else if l <= i { l - 1 } else { l };
        assert(np[k] == perm[ok] && np[l] == perm[ol]);
        assert(ok != ol);
        if ok < ol {
            assert(perm[ok] != perm[ol]);
        } else {
            assert(perm[ol] != perm[ok]);
        }
    }
    assert forall|k: int| 0 <= k < n implies #[trigger] ns[k] == o[np[k]] by {
        if k < j {} else if k == j {} else if k <= i { assert(before[k - 1] == o[perm[k - 1]]); } else {}
    }
    assert forall|k: int| i + 1 <= k < n implies #[trigger] np[k] == k by {}
    assert forall|k: int| 0 <= k < i + 1 && k < n implies #[trigger] np[k] < i + 1 by {
        if k < j {} else if k == j { assert(perm[i] == i); } else { assert(perm[k - 1] < i); }
    }
    assert forall|k: int, l: int| 0 <= k < l < i + 1 && l < n && same_key(#[trigger] ns[k]@, #[trigger] ns[l]@) implies np[k] < np[l] by {
        if l < j {
            assert(ns[k] == before[k] && ns[l] == before[l]);
        } else if l == j {
            assert(np[l] == i && perm[i] == i);
            assert(np[k] == perm[k] && perm[k] < i);
        } else if k < j {
            assert(ns[k] == before[k] && ns[l] == before[l - 1]);
            assert(np[k] == perm[k] && np[l] == perm[l - 1]);
            assert(same_key(before[k]@, before[l - 1]@));
        } else if k == j {
            assert(ns[l] == before[l - 1]);
            assert(key_lt(before[i]@, before[l - 1]@));
            lemma_lt_not_same(before[i]@, before[l - 1]@);
        } else {
            assert(ns[k] == before[k - 1] && ns[l] == before[l - 1]);
            assert(same_key(before[k - 1]@, before[l - 1]@));
        }
    }
}

fn key_less(a: &File, b: &File) -> (r: bool)
    ensures
        r == key_lt(a@, b@),
{
    let ca = sort_category_of(a.extension.as_str());
    let cb = sort_category_of(b.extension.as_str());
    ca < cb || (ca == cb && chars_less(a.name.as_str(), b.name.as_str()))
}

/// Sorts dependencies by kind, then by name, keeping the dependencies themselves; those
/// with the same kind and name keep their order.
pub fn sort_dependencies(dependencies: &mut Vec<File>)
    ensures
        exists|perm: Seq<int>| reordered_stably(perm, final(dependencies)@, old(dependencies)@, old(dependencies)@.len() as int),
        final(dependencies)@.to_multiset() == old(dependencies)@.to_multiset(),
        files_view(final(dependencies)@).to_multiset() == files_view(old(dependencies)@).to_multiset(),
        sorted_by_key(files_view(final(dependencies)@)),
{
    broadcast use vstd::seq_lib::to_multiset_remove, vstd::seq_lib::to_multiset_insert;

    let n = dependencies.len();
    let mut i: usize = 1;
    let ghost mut perm: Seq<int> = Seq::new(n as nat, |k: int| k);
    if n == 0 {
        assert(reordered_stably(perm, dependencies@, old(dependencies)@, 0));
        return;
    }
    assert(reordered_stably(perm, dependencies@, old(dependencies)@, 1));
    while i < n
        invariant
            1 <= i <= n,
            dependencies@.len() == n,
            old(dependencies)@.len() == n,
            reordered_stably(perm, dependencies@, old(dependencies)@, i as int),
            dependencies@.to_multiset() == old(dependencies)@.to_multiset(),
            files_view(dependencies@).to_multiset() == files_view(old(dependencies)@).to_multiset(),
            sorted_by_key(files_view(dependencies@.take(i as int))),
        decreases n - i,
    {
        let ghost before = dependencies@;
        let x = dependencies.remove(i);
        let mut j: usize = i;
        while j > 0 && key_less(&x, &dependencies[j - 1])
            invariant
                0 <= j <= i < n,
                before.len() == n,
                dependencies@.len() == n - 1,
                dependencies@ == before.remove(i as int),
                x == before[i as int],
                forall|k: int| j <= k < i ==> key_lt(x@, #[trigger] dependencies@[k]@),
            decreases j,
        {
            j = j - 1;
        }
        assert forall|k: int| j <= k < i implies key_lt(before[i as int]@, #[trigger] before[k]@) by {
            assert(dependencies@[k] == before[k]);
        }
        dependencies.insert(j, x);
        proof {
            lemma_insertion_step(perm, before, old(dependencies)@, i as int, j as int);
            perm = perm.remove(i as int).insert(j as int, perm[i as int]);
            broadcast use vstd::multiset::group_multiset_axioms;
            assert(dependencies@ == before.remove(i as int).insert(j as int, before[i as int]));
            vstd::seq_lib::to_multiset_remove(before, i as int);
            vstd::seq_lib::to_multiset_insert(before.remove(i as int), j as int, before[i as int]);
            assert(before.to_multiset().count(before[i as int]) > 0) by {
                vstd::seq_lib::to_multiset_contains(before, before[i as int]);
            }
            assert(before.to_multiset().remove(before[i as int]).insert(before[i as int]) =~= before.to_multiset());
            let fb = files_view(before);
            assert(files_view(dependencies@) =~= fb.remove(i as int).insert(j as int, fb[i as int]));
            vstd::seq_lib::to_multiset_remove(fb, i as int);
            vstd::seq_lib::to_multiset_insert(fb.remove(i as int), j as int, fb[i as int]);
            assert(fb.to_multiset().count(fb[i as int]) > 0) by {
                vstd::seq_lib::to_multiset_contains(fb, fb[i as int]);
            }
            assert(fb.to_multiset().remove(fb[i as int]).insert(fb[i as int]) =~= fb.to_multiset());
            let s = dependencies@;
            let p = before.take(i as int);
            assert(s.len() == n);
            assert forall|k: int| 0 <= k < j implies s[k] == p[k] by {}
            assert(s[j as int] == x);
            assert forall|k: int| j < k <= i implies s[k] == p[k - 1] by {}
            assert forall|k: int| i < k < n implies s[k] == before[k] by {}
            let fs = files_view(s.take(i + 1));
            let fp = files_view(p);
            assert forall|k: int| 0 <= k && k + 1 < fs.len() implies !key_lt(#[trigger] fs[k + 1], fs[k]) by {
                if k + 1 < j {
                    assert(fs[k] == fp[k] && fs[k + 1] == fp[k + 1]);
                } else if k + 1 == j {
                    assert(fs[k + 1] == x@);
                    assert(fs[k] == fp[k]);
                } else if k == j {
                    assert(fs[k] == x@);
                    assert(fs[k + 1] == fp[k]);
                    assert(key_lt(x@, fp[k]));
                    lemma_chars_lt_asymmetric(x@.name, fp[k].name);
                } else {
                    assert(fs[k] == fp[k - 1] && fs[k + 1] == fp[k]);
                    assert(fp[(k - 1) + 1] == fp[k]);
                }
            }
        }
        i = i + 1;
    }
    assert(dependencies@.take(n as int) =~= dependencies@);
}


/// The dependencies that a tag names: an agent's, an egg's or a garden box item's; no
/// other block names any.
pub open spec fn tag_dependencies(b: BlockView) -> Seq<Seq<char>> {
    match b {
        BlockView::Agent(a) => a.dependencies,
        BlockView::Egg(e) => e.dependencies,
        BlockView::GardenBox(g) => g.dependencies,
        _ => Seq::empty(),
    }
}

/// The places among the first `k` dependencies of those whose file name is `name`, in
/// order, as 32-bit numbers.
pub open spec fn matching_indices(deps: Seq<FileView>, name: Seq<char>, k: nat) -> Seq<u32>
    decreases k,
{
    if k == 0 {
        Seq::empty()
    } else {
        matching_indices(deps, name, (k - 1) as nat) + if full_name(deps[k - 1].name, deps[k - 1].extension) == name {
            seq![#[verifier::truncate] ((k - 1) as u32)]
        } else {
            Seq::empty()
        }
    }
}

/// For each name in turn, the places of the dependencies with that file name.
pub open spec fn checked_indices(names: Seq<Seq<char>>, deps: Seq<FileView>) -> Seq<u32>
    decreases names.len(),
{
    if names.len() == 0 {
        Seq::empty()
    } else {
        checked_indices(names.drop_last(), deps) + matching_indices(deps, names.last(), deps.len())
    }
}

/// The dependencies with each one checked where the names hold its file name, and
/// unchecked otherwise.
pub open spec fn marked(deps: Seq<FileView>, names: Seq<Seq<char>>) -> Seq<FileView> {
    Seq::new(deps.len(), |i: int| FileView { is_checked: names.contains(full_name(deps[i].name, deps[i].extension)), ..deps[i] })
}

fn set_checked(dependencies: &mut Vec<File>, i: usize, checked: bool)
    requires
        i < old(dependencies)@.len(),
    ensures
        final(dependencies)@.len() == old(dependencies)@.len(),
        files_view(final(dependencies)@) == files_view(old(dependencies)@).update(
            i as int,
            FileView { is_checked: checked, ..files_view(old(dependencies)@)[i as int] },
        ),
{
    let mut d = dependencies.remove(i);
    d.is_checked = checked;
    dependencies.insert(i, d);
    assert(files_view(dependencies@) =~= files_view(old(dependencies)@).update(
        i as int,
        FileView { is_checked: checked, ..files_view(old(dependencies)@)[i as int] },
    ));
}

/// Checks the dependencies that a tag names and unchecks the others, giving, for each
/// name of the tag in turn, the places of the dependencies with that file name.
pub fn check_dependencies_for_tag(tag: &Block, dependencies: &mut Vec<File>) -> (r: Vec<u32>)
    ensures
        files_view(final(dependencies)@) == marked(files_view(old(dependencies)@), tag_dependencies(tag@)),
        r@ == checked_indices(tag_dependencies(tag@), files_view(old(dependencies)@)),
{
    let empty_deps: Vec<String> = Vec::new();
    let tag_deps = match tag {
        Block::Agent(t) => &t.dependencies,
        Block::Egg(t) => &t.dependencies,
        Block::GardenBox(t) => &t.dependencies,
        _ => &empty_deps,
    };
    let ghost names = strings_view(tag_deps@);
    assert(names == tag_dependencies(tag@)) by {
        assert(strings_view(empty_deps@) =~= Seq::<Seq<char>>::empty());
    }
    let ghost d0 = files_view(dependencies@);
    let n = dependencies.len();

    let mut checked_dependencies: Vec<u32> = Vec::new();

    let mut i: usize = 0;
    while i < n
        invariant
            i <= n == dependencies@.len() == d0.len(),
            forall|k: int| 0 <= k < i ==> files_view(dependencies@)[k] == (FileView { is_checked: false, ..d0[k] }),
            forall|k: int| i <= k < n ==> files_view(dependencies@)[k] == d0[k],
        decreases n - i,
    {
        set_checked(dependencies, i, false);
        i = i + 1;
    }

    let mut t: usize = 0;
    while t < tag_deps.len()
        invariant
            t <= tag_deps@.len(),
            names == strings_view(tag_deps@),
            n == dependencies@.len() == d0.len(),
            forall|k: int| 0 <= k < n ==> files_view(dependencies@)[k] == (FileView {
                is_checked: names.take(t as int).contains(full_name(d0[k].name, d0[k].extension)),
                ..d0[k]
            }),
            checked_dependencies@ == checked_indices(names.take(t as int), d0),
        decreases tag_deps@.len() - t,
    {
        let tag_dependency = &tag_deps[t];
        assert(names[t as int] == tag_dependency@);
        assert(names.take(t + 1).drop_last() =~= names.take(t as int));
        let ghost before = checked_dependencies@;
        let ghost flags = files_view(dependencies@);
        let mut i: usize = 0;
        while i < n
            invariant
                i <= n == dependencies@.len() == d0.len(),
                t < names.len(),
                flags.len() == n,
                names[t as int] == tag_dependency@,
                forall|k: int| 0 <= k < n ==> files_view(dependencies@)[k] == (FileView {
                    is_checked: if k < i && full_name(d0[k].name, d0[k].extension) == names[t as int] {
                        true
                    } else {
                        flags[k].is_checked
                    },
                    ..d0[k]
                }),
                forall|k: int| 0 <= k < n ==> flags[k] == (FileView {
                    is_checked: names.take(t as int).contains(full_name(d0[k].name, d0[k].extension)),
                    ..d0[k]
                }),
                checked_dependencies@ == before + matching_indices(d0, names[t as int], i as nat),
            decreases n - i,
        {
            let filename = dependencies[i].filename();
            assert(files_view(dependencies@)[i as int].name == d0[i as int].name);
            if str_eq(tag_dependency.as_str(), filename.as_str()) {
                set_checked(dependencies, i, true);
                checked_dependencies.push(i as u32);
            }
            i = i + 1;
        }
        proof {
            assert forall|k: int| 0 <= k < n implies files_view(dependencies@)[k] == (FileView {
                is_checked: names.take(t + 1).contains(full_name(d0[k].name, d0[k].extension)),
                ..d0[k]
            }) by {
                let f = full_name(d0[k].name, d0[k].extension);
                if f == names[t as int] {
                    assert(names.take(t + 1)[t as int] == f);
                } else {
                    if names.take(t as int).contains(f) {
                        let w = choose|w: int| 0 <= w < t && #[trigger] names.take(t as int)[w] == f;
                        assert(names.take(t + 1)[w] == f);
                    }
                    if names.take(t + 1).contains(f) {
                        let w = choose|w: int| 0 <= w < t + 1 && #[trigger] names.take(t + 1)[w] == f;
                        assert(names.take(t as int)[w] == f);
                    }
                }
            }
            assert(names.take(t + 1).last() == names[t as int]);
        }
        t = t + 1;
    }
    assert(names.take(t as int) =~= names);
    assert(files_view(dependencies@) =~= marked(d0, names));
    checked_dependencies
}

/// The file names of dependencies, in order.
pub open spec fn file_names(deps: Seq<FileView>) -> Seq<Seq<char>> {
    Seq::new(deps.len(), |i: int| full_name(deps[i].name, deps[i].extension))
}

/// A file reference kept where `names` holds it, and emptied otherwise.
pub open spec fn kept(s: Seq<char>, names: Seq<Seq<char>>) -> Seq<char> {
    if names.contains(s) {
        s
    } else {
        Seq::empty()
    }
}

/// A tag with its references to files that `names` does not hold emptied: an agent's
/// or a garden box item's animation file, an egg's genetics and sprite files.
pub open spec fn pruned(b: BlockView, names: Seq<Seq<char>>) -> BlockView {
    match b {
        BlockView::Agent(a) => BlockView::Agent(AgentView { animation_file: kept(a.animation_file, names), ..a }),
        BlockView::Egg(e) => BlockView::Egg(
            EggView {
                genetics_file: kept(e.genetics_file, names),
                genetics_file_mother: kept(e.genetics_file_mother, names),
                genetics_file_father: kept(e.genetics_file_father, names),
                sprite_file_male: kept(e.sprite_file_male, names),
                sprite_file_female: kept(e.sprite_file_female, names),
                ..e
            },
        ),
        BlockView::GardenBox(g) => BlockView::GardenBox(GardenBoxView { animation_file: kept(g.animation_file, names), ..g }),
        _ => b,
    }
}

/// The file names of dependencies.
pub fn dependency_names(dependencies: &[File]) -> (r: Vec<String>)
    ensures
        strings_view(r@) == file_names(files_view(dependencies@)),
{
    let mut r: Vec<String> = Vec::new();
    let mut i: usize = 0;
    while i < dependencies.len()
        invariant
            i <= dependencies@.len(),
            strings_view(r@) == file_names(files_view(dependencies@)).take(i as int),
        decreases dependencies@.len() - i,
    {
        let ghost before = r@;
        r.push(dependencies[i].filename());
        assert(strings_view(r@) =~= strings_view(before).push(file_names(files_view(dependencies@))[i as int]));
        assert(file_names(files_view(dependencies@)).take(i + 1) =~= file_names(files_view(dependencies@)).take(i as int).push(
            file_names(files_view(dependencies@))[i as int],
        ));
        i = i + 1;
    }
    assert(file_names(files_view(dependencies@)).take(i as int) =~= file_names(files_view(dependencies@)));
    r
}

fn keep_reference(s: &String, names: &Vec<String>) -> (r: String)
    ensures
        r@ == kept(s@, strings_view(names@)),
{
    if contains_name(names, s.as_str()) {
        to_owned(s.as_str())
    } else {
        String::new()
    }
}

/// Empties the references of the tags to files that are not among the dependencies.
pub fn remove_missing_dependencies(tags: &mut Vec<Block>, dependencies: &[File])
    ensures
        blocks_view(final(tags)@) == Seq::new(
            old(tags)@.len(),
            |i: int| pruned(blocks_view(old(tags)@)[i], file_names(files_view(dependencies@))),
        ),
{
    let names = dependency_names(dependencies);
    let ghost nv = strings_view(names@);
    let ghost t0 = blocks_view(tags@);
    let mut i: usize = 0;
    while i < tags.len()
        invariant
            i <= tags@.len() == t0.len(),
            nv == strings_view(names@),
            forall|k: int| 0 <= k < i ==> #[trigger] blocks_view(tags@)[k] == pruned(t0[k], nv),
            forall|k: int| i <= k < tags@.len() ==> #[trigger] blocks_view(tags@)[k] == t0[k],
        decreases tags@.len() - i,
    {
        let ghost start = tags@;
        assert(blocks_view(start)[i as int] == start[i as int]@);
        let mut tag = tags.remove(i);
        match &mut tag {
            Block::Agent(agent_tag) => {
                agent_tag.animation_file = keep_reference(&agent_tag.animation_file, &names);
            },
            Block::Egg(egg_tag) => {
                egg_tag.genetics_file = keep_reference(&egg_tag.genetics_file, &names);
                egg_tag.genetics_file_mother = keep_reference(&egg_tag.genetics_file_mother, &names);
                egg_tag.genetics_file_father = keep_reference(&egg_tag.genetics_file_father, &names);
                egg_tag.sprite_file_male = keep_reference(&egg_tag.sprite_file_male, &names);
                egg_tag.sprite_file_female = keep_reference(&egg_tag.sprite_file_female, &names);
            },
            Block::GardenBox(gb_tag) => {
                gb_tag.animation_file = keep_reference(&gb_tag.animation_file, &names);
            },
            _ => {},
        }
        assert(tag@ == pruned(t0[i as int], nv));
        tags.insert(i, tag);
        assert(tags@ =~= start.update(i as int, tags@[i as int]));
        assert(blocks_view(tags@)[i as int] == pruned(t0[i as int], nv));
        assert forall|k: int| 0 <= k < tags@.len() && k != i implies #[trigger] blocks_view(tags@)[k] == blocks_view(start)[k] by {
            assert(tags@[k] == start[k]);
        }
        i = i + 1;
    }
    assert(blocks_view(tags@) =~= Seq::new(t0.len(), |i: int| pruned(t0[i], nv)));
}

/// The file names of the first `k` dependencies whose places, as 32-bit numbers, the
/// list `checked` holds, in order.
pub open spec fn chosen_names(deps: Seq<FileView>, checked: Seq<u32>, k: nat) -> Seq<Seq<char>>
    decreases k,
{
    if k == 0 {
        Seq::empty()
    } else {
        chosen_names(deps, checked, (k - 1) as nat) + if checked.contains(#[verifier::truncate] ((k - 1) as u32)) {
            seq![full_name(deps[k - 1].name, deps[k - 1].extension)]
        } else {
            Seq::empty()
        }
    }
}

/// A tag naming the dependencies `names`: an agent, an egg or a garden box item; any
/// other block as it is.
pub open spec fn with_dependencies(b: BlockView, names: Seq<Seq<char>>) -> BlockView {
    match b {
        BlockView::Agent(a) => BlockView::Agent(AgentView { dependencies: names, ..a }),
        BlockView::Egg(e) => BlockView::Egg(EggView { dependencies: names, ..e }),
        BlockView::GardenBox(g) => BlockView::GardenBox(GardenBoxView { dependencies: names, ..g }),
        _ => b,
    }
}

fn contains_u32(v: &Vec<u32>, x: u32) -> (r: bool)
    ensures
        r == v@.contains(x),
{
    let mut i: usize = 0;
    while i < v.len()
        invariant
            i <= v@.len(),
            forall|j: int| 0 <= j < i ==> v@[j] != x,
        decreases v@.len() - i,
    {
        if v[i] == x {
            assert(v@[i as int] == x);
            return true;
        }
        i = i + 1;
    }
    false
}

/// Makes the selected tag name exactly the dependencies whose places `checked_dependencies`
/// holds, in the dependencies' order, recording the state first for undo.
pub fn check_dependency(file_state: &mut FileState, history: &mut HistoryState, checked_dependencies: Vec<u32>)
    ensures
        final(history)@ == recorded(old(history)@, old(file_state)@),
        final(file_state)@ == (EditorStateView {
            tags: change_selected(
                old(file_state)@,
                |b: BlockView| with_dependencies(
                    b,
                    chosen_names(old(file_state)@.dependencies, checked_dependencies@, old(file_state)@.dependencies.len()),
                ),
            ),
            ..touched(old(file_state)@)
        }),
{
    modify_file(file_state, history, true);
    let ghost deps = file_state@.dependencies;
    let mut tag_dependencies: Vec<String> = Vec::new();
    let mut i: usize = 0;
    while i < file_state.dependencies.len()
        invariant
            i <= file_state.dependencies@.len(),
            deps == files_view(file_state.dependencies@),
            strings_view(tag_dependencies@) == chosen_names(deps, checked_dependencies@, i as nat),
        decreases file_state.dependencies@.len() - i,
    {
        if contains_u32(&checked_dependencies, i as u32) {
            let ghost before = tag_dependencies@;
            tag_dependencies.push(file_state.dependencies[i].filename());
            assert(strings_view(tag_dependencies@) =~= strings_view(before).push(full_name(deps[i as int].name, deps[i as int].extension)));
        }
        i = i + 1;
    }
    let ghost names = strings_view(tag_dependencies@);
    if let Some(k) = selected_index(file_state) {
        let tag = &mut file_state.tags[k];
        match tag {
            Block::Agent(t) => {
                t.dependencies = tag_dependencies;
            },
            Block::Egg(t) => {
                t.dependencies = tag_dependencies;
            },
            Block::GardenBox(t) => {
                t.dependencies = tag_dependencies;
            },
            _ => {},
        }
    }
    proof {
        assert(file_state@.tags =~= change_selected(old(file_state)@, |b: BlockView| with_dependencies(b, names)));
    }
}

/// The kinds of file that can be dependencies, by extension.
pub open spec fn supported_extension(ext: Seq<char>) -> bool {
    ext == "cos"@ || ext == "wav"@ || ext == "mng"@ || ext == "c16"@ || ext == "s16"@ || ext == "blk"@ || ext == "gen"@
        || ext == "gno"@ || ext == "att"@ || ext == "catalogue"@
}

/// Whether a file with the extension `ext` can be a dependency.
pub fn is_supported_extension(ext: &str) -> (r: bool)
    ensures
        r == supported_extension(ext@),
{
    str_eq(ext, "cos") || str_eq(ext, "wav") || str_eq(ext, "mng") || str_eq(ext, "c16") || str_eq(ext, "s16")
        || str_eq(ext, "blk") || str_eq(ext, "gen") || str_eq(ext, "gno") || str_eq(ext, "att") || str_eq(ext, "catalogue")
}

/// The error for a file of a kind that cannot be a dependency.
pub open spec fn unsupported_message(dependency_name: Seq<char>) -> Seq<char> {
    "\""@ + dependency_name + "\" is not a supported file type"@
}

/// Begins adding the file at `path` as a dependency, recording the state first for
/// undo and marking the file changed: gives the name and the lower-case extension to
/// add it under, or `None` where a dependency already has that file name; an error where
/// the extension is not that of a kind of dependency.
pub fn add_dependency_from_path(file_state: &mut FileState, history: &mut HistoryState, path: &str) -> (r: Result<Option<(String, String)>, Error>)
    ensures
        final(history)@ == recorded(old(history)@, old(file_state)@),
        final(file_state)@ == touched(old(file_state)@),
        ({
            let extension = ascii_lowercase(or_empty(path_extension(path@)));
            let name = or_empty(path_file_stem(path@));
            let dependency_name = full_name(name, extension);
            if !supported_extension(extension) {
                r matches Err(Error::Other(m)) && m@ == unsupported_message(dependency_name)
            } else if file_names(old(file_state)@.dependencies).contains(dependency_name) {
                r matches Ok(None)
            } else {
                r matches Ok(Some((n, e))) && n@ == name && e@ == extension
            }
        }),
{
    modify_file(file_state, history, true);
    let raw_extension = extension(path);
    let ext = to_ascii_lowercase(raw_extension.as_str());
    let name = title(path);
    let mut dependency_name = to_owned(name.as_str());
    push_char(&mut dependency_name, '.');
    push_str(&mut dependency_name, ext.as_str());
    if is_supported_extension(ext.as_str()) {
        let names = dependency_names(file_state.dependencies.as_slice());
        if contains_name(&names, dependency_name.as_str()) {
            Ok(None)
        } else {
            Ok(Some((name, ext)))
        }
    } else {
        let mut message = to_owned("\"");
        push_str(&mut message, dependency_name.as_str());
        push_str(&mut message, "\" is not a supported file type");
        Err(Error::Other(message))
    }
}

/// Adds a dependency and sorts the dependencies again.
pub fn push_dependency(file_state: &mut FileState, dependency: File)
    ensures
        final(file_state).dependencies@.to_multiset() == old(file_state).dependencies@.push(dependency).to_multiset(),
        sorted_by_key(final(file_state)@.dependencies),
        final(file_state)@ == (EditorStateView { dependencies: final(file_state)@.dependencies, ..old(file_state)@ }),
{
    file_state.dependencies.push(dependency);
    sort_dependencies(&mut file_state.dependencies);
}

/// A tag that names one more dependency: an agent, an egg or a garden box item; any
/// other block as it is.
pub open spec fn dependency_named(b: BlockView, name: Seq<char>) -> BlockView {
    with_dependencies(b, tag_dependencies(b).push(name))
}

/// Makes the selected tag name one more dependency, then checks the dependencies it
/// names; gives, where a tag is selected, for each name of the tag in turn, the places
/// of the dependencies with that file name.
pub fn name_dependency(file_state: &mut FileState, dependency_name: String) -> (r: Option<Vec<u32>>)
    ensures
        match selected_place(old(file_state)@) {
            Some(i) => {
                let t = dependency_named(old(file_state)@.tags[i], dependency_name@);
                &&& r matches Some(c) && c@ == checked_indices(tag_dependencies(t), old(file_state)@.dependencies)
                &&& final(file_state)@ == (EditorStateView {
                    tags: old(file_state)@.tags.update(i, t),
                    dependencies: marked(old(file_state)@.dependencies, tag_dependencies(t)),
                    ..old(file_state)@
                })
            },
            None => r is None && final(file_state)@ == old(file_state)@,
        },
{
    if let Some(i) = selected_index(file_state) {
        let tag = &mut file_state.tags[i];
        match tag {
            Block::Agent(t) => {
                t.dependencies.push(dependency_name);
            },
            Block::Egg(t) => {
                t.dependencies.push(dependency_name);
            },
            Block::GardenBox(t) => {
                t.dependencies.push(dependency_name);
            },
            _ => {},
        }
        proof {
            let t = dependency_named(old(file_state)@.tags[i as int], dependency_name@);
            match file_state.tags@[i as int] {
                Block::Agent(a) => assert(strings_view(a.dependencies@) =~= tag_dependencies(old(file_state)@.tags[i as int]).push(dependency_name@)),
                Block::Egg(e) => assert(strings_view(e.dependencies@) =~= tag_dependencies(old(file_state)@.tags[i as int]).push(dependency_name@)),
                Block::GardenBox(g) => assert(strings_view(g.dependencies@) =~= tag_dependencies(old(file_state)@.tags[i as int]).push(dependency_name@)),
                _ => {},
            }
            assert(file_state@.tags =~= old(file_state)@.tags.update(i as int, t));
        }
        let checked_dependencies = check_dependencies_for_tag(&file_state.tags[i], &mut file_state.dependencies);
        Some(checked_dependencies)
    } else {
        None
    }
}

/// The dependencies whose places, as 32-bit numbers, `selected` does not hold, in order.
pub open spec fn unselected(deps: Seq<FileView>, selected: Seq<u32>, k: nat) -> Seq<FileView>
    decreases k,
{
    if k == 0 {
        Seq::empty()
    } else {
        unselected(deps, selected, (k - 1) as nat) + if selected.contains(#[verifier::truncate] ((k - 1) as u32)) {
            Seq::empty()
        } else {
            seq![deps[k - 1]]
        }
    }
}

/// Removes the dependencies whose places `selected_dependencies` holds, recording the
/// state first for undo, and empties the tags' references to files that are gone.
pub fn remove_dependency(file_state: &mut FileState, history: &mut HistoryState, selected_dependencies: &Vec<u32>)
    ensures
        final(history)@ == recorded(old(history)@, old(file_state)@),
        ({
            let kept_deps = unselected(old(file_state)@.dependencies, selected_dependencies@, old(file_state)@.dependencies.len());
            final(file_state)@ == (EditorStateView {
                dependencies: kept_deps,
                tags: Seq::new(old(file_state)@.tags.len(), |i: int| pruned(old(file_state)@.tags[i], file_names(kept_deps))),
                ..touched(old(file_state)@)
            })
        }),
{
    modify_file(file_state, history, true);
    let ghost deps = file_state@.dependencies;
    let mut new_dependencies: Vec<File> = Vec::new();
    let mut i: usize = 0;
    while i < file_state.dependencies.len()
        invariant
            i <= file_state.dependencies@.len(),
            deps == files_view(file_state.dependencies@),
            files_view(new_dependencies@) == unselected(deps, selected_dependencies@, i as nat),
        decreases file_state.dependencies@.len() - i,
    {
        if !contains_u32(selected_dependencies, i as u32) {
            let ghost before = new_dependencies@;
            new_dependencies.push(file_state.dependencies[i].copy());
            assert(files_view(new_dependencies@) =~= files_view(before).push(deps[i as int]));
        }
        i = i + 1;
    }
    remove_missing_dependencies(&mut file_state.tags, new_dependencies.as_slice());
    file_state.dependencies = new_dependencies;
}

/// Replaces the data of the dependency at `index`, where there is one.
pub fn set_dependency_data(file_state: &mut FileState, index: usize, data: Vec<u8>)
    ensures
        final(file_state)@ == (EditorStateView {
            dependencies: if index < old(file_state)@.dependencies.len() {
                old(file_state)@.dependencies.update(index as int, FileView { data: data@, ..old(file_state)@.dependencies[index as int] })
            } else {
                old(file_state)@.dependencies
            },
            ..old(file_state)@
        }),
{
    if index < file_state.dependencies.len() {
        let mut d = file_state.dependencies.remove(index);
        d.data = data;
        file_state.dependencies.insert(index, d);
        assert(file_state@.dependencies =~= old(file_state)@.dependencies.update(
            index as int,
            FileView { data: data@, ..old(file_state)@.dependencies[index as int] },
        ));
    }
}

/// What is shown of a dependency.
pub struct DependencyInfo {
    pub index: usize,
    pub filename: String,
    pub text: String,
    pub framecount: usize,
}

/// The information shown for the dependency at `index`: its file name; for a script or
/// a catalogue, its text (invalid UTF-8 sequences replaced); for a sprite or a
/// background, its number of frames, as given; for anything else, nothing more.
pub fn dependency_info(index: usize, dependency: &File, framecount: usize) -> (r: DependencyInfo)
    ensures
        r.index == index,
        r.filename@ == full_name(dependency@.name, dependency@.extension),
        ({
            let e = dependency@.extension;
            if e == "cos"@ || e == "catalogue"@ {
                r.text@ == utf8_lossy(dependency@.data) && r.framecount == 0
            } else if e == "c16"@ || e == "s16"@ || e == "blk"@ {
                r.text@ == Seq::<char>::empty() && r.framecount == framecount
            } else {
                r.text@ == Seq::<char>::empty() && r.framecount == 0
            }
        }),
{
    let ext = dependency.extension.as_str();
    if str_eq(ext, "cos") || str_eq(ext, "catalogue") {
        DependencyInfo { index, filename: dependency.filename(), text: lossy_text(dependency.data.as_slice()), framecount: 0 }
    } else if str_eq(ext, "c16") || str_eq(ext, "s16") || str_eq(ext, "blk") {
        DependencyInfo { index, filename: dependency.filename(), text: String::new(), framecount }
    } else {
        DependencyInfo { index, filename: dependency.filename(), text: String::new(), framecount: 0 }
    }
}

/// The file name offered when exporting a dependency: a PNG image named after it for a
/// sprite or background (by its extension in lower case), else a text file named after
/// its name and extension.
pub fn export_file_name(dependency: &File) -> (r: String)
    ensures
        ({
            let e = ascii_lowercase(dependency@.extension);
            if e == "c16"@ || e == "s16"@ || e == "blk"@ {
                r@ == dependency@.name + ".png"@
            } else {
                r@ == dependency@.name.push('_') + dependency@.extension + ".txt"@
            }
        }),
{
    let e = to_ascii_lowercase(dependency.extension.as_str());
    let mut r = to_owned(dependency.name.as_str());
    if str_eq(e.as_str(), "c16") || str_eq(e.as_str(), "s16") || str_eq(e.as_str(), "blk") {
        push_str(&mut r, ".png");
    } else {
        push_char(&mut r, '_');
        push_str(&mut r, dependency.extension.as_str());
        push_str(&mut r, ".txt");
    }
    r
}

/// The question asked before extracting over `count` existing files, the first of them
/// named `first`: its title, then its text.
pub open spec fn overwrite_question(count: u32, first: Seq<char>) -> (Seq<char>, Seq<char>) {
    (
        if count == 1 { "Overwrite File"@ } else { "Overwrite Files"@ },
        if count == 1 {
            "Ok to overwrite \""@ + first + "\"?"@
        } else if count == 2 {
            "Ok to overwrite \""@ + first + "\" and 1 other file?"@
        } else {
            "Ok to overwrite \""@ + first + "\" and "@ + decimal((count - 1) as nat) + " other files?"@
        },
    )
}

/// The question asked before extracting over `count` (at least one) existing files, the
/// first of them named `first`.
pub fn overwrite_message(count: u32, first: &str) -> (r: (String, String))
    requires
        count >= 1,
    ensures
        (r.0@, r.1@) == overwrite_question(count, first@),
{
    let title = if count == 1 { to_owned("Overwrite File") } else { to_owned("Overwrite Files") };
    let mut text = to_owned("Ok to overwrite \"");
    push_str(&mut text, first);
    if count == 1 {
        push_str(&mut text, "\"?");
    } else if count == 2 {
        push_str(&mut text, "\" and 1 other file?");
    } else {
        push_str(&mut text, "\" and ");
        push_str(&mut text, decimal_string((count - 1) as u64).as_str());
        push_str(&mut text, " other files?");
    }
    (title, text)
}


/// Where a dependency is reloaded from: `Long` is the folder named after the agent file,
/// beside it; `Short` is beside the agent file.
pub enum ReloadPath {
    Long,
    Short,
}

/// The place a dependency is reloaded from, given whether a file of its name is there in
/// each: the folder named after the agent file first, then beside it; none where neither.
pub open spec fn chosen_reload_path(long_exists: bool, short_exists: bool) -> Option<ReloadPath> {
    if long_exists {
        Some(ReloadPath::Long)
    } else if short_exists {
        Some(ReloadPath::Short)
    } else {
        None
    }
}

/// Chooses the place a dependency is reloaded from, given whether a file of its name is
/// in the folder named after the agent file and whether one is beside it.
pub fn reload_path(long_exists: bool, short_exists: bool) -> (r: Option<ReloadPath>)
    ensures
        r == chosen_reload_path(long_exists, short_exists),
{
    if long_exists {
        Some(ReloadPath::Long)
    } else if short_exists {
        Some(ReloadPath::Short)
    } else {
        None
    }
}

/// The question asked before reloading the dependencies at the places `selected`: its
/// title, then its text, which names the one dependency (`?` where there is none at that
/// place) or counts them.
pub open spec fn reload_question(deps: Seq<FileView>, selected: Seq<usize>) -> (Seq<char>, Seq<char>) {
    if selected.len() == 1 {
        (
            "Reload Dependency"@,
            "Replace \""@ + (if selected[0] < deps.len() {
                full_name(deps[selected[0] as int].name, deps[selected[0] as int].extension)
            } else {
                "?"@
            }) + "\" in agent with version from disk?"@,
        )
    } else {
        ("Reload Dependencies"@, "Replace "@ + decimal(selected.len()) + " dependencies in agent with versions from disk?"@)
    }
}

/// The error given where the agent file has not been saved, so that nothing can be
/// reloaded from beside it.
pub open spec fn unsaved_reload_message() -> Seq<char> {
    "Agent file must be saved before reloading dependencies."@
}

/// The question asked before reloading the dependencies at the places `selected`, where
/// the agent file is saved (`saved`); else the error that it must be saved first.
pub fn reload_prompt(dependencies: &[File], selected: &[usize], saved: bool) -> (r: Result<(String, String), Error>)
    ensures
        saved ==> (r matches Ok(q) && (q.0@, q.1@) == reload_question(files_view(dependencies@), selected@)),
        !saved ==> (r matches Err(Error::Other(m)) && m@ == unsaved_reload_message()),
{
    if !saved {
        return Err(Error::Other(to_owned("Agent file must be saved before reloading dependencies.")));
    }
    let ghost deps = files_view(dependencies@);
    if selected.len() == 1 {
        let mut text = to_owned("Replace \"");
        if selected[0] < dependencies.len() {
            assert(deps[selected[0] as int] == dependencies@[selected[0] as int]@);
            let name = dependencies[selected[0]].filename();
            push_str(&mut text, name.as_str());
        } else {
            push_str(&mut text, "?");
        }
        push_str(&mut text, "\" in agent with version from disk?");
        Ok((to_owned("Reload Dependency"), text))
    } else {
        let mut text = to_owned("Replace ");
        push_str(&mut text, decimal_string(selected.len() as u64).as_str());
        push_str(&mut text, " dependencies in agent with versions from disk?");
        Ok((to_owned("Reload Dependencies"), text))
    }
}

/// The notification shown once `count` dependencies have been reloaded.
pub fn reload_notice(count: usize) -> (r: String)
    ensures
        r@ == if count == 1 { "Dependency reloaded"@ } else { "Dependencies reloaded"@ },
{
    if count == 1 {
        to_owned("Dependency reloaded")
    } else {
        to_owned("Dependencies reloaded")
    }
}

/// The data read back, where there is any, of each place's dependency.
pub open spec fn reload_data_view(v: Seq<Option<Vec<u8>>>) -> Seq<Option<Seq<u8>>> {
    Seq::new(v.len(), |i: int| match v[i] { Some(d) => Some(d@), None => None })
}

/// The dependencies with the data of each replaced by what was read back for its place,
/// where anything was.
pub open spec fn reloaded(deps: Seq<FileView>, new_data: Seq<Option<Seq<u8>>>) -> Seq<FileView> {
    Seq::new(deps.len(), |i: int|
        if i < new_data.len() && new_data[i] is Some {
            FileView { data: new_data[i]->Some_0, ..deps[i] }
        } else {
            deps[i]
        })
}

/// Replaces the data of each dependency by what was read back for its place, where
/// anything was, recording the state first for undo.
pub fn reload_dependencies(file_state: &mut FileState, history: &mut HistoryState, new_data: Vec<Option<Vec<u8>>>)
    ensures
        final(history)@ == recorded(old(history)@, old(file_state)@),
        final(file_state)@ == (EditorStateView {
            dependencies: reloaded(old(file_state)@.dependencies, reload_data_view(new_data@)),
            ..touched(old(file_state)@)
        }),
{
    modify_file(file_state, history, true);
    let ghost start = file_state@;
    let ghost nd = reload_data_view(new_data@);
    let mut rest = new_data;
    assert(reload_data_view(rest@) =~= nd.take(rest@.len() as int));
    assert(start.dependencies =~= Seq::new(start.dependencies.len(), |i: int|
        if rest@.len() <= i < nd.len() && nd[i] is Some {
            FileView { data: nd[i]->Some_0, ..start.dependencies[i] }
        } else {
            start.dependencies[i]
        }));
    while rest.len() > 0
        invariant
            rest@.len() <= nd.len(),
            reload_data_view(rest@) == nd.take(rest@.len() as int),
            file_state@ == (EditorStateView {
                dependencies: Seq::new(start.dependencies.len(), |i: int|
                    if rest@.len() <= i < nd.len() && nd[i] is Some {
                        FileView { data: nd[i]->Some_0, ..start.dependencies[i] }
                    } else {
                        start.dependencies[i]
                    }),
                ..start
            }),
        decreases rest@.len(),
    {
        let k = rest.len() - 1;
        let ghost before = file_state@;
        let ghost rest_before = rest@;
        let item = rest.pop();
        assert(rest@ =~= rest_before.take(k as int));
        assert(reload_data_view(rest@) =~= nd.take(k as int)) by {
            assert forall|i: int| 0 <= i < k implies #[trigger] reload_data_view(rest@)[i] == nd.take(k as int)[i] by {
                assert(reload_data_view(rest_before)[i] == nd.take(k + 1)[i]);
            }
        }
        assert(reload_data_view(rest_before)[k as int] == nd[k as int]);
        if let Some(Some(d)) = item {
            let ghost dv = d@;
            set_dependency_data(file_state, k, d);
            assert(file_state@.dependencies =~= Seq::new(start.dependencies.len(), |i: int|
                if k <= i < nd.len() && nd[i] is Some {
                    FileView { data: nd[i]->Some_0, ..start.dependencies[i] }
                } else {
                    start.dependencies[i]
                }));
        } else {
            assert(before.dependencies =~= Seq::new(start.dependencies.len(), |i: int|
                if k <= i < nd.len() && nd[i] is Some {
                    FileView { data: nd[i]->Some_0, ..start.dependencies[i] }
                } else {
                    start.dependencies[i]
                }));
        }
    }
    assert(file_state@.dependencies =~= reloaded(start.dependencies, nd));
}

} // verus!
