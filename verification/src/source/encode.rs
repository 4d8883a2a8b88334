//! Writing a whole Theist source: every tag, then the files that the tags use, listed
//! by kind and name.
use vstd::prelude::*;
use crate::agent::tag::{Tag, tag_source};
use crate::agent::file::{CreaturesFile, output_filename, used_places, used_by, category_id, filetype_of};
use crate::agent::tag::file_list;
use crate::file_helper::{or_empty, path_extension};
use crate::text::{decimal, decimal_string, push_str, chars_lt, chars_less, lemma_chars_lt_irreflexive,
    lemma_chars_lt_asymmetric, lemma_chars_lt_total, lemma_chars_lt_transitive};
use crate::error::Error;
use super::file::file_source;

verus! {

/// The key a file is listed by: the place of its kind, a space, and its name.
pub open spec fn file_sort_key(f: CreaturesFile) -> Seq<char> {
    decimal(category_id(or_empty(path_extension(output_filename(f)))) as nat) + " "@ + output_filename(f)
}

/// Whether the file at `a` is listed before the file at `b`: by key, and where the keys
/// agree, by place.
pub open spec fn listed_before(files: Seq<CreaturesFile>, a: usize, b: usize) -> bool {
    let ka = file_sort_key(files[a as int]);
    let kb = file_sort_key(files[b as int]);
    chars_lt(ka, kb) || (ka == kb && a < b)
}

/// Whether no place in `order` is listed before one in front of it.
pub open spec fn in_listing_order(files: Seq<CreaturesFile>, order: Seq<usize>) -> bool {
    forall|i: int, j: int| 0 <= i < j < order.len() ==> !listed_before(files, #[trigger] order[j], #[trigger] order[i])
}

/// The places of the files that some tag uses, in order.
pub open spec fn used_list(tags: Seq<Tag>, files: Seq<CreaturesFile>) -> Seq<usize> {
    used_places(tags, files, files.len()).map_values(|p: int| p as usize)
}

/// The source text of the tags, one after the other.
pub open spec fn tags_text(tags: Seq<Tag>, files: Seq<CreaturesFile>) -> Seq<char>
    decreases tags.len(),
{
    if tags.len() == 0 {
        Seq::empty()
    } else {
        tags_text(tags.drop_last(), files) + tag_source(tags.last(), files)
    }
}

/// The source lines of the files at the places in `order`, one after the other.
pub open spec fn files_text(files: Seq<CreaturesFile>, order: Seq<usize>) -> Seq<char>
    decreases order.len(),
{
    if order.len() == 0 {
        Seq::empty()
    } else {
        files_text(files, order.drop_last()) + file_source(files[order.last() as int])
    }
}

/// The source text of the tags and of the files listed in `order`.
pub open spec fn source_text(tags: Seq<Tag>, files: Seq<CreaturesFile>, order: Seq<usize>) -> Seq<char> {
    tags_text(tags, files) + "\n"@ + "files\n"@ + files_text(files, order)
}

proof fn lemma_used_places_bounded(tags: Seq<Tag>, files: Seq<CreaturesFile>, k: nat)
    requires
        k <= files.len(),
    ensures
        forall|i: int| 0 <= i < used_places(tags, files, k).len() ==> 0 <= #[trigger] used_places(tags, files, k)[i] < k,
        forall|i: int, j: int| 0 <= i < j < used_places(tags, files, k).len()
            ==> #[trigger] used_places(tags, files, k)[i] < #[trigger] used_places(tags, files, k)[j],
    decreases k,
{
    if k > 0 {
        lemma_used_places_bounded(tags, files, (k - 1) as nat);
        let prev = used_places(tags, files, (k - 1) as nat);
        let cur = used_places(tags, files, k);
        assert forall|i: int| 0 <= i < cur.len() implies 0 <= #[trigger] cur[i] < k by {
            if i < prev.len() {
                assert(cur[i] == prev[i]);
            }
        }
        assert forall|i: int, j: int| 0 <= i < j < cur.len() implies #[trigger] cur[i] < #[trigger] cur[j] by {
            assert(cur[i] == prev[i]);
            if j < prev.len() {
                assert(cur[j] == prev[j]);
            } else {
                assert(0 <= prev[i] < k - 1);
            }
        }
    }
}

/// The places of the files that some tag uses, in order.
pub(crate) fn used_file_places(tags: &Vec<Tag>, files: &Vec<CreaturesFile>) -> (r: Vec<usize>)
    ensures
        r@ == used_list(tags@, files@),
        r@.no_duplicates(),
        forall|i: int| 0 <= i < r@.len() ==> #[trigger] r@[i] < files@.len(),
{
    let mut places: Vec<usize> = Vec::new();
    let mut i: usize = 0;
    while i < files.len()
        invariant
            i <= files@.len(),
            places@ == used_places(tags@, files@, i as nat).map_values(|p: int| p as usize),
        decreases files@.len() - i,
    {
        let ft = files[i].get_filetype();
        let mut is_used = false;
        let mut t: usize = 0;
        while t < tags.len()
            invariant
                t <= tags@.len(),
                i < files@.len(),
                ft == filetype_of(files@[i as int]),
                is_used == exists|u: int| 0 <= u < t && (file_list(#[trigger] tags@[u], ft) matches Some(l) && l.contains(i)),
            decreases tags@.len() - t,
        {
            if tags[t].has_file(&ft, i) {
                is_used = true;
            }
            t = t + 1;
        }
        assert(is_used == used_by(tags@, files@[i as int], i as int));
        if is_used {
            places.push(i);
        }
        assert(places@ =~= used_places(tags@, files@, (i + 1) as nat).map_values(|p: int| p as usize));
        i = i + 1;
    }
    proof {
        lemma_used_places_bounded(tags@, files@, files@.len());
        let u = used_places(tags@, files@, files@.len());
        assert forall|a: int, b: int| 0 <= a < places@.len() && 0 <= b < places@.len() && a != b
            implies places@[a] != places@[b] by {
            if a < b {
                assert(u[a] < u[b]);
            } else {
                assert(u[b] < u[a]);
            }
        }
        assert forall|a: int| 0 <= a < places@.len() implies #[trigger] places@[a] < files@.len() by {
            assert(0 <= u[a] < files@.len());
        }
    }
    places
}

fn sort_key(file: &CreaturesFile) -> (r: String)
    ensures
        r@ == file_sort_key(*file),
{
    let category = file.get_category_id();
    let mut key = decimal_string(category as u64);
    push_str(&mut key, " ");
    push_str(&mut key, file.get_output_filename_ref().as_str());
    key
}

fn is_listed_before(files: &Vec<CreaturesFile>, a: usize, b: usize) -> (r: bool)
    requires
        a < files@.len(),
        b < files@.len(),
    ensures
        r == listed_before(files@, a, b),
{
    let ka = sort_key(&files[a]);
    let kb = sort_key(&files[b]);
    if chars_less(ka.as_str(), kb.as_str()) {
        true
    } else if chars_less(kb.as_str(), ka.as_str()) {
        false
    } else {
        proof {
            lemma_chars_lt_total(ka@, kb@);
        }
        a < b
    }
}

proof fn lemma_listed_before_asymmetric(files: Seq<CreaturesFile>, a: usize, b: usize)
    ensures
        listed_before(files, a, b) ==> !listed_before(files, b, a),
{
    let ka = file_sort_key(files[a as int]);
    let kb = file_sort_key(files[b as int]);
    lemma_chars_lt_asymmetric(ka, kb);
    lemma_chars_lt_irreflexive(ka);
}

proof fn lemma_listed_before_total(files: Seq<CreaturesFile>, a: usize, b: usize)
    requires
        a != b,
    ensures
        listed_before(files, a, b) || listed_before(files, b, a),
{
    lemma_chars_lt_total(file_sort_key(files[a as int]), file_sort_key(files[b as int]));
}

proof fn lemma_not_listed_before_transitive(files: Seq<CreaturesFile>, a: usize, b: usize, c: usize)
    requires
        !listed_before(files, b, a),
        !listed_before(files, c, b),
    ensures
        !listed_before(files, c, a),
{
    let ka = file_sort_key(files[a as int]);
    let kb = file_sort_key(files[b as int]);
    let kc = file_sort_key(files[c as int]);
    lemma_chars_lt_total(ka, kb);
    lemma_chars_lt_total(kb, kc);
    lemma_chars_lt_total(ka, kc);
    lemma_chars_lt_irreflexive(ka);
    if chars_lt(ka, kb) && chars_lt(kb, kc) {
        lemma_chars_lt_transitive(ka, kb, kc);
        lemma_chars_lt_asymmetric(ka, kc);
    } else if chars_lt(ka, kb) {
        lemma_chars_lt_asymmetric(ka, kc);
    } else if chars_lt(kb, kc) {
        lemma_chars_lt_asymmetric(ka, kc);
    }
}

proof fn lemma_adjacent_order_pairwise(files: Seq<CreaturesFile>, s: Seq<usize>)
    requires
        forall|k: int| 0 <= k && k + 1 < s.len() ==> !listed_before(files, #[trigger] s[k + 1], s[k]),
    ensures
        in_listing_order(files, s),
{
    assert forall|i: int, j: int| 0 <= i < j < s.len() implies !listed_before(files, #[trigger] s[j], #[trigger] s[i]) by {
        lemma_adjacent_order_from(files, s, i, j);
    }
}

proof fn lemma_adjacent_order_from(files: Seq<CreaturesFile>, s: Seq<usize>, i: int, j: int)
    requires
        forall|k: int| 0 <= k && k + 1 < s.len() ==> !listed_before(files, #[trigger] s[k + 1], s[k]),
        0 <= i < j < s.len(),
    ensures
        !listed_before(files, s[j], s[i]),
    decreases j - i,
{
    if j == i + 1 {
        assert(!listed_before(files, s[i + 1], s[i]));
    } else {
        lemma_adjacent_order_from(files, s, i, j - 1);
        assert(!listed_before(files, s[(j - 1) + 1], s[j - 1]));
        lemma_not_listed_before_transitive(files, s[i], s[j - 1], s[j]);
    }
}

/// Sorts places of files into the order files are listed in: by key, and where the
/// keys agree, by place.
pub(crate) fn sort_places(places: &mut Vec<usize>, files: &Vec<CreaturesFile>)
    requires
        forall|i: int| 0 <= i < old(places)@.len() ==> #[trigger] old(places)@[i] < files@.len(),
    ensures
        final(places)@.to_multiset() == old(places)@.to_multiset(),
        in_listing_order(files@, final(places)@),
{
    broadcast use vstd::seq_lib::to_multiset_remove, vstd::seq_lib::to_multiset_insert;

    let n = places.len();
    if n == 0 {
        return;
    }
    let mut i: usize = 1;
    while i < n
        invariant
            1 <= i <= n,
            places@.len() == n,
            places@.to_multiset() == old(places)@.to_multiset(),
            forall|k: int| 0 <= k < places@.len() ==> #[trigger] places@[k] < files@.len(),
            forall|k: int| 0 <= k && k + 1 < i ==> !listed_before(files@, #[trigger] places@[k + 1], places@[k]),
        decreases n - i,
    {
        let ghost before = places@;
        let x = places.remove(i);
        let mut j: usize = i;
        while j > 0 && is_listed_before(files, x, places[j - 1])
            invariant
                0 <= j <= i < n,
                before.len() == n,
                places@.len() == n - 1,
                places@ == before.remove(i as int),
                x == before[i as int],
                x < files@.len(),
                forall|k: int| 0 <= k < places@.len() ==> #[trigger] places@[k] < files@.len(),
                forall|k: int| j <= k < i ==> listed_before(files@, x, #[trigger] places@[k]),
            decreases j,
        {
            j = j - 1;
        }
        places.insert(j, x);
        proof {
            broadcast use vstd::multiset::group_multiset_axioms;
            assert(places@ == before.remove(i as int).insert(j as int, before[i as int]));
            vstd::seq_lib::to_multiset_remove(before, i as int);
            vstd::seq_lib::to_multiset_insert(before.remove(i as int), j as int, before[i as int]);
            assert(before.to_multiset().count(before[i as int]) > 0) by {
                vstd::seq_lib::to_multiset_contains(before, before[i as int]);
            }
            assert(before.to_multiset().remove(before[i as int]).insert(before[i as int]) =~= before.to_multiset());
            let s = places@;
            assert(s.len() == n);
            assert forall|k: int| 0 <= k < j implies s[k] == before[k] by {}
            assert(s[j as int] == x);
            assert forall|k: int| j < k <= i implies s[k] == before[k - 1] by {}
            assert forall|k: int| i < k < n implies s[k] == before[k] by {}
            assert forall|k: int| 0 <= k < n implies #[trigger] s[k] < files@.len() by {
                if k < j {
                } else if k == j {
                } else if k <= i {
                    assert(s[k] == before[k - 1]);
                } else {
                    assert(s[k] == before[k]);
                }
            }
            assert forall|k: int| 0 <= k && k + 1 < i + 1 implies !listed_before(files@, #[trigger] s[k + 1], s[k]) by {
                if k + 1 < j {
                    assert(s[k] == before[k] && s[k + 1] == before[k + 1]);
                } else if k + 1 == j {
                    assert(s[k + 1] == x);
                    assert(s[k] == before[k]);
                } else if k == j {
                    assert(s[k + 1] == before[k]);
                    assert(places@.len() == n);
                    lemma_listed_before_asymmetric(files@, x, before[k]);
                } else {
                    assert(s[k] == before[k - 1] && s[k + 1] == before[k]);
                    assert(before[(k - 1) + 1] == before[k]);
                }
            }
        }
        i = i + 1;
    }
    proof {
        lemma_adjacent_order_pairwise(files@, places@);
    }
}

proof fn lemma_tags_text_step(tags: Seq<Tag>, files: Seq<CreaturesFile>, i: int)
    requires
        0 <= i < tags.len(),
    ensures
        tags_text(tags.take(i + 1), files) == tags_text(tags.take(i), files) + tag_source(tags[i], files),
{
    assert(tags.take(i + 1).drop_last() =~= tags.take(i));
}

/// Writes the source text of the tags, then, after an empty line and a `files` line,
/// the lines of each file that some tag uses, listed by the place of its kind, then by
/// name, and where both agree, in the order of the files.
pub fn encode(tags: &Vec<Tag>, files: &Vec<CreaturesFile>) -> (r: Result<String, Error>)
    ensures
        r matches Ok(s) && exists|order: Seq<usize>|
            #![trigger source_text(tags@, files@, order)]
            order.to_multiset() == used_list(tags@, files@).to_multiset()
            && in_listing_order(files@, order)
            && s@ == source_text(tags@, files@, order),
{
    let mut content = String::new();
    let mut t: usize = 0;
    while t < tags.len()
        invariant
            t <= tags@.len(),
            content@ == tags_text(tags@.take(t as int), files@),
        decreases tags@.len() - t,
    {
        push_str(&mut content, tags[t].encode(files.as_slice()).as_str());
        proof {
            lemma_tags_text_step(tags@, files@, t as int);
        }
        t = t + 1;
    }
    assert(tags@.take(t as int) =~= tags@);
    push_str(&mut content, "\n");
    push_str(&mut content, "files\n");
    let ghost head = content@;
    let mut places = used_file_places(tags, files);
    let ghost used = places@;
    sort_places(&mut places, files);
    proof {
        assert forall|k: int| 0 <= k < places@.len() implies #[trigger] places@[k] < files@.len() by {
            vstd::seq_lib::to_multiset_contains(places@, places@[k]);
            assert(used.to_multiset().count(places@[k]) > 0);
            vstd::seq_lib::to_multiset_contains(used, places@[k]);
        }
    }
    let mut k: usize = 0;
    while k < places.len()
        invariant
            k <= places@.len(),
            forall|m: int| 0 <= m < places@.len() ==> #[trigger] places@[m] < files@.len(),
            content@ == head + files_text(files@, places@.take(k as int)),
        decreases places@.len() - k,
    {
        let p = places[k];
        match super::file::encode(&files[p]) {
            Ok(text) => {
                push_str(&mut content, text.as_str());
            },
            Err(e) => {
                return Err(e);
            },
        }
        assert(places@.take(k + 1).drop_last() =~= places@.take(k as int));
        k = k + 1;
    }
    assert(places@.take(k as int) =~= places@);
    assert(content@ == source_text(tags@, files@, places@));
    Ok(content)
}

} // verus!
