//! Info blocks: named integers, then named strings, each name at most once once read.
use vstd::prelude::*;
use crate::buffer::ByteReader;
use crate::format::pray::{TagView, tag_block_bytes, spec_read_tag_block, read_tag_block, write_tag_block, int_entries_view, str_entries_view};
use crate::text::{str_eq, to_owned};

verus! {

/// A named integer.
pub struct IntValue(pub String, pub u32);

/// A named string.
pub struct StrValue(pub String, pub String);

/// The value under a name of an info block.
pub enum InfoValue {
    Int(u32),
    Str(String),
}

/// The value of an `InfoValue`.
pub enum InfoValueView {
    Int(u32),
    Str(Seq<char>),
}

impl View for InfoValue {
    type V = InfoValueView;

    open spec fn view(&self) -> InfoValueView {
        match self {
            InfoValue::Int(v) => InfoValueView::Int(*v),
            InfoValue::Str(s) => InfoValueView::Str(s@),
        }
    }
}

/// The names and values of named integers.
pub open spec fn int_values_view(v: Seq<IntValue>) -> Seq<(Seq<char>, u32)> {
    Seq::new(v.len(), |i: int| (v[i].0@, v[i].1))
}

/// The names and values of named strings.
pub open spec fn str_values_view(v: Seq<StrValue>) -> Seq<(Seq<char>, Seq<char>)> {
    Seq::new(v.len(), |i: int| (v[i].0@, v[i].1@))
}

/// The names and values of an info block as read.
pub open spec fn info_view(v: Seq<(String, InfoValue)>) -> Seq<(Seq<char>, InfoValueView)> {
    Seq::new(v.len(), |i: int| (v[i].0@, v[i].1@))
}

/// Whether no name occurs twice.
pub open spec fn distinct_names(m: Seq<(Seq<char>, InfoValueView)>) -> bool {
    forall|i: int, j: int| 0 <= i < j < m.len() ==> (#[trigger] m[i]).0 != (#[trigger] m[j]).0
}

/// `m` with `key` set to `v`: in its place where the name is there, else at the end.
pub open spec fn info_inserted(m: Seq<(Seq<char>, InfoValueView)>, key: Seq<char>, v: InfoValueView) -> Seq<(Seq<char>, InfoValueView)> {
    if exists|i: int| 0 <= i < m.len() && (#[trigger] m[i]).0 == key {
        let i = choose|i: int| 0 <= i < m.len() && (#[trigger] m[i]).0 == key;
        m.update(i, (key, v))
    } else {
        m.push((key, v))
    }
}

/// The names and values after setting the named integers in turn.
pub open spec fn info_from_ints(m: Seq<(Seq<char>, InfoValueView)>, ints: Seq<(Seq<char>, u32)>) -> Seq<(Seq<char>, InfoValueView)>
    decreases ints.len(),
{
    if ints.len() == 0 {
        m
    } else {
        info_inserted(info_from_ints(m, ints.drop_last()), ints.last().0, InfoValueView::Int(ints.last().1))
    }
}

/// The names and values after setting the named strings in turn.
pub open spec fn info_from_strs(m: Seq<(Seq<char>, InfoValueView)>, strs: Seq<(Seq<char>, Seq<char>)>) -> Seq<(Seq<char>, InfoValueView)>
    decreases strs.len(),
{
    if strs.len() == 0 {
        m
    } else {
        info_inserted(info_from_strs(m, strs.drop_last()), strs.last().0, InfoValueView::Str(strs.last().1))
    }
}

/// The names and values of an info block: its integers, then its strings, a later
/// value taking the place of an earlier one of the same name.
pub open spec fn info_of(t: TagView) -> Seq<(Seq<char>, InfoValueView)> {
    info_from_strs(info_from_ints(Seq::empty(), t.ints), t.strs)
}

/// The bytes of an info block holding the given named integers and named strings.
pub fn write_info_block(int_values: Vec<IntValue>, str_values: Vec<StrValue>) -> (r: Vec<u8>)
    ensures
        r@ == tag_block_bytes(TagView { ints: int_values_view(int_values@), strs: str_values_view(str_values@) }),
{
    let mut ints: Vec<(String, u32)> = Vec::new();
    let mut i: usize = 0;
    while i < int_values.len()
        invariant
            i <= int_values@.len(),
            int_entries_view(ints@) == int_values_view(int_values@).take(i as int),
            ints@.len() == i,
        decreases int_values@.len() - i,
    {
        let ghost prev = ints@;
        let name = to_owned(int_values[i].0.as_str());
        ints.push((name, int_values[i].1));
        assert(ints@ == prev.push((name, int_values@[i as int].1)));
        assert(prev.len() == i);
        assert forall|k: int| 0 <= k < i + 1 implies #[trigger] int_entries_view(ints@)[k] == int_values_view(int_values@).take(i + 1)[k] by {
            if k < i {
                assert(ints@[k] == prev[k]);
                assert(int_entries_view(prev)[k] == int_values_view(int_values@).take(i as int)[k]);
            }
        }
        assert(int_entries_view(ints@) =~= int_values_view(int_values@).take(i + 1));
        i = i + 1;
    }
    let mut strs: Vec<(String, String)> = Vec::new();
    let mut j: usize = 0;
    while j < str_values.len()
        invariant
            j <= str_values@.len(),
            str_entries_view(strs@) == str_values_view(str_values@).take(j as int),
            strs@.len() == j,
        decreases str_values@.len() - j,
    {
        let ghost prev = strs@;
        let name = to_owned(str_values[j].0.as_str());
        let value = to_owned(str_values[j].1.as_str());
        strs.push((name, value));
        assert(strs@ == prev.push((name, value)));
        assert(prev.len() == j);
        assert forall|k: int| 0 <= k < j + 1 implies #[trigger] str_entries_view(strs@)[k] == str_values_view(str_values@).take(j + 1)[k] by {
            if k < j {
                assert(strs@[k] == prev[k]);
                assert(str_entries_view(prev)[k] == str_values_view(str_values@).take(j as int)[k]);
            }
        }
        assert(str_entries_view(strs@) =~= str_values_view(str_values@).take(j + 1));
        j = j + 1;
    }
    assert(int_values_view(int_values@).take(i as int) =~= int_values_view(int_values@));
    assert(str_values_view(str_values@).take(j as int) =~= str_values_view(str_values@));
    write_tag_block(ints.as_slice(), strs.as_slice())
}

fn copy_value(v: &InfoValue) -> (r: InfoValue)
    ensures
        r@ == v@,
{
    match v {
        InfoValue::Int(x) => InfoValue::Int(*x),
        InfoValue::Str(s) => InfoValue::Str(to_owned(s.as_str())),
    }
}

/// Sets `key` to `value` in `info`.
fn insert_info(info: &mut Vec<(String, InfoValue)>, key: &str, value: InfoValue)
    requires
        distinct_names(info_view(old(info)@)),
    ensures
        info_view(final(info)@) == info_inserted(info_view(old(info)@), key@, value@),
        distinct_names(info_view(final(info)@)),
{
    let ghost m = info_view(info@);
    let mut i: usize = 0;
    while i < info.len()
        invariant
            i <= info@.len(),
            m == info_view(info@),
            info@ == old(info)@,
            distinct_names(m),
            forall|k: int| 0 <= k < i ==> (#[trigger] m[k]).0 != key@,
        decreases info@.len() - i,
    {
        if str_eq(info[i].0.as_str(), key) {
            let ghost c = choose|c: int| 0 <= c < m.len() && (#[trigger] m[c]).0 == key@;
            proof {
                assert(m[i as int].0 == key@);
                assert(c == i) by {
                    if c != i {
                        if c < i {
                            assert(m[c].0 != key@);
                        } else {
                            assert(m[i as int].0 != m[c].0);
                        }
                    }
                }
            }
            let name = to_owned(key);
            let ghost vv = value@;
            info.set(i, (name, value));
            assert(info_view(info@) =~= m.update(i as int, (key@, vv)));
            assert(info_inserted(m, key@, vv) == m.update(c, (key@, vv)));
            assert(vv == value@);
            assert(m == info_view(old(info)@));
            assert(info_view(info@) == info_inserted(info_view(old(info)@), key@, value@));
            return;
        }
        i = i + 1;
    }
    info.push((to_owned(key), value));
    assert(info_view(info@) =~= m.push((key@, value@)));
}

/// Reads an info block: the named integers, then the named strings, a later value
/// taking the place of an earlier one of the same name.
pub fn read_info_block(buffer: &mut ByteReader) -> (r: Vec<(String, InfoValue)>)
    requires
        spec_read_tag_block(old(buffer)@) is Ok,
    ensures
        ({
            let (t, rest) = spec_read_tag_block(old(buffer)@)->Ok_0;
            &&& info_view(r@) == info_of(t)
            &&& final(buffer)@ == rest
        }),
        distinct_names(info_view(r@)),
{
    let tag = match read_tag_block(buffer) {
        Ok(t) => t,
        Err(_) => {
            return Vec::new();
        },
    };
    let ghost t = tag@;
    let mut info: Vec<(String, InfoValue)> = Vec::new();
    let mut i: usize = 0;
    assert(info_view(info@) =~= Seq::<(Seq<char>, InfoValueView)>::empty());
    while i < tag.int_values.len()
        invariant
            i <= tag.int_values@.len(),
            t == tag@,
            info_view(info@) == info_from_ints(Seq::empty(), t.ints.take(i as int)),
            distinct_names(info_view(info@)),
        decreases tag.int_values@.len() - i,
    {
        insert_info(&mut info, tag.int_values[i].0.as_str(), InfoValue::Int(tag.int_values[i].1));
        assert(t.ints.take(i + 1).drop_last() =~= t.ints.take(i as int));
        i = i + 1;
    }
    assert(t.ints.take(i as int) =~= t.ints);
    let mut j: usize = 0;
    while j < tag.str_values.len()
        invariant
            j <= tag.str_values@.len(),
            t == tag@,
            info_view(info@) == info_from_strs(info_from_ints(Seq::empty(), t.ints), t.strs.take(j as int)),
            distinct_names(info_view(info@)),
        decreases tag.str_values@.len() - j,
    {
        let value = InfoValue::Str(to_owned(tag.str_values[j].1.as_str()));
        insert_info(&mut info, tag.str_values[j].0.as_str(), value);
        assert(t.strs.take(j + 1).drop_last() =~= t.strs.take(j as int));
        j = j + 1;
    }
    assert(t.strs.take(j as int) =~= t.strs);
    info
}

} // verus!
