//! Character and string helpers shared by the text and binary formats.
use vstd::prelude::*;
use vstd::string::*;
use vstd::utf8::*;

verus! {

broadcast use {vstd::utf8::encode_utf8_decode_utf8, vstd::utf8::encode_utf8_valid_utf8};

/// Appends one character to a string with `String::push`. Claims: the string gains that
/// character at its end, as the documentation says.
#[verifier::external_body]
pub(crate) fn push_char(s: &mut String, c: char)
    ensures
        final(s)@ == old(s)@.push(c),
{
    s.push(c)
}

/// Appends a string slice to a string.
pub fn push_str(s: &mut String, t: &str)
    ensures
        final(s)@ == old(s)@ + t@,
{
    s.append(t);
}

/// A new string holding the characters of `t`.
pub fn to_owned(t: &str) -> (r: String)
    ensures
        r@ == t@,
{
    String::from_str(t)
}

/// Calls `std::str::from_utf8` and copies the text out. Claims, as its documentation
/// says: there is a result exactly where the bytes are valid UTF-8, and it is the text
/// they encode.
#[verifier::external_body]
pub(crate) fn utf8_to_string(bytes: &[u8]) -> (r: Option<String>)
    ensures
        r is Some <==> valid_utf8(bytes@),
        r matches Some(s) ==> s@ == decode_utf8(bytes@),
{
    match std::str::from_utf8(bytes) {
        Ok(s) => Some(s.to_string()),
        Err(_) => None,
    }
}

/// Two strings with equal UTF-8 bytes hold equal characters.
pub proof fn lemma_encode_utf8_injective(a: Seq<char>, b: Seq<char>)
    requires
        encode_utf8(a) == encode_utf8(b),
    ensures
        a == b,
{
    encode_utf8_decode_utf8(a);
    encode_utf8_decode_utf8(b);
}

/// Whether two string slices hold the same characters.
pub fn str_eq(a: &str, b: &str) -> (r: bool)
    ensures
        r == (a@ == b@),
{
    let x = a.as_bytes();
    let y = b.as_bytes();
    if x.len() != y.len() {
        return false;
    }
    let mut i: usize = 0;
    while i < x.len()
        invariant
            x.len() == y.len(),
            i <= x.len(),
            x@ == a.spec_bytes(),
            y@ == b.spec_bytes(),
            forall|j: int| 0 <= j < i ==> x@[j] == y@[j],
        decreases x.len() - i,
    {
        if x[i] != y[i] {
            return false;
        }
        i = i + 1;
    }
    assert(x@ =~= y@);
    proof {
        lemma_encode_utf8_injective(a@, b@);
    }
    true
}

/// The characters of the bytes that are neither NUL nor above ASCII, in order.
pub open spec fn ascii_text(s: Seq<u8>) -> Seq<char>
    decreases s.len(),
{
    if s.len() == 0 {
        Seq::empty()
    } else {
        let b = s.last();
        ascii_text(s.drop_last()) + if b != 0 && b < 128 {
            seq![b as char]
        } else {
            Seq::<char>::empty()
        }
    }
}

/// Whether every character is ASCII and none is NUL.
pub open spec fn is_plain_ascii(s: Seq<char>) -> bool {
    forall|i: int| 0 <= i < s.len() ==> 0 < (#[trigger] s[i] as u32) < 128
}

/// The ASCII bytes of plain ASCII characters.
pub open spec fn ascii_bytes(s: Seq<char>) -> Seq<u8> {
    Seq::new(s.len(), |i: int| #[verifier::truncate] ((s[i] as u32) as u8))
}

/// Plain ASCII characters are their own UTF-8 encoding.
pub proof fn lemma_ascii_encode(s: Seq<char>)
    requires
        is_plain_ascii(s),
    ensures
        encode_utf8(s) == ascii_bytes(s),
    decreases s.len(),
{
    if s.len() > 0 {
        lemma_ascii_encode(s.drop_first());
        assert(is_plain_ascii(s.drop_first())) by {
            assert forall|i: int| 0 <= i < s.drop_first().len() implies 0 < (
            #[trigger] s.drop_first()[i] as u32) < 128 by {
                assert(s.drop_first()[i] == s[i + 1]);
            }
        }
        let c = s[0];
        let u = c as u32;
        assert(0 < u < 128);
        assert((u & 0x7f) == u) by (bit_vector)
            requires
                u < 128,
        ;
        assert(encode_scalar(c as u32) == seq![(c as u32) as u8]);
        assert(ascii_bytes(s) =~= seq![(c as u32) as u8] + ascii_bytes(s.drop_first()));
    }
}

/// Reading back the ASCII bytes of plain ASCII characters keeps every character.
pub proof fn lemma_ascii_text_of_ascii_bytes(s: Seq<char>)
    requires
        is_plain_ascii(s),
    ensures
        ascii_text(ascii_bytes(s)) == s,
    decreases s.len(),
{
    if s.len() > 0 {
        let t = s.drop_last();
        assert(is_plain_ascii(t)) by {
            assert forall|i: int| 0 <= i < t.len() implies 0 < (#[trigger] t[i] as u32) < 128 by {
                assert(t[i] == s[i]);
            }
        }
        lemma_ascii_text_of_ascii_bytes(t);
        assert(ascii_bytes(s).drop_last() =~= ascii_bytes(t));
        let c = s.last();
        let u = c as u32;
        assert(0 < u < 128);
        let b = u as u8;
        assert(b as u32 == u);
        assert((u as char) == c) by {
            vstd::utf8::char_u32_cast(c, u);
        }
        assert((b as char) == c);
        assert(s =~= t + seq![c]);
    }
}

/// Trailing NUL bytes add no characters.
pub proof fn lemma_ascii_text_zeros(s: Seq<u8>, n: nat)
    ensures
        ascii_text(s + Seq::new(n, |i: int| 0u8)) == ascii_text(s),
    decreases n,
{
    if n > 0 {
        let z = Seq::new(n, |i: int| 0u8);
        let z1 = Seq::new((n - 1) as nat, |i: int| 0u8);
        assert((s + z).drop_last() =~= s + z1);
        lemma_ascii_text_zeros(s, (n - 1) as nat);
    }
}

/// The ASCII upper case of a character.
pub open spec fn ascii_upper(c: char) -> char {
    if 'a' <= c && c <= 'z' {
        ((c as u32) - 32) as char
    } else {
        c
    }
}

/// The ASCII upper case of each character.
pub open spec fn ascii_uppercase(s: Seq<char>) -> Seq<char> {
    Seq::new(s.len(), |i: int| ascii_upper(s[i]))
}

/// The ASCII upper case of a string.
pub fn to_ascii_uppercase(s: &str) -> (r: String)
    ensures
        r@ == ascii_uppercase(s@),
{
    let mut r = String::new();
    let ghost chars = s@;
    let _n = s.unicode_len();
    for c in it: s.chars()
        invariant
            it.seq() == chars,
            r@ == ascii_uppercase(chars.take(it.index())),
    {
        let u = if 'a' <= c && c <= 'z' {
            (((c as u32) - 32) as u8) as char
        } else {
            c
        };
        push_char(&mut r, u);
        assert(r@ =~= ascii_uppercase(chars.take(it.index() + 1)));
    }
    assert(chars.take(chars.len() as int) =~= chars);
    r
}

/// The ASCII lower case of a character.
pub open spec fn ascii_lower(c: char) -> char {
    if 'A' <= c && c <= 'Z' {
        ((c as u32) + 32) as char
    } else {
        c
    }
}

/// The ASCII lower case of each character.
pub open spec fn ascii_lowercase(s: Seq<char>) -> Seq<char> {
    Seq::new(s.len(), |i: int| ascii_lower(s[i]))
}

/// The ASCII lower case of a string.
pub fn to_ascii_lowercase(s: &str) -> (r: String)
    ensures
        r@ == ascii_lowercase(s@),
{
    let mut r = String::new();
    let ghost chars = s@;
    let _n = s.unicode_len();
    for c in it: s.chars()
        invariant
            it.seq() == chars,
            r@ == ascii_lowercase(chars.take(it.index())),
    {
        let u = if 'A' <= c && c <= 'Z' {
            (((c as u32) + 32) as u8) as char
        } else {
            c
        };
        push_char(&mut r, u);
        assert(r@ =~= ascii_lowercase(chars.take(it.index() + 1)));
    }
    assert(chars.take(chars.len() as int) =~= chars);
    r
}

/// The decimal digits of `n`.
pub open spec fn decimal(n: nat) -> Seq<char>
    decreases n,
{
    if n < 10 {
        seq![(('0' as u32) + n) as char]
    } else {
        decimal(n / 10) + seq![(('0' as u32) + (n % 10)) as char]
    }
}

/// The decimal digits of `n`, as `format!("{}", n)` writes them.
pub fn decimal_string(n: u64) -> (r: String)
    ensures
        r@ == decimal(n as nat),
    decreases n,
{
    if n < 10 {
        let mut r = String::new();
        push_char(&mut r, ((n as u8) + 48) as char);
        r
    } else {
        let mut r = decimal_string(n / 10);
        push_char(&mut r, (((n % 10) as u8) + 48) as char);
        r
    }
}

/// The characters of `s` with each `"` preceded by a backslash.
pub open spec fn escape_quotes(s: Seq<char>) -> Seq<char>
    decreases s.len(),
{
    if s.len() == 0 {
        Seq::empty()
    } else {
        escape_quotes(s.drop_last()) + if s.last() == '"' {
            seq!['\\', '"']
        } else {
            seq![s.last()]
        }
    }
}

/// `s.replace('"', "\\\"")`.
pub fn escape_quotes_string(s: &str) -> (r: String)
    ensures
        r@ == escape_quotes(s@),
{
    let mut r = String::new();
    let ghost chars = s@;
    let _n = s.unicode_len();
    for c in it: s.chars()
        invariant
            it.seq() == chars,
            r@ == escape_quotes(chars.take(it.index())),
    {
        assert(chars.take(it.index() + 1).drop_last() =~= chars.take(it.index()));
        if c == '"' {
            push_char(&mut r, '\\');
            push_char(&mut r, '"');
        } else {
            push_char(&mut r, c);
        }
        assert(r@ =~= escape_quotes(chars.take(it.index() + 1)));
    }
    assert(chars.take(chars.len() as int) =~= chars);
    r
}

/// Whether `s` begins with `prefix`.
pub fn starts_with(s: &str, prefix: &str) -> (r: bool)
    ensures
        r == (prefix@.len() <= s@.len() && s@.take(prefix@.len() as int) == prefix@),
{
    let n = prefix.unicode_len();
    let m = s.unicode_len();
    if n > m {
        return false;
    }
    let mut i: usize = 0;
    while i < n
        invariant
            n == prefix@.len(),
            m == s@.len(),
            n <= m,
            i <= n,
            forall|j: int| 0 <= j < i ==> s@[j] == prefix@[j],
        decreases n - i,
    {
        if s.get_char(i) != prefix.get_char(i) {
            assert(s@.take(n as int)[i as int] != prefix@[i as int]);
            return false;
        }
        i = i + 1;
    }
    assert(s@.take(n as int) =~= prefix@);
    true
}


/// `s` with every occurrence of `from` replaced by `to`, as `str::replace` does: the
/// occurrences are found from the start, one after another without overlapping.
pub open spec fn str_replaced(s: Seq<char>, from: Seq<char>, to: Seq<char>) -> Seq<char>
    decreases s.len(),
{
    if s.len() == 0 {
        Seq::empty()
    } else if 0 < from.len() <= s.len() && s.take(from.len() as int) == from {
        to + str_replaced(s.skip(from.len() as int), from, to)
    } else {
        seq![s[0]] + str_replaced(s.drop_first(), from, to)
    }
}

fn starts_at(s: &Vec<char>, i: usize, from: &Vec<char>) -> (r: bool)
    requires
        i <= s@.len(),
    ensures
        r == (from@.len() <= s@.len() - i && s@.skip(i as int).take(from@.len() as int) == from@),
{
    if from.len() > s.len() - i {
        return false;
    }
    let n = s.len();
    let mut k: usize = 0;
    while k < from.len()
        invariant
            k <= from@.len() <= s@.len() - i,
            i <= s@.len(),
            n == s@.len(),
            forall|m: int| 0 <= m < k ==> s@[i + m] == from@[m],
        decreases from@.len() - k,
    {
        if s[i + k] != from[k] {
            assert(s@.skip(i as int).take(from@.len() as int)[k as int] != from@[k as int]);
            return false;
        }
        k = k + 1;
    }
    assert(s@.skip(i as int).take(from@.len() as int) =~= from@);
    true
}

/// `s` with every occurrence of `from` replaced by `to`, as `str::replace` does, for a
/// `from` that is not empty.
pub fn replace_text(s: &str, from: &str, to: &str) -> (r: String)
    requires
        from@.len() > 0,
    ensures
        r@ == str_replaced(s@, from@, to@),
{
    let chars = chars_of(s);
    let from_chars = chars_of(from);
    let mut r = String::new();
    let mut i: usize = 0;
    assert(chars@.skip(0) =~= chars@);
    while i < chars.len()
        invariant
            i <= chars@.len(),
            chars@ == s@,
            from_chars@ == from@,
            from@.len() > 0,
            str_replaced(s@, from@, to@) == r@ + str_replaced(chars@.skip(i as int), from@, to@),
        decreases chars@.len() - i,
    {
        let ghost rest = chars@.skip(i as int);
        let ghost before = r@;
        if starts_at(&chars, i, &from_chars) {
            push_str(&mut r, to);
            assert(rest.skip(from@.len() as int) =~= chars@.skip(i + from@.len()));
            i = i + from_chars.len();
            assert(str_replaced(s@, from@, to@) =~= r@ + str_replaced(chars@.skip(i as int), from@, to@));
        } else {
            push_char(&mut r, chars[i]);
            assert(rest.drop_first() =~= chars@.skip(i + 1));
            assert(rest[0] == chars@[i as int]);
            i = i + 1;
            assert(str_replaced(s@, from@, to@) =~= r@ + str_replaced(chars@.skip(i as int), from@, to@));
        }
    }
    assert(chars@.skip(i as int) =~= Seq::<char>::empty());
    assert(r@ + Seq::<char>::empty() =~= r@);
    r
}

} // verus!

verus! {

/// The characters of a string slice.
pub fn chars_of(s: &str) -> (r: Vec<char>)
    ensures
        r@ == s@,
{
    let mut r: Vec<char> = Vec::new();
    let ghost chars = s@;
    let _n = s.unicode_len();
    for c in it: s.chars()
        invariant
            it.seq() == chars,
            r@ == chars.take(it.index()),
    {
        r.push(c);
        assert(r@ =~= chars.take(it.index() + 1));
    }
    assert(chars.take(chars.len() as int) =~= chars);
    r
}

/// A string holding `chars[from..to]`.
pub fn string_of(chars: &[char], from: usize, to: usize) -> (r: String)
    requires
        from <= to <= chars@.len(),
    ensures
        r@ == chars@.subrange(from as int, to as int),
{
    let mut r = String::new();
    let mut i = from;
    while i < to
        invariant
            from <= i <= to,
            to <= chars@.len(),
            r@ == chars@.subrange(from as int, i as int),
        decreases to - i,
    {
        push_char(&mut r, chars[i]);
        i = i + 1;
        assert(r@ =~= chars@.subrange(from as int, i as int));
    }
    r
}


} // verus!

verus! {

/// The characters of each string.
pub open spec fn strings_view(v: Seq<String>) -> Seq<Seq<char>> {
    Seq::new(v.len(), |i: int| v[i]@)
}

/// A copy of a vector of strings.
pub fn copy_strings(v: &Vec<String>) -> (r: Vec<String>)
    ensures
        strings_view(r@) == strings_view(v@),
{
    let mut r: Vec<String> = Vec::new();
    let mut i: usize = 0;
    while i < v.len()
        invariant
            i <= v@.len(),
            r@.len() == i,
            forall|j: int| 0 <= j < i ==> (#[trigger] r@[j])@ == v@[j]@,
        decreases v@.len() - i,
    {
        let s = to_owned(v[i].as_str());
        r.push(s);
        i = i + 1;
        assert(strings_view(r@) =~= strings_view(v@).take(i as int));
    }
    assert(strings_view(r@) =~= strings_view(v@));
    r
}

/// A vector of bytes holding the UTF-8 encoding of `s`.
pub fn utf8_bytes(s: &str) -> (r: Vec<u8>)
    ensures
        r@ == vstd::utf8::encode_utf8(s@),
{
    let mut r: Vec<u8> = Vec::new();
    crate::buffer::put_slice(&mut r, s.as_bytes());
    r
}


} // verus!

verus! {

/// Whether a character has the Unicode property White_Space, as `char::is_whitespace`
/// and `str::trim` take it.
pub open spec fn is_white_space(c: char) -> bool {
    let n = c as u32;
    (0x09 <= n && n <= 0x0d) || n == 0x20 || n == 0x85 || n == 0xa0 || n == 0x1680
        || (0x2000 <= n && n <= 0x200a) || n == 0x2028 || n == 0x2029 || n == 0x202f
        || n == 0x205f || n == 0x3000
}

/// `s` without its leading white space.
pub open spec fn trim_start(s: Seq<char>) -> Seq<char>
    decreases s.len(),
{
    if s.len() > 0 && is_white_space(s[0]) {
        trim_start(s.drop_first())
    } else {
        s
    }
}

/// `s` without its trailing white space.
pub open spec fn trim_end(s: Seq<char>) -> Seq<char>
    decreases s.len(),
{
    if s.len() > 0 && is_white_space(s.last()) {
        trim_end(s.drop_last())
    } else {
        s
    }
}

/// `s` without its leading and trailing white space.
pub open spec fn trimmed(s: Seq<char>) -> Seq<char> {
    trim_end(trim_start(s))
}

fn white_space(c: char) -> (r: bool)
    ensures
        r == is_white_space(c),
{
    let n = c as u32;
    (0x09 <= n && n <= 0x0d) || n == 0x20 || n == 0x85 || n == 0xa0 || n == 0x1680
        || (0x2000 <= n && n <= 0x200a) || n == 0x2028 || n == 0x2029 || n == 0x202f
        || n == 0x205f || n == 0x3000
}

/// `s` without its leading and trailing white space.
pub fn trim(s: &str) -> (r: String)
    ensures
        r@ == trimmed(s@),
{
    let chars = chars_of(s);
    let mut start: usize = 0;
    assert(s@.skip(0) =~= s@);
    while start < chars.len() && white_space(chars[start])
        invariant
            start <= chars@.len(),
            chars@ == s@,
            trim_start(s@) == trim_start(s@.skip(start as int)),
        decreases chars@.len() - start,
    {
        assert(s@.skip(start as int).drop_first() =~= s@.skip(start + 1));
        start = start + 1;
    }
    assert(trim_start(s@) == s@.skip(start as int)) by {
        if start < chars.len() {
            assert(s@.skip(start as int)[0] == chars@[start as int]);
        } else {
            assert(s@.skip(start as int).len() == 0);
        }
    }
    let ghost t = s@.skip(start as int);
    let mut end: usize = chars.len();
    assert(s@.subrange(start as int, end as int) =~= t);
    while end > start && white_space(chars[end - 1])
        invariant
            start <= end <= chars@.len(),
            chars@ == s@,
            t == s@.skip(start as int),
            trim_end(t) == trim_end(s@.subrange(start as int, end as int)),
        decreases end,
    {
        assert(s@.subrange(start as int, end as int).drop_last() =~= s@.subrange(start as int, end - 1));
        end = end - 1;
    }
    assert(trim_end(t) == s@.subrange(start as int, end as int)) by {
        if end > start {
            assert(s@.subrange(start as int, end as int).last() == chars@[end - 1]);
        } else {
            assert(s@.subrange(start as int, end as int).len() == 0);
        }
    }
    assert(s@.subrange(start as int, chars@.len() as int) =~= t);
    string_of(chars.as_slice(), start, end)
}


} // verus!

verus! {

/// The pieces of `s` between the separators `sep`, in order (always at least one), as
/// `str::split` gives them.
pub open spec fn pieces(s: Seq<char>, sep: char) -> Seq<Seq<char>>
    decreases s.len(),
{
    if s.len() == 0 {
        seq![Seq::<char>::empty()]
    } else {
        let ps = pieces(s.drop_last(), sep);
        if s.last() == sep {
            ps.push(Seq::<char>::empty())
        } else {
            ps.update(ps.len() - 1, ps.last().push(s.last()))
        }
    }
}

/// Splits `s` at each `sep`.
pub fn split(s: &str, sep: char) -> (r: Vec<String>)
    ensures
        strings_view(r@) == pieces(s@, sep),
{
    let chars = chars_of(s);
    let mut done: Vec<String> = Vec::new();
    let mut cur = String::new();
    let mut i: usize = 0;
    while i < chars.len()
        invariant
            chars@ == s@,
            i <= chars@.len(),
            strings_view(done@).push(cur@) == pieces(s@.take(i as int), sep),
        decreases chars@.len() - i,
    {
        let c = chars[i];
        let ghost pre = s@.take(i as int);
        assert(s@.take(i + 1).drop_last() =~= pre);
        assert(s@.take(i + 1).last() == c);
        if c == sep {
            let piece = cur;
            cur = String::new();
            let ghost d = done@;
            done.push(piece);
            assert(strings_view(done@) =~= strings_view(d).push(piece@));
            assert(strings_view(done@).push(cur@) =~= pieces(pre, sep).push(Seq::<char>::empty()));
        } else {
            let ghost c0 = cur@;
            push_char(&mut cur, c);
            assert(strings_view(done@).push(cur@) =~= strings_view(done@).push(c0).update(strings_view(done@).len() as int, c0.push(c)));
        }
        i = i + 1;
    }
    assert(s@.take(i as int) =~= s@);
    let ghost d = done@;
    done.push(cur);
    assert(strings_view(done@) =~= strings_view(d).push(done@.last()@));
    done
}

/// A text without the separator is a single piece.
pub proof fn lemma_pieces_single(s: Seq<char>, sep: char)
    requires
        !s.contains(sep),
    ensures
        pieces(s, sep) == seq![s],
    decreases s.len(),
{
    if s.len() > 0 {
        assert(!s.drop_last().contains(sep)) by {
            if s.drop_last().contains(sep) {
                let i = choose|i: int| 0 <= i < s.drop_last().len() && s.drop_last()[i] == sep;
                assert(s[i] == sep);
            }
        }
        lemma_pieces_single(s.drop_last(), sep);
        assert(s.last() != sep) by {
            assert(s[s.len() - 1] == s.last());
        }
        assert(s.drop_last().push(s.last()) =~= s);
    } else {
        assert(s =~= Seq::<char>::empty());
    }
}

/// Text without the separator added after a text extends its last piece.
pub proof fn lemma_pieces_extend(s: Seq<char>, b: Seq<char>, sep: char)
    requires
        !b.contains(sep),
    ensures
        pieces(s + b, sep) == pieces(s, sep).update(pieces(s, sep).len() - 1, pieces(s, sep).last() + b),
    decreases b.len(),
{
    lemma_pieces_nonempty(s, sep);
    if b.len() == 0 {
        assert(s + b =~= s);
        assert(pieces(s, sep).last() + b =~= pieces(s, sep).last());
        assert(pieces(s, sep).update(pieces(s, sep).len() - 1, pieces(s, sep).last()) =~= pieces(s, sep));
    } else {
        assert(!b.drop_last().contains(sep)) by {
            if b.drop_last().contains(sep) {
                let i = choose|i: int| 0 <= i < b.drop_last().len() && b.drop_last()[i] == sep;
                assert(b[i] == sep);
            }
        }
        lemma_pieces_extend(s, b.drop_last(), sep);
        assert((s + b).drop_last() =~= s + b.drop_last());
        assert((s + b).last() == b.last());
        assert(b.last() != sep) by {
            assert(b[b.len() - 1] == b.last());
        }
        lemma_pieces_nonempty(s + b.drop_last(), sep);
        assert((pieces(s, sep).last() + b.drop_last()).push(b.last()) =~= pieces(s, sep).last() + b);
        assert(pieces(s + b, sep) =~= pieces(s, sep).update(pieces(s, sep).len() - 1, pieces(s, sep).last() + b));
    }
}

/// There is always a piece.
pub proof fn lemma_pieces_nonempty(s: Seq<char>, sep: char)
    ensures
        pieces(s, sep).len() >= 1,
    decreases s.len(),
{
    if s.len() > 0 {
        lemma_pieces_nonempty(s.drop_last(), sep);
    }
}

/// The text that `String::from_utf8_lossy` makes of bytes: their characters, with each
/// invalid sequence replaced by U+FFFD.
pub uninterp spec fn utf8_lossy(bytes: Seq<u8>) -> Seq<char>;

/// Calls `String::from_utf8_lossy`. Claims: the result is `utf8_lossy(bytes)`, and for
/// valid UTF-8 it is the bytes' own text, as its documentation says.
#[verifier::external_body]
pub(crate) fn lossy_text(bytes: &[u8]) -> (r: String)
    ensures
        r@ == utf8_lossy(bytes@),
        valid_utf8(bytes@) ==> r@ == decode_utf8(bytes@),
{
    String::from_utf8_lossy(bytes).to_string()
}

/// Whether `a` comes before `b` in the order of strings: by their first differing
/// character's code point, a proper prefix first.
pub open spec fn chars_lt(a: Seq<char>, b: Seq<char>) -> bool
    decreases a.len(),
{
    if a.len() == 0 {
        b.len() > 0
    } else if b.len() == 0 {
        false
    } else if a[0] != b[0] {
        (a[0] as u32) < (b[0] as u32)
    } else {
        chars_lt(a.drop_first(), b.drop_first())
    }
}

/// Nothing comes before itself.
pub proof fn lemma_chars_lt_irreflexive(a: Seq<char>)
    ensures
        !chars_lt(a, a),
    decreases a.len(),
{
    if a.len() > 0 {
        lemma_chars_lt_irreflexive(a.drop_first());
    }
}

/// Of two strings, at most one comes before the other.
pub proof fn lemma_chars_lt_asymmetric(a: Seq<char>, b: Seq<char>)
    ensures
        chars_lt(a, b) ==> !chars_lt(b, a),
    decreases a.len(),
{
    if a.len() > 0 && b.len() > 0 && a[0] == b[0] {
        lemma_chars_lt_asymmetric(a.drop_first(), b.drop_first());
    }
}

/// Of two different strings, one comes before the other.
pub proof fn lemma_chars_lt_total(a: Seq<char>, b: Seq<char>)
    ensures
        a != b ==> chars_lt(a, b) || chars_lt(b, a),
    decreases a.len(),
{
    if a.len() == 0 && b.len() == 0 {
        assert(a =~= b);
    } else if a.len() == 0 || b.len() == 0 {
    } else if a[0] != b[0] {
        vstd::utf8::char_u32_cast(a[0], a[0] as u32);
        vstd::utf8::char_u32_cast(b[0], b[0] as u32);
    } else {
        lemma_chars_lt_total(a.drop_first(), b.drop_first());
        if a.drop_first() =~= b.drop_first() {
            assert(a.len() == b.len());
            assert forall|k: int| 0 <= k < a.len() implies a[k] == b[k] by {
                if k > 0 {
                    assert(a.drop_first()[k - 1] == b.drop_first()[k - 1]);
                }
            }
            assert(a =~= b);
        }
    }
}

/// The order of strings is transitive.
pub proof fn lemma_chars_lt_transitive(a: Seq<char>, b: Seq<char>, c: Seq<char>)
    requires
        chars_lt(a, b),
        chars_lt(b, c),
    ensures
        chars_lt(a, c),
    decreases a.len(),
{
    if a.len() > 0 && b.len() > 0 && c.len() > 0 && a[0] == b[0] && b[0] == c[0] {
        lemma_chars_lt_transitive(a.drop_first(), b.drop_first(), c.drop_first());
    }
}

/// Whether `a` comes before `b` in the order of strings.
pub fn chars_less(a: &str, b: &str) -> (r: bool)
    ensures
        r == chars_lt(a@, b@),
{
    let x = chars_of(a);
    let y = chars_of(b);
    let mut i: usize = 0;
    assert(a@.skip(0) =~= a@);
    assert(b@.skip(0) =~= b@);
    while i < x.len() && i < y.len() && x[i] == y[i]
        invariant
            i <= x@.len(),
            i <= y@.len(),
            x@ == a@,
            y@ == b@,
            chars_lt(a@, b@) == chars_lt(a@.skip(i as int), b@.skip(i as int)),
        decreases x@.len() - i,
    {
        assert(a@.skip(i as int).drop_first() =~= a@.skip(i + 1));
        assert(b@.skip(i as int).drop_first() =~= b@.skip(i + 1));
        i = i + 1;
    }
    if i == x.len() {
        i < y.len()
    } else if i == y.len() {
        false
    } else {
        assert(a@.skip(i as int)[0] == x@[i as int]);
        assert(b@.skip(i as int)[0] == y@[i as int]);
        (x[i] as u32) < (y[i] as u32)
    }
}

/// What `str::to_uppercase` gives for a text: each character in its Unicode upper case.
pub uninterp spec fn unicode_uppercase(s: Seq<char>) -> Seq<char>;

/// Calls `str::to_uppercase`. Claims: the result is `unicode_uppercase` of the text.
#[verifier::external_body]
pub(crate) fn to_uppercase(s: &str) -> (r: String)
    ensures
        r@ == unicode_uppercase(s@),
{
    s.to_uppercase()
}


} // verus!
