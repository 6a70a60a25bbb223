//! Text primitives over sequences of characters.

use vstd::prelude::*;

verus! {

/// Whether `c` is Unicode white space.
pub open spec fn is_ws(c: char) -> bool {
    let n = c as u32;
    ||| 0x09 <= n <= 0x0D
    ||| n == 0x20
    ||| n == 0x85
    ||| n == 0xA0
    ||| n == 0x1680
    ||| 0x2000 <= n <= 0x200A
    ||| n == 0x2028
    ||| n == 0x2029
    ||| n == 0x202F
    ||| n == 0x205F
    ||| n == 0x3000
}

/// Tests a character for Unicode white space.
pub fn char_is_ws(c: char) -> (b: bool)
    ensures
        b == is_ws(c),
{
    let n: u32 = c as u32;
    (0x09 <= n && n <= 0x0D) || n == 0x20 || n == 0x85 || n == 0xA0 || n == 0x1680 || (0x2000 <= n
        && n <= 0x200A) || n == 0x2028 || n == 0x2029 || n == 0x202F || n == 0x205F || n == 0x3000
}

/// The characters of `s`, in order.
pub fn to_chars(s: &str) -> (v: Vec<char>)
    ensures
        v@ == s@,
{
    let mut v: Vec<char> = Vec::new();
    for c in it: s.chars()
        invariant
            v@ == it.seq().take(it.index() as int),
    {
        v.push(c);
    }
    v
}

/// What `String::from_utf8_lossy` makes of `bytes`: their text, with the
/// replacement character in place of each part that is not UTF-8.
pub uninterp spec fn utf8_lossy(bytes: Seq<u8>) -> Seq<char>;

/// `String::from_utf8_lossy`: the text of `bytes`, which for valid UTF-8 is
/// the text that the bytes encode.
#[verifier::external_body]
pub(crate) fn lossy_string(bytes: &[u8]) -> (s: String)
    ensures
        s@ == utf8_lossy(bytes@),
        vstd::utf8::valid_utf8(bytes@) ==> s@ == vstd::utf8::decode_utf8(bytes@),
{
    String::from_utf8_lossy(bytes).into_owned()
}

/// `String::push`: the string afterwards is the string before with `c` appended.
#[verifier::external_body]
fn push_char(s: &mut String, c: char)
    ensures
        final(s)@ == old(s)@.push(c),
{
    s.push(c);
}

/// The string made of `v[from..to]`.
pub fn slice_to_string(v: &Vec<char>, from: usize, to: usize) -> (s: String)
    requires
        from <= to <= v.len(),
    ensures
        s@ == v@.subrange(from as int, to as int),
{
    let mut s = String::new();
    let mut i: usize = from;
    while i < to
        invariant
            from <= i <= to <= v.len(),
            s@ == v@.subrange(from as int, i as int),
        decreases to - i,
    {
        push_char(&mut s, v[i]);
        i += 1;
    }
    s
}

/// The string made of all of `v`.
pub fn chars_to_string(v: &Vec<char>) -> (s: String)
    ensures
        s@ == v@,
{
    let s = slice_to_string(v, 0, v.len());
    assert(v@.subrange(0, v.len() as int) == v@);
    s
}

/// Whether two character vectors hold the same text.
pub fn chars_eq(a: &Vec<char>, b: &Vec<char>) -> (r: bool)
    ensures
        r == (a@ == b@),
{
    if a.len() != b.len() {
        return false;
    }
    let mut i: usize = 0;
    while i < a.len()
        invariant
            a.len() == b.len(),
            i <= a.len(),
            a@.take(i as int) == b@.take(i as int),
        decreases a.len() - i,
    {
        if a[i] != b[i] {
            return false;
        }
        assert(a@.take(i + 1) == a@.take(i as int).push(a@[i as int]));
        assert(b@.take(i + 1) == b@.take(i as int).push(b@[i as int]));
        i += 1;
    }
    assert(a@.take(a.len() as int) == a@);
    assert(b@.take(b.len() as int) == b@);
    true
}

/// Whether `v[from..to]` is the text `lit`.
pub fn slice_is(v: &Vec<char>, from: usize, to: usize, lit: &str) -> (r: bool)
    requires
        from <= to <= v.len(),
    ensures
        r == (v@.subrange(from as int, to as int) == lit@),
{
    let l = to_chars(lit);
    if l.len() != to - from {
        return false;
    }
    let mut i: usize = 0;
    while i < l.len()
        invariant
            from <= to <= v.len(),
            l.len() == to - from,
            l@ == lit@,
            i <= l.len(),
            v@.subrange(from as int, from + i) == l@.take(i as int),
        decreases l.len() - i,
    {
        if v[from + i] != l[i] {
            assert(v@.subrange(from as int, to as int)[i as int] != l@[i as int]);
            return false;
        }
        assert(v@.subrange(from as int, from + i + 1) == v@.subrange(from as int, from + i).push(
            v@[from + i],
        ));
        assert(l@.take(i + 1) == l@.take(i as int).push(l@[i as int]));
        i += 1;
    }
    assert(l@.take(l.len() as int) == l@);
    true
}

/// Appends the text `lit` to `out`.
pub fn push_text(out: &mut Vec<char>, lit: &str)
    ensures
        final(out)@ == old(out)@ + lit@,
{
    let l = to_chars(lit);
    let mut i: usize = 0;
    while i < l.len()
        invariant
            i <= l.len(),
            l@ == lit@,
            out@ == old(out)@ + l@.take(i as int),
        decreases l.len() - i,
    {
        out.push(l[i]);
        assert(l@.take(i + 1) == l@.take(i as int).push(l@[i as int]));
        i += 1;
    }
    assert(l@.take(l.len() as int) == l@);
}

} // verus!
