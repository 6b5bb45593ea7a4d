use vstd::prelude::*;

verus! {

/// Relies on `String::push`: the character is added at the end.
pub assume_specification[ String::push ](s: &mut String, ch: char)
    ensures
        final(s)@ == old(s)@.push(ch),
;

/// The lowercase hexadecimal digit for a value below sixteen.
pub open spec fn hex_digit(n: u8) -> char {
    if n < 10 {
        ((48 + n) as u8) as char
    } else {
        ((87 + n) as u8) as char
    }
}

/// Two lowercase hexadecimal digits for each byte, high nibble first.
pub open spec fn hex_of(bytes: Seq<u8>) -> Seq<char>
    decreases bytes.len(),
{
    if bytes.len() == 0 {
        Seq::empty()
    } else {
        hex_of(bytes.drop_last()) + seq![hex_digit(bytes.last() / 16), hex_digit(bytes.last() % 16)]
    }
}

fn nibble_char(n: u8) -> (c: char)
    requires
        n < 16,
    ensures
        c == hex_digit(n),
{
    if n < 10 {
        ((48u8 + n) as char)
    } else {
        ((87u8 + n) as char)
    }
}

/// Appends the lowercase hexadecimal text of the bytes of `bytes` from `lo`
/// up to `hi` to `r`.
pub fn push_hex(r: &mut String, bytes: &[u8], lo: usize, hi: usize)
    requires
        lo <= hi <= bytes@.len(),
    ensures
        final(r)@ == old(r)@ + hex_of(bytes@.subrange(lo as int, hi as int)),
{
    let mut i: usize = lo;
    while i < hi
        invariant
            lo <= i <= hi <= bytes@.len(),
            r@ == old(r)@ + hex_of(bytes@.subrange(lo as int, i as int)),
        decreases hi - i,
    {
        let b = bytes[i];
        r.push(nibble_char(b / 16));
        r.push(nibble_char(b % 16));
        assert(bytes@.subrange(lo as int, i + 1).drop_last() == bytes@.subrange(lo as int, i as int));
        i = i + 1;
    }
}

/// Lowercase hexadecimal text of the bytes of `bytes` from `lo` up to `hi`.
pub fn hex_range(bytes: &[u8], lo: usize, hi: usize) -> (r: String)
    requires
        lo <= hi <= bytes@.len(),
    ensures
        r@ == hex_of(bytes@.subrange(lo as int, hi as int)),
{
    let mut r = String::new();
    push_hex(&mut r, bytes, lo, hi);
    r
}

/// Lowercase hexadecimal text of `bytes`.
pub fn to_hex(bytes: &[u8]) -> (r: String)
    ensures
        r@ == hex_of(bytes@),
{
    assert(bytes@.subrange(0, bytes@.len() as int) == bytes@);
    hex_range(bytes, 0, bytes.len())
}

/// Different nibbles have different digits.
proof fn lemma_hex_digit_injective(n: u8, m: u8)
    requires
        n < 16,
        m < 16,
        hex_digit(n) == hex_digit(m),
    ensures
        n == m,
{
    let cn = hex_digit(n);
    let cm = hex_digit(m);
    assert(cn as u32 == (if n < 10 { 48 + n } else { 87 + n }));
    assert(cm as u32 == (if m < 10 { 48 + m } else { 87 + m }));
}

/// Different byte strings have different hexadecimal text.
pub proof fn lemma_hex_injective(a: Seq<u8>, b: Seq<u8>)
    requires
        hex_of(a) == hex_of(b),
    ensures
        a == b,
    decreases a.len(),
{
    lemma_hex_len(a);
    lemma_hex_len(b);
    if a.len() > 0 {
        let ha = hex_of(a);
        let x = a.last();
        let y = b.last();
        assert(ha[ha.len() - 2] == hex_digit(x / 16) && ha[ha.len() - 1] == hex_digit(x % 16));
        assert(ha[ha.len() - 2] == hex_digit(y / 16) && ha[ha.len() - 1] == hex_digit(y % 16));
        lemma_hex_digit_injective(x / 16, y / 16);
        lemma_hex_digit_injective(x % 16, y % 16);
        assert(x == y);
        assert(hex_of(a.drop_last()) =~= ha.subrange(0, ha.len() - 2));
        assert(hex_of(b.drop_last()) =~= ha.subrange(0, ha.len() - 2));
        lemma_hex_injective(a.drop_last(), b.drop_last());
        assert(a =~= a.drop_last().push(x));
        assert(b =~= b.drop_last().push(y));
    }
}

/// The hexadecimal text of a byte string is two characters a byte.
pub proof fn lemma_hex_len(bytes: Seq<u8>)
    ensures
        hex_of(bytes).len() == 2 * bytes.len(),
    decreases bytes.len(),
{
    if bytes.len() > 0 {
        lemma_hex_len(bytes.drop_last());
    }
}

/// A lowercase hexadecimal digit.
pub open spec fn is_hex_char(c: char) -> bool {
    (48 <= c as u32 <= 57) || (97 <= c as u32 <= 102)
}

/// The value of a lowercase hexadecimal digit.
pub open spec fn hex_value(c: char) -> u8 {
    if c as u32 <= 57 {
        (c as u32 - 48) as u8
    } else {
        (c as u32 - 87) as u8
    }
}

/// The value of a lowercase hexadecimal digit, if `c` is one.
pub fn digit(c: char) -> (r: Option<u8>)
    ensures
        r is Some <==> is_hex_char(c),
        r matches Some(v) ==> v < 16 && v == hex_value(c) && hex_digit(v) == c,
{
    let n = c as u32;
    if 48 <= n && n <= 57 {
        let v = (n - 48) as u8;
        assert(hex_digit(v) == c) by {
            assert(((48 + v) as u8) as u32 == n);
        }
        Some(v)
    } else if 97 <= n && n <= 102 {
        let v = (n - 87) as u8;
        assert(hex_digit(v) == c) by {
            assert(((87 + v) as u8) as u32 == n);
        }
        Some(v)
    } else {
        None
    }
}

/// Text that can name a leaf file: lowercase hexadecimal digits, two for each
/// byte of a key at least `min_len` bytes long.
pub open spec fn is_key_text(n: Seq<char>, min_len: int) -> bool {
    &&& n.len() % 2 == 0
    &&& n.len() >= 2 * min_len
    &&& forall|i: int| 0 <= i < n.len() ==> is_hex_char(#[trigger] n[i])
}

/// The hexadecimal text of a key of at least `min_len` bytes is key text.
pub proof fn lemma_hex_is_key_text(bytes: Seq<u8>, min_len: int)
    requires
        bytes.len() >= min_len,
    ensures
        is_key_text(hex_of(bytes), min_len),
    decreases bytes.len(),
{
    lemma_hex_len(bytes);
    if bytes.len() > 0 {
        lemma_hex_is_key_text(bytes.drop_last(), bytes.len() - 1);
        let h = hex_of(bytes);
        let x = bytes.last();
        assert(h == hex_of(bytes.drop_last()) + seq![hex_digit(x / 16), hex_digit(x % 16)]);
        assert forall|i: int| 0 <= i < h.len() implies is_hex_char(#[trigger] h[i]) by {
            if i >= h.len() - 2 {
                let n: u8 = if i == h.len() - 2 { x / 16 } else { x % 16 };
                assert(h[i] == hex_digit(n));
                assert(hex_digit(n) as u32 == (if n < 10 { 48 + n } else { 87 + n }));
            } else {
                assert(h[i] == hex_of(bytes.drop_last())[i]);
            }
        }
    }
}

/// Whether `s` is key text for keys of at least `min_len` bytes.
pub fn key_text(s: &str, min_len: usize) -> (r: bool)
    ensures
        r == is_key_text(s@, min_len as int),
{
    let n = s.unicode_len();
    if n % 2 != 0 || n / 2 < min_len {
        return false;
    }
    let mut i: usize = 0;
    while i < n
        invariant
            i <= n,
            n == s@.len(),
            forall|j: int| 0 <= j < i ==> is_hex_char(#[trigger] s@[j]),
        decreases n - i,
    {
        if digit(s.get_char(i)).is_none() {
            return false;
        }
        i = i + 1;
    }
    true
}

/// True when the characters of `p` begin `s`.
pub fn starts_with(s: &str, p: &str) -> (r: bool)
    ensures
        r == p@.is_prefix_of(s@),
{
    let n = s.unicode_len();
    let m = p.unicode_len();
    if m > n {
        return false;
    }
    let mut i: usize = 0;
    while i < m
        invariant
            i <= m <= n,
            n == s@.len(),
            m == p@.len(),
            forall|j: int| 0 <= j < i ==> p@[j] == s@[j],
        decreases m - i,
    {
        if s.get_char(i) != p.get_char(i) {
            return false;
        }
        i = i + 1;
    }
    true
}

} // verus!
