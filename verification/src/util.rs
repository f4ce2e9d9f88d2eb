//! Character-level helpers shared by the form and record logic: whitespace
//! trimming, decimal numerals, and left/right padding of display strings.

use vstd::prelude::*;
use vstd::string::*;

verus! {

/// Whether `c` has the Unicode `White_Space` property.
pub uninterp spec fn is_unicode_whitespace(c: char) -> bool;

/// Relies on `char::is_whitespace`: true exactly for characters with the
/// Unicode `White_Space` property; the space character is one of them.
#[verifier::external_body]
pub(crate) fn char_is_whitespace(c: char) -> (r: bool)
    ensures
        r == is_unicode_whitespace(c),
        c == ' ' ==> r,
{
    c.is_whitespace()
}

/// `s` without its leading whitespace characters.
pub open spec fn trim_front(s: Seq<char>) -> Seq<char>
    decreases s.len(),
{
    if s.len() > 0 && is_unicode_whitespace(s[0]) {
        trim_front(s.skip(1))
    } else {
        s
    }
}

/// `s` without its trailing whitespace characters.
pub open spec fn trim_back(s: Seq<char>) -> Seq<char>
    decreases s.len(),
{
    if s.len() > 0 && is_unicode_whitespace(s.last()) {
        trim_back(s.drop_last())
    } else {
        s
    }
}

/// `s` without leading and trailing whitespace.
pub open spec fn trimmed(s: Seq<char>) -> Seq<char> {
    trim_back(trim_front(s))
}

proof fn lemma_trim_front_range(s: Seq<char>, i: int)
    requires
        0 <= i <= s.len(),
        forall|k: int| 0 <= k < i ==> is_unicode_whitespace(s[k]),
        i < s.len() ==> !is_unicode_whitespace(s[i]),
    ensures
        trim_front(s) == s.skip(i),
    decreases i,
{
    if i == 0 {
        if s.len() > 0 {
        }
        assert(s.skip(0) == s);
    } else {
        assert(is_unicode_whitespace(s[0]));
        lemma_trim_front_range(s.skip(1), i - 1);
        assert(s.skip(1).skip(i - 1) == s.skip(i));
    }
}

proof fn lemma_trim_back_range(s: Seq<char>, j: int)
    requires
        0 <= j <= s.len(),
        forall|k: int| j <= k < s.len() ==> is_unicode_whitespace(s[k]),
        j > 0 ==> !is_unicode_whitespace(s[j - 1]),
    ensures
        trim_back(s) == s.take(j),
    decreases s.len() - j,
{
    if j == s.len() {
        if j == 0 {
            assert(s.take(0) == s);
        } else {
            assert(s.take(j) == s);
        }
    } else {
        assert(is_unicode_whitespace(s.last()));
        lemma_trim_back_range(s.drop_last(), j);
        assert(s.drop_last().take(j) == s.take(j));
    }
}

/// Copy of `s` with leading and trailing whitespace removed.
pub fn str_trim(s: &str) -> (r: String)
    ensures
        r@ == trimmed(s@),
{
    let n = s.unicode_len();
    let mut i: usize = 0;
    while i < n && char_is_whitespace(s.get_char(i))
        invariant
            0 <= i <= n,
            n == s@.len(),
            forall|k: int| 0 <= k < i ==> is_unicode_whitespace(s@[k]),
        decreases n - i,
    {
        i = i + 1;
    }
    proof {
        lemma_trim_front_range(s@, i as int);
    }
    if i == n {
        let r = String::new();
        proof {
            assert(trim_front(s@) == Seq::<char>::empty());
            assert(trim_back(Seq::<char>::empty()) == Seq::<char>::empty());
            assert(r@ == trimmed(s@));
        }
        return r;
    }
    let mut j: usize = n;
    while j > i && char_is_whitespace(s.get_char(j - 1))
        invariant
            i <= j <= n,
            n == s@.len(),
            i < n,
            !is_unicode_whitespace(s@[i as int]),
            forall|k: int| j <= k < n ==> is_unicode_whitespace(s@[k]),
        decreases j,
    {
        j = j - 1;
    }
    proof {
        assert(j > i) by {
            if j == i {
                assert(is_unicode_whitespace(s@[i as int]));
            }
        }
        let f = s@.skip(i as int);
        assert(forall|k: int| (j - i) <= k < f.len() ==> is_unicode_whitespace(#[trigger] f[k]));
        assert(!is_unicode_whitespace(f[j - i - 1]));
        lemma_trim_back_range(f, j - i);
        assert(f.take(j - i) == s@.subrange(i as int, j as int));
    }
    let piece = s.substring_char(i, j);
    String::from_str(piece)
}

/// Whether `c` is one of the ten decimal digit characters.
pub open spec fn is_dec_digit(c: char) -> bool {
    '0' as int <= c as int && c as int <= '9' as int
}

/// Numeric value of a decimal digit character.
pub open spec fn digit_val(c: char) -> int {
    c as int - '0' as int
}

/// Whether every character of `s` is a decimal digit.
pub open spec fn all_dec_digits(s: Seq<char>) -> bool {
    forall|i: int| 0 <= i < s.len() ==> is_dec_digit(#[trigger] s[i])
}

/// Value of a sequence of decimal digit characters, most significant first.
pub open spec fn dec_value(s: Seq<char>) -> int
    decreases s.len(),
{
    if s.len() == 0 {
        0
    } else {
        dec_value(s.drop_last()) * 10 + digit_val(s.last())
    }
}

/// The digit part of an unsigned numeral: `s` with one optional leading `+`.
pub open spec fn unsigned_digits(s: Seq<char>) -> Seq<char> {
    if s.len() > 0 && s[0] == '+' {
        s.skip(1)
    } else {
        s
    }
}

/// Whether `s` is a numeral that denotes a value of the `u16` range: an
/// optional `+` sign, then at least one decimal digit, value at most 65535.
pub open spec fn is_u16_numeral(s: Seq<char>) -> bool {
    let d = unsigned_digits(s);
    d.len() > 0 && all_dec_digits(d) && dec_value(d) <= u16::MAX
}

pub proof fn lemma_dec_value_nonneg(s: Seq<char>)
    requires
        all_dec_digits(s),
    ensures
        dec_value(s) >= 0,
    decreases s.len(),
{
    if s.len() > 0 {
        assert(is_dec_digit(s.last()));
        lemma_dec_value_nonneg(s.drop_last());
    }
}

proof fn lemma_dec_value_push(s: Seq<char>, c: char)
    ensures
        dec_value(s.push(c)) == dec_value(s) * 10 + digit_val(c),
{
    assert(s.push(c).drop_last() == s);
    assert(s.push(c).last() == c);
}

/// Parse `s` as a `u16` numeral; `None` exactly when `s` is not one.
pub fn parse_u16(s: &str) -> (r: Option<u16>)
    ensures
        r is Some <==> is_u16_numeral(s@),
        r matches Some(v) ==> v as int == dec_value(unsigned_digits(s@)),
{
    let n = s.unicode_len();
    let start: usize = if n > 0 && s.get_char(0) == '+' {
        1
    } else {
        0
    };
    proof {
        assert(s@.skip(start as int) == unsigned_digits(s@));
    }
    if start == n {
        return None;
    }
    let ghost d = unsigned_digits(s@);
    let mut i: usize = start;
    let mut acc: u32 = 0;
    while i < n
        invariant
            start <= i <= n,
            n == s@.len(),
            start < n,
            d == s@.skip(start as int),
            d == unsigned_digits(s@),
            forall|k: int| start <= k < i ==> is_dec_digit(#[trigger] s@[k]),
            dec_value(d.take(i - start)) <= u16::MAX ==> acc == dec_value(d.take(i - start)),
            dec_value(d.take(i - start)) > u16::MAX ==> acc > u16::MAX,
            acc <= 655359,
        decreases n - i,
    {
        let c = s.get_char(i);
        let cv = c as u32;
        if cv < '0' as u32 || cv > '9' as u32 {
            proof {
                assert(!is_dec_digit(s@[i as int]));
                assert(d[i - start] == s@[i as int]);
                assert(!all_dec_digits(d));
            }
            return None;
        }
        proof {
            assert(is_dec_digit(s@[i as int]));
            let p = d.take(i - start);
            assert(p.push(s@[i as int]) == d.take(i + 1 - start));
            lemma_dec_value_push(p, s@[i as int]);
            assert(forall|k: int| 0 <= k < p.len() ==> is_dec_digit(#[trigger] p[k]));
            lemma_dec_value_nonneg(p);
        }
        let dv = cv - '0' as u32;
        if acc <= u16::MAX as u32 {
            acc = acc * 10 + dv;
        }
        i = i + 1;
    }
    proof {
        assert(d.take(i - start) == d);
        assert(forall|k: int| 0 <= k < d.len() ==> is_dec_digit(#[trigger] d[k]));
    }
    if acc <= u16::MAX as u32 {
        Some(acc as u16)
    } else {
        None
    }
}

/// Relies on `String::push`: appends the given character to the end of the
/// string.
#[verifier::external_body]
pub(crate) fn push_char(s: &mut String, c: char)
    ensures
        final(s)@ == old(s)@.push(c),
{
    s.push(c);
}

/// The decimal digit character for a value between 0 and 9.
pub open spec fn digit_char(d: int) -> char {
    if d == 0 {
        '0'
    } else if d == 1 {
        '1'
    } else if d == 2 {
        '2'
    } else if d == 3 {
        '3'
    } else if d == 4 {
        '4'
    } else if d == 5 {
        '5'
    } else if d == 6 {
        '6'
    } else if d == 7 {
        '7'
    } else if d == 8 {
        '8'
    } else {
        '9'
    }
}

/// The decimal numeral of a non-negative value, most significant digit first.
pub open spec fn dec_seq(n: int) -> Seq<char>
    decreases n,
{
    if n < 10 {
        seq![digit_char(n)]
    } else {
        dec_seq(n / 10).push(digit_char(n % 10))
    }
}

fn digit_to_char(d: u16) -> (r: char)
    requires
        d < 10,
    ensures
        r == digit_char(d as int),
{
    match d {
        0 => '0',
        1 => '1',
        2 => '2',
        3 => '3',
        4 => '4',
        5 => '5',
        6 => '6',
        7 => '7',
        8 => '8',
        _ => '9',
    }
}

/// The decimal numeral of `n` as a string.
pub fn u16_to_string(n: u16) -> (r: String)
    ensures
        r@ == dec_seq(n as int),
    decreases n,
{
    let d = digit_to_char(n % 10);
    if n < 10 {
        let mut r = String::new();
        push_char(&mut r, d);
        r
    } else {
        let mut r = u16_to_string(n / 10);
        push_char(&mut r, d);
        r
    }
}

/// Lexicographic order on character sequences, by code point; a prefix
/// comes before every extension of it.
pub open spec fn lex_le(a: Seq<char>, b: Seq<char>) -> bool
    decreases a.len(),
{
    if a.len() == 0 {
        true
    } else if b.len() == 0 {
        false
    } else if (a[0] as int) < (b[0] as int) {
        true
    } else if (a[0] as int) > (b[0] as int) {
        false
    } else {
        lex_le(a.skip(1), b.skip(1))
    }
}

/// Of two sequences, one always comes at or before the other.
pub proof fn lemma_lex_le_total(a: Seq<char>, b: Seq<char>)
    ensures
        lex_le(a, b) || lex_le(b, a),
    decreases a.len(),
{
    if a.len() > 0 && b.len() > 0 && a[0] as int == b[0] as int {
        lemma_lex_le_total(a.skip(1), b.skip(1));
    }
}

/// The order is transitive.
pub proof fn lemma_lex_le_trans(a: Seq<char>, b: Seq<char>, c: Seq<char>)
    requires
        lex_le(a, b),
        lex_le(b, c),
    ensures
        lex_le(a, c),
    decreases a.len(),
{
    if a.len() > 0 && b.len() > 0 && c.len() > 0 {
        if a[0] as int == b[0] as int && b[0] as int == c[0] as int {
            lemma_lex_le_trans(a.skip(1), b.skip(1), c.skip(1));
        }
    }
}

proof fn lemma_lex_le_skip(a: Seq<char>, b: Seq<char>, i: int)
    requires
        0 <= i <= a.len(),
        i <= b.len(),
        forall|k: int| 0 <= k < i ==> a[k] as int == b[k] as int,
    ensures
        lex_le(a, b) == lex_le(a.skip(i), b.skip(i)),
    decreases i,
{
    if i > 0 {
        if a.len() > 0 && b.len() > 0 {
            assert(a[0] as int == b[0] as int);
            lemma_lex_le_skip(a.skip(1), b.skip(1), i - 1);
            assert(a.skip(1).skip(i - 1) =~= a.skip(i));
            assert(b.skip(1).skip(i - 1) =~= b.skip(i));
        }
    } else {
        assert(a.skip(0) =~= a);
        assert(b.skip(0) =~= b);
    }
}

/// Whether `a` comes at or before `b` in lexicographic order.
pub fn str_lex_le(a: &str, b: &str) -> (r: bool)
    ensures
        r == lex_le(a@, b@),
{
    let an = a.unicode_len();
    let bn = b.unicode_len();
    let mut i: usize = 0;
    loop
        invariant
            0 <= i <= an,
            i <= bn,
            an == a@.len(),
            bn == b@.len(),
            forall|k: int| 0 <= k < i ==> a@[k] as int == b@[k] as int,
        decreases an - i,
    {
        proof {
            lemma_lex_le_skip(a@, b@, i as int);
        }
        if i == an {
            return true;
        }
        if i == bn {
            return false;
        }
        let ca = a.get_char(i) as u32;
        let cb = b.get_char(i) as u32;
        if ca < cb {
            return true;
        }
        if ca > cb {
            return false;
        }
        i = i + 1;
    }
}

/// `s` padded on the left with spaces up to `width` characters.
pub open spec fn spec_lpad(s: Seq<char>, width: int) -> Seq<char>
    decreases width,
{
    if s.len() >= width || width <= 0 {
        s
    } else {
        seq![' '] + spec_lpad(s, width - 1)
    }
}

/// `s` padded on the right with spaces up to `width` characters.
pub open spec fn spec_rpad(s: Seq<char>, width: int) -> Seq<char>
    decreases width,
{
    if s.len() >= width || width <= 0 {
        s
    } else {
        spec_rpad(s, width - 1).push(' ')
    }
}

proof fn lemma_spec_lpad_len(s: Seq<char>, width: int)
    ensures
        spec_lpad(s, width).len() == if s.len() >= width {
            s.len() as int
        } else {
            width
        },
        spec_lpad(s, width).skip(spec_lpad(s, width).len() - s.len()) == s,
        forall|k: int|
            0 <= k < spec_lpad(s, width).len() - s.len() ==> spec_lpad(s, width)[k] == ' ',
    decreases width,
{
    if s.len() >= width || width <= 0 {
        assert(spec_lpad(s, width).skip(0) == s);
    } else {
        lemma_spec_lpad_len(s, width - 1);
        let inner = spec_lpad(s, width - 1);
        assert((seq![' '] + inner).skip(width - s.len()) == inner.skip(inner.len() - s.len()));
    }
}

/// Pad `s` on the left with spaces to at least `width` characters.
pub fn lpad(s: &str, width: usize) -> (r: String)
    ensures
        r@ == spec_lpad(s@, width as int),
{
    let n = s.unicode_len();
    let mut r = String::new();
    if n < width {
        let mut k: usize = 0;
        let pad = width - n;
        while k < pad
            invariant
                0 <= k <= pad,
                pad == width - n,
                n == s@.len(),
                n < width,
                r@.len() == k,
                forall|t: int| 0 <= t < k ==> r@[t] == ' ',
            decreases pad - k,
        {
            r.append(" ");
            proof {
                reveal_strlit(" ");
            }
            k = k + 1;
        }
    }
    r.append(s);
    proof {
        lemma_spec_lpad_len(s@, width as int);
        assert(r@ =~= spec_lpad(s@, width as int));
    }
    r
}

proof fn lemma_spec_rpad_len(s: Seq<char>, width: int)
    ensures
        spec_rpad(s, width).len() == if s.len() >= width {
            s.len() as int
        } else {
            width
        },
        spec_rpad(s, width).take(s.len() as int) == s,
        forall|k: int|
            s.len() <= k < spec_rpad(s, width).len() ==> spec_rpad(s, width)[k] == ' ',
    decreases width,
{
    if s.len() >= width || width <= 0 {
        assert(spec_rpad(s, width).take(s.len() as int) == s);
    } else {
        lemma_spec_rpad_len(s, width - 1);
        let inner = spec_rpad(s, width - 1);
        assert(inner.push(' ').take(s.len() as int) == inner.take(s.len() as int));
    }
}

/// Pad `s` on the right with spaces to at least `width` characters.
pub fn rpad(s: &str, width: usize) -> (r: String)
    ensures
        r@ == spec_rpad(s@, width as int),
{
    let n = s.unicode_len();
    let mut r = String::from_str(s);
    let mut k: usize = n;
    while k < width
        invariant
            n == s@.len(),
            n <= k,
            k <= width || k == n,
            r@.len() == k,
            r@.take(n as int) == s@,
            forall|t: int| n <= t < k ==> r@[t] == ' ',
        decreases width - k,
    {
        r.append(" ");
        proof {
            reveal_strlit(" ");
            assert(r@.take(n as int) == s@);
        }
        k = k + 1;
    }
    proof {
        lemma_spec_rpad_len(s@, width as int);
        let sp = spec_rpad(s@, width as int);
        assert(r@.len() == sp.len());
        assert forall|t: int| 0 <= t < r@.len() implies r@[t] == sp[t] by {
            if t < n as int {
                assert(r@.take(n as int)[t] == r@[t]);
                assert(sp.take(n as int)[t] == sp[t]);
            }
        }
        assert(r@ =~= sp);
    }
    r
}

} // verus!
