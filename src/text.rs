//! Character-level building blocks of the line protocol: ASCII whitespace
//! splitting, decimal and hexadecimal numbers in both directions.
use vstd::prelude::*;
use vstd::string::*;
use vstd::arithmetic::div_mod::lemma_div_decreases;

verus! {

/// ASCII whitespace, the separator between the words of a protocol line.
pub open spec fn is_space(c: char) -> bool {
    c == ' ' || c == '\t' || c == '\n' || c == '\r' || c == '\x0B' || c == '\x0C'
}

/// The maximal runs of non-whitespace characters of `s`, in order.
pub open spec fn words(s: Seq<char>) -> Seq<Seq<char>>
    decreases s.len(),
{
    if s.len() == 0 {
        seq![]
    } else if is_space(s.last()) {
        words(s.drop_last())
    } else if s.len() >= 2 && !is_space(s[s.len() - 2]) {
        let w = words(s.drop_last());
        w.update(w.len() - 1, w.last().push(s.last()))
    } else {
        words(s.drop_last()).push(seq![s.last()])
    }
}

/// The value of a digit in base 16 or lower (either case), or -1.
pub open spec fn digit_value(c: char) -> int {
    if '0' <= c && c <= '9' {
        c as int - '0' as int
    } else if 'a' <= c && c <= 'f' {
        c as int - 'a' as int + 10
    } else if 'A' <= c && c <= 'F' {
        c as int - 'A' as int + 10
    } else {
        -1
    }
}

/// A non-empty run of digits of the given base.
pub open spec fn is_digits(s: Seq<char>, base: int) -> bool {
    s.len() > 0 && forall|i: int| 0 <= i < s.len() ==> 0 <= #[trigger] digit_value(s[i]) < base
}

/// The number that the digits of `s` denote in `base`, most significant first.
pub open spec fn digits_value(s: Seq<char>, base: int) -> int
    decreases s.len(),
{
    if s.len() == 0 {
        0
    } else {
        base * digits_value(s.drop_last(), base) + digit_value(s.last())
    }
}

/// The integer that `s` denotes: an optional `+` (or `-` where `signed`)
/// followed by decimal digits.
pub open spec fn int_value(s: Seq<char>, signed: bool) -> Option<int> {
    if s.len() > 0 && (s[0] == '+' || (signed && s[0] == '-')) {
        let body = s.drop_first();
        if is_digits(body, 10) {
            Some(if s[0] == '-' { -digits_value(body, 10) } else { digits_value(body, 10) })
        } else {
            None
        }
    } else if is_digits(s, 10) {
        Some(digits_value(s, 10))
    } else {
        None
    }
}

/// `int_value` restricted to the range of a target integer type.
pub open spec fn int_in_range(s: Seq<char>, signed: bool, min: int, max: int) -> Option<int> {
    match int_value(s, signed) {
        Some(v) => if min <= v && v <= max { Some(v) } else { None },
        None => None,
    }
}

/// The lowercase digit for `d`, for `d` below 16.
pub open spec fn digit_char(d: nat) -> char {
    if d < 10 {
        ((d + 48) as u8) as char
    } else {
        ((d + 87) as u8) as char
    }
}

/// `n` written in `base` with lowercase digits and no leading zero.
pub open spec fn render(n: nat, base: nat) -> Seq<char>
    decreases n via render_decreases
{
    if base < 2 || n < base {
        seq![digit_char(n)]
    } else {
        render(n / base, base).push(digit_char(n % base))
    }
}

#[via_fn]
proof fn render_decreases(n: nat, base: nat) {
    if !(base < 2 || n < base) {
        lemma_div_decreases(n as int, base as int);
    }
}

/// `v` in decimal, with a leading `-` when negative.
pub open spec fn render_int(v: int) -> Seq<char> {
    if v < 0 {
        seq!['-'] + render((-v) as nat, 10)
    } else {
        render(v as nat, 10)
    }
}

pub proof fn lemma_digit_char(d: nat)
    requires
        d < 16,
    ensures
        digit_value(digit_char(d)) == d,
        !is_space(digit_char(d)),
        digit_char(d) != '-' && digit_char(d) != '+' && digit_char(d) != ':',
{
}

/// Rendering a number and reading it back gives the number again.
pub proof fn lemma_render_value(n: nat, base: nat)
    requires
        2 <= base <= 16,
    ensures
        is_digits(render(n, base), base as int),
        digits_value(render(n, base), base as int) == n,
        forall|i: int| 0 <= i < render(n, base).len() ==> !is_space(#[trigger] render(n, base)[i]),
        forall|i: int|
            0 <= i < render(n, base).len() ==> #[trigger] render(n, base)[i] != '-'
                && render(n, base)[i] != '+' && render(n, base)[i] != ':',
    decreases n,
{
    if n < base {
        lemma_digit_char(n);
        let r = render(n, base);
        assert(r =~= seq![digit_char(n)]);
        assert(r.drop_last() =~= Seq::<char>::empty());
        assert(digits_value(r.drop_last(), base as int) == 0);
        assert(digits_value(r, base as int) == base * 0 + digit_value(digit_char(n)));
    } else {
        lemma_div_decreases(n as int, base as int);
        lemma_render_value(n / base, base);
        lemma_digit_char(n % base);
        let r = render(n, base);
        assert(r.drop_last() =~= render(n / base, base));
        assert(n == base * (n / base) + n % base) by (nonlinear_arith)
            requires base > 0;
    }
}

/// The decimal rendering of an integer is read back by `int_value`.
pub proof fn lemma_render_int_value(v: int)
    ensures
        int_value(render_int(v), true) == Some(v),
        v >= 0 ==> int_value(render_int(v), false) == Some(v),
        forall|i: int| 0 <= i < render_int(v).len() ==> !is_space(#[trigger] render_int(v)[i]),
        forall|i: int| 0 <= i < render_int(v).len() ==> #[trigger] render_int(v)[i] != ':',
        render_int(v).len() > 0,
{
    if v < 0 {
        let m = (-v) as nat;
        lemma_render_value(m, 10);
        let s = render_int(v);
        assert(s.drop_first() =~= render(m, 10));
        assert forall|i: int| 0 <= i < s.len() implies !is_space(#[trigger] s[i]) && s[i] != ':' by {
            if i > 0 {
                assert(s[i] == render(m, 10)[i - 1]);
            }
        }
    } else {
        lemma_render_value(v as nat, 10);
        let s = render_int(v);
        assert(s[0] != '+' && s[0] != '-');
    }
}

/// A non-empty run without whitespace is a single word.
pub proof fn lemma_words_single(x: Seq<char>)
    requires
        x.len() > 0,
        forall|i: int| 0 <= i < x.len() ==> !is_space(#[trigger] x[i]),
    ensures
        words(x) == seq![x],
    decreases x.len(),
{
    if x.len() == 1 {
        assert(x.drop_last() =~= Seq::<char>::empty());
        assert(words(x.drop_last()) == Seq::<Seq<char>>::empty());
        assert(seq![x.last()] =~= x);
        assert(words(x) == words(x.drop_last()).push(seq![x.last()]));
        assert(Seq::<Seq<char>>::empty().push(x) =~= seq![x]);
    } else {
        lemma_words_single(x.drop_last());
        assert(!is_space(x[x.len() - 2]));
        assert(x.drop_last().push(x.last()) =~= x);
        let w = words(x.drop_last());
        assert(w.len() == 1 && w.last() == x.drop_last());
        assert(words(x) == w.update(0, x.drop_last().push(x.last())));
        assert(seq![x.drop_last()].update(0, x) =~= seq![x]);
    }
}

proof fn lemma_words_last_nonempty(s: Seq<char>)
    requires
        s.len() > 0,
        !is_space(s.last()),
    ensures
        words(s).len() > 0,
    decreases s.len(),
{
    if s.len() >= 2 && !is_space(s[s.len() - 2]) {
        lemma_words_last_nonempty(s.drop_last());
    }
}

/// Whitespace at the end of a line adds no word.
pub proof fn lemma_words_trailing_space(x: Seq<char>, c: char)
    requires
        is_space(c),
    ensures
        words(x.push(c)) == words(x),
{
    assert(x.push(c).drop_last() =~= x);
}

/// Two runs joined by a space have the words of both, in order.
pub proof fn lemma_words_join(a: Seq<char>, b: Seq<char>)
    ensures
        words(a + seq![' '] + b) == words(a) + words(b),
    decreases b.len(),
{
    let s = a + seq![' '] + b;
    if b.len() == 0 {
        assert(s =~= a.push(' '));
        lemma_words_trailing_space(a, ' ');
        assert(words(b) =~= Seq::<Seq<char>>::empty());
        assert(words(a) + words(b) =~= words(a));
    } else {
        let b1 = b.drop_last();
        lemma_words_join(a, b1);
        assert(s.drop_last() =~= a + seq![' '] + b1);
        assert(s.last() == b.last());
        if is_space(b.last()) {
        } else if b.len() >= 2 && !is_space(b[b.len() - 2]) {
            assert(s[s.len() - 2] == b[b.len() - 2]);
            lemma_words_last_nonempty(b1);
            let wa = words(a);
            let wb = words(b1);
            assert((wa + wb).update(wa.len() + wb.len() - 1, wb.last().push(b.last())) =~= wa + wb.update(
                wb.len() - 1,
                wb.last().push(b.last()),
            ));
        } else {
            if b.len() >= 2 {
                assert(s[s.len() - 2] == b[b.len() - 2]);
            } else {
                assert(s[s.len() - 2] == ' ');
            }
            assert((words(a) + words(b1)).push(seq![b.last()]) =~= words(a) + words(b1).push(seq![b.last()]));
        }
    }
}

pub fn digit_of(c: char) -> (r: Option<u8>)
    ensures
        r is Some <==> 0 <= digit_value(c),
        r matches Some(d) ==> d as int == digit_value(c) && d < 16,
{
    if '0' <= c && c <= '9' {
        Some((c as u32 - '0' as u32) as u8)
    } else if 'a' <= c && c <= 'f' {
        Some((c as u32 - 'a' as u32 + 10) as u8)
    } else if 'A' <= c && c <= 'F' {
        Some((c as u32 - 'A' as u32 + 10) as u8)
    } else {
        None
    }
}

pub fn char_of(d: u8) -> (c: char)
    requires
        d < 16,
    ensures
        c == digit_char(d as nat),
{
    if d < 10 {
        (d + 48u8) as char
    } else {
        (d + 87u8) as char
    }
}

pub fn is_space_char(c: char) -> (r: bool)
    ensures
        r == is_space(c),
{
    c == ' ' || c == '\t' || c == '\n' || c == '\r' || c == '\x0B' || c == '\x0C'
}

/// Relies on `String: FromIterator<char>`: the string holds the given characters.
#[verifier::external_body]
pub(crate) fn string_of(chars: Vec<char>) -> (r: String)
    ensures
        r@ == chars@,
{
    String::from_iter(chars)
}

/// Splits `s` into its whitespace-separated words.
pub fn split_words(s: &str) -> (r: Vec<String>)
    ensures
        r@.len() == words(s@).len(),
        forall|i: int| 0 <= i < r@.len() ==> #[trigger] r@[i]@ == words(s@)[i],
{
    let n = s.unicode_len();
    let mut out: Vec<String> = Vec::new();
    let mut start: usize = 0;
    let mut in_word = false;
    let mut i: usize = 0;
    while i < n
        invariant
            n == s@.len(),
            i <= n,
            in_word ==> start < i,
            in_word ==> forall|k: int| start <= k < i ==> !is_space(#[trigger] s@[k]),
            in_word ==> start == 0 || is_space(s@[start - 1]),
            !in_word ==> i == 0 || is_space(s@[i - 1]),
            in_word ==> words(s@.subrange(0, i as int)).len() == out@.len() + 1,
            in_word ==> words(s@.subrange(0, i as int)).last() == s@.subrange(start as int, i as int),
            !in_word ==> words(s@.subrange(0, i as int)).len() == out@.len(),
            forall|j: int| 0 <= j < out@.len() ==> #[trigger] out@[j]@ == words(s@.subrange(0, i as int))[j],
        decreases n - i,
    {
        let c = s.get_char(i);
        let ghost p = s@.subrange(0, i as int);
        let ghost q = s@.subrange(0, i + 1);
        assert(q.drop_last() =~= p);
        assert(q.last() == c);
        if is_space_char(c) {
            if in_word {
                let w = s.substring_char(start, i);
                out.push(String::from_str(w));
                in_word = false;
            }
        } else if in_word {
            assert(q.len() >= 2 && !is_space(q[q.len() - 2]));
            assert(s@.subrange(start as int, i + 1) =~= s@.subrange(start as int, i as int).push(c));
        } else {
            assert(!(q.len() >= 2 && !is_space(q[q.len() - 2])));
            assert(s@.subrange(i as int, i + 1) =~= seq![c]);
            start = i;
            in_word = true;
        }
        i = i + 1;
    }
    if in_word {
        let w = s.substring_char(start, n);
        out.push(String::from_str(w));
    }
    assert(s@.subrange(0, n as int) =~= s@);
    out
}

/// Reads an integer in the range `min..=max`, as `str::parse` does for the
/// integer types of Rust.
pub fn parse_int(s: &str, signed: bool, min: i128, max: i128) -> (r: Option<i128>)
    requires
        min <= 0 <= max,
        max <= u64::MAX,
        min >= -(u64::MAX as int),
    ensures
        r matches Some(v) ==> int_in_range(s@, signed, min as int, max as int) == Some(v as int),
        r is None ==> int_in_range(s@, signed, min as int, max as int) is None,
{
    let n = s.unicode_len();
    if n == 0 {
        return None;
    }
    let c0 = s.get_char(0);
    let has_sign = c0 == '+' || (signed && c0 == '-');
    let negative = c0 == '-' && has_sign;
    let start: usize = if has_sign { 1 } else { 0 };
    if start >= n {
        return None;
    }
    let ghost body = s@.subrange(start as int, n as int);
    proof {
        if has_sign {
            assert(body =~= s@.drop_first());
        } else {
            assert(body =~= s@);
        }
    }
    let limit: u128 = 0x1_0000_0000_0000_0000;
    let mut acc: u128 = 0;
    let mut over = false;
    let mut i: usize = start;
    while i < n
        invariant
            n == s@.len(),
            start <= i <= n,
            start < n,
            body == s@.subrange(start as int, n as int),
            has_sign ==> body == s@.drop_first(),
            !has_sign ==> body == s@,
            has_sign == (s@[0] == '+' || (signed && s@[0] == '-')),
            negative == (has_sign && s@[0] == '-'),
            limit == 0x1_0000_0000_0000_0000u128,
            forall|k: int| start <= k < i ==> 0 <= #[trigger] digit_value(s@[k]) < 10,
            !over ==> acc as int == digits_value(s@.subrange(start as int, i as int), 10),
            !over ==> acc <= limit,
            over ==> digits_value(s@.subrange(start as int, i as int), 10) > limit,
            digits_value(s@.subrange(start as int, i as int), 10) >= 0,
        decreases n - i,
    {
        let c = s.get_char(i);
        let d = match digit_of(c) {
            Some(d) => d,
            None => {
                assert(!is_digits(body, 10)) by {
                    assert(body[i - start] == c);
                }
                return None;
            },
        };
        if d >= 10 {
            assert(!is_digits(body, 10)) by {
                assert(body[i - start] == c);
            }
            return None;
        }
        let ghost prev = s@.subrange(start as int, i as int);
        let ghost next = s@.subrange(start as int, i + 1);
        assert(next.drop_last() =~= prev);
        assert(next.last() == c);
        let ghost pv = digits_value(prev, 10);
        assert(digits_value(next, 10) == 10 * pv + d);
        if !over {
            if acc > limit / 10 {
                over = true;
                assert(10 * pv + d > limit) by (nonlinear_arith)
                    requires pv == acc, acc > limit / 10, limit == 0x1_0000_0000_0000_0000u128, d >= 0;
            } else {
                acc = acc * 10 + d as u128;
                if acc > limit {
                    over = true;
                }
            }
        } else {
            assert(10 * pv + d > limit) by (nonlinear_arith)
                requires pv > limit, d >= 0;
        }
        i = i + 1;
    }
    assert(s@.subrange(start as int, n as int) == body);
    assert(is_digits(body, 10)) by {
        assert forall|k: int| 0 <= k < body.len() implies 0 <= #[trigger] digit_value(body[k]) < 10 by {
            assert(body[k] == s@[start + k]);
        }
    }
    if over {
        return None;
    }
    let v: i128 = if negative { -(acc as i128) } else { acc as i128 };
    if v < min || v > max {
        return None;
    }
    Some(v)
}

/// A run of digits of `base` whose value is at most `max`.
pub open spec fn bounded_digits(s: Seq<char>, base: int, max: int) -> Option<int> {
    if is_digits(s, base) && digits_value(s, base) <= max {
        Some(digits_value(s, base))
    } else {
        None
    }
}

/// Reads the digits of `s` in `base` (2 to 16, either case), up to `max`.
pub fn parse_digits(s: &str, base: u8, max: u64) -> (r: Option<u64>)
    requires
        2 <= base <= 16,
    ensures
        r matches Some(v) ==> bounded_digits(s@, base as int, max as int) == Some(v as int),
        r is None ==> bounded_digits(s@, base as int, max as int) is None,
{
    let n = s.unicode_len();
    if n == 0 {
        return None;
    }
    let b = base as u128;
    let limit = max as u128;
    let mut acc: u128 = 0;
    let mut over = false;
    let mut i: usize = 0;
    while i < n
        invariant
            n == s@.len(),
            i <= n,
            b == base,
            2 <= b <= 16,
            limit == max,
            forall|k: int| 0 <= k < i ==> 0 <= #[trigger] digit_value(s@[k]) < base,
            !over ==> acc as int == digits_value(s@.subrange(0, i as int), base as int) && acc <= limit,
            over ==> digits_value(s@.subrange(0, i as int), base as int) > limit,
            digits_value(s@.subrange(0, i as int), base as int) >= 0,
        decreases n - i,
    {
        let c = s.get_char(i);
        let d = match digit_of(c) {
            Some(d) => d,
            None => {
                return None;
            },
        };
        if d >= base {
            return None;
        }
        let ghost prev = s@.subrange(0, i as int);
        let ghost next = s@.subrange(0, i + 1);
        assert(next.drop_last() =~= prev);
        assert(next.last() == c);
        let ghost pv = digits_value(prev, base as int);
        assert(digits_value(next, base as int) == base * pv + d);
        if !over {
            assert(acc * b + d as u128 <= 0xFFFF_FFFF_FFFF_FFFF * 16 + 16) by (nonlinear_arith)
                requires acc <= limit, limit <= 0xFFFF_FFFF_FFFF_FFFFu128, b <= 16, d < 16;
            acc = acc * b + d as u128;
            if acc > limit {
                over = true;
            }
        } else {
            assert(base * pv + d > limit) by (nonlinear_arith)
                requires pv > limit, base >= 2, d >= 0, limit >= 0;
        }
        i = i + 1;
    }
    assert(s@.subrange(0, n as int) =~= s@);
    if over {
        return None;
    }
    Some(acc as u64)
}

/// `s` holds `c` exactly once, at `i`.
pub open spec fn single_char(s: Seq<char>, c: char, i: int) -> bool {
    0 <= i < s.len() && s[i] == c && forall|j: int| 0 <= j < s.len() && j != i ==> s[j] != c
}

/// The one position of `c` in `s`, if `c` occurs there exactly once.
pub fn find_single(s: &str, c: char) -> (r: Option<usize>)
    ensures
        r matches Some(i) ==> single_char(s@, c, i as int),
        r is None ==> !(exists|i: int| single_char(s@, c, i)),
{
    let n = s.unicode_len();
    let mut count: usize = 0;
    let mut at: usize = 0;
    let mut i: usize = 0;
    while i < n
        invariant
            n == s@.len(),
            i <= n,
            count <= 2,
            count == 0 ==> forall|j: int| 0 <= j < i ==> s@[j] != c,
            count >= 1 ==> at < i && s@[at as int] == c,
            count == 1 ==> forall|j: int| 0 <= j < i && j != at ==> s@[j] != c,
            count >= 2 ==> !(exists|k: int| single_char(s@, c, k)),
        decreases n - i,
    {
        if s.get_char(i) == c {
            if count == 0 {
                at = i;
            }
            proof {
                if count >= 1 {
                    assert forall|k: int| !single_char(s@, c, k) by {
                        if single_char(s@, c, k) {
                            assert(k == at || k == i);
                        }
                    }
                }
            }
            if count < 2 {
                count = count + 1;
            }
        }
        i = i + 1;
    }
    if count != 1 {
        return None;
    }
    Some(at)
}

/// An address of one to four hexadecimal digits, without prefix.
pub open spec fn hex_u16(s: Seq<char>) -> Option<int> {
    if 1 <= s.len() <= 4 && is_digits(s, 16) {
        Some(digits_value(s, 16))
    } else {
        None
    }
}

pub open spec fn pow16(k: nat) -> int
    decreases k,
{
    if k == 0 { 1 } else { 16 * pow16((k - 1) as nat) }
}

proof fn lemma_pow16_small()
    ensures
        pow16(0) == 1,
        pow16(1) == 16,
        pow16(2) == 256,
        pow16(3) == 4096,
        pow16(4) == 65536,
{
    assert(pow16(0) == 1);
    assert(pow16(1) == 16 * pow16(0));
    assert(pow16(2) == 16 * pow16(1));
    assert(pow16(3) == 16 * pow16(2));
    assert(pow16(4) == 16 * pow16(3));
}

pub fn parse_hex_u16(s: &str) -> (r: Option<u16>)
    ensures
        r matches Some(v) ==> hex_u16(s@) == Some(v as int),
        r is None ==> hex_u16(s@) is None,
{
    let n = s.unicode_len();
    if n == 0 || n > 4 {
        return None;
    }
    let mut acc: u32 = 0;
    let mut i: usize = 0;
    while i < n
        invariant
            n == s@.len(),
            1 <= n <= 4,
            i <= n,
            forall|k: int| 0 <= k < i ==> 0 <= #[trigger] digit_value(s@[k]) < 16,
            acc as int == digits_value(s@.subrange(0, i as int), 16),
            acc < pow16(i as nat),
            pow16(i as nat) <= 65536,
        decreases n - i,
    {
        let c = s.get_char(i);
        let d = match digit_of(c) {
            Some(d) => d,
            None => {
                return None;
            },
        };
        let ghost prev = s@.subrange(0, i as int);
        let ghost next = s@.subrange(0, i + 1);
        assert(next.drop_last() =~= prev);
        assert(next.last() == c);
        assert(pow16((i + 1) as nat) == 16 * pow16(i as nat));
        proof {
            lemma_pow16_small();
        }
        assert(acc * 16 + d < 16 * pow16(i as nat)) by (nonlinear_arith)
            requires acc < pow16(i as nat), d < 16;
        acc = acc * 16 + d as u32;
        i = i + 1;
    }
    assert(s@.subrange(0, n as int) =~= s@);
    Some(acc as u16)
}

/// Appends the digits of `n` in `base` to `out`.
pub fn push_digits(n: u64, base: u64, out: &mut Vec<char>)
    requires
        2 <= base <= 16,
    ensures
        final(out)@ == old(out)@ + render(n as nat, base as nat),
    decreases n,
{
    if n >= base {
        proof {
            lemma_div_decreases(n as int, base as int);
        }
        push_digits(n / base, base, out);
    }
    let d = (n % base) as u8;
    out.push(char_of(d));
    proof {
        if n >= base {
            assert(render(n as nat, base as nat) == render((n / base) as nat, base as nat).push(digit_char((n % base) as nat)));
        } else {
            assert((n % base) == n) by (nonlinear_arith)
                requires n < base;
        }
    }
    assert(final(out)@ =~= old(out)@ + render(n as nat, base as nat)) by {
        if n < base {
            assert(render(n as nat, base as nat) =~= seq![digit_char(n as nat)]);
        }
    }
}

/// Appends `v` in decimal to `out`.
pub fn push_int(v: i128, out: &mut Vec<char>)
    requires
        -(u64::MAX as int) <= v <= u64::MAX,
    ensures
        final(out)@ == old(out)@ + render_int(v as int),
{
    if v < 0 {
        out.push('-');
        push_digits((-v) as u64, 10, out);
        assert(final(out)@ =~= old(out)@ + render_int(v as int));
    } else {
        push_digits(v as u64, 10, out);
    }
}

/// Appends the characters of `s` to `out`.
pub fn push_str(s: &str, out: &mut Vec<char>)
    ensures
        final(out)@ == old(out)@ + s@,
{
    let n = s.unicode_len();
    let mut i: usize = 0;
    while i < n
        invariant
            n == s@.len(),
            i <= n,
            out@ == old(out)@ + s@.subrange(0, i as int),
        decreases n - i,
    {
        let c = s.get_char(i);
        out.push(c);
        assert(s@.subrange(0, i + 1) =~= s@.subrange(0, i as int).push(c));
        i = i + 1;
    }
    assert(s@.subrange(0, n as int) =~= s@);
}

} // verus!
