//! Reading text: words, and the numbers they write.
use vstd::prelude::*;

verus! {

/// The characters that separate words: those with the Unicode property
/// `White_Space`.
pub open spec fn is_space(c: char) -> bool {
    let u = c as u32;
    (0x09 <= u <= 0x0d) || u == 0x20 || u == 0x85 || u == 0xa0 || u == 0x1680 || (0x2000 <= u
        <= 0x200a) || u == 0x2028 || u == 0x2029 || u == 0x202f || u == 0x205f || u == 0x3000
}

/// What stands before the first `stop` in `s`; all of `s`, if it has none.
pub open spec fn until(s: Seq<char>, stop: char) -> Seq<char>
    decreases s.len(),
{
    if s.len() == 0 || s[0] == stop {
        Seq::empty()
    } else {
        seq![s[0]] + until(s.drop_first(), stop)
    }
}

/// Reading `s` from the left: the words that have ended, and the word
/// under way.
pub open spec fn scan(s: Seq<char>) -> (Seq<Seq<char>>, Seq<char>)
    decreases s.len(),
{
    if s.len() == 0 {
        (Seq::empty(), Seq::empty())
    } else {
        let (done, word) = scan(s.drop_last());
        if !is_space(s.last()) {
            (done, word.push(s.last()))
        } else if word.len() > 0 {
            (done.push(word), Seq::empty())
        } else {
            (done, word)
        }
    }
}

/// The words of `s`: its maximal runs of characters that are not spaces,
/// from left to right.
pub open spec fn words(s: Seq<char>) -> Seq<Seq<char>> {
    let (done, word) = scan(s);
    if word.len() > 0 {
        done.push(word)
    } else {
        done
    }
}

/// Each word as a sequence of characters.
pub open spec fn views(v: Seq<Vec<char>>) -> Seq<Seq<char>> {
    Seq::new(v.len(), |i: int| v[i]@)
}

/// The value of a digit.
pub open spec fn digit_value(c: char) -> int {
    (c as u32) - 0x30
}

/// Whether `c` is one of the digits `0` to `9`.
pub open spec fn is_digit(c: char) -> bool {
    0x30 <= (c as u32) <= 0x39
}

/// Whether `s` holds nothing but digits.
pub open spec fn all_digits(s: Seq<char>) -> bool {
    forall|i: int| 0 <= i < s.len() ==> is_digit(#[trigger] s[i])
}

/// The number that a run of digits writes in base ten.
pub open spec fn decimal_value(s: Seq<char>) -> nat
    decreases s.len(),
{
    if s.len() == 0 {
        0
    } else {
        (decimal_value(s.drop_last()) * 10 + digit_value(s.last())) as nat
    }
}

/// `s` without a leading plus sign.
pub open spec fn unsigned_part(s: Seq<char>) -> Seq<char> {
    if s.len() > 0 && s[0] == '+' {
        s.drop_first()
    } else {
        s
    }
}

/// The number that `s` writes: digits, at least one, with a plus sign in
/// front if one likes, and no more than 32 bits can hold.
pub open spec fn parse_u32_spec(s: Seq<char>) -> Option<u32> {
    let body = unsigned_part(s);
    if body.len() > 0 && all_digits(body) && decimal_value(body) <= u32::MAX {
        Some(decimal_value(body) as u32)
    } else {
        None
    }
}

/// Largest whole part of a number with a fraction (nine million million).
pub const MAX_WHOLE: u64 = 9_000_000_000_000;

/// What the digits behind a decimal point are worth in millionths, the
/// first of them being worth `unit` each and every next a tenth of that.
/// Digits past the sixth are worth nothing.
pub open spec fn micros(frac: Seq<char>, unit: int) -> int
    decreases frac.len(),
{
    if frac.len() == 0 {
        0
    } else {
        digit_value(frac[0]) * unit + micros(frac.drop_first(), unit / 10)
    }
}

/// `s` without a leading sign.
pub open spec fn magnitude_part(s: Seq<char>) -> Seq<char> {
    if s.len() > 0 && (s[0] == '+' || s[0] == '-') {
        s.drop_first()
    } else {
        s
    }
}

/// The digits of `body` behind its first decimal point.
pub open spec fn fraction_part(body: Seq<char>) -> Seq<char> {
    let whole = until(body, '.');
    if whole.len() < body.len() {
        body.subrange(whole.len() as int + 1, body.len() as int)
    } else {
        Seq::empty()
    }
}

/// The number that `s` writes, in millionths: a sign if one likes, digits,
/// and behind a decimal point more digits; at least one digit in all, and
/// a whole part of no more than [`MAX_WHOLE`]. Of the fraction six digits
/// count. Exponents are not understood.
pub open spec fn parse_fixed_spec(s: Seq<char>) -> Option<i64> {
    let body = magnitude_part(s);
    let whole = until(body, '.');
    let frac = fraction_part(body);
    if whole.len() + frac.len() > 0 && all_digits(whole) && all_digits(frac) && decimal_value(whole)
        <= MAX_WHOLE {
        let magnitude = decimal_value(whole) * 1_000_000 + micros(frac, 100_000);
        if s[0] == '-' {
            Some((-magnitude) as i64)
        } else {
            Some(magnitude as i64)
        }
    } else {
        None
    }
}

/// More digits never write a smaller number.
pub proof fn lemma_decimal_value_grows(s: Seq<char>, k: int)
    requires
        0 <= k <= s.len(),
        all_digits(s),
    ensures
        decimal_value(s.subrange(0, k)) <= decimal_value(s),
    decreases s.len() - k,
{
    if k < s.len() {
        lemma_decimal_value_grows(s, k + 1);
        let longer = s.subrange(0, k + 1);
        assert(longer.drop_last() =~= s.subrange(0, k));
        assert(is_digit(s[k]));
        assert(longer.last() == s[k]);
    } else {
        assert(s.subrange(0, k) =~= s);
    }
}

/// Once `s` is known to have no `stop` in its first `k` places, what
/// stands before its first `stop` is those `k` characters and what stands
/// before the first `stop` of the rest.
pub proof fn lemma_until_split(s: Seq<char>, stop: char, k: int)
    requires
        0 <= k <= s.len(),
        forall|j: int| 0 <= j < k ==> s[j] != stop,
    ensures
        until(s, stop) == s.subrange(0, k) + until(s.subrange(k, s.len() as int), stop),
    decreases k,
{
    if k == 0 {
        assert(s.subrange(0, 0) + until(s.subrange(0, s.len() as int), stop) =~= until(
            s.subrange(0, s.len() as int),
            stop,
        ));
        assert(s.subrange(0, s.len() as int) =~= s);
    } else {
        let rest = s.drop_first();
        assert forall|j: int| 0 <= j < k - 1 implies rest[j] != stop by {
            assert(rest[j] == s[j + 1]);
        }
        lemma_until_split(rest, stop, k - 1);
        assert(rest.subrange(k - 1, rest.len() as int) =~= s.subrange(k, s.len() as int));
        assert(seq![s[0]] + rest.subrange(0, k - 1) =~= s.subrange(0, k));
        assert(seq![s[0]] + (rest.subrange(0, k - 1) + until(s.subrange(k, s.len() as int), stop))
            =~= s.subrange(0, k) + until(s.subrange(k, s.len() as int), stop));
    }
}

/// Whether `c` separates words.
pub fn is_blank(c: char) -> (r: bool)
    ensures
        r == is_space(c),
{
    let u: u32 = c as u32;
    (0x09 <= u && u <= 0x0d) || u == 0x20 || u == 0x85 || u == 0xa0 || u == 0x1680 || (0x2000 <= u
        && u <= 0x200a) || u == 0x2028 || u == 0x2029 || u == 0x202f || u == 0x205f || u == 0x3000
}

/// The characters of a string, one by one.
pub fn chars_of(text: &str) -> (v: Vec<char>)
    ensures
        v@ == text@,
{
    let mut v: Vec<char> = Vec::new();
    for c in it: text.chars()
        invariant
            v@ == text@.subrange(0, it.index() as int),
            it.seq() == text@,
    {
        v.push(c);
        proof {
            assert(v@ =~= text@.subrange(0, it.index() + 1));
        }
    }
    proof {
        assert(text@.subrange(0, text@.len() as int) =~= text@);
    }
    v
}

/// Whether two words are the same.
pub fn same_chars(a: &Vec<char>, b: &Vec<char>) -> (r: bool)
    ensures
        r == (a@ == b@),
{
    if a.len() != b.len() {
        return false;
    }
    let mut i: usize = 0;
    while i < a.len()
        invariant
            i <= a.len(),
            a.len() == b.len(),
            forall|j: int| 0 <= j < i ==> a[j] == b[j],
        decreases a.len() - i,
    {
        if a[i] != b[i] {
            return false;
        }
        i += 1;
    }
    proof {
        assert(a@ =~= b@);
    }
    true
}

/// What stands before the first `stop` in `chars`.
pub fn take_until(chars: &Vec<char>, stop: char) -> (head: Vec<char>)
    ensures
        head@ == until(chars@, stop),
{
    let n: usize = chars.len();
    let mut head: Vec<char> = Vec::new();
    let mut i: usize = 0;
    while i < n && chars[i] != stop
        invariant
            i <= n,
            n == chars.len(),
            forall|j: int| 0 <= j < i ==> chars[j] != stop,
            head@ == chars@.subrange(0, i as int),
        decreases n - i,
    {
        head.push(chars[i]);
        proof {
            assert(head@ =~= chars@.subrange(0, i + 1));
        }
        i += 1;
    }
    proof {
        lemma_until_split(chars@, stop, i as int);
        assert(until(chars@.subrange(i as int, n as int), stop) =~= Seq::empty());
        assert(chars@.subrange(0, i as int) + Seq::<char>::empty() =~= chars@.subrange(0, i as int));
    }
    head
}

/// The words of `chars`.
pub fn split_words(chars: &Vec<char>) -> (w: Vec<Vec<char>>)
    ensures
        views(w@) == words(chars@),
{
    let n: usize = chars.len();
    let mut done: Vec<Vec<char>> = Vec::new();
    let mut word: Vec<char> = Vec::new();
    let mut i: usize = 0;
    proof {
        assert(views(done@) =~= scan(chars@.subrange(0, 0)).0);
    }
    while i < n
        invariant
            i <= n,
            n == chars.len(),
            (views(done@), word@) == scan(chars@.subrange(0, i as int)),
        decreases n - i,
    {
        let c: char = chars[i];
        let ghost prefix = chars@.subrange(0, i + 1);
        proof {
            assert(prefix.drop_last() =~= chars@.subrange(0, i as int));
            assert(prefix.last() == c);
        }
        if !is_blank(c) {
            word.push(c);
        } else if word.len() > 0 {
            let ghost before = views(done@);
            let mut finished: Vec<char> = Vec::new();
            std::mem::swap(&mut finished, &mut word);
            done.push(finished);
            proof {
                assert(views(done@) =~= before.push(finished@));
            }
        }
        i += 1;
    }
    proof {
        assert(chars@.subrange(0, n as int) =~= chars@);
    }
    if word.len() > 0 {
        let ghost before = views(done@);
        done.push(word);
        proof {
            assert(views(done@) =~= before.push(word@));
        }
    }
    done
}

/// The number that `s` writes, if it writes one that fits 32 bits.
pub fn parse_u32(s: &Vec<char>) -> (r: Option<u32>)
    ensures
        r == parse_u32_spec(s@),
{
    let n: usize = s.len();
    let start: usize = if n > 0 && s[0] == '+' {
        1
    } else {
        0
    };
    let ghost body = unsigned_part(s@);
    proof {
        assert(body =~= s@.subrange(start as int, n as int));
    }
    if start == n {
        return None;
    }
    let mut acc: u64 = 0;
    let mut i: usize = start;
    while i < n
        invariant
            start <= i <= n,
            n == s.len(),
            body == s@.subrange(start as int, n as int),
            body == unsigned_part(s@),
            all_digits(body.subrange(0, i - start)),
            acc == decimal_value(body.subrange(0, i - start)),
            acc <= u32::MAX,
        decreases n - i,
    {
        let u: u32 = s[i] as u32;
        let ghost prefix = body.subrange(0, i - start + 1);
        proof {
            assert(prefix.drop_last() =~= body.subrange(0, i - start));
            assert(prefix.last() == s@[i as int]);
        }
        if u < 0x30 || u > 0x39 {
            proof {
                assert(body[i - start] == s@[i as int]);
                assert(!is_digit(body[i - start]));
            }
            return None;
        }
        acc = acc * 10 + ((u - 0x30) as u64);
        proof {
            assert forall|j: int| 0 <= j < prefix.len() implies is_digit(#[trigger] prefix[j]) by {
                if j < i - start {
                    assert(body.subrange(0, i - start)[j] == prefix[j]);
                }
            }
            assert(acc == decimal_value(prefix));
        }
        if acc > 0xffff_ffff {
            proof {
                if all_digits(body) {
                    lemma_decimal_value_grows(body, i - start + 1);
                }
            }
            return None;
        }
        i += 1;
    }
    proof {
        assert(body.subrange(0, n - start) =~= body);
    }
    Some(acc as u32)
}

/// Reads the digits of `s` from `start` up to the first decimal point or
/// the end: their value, and where they end.
pub fn read_whole(s: &Vec<char>, start: usize) -> (r: Option<(u64, usize)>)
    requires
        start <= s.len(),
    ensures
        ({
            let w = until(s@.subrange(start as int, s.len() as int), '.');
            match r {
                Some((value, end)) => all_digits(w) && value == decimal_value(w) && value
                    <= MAX_WHOLE && end == start + w.len() && end <= s.len(),
                None => !(all_digits(w) && decimal_value(w) <= MAX_WHOLE),
            }
        }),
{
    let n: usize = s.len();
    let ghost body = s@.subrange(start as int, n as int);
    let mut whole: u64 = 0;
    let mut i: usize = start;
    while i < n && s[i] != '.'
        invariant
            start <= i <= n,
            n == s.len(),
            body == s@.subrange(start as int, n as int),
            forall|j: int| 0 <= j < i - start ==> body[j] != '.',
            all_digits(body.subrange(0, i - start)),
            whole == decimal_value(body.subrange(0, i - start)),
            whole <= MAX_WHOLE,
        decreases n - i,
    {
        let u: u32 = s[i] as u32;
        let ghost k = i - start;
        let ghost prefix = body.subrange(0, k + 1);
        proof {
            assert(prefix.drop_last() =~= body.subrange(0, k));
            assert(prefix.last() == s@[i as int]);
            assert(body[k] == s@[i as int]);
            assert forall|j: int| 0 <= j < k + 1 implies body[j] != '.' by {}
            lemma_until_split(body, '.', k + 1);
            assert(until(body, '.')[k] == body[k]);
            assert(until(body, '.').subrange(0, k + 1) =~= prefix);
        }
        if u < 0x30 || u > 0x39 {
            proof {
                assert(!is_digit(until(body, '.')[k]));
            }
            return None;
        }
        whole = whole * 10 + ((u - 0x30) as u64);
        proof {
            assert forall|j: int| 0 <= j < prefix.len() implies is_digit(#[trigger] prefix[j]) by {
                if j < k {
                    assert(body.subrange(0, k)[j] == prefix[j]);
                }
            }
            assert(whole == decimal_value(prefix));
        }
        if whole > MAX_WHOLE {
            proof {
                if all_digits(until(body, '.')) {
                    lemma_decimal_value_grows(until(body, '.'), k + 1);
                }
            }
            return None;
        }
        i += 1;
    }
    proof {
        let whole_len = i - start;
        lemma_until_split(body, '.', whole_len);
        assert(until(body.subrange(whole_len, body.len() as int), '.') =~= Seq::empty());
        assert(body.subrange(0, whole_len) + Seq::<char>::empty() =~= body.subrange(0, whole_len));
    }
    Some((whole, i))
}

/// Reads the digits of `s` from `from` to the end as the fraction behind a
/// decimal point: what they are worth in millionths.
pub fn read_fraction(s: &Vec<char>, from: usize) -> (r: Option<u64>)
    requires
        from <= s.len(),
    ensures
        ({
            let f = s@.subrange(from as int, s.len() as int);
            match r {
                Some(m) => all_digits(f) && m == micros(f, 100_000) && m < 1_000_000,
                None => !all_digits(f),
            }
        }),
{
    let n: usize = s.len();
    let ghost frac = s@.subrange(from as int, n as int);
    let mut micro: u64 = 0;
    let mut unit: u64 = 100_000;
    let mut i: usize = from;
    proof {
        assert(frac.subrange(0, frac.len() as int) =~= frac);
    }
    while i < n
        invariant
            from <= i <= n,
            n == s.len(),
            frac == s@.subrange(from as int, n as int),
            all_digits(frac.subrange(0, i - from)),
            micro + micros(frac.subrange(i - from, frac.len() as int), unit as int) == micros(
                frac,
                100_000,
            ),
            micro + 10 * unit <= 1_000_000,
            micro < 1_000_000,
        decreases n - i,
    {
        let u: u32 = s[i] as u32;
        let ghost k = i - from;
        let ghost rest = frac.subrange(k, frac.len() as int);
        proof {
            assert(rest[0] == s@[i as int]);
            assert(frac[k] == s@[i as int]);
            assert(rest.drop_first() =~= frac.subrange(k + 1, frac.len() as int));
        }
        if u < 0x30 || u > 0x39 {
            proof {
                assert(!is_digit(frac[k]));
            }
            return None;
        }
        let digit: u64 = (u - 0x30) as u64;
        assert(digit * unit <= 9 * unit) by (nonlinear_arith)
            requires
                digit <= 9,
        ;
        micro = micro + digit * unit;
        unit = unit / 10;
        proof {
            assert forall|j: int| 0 <= j < k + 1 implies is_digit(
                #[trigger] frac.subrange(0, k + 1)[j],
            ) by {
                if j < k {
                    assert(frac.subrange(0, k)[j] == frac.subrange(0, k + 1)[j]);
                }
            }
        }
        i += 1;
    }
    proof {
        assert(frac.subrange(0, frac.len() as int) =~= frac);
        assert(frac.subrange(frac.len() as int, frac.len() as int) =~= Seq::<char>::empty());
    }
    Some(micro)
}

/// The number that `s` writes, in millionths, if it writes one.
pub fn parse_fixed(s: &Vec<char>) -> (r: Option<i64>)
    ensures
        r == parse_fixed_spec(s@),
{
    let n: usize = s.len();
    let negative: bool = n > 0 && s[0] == '-';
    let start: usize = if n > 0 && (s[0] == '+' || s[0] == '-') {
        1
    } else {
        0
    };
    let ghost body = magnitude_part(s@);
    proof {
        assert(body =~= s@.subrange(start as int, n as int));
    }
    match read_whole(s, start) {
        None => None,
        Some((whole, end)) => {
            let from: usize = if end < n {
                end + 1
            } else {
                end
            };
            proof {
                assert(fraction_part(body) =~= s@.subrange(from as int, n as int));
            }
            match read_fraction(s, from) {
                None => None,
                Some(micro) => {
                    if (end - start) + (n - from) == 0 {
                        None
                    } else {
                        let magnitude: i64 = (whole * 1_000_000 + micro) as i64;
                        if negative {
                            Some(-magnitude)
                        } else {
                            Some(magnitude)
                        }
                    }
                },
            }
        },
    }
}


/// What stands before the first `stop` in `s` is a beginning of `s`.
pub proof fn lemma_until_is_prefix(s: Seq<char>, stop: char)
    ensures
        until(s, stop).len() <= s.len(),
        until(s, stop) == s.subrange(0, until(s, stop).len() as int),
        forall|j: int| 0 <= j < until(s, stop).len() ==> s[j] != stop,
        until(s, stop).len() < s.len() ==> s[until(s, stop).len() as int] == stop,
    decreases s.len(),
{
    if s.len() == 0 || s[0] == stop {
        assert(until(s, stop) =~= s.subrange(0, 0));
    } else {
        let rest = s.drop_first();
        lemma_until_is_prefix(rest, stop);
        let k = until(rest, stop).len() as int;
        assert(until(s, stop) =~= s.subrange(0, k + 1)) by {
            assert(rest.subrange(0, k) =~= s.subrange(1, k + 1));
            assert(seq![s[0]] + s.subrange(1, k + 1) =~= s.subrange(0, k + 1));
        }
        assert forall|j: int| 0 <= j < until(s, stop).len() implies s[j] != stop by {
            if j > 0 {
                assert(rest[j - 1] == s[j]);
            }
        }
        if k < rest.len() {
            assert(rest[k] == s[k + 1]);
        }
    }
}

/// Reading `s` from the left: the fields between separators that have
/// ended, and the field under way.
pub open spec fn scan_fields(s: Seq<char>, sep: char) -> (Seq<Seq<char>>, Seq<char>)
    decreases s.len(),
{
    if s.len() == 0 {
        (Seq::empty(), Seq::empty())
    } else {
        let (done, field) = scan_fields(s.drop_last(), sep);
        if s.last() == sep {
            (done.push(field), Seq::empty())
        } else {
            (done, field.push(s.last()))
        }
    }
}

/// The fields of `s`: what stands before, between and behind its
/// separators. There is always one field more than there are separators,
/// and a field may be empty.
pub open spec fn fields(s: Seq<char>, sep: char) -> Seq<Seq<char>> {
    scan_fields(s, sep).0.push(scan_fields(s, sep).1)
}

/// The fields of `chars`.
pub fn split_fields(chars: &Vec<char>, sep: char) -> (f: Vec<Vec<char>>)
    ensures
        views(f@) == fields(chars@, sep),
        f.len() >= 1,
{
    let n: usize = chars.len();
    let mut done: Vec<Vec<char>> = Vec::new();
    let mut field: Vec<char> = Vec::new();
    let mut i: usize = 0;
    proof {
        assert(views(done@) =~= scan_fields(chars@.subrange(0, 0), sep).0);
    }
    while i < n
        invariant
            i <= n,
            n == chars.len(),
            (views(done@), field@) == scan_fields(chars@.subrange(0, i as int), sep),
        decreases n - i,
    {
        let c: char = chars[i];
        proof {
            assert(chars@.subrange(0, i + 1).drop_last() =~= chars@.subrange(0, i as int));
        }
        if c == sep {
            let ghost before = views(done@);
            let mut finished: Vec<char> = Vec::new();
            std::mem::swap(&mut finished, &mut field);
            done.push(finished);
            proof {
                assert(views(done@) =~= before.push(finished@));
            }
        } else {
            field.push(c);
        }
        i += 1;
    }
    proof {
        assert(chars@.subrange(0, n as int) =~= chars@);
    }
    let ghost before = views(done@);
    done.push(field);
    proof {
        assert(views(done@) =~= before.push(field@));
    }
    done
}

/// Largest size of a whole number with a sign that is read.
pub const MAX_INDEX: u64 = 0x7fff_ffff;

/// The whole number that `s` writes: a sign if one likes, and digits, at
/// least one, that write no more than [`MAX_INDEX`].
pub open spec fn parse_index_spec(s: Seq<char>) -> Option<i64> {
    let body = magnitude_part(s);
    if body.len() > 0 && all_digits(body) && decimal_value(body) <= MAX_INDEX {
        if s[0] == '-' {
            Some((-decimal_value(body)) as i64)
        } else {
            Some(decimal_value(body) as i64)
        }
    } else {
        None
    }
}

/// The whole number that `s` writes, if it writes one.
pub fn parse_index(s: &Vec<char>) -> (r: Option<i64>)
    ensures
        r == parse_index_spec(s@),
{
    let n: usize = s.len();
    let negative: bool = n > 0 && s[0] == '-';
    let start: usize = if n > 0 && (s[0] == '+' || s[0] == '-') {
        1
    } else {
        0
    };
    let ghost body = magnitude_part(s@);
    proof {
        assert(body =~= s@.subrange(start as int, n as int));
        lemma_until_is_prefix(body, '.');
    }
    if start == n {
        return None;
    }
    match read_whole(s, start) {
        None => {
            proof {
                let w = until(body, '.');
                if all_digits(body) {
                    assert(w.len() == body.len()) by {
                        if w.len() < body.len() {
                            assert(!is_digit(body[w.len() as int]));
                        }
                    }
                    assert(w =~= body);
                }
            }
            None
        },
        Some((value, end)) => {
            if end < n {
                proof {
                    let w = until(body, '.');
                    assert(body[w.len() as int] == '.');
                    assert(!is_digit(body[w.len() as int]));
                }
                None
            } else {
                proof {
                    assert(until(body, '.') =~= body);
                }
                if value > MAX_INDEX {
                    None
                } else if negative {
                    Some(-(value as i64))
                } else {
                    Some(value as i64)
                }
            }
        },
    }
}


/// No word is empty.
pub proof fn lemma_words_have_letters(s: Seq<char>)
    ensures
        forall|k: int| 0 <= k < words(s).len() ==> (#[trigger] words(s)[k]).len() > 0,
        forall|k: int| 0 <= k < scan(s).0.len() ==> (#[trigger] scan(s).0[k]).len() > 0,
    decreases s.len(),
{
    if s.len() > 0 {
        lemma_words_have_letters(s.drop_last());
        let (done, word) = scan(s.drop_last());
        assert forall|k: int| 0 <= k < scan(s).0.len() implies (#[trigger] scan(s).0[k]).len()
            > 0 by {
            if k < done.len() {
                assert(scan(s).0[k] == done[k]);
            }
        }
    }
    assert forall|k: int| 0 <= k < words(s).len() implies (#[trigger] words(s)[k]).len() > 0 by {
        if k < scan(s).0.len() {
            assert(words(s)[k] == scan(s).0[k]);
        }
    }
}

} // verus!
