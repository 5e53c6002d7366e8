//! Character-level string operations used by the adapters and the embed
//! resolver, each stated over the `Seq<char>` view of its arguments.
use vstd::prelude::*;
use vstd::string::*;

verus! {

/// `pat` occurs in `s` starting at character position `i`.
pub open spec fn occurs_at(s: Seq<char>, pat: Seq<char>, i: int) -> bool {
    0 <= i && i + pat.len() <= s.len() && s.subrange(i, i + pat.len()) == pat
}

/// The first position at or after `i` where `pat` occurs in `s`.
pub open spec fn find_from(s: Seq<char>, pat: Seq<char>, i: int) -> Option<int>
    decreases s.len() - i,
{
    if i < 0 || i + pat.len() > s.len() {
        None
    } else if occurs_at(s, pat, i) {
        Some(i)
    } else if i >= s.len() {
        None
    } else {
        find_from(s, pat, i + 1)
    }
}

proof fn lemma_find_from_bounds(s: Seq<char>, pat: Seq<char>, i: int)
    ensures
        find_from(s, pat, i) matches Some(k) ==> i <= k && k + pat.len() <= s.len()
            && occurs_at(s, pat, k),
    decreases s.len() - i,
{
    if i < 0 || i + pat.len() > s.len() {
    } else if occurs_at(s, pat, i) {
    } else if i >= s.len() {
    } else {
        lemma_find_from_bounds(s, pat, i + 1);
    }
}

/// The first position where `pat` occurs in `s`.
pub open spec fn find(s: Seq<char>, pat: Seq<char>) -> Option<int> {
    find_from(s, pat, 0)
}

/// `s` with every non-overlapping occurrence of a non-empty `pat`, scanned
/// from the left, replaced by `rep`.
pub open spec fn replace_all(s: Seq<char>, pat: Seq<char>, rep: Seq<char>) -> Seq<char>
    decreases s.len(),
{
    if pat.len() == 0 || s.len() < pat.len() {
        s
    } else if s.subrange(0, pat.len() as int) == pat {
        rep + replace_all(s.subrange(pat.len() as int, s.len() as int), pat, rep)
    } else {
        seq![s[0]] + replace_all(s.subrange(1, s.len() as int), pat, rep)
    }
}

/// `s` up to the first occurrence of `pat`, or all of `s` without one.
pub open spec fn before_first(s: Seq<char>, pat: Seq<char>) -> Seq<char> {
    match find(s, pat) {
        Some(i) => s.subrange(0, i),
        None => s,
    }
}

/// The last `n` characters of `s`, or all of `s` when it is shorter.
pub open spec fn last_chars(s: Seq<char>, n: nat) -> Seq<char> {
    if s.len() <= n {
        s
    } else {
        s.subrange(s.len() - n, s.len() as int)
    }
}

pub open spec fn is_digit(c: char) -> bool {
    '0' <= c && c <= '9'
}

pub open spec fn digit_value(c: char) -> nat {
    ((c as int) - ('0' as int)) as nat
}

pub open spec fn digit_char(d: nat) -> char
    recommends
        d < 10,
{
    if d == 0 {
        '0'
    } else if d == 1 {
        '1'
    } else if d == 2 {
        '2'
    } else if d == 3 {
        '3'
    } else if d == 4 {
        '4'
    } else if d == 5 {
        '5'
    } else if d == 6 {
        '6'
    } else if d == 7 {
        '7'
    } else if d == 8 {
        '8'
    } else {
        '9'
    }
}

/// The decimal digits of `n`, most significant first, without leading zeros.
pub open spec fn decimal_of_nat(n: nat) -> Seq<char>
    decreases n,
{
    if n < 10 {
        seq![digit_char(n)]
    } else {
        decimal_of_nat(n / 10).push(digit_char(n % 10))
    }
}

/// `n` written in decimal, with a leading `-` when it is negative.
pub open spec fn decimal_of_int(n: int) -> Seq<char> {
    if n < 0 {
        seq!['-'] + decimal_of_nat((-n) as nat)
    } else {
        decimal_of_nat(n as nat)
    }
}

pub open spec fn all_digits(s: Seq<char>) -> bool {
    forall|i: int| 0 <= i < s.len() ==> is_digit(#[trigger] s[i])
}

/// The number that a string of decimal digits denotes.
pub open spec fn digits_value(s: Seq<char>) -> nat
    decreases s.len(),
{
    if s.len() == 0 {
        0
    } else {
        digits_value(s.drop_last()) * 10 + digit_value(s.last())
    }
}

/// `s` without one leading `+`, if it has one.
pub open spec fn unsigned_body(s: Seq<char>) -> Seq<char> {
    if s.len() > 0 && s[0] == '+' {
        s.drop_first()
    } else {
        s
    }
}

/// The value of `s` read as an unsigned decimal integer no larger than `max`:
/// an optional `+` followed by one or more digits, and nothing else.
pub open spec fn parse_unsigned(s: Seq<char>, max: nat) -> Option<nat> {
    let d = unsigned_body(s);
    if d.len() > 0 && all_digits(d) && digits_value(d) <= max {
        Some(digits_value(d))
    } else {
        None
    }
}

/// Whether `pat` occurs in `s` at position `i`.
pub fn matches_at(s: &str, pat: &str, i: usize) -> (r: bool)
    ensures
        r == occurs_at(s@, pat@, i as int),
{
    let n = s.unicode_len();
    let m = pat.unicode_len();
    if m > n || i > n - m {
        return false;
    }
    let mut j: usize = 0;
    while j < m
        invariant
            n == s@.len(),
            m == pat@.len(),
            i + m <= n,
            j <= m,
            forall|k: int| 0 <= k < j ==> s@[i + k] == pat@[k],
        decreases m - j,
    {
        if s.get_char(i + j) != pat.get_char(j) {
            assert(s@.subrange(i as int, i + m)[j as int] != pat@[j as int]);
            return false;
        }
        j = j + 1;
    }
    assert(s@.subrange(i as int, i + m) =~= pat@);
    true
}

/// The first character position where `pat` occurs in `s`.
pub fn find_str(s: &str, pat: &str) -> (r: Option<usize>)
    ensures
        r is Some <==> find(s@, pat@) is Some,
        r matches Some(i) ==> find(s@, pat@) == Some(i as int) && i + pat@.len() <= s@.len(),
{
    proof {
        lemma_find_from_bounds(s@, pat@, 0);
    }
    let n = s.unicode_len();
    let m = pat.unicode_len();
    if m > n {
        return None;
    }
    let mut i: usize = 0;
    while i <= n - m
        invariant
            n == s@.len(),
            m == pat@.len(),
            m <= n,
            i <= n - m + 1,
            find_from(s@, pat@, 0) == find_from(s@, pat@, i as int),
        decreases n - m + 1 - i,
    {
        if matches_at(s, pat, i) {
            return Some(i);
        }
        if i == n - m {
            assert(find_from(s@, pat@, i + 1) is None);
            return None;
        }
        i = i + 1;
    }
    None
}

/// The part of `s` before the first occurrence of `pat`, or all of `s`.
pub fn prefix_before<'a>(s: &'a str, pat: &str) -> (r: &'a str)
    ensures
        r@ == before_first(s@, pat@),
{
    match find_str(s, pat) {
        Some(i) => s.substring_char(0, i),
        None => s,
    }
}

/// The last `n` characters of `s`, or all of `s` when it is shorter.
pub fn suffix_chars(s: &str, n: usize) -> (r: &str)
    ensures
        r@ == last_chars(s@, n as nat),
{
    let len = s.unicode_len();
    if len <= n {
        s
    } else {
        s.substring_char(len - n, len)
    }
}

proof fn lemma_replace_step_match(s: Seq<char>, pat: Seq<char>, rep: Seq<char>, i: int)
    requires
        pat.len() > 0,
        0 <= i,
        i + pat.len() <= s.len(),
        s.subrange(i, i + pat.len()) == pat,
    ensures
        replace_all(s.subrange(i, s.len() as int), pat, rep) == rep + replace_all(
            s.subrange(i + pat.len(), s.len() as int),
            pat,
            rep,
        ),
{
    let t = s.subrange(i, s.len() as int);
    assert(t.subrange(0, pat.len() as int) =~= s.subrange(i, i + pat.len()));
    assert(t.subrange(pat.len() as int, t.len() as int) =~= s.subrange(
        i + pat.len(),
        s.len() as int,
    ));
}

proof fn lemma_replace_step_skip(s: Seq<char>, pat: Seq<char>, rep: Seq<char>, i: int)
    requires
        pat.len() > 0,
        0 <= i,
        i + pat.len() <= s.len(),
        s.subrange(i, i + pat.len()) != pat,
    ensures
        replace_all(s.subrange(i, s.len() as int), pat, rep) == seq![s[i]] + replace_all(
            s.subrange(i + 1, s.len() as int),
            pat,
            rep,
        ),
{
    let t = s.subrange(i, s.len() as int);
    assert(t.subrange(0, pat.len() as int) =~= s.subrange(i, i + pat.len()));
    assert(t.subrange(1, t.len() as int) =~= s.subrange(i + 1, s.len() as int));
}

/// `s` with every occurrence of the non-empty `pat` replaced by `rep`,
/// scanning from the left.
pub fn replace_str(s: &str, pat: &str, rep: &str) -> (r: String)
    requires
        pat@.len() > 0,
    ensures
        r@ == replace_all(s@, pat@, rep@),
{
    let n = s.unicode_len();
    let m = pat.unicode_len();
    let mut out = String::new();
    let mut start: usize = 0;
    let mut i: usize = 0;
    assert(s@.subrange(0, n as int) =~= s@);
    assert(out@ + s@.subrange(0, 0) =~= Seq::<char>::empty());
    while i < n
        invariant
            n == s@.len(),
            m == pat@.len(),
            m > 0,
            start <= i <= n,
            out@ + s@.subrange(start as int, i as int) + replace_all(
                s@.subrange(i as int, n as int),
                pat@,
                rep@,
            ) == replace_all(s@, pat@, rep@),
        decreases n - i,
    {
        let ghost pending = s@.subrange(start as int, i as int);
        let ghost before = out@;
        if m <= n - i && matches_at(s, pat, i) {
            proof {
                lemma_replace_step_match(s@, pat@, rep@, i as int);
            }
            let piece = s.substring_char(start, i);
            out.append(piece);
            out.append(rep);
            i = i + m;
            start = i;
            assert(s@.subrange(start as int, i as int) =~= Seq::<char>::empty());
            assert(out@ =~= before + pending + rep@);
            assert(out@ + s@.subrange(start as int, i as int) + replace_all(
                s@.subrange(i as int, n as int),
                pat@,
                rep@,
            ) =~= before + pending + (rep@ + replace_all(
                s@.subrange(i as int, n as int),
                pat@,
                rep@,
            )));
        } else {
            proof {
                if m <= n - i {
                    lemma_replace_step_skip(s@, pat@, rep@, i as int);
                } else {
                    let t = s@.subrange(i as int, n as int);
                    assert(t.len() < m);
                    let t1 = s@.subrange(i + 1, n as int);
                    assert(t1.len() < m);
                    assert(t =~= seq![s@[i as int]] + t1);
                }
            }
            let ghost c = s@[i as int];
            let ghost rest = replace_all(s@.subrange(i + 1, n as int), pat@, rep@);
            assert(s@.subrange(start as int, i + 1) =~= pending.push(c));
            assert(before + pending.push(c) + rest =~= before + pending + (seq![c] + rest));
            i = i + 1;
        }
    }
    let piece = s.substring_char(start, n);
    out.append(piece);
    assert(s@.subrange(n as int, n as int) =~= Seq::<char>::empty());
    out
}

fn digit_str(d: u64) -> (r: &'static str)
    requires
        d < 10,
    ensures
        r@ == seq![digit_char(d as nat)],
{
    proof {
        reveal_strlit("0");
        reveal_strlit("1");
        reveal_strlit("2");
        reveal_strlit("3");
        reveal_strlit("4");
        reveal_strlit("5");
        reveal_strlit("6");
        reveal_strlit("7");
        reveal_strlit("8");
        reveal_strlit("9");
    }
    if d == 0 {
        "0"
    } else if d == 1 {
        "1"
    } else if d == 2 {
        "2"
    } else if d == 3 {
        "3"
    } else if d == 4 {
        "4"
    } else if d == 5 {
        "5"
    } else if d == 6 {
        "6"
    } else if d == 7 {
        "7"
    } else if d == 8 {
        "8"
    } else {
        "9"
    }
}

/// Appends the decimal digits of `n` to `out`.
pub fn push_decimal(out: &mut String, n: u64)
    ensures
        final(out)@ == old(out)@ + decimal_of_nat(n as nat),
    decreases n,
{
    let ghost start = out@;
    if n >= 10 {
        push_decimal(out, n / 10);
    }
    out.append(digit_str(n % 10));
    proof {
        if n >= 10 {
            assert(start + decimal_of_nat((n / 10) as nat) + seq![digit_char((n % 10) as nat)]
                =~= start + decimal_of_nat((n / 10) as nat).push(digit_char((n % 10) as nat)));
        } else {
            assert(decimal_of_nat(n as nat) == seq![digit_char(n as nat)]);
        }
    }
}

/// `n` written in decimal, with a leading `-` when it is negative.
pub fn decimal_string(n: i64) -> (r: String)
    ensures
        r@ == decimal_of_int(n as int),
{
    let mut out = String::new();
    if n < 0 {
        proof {
            reveal_strlit("-");
        }
        out.append("-");
        let magnitude: u64 = ((-(n + 1)) as u64) + 1;
        push_decimal(&mut out, magnitude);
        assert(out@ =~= seq!['-'] + decimal_of_nat((-n) as nat));
    } else {
        push_decimal(&mut out, n as u64);
        assert(out@ =~= decimal_of_nat(n as nat));
    }
    out
}

proof fn lemma_digits_value_grows(d: Seq<char>, k: int)
    requires
        0 <= k <= d.len(),
    ensures
        digits_value(d.subrange(0, k)) <= digits_value(d),
    decreases d.len() - k,
{
    if k < d.len() {
        lemma_digits_value_grows(d, k + 1);
        assert(d.subrange(0, k + 1).drop_last() =~= d.subrange(0, k));
    } else {
        assert(d.subrange(0, k) =~= d);
    }
}

/// Reads `s` as an unsigned decimal integer no larger than `max`: an
/// optional `+` and then digits only.
pub fn parse_bounded(s: &str, max: u32) -> (r: Option<u32>)
    ensures
        r is Some <==> parse_unsigned(s@, max as nat) is Some,
        r matches Some(v) ==> parse_unsigned(s@, max as nat) == Some(v as nat),
{
    let n = s.unicode_len();
    let mut start: usize = 0;
    if n > 0 && s.get_char(0) == '+' {
        start = 1;
    }
    let ghost d = unsigned_body(s@);
    assert(d =~= s@.subrange(start as int, n as int));
    if start == n {
        return None;
    }
    let mut acc: u64 = 0;
    let mut j: usize = start;
    assert(d.subrange(0, 0) =~= Seq::<char>::empty());
    while j < n
        invariant
            n == s@.len(),
            start <= j <= n,
            d =~= s@.subrange(start as int, n as int),
            d == unsigned_body(s@),
            all_digits(d.subrange(0, j - start)),
            acc == digits_value(d.subrange(0, j - start)),
            acc <= max,
        decreases n - j,
    {
        let c = s.get_char(j);
        let ghost k = j - start;
        if c < '0' || c > '9' {
            assert(!is_digit(d[k]));
            return None;
        }
        let dv: u64 = (c as u64) - ('0' as u64);
        assert(d.subrange(0, k + 1).drop_last() =~= d.subrange(0, k));
        acc = acc * 10 + dv;
        assert forall|i: int| 0 <= i < k + 1 implies is_digit(#[trigger] d.subrange(0, k + 1)[i]) by {
            if i < k {
                assert(d.subrange(0, k + 1)[i] == d.subrange(0, k)[i]);
            }
        }
        if acc > max as u64 {
            proof {
                lemma_digits_value_grows(d, k + 1);
            }
            return None;
        }
        j = j + 1;
    }
    assert(d.subrange(0, n - start) =~= d);
    Some(acc as u32)
}

/// Whether `a` and `b` are the same text.
pub fn same_text(a: &str, b: &str) -> (r: bool)
    ensures
        r == (a@ == b@),
{
    let n = a.unicode_len();
    let m = b.unicode_len();
    if n != m {
        return false;
    }
    let r = matches_at(a, b, 0);
    assert(r ==> a@.subrange(0, n as int) =~= a@);
    assert(a@ == b@ ==> a@.subrange(0, n as int) =~= b@);
    r
}

/// What follows the last occurrence of the non-empty `pat` in `s`.
pub open spec fn after_last(s: Seq<char>, pat: Seq<char>) -> Option<Seq<char>>
    decreases s.len(),
{
    if pat.len() == 0 || s.len() < pat.len() {
        None
    } else {
        match after_last(s.subrange(1, s.len() as int), pat) {
            Some(t) => Some(t),
            None => if s.subrange(0, pat.len() as int) == pat {
                Some(s.subrange(pat.len() as int, s.len() as int))
            } else {
                None
            },
        }
    }
}

proof fn lemma_after_last(s: Seq<char>, pat: Seq<char>, last: int)
    requires
        pat.len() > 0,
        -1 <= last,
        last >= 0 ==> occurs_at(s, pat, last),
        forall|j: int| j > last ==> !#[trigger] occurs_at(s, pat, j),
    ensures
        after_last(s, pat) == (if last == -1 {
            None
        } else {
            Some(s.subrange(last + pat.len(), s.len() as int))
        }),
    decreases s.len(),
{
    let m = pat.len();
    if s.len() < m {
    } else {
        let t = s.subrange(1, s.len() as int);
        let next = if last >= 1 {
            last - 1
        } else {
            -1
        };
        assert forall|j: int| j > next implies !#[trigger] occurs_at(t, pat, j) by {
            if 0 <= j && j + m <= t.len() {
                assert(t.subrange(j, j + m) =~= s.subrange(j + 1, j + 1 + m));
            }
            assert(!occurs_at(s, pat, j + 1));
        }
        if next >= 0 {
            assert(t.subrange(next, next + m) =~= s.subrange(last, last + m));
        }
        lemma_after_last(t, pat, next);
        if last >= 1 {
            assert(t.subrange(next + m, t.len() as int) =~= s.subrange(last + m, s.len() as int));
        }
        assert(s.subrange(0, m as int) == pat <==> occurs_at(s, pat, 0));
    }
}

/// What follows the last occurrence of the non-empty `pat` in `s`.
pub fn suffix_after_last<'a>(s: &'a str, pat: &str) -> (r: Option<&'a str>)
    ensures
        r is Some <==> after_last(s@, pat@) is Some,
        r matches Some(t) ==> after_last(s@, pat@) == Some(t@),
{
    let n = s.unicode_len();
    let m = pat.unicode_len();
    if m == 0 || m > n {
        return None;
    }
    let mut i: usize = n - m + 1;
    while i > 0
        invariant
            n == s@.len(),
            m == pat@.len(),
            0 < m <= n,
            i <= n - m + 1,
            forall|j: int| j >= i ==> !#[trigger] occurs_at(s@, pat@, j),
        decreases i,
    {
        if matches_at(s, pat, i - 1) {
            proof {
                lemma_after_last(s@, pat@, i - 1);
            }
            return Some(s.substring_char(i - 1 + m, n));
        }
        i = i - 1;
    }
    proof {
        lemma_after_last(s@, pat@, -1);
    }
    None
}

/// `s` with every trailing copy of the non-empty `suffix` removed.
pub open spec fn trim_end_all(s: Seq<char>, suffix: Seq<char>) -> Seq<char>
    decreases s.len(),
{
    if suffix.len() > 0 && s.len() >= suffix.len() && s.subrange(
        s.len() - suffix.len(),
        s.len() as int,
    ) == suffix {
        trim_end_all(s.subrange(0, s.len() - suffix.len()), suffix)
    } else {
        s
    }
}

/// `s` with every trailing copy of the non-empty `suffix` removed.
pub fn trim_end_matches<'a>(s: &'a str, suffix: &str) -> (r: &'a str)
    ensures
        r@ == trim_end_all(s@, suffix@),
{
    let m = suffix.unicode_len();
    let n = s.unicode_len();
    if m == 0 {
        return s;
    }
    let mut end: usize = n;
    assert(s@.subrange(0, n as int) =~= s@);
    while end >= m && matches_at(s, suffix, end - m)
        invariant
            n == s@.len(),
            m == suffix@.len(),
            m > 0,
            end <= n,
            trim_end_all(s@.subrange(0, end as int), suffix@) == trim_end_all(s@, suffix@),
        decreases end,
    {
        let ghost t = s@.subrange(0, end as int);
        assert(t.subrange(t.len() - m, t.len() as int) =~= s@.subrange(end - m, end as int));
        assert(t.subrange(0, t.len() - m) =~= s@.subrange(0, end - m));
        end = end - m;
    }
    let r = s.substring_char(0, end);
    proof {
        let t = s@.subrange(0, end as int);
        if end >= m {
            assert(t.subrange(t.len() - m, t.len() as int) =~= s@.subrange(end - m, end as int));
        }
    }
    r
}

} // verus!
