//! Character-level text operations on which the rest of the library is built.
//! Every function here is stated over the characters of its arguments (`s@`).

use vstd::prelude::*;

verus! {

/// The characters that `char::is_whitespace` accepts: the Unicode `White_Space` property.
pub open spec fn is_white_space(c: char) -> bool {
    let u = c as u32;
    ||| 0x9 <= u <= 0xD
    ||| u == 0x20
    ||| u == 0x85
    ||| u == 0xA0
    ||| u == 0x1680
    ||| 0x2000 <= u <= 0x200A
    ||| u == 0x2028
    ||| u == 0x2029
    ||| u == 0x202F
    ||| u == 0x205F
    ||| u == 0x3000
}

/// `s` without its leading white space.
pub open spec fn trim_start(s: Seq<char>) -> Seq<char>
    decreases s.len(),
{
    if s.len() > 0 && is_white_space(s[0]) {
        trim_start(s.drop_first())
    } else {
        s
    }
}

/// `s` without its trailing white space.
pub open spec fn trim_end(s: Seq<char>) -> Seq<char>
    decreases s.len(),
{
    if s.len() > 0 && is_white_space(s.last()) {
        trim_end(s.drop_last())
    } else {
        s
    }
}

/// `s` without leading and trailing white space, as `str::trim` gives it.
pub open spec fn trimmed(s: Seq<char>) -> Seq<char> {
    trim_end(trim_start(s))
}

/// `p` is a prefix of `s`.
pub open spec fn has_prefix(s: Seq<char>, p: Seq<char>) -> bool {
    p.len() <= s.len() && s.take(p.len() as int) =~= p
}

/// The pieces of `s` between the occurrences of `sep`, as `str::split` with a
/// character pattern gives them (the empty string gives one empty piece).
pub open spec fn split_on(s: Seq<char>, sep: char) -> Seq<Seq<char>>
    decreases s.len(),
{
    if s.len() == 0 {
        seq![Seq::<char>::empty()]
    } else {
        let rest = split_on(s.drop_first(), sep);
        if s[0] == sep {
            seq![Seq::<char>::empty()] + rest
        } else {
            rest.update(0, seq![s[0]] + rest[0])
        }
    }
}

/// `a` comes strictly before `b` in the lexicographic order of code points
/// (the order in which Rust compares strings).
pub open spec fn char_seq_less(a: Seq<char>, b: Seq<char>) -> bool {
    exists|k: int|
        #![trigger a.take(k), b.take(k)]
        0 <= k <= a.len() && k <= b.len() && a.take(k) =~= b.take(k) && ((k == a.len() && k
            < b.len()) || (k < a.len() && k < b.len() && a[k] < b[k]))
}

/// The views of a sequence of strings.
pub open spec fn string_views(v: Seq<String>) -> Seq<Seq<char>> {
    v.map_values(|x: String| x@)
}

/// The decimal digit character of `d`, for `d < 10`.
pub open spec fn digit_char(d: nat) -> char {
    ((d + 48) as u32) as char
}

/// The decimal notation of `n`, without sign or leading zeros.
pub open spec fn decimal(n: nat) -> Seq<char>
    decreases n,
{
    if n < 10 {
        seq![digit_char(n)]
    } else {
        decimal(n / 10).push(digit_char(n % 10))
    }
}

proof fn lemma_trim_start_skip(s: Seq<char>, i: int)
    requires
        0 <= i <= s.len(),
        forall|j: int| 0 <= j < i ==> is_white_space(#[trigger] s[j]),
        i == s.len() || !is_white_space(s[i]),
    ensures
        trim_start(s) =~= s.skip(i),
    decreases i,
{
    if i > 0 {
        assert(is_white_space(s[0]));
        lemma_trim_start_skip(s.drop_first(), i - 1);
        assert(s.drop_first().skip(i - 1) =~= s.skip(i));
    } else {
        assert(s.skip(0) =~= s);
    }
}

proof fn lemma_trim_end_take(s: Seq<char>, j: int)
    requires
        0 <= j <= s.len(),
        forall|k: int| j <= k < s.len() ==> is_white_space(#[trigger] s[k]),
        j == 0 || !is_white_space(s[j - 1]),
    ensures
        trim_end(s) =~= s.take(j),
    decreases s.len() - j,
{
    if j < s.len() {
        assert(is_white_space(s.last()));
        lemma_trim_end_take(s.drop_last(), j);
        assert(s.drop_last().take(j) =~= s.take(j));
    } else {
        assert(s.take(j) =~= s);
    }
}

/// The characters of `s`, in order.
pub fn chars_of(s: &str) -> (v: Vec<char>)
    ensures
        v@ == s@,
{
    let n = s.unicode_len();
    let mut v: Vec<char> = Vec::new();
    let mut i: usize = 0;
    while i < n
        invariant
            n == s@.len(),
            i <= n,
            v@ == s@.take(i as int),
        decreases n - i,
    {
        let c = s.get_char(i);
        v.push(c);
        i = i + 1;
        assert(v@ =~= s@.take(i as int));
    }
    assert(s@.take(n as int) =~= s@);
    v
}

/// Whether two strings hold the same characters.
pub fn str_eq(a: &str, b: &str) -> (r: bool)
    ensures
        r == (a@ == b@),
{
    let ca = chars_of(a);
    let cb = chars_of(b);
    if ca.len() != cb.len() {
        return false;
    }
    let mut i: usize = 0;
    while i < ca.len()
        invariant
            ca@ == a@,
            cb@ == b@,
            ca.len() == cb.len(),
            i <= ca.len(),
            forall|j: int| 0 <= j < i ==> ca@[j] == cb@[j],
        decreases ca.len() - i,
    {
        if ca[i] != cb[i] {
            return false;
        }
        i = i + 1;
    }
    assert(a@ =~= b@);
    true
}

/// Whether `c` is white space, as `char::is_whitespace` decides it.
pub fn is_whitespace(c: char) -> (r: bool)
    ensures
        r == is_white_space(c),
{
    let u = c as u32;
    (0x9 <= u && u <= 0xD) || u == 0x20 || u == 0x85 || u == 0xA0 || u == 0x1680 || (0x2000 <= u
        && u <= 0x200A) || u == 0x2028 || u == 0x2029 || u == 0x202F || u == 0x205F || u == 0x3000
}

/// `s` without leading and trailing white space.
pub fn trim(s: &str) -> (r: &str)
    ensures
        r@ == trimmed(s@),
{
    let cs = chars_of(s);
    let n = cs.len();
    let mut i: usize = 0;
    while i < n && is_whitespace(cs[i])
        invariant
            cs@ == s@,
            n == cs.len(),
            i <= n,
            forall|j: int| 0 <= j < i ==> is_white_space(#[trigger] s@[j]),
        decreases n - i,
    {
        i = i + 1;
    }
    proof {
        lemma_trim_start_skip(s@, i as int);
    }
    let mut j: usize = n;
    while j > i && is_whitespace(cs[j - 1])
        invariant
            cs@ == s@,
            n == cs.len(),
            i <= j <= n,
            forall|k: int| j <= k < n ==> is_white_space(#[trigger] s@[k]),
        decreases j,
    {
        j = j - 1;
    }
    proof {
        let t = s@.skip(i as int);
        assert forall|k: int| (j - i) <= k < t.len() implies is_white_space(#[trigger] t[k]) by {
            assert(t[k] == s@[k + i]);
        }
        if j > i {
            assert(t[j - i - 1] == s@[j - 1]);
        }
        lemma_trim_end_take(t, (j - i) as int);
        assert(t.take((j - i) as int) =~= s@.subrange(i as int, j as int));
    }
    s.substring_char(i, j)
}

/// Whether `s` holds the character `c`.
pub fn contains_char(s: &str, c: char) -> (r: bool)
    ensures
        r == s@.contains(c),
{
    let cs = chars_of(s);
    let mut i: usize = 0;
    while i < cs.len()
        invariant
            cs@ == s@,
            i <= cs.len(),
            forall|j: int| 0 <= j < i ==> cs@[j] != c,
        decreases cs.len() - i,
    {
        if cs[i] == c {
            assert(s@[i as int] == c);
            return true;
        }
        i = i + 1;
    }
    false
}

/// Whether `p` is a prefix of `s`.
pub fn starts_with(s: &str, p: &str) -> (r: bool)
    ensures
        r == has_prefix(s@, p@),
{
    let cs = chars_of(s);
    let cp = chars_of(p);
    if cp.len() > cs.len() {
        return false;
    }
    let mut i: usize = 0;
    while i < cp.len()
        invariant
            cs@ == s@,
            cp@ == p@,
            cp.len() <= cs.len(),
            i <= cp.len(),
            forall|j: int| 0 <= j < i ==> cs@[j] == cp@[j],
        decreases cp.len() - i,
    {
        if cs[i] != cp[i] {
            assert(s@.take(p@.len() as int)[i as int] != p@[i as int]);
            return false;
        }
        i = i + 1;
    }
    assert(s@.take(p@.len() as int) =~= p@);
    true
}

/// `s` without the prefix `p`, or `None` where `p` is no prefix of `s`.
pub fn strip_prefix<'a>(s: &'a str, p: &str) -> (r: Option<&'a str>)
    ensures
        r is Some <==> has_prefix(s@, p@),
        r matches Some(t) ==> t@ == s@.skip(p@.len() as int),
{
    if starts_with(s, p) {
        let n = s.unicode_len();
        let k = p.unicode_len();
        let t = s.substring_char(k, n);
        assert(t@ =~= s@.skip(p@.len() as int));
        Some(t)
    } else {
        None
    }
}

proof fn lemma_split_nonempty(s: Seq<char>, sep: char)
    ensures
        split_on(s, sep).len() >= 1,
    decreases s.len(),
{
    if s.len() > 0 {
        lemma_split_nonempty(s.drop_first(), sep);
    }
}

/// The pieces of `s` between the occurrences of `sep`.
pub fn split(s: &str, sep: char) -> (pieces: Vec<String>)
    ensures
        string_views(pieces@) == split_on(s@, sep),
{
    let cs = chars_of(s);
    let n = cs.len();
    let mut acc: Vec<String> = Vec::new();
    let mut i: usize = n;
    let mut end: usize = n;
    assert(s@.skip(n as int) =~= Seq::<char>::empty());
    assert(s@.subrange(n as int, n as int) =~= Seq::<char>::empty());
    assert(split_on(s@.skip(n as int), sep) =~= seq![s@.subrange(n as int, n as int)] + string_views(acc@));
    while i > 0
        invariant
            cs@ == s@,
            n == cs.len(),
            i <= end <= n,
            split_on(s@.skip(i as int), sep) =~= seq![s@.subrange(i as int, end as int)]
                + string_views(acc@),
        decreases i,
    {
        let c = cs[i - 1];
        let ghost tail = s@.skip(i as int);
        let ghost whole = s@.skip(i - 1);
        assert(whole.drop_first() =~= tail);
        assert(whole[0] == c);
        proof {
            lemma_split_nonempty(tail, sep);
        }
        if c == sep {
            let piece = s.substring_char(i, end).to_owned();
            let ghost before = acc@;
            acc.insert(0, piece);
            assert(string_views(acc@) =~= seq![s@.subrange(i as int, end as int)] + string_views(before));
            i = i - 1;
            end = i;
            assert(s@.subrange(i as int, end as int) =~= Seq::<char>::empty());
        } else {
            i = i - 1;
            assert(s@.subrange(i as int, end as int) =~= seq![c] + s@.subrange(i + 1, end as int));
        }
    }
    assert(s@.skip(0) =~= s@);
    let first = s.substring_char(0, end).to_owned();
    let ghost before = acc@;
    acc.insert(0, first);
    assert(string_views(acc@) =~= seq![s@.subrange(0, end as int)] + string_views(before));
    acc
}

/// Whether `a` comes strictly before `b` in the order of code points.
pub fn less_than(a: &str, b: &str) -> (r: bool)
    ensures
        r == char_seq_less(a@, b@),
{
    let ca = chars_of(a);
    let cb = chars_of(b);
    let mut i: usize = 0;
    while i < ca.len() && i < cb.len() && ca[i] == cb[i]
        invariant
            ca@ == a@,
            cb@ == b@,
            i <= ca.len(),
            i <= cb.len(),
            a@.take(i as int) =~= b@.take(i as int),
        decreases ca.len() - i,
    {
        i = i + 1;
        assert(a@.take(i as int) =~= b@.take(i as int));
    }
    let r = if i == ca.len() {
        i < cb.len()
    } else if i == cb.len() {
        false
    } else {
        ca[i] < cb[i]
    };
    proof {
        let k = i as int;
        if r {
            assert(a@.take(k) =~= b@.take(k));
        } else {
            assert forall|m: int|
                0 <= m <= a@.len() && m <= b@.len() && #[trigger] a@.take(m) =~= #[trigger] b@.take(m)
                implies !((m == a@.len() && m < b@.len()) || (m < a@.len() && m < b@.len() && a@[m] < b@[m])) by {
                if m < k {
                    assert(a@.take(k)[m] == b@.take(k)[m]);
                } else if m > k {
                    assert(a@.take(m)[k] == b@.take(m)[k]);
                }
            }
        }
    }
    r
}

/// The one-character string of the decimal digit `d`.
fn digit_str(d: u8) -> (r: &'static str)
    requires
        d < 10,
    ensures
        r@ == seq![digit_char(d as nat)],
{
    proof {
        reveal_strlit("0");
        reveal_strlit("1");
        reveal_strlit("2");
        reveal_strlit("3");
        reveal_strlit("4");
        reveal_strlit("5");
        reveal_strlit("6");
        reveal_strlit("7");
        reveal_strlit("8");
        reveal_strlit("9");
    }
    match d {
        0 => "0",
        1 => "1",
        2 => "2",
        3 => "3",
        4 => "4",
        5 => "5",
        6 => "6",
        7 => "7",
        8 => "8",
        _ => "9",
    }
}

proof fn lemma_decimal_step(n: nat)
    requires
        n >= 10,
    ensures
        decimal(n) == decimal(n / 10).push(digit_char(n % 10)),
{
}

/// The decimal notation of `n`.
pub fn to_decimal(n: u128) -> (r: String)
    ensures
        r@ == decimal(n as nat),
{
    // Digits from the least significant on.
    let mut digits: Vec<u8> = Vec::new();
    let mut m: u128 = n;
    while m >= 10
        invariant
            m as nat <= n as nat,
            // decimal(n) == decimal(m) followed by the digits found so far, last found first
            forall|i: int| 0 <= i < digits.len() ==> #[trigger] digits@[i] < 10,
            decimal(n as nat) =~= decimal(m as nat) + Seq::new(
                digits.len() as nat,
                |i: int| digit_char(digits@[digits.len() - 1 - i] as nat),
            ),
        decreases m,
    {
        let d = (m % 10) as u8;
        proof {
            lemma_decimal_step(m as nat);
        }
        let ghost old_digits = digits@;
        let ghost old_m = m;
        digits.push(d);
        m = m / 10;
        assert(Seq::new(digits.len() as nat, |i: int| digit_char(digits@[digits.len() - 1 - i] as nat))
            =~= seq![digit_char(old_m as nat % 10)] + Seq::new(old_digits.len() as nat, |i: int| digit_char(old_digits[old_digits.len() - 1 - i] as nat)));
    }
    let mut r = String::new();
    r.append(digit_str(m as u8));
    assert(r@ =~= decimal(m as nat));
    let mut k: usize = digits.len();
    while k > 0
        invariant
            k <= digits.len(),
            forall|i: int| 0 <= i < digits.len() ==> #[trigger] digits@[i] < 10,
            decimal(n as nat) =~= r@ + Seq::new(
                k as nat,
                |i: int| digit_char(digits@[k - 1 - i] as nat),
            ),
        decreases k,
    {
        let ghost before = r@;
        r.append(digit_str(digits[k - 1]));
        k = k - 1;
        assert(seq![digit_char(digits@[k as int] as nat)] + Seq::new(k as nat, |i: int| digit_char(digits@[k - 1 - i] as nat))
            =~= Seq::new((k + 1) as nat, |i: int| digit_char(digits@[k + 1 - 1 - i] as nat)));
    }
    assert(Seq::new(0, |i: int| digit_char(digits@[0 - 1 - i] as nat)) =~= Seq::<char>::empty());
    r
}

/// `i` is the first position of `c` in `s`.
pub open spec fn is_first_index(s: Seq<char>, c: char, i: int) -> bool {
    0 <= i < s.len() && s[i] == c && forall|j: int| 0 <= j < i ==> s[j] != c
}

/// The first position of `c` in `s`, where `s` holds `c`.
pub open spec fn first_index(s: Seq<char>, c: char) -> int {
    choose|i: int| is_first_index(s, c, i)
}

/// The first position of `c` in `s`, if any.
pub fn find_char(s: &str, c: char) -> (r: Option<usize>)
    ensures
        match r {
            Some(i) => s@.contains(c) && i == first_index(s@, c) && is_first_index(s@, c, i as int),
            None => !s@.contains(c),
        },
{
    let cs = chars_of(s);
    let mut i: usize = 0;
    while i < cs.len()
        invariant
            cs@ == s@,
            i <= cs.len(),
            forall|j: int| 0 <= j < i ==> s@[j] != c,
        decreases cs.len() - i,
    {
        if cs[i] == c {
            proof {
                assert(is_first_index(s@, c, i as int));
                let k = first_index(s@, c);
                assert(is_first_index(s@, c, k));
                if k < i {
                    assert(s@[k] != c);
                } else if k > i {
                    assert(s@[i as int] != c);
                }
            }
            return Some(i);
        }
        i = i + 1;
    }
    None
}

/// What a sequence holds after a push: what it held, and the pushed item.
pub proof fn lemma_contains_push<A>(s: Seq<A>, x: A)
    ensures
        forall|n: A| #[trigger] s.push(x).contains(n) == (s.contains(n) || n == x),
{
    assert forall|n: A| #[trigger] s.push(x).contains(n) == (s.contains(n) || n == x) by {
        if s.push(x).contains(n) {
            let k = choose|k: int| 0 <= k < s.push(x).len() && s.push(x)[k] == n;
            if k < s.len() {
                assert(s[k] == n);
            }
        }
        if s.contains(n) {
            let k = choose|k: int| 0 <= k < s.len() && s[k] == n;
            assert(s.push(x)[k] == n);
        }
        if n == x {
            assert(s.push(x)[s.len() as int] == n);
        }
    }
}

proof fn lemma_mismatch_from(a: Seq<char>, b: Seq<char>, k: int) -> (m: int)
    requires
        0 <= k <= a.len(),
        k <= b.len(),
        a.take(k) =~= b.take(k),
    ensures
        k <= m <= a.len(),
        m <= b.len(),
        a.take(m) =~= b.take(m),
        m == a.len() || m == b.len() || a[m] != b[m],
    decreases a.len() - k,
{
    if k == a.len() || k == b.len() || a[k] != b[k] {
        k
    } else {
        assert(a.take(k + 1) =~= b.take(k + 1)) by {
            assert forall|j: int| 0 <= j < k + 1 implies #[trigger] a.take(k + 1)[j] == b.take(k + 1)[j] by {
                if j < k {
                    assert(a.take(k)[j] == b.take(k)[j]);
                }
            }
        }
        lemma_mismatch_from(a, b, k + 1)
    }
}

/// The order of code points is total and strict: of two different sequences exactly
/// one comes first.
pub proof fn lemma_less_trichotomy(a: Seq<char>, b: Seq<char>)
    ensures
        char_seq_less(a, b) || char_seq_less(b, a) || a == b,
        !(char_seq_less(a, b) && char_seq_less(b, a)),
        !(char_seq_less(a, a)),
{
    assert(a.take(0) =~= b.take(0));
    let m = lemma_mismatch_from(a, b, 0);
    if m == a.len() && m == b.len() {
        assert(a =~= a.take(m));
        assert(b =~= b.take(m));
    } else if m == a.len() {
        assert(a.take(m) =~= b.take(m));
        assert(char_seq_less(a, b));
    } else if m == b.len() {
        assert(b.take(m) =~= a.take(m));
        assert(char_seq_less(b, a));
    } else if a[m] < b[m] {
        assert(char_seq_less(a, b));
    } else {
        assert(a[m] != b[m]);
        assert(b.take(m) =~= a.take(m));
        assert(char_seq_less(b, a));
    }
    if char_seq_less(a, b) && char_seq_less(b, a) {
        let k1 = choose|k: int|
            #![trigger a.take(k), b.take(k)]
            0 <= k <= a.len() && k <= b.len() && a.take(k) =~= b.take(k) && ((k == a.len() && k
                < b.len()) || (k < a.len() && k < b.len() && a[k] < b[k]));
        let k2 = choose|k: int|
            #![trigger b.take(k), a.take(k)]
            0 <= k <= b.len() && k <= a.len() && b.take(k) =~= a.take(k) && ((k == b.len() && k
                < a.len()) || (k < b.len() && k < a.len() && b[k] < a[k]));
        if k1 < k2 {
            assert(a.take(k2)[k1] == b.take(k2)[k1]);
        } else if k2 < k1 {
            assert(a.take(k1)[k2] == b.take(k1)[k2]);
        }
    }
    if char_seq_less(a, a) {
        let k = choose|k: int|
            #![trigger a.take(k), a.take(k)]
            0 <= k <= a.len() && k <= a.len() && a.take(k) =~= a.take(k) && ((k == a.len() && k
                < a.len()) || (k < a.len() && k < a.len() && a[k] < a[k]));
    }
}

/// The pieces of `x`, a separator, then `y`, where `x` holds no separator: `x`, then
/// the pieces of `y`.
pub proof fn lemma_split_concat(x: Seq<char>, y: Seq<char>, sep: char)
    requires
        !x.contains(sep),
    ensures
        split_on(x + seq![sep] + y, sep) == seq![x] + split_on(y, sep),
    decreases x.len(),
{
    let s = x + seq![sep] + y;
    if x.len() == 0 {
        assert(x =~= Seq::<char>::empty());
        assert(s[0] == sep);
        assert(s.drop_first() =~= y);
        assert(seq![Seq::<char>::empty()] + split_on(y, sep) =~= seq![x] + split_on(y, sep));
    } else {
        let x1 = x.drop_first();
        assert(!x1.contains(sep)) by {
            if x1.contains(sep) {
                let k = choose|k: int| 0 <= k < x1.len() && x1[k] == sep;
                assert(x[k + 1] == sep);
            }
        }
        lemma_split_concat(x1, y, sep);
        assert(s.drop_first() =~= x1 + seq![sep] + y);
        assert(s[0] == x[0]);
        assert(x[0] != sep);
        let rest = split_on(s.drop_first(), sep);
        assert(rest == seq![x1] + split_on(y, sep));
        assert(rest.update(0, seq![s[0]] + rest[0]) =~= seq![x] + split_on(y, sep)) by {
            assert(seq![x[0]] + x1 =~= x);
        }
    }
}

/// A sequence without the separator is one piece.
pub proof fn lemma_split_single(x: Seq<char>, sep: char)
    requires
        !x.contains(sep),
    ensures
        split_on(x, sep) == seq![x],
    decreases x.len(),
{
    if x.len() == 0 {
        assert(x =~= Seq::<char>::empty());
    } else {
        let x1 = x.drop_first();
        assert(!x1.contains(sep)) by {
            if x1.contains(sep) {
                let k = choose|k: int| 0 <= k < x1.len() && x1[k] == sep;
                assert(x[k + 1] == sep);
            }
        }
        lemma_split_single(x1, sep);
        assert(x[0] != sep);
        assert(seq![x[0]] + x1 =~= x);
        assert(split_on(x1, sep).update(0, seq![x[0]] + split_on(x1, sep)[0]) =~= seq![x]);
    }
}

} // verus!
