//! Character-level models of the string operations the library relies on,
//! with verified executable counterparts.

use vstd::prelude::*;

verus! {

/// `c` is an ASCII decimal digit.
pub open spec fn is_digit(c: char) -> bool {
    '0' <= c && c <= '9'
}

/// Numeric value of a digit character.
pub open spec fn digit_value(c: char) -> nat {
    (c as int - '0' as int) as nat
}

/// Every character of `s` is an ASCII decimal digit.
pub open spec fn all_digits(s: Seq<char>) -> bool {
    forall|i: int| 0 <= i < s.len() ==> #[trigger] is_digit(s[i])
}

/// Value of a run of decimal digits, most significant first.
pub open spec fn digits_value(s: Seq<char>) -> nat
    decreases s.len(),
{
    if s.len() == 0 {
        0
    } else {
        digits_value(s.drop_last()) * 10 + digit_value(s.last())
    }
}

/// `p` occurs in `s` starting at position `i`.
pub open spec fn occurs_at(s: Seq<char>, p: Seq<char>, i: int) -> bool {
    0 <= i && i + p.len() <= s.len() && s.subrange(i, i + p.len()) == p
}

/// First position at or after `i` where `p` occurs in `s`.
pub open spec fn find_from(s: Seq<char>, p: Seq<char>, i: int) -> Option<int>
    decreases s.len() + 1 - i,
{
    if i < 0 || i + p.len() > s.len() {
        None
    } else if occurs_at(s, p, i) {
        Some(i)
    } else {
        find_from(s, p, i + 1)
    }
}

/// First position where `p` occurs in `s` (what `str::find` answers).
pub open spec fn find(s: Seq<char>, p: Seq<char>) -> Option<int> {
    find_from(s, p, 0)
}

pub proof fn lemma_find_from_props(s: Seq<char>, p: Seq<char>, i: int)
    requires
        0 <= i,
    ensures
        match find_from(s, p, i) {
            Some(k) => i <= k && occurs_at(s, p, k) && forall|j: int|
                i <= j < k ==> !occurs_at(s, p, j),
            None => forall|j: int| i <= j ==> !occurs_at(s, p, j),
        },
    decreases s.len() + 1 - i,
{
    if i + p.len() > s.len() {
    } else if occurs_at(s, p, i) {
    } else {
        lemma_find_from_props(s, p, i + 1);
    }
}

pub proof fn lemma_digits_value_prefix_le(s: Seq<char>, k: int)
    requires
        0 <= k <= s.len(),
    ensures
        digits_value(s.take(k)) <= digits_value(s),
    decreases s.len() - k,
{
    if k < s.len() {
        lemma_digits_value_prefix_le(s, k + 1);
        assert(s.take(k + 1).drop_last() == s.take(k));
    } else {
        assert(s.take(k) == s);
    }
}

/// Character of a single decimal digit `d` (`d < 10`).
pub open spec fn digit_char(d: nat) -> char {
    if d == 0 { '0' }
    else if d == 1 { '1' }
    else if d == 2 { '2' }
    else if d == 3 { '3' }
    else if d == 4 { '4' }
    else if d == 5 { '5' }
    else if d == 6 { '6' }
    else if d == 7 { '7' }
    else if d == 8 { '8' }
    else { '9' }
}

/// Decimal rendering of `n` without sign or leading zeros (what `{}` prints
/// for an unsigned integer).
pub open spec fn decimal(n: nat) -> Seq<char>
    decreases n,
{
    if n < 10 {
        seq![digit_char(n)]
    } else {
        decimal(n / 10).push(digit_char(n % 10))
    }
}

/// Decimal rendering of a signed integer (what `{}` prints for it).
pub open spec fn signed_decimal(n: int) -> Seq<char> {
    if n < 0 {
        seq!['-'] + decimal((-n) as nat)
    } else {
        decimal(n as nat)
    }
}

pub proof fn lemma_digit_char(d: nat)
    requires
        d < 10,
    ensures
        is_digit(digit_char(d)),
        digit_value(digit_char(d)) == d,
        digit_char(d) != '_',
{
}

pub proof fn lemma_decimal_digits(n: nat)
    ensures
        decimal(n).len() >= 1,
        all_digits(decimal(n)),
        digits_value(decimal(n)) == n,
    decreases n,
{
    lemma_digit_char(n % 10);
    if n < 10 {
        assert(decimal(n).drop_last() =~= Seq::<char>::empty());
        assert(n % 10 == n);
        assert(digits_value(decimal(n)) == digits_value(decimal(n).drop_last()) * 10
            + digit_value(decimal(n).last()));
    } else {
        lemma_decimal_digits(n / 10);
        let d = decimal(n);
        assert(d.drop_last() == decimal(n / 10));
        assert(d.last() == digit_char(n % 10));
        assert(n == (n / 10) * 10 + n % 10);
        assert(digits_value(d) == digits_value(d.drop_last()) * 10 + digit_value(d.last()));
        assert forall|i: int| 0 <= i < d.len() implies #[trigger] is_digit(d[i]) by {
            if i < d.len() - 1 {
                assert(d[i] == decimal(n / 10)[i]);
            }
        }
    }
}

/// `find_from` answers `k` when `p` occurs at `k` and nowhere in `[i, k)`.
pub proof fn lemma_find_from_first(s: Seq<char>, p: Seq<char>, i: int, k: int)
    requires
        0 <= i <= k,
        occurs_at(s, p, k),
        forall|j: int| i <= j < k ==> !occurs_at(s, p, j),
    ensures
        find_from(s, p, i) == Some(k),
    decreases k - i,
{
    if i < k {
        assert(!occurs_at(s, p, i));
        lemma_find_from_first(s, p, i + 1, k);
    }
}

/// A first occurrence stays first when more text is appended.
pub proof fn lemma_find_append(a: Seq<char>, b: Seq<char>, p: Seq<char>)
    requires
        find(a, p) is Some,
    ensures
        find(a + b, p) == find(a, p),
{
    lemma_find_from_props(a, p, 0);
    let k = find(a, p)->0;
    assert((a + b).subrange(k, k + p.len()) == a.subrange(k, k + p.len()));
    assert forall|j: int| 0 <= j < k implies !occurs_at(a + b, p, j) by {
        assert((a + b).subrange(j, j + p.len()) == a.subrange(j, j + p.len()));
        assert(!occurs_at(a, p, j));
    }
    lemma_find_from_first(a + b, p, 0, k);
}

/// The characters of `s`, one by one.
pub fn chars_of(s: &str) -> (v: Vec<char>)
    ensures
        v@ == s@,
{
    let n = s.unicode_len();
    let mut v: Vec<char> = Vec::new();
    let mut i: usize = 0;
    while i < n
        invariant
            n == s@.len(),
            i <= n,
            v@ == s@.take(i as int),
        decreases n - i,
    {
        let c = s.get_char(i);
        v.push(c);
        i = i + 1;
        assert(v@ == s@.take(i as int));
    }
    assert(s@.take(n as int) == s@);
    v
}

/// Whether `p` occurs in `s` at position `i`.
pub fn matches_at(s: &Vec<char>, p: &Vec<char>, i: usize) -> (b: bool)
    requires
        i <= s@.len(),
    ensures
        b == occurs_at(s@, p@, i as int),
{
    if p.len() > s.len() - i {
        return false;
    }
    let mut j: usize = 0;
    while j < p.len()
        invariant
            i + p@.len() <= s@.len(),
            s@.len() == s.len(),
            p@.len() == p.len(),
            j <= p@.len(),
            forall|k: int| 0 <= k < j ==> s@[i + k] == p@[k],
        decreases p.len() - j,
    {
        if s[i + j] != p[j] {
            assert(s@.subrange(i as int, i + p@.len())[j as int] != p@[j as int]);
            return false;
        }
        j = j + 1;
    }
    assert(s@.subrange(i as int, i + p@.len()) =~= p@);
    true
}

/// First position at or after `from` where `p` occurs in `s`.
pub fn find_chars(s: &Vec<char>, p: &Vec<char>, from: usize) -> (r: Option<usize>)
    requires
        from <= s@.len(),
    ensures
        match r {
            Some(k) => find_from(s@, p@, from as int) == Some(k as int),
            None => find_from(s@, p@, from as int) is None,
        },
{
    let mut i = from;
    while i <= s.len()
        invariant
            from <= i,
            i <= s@.len() + 1,
            find_from(s@, p@, from as int) == find_from(s@, p@, i as int),
        decreases s@.len() + 1 - i,
    {
        if p.len() > s.len() - i {
            return None;
        }
        if matches_at(s, p, i) {
            return Some(i);
        }
        if i == s.len() {
            assert(find_from(s@, p@, i + 1) is None);
            return None;
        }
        i = i + 1;
    }
    None
}

/// Unicode `White_Space` (what `char::is_whitespace` answers).
pub open spec fn is_whitespace(c: char) -> bool {
    ('\t' <= c && c <= '\r') || c == ' ' || c == '\u{85}' || c == '\u{a0}' || c == '\u{1680}'
        || ('\u{2000}' <= c && c <= '\u{200a}') || c == '\u{2028}' || c == '\u{2029}'
        || c == '\u{202f}' || c == '\u{205f}' || c == '\u{3000}'
}

pub fn is_whitespace_char(c: char) -> (b: bool)
    ensures
        b == is_whitespace(c),
{
    ('\t' <= c && c <= '\r') || c == ' ' || c == '\u{85}' || c == '\u{a0}' || c == '\u{1680}'
        || ('\u{2000}' <= c && c <= '\u{200a}') || c == '\u{2028}' || c == '\u{2029}'
        || c == '\u{202f}' || c == '\u{205f}' || c == '\u{3000}'
}

/// `s` without its leading whitespace (`str::trim_start`).
pub open spec fn trim_start(s: Seq<char>) -> Seq<char>
    decreases s.len(),
{
    if s.len() > 0 && is_whitespace(s[0]) {
        trim_start(s.drop_first())
    } else {
        s
    }
}

/// `s` without its trailing whitespace (`str::trim_end`).
pub open spec fn trim_end(s: Seq<char>) -> Seq<char>
    decreases s.len(),
{
    if s.len() > 0 && is_whitespace(s.last()) {
        trim_end(s.drop_last())
    } else {
        s
    }
}

/// `s` without leading and trailing whitespace (`str::trim`).
pub open spec fn trim(s: Seq<char>) -> Seq<char> {
    trim_end(trim_start(s))
}

/// `s` without any leading run of `c` (`str::trim_start_matches(c)`).
pub open spec fn trim_start_char(s: Seq<char>, c: char) -> Seq<char>
    decreases s.len(),
{
    if s.len() > 0 && s[0] == c {
        trim_start_char(s.drop_first(), c)
    } else {
        s
    }
}

/// Length of the leading run of non-whitespace characters of `s`.
pub open spec fn word_len(s: Seq<char>) -> nat
    decreases s.len(),
{
    if s.len() > 0 && !is_whitespace(s[0]) {
        1 + word_len(s.drop_first())
    } else {
        0
    }
}

pub proof fn lemma_word_len_bound(s: Seq<char>)
    ensures
        word_len(s) <= s.len(),
    decreases s.len(),
{
    if s.len() > 0 && !is_whitespace(s[0]) {
        lemma_word_len_bound(s.drop_first());
    }
}

/// The maximal non-whitespace runs of `s`, in order (`str::split_whitespace`).
pub open spec fn words(s: Seq<char>) -> Seq<Seq<char>>
    decreases s.len(),
{
    if s.len() == 0 {
        Seq::empty()
    } else if is_whitespace(s[0]) {
        words(s.drop_first())
    } else {
        let n = word_len(s);
        proof {
            lemma_word_len_bound(s);
        }
        seq![s.take(n as int)] + words(s.skip(n as int))
    }
}

/// First index at or after `i` holding `c`.
pub open spec fn index_of_from(s: Seq<char>, c: char, i: int) -> Option<int>
    decreases s.len() - i,
{
    if i < 0 || i >= s.len() {
        None
    } else if s[i] == c {
        Some(i)
    } else {
        index_of_from(s, c, i + 1)
    }
}

/// `s` without one trailing carriage return.
pub open spec fn strip_cr(s: Seq<char>) -> Seq<char> {
    if s.len() > 0 && s.last() == '\r' {
        s.drop_last()
    } else {
        s
    }
}

/// The lines of `s` from position `pos` on, as `str::lines` yields them: split
/// after each `\n`, the `\n` and one `\r` just before it removed, and no
/// empty line after a final `\n`.
pub open spec fn lines_from(s: Seq<char>, pos: int) -> Seq<Seq<char>>
    decreases s.len() - pos,
{
    if pos < 0 || pos >= s.len() {
        Seq::empty()
    } else {
        match index_of_from(s, '\n', pos) {
            Some(i) => if pos <= i && i < s.len() {
                seq![strip_cr(s.subrange(pos, i))] + lines_from(s, i + 1)
            } else {
                Seq::empty()
            },
            None => seq![s.subrange(pos, s.len() as int)],
        }
    }
}

/// The lines of `s` (`str::lines`).
pub open spec fn lines(s: Seq<char>) -> Seq<Seq<char>> {
    lines_from(s, 0)
}

/// `parts` joined with `sep` between neighbours (`[&str]::join`).
pub open spec fn join(parts: Seq<Seq<char>>, sep: Seq<char>) -> Seq<char>
    decreases parts.len(),
{
    if parts.len() == 0 {
        Seq::empty()
    } else if parts.len() == 1 {
        parts[0]
    } else {
        join(parts.drop_last(), sep) + sep + parts.last()
    }
}

/// An unsigned decimal as `from_str` reads it: an optional `+`, then one or
/// more decimal digits whose value is at most `max`.
pub open spec fn parse_unsigned(s: Seq<char>, max: nat) -> Option<nat> {
    if s.len() == 0 {
        None
    } else {
        let d = if s[0] == '+' { s.drop_first() } else { s };
        if d.len() == 0 || !all_digits(d) || digits_value(d) > max {
            None
        } else {
            Some(digits_value(d))
        }
    }
}

/// `u8::from_str`.
pub open spec fn parse_u8(s: Seq<char>) -> Option<u8> {
    match parse_unsigned(s, 255) {
        Some(v) => Some(v as u8),
        None => None,
    }
}

/// `u32::from_str`.
pub open spec fn parse_u32(s: Seq<char>) -> Option<u32> {
    match parse_unsigned(s, 0xffff_ffff) {
        Some(v) => Some(v as u32),
        None => None,
    }
}

/// `base.join(p)` for Unix paths: an absolute `p` replaces `base`; otherwise
/// `p` is appended, with a `/` in between unless `base` is empty or already
/// ends with one.
pub open spec fn path_join(base: Seq<char>, p: Seq<char>) -> Seq<char> {
    if p.len() > 0 && p[0] == '/' {
        p
    } else if base.len() == 0 || base.last() == '/' {
        base + p
    } else {
        base + seq!['/'] + p
    }
}

/// `needle` occurs somewhere in `hay` (`str::contains`).
pub fn contains_text(hay: &str, needle: &str) -> (r: bool)
    ensures
        r == (find(hay@, needle@) is Some),
{
    let h = chars_of(hay);
    let n = chars_of(needle);
    find_chars(&h, &n, 0).is_some()
}

/// The one-character text of digit `d`.
fn digit_str(d: u64) -> (r: &'static str)
    requires
        d < 10,
    ensures
        r@ == seq![digit_char(d as nat)],
{
    proof {
        reveal_strlit("0");
        reveal_strlit("1");
        reveal_strlit("2");
        reveal_strlit("3");
        reveal_strlit("4");
        reveal_strlit("5");
        reveal_strlit("6");
        reveal_strlit("7");
        reveal_strlit("8");
        reveal_strlit("9");
    }
    let r = if d == 0 {
        "0"
    } else if d == 1 {
        "1"
    } else if d == 2 {
        "2"
    } else if d == 3 {
        "3"
    } else if d == 4 {
        "4"
    } else if d == 5 {
        "5"
    } else if d == 6 {
        "6"
    } else if d == 7 {
        "7"
    } else if d == 8 {
        "8"
    } else {
        "9"
    };
    assert(r@ =~= seq![digit_char(d as nat)]);
    r
}

/// Decimal text of `n` (what `n.to_string()` gives).
pub fn decimal_string(n: u64) -> (r: String)
    ensures
        r@ == decimal(n as nat),
    decreases n,
{
    if n < 10 {
        String::from_str(digit_str(n))
    } else {
        let mut s = decimal_string(n / 10);
        s.append(digit_str(n % 10));
        s
    }
}

/// Decimal text of a signed `n` (what `n.to_string()` gives).
pub fn signed_decimal_string(n: i64) -> (r: String)
    ensures
        r@ == signed_decimal(n as int),
{
    proof {
        reveal_strlit("-");
    }
    if n < 0 {
        let m: u64 = if n == i64::MIN { 9223372036854775808u64 } else { (-n) as u64 };
        let mut s = String::from_str("-");
        let d = decimal_string(m);
        s.append(d.as_str());
        assert("-"@ =~= seq!['-']);
        s
    } else {
        decimal_string(n as u64)
    }
}

/// `s` without any leading run of `c`.
pub fn strip_leading(s: &str, c: char) -> (r: String)
    ensures
        r@ == trim_start_char(s@, c),
{
    let v = chars_of(s);
    let k = trim_start_char_range(&v, 0, v.len(), c);
    assert(v@.subrange(0, v@.len() as int) =~= v@);
    String::from_str(s.substring_char(k, v.len()))
}

/// Append a copy of `s` to the argument list `v`.
pub fn push_text(v: &mut Vec<String>, s: &str)
    ensures
        final(v).deep_view() == old(v).deep_view().push(s@),
{
    let ghost before = v.deep_view();
    v.push(String::from_str(s));
    assert(v.deep_view() =~= before.push(s@));
}

/// Append copies of every entry of `extra` to `v`.
pub fn push_all(v: &mut Vec<String>, extra: &Vec<String>)
    ensures
        final(v).deep_view() == old(v).deep_view() + extra.deep_view(),
{
    let ghost before = v.deep_view();
    let mut i: usize = 0;
    while i < extra.len()
        invariant
            i <= extra@.len(),
            v.deep_view() == before + extra.deep_view().take(i as int),
        decreases extra@.len() - i,
    {
        push_text(v, extra[i].as_str());
        assert(v.deep_view() =~= before + extra.deep_view().take(i + 1));
        i = i + 1;
    }
    assert(extra.deep_view().take(i as int) =~= extra.deep_view());
}

/// The first `n` characters of `s` (`s.chars().take(n)`).
pub fn first_chars(s: &str, n: usize) -> (r: String)
    ensures
        r@ == s@.take(if s@.len() < n { s@.len() as int } else { n as int }),
{
    let len = s.unicode_len();
    let k = if len < n { len } else { n };
    String::from_str(s.substring_char(0, k))
}

/// Whether `a` and `b` hold the same text.
pub fn same_text(a: &str, b: &str) -> (r: bool)
    ensures
        r == (a@ == b@),
{
    let n = a.unicode_len();
    if n != b.unicode_len() {
        return false;
    }
    let mut i: usize = 0;
    while i < n
        invariant
            n == a@.len(),
            n == b@.len(),
            i <= n,
            forall|k: int| 0 <= k < i ==> a@[k] == b@[k],
        decreases n - i,
    {
        if a.get_char(i) != b.get_char(i) {
            return false;
        }
        i = i + 1;
    }
    assert(a@ =~= b@);
    true
}

/// `Path::new(base).join(p)` rendered as text.
pub fn join_path(base: &str, p: &str) -> (r: String)
    ensures
        r@ == path_join(base@, p@),
{
    proof {
        reveal_strlit("/");
    }
    let pn = p.unicode_len();
    if pn > 0 && p.get_char(0) == '/' {
        return String::from_str(p);
    }
    let bn = base.unicode_len();
    let mut r = String::from_str(base);
    if bn > 0 && base.get_char(bn - 1) != '/' {
        r.append("/");
        assert("/"@ =~= seq!['/']);
    }
    r.append(p);
    r
}

// ---------------------------------------------------------------------------
// Executable counterparts working on index ranges of a character vector.
// ---------------------------------------------------------------------------

proof fn lemma_trim_start_step(s: Seq<char>, i: int, hi: int)
    requires
        0 <= i < hi <= s.len(),
        is_whitespace(s[i]),
    ensures
        trim_start(s.subrange(i, hi)) == trim_start(s.subrange(i + 1, hi)),
{
    assert(s.subrange(i, hi).drop_first() =~= s.subrange(i + 1, hi));
}

proof fn lemma_trim_end_step(s: Seq<char>, lo: int, j: int)
    requires
        0 <= lo < j <= s.len(),
        is_whitespace(s[j - 1]),
    ensures
        trim_end(s.subrange(lo, j)) == trim_end(s.subrange(lo, j - 1)),
{
    assert(s.subrange(lo, j).drop_last() =~= s.subrange(lo, j - 1));
}

/// Bounds of `trim(s[lo..hi])` inside `s`.
pub fn trim_range(s: &Vec<char>, lo: usize, hi: usize) -> (r: (usize, usize))
    requires
        lo <= hi <= s@.len(),
    ensures
        lo <= r.0 <= r.1 <= hi,
        s@.subrange(r.0 as int, r.1 as int) == trim(s@.subrange(lo as int, hi as int)),
        r.0 < r.1 ==> !is_whitespace(s@[r.0 as int]),
{
    let mut a = lo;
    while a < hi && is_whitespace_char(s[a])
        invariant
            lo <= a <= hi <= s@.len(),
            trim_start(s@.subrange(lo as int, hi as int)) == trim_start(
                s@.subrange(a as int, hi as int),
            ),
        decreases hi - a,
    {
        proof { lemma_trim_start_step(s@, a as int, hi as int); }
        a = a + 1;
    }
    assert(trim_start(s@.subrange(a as int, hi as int)) == s@.subrange(a as int, hi as int));
    let mut b = hi;
    while b > a && is_whitespace_char(s[b - 1])
        invariant
            lo <= a <= b <= hi <= s@.len(),
            a < hi ==> !is_whitespace(s@[a as int]),
            trim_end(s@.subrange(a as int, hi as int)) == trim_end(
                s@.subrange(a as int, b as int),
            ),
        decreases b - a,
    {
        proof { lemma_trim_end_step(s@, a as int, b as int); }
        b = b - 1;
    }
    assert(trim_end(s@.subrange(a as int, b as int)) == s@.subrange(a as int, b as int));
    (a, b)
}

/// Start of `trim_start_char(s[lo..hi], c)` inside `s`.
pub fn trim_start_char_range(s: &Vec<char>, lo: usize, hi: usize, c: char) -> (r: usize)
    requires
        lo <= hi <= s@.len(),
    ensures
        lo <= r <= hi,
        s@.subrange(r as int, hi as int) == trim_start_char(s@.subrange(lo as int, hi as int), c),
{
    let mut a = lo;
    while a < hi && s[a] == c
        invariant
            lo <= a <= hi <= s@.len(),
            trim_start_char(s@.subrange(lo as int, hi as int), c) == trim_start_char(
                s@.subrange(a as int, hi as int),
                c,
            ),
        decreases hi - a,
    {
        assert(s@.subrange(a as int, hi as int).drop_first() =~= s@.subrange(a + 1, hi as int));
        a = a + 1;
    }
    a
}

proof fn lemma_word_len_range(s: Seq<char>, a: int, b: int, hi: int)
    requires
        0 <= a <= b <= hi <= s.len(),
        forall|k: int| a <= k < b ==> !is_whitespace(#[trigger] s[k]),
        b == hi || is_whitespace(s[b]),
    ensures
        word_len(s.subrange(a, hi)) == b - a,
    decreases b - a,
{
    if a < b {
        assert(s.subrange(a, hi).drop_first() =~= s.subrange(a + 1, hi));
        lemma_word_len_range(s, a + 1, b, hi);
    }
}

/// The whitespace-separated words of `s[lo..hi]`, as index ranges of `s`.
pub fn words_ranges(s: &Vec<char>, lo: usize, hi: usize) -> (r: Vec<(usize, usize)>)
    requires
        lo <= hi <= s@.len(),
    ensures
        r@.len() == words(s@.subrange(lo as int, hi as int)).len(),
        forall|k: int|
            0 <= k < r@.len() ==> {
                &&& lo <= (#[trigger] r@[k]).0 <= r@[k].1 <= hi
                &&& s@.subrange(r@[k].0 as int, r@[k].1 as int) == words(
                    s@.subrange(lo as int, hi as int),
                )[k]
            },
{
    let ghost whole = words(s@.subrange(lo as int, hi as int));
    let ghost mut done: Seq<Seq<char>> = Seq::empty();
    let mut out: Vec<(usize, usize)> = Vec::new();
    let mut pos = lo;
    while pos < hi
        invariant
            lo <= pos <= hi <= s@.len(),
            whole == words(s@.subrange(lo as int, hi as int)),
            whole == done + words(s@.subrange(pos as int, hi as int)),
            out@.len() == done.len(),
            forall|k: int|
                0 <= k < out@.len() ==> {
                    &&& lo <= (#[trigger] out@[k]).0 <= out@[k].1 <= hi
                    &&& s@.subrange(out@[k].0 as int, out@[k].1 as int) == done[k]
                },
        decreases hi - pos,
    {
        let ghost rest = s@.subrange(pos as int, hi as int);
        if is_whitespace_char(s[pos]) {
            assert(rest.drop_first() =~= s@.subrange(pos + 1, hi as int));
            pos = pos + 1;
        } else {
            let mut b = pos + 1;
            while b < hi && !is_whitespace_char(s[b])
                invariant
                    pos < b <= hi <= s@.len(),
                    forall|k: int| pos <= k < b ==> !is_whitespace(#[trigger] s@[k]),
                decreases hi - b,
            {
                b = b + 1;
            }
            proof {
                lemma_word_len_range(s@, pos as int, b as int, hi as int);
                assert(rest.take(b - pos) =~= s@.subrange(pos as int, b as int));
                assert(rest.skip(b - pos) =~= s@.subrange(b as int, hi as int));
                assert(words(rest) == seq![s@.subrange(pos as int, b as int)] + words(
                    s@.subrange(b as int, hi as int),
                ));
                done = done.push(s@.subrange(pos as int, b as int));
                assert(whole =~= done + words(s@.subrange(b as int, hi as int)));
            }
            out.push((pos, b));
            pos = b;
        }
    }
    assert(words(s@.subrange(pos as int, hi as int)) =~= Seq::<Seq<char>>::empty());
    assert(whole =~= done);
    out
}

/// Bounds of the next line of `s` starting at `pos`, and where the line
/// after it starts.
pub fn next_line(s: &Vec<char>, pos: usize) -> (r: (usize, usize, usize))
    requires
        pos < s@.len(),
    ensures
        pos <= r.0 <= r.1 <= s@.len(),
        pos < r.2 <= s@.len(),
        lines_from(s@, pos as int) == seq![s@.subrange(r.0 as int, r.1 as int)] + lines_from(
            s@,
            r.2 as int,
        ),
{
    let mut i = pos;
    while i < s.len() && s[i] != '\n'
        invariant
            pos <= i <= s@.len(),
            index_of_from(s@, '\n', pos as int) == index_of_from(s@, '\n', i as int),
        decreases s@.len() - i,
    {
        i = i + 1;
    }
    if i < s.len() {
        let hi = if i > pos && s[i - 1] == '\r' { i - 1 } else { i };
        assert(strip_cr(s@.subrange(pos as int, i as int)) =~= s@.subrange(pos as int, hi as int));
        (pos, hi, i + 1)
    } else {
        assert(lines_from(s@, s@.len() as int) =~= Seq::<Seq<char>>::empty());
        assert(lines_from(s@, pos as int) =~= seq![s@.subrange(pos as int, s@.len() as int)]);
        (pos, s.len(), s.len())
    }
}

/// The lines of `s` (`s.lines()`).
pub fn split_lines(s: &str) -> (r: Vec<String>)
    ensures
        r.deep_view() == lines(s@),
{
    let cs = chars_of(s);
    let mut out: Vec<String> = Vec::new();
    let mut pos: usize = 0;
    while pos < cs.len()
        invariant
            cs@ == s@,
            pos <= cs@.len(),
            lines(s@) == out.deep_view() + lines_from(cs@, pos as int),
        decreases cs@.len() - pos,
    {
        let (lo, hi, next) = next_line(&cs, pos);
        let ghost before = out.deep_view();
        out.push(String::from_str(s.substring_char(lo, hi)));
        assert(out.deep_view() =~= before.push(cs@.subrange(lo as int, hi as int)));
        assert(lines(s@) =~= out.deep_view() + lines_from(cs@, next as int));
        pos = next;
    }
    assert(lines_from(cs@, pos as int) =~= Seq::<Seq<char>>::empty());
    assert(lines(s@) =~= out.deep_view());
    out
}

/// `s` without leading and trailing whitespace (`s.trim()`).
pub fn trim_text(s: &str) -> (r: String)
    ensures
        r@ == trim(s@),
{
    let cs = chars_of(s);
    let (a, b) = trim_range(&cs, 0, cs.len());
    assert(cs@.subrange(0, cs@.len() as int) =~= cs@);
    String::from_str(s.substring_char(a, b))
}

/// `s` without `prefix` when it starts with it, else `s` itself
/// (`s.strip_prefix(prefix).unwrap_or(s)`).
pub open spec fn strip_prefix_or_self(s: Seq<char>, prefix: Seq<char>) -> Seq<char> {
    if prefix.len() <= s.len() && s.take(prefix.len() as int) == prefix {
        s.skip(prefix.len() as int)
    } else {
        s
    }
}

pub fn strip_prefix_text<'a>(s: &'a str, prefix: &str) -> (r: &'a str)
    ensures
        r@ == strip_prefix_or_self(s@, prefix@),
{
    let cs = chars_of(s);
    let ps = chars_of(prefix);
    if ps.len() <= cs.len() && matches_at(&cs, &ps, 0) {
        assert(cs@.subrange(0, ps@.len() as int) =~= cs@.take(ps@.len() as int));
        s.substring_char(ps.len(), cs.len())
    } else {
        proof {
            if ps@.len() <= cs@.len() {
                assert(cs@.subrange(0, ps@.len() as int) =~= cs@.take(ps@.len() as int));
            }
        }
        s
    }
}

/// `from_str` of an unsigned integer at most `max` on `s[lo..hi]`.
pub fn parse_unsigned_range(s: &Vec<char>, lo: usize, hi: usize, max: u32) -> (r: Option<u32>)
    requires
        lo <= hi <= s@.len(),
    ensures
        match parse_unsigned(s@.subrange(lo as int, hi as int), max as nat) {
            Some(v) => r == Some(v as u32),
            None => r is None,
        },
{
    let ghost whole = s@.subrange(lo as int, hi as int);
    if lo == hi {
        return None;
    }
    let start = if s[lo] == '+' { lo + 1 } else { lo };
    let ghost d = s@.subrange(start as int, hi as int);
    assert(d == (if whole[0] == '+' { whole.drop_first() } else { whole }));
    if start == hi {
        return None;
    }
    let mut value: u64 = 0;
    let mut j = start;
    while j < hi
        invariant
            start <= j <= hi <= s@.len(),
            start < hi,
            lo <= start,
            whole == s@.subrange(lo as int, hi as int),
            d == s@.subrange(start as int, hi as int),
            parse_unsigned(whole, max as nat) == (if !all_digits(d) || digits_value(d) > max {
                None
            } else {
                Some(digits_value(d))
            }),
            all_digits(d.take(j - start)),
            value == digits_value(d.take(j - start)),
            value <= max,
        decreases hi - j,
    {
        let c = s[j];
        if !('0' <= c && c <= '9') {
            assert(!is_digit(d[j - start]));
            return None;
        }
        assert(d.take(j - start + 1).drop_last() == d.take(j - start));
        value = value * 10 + (c as u64 - '0' as u64);
        if value > max as u64 {
            proof { lemma_digits_value_prefix_le(d, j - start + 1); }
            return None;
        }
        j = j + 1;
        assert(all_digits(d.take(j - start))) by {
            assert forall|t: int| 0 <= t < j - start implies #[trigger] is_digit(
                d.take(j - start)[t],
            ) by {
                if t < j - start - 1 {
                    assert(d.take(j - start)[t] == d.take(j - start - 1)[t]);
                }
            }
        }
    }
    assert(d.take(j - start) == d);
    Some(value as u32)
}

/// `u8::from_str` on `s[lo..hi]`.
pub fn parse_u8_range(s: &Vec<char>, lo: usize, hi: usize) -> (r: Option<u8>)
    requires
        lo <= hi <= s@.len(),
    ensures
        r == parse_u8(s@.subrange(lo as int, hi as int)),
{
    match parse_unsigned_range(s, lo, hi, 255) {
        Some(v) => Some(v as u8),
        None => None,
    }
}

/// `u32::from_str` on `s`.
pub fn parse_u32_text(s: &str) -> (r: Option<u32>)
    ensures
        r == parse_u32(s@),
{
    let cs = chars_of(s);
    assert(cs@.subrange(0, cs@.len() as int) =~= cs@);
    parse_unsigned_range(&cs, 0, cs.len(), 0xffff_ffff)
}

/// The view of an optional text.
pub open spec fn opt_text(v: Option<&str>) -> Option<Seq<char>> {
    match v {
        Some(s) => Some(s@),
        None => None,
    }
}

/// The views of a list of texts.
pub open spec fn texts_view(parts: Seq<&str>) -> Seq<Seq<char>> {
    parts.map_values(|p: &str| p@)
}

/// Owned copies of `parts`, in order.
pub fn text_list(parts: &[&str]) -> (r: Vec<String>)
    ensures
        r.deep_view() == texts_view(parts@),
{
    let mut v: Vec<String> = Vec::new();
    let mut i: usize = 0;
    while i < parts.len()
        invariant
            i <= parts@.len(),
            v.deep_view() == texts_view(parts@.take(i as int)),
        decreases parts@.len() - i,
    {
        push_text(&mut v, parts[i]);
        assert(texts_view(parts@.take(i + 1)) =~= texts_view(parts@.take(i as int)).push(parts@[i as int]@));
        i = i + 1;
    }
    assert(parts@.take(i as int) =~= parts@);
    v
}

/// `a` followed by `b`, as a new string.
pub fn concat(a: &str, b: &str) -> (r: String)
    ensures
        r@ == a@ + b@,
{
    let mut s = String::from_str(a);
    s.append(b);
    s
}

/// Whether `s` starts with `prefix` (`str::starts_with`).
pub fn starts_with_text(s: &str, prefix: &str) -> (r: bool)
    ensures
        r == (prefix@.len() <= s@.len() && s@.take(prefix@.len() as int) == prefix@),
{
    let cs = chars_of(s);
    let ps = chars_of(prefix);
    if ps.len() <= cs.len() && matches_at(&cs, &ps, 0) {
        assert(cs@.subrange(0, ps@.len() as int) =~= cs@.take(ps@.len() as int));
        true
    } else {
        proof {
            if ps@.len() <= cs@.len() {
                assert(cs@.subrange(0, ps@.len() as int) =~= cs@.take(ps@.len() as int));
            }
        }
        false
    }
}

/// `[flag, value]` when a value is given, nothing otherwise.
pub open spec fn opt_flag(flag: Seq<char>, value: Option<Seq<char>>) -> Seq<Seq<char>> {
    match value {
        Some(x) => seq![flag, x],
        None => Seq::empty(),
    }
}

/// `args` holds `flag` immediately followed by `value` at some position
/// before `end`.
pub open spec fn flag_value_before(args: Seq<Seq<char>>, flag: Seq<char>, value: Seq<char>, end: int) -> bool {
    exists|i: int| #![trigger args[i]] 0 <= i && i + 1 < end && end <= args.len() && args[i] == flag && args[i + 1] == value
}

/// Number of the options that are given.
pub open spec fn given_count(opts: Seq<Option<Seq<char>>>) -> nat
    decreases opts.len(),
{
    if opts.len() == 0 {
        0
    } else {
        given_count(opts.drop_last()) + (if opts.last() is Some { 1nat } else { 0nat })
    }
}

/// Append `flag` and `value` to `v` when a value is given.
pub fn push_opt_flag(v: &mut Vec<String>, flag: &str, value: Option<&str>)
    ensures
        final(v).deep_view() == old(v).deep_view() + opt_flag(flag@, opt_text(value)),
{
    match value {
        Some(x) => {
            push_text(v, flag);
            push_text(v, x);
        },
        None => {},
    }
    assert(v.deep_view() =~= old(v).deep_view() + opt_flag(flag@, opt_text(value)));
}

/// Append copies of `parts` to `v`.
pub fn push_texts(v: &mut Vec<String>, parts: &[&str])
    ensures
        final(v).deep_view() == old(v).deep_view() + texts_view(parts@),
{
    let ghost before = v.deep_view();
    let mut i: usize = 0;
    while i < parts.len()
        invariant
            i <= parts@.len(),
            v.deep_view() == before + texts_view(parts@.take(i as int)),
        decreases parts@.len() - i,
    {
        push_text(v, parts[i]);
        assert(texts_view(parts@.take(i + 1)) =~= texts_view(parts@.take(i as int)).push(parts@[i as int]@));
        assert(v.deep_view() =~= before + texts_view(parts@.take(i + 1)));
        i = i + 1;
    }
    assert(parts@.take(i as int) =~= parts@);
}

/// `a` sorts no later than `b`: character by character by code point, a
/// prefix first (the order of `str`, which is that of its UTF-8 bytes).
pub open spec fn text_le(a: Seq<char>, b: Seq<char>) -> bool
    decreases a.len(),
{
    if a.len() == 0 {
        true
    } else if b.len() == 0 {
        false
    } else if a[0] != b[0] {
        (a[0] as int) < (b[0] as int)
    } else {
        text_le(a.drop_first(), b.drop_first())
    }
}

/// Any two texts are ordered one way or the other.
pub proof fn lemma_text_le_total(a: Seq<char>, b: Seq<char>)
    ensures
        text_le(a, b) || text_le(b, a),
    decreases a.len(),
{
    if a.len() > 0 && b.len() > 0 && a[0] == b[0] {
        lemma_text_le_total(a.drop_first(), b.drop_first());
    }
}

/// The order is transitive.
pub proof fn lemma_text_le_trans(a: Seq<char>, b: Seq<char>, c: Seq<char>)
    requires
        text_le(a, b),
        text_le(b, c),
    ensures
        text_le(a, c),
    decreases a.len(),
{
    if a.len() > 0 && b.len() > 0 && c.len() > 0 && a[0] == b[0] && b[0] == c[0] {
        lemma_text_le_trans(a.drop_first(), b.drop_first(), c.drop_first());
    }
}

/// Whether `a` sorts no later than `b`.
pub fn text_less_eq(a: &str, b: &str) -> (r: bool)
    ensures
        r == text_le(a@, b@),
{
    let n = a.unicode_len();
    let m = b.unicode_len();
    let mut i: usize = 0;
    assert(a@.skip(0) =~= a@ && b@.skip(0) =~= b@);
    while i < n && i < m
        invariant
            n == a@.len(),
            m == b@.len(),
            i <= n,
            i <= m,
            text_le(a@, b@) == text_le(a@.skip(i as int), b@.skip(i as int)),
        decreases n - i,
    {
        let x = a.get_char(i);
        let y = b.get_char(i);
        assert(a@.skip(i as int)[0] == x && b@.skip(i as int)[0] == y);
        assert(a@.skip(i as int).drop_first() =~= a@.skip(i + 1));
        assert(b@.skip(i as int).drop_first() =~= b@.skip(i + 1));
        if x != y {
            return (x as u32) < (y as u32);
        }
        i = i + 1;
    }
    i == n
}

/// `s`, already sorted, with `x` placed before the first entry it sorts
/// no later than.
pub open spec fn insert_sorted(s: Seq<Seq<char>>, x: Seq<char>) -> Seq<Seq<char>>
    decreases s.len(),
{
    if s.len() == 0 {
        seq![x]
    } else if text_le(x, s[0]) {
        seq![x] + s
    } else {
        seq![s[0]] + insert_sorted(s.drop_first(), x)
    }
}

/// The texts of `v` sorted by insertion, in order of appearance.
pub open spec fn sorted_texts(v: Seq<Seq<char>>) -> Seq<Seq<char>>
    decreases v.len(),
{
    if v.len() == 0 {
        Seq::empty()
    } else {
        insert_sorted(sorted_texts(v.drop_last()), v.last())
    }
}

/// Every entry sorts no later than the ones after it.
pub open spec fn texts_sorted(s: Seq<Seq<char>>) -> bool {
    forall|i: int, j: int| 0 <= i < j < s.len() ==> text_le(#[trigger] s[i], #[trigger] s[j])
}

/// Inserting places `x` at the first position whose entry it sorts no
/// later than.
proof fn lemma_insert_at(s: Seq<Seq<char>>, x: Seq<char>, k: int)
    requires
        0 <= k <= s.len(),
        forall|t: int| 0 <= t < k ==> !text_le(x, #[trigger] s[t]),
        k < s.len() ==> text_le(x, s[k]),
    ensures
        insert_sorted(s, x) == s.take(k) + seq![x] + s.skip(k),
    decreases s.len(),
{
    if s.len() == 0 {
        assert(s.take(k) + seq![x] + s.skip(k) =~= seq![x]);
    } else if k == 0 {
        assert(s.take(0) + seq![x] + s.skip(0) =~= seq![x] + s);
    } else {
        let rest = s.drop_first();
        assert forall|t: int| 0 <= t < k - 1 implies !text_le(x, #[trigger] rest[t]) by {
            assert(rest[t] == s[t + 1]);
        }
        lemma_insert_at(rest, x, k - 1);
        assert(seq![s[0]] + (rest.take(k - 1) + seq![x] + rest.skip(k - 1)) =~= s.take(k) + seq![x] + s.skip(k));
    }
}

/// Sorting by insertion yields a sorted permutation.
pub proof fn law_sorted_texts(v: Seq<Seq<char>>)
    ensures
        texts_sorted(sorted_texts(v)),
        sorted_texts(v).to_multiset() =~= v.to_multiset(),
    decreases v.len(),
{
    broadcast use vstd::multiset::group_multiset_axioms;
    broadcast use vstd::seq_lib::group_to_multiset_ensures;
    if v.len() > 0 {
        let prev = v.drop_last();
        law_sorted_texts(prev);
        lemma_insert_sorted(sorted_texts(prev), v.last());
        assert(v =~= prev.push(v.last()));
    }
}

/// Inserting into a sorted sequence keeps it sorted and adds `x` once.
proof fn lemma_insert_sorted(s: Seq<Seq<char>>, x: Seq<char>)
    requires
        texts_sorted(s),
    ensures
        texts_sorted(insert_sorted(s, x)),
        insert_sorted(s, x).to_multiset() =~= s.to_multiset().insert(x),
    decreases s.len(),
{
    broadcast use vstd::multiset::group_multiset_axioms;
    broadcast use vstd::seq_lib::group_to_multiset_ensures;
    if s.len() == 0 {
        assert(seq![x] =~= Seq::<Seq<char>>::empty().push(x));
    } else if text_le(x, s[0]) {
        let r = seq![x] + s;
        assert forall|i: int, j: int| 0 <= i < j < r.len() implies text_le(#[trigger] r[i], #[trigger] r[j]) by {
            if i == 0 {
                if j > 1 {
                    lemma_text_le_trans(x, s[0], s[j - 1]);
                }
            } else {
                assert(r[i] == s[i - 1] && r[j] == s[j - 1]);
            }
        }
        vstd::seq_lib::lemma_multiset_commutative(seq![x], s);
        assert(seq![x] =~= Seq::<Seq<char>>::empty().push(x));
    } else {
        let rest = s.drop_first();
        assert forall|i: int, j: int| 0 <= i < j < rest.len() implies text_le(#[trigger] rest[i], #[trigger] rest[j]) by {
            assert(rest[i] == s[i + 1] && rest[j] == s[j + 1]);
        }
        lemma_insert_sorted(rest, x);
        lemma_text_le_total(x, s[0]);
        let ins = insert_sorted(rest, x);
        let r = seq![s[0]] + ins;
        assert forall|t: int| 0 <= t < ins.len() implies text_le(s[0], #[trigger] ins[t]) by {
            assert(ins.to_multiset().count(ins[t]) > 0);
            assert(rest.to_multiset().insert(x).count(ins[t]) > 0);
            if ins[t] != x {
                assert(rest.to_multiset().count(ins[t]) > 0);
                assert(rest.contains(ins[t]));
                let u = choose|u: int| 0 <= u < rest.len() && rest[u] == ins[t];
                assert(s[u + 1] == rest[u]);
            }
        }
        assert forall|i: int, j: int| 0 <= i < j < r.len() implies text_le(#[trigger] r[i], #[trigger] r[j]) by {
            if i == 0 {
                assert(r[j] == ins[j - 1]);
            } else {
                assert(r[i] == ins[i - 1] && r[j] == ins[j - 1]);
            }
        }
        vstd::seq_lib::lemma_multiset_commutative(seq![s[0]], ins);
        vstd::seq_lib::lemma_multiset_commutative(seq![s[0]], rest);
        assert(s =~= seq![s[0]] + rest);
    }
}

/// The texts of `v` sorted: each is inserted, in order, before the first
/// entry it sorts no later than.
pub fn sort_texts(v: Vec<String>) -> (r: Vec<String>)
    ensures
        r.deep_view() == sorted_texts(v.deep_view()),
{
    let ghost all = v.deep_view();
    let mut out: Vec<String> = Vec::new();
    let mut i: usize = 0;
    while i < v.len()
        invariant
            i <= v@.len(),
            all == v.deep_view(),
            out.deep_view() == sorted_texts(all.take(i as int)),
        decreases v@.len() - i,
    {
        let x = v[i].clone();
        proof {
            assert(x@ == all[i as int]);
            assert(all.take(i + 1).drop_last() =~= all.take(i as int));
            assert(all.take(i + 1).last() == all[i as int]);
        }
        let ghost before = out.deep_view();
        let mut j: usize = 0;
        while j < out.len() && !text_less_eq(x.as_str(), out[j].as_str())
            invariant
                j <= out@.len(),
                out.deep_view() == before,
                forall|t: int| 0 <= t < j ==> !text_le(x@, #[trigger] before[t]),
            decreases out@.len() - j,
        {
            assert(before[j as int] == out@[j as int]@);
            j = j + 1;
        }
        proof {
            if j < out@.len() {
                assert(before[j as int] == out@[j as int]@);
            }
            lemma_insert_at(before, x@, j as int);
        }
        out.insert(j, x);
        assert(out.deep_view() =~= before.take(j as int) + seq![x@] + before.skip(j as int));
        i = i + 1;
    }
    assert(all.take(i as int) =~= all);
    out
}

} // verus!
