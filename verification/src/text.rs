use vstd::prelude::*;

verus! {

/// The bytes `str::split_ascii_whitespace` splits on.
pub open spec fn is_ascii_ws(c: u8) -> bool {
    c == 0x20 || c == 0x09 || c == 0x0A || c == 0x0C || c == 0x0D
}

/// Tokens of `s` from position `i` on, given the token `cur` being read and the finished
/// tokens `acc`.
pub open spec fn split_from(s: Seq<u8>, i: int, cur: Seq<u8>, acc: Seq<Seq<u8>>) -> Seq<Seq<u8>>
    decreases s.len() - i,
{
    if i >= s.len() {
        if cur.len() > 0 { acc.push(cur) } else { acc }
    } else if is_ascii_ws(s[i]) {
        split_from(s, i + 1, Seq::empty(), if cur.len() > 0 { acc.push(cur) } else { acc })
    } else {
        split_from(s, i + 1, cur.push(s[i]), acc)
    }
}

/// The maximal runs of non-whitespace bytes of `s`, in order.
pub open spec fn ascii_tokens(s: Seq<u8>) -> Seq<Seq<u8>> {
    split_from(s, 0, Seq::empty(), Seq::empty())
}

/// The byte views of a list of byte vectors.
pub open spec fn byte_views(v: Seq<Vec<u8>>) -> Seq<Seq<u8>> {
    v.map_values(|b: Vec<u8>| b@)
}

/// Splits `s` at ASCII whitespace, dropping empty tokens.
pub fn split_ascii_tokens(s: &[u8]) -> (r: Vec<Vec<u8>>)
    ensures
        byte_views(r@) == ascii_tokens(s@),
{
    let mut acc: Vec<Vec<u8>> = Vec::new();
    let mut cur: Vec<u8> = Vec::new();
    let mut i: usize = 0;
    assert(byte_views(acc@) =~= Seq::<Seq<u8>>::empty());
    assert(cur@ =~= Seq::<u8>::empty());
    while i < s.len()
        invariant
            i <= s@.len(),
            split_from(s@, i as int, cur@, byte_views(acc@)) == ascii_tokens(s@),
        decreases s.len() - i,
    {
        let c = s[i];
        let ghost old_cur = cur@;
        let ghost old_acc = byte_views(acc@);
        assert(split_from(s@, i as int, old_cur, old_acc) == if is_ascii_ws(c) {
            split_from(s@, i + 1, Seq::empty(), if old_cur.len() > 0 { old_acc.push(old_cur) } else { old_acc })
        } else {
            split_from(s@, i + 1, old_cur.push(c), old_acc)
        });
        if c == 0x20 || c == 0x09 || c == 0x0A || c == 0x0C || c == 0x0D {
            if cur.len() > 0 {
                let finished = cur;
                acc.push(finished);
                cur = Vec::new();
                assert(byte_views(acc@) =~= old_acc.push(finished@));
            }
            assert(cur@ =~= Seq::<u8>::empty());
        } else {
            cur.push(c);
        }
        i = i + 1;
    }
    assert(split_from(s@, i as int, cur@, byte_views(acc@)) == if cur@.len() > 0 {
        byte_views(acc@).push(cur@)
    } else {
        byte_views(acc@)
    });
    if cur.len() > 0 {
        let ghost old_acc = byte_views(acc@);
        let finished = cur;
        acc.push(finished);
        assert(byte_views(acc@) =~= old_acc.push(finished@));
    }
    acc
}

/// Decimal value of a run of ASCII digits.
pub open spec fn digits_value(d: Seq<u8>) -> int
    decreases d.len(),
{
    if d.len() == 0 {
        0
    } else {
        digits_value(d.drop_last()) * 10 + (d.last() - 0x30)
    }
}

/// Every byte is an ASCII decimal digit.
pub open spec fn all_digits(d: Seq<u8>) -> bool {
    forall|i: int| 0 <= i < d.len() ==> 0x30 <= #[trigger] d[i] <= 0x39
}

/// The digits of an unsigned decimal literal: an optional leading `+` is dropped.
pub open spec fn unsigned_digits(t: Seq<u8>) -> Seq<u8> {
    if t.len() > 0 && t[0] == 0x2B { t.drop_first() } else { t }
}

/// What `str::parse` of an unsigned integer with range `max` gives for `t`.
pub open spec fn parse_unsigned(t: Seq<u8>, max: int) -> Option<int> {
    let d = unsigned_digits(t);
    if d.len() > 0 && all_digits(d) && digits_value(d) <= max {
        Some(digits_value(d))
    } else {
        None
    }
}

/// The decimal value of a digit prefix never exceeds that of the whole run.
pub proof fn lemma_digits_prefix_le(d: Seq<u8>, i: int)
    requires
        all_digits(d),
        0 <= i <= d.len(),
    ensures
        digits_value(d.subrange(0, i)) <= digits_value(d),
        digits_value(d) >= 0,
    decreases d.len() - i,
{
    lemma_digits_nonneg(d);
    if i < d.len() {
        lemma_digits_prefix_le(d, i + 1);
        let p = d.subrange(0, i + 1);
        assert(p.drop_last() =~= d.subrange(0, i));
        lemma_digits_nonneg(d.subrange(0, i));
    } else {
        assert(d.subrange(0, i) =~= d);
    }
}

/// Decimal values are non-negative.
pub proof fn lemma_digits_nonneg(d: Seq<u8>)
    requires
        all_digits(d),
    ensures
        digits_value(d) >= 0,
    decreases d.len(),
{
    if d.len() > 0 {
        assert(all_digits(d.drop_last()));
        lemma_digits_nonneg(d.drop_last());
    }
}

/// Parses an unsigned decimal literal (optional leading `+`) no larger than `max`.
pub fn parse_unsigned_decimal(t: &[u8], max: u64) -> (r: Option<u64>)
    ensures
        match parse_unsigned(t@, max as int) {
            Some(v) => r == Some(v as u64),
            None => r is None,
        },
        r matches Some(v) ==> parse_unsigned(t@, max as int) == Some(v as int),
{
    let start: usize = if t.len() > 0 && t[0] == 0x2B { 1 } else { 0 };
    let ghost d = unsigned_digits(t@);
    assert(d =~= t@.subrange(start as int, t@.len() as int));
    if start >= t.len() {
        return None;
    }
    let mut i: usize = start;
    let mut acc: u64 = 0;
    assert(t@.subrange(start as int, start as int) =~= Seq::<u8>::empty());
    while i < t.len()
        invariant
            start <= i <= t@.len(),
            start < t@.len(),
            d == unsigned_digits(t@),
            d == t@.subrange(start as int, t@.len() as int),
            all_digits(t@.subrange(start as int, i as int)),
            acc as int == digits_value(t@.subrange(start as int, i as int)),
            acc <= max,
        decreases t.len() - i,
    {
        let c = t[i];
        if c < 0x30 || c > 0x39 {
            assert(d[(i - start) as int] == c);
            assert(!(0x30 <= d[(i - start) as int] <= 0x39));
            assert(!all_digits(d));
            return None;
        }
        let digit = (c - 0x30) as u64;
        let ghost prefix = t@.subrange(start as int, i + 1);
        assert(prefix.drop_last() =~= t@.subrange(start as int, i as int));
        assert(all_digits(prefix));
        if digit > max || acc > (max - digit) / 10 {
            proof {
                assert(acc * 10 + digit > max) by (nonlinear_arith)
                    requires
                        digit > max || acc > (max - digit) / 10,
                        acc >= 0,
                        digit <= 9,
                ;
                if all_digits(d) {
                    lemma_digits_prefix_le(d, (i + 1 - start) as int);
                    assert(d.subrange(0, (i + 1 - start) as int) =~= prefix);
                }
            }
            return None;
        }
        assert(acc * 10 + digit <= max) by (nonlinear_arith)
            requires
                digit <= max,
                acc <= (max - digit) / 10,
        ;
        acc = acc * 10 + digit;
        i = i + 1;
    }
    assert(t@.subrange(start as int, t@.len() as int) == d);
    Some(acc)
}

/// Position of the first `b` at or after `i`.
pub open spec fn find_from(s: Seq<u8>, b: u8, i: int) -> Option<int>
    decreases s.len() - i,
{
    if i < 0 || i >= s.len() {
        None
    } else if s[i] == b {
        Some(i)
    } else {
        find_from(s, b, i + 1)
    }
}

/// A found position lies in range and holds `b`; nothing before it from `i` on does.
pub proof fn lemma_find_from_found(s: Seq<u8>, b: u8, i: int)
    ensures
        find_from(s, b, i) matches Some(k) ==> i <= k < s.len() && s[k] == b,
    decreases s.len() - i,
{
    if 0 <= i < s.len() && s[i] != b {
        lemma_find_from_found(s, b, i + 1);
    }
}

/// The first `b` in `s` at or after `i`.
pub fn find_byte_from(s: &[u8], b: u8, i: usize) -> (r: Option<usize>)
    ensures
        match find_from(s@, b, i as int) {
            Some(k) => r == Some(k as usize),
            None => r is None,
        },
        r matches Some(k) ==> i <= k < s@.len() && s@[k as int] == b && find_from(s@, b, i as int) == Some(k as int),
{
    let mut j = i;
    while j < s.len()
        invariant
            i <= j,
            find_from(s@, b, i as int) == find_from(s@, b, j as int),
        decreases s.len() - j,
    {
        if s[j] == b {
            return Some(j);
        }
        j = j + 1;
    }
    None
}

/// Finds the first `b` in `s`.
pub fn find_byte(s: &[u8], b: u8) -> (r: Option<usize>)
    ensures
        match find_from(s@, b, 0) {
            Some(k) => r == Some(k as usize),
            None => r is None,
        },
{
    let mut i: usize = 0;
    while i < s.len()
        invariant
            i <= s@.len(),
            find_from(s@, b, 0) == find_from(s@, b, i as int),
        decreases s.len() - i,
    {
        if s[i] == b {
            return Some(i);
        }
        i = i + 1;
    }
    None
}

/// Whether two byte strings are equal.
pub fn bytes_eq(a: &[u8], b: &[u8]) -> (r: bool)
    ensures
        r == (a@ == b@),
{
    if a.len() != b.len() {
        return false;
    }
    let mut i: usize = 0;
    while i < a.len()
        invariant
            a@.len() == b@.len(),
            i <= a@.len(),
            forall|j: int| 0 <= j < i ==> a@[j] == b@[j],
        decreases a.len() - i,
    {
        if a[i] != b[i] {
            return false;
        }
        i = i + 1;
    }
    assert(a@ =~= b@);
    true
}

/// Copies `s[start..end]`.
pub fn copy_range(s: &[u8], start: usize, end: usize) -> (r: Vec<u8>)
    requires
        start <= end <= s@.len(),
    ensures
        r@ == s@.subrange(start as int, end as int),
{
    let mut out: Vec<u8> = Vec::new();
    let mut i: usize = start;
    while i < end
        invariant
            start <= i <= end <= s@.len(),
            out@ == s@.subrange(start as int, i as int),
        decreases end - i,
    {
        out.push(s[i]);
        i = i + 1;
        assert(out@ =~= s@.subrange(start as int, i as int));
    }
    out
}

/// Whether `s` begins with `prefix`.
pub fn starts_with(s: &[u8], prefix: &[u8]) -> (r: bool)
    ensures
        r == (prefix@.len() <= s@.len() && s@.subrange(0, prefix@.len() as int) == prefix@),
{
    if prefix.len() > s.len() {
        return false;
    }
    let head = copy_range(s, 0, prefix.len());
    bytes_eq(head.as_slice(), prefix)
}


/// An ASCII byte `str::trim` removes: tab to carriage return, and space.
pub open spec fn is_trim_ascii_ws(c: u8) -> bool {
    (0x09 <= c && c <= 0x0D) || c == 0x20
}

/// Whether three bytes encode a Unicode white-space character in UTF-8: U+1680, U+2000 to
/// U+200A, U+2028, U+2029, U+202F, U+205F or U+3000.
pub open spec fn is_ws3(a: u8, b: u8, c: u8) -> bool {
    ||| a == 0xE1 && b == 0x9A && c == 0x80
    ||| a == 0xE2 && b == 0x80 && ((0x80 <= c && c <= 0x8A) || c == 0xA8 || c == 0xA9 || c == 0xAF)
    ||| a == 0xE2 && b == 0x81 && c == 0x9F
    ||| a == 0xE3 && b == 0x80 && c == 0x80
}

/// The length of the white-space character `str::trim` removes at the start of `s`, 0 when
/// there is none: ASCII white space, U+0085 and U+00A0 (two bytes), or a three-byte one.
pub open spec fn lead_ws_len(s: Seq<u8>) -> nat {
    if s.len() >= 1 && is_trim_ascii_ws(s[0]) {
        1
    } else if s.len() >= 2 && s[0] == 0xC2 && (s[1] == 0x85 || s[1] == 0xA0) {
        2
    } else if s.len() >= 3 && is_ws3(s[0], s[1], s[2]) {
        3
    } else {
        0
    }
}

/// The length of the white-space character `str::trim` removes at the end of `s`, 0 when
/// there is none.
pub open spec fn trail_ws_len(s: Seq<u8>) -> nat {
    let n = s.len() as int;
    if n >= 1 && is_trim_ascii_ws(s[n - 1]) {
        1
    } else if n >= 2 && s[n - 2] == 0xC2 && (s[n - 1] == 0x85 || s[n - 1] == 0xA0) {
        2
    } else if n >= 3 && is_ws3(s[n - 3], s[n - 2], s[n - 1]) {
        3
    } else {
        0
    }
}

/// `s` without leading white space.
pub open spec fn trim_start(s: Seq<u8>) -> Seq<u8>
    decreases s.len(),
{
    if lead_ws_len(s) > 0 { trim_start(s.skip(lead_ws_len(s) as int)) } else { s }
}

/// `s` without trailing white space.
pub open spec fn trim_end(s: Seq<u8>) -> Seq<u8>
    decreases s.len(),
{
    if trail_ws_len(s) > 0 { trim_end(s.take(s.len() - trail_ws_len(s))) } else { s }
}

/// `s` without leading or trailing white space, as `str::trim` gives it for UTF-8 text.
pub open spec fn trim(s: Seq<u8>) -> Seq<u8> {
    trim_end(trim_start(s))
}

/// The length of the white-space character at the start of `s[a..end]`.
fn lead_ws(s: &[u8], a: usize, end: usize) -> (r: usize)
    requires
        a <= end <= s@.len(),
    ensures
        r == lead_ws_len(s@.subrange(a as int, end as int)),
{
    let ghost t = s@.subrange(a as int, end as int);
    let left = end - a;
    if left >= 1 && (s[a] == 0x20 || (0x09 <= s[a] && s[a] <= 0x0D)) {
        return 1;
    }
    if left >= 2 && s[a] == 0xC2 && (s[a + 1] == 0x85 || s[a + 1] == 0xA0) {
        return 2;
    }
    if left >= 3 {
        let (x, y, z) = (s[a], s[a + 1], s[a + 2]);
        if (x == 0xE1 && y == 0x9A && z == 0x80)
            || (x == 0xE2 && y == 0x80 && ((0x80 <= z && z <= 0x8A) || z == 0xA8 || z == 0xA9 || z == 0xAF))
            || (x == 0xE2 && y == 0x81 && z == 0x9F)
            || (x == 0xE3 && y == 0x80 && z == 0x80) {
            assert(is_ws3(t[0], t[1], t[2]));
            return 3;
        }
    }
    0
}

/// The length of the white-space character at the end of `s[a..b]`.
fn trail_ws(s: &[u8], a: usize, b: usize) -> (r: usize)
    requires
        a <= b <= s@.len(),
    ensures
        r == trail_ws_len(s@.subrange(a as int, b as int)),
{
    let ghost t = s@.subrange(a as int, b as int);
    let left = b - a;
    if left >= 1 && (s[b - 1] == 0x20 || (0x09 <= s[b - 1] && s[b - 1] <= 0x0D)) {
        return 1;
    }
    if left >= 2 && s[b - 2] == 0xC2 && (s[b - 1] == 0x85 || s[b - 1] == 0xA0) {
        return 2;
    }
    if left >= 3 {
        let (x, y, z) = (s[b - 3], s[b - 2], s[b - 1]);
        if (x == 0xE1 && y == 0x9A && z == 0x80)
            || (x == 0xE2 && y == 0x80 && ((0x80 <= z && z <= 0x8A) || z == 0xA8 || z == 0xA9 || z == 0xAF))
            || (x == 0xE2 && y == 0x81 && z == 0x9F)
            || (x == 0xE3 && y == 0x80 && z == 0x80) {
            assert(is_ws3(t[t.len() - 3], t[t.len() - 2], t[t.len() - 1]));
            return 3;
        }
    }
    0
}

/// The bounds of `s[start..end]` with surrounding white space removed.
pub fn trim_range(s: &[u8], start: usize, end: usize) -> (r: (usize, usize))
    requires
        start <= end <= s@.len(),
    ensures
        start <= r.0 <= r.1 <= end,
        s@.subrange(r.0 as int, r.1 as int) == trim(s@.subrange(start as int, end as int)),
{
    let mut a = start;
    loop
        invariant
            start <= a <= end <= s@.len(),
            trim_start(s@.subrange(start as int, end as int)) == trim_start(s@.subrange(a as int, end as int)),
        ensures
            start <= a <= end <= s@.len(),
            trim_start(s@.subrange(start as int, end as int)) == trim_start(s@.subrange(a as int, end as int)),
            lead_ws_len(s@.subrange(a as int, end as int)) == 0,
        decreases end - a,
    {
        let k = lead_ws(s, a, end);
        if k == 0 {
            break;
        }
        assert(s@.subrange(a as int, end as int).skip(k as int) =~= s@.subrange(a + k, end as int));
        a = a + k;
    }
    let mut b = end;
    assert(trim_start(s@.subrange(a as int, end as int)) == s@.subrange(a as int, end as int));
    loop
        invariant
            start <= a <= b <= end <= s@.len(),
            trim(s@.subrange(start as int, end as int)) == trim_end(s@.subrange(a as int, b as int)),
        ensures
            start <= a <= b <= end <= s@.len(),
            trim(s@.subrange(start as int, end as int)) == trim_end(s@.subrange(a as int, b as int)),
            trail_ws_len(s@.subrange(a as int, b as int)) == 0,
        decreases b - a,
    {
        let k = trail_ws(s, a, b);
        if k == 0 {
            break;
        }
        assert(s@.subrange(a as int, b as int).take(b - a - k) =~= s@.subrange(a as int, b - k));
        b = b - k;
    }
    (a, b)
}

/// ASCII lower case of one byte.
pub open spec fn lower(c: u8) -> u8 {
    if 0x41 <= c && c <= 0x5A { (c + 32) as u8 } else { c }
}

/// ASCII lower case of a byte string, as `str::to_ascii_lowercase` gives it.
pub open spec fn lowered(s: Seq<u8>) -> Seq<u8> {
    Seq::new(s.len(), |i: int| lower(s[i]))
}

/// ASCII lower case of a byte string.
pub fn ascii_lowercase(s: &[u8]) -> (r: Vec<u8>)
    ensures
        r@ == lowered(s@),
{
    let mut out: Vec<u8> = Vec::new();
    let mut i: usize = 0;
    while i < s.len()
        invariant
            i <= s@.len(),
            out@ == lowered(s@).subrange(0, i as int),
        decreases s.len() - i,
    {
        let c = s[i];
        out.push(if 0x41 <= c && c <= 0x5A { c + 32 } else { c });
        assert(out@ =~= lowered(s@).subrange(0, i + 1));
        i = i + 1;
    }
    assert(out@ =~= lowered(s@));
    out
}

/// `pat` occurs in `s` at `k`.
pub open spec fn pat_at(s: Seq<u8>, pat: Seq<u8>, k: int) -> bool {
    0 <= k && k + pat.len() <= s.len() && s.subrange(k, k + pat.len()) == pat
}

/// The first occurrence of `pat` in `s` at or after `i`.
pub open spec fn find_pat_from(s: Seq<u8>, pat: Seq<u8>, i: int) -> Option<int>
    decreases s.len() + 1 - i,
{
    if i < 0 || i + pat.len() > s.len() {
        None
    } else if pat_at(s, pat, i) {
        Some(i)
    } else {
        find_pat_from(s, pat, i + 1)
    }
}

/// Whether `pat` occurs in `s` at `k`.
pub fn matches_at(s: &[u8], pat: &[u8], k: usize) -> (r: bool)
    ensures
        r == pat_at(s@, pat@, k as int),
{
    if k > s.len() || pat.len() > s.len() - k {
        return false;
    }
    let mut j: usize = 0;
    while j < pat.len()
        invariant
            k + pat@.len() <= s@.len(),
            j <= pat@.len(),
            forall|m: int| 0 <= m < j ==> s@[k + m] == pat@[m],
        decreases pat.len() - j,
    {
        let n = s.len();
        assert(k + j < n);
        if s[k + j] != pat[j] {
            assert(s@.subrange(k as int, k + pat@.len())[j as int] != pat@[j as int]);
            return false;
        }
        j = j + 1;
    }
    assert(s@.subrange(k as int, k + pat@.len()) =~= pat@);
    true
}

/// The first occurrence of `pat` in `s`, as `str::find` reports it.
pub fn find_pattern(s: &[u8], pat: &[u8]) -> (r: Option<usize>)
    ensures
        match find_pat_from(s@, pat@, 0) {
            Some(k) => r == Some(k as usize),
            None => r is None,
        },
        r matches Some(k) ==> pat_at(s@, pat@, k as int) && find_pat_from(s@, pat@, 0) == Some(k as int),
{
    let mut i: usize = 0;
    while i < s.len()
        invariant
            i <= s@.len(),
            find_pat_from(s@, pat@, 0) == find_pat_from(s@, pat@, i as int),
        decreases s@.len() - i,
    {
        if pat.len() > s.len() - i {
            return None;
        }
        if matches_at(s, pat, i) {
            return Some(i);
        }
        i = i + 1;
    }
    if matches_at(s, pat, i) {
        Some(i)
    } else {
        assert(find_pat_from(s@, pat@, i + 1) is None);
        None
    }
}

/// What `str::parse::<i64>` gives for `t`.
pub open spec fn parse_i64(t: Seq<u8>) -> Option<int> {
    if t.len() > 0 && t[0] == 0x2D {
        let d = t.drop_first();
        if d.len() > 0 && all_digits(d) && digits_value(d) <= 0x8000_0000_0000_0000 { Some(-digits_value(d)) } else { None }
    } else {
        parse_unsigned(t, 0x7FFF_FFFF_FFFF_FFFF)
    }
}

/// Parses a signed 64-bit decimal literal with an optional sign.
pub fn parse_i64_decimal(t: &[u8]) -> (r: Option<i64>)
    ensures
        match parse_i64(t@) {
            Some(v) => r == Some(v as i64),
            None => r is None,
        },
        r matches Some(x) ==> parse_i64(t@) == Some(x as int),
{
    if t.len() > 0 && t[0] == 0x2D {
        let rest: &[u8] = &t[1..t.len()];
        assert(rest@ == t@.drop_first());
        if rest.len() == 0 || rest[0] == 0x2B {
            proof {
                if rest@.len() > 0 {
                    assert(!(0x30 <= rest@[0] <= 0x39));
                }
            }
            return None;
        }
        assert(unsigned_digits(rest@) == rest@);
        match parse_unsigned_decimal(rest, 0x8000_0000_0000_0000) {
            Some(v) => {
                if v == 0x8000_0000_0000_0000 {
                    Some(i64::MIN)
                } else {
                    Some(-(v as i64))
                }
            },
            None => None,
        }
    } else {
        match parse_unsigned_decimal(t, 0x7FFF_FFFF_FFFF_FFFF) {
            Some(v) => Some(v as i64),
            None => None,
        }
    }
}

/// A hexadecimal digit.
pub open spec fn is_hex(c: u8) -> bool {
    (0x30 <= c && c <= 0x39) || (0x61 <= c && c <= 0x66) || (0x41 <= c && c <= 0x46)
}

/// The value of a hexadecimal digit.
pub open spec fn hex_digit(c: u8) -> int {
    if c <= 0x39 { c - 0x30 } else if c >= 0x61 { c - 0x57 } else { c - 0x37 }
}

/// The value of a run of hexadecimal digits.
pub open spec fn hex_value(d: Seq<u8>) -> int
    decreases d.len(),
{
    if d.len() == 0 { 0 } else { hex_value(d.drop_last()) * 16 + hex_digit(d.last()) }
}

/// Every byte is a hexadecimal digit.
pub open spec fn all_hex(d: Seq<u8>) -> bool {
    forall|i: int| 0 <= i < d.len() ==> is_hex(#[trigger] d[i])
}

/// What `from_str_radix(t, 16)` gives for an unsigned type with range `max`.
pub open spec fn parse_hex(t: Seq<u8>, max: int) -> Option<int> {
    let d = unsigned_digits(t);
    if d.len() > 0 && all_hex(d) && hex_value(d) <= max { Some(hex_value(d)) } else { None }
}

proof fn lemma_hex_prefix_le(d: Seq<u8>, i: int)
    requires
        all_hex(d),
        0 <= i <= d.len(),
    ensures
        hex_value(d.subrange(0, i)) <= hex_value(d),
        hex_value(d) >= 0,
    decreases d.len() - i,
{
    lemma_hex_nonneg(d);
    if i < d.len() {
        lemma_hex_prefix_le(d, i + 1);
        let p = d.subrange(0, i + 1);
        assert(p.drop_last() =~= d.subrange(0, i));
        lemma_hex_nonneg(d.subrange(0, i));
    } else {
        assert(d.subrange(0, i) =~= d);
    }
}

proof fn lemma_hex_nonneg(d: Seq<u8>)
    requires
        all_hex(d),
    ensures
        hex_value(d) >= 0,
    decreases d.len(),
{
    if d.len() > 0 {
        assert(all_hex(d.drop_last()));
        lemma_hex_nonneg(d.drop_last());
    }
}

/// Parses an unsigned hexadecimal literal (optional leading `+`) no larger than `max`.
pub fn parse_hex_number(t: &[u8], max: u64) -> (r: Option<u64>)
    ensures
        match parse_hex(t@, max as int) {
            Some(v) => r == Some(v as u64),
            None => r is None,
        },
        r matches Some(v) ==> parse_hex(t@, max as int) == Some(v as int),
{
    let start: usize = if t.len() > 0 && t[0] == 0x2B { 1 } else { 0 };
    let ghost d = unsigned_digits(t@);
    assert(d =~= t@.subrange(start as int, t@.len() as int));
    if start >= t.len() {
        return None;
    }
    let mut i: usize = start;
    let mut acc: u64 = 0;
    assert(t@.subrange(start as int, start as int) =~= Seq::<u8>::empty());
    while i < t.len()
        invariant
            start <= i <= t@.len(),
            start < t@.len(),
            d == unsigned_digits(t@),
            d == t@.subrange(start as int, t@.len() as int),
            all_hex(t@.subrange(start as int, i as int)),
            acc as int == hex_value(t@.subrange(start as int, i as int)),
            acc <= max,
        decreases t.len() - i,
    {
        let c = t[i];
        let is_digit = 0x30 <= c && c <= 0x39;
        let is_lower = 0x61 <= c && c <= 0x66;
        let is_upper = 0x41 <= c && c <= 0x46;
        if !(is_digit || is_lower || is_upper) {
            assert(d[(i - start) as int] == c);
            assert(!all_hex(d));
            return None;
        }
        let digit: u64 = if is_digit { (c - 0x30) as u64 } else if is_lower { (c - 0x57) as u64 } else { (c - 0x37) as u64 };
        let ghost prefix = t@.subrange(start as int, i + 1);
        assert(prefix.drop_last() =~= t@.subrange(start as int, i as int));
        assert(all_hex(prefix));
        if digit > max || acc > (max - digit) / 16 {
            proof {
                assert(acc * 16 + digit > max) by (nonlinear_arith)
                    requires
                        digit > max || acc > (max - digit) / 16,
                        acc >= 0,
                        digit <= 15,
                ;
                if all_hex(d) {
                    lemma_hex_prefix_le(d, (i + 1 - start) as int);
                    assert(d.subrange(0, (i + 1 - start) as int) =~= prefix);
                }
            }
            return None;
        }
        assert(acc * 16 + digit <= max) by (nonlinear_arith)
            requires
                digit <= max,
                acc <= (max - digit) / 16,
        ;
        acc = acc * 16 + digit;
        i = i + 1;
    }
    assert(t@.subrange(start as int, t@.len() as int) == d);
    Some(acc)
}

} // verus!
