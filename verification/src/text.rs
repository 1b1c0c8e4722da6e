//! Character-level helpers shared by the parsers and formatters.

use vstd::prelude::*;

verus! {

broadcast use vstd::string::group_string_axioms;

/// Appends one character to a string (`String::push`).
#[verifier::external_body]
pub(crate) fn push_char(s: &mut String, c: char)
    ensures
        final(s)@ == old(s)@.push(c),
{
    s.push(c);
}

/// The characters of `s`, in order.
pub fn chars_of(s: &str) -> (v: Vec<char>)
    ensures
        v@ == s@,
{
    let mut v: Vec<char> = Vec::new();
    for c in it: s.chars()
        invariant
            v@ == it.seq().take(it.index() as int),
            it.seq() == s@,
    {
        v.push(c);
    }
    v
}

/// A string holding exactly the characters of `v`.
pub fn string_of(v: &[char]) -> (s: String)
    ensures
        s@ == v@,
{
    let mut s = String::new();
    let mut i: usize = 0;
    while i < v.len()
        invariant
            i <= v@.len(),
            s@ == v@.take(i as int),
        decreases v@.len() - i,
    {
        push_char(&mut s, v[i]);
        assert(v@.take(i as int).push(v@[i as int]) =~= v@.take(i + 1));
        i += 1;
    }
    assert(v@.take(v@.len() as int) =~= v@);
    s
}


/// The ASCII digit for `d` (`0..=9`).
pub open spec fn digit_char(d: int) -> char {
    (d + 48) as char
}

/// `n` in decimal, without leading zeros.
pub open spec fn decimal(n: nat) -> Seq<char>
    decreases n,
{
    if n < 10 {
        seq![digit_char(n as int)]
    } else {
        decimal(n / 10).push(digit_char((n % 10) as int))
    }
}

/// `n` in decimal, left-padded with zeros to at least `width` digits.
pub open spec fn zero_padded(n: nat, width: nat) -> Seq<char> {
    let digits = decimal(n);
    if digits.len() >= width {
        digits
    } else {
        Seq::new((width - digits.len()) as nat, |i: int| '0') + digits
    }
}

pub(crate) fn digit(d: u64) -> (c: char)
    requires
        d < 10,
    ensures
        c == digit_char(d as int),
{
    let b: u8 = d as u8 + 48;
    b as char
}

/// Appends `n` in decimal.
pub fn push_decimal(out: &mut Vec<char>, n: u64)
    ensures
        final(out)@ == old(out)@ + decimal(n as nat),
    decreases n,
{
    if n >= 10 {
        push_decimal(out, n / 10);
    }
    out.push(digit(n % 10));
    proof {
        if n < 10 {
            assert(n % 10 == n);
        }
    }
}

pub proof fn lemma_decimal_len(n: nat)
    ensures
        decimal(n).len() >= 1,
        n < 10 ==> decimal(n).len() == 1,
        10 <= n < 100 ==> decimal(n).len() == 2,
        100 <= n < 1000 ==> decimal(n).len() == 3,
        1000 <= n < 10000 ==> decimal(n).len() == 4,
    decreases n,
{
    if n >= 10 {
        lemma_decimal_len(n / 10);
    }
}

/// Appends `n` in decimal, zero-padded to at least `width` digits.
pub fn push_zero_padded(out: &mut Vec<char>, n: u64, width: usize)
    ensures
        final(out)@ == old(out)@ + zero_padded(n as nat, width as nat),
{
    let mut digits: Vec<char> = Vec::new();
    push_decimal(&mut digits, n);
    proof {
        assert(digits@ =~= decimal(n as nat));
    }
    let mut pad: usize = 0;
    let ghost start = out@;
    if digits.len() < width {
        pad = width - digits.len();
    }
    let mut k: usize = 0;
    while k < pad
        invariant
            k <= pad,
            out@ == start + Seq::new(k as nat, |i: int| '0'),
        decreases pad - k,
    {
        out.push('0');
        proof {
            assert(Seq::new(k as nat, |i: int| '0').push('0') =~= Seq::new((k + 1) as nat, |i: int| '0'));
        }
        k += 1;
    }
    let mut q: usize = 0;
    let ghost mid = out@;
    while q < digits.len()
        invariant
            q <= digits@.len(),
            out@ == mid + digits@.take(q as int),
        decreases digits@.len() - q,
    {
        out.push(digits[q]);
        proof {
            assert(digits@.take(q as int).push(digits@[q as int]) =~= digits@.take(q + 1));
        }
        q += 1;
    }
    proof {
        assert(digits@.take(digits@.len() as int) =~= digits@);
        if digits@.len() >= width {
            assert(Seq::new(0nat, |i: int| '0') + digits@ =~= digits@);
        }
    }
}

/// Appends all characters of `tail`.
pub fn push_all(out: &mut Vec<char>, tail: &[char])
    ensures
        final(out)@ == old(out)@ + tail@,
{
    let ghost start = out@;
    let mut q: usize = 0;
    while q < tail.len()
        invariant
            q <= tail@.len(),
            out@ == start + tail@.take(q as int),
        decreases tail@.len() - q,
    {
        out.push(tail[q]);
        proof {
            assert(tail@.take(q as int).push(tail@[q as int]) =~= tail@.take(q + 1));
        }
        q += 1;
    }
    proof {
        assert(tail@.take(tail@.len() as int) =~= tail@);
    }
}

/// Appends all characters of `tail`.
pub fn push_str(out: &mut Vec<char>, tail: &str)
    ensures
        final(out)@ == old(out)@ + tail@,
{
    let chars = chars_of(tail);
    push_all(out, chars.as_slice());
}

/// Whether two character sequences are equal.
pub fn chars_equal(a: &[char], b: &[char]) -> (r: bool)
    ensures
        r == (a@ == b@),
{
    if a.len() != b.len() {
        return false;
    }
    let mut i: usize = 0;
    while i < a.len()
        invariant
            a@.len() == b@.len(),
            i <= a@.len(),
            forall|k: int| 0 <= k < i ==> a@[k] == b@[k],
        decreases a@.len() - i,
    {
        if a[i] != b[i] {
            return false;
        }
        i += 1;
    }
    proof {
        assert(a@ =~= b@);
    }
    true
}

/// Whether `s` holds exactly the characters of `lit`.
pub fn equals_str(s: &[char], lit: &str) -> (r: bool)
    ensures
        r == (s@ == lit@),
{
    let other = chars_of(lit);
    chars_equal(s, other.as_slice())
}

/// Whether `s` begins with `prefix`.
pub fn starts_with(s: &[char], prefix: &[char]) -> (r: bool)
    ensures
        r == (prefix@.len() <= s@.len() && s@.take(prefix@.len() as int) == prefix@),
{
    if prefix.len() > s.len() {
        return false;
    }
    let mut i: usize = 0;
    while i < prefix.len()
        invariant
            prefix@.len() <= s@.len(),
            i <= prefix@.len(),
            forall|k: int| 0 <= k < i ==> s@[k] == prefix@[k],
        decreases prefix@.len() - i,
    {
        if s[i] != prefix[i] {
            proof {
                assert(s@.take(prefix@.len() as int)[i as int] != prefix@[i as int]);
            }
            return false;
        }
        i += 1;
    }
    proof {
        assert(s@.take(prefix@.len() as int) =~= prefix@);
    }
    true
}

/// Whether `s` ends with `suffix`.
pub fn ends_with(s: &[char], suffix: &[char]) -> (r: bool)
    ensures
        r == (suffix@.len() <= s@.len() && s@.skip(s@.len() - suffix@.len()) == suffix@),
{
    if suffix.len() > s.len() {
        return false;
    }
    let off = s.len() - suffix.len();
    let mut i: usize = 0;
    while i < suffix.len()
        invariant
            suffix@.len() <= s@.len(),
            off == s@.len() - suffix@.len(),
            off + suffix@.len() <= usize::MAX,
            i <= suffix@.len(),
            forall|k: int| 0 <= k < i ==> s@[off + k] == suffix@[k],
        decreases suffix@.len() - i,
    {
        if s[off + i] != suffix[i] {
            proof {
                assert(s@.skip(off as int)[i as int] != suffix@[i as int]);
            }
            return false;
        }
        i += 1;
    }
    proof {
        assert(s@.skip(off as int) =~= suffix@);
    }
    true
}

/// Whether `c` occurs in `s`.
pub fn contains_char(s: &[char], c: char) -> (r: bool)
    ensures
        r == s@.contains(c),
{
    let mut i: usize = 0;
    while i < s.len()
        invariant
            i <= s@.len(),
            forall|k: int| 0 <= k < i ==> s@[k] != c,
        decreases s@.len() - i,
    {
        if s[i] == c {
            proof {
                assert(s@[i as int] == c);
            }
            return true;
        }
        i += 1;
    }
    false
}

/// The characters `s[from..to]`.
pub fn slice_chars(s: &[char], from: usize, to: usize) -> (r: Vec<char>)
    requires
        from <= to <= s@.len(),
    ensures
        r@ == s@.subrange(from as int, to as int),
{
    let mut r: Vec<char> = Vec::new();
    let mut i: usize = from;
    while i < to
        invariant
            from <= i <= to,
            to <= s@.len(),
            r@ == s@.subrange(from as int, i as int),
        decreases to - i,
    {
        r.push(s[i]);
        proof {
            assert(s@.subrange(from as int, i as int).push(s@[i as int]) =~= s@.subrange(
                from as int,
                i + 1,
            ));
        }
        i += 1;
    }
    r
}


/// Whether `c` has the Unicode `White_Space` property (`char::is_whitespace`).
pub open spec fn is_white_space(c: char) -> bool {
    let u = c as u32;
    ||| 0x09 <= u <= 0x0d
    ||| u == 0x20
    ||| u == 0x85
    ||| u == 0xa0
    ||| u == 0x1680
    ||| 0x2000 <= u <= 0x200a
    ||| u == 0x2028
    ||| u == 0x2029
    ||| u == 0x202f
    ||| u == 0x205f
    ||| u == 0x3000
}

pub fn white_space(c: char) -> (r: bool)
    ensures
        r == is_white_space(c),
{
    let u = c as u32;
    (0x09 <= u && u <= 0x0d) || u == 0x20 || u == 0x85 || u == 0xa0 || u == 0x1680 || (0x2000
        <= u && u <= 0x200a) || u == 0x2028 || u == 0x2029 || u == 0x202f || u == 0x205f || u
        == 0x3000
}

/// `s` without its leading white space.
pub open spec fn trim_start(s: Seq<char>) -> Seq<char>
    decreases s.len(),
{
    if s.len() > 0 && is_white_space(s[0]) {
        trim_start(s.drop_first())
    } else {
        s
    }
}

/// `s` without its trailing white space.
pub open spec fn trim_end(s: Seq<char>) -> Seq<char>
    decreases s.len(),
{
    if s.len() > 0 && is_white_space(s.last()) {
        trim_end(s.drop_last())
    } else {
        s
    }
}

/// `s` without white space at either end, as `str::trim` gives it.
pub open spec fn trimmed(s: Seq<char>) -> Seq<char> {
    trim_end(trim_start(s))
}

proof fn lemma_trim_end_prefix(s: Seq<char>)
    ensures
        trim_end(s).len() <= s.len(),
        trim_end(s) =~= s.take(trim_end(s).len() as int),
        trim_end(s).len() > 0 ==> !is_white_space(trim_end(s).last()),
    decreases s.len(),
{
    if s.len() > 0 && is_white_space(s.last()) {
        lemma_trim_end_prefix(s.drop_last());
    }
}

proof fn lemma_trim_start_suffix(s: Seq<char>)
    ensures
        trim_start(s).len() <= s.len(),
        trim_start(s) =~= s.skip(s.len() - trim_start(s).len()),
        trim_start(s).len() > 0 ==> !is_white_space(trim_start(s)[0]),
    decreases s.len(),
{
    if s.len() > 0 && is_white_space(s[0]) {
        lemma_trim_start_suffix(s.drop_first());
    }
}

/// Trimming twice changes nothing more: a trimmed string has no white
/// space at either end.
pub proof fn lemma_trimmed_idempotent(s: Seq<char>)
    ensures
        trimmed(trimmed(s)) == trimmed(s),
        trimmed(s).len() > 0 ==> !is_white_space(trimmed(s)[0]) && !is_white_space(
            trimmed(s).last(),
        ),
{
    let u = trim_start(s);
    let t = trim_end(u);
    lemma_trim_start_suffix(s);
    lemma_trim_end_prefix(u);
    if t.len() > 0 {
        assert(t[0] == u[0]);
    }
    assert(trim_start(t) == t);
    assert(trim_end(t) == t);
}

/// The characters of `s` without white space at either end.
pub fn trim_chars(s: &[char]) -> (r: Vec<char>)
    ensures
        r@ == trimmed(s@),
{
    let mut lo: usize = 0;
    assert(s@.skip(0) =~= s@);
    while lo < s.len() && white_space(s[lo])
        invariant
            lo <= s@.len(),
            trim_start(s@) == trim_start(s@.skip(lo as int)),
        decreases s@.len() - lo,
    {
        proof {
            assert(s@.skip(lo as int).drop_first() =~= s@.skip(lo + 1));
        }
        lo += 1;
    }
    proof {
        if lo < s@.len() {
            assert(s@.skip(lo as int)[0] == s@[lo as int]);
        } else {
            assert(s@.skip(lo as int) =~= Seq::<char>::empty());
        }
        assert(trim_start(s@) == s@.subrange(lo as int, s@.len() as int));
    }
    let mut hi: usize = s.len();
    while hi > lo && white_space(s[hi - 1])
        invariant
            lo <= hi <= s@.len(),
            trim_start(s@) == s@.subrange(lo as int, s@.len() as int),
            trimmed(s@) == trim_end(s@.subrange(lo as int, hi as int)),
        decreases hi,
    {
        proof {
            assert(s@.subrange(lo as int, hi as int).drop_last() =~= s@.subrange(
                lo as int,
                hi - 1,
            ));
        }
        hi -= 1;
    }
    slice_chars(s, lo, hi)
}


/// Whether `s` begins with `prefix`.
pub open spec fn has_prefix(s: Seq<char>, prefix: Seq<char>) -> bool {
    prefix.len() <= s.len() && s.take(prefix.len() as int) == prefix
}

/// Whether the characters `s` begin with the text `prefix`.
pub fn starts_with_str(s: &[char], prefix: &str) -> (r: bool)
    ensures
        r == has_prefix(s@, prefix@),
{
    let p = chars_of(prefix);
    starts_with(s, p.as_slice())
}

/// How many characters `s` starts with before its first white space.
pub open spec fn run_len(s: Seq<char>) -> nat
    decreases s.len(),
{
    if s.len() == 0 || is_white_space(s[0]) {
        0
    } else {
        1 + run_len(s.drop_first())
    }
}

pub proof fn lemma_run_len(s: Seq<char>)
    ensures
        run_len(s) <= s.len(),
        forall|k: int| 0 <= k < run_len(s) ==> !is_white_space(#[trigger] s[k]),
        run_len(s) < s.len() ==> is_white_space(s[run_len(s) as int]),
    decreases s.len(),
{
    if s.len() > 0 && !is_white_space(s[0]) {
        lemma_run_len(s.drop_first());
        assert forall|k: int| 0 <= k < run_len(s) implies !is_white_space(#[trigger] s[k]) by {
            if k > 0 {
                assert(s[k] == s.drop_first()[k - 1]);
            }
        }
    }
}

/// The maximal runs of characters other than white space, in order, as
/// `str::split_whitespace` yields them.
pub open spec fn words(s: Seq<char>) -> Seq<Seq<char>>
    decreases s.len(),
{
    if s.len() == 0 {
        Seq::empty()
    } else if is_white_space(s[0]) {
        words(s.drop_first())
    } else {
        proof {
            lemma_run_len(s);
        }
        seq![s.take(run_len(s) as int)] + words(s.skip(run_len(s) as int))
    }
}

/// The words of `s`: its maximal runs of characters other than white space.
pub fn words_of(s: &[char]) -> (r: Vec<Vec<char>>)
    ensures
        r@.map_values(|w: Vec<char>| w@) == words(s@),
{
    let mut r: Vec<Vec<char>> = Vec::new();
    let mut i: usize = 0;
    assert(s@.skip(0) =~= s@);
    while i < s.len()
        invariant
            i <= s@.len(),
            words(s@) == r@.map_values(|w: Vec<char>| w@) + words(s@.skip(i as int)),
        decreases s@.len() - i,
    {
        let ghost rest = s@.skip(i as int);
        proof {
            assert(rest[0] == s@[i as int]);
        }
        if white_space(s[i]) {
            proof {
                assert(rest.drop_first() =~= s@.skip(i + 1));
            }
            i += 1;
        } else {
            let mut j: usize = i;
            proof {
                assert(s@.skip(j as int) =~= rest);
            }
            while j < s.len() && !white_space(s[j])
                invariant
                    i <= j <= s@.len(),
                    rest == s@.skip(i as int),
                    run_len(rest) == (j - i) + run_len(s@.skip(j as int)),
                decreases s@.len() - j,
            {
                proof {
                    assert(s@.skip(j as int)[0] == s@[j as int]);
                    assert(s@.skip(j as int).drop_first() =~= s@.skip(j + 1));
                }
                j += 1;
            }
            proof {
                if j < s@.len() {
                    assert(s@.skip(j as int)[0] == s@[j as int]);
                }
                assert(run_len(s@.skip(j as int)) == 0);
                assert(rest.take(run_len(rest) as int) =~= s@.subrange(i as int, j as int));
                assert(rest.skip(run_len(rest) as int) =~= s@.skip(j as int));
            }
            let w = slice_chars(s, i, j);
            let ghost before = r@;
            r.push(w);
            proof {
                assert(r@.map_values(|w: Vec<char>| w@) =~= before.map_values(|w: Vec<char>| w@)
                    + seq![w@]);
            }
            i = j;
        }
    }
    proof {
        assert(s@.skip(i as int) =~= Seq::<char>::empty());
        assert(r@.map_values(|w: Vec<char>| w@) + Seq::<Seq<char>>::empty() =~= r@.map_values(
            |w: Vec<char>| w@,
        ));
    }
    r
}


/// The first position at or after `from` where `pat` occurs in `s`.
pub open spec fn find_from(s: Seq<char>, pat: Seq<char>, from: int) -> Option<int>
    decreases s.len() + 1 - from,
{
    if from < 0 || from + pat.len() > s.len() {
        None
    } else if s.subrange(from, from + pat.len()) == pat {
        Some(from)
    } else {
        find_from(s, pat, from + 1)
    }
}

/// The first position where `pat` occurs in `s`, like `str::find`.
pub open spec fn find_text(s: Seq<char>, pat: Seq<char>) -> Option<int> {
    find_from(s, pat, 0)
}


/// Where `find_text` finds `pat`, it occurs, and it stays inside `s`.
pub proof fn lemma_find_text(s: Seq<char>, pat: Seq<char>)
    ensures
        find_text(s, pat) matches Some(i) ==> 0 <= i && i + pat.len() <= s.len() && s.subrange(
            i,
            i + pat.len(),
        ) == pat,
{
    lemma_find_from(s, pat, 0);
}

proof fn lemma_find_from(s: Seq<char>, pat: Seq<char>, from: int)
    ensures
        find_from(s, pat, from) matches Some(i) ==> from <= i && 0 <= i && i + pat.len() <= s.len()
            && s.subrange(i, i + pat.len()) == pat,
    decreases s.len() + 1 - from,
{
    if from >= 0 && from + pat.len() <= s.len() && s.subrange(from, from + pat.len()) != pat {
        lemma_find_from(s, pat, from + 1);
    }
}

/// Where `pat` first occurs in `s`.
pub fn find_chars(s: &[char], pat: &[char]) -> (r: Option<usize>)
    ensures
        match r {
            Some(i) => find_text(s@, pat@) == Some(i as int),
            None => find_text(s@, pat@) is None,
        },
{
    if pat.len() > s.len() {
        return None;
    }
    if pat.len() == 0 {
        assert(s@.subrange(0, 0) =~= pat@);
        return Some(0);
    }
    let slen = s.len();
    let plen = pat.len();
    let last = slen - plen;
    let mut i: usize = 0;
    while i <= last
        invariant
            slen == s@.len(),
            plen == pat@.len(),
            plen >= 1,
            last == s@.len() - pat@.len(),
            pat@.len() <= s@.len(),
            i <= last + 1,
            find_text(s@, pat@) == find_from(s@, pat@, i as int),
        decreases last + 1 - i,
    {
        let piece = slice_chars(s, i, i + plen);
        if chars_equal(piece.as_slice(), pat) {
            return Some(i);
        }
        i += 1;
    }
    None
}

/// `s` without its leading white space.
pub fn trim_start_chars(s: &[char]) -> (r: Vec<char>)
    ensures
        r@ == trim_start(s@),
{
    let mut lo: usize = 0;
    assert(s@.skip(0) =~= s@);
    while lo < s.len() && white_space(s[lo])
        invariant
            lo <= s@.len(),
            trim_start(s@) == trim_start(s@.skip(lo as int)),
        decreases s@.len() - lo,
    {
        proof {
            assert(s@.skip(lo as int).drop_first() =~= s@.skip(lo + 1));
        }
        lo += 1;
    }
    proof {
        if lo < s@.len() {
            assert(s@.skip(lo as int)[0] == s@[lo as int]);
        } else {
            assert(s@.skip(lo as int) =~= Seq::<char>::empty());
        }
        assert(s@.skip(lo as int) =~= s@.subrange(lo as int, s@.len() as int));
    }
    slice_chars(s, lo, s.len())
}

/// The index of the last `c` in `s`, or `-1`.
pub open spec fn last_index_of(s: Seq<char>, c: char) -> int
    decreases s.len(),
{
    if s.len() == 0 {
        -1
    } else if s.last() == c {
        s.len() - 1
    } else {
        last_index_of(s.drop_last(), c)
    }
}

pub proof fn lemma_last_index_of(s: Seq<char>, c: char)
    ensures
        -1 <= last_index_of(s, c) < s.len(),
        last_index_of(s, c) >= 0 ==> s[last_index_of(s, c)] == c,
        forall|k: int| last_index_of(s, c) < k < s.len() ==> s[k] != c,
    decreases s.len(),
{
    if s.len() > 0 && s.last() != c {
        lemma_last_index_of(s.drop_last(), c);
        assert forall|k: int| last_index_of(s, c) < k < s.len() implies s[k] != c by {
            if k < s.len() - 1 {
                assert(s[k] == s.drop_last()[k]);
            }
        }
    }
}

/// `c` with an ASCII capital turned into its small letter.
pub open spec fn ascii_lower(c: char) -> char {
    if 'A' <= c && c <= 'Z' {
        ((c as u32) + 32) as char
    } else {
        c
    }
}

pub fn to_ascii_lower(c: char) -> (r: char)
    ensures
        r == ascii_lower(c),
{
    if 'A' <= c && c <= 'Z' {
        ((c as u8) + 32) as char
    } else {
        c
    }
}

/// Index of the first `c` in `s`, or `s.len()` when there is none.
pub open spec fn first_index_of(s: Seq<char>, c: char) -> int
    decreases s.len(),
{
    if s.len() == 0 {
        0
    } else if s[0] == c {
        0
    } else {
        1 + first_index_of(s.drop_first(), c)
    }
}

/// `s` split at every `sep`, like `str::split`: `k` separators give `k + 1`
/// pieces, empty ones included.
pub open spec fn split_on(s: Seq<char>, sep: char) -> Seq<Seq<char>>
    decreases s.len(),
{
    let i = first_index_of(s, sep);
    if i >= s.len() {
        seq![s]
    } else {
        proof {
            lemma_first_index_of(s, sep);
        }
        seq![s.take(i)] + split_on(s.skip(i + 1), sep)
    }
}

/// The pieces joined with `sep` between each two, like `slice::join`.
pub open spec fn join_with(pieces: Seq<Seq<char>>, sep: char) -> Seq<char>
    decreases pieces.len(),
{
    if pieces.len() == 0 {
        Seq::empty()
    } else if pieces.len() == 1 {
        pieces[0]
    } else {
        join_with(pieces.drop_last(), sep) + seq![sep] + pieces.last()
    }
}

pub proof fn lemma_first_index_of(s: Seq<char>, c: char)
    ensures
        0 <= first_index_of(s, c) <= s.len(),
        forall|k: int| 0 <= k < first_index_of(s, c) ==> s[k] != c,
        first_index_of(s, c) < s.len() ==> s[first_index_of(s, c)] == c,
        !s.contains(c) ==> first_index_of(s, c) == s.len(),
    decreases s.len(),
{
    if s.len() > 0 && s[0] != c {
        lemma_first_index_of(s.drop_first(), c);
        assert forall|k: int| 0 <= k < first_index_of(s, c) implies s[k] != c by {
            if k > 0 {
                assert(s[k] == s.drop_first()[k - 1]);
            }
        }
        if !s.contains(c) {
            assert(!s.drop_first().contains(c)) by {
                if s.drop_first().contains(c) {
                    let k = choose|k: int| 0 <= k < s.drop_first().len() && s.drop_first()[k] == c;
                    assert(s[k + 1] == c);
                }
            }
        }
    }
}

pub proof fn lemma_first_index_of_concat(a: Seq<char>, b: Seq<char>, c: char)
    requires
        !a.contains(c),
    ensures
        first_index_of(a + b, c) == a.len() + first_index_of(b, c),
    decreases a.len(),
{
    if a.len() > 0 {
        assert((a + b).drop_first() =~= a.drop_first() + b);
        assert((a + b)[0] == a[0]);
        assert(!a.drop_first().contains(c)) by {
            if a.drop_first().contains(c) {
                let k = choose|k: int| 0 <= k < a.drop_first().len() && a.drop_first()[k] == c;
                assert(a[k + 1] == c);
            }
        }
        lemma_first_index_of_concat(a.drop_first(), b, c);
    } else {
        assert(a + b =~= b);
    }
}


proof fn lemma_join_front(h: Seq<Seq<char>>, sep: char)
    requires
        h.len() >= 2,
    ensures
        join_with(h, sep) =~= h[0] + seq![sep] + join_with(h.drop_first(), sep),
    decreases h.len(),
{
    let d = h.drop_first();
    assert(join_with(h, sep) == join_with(h.drop_last(), sep) + seq![sep] + h.last());
    if h.len() == 2 {
        assert(h.drop_last().len() == 1);
        assert(join_with(h.drop_last(), sep) == h.drop_last()[0]);
        assert(d.len() == 1);
        assert(join_with(d, sep) == d[0]);
        assert(d[0] == h.last());
    } else {
        lemma_join_front(h.drop_last(), sep);
        assert(d.drop_last() =~= h.drop_last().drop_first());
        assert(d.last() == h.last());
        assert(join_with(d, sep) == join_with(d.drop_last(), sep) + seq![sep] + d.last());
        assert(h.drop_last()[0] == h[0]);
    }
}

/// Splitting pieces joined with `sep` gives the pieces back, when none of
/// them holds `sep`.
pub proof fn lemma_split_join(h: Seq<Seq<char>>, sep: char)
    requires
        h.len() >= 1,
        forall|i: int| 0 <= i < h.len() ==> !(#[trigger] h[i]).contains(sep),
    ensures
        split_on(join_with(h, sep), sep) == h,
    decreases h.len(),
{
    if h.len() == 1 {
        assert(!h[0].contains(sep));
        lemma_first_index_of(h[0], sep);
        assert(split_on(h[0], sep) =~= seq![h[0]]);
    } else {
        let rest = h.drop_first();
        assert forall|i: int| 0 <= i < rest.len() implies !(#[trigger] rest[i]).contains(sep) by {
            assert(rest[i] == h[i + 1]);
        }
        lemma_split_join(rest, sep);
        lemma_join_front(h, sep);
        let whole = join_with(h, sep);
        let tail = join_with(rest, sep);
        assert(!h[0].contains(sep));
        lemma_first_index_of_concat(h[0], seq![sep] + tail, sep);
        assert(whole =~= h[0] + (seq![sep] + tail));
        assert(first_index_of(whole, sep) == h[0].len());
        lemma_first_index_of(whole, sep);
        assert(whole.take(h[0].len() as int) =~= h[0]);
        assert(whole.skip(h[0].len() as int + 1) =~= tail);
        assert(split_on(whole, sep) =~= seq![h[0]] + split_on(tail, sep));
        assert(h =~= seq![h[0]] + rest);
    }
}


/// Splitting a piece free of `sep`, `sep` and the rest gives the piece and
/// then the pieces of the rest.
pub proof fn lemma_split_on_cons(x: Seq<char>, y: Seq<char>, sep: char)
    requires
        !x.contains(sep),
    ensures
        split_on(x + seq![sep] + y, sep) == seq![x] + split_on(y, sep),
{
    let whole = x + seq![sep] + y;
    lemma_first_index_of_concat(x, seq![sep] + y, sep);
    assert(whole =~= x + (seq![sep] + y));
    lemma_first_index_of(whole, sep);
    assert(whole.take(x.len() as int) =~= x);
    assert(whole.skip(x.len() as int + 1) =~= y);
}


/// No piece of a split holds the separator.
pub proof fn lemma_split_pieces(s: Seq<char>, sep: char)
    ensures
        split_on(s, sep).len() >= 1,
        forall|k: int| 0 <= k < split_on(s, sep).len() ==> !(#[trigger] split_on(s, sep)[k]).contains(sep),
    decreases s.len(),
{
    lemma_first_index_of(s, sep);
    let i = first_index_of(s, sep);
    if i < s.len() {
        let rest = s.skip(i + 1);
        lemma_split_pieces(rest, sep);
        let head = s.take(i);
        assert(!head.contains(sep)) by {
            if head.contains(sep) {
                let k = choose|k: int| 0 <= k < head.len() && head[k] == sep;
                assert(s[k] == sep);
            }
        }
        let pieces = split_on(s, sep);
        assert(pieces == seq![head] + split_on(rest, sep));
        assert forall|k: int| 0 <= k < pieces.len() implies !(#[trigger] pieces[k]).contains(sep) by {
            if k > 0 {
                assert(pieces[k] == split_on(rest, sep)[k - 1]);
            }
        }
    } else {
        assert(split_on(s, sep) == seq![s]);
    }
}

/// Joining the pieces of a split gives the text back.
pub proof fn lemma_join_split(s: Seq<char>, sep: char)
    ensures
        join_with(split_on(s, sep), sep) == s,
    decreases s.len(),
{
    lemma_first_index_of(s, sep);
    let i = first_index_of(s, sep);
    if i < s.len() {
        let rest = s.skip(i + 1);
        lemma_join_split(rest, sep);
        lemma_split_pieces(rest, sep);
        let pieces = split_on(s, sep);
        assert(pieces == seq![s.take(i)] + split_on(rest, sep));
        assert(pieces.len() >= 2);
        lemma_join_front(pieces, sep);
        assert(pieces.drop_first() =~= split_on(rest, sep));
        assert(s =~= s.take(i) + seq![sep] + rest);
    } else {
        assert(split_on(s, sep) == seq![s]);
    }
}

/// Splits `s` at every `sep`.
pub fn split_chars(s: &[char], sep: char) -> (pieces: Vec<Vec<char>>)
    ensures
        pieces@.len() == split_on(s@, sep).len(),
        forall|k: int| 0 <= k < pieces@.len() ==> (#[trigger] pieces@[k])@ == split_on(s@, sep)[k],
{
    let mut pieces: Vec<Vec<char>> = Vec::new();
    let mut cur: Vec<char> = Vec::new();
    let mut i: usize = 0;
    let ghost done: Seq<Seq<char>> = Seq::empty();
    proof {
        assert(s@.skip(0) =~= s@);
        assert(cur@ + s@.skip(0) =~= s@);
    }
    while i < s.len()
        invariant
            i <= s@.len(),
            !cur@.contains(sep),
            pieces@.len() == done.len(),
            forall|k: int| 0 <= k < done.len() ==> (#[trigger] pieces@[k])@ == done[k],
            split_on(s@, sep) == done + split_on(cur@ + s@.skip(i as int), sep),
        decreases s@.len() - i,
    {
        let c = s[i];
        if c == sep {
            proof {
                let rest = s@.skip(i + 1);
                assert(s@.skip(i as int) =~= seq![sep] + rest);
                assert(cur@ + s@.skip(i as int) =~= cur@ + (seq![sep] + rest));
                lemma_first_index_of_concat(cur@, seq![sep] + rest, sep);
                let whole = cur@ + (seq![sep] + rest);
                assert(first_index_of(whole, sep) == cur@.len());
                assert(whole.take(cur@.len() as int) =~= cur@);
                assert(whole.skip(cur@.len() as int + 1) =~= rest);
                assert(Seq::<char>::empty() + rest =~= rest);
                done = done.push(cur@);
            }
            pieces.push(cur);
            cur = Vec::new();
        } else {
            proof {
                assert(cur@ + s@.skip(i as int) =~= cur@.push(c) + s@.skip(i + 1));
                assert(!cur@.push(c).contains(sep)) by {
                    if cur@.push(c).contains(sep) {
                        let k = choose|k: int| 0 <= k < cur@.push(c).len() && cur@.push(c)[k] == sep;
                        if k < cur@.len() {
                            assert(cur@[k] == sep);
                        }
                    }
                }
            }
            cur.push(c);
        }
        i += 1;
    }
    proof {
        assert(s@.skip(i as int) =~= Seq::<char>::empty());
        assert(cur@ + s@.skip(i as int) =~= cur@);
        lemma_first_index_of(cur@, sep);
        done = done.push(cur@);
    }
    pieces.push(cur);
    pieces
}

/// Joins the pieces with `sep` between each two.
pub fn join_chars(pieces: &Vec<Vec<char>>, sep: char) -> (s: Vec<char>)
    ensures
        s@ == join_with(pieces@.map_values(|p: Vec<char>| p@), sep),
{
    let ghost views = pieces@.map_values(|p: Vec<char>| p@);
    let mut out: Vec<char> = Vec::new();
    let mut k: usize = 0;
    while k < pieces.len()
        invariant
            k <= pieces@.len(),
            views == pieces@.map_values(|p: Vec<char>| p@),
            out@ == join_with(views.take(k as int), sep),
        decreases pieces@.len() - k,
    {
        if k > 0 {
            out.push(sep);
        }
        push_all(&mut out, pieces[k].as_slice());
        proof {
            let t = views.take(k + 1);
            assert(t.drop_last() =~= views.take(k as int));
            assert(t.last() == pieces@[k as int]@);
            if k == 0 {
                assert(t.len() == 1);
                assert(join_with(views.take(0), sep) =~= Seq::<char>::empty());
                assert(out@ =~= t[0]);
            }
        }
        k += 1;
    }
    proof {
        assert(views.take(pieces@.len() as int) =~= views);
    }
    out
}
} // verus!
