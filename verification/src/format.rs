//! Human-readable sizes and shortened paths.

use vstd::prelude::*;
use crate::text::{
    chars_of, decimal, digit, digit_char, join_chars, join_with, lemma_join_split,
    lemma_split_join, lemma_split_pieces, push_decimal, split_chars, split_on, string_of,
};

verus! {

pub open spec fn two_pow(e: nat) -> nat
    decreases e,
{
    if e == 0 {
        1
    } else {
        2 * two_pow((e - 1) as nat)
    }
}

/// The exponent of the power of two that `b` must be scaled down by to fit
/// the 53-bit significand of a double.
pub open spec fn double_exponent(b: nat, e: nat) -> nat
    decreases 64 - e,
{
    if e >= 64 || b / two_pow(e) < two_pow(53) {
        e
    } else {
        double_exponent(b, e + 1)
    }
}

/// `num / den` rounded to the nearest integer, ties to even.
pub open spec fn round_half_even(num: nat, den: nat) -> nat {
    let q = num / den;
    let r = num % den;
    if 2 * r > den || (2 * r == den && q % 2 == 1) {
        q + 1
    } else {
        q
    }
}

/// The double nearest to `b` (ties to even): the value `b as f64` holds.
/// Exactly `b` below 2^53.
pub open spec fn as_double(b: nat) -> nat {
    let scale = two_pow(double_exponent(b, 0));
    round_half_even(b, scale) * scale
}

/// Which binary unit a value of at least 1 KiB is shown in: 1 KB, 2 MB,
/// 3 GB, 4 TB; the largest whose value stays below 1024, or TB.
pub open spec fn unit_exponent(v: nat) -> nat {
    if v < two_pow(20) {
        1
    } else if v < two_pow(30) {
        2
    } else if v < two_pow(40) {
        3
    } else {
        4
    }
}

pub open spec fn unit_name(k: nat) -> Seq<char> {
    if k == 1 {
        seq!['K', 'B']
    } else if k == 2 {
        seq!['M', 'B']
    } else if k == 3 {
        seq!['G', 'B']
    } else {
        seq!['T', 'B']
    }
}

/// A size in binary units (divisor 1024) with one digit after the point,
/// rounded half to even like the standard float formatting; below 1024
/// bytes the plain number of bytes with a `B` suffix.
pub open spec fn human_size_text(bytes: nat) -> Seq<char> {
    if bytes < 1024 {
        decimal(bytes) + seq![' ', 'B']
    } else {
        let v = as_double(bytes);
        let k = unit_exponent(v);
        let tenths = round_half_even(10 * v, two_pow(10 * k));
        decimal(tenths / 10) + seq!['.', digit_char((tenths % 10) as int), ' '] + unit_name(k)
    }
}

proof fn lemma_two_pow_pos(e: nat)
    ensures
        two_pow(e) >= 1,
    decreases e,
{
    if e > 0 {
        lemma_two_pow_pos((e - 1) as nat);
    }
}

proof fn lemma_two_pow_values()
    ensures
        two_pow(10) == 1024,
        two_pow(20) == 1024 * 1024,
        two_pow(30) == 1024 * 1024 * 1024,
        two_pow(40) == 1024 * 1024 * 1024 * 1024,
        two_pow(53) == 0x20_0000_0000_0000,
        two_pow(64) == 0x1_0000_0000_0000_0000,
{
    reveal_with_fuel(two_pow, 65);
}

proof fn lemma_two_pow_mono(a: nat, b: nat)
    requires
        a <= b,
    ensures
        two_pow(a) <= two_pow(b),
    decreases b,
{
    if a < b {
        lemma_two_pow_mono(a, (b - 1) as nat);
        lemma_two_pow_pos((b - 1) as nat);
    }
}

/// `b` rounded to the nearest double, as an exact integer.
fn nearest_double(b: u64) -> (v: u128)
    ensures
        v == as_double(b as nat),
        v <= 0x2_0000_0000_0000_0000,
        b >= 1024 ==> v >= 1024,
{
    let big: u128 = b as u128;
    let mut e: u32 = 0;
    let mut scale: u128 = 1;
    proof {
        lemma_two_pow_values();
    }
    while e < 64 && big / scale >= 0x20_0000_0000_0000
        invariant
            e <= 64,
            scale == two_pow(e as nat),
            big == b,
            double_exponent(b as nat, 0) == double_exponent(b as nat, e as nat),
            two_pow(53) == 0x20_0000_0000_0000,
            two_pow(64) == 0x1_0000_0000_0000_0000,
            scale >= 1,
            e > 0 ==> scale == 2 * (scale / 2),
            e > 0 ==> big >= 0x20_0000_0000_0000 * (scale / 2),
        decreases 64 - e,
    {
        proof {
            lemma_two_pow_mono((e + 1) as nat, 64);
            assert(big >= 0x20_0000_0000_0000 * scale) by (nonlinear_arith)
                requires
                    big / scale >= 0x20_0000_0000_0000,
                    scale >= 1,
            ;
        }
        e += 1;
        scale = scale * 2;
    }
    proof {
        lemma_two_pow_pos(e as nat);
        lemma_two_pow_mono(e as nat, 64);
        assert(double_exponent(b as nat, e as nat) == e);
    }
    let q = big / scale;
    let r = big % scale;
    proof {
        assert(q * scale + r == big) by (nonlinear_arith)
            requires
                q == big / scale,
                r == big % scale,
                scale > 0,
        ;
        assert(q * scale <= big) by (nonlinear_arith)
            requires
                q * scale + r == big,
                r >= 0,
        ;
        assert((q + 1) * scale == q * scale + scale) by (nonlinear_arith);
    }
    let rounded = if 2 * r > scale || (2 * r == scale && q % 2 == 1) {
        q + 1
    } else {
        q
    };
    proof {
        assert(rounded * scale <= big + scale) by (nonlinear_arith)
            requires
                rounded <= q + 1,
                (q + 1) * scale == q * scale + scale,
                q * scale <= big,
                scale > 0,
        ;
        if b >= 1024 {
            if e == 0 {
                assert(rounded == q);
                assert(q == big);
            } else {
                assert(q >= 1024) by (nonlinear_arith)
                    requires
                        scale == 2 * (scale / 2),
                        big >= 0x20_0000_0000_0000 * (scale / 2),
                        q == big / scale,
                        scale >= 2,
                ;
                assert(rounded * scale >= 1024) by (nonlinear_arith)
                    requires
                        rounded >= q,
                        q >= 1024,
                        scale >= 1,
                ;
            }
        }
    }
    let v = rounded * scale;
    v
}

/// Size in binary units (divisor 1024), one digit after the point; below
/// 1024 bytes the whole number with the suffix `B`.
#[verifier::rlimit(40)]
pub fn human_size(bytes: u64) -> (s: String)
    ensures
        s@ == human_size_text(bytes as nat),
{
    let mut out: Vec<char> = Vec::new();
    if bytes < 1024 {
        push_decimal(&mut out, bytes);
        out.push(' ');
        out.push('B');
        return string_of(out.as_slice());
    }
    let v = nearest_double(bytes);
    proof {
        lemma_two_pow_values();
    }
    let (k, scale): (u64, u128) = if v < 1024 * 1024 {
        (1, 1024)
    } else if v < 1024 * 1024 * 1024 {
        (2, 1024 * 1024)
    } else if v < 1024 * 1024 * 1024 * 1024 {
        (3, 1024 * 1024 * 1024)
    } else {
        (4, 1024 * 1024 * 1024 * 1024)
    };
    proof {
        reveal_with_fuel(two_pow, 41);
        assert(scale == two_pow((10 * k) as nat));
    }
    let num = 10 * v;
    let q = num / scale;
    let r = num % scale;
    let tenths = if 2 * r > scale || (2 * r == scale && q % 2 == 1) {
        q + 1
    } else {
        q
    };
    proof {
        assert(q <= num) by (nonlinear_arith)
            requires
                q == num / scale,
                scale >= 1,
        ;
        assert(q <= num / 1024) by (nonlinear_arith)
            requires
                q == num / scale,
                scale >= 1024,
        ;
    }
    let whole: u64 = (tenths / 10) as u64;
    let frac: u64 = (tenths % 10) as u64;
    push_decimal(&mut out, whole);
    out.push('.');
    out.push(digit(frac));
    out.push(' ');
    if k == 1 {
        out.push('K');
    } else if k == 2 {
        out.push('M');
    } else if k == 3 {
        out.push('G');
    } else {
        out.push('T');
    }
    out.push('B');
    proof {
        let t = round_half_even(10 * as_double(bytes as nat), two_pow(10 * unit_exponent(
            as_double(bytes as nat),
        )));
        assert(tenths == t);
        assert(out@ =~= human_size_text(bytes as nat));
    }
    string_of(out.as_slice())
}


/// Character count of the pieces joined with one-character separators.
pub open spec fn joined_len(segs: Seq<Seq<char>>) -> nat
    decreases segs.len(),
{
    if segs.len() == 0 {
        0
    } else if segs.len() == 1 {
        segs[0].len()
    } else {
        joined_len(segs.drop_last()) + 1 + segs.last().len()
    }
}

pub open spec fn dots() -> Seq<char> {
    seq!['.', '.']
}

/// Walks the segments left to right, leaving the last one alone, and
/// replaces every segment that is neither empty nor already `..` by `..`
/// for as long as the joined path is longer than `max` characters.
pub open spec fn shorten_from(segs: Seq<Seq<char>>, max: nat, i: int) -> Seq<Seq<char>>
    decreases segs.len() - i,
{
    if joined_len(segs) <= max || i < 0 || i + 1 >= segs.len() {
        segs
    } else if segs[i].len() > 0 && segs[i] != dots() {
        shorten_from(segs.update(i, dots()), max, i + 1)
    } else {
        shorten_from(segs, max, i + 1)
    }
}

/// The path with middle segments hidden as `..` until it fits `max` characters.
pub open spec fn shortened_path(path: Seq<char>, max: nat) -> Seq<char> {
    join_with(shorten_from(split_on(path, '/'), max, 0), '/')
}

proof fn lemma_joined_len_update(segs: Seq<Seq<char>>, i: int, x: Seq<char>)
    requires
        0 <= i < segs.len(),
    ensures
        joined_len(segs.update(i, x)) + segs[i].len() == joined_len(segs) + x.len(),
    decreases segs.len(),
{
    let u = segs.update(i, x);
    if segs.len() == 1 {
    } else if i == segs.len() - 1 {
        assert(u.drop_last() =~= segs.drop_last());
    } else {
        assert(u.drop_last() =~= segs.drop_last().update(i, x));
        lemma_joined_len_update(segs.drop_last(), i, x);
    }
}

proof fn lemma_joined_len_cons(a: Seq<char>, rest: Seq<Seq<char>>)
    requires
        rest.len() >= 1,
    ensures
        joined_len(seq![a] + rest) == a.len() + 1 + joined_len(rest),
    decreases rest.len(),
{
    let whole = seq![a] + rest;
    assert(whole.len() == rest.len() + 1);
    assert(whole.last() == rest.last());
    if rest.len() == 1 {
        assert(whole.drop_last() =~= seq![a]);
        assert(joined_len(seq![a]) == a.len());
        assert(joined_len(rest) == rest[0].len());
    } else {
        assert(whole.drop_last() =~= seq![a] + rest.drop_last());
        lemma_joined_len_cons(a, rest.drop_last());
        assert(joined_len(rest) == joined_len(rest.drop_last()) + 1 + rest.last().len());
    }
    assert(joined_len(whole) == joined_len(whole.drop_last()) + 1 + whole.last().len());
}

/// Splitting at `/` and measuring the joined pieces gives the character count
/// of the path itself.
proof fn lemma_joined_len_split(s: Seq<char>)
    ensures
        joined_len(split_on(s, '/')) == s.len(),
        split_on(s, '/').len() >= 1,
    decreases s.len(),
{
    crate::text::lemma_first_index_of(s, '/');
    let i = crate::text::first_index_of(s, '/');
    if i < s.len() {
        let rest = s.skip(i + 1);
        lemma_joined_len_split(rest);
        lemma_joined_len_cons(s.take(i), split_on(rest, '/'));
        assert(s =~= s.take(i) + (seq!['/'] + rest));
    }
}

/// Shortens a path to `max_chars` characters by replacing middle segments with
/// `..`, one after another from the left. The last segment is never
/// replaced, so a path may stay longer than the limit.
pub fn shorten_path(path: &str, max_chars: usize) -> (r: String)
    ensures
        r@ == shortened_path(path@, max_chars as nat),
{
    let chars = chars_of(path);
    let mut segs = split_chars(chars.as_slice(), '/');
    let ghost orig = split_on(path@, '/');
    proof {
        assert(segs@.map_values(|p: Vec<char>| p@) =~= orig);
        lemma_joined_len_split(path@);
    }
    let mut total: u128 = chars.len() as u128;
    let clen = chars.len();
    let n = segs.len();
    let max = max_chars as u128;
    let mut i: usize = 0;
    let ghost mut cur = orig;
    while i + 1 < n && total > max
        invariant
            n == segs@.len(),
            n >= 1,
            i < n,
            segs@.map_values(|p: Vec<char>| p@) == cur,
            cur.len() == orig.len(),
            total == joined_len(cur),
            total <= chars@.len() + i,
            clen == chars@.len(),
            shorten_from(orig, max_chars as nat, 0) == shorten_from(cur, max_chars as nat, i as int),
            max == max_chars,
        decreases n - i,
    {
        let seg_len = segs[i].len();
        let hideable = seg_len > 0 && !(seg_len == 2 && segs[i][0] == '.' && segs[i][1] == '.');
        proof {
            assert(cur[i as int] == segs@[i as int]@);
            if seg_len == 2 {
                if cur[i as int] == dots() {
                    assert(segs@[i as int]@[0] == '.');
                } else {
                    assert(!(segs@[i as int]@ =~= dots()));
                }
            }
        }
        if hideable {
            let b = seg_len as u128;
            proof {
                lemma_joined_len_update(cur, i as int, dots());
                cur = cur.update(i as int, dots());
            }
            total = total + 2 - b;
            segs.set(i, vec!['.', '.']);
            proof {
                assert(segs@.map_values(|p: Vec<char>| p@) =~= cur);
            }
        }
        i += 1;
    }
    let joined = join_chars(&segs, '/');
    string_of(joined.as_slice())
}


proof fn lemma_shorten_from_keeps(segs: Seq<Seq<char>>, max: nat, i: int)
    requires
        segs.len() >= 1,
        forall|k: int| 0 <= k < segs.len() ==> !(#[trigger] segs[k]).contains('/'),
    ensures
        shorten_from(segs, max, i).len() == segs.len(),
        shorten_from(segs, max, i).last() == segs.last(),
        forall|k: int|
            0 <= k < segs.len() ==> !(#[trigger] shorten_from(segs, max, i)[k]).contains('/'),
    decreases segs.len() - i,
{
    if joined_len(segs) <= max || i < 0 || i + 1 >= segs.len() {
    } else if segs[i].len() > 0 && segs[i] != dots() {
        let next = segs.update(i, dots());
        assert forall|k: int| 0 <= k < next.len() implies !(#[trigger] next[k]).contains('/') by {
            if k == i {
                assert(next[k] == dots());
                assert(!dots().contains('/')) by {
                    if dots().contains('/') {
                        let q = choose|q: int| 0 <= q < 2 && dots()[q] == '/';
                    }
                }
            } else {
                assert(next[k] == segs[k]);
            }
        }
        lemma_shorten_from_keeps(next, max, i + 1);
    } else {
        lemma_shorten_from_keeps(segs, max, i + 1);
    }
}

/// The last segment of a path is never replaced: shortening keeps the
/// number of segments and the last one as it was.
pub proof fn law_shorten_keeps_last_segment(path: Seq<char>, max: nat)
    ensures
        split_on(shortened_path(path, max), '/').len() == split_on(path, '/').len(),
        split_on(shortened_path(path, max), '/').last() == split_on(path, '/').last(),
{
    let segs = split_on(path, '/');
    lemma_split_pieces(path, '/');
    lemma_shorten_from_keeps(segs, max, 0);
    lemma_split_join(shorten_from(segs, max, 0), '/');
}

/// A path that fits the limit is left as it is.
pub proof fn law_fitting_path_is_unchanged(path: Seq<char>, max: nat)
    requires
        path.len() <= max,
    ensures
        shortened_path(path, max) == path,
{
    lemma_joined_len_split(path);
    lemma_join_split(path, '/');
}

proof fn lemma_shorten_from_prefix(segs: Seq<Seq<char>>, max: nat, i: int, k: int)
    requires
        0 <= k < i,
        k < segs.len(),
    ensures
        shorten_from(segs, max, i).len() == segs.len(),
        shorten_from(segs, max, i)[k] == segs[k],
    decreases segs.len() - i,
{
    if joined_len(segs) <= max || i < 0 || i + 1 >= segs.len() {
    } else if segs[i].len() > 0 && segs[i] != dots() {
        lemma_shorten_from_prefix(segs.update(i, dots()), max, i + 1, k);
    } else {
        lemma_shorten_from_prefix(segs, max, i + 1, k);
    }
}

proof fn lemma_shorten_from_stops(segs: Seq<Seq<char>>, max: nat, i: int)
    requires
        0 <= i,
    ensures
        joined_len(shorten_from(segs, max, i)) <= max || forall|k: int|
            i <= k < segs.len() - 1 ==> (#[trigger] shorten_from(segs, max, i)[k]).len() == 0
                || shorten_from(segs, max, i)[k] == dots(),
    decreases segs.len() - i,
{
    if joined_len(segs) <= max || i + 1 >= segs.len() {
    } else if segs[i].len() > 0 && segs[i] != dots() {
        let next = segs.update(i, dots());
        lemma_shorten_from_stops(next, max, i + 1);
        lemma_shorten_from_prefix(next, max, i + 1, i);
    } else {
        lemma_shorten_from_stops(segs, max, i + 1);
        lemma_shorten_from_prefix(segs, max, i + 1, i);
    }
}

/// Shortening stops only when it is done: the result fits the limit, or
/// every segment before the last is already empty or `..`.
pub proof fn law_shortened_path_fits_unless_fully_hidden(path: Seq<char>, max: nat)
    ensures
        shortened_path(path, max).len() <= max || forall|k: int|
            0 <= k < split_on(shortened_path(path, max), '/').len() - 1 ==> {
                let seg = #[trigger] split_on(shortened_path(path, max), '/')[k];
                seg.len() == 0 || seg == dots()
            },
{
    let segs = split_on(path, '/');
    let short = shorten_from(segs, max, 0);
    lemma_split_pieces(path, '/');
    lemma_shorten_from_keeps(segs, max, 0);
    lemma_split_join(short, '/');
    lemma_joined_len_split(join_with(short, '/'));
    lemma_shorten_from_stops(segs, max, 0);
}

proof fn lemma_shorten_from_minimal(segs: Seq<Seq<char>>, max: nat, i: int)
    requires
        0 <= i,
    ensures
        shorten_from(segs, max, i).len() == segs.len(),
        forall|k: int|
            i <= k < segs.len() && #[trigger] shorten_from(segs, max, i)[k] != segs[k] ==> {
                &&& shorten_from(segs, max, i)[k] == dots()
                &&& joined_len(shorten_from(segs, max, i).take(k) + segs.skip(k)) > max
            },
    decreases segs.len() - i,
{
    let r = shorten_from(segs, max, i);
    if joined_len(segs) <= max || i + 1 >= segs.len() {
    } else if segs[i].len() > 0 && segs[i] != dots() {
        let next = segs.update(i, dots());
        lemma_shorten_from_minimal(next, max, i + 1);
        assert forall|q: int| 0 <= q <= i implies r[q] == next[q] by {
            lemma_shorten_from_prefix(next, max, i + 1, q);
        }
        assert forall|k: int| i <= k < segs.len() && #[trigger] r[k] != segs[k] implies {
            &&& r[k] == dots()
            &&& joined_len(r.take(k) + segs.skip(k)) > max
        } by {
            if k == i {
                assert(r.take(i) + segs.skip(i) =~= segs);
            } else {
                assert(next[k] == segs[k]);
                assert(next.skip(k) =~= segs.skip(k));
            }
        }
    } else {
        lemma_shorten_from_minimal(segs, max, i + 1);
        lemma_shorten_from_prefix(segs, max, i + 1, i);
    }
}

/// Shortening hides a segment only while the path is still too long: each
/// segment it hid became `..`, and showing it again, with the segments
/// after it as they were, would make the path longer than `max`.
pub proof fn law_shortening_hides_only_while_too_long(path: Seq<char>, max: nat)
    ensures
        forall|k: int|
            0 <= k < split_on(path, '/').len() && #[trigger] split_on(shortened_path(path, max), '/')[k]
                != split_on(path, '/')[k] ==> {
                &&& split_on(shortened_path(path, max), '/')[k] == seq!['.', '.']
                &&& join_with(
                    split_on(shortened_path(path, max), '/').take(k) + split_on(path, '/').skip(k),
                    '/',
                ).len() > max
            },
{
    let segs = split_on(path, '/');
    let short = shorten_from(segs, max, 0);
    lemma_split_pieces(path, '/');
    lemma_shorten_from_keeps(segs, max, 0);
    lemma_split_join(short, '/');
    lemma_shorten_from_minimal(segs, max, 0);
    assert(split_on(shortened_path(path, max), '/') == short);
    assert forall|k: int| 0 <= k < segs.len() && #[trigger] short[k] != segs[k] implies {
        &&& short[k] == seq!['.', '.']
        &&& join_with(short.take(k) + segs.skip(k), '/').len() > max
    } by {
        let x = short.take(k) + segs.skip(k);
        assert forall|q: int| 0 <= q < x.len() implies !(#[trigger] x[q]).contains('/') by {
            if q < k {
                assert(x[q] == short[q]);
            } else {
                assert(x[q] == segs[q]);
            }
        }
        lemma_split_join(x, '/');
        lemma_joined_len_split(join_with(x, '/'));
    }
}

} // verus!
