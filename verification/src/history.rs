//! The scan-start history: the last [`MAX_ENTRIES`] unique paths, most
//! recent first, kept as plain text with one path per line.

use vstd::prelude::*;
use crate::text::{
    chars_of, join_chars, join_with, lemma_split_join, lemma_trimmed_idempotent, split_chars,
    split_on, string_of, trim_chars, trimmed,
};

verus! {

/// How many unique paths the history keeps.
pub const MAX_ENTRIES: usize = 10;

#[derive(Debug, PartialEq)]
pub struct History {
    entries: Vec<String>,
}

impl View for History {
    type V = Seq<Seq<char>>;

    closed spec fn view(&self) -> Seq<Seq<char>> {
        self.entries@.map_values(|e: String| e@)
    }
}

/// `l` cut down to its first [`MAX_ENTRIES`] items.
pub open spec fn capped(l: Seq<Seq<char>>) -> Seq<Seq<char>> {
    if l.len() > MAX_ENTRIES {
        l.take(MAX_ENTRIES as int)
    } else {
        l
    }
}

/// `s` without any occurrence of `p`, the rest in order.
pub open spec fn without(s: Seq<Seq<char>>, p: Seq<char>) -> Seq<Seq<char>> {
    s.filter(|e: Seq<char>| e != p)
}

/// The entries after recording a scan of `path`: the trimmed path moves to
/// the front, its earlier occurrence goes, the list keeps at most
/// [`MAX_ENTRIES`] paths; a blank path changes nothing.
pub open spec fn pushed(entries: Seq<Seq<char>>, path: Seq<char>) -> Seq<Seq<char>> {
    let p = trimmed(path);
    if p.len() == 0 {
        entries
    } else {
        capped(seq![p] + without(entries, p))
    }
}

/// `lines` pushed onto `entries` from the last one to the first, so that the
/// first line ends up most recent.
pub open spec fn replayed(entries: Seq<Seq<char>>, lines: Seq<Seq<char>>) -> Seq<Seq<char>>
    decreases lines.len(),
{
    if lines.len() == 0 {
        entries
    } else {
        replayed(pushed(entries, lines.last()), lines.drop_last())
    }
}

/// The history a text holds: its lines replayed onto an empty history.
/// Splitting at `\n` alone is enough: a `\r` before it, and the empty piece
/// after a final `\n`, are white space that pushing trims away.
pub open spec fn history_from_text(text: Seq<char>) -> Seq<Seq<char>> {
    replayed(Seq::empty(), split_on(text, '\n'))
}

/// The text a history is kept as: its paths, one per line.
pub open spec fn history_text(entries: Seq<Seq<char>>) -> Seq<char> {
    join_with(entries, '\n')
}

/// What every history built by this module satisfies: at most
/// [`MAX_ENTRIES`] paths, no path twice, none blank or padded.
pub open spec fn well_formed_history(h: Seq<Seq<char>>) -> bool {
    &&& h.len() <= MAX_ENTRIES
    &&& h.no_duplicates()
    &&& forall|i: int| 0 <= i < h.len() ==> (#[trigger] h[i]).len() > 0 && trimmed(h[i]) == h[i]
}

proof fn lemma_filter_take_step(s: Seq<Seq<char>>, p: Seq<char>, k: int)
    requires
        0 <= k < s.len(),
    ensures
        without(s.take(k + 1), p) == if s[k] != p {
            without(s.take(k), p).push(s[k])
        } else {
            without(s.take(k), p)
        },
{
    reveal(Seq::filter);
    assert(s.take(k + 1).drop_last() =~= s.take(k));
}

proof fn lemma_filter_absent(s: Seq<Seq<char>>, p: Seq<char>)
    requires
        !s.contains(p),
    ensures
        without(s, p) == s,
    decreases s.len(),
{
    reveal(Seq::filter);
    if s.len() > 0 {
        assert(!s.drop_last().contains(p)) by {
            if s.drop_last().contains(p) {
                let k = choose|k: int| 0 <= k < s.drop_last().len() && s.drop_last()[k] == p;
                assert(s[k] == p);
            }
        }
        lemma_filter_absent(s.drop_last(), p);
        assert(s.drop_last().push(s.last()) =~= s);
    }
}

proof fn lemma_filter_keeps_items(s: Seq<Seq<char>>, p: Seq<char>)
    ensures
        forall|i: int|
            0 <= i < without(s, p).len() ==> s.contains(
                #[trigger] without(s, p)[i],
            ) && without(s, p)[i] != p,
        s.no_duplicates() ==> without(s, p).no_duplicates(),
    decreases s.len(),
{
    reveal(Seq::filter);
    let f = without(s, p);
    if s.len() > 0 {
        let r = s.drop_last();
        lemma_filter_keeps_items(r, p);
        let rf = without(r, p);
        assert forall|i: int| 0 <= i < f.len() implies s.contains(#[trigger] f[i]) && f[i] != p by {
            if i < rf.len() {
                assert(f[i] == rf[i]);
                let k = choose|k: int| 0 <= k < r.len() && r[k] == rf[i];
                assert(s[k] == f[i]);
            } else {
                assert(f[i] == s.last());
                assert(s[s.len() - 1] == f[i]);
            }
        }
        if s.no_duplicates() {
            assert(r.no_duplicates());
            if s.last() != p {
                assert forall|i: int, j: int| 0 <= i < j < f.len() implies f[i] != f[j] by {
                    if j == f.len() - 1 {
                        assert(f[i] == rf[i]);
                        let k = choose|k: int| 0 <= k < r.len() && r[k] == rf[i];
                        assert(s[k] == r[k]);
                    } else {
                        assert(f[i] == rf[i] && f[j] == rf[j]);
                    }
                }
            }
        }
    }
}

/// Recording a path keeps a well-formed history well-formed.
proof fn lemma_pushed_well_formed(h: Seq<Seq<char>>, path: Seq<char>)
    requires
        well_formed_history(h),
    ensures
        well_formed_history(pushed(h, path)),
{
    let p = trimmed(path);
    lemma_trimmed_idempotent(path);
    if p.len() > 0 {
        let f = without(h, p);
        lemma_filter_keeps_items(h, p);
        let l = seq![p] + f;
        assert forall|i: int| 0 <= i < l.len() implies (#[trigger] l[i]).len() > 0 && trimmed(l[i])
            == l[i] by {
            if i > 0 {
                assert(l[i] == f[i - 1]);
                let k = choose|k: int| 0 <= k < h.len() && h[k] == f[i - 1];
                assert(h[k].len() > 0 && trimmed(h[k]) == h[k]);
            }
        }
        assert forall|i: int, j: int| 0 <= i < j < l.len() implies l[i] != l[j] by {
            assert(l[j] == f[j - 1]);
            if i > 0 {
                assert(l[i] == f[i - 1]);
            }
        }
        let c = capped(l);
        assert forall|i: int| 0 <= i < c.len() implies (#[trigger] c[i]).len() > 0 && trimmed(c[i])
            == c[i] by {
            assert(c[i] == l[i]);
        }
        assert forall|i: int, j: int| 0 <= i < j < c.len() implies c[i] != c[j] by {
            assert(c[i] == l[i] && c[j] == l[j]);
        }
    }
}

proof fn lemma_replay_suffix(h: Seq<Seq<char>>, k: int)
    requires
        well_formed_history(h),
        0 <= k <= h.len(),
    ensures
        replayed(h.skip(k), h.take(k)) == h,
    decreases k,
{
    if k == 0 {
        assert(h.skip(0) =~= h);
    } else {
        let e = h[k - 1];
        let rest = h.skip(k);
        assert(h.take(k).last() == e);
        assert(h.take(k).drop_last() =~= h.take(k - 1));
        lemma_trimmed_idempotent(e);
        assert(!rest.contains(e)) by {
            if rest.contains(e) {
                let j = choose|j: int| 0 <= j < rest.len() && rest[j] == e;
                assert(h[k + j] == h[k - 1]);
            }
        }
        lemma_filter_absent(rest, e);
        assert(seq![e] + rest =~= h.skip(k - 1));
        assert(pushed(rest, e) == h.skip(k - 1));
        lemma_replay_suffix(h, k - 1);
    }
}

/// Saving a history and loading it back gives the same history, for every
/// well-formed history whose paths hold no line break.
pub proof fn law_history_text_roundtrip(h: Seq<Seq<char>>)
    requires
        well_formed_history(h),
        forall|i: int| 0 <= i < h.len() ==> !(#[trigger] h[i]).contains('\n'),
    ensures
        history_from_text(history_text(h)) == h,
{
    let t = history_text(h);
    if h.len() == 0 {
        assert(t =~= Seq::<char>::empty());
        crate::text::lemma_first_index_of(t, '\n');
        let lines = split_on(t, '\n');
        assert(lines =~= seq![t]);
        assert(trimmed(t) =~= Seq::<char>::empty());
        assert(pushed(Seq::empty(), t) == Seq::<Seq<char>>::empty());
        assert(lines.drop_last() =~= Seq::<Seq<char>>::empty());
        assert(replayed(Seq::empty(), lines) == replayed(
            pushed(Seq::empty(), t),
            lines.drop_last(),
        ));
    } else {
        lemma_split_join(h, '\n');
        lemma_replay_suffix(h, h.len() as int);
        assert(h.skip(h.len() as int) =~= Seq::<Seq<char>>::empty());
        assert(h.take(h.len() as int) =~= h);
        assert(split_on(t, '\n') == h);
    }
}

/// Recording paths keeps every history well-formed: no call of `push` can
/// make one hold a path twice, a blank path, or more than [`MAX_ENTRIES`].
pub proof fn law_push_keeps_history_well_formed(h: Seq<Seq<char>>, path: Seq<char>)
    requires
        well_formed_history(h),
    ensures
        well_formed_history(pushed(h, path)),
        pushed(h, path).len() <= MAX_ENTRIES,
{
    lemma_pushed_well_formed(h, path);
}

proof fn lemma_filter_len_le(s: Seq<Seq<char>>, p: Seq<char>)
    ensures
        without(s, p).len() <= s.len(),
{
    s.lemma_filter_len(|e: Seq<char>| e != p);
}

/// Whether `x` comes before `y` in `s`.
pub open spec fn comes_before(s: Seq<Seq<char>>, x: Seq<char>, y: Seq<char>) -> bool {
    exists|a: int, b: int| 0 <= a < b < s.len() && s[a] == x && s[b] == y
}

/// What dropping `p` from a list without repeats leaves: one item fewer
/// when `p` was there, every other item, and in the order they had.
proof fn lemma_without_facts(s: Seq<Seq<char>>, p: Seq<char>)
    requires
        s.no_duplicates(),
    ensures
        without(s, p).len() == s.len() - if s.contains(p) {
            1int
        } else {
            0int
        },
        forall|k: int| 0 <= k < s.len() && s[k] != p ==> without(s, p).contains(#[trigger] s[k]),
        forall|i: int, j: int|
            0 <= i < j < without(s, p).len() ==> comes_before(
                s,
                #[trigger] without(s, p)[i],
                #[trigger] without(s, p)[j],
            ),
    decreases s.len(),
{
    if s.len() > 0 {
        let n = s.len() - 1;
        let r = s.drop_last();
        let e = s.last();
        assert(r.no_duplicates());
        lemma_without_facts(r, p);
        lemma_filter_keeps_items(r, p);
        let f = without(s, p);
        let rf = without(r, p);
        lemma_filter_take_step(s, p, n);
        assert(s.take(n + 1) =~= s);
        assert(s.take(n) =~= r);
        assert(s.contains(p) == (r.contains(p) || e == p)) by {
            if s.contains(p) && e != p {
                let k = choose|k: int| 0 <= k < s.len() && s[k] == p;
                assert(r[k] == p);
            }
            if r.contains(p) {
                let k = choose|k: int| 0 <= k < r.len() && r[k] == p;
                assert(s[k] == p);
            }
        }
        if e == p {
            assert(!r.contains(p)) by {
                if r.contains(p) {
                    let k = choose|k: int| 0 <= k < r.len() && r[k] == p;
                    assert(s[k] == s[n]);
                }
            }
        }
        assert forall|k: int| 0 <= k < s.len() && s[k] != p implies f.contains(#[trigger] s[k]) by {
            if k < n {
                assert(s[k] == r[k]);
                let q = choose|q: int| 0 <= q < rf.len() && rf[q] == r[k];
                assert(f[q] == rf[q]);
            } else {
                assert(f[rf.len() as int] == e);
            }
        }
        assert forall|i: int, j: int| 0 <= i < j < f.len() implies comes_before(
            s,
            #[trigger] f[i],
            #[trigger] f[j],
        ) by {
            if j < rf.len() {
                assert(f[i] == rf[i] && f[j] == rf[j]);
                assert(comes_before(r, rf[i], rf[j]));
                let (a, b) = choose|a: int, b: int|
                    0 <= a < b < r.len() && r[a] == rf[i] && r[b] == rf[j];
                assert(s[a] == r[a] && s[b] == r[b]);
                assert(0 <= a < b < s.len() && s[a] == f[i] && s[b] == f[j]);
            } else {
                assert(f[i] == rf[i] && f[j] == e);
                let a = choose|a: int| 0 <= a < r.len() && r[a] == rf[i];
                assert(s[a] == r[a] && s[n] == e);
                assert(0 <= a < n < s.len() && s[a] == f[i] && s[n] == f[j]);
            }
        }
    } else {
        lemma_filter_len_le(s, p);
    }
}

/// Recording a scan of a path puts the trimmed path first and keeps the
/// other paths in the order they had, dropping one only when the list is
/// full: a path already in the history just moves to the front, so the
/// history keeps its length; a new path adds one entry up to
/// [`MAX_ENTRIES`].
pub proof fn law_push_moves_the_path_to_the_front(h: Seq<Seq<char>>, path: Seq<char>)
    requires
        well_formed_history(h),
        trimmed(path).len() > 0,
    ensures
        ({
            let p = trimmed(path);
            let r = pushed(h, path);
            &&& r.len() > 0 && r[0] == p
            &&& h.contains(p) ==> r.len() == h.len()
            &&& !h.contains(p) ==> r.len() == if h.len() < MAX_ENTRIES {
                h.len() + 1
            } else {
                MAX_ENTRIES as nat
            }
            &&& forall|i: int| 1 <= i < r.len() ==> #[trigger] r[i] != p && h.contains(r[i])
            &&& forall|i: int, j: int|
                1 <= i < j < r.len() ==> comes_before(h, #[trigger] r[i], #[trigger] r[j])
            &&& forall|k: int|
                0 <= k < h.len() && #[trigger] h[k] != p ==> r.contains(h[k]) || r.len()
                    == MAX_ENTRIES
        }),
{
    let p = trimmed(path);
    let r = pushed(h, path);
    let f = without(h, p);
    let l = seq![p] + f;
    lemma_without_facts(h, p);
    lemma_filter_keeps_items(h, p);
    assert(r == capped(l));
    assert(r.len() <= l.len());
    assert(r[0] == l[0]);
    if h.contains(p) {
        assert(l.len() == h.len());
    } else if h.len() < MAX_ENTRIES {
        assert(l.len() == h.len() + 1);
    } else {
        assert(r.len() == MAX_ENTRIES);
    }
    assert forall|i: int| 1 <= i < r.len() implies #[trigger] r[i] != p && h.contains(r[i]) by {
        assert(r[i] == l[i] && l[i] == f[i - 1]);
    }
    assert forall|i: int, j: int| 1 <= i < j < r.len() implies comes_before(
        h,
        #[trigger] r[i],
        #[trigger] r[j],
    ) by {
        assert(r[i] == f[i - 1] && r[j] == f[j - 1]);
        assert(comes_before(h, f[i - 1], f[j - 1]));
    }
    assert forall|k: int| 0 <= k < h.len() && #[trigger] h[k] != p implies r.contains(h[k])
        || r.len() == MAX_ENTRIES by {
        let q = choose|q: int| 0 <= q < f.len() && f[q] == h[k];
        if q + 1 < MAX_ENTRIES {
            assert(r[q + 1] == l[q + 1]);
        }
    }
}

/// A path as a scan takes it: trimmed, and without trailing separators
/// (the root `/` stays); a path holding a line break reads as blank.
pub open spec fn normalized_path(path: Seq<char>) -> Seq<char> {
    let t = trimmed(path);
    if t.contains('\n') || t.contains('\r') {
        Seq::empty()
    } else {
        without_trailing_separators(t)
    }
}

/// `t` without its trailing `/`, keeping a lone one.
pub open spec fn without_trailing_separators(t: Seq<char>) -> Seq<char>
    decreases t.len(),
{
    if t.len() > 1 && t.last() == '/' {
        without_trailing_separators(t.drop_last())
    } else {
        t
    }
}

/// A path as a scan takes it: trimmed, and without trailing separators
/// (the root `/` stays); a path holding a line break reads as blank, since
/// a mount point can carry one and must not start a scan.
pub fn normalize(path: &str) -> (r: String)
    ensures
        r@ == normalized_path(path@),
{
    let chars = chars_of(path);
    let t = trim_chars(chars.as_slice());
    if crate::text::contains_char(t.as_slice(), '\n') || crate::text::contains_char(
        t.as_slice(),
        '\r',
    ) {
        return String::new();
    }
    let mut end: usize = t.len();
    assert(t@.take(end as int) =~= t@);
    while end > 1 && t[end - 1] == '/'
        invariant
            end <= t@.len(),
            without_trailing_separators(t@) == without_trailing_separators(t@.take(end as int)),
        decreases end,
    {
        proof {
            let u = t@.take(end as int);
            assert(u.last() == t@[end - 1]);
            assert(u.drop_last() =~= t@.take(end - 1));
        }
        end -= 1;
    }
    proof {
        if end == t@.len() {
            assert(t@.take(end as int) =~= t@);
        }
        let u = t@.take(end as int);
        if end > 1 {
            assert(u.last() == t@[end - 1]);
        }
        assert(without_trailing_separators(u) == u);
        assert(u =~= t@.subrange(0, end as int));
    }
    string_of(crate::text::slice_chars(t.as_slice(), 0, end).as_slice())
}

impl Default for History {
    fn default() -> (h: Self)
        ensures
            h@ == Seq::<Seq<char>>::empty(),
            well_formed_history(h@),
    {
        let h = History { entries: Vec::new() };
        assert(h@ =~= Seq::<Seq<char>>::empty());
        h
    }
}

impl History {
    /// Records a scan start: the path is trimmed and moves to the front,
    /// duplicates are removed, the list is capped at [`MAX_ENTRIES`].
    /// Blank paths are ignored.
    pub fn push(&mut self, path: &str)
        ensures
            final(self)@ == pushed(old(self)@, path@),
            well_formed_history(old(self)@) ==> well_formed_history(final(self)@),
    {
        proof {
            if well_formed_history(self@) {
                lemma_pushed_well_formed(self@, path@);
            }
        }
        let chars = chars_of(path);
        let p = trim_chars(chars.as_slice());
        if p.len() == 0 {
            return;
        }
        let ghost pv = p@;
        let ghost old_view = self@;
        let key = string_of(p.as_slice());
        let mut out: Vec<String> = Vec::new();
        out.push(key.clone());
        let mut k: usize = 0;
        let n = self.entries.len();
        while k < n
            invariant
                n == self.entries@.len(),
                k <= n,
                key@ == pv,
                pv == trimmed(path@),
                old_view == self@,
                old_view == self.entries@.map_values(|e: String| e@),
                out@.map_values(|e: String| e@) == capped(
                    seq![pv] + without(old_view.take(k as int), pv),
                ),
                out@.len() <= MAX_ENTRIES,
                out@.len() >= 1,
            decreases n - k,
        {
            let ghost before = seq![pv] + without(old_view.take(k as int), pv);
            proof {
                lemma_filter_take_step(old_view, pv, k as int);
                assert(old_view[k as int] == self.entries@[k as int]@);
            }
            let same = self.entries[k] == key;
            if !same && out.len() < MAX_ENTRIES {
                proof {
                    assert(out@.map_values(|e: String| e@).len() == out@.len());
                    assert(before.len() < MAX_ENTRIES);
                }
                out.push(self.entries[k].clone());
                proof {
                    assert(out@.map_values(|e: String| e@) =~= before.push(old_view[k as int]));
                    assert(seq![pv] + without(old_view.take(k + 1), pv)
                        =~= before.push(old_view[k as int]));
                }
            } else if !same {
                proof {
                    let after = before.push(old_view[k as int]);
                    assert(seq![pv] + without(old_view.take(k + 1), pv)
                        =~= after);
                    assert(before.len() >= MAX_ENTRIES);
                    assert(capped(after) =~= capped(before));
                }
            }
            k += 1;
        }
        proof {
            assert(old_view.take(n as int) =~= old_view);
        }
        self.entries = out;
    }

    /// Drops `path` from the history, wherever it stands; the other paths
    /// keep their order.
    pub fn remove(&mut self, path: &str)
        ensures
            final(self)@ == without(old(self)@, path@),
            well_formed_history(old(self)@) ==> well_formed_history(final(self)@),
    {
        proof {
            if well_formed_history(self@) {
                lemma_filter_keeps_items(self@, path@);
                let f = without(self@, path@);
                assert forall|i: int| 0 <= i < f.len() implies (#[trigger] f[i]).len() > 0
                    && trimmed(f[i]) == f[i] by {
                    let k = choose|k: int| 0 <= k < self@.len() && self@[k] == f[i];
                    assert(self@[k].len() > 0 && trimmed(self@[k]) == self@[k]);
                }
                crate::history::lemma_filter_len_le(self@, path@);
            }
        }
        let key = string_of(chars_of(path).as_slice());
        let ghost old_view = self@;
        let mut out: Vec<String> = Vec::new();
        let mut k: usize = 0;
        let n = self.entries.len();
        while k < n
            invariant
                n == self.entries@.len(),
                k <= n,
                key@ == path@,
                old_view == self@,
                old_view == self.entries@.map_values(|e: String| e@),
                out@.map_values(|e: String| e@) == without(old_view.take(k as int), path@),
            decreases n - k,
        {
            proof {
                lemma_filter_take_step(old_view, path@, k as int);
                assert(old_view[k as int] == self.entries@[k as int]@);
            }
            let ghost before = out@;
            if self.entries[k] != key {
                out.push(self.entries[k].clone());
                proof {
                    assert(out@.map_values(|e: String| e@) =~= before.map_values(|e: String| e@).push(
                        old_view[k as int],
                    ));
                }
            }
            k += 1;
        }
        proof {
            assert(old_view.take(n as int) =~= old_view);
        }
        self.entries = out;
    }

    /// The most recent path, if any.
    pub fn latest(&self) -> (r: Option<&str>)
        ensures
            match r {
                Some(s) => self@.len() > 0 && s@ == self@[0],
                None => self@.len() == 0,
            },
    {
        if self.entries.len() > 0 {
            Some(self.entries[0].as_str())
        } else {
            None
        }
    }

    /// The paths, most recent first.
    pub fn entries(&self) -> (r: &[String])
        ensures
            r@.map_values(|e: String| e@) == self@,
    {
        self.entries.as_slice()
    }

    /// The history a saved text holds: its lines pushed from the last to the
    /// first, so that the first line is the most recent and hand-edited
    /// files are deduplicated, trimmed and capped again.
    pub fn from_text(text: &str) -> (h: History)
        ensures
            h@ == history_from_text(text@),
            well_formed_history(h@),
    {
        let chars = chars_of(text);
        let lines = split_chars(chars.as_slice(), '\n');
        let ghost all = split_on(text@, '\n');
        let mut h = History::default();
        let mut k = lines.len();
        proof {
            assert(lines@.map_values(|p: Vec<char>| p@) =~= all);
            assert(all.take(k as int) =~= all);
        }
        while k > 0
            invariant
                k <= lines@.len(),
                lines@.map_values(|p: Vec<char>| p@) == all,
                replayed(Seq::empty(), all) == replayed(h@, all.take(k as int)),
                well_formed_history(h@),
            decreases k,
        {
            let line = string_of(lines[k - 1].as_slice());
            proof {
                assert(all.take(k as int).last() == line@);
                assert(all.take(k as int).drop_last() =~= all.take(k - 1));
            }
            h.push(line.as_str());
            k -= 1;
        }
        h
    }

    /// The text the history is saved as: the paths joined by `\n`, most
    /// recent first.
    pub fn to_text(&self) -> (s: String)
        ensures
            s@ == history_text(self@),
    {
        let mut pieces: Vec<Vec<char>> = Vec::new();
        let mut k: usize = 0;
        while k < self.entries.len()
            invariant
                k <= self.entries@.len(),
                pieces@.map_values(|p: Vec<char>| p@) == self@.take(k as int),
                self@ == self.entries@.map_values(|e: String| e@),
            decreases self.entries@.len() - k,
        {
            let piece = chars_of(self.entries[k].as_str());
            let ghost before = pieces@;
            pieces.push(piece);
            proof {
                assert(self@[k as int] == self.entries@[k as int]@);
                assert(pieces@ == before.push(piece));
                assert(self@.take(k + 1) =~= self@.take(k as int).push(self@[k as int]));
                assert(pieces@.map_values(|p: Vec<char>| p@) =~= before.map_values(
                    |p: Vec<char>| p@,
                ).push(piece@));
                assert(pieces@.map_values(|p: Vec<char>| p@) =~= self@.take(k + 1));
            }
            k += 1;
        }
        proof {
            assert(self@.take(k as int) =~= self@);
        }
        let joined = join_chars(&pieces, '\n');
        string_of(joined.as_slice())
    }
}

} // verus!
