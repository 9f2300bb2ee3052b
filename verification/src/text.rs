//! Character-level text primitives shared by the whole library.
//!
//! Every routine here works on `char` sequences and is specified by a spec
//! function over `Seq<char>`: whitespace trimming, line and field splitting,
//! substring search, replacement, decimal rendering and UTF-8 byte lengths.
use vstd::prelude::*;

verus! {

// ── Whitespace ───────────────────────────────────────────────────────────────

/// The Unicode `White_Space` property, which is what `char::is_whitespace` tests.
pub open spec fn is_ws(c: char) -> bool {
    let u = c as u32;
    ||| 0x09 <= u <= 0x0D
    ||| u == 0x20
    ||| u == 0x85
    ||| u == 0xA0
    ||| u == 0x1680
    ||| 0x2000 <= u <= 0x200A
    ||| u == 0x2028
    ||| u == 0x2029
    ||| u == 0x202F
    ||| u == 0x205F
    ||| u == 0x3000
}

pub fn char_is_ws(c: char) -> (b: bool)
    ensures
        b == is_ws(c),
{
    let u = c as u32;
    (0x09 <= u && u <= 0x0D) || u == 0x20 || u == 0x85 || u == 0xA0 || u == 0x1680 || (0x2000
        <= u && u <= 0x200A) || u == 0x2028 || u == 0x2029 || u == 0x202F || u == 0x205F || u
        == 0x3000
}

/// `s` with leading whitespace removed.
pub open spec fn trim_start(s: Seq<char>) -> Seq<char>
    decreases s.len(),
{
    if s.len() > 0 && is_ws(s[0]) {
        trim_start(s.drop_first())
    } else {
        s
    }
}

/// `s` with trailing whitespace removed.
pub open spec fn trim_end(s: Seq<char>) -> Seq<char>
    decreases s.len(),
{
    if s.len() > 0 && is_ws(s.last()) {
        trim_end(s.drop_last())
    } else {
        s
    }
}

/// `s` with whitespace removed at both ends (what `str::trim` returns).
pub open spec fn trim(s: Seq<char>) -> Seq<char> {
    trim_end(trim_start(s))
}

proof fn lemma_trim_start_skip(s: Seq<char>, i: int)
    requires
        0 <= i < s.len(),
        is_ws(s[i]),
    ensures
        trim_start(s.skip(i)) == trim_start(s.skip(i + 1)),
{
    assert(s.skip(i).drop_first() =~= s.skip(i + 1));
}

proof fn lemma_trim_end_take(s: Seq<char>, j: int)
    requires
        0 < j <= s.len(),
        is_ws(s[j - 1]),
    ensures
        trim_end(s.take(j)) == trim_end(s.take(j - 1)),
{
    assert(s.take(j).drop_last() =~= s.take(j - 1));
}

/// Bounds `(start, end)` of the trimmed part of `s`.
pub fn trim_bounds(s: &[char]) -> (r: (usize, usize))
    ensures
        r.0 <= r.1 <= s@.len(),
        s@.subrange(r.0 as int, r.1 as int) == trim(s@),
{
    let mut i: usize = 0;
    proof {
        assert(s@.skip(0) =~= s@);
    }
    while i < s.len() && char_is_ws(s[i])
        invariant
            i <= s@.len(),
            trim_start(s@) == trim_start(s@.skip(i as int)),
        decreases s.len() - i,
    {
        proof {
            lemma_trim_start_skip(s@, i as int);
        }
        i = i + 1;
    }
    proof {
        if i < s@.len() {
            assert(s@.skip(i as int)[0] == s@[i as int]);
        }
        assert(trim_start(s@) == s@.skip(i as int));
    }
    let ghost t = s@.skip(i as int);
    let mut j: usize = s.len();
    proof {
        assert(t.take(j - i) =~= t);
    }
    while j > i && char_is_ws(s[j - 1])
        invariant
            i <= j <= s@.len(),
            t == s@.skip(i as int),
            trim_end(t) == trim_end(t.take(j - i)),
        decreases j,
    {
        proof {
            lemma_trim_end_take(t, (j - i) as int);
        }
        j = j - 1;
    }
    proof {
        if j > i {
            assert(t.take(j - i).last() == s@[j - 1]);
        }
        assert(t.take(j - i) =~= s@.subrange(i as int, j as int));
    }
    (i, j)
}

/// The trimmed part of `s`, copied.
pub fn trimmed(s: &[char]) -> (r: Vec<char>)
    ensures
        r@ == trim(s@),
{
    let (i, j) = trim_bounds(s);
    slice_to_vec(s, i, j)
}

// ── Conversions between `str`, `String` and `Vec<char>` ─────────────────────

pub fn chars_of(s: &str) -> (v: Vec<char>)
    ensures
        v@ == s@,
{
    let mut v: Vec<char> = Vec::new();
    for c in it: s.chars()
        invariant
            v@ == it.seq().take(it.index() as int),
    {
        v.push(c);
    }
    v
}

/// Collects characters into a `String` (`String::from_iter`).
#[verifier::external_body]
pub(crate) fn string_from_chars(v: &[char]) -> (s: String)
    ensures
        s@ == v@,
{
    String::from_iter(v.iter())
}

pub fn slice_to_vec(s: &[char], start: usize, end: usize) -> (v: Vec<char>)
    requires
        start <= end <= s@.len(),
    ensures
        v@ == s@.subrange(start as int, end as int),
{
    let mut v: Vec<char> = Vec::new();
    let mut k = start;
    while k < end
        invariant
            start <= k <= end <= s@.len(),
            v@ == s@.subrange(start as int, k as int),
        decreases end - k,
    {
        v.push(s[k]);
        k = k + 1;
        proof {
            assert(v@ =~= s@.subrange(start as int, k as int));
        }
    }
    v
}

pub fn copy_chars(s: &[char]) -> (v: Vec<char>)
    ensures
        v@ == s@,
{
    let v = slice_to_vec(s, 0, s.len());
    proof {
        assert(s@.subrange(0, s@.len() as int) =~= s@);
    }
    v
}

pub fn append_chars(dst: &mut Vec<char>, src: &[char])
    ensures
        final(dst)@ == old(dst)@ + src@,
{
    let ghost d0 = dst@;
    let mut k: usize = 0;
    while k < src.len()
        invariant
            k <= src@.len(),
            dst@ == d0 + src@.take(k as int),
        decreases src.len() - k,
    {
        dst.push(src[k]);
        k = k + 1;
        proof {
            assert(dst@ =~= d0 + src@.take(k as int));
        }
    }
    proof {
        assert(src@.take(k as int) =~= src@);
    }
}

pub fn append_str(dst: &mut Vec<char>, src: &str)
    ensures
        final(dst)@ == old(dst)@ + src@,
{
    let v = chars_of(src);
    append_chars(dst, &v);
}

// ── Substrings ───────────────────────────────────────────────────────────────

/// `p` occurs in `s` starting at index `i`.
pub open spec fn occurs_at(s: Seq<char>, p: Seq<char>, i: int) -> bool {
    0 <= i && i + p.len() <= s.len() && s.subrange(i, i + p.len()) == p
}

/// `p` is a substring of `s` (what `str::contains` tests for a string pattern).
pub open spec fn contains(s: Seq<char>, p: Seq<char>) -> bool {
    exists|i: int| occurs_at(s, p, i)
}

pub open spec fn starts_with(s: Seq<char>, p: Seq<char>) -> bool {
    p.len() <= s.len() && s.take(p.len() as int) == p
}

pub open spec fn ends_with(s: Seq<char>, p: Seq<char>) -> bool {
    p.len() <= s.len() && s.skip(s.len() - p.len()) == p
}

pub fn matches_at(s: &[char], p: &[char], i: usize) -> (b: bool)
    ensures
        b == occurs_at(s@, p@, i as int),
{
    if i > s.len() || p.len() > s.len() - i {
        return false;
    }
    let mut k: usize = 0;
    while k < p.len()
        invariant
            s@.len() <= usize::MAX,
            i + p@.len() <= s@.len(),
            k <= p@.len(),
            forall|m: int| 0 <= m < k ==> s@[i + m] == p@[m],
        decreases p.len() - k,
    {
        if s[i + k] != p[k] {
            proof {
                assert(s@.subrange(i as int, i + p@.len())[k as int] != p@[k as int]);
            }
            return false;
        }
        k = k + 1;
    }
    proof {
        assert(s@.subrange(i as int, i + p@.len()) =~= p@);
    }
    true
}

/// First index at or after `from` where `p` occurs in `s`, if any.
pub fn find_from(s: &[char], p: &[char], from: usize) -> (r: Option<usize>)
    ensures
        match r {
            Some(i) => from <= i && occurs_at(s@, p@, i as int) && forall|j: int|
                from <= j < i ==> !occurs_at(s@, p@, j),
            None => forall|j: int| from <= j ==> !occurs_at(s@, p@, j),
        },
{
    if from > s.len() {
        return None;
    }
    let mut i = from;
    while i < s.len()
        invariant
            from <= i <= s@.len(),
            forall|j: int| from <= j < i ==> !occurs_at(s@, p@, j),
        decreases s.len() - i,
    {
        if matches_at(s, p, i) {
            return Some(i);
        }
        i = i + 1;
    }
    if matches_at(s, p, i) {
        return Some(i);
    }
    None
}

pub fn contains_chars(s: &[char], p: &[char]) -> (b: bool)
    ensures
        b == contains(s@, p@),
{
    match find_from(s, p, 0) {
        Some(_) => true,
        None => false,
    }
}

pub fn contains_str(s: &[char], p: &str) -> (b: bool)
    ensures
        b == contains(s@, p@),
{
    let pv = chars_of(p);
    contains_chars(s, &pv)
}

pub fn starts_with_chars(s: &[char], p: &[char]) -> (b: bool)
    ensures
        b == starts_with(s@, p@),
{
    let b = matches_at(s, p, 0);
    proof {
        if p@.len() <= s@.len() {
            assert(s@.subrange(0, p@.len() as int) =~= s@.take(p@.len() as int));
        }
    }
    b
}

pub fn starts_with_str(s: &[char], p: &str) -> (b: bool)
    ensures
        b == starts_with(s@, p@),
{
    let pv = chars_of(p);
    starts_with_chars(s, &pv)
}

pub fn ends_with_chars(s: &[char], p: &[char]) -> (b: bool)
    ensures
        b == ends_with(s@, p@),
{
    if p.len() > s.len() {
        return false;
    }
    let b = matches_at(s, p, s.len() - p.len());
    proof {
        assert(s@.subrange(s@.len() - p@.len(), s@.len() as int) =~= s@.skip(
            s@.len() - p@.len(),
        ));
    }
    b
}

pub fn ends_with_str(s: &[char], p: &str) -> (b: bool)
    ensures
        b == ends_with(s@, p@),
{
    let pv = chars_of(p);
    ends_with_chars(s, &pv)
}

pub fn chars_eq(a: &[char], b: &[char]) -> (r: bool)
    ensures
        r == (a@ == b@),
{
    if a.len() != b.len() {
        return false;
    }
    let r = matches_at(a, b, 0);
    proof {
        assert(a@.subrange(0, b@.len() as int) =~= a@);
    }
    r
}

pub fn chars_eq_str(a: &[char], b: &str) -> (r: bool)
    ensures
        r == (a@ == b@),
{
    let bv = chars_of(b);
    chars_eq(a, &bv)
}


/// Number of non-overlapping occurrences of a non-empty `p` in `s`, scanning
/// from the left (what `str::matches(p).count()` returns).
pub open spec fn count_matches(s: Seq<char>, p: Seq<char>) -> nat
    decreases s.len(),
{
    if s.len() == 0 || p.len() == 0 {
        0
    } else if starts_with(s, p) {
        1 + count_matches(s.skip(p.len() as int), p)
    } else {
        count_matches(s.drop_first(), p)
    }
}

pub fn count_matches_chars(s: &[char], p: &[char]) -> (r: usize)
    requires
        p@.len() > 0,
    ensures
        r == count_matches(s@, p@),
{
    let mut count: usize = 0;
    let mut k: usize = 0;
    proof {
        assert(s@.skip(0) =~= s@);
    }
    while k < s.len()
        invariant
            k <= s@.len(),
            p@.len() > 0,
            count <= k,
            count + count_matches(s@.skip(k as int), p@) == count_matches(s@, p@),
        decreases s.len() - k,
    {
        proof {
            lemma_skip_first(s@, k as int);
        }
        let hit = matches_at(s, p, k);
        proof {
            let t = s@.skip(k as int);
            if p@.len() <= t.len() {
                assert(t.take(p@.len() as int) =~= s@.subrange(k as int, k + p@.len()));
            }
            assert(hit == starts_with(t, p@));
        }
        if hit {
            proof {
                assert(s@.skip(k as int).skip(p@.len() as int) =~= s@.skip(k + p@.len()));
            }
            count = count + 1;
            k = k + p.len();
        } else {
            k = k + 1;
        }
    }
    proof {
        assert(s@.skip(k as int) =~= seq![]);
    }
    count
}

// ── Lines, fields and words ──────────────────────────────────────────────────

pub open spec fn views(v: Seq<Vec<char>>) -> Seq<Seq<char>> {
    v.map_values(|x: Vec<char>| x@)
}

/// Drops one trailing carriage return.
pub open spec fn strip_cr(s: Seq<char>) -> Seq<char> {
    if s.len() > 0 && s.last() == '\r' {
        s.drop_last()
    } else {
        s
    }
}

/// Lines of `s`, given the partial line `cur` read so far.
pub open spec fn lines_acc(s: Seq<char>, cur: Seq<char>) -> Seq<Seq<char>>
    decreases s.len(),
{
    if s.len() == 0 {
        if cur.len() == 0 {
            seq![]
        } else {
            seq![cur]
        }
    } else if s[0] == '\n' {
        seq![strip_cr(cur)] + lines_acc(s.drop_first(), seq![])
    } else {
        lines_acc(s.drop_first(), cur.push(s[0]))
    }
}

/// The lines of `s` as `str::lines` yields them: split at `\n`, one trailing
/// `\r` removed from each terminated line, no empty line after a final `\n`.
pub open spec fn lines(s: Seq<char>) -> Seq<Seq<char>> {
    lines_acc(s, seq![])
}

/// Fields of `s` separated by `c`, given the partial field `cur`.
pub open spec fn split_acc(s: Seq<char>, c: char, cur: Seq<char>) -> Seq<Seq<char>>
    decreases s.len(),
{
    if s.len() == 0 {
        seq![cur]
    } else if s[0] == c {
        seq![cur] + split_acc(s.drop_first(), c, seq![])
    } else {
        split_acc(s.drop_first(), c, cur.push(s[0]))
    }
}

/// The fields of `s` separated by `c`, as `str::split(c)` yields them.
pub open spec fn split(s: Seq<char>, c: char) -> Seq<Seq<char>> {
    split_acc(s, c, seq![])
}

/// Whitespace-separated words of `s`, given the partial word `cur`.
pub open spec fn words_acc(s: Seq<char>, cur: Seq<char>) -> Seq<Seq<char>>
    decreases s.len(),
{
    if s.len() == 0 {
        if cur.len() == 0 {
            seq![]
        } else {
            seq![cur]
        }
    } else if is_ws(s[0]) {
        (if cur.len() == 0 {
            seq![]
        } else {
            seq![cur]
        }) + words_acc(s.drop_first(), seq![])
    } else {
        words_acc(s.drop_first(), cur.push(s[0]))
    }
}

/// The words of `s`, as `str::split_whitespace` yields them.
pub open spec fn words(s: Seq<char>) -> Seq<Seq<char>> {
    words_acc(s, seq![])
}

proof fn lemma_skip_first(s: Seq<char>, k: int)
    requires
        0 <= k < s.len(),
    ensures
        s.skip(k).len() > 0,
        s.skip(k)[0] == s[k],
        s.skip(k).drop_first() == s.skip(k + 1),
{
    assert(s.skip(k).drop_first() =~= s.skip(k + 1));
}

pub proof fn lemma_push_contains<A>(s: Seq<A>, x: A, y: A)
    ensures
        s.push(x).contains(y) <==> (s.contains(y) || y == x),
{
    if s.push(x).contains(y) && y != x {
        let i = choose|i: int| 0 <= i < s.push(x).len() && s.push(x)[i] == y;
        assert(s[i] == y);
    }
    if s.contains(y) {
        let i = choose|i: int| 0 <= i < s.len() && s[i] == y;
        assert(s.push(x)[i] == y);
    }
    if y == x {
        assert(s.push(x)[s.len() as int] == y);
    }
}

pub proof fn lemma_skip_first_of<A>(s: Seq<A>, k: int)
    requires
        0 <= k < s.len(),
    ensures
        s.skip(k).len() > 0,
        s.skip(k)[0] == s[k],
        s.skip(k).drop_first() == s.skip(k + 1),
{
    assert(s.skip(k).drop_first() =~= s.skip(k + 1));
}

proof fn lemma_lines_acc_nonempty(s: Seq<char>, cur: Seq<char>)
    requires
        s.len() > 0 || cur.len() > 0,
    ensures
        lines_acc(s, cur).len() > 0,
    decreases s.len(),
{
    if s.len() > 0 && s[0] != '\n' {
        lemma_lines_acc_nonempty(s.drop_first(), cur.push(s[0]));
    }
}

/// A non-empty text has at least one line.
pub proof fn lemma_lines_nonempty(s: Seq<char>)
    requires
        s.len() > 0,
    ensures
        lines(s).len() > 0,
{
    lemma_lines_acc_nonempty(s, seq![]);
}

pub fn lines_of(s: &[char]) -> (r: Vec<Vec<char>>)
    ensures
        views(r@) == lines(s@),
{
    let mut out: Vec<Vec<char>> = Vec::new();
    let mut cur: Vec<char> = Vec::new();
    let mut k: usize = 0;
    proof {
        assert(s@.skip(0) =~= s@);
        assert(views(out@) =~= seq![]);
    }
    while k < s.len()
        invariant
            k <= s@.len(),
            views(out@) + lines_acc(s@.skip(k as int), cur@) == lines(s@),
        decreases s.len() - k,
    {
        proof {
            lemma_skip_first(s@, k as int);
        }
        let c = s[k];
        if c == '\n' {
            let mut line = cur;
            if line.len() > 0 && line[line.len() - 1] == '\r' {
                line.pop();
            }
            proof {
                assert(line@ == strip_cr(cur@));
                assert(views(out@.push(line)) =~= views(out@) + seq![line@]);
            }
            out.push(line);
            cur = Vec::new();
        } else {
            cur.push(c);
        }
        k = k + 1;
    }
    proof {
        assert(s@.skip(k as int) =~= seq![]);
    }
    if cur.len() > 0 {
        proof {
            assert(views(out@.push(cur)) =~= views(out@) + seq![cur@]);
        }
        out.push(cur);
    }
    proof {
        assert(views(out@) =~= lines(s@));
    }
    out
}

pub fn split_on(s: &[char], sep: char) -> (r: Vec<Vec<char>>)
    ensures
        views(r@) == split(s@, sep),
        r@.len() >= 1,
{
    let mut out: Vec<Vec<char>> = Vec::new();
    let mut cur: Vec<char> = Vec::new();
    let mut k: usize = 0;
    proof {
        assert(s@.skip(0) =~= s@);
        assert(views(out@) =~= seq![]);
    }
    while k < s.len()
        invariant
            k <= s@.len(),
            views(out@) + split_acc(s@.skip(k as int), sep, cur@) == split(s@, sep),
        decreases s.len() - k,
    {
        proof {
            lemma_skip_first(s@, k as int);
        }
        let c = s[k];
        if c == sep {
            proof {
                assert(views(out@.push(cur)) =~= views(out@) + seq![cur@]);
            }
            out.push(cur);
            cur = Vec::new();
        } else {
            cur.push(c);
        }
        k = k + 1;
    }
    proof {
        assert(s@.skip(k as int) =~= seq![]);
        assert(views(out@.push(cur)) =~= views(out@) + seq![cur@]);
    }
    out.push(cur);
    proof {
        assert(views(out@) =~= split(s@, sep));
    }
    out
}

pub fn words_of(s: &[char]) -> (r: Vec<Vec<char>>)
    ensures
        views(r@) == words(s@),
{
    let mut out: Vec<Vec<char>> = Vec::new();
    let mut cur: Vec<char> = Vec::new();
    let mut k: usize = 0;
    proof {
        assert(s@.skip(0) =~= s@);
        assert(views(out@) =~= seq![]);
    }
    while k < s.len()
        invariant
            k <= s@.len(),
            views(out@) + words_acc(s@.skip(k as int), cur@) == words(s@),
        decreases s.len() - k,
    {
        proof {
            lemma_skip_first(s@, k as int);
        }
        let c = s[k];
        if char_is_ws(c) {
            let ghost rest = words_acc(s@.skip(k + 1), seq![]);
            if cur.len() > 0 {
                proof {
                    assert(views(out@.push(cur)) =~= views(out@) + seq![cur@]);
                    assert(views(out@) + seq![cur@] + rest =~= views(out@) + (seq![cur@] + rest));
                }
                out.push(cur);
                cur = Vec::new();
            } else {
                proof {
                    assert(cur@ =~= seq![]);
                    assert(Seq::<Seq<char>>::empty() + rest =~= rest);
                }
            }
        } else {
            cur.push(c);
        }
        k = k + 1;
    }
    proof {
        assert(s@.skip(k as int) =~= seq![]);
    }
    if cur.len() > 0 {
        proof {
            assert(views(out@.push(cur)) =~= views(out@) + seq![cur@]);
        }
        out.push(cur);
    }
    proof {
        assert(views(out@) =~= words(s@));
    }
    out
}

/// The extension of `path`: what follows its last `.` (the whole path when
/// it has none), as `rsplit('.').next()` gives it.
pub open spec fn extension(path: Seq<char>) -> Seq<char> {
    split(path, '.').last()
}

pub fn extension_of(path: &str) -> (r: Vec<char>)
    ensures
        r@ == extension(path@),
{
    let p = chars_of(path);
    let fields = split_on(&p, '.');
    let last = fields[fields.len() - 1].as_slice();
    proof {
        assert(last@ == views(fields@).last());
    }
    copy_chars(last)
}

// ── Joining and replacing ────────────────────────────────────────────────────

/// The pieces of `ps` joined with `sep` between them (`[..].join(sep)`).
pub open spec fn join(ps: Seq<Seq<char>>, sep: Seq<char>) -> Seq<char>
    decreases ps.len(),
{
    if ps.len() == 0 {
        seq![]
    } else if ps.len() == 1 {
        ps[0]
    } else {
        join(ps.drop_last(), sep) + sep + ps.last()
    }
}

pub fn join_chars(ps: &Vec<Vec<char>>, sep: &[char]) -> (r: Vec<char>)
    ensures
        r@ == join(views(ps@), sep@),
{
    let mut out: Vec<char> = Vec::new();
    let mut k: usize = 0;
    while k < ps.len()
        invariant
            k <= ps@.len(),
            out@ == join(views(ps@).take(k as int), sep@),
        decreases ps.len() - k,
    {
        proof {
            let t = views(ps@).take(k as int + 1);
            assert(t.drop_last() =~= views(ps@).take(k as int));
            assert(t.last() == ps@[k as int]@);
            if k == 0 {
                assert(t =~= seq![ps@[0]@]);
            }
        }
        if k > 0 {
            append_chars(&mut out, sep);
        }
        append_chars(&mut out, ps[k].as_slice());
        k = k + 1;
    }
    proof {
        assert(views(ps@).take(k as int) =~= views(ps@));
    }
    out
}

/// `s` with every leftmost non-overlapping occurrence of `from` replaced by
/// `to` (what `str::replace` returns for a non-empty pattern).
pub open spec fn replace_all(s: Seq<char>, from: Seq<char>, to: Seq<char>) -> Seq<char>
    decreases s.len(),
{
    if s.len() == 0 {
        seq![]
    } else if from.len() > 0 && starts_with(s, from) {
        to + replace_all(s.skip(from.len() as int), from, to)
    } else {
        seq![s[0]] + replace_all(s.drop_first(), from, to)
    }
}

pub fn replace_all_chars(s: &[char], from: &[char], to: &[char]) -> (r: Vec<char>)
    requires
        from@.len() > 0,
    ensures
        r@ == replace_all(s@, from@, to@),
{
    let mut out: Vec<char> = Vec::new();
    let mut k: usize = 0;
    proof {
        assert(s@.skip(0) =~= s@);
    }
    while k < s.len()
        invariant
            k <= s@.len(),
            from@.len() > 0,
            out@ + replace_all(s@.skip(k as int), from@, to@) == replace_all(s@, from@, to@),
        decreases s.len() - k,
    {
        proof {
            lemma_skip_first(s@, k as int);
        }
        let hit = matches_at(s, from, k);
        proof {
            let t = s@.skip(k as int);
            if from@.len() <= t.len() {
                assert(t.take(from@.len() as int) =~= s@.subrange(
                    k as int,
                    k + from@.len(),
                ));
            }
            assert(hit == starts_with(t, from@));
        }
        if hit {
            proof {
                assert(s@.skip(k as int).skip(from@.len() as int) =~= s@.skip(
                    k + from@.len(),
                ));
                assert(out@ + to@ + replace_all(s@.skip(k + from@.len()), from@, to@) =~= out@
                    + (to@ + replace_all(s@.skip(k + from@.len()), from@, to@)));
            }
            append_chars(&mut out, to);
            k = k + from.len();
        } else {
            proof {
                assert(out@.push(s@[k as int]) + replace_all(s@.skip(k + 1), from@, to@) =~= out@
                    + (seq![s@[k as int]] + replace_all(s@.skip(k + 1), from@, to@)));
            }
            out.push(s[k]);
            k = k + 1;
        }
    }
    proof {
        assert(s@.skip(k as int) =~= seq![]);
        assert(out@ + seq![] =~= out@);
    }
    out
}

// ── Decimal rendering ────────────────────────────────────────────────────────

pub open spec fn digit(d: nat) -> char {
    if d == 0 {
        '0'
    } else if d == 1 {
        '1'
    } else if d == 2 {
        '2'
    } else if d == 3 {
        '3'
    } else if d == 4 {
        '4'
    } else if d == 5 {
        '5'
    } else if d == 6 {
        '6'
    } else if d == 7 {
        '7'
    } else if d == 8 {
        '8'
    } else {
        '9'
    }
}

/// Decimal digits of `n`, most significant first, no leading zeros.
pub open spec fn decimal(n: nat) -> Seq<char>
    decreases n,
{
    if n < 10 {
        seq![digit(n)]
    } else {
        decimal(n / 10).push(digit(n % 10))
    }
}

/// Decimal rendering of a signed integer, with `-` before negatives.
pub open spec fn signed_decimal(n: int) -> Seq<char> {
    if n < 0 {
        seq!['-'] + decimal((-n) as nat)
    } else {
        decimal(n as nat)
    }
}

fn digit_char(d: u64) -> (c: char)
    requires
        d < 10,
    ensures
        c == digit(d as nat),
{
    if d == 0 {
        '0'
    } else if d == 1 {
        '1'
    } else if d == 2 {
        '2'
    } else if d == 3 {
        '3'
    } else if d == 4 {
        '4'
    } else if d == 5 {
        '5'
    } else if d == 6 {
        '6'
    } else if d == 7 {
        '7'
    } else if d == 8 {
        '8'
    } else {
        '9'
    }
}

pub fn decimal_u128(n: u128) -> (r: Vec<char>)
    ensures
        r@ == decimal(n as nat),
    decreases n,
{
    if n < 10 {
        let mut v = Vec::new();
        v.push(digit_char(n as u64));
        proof {
            assert(v@ =~= seq![digit(n as nat)]);
        }
        v
    } else {
        let mut v = decimal_u128(n / 10);
        v.push(digit_char((n % 10) as u64));
        v
    }
}

pub fn decimal_u64(n: u64) -> (r: Vec<char>)
    ensures
        r@ == decimal(n as nat),
{
    decimal_u128(n as u128)
}

pub fn decimal_usize(n: usize) -> (r: Vec<char>)
    ensures
        r@ == decimal(n as nat),
{
    decimal_u64(n as u64)
}

pub fn decimal_i64(n: i64) -> (r: Vec<char>)
    ensures
        r@ == signed_decimal(n as int),
{
    if n < 0 {
        let m: i128 = 0i128 - (n as i128);
        let mut v = Vec::new();
        v.push('-');
        let d = decimal_u64(m as u64);
        append_chars(&mut v, &d);
        proof {
            assert(v@ =~= seq!['-'] + decimal((-n) as nat));
        }
        v
    } else {
        decimal_u64(n as u64)
    }
}

// ── UTF-8 byte lengths ───────────────────────────────────────────────────────

/// Number of bytes in the UTF-8 encoding of `c`.
pub open spec fn char_width(c: char) -> nat {
    let u = c as u32;
    if u <= 0x7F {
        1
    } else if u <= 0x7FF {
        2
    } else if u <= 0xFFFF {
        3
    } else {
        4
    }
}

/// Number of bytes in the UTF-8 encoding of `s` (what `str::len` returns).
pub open spec fn utf8_len(s: Seq<char>) -> nat
    decreases s.len(),
{
    if s.len() == 0 {
        0
    } else {
        utf8_len(s.drop_last()) + char_width(s.last())
    }
}

pub proof fn lemma_utf8_len_add(a: Seq<char>, b: Seq<char>)
    ensures
        utf8_len(a + b) == utf8_len(a) + utf8_len(b),
    decreases b.len(),
{
    if b.len() == 0 {
        assert(a + b =~= a);
    } else {
        lemma_utf8_len_add(a, b.drop_last());
        assert((a + b).drop_last() =~= a + b.drop_last());
        assert((a + b).last() == b.last());
    }
}

pub proof fn lemma_utf8_len_bounds(s: Seq<char>)
    ensures
        s.len() <= utf8_len(s) <= 4 * s.len(),
    decreases s.len(),
{
    if s.len() > 0 {
        lemma_utf8_len_bounds(s.drop_last());
    }
}

pub proof fn lemma_utf8_len_take(s: Seq<char>, k: int)
    requires
        0 <= k <= s.len(),
    ensures
        utf8_len(s.take(k)) + utf8_len(s.skip(k)) == utf8_len(s),
{
    lemma_utf8_len_add(s.take(k), s.skip(k));
    assert(s.take(k) + s.skip(k) =~= s);
}

pub fn char_width_of(c: char) -> (w: usize)
    ensures
        w == char_width(c),
{
    let u = c as u32;
    if u <= 0x7F {
        1
    } else if u <= 0x7FF {
        2
    } else if u <= 0xFFFF {
        3
    } else {
        4
    }
}

/// UTF-8 byte length of `s`, or `None` when it does not fit in a `usize`.
pub fn byte_len(s: &[char]) -> (r: Option<usize>)
    ensures
        match r {
            Some(n) => n == utf8_len(s@),
            None => utf8_len(s@) > usize::MAX,
        },
{
    let mut total: usize = 0;
    let mut k: usize = 0;
    while k < s.len()
        invariant
            k <= s@.len(),
            total == utf8_len(s@.take(k as int)),
        decreases s.len() - k,
    {
        proof {
            assert(s@.take(k + 1).drop_last() =~= s@.take(k as int));
        }
        let w = char_width_of(s[k]);
        if total > usize::MAX - w {
            proof {
                lemma_utf8_len_take(s@, k + 1);
            }
            return None;
        }
        total = total + w;
        k = k + 1;
    }
    proof {
        assert(s@.take(k as int) =~= s@);
    }
    Some(total)
}

/// UTF-8 byte length of `s`, computed wide enough that it never overflows.
pub fn byte_len_wide(s: &[char]) -> (r: u128)
    ensures
        r == utf8_len(s@),
        r <= 4 * (usize::MAX as int),
{
    let mut total: u128 = 0;
    let mut k: usize = 0;
    let n = s.len();
    while k < n
        invariant
            k <= s@.len(),
            s@.len() <= usize::MAX,
            n == s@.len(),
            total == utf8_len(s@.take(k as int)),
        decreases n - k,
    {
        proof {
            assert(s@.take(k + 1).drop_last() =~= s@.take(k as int));
            lemma_utf8_len_bounds(s@.take(k as int));
        }
        let w = char_width_of(s[k]);
        total = total + w as u128;
        k = k + 1;
    }
    proof {
        assert(s@.take(k as int) =~= s@);
        lemma_utf8_len_bounds(s@);
    }
    total
}

/// UTF-8 byte length of `s`, capped at `cap + 1` (enough to compare with `cap`).
pub fn byte_len_capped(s: &[char], cap: usize) -> (r: usize)
    requires
        cap < usize::MAX,
    ensures
        r == if utf8_len(s@) <= cap {
            utf8_len(s@)
        } else {
            (cap + 1) as nat
        },
{
    let mut total: usize = 0;
    let mut k: usize = 0;
    while k < s.len()
        invariant
            k <= s@.len(),
            cap < usize::MAX,
            total == utf8_len(s@.take(k as int)),
            total <= cap,
        decreases s.len() - k,
    {
        proof {
            assert(s@.take(k + 1).drop_last() =~= s@.take(k as int));
        }
        let w = char_width_of(s[k]);
        if w > cap - total {
            proof {
                lemma_utf8_len_take(s@, k + 1);
            }
            return cap + 1;
        }
        total = total + w;
        k = k + 1;
    }
    proof {
        assert(s@.take(k as int) =~= s@);
    }
    total
}

// ── Integer parsing ──────────────────────────────────────────────────────────

pub open spec fn is_digit(c: char) -> bool {
    '0' <= c && c <= '9'
}

/// A non-empty run of ASCII digits.
pub open spec fn all_digits(s: Seq<char>) -> bool {
    s.len() > 0 && forall|i: int| 0 <= i < s.len() ==> is_digit(#[trigger] s[i])
}

/// The value of a run of ASCII digits.
pub open spec fn digits_value(s: Seq<char>) -> int
    decreases s.len(),
{
    if s.len() == 0 {
        0
    } else {
        digits_value(s.drop_last()) * 10 + (s.last() as int - '0' as int)
    }
}

/// What `str::parse::<i64>` gives: an optional `+` or `-`, then one or more
/// ASCII digits, whose value fits in an `i64`.
pub open spec fn parsed_i64(s: Seq<char>) -> Option<i64> {
    let signed = s.len() > 0 && (s[0] == '+' || s[0] == '-');
    let d = if signed {
        s.drop_first()
    } else {
        s
    };
    let v = if signed && s[0] == '-' {
        -digits_value(d)
    } else {
        digits_value(d)
    };
    if all_digits(d) && i64::MIN <= v <= i64::MAX {
        Some(v as i64)
    } else {
        None
    }
}

proof fn lemma_digits_value_nonneg(s: Seq<char>)
    requires
        forall|i: int| 0 <= i < s.len() ==> is_digit(#[trigger] s[i]),
    ensures
        digits_value(s) >= 0,
    decreases s.len(),
{
    if s.len() > 0 {
        lemma_digits_value_nonneg(s.drop_last());
    }
}

proof fn lemma_digits_value_grows(s: Seq<char>, k: int)
    requires
        0 <= k <= s.len(),
        forall|i: int| 0 <= i < s.len() ==> is_digit(#[trigger] s[i]),
    ensures
        digits_value(s) >= digits_value(s.take(k)),
    decreases s.len() - k,
{
    if k < s.len() {
        lemma_digits_value_grows(s, k + 1);
        assert(s.take(k + 1).drop_last() =~= s.take(k));
        lemma_digits_value_nonneg(s.take(k));
    } else {
        assert(s.take(k) =~= s);
    }
}

/// The decimal rendering of `n` reads back as `n`.
pub proof fn lemma_decimal_digits(n: nat)
    ensures
        all_digits(decimal(n)),
        digits_value(decimal(n)) == n,
        decimal(n)[0] != '+' && decimal(n)[0] != '-',
    decreases n,
{
    if n < 10 {
        assert(decimal(n) == seq![digit(n)]);
        assert(seq![digit(n)].drop_last() =~= Seq::<char>::empty());
        assert(digit(n) as int - '0' as int == n);
        assert(digits_value(decimal(n)) == digits_value(decimal(n).drop_last()) * 10 + (decimal(n).last() as int - '0' as int));
    } else {
        lemma_decimal_digits(n / 10);
        let d = decimal(n);
        assert(d.drop_last() == decimal(n / 10));
        assert(d.last() == digit(n % 10));
        assert(digit(n % 10) as int - '0' as int == n % 10);
        assert((n / 10) * 10 + n % 10 == n) by (nonlinear_arith);
        assert(digits_value(d) == digits_value(decimal(n / 10)) * 10 + (d.last() as int - '0' as int));
        assert forall|i: int| 0 <= i < d.len() implies is_digit(#[trigger] d[i]) by {
            if i < d.len() - 1 {
                assert(d[i] == decimal(n / 10)[i]);
            }
        }
        assert(d[0] == decimal(n / 10)[0]);
    }
}

/// Parse a decimal `i64` as `str::parse` does.
pub fn parse_i64(s: &[char]) -> (r: Option<i64>)
    ensures
        r == parsed_i64(s@),
{
    let n = s.len();
    let signed = n > 0 && (s[0] == '+' || s[0] == '-');
    let neg = signed && s[0] == '-';
    let start: usize = if signed {
        1
    } else {
        0
    };
    let ghost d = if signed {
        s@.drop_first()
    } else {
        s@
    };
    proof {
        assert(d =~= s@.skip(start as int));
    }
    if start >= n {
        proof {
            assert(!all_digits(d));
        }
        return None;
    }
    let limit: u128 = if neg {
        9223372036854775808
    } else {
        9223372036854775807
    };
    let mut val: u128 = 0;
    let mut k: usize = start;
    while k < n
        invariant
            start <= k <= n,
            n == s@.len(),
            signed == (n > 0 && (s@[0] == '+' || s@[0] == '-')),
            neg == (signed && s@[0] == '-'),
            start == if signed {
                1usize
            } else {
                0usize
            },
            d == if signed {
                s@.drop_first()
            } else {
                s@
            },
            d == s@.skip(start as int),
            limit == if neg {
                9223372036854775808u128
            } else {
                9223372036854775807u128
            },
            val <= limit,
            val == digits_value(d.take(k - start)),
            forall|i: int| 0 <= i < k - start ==> is_digit(#[trigger] d[i]),
        decreases n - k,
    {
        let c = s[k];
        proof {
            assert(d[k - start] == c);
            assert(d.take(k - start + 1).drop_last() =~= d.take(k - start));
        }
        if !('0' <= c && c <= '9') {
            proof {
                assert(!is_digit(d[k - start]));
            }
            return None;
        }
        let digit = (c as u32 - '0' as u32) as u128;
        if val > (limit - digit) / 10 {
            proof {
                assert(forall|i: int| 0 <= i < k - start + 1 ==> is_digit(#[trigger] d[i]));
                assert(digits_value(d.take(k - start + 1)) == val * 10 + digit);
                assert(val * 10 + digit > limit) by (nonlinear_arith)
                    requires
                        val > (limit - digit) / 10,
                        digit <= 9,
                        limit >= 9,
                ;
                if all_digits(d) {
                    lemma_digits_value_grows(d, k - start + 1);
                }
            }
            return None;
        }
        proof {
            assert(val * 10 + digit <= limit) by (nonlinear_arith)
                requires
                    val <= (limit - digit) / 10,
                    digit <= 9,
            ;
        }
        val = val * 10 + digit;
        k = k + 1;
    }
    proof {
        assert(d.take(k - start) =~= d);
        assert(all_digits(d));
    }
    if neg {
        if val == 9223372036854775808 {
            Some(i64::MIN)
        } else {
            Some(-(val as i64))
        }
    } else {
        Some(val as i64)
    }
}

// ── Bounded prefixes ─────────────────────────────────────────────────────────

/// Number of leading characters of `s` whose UTF-8 encoding fits in `max`
/// bytes: the longest such prefix.
pub open spec fn fit_len(s: Seq<char>, max: nat) -> nat
    decreases s.len(),
{
    if utf8_len(s) <= max {
        s.len()
    } else {
        fit_len(s.drop_last(), max)
    }
}

/// The longest prefix of `s` that is at most `max` bytes long in UTF-8: the
/// text cut at a character boundary.
pub open spec fn byte_prefix(s: Seq<char>, max: nat) -> Seq<char> {
    s.take(fit_len(s, max) as int)
}

proof fn lemma_utf8_len_mono(s: Seq<char>, j: int, k: int)
    requires
        0 <= j <= k <= s.len(),
    ensures
        utf8_len(s.take(j)) <= utf8_len(s.take(k)),
    decreases k - j,
{
    if j < k {
        lemma_utf8_len_mono(s, j, k - 1);
        assert(s.take(k).drop_last() =~= s.take(k - 1));
    }
}

/// When the first `k` characters fit and the first `k + 1` do not, the
/// longest fitting prefix has `k` characters.
proof fn lemma_fit_len_at(s: Seq<char>, max: nat, k: int)
    requires
        0 <= k < s.len(),
        utf8_len(s.take(k)) <= max,
        utf8_len(s.take(k + 1)) > max,
    ensures
        fit_len(s, max) == k,
    decreases s.len(),
{
    lemma_utf8_len_mono(s, k + 1, s.len() as int);
    assert(s.take(s.len() as int) =~= s);
    if s.len() == k + 1 {
        assert(s.drop_last() =~= s.take(k));
        assert(fit_len(s.drop_last(), max) == k);
    } else {
        let t = s.drop_last();
        assert(t.take(k) =~= s.take(k));
        assert(t.take(k + 1) =~= s.take(k + 1));
        lemma_fit_len_at(t, max, k);
    }
}

pub proof fn lemma_fit_len_bounds(s: Seq<char>, max: nat)
    ensures
        fit_len(s, max) <= s.len(),
        utf8_len(byte_prefix(s, max)) <= max,
    decreases s.len(),
{
    if utf8_len(s) <= max {
        assert(s.take(s.len() as int) =~= s);
    } else {
        lemma_fit_len_bounds(s.drop_last(), max);
        assert(s.take(fit_len(s, max) as int) =~= s.drop_last().take(fit_len(s, max) as int));
    }
}

/// `s` cut to at most `max_bytes` bytes of UTF-8, at a character boundary.
pub fn safe_truncate(s: &str, max_bytes: usize) -> (r: String)
    ensures
        r@ == byte_prefix(s@, max_bytes as nat),
{
    let c = chars_of(s);
    let mut total: usize = 0;
    let mut k: usize = 0;
    while k < c.len()
        invariant
            k <= c@.len(),
            c@ == s@,
            total == utf8_len(c@.take(k as int)),
            total <= max_bytes,
        decreases c.len() - k,
    {
        proof {
            assert(c@.take(k + 1).drop_last() =~= c@.take(k as int));
        }
        let w = char_width_of(c[k]);
        if w > max_bytes - total {
            proof {
                lemma_fit_len_at(c@, max_bytes as nat, k as int);
            }
            return string_from_chars(&slice_to_vec(&c, 0, k));
        }
        total = total + w;
        k = k + 1;
    }
    proof {
        assert(c@.take(k as int) =~= c@);
        assert(fit_len(c@, max_bytes as nat) == c@.len());
        assert(c@.take(c@.len() as int) =~= c@);
    }
    string_from_chars(&c)
}

/// `s` without leading and trailing `c`.
pub open spec fn trim_char(s: Seq<char>, c: char) -> Seq<char>
    decreases s.len(),
{
    if s.len() == 0 {
        s
    } else if s[0] == c {
        trim_char(s.drop_first(), c)
    } else if s.last() == c {
        trim_char(s.drop_last(), c)
    } else {
        s
    }
}

pub fn trim_char_of(s: &[char], c: char) -> (r: Vec<char>)
    ensures
        r@ == trim_char(s@, c),
{
    let mut i: usize = 0;
    let mut j: usize = s.len();
    proof {
        assert(s@.subrange(0, s@.len() as int) =~= s@);
    }
    while i < j
        invariant
            i <= j <= s@.len(),
            trim_char(s@, c) == trim_char(s@.subrange(i as int, j as int), c),
        decreases j - i,
    {
        let ghost cur = s@.subrange(i as int, j as int);
        if s[i] == c {
            proof {
                assert(cur.drop_first() =~= s@.subrange(i + 1, j as int));
            }
            i = i + 1;
        } else if s[j - 1] == c {
            proof {
                assert(cur.drop_last() =~= s@.subrange(i as int, j - 1));
            }
            j = j - 1;
        } else {
            return slice_to_vec(s, i, j);
        }
    }
    Vec::new()
}

// ── Case mapping ─────────────────────────────────────────────────────────────

/// What `str::to_lowercase` returns for `s` (Unicode lowercase mapping).
pub uninterp spec fn lowercase(s: Seq<char>) -> Seq<char>;

/// ASCII lowercase mapping of one character.
pub open spec fn ascii_lower(c: char) -> char {
    if 'A' <= c && c <= 'Z' {
        ((c as u32) + 32) as char
    } else {
        c
    }
}

pub open spec fn is_ascii_seq(s: Seq<char>) -> bool {
    forall|i: int| 0 <= i < s.len() ==> (s[i] as u32) < 128
}

/// Calls `str::to_lowercase`. Its result is the Unicode lowercase mapping of
/// `s`, named `lowercase`; on ASCII text that mapping turns `A`..`Z` into
/// `a`..`z` and keeps every other character.
#[verifier::external_body]
pub(crate) fn to_lowercase(s: &str) -> (r: String)
    ensures
        r@ == lowercase(s@),
        is_ascii_seq(s@) ==> r@ == s@.map_values(|c: char| ascii_lower(c)),
{
    s.to_lowercase()
}

pub fn lowercase_chars(s: &str) -> (r: Vec<char>)
    ensures
        r@ == lowercase(s@),
        is_ascii_seq(s@) ==> r@ == s@.map_values(|c: char| ascii_lower(c)),
{
    let l = to_lowercase(s);
    chars_of(l.as_str())
}

/// The Unicode `Uppercase` property, which is what `char::is_uppercase` tests.
pub uninterp spec fn is_uppercase(c: char) -> bool;

/// Calls `char::is_uppercase`. Its result is the Unicode `Uppercase`
/// property, named `is_uppercase`; among ASCII characters exactly `A`..`Z`
/// have it.
#[verifier::external_body]
pub(crate) fn char_is_uppercase(c: char) -> (b: bool)
    ensures
        b == is_uppercase(c),
        (c as u32) < 128 ==> (b <==> ('A' <= c && c <= 'Z')),
{
    c.is_uppercase()
}

} // verus!
