use vstd::prelude::*;

verus! {

/// The characters of `s`, in order.
pub fn chars_of(s: &str) -> (v: Vec<char>)
    ensures
        v@ == s@,
{
    let mut v: Vec<char> = Vec::new();
    for c in it: s.chars()
        invariant
            v@ == it.seq().take(it.index() as int),
            it.seq() == s@,
    {
        v.push(c);
        assert(it.seq().take(it.index() + 1) =~= v@);
    }
    v
}

/// Collects characters into a `String` (std's `FromIterator<&char>` for
/// `String`). Trusted: the result holds exactly `cs`, in order.
#[verifier::external_body]
pub(crate) fn string_of(cs: &[char]) -> (s: String)
    ensures
        s@ == cs@,
{
    String::from_iter(cs.iter())
}

/// `s` cut at every `sep`: one piece more than there are separators, with
/// empty pieces where separators repeat or stand at either end.
pub open spec fn split_on(s: Seq<char>, sep: char) -> Seq<Seq<char>>
    decreases s.len(),
{
    if s.len() == 0 {
        seq![seq![]]
    } else {
        let p = split_on(s.drop_last(), sep);
        if s.last() == sep {
            p.push(seq![])
        } else {
            p.update(p.len() - 1, p.last().push(s.last()))
        }
    }
}

/// The text of each character vector.
pub open spec fn texts(v: Seq<Vec<char>>) -> Seq<Seq<char>> {
    v.map_values(|x: Vec<char>| x@)
}

pub proof fn lemma_split_nonempty(s: Seq<char>, sep: char)
    ensures
        split_on(s, sep).len() >= 1,
    decreases s.len(),
{
    if s.len() > 0 {
        lemma_split_nonempty(s.drop_last(), sep);
    }
}

/// The pieces of `s` between its `sep` characters.
pub fn split_pieces(s: &Vec<char>, sep: char) -> (r: Vec<Vec<char>>)
    ensures
        texts(r@) == split_on(s@, sep),
{
    let mut done: Vec<Vec<char>> = Vec::new();
    let mut cur: Vec<char> = Vec::new();
    let mut i: usize = 0;
    assert(s@.take(0) =~= Seq::<char>::empty());
    assert(texts(done@).push(cur@) =~= split_on(s@.take(0), sep));
    while i < s.len()
        invariant
            i <= s.len(),
            texts(done@).push(cur@) == split_on(s@.take(i as int), sep),
        decreases s.len() - i,
    {
        let c = s[i];
        let ghost before = s@.take(i as int);
        assert(s@.take(i + 1).drop_last() =~= before);
        assert(s@.take(i + 1).last() == c);
        proof {
            lemma_split_nonempty(before, sep);
        }
        if c == sep {
            let ghost prev = texts(done@);
            let finished = cur;
            done.push(finished);
            cur = Vec::new();
            assert(texts(done@) =~= prev.push(finished@));
            assert(texts(done@).push(cur@) =~= split_on(s@.take(i + 1), sep));
        } else {
            cur.push(c);
            assert(texts(done@).push(cur@) =~= split_on(s@.take(i + 1), sep));
        }
        i = i + 1;
    }
    assert(s@.take(i as int) =~= s@);
    let ghost prev = texts(done@);
    let last = cur;
    done.push(last);
    assert(texts(done@) =~= prev.push(last@));
    done
}

/// Whether `c` is white space, as `char::is_whitespace` decides it: the
/// characters with Unicode's White_Space property.
pub open spec fn is_space(c: char) -> bool {
    ||| '\u{9}' <= c <= '\u{D}'
    ||| c == ' '
    ||| c == '\u{85}'
    ||| c == '\u{A0}'
    ||| c == '\u{1680}'
    ||| '\u{2000}' <= c <= '\u{200A}'
    ||| c == '\u{2028}'
    ||| c == '\u{2029}'
    ||| c == '\u{202F}'
    ||| c == '\u{205F}'
    ||| c == '\u{3000}'
}

fn is_space_char(c: char) -> (r: bool)
    ensures
        r == is_space(c),
{
    ('\u{9}' <= c && c <= '\u{D}') || c == ' ' || c == '\u{85}' || c == '\u{A0}' || c == '\u{1680}'
        || ('\u{2000}' <= c && c <= '\u{200A}') || c == '\u{2028}' || c == '\u{2029}' || c
        == '\u{202F}' || c == '\u{205F}' || c == '\u{3000}'
}

/// `s` without the white space at its start.
pub open spec fn trim_start(s: Seq<char>) -> Seq<char>
    decreases s.len(),
{
    if s.len() > 0 && is_space(s[0]) {
        trim_start(s.drop_first())
    } else {
        s
    }
}

/// `s` without the white space at its end.
pub open spec fn trim_end(s: Seq<char>) -> Seq<char>
    decreases s.len(),
{
    if s.len() > 0 && is_space(s.last()) {
        trim_end(s.drop_last())
    } else {
        s
    }
}

/// `s` without white space at either end, as `str::trim` gives it.
pub open spec fn trim(s: Seq<char>) -> Seq<char> {
    trim_end(trim_start(s))
}

/// `s` without white space at either end.
pub fn trimmed(s: &Vec<char>) -> (r: Vec<char>)
    ensures
        r@ == trim(s@),
{
    let mut a: usize = 0;
    assert(s@.skip(0) =~= s@);
    while a < s.len() && is_space_char(s[a])
        invariant
            a <= s.len(),
            trim_start(s@) == trim_start(s@.skip(a as int)),
        decreases s.len() - a,
    {
        assert(s@.skip(a as int).drop_first() =~= s@.skip(a + 1));
        a = a + 1;
    }
    let ghost start = s@.skip(a as int);
    assert(trim_start(s@) == start);
    let mut b: usize = s.len();
    assert(start =~= s@.subrange(a as int, b as int));
    while b > a && is_space_char(s[b - 1])
        invariant
            a <= b <= s.len(),
            trim_end(start) == trim_end(s@.subrange(a as int, b as int)),
        decreases b - a,
    {
        assert(s@.subrange(a as int, b as int).drop_last() =~= s@.subrange(a as int, b - 1));
        b = b - 1;
    }
    let mut r: Vec<char> = Vec::new();
    let mut k: usize = a;
    while k < b
        invariant
            a <= k <= b <= s.len(),
            r@ == s@.subrange(a as int, k as int),
        decreases b - k,
    {
        r.push(s[k]);
        assert(r@ =~= s@.subrange(a as int, k + 1));
        k = k + 1;
    }
    r
}

/// A line without the carriage return of a `\r\n` ending.
pub open spec fn strip_cr(line: Seq<char>) -> Seq<char> {
    if line.len() > 0 && line.last() == '\r' {
        line.drop_last()
    } else {
        line
    }
}

/// The lines of `s`, as `str::lines` gives them: split at each `\n`, a `\r`
/// right before the `\n` dropped, and no empty line after a final `\n`.
pub open spec fn lines(s: Seq<char>) -> Seq<Seq<char>> {
    let pieces = split_on(s, '\n');
    let ended = pieces.drop_last().map_values(|l: Seq<char>| strip_cr(l));
    if pieces.last().len() == 0 {
        ended
    } else {
        ended.push(pieces.last())
    }
}

/// The lines of `s`.
pub fn text_lines(s: &Vec<char>) -> (r: Vec<Vec<char>>)
    ensures
        texts(r@) == lines(s@),
{
    let pieces = split_pieces(s, '\n');
    proof {
        lemma_split_nonempty(s@, '\n');
    }
    let ghost ps = split_on(s@, '\n');
    let n = pieces.len();
    let mut r: Vec<Vec<char>> = Vec::new();
    let mut k: usize = 0;
    while k + 1 < n
        invariant
            n == pieces.len() >= 1,
            texts(pieces@) == ps,
            k < n,
            texts(r@) == ps.drop_last().map_values(|l: Seq<char>| strip_cr(l)).take(k as int),
        decreases n - k,
    {
        let piece = &pieces[k];
        let mut line: Vec<char> = piece.clone();
        assert(line@ == ps[k as int]);
        if line.len() > 0 && line[line.len() - 1] == '\r' {
            line.pop();
        }
        assert(line@ =~= strip_cr(ps[k as int]));
        let ghost prev = texts(r@);
        r.push(line);
        assert(texts(r@) =~= prev.push(strip_cr(ps[k as int])));
        assert(texts(r@) =~= ps.drop_last().map_values(|l: Seq<char>| strip_cr(l)).take(k + 1));
        k = k + 1;
    }
    assert(ps.drop_last().map_values(|l: Seq<char>| strip_cr(l)).take(k as int) =~= ps.drop_last().map_values(
        |l: Seq<char>| strip_cr(l),
    ));
    if pieces[n - 1].len() > 0 {
        let ghost prev = texts(r@);
        let last = pieces[n - 1].clone();
        r.push(last);
        assert(texts(r@) =~= prev.push(ps.last()));
    }
    r
}

/// Whether `p` occurs in `h` starting at `i`.
pub open spec fn occurs_at(h: Seq<char>, p: Seq<char>, i: int) -> bool {
    0 <= i && i + p.len() <= h.len() && h.subrange(i, i + p.len()) == p
}

/// Whether `p` occurs anywhere in `h`, as `str::contains` decides it; the
/// empty text occurs everywhere.
pub open spec fn contains_text(h: Seq<char>, p: Seq<char>) -> bool {
    exists|i: int| #[trigger] occurs_at(h, p, i)
}

fn occurs_at_exec(h: &Vec<char>, p: &Vec<char>, i: usize) -> (r: bool)
    ensures
        r == occurs_at(h@, p@, i as int),
{
    if i > h.len() || p.len() > h.len() - i {
        return false;
    }
    let mut k: usize = 0;
    while k < p.len()
        invariant
            k <= p.len(),
            i + p.len() <= h.len(),
            forall|m: int| 0 <= m < k ==> h@[i + m] == p@[m],
        decreases p.len() - k,
    {
        if h[i + k] != p[k] {
            assert(h@.subrange(i as int, i + p.len())[k as int] != p@[k as int]);
            return false;
        }
        k = k + 1;
    }
    assert(h@.subrange(i as int, i + p.len()) =~= p@);
    true
}

/// Whether `p` occurs in `h`.
pub fn contains_chars(h: &Vec<char>, p: &Vec<char>) -> (r: bool)
    ensures
        r == contains_text(h@, p@),
{
    if p.len() > h.len() {
        assert forall|i: int| !occurs_at(h@, p@, i) by {}
        return false;
    }
    let last = h.len() - p.len();
    let mut i: usize = 0;
    loop
        invariant
            last == h.len() - p.len(),
            i <= last,
            forall|m: int| 0 <= m < i ==> !occurs_at(h@, p@, m),
        decreases last - i,
    {
        if occurs_at_exec(h, p, i) {
            return true;
        }
        if i == last {
            assert forall|m: int| !occurs_at(h@, p@, m) by {
                if 0 <= m <= i {
                }
            }
            return false;
        }
        i = i + 1;
    }
}

/// How many positions `p` occurs at in `h`, overlapping occurrences
/// included: in `aaa`, `aa` occurs at 0 and at 1. The empty text occurs at
/// every position from the start to the end.
pub open spec fn occurrence_count(h: Seq<char>, p: Seq<char>) -> nat
    decreases h.len(),
{
    if h.len() < p.len() {
        0
    } else {
        (if h.take(p.len() as int) == p {
            1nat
        } else {
            0nat
        }) + (if h.len() == 0 {
            0nat
        } else {
            occurrence_count(h.skip(1), p)
        })
    }
}

/// Whether `p` occurs at exactly one position in `h`.
pub open spec fn occurs_once(h: Seq<char>, p: Seq<char>) -> bool {
    exists|i: int|
        #![trigger occurs_at(h, p, i)]
        occurs_at(h, p, i) && forall|j: int| #[trigger] occurs_at(h, p, j) ==> j == i
}

proof fn lemma_occurs_at_start(h: Seq<char>, p: Seq<char>)
    ensures
        occurs_at(h, p, 0) <==> (h.len() >= p.len() && h.take(p.len() as int) == p),
{
    if h.len() >= p.len() {
        assert(h.subrange(0, p.len() as int) =~= h.take(p.len() as int));
    }
}

proof fn lemma_occurs_at_shift(h: Seq<char>, p: Seq<char>, i: int)
    requires
        h.len() > 0,
        i >= 0,
    ensures
        occurs_at(h, p, i + 1) <==> occurs_at(h.skip(1), p, i),
{
    if i + 1 + p.len() <= h.len() {
        assert(h.subrange(i + 1, i + 1 + p.len()) =~= h.skip(1).subrange(i, i + p.len()));
    }
}

proof fn lemma_shift_all(h: Seq<char>, p: Seq<char>)
    requires
        h.len() > 0,
    ensures
        forall|k: int| k >= 0 ==> (#[trigger] occurs_at(h.skip(1), p, k) <==> occurs_at(h, p, k + 1)),
        forall|j: int| j >= 1 ==> (#[trigger] occurs_at(h, p, j) <==> occurs_at(h.skip(1), p, j - 1)),
{
    assert forall|k: int| k >= 0 implies (#[trigger] occurs_at(h.skip(1), p, k) <==> occurs_at(
        h,
        p,
        k + 1,
    )) by {
        lemma_occurs_at_shift(h, p, k);
    }
    assert forall|j: int| j >= 1 implies (#[trigger] occurs_at(h, p, j) <==> occurs_at(
        h.skip(1),
        p,
        j - 1,
    )) by {
        lemma_occurs_at_shift(h, p, j - 1);
    }
}

proof fn lemma_count_zero(h: Seq<char>, p: Seq<char>)
    ensures
        occurrence_count(h, p) == 0 <==> forall|i: int| !#[trigger] occurs_at(h, p, i),
    decreases h.len(),
{
    lemma_occurs_at_start(h, p);
    if h.len() < p.len() {
        assert forall|i: int| !#[trigger] occurs_at(h, p, i) by {}
    } else if h.len() == 0 {
        assert(h.subrange(0, 0) =~= p);
        assert(occurs_at(h, p, 0));
    } else {
        let t = h.skip(1);
        lemma_count_zero(t, p);
        lemma_shift_all(h, p);
        if occurrence_count(h, p) == 0 {
            assert forall|i: int| !#[trigger] occurs_at(h, p, i) by {
                if i >= 1 {
                    assert(!occurs_at(t, p, i - 1));
                }
            }
        } else if !occurs_at(h, p, 0) {
            let k = choose|k: int| #[trigger] occurs_at(t, p, k);
            assert(occurs_at(h, p, k + 1));
        }
    }
}

/// Counting positions agrees with the positions themselves: none when the
/// count is 0, exactly one when it is 1.
pub proof fn lemma_occurrence_count(h: Seq<char>, p: Seq<char>)
    ensures
        occurrence_count(h, p) == 0 <==> forall|i: int| !#[trigger] occurs_at(h, p, i),
        occurrence_count(h, p) == 1 <==> occurs_once(h, p),
    decreases h.len(),
{
    lemma_count_zero(h, p);
    lemma_occurs_at_start(h, p);
    if h.len() < p.len() {
        assert forall|i: int| !#[trigger] occurs_at(h, p, i) by {}
    } else if h.len() == 0 {
        assert(h.subrange(0, 0) =~= p);
        assert(occurs_at(h, p, 0));
        assert forall|j: int| #[trigger] occurs_at(h, p, j) implies j == 0 by {}
        assert(occurs_once(h, p));
    } else {
        let t = h.skip(1);
        lemma_occurrence_count(t, p);
        lemma_shift_all(h, p);
        if occurrence_count(h, p) == 1 {
            if occurs_at(h, p, 0) {
                assert forall|j: int| #[trigger] occurs_at(h, p, j) implies j == 0 by {
                    if j >= 1 {
                        assert(!occurs_at(t, p, j - 1));
                    }
                }
                assert(occurs_once(h, p));
            } else {
                let k = choose|i: int|
                    #![trigger occurs_at(t, p, i)]
                    occurs_at(t, p, i) && forall|j: int| #[trigger] occurs_at(t, p, j) ==> j == i;
                assert(occurs_at(h, p, k + 1));
                assert forall|j: int| #[trigger] occurs_at(h, p, j) implies j == k + 1 by {
                    if j >= 1 {
                        assert(occurs_at(t, p, j - 1));
                    }
                }
                assert(occurs_once(h, p));
            }
        }
        if occurs_once(h, p) {
            let i = choose|i: int|
                #![trigger occurs_at(h, p, i)]
                occurs_at(h, p, i) && forall|j: int| #[trigger] occurs_at(h, p, j) ==> j == i;
            if i == 0 {
                assert forall|k: int| !#[trigger] occurs_at(t, p, k) by {
                    if occurs_at(t, p, k) {
                        assert(occurs_at(h, p, k + 1));
                    }
                }
            } else {
                assert(occurs_at(t, p, i - 1));
                assert forall|k: int| #[trigger] occurs_at(t, p, k) implies k == i - 1 by {
                    assert(occurs_at(h, p, k + 1));
                }
                assert(occurs_once(t, p));
            }
        }
    }
}

/// How many positions `p` occurs at in `h`, and the first of them (0 when
/// there is none).
pub fn count_positions(h: &Vec<char>, p: &Vec<char>) -> (r: (usize, usize))
    requires
        h.len() < usize::MAX,
    ensures
        r.0 == occurrence_count(h@, p@),
        r.0 > 0 ==> occurs_at(h@, p@, r.1 as int) && forall|j: int| 0 <= j < r.1 ==> !#[trigger] occurs_at(h@, p@, j),
{
    if p.len() > h.len() {
        return (0, 0);
    }
    let last = h.len() - p.len();
    let mut c: usize = 0;
    let mut first: usize = 0;
    let mut i: usize = 0;
    assert(h@.skip(0) =~= h@);
    loop
        invariant
            last == h.len() - p.len(),
            h.len() < usize::MAX,
            i <= last,
            c <= i,
            occurrence_count(h@, p@) == c + occurrence_count(h@.skip(i as int), p@),
            c > 0 ==> first < i && occurs_at(h@, p@, first as int),
            c > 0 ==> forall|j: int| 0 <= j < first ==> !#[trigger] occurs_at(h@, p@, j),
            c == 0 ==> forall|j: int| 0 <= j < i ==> !#[trigger] occurs_at(h@, p@, j),
        decreases last - i,
    {
        let ghost rest = h@.skip(i as int);
        let here = occurs_at_exec(h, p, i);
        assert(rest.take(p.len() as int) =~= h@.subrange(i as int, i + p.len()));
        assert(rest.len() >= p.len());
        assert(occurrence_count(rest, p@) == (if here {
            1nat
        } else {
            0nat
        }) + (if rest.len() == 0 {
            0nat
        } else {
            occurrence_count(rest.skip(1), p@)
        }));
        if here {
            if c == 0 {
                first = i;
            }
            c = c + 1;
        }
        if i == last {
            proof {
                if rest.len() > 0 {
                    assert(rest.skip(1).len() < p.len());
                    assert(occurrence_count(rest.skip(1), p@) == 0);
                }
            }
            return (c, first);
        }
        assert(rest.skip(1) =~= h@.skip(i + 1));
        i = i + 1;
    }
}

/// Cutting `a + [sep] + b` at `sep` gives the pieces of `a`, then the
/// pieces of `b`.
pub proof fn lemma_split_concat(a: Seq<char>, b: Seq<char>, sep: char)
    ensures
        split_on(a + seq![sep] + b, sep) == split_on(a, sep) + split_on(b, sep),
    decreases b.len(),
{
    let s = a + seq![sep] + b;
    if b.len() == 0 {
        assert(s.drop_last() =~= a);
        assert(split_on(b, sep) =~= seq![seq![]]);
        assert(split_on(s, sep) =~= split_on(a, sep) + split_on(b, sep));
    } else {
        let b0 = b.drop_last();
        lemma_split_concat(a, b0, sep);
        lemma_split_nonempty(a, sep);
        lemma_split_nonempty(b0, sep);
        assert(s.drop_last() =~= a + seq![sep] + b0);
        assert(s.last() == b.last());
        let pa = split_on(a, sep);
        let pb = split_on(b0, sep);
        if b.last() == sep {
            assert(split_on(s, sep) =~= pa + pb.push(seq![]));
        } else {
            assert((pa + pb).last() == pb.last());
            assert(split_on(s, sep) =~= pa + pb.update(pb.len() - 1, pb.last().push(b.last())));
        }
    }
}

/// A text without `sep` is a single piece.
pub proof fn lemma_split_single(b: Seq<char>, sep: char)
    requires
        !b.contains(sep),
    ensures
        split_on(b, sep) == seq![b],
    decreases b.len(),
{
    if b.len() > 0 {
        let b0 = b.drop_last();
        assert(!b0.contains(sep)) by {
            if b0.contains(sep) {
                let i = choose|i: int| 0 <= i < b0.len() && b0[i] == sep;
                assert(b[i] == sep);
            }
        }
        lemma_split_single(b0, sep);
        assert(b.last() != sep) by {
            assert(b[b.len() - 1] == b.last());
        }
        assert(split_on(b, sep) =~= seq![b0.push(b.last())]);
        assert(b0.push(b.last()) =~= b);
    } else {
        assert(b =~= Seq::<char>::empty());
        assert(split_on(b, sep) =~= seq![b]);
    }
}

/// Appends the characters of `s`.
pub fn append_chars(out: &mut Vec<char>, s: &Vec<char>)
    ensures
        final(out)@ == old(out)@ + s@,
{
    let ghost start = out@;
    let mut k: usize = 0;
    while k < s.len()
        invariant
            k <= s.len(),
            out@ == start + s@.take(k as int),
        decreases s.len() - k,
    {
        out.push(s[k]);
        assert(out@ =~= start + s@.take(k + 1));
        k = k + 1;
    }
    assert(s@.take(k as int) =~= s@);
}

/// The decimal digit for `d`.
pub open spec fn digit(d: nat) -> char {
    if d == 0 {
        '0'
    } else if d == 1 {
        '1'
    } else if d == 2 {
        '2'
    } else if d == 3 {
        '3'
    } else if d == 4 {
        '4'
    } else if d == 5 {
        '5'
    } else if d == 6 {
        '6'
    } else if d == 7 {
        '7'
    } else if d == 8 {
        '8'
    } else {
        '9'
    }
}

/// `n` written in decimal, as `format!("{}", n)` writes it.
pub open spec fn decimal(n: nat) -> Seq<char>
    decreases n,
{
    if n < 10 {
        seq![digit(n)]
    } else {
        decimal(n / 10).push(digit(n % 10))
    }
}

/// Whether `c` is a decimal digit.
pub open spec fn is_digit(c: char) -> bool {
    '0' <= c <= '9'
}

/// The value of a decimal digit.
pub open spec fn digit_value(c: char) -> int {
    (c as u32) - ('0' as u32)
}

/// The number a string of decimal digits denotes, the last digit the
/// least significant.
pub open spec fn numeral_value(s: Seq<char>) -> int
    decreases s.len(),
{
    if s.len() == 0 {
        0
    } else {
        numeral_value(s.drop_last()) * 10 + digit_value(s.last())
    }
}

/// `decimal(n)` is the base-10 numeral of `n`: it holds digits only, it
/// reads back as `n`, and it has no leading zero, so it is as long as `n`
/// has digits.
pub proof fn decimal_reads_back(n: nat)
    ensures
        decimal(n).len() >= 1,
        forall|i: int| 0 <= i < decimal(n).len() ==> is_digit(#[trigger] decimal(n)[i]),
        numeral_value(decimal(n)) == n,
        n > 0 ==> decimal(n)[0] != '0',
        n == 0 ==> decimal(n) == seq!['0'],
    decreases n,
{
    if n < 10 {
        let s = decimal(n);
        assert(s.drop_last() =~= Seq::<char>::empty());
        assert(numeral_value(s.drop_last()) == 0);
        assert(s.last() == digit(n));
        assert(digit_value(digit(n)) == n);
        assert(numeral_value(s) == numeral_value(s.drop_last()) * 10 + digit_value(s.last()));
    } else {
        decimal_reads_back(n / 10);
        let prefix = decimal(n / 10);
        let s = decimal(n);
        assert(s.drop_last() =~= prefix);
        assert(digit_value(digit(n % 10)) == n % 10);
        assert(s.last() == digit(n % 10));
        assert(n == (n / 10) * 10 + n % 10);
        assert(numeral_value(s) == numeral_value(s.drop_last()) * 10 + digit_value(s.last()));
        assert(s[0] == prefix[0]);
        assert forall|i: int| 0 <= i < s.len() implies is_digit(#[trigger] s[i]) by {
            if i < prefix.len() {
                assert(s[i] == prefix[i]);
            }
        }
    }
}

fn digit_char(d: usize) -> (c: char)
    requires
        d < 10,
    ensures
        c == digit(d as nat),
{
    if d == 0 {
        '0'
    } else if d == 1 {
        '1'
    } else if d == 2 {
        '2'
    } else if d == 3 {
        '3'
    } else if d == 4 {
        '4'
    } else if d == 5 {
        '5'
    } else if d == 6 {
        '6'
    } else if d == 7 {
        '7'
    } else if d == 8 {
        '8'
    } else {
        '9'
    }
}

/// `n` written in decimal.
pub fn decimal_chars(n: usize) -> (r: Vec<char>)
    ensures
        r@ == decimal(n as nat),
    decreases n,
{
    if n < 10 {
        let mut r: Vec<char> = Vec::new();
        r.push(digit_char(n));
        assert(r@ =~= decimal(n as nat));
        r
    } else {
        let mut r = decimal_chars(n / 10);
        r.push(digit_char(n % 10));
        r
    }
}

/// Whether `a` comes no later than `b` in the order of `String`'s `Ord`:
/// lexicographic by character. UTF-8 keeps code-point order, so comparing
/// characters orders exactly as comparing the bytes does.
pub open spec fn text_le(a: Seq<char>, b: Seq<char>) -> bool
    decreases a.len(),
{
    if a.len() == 0 {
        true
    } else if b.len() == 0 {
        false
    } else if (a[0] as u32) < (b[0] as u32) {
        true
    } else if (a[0] as u32) > (b[0] as u32) {
        false
    } else {
        text_le(a.drop_first(), b.drop_first())
    }
}

pub proof fn lemma_text_le_total(a: Seq<char>, b: Seq<char>)
    ensures
        text_le(a, b) || text_le(b, a),
    decreases a.len(),
{
    if a.len() > 0 && b.len() > 0 && (a[0] as u32) == (b[0] as u32) {
        lemma_text_le_total(a.drop_first(), b.drop_first());
    }
}

pub proof fn lemma_text_le_transitive(a: Seq<char>, b: Seq<char>, c: Seq<char>)
    requires
        text_le(a, b),
        text_le(b, c),
    ensures
        text_le(a, c),
    decreases a.len(),
{
    if a.len() > 0 && b.len() > 0 && c.len() > 0 && (a[0] as u32) == (b[0] as u32) && (b[0] as u32)
        == (c[0] as u32) {
        lemma_text_le_transitive(a.drop_first(), b.drop_first(), c.drop_first());
    }
}

/// Whether `a` comes no later than `b`.
pub fn text_le_exec(a: &str, b: &str) -> (r: bool)
    ensures
        r == text_le(a@, b@),
{
    let x = chars_of(a);
    let y = chars_of(b);
    let mut k: usize = 0;
    assert(x@.skip(0) =~= x@);
    assert(y@.skip(0) =~= y@);
    loop
        invariant
            k <= x.len(),
            k <= y.len(),
            text_le(a@, b@) == text_le(x@.skip(k as int), y@.skip(k as int)),
            x@ == a@,
            y@ == b@,
        decreases x.len() - k,
    {
        let ghost xs = x@.skip(k as int);
        let ghost ys = y@.skip(k as int);
        if k == x.len() {
            return true;
        }
        if k == y.len() {
            return false;
        }
        assert(xs[0] == x@[k as int]);
        assert(ys[0] == y@[k as int]);
        if (x[k] as u32) < (y[k] as u32) {
            return true;
        }
        if (x[k] as u32) > (y[k] as u32) {
            return false;
        }
        assert(xs.drop_first() =~= x@.skip(k + 1));
        assert(ys.drop_first() =~= y@.skip(k + 1));
        k = k + 1;
    }
}

/// Whether `s` is in `String` order.
pub open spec fn texts_sorted(s: Seq<Seq<char>>) -> bool {
    forall|i: int, j: int| 0 <= i < j < s.len() ==> text_le(#[trigger] s[i], #[trigger] s[j])
}

/// `items` in `String` order: the same strings, each as often as it occurs,
/// sorted as `sort` on a `Vec<String>` sorts them.
pub fn sorted_texts(items: Vec<String>) -> (r: Vec<String>)
    ensures
        texts_sorted(r.deep_view()),
        r.deep_view().to_multiset() == items.deep_view().to_multiset(),
{
    broadcast use vstd::seq_lib::group_to_multiset_ensures;

    let mut out: Vec<String> = Vec::new();
    let mut i: usize = 0;
    assert(items.deep_view().take(0) =~= Seq::<Seq<char>>::empty());
    assert(out.deep_view() =~= Seq::<Seq<char>>::empty());
    while i < items.len()
        invariant
            i <= items.len(),
            texts_sorted(out.deep_view()),
            out.deep_view().to_multiset() == items.deep_view().take(i as int).to_multiset(),
        decreases items.len() - i,
    {
        let x = &items[i];
        let mut k: usize = 0;
        while k < out.len() && text_le_exec(out[k].as_str(), x.as_str())
            invariant
                k <= out.len(),
                forall|m: int| 0 <= m < k ==> text_le(#[trigger] out.deep_view()[m], x@),
            decreases out.len() - k,
        {
            k = k + 1;
        }
        let ghost before = out.deep_view();
        proof {
            if k < out.len() {
                lemma_text_le_total(out.deep_view()[k as int], x@);
                assert forall|m: int| k <= m < before.len() implies text_le(x@, #[trigger] before[m]) by {
                    if m > k {
                        lemma_text_le_transitive(x@, before[k as int], before[m]);
                    }
                }
            }
        }
        out.insert(k, x.clone());
        assert(out.deep_view() =~= before.insert(k as int, x@));
        proof {
            before.insert_ensures(k as int, x@);
            let after = out.deep_view();
            assert forall|a: int, b: int| 0 <= a < b < after.len() implies text_le(
                #[trigger] after[a],
                #[trigger] after[b],
            ) by {
                if b < k {
                } else if b == k {
                } else if a < k {
                    lemma_text_le_transitive(after[a], x@, after[b]);
                } else if a == k {
                } else {
                    assert(after[a] == before[a - 1]);
                    assert(after[b] == before[b - 1]);
                }
            }
            vstd::seq_lib::to_multiset_insert(before, k as int, x@);
            assert(items.deep_view()[i as int] == x@);
            assert(items.deep_view().take(i + 1) =~= items.deep_view().take(i as int).push(x@));
            assert(out.deep_view().to_multiset() == before.to_multiset().insert(x@));
            vstd::seq_lib::to_multiset_build(items.deep_view().take(i as int), x@);
            assert(items.deep_view().take(i + 1).to_multiset() == items.deep_view().take(
                i as int,
            ).to_multiset().insert(x@));
        }
        i = i + 1;
    }
    assert(items.deep_view().take(i as int) =~= items.deep_view());
    out
}

} // verus!
