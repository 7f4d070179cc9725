//! Text as sequences of characters: what cutting, trimming, splitting and
//! case-insensitive comparison mean, and loops that compute each of them.

use vstd::prelude::*;

verus! {

/// `String::push` of the standard library: the character is added at the end.
pub assume_specification[ String::push ](s: &mut String, c: char)
    ensures
        final(s)@ == old(s)@.push(c),
;

/// The lower-case form of an ASCII letter; any other character is its own.
pub open spec fn lower_char(c: char) -> char {
    if 'A' <= c && c <= 'Z' {
        (c as u8 + 32) as u8 as char
    } else {
        c
    }
}

/// `s` with every ASCII letter in lower case.
pub open spec fn ascii_lower(s: Seq<char>) -> Seq<char> {
    Seq::new(s.len(), |i: int| lower_char(s[i]))
}

/// Where `c` stands for the first time in `s` at or after `i`; the length of `s` if nowhere.
pub open spec fn first_from(s: Seq<char>, c: char, i: int) -> int
    decreases s.len() - i,
{
    if i >= s.len() {
        s.len() as int
    } else if s[i] == c {
        i
    } else {
        first_from(s, c, i + 1)
    }
}

/// Where `c` stands for the last time in `s` before `n`; -1 if nowhere.
pub open spec fn last_before(s: Seq<char>, c: char, n: int) -> int
    decreases n,
{
    if n <= 0 {
        -1
    } else if s[n - 1] == c {
        n - 1
    } else {
        last_before(s, c, n - 1)
    }
}

/// The part of `s` in front of the first `c`; all of `s` if it has none.
pub open spec fn before_first(s: Seq<char>, c: char) -> Seq<char> {
    s.take(first_from(s, c, 0))
}

/// Where `pattern` occurs for the first time in `s` at or after `i`, if anywhere.
pub open spec fn find_from(s: Seq<char>, pattern: Seq<char>, i: int) -> Option<int>
    decreases s.len() - i + 1,
{
    if i + pattern.len() > s.len() || i < 0 {
        None
    } else if s.subrange(i, i + pattern.len() as int) == pattern {
        Some(i)
    } else {
        find_from(s, pattern, i + 1)
    }
}

/// `s` without the run of `c` at its end.
pub open spec fn strip_end(s: Seq<char>, c: char) -> Seq<char>
    decreases s.len(),
{
    if s.len() > 0 && s.last() == c {
        strip_end(s.drop_last(), c)
    } else {
        s
    }
}

/// The pieces of `s` between the occurrences of `sep`, in order.
pub open spec fn split_on(s: Seq<char>, sep: char) -> Seq<Seq<char>>
    decreases s.len(),
{
    let at = first_from(s, sep, 0);
    if at >= s.len() {
        seq![s]
    } else {
        proof {
            lemma_first_from(s, sep, 0);
        }
        seq![s.take(at)] + split_on(s.skip(at + 1), sep)
    }
}

/// The characters with the Unicode property `White_Space`.
pub open spec fn is_white(c: char) -> bool {
    let n = c as u32;
    ||| 0x09 <= n <= 0x0d
    ||| n == 0x20
    ||| n == 0x85
    ||| n == 0xa0
    ||| n == 0x1680
    ||| 0x2000 <= n <= 0x200a
    ||| n == 0x2028
    ||| n == 0x2029
    ||| n == 0x202f
    ||| n == 0x205f
    ||| n == 0x3000
}

/// `s` without the white space at its start.
pub open spec fn trim_start(s: Seq<char>) -> Seq<char>
    decreases s.len(),
{
    if s.len() > 0 && is_white(s[0]) {
        trim_start(s.skip(1))
    } else {
        s
    }
}

/// `s` without the white space at its end.
pub open spec fn trim_end(s: Seq<char>) -> Seq<char>
    decreases s.len(),
{
    if s.len() > 0 && is_white(s.last()) {
        trim_end(s.drop_last())
    } else {
        s
    }
}

/// `s` without the white space at both ends.
pub open spec fn trim(s: Seq<char>) -> Seq<char> {
    trim_end(trim_start(s))
}

/// What the position found by [`first_from`] is.
pub proof fn lemma_first_from(s: Seq<char>, c: char, i: int)
    requires
        0 <= i <= s.len(),
    ensures
        i <= first_from(s, c, i) <= s.len(),
        first_from(s, c, i) < s.len() ==> s[first_from(s, c, i)] == c,
        forall|j: int| i <= j < first_from(s, c, i) ==> s[j] != c,
    decreases s.len() - i,
{
    if i < s.len() && s[i] != c {
        lemma_first_from(s, c, i + 1);
    }
}

/// What the position found by [`last_before`] is.
pub proof fn lemma_last_before(s: Seq<char>, c: char, n: int)
    requires
        0 <= n <= s.len(),
    ensures
        -1 <= last_before(s, c, n) < n,
        last_before(s, c, n) >= 0 ==> s[last_before(s, c, n)] == c,
        forall|j: int| last_before(s, c, n) < j < n ==> s[j] != c,
    decreases n,
{
    if n > 0 && s[n - 1] != c {
        lemma_last_before(s, c, n - 1);
    }
}

/// The characters of `s`.
pub fn chars_of(s: &str) -> (r: Vec<char>)
    ensures
        r@ == s@,
{
    let mut v: Vec<char> = Vec::new();
    for c in it: s.chars()
        invariant
            v@ == it.seq().take(it.index()),
            it.seq() == s@,
    {
        v.push(c);
    }
    v
}

/// The text whose characters are `cs`.
pub fn text_of(cs: &[char]) -> (r: String)
    ensures
        r@ == cs@,
{
    let mut s = String::new();
    let n: usize = cs.len();
    let mut i: usize = 0;
    while i < n
        invariant
            i <= n,
            n == cs@.len(),
            s@ == cs@.take(i as int),
        decreases n - i,
    {
        s.push(cs[i]);
        i += 1;
    }
    s
}

/// Whether two character sequences are the same.
pub fn same_chars(a: &[char], b: &[char]) -> (r: bool)
    ensures
        r == (a@ == b@),
{
    if a.len() != b.len() {
        return false;
    }
    let n: usize = a.len();
    let mut i: usize = 0;
    while i < n
        invariant
            i <= n,
            n == a@.len(),
            n == b@.len(),
            a@.take(i as int) == b@.take(i as int),
        decreases n - i,
    {
        if a[i] != b[i] {
            return false;
        }
        assert(a@.take(i + 1) =~= a@.take(i as int).push(a@[i as int]));
        assert(b@.take(i + 1) =~= b@.take(i as int).push(b@[i as int]));
        i += 1;
    }
    assert(a@.take(n as int) =~= a@);
    assert(b@.take(n as int) =~= b@);
    true
}

/// Whether two texts are the same.
pub fn same_text(a: &str, b: &str) -> (r: bool)
    ensures
        r == (a@ == b@),
{
    let x = chars_of(a);
    let y = chars_of(b);
    same_chars(&x, &y)
}

/// The lower-case form of an ASCII letter.
pub fn to_lower_char(c: char) -> (r: char)
    ensures
        r == lower_char(c),
{
    if 'A' <= c && c <= 'Z' {
        ((c as u8) + 32) as char
    } else {
        c
    }
}

/// The characters of `s` with every ASCII letter in lower case.
pub fn to_ascii_lower(s: &str) -> (r: Vec<char>)
    ensures
        r@ == ascii_lower(s@),
{
    let cs = chars_of(s);
    let mut v: Vec<char> = Vec::new();
    let n: usize = cs.len();
    let mut i: usize = 0;
    while i < n
        invariant
            i <= n,
            n == cs@.len(),
            v@ == ascii_lower(cs@).take(i as int),
        decreases n - i,
    {
        v.push(to_lower_char(cs[i]));
        i += 1;
    }
    v
}

/// Whether two texts are the same but for the case of ASCII letters.
pub fn same_ignoring_case(a: &str, b: &str) -> (r: bool)
    ensures
        r == (ascii_lower(a@) == ascii_lower(b@)),
{
    let x = to_ascii_lower(a);
    let y = to_ascii_lower(b);
    same_chars(&x, &y)
}

/// Where `c` stands for the first time at or after `from`; the length if nowhere.
pub fn first_index(cs: &[char], c: char, from: usize) -> (r: usize)
    requires
        from <= cs@.len(),
    ensures
        r == first_from(cs@, c, from as int),
        from <= r <= cs@.len(),
{
    let n: usize = cs.len();
    let mut i: usize = from;
    while i < n
        invariant
            from <= i <= n,
            n == cs@.len(),
            first_from(cs@, c, from as int) == first_from(cs@, c, i as int),
        decreases n - i,
    {
        if cs[i] == c {
            return i;
        }
        i += 1;
    }
    i
}

/// Where `c` stands for the last time, if anywhere.
pub fn last_index(cs: &[char], c: char) -> (r: Option<usize>)
    ensures
        match r {
            Some(i) => i == last_before(cs@, c, cs@.len() as int) && i < cs@.len(),
            None => last_before(cs@, c, cs@.len() as int) == -1,
        },
{
    let mut n: usize = cs.len();
    while n > 0
        invariant
            n <= cs@.len(),
            last_before(cs@, c, cs@.len() as int) == last_before(cs@, c, n as int),
        decreases n,
    {
        if cs[n - 1] == c {
            return Some(n - 1);
        }
        n -= 1;
    }
    None
}

/// Where `pattern` occurs for the first time, if anywhere.
pub fn find_text(cs: &[char], pattern: &[char]) -> (r: Option<usize>)
    ensures
        match r {
            Some(i) => find_from(cs@, pattern@, 0) == Some(i as int)
                && i + pattern@.len() <= cs@.len(),
            None => find_from(cs@, pattern@, 0) is None,
        },
{
    let n: usize = cs.len();
    let k: usize = pattern.len();
    if k > n {
        return None;
    }
    if k == 0 {
        proof {
            assert(cs@.subrange(0, 0) =~= pattern@);
        }
        return Some(0);
    }
    let mut i: usize = 0;
    while i <= n - k
        invariant
            1 <= k <= n,
            i <= n - k + 1,
            n == cs@.len(),
            k == pattern@.len(),
            find_from(cs@, pattern@, 0) == find_from(cs@, pattern@, i as int),
        decreases n - i,
    {
        if same_chars(vstd::slice::slice_subrange(cs, i, i + k), pattern) {
            return Some(i);
        }
        proof {
            assert(cs@.subrange(i as int, i + k) != pattern@);
        }
        i += 1;
    }
    None
}

/// `cs` without the run of `c` at its end.
pub fn without_end(cs: &[char], c: char) -> (r: &[char])
    ensures
        r@ == strip_end(cs@, c),
{
    let mut n: usize = cs.len();
    proof {
        assert(cs@.take(n as int) =~= cs@);
    }
    while n > 0
        invariant
            n <= cs@.len(),
            strip_end(cs@, c) == strip_end(cs@.take(n as int), c),
        ensures
            n <= cs@.len(),
            strip_end(cs@, c) == cs@.take(n as int),
        decreases n,
    {
        if cs[n - 1] != c {
            break;
        }
        proof {
            assert(cs@.take(n as int).drop_last() =~= cs@.take(n - 1));
        }
        n -= 1;
    }
    vstd::slice::slice_subrange(cs, 0, n)
}

/// Whether `c` is white space.
pub fn white(c: char) -> (r: bool)
    ensures
        r == is_white(c),
{
    let n: u32 = c as u32;
    (0x09 <= n && n <= 0x0d) || n == 0x20 || n == 0x85 || n == 0xa0 || n == 0x1680
        || (0x2000 <= n && n <= 0x200a) || n == 0x2028 || n == 0x2029 || n == 0x202f
        || n == 0x205f || n == 0x3000
}

/// `cs` without the white space at both ends.
pub fn trimmed(cs: &[char]) -> (r: &[char])
    ensures
        r@ == trim(cs@),
{
    let n: usize = cs.len();
    let mut lo: usize = 0;
    proof {
        assert(cs@.skip(0) =~= cs@);
    }
    while lo < n && white(cs[lo])
        invariant
            lo <= n,
            n == cs@.len(),
            trim_start(cs@) == trim_start(cs@.skip(lo as int)),
        decreases n - lo,
    {
        proof {
            assert(cs@.skip(lo as int).skip(1) =~= cs@.skip(lo + 1));
        }
        lo += 1;
    }
    let mut hi: usize = n;
    proof {
        assert(cs@.subrange(lo as int, hi as int) =~= cs@.skip(lo as int));
    }
    while lo < hi && white(cs[hi - 1])
        invariant
            lo <= hi <= n,
            n == cs@.len(),
            trim(cs@) == trim_end(cs@.subrange(lo as int, hi as int)),
        decreases hi,
    {
        proof {
            assert(cs@.subrange(lo as int, hi as int).drop_last() =~= cs@.subrange(
                lo as int,
                hi - 1,
            ));
        }
        hi -= 1;
    }
    vstd::slice::slice_subrange(cs, lo, hi)
}

/// The views of a list of character vectors.
pub open spec fn views(v: Seq<Vec<char>>) -> Seq<Seq<char>> {
    Seq::new(v.len(), |i: int| v[i]@)
}

/// The pieces of `cs` between the occurrences of `sep`.
pub fn pieces(cs: &[char], sep: char) -> (r: Vec<Vec<char>>)
    ensures
        views(r@) == split_on(cs@, sep),
{
    let n: usize = cs.len();
    let mut done: Vec<Vec<char>> = Vec::new();
    let mut start: usize = 0;
    proof {
        assert(cs@.skip(0) =~= cs@);
        assert(views(done@) + split_on(cs@, sep) =~= split_on(cs@, sep));
    }
    loop
        invariant
            start <= n,
            n == cs@.len(),
            split_on(cs@, sep) == views(done@) + split_on(cs@.skip(start as int), sep),
        decreases n - start,
    {
        let rest = vstd::slice::slice_subrange(cs, start, n);
        proof {
            assert(rest@ =~= cs@.skip(start as int));
            lemma_first_from(rest@, sep, 0);
        }
        let at: usize = first_index(rest, sep, 0);
        let ghost before = views(done@);
        let piece = vstd::slice::slice_to_vec(vstd::slice::slice_subrange(rest, 0, at));
        done.push(piece);
        proof {
            assert(rest@.subrange(0, at as int) =~= rest@.take(at as int));
            assert(views(done@) =~= before.push(rest@.take(at as int)));
        }
        if at >= rest.len() {
            proof {
                assert(rest@.take(at as int) =~= rest@);
                assert(before + seq![rest@] =~= views(done@));
            }
            return done;
        }
        proof {
            assert(rest@.skip(at + 1) =~= cs@.skip(start + at + 1));
            assert(before + (seq![rest@.take(at as int)] + split_on(rest@.skip(at + 1), sep))
                =~= views(done@) + split_on(rest@.skip(at + 1), sep));
        }
        start = start + at + 1;
    }
}

/// Lower case moves the letters `A` to `Z` by 32 places, and leaves everything else alone.
pub proof fn law_lower_case(s: Seq<char>, i: int)
    requires
        0 <= i < s.len(),
    ensures
        ascii_lower(s).len() == s.len(),
        'A' <= s[i] <= 'Z' ==> ascii_lower(s)[i] as u32 == s[i] as u32 + 32,
        !('A' <= s[i] <= 'Z') ==> ascii_lower(s)[i] == s[i],
{
}

/// Whether `pattern` stands in `s` at `i`.
pub open spec fn occurs_at(s: Seq<char>, pattern: Seq<char>, i: int) -> bool {
    &&& 0 <= i
    &&& i + pattern.len() <= s.len()
    &&& s.subrange(i, i + pattern.len() as int) == pattern
}

/// A pattern is found where it occurs and does not occur before, or occurs nowhere.
pub proof fn law_found_at_its_first_occurrence(s: Seq<char>, pattern: Seq<char>, i: int)
    requires
        0 <= i,
    ensures
        match find_from(s, pattern, i) {
            Some(at) => {
                &&& i <= at
                &&& occurs_at(s, pattern, at)
                &&& forall|j: int| i <= j < at ==> !#[trigger] occurs_at(s, pattern, j)
            },
            None => forall|j: int| i <= j ==> !#[trigger] occurs_at(s, pattern, j),
        },
    decreases s.len() - i + 1,
{
    if i + pattern.len() <= s.len() && !occurs_at(s, pattern, i) {
        law_found_at_its_first_occurrence(s, pattern, i + 1);
    }
}

/// What stands in front of the first `c` holds no `c`, and is followed by one unless it is all.
pub proof fn law_before_first(s: Seq<char>, c: char)
    ensures
        before_first(s, c).len() <= s.len(),
        before_first(s, c) == s.take(before_first(s, c).len() as int),
        !before_first(s, c).contains(c),
        before_first(s, c).len() < s.len() ==> s[before_first(s, c).len() as int] == c,
{
    lemma_first_from(s, c, 0);
}

/// Stripping takes the run of `c` at the end, all of it and nothing else.
pub proof fn law_strip_takes_the_run(s: Seq<char>, c: char)
    ensures
        strip_end(s, c).len() <= s.len(),
        strip_end(s, c) == s.take(strip_end(s, c).len() as int),
        strip_end(s, c).len() > 0 ==> strip_end(s, c).last() != c,
        forall|j: int| strip_end(s, c).len() <= j < s.len() ==> s[j] == c,
    decreases s.len(),
{
    if s.len() > 0 && s.last() == c {
        let t = s.drop_last();
        law_strip_takes_the_run(t, c);
        let n = strip_end(s, c).len() as int;
        assert(s.take(n) =~= t.take(n));
        assert forall|j: int| n <= j < s.len() implies s[j] == c by {
            if j < t.len() {
                assert(s[j] == t[j]);
            }
        }
    } else {
        assert(s.take(s.len() as int) =~= s);
    }
}

/// Whether `s` holds white space only in front of `a` and behind `b`.
pub open spec fn white_around(s: Seq<char>, a: int, b: int) -> bool {
    &&& 0 <= a <= b <= s.len()
    &&& forall|j: int| 0 <= j < a ==> is_white(#[trigger] s[j])
    &&& forall|j: int| b <= j < s.len() ==> is_white(#[trigger] s[j])
}

/// Trimming takes the white space at both ends, all of it and nothing else.
pub proof fn law_trim_takes_white_space(s: Seq<char>)
    ensures
        exists|a: int, b: int| #[trigger] white_around(s, a, b) && trim(s) == s.subrange(a, b),
        trim(s).len() > 0 ==> !is_white(trim(s)[0]) && !is_white(trim(s).last()),
{
    lemma_trim_start(s);
    let t = trim_start(s);
    let a = s.len() - t.len();
    lemma_trim_end(t);
    let b = a + trim(s).len();
    assert(trim(s) =~= s.subrange(a, b));
    assert forall|j: int| b <= j < s.len() implies is_white(#[trigger] s[j]) by {
        assert(s[j] == t[j - a]);
    }
    assert(white_around(s, a, b));
}

/// What trimming at the start leaves.
proof fn lemma_trim_start(s: Seq<char>)
    ensures
        trim_start(s).len() <= s.len(),
        trim_start(s) == s.skip(s.len() - trim_start(s).len()),
        trim_start(s).len() > 0 ==> !is_white(trim_start(s)[0]),
        forall|j: int| 0 <= j < s.len() - trim_start(s).len() ==> is_white(#[trigger] s[j]),
    decreases s.len(),
{
    if s.len() > 0 && is_white(s[0]) {
        let t = s.skip(1);
        lemma_trim_start(t);
        let n = s.len() - trim_start(s).len();
        assert(s.skip(n) =~= t.skip(n - 1));
        assert forall|j: int| 0 <= j < n implies is_white(#[trigger] s[j]) by {
            if j > 0 {
                assert(s[j] == t[j - 1]);
            }
        }
    } else {
        assert(s.skip(0) =~= s);
    }
}

/// What trimming at the end leaves.
proof fn lemma_trim_end(s: Seq<char>)
    ensures
        trim_end(s).len() <= s.len(),
        trim_end(s) == s.take(trim_end(s).len() as int),
        trim_end(s).len() > 0 ==> !is_white(trim_end(s).last()),
        forall|j: int| trim_end(s).len() <= j < s.len() ==> is_white(#[trigger] s[j]),
    decreases s.len(),
{
    if s.len() > 0 && is_white(s.last()) {
        let t = s.drop_last();
        lemma_trim_end(t);
        let n = trim_end(s).len() as int;
        assert(s.take(n) =~= t.take(n));
        assert forall|j: int| n <= j < s.len() implies is_white(#[trigger] s[j]) by {
            if j < t.len() {
                assert(s[j] == t[j]);
            }
        }
    } else {
        assert(s.take(s.len() as int) =~= s);
    }
}

/// The pieces put together again, with `sep` between them.
pub open spec fn joined(pieces: Seq<Seq<char>>, sep: char) -> Seq<char>
    decreases pieces.len(),
{
    if pieces.len() == 0 {
        Seq::empty()
    } else if pieces.len() == 1 {
        pieces[0]
    } else {
        pieces[0] + seq![sep] + joined(pieces.skip(1), sep)
    }
}

/// A text is its pieces with the separators between them, and no piece holds one.
pub proof fn law_pieces_make_the_text(s: Seq<char>, sep: char)
    ensures
        split_on(s, sep).len() > 0,
        joined(split_on(s, sep), sep) == s,
        forall|i: int|
            0 <= i < split_on(s, sep).len() ==> !(#[trigger] split_on(s, sep)[i]).contains(sep),
    decreases s.len(),
{
    lemma_first_from(s, sep, 0);
    let at = first_from(s, sep, 0);
    let parts = split_on(s, sep);
    if at < s.len() {
        let rest = s.skip(at + 1);
        law_pieces_make_the_text(rest, sep);
        assert(parts.skip(1) =~= split_on(rest, sep));
        assert(s.take(at) + seq![sep] + rest =~= s);
        assert forall|i: int| 0 <= i < parts.len() implies !(#[trigger] parts[i]).contains(sep) by {
            if i > 0 {
                assert(parts[i] == split_on(rest, sep)[i - 1]);
            }
        }
    }
}

/// A list of character vectors is seen by contracts as it is.
pub proof fn law_pieces_are_seen_whole(v: Seq<Vec<char>>, i: int)
    requires
        0 <= i < v.len(),
    ensures
        views(v).len() == v.len(),
        views(v)[i] == v[i]@,
{
}

} // verus!
