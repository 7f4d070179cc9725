//! Subdomains: four words of a list, drawn at random and joined by hyphens.

use vstd::prelude::*;

use crate::outside::random::random_below;
use crate::text::{
    chars_of, first_from, lemma_first_from, pieces, split_on, text_of, trim, trimmed, views,
};

verus! {

/// The fewest words that a list may have.
pub const MIN_WORDS: usize = 10240;

/// A list with too few words.
#[derive(Debug, Copy, Clone, PartialEq, Eq, Structural)]
pub struct WordlistTooShort {
    /// How many words the list has.
    pub words: usize,
}

/// The texts of a list of strings.
pub open spec fn texts(v: Seq<String>) -> Seq<Seq<char>> {
    Seq::new(v.len(), |i: int| v[i]@)
}

/// The words of a text: its lines without the white space around them, but for empty ones.
pub open spec fn words_in(text: Seq<char>) -> Seq<Seq<char>> {
    split_on(text, '\n').map_values(|line: Seq<char>| trim(line)).filter(
        |word: Seq<char>| word.len() > 0,
    )
}

/// Four words joined by hyphens.
pub open spec fn hyphenated(a: Seq<char>, b: Seq<char>, c: Seq<char>, d: Seq<char>) -> Seq<char> {
    a + (seq!['-'] + (b + (seq!['-'] + (c + (seq!['-'] + d)))))
}

/// The subdomain that four picks from a list make.
pub open spec fn subdomain_of(words: Seq<Seq<char>>, picks: (int, int, int, int)) -> Seq<char> {
    hyphenated(words[picks.0], words[picks.1], words[picks.2], words[picks.3])
}

/// Four picks that fall inside a list of `n` words.
pub open spec fn in_list(picks: (int, int, int, int), n: nat) -> bool {
    &&& 0 <= picks.0 < n
    &&& 0 <= picks.1 < n
    &&& 0 <= picks.2 < n
    &&& 0 <= picks.3 < n
}

/// Whether a text is a subdomain that a list of words can make.
pub open spec fn is_subdomain(words: Seq<Seq<char>>, s: Seq<char>) -> bool {
    exists|picks: (int, int, int, int)|
        #![trigger subdomain_of(words, picks)]
        in_list(picks, words.len()) && s == subdomain_of(words, picks)
}

/// The words of a text, one on a line.
pub fn wordlist(text: &str) -> (r: Result<Vec<String>, WordlistTooShort>)
    ensures
        match r {
            Ok(words) => {
                &&& texts(words@) == words_in(text@)
                &&& words@.len() >= MIN_WORDS
            },
            Err(e) => {
                &&& words_in(text@).len() < MIN_WORDS
                &&& e.words == words_in(text@).len()
            },
        },
{
    let cs = chars_of(text);
    let lines = pieces(&cs, '\n');
    let mut words: Vec<String> = Vec::new();
    let n: usize = lines.len();
    let mut i: usize = 0;
    let ghost trims = split_on(text@, '\n').map_values(|line: Seq<char>| trim(line));
    let ghost full = |word: Seq<char>| word.len() > 0;
    proof {
        reveal_with_fuel(Seq::<_>::filter, 1);
        assert(texts(words@) =~= trims.take(0).filter(full));
    }
    while i < n
        invariant
            i <= n,
            n == lines@.len(),
            views(lines@) == split_on(text@, '\n'),
            trims == split_on(text@, '\n').map_values(|line: Seq<char>| trim(line)),
            full == (|word: Seq<char>| word.len() > 0),
            texts(words@) == trims.take(i as int).filter(full),
        decreases n - i,
    {
        let word = trimmed(&lines[i]);
        let ghost before = texts(words@);
        proof {
            reveal_with_fuel(Seq::<_>::filter, 1);
            assert(views(lines@)[i as int] == lines@[i as int]@);
            assert(trims.take(i + 1).drop_last() =~= trims.take(i as int));
            assert(trims.take(i + 1).last() == word@);
        }
        if word.len() > 0 {
            words.push(text_of(word));
            proof {
                assert(texts(words@) =~= before.push(word@));
            }
        }
        i += 1;
    }
    proof {
        assert(trims.take(n as int) =~= trims);
        assert(words@.len() == texts(words@).len());
    }
    if words.len() < MIN_WORDS {
        Err(WordlistTooShort { words: words.len() })
    } else {
        Ok(words)
    }
}

/// The subdomain that four picks from a list make.
pub fn compose_subdomain(words: &Vec<String>, picks: (usize, usize, usize, usize)) -> (r: String)
    requires
        in_list(
            (picks.0 as int, picks.1 as int, picks.2 as int, picks.3 as int),
            words@.len(),
        ),
    ensures
        r@ == subdomain_of(
            texts(words@),
            (picks.0 as int, picks.1 as int, picks.2 as int, picks.3 as int),
        ),
{
    let mut s = String::new();
    s.append(words[picks.0].as_str());
    s.push('-');
    s.append(words[picks.1].as_str());
    s.push('-');
    s.append(words[picks.2].as_str());
    s.push('-');
    s.append(words[picks.3].as_str());
    proof {
        assert(s@ =~= subdomain_of(
            texts(words@),
            (picks.0 as int, picks.1 as int, picks.2 as int, picks.3 as int),
        ));
    }
    s
}

/// A subdomain of four words of the list, each drawn at random.
pub fn generate_subdomain(words: &Vec<String>) -> (r: String)
    requires
        words@.len() > 0,
    ensures
        is_subdomain(texts(words@), r@),
{
    let n: usize = words.len();
    let a: usize = random_below(n);
    let b: usize = random_below(n);
    let c: usize = random_below(n);
    let d: usize = random_below(n);
    let s = compose_subdomain(words, (a, b, c, d));
    proof {
        let picks = (a as int, b as int, c as int, d as int);
        assert(in_list(picks, texts(words@).len()));
        assert(s@ == subdomain_of(texts(words@), picks));
    }
    s
}

/// Whether a list's words all differ and hold no hyphen.
pub open spec fn distinct_and_plain(words: Seq<Seq<char>>) -> bool {
    &&& forall|i: int, j: int|
        0 <= i < words.len() && 0 <= j < words.len() && i != j ==> #[trigger] words[i]
            != #[trigger] words[j]
    &&& forall|i: int, k: int|
        0 <= i < words.len() && 0 <= k < words[i].len() ==> #[trigger] words[i][k] != '-'
}

/// What stands in front of the first hyphen, and behind it, is determined by the whole.
proof fn lemma_split_at_hyphen(x: Seq<char>, y: Seq<char>, v: Seq<char>, w: Seq<char>)
    requires
        forall|k: int| 0 <= k < x.len() ==> x[k] != '-',
        forall|k: int| 0 <= k < v.len() ==> v[k] != '-',
        x + (seq!['-'] + y) == v + (seq!['-'] + w),
    ensures
        x == v,
        y == w,
{
    let s = x + (seq!['-'] + y);
    let t = v + (seq!['-'] + w);
    assert(s[x.len() as int] == '-');
    assert(t[v.len() as int] == '-');
    if x.len() < v.len() {
        assert(t[x.len() as int] == v[x.len() as int]);
    }
    if v.len() < x.len() {
        assert(s[v.len() as int] == x[v.len() as int]);
    }
    assert(x =~= s.take(x.len() as int));
    assert(v =~= t.take(v.len() as int));
    assert(y =~= s.skip(x.len() as int + 1));
    assert(w =~= t.skip(v.len() as int + 1));
}

/// Different picks make different subdomains, so a list of `n` words makes `n` to the fourth
/// power of them.
pub proof fn law_picks_determine_subdomain(
    words: Seq<Seq<char>>,
    p: (int, int, int, int),
    q: (int, int, int, int),
)
    requires
        distinct_and_plain(words),
        in_list(p, words.len()),
        in_list(q, words.len()),
        subdomain_of(words, p) == subdomain_of(words, q),
    ensures
        p == q,
{
    let (a, b, c, d) = p;
    let (e, f, g, h) = q;
    let dash = seq!['-'];
    lemma_split_at_hyphen(
        words[a],
        words[b] + (dash + (words[c] + (dash + words[d]))),
        words[e],
        words[f] + (dash + (words[g] + (dash + words[h]))),
    );
    lemma_split_at_hyphen(
        words[b],
        words[c] + (dash + words[d]),
        words[f],
        words[g] + (dash + words[h]),
    );
    lemma_split_at_hyphen(words[c], words[d], words[g], words[h]);
}

/// A list that is long enough offers at least ten to the sixteenth subdomains.
pub proof fn law_enough_combinations(words: Seq<Seq<char>>)
    requires
        words.len() >= MIN_WORDS,
    ensures
        words.len() * words.len() * words.len() * words.len() >= 10_000_000_000_000_000,
{
    let n = words.len() as int;
    assert(n * n >= 104857600) by (nonlinear_arith)
        requires
            n >= 10240,
    ;
    let m = n * n;
    assert(m * m >= 10995116277760000) by (nonlinear_arith)
        requires
            m >= 104857600,
    ;
    assert(n * n * n * n == (n * n) * (n * n)) by (nonlinear_arith);
}

/// A subdomain of words without dots is a single label of a host name.
pub proof fn law_subdomain_has_no_dot(words: Seq<Seq<char>>, s: Seq<char>, k: int)
    requires
        is_subdomain(words, s),
        forall|i: int, j: int|
            0 <= i < words.len() && 0 <= j < words[i].len() ==> #[trigger] words[i][j] != '.',
        0 <= k < s.len(),
    ensures
        s[k] != '.',
{
    let p = choose|p: (int, int, int, int)|
        #![trigger subdomain_of(words, p)]
        in_list(p, words.len()) && s == subdomain_of(words, p);
    let (a, b, c, d) = p;
    let cd = words[c] + (seq!['-'] + words[d]);
    let bcd = words[b] + (seq!['-'] + cd);
    assert(s == words[a] + (seq!['-'] + bcd));
    if k < words[a].len() {
        assert(s[k] == words[a][k]);
    } else if k > words[a].len() {
        let k1 = k - words[a].len() - 1;
        assert(s[k] == bcd[k1]);
        if k1 < words[b].len() {
            assert(bcd[k1] == words[b][k1]);
        } else if k1 > words[b].len() {
            let k2 = k1 - words[b].len() - 1;
            assert(bcd[k1] == cd[k2]);
            if k2 < words[c].len() {
                assert(cd[k2] == words[c][k2]);
            } else if k2 > words[c].len() {
                assert(cd[k2] == words[d][k2 - words[c].len() - 1]);
            }
        }
    }
}

/// Whether a text is these four words of a list, with hyphens between them.
pub open spec fn made_of(
    words: Seq<Seq<char>>,
    a: int,
    b: int,
    c: int,
    d: int,
    s: Seq<char>,
) -> bool {
    &&& 0 <= a < words.len()
    &&& 0 <= b < words.len()
    &&& 0 <= c < words.len()
    &&& 0 <= d < words.len()
    &&& s == words[a] + "-"@ + words[b] + "-"@ + words[c] + "-"@ + words[d]
}

/// Four picks make those four words, in that order, with hyphens between them; and a text is a
/// subdomain of the list exactly if it is made so.
pub proof fn law_subdomain_is_four_words(
    words: Seq<Seq<char>>,
    picks: (int, int, int, int),
    s: Seq<char>,
)
    ensures
        in_list(picks, words.len()) ==> made_of(
            words,
            picks.0,
            picks.1,
            picks.2,
            picks.3,
            subdomain_of(words, picks),
        ),
        is_subdomain(words, s) <==> exists|a: int, b: int, c: int, d: int|
            made_of(words, a, b, c, d, s),
{
    lemma_hyphenated(words, picks);
    if is_subdomain(words, s) {
        let p = choose|p: (int, int, int, int)|
            #![trigger subdomain_of(words, p)]
            in_list(p, words.len()) && s == subdomain_of(words, p);
        lemma_hyphenated(words, p);
        assert(made_of(words, p.0, p.1, p.2, p.3, s));
    }
    if exists|a: int, b: int, c: int, d: int| made_of(words, a, b, c, d, s) {
        let (a, b, c, d) = choose|a: int, b: int, c: int, d: int| made_of(words, a, b, c, d, s);
        lemma_hyphenated(words, (a, b, c, d));
        assert(s == subdomain_of(words, (a, b, c, d)));
    }
}

/// Joining from either end is the same.
proof fn lemma_hyphenated(words: Seq<Seq<char>>, picks: (int, int, int, int))
    ensures
        subdomain_of(words, picks) == words[picks.0] + "-"@ + words[picks.1] + "-"@ + words[picks.2]
            + "-"@ + words[picks.3],
{
    reveal_strlit("-");
    assert("-"@ =~= seq!['-']);
    assert(subdomain_of(words, picks) =~= words[picks.0] + "-"@ + words[picks.1] + "-"@
        + words[picks.2] + "-"@ + words[picks.3]);
}

/// The words of a text are those of its first line, if that has one, and then those of the rest:
/// each line's text without the white space around it, and no line without text.
pub proof fn law_words_line_by_line(line: Seq<char>, rest: Seq<char>)
    requires
        !line.contains('\n'),
    ensures
        words_in(line) == if trim(line).len() > 0 {
            seq![trim(line)]
        } else {
            Seq::empty()
        },
        words_in(line + seq!['\n'] + rest) == words_in(line) + words_in(rest),
{
    let whole = line + seq!['\n'] + rest;
    lemma_first_from(line, '\n', 0);
    lemma_first_from(whole, '\n', 0);
    let at = first_from(whole, '\n', 0);
    assert(whole[line.len() as int] == '\n');
    if at < line.len() {
        assert(whole[at] == line[at]);
        assert(line.contains(line[at]));
    }
    if first_from(line, '\n', 0) < line.len() {
        assert(line.contains(line[first_from(line, '\n', 0)]));
    }
    assert(whole.take(at) =~= line);
    assert(whole.skip(at + 1) =~= rest);
    let trimming = |l: Seq<char>| trim(l);
    let full = |word: Seq<char>| word.len() > 0;
    assert(split_on(line, '\n') == seq![line]);
    assert(split_on(whole, '\n') == seq![line] + split_on(rest, '\n'));
    let first = seq![line].map_values(trimming);
    let others = split_on(rest, '\n').map_values(trimming);
    assert(split_on(whole, '\n').map_values(trimming) =~= first + others);
    Seq::filter_distributes_over_add(first, others, full);
    reveal_with_fuel(Seq::<_>::filter, 2);
    assert(first.drop_last() =~= Seq::<Seq<char>>::empty());
    assert(first.last() == trim(line));
    assert(first.filter(full) =~= words_in(line));
}

/// A list of strings has the texts of its strings, in order.
pub proof fn law_texts_in_order(v: Seq<String>, i: int)
    requires
        0 <= i < v.len(),
    ensures
        texts(v).len() == v.len(),
        texts(v)[i] == v[i]@,
{
}

} // verus!
