use vstd::prelude::*;
use crate::mention::{is_mention_list, mention_list, slice_chars};
use crate::text::{matches_at, occurs_at};

verus! {

/// A character that regular-expression syntax gives a meaning to outside a
/// character class.
pub open spec fn is_regex_meta(c: char) -> bool {
    c == '\\' || c == '.' || c == '+' || c == '*' || c == '?' || c == '(' || c == ')' || c == '|'
        || c == '[' || c == ']' || c == '{' || c == '}' || c == '^' || c == '$'
}

/// `w` reads as itself when written into a regular expression.
pub open spec fn is_literal_word(w: Seq<char>) -> bool {
    forall|i: int| 0 <= i < w.len() ==> !is_regex_meta(#[trigger] w[i])
}

/// No line break in `t`: what `.*` can match.
pub open spec fn no_newline(t: Seq<char>) -> bool {
    forall|i: int| 0 <= i < t.len() ==> #[trigger] t[i] != '\n'
}

/// What the second group of the pattern accepts as the rest of the text: a
/// run of mentions (`((?:<@\d+>)|(?:<@!\d+>)|(?:<#\d+>)|(?:\s+))+`) when
/// `mentions`, otherwise any text without a line break (`.*`).
pub open spec fn tail_ok(t: Seq<char>, mentions: bool) -> bool {
    if mentions {
        is_mention_list(t)
    } else {
        no_newline(t)
    }
}

/// `" " + word + " "`: the marker between the two groups.
pub open spec fn marker(word: Seq<char>) -> Seq<char> {
    seq![' '] + word + seq![' ']
}

/// The marker stands at `i` and the rest of `s` after it fits the tail.
pub open spec fn marker_at(s: Seq<char>, word: Seq<char>, i: int, mentions: bool) -> bool {
    occurs_at(s, marker(word), i) && tail_ok(s.skip(i + word.len() + 2), mentions)
}

/// The match of `(?P<a>.*) word (?P<b>TAIL)$` that a regular-expression search
/// reports has its first group at `s[st..i]`: the match starts as early as any
/// match can (`st` begins a line, and no marker fits before it), and the greedy
/// `.*` runs to the last marker that fits before the line ends.
pub open spec fn phrase_split_at(s: Seq<char>, word: Seq<char>, mentions: bool, st: int, i: int) -> bool {
    &&& 0 <= st <= i
    &&& (st == 0 || s[st - 1] == '\n')
    &&& no_newline(s.subrange(st, i))
    &&& marker_at(s, word, i, mentions)
    &&& forall|j: int| 0 <= j < st ==> !#[trigger] marker_at(s, word, j, mentions)
    &&& forall|j: int|
        i < j && #[trigger] marker_at(s, word, j, mentions) ==> !no_newline(s.subrange(st, j))
}

/// The two groups that `(?P<a>.*) word (?P<b>TAIL)$` captures in `s`, when it
/// matches, for a `word` without regular-expression syntax.
pub open spec fn phrase_split_spec(s: Seq<char>, word: Seq<char>, mentions: bool) -> Option<
    (Seq<char>, Seq<char>),
> {
    if exists|st: int, i: int| phrase_split_at(s, word, mentions, st, i) {
        let (st, i) = choose|st: int, i: int| phrase_split_at(s, word, mentions, st, i);
        Some((s.subrange(st, i), s.skip(i + word.len() + 2)))
    } else {
        None
    }
}

proof fn lemma_phrase_split_unique(
    s: Seq<char>,
    word: Seq<char>,
    mentions: bool,
    st1: int,
    i1: int,
    st2: int,
    i2: int,
)
    requires
        phrase_split_at(s, word, mentions, st1, i1),
        phrase_split_at(s, word, mentions, st2, i2),
    ensures
        st1 == st2 && i1 == i2,
{
    if st1 < st2 {
        assert(!marker_at(s, word, i1, mentions) || i1 >= st2);
        assert(s.subrange(st1, i1)[st2 - 1 - st1] == s[st2 - 1]);
    }
    if st2 < st1 {
        assert(!marker_at(s, word, i2, mentions) || i2 >= st1);
        assert(s.subrange(st2, i2)[st1 - 1 - st2] == s[st1 - 1]);
    }
    if i1 < i2 {
        assert(marker_at(s, word, i2, mentions));
    }
    if i2 < i1 {
        assert(marker_at(s, word, i1, mentions));
    }
}

/// Whether no character of `s[from..to]` is a line break.
fn line_clear(s: &Vec<char>, from: usize, to: usize) -> (res: bool)
    requires
        from <= to <= s.len(),
    ensures
        res == no_newline(s@.subrange(from as int, to as int)),
{
    let mut k = from;
    while k < to
        invariant
            from <= k <= to <= s.len(),
            no_newline(s@.subrange(from as int, k as int)),
        decreases to - k,
    {
        if s[k] == '\n' {
            assert(s@.subrange(from as int, to as int)[k - from] == '\n');
            return false;
        }
        k = k + 1;
        assert(forall|x: int| 0 <= x < k - from ==> s@.subrange(from as int, k as int)[x] == s@[from + x]);
    }
    true
}

/// Whether the marker stands at `i` and the rest fits the tail.
fn marker_fits(s: &Vec<char>, mark: &Vec<char>, i: usize, mentions: bool, Ghost(word): Ghost<Seq<char>>) -> (res: bool)
    requires
        mark@ == marker(word),
        i <= s.len(),
    ensures
        res == marker_at(s@, word, i as int, mentions),
{
    if !matches_at(s, mark, i) {
        return false;
    }
    let rest_start = i + mark.len();
    assert(s@.subrange(rest_start as int, s.len() as int) == s@.skip(i + word.len() + 2));
    if mentions {
        let rest = slice_chars(s, rest_start, s.len());
        mention_list(&rest)
    } else {
        line_clear(s, rest_start, s.len())
    }
}

/// The two groups that `(?P<a>.*) word (?P<b>TAIL)$` captures in `s`, when it
/// matches: the text before the chosen marker and the text after it. `TAIL`
/// is a run of mentions when `mentions`, otherwise `.*`.
pub fn phrase_split(s: &Vec<char>, word: &Vec<char>, mentions: bool) -> (res: Option<(Vec<char>, Vec<char>)>)
    ensures
        match res {
            Some((a, b)) => phrase_split_spec(s@, word@, mentions) == Some((a@, b@)),
            None => phrase_split_spec(s@, word@, mentions) is None,
        },
{
    let ghost w = word@;
    let mut mark: Vec<char> = Vec::new();
    mark.push(' ');
    let mut x: usize = 0;
    while x < word.len()
        invariant
            x <= word.len(),
            mark@ == seq![' '] + word@.take(x as int),
        decreases word.len() - x,
    {
        mark.push(word[x]);
        x = x + 1;
        assert(mark@ =~= seq![' '] + word@.take(x as int));
    }
    mark.push(' ');
    assert(word@.take(word.len() as int) == word@);
    assert(mark@ =~= marker(w));

    // The first marker that fits.
    let mut i: usize = 0;
    let mut found = false;
    while !found && i < s.len()
        invariant
            i <= s.len(),
            mark@ == marker(w),
            found ==> i < s.len() && marker_at(s@, w, i as int, mentions),
            forall|j: int| 0 <= j < i ==> !#[trigger] marker_at(s@, w, j, mentions),
        decreases s.len() - i + (if found { 0int } else { 1int }),
    {
        if marker_fits(s, &mark, i, mentions, Ghost(w)) {
            found = true;
        } else {
            i = i + 1;
        }
    }
    if !found {
        proof {
            if exists|st: int, k: int| phrase_split_at(s@, w, mentions, st, k) {
                let (st, k) = choose|st: int, k: int| phrase_split_at(s@, w, mentions, st, k);
                assert(marker_at(s@, w, k, mentions));
                assert(k < s@.len());
            }
        }
        return None;
    }
    let first = i;

    // The start of the line that holds the first marker.
    let mut st = first;
    while st > 0 && s[st - 1] != '\n'
        invariant
            st <= first < s.len(),
            no_newline(s@.subrange(st as int, first as int)),
        decreases st,
    {
        proof {
            let old_t = s@.subrange(st as int, first as int);
            let t = s@.subrange(st - 1, first as int);
            assert forall|y: int| 0 <= y < t.len() implies #[trigger] t[y] != '\n' by {
                if y > 0 {
                    assert(t[y] == old_t[y - 1]);
                }
            }
        }
        st = st - 1;
    }

    // The last marker that fits before that line ends.
    let mut best = first;
    let mut j: usize = first + 1;
    let mut stopped = false;
    while !stopped && j < s.len()
        invariant
            st <= first <= best < j <= s.len(),
            mark@ == marker(w),
            marker_at(s@, w, best as int, mentions),
            no_newline(s@.subrange(st as int, j - 1)),
            forall|k: int| best < k < j ==> !#[trigger] marker_at(s@, w, k, mentions),
            stopped ==> s@[j - 1] == '\n',
        decreases s.len() - j + (if stopped { 0int } else { 1int }),
    {
        if s[j - 1] == '\n' {
            stopped = true;
        } else {
            proof {
                let old_t = s@.subrange(st as int, j - 1);
                let t = s@.subrange(st as int, j as int);
                assert forall|y: int| 0 <= y < t.len() implies #[trigger] t[y] != '\n' by {
                    if y < t.len() - 1 {
                        assert(t[y] == old_t[y]);
                    }
                }
            }
            if marker_fits(s, &mark, j, mentions, Ghost(w)) {
                best = j;
            }
            j = j + 1;
        }
    }
    proof {
        assert(no_newline(s@.subrange(st as int, best as int))) by {
            assert(forall|y: int| 0 <= y < best - st ==> s@.subrange(st as int, best as int)[y] == s@.subrange(st as int, j - 1)[y]);
        }
        assert forall|k: int| best < k && #[trigger] marker_at(s@, w, k, mentions)
            implies !no_newline(s@.subrange(st as int, k)) by {
            assert(k >= j);
            assert(k < s@.len());
            assert(stopped);
            assert(s@.subrange(st as int, k)[j - 1 - st] == s@[j - 1]);
        }
        assert(phrase_split_at(s@, w, mentions, st as int, best as int));
        let (st2, i2) = choose|st2: int, i2: int| phrase_split_at(s@, w, mentions, st2, i2);
        lemma_phrase_split_unique(s@, w, mentions, st2, i2, st as int, best as int);
    }
    let before = slice_chars(s, st, best);
    let after = slice_chars(s, best + mark.len(), s.len());
    assert(s@.subrange(best + mark.len(), s.len() as int) == s@.skip(best + w.len() + 2));
    Some((before, after))
}

/// The two groups are the text from the start of a line up to the marker, and
/// the whole text after it: the text from that line on is the first group, the
/// marker, and the second group, and the second group fits the tail.
pub proof fn lemma_phrase_split_reassembles(s: Seq<char>, word: Seq<char>, mentions: bool)
    ensures
        phrase_split_spec(s, word, mentions) matches Some((a, b)) ==> exists|st: int|
            0 <= st <= s.len() && (st == 0 || s[st - 1] == '\n') && #[trigger] s.skip(st) == a + marker(word) + b
                && tail_ok(b, mentions) && no_newline(a),
{
    if let Some((a, b)) = phrase_split_spec(s, word, mentions) {
        let (st, i) = choose|st: int, i: int| phrase_split_at(s, word, mentions, st, i);
        let k = word.len() + 2;
        assert(s.subrange(i, i + k) == marker(word));
        assert(s.skip(st) =~= s.subrange(st, i) + s.subrange(i, i + k) + s.skip(i + k));
    }
}

} // verus!
