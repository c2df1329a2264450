use vstd::prelude::*;

verus! {

/// Appends one character to a string (std's `String::push`).
#[verifier::external_body]
pub(crate) fn push_char(s: &mut String, c: char)
    ensures
        final(s)@ == old(s)@.push(c),
{
    s.push(c);
}

/// The characters of `s`, in order.
pub fn chars_of(s: &str) -> (res: Vec<char>)
    ensures
        res@ == s@,
{
    let mut res: Vec<char> = Vec::new();
    for c in it: s.chars()
        invariant
            res@ == it.seq().take(it.index() as int),
    {
        res.push(c);
    }
    res
}

/// A string holding the characters of `cs`, in order.
pub fn string_of(cs: &Vec<char>) -> (res: String)
    ensures
        res@ == cs@,
{
    let mut res = String::new();
    let mut i: usize = 0;
    while i < cs.len()
        invariant
            i <= cs.len(),
            res@ == cs@.take(i as int),
        decreases cs.len() - i,
    {
        push_char(&mut res, cs[i]);
        i = i + 1;
        assert(res@ == cs@.take(i as int));
    }
    assert(cs@.take(cs.len() as int) == cs@);
    res
}

// ---------------------------------------------------------------------------
// Decimal numbers
// ---------------------------------------------------------------------------

pub open spec fn is_ascii_digit(c: char) -> bool {
    '0' <= c && c <= '9'
}

pub open spec fn all_ascii_digits(s: Seq<char>) -> bool {
    forall|i: int| 0 <= i < s.len() ==> is_ascii_digit(#[trigger] s[i])
}

pub open spec fn digit_value(c: char) -> nat {
    (c as int - '0' as int) as nat
}

/// The value of a sequence of decimal digits, most significant first.
pub open spec fn digits_value(s: Seq<char>) -> nat
    decreases s.len(),
{
    if s.len() == 0 {
        0
    } else {
        digits_value(s.drop_last()) * 10 + digit_value(s.last())
    }
}

/// What std's `FromStr` for an unsigned integer reads from `s` before its
/// range check: an optional `+`, then one or more ASCII digits.
pub open spec fn unsigned_value(s: Seq<char>) -> Option<nat> {
    let d = if s.len() > 0 && s[0] == '+' { s.drop_first() } else { s };
    if d.len() > 0 && all_ascii_digits(d) {
        Some(digits_value(d))
    } else {
        None
    }
}

/// What std's `FromStr` for a signed integer reads from `s` before its
/// range check: an optional sign, then one or more ASCII digits.
pub open spec fn signed_value(s: Seq<char>) -> Option<int> {
    if s.len() > 0 && s[0] == '-' {
        let d = s.drop_first();
        if d.len() > 0 && all_ascii_digits(d) {
            Some(-(digits_value(d) as int))
        } else {
            None
        }
    } else {
        match unsigned_value(s) {
            Some(n) => Some(n as int),
            None => None,
        }
    }
}

/// `s.parse::<u16>()`, as an option.
pub open spec fn parse_u16_spec(s: Seq<char>) -> Option<u16> {
    match unsigned_value(s) {
        Some(n) => if n <= u16::MAX { Some(n as u16) } else { None },
        None => None,
    }
}

/// `s.parse::<u64>()`, as an option.
pub open spec fn parse_u64_spec(s: Seq<char>) -> Option<u64> {
    match unsigned_value(s) {
        Some(n) => if n <= u64::MAX { Some(n as u64) } else { None },
        None => None,
    }
}

/// `s.parse::<usize>()`, as an option.
pub open spec fn parse_usize_spec(s: Seq<char>) -> Option<usize> {
    match unsigned_value(s) {
        Some(n) => if n <= usize::MAX { Some(n as usize) } else { None },
        None => None,
    }
}

/// `s.parse::<i64>()`, as an option.
pub open spec fn parse_i64_spec(s: Seq<char>) -> Option<i64> {
    match signed_value(s) {
        Some(n) => if i64::MIN <= n <= i64::MAX { Some(n as i64) } else { None },
        None => None,
    }
}

proof fn lemma_digits_value_prefix_le(s: Seq<char>, k: int)
    requires
        0 <= k <= s.len(),
        all_ascii_digits(s),
    ensures
        digits_value(s.take(k)) <= digits_value(s),
    decreases s.len(),
{
    if k < s.len() {
        assert(s.drop_last().take(k) == s.take(k));
        assert(all_ascii_digits(s.drop_last()));
        lemma_digits_value_prefix_le(s.drop_last(), k);
    } else {
        assert(s.take(k) == s);
    }
}

/// The value of the digits `s[start..]`, when they are one or more ASCII
/// digits whose value is at most `limit`.
fn read_digits(s: &Vec<char>, start: usize, limit: u64) -> (res: Option<u64>)
    requires
        start <= s.len(),
    ensures
        ({
            let d = s@.skip(start as int);
            res == (if d.len() > 0 && all_ascii_digits(d) && digits_value(d) <= limit {
                Some(digits_value(d) as u64)
            } else {
                None
            })
        }),
{
    let ghost d = s@.skip(start as int);
    if start == s.len() {
        return None;
    }
    let mut acc: u64 = 0;
    let mut i: usize = start;
    while i < s.len()
        invariant
            start <= i <= s.len(),
            d == s@.skip(start as int),
            all_ascii_digits(d.take(i - start)),
            acc as nat == digits_value(d.take(i - start)),
            acc <= limit,
        decreases s.len() - i,
    {
        let c = s[i];
        if !('0' <= c && c <= '9') {
            assert(d[i - start] == c);
            return None;
        }
        let v = (c as u32 - '0' as u32) as u64;
        assert(d.take(i - start + 1).drop_last() == d.take(i - start));
        assert(d.take(i - start + 1).last() == c);
        let next: u128 = acc as u128 * 10 + v as u128;
        if next > limit as u128 {
            proof {
                if all_ascii_digits(d) {
                    lemma_digits_value_prefix_le(d, i - start + 1);
                }
            }
            return None;
        }
        acc = next as u64;
        i = i + 1;
    }
    assert(d.take(i - start) == d);
    Some(acc)
}


/// Index of the first digit: past a leading `+`.
fn unsigned_start(s: &Vec<char>) -> (start: usize)
    ensures
        start <= s.len(),
        s@.skip(start as int) == (if s@.len() > 0 && s@[0] == '+' { s@.drop_first() } else { s@ }),
{
    if s.len() > 0 && s[0] == '+' {
        1
    } else {
        assert(s@.skip(0) == s@);
        0
    }
}

/// `s.parse::<u64>().ok()`.
pub fn parse_u64(s: &Vec<char>) -> (res: Option<u64>)
    ensures
        res == parse_u64_spec(s@),
{
    let start = unsigned_start(s);
    read_digits(s, start, u64::MAX)
}

/// `s.parse::<u16>().ok()`.
pub fn parse_u16(s: &Vec<char>) -> (res: Option<u16>)
    ensures
        res == parse_u16_spec(s@),
{
    let start = unsigned_start(s);
    match read_digits(s, start, u16::MAX as u64) {
        Some(v) => Some(v as u16),
        None => None,
    }
}

/// `s.parse::<usize>().ok()`.
pub fn parse_usize(s: &Vec<char>) -> (res: Option<usize>)
    ensures
        res == parse_usize_spec(s@),
{
    let start = unsigned_start(s);
    match read_digits(s, start, usize::MAX as u64) {
        Some(v) => Some(v as usize),
        None => None,
    }
}

/// `s.parse::<i64>().ok()`.
pub fn parse_i64(s: &Vec<char>) -> (res: Option<i64>)
    ensures
        res == parse_i64_spec(s@),
{
    if s.len() > 0 && s[0] == '-' {
        assert(s@.skip(1) == s@.drop_first());
        match read_digits(s, 1, 0x8000_0000_0000_0000u64) {
            Some(m) => {
                if m == 0x8000_0000_0000_0000u64 {
                    Some(i64::MIN)
                } else {
                    Some(-(m as i64))
                }
            },
            None => None,
        }
    } else {
        let start = unsigned_start(s);
        match read_digits(s, start, i64::MAX as u64) {
            Some(v) => Some(v as i64),
            None => None,
        }
    }
}

/// The ASCII digit for `d < 10`.
pub open spec fn digit_char(d: nat) -> char {
    (d + 48) as char
}

/// `n` written in decimal, most significant digit first, no leading zeros.
pub open spec fn decimal_text(n: nat) -> Seq<char>
    decreases n,
{
    if n < 10 {
        seq![digit_char(n)]
    } else {
        decimal_text(n / 10).push(digit_char(n % 10))
    }
}

/// `n` written in decimal with a leading `-` when negative (what `to_string` gives).
pub open spec fn signed_text(n: int) -> Seq<char> {
    if n < 0 {
        seq!['-'] + decimal_text((-n) as nat)
    } else {
        decimal_text(n as nat)
    }
}

fn digit_of(d: u64) -> (c: char)
    requires
        d < 10,
    ensures
        c == digit_char(d as nat),
{
    let b: u8 = 48u8 + d as u8;
    b as char
}

/// `n.to_string()`, as characters.
pub fn u64_text(n: u64) -> (res: Vec<char>)
    ensures
        res@ == decimal_text(n as nat),
    decreases n,
{
    if n < 10 {
        let mut v: Vec<char> = Vec::new();
        v.push(digit_of(n));
        assert(v@ == seq![digit_char(n as nat)]);
        v
    } else {
        let mut v = u64_text(n / 10);
        v.push(digit_of(n % 10));
        v
    }
}

/// `n.to_string()`, as characters.
pub fn i64_text(n: i64) -> (res: Vec<char>)
    ensures
        res@ == signed_text(n as int),
{
    if n < 0 {
        let m: u64 = if n == i64::MIN {
            0x8000_0000_0000_0000u64
        } else {
            (-n) as u64
        };
        let digits = u64_text(m);
        let mut v: Vec<char> = Vec::new();
        v.push('-');
        let mut i: usize = 0;
        while i < digits.len()
            invariant
                i <= digits.len(),
                v@ == seq!['-'] + digits@.take(i as int),
            decreases digits.len() - i,
        {
            v.push(digits[i]);
            i = i + 1;
            assert(v@ == seq!['-'] + digits@.take(i as int));
        }
        assert(digits@.take(digits.len() as int) == digits@);
        v
    } else {
        u64_text(n as u64)
    }
}

/// The decimal text of a number reads back as that number.
pub proof fn lemma_decimal_text_digits(n: nat)
    ensures
        decimal_text(n).len() > 0,
        all_ascii_digits(decimal_text(n)),
        digits_value(decimal_text(n)) == n,
        decimal_text(n)[0] != '+',
        decimal_text(n)[0] != '-',
    decreases n,
{
    if n >= 10 {
        lemma_decimal_text_digits(n / 10);
        let t = decimal_text(n);
        assert(t.drop_last() == decimal_text(n / 10));
        assert(t[0] == decimal_text(n / 10)[0]);
        assert(digit_value(digit_char(n % 10)) == n % 10);
        assert(n == (n / 10) * 10 + n % 10);
        assert(t.last() == digit_char(n % 10));
        assert(digits_value(t) == digits_value(t.drop_last()) * 10 + digit_value(t.last()));
        assert(digits_value(t.drop_last()) == n / 10);
    } else {
        let t = decimal_text(n);
        assert(digit_value(digit_char(n)) == n);
        assert(t.drop_last().len() == 0);
        assert(digits_value(t.drop_last()) == 0);
    }
}

/// Writing an unsigned number in decimal and parsing it back gives the number.
pub proof fn lemma_u64_text_parses_back(n: u64)
    ensures
        parse_u64_spec(decimal_text(n as nat)) == Some(n),
{
    lemma_decimal_text_digits(n as nat);
}

/// Writing a signed number in decimal and parsing it back gives the number.
pub proof fn lemma_i64_text_parses_back(n: i64)
    ensures
        parse_i64_spec(signed_text(n as int)) == Some(n),
{
    if n < 0 {
        lemma_decimal_text_digits((-n) as nat);
        let t = signed_text(n as int);
        assert(t.drop_first() == decimal_text((-n) as nat));
    } else {
        lemma_decimal_text_digits(n as nat);
    }
}


/// `format!("{:02}", n)`: zero-padded to at least two characters.
pub open spec fn pad2_text(n: int) -> Seq<char> {
    if 0 <= n < 10 {
        seq!['0', digit_char(n as nat)]
    } else {
        signed_text(n)
    }
}

/// `format!("{:02}", n)`, as characters.
pub fn pad2(n: i64) -> (res: Vec<char>)
    ensures
        res@ == pad2_text(n as int),
{
    if 0 <= n && n < 10 {
        let mut v: Vec<char> = Vec::new();
        v.push('0');
        v.push(digit_of(n as u64));
        assert(v@ == seq!['0', digit_char(n as nat)]);
        v
    } else {
        i64_text(n)
    }
}

// ---------------------------------------------------------------------------
// Searching and replacing
// ---------------------------------------------------------------------------

/// `pat` stands in `s` at index `i`.
pub open spec fn occurs_at(s: Seq<char>, pat: Seq<char>, i: int) -> bool {
    0 <= i && i + pat.len() <= s.len() && s.subrange(i, i + pat.len()) == pat
}

/// The first index at or after `i` where `pat` stands in `s`.
pub open spec fn find_from(s: Seq<char>, pat: Seq<char>, i: int) -> Option<int>
    decreases s.len() + 1 - i,
{
    if i < 0 || i + pat.len() > s.len() {
        None
    } else if occurs_at(s, pat, i) {
        Some(i)
    } else {
        find_from(s, pat, i + 1)
    }
}

/// The first index where `pat` stands in `s`.
pub open spec fn first_occurrence(s: Seq<char>, pat: Seq<char>) -> Option<int> {
    find_from(s, pat, 0)
}

/// `s.replacen(pat, rep, 1)`: the first occurrence of `pat` replaced by `rep`.
pub open spec fn replace_first_text(s: Seq<char>, pat: Seq<char>, rep: Seq<char>) -> Seq<char> {
    match first_occurrence(s, pat) {
        Some(i) => s.take(i) + rep + s.skip(i + pat.len()),
        None => s,
    }
}

proof fn lemma_find_from(s: Seq<char>, pat: Seq<char>, i: int)
    requires
        0 <= i,
    ensures
        find_from(s, pat, i) matches Some(k) ==> i <= k && occurs_at(s, pat, k) && forall|j: int|
            i <= j < k ==> !occurs_at(s, pat, j),
        find_from(s, pat, i) is None ==> forall|j: int| i <= j ==> !occurs_at(s, pat, j),
    decreases s.len() + 1 - i,
{
    if i + pat.len() > s.len() {
    } else if occurs_at(s, pat, i) {
    } else {
        lemma_find_from(s, pat, i + 1);
    }
}

/// The first occurrence is where `pat` stands, and it stands nowhere before;
/// when there is none, it stands nowhere.
pub proof fn lemma_first_occurrence(s: Seq<char>, pat: Seq<char>)
    ensures
        first_occurrence(s, pat) matches Some(k) ==> occurs_at(s, pat, k) && forall|j: int|
            0 <= j < k ==> !occurs_at(s, pat, j),
        first_occurrence(s, pat) is None ==> forall|j: int| !occurs_at(s, pat, j),
{
    lemma_find_from(s, pat, 0);
}

/// Whether `pat` stands in `s` at index `i`.
pub fn matches_at(s: &Vec<char>, pat: &Vec<char>, i: usize) -> (res: bool)
    ensures
        res == occurs_at(s@, pat@, i as int),
{
    if i > s.len() || pat.len() > s.len() - i {
        return false;
    }
    let mut j: usize = 0;
    while j < pat.len()
        invariant
            i + pat.len() <= s.len(),
            j <= pat.len(),
            forall|k: int| 0 <= k < j ==> s@[i + k] == pat@[k],
        decreases pat.len() - j,
    {
        if s[i + j] != pat[j] {
            assert(s@.subrange(i as int, i + pat.len())[j as int] != pat@[j as int]);
            return false;
        }
        j = j + 1;
    }
    assert(s@.subrange(i as int, i + pat.len()) =~= pat@);
    true
}

/// The first index where `pat` stands in `s`, if any.
pub fn find_first(s: &Vec<char>, pat: &Vec<char>) -> (res: Option<usize>)
    ensures
        res matches Some(k) ==> first_occurrence(s@, pat@) == Some(k as int),
        res is None ==> first_occurrence(s@, pat@) is None,
{
    if pat.len() > s.len() {
        return None;
    }
    if pat.len() == 0 {
        assert(s@.subrange(0, 0) =~= pat@);
        return Some(0);
    }
    let mut i: usize = 0;
    while i <= s.len() - pat.len()
        invariant
            0 < pat.len() <= s.len(),
            i <= s.len() - pat.len() + 1,
            find_from(s@, pat@, 0) == find_from(s@, pat@, i as int),
        decreases s.len() + 1 - i,
    {
        if matches_at(s, pat, i) {
            return Some(i);
        }
        i = i + 1;
    }
    None
}

/// `s.replacen(pat, rep, 1)`, as characters.
pub fn replace_first(s: &Vec<char>, pat: &Vec<char>, rep: &Vec<char>) -> (res: Vec<char>)
    ensures
        res@ == replace_first_text(s@, pat@, rep@),
{
    match find_first(s, pat) {
        Some(k) => {
            proof {
                lemma_first_occurrence(s@, pat@);
            }
            let mut out: Vec<char> = Vec::new();
            let mut i: usize = 0;
            while i < k
                invariant
                    k + pat.len() <= s.len(),
                    i <= k,
                    out@ == s@.take(i as int),
                decreases k - i,
            {
                out.push(s[i]);
                i = i + 1;
                assert(out@ == s@.take(i as int));
            }
            let mut j: usize = 0;
            while j < rep.len()
                invariant
                    j <= rep.len(),
                    out@ == s@.take(k as int) + rep@.take(j as int),
                decreases rep.len() - j,
            {
                out.push(rep[j]);
                j = j + 1;
                assert(out@ == s@.take(k as int) + rep@.take(j as int));
            }
            assert(rep@.take(rep.len() as int) == rep@);
            let mut m: usize = k + pat.len();
            while m < s.len()
                invariant
                    k + pat.len() <= m <= s.len(),
                    out@ == s@.take(k as int) + rep@ + s@.subrange(k + pat.len(), m as int),
                decreases s.len() - m,
            {
                out.push(s[m]);
                m = m + 1;
                assert(out@ == s@.take(k as int) + rep@ + s@.subrange(k + pat.len(), m as int));
            }
            assert(s@.subrange(k + pat.len(), s.len() as int) == s@.skip(k + pat.len()));
            out
        },
        None => s.clone(),
    }
}

/// `s.replacen(pat, rep, 1)`.
pub fn replace_first_str(s: &str, pat: &str, rep: &str) -> (res: String)
    ensures
        res@ == replace_first_text(s@, pat@, rep@),
{
    let r = replace_first(&chars_of(s), &chars_of(pat), &chars_of(rep));
    string_of(&r)
}

/// Every `from` in `s` replaced by `to`.
pub open spec fn replace_char_text(s: Seq<char>, from: char, to: char) -> Seq<char> {
    s.map_values(|c: char| if c == from { to } else { c })
}

/// `s.replace(from, to)` for one-character patterns, as characters.
pub fn replace_char(s: &Vec<char>, from: char, to: char) -> (res: Vec<char>)
    ensures
        res@ == replace_char_text(s@, from, to),
{
    let mut out: Vec<char> = Vec::new();
    let mut i: usize = 0;
    while i < s.len()
        invariant
            i <= s.len(),
            out@ == replace_char_text(s@.take(i as int), from, to),
        decreases s.len() - i,
    {
        let c = s[i];
        out.push(if c == from { to } else { c });
        i = i + 1;
        assert(out@ =~= replace_char_text(s@.take(i as int), from, to));
    }
    assert(s@.take(s.len() as int) == s@);
    out
}

// ---------------------------------------------------------------------------
// Splitting and joining
// ---------------------------------------------------------------------------

/// `s.split(sep)`: the pieces between separators, empty ones included.
pub open spec fn split_text(s: Seq<char>, sep: char) -> Seq<Seq<char>>
    decreases s.len(),
{
    if s.len() == 0 {
        seq![Seq::<char>::empty()]
    } else {
        let init = split_text(s.drop_last(), sep);
        if s.last() == sep {
            init.push(Seq::<char>::empty())
        } else {
            init.update(init.len() - 1, init.last().push(s.last()))
        }
    }
}

proof fn lemma_split_text_nonempty(s: Seq<char>, sep: char)
    ensures
        split_text(s, sep).len() > 0,
    decreases s.len(),
{
    if s.len() > 0 {
        lemma_split_text_nonempty(s.drop_last(), sep);
    }
}

/// The pieces of `ps` that are not empty, in order.
pub open spec fn nonempty_pieces(ps: Seq<Seq<char>>) -> Seq<Seq<char>>
    decreases ps.len(),
{
    if ps.len() == 0 {
        Seq::empty()
    } else {
        let init = nonempty_pieces(ps.drop_last());
        if ps.last().len() > 0 {
            init.push(ps.last())
        } else {
            init
        }
    }
}

/// `s.split(sep).filter(|w| !w.is_empty())`.
pub open spec fn words_text(s: Seq<char>, sep: char) -> Seq<Seq<char>> {
    nonempty_pieces(split_text(s, sep))
}

/// The characters held by each vector.
pub open spec fn seqs(v: Seq<Vec<char>>) -> Seq<Seq<char>> {
    v.map_values(|x: Vec<char>| x@)
}

/// `s.split(sep)`, as character vectors.
pub fn split_chars(s: &Vec<char>, sep: char) -> (res: Vec<Vec<char>>)
    ensures
        seqs(res@) == split_text(s@, sep),
{
    let mut done: Vec<Vec<char>> = Vec::new();
    let mut cur: Vec<char> = Vec::new();
    let mut i: usize = 0;
    while i < s.len()
        invariant
            i <= s.len(),
            seqs(done@).push(cur@) == split_text(s@.take(i as int), sep),
        decreases s.len() - i,
    {
        let c = s[i];
        proof {
            assert(s@.take(i + 1).drop_last() == s@.take(i as int));
        }
        if c == sep {
            let piece = cur;
            done.push(piece);
            cur = Vec::new();
            assert(seqs(done@).push(cur@) =~= split_text(s@.take(i + 1), sep));
        } else {
            cur.push(c);
            assert(seqs(done@).push(cur@) =~= split_text(s@.take(i + 1), sep));
        }
        i = i + 1;
    }
    assert(s@.take(s.len() as int) == s@);
    done.push(cur);
    done
}

/// `s.split(sep).filter(|w| !w.is_empty())`, as character vectors.
pub fn words(s: &Vec<char>, sep: char) -> (res: Vec<Vec<char>>)
    ensures
        seqs(res@) == words_text(s@, sep),
{
    let pieces = split_chars(s, sep);
    let mut out: Vec<Vec<char>> = Vec::new();
    let mut i: usize = 0;
    while i < pieces.len()
        invariant
            i <= pieces.len(),
            seqs(pieces@) == split_text(s@, sep),
            seqs(out@) == nonempty_pieces(seqs(pieces@).take(i as int)),
        decreases pieces.len() - i,
    {
        proof {
            assert(seqs(pieces@).take(i + 1).drop_last() == seqs(pieces@).take(i as int));
        }
        if pieces[i].len() > 0 {
            out.push(pieces[i].clone());
            assert(seqs(out@) =~= nonempty_pieces(seqs(pieces@).take(i + 1)));
        } else {
            assert(seqs(out@) =~= nonempty_pieces(seqs(pieces@).take(i + 1)));
        }
        i = i + 1;
    }
    assert(seqs(pieces@).take(pieces.len() as int) == seqs(pieces@));
    out
}

/// The pieces joined with `sep` between neighbours.
pub open spec fn join_text(ps: Seq<Seq<char>>, sep: Seq<char>) -> Seq<char>
    decreases ps.len(),
{
    if ps.len() == 0 {
        Seq::empty()
    } else if ps.len() == 1 {
        ps[0]
    } else {
        join_text(ps.drop_last(), sep) + sep + ps.last()
    }
}

/// `ps.join(sep)`, as characters.
pub fn join(ps: &Vec<Vec<char>>, sep: &Vec<char>) -> (res: Vec<char>)
    ensures
        res@ == join_text(seqs(ps@), sep@),
{
    let mut out: Vec<char> = Vec::new();
    let mut i: usize = 0;
    while i < ps.len()
        invariant
            i <= ps.len(),
            out@ == join_text(seqs(ps@).take(i as int), sep@),
        decreases ps.len() - i,
    {
        if i > 0 {
            append(&mut out, sep);
        }
        append(&mut out, &ps[i]);
        proof {
            let t = seqs(ps@).take(i + 1);
            assert(t.drop_last() == seqs(ps@).take(i as int));
            assert(t.last() == ps[i as int]@);
            if i == 0 {
                assert(t.len() == 1);
                assert(out@ =~= join_text(t, sep@));
            } else {
                assert(out@ =~= join_text(t, sep@));
            }
        }
        i = i + 1;
    }
    assert(seqs(ps@).take(ps.len() as int) == seqs(ps@));
    out
}

/// Appends `more` to `out`.
pub fn append(out: &mut Vec<char>, more: &Vec<char>)
    ensures
        final(out)@ == old(out)@ + more@,
{
    let mut j: usize = 0;
    while j < more.len()
        invariant
            j <= more.len(),
            out@ == old(out)@ + more@.take(j as int),
        decreases more.len() - j,
    {
        out.push(more[j]);
        j = j + 1;
        assert(out@ =~= old(out)@ + more@.take(j as int));
    }
    assert(more@.take(more.len() as int) == more@);
}

/// Whether `a` and `b` hold the same characters.
pub fn chars_eq(a: &Vec<char>, b: &Vec<char>) -> (res: bool)
    ensures
        res == (a@ == b@),
{
    if a.len() != b.len() {
        return false;
    }
    let mut i: usize = 0;
    while i < a.len()
        invariant
            a.len() == b.len(),
            i <= a.len(),
            forall|k: int| 0 <= k < i ==> a@[k] == b@[k],
        decreases a.len() - i,
    {
        if a[i] != b[i] {
            return false;
        }
        i = i + 1;
    }
    assert(a@ =~= b@);
    true
}

/// `s.replace(pat, rep)` for a non-empty `pat`: every occurrence, found from
/// left to right without overlap, replaced by `rep`.
pub open spec fn replace_all_text(s: Seq<char>, pat: Seq<char>, rep: Seq<char>) -> Seq<char>
    decreases s.len(),
{
    if pat.len() == 0 {
        s
    } else {
        match first_occurrence(s, pat) {
            Some(i) => {
                proof {
                    lemma_first_occurrence(s, pat);
                }
                s.take(i) + rep + replace_all_text(s.skip(i + pat.len()), pat, rep)
            },
            None => s,
        }
    }
}

/// `s.replace(pat, rep)`, as characters, for a non-empty `pat`.
pub fn replace_all(s: &Vec<char>, pat: &Vec<char>, rep: &Vec<char>) -> (res: Vec<char>)
    requires
        pat.len() > 0,
    ensures
        res@ == replace_all_text(s@, pat@, rep@),
{
    let mut out: Vec<char> = Vec::new();
    let mut rest: Vec<char> = s.clone();
    while rest.len() > 0
        invariant
            pat.len() > 0,
            out@ + replace_all_text(rest@, pat@, rep@) == replace_all_text(s@, pat@, rep@),
        decreases rest.len(),
    {
        match find_first(&rest, pat) {
            Some(k) => {
                proof {
                    lemma_first_occurrence(rest@, pat@);
                }
                let before = take_chars(&rest, k);
                append(&mut out, &before);
                append(&mut out, rep);
                let after = skip_chars(&rest, k + pat.len());
                assert(out@ + replace_all_text(after@, pat@, rep@) =~= replace_all_text(s@, pat@, rep@));
                rest = after;
            },
            None => {
                append(&mut out, &rest);
                return out;
            },
        }
    }
    proof {
        if first_occurrence(rest@, pat@) is Some {
            lemma_first_occurrence(rest@, pat@);
        }
    }
    assert(out@ =~= replace_all_text(s@, pat@, rep@));
    out
}

/// A copy of `s[..n]`.
pub fn take_chars(s: &Vec<char>, n: usize) -> (res: Vec<char>)
    requires
        n <= s.len(),
    ensures
        res@ == s@.take(n as int),
{
    let mut out: Vec<char> = Vec::new();
    let mut i: usize = 0;
    while i < n
        invariant
            i <= n <= s.len(),
            out@ == s@.take(i as int),
        decreases n - i,
    {
        out.push(s[i]);
        i = i + 1;
        assert(out@ =~= s@.take(i as int));
    }
    out
}

/// A copy of `s[n..]`.
pub fn skip_chars(s: &Vec<char>, n: usize) -> (res: Vec<char>)
    requires
        n <= s.len(),
    ensures
        res@ == s@.skip(n as int),
{
    let mut out: Vec<char> = Vec::new();
    let mut i: usize = n;
    while i < s.len()
        invariant
            n <= i <= s.len(),
            out@ == s@.subrange(n as int, i as int),
        decreases s.len() - i,
    {
        out.push(s[i]);
        i = i + 1;
        assert(out@ =~= s@.subrange(n as int, i as int));
    }
    assert(s@.subrange(n as int, s.len() as int) == s@.skip(n as int));
    out
}

/// The characters held by each string.
pub open spec fn string_seqs(v: Seq<String>) -> Seq<Seq<char>> {
    v.map_values(|x: String| x@)
}

/// The character vectors as strings.
pub fn strings_of(v: &Vec<Vec<char>>) -> (res: Vec<String>)
    ensures
        string_seqs(res@) == seqs(v@),
{
    let mut out: Vec<String> = Vec::new();
    let mut i: usize = 0;
    while i < v.len()
        invariant
            i <= v.len(),
            out@.len() == i,
            forall|k: int| 0 <= k < i ==> #[trigger] out@[k]@ == v@[k]@,
        decreases v.len() - i,
    {
        out.push(string_of(&v[i]));
        i = i + 1;
    }
    assert(string_seqs(out@) =~= seqs(v@));
    out
}

/// The strings as character vectors.
pub fn char_vecs_of(v: &Vec<String>) -> (res: Vec<Vec<char>>)
    ensures
        seqs(res@) == string_seqs(v@),
{
    let mut out: Vec<Vec<char>> = Vec::new();
    let mut i: usize = 0;
    while i < v.len()
        invariant
            i <= v.len(),
            out@.len() == i,
            forall|k: int| 0 <= k < i ==> #[trigger] out@[k]@ == v@[k]@,
        decreases v.len() - i,
    {
        out.push(chars_of(v[i].as_str()));
        i = i + 1;
    }
    assert(seqs(out@) =~= string_seqs(v@));
    out
}

/// `s.split(sep).filter(|w| !w.is_empty())`, collected as strings.
pub fn words_of(s: &str, sep: char) -> (res: Vec<String>)
    ensures
        string_seqs(res@) == words_text(s@, sep),
{
    strings_of(&words(&chars_of(s), sep))
}

/// The characters of a string literal or other `&str`, as a `String`.
pub fn owned(s: &str) -> (res: String)
    ensures
        res@ == s@,
{
    string_of(&chars_of(s))
}

/// Text without the separator splits into one piece: itself.
pub proof fn lemma_split_without_separator(s: Seq<char>, sep: char)
    requires
        forall|i: int| 0 <= i < s.len() ==> #[trigger] s[i] != sep,
    ensures
        split_text(s, sep) == seq![s],
    decreases s.len(),
{
    if s.len() > 0 {
        lemma_split_without_separator(s.drop_last(), sep);
        assert(s.drop_last().push(s.last()) =~= s);
        assert(split_text(s, sep) =~= seq![s]);
    } else {
        assert(s =~= Seq::<char>::empty());
    }
}

/// `s.parse::<i64>().ok()` for a `&str`.
pub fn parse_i64_str(s: &str) -> (res: Option<i64>)
    ensures
        res == parse_i64_spec(s@),
{
    parse_i64(&chars_of(s))
}

} // verus!
