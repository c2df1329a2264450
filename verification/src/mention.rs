use vstd::prelude::*;
use crate::text::{
    all_ascii_digits, decimal_text, first_occurrence, lemma_first_occurrence, occurs_at, digits_value, lemma_decimal_text_digits, parse_u64, parse_u64_spec,
    string_of, u64_text,
};
use crate::unicode::{decimal_digit, is_decimal_digit, is_white_space, white_space};

verus! {

// ---------------------------------------------------------------------------
// Character classes over runs
// ---------------------------------------------------------------------------

/// Every character of `s` is white space (`\s*`).
pub open spec fn all_white(s: Seq<char>) -> bool {
    forall|i: int| 0 <= i < s.len() ==> is_white_space(#[trigger] s[i])
}

/// `s` is one or more Unicode decimal digits (`\d+`).
pub open spec fn decimal_run(s: Seq<char>) -> bool {
    s.len() > 0 && forall|i: int| 0 <= i < s.len() ==> is_decimal_digit(#[trigger] s[i])
}

/// The end of the white-space run of `s` that starts at `i`.
pub fn skip_white(s: &Vec<char>, i: usize) -> (j: usize)
    requires
        i <= s.len(),
    ensures
        i <= j <= s.len(),
        all_white(s@.subrange(i as int, j as int)),
        j < s.len() ==> !is_white_space(s@[j as int]),
{
    let mut j = i;
    while j < s.len() && white_space(s[j])
        invariant
            i <= j <= s.len(),
            all_white(s@.subrange(i as int, j as int)),
        decreases s.len() - j,
    {
        j = j + 1;
        assert(forall|k: int| i <= k < j ==> s@.subrange(i as int, j as int)[k - i] == s@[k]);
    }
    j
}

/// The end of the decimal-digit run of `s` that starts at `i`.
pub fn skip_decimal(s: &Vec<char>, i: usize) -> (j: usize)
    requires
        i <= s.len(),
    ensures
        i <= j <= s.len(),
        forall|k: int| i <= k < j ==> is_decimal_digit(#[trigger] s@[k]),
        j < s.len() ==> !is_decimal_digit(s@[j as int]),
{
    let mut j = i;
    while j < s.len() && decimal_digit(s[j])
        invariant
            i <= j <= s.len(),
            forall|k: int| i <= k < j ==> is_decimal_digit(#[trigger] s@[k]),
        decreases s.len() - j,
    {
        j = j + 1;
    }
    j
}

/// A copy of `s[from..to]`.
pub fn slice_chars(s: &Vec<char>, from: usize, to: usize) -> (res: Vec<char>)
    requires
        from <= to <= s.len(),
    ensures
        res@ == s@.subrange(from as int, to as int),
{
    let mut out: Vec<char> = Vec::new();
    let mut i = from;
    while i < to
        invariant
            from <= i <= to <= s.len(),
            out@ == s@.subrange(from as int, i as int),
        decreases to - i,
    {
        out.push(s[i]);
        i = i + 1;
        assert(out@ =~= s@.subrange(from as int, i as int));
    }
    out
}

// ---------------------------------------------------------------------------
// `^\s*<#(\d+)>\s*$`: a channel mention and nothing else
// ---------------------------------------------------------------------------

/// `s` is white space, `<#`, the digits `s[a + 2..b]`, `>` and white space.
pub open spec fn channel_mention_at(s: Seq<char>, a: int, b: int) -> bool {
    &&& 0 <= a
    &&& a + 2 < b < s.len()
    &&& all_white(s.take(a))
    &&& s[a] == '<'
    &&& s[a + 1] == '#'
    &&& decimal_run(s.subrange(a + 2, b))
    &&& s[b] == '>'
    &&& all_white(s.skip(b + 1))
}

/// The digits that `^\s*<#(\d+)>\s*$` captures in `s`, when it matches.
pub open spec fn channel_mention_spec(s: Seq<char>) -> Option<Seq<char>> {
    if exists|a: int, b: int| channel_mention_at(s, a, b) {
        let (a, b) = choose|a: int, b: int| channel_mention_at(s, a, b);
        Some(s.subrange(a + 2, b))
    } else {
        None
    }
}

/// The channel-mention pattern matches a text in at most one way.
pub proof fn lemma_channel_mention_unique(s: Seq<char>, a1: int, b1: int, a2: int, b2: int)
    requires
        channel_mention_at(s, a1, b1),
        channel_mention_at(s, a2, b2),
    ensures
        a1 == a2 && b1 == b2,
{
    if a1 < a2 {
        assert(s.take(a2)[a1] == s[a1]);
    }
    if a2 < a1 {
        assert(s.take(a1)[a2] == s[a2]);
    }
    if b1 < b2 {
        assert(s.subrange(a2 + 2, b2)[b1 - a2 - 2] == s[b1]);
    }
    if b2 < b1 {
        assert(s.subrange(a1 + 2, b1)[b2 - a1 - 2] == s[b2]);
    }
}

/// Where `^\s*<#(\d+)>\s*$` matches `s`: the bounds of the captured digits.
fn channel_mention_bounds(s: &Vec<char>) -> (res: Option<(usize, usize)>)
    ensures
        res matches Some((a, b)) ==> a >= 2 && channel_mention_at(s@, a - 2, b as int),
        res is None ==> !exists|a: int, b: int| channel_mention_at(s@, a, b),
{
    let a = skip_white(s, 0);
    assert(s@.subrange(0, a as int) == s@.take(a as int));
    proof {
        // Any match starts its `<` at `a`.
        assert forall|a2: int, b2: int| channel_mention_at(s@, a2, b2) implies a2 == a by {
            if a2 < a {
                assert(s@.subrange(0, a as int)[a2] == s@[a2]);
            }
            if a < a2 {
                assert(s@.take(a2)[a as int] == s@[a as int]);
            }
        }
    }
    if a < s.len() && s.len() - a > 1 && s[a] == '<' && s[a + 1] == '#' {
        let b = skip_decimal(s, a + 2);
        proof {
            assert forall|a2: int, b2: int| channel_mention_at(s@, a2, b2) implies b2 == b by {
                if b2 < b {
                    assert(is_decimal_digit(s@[b2]));
                }
                if b < b2 {
                    assert(s@.subrange(a2 + 2, b2)[b - a2 - 2] == s@[b as int]);
                }
            }
        }
        if b > a + 2 && b < s.len() && s[b] == '>' {
            let e = skip_white(s, b + 1);
            if e == s.len() {
                assert(s@.subrange(b + 1, s.len() as int) == s@.skip(b + 1));
                assert(decimal_run(s@.subrange(a + 2, b as int))) by {
                    assert forall|k: int| 0 <= k < b - a - 2 implies is_decimal_digit(
                        #[trigger] s@.subrange(a + 2, b as int)[k],
                    ) by {
                        assert(s@.subrange(a + 2, b as int)[k] == s@[a + 2 + k]);
                    }
                }
                return Some((a + 2, b));
            } else {
                proof {
                    if exists|a2: int, b2: int| channel_mention_at(s@, a2, b2) {
                        let (a2, b2) = choose|a2: int, b2: int| channel_mention_at(s@, a2, b2);
                        assert(s@.skip(b2 + 1)[e - b2 - 1] == s@[e as int]);
                    }
                }
            }
        } else {
            proof {
                if exists|a2: int, b2: int| channel_mention_at(s@, a2, b2) {
                    let (a2, b2) = choose|a2: int, b2: int| channel_mention_at(s@, a2, b2);
                    assert(s@.subrange(a2 + 2, b2).len() > 0);
                }
            }
        }
    }
    None
}

/// The digits that `^\s*<#(\d+)>\s*$` captures in `s`, when it matches.
pub fn channel_mention(s: &Vec<char>) -> (res: Option<Vec<char>>)
    ensures
        match res {
            Some(d) => channel_mention_spec(s@) == Some(d@),
            None => channel_mention_spec(s@) is None,
        },
{
    match channel_mention_bounds(s) {
        Some((k, b)) => {
            proof {
                let (a2, b2) = choose|a2: int, b2: int| channel_mention_at(s@, a2, b2);
                lemma_channel_mention_unique(s@, a2, b2, k - 2, b as int);
            }
            Some(slice_chars(s, k, b))
        },
        None => None,
    }
}

// ---------------------------------------------------------------------------
// `^\s*<(#|@)(?:!)?(\d+)>\s*$`: a user or channel mention and nothing else
// ---------------------------------------------------------------------------

/// `s` is white space, `<`, the sigil `s[a + 1]` (`#` or `@`), an optional
/// `!`, the digits `s[k..b]`, `>` and white space.
pub open spec fn scope_mention_at(s: Seq<char>, a: int, k: int, b: int) -> bool {
    &&& 0 <= a
    &&& (k == a + 2 || (k == a + 3 && s[a + 2] == '!'))
    &&& k < b < s.len()
    &&& all_white(s.take(a))
    &&& s[a] == '<'
    &&& (s[a + 1] == '#' || s[a + 1] == '@')
    &&& decimal_run(s.subrange(k, b))
    &&& s[b] == '>'
    &&& all_white(s.skip(b + 1))
}

/// The sigil and the digits that `^\s*<(#|@)(?:!)?(\d+)>\s*$` captures in
/// `s`, when it matches.
pub open spec fn scope_mention_spec(s: Seq<char>) -> Option<(char, Seq<char>)> {
    if exists|a: int, k: int, b: int| scope_mention_at(s, a, k, b) {
        let (a, k, b) = choose|a: int, k: int, b: int| scope_mention_at(s, a, k, b);
        Some((s[a + 1], s.subrange(k, b)))
    } else {
        None
    }
}

/// The scope-mention pattern matches a text in at most one way.
pub proof fn lemma_scope_mention_unique(s: Seq<char>, a1: int, k1: int, b1: int, a2: int, k2: int, b2: int)
    requires
        scope_mention_at(s, a1, k1, b1),
        scope_mention_at(s, a2, k2, b2),
    ensures
        a1 == a2 && k1 == k2 && b1 == b2,
{
    if a1 < a2 {
        assert(s.take(a2)[a1] == s[a1]);
    }
    if a2 < a1 {
        assert(s.take(a1)[a2] == s[a2]);
    }
    if k1 < k2 {
        assert(s.subrange(k1, b1)[0] == s[k1]);
    }
    if k2 < k1 {
        assert(s.subrange(k2, b2)[0] == s[k2]);
    }
    if b1 < b2 {
        assert(s.subrange(k2, b2)[b1 - k2] == s[b1]);
    }
    if b2 < b1 {
        assert(s.subrange(k1, b1)[b2 - k1] == s[b2]);
    }
}

/// Where `^\s*<(#|@)(?:!)?(\d+)>\s*$` matches `s`: the index of the sigil
/// and the bounds of the captured digits.
fn scope_mention_bounds(s: &Vec<char>) -> (res: Option<(usize, usize, usize)>)
    ensures
        res matches Some((a, k, b)) ==> a >= 1 && scope_mention_at(s@, a - 1, k as int, b as int),
        res is None ==> !exists|a: int, k: int, b: int| scope_mention_at(s@, a, k, b),
{
    let a = skip_white(s, 0);
    assert(s@.subrange(0, a as int) == s@.take(a as int));
    proof {
        assert forall|a2: int, k2: int, b2: int| scope_mention_at(s@, a2, k2, b2) implies a2 == a by {
            if a2 < a {
                assert(s@.subrange(0, a as int)[a2] == s@[a2]);
            }
            if a < a2 {
                assert(s@.take(a2)[a as int] == s@[a as int]);
            }
        }
    }
    if a < s.len() && s.len() - a > 2 && s[a] == '<' && (s[a + 1] == '#' || s[a + 1] == '@') {
        let k = if s[a + 2] == '!' { a + 3 } else { a + 2 };
        proof {
            assert forall|a2: int, k2: int, b2: int| scope_mention_at(s@, a2, k2, b2) implies k2 == k by {
                if k2 == a + 2 && k == a + 3 {
                    assert(s@.subrange(k2, b2)[0] == s@[k2]);
                }
            }
        }
        let b = skip_decimal(s, k);
        proof {
            assert forall|a2: int, k2: int, b2: int| scope_mention_at(s@, a2, k2, b2) implies b2 == b by {
                if b2 < b {
                    assert(is_decimal_digit(s@[b2]));
                }
                if b < b2 {
                    assert(s@.subrange(k2, b2)[b - k2] == s@[b as int]);
                }
            }
        }
        if b > k && b < s.len() && s[b] == '>' {
            let e = skip_white(s, b + 1);
            if e == s.len() {
                assert(s@.subrange(b + 1, s.len() as int) == s@.skip(b + 1));
                assert(decimal_run(s@.subrange(k as int, b as int))) by {
                    assert forall|j: int| 0 <= j < b - k implies is_decimal_digit(
                        #[trigger] s@.subrange(k as int, b as int)[j],
                    ) by {
                        assert(s@.subrange(k as int, b as int)[j] == s@[k + j]);
                    }
                }
                return Some((a + 1, k, b));
            } else {
                proof {
                    if exists|a2: int, k2: int, b2: int| scope_mention_at(s@, a2, k2, b2) {
                        let (a2, k2, b2) = choose|a2: int, k2: int, b2: int|
                            scope_mention_at(s@, a2, k2, b2);
                        assert(s@.skip(b2 + 1)[e - b2 - 1] == s@[e as int]);
                    }
                }
            }
        } else {
            proof {
                if exists|a2: int, k2: int, b2: int| scope_mention_at(s@, a2, k2, b2) {
                    let (a2, k2, b2) = choose|a2: int, k2: int, b2: int|
                        scope_mention_at(s@, a2, k2, b2);
                    assert(s@.subrange(k2, b2).len() > 0);
                }
            }
        }
    } else {
        proof {
            if exists|a2: int, k2: int, b2: int| scope_mention_at(s@, a2, k2, b2) {
                let (a2, k2, b2) = choose|a2: int, k2: int, b2: int| scope_mention_at(s@, a2, k2, b2);
                assert(s@.subrange(k2, b2).len() > 0);
            }
        }
    }
    None
}

/// The sigil and the digits that `^\s*<(#|@)(?:!)?(\d+)>\s*$` captures in
/// `s`, when it matches.
pub fn scope_mention(s: &Vec<char>) -> (res: Option<(char, Vec<char>)>)
    ensures
        match res {
            Some((c, d)) => scope_mention_spec(s@) == Some((c, d@)),
            None => scope_mention_spec(s@) is None,
        },
{
    match scope_mention_bounds(s) {
        Some((a1, k, b)) => {
            proof {
                let (a2, k2, b2) = choose|a2: int, k2: int, b2: int| scope_mention_at(s@, a2, k2, b2);
                lemma_scope_mention_unique(s@, a2, k2, b2, a1 - 1, k as int, b as int);
            }
            Some((s[a1], slice_chars(s, k, b)))
        },
        None => None,
    }
}

// ---------------------------------------------------------------------------
// Where a reminder goes
// ---------------------------------------------------------------------------

/// Where a reminder is delivered: to a user's direct messages or to a channel.
#[derive(Debug, Clone, Copy, PartialEq, Eq, Structural)]
pub enum ReminderScope {
    User(u64),
    Channel(u64),
}

/// How Discord writes a mention of the scope: `<@id>` or `<#id>`.
pub open spec fn mention_text(scope: ReminderScope) -> Seq<char> {
    match scope {
        ReminderScope::User(id) => seq!['<', '@'] + decimal_text(id as nat) + seq!['>'],
        ReminderScope::Channel(id) => seq!['<', '#'] + decimal_text(id as nat) + seq!['>'],
    }
}

/// The scope a mention names: a user for the sigil `@`, a channel otherwise.
pub open spec fn scope_of(sigil: char, id: u64) -> ReminderScope {
    if sigil == '@' {
        ReminderScope::User(id)
    } else {
        ReminderScope::Channel(id)
    }
}

impl ReminderScope {
    /// The mention of this scope, as Discord writes it.
    pub fn mention(&self) -> (res: String)
        ensures
            res@ == mention_text(*self),
    {
        let mut v: Vec<char> = Vec::new();
        v.push('<');
        let id = match self {
            ReminderScope::User(id) => {
                v.push('@');
                *id
            },
            ReminderScope::Channel(id) => {
                v.push('#');
                *id
            },
        };
        let digits = u64_text(id);
        let mut i: usize = 0;
        while i < digits.len()
            invariant
                i <= digits.len(),
                v@.len() == 2 + i,
                v@[0] == '<',
                v@[1] == (if self is User { '@' } else { '#' }),
                v@.skip(2) == digits@.take(i as int),
            decreases digits.len() - i,
        {
            v.push(digits[i]);
            i = i + 1;
            assert(v@.skip(2) =~= digits@.take(i as int));
        }
        v.push('>');
        assert(digits@.take(digits.len() as int) == digits@);
        assert(v@ =~= mention_text(*self));
        string_of(&v)
    }
}

/// The scope named by a captured sigil and digits; `None` where the digits do
/// not parse as a `u64`, which the commands treat as a bug and panic on.
pub fn scope_from_capture(sigil: char, digits: &Vec<char>) -> (res: Option<ReminderScope>)
    ensures
        res == (match parse_u64_spec(digits@) {
            Some(id) => Some(scope_of(sigil, id)),
            None => None,
        }),
{
    match parse_u64(digits) {
        Some(id) => {
            if sigil == '@' {
                Some(ReminderScope::User(id))
            } else {
                Some(ReminderScope::Channel(id))
            }
        },
        None => None,
    }
}

/// A mention written by `mention` is read back by the scope-mention pattern,
/// with the same sigil and id.
pub proof fn lemma_mention_round_trip(scope: ReminderScope)
    ensures
        ({
            let id = match scope {
                ReminderScope::User(id) => id,
                ReminderScope::Channel(id) => id,
            };
            &&& scope_mention_spec(mention_text(scope)) matches Some((sigil, digits))
            &&& parse_u64_spec(digits) == Some(id)
            &&& scope_of(sigil, id) == scope
        }),
{
    let id = match scope {
        ReminderScope::User(id) => id,
        ReminderScope::Channel(id) => id,
    };
    let t = mention_text(scope);
    let d = decimal_text(id as nat);
    lemma_decimal_text_digits(id as nat);
    let b: int = 2 + d.len() as int;
    assert(t.subrange(2, b) =~= d);
    assert(t.take(0) =~= Seq::<char>::empty());
    assert(t.skip(b + 1) =~= Seq::<char>::empty());
    assert(decimal_run(d)) by {
        assert forall|i: int| 0 <= i < d.len() implies is_decimal_digit(#[trigger] d[i]) by {
            assert(all_ascii_digits(d));
            assert('0' <= d[i] && d[i] <= '9');
        }
    }
    assert(scope_mention_at(t, 0, 2, b as int));
    let (a2, k2, b2) = choose|a2: int, k2: int, b2: int| scope_mention_at(t, a2, k2, b2);
    lemma_scope_mention_unique(t, a2, k2, b2, 0, 2, b as int);
    text_digits_parse(d);
}

proof fn text_digits_parse(d: Seq<char>)
    requires
        d.len() > 0,
        all_ascii_digits(d),
        d[0] != '+',
    ensures
        parse_u64_spec(d) == (if digits_value(d) <= u64::MAX { Some(digits_value(d) as u64) } else { None }),
{
}

// ---------------------------------------------------------------------------
// `((?:<@\d+>)|(?:<@!\d+>)|(?:<#\d+>)|(?:\s+))+`: a run of mentions
// ---------------------------------------------------------------------------

/// `t` is `<@digits>`, `<@!digits>` or `<#digits>`.
pub open spec fn is_mention_token(t: Seq<char>) -> bool {
    &&& t.len() >= 4
    &&& t[0] == '<'
    &&& t[t.len() - 1] == '>'
    &&& {
        ||| (t[1] == '#' || t[1] == '@') && decimal_run(t.subrange(2, t.len() - 1))
        ||| t[1] == '@' && t[2] == '!' && decimal_run(t.subrange(3, t.len() - 1))
    }
}

/// `s` is a sequence of white-space characters and mention tokens. A token
/// ends at its first `>`, as no character inside one is a `>`.
pub open spec fn is_token_run(s: Seq<char>) -> bool
    decreases s.len(),
{
    if s.len() == 0 {
        true
    } else if is_white_space(s[0]) {
        is_token_run(s.drop_first())
    } else {
        match first_occurrence(s, seq!['>']) {
            Some(p) => {
                proof {
                    lemma_first_occurrence(s, seq!['>']);
                }
                is_mention_token(s.take(p + 1)) && is_token_run(s.skip(p + 1))
            },
            None => false,
        }
    }
}

/// `s` matches `((?:<@\d+>)|(?:<@!\d+>)|(?:<#\d+>)|(?:\s+))+` as a whole.
pub open spec fn is_mention_list(s: Seq<char>) -> bool {
    s.len() > 0 && is_token_run(s)
}

/// The end of the mention token that starts at `s[i]`, if one does.
fn mention_token_end(s: &Vec<char>, i: usize) -> (res: Option<usize>)
    requires
        i < s.len(),
    ensures
        res matches Some(e) ==> i + 4 <= e <= s.len() && is_mention_token(s@.subrange(i as int, e as int)),
        res is None ==> forall|k: int| 4 <= k <= s.len() - i ==> !is_mention_token(#[trigger] s@.subrange(i as int, i + k)),
        res matches Some(e) ==> forall|k: int| 4 <= k <= s.len() - i && is_mention_token(#[trigger] s@.subrange(i as int, i + k)) ==> i + k == e,
{
    if s.len() - i < 4 || s[i] != '<' {
        return None;
    }
    let c1 = s[i + 1];
    if c1 != '#' && c1 != '@' {
        return None;
    }
    let k = if c1 == '@' && s[i + 2] == '!' { i + 3 } else { i + 2 };
    let j = skip_decimal(s, k);
    proof {
        assert forall|m: int| 4 <= m <= s.len() - i && is_mention_token(#[trigger] s@.subrange(i as int, i + m))
            implies i + m == j + 1 && j < s.len() && s@[j as int] == '>' && j > k by {
            let t = s@.subrange(i as int, i + m);
            let start: int = if t[1] == '@' && t[2] == '!' && decimal_run(t.subrange(3, t.len() - 1)) { 3 } else { 2 };
            assert(decimal_run(t.subrange(start, t.len() - 1)));
            if start == 2 && k == i + 3 {
                assert(t.subrange(2, t.len() - 1)[0] == s@[i + 2]);
            }
            if start == 3 && k == i + 2 {
                assert(false);
            }
            assert(k == i + start);
            if i + m - 1 < j {
                assert(is_decimal_digit(s@[i + m - 1]));
            }
            if j < i + m - 1 {
                assert(t.subrange(start, t.len() - 1)[j - i - start] == s@[j as int]);
            }
            assert(t[t.len() - 1] == s@[i + m - 1]);
            assert(t.subrange(start, t.len() - 1).len() > 0);
        }
    }
    if j > k && j < s.len() && s[j] == '>' {
        let e = j + 1;
        proof {
            let t = s@.subrange(i as int, e as int);
            let start: int = k - i;
            assert(decimal_run(t.subrange(start, t.len() - 1))) by {
                assert forall|x: int| 0 <= x < t.len() - 1 - start implies is_decimal_digit(
                    #[trigger] t.subrange(start, t.len() - 1)[x],
                ) by {
                    assert(t.subrange(start, t.len() - 1)[x] == s@[k + x]);
                }
            }
        }
        Some(e)
    } else {
        None
    }
}

proof fn lemma_token_first_close(r: Seq<char>, n: int)
    requires
        4 <= n <= r.len(),
        is_mention_token(r.take(n)),
    ensures
        first_occurrence(r, seq!['>']) == Some(n - 1),
{
    let t = r.take(n);
    let close = seq!['>'];
    assert(r.subrange(n - 1, n) =~= close);
    assert(occurs_at(r, close, n - 1));
    assert forall|j: int| 0 <= j < n - 1 implies !occurs_at(r, close, j) by {
        if occurs_at(r, close, j) {
            assert(r.subrange(j, j + 1)[0] == r[j]);
            assert(t[j] == r[j]);
            if j >= 2 {
                let start: int = if t[1] == '@' && t[2] == '!' && decimal_run(t.subrange(3, t.len() - 1)) { 3 } else { 2 };
                if j >= start {
                    assert(t.subrange(start, t.len() - 1)[j - start] == t[j]);
                }
            }
        }
    }
    lemma_first_occurrence(r, close);
}

proof fn lemma_token_run_step(s: Seq<char>, i: int)
    requires
        0 <= i < s.len(),
    ensures
        s.skip(i).len() > 0,
        s.skip(i)[0] == s[i],
        s.skip(i).drop_first() == s.skip(i + 1),
        forall|k: int| 0 <= k <= s.len() - i ==> #[trigger] s.skip(i).take(k) == s.subrange(i, i + k),
        forall|k: int| 0 <= k <= s.len() - i ==> #[trigger] s.skip(i).skip(k) == s.skip(i + k),
{
    assert(s.skip(i).drop_first() =~= s.skip(i + 1));
    assert forall|k: int| 0 <= k <= s.len() - i implies #[trigger] s.skip(i).take(k) == s.subrange(i, i + k) by {
        assert(s.skip(i).take(k) =~= s.subrange(i, i + k));
    }
    assert forall|k: int| 0 <= k <= s.len() - i implies #[trigger] s.skip(i).skip(k) == s.skip(i + k) by {
        assert(s.skip(i).skip(k) =~= s.skip(i + k));
    }
}

/// Whether `s` as a whole matches `((?:<@\d+>)|(?:<@!\d+>)|(?:<#\d+>)|(?:\s+))+`.
pub fn mention_list(s: &Vec<char>) -> (res: bool)
    ensures
        res == is_mention_list(s@),
{
    if s.len() == 0 {
        return false;
    }
    let mut i: usize = 0;
    assert(s@.skip(0) == s@);
    while i < s.len()
        invariant
            i <= s.len(),
            s.len() > 0,
            is_token_run(s@) == is_token_run(s@.skip(i as int)),
        decreases s.len() - i,
    {
        proof {
            lemma_token_run_step(s@, i as int);
        }
        if white_space(s[i]) {
            i = i + 1;
        } else {
            match mention_token_end(s, i) {
                Some(e) => {
                    proof {
                        let r = s@.skip(i as int);
                        let k: int = e - i;
                        assert(r.take(k) == s@.subrange(i as int, e as int));
                        assert(r.skip(k) == s@.skip(e as int));
                        lemma_token_first_close(r, k);
                    }
                    i = e;
                },
                None => {
                    proof {
                        let r = s@.skip(i as int);
                        lemma_first_occurrence(r, seq!['>']);
                        if let Some(p) = first_occurrence(r, seq!['>']) {
                            if p + 1 >= 4 {
                                assert(r.take(p + 1) == s@.subrange(i as int, i + p + 1));
                            }
                        }
                    }
                    return false;
                },
            }
        }
    }
    assert(s@.skip(i as int).len() == 0);
    true
}

} // verus!
