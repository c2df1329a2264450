use vstd::prelude::*;
use crate::text::{
    all_ascii_digits, digits_value, lemma_decimal_text_digits, append, chars_of, decimal_text, join, join_text, parse_usize, parse_usize_spec, replace_char,
    replace_char_text, seqs, string_of, u64_text, words, words_text,
};

verus! {

/// One line of `look`: `'<name>' *<inter>* **<time>**`.
pub open spec fn look_line_text(name: Seq<char>, inter: Seq<char>, time: Seq<char>) -> Seq<char> {
    "'"@ + name + "' *"@ + inter + "* **"@ + time + "**"@
}

/// Writes one line of `look` for a reminder.
pub fn look_line(name: &str, inter: &str, time: &str) -> (res: String)
    ensures
        res@ == look_line_text(name@, inter@, time@),
{
    let mut out = chars_of("'");
    append(&mut out, &chars_of(name));
    append(&mut out, &chars_of("' *"));
    append(&mut out, &chars_of(inter));
    append(&mut out, &chars_of("* **"));
    append(&mut out, &chars_of(time));
    append(&mut out, &chars_of("**"));
    string_of(&out)
}

/// One line of the list that `del` shows: `**<n>**: '<name>' *<channel>* at
/// <time>`, where `n` counts from one.
pub open spec fn listing_line_text(position: nat, name: Seq<char>, channel_id: u32, time: u32) -> Seq<char> {
    "**"@ + decimal_text(position + 1) + "**: '"@ + name + "' *"@ + decimal_text(channel_id as nat)
        + "* at "@ + decimal_text(time as nat)
}

/// Writes the line of the `del` list for the reminder at index `position`.
pub fn listing_line(position: u64, name: &str, channel_id: u32, time: u32) -> (res: String)
    requires
        position < u64::MAX,
    ensures
        res@ == listing_line_text(position as nat, name@, channel_id, time),
{
    let mut out = chars_of("**");
    append(&mut out, &u64_text(position + 1));
    append(&mut out, &chars_of("**: '"));
    append(&mut out, &chars_of(name));
    append(&mut out, &chars_of("' *"));
    append(&mut out, &u64_text(channel_id as u64));
    append(&mut out, &chars_of("* at "));
    append(&mut out, &u64_text(time as u64));
    string_of(&out)
}

/// The line of `del` for the reminder at index `position` opens with `**`, the
/// digits of `position + 1` and `**: '`.
pub open spec fn numbered_at(line: Seq<char>, position: nat, k: int) -> bool {
    &&& 2 < k
    &&& k + 5 <= line.len()
    &&& line.take(2) == "**"@
    &&& all_ascii_digits(line.subrange(2, k))
    &&& digits_value(line.subrange(2, k)) == position + 1
    &&& line.subrange(k, k + 5) == "**: '"@
}

/// Each line of `del` carries the number of its reminder, counted from one,
/// between `**` and `**: '`; so lines for different positions differ, and the
/// number a user types back picks the reminder it was shown with.
pub proof fn lemma_listing_line_numbered(
    p: nat,
    name: Seq<char>,
    channel_id: u32,
    time: u32,
    q: nat,
    name2: Seq<char>,
    channel_id2: u32,
    time2: u32,
)
    ensures
        exists|k: int| numbered_at(listing_line_text(p, name, channel_id, time), p, k),
        p != q ==> listing_line_text(p, name, channel_id, time) != listing_line_text(q, name2, channel_id2, time2),
{
    reveal_strlit("**");
    reveal_strlit("**: '");
    let a = listing_line_text(p, name, channel_id, time);
    let b = listing_line_text(q, name2, channel_id2, time2);
    let da = decimal_text(p + 1);
    let db = decimal_text(q + 1);
    lemma_decimal_text_digits(p + 1);
    lemma_decimal_text_digits(q + 1);
    let ka: int = 2 + da.len() as int;
    let kb: int = 2 + db.len() as int;
    assert(a.take(2) =~= "**"@);
    assert(a.subrange(2, ka) =~= da);
    assert(a.subrange(ka, ka + 5) =~= "**: '"@);
    assert(numbered_at(a, p, ka));
    assert(b.take(2) =~= "**"@);
    assert(b.subrange(2, kb) =~= db);
    assert(b.subrange(kb, kb + 5) =~= "**: '"@);
    if p != q && a == b {
        if ka == kb {
            assert(da =~= db);
        } else if ka < kb {
            assert(a[ka] == '*');
            assert(b[ka] == db[ka - 2]);
            assert(crate::text::is_ascii_digit(db[ka - 2]));
        } else {
            assert(b[kb] == '*');
            assert(a[kb] == da[kb - 2]);
            assert(crate::text::is_ascii_digit(da[kb - 2]));
        }
    }
}

/// The id a word of the reply to `del` picks from the listed ids: the word
/// read as a `usize` is a position counted from one. Zero picks nothing: one
/// less than zero wraps around to an index that no list reaches.
pub open spec fn picked_id(word: Seq<char>, ids: Seq<u32>) -> Option<u32> {
    match parse_usize_spec(word) {
        Some(v) => if 1 <= v <= ids.len() {
            Some(ids[v - 1])
        } else {
            None
        },
        None => None,
    }
}

/// The words of the reply to `del`: commas count as spaces.
pub open spec fn selection_words(reply: Seq<char>) -> Seq<Seq<char>> {
    words_text(replace_char_text(reply, ',', ' '), ' ')
}

/// Every word picks an id.
pub open spec fn all_picked(ws: Seq<Seq<char>>, ids: Seq<u32>) -> bool {
    forall|i: int| 0 <= i < ws.len() ==> #[trigger] picked_id(ws[i], ids) is Some
}

/// The ids the words pick, in decimal.
pub open spec fn picked_texts(ws: Seq<Seq<char>>, ids: Seq<u32>) -> Seq<Seq<char>> {
    ws.map_values(|w: Seq<char>| decimal_text(picked_id(w, ids).unwrap() as nat))
}

/// The ids that the reply to `del` selects, comma-separated for the deletion,
/// when every word of it picks one; `None` when some word does not (nothing is
/// deleted then).
pub open spec fn selection_spec(reply: Seq<char>, ids: Seq<u32>) -> Option<Seq<char>> {
    let ws = selection_words(reply);
    if all_picked(ws, ids) {
        Some(join_text(picked_texts(ws, ids), seq![',']))
    } else {
        None
    }
}

/// Reads which of the listed reminders the reply to `del` selects.
pub fn selected_ids(reply: &str, ids: &Vec<u32>) -> (res: Option<String>)
    ensures
        match res {
            Some(s) => selection_spec(reply@, ids@) == Some(s@),
            None => selection_spec(reply@, ids@) is None,
        },
{
    let content = replace_char(&chars_of(reply), ',', ' ');
    let ws = words(&content, ' ');
    let ghost w = selection_words(reply@);
    let mut picked: Vec<Vec<char>> = Vec::new();
    let mut i: usize = 0;
    while i < ws.len()
        invariant
            i <= ws.len(),
            seqs(ws@) == w,
            w == selection_words(reply@),
            picked@.len() == i,
            forall|k: int| 0 <= k < i ==> #[trigger] picked_id(w[k], ids@) is Some,
            forall|k: int| 0 <= k < i ==> #[trigger] picked@[k]@ == decimal_text(picked_id(w[k], ids@).unwrap() as nat),
        decreases ws.len() - i,
    {
        assert(w[i as int] == ws@[i as int]@);
        match parse_usize(&ws[i]) {
            Some(v) => {
                if v >= 1 && v <= ids.len() {
                    let id = ids[v - 1];
                    picked.push(u64_text(id as u64));
                } else {
                    assert(picked_id(w[i as int], ids@) is None);
                    return None;
                }
            },
            None => {
                assert(picked_id(w[i as int], ids@) is None);
                return None;
            },
        }
        i = i + 1;
    }
    assert(seqs(picked@) =~= picked_texts(w, ids@));
    let comma = chars_of(",");
    proof {
        reveal_strlit(",");
    }
    assert(comma@ =~= seq![',']);
    Some(string_of(&join(&picked, &comma)))
}

} // verus!
