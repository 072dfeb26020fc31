//! How a tree is written as a document, and the law that reading what was
//! written gives the tree back.
//!
//! The law holds of every tree in which no key and no string holds a double
//! quote, which the format cannot write inside a string, and in which every
//! object holds each key once. It holds whatever white space stands between
//! the tokens.
use vstd::prelude::*;
use crate::manifest::{
    distinct_keys,
    entries_from,
    key_index,
    lemma_key_index,
    parse_document,
    put,
    quoted,
    skip_spaces,
    body_start,
    Tree,
};
use crate::text::{find_char, is_space, lemma_find_char};

verus! {

/// A string between double quotes.
pub open spec fn quote(text: Seq<char>) -> Seq<char> {
    seq!['"'] + text + seq!['"']
}

/// A string that holds no double quote.
pub open spec fn plain(text: Seq<char>) -> bool {
    forall|i: int| 0 <= i < text.len() ==> #[trigger] text[i] != '"'
}

/// A run of white space.
pub open spec fn blank(gap: Seq<char>) -> bool {
    forall|i: int| 0 <= i < gap.len() ==> is_space(#[trigger] gap[i])
}

impl Tree {
    /// No key and no string in the tree holds a double quote.
    pub open spec fn plain(self) -> bool
        decreases self,
    {
        match self {
            Tree::Text(text) => plain(text),
            Tree::Object(entries) => forall|i: int|
                0 <= i < entries.len() ==> plain((#[trigger] entries[i]).0) && entries[i].1.plain(),
        }
    }
}

/// How a value is written, with `gap` before every token inside an object: a
/// string between quotes, an object as its entries between braces.
pub open spec fn written(value: Tree, gap: Seq<char>) -> Seq<char>
    decreases value, 0nat,
{
    match value {
        Tree::Text(text) => quote(text),
        Tree::Object(entries) => seq!['{'] + written_entries(entries, 0, gap) + gap + seq!['}'],
    }
}

/// How the entries `entries[from..]` are written: each as its key between
/// quotes and then its value.
pub open spec fn written_entries(entries: Seq<(Seq<char>, Tree)>, from: int, gap: Seq<char>) -> Seq<
    char,
>
    decreases entries, entries.len() - from,
{
    if 0 <= from < entries.len() {
        gap + quote(entries[from].0) + gap + written(entries[from].1, gap) + written_entries(
            entries,
            from + 1,
            gap,
        )
    } else {
        Seq::empty()
    }
}

/// The entries `entries[from..]`, set one by one in `found`.
pub open spec fn put_all(
    found: Seq<(Seq<char>, Tree)>,
    entries: Seq<(Seq<char>, Tree)>,
    from: int,
) -> Seq<(Seq<char>, Tree)>
    decreases entries.len() - from,
{
    if 0 <= from < entries.len() {
        put_all(put(found, entries[from].0, entries[from].1), entries, from + 1)
    } else {
        found
    }
}

/// Whether `s` holds `part` at `pos`.
pub open spec fn holds_at(s: Seq<char>, pos: int, part: Seq<char>) -> bool {
    &&& 0 <= pos
    &&& pos + part.len() <= s.len()
    &&& forall|i: int| 0 <= i < part.len() ==> s[pos + i] == #[trigger] part[i]
}

proof fn lemma_holds_split(s: Seq<char>, pos: int, a: Seq<char>, b: Seq<char>)
    requires
        holds_at(s, pos, a + b),
    ensures
        holds_at(s, pos, a),
        holds_at(s, pos + a.len(), b),
{
    let whole = a + b;
    assert forall|i: int| 0 <= i < a.len() implies s[pos + i] == #[trigger] a[i] by {
        assert(whole[i] == a[i]);
    }
    assert forall|i: int| 0 <= i < b.len() implies s[pos + a.len() + i] == #[trigger] b[i] by {
        assert(whole[a.len() + i] == b[i]);
    }
}

proof fn lemma_find_first(s: Seq<char>, c: char, from: int, at: int)
    requires
        0 <= from <= at < s.len(),
        s[at] == c,
        forall|i: int| from <= i < at ==> s[i] != c,
    ensures
        find_char(s, c, from) == at,
    decreases at - from,
{
    if from < at {
        lemma_find_first(s, c, from + 1, at);
    }
}

proof fn lemma_skip_gap(s: Seq<char>, pos: int, gap: Seq<char>)
    requires
        blank(gap),
        holds_at(s, pos, gap),
        pos + gap.len() == s.len() || !is_space(s[pos + gap.len()]),
    ensures
        skip_spaces(s, pos) == pos + gap.len(),
    decreases gap.len(),
{
    if gap.len() > 0 {
        assert(s[pos + 0] == gap[0]);
        let rest = gap.skip(1);
        assert forall|i: int| 0 <= i < rest.len() implies s[pos + 1 + i] == #[trigger] rest[i] by {
            assert(rest[i] == gap[i + 1]);
        }
        assert forall|i: int| 0 <= i < rest.len() implies is_space(#[trigger] rest[i]) by {
            assert(rest[i] == gap[i + 1]);
        }
        lemma_skip_gap(s, pos + 1, rest);
    }
}

proof fn lemma_read_quote(s: Seq<char>, pos: int, text: Seq<char>)
    requires
        plain(text),
        holds_at(s, pos, quote(text)),
    ensures
        quoted(s, pos) == (text, pos + text.len() + 2),
        s[pos] == '"',
{
    let q = quote(text);
    let n = text.len() as int;
    assert(q.len() == n + 2);
    assert(s[pos + 0] == q[0]);
    let close = pos + 1 + n;
    assert(s[pos + (n + 1)] == q[n + 1]);
    assert forall|i: int| pos + 1 <= i < close implies s[i] != '"' by {
        assert(s[pos + (i - pos)] == q[i - pos]);
        assert(q[i - pos] == text[i - pos - 1]);
    }
    lemma_find_first(s, '"', pos + 1, close);
    assert forall|i: int| 0 <= i < text.len() implies s.subrange(pos + 1, close)[i] == text[i] by {
        assert(s[pos + (i + 1)] == q[i + 1]);
    }
    assert(s.subrange(pos + 1, close) =~= text);
}

/// Entries with distinct keys, set one by one behind the entries before
/// them, are those entries.
proof fn lemma_put_all_distinct(entries: Seq<(Seq<char>, Tree)>, from: int)
    requires
        distinct_keys(entries),
        0 <= from <= entries.len(),
    ensures
        put_all(entries.take(from), entries, from) == entries,
    decreases entries.len() - from,
{
    if from < entries.len() {
        let before = entries.take(from);
        let key = entries[from].0;
        lemma_key_index(before, key, 0);
        let at = key_index(before, key, 0);
        if at < before.len() {
            assert(before[at] == entries[at]);
            assert(entries[at].0 != entries[from].0);
        }
        assert(put(before, key, entries[from].1) =~= entries.take(from + 1));
        lemma_put_all_distinct(entries, from + 1);
    } else {
        assert(entries.take(from) =~= entries);
    }
}

/// Reading the written entries sets them one by one.
proof fn lemma_read_entries(
    s: Seq<char>,
    pos: int,
    entries: Seq<(Seq<char>, Tree)>,
    from: int,
    gap: Seq<char>,
    found: Seq<(Seq<char>, Tree)>,
)
    requires
        blank(gap),
        0 <= from <= entries.len(),
        Tree::Object(entries).plain(),
        Tree::Object(entries).wf(),
        holds_at(s, pos, written_entries(entries, from, gap) + gap + seq!['}']),
    ensures
        entries_from(s, pos, found) == (
            put_all(found, entries, from),
            pos + written_entries(entries, from, gap).len() + gap.len() + 1,
        ),
    decreases entries, entries.len() - from,
{
    let brace = seq!['}'];
    let all = written_entries(entries, from, gap);
    lemma_holds_split(s, pos, all + gap, brace);
    lemma_holds_split(s, pos, all, gap);
    let end = pos + all.len() + gap.len();
    assert(s[end + 0] == brace[0]);
    assert(!is_space('}'));
    if from == entries.len() {
        lemma_skip_gap(s, pos, gap);
    } else {
        let key = entries[from].0;
        let value = entries[from].1;
        let rest = written_entries(entries, from + 1, gap);
        let w = written(value, gap);
        assert(all == gap + quote(key) + gap + w + rest);
        lemma_holds_split(s, pos, gap + quote(key) + gap + w, rest);
        lemma_holds_split(s, pos, gap + quote(key) + gap, w);
        lemma_holds_split(s, pos, gap + quote(key), gap);
        lemma_holds_split(s, pos, gap, quote(key));
        let key_at = pos + gap.len();
        let after_key = key_at + key.len() + 2;
        let value_at = after_key + gap.len();
        let after_value = value_at + w.len();
        assert(quote(key).len() == key.len() + 2);
        assert(plain(key) && value.plain() && value.wf());
        lemma_read_quote(s, key_at, key);
        assert(!is_space('"'));
        lemma_skip_gap(s, pos, gap);
        assert(skip_spaces(s, pos) == key_at);
        assert(quoted(s, key_at) == (key, after_key));
        // the rest of the text behind the value
        assert(holds_at(s, after_value, rest + gap + brace)) by {
            let tail = rest + gap + brace;
            assert forall|i: int| 0 <= i < tail.len() implies s[after_value + i] == #[trigger] tail[i] by {
                let whole = all + gap + brace;
                assert(whole[(after_value - pos) + i] == tail[i]);
                assert(s[pos + ((after_value - pos) + i)] == whole[(after_value - pos) + i]);
            }
        }
        match value {
            Tree::Text(text) => {
                assert(w == quote(text));
                lemma_read_quote(s, value_at, text);
                lemma_skip_gap(s, after_key, gap);
                assert(skip_spaces(s, after_key) == value_at);
                assert(after_value == value_at + text.len() + 2);
                lemma_read_entries(s, after_value, entries, from + 1, gap, put(found, key, value));
            },
            Tree::Object(children) => {
                let inner = written_entries(children, 0, gap);
                assert(w == seq!['{'] + inner + gap + brace);
                assert(s[value_at + 0] == w[0]);
                assert(!is_space('{'));
                lemma_skip_gap(s, after_key, gap);
                assert(skip_spaces(s, after_key) == value_at);
                assert(holds_at(s, value_at + 1, inner + gap + brace)) by {
                    let part = inner + gap + brace;
                    assert forall|i: int| 0 <= i < part.len() implies s[value_at + 1 + i]
                        == #[trigger] part[i] by {
                        assert(w[i + 1] == part[i]);
                        assert(s[value_at + (i + 1)] == w[i + 1]);
                    }
                }
                lemma_read_entries(s, value_at + 1, children, 0, gap, Seq::empty());
                lemma_put_all_distinct(children, 0);
                assert(children.take(0) =~= Seq::<(Seq<char>, Tree)>::empty());
                assert(entries_from(s, value_at + 1, Seq::empty()) == (children, after_value));
                lemma_read_entries(s, after_value, entries, from + 1, gap, put(found, key, value));
            },
        }
    }
}

/// Reading what was written gives the tree back: a document made of a header
/// line and a written object is read as that object. This holds of every
/// object whose keys and strings hold no double quote and whose objects hold
/// each key once, with any white space `gap` between the tokens and any
/// white space `lead` between the header line and the object.
pub proof fn lemma_written_is_read_back(
    header: Seq<char>,
    lead: Seq<char>,
    entries: Seq<(Seq<char>, Tree)>,
    gap: Seq<char>,
)
    requires
        forall|i: int| 0 <= i < header.len() ==> header[i] != '\n' && header[i] != '{',
        blank(lead),
        blank(gap),
        Tree::Object(entries).plain(),
        Tree::Object(entries).wf(),
    ensures
        parse_document(header + seq!['\n'] + lead + written(Tree::Object(entries), gap)) == Some(
            Tree::Object(entries),
        ),
{
    let object = written(Tree::Object(entries), gap);
    let inner = written_entries(entries, 0, gap);
    let s = header + seq!['\n'] + lead + object;
    let n = header.len() as int;
    let open = n + 1 + lead.len();
    assert(s[n] == '\n');
    assert forall|i: int| 0 <= i < n implies s[i] != '\n' by {
        assert(s[i] == header[i]);
    }
    lemma_find_first(s, '\n', 0, n);
    assert(body_start(s) == n + 1);
    assert(object == seq!['{'] + inner + gap + seq!['}']);
    assert(s[open] == object[0]);
    assert(!is_space('{'));
    assert forall|i: int| n + 1 <= i < open implies s[i] != '{' by {
        assert(s[i] == lead[i - n - 1]);
        assert(is_space(lead[i - n - 1]));
    }
    lemma_find_first(s, '{', n + 1, open);
    let part = inner + gap + seq!['}'];
    assert forall|i: int| 0 <= i < part.len() implies s[open + 1 + i] == #[trigger] part[i] by {
        assert(object[i + 1] == part[i]);
        assert(s[open + (i + 1)] == object[i + 1]);
    }
    lemma_read_entries(s, open + 1, entries, 0, gap, Seq::empty());
    lemma_put_all_distinct(entries, 0);
    assert(entries.take(0) =~= Seq::<(Seq<char>, Tree)>::empty());
}

} // verus!
