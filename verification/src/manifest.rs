//! The key-value configuration format and the tree it is read into.
//!
//! A document is one header line, which is dropped, and then a brace-delimited
//! object. An object is a run of entries; an entry is a quoted key followed by
//! a quoted string or by a nested object. White space between tokens means
//! nothing. There are no escapes, comments, numbers or arrays.
//!
//! The reader is tolerant. It never rejects what stands between the braces: a
//! missing closing quote or brace ends at the end of the input, a key without
//! a value is dropped, and any character where a key is expected opens that
//! key as a quote would. The only document that is refused is one without an
//! opening brace after its header line.
use vstd::prelude::*;
use crate::text::{chars_of, text_of, index_of, is_whitespace, is_space, find_char, lemma_find_char};

verus! {

/// What a document means: a string, or the entries of an object in the order
/// in which their keys first appeared.
pub enum Tree {
    Text(Seq<char>),
    Object(Seq<(Seq<char>, Tree)>),
}

/// The index of the first entry at or after `from` whose key is `key`, or the
/// number of entries where there is none.
pub open spec fn key_index(entries: Seq<(Seq<char>, Tree)>, key: Seq<char>, from: int) -> int
    decreases entries.len() - from,
{
    if 0 <= from < entries.len() {
        if entries[from].0 == key {
            from
        } else {
            key_index(entries, key, from + 1)
        }
    } else {
        from
    }
}

/// The value that the entries hold under `key`.
pub open spec fn lookup(entries: Seq<(Seq<char>, Tree)>, key: Seq<char>) -> Option<Tree> {
    let i = key_index(entries, key, 0);
    if i < entries.len() {
        Some(entries[i].1)
    } else {
        None
    }
}

/// The entries after `key` has been set to `value`: an entry that holds the
/// key keeps its place and takes the new value, a new key goes to the end.
pub open spec fn put(entries: Seq<(Seq<char>, Tree)>, key: Seq<char>, value: Tree) -> Seq<
    (Seq<char>, Tree),
> {
    let i = key_index(entries, key, 0);
    if i < entries.len() {
        entries.update(i, (key, value))
    } else {
        entries.push((key, value))
    }
}

/// No key occurs twice.
pub open spec fn distinct_keys(entries: Seq<(Seq<char>, Tree)>) -> bool {
    forall|i: int, j: int|
        0 <= i < j < entries.len() ==> (#[trigger] entries[i]).0 != (#[trigger] entries[j]).0
}

impl Tree {
    /// Every object in the tree holds each of its keys once.
    pub open spec fn wf(self) -> bool
        decreases self,
    {
        match self {
            Tree::Text(_) => true,
            Tree::Object(entries) => distinct_keys(entries) && forall|i: int|
                0 <= i < entries.len() ==> (#[trigger] entries[i]).1.wf(),
        }
    }

    /// The value under `key`, where this is an object that holds it.
    pub open spec fn get(self, key: Seq<char>) -> Option<Tree> {
        match self {
            Tree::Text(_) => None,
            Tree::Object(entries) => lookup(entries, key),
        }
    }
}

pub proof fn lemma_key_index(entries: Seq<(Seq<char>, Tree)>, key: Seq<char>, from: int)
    requires
        0 <= from <= entries.len(),
    ensures
        from <= key_index(entries, key, from) <= entries.len(),
        key_index(entries, key, from) < entries.len() ==> entries[key_index(
            entries,
            key,
            from,
        )].0 == key,
        forall|i: int| from <= i < key_index(entries, key, from) ==> (#[trigger] entries[i]).0 != key,
    decreases entries.len() - from,
{
    if from < entries.len() && entries[from].0 != key {
        lemma_key_index(entries, key, from + 1);
    }
}

/// Where the keys are distinct, the one entry that holds `key` is the one
/// that `key_index` finds.
pub proof fn lemma_key_index_unique(entries: Seq<(Seq<char>, Tree)>, key: Seq<char>, at: int)
    requires
        0 <= at < entries.len(),
        entries[at].0 == key,
        distinct_keys(entries),
    ensures
        key_index(entries, key, 0) == at,
{
    lemma_key_index(entries, key, 0);
    let i = key_index(entries, key, 0);
    if i < at {
        assert(entries[i].0 != entries[at].0);
    }
}

/// Setting a key keeps the keys distinct and the subtrees well formed.
pub proof fn lemma_put_wf(entries: Seq<(Seq<char>, Tree)>, key: Seq<char>, value: Tree)
    requires
        Tree::Object(entries).wf(),
        value.wf(),
    ensures
        Tree::Object(put(entries, key, value)).wf(),
{
    lemma_key_index(entries, key, 0);
    let i = key_index(entries, key, 0);
    let after = put(entries, key, value);
    assert forall|a: int, b: int| 0 <= a < b < after.len() implies (#[trigger] after[a]).0 != (
    #[trigger] after[b]).0 by {
        if i < entries.len() {
            assert(after[a].0 == entries[a].0);
            assert(after[b].0 == entries[b].0);
        } else {
            if b < entries.len() {
                assert(after[a] == entries[a]);
                assert(after[b] == entries[b]);
            } else {
                assert(after[a] == entries[a]);
                assert(entries[a].0 != key);
            }
        }
    }
    assert forall|a: int| 0 <= a < after.len() implies (#[trigger] after[a]).1.wf() by {
        if a != i {
            assert(after[a] == entries[a]);
        }
    }
}

/// A key that was set is found with its new value.
pub proof fn lemma_lookup_put_same(entries: Seq<(Seq<char>, Tree)>, key: Seq<char>, value: Tree)
    ensures
        lookup(put(entries, key, value), key) == Some(value),
{
    lemma_key_index(entries, key, 0);
    let i = key_index(entries, key, 0);
    let after = put(entries, key, value);
    lemma_key_index(after, key, 0);
    let j = key_index(after, key, 0);
    assert(after[i].0 == key);
    if j < i {
        assert(after[j].0 == entries[j].0);
    }
}

/// Setting one key leaves what is found under every other key as it was.
pub proof fn lemma_lookup_put_other(
    entries: Seq<(Seq<char>, Tree)>,
    key: Seq<char>,
    value: Tree,
    other: Seq<char>,
)
    requires
        other != key,
    ensures
        lookup(put(entries, key, value), other) == lookup(entries, other),
{
    lemma_key_index(entries, key, 0);
    lemma_key_index(entries, other, 0);
    let i = key_index(entries, key, 0);
    let after = put(entries, key, value);
    lemma_key_index(after, other, 0);
    let a = key_index(entries, other, 0);
    let b = key_index(after, other, 0);
    if a < entries.len() {
        assert(after[a] == entries[a]);
        if b < a {
            assert(after[b].0 == entries[b].0);
        }
    }
    if b < after.len() {
        if b < entries.len() {
            assert(after[b].0 == entries[b].0);
        }
    }
}

/// The index of the first character at or after `pos` that is not white
/// space, or the length of `s` where only white space is left.
pub open spec fn skip_spaces(s: Seq<char>, pos: int) -> int
    decreases s.len() - pos,
{
    if 0 <= pos < s.len() && is_space(s[pos]) {
        skip_spaces(s, pos + 1)
    } else {
        pos
    }
}

pub proof fn lemma_skip_spaces(s: Seq<char>, pos: int)
    requires
        0 <= pos <= s.len(),
    ensures
        pos <= skip_spaces(s, pos) <= s.len(),
        skip_spaces(s, pos) < s.len() ==> !is_space(s[skip_spaces(s, pos)]),
        forall|i: int| pos <= i < skip_spaces(s, pos) ==> is_space(s[i]),
    decreases s.len() - pos,
{
    if pos < s.len() && is_space(s[pos]) {
        lemma_skip_spaces(s, pos + 1);
    }
}

/// The string that opens at `pos` and where the reader stands after it. The
/// character at `pos` opens the string whatever it is; the string runs to the
/// next double quote, which is passed over, or to the end of the input.
pub open spec fn quoted(s: Seq<char>, pos: int) -> (Seq<char>, int) {
    if 0 <= pos < s.len() {
        let close = find_char(s, '"', pos + 1);
        (
            s.subrange(pos + 1, close),
            if close < s.len() {
                close + 1
            } else {
                close
            },
        )
    } else {
        (Seq::<char>::empty(), pos)
    }
}

pub proof fn lemma_quoted(s: Seq<char>, pos: int)
    requires
        0 <= pos < s.len(),
    ensures
        pos < quoted(s, pos).1 <= s.len(),
        quoted(s, pos).0.len() < s.len() - pos,
        forall|i: int| 0 <= i < quoted(s, pos).0.len() ==> quoted(s, pos).0[i] != '"',
{
    lemma_find_char(s, '"', pos + 1);
}

/// The entries of the object whose text starts at `pos`, added to `found`,
/// and where the reader stands after the object.
///
/// The object ends at its closing brace, which is passed over, or at the end
/// of the input. Each entry is a key, read as [`quoted`] reads it, and then
/// an opening brace with a nested object or a double quote with a string; a
/// key that is followed by neither is dropped. A key that comes again takes
/// the place of the earlier one (see [`put`]).
pub open spec fn entries_from(s: Seq<char>, pos: int, found: Seq<(Seq<char>, Tree)>) -> (
    Seq<(Seq<char>, Tree)>,
    int,
)
    decreases s.len() - pos,
{
    if 0 <= pos <= s.len() {
        let key_at = skip_spaces(s, pos);
        if key_at >= s.len() {
            (found, key_at)
        } else if s[key_at] == '}' {
            (found, key_at + 1)
        } else {
            let (key, after_key) = quoted(s, key_at);
            let value_at = skip_spaces(s, after_key);
            proof {
                lemma_skip_spaces(s, pos);
                lemma_quoted(s, key_at);
                lemma_skip_spaces(s, after_key);
            }
            if value_at >= s.len() {
                (found, value_at)
            } else if s[value_at] == '{' {
                let (child, end) = entries_from(s, value_at + 1, Seq::empty());
                // A nested object ends behind its opening brace and inside the
                // input (lemma_entries_from), so the test always holds; it is
                // what makes this definition well founded.
                if value_at < end <= s.len() {
                    entries_from(s, end, put(found, key, Tree::Object(child)))
                } else {
                    (found, s.len() as int)
                }
            } else if s[value_at] == '"' {
                let (text, end) = quoted(s, value_at);
                proof {
                    lemma_quoted(s, value_at);
                }
                entries_from(s, end, put(found, key, Tree::Text(text)))
            } else {
                entries_from(s, value_at, found)
            }
        }
    } else {
        (found, pos)
    }
}

/// The reader moves forward and stays inside the input, and what it builds
/// from well-formed entries is well formed.
pub proof fn lemma_entries_from(s: Seq<char>, pos: int, found: Seq<(Seq<char>, Tree)>)
    requires
        0 <= pos <= s.len(),
    ensures
        pos <= entries_from(s, pos, found).1 <= s.len(),
        pos < s.len() ==> pos < entries_from(s, pos, found).1,
        Tree::Object(found).wf() ==> Tree::Object(entries_from(s, pos, found).0).wf(),
    decreases s.len() - pos,
{
    lemma_skip_spaces(s, pos);
    let key_at = skip_spaces(s, pos);
    if key_at < s.len() && s[key_at] != '}' {
        lemma_quoted(s, key_at);
        let (key, after_key) = quoted(s, key_at);
        lemma_skip_spaces(s, after_key);
        let value_at = skip_spaces(s, after_key);
        if value_at < s.len() {
            if s[value_at] == '{' {
                lemma_entries_from(s, value_at + 1, Seq::empty());
                let (child, end) = entries_from(s, value_at + 1, Seq::empty());
                assert(Tree::Object(Seq::<(Seq<char>, Tree)>::empty()).wf());
                if Tree::Object(found).wf() {
                    lemma_put_wf(found, key, Tree::Object(child));
                }
                lemma_entries_from(s, end, put(found, key, Tree::Object(child)));
            } else if s[value_at] == '"' {
                lemma_quoted(s, value_at);
                let (text, end) = quoted(s, value_at);
                if Tree::Object(found).wf() {
                    lemma_put_wf(found, key, Tree::Text(text));
                }
                lemma_entries_from(s, end, put(found, key, Tree::Text(text)));
            } else {
                lemma_entries_from(s, value_at, found);
            }
        }
    }
}

/// Where the body of a document starts: behind the first line break, or at
/// the end of a document that has none.
pub open spec fn body_start(s: Seq<char>) -> int {
    let line_break = find_char(s, '\n', 0);
    if line_break < s.len() {
        line_break + 1
    } else {
        line_break
    }
}

/// What a document means: the object that opens at the first brace behind the
/// header line, or nothing where no brace opens one.
pub open spec fn parse_document(s: Seq<char>) -> Option<Tree> {
    let open = find_char(s, '{', body_start(s));
    if open < s.len() {
        Some(Tree::Object(entries_from(s, open + 1, Seq::empty()).0))
    } else {
        None
    }
}

/// A parsed document: a string, or an object whose entries stand in the
/// order in which their keys first appeared.
#[derive(Debug, PartialEq, Eq)]
pub enum TreeValue {
    Text(String),
    Object(Vec<(String, TreeValue)>),
}

/// What a list of entries means.
pub open spec fn entries_view(entries: Seq<(String, TreeValue)>) -> Seq<(Seq<char>, Tree)>
    decreases entries,
{
    Seq::new(
        entries.len(),
        |i: int|
            if 0 <= i < entries.len() {
                (entries[i].0@, entries[i].1.view())
            } else {
                (Seq::<char>::empty(), Tree::Text(Seq::<char>::empty()))
            },
    )
}

impl View for TreeValue {
    type V = Tree;

    open spec fn view(&self) -> Tree
        decreases self,
    {
        match self {
            TreeValue::Text(s) => Tree::Text(s@),
            TreeValue::Object(entries) => Tree::Object(entries_view(entries@)),
        }
    }
}

impl Clone for TreeValue {
    fn clone(&self) -> (r: Self)
        ensures
            r@ == self@,
        decreases self,
    {
        match self {
            TreeValue::Text(s) => TreeValue::Text(s.clone()),
            TreeValue::Object(entries) => TreeValue::Object(clone_entries(entries)),
        }
    }
}

/// A copy of `entries`, entry by entry.
pub fn clone_entries(entries: &Vec<(String, TreeValue)>) -> (r: Vec<(String, TreeValue)>)
    ensures
        entries_view(r@) == entries_view(entries@),
    decreases entries,
{
    let mut copy: Vec<(String, TreeValue)> = Vec::new();
    let mut i: usize = 0;
    while i < entries.len()
        invariant
            i <= entries.len(),
            copy.len() == i,
            forall|k: int|
                0 <= k < i ==> (#[trigger] copy@[k]).0@ == entries@[k].0@ && copy@[k].1@
                    == entries@[k].1@,
        decreases entries.len() - i,
    {
        proof {
            broadcast use vstd::std_specs::vec::axiom_vec_index_decreases;
            assert(decreases_to!(entries => entries[i as int]));
        }
        let key = entries[i].0.clone();
        let value = entries[i].1.clone();
        copy.push((key, value));
        i += 1;
    }
    assert(entries_view(copy@) =~= entries_view(entries@));
    copy
}

/// The error of a document in which no object opens.
#[derive(Debug, Clone, Copy, PartialEq, Eq)]
pub struct ManifestParseError;

impl ManifestParseError {
    /// The text that is shown for this error.
    pub fn message(&self) -> (r: String)
        ensures
            r@ == "Failed to parse manifest"@,
    {
        "Failed to parse manifest".to_owned()
    }
}

/// Sets `key` to `value` in `entries`; see [`put`].
pub fn put_entry(entries: &mut Vec<(String, TreeValue)>, key: String, value: TreeValue)
    ensures
        entries_view(final(entries)@) == put(entries_view(old(entries)@), key@, value@),
        Tree::Object(entries_view(old(entries)@)).wf() && value@.wf() ==> Tree::Object(
            entries_view(final(entries)@),
        ).wf(),
{
    let ghost before = entries_view(entries@);
    proof {
        if Tree::Object(before).wf() && value@.wf() {
            lemma_put_wf(before, key@, value@);
        }
    }
    let mut i: usize = 0;
    while i < entries.len()
        invariant
            i <= entries.len(),
            entries@ == old(entries)@,
            before == entries_view(entries@),
            key_index(before, key@, 0) == key_index(before, key@, i as int),
        decreases entries.len() - i,
    {
        if entries[i].0 == key {
            entries.set(i, (key, value));
            assert(entries_view(entries@) =~= put(before, key@, value@));
            return ;
        }
        i += 1;
    }
    entries.push((key, value));
    assert(entries_view(entries@) =~= put(before, key@, value@));
}

impl TreeValue {
    /// An object without entries.
    pub fn new_object() -> (r: TreeValue)
        ensures
            r@ == Tree::Object(Seq::empty()),
            r@.wf(),
    {
        let r = TreeValue::Object(Vec::new());
        assert(entries_view(Seq::<(String, TreeValue)>::empty()) =~= Seq::empty());
        r
    }

    /// The string, where this is one.
    pub fn as_str(&self) -> (r: Option<&str>)
        ensures
            match r {
                Some(text) => self@ == Tree::Text(text@),
                None => self@ is Object,
            },
    {
        match self {
            TreeValue::Text(s) => Some(s.as_str()),
            TreeValue::Object(_) => None,
        }
    }

    /// The entries, where this is an object.
    pub fn as_object(&self) -> (r: Option<&Vec<(String, TreeValue)>>)
        ensures
            match r {
                Some(entries) => self@ == Tree::Object(entries_view(entries@)) && *self
                    == TreeValue::Object(*entries),
                None => self@ is Text,
            },
    {
        match self {
            TreeValue::Text(_) => None,
            TreeValue::Object(entries) => Some(entries),
        }
    }

    /// The value under `key`, where this is an object that holds the key.
    pub fn get(&self, key: &str) -> (r: Option<&TreeValue>)
        ensures
            match r {
                Some(value) => self@.get(key@) == Some(value@),
                None => self@.get(key@) is None,
            },
    {
        match self {
            TreeValue::Text(_) => None,
            TreeValue::Object(entries) => {
                let wanted = key.to_owned();
                let ghost all = entries_view(entries@);
                let mut i: usize = 0;
                while i < entries.len()
                    invariant
                        i <= entries.len(),
                        wanted@ == key@,
                        all == entries_view(entries@),
                        self@ == Tree::Object(all),
                        key_index(all, key@, 0) == key_index(all, key@, i as int),
                    decreases entries.len() - i,
                {
                    assert(all[i as int] == (entries@[i as int].0@, entries@[i as int].1@));
                    if entries[i].0 == wanted {
                        return Some(&entries[i].1);
                    }
                    i += 1;
                }
                None
            },
        }
    }

    /// Whether this is an object that holds `key`.
    pub fn contains_key(&self, key: &str) -> (r: bool)
        ensures
            r == self@.get(key@).is_some(),
    {
        self.get(key).is_some()
    }
}

/// Passes over white space; see [`skip_spaces`].
pub fn skip_whitespace(input: &[char], pos: usize) -> (next: usize)
    ensures
        next == skip_spaces(input@, pos as int),
        pos <= input.len() ==> pos <= next <= input.len(),
{
    let mut i: usize = pos;
    while i < input.len() && is_whitespace(input[i])
        invariant
            pos <= i,
            pos <= input.len() ==> i <= input.len(),
            skip_spaces(input@, pos as int) == skip_spaces(input@, i as int),
        decreases input.len() - i,
    {
        i += 1;
    }
    i
}

/// Reads the string that opens at `pos`; see [`quoted`].
pub fn parse_string(input: &[char], pos: usize) -> (r: (String, usize))
    ensures
        r.0@ == quoted(input@, pos as int).0,
        r.1 == quoted(input@, pos as int).1,
        pos < input.len() ==> pos < r.1 <= input.len(),
{
    if pos < input.len() {
        let close = index_of(input, '"', pos + 1);
        let text = text_of(input, pos + 1, close);
        if close < input.len() {
            (text, close + 1)
        } else {
            (text, close)
        }
    } else {
        (String::new(), pos)
    }
}

/// Reads the object whose text starts at `pos`, behind its opening brace;
/// see [`entries_from`].
pub fn parse_object(input: &[char], pos: usize) -> (r: (TreeValue, usize))
    ensures
        r.0@ == Tree::Object(entries_from(input@, pos as int, Seq::empty()).0),
        r.1 == entries_from(input@, pos as int, Seq::empty()).1,
        r.0@.wf(),
        pos <= input.len() ==> pos <= r.1 <= input.len(),
        pos < input.len() ==> pos < r.1,
    decreases input.len() - pos,
{
    let mut entries: Vec<(String, TreeValue)> = Vec::new();
    assert(entries_view(entries@) =~= Seq::empty());
    if pos > input.len() {
        return (TreeValue::Object(entries), pos);
    }
    let mut cur: usize = pos;
    loop
        invariant
            pos <= cur <= input.len(),
            entries_from(input@, pos as int, Seq::empty()) == entries_from(
                input@,
                cur as int,
                entries_view(entries@),
            ),
            Tree::Object(entries_view(entries@)).wf(),
        decreases input.len() - cur,
    {
        proof {
            lemma_entries_from(input@, cur as int, entries_view(entries@));
        }
        let key_at = skip_whitespace(input, cur);
        if key_at >= input.len() {
            return (TreeValue::Object(entries), key_at);
        }
        if input[key_at] == '}' {
            return (TreeValue::Object(entries), key_at + 1);
        }
        let (key, after_key) = parse_string(input, key_at);
        let value_at = skip_whitespace(input, after_key);
        if value_at >= input.len() {
            return (TreeValue::Object(entries), value_at);
        }
        if input[value_at] == '{' {
            let (child, end) = parse_object(input, value_at + 1);
            proof {
                lemma_put_wf(entries_view(entries@), key@, child@);
            }
            put_entry(&mut entries, key, child);
            cur = end;
        } else if input[value_at] == '"' {
            let (text, end) = parse_string(input, value_at);
            proof {
                lemma_put_wf(entries_view(entries@), key@, Tree::Text(text@));
            }
            put_entry(&mut entries, key, TreeValue::Text(text));
            cur = end;
        } else {
            cur = value_at;
        }
    }
}

/// Reads a document: drops the header line, finds the brace that opens the
/// root object and reads that object; see [`parse_document`].
///
/// Fails where no brace opens an object behind the header line, and on no
/// other document.
pub fn parse_manifest(text: &str) -> (r: Result<TreeValue, ManifestParseError>)
    ensures
        match parse_document(text@) {
            Some(tree) => r matches Ok(value) && value@ == tree && value@.wf(),
            None => r is Err,
        },
{
    let input = chars_of(text);
    let line_break = index_of(input.as_slice(), '\n', 0);
    let body = if line_break < input.len() {
        line_break + 1
    } else {
        line_break
    };
    let open = index_of(input.as_slice(), '{', body);
    if open < input.len() {
        let (value, _) = parse_object(input.as_slice(), open + 1);
        Ok(value)
    } else {
        Err(ManifestParseError)
    }
}

/// Reading the same text twice gives the same tree.
pub proof fn lemma_parse_is_a_function(first: Seq<char>, second: Seq<char>)
    requires
        first == second,
    ensures
        parse_document(first) == parse_document(second),
{
}

/// A text without an opening brace is no document.
pub proof fn lemma_parse_needs_brace(s: Seq<char>)
    requires
        !s.contains('{'),
    ensures
        parse_document(s) is None,
{
    lemma_find_char(s, '\n', 0);
    lemma_find_char(s, '{', body_start(s));
    let open = find_char(s, '{', body_start(s));
    if open < s.len() {
        assert(s.contains(s[open]));
    }
}

/// What is read is an object, and each of its objects holds each key once.
pub proof fn lemma_parse_wf(s: Seq<char>)
    ensures
        parse_document(s) matches Some(tree) ==> tree is Object && tree.wf(),
{
    lemma_find_char(s, '\n', 0);
    lemma_find_char(s, '{', body_start(s));
    let open = find_char(s, '{', body_start(s));
    if open < s.len() {
        assert(Tree::Object(Seq::<(Seq<char>, Tree)>::empty()).wf());
        lemma_entries_from(s, open + 1, Seq::empty());
    }
}

/// A header line and an object that closes at once make the empty object.
pub proof fn lemma_parse_empty_object(header: Seq<char>)
    requires
        !header.contains('\n'),
        !header.contains('{'),
    ensures
        parse_document(header + seq!['\n', '{', '}']) == Some(
            Tree::Object(Seq::<(Seq<char>, Tree)>::empty()),
        ),
{
    let s = header + seq!['\n', '{', '}'];
    let n = header.len() as int;
    lemma_find_char(s, '\n', 0);
    let line_break = find_char(s, '\n', 0);
    assert(s[n] == '\n');
    if line_break < n {
        assert(header[line_break] == s[line_break]);
        assert(header.contains('\n'));
    }
    assert(line_break == n);
    lemma_find_char(s, '{', n + 1);
    assert(s[n + 1] == '{');
    assert(find_char(s, '{', n + 1) == n + 1);
    assert(s[n + 2] == '}');
    assert(!is_space('}'));
    assert(skip_spaces(s, n + 2) == n + 2);
}

} // verus!
