//! What the user keeps about the library: favourite and hidden titles, and
//! the account that each title is started with.
use vstd::prelude::*;
use std::collections::HashMap;
use vstd::std_specs::iter::IteratorSpec;
use crate::text::{decimal, decimal_text, i32_value, lemma_decimal_i32_round_trip, parse_i32};

verus! {

/// The index of the first element at or after `from` that equals `id`, or the
/// length of `list` where there is none.
pub open spec fn first_index(list: Seq<i32>, id: i32, from: int) -> int
    decreases list.len() - from,
{
    if 0 <= from < list.len() {
        if list[from] == id {
            from
        } else {
            first_index(list, id, from + 1)
        }
    } else {
        from
    }
}

pub proof fn lemma_first_index(list: Seq<i32>, id: i32, from: int)
    requires
        0 <= from <= list.len(),
    ensures
        from <= first_index(list, id, from) <= list.len(),
        first_index(list, id, from) < list.len() ==> list[first_index(list, id, from)] == id,
        forall|i: int| from <= i < first_index(list, id, from) ==> list[i] != id,
    decreases list.len() - from,
{
    if from < list.len() && list[from] != id {
        lemma_first_index(list, id, from + 1);
    }
}

/// An element is found exactly where the list holds it.
pub proof fn lemma_first_index_contains(list: Seq<i32>, id: i32)
    ensures
        first_index(list, id, 0) < list.len() <==> list.contains(id),
{
    lemma_first_index(list, id, 0);
    let at = first_index(list, id, 0);
    if at < list.len() {
        assert(list[at] == id);
    }
}

/// The list with `id` at its end, unless it holds `id` already.
pub open spec fn with_id(list: Seq<i32>, id: i32) -> Seq<i32> {
    if list.contains(id) {
        list
    } else {
        list.push(id)
    }
}

/// The list without the first `id` that it holds.
pub open spec fn without_id(list: Seq<i32>, id: i32) -> Seq<i32> {
    let at = first_index(list, id, 0);
    if at < list.len() {
        list.remove(at)
    } else {
        list
    }
}

/// Scans `list` for `id`; see [`first_index`].
pub fn position(list: &Vec<i32>, id: i32) -> (r: usize)
    ensures
        r == first_index(list@, id, 0),
        r <= list.len(),
        r < list.len() <==> list@.contains(id),
{
    let mut i: usize = 0;
    while i < list.len() && list[i] != id
        invariant
            i <= list.len(),
            first_index(list@, id, 0) == first_index(list@, id, i as int),
        decreases list.len() - i,
    {
        i += 1;
    }
    proof {
        lemma_first_index(list@, id, 0);
        lemma_first_index_contains(list@, id);
    }
    i
}

/// The ids that the names `names[at..]` write, one for each name and in the
/// order of the names, behind those in `found`. A name that writes no 32-bit
/// integer counts for nothing; an id that two names write stands twice.
pub open spec fn listed_ids(names: Seq<String>, at: int, found: Seq<i32>) -> Seq<i32>
    decreases names.len() - at,
{
    if 0 <= at < names.len() {
        listed_ids(
            names,
            at + 1,
            match i32_value(names[at]@) {
                Some(id) => found.push(id),
                None => found,
            },
        )
    } else {
        found
    }
}

/// The ids that the names `names[at..]` write, each once: an id is added to
/// `found` unless it is there. A name that writes no 32-bit integer counts
/// for nothing.
pub open spec fn ids_of(names: Seq<String>, at: int, found: Seq<i32>) -> Seq<i32>
    decreases names.len() - at,
{
    if 0 <= at < names.len() {
        ids_of(
            names,
            at + 1,
            match i32_value(names[at]@) {
                Some(id) => with_id(found, id),
                None => found,
            },
        )
    } else {
        found
    }
}

/// The choices that `values[at..]` write, entered into `found`: the name of a
/// value writes the title's id, its number is the account's identifier, taken
/// as the signed number with the same 64 bits. A name that writes no 32-bit
/// integer counts for nothing; of two values for one title the later stays.
pub open spec fn choices_of(values: Seq<(String, u64)>, at: int, found: Map<i32, i64>) -> Map<
    i32,
    i64,
>
    decreases values.len() - at,
{
    if 0 <= at < values.len() {
        choices_of(
            values,
            at + 1,
            match i32_value(values[at].0@) {
                Some(game) => found.insert(game, values[at].1 as i64),
                None => found,
            },
        )
    } else {
        found
    }
}

/// The elements of `list[at..]` that `other` does not hold, behind those in
/// `found`.
pub open spec fn absent_from(list: Seq<i32>, at: int, found: Seq<i32>, other: Seq<i32>) -> Seq<i32>
    decreases list.len() - at,
{
    if 0 <= at < list.len() {
        absent_from(
            list,
            at + 1,
            if other.contains(list[at]) {
                found
            } else {
                found.push(list[at])
            },
            other,
        )
    } else {
        found
    }
}

/// [`absent_from`] holds an element exactly when it was found before, or
/// `list[at..]` holds it and `other` does not.
pub proof fn lemma_absent_from(list: Seq<i32>, at: int, found: Seq<i32>, other: Seq<i32>, id: i32)
    requires
        0 <= at <= list.len(),
    ensures
        absent_from(list, at, found, other).contains(id) <==> found.contains(id) || (
        !other.contains(id) && exists|i: int| at <= i < list.len() && list[i] == id),
    decreases list.len() - at,
{
    if at < list.len() {
        let next = if other.contains(list[at]) {
            found
        } else {
            found.push(list[at])
        };
        lemma_absent_from(list, at + 1, next, other, id);
        if !other.contains(list[at]) {
            assert(next[found.len() as int] == list[at]);
            if next.contains(id) && !found.contains(id) {
                let k = choose|k: int| 0 <= k < next.len() && next[k] == id;
                if k < found.len() {
                    assert(found[k] == id);
                }
            }
            if found.contains(id) {
                let k = choose|k: int| 0 <= k < found.len() && found[k] == id;
                assert(next[k] == id);
            }
        }
        if exists|i: int| at <= i < list.len() && list[i] == id {
            let i = choose|i: int| at <= i < list.len() && list[i] == id;
            if i != at {
                assert(at + 1 <= i < list.len() && list[i] == id);
            }
        }
    }
}

/// The value that stores the choice of `account` for the title `game`: its
/// name is the title's id in decimal, its number the account's identifier,
/// taken as the unsigned number with the same 64 bits.
pub open spec fn account_value(game: i32, account: i64) -> (Seq<char>, u64) {
    (decimal_text(game as int), account as u64)
}

/// What a list of values means.
pub open spec fn values_view(values: Seq<(String, u64)>) -> Seq<(Seq<char>, u64)> {
    Seq::new(values.len(), |i: int| (values[i].0@, values[i].1))
}

/// Whether `value` stores one of the choices `accounts`.
pub open spec fn is_choice(value: (Seq<char>, u64), accounts: Map<i32, i64>) -> bool {
    exists|game: i32|
        #![trigger accounts.contains_key(game)]
        accounts.contains_key(game) && value == account_value(game, accounts[game])
}

/// Whether `values` store the choices `accounts`: one value for each title
/// that has a choice, no other value, and no name twice. The order of the
/// values is left open.
pub open spec fn stores_choices(values: Seq<(Seq<char>, u64)>, accounts: Map<i32, i64>) -> bool {
    &&& values.len() == accounts.dom().len()
    &&& forall|i: int| 0 <= i < values.len() ==> is_choice(#[trigger] values[i], accounts)
    &&& forall|game: i32|
        #![trigger accounts.contains_key(game)]
        accounts.contains_key(game) ==> values.contains(account_value(game, accounts[game]))
    &&& forall|i: int, j: int|
        0 <= i < j < values.len() ==> (#[trigger] values[i]).0 != (#[trigger] values[j]).0
}

/// The id that the name of the value `values[i]` writes.
pub open spec fn written_game(values: Seq<(String, u64)>, i: int) -> Option<i32> {
    i32_value(values[i].0@)
}

/// What [`choices_of`] holds for one title: where none of `values[at..]` is
/// for the title, what `found` holds for it; and else the number of the last
/// of them that is for the title.
pub proof fn lemma_choices_of(values: Seq<(String, u64)>, at: int, found: Map<i32, i64>, game: i32)
    requires
        0 <= at <= values.len(),
    ensures
        (forall|i: int| at <= i < values.len() ==> #[trigger] written_game(values, i) != Some(game))
            ==> (choices_of(values, at, found).contains_key(game) <==> found.contains_key(game))
            && (found.contains_key(game) ==> choices_of(values, at, found)[game] == found[game]),
        forall|i: int|
            at <= i < values.len() && #[trigger] written_game(values, i) == Some(game) && (forall|
                j: int,
            |
                i < j < values.len() ==> #[trigger] written_game(values, j) != Some(game))
                ==> choices_of(values, at, found).contains_key(game) && choices_of(
                values,
                at,
                found,
            )[game] == values[i].1 as i64,
    decreases values.len() - at,
{
    if at < values.len() {
        let next = match i32_value(values[at].0@) {
            Some(g) => found.insert(g, values[at].1 as i64),
            None => found,
        };
        lemma_choices_of(values, at + 1, next, game);
        assert(choices_of(values, at, found) == choices_of(values, at + 1, next));
        if forall|i: int| at <= i < values.len() ==> #[trigger] written_game(values, i) != Some(game) {
            assert(written_game(values, at) != Some(game));
            assert forall|i: int| at + 1 <= i < values.len() implies #[trigger] written_game(
                values,
                i,
            ) != Some(game) by {}
        }
        assert forall|i: int|
            at <= i < values.len() && #[trigger] written_game(values, i) == Some(game) && (forall|
                j: int,
            |
                i < j < values.len() ==> #[trigger] written_game(values, j) != Some(
                    game,
                )) implies choices_of(values, at, found).contains_key(game) && choices_of(
            values,
            at,
            found,
        )[game] == values[i].1 as i64 by {
            if i == at {
                assert forall|j: int| at + 1 <= j < values.len() implies #[trigger] written_game(
                    values,
                    j,
                ) != Some(game) by {}
                assert(next.contains_key(game) && next[game] == values[at].1 as i64);
            }
        }
    }
}

/// Stored choices are loaded back as they were: what
/// [`WaitSettings::account_values`] gives, [`WaitSettings::load`] reads as
/// the same choices.
pub proof fn lemma_stored_choices_load_back(values: Seq<(String, u64)>, accounts: Map<i32, i64>)
    requires
        stores_choices(values_view(values), accounts),
    ensures
        choices_of(values, 0, Map::empty()) == accounts,
{
    let view = values_view(values);
    let loaded = choices_of(values, 0, Map::empty());
    // each value is for the title whose choice it stores
    assert forall|i: int| 0 <= i < values.len() implies (#[trigger] written_game(values, i))
        matches Some(g) && accounts.contains_key(g) && view[i] == account_value(g, accounts[g]) by {
        assert(is_choice(view[i], accounts));
        let g = choose|g: i32|
            #![trigger accounts.contains_key(g)]
            accounts.contains_key(g) && view[i] == account_value(g, accounts[g]);
        lemma_decimal_i32_round_trip(g);
    }
    assert forall|game: i32| #[trigger] loaded.contains_key(game) == accounts.contains_key(game) && (
    accounts.contains_key(game) ==> loaded[game] == accounts[game]) by {
        lemma_choices_of(values, 0, Map::empty(), game);
        if accounts.contains_key(game) {
            let wanted = account_value(game, accounts[game]);
            assert(view.contains(wanted));
            let i = choose|i: int| 0 <= i < view.len() && view[i] == wanted;
            lemma_decimal_i32_round_trip(game);
            assert(written_game(values, i) == Some(game));
            assert forall|j: int| i < j < values.len() implies #[trigger] written_game(values, j)
                != Some(game) by {
                if written_game(values, j) == Some(game) {
                    assert(view[j] == account_value(game, accounts[game]));
                    assert(view[i].0 != view[j].0);
                }
            }
            let account = accounts[game];
            assert((account as u64) as i64 == account) by (bit_vector);
        } else {
            assert forall|i: int| 0 <= i < values.len() implies #[trigger] written_game(values, i)
                != Some(game) by {}
        }
    }
    assert(loaded =~= accounts);
}

/// A list with an element at its end holds that element and what it held.
pub proof fn lemma_push_contains(list: Seq<i32>, id: i32, other: i32)
    ensures
        list.push(id).contains(other) <==> list.contains(other) || other == id,
{
    let after = list.push(id);
    assert(after[list.len() as int] == id);
    if list.contains(other) {
        let k = choose|k: int| 0 <= k < list.len() && list[k] == other;
        assert(after[k] == other);
    }
    if after.contains(other) {
        let k = choose|k: int| 0 <= k < after.len() && after[k] == other;
        if k < list.len() {
            assert(list[k] == other);
        }
    }
}

/// The ids that names write are the same whether each is kept once or once
/// for each name: [`ids_of`] and [`listed_ids`] hold the same ids.
pub proof fn lemma_same_ids(names: Seq<String>, at: int, once: Seq<i32>, each: Seq<i32>, id: i32)
    requires
        0 <= at <= names.len(),
        forall|x: i32| once.contains(x) <==> each.contains(x),
    ensures
        ids_of(names, at, once).contains(id) <==> listed_ids(names, at, each).contains(id),
    decreases names.len() - at,
{
    if at < names.len() {
        match i32_value(names[at]@) {
            Some(found) => {
                assert forall|x: i32| with_id(once, found).contains(x) <==> each.push(
                    found,
                ).contains(x) by {
                    lemma_push_contains(once, found, x);
                    lemma_push_contains(each, found, x);
                }
                lemma_same_ids(names, at + 1, with_id(once, found), each.push(found), id);
            },
            None => {
                lemma_same_ids(names, at + 1, once, each, id);
            },
        }
    }
}

/// What a plan leaves stored is what the settings hold: an id is among
/// `wanted` exactly when it was stored and is not deleted, or is created.
pub proof fn lemma_save_plan(stored: Seq<i32>, wanted: Seq<i32>, id: i32)
    ensures
        wanted.contains(id) <==> (stored.contains(id) && !absent_from(
            stored,
            0,
            Seq::empty(),
            wanted,
        ).contains(id)) || absent_from(wanted, 0, Seq::empty(), stored).contains(id),
{
    lemma_absent_from(stored, 0, Seq::empty(), wanted, id);
    lemma_absent_from(wanted, 0, Seq::empty(), stored, id);
    if stored.contains(id) {
        let k = choose|k: int| 0 <= k < stored.len() && stored[k] == id;
        assert(0 <= k < stored.len() && stored[k] == id);
    }
    if wanted.contains(id) {
        let k = choose|k: int| 0 <= k < wanted.len() && wanted[k] == id;
        assert(0 <= k < wanted.len() && wanted[k] == id);
    }
}

/// What has to be done to the stored favourites and hidden titles so that
/// they are the ones of the settings.
#[derive(Debug, Clone, PartialEq, Eq)]
pub struct SavePlan {
    /// Stored favourites that are none any more.
    pub delete_favorites: Vec<i32>,
    /// Favourites that are not stored yet.
    pub create_favorites: Vec<i32>,
    /// Stored hidden titles that are hidden no more.
    pub delete_hidden: Vec<i32>,
    /// Hidden titles that are not stored yet.
    pub create_hidden: Vec<i32>,
    /// The values to write for the chosen accounts: for each title that has
    /// a choice, the name of its value and the number to store under it.
    pub accounts: Vec<(String, u64)>,
}

/// The name under which the title `id` is stored: the id in decimal, which
/// is read back as that id.
pub fn key_name(id: i32) -> (r: String)
    ensures
        r@ == decimal_text(id as int),
        i32_value(r@) == Some(id),
{
    proof {
        lemma_decimal_i32_round_trip(id);
    }
    decimal(id as i64)
}

/// Reads the ids that `names` write, one for each name; see [`listed_ids`].
pub fn read_listed(names: &Vec<String>) -> (r: Vec<i32>)
    ensures
        r@ == listed_ids(names@, 0, Seq::empty()),
{
    let mut found: Vec<i32> = Vec::new();
    let mut i: usize = 0;
    while i < names.len()
        invariant
            i <= names.len(),
            listed_ids(names@, 0, Seq::empty()) == listed_ids(names@, i as int, found@),
        decreases names.len() - i,
    {
        match parse_i32(names[i].as_str()) {
            Some(id) => {
                found.push(id);
            },
            None => {},
        }
        i += 1;
    }
    found
}

/// Reads the ids that `names` write, each once; see [`ids_of`].
pub fn read_ids(names: &Vec<String>) -> (r: Vec<i32>)
    ensures
        r@ == ids_of(names@, 0, Seq::empty()),
        r@.no_duplicates(),
{
    let mut found: Vec<i32> = Vec::new();
    let mut i: usize = 0;
    while i < names.len()
        invariant
            i <= names.len(),
            ids_of(names@, 0, Seq::empty()) == ids_of(names@, i as int, found@),
            found@.no_duplicates(),
        decreases names.len() - i,
    {
        match parse_i32(names[i].as_str()) {
            Some(id) => {
                let ghost before = found@;
                let at = position(&found, id);
                if at == found.len() {
                    found.push(id);
                    proof {
                        lemma_push_new(before, id);
                    }
                }
            },
            None => {},
        }
        i += 1;
    }
    found
}

/// The elements of `list` that `other` does not hold; see [`absent_from`].
pub fn difference(list: &Vec<i32>, other: &Vec<i32>) -> (r: Vec<i32>)
    ensures
        r@ == absent_from(list@, 0, Seq::empty(), other@),
{
    let mut found: Vec<i32> = Vec::new();
    let mut i: usize = 0;
    while i < list.len()
        invariant
            i <= list.len(),
            absent_from(list@, 0, Seq::empty(), other@) == absent_from(
                list@,
                i as int,
                found@,
                other@,
            ),
        decreases list.len() - i,
    {
        if position(other, list[i]) == other.len() {
            found.push(list[i]);
        }
        i += 1;
    }
    found
}

/// Favourite titles, hidden titles, and the account chosen for each title.
#[derive(Debug, Clone)]
pub struct WaitSettings {
    pub favorites: Vec<i32>,
    pub hidden: Vec<i32>,
    /// From a title's id to the 64-bit identifier of the account.
    pub accounts: HashMap<i32, i64>,
}

impl Default for WaitSettings {
    fn default() -> (r: WaitSettings)
        ensures
            r.favorites@ == Seq::<i32>::empty(),
            r.hidden@ == Seq::<i32>::empty(),
            r.accounts@ == Map::<i32, i64>::empty(),
            r.wf(),
    {
        WaitSettings::new()
    }
}

impl WaitSettings {
    /// No title is listed twice as a favourite, or twice as hidden.
    pub open spec fn wf(&self) -> bool {
        self.favorites@.no_duplicates() && self.hidden@.no_duplicates()
    }

    /// Settings in which nothing is marked and no account is chosen.
    pub fn new() -> (r: WaitSettings)
        ensures
            r.favorites@ == Seq::<i32>::empty(),
            r.hidden@ == Seq::<i32>::empty(),
            r.accounts@ == Map::<i32, i64>::empty(),
            r.wf(),
    {
        WaitSettings { favorites: Vec::new(), hidden: Vec::new(), accounts: HashMap::new() }
    }

    /// Marks `id` as a favourite, unless it is one.
    pub fn add_favorite(&mut self, id: i32)
        ensures
            final(self).favorites@ == with_id(old(self).favorites@, id),
            final(self).favorites@.contains(id),
            final(self).hidden == old(self).hidden,
            final(self).accounts == old(self).accounts,
            old(self).wf() ==> final(self).wf(),
    {
        let at = position(&self.favorites, id);
        if at == self.favorites.len() {
            self.favorites.push(id);
            proof {
                lemma_push_new(old(self).favorites@, id);
            }
        }
    }

    /// Takes `id` from the favourites, where it is one.
    pub fn remove_favorite(&mut self, id: i32)
        ensures
            final(self).favorites@ == without_id(old(self).favorites@, id),
            final(self).hidden == old(self).hidden,
            final(self).accounts == old(self).accounts,
            old(self).wf() ==> final(self).wf() && !final(self).favorites@.contains(id),
    {
        let at = position(&self.favorites, id);
        if at < self.favorites.len() {
            self.favorites.remove(at);
            proof {
                lemma_remove_found(old(self).favorites@, id);
            }
        }
    }

    /// Hides `id`, unless it is hidden.
    pub fn add_hidden(&mut self, id: i32)
        ensures
            final(self).hidden@ == with_id(old(self).hidden@, id),
            final(self).hidden@.contains(id),
            final(self).favorites == old(self).favorites,
            final(self).accounts == old(self).accounts,
            old(self).wf() ==> final(self).wf(),
    {
        let at = position(&self.hidden, id);
        if at == self.hidden.len() {
            self.hidden.push(id);
            proof {
                lemma_push_new(old(self).hidden@, id);
            }
        }
    }

    /// Shows `id` again, where it is hidden.
    pub fn remove_hidden(&mut self, id: i32)
        ensures
            final(self).hidden@ == without_id(old(self).hidden@, id),
            final(self).favorites == old(self).favorites,
            final(self).accounts == old(self).accounts,
            old(self).wf() ==> final(self).wf() && !final(self).hidden@.contains(id),
    {
        let at = position(&self.hidden, id);
        if at < self.hidden.len() {
            self.hidden.remove(at);
            proof {
                lemma_remove_found(old(self).hidden@, id);
            }
        }
    }

    /// Takes the settings from what is stored: the names of the stored
    /// favourites, the names of the stored hidden titles, and the stored
    /// choices of accounts; see [`listed_ids`] and [`choices_of`]. What the
    /// settings held before is gone.
    ///
    /// Every name that writes an id gives one entry, so the settings are
    /// free of repeats exactly where no two stored names write one id.
    pub fn load(
        &mut self,
        favorites: &Vec<String>,
        hidden: &Vec<String>,
        accounts: &Vec<(String, u64)>,
    )
        ensures
            final(self).favorites@ == listed_ids(favorites@, 0, Seq::empty()),
            final(self).hidden@ == listed_ids(hidden@, 0, Seq::empty()),
            final(self).accounts@ == choices_of(accounts@, 0, Map::empty()),
            final(self).wf() <==> listed_ids(favorites@, 0, Seq::empty()).no_duplicates()
                && listed_ids(hidden@, 0, Seq::empty()).no_duplicates(),
    {
        broadcast use vstd::std_specs::hash::group_hash_axioms;

        let mut chosen: HashMap<i32, i64> = HashMap::new();
        let mut i: usize = 0;
        while i < accounts.len()
            invariant
                i <= accounts.len(),
                choices_of(accounts@, 0, Map::empty()) == choices_of(accounts@, i as int, chosen@),
            decreases accounts.len() - i,
        {
            match parse_i32(accounts[i].0.as_str()) {
                Some(game) => {
                    chosen.insert(game, accounts[i].1 as i64);
                },
                None => {},
            }
            i += 1;
        }
        self.favorites = read_listed(favorites);
        self.hidden = read_listed(hidden);
        self.accounts = chosen;
    }

    /// What has to be written to store these settings: what has to be
    /// deleted from and added to the stored favourites and hidden titles,
    /// whose names are given, and the value to write for each chosen account;
    /// see [`absent_from`] and [`stores_choices`]. A favourite or hidden title
    /// is stored under its [`key_name`].
    pub fn save(&self, favorites: &Vec<String>, hidden: &Vec<String>) -> (r: SavePlan)
        ensures
            r.delete_favorites@ == absent_from(
                ids_of(favorites@, 0, Seq::empty()),
                0,
                Seq::empty(),
                self.favorites@,
            ),
            r.create_favorites@ == absent_from(
                self.favorites@,
                0,
                Seq::empty(),
                ids_of(favorites@, 0, Seq::empty()),
            ),
            r.delete_hidden@ == absent_from(
                ids_of(hidden@, 0, Seq::empty()),
                0,
                Seq::empty(),
                self.hidden@,
            ),
            r.create_hidden@ == absent_from(
                self.hidden@,
                0,
                Seq::empty(),
                ids_of(hidden@, 0, Seq::empty()),
            ),
            stores_choices(values_view(r.accounts@), self.accounts@),
    {
        let stored_favorites = read_ids(favorites);
        let stored_hidden = read_ids(hidden);
        SavePlan {
            delete_favorites: difference(&stored_favorites, &self.favorites),
            create_favorites: difference(&self.favorites, &stored_favorites),
            delete_hidden: difference(&stored_hidden, &self.hidden),
            create_hidden: difference(&self.hidden, &stored_hidden),
            accounts: self.account_values(),
        }
    }

    /// The values that store the chosen accounts, one for each title that has
    /// a choice; see [`account_value`] and [`stores_choices`]. Their order is
    /// the one in which the map is walked, which is not fixed.
    pub fn account_values(&self) -> (r: Vec<(String, u64)>)
        ensures
            stores_choices(values_view(r@), self.accounts@),
    {
        broadcast use vstd::std_specs::hash::group_hash_axioms;

        let mut out: Vec<(String, u64)> = Vec::new();
        let ghost chosen = self.accounts@;
        let ghost walked = self.accounts.iter().remaining();
        for pair in it: self.accounts.iter()
            invariant
                chosen == self.accounts@,
                walked == it.seq(),
                out.len() == it.index(),
                forall|k: int|
                    0 <= k < it.index() ==> (out@[k].0@, out@[k].1) == account_value(
                        *(#[trigger] it.seq()[k]).0,
                        *it.seq()[k].1,
                    ),
        {
            let (game, account) = pair;
            out.push((key_name(*game), #[verifier::truncate] (*account as u64)));
        }
        proof {
            let values = values_view(out@);
            assert(values.len() == walked.len());
            assert forall|i: int| 0 <= i < values.len() implies is_choice(
                #[trigger] values[i],
                chosen,
            ) by {
                let game = *walked[i].0;
                assert(chosen.contains_key(game) && chosen[game] == *walked[i].1);
            }
            assert forall|game: i32|
                #![trigger chosen.contains_key(game)]
                chosen.contains_key(game) implies values.contains(
                account_value(game, chosen[game]),
            ) by {
                assert(walked.contains((&game, &chosen[game])));
                let i = choose|i: int| 0 <= i < walked.len() && walked[i] == (&game, &chosen[game]);
                assert(values[i] == account_value(game, chosen[game]));
            }
            assert forall|i: int, j: int| 0 <= i < j < values.len() implies (#[trigger] values[i]).0
                != (#[trigger] values[j]).0 by {
                let a = *walked[i].0;
                let b = *walked[j].0;
                assert(chosen.contains_key(a) && chosen[a] == *walked[i].1);
                assert(chosen.contains_key(b) && chosen[b] == *walked[j].1);
                assert(walked[i] != walked[j]);
                lemma_decimal_i32_round_trip(a);
                lemma_decimal_i32_round_trip(b);
            }
            assert(walked.len() == chosen.dom().len());
            assert(values.len() == chosen.dom().len());
            assert(stores_choices(values, chosen));
        }
        out
    }

    /// The account with which the title `game` is started: the one that was
    /// chosen for it, or `selected` where none was chosen yet, which then is
    /// the choice.
    pub fn account_for(&mut self, game: i32, selected: i64) -> (r: i64)
        ensures
            r == if old(self).accounts@.contains_key(game) {
                old(self).accounts@[game]
            } else {
                selected
            },
            final(self).accounts@ == old(self).accounts@.insert(game, r),
            final(self).favorites == old(self).favorites,
            final(self).hidden == old(self).hidden,
    {
        broadcast use vstd::std_specs::hash::group_hash_axioms;

        let chosen = match self.accounts.get(&game) {
            Some(account) => Some(*account),
            None => None,
        };
        match chosen {
            Some(account) => {
                assert(self.accounts@.insert(game, account) =~= self.accounts@);
                account
            },
            None => {
                self.accounts.insert(game, selected);
                selected
            },
        }
    }

    /// Chooses `account` for the title `game`, in place of an earlier choice.
    pub fn add_account(&mut self, game: i32, account: i64)
        ensures
            final(self).accounts@ == old(self).accounts@.insert(game, account),
            final(self).favorites == old(self).favorites,
            final(self).hidden == old(self).hidden,
    {
        broadcast use vstd::std_specs::hash::group_hash_axioms;

        self.accounts.insert(game, account);
    }
}

/// A new element at the end keeps a list free of duplicates.
pub proof fn lemma_push_new(list: Seq<i32>, id: i32)
    requires
        !list.contains(id),
    ensures
        list.push(id).contains(id),
        list.no_duplicates() ==> list.push(id).no_duplicates(),
{
    let after = list.push(id);
    assert(after[list.len() as int] == id);
    if list.no_duplicates() {
        assert forall|i: int, j: int| 0 <= i < after.len() && 0 <= j < after.len() && i != j implies after[i] != after[j] by {
            if i < list.len() && j < list.len() {
            } else if i < list.len() {
                assert(list.contains(list[i]));
            } else {
                assert(list.contains(list[j]));
            }
        }
    }
}

/// Without its first `id`, a list free of duplicates holds no `id` at all.
pub proof fn lemma_remove_found(list: Seq<i32>, id: i32)
    requires
        first_index(list, id, 0) < list.len(),
    ensures
        list.no_duplicates() ==> without_id(list, id).no_duplicates() && !without_id(
            list,
            id,
        ).contains(id),
{
    lemma_first_index(list, id, 0);
    let at = first_index(list, id, 0);
    let after = list.remove(at);
    if list.no_duplicates() {
        assert forall|i: int, j: int| 0 <= i < after.len() && 0 <= j < after.len() && i != j implies after[i] != after[j] by {
            let a = if i < at { i } else { i + 1 };
            let b = if j < at { j } else { j + 1 };
            assert(after[i] == list[a]);
            assert(after[j] == list[b]);
        }
        if after.contains(id) {
            let k = choose|k: int| 0 <= k < after.len() && after[k] == id;
            let a = if k < at { k } else { k + 1 };
            assert(after[k] == list[a]);
            assert(list[a] == list[at]);
        }
    }
}

} // verus!
