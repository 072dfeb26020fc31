//! The values that discovery produces: identities, accounts, installed
//! titles and their cover art.
use vstd::prelude::*;
use std::collections::HashSet;
use vstd::std_specs::cmp::PartialEqSpec;
use vstd::std_specs::convert::FromSpecImpl;

verus! {

/// A Steam identity: the 64-bit platform identifier and the per-machine
/// identifier, which is the low 32 bits of the first.
#[derive(Debug, Clone, Copy, PartialEq, Eq, Structural)]
pub struct SteamID {
    pub id3: i64,
    pub id64: i64,
}

/// The low 32 bits of `id64`.
pub open spec fn low_bits(id64: i64) -> i64 {
    id64 & 0xFFFF_FFFF
}

/// The low 32 bits of any 64-bit value, negative ones too, lie in `0 .. 2^32`.
pub proof fn lemma_low_bits_range(id64: i64)
    ensures
        0 <= low_bits(id64) < 0x1_0000_0000,
{
    assert(0 <= (id64 & 0xFFFF_FFFF) < 0x1_0000_0000) by (bit_vector);
}

/// The identity that belongs to the 64-bit identifier `id64`.
pub open spec fn steam_id(id64: i64) -> SteamID {
    SteamID { id3: low_bits(id64), id64 }
}

impl SteamID {
    /// Whether `id3` is the one that belongs to `id64`.
    pub open spec fn wf(&self) -> bool {
        self.id3 == low_bits(self.id64)
    }
}

impl FromSpecImpl<i64> for SteamID {
    open spec fn obeys_from_spec() -> bool {
        true
    }

    open spec fn from_spec(id64: i64) -> SteamID {
        steam_id(id64)
    }
}

impl From<i64> for SteamID {
    /// The identity that belongs to the 64-bit identifier `id64`.
    fn from(id64: i64) -> (r: SteamID)
        ensures
            r == steam_id(id64),
            r.id64 == id64,
            r.id3 == id64 & 0xFFFF_FFFF,
            0 <= r.id3 < 0x1_0000_0000,
            r.wf(),
    {
        proof {
            lemma_low_bits_range(id64);
        }
        SteamID { id3: id64 & 0xFFFF_FFFF, id64 }
    }
}

impl Default for SteamID {
    fn default() -> (r: SteamID)
        ensures
            r.id64 == 0,
            r.id3 == 0,
            r.wf(),
    {
        assert(0i64 & 0xFFFF_FFFF == 0) by (bit_vector);
        SteamID { id3: 0, id64: 0 }
    }
}

/// A login identity: its name, which is its key within a session, its
/// identifier where one was resolved, and the titles it owns.
#[derive(Debug, PartialEq, Eq)]
pub struct SteamAccount {
    pub name: String,
    pub id: Option<SteamID>,
    pub games: HashSet<i32>,
}

/// What an account means.
pub struct AccountView {
    pub name: Seq<char>,
    pub id: Option<SteamID>,
    pub games: Set<i32>,
}

impl View for SteamAccount {
    type V = AccountView;

    open spec fn view(&self) -> AccountView {
        AccountView { name: self.name@, id: self.id, games: self.games@ }
    }
}

/// What a list of accounts means.
pub open spec fn accounts_view(accounts: Seq<SteamAccount>) -> Seq<AccountView> {
    Seq::new(accounts.len(), |i: int| accounts[i]@)
}

/// `HashSet::clone` gives a set with the same elements.
#[verifier::external_body]
fn clone_games(games: &HashSet<i32>) -> (r: HashSet<i32>)
    ensures
        r@ == games@,
{
    games.clone()
}

impl Clone for SteamAccount {
    fn clone(&self) -> (r: SteamAccount)
        ensures
            r@ == self@,
    {
        SteamAccount { name: self.name.clone(), id: self.id, games: clone_games(&self.games) }
    }
}

impl Default for SteamAccount {
    fn default() -> (r: SteamAccount)
        ensures
            r@.name == Seq::<char>::empty(),
            r@.id is None,
            r@.games == Set::<i32>::empty(),
    {
        SteamAccount { name: String::new(), id: None, games: HashSet::new() }
    }
}

impl SteamAccount {
    /// The account's name.
    pub fn name(&self) -> (r: &str)
        ensures
            r@ == self@.name,
    {
        self.name.as_str()
    }
}

/// An installed title. Its integer `id` alone says which title it is; name,
/// location and the time it was last played are what is known about it.
#[derive(Debug)]
pub struct AppID {
    pub id: i32,
    pub name: String,
    pub location: String,
    pub last_played: Option<u64>,
}

/// What an installed title means.
pub struct AppView {
    pub id: i32,
    pub name: Seq<char>,
    pub location: Seq<char>,
    pub last_played: Option<u64>,
}

impl View for AppID {
    type V = AppView;

    open spec fn view(&self) -> AppView {
        AppView {
            id: self.id,
            name: self.name@,
            location: self.location@,
            last_played: self.last_played,
        }
    }
}

impl vstd::std_specs::cmp::PartialEqSpecImpl for AppID {
    open spec fn obeys_eq_spec() -> bool {
        true
    }

    open spec fn eq_spec(&self, other: &AppID) -> bool {
        self.id == other.id
    }
}

impl PartialEq for AppID {
    /// Two records are the same title exactly when their ids are equal.
    fn eq(&self, other: &AppID) -> (r: bool) {
        self.id == other.id
    }
}

impl Eq for AppID {

}

impl std::hash::Hash for AppID {
    /// Feeds the id, and nothing else, to the hasher with `i32::hash`: equal
    /// titles hash alike.
    #[verifier::external_body]
    fn hash<H: std::hash::Hasher>(&self, state: &mut H) {
        self.id.hash(state)
    }
}

impl Clone for AppID {
    fn clone(&self) -> (r: AppID)
        ensures
            r == *self,
    {
        AppID {
            id: self.id,
            name: self.name.clone(),
            location: self.location.clone(),
            last_played: self.last_played,
        }
    }
}

impl Default for AppID {
    fn default() -> (r: AppID)
        ensures
            r.id == 0,
            r.name@ == Seq::<char>::empty(),
            r.location@ == Seq::<char>::empty(),
            r.last_played is None,
    {
        AppID { id: 0, name: String::new(), location: String::new(), last_played: None }
    }
}

/// Records that differ in name, location or last-played time only are equal.
pub proof fn lemma_app_identity(a: AppID, b: AppID)
    ensures
        a.eq_spec(&b) <==> a.id == b.id,
        a.eq_spec(&a),
        a.eq_spec(&b) ==> b.eq_spec(&a),
{
}

/// A directory in which titles are installed, and the ids of the titles that
/// the library-folders document lists for it.
#[derive(Debug, PartialEq, Eq)]
pub struct LibraryFolder {
    pub path: String,
    pub apps: HashSet<i32>,
}

impl View for LibraryFolder {
    type V = (Seq<char>, Set<i32>);

    open spec fn view(&self) -> (Seq<char>, Set<i32>) {
        (self.path@, self.apps@)
    }
}

impl Clone for LibraryFolder {
    fn clone(&self) -> (r: LibraryFolder)
        ensures
            r@ == self@,
    {
        LibraryFolder { path: self.path.clone(), apps: clone_games(&self.apps) }
    }
}

/// The cover art of a title: the file of its portrait and of its landscape
/// picture, each where one was found.
#[derive(Debug, Clone, PartialEq, Eq)]
pub struct Thumbnail {
    pub portrait: Option<String>,
    pub landscape: Option<String>,
}

impl Default for Thumbnail {
    fn default() -> (r: Thumbnail)
        ensures
            r.portrait is None,
            r.landscape is None,
    {
        Thumbnail { portrait: None, landscape: None }
    }
}

impl FromSpecImpl<(Option<String>, Option<String>)> for Thumbnail {
    open spec fn obeys_from_spec() -> bool {
        true
    }

    open spec fn from_spec(pair: (Option<String>, Option<String>)) -> Thumbnail {
        Thumbnail { portrait: pair.0, landscape: pair.1 }
    }
}

impl From<(Option<String>, Option<String>)> for Thumbnail {
    fn from(pair: (Option<String>, Option<String>)) -> (r: Thumbnail)
        ensures
            r.portrait == pair.0,
            r.landscape == pair.1,
    {
        Thumbnail { portrait: pair.0, landscape: pair.1 }
    }
}

} // verus!
