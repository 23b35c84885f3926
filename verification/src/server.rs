//! The session registry: the authoritative set of connected users, the
//! ongoing games, and the broadcast bus that fans routed messages out to
//! every subscribed connection.

use vstd::prelude::*;

verus! {

use crate::binary_message::{BinaryMessage, BinaryMessageV};
use crate::guess_game::{Game, GameV, GameState, spec_guess_step, guess_matches};
use crate::server_commands::ServerCommandError;
use crate::text::{dec_chars, u64_to_dec, str_eq, lowercase};
use vstd::string::StringExecFns;

/// Type of server to run.
#[derive(Debug, Clone, Copy, PartialEq, Eq, Structural)]
pub enum ServerType {
    TCP,
    UNIX,
}

/// The largest identifier in the sequence, or 0 when it is empty.
pub open spec fn spec_max_id(s: Seq<u64>) -> u64
    decreases s.len(),
{
    if s.len() == 0 {
        0
    } else {
        let m = spec_max_id(s.drop_last());
        if s.last() > m {
            s.last()
        } else {
            m
        }
    }
}

/// Every element stays at or below the largest.
pub proof fn lemma_max_id_ge(s: Seq<u64>)
    ensures
        forall|i: int| 0 <= i < s.len() ==> #[trigger] s[i] <= spec_max_id(s),
    decreases s.len(),
{
    if s.len() > 0 {
        lemma_max_id_ge(s.drop_last());
        assert forall|i: int| 0 <= i < s.len() implies #[trigger] s[i] <= spec_max_id(s) by {
            if i < s.len() - 1 {
                assert(s.drop_last()[i] == s[i]);
                assert(s.drop_last()[i] <= spec_max_id(s.drop_last()));
            }
        }
    }
}

/// The sequence with every occurrence of `id` taken out, order kept.
pub open spec fn spec_without(s: Seq<u64>, id: u64) -> Seq<u64>
    decreases s.len(),
{
    if s.len() == 0 {
        s
    } else if s.last() != id {
        spec_without(s.drop_last(), id) + seq![s.last()]
    } else {
        spec_without(s.drop_last(), id)
    }
}

/// What was taken out is gone, nothing else was touched, and the order of
/// the rest is kept.
pub proof fn lemma_without_props(s: Seq<u64>, id: u64)
    ensures
        forall|i: int|
            0 <= i < spec_without(s, id).len() ==> #[trigger] spec_without(s, id)[i] != id,
        forall|i: int|
            0 <= i < spec_without(s, id).len() ==> s.contains(#[trigger] spec_without(s, id)[i]),
        forall|x: u64| #[trigger] s.contains(x) && x != id ==> spec_without(s, id).contains(x),
        !spec_without(s, id).contains(id),
        spec_without(s, id).len() <= s.len(),
    decreases s.len(),
{
    let w = spec_without(s, id);
    if s.len() > 0 {
        lemma_without_props(s.drop_last(), id);
        let wd = spec_without(s.drop_last(), id);
        assert forall|i: int| 0 <= i < w.len() implies #[trigger] w[i] != id by {
            if s.last() != id {
                assert(w == wd + seq![s.last()]);
                if i < wd.len() {
                    assert(w[i] == wd[i]);
                }
            }
        }
        assert forall|i: int| 0 <= i < w.len() implies s.contains(#[trigger] w[i]) by {
            if s.last() != id && i == w.len() - 1 {
                assert(w[i] == s.last());
                assert(s[s.len() - 1] == w[i]);
                assert(s.contains(w[i]));
            } else {
                assert(w[i] == wd[i]);
                assert(s.drop_last().contains(wd[i]));
                let j = choose|j: int|
                    0 <= j < s.drop_last().len() && s.drop_last()[j] == wd[i];
                assert(s[j] == w[i]);
                assert(s.contains(w[i]));
            }
        }
        assert forall|x: u64| #[trigger] s.contains(x) && x != id implies w.contains(x) by {
            let i = choose|i: int| 0 <= i < s.len() && s[i] == x;
            if i == s.len() - 1 {
                assert(s.last() == x);
                assert(w[w.len() - 1] == x);
                assert(w.contains(x));
            } else {
                assert(s.drop_last()[i] == x);
                assert(s.drop_last().contains(x));
                assert(wd.contains(x));
                let j = choose|j: int| 0 <= j < wd.len() && wd[j] == x;
                assert(w[j] == x);
                assert(w.contains(x));
            }
        }
    }
    if w.contains(id) {
        let i = choose|i: int| 0 <= i < w.len() && w[i] == id;
        assert(w[i] != id);
    }
}

/// A non-empty sequence holds its own largest identifier.
pub proof fn lemma_max_is_elem(s: Seq<u64>)
    requires
        s.len() > 0,
    ensures
        s.contains(spec_max_id(s)),
    decreases s.len(),
{
    if s.len() == 1 {
        assert(s[0] == s.last());
        assert(spec_max_id(s.drop_last()) == 0);
        if s.last() > 0 {
            assert(s[0] == spec_max_id(s));
        } else {
            assert(s[0] == spec_max_id(s));
        }
        assert(s.contains(spec_max_id(s)));
    } else if s.last() >= spec_max_id(s.drop_last()) {
        assert(s[s.len() - 1] == spec_max_id(s));
        assert(s.contains(spec_max_id(s)));
    } else {
        lemma_max_is_elem(s.drop_last());
        let i = choose|i: int| 0 <= i < s.len() - 1 && s.drop_last()[i] == spec_max_id(
            s.drop_last(),
        );
        assert(s[i] == spec_max_id(s));
        assert(s.contains(spec_max_id(s)));
    }
}

/// Monotonic identifiers from a fresh start: when the users in the registry
/// are exactly 1 up to n, in order, the next identifier assigned is n + 1.
pub proof fn lemma_sequential_ids(s: Seq<u64>, n: u64)
    requires
        s.len() == n,
        forall|i: int| 0 <= i < s.len() ==> #[trigger] s[i] == i + 1,
    ensures
        spec_max_id(s) == n,
    decreases s.len(),
{
    if s.len() > 0 {
        assert(forall|i: int| 0 <= i < s.len() - 1 ==> #[trigger] s.drop_last()[i] == s[i]);
        lemma_sequential_ids(s.drop_last(), (n - 1) as u64);
        assert(s.last() == n);
    }
}

/// Monotonic identifiers: the identifier the registry assigns next is above
/// every identifier in use, so it never collides with a connected user.
pub proof fn lemma_fresh_id_is_new(users: Seq<u64>)
    requires
        spec_max_id(users) < u64::MAX,
    ensures
        forall|i: int| 0 <= i < users.len() ==> #[trigger] users[i] < spec_max_id(users) + 1,
        !users.contains((spec_max_id(users) + 1) as u64),
{
    lemma_max_id_ge(users);
    if users.contains((spec_max_id(users) + 1) as u64) {
        let i = choose|i: int|
            0 <= i < users.len() && users[i] == (spec_max_id(users) + 1) as u64;
        assert(users[i] <= spec_max_id(users));
    }
}

/// Monotonic identifiers after a drop: the identifier assigned after a user
/// leaves is still one above the largest of those remaining, and it never
/// hands a departed identifier out again while a larger one is in use.
pub proof fn lemma_no_premature_reuse(users: Seq<u64>, k: u64)
    requires
        users.contains(k),
        k != spec_max_id(users),
    ensures
        spec_max_id(spec_without(users, k)) + 1 != k,
{
    lemma_max_id_ge(users);
    let i = choose|i: int| 0 <= i < users.len() && users[i] == k;
    assert(k <= spec_max_id(users));
    assert(users.len() > 0);
    lemma_max_is_elem(users);
    lemma_without_props(users, k);
    assert(spec_without(users, k).contains(spec_max_id(users)));
    let w = spec_without(users, k);
    let j = choose|j: int| 0 <= j < w.len() && w[j] == spec_max_id(users);
    lemma_max_id_ge(w);
    assert(spec_max_id(w) >= spec_max_id(users));
}

/// What a search through the game list goes by.
pub enum GameCrit {
    /// A game the user takes part in, as host or as opponent.
    Participant(u64),
    /// The game with this identifier.
    ById(u128),
    /// A game the user hosts.
    Hosted(u64),
    /// A game the user opposes.
    Opposed(u64),
}

/// Whether a game answers to the search criterion.
pub open spec fn game_matches(g: GameV, c: GameCrit) -> bool {
    match c {
        GameCrit::Participant(u) => g.host_id == u || g.opponent_id == u,
        GameCrit::ById(i) => g.game_id == i,
        GameCrit::Hosted(u) => g.host_id == u,
        GameCrit::Opposed(u) => g.opponent_id == u,
    }
}

/// The index of the first game answering to the criterion, or the length of
/// the list when there is none.
pub open spec fn spec_find_game(games: Seq<GameV>, c: GameCrit) -> int
    decreases games.len(),
{
    if games.len() == 0 {
        0
    } else if game_matches(games[0], c) {
        0
    } else {
        1 + spec_find_game(games.drop_first(), c)
    }
}

/// The found index lies in the list, answers to the criterion, and nothing
/// before it does.
pub proof fn lemma_find_game_props(games: Seq<GameV>, c: GameCrit)
    ensures
        0 <= spec_find_game(games, c) <= games.len(),
        spec_find_game(games, c) < games.len() ==> game_matches(
            games[spec_find_game(games, c)],
            c,
        ),
        forall|j: int| 0 <= j < spec_find_game(games, c) ==> !game_matches(#[trigger] games[j], c),
    decreases games.len(),
{
    if games.len() > 0 && !game_matches(games[0], c) {
        lemma_find_game_props(games.drop_first(), c);
        let f = spec_find_game(games, c);
        assert(f == 1 + spec_find_game(games.drop_first(), c));
        assert forall|j: int| 0 <= j < f implies !game_matches(#[trigger] games[j], c) by {
            if j > 0 {
                assert(games.drop_first()[j - 1] == games[j]);
            }
        }
        if f < games.len() {
            assert(games.drop_first()[f - 1] == games[f]);
        }
    }
}

/// An index before which no game answers, and at which one does unless it is
/// the end, is exactly the found index.
proof fn lemma_find_game_characterization(games: Seq<GameV>, c: GameCrit, i: int)
    requires
        0 <= i <= games.len(),
        forall|j: int| 0 <= j < i ==> !game_matches(#[trigger] games[j], c),
        i < games.len() ==> game_matches(games[i], c),
    ensures
        spec_find_game(games, c) == i,
    decreases i,
{
    if i > 0 {
        lemma_find_game_characterization(games.drop_first(), c, i - 1);
    }
}

/// The game list with every game of that identifier taken out, order kept.
pub open spec fn spec_remove_game(games: Seq<GameV>, id: u128) -> Seq<GameV>
    decreases games.len(),
{
    if games.len() == 0 {
        games
    } else if games.last().game_id != id {
        spec_remove_game(games.drop_last(), id) + seq![games.last()]
    } else {
        spec_remove_game(games.drop_last(), id)
    }
}

/// Every game kept by the removal stood in the old list.
pub proof fn lemma_remove_game_keeps(games: Seq<GameV>, id: u128)
    ensures
        forall|i: int|
            0 <= i < spec_remove_game(games, id).len() ==> games.contains(
                #[trigger] spec_remove_game(games, id)[i],
            ),
        spec_remove_game(games, id).len() <= games.len(),
    decreases games.len(),
{
    if games.len() > 0 {
        lemma_remove_game_keeps(games.drop_last(), id);
        assert forall|i: int|
            0 <= i < spec_remove_game(games, id).len() implies games.contains(
            #[trigger] spec_remove_game(games, id)[i],
        ) by {
            let r = spec_remove_game(games, id);
            let rd = spec_remove_game(games.drop_last(), id);
            if games.last().game_id != id && i == r.len() - 1 {
                assert(r[i] == games.last());
                assert(games[games.len() - 1] == games.last());
            } else {
                assert(rd[i] == r[i]);
                let j = choose|j: int| 0 <= j < games.len() - 1 && games.drop_last()[j] == rd[i];
                assert(games[j] == rd[i]);
            }
        }
    }
}

/// Removal keeps the registry sound: every kept game stood in the old list.
pub proof fn lemma_remove_game_wf(games: Seq<GameV>, id: u128)
    requires
        forall|i: int|
            0 <= i < games.len() ==> ((#[trigger] games[i]).game_state == GameState::Ongoing
                ==> games[i].attempts >= 1),
    ensures
        forall|i: int|
            0 <= i < spec_remove_game(games, id).len() ==> ((#[trigger] spec_remove_game(
                games,
                id,
            )[i]).game_state == GameState::Ongoing ==> spec_remove_game(games, id)[i].attempts
                >= 1),
{
    lemma_remove_game_keeps(games, id);
    assert forall|i: int|
        0 <= i < spec_remove_game(games, id).len() implies ((#[trigger] spec_remove_game(
        games,
        id,
    )[i]).game_state == GameState::Ongoing ==> spec_remove_game(games, id)[i].attempts >= 1) by {
        let g = spec_remove_game(games, id)[i];
        assert(games.contains(g));
        let j = choose|j: int| 0 <= j < games.len() && games[j] == g;
        assert(games[j].game_state == GameState::Ongoing ==> games[j].attempts >= 1);
    }
}

/// The mathematical content of the registry.
#[verifier::ext_equal]
pub struct ServerDataV {
    pub connected_users: Seq<u64>,
    pub password: Seq<char>,
    pub server_type: ServerType,
    pub ongoing_games: Seq<GameV>,
}

impl ServerDataV {
    /// A sound registry: every ongoing game still has an attempt left, so a
    /// guess can always be charged against it.
    pub open spec fn wf(&self) -> bool {
        forall|i: int|
            0 <= i < self.ongoing_games.len() ==> ((#[trigger] self.ongoing_games[i]).game_state
                == GameState::Ongoing ==> self.ongoing_games[i].attempts >= 1)
    }
}

/// Data for the server to keep track of: the list of connected users, the
/// ongoing games and the password.
#[derive(Debug)]
pub struct ServerData {
    connected_users: Vec<u64>,
    password: String,
    server_type: ServerType,
    ongoing_games: Vec<Game>,
}

impl View for ServerData {
    type V = ServerDataV;

    closed spec fn view(&self) -> ServerDataV {
        ServerDataV {
            connected_users: self.connected_users@,
            password: self.password@,
            server_type: self.server_type,
            ongoing_games: self.ongoing_games.deep_view(),
        }
    }
}

/// The text of the complaint that a user is not connected.
pub open spec fn msg_user_not_exist(id: u64) -> Seq<char> {
    "user "@ + dec_chars(id as int) + " doesn't exist"@
}

/// The text of the complaint that a game cannot begin against an absent user.
pub open spec fn msg_opponent_not_exist(id: u64) -> Seq<char> {
    "ERROR user "@ + dec_chars(id as int) + " doesn't exist, cannot begin game"@
}

/// The text of the complaint that a user cannot play against themselves.
pub open spec fn msg_self_match(id: u64) -> Seq<char> {
    "ERROR user "@ + dec_chars(id as int) + " cannot match with himself!"@
}

/// Writes "user <id> doesn't exist".
fn make_user_not_exist(id: u64) -> (r: String)
    ensures
        r@ == msg_user_not_exist(id),
{
    let mut s = String::from_str("user ");
    let d = u64_to_dec(id);
    s.append(d.as_str());
    s.append(" doesn't exist");
    s
}

/// Tests whether the list holds the value.
fn contains_u64(v: &Vec<u64>, x: u64) -> (r: bool)
    ensures
        r == v@.contains(x),
{
    let mut i: usize = 0;
    while i < v.len()
        invariant
            i <= v@.len(),
            forall|j: int| 0 <= j < i ==> v@[j] != x,
        decreases v@.len() - i,
    {
        if *vstd::std_specs::vec::vec_index(v, i) == x {
            return true;
        }
        i = i + 1;
    }
    proof {
        if v@.contains(x) {
            let j = choose|j: int| 0 <= j < v@.len() && v@[j] == x;
            assert(v@[j] != x);
        }
    }
    false
}

/// Finds the first game answering to the criterion, or the length of the
/// list when there is none.
fn find_game(games: &Vec<Game>, c: GameCrit) -> (r: usize)
    ensures
        r == spec_find_game(games.deep_view(), c),
        r <= games@.len(),
{
    let n = games.len();
    let mut i: usize = 0;
    while i < n
        invariant
            n == games@.len(),
            i <= n,
            games.deep_view().len() == n,
            forall|j: int| 0 <= j < i ==> !game_matches(#[trigger] games.deep_view()[j], c),
        decreases n - i,
    {
        let g = vstd::std_specs::vec::vec_index(games, i);
        let found = match c {
            GameCrit::Participant(u) => g.get_host_id() == u || g.get_opponent_id() == u,
            GameCrit::ById(id) => g.get_game_id() == id,
            GameCrit::Hosted(u) => g.get_host_id() == u,
            GameCrit::Opposed(u) => g.get_opponent_id() == u,
        };
        proof {
            assert(games.deep_view()[i as int] == games@[i as int]@);
        }
        if found {
            proof {
                lemma_find_game_characterization(games.deep_view(), c, i as int);
            }
            return i;
        }
        i = i + 1;
    }
    proof {
        lemma_find_game_characterization(games.deep_view(), c, i as int);
    }
    i
}

/// Each entry of the deep view of a list is the deep view of that entry.
pub proof fn lemma_vec_deep_index<T: DeepView>(v: &Vec<T>)
    ensures
        v.deep_view().len() == v@.len(),
        forall|i: int| 0 <= i < v@.len() ==> v.deep_view()[i] == (#[trigger] v@[i]).deep_view(),
{
}

impl ServerData {
    /// Creates a new [`ServerData`].
    pub fn new(password: String, server_type: ServerType) -> (r: Self)
        ensures
            r@ == (ServerDataV {
                connected_users: Seq::<u64>::empty(),
                password: password@,
                server_type,
                ongoing_games: Seq::<GameV>::empty(),
            }),
            r@.wf(),
    {
        let r = Self { connected_users: Vec::new(), password, server_type, ongoing_games: Vec::new() };
        proof {
            assert(r.ongoing_games.deep_view() =~= Seq::<GameV>::empty());
        }
        r
    }

    /// Gets all valid opponents: every connected user except the asking one.
    /// Nothing comes back when no user at all is connected.
    pub fn get_opponents(&self, local_id: u64) -> (r: Option<Vec<u64>>)
        ensures
            self@.connected_users.len() == 0 ==> r is None,
            self@.connected_users.len() > 0 ==> (r matches Some(v) && v@ == spec_without(
                self@.connected_users,
                local_id,
            )),
    {
        if self.connected_users.is_empty() {
            return None;
        }
        let n = self.connected_users.len();
        let mut out: Vec<u64> = Vec::new();
        let mut i: usize = 0;
        while i < n
            invariant
                n == self.connected_users@.len(),
                i <= n,
                out@ == spec_without(self.connected_users@.subrange(0, i as int), local_id),
            decreases n - i,
        {
            let x = *vstd::std_specs::vec::vec_index(&self.connected_users, i);
            proof {
                let pre = self.connected_users@.subrange(0, i as int);
                let post = self.connected_users@.subrange(0, i + 1);
                assert(post.drop_last() =~= pre);
                assert(post.last() == x);
            }
            if x != local_id {
                out.push(x);
            }
            i = i + 1;
        }
        proof {
            assert(self.connected_users@.subrange(0, n as int) =~= self.connected_users@);
        }
        Some(out)
    }

    /// Validates whether a password provided matches the server password,
    /// returning true if yes.
    pub fn validate_password(&self, password_external: &str) -> (r: bool)
        ensures
            r == (self@.password == password_external@),
    {
        str_eq(self.password.as_str(), password_external)
    }

    /// Verifies whether a user with an ID X exists, returning true if yes.
    pub fn user_exists(&self, id: u64) -> (r: bool)
        ensures
            r == self@.connected_users.contains(id),
    {
        contains_u64(&self.connected_users, id)
    }

    /// The largest user identifier currently connected, or 0 with nobody
    /// connected: the identifier below the one `add_user` would assign.
    pub fn max_user_id(&self) -> (r: u64)
        ensures
            r == spec_max_id(self@.connected_users),
    {
        let n = self.connected_users.len();
        let mut m: u64 = 0;
        let mut i: usize = 0;
        while i < n
            invariant
                n == self.connected_users@.len(),
                i <= n,
                m == spec_max_id(self.connected_users@.subrange(0, i as int)),
            decreases n - i,
        {
            let x = *vstd::std_specs::vec::vec_index(&self.connected_users, i);
            proof {
                let pre = self.connected_users@.subrange(0, i as int);
                let post = self.connected_users@.subrange(0, i + 1);
                assert(post.drop_last() =~= pre);
                assert(post.last() == x);
            }
            if x > m {
                m = x;
            }
            i = i + 1;
        }
        proof {
            assert(self.connected_users@.subrange(0, n as int) =~= self.connected_users@);
        }
        m
    }

    /// Adds a user, generating a new user ID that is always higher than the
    /// last highest connected user, returning the ID.
    pub fn add_user(&mut self) -> (r: u64)
        requires
            spec_max_id(old(self)@.connected_users) < u64::MAX,
        ensures
            r == spec_max_id(old(self)@.connected_users) + 1,
            final(self)@ == (ServerDataV {
                connected_users: old(self)@.connected_users.push(r),
                ..old(self)@
            }),
    {
        let n = self.connected_users.len();
        let mut m: u64 = 0;
        let mut i: usize = 0;
        while i < n
            invariant
                n == self.connected_users@.len(),
                i <= n,
                m == spec_max_id(self.connected_users@.subrange(0, i as int)),
            decreases n - i,
        {
            let x = *vstd::std_specs::vec::vec_index(&self.connected_users, i);
            proof {
                let pre = self.connected_users@.subrange(0, i as int);
                let post = self.connected_users@.subrange(0, i + 1);
                assert(post.drop_last() =~= pre);
                assert(post.last() == x);
            }
            if x > m {
                m = x;
            }
            i = i + 1;
        }
        proof {
            assert(self.connected_users@.subrange(0, n as int) =~= self.connected_users@);
        }
        let id = m + 1;
        self.connected_users.push(id);
        id
    }

    /// Drops the user from the registered list; an absent user is an error
    /// and nothing changes.
    pub fn drop_user(&mut self, id: u64) -> (r: Result<(), ServerCommandError>)
        ensures
            old(self)@.connected_users.contains(id) ==> r is Ok && final(self)@ == (ServerDataV {
                connected_users: spec_without(old(self)@.connected_users, id),
                ..old(self)@
            }),
            !old(self)@.connected_users.contains(id) ==> (r matches Err(e)
                && e matches ServerCommandError::ErrorMessage(m)
                && m@ == msg_user_not_exist(id)) && *final(self) == *old(self),
    {
        if !self.user_exists(id) {
            return Err(ServerCommandError::ErrorMessage(make_user_not_exist(id)));
        }
        let n = self.connected_users.len();
        let mut out: Vec<u64> = Vec::new();
        let mut i: usize = 0;
        while i < n
            invariant
                n == self.connected_users@.len(),
                i <= n,
                out@ == spec_without(self.connected_users@.subrange(0, i as int), id),
            decreases n - i,
        {
            let x = *vstd::std_specs::vec::vec_index(&self.connected_users, i);
            proof {
                let pre = self.connected_users@.subrange(0, i as int);
                let post = self.connected_users@.subrange(0, i + 1);
                assert(post.drop_last() =~= pre);
                assert(post.last() == x);
            }
            if x != id {
                out.push(x);
            }
            i = i + 1;
        }
        proof {
            assert(self.connected_users@.subrange(0, n as int) =~= self.connected_users@);
        }
        self.connected_users = out;
        Ok(())
    }

    /// Starts a game between the host and the chosen opponent over the given
    /// secret. The opponent must be connected and must not be the host.
    pub fn start_game(&mut self, id_host: u64, id_guest: u64, secret: String) -> (r: Result<
        u128,
        ServerCommandError,
    >)
        ensures
            !old(self)@.connected_users.contains(id_guest) ==> (r matches Err(e)
                && e matches ServerCommandError::ErrorMessage(m)
                && m@ == msg_opponent_not_exist(id_guest)) && *final(self) == *old(self),
            old(self)@.connected_users.contains(id_guest) && id_guest == id_host ==> (r matches Err(
                e,
            ) && e matches ServerCommandError::ErrorMessage(m) && m@ == msg_self_match(id_guest))
                && *final(self) == *old(self),
            old(self)@.connected_users.contains(id_guest) && id_guest != id_host ==> (r matches Ok(
                gid,
            ) && final(self)@ == (ServerDataV {
                ongoing_games: old(self)@.ongoing_games.push(
                    GameV {
                        game_id: gid,
                        host_id: id_host,
                        opponent_id: id_guest,
                        secret: secret@,
                        attempts: 3,
                        last_guess: Seq::<char>::empty(),
                        last_hint: Seq::<char>::empty(),
                        game_state: GameState::Ongoing,
                    },
                ),
                ..old(self)@
            })),
    {
        if !self.user_exists(id_guest) {
            let mut m = String::from_str("ERROR user ");
            let d = u64_to_dec(id_guest);
            m.append(d.as_str());
            m.append(" doesn't exist, cannot begin game");
            return Err(ServerCommandError::ErrorMessage(m));
        }
        if id_guest == id_host {
            let mut m = String::from_str("ERROR user ");
            let d = u64_to_dec(id_guest);
            m.append(d.as_str());
            m.append(" cannot match with himself!");
            return Err(ServerCommandError::ErrorMessage(m));
        }
        let new_game = Game::new(id_host, id_guest, secret);
        let id = new_game.get_game_id();
        let ghost old_games = self.ongoing_games.deep_view();
        self.ongoing_games.push(new_game);
        proof {
            assert(self.ongoing_games.deep_view() =~= old_games.push(new_game@));
        }
        Ok(id)
    }

    /// The identifier of the first game the user takes part in.
    pub fn get_game_id(&self, id: u64) -> (r: Option<u128>)
        ensures
            ({
                let f = spec_find_game(self@.ongoing_games, GameCrit::Participant(id));
                if f == self@.ongoing_games.len() {
                    r is None
                } else {
                    r == Some(self@.ongoing_games[f].game_id)
                }
            }),
    {
        let f = find_game(&self.ongoing_games, GameCrit::Participant(id));
        if f == self.ongoing_games.len() {
            None
        } else {
            Some(vstd::std_specs::vec::vec_index(&self.ongoing_games, f).get_game_id())
        }
    }

    /// A mutable handle on the game with the given identifier; what the
    /// caller does through it is what happens to that game in the registry.
    pub fn get_game_mut_ref(&mut self, id: u128) -> (r: Option<&mut Game>)
        ensures
            ({
                let f = spec_find_game(old(self)@.ongoing_games, GameCrit::ById(id));
                if f == old(self)@.ongoing_games.len() {
                    r is None && *final(self) == *old(self)
                } else {
                    r matches Some(g) && (*g)@ == old(self)@.ongoing_games[f] && final(self)@
                        == (ServerDataV {
                        ongoing_games: old(self)@.ongoing_games.update(f, final(g)@),
                        ..old(self)@
                    })
                }
            }),
    {
        let f = find_game(&self.ongoing_games, GameCrit::ById(id));
        if f == self.ongoing_games.len() {
            None
        } else {
            Some(vstd::std_specs::vec::vec_index_mut(&mut self.ongoing_games, f))
        }
    }

    /// Gets an opponent ID from a game the player hosts. Each game must have
    /// an opponent and a host.
    pub fn get_opponent_id(&self, player_id: u64) -> (r: Result<u64, ServerCommandError>)
        ensures
            ({
                let f = spec_find_game(self@.ongoing_games, GameCrit::Hosted(player_id));
                if f == self@.ongoing_games.len() {
                    r matches Err(e) && e matches ServerCommandError::ErrorMessage(m) && m@
                        == "game has no oppponent"@
                } else {
                    r == Ok::<u64, ServerCommandError>(self@.ongoing_games[f].opponent_id)
                }
            }),
    {
        let f = find_game(&self.ongoing_games, GameCrit::Hosted(player_id));
        if f == self.ongoing_games.len() {
            Err(ServerCommandError::ErrorMessage(String::from_str("game has no oppponent")))
        } else {
            Ok(vstd::std_specs::vec::vec_index(&self.ongoing_games, f).get_opponent_id())
        }
    }

    /// Gets a host ID from a game the player opposes. Each game must have a
    /// host and an opponent.
    pub fn get_host_id(&self, player_id: u64) -> (r: Result<u64, ServerCommandError>)
        ensures
            ({
                let f = spec_find_game(self@.ongoing_games, GameCrit::Opposed(player_id));
                if f == self@.ongoing_games.len() {
                    r matches Err(e) && e matches ServerCommandError::ErrorMessage(m) && m@
                        == "game has no host"@
                } else {
                    r == Ok::<u64, ServerCommandError>(self@.ongoing_games[f].host_id)
                }
            }),
    {
        let f = find_game(&self.ongoing_games, GameCrit::Opposed(player_id));
        if f == self.ongoing_games.len() {
            Err(ServerCommandError::ErrorMessage(String::from_str("game has no host")))
        } else {
            Ok(vstd::std_specs::vec::vec_index(&self.ongoing_games, f).get_host_id())
        }
    }

    /// A copy of every ongoing game, for the spectator page.
    pub fn get_spectator_data(&self) -> (r: Vec<Game>)
        ensures
            r.deep_view() == self@.ongoing_games,
    {
        let n = self.ongoing_games.len();
        let mut out: Vec<Game> = Vec::new();
        let mut i: usize = 0;
        while i < n
            invariant
                n == self.ongoing_games@.len(),
                i <= n,
                out@.len() == i,
                forall|j: int| 0 <= j < i ==> (#[trigger] out@[j])@ == self.ongoing_games@[j]@,
            decreases n - i,
        {
            let g = vstd::std_specs::vec::vec_index(&self.ongoing_games, i).clone();
            out.push(g);
            i = i + 1;
        }
        proof {
            lemma_vec_deep_index(&out);
            lemma_vec_deep_index(&self.ongoing_games);
            assert(out.deep_view() =~= self.ongoing_games.deep_view());
        }
        out
    }

    /// Removes the game with the given identifier; a stale identifier is an
    /// error and nothing changes.
    pub fn terminate_game(&mut self, id: u128) -> (r: Result<(), ServerCommandError>)
        ensures
            ({
                let f = spec_find_game(old(self)@.ongoing_games, GameCrit::ById(id));
                if f == old(self)@.ongoing_games.len() {
                    (r matches Err(e) && e matches ServerCommandError::ErrorMessage(m) && m@
                        == msg_game_not_exist(id)) && *final(self) == *old(self)
                } else {
                    r is Ok && final(self)@ == (ServerDataV {
                        ongoing_games: spec_remove_game(old(self)@.ongoing_games, id),
                        ..old(self)@
                    })
                }
            }),
    {
        let f = find_game(&self.ongoing_games, GameCrit::ById(id));
        if f == self.ongoing_games.len() {
            let mut m = String::from_str("user ");
            let d = crate::text::u128_to_dec(id);
            m.append(d.as_str());
            m.append(" doesn't exist");
            return Err(ServerCommandError::ErrorMessage(m));
        }
        let n = self.ongoing_games.len();
        let mut out: Vec<Game> = Vec::new();
        let mut i: usize = 0;
        while i < n
            invariant
                n == self.ongoing_games@.len(),
                i <= n,
                out.deep_view() =~= spec_remove_game(
                    self.ongoing_games.deep_view().subrange(0, i as int),
                    id,
                ),
            decreases n - i,
        {
            let g = vstd::std_specs::vec::vec_index(&self.ongoing_games, i);
            proof {
                let pre = self.ongoing_games.deep_view().subrange(0, i as int);
                let post = self.ongoing_games.deep_view().subrange(0, i + 1);
                assert(post.drop_last() =~= pre);
                assert(post.last() == g@);
            }
            if g.get_game_id() != id {
                let copy = g.clone();
                out.push(copy);
            }
            i = i + 1;
        }
        proof {
            assert(self.ongoing_games.deep_view().subrange(0, n as int)
                =~= self.ongoing_games.deep_view());
        }
        self.ongoing_games = out;
        Ok(())
    }

    /// Updates a game guess, running the state machine in place, and returns
    /// the resulting game state.
    pub fn update_game_guess(&mut self, id: u128, guess: String) -> (r: Result<
        GameState,
        ServerCommandError,
    >)
        requires
            old(self)@.wf(),
        ensures
            ({
                let f = spec_find_game(old(self)@.ongoing_games, GameCrit::ById(id));
                if f == old(self)@.ongoing_games.len() {
                    (r matches Err(e) && e matches ServerCommandError::ErrorMessage(m) && m@
                        == "Game does not exist, cannot update guess"@) && *final(self) == *old(
                        self,
                    )
                } else {
                    let g2 = spec_guess_step(old(self)@.ongoing_games[f], guess@);
                    r == Ok::<GameState, ServerCommandError>(g2.game_state) && final(self)@
                        == (ServerDataV {
                        ongoing_games: old(self)@.ongoing_games.update(f, g2),
                        ..old(self)@
                    })
                }
            }),
            final(self)@.wf(),
    {
        let f = find_game(&self.ongoing_games, GameCrit::ById(id));
        if f == self.ongoing_games.len() {
            return Err(ServerCommandError::ErrorMessage(String::from_str(
                "Game does not exist, cannot update guess",
            )));
        }
        let correct = {
            let game = vstd::std_specs::vec::vec_index(&self.ongoing_games, f);
            let lower_guess = lowercase(guess.as_str());
            let lower_secret = lowercase(game.get_secret().as_str());
            str_eq(lower_guess.as_str(), lower_secret.as_str())
        };
        let ghost old_games = self.ongoing_games.deep_view();
        let game = vstd::std_specs::vec::vec_index_mut(&mut self.ongoing_games, f);
        let state_now = *game.get_game_state();
        let result = match state_now {
            GameState::Ongoing => {
                if correct {
                    game.set_game_state(GameState::Victory);
                    GameState::Victory
                } else {
                    let a = game.get_attempts();
                    game.set_attempts(a - 1);
                    game.set_last_guess(guess);
                    if a - 1 == 0 {
                        game.set_game_state(GameState::Defeat);
                        GameState::Defeat
                    } else {
                        GameState::Ongoing
                    }
                }
            },
            other => other,
        };
        proof {
            let g2 = spec_guess_step(old_games[f as int], guess@);
            assert(self.ongoing_games.deep_view() =~= old_games.update(f as int, g2));
            assert forall|i: int|
                0 <= i < self.ongoing_games.deep_view().len() implies ((
            #[trigger] self.ongoing_games.deep_view()[i]).game_state == GameState::Ongoing
                ==> self.ongoing_games.deep_view()[i].attempts >= 1) by {
                if i != f {
                    assert(self.ongoing_games.deep_view()[i] == old(self)@.ongoing_games[i]);
                }
            }
        }
        Ok(result)
    }

    /// Updates the last game hint for the game state and for spectators.
    pub fn update_game_hint(&mut self, id: u128, hint: String) -> (r: Result<
        (),
        ServerCommandError,
    >)
        ensures
            ({
                let f = spec_find_game(old(self)@.ongoing_games, GameCrit::ById(id));
                if f == old(self)@.ongoing_games.len() {
                    (r matches Err(e) && e matches ServerCommandError::ErrorMessage(m) && m@
                        == "game does not exist, cannot update hint"@) && *final(self) == *old(
                        self,
                    )
                } else {
                    r is Ok && final(self)@ == (ServerDataV {
                        ongoing_games: old(self)@.ongoing_games.update(
                            f,
                            GameV { last_hint: hint@, ..old(self)@.ongoing_games[f] },
                        ),
                        ..old(self)@
                    })
                }
            }),
            old(self)@.wf() ==> final(self)@.wf(),
    {
        let f = find_game(&self.ongoing_games, GameCrit::ById(id));
        if f == self.ongoing_games.len() {
            return Err(ServerCommandError::ErrorMessage(String::from_str(
                "game does not exist, cannot update hint",
            )));
        }
        let ghost old_games = self.ongoing_games.deep_view();
        let game = vstd::std_specs::vec::vec_index_mut(&mut self.ongoing_games, f);
        game.set_last_hint(hint);
        proof {
            assert(self.ongoing_games.deep_view() =~= old_games.update(
                f as int,
                GameV { last_hint: hint@, ..old_games[f as int] },
            ));
            if old(self)@.wf() {
                assert forall|i: int|
                    0 <= i < self.ongoing_games.deep_view().len() implies ((
                #[trigger] self.ongoing_games.deep_view()[i]).game_state == GameState::Ongoing
                    ==> self.ongoing_games.deep_view()[i].attempts >= 1) by {
                    if i != f {
                        assert(self.ongoing_games.deep_view()[i] == old(self)@.ongoing_games[i]);
                    }
                }
            }
        }
        Ok(())
    }
}

/// The text of the complaint that a game identifier is stale.
pub open spec fn msg_game_not_exist(id: u128) -> Seq<char> {
    "user "@ + dec_chars(id as int) + " doesn't exist"@
}

/// One subscription on the bus: its channel identifier and the messages
/// delivered to it and not yet drained.
#[derive(Debug)]
struct Subscriber {
    channel_id: u64,
    mailbox: Vec<(u64, BinaryMessage)>,
}

/// The mathematical content of one subscription.
#[verifier::ext_equal]
pub struct SubscriberV {
    pub channel_id: u64,
    pub mailbox: Seq<(u64, BinaryMessageV)>,
}

impl View for Subscriber {
    type V = SubscriberV;

    closed spec fn view(&self) -> SubscriberV {
        SubscriberV { channel_id: self.channel_id, mailbox: self.mailbox.deep_view() }
    }
}

impl DeepView for Subscriber {
    type V = SubscriberV;

    open spec fn deep_view(&self) -> SubscriberV {
        self.view()
    }
}

/// This is basically a custom broadcast channel: every subscriber has a
/// mailbox, and every published message lands in every mailbox. The
/// connection threads around the library share one instance behind a lock
/// and drain their own mailboxes.
#[derive(Debug)]
pub struct Broadcast {
    senders: Vec<Subscriber>,
}

impl View for Broadcast {
    type V = Seq<SubscriberV>;

    closed spec fn view(&self) -> Seq<SubscriberV> {
        self.senders.deep_view()
    }
}

/// The largest channel identifier among the subscriptions, or 0 when there
/// is none.
pub open spec fn spec_max_channel(subs: Seq<SubscriberV>) -> u64
    decreases subs.len(),
{
    if subs.len() == 0 {
        0
    } else {
        let m = spec_max_channel(subs.drop_last());
        if subs.last().channel_id > m {
            subs.last().channel_id
        } else {
            m
        }
    }
}

/// The subscriptions left after every channel in `ids` unsubscribes, order
/// kept.
pub open spec fn spec_unsubscribe(subs: Seq<SubscriberV>, ids: Seq<u64>) -> Seq<SubscriberV>
    decreases subs.len(),
{
    if subs.len() == 0 {
        subs
    } else if !ids.contains(subs.last().channel_id) {
        spec_unsubscribe(subs.drop_last(), ids) + seq![subs.last()]
    } else {
        spec_unsubscribe(subs.drop_last(), ids)
    }
}

/// The index of the first subscription on the channel, or the length when
/// there is none.
pub open spec fn spec_find_channel(subs: Seq<SubscriberV>, id: u64) -> int
    decreases subs.len(),
{
    if subs.len() == 0 {
        0
    } else if subs[0].channel_id == id {
        0
    } else {
        1 + spec_find_channel(subs.drop_first(), id)
    }
}

/// An index before which no subscription is on the channel, and at which one
/// is unless it is the end, is exactly the found index.
proof fn lemma_find_channel_characterization(subs: Seq<SubscriberV>, id: u64, i: int)
    requires
        0 <= i <= subs.len(),
        forall|j: int| 0 <= j < i ==> (#[trigger] subs[j]).channel_id != id,
        i < subs.len() ==> subs[i].channel_id == id,
    ensures
        spec_find_channel(subs, id) == i,
    decreases i,
{
    if i > 0 {
        lemma_find_channel_characterization(subs.drop_first(), id, i - 1);
    }
}

/// The messages among the delivered pairs that are addressed to this user,
/// in order.
pub open spec fn spec_for_local(items: Seq<(u64, BinaryMessageV)>, local_id: u64) -> Seq<
    BinaryMessageV,
>
    decreases items.len(),
{
    if items.len() == 0 {
        Seq::empty()
    } else {
        let rest = spec_for_local(items.drop_first(), local_id);
        if items[0].0 == local_id {
            seq![items[0].1] + rest
        } else {
            rest
        }
    }
}

/// Filtering after one more delivery keeps the new message exactly when it
/// is addressed to the local user.
pub proof fn lemma_for_local_push(items: Seq<(u64, BinaryMessageV)>, p: (u64, BinaryMessageV), local_id: u64)
    ensures
        spec_for_local(items.push(p), local_id) == if p.0 == local_id {
            spec_for_local(items, local_id) + seq![p.1]
        } else {
            spec_for_local(items, local_id)
        },
    decreases items.len(),
{
    if items.len() == 0 {
        assert(items.push(p).drop_first() =~= items);
        assert(items.push(p)[0] == p);
        if p.0 == local_id {
            assert(spec_for_local(items.push(p), local_id) =~= spec_for_local(items, local_id)
                + seq![p.1]);
        }
    } else {
        assert(items.push(p).drop_first() =~= items.drop_first().push(p));
        assert(items.push(p)[0] == items[0]);
        lemma_for_local_push(items.drop_first(), p, local_id);
        if p.0 == local_id {
            if items[0].0 == local_id {
                assert(seq![items[0].1] + (spec_for_local(items.drop_first(), local_id)
                    + seq![p.1]) =~= (seq![items[0].1] + spec_for_local(
                    items.drop_first(),
                    local_id,
                )) + seq![p.1]);
            }
        }
    }
}

/// Broadcast fan-out: after a publish, every subscriber's mailbox ends in
/// the published pair, and the local filter of any mailbox keeps the new
/// message exactly for the connection whose user it is addressed to.
pub proof fn lemma_broadcast_fanout(
    before: Seq<SubscriberV>,
    after: Seq<SubscriberV>,
    recipient: u64,
    m: BinaryMessageV,
    local_id: u64,
    i: int,
)
    requires
        0 <= i < after.len(),
        after[i].mailbox == before[i].mailbox.push((recipient, m)),
    ensures
        spec_for_local(after[i].mailbox, local_id) == if recipient == local_id {
            spec_for_local(before[i].mailbox, local_id) + seq![m]
        } else {
            spec_for_local(before[i].mailbox, local_id)
        },
{
    lemma_for_local_push(before[i].mailbox, (recipient, m), local_id);
}

impl Broadcast {
    /// Creates a new [`Broadcast`] with no subscriptions.
    pub fn new() -> (r: Self)
        ensures
            r@ == Seq::<SubscriberV>::empty(),
    {
        let r = Broadcast { senders: Vec::new() };
        proof {
            assert(r.senders.deep_view() =~= Seq::<SubscriberV>::empty());
        }
        r
    }

    /// Subscribes a new connection: a fresh channel, one above the highest
    /// in use, with an empty mailbox.
    pub fn subscribe(&mut self) -> (r: u64)
        requires
            spec_max_channel(old(self)@) < u64::MAX,
        ensures
            r == spec_max_channel(old(self)@) + 1,
            final(self)@ == old(self)@.push(
                SubscriberV { channel_id: r, mailbox: Seq::empty() },
            ),
    {
        let n = self.senders.len();
        let mut m: u64 = 0;
        let mut i: usize = 0;
        proof {
            lemma_vec_deep_index(&self.senders);
        }
        while i < n
            invariant
                n == self.senders@.len(),
                i <= n,
                self.senders.deep_view().len() == n,
                forall|j: int|
                    0 <= j < n ==> self.senders.deep_view()[j] == (
                    #[trigger] self.senders@[j]).deep_view(),
                m == spec_max_channel(self.senders.deep_view().subrange(0, i as int)),
            decreases n - i,
        {
            let x = vstd::std_specs::vec::vec_index(&self.senders, i).channel_id;
            proof {
                let d = self.senders.deep_view();
                let pre = d.subrange(0, i as int);
                let post = d.subrange(0, i + 1);
                assert(post.drop_last() =~= pre);
                assert(post.last() == d[i as int]);
                assert(d[i as int].channel_id == x);
            }
            if x > m {
                m = x;
            }
            i = i + 1;
        }
        proof {
            assert(self.senders.deep_view().subrange(0, n as int) =~= self.senders.deep_view());
        }
        let id = m + 1;
        let ghost pre = self.senders.deep_view();
        self.senders.push(Subscriber { channel_id: id, mailbox: Vec::new() });
        proof {
            lemma_vec_deep_index(&self.senders);
            assert(self.senders@[n as int]@ =~= (SubscriberV {
                channel_id: id,
                mailbox: Seq::empty(),
            }));
            assert(self.senders.deep_view() =~= pre.push(
                SubscriberV { channel_id: id, mailbox: Seq::empty() },
            ));
        }
        id
    }

    /// Unsubscribes every listed channel, pruning its subscription from the
    /// bus.
    pub fn unsubscribe(&mut self, channels_to_remove: Vec<u64>)
        ensures
            final(self)@ == spec_unsubscribe(old(self)@, channels_to_remove@),
    {
        let n = self.senders.len();
        let ghost orig = self.senders.deep_view();
        let mut out: Vec<Subscriber> = Vec::new();
        let mut k: usize = 0;
        proof {
            lemma_vec_deep_index(&self.senders);
        }
        while k < n
            invariant
                n == self.senders@.len(),
                k <= n,
                orig.len() == n,
                forall|j: int|
                    0 <= j < n ==> orig[j] == (#[trigger] self.senders@[j]).deep_view(),
                out.deep_view() =~= spec_unsubscribe(orig.subrange(0, k as int), channels_to_remove@),
            decreases n - k,
        {
            let keep = !contains_u64(&channels_to_remove, vstd::std_specs::vec::vec_index(&self.senders, k).channel_id);
            proof {
                let pre = orig.subrange(0, k as int);
                let post = orig.subrange(0, k + 1);
                assert(post.drop_last() =~= pre);
                assert(post.last() == orig[k as int]);
            }
            if keep {
                let ghost outpre = out.deep_view();
                let copy = clone_subscriber(vstd::std_specs::vec::vec_index(&self.senders, k));
                out.push(copy);
                proof {
                    lemma_vec_deep_index(&out);
                    assert(out.deep_view() =~= outpre.push(orig[k as int]));
                }
            }
            k = k + 1;
        }
        proof {
            assert(orig.subrange(0, n as int) =~= orig);
        }
        self.senders = out;
    }

    /// Broadcasts the message to all receivers: it is delivered to every
    /// subscriber's mailbox, whoever it is addressed to.
    pub fn broadcast(&mut self, message: (u64, BinaryMessage))
        ensures
            final(self)@.len() == old(self)@.len(),
            forall|i: int|
                0 <= i < old(self)@.len() ==> (#[trigger] final(self)@[i]).channel_id == old(
                    self,
                )@[i].channel_id,
            forall|i: int|
                0 <= i < old(self)@.len() ==> (#[trigger] final(self)@[i]).mailbox == old(
                    self,
                )@[i].mailbox.push((message.0, message.1@)),
    {
        let n = self.senders.len();
        let ghost orig = self.senders.deep_view();
        let mut i: usize = 0;
        proof {
            lemma_vec_deep_index(&self.senders);
        }
        while i < n
            invariant
                n == self.senders@.len(),
                i <= n,
                orig.len() == n,
                forall|j: int|
                    i <= j < n ==> (#[trigger] self.senders@[j]).deep_view() == orig[j],
                forall|j: int|
                    0 <= j < i ==> (#[trigger] self.senders@[j]).deep_view() == (SubscriberV {
                        channel_id: orig[j].channel_id,
                        mailbox: orig[j].mailbox.push((message.0, message.1@)),
                    }),
            decreases n - i,
        {
            let copy = message.1.clone();
            let sub = vstd::std_specs::vec::vec_index_mut(&mut self.senders, i);
            let ghost subpre = sub.deep_view();
            let ghost mailpre = sub.mailbox.deep_view();
            sub.mailbox.push((message.0, copy));
            proof {
                lemma_vec_deep_index(&sub.mailbox);
                assert(sub.mailbox.deep_view() =~= mailpre.push((message.0, message.1@)));
            }
            i = i + 1;
        }
        proof {
            lemma_vec_deep_index(&self.senders);
        }
    }

    /// Takes every message delivered to the channel's mailbox, leaving it
    /// empty; an unknown channel yields nothing.
    pub fn take_messages(&mut self, channel_id: u64) -> (r: Vec<(u64, BinaryMessage)>)
        ensures
            ({
                let f = spec_find_channel(old(self)@, channel_id);
                if f == old(self)@.len() {
                    r.deep_view() == Seq::<(u64, BinaryMessageV)>::empty() && *final(self)
                        == *old(self)
                } else {
                    r.deep_view() == old(self)@[f].mailbox && final(self)@ == old(self)@.update(
                        f,
                        SubscriberV { channel_id, mailbox: Seq::empty() },
                    )
                }
            }),
    {
        let n = self.senders.len();
        let f = find_channel(&self.senders, channel_id);
        if f == n {
            let r: Vec<(u64, BinaryMessage)> = Vec::new();
            proof {
                assert(r.deep_view() =~= Seq::<(u64, BinaryMessageV)>::empty());
            }
            return r;
        }
        let ghost orig = self.senders.deep_view();
        let sub = vstd::std_specs::vec::vec_index_mut(&mut self.senders, f);
        let ghost subpre = *sub;
        let r = sub.mailbox.split_off(0);
        proof {
            assert(r@ =~= subpre.mailbox@);
            assert(r.deep_view() =~= subpre.mailbox.deep_view());
            assert(subpre@ == orig[f as int]);
            assert(sub.mailbox@ =~= Seq::<(u64, BinaryMessage)>::empty());
            assert(sub.mailbox.deep_view() =~= Seq::<(u64, BinaryMessageV)>::empty());
            assert(sub@ =~= (SubscriberV { channel_id, mailbox: Seq::empty() }));
        }
        proof {
            lemma_vec_deep_index(&self.senders);
            assert(self.senders.deep_view() =~= orig.update(
                f as int,
                SubscriberV { channel_id, mailbox: Seq::empty() },
            ));
        }
        r
    }
}

/// Finds the first subscription on the channel, or the length of the list
/// when there is none.
fn find_channel(senders: &Vec<Subscriber>, channel_id: u64) -> (r: usize)
    ensures
        r == spec_find_channel(senders.deep_view(), channel_id),
        r <= senders@.len(),
        r < senders@.len() ==> senders.deep_view()[r as int].channel_id == channel_id,
{
    let n = senders.len();
    let mut i: usize = 0;
    proof {
        lemma_vec_deep_index(senders);
    }
    while i < n
        invariant
            n == senders@.len(),
            senders.deep_view().len() == n,
            i <= n,
            forall|j: int|
                0 <= j < n ==> senders.deep_view()[j] == (#[trigger] senders@[j]).deep_view(),
            forall|j: int|
                0 <= j < i ==> (#[trigger] senders.deep_view()[j]).channel_id != channel_id,
        decreases n - i,
    {
        if vstd::std_specs::vec::vec_index(senders, i).channel_id == channel_id {
            proof {
                lemma_find_channel_characterization(senders.deep_view(), channel_id, i as int);
            }
            return i;
        }
        i = i + 1;
    }
    proof {
        lemma_find_channel_characterization(senders.deep_view(), channel_id, i as int);
    }
    i
}

/// Copies one subscription, keeping its channel and its delivered messages.
fn clone_subscriber(s: &Subscriber) -> (r: Subscriber)
    ensures
        r@ == s@,
{
    let n = s.mailbox.len();
    let mut mailbox: Vec<(u64, BinaryMessage)> = Vec::new();
    let mut i: usize = 0;
    while i < n
        invariant
            n == s.mailbox@.len(),
            i <= n,
            mailbox@.len() == i,
            forall|j: int|
                0 <= j < i ==> (#[trigger] mailbox@[j]).deep_view() == s.mailbox@[j].deep_view(),
        decreases n - i,
    {
        let p = vstd::std_specs::vec::vec_index(&s.mailbox, i);
        mailbox.push((p.0, p.1.clone()));
        i = i + 1;
    }
    proof {
        lemma_vec_deep_index(&mailbox);
        lemma_vec_deep_index(&s.mailbox);
        assert(mailbox.deep_view() =~= s.mailbox.deep_view());
    }
    Subscriber { channel_id: s.channel_id, mailbox }
}

/// Filters a drained mailbox down to the messages addressed to this user,
/// in the order they were delivered.
pub fn filter_addressed(items: Vec<(u64, BinaryMessage)>, local_id: u64) -> (r: Vec<BinaryMessage>)
    ensures
        r.deep_view() == spec_for_local(items.deep_view(), local_id),
{
    let ghost orig = items.deep_view();
    let mut items = items;
    let mut r: Vec<BinaryMessage> = Vec::new();
    proof {
        assert(r.deep_view() + spec_for_local(items.deep_view(), local_id) =~= spec_for_local(
            orig,
            local_id,
        ));
    }
    while items.len() > 0
        invariant
            r.deep_view() + spec_for_local(items.deep_view(), local_id) =~= spec_for_local(
                orig,
                local_id,
            ),
        decreases items@.len(),
    {
        proof {
            lemma_vec_deep_index(&items);
        }
        let ghost itemspre = items.deep_view();
        let ghost rpre = r.deep_view();
        let p = items.remove(0);
        proof {
            lemma_vec_deep_index(&items);
            assert(items.deep_view() =~= itemspre.drop_first());
            assert(p.deep_view() == itemspre[0]);
        }
        if p.0 == local_id {
            r.push(p.1);
            proof {
                lemma_vec_deep_index(&r);
                assert(r.deep_view() =~= rpre.push(itemspre[0].1));
                assert(rpre + (seq![itemspre[0].1] + spec_for_local(
                    itemspre.drop_first(),
                    local_id,
                )) =~= rpre.push(itemspre[0].1) + spec_for_local(
                    itemspre.drop_first(),
                    local_id,
                ));
            }
        }
    }
    proof {
        assert(spec_for_local(items.deep_view(), local_id) =~= Seq::<BinaryMessageV>::empty());
        assert(r.deep_view() =~= r.deep_view() + Seq::<BinaryMessageV>::empty());
    }
    r
}

/// Republishes one routed message drained from the central intake channel
/// onto the broadcast bus; the loop that drains the channel lives with the
/// threads outside the library.
pub fn dispatch(message: (u64, BinaryMessage), broadcast: &mut Broadcast)
    ensures
        final(broadcast)@.len() == old(broadcast)@.len(),
        forall|i: int|
            0 <= i < old(broadcast)@.len() ==> (#[trigger] final(broadcast)@[i]).channel_id == old(
                broadcast,
            )@[i].channel_id,
        forall|i: int|
            0 <= i < old(broadcast)@.len() ==> (#[trigger] final(broadcast)@[i]).mailbox == old(
                broadcast,
            )@[i].mailbox.push((message.0, message.1@)),
{
    broadcast.broadcast(message);
}


} // verus!
