//! The tables in which the service keeps its state, held in the concurrent maps
//! of the dashmap crate. A table is modelled by the map of its rows; every
//! function here has the table to itself while it runs.

use dashmap::DashMap;
use vstd::prelude::*;
use crate::models::{
    CachedRating, CachedRatingModel, Challenge, ChallengeModel, ConfirmedResult,
    ConfirmedResultModel, KohLobby, KohLobbyModel, LobbyChatEntry, LobbyChatEntryModel,
    LobbyPresence, LobbyPresenceModel, LobbyThumb, LobbyThumbModel, OAuthState, OAuthStateModel,
    PendingResult, PendingResultModel, QueueEntry, QueueEntryModel, SparRoom, SparRoomModel,
    SpectatorFrame, SpectatorFrameModel,
};

verus! {

/// `dashmap::DashMap`.
#[verifier::external_type_specification]
#[verifier::external_body]
#[verifier::reject_recursive_types(K)]
#[verifier::reject_recursive_types(V)]
#[verifier::reject_recursive_types(S)]
pub struct ExDashMap<K, V, S>(dashmap::DashMap<K, V, S>);

/// A record that a table can hold. The functions below take it on trust that
/// `rows` is what such a table holds, so each kind of record has a name of its
/// own for that, and nothing else.
pub(crate) trait Stored: View + Sized {
    /// The rows of a table of such records, by their keys.
    spec fn rows(table: DashMap<String, Self>) -> Map<Seq<char>, Self::V>;

    /// A copy of the record.
    fn duplicate(&self) -> (copy: Self)
        ensures
            copy@ == self@,
    ;
}

/// `keys` lists the keys of `rows`, each once.
pub open spec fn lists_keys<M>(keys: Seq<Seq<char>>, rows: Map<Seq<char>, M>) -> bool {
    &&& keys.no_duplicates()
    &&& forall|k: Seq<char>| keys.contains(k) <==> #[trigger] rows.contains_key(k)
}

/// The first key in a given order under which there is a row of which `p` holds.
pub open spec fn first_in<M>(
    order: Seq<Seq<char>>,
    rows: Map<Seq<char>, M>,
    p: spec_fn(M) -> bool,
) -> Option<Seq<char>>
    decreases order.len(),
{
    if order.len() == 0 {
        None
    } else if rows.contains_key(order[0]) && p(rows[order[0]]) {
        Some(order[0])
    } else {
        first_in(order.drop_first(), rows, p)
    }
}

/// `DashMap::insert`: the row is there, in place of any that had its key; the
/// others stay.
#[verifier::external_body]
pub(crate) fn insert<R: Stored>(table: &mut DashMap<String, R>, key: String, row: R)
    ensures
        R::rows(*final(table)) == R::rows(*old(table)).insert(key@, row@),
{
    table.insert(key, row);
}

/// `DashMap::remove`: the row with that key is handed out and is gone; the
/// others stay.
#[verifier::external_body]
pub(crate) fn remove<R: Stored>(table: &mut DashMap<String, R>, key: &str) -> (row: Option<R>)
    ensures
        R::rows(*final(table)) == R::rows(*old(table)).remove(key@),
        match row {
            Some(r) => R::rows(*old(table)).contains_key(key@) && r@ == R::rows(*old(table))[key@],
            None => !R::rows(*old(table)).contains_key(key@),
        },
{
    table.remove(key).map(|entry| entry.1)
}

/// `DashMap::get`: a copy of the row with that key.
#[verifier::external_body]
pub(crate) fn get<R: Stored>(table: &DashMap<String, R>, key: &str) -> (row: Option<R>)
    ensures
        match row {
            Some(r) => R::rows(*table).contains_key(key@) && r@ == R::rows(*table)[key@],
            None => !R::rows(*table).contains_key(key@),
        },
{
    table.get(key).map(|entry| entry.value().duplicate())
}

/// `DashMap::contains_key`: whether there is a row with that key.
#[verifier::external_body]
pub(crate) fn contains_key<R: Stored>(table: &DashMap<String, R>, key: &str) -> (found: bool)
    ensures
        found == R::rows(*table).contains_key(key@),
{
    table.contains_key(key)
}

/// `DashMap::iter`, of which it takes the keys: each key once, in an order of
/// which nothing is said.
#[verifier::external_body]
pub(crate) fn keys<R: Stored>(table: &DashMap<String, R>) -> (keys: Vec<String>)
    ensures
        lists_keys(keys.deep_view(), R::rows(*table)),
{
    table.iter().map(|entry| entry.key().clone()).collect()
}

/// The rows of a table of sessions.
pub uninterp spec fn queue_rows(table: DashMap<String, QueueEntry>) -> Map<Seq<char>, QueueEntryModel>;

impl Stored for QueueEntry {
    open spec fn rows(table: DashMap<String, QueueEntry>) -> Map<Seq<char>, QueueEntryModel> {
        queue_rows(table)
    }

    fn duplicate(&self) -> (copy: QueueEntry) {
        self.clone()
    }
}

/// `DashMap::new`: a table without rows.
#[verifier::external_body]
pub(crate) fn new_queue_table() -> (table: DashMap<String, QueueEntry>)
    ensures
        (queue_rows(table) == Map::<Seq<char>, QueueEntryModel>::empty()),
{
    DashMap::new()
}

/// The rows of a table of each player's current session.
pub uninterp spec fn session_rows(table: DashMap<String, String>) -> Map<Seq<char>, Seq<char>>;

impl Stored for String {
    open spec fn rows(table: DashMap<String, String>) -> Map<Seq<char>, Seq<char>> {
        session_rows(table)
    }

    fn duplicate(&self) -> (copy: String) {
        self.clone()
    }
}

/// `DashMap::new`: a table without rows.
#[verifier::external_body]
pub(crate) fn new_session_table() -> (table: DashMap<String, String>)
    ensures
        (session_rows(table) == Map::<Seq<char>, Seq<char>>::empty()),
{
    DashMap::new()
}

/// The rows of a table of results that wait for confirmation.
pub uninterp spec fn pending_rows(table: DashMap<String, PendingResult>) -> Map<Seq<char>, PendingResultModel>;

impl Stored for PendingResult {
    open spec fn rows(table: DashMap<String, PendingResult>) -> Map<Seq<char>, PendingResultModel> {
        pending_rows(table)
    }

    fn duplicate(&self) -> (copy: PendingResult) {
        self.clone()
    }
}

/// `DashMap::new`: a table without rows.
#[verifier::external_body]
pub(crate) fn new_pending_table() -> (table: DashMap<String, PendingResult>)
    ensures
        (pending_rows(table) == Map::<Seq<char>, PendingResultModel>::empty()),
{
    DashMap::new()
}

/// The rows of a table of confirmed results.
pub uninterp spec fn confirmed_rows(table: DashMap<String, ConfirmedResult>) -> Map<Seq<char>, ConfirmedResultModel>;

impl Stored for ConfirmedResult {
    open spec fn rows(table: DashMap<String, ConfirmedResult>) -> Map<Seq<char>, ConfirmedResultModel> {
        confirmed_rows(table)
    }

    fn duplicate(&self) -> (copy: ConfirmedResult) {
        self.clone()
    }
}

/// `DashMap::new`: a table without rows.
#[verifier::external_body]
pub(crate) fn new_confirmed_table() -> (table: DashMap<String, ConfirmedResult>)
    ensures
        (confirmed_rows(table) == Map::<Seq<char>, ConfirmedResultModel>::empty()),
{
    DashMap::new()
}

/// The rows of a table of spar rooms.
pub uninterp spec fn room_rows(table: DashMap<String, SparRoom>) -> Map<Seq<char>, SparRoomModel>;

impl Stored for SparRoom {
    open spec fn rows(table: DashMap<String, SparRoom>) -> Map<Seq<char>, SparRoomModel> {
        room_rows(table)
    }

    fn duplicate(&self) -> (copy: SparRoom) {
        self.clone()
    }
}

/// `DashMap::new`: a table without rows.
#[verifier::external_body]
pub(crate) fn new_room_table() -> (table: DashMap<String, SparRoom>)
    ensures
        (room_rows(table) == Map::<Seq<char>, SparRoomModel>::empty()),
{
    DashMap::new()
}

/// The rows of a table of heartbeats in the general lobby.
pub uninterp spec fn presence_rows(table: DashMap<String, LobbyPresence>) -> Map<Seq<char>, LobbyPresenceModel>;

impl Stored for LobbyPresence {
    open spec fn rows(table: DashMap<String, LobbyPresence>) -> Map<Seq<char>, LobbyPresenceModel> {
        presence_rows(table)
    }

    fn duplicate(&self) -> (copy: LobbyPresence) {
        self.clone()
    }
}

/// `DashMap::new`: a table without rows.
#[verifier::external_body]
pub(crate) fn new_presence_table() -> (table: DashMap<String, LobbyPresence>)
    ensures
        (presence_rows(table) == Map::<Seq<char>, LobbyPresenceModel>::empty()),
{
    DashMap::new()
}

/// The rows of a table of chat messages.
pub uninterp spec fn chat_rows(table: DashMap<String, LobbyChatEntry>) -> Map<Seq<char>, LobbyChatEntryModel>;

impl Stored for LobbyChatEntry {
    open spec fn rows(table: DashMap<String, LobbyChatEntry>) -> Map<Seq<char>, LobbyChatEntryModel> {
        chat_rows(table)
    }

    fn duplicate(&self) -> (copy: LobbyChatEntry) {
        self.clone()
    }
}

/// `DashMap::new`: a table without rows.
#[verifier::external_body]
pub(crate) fn new_chat_table() -> (table: DashMap<String, LobbyChatEntry>)
    ensures
        (chat_rows(table) == Map::<Seq<char>, LobbyChatEntryModel>::empty()),
{
    DashMap::new()
}

/// The rows of a table of challenges.
pub uninterp spec fn challenge_rows(table: DashMap<String, Challenge>) -> Map<Seq<char>, ChallengeModel>;

impl Stored for Challenge {
    open spec fn rows(table: DashMap<String, Challenge>) -> Map<Seq<char>, ChallengeModel> {
        challenge_rows(table)
    }

    fn duplicate(&self) -> (copy: Challenge) {
        self.clone()
    }
}

/// `DashMap::new`: a table without rows.
#[verifier::external_body]
pub(crate) fn new_challenge_table() -> (table: DashMap<String, Challenge>)
    ensures
        (challenge_rows(table) == Map::<Seq<char>, ChallengeModel>::empty()),
{
    DashMap::new()
}

/// The rows of a table of spectator frames.
pub uninterp spec fn frame_rows(table: DashMap<String, SpectatorFrame>) -> Map<Seq<char>, SpectatorFrameModel>;

impl Stored for SpectatorFrame {
    open spec fn rows(table: DashMap<String, SpectatorFrame>) -> Map<Seq<char>, SpectatorFrameModel> {
        frame_rows(table)
    }

    fn duplicate(&self) -> (copy: SpectatorFrame) {
        self.clone()
    }
}

/// `DashMap::new`: a table without rows.
#[verifier::external_body]
pub(crate) fn new_frame_table() -> (table: DashMap<String, SpectatorFrame>)
    ensures
        (frame_rows(table) == Map::<Seq<char>, SpectatorFrameModel>::empty()),
{
    DashMap::new()
}

/// The rows of a table of login nonces.
pub uninterp spec fn oauth_rows(table: DashMap<String, OAuthState>) -> Map<Seq<char>, OAuthStateModel>;

impl Stored for OAuthState {
    open spec fn rows(table: DashMap<String, OAuthState>) -> Map<Seq<char>, OAuthStateModel> {
        oauth_rows(table)
    }

    fn duplicate(&self) -> (copy: OAuthState) {
        self.clone()
    }
}

/// `DashMap::new`: a table without rows.
#[verifier::external_body]
pub(crate) fn new_oauth_table() -> (table: DashMap<String, OAuthState>)
    ensures
        (oauth_rows(table) == Map::<Seq<char>, OAuthStateModel>::empty()),
{
    DashMap::new()
}

/// The rows of a table of ratings.
pub uninterp spec fn rating_rows(table: DashMap<String, CachedRating>) -> Map<Seq<char>, CachedRatingModel>;

impl Stored for CachedRating {
    open spec fn rows(table: DashMap<String, CachedRating>) -> Map<Seq<char>, CachedRatingModel> {
        rating_rows(table)
    }

    fn duplicate(&self) -> (copy: CachedRating) {
        self.clone()
    }
}

/// `DashMap::new`: a table without rows.
#[verifier::external_body]
pub(crate) fn new_rating_table() -> (table: DashMap<String, CachedRating>)
    ensures
        (rating_rows(table) == Map::<Seq<char>, CachedRatingModel>::empty()),
{
    DashMap::new()
}

/// The rows of a table of king-of-the-hill lobbies.
pub uninterp spec fn lobby_rows(table: DashMap<String, KohLobby>) -> Map<Seq<char>, KohLobbyModel>;

impl Stored for KohLobby {
    open spec fn rows(table: DashMap<String, KohLobby>) -> Map<Seq<char>, KohLobbyModel> {
        lobby_rows(table)
    }

    fn duplicate(&self) -> (copy: KohLobby) {
        self.clone()
    }
}

/// `DashMap::new`: a table without rows.
#[verifier::external_body]
pub(crate) fn new_lobby_table() -> (table: DashMap<String, KohLobby>)
    ensures
        (lobby_rows(table) == Map::<Seq<char>, KohLobbyModel>::empty()),
{
    DashMap::new()
}

/// The rows of a table of screenshots of lobbies.
pub uninterp spec fn thumb_rows(table: DashMap<String, LobbyThumb>) -> Map<Seq<char>, LobbyThumbModel>;

impl Stored for LobbyThumb {
    open spec fn rows(table: DashMap<String, LobbyThumb>) -> Map<Seq<char>, LobbyThumbModel> {
        thumb_rows(table)
    }

    fn duplicate(&self) -> (copy: LobbyThumb) {
        self.clone()
    }
}

/// `DashMap::new`: a table without rows.
#[verifier::external_body]
pub(crate) fn new_thumb_table() -> (table: DashMap<String, LobbyThumb>)
    ensures
        (thumb_rows(table) == Map::<Seq<char>, LobbyThumbModel>::empty()),
{
    DashMap::new()
}

} // verus!
