//! The multiplayer lobby: the messages the server sends and how each one
//! changes the game, and the lobby id typed in to join a game.
use crate::data::Data;
use crate::text::{joined, owned, push_char, split_words, str_eq};
use crate::typing::typing_test::{split_on_space, TypingTest};
use vstd::prelude::*;
use vstd::string::StringExecFns;

verus! {

/// Where the game of the lobby stands.
#[derive(PartialEq, Eq, PartialOrd, Debug, Clone, Copy, Structural)]
pub enum GameStatus {
    Waiting,
    Countdown(i8),
    Playing,
    Done,
    End,
}

/// The players of a lobby as the server last reported them, at a version
/// that grows with each report.
#[derive(Debug, PartialEq)]
pub struct PlayersInfoSnapshot<P> {
    pub lobby_id: String,
    pub version: u64,
    pub players: P,
}

/// A lobby and the text its game is played on.
#[derive(Debug, PartialEq)]
pub struct LobbyInfo {
    pub lobby_id: String,
    pub data: Data,
}

/// A new game in the lobby: its text and its players.
#[derive(Debug)]
pub struct NewGame<P> {
    pub data: Data,
    pub players_info: PlayersInfoSnapshot<P>,
}

/// The lobby the player is in: its info, the player's own typing test,
/// and the statistics kept while the game is played.
pub struct Lobby<S> {
    pub lobby_info: LobbyInfo,
    pub typing: TypingTest,
    pub stats: S,
}

/// A lobby the player asked to join and has not been told about yet, and
/// players reported before the lobby itself was.
pub struct PendingLobby<P> {
    pub lobby_id: Option<String>,
    pub pending_players: Option<PlayersInfoSnapshot<P>>,
}

impl<P> Default for PendingLobby<P> {
    /// Nothing pending.
    fn default() -> (res: Self)
        ensures
            res.lobby_id is None,
            res.pending_players is None,
    {
        PendingLobby { lobby_id: None, pending_players: None }
    }
}

/// What the player knows of the multiplayer game.
pub struct GameModel<P, S> {
    pub is_connected: bool,
    pub user_id: Option<String>,
    pub active_lobby_id: Option<String>,
    pub pending_lobby: PendingLobby<P>,
    pub players_info: Option<PlayersInfoSnapshot<P>>,
    pub lobby: Option<Lobby<S>>,
    pub game_status: Option<GameStatus>,
}

impl<P, S> Default for GameModel<P, S> {
    /// Not connected, in no lobby, knowing nothing.
    fn default() -> (res: Self)
        ensures
            !res.is_connected,
            res.user_id is None,
            res.active_lobby_id is None,
            res.pending_lobby.lobby_id is None,
            res.pending_lobby.pending_players is None,
            res.players_info is None,
            res.lobby is None,
            res.game_status is None,
    {
        GameModel {
            is_connected: false,
            user_id: None,
            active_lobby_id: None,
            pending_lobby: PendingLobby::default(),
            players_info: None,
            lobby: None,
            game_status: None,
        }
    }
}

/// The commands the server sends, each the first word of a message.
#[derive(Debug, Clone, Copy, PartialEq, Eq, Structural)]
pub enum WsCmd {
    LobbyInfo,
    NewGame,
    EndGame,
    Error,
    UserId,
    LeaveGroup,
    PlayersInfo,
    Countdown,
    StartGame,
}

/// The word that names a command.
pub open spec fn cmd_name(c: WsCmd) -> Seq<char> {
    match c {
        WsCmd::LobbyInfo => "LobbyInfo"@,
        WsCmd::NewGame => "NewGame"@,
        WsCmd::EndGame => "EndGame"@,
        WsCmd::Error => "Error"@,
        WsCmd::UserId => "UserId"@,
        WsCmd::LeaveGroup => "LeaveGroup"@,
        WsCmd::PlayersInfo => "PlayersInfo"@,
        WsCmd::Countdown => "Countdown"@,
        WsCmd::StartGame => "StartGame"@,
    }
}

/// A message from the server, with its payload read.
#[derive(Debug)]
pub enum WsCommand<P> {
    LobbyInfo(LobbyInfo),
    NewGame(NewGame<P>),
    EndGame(PlayersInfoSnapshot<P>),
    Error(String),
    UserId(String),
    LeaveGroup(bool),
    PlayersInfo(PlayersInfoSnapshot<P>),
    Countdown(i8),
    StartGame,
}

/// An optional string as its characters.
pub open spec fn opt_text(o: Option<String>) -> Option<Seq<char>> {
    match o {
        Some(s) => Some(s@),
        None => None,
    }
}

/// The lobby that reports about players are expected for: the lobby the
/// player is in, else the one the player asked to join.
pub open spec fn expected_lobby<P, S>(m: GameModel<P, S>) -> Option<Seq<char>> {
    if m.active_lobby_id is Some {
        opt_text(m.active_lobby_id)
    } else {
        opt_text(m.pending_lobby.lobby_id)
    }
}

/// The players known after `incoming` arrives for the expected lobby: it
/// replaces what was known unless that is at the same or a later version.
pub open spec fn newer_players<P>(
    current: Option<PlayersInfoSnapshot<P>>,
    incoming: PlayersInfoSnapshot<P>,
) -> Option<PlayersInfoSnapshot<P>> {
    match current {
        Some(p) => if p.version < incoming.version {
            Some(incoming)
        } else {
            Some(p)
        },
        None => Some(incoming),
    }
}

/// The model after a report of players: kept aside as pending when it is
/// not for the expected lobby, else taken if it is newer.
pub open spec fn with_players<P, S>(m: GameModel<P, S>, incoming: PlayersInfoSnapshot<P>) -> GameModel<
    P,
    S,
> {
    if expected_lobby(m) != Some(incoming.lobby_id@) {
        GameModel {
            pending_lobby: PendingLobby {
                pending_players: Some(incoming),
                ..m.pending_lobby
            },
            ..m
        }
    } else {
        GameModel { players_info: newer_players(m.players_info, incoming), ..m }
    }
}

/// `b` is the test `a` after its timer was started.
pub open spec fn started(a: TypingTest, b: TypingTest) -> bool {
    &&& b@ == a@
    &&& b.words@ == a.words@
    &&& b.time_ended == a.time_ended
    &&& a.time_started is Some ==> b.time_started == a.time_started
    &&& b.time_started is Some
}

/// `b` is the test `a` after it was ended.
pub open spec fn ended(a: TypingTest, b: TypingTest) -> bool {
    &&& b@ == a@
    &&& b.words@ == a.words@
    &&& b.time_started == a.time_started
    &&& a.time_ended is Some ==> b.time_ended == a.time_ended
    &&& b.time_ended is Some
}

/// The optional lobby `b` is `a` with its test changed as `step` says.
pub open spec fn lobby_test_changed<S>(
    a: Option<Lobby<S>>,
    b: Option<Lobby<S>>,
    step: spec_fn(TypingTest, TypingTest) -> bool,
) -> bool {
    match (a, b) {
        (Some(x), Some(y)) => y.lobby_info == x.lobby_info && y.stats == x.stats && step(
            x.typing,
            y.typing,
        ),
        (None, None) => true,
        _ => false,
    }
}

/// `l` is a lobby just joined or restarted: its info, a fresh test of its
/// text, and fresh statistics.
pub open spec fn fresh_lobby<S>(l: Lobby<S>, info: LobbyInfo, stats: S) -> bool {
    &&& l.lobby_info == info
    &&& l.typing.is_new_test(info.data.text@)
    &&& l.stats == stats
}

/// The error a failed leave is answered with.
pub open spec fn leave_failed_msg() -> Seq<char> {
    "Something went wrong leaving the group"@
}

/// The model after leaving the lobby: only the connection and the user id
/// are kept.
pub open spec fn left<P, S>(a: GameModel<P, S>, b: GameModel<P, S>) -> bool {
    &&& b.is_connected == a.is_connected
    &&& b.user_id == a.user_id
    &&& b.active_lobby_id is None
    &&& b.pending_lobby.lobby_id is None
    &&& b.pending_lobby.pending_players is None
    &&& b.players_info is None
    &&& b.lobby is None
    &&& b.game_status is None
}

/// The model after the lobby `info` is reported: the player is in it, its
/// game waits, a pending join of it is done, and players reported for it
/// before are taken.
pub open spec fn joined_lobby<P, S>(a: GameModel<P, S>, b: GameModel<P, S>, info: LobbyInfo, stats: S) -> bool {
    &&& b.is_connected == a.is_connected
    &&& b.user_id == a.user_id
    &&& b.lobby matches Some(l) && fresh_lobby(l, info, stats)
    &&& b.active_lobby_id == Some(info.lobby_id)
    &&& b.game_status == Some(GameStatus::Waiting)
    &&& b.pending_lobby.lobby_id == if opt_text(a.pending_lobby.lobby_id) == Some(info.lobby_id@) {
        None
    } else {
        a.pending_lobby.lobby_id
    }
    &&& b.pending_lobby.pending_players is None
    &&& b.players_info == match a.pending_lobby.pending_players {
        Some(pp) => if pp.lobby_id@ == info.lobby_id@ {
            Some(pp)
        } else {
            a.players_info
        },
        None => a.players_info,
    }
}

impl<P, S> GameModel<P, S> {
    /// Takes a report of players: kept aside when it is not for the lobby
    /// the player is in or asked to join, else taken if it is newer than
    /// what is known.
    pub fn update_players(&mut self, incoming: PlayersInfoSnapshot<P>)
        ensures
            *final(self) == with_players(*old(self), incoming),
    {
        let is_expected = match &self.active_lobby_id {
            Some(active) => *active == incoming.lobby_id,
            None => match &self.pending_lobby.lobby_id {
                Some(pending) => *pending == incoming.lobby_id,
                None => false,
            },
        };
        if !is_expected {
            self.pending_lobby.pending_players = Some(incoming);
            return;
        }
        let is_newer = match &self.players_info {
            Some(players) => players.version < incoming.version,
            None => true,
        };
        if is_newer {
            self.players_info = Some(incoming);
        }
    }

    /// Forgets the lobby when leaving it.
    pub fn clear_game_model(&mut self)
        ensures
            left(*old(self), *final(self)),
    {
        self.active_lobby_id = None;
        self.pending_lobby.lobby_id = None;
        self.pending_lobby.pending_players = None;
        self.players_info = None;
        self.lobby = None;
        self.game_status = None;
    }

    /// Carries out a message from the server. A lobby that is joined or
    /// restarted gets `fresh_stats` as its statistics. `Error` and a failed
    /// `LeaveGroup` are answered with an error and change nothing.
    pub fn apply(&mut self, cmd: WsCommand<P>, fresh_stats: S) -> (res: Result<(), String>)
        ensures
            match cmd {
                WsCommand::LobbyInfo(info) => res is Ok && joined_lobby(
                    *old(self),
                    *final(self),
                    info,
                    fresh_stats,
                ),
                WsCommand::NewGame(game) => {
                    &&& res is Ok
                    &&& *final(self) == (GameModel {
                        lobby: final(self).lobby,
                        players_info: Some(game.players_info),
                        ..*old(self)
                    })
                    &&& match (old(self).lobby, final(self).lobby) {
                        (Some(a), Some(b)) => fresh_lobby(
                            b,
                            LobbyInfo { lobby_id: a.lobby_info.lobby_id, data: game.data },
                            fresh_stats,
                        ),
                        (None, None) => true,
                        _ => false,
                    }
                },
                WsCommand::EndGame(players) => {
                    &&& res is Ok
                    &&& *final(self) == (GameModel {
                        lobby: final(self).lobby,
                        players_info: Some(players),
                        game_status: Some(GameStatus::End),
                        ..*old(self)
                    })
                    &&& lobby_test_changed(old(self).lobby, final(self).lobby, |a, b| ended(a, b))
                },
                WsCommand::Error(msg) => res == Err::<(), String>(msg) && *final(self) == *old(
                    self,
                ),
                WsCommand::UserId(id) => res is Ok && *final(self) == (GameModel {
                    user_id: Some(id),
                    ..*old(self)
                }),
                WsCommand::LeaveGroup(ok) => if ok {
                    res is Ok && left(*old(self), *final(self))
                } else {
                    res matches Err(e) && e@ == leave_failed_msg() && *final(self) == *old(self)
                },
                WsCommand::PlayersInfo(players) => res is Ok && *final(self) == with_players(
                    *old(self),
                    players,
                ),
                WsCommand::Countdown(n) => res is Ok && *final(self) == (GameModel {
                    game_status: Some(GameStatus::Countdown(n)),
                    ..*old(self)
                }),
                WsCommand::StartGame => {
                    &&& res is Ok
                    &&& *final(self) == (GameModel {
                        lobby: final(self).lobby,
                        game_status: Some(GameStatus::Playing),
                        ..*old(self)
                    })
                    &&& lobby_test_changed(old(self).lobby, final(self).lobby, |a, b| started(a, b))
                },
            },
    {
        match cmd {
            WsCommand::LobbyInfo(lobby_info) => {
                let lobby_id = lobby_info.lobby_id.clone();
                let typing = TypingTest::new(lobby_info.data.text.as_str());
                self.lobby = Some(Lobby { typing, lobby_info, stats: fresh_stats });
                self.active_lobby_id = Some(lobby_id.clone());
                self.game_status = Some(GameStatus::Waiting);
                let pending_matches = match &self.pending_lobby.lobby_id {
                    Some(pending) => *pending == lobby_id,
                    None => false,
                };
                if pending_matches {
                    self.pending_lobby.lobby_id = None;
                }
                if let Some(pending_players) = self.pending_lobby.pending_players.take() {
                    if pending_players.lobby_id == lobby_id {
                        self.players_info = Some(pending_players);
                    }
                }
                Ok(())
            },
            WsCommand::NewGame(new_game) => {
                let NewGame { data, players_info } = new_game;
                if let Some(lobby) = &mut self.lobby {
                    lobby.typing = TypingTest::new(data.text.as_str());
                    lobby.lobby_info.data = data;
                    lobby.stats = fresh_stats;
                }
                self.players_info = Some(players_info);
                Ok(())
            },
            WsCommand::EndGame(players) => {
                if let Some(lobby) = &mut self.lobby {
                    lobby.typing.end_now();
                }
                self.players_info = Some(players);
                self.game_status = Some(GameStatus::End);
                Ok(())
            },
            WsCommand::Error(msg) => Err(msg),
            WsCommand::UserId(user_id) => {
                self.user_id = Some(user_id);
                Ok(())
            },
            WsCommand::LeaveGroup(did_succeed) => {
                if !did_succeed {
                    return Err(owned("Something went wrong leaving the group"));
                }
                self.clear_game_model();
                Ok(())
            },
            WsCommand::PlayersInfo(players) => {
                self.update_players(players);
                Ok(())
            },
            WsCommand::Countdown(countdown) => {
                self.game_status = Some(GameStatus::Countdown(countdown));
                Ok(())
            },
            WsCommand::StartGame => {
                self.game_status = Some(GameStatus::Playing);
                if let Some(lobby) = &mut self.lobby {
                    lobby.typing.start();
                }
                Ok(())
            },
        }
    }
}

/// The command a word names, if it names one.
pub open spec fn cmd_of(word: Seq<char>) -> Option<WsCmd> {
    if word == "LobbyInfo"@ {
        Some(WsCmd::LobbyInfo)
    } else if word == "NewGame"@ {
        Some(WsCmd::NewGame)
    } else if word == "EndGame"@ {
        Some(WsCmd::EndGame)
    } else if word == "Error"@ {
        Some(WsCmd::Error)
    } else if word == "UserId"@ {
        Some(WsCmd::UserId)
    } else if word == "LeaveGroup"@ {
        Some(WsCmd::LeaveGroup)
    } else if word == "PlayersInfo"@ {
        Some(WsCmd::PlayersInfo)
    } else if word == "Countdown"@ {
        Some(WsCmd::Countdown)
    } else if word == "StartGame"@ {
        Some(WsCmd::StartGame)
    } else {
        None
    }
}

/// The payload of a message split into words: the words after the first,
/// joined by single spaces.
pub open spec fn payload_of(words: Seq<Seq<char>>) -> Seq<char> {
    joined(words.skip(1))
}

/// What reading the message `msg` gives: its command and payload, or the
/// error the message is answered with.
pub open spec fn framed(msg: Seq<char>) -> Result<(WsCmd, Seq<char>), Seq<char>> {
    let words = split_on_space(msg);
    if words[0].len() == 0 {
        Err("msg did not contain a cmd"@)
    } else {
        match cmd_of(words[0]) {
            None => Err("cmd "@ + words[0] + " unsupported"@),
            Some(WsCmd::StartGame) => Ok((WsCmd::StartGame, Seq::empty())),
            Some(c) => if words.len() < 2 {
                Err("msg did not contain a payload"@)
            } else {
                Ok((c, payload_of(words)))
            },
        }
    }
}

/// The command `word` names, if any.
pub fn parse_cmd(word: &str) -> (res: Option<WsCmd>)
    ensures
        res == cmd_of(word@),
{
    if str_eq(word, "LobbyInfo") {
        Some(WsCmd::LobbyInfo)
    } else if str_eq(word, "NewGame") {
        Some(WsCmd::NewGame)
    } else if str_eq(word, "EndGame") {
        Some(WsCmd::EndGame)
    } else if str_eq(word, "Error") {
        Some(WsCmd::Error)
    } else if str_eq(word, "UserId") {
        Some(WsCmd::UserId)
    } else if str_eq(word, "LeaveGroup") {
        Some(WsCmd::LeaveGroup)
    } else if str_eq(word, "PlayersInfo") {
        Some(WsCmd::PlayersInfo)
    } else if str_eq(word, "Countdown") {
        Some(WsCmd::Countdown)
    } else if str_eq(word, "StartGame") {
        Some(WsCmd::StartGame)
    } else {
        None
    }
}

/// The string after the command: the words after the first, joined by
/// single spaces; an error when there is nothing after the command.
pub fn get_payload_from_words(words: &[&str]) -> (res: Result<String, String>)
    ensures
        words@.len() < 2 ==> (res matches Err(e) && e@ == "msg did not contain a payload"@),
        words@.len() >= 2 ==> (res matches Ok(p) && p@ == payload_of(
            words@.map_values(|w: &str| w@),
        )),
{
    if words.len() < 2 {
        return Err(owned("msg did not contain a payload"));
    }
    let ghost ws = words@.map_values(|w: &str| w@);
    let mut payload = String::new();
    let n = words.len();
    for i in 1..n
        invariant
            n == words@.len(),
            ws == words@.map_values(|w: &str| w@),
            payload@ == joined(ws.skip(1).take(i - 1)),
    {
        let ghost before = payload@;
        if i > 1 {
            payload.append(" ");
        }
        payload.append(words[i]);
        proof {
            reveal_strlit(" ");
            let rest = ws.skip(1);
            assert(rest[i - 1] == words@[i as int]@);
            assert(rest.take(i as int).drop_last() =~= rest.take(i - 1));
            assert(rest.take(i as int).last() == rest[i - 1]);
            if i == 1 {
                assert(rest.take(1) =~= seq![rest[0]]);
                assert(payload@ =~= rest[0]);
            } else {
                assert(payload@ =~= joined(rest.take(i - 1)) + seq![' '] + rest[i - 1]);
            }
        }
    }
    assert(ws.skip(1).take(n - 1) =~= ws.skip(1));
    Ok(payload)
}

/// Reads a message from the server: its first word is the command, the
/// rest its payload. Every command but `StartGame` needs a payload.
pub fn frame_ws_msg(msg: &str) -> (res: Result<(WsCmd, String), String>)
    ensures
        match framed(msg@) {
            Ok((c, p)) => res matches Ok((c2, p2)) && c2 == c && p2@ == p,
            Err(e) => res matches Err(e2) && e2@ == e,
        },
{
    let words = split_words(msg);
    proof {
        crate::typing::typing_test::lemma_split_nonempty(msg@);
        assert(words@.map_values(|w: &str| w@)[0] == words@[0]@);
    }
    if words.len() == 0 || words[0].is_empty() {
        return Err(owned("msg did not contain a cmd"));
    }
    let cmd = match parse_cmd(words[0]) {
        Some(c) => c,
        None => {
            let mut e = owned("cmd ");
            e.append(words[0]);
            e.append(" unsupported");
            return Err(e);
        },
    };
    match cmd {
        WsCmd::StartGame => Ok((cmd, String::new())),
        _ => match get_payload_from_words(words.as_slice()) {
            Ok(payload) => Ok((cmd, payload)),
            Err(e) => Err(e),
        },
    }
}

/// What `serde_json` reads from a payload as a `bool`, or `None` when it
/// does not hold one.
pub uninterp spec fn parsed_flag(payload: Seq<char>) -> Option<bool>;

/// What `serde_json` reads from a payload as an `i8`, or `None` when it
/// does not hold one.
pub uninterp spec fn parsed_countdown(payload: Seq<char>) -> Option<i8>;

/// Calls `serde_json::from_str` for a `bool`; its error is given as its
/// message. The flag read is named `parsed_flag`.
#[verifier::external_body]
fn parse_leave_payload(payload: &str) -> (res: Result<bool, String>)
    ensures
        match res {
            Ok(b) => parsed_flag(payload@) == Some(b),
            Err(_) => parsed_flag(payload@) is None,
        },
{
    match serde_json::from_str::<bool>(payload) {
        Ok(b) => Ok(b),
        Err(e) => Err(e.to_string()),
    }
}

/// Calls `serde_json::from_str` for an `i8`; its error is given as its
/// message. The number read is named `parsed_countdown`.
#[verifier::external_body]
fn parse_countdown_payload(payload: &str) -> (res: Result<i8, String>)
    ensures
        match res {
            Ok(n) => parsed_countdown(payload@) == Some(n),
            Err(_) => parsed_countdown(payload@) is None,
        },
{
    match serde_json::from_str::<i8>(payload) {
        Ok(n) => Ok(n),
        Err(e) => Err(e.to_string()),
    }
}

/// The message that a command and its payload make where the payload is a
/// plain value: text for `Error` and `UserId`, a flag for `LeaveGroup`, a
/// number for `Countdown`, nothing for `StartGame`. `None` for the commands
/// whose payload describes a lobby or its players; an error when a flag or
/// a number cannot be read.
pub fn payload_command<P>(cmd: WsCmd, payload: String) -> (res: Result<Option<WsCommand<P>>, String>)
    ensures
        match cmd {
            WsCmd::Error => res matches Ok(Some(WsCommand::Error(t))) && t == payload,
            WsCmd::UserId => res matches Ok(Some(WsCommand::UserId(t))) && t == payload,
            WsCmd::LeaveGroup => match parsed_flag(payload@) {
                Some(b) => res matches Ok(Some(WsCommand::LeaveGroup(b2))) && b2 == b,
                None => res is Err,
            },
            WsCmd::Countdown => match parsed_countdown(payload@) {
                Some(n) => res matches Ok(Some(WsCommand::Countdown(n2))) && n2 == n,
                None => res is Err,
            },
            WsCmd::StartGame => res matches Ok(Some(WsCommand::StartGame)),
            _ => res matches Ok(None),
        },
{
    match cmd {
        WsCmd::Error => Ok(Some(WsCommand::Error(payload))),
        WsCmd::UserId => Ok(Some(WsCommand::UserId(payload))),
        WsCmd::LeaveGroup => match parse_leave_payload(payload.as_str()) {
            Ok(b) => Ok(Some(WsCommand::LeaveGroup(b))),
            Err(e) => Err(e),
        },
        WsCmd::Countdown => match parse_countdown_payload(payload.as_str()) {
            Ok(n) => Ok(Some(WsCommand::Countdown(n))),
            Err(e) => Err(e),
        },
        WsCmd::StartGame => Ok(Some(WsCommand::StartGame)),
        _ => Ok(None),
    }
}

/// A key pressed while typing the id of a lobby to join.
pub enum LobbyKey {
    /// A character; `ctrl` when Control, and nothing else, was held.
    Char { c: char, ctrl: bool },
    /// Backspace; `whole` when Control or Alt was held.
    Backspace { whole: bool },
    Enter,
    Esc,
    Other,
}

/// A request to the server.
#[derive(Debug, PartialEq)]
pub enum LobbyRequest {
    NewGroup,
    JoinGroup(String),
    LeaveGroup,
    StartGame,
}

/// The text a request is sent as.
pub open spec fn request_text(r: LobbyRequest) -> Seq<char> {
    match r {
        LobbyRequest::NewGroup => "NewGroup"@,
        LobbyRequest::JoinGroup(id) => "JoinGroup "@ + id@,
        LobbyRequest::LeaveGroup => "LeaveGroup"@,
        LobbyRequest::StartGame => "StartGame"@,
    }
}

impl LobbyRequest {
    /// The text the request is sent as: its name, then its argument.
    pub fn to_string(&self) -> (res: String)
        ensures
            res@ == request_text(*self),
    {
        match self {
            LobbyRequest::NewGroup => owned("NewGroup"),
            LobbyRequest::JoinGroup(id) => {
                let mut s = owned("JoinGroup ");
                s.append(id.as_str());
                s
            },
            LobbyRequest::LeaveGroup => owned("LeaveGroup"),
            LobbyRequest::StartGame => owned("StartGame"),
        }
    }
}

/// The longest lobby id that can be typed.
pub const MAX_LOBBY_ID_LEN: usize = 6;

/// A character that can be part of a lobby id: a lowercase ASCII letter.
pub open spec fn is_id_char(c: char) -> bool {
    'a' <= c && c <= 'z'
}

/// The characters `cs` as a string.
fn collect_chars(cs: &Vec<char>) -> (s: String)
    ensures
        s@ == cs@,
{
    let mut s = String::new();
    let n = cs.len();
    for i in 0..n
        invariant
            n == cs@.len(),
            s@ == cs@.take(i as int),
    {
        push_char(&mut s, cs[i]);
        assert(cs@.take(i + 1) =~= cs@.take(i as int).push(cs@[i as int]));
    }
    assert(cs@.take(n as int) =~= cs@);
    s
}

/// Handles a key on the lobby id screen: Control-n asks for a new lobby;
/// a lowercase letter is added while the id is shorter than
/// `MAX_LOBBY_ID_LEN`; backspace removes a letter, or all of them with
/// Control or Alt; Enter asks to join the lobby typed.
pub fn lobby_id_input(input: &mut Vec<char>, key: LobbyKey) -> (req: Option<LobbyRequest>)
    ensures
        match key {
            LobbyKey::Char { c, ctrl } => if c == 'n' && ctrl {
                req == Some(LobbyRequest::NewGroup) && final(input)@ == old(input)@
            } else {
                &&& req is None
                &&& final(input)@ == if is_id_char(c) && old(input)@.len() < MAX_LOBBY_ID_LEN {
                    old(input)@.push(c)
                } else {
                    old(input)@
                }
            },
            LobbyKey::Backspace { whole } => req is None && final(input)@ == if whole {
                Seq::<char>::empty()
            } else if old(input)@.len() > 0 {
                old(input)@.drop_last()
            } else {
                old(input)@
            },
            LobbyKey::Enter => final(input)@ == old(input)@ && (req matches Some(
                LobbyRequest::JoinGroup(id),
            ) && id@ == old(input)@),
            LobbyKey::Esc | LobbyKey::Other => req is None && final(input)@ == old(input)@,
        },
{
    match key {
        LobbyKey::Char { c, ctrl } => {
            if c == 'n' && ctrl {
                return Some(LobbyRequest::NewGroup);
            }
            if !('a' <= c && c <= 'z') || input.len() >= MAX_LOBBY_ID_LEN {
                return None;
            }
            input.push(c);
            None
        },
        LobbyKey::Backspace { whole } => {
            if whole {
                input.clear();
            } else {
                input.pop();
            }
            None
        },
        LobbyKey::Enter => Some(LobbyRequest::JoinGroup(collect_chars(input))),
        LobbyKey::Esc | LobbyKey::Other => None,
    }
}

impl<P, S> GameModel<P, S> {
    /// Notes a request that was sent: after asking to join a lobby, that
    /// lobby is the one pending.
    pub fn on_request_sent(&mut self, req: &LobbyRequest)
        ensures
            *final(self) == match *req {
                LobbyRequest::JoinGroup(id) => GameModel {
                    pending_lobby: PendingLobby { lobby_id: Some(id), ..old(self).pending_lobby },
                    ..*old(self)
                },
                _ => *old(self),
            },
    {
        if let LobbyRequest::JoinGroup(id) = req {
            self.pending_lobby.lobby_id = Some(id.clone());
        }
    }

    /// The leader can start a game: the lobby waits, or its last game has
    /// ended.
    pub open spec fn can_start_spec(self, is_leader: bool) -> bool {
        is_leader && (self.game_status == Some(GameStatus::Waiting) || self.game_status == Some(
            GameStatus::End,
        ))
    }

    /// Whether the leader can start a game now: the lobby waits, or its
    /// last game has ended.
    pub fn can_start(&self, is_leader: bool) -> (res: bool)
        ensures
            res == self.can_start_spec(is_leader),
    {
        let is_waiting = match self.game_status {
            Some(GameStatus::Waiting) => true,
            Some(GameStatus::End) => true,
            _ => false,
        };
        is_leader && is_waiting
    }
}

/// The length in bytes of the UTF-8 encoding of `s`, as `str::len` reports
/// it.
pub open spec fn byte_len(s: Seq<char>) -> nat {
    (vstd::utf8::encode_utf8(s).len() as usize) as nat
}

/// How far the player is through the lobby's text, in percent: letters
/// typed against the text's length in bytes; 100 for an empty text; at
/// the end, 99 while the current word is in error.
pub open spec fn progress_of<S>(lobby: Lobby<S>) -> nat {
    let total = byte_len(lobby.lobby_info.data.text@);
    if total == 0 {
        100
    } else {
        let p = lobby.typing.n_letters_typed as nat * 100 / total;
        if p >= 100 {
            if lobby.typing.word_index < lobby.typing.words@.len()
                && lobby.typing@.curr().has_error() {
                99
            } else {
                100
            }
        } else {
            p
        }
    }
}

/// The player's progress through the lobby's text, in percent.
pub fn typing_progress<S>(lobby: &Lobby<S>) -> (res: usize)
    requires
        lobby.typing.n_letters_typed * 100 <= usize::MAX,
    ensures
        res == progress_of(*lobby),
{
    let total_len = lobby.lobby_info.data.text.as_str().len();
    if total_len == 0 {
        return 100;
    }
    let progress = lobby.typing.letters_typed() * 100 / total_len;
    if progress >= 100 {
        match lobby.typing.get_curr_word() {
            Some(word) => if word.is_error() {
                99
            } else {
                100
            },
            None => 100,
        }
    } else {
        progress
    }
}

/// How far the player is through the text: below the text's length in
/// bytes, the share of it typed, rounded down; once all of it is typed,
/// 100, but 99 while the word under the cursor exists and is in error. An
/// ended test (its cursor past the last word) that has typed the whole
/// text is at 100, whatever earlier words hold.
pub proof fn law_progress<S>(lobby: Lobby<S>)
    requires
        byte_len(lobby.lobby_info.data.text@) > 0,
    ensures
        ({
            let total = byte_len(lobby.lobby_info.data.text@);
            let typed = lobby.typing.n_letters_typed as nat;
            let t = lobby.typing;
            &&& typed < total ==> progress_of(lobby) == typed * 100 / total && progress_of(lobby) < 100
            &&& typed >= total && t.word_index >= t.words@.len() ==> progress_of(lobby) == 100
            &&& typed >= total && t.word_index < t.words@.len() ==> progress_of(lobby) == if t@.words[t.word_index as int].has_error() {
                99nat
            } else {
                100nat
            }
        }),
{
    let total = byte_len(lobby.lobby_info.data.text@);
    let typed = lobby.typing.n_letters_typed as nat;
    if typed < total {
        assert(typed * 100 / total < 100) by (nonlinear_arith)
            requires
                typed < total,
                total > 0,
        ;
    } else {
        assert(typed * 100 / total >= 100) by (nonlinear_arith)
            requires
                typed >= total,
                total > 0,
        ;
    }
}

/// A game is started only by the leader, and only while the lobby waits or
/// after its game has ended: never while a game counts down, is played, or
/// waits for the others to finish.
pub proof fn law_start_only_when_waiting_or_ended<P, S>(m: GameModel<P, S>, is_leader: bool)
    ensures
        !is_leader ==> !m.can_start_spec(is_leader),
        m.game_status is None ==> !m.can_start_spec(is_leader),
        m.game_status matches Some(GameStatus::Playing) ==> !m.can_start_spec(is_leader),
        m.game_status matches Some(GameStatus::Done) ==> !m.can_start_spec(is_leader),
        m.game_status matches Some(GameStatus::Countdown(_)) ==> !m.can_start_spec(is_leader),
        is_leader && m.game_status == Some(GameStatus::Waiting) ==> m.can_start_spec(is_leader),
        is_leader && m.game_status == Some(GameStatus::End) ==> m.can_start_spec(is_leader),
{
}

/// A report of players for the expected lobby that is not newer than what
/// is known changes nothing.
pub proof fn law_stale_players_ignored<P, S>(m: GameModel<P, S>, incoming: PlayersInfoSnapshot<P>)
    requires
        expected_lobby(m) == Some(incoming.lobby_id@),
        m.players_info matches Some(p) && incoming.version <= p.version,
    ensures
        with_players(m, incoming) == m,
{
}

/// The version of the players known never goes back.
pub proof fn law_players_version_never_decreases<P, S>(
    m: GameModel<P, S>,
    incoming: PlayersInfoSnapshot<P>,
)
    requires
        m.players_info is Some,
    ensures
        with_players(m, incoming).players_info matches Some(q) && q.version
            >= m.players_info->0.version,
{
}

/// Players reported before their lobby are kept aside, and taken when the
/// lobby itself is reported.
pub proof fn law_early_players_taken_on_join<P, S>(
    m: GameModel<P, S>,
    players: PlayersInfoSnapshot<P>,
    after_players: GameModel<P, S>,
    info: LobbyInfo,
    stats: S,
    after_join: GameModel<P, S>,
)
    requires
        expected_lobby(m) != Some(players.lobby_id@),
        after_players == with_players(m, players),
        joined_lobby(after_players, after_join, info, stats),
        info.lobby_id@ == players.lobby_id@,
    ensures
        after_join.players_info == Some(players),
        after_join.pending_lobby.pending_players is None,
{
}

/// A piece without spaces is split into itself alone.
proof fn lemma_split_no_space(a: Seq<char>)
    requires
        forall|i: int| 0 <= i < a.len() ==> a[i] != ' ',
    ensures
        split_on_space(a) == seq![a],
    decreases a.len(),
{
    if a.len() == 0 {
        assert(a =~= Seq::<char>::empty());
    } else {
        let t = a.drop_last();
        lemma_split_no_space(t);
        assert(t.push(a.last()) =~= a);
        assert(seq![t].update(0, a) =~= seq![a]);
    }
}

/// Splitting a first piece without spaces, a space, and the rest gives
/// that piece, then the pieces of the rest.
proof fn lemma_split_after_first(a: Seq<char>, b: Seq<char>)
    requires
        forall|i: int| 0 <= i < a.len() ==> a[i] != ' ',
    ensures
        split_on_space(a + seq![' '] + b) == seq![a] + split_on_space(b),
    decreases b.len(),
{
    let s = a + seq![' '] + b;
    if b.len() == 0 {
        assert(s =~= (a + seq![' ']));
        assert((a + seq![' ']).drop_last() =~= a);
        lemma_split_no_space(a);
        assert(seq![a].push(Seq::<char>::empty()) =~= seq![a] + seq![Seq::<char>::empty()]);
    } else {
        lemma_split_after_first(a, b.drop_last());
        assert(s.drop_last() =~= a + seq![' '] + b.drop_last());
        crate::typing::typing_test::lemma_split_nonempty(b.drop_last());
        let w = split_on_space(b.drop_last());
        if b.last() == ' ' {
            assert((seq![a] + w).push(Seq::<char>::empty()) =~= seq![a] + w.push(
                Seq::<char>::empty(),
            ));
        } else {
            let x = w.last().push(b.last());
            assert((seq![a] + w).update((seq![a] + w).len() - 1, x) =~= seq![a] + w.update(
                w.len() - 1,
                x,
            ));
        }
    }
}

/// Joining the pieces of a split gives back what was split.
proof fn lemma_join_split(s: Seq<char>)
    ensures
        joined(split_on_space(s)) == s,
    decreases s.len(),
{
    if s.len() > 0 {
        let t = s.drop_last();
        lemma_join_split(t);
        crate::typing::typing_test::lemma_split_nonempty(t);
        let w = split_on_space(t);
        if s.last() == ' ' {
            assert(w.push(Seq::<char>::empty()).drop_last() =~= w);
            assert(joined(w.push(Seq::<char>::empty())) =~= s);
        } else {
            let x = w.last().push(s.last());
            let u = w.update(w.len() - 1, x);
            if w.len() == 1 {
                assert(joined(w) == w[0]);
                assert(joined(u) =~= s);
            } else {
                assert(u.drop_last() =~= w.drop_last());
                assert(joined(w) == joined(w.drop_last()) + seq![' '] + w.last());
                assert(joined(u) == joined(w.drop_last()) + seq![' '] + x);
                assert(s =~= t.push(s.last()));
                assert(joined(u) =~= s);
            }
        }
    }
}

/// Every command is named by a word without spaces that names it alone.
proof fn lemma_cmd_names(c: WsCmd)
    ensures
        cmd_of(cmd_name(c)) == Some(c),
        cmd_name(c).len() > 0,
        forall|i: int| 0 <= i < cmd_name(c).len() ==> cmd_name(c)[i] != ' ',
{
    reveal_strlit("LobbyInfo");
    reveal_strlit("NewGame");
    reveal_strlit("EndGame");
    reveal_strlit("Error");
    reveal_strlit("UserId");
    reveal_strlit("LeaveGroup");
    reveal_strlit("PlayersInfo");
    reveal_strlit("Countdown");
    reveal_strlit("StartGame");
    assert("LobbyInfo"@.len() == 9);
    assert("NewGame"@.len() == 7);
    assert("EndGame"@.len() == 7);
    assert("Error"@.len() == 5);
    assert("UserId"@.len() == 6);
    assert("LeaveGroup"@.len() == 10);
    assert("PlayersInfo"@.len() == 11);
    assert("Countdown"@.len() == 9);
    assert("StartGame"@.len() == 9);
    assert("NewGame"@[0] != "EndGame"@[0]);
    assert("LobbyInfo"@[0] != "Countdown"@[0]);
    assert("LobbyInfo"@[0] != "StartGame"@[0]);
    assert("Countdown"@[0] != "StartGame"@[0]);
    match c {
        WsCmd::LobbyInfo => {},
        WsCmd::NewGame => {},
        WsCmd::EndGame => {},
        WsCmd::Error => {},
        WsCmd::UserId => {},
        WsCmd::LeaveGroup => {},
        WsCmd::PlayersInfo => {},
        WsCmd::Countdown => {},
        WsCmd::StartGame => {},
    }
}

/// A message made of a command, a space and a payload is read back as that
/// command and payload; `StartGame` alone is read as itself.
pub proof fn law_frame_reads_back(c: WsCmd, payload: Seq<char>)
    ensures
        c != WsCmd::StartGame ==> framed(cmd_name(c) + seq![' '] + payload) == Ok::<
            (WsCmd, Seq<char>),
            Seq<char>,
        >((c, payload)),
        framed(cmd_name(WsCmd::StartGame)) == Ok::<(WsCmd, Seq<char>), Seq<char>>(
            (WsCmd::StartGame, Seq::empty()),
        ),
{
    lemma_cmd_names(c);
    lemma_cmd_names(WsCmd::StartGame);
    lemma_split_after_first(cmd_name(c), payload);
    lemma_split_no_space(cmd_name(WsCmd::StartGame));
    lemma_join_split(payload);
    assert((seq![cmd_name(c)] + split_on_space(payload)).skip(1) =~= split_on_space(payload));
}

/// A player of a lobby: its user id, whether it leads the lobby, how far
/// it is through the text, and what else is shown of it.
#[derive(Debug, PartialEq)]
pub struct Player<W> {
    pub id: String,
    pub is_leader: bool,
    pub progress_percent: u8,
    pub extra: W,
}

/// Whether the first player with the id `user` leads the lobby.
pub open spec fn leads<W>(players: Seq<Player<W>>, user: Seq<char>) -> bool {
    exists|i: int|
        0 <= i < players.len() && (#[trigger] players[i]).id@ == user && players[i].is_leader
            && forall|j: int| 0 <= j < i ==> (#[trigger] players[j]).id@ != user
}

impl<W, S> GameModel<Vec<Player<W>>, S> {
    /// Whether the player is the leader of the lobby, as the last report of
    /// players says; false while the user id or the players are unknown.
    pub fn is_user_leader(&self) -> (res: bool)
        ensures
            res == match (self.players_info, self.user_id) {
                (Some(p), Some(u)) => leads(p.players@, u@),
                _ => false,
            },
    {
        match (&self.players_info, &self.user_id) {
            (Some(info), Some(user)) => {
                let players = &info.players;
                let n = players.len();
                for i in 0..n
                    invariant
                        n == players@.len(),
                        self.players_info is Some,
                        self.user_id is Some,
                        players@ == self.players_info->0.players@,
                        user@ == self.user_id->0@,
                        forall|j: int| 0 <= j < i ==> (#[trigger] players@[j]).id@ != user@,
                {
                    if players[i].id == *user {
                        proof {
                            let ps = players@;
                            let k = i as int;
                            assert(ps[k].id@ == user@);
                            if leads(ps, user@) {
                                let w = choose|w: int|
                                    0 <= w < ps.len() && (#[trigger] ps[w]).id@ == user@
                                        && ps[w].is_leader && forall|j: int|
                                        0 <= j < w ==> (#[trigger] ps[j]).id@ != user@;
                                if w > k {
                                    assert(ps[k].id@ != user@);
                                }
                                assert(w == k);
                            }
                            if ps[k].is_leader {
                                assert(leads(ps, user@));
                            }
                        }
                        return players[i].is_leader;
                    }
                }
                proof {
                    let ps = players@;
                    if leads(ps, user@) {
                        let w = choose|w: int|
                            0 <= w < ps.len() && (#[trigger] ps[w]).id@ == user@ && ps[w].is_leader
                                && forall|j: int| 0 <= j < w ==> (#[trigger] ps[j]).id@ != user@;
                        assert(ps[w].id@ != user@);
                    }
                }
                false
            },
            _ => false,
        }
    }
}

/// `b` is the test `a` after typing `c`, and `done` what typing returned.
pub open spec fn typed<S>(a: Lobby<S>, b: Lobby<S>, c: char, done: bool) -> bool {
    &&& b.lobby_info == a.lobby_info
    &&& b.stats == a.stats
    &&& b.typing.wf()
    &&& b.typing.time_started == a.typing.time_started
    &&& (b.typing@, done) == if a.typing.spec_is_done() {
        (a.typing@, true)
    } else {
        a.typing@.type_step(c)
    }
}

/// `b` is the test `a` after a backspace.
pub open spec fn backspaced<S>(a: Lobby<S>, b: Lobby<S>) -> bool {
    &&& b.lobby_info == a.lobby_info
    &&& b.stats == a.stats
    &&& b.typing.wf()
    &&& b.typing@ == a.typing@.backspace_step()
    &&& b.typing.time_started == a.typing.time_started
    &&& b.typing.time_ended == a.typing.time_ended
}

/// The game is played and there is a lobby to type in.
pub open spec fn is_playing<P, S>(m: GameModel<P, S>) -> bool {
    m.game_status == Some(GameStatus::Playing) && m.lobby is Some
}

/// A key in a lobby. Esc asks to leave; Enter asks to start where the
/// player leads and the lobby waits. While the game is played a character
/// is typed, and when that finishes the test the game is done for the
/// player and the player's stats are to be sent (the second result);
/// Backspace erases. Otherwise nothing changes.
pub fn lobby_key_step<P, S>(model: &mut GameModel<P, S>, is_leader: bool, key: LobbyKey) -> (res: (
    Option<LobbyRequest>,
    bool,
))
    requires
        is_playing(*old(model)) ==> old(model).lobby->0.typing.wf(),
        is_playing(*old(model)) ==> (key matches LobbyKey::Char { c, .. } ==> old(
            model,
        ).lobby->0.typing.can_type(c)),
        is_playing(*old(model)) && key is Backspace ==> old(model).lobby->0.typing.can_backspace(),
    ensures
        match key {
            LobbyKey::Esc => res == (Some(LobbyRequest::LeaveGroup), false) && *final(model) == *old(
                model,
            ),
            LobbyKey::Enter => {
                &&& res == (
                    if old(model).can_start_spec(is_leader) {
                        Some(LobbyRequest::StartGame)
                    } else {
                        None
                    },
                    false,
                )
                &&& *final(model) == *old(model)
            },
            LobbyKey::Char { c, .. } => if is_playing(*old(model)) {
                &&& res.0 is None
                &&& *final(model) == (GameModel {
                    lobby: final(model).lobby,
                    game_status: final(model).game_status,
                    ..*old(model)
                })
                &&& final(model).lobby is Some
                &&& typed(old(model).lobby->0, final(model).lobby->0, c, res.1)
                &&& final(model).game_status == if res.1 {
                    Some(GameStatus::Done)
                } else {
                    old(model).game_status
                }
            } else {
                res == (None::<LobbyRequest>, false) && *final(model) == *old(model)
            },
            LobbyKey::Backspace { .. } => {
                &&& res == (None::<LobbyRequest>, false)
                &&& if is_playing(*old(model)) {
                    &&& *final(model) == (GameModel { lobby: final(model).lobby, ..*old(model) })
                    &&& final(model).lobby is Some
                    &&& backspaced(old(model).lobby->0, final(model).lobby->0)
                } else {
                    *final(model) == *old(model)
                }
            },
            LobbyKey::Other => res == (None::<LobbyRequest>, false) && *final(model) == *old(model),
        },
{
    match key {
        LobbyKey::Esc => (Some(LobbyRequest::LeaveGroup), false),
        LobbyKey::Enter => {
            if model.can_start(is_leader) {
                (Some(LobbyRequest::StartGame), false)
            } else {
                (None, false)
            }
        },
        LobbyKey::Char { c, .. } => {
            let playing = match model.game_status {
                Some(GameStatus::Playing) => true,
                _ => false,
            };
            if !playing {
                return (None, false);
            }
            let mut done = false;
            if let Some(lobby) = &mut model.lobby {
                done = lobby.typing.on_type(c);
            }
            if done {
                model.game_status = Some(GameStatus::Done);
            }
            (None, done)
        },
        LobbyKey::Backspace { .. } => {
            let playing = match model.game_status {
                Some(GameStatus::Playing) => true,
                _ => false,
            };
            if playing {
                if let Some(lobby) = &mut model.lobby {
                    lobby.typing.on_backspace();
                }
            }
            (None, false)
        },
        LobbyKey::Other => (None, false),
    }
}

/// The interval between two reports of the player's stats while the game
/// is played, in milliseconds.
pub const STATS_INTERVAL_MS: u64 = 200;

/// Whether a clock tick sends the player's stats: more than
/// `STATS_INTERVAL_MS` since the last report, while the game is played in
/// a lobby.
pub fn lobby_tick_step(status: Option<GameStatus>, has_lobby: bool, since_last_ms: u64) -> (send: bool)
    ensures
        send == (since_last_ms > STATS_INTERVAL_MS && status == Some(GameStatus::Playing)
            && has_lobby),
{
    let playing = match status {
        Some(GameStatus::Playing) => true,
        _ => false,
    };
    since_last_ms > STATS_INTERVAL_MS && playing && has_lobby
}

} // verus!
