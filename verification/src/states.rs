//! The state that the chain keeps: the games, and in each game the players,
//! the turn token, the shot that waits for its report and the claim of
//! victory that waits for a contest.

use crate::digest::Digest;
use crate::registry::Registry;
use vstd::prelude::*;

verus! {

/// A player as the chain knows it.
pub struct Player {
    /// The fleet's identifier, unique within its game.
    pub name: String,
    /// The commitment to the player's board as it is now.
    pub current_state: Digest,
    /// The Dilithium key that signs for the player, fixed at join.
    pub public_key: Vec<u8>,
    /// The RSA key that turn tokens for the player are encrypted to.
    pub rsa_pubkey: Vec<u8>,
}

/// A player as a mathematical record.
pub struct PlayerView {
    pub name: Seq<char>,
    pub current_state: Seq<u8>,
    pub public_key: Seq<u8>,
    pub rsa_pubkey: Seq<u8>,
}

impl View for Player {
    type V = PlayerView;

    open spec fn view(&self) -> PlayerView {
        PlayerView {
            name: self.name@,
            current_state: self.current_state@,
            public_key: self.public_key@,
            rsa_pubkey: self.rsa_pubkey@,
        }
    }
}

/// A claim of victory that may still be contested.
pub struct PendingWin {
    /// The fleet that claims to have won.
    pub claimant: String,
    /// The commitment to the claimant's board.
    pub board: Digest,
    /// The time of the claim, in seconds.
    pub time: u64,
}

/// A claim of victory as a mathematical record.
pub struct PendingWinView {
    pub claimant: Seq<char>,
    pub board: Seq<u8>,
    pub time: u64,
}

impl View for PendingWin {
    type V = PendingWinView;

    open spec fn view(&self) -> PendingWinView {
        PendingWinView { claimant: self.claimant@, board: self.board@, time: self.time }
    }
}

/// One game.
pub struct Game {
    /// The players, by fleet identifier.
    pub pmap: Registry<Player>,
    /// The cell of the last shot, while its report is outstanding.
    pub shot_position: Option<u8>,
    /// The claim of victory, while it can be contested.
    pub pending_win: Option<PendingWin>,
    /// The hash of the turn token that is valid now.
    pub turn_commitment: Option<Digest>,
    /// The turn token, encrypted to its holder, in base 64.
    pub encrypted_token: Option<String>,
}

/// A game as a mathematical record.
#[verifier::ext_equal]
pub struct GameView {
    pub players: Map<Seq<char>, PlayerView>,
    pub shot_position: Option<u8>,
    pub pending_win: Option<PendingWinView>,
    pub turn_commitment: Option<Seq<u8>>,
    pub encrypted_token: Option<Seq<char>>,
}

/// The bytes of a digest that may be absent.
pub open spec fn digest_view(digest: Option<Digest>) -> Option<Seq<u8>> {
    match digest {
        Some(d) => Some(d@),
        None => None,
    }
}

/// The characters of a text that may be absent.
pub open spec fn text_view(text: Option<String>) -> Option<Seq<char>> {
    match text {
        Some(t) => Some(t@),
        None => None,
    }
}

/// The record of a claim that may be absent.
pub open spec fn claim_view(claim: Option<PendingWin>) -> Option<PendingWinView> {
    match claim {
        Some(c) => Some(c@),
        None => None,
    }
}

impl View for Game {
    type V = GameView;

    open spec fn view(&self) -> GameView {
        GameView {
            players: self.pmap@,
            shot_position: self.shot_position,
            pending_win: claim_view(self.pending_win),
            turn_commitment: digest_view(self.turn_commitment),
            encrypted_token: text_view(self.encrypted_token),
        }
    }
}

/// The games of the chain, each under its identifier.
pub type ChainView = Map<Seq<char>, GameView>;

/// All that the chain knows.
pub struct ChainState {
    /// The games, by identifier.
    pub games: Registry<Game>,
}

impl View for ChainState {
    type V = ChainView;

    open spec fn view(&self) -> ChainView {
        self.games@
    }
}

impl ChainState {
    /// A chain without games.
    pub fn new() -> (chain: ChainState)
        ensures
            chain@ == Map::<Seq<char>, GameView>::empty(),
    {
        let chain = ChainState { games: Registry::new() };
        assert(chain@ =~= Map::<Seq<char>, GameView>::empty());
        chain
    }

    /// Number of games.
    pub fn len(&self) -> (n: usize)
        ensures
            n == self.games.names().len(),
            self@.dom().finite(),
            n == self@.dom().len(),
    {
        self.games.count()
    }

    /// The game under the identifier `gameid`, if there is one.
    pub fn game(&self, gameid: &str) -> (found: Option<&Game>)
        ensures
            found is Some <==> self@.contains_key(gameid@),
            found matches Some(g) ==> g@ == self@[gameid@],
    {
        self.games.get(gameid)
    }

    /// The identifiers of the games, in the order in which the games came.
    pub fn game_ids(&self) -> (ids: Vec<String>)
        ensures
            ids@.len() == self.games.names().len(),
            forall|i: int| 0 <= i < ids@.len() ==> (#[trigger] ids@[i])@ == self.games.names()[i],
            forall|i: int| 0 <= i < ids@.len() ==> self@.contains_key((#[trigger] ids@[i])@),
    {
        let ids = self.games.names_list();
        proof {
            assert forall|i: int| 0 <= i < ids@.len() implies self@.contains_key(
                (#[trigger] ids@[i])@,
            ) by {
                self.games.lemma_position(i);
            }
        }
        ids
    }
}

} // verus!
