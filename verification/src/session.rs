//! A node of a session: how it joins, what it does with the events that
//! come in from the network, and what it does with the keys the player
//! presses.
//!
//! A node decides; the program around it acts. Every function here takes
//! the node and what happened, changes the node, and returns what is to be
//! done about it: datagrams to send, a square to draw, or nothing.

use crate::address::{Address, RECEIVER_PORT};
use crate::game::{
    id_to_player_color, lemma_redraw_shows_one_square, spec_moved, spec_paint, spec_paintable,
    spec_palette, spec_redraw, spec_step, spec_step_fits, Direction, Point, PlayerColor, Square,
    Stroke, FULL_BLOCK,
};
use crate::network::{
    lemma_carries_its_packets, spec_carries, spec_packets, Datagram, GameEvent, Message,
    NetworkData, NetworkEvent, Packet, PlayerID,
};
use crate::sender::{
    lemma_answer_tells_one_identity, lemma_broadcast_reaches_every_peer,
    lemma_no_address_is_let_in_twice, spec_answer, spec_broadcast, spec_identity,
    spec_join_request, spec_let_in, Sender,
};
use crate::wire::{spec_decode, spec_encode, DecodeError};
use vstd::prelude::*;

verus! {

/// The side of the square of a player that has its identity.
pub const ACTIVE_SIDE: usize = 3;

/// How far a node has come in joining a session. A node never leaves
/// `Active`.
#[derive(Clone, Copy, Debug, PartialEq, Eq, Structural)]
pub enum Phase {
    /// The node has not asked to be let in.
    Unregistered,
    /// The node has asked and waits for its identity.
    AwaitingID,
    /// The node has its identity.
    Active,
}

/// A key as the terminal reports it: the keys the game knows, and one
/// value for all the others.
#[derive(Clone, Copy, Debug, PartialEq, Eq, Structural)]
pub enum Key {
    Char(char),
    Up,
    Down,
    Left,
    Right,
    Other,
}

/// What the program around a node has to do.
#[derive(Clone, Debug, PartialEq, Eq)]
pub enum Reaction {
    /// Nothing.
    Nothing,
    /// Send these datagrams, in this order.
    Send(Vec<Datagram>),
    /// Draw this square and show the screen.
    Draw(Square),
    /// Blank out this square where it stands, draw it at this cell, and
    /// show the screen.
    Redraw(Square, Point),
    /// Stop.
    Quit,
}

/// A reaction as a mathematical value.
pub ghost enum Effect {
    Nothing,
    Send(Seq<Packet>),
    Draw(Square),
    Redraw(Square, Point),
    Quit,
}

impl View for Reaction {
    type V = Effect;

    open spec fn view(&self) -> Effect {
        match *self {
            Reaction::Nothing => Effect::Nothing,
            Reaction::Send(outbox) => Effect::Send(spec_packets(outbox@)),
            Reaction::Draw(square) => Effect::Draw(square),
            Reaction::Redraw(square, to) => Effect::Redraw(square, to),
            Reaction::Quit => Effect::Quit,
        }
    }
}

/// One node of a session: its own player, its sending side, and how far
/// it has come in joining.
#[derive(Clone, Debug, PartialEq, Eq)]
pub struct Node {
    pub player: Square,
    pub sender: Sender,
    pub phase: Phase,
}

/// A node as a mathematical value.
pub ghost struct NodeState {
    pub player: Square,
    pub addr: Address,
    pub host_addr: Address,
    pub peers: Seq<Address>,
    pub phase: Phase,
}

impl View for Node {
    type V = NodeState;

    open spec fn view(&self) -> NodeState {
        NodeState {
            player: self.player,
            addr: self.sender.addr,
            host_addr: self.sender.host_addr,
            peers: self.sender.peer_addrs@,
            phase: self.phase,
        }
    }
}

/// What the player asks for with `key`: `q` quits, the arrows move, every
/// other key asks for nothing.
pub open spec fn spec_match_event(key: Key) -> Option<GameEvent> {
    match key {
        Key::Char(c) => if c == 'q' {
            Some(GameEvent::Quit)
        } else {
            None
        },
        Key::Up => Some(GameEvent::Direction(Direction::Up)),
        Key::Down => Some(GameEvent::Direction(Direction::Down)),
        Key::Left => Some(GameEvent::Direction(Direction::Left)),
        Key::Right => Some(GameEvent::Direction(Direction::Right)),
        Key::Other => None,
    }
}

/// A node before it has joined: a player without extent at the origin,
/// blue and with identity 0, and no peers.
pub open spec fn spec_start(addr: Address, host_addr: Address) -> NodeState {
    NodeState {
        player: Square {
            side: 0,
            coordinates: Point { x: 0, y: 0 },
            color: PlayerColor::Blue,
            id: 0,
        },
        addr,
        host_addr,
        peers: Seq::empty(),
        phase: Phase::Unregistered,
    }
}

/// The phase of a node after it has asked to be let in.
pub open spec fn spec_asked(phase: Phase) -> Phase {
    match phase {
        Phase::Unregistered => Phase::AwaitingID,
        Phase::AwaitingID => Phase::AwaitingID,
        Phase::Active => Phase::Active,
    }
}

/// The player of a node once the host has told it the identity `id`: it
/// stays where it is, gets its extent and the colour of its identity.
pub open spec fn spec_identified(player: Square, id: usize) -> Square {
    Square {
        side: ACTIVE_SIDE,
        coordinates: player.coordinates,
        color: spec_palette(id as nat),
        id,
    }
}

/// A list of peers as a node takes it over from a datagram sent from
/// `src`: the first entry, which stands for the host, is replaced by the
/// receiver of the machine the datagram came from.
pub open spec fn spec_taken_over(peers: Seq<Address>, src: Address) -> Seq<Address> {
    if peers.len() > 0 {
        peers.update(0, src.spec_with_port(RECEIVER_PORT))
    } else {
        peers
    }
}

/// The node after the message `message` came in from `src`, and what is
/// to be done about it.
///
/// - A join request is answered at the receiver on the machine of `src`:
///   it is told its identity, and every peer the whole list. A newcomer
///   is put at the end of the list first; one that is in the list already
///   is not put there again.
/// - A position update whose player has the identity of the node moves
///   the node's own player; any other is drawn from the update alone and
///   leaves the node as it is.
/// - A list of peers replaces the list of the node.
/// - An identity makes the node active.
pub open spec fn spec_receive(state: NodeState, src: Address, message: Message) -> (
    NodeState,
    Effect,
) {
    match message {
        Message::PlayerJoin => {
            let newcomer = src.spec_with_port(RECEIVER_PORT);
            (
                NodeState { peers: spec_let_in(state.peers, newcomer), ..state },
                Effect::Send(spec_answer(state.peers, newcomer)),
            )
        },
        Message::PlayerID(update) => if update.player.id == state.player.id {
            (
                NodeState {
                    player: Square { coordinates: update.point, ..state.player },
                    ..state
                },
                Effect::Redraw(state.player, update.point),
            )
        } else {
            (state, Effect::Redraw(update.player, update.point))
        },
        Message::Peers(peers) => (
            NodeState { peers: spec_taken_over(peers, src), ..state },
            Effect::Nothing,
        ),
        Message::ID(id) => {
            let player = spec_identified(state.player, id);
            (NodeState { player, phase: Phase::Active, ..state }, Effect::Draw(player))
        },
        Message::PlayerLeft => (state, Effect::Nothing),
    }
}

/// What is to be done when the player of the node `state` asks for
/// `event`: a step is told to every peer, with the player as it stands and
/// the cell it steps to.
pub open spec fn spec_input(state: NodeState, event: GameEvent) -> Effect {
    match event {
        GameEvent::Quit => Effect::Quit,
        GameEvent::Direction(direction) => Effect::Send(
            spec_broadcast(
                state.peers,
                spec_encode(
                    Message::PlayerID(
                        PlayerID {
                            point: spec_step(state.player.coordinates, direction),
                            player: state.player,
                        },
                    ),
                ),
            ),
        ),
    }
}

/// The strokes that carry out `effect` on the terminal, if every one of
/// them can be written: those that draw the square of a `Draw`, those
/// that show the move of the square of a `Redraw`, and none for any other
/// effect. There are none to give where a row or a width of a square
/// cannot be written in a `usize`.
pub open spec fn spec_strokes(effect: Effect) -> Option<Seq<Stroke>> {
    match effect {
        Effect::Draw(square) => if spec_paintable(square) {
            Some(spec_paint(square, FULL_BLOCK))
        } else {
            None
        },
        Effect::Redraw(square, to) => if spec_paintable(square) && spec_paintable(
            spec_moved(square, to),
        ) {
            Some(spec_redraw(square, to))
        } else {
            None
        },
        Effect::Nothing => Some(Seq::empty()),
        Effect::Send(_) => Some(Seq::empty()),
        Effect::Quit => Some(Seq::empty()),
    }
}

/// What the player asks for with `key`.
pub fn match_event(key: Key) -> (event: Option<GameEvent>)
    ensures
        event == spec_match_event(key),
{
    match key {
        Key::Char(c) => if c == 'q' {
            Some(GameEvent::Quit)
        } else {
            None
        },
        Key::Up => Some(GameEvent::Direction(Direction::Up)),
        Key::Down => Some(GameEvent::Direction(Direction::Down)),
        Key::Left => Some(GameEvent::Direction(Direction::Left)),
        Key::Right => Some(GameEvent::Direction(Direction::Right)),
        Key::Other => None,
    }
}

impl Reaction {
    /// The strokes that carry out the reaction on the terminal, or `None`
    /// where a row or a width of the square cannot be written in a
    /// `usize`. A reaction that asks for no drawing has no strokes.
    pub fn strokes(&self) -> (strokes: Option<Vec<Stroke>>)
        ensures
            match strokes {
                Some(list) => spec_strokes(self@) == Some(list@),
                None => spec_strokes(self@) is None,
            },
    {
        match self {
            Reaction::Draw(square) => {
                if square.paintable() {
                    Some(square.draw())
                } else {
                    None
                }
            },
            Reaction::Redraw(square, to) => {
                let mut square = *square;
                let moved = Square { coordinates: *to, ..square };
                if square.paintable() && moved.paintable() {
                    Some(square.redraw(*to))
                } else {
                    None
                }
            },
            Reaction::Nothing => Some(Vec::new()),
            Reaction::Send(_) => Some(Vec::new()),
            Reaction::Quit => Some(Vec::new()),
        }
    }
}

impl Node {
    /// A node that sends from `addr` and whose host listens at
    /// `host_addr`, before it has joined.
    pub fn new(addr: Address, host_addr: Address) -> (node: Node)
        ensures
            node@ == spec_start(addr, host_addr),
    {
        Node {
            player: Square {
                side: 0,
                coordinates: Point { x: 0, y: 0 },
                color: PlayerColor::Blue,
                id: 0,
            },
            sender: Sender::new(addr, host_addr),
            phase: Phase::Unregistered,
        }
    }

    /// Asks the host to let the node in. The datagrams returned carry the
    /// request; the node then waits for its identity.
    pub fn join(&mut self) -> (outbox: Vec<Datagram>)
        ensures
            final(self)@ == (NodeState { phase: spec_asked(old(self).phase), ..old(self)@ }),
            spec_carries(outbox@, spec_join_request(old(self).sender.host_addr)),
    {
        let outbox = self.sender.register_self();
        self.phase = match self.phase {
            Phase::Unregistered => Phase::AwaitingID,
            Phase::AwaitingID => Phase::AwaitingID,
            Phase::Active => Phase::Active,
        };
        outbox
    }

    /// Takes in an event from the network and says what is to be done
    /// about it.
    ///
    /// A position update that carries the node's own identity moves the
    /// node's own player to the cell of the update, and it is that player,
    /// with the identity, side and colour it has, which is to be redrawn;
    /// an update of any other player leaves the node unchanged, and the
    /// player to be redrawn is the one of the update.
    pub fn receive(&mut self, data: NetworkData) -> (reaction: Reaction)
        ensures
            (final(self)@, reaction@) == spec_receive(old(self)@, data.src, data.event@),
            data.event@ matches Message::PlayerID(update) ==> {
                if update.player.id == old(self).player.id {
                    &&& final(self).player == spec_moved(old(self).player, update.point)
                    &&& reaction@ == Effect::Redraw(old(self).player, update.point)
                } else {
                    &&& final(self)@ == old(self)@
                    &&& reaction@ == Effect::Redraw(update.player, update.point)
                }
            },
            old(self).phase == Phase::Active ==> final(self).phase == Phase::Active,
    {
        match data.event {
            NetworkEvent::PlayerJoin => {
                let remote_receiver_addr = data.src.receiver();
                let outbox = self.sender.register_remote_socket(remote_receiver_addr);
                proof {
                    lemma_carries_its_packets(
                        outbox@,
                        spec_answer(old(self).sender.peer_addrs@, remote_receiver_addr),
                    );
                }
                Reaction::Send(outbox)
            },
            NetworkEvent::PlayerID(update) => {
                if self.player.id == update.player.id {
                    let before = self.player;
                    self.player.coordinates = update.point;
                    Reaction::Redraw(before, update.point)
                } else {
                    Reaction::Redraw(update.player, update.point)
                }
            },
            NetworkEvent::Peers(peers) => {
                let mut peers = peers;
                if peers.len() > 0 {
                    peers.set(0, data.src.receiver());
                }
                self.sender.peer_addrs = peers;
                Reaction::Nothing
            },
            NetworkEvent::ID(id) => {
                self.player.id = id;
                self.player.side = ACTIVE_SIDE;
                self.player.color = id_to_player_color(id);
                self.phase = Phase::Active;
                Reaction::Draw(self.player)
            },
            NetworkEvent::PlayerLeft => Reaction::Nothing,
        }
    }

    /// Whether `on_game_event` can be called with `event`: a step must end
    /// on a cell whose coordinates can be written in a `usize`.
    pub fn can_take(&self, event: GameEvent) -> (fits: bool)
        ensures
            fits == (event matches GameEvent::Direction(direction) ==> spec_step_fits(
                self.player.coordinates,
                direction,
            )),
    {
        match event {
            GameEvent::Quit => true,
            GameEvent::Direction(Direction::Up) => true,
            GameEvent::Direction(Direction::Left) => true,
            GameEvent::Direction(Direction::Down) => self.player.coordinates.y < usize::MAX,
            GameEvent::Direction(Direction::Right) => self.player.coordinates.x < usize::MAX,
        }
    }

    /// Takes in what the player asks for and says what is to be done about
    /// it. The node itself does not change: its player moves when the
    /// step comes back from the network.
    pub fn on_game_event(&mut self, event: GameEvent) -> (reaction: Reaction)
        requires
            event matches GameEvent::Direction(direction) ==> spec_step_fits(
                old(self).player.coordinates,
                direction,
            ),
        ensures
            final(self)@ == old(self)@,
            reaction@ == spec_input(old(self)@, event),
    {
        let square_dump = self.player;
        match event {
            GameEvent::Direction(direction) => {
                let position = self.player.move_in_direction(direction);
                let player_id = PlayerID { point: position, player: square_dump };
                let outbox = self.sender.tick(player_id);
                proof {
                    lemma_carries_its_packets(
                        outbox@,
                        spec_broadcast(
                            self.sender.peer_addrs@,
                            spec_encode(Message::PlayerID(player_id)),
                        ),
                    );
                }
                Reaction::Send(outbox)
            },
            GameEvent::Quit => Reaction::Quit,
        }
    }

    /// Takes in a key the player pressed and says what is to be done about
    /// it. A key the game does not know asks for nothing.
    pub fn on_key(&mut self, key: Key) -> (reaction: Reaction)
        requires
            spec_match_event(key) matches Some(GameEvent::Direction(direction))
                ==> spec_step_fits(old(self).player.coordinates, direction),
        ensures
            final(self)@ == old(self)@,
            reaction@ == match spec_match_event(key) {
                Some(event) => spec_input(old(self)@, event),
                None => Effect::Nothing,
            },
    {
        match match_event(key) {
            Some(event) => self.on_game_event(event),
            None => Reaction::Nothing,
        }
    }
}


/// A node that is active stays active, whatever comes in.
pub proof fn lemma_active_stays_active(state: NodeState, src: Address, message: Message)
    requires
        state.phase == Phase::Active,
    ensures
        spec_receive(state, src, message).0.phase == Phase::Active,
        spec_asked(state.phase) == Phase::Active,
{
}

/// The handshake. When a host takes in a join request that came from
/// `from`, the receiver on the machine of `from` is in its list of peers
/// afterwards, once: a newcomer at the end of a list that is one longer, a
/// known address where it was in a list that is as it was. The first
/// datagram the host sends goes there, and a node that takes in what it
/// carries becomes active, with the place of that entry as its identity
/// and with the colour of that identity. Then the host sends one datagram
/// to every peer of its list, the one that asked among them, and each
/// carries the whole list; a node that takes the list in from `seen_from`
/// holds it with the first entry replaced by the receiver on the machine
/// of `seen_from`.
pub proof fn lemma_handshake(host: NodeState, joiner: NodeState, from: Address, seen_from: Address)
    requires
        host.peers.len() < usize::MAX,
    ensures
        ({
            let asker = from.spec_with_port(RECEIVER_PORT);
            let (host_after, effect) = spec_receive(host, from, Message::PlayerJoin);
            let id = spec_identity(host.peers, asker) as usize;
            &&& host_after.peers == spec_let_in(host.peers, asker)
            &&& id < host_after.peers.len()
            &&& host_after.peers[id as int] == asker
            &&& host.peers.contains(asker) ==> host_after.peers == host.peers
            &&& !host.peers.contains(asker) ==> id == host.peers.len() && host_after.peers
                == host.peers.push(asker)
            &&& effect matches Effect::Send(outbox)
            &&& outbox.len() == host_after.peers.len() + 1
            &&& outbox[0].to == asker
            &&& outbox[id + 1].to == asker
            &&& spec_decode(outbox[0].payload) matches Ok(told)
            &&& told == Message::ID(id)
            &&& spec_receive(joiner, seen_from, told).0.player.id == id
            &&& spec_receive(joiner, seen_from, told).0.player.color == spec_palette(id as nat)
            &&& spec_receive(joiner, seen_from, told).0.phase == Phase::Active
            &&& forall|i: int|
                #![trigger outbox[i]]
                1 <= i < outbox.len() ==> {
                    &&& outbox[i].to == host_after.peers[i - 1]
                    &&& spec_decode(outbox[i].payload) matches Ok(list)
                    &&& list == Message::Peers(host_after.peers)
                    &&& spec_receive(joiner, seen_from, list).0.peers == spec_taken_over(
                        host_after.peers,
                        seen_from,
                    )
                }
        }),
{
    let asker = from.spec_with_port(RECEIVER_PORT);
    let outbox = spec_answer(host.peers, asker);
    lemma_answer_tells_one_identity(host.peers, asker);
    assert(outbox[spec_identity(host.peers, asker) as int + 1].to == asker);
}

/// A join request that comes a second time changes nothing: the node is
/// after the second as it was after the first, with one entry for the
/// one that asked.
pub proof fn lemma_repeated_join_changes_nothing(state: NodeState, from: Address)
    ensures
        ({
            let once = spec_receive(state, from, Message::PlayerJoin).0;
            &&& once.peers.contains(from.spec_with_port(RECEIVER_PORT))
            &&& spec_receive(once, from, Message::PlayerJoin).0 == once
        }),
{
    lemma_no_address_is_let_in_twice(state.peers, from.spec_with_port(RECEIVER_PORT));
}

/// A step is told to every peer as it was decided: the datagrams go to
/// the peers in their order, one each, and each decodes to the update
/// with the player as it stood and the cell it steps to.
pub proof fn lemma_step_reaches_every_peer(state: NodeState, direction: Direction)
    ensures
        ({
            let update = PlayerID {
                point: spec_step(state.player.coordinates, direction),
                player: state.player,
            };
            &&& spec_input(state, GameEvent::Direction(direction)) matches Effect::Send(outbox)
            &&& outbox.len() == state.peers.len()
            &&& forall|i: int|
                #![trigger outbox[i]]
                0 <= i < outbox.len() ==> {
                    &&& outbox[i].to == state.peers[i]
                    &&& spec_decode(outbox[i].payload) == Ok::<_, DecodeError>(
                        Message::PlayerID(update),
                    )
                }
        }),
{
    let update = PlayerID {
        point: spec_step(state.player.coordinates, direction),
        player: state.player,
    };
    lemma_broadcast_reaches_every_peer(state.peers, Message::PlayerID(update));
}

/// A position update that carries the identity of the node that takes it
/// in moves that node's own player: the player is put on the cell of the
/// update and keeps its identity, side and colour, nothing else of the
/// node changes, and no second player comes of it. What is to be redrawn
/// is the node's own player as it stood, not the player of the update:
/// where it can be painted, the strokes are those of the move of the
/// node's own player, every one in its colour and as wide as its rows
/// ask. So a node's own step, coming back to it from the network, is what
/// moves its player.
pub proof fn lemma_own_update_moves_own_player(state: NodeState, update: PlayerID, src: Address)
    requires
        update.player.id == state.player.id,
    ensures
        ({
            let (after, effect) = spec_receive(state, src, Message::PlayerID(update));
            &&& after == NodeState { player: spec_moved(state.player, update.point), ..state }
            &&& after.player.coordinates == update.point
            &&& after.player.id == state.player.id
            &&& after.player.side == state.player.side
            &&& after.player.color == state.player.color
            &&& effect == Effect::Redraw(state.player, update.point)
            &&& spec_paintable(state.player) && spec_paintable(after.player) ==> {
                &&& spec_strokes(effect) == Some(spec_redraw(state.player, update.point))
                &&& forall|i: int|
                    #![trigger spec_redraw(state.player, update.point)[i]]
                    0 <= i < spec_redraw(state.player, update.point).len() ==> {
                        let stroke = spec_redraw(state.player, update.point)[i];
                        &&& stroke.color == state.player.color
                        &&& stroke.width == 2 * state.player.side
                    }
            }
        }),
{
    if spec_paintable(state.player) && spec_paintable(spec_moved(state.player, update.point)) {
        lemma_redraw_shows_one_square(state.player, update.point);
    }
}

/// A position update that carries another identity than that of the node
/// that takes it in leaves the node as it is. What is to be redrawn is the
/// player of the update alone, as it was received: moved to the cell of
/// the update it has the identity, side and colour it came with, and where
/// it can be painted, the strokes are those of its move, every one in its
/// colour and as wide as its rows ask.
pub proof fn lemma_other_update_leaves_node_alone(state: NodeState, update: PlayerID, src: Address)
    requires
        update.player.id != state.player.id,
    ensures
        ({
            let (after, effect) = spec_receive(state, src, Message::PlayerID(update));
            let shown = spec_moved(update.player, update.point);
            &&& after == state
            &&& effect == Effect::Redraw(update.player, update.point)
            &&& shown.coordinates == update.point
            &&& shown.id == update.player.id
            &&& shown.side == update.player.side
            &&& shown.color == update.player.color
            &&& spec_paintable(update.player) && spec_paintable(shown) ==> {
                &&& spec_strokes(effect) == Some(spec_redraw(update.player, update.point))
                &&& forall|i: int|
                    #![trigger spec_redraw(update.player, update.point)[i]]
                    0 <= i < spec_redraw(update.player, update.point).len() ==> {
                        let stroke = spec_redraw(update.player, update.point)[i];
                        &&& stroke.color == update.player.color
                        &&& stroke.width == 2 * update.player.side
                    }
            }
        }),
{
    if spec_paintable(update.player) && spec_paintable(spec_moved(update.player, update.point)) {
        lemma_redraw_shows_one_square(update.player, update.point);
    }
}

} // verus!
