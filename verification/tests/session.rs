use boxes_rs::address::Address;
use boxes_rs::game::{Direction, PlayerColor, Point, Square, Stroke};
use boxes_rs::network::{Datagram, GameEvent, NetworkData, NetworkEvent, PlayerID};
use boxes_rs::receiver::{Arrival, Receiver};
use boxes_rs::session::{match_event, Key, Node, Phase, Reaction, ACTIVE_SIDE};
use boxes_rs::wire::{decode, encode};

const HOST_IP: u32 = 0x0a00_0001;
const JOINER_IP: u32 = 0x0a00_0002;
const LOOPBACK: u32 = 0x7f00_0001;

fn sender_of(ip: u32) -> Address {
    Address::V4 { ip, port: 9998 }
}

fn receiver_of(ip: u32) -> Address {
    Address::V4 { ip, port: 9999 }
}

fn unbound_sender() -> Address {
    Address::V4 { ip: 0, port: 9998 }
}

/// What the node on the machine `to_ip` makes of a datagram sent from `from`.
fn delivered(datagram: &Datagram, from: Address, to_ip: u32) -> NetworkData {
    let receiver = Receiver::new(receiver_of(to_ip));
    let arrival = Arrival::Datagram { bytes: datagram.payload.clone(), src: from };
    receiver.poll_event(&arrival).unwrap()
}

fn sent(reaction: Reaction) -> Vec<Datagram> {
    match reaction {
        Reaction::Send(outbox) => outbox,
        other => panic!("nothing was sent: {:?}", other),
    }
}

fn active(id: usize, peers: Vec<Address>) -> Node {
    let mut node = Node::new(unbound_sender(), receiver_of(HOST_IP));
    node.receive(NetworkData { amt: 12, src: sender_of(HOST_IP), event: NetworkEvent::ID(id) });
    node.sender.peer_addrs = peers;
    node
}

#[test]
fn a_new_node_is_unregistered_and_without_extent() {
    let node = Node::new(unbound_sender(), receiver_of(HOST_IP));
    assert_eq!(node.phase, Phase::Unregistered);
    assert_eq!(
        node.player,
        Square { side: 0, coordinates: Point { x: 0, y: 0 }, color: PlayerColor::Blue, id: 0 }
    );
    assert_eq!(node.sender.host_addr, receiver_of(HOST_IP));
    assert_eq!(node.sender.peer_addrs, vec![]);
}

#[test]
fn joining_sends_the_request_and_waits_for_the_identity() {
    let mut node = Node::new(unbound_sender(), receiver_of(HOST_IP));
    let outbox = node.join();
    assert_eq!(node.phase, Phase::AwaitingID);
    assert_eq!(outbox.len(), 2);
    assert_eq!(outbox[1].to, receiver_of(HOST_IP));
    assert_eq!(decode(&outbox[1].payload), Ok(NetworkEvent::PlayerJoin));
}

#[test]
fn an_identity_makes_the_node_active() {
    let mut node = Node::new(unbound_sender(), receiver_of(HOST_IP));
    node.join();
    let reaction = node.receive(NetworkData {
        amt: 12,
        src: sender_of(HOST_IP),
        event: NetworkEvent::ID(4),
    });
    let player =
        Square { side: 3, coordinates: Point { x: 0, y: 0 }, color: PlayerColor::Cyan, id: 4 };
    assert_eq!(ACTIVE_SIDE, 3);
    assert_eq!(node.phase, Phase::Active);
    assert_eq!(node.player, player);
    assert_eq!(reaction, Reaction::Draw(player));
}

#[test]
fn an_active_node_stays_active() {
    let mut node = active(1, vec![receiver_of(HOST_IP)]);
    node.join();
    assert_eq!(node.phase, Phase::Active);
    let events = vec![
        NetworkEvent::PlayerJoin,
        NetworkEvent::PlayerLeft,
        NetworkEvent::Peers(vec![]),
        NetworkEvent::ID(9),
        NetworkEvent::PlayerID(PlayerID { point: Point { x: 1, y: 1 }, player: node.player }),
    ];
    for event in events {
        node.receive(NetworkData { amt: 0, src: sender_of(JOINER_IP), event });
        assert_eq!(node.phase, Phase::Active);
    }
}

#[test]
fn an_update_of_the_own_player_moves_it() {
    let mut node = active(1, vec![receiver_of(HOST_IP), receiver_of(JOINER_IP)]);
    let before = node.player;
    let update = PlayerID { point: Point { x: 1, y: 0 }, player: before };
    let reaction = node.receive(NetworkData {
        amt: 56,
        src: sender_of(LOOPBACK),
        event: NetworkEvent::PlayerID(update),
    });
    assert_eq!(reaction, Reaction::Redraw(before, Point { x: 1, y: 0 }));
    assert_eq!(node.player, Square { coordinates: Point { x: 1, y: 0 }, ..before });
    assert_eq!(node.sender.peer_addrs, vec![receiver_of(HOST_IP), receiver_of(JOINER_IP)]);
}

#[test]
fn an_update_of_another_player_leaves_the_node_alone() {
    let mut node = active(1, vec![receiver_of(HOST_IP), receiver_of(JOINER_IP)]);
    let before = node.clone();
    let other =
        Square { side: 3, coordinates: Point { x: 8, y: 8 }, color: PlayerColor::Blue, id: 0 };
    let update = PlayerID { point: Point { x: 8, y: 9 }, player: other };
    let reaction = node.receive(NetworkData {
        amt: 56,
        src: sender_of(HOST_IP),
        event: NetworkEvent::PlayerID(update),
    });
    assert_eq!(reaction, Reaction::Redraw(other, Point { x: 8, y: 9 }));
    assert_eq!(node, before);
}

#[test]
fn a_list_of_peers_replaces_the_list_and_names_the_host_by_its_source() {
    let mut node = active(1, vec![receiver_of(LOOPBACK)]);
    let list = vec![receiver_of(LOOPBACK), receiver_of(JOINER_IP), receiver_of(0x0a00_0003)];
    let reaction = node.receive(NetworkData {
        amt: 42,
        src: sender_of(HOST_IP),
        event: NetworkEvent::Peers(list),
    });
    assert_eq!(reaction, Reaction::Nothing);
    assert_eq!(
        node.sender.peer_addrs,
        vec![receiver_of(HOST_IP), receiver_of(JOINER_IP), receiver_of(0x0a00_0003)]
    );
}

#[test]
fn an_empty_list_of_peers_empties_the_list() {
    let mut node = active(1, vec![receiver_of(HOST_IP)]);
    let reaction = node.receive(NetworkData {
        amt: 12,
        src: sender_of(HOST_IP),
        event: NetworkEvent::Peers(vec![]),
    });
    assert_eq!(reaction, Reaction::Nothing);
    assert_eq!(node.sender.peer_addrs, vec![]);
}

#[test]
fn a_departure_changes_nothing() {
    let mut node = active(1, vec![receiver_of(HOST_IP)]);
    let before = node.clone();
    let reaction = node.receive(NetworkData {
        amt: 4,
        src: sender_of(HOST_IP),
        event: NetworkEvent::PlayerLeft,
    });
    assert_eq!(reaction, Reaction::Nothing);
    assert_eq!(node, before);
}

#[test]
fn a_join_request_is_answered_at_the_receiver_port_of_its_source() {
    let mut host = active(0, vec![receiver_of(LOOPBACK)]);
    let reaction = host.receive(NetworkData {
        amt: 4,
        src: Address::V4 { ip: JOINER_IP, port: 51234 },
        event: NetworkEvent::PlayerJoin,
    });
    let list = vec![receiver_of(LOOPBACK), receiver_of(JOINER_IP)];
    assert_eq!(host.sender.peer_addrs, list);
    assert_eq!(
        reaction,
        Reaction::Send(vec![
            Datagram { to: receiver_of(JOINER_IP), payload: encode(&NetworkEvent::ID(1)) },
            Datagram {
                to: receiver_of(LOOPBACK),
                payload: encode(&NetworkEvent::Peers(list.clone())),
            },
            Datagram { to: receiver_of(JOINER_IP), payload: encode(&NetworkEvent::Peers(list)) },
        ])
    );
}

#[test]
fn a_join_request_that_comes_again_is_answered_without_a_second_entry() {
    let mut host = active(0, vec![receiver_of(LOOPBACK), receiver_of(JOINER_IP)]);
    let list = vec![receiver_of(LOOPBACK), receiver_of(JOINER_IP)];
    let reaction = host.receive(NetworkData {
        amt: 4,
        src: Address::V4 { ip: JOINER_IP, port: 40000 },
        event: NetworkEvent::PlayerJoin,
    });
    assert_eq!(host.sender.peer_addrs, list);
    let news = encode(&NetworkEvent::Peers(list));
    assert_eq!(
        reaction,
        Reaction::Send(vec![
            Datagram { to: receiver_of(JOINER_IP), payload: encode(&NetworkEvent::ID(1)) },
            Datagram { to: receiver_of(LOOPBACK), payload: news.clone() },
            Datagram { to: receiver_of(JOINER_IP), payload: news },
        ])
    );
}

#[test]
fn host_and_joiner_shake_hands() {
    // The host asks itself in first and so holds identity 0.
    let mut host = Node::new(unbound_sender(), Address::any_interface());
    let asked = host.join();
    assert_eq!(asked.len(), 1);
    let answer = sent(host.receive(delivered(&asked[0], sender_of(LOOPBACK), LOOPBACK)));
    for datagram in &answer {
        host.receive(delivered(datagram, sender_of(LOOPBACK), LOOPBACK));
    }
    assert_eq!(host.phase, Phase::Active);
    assert_eq!(host.player.id, 0);
    assert_eq!(host.player.color, PlayerColor::Blue);
    assert_eq!(host.sender.peer_addrs, vec![receiver_of(LOOPBACK)]);

    // The joiner asks every interface of its own machine, and the host.
    let mut joiner = Node::new(unbound_sender(), receiver_of(HOST_IP));
    let asked = joiner.join();
    assert_eq!(joiner.phase, Phase::AwaitingID);
    assert_eq!(asked.len(), 2);
    assert_eq!(asked[0].to, Address::any_interface());
    assert_eq!(asked[1].to, receiver_of(HOST_IP));

    // Its own request comes back to it: it lets itself in and, for now,
    // takes the identity it gave itself.
    let own = sent(joiner.receive(delivered(&asked[0], sender_of(LOOPBACK), JOINER_IP)));
    for datagram in &own {
        assert_eq!(datagram.to, receiver_of(LOOPBACK));
        joiner.receive(delivered(datagram, sender_of(LOOPBACK), JOINER_IP));
    }
    assert_eq!(joiner.player.id, 0);
    assert_eq!(joiner.sender.peer_addrs, vec![receiver_of(LOOPBACK)]);

    // The host lets the joiner in.
    let answer = sent(host.receive(delivered(&asked[1], sender_of(JOINER_IP), HOST_IP)));
    assert_eq!(host.sender.peer_addrs, vec![receiver_of(LOOPBACK), receiver_of(JOINER_IP)]);

    // The joiner is told its identity once, and then the list.
    let for_joiner: Vec<&Datagram> =
        answer.iter().filter(|datagram| datagram.to == receiver_of(JOINER_IP)).collect();
    assert_eq!(for_joiner.len(), 2);
    assert_eq!(decode(&for_joiner[0].payload), Ok(NetworkEvent::ID(1)));
    for datagram in for_joiner {
        joiner.receive(delivered(datagram, sender_of(HOST_IP), JOINER_IP));
    }
    assert_eq!(joiner.phase, Phase::Active);
    assert_eq!(joiner.player.id, 1);
    assert_eq!(joiner.player.color, PlayerColor::Red);
    assert_eq!(joiner.sender.peer_addrs, vec![receiver_of(HOST_IP), receiver_of(JOINER_IP)]);

    // The host takes in its own copy of the list.
    let for_host: Vec<&Datagram> =
        answer.iter().filter(|datagram| datagram.to == receiver_of(LOOPBACK)).collect();
    assert_eq!(for_host.len(), 1);
    host.receive(delivered(for_host[0], sender_of(LOOPBACK), LOOPBACK));
    assert_eq!(host.sender.peer_addrs, vec![receiver_of(LOOPBACK), receiver_of(JOINER_IP)]);
}

#[test]
fn a_step_is_seen_by_every_peer_and_moves_the_player_when_it_comes_back() {
    let peers = vec![receiver_of(HOST_IP), receiver_of(JOINER_IP), receiver_of(0x0a00_0003)];
    let mut mover = active(1, peers.clone());
    let mut watcher = active(2, peers.clone());
    let watcher_before = watcher.clone();
    let stood = mover.player;

    let reaction = mover.on_key(Key::Right);
    assert_eq!(mover.player, stood);
    let outbox = sent(reaction);
    assert_eq!(outbox.len(), 3);
    for (datagram, peer) in outbox.iter().zip(peers.iter()) {
        assert_eq!(datagram.to, *peer);
    }

    let seen = watcher.receive(delivered(&outbox[2], sender_of(JOINER_IP), 0x0a00_0003));
    assert_eq!(seen, Reaction::Redraw(stood, Point { x: 1, y: 0 }));
    assert_eq!(watcher, watcher_before);

    let echoed = mover.receive(delivered(&outbox[1], sender_of(JOINER_IP), JOINER_IP));
    assert_eq!(echoed, Reaction::Redraw(stood, Point { x: 1, y: 0 }));
    assert_eq!(mover.player.coordinates, Point { x: 1, y: 0 });
    assert_eq!(mover.player.id, 1);
}

#[test]
fn the_arrows_and_q_are_the_keys_of_the_game() {
    assert_eq!(match_event(Key::Char('q')), Some(GameEvent::Quit));
    assert_eq!(match_event(Key::Up), Some(GameEvent::Direction(Direction::Up)));
    assert_eq!(match_event(Key::Down), Some(GameEvent::Direction(Direction::Down)));
    assert_eq!(match_event(Key::Left), Some(GameEvent::Direction(Direction::Left)));
    assert_eq!(match_event(Key::Right), Some(GameEvent::Direction(Direction::Right)));
    assert_eq!(match_event(Key::Char('Q')), None);
    assert_eq!(match_event(Key::Char('x')), None);
    assert_eq!(match_event(Key::Other), None);
}

#[test]
fn q_quits_and_other_keys_do_nothing() {
    let mut node = active(1, vec![receiver_of(HOST_IP)]);
    let before = node.clone();
    assert_eq!(node.on_key(Key::Char('q')), Reaction::Quit);
    assert_eq!(node.on_key(Key::Char('w')), Reaction::Nothing);
    assert_eq!(node.on_key(Key::Other), Reaction::Nothing);
    assert_eq!(node.on_game_event(GameEvent::Quit), Reaction::Quit);
    assert_eq!(node, before);
}

#[test]
fn a_step_at_the_edge_is_told_as_a_step_to_the_same_cell() {
    let mut node = active(1, vec![receiver_of(HOST_IP)]);
    let outbox = sent(node.on_game_event(GameEvent::Direction(Direction::Up)));
    assert_eq!(
        decode(&outbox[0].payload),
        Ok(NetworkEvent::PlayerID(PlayerID { point: Point { x: 0, y: 0 }, player: node.player }))
    );
}

#[test]
fn can_take_tells_whether_a_step_fits() {
    let mut node = active(1, vec![]);
    assert!(node.can_take(GameEvent::Quit));
    assert!(node.can_take(GameEvent::Direction(Direction::Right)));
    node.player.coordinates = Point { x: usize::MAX, y: usize::MAX };
    assert!(!node.can_take(GameEvent::Direction(Direction::Right)));
    assert!(!node.can_take(GameEvent::Direction(Direction::Down)));
    assert!(node.can_take(GameEvent::Direction(Direction::Left)));
    assert!(node.can_take(GameEvent::Direction(Direction::Up)));
}

#[test]
fn an_own_update_is_shown_as_the_move_of_the_own_player() {
    let mut node = active(1, vec![receiver_of(HOST_IP)]);
    node.player.coordinates = Point { x: 4, y: 2 };
    let stale = Square {
        side: 7,
        coordinates: Point { x: 9, y: 9 },
        color: PlayerColor::Green,
        id: 1,
    };
    let reaction = node.receive(NetworkData {
        amt: 56,
        src: sender_of(LOOPBACK),
        event: NetworkEvent::PlayerID(PlayerID { point: Point { x: 5, y: 2 }, player: stale }),
    });
    assert_eq!(
        node.player,
        Square { side: 3, coordinates: Point { x: 5, y: 2 }, color: PlayerColor::Red, id: 1 }
    );
    let blank = |y: usize| Stroke { x: 4, y, glyph: ' ', width: 6, color: PlayerColor::Red };
    let block =
        |y: usize| Stroke { x: 5, y, glyph: '\u{2588}', width: 6, color: PlayerColor::Red };
    assert_eq!(
        reaction.strokes(),
        Some(vec![blank(2), blank(3), blank(4), block(2), block(3), block(4)])
    );
}

#[test]
fn an_update_of_another_player_is_shown_as_it_was_received() {
    let mut node = active(1, vec![receiver_of(HOST_IP)]);
    let other =
        Square { side: 2, coordinates: Point { x: 8, y: 8 }, color: PlayerColor::Blue, id: 0 };
    let reaction = node.receive(NetworkData {
        amt: 56,
        src: sender_of(HOST_IP),
        event: NetworkEvent::PlayerID(PlayerID { point: Point { x: 8, y: 9 }, player: other }),
    });
    let blank = |y: usize| Stroke { x: 8, y, glyph: ' ', width: 4, color: PlayerColor::Blue };
    let block =
        |y: usize| Stroke { x: 8, y, glyph: '\u{2588}', width: 4, color: PlayerColor::Blue };
    assert_eq!(reaction.strokes(), Some(vec![blank(8), blank(9), block(9), block(10)]));
}

#[test]
fn an_identity_is_shown_as_the_square_it_makes() {
    let mut node = Node::new(unbound_sender(), receiver_of(HOST_IP));
    let reaction = node.receive(NetworkData {
        amt: 12,
        src: sender_of(HOST_IP),
        event: NetworkEvent::ID(2),
    });
    let block =
        |y: usize| Stroke { x: 0, y, glyph: '\u{2588}', width: 6, color: PlayerColor::Green };
    assert_eq!(reaction.strokes(), Some(vec![block(0), block(1), block(2)]));
}

#[test]
fn what_asks_for_no_drawing_has_no_strokes() {
    assert_eq!(Reaction::Nothing.strokes(), Some(vec![]));
    assert_eq!(Reaction::Quit.strokes(), Some(vec![]));
    assert_eq!(Reaction::Send(vec![]).strokes(), Some(vec![]));
}

#[test]
fn a_square_that_cannot_be_painted_has_no_strokes() {
    let low =
        Square { side: 3, coordinates: Point { x: 0, y: 0 }, color: PlayerColor::Blue, id: 0 };
    let edge = Point { x: 0, y: usize::MAX - 1 };
    assert_eq!(Reaction::Redraw(low, edge).strokes(), None);
    assert_eq!(Reaction::Draw(Square { coordinates: edge, ..low }).strokes(), None);
    let fits = Point { x: 0, y: usize::MAX - 2 };
    assert_eq!(Reaction::Redraw(low, fits).strokes().map(|strokes| strokes.len()), Some(6));
}
