use connect_four::board::{Player, Slot, Token};
use connect_four::events::{
    CreateGame, GameCommands, GameCreated, GameEvents, PlaceToken, Timestamp, TokenPlaced,
};
use connect_four::game::{
    can_create_game, command_processing, command_processing_at, event_processing,
    project_all_games, project_game_count, project_next_color_to_play, GameStatus, Games,
};
use connect_four::position::Position;

fn player(name: &str, token: Token) -> Player {
    Player { name: name.to_string(), token }
}

fn at(millis: i64) -> Timestamp {
    Timestamp { millis }
}

fn create(games: &mut Games, a: &str, b: &str) -> Option<GameEvents> {
    let cmd = GameCommands::CreateGame(CreateGame {
        player1: player(a, Token::Red),
        player2: player(b, Token::Yellow),
    });
    let event = command_processing_at(games, cmd, at(5));
    if let Some(e) = &event {
        event_processing(games, e);
    }
    event
}

fn drop_token(games: &mut Games, game: usize, who: Player, column: usize) -> Option<GameEvents> {
    let cmd = GameCommands::PlaceToken(PlaceToken { game, player: who, column });
    let event = command_processing_at(games, cmd, at(9));
    if let Some(e) = &event {
        event_processing(games, e);
    }
    event
}

#[test]
fn created_game_takes_the_count_as_id() {
    let mut games = Games::new();
    match create(&mut games, "ann", "bob") {
        Some(GameEvents::GameCreated(e)) => {
            assert_eq!(e.id, 0);
            assert_eq!(e.player1, player("ann", Token::Red));
            assert_eq!(e.player2, player("bob", Token::Yellow));
            assert_eq!(e.created, at(5));
        }
        _ => panic!("game not created"),
    }
    match create(&mut games, "cat", "dan") {
        Some(GameEvents::GameCreated(e)) => assert_eq!(e.id, 1),
        _ => panic!("game not created"),
    }
    assert_eq!(games.len(), 2);
    let game = games.get(&1).unwrap();
    assert_eq!(game.player1.name, "cat");
    assert!(game.board.iter().all(|s| *s == Slot::Empty));
}

#[test]
fn seated_player_cannot_start_another_game_until_it_is_over() {
    let mut games = Games::new();
    assert!(create(&mut games, "ann", "bob").is_some());
    assert!(create(&mut games, "bob", "cat").is_none());
    assert!(create(&mut games, "cat", "ann").is_none());
    let proposal = CreateGame { player1: player("dan", Token::Red), player2: player("bob", Token::Yellow) };
    assert!(!can_create_game(&games, &proposal));

    let ann = player("ann", Token::Red);
    let bob = player("bob", Token::Yellow);
    for round in 0..4 {
        assert!(drop_token(&mut games, 0, ann.clone(), 0).is_some());
        if round != 3 {
            assert!(drop_token(&mut games, 0, bob.clone(), 1).is_some());
        }
    }
    let game = games.get(&0).unwrap();
    assert_eq!(game.game_over(), Some(&game.player1));
    assert_eq!(game.status(), GameStatus::Terminated);
    assert!(can_create_game(&games, &proposal));
    assert!(drop_token(&mut games, 0, bob.clone(), 2).is_none());
    assert!(create(&mut games, "bob", "cat").is_some());
}

#[test]
fn token_command_becomes_token_event() {
    let mut games = Games::new();
    create(&mut games, "ann", "bob");
    let event = drop_token(&mut games, 0, player("ann", Token::Red), 2);
    match event {
        Some(GameEvents::TokenPlaced(e)) => {
            assert_eq!(e.game, 0);
            assert_eq!(e.token, Token::Red);
            assert_eq!(e.column, 2);
            assert_eq!(e.created, at(9));
        }
        _ => panic!("token not placed"),
    }
    let game = games.get(&0).unwrap();
    assert_eq!(game.board[Position::from_coord(2, 0).translate()], Slot::Occupied(Token::Red));
    assert_eq!(game.status(), GameStatus::Ongoing);
    assert_eq!(game.game_over(), None);
}

#[test]
fn token_command_is_rejected_for_unknown_game_or_full_column() {
    let mut games = Games::new();
    create(&mut games, "ann", "bob");
    assert!(drop_token(&mut games, 3, player("ann", Token::Red), 0).is_none());
    assert!(drop_token(&mut games, 0, player("ann", Token::Red), 7).is_none());
    for k in 0..6 {
        let who = if k % 2 == 0 { player("ann", Token::Red) } else { player("bob", Token::Yellow) };
        assert!(drop_token(&mut games, 0, who, 6).is_some());
    }
    assert!(drop_token(&mut games, 0, player("ann", Token::Red), 6).is_none());
}

#[test]
fn command_processing_stamps_the_current_time() {
    let games = Games::new();
    let cmd = GameCommands::CreateGame(CreateGame {
        player1: player("ann", Token::Red),
        player2: player("bob", Token::Yellow),
    });
    match command_processing(&games, cmd) {
        Some(GameEvents::GameCreated(e)) => {
            assert_eq!(e.id, 0);
            assert!(e.created.millis > 1_500_000_000_000);
        }
        _ => panic!("game not created"),
    }
}

#[test]
fn created_event_with_known_id_replaces_the_game() {
    let mut games = Games::new();
    create(&mut games, "ann", "bob");
    drop_token(&mut games, 0, player("ann", Token::Red), 0);
    let again = GameEvents::GameCreated(GameCreated {
        id: 0,
        player1: player("cat", Token::Red),
        player2: player("dan", Token::Yellow),
        created: at(1),
    });
    project_all_games(&mut games, &again);
    assert_eq!(games.len(), 1);
    let game = games.get(&0).unwrap();
    assert_eq!(game.player1.name, "cat");
    assert!(game.board.iter().all(|s| *s == Slot::Empty));
}

#[test]
fn token_event_for_unknown_game_changes_nothing() {
    let mut games = Games::new();
    create(&mut games, "ann", "bob");
    let stray = GameEvents::TokenPlaced(TokenPlaced { game: 8, token: Token::Red, column: 0, created: at(2) });
    event_processing(&mut games, &stray);
    assert!(games.get(&0).unwrap().board.iter().all(|s| *s == Slot::Empty));
    assert!(games.get(&8).is_none());
}

#[test]
fn next_color_alternates() {
    let e = TokenPlaced { game: 0, token: Token::Red, column: 0, created: at(0) };
    assert_eq!(project_next_color_to_play(Token::Red, &e), Token::Yellow);
    assert_eq!(project_next_color_to_play(Token::Yellow, &e), Token::Red);
}

#[test]
fn game_count_grows_by_one() {
    let e = GameCreated { id: 0, player1: player("a", Token::Red), player2: player("b", Token::Yellow), created: at(0) };
    assert_eq!(project_game_count(0, &e), 1);
    assert_eq!(project_game_count(41, &e), 42);
}
