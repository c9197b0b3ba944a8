use rusty_games::hide_and_seek::{
    Coord, GameState, GameStatus, StepOutcome, EXPLOSIONS_LOST_ON_FREEZE, GRID_SIZE_X, GRID_SIZE_Y,
    START_EXPLOSIONS, START_HEALTH,
};

/// Tests that a grid is valid. IE it contains trees, you, and your sister.
#[test]
fn test_valid_grid() {
    let player_pos = Coord { x: 0, y: 0 };
    let sister_pos = Coord { x: 0, y: 1 };
    let game = GameState::new_customized(player_pos.clone(), sister_pos.clone());

    assert_eq!(player_pos, game.forest.player_pos);
    assert_eq!(sister_pos, game.forest.sister_pos);
}

/// Tests that the initial game state is as expected
#[test]
fn test_valid_initial_state() {
    let game = GameState::new();

    assert_eq!(START_HEALTH, game.your_health);
    assert_eq!(START_EXPLOSIONS, game.bro_expl_cnt);
    assert!(game.blast_history.is_empty());
    assert_eq!(false, game.bombed_sis_pos);
    assert_eq!(GameStatus::Running, game.status());
}

/// Tests the state of the game after bombing an empty spot
#[test]
fn test_bomb_empty_spot() {
    let player_pos = Coord { x: 1, y: 0 };
    let sister_pos = Coord { x: 2, y: 1 };
    let mut game = GameState::new_customized(player_pos.clone(), sister_pos.clone());
    let bomb_pos = Coord { x: 2, y: 3 };

    game.perform_step_customized(bomb_pos.clone(), Coord::random());

    assert_eq!(GameStatus::Running, game.status());
    assert_eq!(player_pos, game.forest.player_pos);
    assert_eq!(sister_pos, game.forest.sister_pos);
    assert_eq!(START_HEALTH, game.your_health);
    assert_eq!(START_EXPLOSIONS - 1, game.bro_expl_cnt);
    assert_eq!(1, game.blast_history.len());
    assert_eq!(false, game.bombed_sis_pos);
}

/// Tests the state of the game after bombing the sister
#[test]
fn test_bomb_sister() {
    let player_pos = Coord { x: 1, y: 0 };
    let sister_pos = Coord { x: 2, y: 1 };
    let mut game = GameState::new_customized(player_pos.clone(), sister_pos.clone());

    game.perform_step_customized(sister_pos.clone(), Coord::random());

    let expected_expl_after = START_EXPLOSIONS - 1 - EXPLOSIONS_LOST_ON_FREEZE;
    assert_eq!(GameStatus::Running, game.status());
    assert_eq!(player_pos, game.forest.player_pos);
    assert_eq!(sister_pos, game.forest.sister_pos);
    assert_eq!(START_HEALTH, game.your_health);
    assert_eq!(expected_expl_after, game.bro_expl_cnt);
    assert_eq!(true, game.bombed_sis_pos);
}

/// Tests the state of the game after bombing the player
#[test]
fn test_bomb_player() {
    let player_pos = Coord { x: 1, y: 0 };
    let sister_pos = Coord { x: 2, y: 1 };
    let new_pos = Coord { x: 3, y: 2 };
    let mut game = GameState::new_customized(player_pos.clone(), sister_pos.clone());

    game.perform_step_customized(player_pos.clone(), new_pos.clone());

    assert_eq!(GameStatus::Running, game.status());
    assert_eq!(new_pos, game.forest.player_pos);
    assert_eq!(sister_pos, game.forest.sister_pos);
    assert_eq!(START_HEALTH - 1, game.your_health);
    assert_eq!(START_EXPLOSIONS - 1, game.bro_expl_cnt);
    assert_eq!(false, game.bombed_sis_pos);
}

/// Tests the state of the game after using the final bomb to blast the player's last life
#[test]
fn test_bomb_player_game_over_brother_won() {
    let player_pos = Coord { x: 1, y: 0 };
    let sister_pos = Coord { x: 2, y: 1 };
    let mut game = GameState::new_customized(player_pos.clone(), sister_pos.clone());
    game.your_health = 1;
    game.bro_expl_cnt = 1;

    game.perform_step_customized(player_pos.clone(), Coord::random());

    assert_eq!(GameStatus::BrotherWon, game.status());
    assert_eq!(0, game.your_health);
    assert_eq!(0, game.bro_expl_cnt);
}

/// Tests the state of the game after using the final bomb, and the player is still alive
#[test]
fn test_bomb_player_game_over_you_won() {
    let player_pos = Coord { x: 1, y: 0 };
    let sister_pos = Coord { x: 2, y: 1 };
    let mut game = GameState::new_customized(player_pos.clone(), sister_pos.clone());
    game.your_health = 2;
    game.bro_expl_cnt = 1;

    game.perform_step_customized(player_pos.clone(), Coord::random());

    assert_eq!(GameStatus::YouWon, game.status());
    assert_eq!(1, game.your_health);
    assert_eq!(0, game.bro_expl_cnt);
}

/// Tests that the blast history is updated when hitting an empty space
#[test]
fn test_blast_history_updated_after_empty_spot_is_hit() {
    let player_pos = Coord { x: 1, y: 0 };
    let sister_pos = Coord { x: 2, y: 1 };
    let mut game = GameState::new_customized(player_pos.clone(), sister_pos.clone());
    let bomb_pos = Coord { x: 2, y: 3 };
    let hist_size_before = 3;
    for _ in 0..hist_size_before {
        game.blast_history.push(Coord::random());
    }

    game.perform_step_customized(bomb_pos.clone(), Coord::random());

    assert_eq!(1 + hist_size_before, game.blast_history.len());
    assert_eq!(bomb_pos, game.blast_history[hist_size_before]);
}

/// Tests that the blast history is NOT updated when hitting the sister
#[test]
fn test_blast_history_not_updated_after_sister_is_hit() {
    let player_pos = Coord { x: 1, y: 0 };
    let sister_pos = Coord { x: 2, y: 1 };
    let mut game = GameState::new_customized(player_pos.clone(), sister_pos.clone());

    game.perform_step_customized(sister_pos.clone(), Coord::random());

    assert!(game.blast_history.is_empty());
}

/// Tests that the blast history is cleared after hitting the player (and sister was not yet hit)
#[test]
fn test_blast_history_cleared_after_player_is_hit_and_sister_was_not_hit() {
    let player_pos = Coord { x: 1, y: 0 };
    let sister_pos = Coord { x: 2, y: 1 };
    let mut game = GameState::new_customized(player_pos.clone(), sister_pos.clone());
    let hist_size_before = 3;
    for _ in 0..hist_size_before {
        game.blast_history.push(Coord::random());
    }

    game.perform_step_customized(player_pos.clone(), Coord::random());

    assert!(game.blast_history.is_empty());
}

/// Tests that any position is ok to blast in the beginning
#[test]
fn test_any_position_ok_to_blast_initially() {
    let player_pos = Coord { x: 1, y: 0 };
    let sister_pos = Coord { x: 2, y: 1 };
    let game = GameState::new_customized(player_pos.clone(), sister_pos.clone());

    for x in 0..GRID_SIZE_X {
        for y in 0..GRID_SIZE_Y {
            let pos = Coord { x, y };
            assert_eq!(true, game.good_position_to_blast(&pos));
        }
    }
}

/// Tests that a position is NOT ok to blast if already blasted
#[test]
fn test_not_ok_to_blast_position_already_in_history() {
    let player_pos = Coord { x: 1, y: 0 };
    let sister_pos = Coord { x: 2, y: 1 };
    let mut game = GameState::new_customized(player_pos.clone(), sister_pos.clone());
    let blast_pos = Coord { x: 3, y: 3 };

    game.perform_step_customized(blast_pos.clone(), Coord::random());

    assert_eq!(false, game.good_position_to_blast(&blast_pos));
}

/// Tests that sister position is NOT ok to blast even after history reset
#[test]
fn test_not_ok_to_blast_sister_if_already_blasted() {
    let player_pos = Coord { x: 1, y: 0 };
    let sister_pos = Coord { x: 2, y: 1 };
    let mut game = GameState::new_customized(player_pos.clone(), sister_pos.clone());

    assert_eq!(true, game.good_position_to_blast(&sister_pos));

    game.perform_step_customized(sister_pos.clone(), Coord::random());
    assert_eq!(false, game.good_position_to_blast(&sister_pos));

    game.perform_step_customized(player_pos.clone(), Coord::random());
    assert_eq!(false, game.good_position_to_blast(&sister_pos));
}

// ---- further scenarios ----

#[test]
fn step_outcomes_name_what_was_hit() {
    let player_pos = Coord { x: 1, y: 0 };
    let sister_pos = Coord { x: 2, y: 1 };
    let mut game = GameState::new_customized(player_pos, sister_pos);
    assert_eq!(StepOutcome::Missed, game.perform_step_customized(Coord { x: 4, y: 4 }, Coord { x: 0, y: 0 }));
    assert_eq!(StepOutcome::HitSister, game.perform_step_customized(sister_pos, Coord { x: 0, y: 0 }));
    assert_eq!(StepOutcome::HitPlayer, game.perform_step_customized(player_pos, Coord { x: 0, y: 4 }));
    assert_eq!(Coord { x: 0, y: 4 }, game.forest.player_pos);
    assert_eq!(START_EXPLOSIONS - 3 - EXPLOSIONS_LOST_ON_FREEZE, game.bro_expl_cnt);
}

#[test]
fn random_game_ends_within_start_explosions_rounds() {
    for _ in 0..20 {
        let mut game = GameState::new();
        let mut rounds = 0;
        while game.status() == GameStatus::Running {
            let before = game.bro_expl_cnt;
            let out = game.perform_step();
            assert!(game.bro_expl_cnt < before);
            if out == StepOutcome::Missed {
                let last = *game.blast_history.last().unwrap();
                assert!(!game.good_position_to_blast(&last));
            }
            assert_ne!(game.forest.player_pos, game.forest.sister_pos);
            rounds += 1;
        }
        assert!(rounds <= START_EXPLOSIONS);
    }
}

#[test]
fn forest_picture_marks_player_and_sister() {
    let game = GameState::new_customized(Coord { x: 1, y: 0 }, Coord { x: 0, y: 2 });
    let pic = game.forest.render();
    assert_eq!("_P___\n_____\nS____\n_____\n_____\n", pic);
}
