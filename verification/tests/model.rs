use life_engine::model::{Coords, Direction, Message, Model, State};
use life_engine::preset::{pattern_from_draws, Preset};

#[test]
fn move_cursor() {
    let mut model = Model::new(10, 10, vec![], vec![], 100);
    model.move_cursor(-1, -4);
    assert_eq!(Coords { x: 0, y: 0 }, *model.current_coords());
    model.move_cursor(5, 6);
    assert_eq!(Coords { x: 5, y: 6 }, *model.current_coords());
    model.move_cursor(6, 6);
    assert_eq!(Coords { x: 10, y: 10 }, *model.current_coords());
}

#[test]
fn move_cursor_in_direction() {
    let mut model = Model::new(10, 10, vec![], vec![], 100);
    model.move_cursor_in_direction(Direction::Down);
    assert_eq!(Coords { x: 0, y: 1 }, *model.current_coords());
    model.move_cursor_in_direction(Direction::Right);
    assert_eq!(Coords { x: 1, y: 1 }, *model.current_coords());
    model.move_cursor_in_direction(Direction::Up);
    assert_eq!(Coords { x: 1, y: 0 }, *model.current_coords());
    model.move_cursor_in_direction(Direction::Left);
    assert_eq!(Coords { x: 0, y: 0 }, *model.current_coords());
}

#[test]
fn toggle_current_cell() {
    let mut model = Model::new(3, 3, vec![], vec![], 100);
    model.move_cursor_in_direction(Direction::Down);
    model.move_cursor_in_direction(Direction::Right);
    model.update(Message::ToggleCellState);
    assert_eq!(
        vec![
            vec![false; 4],
            vec![false, true, false, false],
            vec![false; 4],
            vec![false; 4]
        ],
        *model.cells()
    );
}

#[test]
fn toggle_editing_state() {
    let mut model = Model::new(5, 5, vec![], vec![], 100);
    model.update(Message::ToggleEditing);
    assert_eq!(*model.state(), State::Running);
    model.update(Message::ToggleEditing);
    assert_eq!(*model.state(), State::Editing);
}

#[test]
fn pass_tick_running_blinker() {
    let mut model = Model::new(4, 4, vec![3], vec![2, 3], 100);
    model.update_cell(2, 1, true);
    model.update_cell(2, 2, true);
    model.update_cell(2, 3, true);
    model.update(Message::ToggleEditing);
    model.update(Message::Idle);
    assert_eq!(
        *model.cells(),
        vec![
            vec![false, false, false, false, false],
            vec![false, false, true, false, false],
            vec![false, false, true, false, false],
            vec![false, false, true, false, false],
            vec![false, false, false, false, false],
        ]
    );
    model.update(Message::Idle);
    assert_eq!(
        *model.cells(),
        vec![
            vec![false, false, false, false, false],
            vec![false, false, false, false, false],
            vec![false, true, true, true, false],
            vec![false, false, false, false, false],
            vec![false, false, false, false, false],
        ]
    );
}

#[test]
fn load_preset() {
    let mut model = Model::new(4, 5, vec![3], vec![2, 3], 100);
    model.load_preset(Preset::Blinker);
    assert_eq!(
        *model.cells(),
        vec![
            vec![false, false, false, false, false, false],
            vec![true, true, true, false, false, false],
            vec![false, false, false, false, false, false],
            vec![false, false, false, false, false, false],
            vec![false, false, false, false, false, false],
        ]
    );
    model.update(Message::ToggleEditing);
    model.update(Message::Idle);
    assert_eq!(
        *model.cells(),
        vec![
            vec![false, true, false, false, false, false],
            vec![false, true, false, false, false, false],
            vec![false, true, false, false, false, false],
            vec![false, false, false, false, false, false],
            vec![false, false, false, false, false, false],
        ]
    );
}

#[test]
fn pass_tick_running_mold() {
    let mut model = Model::new(5, 5, vec![3], vec![2, 3], 100);
    let mold = [
        [false, false, false, true, true, false],
        [false, false, true, false, false, true],
        [true, false, false, true, false, true],
        [false, false, false, false, true, false],
        [true, false, true, true, false, false],
        [false, true, false, false, false, false],
    ];
    for (y, row) in mold.iter().enumerate() {
        for (x, val) in row.iter().enumerate() {
            model.update_cell(y, x, *val);
        }
    }
    model.update(Message::ToggleEditing);
    model.update(Message::Idle);
    assert_eq!(
        *model.cells(),
        vec![
            vec![false, false, false, true, true, false],
            vec![false, false, true, false, false, true],
            vec![false, false, false, true, false, true],
            vec![false, true, true, false, true, false],
            vec![false, true, true, true, false, false],
            vec![false, true, true, false, false, false],
        ]
    );
}

#[test]
fn rulestring() {
    let model = Model::new(3, 3, vec![2, 3, 5], vec![1, 7], 100);
    assert_eq!(model.rulestring(), "B235/S17");
}

#[test]
fn tickrate_is_kept() {
    let model = Model::new(3, 3, vec![], vec![], 250);
    assert_eq!(model.tickrate(), 250);
}

#[test]
fn dead_grid_stays_dead_without_zero_birth() {
    let mut model = Model::new(3, 3, vec![3], vec![2, 3], 100);
    model.update(Message::ToggleEditing);
    model.update(Message::Idle);
    assert_eq!(*model.cells(), vec![vec![false; 4]; 4]);
}

#[test]
fn dead_grid_fills_with_zero_birth() {
    let mut model = Model::new(2, 2, vec![0], vec![], 100);
    model.update(Message::ToggleEditing);
    model.update(Message::Idle);
    assert_eq!(*model.cells(), vec![vec![true; 3]; 3]);
}

#[test]
fn cursor_clamps_at_extremes() {
    let mut model = Model::new(10, 10, vec![], vec![], 100);
    model.move_cursor(32767, 32767);
    assert_eq!(Coords { x: 10, y: 10 }, *model.current_coords());
    model.move_cursor(-32768, -32768);
    assert_eq!(Coords { x: 0, y: 0 }, *model.current_coords());
}

#[test]
fn cursor_frozen_while_running() {
    let mut model = Model::new(5, 5, vec![], vec![], 100);
    model.move_cursor_in_direction(Direction::Down);
    model.update(Message::ToggleEditing);
    model.move_cursor_in_direction(Direction::Down);
    assert_eq!(Coords { x: 0, y: 1 }, *model.current_coords());
}

#[test]
fn done_absorbs_messages() {
    let mut model = Model::new(4, 4, vec![3], vec![2, 3], 100);
    model.update_cell(2, 1, true);
    model.update_cell(2, 2, true);
    model.update_cell(2, 3, true);
    model.update(Message::Quit);
    assert_eq!(*model.state(), State::Done);
    model.update(Message::ToggleEditing);
    assert_eq!(*model.state(), State::Done);
    model.update(Message::Move(Direction::Down));
    assert_eq!(Coords { x: 0, y: 0 }, *model.current_coords());
    model.update(Message::Idle);
    model.update(Message::ToggleCellState);
    assert_eq!(
        *model.cells(),
        vec![
            vec![false, false, false, false, false],
            vec![false, false, false, false, false],
            vec![false, true, true, true, false],
            vec![false, false, false, false, false],
            vec![false, false, false, false, false],
        ]
    );
    model.update(Message::Quit);
    assert_eq!(*model.state(), State::Done);
}

#[test]
fn read_cell_reports_liveness_and_bounds() {
    let mut model = Model::new(2, 2, vec![], vec![], 100);
    model.update_cell(1, 2, true);
    assert!(model.read_cell(1, 2));
    assert!(!model.read_cell(0, 0));
    assert!(!model.read_cell(5, 5));
}

#[test]
fn out_of_bounds_write_is_ignored() {
    let mut model = Model::new(2, 2, vec![], vec![], 100);
    model.update_cell(3, 0, true);
    model.update_cell(0, 3, true);
    model.update_cell(100, 100, true);
    assert_eq!(*model.cells(), vec![vec![false; 3]; 3]);
}

#[test]
fn unrecognized_preset_loads_empty_board() {
    let mut model = Model::new(7, 9, vec![3], vec![2, 3], 100);
    model.load_preset(Preset::from("nonsense"));
    assert_eq!(*model.cells(), vec![vec![false; 10]; 8]);
}

#[test]
fn toggle_cell_while_running_uses_frozen_cursor() {
    let mut model = Model::new(3, 3, vec![], vec![], 100);
    model.move_cursor_in_direction(Direction::Down);
    model.update(Message::ToggleEditing);
    model.update(Message::ToggleCellState);
    assert_eq!(
        *model.cells(),
        vec![
            vec![false; 4],
            vec![true, false, false, false],
            vec![false; 4],
            vec![false; 4]
        ]
    );
}

#[test]
fn pattern_from_draws_maps_each_draw() {
    let draws = vec![0, 3, 9, 2, 1, 5];
    let pattern = pattern_from_draws(&draws, 2, 3);
    assert_eq!(
        pattern,
        vec![vec![true, false, false], vec![true, true, false]]
    );
}

#[test]
fn injected_draws_load_a_deterministic_board() {
    let mut model = Model::new(1, 2, vec![3], vec![2, 3], 100);
    let draws = vec![0, 3, 9, 2, 1, 5];
    let pattern = pattern_from_draws(&draws, 2, 3);
    model.insert_cells(pattern);
    assert_eq!(
        *model.cells(),
        vec![vec![true, false, false], vec![true, true, false]]
    );
}

#[test]
fn random_preset_keeps_dimensions() {
    let mut model = Model::new(6, 4, vec![3], vec![2, 3], 100);
    model.load_preset(Preset::Random);
    let cells = model.cells();
    assert_eq!(cells.len(), 7);
    for row in cells.iter() {
        assert_eq!(row.len(), 5);
    }
}

#[test]
fn mold_preset_overlays_pattern() {
    let mut model = Model::new(6, 6, vec![3], vec![2, 3], 100);
    model.load_preset(Preset::Mold);
    let expected = [
        [false, false, false, true, true, false],
        [false, false, true, false, false, true],
        [true, false, false, true, false, true],
        [false, false, false, false, true, false],
        [true, false, true, true, false, false],
        [false, true, false, false, false, false],
    ];
    let cells = model.cells();
    for (y, row) in expected.iter().enumerate() {
        for (x, val) in row.iter().enumerate() {
            assert_eq!(cells[y][x], *val);
        }
    }
    for x in 0..7 {
        assert_eq!(cells[6][x], false);
        assert_eq!(cells[x][6], false);
    }
}
