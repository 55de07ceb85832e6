use game_of_life::{advance, count_live_neighbors, next_generation, run_frame, Framebuffer};

const LIVE: u32 = 0x3D85C6;
const BLANK: u32 = 0x000000;

fn grid_with(width: usize, height: usize, cells: &[(usize, usize)]) -> Framebuffer {
    let mut framebuffer = Framebuffer::new(width, height);
    framebuffer.set_current_color(LIVE);
    framebuffer.set_background_color(BLANK);
    framebuffer.clear();
    for &(x, y) in cells {
        framebuffer.point(x, y);
    }
    framebuffer
}

fn full_grid(width: usize, height: usize) -> Framebuffer {
    let mut framebuffer = grid_with(width, height, &[]);
    for y in 0..height {
        for x in 0..width {
            framebuffer.point(x, y);
        }
    }
    framebuffer
}

fn rows(buffer: &[u32], width: usize) -> Vec<String> {
    buffer
        .chunks(width)
        .map(|row| row.iter().map(|&color| if color == LIVE { '#' } else { '.' }).collect())
        .collect()
}

#[test]
fn empty_neighborhood_counts_zero() {
    let framebuffer = grid_with(5, 5, &[(2, 2)]);
    assert_eq!(count_live_neighbors(&framebuffer, 2, 2), 0);
}

#[test]
fn a_cell_does_not_count_itself() {
    let framebuffer = full_grid(3, 3);
    assert_eq!(count_live_neighbors(&framebuffer, 1, 1), 8);
}

#[test]
fn each_of_the_eight_neighbors_counts_once() {
    let around = [(1, 1), (2, 1), (3, 1), (1, 2), (3, 2), (1, 3), (2, 3), (3, 3)];
    for &cell in &around {
        let framebuffer = grid_with(5, 5, &[cell]);
        assert_eq!(count_live_neighbors(&framebuffer, 2, 2), 1);
    }
    let framebuffer = grid_with(5, 5, &around);
    assert_eq!(count_live_neighbors(&framebuffer, 2, 2), 8);
}

#[test]
fn cells_two_steps_away_do_not_count() {
    let framebuffer = grid_with(5, 5, &[(0, 0), (4, 2), (2, 4), (0, 2), (2, 0), (4, 4)]);
    assert_eq!(count_live_neighbors(&framebuffer, 2, 2), 0);
}

#[test]
fn corner_cell_has_at_most_three_live_neighbors() {
    let framebuffer = full_grid(4, 4);
    assert_eq!(count_live_neighbors(&framebuffer, 0, 0), 3);
    assert_eq!(count_live_neighbors(&framebuffer, 3, 0), 3);
    assert_eq!(count_live_neighbors(&framebuffer, 0, 3), 3);
    assert_eq!(count_live_neighbors(&framebuffer, 3, 3), 3);
}

#[test]
fn edge_cell_has_at_most_five_live_neighbors() {
    let framebuffer = full_grid(4, 4);
    assert_eq!(count_live_neighbors(&framebuffer, 1, 0), 5);
    assert_eq!(count_live_neighbors(&framebuffer, 0, 2), 5);
    assert_eq!(count_live_neighbors(&framebuffer, 3, 1), 5);
    assert_eq!(count_live_neighbors(&framebuffer, 2, 3), 5);
}

#[test]
fn live_corner_cell_counts_only_neighbors_on_the_grid() {
    let framebuffer = grid_with(6, 6, &[(0, 0)]);
    assert_eq!(count_live_neighbors(&framebuffer, 0, 0), 0);
    assert_eq!(count_live_neighbors(&framebuffer, 1, 0), 1);
    assert_eq!(count_live_neighbors(&framebuffer, 0, 1), 1);
    assert_eq!(count_live_neighbors(&framebuffer, 1, 1), 1);
}

#[test]
fn nothing_wraps_around_to_the_far_side() {
    let framebuffer = grid_with(6, 6, &[(0, 0)]);
    assert_eq!(count_live_neighbors(&framebuffer, 5, 0), 0);
    assert_eq!(count_live_neighbors(&framebuffer, 5, 1), 0);
    assert_eq!(count_live_neighbors(&framebuffer, 0, 5), 0);
    assert_eq!(count_live_neighbors(&framebuffer, 1, 5), 0);
    assert_eq!(count_live_neighbors(&framebuffer, 5, 5), 0);

    let far = grid_with(6, 6, &[(5, 2)]);
    assert_eq!(count_live_neighbors(&far, 0, 1), 0);
    assert_eq!(count_live_neighbors(&far, 0, 2), 0);
    assert_eq!(count_live_neighbors(&far, 0, 3), 0);
}

#[test]
fn counting_twice_gives_the_same_number() {
    let framebuffer = grid_with(3, 3, &[(0, 0), (1, 0), (0, 1), (1, 1), (2, 2)]);
    for y in 0..3 {
        for x in 0..3 {
            let first = count_live_neighbors(&framebuffer, x, y);
            let second = count_live_neighbors(&framebuffer, x, y);
            assert_eq!(first, second);
        }
    }
    assert_eq!(count_live_neighbors(&framebuffer, 0, 0), 3);
    assert_eq!(count_live_neighbors(&framebuffer, 1, 1), 4);
    assert_eq!(count_live_neighbors(&framebuffer, 2, 2), 1);
}

#[test]
fn counting_around_a_position_off_the_grid_does_not_fail() {
    let framebuffer = full_grid(3, 3);
    assert_eq!(count_live_neighbors(&framebuffer, 3, 1), 3);
    assert_eq!(count_live_neighbors(&framebuffer, 3, 3), 1);
    assert_eq!(count_live_neighbors(&framebuffer, 4, 1), 0);
    assert_eq!(count_live_neighbors(&framebuffer, usize::MAX, 0), 0);
    assert_eq!(count_live_neighbors(&framebuffer, 0, usize::MAX), 0);
    assert_eq!(count_live_neighbors(&framebuffer, usize::MAX, usize::MAX), 0);
}

#[test]
fn a_third_color_counts_as_dead() {
    let mut framebuffer = grid_with(3, 3, &[(0, 0)]);
    framebuffer.set(2, 2, 0xFF0000);
    assert_eq!(count_live_neighbors(&framebuffer, 1, 1), 1);
}

#[test]
fn next_generation_has_one_cell_per_position() {
    let framebuffer = grid_with(7, 3, &[(1, 1)]);
    let buffer = next_generation(&framebuffer, 7, 3);
    assert_eq!(buffer.len(), 21);
}

#[test]
fn next_generation_of_an_empty_grid_is_empty() {
    let framebuffer = grid_with(4, 4, &[]);
    assert_eq!(next_generation(&framebuffer, 4, 4), vec![BLANK; 16]);
    let nothing = grid_with(0, 0, &[]);
    assert!(next_generation(&nothing, 0, 0).is_empty());
}

#[test]
fn a_lonely_cell_dies() {
    let framebuffer = grid_with(3, 3, &[(1, 1)]);
    assert_eq!(next_generation(&framebuffer, 3, 3), vec![BLANK; 9]);
}

#[test]
fn three_cells_in_a_corner_give_birth_to_the_fourth() {
    let framebuffer = grid_with(4, 4, &[(0, 0), (1, 0), (0, 1)]);
    let buffer = next_generation(&framebuffer, 4, 4);
    assert_eq!(rows(&buffer, 4), ["##..", "##..", "....", "...."]);
}

#[test]
fn a_crowded_cell_dies() {
    let framebuffer = full_grid(3, 3);
    let buffer = next_generation(&framebuffer, 3, 3);
    assert_eq!(rows(&buffer, 3), ["#.#", "...", "#.#"]);
}

#[test]
fn next_generation_writes_the_two_colors_of_the_grid() {
    let mut framebuffer = Framebuffer::new(3, 3);
    framebuffer.set_current_color(0x00FF00);
    framebuffer.set_background_color(0x101010);
    framebuffer.clear();
    framebuffer.point(0, 1);
    framebuffer.point(1, 1);
    framebuffer.point(2, 1);
    let buffer = next_generation(&framebuffer, 3, 3);
    let g = 0x00FF00;
    let d = 0x101010;
    assert_eq!(buffer, vec![d, g, d, d, g, d, d, g, d]);
}

#[test]
fn next_generation_turns_a_third_color_into_the_background() {
    let mut framebuffer = grid_with(3, 3, &[]);
    framebuffer.set(1, 1, 0xFF0000);
    assert_eq!(next_generation(&framebuffer, 3, 3), vec![BLANK; 9]);
}

#[test]
fn next_generation_leaves_the_present_one_as_it_was() {
    let framebuffer = grid_with(5, 5, &[(1, 2), (2, 2), (3, 2)]);
    let before = framebuffer.buffer().clone();
    let after = next_generation(&framebuffer, 5, 5);
    assert_eq!(framebuffer.buffer(), &before);
    assert_ne!(after, before);
    assert_eq!(framebuffer.width(), 5);
    assert_eq!(framebuffer.height(), 5);
}

#[test]
fn next_generation_twice_on_one_grid_gives_the_same_buffer() {
    let framebuffer = grid_with(6, 6, &[(0, 0), (1, 0), (2, 1), (2, 2), (5, 5), (4, 5), (5, 4)]);
    let first = next_generation(&framebuffer, 6, 6);
    let second = next_generation(&framebuffer, 6, 6);
    assert_eq!(first, second);
}

#[test]
fn every_cell_sees_the_old_generation() {
    // Computed in place, row by row, the left cell of the row would die first
    // and the middle one would then stay alone.
    let framebuffer = grid_with(5, 3, &[(1, 1), (2, 1), (3, 1)]);
    let buffer = next_generation(&framebuffer, 5, 3);
    assert_eq!(rows(&buffer, 5), ["..#..", "..#..", "..#.."]);
}

#[test]
fn advance_puts_the_next_generation_in_place() {
    let mut framebuffer = grid_with(5, 5, &[(1, 2), (2, 2), (3, 2)]);
    let expected = next_generation(&framebuffer, 5, 5);
    advance(&mut framebuffer);
    assert_eq!(framebuffer.buffer(), &expected);
    assert_eq!(rows(framebuffer.buffer(), 5), [".....", "..#..", "..#..", "..#..", "....."]);
    assert_eq!(framebuffer.width(), 5);
    assert_eq!(framebuffer.height(), 5);
    assert_eq!(framebuffer.current_color(), LIVE);
    assert_eq!(framebuffer.background_color(), BLANK);
}

#[test]
fn replacing_the_buffer_by_hand_does_what_advance_does() {
    let mut by_hand = grid_with(6, 6, &[(1, 0), (2, 1), (0, 2), (1, 2), (2, 2)]);
    let mut stepped = grid_with(6, 6, &[(1, 0), (2, 1), (0, 2), (1, 2), (2, 2)]);
    for _ in 0..5 {
        let buffer = next_generation(&by_hand, 6, 6);
        by_hand.replace_buffer(buffer);
        advance(&mut stepped);
        assert_eq!(by_hand.buffer(), stepped.buffer());
    }
}

#[test]
fn frame_runs_while_the_display_is_open_and_the_exit_key_is_up() {
    let mut framebuffer = grid_with(5, 5, &[(1, 2), (2, 2), (3, 2)]);
    let expected = next_generation(&framebuffer, 5, 5);
    assert!(run_frame(&mut framebuffer, true, false));
    assert_eq!(framebuffer.buffer(), &expected);
}

#[test]
fn frame_stops_when_the_exit_key_is_down() {
    let mut framebuffer = grid_with(5, 5, &[(1, 2), (2, 2), (3, 2)]);
    let before = framebuffer.buffer().clone();
    assert!(!run_frame(&mut framebuffer, true, true));
    assert_eq!(framebuffer.buffer(), &before);
}

#[test]
fn frame_stops_when_the_display_is_closed() {
    let mut framebuffer = grid_with(5, 5, &[(1, 2), (2, 2), (3, 2)]);
    let before = framebuffer.buffer().clone();
    assert!(!run_frame(&mut framebuffer, false, false));
    assert_eq!(framebuffer.buffer(), &before);
    assert!(!run_frame(&mut framebuffer, false, true));
    assert_eq!(framebuffer.buffer(), &before);
}
