use eye_trigrams::catalog::TriangleCatalog;
use eye_trigrams::decoder::{decode_image, is_decode_method};
use eye_trigrams::direction::{Direction, Trigram};
use eye_trigrams::error::DecodeError;
use eye_trigrams::grid::{build_trigram_grid, locate_eye, message_of_grid, process_pupils, slot_for_ratio};
use eye_trigrams::raster::{classify_gaze, process_pixels, template_matches, Raster, Template};

fn bright(width: usize, height: usize) -> Vec<Vec<u8>> {
    vec![vec![255u8; width]; height]
}

fn raster(rows: Vec<Vec<u8>>) -> Raster {
    let width = rows[0].len();
    Raster::from_rows(width, rows).unwrap()
}

fn draw_anchor(rows: &mut Vec<Vec<u8>>, x: usize, y: usize) {
    for (i, j) in [(0, 3), (1, 2), (1, 4), (2, 1), (2, 5)] {
        rows[y + j][x + i] = 0;
    }
}

fn draw_iris(rows: &mut Vec<Vec<u8>>, x: usize, y: usize) {
    for (i, j) in [(1, 0), (0, 1), (1, 1), (2, 1), (1, 2)] {
        rows[y + j][x + i] = 0;
    }
}

#[test]
fn slot_boundaries_are_strict() {
    assert_eq!(slot_for_ratio(37, 100), 1);
    assert_eq!(slot_for_ratio(51, 100), 1);
    assert_eq!(slot_for_ratio(36, 100), 0);
    assert_eq!(slot_for_ratio(52, 100), 2);
}

#[test]
fn slots_across_a_tile() {
    let slots: Vec<usize> = (0..18).map(|r| slot_for_ratio(r, 18)).collect();
    assert_eq!(slots, vec![0, 0, 0, 0, 0, 0, 0, 1, 1, 1, 2, 2, 2, 2, 2, 2, 2, 2]);
}

#[test]
fn eye_at_left_padding_edge() {
    assert_eq!(locate_eye((3, 0)), Some((0, 0, 0)));
    assert_eq!(locate_eye((3 + 18 + 8, 14 * 2 + 5)), Some((2, 1, 1)));
    assert_eq!(locate_eye((3 + 17, 13)), Some((0, 0, 2)));
}

#[test]
fn eye_outside_message_is_rejected() {
    assert_eq!(locate_eye((2, 0)), None);
    assert_eq!(locate_eye((5, -1)), None);
    let img = raster(bright(4, 4));
    assert_eq!(process_pupils(vec![(4, 1), (2, 0)], &img), Err(DecodeError::EyeOutsideMessage));
}

#[test]
fn only_probe_below_dark_gives_down() {
    let mut rows = bright(9, 9);
    rows[4 + 2][4] = 0;
    let img = raster(rows);
    assert_eq!(classify_gaze(&img, 4, 4), Direction::Down);
}

#[test]
fn probe_cascade_order() {
    let mut rows = bright(9, 9);
    rows[2][5] = 0;
    rows[2][3] = 0;
    let img = raster(rows.clone());
    assert_eq!(classify_gaze(&img, 4, 4), Direction::Right);
    rows[2][4] = 0;
    let img = raster(rows.clone());
    assert_eq!(classify_gaze(&img, 4, 4), Direction::Up);
    rows[6][4] = 0;
    let img = raster(rows);
    assert_eq!(classify_gaze(&img, 4, 4), Direction::Down);
    let mut rows = bright(9, 9);
    rows[2][3] = 0;
    assert_eq!(classify_gaze(&raster(rows), 4, 4), Direction::Left);
    assert_eq!(classify_gaze(&raster(bright(9, 9)), 4, 4), Direction::Center);
    assert_eq!(classify_gaze(&raster(bright(9, 9)), 0, 0), Direction::Center);
}

#[test]
fn templates_match_only_their_pattern() {
    let mut rows = bright(12, 12);
    draw_anchor(&mut rows, 1, 2);
    draw_iris(&mut rows, 6, 3);
    let img = raster(rows);
    assert!(template_matches(&img, Template::Anchor, 1, 2));
    assert!(!template_matches(&img, Template::Anchor, 0, 2));
    assert!(template_matches(&img, Template::Iris, 6, 3));
    assert!(!template_matches(&img, Template::Iris, 6, 4));
    assert!(!template_matches(&img, Template::Iris, 10, 3));
}

#[test]
fn scan_without_anchor_keeps_image_coordinates() {
    let mut rows = bright(12, 12);
    draw_iris(&mut rows, 6, 3);
    draw_iris(&mut rows, 1, 8);
    let img = raster(rows);
    assert_eq!(process_pixels(&img), vec![(7, 4), (2, 9)]);
}

#[test]
fn scan_subtracts_first_anchor() {
    let mut rows = bright(30, 20);
    draw_anchor(&mut rows, 2, 1);
    draw_anchor(&mut rows, 20, 10);
    draw_iris(&mut rows, 10, 4);
    draw_iris(&mut rows, 6, 12);
    let img = raster(rows);
    assert_eq!(process_pixels(&img), vec![(9, 4), (5, 12)]);
}

#[test]
fn one_anchor_and_one_iris_give_one_cell() {
    let mut rows = bright(24, 16);
    draw_anchor(&mut rows, 0, 0);
    draw_iris(&mut rows, 5, 5);
    rows[8][6] = 0;
    let img = raster(rows);
    let eyes = process_pixels(&img);
    assert_eq!(eyes, vec![(6, 6)]);
    let grid = build_trigram_grid(&eyes, &img).unwrap();
    assert_eq!(grid.len(), 1);
    assert_eq!(grid[0].len(), 1);
    assert_eq!(
        grid[0][0],
        Trigram { first: Direction::Down, second: Direction::Center, third: Direction::Center }
    );
    assert_eq!(process_pupils(eyes, &img), Ok(vec![vec!["dcc".to_string()]]));
    let cat = TriangleCatalog::new();
    assert_eq!(decode_image(&img), Ok(vec![vec![cat.decode(100)]]));
}

#[test]
fn grid_grows_rows_and_columns() {
    let img = raster(bright(4, 4));
    let eyes = vec![(3 + 2 * 18 + 12, 14 + 1)];
    let grid = build_trigram_grid(&eyes, &img).unwrap();
    assert_eq!(grid.len(), 2);
    assert!(grid[0].is_empty());
    let message = message_of_grid(&grid);
    assert_eq!(message, vec![vec![], vec!["ccc".to_string(), "ccc".to_string(), "ccc".to_string()]]);
}

#[test]
fn later_eye_overwrites_same_slot() {
    let mut rows = bright(40, 20);
    rows[6][7] = 0;
    rows[2][11] = 0;
    let img = raster(rows);
    let out = process_pupils(vec![(4, 4), (7, 4)], &img).unwrap();
    assert_eq!(out, vec![vec!["dcc".to_string()]]);
    let out = process_pupils(vec![(7, 4), (4, 4)], &img).unwrap();
    assert_eq!(out, vec![vec!["ccc".to_string()]]);
    let out = process_pupils(vec![(7, 4), (3 + 18 + 14, 0)], &img).unwrap();
    assert_eq!(out, vec![vec!["dcc".to_string(), "ccc".to_string()]]);
    let out = process_pupils(vec![(7, 4), (3 + 8, 0)], &img).unwrap();
    assert_eq!(out, vec![vec!["ddc".to_string()]]);
}

#[test]
fn ragged_rows_are_refused() {
    assert!(Raster::from_rows(3, vec![vec![1, 2, 3], vec![1, 2]]).is_none());
    assert!(Raster::from_rows(2, vec![vec![1, 2], vec![1, 2]]).is_some());
}

#[test]
fn only_unique_triangles_is_a_method() {
    assert!(is_decode_method("unique_triangles"));
    assert!(!is_decode_method("unique_triangle"));
    assert!(!is_decode_method("other"));
}
