use biosim::hex_grid::Fraction;
use biosim::mesh::get_indices;
use biosim::render::{cell_color, cells_text, colors_of, hexel_color};
use biosim::transfer::{cells_to_words, words_to_cells};
use biosim::world::Cell;
use biosim::{WORLD_CELLS, WORLD_WIDTH};

#[test]
fn cell_colours() {
    assert_eq!(cell_color(Cell::Alive), (0, 0, 0, 255));
    assert_eq!(cell_color(Cell::Dead), (255, 255, 255, 255));
}

#[test]
fn rgba_image_has_four_bytes_per_cell() {
    let image = colors_of(&[Cell::Alive, Cell::Dead]);
    assert_eq!(image, vec![0, 0, 0, 255, 255, 255, 255, 255]);
    assert!(colors_of(&[]).is_empty());
}

#[test]
fn hexel_colour_on_and_off_grid() {
    let mut cells = vec![Cell::Dead; WORLD_CELLS];
    cells[256 * WORLD_WIDTH + 256] = Cell::Alive;
    let half = Fraction { num: 1, den: 2 };
    assert_eq!(hexel_color(&cells, half, half), (0, 0, 0, 255));
    let quarter = Fraction { num: 1, den: 4 };
    assert_eq!(hexel_color(&cells, quarter, quarter), (255, 255, 255, 255));
    let tiny = Fraction { num: 1, den: 1000 };
    assert_eq!(hexel_color(&cells, tiny, tiny), (0, 0, 0, 0));
}

#[test]
fn cell_text() {
    assert_eq!(Cell::Alive.to_string(), "#");
    assert_eq!(Cell::Dead.to_string(), "-");
    let cells = [Cell::Alive, Cell::Dead, Cell::Dead, Cell::Dead, Cell::Alive, Cell::Alive];
    assert_eq!(cells_text(&cells, 3), "#--\n-##");
    assert_eq!(cells_text(&cells, 6), "#---##");
    assert_eq!(cells_text(&cells, 2), "#-\n--\n##");
    assert_eq!(cells_text(&[], 4), "");
}

#[test]
fn words_round_trip() {
    let cells = vec![Cell::Dead, Cell::Alive, Cell::Alive, Cell::Dead];
    let words = cells_to_words(&cells);
    assert_eq!(words, vec![0, 1, 1, 0]);
    assert_eq!(words_to_cells(&words), Some(cells));
    assert_eq!(Cell::Alive.to_word(), 1);
    assert_eq!(Cell::from_word(0), Some(Cell::Dead));
    assert_eq!(Cell::from_word(1), Some(Cell::Alive));
}

#[test]
fn invalid_word_is_rejected() {
    assert_eq!(words_to_cells(&[0, 1, 2]), None);
    assert_eq!(Cell::from_word(7), None);
    assert_eq!(words_to_cells(&[]), Some(vec![]));
}

#[test]
fn mesh_indices_cover_each_hexagon_with_four_triangles() {
    let indices = get_indices();
    assert_eq!(indices.len(), 12 * WORLD_CELLS);
    assert_eq!(&indices[0..12], &[0, 1, 5, 1, 2, 5, 2, 4, 5, 2, 3, 4]);
    // second hexagon in order is cell (0, 1), whose vertices start at 6 * WIDTH
    let o = 6 * WORLD_WIDTH as u32;
    assert_eq!(&indices[12..24], &[o, o + 1, o + 5, o + 1, o + 2, o + 5, o + 2, o + 4, o + 5, o + 2, o + 3, o + 4]);
    // the hexagon of cell (1, 0) comes after a whole column
    let j = 12 * WORLD_WIDTH;
    assert_eq!(indices[j], 6);
}
