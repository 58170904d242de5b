use dense_matrix::matrix::Matrix;
use dense_matrix::render::layout;

fn texts(items: &[&str]) -> Vec<String> {
    let mut out = Vec::new();
    for item in items {
        out.push(String::from(*item));
    }
    out
}

#[test]
fn layout_of_two_by_two() {
    assert_eq!(layout(2, 2, &texts(&["a", "b", "c", "d"])), "[[a, b], [c, d]]");
}

#[test]
fn layout_of_nothing() {
    assert_eq!(layout(0, 0, &texts(&[])), "[]");
    assert_eq!(layout(0, 3, &texts(&[])), "[]");
}

#[test]
fn layout_of_rows_without_cells() {
    assert_eq!(layout(2, 0, &texts(&[])), "[[], []]");
}

#[test]
fn layout_of_one_cell() {
    assert_eq!(layout(1, 1, &texts(&["-4.0"])), "[[-4.0]]");
}

#[test]
fn layout_of_a_column_and_a_row() {
    assert_eq!(layout(2, 1, &texts(&["-4.0", "-2.0"])), "[[-4.0], [-2.0]]");
    assert_eq!(layout(1, 2, &texts(&["-4.0", "-2.0"])), "[[-4.0, -2.0]]");
}

#[test]
fn layout_keeps_texts_as_they_are() {
    assert_eq!(layout(1, 3, &texts(&["", "x, y", "[z]"])), "[[, x, y, [z]]]");
}

#[test]
fn render_words_scalars_with_debug() {
    let m = Matrix::from_rows(vec![vec![1i32, -2], vec![30, 4]]).unwrap();
    assert_eq!(m.render(), "[[1, -2], [30, 4]]");
    let z: Matrix<u8> = Matrix::new(1, 3);
    assert_eq!(z.render(), "[[0, 0, 0]]");
    let w: Matrix<u8> = Matrix::new(3, 0);
    assert_eq!(w.render(), "[[], [], []]");
}
