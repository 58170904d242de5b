use crate::matrix::Matrix;
use crate::scalar::Numeric;
use vstd::prelude::*;

verus! {

/// `String::push_str` of the standard library: the string afterwards is the
/// string before followed by the characters of `string`.
pub assume_specification[ String::push_str ](s: &mut String, string: &str)
    ensures
        final(s)@ == old(s)@ + string@,
;

/// The text that the standard `{:?}` formatting gives for `value`. Nothing
/// is claimed of it: each scalar type words itself as it sees fit.
#[verifier::external_body]
fn debug_text<T: core::fmt::Debug>(value: &T) -> (text: String) {
    format!("{:?}", value)
}

/// The separator between neighbours in a listing: a comma and a space.
pub open spec fn separator() -> Seq<char> {
    seq![',', ' ']
}

/// The first `n` of `parts`, with a separator between neighbours.
pub open spec fn joined(parts: Seq<Seq<char>>, n: int) -> Seq<char>
    decreases n,
{
    if n <= 0 {
        Seq::empty()
    } else if n == 1 {
        parts[0]
    } else {
        joined(parts, n - 1) + separator() + parts[n - 1]
    }
}

/// `inner` between square brackets.
pub open spec fn bracketed(inner: Seq<char>) -> Seq<char> {
    seq!['['] + inner + seq![']']
}

/// The texts of row `i`, where `texts` lists the cells row by row.
pub open spec fn row_texts(cols: nat, texts: Seq<Seq<char>>, i: int) -> Seq<Seq<char>> {
    texts.subrange(i * cols, i * cols + cols)
}

/// The listing of a matrix: its rows in brackets, separated, and the whole
/// in brackets; each row lists the texts of its cells, separated.
pub open spec fn rendering(rows: nat, cols: nat, texts: Seq<Seq<char>>) -> Seq<char> {
    bracketed(
        joined(
            Seq::new(rows, |i: int| bracketed(joined(row_texts(cols, texts, i), cols as int))),
            rows as int,
        ),
    )
}

/// The views of a list of strings.
pub open spec fn views_of(texts: Seq<String>) -> Seq<Seq<char>> {
    texts.map_values(|text: String| text@)
}

/// Lays out the texts of the cells of a `rows` by `cols` matrix, given row
/// by row, as a bracketed listing of bracketed rows.
pub fn layout(rows: usize, cols: usize, texts: &Vec<String>) -> (result: String)
    requires
        texts@.len() == rows * cols,
    ensures
        result@ == rendering(rows as nat, cols as nat, views_of(texts@)),
{
    let ghost cells = views_of(texts@);
    let ghost lines = Seq::new(
        rows as nat,
        |i: int| bracketed(joined(row_texts(cols as nat, cells, i), cols as int)),
    );
    let mut out = String::new();
    proof {
        reveal_strlit("[");
        reveal_strlit("]");
        reveal_strlit(", ");
    }
    out.push_str("[");
    for i in 0..rows
        invariant
            texts@.len() == rows * cols,
            cells == views_of(texts@),
            lines == Seq::new(
                rows as nat,
                |i: int| bracketed(joined(row_texts(cols as nat, cells, i), cols as int)),
            ),
            "["@ == seq!['['],
            "]"@ == seq![']'],
            ", "@ == separator(),
            out@ == seq!['['] + joined(lines, i as int),
    {
        let ghost before = out@;
        if i > 0 {
            out.push_str(", ");
        }
        out.push_str("[");
        let ghost start = out@;
        proof {
            crate::matrix::lemma_row_in_bounds(rows as int, cols as int, i as int);
        }
        for j in 0..cols
            invariant
                i < rows,
                texts@.len() == rows * cols,
                cells == views_of(texts@),
                0 <= i * cols,
                i * cols + cols <= rows * cols,
                ", "@ == separator(),
                out@ == start + joined(row_texts(cols as nat, cells, i as int), j as int),
        {
            if j > 0 {
                out.push_str(", ");
            }
            assert(texts@.len() == texts.len());
            let at: usize = i * cols + j;
            out.push_str(texts[at].as_str());
            proof {
                assert(row_texts(cols as nat, cells, i as int)[j as int] == texts@[at as int]@);
            }
        }
        out.push_str("]");
        proof {
            let line = lines[i as int];
            assert(out@ == before + (if i > 0 {
                separator()
            } else {
                Seq::empty()
            }) + line);
            assert(out@ == seq!['['] + joined(lines, i + 1));
        }
    }
    out.push_str("]");
    out
}

impl<T: Numeric + core::fmt::Debug> Matrix<T> {
    /// The listing of the matrix, such as `[[a, b], [c, d]]`, with each
    /// scalar worded by its own `{:?}` formatting.
    pub fn render(&self) -> (result: String)
        requires
            self.well_formed(),
        ensures
            exists|texts: Seq<Seq<char>>|
                texts.len() == self@.rows * self@.cols && result@ == #[trigger] rendering(
                    self@.rows,
                    self@.cols,
                    texts,
                ),
    {
        let (rows, cols) = self.size();
        let mut texts: Vec<String> = Vec::new();
        assert(texts@.len() == 0 * cols);
        for i in 0..rows
            invariant
                self.well_formed(),
                self@.rows == rows,
                self@.cols == cols,
                texts@.len() == i * cols,
        {
            for j in 0..cols
                invariant
                    self.well_formed(),
                    i < rows,
                    self@.rows == rows,
                    self@.cols == cols,
                    texts@.len() == i * cols + j,
            {
                texts.push(debug_text(&self[i][j]));
            }
            assert((i + 1) * cols == i * cols + cols) by (nonlinear_arith);
        }
        layout(rows, cols, &texts)
    }
}

} // verus!
