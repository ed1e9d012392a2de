//! The whole pipeline on one image: scan, place, encode and classify.

use vstd::prelude::*;
use vstd::string::*;

use crate::catalog::{all_signatures, canonical_index, decode, first_failure, unique_signatures};
use crate::direction::{code_of, lemma_state_code_of_symbols, state_code, symbols_of};
use crate::error::DecodeError;
use crate::grid::{build_grid, eye_inside, locations_of, process_pupils};
use crate::raster::{eye_centers, process_pixels, Raster};

verus! {

/// Decodes one image: finds the anchor and the eyes, builds the trigram
/// grid and maps every trigram to the canonical index of its code. Fails
/// when an eye lies outside the message.
pub fn decode_image(img: &Raster) -> (r: Result<Vec<Vec<usize>>, DecodeError>)
    requires
        img.wf(),
    ensures
        r is Ok <==> (forall|k: int|
            0 <= k < eye_centers(img).len() ==> eye_inside(#[trigger] eye_centers(img)[k])),
        r matches Ok(g) ==> {
            let grid = build_grid(img, eye_centers(img));
            &&& g@.len() == grid.len()
            &&& forall|i: int| 0 <= i < g@.len() ==> (#[trigger] g@[i])@.len() == grid[i].len()
            &&& forall|i: int, j: int|
                0 <= i < g@.len() && 0 <= j < g@[i]@.len() ==> #[trigger] g@[i]@[j] as int
                    == canonical_index(code_of(grid[i][j]))
        },
        r matches Err(e) ==> e == DecodeError::EyeOutsideMessage,
{
    let eyes = process_pixels(img);
    let ghost centers = eye_centers(img);
    assert(locations_of(eyes@) =~= centers);
    let message = match process_pupils(eyes, img) {
        Ok(m) => m,
        Err(e) => {
            return Err(e);
        },
    };
    let ghost grid = build_grid(img, centers);
    let ghost m = message.deep_view();
    assert forall|i: int, j: int| 0 <= i < m.len() && 0 <= j < m[i].len() implies #[trigger] m[i][j]
        == symbols_of(grid[i][j]) && state_code(m[i][j])
        == Ok::<int, DecodeError>(code_of(grid[i][j])) by {
        lemma_state_code_of_symbols(grid[i][j]);
    }
    match decode(message) {
        Ok(g) => Ok(g),
        Err(e) => {
            proof {
                let (i, j) = choose|i: int, j: int|
                    first_failure(
                        m,
                        unique_signatures(),
                        all_signatures(),
                        i,
                        j,
                    ) && #[trigger] state_code(m[i][j]) == Err::<int, DecodeError>(e);
                assert(state_code(m[i][j]) is Ok);
            }
            Err(e)
        },
    }
}

/// The name of the one decoding method there is.
pub open spec fn unique_triangles_name() -> Seq<char> {
    seq!['u', 'n', 'i', 'q', 'u', 'e', '_', 't', 'r', 'i', 'a', 'n', 'g', 'l', 'e', 's']
}

/// Whether `name` names a known decoding method; only `"unique_triangles"`
/// does.
pub fn is_decode_method(name: &str) -> (r: bool)
    ensures
        r == (name@ == unique_triangles_name()),
{
    let known = "unique_triangles";
    proof {
        reveal_strlit("unique_triangles");
    }
    assert(known@ =~= unique_triangles_name());
    let n = name.unicode_len();
    if n != known.unicode_len() {
        return false;
    }
    let mut i: usize = 0;
    while i < n
        invariant
            n == name@.len(),
            n == known@.len(),
            known@ == unique_triangles_name(),
            i <= n,
            forall|k: int| 0 <= k < i ==> name@[k] == known@[k],
        decreases n - i,
    {
        if name.get_char(i) != known.get_char(i) {
            return false;
        }
        i = i + 1;
    }
    assert(name@ =~= known@);
    true
}

} // verus!
