use vstd::prelude::*;
use crate::color::{Color, ColorError};
use crate::distance::Distance;
use crate::palette::Palette;

verus! {

/// The palette entry chosen for a colour, and how far it lies from it.
#[derive(Clone, Copy, Debug, PartialEq, Eq, Structural)]
pub struct MatchResult {
    pub color: Color,
    pub distance: Distance,
}

/// Whether position `i` holds the least of the distances and no earlier
/// position holds one as small.
pub open spec fn is_first_minimum(distances: Seq<Distance>, i: int) -> bool {
    &&& 0 <= i < distances.len()
    &&& forall|j: int| 0 <= j < distances.len() ==> distances[i]@ <= (#[trigger] distances[j])@
    &&& forall|j: int| 0 <= j < i ==> distances[i]@ < (#[trigger] distances[j])@
}

/// The first position that holds the least distance.
pub open spec fn first_minimum(distances: Seq<Distance>) -> int {
    choose|i: int| is_first_minimum(distances, i)
}

/// The match for a colour whose distance to each palette entry is given:
/// the entry nearest to it, and of several equally near the first.
pub open spec fn best_match(palette: Seq<Color>, distances: Seq<Distance>) -> MatchResult {
    MatchResult {
        color: palette[first_minimum(distances)],
        distance: distances[first_minimum(distances)],
    }
}

/// At most one position is the first minimum.
pub proof fn lemma_first_minimum_unique(distances: Seq<Distance>, i: int, j: int)
    requires
        is_first_minimum(distances, i),
        is_first_minimum(distances, j),
    ensures
        i == j,
{
    if i < j {
        assert(distances[j]@ < distances[i]@);
        assert(distances[i]@ <= distances[j]@);
    } else if j < i {
        assert(distances[i]@ < distances[j]@);
        assert(distances[j]@ <= distances[i]@);
    }
}

/// A position known to be the first minimum is the one that the match uses.
pub proof fn lemma_first_minimum_is(distances: Seq<Distance>, i: int)
    requires
        is_first_minimum(distances, i),
    ensures
        first_minimum(distances) == i,
{
    lemma_first_minimum_unique(distances, i, first_minimum(distances));
}

/// Every list of distances that is not empty has a first minimum.
pub proof fn lemma_first_minimum_exists(distances: Seq<Distance>)
    requires
        distances.len() > 0,
    ensures
        is_first_minimum(distances, first_minimum(distances)),
    decreases distances.len(),
{
    if distances.len() == 1 {
        assert(is_first_minimum(distances, 0));
    } else {
        let earlier = distances.drop_last();
        let last = distances.len() - 1;
        lemma_first_minimum_exists(earlier);
        let k = first_minimum(earlier);
        assert forall|j: int| 0 <= j < earlier.len() implies earlier[j] == distances[j] by {}
        if distances[last]@ < distances[k]@ {
            assert forall|j: int| 0 <= j < distances.len() implies distances[last]@ <= (
            #[trigger] distances[j])@ by {
                if j < last {
                    assert(earlier[k]@ <= earlier[j]@);
                }
            }
            assert(is_first_minimum(distances, last));
        } else {
            assert forall|j: int| 0 <= j < distances.len() implies distances[k]@ <= (
            #[trigger] distances[j])@ by {
                if j < last {
                    assert(earlier[k]@ <= earlier[j]@);
                }
            }
            assert forall|j: int| 0 <= j < k implies distances[k]@ < (#[trigger] distances[j])@ by {
                assert(earlier[k]@ < earlier[j]@);
            }
            assert(is_first_minimum(distances, k));
        }
    }
}

/// The match is an entry of the palette, and no entry lies nearer than it.
pub proof fn lemma_best_match_is_nearest(palette: Seq<Color>, distances: Seq<Distance>)
    requires
        distances.len() == palette.len(),
        palette.len() > 0,
    ensures
        palette.contains(best_match(palette, distances).color),
        forall|i: int|
            0 <= i < distances.len() ==> best_match(palette, distances).distance@ <= (
            #[trigger] distances[i])@,
{
    lemma_first_minimum_exists(distances);
    assert(palette[first_minimum(distances)] == best_match(palette, distances).color);
}

/// Finds the palette entry nearest to a colour, given the distance of that
/// colour to each entry, position by position. Of several entries at the
/// least distance the first in palette order is chosen. A palette without
/// entries has no match.
pub fn find_closest_color(palette: &Palette, distances: &Vec<Distance>) -> (found: Result<
    MatchResult,
    ColorError,
>)
    requires
        distances@.len() == palette@.len(),
    ensures
        palette@.len() == 0 ==> found == Err::<MatchResult, ColorError>(ColorError::EmptyPalette),
        palette@.len() > 0 ==> found == Ok::<MatchResult, ColorError>(
            best_match(palette@, distances@),
        ),
{
    let colors = palette.colors();
    let n: usize = colors.len();
    if n == 0 {
        return Err(ColorError::EmptyPalette);
    }
    let mut best: usize = 0;
    let mut i: usize = 1;
    while i < n
        invariant
            1 <= i <= n,
            n == distances@.len(),
            best < i,
            forall|j: int| 0 <= j < i ==> distances@[best as int]@ <= (#[trigger] distances@[j])@,
            forall|j: int| 0 <= j < best ==> distances@[best as int]@ < (#[trigger] distances@[j])@,
        decreases n - i,
    {
        if distances[i].is_below(&distances[best]) {
            best = i;
        }
        i += 1;
    }
    proof {
        lemma_first_minimum_is(distances@, best as int);
    }
    Ok(MatchResult { color: colors[best], distance: distances[best] })
}

/// The first palette entry at distance zero is the match, at distance zero.
/// Where the distance is zero for the colour asked for and for no other, the
/// match is that colour itself, and it is taken from the first place at which
/// the palette holds it.
pub proof fn lemma_exact_entry_wins(
    palette: Seq<Color>,
    distances: Seq<Distance>,
    query: Color,
    k: int,
)
    requires
        distances.len() == palette.len(),
        0 <= k < palette.len(),
        palette[k] == query,
        forall|i: int| 0 <= i < palette.len() && palette[i] == query ==> (#[trigger] distances[i])@ == 0,
    ensures
        best_match(palette, distances).distance@ == 0,
        0 <= first_minimum(distances) <= k,
        forall|j: int| 0 <= j < first_minimum(distances) ==> (#[trigger] distances[j])@ > 0,
        (forall|i: int| 0 <= i < palette.len() && (#[trigger] distances[i])@ == 0 ==> palette[i] == query)
            ==> {
            &&& best_match(palette, distances).color == query
            &&& forall|j: int| 0 <= j < first_minimum(distances) ==> #[trigger] palette[j] != query
        },
{
    lemma_first_minimum_exists(distances);
    let m = first_minimum(distances);
    assert(distances[k]@ == 0);
    assert(distances[m]@ <= distances[k]@);
    if k < m {
        assert(distances[m]@ < distances[k]@);
    }
    assert forall|j: int| 0 <= j < m implies (#[trigger] distances[j])@ > 0 by {
        assert(distances[m]@ < distances[j]@);
    }
    if forall|i: int| 0 <= i < palette.len() && (#[trigger] distances[i])@ == 0 ==> palette[i] == query {
        assert(distances[m]@ == 0);
        assert forall|j: int| 0 <= j < m implies #[trigger] palette[j] != query by {
            if palette[j] == query {
                assert(distances[j]@ == 0);
            }
        }
    }
}

} // verus!
