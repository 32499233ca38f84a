//! The table by which a tetrahedron is cut with the viewing hyperplane.
//!
//! Each of the four corners of a tetrahedron lies below the hyperplane, in
//! it or above it, which gives 81 cases. For each the table holds a strip
//! of seven points of the cut. A point of the cut is a corner in the
//! hyperplane, or the crossing of an edge from a corner above to a corner
//! below; either way it is a mix of two corners.

use vstd::prelude::*;
use itertools::Itertools;

verus! {

/// A corner below the hyperplane.
pub const BELOW: u8 = 0;

/// A corner in the hyperplane.
pub const INSIDE: u8 = 1;

/// A corner above the hyperplane.
pub const ABOVE: u8 = 2;

/// A point of the cut: between corners `a` and `b`; a corner itself where
/// the two are the same. Two words of padding fill the mix to sixteen bytes.
#[derive(Clone, Copy, Debug, PartialEq, Eq, Structural)]
pub struct Mix {
    pub a: u32,
    pub b: u32,
    pub p1: u32,
    pub p2: u32,
}

/// The corners among the first `n` that lie on side `side`, in rising
/// order.
pub open spec fn corners_on(sides: Seq<u8>, side: u8, n: nat) -> Seq<u32>
    decreases n,
{
    if n == 0 {
        seq![]
    } else {
        let before = corners_on(sides, side, (n - 1) as nat);
        if sides[n - 1] == side {
            before.push((n - 1) as u32)
        } else {
            before
        }
    }
}

/// The points of the cut: first the corners in the hyperplane, then the
/// crossings of the edges from each corner above to each corner below.
pub open spec fn cut_points(sides: Seq<u8>) -> Seq<Mix> {
    let inside = corners_on(sides, INSIDE, sides.len());
    let above = corners_on(sides, ABOVE, sides.len());
    let below = corners_on(sides, BELOW, sides.len());
    Seq::new(inside.len(), |i: int| Mix { a: inside[i], b: inside[i], p1: 0, p2: 0 }) + Seq::new(
        above.len() * below.len(),
        |i: int|
            Mix {
                a: above[i / below.len() as int],
                b: below[i % below.len() as int],
                p1: 0,
                p2: 0,
            },
    )
}

/// The strip that draws the cut.
///
/// Fewer than three points draw nothing, and the strip is seven times the
/// mix of corner 0 with itself. Otherwise the strip starts with the first
/// point twice, which parts it from the strip before, then the second and
/// third point. A triangle repeats its third point to the end. A quad adds
/// its fourth and repeats that, unless all four corners lie in the
/// hyperplane: then the whole tetrahedron shows, and the first and second
/// point follow the fourth.
pub open spec fn strip(points: Seq<Mix>, flat: bool) -> Seq<Mix> {
    let none = Mix { a: 0, b: 0, p1: 0, p2: 0 };
    if points.len() < 3 {
        seq![none, none, none, none, none, none, none]
    } else if points.len() == 3 {
        seq![points[0], points[0], points[1], points[2], points[2], points[2], points[2]]
    } else if points.len() == 4 {
        if flat {
            seq![points[0], points[0], points[1], points[2], points[3], points[0], points[1]]
        } else {
            seq![points[0], points[0], points[1], points[2], points[3], points[3], points[3]]
        }
    } else {
        seq![points[0], points[0], points[1], points[2], none, none, none]
    }
}

/// The row of the table for a tetrahedron whose corners lie on the given
/// sides.
pub open spec fn spec_mix_row(sides: Seq<u8>) -> Seq<Mix> {
    strip(cut_points(sides), corners_on(sides, INSIDE, sides.len()).len() == 4)
}

/// The sides of the four corners in case `case` of the 81: the digits of
/// `case` to base three, the first corner weighing most.
pub open spec fn case_sides(case: int) -> Seq<u8> {
    seq![
        ((case / 27) % 3) as u8,
        ((case / 9) % 3) as u8,
        ((case / 3) % 3) as u8,
        (case % 3) as u8,
    ]
}

/// The words of a row: `a`, `b` and the padding of each mix in turn.
pub open spec fn row_words(row: Seq<Mix>) -> Seq<u32> {
    Seq::new(
        4 * row.len(),
        |i: int|
            if i % 4 == 0 {
                row[i / 4].a
            } else if i % 4 == 1 {
                row[i / 4].b
            } else if i % 4 == 2 {
                row[i / 4].p1
            } else {
                row[i / 4].p2
            },
    )
}

/// The words of the whole table: the rows of the 81 cases in order, 28
/// words each.
pub open spec fn table_words() -> Seq<u32> {
    Seq::new(81 * 28, |k: int| row_words(spec_mix_row(case_sides(k / 28)))[k % 28])
}

/// 256 to the power `i`, for the four bytes of a word.
pub open spec fn byte_weight(i: int) -> int {
    if i == 0 {
        1
    } else if i == 1 {
        0x100
    } else if i == 2 {
        0x1_0000
    } else {
        0x100_0000
    }
}

/// The bytes of the words with the least significant byte of each first.
pub open spec fn little_endian(words: Seq<u32>) -> Seq<u8> {
    Seq::new(4 * words.len(), |i: int| ((words[i / 4] as int / byte_weight(i % 4)) % 256) as u8)
}

/// The bytes of the words with the most significant byte of each first.
pub open spec fn big_endian(words: Seq<u32>) -> Seq<u8> {
    Seq::new(4 * words.len(), |i: int| ((words[i / 4] as int / byte_weight(3 - i % 4)) % 256) as u8)
}

/// The bytes of the words as a machine holds them: in one of the two byte
/// orders.
pub open spec fn in_memory(bytes: Seq<u8>, words: Seq<u32>) -> bool {
    bytes == little_endian(words) || bytes == big_endian(words)
}

/// How many rows the product of lists of these lengths has.
pub open spec fn product_len(lens: Seq<nat>) -> nat
    decreases lens.len(),
{
    if lens.len() == 0 {
        1
    } else {
        lens[0] * product_len(lens.subrange(1, lens.len() as int))
    }
}

/// Which entry of list `j` row `k` of a product holds. The rows stand in
/// lexicographic order: the last list turns fastest.
pub open spec fn product_digit(lens: Seq<nat>, k: int, j: int) -> int {
    (k / product_len(lens.subrange(j + 1, lens.len() as int)) as int) % lens[j] as int
}

/// The lengths of the lists.
pub open spec fn lengths(lists: Seq<Vec<u8>>) -> Seq<nat> {
    Seq::new(lists.len(), |j: int| lists[j]@.len())
}

/// The cartesian product of the lists, by itertools'
/// `multi_cartesian_product`.
///
/// Trusted: for lists that are not empty, and at least one of them, the
/// rows are all the ways to take one entry from each list, in
/// lexicographic order with the last list turning fastest.
#[verifier::external_body]
fn cartesian_product(lists: &Vec<Vec<u8>>) -> (rows: Vec<Vec<u8>>)
    requires
        lists.len() > 0,
        forall|j: int| 0 <= j < lists.len() ==> (#[trigger] lists[j]).len() > 0,
        product_len(lengths(lists@)) <= usize::MAX,
    ensures
        rows@.len() == product_len(lengths(lists@)),
        forall|k: int|
            0 <= k < rows@.len() ==> (#[trigger] rows@[k])@.len() == lists@.len(),
        forall|k: int, j: int|
            0 <= k < rows@.len() && 0 <= j < lists@.len() ==> (#[trigger] rows@[k]@[j])
                == lists@[j]@[product_digit(lengths(lists@), k, j)],
{
    lists.iter().cloned().multi_cartesian_product().collect()
}

/// The bytes of the words as they lie in memory, by bytemuck's
/// `cast_slice`.
///
/// Trusted: there are four bytes for each word, the words in order, and
/// the bytes of all the words in the machine's byte order, which is one of
/// two.
#[verifier::external_body]
fn bytes_of_words(words: &Vec<u32>) -> (bytes: Vec<u8>)
    ensures
        in_memory(bytes@, words@),
{
    bytemuck::cast_slice::<u32, u8>(words).to_vec()
}

/// The corners that lie on side `side`, in rising order.
fn collect_corners(sides: &Vec<u8>, side: u8) -> (r: Vec<u32>)
    requires
        sides.len() == 4,
    ensures
        r@ == corners_on(sides@, side, 4),
        r@.len() <= 4,
        forall|i: int| 0 <= i < r@.len() ==> (#[trigger] r@[i]) < 4,
{
    let mut r: Vec<u32> = Vec::new();
    let mut j: usize = 0;
    while j < 4
        invariant
            j <= 4,
            sides.len() == 4,
            r@ == corners_on(sides@, side, j as nat),
            r@.len() <= j,
            forall|i: int| 0 <= i < r@.len() ==> (#[trigger] r@[i]) < 4,
        decreases 4 - j,
    {
        if sides[j] == side {
            r.push(j as u32);
        }
        j += 1;
    }
    r
}

/// The row of the table for a tetrahedron whose four corners lie on the
/// given sides of the hyperplane.
pub fn mix_row(sides: &Vec<u8>) -> (row: Vec<Mix>)
    requires
        sides.len() == 4,
    ensures
        row@ == spec_mix_row(sides@),
        row@.len() == 7,
        forall|i: int| 0 <= i < 7 ==> (#[trigger] row@[i]).a < 4 && row@[i].b < 4,
{
    let inside = collect_corners(sides, INSIDE);
    let above = collect_corners(sides, ABOVE);
    let below = collect_corners(sides, BELOW);
    let ghost crossings = Seq::new(
        above@.len() * below@.len(),
        |i: int|
            Mix {
                a: above@[i / below@.len() as int],
                b: below@[i % below@.len() as int],
                p1: 0,
                p2: 0,
            },
    );
    let ghost corners = Seq::new(
        inside@.len(),
        |i: int| Mix { a: inside@[i], b: inside@[i], p1: 0, p2: 0 },
    );

    let mut points: Vec<Mix> = Vec::new();
    let mut i: usize = 0;
    while i < inside.len()
        invariant
            i <= inside.len(),
            points@ == corners.subrange(0, i as int),
            corners == Seq::new(
                inside@.len(),
                |i: int| Mix { a: inside@[i], b: inside@[i], p1: 0, p2: 0 },
            ),
        decreases inside.len() - i,
    {
        points.push(Mix { a: inside[i], b: inside[i], p1: 0, p2: 0 });
        i += 1;
        assert(points@ =~= corners.subrange(0, i as int));
    }
    assert(points@ =~= corners);
    let mut u: usize = 0;
    while u < above.len()
        invariant
            u <= above.len(),
            above@.len() <= 4,
            below@.len() <= 4,
            points@ == corners + crossings.subrange(0, u * below@.len()),
            crossings == Seq::new(
                above@.len() * below@.len(),
                |i: int|
                    Mix {
                        a: above@[i / below@.len() as int],
                        b: below@[i % below@.len() as int],
                        p1: 0,
                        p2: 0,
                    },
            ),
        decreases above.len() - u,
    {
        let mut d: usize = 0;
        while d < below.len()
            invariant
                d <= below.len(),
                u < above.len(),
                above@.len() <= 4,
                below@.len() <= 4,
                points@ == corners + crossings.subrange(0, u * below@.len() + d),
                crossings == Seq::new(
                    above@.len() * below@.len(),
                    |i: int|
                        Mix {
                            a: above@[i / below@.len() as int],
                            b: below@[i % below@.len() as int],
                            p1: 0,
                            p2: 0,
                        },
                ),
            decreases below.len() - d,
        {
            proof {
                let nb = below@.len() as int;
                let na = above@.len() as int;
                let at = u * nb + d;
                assert(at < na * nb && at / nb == u && at % nb == d) by (nonlinear_arith)
                    requires
                        at == u * nb + d,
                        0 <= d,
                        d < nb,
                        0 <= u,
                        u < na,
                ;
            }
            points.push(Mix { a: above[u], b: below[d], p1: 0, p2: 0 });
            d += 1;
            assert(points@ =~= corners + crossings.subrange(0, u * below@.len() + d));
        }
        assert(u * below@.len() + below@.len() == (u + 1) * below@.len()) by (nonlinear_arith);
        u += 1;
    }
    assert(points@ =~= corners + crossings);
    assert(points@ == cut_points(sides@));

    let none = Mix { a: 0, b: 0, p1: 0, p2: 0 };
    let mut row: Vec<Mix> = Vec::new();
    let n = points.len();
    if n < 3 {
        row.push(none);
        row.push(none);
        row.push(none);
        row.push(none);
        row.push(none);
        row.push(none);
        row.push(none);
    } else {
        row.push(points[0]);
        row.push(points[0]);
        row.push(points[1]);
        row.push(points[2]);
        if n == 3 {
            row.push(points[2]);
            row.push(points[2]);
            row.push(points[2]);
        } else if n == 4 {
            row.push(points[3]);
            if inside.len() == 4 {
                row.push(points[0]);
                row.push(points[1]);
            } else {
                row.push(points[3]);
                row.push(points[3]);
            }
        } else {
            row.push(none);
            row.push(none);
            row.push(none);
        }
    }
    assert(row@ =~= spec_mix_row(sides@));
    proof {
        lemma_mix_row(sides@);
    }
    row
}

/// Puts the words of a row of seven mixes behind `words`.
fn push_row(words: &mut Vec<u32>, row: &Vec<Mix>)
    requires
        row@.len() == 7,
    ensures
        final(words)@ == old(words)@ + row_words(row@),
{
    let ghost before = words@;
    let mut i: usize = 0;
    while i < 7
        invariant
            i <= 7,
            row@.len() == 7,
            words@.len() == before.len() + 4 * i,
            forall|k: int| 0 <= k < before.len() ==> (#[trigger] words@[k]) == before[k],
            forall|k: int|
                before.len() <= k < before.len() + 4 * i ==> (#[trigger] words@[k]) == row_words(
                    row@,
                )[k - before.len()],
        decreases 7 - i,
    {
        let mix = row[i];
        words.push(mix.a);
        words.push(mix.b);
        words.push(mix.p1);
        words.push(mix.p2);
        i += 1;
    }
    assert(words@ =~= before + row_words(row@));
}

/// The corners on a side are corners: there are no more of them than were
/// looked at, and each is one of those.
pub proof fn lemma_corners(sides: Seq<u8>, side: u8, n: nat)
    requires
        n <= 4,
    ensures
        corners_on(sides, side, n).len() <= n,
        forall|i: int|
            0 <= i < corners_on(sides, side, n).len() ==> (#[trigger] corners_on(sides, side, n)[i])
                < n,
    decreases n,
{
    if n > 0 {
        lemma_corners(sides, side, (n - 1) as nat);
    }
}

/// Every row of the table is a strip of seven mixes of corners of the
/// tetrahedron, with no padding set.
pub proof fn lemma_mix_row(sides: Seq<u8>)
    requires
        sides.len() == 4,
    ensures
        spec_mix_row(sides).len() == 7,
        forall|i: int|
            0 <= i < 7 ==> {
                &&& (#[trigger] spec_mix_row(sides)[i]).a < 4
                &&& spec_mix_row(sides)[i].b < 4
                &&& spec_mix_row(sides)[i].p1 == 0
                &&& spec_mix_row(sides)[i].p2 == 0
            },
{
    let inside = corners_on(sides, INSIDE, 4);
    let above = corners_on(sides, ABOVE, 4);
    let below = corners_on(sides, BELOW, 4);
    lemma_corners(sides, INSIDE, 4);
    lemma_corners(sides, ABOVE, 4);
    lemma_corners(sides, BELOW, 4);
    let points = cut_points(sides);
    assert forall|p: int| 0 <= p < points.len() implies {
        &&& (#[trigger] points[p]).a < 4
        &&& points[p].b < 4
        &&& points[p].p1 == 0
        &&& points[p].p2 == 0
    } by {
        if p >= inside.len() {
            let q = p - inside.len();
            let nb = below.len() as int;
            let na = above.len() as int;
            assert(0 <= q / nb && q / nb <= na - 1 && 0 <= q % nb && q % nb < nb)
                by (nonlinear_arith)
                requires
                    0 <= q,
                    q < na * nb,
                    0 <= na,
                    0 <= nb,
            ;
        }
    }
}

/// Every word of the table is a corner or padding: the first two words of
/// a mix are below four and the last two are zero. The row of the case
/// with all corners below is all zero.
pub proof fn lemma_table_words(k: int)
    requires
        0 <= k < 81 * 28,
    ensures
        table_words()[k] < 4,
        k % 4 >= 2 ==> table_words()[k] == 0,
        k < 28 ==> table_words()[k] == 0,
{
    let sides = case_sides(k / 28);
    lemma_mix_row(sides);
    let row = spec_mix_row(sides);
    let at = k % 28;
    assert(table_words()[k] == row_words(row)[at]);
    assert(0 <= at / 4 < 7);
    assert(row[at / 4].a < 4);
    assert(at % 4 == k % 4);
    if k < 28 {
        assert(sides =~= seq![BELOW, BELOW, BELOW, BELOW]);
        reveal_with_fuel(corners_on, 5);
        let inside = corners_on(sides, INSIDE, 4);
        let above = corners_on(sides, ABOVE, 4);
        let below = corners_on(sides, BELOW, 4);
        assert(inside.len() == 0);
        assert(above.len() == 0);
        assert(above.len() * below.len() == 0) by (nonlinear_arith)
            requires
                above.len() == 0,
        ;
        assert(cut_points(sides).len() == 0);
        assert(row[at / 4] == Mix { a: 0, b: 0, p1: 0, p2: 0 });
    }
}

/// A byte of a word below four is below four, and zero if the word is.
proof fn lemma_small_word(word: u32, place: int)
    requires
        word < 4,
        0 <= place < 4,
    ensures
        0 <= (word as int / byte_weight(place)) % 256 < 4,
        word == 0 ==> (word as int / byte_weight(place)) % 256 == 0,
{
}

/// What the bytes of the table hold in either byte order: the last eight
/// bytes of every mix are zero, no byte is as great as four, and the first
/// row is all zero.
pub proof fn lemma_table_bytes(bytes: Seq<u8>)
    requires
        in_memory(bytes, table_words()),
    ensures
        bytes.len() == 81 * 112,
        forall|i: int| 0 <= i < bytes.len() ==> (#[trigger] bytes[i]) < 4,
        forall|i: int| 0 <= i < bytes.len() && i % 16 >= 8 ==> (#[trigger] bytes[i]) == 0,
        forall|i: int| 0 <= i < 112 ==> (#[trigger] bytes[i]) == 0,
{
    let words = table_words();
    assert(bytes.len() == 4 * words.len());
    assert forall|i: int| 0 <= i < bytes.len() implies {
        &&& (#[trigger] bytes[i]) < 4
        &&& i % 16 >= 8 ==> bytes[i] == 0
        &&& i < 112 ==> bytes[i] == 0
    } by {
        let k = i / 4;
        let word = words[k];
        lemma_table_words(k);
        lemma_small_word(word, i % 4);
        lemma_small_word(word, 3 - i % 4);
        assert(i % 16 >= 8 ==> k % 4 >= 2);
        assert(i < 112 ==> k < 28);
        if bytes == little_endian(words) {
            assert(bytes[i] == ((word as int / byte_weight(i % 4)) % 256) as u8);
        } else {
            assert(bytes == big_endian(words));
            assert(bytes[i] == ((word as int / byte_weight(3 - i % 4)) % 256) as u8);
        }
    }
}

/// The product of lists of three, unfolded.
proof fn lemma_product_of_threes(lens: Seq<nat>)
    requires
        lens.len() <= 4,
        forall|j: int| 0 <= j < lens.len() ==> lens[j] == 3,
    ensures
        lens.len() == 0 ==> product_len(lens) == 1,
        lens.len() == 1 ==> product_len(lens) == 3,
        lens.len() == 2 ==> product_len(lens) == 9,
        lens.len() == 3 ==> product_len(lens) == 27,
        lens.len() == 4 ==> product_len(lens) == 81,
    decreases lens.len(),
{
    if lens.len() > 0 {
        lemma_product_of_threes(lens.subrange(1, lens.len() as int));
    }
}

/// The words of the whole table.
pub fn mixtable_words() -> (words: Vec<u32>)
    ensures
        words@ == table_words(),
{
    let mut lists: Vec<Vec<u8>> = Vec::new();
    let mut n: usize = 0;
    while n < 4
        invariant
            n <= 4,
            lists@.len() == n,
            forall|j: int| 0 <= j < n ==> (#[trigger] lists@[j])@ == seq![BELOW, INSIDE, ABOVE],
        decreases 4 - n,
    {
        let mut sides: Vec<u8> = Vec::new();
        sides.push(BELOW);
        sides.push(INSIDE);
        sides.push(ABOVE);
        assert(sides@ =~= seq![BELOW, INSIDE, ABOVE]);
        lists.push(sides);
        n += 1;
    }
    let ghost lens = lengths(lists@);
    proof {
        lemma_product_of_threes(lens);
        lemma_product_of_threes(lens.subrange(1, 4));
        lemma_product_of_threes(lens.subrange(2, 4));
        lemma_product_of_threes(lens.subrange(3, 4));
        lemma_product_of_threes(lens.subrange(4, 4));
    }
    let cases = cartesian_product(&lists);
    let mut words: Vec<u32> = Vec::new();
    let mut case: usize = 0;
    while case < 81
        invariant
            case <= 81,
            cases@.len() == 81,
            lists@.len() == 4,
            lens == lengths(lists@),
            forall|j: int| 0 <= j < 4 ==> (#[trigger] lists@[j])@ == seq![BELOW, INSIDE, ABOVE],
            product_len(lens.subrange(1, 4)) == 27,
            product_len(lens.subrange(2, 4)) == 9,
            product_len(lens.subrange(3, 4)) == 3,
            product_len(lens.subrange(4, 4)) == 1,
            forall|k: int| 0 <= k < 81 ==> (#[trigger] cases@[k])@.len() == 4,
            forall|k: int, j: int|
                0 <= k < 81 && 0 <= j < 4 ==> (#[trigger] cases@[k]@[j])
                    == lists@[j]@[product_digit(lens, k, j)],
            words@.len() == 28 * case,
            forall|k: int| 0 <= k < 28 * case ==> (#[trigger] words@[k]) == table_words()[k],
        decreases 81 - case,
    {
        let sides = &cases[case];
        proof {
            let k = case as int;
            assert forall|j: int| 0 <= j < 4 implies #[trigger] lens[j] == 3 by {
                assert(lists@[j]@ == seq![BELOW, INSIDE, ABOVE]);
            }
            assert(product_digit(lens, k, 0) == (k / 27) % 3);
            assert(product_digit(lens, k, 1) == (k / 9) % 3);
            assert(product_digit(lens, k, 2) == (k / 3) % 3);
            assert(product_digit(lens, k, 3) == k % 3) by {
                assert(product_len(lens.subrange(4, lens.len() as int)) == 1);
                assert(k / 1 == k);
            }
            assert(cases@[k]@[0] == lists@[0]@[(k / 27) % 3]);
            assert(cases@[k]@[1] == lists@[1]@[(k / 9) % 3]);
            assert(cases@[k]@[2] == lists@[2]@[(k / 3) % 3]);
            assert(cases@[k]@[3] == lists@[3]@[k % 3]);
            assert(cases@[k]@.len() == 4);
            assert(sides@ =~= case_sides(k));
        }
        let row = mix_row(sides);
        let ghost before = words@;
        push_row(&mut words, &row);
        proof {
            assert(row_words(row@).len() == 28);
            assert forall|k: int| 0 <= k < 28 * (case + 1) implies (#[trigger] words@[k])
                == table_words()[k] by {
                if k >= 28 * case {
                    assert(k / 28 == case && k % 28 == k - 28 * case);
                    assert(words@[k] == row_words(row@)[k - 28 * case]);
                } else {
                    assert(words@[k] == before[k]);
                }
            }
        }
        case += 1;
    }
    assert(words@ =~= table_words());
    words
}

/// The whole table as the bytes that a shader's uniform buffer takes: the
/// words of the table as they lie in memory, all in the one byte order of
/// the machine.
pub fn mixtable_bytes() -> (bytes: Vec<u8>)
    ensures
        bytes@.len() == 81 * 112,
        in_memory(bytes@, table_words()),
        forall|i: int| 0 <= i < bytes@.len() ==> (#[trigger] bytes@[i]) < 4,
        forall|i: int| 0 <= i < bytes@.len() && i % 16 >= 8 ==> (#[trigger] bytes@[i]) == 0,
        forall|i: int| 0 <= i < 112 ==> (#[trigger] bytes@[i]) == 0,
{
    let words = mixtable_words();
    let bytes = bytes_of_words(&words);
    proof {
        lemma_table_bytes(bytes@);
    }
    bytes
}

} // verus!
