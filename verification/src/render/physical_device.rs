use vstd::prelude::*;

use crate::error::{NeuclidioError, RenderError};
use itertools::Itertools;
use std::cmp::Ordering;

verus! {

broadcast use vstd::seq_lib::group_to_multiset_ensures;

/// The Vulkan physical device type of an integrated GPU.
pub const PHYSICAL_DEVICE_TYPE_INTEGRATED_GPU: i32 = 1;

/// The Vulkan physical device type of a discrete GPU.
pub const PHYSICAL_DEVICE_TYPE_DISCRETE_GPU: i32 = 2;

/// The score of a device type: discrete GPUs first, then integrated ones, then the rest.
pub open spec fn device_rating(device_type: i32) -> u32 {
    if device_type == PHYSICAL_DEVICE_TYPE_DISCRETE_GPU {
        1000
    } else if device_type == PHYSICAL_DEVICE_TYPE_INTEGRATED_GPU {
        100
    } else {
        0
    }
}

/// The score of a physical device of the given type.
pub fn rate_physical_device(device_type: i32) -> (r: u32)
    ensures
        r == device_rating(device_type),
{
    let mut score: u32 = 0;
    if device_type == PHYSICAL_DEVICE_TYPE_DISCRETE_GPU {
        score += 1000;
    } else if device_type == PHYSICAL_DEVICE_TYPE_INTEGRATED_GPU {
        score += 100;
    }
    score
}

/// `i` is the first device with the highest score.
pub open spec fn is_first_best(device_types: Seq<i32>, i: int) -> bool {
    &&& 0 <= i < device_types.len()
    &&& forall|j: int|
        0 <= j < device_types.len() ==> device_rating(#[trigger] device_types[j]) <= device_rating(
            device_types[i],
        )
    &&& forall|j: int|
        0 <= j < i ==> device_rating(#[trigger] device_types[j]) < device_rating(device_types[i])
}

/// Orders rated devices by descending score.
fn compare_ratings_descending(a: &(u32, usize), b: &(u32, usize)) -> (o: Ordering)
    ensures
        (o == Ordering::Less) == (b.0 < a.0),
        (o == Ordering::Equal) == (a.0 == b.0),
        (o == Ordering::Greater) == (a.0 < b.0),
{
    if b.0 < a.0 {
        Ordering::Less
    } else if a.0 == b.0 {
        Ordering::Equal
    } else {
        Ordering::Greater
    }
}

/// Sorts rated devices by descending score with `Itertools::sorted_by`, a stable sort:
/// the result holds the same pairs, scores never increase along it, and pairs with equal
/// scores keep their input order.
#[verifier::external_body]
fn sort_by_rating_descending(rated: Vec<(u32, usize)>) -> (sorted: Vec<(u32, usize)>)
    ensures
        sorted@.to_multiset() == rated@.to_multiset(),
        forall|i: int, j: int| 0 <= i < j < sorted@.len() ==> #[trigger] sorted@[i].0 >= #[trigger] sorted@[j].0,
        forall|i: int, j: int|
            0 <= i < j < sorted@.len() && #[trigger] sorted@[i].0 == #[trigger] sorted@[j].0 ==> exists|p: int, q: int|
                0 <= p < q < rated@.len() && #[trigger] rated@[p] == sorted@[i] && #[trigger] rated@[q] == sorted@[j],
{
    rated.into_iter().sorted_by(|a, b| compare_ratings_descending(a, b)).collect()
}

/// Picks, among the viable devices (given by their device types, in enumeration order),
/// the first one with the highest score; fails with `NoSuitableDevice` when there is none.
pub fn pick_physical_device(device_types: &[i32]) -> (r: Result<usize, NeuclidioError>)
    ensures
        r is Err <==> device_types@.len() == 0,
        r is Err ==> r == Err::<usize, NeuclidioError>(NeuclidioError::RenderError(RenderError::NoSuitableDevice)),
        r is Ok ==> is_first_best(device_types@, r->Ok_0 as int),
{
    let mut rated: Vec<(u32, usize)> = Vec::new();
    let mut i: usize = 0;
    while i < device_types.len()
        invariant
            i <= device_types@.len(),
            rated@.len() == i,
            forall|j: int| 0 <= j < i ==> #[trigger] rated@[j] == (device_rating(device_types@[j]), j as usize),
        decreases device_types@.len() - i,
    {
        rated.push((rate_physical_device(device_types[i]), i));
        i = i + 1;
    }
    let ghost input = rated@;
    let sorted = sort_by_rating_descending(rated);
    if sorted.len() == 0 {
        proof {
            assert(input.to_multiset().len() == 0);
        }
        return Err(NeuclidioError::RenderError(RenderError::NoSuitableDevice));
    }
    let best = sorted[0];
    proof {
        let s = sorted@;
        assert(s[0] == best);
        assert(s.contains(best));
        assert(s.to_multiset().count(best) > 0);
        assert(input.to_multiset().count(best) > 0);
        assert(input.contains(best));
        let p = choose|p: int| 0 <= p < input.len() && input[p] == best;
        assert(best.1 == p);
        assert forall|j: int| 0 <= j < device_types@.len() implies device_rating(#[trigger] device_types@[j])
            <= device_rating(device_types@[best.1 as int]) by {
            assert(input[j] == (device_rating(device_types@[j]), j as usize));
            assert(input.contains(input[j]));
            assert(input.to_multiset().count(input[j]) > 0);
            assert(s.to_multiset().count(input[j]) > 0);
            assert(s.contains(input[j]));
            let q = choose|q: int| 0 <= q < s.len() && s[q] == input[j];
            if q > 0 {
                assert(s[0].0 >= s[q].0);
            }
        }
        assert forall|j: int| 0 <= j < best.1 implies device_rating(#[trigger] device_types@[j])
            < device_rating(device_types@[best.1 as int]) by {
            assert(input[j] == (device_rating(device_types@[j]), j as usize));
            assert(input.contains(input[j]));
            assert(input.to_multiset().count(input[j]) > 0);
            assert(s.to_multiset().count(input[j]) > 0);
            assert(s.contains(input[j]));
            let q = choose|q: int| 0 <= q < s.len() && s[q] == input[j];
            if q > 0 {
                assert(s[0].0 >= s[q].0);
                if s[0].0 == s[q].0 {
                    let (p1, q1) = choose|p1: int, q1: int|
                        0 <= p1 < q1 < input.len() && input[p1] == s[0] && input[q1] == s[q];
                    assert(input[p1].1 == p1);
                    assert(input[q1].1 == q1);
                }
            }
        }
    }
    Ok(best.1)
}

} // verus!
