use vstd::prelude::*;

verus! {

/// The values carried by the `Some` entries of `s`, in their order: what a
/// render keeps of its per-pixel outcomes, a pixel without a ray leaving a
/// gap rather than a zero.
pub open spec fn present<T>(s: Seq<Option<T>>) -> Seq<T>
    decreases s.len(),
{
    if s.len() == 0 {
        Seq::empty()
    } else {
        let rest = present(s.drop_last());
        match s.last() {
            Some(v) => rest.push(v),
            None => rest,
        }
    }
}

/// Gathers the outcomes of a render, one per pixel in grid order: a pixel
/// for which the camera had a ray contributes its sample, one without is
/// skipped. Order is kept.
pub fn keep_present<T: Copy>(outcomes: &Vec<Option<T>>) -> (samples: Vec<T>)
    ensures
        samples@ == present(outcomes@),
{
    let mut samples: Vec<T> = Vec::new();
    let mut i: usize = 0;
    while i < outcomes.len()
        invariant
            i <= outcomes.len(),
            samples@ == present(outcomes@.subrange(0, i as int)),
        decreases outcomes.len() - i,
    {
        match outcomes[i] {
            Some(v) => samples.push(v),
            None => {},
        }
        assert(outcomes@.subrange(0, i + 1).drop_last() =~= outcomes@.subrange(0, i as int));
        i = i + 1;
    }
    assert(outcomes@.subrange(0, outcomes@.len() as int) =~= outcomes@);
    samples
}

/// A render in which the camera has a ray for no pixel yields no samples.
pub proof fn lemma_no_ray_no_sample<T>(outcomes: Seq<Option<T>>)
    requires
        forall|i: int| 0 <= i < outcomes.len() ==> (#[trigger] outcomes[i]) is None,
    ensures
        present(outcomes) =~= Seq::<T>::empty(),
    decreases outcomes.len(),
{
    if outcomes.len() > 0 {
        let rest = outcomes.drop_last();
        assert forall|i: int| 0 <= i < rest.len() implies (#[trigger] rest[i]) is None by {
            assert(rest[i] == outcomes[i]);
        }
        lemma_no_ray_no_sample(rest);
        assert(outcomes[outcomes.len() - 1] is None);
    }
}

/// Every sample of a render comes from some pixel that had one, and there
/// are never more samples than pixels.
pub proof fn lemma_samples_come_from_pixels<T>(outcomes: Seq<Option<T>>)
    ensures
        present(outcomes).len() <= outcomes.len(),
        forall|j: int|
            0 <= j < present(outcomes).len() ==> exists|i: int|
                0 <= i < outcomes.len() && #[trigger] outcomes[i] == Some(
                    #[trigger] present(outcomes)[j],
                ),
    decreases outcomes.len(),
{
    if outcomes.len() > 0 {
        let rest = outcomes.drop_last();
        lemma_samples_come_from_pixels(rest);
        let p = present(outcomes);
        assert forall|j: int| 0 <= j < p.len() implies exists|i: int|
            0 <= i < outcomes.len() && #[trigger] outcomes[i] == Some(#[trigger] p[j]) by {
            if j < present(rest).len() {
                assert(p[j] == present(rest)[j]);
                let i = choose|i: int|
                    0 <= i < rest.len() && #[trigger] rest[i] == Some(present(rest)[j]);
                assert(outcomes[i] == rest[i]);
            } else {
                assert(outcomes[outcomes.len() - 1] == Some(p[j]));
            }
        }
    }
}

} // verus!
