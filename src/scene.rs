use vstd::prelude::*;

verus! {

/// A primitive of a scene: a closed variant over the two surfaces. What a
/// surface is made of, and how a ray meets it, belongs to the types `S` and `P`.
#[derive(Clone, Copy, Debug)]
pub enum Object<S, P> {
    Sphere(S),
    Plane(P),
}

/// The indices, in increasing order, of the objects that emit light, where
/// `emits[j]` says whether object `j` has an intensity above zero.
pub open spec fn lights_of(emits: Seq<bool>) -> Seq<usize>
    decreases emits.len(),
{
    if emits.len() == 0 {
        seq![]
    } else {
        let rest = lights_of(emits.drop_last());
        if emits.last() {
            rest.push((emits.len() - 1) as usize)
        } else {
            rest
        }
    }
}

/// The light subset of a scene's objects, as indices into the object list in
/// the order of that list.
pub fn light_indices(emits: &Vec<bool>) -> (r: Vec<usize>)
    ensures
        r@ == lights_of(emits@),
{
    let mut r: Vec<usize> = Vec::new();
    let mut i: usize = 0;
    while i < emits.len()
        invariant
            0 <= i <= emits.len(),
            r@ == lights_of(emits@.subrange(0, i as int)),
        decreases emits.len() - i,
    {
        assert(emits@.subrange(0, i as int + 1).drop_last() =~= emits@.subrange(0, i as int));
        if emits[i] {
            r.push(i);
        }
        i = i + 1;
    }
    assert(emits@.subrange(0, emits.len() as int) =~= emits@);
    r
}

/// Every index in the light subset names an emitting object, and every
/// emitting object is in it.
pub proof fn lemma_lights_are_emitters(emits: Seq<bool>)
    requires
        emits.len() <= usize::MAX,
    ensures
        forall|k: int| 0 <= k < lights_of(emits).len() ==>
            (lights_of(emits)[k] as int) < emits.len() && emits[lights_of(emits)[k] as int],
        forall|j: int| 0 <= j < emits.len() && emits[j] ==> lights_of(emits).contains(j as usize),
    decreases emits.len(),
{
    if emits.len() > 0 {
        let rest = emits.drop_last();
        lemma_lights_are_emitters(rest);
        assert forall|k: int| 0 <= k < lights_of(emits).len() implies
            (lights_of(emits)[k] as int) < emits.len() && emits[lights_of(emits)[k] as int] by {
            if k < lights_of(rest).len() {
                assert(rest[lights_of(rest)[k] as int] == emits[lights_of(rest)[k] as int]);
            }
        }
        assert forall|j: int| 0 <= j < emits.len() && emits[j] implies lights_of(emits).contains(j as usize) by {
            if j < emits.len() - 1 {
                assert(rest[j]);
                let k = choose|k: int| 0 <= k < lights_of(rest).len() && lights_of(rest)[k] == j as usize;
                assert(lights_of(emits)[k] == j as usize);
            } else {
                assert(lights_of(emits).last() == j as usize);
            }
        }
    }
}

} // verus!
