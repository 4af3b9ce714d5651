use vstd::prelude::*;

verus! {

/// The pin that a message on `topic` drives: the pin of the first output
/// binding whose topic equals `topic` exactly, or `None` when no binding has it.
pub open spec fn pin_for_topic(outputs: Seq<(usize, String)>, topic: Seq<char>) -> Option<usize>
    decreases outputs.len(),
{
    if outputs.len() == 0 {
        None
    } else if outputs[0].1@ == topic {
        Some(outputs[0].0)
    } else {
        pin_for_topic(outputs.drop_first(), topic)
    }
}

/// Finds the output pin that a message on `topic` is meant for.
pub fn find_output_pin(outputs: &Vec<(usize, String)>, topic: &String) -> (r: Option<usize>)
    ensures
        r == pin_for_topic(outputs@, topic@),
        r is None <==> forall|i: int| 0 <= i < outputs@.len() ==> (#[trigger] outputs@[i]).1@ != topic@,
{
    let mut i: usize = 0;
    assert(outputs@.skip(0) =~= outputs@);
    while i < outputs.len()
        invariant
            i <= outputs@.len(),
            pin_for_topic(outputs@, topic@) == pin_for_topic(outputs@.skip(i as int), topic@),
            forall|j: int| 0 <= j < i ==> (#[trigger] outputs@[j]).1@ != topic@,
        decreases outputs@.len() - i,
    {
        assert(outputs@.skip(i as int + 1) =~= outputs@.skip(i as int).drop_first());
        if outputs[i].1 == *topic {
            return Some(outputs[i].0);
        }
        i = i + 1;
    }
    None
}

} // verus!
