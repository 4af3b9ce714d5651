use crate::util::string_views;
use vstd::prelude::*;

verus! {

/// Number of pins on one expander chip.
pub const PIN_COUNT: usize = 16;

/// Bit `pin` of `mask` is set: the pin is configured as an input.
pub open spec fn pin_is_input(mask: u16, pin: int) -> bool {
    0 <= pin < 16 && (mask >> (pin as u16)) & 1u16 == 1u16
}

/// The value of pin `pin` in a register reading: bit set means logic high.
pub open spec fn pin_level(reading: u16, pin: int) -> bool {
    pin_is_input(reading, pin)
}

/// A list of pin bindings `(pin, topic)` viewed as mathematical pairs.
pub open spec fn binding_views(b: Seq<(usize, String)>) -> Seq<(int, Seq<char>)> {
    b.map_values(|p: (usize, String)| (p.0 as int, p.1@))
}

/// The bindings, in pin order, of the pins below `n` whose topic slot is not
/// empty and whose direction in `mask` is input exactly when `input` holds.
pub open spec fn bound_pins(mask: u16, topics: Seq<Seq<char>>, input: bool, n: int) -> Seq<
    (int, Seq<char>),
>
    decreases n,
{
    if n <= 0 {
        seq![]
    } else {
        let prev = bound_pins(mask, topics, input, n - 1);
        if topics[n - 1].len() > 0 && pin_is_input(mask, n - 1) == input {
            prev.push((n - 1, topics[n - 1]))
        } else {
            prev
        }
    }
}

/// The output bindings of a chip: non-empty topic slots whose mask bit is clear.
pub open spec fn output_bindings(mask: u16, topics: Seq<Seq<char>>) -> Seq<(int, Seq<char>)> {
    bound_pins(mask, topics, false, 16)
}

/// The input bindings of a chip: non-empty topic slots whose mask bit is set.
pub open spec fn input_bindings(mask: u16, topics: Seq<Seq<char>>) -> Seq<(int, Seq<char>)> {
    bound_pins(mask, topics, true, 16)
}

/// What `bound_pins` holds below `n`: each binding names a pin below `n` with
/// its own topic, and a pin with its topic is present exactly when its slot is
/// non-empty and its direction matches.
proof fn lemma_bound_pins(mask: u16, topics: Seq<Seq<char>>, input: bool, n: int)
    requires
        0 <= n <= topics.len(),
    ensures
        forall|i: int|
            0 <= i < bound_pins(mask, topics, input, n).len() ==> {
                let b = #[trigger] bound_pins(mask, topics, input, n)[i];
                &&& 0 <= b.0 < n
                &&& b.1 == topics[b.0]
                &&& topics[b.0].len() > 0
                &&& pin_is_input(mask, b.0) == input
            },
        forall|p: int|
            0 <= p < n ==> (#[trigger] bound_pins(mask, topics, input, n).contains((p, topics[p]))
                <==> (topics[p].len() > 0 && pin_is_input(mask, p) == input)),
    decreases n,
{
    if n > 0 {
        lemma_bound_pins(mask, topics, input, n - 1);
        let prev = bound_pins(mask, topics, input, n - 1);
        let cur = bound_pins(mask, topics, input, n);
        assert forall|p: int| 0 <= p < n implies (#[trigger] cur.contains((p, topics[p]))
            <==> (topics[p].len() > 0 && pin_is_input(mask, p) == input)) by {
            if p < n - 1 {
                if cur.contains((p, topics[p])) {
                    let j = choose|j: int| 0 <= j < cur.len() && cur[j] == (p, topics[p]);
                    if j < prev.len() {
                        assert(prev[j] == cur[j]);
                    }
                }
                if prev.contains((p, topics[p])) {
                    let j = choose|j: int| 0 <= j < prev.len() && prev[j] == (p, topics[p]);
                    assert(cur[j] == prev[j]);
                }
            } else {
                if topics[p].len() > 0 && pin_is_input(mask, p) == input {
                    assert(cur[cur.len() - 1] == (p, topics[p]));
                } else if cur.contains((p, topics[p])) {
                    let j = choose|j: int| 0 <= j < cur.len() && cur[j] == (p, topics[p]);
                    assert(prev[j] == cur[j]);
                }
            }
        }
    }
}

/// For every mask and every 16-slot topic table, the output and input
/// bindings are disjoint, together they cover exactly the pins whose topic slot
/// is non-empty, every binding carries the topic of its slot, and the direction
/// of each bound pin is the one its bit in the mask gives.
pub proof fn lemma_partition_covers_and_separates(mask: u16, topics: Seq<Seq<char>>)
    requires
        topics.len() == 16,
    ensures
        forall|i: int|
            0 <= i < output_bindings(mask, topics).len() ==> {
                let b = #[trigger] output_bindings(mask, topics)[i];
                &&& 0 <= b.0 < 16
                &&& b.1 == topics[b.0]
                &&& !pin_is_input(mask, b.0)
            },
        forall|i: int|
            0 <= i < input_bindings(mask, topics).len() ==> {
                let b = #[trigger] input_bindings(mask, topics)[i];
                &&& 0 <= b.0 < 16
                &&& b.1 == topics[b.0]
                &&& pin_is_input(mask, b.0)
            },
        forall|i: int, j: int|
            0 <= i < output_bindings(mask, topics).len() && 0 <= j < input_bindings(
                mask,
                topics,
            ).len() ==> (#[trigger] output_bindings(mask, topics)[i]).0 != (
            #[trigger] input_bindings(mask, topics)[j]).0,
        forall|p: int|
            0 <= p < 16 ==> (topics[p].len() > 0 <==> (#[trigger] output_bindings(
                mask,
                topics,
            ).contains((p, topics[p])) || input_bindings(mask, topics).contains((p, topics[p])))),
        forall|p: int|
            0 <= p < 16 ==> (#[trigger] output_bindings(mask, topics).contains((p, topics[p]))
                <==> (topics[p].len() > 0 && !pin_is_input(mask, p))),
        forall|p: int|
            0 <= p < 16 ==> (#[trigger] input_bindings(mask, topics).contains((p, topics[p]))
                <==> (topics[p].len() > 0 && pin_is_input(mask, p))),
{
    lemma_bound_pins(mask, topics, false, 16);
    lemma_bound_pins(mask, topics, true, 16);
}

/// Splits the bound pins of a 16-slot topic table into output bindings and
/// input bindings, each in pin order, by the direction bits of `mask`.
pub fn partition_pins(mask: u16, topics: &[String; 16]) -> (r: (
    Vec<(usize, String)>,
    Vec<(usize, String)>,
))
    ensures
        binding_views(r.0@) == output_bindings(mask, string_views(topics@)),
        binding_views(r.1@) == input_bindings(mask, string_views(topics@)),
{
    let ghost tv = string_views(topics@);
    let mut outputs: Vec<(usize, String)> = Vec::new();
    let mut inputs: Vec<(usize, String)> = Vec::new();
    let mut pin: usize = 0;
    while pin < PIN_COUNT
        invariant
            pin <= 16,
            tv == string_views(topics@),
            binding_views(outputs@) == bound_pins(mask, tv, false, pin as int),
            binding_views(inputs@) == bound_pins(mask, tv, true, pin as int),
        decreases 16 - pin,
    {
        let topic = &topics[pin];
        if !topic.as_str().is_empty() {
            let input = (mask >> (pin as u16)) & 1u16 == 1u16;
            assert(input == pin_is_input(mask, pin as int));
            assert(tv[pin as int] == topic@);
            if input {
                let ghost before = inputs@;
                inputs.push((pin, topic.clone()));
                assert(binding_views(inputs@) =~= binding_views(before).push((pin as int, topic@)));
            } else {
                let ghost before = outputs@;
                outputs.push((pin, topic.clone()));
                assert(binding_views(outputs@) =~= binding_views(before).push((pin as int, topic@)));
            }
        }
        pin = pin + 1;
    }
    (outputs, inputs)
}

} // verus!
