use crate::pins::pin_level;
use vstd::prelude::*;

verus! {

/// The publications due after a poll, for the first `n` input bindings: the
/// position of each binding whose pin differs between `previous` and `reading`,
/// with the pin's new level, in binding order.
pub open spec fn changes_among(
    inputs: Seq<(usize, String)>,
    previous: u16,
    reading: u16,
    n: int,
) -> Seq<(usize, bool)>
    decreases n,
{
    if n <= 0 {
        seq![]
    } else {
        let prev = changes_among(inputs, previous, reading, n - 1);
        let pin = inputs[n - 1].0 as int;
        if pin_level(previous, pin) != pin_level(reading, pin) {
            prev.push(((n - 1) as usize, pin_level(reading, pin)))
        } else {
            prev
        }
    }
}

/// The publications due after a poll over all input bindings.
pub open spec fn changes(inputs: Seq<(usize, String)>, previous: u16, reading: u16) -> Seq<
    (usize, bool),
> {
    changes_among(inputs, previous, reading, inputs.len() as int)
}

proof fn lemma_changes_among(inputs: Seq<(usize, String)>, previous: u16, reading: u16, n: int)
    requires
        0 <= n <= inputs.len(),
        inputs.len() <= usize::MAX,
    ensures
        forall|k: int|
            0 <= k < changes_among(inputs, previous, reading, n).len() ==> {
                let c = #[trigger] changes_among(inputs, previous, reading, n)[k];
                let pin = inputs[c.0 as int].0 as int;
                &&& 0 <= c.0 < n
                &&& pin_level(previous, pin) != pin_level(reading, pin)
                &&& c.1 == pin_level(reading, pin)
            },
        forall|k: int, l: int|
            0 <= k < l < changes_among(inputs, previous, reading, n).len() ==> (
            #[trigger] changes_among(inputs, previous, reading, n)[k]).0 < (
            #[trigger] changes_among(inputs, previous, reading, n)[l]).0,
        forall|i: int|
            0 <= i < n ==> (pin_level(previous, inputs[i].0 as int) != pin_level(
                reading,
                inputs[i].0 as int,
            ) <==> #[trigger] changes_among(inputs, previous, reading, n).contains(
                (i as usize, pin_level(reading, inputs[i].0 as int)),
            )),
    decreases n,
{
    if n > 0 {
        lemma_changes_among(inputs, previous, reading, n - 1);
        let prev = changes_among(inputs, previous, reading, n - 1);
        let cur = changes_among(inputs, previous, reading, n);
        assert forall|k: int| 0 <= k < cur.len() implies ({
            let c = #[trigger] cur[k];
            let pin = inputs[c.0 as int].0 as int;
            &&& 0 <= c.0 < n
            &&& pin_level(previous, pin) != pin_level(reading, pin)
            &&& c.1 == pin_level(reading, pin)
        }) by {
            if k < prev.len() {
                assert(cur[k] == prev[k]);
            }
        }
        assert forall|k: int, l: int| 0 <= k < l < cur.len() implies (#[trigger] cur[k]).0 < (
        #[trigger] cur[l]).0 by {
            if l < prev.len() {
                assert(cur[k] == prev[k] && cur[l] == prev[l]);
            } else {
                assert(cur[k] == prev[k]);
            }
        }
        assert forall|i: int| 0 <= i < n implies (pin_level(previous, inputs[i].0 as int)
            != pin_level(reading, inputs[i].0 as int) <==> #[trigger] cur.contains(
            (i as usize, pin_level(reading, inputs[i].0 as int)),
        )) by {
            let e = (i as usize, pin_level(reading, inputs[i].0 as int));
            if cur.contains(e) {
                let j = choose|j: int| 0 <= j < cur.len() && cur[j] == e;
                if j < prev.len() {
                    assert(prev[j] == cur[j]);
                }
            }
            if i < n - 1 && prev.contains(e) {
                let j = choose|j: int| 0 <= j < prev.len() && prev[j] == e;
                assert(cur[j] == prev[j]);
            }
            if i == n - 1 && pin_level(previous, inputs[i].0 as int) != pin_level(
                reading,
                inputs[i].0 as int,
            ) {
                assert(cur[cur.len() - 1] == e);
            }
        }
    }
}

/// A poll reports each input binding at most once, in binding order: exactly
/// the bindings whose pin level differs between the previous snapshot and the
/// new reading, each with its new level. Pins whose level held are not reported.
pub proof fn lemma_poll_reports_exactly_the_changed_pins(
    inputs: Seq<(usize, String)>,
    previous: u16,
    reading: u16,
)
    requires
        inputs.len() <= usize::MAX,
    ensures
        forall|k: int|
            0 <= k < changes(inputs, previous, reading).len() ==> {
                let c = #[trigger] changes(inputs, previous, reading)[k];
                let pin = inputs[c.0 as int].0 as int;
                &&& 0 <= c.0 < inputs.len()
                &&& pin_level(previous, pin) != pin_level(reading, pin)
                &&& c.1 == pin_level(reading, pin)
            },
        forall|k: int, l: int|
            0 <= k < l < changes(inputs, previous, reading).len() ==> (#[trigger] changes(
                inputs,
                previous,
                reading,
            )[k]).0 < (#[trigger] changes(inputs, previous, reading)[l]).0,
        forall|i: int|
            0 <= i < inputs.len() ==> (pin_level(previous, inputs[i].0 as int) != pin_level(
                reading,
                inputs[i].0 as int,
            ) <==> #[trigger] changes(inputs, previous, reading).contains(
                (i as usize, pin_level(reading, inputs[i].0 as int)),
            )),
{
    lemma_changes_among(inputs, previous, reading, inputs.len() as int);
}

/// A reading equal to the previous snapshot reports nothing: a steady pin is
/// never published again while its level holds.
pub proof fn lemma_steady_reading_reports_nothing(inputs: Seq<(usize, String)>, reading: u16)
    requires
        inputs.len() <= usize::MAX,
    ensures
        changes(inputs, reading, reading) == Seq::<(usize, bool)>::empty(),
{
    lemma_changes_among(inputs, reading, reading, inputs.len() as int);
    if changes(inputs, reading, reading).len() > 0 {
        let c = changes(inputs, reading, reading)[0];
        assert(pin_level(reading, inputs[c.0 as int].0 as int) != pin_level(
            reading,
            inputs[c.0 as int].0 as int,
        ));
    }
}

/// The first poll of a detector started from a reading `x`, on that same
/// reading, reports every input binding whose pin is a chip pin, each with its
/// current level.
pub proof fn lemma_first_poll_reports_every_pin(inputs: Seq<(usize, String)>, x: u16)
    requires
        inputs.len() <= usize::MAX,
        forall|i: int| 0 <= i < inputs.len() ==> (#[trigger] inputs[i]).0 < 16,
    ensures
        changes(inputs, !x, x) == Seq::new(
            inputs.len(),
            |i: int| (i as usize, pin_level(x, inputs[i].0 as int)),
        ),
{
    assert forall|p: u16| p < 16 implies #[trigger] pin_level(!x, p as int) != pin_level(x, p as int) by {
        assert(((!x >> p) & 1u16 == 1u16) != ((x >> p) & 1u16 == 1u16)) by (bit_vector)
            requires
                p < 16,
        ;
    }
    lemma_all_changed(inputs, x, inputs.len() as int);
}

proof fn lemma_all_changed(inputs: Seq<(usize, String)>, x: u16, n: int)
    requires
        0 <= n <= inputs.len(),
        inputs.len() <= usize::MAX,
        forall|i: int| 0 <= i < inputs.len() ==> (#[trigger] inputs[i]).0 < 16,
        forall|p: u16| p < 16 ==> #[trigger] pin_level(!x, p as int) != pin_level(x, p as int),
    ensures
        changes_among(inputs, !x, x, n) == Seq::new(
            n as nat,
            |i: int| (i as usize, pin_level(x, inputs[i].0 as int)),
        ),
    decreases n,
{
    if n > 0 {
        lemma_all_changed(inputs, x, n - 1);
        let p = inputs[n - 1].0 as u16;
        assert(pin_level(!x, p as int) != pin_level(x, p as int));
        assert(changes_among(inputs, !x, x, n) =~= Seq::new(
            n as nat,
            |i: int| (i as usize, pin_level(x, inputs[i].0 as int)),
        ));
    } else {
        assert(changes_among(inputs, !x, x, n) =~= Seq::new(
            n as nat,
            |i: int| (i as usize, pin_level(x, inputs[i].0 as int)),
        ));
    }
}

/// The poll period in milliseconds for a polling frequency in Hz: `1000 / f`
/// rounded to the nearest integer, halves rounded up; a zero frequency never
/// polls again, which is the largest period.
pub open spec fn period_ms_of(frequency: u16) -> u64 {
    if frequency == 0 {
        u64::MAX
    } else {
        ((2000 + frequency as int) / (2 * frequency as int)) as u64
    }
}

/// The poll period in milliseconds for a polling frequency in Hz.
pub fn poll_period_ms(frequency: u16) -> (r: u64)
    ensures
        r == period_ms_of(frequency),
{
    if frequency == 0 {
        u64::MAX
    } else {
        let f: u64 = frequency as u64;
        (2000 + f) / (2 * f)
    }
}

/// Edge detection over successive readings of a chip's input register.
pub struct EdgeDetector {
    pub previous: u16,
}

impl EdgeDetector {
    /// Starts from the complement of the first reading, so that the first poll
    /// reports every bound input pin once.
    pub fn new(initial: u16) -> (r: EdgeDetector)
        ensures
            r.previous == !initial,
    {
        EdgeDetector { previous: !initial }
    }

    /// Takes a new reading and returns, for each input binding whose pin
    /// changed since the last reading, its position in `inputs` and the pin's
    /// new level; the reading becomes the new snapshot.
    pub fn poll(&mut self, inputs: &Vec<(usize, String)>, reading: u16) -> (r: Vec<(usize, bool)>)
        ensures
            final(self).previous == reading,
            r@ == changes(inputs@, old(self).previous, reading),
    {
        let previous = self.previous;
        let changed = previous ^ reading;
        let mut out: Vec<(usize, bool)> = Vec::new();
        let mut i: usize = 0;
        while i < inputs.len()
            invariant
                i <= inputs@.len(),
                previous == old(self).previous,
                changed == previous ^ reading,
                out@ == changes_among(inputs@, previous, reading, i as int),
            decreases inputs@.len() - i,
        {
            let pin = inputs[i].0;
            if pin < 16 {
                let p = pin as u16;
                let level = (reading >> p) & 1u16 == 1u16;
                let flipped = (changed >> p) & 1u16 == 1u16;
                assert(((changed >> p) & 1u16 == 1u16) == (((previous >> p) & 1u16 == 1u16) != ((reading >> p) & 1u16
                    == 1u16))) by (bit_vector)
                    requires
                        changed == previous ^ reading,
                        p < 16,
                ;
                if flipped {
                    out.push((i, level));
                }
            }
            i = i + 1;
        }
        self.previous = reading;
        out
    }
}

} // verus!
