use vstd::prelude::*;

use crate::engine::{read_property_frame, wrap_invoke_id, BacnetEngine};
use crate::registry::{Address, RegistryEntry};
use crate::services::{ObjectIdentifier, OBJECT_TYPE_ANALOG_INPUT, PROP_PRESENT_VALUE};
use vstd::arithmetic::div_mod::{
    lemma_fundamental_div_mod, lemma_fundamental_div_mod_converse_mod, lemma_mod_division_less_than_divisor,
};

verus! {

/// The fixed object every poll sweep reads: analog input instance 0.
pub open spec fn poll_object() -> ObjectIdentifier {
    ObjectIdentifier { object_type: OBJECT_TYPE_ANALOG_INPUT, instance: 0 }
}

/// One read a poll sweep issues: the frame to unicast, its target, and the
/// invoke identifier to correlate the acknowledgment by.
#[derive(Clone, Debug)]
pub struct PollRequest {
    pub target: Address,
    pub invoke_id: u8,
    pub frame: Vec<u8>,
}

pub ghost struct PollRequestView {
    pub target: Address,
    pub invoke_id: u8,
    pub frame: Seq<u8>,
}

impl View for PollRequest {
    type V = PollRequestView;

    open spec fn view(&self) -> PollRequestView {
        PollRequestView { target: self.target, invoke_id: self.invoke_id, frame: self.frame@ }
    }
}

/// The invoke identifier the engine hands out `i` allocations after
/// standing at `start`.
pub open spec fn nth_invoke_id(start: u8, i: int) -> u8
    recommends
        1 <= start,
        0 <= i,
    decreases i,
{
    if i <= 0 {
        start
    } else {
        wrap_invoke_id(nth_invoke_id(start, i - 1))
    }
}

/// The counter walks the cycle 1..=255: its position after `i` allocations
/// in closed form.
pub proof fn lemma_nth_invoke_id_closed(start: u8, i: int)
    requires
        1 <= start,
        0 <= i,
    ensures
        nth_invoke_id(start, i) == (start - 1 + i) % 255 + 1,
    decreases i,
{
    if i == 0 {
        assert((start - 1) % 255 == start - 1) by {
            lemma_fundamental_div_mod_converse_mod(start - 1, 255, 0, start - 1);
        }
    } else {
        lemma_nth_invoke_id_closed(start, i - 1);
        let a = start - 1 + i - 1;
        let q = a / 255;
        let r = a % 255;
        lemma_fundamental_div_mod(a, 255);
        lemma_mod_division_less_than_divisor(a, 255);
        if r == 254 {
            assert(a + 1 == (q + 1) * 255 + 0) by (nonlinear_arith)
                requires
                    a == q * 255 + r && r == 254,
            ;
            lemma_fundamental_div_mod_converse_mod(a + 1, 255, q + 1, 0);
        } else {
            lemma_fundamental_div_mod_converse_mod(a + 1, 255, q, r + 1);
        }
    }
}

/// Allocating fewer than 255 identifiers in a row never repeats one: each
/// read of one poll sweep over at most 255 devices carries its own invoke
/// identifier.
pub proof fn lemma_invoke_ids_distinct(start: u8, i: int, j: int)
    requires
        1 <= start,
        0 <= i < j,
        j - i < 255,
    ensures
        nth_invoke_id(start, i) != nth_invoke_id(start, j),
{
    lemma_nth_invoke_id_closed(start, i);
    lemma_nth_invoke_id_closed(start, j);
    let a = start - 1 + i;
    let b = start - 1 + j;
    if nth_invoke_id(start, i) == nth_invoke_id(start, j) {
        assert(a % 255 == b % 255);
        lemma_fundamental_div_mod(a, 255);
        lemma_fundamental_div_mod(b, 255);
        let qa = a / 255;
        let qb = b / 255;
        assert(b - a == (qb - qa) * 255) by (nonlinear_arith)
            requires
                a == qa * 255 + a % 255 && b == qb * 255 + b % 255 && a % 255 == b % 255,
        ;
        assert((qb - qa) * 255 < 255 && (qb - qa) * 255 > 0 ==> false) by (nonlinear_arith);
    }
}

/// Every allocation stays in 1..=255.
pub proof fn lemma_nth_invoke_id_in_range(start: u8, i: int)
    requires
        1 <= start,
        0 <= i,
    ensures
        1 <= nth_invoke_id(start, i) <= 255,
    decreases i,
{
    if i > 0 {
        lemma_nth_invoke_id_in_range(start, i - 1);
    }
}

/// One poll sweep: one confirmed present-value read of analog input 0 per
/// snapshot row, in snapshot order, each carrying the next invoke
/// identifier in turn.
pub fn poller_tick(engine: &mut BacnetEngine, snapshot: &Vec<RegistryEntry>) -> (r: Vec<
    PollRequest,
>)
    requires
        old(engine).wf(),
    ensures
        final(engine).wf(),
        final(engine).config == old(engine).config,
        final(engine).next_invoke_id == nth_invoke_id(
            old(engine).next_invoke_id,
            snapshot@.len() as int,
        ),
        r@.len() == snapshot@.len(),
        forall|i: int|
            0 <= i < r@.len() ==> (#[trigger] r@[i])@ == (PollRequestView {
                target: snapshot@[i].address,
                invoke_id: nth_invoke_id(old(engine).next_invoke_id, i),
                frame: read_property_frame(
                    nth_invoke_id(old(engine).next_invoke_id, i),
                    poll_object(),
                    PROP_PRESENT_VALUE,
                ),
            }),
{
    let ghost start = engine.next_invoke_id;
    let mut r: Vec<PollRequest> = Vec::new();
    let target_object = ObjectIdentifier { object_type: OBJECT_TYPE_ANALOG_INPUT, instance: 0 };
    let mut i: usize = 0;
    while i < snapshot.len()
        invariant
            i <= snapshot@.len(),
            engine.wf(),
            engine.config == old(engine).config,
            start == old(engine).next_invoke_id,
            1 <= start,
            engine.next_invoke_id == nth_invoke_id(start, i as int),
            r@.len() == i,
            target_object == poll_object(),
            forall|j: int|
                0 <= j < i ==> (#[trigger] r@[j])@ == (PollRequestView {
                    target: snapshot@[j].address,
                    invoke_id: nth_invoke_id(start, j),
                    frame: read_property_frame(
                        nth_invoke_id(start, j),
                        poll_object(),
                        PROP_PRESENT_VALUE,
                    ),
                }),
        decreases snapshot@.len() - i,
    {
        let entry = snapshot[i];
        let (frame, invoke_id) = engine.read_property(target_object, PROP_PRESENT_VALUE);
        r.push(PollRequest { target: entry.address, invoke_id, frame });
        i = i + 1;
    }
    r
}

} // verus!
