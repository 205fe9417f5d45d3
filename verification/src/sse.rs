//! Server-sent event framing shared by the stream adapters.
use vstd::prelude::*;
use crate::text::{chars_of, eq_lit, trim, trim_vec};

verus! {

/// Whether an event's data is the end-of-stream marker `[DONE]` (surrounding
/// whitespace aside).
pub fn is_done_marker(data: &str) -> (r: bool)
    ensures
        r == (trim(data@) == "[DONE]"@),
{
    let t = trim_vec(&chars_of(data));
    eq_lit(&t, "[DONE]")
}

/// The position of the first event whose data is the end-of-stream marker,
/// or the number of events when none is: the stream is read up to there.
pub open spec fn done_cut(datas: Seq<Seq<char>>) -> int {
    if exists|k: int| 0 <= k < datas.len() && trim(#[trigger] datas[k]) == "[DONE]"@ {
        choose|k: int|
            0 <= k < datas.len() && trim(#[trigger] datas[k]) == "[DONE]"@ && forall|j: int|
                0 <= j < k ==> trim(#[trigger] datas[j]) != "[DONE]"@
    } else {
        datas.len() as int
    }
}

/// How many of the events `datas` (their data, in order) a stream adapter
/// reads: those before the first end-of-stream marker (see [`done_cut`]).
pub fn events_before_done(datas: &Vec<String>) -> (r: usize)
    ensures
        r as int <= datas@.len(),
        forall|j: int| 0 <= j < r ==> trim(#[trigger] datas@[j]@) != "[DONE]"@,
        r < datas@.len() ==> trim(datas@[r as int]@) == "[DONE]"@,
        r == done_cut(datas@.map_values(|s: String| s@)),
{
    let ghost views = datas@.map_values(|s: String| s@);
    let mut i: usize = 0;
    while i < datas.len()
        invariant
            i <= datas@.len(),
            views == datas@.map_values(|s: String| s@),
            forall|j: int| 0 <= j < i ==> trim(#[trigger] datas@[j]@) != "[DONE]"@,
        decreases datas@.len() - i,
    {
        if is_done_marker(datas[i].as_str()) {
            proof {
                assert(trim(views[i as int]) == "[DONE]"@);
                let c = done_cut(views);
                assert(forall|j: int| 0 <= j < i ==> trim(#[trigger] views[j]) != "[DONE]"@ ) by {
                    assert forall|j: int| 0 <= j < i implies trim(#[trigger] views[j]) != "[DONE]"@ by {
                        assert(views[j] == datas@[j]@);
                    }
                }
                if c != i {
                    assert(0 <= c < views.len() && trim(views[c]) == "[DONE]"@);
                    if c < i {
                        assert(views[c] == datas@[c]@);
                    } else {
                        assert(trim(views[i as int]) != "[DONE]"@);
                    }
                }
            }
            return i;
        }
        i += 1;
    }
    proof {
        if exists|k: int| 0 <= k < views.len() && trim(#[trigger] views[k]) == "[DONE]"@ {
            let k = choose|k: int| 0 <= k < views.len() && trim(#[trigger] views[k]) == "[DONE]"@;
            assert(views[k] == datas@[k]@);
        }
    }
    i
}

} // verus!
