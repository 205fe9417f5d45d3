//! Site settings logic: the pricing key of a model name under the
//! reasoning-suffix table (suffixes such as `-thinking` that select a
//! reasoning effort and are not part of the priced model's name).
use vstd::prelude::*;
use crate::text::{chars_of, ends_with, ends_with_lit, slice_vec, string_from_chars};

verus! {

/// Whether `suffix` can be cut from the end of `model` leaving a non-empty name.
pub open spec fn strips(model: Seq<char>, suffix: Seq<char>) -> bool {
    suffix.len() < model.len() && ends_with(model, suffix)
}

/// The length of the longest of `suffixes` that `strips` `model`, or -1.
pub open spec fn longest_strip(model: Seq<char>, suffixes: Seq<Seq<char>>) -> int
    decreases suffixes.len(),
{
    if suffixes.len() == 0 {
        -1
    } else {
        let r = longest_strip(model, suffixes.drop_last());
        let k = suffixes.last();
        if strips(model, k) && k.len() > r {
            k.len() as int
        } else {
            r
        }
    }
}

/// The suffixes of a suffix table.
pub open spec fn suffix_keys(entries: Seq<(String, String)>) -> Seq<Seq<char>> {
    entries.map_values(|e: (String, String)| e.0@)
}

/// The pricing key of `model`: the model with the longest table suffix it
/// ends with removed (a non-empty name must remain), else the model itself.
pub open spec fn pricing_model_key(model: Seq<char>, suffixes: Seq<Seq<char>>) -> Seq<char> {
    let l = longest_strip(model, suffixes);
    if l >= 0 {
        model.take(model.len() - l)
    } else {
        model
    }
}

/// The pricing key of `model` under the reasoning-suffix table `entries`
/// (suffix, effort): the longest listed suffix the model ends with is cut
/// off, provided a non-empty name remains.
pub fn normalize_pricing_model_key(model: &str, entries: &Vec<(String, String)>) -> (r: String)
    ensures
        r@ == pricing_model_key(model@, suffix_keys(entries@)),
{
    let m = chars_of(model);
    let mut best: usize = 0;
    let mut found = false;
    let mut i: usize = 0;
    while i < entries.len()
        invariant
            m@ == model@,
            i <= entries@.len(),
            found ==> longest_strip(m@, suffix_keys(entries@).take(i as int)) == best as int,
            !found ==> longest_strip(m@, suffix_keys(entries@).take(i as int)) == -1,
            found ==> best < m@.len(),
        decreases entries@.len() - i,
    {
        proof {
            assert(suffix_keys(entries@).take(i + 1).drop_last() =~= suffix_keys(entries@).take(
                i as int,
            ));
            assert(suffix_keys(entries@).take(i + 1).last() == entries@[i as int].0@);
        }
        let suffix = entries[i].0.as_str();
        let k = chars_of(suffix);
        if k.len() < m.len() && ends_with_lit(&m, suffix) {
            if !found || k.len() > best {
                best = k.len();
                found = true;
            }
        }
        i += 1;
    }
    proof {
        assert(suffix_keys(entries@).take(entries@.len() as int) =~= suffix_keys(entries@));
    }
    if found {
        let base = slice_vec(&m, 0, m.len() - best);
        string_from_chars(&base)
    } else {
        string_from_chars(&m)
    }
}

} // verus!
