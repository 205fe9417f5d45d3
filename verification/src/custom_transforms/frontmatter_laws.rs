//! What every accepted frontmatter block guarantees of its metadata.
use vstd::prelude::*;
use crate::custom_transforms::frontmatter::{
    empty_slots, fold_key_values, fold_scopes, frontmatter_body, frontmatter_spec, meta_from_slots,
    normalized_lines, scope_of, scopes_of, valid_transform_id, FrontmatterErrorSpec,
};
use crate::text::{lines, split_from, trim};
use crate::transforms::{Phase, TransformScope};

verus! {

/// No scope occurs twice.
pub open spec fn distinct_scopes(s: Seq<TransformScope>) -> bool {
    forall|i: int, j: int| 0 <= i < j < s.len() ==> s[i] != s[j]
}

proof fn lemma_fold_scopes_distinct(pieces: Seq<Seq<char>>, i: int, acc: Seq<TransformScope>)
    requires
        distinct_scopes(acc),
        fold_scopes(pieces, i, acc) is Ok,
    ensures
        distinct_scopes(fold_scopes(pieces, i, acc)->Ok_0),
        fold_scopes(pieces, i, acc)->Ok_0.len() > 0,
    decreases pieces.len() - i,
{
    if 0 <= i < pieces.len() {
        let entry = trim(pieces[i]);
        let scope = scope_of(entry)->0;
        let next = acc.push(scope);
        assert(distinct_scopes(next)) by {
            assert forall|a: int, b: int| 0 <= a < b < next.len() implies next[a] != next[b] by {
                if b == acc.len() {
                    assert(acc[a] != scope) by {
                        if acc[a] == scope {
                            assert(acc.contains(scope));
                        }
                    }
                }
            }
        }
        lemma_fold_scopes_distinct(pieces, i + 1, next);
    }
}

proof fn lemma_meta_well_formed(slots: Seq<Option<Seq<char>>>)
    requires
        meta_from_slots(slots) is Ok,
    ensures
        valid_transform_id(meta_from_slots(slots)->Ok_0.id),
        0 < meta_from_slots(slots)->Ok_0.name.len() <= 100,
        0 < meta_from_slots(slots)->Ok_0.description.len() <= 500,
        0 < meta_from_slots(slots)->Ok_0.author.len() <= 100,
        meta_from_slots(slots)->Ok_0.phases.len() > 0,
        meta_from_slots(slots)->Ok_0.scopes.len() > 0,
        distinct_scopes(meta_from_slots(slots)->Ok_0.scopes),
{
    assert(distinct_scopes(Seq::<TransformScope>::empty()));
    match slots[5] {
        Some(r) => {
            lemma_fold_scopes_distinct(split_from(r, ',', 0), 0, Seq::empty());
        },
        None => {
            let d = seq![TransformScope::Provider, TransformScope::Global, TransformScope::ApiKey];
            assert(scopes_of(slots[5]) == Ok::<Seq<TransformScope>, FrontmatterErrorSpec>(d));
            assert(distinct_scopes(d));
        },
    }
}

/// Every metadata block `parse_frontmatter` accepts has a valid transform
/// id; a name, description and author that are present and within 100, 500
/// and 100 characters; at least one phase; and at least one scope, none of
/// them repeated.
pub proof fn law_accepted_frontmatter_is_well_formed(source: Seq<char>)
    requires
        frontmatter_spec(source) is Ok,
    ensures
        valid_transform_id(frontmatter_spec(source)->Ok_0.id),
        0 < frontmatter_spec(source)->Ok_0.name.len() <= 100,
        0 < frontmatter_spec(source)->Ok_0.description.len() <= 500,
        0 < frontmatter_spec(source)->Ok_0.author.len() <= 100,
        frontmatter_spec(source)->Ok_0.phases.len() > 0,
        frontmatter_spec(source)->Ok_0.scopes.len() > 0,
        distinct_scopes(frontmatter_spec(source)->Ok_0.scopes),
{
    let body = frontmatter_body(source)->Ok_0;
    let nl = normalized_lines(lines(body));
    let slots = fold_key_values(nl, 1, empty_slots())->Ok_0;
    lemma_meta_well_formed(slots);
}

/// The `phase` key decides where a transform runs: accepted metadata whose
/// `phase` value is `request` runs on requests only, `response` on responses
/// only, and `both` or no `phase` at all on both; any other value is
/// refused.
pub proof fn law_phase_value_selects_phases(slots: Seq<Option<Seq<char>>>)
    requires
        meta_from_slots(slots) is Ok,
    ensures
        slots[4] == Some("request"@) ==> meta_from_slots(slots)->Ok_0.phases == seq![Phase::Request],
        slots[4] == Some("response"@) ==> meta_from_slots(slots)->Ok_0.phases == seq![Phase::Response],
        (slots[4] is None || slots[4] == Some("both"@)) ==> meta_from_slots(slots)->Ok_0.phases == seq![
            Phase::Request,
            Phase::Response,
        ],
        slots[4] is None || slots[4] == Some("request"@) || slots[4] == Some("response"@) || slots[4] == Some(
            "both"@,
        ),
{
    reveal_strlit("request");
    reveal_strlit("response");
    reveal_strlit("both");
    assert("request"@ != "both"@) by {
        assert("request"@.len() != "both"@.len());
    }
    assert("response"@ != "both"@) by {
        assert("response"@.len() != "both"@.len());
    }
    assert("response"@ != "request"@) by {
        assert("response"@.len() != "request"@.len());
    }
}

} // verus!
