use vstd::prelude::*;
use crate::address::{spec_msg_id, PairModel};
use crate::chars::{lemma_run_end_bounds, run_end, Class};
use crate::fields::{
    spec_field, spec_in_reply_to, spec_ids, spec_keywords, spec_message_id, spec_more_ids,
    spec_plain_fields, spec_references, spec_trace, spec_traces, spec_fields, FieldModel, spec_known_field, spec_received, spec_return_path, NAME_BCC, NAME_CC,
    NAME_COMMENTS, NAME_DATE, NAME_FROM, NAME_IN_REPLY_TO, NAME_KEYWORDS, NAME_MESSAGE_ID,
    NAME_RECEIVED, NAME_REFERENCES, NAME_REPLY_TO, NAME_RETURN_PATH, NAME_SENDER, NAME_SUBJECT,
    NAME_TO,
};
use crate::text::{lower, spec_tag_ci};
use crate::words::{dot_atom_end, spec_dot_atom_text};
use crate::time::{spec_date_time, spec_day, spec_day_of_week, spec_month};

verus! {

/// Parsing is a function of the bytes alone: equal inputs give equal field
/// sequences and equal leftovers.
pub proof fn law_parse_deterministic(a: Seq<u8>, b: Seq<u8>)
    requires
        a == b,
    ensures
        spec_fields(a) == spec_fields(b),
{
}

/// A field name pattern: it ends with its only colon.
pub open spec fn name_shaped(p: Seq<u8>) -> bool {
    p.len() > 0 && p[p.len() - 1] == 58 && forall|j: int| 0 <= j < p.len() - 1 ==> p[j] != 58
}

/// `s1` and `s2` hold the same field but for the casing of its name, which
/// ends at the first colon, at index `n - 1`.
pub open spec fn same_but_name_casing(s1: Seq<u8>, s2: Seq<u8>, n: int) -> bool {
    &&& 0 < n <= s1.len()
    &&& s1.len() == s2.len()
    &&& s1.skip(n) == s2.skip(n)
    &&& forall|j: int| 0 <= j < n ==> lower(#[trigger] s1[j]) == lower(s2[j])
    &&& s1[n - 1] == 58
    &&& forall|j: int| 0 <= j < n - 1 ==> #[trigger] s1[j] != 58
}

proof fn lemma_lower_colon(b: u8)
    ensures
        lower(b) == 58 <==> b == 58,
{
}

proof fn lemma_casing_symmetric(s1: Seq<u8>, s2: Seq<u8>, n: int)
    requires
        same_but_name_casing(s1, s2, n),
    ensures
        same_but_name_casing(s2, s1, n),
{
    assert forall|j: int| 0 <= j < n - 1 implies #[trigger] s2[j] != 58 by {
        lemma_lower_colon(s1[j]);
        lemma_lower_colon(s2[j]);
    }
    lemma_lower_colon(s1[n - 1]);
    lemma_lower_colon(s2[n - 1]);
}

proof fn lemma_tag_casing_one_way(s1: Seq<u8>, s2: Seq<u8>, n: int, p: Seq<u8>)
    requires
        same_but_name_casing(s1, s2, n),
        name_shaped(p),
        spec_tag_ci(s1, p) is Some,
    ensures
        spec_tag_ci(s2, p) == spec_tag_ci(s1, p),
{
    let l = p.len() as int;
    assert(lower(s1[l - 1]) == p[l - 1]);
    lemma_lower_colon(s1[l - 1]);
    if l < n {
        assert(s1[l - 1] != 58);
    }
    if n < l {
        assert(lower(s1[n - 1]) == p[n - 1]);
        lemma_lower_colon(s1[n - 1]);
    }
    assert(l == n);
    assert forall|j: int| 0 <= j < p.len() implies lower(#[trigger] s2[j]) == p[j] by {
        assert(lower(s1[j]) == p[j]);
    }
}

/// A case-insensitive name match is blind to the casing of the name.
proof fn lemma_tag_casing(s1: Seq<u8>, s2: Seq<u8>, n: int, p: Seq<u8>)
    requires
        same_but_name_casing(s1, s2, n),
        name_shaped(p),
    ensures
        spec_tag_ci(s1, p) == spec_tag_ci(s2, p),
{
    lemma_casing_symmetric(s1, s2, n);
    if spec_tag_ci(s1, p) is Some {
        lemma_tag_casing_one_way(s1, s2, n, p);
    } else if spec_tag_ci(s2, p) is Some {
        lemma_tag_casing_one_way(s2, s1, n, p);
    }
}

proof fn lemma_names_shaped()
    ensures
        name_shaped(NAME_DATE@),
        name_shaped(NAME_FROM@),
        name_shaped(NAME_SENDER@),
        name_shaped(NAME_REPLY_TO@),
        name_shaped(NAME_TO@),
        name_shaped(NAME_CC@),
        name_shaped(NAME_BCC@),
        name_shaped(NAME_MESSAGE_ID@),
        name_shaped(NAME_IN_REPLY_TO@),
        name_shaped(NAME_REFERENCES@),
        name_shaped(NAME_SUBJECT@),
        name_shaped(NAME_COMMENTS@),
        name_shaped(NAME_KEYWORDS@),
        name_shaped(NAME_RETURN_PATH@),
        name_shaped(NAME_RECEIVED@),
{
}

/// Field names are recognised in any casing: two inputs that differ only in
/// the casing of the field name give the same known field, the same
/// `Return-Path:` and the same `Received:` field, with the same leftovers.
pub proof fn law_field_name_casing(s1: Seq<u8>, s2: Seq<u8>, n: int)
    requires
        same_but_name_casing(s1, s2, n),
    ensures
        spec_known_field(s1) == spec_known_field(s2),
        spec_return_path(s1) == spec_return_path(s2),
        spec_received(s1) == spec_received(s2),
{
    lemma_names_shaped();
    lemma_tag_casing(s1, s2, n, NAME_DATE@);
    lemma_tag_casing(s1, s2, n, NAME_FROM@);
    lemma_tag_casing(s1, s2, n, NAME_SENDER@);
    lemma_tag_casing(s1, s2, n, NAME_REPLY_TO@);
    lemma_tag_casing(s1, s2, n, NAME_TO@);
    lemma_tag_casing(s1, s2, n, NAME_CC@);
    lemma_tag_casing(s1, s2, n, NAME_BCC@);
    lemma_tag_casing(s1, s2, n, NAME_MESSAGE_ID@);
    lemma_tag_casing(s1, s2, n, NAME_IN_REPLY_TO@);
    lemma_tag_casing(s1, s2, n, NAME_REFERENCES@);
    lemma_tag_casing(s1, s2, n, NAME_SUBJECT@);
    lemma_tag_casing(s1, s2, n, NAME_COMMENTS@);
    lemma_tag_casing(s1, s2, n, NAME_KEYWORDS@);
    lemma_tag_casing(s1, s2, n, NAME_RETURN_PATH@);
    lemma_tag_casing(s1, s2, n, NAME_RECEIVED@);
}

/// A date and time is never produced with a day outside 1 to 31 or a time
/// of day out of range.
pub proof fn law_date_time_in_range(s: Seq<u8>)
    ensures
        spec_date_time(s) matches Some((_, dt)) ==> {
            &&& 1 <= dt.1.0 <= 31
            &&& dt.2.0.0 <= 23
            &&& dt.2.0.1 <= 59
            &&& dt.2.0.2 <= 60
        },
{
}

/// A date whose month is not one of the twelve names fails as a whole.
pub proof fn law_unknown_month(s: Seq<u8>)
    requires
        spec_day_of_week(s) is None,
        spec_day(s) is Some,
        spec_month(spec_day(s).unwrap().0) is None,
    ensures
        spec_date_time(s) is None,
{
}

/// Both halves of a message identifier hold text.
pub open spec fn pair_filled(p: PairModel) -> bool {
    p.0.len() > 0 && p.1.len() > 0
}

/// What every parsed field satisfies: a trace group has at least one
/// `Received:` field, a keyword list at least one phrase, and message
/// identifiers text on both sides of the `@`.
pub open spec fn field_well_formed(f: FieldModel) -> bool {
    match f {
        FieldModel::Trace { received, .. } => received.len() > 0,
        FieldModel::Keywords(k) => k.len() > 0,
        FieldModel::MessageId(p) => pair_filled(p),
        FieldModel::InReplyTo(v) => v.len() > 0 && forall|i: int| 0 <= i < v.len() ==> pair_filled(#[trigger] v[i]),
        FieldModel::References(v) => v.len() > 0 && forall|i: int| 0 <= i < v.len() ==> pair_filled(#[trigger] v[i]),
        _ => true,
    }
}

proof fn lemma_dot_atom_end_grows(s: Seq<u8>, i: int)
    requires
        0 <= i,
    ensures
        dot_atom_end(s, i) >= i,
    decreases s.len() - i,
{
    if 0 <= i && i + 1 < s.len() && s[i] == 46 && i + 1 < run_end(s, Class::Atext, i + 1) <= s.len() {
        lemma_dot_atom_end_grows(s, run_end(s, Class::Atext, i + 1));
    }
}

proof fn lemma_dot_atom_text_filled(s: Seq<u8>)
    ensures
        spec_dot_atom_text(s) matches Some((_, v)) ==> v.len() > 0,
{
    let n = run_end(s, Class::Atext, 0);
    if n > 0 {
        lemma_run_end_bounds(s, Class::Atext, 0);
        lemma_dot_atom_end_grows(s, n);
        let e = dot_atom_end(s, n);
        if e > s.len() {
            lemma_dot_atom_end_bounded(s, n);
        }
    }
}

proof fn lemma_dot_atom_end_bounded(s: Seq<u8>, i: int)
    requires
        0 <= i <= s.len(),
    ensures
        dot_atom_end(s, i) <= s.len(),
    decreases s.len() - i,
{
    if 0 <= i && i + 1 < s.len() && s[i] == 46 && i + 1 < run_end(s, Class::Atext, i + 1) <= s.len() {
        lemma_dot_atom_end_bounded(s, run_end(s, Class::Atext, i + 1));
    }
}

proof fn lemma_msg_id_filled(s: Seq<u8>)
    ensures
        spec_msg_id(s) matches Some((_, p)) ==> pair_filled(p),
{
    match spec_msg_id(s) {
        Some(_) => {
            let r1 = crate::text::spec_byte(crate::whitespace::spec_opt_cfws(s), 60).unwrap();
            lemma_dot_atom_text_filled(r1);
            let r2 = spec_dot_atom_text(r1).unwrap().0;
            let r3 = crate::text::spec_byte(r2, 64).unwrap();
            lemma_dot_atom_text_filled(r3);
            if spec_dot_atom_text(r3) is None {
                lemma_run_end_bounds(r3, Class::Dtext, 1);
            }
        },
        None => {},
    }
}

proof fn lemma_more_ids_filled(s: Seq<u8>)
    ensures
        forall|i: int| 0 <= i < spec_more_ids(s).1.len() ==> pair_filled(#[trigger] spec_more_ids(s).1[i]),
    decreases s.len(),
{
    lemma_msg_id_filled(s);
    match spec_msg_id(s) {
        Some((r, p)) => if r.len() < s.len() {
            lemma_more_ids_filled(r);
            let ps = spec_more_ids(r).1;
            assert forall|i: int| 0 <= i < spec_more_ids(s).1.len() implies pair_filled(
                #[trigger] spec_more_ids(s).1[i],
            ) by {
                if i > 0 {
                    assert(spec_more_ids(s).1[i] == ps[i - 1]);
                }
            }
        },
        None => {},
    }
}

proof fn lemma_ids_filled(s: Seq<u8>)
    ensures
        spec_ids(s) matches Some((_, v)) ==> v.len() > 0 && forall|i: int| 0 <= i < v.len() ==> pair_filled(#[trigger] v[i]),
{
    lemma_msg_id_filled(s);
    match spec_msg_id(s) {
        Some((r, p)) => {
            lemma_more_ids_filled(r);
            let v = spec_ids(s).unwrap().1;
            let ps = spec_more_ids(r).1;
            assert forall|i: int| 0 <= i < v.len() implies pair_filled(#[trigger] v[i]) by {
                if i > 0 {
                    assert(v[i] == ps[i - 1]);
                }
            }
        },
        None => {},
    }
}

proof fn lemma_field_parts_well_formed(s: Seq<u8>)
    ensures
        spec_message_id(s) matches Some((_, p)) ==> pair_filled(p),
        spec_in_reply_to(s) matches Some((_, v)) ==> field_well_formed(FieldModel::InReplyTo(v)),
        spec_references(s) matches Some((_, v)) ==> field_well_formed(FieldModel::References(v)),
        spec_keywords(s) matches Some((_, v)) ==> v.len() > 0,
{
    if let Some(r) = spec_tag_ci(s, NAME_MESSAGE_ID@) {
        lemma_msg_id_filled(r);
    }
    if let Some(r) = spec_tag_ci(s, NAME_IN_REPLY_TO@) {
        lemma_ids_filled(r);
    }
    if let Some(r) = spec_tag_ci(s, NAME_REFERENCES@) {
        lemma_ids_filled(r);
    }
}

proof fn lemma_field_well_formed(s: Seq<u8>)
    ensures
        spec_field(s) matches Some((_, f)) ==> field_well_formed(f),
{
    lemma_field_parts_well_formed(s);
}

proof fn lemma_plain_fields_well_formed(s: Seq<u8>)
    ensures
        forall|i: int| 0 <= i < spec_plain_fields(s).1.len() ==> field_well_formed(#[trigger] spec_plain_fields(s).1[i]),
    decreases s.len(),
{
    lemma_field_well_formed(s);
    match spec_field(s) {
        Some((r, f)) => if r.len() < s.len() {
            lemma_plain_fields_well_formed(r);
            let fs = spec_plain_fields(r).1;
            assert forall|i: int| 0 <= i < spec_plain_fields(s).1.len() implies field_well_formed(
                #[trigger] spec_plain_fields(s).1[i],
            ) by {
                if i > 0 {
                    assert(spec_plain_fields(s).1[i] == fs[i - 1]);
                }
            }
        },
        None => {},
    }
}

proof fn lemma_traces_well_formed(s: Seq<u8>)
    ensures
        forall|i: int| 0 <= i < spec_traces(s).1.len() ==> field_well_formed(#[trigger] spec_traces(s).1[i]),
    decreases s.len(),
{
    match spec_trace(s) {
        Some((r, (rp, rc))) => {
            let (r2, tfs) = crate::fields::spec_trace_fields(r);
            if r2.len() < s.len() {
                lemma_traces_well_formed(r2);
                let gs = spec_traces(r2).1;
                assert forall|i: int| 0 <= i < spec_traces(s).1.len() implies field_well_formed(
                    #[trigger] spec_traces(s).1[i],
                ) by {
                    if i > 0 {
                        assert(spec_traces(s).1[i] == gs[i - 1]);
                    }
                }
            }
        },
        None => {},
    }
}

/// Every field that parsing yields is well formed: trace groups hold at
/// least one `Received:` field, keyword lists at least one phrase, and
/// message identifiers text on both sides.
pub proof fn law_fields_well_formed(s: Seq<u8>)
    ensures
        forall|i: int| 0 <= i < spec_fields(s).1.len() ==> field_well_formed(#[trigger] spec_fields(s).1[i]),
{
    lemma_traces_well_formed(s);
    let (r, gs) = spec_traces(s);
    lemma_plain_fields_well_formed(r);
    let fs = spec_plain_fields(r).1;
    assert forall|i: int| 0 <= i < spec_fields(s).1.len() implies field_well_formed(#[trigger] spec_fields(s).1[i]) by {
        if i < gs.len() {
            assert(spec_fields(s).1[i] == gs[i]);
        } else {
            assert(spec_fields(s).1[i] == fs[i - gs.len()]);
        }
    }
}

} // verus!
