//! Overlaying supplementary records onto primary records that share their
//! subject and form number.
use vstd::prelude::*;

use crate::error::PreludeError;
use crate::record::{has_key, key_index, keys_unique, upsert, Record, RecordModel};
use crate::scalar::render_spec;

verus! {

pub open spec fn subject_key() -> Seq<char> {
    seq!['s', 'b', 'j', 'i', 'd']
}

pub open spec fn form_number_key() -> Seq<char> {
    seq!['f', 'o', 'r', 'm', 'n', 'u', 'm']
}

/// The administrative fields left out of an overlay by default, in the
/// spelling that normalization gives them.
pub open spec fn default_common_spec(short_names: bool) -> Seq<Seq<char>> {
    if short_names {
        seq![
            seq!['s', 't', 'u', 'd', 'y', 'n', 'a', 'm', 'e'],
            seq!['s', 'i', 't', 'e', 'n', 'a', 'm', 'e'],
            seq!['s', 'i', 't', 'e', 'i', 'd'],
            seq!['s', 'b', 'j', 'n', 'a', 'm'],
            seq!['s', 'b', 'j', 'i', 'd'],
            seq!['f', 'o', 'r', 'm', 't', 'i', 't', 'l', 'e'],
            seq!['b', 'a', 's', 'e', 'f', 'o', 'r', 'm'],
            seq!['f', 'o', 'r', 'm', 'n', 'u', 'm'],
            seq!['f', 'o', 'r', 'm', 'g', 'r', 'o', 'u', 'p'],
            seq!['f', 'o', 'r', 'm', 's', 't', 'a', 't', 'e'],
        ]
    } else {
        seq![
            seq!['s', 't', 'u', 'd', 'y', '_', 'n', 'a', 'm', 'e'],
            seq!['s', 'i', 't', 'e', '_', 'n', 'a', 'm', 'e'],
            seq!['s', 'i', 't', 'e', '_', 'i', 'd'],
            seq!['s', 'u', 'b', 'j', 'e', 'c', 't', '_', 'n', 'a', 'm', 'e'],
            seq!['s', 'u', 'b', 'j', 'e', 'c', 't', '_', 'i', 'd'],
            seq!['f', 'o', 'r', 'm', '_', 't', 'i', 't', 'l', 'e'],
            seq!['b', 'a', 's', 'e', '_', 'f', 'o', 'r', 'm'],
            seq!['f', 'o', 'r', 'm', '_', 'n', 'u', 'm', 'b', 'e', 'r'],
            seq!['f', 'o', 'r', 'm', '_', 'g', 'r', 'o', 'u', 'p'],
            seq!['f', 'o', 'r', 'm', '_', 's', 't', 'a', 't', 'e'],
        ]
    }
}

/// The merge key of a record: the text of its subject and form-number
/// fields, where it has both.
pub open spec fn merge_key(r: RecordModel) -> Option<(Seq<char>, Seq<char>)> {
    if has_key(r, subject_key()) && has_key(r, form_number_key()) {
        Some(
            (
                render_spec(r[key_index(r, subject_key())].1),
                render_spec(r[key_index(r, form_number_key())].1),
            ),
        )
    } else {
        None
    }
}

/// `p` with every field of `s` whose key is not in `common` set on it, in
/// the order of `s`.
pub open spec fn overlay_spec(p: RecordModel, s: RecordModel, common: Seq<Seq<char>>) -> RecordModel
    decreases s.len(),
{
    if s.len() == 0 {
        p
    } else {
        let q = overlay_spec(p, s.drop_last(), common);
        if common.contains(s.last().0) {
            q
        } else {
            upsert(q, s.last().0, s.last().1)
        }
    }
}

/// Whether primary record `p` takes the fields of supplementary record `s`.
pub open spec fn key_matches(p: RecordModel, s: RecordModel) -> bool {
    merge_key(p) is Some && merge_key(p) == merge_key(s)
}

/// The primary records after one supplementary record is overlaid on each
/// that shares its key.
pub open spec fn apply_spec(prim: Seq<RecordModel>, s: RecordModel, common: Seq<Seq<char>>) -> Seq<RecordModel> {
    prim.map_values(|p: RecordModel| if key_matches(p, s) { overlay_spec(p, s, common) } else { p })
}

/// The primary records after every supplementary record, in order, is
/// overlaid on those that share its key.
pub open spec fn merge_spec(prim: Seq<RecordModel>, supp: Seq<RecordModel>, common: Seq<Seq<char>>) -> Seq<RecordModel>
    decreases supp.len(),
{
    if supp.len() == 0 {
        prim
    } else {
        apply_spec(merge_spec(prim, supp.drop_last(), common), supp.last(), common)
    }
}

/// Whether every record of `supp` has both merge key fields.
pub open spec fn all_keyed(supp: Seq<RecordModel>) -> bool {
    forall|i: int| 0 <= i < supp.len() ==> #[trigger] merge_key(supp[i]) is Some
}

pub open spec fn records_view(rs: Seq<Record>) -> Seq<RecordModel> {
    rs.map_values(|r: Record| r@)
}

pub open spec fn all_wf(rs: Seq<Record>) -> bool {
    forall|i: int| 0 <= i < rs.len() ==> keys_unique(#[trigger] rs[i]@)
}

pub open spec fn strings_view(v: Seq<String>) -> Seq<Seq<char>> {
    v.map_values(|s: String| s@)
}

/// The fields left out of an overlay: those given, else the default set.
pub open spec fn common_spec(short_names: bool, common_fields: Option<&Vec<String>>) -> Seq<Seq<char>> {
    match common_fields {
        Some(c) => strings_view(c@),
        None => default_common_spec(short_names),
    }
}

fn owned(s: &str) -> (r: String)
    ensures
        r@ == s@,
{
    s.to_owned()
}

/// The administrative fields left out of an overlay by default.
pub fn default_common_fields(short_names: bool) -> (r: Vec<String>)
    ensures
        strings_view(r@) == default_common_spec(short_names),
{
    proof {
        reveal_strlit("study_name");
        reveal_strlit("site_name");
        reveal_strlit("site_id");
        reveal_strlit("subject_name");
        reveal_strlit("subject_id");
        reveal_strlit("form_title");
        reveal_strlit("base_form");
        reveal_strlit("form_number");
        reveal_strlit("form_group");
        reveal_strlit("form_state");
        reveal_strlit("studyname");
        reveal_strlit("sitename");
        reveal_strlit("siteid");
        reveal_strlit("sbjnam");
        reveal_strlit("sbjid");
        reveal_strlit("formtitle");
        reveal_strlit("baseform");
        reveal_strlit("formnum");
        reveal_strlit("formgroup");
        reveal_strlit("formstate");
    }
    let mut v: Vec<String> = Vec::new();
    if short_names {
        let s = owned("studyname");
        assert(s@ =~= seq!['s', 't', 'u', 'd', 'y', 'n', 'a', 'm', 'e']);
        v.push(s);
        let s = owned("sitename");
        assert(s@ =~= seq!['s', 'i', 't', 'e', 'n', 'a', 'm', 'e']);
        v.push(s);
        let s = owned("siteid");
        assert(s@ =~= seq!['s', 'i', 't', 'e', 'i', 'd']);
        v.push(s);
        let s = owned("sbjnam");
        assert(s@ =~= seq!['s', 'b', 'j', 'n', 'a', 'm']);
        v.push(s);
        let s = owned("sbjid");
        assert(s@ =~= seq!['s', 'b', 'j', 'i', 'd']);
        v.push(s);
        let s = owned("formtitle");
        assert(s@ =~= seq!['f', 'o', 'r', 'm', 't', 'i', 't', 'l', 'e']);
        v.push(s);
        let s = owned("baseform");
        assert(s@ =~= seq!['b', 'a', 's', 'e', 'f', 'o', 'r', 'm']);
        v.push(s);
        let s = owned("formnum");
        assert(s@ =~= seq!['f', 'o', 'r', 'm', 'n', 'u', 'm']);
        v.push(s);
        let s = owned("formgroup");
        assert(s@ =~= seq!['f', 'o', 'r', 'm', 'g', 'r', 'o', 'u', 'p']);
        v.push(s);
        let s = owned("formstate");
        assert(s@ =~= seq!['f', 'o', 'r', 'm', 's', 't', 'a', 't', 'e']);
        v.push(s);
    } else {
        let s = owned("study_name");
        assert(s@ =~= seq!['s', 't', 'u', 'd', 'y', '_', 'n', 'a', 'm', 'e']);
        v.push(s);
        let s = owned("site_name");
        assert(s@ =~= seq!['s', 'i', 't', 'e', '_', 'n', 'a', 'm', 'e']);
        v.push(s);
        let s = owned("site_id");
        assert(s@ =~= seq!['s', 'i', 't', 'e', '_', 'i', 'd']);
        v.push(s);
        let s = owned("subject_name");
        assert(s@ =~= seq!['s', 'u', 'b', 'j', 'e', 'c', 't', '_', 'n', 'a', 'm', 'e']);
        v.push(s);
        let s = owned("subject_id");
        assert(s@ =~= seq!['s', 'u', 'b', 'j', 'e', 'c', 't', '_', 'i', 'd']);
        v.push(s);
        let s = owned("form_title");
        assert(s@ =~= seq!['f', 'o', 'r', 'm', '_', 't', 'i', 't', 'l', 'e']);
        v.push(s);
        let s = owned("base_form");
        assert(s@ =~= seq!['b', 'a', 's', 'e', '_', 'f', 'o', 'r', 'm']);
        v.push(s);
        let s = owned("form_number");
        assert(s@ =~= seq!['f', 'o', 'r', 'm', '_', 'n', 'u', 'm', 'b', 'e', 'r']);
        v.push(s);
        let s = owned("form_group");
        assert(s@ =~= seq!['f', 'o', 'r', 'm', '_', 'g', 'r', 'o', 'u', 'p']);
        v.push(s);
        let s = owned("form_state");
        assert(s@ =~= seq!['f', 'o', 'r', 'm', '_', 's', 't', 'a', 't', 'e']);
        v.push(s);
    }
    assert(strings_view(v@) =~= default_common_spec(short_names));
    v
}

fn contains(v: &Vec<String>, k: &String) -> (r: bool)
    ensures
        r == strings_view(v@).contains(k@),
{
    let mut i: usize = 0;
    while i < v.len()
        invariant
            i <= v@.len(),
            forall|j: int| 0 <= j < i ==> v@[j]@ != k@,
        decreases v@.len() - i,
    {
        if v[i] == *k {
            assert(strings_view(v@)[i as int] == k@);
            return true;
        }
        i = i + 1;
    }
    proof {
        if strings_view(v@).contains(k@) {
            let j = choose|j: int| 0 <= j < strings_view(v@).len() && strings_view(v@)[j] == k@;
            assert(v@[j]@ == k@);
        }
    }
    false
}

/// The merge key of a record, where it has both key fields.
fn key_of(r: &Record) -> (k: Option<(String, String)>)
    requires
        keys_unique(r@),
    ensures
        match k {
            Some((a, b)) => merge_key(r@) == Some((a@, b@)),
            None => merge_key(r@) is None,
        },
{
    let subject = owned("sbjid");
    let formnum = owned("formnum");
    proof {
        reveal_strlit("sbjid");
        reveal_strlit("formnum");
        assert(subject@ =~= subject_key());
        assert(formnum@ =~= form_number_key());
    }
    match r.get(&subject) {
        Some(a) => match r.get(&formnum) {
            Some(b) => Some((a.render(), b.render())),
            None => None,
        },
        None => None,
    }
}

/// `p` with every field of `s` whose key is not in `common` set on it.
fn overlay(p: &Record, s: &Record, common: &Vec<String>) -> (r: Record)
    requires
        keys_unique(p@),
    ensures
        r@ == overlay_spec(p@, s@, strings_view(common@)),
        keys_unique(r@),
{
    let ghost cv = strings_view(common@);
    let mut q = p.duplicate();
    let mut i: usize = 0;
    while i < s.fields.len()
        invariant
            i <= s.fields@.len(),
            keys_unique(p@),
            cv == strings_view(common@),
            q@ == overlay_spec(p@, s@.subrange(0, i as int), cv),
            keys_unique(q@),
        decreases s.fields@.len() - i,
    {
        let f = &s.fields[i];
        assert(s@.subrange(0, i + 1).drop_last() =~= s@.subrange(0, i as int));
        assert(s@.subrange(0, i + 1).last() == f@);
        if !contains(common, &f.key) {
            q.set(f.key.clone(), f.value.duplicate());
        }
        i = i + 1;
    }
    assert(s@.subrange(0, s.fields@.len() as int) =~= s@);
    q
}

/// Overlays each supplementary record on every primary record with the same
/// subject and form number, compared as text. The fields named in
/// `common_fields`, or by default the administrative ones, are not carried
/// over. Primary records that match nothing are returned as they are, and
/// supplementary records that match nothing are dropped. Fails as a whole
/// where a supplementary record lacks either key field.
pub fn merge(
    primary: Vec<Record>,
    supplementary: &Vec<Record>,
    short_names: bool,
    common_fields: Option<&Vec<String>>,
) -> (r: Result<Vec<Record>, PreludeError>)
    requires
        all_wf(primary@),
        all_wf(supplementary@),
    ensures
        r is Ok <==> all_keyed(records_view(supplementary@)),
        r matches Ok(v) ==> records_view(v@) == merge_spec(
            records_view(primary@),
            records_view(supplementary@),
            common_spec(short_names, common_fields),
        ),
        r matches Err(e) ==> e is MissingMergeKeyField,
{
    let ghost sv = records_view(supplementary@);
    let mut i: usize = 0;
    while i < supplementary.len()
        invariant
            i <= supplementary@.len(),
            all_wf(supplementary@),
            sv == records_view(supplementary@),
            forall|j: int| 0 <= j < i ==> #[trigger] merge_key(sv[j]) is Some,
        decreases supplementary@.len() - i,
    {
        let r = &supplementary[i];
        let subject = owned("sbjid");
        let formnum = owned("formnum");
        proof {
            reveal_strlit("sbjid");
            reveal_strlit("formnum");
            assert(subject@ =~= subject_key());
            assert(formnum@ =~= form_number_key());
        }
        if r.get(&subject).is_none() {
            assert(merge_key(sv[i as int]) is None);
            return Err(PreludeError::MissingMergeKeyField(subject));
        }
        if r.get(&formnum).is_none() {
            assert(merge_key(sv[i as int]) is None);
            return Err(PreludeError::MissingMergeKeyField(formnum));
        }
        assert(merge_key(sv[i as int]) is Some);
        i = i + 1;
    }
    let common = match common_fields {
        Some(c) => {
            let mut v: Vec<String> = Vec::new();
            let mut j: usize = 0;
            while j < c.len()
                invariant
                    j <= c@.len(),
                    strings_view(v@) == strings_view(c@).subrange(0, j as int),
                decreases c@.len() - j,
            {
                let ghost before = v@;
                v.push(c[j].clone());
                assert(v@ == before.push(c@[j as int]));
                assert(strings_view(v@) =~= strings_view(before).push(c@[j as int]@));
                assert(strings_view(v@) =~= strings_view(c@).subrange(0, j + 1));
                j = j + 1;
            }
            assert(strings_view(c@).subrange(0, c@.len() as int) =~= strings_view(c@));
            v
        },
        None => default_common_fields(short_names),
    };
    let ghost cv = common_spec(short_names, common_fields);
    let ghost pv = records_view(primary@);
    let mut prim = primary;
    let mut k: usize = 0;
    while k < supplementary.len()
        invariant
            k <= supplementary@.len(),
            sv == records_view(supplementary@),
            cv == strings_view(common@),
            records_view(prim@) == merge_spec(pv, sv.subrange(0, k as int), cv),
            all_wf(prim@),
            all_wf(supplementary@),
        decreases supplementary@.len() - k,
    {
        let s = &supplementary[k];
        let ghost before = records_view(prim@);
        assert(sv.subrange(0, k + 1).drop_last() =~= sv.subrange(0, k as int));
        assert(sv.subrange(0, k + 1).last() == s@);
        let sk = key_of(s);
        let mut j: usize = 0;
        while j < prim.len()
            invariant
                j <= prim@.len(),
                before.len() == prim@.len(),
                cv == strings_view(common@),
                all_wf(prim@),
                keys_unique(s@),
                match sk {
                    Some((a, b)) => merge_key(s@) == Some((a@, b@)),
                    None => merge_key(s@) is None,
                },
                forall|x: int| 0 <= x < j ==> #[trigger] records_view(prim@)[x] == apply_spec(before, s@, cv)[x],
                forall|x: int| j <= x < prim@.len() ==> #[trigger] records_view(prim@)[x] == before[x],
            decreases prim@.len() - j,
        {
            assert(records_view(prim@)[j as int] == before[j as int]);
            assert(before[j as int] == prim@[j as int]@);
            let pk = key_of(&prim[j]);
            let hit = match (&pk, &sk) {
                (Some((a, b)), Some((c, d))) => *a == *c && *b == *d,
                _ => false,
            };
            assert(hit == key_matches(before[j as int], s@));
            let ghost mid = prim@;
            if hit {
                let q = overlay(&prim[j], s, &common);
                prim.set(j, q);
                assert(prim@ == mid.update(j as int, q));
            }
            assert forall|x: int| 0 <= x <= j implies #[trigger] records_view(prim@)[x] == apply_spec(
                before,
                s@,
                cv,
            )[x] by {
                if x < j {
                    assert(records_view(mid)[x] == apply_spec(before, s@, cv)[x]);
                }
            }
            assert forall|x: int| j < x < prim@.len() implies #[trigger] records_view(prim@)[x]
                == before[x] by {
                assert(records_view(mid)[x] == before[x]);
            }
            j = j + 1;
        }
        assert(records_view(prim@) =~= apply_spec(before, s@, cv));
        k = k + 1;
    }
    assert(sv.subrange(0, supplementary@.len() as int) =~= sv);
    Ok(prim)
}

/// A supplementary record whose key matches no primary record changes
/// nothing.
pub proof fn lemma_unmatched_supplementary_dropped(
    prim: Seq<RecordModel>,
    s: RecordModel,
    common: Seq<Seq<char>>,
)
    requires
        forall|i: int| 0 <= i < prim.len() ==> !key_matches(#[trigger] prim[i], s),
    ensures
        apply_spec(prim, s, common) == prim,
{
    assert(apply_spec(prim, s, common) =~= prim);
}

/// A primary record that no supplementary record matches comes out of the
/// merge exactly as it went in, at the same place.
pub proof fn lemma_unmatched_primary_kept(
    prim: Seq<RecordModel>,
    supp: Seq<RecordModel>,
    common: Seq<Seq<char>>,
    i: int,
)
    requires
        0 <= i < prim.len(),
        forall|j: int| 0 <= j < supp.len() ==> !key_matches(prim[i], #[trigger] supp[j]),
    ensures
        merge_spec(prim, supp, common).len() == prim.len(),
        merge_spec(prim, supp, common)[i] == prim[i],
    decreases supp.len(),
{
    if supp.len() > 0 {
        assert forall|j: int| 0 <= j < supp.drop_last().len() implies !key_matches(
            prim[i],
            #[trigger] supp.drop_last()[j],
        ) by {
            assert(supp.drop_last()[j] == supp[j]);
        }
        lemma_unmatched_primary_kept(prim, supp.drop_last(), common, i);
        assert(!key_matches(prim[i], supp[supp.len() - 1]));
    }
}

} // verus!
