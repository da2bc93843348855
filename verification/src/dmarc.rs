//! DMARC analyzer: filters the `_dmarc` TXT answers to DMARC records,
//! enforces the single-record rule and extracts the trimmed tag list.

use crate::answers::RawAnswerSet;
use crate::text::{
    is_prefix_of, lemma_first_at, str_starts_with, split_char, split_on, trim_left, trim_right,
    trim_slice, trimmed,
};
use vstd::prelude::*;

verus! {

/// An answer text is a DMARC record when it begins with the version tag.
pub open spec fn is_dmarc_record(s: Seq<char>) -> bool {
    is_prefix_of("v=DMARC1"@, s)
}

/// The DMARC records among the answers, in answer order.
pub open spec fn dmarc_records_of(answers: Seq<Seq<char>>) -> Seq<Seq<char>> {
    answers.filter(|s: Seq<char>| is_dmarc_record(s))
}

/// The tag list of one DMARC record: the `;`-separated segments, trimmed,
/// empty segments dropped, in original order.
pub open spec fn tags_of_record(record: Seq<char>) -> Seq<Seq<char>> {
    split_on(record, ';').map_values(|p: Seq<char>| trimmed(p)).filter(
        |t: Seq<char>| t.len() > 0,
    )
}

/// Tags across all DMARC records, record order then segment order. With the
/// single authoritative record this is its tag list; with several records the
/// union is kept for diagnosability even though the status overrides validity.
pub open spec fn all_dmarc_tags(answers: Seq<Seq<char>>) -> Seq<Seq<char>> {
    dmarc_records_of(answers).map_values(|r: Seq<char>| tags_of_record(r)).flatten()
}

/// The status line of the DMARC finding. The resolver's no-records signal
/// and an answer set without a DMARC record are reported differently, as the
/// presentation distinguishes them; both are absent for scoring.
pub open spec fn dmarc_status(a: RawAnswerSet) -> Seq<char> {
    match a {
        RawAnswerSet::NoRecords => "No DMARC record found"@,
        RawAnswerSet::Records(v) => {
            let n = dmarc_records_of(v.deep_view()).len();
            if n == 0 {
                "No valid DMARC records found"@
            } else if n > 1 {
                "Multiple DMARC records found (invalid)"@
            } else {
                "Valid DMARC record found"@
            }
        },
    }
}

/// The trimmed, non-empty `;`-separated tags of one DMARC record body.
pub fn parse_dmarc_tags(dmarc_record: &str) -> (r: Vec<String>)
    ensures
        r.deep_view() == tags_of_record(dmarc_record@),
{
    let parts = split_char(dmarc_record, ';');
    let mut out: Vec<String> = Vec::new();
    let mut k: usize = 0;
    proof {
        reveal(Seq::filter);
        assert(out.deep_view() =~= parts.deep_view().subrange(0, 0).map_values(
            |p: Seq<char>| trimmed(p),
        ).filter(|t: Seq<char>| t.len() > 0));
    }
    while k < parts.len()
        invariant
            k <= parts.len(),
            parts.deep_view().len() == parts.len(),
            out.deep_view() == parts.deep_view().subrange(0, k as int).map_values(
                |p: Seq<char>| trimmed(p),
            ).filter(|t: Seq<char>| t.len() > 0),
        decreases parts.len() - k,
    {
        let t = trim_slice(parts[k].as_str());
        let ghost old_dv = out.deep_view();
        if !t.is_empty() {
            out.push(t.to_owned());
        }
        proof {
            reveal(Seq::filter);
            let dv = parts.deep_view();
            let m = |p: Seq<char>| trimmed(p);
            let mp1 = dv.subrange(0, k + 1).map_values(m);
            let mp0 = dv.subrange(0, k as int).map_values(m);
            assert(mp1.drop_last() =~= mp0);
            assert(mp1.last() == trimmed(dv[k as int]));
            if !(t@.len() == 0) {
                assert(out.deep_view() =~= old_dv.push(t@));
            }
        }
        k += 1;
    }
    proof {
        assert(parts.deep_view().subrange(0, parts.deep_view().len() as int) =~= parts.deep_view());
    }
    out
}

/// The DMARC finding for the `_dmarc` TXT answers: the status line and the
/// tag list gathered across the matching records.
pub fn check_dmarc(answers: &RawAnswerSet) -> (r: (String, Vec<String>))
    ensures
        r.0@ == dmarc_status(*answers),
        r.1.deep_view() == all_dmarc_tags(answers.texts()),
{
    match answers {
        RawAnswerSet::NoRecords => {
            let tags: Vec<String> = Vec::new();
            proof {
                reveal(Seq::filter);
                assert(tags.deep_view() =~= Seq::<Seq<char>>::empty());
                assert(dmarc_records_of(answers.texts()).map_values(
                    |r2: Seq<char>| tags_of_record(r2),
                ) =~= Seq::<Seq<Seq<char>>>::empty());
            }
            ("No DMARC record found".to_owned(), tags)
        },
        RawAnswerSet::Records(v) => {
            let mut records: Vec<String> = Vec::new();
            let mut tags: Vec<String> = Vec::new();
            let mut k: usize = 0;
            proof {
                reveal(Seq::filter);
                assert(records.deep_view() =~= v.deep_view().subrange(0, 0).filter(
                    |s: Seq<char>| is_dmarc_record(s),
                ));
                assert(tags.deep_view() =~= records.deep_view().map_values(
                    |r2: Seq<char>| tags_of_record(r2),
                ).flatten());
            }
            while k < v.len()
                invariant
                    k <= v.len(),
                    v.deep_view().len() == v.len(),
                    records.deep_view() == v.deep_view().subrange(0, k as int).filter(
                        |s: Seq<char>| is_dmarc_record(s),
                    ),
                    tags.deep_view() == records.deep_view().map_values(
                        |r2: Seq<char>| tags_of_record(r2),
                    ).flatten(),
                decreases v.len() - k,
            {
                let a = &v[k];
                let ghost old_records = records.deep_view();
                let ghost old_tags = tags.deep_view();
                if str_starts_with(a.as_str(), "v=DMARC1") {
                    records.push(a.clone());
                    let mut ts = parse_dmarc_tags(a.as_str());
                    let ghost ts_dv = ts.deep_view();
                    tags.append(&mut ts);
                    proof {
                        broadcast use Seq::lemma_flatten_push;

                        assert(records.deep_view() =~= old_records.push(a@));
                        assert(tags.deep_view() =~= old_tags + ts_dv);
                        let f = |r2: Seq<char>| tags_of_record(r2);
                        assert(old_records.push(a@).map_values(f) =~= old_records.map_values(
                            f,
                        ).push(tags_of_record(a@)));
                    }
                }
                proof {
                    reveal(Seq::filter);
                    let dv = v.deep_view();
                    assert(dv.subrange(0, k + 1).drop_last() =~= dv.subrange(0, k as int));
                    assert(dv.subrange(0, k + 1).last() == dv[k as int]);
                }
                k += 1;
            }
            proof {
                assert(v.deep_view().subrange(0, v.deep_view().len() as int) =~= v.deep_view());
            }
            let status = if records.len() == 0 {
                "No valid DMARC records found".to_owned()
            } else if records.len() > 1 {
                "Multiple DMARC records found (invalid)".to_owned()
            } else {
                "Valid DMARC record found".to_owned()
            };
            (status, tags)
        },
    }
}

/// The TXT name queried for the domain's DMARC policy: `_dmarc.<domain>`.
pub fn dmarc_query_name(domain: &str) -> (r: String)
    ensures
        r@ == "_dmarc."@ + domain@,
{
    let mut r = "_dmarc.".to_owned();
    r.append(domain);
    r
}

/// The single-record rule: two or more records matching the version tag make
/// the finding invalid regardless of their content, exactly one makes it
/// valid, and zero make it absent.
pub proof fn lemma_dmarc_single_record_rule(v: Vec<String>)
    ensures
        dmarc_records_of(v.deep_view()).len() >= 2 ==> dmarc_status(RawAnswerSet::Records(v))
            == "Multiple DMARC records found (invalid)"@,
        dmarc_records_of(v.deep_view()).len() == 1 ==> dmarc_status(RawAnswerSet::Records(v))
            == "Valid DMARC record found"@,
        dmarc_records_of(v.deep_view()).len() == 0 ==> dmarc_status(RawAnswerSet::Records(v))
            == "No valid DMARC records found"@,
        dmarc_status(RawAnswerSet::NoRecords) == "No DMARC record found"@,
{
}

#[verifier::rlimit(100)]
/// A single `v=DMARC1; p=quarantine; rua=mailto:x@y.com` answer yields the
/// valid status and exactly its three trimmed tags, in order.
pub proof fn lemma_quarantine_record_scenario(v: Vec<String>)
    requires
        v.deep_view() =~= seq!["v=DMARC1; p=quarantine; rua=mailto:x@y.com"@],
    ensures
        dmarc_status(RawAnswerSet::Records(v)) == "Valid DMARC record found"@,
        all_dmarc_tags(v.deep_view()) =~= seq![
            "v=DMARC1"@,
            "p=quarantine"@,
            "rua=mailto:x@y.com"@,
        ],
{
    reveal_strlit("v=DMARC1; p=quarantine; rua=mailto:x@y.com");
    reveal_strlit("v=DMARC1");
    reveal_strlit("p=quarantine");
    reveal_strlit("rua=mailto:x@y.com");
    reveal_strlit(" p=quarantine");
    reveal_strlit(" rua=mailto:x@y.com");
    let r = "v=DMARC1; p=quarantine; rua=mailto:x@y.com"@;

    // The three `;`-separated segments.
    assert(forall|j: int| 0 <= j < 8 ==> r[j] != ';');
    lemma_first_at(r, ';', 8);
    let t2 = r.subrange(9, 42);
    assert(forall|j: int| 0 <= j < 13 ==> t2[j] != ';');
    assert(t2[13] == ';');
    lemma_first_at(t2, ';', 13);
    let t3 = t2.subrange(14, 33);
    assert(forall|j: int| 0 <= j < 19 ==> t3[j] != ';');
    lemma_first_at(t3, ';', 19);
    assert(split_on(t3, ';') =~= seq![t3]);
    assert(split_on(t2, ';') =~= seq![t2.subrange(0, 13), t3]);
    let sp = split_on(r, ';');
    assert(sp =~= seq![r.subrange(0, 8), t2.subrange(0, 13), t3]);

    // Each segment trimmed.
    reveal_with_fuel(trim_left, 22);
    reveal_with_fuel(trim_right, 22);
    assert(r.subrange(0, 8) =~= "v=DMARC1"@);
    assert(t2.subrange(0, 13) =~= " p=quarantine"@);
    assert(t3 =~= " rua=mailto:x@y.com"@);
    assert(trimmed("v=DMARC1"@) =~= "v=DMARC1"@);
    assert(trimmed(" p=quarantine"@) =~= "p=quarantine"@);
    assert(trimmed(" rua=mailto:x@y.com"@) =~= "rua=mailto:x@y.com"@);
    let m = |p: Seq<char>| trimmed(p);
    let mapped = sp.map_values(m);
    assert(mapped =~= seq!["v=DMARC1"@, "p=quarantine"@, "rua=mailto:x@y.com"@]);

    // No segment trims to nothing, so the filter keeps all three.
    reveal_with_fuel(Seq::filter, 5);
    let pred = |t: Seq<char>| t.len() > 0;
    assert(mapped.drop_last() =~= seq!["v=DMARC1"@, "p=quarantine"@]);
    assert(mapped.drop_last().drop_last() =~= seq!["v=DMARC1"@]);
    assert(mapped.drop_last().drop_last().drop_last() =~= Seq::<Seq<char>>::empty());
    assert(tags_of_record(r) =~= seq!["v=DMARC1"@, "p=quarantine"@, "rua=mailto:x@y.com"@]);

    // The single answer is the single DMARC record.
    assert(is_dmarc_record(r));
    let dv = v.deep_view();
    assert(dv.drop_last() =~= Seq::<Seq<char>>::empty());
    assert(dmarc_records_of(dv) =~= seq![r]);

    // The record list of length one yields its tag list.
    let f = |r2: Seq<char>| tags_of_record(r2);
    assert(dmarc_records_of(dv).map_values(f) =~= seq![tags_of_record(r)]);
    seq![tags_of_record(r)].lemma_flatten_one_element();
}


} // verus!
