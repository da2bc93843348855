//! SPF analyzer: filters the domain's TXT answers to SPF records and
//! extracts the trusted-sender mechanism tokens.

use crate::answers::RawAnswerSet;
use crate::text::{
    is_prefix_of, is_space, lemma_first_space, str_starts_with, str_eq, split_whitespace_tokens,
    ws_tokens,
};
use vstd::prelude::*;

verus! {

/// A token that names a trusted sender: one of the mechanism prefixes
/// `ip4:`, `ip6:`, `include:`, `a:`, `mx:`, or exactly one of the
/// fail-qualifier tokens `~all`, `-all`, `?all`.
pub open spec fn is_trusted_token(t: Seq<char>) -> bool {
    is_prefix_of("ip4:"@, t) || is_prefix_of("ip6:"@, t) || is_prefix_of("include:"@, t)
        || is_prefix_of("a:"@, t) || is_prefix_of("mx:"@, t) || t == "~all"@ || t == "-all"@ || t
        == "?all"@
}

/// The trusted-sender tokens of one SPF record body, in token order.
pub open spec fn trusted_senders_of(record: Seq<char>) -> Seq<Seq<char>> {
    ws_tokens(record).filter(|t: Seq<char>| is_trusted_token(t))
}

/// An answer text is an SPF record when it begins with the version tag.
pub open spec fn is_spf_record(s: Seq<char>) -> bool {
    is_prefix_of("v=spf1"@, s)
}

/// The SPF records among the answers, in answer order.
pub open spec fn spf_records_of(answers: Seq<Seq<char>>) -> Seq<Seq<char>> {
    answers.filter(|s: Seq<char>| is_spf_record(s))
}

/// Trusted senders across all SPF records: record order, then token order
/// within each record.
pub open spec fn all_trusted_senders(answers: Seq<Seq<char>>) -> Seq<Seq<char>> {
    spf_records_of(answers).map_values(|r: Seq<char>| trusted_senders_of(r)).flatten()
}

/// The status line of the SPF finding: absence is reported as such; any
/// matching record makes the finding valid.
pub open spec fn spf_status(answers: Seq<Seq<char>>) -> Seq<char> {
    if spf_records_of(answers).len() == 0 {
        "No SPF records found"@
    } else {
        "Valid SPF record found"@
    }
}

/// The trusted-sender tokens of one SPF record body.
pub fn parse_trusted_senders(spf_record: &str) -> (r: Vec<String>)
    ensures
        r.deep_view() == trusted_senders_of(spf_record@),
{
    let toks = split_whitespace_tokens(spf_record);
    let mut out: Vec<String> = Vec::new();
    let mut k: usize = 0;
    proof {
        reveal(Seq::filter);
        assert(out.deep_view() =~= toks.deep_view().subrange(0, 0).filter(
            |t: Seq<char>| is_trusted_token(t),
        ));
    }
    while k < toks.len()
        invariant
            k <= toks.len(),
            toks.deep_view().len() == toks.len(),
            out.deep_view() == toks.deep_view().subrange(0, k as int).filter(
                |t: Seq<char>| is_trusted_token(t),
            ),
        decreases toks.len() - k,
    {
        let t = &toks[k];
        let keep = str_starts_with(t.as_str(), "ip4:") || str_starts_with(t.as_str(), "ip6:")
            || str_starts_with(t.as_str(), "include:") || str_starts_with(t.as_str(), "a:")
            || str_starts_with(t.as_str(), "mx:") || str_eq(t.as_str(), "~all") || str_eq(
            t.as_str(),
            "-all",
        ) || str_eq(t.as_str(), "?all");
        let ghost old_dv = out.deep_view();
        if keep {
            out.push(t.clone());
        }
        proof {
            reveal(Seq::filter);
            let dv = toks.deep_view();
            assert(dv.subrange(0, k + 1).drop_last() =~= dv.subrange(0, k as int));
            assert(dv.subrange(0, k + 1).last() == dv[k as int]);
            if keep {
                assert(out.deep_view() =~= old_dv.push(t@));
            }
        }
        k += 1;
    }
    proof {
        assert(toks.deep_view().subrange(0, toks.deep_view().len() as int) =~= toks.deep_view());
    }
    out
}

/// The SPF finding for the domain's TXT answers: the status line, the
/// trusted senders gathered across all SPF records, and the raw SPF records.
pub fn check_spf(answers: &RawAnswerSet) -> (r: (String, Vec<String>, Vec<String>))
    ensures
        r.0@ == spf_status(answers.texts()),
        r.1.deep_view() == all_trusted_senders(answers.texts()),
        r.2.deep_view() == spf_records_of(answers.texts()),
{
    match answers {
        RawAnswerSet::NoRecords => {
            let senders: Vec<String> = Vec::new();
            let records: Vec<String> = Vec::new();
            proof {
                reveal(Seq::filter);
                assert(senders.deep_view() =~= Seq::<Seq<char>>::empty());
                assert(records.deep_view() =~= Seq::<Seq<char>>::empty());
                assert(spf_records_of(answers.texts()).map_values(
                    |r2: Seq<char>| trusted_senders_of(r2),
                ) =~= Seq::<Seq<Seq<char>>>::empty());
            }
            ("No SPF records found".to_owned(), senders, records)
        },
        RawAnswerSet::Records(v) => {
            let mut records: Vec<String> = Vec::new();
            let mut senders: Vec<String> = Vec::new();
            let mut k: usize = 0;
            proof {
                reveal(Seq::filter);
                assert(records.deep_view() =~= v.deep_view().subrange(0, 0).filter(
                    |s: Seq<char>| is_spf_record(s),
                ));
                assert(senders.deep_view() =~= records.deep_view().map_values(
                    |r2: Seq<char>| trusted_senders_of(r2),
                ).flatten());
            }
            while k < v.len()
                invariant
                    k <= v.len(),
                    v.deep_view().len() == v.len(),
                    records.deep_view() == v.deep_view().subrange(0, k as int).filter(
                        |s: Seq<char>| is_spf_record(s),
                    ),
                    senders.deep_view() == records.deep_view().map_values(
                        |r2: Seq<char>| trusted_senders_of(r2),
                    ).flatten(),
                decreases v.len() - k,
            {
                let a = &v[k];
                let ghost old_records = records.deep_view();
                let ghost old_senders = senders.deep_view();
                if str_starts_with(a.as_str(), "v=spf1") {
                    records.push(a.clone());
                    let mut ts = parse_trusted_senders(a.as_str());
                    let ghost ts_dv = ts.deep_view();
                    senders.append(&mut ts);
                    proof {
                        broadcast use Seq::lemma_flatten_push;

                        assert(records.deep_view() =~= old_records.push(a@));
                        assert(senders.deep_view() =~= old_senders + ts_dv);
                        let f = |r2: Seq<char>| trusted_senders_of(r2);
                        assert(old_records.push(a@).map_values(f) =~= old_records.map_values(
                            f,
                        ).push(trusted_senders_of(a@)));
                    }
                }
                proof {
                    reveal(Seq::filter);
                    let dv = v.deep_view();
                    assert(dv.subrange(0, k + 1).drop_last() =~= dv.subrange(0, k as int));
                    assert(dv.subrange(0, k + 1).last() == dv[k as int]);
                }
                k += 1;
            }
            proof {
                assert(v.deep_view().subrange(0, v.deep_view().len() as int) =~= v.deep_view());
            }
            let status = if records.len() == 0 {
                "No SPF records found".to_owned()
            } else {
                "Valid SPF record found".to_owned()
            };
            (status, senders, records)
        },
    }
}

/// The trusted senders of a record are exactly its tokens that pass the fixed
/// classification — every entry passes it, every passing token appears — and
/// they stand in token order, being a filter of the token list.
pub proof fn lemma_trusted_senders_characterization(record: Seq<char>)
    ensures
        trusted_senders_of(record) == ws_tokens(record).filter(
            |t: Seq<char>| is_trusted_token(t),
        ),
        forall|i: int|
            0 <= i < trusted_senders_of(record).len() ==> is_trusted_token(
                #[trigger] trusted_senders_of(record)[i],
            ),
        forall|i: int|
            0 <= i < ws_tokens(record).len() && is_trusted_token(
                #[trigger] ws_tokens(record)[i],
            ) ==> trusted_senders_of(record).contains(ws_tokens(record)[i]),
{
    let pred = |t: Seq<char>| is_trusted_token(t);
    let toks = ws_tokens(record);
    assert forall|i: int|
        0 <= i < trusted_senders_of(record).len() implies is_trusted_token(
        #[trigger] trusted_senders_of(record)[i],
    ) by {
        toks.lemma_filter_pred(pred, i);
    }
    assert forall|i: int|
        0 <= i < toks.len() && is_trusted_token(#[trigger] toks[i]) implies trusted_senders_of(
        record,
    ).contains(toks[i]) by {
        toks.lemma_filter_contains(pred, i);
    }
}

/// A single `v=spf1 ip4:1.2.3.4 -all` answer yields the valid status, itself
/// as the one SPF record, and exactly the trusted senders `ip4:1.2.3.4`
/// and `-all`, in order.
#[verifier::rlimit(100)]
pub proof fn lemma_hard_fail_record_scenario(v: Vec<String>)
    requires
        v.deep_view() =~= seq!["v=spf1 ip4:1.2.3.4 -all"@],
    ensures
        spf_status(v.deep_view()) == "Valid SPF record found"@,
        spf_records_of(v.deep_view()) =~= seq!["v=spf1 ip4:1.2.3.4 -all"@],
        all_trusted_senders(v.deep_view()) =~= seq!["ip4:1.2.3.4"@, "-all"@],
{
    reveal_strlit("v=spf1 ip4:1.2.3.4 -all");
    reveal_strlit("v=spf1");
    reveal_strlit("ip4:1.2.3.4");
    reveal_strlit("ip4:");
    reveal_strlit("ip6:");
    reveal_strlit("include:");
    reveal_strlit("a:");
    reveal_strlit("mx:");
    reveal_strlit("~all");
    reveal_strlit("-all");
    reveal_strlit("?all");
    let r = "v=spf1 ip4:1.2.3.4 -all"@;

    // The three whitespace-separated tokens.
    assert(forall|j: int| 0 <= j < 6 ==> !is_space(r[j]));
    assert(is_space(r[6]));
    lemma_first_space(r, 6);
    let u1 = r.subrange(6, 23);
    assert(is_space(u1[0]));
    let u2 = u1.subrange(1, 17);
    assert(forall|j: int| 0 <= j < 11 ==> !is_space(u2[j]));
    assert(is_space(u2[11]));
    lemma_first_space(u2, 11);
    let u3 = u2.subrange(11, 16);
    assert(is_space(u3[0]));
    let u4 = u3.subrange(1, 5);
    assert(forall|j: int| 0 <= j < 4 ==> !is_space(u4[j]));
    lemma_first_space(u4, 4);
    assert(ws_tokens(u4) =~= seq![u4]);
    assert(ws_tokens(u3) =~= seq![u4]);
    assert(ws_tokens(u2) =~= seq![u2.subrange(0, 11), u4]);
    assert(ws_tokens(u1) =~= seq![u2.subrange(0, 11), u4]);
    let toks = ws_tokens(r);
    assert(toks =~= seq![r.subrange(0, 6), u2.subrange(0, 11), u4]);
    assert(r.subrange(0, 6) =~= "v=spf1"@);
    assert(u2.subrange(0, 11) =~= "ip4:1.2.3.4"@);
    assert(u4 =~= "-all"@);
    assert(toks =~= seq!["v=spf1"@, "ip4:1.2.3.4"@, "-all"@]);

    // The version tag is no trusted sender; the mechanism and the qualifier are.
    assert(!is_trusted_token("v=spf1"@)) by {
        assert(("v=spf1"@).subrange(0, 2)[0] == 'v');
        assert(("v=spf1"@).subrange(0, 3)[0] == 'v');
        assert(("v=spf1"@).subrange(0, 4)[0] == 'v');
    }
    assert(is_trusted_token("ip4:1.2.3.4"@)) by {
        assert(("ip4:1.2.3.4"@).subrange(0, 4) =~= "ip4:"@);
    }
    assert(is_trusted_token("-all"@));

    // The filter keeps the two trusted tokens, in token order.
    reveal_with_fuel(Seq::filter, 5);
    assert(toks.drop_last() =~= seq!["v=spf1"@, "ip4:1.2.3.4"@]);
    assert(toks.drop_last().drop_last() =~= seq!["v=spf1"@]);
    assert(toks.drop_last().drop_last().drop_last() =~= Seq::<Seq<char>>::empty());
    assert(trusted_senders_of(r) =~= seq!["ip4:1.2.3.4"@, "-all"@]);

    // The single answer is the single SPF record.
    assert(is_spf_record(r)) by {
        assert(r.subrange(0, 6) =~= "v=spf1"@);
    }
    let dv = v.deep_view();
    assert(dv.drop_last() =~= Seq::<Seq<char>>::empty());
    assert(spf_records_of(dv) =~= seq![r]);

    // The record list of length one yields its trusted senders.
    let f = |r2: Seq<char>| trusted_senders_of(r2);
    assert(spf_records_of(dv).map_values(f) =~= seq![trusted_senders_of(r)]);
    seq![trusted_senders_of(r)].lemma_flatten_one_element();
}

} // verus!
