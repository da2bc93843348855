//! Health scorer: weighted points per category, the fixed-order breakdown,
//! and the remediation suggestions.

use crate::answers::RawAnswerSet;
use crate::dkim::{dkim_entries, dkim_status};
use crate::dmarc::{all_dmarc_tags, dmarc_status};
use crate::mail_provider::mail_provider_of;
use crate::spf::{all_trusted_senders, parse_trusted_senders, spf_records_of, spf_status, trusted_senders_of};
use crate::text::{contains_seq, str_contains, str_eq};
use vstd::prelude::*;

verus! {

/// The combined health of a domain's email authentication: a weighted score
/// out of `max_score`, the per-category breakdown in fixed order, and the
/// remediation suggestions in the same category order.
pub struct HealthScore {
    pub score: u32,
    pub max_score: u32,
    pub breakdown: Vec<(String, u32)>,
    pub suggestions: Vec<String>,
}

/// Some text of `xs` contains `pat`.
pub open spec fn any_contains_in(xs: Seq<Seq<char>>, pat: Seq<char>) -> bool {
    exists|i: int| 0 <= i < xs.len() && #[trigger] contains_seq(xs[i], pat)
}

/// Whether any string of `v` contains `pat`.
pub fn any_contains(v: &Vec<String>, pat: &str) -> (r: bool)
    ensures
        r == any_contains_in(v.deep_view(), pat@),
{
    let mut k: usize = 0;
    while k < v.len()
        invariant
            k <= v.len(),
            v.deep_view().len() == v.len(),
            forall|j: int| 0 <= j < k ==> !#[trigger] contains_seq(v.deep_view()[j], pat@),
        decreases v.len() - k,
    {
        if str_contains(v[k].as_str(), pat) {
            assert(contains_seq(v.deep_view()[k as int], pat@));
            return true;
        }
        k += 1;
    }
    false
}

/// A hard-fail qualifier stands among some record's trusted-sender tokens:
/// `-all` as a whole token, not merely as a substring of a record.
pub open spec fn has_hard_fail(spf_records: Seq<Seq<char>>) -> bool {
    exists|i: int|
        0 <= i < spf_records.len() && #[trigger] trusted_senders_of(spf_records[i]).contains(
            "-all"@,
        )
}

/// Whether any token of `toks` is exactly `-all`.
fn contains_hard_fail_token(toks: &Vec<String>) -> (r: bool)
    ensures
        r == toks.deep_view().contains("-all"@),
{
    let mut j: usize = 0;
    while j < toks.len()
        invariant
            j <= toks.len(),
            toks.deep_view().len() == toks.len(),
            forall|m: int| 0 <= m < j ==> toks.deep_view()[m] != "-all"@,
        decreases toks.len() - j,
    {
        if str_eq(toks[j].as_str(), "-all") {
            assert(toks.deep_view()[j as int] == "-all"@);
            return true;
        }
        j += 1;
    }
    false
}

/// Whether any record of `v`, tokenized, carries `-all` among its
/// trusted senders.
fn any_hard_fail(v: &Vec<String>) -> (r: bool)
    ensures
        r == has_hard_fail(v.deep_view()),
{
    let mut k: usize = 0;
    while k < v.len()
        invariant
            k <= v.len(),
            v.deep_view().len() == v.len(),
            forall|i: int|
                0 <= i < k ==> !#[trigger] trusted_senders_of(v.deep_view()[i]).contains("-all"@),
        decreases v.len() - k,
    {
        let toks = parse_trusted_senders(v[k].as_str());
        if contains_hard_fail_token(&toks) {
            assert(trusted_senders_of(v.deep_view()[k as int]).contains("-all"@));
            return true;
        }
        k += 1;
    }
    false
}

/// SPF points: 33 for a valid finding with the `-all` token among the
/// records' trusted senders, 25 for a valid finding without it, 0 otherwise.
pub open spec fn spf_points(spf_result: Seq<char>, spf_records: Seq<Seq<char>>) -> u32 {
    if contains_seq(spf_result, "Valid"@) {
        if has_hard_fail(spf_records) {
            33
        } else {
            25
        }
    } else {
        0
    }
}

/// DMARC points: 34 for a valid finding with a reject policy, 25 with a
/// quarantine policy, 20 for a valid finding with neither, 0 otherwise.
pub open spec fn dmarc_points(dmarc_result: Seq<char>, dmarc_tags: Seq<Seq<char>>) -> u32 {
    if contains_seq(dmarc_result, "Valid"@) {
        if any_contains_in(dmarc_tags, "p=reject"@) {
            34
        } else if any_contains_in(dmarc_tags, "p=quarantine"@) {
            25
        } else {
            20
        }
    } else {
        0
    }
}

/// DKIM points: 33 as soon as any selector matched, 0 otherwise.
pub open spec fn dkim_points(dkim_result: Seq<char>) -> u32 {
    if !contains_seq(dkim_result, "No DKIM records found for"@) {
        33
    } else {
        0
    }
}

/// The suggestions the SPF category emits: none at full marks.
pub open spec fn spf_suggestions(spf_result: Seq<char>, spf_records: Seq<Seq<char>>) -> Seq<
    Seq<char>,
> {
    if contains_seq(spf_result, "Valid"@) {
        if has_hard_fail(spf_records) {
            Seq::empty()
        } else {
            seq![
                "Consider adding a hard fail (-all) to your SPF record for stronger protection."@,
            ]
        }
    } else {
        seq!["Implement a valid SPF record to improve email authentication."@]
    }
}

/// The suggestions the DMARC category emits: none at full marks.
pub open spec fn dmarc_suggestions(dmarc_result: Seq<char>, dmarc_tags: Seq<Seq<char>>) -> Seq<
    Seq<char>,
> {
    if contains_seq(dmarc_result, "Valid"@) {
        if any_contains_in(dmarc_tags, "p=reject"@) {
            Seq::empty()
        } else if any_contains_in(dmarc_tags, "p=quarantine"@) {
            seq!["Consider upgrading your DMARC policy to 'p=reject' for maximum security."@]
        } else {
            seq![
                "Strengthen your DMARC policy by setting it to 'p=quarantine' or 'p=reject'."@,
            ]
        }
    } else {
        seq![
            "Implement a DMARC record to enhance email security and reduce the risk of email spoofing."@,
        ]
    }
}

/// The suggestions the DKIM category emits: none at full marks.
pub open spec fn dkim_suggestions(dkim_result: Seq<char>) -> Seq<Seq<char>> {
    if !contains_seq(dkim_result, "No DKIM records found for"@) {
        Seq::empty()
    } else {
        seq![
            "Set up DKIM for your domain to improve email authentication and deliverability."@,
        ]
    }
}

/// All suggestions, appended in the fixed category order SPF, DMARC, DKIM.
pub open spec fn suggestions_of(
    spf_result: Seq<char>,
    spf_records: Seq<Seq<char>>,
    dmarc_result: Seq<char>,
    dmarc_tags: Seq<Seq<char>>,
    dkim_result: Seq<char>,
) -> Seq<Seq<char>> {
    spf_suggestions(spf_result, spf_records) + dmarc_suggestions(dmarc_result, dmarc_tags)
        + dkim_suggestions(dkim_result)
}

/// The weighted health score over the analyzer findings: the score is the sum
/// of the three category points, the breakdown lists them in fixed order, and
/// suggestions are emitted for every category short of full marks.
pub fn calculate_health_score(
    spf_result: &str,
    dmarc_result: &str,
    dkim_result: &str,
    spf_records: &Vec<String>,
    dmarc_tags: &Vec<String>,
) -> (r: HealthScore)
    ensures
        r.max_score == 100,
        r.score == spf_points(spf_result@, spf_records.deep_view()) + dmarc_points(
            dmarc_result@,
            dmarc_tags.deep_view(),
        ) + dkim_points(dkim_result@),
        r.score <= r.max_score,
        r.breakdown@.len() == 3,
        r.breakdown@[0].0@ == "SPF"@,
        r.breakdown@[0].1 == spf_points(spf_result@, spf_records.deep_view()),
        r.breakdown@[1].0@ == "DMARC"@,
        r.breakdown@[1].1 == dmarc_points(dmarc_result@, dmarc_tags.deep_view()),
        r.breakdown@[2].0@ == "DKIM"@,
        r.breakdown@[2].1 == dkim_points(dkim_result@),
        r.suggestions.deep_view() == suggestions_of(
            spf_result@,
            spf_records.deep_view(),
            dmarc_result@,
            dmarc_tags.deep_view(),
            dkim_result@,
        ),
{
    let mut score: u32 = 0;
    let mut breakdown: Vec<(String, u32)> = Vec::new();
    let mut suggestions: Vec<String> = Vec::new();
    let max_score: u32 = 100;

    let spf_score: u32 = if str_contains(spf_result, "Valid") {
        if any_hard_fail(spf_records) {
            33
        } else {
            suggestions.push(
                "Consider adding a hard fail (-all) to your SPF record for stronger protection."
                    .to_owned(),
            );
            25
        }
    } else {
        suggestions.push("Implement a valid SPF record to improve email authentication.".to_owned());
        0
    };
    proof {
        assert(suggestions.deep_view() =~= spf_suggestions(spf_result@, spf_records.deep_view()));
    }
    score += spf_score;
    breakdown.push(("SPF".to_owned(), spf_score));

    let dmarc_score: u32 = if str_contains(dmarc_result, "Valid") {
        if any_contains(dmarc_tags, "p=reject") {
            34
        } else if any_contains(dmarc_tags, "p=quarantine") {
            suggestions.push(
                "Consider upgrading your DMARC policy to 'p=reject' for maximum security."
                    .to_owned(),
            );
            25
        } else {
            suggestions.push(
                "Strengthen your DMARC policy by setting it to 'p=quarantine' or 'p=reject'."
                    .to_owned(),
            );
            20
        }
    } else {
        suggestions.push(
            "Implement a DMARC record to enhance email security and reduce the risk of email spoofing."
                .to_owned(),
        );
        0
    };
    proof {
        assert(suggestions.deep_view() =~= spf_suggestions(spf_result@, spf_records.deep_view())
            + dmarc_suggestions(dmarc_result@, dmarc_tags.deep_view()));
    }
    score += dmarc_score;
    breakdown.push(("DMARC".to_owned(), dmarc_score));

    let dkim_score: u32 = if !str_contains(dkim_result, "No DKIM records found for") {
        33
    } else {
        suggestions.push(
            "Set up DKIM for your domain to improve email authentication and deliverability."
                .to_owned(),
        );
        0
    };
    proof {
        assert(suggestions.deep_view() =~= suggestions_of(
            spf_result@,
            spf_records.deep_view(),
            dmarc_result@,
            dmarc_tags.deep_view(),
            dkim_result@,
        ));
    }
    score += dkim_score;
    breakdown.push(("DKIM".to_owned(), dkim_score));

    HealthScore { score, max_score, breakdown, suggestions }
}

/// Each category's points lie in its fixed value set: {0, 25, 33} for SPF,
/// {0, 20, 25, 34} for DMARC, {0, 33} for DKIM; the score is their sum by
/// the scorer's contract, so it never exceeds 33 + 34 + 33 = 100.
pub proof fn lemma_point_value_sets(
    spf_result: Seq<char>,
    spf_records: Seq<Seq<char>>,
    dmarc_result: Seq<char>,
    dmarc_tags: Seq<Seq<char>>,
    dkim_result: Seq<char>,
)
    ensures
        spf_points(spf_result, spf_records) == 0 || spf_points(spf_result, spf_records) == 25
            || spf_points(spf_result, spf_records) == 33,
        dmarc_points(dmarc_result, dmarc_tags) == 0 || dmarc_points(dmarc_result, dmarc_tags)
            == 20 || dmarc_points(dmarc_result, dmarc_tags) == 25 || dmarc_points(
            dmarc_result,
            dmarc_tags,
        ) == 34,
        dkim_points(dkim_result) == 0 || dkim_points(dkim_result) == 33,
        spf_points(spf_result, spf_records) + dmarc_points(dmarc_result, dmarc_tags)
            + dkim_points(dkim_result) <= 100,
{
}

/// Everything one full run reports, as a function of the four answer sets
/// alone: provider label; SPF status, trusted senders and records; DMARC
/// status and tags; DKIM status and entries; score, breakdown and
/// suggestions.
pub open spec fn report_of(mx: RawAnswerSet, txt: RawAnswerSet, dm: RawAnswerSet, dk: Seq<
    RawAnswerSet,
>) -> (
    Seq<char>,
    Seq<char>,
    Seq<Seq<char>>,
    Seq<Seq<char>>,
    Seq<char>,
    Seq<Seq<char>>,
    Seq<char>,
    Seq<Seq<char>>,
    u32,
    Seq<(Seq<char>, u32)>,
    Seq<Seq<char>>,
) {
    let sstat = spf_status(txt.texts());
    let srecs = spf_records_of(txt.texts());
    let dstat = dmarc_status(dm);
    let dtags = all_dmarc_tags(dm.texts());
    let kstat = dkim_status(dk);
    let sp = spf_points(sstat, srecs);
    let dp = dmarc_points(dstat, dtags);
    let kp = dkim_points(kstat);
    (
        mail_provider_of(mx.texts()),
        sstat,
        all_trusted_senders(txt.texts()),
        srecs,
        dstat,
        dtags,
        kstat,
        dkim_entries(dk),
        (sp + dp + kp) as u32,
        seq![("SPF"@, sp), ("DMARC"@, dp), ("DKIM"@, kp)],
        suggestions_of(sstat, srecs, dstat, dtags, kstat),
    )
}

/// Idempotence of the pipeline: every analyzer output and every scorer field
/// is pinned, through the functions' contracts, by the answer sets' views
/// alone, so two runs over the same static answer sets report the same thing.
pub proof fn lemma_pipeline_idempotent(
    mx: RawAnswerSet,
    txt: RawAnswerSet,
    dm: RawAnswerSet,
    dk: Seq<RawAnswerSet>,
    run1: (
        Seq<char>,
        Seq<char>,
        Seq<Seq<char>>,
        Seq<Seq<char>>,
        Seq<char>,
        Seq<Seq<char>>,
        Seq<char>,
        Seq<Seq<char>>,
        u32,
        Seq<(Seq<char>, u32)>,
        Seq<Seq<char>>,
    ),
    run2: (
        Seq<char>,
        Seq<char>,
        Seq<Seq<char>>,
        Seq<Seq<char>>,
        Seq<char>,
        Seq<Seq<char>>,
        Seq<char>,
        Seq<Seq<char>>,
        u32,
        Seq<(Seq<char>, u32)>,
        Seq<Seq<char>>,
    ),
)
    requires
        run1 == report_of(mx, txt, dm, dk),
        run2 == report_of(mx, txt, dm, dk),
    ensures
        run1 == run2,
{
}

} // verus!
