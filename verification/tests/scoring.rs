use domain_health::answers::RawAnswerSet;
use domain_health::dkim::check_dkim;
use domain_health::dmarc::check_dmarc;
use domain_health::health_score::{calculate_health_score, HealthScore};
use domain_health::mail_provider::check_mail_provider;
use domain_health::spf::check_spf;

fn records(texts: &[&str]) -> RawAnswerSet {
    RawAnswerSet::Records(texts.iter().map(|t| t.to_string()).collect())
}

fn no_records_per_selector(n: usize) -> Vec<RawAnswerSet> {
    (0..n).map(|_| RawAnswerSet::NoRecords).collect()
}

fn score_from(
    spf: &RawAnswerSet,
    dmarc: &RawAnswerSet,
    dkim_sets: &Vec<RawAnswerSet>,
) -> HealthScore {
    let (spf_result, _senders, spf_records) = check_spf(spf);
    let (dmarc_result, dmarc_tags) = check_dmarc(dmarc);
    let (dkim_result, _entries) = check_dkim(dkim_sets);
    calculate_health_score(&spf_result, &dmarc_result, &dkim_result, &spf_records, &dmarc_tags)
}

fn breakdown_pairs(h: &HealthScore) -> Vec<(String, u32)> {
    h.breakdown.clone()
}

#[test]
fn empty_domain_scores_zero_with_three_suggestions() {
    let provider = check_mail_provider(&RawAnswerSet::NoRecords);
    let (spf_result, senders, spf_records) = check_spf(&RawAnswerSet::NoRecords);
    let (dmarc_result, dmarc_tags) = check_dmarc(&RawAnswerSet::NoRecords);
    let (dkim_result, entries) = check_dkim(&no_records_per_selector(8));
    assert_eq!(provider, "No MX records found");
    assert_eq!(spf_result, "No SPF records found");
    assert_eq!(dmarc_result, "No DMARC record found");
    assert_eq!(dkim_result, "No DKIM records found for common selectors");
    assert!(senders.is_empty() && spf_records.is_empty() && dmarc_tags.is_empty());
    assert!(entries.is_empty());
    let h = calculate_health_score(&spf_result, &dmarc_result, &dkim_result, &spf_records, &dmarc_tags);
    assert_eq!(h.score, 0);
    assert_eq!(h.max_score, 100);
    assert_eq!(h.suggestions.len(), 3);
    assert_eq!(
        breakdown_pairs(&h),
        vec![
            ("SPF".to_string(), 0),
            ("DMARC".to_string(), 0),
            ("DKIM".to_string(), 0),
        ]
    );
}

#[test]
fn spf_with_hard_fail_earns_full_marks_and_no_spf_suggestion() {
    let h = score_from(
        &records(&["v=spf1 ip4:1.2.3.4 -all"]),
        &RawAnswerSet::NoRecords,
        &no_records_per_selector(8),
    );
    assert_eq!(breakdown_pairs(&h)[0], ("SPF".to_string(), 33));
    assert!(!h.suggestions.iter().any(|s| s.contains("SPF")));
}

#[test]
fn spf_without_hard_fail_earns_partial_marks_and_a_suggestion() {
    let h = score_from(
        &records(&["v=spf1 ip4:1.2.3.4 ~all"]),
        &RawAnswerSet::NoRecords,
        &no_records_per_selector(8),
    );
    assert_eq!(breakdown_pairs(&h)[0], ("SPF".to_string(), 25));
    assert!(h
        .suggestions
        .contains(&"Consider adding a hard fail (-all) to your SPF record for stronger protection.".to_string()));
}

#[test]
fn hard_fail_must_be_a_whole_token_not_a_substring() {
    // "-allx" holds "-all" as a substring but is no fail-qualifier token,
    // so the record earns only partial marks and the suggestion.
    let h = score_from(
        &records(&["v=spf1 -allx"]),
        &RawAnswerSet::NoRecords,
        &no_records_per_selector(8),
    );
    assert_eq!(breakdown_pairs(&h)[0], ("SPF".to_string(), 25));
    assert!(h
        .suggestions
        .contains(&"Consider adding a hard fail (-all) to your SPF record for stronger protection.".to_string()));
}

#[test]
fn dmarc_quarantine_earns_partial_marks_and_upgrade_suggestion() {
    let h = score_from(
        &RawAnswerSet::NoRecords,
        &records(&["v=DMARC1; p=quarantine; rua=mailto:x@y.com"]),
        &no_records_per_selector(8),
    );
    assert_eq!(breakdown_pairs(&h)[1], ("DMARC".to_string(), 25));
    assert!(h
        .suggestions
        .contains(&"Consider upgrading your DMARC policy to 'p=reject' for maximum security.".to_string()));
}

#[test]
fn dmarc_reject_earns_full_marks() {
    let h = score_from(
        &RawAnswerSet::NoRecords,
        &records(&["v=DMARC1; p=reject"]),
        &no_records_per_selector(8),
    );
    assert_eq!(breakdown_pairs(&h)[1], ("DMARC".to_string(), 34));
    assert!(!h.suggestions.iter().any(|s| s.contains("DMARC")));
}

#[test]
fn dmarc_none_policy_earns_reduced_marks_and_strengthen_suggestion() {
    let h = score_from(
        &RawAnswerSet::NoRecords,
        &records(&["v=DMARC1; p=none"]),
        &no_records_per_selector(8),
    );
    assert_eq!(breakdown_pairs(&h)[1], ("DMARC".to_string(), 20));
    assert!(h
        .suggestions
        .contains(&"Strengthen your DMARC policy by setting it to 'p=quarantine' or 'p=reject'.".to_string()));
}

#[test]
fn two_dmarc_records_score_zero_with_implement_suggestion() {
    let h = score_from(
        &RawAnswerSet::NoRecords,
        &records(&["v=DMARC1; p=reject", "v=DMARC1; p=none"]),
        &no_records_per_selector(8),
    );
    assert_eq!(breakdown_pairs(&h)[1], ("DMARC".to_string(), 0));
    assert!(h
        .suggestions
        .contains(&"Implement a DMARC record to enhance email security and reduce the risk of email spoofing.".to_string()));
}

#[test]
fn one_matching_dkim_selector_earns_full_marks() {
    let mut sets = no_records_per_selector(8);
    sets[0] = records(&["v=DKIM1; k=rsa; p=0123456789ABCDEFGHIJKLMNOPQRSTUVWXYZabcd"]);
    let h = score_from(&RawAnswerSet::NoRecords, &RawAnswerSet::NoRecords, &sets);
    assert_eq!(breakdown_pairs(&h)[2], ("DKIM".to_string(), 33));
    assert!(!h.suggestions.iter().any(|s| s.contains("DKIM")));
}

#[test]
fn fully_configured_domain_scores_one_hundred() {
    let mut sets = no_records_per_selector(8);
    sets[4] = records(&["v=DKIM1; k=rsa; p=abc"]);
    let h = score_from(
        &records(&["v=spf1 include:spf.example.net -all"]),
        &records(&["v=DMARC1; p=reject; rua=mailto:x@y.com"]),
        &sets,
    );
    assert_eq!(h.score, 100);
    assert_eq!(h.max_score, 100);
    assert!(h.suggestions.is_empty());
    assert_eq!(
        breakdown_pairs(&h),
        vec![
            ("SPF".to_string(), 33),
            ("DMARC".to_string(), 34),
            ("DKIM".to_string(), 33),
        ]
    );
}

#[test]
fn score_equals_sum_of_breakdown() {
    let cases: Vec<HealthScore> = vec![
        score_from(&RawAnswerSet::NoRecords, &RawAnswerSet::NoRecords, &no_records_per_selector(8)),
        score_from(
            &records(&["v=spf1 ~all"]),
            &records(&["v=DMARC1; p=none"]),
            &no_records_per_selector(8),
        ),
        score_from(
            &records(&["v=spf1 -all"]),
            &records(&["v=DMARC1; p=quarantine"]),
            &no_records_per_selector(8),
        ),
    ];
    for h in cases {
        let sum: u32 = h.breakdown.iter().map(|(_, p)| *p).sum();
        assert_eq!(h.score, sum);
        for (name, points) in &h.breakdown {
            match name.as_str() {
                "SPF" => assert!([0, 25, 33].contains(points)),
                "DMARC" => assert!([0, 20, 25, 34].contains(points)),
                "DKIM" => assert!([0, 33].contains(points)),
                other => panic!("unexpected category {}", other),
            }
        }
    }
}

#[test]
fn suggestions_keep_category_order() {
    let h = score_from(
        &records(&["v=spf1 ~all"]),
        &records(&["v=DMARC1; p=none"]),
        &no_records_per_selector(8),
    );
    assert_eq!(h.score, 45);
    assert_eq!(
        h.suggestions,
        vec![
            "Consider adding a hard fail (-all) to your SPF record for stronger protection.".to_string(),
            "Strengthen your DMARC policy by setting it to 'p=quarantine' or 'p=reject'.".to_string(),
            "Set up DKIM for your domain to improve email authentication and deliverability.".to_string(),
        ]
    );
}

#[test]
fn running_twice_on_the_same_answers_is_identical() {
    let spf = records(&["v=spf1 ip4:9.9.9.9 ~all"]);
    let dmarc = records(&["v=DMARC1; p=quarantine"]);
    let mut sets = no_records_per_selector(8);
    sets[3] = records(&["v=DKIM1; p=0123456789ABCDEFGHIJKLMNOPQRSTUVWXYZabcd"]);
    let mx = records(&["aspmx.l.google.com."]);

    let first = (
        check_mail_provider(&mx),
        check_spf(&spf),
        check_dmarc(&dmarc),
        check_dkim(&sets),
    );
    let second = (
        check_mail_provider(&mx),
        check_spf(&spf),
        check_dmarc(&dmarc),
        check_dkim(&sets),
    );
    assert_eq!(first, second);

    let h1 = calculate_health_score(&first.1.0, &first.2.0, &first.3.0, &first.1.2, &first.2.1);
    let h2 = calculate_health_score(&second.1.0, &second.2.0, &second.3.0, &second.1.2, &second.2.1);
    assert_eq!(h1.score, h2.score);
    assert_eq!(h1.max_score, h2.max_score);
    assert_eq!(h1.breakdown, h2.breakdown);
    assert_eq!(h1.suggestions, h2.suggestions);
}
