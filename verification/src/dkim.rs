//! DKIM prober: the fixed selector list, the per-selector record match, and
//! the display rules that truncate long key material and collapse records
//! with many segments.

use crate::answers::RawAnswerSet;
use crate::text::{
    contains_seq, dec_rep, dec_string, is_prefix_of, is_space, join_strs, join_with,
    lemma_first_at, split_char, split_on, str_contains, str_starts_with,
    trim_left, trim_right, trim_slice, trimmed,
};
use vstd::prelude::*;

verus! {

/// The fixed selector list, in display order.
pub open spec fn dkim_selector_names() -> Seq<Seq<char>> {
    seq![
        "default"@,
        "google"@,
        "dkim"@,
        "k1"@,
        "selector1"@,
        "selector2"@,
        "microsoft"@,
        "sendgrid"@,
    ]
}

/// The fixed selector list, in display order.
pub fn dkim_selectors() -> (r: Vec<String>)
    ensures
        r.deep_view() == dkim_selector_names(),
{
    let mut r: Vec<String> = Vec::new();
    r.push("default".to_owned());
    r.push("google".to_owned());
    r.push("dkim".to_owned());
    r.push("k1".to_owned());
    r.push("selector1".to_owned());
    r.push("selector2".to_owned());
    r.push("microsoft".to_owned());
    r.push("sendgrid".to_owned());
    proof {
        assert(r.deep_view() =~= dkim_selector_names());
    }
    r
}

/// The TXT name probed for a selector: `<selector>._domainkey.<domain>`.
pub fn dkim_query_name(selector: &str, domain: &str) -> (r: String)
    ensures
        r@ == selector@ + "._domainkey."@ + domain@,
{
    let mut r = selector.to_owned();
    r.append("._domainkey.");
    r.append(domain);
    r
}

/// The key material of a `p=` segment: everything after the leading `p=` of
/// the trimmed segment, base64 `=` padding included.
pub open spec fn key_of(t: Seq<char>) -> Seq<char> {
    t.subrange(2, t.len() as int)
}

/// One `;`-separated segment after key truncation: a segment whose trimmed
/// text starts with `p=` and whose key exceeds 20 characters is replaced by
/// ` p=<first 8>...<last 8>`; every other segment passes through unchanged.
pub open spec fn truncated_segment(seg: Seq<char>) -> Seq<char> {
    let t = trimmed(seg);
    if is_prefix_of("p="@, t) {
        let key = key_of(t);
        if key.len() > 20 {
            " p="@ + key.subrange(0, 8) + "..."@ + key.subrange(key.len() - 8, key.len() as int)
        } else {
            seg
        }
    } else {
        seg
    }
}

/// Segment collapsing: up to 8 segments are joined back with `;`; more are
/// shown as the first four, an ellipsis, and the last four.
pub open spec fn collapsed(parts: Seq<Seq<char>>) -> Seq<char> {
    if parts.len() <= 8 {
        join_with(parts, ";"@)
    } else {
        join_with(parts.subrange(0, 4), ";"@) + "; ... ;"@ + join_with(
            parts.subrange(parts.len() - 4, parts.len() as int),
            ";"@,
        )
    }
}

/// The display form of a DKIM record: its `;`-separated segments, each put
/// through key truncation, then collapsed.
pub open spec fn display_record(record: Seq<char>) -> Seq<char> {
    collapsed(split_on(record, ';').map_values(|seg: Seq<char>| truncated_segment(seg)))
}

/// One segment put through key truncation.
fn truncate_segment(seg: &String) -> (r: String)
    ensures
        r@ == truncated_segment(seg@),
{
    let t = trim_slice(seg.as_str());
    if str_starts_with(t, "p=") {
        let tn = t.unicode_len();
        proof {
            reveal_strlit("p=");
            assert("p="@.len() == 2);
        }
        if tn - 2 > 20 {
            let mut e = " p=".to_owned();
            e.append(t.substring_char(2, 10));
            e.append("...");
            e.append(t.substring_char(tn - 8, tn));
            proof {
                let key = key_of(t@);
                assert(key.subrange(0, 8) =~= t@.subrange(2, 10));
                assert(key.subrange(key.len() - 8, key.len() as int) =~= t@.subrange(
                    tn - 8,
                    tn as int,
                ));
            }
            e
        } else {
            seg.clone()
        }
    } else {
        seg.clone()
    }
}

/// The display form of a DKIM record.
pub fn trim_dkim_record(record: &str) -> (r: String)
    ensures
        r@ == display_record(record@),
{
    let parts = split_char(record, ';');
    let mut shown: Vec<String> = Vec::new();
    let mut k: usize = 0;
    proof {
        assert(shown.deep_view() =~= parts.deep_view().subrange(0, 0).map_values(
            |seg: Seq<char>| truncated_segment(seg),
        ));
    }
    while k < parts.len()
        invariant
            k <= parts.len(),
            parts.deep_view().len() == parts.len(),
            shown.deep_view() == parts.deep_view().subrange(0, k as int).map_values(
                |seg: Seq<char>| truncated_segment(seg),
            ),
        decreases parts.len() - k,
    {
        let ghost old_dv = shown.deep_view();
        let e = truncate_segment(&parts[k]);
        shown.push(e);
        proof {
            let dv = parts.deep_view();
            let m = |seg: Seq<char>| truncated_segment(seg);
            assert(dv.subrange(0, k + 1).map_values(m) =~= dv.subrange(0, k as int).map_values(
                m,
            ).push(truncated_segment(dv[k as int])));
            assert(shown.deep_view() =~= old_dv.push(truncated_segment(dv[k as int])));
        }
        k += 1;
    }
    proof {
        assert(parts.deep_view().subrange(0, parts.deep_view().len() as int) =~= parts.deep_view());
    }
    if shown.len() <= 8 {
        join_strs(&shown, ";")
    } else {
        let mut head: Vec<String> = Vec::new();
        head.push(shown[0].clone());
        head.push(shown[1].clone());
        head.push(shown[2].clone());
        head.push(shown[3].clone());
        let n = shown.len();
        let mut tail: Vec<String> = Vec::new();
        tail.push(shown[n - 4].clone());
        tail.push(shown[n - 3].clone());
        tail.push(shown[n - 2].clone());
        tail.push(shown[n - 1].clone());
        proof {
            assert(head.deep_view() =~= shown.deep_view().subrange(0, 4));
            assert(tail.deep_view() =~= shown.deep_view().subrange(
                shown.deep_view().len() - 4,
                shown.deep_view().len() as int,
            ));
        }
        let mut r = join_strs(&head, ";");
        r.append("; ... ;");
        let rt = join_strs(&tail, ";");
        r.append(rt.as_str());
        r
    }
}

/// The display entries one selector contributes: for every answer text
/// containing `v=DKIM1`, `<selector>: <display form>`, in answer order.
pub open spec fn dkim_matches_of(sel: Seq<char>, texts: Seq<Seq<char>>) -> Seq<Seq<char>> {
    texts.filter(|a: Seq<char>| contains_seq(a, "v=DKIM1"@)).map_values(
        |a: Seq<char>| sel + ": "@ + display_record(a),
    )
}

/// The display entries across the whole selector list, in selector order.
pub open spec fn dkim_entries(sets: Seq<RawAnswerSet>) -> Seq<Seq<char>> {
    Seq::new(sets.len(), |i: int| dkim_matches_of(dkim_selector_names()[i], sets[i].texts()))
        .flatten()
}

/// The status line of the DKIM finding: how many matching records were found.
pub open spec fn dkim_status(sets: Seq<RawAnswerSet>) -> Seq<char> {
    if dkim_entries(sets).len() == 0 {
        "No DKIM records found for common selectors"@
    } else {
        "DKIM records found for "@ + dec_rep(dkim_entries(sets).len()) + " selector(s)"@
    }
}

/// The entries one selector contributes for its answer set.
fn selector_matches(sel: &str, set: &RawAnswerSet) -> (r: Vec<String>)
    ensures
        r.deep_view() == dkim_matches_of(sel@, set.texts()),
{
    match set {
        RawAnswerSet::NoRecords => {
            let r: Vec<String> = Vec::new();
            proof {
                reveal(Seq::filter);
                assert(r.deep_view() =~= dkim_matches_of(sel@, set.texts()));
            }
            r
        },
        RawAnswerSet::Records(v) => {
            let mut out: Vec<String> = Vec::new();
            let mut k: usize = 0;
            proof {
                reveal(Seq::filter);
                assert(out.deep_view() =~= dkim_matches_of(sel@, v.deep_view().subrange(0, 0)));
            }
            while k < v.len()
                invariant
                    k <= v.len(),
                    v.deep_view().len() == v.len(),
                    out.deep_view() == dkim_matches_of(sel@, v.deep_view().subrange(0, k as int)),
                decreases v.len() - k,
            {
                let a = &v[k];
                let ghost old_dv = out.deep_view();
                if str_contains(a.as_str(), "v=DKIM1") {
                    let mut e = sel.to_owned();
                    e.append(": ");
                    let d = trim_dkim_record(a.as_str());
                    e.append(d.as_str());
                    out.push(e);
                }
                proof {
                    reveal(Seq::filter);
                    let dv = v.deep_view();
                    let c = |a2: Seq<char>| contains_seq(a2, "v=DKIM1"@);
                    let m = |a2: Seq<char>| sel@ + ": "@ + display_record(a2);
                    assert(dv.subrange(0, k + 1).drop_last() =~= dv.subrange(0, k as int));
                    assert(dv.subrange(0, k + 1).last() == dv[k as int]);
                    let f1 = dv.subrange(0, k + 1).filter(c);
                    let f0 = dv.subrange(0, k as int).filter(c);
                    if c(dv[k as int]) {
                        assert(f1 == f0.push(dv[k as int]));
                        assert(f1.map_values(m) =~= f0.map_values(m).push(m(dv[k as int])));
                        assert(out.deep_view() =~= old_dv.push(m(dv[k as int])));
                    } else {
                        assert(f1 == f0);
                    }
                }
                k += 1;
            }
            proof {
                assert(v.deep_view().subrange(0, v.deep_view().len() as int) =~= v.deep_view());
            }
            out
        },
    }
}

/// The DKIM finding for the per-selector answer sets, given in the order of
/// the fixed selector list: the status line and the display entries.
pub fn check_dkim(answer_sets: &Vec<RawAnswerSet>) -> (r: (String, Vec<String>))
    requires
        answer_sets@.len() == dkim_selector_names().len(),
    ensures
        r.0@ == dkim_status(answer_sets@),
        r.1.deep_view() == dkim_entries(answer_sets@),
{
    let sels = dkim_selectors();
    let mut entries: Vec<String> = Vec::new();
    let mut i: usize = 0;
    let ghost f = |j: int| dkim_matches_of(dkim_selector_names()[j], answer_sets@[j].texts());
    proof {
        assert(entries.deep_view() =~= Seq::new(0, f).flatten());
    }
    while i < answer_sets.len()
        invariant
            i <= answer_sets.len(),
            answer_sets@.len() == dkim_selector_names().len(),
            sels.deep_view() == dkim_selector_names(),
            sels.len() == answer_sets.len(),
            f == (|j: int| dkim_matches_of(dkim_selector_names()[j], answer_sets@[j].texts())),
            entries.deep_view() == Seq::new(i as nat, f).flatten(),
        decreases answer_sets.len() - i,
    {
        let mut m = selector_matches(sels[i].as_str(), &answer_sets[i]);
        let ghost m_dv = m.deep_view();
        let ghost old_dv = entries.deep_view();
        entries.append(&mut m);
        proof {
            broadcast use Seq::lemma_flatten_push;

            assert(m_dv == f(i as int));
            assert(Seq::new((i + 1) as nat, f) =~= Seq::new(i as nat, f).push(f(i as int)));
            assert(entries.deep_view() =~= old_dv + m_dv);
            assert(entries.deep_view() =~= Seq::new((i + 1) as nat, f).flatten());
        }
        i += 1;
    }
    proof {
        assert(Seq::new(answer_sets@.len(), f) =~= Seq::new(
            answer_sets@.len(),
            |j: int| dkim_matches_of(dkim_selector_names()[j], answer_sets@[j].texts()),
        ));
    }
    let status = if entries.len() == 0 {
        "No DKIM records found for common selectors".to_owned()
    } else {
        let mut s = "DKIM records found for ".to_owned();
        let num = dec_string(entries.len());
        s.append(num.as_str());
        s.append(" selector(s)");
        s
    };
    (status, entries)
}

/// Key truncation: a `p=` segment is unchanged when its key has at most 20
/// characters, and otherwise becomes exactly the first 8 characters, an
/// ellipsis, and the last 8.
pub proof fn lemma_key_truncation(seg: Seq<char>)
    requires
        is_prefix_of("p="@, trimmed(seg)),
    ensures
        key_of(trimmed(seg)).len() <= 20 ==> truncated_segment(seg) == seg,
        key_of(trimmed(seg)).len() > 20 ==> truncated_segment(seg) == " p="@ + key_of(
            trimmed(seg),
        ).subrange(0, 8) + "..."@ + key_of(trimmed(seg)).subrange(
            key_of(trimmed(seg)).len() - 8,
            key_of(trimmed(seg)).len() as int,
        ),
{
}

/// A record `v=DKIM1; k=rsa; p=<key>` with a 40-character key free of `;`
/// and whitespace displays as the same record with the key cut to its
/// first 8 characters, an ellipsis, and its last 8.
#[verifier::rlimit(100)]
pub proof fn lemma_forty_char_key_scenario(key: Seq<char>)
    requires
        key.len() == 40,
        forall|j: int| 0 <= j < 40 ==> key[j] != ';',
        forall|j: int| 0 <= j < 40 ==> !is_space(key[j]),
    ensures
        display_record("v=DKIM1; k=rsa; p="@ + key) == "v=DKIM1; k=rsa; p="@ + key.subrange(0, 8)
            + "..."@ + key.subrange(32, 40),
{
    reveal_strlit("v=DKIM1; k=rsa; p=");
    reveal_strlit("v=DKIM1");
    reveal_strlit(" k=rsa");
    reveal_strlit("k=rsa");
    reveal_strlit("p=");
    reveal_strlit(" p=");
    reveal_strlit("...");
    reveal_strlit(";");
    let p18 = "v=DKIM1; k=rsa; p="@;
    let r = p18 + key;
    assert(r.len() == 58);
    assert(forall|j: int| 0 <= j < 18 ==> r[j] == p18[j]);
    assert(forall|j: int| 18 <= j < 58 ==> r[j] == key[j - 18]);

    // The three `;`-separated segments.
    assert(forall|j: int| 0 <= j < 7 ==> r[j] != ';');
    assert(r[7] == ';');
    lemma_first_at(r, ';', 7);
    let s2 = r.subrange(8, 58);
    assert(forall|j: int| 0 <= j < 6 ==> s2[j] != ';');
    assert(s2[6] == ';');
    lemma_first_at(s2, ';', 6);
    let s3 = s2.subrange(7, 50);
    assert(forall|j: int| 0 <= j < 43 ==> s3[j] != ';');
    lemma_first_at(s3, ';', 43);
    assert(split_on(s3, ';') =~= seq![s3]);
    assert(split_on(s2, ';') =~= seq![s2.subrange(0, 6), s3]);
    let parts = split_on(r, ';');
    assert(parts =~= seq![r.subrange(0, 7), s2.subrange(0, 6), s3]);
    assert(r.subrange(0, 7) =~= "v=DKIM1"@);
    assert(s2.subrange(0, 6) =~= " k=rsa"@);

    // Key truncation leaves the first two segments alone.
    reveal_with_fuel(trim_left, 10);
    reveal_with_fuel(trim_right, 10);
    assert(trimmed("v=DKIM1"@) =~= "v=DKIM1"@);
    assert(!is_prefix_of("p="@, "v=DKIM1"@)) by {
        assert(("v=DKIM1"@).subrange(0, 2)[0] == 'v');
    }
    assert(truncated_segment("v=DKIM1"@) == "v=DKIM1"@);
    assert(trimmed(" k=rsa"@) =~= "k=rsa"@);
    assert(!is_prefix_of("p="@, "k=rsa"@)) by {
        assert(("k=rsa"@).subrange(0, 2)[0] == 'k');
    }
    assert(truncated_segment(" k=rsa"@) == " k=rsa"@);

    // The third segment trims to `p=` followed by the key.
    let t3 = s3.subrange(1, 43);
    assert(!is_space(t3[0]));
    assert(trim_left(s3) == trim_left(t3));
    assert(trim_left(t3) == t3);
    assert(!is_space(t3[41]));
    assert(trim_right(t3) == t3);
    assert(trimmed(s3) == t3);
    assert(is_prefix_of("p="@, t3)) by {
        assert(t3.subrange(0, 2) =~= "p="@);
    }

    // Its key is the 40 characters after the leading `p=`, so it is truncated.
    let t4 = t3.subrange(2, 42);
    assert(t4 =~= key);
    assert(key_of(t3) == key);
    let shown3 = " p="@ + key.subrange(0, 8) + "..."@ + key.subrange(32, 40);
    assert(truncated_segment(s3) == shown3);

    // Three segments survive, so the display is their plain join.
    let m = |seg: Seq<char>| truncated_segment(seg);
    let mapped = parts.map_values(m);
    assert(mapped =~= seq!["v=DKIM1"@, " k=rsa"@, shown3]);
    reveal_with_fuel(join_with, 4);
    assert(mapped.drop_last() =~= seq!["v=DKIM1"@, " k=rsa"@]);
    assert(mapped.drop_last().drop_last() =~= seq!["v=DKIM1"@]);
    assert(join_with(mapped, ";"@) == "v=DKIM1"@ + ";"@ + " k=rsa"@ + ";"@ + shown3);
    assert(display_record(r) =~= "v=DKIM1; k=rsa; p="@ + key.subrange(0, 8) + "..."@
        + key.subrange(32, 40));
}

/// Segment collapsing: with at most 8 segments the display is their full
/// join, and with more it is the first four joined, an ellipsis, and the
/// last four joined.
pub proof fn lemma_segment_collapsing(parts: Seq<Seq<char>>)
    ensures
        parts.len() <= 8 ==> collapsed(parts) == join_with(parts, ";"@),
        parts.len() > 8 ==> collapsed(parts) == join_with(parts.subrange(0, 4), ";"@)
            + "; ... ;"@ + join_with(parts.subrange(parts.len() - 4, parts.len() as int), ";"@),
{
}

} // verus!
