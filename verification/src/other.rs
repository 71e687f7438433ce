use vstd::prelude::*;
use crate::date::UtcDate;
use crate::date::date_text_ok;
use crate::date::date_of_text;
use crate::date::parse_date_text;
use crate::dom::DomPath;
use crate::dom::Elem;
use crate::dom::inner_html;
use crate::dom::inner_html_of;
use crate::dom::sel_count;
use crate::dom::select_all;
use crate::error::ScScrapingError;
use crate::text::dec_val;
use crate::text::lower_of;
use crate::text::parse_u64_str;
use crate::text::parses_as_u64;
use crate::text::split_commas;
use crate::text::split_str_commas;
use crate::text::str_eq;
use crate::text::to_lowercase;
use crate::text::trim_spec;
use crate::text::trim_str;
use crate::text::u64_digits;
use crate::text::views_of;

verus! {

/// The values the sidebar yields: the enlistment day and the optional
/// location and language lists.
pub struct OtherData {
    pub enlisted: UtcDate,
    pub location: Vec<String>,
    pub languages: Vec<String>,
}

/// The views of a list of label/value pairs.
pub open spec fn pair_views(v: Seq<(String, String)>) -> Seq<(Seq<char>, Seq<char>)> {
    v.map_values(|p: (String, String)| (p.0@, p.1@))
}

/// A comma-separated value split into fields, each field trimmed.
pub open spec fn split_trimmed(v: Seq<char>) -> Seq<Seq<char>> {
    split_commas(v).map_values(|p: Seq<char>| trim_spec(p))
}

/// Whether a split yielded nothing but empty fields: such a value counts
/// as absent rather than as a list.
pub open spec fn all_blank(fields: Seq<Seq<char>>) -> bool {
    forall|k: int| 0 <= k < fields.len() ==> fields[k].len() == 0
}

/// Splits a comma-separated value and trims each field.
pub fn split_trim_list(v: &str) -> (r: Vec<String>)
    ensures
        views_of(r@) == split_trimmed(v@),
{
    let parts = split_str_commas(v);
    let ghost pv = views_of(parts@);
    let mut out: Vec<String> = Vec::new();
    proof {
        assert(views_of(out@) =~= pv.take(0).map_values(|p: Seq<char>| trim_spec(p)));
    }
    let mut i: usize = 0;
    while i < parts.len()
        invariant
            0 <= i <= parts@.len(),
            pv == views_of(parts@),
            pv.len() == parts@.len(),
            views_of(out@) == pv.take(i as int).map_values(|p: Seq<char>| trim_spec(p)),
        decreases parts@.len() - i,
    {
        let t = trim_str(parts[i].as_str());
        out.push(t);
        proof {
            assert(pv[i as int] == parts@[i as int]@);
            assert(pv.take(i as int + 1) =~= pv.take(i as int).push(pv[i as int]));
            assert(pv.take(i as int + 1).map_values(|p: Seq<char>| trim_spec(p)) =~= pv.take(
                i as int,
            ).map_values(|p: Seq<char>| trim_spec(p)).push(trim_spec(pv[i as int])));
            assert(views_of(out@) =~= pv.take(i as int + 1).map_values(
                |p: Seq<char>| trim_spec(p),
            ));
        }
        i = i + 1;
    }
    proof {
        assert(pv.take(parts@.len() as int) =~= pv);
    }
    out
}

fn is_all_blank(fields: &Vec<String>) -> (r: bool)
    ensures
        r == all_blank(views_of(fields@)),
{
    let mut i: usize = 0;
    while i < fields.len()
        invariant
            0 <= i <= fields@.len(),
            forall|k: int| 0 <= k < i ==> views_of(fields@)[k].len() == 0,
        decreases fields@.len() - i,
    {
        if fields[i].as_str().unicode_len() > 0 {
            proof {
                assert(views_of(fields@)[i as int].len() > 0);
            }
            return false;
        }
        proof {
            assert(views_of(fields@)[i as int].len() == 0);
        }
        i = i + 1;
    }
    true
}

/// The reconciliation state while the labeled sidebar pairs are walked:
/// which of the recognized fields have been seen, and with what value.
pub struct OtherAcc {
    pub enlisted_raw: Option<Seq<char>>,
    pub location: Option<Seq<Seq<char>>>,
    pub fluency: Option<Seq<Seq<char>>>,
}

pub open spec fn empty_acc() -> OtherAcc {
    OtherAcc { enlisted_raw: None, location: None, fluency: None }
}

/// One reconciliation step: a list value whose split is all empty fields is
/// dropped as absent; a recognized label must not otherwise repeat, and its
/// value is recorded; any other label is skipped.
pub open spec fn other_step(acc: OtherAcc, p: (Seq<char>, Seq<char>)) -> Result<
    OtherAcc,
    Seq<char>,
> {
    if p.0 == "enlisted"@ {
        if acc.enlisted_raw is Some {
            Err("Found multiple instances of `Enlisted`"@)
        } else {
            Ok(OtherAcc { enlisted_raw: Some(p.1), location: acc.location, fluency: acc.fluency })
        }
    } else if p.0 == "location"@ {
        if all_blank(split_trimmed(p.1)) {
            Ok(acc)
        } else if acc.location is Some {
            Err("Found multiple instances of `Location`"@)
        } else {
            Ok(
                OtherAcc {
                    enlisted_raw: acc.enlisted_raw,
                    location: Some(split_trimmed(p.1)),
                    fluency: acc.fluency,
                },
            )
        }
    } else if p.0 == "fluency"@ {
        if all_blank(split_trimmed(p.1)) {
            Ok(acc)
        } else if acc.fluency is Some {
            Err("Found multiple instances of `Fluency`"@)
        } else {
            Ok(
                OtherAcc {
                    enlisted_raw: acc.enlisted_raw,
                    location: acc.location,
                    fluency: Some(split_trimmed(p.1)),
                },
            )
        }
    } else {
        Ok(acc)
    }
}

/// Walks the pairs from the left and stops at the first repeated
/// recognized label.
pub open spec fn other_fold(ps: Seq<(Seq<char>, Seq<char>)>, acc: OtherAcc) -> Result<
    OtherAcc,
    Seq<char>,
>
    decreases ps.len(),
{
    if ps.len() == 0 {
        Ok(acc)
    } else {
        match other_step(acc, ps[0]) {
            Ok(a2) => other_fold(ps.drop_first(), a2),
            Err(m) => Err(m),
        }
    }
}

/// The failure text for an enlistment value that does not have the
/// expected date shape.
pub open spec fn date_err_msg(raw: Seq<char>) -> Seq<char> {
    "Error parsing the date `"@ + raw + "`: invalid format"@
}

/// What the reconciled sidebar means.
pub struct OtherView {
    pub enlisted: UtcDate,
    pub location: Seq<Seq<char>>,
    pub languages: Seq<Seq<char>>,
}

/// The outcome the sidebar pairs determine: the first repeated recognized
/// label fails; a missing enlistment date fails; an enlistment value
/// outside the date shape fails naming the value; anything else yields the
/// enlistment day and the optional lists, absent lists standing empty.
pub open spec fn other_outcome(ps: Seq<(Seq<char>, Seq<char>)>) -> Result<OtherView, Seq<char>> {
    match other_fold(ps, empty_acc()) {
        Err(m) => Err(m),
        Ok(acc) => match acc.enlisted_raw {
            None => Err("Enlisted date not found"@),
            Some(raw) => if date_text_ok(raw) {
                Ok(
                    OtherView {
                        enlisted: date_of_text(raw),
                        location: match acc.location {
                            Some(l) => l,
                            None => Seq::empty(),
                        },
                        languages: match acc.fluency {
                            Some(l) => l,
                            None => Seq::empty(),
                        },
                    },
                )
            } else {
                Err(date_err_msg(raw))
            },
        },
    }
}

/// The reconciliation state the executable loop carries, seen as its
/// specification counterpart.
pub open spec fn acc_view(
    e: Option<String>,
    l: Option<Vec<String>>,
    f: Option<Vec<String>>,
) -> OtherAcc {
    OtherAcc {
        enlisted_raw: match e {
            Some(s) => Some(s@),
            None => None,
        },
        location: match l {
            Some(v) => Some(views_of(v@)),
            None => None,
        },
        fluency: match f {
            Some(v) => Some(views_of(v@)),
            None => None,
        },
    }
}

/// Reconciles the labeled sidebar pairs into the enlistment day and the
/// optional location and language lists, exactly as `other_outcome` says.
pub fn reconcile_other(pairs: &Vec<(String, String)>) -> (r: Result<OtherData, ScScrapingError>)
    ensures
        r is Ok <==> other_outcome(pair_views(pairs@)) is Ok,
        r is Ok ==> ({
            let v = other_outcome(pair_views(pairs@))->Ok_0;
            r->Ok_0.enlisted == v.enlisted && r->Ok_0.enlisted.wf() && views_of(r->Ok_0.location@)
                == v.location && views_of(r->Ok_0.languages@) == v.languages
        }),
        r is Err ==> r->Err_0 is Citizen && r->Err_0.msg() == other_outcome(
            pair_views(pairs@),
        )->Err_0,
{
    let ghost ps = pair_views(pairs@);
    let mut enlisted_raw: Option<String> = None;
    let mut location: Option<Vec<String>> = None;
    let mut fluency: Option<Vec<String>> = None;
    proof {
        assert(ps.skip(0) =~= ps);
    }
    let mut i: usize = 0;
    while i < pairs.len()
        invariant
            0 <= i <= pairs@.len(),
            ps == pair_views(pairs@),
            ps.len() == pairs@.len(),
            other_fold(ps, empty_acc()) == other_fold(
                ps.skip(i as int),
                acc_view(enlisted_raw, location, fluency),
            ),
        decreases pairs@.len() - i,
    {
        proof {
            assert(ps.skip(i as int)[0] == ps[i as int]);
            assert(ps.skip(i as int).drop_first() =~= ps.skip(i as int + 1));
        }
        let lab = &pairs[i].0;
        let val = &pairs[i].1;
        if str_eq(lab.as_str(), "enlisted") {
            if enlisted_raw.is_some() {
                return Err(ScScrapingError::citizen("Found multiple instances of `Enlisted`"));
            }
            enlisted_raw = Some(val.clone());
        } else if str_eq(lab.as_str(), "location") {
            let fields = split_trim_list(val.as_str());
            if !is_all_blank(&fields) {
                if location.is_some() {
                    return Err(
                        ScScrapingError::citizen("Found multiple instances of `Location`"),
                    );
                }
                location = Some(fields);
            }
        } else if str_eq(lab.as_str(), "fluency") {
            let fields = split_trim_list(val.as_str());
            if !is_all_blank(&fields) {
                if fluency.is_some() {
                    return Err(ScScrapingError::citizen("Found multiple instances of `Fluency`"));
                }
                fluency = Some(fields);
            }
        }
        i = i + 1;
    }
    proof {
        assert(ps.skip(pairs@.len() as int).len() == 0);
    }
    let raw = match enlisted_raw {
        Some(raw) => raw,
        None => {
            return Err(ScScrapingError::citizen("Enlisted date not found"));
        },
    };
    let enlisted = match parse_date_text(raw.as_str()) {
        Some(d) => d,
        None => {
            let msg = "Error parsing the date `".to_owned().concat(raw.as_str()).concat(
                "`: invalid format",
            );
            proof {
                assert(msg@ =~= date_err_msg(raw@));
            }
            return Err(ScScrapingError::citizen(msg.as_str()));
        },
    };
    let location_list = match location {
        Some(l) => l,
        None => Vec::new(),
    };
    let languages = match fluency {
        Some(l) => l,
        None => Vec::new(),
    };
    proof {
        assert(views_of(Seq::<String>::empty()) =~= Seq::<Seq<char>>::empty());
    }
    Ok(OtherData { enlisted, location: location_list, languages })
}

/// The labeled pairs the sidebar paragraphs yield, from the `i`-th
/// paragraph on: a paragraph missing its label or its value is skipped,
/// the rest carry the label trimmed and lowercased and the value trimmed.
pub open spec fn sidebar_pairs_from(doc: Seq<char>, fp: DomPath, n: int, i: int) -> Seq<
    (Seq<char>, Seq<char>),
>
    decreases n - i,
{
    if i >= n {
        Seq::empty()
    } else {
        let p = fp.push(("p"@, i));
        let rest = sidebar_pairs_from(doc, fp, n, i + 1);
        if sel_count(doc, p, "span"@) > 0 && sel_count(doc, p, "strong"@) > 0 {
            seq![
                (
                    lower_of(trim_spec(inner_html_of(doc, p.push(("span"@, 0))))),
                    trim_spec(inner_html_of(doc, p.push(("strong"@, 0)))),
                ),
            ] + rest
        } else {
            rest
        }
    }
}

/// What the sidebar extractor returns for the element at `path`: the
/// sidebar block itself is mandatory, and its labeled pairs are
/// reconciled by `other_outcome`.
pub open spec fn other_spec(doc: Seq<char>, path: DomPath) -> Result<OtherView, Seq<char>> {
    if sel_count(doc, path, "div.profile-content > div.left-col > div"@) == 0 {
        Err("Other content is empty"@)
    } else {
        let fp = path.push(("div.profile-content > div.left-col > div"@, 0));
        other_outcome(sidebar_pairs_from(doc, fp, sel_count(doc, fp, "p"@), 0))
    }
}

/// Walks the labeled paragraphs of a sidebar block and reconciles them,
/// exactly as `other_outcome` of its `sidebar_pairs_from` says.
pub fn parse_data(element: &Elem<'_>) -> (r: Result<OtherData, ScScrapingError>)
    ensures
        r is Ok <==> other_outcome(
            sidebar_pairs_from(
                element.doc(),
                element.path(),
                sel_count(element.doc(), element.path(), "p"@),
                0,
            ),
        ) is Ok,
        r is Ok ==> ({
            let v = other_outcome(
                sidebar_pairs_from(
                    element.doc(),
                    element.path(),
                    sel_count(element.doc(), element.path(), "p"@),
                    0,
                ),
            )->Ok_0;
            r->Ok_0.enlisted == v.enlisted && r->Ok_0.enlisted.wf() && views_of(r->Ok_0.location@)
                == v.location && views_of(r->Ok_0.languages@) == v.languages
        }),
        r is Err ==> r->Err_0 is Citizen && r->Err_0.msg() == other_outcome(
            sidebar_pairs_from(
                element.doc(),
                element.path(),
                sel_count(element.doc(), element.path(), "p"@),
                0,
            ),
        )->Err_0,
{
    let ghost doc = element.doc();
    let ghost fp = element.path();
    let ghost n = sel_count(doc, fp, "p"@);
    let ps = select_all(element, "p");
    let mut pairs: Vec<(String, String)> = Vec::new();
    proof {
        assert(pair_views(pairs@) =~= Seq::<(Seq<char>, Seq<char>)>::empty());
    }
    let mut i: usize = 0;
    while i < ps.len()
        invariant
            0 <= i <= ps@.len(),
            ps@.len() == n,
            n == sel_count(doc, fp, "p"@),
            forall|k: int|
                0 <= k < ps@.len() ==> (#[trigger] ps@[k]).doc() == doc && ps@[k].path()
                    == fp.push(("p"@, k)),
            pair_views(pairs@) + sidebar_pairs_from(doc, fp, n, i as int) == sidebar_pairs_from(
                doc,
                fp,
                n,
                0,
            ),
        decreases ps@.len() - i,
    {
        let ghost p = fp.push(("p"@, i as int));
        let ghost step = sidebar_pairs_from(doc, fp, n, i as int);
        let spans = select_all(&ps[i], "span");
        let strongs = select_all(&ps[i], "strong");
        if spans.len() > 0 && strongs.len() > 0 {
            let label_text = inner_html(&spans[0]);
            let label_trimmed = trim_str(label_text.as_str());
            let label = to_lowercase(label_trimmed.as_str());
            let value_text = inner_html(&strongs[0]);
            let value = trim_str(value_text.as_str());
            proof {
                let pv = (label@, value@);
                assert(step == seq![pv] + sidebar_pairs_from(doc, fp, n, i as int + 1));
                assert(pair_views(pairs@.push((label, value))) =~= pair_views(pairs@).push(pv));
                assert(pair_views(pairs@).push(pv) + sidebar_pairs_from(doc, fp, n, i as int + 1)
                    =~= pair_views(pairs@) + step);
            }
            pairs.push((label, value));
        } else {
            proof {
                assert(step == sidebar_pairs_from(doc, fp, n, i as int + 1));
            }
        }
        i = i + 1;
    }
    proof {
        assert(sidebar_pairs_from(doc, fp, n, i as int)
            =~= Seq::<(Seq<char>, Seq<char>)>::empty());
        assert(pair_views(pairs@) =~= pair_views(pairs@) + sidebar_pairs_from(
            doc,
            fp,
            n,
            i as int,
        ));
    }
    reconcile_other(&pairs)
}

/// Locates the sidebar block and reconciles its labeled pairs, exactly as
/// `other_spec` says; the block itself is mandatory.
pub fn parse_other(element: &Elem<'_>) -> (r: Result<OtherData, ScScrapingError>)
    ensures
        r is Ok <==> other_spec(element.doc(), element.path()) is Ok,
        r is Ok ==> ({
            let v = other_spec(element.doc(), element.path())->Ok_0;
            r->Ok_0.enlisted == v.enlisted && r->Ok_0.enlisted.wf() && views_of(r->Ok_0.location@)
                == v.location && views_of(r->Ok_0.languages@) == v.languages
        }),
        r is Err ==> r->Err_0 is Citizen && r->Err_0.msg() == other_spec(
            element.doc(),
            element.path(),
        )->Err_0,
{
    let frags = select_all(element, "div.profile-content > div.left-col > div");
    if frags.len() == 0 {
        return Err(ScScrapingError::citizen("Other content is empty"));
    }
    parse_data(&frags[0])
}

/// The text of a record identifier with one leading `#` marker removed.
pub open spec fn hash_stripped(s: Seq<char>) -> Seq<char> {
    if s.len() > 0 && s[0] == '#' {
        s.drop_first()
    } else {
        s
    }
}

/// Reads a numeric record identifier, stripping one leading `#` first.
pub fn record_id_from_text(s: &str) -> (r: Option<u64>)
    ensures
        r is Some <==> parses_as_u64(hash_stripped(s@)),
        r is Some ==> r.unwrap() as int == dec_val(u64_digits(hash_stripped(s@))),
{
    let n: usize = s.unicode_len();
    if n > 0 && s.get_char(0) == '#' {
        let rest = s.substring_char(1, n);
        proof {
            assert(rest@ =~= s@.drop_first());
        }
        parse_u64_str(rest)
    } else {
        parse_u64_str(s)
    }
}

/// The identifier the dedicated record elements yield, from the `i`-th
/// match on: the first text that parses wins.
pub open spec fn record_id_from(doc: Seq<char>, path: DomPath, n: int, i: int) -> Option<u64>
    decreases n - i,
{
    if i >= n {
        None
    } else {
        let t = inner_html_of(doc, path.push(("p.citizen-record > strong.value"@, i)));
        if parses_as_u64(hash_stripped(t)) {
            Some(dec_val(u64_digits(hash_stripped(t))) as u64)
        } else {
            record_id_from(doc, path, n, i + 1)
        }
    }
}

/// The optional numeric record identifier the element at `path` yields.
pub open spec fn record_id_spec(doc: Seq<char>, path: DomPath) -> Option<u64> {
    record_id_from(doc, path, sel_count(doc, path, "p.citizen-record > strong.value"@), 0)
}

/// Reads the optional numeric record identifier: the first dedicated value
/// that parses wins, and absence is no failure.
pub fn parse_citizen_record_id(element: &Elem<'_>) -> (r: Option<u64>)
    ensures
        r == record_id_spec(element.doc(), element.path()),
{
    let ghost doc = element.doc();
    let ghost path = element.path();
    let ghost n = sel_count(doc, path, "p.citizen-record > strong.value"@);
    let rs = select_all(element, "p.citizen-record > strong.value");
    let mut i: usize = 0;
    while i < rs.len()
        invariant
            doc == element.doc(),
            path == element.path(),
            0 <= i <= rs@.len(),
            rs@.len() == n,
            n == sel_count(doc, path, "p.citizen-record > strong.value"@),
            forall|k: int|
                0 <= k < rs@.len() ==> (#[trigger] rs@[k]).doc() == doc && rs@[k].path()
                    == path.push(("p.citizen-record > strong.value"@, k)),
            record_id_from(doc, path, n, 0) == record_id_from(doc, path, n, i as int),
        decreases rs@.len() - i,
    {
        let id = inner_html(&rs[i]);
        let got = record_id_from_text(id.as_str());
        proof {
            let t = inner_html_of(doc, path.push(("p.citizen-record > strong.value"@, i as int)));
            assert(id@ == t);
            if got is Some {
                assert(record_id_from(doc, path, n, i as int) == Some(
                    dec_val(u64_digits(hash_stripped(t))) as u64,
                ));
            } else {
                assert(record_id_from(doc, path, n, i as int) == record_id_from(
                    doc,
                    path,
                    n,
                    i as int + 1,
                ));
            }
        }
        match got {
            Some(v) => {
                return Some(v);
            },
            None => {},
        }
        i = i + 1;
    }
    None
}

} // verus!
