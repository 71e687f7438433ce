use vstd::prelude::*;
use crate::dom::DomPath;
use crate::dom::Elem;
use crate::dom::attr_of;
use crate::dom::attr_value;
use crate::dom::img_srcs_from;
use crate::dom::inner_html;
use crate::dom::inner_html_of;
use crate::dom::sel_count;
use crate::dom::select_all;
use crate::dom::src_attrs;
use crate::error::ScScrapingError;
use crate::text::dec_str_of;
use crate::text::lower_of;
use crate::text::str_eq;
use crate::text::to_lowercase;
use crate::text::trim_spec;
use crate::text::trim_str;
use crate::text::u64_to_string;
use crate::urls::first_site_relative;
use crate::urls::first_site_url;
use crate::urls::is_valid_url_text;
use crate::urls::lemma_first_site_url_valid;
use crate::urls::opt_views;
use crate::urls::parsed_url;
use crate::urls::resolve_site_relative;
use crate::urls::site_prefixed;
use crate::Organization;
use crate::OrganizationRank;
use crate::OrganizationType;

verus! {

/// The failure text for an organization label that names neither the main
/// membership nor an affiliation.
pub open spec fn invalid_type_msg(label: Seq<char>) -> Seq<char> {
    "Invalid organization type `"@ + label + "`"@
}

/// What a classification label means: the two recognized labels and
/// nothing else.
pub open spec fn classify_spec(label: Seq<char>) -> Result<OrganizationType, Seq<char>> {
    if label == "affiliation"@ {
        Ok(OrganizationType::Affiliate)
    } else if label == "main organization"@ {
        Ok(OrganizationType::Main)
    } else {
        Err(invalid_type_msg(label))
    }
}

/// Classifies an organization block by its label, already trimmed and
/// lowercased, exactly as `classify_spec` says.
pub fn classify_org_label(label: &str) -> (r: Result<OrganizationType, ScScrapingError>)
    ensures
        r is Ok <==> classify_spec(label@) is Ok,
        r is Ok ==> r->Ok_0 == classify_spec(label@)->Ok_0,
        r is Err ==> r->Err_0 is Organization && r->Err_0.msg() == classify_spec(label@)->Err_0,
{
    proof {
        reveal_strlit("affiliation");
        reveal_strlit("main organization");
        assert("affiliation"@.len() == 11);
        assert("main organization"@.len() == 17);
        assert("affiliation"@ != "main organization"@);
    }
    if str_eq(label, "affiliation") {
        Ok(OrganizationType::Affiliate)
    } else if str_eq(label, "main organization") {
        Ok(OrganizationType::Main)
    } else {
        let msg = "Invalid organization type `".to_owned().concat(label).concat("`");
        proof {
            assert(msg@ =~= invalid_type_msg(label@));
        }
        Err(ScScrapingError::organization(msg.as_str()))
    }
}

/// What the type extractor returns for the block at `path`: the label
/// element is mandatory, then its text classifies the block.
pub open spec fn type_spec(doc: Seq<char>, path: DomPath) -> Result<OrganizationType, Seq<char>> {
    if sel_count(doc, path, "div.title"@) == 0 {
        Err("Could not find organization type"@)
    } else {
        classify_spec(lower_of(trim_spec(inner_html_of(doc, path.push(("div.title"@, 0))))))
    }
}

/// Reads the classification label of an organization block, exactly as
/// `type_spec` says.
pub fn parse_type(element: &Elem<'_>) -> (r: Result<OrganizationType, ScScrapingError>)
    ensures
        r is Ok <==> type_spec(element.doc(), element.path()) is Ok,
        r is Ok ==> r->Ok_0 == type_spec(element.doc(), element.path())->Ok_0,
        r is Err ==> r->Err_0 is Organization && r->Err_0.msg() == type_spec(
            element.doc(),
            element.path(),
        )->Err_0,
{
    let titles = select_all(element, "div.title");
    if titles.len() == 0 {
        return Err(ScScrapingError::organization("Could not find organization type"));
    }
    let raw = inner_html(&titles[0]);
    let trimmed = trim_str(raw.as_str());
    let label = to_lowercase(trimmed.as_str());
    classify_org_label(label.as_str())
}

/// The logo URL the container at `c` yields: the first thumbnail image
/// source that validates as a site-relative URL.
pub open spec fn logo_spec(doc: Seq<char>, c: DomPath) -> Result<Seq<char>, Seq<char>> {
    let srcs = img_srcs_from(
        doc,
        c,
        "div.thumb > a > img"@,
        sel_count(doc, c, "div.thumb > a > img"@),
        0,
    );
    match first_site_url(srcs) {
        Some(u) => Ok(u),
        None => Err("Could not find organization logo"@),
    }
}

/// Reads the organization logo source, always site-relative, and validates
/// it as a URL, exactly as `logo_spec` says.
pub fn parse_logo(element: &Elem<'_>) -> (r: Result<String, ScScrapingError>)
    ensures
        r is Ok <==> logo_spec(element.doc(), element.path()) is Ok,
        r is Ok ==> r->Ok_0@ == logo_spec(element.doc(), element.path())->Ok_0
            && is_valid_url_text(r->Ok_0@),
        r is Err ==> r->Err_0 is Organization && r->Err_0.msg() == logo_spec(
            element.doc(),
            element.path(),
        )->Err_0,
{
    let imgs = select_all(element, "div.thumb > a > img");
    let srcs = src_attrs(
        &imgs,
        Ghost(element.doc()),
        Ghost(element.path()),
        Ghost("div.thumb > a > img"@),
    );
    proof {
        lemma_first_site_url_valid(opt_views(srcs@));
    }
    match first_site_relative(&srcs) {
        Some(u) => Ok(u),
        None => Err(ScScrapingError::organization("Could not find organization logo")),
    }
}

/// The failure text reported when an organization block holds a number of
/// info rows other than the expected three.
pub open spec fn org_count_msg(n: int) -> Seq<char> {
    "Found "@ + dec_str_of(n) + " organization element(s), expected 3."@
}

fn make_org_count_msg(n: usize) -> (r: String)
    ensures
        r@ == org_count_msg(n as int),
{
    let num = u64_to_string(n as u64);
    let out = "Found ".to_owned().concat(num.as_str()).concat(
        " organization element(s), expected 3.",
    );
    proof {
        assert(out@ =~= org_count_msg(n as int));
    }
    out
}

/// What the visible fields of an organization container mean.
pub struct OrgInfoView {
    pub name: Seq<char>,
    pub sid: Seq<char>,
    pub title: Seq<char>,
    pub rank: int,
    pub url: Seq<char>,
}

/// What the info extractor returns for the container at `c`. The rank
/// level is the count of active markers reduced modulo 256, the range the
/// rank field holds.
pub open spec fn info_spec(doc: Seq<char>, c: DomPath) -> Result<OrgInfoView, Seq<char>> {
    let rank = sel_count(doc, c, "div.info > div.ranking > span.active"@) % 256;
    let n = sel_count(doc, c, "div.info > p"@);
    if n != 3 {
        Err(org_count_msg(n))
    } else {
        let e0 = c.push(("div.info > p"@, 0));
        let e1 = c.push(("div.info > p"@, 1));
        let e2 = c.push(("div.info > p"@, 2));
        if sel_count(doc, e0, "a"@) == 0 {
            Err("Could not find organization name"@)
        } else {
            let a0 = e0.push(("a"@, 0));
            match attr_of(doc, a0, "href"@) {
                None => Err("Could not find organization link source"@),
                Some(href) => match parsed_url(site_prefixed(href)) {
                    None => Err("Could not parse organization link `{url_string}`"@),
                    Some(u) => if sel_count(doc, e1, "strong"@) == 0 {
                        Err("Could not find organization SID"@)
                    } else if sel_count(doc, e2, "strong"@) == 0 {
                        Err("Could not find organization rank"@)
                    } else {
                        Ok(
                            OrgInfoView {
                                name: inner_html_of(doc, a0),
                                sid: inner_html_of(doc, e1.push(("strong"@, 0))),
                                title: inner_html_of(doc, e2.push(("strong"@, 0))),
                                rank,
                                url: u,
                            },
                        )
                    },
                },
            }
        }
    }
}

/// The visible fields read out of an organization block's content
/// container.
pub struct OrgData {
    pub name: String,
    pub sid: String,
    pub title: String,
    pub rank: u8,
    pub url: String,
}

/// Reads the visible organization fields, exactly as `info_spec` says:
/// the rank level counted from the active markers, and name, link, short
/// identifier and rank title from the three info rows.
pub fn parse_info(element: &Elem<'_>) -> (r: Result<OrgData, ScScrapingError>)
    ensures
        r is Ok <==> info_spec(element.doc(), element.path()) is Ok,
        r is Ok ==> ({
            let d = info_spec(element.doc(), element.path())->Ok_0;
            r->Ok_0.name@ == d.name && r->Ok_0.sid@ == d.sid && r->Ok_0.title@ == d.title
                && r->Ok_0.rank as int == d.rank && r->Ok_0.url@ == d.url && is_valid_url_text(
                r->Ok_0.url@,
            )
        }),
        r is Err ==> r->Err_0 is Organization && r->Err_0.msg() == info_spec(
            element.doc(),
            element.path(),
        )->Err_0,
{
    let actives = select_all(element, "div.info > div.ranking > span.active");
    let rank: u8 = (actives.len() % 256) as u8;

    let elements = select_all(element, "div.info > p");
    if elements.len() != 3 {
        let msg = make_org_count_msg(elements.len());
        return Err(ScScrapingError::organization(msg.as_str()));
    }

    let links = select_all(&elements[0], "a");
    if links.len() == 0 {
        return Err(ScScrapingError::organization("Could not find organization name"));
    }
    let href = match attr_value(&links[0], "href") {
        Some(h) => h,
        None => {
            return Err(ScScrapingError::organization("Could not find organization link source"));
        },
    };
    let url = match resolve_site_relative(href.as_str()) {
        Some(u) => u,
        None => {
            return Err(
                ScScrapingError::organization("Could not parse organization link `{url_string}`"),
            );
        },
    };
    proof {
        assert(parsed_url(site_prefixed(href@)) == Some(url@));
    }
    let name = inner_html(&links[0]);

    let sid_strongs = select_all(&elements[1], "strong");
    if sid_strongs.len() == 0 {
        return Err(ScScrapingError::organization("Could not find organization SID"));
    }
    let sid = inner_html(&sid_strongs[0]);

    let title_strongs = select_all(&elements[2], "strong");
    if title_strongs.len() == 0 {
        return Err(ScScrapingError::organization("Could not find organization rank"));
    }
    let title = inner_html(&title_strongs[0]);

    Ok(OrgData { name, sid, title, rank, url })
}

/// What a visible organization block means: its logo and its info fields.
pub struct OrgVisView {
    pub logo: Seq<char>,
    pub info: OrgInfoView,
}

/// What an organization value must hold to stand for a view: the redacted
/// variant for an absent view, otherwise the visible fields one for one,
/// with the never-populated member count zero.
pub open spec fn org_matches_view(o: Organization, v: Option<OrgVisView>) -> bool {
    match v {
        None => o is Redacted,
        Some(w) => o matches Organization::Visible { logo, name, sid, url, rank, member_count }
            && logo@ == w.logo && name@ == w.info.name && sid@ == w.info.sid && url@ == w.info.url
            && rank.name@ == w.info.title && rank.value as int == w.info.rank && member_count
            == 0,
    }
}

/// What an organization block yields once classified: a redacted block is
/// reduced to the marker whatever else it holds; a visible one must have
/// its container, logo and info fields.
pub open spec fn org_body_spec(
    doc: Seq<char>,
    path: DomPath,
    t: OrganizationType,
    redacted: bool,
) -> Result<(OrganizationType, Option<OrgVisView>), Seq<char>> {
    if redacted {
        Ok((t, None))
    } else if sel_count(doc, path, "div.inner-bg > div.left-col > div"@) == 0 {
        Err("Could not find organization container"@)
    } else {
        let c = path.push(("div.inner-bg > div.left-col > div"@, 0));
        match logo_spec(doc, c) {
            Err(m) => Err(m),
            Ok(logo) => match info_spec(doc, c) {
                Err(m) => Err(m),
                Ok(d) => Ok((t, Some(OrgVisView { logo, info: d }))),
            },
        }
    }
}

/// What one organization block yields: its classification first, then the
/// redaction marker decides between the two shapes.
pub open spec fn org_spec(doc: Seq<char>, path: DomPath) -> Result<
    (OrganizationType, Option<OrgVisView>),
    Seq<char>,
> {
    match type_spec(doc, path) {
        Err(m) => Err(m),
        Ok(t) => org_body_spec(
            doc,
            path,
            t,
            sel_count(doc, path, "div.member-visibility-restriction"@) > 0,
        ),
    }
}

/// Builds the organization value once the block's classification and its
/// redaction marker are known, exactly as `org_body_spec` says: a redacted
/// block yields the redacted variant whatever else the block holds.
pub fn parse_org_body(
    org_type: OrganizationType,
    redacted: bool,
    element: &Elem<'_>,
) -> (r: Result<(OrganizationType, Organization), ScScrapingError>)
    ensures
        redacted ==> r is Ok && r->Ok_0.1 is Redacted && r->Ok_0.0 == org_type,
        r is Ok <==> org_body_spec(element.doc(), element.path(), org_type, redacted) is Ok,
        r is Ok ==> r->Ok_0.0 == org_type && org_matches_view(
            r->Ok_0.1,
            org_body_spec(element.doc(), element.path(), org_type, redacted)->Ok_0.1,
        ) && r->Ok_0.1.wf(),
        r is Err ==> r->Err_0 is Organization && r->Err_0.msg() == org_body_spec(
            element.doc(),
            element.path(),
            org_type,
            redacted,
        )->Err_0,
{
    if redacted {
        return Ok((org_type, Organization::Redacted));
    }
    let containers = select_all(element, "div.inner-bg > div.left-col > div");
    if containers.len() == 0 {
        return Err(ScScrapingError::organization("Could not find organization container"));
    }
    let logo = match parse_logo(&containers[0]) {
        Ok(l) => l,
        Err(e) => {
            return Err(e);
        },
    };
    let info = match parse_info(&containers[0]) {
        Ok(d) => d,
        Err(e) => {
            return Err(e);
        },
    };
    let org = Organization::Visible {
        logo,
        name: info.name,
        rank: OrganizationRank { name: info.title, value: info.rank },
        sid: info.sid,
        url: info.url,
        member_count: 0,
    };
    Ok((org_type, org))
}

/// Extracts one organization block, exactly as `org_spec` says: its
/// classification, then either the redacted marker or the visible fields.
pub fn parse_org(element: &Elem<'_>) -> (r: Result<
    (OrganizationType, Organization),
    ScScrapingError,
>)
    ensures
        r is Ok <==> org_spec(element.doc(), element.path()) is Ok,
        r is Ok ==> ({
            let v = org_spec(element.doc(), element.path())->Ok_0;
            r->Ok_0.0 == v.0 && org_matches_view(r->Ok_0.1, v.1) && r->Ok_0.1.wf()
        }),
        r is Err ==> r->Err_0 is Organization && r->Err_0.msg() == org_spec(
            element.doc(),
            element.path(),
        )->Err_0,
{
    let org_type = match parse_type(element) {
        Ok(t) => t,
        Err(e) => {
            return Err(e);
        },
    };
    let markers = select_all(element, "div.member-visibility-restriction");
    parse_org_body(org_type, markers.len() > 0, element)
}

} // verus!
