use vstd::prelude::*;

mod date;
mod dom;
mod error;
mod org;
mod other;
mod profile;
mod seqs;
mod text;
mod urls;
mod web_bio;

use dom::parse_document;
use dom::root_element;
use dom::root_path;
use dom::sel_count;
use dom::select_all;
use org::OrgVisView;
use org::org_matches_view;
use org::org_spec;
use other::other_spec;
use other::record_id_spec;
use profile::profile_spec;
use text::views_of;
use web_bio::web_bio_spec;

pub use date::UtcDate;
pub use date::date_text_ok;
pub use date::date_of_text;
pub use date::parse_date_text;
pub use error::ScScrapingError;
pub use org::classify_org_label;
pub use other::OtherData;
pub use other::reconcile_other;
pub use other::record_id_from_text;
pub use profile::ProfileInfo;
pub use text::parse_u64_str;
pub use text::split_str_commas;
pub use text::trim_str;
pub use text::u64_to_string;
pub use web_bio::WebBio;
pub use web_bio::clean_bio_lines;

verus! {

/// The title a citizen carries: a validated icon URL and a display string,
/// always present together.
pub struct Title {
    pub icon: String,
    pub value: String,
}

/// One extracted citizen profile record.
pub struct Citizen {
    pub moniker: String,
    pub handle: String,
    pub title: Title,
    pub enlisted: UtcDate,
    pub citizen_record_number: Option<u64>,
    pub avatar: String,
    pub location: Vec<String>,
    pub fluency: Vec<String>,
    pub website: Option<String>,
    pub bio: Vec<String>,
}

/// The rank a citizen holds in an organization: a display name and a level
/// counted from the active rank markers.
pub struct OrganizationRank {
    pub name: String,
    pub value: u8,
}

/// One organization block: fully visible, or reduced by the owner's privacy
/// setting to a presence-only marker.
pub enum Organization {
    Visible {
        logo: String,
        name: String,
        sid: String,
        url: String,
        rank: OrganizationRank,
        member_count: usize,
    },
    Redacted,
}

/// The affiliations of a citizen: at most one main organization and the
/// affiliate organizations in document order.
pub struct Organizations {
    pub main: Option<Organization>,
    pub affiliates: Vec<Organization>,
}

/// How an organization block is classified by its label.
#[derive(Debug, Clone, Copy, PartialEq, Eq, Structural)]
pub enum OrganizationType {
    Main,
    Affiliate,
}

/// What one extracted citizen record means, field for field.
pub struct CitizenView {
    pub moniker: Seq<char>,
    pub handle: Seq<char>,
    pub title_value: Seq<char>,
    pub icon: Seq<char>,
    pub avatar: Seq<char>,
    pub enlisted: UtcDate,
    pub record: Option<u64>,
    pub location: Seq<Seq<char>>,
    pub fluency: Seq<Seq<char>>,
    pub bio: Seq<Seq<char>>,
    pub website: Option<Seq<char>>,
}

/// What a profile page text yields: the profile content root is mandatory,
/// then the web/bio column, the identity header and the sidebar are read
/// in that order, the first failure winning; the record identifier is
/// optional and never blocks success.
pub open spec fn citizen_spec(doc: Seq<char>) -> Result<CitizenView, Seq<char>> {
    if sel_count(doc, root_path(), "div.profile-content"@) == 0 {
        Err("Citizen content is empty"@)
    } else {
        let c = root_path().push(("div.profile-content"@, 0));
        match web_bio_spec(doc, c) {
            Err(m) => Err(m),
            Ok(wb) => match profile_spec(doc, c) {
                Err(m) => Err(m),
                Ok(pv) => match other_spec(doc, c) {
                    Err(m) => Err(m),
                    Ok(ov) => Ok(
                        CitizenView {
                            moniker: pv.moniker,
                            handle: pv.handle,
                            title_value: pv.title_value,
                            icon: pv.icon,
                            avatar: pv.avatar,
                            enlisted: ov.enlisted,
                            record: record_id_spec(doc, c),
                            location: ov.location,
                            fluency: ov.languages,
                            bio: wb.1,
                            website: wb.0,
                        },
                    ),
                },
            },
        }
    }
}

/// Parses the profile page of a citizen into one record, exactly as
/// `citizen_spec` of the page text says: every mandatory field present and
/// carried over, or the first failure returned.
pub fn parse_citizen_record(html_data: &str) -> (r: Result<Citizen, ScScrapingError>)
    ensures
        r is Ok <==> citizen_spec(html_data@) is Ok,
        r is Ok ==> ({
            let v = citizen_spec(html_data@)->Ok_0;
            r->Ok_0.moniker@ == v.moniker && r->Ok_0.handle@ == v.handle && r->Ok_0.title.value@
                == v.title_value && r->Ok_0.title.icon@ == v.icon && r->Ok_0.avatar@ == v.avatar
                && r->Ok_0.enlisted == v.enlisted && r->Ok_0.citizen_record_number == v.record
                && views_of(r->Ok_0.location@) == v.location && views_of(r->Ok_0.fluency@)
                == v.fluency && views_of(r->Ok_0.bio@) == v.bio && ((r->Ok_0.website is Some)
                <==> v.website is Some) && (r->Ok_0.website is Some ==> r->Ok_0.website->0@
                == v.website->0)
        }),
        r is Ok ==> r->Ok_0.wf(),
        r is Err ==> r->Err_0 is Citizen && r->Err_0.msg() == citizen_spec(html_data@)->Err_0,
{
    let html = parse_document(html_data);
    let root = root_element(&html);
    let citizens = select_all(&root, "div.profile-content");
    if citizens.len() == 0 {
        return Err(ScScrapingError::citizen("Citizen content is empty"));
    }

    let web_bio = match web_bio::parse_web_bio(&citizens[0]) {
        Ok(w) => w,
        Err(e) => {
            return Err(e);
        },
    };
    let info = match profile::parse_profile_info(&citizens[0]) {
        Ok(p) => p,
        Err(e) => {
            return Err(e);
        },
    };
    let other_data = match other::parse_other(&citizens[0]) {
        Ok(o) => o,
        Err(e) => {
            return Err(e);
        },
    };
    let citizen_record_number = other::parse_citizen_record_id(&citizens[0]);

    Ok(
        Citizen {
            moniker: info.moniker,
            handle: info.handle,
            title: info.title,
            avatar: info.avatar,
            website: web_bio.website,
            bio: web_bio.bio,
            enlisted: other_data.enlisted,
            location: other_data.location,
            fluency: other_data.languages,
            citizen_record_number,
        },
    )
}

/// What the organization blocks of a page text yield, from the `i`-th
/// block on: the first failing block's message, or every block's
/// classification and fields in document order.
pub open spec fn org_results_from(doc: Seq<char>, n: int, i: int) -> Result<
    Seq<(OrganizationType, Option<OrgVisView>)>,
    Seq<char>,
>
    decreases n - i,
{
    if i >= n {
        Ok(Seq::empty())
    } else {
        match org_spec(doc, root_path().push(("div.box-content.org"@, i))) {
            Err(m) => Err(m),
            Ok(p) => match org_results_from(doc, n, i + 1) {
                Err(m) => Err(m),
                Ok(s) => Ok(seq![p] + s),
            },
        }
    }
}

/// The blocks classified as main membership, in document order.
pub open spec fn view_mains(items: Seq<(OrganizationType, Option<OrgVisView>)>) -> Seq<
    (OrganizationType, Option<OrgVisView>),
> {
    items.filter(|p: (OrganizationType, Option<OrgVisView>)| p.0 is Main)
}

/// The blocks classified as affiliations, in document order.
pub open spec fn view_affiliates(items: Seq<(OrganizationType, Option<OrgVisView>)>) -> Seq<
    Option<OrgVisView>,
> {
    items.filter(|p: (OrganizationType, Option<OrgVisView>)| p.0 is Affiliate).map_values(
        |p: (OrganizationType, Option<OrgVisView>)| p.1,
    )
}

/// What an organizations page text yields: the first failing block's
/// message; no blocks at all, as a distinct outcome; a failure when more
/// than one block is the main membership; otherwise every block, to be
/// grouped by classification.
pub open spec fn organizations_spec(doc: Seq<char>) -> Result<
    Option<Seq<(OrganizationType, Option<OrgVisView>)>>,
    Seq<char>,
> {
    match org_results_from(doc, sel_count(doc, root_path(), "div.box-content.org"@), 0) {
        Err(m) => Err(m),
        Ok(items) => if items.len() == 0 {
            Ok(None)
        } else if view_mains(items).len() > 1 {
            Err("Cannot have multiple main organizations"@)
        } else {
            Ok(Some(items))
        },
    }
}

/// Parses an organizations page, exactly as `organizations_spec` of the
/// page text says: every block classified and extracted, grouped into at
/// most one main membership and the affiliates in document order.
pub fn parse_organizations(html_data: &str) -> (r: Result<Option<Organizations>, ScScrapingError>)
    ensures
        r is Ok <==> organizations_spec(html_data@) is Ok,
        r is Ok ==> ((r->Ok_0 is None) <==> organizations_spec(html_data@)->Ok_0 is None),
        r is Ok && r->Ok_0 is Some ==> ({
            let items = organizations_spec(html_data@)->Ok_0->0;
            let orgs = r->Ok_0->0;
            ((orgs.main is Some) <==> view_mains(items).len() == 1) && (orgs.main is Some
                ==> org_matches_view(orgs.main->0, view_mains(items)[0].1))
                && orgs.affiliates@.len() == view_affiliates(items).len() && (forall|k: int|
                0 <= k < orgs.affiliates@.len() ==> org_matches_view(
                    #[trigger] orgs.affiliates@[k],
                    view_affiliates(items)[k],
                )) && orgs.wf()
        }),
        r is Err ==> r->Err_0 is Organization && r->Err_0.msg() == organizations_spec(
            html_data@,
        )->Err_0,
{
    let html = parse_document(html_data);
    let root = root_element(&html);
    let ghost doc = html_data@;
    let ghost n = sel_count(doc, root_path(), "div.box-content.org"@);
    let blocks = select_all(&root, "div.box-content.org");
    let mut items: Vec<(OrganizationType, Organization)> = Vec::new();
    let ghost mut views: Seq<(OrganizationType, Option<OrgVisView>)> = Seq::empty();
    proof {
        if org_results_from(doc, n, 0) is Ok {
            assert(views + org_results_from(doc, n, 0)->Ok_0 =~= org_results_from(
                doc,
                n,
                0,
            )->Ok_0);
        }
    }
    let mut i: usize = 0;
    while i < blocks.len()
        invariant
            doc == html_data@,
            0 <= i <= blocks@.len(),
            blocks@.len() == n,
            n == sel_count(doc, root_path(), "div.box-content.org"@),
            forall|k: int|
                0 <= k < blocks@.len() ==> (#[trigger] blocks@[k]).doc() == doc
                    && blocks@[k].path() == root_path().push(("div.box-content.org"@, k)),
            items@.len() == views.len(),
            views.len() == i,
            forall|k: int|
                0 <= k < items@.len() ==> (#[trigger] items@[k]).0 == views[k].0
                    && org_matches_view(items@[k].1, views[k].1) && items@[k].1.wf(),
            org_results_from(doc, n, 0) == (match org_results_from(doc, n, i as int) {
                Err(m) => Err::<Seq<(OrganizationType, Option<OrgVisView>)>, Seq<char>>(m),
                Ok(s) => Ok(views + s),
            }),
        decreases blocks@.len() - i,
    {
        let ghost bpath = root_path().push(("div.box-content.org"@, i as int));
        match org::parse_org(&blocks[i]) {
            Ok(p) => {
                proof {
                    let vp = org_spec(doc, bpath)->Ok_0;
                    if org_results_from(doc, n, i as int + 1) is Ok {
                        let s = org_results_from(doc, n, i as int + 1)->Ok_0;
                        assert(views + (seq![vp] + s) =~= views.push(vp) + s);
                    }
                    views = views.push(vp);
                }
                items.push(p);
            },
            Err(e) => {
                proof {
                    assert(org_results_from(doc, n, i as int) == Err::<
                        Seq<(OrganizationType, Option<OrgVisView>)>,
                        Seq<char>,
                    >(org_spec(doc, bpath)->Err_0));
                }
                return Err(e);
            },
        }
        i = i + 1;
    }
    proof {
        assert(org_results_from(doc, n, i as int) == Ok::<
            Seq<(OrganizationType, Option<OrgVisView>)>,
            Seq<char>,
        >(Seq::empty()));
        assert(views + Seq::<(OrganizationType, Option<OrgVisView>)>::empty() =~= views);
    }
    let ghost items_v = items@;
    let r = assemble_organizations(items);
    proof {
        let rel = |x: (OrganizationType, Organization), y: (OrganizationType, Option<OrgVisView>)|
            x.0 == y.0 && org_matches_view(x.1, y.1) && x.1.wf();
        seqs::lemma_filter_corresponds(
            items_v,
            views,
            |p: (OrganizationType, Organization)| p.0 is Main,
            |p: (OrganizationType, Option<OrgVisView>)| p.0 is Main,
            rel,
        );
        seqs::lemma_filter_corresponds(
            items_v,
            views,
            |p: (OrganizationType, Organization)| p.0 is Affiliate,
            |p: (OrganizationType, Option<OrgVisView>)| p.0 is Affiliate,
            rel,
        );
        assert(main_count(items_v) == view_mains(views).len());
        if r is Ok && r->Ok_0 is Some {
            let orgs = r->Ok_0->0;
            if orgs.main is Some {
                assert(rel(mains_of(items_v)[0], view_mains(views)[0]));
            }
            assert forall|k: int| 0 <= k < orgs.affiliates@.len() implies org_matches_view(
                #[trigger] orgs.affiliates@[k],
                view_affiliates(views)[k],
            ) && orgs.affiliates@[k].wf() by {
                let fe = items_v.filter(
                    |p: (OrganizationType, Organization)| p.0 is Affiliate,
                );
                let fv = views.filter(
                    |p: (OrganizationType, Option<OrgVisView>)| p.0 is Affiliate,
                );
                assert(orgs.affiliates@[k] == fe[k].1);
                assert(view_affiliates(views)[k] == fv[k].1);
                assert(rel(fe[k], fv[k]));
            };
        }
    }
    r
}

/// The organization pairs classified as main membership, in order.
pub open spec fn mains_of(items: Seq<(OrganizationType, Organization)>) -> Seq<
    (OrganizationType, Organization),
> {
    items.filter(|p: (OrganizationType, Organization)| p.0 is Main)
}

/// How many blocks were classified as main membership.
pub open spec fn main_count(items: Seq<(OrganizationType, Organization)>) -> int {
    mains_of(items).len() as int
}

/// The affiliate organizations, in document order.
pub open spec fn affiliates_of(items: Seq<(OrganizationType, Organization)>) -> Seq<
    Organization,
> {
    items.filter(|p: (OrganizationType, Organization)| p.0 is Affiliate).map_values(
        |p: (OrganizationType, Organization)| p.1,
    )
}

/// Groups classified organization blocks into the affiliations record: no
/// block at all means no record, more than one main membership is a
/// failure, and otherwise the single main and the affiliates in document
/// order are kept.
pub fn assemble_organizations(items: Vec<(OrganizationType, Organization)>) -> (r: Result<
    Option<Organizations>,
    ScScrapingError,
>)
    ensures
        r is Err <==> main_count(items@) > 1,
        r is Err ==> r->Err_0 is Organization && r->Err_0.msg()
            == "Cannot have multiple main organizations"@,
        r is Ok ==> ((r->Ok_0 is None) <==> items@.len() == 0),
        r is Ok && items@.len() > 0 ==> ({
            let orgs = r->Ok_0->0;
            ((orgs.main is Some) <==> main_count(items@) == 1) && (main_count(items@) == 1
                ==> orgs.main->0 == mains_of(items@)[0].1) && orgs.affiliates@ == affiliates_of(
                items@,
            )
        }),
{
    let ghost all = items@;
    if items.len() == 0 {
        proof {
            reveal(Seq::filter);
            assert(mains_of(all).len() == 0);
        }
        return Ok(None);
    }
    let mut rest = items;
    let mut main: Option<Organization> = None;
    let mut affiliates: Vec<Organization> = Vec::new();
    let ghost mut i: int = 0;
    proof {
        assert(all.skip(0) =~= all);
        assert(all.take(0) =~= Seq::<(OrganizationType, Organization)>::empty());
        assert(mains_of(all.take(0)) =~= Seq::<(OrganizationType, Organization)>::empty());
        assert(affiliates_of(all.take(0)) =~= Seq::<Organization>::empty());
    }
    while rest.len() > 0
        invariant
            all == items@,
            0 <= i <= all.len(),
            rest@ == all.skip(i),
            main_count(all.take(i)) <= 1,
            (main is Some) <==> main_count(all.take(i)) == 1,
            main is Some ==> main->0 == mains_of(all.take(i))[0].1,
            affiliates@ == affiliates_of(all.take(i)),
        decreases rest@.len(),
    {
        proof {
            assert(all.skip(i)[0] == all[i]);
        }
        let p = rest.remove(0);
        proof {
            assert(rest@ =~= all.skip(i + 1));
            assert(all.take(i + 1) =~= all.take(i).push(all[i]));
            seqs::lemma_filter_push(
                all.take(i),
                |q: (OrganizationType, Organization)| q.0 is Main,
                all[i],
            );
            seqs::lemma_filter_push(
                all.take(i),
                |q: (OrganizationType, Organization)| q.0 is Affiliate,
                all[i],
            );
        }
        let (t, o) = p;
        match t {
            OrganizationType::Main => {
                if main.is_some() {
                    proof {
                        assert(all[i].0 is Main);
                        assert(mains_of(all.take(i + 1)).len() == 2);
                        Seq::filter_distributes_over_add(
                            all.take(i + 1),
                            all.skip(i + 1),
                            |q: (OrganizationType, Organization)| q.0 is Main,
                        );
                        assert(all.take(i + 1) + all.skip(i + 1) =~= all);
                        assert(mains_of(all) == mains_of(all.take(i + 1)) + mains_of(
                            all.skip(i + 1),
                        ));
                        assert(main_count(all) >= 2);
                    }
                    return Err(
                        ScScrapingError::organization("Cannot have multiple main organizations"),
                    );
                }
                main = Some(o);
            },
            OrganizationType::Affiliate => {
                affiliates.push(o);
                proof {
                    assert(affiliates@ =~= affiliates_of(all.take(i + 1)));
                }
            },
        }
        proof {
            i = i + 1;
        }
    }
    proof {
        assert(all.skip(i).len() == 0);
        assert(all.take(i) =~= all);
    }
    Ok(Some(Organizations { main, affiliates }))
}

impl Organization {
    /// What holds of every extracted organization: a visible block carries
    /// validated logo and page URLs, and the member count, which no
    /// extraction step populates, stays zero.
    pub open spec fn wf(self) -> bool {
        match self {
            Organization::Visible { logo, name: _, sid: _, url, rank: _, member_count } => {
                urls::is_valid_url_text(logo@) && urls::is_valid_url_text(url@) && member_count
                    == 0
            },
            Organization::Redacted => true,
        }
    }
}

impl Organizations {
    /// Every organization held, main or affiliate, is well-formed.
    pub open spec fn wf(self) -> bool {
        (match self.main {
            Some(m) => m.wf(),
            None => true,
        }) && forall|k: int| 0 <= k < self.affiliates@.len() ==> self.affiliates@[k].wf()
    }
}

impl Citizen {
    /// What holds of every successfully extracted record: a proper
    /// enlistment day, validated avatar and icon URLs, and no empty
    /// biography line.
    pub open spec fn wf(self) -> bool {
        self.enlisted.wf() && urls::is_valid_url_text(self.avatar@) && urls::is_valid_url_text(
            self.title.icon@,
        ) && forall|k: int| 0 <= k < self.bio@.len() ==> self.bio@[k]@.len() > 0
    }
}

} // verus!
