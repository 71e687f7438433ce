use vstd::prelude::*;
use crate::dom::DomPath;
use crate::dom::Elem;
use crate::dom::img_srcs_from;
use crate::dom::inner_html;
use crate::dom::inner_html_of;
use crate::dom::sel_count;
use crate::dom::select_all;
use crate::dom::src_attrs;
use crate::error::ScScrapingError;
use crate::text::dec_str_of;
use crate::text::u64_to_string;
use crate::urls::first_flexible;
use crate::urls::first_flexible_url;
use crate::urls::first_site_relative;
use crate::urls::first_site_url;
use crate::urls::is_valid_url_text;
use crate::urls::lemma_first_flexible_url_valid;
use crate::urls::lemma_first_site_url_valid;
use crate::urls::opt_views;
use crate::Title;

verus! {

/// The mandatory header fields of a citizen profile.
pub struct ProfileInfo {
    pub avatar: String,
    pub handle: String,
    pub moniker: String,
    pub title: Title,
}

/// What the header block means once extracted.
pub struct ProfileView {
    pub moniker: Seq<char>,
    pub handle: Seq<char>,
    pub icon: Seq<char>,
    pub title_value: Seq<char>,
    pub avatar: Seq<char>,
}

/// The failure text reported when the header holds a number of info rows
/// other than the three that anchor positional extraction.
pub open spec fn profile_count_msg(n: int) -> Seq<char> {
    "Found "@ + dec_str_of(n) + " profile element(s), expected 3."@
}

fn make_profile_count_msg(n: usize) -> (r: String)
    ensures
        r@ == profile_count_msg(n as int),
{
    let num = u64_to_string(n as u64);
    let out = "Found ".to_owned().concat(num.as_str()).concat(
        " profile element(s), expected 3.",
    );
    proof {
        assert(out@ =~= profile_count_msg(n as int));
    }
    out
}

/// The avatar URL the header fragment at `f` yields: the first thumbnail
/// image source that validates as a site-relative URL.
pub open spec fn avatar_spec(doc: Seq<char>, f: DomPath) -> Result<Seq<char>, Seq<char>> {
    let srcs = img_srcs_from(doc, f, "div.thumb > img"@, sel_count(doc, f, "div.thumb > img"@), 0);
    match first_site_url(srcs) {
        Some(u) => Ok(u),
        None => Err("Could not parse avatar URL"@),
    }
}

/// What the three info rows of the header fragment at `f` yield: moniker,
/// handle, icon URL and title text, or the first failure in that order.
pub open spec fn header_spec(doc: Seq<char>, f: DomPath) -> Result<
    (Seq<char>, Seq<char>, Seq<char>, Seq<char>),
    Seq<char>,
> {
    let n = sel_count(doc, f, "div.info > p"@);
    if n != 3 {
        Err(profile_count_msg(n))
    } else {
        let e0 = f.push(("div.info > p"@, 0));
        let e1 = f.push(("div.info > p"@, 1));
        let e2 = f.push(("div.info > p"@, 2));
        if sel_count(doc, e0, "strong"@) == 0 {
            Err("Moniker could not be parsed"@)
        } else if sel_count(doc, e1, "strong"@) == 0 {
            Err("Handle could not be parsed"@)
        } else {
            let moniker = inner_html_of(doc, e0.push(("strong"@, 0)));
            let handle = inner_html_of(doc, e1.push(("strong"@, 0)));
            let srcs = img_srcs_from(
                doc,
                e2,
                "span.icon > img"@,
                sel_count(doc, e2, "span.icon > img"@),
                0,
            );
            match first_flexible_url(srcs) {
                None => Err("Title icon could not be parsed"@),
                Some(icon) => if sel_count(doc, e2, "span.value"@) == 0 {
                    Err("Title could not be parsed"@)
                } else {
                    Ok((moniker, handle, icon, inner_html_of(doc, e2.push(("span.value"@, 0)))))
                },
            }
        }
    }
}

/// What the profile-identity extractor returns for the element at `path`:
/// the header fragment is mandatory, then its info rows, then the avatar.
pub open spec fn profile_spec(doc: Seq<char>, path: DomPath) -> Result<ProfileView, Seq<char>> {
    if sel_count(doc, path, "div.profile.left-col > div"@) == 0 {
        Err("Profile content is empty"@)
    } else {
        let f = path.push(("div.profile.left-col > div"@, 0));
        match header_spec(doc, f) {
            Err(m) => Err(m),
            Ok(h) => match avatar_spec(doc, f) {
                Err(m) => Err(m),
                Ok(a) => Ok(
                    ProfileView {
                        moniker: h.0,
                        handle: h.1,
                        icon: h.2,
                        title_value: h.3,
                        avatar: a,
                    },
                ),
            },
        }
    }
}

/// Reads the avatar image source of the header, always site-relative, and
/// validates it as a URL, exactly as `avatar_spec` says.
pub fn parse_avatar(element: &Elem<'_>) -> (r: Result<String, ScScrapingError>)
    ensures
        r is Ok <==> avatar_spec(element.doc(), element.path()) is Ok,
        r is Ok ==> r->Ok_0@ == avatar_spec(element.doc(), element.path())->Ok_0
            && is_valid_url_text(r->Ok_0@),
        r is Err ==> r->Err_0 is Citizen && r->Err_0.msg() == avatar_spec(
            element.doc(),
            element.path(),
        )->Err_0,
{
    let imgs = select_all(element, "div.thumb > img");
    let srcs = src_attrs(
        &imgs,
        Ghost(element.doc()),
        Ghost(element.path()),
        Ghost("div.thumb > img"@),
    );
    proof {
        lemma_first_site_url_valid(opt_views(srcs@));
    }
    match first_site_relative(&srcs) {
        Some(u) => Ok(u),
        None => Err(ScScrapingError::citizen("Could not parse avatar URL")),
    }
}

/// Reads moniker, handle and title from the three info rows of the header,
/// exactly as `header_spec` says.
pub fn parse_data(element: &Elem<'_>) -> (r: Result<(String, String, Title), ScScrapingError>)
    ensures
        r is Ok <==> header_spec(element.doc(), element.path()) is Ok,
        r is Ok ==> ({
            let h = header_spec(element.doc(), element.path())->Ok_0;
            r->Ok_0.0@ == h.0 && r->Ok_0.1@ == h.1 && r->Ok_0.2.icon@ == h.2 && r->Ok_0.2.value@
                == h.3 && is_valid_url_text(r->Ok_0.2.icon@)
        }),
        r is Err ==> r->Err_0 is Citizen && r->Err_0.msg() == header_spec(
            element.doc(),
            element.path(),
        )->Err_0,
{
    let ghost doc = element.doc();
    let elements = select_all(element, "div.info > p");
    if elements.len() != 3 {
        let msg = make_profile_count_msg(elements.len());
        return Err(ScScrapingError::citizen(msg.as_str()));
    }

    let moniker_strongs = select_all(&elements[0], "strong");
    if moniker_strongs.len() == 0 {
        return Err(ScScrapingError::citizen("Moniker could not be parsed"));
    }
    let moniker = inner_html(&moniker_strongs[0]);

    let handle_strongs = select_all(&elements[1], "strong");
    if handle_strongs.len() == 0 {
        return Err(ScScrapingError::citizen("Handle could not be parsed"));
    }
    let handle = inner_html(&handle_strongs[0]);

    let icon_imgs = select_all(&elements[2], "span.icon > img");
    let icon_srcs = src_attrs(
        &icon_imgs,
        Ghost(doc),
        Ghost(element.path().push(("div.info > p"@, 2))),
        Ghost("span.icon > img"@),
    );
    proof {
        lemma_first_flexible_url_valid(opt_views(icon_srcs@));
    }
    let icon = match first_flexible(&icon_srcs) {
        Some(u) => u,
        None => {
            return Err(ScScrapingError::citizen("Title icon could not be parsed"));
        },
    };

    let title_values = select_all(&elements[2], "span.value");
    if title_values.len() == 0 {
        return Err(ScScrapingError::citizen("Title could not be parsed"));
    }
    let value = inner_html(&title_values[0]);

    Ok((moniker, handle, Title { icon, value }))
}

/// Locates the header block of the profile and pulls the mandatory
/// identity fields out of it, exactly as `profile_spec` says.
pub fn parse_profile_info(element: &Elem<'_>) -> (r: Result<ProfileInfo, ScScrapingError>)
    ensures
        r is Ok <==> profile_spec(element.doc(), element.path()) is Ok,
        r is Ok ==> ({
            let v = profile_spec(element.doc(), element.path())->Ok_0;
            r->Ok_0.moniker@ == v.moniker && r->Ok_0.handle@ == v.handle && r->Ok_0.title.icon@
                == v.icon && r->Ok_0.title.value@ == v.title_value && r->Ok_0.avatar@ == v.avatar
                && is_valid_url_text(r->Ok_0.avatar@) && is_valid_url_text(r->Ok_0.title.icon@)
        }),
        r is Err ==> r->Err_0 is Citizen && r->Err_0.msg() == profile_spec(
            element.doc(),
            element.path(),
        )->Err_0,
{
    let frags = select_all(element, "div.profile.left-col > div");
    if frags.len() == 0 {
        return Err(ScScrapingError::citizen("Profile content is empty"));
    }

    let parts = match parse_data(&frags[0]) {
        Ok(p) => p,
        Err(e) => {
            return Err(e);
        },
    };
    let (moniker, handle, title) = parts;

    let avatar = match parse_avatar(&frags[0]) {
        Ok(a) => a,
        Err(e) => {
            return Err(e);
        },
    };

    Ok(ProfileInfo { avatar, handle, moniker, title })
}

} // verus!
