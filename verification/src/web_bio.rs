use vstd::prelude::*;
use crate::dom::DomPath;
use crate::dom::Elem;
use crate::dom::child_texts_of;
use crate::dom::child_text_contents;
use crate::dom::inner_html;
use crate::dom::inner_html_of;
use crate::dom::sel_count;
use crate::dom::select_all;
use crate::error::ScScrapingError;
use crate::seqs::lemma_filter_push;
use crate::text::trim_str;
use crate::text::trim_spec;
use crate::text::views_of;

verus! {

/// The optional personal website link and the biography lines of a profile.
pub struct WebBio {
    pub website: Option<String>,
    pub bio: Vec<String>,
}

/// The biography lines kept from raw text nodes: each line trimmed, and
/// only the non-empty results retained, in order.
pub open spec fn cleaned_lines(lines: Seq<Seq<char>>) -> Seq<Seq<char>> {
    lines.map_values(|l: Seq<char>| trim_spec(l)).filter(|l: Seq<char>| l.len() > 0)
}

/// The website text the right column yields: the first matching link's
/// inner markup, if any link is there.
pub open spec fn website_spec(doc: Seq<char>, col: DomPath) -> Option<Seq<char>> {
    if sel_count(doc, col, "p.website > a"@) > 0 {
        Some(inner_html_of(doc, col.push(("p.website > a"@, 0))))
    } else {
        None
    }
}

/// The raw text nodes of the biography blocks of the right column, in
/// document order, from the `i`-th block on.
pub open spec fn bio_texts_from(doc: Seq<char>, col: DomPath, n: int, i: int) -> Seq<Seq<char>>
    decreases n - i,
{
    if i >= n {
        Seq::empty()
    } else {
        child_texts_of(doc, col.push(("div.entry.bio > div.value"@, i))) + bio_texts_from(
            doc,
            col,
            n,
            i + 1,
        )
    }
}

/// The biography lines the right column yields.
pub open spec fn bio_spec(doc: Seq<char>, col: DomPath) -> Seq<Seq<char>> {
    cleaned_lines(
        bio_texts_from(doc, col, sel_count(doc, col, "div.entry.bio > div.value"@), 0),
    )
}

/// What the web/bio extractor returns for the element at `path`: only the
/// right column itself is mandatory.
pub open spec fn web_bio_spec(doc: Seq<char>, path: DomPath) -> Result<
    (Option<Seq<char>>, Seq<Seq<char>>),
    Seq<char>,
> {
    if sel_count(doc, path, "div.profile-content > div.right-col"@) == 0 {
        Err("Web and bio parent could not be found"@)
    } else {
        let col = path.push(("div.profile-content > div.right-col"@, 0));
        Ok((website_spec(doc, col), bio_spec(doc, col)))
    }
}

/// Trims each raw text line and keeps the non-empty results, in order.
pub fn clean_bio_lines(lines: &Vec<String>) -> (r: Vec<String>)
    ensures
        views_of(r@) == cleaned_lines(views_of(lines@)),
        forall|k: int| 0 <= k < r@.len() ==> r@[k]@.len() > 0,
{
    let ghost lv = views_of(lines@);
    let mut out: Vec<String> = Vec::new();
    proof {
        assert(lv.take(0) =~= Seq::<Seq<char>>::empty());
        assert(Seq::<Seq<char>>::empty().map_values(|l: Seq<char>| trim_spec(l))
            =~= Seq::<Seq<char>>::empty());
        assert(cleaned_lines(lv.take(0)) =~= views_of(out@));
    }
    let mut i: usize = 0;
    while i < lines.len()
        invariant
            0 <= i <= lines@.len(),
            lv == views_of(lines@),
            lv.len() == lines@.len(),
            views_of(out@) == cleaned_lines(lv.take(i as int)),
            forall|k: int| 0 <= k < out@.len() ==> out@[k]@.len() > 0,
        decreases lines@.len() - i,
    {
        let t = trim_str(lines[i].as_str());
        proof {
            let pre = lv.take(i as int);
            let mapped = pre.map_values(|l: Seq<char>| trim_spec(l));
            assert(lv.take(i as int + 1) =~= pre.push(lv[i as int]));
            assert(lv.take(i as int + 1).map_values(|l: Seq<char>| trim_spec(l))
                =~= mapped.push(trim_spec(lv[i as int])));
            lemma_filter_push(mapped, |l: Seq<char>| l.len() > 0, trim_spec(lv[i as int]));
            assert(lv[i as int] == lines@[i as int]@);
        }
        if t.as_str().unicode_len() > 0 {
            out.push(t);
            proof {
                assert(views_of(out@) =~= cleaned_lines(lv.take(i as int + 1)));
            }
        } else {
            proof {
                assert(views_of(out@) =~= cleaned_lines(lv.take(i as int + 1)));
            }
        }
        i = i + 1;
    }
    proof {
        assert(lv.take(lines@.len() as int) =~= lv);
    }
    out
}

/// Reads the first website link's text, if the column holds one.
pub fn parse_website(element: &Elem<'_>) -> (r: Option<String>)
    ensures
        r is Some <==> website_spec(element.doc(), element.path()) is Some,
        r is Some ==> r.unwrap()@ == website_spec(element.doc(), element.path()).unwrap(),
{
    let links = select_all(element, "p.website > a");
    if links.len() == 0 {
        None
    } else {
        Some(inner_html(&links[0]))
    }
}

/// Collects the direct text nodes of the biography blocks, trimmed, keeping
/// the non-empty lines in document order.
pub fn parse_bio(element: &Elem<'_>) -> (r: Vec<String>)
    ensures
        views_of(r@) == bio_spec(element.doc(), element.path()),
        forall|k: int| 0 <= k < r@.len() ==> r@[k]@.len() > 0,
{
    let ghost doc = element.doc();
    let ghost col = element.path();
    let ghost n = sel_count(doc, col, "div.entry.bio > div.value"@);
    let blocks = select_all(element, "div.entry.bio > div.value");
    let mut texts: Vec<String> = Vec::new();
    proof {
        assert(views_of(texts@) =~= Seq::<Seq<char>>::empty());
    }
    let mut i: usize = 0;
    while i < blocks.len()
        invariant
            0 <= i <= blocks@.len(),
            blocks@.len() == n,
            n == sel_count(doc, col, "div.entry.bio > div.value"@),
            forall|k: int|
                0 <= k < blocks@.len() ==> (#[trigger] blocks@[k]).doc() == doc
                    && blocks@[k].path() == col.push(("div.entry.bio > div.value"@, k)),
            views_of(texts@) + bio_texts_from(doc, col, n, i as int) == bio_texts_from(
                doc,
                col,
                n,
                0,
            ),
        decreases blocks@.len() - i,
    {
        let mut kids = child_text_contents(&blocks[i]);
        proof {
            let step = bio_texts_from(doc, col, n, i as int);
            assert(step == child_texts_of(doc, col.push(("div.entry.bio > div.value"@, i as int)))
                + bio_texts_from(doc, col, n, i as int + 1));
            assert(views_of(texts@ + kids@) =~= views_of(texts@) + views_of(kids@));
            assert((views_of(texts@) + views_of(kids@)) + bio_texts_from(doc, col, n, i as int + 1)
                =~= views_of(texts@) + step);
        }
        texts.append(&mut kids);
        i = i + 1;
    }
    proof {
        assert(bio_texts_from(doc, col, n, i as int) =~= Seq::<Seq<char>>::empty());
        assert(views_of(texts@) =~= views_of(texts@) + bio_texts_from(doc, col, n, i as int));
    }
    clean_bio_lines(&texts)
}

/// Locates the right column of the profile and reads the website link and
/// the biography lines out of it, exactly as `web_bio_spec` says.
pub fn parse_web_bio(element: &Elem<'_>) -> (r: Result<WebBio, ScScrapingError>)
    ensures
        r is Ok <==> web_bio_spec(element.doc(), element.path()) is Ok,
        r is Ok ==> ({
            let v = web_bio_spec(element.doc(), element.path())->Ok_0;
            ((r->Ok_0.website is Some) <==> v.0 is Some) && (r->Ok_0.website is Some
                ==> r->Ok_0.website->0@ == v.0->0) && views_of(r->Ok_0.bio@) == v.1
        }),
        r is Ok ==> forall|k: int|
            0 <= k < r->Ok_0.bio@.len() ==> r->Ok_0.bio@[k]@.len() > 0,
        r is Err ==> r->Err_0 is Citizen && r->Err_0.msg() == web_bio_spec(
            element.doc(),
            element.path(),
        )->Err_0,
{
    let frags = select_all(element, "div.profile-content > div.right-col");
    if frags.len() == 0 {
        return Err(ScScrapingError::citizen("Web and bio parent could not be found"));
    }
    let website = parse_website(&frags[0]);
    let bio = parse_bio(&frags[0]);
    Ok(WebBio { website, bio })
}

} // verus!
