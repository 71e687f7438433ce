use vstd::prelude::*;
use crate::text::has_prefix_spec;
use crate::text::has_prefix;

verus! {

/// The origin every site-relative path is rooted at.
pub open spec fn site_origin() -> Seq<char> {
    "https://robertsspaceindustries.com"@
}

/// What `url::Url::parse` makes of a text: `None` where it rejects the
/// syntax, otherwise the accepted URL rendered back as text. The result
/// depends on the input text alone.
pub uninterp spec fn parsed_url(s: Seq<char>) -> Option<Seq<char>>;

/// Relies on `url::Url::parse` for URL syntax validation and normalization;
/// an accepted value is rendered back with `url::Url::as_str`.
#[verifier::external_body]
fn parse_url(s: &str) -> (r: Option<String>)
    ensures
        r is Some <==> parsed_url(s@) is Some,
        r is Some ==> r.unwrap()@ == parsed_url(s@).unwrap(),
{
    match url::Url::parse(s) {
        Ok(u) => Some(u.as_str().to_owned()),
        Err(_) => None,
    }
}

/// The text a site-relative source resolves to before validation.
pub open spec fn site_prefixed(src: Seq<char>) -> Seq<char> {
    site_origin() + src
}

/// Validates a source that is always taken as site-relative: the origin is
/// prepended and the result must pass URL validation.
pub fn resolve_site_relative(src: &str) -> (r: Option<String>)
    ensures
        r is Some <==> parsed_url(site_prefixed(src@)) is Some,
        r is Some ==> r.unwrap()@ == parsed_url(site_prefixed(src@)).unwrap(),
{
    let full = "https://robertsspaceindustries.com".to_owned().concat(src);
    parse_url(full.as_str())
}

/// The candidate text an icon source normalizes to: an absolute `https://`
/// value stands as it is, a `/`-rooted path is prefixed with the site
/// origin, and any other shape is rejected.
pub open spec fn flexible_target(src: Seq<char>) -> Option<Seq<char>> {
    if has_prefix_spec(src, "https://"@) {
        Some(src)
    } else if has_prefix_spec(src, "/"@) {
        Some(site_prefixed(src))
    } else {
        None
    }
}

/// The URL a flexible (absolute-or-site-relative) source yields, if any.
pub open spec fn flexible_url(src: Seq<char>) -> Option<Seq<char>> {
    match flexible_target(src) {
        Some(t) => parsed_url(t),
        None => None,
    }
}

/// Validates a source that may be absolute or site-relative.
pub fn resolve_flexible(src: &str) -> (r: Option<String>)
    ensures
        r is Some <==> flexible_url(src@) is Some,
        r is Some ==> r.unwrap()@ == flexible_url(src@).unwrap(),
{
    if has_prefix(src, "https://") {
        parse_url(src)
    } else if has_prefix(src, "/") {
        resolve_site_relative(src)
    } else {
        None
    }
}

/// A text that the URL parser produced from some input: the shape every
/// validated URL field of a record has.
pub open spec fn is_valid_url_text(u: Seq<char>) -> bool {
    exists|t: Seq<char>| parsed_url(t) == Some(u)
}

/// The first image source in a list that resolves as a site-relative URL;
/// an element without a source attribute is skipped.
pub open spec fn first_site_url(srcs: Seq<Option<Seq<char>>>) -> Option<Seq<char>>
    decreases srcs.len(),
{
    if srcs.len() == 0 {
        None
    } else {
        match srcs[0] {
            Some(s) => match parsed_url(site_prefixed(s)) {
                Some(u) => Some(u),
                None => first_site_url(srcs.drop_first()),
            },
            None => first_site_url(srcs.drop_first()),
        }
    }
}

/// The views of a list of optional attribute values.
pub open spec fn opt_views(v: Seq<Option<String>>) -> Seq<Option<Seq<char>>> {
    v.map_values(
        |p: Option<String>|
            match p {
                Some(s) => Some(s@),
                None => None,
            },
    )
}

/// Walks a list of optional image sources and returns the first that
/// resolves as a site-relative URL.
pub fn first_site_relative(srcs: &Vec<Option<String>>) -> (r: Option<String>)
    ensures
        r is Some <==> first_site_url(opt_views(srcs@)) is Some,
        r is Some ==> r.unwrap()@ == first_site_url(opt_views(srcs@)).unwrap(),
{
    let ghost all = opt_views(srcs@);
    proof {
        assert(all.skip(0) =~= all);
    }
    let mut i: usize = 0;
    while i < srcs.len()
        invariant
            0 <= i <= srcs@.len(),
            all == opt_views(srcs@),
            all.len() == srcs@.len(),
            first_site_url(all) == first_site_url(all.skip(i as int)),
        decreases srcs@.len() - i,
    {
        proof {
            assert(all.skip(i as int)[0] == all[i as int]);
            assert(all.skip(i as int).drop_first() =~= all.skip(i as int + 1));
        }
        match &srcs[i] {
            Some(src) => {
                match resolve_site_relative(src.as_str()) {
                    Some(u) => {
                        return Some(u);
                    },
                    None => {},
                }
            },
            None => {},
        }
        i = i + 1;
    }
    proof {
        assert(all.skip(i as int).len() == 0);
    }
    None
}

/// The first image source in a list that resolves as a flexible URL.
pub open spec fn first_flexible_url(srcs: Seq<Option<Seq<char>>>) -> Option<Seq<char>>
    decreases srcs.len(),
{
    if srcs.len() == 0 {
        None
    } else {
        match srcs[0] {
            Some(s) => match flexible_url(s) {
                Some(u) => Some(u),
                None => first_flexible_url(srcs.drop_first()),
            },
            None => first_flexible_url(srcs.drop_first()),
        }
    }
}

/// Walks a list of optional image sources and returns the first that
/// resolves as a flexible (absolute-or-site-relative) URL.
pub fn first_flexible(srcs: &Vec<Option<String>>) -> (r: Option<String>)
    ensures
        r is Some <==> first_flexible_url(opt_views(srcs@)) is Some,
        r is Some ==> r.unwrap()@ == first_flexible_url(opt_views(srcs@)).unwrap(),
{
    let ghost all = opt_views(srcs@);
    proof {
        assert(all.skip(0) =~= all);
    }
    let mut i: usize = 0;
    while i < srcs.len()
        invariant
            0 <= i <= srcs@.len(),
            all == opt_views(srcs@),
            all.len() == srcs@.len(),
            first_flexible_url(all) == first_flexible_url(all.skip(i as int)),
        decreases srcs@.len() - i,
    {
        proof {
            assert(all.skip(i as int)[0] == all[i as int]);
            assert(all.skip(i as int).drop_first() =~= all.skip(i as int + 1));
        }
        match &srcs[i] {
            Some(src) => {
                match resolve_flexible(src.as_str()) {
                    Some(u) => {
                        return Some(u);
                    },
                    None => {},
                }
            },
            None => {},
        }
        i = i + 1;
    }
    proof {
        assert(all.skip(i as int).len() == 0);
    }
    None
}

/// Whatever source wins, a first-match walk over site-relative sources
/// hands back a text the URL parser produced.
pub proof fn lemma_first_site_url_valid(srcs: Seq<Option<Seq<char>>>)
    ensures
        first_site_url(srcs) is Some ==> is_valid_url_text(first_site_url(srcs).unwrap()),
    decreases srcs.len(),
{
    if srcs.len() > 0 {
        match srcs[0] {
            Some(s) => {
                if parsed_url(site_prefixed(s)) is Some {
                    assert(parsed_url(site_prefixed(s)) == Some(
                        first_site_url(srcs).unwrap(),
                    ));
                } else {
                    lemma_first_site_url_valid(srcs.drop_first());
                }
            },
            None => {
                lemma_first_site_url_valid(srcs.drop_first());
            },
        }
    }
}

/// Whatever source wins, a first-match walk over flexible sources hands
/// back a text the URL parser produced.
pub proof fn lemma_first_flexible_url_valid(srcs: Seq<Option<Seq<char>>>)
    ensures
        first_flexible_url(srcs) is Some ==> is_valid_url_text(
            first_flexible_url(srcs).unwrap(),
        ),
    decreases srcs.len(),
{
    if srcs.len() > 0 {
        match srcs[0] {
            Some(s) => {
                if flexible_url(s) is Some {
                    assert(parsed_url(flexible_target(s).unwrap()) == Some(
                        first_flexible_url(srcs).unwrap(),
                    ));
                } else {
                    lemma_first_flexible_url_valid(srcs.drop_first());
                }
            },
            None => {
                lemma_first_flexible_url_valid(srcs.drop_first());
            },
        }
    }
}

} // verus!
