use vstd::prelude::*;
use crate::text::views_of;
use crate::urls::opt_views;

verus! {

/// The parsed document tree of `scraper::Html`, carried opaquely.
#[verifier::external_type_specification]
#[verifier::external_body]
pub struct ExHtml(scraper::Html);

/// A `scraper::ElementRef` into a parsed document, carried opaquely.
#[verifier::external_type_specification]
#[verifier::external_body]
pub struct ExElementRef<'a>(scraper::ElementRef<'a>);

/// The ghost identity of an element: each step selects a query text and the
/// index of one of its matches, starting from the document root. Parsing and
/// selection in `scraper` are deterministic in the document text, so the
/// text and such a path determine the element.
pub type DomPath = Seq<(Seq<char>, int)>;

pub open spec fn root_path() -> DomPath {
    Seq::empty()
}

/// How many descendants of the element at `path` match `sel`, as
/// `scraper::ElementRef::select` yields them; determined by the document
/// text and the element's path alone.
pub uninterp spec fn sel_count(doc: Seq<char>, path: DomPath, sel: Seq<char>) -> int;

/// The markup between the tags of the element at `path`, as
/// `scraper::ElementRef::inner_html` renders it.
pub uninterp spec fn inner_html_of(doc: Seq<char>, path: DomPath) -> Seq<char>;

/// The value of the named attribute of the element at `path`, if it carries
/// one, as `scraper::ElementRef::attr` reads it.
pub uninterp spec fn attr_of(doc: Seq<char>, path: DomPath, name: Seq<char>) -> Option<Seq<char>>;

/// The texts of the direct child text nodes of the element at `path`, in
/// document order, as `scraper::Node::as_text` exposes them.
pub uninterp spec fn child_texts_of(doc: Seq<char>, path: DomPath) -> Seq<Seq<char>>;

/// A parsed page, remembering the text it was parsed from.
pub struct Doc {
    html: scraper::Html,
    text: String,
}

impl Doc {
    /// The text this document was parsed from.
    pub closed spec fn text(&self) -> Seq<char> {
        self.text@
    }
}

/// An element of a parsed page together with its identity: the document
/// text and the selection steps that produced it. Only the queries below
/// build these values, so the identity is honest by construction.
pub struct Elem<'a> {
    el: scraper::ElementRef<'a>,
    doc_text: &'a str,
    steps: Vec<(String, usize)>,
}

impl<'a> Elem<'a> {
    /// The text of the document this element belongs to.
    pub closed spec fn doc(&self) -> Seq<char> {
        self.doc_text@
    }

    /// The selection steps that produced this element.
    pub closed spec fn path(&self) -> DomPath {
        self.steps@.map_values(|p: (String, usize)| (p.0@, p.1 as int))
    }
}

/// Relies on `scraper::Html::parse_document` to build the element tree of a
/// page; the tree stays opaque here and is read through the queries below.
#[verifier::external_body]
pub(crate) fn parse_document(html_data: &str) -> (d: Doc)
    ensures
        d.text() == html_data@,
{
    Doc { html: scraper::Html::parse_document(html_data), text: html_data.to_owned() }
}

/// Relies on `scraper::Html::root_element` for the document's root element.
#[verifier::external_body]
pub(crate) fn root_element<'a>(doc: &'a Doc) -> (e: Elem<'a>)
    ensures
        e.doc() == doc.text(),
        e.path() == root_path(),
{
    Elem { el: doc.html.root_element(), doc_text: doc.text.as_str(), steps: Vec::new() }
}

/// Relies on `scraper::Selector::parse` and `scraper::ElementRef::select`:
/// the descendants of `element` matching the query, in document order, each
/// handed out under its selection path. A query text that does not compile
/// yields no matches.
#[verifier::external_body]
pub(crate) fn select_all<'a>(element: &Elem<'a>, selector: &str) -> (r: Vec<Elem<'a>>)
    ensures
        r@.len() == sel_count(element.doc(), element.path(), selector@),
        forall|k: int|
            0 <= k < r@.len() ==> (#[trigger] r@[k]).doc() == element.doc() && r@[k].path()
                == element.path().push((selector@, k)),
{
    let sel = match scraper::Selector::parse(selector) {
        Ok(s) => s,
        Err(_) => {
            return Vec::new();
        },
    };
    let mut out: Vec<Elem<'a>> = Vec::new();
    for (k, e) in element.el.select(&sel).enumerate() {
        let mut steps = element.steps.clone();
        steps.push((selector.to_owned(), k));
        out.push(Elem { el: e, doc_text: element.doc_text, steps });
    }
    out
}

/// Relies on `scraper::ElementRef::inner_html` for the markup between the
/// element's tags.
#[verifier::external_body]
pub(crate) fn inner_html(element: &Elem<'_>) -> (r: String)
    ensures
        r@ == inner_html_of(element.doc(), element.path()),
{
    element.el.inner_html()
}

/// Relies on `scraper::ElementRef::attr` for the value of an attribute, if
/// the element carries it.
#[verifier::external_body]
pub(crate) fn attr_value(element: &Elem<'_>, name: &str) -> (r: Option<String>)
    ensures
        r is Some <==> attr_of(element.doc(), element.path(), name@) is Some,
        r is Some ==> r.unwrap()@ == attr_of(element.doc(), element.path(), name@).unwrap(),
{
    match element.el.attr(name) {
        Some(v) => Some(v.to_owned()),
        None => None,
    }
}

/// Relies on `ego_tree::NodeRef::children` and `scraper::Node::as_text`: the
/// text of each direct child node that is a text node, in document order.
#[verifier::external_body]
pub(crate) fn child_text_contents(element: &Elem<'_>) -> (r: Vec<String>)
    ensures
        views_of(r@) == child_texts_of(element.doc(), element.path()),
{
    let mut out: Vec<String> = Vec::new();
    for child in element.el.children() {
        if let Some(t) = child.value().as_text() {
            let s: &str = t;
            out.push(s.to_owned());
        }
    }
    out
}

/// The `src` attribute of each match of `sel` under the element at
/// `parent`, from the `i`-th match on.
pub open spec fn img_srcs_from(
    doc: Seq<char>,
    parent: DomPath,
    sel: Seq<char>,
    n: int,
    i: int,
) -> Seq<Option<Seq<char>>>
    decreases n - i,
{
    if i >= n {
        Seq::empty()
    } else {
        seq![attr_of(doc, parent.push((sel, i)), "src"@)] + img_srcs_from(doc, parent, sel, n, i + 1)
    }
}

/// Reads the `src` attribute of each element in a selection, in order.
pub(crate) fn src_attrs(
    imgs: &Vec<Elem<'_>>,
    Ghost(doc): Ghost<Seq<char>>,
    Ghost(parent): Ghost<DomPath>,
    Ghost(sel): Ghost<Seq<char>>,
) -> (r: Vec<Option<String>>)
    requires
        imgs@.len() == sel_count(doc, parent, sel),
        forall|k: int|
            0 <= k < imgs@.len() ==> (#[trigger] imgs@[k]).doc() == doc && imgs@[k].path()
                == parent.push((sel, k)),
    ensures
        opt_views(r@) == img_srcs_from(doc, parent, sel, sel_count(doc, parent, sel), 0),
{
    let ghost n = sel_count(doc, parent, sel);
    let mut out: Vec<Option<String>> = Vec::new();
    proof {
        assert(opt_views(out@) =~= Seq::<Option<Seq<char>>>::empty());
    }
    let mut i: usize = 0;
    while i < imgs.len()
        invariant
            0 <= i <= imgs@.len(),
            imgs@.len() == n,
            n == sel_count(doc, parent, sel),
            forall|k: int|
                0 <= k < imgs@.len() ==> (#[trigger] imgs@[k]).doc() == doc && imgs@[k].path()
                    == parent.push((sel, k)),
            opt_views(out@) + img_srcs_from(doc, parent, sel, n, i as int) == img_srcs_from(
                doc,
                parent,
                sel,
                n,
                0,
            ),
        decreases imgs@.len() - i,
    {
        let a = attr_value(&imgs[i], "src");
        proof {
            let step = img_srcs_from(doc, parent, sel, n, i as int);
            assert(step == seq![attr_of(doc, parent.push((sel, i as int)), "src"@)]
                + img_srcs_from(doc, parent, sel, n, i as int + 1));
            let av = match &a {
                Some(s) => Some(s@),
                None => None,
            };
            assert(av == attr_of(doc, parent.push((sel, i as int)), "src"@));
            assert(opt_views(out@.push(a)) =~= opt_views(out@).push(av));
            assert((opt_views(out@).push(av)) + img_srcs_from(doc, parent, sel, n, i as int + 1)
                =~= opt_views(out@) + step);
        }
        out.push(a);
        i = i + 1;
    }
    proof {
        assert(img_srcs_from(doc, parent, sel, n, i as int) =~= Seq::<Option<Seq<char>>>::empty());
        assert(opt_views(out@) =~= opt_views(out@) + img_srcs_from(doc, parent, sel, n, i as int));
    }
    out
}

} // verus!
