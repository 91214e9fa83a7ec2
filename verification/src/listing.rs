//! The listing handler: given the entries of the directory a request resolved
//! to, renders them as an HTML page of links. It is stateless and a pure
//! function of its input, so any number of requests can run it at once; the
//! directory read itself happens outside and hands in plain names.

use vstd::prelude::*;

verus! {

/// A per-request, recoverable failure: it becomes an HTTP error response and
/// never brings the serving process down.
#[derive(Clone, Copy, Debug, PartialEq, Eq, Structural)]
pub enum RequestError {
    /// The directory the request resolved to does not exist, is not a
    /// directory, or could not be read.
    NotFound,
}

/// Everything before the list items: the document head, a heading, and the
/// opening of the list.
pub open spec fn doc_head() -> Seq<char> {
    "<html><body><h1>Arch Linux</h1><ul>"@
}

/// Everything after the list items: the closing of the list and the document.
pub open spec fn doc_tail() -> Seq<char> {
    "</ul></body></html>"@
}

/// One list item: a link whose target and text are both the entry's name,
/// relative to the listed directory.
pub open spec fn item_html(name: Seq<char>) -> Seq<char> {
    "<li><a href=\""@ + name + "\">"@ + name + "</a></li>"@
}

/// The list items for the given entry names, in the order given.
pub open spec fn items_html(names: Seq<Seq<char>>) -> Seq<char>
    decreases names.len(),
{
    if names.len() == 0 {
        Seq::empty()
    } else {
        item_html(names[0]) + items_html(names.drop_first())
    }
}

/// The whole rendered page for the given entry names.
pub open spec fn listing_html(names: Seq<Seq<char>>) -> Seq<char> {
    doc_head() + items_html(names) + doc_tail()
}

/// Appending one name appends exactly its item.
proof fn lemma_items_html_push(names: Seq<Seq<char>>, x: Seq<char>)
    ensures
        items_html(names.push(x)) == items_html(names) + item_html(x),
    decreases names.len(),
{
    let pushed = names.push(x);
    if names.len() == 0 {
        assert(pushed.drop_first() =~= Seq::<Seq<char>>::empty());
        assert(items_html(pushed) == item_html(x) + items_html(Seq::<Seq<char>>::empty()));
        assert(item_html(x) + Seq::<char>::empty() =~= Seq::<char>::empty() + item_html(x));
    } else {
        assert(pushed.drop_first() =~= names.drop_first().push(x));
        lemma_items_html_push(names.drop_first(), x);
        assert(item_html(names[0]) + (items_html(names.drop_first()) + item_html(x)) =~= (item_html(
            names[0],
        ) + items_html(names.drop_first())) + item_html(x));
    }
}

/// An HTML response: its body, served with the HTML content type and the
/// body's exact byte length, nothing streamed.
pub struct HtmlResponse {
    pub body: String,
}

impl HtmlResponse {
    /// The content type every listing response is served with.
    pub fn content_type(&self) -> (r: &'static str)
        ensures
            r@ == "text/html"@,
    {
        "text/html"
    }

    /// The exact byte length of the body, for the response's sized body.
    pub fn content_length(&self) -> (r: usize)
        ensures
            r == vstd::utf8::encode_utf8(self.body@).len() as usize,
    {
        self.body.as_str().len()
    }
}

/// The directory a request resolves to: the request's URI path appended
/// verbatim to the configured root.
pub fn target_dir(root: &str, request_path: &str) -> (r: String)
    ensures
        r@ == root@ + request_path@,
{
    let mut r = String::new();
    r.append(root);
    r.append(request_path);
    proof {
        assert(r@ =~= root@ + request_path@);
    }
    r
}

/// Renders the listing page for the given entry names: a heading, then one
/// link per entry, in the order given.
pub fn render_listing(names: &Vec<String>) -> (r: String)
    ensures
        r@ == listing_html(names.deep_view()),
{
    let ghost model = names.deep_view();
    let mut body = String::new();
    body.append("<html><body><h1>Arch Linux</h1><ul>");
    proof {
        assert(model.take(0) =~= Seq::<Seq<char>>::empty());
        assert(body@ =~= doc_head() + items_html(model.take(0)));
    }
    let mut i: usize = 0;
    while i < names.len()
        invariant
            i <= names@.len(),
            model == names.deep_view(),
            model.len() == names@.len(),
            forall|k: int| 0 <= k < model.len() ==> model[k] == names@[k]@,
            body@ == doc_head() + items_html(model.take(i as int)),
        decreases names@.len() - i,
    {
        let name = &names[i];
        body.append("<li><a href=\"");
        body.append(name.as_str());
        body.append("\">");
        body.append(name.as_str());
        body.append("</a></li>");
        proof {
            lemma_items_html_push(model.take(i as int), model[i as int]);
            assert(model.take(i + 1) =~= model.take(i as int).push(model[i as int]));
            assert(body@ =~= doc_head() + items_html(model.take(i + 1)));
        }
        i += 1;
    }
    body.append("</ul></body></html>");
    proof {
        assert(model.take(model.len() as int) =~= model);
        assert(body@ =~= listing_html(model));
    }
    body
}

/// Handles one matched request, given the outcome of reading the resolved
/// directory: a failed read is a not-found outcome for this request alone,
/// a successful one yields the rendered page. A pure function of its input,
/// so concurrent requests cannot affect one another.
pub fn handle_listing(scan: Option<Vec<String>>) -> (r: Result<HtmlResponse, RequestError>)
    ensures
        r is Ok <==> scan is Some,
        r is Ok ==> r->Ok_0.body@ == listing_html(scan->0.deep_view()),
        r is Err ==> r->Err_0 == RequestError::NotFound,
{
    match scan {
        None => Err(RequestError::NotFound),
        Some(names) => Ok(HtmlResponse { body: render_listing(&names) }),
    }
}

/// Serving a listing is idempotent: two requests to the same route with no
/// filesystem change in between see the same entry names, and equal entry
/// names render byte-identical pages.
pub proof fn lemma_listing_idempotent(first: Seq<Seq<char>>, second: Seq<Seq<char>>)
    requires
        first == second,
    ensures
        listing_html(first) == listing_html(second),
{
}

} // verus!
