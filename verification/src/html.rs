//! Link extraction and the denied-link filter.
//!
//! The HTML parser is an outside collaborator: the raw href attributes it
//! yields are named by an uninterpreted spec function. The filter that
//! drops denied schemes and placeholder anchors is the engine's own logic
//! and is verified exactly.

use vstd::prelude::*;
use crate::text::is_prefix;
use crate::text::starts_with;
use crate::text::str_eq;

verus! {

/// The href attribute of each anchor element of an HTML document, in
/// document order.
pub uninterp spec fn hrefs_of(html: Seq<char>) -> Seq<Seq<char>>;

/// A link target the crawler refuses to follow: a non-HTTP scheme
/// (mail, file-transfer, telephone) or a placeholder anchor.
pub open spec fn denied_link(l: Seq<char>) -> bool {
    ||| is_prefix(l, "mailto:"@)
    ||| is_prefix(l, "ftp:"@)
    ||| is_prefix(l, "tel:"@)
    ||| l == "#"@
    ||| l == "javascript:void(0)"@
}

/// The extracted links with every denied target dropped, order kept.
pub open spec fn filter_denied(links: Seq<Seq<char>>) -> Seq<Seq<char>>
    decreases links.len(),
{
    if links.len() == 0 {
        Seq::empty()
    } else {
        let rest = filter_denied(links.drop_first());
        if denied_link(links.first()) {
            rest
        } else {
            seq![links.first()] + rest
        }
    }
}

/// Relies on select::document::Document::from and Document::find with
/// select::predicate::Name: yields each anchor element's href attribute
/// in document order; the result depends on the HTML text alone.
#[verifier::external_body]
fn extract_hrefs(html: &str) -> (r: Vec<String>)
    ensures
        r.deep_view() == hrefs_of(html@),
{
    let document = select::document::Document::from(html);
    document
        .find(select::predicate::Name("a"))
        .filter_map(|node| node.attr("href").map(|link| link.to_string()))
        .collect()
}

/// Decides whether a single link target is denied.
pub fn is_denied_link(l: &str) -> (r: bool)
    ensures
        r == denied_link(l@),
{
    starts_with(l, "mailto:") || starts_with(l, "ftp:") || starts_with(l, "tel:")
        || str_eq(l, "#") || str_eq(l, "javascript:void(0)")
}

/// Extracts the outbound link targets of a page and drops the denied ones.
pub fn find_links(html: &str) -> (r: Vec<String>)
    ensures
        r.deep_view() == filter_denied(hrefs_of(html@)),
{
    let raw = extract_hrefs(html);
    let ghost dv = raw.deep_view();
    let mut links: Vec<String> = Vec::new();
    let n = raw.len();
    let mut i: usize = 0;
    proof {
        assert(dv.skip(0) =~= dv);
    }
    while i < n
        invariant
            n == raw@.len(),
            dv == raw.deep_view(),
            i <= n,
            links.deep_view() + filter_denied(dv.skip(i as int)) == filter_denied(dv),
        decreases n - i,
    {
        let ghost old_links = links.deep_view();
        let link = &raw[i];
        if !is_denied_link(link.as_str()) {
            links.push(link.clone());
        }
        proof {
            assert(dv[i as int] == link@);
            assert(dv.skip(i as int).first() == link@);
            assert(dv.skip(i as int).drop_first() =~= dv.skip(i + 1));
            if !denied_link(link@) {
                assert(links.deep_view() =~= old_links.push(link@));
                assert(old_links.push(link@) + filter_denied(dv.skip(i + 1)) =~= old_links
                    + (seq![link@] + filter_denied(dv.skip(i + 1))));
            }
        }
        i += 1;
    }
    proof {
        assert(dv.skip(n as int) =~= Seq::<Seq<char>>::empty());
        assert(links.deep_view() + filter_denied(dv.skip(n as int)) =~= links.deep_view());
    }
    links
}

} // verus!
