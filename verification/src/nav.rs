//! The EPUB navigation document: one ordered list entry per table-of-contents
//! entry, each linking the first page of a titled chapter, relative to the
//! document's own location at the archive's `item/` root.

use vstd::prelude::*;
use crate::item::{lookup_seq, Manifest, ManifestItem, TocEntry};
use crate::textfmt::{esc_spec, push_escaped};

verus! {

/// The href that a table-of-contents entry resolves to through the manifest.
pub open spec fn toc_href(items: Seq<(String, ManifestItem)>, e: TocEntry) -> Seq<char> {
    match lookup_seq(items, e.id@) {
        Some(item) => item.href.text(),
        None => Seq::<char>::empty(),
    }
}

/// The list items of the navigation document, in insertion order.
pub open spec fn nav_items(toc: Seq<TocEntry>, items: Seq<(String, ManifestItem)>) -> Seq<char>
    decreases toc.len(),
{
    if toc.len() == 0 {
        Seq::<char>::empty()
    } else {
        nav_items(toc.drop_last(), items) + "<li><a href=\""@ + esc_spec(
            toc_href(items, toc.last()),
        ) + "\">"@ + esc_spec(toc.last().caption@) + "</a></li>\n"@
    }
}

/// The whole navigation document.
pub open spec fn nav_doc(
    lang: Seq<char>,
    toc: Seq<TocEntry>,
    items: Seq<(String, ManifestItem)>,
) -> Seq<char> {
    "<?xml version=\"1.0\" encoding=\"utf-8\"?>\n<!DOCTYPE html>\n<html xmlns=\"http://www.w3.org/1999/xhtml\" xmlns:epub=\"http://www.idpf.org/2007/ops\" xml:lang=\""@
        + esc_spec(lang)
        + "\">\n<head>\n<meta charset=\"UTF-8\"/>\n<title>Navigation</title>\n</head>\n<body>\n<nav epub:type=\"toc\" id=\"toc\">\n<h1>Navigation</h1>\n<ol>\n"@
        + nav_items(toc, items) + "</ol>\n</nav>\n</body>\n</html>\n"@
}

/// Builds the navigation document. Every entry's id must already exist in the
/// manifest; the builder establishes that before calling.
pub fn navigation(lang: &str, toc: &Vec<TocEntry>, manifest: &Manifest) -> (r: String)
    requires
        forall|k: int|
            0 <= k < toc@.len() ==> lookup_seq(manifest.items@, #[trigger] toc@[k].id@) is Some,
    ensures
        r@ == nav_doc(lang@, toc@, manifest.items@),
{
    let mut out = String::new();
    out.append(
        "<?xml version=\"1.0\" encoding=\"utf-8\"?>\n<!DOCTYPE html>\n<html xmlns=\"http://www.w3.org/1999/xhtml\" xmlns:epub=\"http://www.idpf.org/2007/ops\" xml:lang=\"",
    );
    push_escaped(&mut out, lang);
    out.append(
        "\">\n<head>\n<meta charset=\"UTF-8\"/>\n<title>Navigation</title>\n</head>\n<body>\n<nav epub:type=\"toc\" id=\"toc\">\n<h1>Navigation</h1>\n<ol>\n",
    );

    let ghost head = out@;
    let n = toc.len();
    let mut i: usize = 0;
    proof {
        assert(toc@.subrange(0, 0) =~= Seq::<TocEntry>::empty());
        assert(out@ =~= head + nav_items(toc@.subrange(0, 0), manifest.items@));
    }
    while i < n
        invariant
            i <= n,
            n == toc@.len(),
            forall|k: int|
                0 <= k < toc@.len() ==> lookup_seq(manifest.items@, #[trigger] toc@[k].id@)
                    is Some,
            out@ == head + nav_items(toc@.subrange(0, i as int), manifest.items@),
        decreases n - i,
    {
        out.append("<li><a href=\"");
        let href: String = match manifest.get(toc[i].id.as_str()) {
            Some(item) => item.href.to_text(),
            None => {
                proof {
                    assert(false);
                }
                String::new()
            },
        };
        push_escaped(&mut out, href.as_str());
        out.append("\">");
        push_escaped(&mut out, toc[i].caption.as_str());
        out.append("</a></li>\n");
        proof {
            let pre = toc@.subrange(0, i as int);
            let post = toc@.subrange(0, i + 1);
            assert(post.drop_last() =~= pre);
            assert(post.last() == toc@[i as int]);
            assert(out@ =~= head + nav_items(post, manifest.items@));
        }
        i = i + 1;
    }
    proof {
        assert(toc@.subrange(0, n as int) =~= toc@);
    }
    out.append("</ol>\n</nav>\n</body>\n</html>\n");
    proof {
        assert(out@ =~= nav_doc(lang@, toc@, manifest.items@));
    }
    out
}

} // verus!
