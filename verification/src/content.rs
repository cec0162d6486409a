//! The per-page content document: an XHTML wrapper around one inline SVG
//! image, with the book's title, one stylesheet link per linked style, and a
//! viewport matching the image's pixel size.

use vstd::prelude::*;
use crate::textfmt::{dec_spec, esc_spec, push_dec, push_escaped};

verus! {

/// One stylesheet link per linked style, in style order, each href one level
/// up from the document.
pub open spec fn style_links(styles: Seq<Seq<char>>) -> Seq<char>
    decreases styles.len(),
{
    if styles.len() == 0 {
        Seq::<char>::empty()
    } else {
        style_links(styles.drop_last()) + "<link rel=\"stylesheet\" type=\"text/css\" href=\"../"@
            + esc_spec(styles.last()) + "\"/>\n"@
    }
}

/// The whole content document for one page.
pub open spec fn page_doc(
    lang: Seq<char>,
    title: Seq<char>,
    styles: Seq<Seq<char>>,
    width: nat,
    height: nat,
    cover: bool,
    image_href: Seq<char>,
) -> Seq<char> {
    "<?xml version=\"1.0\" encoding=\"utf-8\"?>\n<!DOCTYPE html>\n<html xmlns=\"http://www.w3.org/1999/xhtml\" xmlns:epub=\"http://www.idpf.org/2007/ops\" xml:lang=\""@
        + esc_spec(lang) + "\">\n<head>\n<meta charset=\"UTF-8\"/>\n<title>"@ + esc_spec(title)
        + "</title>\n"@ + style_links(styles) + "<meta name=\"viewport\" content=\"width="@
        + dec_spec(width) + ", height="@ + dec_spec(height) + "\"/>\n</head>\n"@
        + (if cover { "<body epub:type=\"cover\">\n"@ } else { "<body>\n"@ })
        + "<div class=\"main\">\n<svg xmlns=\"http://www.w3.org/2000/svg\" xmlns:xlink=\"http://www.w3.org/1999/xlink\" version=\"1.1\" width=\"100%\" height=\"100%\" viewBox=\"0 0 "@
        + dec_spec(width) + " "@ + dec_spec(height) + "\">\n<image width=\""@ + dec_spec(width)
        + "\" height=\""@ + dec_spec(height) + "\" xlink:href=\"../"@ + esc_spec(image_href)
        + "\"/>\n</svg>\n</div>\n</body>\n</html>\n"@
}

/// Builds the XHTML wrapper document for one page image.
pub fn wrap(
    lang: &str,
    title: &str,
    styles: &Vec<String>,
    width: u32,
    height: u32,
    cover: bool,
    image_href: &str,
) -> (r: String)
    ensures
        r@ == page_doc(
            lang@,
            title@,
            styles@.map_values(|s: String| s@),
            width as nat,
            height as nat,
            cover,
            image_href@,
        ),
{
    let mut out = String::new();
    out.append(
        "<?xml version=\"1.0\" encoding=\"utf-8\"?>\n<!DOCTYPE html>\n<html xmlns=\"http://www.w3.org/1999/xhtml\" xmlns:epub=\"http://www.idpf.org/2007/ops\" xml:lang=\"",
    );
    push_escaped(&mut out, lang);
    out.append("\">\n<head>\n<meta charset=\"UTF-8\"/>\n<title>");
    push_escaped(&mut out, title);
    out.append("</title>\n");

    let ghost views = styles@.map_values(|s: String| s@);
    let ghost head = out@;
    let n = styles.len();
    let mut i: usize = 0;
    proof {
        assert(views.subrange(0, 0) =~= Seq::<Seq<char>>::empty());
        assert(out@ =~= head + style_links(views.subrange(0, 0)));
    }
    while i < n
        invariant
            i <= n,
            n == styles@.len(),
            views == styles@.map_values(|s: String| s@),
            out@ == head + style_links(views.subrange(0, i as int)),
        decreases n - i,
    {
        out.append("<link rel=\"stylesheet\" type=\"text/css\" href=\"../");
        push_escaped(&mut out, styles[i].as_str());
        out.append("\"/>\n");
        proof {
            let pre = views.subrange(0, i as int);
            let post = views.subrange(0, i + 1);
            assert(post.drop_last() =~= pre);
            assert(post.last() == views[i as int]);
            assert(views[i as int] == styles@[i as int]@);
            assert(out@ =~= head + style_links(post));
        }
        i = i + 1;
    }
    proof {
        assert(views.subrange(0, n as int) =~= views);
    }

    out.append("<meta name=\"viewport\" content=\"width=");
    push_dec(&mut out, width);
    out.append(", height=");
    push_dec(&mut out, height);
    out.append("\"/>\n</head>\n");
    if cover {
        out.append("<body epub:type=\"cover\">\n");
    } else {
        out.append("<body>\n");
    }
    out.append(
        "<div class=\"main\">\n<svg xmlns=\"http://www.w3.org/2000/svg\" xmlns:xlink=\"http://www.w3.org/1999/xlink\" version=\"1.1\" width=\"100%\" height=\"100%\" viewBox=\"0 0 ",
    );
    push_dec(&mut out, width);
    out.append(" ");
    push_dec(&mut out, height);
    out.append("\">\n<image width=\"");
    push_dec(&mut out, width);
    out.append("\" height=\"");
    push_dec(&mut out, height);
    out.append("\" xlink:href=\"../");
    push_escaped(&mut out, image_href);
    out.append("\"/>\n</svg>\n</div>\n</body>\n</html>\n");
    proof {
        assert(out@ =~= page_doc(
            lang@,
            title@,
            styles@.map_values(|s: String| s@),
            width as nat,
            height as nat,
            cover,
            image_href@,
        ));
    }
    out
}

} // verus!
