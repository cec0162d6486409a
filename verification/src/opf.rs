//! The OPF package document: metadata with refinement chains in display
//! order, the manifest block led by the fixed navigation item, and the spine
//! with the page-progression direction.

use vstd::prelude::*;
use crate::item::{ItemRef, Manifest, ManifestItem};
use crate::model::{Book, Collection, Creator, Title};
use crate::textfmt::{dec_spec, esc_spec, push_dec, push_escaped};

verus! {

/// One refinement meta element pointing back at `refid`.
pub open spec fn refine_meta(refid: Seq<char>, prop: Seq<char>, value: Seq<char>) -> Seq<char> {
    "<meta refines=\"#"@ + refid + "\" property=\""@ + prop + "\">"@ + esc_spec(value)
        + "</meta>\n"@
}

fn push_refine(out: &mut String, refid: &str, prop: &str, value: &str)
    ensures
        final(out)@ == old(out)@ + refine_meta(refid@, prop@, value@),
{
    out.append("<meta refines=\"#");
    out.append(refid);
    out.append("\" property=\"");
    out.append(prop);
    out.append("\">");
    push_escaped(out, value);
    out.append("</meta>\n");
    proof {
        assert(out@ =~= old(out)@ + refine_meta(refid@, prop@, value@));
    }
}

/// One dc:title with its refinement chain; `seq` is its one-based position.
pub open spec fn title_block(t: Title, seq: nat) -> Seq<char> {
    let refid = "title"@ + dec_spec(seq);
    "<dc:title id=\""@ + refid + "\">"@ + esc_spec(t.name@) + "</dc:title>\n"@ + refine_meta(
        refid,
        "title-type"@,
        t.title_type.canonical(),
    ) + (match t.alternate_script {
        Some(v) => refine_meta(refid, "alternate-script"@, v@),
        None => Seq::<char>::empty(),
    }) + (match t.file_as {
        Some(v) => refine_meta(refid, "file-as"@, v@),
        None => Seq::<char>::empty(),
    }) + refine_meta(refid, "display-seq"@, dec_spec(seq))
}

pub open spec fn titles_block(ts: Seq<Title>) -> Seq<char>
    decreases ts.len(),
{
    if ts.len() == 0 {
        Seq::<char>::empty()
    } else {
        titles_block(ts.drop_last()) + title_block(ts.last(), ts.len())
    }
}

/// One dc:creator with its refinement chain; `seq` is its one-based position
/// in the combined author-then-contributor order.
pub open spec fn creator_block(c: Creator, seq: nat) -> Seq<char> {
    let refid = "creator"@ + dec_spec(seq);
    "<dc:creator id=\""@ + refid + "\">"@ + esc_spec(c.name@) + "</dc:creator>\n"@ + (match c
        .role {
        Some(v) => "<meta refines=\"#"@ + refid
            + "\" property=\"role\" scheme=\"marc:relators\">"@ + esc_spec(v@) + "</meta>\n"@,
        None => Seq::<char>::empty(),
    }) + (match c.alternate_script {
        Some(v) => refine_meta(refid, "alternate-script"@, v@),
        None => Seq::<char>::empty(),
    }) + (match c.file_as {
        Some(v) => refine_meta(refid, "file-as"@, v@),
        None => Seq::<char>::empty(),
    }) + refine_meta(refid, "display-seq"@, dec_spec(seq))
}

/// Creators numbered from `offset` on: authors pass 0, contributors pass the
/// author count, so the combined counter is shared.
pub open spec fn creators_block(cs: Seq<Creator>, offset: nat) -> Seq<char>
    decreases cs.len(),
{
    if cs.len() == 0 {
        Seq::<char>::empty()
    } else {
        creators_block(cs.drop_last(), offset) + creator_block(cs.last(), offset + cs.len())
    }
}

/// One belongs-to-collection meta with its refinement chain.
pub open spec fn collection_block(c: Collection, seq: nat) -> Seq<char> {
    let refid = "collection"@ + dec_spec(seq);
    "<meta property=\"belongs-to-collection\" id=\""@ + refid + "\">"@ + esc_spec(c.name@)
        + "</meta>\n"@ + refine_meta(refid, "collection-type"@, c.collection_type.canonical()) + (
    match c.position {
        Some(p) => refine_meta(refid, "group-position"@, dec_spec(p as nat)),
        None => Seq::<char>::empty(),
    })
}

pub open spec fn collections_block(cs: Seq<Collection>) -> Seq<char>
    decreases cs.len(),
{
    if cs.len() == 0 {
        Seq::<char>::empty()
    } else {
        collections_block(cs.drop_last()) + collection_block(cs.last(), cs.len())
    }
}

/// The optional properties attribute of a manifest item or spine reference.
pub open spec fn props_attr(p: Option<String>) -> Seq<char> {
    match p {
        Some(s) => " properties=\""@ + esc_spec(s@) + "\""@,
        None => Seq::<char>::empty(),
    }
}

/// One manifest item element.
pub open spec fn item_element(id: Seq<char>, item: ManifestItem) -> Seq<char> {
    "<item media-type=\""@ + esc_spec(item.media_type@) + "\" id=\""@ + esc_spec(id)
        + "\" href=\""@ + esc_spec(item.href.text()) + "\""@ + props_attr(item.properties)
        + "/>\n"@
}

/// The manifest block: the fixed navigation item first, then every item in
/// insertion order.
pub open spec fn manifest_block(items: Seq<(String, ManifestItem)>) -> Seq<char>
    decreases items.len(),
{
    if items.len() == 0 {
        Seq::<char>::empty()
    } else {
        manifest_block(items.drop_last()) + item_element(items.last().0@, items.last().1)
    }
}

/// One spine itemref element.
pub open spec fn itemref_element(r: ItemRef) -> Seq<char> {
    "<itemref linear=\""@ + (if r.linear {
        "yes"@
    } else {
        "no"@
    }) + "\" idref=\""@ + esc_spec(r.idref@) + "\""@ + props_attr(r.properties) + "/>\n"@
}

pub open spec fn spine_block(refs: Seq<ItemRef>) -> Seq<char>
    decreases refs.len(),
{
    if refs.len() == 0 {
        Seq::<char>::empty()
    } else {
        spine_block(refs.drop_last()) + itemref_element(refs.last())
    }
}

/// The whole package document.
pub open spec fn opf_doc(
    book: Book,
    items: Seq<(String, ManifestItem)>,
    spine: Seq<ItemRef>,
    modified: Seq<char>,
) -> Seq<char> {
    "<?xml version=\"1.0\" encoding=\"utf-8\"?>\n<package xmlns=\"http://www.idpf.org/2007/opf\" version=\"3.0\" xml:lang=\""@
        + esc_spec(book.metadata.language@)
        + "\" unique-identifier=\"unique-id\" prefix=\"ebpaj: http://www.ebpaj.jp/\">\n<metadata xmlns:dc=\"http://purl.org/dc/elements/1.1/\">\n"@
        + titles_block(book.metadata.title@) + creators_block(book.metadata.creator@, 0)
        + creators_block(book.metadata.contributor@, book.metadata.creator@.len())
        + collections_block(book.metadata.collection@) + "<dc:language>"@ + esc_spec(
        book.metadata.language@,
    ) + "</dc:language>\n<dc:identifier id=\"unique-id\">"@ + esc_spec(book.metadata.identifier@)
        + "</dc:identifier>\n<meta property=\"dcterms:modified\">"@ + esc_spec(modified)
        + "</meta>\n<meta property=\"rendition:layout\">"@ + book.rendition.layout.canonical()
        + "</meta>\n<meta property=\"rendition:orientation\">"@
        + book.rendition.orientation.canonical() + "</meta>\n<meta property=\"rendition:spread\">"@
        + book.rendition.spread.canonical() + "</meta>\n<meta property=\"ebpaj:guide-version\">1.1.3</meta>\n</metadata>\n<manifest>\n<item media-type=\"application/xhtml+xml\" id=\"toc\" href=\"navigation-documents.xhtml\" properties=\"nav\"/>\n"@
        + manifest_block(items) + "</manifest>\n<spine page-progression-direction=\""@
        + book.rendition.direction.canonical() + "\">\n"@ + spine_block(spine)
        + "</spine>\n</package>\n"@
}

fn push_props(out: &mut String, p: &Option<String>)
    ensures
        final(out)@ == old(out)@ + props_attr(*p),
{
    match p {
        Some(s) => {
            out.append(" properties=\"");
            push_escaped(out, s.as_str());
            out.append("\"");
            proof {
                assert(out@ =~= old(out)@ + props_attr(*p));
            }
        },
        None => {},
    }
}

fn push_title(out: &mut String, t: &Title, seq: u32)
    requires
        seq >= 1,
    ensures
        final(out)@ == old(out)@ + title_block(*t, seq as nat),
{
    let mut refid = "title".to_owned();
    push_dec(&mut refid, seq);
    out.append("<dc:title id=\"");
    out.append(refid.as_str());
    out.append("\">");
    push_escaped(out, t.name.as_str());
    out.append("</dc:title>\n");
    push_refine(out, refid.as_str(), "title-type", t.title_type.as_str());
    match &t.alternate_script {
        Some(v) => push_refine(out, refid.as_str(), "alternate-script", v.as_str()),
        None => {},
    }
    match &t.file_as {
        Some(v) => push_refine(out, refid.as_str(), "file-as", v.as_str()),
        None => {},
    }
    let mut seq_text = String::new();
    push_dec(&mut seq_text, seq);
    push_refine(out, refid.as_str(), "display-seq", seq_text.as_str());
    proof {
        assert(out@ =~= old(out)@ + title_block(*t, seq as nat));
    }
}

fn push_titles(out: &mut String, ts: &Vec<Title>)
    requires
        ts@.len() <= u32::MAX,
    ensures
        final(out)@ == old(out)@ + titles_block(ts@),
{
    let n = ts.len();
    let mut i: usize = 0;
    proof {
        assert(ts@.subrange(0, 0) =~= Seq::<Title>::empty());
        assert(out@ =~= old(out)@ + titles_block(ts@.subrange(0, 0)));
    }
    while i < n
        invariant
            i <= n,
            n == ts@.len(),
            n <= u32::MAX,
            out@ == old(out)@ + titles_block(ts@.subrange(0, i as int)),
        decreases n - i,
    {
        push_title(out, &ts[i], (i + 1) as u32);
        proof {
            let post = ts@.subrange(0, i + 1);
            assert(post.drop_last() =~= ts@.subrange(0, i as int));
            assert(post.last() == ts@[i as int]);
            assert(out@ =~= old(out)@ + titles_block(post));
        }
        i = i + 1;
    }
    proof {
        assert(ts@.subrange(0, n as int) =~= ts@);
    }
}

#[verifier::rlimit(100)]
fn push_creator(out: &mut String, c: &Creator, seq: u32)
    requires
        seq >= 1,
    ensures
        final(out)@ == old(out)@ + creator_block(*c, seq as nat),
{
    let mut refid = "creator".to_owned();
    push_dec(&mut refid, seq);
    out.append("<dc:creator id=\"");
    out.append(refid.as_str());
    out.append("\">");
    push_escaped(out, c.name.as_str());
    out.append("</dc:creator>\n");
    match &c.role {
        Some(v) => {
            out.append("<meta refines=\"#");
            out.append(refid.as_str());
            out.append("\" property=\"role\" scheme=\"marc:relators\">");
            push_escaped(out, v.as_str());
            out.append("</meta>\n");
        },
        None => {},
    }
    match &c.alternate_script {
        Some(v) => push_refine(out, refid.as_str(), "alternate-script", v.as_str()),
        None => {},
    }
    match &c.file_as {
        Some(v) => push_refine(out, refid.as_str(), "file-as", v.as_str()),
        None => {},
    }
    let mut seq_text = String::new();
    push_dec(&mut seq_text, seq);
    push_refine(out, refid.as_str(), "display-seq", seq_text.as_str());
    proof {
        assert(out@ =~= old(out)@ + creator_block(*c, seq as nat));
    }
}

fn push_creators(out: &mut String, cs: &Vec<Creator>, offset: usize)
    requires
        offset + cs@.len() <= u32::MAX,
    ensures
        final(out)@ == old(out)@ + creators_block(cs@, offset as nat),
{
    let n = cs.len();
    let mut i: usize = 0;
    proof {
        assert(cs@.subrange(0, 0) =~= Seq::<Creator>::empty());
        assert(out@ =~= old(out)@ + creators_block(cs@.subrange(0, 0), offset as nat));
    }
    while i < n
        invariant
            i <= n,
            n == cs@.len(),
            offset + n <= u32::MAX,
            out@ == old(out)@ + creators_block(cs@.subrange(0, i as int), offset as nat),
        decreases n - i,
    {
        push_creator(out, &cs[i], (offset + i + 1) as u32);
        proof {
            let post = cs@.subrange(0, i + 1);
            assert(post.drop_last() =~= cs@.subrange(0, i as int));
            assert(post.last() == cs@[i as int]);
            assert(out@ =~= old(out)@ + creators_block(post, offset as nat));
        }
        i = i + 1;
    }
    proof {
        assert(cs@.subrange(0, n as int) =~= cs@);
    }
}

fn push_collection(out: &mut String, c: &Collection, seq: u32)
    requires
        seq >= 1,
    ensures
        final(out)@ == old(out)@ + collection_block(*c, seq as nat),
{
    let mut refid = "collection".to_owned();
    push_dec(&mut refid, seq);
    out.append("<meta property=\"belongs-to-collection\" id=\"");
    out.append(refid.as_str());
    out.append("\">");
    push_escaped(out, c.name.as_str());
    out.append("</meta>\n");
    push_refine(out, refid.as_str(), "collection-type", c.collection_type.as_str());
    match c.position {
        Some(p) => {
            let mut pos_text = String::new();
            push_dec(&mut pos_text, p);
            push_refine(out, refid.as_str(), "group-position", pos_text.as_str());
        },
        None => {},
    }
    proof {
        assert(out@ =~= old(out)@ + collection_block(*c, seq as nat));
    }
}

fn push_collections(out: &mut String, cs: &Vec<Collection>)
    requires
        cs@.len() <= u32::MAX,
    ensures
        final(out)@ == old(out)@ + collections_block(cs@),
{
    let n = cs.len();
    let mut i: usize = 0;
    proof {
        assert(cs@.subrange(0, 0) =~= Seq::<Collection>::empty());
        assert(out@ =~= old(out)@ + collections_block(cs@.subrange(0, 0)));
    }
    while i < n
        invariant
            i <= n,
            n == cs@.len(),
            n <= u32::MAX,
            out@ == old(out)@ + collections_block(cs@.subrange(0, i as int)),
        decreases n - i,
    {
        push_collection(out, &cs[i], (i + 1) as u32);
        proof {
            let post = cs@.subrange(0, i + 1);
            assert(post.drop_last() =~= cs@.subrange(0, i as int));
            assert(post.last() == cs@[i as int]);
            assert(out@ =~= old(out)@ + collections_block(post));
        }
        i = i + 1;
    }
    proof {
        assert(cs@.subrange(0, n as int) =~= cs@);
    }
}

/// Builds the package document from the book, the accumulated manifest and
/// spine, and the modification timestamp.
pub fn package_document(
    book: &Book,
    manifest: &Manifest,
    spine: &Vec<ItemRef>,
    modified: &str,
) -> (r: String)
    requires
        book.metadata.creator@.len() + book.metadata.contributor@.len() <= u32::MAX,
        book.metadata.title@.len() <= u32::MAX,
        book.metadata.collection@.len() <= u32::MAX,
    ensures
        r@ == opf_doc(*book, manifest.items@, spine@, modified@),
{
    let mut out = String::new();
    out.append(
        "<?xml version=\"1.0\" encoding=\"utf-8\"?>\n<package xmlns=\"http://www.idpf.org/2007/opf\" version=\"3.0\" xml:lang=\"",
    );
    push_escaped(&mut out, book.metadata.language.as_str());
    out.append(
        "\" unique-identifier=\"unique-id\" prefix=\"ebpaj: http://www.ebpaj.jp/\">\n<metadata xmlns:dc=\"http://purl.org/dc/elements/1.1/\">\n",
    );
    push_titles(&mut out, &book.metadata.title);
    push_creators(&mut out, &book.metadata.creator, 0);
    push_creators(&mut out, &book.metadata.contributor, book.metadata.creator.len());
    push_collections(&mut out, &book.metadata.collection);
    out.append("<dc:language>");
    push_escaped(&mut out, book.metadata.language.as_str());
    out.append("</dc:language>\n<dc:identifier id=\"unique-id\">");
    push_escaped(&mut out, book.metadata.identifier.as_str());
    out.append("</dc:identifier>\n<meta property=\"dcterms:modified\">");
    push_escaped(&mut out, modified);
    out.append("</meta>\n<meta property=\"rendition:layout\">");
    out.append(book.rendition.layout.as_str());
    out.append("</meta>\n<meta property=\"rendition:orientation\">");
    out.append(book.rendition.orientation.as_str());
    out.append("</meta>\n<meta property=\"rendition:spread\">");
    out.append(book.rendition.spread.as_str());
    out.append(
        "</meta>\n<meta property=\"ebpaj:guide-version\">1.1.3</meta>\n</metadata>\n<manifest>\n<item media-type=\"application/xhtml+xml\" id=\"toc\" href=\"navigation-documents.xhtml\" properties=\"nav\"/>\n",
    );

    let ghost head = out@;
    let n = manifest.items.len();
    let mut i: usize = 0;
    proof {
        assert(manifest.items@.subrange(0, 0) =~= Seq::<(String, ManifestItem)>::empty());
        assert(out@ =~= head + manifest_block(manifest.items@.subrange(0, 0)));
    }
    while i < n
        invariant
            i <= n,
            n == manifest.items@.len(),
            out@ == head + manifest_block(manifest.items@.subrange(0, i as int)),
        decreases n - i,
    {
        let ghost pre_text = out@;
        let item = &manifest.items[i].1;
        out.append("<item media-type=\"");
        push_escaped(&mut out, item.media_type.as_str());
        out.append("\" id=\"");
        push_escaped(&mut out, manifest.items[i].0.as_str());
        out.append("\" href=\"");
        let href = item.href.to_text();
        push_escaped(&mut out, href.as_str());
        out.append("\"");
        push_props(&mut out, &item.properties);
        out.append("/>\n");
        proof {
            let post = manifest.items@.subrange(0, i + 1);
            assert(post.drop_last() =~= manifest.items@.subrange(0, i as int));
            assert(post.last() == manifest.items@[i as int]);
            assert(out@ =~= pre_text + item_element(
                manifest.items@[i as int].0@,
                manifest.items@[i as int].1,
            ));
            assert(out@ =~= head + manifest_block(post));
        }
        i = i + 1;
    }
    proof {
        assert(manifest.items@.subrange(0, n as int) =~= manifest.items@);
    }

    out.append("</manifest>\n<spine page-progression-direction=\"");
    out.append(book.rendition.direction.as_str());
    out.append("\">\n");

    let ghost spine_head = out@;
    let m = spine.len();
    let mut j: usize = 0;
    proof {
        assert(spine@.subrange(0, 0) =~= Seq::<ItemRef>::empty());
        assert(out@ =~= spine_head + spine_block(spine@.subrange(0, 0)));
    }
    while j < m
        invariant
            j <= m,
            m == spine@.len(),
            out@ == spine_head + spine_block(spine@.subrange(0, j as int)),
        decreases m - j,
    {
        let ghost pre_text = out@;
        let r = &spine[j];
        out.append("<itemref linear=\"");
        if r.linear {
            out.append("yes");
        } else {
            out.append("no");
        }
        out.append("\" idref=\"");
        push_escaped(&mut out, r.idref.as_str());
        out.append("\"");
        push_props(&mut out, &r.properties);
        out.append("/>\n");
        proof {
            let post = spine@.subrange(0, j + 1);
            assert(post.drop_last() =~= spine@.subrange(0, j as int));
            assert(post.last() == spine@[j as int]);
            assert(out@ =~= pre_text + itemref_element(spine@[j as int]));
            assert(out@ =~= spine_head + spine_block(post));
        }
        j = j + 1;
    }
    proof {
        assert(spine@.subrange(0, m as int) =~= spine@);
    }

    out.append("</spine>\n</package>\n");
    proof {
        assert(out@ =~= opf_doc(*book, manifest.items@, spine@, modified@));
    }
    out
}

} // verus!
