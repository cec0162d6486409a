//! The package assembly engine: folds the book's styles, chapters and pages
//! into the manifest, spine and table of contents, and assembles the ordered
//! archive entries. Ids are assigned once, by build-wide counters, and an
//! insert that would repeat an id or an href fails fast.

use vstd::prelude::*;
use vstd::string::StrSliceExecFns;
use vstd::utf8::encode_utf8;
use crate::archive::{container_doc, container_document, write_archive, ArchiveEntry};
use crate::content::{page_doc, wrap};
use crate::error::BuildError;
use crate::item::{distinct, Href, ItemRef, Manifest, ManifestItem, TocEntry};
use crate::item::lookup_seq;
use crate::media::{dot_ext, dot_ext_spec, guess_media_type, mime_of};
use crate::nav::{nav_doc, navigation};
use crate::opf::{opf_doc, package_document};
use crate::model::{Book, Chapter, Orientation, Rendition, Style, Title, TitleType};
use crate::spread::Spread;
use crate::textfmt::{pad4_spec, push_pad4};

verus! {

/// One resolved page image, as the asset resolver hands it to the engine:
/// pixel width and height, and the image bytes to package.
#[derive(Debug, Clone, PartialEq, Eq)]
pub struct ImageAsset {
    pub width: u32,
    pub height: u32,
    pub data: Vec<u8>,
}

/// One page in visitation order, with everything of its chapter the engine
/// needs: the cover flag, its zero-based index, whether it opens its chapter,
/// and the chapter's title.
#[derive(Debug, Clone, PartialEq, Eq)]
pub struct FlatPage {
    pub cover: bool,
    pub idx: usize,
    pub src: String,
    pub first: bool,
    pub title: Option<String>,
}

/// The abstract value of one flattened page.
pub ghost struct PageCtx {
    pub cover: bool,
    pub idx: nat,
    pub src: Seq<char>,
    pub first: bool,
    pub title: Option<Seq<char>>,
}

pub open spec fn flat_matches(fp: FlatPage, pc: PageCtx) -> bool {
    &&& fp.cover == pc.cover
    &&& fp.idx as nat == pc.idx
    &&& fp.src@ == pc.src
    &&& fp.first == pc.first
    &&& match (fp.title, pc.title) {
        (Some(a), Some(b)) => a@ == b,
        (None, None) => true,
        _ => false,
    }
}

pub open spec fn chapter_ctx(c: Chapter) -> Seq<PageCtx> {
    Seq::new(
        c.page@.len(),
        |i: int|
            PageCtx {
                cover: c.cover,
                idx: i as nat,
                src: c.page@[i].src@,
                first: i == 0,
                title: match c.name {
                    Some(n) => Some(n@),
                    None => None,
                },
            },
    )
}

/// Every page of every chapter, in visitation order.
pub open spec fn pages_ctx(chs: Seq<Chapter>) -> Seq<PageCtx>
    decreases chs.len(),
{
    if chs.len() == 0 {
        Seq::<PageCtx>::empty()
    } else {
        pages_ctx(chs.drop_last()) + chapter_ctx(chs.last())
    }
}

/// The total page count of the book.
pub open spec fn count_pages(chs: Seq<Chapter>) -> nat
    decreases chs.len(),
{
    if chs.len() == 0 {
        0
    } else {
        count_pages(chs.drop_last()) + chs.last().page@.len()
    }
}

proof fn lemma_pages_ctx_len(chs: Seq<Chapter>)
    ensures
        pages_ctx(chs).len() == count_pages(chs),
    decreases chs.len(),
{
    if chs.len() > 0 {
        lemma_pages_ctx_len(chs.drop_last());
    }
}

/// How many of the pages are not cover pages.
pub open spec fn count_noncover(pages: Seq<PageCtx>) -> nat
    decreases pages.len(),
{
    if pages.len() == 0 {
        0
    } else {
        count_noncover(pages.drop_last()) + if pages.last().cover {
            0nat
        } else {
            1nat
        }
    }
}

/// The build-wide one-based number of a non-cover page.
pub open spec fn page_num(pages: Seq<PageCtx>, k: int) -> nat {
    count_noncover(pages.take(k)) + 1
}

pub open spec fn image_id(pages: Seq<PageCtx>, k: int) -> Seq<char> {
    if pages[k].cover {
        "cover"@
    } else {
        "i-"@ + pad4_spec(page_num(pages, k))
    }
}

pub open spec fn page_id(pages: Seq<PageCtx>, k: int) -> Seq<char> {
    if pages[k].cover {
        "p-cover"@
    } else {
        "p-"@ + pad4_spec(page_num(pages, k))
    }
}

/// The image item's file name: its id plus the source's dotted extension.
pub open spec fn image_name(pages: Seq<PageCtx>, k: int) -> Seq<char> {
    image_id(pages, k) + dot_ext_spec(pages[k].src)
}

pub open spec fn page_name(pages: Seq<PageCtx>, k: int) -> Seq<char> {
    page_id(pages, k) + ".xhtml"@
}

/// Flattens the chapters into the page visitation order.
pub fn flatten(book: &Book) -> (r: Vec<FlatPage>)
    ensures
        r@.len() == count_pages(book.chapter@),
        forall|k: int|
            0 <= k < r@.len() ==> flat_matches(#[trigger] r@[k], pages_ctx(book.chapter@)[k]),
{
    let mut flat: Vec<FlatPage> = Vec::new();
    let ncs = book.chapter.len();
    let mut ci: usize = 0;
    proof {
        assert(book.chapter@.subrange(0, 0) =~= Seq::<Chapter>::empty());
        lemma_pages_ctx_len(book.chapter@.subrange(0, 0));
    }
    while ci < ncs
        invariant
            ci <= ncs,
            ncs == book.chapter@.len(),
            flat@.len() == count_pages(book.chapter@.subrange(0, ci as int)),
            forall|k: int|
                0 <= k < flat@.len() ==> flat_matches(
                    #[trigger] flat@[k],
                    pages_ctx(book.chapter@.subrange(0, ci as int))[k],
                ),
        decreases ncs - ci,
    {
        let c = &book.chapter[ci];
        let ghost pre_chs = book.chapter@.subrange(0, ci as int);
        let ghost pre_pages = pages_ctx(pre_chs);
        proof {
            lemma_pages_ctx_len(pre_chs);
        }
        let np = c.page.len();
        let mut pi: usize = 0;
        while pi < np
            invariant
                pi <= np,
                ci < ncs,
                ncs == book.chapter@.len(),
                *c == book.chapter@[ci as int],
                np == book.chapter@[ci as int].page@.len(),
                pre_chs == book.chapter@.subrange(0, ci as int),
                pre_pages == pages_ctx(pre_chs),
                pre_pages.len() == count_pages(pre_chs),
                flat@.len() == pre_pages.len() + pi,
                forall|k: int|
                    0 <= k < pre_pages.len() ==> flat_matches(#[trigger] flat@[k], pre_pages[k]),
                forall|k: int|
                    pre_pages.len() <= k < flat@.len() ==> flat_matches(
                        #[trigger] flat@[k],
                        chapter_ctx(book.chapter@[ci as int])[k - pre_pages.len()],
                    ),
            decreases np - pi,
        {
            let page_src = c.page[pi].src.clone();
            let title: Option<String> = match &c.name {
                Some(n) => Some(n.clone()),
                None => None,
            };
            flat.push(
                FlatPage { cover: c.cover, idx: pi, src: page_src, first: pi == 0, title },
            );
            pi = pi + 1;
        }
        proof {
            let post_chs = book.chapter@.subrange(0, ci + 1);
            assert(post_chs.drop_last() =~= pre_chs);
            assert(post_chs.last() == book.chapter@[ci as int]);
            assert(pages_ctx(post_chs) =~= pre_pages + chapter_ctx(book.chapter@[ci as int]));
            assert(flat@.len() == count_pages(post_chs));
            assert forall|k: int| 0 <= k < flat@.len() implies flat_matches(
                #[trigger] flat@[k],
                pages_ctx(post_chs)[k],
            ) by {
                if k < pre_pages.len() {
                    assert(pages_ctx(post_chs)[k] == pre_pages[k]);
                } else {
                    assert(pages_ctx(post_chs)[k] == chapter_ctx(book.chapter@[ci as int])[k
                        - pre_pages.len()]);
                }
            }
        }
        ci = ci + 1;
    }
    proof {
        assert(book.chapter@.subrange(0, ncs as int) =~= book.chapter@);
    }
    flat
}

/// The built-in stylesheet used when the rendition declares no styles.
pub open spec fn default_css() -> Seq<char> {
    "html, body {\n  margin: 0;\n  padding: 0;\n}\ndiv.main {\n  text-align: center;\n}\n"@
}

fn default_style_text() -> (r: &'static str)
    ensures
        r@ == default_css(),
{
    "html, body {\n  margin: 0;\n  padding: 0;\n}\ndiv.main {\n  text-align: center;\n}\n"
}

/// The abstract value of one planned manifest item.
pub ghost struct ItemSpec {
    pub id: Seq<char>,
    pub media: Seq<char>,
    pub dir: Seq<char>,
    pub name: Seq<char>,
    pub props: Option<Seq<char>>,
    pub data: Seq<u8>,
}

/// The style items the build stages: the built-in default when the rendition
/// declares none, else one per declared style, ids numbered in source order.
pub open spec fn style_items(r: Rendition) -> Seq<ItemSpec> {
    if r.style@.len() == 0 {
        seq![
            ItemSpec {
                id: "s-default"@,
                media: "text/css"@,
                dir: "style"@,
                name: "default.css"@,
                props: None,
                data: encode_utf8(default_css()),
            },
        ]
    } else {
        Seq::new(
            r.style@.len(),
            |i: int|
                ItemSpec {
                    id: "s-"@ + pad4_spec((i + 1) as nat),
                    media: "text/css"@,
                    dir: "style"@,
                    name: r.style@[i].href@,
                    props: None,
                    data: encode_utf8(r.style@[i].src@),
                },
        )
    }
}

/// The hrefs of the styles that content documents link, in style order; the
/// built-in default is always linked, a declared style only when its link
/// flag is set.
pub open spec fn linked_of(styles: Seq<Style>) -> Seq<Seq<char>>
    decreases styles.len(),
{
    if styles.len() == 0 {
        Seq::<Seq<char>>::empty()
    } else {
        linked_of(styles.drop_last()) + if styles.last().link {
            seq!["style/"@ + styles.last().href@]
        } else {
            Seq::<Seq<char>>::empty()
        }
    }
}

pub open spec fn linked_hrefs(r: Rendition) -> Seq<Seq<char>> {
    if r.style@.len() == 0 {
        seq!["style/default.css"@]
    } else {
        linked_of(r.style@)
    }
}

/// One stored pair agreeing with one planned item.
pub open spec fn item_matches(p: (String, ManifestItem), e: ItemSpec) -> bool {
    &&& p.0@ == e.id
    &&& p.1.media_type@ == e.media
    &&& p.1.href.0@ == e.dir
    &&& p.1.href.1@ == e.name
    &&& match (p.1.properties, e.props) {
        (Some(a), Some(b)) => a@ == b,
        (None, None) => true,
        _ => false,
    }
    &&& p.1.data@ == e.data
}

/// The manifest holds exactly the planned items, in plan order.
pub open spec fn manifest_matches(m: Manifest, entries: Seq<ItemSpec>) -> bool {
    &&& m.items@.len() == entries.len()
    &&& forall|k: int| 0 <= k < entries.len() ==> item_matches(#[trigger] m.items@[k], entries[k])
}

/// The ids of a plan, in plan order.
pub open spec fn plan_ids(entries: Seq<ItemSpec>) -> Seq<Seq<char>> {
    Seq::new(entries.len(), |i: int| entries[i].id)
}

/// The hrefs of a plan, in plan order.
pub open spec fn plan_hrefs(entries: Seq<ItemSpec>) -> Seq<Seq<char>> {
    Seq::new(entries.len(), |i: int| entries[i].dir + "/"@ + entries[i].name)
}

/// The book's display title: the first main title, else the first title of
/// any type, else empty.
pub open spec fn find_main(ts: Seq<Title>) -> Option<Seq<char>>
    decreases ts.len(),
{
    if ts.len() == 0 {
        None
    } else if ts[0].title_type == TitleType::Main {
        Some(ts[0].name@)
    } else {
        find_main(ts.skip(1))
    }
}

pub open spec fn book_title(book: Book) -> Seq<char> {
    match find_main(book.metadata.title@) {
        Some(n) => n,
        None => if book.metadata.title@.len() > 0 {
            book.metadata.title@[0].name@
        } else {
            Seq::<char>::empty()
        },
    }
}

proof fn lemma_find_main_step(ts: Seq<Title>, i: int)
    requires
        0 <= i < ts.len(),
    ensures
        ts[i].title_type == TitleType::Main ==> find_main(ts.skip(i)) == Some(ts[i].name@),
        ts[i].title_type != TitleType::Main ==> find_main(ts.skip(i)) == find_main(ts.skip(i + 1)),
{
    assert(ts.skip(i)[0] == ts[i]);
    assert(ts.skip(i).skip(1) =~= ts.skip(i + 1));
}

/// Picks the book's display title.
pub fn select_title(book: &Book) -> (r: String)
    ensures
        r@ == book_title(*book),
{
    let ts = &book.metadata.title;
    let n = ts.len();
    let mut i: usize = 0;
    proof {
        assert(ts@.skip(0) =~= ts@);
    }
    while i < n
        invariant
            i <= n,
            n == ts@.len(),
            *ts == book.metadata.title,
            find_main(ts@) == find_main(ts@.skip(i as int)),
            forall|k: int| 0 <= k < i ==> ts@[k].title_type != TitleType::Main,
        decreases n - i,
    {
        proof {
            lemma_find_main_step(ts@, i as int);
        }
        match ts[i].title_type {
            TitleType::Main => {
                return ts[i].name.clone();
            },
            _ => {},
        }
        i = i + 1;
    }
    proof {
        assert(ts@.skip(n as int) =~= Seq::<Title>::empty());
    }
    if n > 0 {
        ts[0].name.clone()
    } else {
        String::new()
    }
}

/// The build context: everything the fold accumulates before the documents
/// are written. Insert-only; nothing is ever replaced or removed.
#[derive(Debug)]
pub struct Context {
    pub title: String,
    pub manifest: Manifest,
    pub spine: Vec<ItemRef>,
    pub styles: Vec<String>,
    pub page_index: usize,
    pub toc: Vec<TocEntry>,
}

/// Copies a byte vector.
fn copy_bytes(src: &Vec<u8>) -> (r: Vec<u8>)
    ensures
        r@ == src@,
{
    let mut out: Vec<u8> = Vec::new();
    let n = src.len();
    let mut i: usize = 0;
    while i < n
        invariant
            i <= n,
            n == src@.len(),
            out@ == src@.subrange(0, i as int),
        decreases n - i,
    {
        out.push(src[i]);
        proof {
            assert(out@ =~= src@.subrange(0, i + 1));
        }
        i = i + 1;
    }
    proof {
        assert(src@.subrange(0, n as int) =~= src@);
    }
    out
}

/// Folds the rendition's styles into the manifest and the linked-style list.
fn build_styles(book: &Book, cx: &mut Context) -> (r: Result<(), BuildError>)
    requires
        book.rendition.style@.len() < u32::MAX,
        old(cx).manifest.items@.len() == 0,
        old(cx).styles@.len() == 0,
    ensures
        match r {
            Ok(_) => {
                &&& manifest_matches(final(cx).manifest, style_items(book.rendition))
                &&& final(cx).manifest.wf()
                &&& final(cx).styles@.map_values(|s: String| s@) =~= linked_hrefs(book.rendition)
            },
            Err(e) => {
                &&& (e matches BuildError::DuplicateHref(_) ==> !distinct(
                    plan_hrefs(style_items(book.rendition)),
                ))
                &&& (e matches BuildError::DuplicateId(_) ==> !distinct(
                    plan_ids(style_items(book.rendition)),
                ))
                &&& (e is DuplicateId || e is DuplicateHref)
            },
        },
        (r is Err) == (!distinct(plan_ids(style_items(book.rendition))) || !distinct(
            plan_hrefs(style_items(book.rendition)),
        )),
        final(cx).title == old(cx).title,
        final(cx).spine == old(cx).spine,
        final(cx).toc == old(cx).toc,
        final(cx).page_index == old(cx).page_index,
{
    let ghost plan = style_items(book.rendition);
    if book.rendition.style.len() == 0 {
        let data = default_style_text().as_bytes_vec();
        let item = ManifestItem {
            media_type: "text/css".to_owned(),
            href: Href("style".to_owned(), "default.css".to_owned()),
            properties: None,
            data,
        };
        let res = cx.manifest.insert("s-default".to_owned(), item);
        proof {
            assert(res is Ok);
        }
        match res {
            Ok(_) => {},
            Err(e) => {
                return Err(e);
            },
        }
        cx.styles.push("style/default.css".to_owned());
        proof {
            assert(cx.manifest.items@.len() == 1);
            assert(item_matches(cx.manifest.items@[0], plan[0]));
            assert(cx.manifest.wf());
            assert(cx.styles@.map_values(|s: String| s@) =~= linked_hrefs(book.rendition));
            assert(distinct(plan_ids(plan)));
            assert(distinct(plan_hrefs(plan)));
        }
        return Ok(());
    }
    let n = book.rendition.style.len();
    let mut i: usize = 0;
    proof {
        assert(book.rendition.style@.subrange(0, 0) =~= Seq::<Style>::empty());
        assert(cx.styles@.map_values(|s: String| s@) =~= linked_of(
            book.rendition.style@.subrange(0, 0),
        ));
    }
    while i < n
        invariant
            i <= n,
            n == book.rendition.style@.len(),
            n < u32::MAX,
            plan == style_items(book.rendition),
            plan.len() == n,
            cx.manifest.items@.len() == i as int,
            forall|k: int| 0 <= k < i ==> item_matches(#[trigger] cx.manifest.items@[k], plan[k]),
            cx.manifest.wf(),
            cx.styles@.map_values(|s: String| s@) =~= linked_of(
                book.rendition.style@.subrange(0, i as int),
            ),
            cx.title == old(cx).title,
            cx.spine == old(cx).spine,
            cx.toc == old(cx).toc,
            cx.page_index == old(cx).page_index,
        decreases n - i,
    {
        let style = &book.rendition.style[i];
        let mut id = "s-".to_owned();
        push_pad4(&mut id, (i + 1) as u32);
        let data = style.src.as_str().as_bytes_vec();
        let item = ManifestItem {
            media_type: "text/css".to_owned(),
            href: Href("style".to_owned(), style.href.clone()),
            properties: None,
            data,
        };
        let ghost old_manifest = cx.manifest;
        let res = cx.manifest.insert(id, item);
        match res {
            Ok(_) => {},
            Err(e) => {
                proof {
                    lemma_plan_collision(old_manifest, plan, i as int, e);
                }
                return Err(e);
            },
        }
        if style.link {
            let mut href_text = "style/".to_owned();
            href_text.append(style.href.as_str());
            cx.styles.push(href_text);
        }
        proof {
            assert(item_matches(cx.manifest.items@[i as int], plan[i as int]));
            let post = book.rendition.style@.subrange(0, i + 1);
            assert(post.drop_last() =~= book.rendition.style@.subrange(0, i as int));
            assert(post.last() == book.rendition.style@[i as int]);
            assert(cx.styles@.map_values(|s: String| s@) =~= linked_of(post));
            lemma_insert_keeps_wf(old_manifest, cx.manifest);
        }
        i = i + 1;
    }
    proof {
        assert(book.rendition.style@.subrange(0, n as int) =~= book.rendition.style@);
        lemma_manifest_distinct(cx.manifest, plan);
    }
    Ok(())
}

/// An insert that went through keeps the manifest well-formed.
proof fn lemma_insert_keeps_wf(before: Manifest, after: Manifest)
    requires
        before.wf(),
        after.items@.len() == before.items@.len() + 1,
        after.items@.subrange(0, before.items@.len() as int) =~= before.items@,
        !before.has_id(after.items@.last().0@),
        !before.has_href(after.items@.last().1.href.text()),
    ensures
        after.wf(),
{
    assert forall|a: int, b: int| 0 <= a < b < after.items@.len() implies after.ids()[a]
        != after.ids()[b] by {
        if b < before.items@.len() {
            assert(before.ids()[a] == after.ids()[a]);
            assert(before.ids()[b] == after.ids()[b]);
        } else {
            assert(after.items@[a] == before.items@[a]);
        }
    }
    assert forall|a: int, b: int| 0 <= a < b < after.items@.len() implies after.hrefs()[a]
        != after.hrefs()[b] by {
        if b < before.items@.len() {
            assert(before.hrefs()[a] == after.hrefs()[a]);
            assert(before.hrefs()[b] == after.hrefs()[b]);
        } else {
            assert(after.items@[a] == before.items@[a]);
        }
    }
}

/// A well-formed manifest matching a full plan makes the plan's ids and
/// hrefs distinct.
proof fn lemma_manifest_distinct(m: Manifest, entries: Seq<ItemSpec>)
    requires
        m.wf(),
        manifest_matches(m, entries),
    ensures
        distinct(plan_ids(entries)),
        distinct(plan_hrefs(entries)),
{
    assert forall|a: int, b: int| 0 <= a < b < entries.len() implies plan_ids(entries)[a]
        != plan_ids(entries)[b] by {
        assert(m.ids()[a] == plan_ids(entries)[a]);
        assert(m.ids()[b] == plan_ids(entries)[b]);
    }
    assert forall|a: int, b: int| 0 <= a < b < entries.len() implies plan_hrefs(entries)[a]
        != plan_hrefs(entries)[b] by {
        assert(m.hrefs()[a] == plan_hrefs(entries)[a]);
        assert(m.hrefs()[b] == plan_hrefs(entries)[b]);
    }
}

/// The content document generated for page `k`.
pub open spec fn doc_spec(
    book: Book,
    pages: Seq<PageCtx>,
    assets: Seq<ImageAsset>,
    k: int,
) -> Seq<char> {
    page_doc(
        book.metadata.language@,
        book_title(book),
        linked_hrefs(book.rendition),
        assets[k].width as nat,
        assets[k].height as nat,
        pages[k].cover,
        "image/"@ + image_name(pages, k),
    )
}

/// The planned image item for page `k`.
pub open spec fn image_item_spec(pages: Seq<PageCtx>, assets: Seq<ImageAsset>, k: int) -> ItemSpec {
    ItemSpec {
        id: image_id(pages, k),
        media: mime_of(pages[k].src),
        dir: "image"@,
        name: image_name(pages, k),
        props: if pages[k].cover {
            Some("cover-image"@)
        } else {
            None
        },
        data: assets[k].data@,
    }
}

/// The planned content-document item for page `k`.
pub open spec fn xhtml_item_spec(
    book: Book,
    pages: Seq<PageCtx>,
    assets: Seq<ImageAsset>,
    k: int,
) -> ItemSpec {
    ItemSpec {
        id: page_id(pages, k),
        media: "application/xhtml+xml"@,
        dir: "xhtml"@,
        name: page_name(pages, k),
        props: Some("svg"@),
        data: encode_utf8(doc_spec(book, pages, assets, k)),
    }
}

/// The image and document items of the first `k` pages, interleaved in
/// visitation order.
pub open spec fn page_items(
    book: Book,
    pages: Seq<PageCtx>,
    assets: Seq<ImageAsset>,
    k: int,
) -> Seq<ItemSpec>
    decreases k,
{
    if k <= 0 {
        Seq::<ItemSpec>::empty()
    } else {
        page_items(book, pages, assets, k - 1)
            + seq![
            image_item_spec(pages, assets, k - 1),
            xhtml_item_spec(book, pages, assets, k - 1),
        ]
    }
}

/// Every manifest item the build inserts, in insertion order: styles first,
/// then the image and document of each page.
pub open spec fn plan_items(book: Book, assets: Seq<ImageAsset>) -> Seq<ItemSpec> {
    style_items(book.rendition) + page_items(
        book,
        pages_ctx(book.chapter@),
        assets,
        pages_ctx(book.chapter@).len() as int,
    )
}

proof fn lemma_page_items_props(book: Book, pages: Seq<PageCtx>, assets: Seq<ImageAsset>, n: int)
    requires
        n >= 0,
    ensures
        page_items(book, pages, assets, n).len() == 2 * n,
        forall|j: int|
            0 <= j < n ==> #[trigger] page_items(book, pages, assets, n)[2 * j]
                == image_item_spec(pages, assets, j),
        forall|j: int|
            0 <= j < n ==> #[trigger] page_items(book, pages, assets, n)[2 * j + 1]
                == xhtml_item_spec(book, pages, assets, j),
    decreases n,
{
    if n > 0 {
        lemma_page_items_props(book, pages, assets, n - 1);
    }
}

/// The spine property of page `k`: centered for a cover page, else the side
/// given by the page's index within its chapter.
pub open spec fn spread_prop(pages: Seq<PageCtx>, k: int) -> Seq<char> {
    if pages[k].cover {
        "rendition:page-spread-center"@
    } else {
        Spread::for_index_spec(pages[k].idx).property_spec()
    }
}

/// The spine holds one linear reference per page, in visitation order, with
/// its page-spread property.
pub open spec fn spine_matches(spine: Seq<ItemRef>, pages: Seq<PageCtx>) -> bool {
    &&& spine.len() == pages.len()
    &&& forall|k: int|
        0 <= k < pages.len() ==> {
            &&& (#[trigger] spine[k]).idref@ == page_id(pages, k)
            &&& spine[k].linear == true
            &&& spine[k].properties matches Some(p) && p@ == spread_prop(pages, k)
        }
}

/// The table of contents drawn from the first `k` pages: one (id, caption)
/// pair per titled chapter's first page.
pub open spec fn toc_spec(pages: Seq<PageCtx>, k: int) -> Seq<(Seq<char>, Seq<char>)>
    decreases k,
{
    if k <= 0 {
        Seq::<(Seq<char>, Seq<char>)>::empty()
    } else {
        toc_spec(pages, k - 1) + (match pages[k - 1].title {
            Some(t) => if pages[k - 1].first {
                seq![(page_id(pages, k - 1), t)]
            } else {
                Seq::<(Seq<char>, Seq<char>)>::empty()
            },
            None => Seq::<(Seq<char>, Seq<char>)>::empty(),
        })
    }
}

pub open spec fn toc_matches(toc: Seq<TocEntry>, entries: Seq<(Seq<char>, Seq<char>)>) -> bool {
    &&& toc.len() == entries.len()
    &&& forall|t: int|
        0 <= t < entries.len() ==> (#[trigger] toc[t]).id@ == entries[t].0 && toc[t].caption@
            == entries[t].1
}

/// The metadata fields the engine requires before any output is staged.
pub open spec fn metadata_ok(book: Book) -> bool {
    book.metadata.language@.len() > 0 && book.metadata.identifier@.len() > 0
}

/// The plan is collision-free: ids and hrefs pairwise distinct.
pub open spec fn plan_ok(book: Book, assets: Seq<ImageAsset>) -> bool {
    distinct(plan_ids(plan_items(book, assets))) && distinct(plan_hrefs(plan_items(book, assets)))
}

proof fn lemma_count_noncover_le(pages: Seq<PageCtx>, k: int)
    requires
        0 <= k <= pages.len(),
    ensures
        count_noncover(pages.take(k)) <= k,
    decreases k,
{
    if k > 0 {
        lemma_count_noncover_le(pages, k - 1);
        assert(pages.take(k).drop_last() =~= pages.take(k - 1));
    }
}

/// A collision found while inserting plan entry `idx` means the whole plan
/// collides.
proof fn lemma_plan_collision(m: Manifest, plan: Seq<ItemSpec>, idx: int, e: BuildError)
    requires
        0 <= idx < plan.len(),
        m.items@.len() == idx,
        forall|k: int| 0 <= k < idx ==> item_matches(#[trigger] m.items@[k], plan[k]),
        e matches BuildError::DuplicateId(_) ==> m.has_id(plan[idx].id),
        e matches BuildError::DuplicateHref(_) ==> m.has_href(plan[idx].dir + "/"@ + plan[idx].name),
    ensures
        e matches BuildError::DuplicateId(_) ==> !distinct(plan_ids(plan)),
        e matches BuildError::DuplicateHref(_) ==> !distinct(plan_hrefs(plan)),
{
    if e matches BuildError::DuplicateId(_) {
        let j = choose|j: int| 0 <= j < m.items@.len() && m.items@[j].0@ == plan[idx].id;
        assert(plan_ids(plan)[j] == plan_ids(plan)[idx]);
    }
    if e matches BuildError::DuplicateHref(_) {
        let j = choose|j: int|
            0 <= j < m.items@.len() && m.items@[j].1.href.text() == plan[idx].dir + "/"@
                + plan[idx].name;
        assert(plan_hrefs(plan)[j] == plan_hrefs(plan)[idx]);
    }
}

/// A collision inside a prefix of the plan is a collision of the plan.
proof fn lemma_prefix_collision(prefix: Seq<ItemSpec>, rest: Seq<ItemSpec>)
    ensures
        !distinct(plan_ids(prefix)) ==> !distinct(plan_ids(prefix + rest)),
        !distinct(plan_hrefs(prefix)) ==> !distinct(plan_hrefs(prefix + rest)),
{
    if !distinct(plan_ids(prefix)) {
        let (a, b) = choose|a: int, b: int|
            0 <= a < b < prefix.len() && plan_ids(prefix)[a] == plan_ids(prefix)[b];
        assert(plan_ids(prefix + rest)[a] == plan_ids(prefix + rest)[b]);
    }
    if !distinct(plan_hrefs(prefix)) {
        let (a, b) = choose|a: int, b: int|
            0 <= a < b < prefix.len() && plan_hrefs(prefix)[a] == plan_hrefs(prefix)[b];
        assert(plan_hrefs(prefix + rest)[a] == plan_hrefs(prefix + rest)[b]);
    }
}

/// Folds the whole book into a build context: styles, then every chapter's
/// pages in order, accumulating manifest, spine and table of contents.
#[verifier::loop_isolation(false)]
#[verifier::rlimit(100)]
pub fn build_context(book: &Book, assets: &Vec<ImageAsset>) -> (r: Result<Context, BuildError>)
    requires
        assets@.len() == count_pages(book.chapter@),
        count_pages(book.chapter@) < u32::MAX,
        book.rendition.style@.len() < u32::MAX,
    ensures
        match r {
            Ok(cx) => {
                &&& metadata_ok(*book)
                &&& plan_ok(*book, assets@)
                &&& manifest_matches(cx.manifest, plan_items(*book, assets@))
                &&& cx.manifest.wf()
                &&& spine_matches(cx.spine@, pages_ctx(book.chapter@))
                &&& toc_matches(
                    cx.toc@,
                    toc_spec(pages_ctx(book.chapter@), pages_ctx(book.chapter@).len() as int),
                )
                &&& cx.title@ == book_title(*book)
                &&& cx.styles@.map_values(|s: String| s@) =~= linked_hrefs(book.rendition)
                &&& forall|t: int|
                    0 <= t < cx.toc@.len() ==> cx.manifest.has_id(#[trigger] cx.toc@[t].id@)
            },
            Err(e) => match e {
                BuildError::MissingField(f) => (f@ == "language"@ && book.metadata.language@.len()
                    == 0) || (f@ == "identifier"@ && book.metadata.language@.len() > 0
                    && book.metadata.identifier@.len() == 0),
                BuildError::DuplicateId(_) => metadata_ok(*book) && !distinct(
                    plan_ids(plan_items(*book, assets@)),
                ),
                BuildError::DuplicateHref(_) => metadata_ok(*book) && !distinct(
                    plan_hrefs(plan_items(*book, assets@)),
                ),
                BuildError::Archive(_, _) => false,
            },
        },
        (r is Ok) == (metadata_ok(*book) && plan_ok(*book, assets@)),
{
    if book.metadata.language.as_str().is_empty() {
        return Err(BuildError::MissingField("language".to_owned()));
    }
    if book.metadata.identifier.as_str().is_empty() {
        return Err(BuildError::MissingField("identifier".to_owned()));
    }

    let title = select_title(book);
    let mut cx = Context {
        title,
        manifest: Manifest::new(),
        spine: Vec::new(),
        styles: Vec::new(),
        page_index: 0,
        toc: Vec::new(),
    };

    let ghost styles_plan = style_items(book.rendition);
    let ghost pages = pages_ctx(book.chapter@);
    let ghost plan = plan_items(*book, assets@);
    proof {
        lemma_pages_ctx_len(book.chapter@);
        lemma_page_items_props(*book, pages, assets@, pages.len() as int);
    }

    match build_styles(book, &mut cx) {
        Ok(_) => {},
        Err(e) => {
            proof {
                lemma_prefix_collision(
                    styles_plan,
                    page_items(*book, pages, assets@, pages.len() as int),
                );
            }
            return Err(e);
        },
    }

    let flat = flatten(book);
    let total = flat.len();
    let ghost style_len = styles_plan.len();
    let mut k: usize = 0;
    proof {
        assert(plan.subrange(0, style_len as int) =~= styles_plan);
        assert(cx.manifest.items@.len() == style_len);
    }
    while k < total
        invariant
            k <= total,
            cx.manifest.items@.len() == style_len + 2 * k,
            forall|j: int|
                0 <= j < cx.manifest.items@.len() ==> item_matches(
                    #[trigger] cx.manifest.items@[j],
                    plan[j],
                ),
            cx.manifest.wf(),
            cx.spine@.len() == k as int,
            forall|j: int|
                0 <= j < k ==> {
                    &&& (#[trigger] cx.spine@[j]).idref@ == page_id(pages, j)
                    &&& cx.spine@[j].linear == true
                    &&& cx.spine@[j].properties matches Some(p) && p@ == spread_prop(pages, j)
                },
            toc_matches(cx.toc@, toc_spec(pages, k as int)),
            forall|t: int| 0 <= t < cx.toc@.len() ==> cx.manifest.has_id(#[trigger] cx.toc@[t].id@),
            cx.page_index == count_noncover(pages.take(k as int)),
            cx.title@ == book_title(*book),
            cx.styles@.map_values(|s: String| s@) =~= linked_hrefs(book.rendition),
        decreases total - k,
    {
        let fp = &flat[k];
        let ghost pc = pages[k as int];
        proof {
            assert(flat_matches(flat@[k as int], pc));
            lemma_count_noncover_le(pages, k as int);
            assert(pages.take(k + 1).drop_last() =~= pages.take(k as int));
            assert(pages.take(k + 1).last() == pc);
        }

        let num = cx.page_index + 1;
        let media = guess_media_type(fp.src.as_str());
        let ext = dot_ext(fp.src.as_str());

        let image_id_text: String = if fp.cover {
            "cover".to_owned()
        } else {
            let mut s = "i-".to_owned();
            push_pad4(&mut s, num as u32);
            s
        };
        proof {
            assert(image_id_text@ == image_id(pages, k as int));
        }
        let mut image_file = image_id_text.clone();
        image_file.append(ext.as_str());
        let mut image_href_full = "image/".to_owned();
        image_href_full.append(image_file.as_str());
        let image_props: Option<String> = if fp.cover {
            Some("cover-image".to_owned())
        } else {
            None
        };
        let image_item = ManifestItem {
            media_type: media,
            href: Href("image".to_owned(), image_file),
            properties: image_props,
            data: copy_bytes(&assets[k].data),
        };
        let ghost before_image = cx.manifest;
        match cx.manifest.insert(image_id_text, image_item) {
            Ok(_) => {},
            Err(e) => {
                proof {
                    assert(page_items(*book, pages, assets@, pages.len() as int)[2 * (k as int)]
                        == image_item_spec(pages, assets@, k as int));
                    assert(plan[style_len + 2 * (k as int)] == image_item_spec(
                        pages,
                        assets@,
                        k as int,
                    ));
                    lemma_plan_collision(before_image, plan, style_len + 2 * (k as int), e);
                }
                return Err(e);
            },
        }
        proof {
            assert(page_items(*book, pages, assets@, pages.len() as int)[2 * (k as int)]
                == image_item_spec(pages, assets@, k as int));
            assert(plan[style_len + 2 * (k as int)] == image_item_spec(pages, assets@, k as int));
            assert(item_matches(
                cx.manifest.items@.last(),
                image_item_spec(pages, assets@, k as int),
            ));
            lemma_insert_keeps_wf(before_image, cx.manifest);
        }

        let doc = wrap(
            book.metadata.language.as_str(),
            cx.title.as_str(),
            &cx.styles,
            assets[k].width,
            assets[k].height,
            fp.cover,
            image_href_full.as_str(),
        );
        proof {
            assert(doc@ == doc_spec(*book, pages, assets@, k as int));
        }

        let page_id_text: String = if fp.cover {
            "p-cover".to_owned()
        } else {
            let mut s = "p-".to_owned();
            push_pad4(&mut s, num as u32);
            s
        };
        proof {
            assert(page_id_text@ == page_id(pages, k as int));
        }
        let mut page_file = page_id_text.clone();
        page_file.append(".xhtml");
        let doc_item = ManifestItem {
            media_type: "application/xhtml+xml".to_owned(),
            href: Href("xhtml".to_owned(), page_file),
            properties: Some("svg".to_owned()),
            data: doc.as_str().as_bytes_vec(),
        };
        let ghost before_doc = cx.manifest;
        match cx.manifest.insert(page_id_text.clone(), doc_item) {
            Ok(_) => {},
            Err(e) => {
                proof {
                    assert(page_items(*book, pages, assets@, pages.len() as int)[2 * (k as int)
                        + 1] == xhtml_item_spec(*book, pages, assets@, k as int));
                    assert(plan[style_len + 2 * (k as int) + 1] == xhtml_item_spec(
                        *book,
                        pages,
                        assets@,
                        k as int,
                    ));
                    lemma_plan_collision(before_doc, plan, style_len + 2 * (k as int) + 1, e);
                }
                return Err(e);
            },
        }
        proof {
            assert(page_items(*book, pages, assets@, pages.len() as int)[2 * (k as int) + 1]
                == xhtml_item_spec(*book, pages, assets@, k as int));
            assert(plan[style_len + 2 * (k as int) + 1] == xhtml_item_spec(
                *book,
                pages,
                assets@,
                k as int,
            ));
            assert(item_matches(
                cx.manifest.items@.last(),
                xhtml_item_spec(*book, pages, assets@, k as int),
            ));
            lemma_insert_keeps_wf(before_doc, cx.manifest);
        }

        let spread_text: String = if fp.cover {
            "rendition:page-spread-center".to_owned()
        } else {
            Spread::for_index(fp.idx).property().to_owned()
        };
        proof {
            assert(spread_text@ == spread_prop(pages, k as int));
        }
        cx.spine.push(
            ItemRef { idref: page_id_text.clone(), linear: true, properties: Some(spread_text) },
        );

        let ghost toc_len0 = cx.toc@.len();
        if fp.first {
            match &fp.title {
                Some(t) => {
                    cx.toc.push(TocEntry { id: page_id_text, caption: t.clone() });
                },
                None => {},
            }
        }
        proof {
            assert(toc_matches(cx.toc@, toc_spec(pages, k + 1)));
            assert forall|t: int| 0 <= t < cx.toc@.len() implies cx.manifest.has_id(
                #[trigger] cx.toc@[t].id@,
            ) by {
                if t < toc_len0 {
                    assert(before_image.has_id(cx.toc@[t].id@));
                    let j = choose|j: int|
                        0 <= j < before_image.items@.len() && before_image.items@[j].0@
                            == cx.toc@[t].id@;
                    assert(cx.manifest.items@[j].0@ == cx.toc@[t].id@);
                } else {
                    assert(cx.toc@[t].id@ == page_id(pages, k as int));
                    assert(cx.manifest.items@[cx.manifest.items@.len() - 1].0@ == page_id(
                        pages,
                        k as int,
                    ));
                }
            }
        }

        if !fp.cover {
            cx.page_index = cx.page_index + 1;
        }
        k = k + 1;
    }
    proof {
        assert(pages.take(total as int) =~= pages);
        assert(cx.manifest.items@.len() == plan.len());
        lemma_manifest_distinct(cx.manifest, plan);
    }
    Ok(cx)
}

/// Relies on chrono's Utc::now and DateTime::to_rfc3339_opts: the current UTC
/// time, seconds precision, Z-suffixed.
#[verifier::external_body]
fn current_timestamp() -> (r: String) {
    chrono::Utc::now().to_rfc3339_opts(chrono::SecondsFormat::Secs, true)
}

/// A finished build: the accumulated context and the archive entries in the
/// mandated order.
#[derive(Debug)]
pub struct Build {
    pub context: Context,
    pub entries: Vec<ArchiveEntry>,
}

/// Assembles the whole archive entry list for a book: the stored mimetype
/// first, then the container descriptor, the package document, the
/// navigation document, and every manifest item's bytes under `item/`, in
/// manifest insertion order.
#[verifier::loop_isolation(false)]
#[verifier::rlimit(100)]
pub fn assemble(book: &Book, assets: &Vec<ImageAsset>, modified: &str) -> (r: Result<
    Build,
    BuildError,
>)
    requires
        assets@.len() == count_pages(book.chapter@),
        count_pages(book.chapter@) < u32::MAX,
        book.rendition.style@.len() < u32::MAX,
        book.metadata.creator@.len() + book.metadata.contributor@.len() <= u32::MAX,
        book.metadata.title@.len() <= u32::MAX,
        book.metadata.collection@.len() <= u32::MAX,
    ensures
        match r {
            Ok(b) => {
                &&& metadata_ok(*book)
                &&& plan_ok(*book, assets@)
                &&& manifest_matches(b.context.manifest, plan_items(*book, assets@))
                &&& b.context.manifest.wf()
                &&& spine_matches(b.context.spine@, pages_ctx(book.chapter@))
                &&& toc_matches(
                    b.context.toc@,
                    toc_spec(pages_ctx(book.chapter@), pages_ctx(book.chapter@).len() as int),
                )
                &&& b.context.title@ == book_title(*book)
                &&& b.entries@.len() == 4 + b.context.manifest.items@.len()
                &&& b.entries@[0].name@ == "mimetype"@
                &&& b.entries@[0].data@ == encode_utf8("application/epub+zip"@)
                &&& b.entries@[0].stored == true
                &&& b.entries@[1].name@ == "META-INF/container.xml"@
                &&& b.entries@[1].data@ == encode_utf8(container_doc())
                &&& b.entries@[1].stored == false
                &&& b.entries@[2].name@ == "item/standard.opf"@
                &&& b.entries@[2].data@ == encode_utf8(
                    opf_doc(*book, b.context.manifest.items@, b.context.spine@, modified@),
                )
                &&& b.entries@[2].stored == false
                &&& b.entries@[3].name@ == "item/navigation-documents.xhtml"@
                &&& b.entries@[3].data@ == encode_utf8(
                    nav_doc(book.metadata.language@, b.context.toc@, b.context.manifest.items@),
                )
                &&& b.entries@[3].stored == false
                &&& forall|j: int|
                    0 <= j < b.context.manifest.items@.len() ==> {
                        &&& (#[trigger] b.entries@[4 + j]).name@ == "item/"@
                            + b.context.manifest.items@[j].1.href.text()
                        &&& b.entries@[4 + j].data@ == b.context.manifest.items@[j].1.data@
                        &&& b.entries@[4 + j].stored == false
                    }
            },
            Err(e) => match e {
                BuildError::MissingField(f) => (f@ == "language"@ && book.metadata.language@.len()
                    == 0) || (f@ == "identifier"@ && book.metadata.language@.len() > 0
                    && book.metadata.identifier@.len() == 0),
                BuildError::DuplicateId(_) => metadata_ok(*book) && !distinct(
                    plan_ids(plan_items(*book, assets@)),
                ),
                BuildError::DuplicateHref(_) => metadata_ok(*book) && !distinct(
                    plan_hrefs(plan_items(*book, assets@)),
                ),
                BuildError::Archive(_, _) => false,
            },
        },
        (r is Ok) == (metadata_ok(*book) && plan_ok(*book, assets@)),
{
    let cx = match build_context(book, assets) {
        Ok(cx) => cx,
        Err(e) => {
            return Err(e);
        },
    };

    let mut entries: Vec<ArchiveEntry> = Vec::new();
    entries.push(
        ArchiveEntry {
            name: "mimetype".to_owned(),
            data: "application/epub+zip".as_bytes_vec(),
            stored: true,
        },
    );
    entries.push(
        ArchiveEntry {
            name: "META-INF/container.xml".to_owned(),
            data: container_document().as_str().as_bytes_vec(),
            stored: false,
        },
    );
    let opf = package_document(book, &cx.manifest, &cx.spine, modified);
    entries.push(
        ArchiveEntry {
            name: "item/standard.opf".to_owned(),
            data: opf.as_str().as_bytes_vec(),
            stored: false,
        },
    );
    proof {
        assert forall|k: int| 0 <= k < cx.toc@.len() implies lookup_seq(
            cx.manifest.items@,
            #[trigger] cx.toc@[k].id@,
        ) is Some by {
            if lookup_seq(cx.manifest.items@, cx.toc@[k].id@) is None {
                crate::item::lemma_lookup_some(cx.manifest.items@, cx.toc@[k].id@);
                let j = choose|j: int|
                    0 <= j < cx.manifest.items@.len() && cx.manifest.items@[j].0@
                        == cx.toc@[k].id@;
                assert(false);
            }
        }
    }
    let nav = navigation(book.metadata.language.as_str(), &cx.toc, &cx.manifest);
    entries.push(
        ArchiveEntry {
            name: "item/navigation-documents.xhtml".to_owned(),
            data: nav.as_str().as_bytes_vec(),
            stored: false,
        },
    );

    let n = cx.manifest.len();
    let mut j: usize = 0;
    while j < n
        invariant
            j <= n,
            entries@.len() == 4 + j,
            forall|q: int|
                0 <= q < j ==> {
                    &&& (#[trigger] entries@[4 + q]).name@ == "item/"@
                        + cx.manifest.items@[q].1.href.text()
                    &&& entries@[4 + q].data@ == cx.manifest.items@[q].1.data@
                    &&& entries@[4 + q].stored == false
                },
            entries@[0].name@ == "mimetype"@,
            entries@[0].data@ == encode_utf8("application/epub+zip"@),
            entries@[0].stored == true,
            entries@[1].name@ == "META-INF/container.xml"@,
            entries@[1].data@ == encode_utf8(container_doc()),
            entries@[1].stored == false,
            entries@[2].name@ == "item/standard.opf"@,
            entries@[2].data@ == encode_utf8(
                opf_doc(*book, cx.manifest.items@, cx.spine@, modified@),
            ),
            entries@[2].stored == false,
            entries@[3].name@ == "item/navigation-documents.xhtml"@,
            entries@[3].data@ == encode_utf8(
                nav_doc(book.metadata.language@, cx.toc@, cx.manifest.items@),
            ),
            entries@[3].stored == false,
        decreases n - j,
    {
        let mut name = "item/".to_owned();
        let href_text = cx.manifest.items[j].1.href.to_text();
        name.append(href_text.as_str());
        let data = copy_bytes(&cx.manifest.items[j].1.data);
        entries.push(ArchiveEntry { name, data, stored: false });
        j = j + 1;
    }
    Ok(Build { context: cx, entries })
}

/// Builds the complete EPUB byte stream: validates the metadata, assembles
/// the entries with the current timestamp, and writes the archive. The
/// timestamp is the one thing two runs on the same book may differ in.
pub fn build_epub(book: &Book, assets: &Vec<ImageAsset>) -> (r: Result<Vec<u8>, BuildError>)
    requires
        assets@.len() == count_pages(book.chapter@),
        count_pages(book.chapter@) < u32::MAX,
        book.rendition.style@.len() < u32::MAX,
        book.metadata.creator@.len() + book.metadata.contributor@.len() <= u32::MAX,
        book.metadata.title@.len() <= u32::MAX,
        book.metadata.collection@.len() <= u32::MAX,
    ensures
        r is Ok ==> metadata_ok(*book) && plan_ok(*book, assets@),
        match r {
            Ok(_) => true,
            Err(e) => match e {
                BuildError::MissingField(f) => (f@ == "language"@ && book.metadata.language@.len()
                    == 0) || (f@ == "identifier"@ && book.metadata.language@.len() > 0
                    && book.metadata.identifier@.len() == 0),
                BuildError::DuplicateId(_) => metadata_ok(*book) && !distinct(
                    plan_ids(plan_items(*book, assets@)),
                ),
                BuildError::DuplicateHref(_) => metadata_ok(*book) && !distinct(
                    plan_hrefs(plan_items(*book, assets@)),
                ),
                BuildError::Archive(_, _) => metadata_ok(*book) && plan_ok(*book, assets@),
            },
        },
{
    let modified = current_timestamp();
    let build = match assemble(book, assets, modified.as_str()) {
        Ok(b) => b,
        Err(e) => {
            return Err(e);
        },
    };
    write_archive(&build.entries)
}

/// The warning line for a page whose aspect disagrees with the declared
/// orientation.
pub open spec fn warning_text(src: Seq<char>, portrait: bool) -> Seq<char> {
    "`"@ + src + (if portrait {
        "` is a portrait page"@
    } else {
        "` is a landscape page"@
    })
}

/// The orientation warnings of the first `k` pages, in visitation order: a
/// portrait page under a landscape rendition, or the reverse.
pub open spec fn warnings_spec(
    book: Book,
    pages: Seq<PageCtx>,
    assets: Seq<ImageAsset>,
    k: int,
) -> Seq<Seq<char>>
    decreases k,
{
    if k <= 0 {
        Seq::<Seq<char>>::empty()
    } else {
        warnings_spec(book, pages, assets, k - 1) + (if book.rendition.orientation
            == Orientation::Landscape && assets[k - 1].width < assets[k - 1].height {
            seq![warning_text(pages[k - 1].src, true)]
        } else if book.rendition.orientation == Orientation::Portrait && assets[k - 1].height
            < assets[k - 1].width {
            seq![warning_text(pages[k - 1].src, false)]
        } else {
            Seq::<Seq<char>>::empty()
        })
    }
}

/// Collects the non-fatal orientation warnings. They never change the build's
/// control flow or output.
#[verifier::loop_isolation(false)]
pub fn orientation_warnings(book: &Book, assets: &Vec<ImageAsset>) -> (r: Vec<String>)
    requires
        assets@.len() == count_pages(book.chapter@),
    ensures
        r@.map_values(|s: String| s@) =~= warnings_spec(
            *book,
            pages_ctx(book.chapter@),
            assets@,
            pages_ctx(book.chapter@).len() as int,
        ),
{
    let ghost pages = pages_ctx(book.chapter@);
    proof {
        lemma_pages_ctx_len(book.chapter@);
    }
    let flat = flatten(book);
    let mut out: Vec<String> = Vec::new();
    let total = flat.len();
    let mut k: usize = 0;
    while k < total
        invariant
            k <= total,
            out@.map_values(|s: String| s@) =~= warnings_spec(*book, pages, assets@, k as int),
        decreases total - k,
    {
        let fp = &flat[k];
        proof {
            assert(flat_matches(flat@[k as int], pages[k as int]));
        }
        let landscape = match book.rendition.orientation {
            Orientation::Landscape => true,
            _ => false,
        };
        let portrait = match book.rendition.orientation {
            Orientation::Portrait => true,
            _ => false,
        };
        if landscape && assets[k].width < assets[k].height {
            let mut msg = "`".to_owned();
            msg.append(fp.src.as_str());
            msg.append("` is a portrait page");
            out.push(msg);
        } else if portrait && assets[k].height < assets[k].width {
            let mut msg = "`".to_owned();
            msg.append(fp.src.as_str());
            msg.append("` is a landscape page");
            out.push(msg);
        }
        proof {
            assert(out@.map_values(|s: String| s@) =~= warnings_spec(
                *book,
                pages,
                assets@,
                k + 1,
            ));
        }
        k = k + 1;
    }
    out
}

/// For a book of P pages, the plan holds exactly P image items and P content
/// documents after the style items, and the style items are the declared
/// ones, or the one built-in default. With the fixed navigation item of the
/// package document, that is the whole manifest.
pub proof fn lemma_manifest_counts(book: Book, assets: Seq<ImageAsset>)
    ensures
        plan_items(book, assets).len() == style_items(book.rendition).len() + 2 * count_pages(
            book.chapter@,
        ),
        style_items(book.rendition).len() == if book.rendition.style@.len() == 0 {
            1nat
        } else {
            book.rendition.style@.len()
        },
        pages_ctx(book.chapter@).len() == count_pages(book.chapter@),
{
    lemma_pages_ctx_len(book.chapter@);
    lemma_page_items_props(book, pages_ctx(book.chapter@), assets, pages_ctx(book.chapter@).len() as int);
}

/// A page of a cover chapter always receives the fixed cover ids, the
/// cover-image property, and the centered page spread, wherever the chapter
/// stands.
pub proof fn lemma_cover_page(book: Book, assets: Seq<ImageAsset>, k: int)
    requires
        0 <= k < pages_ctx(book.chapter@).len(),
        pages_ctx(book.chapter@)[k].cover,
    ensures
        image_id(pages_ctx(book.chapter@), k) == "cover"@,
        page_id(pages_ctx(book.chapter@), k) == "p-cover"@,
        image_item_spec(pages_ctx(book.chapter@), assets, k).props == Some("cover-image"@),
        spread_prop(pages_ctx(book.chapter@), k) == "rendition:page-spread-center"@,
{
}

/// In a non-cover chapter, a page at an even zero-based index is placed on
/// the left of the spread, one at an odd index on the right.
pub proof fn lemma_page_spread(pages: Seq<PageCtx>, k: int)
    requires
        0 <= k < pages.len(),
        !pages[k].cover,
    ensures
        pages[k].idx % 2 == 0 ==> spread_prop(pages, k) == "page-spread-left"@,
        pages[k].idx % 2 == 1 ==> spread_prop(pages, k) == "page-spread-right"@,
{
}

/// How many of the pages belong to cover chapters.
pub open spec fn count_cover(pages: Seq<PageCtx>) -> nat
    decreases pages.len(),
{
    if pages.len() == 0 {
        0
    } else {
        count_cover(pages.drop_last()) + if pages.last().cover {
            1nat
        } else {
            0nat
        }
    }
}

proof fn lemma_count_step(pages: Seq<PageCtx>, k: int)
    requires
        0 <= k < pages.len(),
    ensures
        count_noncover(pages.take(k + 1)) == count_noncover(pages.take(k)) + (if pages[k].cover {
            0nat
        } else {
            1nat
        }),
        count_cover(pages.take(k + 1)) == count_cover(pages.take(k)) + (if pages[k].cover {
            1nat
        } else {
            0nat
        }),
{
    assert(pages.take(k + 1).drop_last() =~= pages.take(k));
    assert(pages.take(k + 1).last() == pages[k]);
}

proof fn lemma_count_mono(pages: Seq<PageCtx>, k1: int, k2: int)
    requires
        0 <= k1 <= k2 <= pages.len(),
    ensures
        count_noncover(pages.take(k1)) <= count_noncover(pages.take(k2)),
        count_cover(pages.take(k1)) <= count_cover(pages.take(k2)),
    decreases k2 - k1,
{
    if k1 < k2 {
        lemma_count_step(pages, k2 - 1);
        lemma_count_mono(pages, k1, k2 - 1);
    }
}

/// Two cover pages push the cover count to two.
proof fn lemma_two_covers(pages: Seq<PageCtx>, k1: int, k2: int)
    requires
        0 <= k1 < k2 < pages.len(),
        pages[k1].cover,
        pages[k2].cover,
    ensures
        count_cover(pages) >= 2,
{
    lemma_count_step(pages, k1);
    lemma_count_step(pages, k2);
    lemma_count_mono(pages, k1 + 1, k2);
    lemma_count_mono(pages, k2 + 1, pages.len() as int);
    assert(pages.take(pages.len() as int) =~= pages);
}

/// Distinct non-cover pages carry distinct sequence numbers.
proof fn lemma_nums_differ(pages: Seq<PageCtx>, k1: int, k2: int)
    requires
        0 <= k1 < k2 < pages.len(),
        !pages[k1].cover,
        !pages[k2].cover,
    ensures
        page_num(pages, k1) < page_num(pages, k2),
{
    lemma_count_step(pages, k1);
    lemma_count_mono(pages, k1 + 1, k2);
}

/// Appending to a common prefix keeps the suffixes apart.
proof fn lemma_concat_same_prefix(p: Seq<char>, x: Seq<char>, y: Seq<char>)
    requires
        p + x == p + y,
    ensures
        x == y,
{
    assert((p + x).len() == p.len() + x.len());
    assert((p + y).len() == p.len() + y.len());
    assert(x.len() == y.len());
    assert forall|i: int| 0 <= i < x.len() implies x[i] == y[i] by {
        assert((p + x)[p.len() + i] == x[i]);
        assert((p + y)[p.len() + i] == y[i]);
    }
    assert(x =~= y);
}

/// A digit block followed by nothing or a dotted suffix recovers the digit
/// block: digits never contain a dot.
proof fn lemma_digits_then_dot(a: Seq<char>, x: Seq<char>, b: Seq<char>, y: Seq<char>)
    requires
        crate::textfmt::all_digits(a),
        crate::textfmt::all_digits(b),
        x.len() == 0 || x[0] == '.',
        y.len() == 0 || y[0] == '.',
        a + x == b + y,
    ensures
        a == b,
{
    assert((a + x).len() == a.len() + x.len());
    assert((b + y).len() == b.len() + y.len());
    assert(a.len() + x.len() == b.len() + y.len());
    if a.len() == b.len() {
        assert forall|i: int| 0 <= i < a.len() implies a[i] == b[i] by {
            assert((a + x)[i] == a[i]);
            assert((b + y)[i] == b[i]);
        }
        assert(a =~= b);
    } else if a.len() < b.len() {
        assert(x.len() > 0);
        assert((a + x)[a.len() as int] == x[0]);
        assert((b + y)[a.len() as int] == b[a.len() as int]);
        assert(crate::textfmt::is_digit(b[a.len() as int]));
        assert(false);
    } else {
        assert(y.len() > 0);
        assert((b + y)[b.len() as int] == y[0]);
        assert((a + x)[b.len() as int] == a[b.len() as int]);
        assert(crate::textfmt::is_digit(a[b.len() as int]));
        assert(false);
    }
}

proof fn reveal_id_literals()
    ensures
        "s-"@.len() == 2 && "s-"@[0] == 's' && "s-"@[1] == '-',
        "s-default"@.len() == 9 && "s-default"@[0] == 's' && "s-default"@[1] == '-'
            && "s-default"@[2] == 'd',
        "cover"@.len() == 5 && "cover"@[0] == 'c',
        "i-"@.len() == 2 && "i-"@[0] == 'i' && "i-"@[1] == '-',
        "p-"@.len() == 2 && "p-"@[0] == 'p' && "p-"@[1] == '-',
        "p-cover"@.len() == 7 && "p-cover"@[0] == 'p' && "p-cover"@[1] == '-' && "p-cover"@[2]
            == 'c',
{
    reveal_strlit("s-");
    reveal_strlit("s-default");
    reveal_strlit("cover");
    reveal_strlit("i-");
    reveal_strlit("p-");
    reveal_strlit("p-cover");
}

/// The four ids two pages can contribute never collide, as long as at most
/// one page is a cover page.
proof fn lemma_page_id_pairs(pages: Seq<PageCtx>, k1: int, k2: int)
    requires
        0 <= k1 <= k2 < pages.len(),
        count_cover(pages) <= 1,
    ensures
        k1 < k2 ==> image_id(pages, k1) != image_id(pages, k2),
        k1 < k2 ==> page_id(pages, k1) != page_id(pages, k2),
        image_id(pages, k1) != page_id(pages, k2),
        page_id(pages, k1) != image_id(pages, k2),
{
    reveal_id_literals();
    crate::textfmt::lemma_pad4_digits(page_num(pages, k1));
    crate::textfmt::lemma_pad4_digits(page_num(pages, k2));
    if pages[k1].cover && pages[k2].cover && k1 < k2 {
        lemma_two_covers(pages, k1, k2);
    }
    // An image id starts with 'c' or 'i', a page id with 'p'.
    assert(image_id(pages, k1)[0] == 'c' || image_id(pages, k1)[0] == 'i');
    assert(image_id(pages, k2)[0] == 'c' || image_id(pages, k2)[0] == 'i');
    assert(page_id(pages, k1)[0] == 'p');
    assert(page_id(pages, k2)[0] == 'p');
    if k1 < k2 {
        if !pages[k1].cover && !pages[k2].cover {
            lemma_nums_differ(pages, k1, k2);
            if image_id(pages, k1) == image_id(pages, k2) {
                lemma_concat_same_prefix(
                    "i-"@,
                    pad4_spec(page_num(pages, k1)),
                    pad4_spec(page_num(pages, k2)),
                );
                crate::textfmt::lemma_pad4_injective(page_num(pages, k1), page_num(pages, k2));
                assert(false);
            }
            if page_id(pages, k1) == page_id(pages, k2) {
                lemma_concat_same_prefix(
                    "p-"@,
                    pad4_spec(page_num(pages, k1)),
                    pad4_spec(page_num(pages, k2)),
                );
                crate::textfmt::lemma_pad4_injective(page_num(pages, k1), page_num(pages, k2));
                assert(false);
            }
        } else if pages[k1].cover != pages[k2].cover {
            // "cover" vs "i-...": first characters differ; "p-cover" vs
            // "p-....": the character after "p-" is 'c' on one side and a
            // digit on the other.
            if page_id(pages, k1) == page_id(pages, k2) {
                let c1 = page_id(pages, k1)[2];
                let c2 = page_id(pages, k2)[2];
                if pages[k1].cover {
                    assert(c1 == 'c');
                    assert(c2 == pad4_spec(page_num(pages, k2))[0]);
                    assert(crate::textfmt::is_digit(c2));
                } else {
                    assert(c2 == 'c');
                    assert(c1 == pad4_spec(page_num(pages, k1))[0]);
                    assert(crate::textfmt::is_digit(c1));
                }
                assert(false);
            }
        }
    }
}

/// Ids are assigned once and never reused: for any book with at most one
/// cover page, the ids of the whole plan are pairwise distinct, and they are
/// a function of the book alone, so every run assigns the same ids.
#[verifier::rlimit(100)]
pub proof fn lemma_plan_ids_distinct(book: Book, assets: Seq<ImageAsset>)
    requires
        count_cover(pages_ctx(book.chapter@)) <= 1,
    ensures
        distinct(plan_ids(plan_items(book, assets))),
{
    reveal_id_literals();
    let styles = style_items(book.rendition);
    let pages = pages_ctx(book.chapter@);
    let plan = plan_items(book, assets);
    let ids = plan_ids(plan);
    let ls = styles.len() as int;
    let np = pages.len() as int;
    lemma_page_items_props(book, pages, assets, np);
    assert(plan.len() == ls + 2 * np);

    // Every style id starts with 's' and, when styles are declared, carries
    // the style's one-based number.
    assert forall|i: int| 0 <= i < ls implies (#[trigger] styles[i].id).len() > 0 && styles[i].id[0]
        == 's' by {
        if book.rendition.style@.len() == 0 {
        } else {
            crate::textfmt::lemma_pad4_digits((i + 1) as nat);
        }
    }

    assert forall|a: int, b: int| 0 <= a < b < ids.len() implies ids[a] != ids[b] by {
        if b < ls {
            // Two style ids: both "s-" plus distinct padded numbers.
            crate::textfmt::lemma_pad4_digits((a + 1) as nat);
            crate::textfmt::lemma_pad4_digits((b + 1) as nat);
            assert(ids[a] == styles[a].id);
            assert(ids[b] == styles[b].id);
            if ids[a] == ids[b] {
                lemma_concat_same_prefix("s-"@, pad4_spec((a + 1) as nat), pad4_spec((b + 1) as nat));
                crate::textfmt::lemma_pad4_injective((a + 1) as nat, (b + 1) as nat);
                assert(false);
            }
        } else if a < ls {
            // A style id against a page id: 's' against 'c', 'i' or 'p'.
            let k = (b - ls) / 2;
            assert(0 <= k < np);
            if (b - ls) % 2 == 0 {
                assert(b - ls == 2 * k);
                assert(page_items(book, pages, assets, np)[2 * k] == image_item_spec(
                    pages,
                    assets,
                    k,
                ));
                assert(plan[b] == image_item_spec(pages, assets, k));
            } else {
                assert(b - ls == 2 * k + 1);
                assert(page_items(book, pages, assets, np)[2 * k + 1] == xhtml_item_spec(
                    book,
                    pages,
                    assets,
                    k,
                ));
                assert(plan[b] == xhtml_item_spec(book, pages, assets, k));
            }
            crate::textfmt::lemma_pad4_digits(page_num(pages, k));
            assert(ids[a][0] == 's');
            assert(ids[b][0] == 'c' || ids[b][0] == 'i' || ids[b][0] == 'p');
        } else {
            let k1 = (a - ls) / 2;
            let k2 = (b - ls) / 2;
            assert(0 <= k1 <= k2 < np);
            if (a - ls) % 2 == 0 {
                assert(a - ls == 2 * k1);
                assert(page_items(book, pages, assets, np)[2 * k1] == image_item_spec(
                    pages,
                    assets,
                    k1,
                ));
                assert(plan[a] == image_item_spec(pages, assets, k1));
            } else {
                assert(a - ls == 2 * k1 + 1);
                assert(page_items(book, pages, assets, np)[2 * k1 + 1] == xhtml_item_spec(
                    book,
                    pages,
                    assets,
                    k1,
                ));
                assert(plan[a] == xhtml_item_spec(book, pages, assets, k1));
            }
            if (b - ls) % 2 == 0 {
                assert(b - ls == 2 * k2);
                assert(page_items(book, pages, assets, np)[2 * k2] == image_item_spec(
                    pages,
                    assets,
                    k2,
                ));
                assert(plan[b] == image_item_spec(pages, assets, k2));
            } else {
                assert(b - ls == 2 * k2 + 1);
                assert(page_items(book, pages, assets, np)[2 * k2 + 1] == xhtml_item_spec(
                    book,
                    pages,
                    assets,
                    k2,
                ));
                assert(plan[b] == xhtml_item_spec(book, pages, assets, k2));
            }
            lemma_page_id_pairs(pages, k1, k2);
        }
    }
}

/// The declared styles name pairwise distinct hrefs.
pub open spec fn style_hrefs_distinct(r: Rendition) -> bool {
    forall|i: int, j: int|
        0 <= i < j < r.style@.len() ==> (#[trigger] r.style@[i].href)@ != (
        #[trigger] r.style@[j].href)@
}

proof fn lemma_image_names_differ(pages: Seq<PageCtx>, k1: int, k2: int)
    requires
        0 <= k1 < k2 < pages.len(),
        count_cover(pages) <= 1,
    ensures
        image_name(pages, k1) != image_name(pages, k2),
        page_name(pages, k1) != page_name(pages, k2),
{
    reveal_id_literals();
    reveal_strlit(".xhtml");
    crate::textfmt::lemma_pad4_digits(page_num(pages, k1));
    crate::textfmt::lemma_pad4_digits(page_num(pages, k2));
    crate::media::lemma_dot_ext_shape(pages[k1].src);
    crate::media::lemma_dot_ext_shape(pages[k2].src);
    if pages[k1].cover && pages[k2].cover {
        lemma_two_covers(pages, k1, k2);
        assert(false);
    } else if pages[k1].cover != pages[k2].cover {
        // "cover..." against "i-...": the names differ in their first
        // character; "p-cover..." against "p-00...": in their third.
        assert(image_name(pages, k1)[0] == if pages[k1].cover { 'c' } else { 'i' });
        assert(image_name(pages, k2)[0] == if pages[k2].cover { 'c' } else { 'i' });
        if page_name(pages, k1) == page_name(pages, k2) {
            let c1 = page_name(pages, k1)[2];
            let c2 = page_name(pages, k2)[2];
            if pages[k1].cover {
                assert(c1 == 'c');
                assert(c2 == pad4_spec(page_num(pages, k2))[0]);
                assert(crate::textfmt::is_digit(c2));
            } else {
                assert(c2 == 'c');
                assert(c1 == pad4_spec(page_num(pages, k1))[0]);
                assert(crate::textfmt::is_digit(c1));
            }
            assert(false);
        }
    } else {
        lemma_nums_differ(pages, k1, k2);
        if image_name(pages, k1) == image_name(pages, k2) {
            assert(image_name(pages, k1) =~= "i-"@ + (pad4_spec(page_num(pages, k1))
                + dot_ext_spec(pages[k1].src)));
            assert(image_name(pages, k2) =~= "i-"@ + (pad4_spec(page_num(pages, k2))
                + dot_ext_spec(pages[k2].src)));
            lemma_concat_same_prefix(
                "i-"@,
                pad4_spec(page_num(pages, k1)) + dot_ext_spec(pages[k1].src),
                pad4_spec(page_num(pages, k2)) + dot_ext_spec(pages[k2].src),
            );
            lemma_digits_then_dot(
                pad4_spec(page_num(pages, k1)),
                dot_ext_spec(pages[k1].src),
                pad4_spec(page_num(pages, k2)),
                dot_ext_spec(pages[k2].src),
            );
            crate::textfmt::lemma_pad4_injective(page_num(pages, k1), page_num(pages, k2));
            assert(false);
        }
        if page_name(pages, k1) == page_name(pages, k2) {
            assert(page_name(pages, k1) =~= "p-"@ + (pad4_spec(page_num(pages, k1)) + ".xhtml"@));
            assert(page_name(pages, k2) =~= "p-"@ + (pad4_spec(page_num(pages, k2)) + ".xhtml"@));
            lemma_concat_same_prefix(
                "p-"@,
                pad4_spec(page_num(pages, k1)) + ".xhtml"@,
                pad4_spec(page_num(pages, k2)) + ".xhtml"@,
            );
            lemma_digits_then_dot(
                pad4_spec(page_num(pages, k1)),
                ".xhtml"@,
                pad4_spec(page_num(pages, k2)),
                ".xhtml"@,
            );
            crate::textfmt::lemma_pad4_injective(page_num(pages, k1), page_num(pages, k2));
            assert(false);
        }
    }
}

proof fn reveal_dir_literals()
    ensures
        "style"@.len() == 5 && "style"@[0] == 's',
        "image"@.len() == 5 && "image"@[0] == 'i',
        "xhtml"@.len() == 5 && "xhtml"@[0] == 'x',
        "/"@.len() == 1,
        "default.css"@.len() == 11,
        ".xhtml"@.len() == 6 && ".xhtml"@[0] == '.',
{
    reveal_strlit("style");
    reveal_strlit("image");
    reveal_strlit("xhtml");
    reveal_strlit("/");
    reveal_strlit("default.css");
    reveal_strlit(".xhtml");
}

/// Hrefs are as collision-free as the declared style names: for a book with
/// at most one cover page whose declared styles carry pairwise distinct
/// hrefs, the hrefs of the whole plan are pairwise distinct, and they are a
/// function of the book alone, the same on every run.
#[verifier::rlimit(100)]
pub proof fn lemma_plan_hrefs_distinct(book: Book, assets: Seq<ImageAsset>)
    requires
        count_cover(pages_ctx(book.chapter@)) <= 1,
        style_hrefs_distinct(book.rendition),
    ensures
        distinct(plan_hrefs(plan_items(book, assets))),
{
    reveal_id_literals();
    reveal_dir_literals();
    let styles = style_items(book.rendition);
    let pages = pages_ctx(book.chapter@);
    let plan = plan_items(book, assets);
    let hrefs = plan_hrefs(plan);
    let ls = styles.len() as int;
    let np = pages.len() as int;
    lemma_page_items_props(book, pages, assets, np);
    assert(plan.len() == ls + 2 * np);

    assert forall|a: int, b: int| 0 <= a < b < hrefs.len() implies hrefs[a] != hrefs[b] by {
        let pa = plan[a];
        let pb = plan[b];
        let ka = (a - ls) / 2;
        let kb = (b - ls) / 2;
        if a >= ls {
            assert(0 <= ka < np);
            if (a - ls) % 2 == 0 {
                assert(a - ls == 2 * ka);
                assert(page_items(book, pages, assets, np)[2 * ka] == image_item_spec(
                    pages,
                    assets,
                    ka,
                ));
            } else {
                assert(a - ls == 2 * ka + 1);
                assert(page_items(book, pages, assets, np)[2 * ka + 1] == xhtml_item_spec(
                    book,
                    pages,
                    assets,
                    ka,
                ));
            }
        }
        if b >= ls {
            assert(0 <= kb < np);
            if (b - ls) % 2 == 0 {
                assert(b - ls == 2 * kb);
                assert(page_items(book, pages, assets, np)[2 * kb] == image_item_spec(
                    pages,
                    assets,
                    kb,
                ));
            } else {
                assert(b - ls == 2 * kb + 1);
                assert(page_items(book, pages, assets, np)[2 * kb + 1] == xhtml_item_spec(
                    book,
                    pages,
                    assets,
                    kb,
                ));
            }
        }
        // The three directories differ in their first character, so only
        // same-directory pairs need the name argument.
        assert(hrefs[a] == pa.dir + "/"@ + pa.name);
        assert(hrefs[b] == pb.dir + "/"@ + pb.name);
        assert(pa.dir.len() == 5 && pb.dir.len() == 5);
        assert((pa.dir + "/"@ + pa.name)[0] == pa.dir[0]);
        assert((pb.dir + "/"@ + pb.name)[0] == pb.dir[0]);
        if pa.dir == pb.dir {
            if hrefs[a] == hrefs[b] {
                assert(pa.dir + "/"@ + pa.name =~= (pa.dir + "/"@) + pa.name);
                assert(pb.dir + "/"@ + pb.name =~= (pb.dir + "/"@) + pb.name);
                lemma_concat_same_prefix(pa.dir + "/"@, pa.name, pb.name);
                if b < ls {
                    // Two declared styles with the same href, against the
                    // hypothesis; the single default style cannot pair.
                    assert(book.rendition.style@.len() > 0);
                    assert(pa.name == book.rendition.style@[a].href@);
                    assert(pb.name == book.rendition.style@[b].href@);
                    assert(false);
                } else if a >= ls {
                    if (a - ls) % 2 == 0 && (b - ls) % 2 == 0 {
                        assert(ka < kb);
                        lemma_image_names_differ(pages, ka, kb);
                        assert(false);
                    } else if (a - ls) % 2 == 1 && (b - ls) % 2 == 1 {
                        assert(ka < kb);
                        lemma_image_names_differ(pages, ka, kb);
                        assert(false);
                    } else {
                        // An image name against a document name under one
                        // directory cannot happen: the directories differ.
                        assert(false);
                    }
                } else {
                    // A style against a page item: directories differ.
                    assert(false);
                }
            }
        }
    }
}

/// When success is owed: a book with a nonempty language and identifier, at
/// most one cover page, and pairwise distinct declared style hrefs has a
/// collision-free plan, so the build returns Ok on it.
pub proof fn lemma_build_succeeds(book: Book, assets: Seq<ImageAsset>)
    requires
        metadata_ok(book),
        count_cover(pages_ctx(book.chapter@)) <= 1,
        style_hrefs_distinct(book.rendition),
    ensures
        plan_ok(book, assets),
{
    lemma_plan_ids_distinct(book, assets);
    lemma_plan_hrefs_distinct(book, assets);
}

} // verus!
