use std::io::Read;
use tsugumi::engine::{assemble, build_context, build_epub, orientation_warnings, ImageAsset};
use tsugumi::error::BuildError;
use tsugumi::model::{
    Book, Chapter, Collection, CollectionType, Creator, Metadata, Orientation, Page, Rendition,
    Style, Title, TitleType,
};

fn page(src: &str) -> Page {
    Page { src: src.to_string() }
}

fn asset(width: u32, height: u32) -> ImageAsset {
    ImageAsset {
        width,
        height,
        data: vec![0xFF, 0xD8, 0xFF, 0xE0],
    }
}

fn base_metadata() -> Metadata {
    Metadata {
        title: vec![Title {
            name: "Sample".to_string(),
            ..Default::default()
        }],
        language: "ja".to_string(),
        identifier: "urn:uuid:0".to_string(),
        ..Default::default()
    }
}

fn sample_book() -> (Book, Vec<ImageAsset>) {
    let book = Book {
        metadata: base_metadata(),
        rendition: Rendition::default(),
        chapter: vec![
            Chapter {
                name: Some("表紙".to_string()),
                page: vec![page("cover.jpg")],
                cover: true,
            },
            Chapter {
                name: Some("本編".to_string()),
                page: vec![page("p1.png"), page("p2.png")],
                cover: false,
            },
        ],
    };
    let assets = vec![asset(800, 1200), asset(800, 1200), asset(800, 1200)];
    (book, assets)
}

#[test]
fn test_spine_and_manifest_counts() {
    let (book, assets) = sample_book();
    let cx = build_context(&book, &assets).unwrap();
    // 3 pages: 3 spine entries; 1 default style + 3 images + 3 documents.
    assert_eq!(cx.spine.len(), 3);
    assert_eq!(cx.manifest.items.len(), 1 + 3 + 3);
    let ids: Vec<&str> = cx.manifest.items.iter().map(|(id, _)| id.as_str()).collect();
    assert_eq!(
        ids,
        vec!["s-default", "cover", "p-cover", "i-0001", "p-0001", "i-0002", "p-0002"]
    );
}

#[test]
fn test_ids_distinct_and_deterministic() {
    let (book, assets) = sample_book();
    let cx1 = build_context(&book, &assets).unwrap();
    let cx2 = build_context(&book, &assets).unwrap();
    let ids1: Vec<String> = cx1.manifest.items.iter().map(|(id, _)| id.clone()).collect();
    let ids2: Vec<String> = cx2.manifest.items.iter().map(|(id, _)| id.clone()).collect();
    assert_eq!(ids1, ids2);
    let hrefs1: Vec<String> = cx1.manifest.items.iter().map(|(_, i)| i.href.to_text()).collect();
    let hrefs2: Vec<String> = cx2.manifest.items.iter().map(|(_, i)| i.href.to_text()).collect();
    assert_eq!(hrefs1, hrefs2);
    for (a, id_a) in ids1.iter().enumerate() {
        for (b, id_b) in ids1.iter().enumerate() {
            if a != b {
                assert_ne!(id_a, id_b);
                assert_ne!(hrefs1[a], hrefs1[b]);
            }
        }
    }
}

#[test]
fn test_cover_page_ids_and_properties() {
    let mut chapters = vec![
        Chapter {
            name: None,
            page: vec![page("one.png"), page("two.png")],
            cover: false,
        },
        Chapter {
            name: Some("表紙".to_string()),
            page: vec![page("cover.jpg")],
            cover: true,
        },
    ];
    // The cover chapter stands last here, not first.
    let book = Book {
        metadata: base_metadata(),
        rendition: Rendition::default(),
        chapter: std::mem::take(&mut chapters),
    };
    let assets = vec![asset(1, 1), asset(1, 1), asset(2, 3)];
    let cx = build_context(&book, &assets).unwrap();
    let (cover_id, cover_item) = &cx.manifest.items[5];
    assert_eq!(cover_id, "cover");
    assert_eq!(cover_item.href.to_text(), "image/cover.jpg");
    assert_eq!(cover_item.properties.as_deref(), Some("cover-image"));
    let (doc_id, doc_item) = &cx.manifest.items[6];
    assert_eq!(doc_id, "p-cover");
    assert_eq!(doc_item.href.to_text(), "xhtml/p-cover.xhtml");
    let cover_ref = &cx.spine[2];
    assert_eq!(cover_ref.idref, "p-cover");
    assert_eq!(
        cover_ref.properties.as_deref(),
        Some("rendition:page-spread-center")
    );
}

#[test]
fn test_page_spread_alternation_five_pages() {
    let book = Book {
        metadata: base_metadata(),
        rendition: Rendition::default(),
        chapter: vec![Chapter {
            name: Some("本編".to_string()),
            page: (1..=5).map(|i| page(&format!("p{i}.png"))).collect(),
            cover: false,
        }],
    };
    let assets = (0..5).map(|_| asset(100, 200)).collect();
    let cx = build_context(&book, &assets).unwrap();
    let props: Vec<&str> = cx
        .spine
        .iter()
        .map(|r| r.properties.as_deref().unwrap())
        .collect();
    assert_eq!(
        props,
        vec![
            "page-spread-left",
            "page-spread-right",
            "page-spread-left",
            "page-spread-right",
            "page-spread-left"
        ]
    );
    assert!(cx.spine.iter().all(|r| r.linear));
}

#[test]
fn test_mimetype_first_and_stored() {
    let (book, assets) = sample_book();
    let bytes = build_epub(&book, &assets).unwrap();
    let mut archive = zip::ZipArchive::new(std::io::Cursor::new(bytes)).unwrap();
    let mut first = archive.by_index(0).unwrap();
    assert_eq!(first.name(), "mimetype");
    assert_eq!(first.compression(), zip::CompressionMethod::Stored);
    let mut content = Vec::new();
    first.read_to_end(&mut content).unwrap();
    assert_eq!(content, b"application/epub+zip");
}

#[test]
fn test_refinement_chains() {
    let mut metadata = base_metadata();
    metadata.title = vec![
        Title {
            name: "Main Title".to_string(),
            ..Default::default()
        },
        Title {
            name: "Subtitle".to_string(),
            title_type: TitleType::Subtitle,
            ..Default::default()
        },
    ];
    metadata.creator = vec![Creator {
        name: "Author".to_string(),
        role: Some("aut".to_string()),
        ..Default::default()
    }];
    metadata.collection = vec![Collection {
        name: "Series Name".to_string(),
        collection_type: CollectionType::Series,
        position: Some(3),
    }];
    let book = Book {
        metadata,
        rendition: Rendition::default(),
        chapter: vec![Chapter {
            name: None,
            page: vec![page("p1.png")],
            cover: false,
        }],
    };
    let assets = vec![asset(10, 10)];
    let build = assemble(&book, &assets, "2024-01-01T00:00:00Z").unwrap();
    let opf = String::from_utf8(build.entries[2].data.clone()).unwrap();
    assert!(opf.contains("<dc:title id=\"title1\">Main Title</dc:title>"));
    assert!(opf.contains("<dc:title id=\"title2\">Subtitle</dc:title>"));
    assert!(opf.contains("<meta refines=\"#title1\" property=\"display-seq\">1</meta>"));
    assert!(opf.contains("<meta refines=\"#title2\" property=\"display-seq\">2</meta>"));
    assert!(opf.contains("<meta refines=\"#title2\" property=\"title-type\">subtitle</meta>"));
    assert!(opf.contains("<dc:creator id=\"creator1\">Author</dc:creator>"));
    assert!(opf.contains("<meta refines=\"#creator1\" property=\"display-seq\">1</meta>"));
    assert!(opf
        .contains("<meta refines=\"#creator1\" property=\"role\" scheme=\"marc:relators\">aut</meta>"));
    assert!(opf.contains("<meta property=\"belongs-to-collection\" id=\"collection1\">Series Name</meta>"));
    assert!(opf.contains("<meta refines=\"#collection1\" property=\"group-position\">3</meta>"));
    assert!(opf.contains("<meta property=\"dcterms:modified\">2024-01-01T00:00:00Z</meta>"));
    assert!(opf.contains("<meta property=\"ebpaj:guide-version\">1.1.3</meta>"));
    assert!(opf.contains("<dc:identifier id=\"unique-id\">urn:uuid:0</dc:identifier>"));
    assert!(opf.contains("page-progression-direction=\"rtl\""));
}

#[test]
fn test_round_trip_archive_layout() {
    let (book, assets) = sample_book();
    let bytes = build_epub(&book, &assets).unwrap();
    let mut archive = zip::ZipArchive::new(std::io::Cursor::new(bytes)).unwrap();
    let names: Vec<String> = (0..archive.len())
        .map(|i| archive.by_index(i).unwrap().name().to_string())
        .collect();
    assert_eq!(
        names,
        vec![
            "mimetype",
            "META-INF/container.xml",
            "item/standard.opf",
            "item/navigation-documents.xhtml",
            "item/style/default.css",
            "item/image/cover.jpg",
            "item/xhtml/p-cover.xhtml",
            "item/image/i-0001.png",
            "item/xhtml/p-0001.xhtml",
            "item/image/i-0002.png",
            "item/xhtml/p-0002.xhtml",
        ]
    );
    let mut nav = String::new();
    archive
        .by_name("item/navigation-documents.xhtml")
        .unwrap()
        .read_to_string(&mut nav)
        .unwrap();
    assert_eq!(nav.matches("<li>").count(), 2);
    assert!(nav.contains("<a href=\"xhtml/p-cover.xhtml\">表紙</a>"));
    assert!(nav.contains("<a href=\"xhtml/p-0001.xhtml\">本編</a>"));
    let mut opf = String::new();
    archive
        .by_name("item/standard.opf")
        .unwrap()
        .read_to_string(&mut opf)
        .unwrap();
    assert_eq!(opf.matches("<itemref ").count(), 3);
}

#[test]
fn test_untitled_chapter_contributes_no_nav_entry() {
    let book = Book {
        metadata: base_metadata(),
        rendition: Rendition::default(),
        chapter: vec![Chapter {
            name: None,
            page: vec![page("p1.png")],
            cover: false,
        }],
    };
    let assets = vec![asset(5, 5)];
    let cx = build_context(&book, &assets).unwrap();
    assert_eq!(cx.spine.len(), 1);
    assert!(cx.toc.is_empty());
}

#[test]
fn test_missing_language_fails_before_output() {
    let (mut book, assets) = sample_book();
    book.metadata.language = String::new();
    match build_epub(&book, &assets) {
        Err(BuildError::MissingField(f)) => assert_eq!(f, "language"),
        other => panic!("unexpected result: {:?}", other.map(|_| ())),
    }
}

#[test]
fn test_missing_identifier_fails_before_output() {
    let (mut book, assets) = sample_book();
    book.metadata.identifier = String::new();
    match build_epub(&book, &assets) {
        Err(BuildError::MissingField(f)) => assert_eq!(f, "identifier"),
        other => panic!("unexpected result: {:?}", other.map(|_| ())),
    }
}

#[test]
fn test_two_cover_chapters_fail_fast() {
    let cover = Chapter {
        name: Some("表紙".to_string()),
        page: vec![page("c1.jpg")],
        cover: true,
    };
    let mut second = cover.clone();
    second.page = vec![page("c2.jpg")];
    let book = Book {
        metadata: base_metadata(),
        rendition: Rendition::default(),
        chapter: vec![cover, second],
    };
    let assets = vec![asset(1, 1), asset(1, 1)];
    match build_context(&book, &assets) {
        Err(BuildError::DuplicateId(id)) => assert_eq!(id, "cover"),
        other => panic!("unexpected result: {:?}", other.map(|_| ())),
    }
}

#[test]
fn test_duplicate_style_href_fails_fast() {
    let style = |link: bool| Style {
        link,
        href: "book.css".to_string(),
        src: "body{}".to_string(),
    };
    let book = Book {
        metadata: base_metadata(),
        rendition: Rendition {
            style: vec![style(true), style(false)],
            ..Default::default()
        },
        chapter: vec![],
    };
    let assets = Vec::new();
    match build_context(&book, &assets) {
        Err(BuildError::DuplicateHref(h)) => assert_eq!(h, "style/book.css"),
        other => panic!("unexpected result: {:?}", other.map(|_| ())),
    }
}

#[test]
fn test_declared_styles_and_linking() {
    let book = Book {
        metadata: base_metadata(),
        rendition: Rendition {
            style: vec![
                Style {
                    link: true,
                    href: "main.css".to_string(),
                    src: "body { margin: 0 }".to_string(),
                },
                Style {
                    link: false,
                    href: "import.css".to_string(),
                    src: "p { color: black }".to_string(),
                },
            ],
            ..Default::default()
        },
        chapter: vec![Chapter {
            name: None,
            page: vec![page("p1.png")],
            cover: false,
        }],
    };
    let assets = vec![asset(4, 4)];
    let cx = build_context(&book, &assets).unwrap();
    // Both styles are packaged, ids in source order; only the linked one is
    // referenced from content documents.
    assert_eq!(cx.manifest.items[0].0, "s-0001");
    assert_eq!(cx.manifest.items[0].1.data, b"body { margin: 0 }");
    assert_eq!(cx.manifest.items[1].0, "s-0002");
    assert_eq!(cx.styles, vec!["style/main.css".to_string()]);
    let doc = String::from_utf8(cx.manifest.items[3].1.data.clone()).unwrap();
    assert!(doc.contains("<link rel=\"stylesheet\" type=\"text/css\" href=\"../style/main.css\"/>"));
    assert!(!doc.contains("import.css"));
}

#[test]
fn test_content_document_shape() {
    let (book, assets) = sample_book();
    let cx = build_context(&book, &assets).unwrap();
    // The cover page document: language, title, viewport, epub:type, image.
    let doc = String::from_utf8(cx.manifest.items[2].1.data.clone()).unwrap();
    assert!(doc.starts_with("<?xml version=\"1.0\" encoding=\"utf-8\"?>\n<!DOCTYPE html>"));
    assert!(doc.contains("xml:lang=\"ja\""));
    assert!(doc.contains("<title>Sample</title>"));
    assert!(doc.contains("<meta name=\"viewport\" content=\"width=800, height=1200\"/>"));
    assert!(doc.contains("<body epub:type=\"cover\">"));
    assert!(doc.contains("viewBox=\"0 0 800 1200\""));
    assert!(doc.contains("xlink:href=\"../image/cover.jpg\""));
    // A content page document is not tagged as cover.
    let doc2 = String::from_utf8(cx.manifest.items[4].1.data.clone()).unwrap();
    assert!(doc2.contains("<body>\n"));
    assert!(!doc2.contains("epub:type=\"cover\""));
    assert!(doc2.contains("xlink:href=\"../image/i-0001.png\""));
}

#[test]
fn test_media_types_follow_extension() {
    let (book, assets) = sample_book();
    let cx = build_context(&book, &assets).unwrap();
    assert_eq!(cx.manifest.items[1].1.media_type, "image/jpeg");
    assert_eq!(cx.manifest.items[3].1.media_type, "image/png");
    assert_eq!(cx.manifest.items[2].1.media_type, "application/xhtml+xml");
}

#[test]
fn test_orientation_warnings() {
    let mut book = Book {
        metadata: base_metadata(),
        rendition: Rendition {
            orientation: Orientation::Landscape,
            ..Default::default()
        },
        chapter: vec![Chapter {
            name: None,
            page: vec![page("tall.png"), page("wide.png")],
            cover: false,
        }],
    };
    let assets = vec![asset(100, 200), asset(200, 100)];
    let warnings = orientation_warnings(&book, &assets);
    assert_eq!(warnings, vec!["`tall.png` is a portrait page".to_string()]);
    book.rendition.orientation = Orientation::Portrait;
    let warnings = orientation_warnings(&book, &assets);
    assert_eq!(warnings, vec!["`wide.png` is a landscape page".to_string()]);
    book.rendition.orientation = Orientation::Auto;
    assert!(orientation_warnings(&book, &assets).is_empty());
}

#[test]
fn test_error_messages_name_the_offender() {
    let e = BuildError::MissingField("language".to_string());
    assert_eq!(e.message(), "missing or empty metadata field: language");
    let e = BuildError::DuplicateId("cover".to_string());
    assert_eq!(e.message(), "duplicate manifest id: cover");
}

#[test]
fn test_unknown_extension_falls_back_to_octet_stream() {
    let book = Book {
        metadata: base_metadata(),
        rendition: Rendition::default(),
        chapter: vec![Chapter {
            name: None,
            page: vec![page("scan"), page("scan.xyzzy")],
            cover: false,
        }],
    };
    let assets = vec![asset(2, 2), asset(2, 2)];
    let cx = build_context(&book, &assets).unwrap();
    assert_eq!(cx.manifest.items[1].1.media_type, "application/octet-stream");
    // No extension on the source leaves the image href bare.
    assert_eq!(cx.manifest.items[1].1.href.to_text(), "image/i-0001");
    assert_eq!(cx.manifest.items[3].1.href.to_text(), "image/i-0002.xyzzy");
}

#[test]
fn test_default_style_synthesized_and_linked() {
    let (book, assets) = sample_book();
    let cx = build_context(&book, &assets).unwrap();
    let (id, item) = &cx.manifest.items[0];
    assert_eq!(id, "s-default");
    assert_eq!(item.media_type, "text/css");
    assert_eq!(item.href.to_text(), "style/default.css");
    assert!(!item.data.is_empty());
    assert_eq!(cx.styles, vec!["style/default.css".to_string()]);
    let doc = String::from_utf8(cx.manifest.items[2].1.data.clone()).unwrap();
    assert!(doc.contains("href=\"../style/default.css\""));
}
