use tsugumi::model::{Chapter, Page};
use tsugumi::scaffold::create_chapter;

#[test]
fn test_into_chapter() {
    let mut iter = create_chapter(
        Some("title"),
        &["cover".into(), "page1".into(), "page2".into()],
    )
    .into_iter();
    assert_eq!(
        iter.next(),
        Some(Chapter {
            name: Some("表紙".to_string()),
            page: vec![Page {
                src: "cover".into()
            }],
            cover: true,
        })
    );
    assert_eq!(
        iter.next(),
        Some(Chapter {
            name: Some("title".to_string()),
            page: vec![
                Page {
                    src: "page1".into()
                },
                Page {
                    src: "page2".into()
                }
            ],
            ..Default::default()
        })
    );
    assert_eq!(iter.next(), None);
}

#[test]
fn test_into_chapter_cover_only() {
    let mut iter = create_chapter(None, &["cover".into()]).into_iter();
    assert_eq!(
        iter.next(),
        Some(Chapter {
            name: Some("表紙".to_string()),
            page: vec![Page {
                src: "cover".into()
            }],
            cover: true,
        })
    );
    assert_eq!(iter.next(), Some(Default::default()));
    assert_eq!(iter.next(), None);
}

#[test]
fn test_into_chapter_empty() {
    let mut iter = create_chapter(None, &[]).into_iter();
    assert_eq!(iter.next(), Some(Default::default()));
    assert_eq!(iter.next(), None);
}
