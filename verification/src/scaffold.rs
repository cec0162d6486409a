//! Turning a flat list of image files into the initial chapter list of a new
//! book: the first file becomes a one-page cover chapter, the rest become one
//! content chapter named after the book.

use vstd::prelude::*;
use crate::model::{Chapter, Page};

verus! {

/// The first file becomes a cover chapter; the remaining files one content
/// chapter carrying the given title. With no files at all, the single content
/// chapter is still produced, empty.
pub fn create_chapter(title: Option<&str>, files: &[String]) -> (r: Vec<Chapter>)
    ensures
        r@.len() == if files@.len() == 0 { 1int } else { 2int },
        files@.len() > 0 ==> {
            &&& r@[0].cover == true
            &&& r@[0].name matches Some(n) && n@ == "\u{8868}\u{7d19}"@
            &&& r@[0].page@.len() == 1
            &&& r@[0].page@[0].src == files@[0]
        },
        r@.last().cover == false,
        match title {
            Some(t) => r@.last().name matches Some(n) && n@ == t@,
            None => r@.last().name is None,
        },
        r@.last().page@.len() == if files@.len() == 0 { 0int } else { files@.len() - 1 },
        forall|i: int|
            0 <= i < r@.last().page@.len() ==> r@.last().page@[i].src == files@[i + 1],
{
    let mut chapters: Vec<Chapter> = Vec::new();

    if files.len() > 0 {
        let mut cover_pages: Vec<Page> = Vec::new();
        cover_pages.push(Page { src: files[0].clone() });
        chapters.push(Chapter {
            name: Some("\u{8868}\u{7d19}".to_owned()),
            page: cover_pages,
            cover: true,
        });
    }

    let mut pages: Vec<Page> = Vec::new();
    let mut i: usize = 1;
    while i < files.len()
        invariant
            1 <= i <= files@.len() || (files@.len() == 0 && i == 1),
            pages@.len() == if i <= files@.len() { i - 1 } else { 0int },
            forall|j: int| 0 <= j < pages@.len() ==> pages@[j].src == files@[j + 1],
        decreases files@.len() - i,
    {
        pages.push(Page { src: files[i].clone() });
        i = i + 1;
    }

    let name: Option<String> = match title {
        Some(t) => Some(t.to_owned()),
        None => None,
    };
    chapters.push(Chapter { name, page: pages, cover: false });

    chapters
}

} // verus!
