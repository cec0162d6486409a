//! Manifest bookkeeping: archive-relative locations, manifest items with
//! their staged bytes, spine references, and the insertion-ordered manifest
//! itself. The manifest is keyed by id but iterated in insertion order, and
//! an insert that would repeat an id or an href fails fast instead of
//! replacing anything.

use vstd::prelude::*;
use crate::error::BuildError;
use crate::textfmt::str_eq;

verus! {

/// An archive-relative location under `item/`: a directory and a file name.
#[derive(Debug, Clone, PartialEq, Eq)]
pub struct Href(pub String, pub String);

impl Href {
    /// The location as one path, `dir/name`.
    pub open spec fn text(self) -> Seq<char> {
        self.0@ + "/"@ + self.1@
    }

    pub fn to_text(&self) -> (r: String)
        ensures
            r@ == self.text(),
    {
        let mut out = self.0.clone();
        out.append("/");
        out.append(self.1.as_str());
        out
    }
}

/// One resource of the archive: its media type, location, optional property
/// tokens, and the bytes to package.
#[derive(Debug, Clone, PartialEq, Eq)]
pub struct ManifestItem {
    pub media_type: String,
    pub href: Href,
    pub properties: Option<String>,
    pub data: Vec<u8>,
}

/// One spine reference to a manifest item.
#[derive(Debug, Clone, PartialEq, Eq)]
pub struct ItemRef {
    pub idref: String,
    pub linear: bool,
    pub properties: Option<String>,
}

/// One table-of-contents entry: the id of a chapter's first page and the
/// chapter's caption.
#[derive(Debug, Clone, PartialEq, Eq)]
pub struct TocEntry {
    pub id: String,
    pub caption: String,
}

/// Pairwise distinctness of a sequence of character sequences.
pub open spec fn distinct(s: Seq<Seq<char>>) -> bool {
    forall|i: int, j: int| 0 <= i < j < s.len() ==> s[i] != s[j]
}

/// The first item stored under an id, searching in insertion order.
pub open spec fn lookup_seq(items: Seq<(String, ManifestItem)>, id: Seq<char>) -> Option<
    ManifestItem,
>
    decreases items.len(),
{
    if items.len() == 0 {
        None
    } else if items[0].0@ == id {
        Some(items[0].1)
    } else {
        lookup_seq(items.skip(1), id)
    }
}

/// The insertion-ordered manifest: a sequence of (id, item) pairs plus a
/// linear lookup, never a hashed or sorted map, so iteration order is the
/// order items were first inserted.
#[derive(Debug, Clone, PartialEq, Eq)]
pub struct Manifest {
    pub items: Vec<(String, ManifestItem)>,
}

impl Manifest {
    pub open spec fn ids(self) -> Seq<Seq<char>> {
        Seq::new(self.items@.len(), |i: int| self.items@[i].0@)
    }

    pub open spec fn hrefs(self) -> Seq<Seq<char>> {
        Seq::new(self.items@.len(), |i: int| self.items@[i].1.href.text())
    }

    pub open spec fn has_id(self, id: Seq<char>) -> bool {
        exists|i: int| 0 <= i < self.items@.len() && self.items@[i].0@ == id
    }

    pub open spec fn has_href(self, href: Seq<char>) -> bool {
        exists|i: int| 0 <= i < self.items@.len() && self.items@[i].1.href.text() == href
    }

    /// Both id and href uniqueness are required of a well-formed manifest.
    pub open spec fn wf(self) -> bool {
        distinct(self.ids()) && distinct(self.hrefs())
    }

    pub fn new() -> (r: Manifest)
        ensures
            r.items@.len() == 0,
    {
        Manifest { items: Vec::new() }
    }

    pub fn len(&self) -> (r: usize)
        ensures
            r == self.items@.len(),
    {
        self.items.len()
    }

    /// Inserts one item, or reports the duplicate id or href that would have
    /// been silently overwritten.
    pub fn insert(&mut self, id: String, item: ManifestItem) -> (r: Result<(), BuildError>)
        ensures
            match r {
                Ok(_) => {
                    &&& !old(self).has_id(id@)
                    &&& !old(self).has_href(item.href.text())
                    &&& final(self).items@ == old(self).items@.push((id, item))
                },
                Err(e) => {
                    &&& final(self).items@ == old(self).items@
                    &&& (e matches BuildError::DuplicateId(d) ==> d@ == id@ && old(self).has_id(
                        id@,
                    ))
                    &&& (e matches BuildError::DuplicateHref(h) ==> h@ == item.href.text()
                        && !old(self).has_id(id@) && old(self).has_href(item.href.text()))
                    &&& (e is DuplicateId || e is DuplicateHref)
                },
            },
            (r is Err) == (old(self).has_id(id@) || old(self).has_href(item.href.text())),
    {
        let n = self.items.len();
        let href_text = item.href.to_text();
        let mut i: usize = 0;
        while i < n
            invariant
                i <= n,
                n == self.items@.len(),
                *self == *old(self),
                forall|k: int| 0 <= k < i ==> self.items@[k].0@ != id@,
            decreases n - i,
        {
            if str_eq(self.items[i].0.as_str(), id.as_str()) {
                return Err(BuildError::DuplicateId(id));
            }
            i = i + 1;
        }
        let mut j: usize = 0;
        while j < n
            invariant
                j <= n,
                n == self.items@.len(),
                *self == *old(self),
                href_text@ == item.href.text(),
                forall|k: int| 0 <= k < n ==> self.items@[k].0@ != id@,
                forall|k: int| 0 <= k < j ==> self.items@[k].1.href.text() != item.href.text(),
            decreases n - j,
        {
            let existing = self.items[j].1.href.to_text();
            if str_eq(existing.as_str(), href_text.as_str()) {
                return Err(BuildError::DuplicateHref(href_text));
            }
            j = j + 1;
        }
        self.items.push((id, item));
        Ok(())
    }

    /// The item stored under an id, in insertion order, if any.
    pub fn get(&self, id: &str) -> (r: Option<&ManifestItem>)
        ensures
            match r {
                Some(item) => lookup_seq(self.items@, id@) == Some(*item),
                None => lookup_seq(self.items@, id@) is None,
            },
    {
        let n = self.items.len();
        let mut i: usize = 0;
        proof {
            assert(self.items@.skip(0) =~= self.items@);
        }
        while i < n
            invariant
                i <= n,
                n == self.items@.len(),
                forall|k: int| 0 <= k < i ==> self.items@[k].0@ != id@,
                lookup_seq(self.items@, id@) == lookup_seq(self.items@.skip(i as int), id@),
            decreases n - i,
        {
            proof {
                lemma_lookup_step(self.items@, id@, i as int);
            }
            if str_eq(self.items[i].0.as_str(), id) {
                return Some(&self.items[i].1);
            }
            i = i + 1;
        }
        proof {
            assert(self.items@.skip(n as int) =~= Seq::<(String, ManifestItem)>::empty());
        }
        None
    }
}

/// Peeling one pair off the front of a lookup.
proof fn lemma_lookup_step(items: Seq<(String, ManifestItem)>, id: Seq<char>, i: int)
    requires
        0 <= i < items.len(),
    ensures
        items[i].0@ == id ==> lookup_seq(items.skip(i), id) == Some(items[i].1),
        items[i].0@ != id ==> lookup_seq(items.skip(i), id) == lookup_seq(items.skip(i + 1), id),
{
    assert(items.skip(i)[0] == items[i]);
    assert(items.skip(i).skip(1) =~= items.skip(i + 1));
}

/// A found item is the one at the (unique) index carrying the id.
pub proof fn lemma_lookup_some(items: Seq<(String, ManifestItem)>, id: Seq<char>)
    ensures
        lookup_seq(items, id) matches Some(item) ==> exists|i: int|
            0 <= i < items.len() && items[i].0@ == id && items[i].1 == item,
        lookup_seq(items, id) is None ==> forall|i: int|
            0 <= i < items.len() ==> items[i].0@ != id,
    decreases items.len(),
{
    if items.len() > 0 && items[0].0@ != id {
        lemma_lookup_some(items.skip(1), id);
        assert forall|i: int| 1 <= i < items.len() implies items.skip(1)[i - 1] == items[i] by {}
    }
}

} // verus!
