//! The book description that a build consumes: metadata, rendition settings,
//! and an ordered list of chapters holding image pages. The enums carry their
//! canonical string forms in both directions; an unknown string is a named
//! parse error, never a silent default.

use vstd::prelude::*;
use crate::textfmt::str_eq;

verus! {

/// The error for a string that names no variant of one of the model's enums.
#[derive(Debug, Clone, Copy, PartialEq, Eq)]
pub struct UnknownVariant;

#[derive(Debug, Clone, Copy, PartialEq, Eq, Structural)]
pub enum TitleType {
    Main,
    Subtitle,
    Short,
    Collection,
    Edition,
    Expanded,
}

impl TitleType {
    pub open spec fn canonical(self) -> Seq<char> {
        match self {
            TitleType::Main => "main"@,
            TitleType::Subtitle => "subtitle"@,
            TitleType::Short => "short"@,
            TitleType::Collection => "collection"@,
            TitleType::Edition => "edition"@,
            TitleType::Expanded => "expanded"@,
        }
    }

    pub fn as_str(&self) -> (r: &'static str)
        ensures
            r@ == self.canonical(),
    {
        match self {
            TitleType::Main => "main",
            TitleType::Subtitle => "subtitle",
            TitleType::Short => "short",
            TitleType::Collection => "collection",
            TitleType::Edition => "edition",
            TitleType::Expanded => "expanded",
        }
    }

    pub open spec fn of_str(s: Seq<char>) -> Option<TitleType> {
        if s == "main"@ {
            Some(TitleType::Main)
        } else if s == "subtitle"@ {
            Some(TitleType::Subtitle)
        } else if s == "short"@ {
            Some(TitleType::Short)
        } else if s == "collection"@ {
            Some(TitleType::Collection)
        } else if s == "edition"@ {
            Some(TitleType::Edition)
        } else if s == "expanded"@ {
            Some(TitleType::Expanded)
        } else {
            None
        }
    }

    pub fn from_str(s: &str) -> (r: Result<TitleType, UnknownVariant>)
        ensures
            match r {
                Ok(v) => Self::of_str(s@) == Some(v),
                Err(_) => Self::of_str(s@) is None,
            },
    {
        if str_eq(s, "main") {
            Ok(TitleType::Main)
        } else if str_eq(s, "subtitle") {
            Ok(TitleType::Subtitle)
        } else if str_eq(s, "short") {
            Ok(TitleType::Short)
        } else if str_eq(s, "collection") {
            Ok(TitleType::Collection)
        } else if str_eq(s, "edition") {
            Ok(TitleType::Edition)
        } else if str_eq(s, "expanded") {
            Ok(TitleType::Expanded)
        } else {
            Err(UnknownVariant)
        }
    }
}

/// Each title type parses back from its canonical string.
pub proof fn lemma_title_type_roundtrip(v: TitleType)
    ensures
        TitleType::of_str(v.canonical()) == Some(v),
{
    reveal_strlit("main");
    reveal_strlit("subtitle");
    reveal_strlit("short");
    reveal_strlit("collection");
    reveal_strlit("edition");
    reveal_strlit("expanded");
    assert("main"@.len() == 4 && "main"@[0] == 'm');
    assert("subtitle"@.len() == 8 && "subtitle"@[0] == 's');
    assert("short"@.len() == 5 && "short"@[0] == 's');
    assert("collection"@.len() == 10 && "collection"@[0] == 'c');
    assert("edition"@.len() == 7 && "edition"@[0] == 'e');
    assert("expanded"@.len() == 8 && "expanded"@[0] == 'e');
    assert("subtitle"@[1] == 'u' && "expanded"@[1] == 'x');
    assert("short"@[1] == 'h' && "subtitle"@[1] == 'u');
    assert("edition"@[1] == 'd' && "expanded"@[1] == 'x');
}

impl Default for TitleType {
    fn default() -> (r: TitleType)
        ensures
            r == TitleType::Main,
    {
        TitleType::Main
    }
}

#[derive(Debug, Clone, Copy, PartialEq, Eq, Structural)]
pub enum CollectionType {
    Series,
    SetGroup,
}

impl CollectionType {
    pub open spec fn canonical(self) -> Seq<char> {
        match self {
            CollectionType::Series => "series"@,
            CollectionType::SetGroup => "set"@,
        }
    }

    pub fn as_str(&self) -> (r: &'static str)
        ensures
            r@ == self.canonical(),
    {
        match self {
            CollectionType::Series => "series",
            CollectionType::SetGroup => "set",
        }
    }

    pub open spec fn of_str(s: Seq<char>) -> Option<CollectionType> {
        if s == "series"@ {
            Some(CollectionType::Series)
        } else if s == "set"@ {
            Some(CollectionType::SetGroup)
        } else {
            None
        }
    }

    pub fn from_str(s: &str) -> (r: Result<CollectionType, UnknownVariant>)
        ensures
            match r {
                Ok(v) => Self::of_str(s@) == Some(v),
                Err(_) => Self::of_str(s@) is None,
            },
    {
        if str_eq(s, "series") {
            Ok(CollectionType::Series)
        } else if str_eq(s, "set") {
            Ok(CollectionType::SetGroup)
        } else {
            Err(UnknownVariant)
        }
    }
}

/// Each collection type parses back from its canonical string.
pub proof fn lemma_collection_type_roundtrip(v: CollectionType)
    ensures
        CollectionType::of_str(v.canonical()) == Some(v),
{
    reveal_strlit("series");
    reveal_strlit("set");
    assert("series"@.len() == 6);
    assert("set"@.len() == 3);
}

#[derive(Debug, Clone, Copy, PartialEq, Eq, Structural)]
pub enum Direction {
    RightToLeft,
    LeftToRight,
}

impl Direction {
    pub open spec fn canonical(self) -> Seq<char> {
        match self {
            Direction::RightToLeft => "rtl"@,
            Direction::LeftToRight => "ltr"@,
        }
    }

    pub fn as_str(&self) -> (r: &'static str)
        ensures
            r@ == self.canonical(),
    {
        match self {
            Direction::RightToLeft => "rtl",
            Direction::LeftToRight => "ltr",
        }
    }

    pub open spec fn of_str(s: Seq<char>) -> Option<Direction> {
        if s == "rtl"@ {
            Some(Direction::RightToLeft)
        } else if s == "ltr"@ {
            Some(Direction::LeftToRight)
        } else {
            None
        }
    }

    pub fn from_str(s: &str) -> (r: Result<Direction, UnknownVariant>)
        ensures
            match r {
                Ok(v) => Self::of_str(s@) == Some(v),
                Err(_) => Self::of_str(s@) is None,
            },
    {
        if str_eq(s, "rtl") {
            Ok(Direction::RightToLeft)
        } else if str_eq(s, "ltr") {
            Ok(Direction::LeftToRight)
        } else {
            Err(UnknownVariant)
        }
    }
}

/// Each direction parses back from its canonical string.
pub proof fn lemma_direction_roundtrip(v: Direction)
    ensures
        Direction::of_str(v.canonical()) == Some(v),
{
    reveal_strlit("rtl");
    reveal_strlit("ltr");
    assert("rtl"@[0] == 'r' && "rtl"@.len() == 3);
    assert("ltr"@[0] == 'l' && "ltr"@.len() == 3);
}

impl Default for Direction {
    fn default() -> (r: Direction)
        ensures
            r == Direction::RightToLeft,
    {
        Direction::RightToLeft
    }
}

#[derive(Debug, Clone, Copy, PartialEq, Eq, Structural)]
pub enum Layout {
    Reflowable,
    PrePaginated,
}

impl Layout {
    pub open spec fn canonical(self) -> Seq<char> {
        match self {
            Layout::Reflowable => "reflowable"@,
            Layout::PrePaginated => "pre-paginated"@,
        }
    }

    pub fn as_str(&self) -> (r: &'static str)
        ensures
            r@ == self.canonical(),
    {
        match self {
            Layout::Reflowable => "reflowable",
            Layout::PrePaginated => "pre-paginated",
        }
    }

    pub open spec fn of_str(s: Seq<char>) -> Option<Layout> {
        if s == "reflowable"@ {
            Some(Layout::Reflowable)
        } else if s == "pre-paginated"@ {
            Some(Layout::PrePaginated)
        } else {
            None
        }
    }

    pub fn from_str(s: &str) -> (r: Result<Layout, UnknownVariant>)
        ensures
            match r {
                Ok(v) => Self::of_str(s@) == Some(v),
                Err(_) => Self::of_str(s@) is None,
            },
    {
        if str_eq(s, "reflowable") {
            Ok(Layout::Reflowable)
        } else if str_eq(s, "pre-paginated") {
            Ok(Layout::PrePaginated)
        } else {
            Err(UnknownVariant)
        }
    }
}

/// Each layout parses back from its canonical string.
pub proof fn lemma_layout_roundtrip(v: Layout)
    ensures
        Layout::of_str(v.canonical()) == Some(v),
{
    reveal_strlit("reflowable");
    reveal_strlit("pre-paginated");
    assert("reflowable"@.len() == 10);
    assert("pre-paginated"@.len() == 13);
}

impl Default for Layout {
    fn default() -> (r: Layout)
        ensures
            r == Layout::PrePaginated,
    {
        Layout::PrePaginated
    }
}

#[derive(Debug, Clone, Copy, PartialEq, Eq, Structural)]
pub enum Orientation {
    Landscape,
    Portrait,
    Auto,
}

impl Orientation {
    pub open spec fn canonical(self) -> Seq<char> {
        match self {
            Orientation::Landscape => "landscape"@,
            Orientation::Portrait => "portrait"@,
            Orientation::Auto => "auto"@,
        }
    }

    pub fn as_str(&self) -> (r: &'static str)
        ensures
            r@ == self.canonical(),
    {
        match self {
            Orientation::Landscape => "landscape",
            Orientation::Portrait => "portrait",
            Orientation::Auto => "auto",
        }
    }

    pub open spec fn of_str(s: Seq<char>) -> Option<Orientation> {
        if s == "landscape"@ {
            Some(Orientation::Landscape)
        } else if s == "portrait"@ {
            Some(Orientation::Portrait)
        } else if s == "auto"@ {
            Some(Orientation::Auto)
        } else {
            None
        }
    }

    pub fn from_str(s: &str) -> (r: Result<Orientation, UnknownVariant>)
        ensures
            match r {
                Ok(v) => Self::of_str(s@) == Some(v),
                Err(_) => Self::of_str(s@) is None,
            },
    {
        if str_eq(s, "landscape") {
            Ok(Orientation::Landscape)
        } else if str_eq(s, "portrait") {
            Ok(Orientation::Portrait)
        } else if str_eq(s, "auto") {
            Ok(Orientation::Auto)
        } else {
            Err(UnknownVariant)
        }
    }
}

/// Each orientation parses back from its canonical string.
pub proof fn lemma_orientation_roundtrip(v: Orientation)
    ensures
        Orientation::of_str(v.canonical()) == Some(v),
{
    reveal_strlit("landscape");
    reveal_strlit("portrait");
    reveal_strlit("auto");
    assert("landscape"@.len() == 9);
    assert("portrait"@.len() == 8);
    assert("auto"@.len() == 4);
}

impl Default for Orientation {
    fn default() -> (r: Orientation)
        ensures
            r == Orientation::Auto,
    {
        Orientation::Auto
    }
}

#[derive(Debug, Clone, Copy, PartialEq, Eq, Structural)]
pub enum Spread {
    NoSpread,
    Landscape,
    Both,
    Auto,
}

impl Spread {
    pub open spec fn canonical(self) -> Seq<char> {
        match self {
            Spread::NoSpread => "none"@,
            Spread::Landscape => "landscape"@,
            Spread::Both => "both"@,
            Spread::Auto => "auto"@,
        }
    }

    pub fn as_str(&self) -> (r: &'static str)
        ensures
            r@ == self.canonical(),
    {
        match self {
            Spread::NoSpread => "none",
            Spread::Landscape => "landscape",
            Spread::Both => "both",
            Spread::Auto => "auto",
        }
    }

    pub open spec fn of_str(s: Seq<char>) -> Option<Spread> {
        if s == "none"@ {
            Some(Spread::NoSpread)
        } else if s == "landscape"@ {
            Some(Spread::Landscape)
        } else if s == "both"@ {
            Some(Spread::Both)
        } else if s == "auto"@ {
            Some(Spread::Auto)
        } else {
            None
        }
    }

    pub fn from_str(s: &str) -> (r: Result<Spread, UnknownVariant>)
        ensures
            match r {
                Ok(v) => Self::of_str(s@) == Some(v),
                Err(_) => Self::of_str(s@) is None,
            },
    {
        if str_eq(s, "none") {
            Ok(Spread::NoSpread)
        } else if str_eq(s, "landscape") {
            Ok(Spread::Landscape)
        } else if str_eq(s, "both") {
            Ok(Spread::Both)
        } else if str_eq(s, "auto") {
            Ok(Spread::Auto)
        } else {
            Err(UnknownVariant)
        }
    }
}

/// Each spread setting parses back from its canonical string.
pub proof fn lemma_spread_roundtrip(v: Spread)
    ensures
        Spread::of_str(v.canonical()) == Some(v),
{
    reveal_strlit("none");
    reveal_strlit("landscape");
    reveal_strlit("both");
    reveal_strlit("auto");
    assert("none"@.len() == 4 && "none"@[0] == 'n');
    assert("landscape"@.len() == 9);
    assert("both"@.len() == 4 && "both"@[0] == 'b');
    assert("auto"@.len() == 4 && "auto"@[0] == 'a');
}

impl Default for Spread {
    fn default() -> (r: Spread)
        ensures
            r == Spread::Auto,
    {
        Spread::Auto
    }
}

#[derive(Debug, Clone, PartialEq, Eq)]
pub struct Title {
    pub name: String,
    pub title_type: TitleType,
    pub alternate_script: Option<String>,
    pub file_as: Option<String>,
}

impl Default for Title {
    fn default() -> (r: Title)
        ensures
            r.name@ == Seq::<char>::empty(),
            r.title_type == TitleType::Main,
            r.alternate_script is None,
            r.file_as is None,
    {
        Title {
            name: String::new(),
            title_type: TitleType::Main,
            alternate_script: None,
            file_as: None,
        }
    }
}

#[derive(Debug, Clone, PartialEq, Eq)]
pub struct Creator {
    pub name: String,
    pub role: Option<String>,
    pub alternate_script: Option<String>,
    pub file_as: Option<String>,
}

impl Default for Creator {
    fn default() -> (r: Creator)
        ensures
            r.name@ == Seq::<char>::empty(),
            r.role is None,
            r.alternate_script is None,
            r.file_as is None,
    {
        Creator { name: String::new(), role: None, alternate_script: None, file_as: None }
    }
}

#[derive(Debug, Clone, PartialEq, Eq)]
pub struct Collection {
    pub name: String,
    pub collection_type: CollectionType,
    pub position: Option<u32>,
}

#[derive(Debug, Clone, PartialEq, Eq)]
pub struct Style {
    pub link: bool,
    pub href: String,
    pub src: String,
}

impl Default for Style {
    fn default() -> (r: Style)
        ensures
            r.link == false,
            r.href@ == Seq::<char>::empty(),
            r.src@ == Seq::<char>::empty(),
    {
        Style { link: false, href: String::new(), src: String::new() }
    }
}

#[derive(Debug, Clone, PartialEq, Eq)]
pub struct Metadata {
    pub title: Vec<Title>,
    pub creator: Vec<Creator>,
    pub contributor: Vec<Creator>,
    pub collection: Vec<Collection>,
    pub language: String,
    pub identifier: String,
}

impl Default for Metadata {
    fn default() -> (r: Metadata)
        ensures
            r.title@.len() == 0,
            r.creator@.len() == 0,
            r.contributor@.len() == 0,
            r.collection@.len() == 0,
            r.language@ == Seq::<char>::empty(),
            r.identifier@ == Seq::<char>::empty(),
    {
        Metadata {
            title: Vec::new(),
            creator: Vec::new(),
            contributor: Vec::new(),
            collection: Vec::new(),
            language: String::new(),
            identifier: String::new(),
        }
    }
}

#[derive(Debug, Clone, PartialEq, Eq)]
pub struct Rendition {
    pub direction: Direction,
    pub layout: Layout,
    pub orientation: Orientation,
    pub spread: Spread,
    pub style: Vec<Style>,
}

impl Default for Rendition {
    fn default() -> (r: Rendition)
        ensures
            r.direction == Direction::RightToLeft,
            r.layout == Layout::PrePaginated,
            r.orientation == Orientation::Auto,
            r.spread == Spread::Auto,
            r.style@.len() == 0,
    {
        Rendition {
            direction: Direction::RightToLeft,
            layout: Layout::PrePaginated,
            orientation: Orientation::Auto,
            spread: Spread::Auto,
            style: Vec::new(),
        }
    }
}

#[derive(Debug, Clone, PartialEq, Eq)]
pub struct Page {
    pub src: String,
}

impl Default for Page {
    fn default() -> (r: Page)
        ensures
            r.src@ == Seq::<char>::empty(),
    {
        Page { src: String::new() }
    }
}

#[derive(Debug, Clone, PartialEq, Eq)]
pub struct Chapter {
    pub name: Option<String>,
    pub page: Vec<Page>,
    pub cover: bool,
}

impl Default for Chapter {
    fn default() -> (r: Chapter)
        ensures
            r.name is None,
            r.page@.len() == 0,
            r.cover == false,
    {
        Chapter { name: None, page: Vec::new(), cover: false }
    }
}

#[derive(Debug, Clone, PartialEq, Eq)]
pub struct Book {
    pub metadata: Metadata,
    pub rendition: Rendition,
    pub chapter: Vec<Chapter>,
}

impl Default for Book {
    fn default() -> (r: Book)
        ensures
            r.metadata.title@.len() == 0,
            r.chapter@.len() == 0,
    {
        Book { metadata: Default::default(), rendition: Default::default(), chapter: Vec::new() }
    }
}

} // verus!
