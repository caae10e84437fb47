//! The pages of a site and what is known of each: its file, its title, its
//! language, the path it is served under, its translations and its styles.

use crate::config::{DEFAULT_ADDRESS, DEFAULT_PAGE_404_PATH, DEFAULT_THREADS};
use crate::text::{chars_of, same_text, string_views};
use vstd::prelude::*;

verus! {

/// A page in another language.
#[derive(Clone, Debug)]
pub struct PageTranslation {
    lang: String,
    path: String,
}

/// What a translation holds.
pub struct PageTranslationView {
    pub lang: Seq<char>,
    pub path: Seq<char>,
}

#[derive(Clone, Debug)]
pub struct PageMetadata {
    filename: String,
    title: String,
    lang: String,
    path: String,
    translations: Vec<PageTranslation>,
    styles: Vec<String>,
}

/// What the metadata of a page holds.
pub struct PageMetadataView {
    pub filename: Seq<char>,
    pub title: Seq<char>,
    pub lang: Seq<char>,
    pub path: Seq<char>,
    pub translations: Seq<PageTranslationView>,
    pub styles: Seq<Seq<char>>,
}

#[derive(Clone, Debug)]
pub struct Config {
    address: String,
    threads: usize,
    verbosity: u8,
    page_404_path: String,
    pages: Vec<PageMetadata>,
}

/// What a site's metadata holds.
pub struct ConfigView {
    pub address: Seq<char>,
    pub threads: usize,
    pub verbosity: u8,
    pub page_404_path: Seq<char>,
    pub pages: Seq<PageMetadataView>,
}

/// What the metadata file gives, each key as far as it is set.
pub struct ParsedMetadata {
    pub address: Option<String>,
    pub threads: Option<usize>,
    pub page_404_path: Option<String>,
    pub pages: Option<Vec<PageMetadata>>,
}

impl View for PageTranslation {
    type V = PageTranslationView;

    closed spec fn view(&self) -> PageTranslationView {
        PageTranslationView { lang: self.lang@, path: self.path@ }
    }
}

/// What a list of translations holds.
pub open spec fn translation_views(ts: Seq<PageTranslation>) -> Seq<PageTranslationView> {
    ts.map_values(|t: PageTranslation| t@)
}

impl View for PageMetadata {
    type V = PageMetadataView;

    closed spec fn view(&self) -> PageMetadataView {
        PageMetadataView {
            filename: self.filename@,
            title: self.title@,
            lang: self.lang@,
            path: self.path@,
            translations: translation_views(self.translations@),
            styles: string_views(self.styles@),
        }
    }
}

/// What a list of pages holds.
pub open spec fn page_views(ps: Seq<PageMetadata>) -> Seq<PageMetadataView> {
    ps.map_values(|p: PageMetadata| p@)
}

impl View for Config {
    type V = ConfigView;

    closed spec fn view(&self) -> ConfigView {
        ConfigView {
            address: self.address@,
            threads: self.threads,
            verbosity: self.verbosity,
            page_404_path: self.page_404_path@,
            pages: page_views(self.pages@),
        }
    }
}

/// The metadata of a site of which nothing is known.
pub open spec fn empty_config() -> ConfigView {
    ConfigView {
        address: Seq::empty(),
        threads: 0,
        verbosity: 0,
        page_404_path: Seq::empty(),
        pages: Seq::empty(),
    }
}

/// Page `i` is the first of the list that is served under `path`.
pub open spec fn is_first_page(pages: Seq<PageMetadataView>, path: Seq<char>, i: int) -> bool {
    &&& 0 <= i < pages.len()
    &&& pages[i].path == path
    &&& forall|j: int| 0 <= j < i ==> (#[trigger] pages[j]).path != path
}

/// No page of the list is served under `path`.
pub open spec fn no_page(pages: Seq<PageMetadataView>, path: Seq<char>) -> bool {
    forall|j: int| 0 <= j < pages.len() ==> (#[trigger] pages[j]).path != path
}

/// The text that is set, or else the default.
pub open spec fn set_or(value: Option<String>, default: Seq<char>) -> Seq<char> {
    match value {
        Some(s) => s@,
        None => default,
    }
}

/// What the metadata file means.
///
/// Without a file that could be read and parsed, and without a list of
/// pages in it, nothing is known of the site. Else the address and the
/// number of threads are as set or as by default; the page for what was not
/// found is as set, or else the default one where that exists, or else
/// none; the pages are those of the list.
pub open spec fn metadata_of(parsed: Option<ParsedMetadata>, default_page_404_exists: bool) -> ConfigView {
    match parsed {
        None => empty_config(),
        Some(m) => match m.pages {
            None => empty_config(),
            Some(pages) => ConfigView {
                address: set_or(m.address, DEFAULT_ADDRESS@),
                threads: match m.threads {
                    Some(n) => n,
                    None => DEFAULT_THREADS,
                },
                verbosity: 0,
                page_404_path: set_or(
                    m.page_404_path,
                    if default_page_404_exists {
                        DEFAULT_PAGE_404_PATH@
                    } else {
                        Seq::empty()
                    },
                ),
                pages: page_views(pages@),
            },
        },
    }
}

fn copy_strings(v: &Vec<String>) -> (r: Vec<String>)
    ensures
        string_views(r@) == string_views(v@),
{
    let mut r: Vec<String> = Vec::new();
    let mut i: usize = 0;
    while i < v.len()
        invariant
            i <= v.len(),
            string_views(r@) == string_views(v@).take(i as int),
        decreases v.len() - i,
    {
        let s = v[i].clone();
        proof {
            assert(string_views(r@.push(s)) == string_views(r@).push(s@));
            assert(string_views(v@).take(i + 1) == string_views(v@).take(i as int).push(v@[i as int]@));
        }
        r.push(s);
        i += 1;
    }
    proof {
        assert(string_views(v@).take(v.len() as int) == string_views(v@));
    }
    r
}

fn copy_translations(v: &Vec<PageTranslation>) -> (r: Vec<PageTranslation>)
    ensures
        translation_views(r@) == translation_views(v@),
{
    let mut r: Vec<PageTranslation> = Vec::new();
    let mut i: usize = 0;
    while i < v.len()
        invariant
            i <= v.len(),
            translation_views(r@) == translation_views(v@).take(i as int),
        decreases v.len() - i,
    {
        let t = v[i].copy();
        proof {
            assert(translation_views(r@.push(t)) == translation_views(r@).push(t@));
            assert(translation_views(v@).take(i + 1) == translation_views(v@).take(i as int).push(
                v@[i as int]@,
            ));
        }
        r.push(t);
        i += 1;
    }
    proof {
        assert(translation_views(v@).take(v.len() as int) == translation_views(v@));
    }
    r
}

impl PageTranslation {
    pub fn new(lang: String, path: String) -> (t: PageTranslation)
        ensures
            t@ == (PageTranslationView { lang: lang@, path: path@ }),
    {
        PageTranslation { lang: lang, path: path }
    }

    /// A translation that holds what this one holds.
    pub fn copy(&self) -> (t: PageTranslation)
        ensures
            t@ == self@,
    {
        PageTranslation { lang: self.lang.clone(), path: self.path.clone() }
    }

    pub fn get_lang(&self) -> (lang: String)
        ensures
            lang@ == self@.lang,
    {
        self.lang.clone()
    }

    pub fn get_path(&self) -> (path: String)
        ensures
            path@ == self@.path,
    {
        self.path.clone()
    }
}

impl PageMetadata {
    pub fn new(
        filename: String,
        title: String,
        lang: String,
        path: String,
        translations: Vec<PageTranslation>,
        styles: Vec<String>,
    ) -> (page: PageMetadata)
        ensures
            page@ == (PageMetadataView {
                filename: filename@,
                title: title@,
                lang: lang@,
                path: path@,
                translations: translation_views(translations@),
                styles: string_views(styles@),
            }),
    {
        PageMetadata {
            filename: filename,
            title: title,
            lang: lang,
            path: path,
            translations: translations,
            styles: styles,
        }
    }

    /// Metadata that holds what this holds.
    pub fn copy(&self) -> (page: PageMetadata)
        ensures
            page@ == self@,
    {
        PageMetadata {
            filename: self.filename.clone(),
            title: self.title.clone(),
            lang: self.lang.clone(),
            path: self.path.clone(),
            translations: copy_translations(&self.translations),
            styles: copy_strings(&self.styles),
        }
    }

    pub fn get_filename(&self) -> (filename: String)
        ensures
            filename@ == self@.filename,
    {
        self.filename.clone()
    }

    pub fn get_title(&self) -> (title: String)
        ensures
            title@ == self@.title,
    {
        self.title.clone()
    }

    pub fn get_lang(&self) -> (lang: String)
        ensures
            lang@ == self@.lang,
    {
        self.lang.clone()
    }

    pub fn get_path(&self) -> (path: String)
        ensures
            path@ == self@.path,
    {
        self.path.clone()
    }

    pub fn get_translations(&self) -> (translations: Vec<PageTranslation>)
        ensures
            translation_views(translations@) == self@.translations,
    {
        copy_translations(&self.translations)
    }

    pub fn get_styles(&self) -> (styles: Vec<String>)
        ensures
            string_views(styles@) == self@.styles,
    {
        copy_strings(&self.styles)
    }
}

impl Default for Config {
    fn default() -> (c: Config)
        ensures
            c@ == empty_config(),
    {
        let c = Config {
            address: String::new(),
            threads: 0,
            verbosity: 0,
            page_404_path: String::new(),
            pages: Vec::new(),
        };
        assert(c@.pages =~= empty_config().pages);
        c
    }
}

impl Config {
    /// The metadata of a site, from what its metadata file gives; `None`
    /// stands for a file that could not be read or parsed.
    /// `default_page_404_exists` says whether the default page for what was
    /// not found is there.
    pub fn parse_metadata(parsed: Option<ParsedMetadata>, default_page_404_exists: bool) -> (c:
        Config)
        ensures
            c@ == metadata_of(parsed, default_page_404_exists),
    {
        let m = match parsed {
            Some(m) => m,
            None => {
                return Config::default();
            },
        };
        let pages = match m.pages {
            Some(p) => p,
            None => {
                return Config::default();
            },
        };
        let address = match m.address {
            Some(a) => a,
            None => DEFAULT_ADDRESS.to_owned(),
        };
        let threads = match m.threads {
            Some(n) => n,
            None => DEFAULT_THREADS,
        };
        let page_404_path = match m.page_404_path {
            Some(p) => p,
            None => if default_page_404_exists {
                DEFAULT_PAGE_404_PATH.to_owned()
            } else {
                String::new()
            },
        };
        Config {
            address: address,
            threads: threads,
            verbosity: 0,
            page_404_path: page_404_path,
            pages: pages,
        }
    }

    /// The metadata of the first page that is served under `file_path`;
    /// none where no page is.
    pub fn get_by_path(&self, file_path: &str) -> (r: Option<PageMetadata>)
        ensures
            r matches Some(page) ==> exists|i: int|
                #[trigger] is_first_page(self@.pages, file_path@, i) && page@ == self@.pages[i],
            r is None ==> no_page(self@.pages, file_path@),
    {
        let wanted = chars_of(file_path);
        let mut i: usize = 0;
        while i < self.pages.len()
            invariant
                i <= self.pages.len(),
                wanted@ == file_path@,
                forall|j: int| 0 <= j < i ==> (#[trigger] self@.pages[j]).path != file_path@,
            decreases self.pages.len() - i,
        {
            let path = chars_of(self.pages[i].path.as_str());
            proof {
                assert(self@.pages[i as int] == self.pages@[i as int]@);
            }
            if same_text(&path, &wanted) {
                let page = self.pages[i].copy();
                proof {
                    assert(is_first_page(self@.pages, file_path@, i as int));
                }
                return Some(page);
            }
            i += 1;
        }
        None
    }

    pub fn get_address(&self) -> (address: String)
        ensures
            address@ == self@.address,
    {
        self.address.clone()
    }

    pub fn get_threads(&self) -> (threads: usize)
        ensures
            threads == self@.threads,
    {
        self.threads
    }

    pub fn get_verbosity(&self) -> (verbosity: u8)
        ensures
            verbosity == self@.verbosity,
    {
        self.verbosity
    }

    pub fn get_page_404_path(&self) -> (path: String)
        ensures
            path@ == self@.page_404_path,
    {
        self.page_404_path.clone()
    }

    /// The pages in their order.
    pub fn get_pages(&self) -> (pages: Vec<PageMetadata>)
        ensures
            page_views(pages@) == self@.pages,
    {
        let mut pages: Vec<PageMetadata> = Vec::new();
        let mut i: usize = 0;
        while i < self.pages.len()
            invariant
                i <= self.pages.len(),
                page_views(pages@) == self@.pages.take(i as int),
            decreases self.pages.len() - i,
        {
            let p = self.pages[i].copy();
            proof {
                assert(page_views(pages@.push(p)) == page_views(pages@).push(p@));
                assert(self@.pages.take(i + 1) == self@.pages.take(i as int).push(
                    self.pages@[i as int]@,
                ));
            }
            pages.push(p);
            i += 1;
        }
        proof {
            assert(self@.pages.take(self.pages.len() as int) == self@.pages);
        }
        pages
    }
}

} // verus!
