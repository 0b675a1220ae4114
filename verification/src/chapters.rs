//! The book's export configuration: the site header, how a chapter is cited,
//! and the chapter list with its navigation links.
use vstd::prelude::*;
use crate::text;
use crate::paths::{file_name_of, file_stem_of, plain_file_name, plain_stem, portable, stem_of_name};
use crate::text::{
    chars_of, push_all, push_str, string_of, is_blank_of, trim_of, seq_eq, replace_in, decimal_of,
};

verus! {

pub struct SiteConfig {
    pub event: Option<String>,
    pub title: Option<String>,
    pub authors: Option<String>,
    pub index_href: Option<String>,
}

pub struct CitationConfig {
    pub authors: String,
    pub key_prefix: String,
    pub booktitle: String,
    pub title_template: String,
    pub note_template: Option<String>,
    pub year: u16,
    pub url_prefix: String,
}

pub struct ChapterNav {
    pub number: u8,
    pub source: String,
    pub short_title: String,
}

pub struct ExportConfig {
    pub site: SiteConfig,
    pub how_to_cite: CitationConfig,
    pub chapters: Vec<ChapterNav>,
}

impl Clone for SiteConfig {
    fn clone(&self) -> (res: Self)
        ensures
            res == *self,
    {
        SiteConfig {
            event: self.event.clone(),
            title: self.title.clone(),
            authors: self.authors.clone(),
            index_href: self.index_href.clone(),
        }
    }
}

impl Default for SiteConfig {
    /// A site section with nothing set.
    fn default() -> (res: Self)
        ensures
            res.event is None,
            res.title is None,
            res.authors is None,
            res.index_href is None,
    {
        SiteConfig { event: None, title: None, authors: None, index_href: None }
    }
}

pub open spec fn string_opt(o: Option<String>) -> Option<Seq<char>> {
    match o {
        Some(s) => Some(s@),
        None => None,
    }
}

// ---------------------------------------------------------------------------
// Citation templates
// ---------------------------------------------------------------------------

/// A template with `{number}` replaced by the chapter number and then
/// `{title}` by the title.
pub open spec fn chapter_template(template: Seq<char>, number: u8, title: Seq<char>) -> Seq<char> {
    text::replace(
        text::replace(template, "{number}"@, text::decimal(number as nat)),
        "{title}"@,
        title,
    )
}

pub fn apply_chapter_template(template: &str, number: u8, title: &str) -> (res: String)
    ensures
        res@ == chapter_template(template@, number, title@),
{
    proof {
        reveal_strlit("{number}");
        reveal_strlit("{title}");
    }
    let t = chars_of(template);
    let n = decimal_of(number as u64);
    let a = replace_in(&t, &chars_of("{number}"), &n);
    let b = replace_in(&a, &chars_of("{title}"), &chars_of(title));
    string_of(&b)
}

impl CitationConfig {
    /// The cited title of a chapter: the title template filled in.
    pub fn citation_title(&self, number: u8, title: &str) -> (res: String)
        ensures
            res@ == chapter_template(self.title_template@, number, title@),
    {
        apply_chapter_template(self.title_template.as_str(), number, title)
    }

    /// The citation note of a chapter: the note template filled in, when
    /// there is one.
    pub fn citation_note(&self, number: u8, title: &str) -> (res: Option<String>)
        ensures
            match self.note_template {
                Some(t) => res matches Some(r) && r@ == chapter_template(t@, number, title@),
                None => res is None,
            },
    {
        match &self.note_template {
            Some(t) => Some(apply_chapter_template(t.as_str(), number, title)),
            None => None,
        }
    }

    /// The full URL of a chapter page: the URL prefix followed by its href.
    pub fn citation_url(&self, href: &str) -> (res: String)
        ensures
            res@ == self.url_prefix@ + href@,
    {
        let mut v = chars_of(self.url_prefix.as_str());
        push_str(&mut v, href);
        string_of(&v)
    }
}

// ---------------------------------------------------------------------------
// Chapter links
// ---------------------------------------------------------------------------

pub open spec fn no_stem_message(source: Seq<char>) -> Seq<char> {
    "chapter source "@ + source + " has no file stem"@
}

/// The href of a chapter, given the file stem of its source (if it has one):
/// the stem with `.html` appended.
pub open spec fn href_from_stem(source: Seq<char>, stem: Option<Seq<char>>) -> Result<
    Seq<char>,
    Seq<char>,
> {
    match stem {
        Some(s) => Ok(s + ".html"@),
        None => Err(no_stem_message(source)),
    }
}

pub open spec fn result_view(r: Result<String, String>) -> Result<Seq<char>, Seq<char>> {
    match r {
        Ok(s) => Ok(s@),
        Err(e) => Err(e@),
    }
}

impl ChapterNav {
    /// The href of the chapter page for a given stem of its source.
    pub fn href_for_stem(&self, stem: Option<String>) -> (res: Result<String, String>)
        ensures
            result_view(res) == href_from_stem(self.source@, string_opt(stem)),
    {
        match stem {
            Some(s) => {
                let mut v = chars_of(s.as_str());
                push_str(&mut v, ".html");
                Ok(string_of(&v))
            },
            None => {
                let mut v = chars_of("chapter source ");
                push_str(&mut v, self.source.as_str());
                push_str(&mut v, " has no file stem");
                Err(string_of(&v))
            },
        }
    }

    /// The href of the chapter page: the file stem of its source with
    /// `.html` appended; an error when the source has no file stem.
    pub fn href(&self) -> (res: Result<String, String>)
        ensures
            is_href_of(self.source@, result_view(res)),
            portable(self.source@) ==> result_view(res) == href_from_stem(self.source@, plain_stem(self.source@)),
            plain_file_name(self.source@) is Some ==> result_view(res) == Ok::<Seq<char>, Seq<char>>(
                plain_href(self.source@)->0,
            ),
    {
        let stem = file_stem_of(self.source.as_str());
        let res = self.href_for_stem(stem);
        assert(href_from_stem(self.source@, string_opt(stem)) == result_view(res));
        res
    }
}

/// The href of a chapter whose source is a plain path: the stem of its file
/// name with `.html` appended.
pub open spec fn plain_href(source: Seq<char>) -> Option<Seq<char>> {
    match plain_file_name(source) {
        Some(n) => Some(stem_of_name(n) + ".html"@),
        None => None,
    }
}

/// The first chapter whose source's file name is `input_name`.
pub open spec fn first_named(input_name: Seq<char>, names: Seq<Option<Seq<char>>>) -> Option<int>
    decreases names.len(),
{
    if names.len() == 0 {
        None
    } else if names[0] == Some(input_name) {
        Some(0)
    } else {
        match first_named(input_name, names.drop_first()) {
            Some(k) => Some(k + 1),
            None => None,
        }
    }
}

pub open spec fn names_view(names: Seq<Option<String>>) -> Seq<Option<Seq<char>>> {
    Seq::new(names.len(), |k: int| string_opt(names[k]))
}

/// The position of the chapter whose source file has the input's file name.
pub fn index_for_names(input_name: Option<String>, names: &Vec<Option<String>>) -> (res: Option<
    usize,
>)
    ensures
        match input_name {
            Some(n) => match res {
                Some(k) => first_named(n@, names_view(names@)) == Some(k as int),
                None => first_named(n@, names_view(names@)) is None,
            },
            None => res is None,
        },
{
    let n = match input_name {
        Some(n) => n,
        None => return None,
    };
    let nv = chars_of(n.as_str());
    let ghost all = names_view(names@);
    let mut i: usize = 0;
    assert(all.skip(0) == all);
    while i < names.len()
        invariant
            all == names_view(names@),
            input_name == Some(n),
            nv@ == n@,
            i <= names.len(),
            first_named(n@, all.skip(i as int)) matches Some(k) ==> first_named(n@, all) == Some(
                k + i,
            ),
            first_named(n@, all.skip(i as int)) is None ==> first_named(n@, all) is None,
        decreases names.len() - i,
    {
        let ghost rest = all.skip(i as int);
        assert(rest[0] == string_opt(names@[i as int]));
        assert(rest.drop_first() == all.skip(i + 1));
        match &names[i] {
            Some(m) => {
                if seq_eq(&chars_of(m.as_str()), &nv) {
                    assert(rest[0] == Some(n@));
                    assert(first_named(n@, rest) == Some(0int));
                    return Some(i);
                }
            },
            None => {},
        }
        i += 1;
    }
    None
}

/// Whether every chapter's source is a portable path.
pub open spec fn all_portable(chapters: Seq<ChapterNav>) -> bool {
    forall|k: int| 0 <= k < chapters.len() ==> #[trigger] portable(chapters[k].source@)
}

/// Whether every chapter's source is a portable path with a file name.
pub open spec fn all_plain(chapters: Seq<ChapterNav>) -> bool {
    forall|k: int| 0 <= k < chapters.len() ==> (#[trigger] plain_file_name(chapters[k].source@)) is Some
}

/// The file names of the chapters' plain sources.
pub open spec fn plain_names(chapters: Seq<ChapterNav>) -> Seq<Option<Seq<char>>> {
    Seq::new(chapters.len(), |k: int| plain_file_name(chapters[k].source@))
}

/// The chapter that a portable input path is: the first whose source has
/// the same file name; none when the input has no file name.
pub open spec fn chapter_for(input: Seq<char>, chapters: Seq<ChapterNav>) -> Option<int> {
    match plain_file_name(input) {
        Some(n) => first_named(n, plain_names(chapters)),
        None => None,
    }
}

/// An optional index as an integer.
pub open spec fn index_view(o: Option<usize>) -> Option<int> {
    match o {
        Some(k) => Some(k as int),
        None => None,
    }
}

impl ExportConfig {
    /// The chapter that the input file is: the first whose source has the
    /// same file name.
    pub fn current_index_for_input(&self, input: &str) -> (res: Option<usize>)
        ensures
            res matches Some(k) ==> k < self.chapters.len(),
            portable(input@) && all_portable(self.chapters@) ==> index_view(res) == chapter_for(
                input@,
                self.chapters@,
            ),
    {
        let input_name = file_name_of(input);
        let mut names: Vec<Option<String>> = Vec::new();
        let mut i: usize = 0;
        while i < self.chapters.len()
            invariant
                i <= self.chapters.len(),
                names.len() == i,
                forall|j: int|
                    0 <= j < i && #[trigger] portable(self.chapters@[j].source@) ==> names_view(names@)[j]
                        == plain_file_name(self.chapters@[j].source@),
            decreases self.chapters.len() - i,
        {
            let ghost before = names@;
            names.push(file_name_of(self.chapters[i].source.as_str()));
            assert forall|j: int|
                0 <= j < i + 1 && #[trigger] portable(self.chapters@[j].source@) implies names_view(
                    names@,
                )[j] == plain_file_name(self.chapters@[j].source@) by {
                if j < i {
                    assert(names@[j] == before[j]);
                }
            }
            i += 1;
        }
        let ghost iname = string_opt(input_name);
        let res = index_for_names(input_name, &names);
        proof {
            if let Some(n) = iname {
                lemma_first_named(n, names_view(names@));
            }
            if portable(input@) && all_portable(self.chapters@) {
                assert(names_view(names@) =~= plain_names(self.chapters@));
            }
        }
        res
    }
}

pub proof fn lemma_first_named(n: Seq<char>, names: Seq<Option<Seq<char>>>)
    ensures
        first_named(n, names) matches Some(k) ==> 0 <= k < names.len() && names[k] == Some(n),
    decreases names.len(),
{
    if names.len() > 0 && names[0] != Some(n) {
        lemma_first_named(n, names.drop_first());
    }
}

// ---------------------------------------------------------------------------
// Validation
// ---------------------------------------------------------------------------

pub open spec fn config_message(path: Seq<char>, what: Seq<char>) -> Seq<char> {
    "export config "@ + path + what
}

/// An optional site field may be left out but not set to blank text.
pub open spec fn optional_field_error(path: Seq<char>, field: Seq<char>, value: Option<Seq<char>>) -> Option<Seq<char>> {
    match value {
        Some(v) => if text::is_blank(v) {
            Some(config_message(path, " has empty "@ + field))
        } else {
            None
        },
        None => None,
    }
}

pub open spec fn or_else(a: Option<Seq<char>>, b: Option<Seq<char>>) -> Option<Seq<char>> {
    match a {
        Some(_) => a,
        None => b,
    }
}

/// The first problem with the site section.
pub open spec fn site_error(site: &SiteConfig, path: Seq<char>) -> Option<Seq<char>> {
    or_else(
        optional_field_error(path, "site.event"@, string_opt(site.event)),
        or_else(
            optional_field_error(path, "site.title"@, string_opt(site.title)),
            or_else(
                optional_field_error(path, "site.authors"@, string_opt(site.authors)),
                optional_field_error(path, "site.index_href"@, string_opt(site.index_href)),
            ),
        ),
    )
}

/// The first problem with the citation section: a required field that is
/// blank, a note template that is present but blank, or a URL prefix with
/// whitespace around it.
pub open spec fn citation_error(c: &CitationConfig, path: Seq<char>) -> Option<Seq<char>> {
    if text::is_blank(c.authors@) {
        Some(config_message(path, " has empty authors"@))
    } else if text::is_blank(c.key_prefix@) {
        Some(config_message(path, " has empty key_prefix"@))
    } else if text::is_blank(c.booktitle@) {
        Some(config_message(path, " has empty booktitle"@))
    } else if text::is_blank(c.title_template@) {
        Some(config_message(path, " has empty title_template"@))
    } else if c.note_template matches Some(t) && text::is_blank(t@) {
        Some(config_message(path, " has empty note_template"@))
    } else if text::is_blank(c.url_prefix@) {
        Some(config_message(path, " has empty url_prefix"@))
    } else if text::trim(c.url_prefix@) != c.url_prefix@ {
        Some(config_message(path, " has url_prefix with surrounding whitespace"@))
    } else {
        None
    }
}

/// The problem with chapter `i`, the chapters before it being fine; `hrefs`
/// holds each chapter's href.
pub open spec fn chapter_error(
    chapters: Seq<ChapterNav>,
    hrefs: Seq<Result<Seq<char>, Seq<char>>>,
    path: Seq<char>,
    i: int,
) -> Option<Seq<char>> {
    let ch = chapters[i];
    if ch.number == 0 {
        Some(config_message(path, " contains chapter number 0"@))
    } else if text::is_blank(ch.source@) {
        Some(config_message(path, " contains a chapter with an empty source"@))
    } else if text::is_blank(ch.short_title@) {
        Some(config_message(path, " contains a chapter with an empty short_title"@))
    } else if exists|j: int| 0 <= j < i && #[trigger] chapters[j].number == ch.number {
        Some(config_message(path, " repeats chapter number "@ + text::decimal(ch.number as nat)))
    } else if exists|j: int| 0 <= j < i && #[trigger] chapters[j].source@ == ch.source@ {
        Some(config_message(path, " repeats source "@ + ch.source@))
    } else {
        match hrefs[i] {
            Err(e) => Some(e),
            Ok(h) => if exists|j: int| 0 <= j < i && #[trigger] hrefs[j] == Ok::<Seq<char>, Seq<char>>(h) {
                Some(config_message(path, " repeats derived href "@ + h))
            } else {
                None
            },
        }
    }
}

/// The first problem among the first `n` chapters.
pub open spec fn chapters_error(
    chapters: Seq<ChapterNav>,
    hrefs: Seq<Result<Seq<char>, Seq<char>>>,
    path: Seq<char>,
    n: int,
) -> Option<Seq<char>>
    decreases n,
{
    if n <= 0 {
        None
    } else {
        or_else(chapters_error(chapters, hrefs, path, n - 1), chapter_error(chapters, hrefs, path, n - 1))
    }
}

/// The first problem with the whole configuration, checked in order: site,
/// citation, an empty chapter list, then each chapter.
pub open spec fn config_error(
    cfg: &ExportConfig,
    path: Seq<char>,
    hrefs: Seq<Result<Seq<char>, Seq<char>>>,
) -> Option<Seq<char>> {
    or_else(
        site_error(&cfg.site, path),
        or_else(
            citation_error(&cfg.how_to_cite, path),
            if cfg.chapters@.len() == 0 {
                Some(config_message(path, " has no chapters"@))
            } else {
                chapters_error(cfg.chapters@, hrefs, path, cfg.chapters@.len() as int)
            },
        ),
    )
}

/// Once a chapter has a problem, later chapters do not change the first one.
pub proof fn lemma_chapters_error_stable(
    chapters: Seq<ChapterNav>,
    hrefs: Seq<Result<Seq<char>, Seq<char>>>,
    path: Seq<char>,
    n: int,
    m: int,
)
    requires
        0 <= n <= m,
        chapters_error(chapters, hrefs, path, n) is Some,
    ensures
        chapters_error(chapters, hrefs, path, m) == chapters_error(chapters, hrefs, path, n),
    decreases m - n,
{
    if m > n {
        lemma_chapters_error_stable(chapters, hrefs, path, n, m - 1);
    }
}

/// A chapter's own fields are fine and its href could be derived.
pub open spec fn chapter_fields_ok(ch: ChapterNav, h: Result<Seq<char>, Seq<char>>) -> bool {
    &&& ch.number != 0
    &&& !text::is_blank(ch.source@)
    &&& !text::is_blank(ch.short_title@)
    &&& h is Ok
}

/// The first `n` chapters each fine, with numbers, sources and hrefs that
/// are pairwise distinct.
pub open spec fn chapters_acceptable(
    chapters: Seq<ChapterNav>,
    hrefs: Seq<Result<Seq<char>, Seq<char>>>,
    n: int,
) -> bool {
    &&& forall|k: int| 0 <= k < n ==> chapter_fields_ok(#[trigger] chapters[k], hrefs[k])
    &&& forall|j: int, k: int|
        0 <= j < k < n ==> #[trigger] chapters[j].number != #[trigger] chapters[k].number
    &&& forall|j: int, k: int|
        0 <= j < k < n ==> (#[trigger] chapters[j]).source@ != (#[trigger] chapters[k]).source@
    &&& forall|j: int, k: int| 0 <= j < k < n ==> #[trigger] hrefs[j] != #[trigger] hrefs[k]
}

/// What the validation accepts: no problem with the site or citation
/// sections, at least one chapter, and the chapters acceptable.
pub open spec fn config_acceptable(
    cfg: &ExportConfig,
    path: Seq<char>,
    hrefs: Seq<Result<Seq<char>, Seq<char>>>,
) -> bool {
    &&& site_error(&cfg.site, path) is None
    &&& citation_error(&cfg.how_to_cite, path) is None
    &&& cfg.chapters@.len() > 0
    &&& chapters_acceptable(cfg.chapters@, hrefs, cfg.chapters@.len() as int)
}

proof fn lemma_chapters_error_none(
    chapters: Seq<ChapterNav>,
    hrefs: Seq<Result<Seq<char>, Seq<char>>>,
    path: Seq<char>,
    n: int,
)
    requires
        0 <= n <= chapters.len(),
        hrefs.len() == chapters.len(),
    ensures
        (chapters_error(chapters, hrefs, path, n) is None) <==> chapters_acceptable(chapters, hrefs, n),
    decreases n,
{
    if n > 0 {
        lemma_chapters_error_none(chapters, hrefs, path, n - 1);
        let i = n - 1;
        if chapters_error(chapters, hrefs, path, n - 1) is None {
            if chapter_error(chapters, hrefs, path, i) is None {
                let ch = chapters[i];
                assert(chapter_fields_ok(chapters[i], hrefs[i]));
                assert forall|j: int, k: int| 0 <= j < k < n implies #[trigger] chapters[j].number
                    != #[trigger] chapters[k].number by {
                    if k == i {
                        assert(!(0 <= j < i && chapters[j].number == ch.number));
                    }
                }
                assert forall|j: int, k: int| 0 <= j < k < n implies (#[trigger] chapters[j]).source@
                    != (#[trigger] chapters[k]).source@ by {
                    if k == i {
                        assert(!(0 <= j < i && chapters[j].source@ == ch.source@));
                    }
                }
                assert forall|j: int, k: int| 0 <= j < k < n implies #[trigger] hrefs[j]
                    != #[trigger] hrefs[k] by {
                    if k == i {
                        let h = hrefs[i]->Ok_0;
                        assert(!(0 <= j < i && hrefs[j] == Ok::<Seq<char>, Seq<char>>(h)));
                    }
                }
            } else {
                if chapters_acceptable(chapters, hrefs, n) {
                    let ch = chapters[i];
                    assert(chapter_fields_ok(chapters[i], hrefs[i]));
                    assert(forall|j: int| 0 <= j < i ==> #[trigger] chapters[j].number != ch.number
                        && chapters[j].source@ != ch.source@ && hrefs[j] != hrefs[i]);
                    assert(false);
                }
            }
        } else {
            assert(chapters_error(chapters, hrefs, path, n) is Some);
            if chapters_acceptable(chapters, hrefs, n) {
                assert(chapters_acceptable(chapters, hrefs, n - 1));
            }
        }
    }
}

/// The configuration passes validation exactly when the site and citation
/// sections have no problem, there is a chapter, every chapter has a
/// non-zero number, a non-blank source and short title and a derivable
/// href, and no two chapters share a number, a source or an href.
pub proof fn law_validation_ok_iff(
    cfg: &ExportConfig,
    path: Seq<char>,
    hrefs: Seq<Result<Seq<char>, Seq<char>>>,
)
    requires
        hrefs.len() == cfg.chapters@.len(),
    ensures
        (validation(cfg, path, hrefs) is Ok) <==> config_acceptable(cfg, path, hrefs),
{
    lemma_chapters_error_none(cfg.chapters@, hrefs, path, cfg.chapters@.len() as int);
}

pub open spec fn validation(
    cfg: &ExportConfig,
    path: Seq<char>,
    hrefs: Seq<Result<Seq<char>, Seq<char>>>,
) -> Result<(), Seq<char>> {
    match config_error(cfg, path, hrefs) {
        Some(e) => Err(e),
        None => Ok(()),
    }
}

pub open spec fn unit_result_view(r: Result<(), String>) -> Result<(), Seq<char>> {
    match r {
        Ok(()) => Ok(()),
        Err(e) => Err(e@),
    }
}

pub open spec fn results_view(v: Seq<Result<String, String>>) -> Seq<Result<Seq<char>, Seq<char>>> {
    Seq::new(v.len(), |k: int| result_view(v[k]))
}

/// `h` is the href of a chapter with this source for some file stem, and
/// for a portable source the href that its file stem gives.
pub open spec fn is_href_of(source: Seq<char>, h: Result<Seq<char>, Seq<char>>) -> bool {
    &&& exists|stem: Option<Seq<char>>| #[trigger] href_from_stem(source, stem) == h
    &&& portable(source) ==> h == href_from_stem(source, plain_stem(source))
}

/// Each chapter's href, as the file stems of the sources give them.
pub open spec fn hrefs_of(chapters: Seq<ChapterNav>, hrefs: Seq<Result<Seq<char>, Seq<char>>>) -> bool {
    &&& hrefs.len() == chapters.len()
    &&& forall|k: int| 0 <= k < chapters.len() ==> is_href_of(chapters[k].source@, #[trigger] hrefs[k])
}

fn message(path: &str, what: &str) -> (res: String)
    ensures
        res@ == config_message(path@, what@),
{
    let mut v = chars_of("export config ");
    push_str(&mut v, path);
    push_str(&mut v, what);
    string_of(&v)
}

fn message_with(path: &str, what: &str, extra: &Vec<char>) -> (res: String)
    ensures
        res@ == config_message(path@, what@ + extra@),
{
    let mut v = chars_of("export config ");
    push_str(&mut v, path);
    push_str(&mut v, what);
    push_all(&mut v, extra);
    assert(v@ =~= "export config "@ + path@ + (what@ + extra@));
    string_of(&v)
}

pub fn validate_optional_nonempty(path: &str, field: &str, value: &Option<String>) -> (res: Result<
    (),
    String,
>)
    ensures
        unit_result_view(res) == match optional_field_error(path@, field@, string_opt(*value)) {
            Some(e) => Err::<(), Seq<char>>(e),
            None => Ok(()),
        },
{
    match value {
        Some(v) => if is_blank_of(&chars_of(v.as_str())) {
            return Err(message_with(path, " has empty ", &chars_of(field)));
        },
        None => {},
    }
    Ok(())
}

impl SiteConfig {
    pub fn validate(&self, path: &str) -> (res: Result<(), String>)
        ensures
            unit_result_view(res) == match site_error(self, path@) {
                Some(e) => Err::<(), Seq<char>>(e),
                None => Ok(()),
            },
    {
        validate_optional_nonempty(path, "site.event", &self.event)?;
        validate_optional_nonempty(path, "site.title", &self.title)?;
        validate_optional_nonempty(path, "site.authors", &self.authors)?;
        validate_optional_nonempty(path, "site.index_href", &self.index_href)?;
        Ok(())
    }
}

fn blank(s: &String) -> (b: bool)
    ensures
        b == text::is_blank(s@),
{
    is_blank_of(&chars_of(s.as_str()))
}

impl CitationConfig {
    pub fn validate(&self, path: &str) -> (res: Result<(), String>)
        ensures
            unit_result_view(res) == match citation_error(self, path@) {
                Some(e) => Err::<(), Seq<char>>(e),
                None => Ok(()),
            },
    {
        if blank(&self.authors) {
            return Err(message(path, " has empty authors"));
        }
        if blank(&self.key_prefix) {
            return Err(message(path, " has empty key_prefix"));
        }
        if blank(&self.booktitle) {
            return Err(message(path, " has empty booktitle"));
        }
        if blank(&self.title_template) {
            return Err(message(path, " has empty title_template"));
        }
        let note_blank = match &self.note_template {
            Some(t) => blank(t),
            None => false,
        };
        if note_blank {
            return Err(message(path, " has empty note_template"));
        }
        if blank(&self.url_prefix) {
            return Err(message(path, " has empty url_prefix"));
        }
        let u = chars_of(self.url_prefix.as_str());
        if !seq_eq(&trim_of(&u), &u) {
            return Err(message(path, " has url_prefix with surrounding whitespace"));
        }
        Ok(())
    }
}

fn number_seen(chapters: &Vec<ChapterNav>, i: usize) -> (b: bool)
    requires
        i < chapters.len(),
    ensures
        b == exists|j: int| 0 <= j < i && #[trigger] chapters@[j].number == chapters@[i as int].number,
{
    let mut j: usize = 0;
    while j < i
        invariant
            i < chapters.len(),
            j <= i,
            forall|k: int| 0 <= k < j ==> #[trigger] chapters@[k].number != chapters@[i as int].number,
        decreases i - j,
    {
        if chapters[j].number == chapters[i].number {
            return true;
        }
        j += 1;
    }
    false
}

fn source_seen(chapters: &Vec<ChapterNav>, i: usize) -> (b: bool)
    requires
        i < chapters.len(),
    ensures
        b == exists|j: int| 0 <= j < i && #[trigger] chapters@[j].source@ == chapters@[i as int].source@,
{
    let cur = chars_of(chapters[i].source.as_str());
    let mut j: usize = 0;
    while j < i
        invariant
            i < chapters.len(),
            cur@ == chapters@[i as int].source@,
            j <= i,
            forall|k: int| 0 <= k < j ==> #[trigger] chapters@[k].source@ != chapters@[i as int].source@,
        decreases i - j,
    {
        if seq_eq(&chars_of(chapters[j].source.as_str()), &cur) {
            return true;
        }
        j += 1;
    }
    false
}

fn href_seen(hrefs: &Vec<Result<String, String>>, i: usize, h: &String) -> (b: bool)
    requires
        i <= hrefs.len(),
    ensures
        b == exists|j: int| 0 <= j < i && #[trigger] results_view(hrefs@)[j] == Ok::<Seq<char>, Seq<char>>(h@),
{
    let hv = chars_of(h.as_str());
    let mut j: usize = 0;
    while j < i
        invariant
            i <= hrefs.len(),
            hv@ == h@,
            j <= i,
            forall|k: int| 0 <= k < j ==> #[trigger] results_view(hrefs@)[k] != Ok::<Seq<char>, Seq<char>>(h@),
        decreases i - j,
    {
        let same = match &hrefs[j] {
            Ok(x) => seq_eq(&chars_of(x.as_str()), &hv),
            Err(_) => false,
        };
        assert(results_view(hrefs@)[j as int] == result_view(hrefs@[j as int]));
        if same {
            return true;
        }
        j += 1;
    }
    false
}

impl ExportConfig {
    /// Checks the configuration against the chapters' hrefs: the first
    /// problem found, in order, is the error.
    pub fn validate_with_hrefs(&self, path: &str, hrefs: &Vec<Result<String, String>>) -> (res:
        Result<(), String>)
        requires
            hrefs.len() == self.chapters.len(),
        ensures
            unit_result_view(res) == validation(self, path@, results_view(hrefs@)),
    {
        self.site.validate(path)?;
        self.how_to_cite.validate(path)?;
        if self.chapters.len() == 0 {
            return Err(message(path, " has no chapters"));
        }
        let ghost hv = results_view(hrefs@);
        let mut i: usize = 0;
        while i < self.chapters.len()
            invariant
                hrefs.len() == self.chapters.len(),
                hv == results_view(hrefs@),
                i <= self.chapters.len(),
                chapters_error(self.chapters@, hv, path@, i as int) is None,
                site_error(&self.site, path@) is None,
                citation_error(&self.how_to_cite, path@) is None,
                self.chapters@.len() > 0,
            decreases self.chapters.len() - i,
        {
            let ch = &self.chapters[i];
            let ghost err = chapter_error(self.chapters@, hv, path@, i as int);
            assert(chapters_error(self.chapters@, hv, path@, i + 1) == or_else(
                chapters_error(self.chapters@, hv, path@, i as int),
                err,
            ));
            proof {
                if err is Some {
                    lemma_chapters_error_stable(
                        self.chapters@,
                        hv,
                        path@,
                        i + 1,
                        self.chapters@.len() as int,
                    );
                }
            }
            if ch.number == 0 {
                return Err(message(path, " contains chapter number 0"));
            }
            if blank(&ch.source) {
                return Err(message(path, " contains a chapter with an empty source"));
            }
            if blank(&ch.short_title) {
                return Err(message(path, " contains a chapter with an empty short_title"));
            }
            if number_seen(&self.chapters, i) {
                return Err(
                    message_with(path, " repeats chapter number ", &decimal_of(ch.number as u64)),
                );
            }
            if source_seen(&self.chapters, i) {
                return Err(
                    message_with(path, " repeats source ", &chars_of(ch.source.as_str())),
                );
            }
            assert(hv[i as int] == result_view(hrefs@[i as int]));
            match &hrefs[i] {
                Err(e) => {
                    return Err(e.clone());
                },
                Ok(h) => {
                    if href_seen(hrefs, i, h) {
                        return Err(message_with(path, " repeats derived href ", &chars_of(h.as_str())));
                    }
                },
            }
            i += 1;
        }
        Ok(())
    }

    /// The href of every chapter, in order.
    pub fn chapter_hrefs(&self) -> (res: Vec<Result<String, String>>)
        ensures
            hrefs_of(self.chapters@, results_view(res@)),
    {
        let mut out: Vec<Result<String, String>> = Vec::new();
        let mut i: usize = 0;
        while i < self.chapters.len()
            invariant
                i <= self.chapters.len(),
                out.len() == i,
                forall|k: int|
                    0 <= k < i ==> is_href_of(self.chapters@[k].source@, result_view(#[trigger] out@[k])),
            decreases self.chapters.len() - i,
        {
            let h = self.chapters[i].href();
            out.push(h);
            i += 1;
        }
        let ghost rv = results_view(out@);
        assert forall|k: int| 0 <= k < self.chapters@.len() implies is_href_of(
            self.chapters@[k].source@,
            #[trigger] rv[k],
        ) by {
            assert(rv[k] == result_view(out@[k]));
        }
        out
    }

    /// Checks the configuration: blank fields, no chapters, chapter number
    /// 0, blank chapter fields, repeated numbers, sources or hrefs, and a
    /// source without a file stem are errors, the first found in that order.
    pub fn validate(&self, path: &str) -> (res: Result<(), String>)
        ensures
            exists|hrefs: Seq<Result<Seq<char>, Seq<char>>>|
                hrefs_of(self.chapters@, hrefs) && #[trigger] validation(self, path@, hrefs)
                    == unit_result_view(res),
    {
        let hrefs = self.chapter_hrefs();
        let res = self.validate_with_hrefs(path, &hrefs);
        assert(hrefs_of(self.chapters@, results_view(hrefs@)));
        res
    }
}

} // verus!
