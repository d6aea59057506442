use vstd::prelude::*;
use vstd::utf8::encode_utf8;
use crate::assemble::{article_filename, lemma_reading_order, pages_of, Container, Resource, ResourceKind};
use crate::text::decimal;

verus! {

#[verifier::external_type_specification]
#[verifier::external_body]
pub struct ExEpubError(epub_builder::Error);

#[verifier::external_type_specification]
#[verifier::external_body]
pub struct ExZipLibrary(epub_builder::ZipLibrary);

/// An EPUB being written, in memory.
#[verifier::external_body]
pub struct EpubDraft {
    builder: epub_builder::EpubBuilder<epub_builder::ZipLibrary>,
}

/// The pages of the draft's spine, in reading order: file name (relative to the
/// content directory) and title.
pub uninterp spec fn draft_spine(d: EpubDraft) -> Seq<(Seq<char>, Seq<char>)>;

/// The files written into the draft's content directory, by relative name.
pub uninterp spec fn draft_files(d: EpubDraft) -> Map<Seq<char>, Seq<u8>>;

/// The files of the draft marked as cover image: relative name and media type.
pub uninterp spec fn draft_covers(d: EpubDraft) -> Seq<(Seq<char>, Seq<char>)>;

/// The draft's title metadata.
pub uninterp spec fn draft_title(d: EpubDraft) -> Seq<char>;

/// The draft's author metadata, in order.
pub uninterp spec fn draft_authors(d: EpubDraft) -> Seq<Seq<char>>;

/// A file name made of ASCII letters, digits, `.`, `_` and `-`, not starting with
/// `.`: one the archive takes as it is.
pub open spec fn plain_name(s: Seq<char>) -> bool {
    &&& s.len() > 0
    &&& s[0] != '.'
    &&& forall|i: int| 0 <= i < s.len() ==> plain_char(#[trigger] s[i])
}

pub open spec fn plain_char(c: char) -> bool {
    ('a' <= c && c <= 'z') || ('A' <= c && c <= 'Z') || ('0' <= c && c <= '9') || c == '.' || c == '_' || c == '-'
}

/// A file content the archive stores without its large-file option: deflate may
/// make an entry slightly larger than its content, and the archive refuses an entry
/// whose stored size passes 0xffff_ffff, so this leaves room for that growth.
pub open spec fn small(b: Seq<u8>) -> bool {
    b.len() < 0xff00_0000
}

/// Why a container could not be written.
pub struct WriteError {
    pub message: String,
}

/// Relies on epub_builder::ZipLibrary::new, for an in-memory archive: it writes the
/// `mimetype` entry into a fresh archive in memory, which the archive does not refuse.
#[verifier::external_body]
fn new_zip() -> (r: Result<epub_builder::ZipLibrary, epub_builder::Error>)
    ensures
        r is Ok,
{
    epub_builder::ZipLibrary::new()
}

/// Relies on epub_builder::EpubBuilder::new: a new builder writes its two fixed
/// `META-INF` entries, which a fresh archive does not refuse, and has no content
/// files and default metadata, with no author.
#[verifier::external_body]
fn new_draft(zip: epub_builder::ZipLibrary) -> (r: Result<EpubDraft, epub_builder::Error>)
    ensures
        r is Ok,
        r matches Ok(d) ==> {
            &&& draft_spine(d) == Seq::<(Seq<char>, Seq<char>)>::empty()
            &&& draft_files(d) == Map::<Seq<char>, Seq<u8>>::empty()
            &&& draft_covers(d) == Seq::<(Seq<char>, Seq<char>)>::empty()
            &&& draft_authors(d) == Seq::<Seq<char>>::empty()
        },
{
    Ok(EpubDraft { builder: epub_builder::EpubBuilder::new(zip)? })
}

/// Relies on epub_builder::EpubBuilder::metadata: `title` sets the title, `author`
/// adds an author (an empty one clears them); neither fails, and no file is added.
#[verifier::external_body]
fn set_metadata(d: &mut EpubDraft, key: &str, value: &str) -> (r: Result<(), epub_builder::Error>)
    ensures
        draft_spine(*final(d)) == draft_spine(*old(d)),
        draft_files(*final(d)) == draft_files(*old(d)),
        draft_covers(*final(d)) == draft_covers(*old(d)),
        key@ == "title"@ ==> r is Ok && draft_title(*final(d)) == value@ && draft_authors(*final(d))
            == draft_authors(*old(d)),
        key@ == "author"@ ==> r is Ok && draft_title(*final(d)) == draft_title(*old(d)) && draft_authors(
            *final(d),
        ) == (if value@.len() == 0 {
            Seq::<Seq<char>>::empty()
        } else {
            draft_authors(*old(d)).push(value@)
        }),
{
    d.builder.metadata(key, value)?;
    Ok(())
}

/// Relies on epub_builder::EpubBuilder::add_cover_image: the image is written as
/// `cover.jpg` and marked as cover with media type `image/jpeg`, not as a spine
/// item; the archive refuses only a name it already holds.
#[verifier::external_body]
fn add_cover_image(d: &mut EpubDraft, image: Vec<u8>) -> (r: Result<(), epub_builder::Error>)
    ensures
        draft_spine(*final(d)) == draft_spine(*old(d)),
        draft_title(*final(d)) == draft_title(*old(d)),
        draft_authors(*final(d)) == draft_authors(*old(d)),
        !draft_files(*old(d)).contains_key("cover.jpg"@) && small(image@) ==> r is Ok,
        r is Ok ==> draft_files(*final(d)) == draft_files(*old(d)).insert("cover.jpg"@, image@)
            && draft_covers(*final(d)) == draft_covers(*old(d)).push(("cover.jpg"@, "image/jpeg"@)),
{
    d.builder.add_cover_image("cover.jpg", std::io::Cursor::new(image), "image/jpeg")?;
    Ok(())
}

/// Relies on epub_builder::EpubBuilder::stylesheet: the text is written as
/// `stylesheet.css`, not as a spine item; the archive refuses only a name it
/// already holds.
#[verifier::external_body]
fn set_stylesheet(d: &mut EpubDraft, css: &str) -> (r: Result<(), epub_builder::Error>)
    ensures
        draft_spine(*final(d)) == draft_spine(*old(d)),
        draft_title(*final(d)) == draft_title(*old(d)),
        draft_authors(*final(d)) == draft_authors(*old(d)),
        draft_covers(*final(d)) == draft_covers(*old(d)),
        !draft_files(*old(d)).contains_key("stylesheet.css"@) && small(encode_utf8(css@)) ==> r is Ok,
        r is Ok ==> draft_files(*final(d)) == draft_files(*old(d)).insert("stylesheet.css"@, encode_utf8(css@)),
{
    d.builder.stylesheet(css.as_bytes())?;
    Ok(())
}

/// Relies on epub_builder::EpubBuilder::add_content: on success the page is written
/// under its file name and becomes the last spine item, with its title; on failure
/// no spine item is added. The archive refuses only a name it already holds.
#[verifier::external_body]
fn add_page(d: &mut EpubDraft, page: &Resource) -> (r: Result<(), epub_builder::Error>)
    ensures
        draft_title(*final(d)) == draft_title(*old(d)),
        draft_authors(*final(d)) == draft_authors(*old(d)),
        draft_covers(*final(d)) == draft_covers(*old(d)),
        plain_name(page.filename@) && !draft_files(*old(d)).contains_key(page.filename@) && small(
            encode_utf8(page.xhtml@),
        ) ==> r is Ok,
        r is Ok ==> draft_spine(*final(d)) == draft_spine(*old(d)).push((page.filename@, page.title@))
            && draft_files(*final(d)) == draft_files(*old(d)).insert(page.filename@, encode_utf8(page.xhtml@)),
        r is Err ==> draft_spine(*final(d)) == draft_spine(*old(d)),
{
    let reftype = match page.kind {
        ResourceKind::Cover => epub_builder::ReferenceType::Cover,
        ResourceKind::Toc => epub_builder::ReferenceType::Toc,
        ResourceKind::Text => epub_builder::ReferenceType::Text,
    };
    let content = epub_builder::EpubContent::new(page.filename.as_str(), page.xhtml.as_bytes());
    d.builder.add_content(content.title(page.title.as_str()).reftype(reftype))?;
    Ok(())
}

/// Relies on epub_builder::EpubBuilder::generate, writing into memory.
#[verifier::external_body]
fn generate(d: EpubDraft) -> (r: Result<Vec<u8>, epub_builder::Error>) {
    let mut bytes: Vec<u8> = Vec::new();
    d.builder.generate(&mut bytes)?;
    Ok(bytes)
}

/// Relies on the Display impl of epub_builder::Error, for the message.
#[verifier::external_body]
fn error_message(e: epub_builder::Error) -> (r: WriteError) {
    WriteError { message: e.to_string() }
}

/// Plain, distinct file names other than those of the cover and the stylesheet.
pub open spec fn names_fit(resources: Seq<Resource>) -> bool {
    &&& forall|i: int|
        0 <= i < resources.len() ==> {
            &&& plain_name(#[trigger] resources[i].filename@)
            &&& resources[i].filename@ != "cover.jpg"@
            &&& resources[i].filename@ != "stylesheet.css"@
        }
    &&& forall|i: int, j: int|
        0 <= i < j < resources.len() ==> #[trigger] resources[i].filename@ != #[trigger] resources[j].filename@
}

/// Resources the archive takes: names that fit, and contents within the size the
/// archive stores.
pub open spec fn writable(resources: Seq<Resource>) -> bool {
    &&& names_fit(resources)
    &&& forall|i: int| 0 <= i < resources.len() ==> small(encode_utf8(#[trigger] resources[i].xhtml@))
}

/// Everything the container asks of the archive fits it.
pub open spec fn fits(c: Container, cover: Option<Vec<u8>>) -> bool {
    &&& writable(c.resources@)
    &&& small(encode_utf8(c.stylesheet@))
    &&& cover matches Some(b) ==> small(b@)
}

/// A draft with nothing in it yet.
pub open spec fn fresh(d: EpubDraft) -> bool {
    &&& draft_spine(d) == Seq::<(Seq<char>, Seq<char>)>::empty()
    &&& draft_files(d) == Map::<Seq<char>, Seq<u8>>::empty()
    &&& draft_covers(d) == Seq::<(Seq<char>, Seq<char>)>::empty()
    &&& draft_authors(d) == Seq::<Seq<char>>::empty()
}

pub open spec fn authors_of(author: Seq<char>) -> Seq<Seq<char>> {
    if author.len() == 0 {
        Seq::empty()
    } else {
        seq![author]
    }
}

pub open spec fn covers_of(cover: Option<Vec<u8>>) -> Seq<(Seq<char>, Seq<char>)> {
    match cover {
        Some(_) => seq![("cover.jpg"@, "image/jpeg"@)],
        None => Seq::empty(),
    }
}

/// The files a filled draft holds: the stylesheet, the cover image where one is
/// given, and each resource's page.
pub open spec fn holds_files(d: EpubDraft, c: Container, cover: Option<Vec<u8>>) -> bool {
    &&& draft_files(d).contains_key("stylesheet.css"@)
    &&& draft_files(d)["stylesheet.css"@] == encode_utf8(c.stylesheet@)
    &&& cover matches Some(b) ==> draft_files(d).contains_key("cover.jpg"@) && draft_files(d)["cover.jpg"@] == b@
    &&& forall|i: int|
        0 <= i < c.resources.len() ==> draft_files(d).contains_key(#[trigger] c.resources[i].filename@)
            && draft_files(d)[c.resources[i].filename@] == encode_utf8(c.resources[i].xhtml@)
}

/// Fills a fresh draft from an assembled container: title and author, the cover
/// image where one was fetched, the stylesheet, then every resource in order. It
/// succeeds whenever the container fits the archive; on success the metadata, the
/// cover and the spine are the container's, and where it fits, so are the files.
pub fn fill_draft(d: &mut EpubDraft, c: &Container, cover: Option<Vec<u8>>) -> (r: Result<(), WriteError>)
    requires
        fresh(*old(d)),
    ensures
        fits(*c, cover) ==> r is Ok && holds_files(*final(d), *c, cover),
        r is Ok ==> {
            &&& draft_title(*final(d)) == c.title@
            &&& draft_authors(*final(d)) == authors_of(c.author@)
            &&& draft_covers(*final(d)) == covers_of(cover)
            &&& draft_spine(*final(d)) == pages_of(c.resources@)
        },
{
    let ghost ok = fits(*c, cover);
    let ghost cov = cover;
    if let Err(e) = set_metadata(d, "title", c.title.as_str()) {
        return Err(error_message(e));
    }
    if let Err(e) = set_metadata(d, "author", c.author.as_str()) {
        return Err(error_message(e));
    }
    assert(draft_authors(*d) =~= authors_of(c.author@));
    if let Some(image) = cover {
        if let Err(e) = add_cover_image(d, image) {
            return Err(error_message(e));
        }
    }
    assert(draft_covers(*d) =~= covers_of(cov));
    proof {
        reveal_strlit("cover.jpg");
        reveal_strlit("stylesheet.css");
        assert("cover.jpg"@ != "stylesheet.css"@) by {
            assert("cover.jpg"@[0] != "stylesheet.css"@[0]);
        }
        assert(ok ==> !draft_files(*d).contains_key("stylesheet.css"@));
    }
    if let Err(e) = set_stylesheet(d, c.stylesheet.as_str()) {
        return Err(error_message(e));
    }
    let n = c.resources.len();
    proof {
        if ok {
            assert forall|j: int| 0 <= j < n implies !draft_files(*d).contains_key(
                #[trigger] c.resources[j].filename@,
            ) by {
                assert(plain_name(c.resources@[j].filename@));
            }
        }
    }
    let mut i: usize = 0;
    while i < n
        invariant
            i <= n == c.resources.len(),
            ok == fits(*c, cov),
            cov == cover,
            draft_spine(*d) == pages_of(c.resources@).subrange(0, i as int),
            draft_title(*d) == c.title@,
            draft_authors(*d) == authors_of(c.author@),
            draft_covers(*d) == covers_of(cov),
            ok ==> {
                &&& draft_files(*d).contains_key("stylesheet.css"@)
                &&& draft_files(*d)["stylesheet.css"@] == encode_utf8(c.stylesheet@)
                &&& cov matches Some(b) ==> draft_files(*d).contains_key("cover.jpg"@) && draft_files(*d)["cover.jpg"@] == b@
                &&& forall|j: int|
                    0 <= j < i ==> draft_files(*d).contains_key(#[trigger] c.resources[j].filename@)
                        && draft_files(*d)[c.resources[j].filename@] == encode_utf8(c.resources[j].xhtml@)
                &&& forall|j: int| i <= j < n ==> !draft_files(*d).contains_key(#[trigger] c.resources[j].filename@)
            },
        decreases n - i,
    {
        proof {
            if ok {
                assert(plain_name(c.resources@[i as int].filename@));
                assert(!draft_files(*d).contains_key(c.resources[i as int].filename@));
                assert(small(encode_utf8(c.resources@[i as int].xhtml@)));
            }
        }
        if let Err(e) = add_page(d, &c.resources[i]) {
            return Err(error_message(e));
        }
        assert(pages_of(c.resources@).subrange(0, i + 1) =~= pages_of(c.resources@).subrange(0, i as int).push(
            (c.resources@[i as int].filename@, c.resources@[i as int].title@),
        ));
        proof {
            if ok {
                assert forall|j: int| 0 <= j < i + 1 implies draft_files(*d).contains_key(
                    #[trigger] c.resources[j].filename@,
                ) && draft_files(*d)[c.resources[j].filename@] == encode_utf8(c.resources[j].xhtml@) by {
                    if j < i {
                        assert(c.resources[j].filename@ != c.resources[i as int].filename@);
                    }
                }
                assert forall|j: int| i + 1 <= j < n implies !draft_files(*d).contains_key(
                    #[trigger] c.resources[j].filename@,
                ) by {
                    assert(c.resources[i as int].filename@ != c.resources[j].filename@);
                }
            }
        }
        i = i + 1;
    }
    assert(pages_of(c.resources@).subrange(0, n as int) =~= pages_of(c.resources@));
    Ok(())
}

proof fn lemma_decimal_plain(n: nat)
    ensures
        forall|i: int| 0 <= i < decimal(n).len() ==> '0' <= #[trigger] decimal(n)[i] && decimal(n)[i] <= '9',
    decreases n,
{
    if n >= 10 {
        lemma_decimal_plain(n / 10);
        assert forall|i: int| 0 <= i < decimal(n).len() implies '0' <= #[trigger] decimal(n)[i] && decimal(n)[i] <= '9' by {
            if i < decimal(n / 10).len() {
                assert(decimal(n)[i] == decimal(n / 10)[i]);
            }
        }
    }
}

/// The spine an assembled container gives (`title.xhtml`, `toc.xhtml`, then
/// `article{i}.xhtml` for each article in order) has names the archive takes, so
/// writing it fails only where a page is too large.
pub proof fn lemma_assembled_names_fit(rs: Seq<Resource>)
    requires
        rs.len() >= 2,
        rs[0].filename@ == "title.xhtml"@,
        rs[1].filename@ == "toc.xhtml"@,
        forall|i: int| 2 <= i < rs.len() ==> (#[trigger] rs[i]).filename@ == article_filename((i - 2) as nat),
    ensures
        names_fit(rs),
{
    reveal_strlit("title.xhtml");
    reveal_strlit("toc.xhtml");
    reveal_strlit("cover.jpg");
    reveal_strlit("stylesheet.css");
    reveal_strlit("article");
    reveal_strlit(".xhtml");
    let title = seq!['t', 'i', 't', 'l', 'e', '.', 'x', 'h', 't', 'm', 'l'];
    let toc = seq!['t', 'o', 'c', '.', 'x', 'h', 't', 'm', 'l'];
    let art = seq!['a', 'r', 't', 'i', 'c', 'l', 'e'];
    let ext = seq!['.', 'x', 'h', 't', 'm', 'l'];
    assert("title.xhtml"@ =~= title);
    assert("toc.xhtml"@ =~= toc);
    assert("article"@ =~= art);
    assert(".xhtml"@ =~= ext);
    assert forall|m: int| 0 <= m < 11 implies plain_char(#[trigger] title[m]) by {
        assert(m == 0 || m == 1 || m == 2 || m == 3 || m == 4 || m == 5 || m == 6 || m == 7 || m == 8 || m == 9 || m == 10);
    }
    assert forall|m: int| 0 <= m < 9 implies plain_char(#[trigger] toc[m]) by {
        assert(m == 0 || m == 1 || m == 2 || m == 3 || m == 4 || m == 5 || m == 6 || m == 7 || m == 8);
    }
    assert forall|m: int| 0 <= m < 7 implies plain_char(#[trigger] art[m]) by {
        assert(m == 0 || m == 1 || m == 2 || m == 3 || m == 4 || m == 5 || m == 6);
    }
    assert forall|m: int| 0 <= m < 6 implies plain_char(#[trigger] ext[m]) by {
        assert(m == 0 || m == 1 || m == 2 || m == 3 || m == 4 || m == 5);
    }
    assert forall|i: int| 0 <= i < rs.len() implies {
        &&& plain_name(#[trigger] rs[i].filename@)
        &&& rs[i].filename@ != "cover.jpg"@
        &&& rs[i].filename@ != "stylesheet.css"@
    } by {
        let f = rs[i].filename@;
        if i >= 2 {
            let k = (i - 2) as nat;
            lemma_decimal_plain(k);
            let dl = decimal(k).len() as int;
            assert(f =~= art + decimal(k) + ext);
            assert forall|m: int| 0 <= m < f.len() implies plain_char(#[trigger] f[m]) by {
                if m < 7 {
                    assert(f[m] == art[m]);
                } else if m < 7 + dl {
                    assert(f[m] == decimal(k)[m - 7]);
                } else {
                    assert(f[m] == ext[m - 7 - dl]);
                }
            }
            assert(f[0] == 'a');
        } else if i == 0 {
            assert(f[0] == 't');
        } else {
            assert(f[0] == 't');
        }
    }
    assert forall|i: int, j: int| 0 <= i < j < rs.len() implies #[trigger] rs[i].filename@ != #[trigger] rs[j].filename@ by {
        if i >= 2 {
            let ti: Seq<Seq<char>> = Seq::new((j - 1) as nat, |k: int| Seq::<char>::empty());
            lemma_reading_order(ti, i - 2, j - 2);
        } else if j >= 2 {
            assert(rs[j].filename@[0] == 'a');
        } else {
            assert(rs[0].filename@[1] != rs[1].filename@[1]);
        }
    }
}

/// A new, empty draft.
pub fn empty_draft() -> (r: Result<EpubDraft, WriteError>)
    ensures
        r matches Ok(d) ==> fresh(d),
        r is Ok,
{
    let zip = match new_zip() {
        Ok(z) => z,
        Err(e) => return Err(error_message(e)),
    };
    match new_draft(zip) {
        Ok(d) => Ok(d),
        Err(e) => Err(error_message(e)),
    }
}

/// A draft filled from an assembled container, with the cover image bytes where
/// one was fetched. It is had whenever the container fits the archive.
pub fn draft_of(c: &Container, cover: Option<Vec<u8>>) -> (r: Result<EpubDraft, WriteError>)
    ensures
        fits(*c, cover) ==> r is Ok,
        r matches Ok(d) ==> {
            &&& fits(*c, cover) ==> holds_files(d, *c, cover)
            &&& draft_title(d) == c.title@
            &&& draft_authors(d) == authors_of(c.author@)
            &&& draft_covers(d) == covers_of(cover)
            &&& draft_spine(d) == pages_of(c.resources@)
        },
{
    let mut d = empty_draft()?;
    fill_draft(&mut d, c, cover)?;
    Ok(d)
}

/// The bytes of the EPUB file of an assembled container, with the cover image
/// bytes where one was fetched: the draft of `draft_of`, generated.
pub fn epub_bytes(c: &Container, cover: Option<Vec<u8>>) -> (r: Result<Vec<u8>, WriteError>) {
    let d = draft_of(c, cover)?;
    match generate(d) {
        Ok(bytes) => Ok(bytes),
        Err(e) => Err(error_message(e)),
    }
}

} // verus!
