//! The engine that carries a planner from its configuration to a saved document, and the
//! decisions it makes on the way: in which order the pages enter the document, under which
//! titles, and where their links lead.

use crate::date::{formatted_date, PdfDate};
use crate::pages::{
    page_bound, present_pages, EnginePage, EnginePageKey, EnginePageKind, EnginePages, PageView,
};
use crate::style::PdfLink;
use owned_ttf_parser::{FaceParsingError, OwnedFace};
use printpdf::{IndirectFontRef, PdfDocumentReference};
use vstd::prelude::*;

verus! {

#[verifier::external_type_specification]
#[verifier::external_body]
pub struct ExPdfDocumentReference(PdfDocumentReference);

#[verifier::external_type_specification]
#[verifier::external_body]
pub struct ExPrintpdfError(printpdf::Error);

#[verifier::external_type_specification]
#[verifier::external_body]
pub struct ExIndirectFontRef(IndirectFontRef);

#[verifier::external_type_specification]
#[verifier::external_body]
pub struct ExOwnedFace(OwnedFace);

#[verifier::external_type_specification]
#[verifier::external_body]
pub struct ExFaceParsingError(FaceParsingError);

/// The title stored in a document's metadata.
pub uninterp spec fn document_title(doc: PdfDocumentReference) -> Seq<char>;

/// Calls `PdfDocument::empty`, which makes a document without pages under the title
/// `title`; claims that the document's title is `title`, which its source stores in the
/// metadata. Nothing else is claimed of the document, which also holds a random
/// identifier.
#[verifier::external_body]
fn empty_document(title: &str) -> (r: PdfDocumentReference)
    ensures
        document_title(r) == title@,
{
    printpdf::PdfDocument::empty(title)
}

/// Holds when `bytes` is the document `doc` written out as PDF. Writing out one document
/// twice gives different bytes, which hold a random identifier and the time of writing,
/// so this relates a document to each of its writings and picks none of them.
pub uninterp spec fn written_from(doc: PdfDocumentReference, bytes: Seq<u8>) -> bool;

/// The bytes `%PDF-` with which every PDF file begins.
pub open spec fn pdf_header() -> Seq<u8> {
    seq![37u8, 80u8, 68u8, 70u8, 45u8]
}

/// Calls `PdfDocumentReference::save_to_bytes`, which writes the document out as PDF into a
/// vector. Claims that it succeeds, as its source only fails when writing into the vector
/// fails, which it does not; that the bytes are a writing of `doc` ([`written_from`]); and
/// that they begin with `%PDF-`, the first thing the writer puts out. Nothing else is
/// claimed of the bytes.
#[verifier::external_body]
fn document_bytes(doc: PdfDocumentReference) -> (r: Result<Vec<u8>, printpdf::Error>)
    ensures
        r is Ok,
        r matches Ok(b) ==> written_from(doc, b@),
        r matches Ok(b) ==> b@.len() >= 5 && b@.take(5) == pdf_header(),
{
    doc.save_to_bytes()
}

/// Holds when `bytes` are read as a font face by `OwnedFace::from_vec` with index 0.
pub uninterp spec fn font_face_parses(bytes: Seq<u8>) -> bool;

/// Calls `OwnedFace::from_vec` with index 0 on a copy of `bytes`; claims that it succeeds
/// exactly when the bytes parse as a face ([`font_face_parses`]).
#[verifier::external_body]
fn parse_face(bytes: &[u8]) -> (r: Result<OwnedFace, FaceParsingError>)
    ensures
        r is Ok <==> font_face_parses(bytes@),
{
    OwnedFace::from_vec(bytes.to_vec(), 0)
}

/// Calls `PdfDocumentReference::add_external_font` with `bytes` as the font stream;
/// claims that it succeeds exactly when the bytes parse as a face, as its source reads the
/// stream, parses it with `OwnedFace::from_vec` with index 0 and fails on nothing else.
#[verifier::external_body]
fn add_font(doc: &PdfDocumentReference, bytes: &[u8]) -> (r: Result<IndirectFontRef, printpdf::Error>)
    ensures
        r is Ok <==> font_face_parses(bytes@),
{
    doc.add_external_font(bytes)
}

/// Reason for which the engine could not finish a document.
#[derive(Debug)]
pub enum EngineError {
    /// The document meant for `filename` could not be written out as PDF.
    Save { filename: String },
}

/// Reason for which a font could not be loaded into a document.
#[derive(Clone, Copy, Debug, PartialEq, Eq, Structural)]
pub enum FontError {
    /// The bytes do not parse as a font face.
    Face,
}

/// A document written out as PDF, with the name of the file that it is meant for.
#[derive(Debug)]
pub struct SavedPdf {
    pub filename: String,
    pub bytes: Vec<u8>,
}

/// The font used by the planner: the parsed face, for measuring text, and the font as
/// added to the document.
#[derive(Debug)]
pub struct EngineDocFont {
    pub face: OwnedFace,
    pub font: IndirectFontRef,
}

/// The PDF document that the engine builds.
pub struct EngineDoc {
    doc: PdfDocumentReference,
}

impl EngineDoc {
    /// The underlying document.
    pub closed spec fn doc_spec(self) -> PdfDocumentReference {
        self.doc
    }

    /// Creates a new, empty document named `title`.
    pub fn new(title: &str) -> (r: Self)
        ensures
            document_title(r.doc_spec()) == title@,
    {
        EngineDoc { doc: empty_document(title) }
    }

    /// The underlying document, to which pages and fonts are added.
    pub fn document(&self) -> (r: &PdfDocumentReference)
        ensures
            *r == self.doc_spec(),
    {
        &self.doc
    }

    /// Loads the font held in `font_bytes` into the document, returning the parsed face
    /// and the font added to the document; fails when the bytes are no font face.
    pub fn load_font(&self, font_bytes: Vec<u8>) -> (r: Result<EngineDocFont, FontError>)
        ensures
            r is Ok <==> font_face_parses(font_bytes@),
            r matches Err(e) ==> e == FontError::Face,
    {
        let face = match parse_face(font_bytes.as_slice()) {
            Ok(face) => face,
            Err(_) => return Err(FontError::Face),
        };
        match add_font(&self.doc, font_bytes.as_slice()) {
            Ok(font) => Ok(EngineDocFont { face, font }),
            Err(_) => Err(FontError::Face),
        }
    }

    /// Writes the document out as PDF for the file `filename`; this always succeeds, with
    /// bytes that are a writing of this document and begin with `%PDF-`.
    pub fn save(self, filename: String) -> (r: Result<SavedPdf, EngineError>)
        ensures
            r is Ok,
            r matches Ok(saved) ==> saved.filename@ == filename@,
            r matches Ok(saved) ==> written_from(self.doc_spec(), saved.bytes@),
            r matches Ok(saved) ==> saved.bytes@.len() >= 5 && saved.bytes@.take(5) == pdf_header(),
    {
        match document_bytes(self.doc) {
            Ok(bytes) => Ok(SavedPdf { filename, bytes }),
            Err(_) => Err(EngineError::Save { filename }),
        }
    }
}

/// PDF generation engine, using `T` as a state machine to progress through a series of steps
/// towards generating and saving a PDF.
pub struct Engine<T>(pub T);

impl Engine<()> {
    /// Creates a new engine for the provided `config`.
    pub fn new<C>(config: C) -> (r: Engine<C>)
        ensures
            r.0 == config,
    {
        Engine(config)
    }
}

impl Engine<EngineDoc> {
    /// Saves the PDF to the specified `filename`: writes it out as PDF, for the caller to
    /// store under that name.
    pub fn save(self, filename: String) -> (r: Result<SavedPdf, EngineError>)
        ensures
            r is Ok,
            r matches Ok(saved) ==> saved.filename@ == filename@,
            r matches Ok(saved) ==> written_from(self.0.doc_spec(), saved.bytes@),
            r matches Ok(saved) ==> saved.bytes@.len() >= 5 && saved.bytes@.take(5) == pdf_header(),
    {
        self.0.save(filename)
    }
}

/// The format string of a page's title: `January 2024` for a month, `Week 01 2024` for a
/// week, ` 1-Jan-2024 (Monday)` for a day.
pub open spec fn title_pattern(kind: EnginePageKind) -> Seq<char> {
    match kind {
        EnginePageKind::Monthly => "%B %Y"@,
        EnginePageKind::Weekly => "Week %V %Y"@,
        EnginePageKind::Daily => "%v (%A)"@,
    }
}

/// The title of a page with this view.
pub open spec fn page_title(p: PageView) -> Seq<char> {
    formatted_date(p.date.days, title_pattern(p.kind))->0
}

impl EnginePage {
    /// The title under which the page enters the document.
    pub fn title(&self) -> (r: String)
        ensures
            formatted_date(self.date@.days, title_pattern(self.kind)) == Some(r@),
            r@ == page_title(self@),
    {
        let pattern = match self.kind {
            EnginePageKind::Monthly => "%B %Y",
            EnginePageKind::Weekly => "Week %V %Y",
            EnginePageKind::Daily => "%v (%A)",
        };
        match self.date.format(pattern) {
            Some(title) => title,
            None => String::new(),
        }
    }
}

/// The pages of a collection in the order in which they enter the document: the months in
/// order, then the weeks, then the days.
pub open spec fn document_order(m: Map<(EnginePageKind, int), PageView>) -> Seq<PageView> {
    present_pages(m, EnginePageKind::Monthly, 12) + present_pages(m, EnginePageKind::Weekly, 53)
        + present_pages(m, EnginePageKind::Daily, 366)
}

/// A page as it enters the document: its id and its title.
#[derive(Debug)]
pub struct PageSlot {
    pub id: u64,
    pub title: String,
}

impl EnginePages {
    /// The pages in the order in which they enter the document.
    pub fn pages_in_document_order(&self) -> (r: Vec<EnginePage>)
        ensures
            r@.map_values(|p: EnginePage| p@) == document_order(self@),
    {
        let mut out = self.iter_monthly_pages();
        let mut weekly = self.iter_weekly_pages();
        let mut daily = self.iter_daily_pages();
        let ghost (a, b, c) = (out@, weekly@, daily@);
        out.append(&mut weekly);
        out.append(&mut daily);
        assert(out@.map_values(|p: EnginePage| p@) =~= a.map_values(|p: EnginePage| p@) + b.map_values(
            |p: EnginePage| p@,
        ) + c.map_values(|p: EnginePage| p@));
        out
    }

    /// The id and title of each page, in the order in which the pages enter the document.
    pub fn page_slots(&self) -> (r: Vec<PageSlot>)
        ensures
            r@.len() == document_order(self@).len(),
            forall|i: int| 0 <= i < r@.len() ==> #[trigger] slot_of(r@[i], document_order(self@)[i]),
    {
        let pages = self.pages_in_document_order();
        let ghost order = document_order(self@);
        assert(pages@.len() == order.len()) by {
            assert(pages@.map_values(|p: EnginePage| p@).len() == pages@.len());
        }
        let mut slots: Vec<PageSlot> = Vec::new();
        let mut i: usize = 0;
        while i < pages.len()
            invariant
                i <= pages@.len(),
                order == document_order(self@),
                pages@.map_values(|p: EnginePage| p@) == order,
                slots@.len() == i,
                forall|j: int| 0 <= j < i ==> #[trigger] slot_of(slots@[j], order[j]),
            decreases pages@.len() - i,
        {
            let page = &pages[i];
            assert(order[i as int] == pages@[i as int]@);
            let slot = PageSlot { id: page.id, title: page.title() };
            assert(slot_of(slot, order[i as int]));
            slots.push(slot);
            i = i + 1;
        }
        slots
    }
}

/// `slot` holds the id and the title of the page with view `p`.
pub open spec fn slot_of(slot: PageSlot, p: PageView) -> bool {
    slot.id == p.id && slot.title@ == page_title(p)
}

/// Progress of a run of page hooks: the keys that the pages had when the run began, and
/// how many of them have been visited. Hooks may add or change pages while the run goes
/// on; only the pages that were there at its start are visited, each as it is when its
/// turn comes, and those that are gone by then are passed over.
pub struct HookRun {
    keys: Vec<EnginePageKey>,
    next: usize,
}

impl HookRun {
    /// The keys to visit, in order.
    pub closed spec fn keys_spec(self) -> Seq<(EnginePageKind, int)> {
        self.keys@.map_values(|k: EnginePageKey| k@)
    }

    /// How many of the keys have been visited.
    pub closed spec fn visited(self) -> int {
        self.next as int
    }

    #[verifier::type_invariant]
    closed spec fn inv(self) -> bool {
        self.next <= self.keys@.len()
    }

    /// Begins a run over the pages that `pages` holds now.
    pub fn new(pages: &EnginePages) -> (r: Self)
        ensures
            r.keys_spec().to_set() == pages@.dom(),
            r.keys_spec().no_duplicates(),
            r.visited() == 0,
    {
        HookRun { keys: pages.keys(), next: 0 }
    }

    /// The next page whose hooks are to run, as `pages` holds it now; `None` once every key
    /// has been visited.
    pub fn next_page(&mut self, pages: &EnginePages) -> (r: Option<EnginePage>)
        ensures
            final(self).keys_spec() == old(self).keys_spec(),
            old(self).visited() <= final(self).visited() <= old(self).keys_spec().len(),
            forall|j: int|
                old(self).visited() <= j < final(self).visited() - 1 ==> !pages@.dom().contains(
                    #[trigger] old(self).keys_spec()[j],
                ),
            r is None ==> final(self).visited() == old(self).keys_spec().len() && (
                old(self).visited() < final(self).visited() ==> !pages@.dom().contains(
                    old(self).keys_spec()[final(self).visited() - 1],
                )),
            r matches Some(p) ==> final(self).visited() > old(self).visited() && pages@.dom().contains(
                old(self).keys_spec()[final(self).visited() - 1],
            ) && p@ == pages@[old(self).keys_spec()[final(self).visited() - 1]],
    {
        proof {
            use_type_invariant(&*self);
        }
        let ghost start = self.next as int;
        while self.next < self.keys.len()
            invariant
                self.keys@ == old(self).keys@,
                start == old(self).next,
                start <= self.next <= self.keys@.len(),
                forall|j: int|
                    start <= j < self.next ==> !pages@.dom().contains(#[trigger] self.keys@[j]@),
            decreases self.keys@.len() - self.next,
        {
            let key = self.keys[self.next];
            self.next = self.next + 1;
            match pages.get_page(key) {
                Some(page) => {
                    return Some(page);
                },
                None => {},
            }
        }
        None
    }
}

/// Hooks registered for each kind of page, in the order of registration. A hook is
/// whatever the caller runs for a page: the engine keeps them and hands them out by kind.
pub struct EngineHooks<F> {
    /// Invoked when a daily page is created.
    on_daily_page_fns: Vec<F>,
    /// Invoked when a monthly page is created.
    on_monthly_page_fns: Vec<F>,
    /// Invoked when a weekly page is created.
    on_weekly_page_fns: Vec<F>,
}

impl<F> EngineHooks<F> {
    /// The hooks registered for pages of `kind`, in the order of registration.
    pub closed spec fn hooks_spec(self, kind: EnginePageKind) -> Seq<F> {
        match kind {
            EnginePageKind::Daily => self.on_daily_page_fns@,
            EnginePageKind::Monthly => self.on_monthly_page_fns@,
            EnginePageKind::Weekly => self.on_weekly_page_fns@,
        }
    }

    /// Creates a new instance of the hooks container with no registered hooks.
    pub fn new() -> (r: Self)
        ensures
            forall|kind: EnginePageKind| r.hooks_spec(kind) == Seq::<F>::empty(),
    {
        EngineHooks { on_daily_page_fns: Vec::new(), on_monthly_page_fns: Vec::new(), on_weekly_page_fns: Vec::new() }
    }

    /// Registers `f` as the last hook for pages of `kind`.
    pub fn register(&mut self, kind: EnginePageKind, f: F)
        ensures
            final(self).hooks_spec(kind) == old(self).hooks_spec(kind).push(f),
            forall|other: EnginePageKind| other != kind ==> final(self).hooks_spec(other) == old(self).hooks_spec(other),
    {
        match kind {
            EnginePageKind::Daily => self.on_daily_page_fns.push(f),
            EnginePageKind::Monthly => self.on_monthly_page_fns.push(f),
            EnginePageKind::Weekly => self.on_weekly_page_fns.push(f),
        }
    }

    /// Registers a new hook for when a daily page is created.
    pub fn register_on_daily_page(&mut self, f: F)
        ensures
            final(self).hooks_spec(EnginePageKind::Daily) == old(self).hooks_spec(EnginePageKind::Daily).push(f),
            forall|other: EnginePageKind| other != EnginePageKind::Daily ==> final(self).hooks_spec(other) == old(self).hooks_spec(other),
    {
        self.register(EnginePageKind::Daily, f)
    }

    /// Registers a new hook for when a monthly page is created.
    pub fn register_on_monthly_page(&mut self, f: F)
        ensures
            final(self).hooks_spec(EnginePageKind::Monthly) == old(self).hooks_spec(EnginePageKind::Monthly).push(f),
            forall|other: EnginePageKind| other != EnginePageKind::Monthly ==> final(self).hooks_spec(other) == old(self).hooks_spec(other),
    {
        self.register(EnginePageKind::Monthly, f)
    }

    /// Registers a new hook for when a weekly page is created.
    pub fn register_on_weekly_page(&mut self, f: F)
        ensures
            final(self).hooks_spec(EnginePageKind::Weekly) == old(self).hooks_spec(EnginePageKind::Weekly).push(f),
            forall|other: EnginePageKind| other != EnginePageKind::Weekly ==> final(self).hooks_spec(other) == old(self).hooks_spec(other),
    {
        self.register(EnginePageKind::Weekly, f)
    }

    /// The hooks to invoke, in order, for a page of `kind`.
    pub fn hooks_for(&self, kind: EnginePageKind) -> (r: &Vec<F>)
        ensures
            r@ == self.hooks_spec(kind),
    {
        match kind {
            EnginePageKind::Daily => &self.on_daily_page_fns,
            EnginePageKind::Monthly => &self.on_monthly_page_fns,
            EnginePageKind::Weekly => &self.on_weekly_page_fns,
        }
    }
}

/// Where a link of a document leads.
#[derive(Debug)]
pub enum LinkTarget {
    /// To the page at this position of the document.
    Page(usize),
    /// To this external URI.
    Uri(String),
}

/// The last position of `ids` that holds `id`, if any.
pub open spec fn last_position(ids: Seq<u64>, id: int) -> Option<int>
    decreases ids.len(),
{
    if ids.len() == 0 {
        None
    } else if ids.last() == id {
        Some(ids.len() - 1)
    } else {
        last_position(ids.drop_last(), id)
    }
}

/// Where `link` leads in a document whose pages, in order, have the ids `ids`: a link to a
/// page goes to the last page with that id, and leads nowhere when no page has it.
pub open spec fn link_target_spec(link: PdfLink, ids: Seq<u64>) -> Option<LinkTargetView> {
    match link {
        PdfLink::GoTo { page } => match last_position(ids, page as int) {
            Some(i) => Some(LinkTargetView::Page(i)),
            None => None,
        },
        PdfLink::Uri { uri } => Some(LinkTargetView::Uri(uri@)),
    }
}

/// What a link target is, with the URI as text.
pub enum LinkTargetView {
    Page(int),
    Uri(Seq<char>),
}

impl View for LinkTarget {
    type V = LinkTargetView;

    open spec fn view(&self) -> LinkTargetView {
        match self {
            LinkTarget::Page(i) => LinkTargetView::Page(*i as int),
            LinkTarget::Uri(u) => LinkTargetView::Uri(u@),
        }
    }
}

/// Maps `link` to where it leads in a document whose pages, in order, have the ids `ids`;
/// `None` for a link to a page that the document does not have.
pub fn resolve_link(link: &PdfLink, ids: &Vec<u64>) -> (r: Option<LinkTarget>)
    ensures
        r is Some == link_target_spec(*link, ids@) is Some,
        r matches Some(t) ==> link_target_spec(*link, ids@) == Some(t@),
{
    match link {
        PdfLink::GoTo { page } => {
            let target: u64 = *page as u64;
            let mut i: usize = ids.len();
            assert(ids@.take(ids@.len() as int) =~= ids@);
            let ghost found = last_position(ids@, target as int);
            assert(link_target_spec(*link, ids@) == (match found {
                Some(k) => Some(LinkTargetView::Page(k)),
                None => None,
            }));
            while i > 0
                invariant
                    i <= ids@.len(),
                    found == last_position(ids@, target as int),
                    link_target_spec(*link, ids@) == (match found {
                        Some(k) => Some(LinkTargetView::Page(k)),
                        None => None,
                    }),
                    last_position(ids@, target as int) == last_position(ids@.take(i as int), target as int),
                decreases i,
            {
                let ghost prefix = ids@.take(i as int);
                assert(prefix.drop_last() =~= ids@.take(i - 1));
                if ids[i - 1] == target {
                    assert(prefix.last() == target);
                    return Some(LinkTarget::Page(i - 1));
                }
                i = i - 1;
            }
            assert(ids@.take(0) =~= Seq::<u64>::empty());
            None
        },
        PdfLink::Uri { uri } => Some(LinkTarget::Uri(uri.clone())),
    }
}

/// In a document whose page ids are all different, a link to the id of the page at
/// position `i` leads to that page (a link names a page by a `u32`).
pub proof fn law_link_to_page_leads_there(ids: Seq<u64>, i: int)
    requires
        ids.no_duplicates(),
        0 <= i < ids.len(),
        ids[i] <= u32::MAX,
    ensures
        link_target_spec(PdfLink::GoTo { page: ids[i] as u32 }, ids) == Some(LinkTargetView::Page(i)),
    decreases ids.len(),
{
    if i < ids.len() - 1 {
        assert(ids.last() != ids[i]);
        let p = ids.drop_last();
        assert(p[i] == ids[i]);
        law_link_to_page_leads_there(p, i);
    }
}

/// The pages of `kind` at positions below `n` hold the page at each such position.
proof fn lemma_present_pages_contains(
    m: Map<(EnginePageKind, int), PageView>,
    kind: EnginePageKind,
    n: int,
    i: int,
)
    requires
        0 <= i < n,
        m.dom().contains((kind, i)),
    ensures
        present_pages(m, kind, n).contains(m[(kind, i)]),
    decreases n,
{
    if i < n - 1 {
        lemma_present_pages_contains(m, kind, n - 1, i);
        let s = present_pages(m, kind, n - 1);
        let j = choose|j: int| 0 <= j < s.len() && s[j] == m[(kind, i)];
        if m.dom().contains((kind, n - 1)) {
            assert(present_pages(m, kind, n)[j] == s[j]);
        }
    } else {
        let s = present_pages(m, kind, n);
        assert(s[s.len() - 1] == m[(kind, i)]);
    }
}

/// Every page at a position below its kind's bound enters the document.
pub proof fn law_document_holds_page(m: Map<(EnginePageKind, int), PageView>, kind: EnginePageKind, i: int)
    requires
        m.dom().contains((kind, i)),
        0 <= i < page_bound(kind),
    ensures
        document_order(m).contains(m[(kind, i)]),
{
    let a = present_pages(m, EnginePageKind::Monthly, 12);
    let b = present_pages(m, EnginePageKind::Weekly, 53);
    let c = present_pages(m, EnginePageKind::Daily, 366);
    lemma_present_pages_contains(m, kind, page_bound(kind), i);
    let s = present_pages(m, kind, page_bound(kind));
    let j = choose|j: int| 0 <= j < s.len() && s[j] == m[(kind, i)];
    match kind {
        EnginePageKind::Monthly => {
            assert((a + b + c)[j] == a[j]);
        },
        EnginePageKind::Weekly => {
            assert((a + b + c)[a.len() + j] == b[j]);
        },
        EnginePageKind::Daily => {
            assert((a + b + c)[a.len() + b.len() + j] == c[j]);
        },
    }
}


/// Pages are titled by the month's name and year (`%B %Y`), by `Week`, the ISO week
/// number and the year (`Week %V %Y`), or by the date and weekday's name (`%v (%A)`),
/// each pattern belonging to its own kind of page only.
pub proof fn law_title_patterns()
    ensures
        forall|k: EnginePageKind| (#[trigger] title_pattern(k) == "%B %Y"@) <==> k == EnginePageKind::Monthly,
        forall|k: EnginePageKind| (#[trigger] title_pattern(k) == "Week %V %Y"@) <==> k == EnginePageKind::Weekly,
        forall|k: EnginePageKind| (#[trigger] title_pattern(k) == "%v (%A)"@) <==> k == EnginePageKind::Daily,
{
    reveal_strlit("%B %Y");
    reveal_strlit("Week %V %Y");
    reveal_strlit("%v (%A)");
    assert forall|k: EnginePageKind| (#[trigger] title_pattern(k) == "%B %Y"@) <==> k == EnginePageKind::Monthly by {
        match k {
            EnginePageKind::Monthly => {},
            EnginePageKind::Weekly => { assert("Week %V %Y"@.len() != "%B %Y"@.len()); },
            EnginePageKind::Daily => { assert("%v (%A)"@.len() != "%B %Y"@.len()); },
        }
    }
    assert forall|k: EnginePageKind| (#[trigger] title_pattern(k) == "Week %V %Y"@) <==> k == EnginePageKind::Weekly by {
        match k {
            EnginePageKind::Monthly => { assert("%B %Y"@.len() != "Week %V %Y"@.len()); },
            EnginePageKind::Weekly => {},
            EnginePageKind::Daily => { assert("%v (%A)"@.len() != "Week %V %Y"@.len()); },
        }
    }
    assert forall|k: EnginePageKind| (#[trigger] title_pattern(k) == "%v (%A)"@) <==> k == EnginePageKind::Daily by {
        match k {
            EnginePageKind::Monthly => { assert("%B %Y"@.len() != "%v (%A)"@.len()); },
            EnginePageKind::Weekly => { assert("Week %V %Y"@.len() != "%v (%A)"@.len()); },
            EnginePageKind::Daily => {},
        }
    }
}

} // verus!
