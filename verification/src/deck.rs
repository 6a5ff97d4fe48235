//! Slide decks: the outline request, the slide-by-slide assembly with one
//! generated image per slide, and the PowerPoint package (by `ppt_rs`).
use vstd::prelude::*;

use crate::agent::ChatRequest;
use crate::json::{slide_plans, Json, SlidePlan};
use crate::text::{chars_of, push_str, string_push, string_views};

verus! {

#[verifier::external_type_specification]
#[verifier::external_body]
pub struct ExSlideContent(ppt_rs::SlideContent);

#[verifier::external_type_specification]
#[verifier::external_body]
pub struct ExImage(ppt_rs::Image);

#[verifier::external_type_specification]
#[verifier::external_body]
pub struct ExPptxError(ppt_rs::PptxError);

/// An image as plain values: its data, width, height and format name.
pub type ImageView = (Seq<u8>, u32, u32, Seq<char>);

/// A slide as plain values: its title, its bullet points and its images.
pub type SlideView = (Seq<char>, Seq<Seq<char>>, Seq<ImageView>);

/// The title of a slide.
pub uninterp spec fn slide_title(s: ppt_rs::SlideContent) -> Seq<char>;

/// The bullet points of a slide, in order.
pub uninterp spec fn slide_bullets(s: ppt_rs::SlideContent) -> Seq<Seq<char>>;

/// The images of a slide, in order, each as its data, width, height and format.
pub uninterp spec fn slide_images(s: ppt_rs::SlideContent) -> Seq<ImageView>;

/// The data an image holds.
pub uninterp spec fn image_data(i: ppt_rs::Image) -> Seq<u8>;

/// The width an image is placed with.
pub uninterp spec fn image_width(i: ppt_rs::Image) -> u32;

/// The height an image is placed with.
pub uninterp spec fn image_height(i: ppt_rs::Image) -> u32;

/// The format name an image carries.
pub uninterp spec fn image_format(i: ppt_rs::Image) -> Seq<char>;

/// An image as plain values.
pub open spec fn image_view(i: ppt_rs::Image) -> ImageView {
    (image_data(i), image_width(i), image_height(i), image_format(i))
}

/// A slide as plain values.
pub open spec fn slide_view(s: ppt_rs::SlideContent) -> SlideView {
    (slide_title(s), slide_bullets(s), slide_images(s))
}

/// Whether `package` is a PowerPoint package that `create_pptx_with_content`
/// made for a deck titled `title` from slides with these titles, bullet
/// points and images. It relates a package to its deck and is no function of
/// the deck: two packages of one deck differ in the time they record.
pub uninterp spec fn pptx_deck(package: Seq<u8>, title: Seq<char>, slides: Seq<SlideView>) -> bool;

/// `text` consists of ASCII upper-case letters only.
pub open spec fn ascii_upper_word(text: Seq<char>) -> bool {
    forall|i: int| 0 <= i < text.len() ==> 'A' <= #[trigger] text[i] <= 'Z'
}

/// `ppt_rs::SlideContent::new(title)`.
/// Trusted: a slide with that title, no bullet points and no images.
#[verifier::external_body]
fn slide_new(title: &str) -> (s: ppt_rs::SlideContent)
    ensures
        slide_title(s) == title@,
        slide_bullets(s) == Seq::<Seq<char>>::empty(),
        slide_images(s) == Seq::<ImageView>::empty(),
{
    ppt_rs::SlideContent::new(title)
}

/// `SlideContent::add_bullet(text)`.
/// Trusted: the same slide with `text` as one more bullet point at the end.
#[verifier::external_body]
fn slide_add_bullet(s: ppt_rs::SlideContent, text: &str) -> (r: ppt_rs::SlideContent)
    ensures
        slide_title(r) == slide_title(s),
        slide_bullets(r) == slide_bullets(s).push(text@),
        slide_images(r) == slide_images(s),
{
    s.add_bullet(text)
}

/// `ppt_rs::ImageBuilder::from_bytes(data, width, height, format)`, turned
/// into the image it describes by `build`.
/// Trusted: an image that holds `data`, placed with `width` and `height`; its
/// format name is `format` in upper case, which is `format` itself when that
/// is already upper-case ASCII. Its file name is `image.` and the format's
/// extension (not stated); nothing in it is drawn at random. (The builder is
/// used in place of `Image::from_bytes`, which names the file with a fresh
/// `uuid::Uuid::new_v4()` and so panics when the system's random source fails;
/// the file name only labels the picture in the slide's XML.)
#[verifier::external_body]
fn image_from_bytes(data: Vec<u8>, width: u32, height: u32, format: &str) -> (i: ppt_rs::Image)
    ensures
        image_data(i) == data@,
        image_width(i) == width,
        image_height(i) == height,
        ascii_upper_word(format@) ==> image_format(i) == format@,
{
    ppt_rs::ImageBuilder::from_bytes(data, width, height, format).build()
}

/// `SlideContent::add_image(image)`.
/// Trusted: the same slide with `image` as one more image at the end.
#[verifier::external_body]
fn slide_add_image(s: ppt_rs::SlideContent, image: ppt_rs::Image) -> (r: ppt_rs::SlideContent)
    ensures
        slide_title(r) == slide_title(s),
        slide_bullets(r) == slide_bullets(s),
        slide_images(r) == slide_images(s).push(image_view(image)),
{
    s.add_image(image)
}

/// The signature that opens a ZIP archive: the local file header `PK\x03\x04`.
pub open spec fn zip_signature() -> Seq<u8> {
    seq![0x50u8, 0x4Bu8, 0x03u8, 0x04u8]
}

/// `ppt_rs::create_pptx_with_content(title, slides)`.
/// Trusted: a package that comes back is one made for the deck titled `title`
/// with these slides, and it is a ZIP archive written from its start (the
/// `zip` crate's writer opens it with the local file header of
/// `[Content_Types].xml`), so it begins with the ZIP signature. Its other
/// bytes are not stated: they hold, among the rest, the time the package was
/// made. When it fails is not stated either.
#[verifier::external_body]
fn pptx_package(title: &str, slides: Vec<ppt_rs::SlideContent>) -> (r: Result<
    Vec<u8>,
    ppt_rs::PptxError,
>)
    ensures
        r matches Ok(bytes) ==> {
            &&& pptx_deck(bytes@, title@, slides@.map_values(|s: ppt_rs::SlideContent| slide_view(s)))
            &&& bytes@.len() >= 4
            &&& bytes@.take(4) == zip_signature()
        },
{
    ppt_rs::create_pptx_with_content(title, slides)
}

/// The model that writes slide outlines.
pub open spec fn outline_model() -> Seq<char> {
    "grok-4-1-fast-reasoning"@
}

/// The prompt that asks for the outline of a deck about `topic`.
pub open spec fn outline_prompt_of(topic: Seq<char>) -> Seq<char> {
    "Generate 6-slide PowerPoint structure for '"@ + topic
        + "'. Return JSON: array of {title, bullets:[]}"@
}

/// The request for the outline of a deck about `topic` (always to xAI).
pub fn outline_request(topic: &str) -> (r: ChatRequest)
    ensures
        r.prompt@ == outline_prompt_of(topic@),
        r.model@ == outline_model(),
        !r.local,
{
    let mut prompt = String::from_str("Generate 6-slide PowerPoint structure for '");
    push_str(&mut prompt, topic);
    push_str(&mut prompt, "'. Return JSON: array of {title, bullets:[]}");
    ChatRequest { prompt, model: String::from_str("grok-4-1-fast-reasoning"), local: false }
}

/// The prompt for the illustration of a slide titled `title`.
pub open spec fn image_prompt_of(title: Seq<char>) -> Seq<char> {
    "Professional illustration for slide: "@ + title
}

/// The width of an embedded illustration.
pub const IMAGE_WIDTH: u32 = 400;

/// The height of an embedded illustration.
pub const IMAGE_HEIGHT: u32 = 300;

/// The format name of an embedded illustration.
pub open spec fn png_format() -> Seq<char> {
    seq!['P', 'N', 'G']
}

/// The slide made from a plan (title and bullet points) and the data of its
/// illustration: a 400 by 300 PNG.
pub open spec fn planned_slide(plan: (Seq<char>, Seq<Seq<char>>), image: Seq<u8>) -> SlideView {
    (plan.0, plan.1, seq![(image, IMAGE_WIDTH, IMAGE_HEIGHT, png_format())])
}

/// The slides made from the first `images.len()` plans and their illustrations.
pub open spec fn planned_slides(
    plans: Seq<(Seq<char>, Seq<Seq<char>>)>,
    images: Seq<Seq<u8>>,
) -> Seq<SlideView> {
    Seq::new(images.len(), |i: int| planned_slide(plans[i], images[i]))
}

/// A plan as plain values: its title and its bullet points.
pub open spec fn plan_view(p: SlidePlan) -> (Seq<char>, Seq<Seq<char>>) {
    (p.title@, string_views(p.bullets@))
}

/// A deck being assembled: the outline's slide plans and the slides built so
/// far, in the order of the plans, each from its plan and one illustration.
pub struct DeckBuilder {
    title: String,
    plans: Vec<SlidePlan>,
    slides: Vec<ppt_rs::SlideContent>,
}

/// What the assembly needs next: the illustration for the next slide (with
/// its prompt), or nothing because every slide is built.
pub enum DeckStep {
    NeedImage(String),
    Ready,
}

impl DeckBuilder {
    /// Slide `i` was built from plan `i` and one 400 by 300 PNG, for each built slide.
    #[verifier::type_invariant]
    spec fn well_built(self) -> bool {
        &&& self.slides@.len() <= self.plans@.len()
        &&& forall|i: int|
            0 <= i < self.slides@.len() ==> {
                let s = #[trigger] self.slides@[i];
                &&& slide_images(s).len() == 1
                &&& slide_view(s) == planned_slide(plan_view(self.plans@[i]), slide_images(s)[0].0)
            }
    }

    /// The title of the deck.
    pub closed spec fn deck_title(self) -> Seq<char> {
        self.title@
    }

    /// The slide plans of the deck, in order.
    pub closed spec fn plans(self) -> Seq<(Seq<char>, Seq<Seq<char>>)> {
        self.plans@.map_values(|p: SlidePlan| plan_view(p))
    }

    /// The illustration data of the slides built so far, in order.
    pub closed spec fn images(self) -> Seq<Seq<u8>> {
        self.slides@.map_values(|s: ppt_rs::SlideContent| slide_images(s)[0].0)
    }

    /// The slides built so far, as plain values.
    pub closed spec fn built(self) -> Seq<SlideView> {
        self.slides@.map_values(|s: ppt_rs::SlideContent| slide_view(s))
    }

    /// The slides built so far are the planned slides for their illustrations.
    proof fn lemma_built(self)
        requires
            self.well_built(),
        ensures
            self.images().len() <= self.plans().len(),
            self.built() == planned_slides(self.plans(), self.images()),
    {
        assert(self.built() =~= planned_slides(self.plans(), self.images()));
    }

    /// Starts a deck titled `title` from the parsed outline reply (`None` when
    /// the reply was no JSON): one slide plan per outline entry, no slide built.
    pub fn new(title: &str, parsed: &Option<Json>) -> (d: DeckBuilder)
        ensures
            d.deck_title() == title@,
            d.images().len() == 0,
            d.plans().len() == crate::json::outline_entries(*parsed).len(),
            forall|i: int|
                0 <= i < d.plans().len() ==> #[trigger] d.plans()[i] == (
                    crate::json::plan_title_of(crate::json::outline_entries(*parsed)[i]),
                    crate::json::plan_bullets_of(crate::json::outline_entries(*parsed)[i]),
                ),
    {
        let d = DeckBuilder {
            title: String::from_str(title),
            plans: slide_plans(parsed),
            slides: Vec::new(),
        };
        assert forall|i: int| 0 <= i < d.plans().len() implies #[trigger] d.plans()[i] == (
            crate::json::plan_title_of(crate::json::outline_entries(*parsed)[i]),
            crate::json::plan_bullets_of(crate::json::outline_entries(*parsed)[i]),
        ) by {
            assert(d.plans@[i].title@ == crate::json::plan_title_of(
                crate::json::outline_entries(*parsed)[i],
            ));
        }
        d
    }

    /// Whether every planned slide is built.
    pub fn is_ready(&self) -> (r: bool)
        ensures
            r == (self.images().len() >= self.plans().len()),
    {
        self.slides.len() >= self.plans.len()
    }

    /// The slides built so far: the planned slides of the first plans, each
    /// with its illustration.
    pub fn slides(&self) -> (r: &Vec<ppt_rs::SlideContent>)
        ensures
            r@.map_values(|s: ppt_rs::SlideContent| slide_view(s)) == self.built(),
            self.images().len() <= self.plans().len(),
            self.built() == planned_slides(self.plans(), self.images()),
    {
        proof {
            use_type_invariant(self);
            self.lemma_built();
        }
        &self.slides
    }

    /// The next thing the assembly needs: the illustration of the next slide
    /// (its prompt names the slide's title), or nothing when all are built.
    pub fn next_step(&self) -> (s: DeckStep)
        ensures
            self.images().len() < self.plans().len() ==> (s matches DeckStep::NeedImage(p) && p@
                == image_prompt_of(self.plans()[self.images().len() as int].0)),
            self.images().len() >= self.plans().len() ==> s is Ready,
    {
        if self.slides.len() < self.plans.len() {
            let mut p = String::from_str("Professional illustration for slide: ");
            push_str(&mut p, self.plans[self.slides.len()].title.as_str());
            DeckStep::NeedImage(p)
        } else {
            DeckStep::Ready
        }
    }

    /// Builds the next slide from its plan: its title, its bullet points in
    /// order, and `image` as its one illustration, a PNG of 400 by 300.
    pub fn add_slide(&mut self, image: Vec<u8>)
        requires
            old(self).images().len() < old(self).plans().len(),
        ensures
            final(self).deck_title() == old(self).deck_title(),
            final(self).plans() == old(self).plans(),
            final(self).images() == old(self).images().push(image@),
    {
        proof {
            use_type_invariant(&*self);
        }
        let k = self.slides.len();
        let plan = &self.plans[k];
        let mut slide = slide_new(plan.title.as_str());
        let mut j: usize = 0;
        while j < plan.bullets.len()
            invariant
                j <= plan.bullets@.len(),
                slide_title(slide) == plan.title@,
                slide_bullets(slide) == string_views(plan.bullets@).take(j as int),
                slide_images(slide) == Seq::<ImageView>::empty(),
            decreases plan.bullets@.len() - j,
        {
            slide = slide_add_bullet(slide, plan.bullets[j].as_str());
            assert(string_views(plan.bullets@).take(j + 1) =~= string_views(plan.bullets@).take(
                j as int,
            ).push(plan.bullets@[j as int]@));
            j = j + 1;
        }
        assert(string_views(plan.bullets@).take(plan.bullets@.len() as int) =~= string_views(
            plan.bullets@,
        ));
        let ghost data = image@;
        let ghost pv = plan_view(*plan);
        let format = "PNG";
        proof {
            reveal_strlit("PNG");
            assert(format@ =~= png_format());
        }
        let img = image_from_bytes(image, IMAGE_WIDTH, IMAGE_HEIGHT, format);
        let slide = slide_add_image(slide, img);
        assert(slide_images(slide) =~= seq![(data, IMAGE_WIDTH, IMAGE_HEIGHT, png_format())]);
        assert(slide_view(slide) == planned_slide(pv, data));
        let ghost old_slides = self.slides@;
        let mut slides: Vec<ppt_rs::SlideContent> = Vec::new();
        std::mem::swap(&mut slides, &mut self.slides);
        slides.push(slide);
        self.slides = slides;
        assert(self.images() =~= old(self).images().push(data)) by {
            assert(self.slides@ == old_slides.push(slide));
        }
        assert(self.plans() =~= old(self).plans());
    }

    /// The PowerPoint package of the finished deck: made for its title from
    /// its planned slides, each with its illustration (a 400 by 300 PNG), in
    /// order; it is a ZIP archive. Or the packaging error.
    pub fn finish(self) -> (r: Result<Vec<u8>, DeckError>)
        requires
            self.images().len() >= self.plans().len(),
        ensures
            self.images().len() == self.plans().len(),
            r matches Ok(bytes) ==> {
                &&& pptx_deck(bytes@, self.deck_title(), planned_slides(self.plans(), self.images()))
                &&& bytes@.len() >= 4
                &&& bytes@.take(4) == zip_signature()
            },
    {
        proof {
            use_type_invariant(&self);
            self.lemma_built();
        }
        match pptx_package(self.title.as_str(), self.slides) {
            Ok(bytes) => Ok(bytes),
            Err(e) => Err(DeckError::Package(e)),
        }
    }
}

/// Why a deck could not be packaged.
pub enum DeckError {
    Package(ppt_rs::PptxError),
}

/// A finished deck is the outline, slide for slide: as many slides as plans,
/// each with its plan's title and bullet points and exactly the one
/// illustration it was given, a 400 by 300 PNG. (What it asks of `d`, every
/// deck being assembled has, as `slides` states.)
pub proof fn law_ready_deck_follows_outline(d: DeckBuilder)
    requires
        d.images().len() <= d.plans().len(),
        d.built() == planned_slides(d.plans(), d.images()),
        d.images().len() >= d.plans().len(),
    ensures
        d.images().len() == d.plans().len(),
        d.built().len() == d.plans().len(),
        forall|i: int|
            0 <= i < d.plans().len() ==> {
                &&& (#[trigger] d.built()[i]).0 == d.plans()[i].0
                &&& d.built()[i].1 == d.plans()[i].1
                &&& d.built()[i].2 == seq![(d.images()[i], IMAGE_WIDTH, IMAGE_HEIGHT, png_format())]
            },
{
}

// ---------------------------------------------------------------------------
// Default file name
// ---------------------------------------------------------------------------

/// `s` with every space turned into an underscore.
pub open spec fn spaces_to_underscores(s: Seq<char>) -> Seq<char> {
    s.map_values(|c: char| if c == ' ' { '_' } else { c })
}

/// The file a deck titled `title` is written to when none is given:
/// the title with spaces turned into underscores, then `.pptx`.
pub open spec fn default_deck_file_of(title: Seq<char>) -> Seq<char> {
    spaces_to_underscores(title) + ".pptx"@
}

/// The default output file of a deck titled `title`.
pub fn default_deck_file(title: &str) -> (r: String)
    ensures
        r@ == default_deck_file_of(title@),
{
    let cs = chars_of(title);
    let mut r = String::new();
    let mut i: usize = 0;
    while i < cs.len()
        invariant
            cs@ == title@,
            i <= cs@.len(),
            r@ == spaces_to_underscores(cs@.take(i as int)),
        decreases cs@.len() - i,
    {
        let c = cs[i];
        let d = if c == ' ' {
            '_'
        } else {
            c
        };
        string_push(&mut r, d);
        assert(spaces_to_underscores(cs@.take(i + 1)) =~= spaces_to_underscores(
            cs@.take(i as int),
        ).push(d));
        i = i + 1;
    }
    assert(cs@.take(cs@.len() as int) =~= cs@);
    push_str(&mut r, ".pptx");
    r
}

} // verus!
