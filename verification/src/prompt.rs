//! The content of a prompt: a message and the images that go with it.

use vstd::prelude::*;

use crate::error;
use crate::error::{protocol_error, HarnessServerError};
use crate::json;
use crate::json::{Fields, Json};
use crate::outside;
use crate::outside::{base64_decode, base64_encode};
use crate::path;
use crate::path::extension;
use crate::text;
use crate::text::{chars_of, concat, join, split_once, strip_prefix, strip_suffix, text_eq};

verus! {

/// How many images a prompt may carry.
pub const MAX_IMAGES: usize = 8;

/// How many bytes an image may have.
pub const MAX_IMAGE_BYTES: u64 = 4194304;

/// What was found of a local file: its kind and size, then its contents. Each may have failed, with
/// a text that describes how.
#[derive(Debug)]
pub struct LocalFile {
    pub metadata: Result<FileFacts, String>,
    pub contents: Result<Vec<u8>, String>,
}

/// The kind and the size of a file.
#[derive(Debug, Clone, Copy)]
pub struct FileFacts {
    pub is_file: bool,
    pub len: u64,
}

/// A part of what the user sends.
#[derive(Debug)]
pub enum UserInput {
    Text { text: String },
    Image { url: String },
    LocalImage { path: String, file: LocalFile },
    Skill { name: String, path: String },
    Mention { name: String, path: String },
}

/// The content of a [`LocalFile`].
pub struct FileView {
    pub metadata: Result<FileFacts, Seq<char>>,
    pub contents: Result<Seq<u8>, Seq<char>>,
}

/// The content of a [`UserInput`].
pub enum InputView {
    Text { text: Seq<char> },
    Image { url: Seq<char> },
    LocalImage { path: Seq<char>, file: FileView },
    Skill { name: Seq<char>, path: Seq<char> },
    Mention { name: Seq<char>, path: Seq<char> },
}

impl View for LocalFile {
    type V = FileView;

    open spec fn view(&self) -> FileView {
        FileView {
            metadata: match self.metadata {
                Ok(facts) => Ok(facts),
                Err(fault) => Err(fault@),
            },
            contents: match self.contents {
                Ok(bytes) => Ok(bytes@),
                Err(fault) => Err(fault@),
            },
        }
    }
}

impl View for UserInput {
    type V = InputView;

    open spec fn view(&self) -> InputView {
        match self {
            UserInput::Text { text } => InputView::Text { text: text@ },
            UserInput::Image { url } => InputView::Image { url: url@ },
            UserInput::LocalImage { path, file } => InputView::LocalImage {
                path: path@,
                file: file@,
            },
            UserInput::Skill { name, path } => InputView::Skill { name: name@, path: path@ },
            UserInput::Mention { name, path } => InputView::Mention { name: name@, path: path@ },
        }
    }
}

/// The content of a list of inputs.
pub open spec fn inputs(items: Seq<UserInput>) -> Seq<InputView> {
    items.map_values(|item: UserInput| item@)
}

/// An image in base64, with its media type.
#[derive(Debug)]
pub struct PromptImage {
    pub data: String,
    pub mime_type: String,
}

/// The content of a [`PromptImage`].
pub struct ImageView {
    pub data: Seq<char>,
    pub mime_type: Seq<char>,
}

impl View for PromptImage {
    type V = ImageView;

    open spec fn view(&self) -> ImageView {
        ImageView { data: self.data@, mime_type: self.mime_type@ }
    }
}

/// The content of a list of images.
pub open spec fn pictures(images: Seq<PromptImage>) -> Seq<ImageView> {
    images.map_values(|image: PromptImage| image@)
}

/// The document for an image.
pub open spec fn image_document(image: ImageView) -> json::JsonView {
    json::JsonView::Object(
        seq![
            ("type"@, json::JsonView::Text("image"@)),
            ("data"@, json::JsonView::Text(image.data)),
            ("mimeType"@, json::JsonView::Text(image.mime_type)),
        ],
    )
}

// ---------------------------------------------------------------------------
// Images in data URLs
// ---------------------------------------------------------------------------

/// Whether images of a media type are accepted.
pub open spec fn allowed_mime(mime_type: Seq<char>) -> bool {
    ||| mime_type == "image/png"@
    ||| mime_type == "image/jpeg"@
    ||| mime_type == "image/webp"@
}

/// The media type and the base64 text of a data URL.
pub open spec fn spec_parse_data_url(url: Seq<char>) -> Result<ImageView, error::ErrorView> {
    match text::spec_strip_prefix(url, "data:"@) {
        None => Err(
            error::protocol_fault(
                "OMP remote image URLs are disabled; stage the image in the sandbox"@,
            ),
        ),
        Some(rest) => match text::spec_split_once(rest, ',') {
            None => Err(error::protocol_fault("OMP image data URL is malformed"@)),
            Some((header, data)) => match text::spec_strip_suffix(header, ";base64"@) {
                None => Err(error::protocol_fault("OMP image data URL must use base64"@)),
                Some(mime_type) => if allowed_mime(mime_type) {
                    Ok(ImageView { data, mime_type })
                } else {
                    Err(error::protocol_fault("OMP image MIME type is not allowlisted"@))
                },
            },
        },
    }
}

/// Reads the media type and the base64 text of a data URL.
pub fn parse_data_url(url: &str) -> (r: Result<PromptImage, HarnessServerError>)
    ensures
        error::agrees(r, spec_parse_data_url(url@)),
{
    let rest = match strip_prefix(url, "data:") {
        Some(rest) => rest,
        None => {
            return Err(
                protocol_error("OMP remote image URLs are disabled; stage the image in the sandbox"),
            );
        },
    };
    let (header, data) = match split_once(rest, ',') {
        Some(parts) => parts,
        None => {
            return Err(protocol_error("OMP image data URL is malformed"));
        },
    };
    let mime_type = match strip_suffix(header, ";base64") {
        Some(mime_type) => mime_type,
        None => {
            return Err(protocol_error("OMP image data URL must use base64"));
        },
    };
    if !text_eq(mime_type, "image/png") && !text_eq(mime_type, "image/jpeg") && !text_eq(
        mime_type,
        "image/webp",
    ) {
        return Err(protocol_error("OMP image MIME type is not allowlisted"));
    }
    Ok(PromptImage { data: data.to_owned(), mime_type: mime_type.to_owned() })
}

/// The image of a data URL, given what its base64 text decodes to.
pub open spec fn spec_accept_decoded(
    image: ImageView,
    decoded: Result<Seq<u8>, Seq<char>>,
) -> Result<ImageView, error::ErrorView> {
    match decoded {
        Err(fault) => Err(error::protocol_fault("OMP image base64 is invalid: "@ + fault)),
        Ok(bytes) => if bytes.len() > MAX_IMAGE_BYTES {
            Err(error::protocol_fault("OMP image data exceeds its byte limit"@))
        } else {
            Ok(image)
        },
    }
}

/// Accepts the image of a data URL if its base64 text decoded to bytes within the limit.
pub fn accept_decoded(image: PromptImage, decoded: Result<Vec<u8>, String>) -> (r: Result<
    PromptImage,
    HarnessServerError,
>)
    ensures
        error::agrees(
            r,
            spec_accept_decoded(
                image@,
                match decoded {
                    Ok(bytes) => Ok(bytes@),
                    Err(fault) => Err(fault@),
                },
            ),
        ),
{
    match decoded {
        Err(fault) => {
            let message = concat("OMP image base64 is invalid: ", fault.as_str());
            Err(protocol_error(message.as_str()))
        },
        Ok(bytes) => if bytes.len() as u64 > MAX_IMAGE_BYTES {
            Err(protocol_error("OMP image data exceeds its byte limit"))
        } else {
            Ok(image)
        },
    }
}

/// The image of a data URL.
pub open spec fn spec_image_from_data_url(url: Seq<char>) -> Result<ImageView, error::ErrorView> {
    match spec_parse_data_url(url) {
        Err(e) => Err(e),
        Ok(image) => spec_accept_decoded(image, outside::base64_decoding(image.data)),
    }
}

/// Takes the image of a data URL, if it is a base64 one of an accepted type and size.
pub fn image_from_data_url(url: &str) -> (r: Result<PromptImage, HarnessServerError>)
    ensures
        error::agrees(r, spec_image_from_data_url(url@)),
{
    let image = match parse_data_url(url) {
        Ok(image) => image,
        Err(e) => {
            return Err(e);
        },
    };
    let decoded = base64_decode(image.data.as_str());
    accept_decoded(image, decoded)
}

// ---------------------------------------------------------------------------
// Images in local files
// ---------------------------------------------------------------------------

/// A character with an ASCII capital made small.
pub open spec fn ascii_lower(c: char) -> char {
    if 'A' <= c <= 'Z' {
        ((c as u32) + 32) as char
    } else {
        c
    }
}

/// A text with the ASCII capitals made small.
pub open spec fn spec_lowercase(s: Seq<char>) -> Seq<char> {
    s.map_values(|c: char| ascii_lower(c))
}

/// The media type that the extension of a path stands for.
pub open spec fn spec_image_mime(path: Seq<char>) -> Result<Seq<char>, error::ErrorView> {
    let refused = Err(error::protocol_fault("OMP local image type is not allowlisted"@));
    match path::spec_extension(path) {
        None => refused,
        Some(extension) => {
            let kind = spec_lowercase(extension);
            if kind == "png"@ {
                Ok("image/png"@)
            } else if kind == "jpg"@ || kind == "jpeg"@ {
                Ok("image/jpeg"@)
            } else if kind == "webp"@ {
                Ok("image/webp"@)
            } else {
                refused
            }
        },
    }
}

/// Whether a text with the ASCII capitals made small is `word`.
fn is_lowercase_of(s: &str, word: &str) -> (yes: bool)
    ensures
        yes == (spec_lowercase(s@) == word@),
{
    let x = chars_of(s);
    let y = chars_of(word);
    if x.len() != y.len() {
        assert(spec_lowercase(s@).len() != word@.len());
        return false;
    }
    let mut i: usize = 0;
    while i < x.len()
        invariant
            i <= x@.len(),
            x@ == s@,
            y@ == word@,
            x@.len() == y@.len(),
            forall|j: int| 0 <= j < i ==> ascii_lower(s@[j]) == #[trigger] word@[j],
        decreases x@.len() - i,
    {
        let c: char = x[i];
        let d: char = y[i];
        let same = if 'A' <= c && c <= 'Z' {
            'a' <= d && d <= 'z' && d as u32 == c as u32 + 32
        } else {
            c == d
        };
        assert(same == (ascii_lower(c) == d));
        if !same {
            assert(spec_lowercase(s@)[i as int] != word@[i as int]);
            return false;
        }
        i += 1;
    }
    assert(spec_lowercase(s@) =~= word@);
    true
}

/// The media type that the extension of a path stands for.
pub fn image_mime(path: &str) -> (r: Result<&'static str, HarnessServerError>)
    ensures
        error::agrees(r, spec_image_mime(path@)),
{
    match extension(path) {
        Some(extension) => {
            let kind = extension.as_str();
            if is_lowercase_of(kind, "png") {
                Ok("image/png")
            } else if is_lowercase_of(kind, "jpg") || is_lowercase_of(kind, "jpeg") {
                Ok("image/jpeg")
            } else if is_lowercase_of(kind, "webp") {
                Ok("image/webp")
            } else {
                Err(protocol_error("OMP local image type is not allowlisted"))
            }
        },
        None => Err(protocol_error("OMP local image type is not allowlisted")),
    }
}

/// The image in a local file.
pub open spec fn spec_image_from_path(path: Seq<char>, file: FileView) -> Result<
    ImageView,
    error::ErrorView,
> {
    match file.metadata {
        Err(fault) => Err(error::ErrorView::Io(fault)),
        Ok(facts) => if !facts.is_file || facts.len > MAX_IMAGE_BYTES {
            Err(
                error::protocol_fault(
                    "OMP image must be a regular file no larger than 4194304 bytes"@,
                ),
            )
        } else {
            match file.contents {
                Err(fault) => Err(error::ErrorView::Io(fault)),
                Ok(bytes) => match spec_image_mime(path) {
                    Err(e) => Err(e),
                    Ok(mime_type) => Ok(
                        ImageView { data: outside::base64_encoding(bytes), mime_type },
                    ),
                },
            }
        },
    }
}

/// Whether the contents of a file can be written in base64 within memory.
pub open spec fn file_encodable(file: FileView) -> bool {
    file.contents matches Ok(bytes) ==> outside::encodable(bytes.len())
}

/// Takes the image in a local file, if it is a regular file of an accepted type and size. Decoding
/// the image gives the contents of the file.
pub fn image_from_path(path: &str, file: &LocalFile) -> (r: Result<PromptImage, HarnessServerError>)
    requires
        file_encodable(file@),
    ensures
        error::agrees(r, spec_image_from_path(path@, file@)),
        r matches Ok(image) ==> file.contents matches Ok(bytes)
            && outside::base64_decoding(image.data@) == Ok::<Seq<u8>, Seq<char>>(bytes@),
{
    match &file.metadata {
        Err(fault) => Err(HarnessServerError::Io(fault.clone())),
        Ok(facts) => {
            if !facts.is_file || facts.len > MAX_IMAGE_BYTES {
                return Err(
                    protocol_error("OMP image must be a regular file no larger than 4194304 bytes"),
                );
            }
            match &file.contents {
                Err(fault) => Err(HarnessServerError::Io(fault.clone())),
                Ok(bytes) => match image_mime(path) {
                    Err(e) => Err(e),
                    Ok(mime_type) => {
                        let data = base64_encode(bytes.as_slice());
                        Ok(PromptImage { data, mime_type: mime_type.to_owned() })
                    },
                },
            }
        },
    }
}

// ---------------------------------------------------------------------------
// Prompts
// ---------------------------------------------------------------------------

/// The paragraphs and the images of a prompt.
pub struct Gathered {
    pub messages: Seq<Seq<char>>,
    pub images: Seq<ImageView>,
}

/// What one more input adds to a prompt.
pub open spec fn gather_one(done: Gathered, item: InputView) -> Result<
    Gathered,
    error::ErrorView,
> {
    match item {
        InputView::Text { text } => Ok(Gathered { messages: done.messages.push(text), ..done }),
        InputView::Image { url } => match spec_image_from_data_url(url) {
            Err(e) => Err(e),
            Ok(image) => Ok(Gathered { images: done.images.push(image), ..done }),
        },
        InputView::LocalImage { path, file } => match spec_image_from_path(path, file) {
            Err(e) => Err(e),
            Ok(image) => Ok(Gathered { images: done.images.push(image), ..done }),
        },
        InputView::Skill { name, path } => Ok(
            Gathered {
                messages: done.messages.push("[skill: "@ + name + " at "@ + path + "]"@),
                ..done
            },
        ),
        InputView::Mention { name, path } => Ok(
            Gathered {
                messages: done.messages.push("[mention: "@ + name + " at "@ + path + "]"@),
                ..done
            },
        ),
    }
}

/// The paragraphs and images of a list of inputs: the first input that is refused, or that brings
/// one image too many, decides the error.
pub open spec fn gather(items: Seq<InputView>) -> Result<Gathered, error::ErrorView>
    decreases items.len(),
{
    if items.len() == 0 {
        Ok(Gathered { messages: seq![], images: seq![] })
    } else {
        match gather(items.drop_last()) {
            Err(e) => Err(e),
            Ok(done) => match gather_one(done, items.last()) {
                Err(e) => Err(e),
                Ok(more) => if more.images.len() > MAX_IMAGES {
                    Err(error::protocol_fault("OMP input exceeds the 8-image limit"@))
                } else {
                    Ok(more)
                },
            },
        }
    }
}

/// The message and the images of a prompt. A prompt without a paragraph asks to look at the images.
pub open spec fn spec_prompt_content(items: Seq<InputView>) -> Result<
    (Seq<char>, Seq<ImageView>),
    error::ErrorView,
> {
    match gather(items) {
        Err(e) => Err(e),
        Ok(all) => {
            let messages = if all.messages.len() == 0 {
                seq!["Review the attached image."@]
            } else {
                all.messages
            };
            Ok((text::spec_join(messages, "\n\n"@), all.images))
        },
    }
}

/// A refusal of an input stands for the whole list.
proof fn lemma_gather_fails(items: Seq<InputView>, n: int)
    requires
        0 <= n <= items.len(),
        gather(items.take(n)) is Err,
    ensures
        gather(items) == gather(items.take(n)),
    decreases items.len(),
{
    if n < items.len() {
        assert(items.drop_last().take(n) =~= items.take(n));
        lemma_gather_fails(items.drop_last(), n);
    } else {
        assert(items.take(n) =~= items);
    }
}

/// A reference to a skill or to something mentioned.
fn reference(opening: &str, name: &str, path: &str) -> (r: String)
    ensures
        r@ == opening@ + name@ + " at "@ + path@ + "]"@,
{
    let mut r = opening.to_owned();
    r.append(name);
    r.append(" at ");
    r.append(path);
    r.append("]");
    r
}

/// Whether every local file of a list of inputs can be written in base64 within memory.
pub open spec fn all_encodable(items: Seq<InputView>) -> bool {
    forall|i: int|
        0 <= i < items.len() ==> ((#[trigger] items[i]) matches InputView::LocalImage {
            path,
            file,
        } ==> file_encodable(file))
}

/// The message and the images of a prompt.
#[derive(Debug)]
pub struct Prompt {
    pub message: String,
    pub images: Vec<PromptImage>,
}

impl View for Prompt {
    type V = (Seq<char>, Seq<ImageView>);

    open spec fn view(&self) -> (Seq<char>, Seq<ImageView>) {
        (self.message@, pictures(self.images@))
    }
}

/// Puts a prompt together from what the user sent.
pub fn prompt_content(input: &[UserInput]) -> (r: Result<Prompt, HarnessServerError>)
    requires
        all_encodable(inputs(input@)),
    ensures
        error::agrees(r, spec_prompt_content(inputs(input@))),
{
    let mut messages: Vec<String> = Vec::new();
    let mut images: Vec<PromptImage> = Vec::new();
    let ghost all = inputs(input@);
    assert(text::texts(messages@) =~= seq![]);
    assert(pictures(images@) =~= seq![]);
    let mut i: usize = 0;
    while i < input.len()
        invariant
            i <= input@.len(),
            all == inputs(input@),
            all_encodable(all),
            gather(all.take(i as int)) == Ok::<Gathered, error::ErrorView>(
                Gathered { messages: text::texts(messages@), images: pictures(images@) },
            ),
        decreases input@.len() - i,
    {
        let ghost done = Gathered {
            messages: text::texts(messages@),
            images: pictures(images@),
        };
        proof {
            assert(all.take(i + 1).drop_last() =~= all.take(i as int));
            assert(all.take(i + 1).last() == all[i as int]);
            assert(all[i as int] == input@[i as int]@);
        }
        match &input[i] {
            UserInput::Text { text } => {
                messages.push(text.clone());
            },
            UserInput::Image { url } => match image_from_data_url(url.as_str()) {
                Ok(image) => {
                    images.push(image);
                },
                Err(e) => {
                    proof {
                        lemma_gather_fails(all, i + 1);
                    }
                    return Err(e);
                },
            },
            UserInput::LocalImage { path, file } => match image_from_path(path.as_str(), file) {
                Ok(image) => {
                    images.push(image);
                },
                Err(e) => {
                    proof {
                        lemma_gather_fails(all, i + 1);
                    }
                    return Err(e);
                },
            },
            UserInput::Skill { name, path } => {
                messages.push(reference("[skill: ", name.as_str(), path.as_str()));
            },
            UserInput::Mention { name, path } => {
                messages.push(reference("[mention: ", name.as_str(), path.as_str()));
            },
        }
        proof {
            let more = gather_one(done, all[i as int])->Ok_0;
            assert(text::texts(messages@) =~= more.messages);
            assert(pictures(images@) =~= more.images);
        }
        if images.len() > MAX_IMAGES {
            proof {
                lemma_gather_fails(all, i + 1);
            }
            return Err(protocol_error("OMP input exceeds the 8-image limit"));
        }
        i += 1;
    }
    assert(all.take(i as int) =~= all);
    if messages.len() == 0 {
        messages.push("Review the attached image.".to_owned());
        assert(text::texts(messages@) =~= seq!["Review the attached image."@]);
    }
    let message = join(&messages, "\n\n");
    Ok(Prompt { message, images })
}

/// A prompt carries no more images than the limit.
pub proof fn law_prompt_images_are_bounded(items: Seq<InputView>)
    ensures
        spec_prompt_content(items) matches Ok(prompt) ==> prompt.1.len() <= MAX_IMAGES,
    decreases items.len(),
{
    if items.len() > 0 {
        law_prompt_images_are_bounded(items.drop_last());
    }
}

/// Every image of a prompt has an accepted media type.
pub proof fn law_prompt_images_are_allowed(items: Seq<InputView>)
    ensures
        spec_prompt_content(items) matches Ok(prompt) ==> forall|i: int|
            0 <= i < prompt.1.len() ==> allowed_mime((#[trigger] prompt.1[i]).mime_type),
    decreases items.len(),
{
    if items.len() > 0 {
        law_prompt_images_are_allowed(items.drop_last());
        if gather(items) is Ok {
            let done = gather(items.drop_last())->Ok_0;
            let all = gather(items)->Ok_0;
            assert forall|i: int| 0 <= i < all.images.len() implies allowed_mime(
                (#[trigger] all.images[i]).mime_type,
            ) by {
                if i < done.images.len() {
                    assert(all.images[i] == done.images[i]);
                    assert(spec_prompt_content(items.drop_last())->Ok_0.1[i] == done.images[i]);
                }
            }
        }
    }
}

/// Every image of a data URL that is accepted decodes to bytes within the limit.
pub proof fn law_data_url_images_are_bounded(url: Seq<char>)
    ensures
        spec_image_from_data_url(url) matches Ok(image) ==> (outside::base64_decoding(
            image.data,
        ) matches Ok(bytes) && bytes.len() <= MAX_IMAGE_BYTES),
{
}

/// The documents for a list of images.
pub fn image_documents(images: &Vec<PromptImage>) -> (r: Vec<Json>)
    ensures
        json::items_content(r@) == pictures(images@).map_values(|v: ImageView| image_document(v)),
{
    let mut r: Vec<Json> = Vec::new();
    let ghost want = pictures(images@).map_values(|v: ImageView| image_document(v));
    let mut i: usize = 0;
    while i < images.len()
        invariant
            i <= images@.len(),
            want == pictures(images@).map_values(|v: ImageView| image_document(v)),
            json::items_content(r@) == want.take(i as int),
        decreases images@.len() - i,
    {
        let ghost before = r@;
        let image = &images[i];
        let fields = Fields::new().add_text("type", "image").add_text(
            "data",
            image.data.as_str(),
        ).add_text("mimeType", image.mime_type.as_str());
        assert(fields@ =~= image_document(image@)->Object_0);
        r.push(fields.object());
        assert(r@.drop_last() =~= before);
        assert(json::items_content(r@) =~= want.take(i + 1));
        i += 1;
    }
    assert(want.take(i as int) =~= want);
    r
}

} // verus!
