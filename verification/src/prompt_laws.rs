//! What a prompt holds, said of the inputs that it is made of.

use vstd::prelude::*;

use crate::error;
use crate::outside;
use crate::path;
use crate::prompt;
use crate::prompt::{ImageView, InputView};
use crate::text;
use crate::text_laws;

verus! {

/// Whether an input brings an image.
pub open spec fn brings_image() -> spec_fn(InputView) -> bool {
    |item: InputView| item is Image || item is LocalImage
}

/// Whether an input brings words.
pub open spec fn brings_words() -> spec_fn(InputView) -> bool {
    |item: InputView| !(item is Image) && !(item is LocalImage)
}

/// Whether a word is some lower-case word but for the case of its letters.
pub open spec fn spells(word: Seq<char>, lower: Seq<char>) -> bool {
    &&& word.len() == lower.len()
    &&& forall|i: int|
        0 <= i < word.len() ==> {
            ||| (#[trigger] word[i]) == lower[i] && !('A' <= word[i] <= 'Z')
            ||| 'A' <= word[i] <= 'Z' && word[i] as u32 + 32 == lower[i] as u32
        }
}

/// Whether an input is the very image: a data URL holds the type and the data of the image and
/// nothing else, and they decode to no more than 4194304 bytes; a local file is a regular file of no
/// more than 4194304 bytes, the data are the encoding of its contents, and its extension names the
/// type.
pub open spec fn is_the_image(item: InputView, image: ImageView) -> bool {
    match item {
        InputView::Image { url } => {
            &&& url == "data:"@ + image.mime_type + ";base64,"@ + image.data
            &&& image.mime_type == "image/png"@ || image.mime_type == "image/jpeg"@
                || image.mime_type == "image/webp"@
            &&& outside::base64_decoding(image.data) matches Ok(bytes)
            &&& bytes.len() <= 4194304
        },
        InputView::LocalImage { path, file } => {
            &&& file.metadata matches Ok(facts)
            &&& facts.is_file && facts.len <= 4194304
            &&& file.contents matches Ok(bytes)
            &&& image.data == outside::base64_encoding(bytes)
            &&& path::spec_extension(path) matches Some(extension)
            &&& {
                ||| spells(extension, "png"@) && image.mime_type == "image/png"@
                ||| spells(extension, "jpg"@) && image.mime_type == "image/jpeg"@
                ||| spells(extension, "jpeg"@) && image.mime_type == "image/jpeg"@
                ||| spells(extension, "webp"@) && image.mime_type == "image/webp"@
            }
        },
        _ => false,
    }
}

/// The words that an input brings.
pub open spec fn words_of(item: InputView) -> Seq<char> {
    match item {
        InputView::Text { text } => text,
        InputView::Skill { name, path } => "[skill: "@ + name + " at "@ + path + "]"@,
        InputView::Mention { name, path } => "[mention: "@ + name + " at "@ + path + "]"@,
        _ => seq![],
    }
}

proof fn lemma_spells(word: Seq<char>, lower: Seq<char>)
    requires
        forall|i: int| 0 <= i < lower.len() ==> 'a' <= #[trigger] lower[i] <= 'z',
    ensures
        spells(word, lower) == (prompt::spec_lowercase(word) == lower),
{
    let low = prompt::spec_lowercase(word);
    if spells(word, lower) {
        assert forall|i: int| 0 <= i < low.len() implies low[i] == lower[i] by {
            assert(word[i] == word[i]);
        }
        assert(low =~= lower);
    }
    if low == lower {
        assert forall|i: int| 0 <= i < word.len() implies {
            ||| (#[trigger] word[i]) == lower[i] && !('A' <= word[i] <= 'Z')
            ||| 'A' <= word[i] <= 'Z' && word[i] as u32 + 32 == lower[i] as u32
        } by {
            assert(low[i] == lower[i]);
        }
    }
}

proof fn lemma_data_url(url: Seq<char>, image: ImageView)
    ensures
        prompt::spec_image_from_data_url(url) == Ok::<ImageView, error::ErrorView>(image)
            <==> is_the_image(InputView::Image { url }, image),
{
    reveal_strlit("data:");
    reveal_strlit(";base64,");
    reveal_strlit(";base64");
    reveal_strlit("image/png");
    reveal_strlit("image/jpeg");
    reveal_strlit("image/webp");
    assert(";base64,"@ =~= ";base64"@ + seq![',']);
    if prompt::spec_image_from_data_url(url) == Ok::<ImageView, error::ErrorView>(image) {
        let rest = url.skip(5);
        assert(url =~= "data:"@ + rest);
        text::lemma_find(rest, ',');
        let at = text::spec_find(rest, ',');
        let header = rest.take(at);
        assert(rest =~= header + seq![','] + image.data);
        assert(header =~= image.mime_type + ";base64"@);
        assert(url =~= "data:"@ + image.mime_type + ";base64,"@ + image.data);
    }
    if is_the_image(InputView::Image { url }, image) {
        let rest = url.skip(5);
        assert(url.take(5) =~= "data:"@);
        assert(rest =~= image.mime_type + ";base64,"@ + image.data);
        let header = image.mime_type + ";base64"@;
        let at = header.len() as int;
        assert(rest[at] == ',');
        assert forall|j: int| 0 <= j < at implies rest[j] != ',' by {
            assert(rest[j] == header[j]);
        }
        text::lemma_find_at(rest, ',', at);
        assert(rest.take(at) =~= header);
        assert(rest.skip(at + 1) =~= image.data);
        assert(header.skip(header.len() - 7) =~= ";base64"@);
        assert(header.take(header.len() - 7) =~= image.mime_type);
        assert(rest.contains(','));
    }
}

proof fn lemma_local_image(path: Seq<char>, file: prompt::FileView, image: ImageView)
    ensures
        prompt::spec_image_from_path(path, file) == Ok::<ImageView, error::ErrorView>(
            image,
        ) <==> is_the_image(InputView::LocalImage { path, file }, image),
{
    reveal_strlit("png");
    reveal_strlit("jpg");
    reveal_strlit("jpeg");
    reveal_strlit("webp");
    assert("png"@.len() == 3 && "png"@[0] == 'p');
    assert("jpg"@.len() == 3 && "jpg"@[0] == 'j');
    assert("jpeg"@.len() == 4 && "jpeg"@[0] == 'j');
    assert("webp"@.len() == 4 && "webp"@[0] == 'w');
    if let Some(extension) = path::spec_extension(path) {
        lemma_spells(extension, "png"@);
        lemma_spells(extension, "jpg"@);
        lemma_spells(extension, "jpeg"@);
        lemma_spells(extension, "webp"@);
    }
}

/// The images of a prompt are those of the inputs that bring one: there are as many, and each is the
/// very image of the input that stands at its place among them.
pub proof fn law_images_follow_the_inputs(items: Seq<InputView>)
    ensures
        prompt::spec_prompt_content(items) matches Ok((message, images)) ==> {
            let sources = items.filter(brings_image());
            &&& images.len() == sources.len()
            &&& images.len() <= 8
            &&& forall|n: int|
                0 <= n < images.len() ==> is_the_image(#[trigger] sources[n], images[n])
        },
{
    lemma_gathered(items);
}

proof fn lemma_gathered(items: Seq<InputView>)
    ensures
        prompt::gather(items) matches Ok(all) ==> {
            let sources = items.filter(brings_image());
            let speakers = items.filter(brings_words());
            &&& all.images.len() == sources.len()
            &&& all.images.len() <= 8
            &&& forall|n: int|
                0 <= n < all.images.len() ==> is_the_image(#[trigger] sources[n], all.images[n])
            &&& all.messages.len() == speakers.len()
            &&& forall|n: int|
                0 <= n < all.messages.len() ==> #[trigger] all.messages[n] == words_of(speakers[n])
        },
    decreases items.len(),
{
    reveal(Seq::filter);
    if items.len() > 0 {
        lemma_gathered(items.drop_last());
        if let Ok(done) = prompt::gather(items.drop_last()) {
            if let Ok(more) = prompt::gather_one(done, items.last()) {
                match items.last() {
                    InputView::Image { url } => {
                        lemma_data_url(url, more.images.last());
                    },
                    InputView::LocalImage { path, file } => {
                        lemma_local_image(path, file, more.images.last());
                    },
                    _ => {},
                }
            }
        }
    }
}

/// The message of a prompt is made of the words of its inputs, in order, with an empty line between
/// two of them; where no input brings words it asks to look at the image.
pub proof fn law_message_follows_the_inputs(items: Seq<InputView>)
    ensures
        prompt::spec_prompt_content(items) matches Ok((message, images)) ==> {
            let speakers = items.filter(brings_words());
            if speakers.len() == 0 {
                message == "Review the attached image."@
            } else {
                message == text::spec_join(
                    speakers.map_values(|item: InputView| words_of(item)),
                    "\n\n"@,
                )
            }
        },
{
    lemma_gathered(items);
    if let Ok(all) = prompt::gather(items) {
        let speakers = items.filter(brings_words());
        assert(all.messages =~= speakers.map_values(|item: InputView| words_of(item)));
        if speakers.len() == 0 {
            assert(text::spec_join(seq!["Review the attached image."@], "\n\n"@)
                == "Review the attached image."@);
        }
    }
}

/// Words behind a prompt that has words already follow them after an empty line, and are the whole
/// message of one that has none; the images stay.
pub proof fn law_words_are_added_behind(items: Seq<InputView>, item: InputView)
    requires
        brings_words()(item),
    ensures
        match prompt::spec_prompt_content(items) {
            Err(e) => prompt::spec_prompt_content(items.push(item)) == Err::<
                (Seq<char>, Seq<ImageView>),
                error::ErrorView,
            >(e),
            Ok((message, images)) => prompt::spec_prompt_content(items.push(item)) == Ok::<
                (Seq<char>, Seq<ImageView>),
                error::ErrorView,
            >(
                (
                    if items.filter(brings_words()).len() == 0 {
                        words_of(item)
                    } else {
                        message + "\n\n"@ + words_of(item)
                    },
                    images,
                ),
            ),
        },
{
    let longer = items.push(item);
    assert(longer.drop_last() =~= items);
    lemma_gathered(items);
    if let Ok(all) = prompt::gather(items) {
        let words = all.messages.push(words_of(item));
        assert(words.drop_last() =~= all.messages);
        assert(words.last() == words_of(item));
    }
}

/// An image behind a prompt is added behind its images, and the message stays, as long as there are
/// no more than eight; the ninth is refused, and so is an input that should bring an image and does
/// not.
pub proof fn law_images_are_added_behind(
    items: Seq<InputView>,
    item: InputView,
    image: ImageView,
)
    requires
        brings_image()(item),
    ensures
        match prompt::spec_prompt_content(items) {
            Err(e) => prompt::spec_prompt_content(items.push(item)) == Err::<
                (Seq<char>, Seq<ImageView>),
                error::ErrorView,
            >(e),
            Ok((message, images)) => {
                &&& is_the_image(item, image) && images.len() < 8 ==> prompt::spec_prompt_content(
                    items.push(item),
                ) == Ok::<(Seq<char>, Seq<ImageView>), error::ErrorView>(
                    (message, images.push(image)),
                )
                &&& is_the_image(item, image) && images.len() >= 8 ==> prompt::spec_prompt_content(
                    items.push(item),
                ) == Err::<(Seq<char>, Seq<ImageView>), error::ErrorView>(
                    error::protocol_fault("OMP input exceeds the 8-image limit"@),
                )
            },
        },
        (forall|other: ImageView| !#[trigger] is_the_image(item, other))
            ==> prompt::spec_prompt_content(items.push(item)) is Err,
{
    let longer = items.push(item);
    assert(longer.drop_last() =~= items);
    match item {
        InputView::Image { url } => {
            lemma_data_url(url, image);
            if let Ok(other) = prompt::spec_image_from_data_url(url) {
                lemma_data_url(url, other);
            }
        },
        InputView::LocalImage { path, file } => {
            lemma_local_image(path, file, image);
            if let Ok(other) = prompt::spec_image_from_path(path, file) {
                lemma_local_image(path, file, other);
            }
        },
        _ => {},
    }
}

/// A URL that is no image is refused with what is wrong with it first: that it holds no data, no
/// comma, another encoding, another type, data that do not decode, or too many of them.
pub proof fn law_refused_urls(url: Seq<char>, head: Seq<char>, kind: Seq<char>, data: Seq<char>)
    ensures
        ({
            let refused = |message: Seq<char>|
                Err::<ImageView, error::ErrorView>(error::protocol_fault(message));
            &&& (url.len() < 5 || url.take(5) != "data:"@) ==> prompt::spec_image_from_data_url(url)
                == refused("OMP remote image URLs are disabled; stage the image in the sandbox"@)
            &&& !head.contains(',') ==> prompt::spec_image_from_data_url("data:"@ + head) == refused(
                "OMP image data URL is malformed"@,
            )
            &&& !head.contains(',') && (head.len() < 7 || head.skip(head.len() - 7) != ";base64"@)
                ==> prompt::spec_image_from_data_url("data:"@ + (head + seq![','] + data)) == refused(
                "OMP image data URL must use base64"@,
            )
            &&& !kind.contains(',') && kind != "image/png"@ && kind != "image/jpeg"@ && kind
                != "image/webp"@ ==> prompt::spec_image_from_data_url(
                "data:"@ + (kind + ";base64"@ + seq![','] + data),
            ) == refused("OMP image MIME type is not allowlisted"@)
        }),
{
    reveal_strlit("data:");
    reveal_strlit(";base64");
    assert("data:"@.len() == 5);
    assert(";base64"@.len() == 7);
    text_laws::law_stripped(head, "data:"@);
    text_laws::law_stripped(head + seq![','] + data, "data:"@);
    let full = kind + ";base64"@;
    text_laws::law_stripped(full + seq![','] + data, "data:"@);
    text_laws::law_stripped(kind, ";base64"@);
    if !head.contains(',') {
        text_laws::law_cut_what_was_joined(head, data, ',');
    }
    if !kind.contains(',') {
        assert(!full.contains(',')) by {
            if full.contains(',') {
                let i = choose|i: int| 0 <= i < full.len() && full[i] == ',';
                if i < kind.len() {
                    assert(kind[i] == ',');
                } else {
                    assert(";base64"@[i - kind.len()] == ',');
                }
            }
        }
        text_laws::law_cut_what_was_joined(full, data, ',');
    }
}

/// Data that do not decode, or decode to more than 4194304 bytes, are refused.
pub proof fn law_refused_data(image: ImageView, bytes: Seq<u8>, fault: Seq<char>)
    ensures
        prompt::spec_accept_decoded(image, Err(fault)) == Err::<ImageView, error::ErrorView>(
            error::protocol_fault("OMP image base64 is invalid: "@ + fault),
        ),
        prompt::spec_accept_decoded(image, Ok(bytes)) == if bytes.len() <= 4194304 {
            Ok::<ImageView, error::ErrorView>(image)
        } else {
            Err(error::protocol_fault("OMP image data exceeds its byte limit"@))
        },
{
}

/// A file that is no image is refused with what is wrong with it first: that nothing is known of it,
/// that it is not regular or too large, that it cannot be read, or that its name tells no accepted
/// type.
pub proof fn law_refused_files(path: Seq<char>, file: prompt::FileView)
    ensures
        ({
            let taken = prompt::spec_image_from_path(path, file);
            match file.metadata {
                Err(fault) => taken == Err::<ImageView, error::ErrorView>(
                    error::ErrorView::Io(fault),
                ),
                Ok(facts) => if !facts.is_file || facts.len > 4194304 {
                    taken == Err::<ImageView, error::ErrorView>(
                        error::protocol_fault(
                            "OMP image must be a regular file no larger than 4194304 bytes"@,
                        ),
                    )
                } else {
                    &&& file.contents matches Err(fault) ==> taken == Err::<
                        ImageView,
                        error::ErrorView,
                    >(error::ErrorView::Io(fault))
                    &&& file.contents is Ok && path::spec_extension(path) is None ==> taken == Err::<
                        ImageView,
                        error::ErrorView,
                    >(error::protocol_fault("OMP local image type is not allowlisted"@))
                },
            }
        }),
{
}

/// A prompt of nothing asks to look at the image and has none.
pub proof fn law_empty_prompt()
    ensures
        prompt::spec_prompt_content(Seq::empty()) == Ok::<
            (Seq<char>, Seq<ImageView>),
            error::ErrorView,
        >(("Review the attached image."@, Seq::empty())),
{
}

} // verus!
