use omp_harness::prompt::{
    accept_decoded, image_documents, image_from_data_url, image_from_path, image_mime,
    parse_data_url, prompt_content, FileFacts, LocalFile, PromptImage, UserInput,
};

fn text(s: &str) -> UserInput {
    UserInput::Text { text: s.to_owned() }
}

fn image(url: &str) -> UserInput {
    UserInput::Image { url: url.to_owned() }
}

fn file(is_file: bool, len: u64, contents: Result<Vec<u8>, String>) -> LocalFile {
    LocalFile { metadata: Ok(FileFacts { is_file, len }), contents }
}

const PNG: &str = "data:image/png;base64,iVBORw0KGgo=";

#[test]
fn paragraphs_are_joined_and_references_written_out() {
    let prompt = prompt_content(&[
        text("one"),
        UserInput::Skill { name: "lint".to_owned(), path: "/skills/lint".to_owned() },
        UserInput::Mention { name: "doc".to_owned(), path: "app://doc".to_owned() },
        image(PNG),
        text(""),
    ])
    .unwrap();
    assert_eq!(
        prompt.message,
        "one\n\n[skill: lint at /skills/lint]\n\n[mention: doc at app://doc]\n\n"
    );
    assert_eq!(prompt.images.len(), 1);
    assert_eq!(prompt.images[0].data, "iVBORw0KGgo=");
    assert_eq!(prompt.images[0].mime_type, "image/png");
}

#[test]
fn a_prompt_without_text_asks_to_look_at_the_image() {
    assert_eq!(prompt_content(&[image(PNG)]).unwrap().message, "Review the attached image.");
    assert_eq!(prompt_content(&[]).unwrap().message, "Review the attached image.");
}

#[test]
fn images_are_limited() {
    let eight: Vec<UserInput> = (0..8).map(|_| image(PNG)).collect();
    assert_eq!(prompt_content(&eight).unwrap().images.len(), 8);
    let mut nine: Vec<UserInput> = (0..9).map(|_| image(PNG)).collect();
    nine.push(image("http://example.com/x.png"));
    assert_eq!(
        prompt_content(&nine).unwrap_err().message(),
        "OMP protocol error: OMP input exceeds the 8-image limit"
    );
}

#[test]
fn data_urls_are_checked() {
    let message = |url: &str| image_from_data_url(url).unwrap_err().message();
    assert_eq!(
        message("https://example.com/x.png"),
        "OMP protocol error: OMP remote image URLs are disabled; stage the image in the sandbox"
    );
    assert_eq!(message("data:image/png"), "OMP protocol error: OMP image data URL is malformed");
    assert_eq!(
        message("data:image/png,abc"),
        "OMP protocol error: OMP image data URL must use base64"
    );
    assert_eq!(
        message("data:image/gif;base64,abc"),
        "OMP protocol error: OMP image MIME type is not allowlisted"
    );
    assert_eq!(
        message("data:image/png;base64,a*bc"),
        "OMP protocol error: OMP image base64 is invalid: Invalid symbol 42, offset 1."
    );
    for mime in ["image/png", "image/jpeg", "image/webp"] {
        let url = format!("data:{mime};base64,aGVsbG8=");
        assert_eq!(image_from_data_url(&url).unwrap().mime_type, mime);
        assert_eq!(parse_data_url(&url).unwrap().data, "aGVsbG8=");
    }
    let first = prompt_content(&[image("data:,"), image("http://x")]).unwrap_err().message();
    assert_eq!(first, "OMP protocol error: OMP image data URL must use base64");
}

#[test]
fn decoded_images_are_limited_in_size() {
    let made = || PromptImage { data: "x".to_owned(), mime_type: "image/png".to_owned() };
    assert_eq!(accept_decoded(made(), Ok(vec![0; 4194304])).unwrap().data, "x");
    assert_eq!(
        accept_decoded(made(), Ok(vec![0; 4194305])).unwrap_err().message(),
        "OMP protocol error: OMP image data exceeds its byte limit"
    );
    assert!(accept_decoded(made(), Err("bad".to_owned())).is_err());
    let url = format!("data:image/png;base64,{}", "AAAA".repeat(1398102));
    assert_eq!(
        image_from_data_url(&url).unwrap_err().message(),
        "OMP protocol error: OMP image data exceeds its byte limit"
    );
}

#[test]
fn local_images_are_encoded() {
    let image = image_from_path("/tmp/a.PnG", &file(true, 5, Ok(b"hello".to_vec()))).unwrap();
    assert_eq!((image.data.as_str(), image.mime_type.as_str()), ("aGVsbG8=", "image/png"));
    let prompt = prompt_content(&[UserInput::LocalImage {
        path: "/tmp/a.jpeg".to_owned(),
        file: file(true, 0, Ok(Vec::new())),
    }])
    .unwrap();
    assert_eq!((prompt.images[0].data.as_str(), prompt.images[0].mime_type.as_str()), ("", "image/jpeg"));
    let documents = image_documents(&prompt.images);
    assert_eq!(
        format!("{:?}", documents[0]),
        "Object([Member { name: \"type\", value: Text(\"image\") }, Member { name: \"data\", \
         value: Text(\"\") }, Member { name: \"mimeType\", value: Text(\"image/jpeg\") }])"
    );
}

#[test]
fn local_images_are_checked() {
    let message =
        |path: &str, file: LocalFile| image_from_path(path, &file).unwrap_err().message();
    let limit = "OMP protocol error: OMP image must be a regular file no larger than 4194304 bytes";
    assert_eq!(message("/a.png", file(false, 1, Ok(vec![]))), limit);
    assert_eq!(message("/a.png", file(true, 4194305, Ok(vec![]))), limit);
    assert!(image_from_path("/a.png", &file(true, 4194304, Ok(vec![]))).is_ok());
    assert_eq!(message("/a.gif", file(true, 1, Err("denied".to_owned()))), "denied");
    let gone = LocalFile { metadata: Err("gone".to_owned()), contents: Ok(vec![]) };
    assert_eq!(message("/a.png", gone), "gone");
    assert_eq!(
        message("/a.gif", file(true, 1, Ok(vec![]))),
        "OMP protocol error: OMP local image type is not allowlisted"
    );
    assert_eq!(image_mime("x.JPG").unwrap(), "image/jpeg");
    assert_eq!(image_mime("x.webp").unwrap(), "image/webp");
    assert!(image_mime("png").is_err());
    assert!(image_mime(".png").is_err());
    assert!(image_mime("x.PNGX").is_err());
}
