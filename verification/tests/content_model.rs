use arena_fetch::headers::{
    AttachmentData, ChannelThumb, Class, Content, ImageData, ImageUrl, SourceData, defaul_false,
};

fn bare_item(class: Class, id: u32) -> Content {
    Content {
        id,
        created_at: "2023-01-01T00:00:00.000Z".to_string(),
        updated_at: "2023-01-02T00:00:00.000Z".to_string(),
        slug: None,
        class,
        base_class: "Block".to_string(),
        content: None,
        content_html: None,
        position: 0,
        source: None,
        title: None,
        image: None,
        path: None,
        attachment: None,
        downloaded: Some(false),
    }
}

fn attachment_payload(extension: &str, url: &str) -> AttachmentData {
    AttachmentData {
        file_name: "file".to_string(),
        file_size: 1024,
        file_size_display: "1 KB".to_string(),
        content_type: "application/octet-stream".to_string(),
        extension: extension.to_string(),
        url: url.to_string(),
    }
}

fn image_payload(filename: Option<&str>, display_url: &str) -> ImageData {
    ImageData {
        filename: filename.map(|f| f.to_string()),
        content_type: Some("image/png".to_string()),
        display: ImageUrl { url: display_url.to_string() },
        thumb: ImageUrl { url: "http://cdn/thumb.png".to_string() },
        square: ImageUrl { url: "http://cdn/square.png".to_string() },
    }
}

#[test]
fn attachment_path() {
    let mut item = bare_item(Class::Attachment, 42);
    item.attachment = Some(attachment_payload("pdf", "http://cdn/42.pdf"));
    item.add_path("channels/foo".to_string());
    assert_eq!(item.get_attachment_path(), "channels/foo/42.pdf");
    assert_eq!(item.get_path(), "channels/foo/42.pdf");
}

#[test]
fn text_path() {
    let mut item = bare_item(Class::Text, 7);
    item.add_path("channels/foo".to_string());
    assert_eq!(item.get_text_path(), "channels/foo/7.md");
    assert_eq!(item.get_path(), "channels/foo/7.md");
}

#[test]
fn link_path() {
    let mut item = bare_item(Class::Link, 9);
    item.add_path("channels/foo".to_string());
    assert_eq!(item.get_link_path(), "channels/foo/9.url");
    assert_eq!(item.get_path(), "channels/foo/9.url");
}

#[test]
fn media_path_uses_url_extension() {
    let mut item = bare_item(Class::Media, 11);
    item.add_path("channels/foo".to_string());
    assert_eq!(item.get_path(), "channels/foo/11.url");
}

#[test]
fn channel_path_is_base_path() {
    let mut item = bare_item(Class::Channel, 3);
    item.add_path("channels/foo".to_string());
    assert_eq!(item.get_channel_path(), "channels/foo");
    assert_eq!(item.get_path(), "channels/foo");
}

#[test]
fn image_path_from_payload_filename() {
    let mut item = bare_item(Class::Image, 5);
    item.image = Some(image_payload(Some("photo.jpeg"), "http://cdn/photo.jpeg"));
    item.add_path("channels/foo".to_string());
    assert_eq!(item.get_image_path(), "channels/foo/5.jpeg");
    assert_eq!(item.get_path(), "channels/foo/5.jpeg");
}

#[test]
fn image_path_falls_back_to_source_url() {
    let mut item = bare_item(Class::Image, 5);
    item.source = Some(SourceData { url: Some("http://x/y.png".to_string()) });
    item.add_path("channels/foo".to_string());
    assert_eq!(item.get_image_path(), "channels/foo/5.png");
}

#[test]
fn image_url_prefers_payload_over_source() {
    let mut item = bare_item(Class::Image, 5);
    item.image = Some(image_payload(Some("photo.png"), "http://cdn/display.png"));
    item.source = Some(SourceData { url: Some("http://orig/source.png".to_string()) });
    assert_eq!(item.get_content_url(), "http://cdn/display.png");
}

#[test]
fn image_url_falls_back_to_source() {
    let mut item = bare_item(Class::Image, 5);
    item.source = Some(SourceData { url: Some("http://orig/source.png".to_string()) });
    assert_eq!(item.get_content_url(), "http://orig/source.png");
}

#[test]
fn link_url_without_image_is_empty() {
    let item = bare_item(Class::Link, 5);
    assert_eq!(item.get_content_url(), "");
}

#[test]
fn link_url_with_image_is_display() {
    let mut item = bare_item(Class::Link, 5);
    item.image = Some(image_payload(None, "http://cdn/display.png"));
    assert_eq!(item.get_content_url(), "http://cdn/display.png");
}

#[test]
fn attachment_url() {
    let mut item = bare_item(Class::Attachment, 5);
    item.attachment = Some(attachment_payload("pdf", "http://cdn/file.pdf"));
    assert_eq!(item.get_content_url(), "http://cdn/file.pdf");
}

#[test]
fn text_content_is_html_verbatim() {
    let mut item = bare_item(Class::Text, 5);
    item.content_html = Some("<p>hello</p>".to_string());
    assert_eq!(item.get_content(), "<p>hello</p>");
}

#[test]
fn link_content_is_shortcut_file() {
    let mut item = bare_item(Class::Link, 5);
    item.source = Some(SourceData { url: Some("http://x/page".to_string()) });
    assert_eq!(item.get_content(), "[InternetShortcut]\nURL=http://x/page");
}

#[test]
fn media_content_is_shortcut_file() {
    let mut item = bare_item(Class::Media, 5);
    item.source = Some(SourceData { url: Some("http://vimeo/1".to_string()) });
    assert_eq!(item.get_content(), "[InternetShortcut]\nURL=http://vimeo/1");
}

#[test]
fn add_path_keeps_other_fields() {
    let mut item = bare_item(Class::Text, 8);
    item.add_path("somewhere".to_string());
    assert_eq!(item.path, Some("somewhere".to_string()));
    assert_eq!(item.id, 8);
    assert_eq!(item.class, Class::Text);
    assert_eq!(item.downloaded, Some(false));
}

#[test]
fn downloaded_defaults_to_false() {
    assert_eq!(defaul_false(), Some(false));
}

#[test]
fn channel_thumb_path() {
    let thumb = ChannelThumb {
        title: "Foo".to_string(),
        id: 1,
        slug: "foo".to_string(),
        created_at: "c".to_string(),
        updated_at: "u".to_string(),
        length: 10,
        status: None,
        owner_id: None,
    };
    assert_eq!(thumb.get_path(), "channels/foo/");
}

#[test]
fn channel_thumb_from_content() {
    let mut item = bare_item(Class::Channel, 77);
    item.title = Some("Nested".to_string());
    item.slug = Some("nested".to_string());
    let thumb = ChannelThumb::from_content(&item);
    assert_eq!(thumb.title, "Nested");
    assert_eq!(thumb.id, 77);
    assert_eq!(thumb.slug, "nested");
    assert_eq!(thumb.created_at, item.created_at);
    assert_eq!(thumb.updated_at, item.updated_at);
    assert_eq!(thumb.length, 0);
    assert_eq!(thumb.status, None);
    assert_eq!(thumb.owner_id, None);
}
