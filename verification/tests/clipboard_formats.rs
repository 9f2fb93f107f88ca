use macrdp::clipboard::{decode_unicode_text, encode_unicode_text, UnicodeTextError};
use macrdp::dib::{dib_to_png, png_to_dib, tiff_to_png, ImageConvertError};
use macrdp::file_url::{file_url_str_to_path, percent_decode};
use macrdp::formats::{
    rdp_format_id_to_uti, utf16le_to_utf8, utf8_to_utf16le, uti_to_rdp_format_id, FORMAT_ID_FILE_LIST,
    FORMAT_ID_HTML,
};
use macrdp::html::{unwrap_html_format, wrap_html_format};

#[test]
fn utf8_to_utf16le_ascii() {
    let result = utf8_to_utf16le("hello");
    assert_eq!(result.len(), 12);
    assert_eq!(result[0], 0x68);
    assert_eq!(result[1], 0x00);
    assert_eq!(result[10], 0x00);
    assert_eq!(result[11], 0x00);
}

#[test]
fn utf8_to_utf16le_chinese() {
    let result = utf8_to_utf16le("你好");
    assert_eq!(result.len(), 6);
    assert_eq!(result[0], 0x60);
    assert_eq!(result[1], 0x4F);
}

#[test]
fn utf16le_to_utf8_roundtrip() {
    let original = "Hello 世界! 🎉";
    let encoded = utf8_to_utf16le(original);
    let decoded = utf16le_to_utf8(&encoded).unwrap();
    assert_eq!(decoded, original);
}

#[test]
fn utf16le_to_utf8_empty() {
    let result = utf16le_to_utf8(&[]);
    assert_eq!(result, Some(String::new()));
}

#[test]
fn utf16le_surrogate_pair_encodes_emoji() {
    let result = utf8_to_utf16le("🎉");
    assert_eq!(result, vec![0x3C, 0xD8, 0x89, 0xDF, 0x00, 0x00]);
}

#[test]
fn utf16le_to_utf8_trims_trailing_nuls_and_rejects_lone_surrogate() {
    assert_eq!(utf16le_to_utf8(&[0x41, 0x00, 0x00, 0x00, 0x00, 0x00]), Some("A".to_string()));
    assert_eq!(utf16le_to_utf8(&[0x41, 0x00, 0x00, 0x00, 0x42, 0x00]), Some("A\u{0}B".to_string()));
    assert_eq!(utf16le_to_utf8(&[0x00, 0xD8]), None);
}

#[test]
fn uti_to_rdp_text() {
    assert_eq!(uti_to_rdp_format_id("public.utf8-plain-text"), Some(13));
}

#[test]
fn uti_to_rdp_image() {
    assert_eq!(uti_to_rdp_format_id("public.png"), Some(8));
}

#[test]
fn uti_to_rdp_unknown() {
    assert_eq!(uti_to_rdp_format_id("com.apple.custom"), None);
}

#[test]
fn uti_to_rdp_html() {
    assert_eq!(uti_to_rdp_format_id("public.html"), Some(FORMAT_ID_HTML));
}

#[test]
fn uti_to_rdp_file_url() {
    assert_eq!(uti_to_rdp_format_id("public.file-url"), Some(FORMAT_ID_FILE_LIST));
}

#[test]
fn rdp_to_uti_html() {
    assert_eq!(rdp_format_id_to_uti(FORMAT_ID_HTML), Some("public.html"));
}

#[test]
fn format_ids_map_back_to_their_uti() {
    for uti in ["public.utf8-plain-text", "public.png", "public.html", "public.file-url"] {
        let id = uti_to_rdp_format_id(uti).unwrap();
        assert_eq!(rdp_format_id_to_uti(id), Some(uti));
    }
    assert_eq!(rdp_format_id_to_uti(0x1234), None);
}

fn sample_png() -> Vec<u8> {
    let mut img = image::RgbaImage::new(2, 2);
    img.put_pixel(0, 0, image::Rgba([255, 0, 0, 255]));
    img.put_pixel(1, 0, image::Rgba([0, 255, 0, 255]));
    img.put_pixel(0, 1, image::Rgba([0, 0, 255, 255]));
    img.put_pixel(1, 1, image::Rgba([255, 255, 255, 255]));
    let mut png_bytes = Vec::new();
    img.write_to(&mut std::io::Cursor::new(&mut png_bytes), image::ImageFormat::Png).unwrap();
    png_bytes
}

#[test]
fn png_to_dib_and_back() {
    let png_bytes = sample_png();
    let dib = png_to_dib(&png_bytes).unwrap();
    assert!(dib.len() > 40);

    let width = i32::from_le_bytes([dib[4], dib[5], dib[6], dib[7]]);
    let height = i32::from_le_bytes([dib[8], dib[9], dib[10], dib[11]]);
    assert_eq!(width, 2);
    assert!(height > 0);

    let png_back = dib_to_png(&dib).unwrap();
    assert!(!png_back.is_empty());

    let img_back = image::load_from_memory(&png_back).unwrap().to_rgba8();
    assert_eq!(img_back.get_pixel(0, 0), &image::Rgba([255, 0, 0, 255]));
    assert_eq!(img_back.get_pixel(1, 1), &image::Rgba([255, 255, 255, 255]));
}

#[test]
fn png_to_dib_writes_bottom_up_bgra_rows() {
    let dib = png_to_dib(&sample_png()).unwrap();
    assert_eq!(dib.len(), 40 + 16);
    assert_eq!(&dib[0..4], &[40, 0, 0, 0]);
    assert_eq!(&dib[12..16], &[1, 0, 32, 0]);
    // First stored row is the bottom source row: blue then white, as BGRA.
    assert_eq!(&dib[40..48], &[255, 0, 0, 255, 255, 255, 255, 255]);
    // Then the top row: red then green.
    assert_eq!(&dib[48..56], &[0, 0, 255, 255, 0, 255, 0, 255]);
}

#[test]
fn png_to_dib_rejects_garbage() {
    assert_eq!(png_to_dib(b"not an image"), Err(ImageConvertError::Decode));
}

#[test]
fn dib_too_small() {
    let result = dib_to_png(&[0u8; 10]);
    assert!(result.is_err());
    assert_eq!(result, Err(ImageConvertError::TooSmall));
}

#[test]
fn tiff_round_trips_to_png() {
    let mut img = image::RgbaImage::new(1, 1);
    img.put_pixel(0, 0, image::Rgba([10, 20, 30, 255]));
    let mut tiff = Vec::new();
    img.write_to(&mut std::io::Cursor::new(&mut tiff), image::ImageFormat::Tiff).unwrap();
    let png = tiff_to_png(&tiff).unwrap();
    let back = image::load_from_memory(&png).unwrap().to_rgba8();
    assert_eq!(back.get_pixel(0, 0), &image::Rgba([10, 20, 30, 255]));
    assert_eq!(tiff_to_png(b"nope"), Err(ImageConvertError::Decode));
}

#[test]
fn roundtrip_simple() {
    let html = "<b>Hello</b>";
    let wrapped = wrap_html_format(html);
    let unwrapped = unwrap_html_format(&wrapped).unwrap();
    assert_eq!(unwrapped, html);
}

#[test]
fn roundtrip_unicode() {
    let html = "<p>你好世界 🎉</p>";
    let wrapped = wrap_html_format(html);
    let unwrapped = unwrap_html_format(&wrapped).unwrap();
    assert_eq!(unwrapped, html);
}

#[test]
fn roundtrip_empty() {
    let wrapped = wrap_html_format("");
    let unwrapped = unwrap_html_format(&wrapped).unwrap();
    assert_eq!(unwrapped, "");
}

#[test]
fn header_has_version() {
    let wrapped = wrap_html_format("<b>test</b>");
    let header = std::str::from_utf8(&wrapped).unwrap();
    assert!(header.starts_with("Version:0.9\r\n"));
}

#[test]
fn offsets_are_10_digits() {
    let wrapped = wrap_html_format("<b>test</b>");
    let text = std::str::from_utf8(&wrapped).unwrap();
    for line in text.lines() {
        if let Some(val) = line.strip_prefix("StartHTML:") {
            assert_eq!(val.len(), 10, "offset should be 10 digits, got: {val}");
        }
    }
}

#[test]
fn html_offsets_point_at_fragment() {
    let wrapped = wrap_html_format("<i>x</i>");
    let text = std::str::from_utf8(&wrapped).unwrap();
    let field = |name: &str| -> usize {
        let line = text.lines().find(|l| l.starts_with(name)).unwrap();
        line[name.len()..].parse().unwrap()
    };
    assert_eq!(field("StartHTML:"), 105);
    let start = field("StartFragment:");
    let end = field("EndFragment:");
    assert_eq!(&text[start..end], "<i>x</i>");
    assert_eq!(field("EndHTML:"), wrapped.len());
}

#[test]
fn unwrap_invalid_returns_none() {
    assert_eq!(unwrap_html_format(b"not html format"), None);
}

#[test]
fn unicode_text_roundtrips_with_crlf_wire_endings() {
    let encoded = encode_unicode_text("hello\nworld");

    assert!(encoded.ends_with(&[0, 0]));
    assert_eq!(decode_unicode_text(&encoded).unwrap(), "hello\nworld");
}

#[test]
fn unicode_text_rejects_odd_length_payloads() {
    assert!(decode_unicode_text(&[0]).is_err());
}

#[test]
fn unicode_text_uses_crlf_on_the_wire() {
    let encoded = encode_unicode_text("a\nb");
    assert_eq!(encoded, vec![b'a', 0, b'\r', 0, b'\n', 0, b'b', 0, 0, 0]);
    assert_eq!(decode_unicode_text(&[b'a', 0, b'\r', 0, b'\n', 0]).unwrap(), "a\n");
}

#[test]
fn unicode_text_reports_each_error() {
    assert_eq!(decode_unicode_text(&[1, 2, 3]), Err(UnicodeTextError::OddLength));
    assert_eq!(decode_unicode_text(&[0x00, 0xDC]), Err(UnicodeTextError::InvalidUtf16));
}

#[test]
fn file_urls_decode_percent_escapes() {
    assert_eq!(percent_decode("a%20b%2Fc"), "a b/c");
    assert_eq!(file_url_str_to_path("file:///Users/me/My%20File.txt"), Some("/Users/me/My File.txt".to_string()));
    assert_eq!(file_url_str_to_path("https://example.com"), None);
}

use macrdp::clipboard_flow::{
    build_format_list, choose_paste_format, local_source, remote_write, FormatName, LocalSource, OfferedFormat,
    RemoteWrite, TextClipboardState,
};

#[test]
fn format_list_names_html_and_files() {
    let types = vec!["public.html".to_string(), "com.apple.custom".to_string(), "public.png".to_string(), "public.file-url".to_string()];
    assert_eq!(
        build_format_list(&types),
        vec![
            OfferedFormat { id: FORMAT_ID_HTML, name: Some(FormatName::Html) },
            OfferedFormat { id: 8, name: None },
            OfferedFormat { id: FORMAT_ID_FILE_LIST, name: Some(FormatName::FileList) },
        ]
    );
}

#[test]
fn paste_asks_for_the_richest_offered_format() {
    assert_eq!(choose_paste_format(&[13, 8]), Some(8));
    assert_eq!(choose_paste_format(&[13, FORMAT_ID_HTML, FORMAT_ID_FILE_LIST]), Some(FORMAT_ID_FILE_LIST));
    assert_eq!(choose_paste_format(&[13]), Some(13));
    assert_eq!(choose_paste_format(&[1, 2]), None);
}

#[test]
fn requested_formats_come_from_their_pasteboard_source() {
    assert_eq!(local_source(13), LocalSource::Text);
    assert_eq!(local_source(8), LocalSource::Image);
    assert_eq!(local_source(FORMAT_ID_HTML), LocalSource::Html);
    assert_eq!(local_source(FORMAT_ID_FILE_LIST), LocalSource::FileList);
    assert_eq!(local_source(2), LocalSource::Unsupported);
}

#[test]
fn pasted_data_is_written_by_format_or_sniffed() {
    assert_eq!(remote_write(Some(FORMAT_ID_HTML), false, &[]), RemoteWrite::Html);
    assert_eq!(remote_write(Some(13), false, &[]), RemoteWrite::Text);
    assert_eq!(remote_write(None, true, &[]), RemoteWrite::Text);
    let mut dib = vec![0u8; 40];
    dib[0] = 40;
    assert_eq!(remote_write(None, false, &dib), RemoteWrite::Dib);
    assert_eq!(remote_write(Some(999), false, &dib[..39]), RemoteWrite::Ignore);
}

#[test]
fn text_clipboard_reports_only_changes() {
    let mut s = TextClipboardState::new();
    assert_eq!(s.observe(None), None);
    assert_eq!(s.observe(Some("a".to_string())), Some(true));
    assert_eq!(s.observe(Some("a".to_string())), None);
    assert_eq!(s.observe(None), Some(false));
}

#[test]
fn fragment_naming_the_header_offsets_still_roundtrips() {
    // The fragment starts at byte 139 (105 header bytes, 34 prefix bytes).
    let html = "a\nStartFragment:0000000139\nb";
    let wrapped = wrap_html_format(html);
    assert_eq!(unwrap_html_format(&wrapped).unwrap(), html);
}

#[test]
fn fragment_naming_other_offsets_is_read_from_its_own_line() {
    let html = "a\nStartFragment:0000000140\nb";
    let wrapped = wrap_html_format(html);
    assert_eq!(unwrap_html_format(&wrapped).unwrap(), &html[1..]);
}
