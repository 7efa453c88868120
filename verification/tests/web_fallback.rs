use rfd::backend::web_fallback::{name_stays_inside, PathPart};
use rfd::backend::web_fallback::filename_from_header_text;
use rfd::backend::web_fallback::{
    build_accept, cancelled_page, extract_boundary, extract_filename_from_headers,
    file_picker_page, file_save_submit, file_upload_result, find_subsequence, folder_picker_page,
    folder_upload_needs_dir, folder_upload_result, generate_buttons_html, html_escape, html_page,
    message_dialog_page, message_dialog_submit, no_temp_dir, parse_dialog_result,
    parse_multipart, parse_multipart_part, parse_urlencoded, pick_file_from, picked_paths,
    try_parse_multipart, unreadable_upload, upload_boundary, url_decode, valid_upload_name,
    FilePickerState, FileSaveState, FolderPickerState, MessageDialogState,
};
use rfd::backend::web_fallback::file_save_page;
use rfd::file_dialog::{FileDialog, Filter};
use rfd::message_dialog::{MessageButtons, MessageDialog, MessageDialogResult};
use std::path::PathBuf;

fn filter(name: &str, exts: &[&str]) -> Filter {
    Filter::new(name.to_string(), exts.iter().map(|e| e.to_string()).collect())
}

#[test]
fn html_escape_replaces_markup_characters() {
    assert_eq!(
        html_escape("<a href='x'>Tom & \"Jerry\"</a>"),
        "&lt;a href=&#x27;x&#x27;&gt;Tom &amp; &quot;Jerry&quot;&lt;/a&gt;"
    );
}

#[test]
fn html_escape_keeps_plain_text() {
    assert_eq!(html_escape("plain text 123"), "plain text 123");
    assert_eq!(html_escape(""), "");
}

#[test]
fn html_escape_output_has_no_markup() {
    let out = html_escape("<<'\">>&");
    assert!(!out.contains('<') && !out.contains('>') && !out.contains('"') && !out.contains('\''));
    assert_eq!(out, "&lt;&lt;&#x27;&quot;&gt;&gt;&amp;");
}

#[test]
fn build_accept_lists_dotted_extensions() {
    let filters = vec![filter("Images", &["png", "jpg"]), filter("Text", &["", "txt"])];
    assert_eq!(build_accept(&filters), "accept=\".png,.jpg,.txt\"");
}

#[test]
fn build_accept_without_extensions_is_empty() {
    assert_eq!(build_accept(&[]), "");
    assert_eq!(build_accept(&[filter("None", &[""])]), "");
}

#[test]
fn html_page_wraps_title_and_body() {
    let page = html_page("My Title", "<p>Body</p>");
    assert!(page.starts_with("<!DOCTYPE html>\n<html>\n<head>\n"));
    assert!(page.contains("    <title>My Title</title>\n    <style>"));
    assert!(page.ends_with("</head>\n<body>\n    <p>Body</p>\n</body>\n</html>"));
}

#[test]
fn buttons_for_standard_choices() {
    assert_eq!(
        generate_buttons_html(&MessageButtons::Okay),
        "<button type=\"submit\" name=\"result\" value=\"Ok\">OK</button>"
    );
    assert_eq!(
        generate_buttons_html(&MessageButtons::YesNo),
        "<button type=\"submit\" name=\"result\" value=\"No\" class=\"button secondary\">No</button>\n               <button type=\"submit\" name=\"result\" value=\"Yes\">Yes</button>"
    );
}

#[test]
fn buttons_for_custom_labels_are_escaped() {
    assert_eq!(
        generate_buttons_html(&MessageButtons::OkCustom("Sure & go".to_string())),
        "<button type=\"submit\" name=\"result\" value=\"Sure &amp; go\">Sure &amp; go</button>"
    );
    assert_eq!(
        generate_buttons_html(&MessageButtons::OkCancelCustom("Save".to_string(), "<No>".to_string())),
        "<button type=\"submit\" name=\"result\" value=\"&lt;No&gt;\" class=\"button secondary\">&lt;No&gt;</button>\n                   <button type=\"submit\" name=\"result\" value=\"Save\">Save</button>"
    );
}

#[test]
fn parse_dialog_result_reads_standard_and_custom_values() {
    assert_eq!(parse_dialog_result("ok"), MessageDialogResult::Okay);
    assert_eq!(parse_dialog_result("OK"), MessageDialogResult::Okay);
    assert_eq!(parse_dialog_result("CANCEL"), MessageDialogResult::Cancel);
    assert_eq!(parse_dialog_result("yes"), MessageDialogResult::Yes);
    assert_eq!(parse_dialog_result("No"), MessageDialogResult::No);
    assert_eq!(parse_dialog_result("Maybe"), MessageDialogResult::Custom("Maybe".to_string()));
    assert_eq!(parse_dialog_result("oK"), MessageDialogResult::Custom("oK".to_string()));
}

#[test]
fn custom_label_round_trips() {
    let label = "Save all";
    assert_eq!(parse_dialog_result(label), MessageDialogResult::Custom(label.to_string()));
}

#[test]
fn url_decode_cases() {
    assert_eq!(url_decode("a+b%20c%41"), "a b cA");
    assert_eq!(url_decode("100%"), "100");
    assert_eq!(url_decode("%4"), "");
    assert_eq!(url_decode("%zz"), "zz");
    assert_eq!(url_decode("%C3%A9"), "\u{c3}\u{a9}");
    assert_eq!(url_decode("plain"), "plain");
}

#[test]
fn url_decode_never_lengthens() {
    let s = "%41%42+x%";
    assert!(url_decode(s).chars().count() <= s.chars().count());
    assert_eq!(url_decode(s), "AB x");
}

#[test]
fn parse_urlencoded_pairs() {
    assert_eq!(
        parse_urlencoded("result=Yes&x=a%20b&flag"),
        vec![
            ("result".to_string(), "Yes".to_string()),
            ("x".to_string(), "a b".to_string()),
            ("flag".to_string(), "".to_string()),
        ]
    );
    assert_eq!(parse_urlencoded(""), vec![("".to_string(), "".to_string())]);
    assert_eq!(
        parse_urlencoded("a=b=c"),
        vec![("a".to_string(), "b=c".to_string())]
    );
}

#[test]
fn find_subsequence_finds_first() {
    assert_eq!(find_subsequence(b"abcabc", b"ca"), Some(2));
    assert_eq!(find_subsequence(b"abc", b"x"), None);
    assert_eq!(find_subsequence(b"ab", b"abc"), None);
}

#[test]
fn extract_boundary_cases() {
    assert_eq!(
        extract_boundary("multipart/form-data; boundary=----abc"),
        Some("----abc".to_string())
    );
    assert_eq!(
        extract_boundary("multipart/form-data; BOUNDARY=\"q r\""),
        Some("q r".to_string())
    );
    assert_eq!(extract_boundary("text/plain"), None);
    assert_eq!(extract_boundary("multipart/form-data; boundary="), None);
}

#[test]
fn extract_filename_cases() {
    assert_eq!(
        extract_filename_from_headers(
            b"Content-Disposition: form-data; name=\"files\"; filename=\"a b.txt\"\r\nContent-Type: text/plain"
        ),
        Some("a b.txt".to_string())
    );
    assert_eq!(
        extract_filename_from_headers(b"content-disposition: form-data; filename=plain.txt"),
        Some("plain.txt".to_string())
    );
    assert_eq!(
        extract_filename_from_headers(b"Content-Disposition: form-data; filename*=UTF-8''caf%C3%A9.txt"),
        Some("caf\u{c3}\u{a9}.txt".to_string())
    );
    assert_eq!(extract_filename_from_headers(b"Content-Disposition: form-data; name=\"x\""), None);
    assert_eq!(extract_filename_from_headers(b"Content-Type: text/plain"), None);
}

#[test]
fn extract_filename_reads_invalid_utf8_lossily() {
    assert_eq!(
        extract_filename_from_headers(b"Content-Disposition: form-data; filename=a\xffb"),
        Some("a\u{fffd}b".to_string())
    );
}

#[test]
fn parse_multipart_part_splits_headers_and_body() {
    let part: &[u8] = b"Content-Disposition: form-data; name=\"files\"; filename=\"x.txt\"\r\n\r\nhello\r\n";
    let (name, body) = parse_multipart_part(part).unwrap();
    assert_eq!(name, "x.txt");
    assert_eq!(body, b"hello");
    assert!(parse_multipart_part(b"no separator").is_none());
}

#[test]
fn parse_multipart_reads_named_files() {
    let body: &[u8] = b"--XYZ\r\nContent-Disposition: form-data; name=\"files\"; filename=\"a.txt\"\r\n\r\nAAA\r\n--XYZ\r\nContent-Disposition: form-data; name=\"files\"; filename=\"\"\r\n\r\nskip\r\n--XYZ\r\nContent-Disposition: form-data; name=\"files\"; filename=\"b.bin\"\r\n\r\nB\r\n--XYZ--\r\n";
    let files = parse_multipart(body, "XYZ");
    assert_eq!(files.len(), 2);
    assert_eq!(files[0].filename, "a.txt");
    assert_eq!(files[0].data, b"AAA".to_vec());
    assert_eq!(files[1].filename, "b.bin");
    assert_eq!(files[1].data, b"B".to_vec());
    assert!(files.iter().all(|f| !f.filename.is_empty()));
}

#[test]
fn try_parse_multipart_refuses_a_cut_delimiter() {
    assert!(try_parse_multipart(b"--XYZ-", "XYZ").is_none());
    assert_eq!(try_parse_multipart(b"", "XYZ").map(|v| v.len()), Some(0));
}

#[test]
fn message_page_and_submit() {
    let mut d = MessageDialog::new();
    d.title = "Q<1>".to_string();
    d.description = "Go?".to_string();
    d.buttons = MessageButtons::YesNo;
    let page = message_dialog_page(&MessageDialogState::new(&d));
    assert!(page.contains("<title>Q<1></title>"));
    assert!(page.contains("<h1>Q&lt;1&gt;</h1>\n            <p>Go?</p>"));
    let (choice, done) = message_dialog_submit("other=1&result=Yes&result=No");
    assert_eq!(choice, Some(MessageDialogResult::Yes));
    assert!(done.contains("<p>Done. You can close this tab.</p>"));
    let (none, _) = message_dialog_submit("other=1");
    assert_eq!(none, None);
}

#[test]
fn cancelled_page_text() {
    let page = cancelled_page();
    assert!(page.contains("<title>Cancelled</title>"));
    assert!(page.contains("<h1>Cancelled</h1>"));
}

#[test]
fn file_picker_state_and_page() {
    let mut d = FileDialog::new();
    d.filters = vec![filter("Images", &["png"])];
    let state = FilePickerState::new(&d, true);
    assert_eq!(state.title, "Select File");
    assert_eq!(state.accept, "accept=\".png\"");
    let page = file_picker_page(&state);
    assert!(page.contains("<input type=\"file\" name=\"files\" accept=\".png\" multiple required>"));
}

#[test]
fn folder_picker_page_text() {
    let mut d = FileDialog::new();
    d.title = Some("Pick".to_string());
    let state = FolderPickerState::new(&d, false);
    assert_eq!(state.title, "Pick");
    let page = folder_picker_page(&state);
    assert!(page.contains("webkitdirectory  required>"));
}

#[test]
fn file_save_page_and_submit() {
    let d = FileDialog::new();
    let state = FileSaveState::new(&d);
    assert_eq!(state.title, "Save File");
    assert_eq!(state.default_name, "untitled");
    let page = file_save_page(&state);
    assert!(page.contains("value=\"untitled\" required>"));
    assert_eq!(file_save_submit("filename=+report.txt+").0, Some("report.txt".to_string()));
    assert_eq!(file_save_submit("filename=a%2Fb").0, None);
    assert_eq!(file_save_submit("filename=..hidden").0, None);
    assert_eq!(file_save_submit("filename=a%5Cb").0, None);
    assert_eq!(file_save_submit("filename=++").0, None);
    assert_eq!(file_save_submit("name=x").0, None);
}

#[test]
fn pick_file_takes_the_last() {
    let v = vec![PathBuf::from("/a"), PathBuf::from("/b")];
    assert_eq!(pick_file_from(Some(v)), Some(PathBuf::from("/b")));
    assert_eq!(pick_file_from(Some(vec![])), None);
    assert_eq!(pick_file_from(None), None);
    assert_eq!(picked_paths(vec![]), None);
    assert_eq!(picked_paths(vec![PathBuf::from("/x")]), Some(vec![PathBuf::from("/x")]));
}

#[test]
fn upload_boundary_and_errors() {
    assert_eq!(upload_boundary("multipart/form-data; boundary=AB").ok(), Some("AB".to_string()));
    let refused = upload_boundary("text/plain").err().unwrap();
    assert_eq!(refused.status, 400);
    assert_eq!(refused.body, "Missing boundary");
    let r = unreadable_upload();
    assert_eq!((r.status, r.body.as_str()), (400, "Failed to read body"));
    let r = no_temp_dir();
    assert_eq!((r.status, r.body.as_str()), (500, "Failed to create temp directory"));
}

#[test]
fn upload_results() {
    let (r, page) = file_upload_result(vec![None, Some(PathBuf::from("/t/a")), None]);
    assert_eq!(r, Some(vec![PathBuf::from("/t/a")]));
    assert!(page.contains("File(s) selected. You can close this tab."));
    assert_eq!(file_upload_result(vec![None]).0, None);
    assert!(!folder_upload_needs_dir(&vec![]));
    let (r, page) = folder_upload_result(true, Some(PathBuf::from("/t")));
    assert_eq!(r, Some(vec![PathBuf::from("/t")]));
    assert!(page.contains("Folder selected. You can close this tab."));
    assert_eq!(folder_upload_result(false, Some(PathBuf::from("/t"))).0, None);
    assert_eq!(folder_upload_result(true, None).0, None);
}

#[test]
fn upload_names_stay_inside() {
    assert!(valid_upload_name("photo.png"));
    assert!(valid_upload_name("dir/sub/photo.png"));
    assert!(valid_upload_name("..hidden"));
    assert!(valid_upload_name("./notes.txt"));
    assert!(!valid_upload_name("/etc/passwd"));
    assert!(!valid_upload_name("a/../../b"));
    assert!(!valid_upload_name(".."));
}

#[test]
fn header_text_filename() {
    assert_eq!(
        filename_from_header_text("X: y\r\nCONTENT-DISPOSITION: form-data; filename=\"q.txt\"\r\n"),
        Some("q.txt".to_string())
    );
    assert_eq!(filename_from_header_text("content-disposition: form-data; filename=\""), None);
    assert_eq!(
        filename_from_header_text("content-disposition: form-data; filename*=latin1''x; filename=y"),
        Some("y".to_string())
    );
}

#[test]
fn plain_save_name_round_trip() {
    let (name, _) = file_save_submit("filename=my report (1).txt");
    assert_eq!(name, Some("my report (1).txt".to_string()));
}

#[test]
fn submitted_value_round_trip() {
    assert_eq!(
        message_dialog_submit("result=Save all").0,
        Some(MessageDialogResult::Custom("Save all".to_string()))
    );
    assert_eq!(message_dialog_submit("result=No").0, Some(MessageDialogResult::No));
}

fn unescape(t: &str) -> String {
    t.replace("&lt;", "<")
        .replace("&gt;", ">")
        .replace("&quot;", "\"")
        .replace("&#x27;", "'")
        .replace("&amp;", "&")
}

#[test]
fn html_escape_round_trips() {
    for s in ["&lt;", "a & b", "<x y='1'>\"q\"</x>", "&amp;&#x27;", "plain"] {
        assert_eq!(unescape(&html_escape(s)), s);
    }
    assert_eq!(html_escape("&lt;"), "&amp;lt;");
    let t = html_escape("&&<>'\"");
    for (i, _) in t.match_indices('&') {
        let rest = &t[i..];
        assert!(["&amp;", "&lt;", "&gt;", "&quot;", "&#x27;"].iter().any(|e| rest.starts_with(e)));
    }
}

#[test]
fn standard_button_values_read_back() {
    let cases = [
        (MessageButtons::Okay, vec![("Ok", MessageDialogResult::Okay)]),
        (MessageButtons::OkCancel, vec![("Cancel", MessageDialogResult::Cancel), ("Ok", MessageDialogResult::Okay)]),
        (MessageButtons::YesNo, vec![("No", MessageDialogResult::No), ("Yes", MessageDialogResult::Yes)]),
        (
            MessageButtons::YesNoCancel,
            vec![("Cancel", MessageDialogResult::Cancel), ("No", MessageDialogResult::No), ("Yes", MessageDialogResult::Yes)],
        ),
    ];
    for (buttons, expected) in cases {
        let html = generate_buttons_html(&buttons);
        let values: Vec<&str> = html
            .split("value=\"")
            .skip(1)
            .map(|rest| &rest[..rest.find('"').unwrap()])
            .collect();
        assert_eq!(values, expected.iter().map(|(v, _)| *v).collect::<Vec<_>>());
        for (v, answer) in expected {
            assert_eq!(parse_dialog_result(v), answer);
        }
    }
}

#[test]
fn upload_names_by_components() {
    assert!(name_stays_inside(false, &vec![PathPart::Normal, PathPart::CurDir]));
    assert!(!name_stays_inside(true, &vec![PathPart::Normal]));
    assert!(!name_stays_inside(false, &vec![PathPart::Normal, PathPart::ParentDir]));
    assert!(!name_stays_inside(false, &vec![PathPart::Prefix]));
    assert!(!name_stays_inside(false, &vec![PathPart::RootDir, PathPart::Normal]));
}

#[test]
fn uploaded_data_loses_trailing_breaks() {
    let body: &[u8] = b"--XYZ\r\nContent-Disposition: form-data; name=\"files\"; filename=\"a.txt\"\r\n\r\nline\r\n\n\r\n\r\n--XYZ\r\nContent-Disposition: form-data; name=\"files\"; filename=\"e.txt\"\r\n\r\n\r\n\n\r\n--XYZ--\r\n";
    let files = parse_multipart(body, "XYZ");
    assert_eq!(files.len(), 2);
    assert_eq!(files[0].data, b"line".to_vec());
    assert_eq!(files[1].data, Vec::<u8>::new());
    for f in &files {
        assert!(f.data.last().map_or(true, |b| *b != b'\r' && *b != b'\n'));
    }
}

#[test]
fn percent_encoded_text_decodes_back() {
    for s in ["Hi there!", "a+b&c=d%", "caf\u{e9}", ""] {
        let encoded: String = s.chars().map(|c| format!("%{:02X}", c as u32)).collect();
        assert_eq!(url_decode(&encoded), s);
    }
    assert_eq!(url_decode("%41%62"), "Ab");
}
