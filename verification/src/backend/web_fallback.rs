//! Web fallback backend: the pages it serves and the form data it reads back.
//!
//! The backend presents dialogs as pages of a local HTTP server opened in the system's
//! browser; this module builds those pages and decodes what the browser submits.
use crate::file_dialog::{filters_view, FileDialog, Filter, FilterView};
use crate::message_dialog::{
    copy_buttons, ButtonsView, MessageButtons, MessageDialog, MessageDialogResult, ResultView,
};
use std::path::PathBuf;
use crate::text::{
    bytes_match_at, is_first_occurrence, lemma_split_on_nonempty, chars_of, find, find_bytes, lemma_find, lemma_find_is, occurs_at, find_chars, first_some, lemma_first_some_step, line_ranges, lines, push_char,
    push_str, split_on, split_ranges, starts_with_at, starts_with_ci, starts_with_ci_at, str_is,
    string_of, lemma_trim_unpadded, lemma_split_on_append, lemma_split_on_plain, lower_code, trim, trim_end, trim_range, trim_start, range_is, is_white_space,
};
use vstd::slice::slice_to_vec;
use vstd::string::StringSliceAdditionalSpecFns;
use vstd::utf8::{decode_utf8, valid_utf8};

pub mod pages;

use pages::{
    BUTTON_CLOSE, BUTTON_OPEN, BUTTON_PRIMARY, BUTTON_SECONDARY, CANCELLED_BODY, CUSTOM_GAP, DONE_BODY,
    STANDARD_GAP,
    FILE_PICKER_BODY_0, FILE_PICKER_BODY_1, FILE_PICKER_BODY_2, FILE_PICKER_BODY_3, FILE_SAVE_BODY_0,
    FILE_SAVE_BODY_1, FILE_SAVE_BODY_2, FOLDER_PICKER_BODY_0, FOLDER_PICKER_BODY_1,
    FOLDER_PICKER_BODY_2, MESSAGE_BODY_0, MESSAGE_BODY_1, MESSAGE_BODY_2, MESSAGE_BODY_3,
    PAGE_HEAD, PAGE_MIDDLE, PAGE_TAIL,
    SAVE_SELECTED_BODY, FILES_SELECTED_BODY, FOLDER_SELECTED_BODY,
};
use vstd::prelude::*;

verus! {

// ============================================================================
// HTML helpers
// ============================================================================

/// What `html_escape` writes for one character.
pub open spec fn escape_char(c: char) -> Seq<char> {
    if c == '&' {
        "&amp;"@
    } else if c == '<' {
        "&lt;"@
    } else if c == '>' {
        "&gt;"@
    } else if c == '"' {
        "&quot;"@
    } else if c == '\'' {
        "&#x27;"@
    } else {
        seq![c]
    }
}

/// `s` with each character escaped.
pub open spec fn escape_html(s: Seq<char>) -> Seq<char>
    decreases s.len(),
{
    if s.len() == 0 {
        Seq::empty()
    } else {
        escape_html(s.drop_last()) + escape_char(s.last())
    }
}

/// Simple HTML escaping for user-provided strings.
pub fn html_escape(s: &str) -> (r: String)
    ensures
        r@ == escape_html(s@),
{
    let v = chars_of(s);
    let mut r = String::new();
    let mut i: usize = 0;
    while i < v.len()
        invariant
            0 <= i <= v@.len(),
            v@ == s@,
            r@ == escape_html(v@.take(i as int)),
        decreases v@.len() - i,
    {
        let c = v[i];
        if c == '&' {
            push_str(&mut r, "&amp;");
        } else if c == '<' {
            push_str(&mut r, "&lt;");
        } else if c == '>' {
            push_str(&mut r, "&gt;");
        } else if c == '"' {
            push_str(&mut r, "&quot;");
        } else if c == '\'' {
            push_str(&mut r, "&#x27;");
        } else {
            push_char(&mut r, c);
        }
        proof {
            assert(v@.take(i + 1).drop_last() =~= v@.take(i as int));
        }
        i = i + 1;
    }
    proof {
        assert(v@.take(v@.len() as int) =~= v@);
    }
    r
}

/// The extensions of all filters that are not empty, each behind a dot.
pub open spec fn dotted_extensions(exts: Seq<Seq<char>>) -> Seq<Seq<char>>
    decreases exts.len(),
{
    if exts.len() == 0 {
        Seq::empty()
    } else {
        let init = dotted_extensions(exts.drop_last());
        if exts.last().len() == 0 {
            init
        } else {
            init.push(seq!['.'] + exts.last())
        }
    }
}

/// The dotted extensions of a list of filters, filter by filter.
pub open spec fn accept_items(filters: Seq<FilterView>) -> Seq<Seq<char>>
    decreases filters.len(),
{
    if filters.len() == 0 {
        Seq::empty()
    } else {
        accept_items(filters.drop_last()) + dotted_extensions(filters.last().extensions)
    }
}

/// Items joined by a separator.
pub open spec fn join(items: Seq<Seq<char>>, sep: Seq<char>) -> Seq<char>
    decreases items.len(),
{
    if items.len() == 0 {
        Seq::empty()
    } else if items.len() == 1 {
        items[0]
    } else {
        join(items.drop_last(), sep) + sep + items.last()
    }
}

/// The `accept` attribute for a list of filters, or nothing when no filter has an
/// extension.
pub open spec fn accept_attribute(filters: Seq<FilterView>) -> Seq<char> {
    let items = accept_items(filters);
    if items.len() == 0 {
        Seq::empty()
    } else {
        "accept=\""@ + join(items, ","@) + "\""@
    }
}

/// Build an HTML accept attribute from file filters.
pub fn build_accept(filters: &[Filter]) -> (r: String)
    ensures
        r@ == accept_attribute(filters_view(filters@)),
{
    let ghost fs = filters_view(filters@);
    let mut joined = String::new();
    let mut any = false;
    let mut i: usize = 0;
    while i < filters.len()
        invariant
            0 <= i <= filters@.len(),
            fs == filters_view(filters@),
            any == (accept_items(fs.take(i as int)).len() > 0),
            joined@ == join(accept_items(fs.take(i as int)), ","@),
        decreases filters@.len() - i,
    {
        let exts = &filters[i].extensions;
        let ghost ev = fs[i as int].extensions;
        let ghost base = accept_items(fs.take(i as int));
        let mut j: usize = 0;
        while j < exts.len()
            invariant
                0 <= j <= exts@.len(),
                ev == exts@.map_values(|e: String| e@),
                base == accept_items(fs.take(i as int)),
                any == ((base + dotted_extensions(ev.take(j as int))).len() > 0),
                joined@ == join(base + dotted_extensions(ev.take(j as int)), ","@),
            decreases exts@.len() - j,
        {
            let ghost items = base + dotted_extensions(ev.take(j as int));
            proof {
                assert(ev.take(j + 1).drop_last() =~= ev.take(j as int));
            }
            if !exts[j].as_str().is_empty() {
                if any {
                    push_str(&mut joined, ",");
                }
                push_char(&mut joined, '.');
                push_str(&mut joined, exts[j].as_str());
                proof {
                    let item = seq!['.'] + ev[j as int];
                    assert(base + dotted_extensions(ev.take(j + 1)) =~= items.push(item));
                    assert(items.push(item).drop_last() =~= items);
                    if items.len() == 0 {
                        assert(joined@ =~= item);
                    } else {
                        assert(joined@ =~= join(items, ","@) + ","@ + item);
                    }
                }
                any = true;
            } else {
                proof {
                    assert(base + dotted_extensions(ev.take(j + 1)) =~= items);
                }
            }
            j = j + 1;
        }
        proof {
            assert(ev.take(j as int) =~= ev);
            assert(fs.take(i + 1).drop_last() =~= fs.take(i as int));
        }
        i = i + 1;
    }
    proof {
        assert(fs.take(i as int) =~= fs);
    }
    if !any {
        String::new()
    } else {
        let mut r = String::new();
        push_str(&mut r, "accept=\"");
        push_str(&mut r, joined.as_str());
        push_str(&mut r, "\"");
        r
    }
}

/// The page around a body, with the title inserted as it is given.
pub open spec fn page_text(title: Seq<char>, body: Seq<char>) -> Seq<char> {
    PAGE_HEAD@ + title + PAGE_MIDDLE@ + body + PAGE_TAIL@
}

/// Common HTML page wrapper with basic styling.
pub fn html_page(title: &str, body: &str) -> (r: String)
    ensures
        r@ == page_text(title@, body@),
{
    let mut r = String::new();
    push_str(&mut r, PAGE_HEAD);
    push_str(&mut r, title);
    push_str(&mut r, PAGE_MIDDLE);
    push_str(&mut r, body);
    push_str(&mut r, PAGE_TAIL);
    r
}

/// One submit button: it submits `value` as `result` and shows `label`; secondary
/// buttons carry the `button secondary` class.
pub open spec fn submit_button(value: Seq<char>, label: Seq<char>, secondary: bool) -> Seq<char> {
    BUTTON_OPEN@ + value + (if secondary {
        BUTTON_SECONDARY@
    } else {
        BUTTON_PRIMARY@
    }) + label + BUTTON_CLOSE@
}

/// The buttons a message dialog page shows, in document order: the value each submits,
/// the label it shows, whether it is secondary. Custom labels are escaped, and a custom
/// button submits its (escaped) label.
pub open spec fn button_items(b: ButtonsView) -> Seq<(Seq<char>, Seq<char>, bool)> {
    match b {
        ButtonsView::Okay => seq![("Ok"@, "OK"@, false)],
        ButtonsView::OkCancel => seq![("Cancel"@, "Cancel"@, true), ("Ok"@, "OK"@, false)],
        ButtonsView::YesNo => seq![("No"@, "No"@, true), ("Yes"@, "Yes"@, false)],
        ButtonsView::YesNoCancel => seq![
            ("Cancel"@, "Cancel"@, true),
            ("No"@, "No"@, true),
            ("Yes"@, "Yes"@, false),
        ],
        ButtonsView::OkCustom(t) => seq![(escape_html(t), escape_html(t), false)],
        ButtonsView::OkCancelCustom(o, c) => seq![
            (escape_html(c), escape_html(c), true),
            (escape_html(o), escape_html(o), false),
        ],
        ButtonsView::YesNoCancelCustom(y, n, c) => seq![
            (escape_html(c), escape_html(c), true),
            (escape_html(n), escape_html(n), true),
            (escape_html(y), escape_html(y), false),
        ],
    }
}

/// The buttons are the four standard sets.
pub open spec fn is_standard(b: ButtonsView) -> bool {
    b is Okay || b is OkCancel || b is YesNo || b is YesNoCancel
}

/// The markup of a list of buttons, separated by `gap`.
pub open spec fn buttons_markup(items: Seq<(Seq<char>, Seq<char>, bool)>, gap: Seq<char>) -> Seq<char> {
    join(items.map_values(|it: (Seq<char>, Seq<char>, bool)| submit_button(it.0, it.1, it.2)), gap)
}

/// The buttons of a message dialog page; each submits its value as `result`.
pub open spec fn buttons_text(b: ButtonsView) -> Seq<char> {
    buttons_markup(button_items(b), if is_standard(b) {
        STANDARD_GAP@
    } else {
        CUSTOM_GAP@
    })
}

fn push_button(r: &mut String, value: &str, label: &str, secondary: bool)
    ensures
        final(r)@ == old(r)@ + submit_button(value@, label@, secondary),
{
    push_str(r, BUTTON_OPEN);
    push_str(r, value);
    if secondary {
        push_str(r, BUTTON_SECONDARY);
    } else {
        push_str(r, BUTTON_PRIMARY);
    }
    push_str(r, label);
    push_str(r, BUTTON_CLOSE);
}

/// The markup of one, two or three buttons, separated by `gap`.
proof fn lemma_markup_of_few(items: Seq<(Seq<char>, Seq<char>, bool)>, gap: Seq<char>)
    requires
        1 <= items.len() <= 3,
    ensures
        buttons_markup(items, gap) == if items.len() == 1 {
            submit_button(items[0].0, items[0].1, items[0].2)
        } else if items.len() == 2 {
            submit_button(items[0].0, items[0].1, items[0].2) + gap + submit_button(items[1].0, items[1].1, items[1].2)
        } else {
            submit_button(items[0].0, items[0].1, items[0].2) + gap + submit_button(items[1].0, items[1].1, items[1].2)
                + gap + submit_button(items[2].0, items[2].1, items[2].2)
        },
{
    let m = items.map_values(|it: (Seq<char>, Seq<char>, bool)| submit_button(it.0, it.1, it.2));
    assert(m[0] == submit_button(items[0].0, items[0].1, items[0].2));
    if items.len() >= 2 {
        assert(m[1] == submit_button(items[1].0, items[1].1, items[1].2));
        let m2 = m.take(2);
        assert(m2.drop_last() =~= seq![m[0]]);
        assert(join(seq![m[0]], gap) == m[0]);
        assert(m2.last() == m[1]);
        assert(join(m2, gap) == join(m2.drop_last(), gap) + gap + m2.last());
        assert(join(m2, gap) == m[0] + gap + m[1]);
        if items.len() == 3 {
            assert(m[2] == submit_button(items[2].0, items[2].1, items[2].2));
            assert(m.drop_last() =~= m2);
            assert(join(m, gap) == join(m2, gap) + gap + m[2]);
        } else {
            assert(m =~= m2);
        }
    }
}

/// Generate HTML buttons for message dialog.
pub fn generate_buttons_html(buttons: &MessageButtons) -> (r: String)
    ensures
        r@ == buttons_text(buttons@),
{
    let mut r = String::new();
    proof {
        lemma_markup_of_few(button_items(buttons@), if is_standard(buttons@) {
            STANDARD_GAP@
        } else {
            CUSTOM_GAP@
        });
    }
    match buttons {
        MessageButtons::Okay => push_button(&mut r, "Ok", "OK", false),
        MessageButtons::OkCancel => {
            push_button(&mut r, "Cancel", "Cancel", true);
            push_str(&mut r, STANDARD_GAP);
            push_button(&mut r, "Ok", "OK", false);
        },
        MessageButtons::YesNo => {
            push_button(&mut r, "No", "No", true);
            push_str(&mut r, STANDARD_GAP);
            push_button(&mut r, "Yes", "Yes", false);
        },
        MessageButtons::YesNoCancel => {
            push_button(&mut r, "Cancel", "Cancel", true);
            push_str(&mut r, STANDARD_GAP);
            push_button(&mut r, "No", "No", true);
            push_str(&mut r, STANDARD_GAP);
            push_button(&mut r, "Yes", "Yes", false);
        },
        MessageButtons::OkCustom(text) => {
            let t = html_escape(text.as_str());
            push_button(&mut r, t.as_str(), t.as_str(), false);
        },
        MessageButtons::OkCancelCustom(ok, cancel) => {
            let o = html_escape(ok.as_str());
            let c = html_escape(cancel.as_str());
            push_button(&mut r, c.as_str(), c.as_str(), true);
            push_str(&mut r, CUSTOM_GAP);
            push_button(&mut r, o.as_str(), o.as_str(), false);
        },
        MessageButtons::YesNoCancelCustom(yes, no, cancel) => {
            let y = html_escape(yes.as_str());
            let n = html_escape(no.as_str());
            let c = html_escape(cancel.as_str());
            push_button(&mut r, c.as_str(), c.as_str(), true);
            push_str(&mut r, CUSTOM_GAP);
            push_button(&mut r, n.as_str(), n.as_str(), true);
            push_str(&mut r, CUSTOM_GAP);
            push_button(&mut r, y.as_str(), y.as_str(), false);
        },
    }
    proof {
        assert(r@ =~= buttons_text(buttons@));
    }
    r
}

// ============================================================================
// Form data
// ============================================================================

/// Parse a dialog result string into a `MessageDialogResult`.
pub open spec fn dialog_result_of(s: Seq<char>) -> ResultView {
    if s == "Ok"@ || s == "ok"@ || s == "OK"@ {
        ResultView::Okay
    } else if s == "Cancel"@ || s == "cancel"@ || s == "CANCEL"@ {
        ResultView::Cancel
    } else if s == "Yes"@ || s == "yes"@ || s == "YES"@ {
        ResultView::Yes
    } else if s == "No"@ || s == "no"@ || s == "NO"@ {
        ResultView::No
    } else {
        ResultView::Custom(s)
    }
}

/// Parse a dialog result string into a `MessageDialogResult`.
pub fn parse_dialog_result(result: &str) -> (r: MessageDialogResult)
    ensures
        r@ == dialog_result_of(result@),
{
    if str_is(result, "Ok") || str_is(result, "ok") || str_is(result, "OK") {
        MessageDialogResult::Okay
    } else if str_is(result, "Cancel") || str_is(result, "cancel") || str_is(result, "CANCEL") {
        MessageDialogResult::Cancel
    } else if str_is(result, "Yes") || str_is(result, "yes") || str_is(result, "YES") {
        MessageDialogResult::Yes
    } else if str_is(result, "No") || str_is(result, "no") || str_is(result, "NO") {
        MessageDialogResult::No
    } else {
        MessageDialogResult::Custom(result.to_owned())
    }
}

/// A hexadecimal digit (`char::is_ascii_hexdigit`).
pub open spec fn is_hex_digit(c: char) -> bool {
    ('0' <= c && c <= '9') || ('a' <= c && c <= 'f') || ('A' <= c && c <= 'F')
}

/// The value of a hexadecimal digit.
pub open spec fn hex_value(c: char) -> int {
    if '0' <= c && c <= '9' {
        c as int - 48
    } else if 'a' <= c && c <= 'f' {
        c as int - 87
    } else {
        c as int - 55
    }
}

/// URL decoding as the fallback backend does it: `+` is a space; `%` followed by two
/// hexadecimal digits is the character whose code is their value (one byte, read as
/// Latin-1); a `%` followed by fewer than two digits is dropped together with them.
pub open spec fn url_decoded(s: Seq<char>) -> Seq<char>
    decreases s.len(),
{
    if s.len() == 0 {
        Seq::empty()
    } else if s[0] == '%' {
        if s.len() >= 3 && is_hex_digit(s[1]) && is_hex_digit(s[2]) {
            seq![(hex_value(s[1]) * 16 + hex_value(s[2])) as char] + url_decoded(s.skip(3))
        } else if s.len() >= 2 && is_hex_digit(s[1]) {
            url_decoded(s.skip(2))
        } else {
            url_decoded(s.skip(1))
        }
    } else if s[0] == '+' {
        seq![' '] + url_decoded(s.skip(1))
    } else {
        seq![s[0]] + url_decoded(s.skip(1))
    }
}

fn hex_digit_value(c: char) -> (r: Option<u8>)
    ensures
        r is Some <==> is_hex_digit(c),
        r matches Some(d) ==> d == hex_value(c) && d < 16,
{
    if '0' <= c && c <= '9' {
        Some(((c as u32) - 48) as u8)
    } else if 'a' <= c && c <= 'f' {
        Some(((c as u32) - 87) as u8)
    } else if 'A' <= c && c <= 'F' {
        Some(((c as u32) - 55) as u8)
    } else {
        None
    }
}

/// URL-decodes `v[lo..hi]`.
fn url_decode_range(v: &Vec<char>, lo: usize, hi: usize) -> (r: String)
    requires
        lo <= hi <= v@.len(),
    ensures
        r@ == url_decoded(v@.subrange(lo as int, hi as int)),
{
    let mut r = String::new();
    let mut i = lo;
    while i < hi
        invariant
            lo <= i <= hi <= v@.len(),
            url_decoded(v@.subrange(lo as int, hi as int)) == r@ + url_decoded(v@.subrange(i as int, hi as int)),
        decreases hi - i,
    {
        let ghost rest = v@.subrange(i as int, hi as int);
        let ghost before = r@;
        let c = v[i];
        if c == '%' {
            let d1 = if hi - i > 1 { hex_digit_value(v[i + 1]) } else { None };
            let d2 = if hi - i > 2 { hex_digit_value(v[i + 2]) } else { None };
            match (d1, d2) {
                (Some(a), Some(b)) => {
                    let byte: u8 = a * 16 + b;
                    push_char(&mut r, byte as char);
                    proof {
                        assert(rest.skip(3) =~= v@.subrange(i + 3, hi as int));
                        assert(before.push(byte as char) + url_decoded(rest.skip(3)) =~= before + (seq![byte as char] + url_decoded(rest.skip(3))));
                    }
                    i = i + 3;
                },
                (Some(_), None) => {
                    proof {
                        assert(rest.skip(2) =~= v@.subrange(i + 2, hi as int));
                    }
                    i = i + 2;
                },
                _ => {
                    proof {
                        assert(rest.skip(1) =~= v@.subrange(i + 1, hi as int));
                    }
                    i = i + 1;
                },
            }
        } else {
            if c == '+' {
                push_char(&mut r, ' ');
            } else {
                push_char(&mut r, c);
            }
            proof {
                assert(rest.skip(1) =~= v@.subrange(i + 1, hi as int));
                assert(before.push(rest[0]) + url_decoded(rest.skip(1)) =~= before + (seq![rest[0]] + url_decoded(rest.skip(1))));
                assert(before.push(' ') + url_decoded(rest.skip(1)) =~= before + (seq![' '] + url_decoded(rest.skip(1))));
            }
            i = i + 1;
        }
    }
    proof {
        assert(r@ + url_decoded(v@.subrange(hi as int, hi as int)) =~= r@);
    }
    r
}

/// Simple URL decoding.
pub fn url_decode(s: &str) -> (r: String)
    ensures
        r@ == url_decoded(s@),
{
    let v = chars_of(s);
    proof {
        assert(v@.subrange(0, v@.len() as int) =~= s@);
    }
    url_decode_range(&v, 0, v.len())
}

/// One `key=value` item of a form body, decoded; an item without `=` is a key with an
/// empty value.
pub open spec fn form_pair(item: Seq<char>) -> (Seq<char>, Seq<char>) {
    match find(item, seq!['=']) {
        Some(k) => (url_decoded(item.take(k)), url_decoded(item.skip(k + 1))),
        None => (url_decoded(item), Seq::empty()),
    }
}

/// The decoded pairs of a form body: one per `&`-separated item, in order.
pub open spec fn form_pairs(body: Seq<char>) -> Seq<(Seq<char>, Seq<char>)> {
    split_on(body, '&').map_values(|item: Seq<char>| form_pair(item))
}

/// The views of decoded pairs.
pub open spec fn pairs_view(v: Seq<(String, String)>) -> Seq<(Seq<char>, Seq<char>)> {
    v.map_values(|p: (String, String)| (p.0@, p.1@))
}

/// Parse URL-encoded form data.
pub fn parse_urlencoded(body: &str) -> (r: Vec<(String, String)>)
    ensures
        pairs_view(r@) == form_pairs(body@),
{
    let v = chars_of(body);
    proof {
        assert(v@.subrange(0, v@.len() as int) =~= body@);
    }
    let items = split_ranges(&v, 0, v.len(), '&');
    let ghost parts = split_on(body@, '&');
    let eq = chars_of("=");
    proof {
        reveal_strlit("=");
    }
    let mut r: Vec<(String, String)> = Vec::new();
    let mut k: usize = 0;
    while k < items.len()
        invariant
            0 <= k <= items@.len() == parts.len(),
            parts == split_on(body@, '&'),
            v@ == body@,
            eq@ == seq!['='],
            forall|j: int| 0 <= j < items@.len() ==> 0 <= (#[trigger] items@[j]).0 <= items@[j].1 <= v@.len()
                && v@.subrange(items@[j].0 as int, items@[j].1 as int) == parts[j],
            pairs_view(r@) == form_pairs(body@).take(k as int),
        decreases items@.len() - k,
    {
        let (a, b) = items[k];
        let pair = match find_chars(&v, a, b, &eq) {
            Some(e) => {
                proof {
                    assert(v@.subrange(a as int, b as int).take(e - a) =~= v@.subrange(a as int, e as int));
                    assert(v@.subrange(a as int, b as int).skip(e - a + 1) =~= v@.subrange(e + 1, b as int));
                }
                (url_decode_range(&v, a, e), url_decode_range(&v, e + 1, b))
            },
            None => (url_decode_range(&v, a, b), String::new()),
        };
        proof {
            assert(pair.0@ == form_pair(parts[k as int]).0 && pair.1@ == form_pair(parts[k as int]).1);
        }
        let ghost before = r@;
        r.push(pair);
        proof {
            assert(r@ == before.push(pair));
            assert(pairs_view(r@) =~= pairs_view(before).push((pair.0@, pair.1@)));
            assert(form_pairs(body@).take(k + 1) =~= form_pairs(body@).take(k as int).push(form_pair(parts[k as int])));
        }
        k = k + 1;
    }
    proof {
        assert(form_pairs(body@).take(k as int) =~= form_pairs(body@));
    }
    r
}


// ============================================================================
// Multipart headers
// ============================================================================

/// What `String::from_utf8_lossy` makes of a byte sequence.
pub uninterp spec fn utf8_lossy_decoded(bytes: Seq<u8>) -> Seq<char>;

/// Decodes bytes as UTF-8, replacing invalid sequences.
///
/// Wraps `String::from_utf8_lossy`. The contract names its result, and states what
/// its documentation promises of valid input: it is decoded as is.
#[verifier::external_body]
fn from_utf8_lossy(bytes: &[u8]) -> (s: String)
    ensures
        s@ == utf8_lossy_decoded(bytes@),
        valid_utf8(bytes@) ==> s@ == decode_utf8(bytes@),
{
    String::from_utf8_lossy(bytes).into_owned()
}

/// An optional string as an optional character sequence.
pub open spec fn opt_view(o: Option<String>) -> Option<Seq<char>> {
    match o {
        Some(s) => Some(s@),
        None => None,
    }
}

/// The character set of an RFC 6266 `filename*` parameter names UTF-8.
///
/// This is `charset.to_uppercase() == "UTF-8"`: no character outside ASCII has an
/// upper case that is, or that begins or ends inside, `UTF-8`.
pub open spec fn is_utf8_charset(c: Seq<char>) -> bool {
    c.len() == "utf-8"@.len() && starts_with_ci(c, "utf-8"@)
}

/// The file name one `Content-Disposition` parameter gives, if it gives one.
pub open spec fn param_filename(param: Seq<char>) -> Option<Seq<char>> {
    let q = trim(param);
    if "filename="@.is_prefix_of(q) {
        let f = q.skip("filename="@.len() as int);
        if f.len() > 1 && f[0] == '"' && f.last() == '"' {
            Some(f.subrange(1, f.len() - 1))
        } else if !(f.len() > 0 && f[0] == '"') {
            Some(f)
        } else {
            None
        }
    } else if "filename*="@.is_prefix_of(q) {
        let e = q.skip("filename*="@.len() as int);
        match find(e, "''"@) {
            Some(k) => if is_utf8_charset(e.take(k)) {
                Some(url_decoded(e.skip(k + "''"@.len())))
            } else {
                None
            },
            None => None,
        }
    } else {
        None
    }
}

/// The file name a header line gives, if it is a `Content-Disposition` line that names
/// one: the first parameter after the first `;` that gives a name.
pub open spec fn line_filename(line: Seq<char>) -> Option<Seq<char>> {
    let t = trim(line);
    if starts_with_ci(t, "content-disposition:"@) {
        let d = trim(t.skip("content-disposition:"@.len() as int));
        match find(d, seq![';']) {
            Some(p) => first_some(
                split_on(d.skip(p + 1), ';').map_values(|x: Seq<char>| param_filename(x)),
            ),
            None => None,
        }
    } else {
        None
    }
}

/// The file name that the first line of header text naming one gives.
pub open spec fn text_filename(text: Seq<char>) -> Option<Seq<char>> {
    first_some(lines(text).map_values(|l: Seq<char>| line_filename(l)))
}

/// The file name that header bytes give, once decoded.
pub open spec fn headers_filename(headers: Seq<u8>) -> Option<Seq<char>> {
    text_filename(utf8_lossy_decoded(headers))
}

fn param_filename_range(v: &Vec<char>, a: usize, b: usize) -> (r: Option<String>)
    requires
        a <= b <= v@.len(),
    ensures
        opt_view(r) == param_filename(v@.subrange(a as int, b as int)),
{
    let ghost q = trim(v@.subrange(a as int, b as int));
    let (qa, qb) = trim_range(v, a, b);
    let fname = chars_of("filename=");
    let fstar = chars_of("filename*=");
    if starts_with_at(v, qa, qb, &fname) {
        let fa = qa + fname.len();
        proof {
            assert(q.skip(fname@.len() as int) =~= v@.subrange(fa as int, qb as int));
        }
        if qb - fa > 1 && v[fa] == '"' && v[qb - 1] == '"' {
            proof {
                assert(v@.subrange(fa as int, qb as int).subrange(1, qb - fa - 1) =~= v@.subrange(fa + 1, qb - 1));
            }
            Some(string_of(v, fa + 1, qb - 1))
        } else if !(qb > fa && v[fa] == '"') {
            Some(string_of(v, fa, qb))
        } else {
            None
        }
    } else if starts_with_at(v, qa, qb, &fstar) {
        let ea = qa + fstar.len();
        let ghost e = v@.subrange(ea as int, qb as int);
        proof {
            assert(q.skip(fstar@.len() as int) =~= e);
        }
        let quotes = chars_of("''");
        match find_chars(v, ea, qb, &quotes) {
            Some(k) => {
                let utf8 = chars_of("utf-8");
                let is_utf8 = k - ea == utf8.len() && starts_with_ci_at(v, ea, k, &utf8);
                proof {
                    assert(e.take(k - ea) =~= v@.subrange(ea as int, k as int));
                    assert(e.skip(k - ea + quotes@.len()) =~= v@.subrange(k + quotes@.len(), qb as int));
                }
                if is_utf8 {
                    Some(url_decode_range(v, k + quotes.len(), qb))
                } else {
                    None
                }
            },
            None => None,
        }
    } else {
        None
    }
}

fn line_filename_range(v: &Vec<char>, a: usize, b: usize) -> (r: Option<String>)
    requires
        a <= b <= v@.len(),
    ensures
        opt_view(r) == line_filename(v@.subrange(a as int, b as int)),
{
    let ghost t = trim(v@.subrange(a as int, b as int));
    let (ta, tb) = trim_range(v, a, b);
    let cd = chars_of("content-disposition:");
    if !starts_with_ci_at(v, ta, tb, &cd) {
        return None;
    }
    let (da, db) = trim_range(v, ta + cd.len(), tb);
    let ghost d = v@.subrange(da as int, db as int);
    proof {
        assert(t.skip(cd@.len() as int) =~= v@.subrange(ta + cd@.len(), tb as int));
    }
    let semi = chars_of(";");
    proof {
        reveal_strlit(";");
        assert(semi@ =~= seq![';']);
    }
    match find_chars(v, da, db, &semi) {
        None => None,
        Some(p) => {
            let params = split_ranges(v, p + 1, db, ';');
            let ghost ps = split_on(v@.subrange(p + 1, db as int), ';');
            let ghost opts = ps.map_values(|x: Seq<char>| param_filename(x));
            proof {
                assert(d.skip(p - da + 1) =~= v@.subrange(p + 1, db as int));
                assert(opts.skip(0) =~= opts);
            }
            let mut k: usize = 0;
            while k < params.len()
                invariant
                    0 <= k <= params@.len() == ps.len() == opts.len(),
                    p + 1 <= db <= v@.len(),
                    ps == split_on(v@.subrange(p + 1, db as int), ';'),
                    opts == ps.map_values(|x: Seq<char>| param_filename(x)),
                    a <= b <= v@.len(),
                    line_filename(v@.subrange(a as int, b as int)) == first_some(opts),
                    forall|j: int| 0 <= j < params@.len() ==> p + 1 <= (#[trigger] params@[j]).0 <= params@[j].1
                        <= db && v@.subrange(params@[j].0 as int, params@[j].1 as int) == ps[j],
                    first_some(opts) == first_some(opts.skip(k as int)),
                decreases params@.len() - k,
            {
                let (x, y) = params[k];
                let f = param_filename_range(v, x, y);
                proof {
                    lemma_first_some_step(opts, k as int);
                    assert(opts[k as int] == param_filename(ps[k as int]));
                }
                if f.is_some() {
                    return f;
                }
                k = k + 1;
            }
            proof {
                assert(opts.skip(k as int) =~= Seq::<Option<Seq<char>>>::empty());
            }
            None
        },
    }
}

/// The file name that decoded header text gives: the first `Content-Disposition` line
/// with a `filename` or UTF-8 `filename*` parameter gives it.
pub fn filename_from_header_text(text: &str) -> (r: Option<String>)
    ensures
        opt_view(r) == text_filename(text@),
{
    let v = chars_of(text);
    let ls = line_ranges(&v, 0, v.len());
    let ghost all = lines(text@);
    let ghost opts = all.map_values(|l: Seq<char>| line_filename(l));
    proof {
        assert(v@.subrange(0, v@.len() as int) =~= text@);
        assert(opts.skip(0) =~= opts);
    }
    let mut k: usize = 0;
    while k < ls.len()
        invariant
            0 <= k <= ls@.len() == all.len() == opts.len(),
            all == lines(v@.subrange(0, v@.len() as int)),
            opts == all.map_values(|l: Seq<char>| line_filename(l)),
            text_filename(text@) == first_some(opts),
            forall|j: int| 0 <= j < ls@.len() ==> 0 <= (#[trigger] ls@[j]).0 <= ls@[j].1 <= v@.len()
                && v@.subrange(ls@[j].0 as int, ls@[j].1 as int) == all[j],
            first_some(opts) == first_some(opts.skip(k as int)),
        decreases ls@.len() - k,
    {
        let (a, b) = ls[k];
        let f = line_filename_range(&v, a, b);
        proof {
            lemma_first_some_step(opts, k as int);
            assert(opts[k as int] == line_filename(all[k as int]));
        }
        if f.is_some() {
            return f;
        }
        k = k + 1;
    }
    proof {
        assert(opts.skip(k as int) =~= Seq::<Option<Seq<char>>>::empty());
    }
    None
}

/// Extract the file name from the header bytes of one multipart part: the bytes are
/// decoded (invalid UTF-8 replaced), then read by `filename_from_header_text`.
pub fn extract_filename_from_headers(headers: &[u8]) -> (r: Option<String>)
    ensures
        opt_view(r) == headers_filename(headers@),
        valid_utf8(headers@) ==> opt_view(r) == text_filename(decode_utf8(headers@)),
{
    let s = from_utf8_lossy(headers);
    filename_from_header_text(s.as_str())
}

/// The boundary one `Content-Type` parameter gives, if it is a non-empty `boundary`
/// parameter; surrounding quotes are removed.
pub open spec fn param_boundary(part: Seq<char>) -> Option<Seq<char>> {
    let p = trim(part);
    if starts_with_ci(p, "boundary="@) {
        let b = trim(p.skip("boundary="@.len() as int));
        if b.len() > 1 && b[0] == '"' && b.last() == '"' {
            Some(b.subrange(1, b.len() - 1))
        } else if b.len() > 0 {
            Some(b)
        } else {
            None
        }
    } else {
        None
    }
}

/// The boundary of a `Content-Type` header: the first `;`-separated part that gives one.
pub open spec fn content_type_boundary(content_type: Seq<char>) -> Option<Seq<char>> {
    first_some(split_on(trim(content_type), ';').map_values(|x: Seq<char>| param_boundary(x)))
}

fn param_boundary_range(v: &Vec<char>, a: usize, b: usize) -> (r: Option<String>)
    requires
        a <= b <= v@.len(),
    ensures
        opt_view(r) == param_boundary(v@.subrange(a as int, b as int)),
{
    let ghost p = trim(v@.subrange(a as int, b as int));
    let (pa, pb) = trim_range(v, a, b);
    let key = chars_of("boundary=");
    if !starts_with_ci_at(v, pa, pb, &key) {
        return None;
    }
    let (ba, bb) = trim_range(v, pa + key.len(), pb);
    proof {
        assert(p.skip(key@.len() as int) =~= v@.subrange(pa + key@.len(), pb as int));
    }
    if bb - ba > 1 && v[ba] == '"' && v[bb - 1] == '"' {
        proof {
            assert(v@.subrange(ba as int, bb as int).subrange(1, bb - ba - 1) =~= v@.subrange(ba + 1, bb - 1));
        }
        Some(string_of(v, ba + 1, bb - 1))
    } else if bb > ba {
        Some(string_of(v, ba, bb))
    } else {
        None
    }
}

/// Extract the boundary from a `Content-Type` header.
pub fn extract_boundary(content_type: &str) -> (r: Option<String>)
    ensures
        opt_view(r) == content_type_boundary(content_type@),
{
    let v = chars_of(content_type);
    let (ca, cb) = trim_range(&v, 0, v.len());
    proof {
        assert(v@.subrange(0, v@.len() as int) =~= content_type@);
    }
    let parts = split_ranges(&v, ca, cb, ';');
    let ghost ps = split_on(v@.subrange(ca as int, cb as int), ';');
    let ghost opts = ps.map_values(|x: Seq<char>| param_boundary(x));
    proof {
        assert(opts.skip(0) =~= opts);
    }
    let mut k: usize = 0;
    while k < parts.len()
        invariant
            0 <= k <= parts@.len() == ps.len() == opts.len(),
            ca <= cb <= v@.len(),
            ps == split_on(v@.subrange(ca as int, cb as int), ';'),
            opts == ps.map_values(|x: Seq<char>| param_boundary(x)),
            content_type_boundary(content_type@) == first_some(opts),
            forall|j: int| 0 <= j < parts@.len() ==> ca <= (#[trigger] parts@[j]).0 <= parts@[j].1 <= cb
                && v@.subrange(parts@[j].0 as int, parts@[j].1 as int) == ps[j],
            first_some(opts) == first_some(opts.skip(k as int)),
        decreases parts@.len() - k,
    {
        let (x, y) = parts[k];
        let f = param_boundary_range(&v, x, y);
        proof {
            lemma_first_some_step(opts, k as int);
            assert(opts[k as int] == param_boundary(ps[k as int]));
        }
        if f.is_some() {
            return f;
        }
        k = k + 1;
    }
    proof {
        assert(opts.skip(k as int) =~= Seq::<Option<Seq<char>>>::empty());
    }
    None
}


// ============================================================================
// Multipart parser
// ============================================================================

/// Find subsequence in byte slice.
pub fn find_subsequence(haystack: &[u8], needle: &[u8]) -> (r: Option<usize>)
    requires
        needle@.len() > 0,
    ensures
        match r {
            Some(i) => find(haystack@, needle@) == Some(i as int),
            None => find(haystack@, needle@) is None,
        },
{
    proof {
        assert(haystack@.subrange(0, haystack@.len() as int) =~= haystack@);
    }
    find_bytes(haystack, 0, needle)
}

/// `\r\n\r\n`, the separator of a part's headers and body.
pub open spec fn crlf_crlf() -> Seq<u8> {
    seq![13u8, 10u8, 13u8, 10u8]
}

/// `\n\n`, the separator used when no `\r\n\r\n` is present.
pub open spec fn lf_lf() -> Seq<u8> {
    seq![10u8, 10u8]
}

/// Where the headers of a part end and where its body begins.
pub open spec fn part_split(part: Seq<u8>) -> Option<(int, int)> {
    match find(part, crlf_crlf()) {
        Some(s) => Some((s, s + 4)),
        None => match find(part, lf_lf()) {
            Some(s) => Some((s, s + 2)),
            None => None,
        },
    }
}

/// `end`, moved back over trailing `\r` and `\n` bytes but not before `start`.
pub open spec fn trimmed_end(part: Seq<u8>, start: int, end: int) -> int
    decreases end - start,
{
    if end > start && (part[end - 1] == 13 || part[end - 1] == 10) {
        trimmed_end(part, start, end - 1)
    } else {
        end
    }
}

/// A part: the file name its headers give, and its body without trailing line breaks.
pub open spec fn multipart_part(part: Seq<u8>) -> Option<(Seq<char>, Seq<u8>)> {
    match part_split(part) {
        None => None,
        Some((h, s)) => match headers_filename(part.take(h)) {
            None => None,
            Some(f) => Some((f, part.subrange(s, trimmed_end(part, s, part.len() as int)))),
        },
    }
}

/// Parse a single multipart part.
pub fn parse_multipart_part(part: &[u8]) -> (r: Option<(String, &[u8])>)
    ensures
        match r {
            Some((f, d)) => multipart_part(part@) == Some((f@, d@)),
            None => multipart_part(part@) is None,
        },
{
    let crlf: Vec<u8> = vec![13, 10, 13, 10];
    let lf: Vec<u8> = vec![10, 10];
    proof {
        assert(crlf@ =~= crlf_crlf());
        assert(lf@ =~= lf_lf());
        assert(part@.subrange(0, part@.len() as int) =~= part@);
    }
    let crlf_s = crlf.as_slice();
    let lf_s = lf.as_slice();
    let plen = part.len();
    assert(crlf_s@.len() == 4 && lf_s@.len() == 2 && plen == part@.len());
    let (sep, start) = match find_bytes(part, 0, crlf_s) {
        Some(s) => (s, s + 4),
        None => match find_bytes(part, 0, lf_s) {
            Some(s) => (s, s + 2),
            None => {
                return None;
            },
        },
    };
    let headers = &part[0..sep];
    let mut end = part.len();
    while end > start && (part[end - 1] == 13 || part[end - 1] == 10)
        invariant
            start <= end <= part@.len(),
            trimmed_end(part@, start as int, part@.len() as int) == trimmed_end(part@, start as int, end as int),
        decreases end - start,
    {
        end = end - 1;
    }
    proof {
        assert(headers@ =~= part@.take(sep as int));
    }
    match extract_filename_from_headers(headers) {
        None => None,
        Some(name) => Some((name, &part[start..end])),
    }
}

/// A file read from multipart form data.
pub struct MultipartFile {
    pub filename: String,
    pub data: Vec<u8>,
}

/// The views of parsed files: name and content.
pub open spec fn files_view(fs: Seq<MultipartFile>) -> Seq<(Seq<char>, Seq<u8>)> {
    fs.map_values(|f: MultipartFile| (f.filename@, f.data@))
}

/// The delimiter line of a multipart body: `--` followed by the boundary.
pub open spec fn delimiter(boundary: Seq<u8>) -> Seq<u8> {
    seq![45u8, 45u8] + boundary
}

/// Where the part after the delimiter found at `at` begins: past the delimiter and the
/// line break after it, if any.
pub open spec fn part_start(body: Seq<u8>, past: int) -> int {
    if past + 1 < body.len() && body[past] == 13 && body[past + 1] == 10 {
        past + 2
    } else if past < body.len() && body[past] == 10 {
        past + 1
    } else {
        past
    }
}

/// The files of a multipart body read from `pos` on, delimiter `d`, or `None` where
/// the reading fails: a delimiter that ends exactly one byte before the end of the data
/// makes the test for the closing delimiter `d--` read past the end.
///
/// From `pos`: find the next delimiter; stop at a closing delimiter; skip the line
/// break after it; the part runs to the next delimiter (or the end); an empty part
/// stops the reading; a part whose headers name a non-empty file gives that file.
pub open spec fn multipart_scan(body: Seq<u8>, d: Seq<u8>, pos: int) -> Option<
    Seq<(Seq<char>, Seq<u8>)>,
>
    decreases body.len() - pos,
{
    if pos < 0 || pos >= body.len() {
        Some(Seq::empty())
    } else {
        match find(body.skip(pos), d) {
            None => Some(Seq::empty()),
            Some(i) => {
                let at = pos + i;
                let past = at + d.len();
                if past < body.len() && past + 2 > body.len() {
                    None
                } else if past < body.len() && body.subrange(at, past + 2) == d + seq![45u8, 45u8] {
                    Some(Seq::empty())
                } else {
                    let start = part_start(body, past);
                    let end = match find(body.skip(start), d) {
                        Some(j) => start + j,
                        None => body.len() as int,
                    };
                    if start >= end || end > body.len() {
                        Some(Seq::empty())
                    } else {
                        let here = match multipart_part(body.subrange(start, end)) {
                            Some((f, data)) => if f.len() > 0 {
                                seq![(f, data)]
                            } else {
                                Seq::empty()
                            },
                            None => Seq::empty(),
                        };
                        proof {
                            lemma_find(body.skip(pos), d);
                        }
                        match multipart_scan(body, d, end) {
                            Some(rest) => Some(here + rest),
                            None => None,
                        }
                    }
                }
            },
        }
    }
}

/// Parse multipart/form-data content: the files whose parts name a non-empty file name,
/// in order; `None` for a body on which the reading fails (see `multipart_scan`).
#[verifier::spinoff_prover]
#[verifier::rlimit(40)]
pub fn try_parse_multipart(body: &[u8], boundary: &str) -> (r: Option<Vec<MultipartFile>>)
    ensures
        match r {
            Some(v) => Some(files_view(v@)) == multipart_scan(body@, delimiter(boundary.spec_bytes()), 0),
            None => multipart_scan(body@, delimiter(boundary.spec_bytes()), 0) is None,
        },
{
    let ghost d = delimiter(boundary.spec_bytes());
    let mut line: Vec<u8> = vec![45, 45];
    let bb = boundary.as_bytes();
    let mut k: usize = 0;
    while k < bb.len()
        invariant
            0 <= k <= bb@.len(),
            bb@ == boundary.spec_bytes(),
            line@ == seq![45u8, 45u8] + bb@.take(k as int),
        decreases bb@.len() - k,
    {
        line.push(bb[k]);
        proof {
            assert(seq![45u8, 45u8] + bb@.take(k + 1) =~= (seq![45u8, 45u8] + bb@.take(k as int)).push(bb@[k as int]));
        }
        k = k + 1;
    }
    proof {
        assert(bb@.take(k as int) =~= bb@);
    }
    let mut closing: Vec<u8> = line.clone();
    closing.push(45);
    closing.push(45);
    proof {
        assert(closing@ =~= d + seq![45u8, 45u8]);
    }
    let len = body.len();
    let mut files: Vec<MultipartFile> = Vec::new();
    let mut pos: usize = 0;
    loop
        invariant
            line@ == d,
            d == delimiter(boundary.spec_bytes()),
            closing@ == d + seq![45u8, 45u8],
            len == body@.len(),
            pos <= len,
            multipart_scan(body@, d, 0) == match multipart_scan(body@, d, pos as int) {
                Some(rest) => Some(files_view(files@) + rest),
                None => None,
            },
        decreases len - pos,
    {
        let ghost rest_before = multipart_scan(body@, d, pos as int)->0;
        if pos >= len {
            proof {
                assert(files_view(files@) + rest_before =~= files_view(files@));
            }
            return Some(files);
        }
        let at = match find_bytes(body, pos, line.as_slice()) {
            Some(a) => a,
            None => {
                proof {
                    assert(files_view(files@) + rest_before =~= files_view(files@));
                }
                return Some(files);
            },
        };
        let past = at + line.len();
        if past < len && len - past < 2 {
            return None;
        }
        if past < len && bytes_match_at(body, at, closing.as_slice()) {
            proof {
                assert(files_view(files@) + rest_before =~= files_view(files@));
            }
            return Some(files);
        }
        let mut start = past;
        if past < len && len - past > 1 && body[past] == 13 && body[past + 1] == 10 {
            start = past + 2;
        } else if past < len && body[past] == 10 {
            start = past + 1;
        }
        let end = match find_bytes(body, start, line.as_slice()) {
            Some(j) => j,
            None => len,
        };
        if start >= end {
            proof {
                assert(files_view(files@) + rest_before =~= files_view(files@));
            }
            return Some(files);
        }
        let part = &body[start..end];
        proof {
            assert(part@ =~= body@.subrange(start as int, end as int));
            lemma_find(body@.skip(start as int), d);
            assert(body@.skip(start as int) =~= body@.subrange(start as int, len as int));
        }
        let ghost before = files@;
        match parse_multipart_part(part) {
            Some((name, data)) => {
                if !name.as_str().is_empty() {
                    files.push(MultipartFile { filename: name, data: slice_to_vec(data) });
                }
            },
            None => {},
        }
        proof {
            assert(body@.skip(pos as int) =~= body@.subrange(pos as int, len as int));
            if multipart_scan(body@, d, end as int) is Some {
                let rest = multipart_scan(body@, d, end as int)->0;
                assert(files_view(before) + rest_before =~= files_view(files@) + rest);
            }
        }
        pos = end;
    }
}


/// Parse multipart/form-data content: the files whose parts name a non-empty file name,
/// in order.
pub fn parse_multipart(body: &[u8], boundary: &str) -> (r: Vec<MultipartFile>)
    requires
        multipart_scan(body@, delimiter(boundary.spec_bytes()), 0) is Some,
    ensures
        Some(files_view(r@)) == multipart_scan(body@, delimiter(boundary.spec_bytes()), 0),
{
    match try_parse_multipart(body, boundary) {
        Some(v) => v,
        None => Vec::new(),
    }
}

// ============================================================================
// Dialog pages and submissions
// ============================================================================

/// An optional string, or `default` when absent.
pub open spec fn or_default(o: Option<String>, default: Seq<char>) -> Seq<char> {
    match o {
        Some(s) => s@,
        None => default,
    }
}

/// A copy of `o`'s text, or of `default` when absent.
fn text_or(o: &Option<String>, default: &str) -> (r: String)
    ensures
        r@ == or_default(*o, default@),
{
    match o {
        Some(s) => s.clone(),
        None => default.to_owned(),
    }
}

/// What the message dialog page shows.
pub struct MessageDialogState {
    pub title: String,
    pub description: String,
    pub buttons: MessageButtons,
}

impl MessageDialogState {
    pub fn new(dialog: &MessageDialog) -> (s: MessageDialogState)
        ensures
            s.title@ == dialog.title@,
            s.description@ == dialog.description@,
            s.buttons@ == dialog.buttons@,
    {
        MessageDialogState {
            title: dialog.title.clone(),
            description: dialog.description.clone(),
            buttons: copy_buttons(&dialog.buttons),
        }
    }
}

/// The message dialog page: title, description and one submit button per choice.
pub fn message_dialog_page(state: &MessageDialogState) -> (r: String)
    ensures
        r@ == page_text(
            state.title@,
            MESSAGE_BODY_0@ + escape_html(state.title@) + MESSAGE_BODY_1@ + escape_html(
                state.description@,
            ) + MESSAGE_BODY_2@ + buttons_text(state.buttons@) + MESSAGE_BODY_3@,
        ),
{
    let mut body = String::new();
    push_str(&mut body, MESSAGE_BODY_0);
    let t = html_escape(state.title.as_str());
    push_str(&mut body, t.as_str());
    push_str(&mut body, MESSAGE_BODY_1);
    let d = html_escape(state.description.as_str());
    push_str(&mut body, d.as_str());
    push_str(&mut body, MESSAGE_BODY_2);
    let b = generate_buttons_html(&state.buttons);
    push_str(&mut body, b.as_str());
    push_str(&mut body, MESSAGE_BODY_3);
    html_page(state.title.as_str(), body.as_str())
}

/// The value of the first pair with the key, if any.
pub open spec fn value_of(pairs: Seq<(Seq<char>, Seq<char>)>, key: Seq<char>) -> Option<Seq<char>>
    decreases pairs.len(),
{
    if pairs.len() == 0 {
        None
    } else if pairs[0].0 == key {
        Some(pairs[0].1)
    } else {
        value_of(pairs.drop_first(), key)
    }
}

/// The index of the first pair with the key, if any.
fn position_of_key(pairs: &Vec<(String, String)>, key: &str) -> (r: Option<usize>)
    ensures
        match r {
            Some(k) => k < pairs@.len() && value_of(pairs_view(pairs@), key@) == Some(pairs@[k as int].1@),
            None => value_of(pairs_view(pairs@), key@) is None,
        },
{
    let ghost pv = pairs_view(pairs@);
    proof {
        assert(pv.skip(0) =~= pv);
    }
    let mut k: usize = 0;
    while k < pairs.len()
        invariant
            0 <= k <= pairs@.len() == pv.len(),
            pv == pairs_view(pairs@),
            value_of(pv, key@) == value_of(pv.skip(k as int), key@),
        decreases pairs@.len() - k,
    {
        proof {
            assert(pv[k as int] == (pairs@[k as int].0@, pairs@[k as int].1@));
            assert(pv.skip(k as int).drop_first() =~= pv.skip(k + 1));
            assert(pv.skip(k as int)[0] == pv[k as int]);
        }
        if str_is(pairs[k].0.as_str(), key) {
            return Some(k);
        }
        k = k + 1;
    }
    proof {
        assert(pv.skip(k as int) =~= Seq::<(Seq<char>, Seq<char>)>::empty());
    }
    None
}

/// What a submitted message form chooses: the first `result` field, read as a
/// dialog result.
pub open spec fn message_choice(body: Seq<char>) -> Option<ResultView> {
    match value_of(form_pairs(body), "result"@) {
        Some(v) => Some(dialog_result_of(v)),
        None => None,
    }
}

/// Reads a submitted message form: the choice to report, if the form holds one, and the
/// page that closes the dialog.
pub fn message_dialog_submit(body: &str) -> (r: (Option<MessageDialogResult>, String))
    ensures
        match r.0 {
            Some(c) => message_choice(body@) == Some(c@),
            None => message_choice(body@) is None,
        },
        r.1@ == page_text("Done"@, DONE_BODY@),
{
    let params = parse_urlencoded(body);
    let choice = match position_of_key(&params, "result") {
        Some(k) => Some(parse_dialog_result(params[k].1.as_str())),
        None => None,
    };
    (choice, html_page("Done", DONE_BODY))
}

/// The page shown when a dialog is cancelled.
pub fn cancelled_page() -> (r: String)
    ensures
        r@ == page_text("Cancelled"@, CANCELLED_BODY@),
{
    html_page("Cancelled", CANCELLED_BODY)
}

/// What the file picker page shows.
pub struct FilePickerState {
    pub title: String,
    pub accept: String,
    pub multiple: bool,
}

impl FilePickerState {
    /// The file picker for a dialog: its title or "Select File", and the `accept`
    /// attribute of its filters.
    pub fn new(dialog: &FileDialog, multiple: bool) -> (s: FilePickerState)
        ensures
            s.title@ == or_default(dialog.title, "Select File"@),
            s.accept@ == accept_attribute(filters_view(dialog.filters@)),
            s.multiple == multiple,
    {
        FilePickerState {
            title: text_or(&dialog.title, "Select File"),
            accept: build_accept(dialog.filters.as_slice()),
            multiple,
        }
    }
}

/// `multiple` as an attribute, or nothing.
pub open spec fn multiple_attribute(multiple: bool) -> Seq<char> {
    if multiple {
        "multiple"@
    } else {
        ""@
    }
}

/// The file picker page: a file input and Cancel/Select buttons.
pub fn file_picker_page(state: &FilePickerState) -> (r: String)
    ensures
        r@ == page_text(
            state.title@,
            FILE_PICKER_BODY_0@ + escape_html(state.title@) + FILE_PICKER_BODY_1@ + state.accept@
                + FILE_PICKER_BODY_2@ + multiple_attribute(state.multiple) + FILE_PICKER_BODY_3@,
        ),
{
    let mut body = String::new();
    push_str(&mut body, FILE_PICKER_BODY_0);
    let t = html_escape(state.title.as_str());
    push_str(&mut body, t.as_str());
    push_str(&mut body, FILE_PICKER_BODY_1);
    push_str(&mut body, state.accept.as_str());
    push_str(&mut body, FILE_PICKER_BODY_2);
    if state.multiple {
        push_str(&mut body, "multiple");
    } else {
        push_str(&mut body, "");
    }
    push_str(&mut body, FILE_PICKER_BODY_3);
    html_page(state.title.as_str(), body.as_str())
}

/// What the folder picker page shows.
pub struct FolderPickerState {
    pub title: String,
    pub multiple: bool,
}

impl FolderPickerState {
    /// The folder picker for a dialog: its title or "Select Folder".
    pub fn new(dialog: &FileDialog, multiple: bool) -> (s: FolderPickerState)
        ensures
            s.title@ == or_default(dialog.title, "Select Folder"@),
            s.multiple == multiple,
    {
        FolderPickerState { title: text_or(&dialog.title, "Select Folder"), multiple }
    }
}

/// The folder picker page: a directory input and Cancel/Select buttons.
pub fn folder_picker_page(state: &FolderPickerState) -> (r: String)
    ensures
        r@ == page_text(
            state.title@,
            FOLDER_PICKER_BODY_0@ + escape_html(state.title@) + FOLDER_PICKER_BODY_1@
                + multiple_attribute(state.multiple) + FOLDER_PICKER_BODY_2@,
        ),
{
    let mut body = String::new();
    push_str(&mut body, FOLDER_PICKER_BODY_0);
    let t = html_escape(state.title.as_str());
    push_str(&mut body, t.as_str());
    push_str(&mut body, FOLDER_PICKER_BODY_1);
    if state.multiple {
        push_str(&mut body, "multiple");
    } else {
        push_str(&mut body, "");
    }
    push_str(&mut body, FOLDER_PICKER_BODY_2);
    html_page(state.title.as_str(), body.as_str())
}

/// What the save page shows.
pub struct FileSaveState {
    pub title: String,
    pub default_name: String,
}

impl FileSaveState {
    /// The save page for a dialog: its title or "Save File", its file name or
    /// "untitled".
    pub fn new(dialog: &FileDialog) -> (s: FileSaveState)
        ensures
            s.title@ == or_default(dialog.title, "Save File"@),
            s.default_name@ == or_default(dialog.file_name, "untitled"@),
    {
        FileSaveState {
            title: text_or(&dialog.title, "Save File"),
            default_name: text_or(&dialog.file_name, "untitled"),
        }
    }
}

/// The save page: a file name field and Cancel/Save buttons.
pub fn file_save_page(state: &FileSaveState) -> (r: String)
    ensures
        r@ == page_text(
            state.title@,
            FILE_SAVE_BODY_0@ + escape_html(state.title@) + FILE_SAVE_BODY_1@ + escape_html(
                state.default_name@,
            ) + FILE_SAVE_BODY_2@,
        ),
{
    let mut body = String::new();
    push_str(&mut body, FILE_SAVE_BODY_0);
    let t = html_escape(state.title.as_str());
    push_str(&mut body, t.as_str());
    push_str(&mut body, FILE_SAVE_BODY_1);
    let n = html_escape(state.default_name.as_str());
    push_str(&mut body, n.as_str());
    push_str(&mut body, FILE_SAVE_BODY_2);
    html_page(state.title.as_str(), body.as_str())
}

/// The file name a save form chooses, if it is usable: the first `filename` field,
/// trimmed, non-empty, and without `/`, `\` or `..` (which could leave the directory
/// the file is placed in).
pub open spec fn save_choice(body: Seq<char>) -> Option<Seq<char>> {
    match value_of(form_pairs(body), "filename"@) {
        Some(v) => {
            let f = trim(v);
            if f.len() == 0 || f.contains('/') || f.contains('\\') || find(f, ".."@) is Some {
                None
            } else {
                Some(f)
            }
        },
        None => None,
    }
}

/// `v[lo..hi]` holds `c`.
fn range_contains(v: &Vec<char>, lo: usize, hi: usize, c: char) -> (b: bool)
    requires
        lo <= hi <= v@.len(),
    ensures
        b == v@.subrange(lo as int, hi as int).contains(c),
{
    let mut i = lo;
    while i < hi
        invariant
            lo <= i <= hi <= v@.len(),
            forall|j: int| lo <= j < i ==> v@[j] != c,
        decreases hi - i,
    {
        if v[i] == c {
            proof {
                assert(v@.subrange(lo as int, hi as int)[i - lo] == c);
            }
            return true;
        }
        i = i + 1;
    }
    proof {
        if v@.subrange(lo as int, hi as int).contains(c) {
            let j = choose|j: int| 0 <= j < hi - lo && v@.subrange(lo as int, hi as int)[j] == c;
            assert(v@[lo + j] == c);
        }
    }
    false
}

/// Reads a submitted save form: the usable file name, if any, and the page that closes
/// the dialog.
pub fn file_save_submit(body: &str) -> (r: (Option<String>, String))
    ensures
        opt_view(r.0) == save_choice(body@),
        r.1@ == page_text("Done"@, SAVE_SELECTED_BODY@),
{
    let params = parse_urlencoded(body);
    let page = html_page("Done", SAVE_SELECTED_BODY);
    let k = match position_of_key(&params, "filename") {
        Some(k) => k,
        None => {
            return (None, page);
        },
    };
    let v = chars_of(params[k].1.as_str());
    let (a, b) = trim_range(&v, 0, v.len());
    proof {
        assert(v@.subrange(0, v@.len() as int) =~= params@[k as int].1@);
    }
    let dots = chars_of("..");
    if a == b || range_contains(&v, a, b, '/') || range_contains(&v, a, b, '\\') || find_chars(
        &v,
        a,
        b,
        &dots,
    ).is_some() {
        (None, page)
    } else {
        (Some(string_of(&v, a, b)), page)
    }
}

/// The file a single-file pick yields: the last one chosen, if any.
pub fn pick_file_from(picked: Option<Vec<PathBuf>>) -> (r: Option<PathBuf>)
    ensures
        match picked {
            Some(v) => if v@.len() > 0 {
                r == Some(v@.last())
            } else {
                r is None
            },
            None => r is None,
        },
{
    match picked {
        Some(mut v) => v.pop(),
        None => None,
    }
}

/// The result of a file upload: the saved files, or nothing when none was saved.
pub fn picked_paths(paths: Vec<PathBuf>) -> (r: Option<Vec<PathBuf>>)
    ensures
        paths@.len() == 0 ==> r is None,
        paths@.len() > 0 ==> r == Some(paths),
{
    if paths.len() == 0 {
        None
    } else {
        Some(paths)
    }
}

/// A reply of the local server: its HTTP status and its text.
pub struct Reply {
    pub status: u16,
    pub body: String,
}

/// The boundary an upload's body is split at, from its content type; or, when the
/// content type names none, the reply that refuses the upload (the dialog then yields
/// nothing).
pub fn upload_boundary(content_type: &str) -> (r: Result<String, Reply>)
    ensures
        match content_type_boundary(content_type@) {
            Some(b) => r matches Ok(s) && s@ == b,
            None => r matches Err(rep) && rep.status == 400 && rep.body@ == "Missing boundary"@,
        },
{
    match extract_boundary(content_type) {
        Some(b) => Ok(b),
        None => Err(Reply { status: 400, body: "Missing boundary".to_string() }),
    }
}

/// The reply to an upload whose body could not be read; the dialog yields nothing.
pub fn unreadable_upload() -> (r: Reply)
    ensures
        r.status == 400,
        r.body@ == "Failed to read body"@,
{
    Reply { status: 400, body: "Failed to read body".to_string() }
}

/// The reply when no temporary directory could be made for uploaded files; the dialog
/// yields nothing.
pub fn no_temp_dir() -> (r: Reply)
    ensures
        r.status == 500,
        r.body@ == "Failed to create temp directory"@,
{
    Reply { status: 500, body: "Failed to create temp directory".to_string() }
}

/// The values present in a sequence of options, in order.
pub open spec fn present<T>(s: Seq<Option<T>>) -> Seq<T>
    decreases s.len(),
{
    if s.len() == 0 {
        Seq::empty()
    } else {
        let rest = present(s.drop_last());
        match s.last() {
            Some(x) => rest.push(x),
            None => rest,
        }
    }
}

/// What a file upload yields once each uploaded file was written (`None` where writing
/// it failed): the written files in order, or nothing when none was written; and the
/// page that closes the dialog.
pub fn file_upload_result(saved: Vec<Option<PathBuf>>) -> (r: (Option<Vec<PathBuf>>, String))
    ensures
        present(saved@).len() == 0 ==> r.0 is None,
        present(saved@).len() > 0 ==> (r.0 matches Some(v) && v@ == present(saved@)),
        r.1@ == page_text("Done"@, FILES_SELECTED_BODY@),
{
    let mut paths: Vec<PathBuf> = Vec::new();
    let mut i: usize = 0;
    while i < saved.len()
        invariant
            0 <= i <= saved@.len(),
            paths@ == present(saved@.take(i as int)),
        decreases saved@.len() - i,
    {
        match &saved[i] {
            Some(p) => paths.push(p.clone()),
            None => {},
        }
        proof {
            assert(saved@.take(i + 1).drop_last() =~= saved@.take(i as int));
        }
        i = i + 1;
    }
    proof {
        assert(saved@.take(saved@.len() as int) =~= saved@);
    }
    (picked_paths(paths), html_page("Done", FILES_SELECTED_BODY))
}

/// Whether a folder upload needs a folder to write its files into: when it has files.
pub fn folder_upload_needs_dir(files: &Vec<MultipartFile>) -> (b: bool)
    ensures
        b == (files@.len() > 0),
{
    files.len() > 0
}

/// What a folder upload yields: nothing when it had no files; else the folder its files
/// were written into, if one could be made; and the page that closes the dialog.
pub fn folder_upload_result(had_files: bool, folder: Option<PathBuf>) -> (r: (Option<Vec<PathBuf>>, String))
    ensures
        !had_files ==> r.0 is None,
        had_files ==> match folder {
            Some(p) => r.0 matches Some(v) && v@ == seq![p],
            None => r.0 is None,
        },
        r.1@ == page_text("Done"@, FOLDER_SELECTED_BODY@),
{
    let page = html_page("Done", FOLDER_SELECTED_BODY);
    if !had_files {
        return (None, page);
    }
    match folder {
        Some(p) => {
            let mut v: Vec<PathBuf> = Vec::new();
            v.push(p);
            (Some(v), page)
        },
        None => (None, page),
    }
}

/// A `/`-separated name that stays below the folder it is written to on every
/// platform: it is not absolute and no `/`-separated part of it is `..`.
pub open spec fn upload_name_ok(name: Seq<char>) -> bool {
    &&& !(name.len() > 0 && name[0] == '/')
    &&& forall|i: int| 0 <= i < split_on(name, '/').len() ==> #[trigger] split_on(name, '/')[i] != ".."@
}

/// The kind of one component of a path (`std::path::Component`).
#[derive(Clone, Copy, Debug, PartialEq, Eq)]
pub enum PathPart {
    Prefix,
    RootDir,
    CurDir,
    ParentDir,
    Normal,
}

/// A component that leads out of the folder a name is joined to: a parent, a root or
/// a prefix.
pub open spec fn leaves_folder(p: PathPart) -> bool {
    p is Prefix || p is RootDir || p is ParentDir
}

/// A name with no `\` and no `:`: none of the platforms reads a drive, a share or a
/// second kind of separator in it, so `/` is its only separator.
pub open spec fn portable_name(name: Seq<char>) -> bool {
    !name.contains('\\') && !name.contains(':')
}

/// `Path::is_absolute` of a name. What counts as absolute depends on the platform: a
/// leading root `/` on Unix, a prefix (a drive such as `C:` or a share or device
/// written with `\\`) followed by a root on Windows. Stated is what holds on each: a
/// portable name that does not begin with `/` is not absolute.
#[verifier::external_body]
fn path_is_absolute(name: &str) -> (r: bool)
    ensures
        r ==> (name@.len() > 0 && name@[0] == '/') || !portable_name(name@),
{
    std::path::Path::new(name).is_absolute()
}

/// `Path::components` of a name, each told apart by its kind. How a name splits
/// depends on the platform; on every platform std reads `/` as a separator, a leading
/// `/` as a root (or, on Windows, part of a prefix), a `..` part as the parent, and
/// finds a prefix only where a `\` or a `:` stands. So a name that is not
/// `upload_name_ok` has a component that leaves the folder, and a portable name that
/// is `upload_name_ok` has none.
#[verifier::external_body]
fn path_parts(name: &str) -> (r: Vec<PathPart>)
    ensures
        !upload_name_ok(name@) ==> exists|i: int| 0 <= i < r@.len() && leaves_folder(#[trigger] r@[i]),
        upload_name_ok(name@) && portable_name(name@) ==> forall|i: int|
            0 <= i < r@.len() ==> !leaves_folder(#[trigger] r@[i]),
{
    let mut r = Vec::new();
    for c in std::path::Path::new(name).components() {
        r.push(match c {
            std::path::Component::Prefix(_) => PathPart::Prefix,
            std::path::Component::RootDir => PathPart::RootDir,
            std::path::Component::CurDir => PathPart::CurDir,
            std::path::Component::ParentDir => PathPart::ParentDir,
            std::path::Component::Normal(_) => PathPart::Normal,
        });
    }
    r
}

/// Whether a name with these components, absolute or not, stays inside the folder it
/// is joined to: it is not absolute and no component leaves the folder.
pub fn name_stays_inside(absolute: bool, parts: &Vec<PathPart>) -> (b: bool)
    ensures
        b == (!absolute && forall|i: int| 0 <= i < parts@.len() ==> !leaves_folder(#[trigger] parts@[i])),
{
    if absolute {
        return false;
    }
    let mut i: usize = 0;
    while i < parts.len()
        invariant
            0 <= i <= parts@.len(),
            forall|k: int| 0 <= k < i ==> !leaves_folder(#[trigger] parts@[k]),
        decreases parts@.len() - i,
    {
        match parts[i] {
            PathPart::Prefix | PathPart::RootDir | PathPart::ParentDir => {
                return false;
            },
            _ => {},
        }
        i = i + 1;
    }
    true
}

/// Whether an uploaded file's name stays inside the folder it is written to, as the
/// platform's paths read it; files whose names do not are refused as invalid input. A
/// name accepted here is `upload_name_ok` on every platform, and a portable name is
/// accepted exactly when it is `upload_name_ok`.
pub fn valid_upload_name(filename: &str) -> (b: bool)
    ensures
        b ==> upload_name_ok(filename@),
        portable_name(filename@) ==> (b <==> upload_name_ok(filename@)),
{
    let absolute = path_is_absolute(filename);
    let parts = path_parts(filename);
    name_stays_inside(absolute, &parts)
}

// ============================================================================
// Laws
// ============================================================================

/// Appending to the last item appends to the joined text.
proof fn lemma_join_push_last(items: Seq<Seq<char>>, sep: Seq<char>, x: char)
    requires
        items.len() >= 1,
    ensures
        join(items.update(items.len() - 1, items.last().push(x)), sep) == join(items, sep).push(x),
{
    let n = items.len();
    let u = items.update(n - 1, items.last().push(x));
    if n >= 2 {
        assert(u.drop_last() =~= items.drop_last());
        assert(join(u, sep) == join(u.drop_last(), sep) + sep + u.last());
        assert(join(items.drop_last(), sep) + sep + items.last().push(x) =~= (join(
            items.drop_last(),
            sep,
        ) + sep + items.last()).push(x));
    }
}

/// Splitting text at a character gives pieces without that character which, joined
/// with it again, give the text back.
pub proof fn law_split_pieces_join_back(s: Seq<char>, c: char)
    ensures
        join(split_on(s, c), seq![c]) == s,
        forall|k: int| 0 <= k < split_on(s, c).len() ==> !(#[trigger] split_on(s, c)[k]).contains(c),
    decreases s.len(),
{
    lemma_split_on_nonempty(s, c);
    if s.len() == 0 {
        let e = Seq::<char>::empty();
        assert(split_on(s, c) == seq![e]);
        assert forall|k: int| 0 <= k < split_on(s, c).len() implies !(#[trigger] split_on(s, c)[k]).contains(c) by {
            assert(split_on(s, c)[k] == e);
        }
    } else {
        let t = s.drop_last();
        law_split_pieces_join_back(t, c);
        lemma_split_on_nonempty(t, c);
        let init = split_on(t, c);
        let parts = split_on(s, c);
        if s.last() == c {
            assert(parts == init.push(Seq::<char>::empty()));
            assert(parts.drop_last() =~= init);
            assert(join(parts, seq![c]) == join(init, seq![c]) + seq![c] + Seq::<char>::empty());
            assert(t + seq![c] + Seq::<char>::empty() =~= s);
            assert forall|k: int| 0 <= k < parts.len() implies !(#[trigger] parts[k]).contains(c) by {
                if k < init.len() {
                    assert(parts[k] == init[k]);
                } else {
                    assert(parts[k] == Seq::<char>::empty());
                }
            }
        } else {
            lemma_join_push_last(init, seq![c], s.last());
            assert(t.push(s.last()) =~= s);
            assert forall|k: int| 0 <= k < parts.len() implies !(#[trigger] parts[k]).contains(c) by {
                if k < init.len() - 1 {
                    assert(parts[k] == init[k]);
                } else {
                    let l = init.last();
                    assert(parts[k] == l.push(s.last()));
                    assert(!init[init.len() - 1].contains(c));
                    if l.push(s.last()).contains(c) {
                        let i = choose|i: int| 0 <= i < l.push(s.last()).len() && l.push(s.last())[i] == c;
                        if i < l.len() {
                            assert(l[i] == c);
                        }
                    }
                }
            }
        }
    }
}

/// A boundary written as `multipart/form-data; boundary=` and a plain boundary (one
/// that is not empty, holds no `;`, neither begins nor ends in white space and does not
/// begin with a quote) is read back as it was written.
pub proof fn law_written_boundary_is_read(b: Seq<char>)
    requires
        b.len() > 0,
        !b.contains(';'),
        !is_white_space(b[0]) && !is_white_space(b.last()),
        b[0] != '"',
    ensures
        content_type_boundary("multipart/form-data; boundary="@ + b) == Some(b),
{
    reveal_strlit("multipart/form-data; boundary=");
    reveal_strlit("multipart/form-data");
    reveal_strlit("boundary=");
    let head = "multipart/form-data"@;
    let param = seq![' '] + "boundary="@ + b;
    let ct = "multipart/form-data; boundary="@ + b;
    assert(ct =~= head + seq![';'] + param);
    assert(ct[0] == 'm');
    assert(ct.last() == b.last());
    lemma_trim_unpadded(ct);
    lemma_split_on_append(head, param, ';');
    assert(!head.contains(';')) by {
        if head.contains(';') {
            let i = choose|i: int| 0 <= i < head.len() && head[i] == ';';
            assert(head[i] != ';');
        }
    }
    assert(!param.contains(';')) by {
        if param.contains(';') {
            let i = choose|i: int| 0 <= i < param.len() && param[i] == ';';
            if i >= 10 {
                assert(param[i] == b[i - 10]);
            }
        }
    }
    lemma_split_on_plain(head, ';');
    lemma_split_on_plain(param, ';');
    let parts = split_on(ct, ';');
    assert(parts =~= seq![head, param]);
    // the media type gives no boundary
    lemma_trim_unpadded(head);
    assert(lower_code(head[0]) != lower_code("boundary="@[0]));
    assert(param_boundary(head) is None);
    // the parameter gives the boundary
    let q = "boundary="@ + b;
    assert(is_white_space(param[0]));
    assert(param.drop_first() =~= q);
    assert(trim_start(q) == q);
    assert(trim_start(param) == q);
    assert(q.last() == b.last());
    assert(trim_end(q) == q);
    assert(starts_with_ci(q, "boundary="@));
    assert(q.skip(9) =~= b);
    lemma_trim_unpadded(b);
    assert(param_boundary(param) == Some(b));
    let opts = parts.map_values(|x: Seq<char>| param_boundary(x));
    assert(opts[0] is None);
    assert(opts[1] == Some(b));
    assert(opts.drop_first()[0] == Some(b));
    assert(first_some(opts.drop_first()) == Some(b));
    assert(first_some(opts) == Some(b));
    assert(trim(ct) == ct);
    assert(content_type_boundary(ct) == first_some(opts));
}

/// A file name written into a form's `Content-Disposition` header line, as a browser
/// writes it (`filename="..."` after the field's name), is read back as it was written,
/// whatever it holds but `;` and line breaks.
pub proof fn law_written_file_name_is_read(n: Seq<char>)
    requires
        !n.contains(';'),
        !n.contains('\n'),
    ensures
        text_filename("Content-Disposition: form-data; name=\"files\"; filename=\""@ + n + "\""@)
            == Some(n),
{
    reveal_strlit("Content-Disposition: form-data; name=\"files\"; filename=\"");
    reveal_strlit("\"");
    reveal_strlit("content-disposition:");
    reveal_strlit("filename=");
    reveal_strlit("filename*=");
    let media = "form-data"@;
    let a = " name=\"files\""@;
    let bq = " filename=\""@;
    reveal_strlit("form-data");
    reveal_strlit(" name=\"files\"");
    reveal_strlit(" filename=\"");
    let b = bq + n + seq!['"'];
    let head = "Content-Disposition:"@;
    reveal_strlit("Content-Disposition:");
    let line = "Content-Disposition: form-data; name=\"files\"; filename=\""@ + n + "\""@;
    assert(line =~= head + seq![' '] + media + seq![';'] + a + seq![';'] + b);
    // one line
    assert(!line.contains('\n')) by {
        if line.contains('\n') {
            let i = choose|i: int| 0 <= i < line.len() && line[i] == '\n';
            if 56 <= i < 56 + n.len() {
                assert(line[i] == n[i - 56]);
            }
        }
    }
    lemma_split_on_plain(line, '\n');
    assert(lines(line) =~= seq![line]);
    // the line's trim and its header name
    assert(line[0] == 'C');
    assert(line.last() == '"');
    lemma_trim_unpadded(line);
    assert(starts_with_ci(line, "content-disposition:"@)) by {
        assert forall|m: int| 0 <= m < 20 implies lower_code(line[m]) == lower_code(
            #[trigger] "content-disposition:"@[m],
        ) by {
            assert(line[m] == head[m]);
        }
    }
    // the disposition after the header name
    let rest = line.skip(20);
    let d = media + seq![';'] + a + seq![';'] + b;
    assert(rest =~= seq![' '] + d);
    assert(trim_start(d) == d);
    assert(rest.drop_first() =~= d);
    assert(trim_start(rest) == d);
    assert(d.last() == '"');
    assert(trim_end(d) == d);
    // the first `;` ends `form-data`
    assert(is_first_occurrence(d, seq![';'], 9)) by {
        assert(d.subrange(9, 10) =~= seq![';']);
        assert forall|j: int| 0 <= j < 9 implies !occurs_at(d, seq![';'], j) by {
            assert(d.subrange(j, j + 1)[0] == d[j]);
        }
    }
    lemma_find_is(d, seq![';'], 9);
    let params = d.skip(10);
    assert(params =~= a + seq![';'] + b);
    lemma_split_on_append(a, b, ';');
    assert(!a.contains(';')) by {
        if a.contains(';') {
            let i = choose|i: int| 0 <= i < a.len() && a[i] == ';';
        }
    }
    assert(!b.contains(';')) by {
        if b.contains(';') {
            let i = choose|i: int| 0 <= i < b.len() && b[i] == ';';
            if 11 <= i < 11 + n.len() {
                assert(b[i] == n[i - 11]);
            }
        }
    }
    lemma_split_on_plain(a, ';');
    lemma_split_on_plain(b, ';');
    let parts = split_on(params, ';');
    assert(parts =~= seq![a, b]);
    // the field's name gives no file name
    let qa = a.drop_first();
    assert(trim_start(qa) == qa);
    assert(trim_start(a) == qa);
    assert(trim_end(qa) == qa);
    assert(qa[0] == 'n');
    assert(!"filename="@.is_prefix_of(qa)) by {
        if "filename="@.is_prefix_of(qa) {
            assert(qa.subrange(0, 9)[0] == qa[0]);
        }
    }
    assert(!"filename*="@.is_prefix_of(qa)) by {
        if "filename*="@.is_prefix_of(qa) {
            assert(qa.subrange(0, 10)[0] == qa[0]);
        }
    }
    assert(param_filename(a) is None);
    // the file name parameter gives the name
    let qb = b.drop_first();
    assert(trim_start(qb) == qb);
    assert(trim_start(b) == qb);
    assert(trim_end(qb) == qb);
    assert(qb =~= "filename="@ + (seq!['"'] + n + seq!['"']));
    assert("filename="@.is_prefix_of(qb)) by {
        assert(qb.subrange(0, 9) =~= "filename="@);
    }
    let f = qb.skip(9);
    assert(f =~= seq!['"'] + n + seq!['"']);
    assert(f.subrange(1, f.len() - 1) =~= n);
    assert(param_filename(b) == Some(n));
    let opts = parts.map_values(|x: Seq<char>| param_filename(x));
    assert(opts[0] is None);
    assert(opts.drop_first()[0] == Some(n));
    assert(first_some(opts.drop_first()) == Some(n));
    assert(first_some(opts) == Some(n));
    assert(line_filename(line) == Some(n));
    let lopts = lines(line).map_values(|l: Seq<char>| line_filename(l));
    assert(lopts[0] == Some(n));
    assert(first_some(lopts) == Some(n));
}

/// The accepted items of a filter are its non-empty extensions, each behind a `.`:
/// empty extensions are left out and nothing else is added.
pub proof fn law_dotted_extensions_are_the_extensions(exts: Seq<Seq<char>>)
    ensures
        dotted_extensions(exts).len() <= exts.len(),
        forall|k: int| 0 <= k < dotted_extensions(exts).len() ==> exists|i: int|
            0 <= i < exts.len() && exts[i].len() > 0 && #[trigger] dotted_extensions(exts)[k]
                == seq!['.'] + exts[i],
        forall|i: int| 0 <= i < exts.len() && (#[trigger] exts[i]).len() > 0 ==> exists|k: int|
            0 <= k < dotted_extensions(exts).len() && dotted_extensions(exts)[k] == seq!['.'] + exts[i],
    decreases exts.len(),
{
    if exts.len() > 0 {
        let init = exts.drop_last();
        law_dotted_extensions_are_the_extensions(init);
        let di = dotted_extensions(init);
        let d = dotted_extensions(exts);
        let x = exts.last();
        assert(d == if x.len() == 0 {
            di
        } else {
            di.push(seq!['.'] + x)
        });
        assert forall|k: int| 0 <= k < d.len() implies exists|i: int|
            0 <= i < exts.len() && exts[i].len() > 0 && #[trigger] d[k] == seq!['.'] + exts[i] by {
            if k < di.len() {
                let i = choose|i: int| 0 <= i < init.len() && init[i].len() > 0 && #[trigger] di[k] == seq!['.'] + init[i];
                assert(exts[i] == init[i]);
                assert(d[k] == di[k]);
            } else {
                assert(exts[exts.len() - 1] == x);
            }
        }
        assert forall|i: int| 0 <= i < exts.len() && (#[trigger] exts[i]).len() > 0 implies exists|k: int|
            0 <= k < d.len() && d[k] == seq!['.'] + exts[i] by {
            if i < init.len() {
                assert(init[i] == exts[i]);
                let k = choose|k: int| 0 <= k < di.len() && di[k] == seq!['.'] + init[i];
                assert(d[k] == di[k]);
            } else {
                assert(d[di.len() as int] == seq!['.'] + x);
            }
        }
    }
}

/// Escaped text holds none of the characters that open or close markup or an
/// attribute: `<`, `>`, `"` and `'`.
pub proof fn law_escaped_text_has_no_markup(s: Seq<char>)
    ensures
        forall|i: int|
            0 <= i < escape_html(s).len() ==> {
                let c = #[trigger] escape_html(s)[i];
                c != '<' && c != '>' && c != '"' && c != '\''
            },
    decreases s.len(),
{
    reveal_strlit("&amp;");
    reveal_strlit("&lt;");
    reveal_strlit("&gt;");
    reveal_strlit("&quot;");
    reveal_strlit("&#x27;");
    if s.len() > 0 {
        law_escaped_text_has_no_markup(s.drop_last());
        let a = escape_html(s.drop_last());
        let b = escape_char(s.last());
        assert forall|i: int| 0 <= i < (a + b).len() implies {
            let c = #[trigger] (a + b)[i];
            c != '<' && c != '>' && c != '"' && c != '\''
        } by {
            if i >= a.len() {
                assert((a + b)[i] == b[i - a.len()]);
            } else {
                assert((a + b)[i] == a[i]);
            }
        }
    }
}

/// HTML unescaping of the five entities `html_escape` writes, read left to right: each
/// entity stands for its character, every other character for itself.
pub open spec fn unescape_html(t: Seq<char>) -> Seq<char>
    decreases t.len(),
{
    proof {
        reveal_strlit("&amp;");
        reveal_strlit("&lt;");
        reveal_strlit("&gt;");
        reveal_strlit("&quot;");
        reveal_strlit("&#x27;");
    }
    if t.len() == 0 {
        Seq::empty()
    } else if "&amp;"@.is_prefix_of(t) {
        seq!['&'] + unescape_html(t.skip(5))
    } else if "&lt;"@.is_prefix_of(t) {
        seq!['<'] + unescape_html(t.skip(4))
    } else if "&gt;"@.is_prefix_of(t) {
        seq!['>'] + unescape_html(t.skip(4))
    } else if "&quot;"@.is_prefix_of(t) {
        seq!['"'] + unescape_html(t.skip(6))
    } else if "&#x27;"@.is_prefix_of(t) {
        seq!['\''] + unescape_html(t.skip(6))
    } else {
        seq![t[0]] + unescape_html(t.skip(1))
    }
}

/// One of the five entities begins at index `i` of `t`.
pub open spec fn entity_at(t: Seq<char>, i: int) -> bool {
    let r = t.skip(i);
    ||| "&amp;"@.is_prefix_of(r)
    ||| "&lt;"@.is_prefix_of(r)
    ||| "&gt;"@.is_prefix_of(r)
    ||| "&quot;"@.is_prefix_of(r)
    ||| "&#x27;"@.is_prefix_of(r)
}

/// Escaping text piece by piece is escaping it whole.
proof fn lemma_escape_append(a: Seq<char>, b: Seq<char>)
    ensures
        escape_html(a + b) == escape_html(a) + escape_html(b),
    decreases b.len(),
{
    if b.len() == 0 {
        assert(a + b =~= a);
        assert(escape_html(a) + escape_html(b) =~= escape_html(a));
    } else {
        lemma_escape_append(a, b.drop_last());
        assert((a + b).drop_last() =~= a + b.drop_last());
        assert((a + b).last() == b.last());
        assert(escape_html(a) + escape_html(b) =~= escape_html(a) + escape_html(b.drop_last()) + escape_char(b.last()));
    }
}

/// Escaped text, read from its first character.
proof fn lemma_escape_front(s: Seq<char>)
    requires
        s.len() > 0,
    ensures
        escape_html(s) == escape_char(s[0]) + escape_html(s.skip(1)),
{
    lemma_escape_append(seq![s[0]], s.skip(1));
    assert(seq![s[0]] + s.skip(1) =~= s);
    assert(seq![s[0]].drop_last() =~= Seq::<char>::empty());
    assert(escape_html(seq![s[0]].drop_last()) == Seq::<char>::empty());
    assert(escape_html(seq![s[0]]) =~= escape_char(s[0]));
}

/// A sequence that differs from `p` at index `k` does not start with `p`.
proof fn lemma_not_prefix(p: Seq<char>, t: Seq<char>, k: int)
    requires
        0 <= k < p.len(),
        k < t.len(),
        p[k] != t[k],
    ensures
        !p.is_prefix_of(t),
{
    if p.is_prefix_of(t) {
        assert(t.subrange(0, p.len() as int)[k] == t[k]);
    }
}

/// Unescaping reads one escaped character back.
proof fn lemma_unescape_char(c: char, r: Seq<char>)
    ensures
        unescape_html(escape_char(c) + r) == seq![c] + unescape_html(r),
{
    reveal_strlit("&amp;");
    reveal_strlit("&lt;");
    reveal_strlit("&gt;");
    reveal_strlit("&quot;");
    reveal_strlit("&#x27;");
    let t = escape_char(c) + r;
    let e = escape_char(c);
    assert(t.skip(e.len() as int) =~= r);
    if c == '&' {
        assert("&amp;"@.is_prefix_of(t)) by {
            assert(t.subrange(0, 5) =~= "&amp;"@);
        }
    } else if c == '<' {
        assert("&lt;"@.is_prefix_of(t)) by {
            assert(t.subrange(0, 4) =~= "&lt;"@);
        }
        lemma_not_prefix("&amp;"@, t, 1);
    } else if c == '>' {
        assert("&gt;"@.is_prefix_of(t)) by {
            assert(t.subrange(0, 4) =~= "&gt;"@);
        }
        lemma_not_prefix("&amp;"@, t, 1);
        lemma_not_prefix("&lt;"@, t, 1);
    } else if c == '"' {
        assert("&quot;"@.is_prefix_of(t)) by {
            assert(t.subrange(0, 6) =~= "&quot;"@);
        }
        lemma_not_prefix("&amp;"@, t, 1);
        lemma_not_prefix("&lt;"@, t, 1);
        lemma_not_prefix("&gt;"@, t, 1);
    } else if c == '\'' {
        assert("&#x27;"@.is_prefix_of(t)) by {
            assert(t.subrange(0, 6) =~= "&#x27;"@);
        }
        lemma_not_prefix("&amp;"@, t, 1);
        lemma_not_prefix("&lt;"@, t, 1);
        lemma_not_prefix("&gt;"@, t, 1);
        lemma_not_prefix("&quot;"@, t, 1);
    } else {
        assert(t[0] == c);
        lemma_not_prefix("&amp;"@, t, 0);
        lemma_not_prefix("&lt;"@, t, 0);
        lemma_not_prefix("&gt;"@, t, 0);
        lemma_not_prefix("&quot;"@, t, 0);
        lemma_not_prefix("&#x27;"@, t, 0);
    }
}

/// Unescaping escaped text gives the text back.
pub proof fn law_unescape_undoes_escape(s: Seq<char>)
    ensures
        unescape_html(escape_html(s)) == s,
    decreases s.len(),
{
    if s.len() == 0 {
        assert(escape_html(s) =~= Seq::<char>::empty());
    } else {
        lemma_escape_front(s);
        lemma_unescape_char(s[0], escape_html(s.skip(1)));
        law_unescape_undoes_escape(s.skip(1));
        assert(seq![s[0]] + s.skip(1) =~= s);
    }
}

/// Every `&` of escaped text begins one of the five entities, so nothing is escaped
/// twice.
pub proof fn law_every_ampersand_begins_an_entity(s: Seq<char>)
    ensures
        forall|i: int| 0 <= i < escape_html(s).len() && #[trigger] escape_html(s)[i] == '&' ==> entity_at(escape_html(s), i),
    decreases s.len(),
{
    reveal_strlit("&amp;");
    reveal_strlit("&lt;");
    reveal_strlit("&gt;");
    reveal_strlit("&quot;");
    reveal_strlit("&#x27;");
    if s.len() > 0 {
        lemma_escape_front(s);
        law_every_ampersand_begins_an_entity(s.skip(1));
        let e = escape_char(s[0]);
        let rest = escape_html(s.skip(1));
        let t = e + rest;
        assert forall|i: int| 0 <= i < t.len() && #[trigger] t[i] == '&' implies entity_at(t, i) by {
            if i < e.len() {
                assert(e[i] == '&');
                assert(i == 0);
                assert(t.skip(0) =~= t);
                assert(e.is_prefix_of(t));
            } else {
                let j = i - e.len();
                assert(t[i] == rest[j]);
                assert(t.skip(i) =~= rest.skip(j));
            }
        }
    }
}

/// Every occurrence of `from` in `s` replaced by `to`, from left to right and without
/// overlaps, as `str::replace` does with a non-empty pattern.
pub open spec fn replace_all(s: Seq<char>, from: Seq<char>, to: Seq<char>) -> Seq<char>
    decreases s.len(),
{
    if s.len() == 0 {
        Seq::empty()
    } else if from.len() > 0 && from.is_prefix_of(s) {
        to + replace_all(s.skip(from.len() as int), from, to)
    } else {
        seq![s[0]] + replace_all(s.skip(1), from, to)
    }
}

/// Unescaping as a chain of replacements over the whole text: `&lt;`, `&gt;`, `&quot;`
/// and `&#x27;` by the characters they stand for, and last `&amp;` by `&`.
pub open spec fn unescape_by_replacing(t: Seq<char>) -> Seq<char> {
    let t1 = replace_all(t, "&lt;"@, seq!['<']);
    let t2 = replace_all(t1, "&gt;"@, seq!['>']);
    let t3 = replace_all(t2, "&quot;"@, seq!['"']);
    let t4 = replace_all(t3, "&#x27;"@, seq!['\'']);
    replace_all(t4, "&amp;"@, seq!['&'])
}

/// The character whose entity the `k`-th replacement of `unescape_by_replacing` reads.
spec fn replaced_char(k: int) -> char {
    if k == 1 {
        '<'
    } else if k == 2 {
        '>'
    } else if k == 3 {
        '"'
    } else if k == 4 {
        '\''
    } else {
        '&'
    }
}

/// The replacement that reads a character's entity back; 0 for a plain character.
spec fn replacement_of(c: char) -> int {
    if c == '<' {
        1
    } else if c == '>' {
        2
    } else if c == '"' {
        3
    } else if c == '\'' {
        4
    } else if c == '&' {
        5
    } else {
        0
    }
}

/// What a character of the text has become after the first `k` replacements.
spec fn piece_after(c: char, k: int) -> Seq<char> {
    if replacement_of(c) <= k {
        seq![c]
    } else {
        escape_char(c)
    }
}

/// Escaped text after the first `k` replacements.
spec fn text_after(s: Seq<char>, k: int) -> Seq<char>
    decreases s.len(),
{
    if s.len() == 0 {
        Seq::empty()
    } else {
        piece_after(s[0], k) + text_after(s.skip(1), k)
    }
}

/// A piece at the front whose later characters cannot begin `from`, and which does not
/// itself begin `from`, passes through the replacement unchanged.
proof fn lemma_replace_passes_piece(w: Seq<char>, rest: Seq<char>, from: Seq<char>, to: Seq<char>)
    requires
        from.len() > 0,
        forall|i: int| 0 < i < w.len() ==> #[trigger] w[i] != from[0],
        w.len() > 0 ==> !from.is_prefix_of(w + rest),
    ensures
        replace_all(w + rest, from, to) == w + replace_all(rest, from, to),
    decreases w.len(),
{
    if w.len() == 0 {
        assert(w + rest =~= rest);
        assert(w + replace_all(rest, from, to) =~= replace_all(rest, from, to));
    } else {
        let x = w + rest;
        let v = w.skip(1);
        assert(x.skip(1) =~= v + rest);
        if v.len() > 0 {
            assert(v[0] == w[1]);
            lemma_not_prefix(from, v + rest, 0);
        }
        assert forall|i: int| 0 < i < v.len() implies #[trigger] v[i] != from[0] by {
            assert(v[i] == w[i + 1]);
        }
        lemma_replace_passes_piece(v, rest, from, to);
        assert(seq![w[0]] + (v + replace_all(rest, from, to)) =~= w + replace_all(rest, from, to));
    }
}

/// The `k`-th replacement turns the text after `k - 1` replacements into the text
/// after `k`.
proof fn lemma_replace_step(s: Seq<char>, k: int)
    requires
        1 <= k <= 5,
    ensures
        replace_all(text_after(s, k - 1), escape_char(replaced_char(k)), seq![replaced_char(k)])
            == text_after(s, k),
    decreases s.len(),
{
    reveal_strlit("&amp;");
    reveal_strlit("&lt;");
    reveal_strlit("&gt;");
    reveal_strlit("&quot;");
    reveal_strlit("&#x27;");
    let from = escape_char(replaced_char(k));
    let to = seq![replaced_char(k)];
    if s.len() > 0 {
        let c = s[0];
        let rest = text_after(s.skip(1), k - 1);
        lemma_replace_step(s.skip(1), k);
        let w = piece_after(c, k - 1);
        assert(text_after(s, k - 1) == w + rest);
        if replacement_of(c) == k {
            assert(c == replaced_char(k));
            assert(w == from);
            assert(from.is_prefix_of(w + rest)) by {
                assert((w + rest).subrange(0, from.len() as int) =~= from);
            }
            assert((w + rest).skip(from.len() as int) =~= rest);
        } else {
            assert(piece_after(c, k) == w);
            assert forall|i: int| 0 < i < w.len() implies #[trigger] w[i] != from[0] by {}
            if replacement_of(c) <= k - 1 {
                assert((w + rest)[0] == c);
                lemma_not_prefix(from, w + rest, 0);
            } else {
                assert((w + rest)[1] == w[1]);
                lemma_not_prefix(from, w + rest, 1);
            }
            lemma_replace_passes_piece(w, rest, from, to);
        }
    }
}

/// Before any replacement, the text is the escaped text.
proof fn lemma_text_after_none(s: Seq<char>)
    ensures
        text_after(s, 0) == escape_html(s),
    decreases s.len(),
{
    if s.len() == 0 {
        assert(escape_html(s) =~= Seq::<char>::empty());
    } else {
        lemma_escape_front(s);
        lemma_text_after_none(s.skip(1));
    }
}

/// After all five replacements, the text is the original text.
proof fn lemma_text_after_all(s: Seq<char>)
    ensures
        text_after(s, 5) == s,
    decreases s.len(),
{
    if s.len() > 0 {
        lemma_text_after_all(s.skip(1));
        assert(seq![s[0]] + s.skip(1) =~= s);
    }
}

/// Replacing the entities of escaped text in turn (`&lt;`, `&gt;`, `&quot;`, `&#x27;`,
/// then `&amp;`) gives the text back: `&` is escaped first and read back last, so no
/// entity is read twice.
pub proof fn law_replacing_entities_restores_text(s: Seq<char>)
    ensures
        unescape_by_replacing(escape_html(s)) == s,
{
    lemma_text_after_none(s);
    lemma_replace_step(s, 1);
    lemma_replace_step(s, 2);
    lemma_replace_step(s, 3);
    lemma_replace_step(s, 4);
    lemma_replace_step(s, 5);
    lemma_text_after_all(s);
}

/// Text with none of `&`, `<`, `>`, `"` and `'` is left as it is.
pub proof fn law_plain_text_is_not_escaped(s: Seq<char>)
    requires
        forall|i: int|
            0 <= i < s.len() ==> {
                let c = #[trigger] s[i];
                c != '&' && c != '<' && c != '>' && c != '"' && c != '\''
            },
    ensures
        escape_html(s) == s,
    decreases s.len(),
{
    if s.len() > 0 {
        let t = s.drop_last();
        assert forall|i: int| 0 <= i < t.len() implies {
            let c = #[trigger] t[i];
            c != '&' && c != '<' && c != '>' && c != '"' && c != '\''
        } by {
            assert(t[i] == s[i]);
        }
        law_plain_text_is_not_escaped(t);
        let c = s[s.len() - 1];
        assert(escape_char(s.last()) == seq![c]);
        assert(t.push(c) =~= s);
    }
}

/// Text with neither `%` nor `+` decodes to itself.
pub proof fn law_plain_text_decodes_to_itself(s: Seq<char>)
    requires
        forall|i: int| 0 <= i < s.len() ==> #[trigger] s[i] != '%' && s[i] != '+',
    ensures
        url_decoded(s) == s,
    decreases s.len(),
{
    if s.len() > 0 {
        let t = s.skip(1);
        assert forall|i: int| 0 <= i < t.len() implies #[trigger] t[i] != '%' && t[i] != '+' by {
            assert(t[i] == s[i + 1]);
        }
        law_plain_text_decodes_to_itself(t);
        assert(seq![s[0]] + t =~= s);
    }
}

/// The upper-case hexadecimal digit of a value below 16.
pub open spec fn hex_digit_of(v: int) -> char {
    if v < 10 {
        (48 + v) as char
    } else {
        (55 + v) as char
    }
}

/// The digit of a value below 16 is a hexadecimal digit with that value.
pub proof fn lemma_hex_digit_of(v: int)
    requires
        0 <= v < 16,
    ensures
        is_hex_digit(hex_digit_of(v)),
        hex_value(hex_digit_of(v)) == v,
{
    let d = hex_digit_of(v);
    if v < 10 {
        assert(d as int == 48 + v);
    } else {
        assert(d as int == 55 + v);
    }
}

/// The hexadecimal digit of a value below 16, its letters in upper or lower case.
pub open spec fn hex_digit_in_case(v: int, upper: bool) -> char {
    if v < 10 || upper {
        hex_digit_of(v)
    } else {
        (87 + v) as char
    }
}

/// A `%` escape decodes to the character whose code its two digits give in base 16,
/// whichever case the letters `a`-`f` are written in.
pub proof fn law_percent_escape_decodes_to_its_code(
    hi: int,
    lo: int,
    hi_upper: bool,
    lo_upper: bool,
    rest: Seq<char>,
)
    requires
        0 <= hi < 16,
        0 <= lo < 16,
    ensures
        url_decoded(seq!['%', hex_digit_in_case(hi, hi_upper), hex_digit_in_case(lo, lo_upper)] + rest)
            == seq![(16 * hi + lo) as char] + url_decoded(rest),
{
    let h = hex_digit_in_case(hi, hi_upper);
    let l = hex_digit_in_case(lo, lo_upper);
    lemma_hex_digit_of(hi);
    lemma_hex_digit_of(lo);
    if !(hi < 10 || hi_upper) {
        assert(h as int == 87 + hi);
    }
    if !(lo < 10 || lo_upper) {
        assert(l as int == 87 + lo);
    }
    assert(is_hex_digit(h) && hex_value(h) == hi);
    assert(is_hex_digit(l) && hex_value(l) == lo);
    let t = seq!['%', h, l] + rest;
    assert(t[0] == '%' && t[1] == h && t[2] == l);
    assert(t.skip(3) =~= rest);
}

/// The hexadecimal digits are exactly the sixteen digits in either case: `0`-`9`,
/// `a`-`f` and `A`-`F`.
pub proof fn law_hex_digits_are_the_sixteen(c: char)
    ensures
        is_hex_digit(c) <==> exists|v: int, upper: bool|
            0 <= v < 16 && c == #[trigger] hex_digit_in_case(v, upper),
{
    if is_hex_digit(c) {
        let u = c as u32;
        vstd::utf8::char_u32_cast(c, u);
        let upper = 'A' <= c && c <= 'F';
        let v: int = if '0' <= c && c <= '9' {
            u as int - 48
        } else if upper {
            u as int - 55
        } else {
            u as int - 87
        };
        assert(0 <= v < 16);
        assert(hex_digit_in_case(v, upper) == ((u as int) as char));
        assert(((u as int) as char) == (u as char));
        assert(c == hex_digit_in_case(v, upper));
    }
    if exists|v: int, upper: bool| 0 <= v < 16 && c == #[trigger] hex_digit_in_case(v, upper) {
        let (v, upper) = choose|v: int, upper: bool|
            0 <= v < 16 && c == #[trigger] hex_digit_in_case(v, upper);
        lemma_hex_digit_of(v);
        if !(v < 10 || upper) {
            assert(c as int == 87 + v);
        }
    }
}

/// A `%` that is not followed by two hexadecimal digits is dropped together with the
/// one digit that follows it, if any; what comes after is decoded as usual.
pub proof fn law_incomplete_escape_is_dropped(d: char, c: char, rest: Seq<char>)
    ensures
        url_decoded(seq!['%']) == Seq::<char>::empty(),
        is_hex_digit(d) ==> url_decoded(seq!['%', d]) == Seq::<char>::empty(),
        !is_hex_digit(c) ==> url_decoded(seq!['%', c] + rest) == url_decoded(seq![c] + rest),
        is_hex_digit(d) && !is_hex_digit(c) ==> url_decoded(seq!['%', d, c] + rest) == url_decoded(
            seq![c] + rest,
        ),
{
    assert(url_decoded(Seq::<char>::empty()) == Seq::<char>::empty());
    assert(seq!['%'].skip(1) =~= Seq::<char>::empty());
    assert(seq!['%', d].skip(2) =~= Seq::<char>::empty());
    let t = seq!['%', c] + rest;
    assert(t.skip(1) =~= seq![c] + rest);
    let w = seq!['%', d, c] + rest;
    assert(w.skip(2) =~= seq![c] + rest);
    assert(w[2] == c);
}

/// A `+` decodes to a space.
pub proof fn law_plus_decodes_to_space(rest: Seq<char>)
    ensures
        url_decoded(seq!['+'] + rest) == seq![' '] + url_decoded(rest),
{
    assert((seq!['+'] + rest).skip(1) =~= rest);
}

/// Text without `%` decodes on its own: what follows it does not change how it reads.
pub proof fn law_decoding_splits_after_plain_text(a: Seq<char>, b: Seq<char>)
    requires
        !a.contains('%'),
    ensures
        url_decoded(a + b) == url_decoded(a) + url_decoded(b),
    decreases a.len(),
{
    if a.len() == 0 {
        assert(a + b =~= b);
        assert(url_decoded(a) =~= Seq::<char>::empty());
        assert(Seq::<char>::empty() + url_decoded(b) =~= url_decoded(b));
    } else {
        assert(a[0] != '%');
        let t = a.skip(1);
        assert(!t.contains('%')) by {
            if t.contains('%') {
                let i = choose|i: int| 0 <= i < t.len() && t[i] == '%';
                assert(a[i + 1] == '%');
            }
        }
        law_decoding_splits_after_plain_text(t, b);
        assert((a + b).skip(1) =~= t + b);
        assert((a + b)[0] == a[0]);
        if a[0] == '+' {
            assert(seq![' '] + (url_decoded(t) + url_decoded(b)) =~= (seq![' '] + url_decoded(t)) + url_decoded(b));
        } else {
            assert(seq![a[0]] + (url_decoded(t) + url_decoded(b)) =~= (seq![a[0]] + url_decoded(t)) + url_decoded(b));
        }
    }
}

/// Every character written as `%` and the two hexadecimal digits of its code.
pub open spec fn percent_encoded(s: Seq<char>) -> Seq<char>
    decreases s.len(),
{
    if s.len() == 0 {
        Seq::empty()
    } else {
        let c = s[0] as u32 as int;
        seq!['%', hex_digit_of(c / 16), hex_digit_of(c % 16)] + percent_encoded(s.skip(1))
    }
}

/// Decoding undoes percent-encoding of text whose characters each fit in one byte
/// (ASCII and Latin-1): each `%XX` gives back the character with that code.
pub proof fn law_decoding_undoes_percent_encoding(s: Seq<char>)
    requires
        forall|i: int| 0 <= i < s.len() ==> (#[trigger] s[i] as u32) < 256,
    ensures
        url_decoded(percent_encoded(s)) == s,
    decreases s.len(),
{
    if s.len() > 0 {
        let t = s.skip(1);
        assert forall|i: int| 0 <= i < t.len() implies (#[trigger] t[i] as u32) < 256 by {
            assert(t[i] == s[i + 1]);
        }
        law_decoding_undoes_percent_encoding(t);
        let c = s[0] as u32 as int;
        assert(c < 256);
        let e = percent_encoded(s);
        let hi = hex_digit_of(c / 16);
        let lo = hex_digit_of(c % 16);
        assert(e == seq!['%', hi, lo] + percent_encoded(t));
        assert(e[0] == '%' && e[1] == hi && e[2] == lo);
        assert(0 <= c / 16 < 16 && c / 16 * 16 + c % 16 == c) by (nonlinear_arith)
            requires
                0 <= c < 256,
        ;
        lemma_hex_digit_of(c / 16);
        lemma_hex_digit_of(c % 16);
        assert(hex_value(hi) * 16 + hex_value(lo) == c);
        assert(e.skip(3) =~= percent_encoded(t));
        vstd::utf8::char_u32_cast(s[0], s[0] as u32);
        assert((c as char) == ((s[0] as u32) as char));
        assert((c as char) == s[0]);
        assert(seq![s[0]] + t =~= s);
    }
}

/// Decoding never makes text longer.
pub proof fn law_decoding_never_lengthens(s: Seq<char>)
    ensures
        url_decoded(s).len() <= s.len(),
    decreases s.len(),
{
    if s.len() > 0 {
        if s[0] == '%' {
            if s.len() >= 3 && is_hex_digit(s[1]) && is_hex_digit(s[2]) {
                law_decoding_never_lengthens(s.skip(3));
            } else if s.len() >= 2 && is_hex_digit(s[1]) {
                law_decoding_never_lengthens(s.skip(2));
            } else {
                law_decoding_never_lengthens(s.skip(1));
            }
        } else {
            law_decoding_never_lengthens(s.skip(1));
        }
    }
}

/// The characters of the twelve spellings of the standard answers, enough to tell
/// them apart.
proof fn lemma_spellings_differ()
    ensures
        "Ok"@.len() == 2 && "Ok"@[0] == 'O' && "Ok"@[1] == 'k',
        "ok"@.len() == 2 && "ok"@[0] == 'o',
        "OK"@.len() == 2 && "OK"@[0] == 'O' && "OK"@[1] == 'K',
        "No"@.len() == 2 && "No"@[0] == 'N',
        "no"@.len() == 2 && "no"@[0] == 'n',
        "NO"@.len() == 2 && "NO"@[0] == 'N' && "NO"@[1] == 'O',
        "No"@[1] == 'o',
        "Cancel"@.len() == 6 && "Cancel"@[0] == 'C' && "Cancel"@[1] == 'a',
        "cancel"@.len() == 6 && "cancel"@[0] == 'c',
        "CANCEL"@.len() == 6 && "CANCEL"@[1] == 'A',
        "Yes"@.len() == 3 && "Yes"@[0] == 'Y' && "Yes"@[1] == 'e',
        "yes"@.len() == 3 && "yes"@[0] == 'y',
        "YES"@.len() == 3 && "YES"@[1] == 'E',
{
    reveal_strlit("Ok");
    reveal_strlit("ok");
    reveal_strlit("OK");
    reveal_strlit("Cancel");
    reveal_strlit("cancel");
    reveal_strlit("CANCEL");
    reveal_strlit("Yes");
    reveal_strlit("yes");
    reveal_strlit("YES");
    reveal_strlit("No");
    reveal_strlit("no");
    reveal_strlit("NO");
    assert("Ok"@.len() == 2 && "Ok"@[0] == 'O' && "Ok"@[1] == 'k');
    assert("ok"@.len() == 2 && "ok"@[0] == 'o');
    assert("OK"@.len() == 2 && "OK"@[0] == 'O' && "OK"@[1] == 'K');
    assert("No"@.len() == 2 && "No"@[0] == 'N');
    assert("no"@.len() == 2 && "no"@[0] == 'n');
    assert("NO"@.len() == 2 && "NO"@[0] == 'N' && "NO"@[1] == 'O');
    assert("No"@[1] == 'o');
    assert("Cancel"@.len() == 6 && "Cancel"@[0] == 'C' && "Cancel"@[1] == 'a');
    assert("cancel"@.len() == 6 && "cancel"@[0] == 'c');
    assert("CANCEL"@.len() == 6 && "CANCEL"@[1] == 'A');
    assert("Yes"@.len() == 3 && "Yes"@[0] == 'Y' && "Yes"@[1] == 'e');
    assert("yes"@.len() == 3 && "yes"@[0] == 'y');
    assert("YES"@.len() == 3 && "YES"@[1] == 'E');
}

/// A submitted value reads back as a standard answer exactly when it is that answer's
/// name written as in its label, all in lower case or all in upper case; any other
/// value reads back as a custom answer carrying the value itself.
pub proof fn law_answer_spellings(s: Seq<char>)
    ensures
        dialog_result_of(s) == ResultView::Okay <==> (s == "Ok"@ || s == "ok"@ || s == "OK"@),
        dialog_result_of(s) == ResultView::Cancel <==> (s == "Cancel"@ || s == "cancel"@ || s
            == "CANCEL"@),
        dialog_result_of(s) == ResultView::Yes <==> (s == "Yes"@ || s == "yes"@ || s == "YES"@),
        dialog_result_of(s) == ResultView::No <==> (s == "No"@ || s == "no"@ || s == "NO"@),
        dialog_result_of(s) is Custom ==> dialog_result_of(s) == ResultView::Custom(s),
{
    lemma_spellings_differ();
}

/// A submitted button value that is not one of the standard answers' spellings comes
/// back as that custom answer: a custom button's label round-trips through the page.
pub proof fn law_custom_label_comes_back(label: Seq<char>)
    requires
        label != "Ok"@ && label != "ok"@ && label != "OK"@,
        label != "Cancel"@ && label != "cancel"@ && label != "CANCEL"@,
        label != "Yes"@ && label != "yes"@ && label != "YES"@,
        label != "No"@ && label != "no"@ && label != "NO"@,
    ensures
        dialog_result_of(label) == ResultView::Custom(label),
{
}

/// Moving back over trailing line breaks stays between the two bounds, and what is
/// left before the new end does not end in `\r` or `\n`.
pub proof fn lemma_trimmed_end(part: Seq<u8>, start: int, end: int)
    requires
        0 <= start <= end <= part.len(),
    ensures
        start <= trimmed_end(part, start, end) <= end,
        trimmed_end(part, start, end) > start ==> part[trimmed_end(part, start, end) - 1] != 13
            && part[trimmed_end(part, start, end) - 1] != 10,
        forall|i: int|
            trimmed_end(part, start, end) <= i < end ==> #[trigger] part[i] == 13 || part[i] == 10,
    decreases end - start,
{
    if end > start && (part[end - 1] == 13 || part[end - 1] == 10) {
        lemma_trimmed_end(part, start, end - 1);
    }
}

/// The data of a part is a piece of it, and never ends in a line break.
pub proof fn lemma_part_data_trimmed(part: Seq<u8>)
    ensures
        multipart_part(part) matches Some((f, data)) ==> no_trailing_break(data) && is_piece_of(
            data,
            part,
        ),
{
    match part_split(part) {
        None => {},
        Some((h, s)) => {
            lemma_find(part, crlf_crlf());
            lemma_find(part, lf_lf());
            if 0 <= s <= part.len() {
                lemma_trimmed_end(part, s, part.len() as int);
                let te = trimmed_end(part, s, part.len() as int);
                let data = part.subrange(s, te);
                if data.len() > 0 {
                    assert(data.last() == part[te - 1]);
                }
                assert(0 <= s <= te <= part.len() && data == part.subrange(s, te));
            }
        },
    }
}

/// The data of a part is exactly its body (what follows the blank line after the
/// headers) with the trailing `\r` and `\n` bytes taken off and nothing else: the body
/// is the data followed by line-break bytes only, and the data does not itself end in
/// one. So a body whose last byte is not a line break is kept whole. The body begins
/// after the first `\r\n\r\n`, or where there is none, after the first `\n\n`.
pub proof fn law_part_data_is_body_without_trailing_breaks(part: Seq<u8>)
    ensures
        multipart_part(part) matches Some((f, data)) ==> part_split(part) matches Some((h, s)) && {
            &&& 0 <= s && s + data.len() <= part.len()
            &&& data == part.subrange(s, s + data.len())
            &&& forall|i: int| s + data.len() <= i < part.len() ==> #[trigger] part[i] == 13 || part[i] == 10
            &&& no_trailing_break(data)
        },
        part_split(part) matches Some((h, s)) ==> {
            ||| is_first_occurrence(part, seq![13u8, 10u8, 13u8, 10u8], h) && s == h + 4
            ||| (forall|j: int| !occurs_at(part, seq![13u8, 10u8, 13u8, 10u8], j))
                && is_first_occurrence(part, seq![10u8, 10u8], h) && s == h + 2
        },
{
    assert(crlf_crlf() =~= seq![13u8, 10u8, 13u8, 10u8]);
    assert(lf_lf() =~= seq![10u8, 10u8]);
    lemma_part_data_trimmed(part);
    match part_split(part) {
        None => {},
        Some((h, s)) => {
            lemma_find(part, crlf_crlf());
            lemma_find(part, lf_lf());
            if 0 <= s <= part.len() {
                lemma_trimmed_end(part, s, part.len() as int);
            }
        },
    }
}

/// `data` is a contiguous piece of `whole`.
pub open spec fn is_piece_of(data: Seq<u8>, whole: Seq<u8>) -> bool {
    exists|a: int, b: int| 0 <= a <= b <= whole.len() && data == whole.subrange(a, b)
}

/// Data that is empty or whose last byte is neither `\r` nor `\n`.
pub open spec fn no_trailing_break(data: Seq<u8>) -> bool {
    data.len() > 0 ==> data.last() != 13 && data.last() != 10
}

/// Reading stops at the closing delimiter (`--` after the delimiter): where the first
/// delimiter from `pos` on is the closing one, no file is read, whatever follows it.
pub proof fn law_nothing_is_read_after_the_close(body: Seq<u8>, d: Seq<u8>, pos: int, at: int)
    requires
        0 <= pos <= at,
        is_first_occurrence(body.skip(pos), d, at - pos),
        occurs_at(body, d + seq![45u8, 45u8], at),
    ensures
        multipart_scan(body, d, pos) == Some(Seq::<(Seq<char>, Seq<u8>)>::empty()),
{
    lemma_find_is(body.skip(pos), d, at - pos);
    let past = at + d.len();
    assert(body.subrange(at, past + 2) == d + seq![45u8, 45u8]);
    assert(pos < body.len());
}

/// Every file read from an upload has a non-empty name, and its data is a piece of the
/// body that does not end in a line break (the break before the next delimiter is not
/// part of the file).
pub proof fn law_uploaded_files_are_named(body: Seq<u8>, d: Seq<u8>, pos: int)
    ensures
        multipart_scan(body, d, pos) matches Some(fs) ==> forall|k: int|
            0 <= k < fs.len() ==> (#[trigger] fs[k]).0.len() > 0 && no_trailing_break(fs[k].1)
                && is_piece_of(fs[k].1, body),
    decreases body.len() - pos,
{
    if 0 <= pos < body.len() {
        lemma_find(body.skip(pos), d);
        match find(body.skip(pos), d) {
            Some(i) => {
                let at = pos + i;
                let past = at + d.len();
                let start = part_start(body, past);
                lemma_find(body.skip(start), d);
                let end = match find(body.skip(start), d) {
                    Some(j) => start + j,
                    None => body.len() as int,
                };
                if start < end && end <= body.len() {
                    law_uploaded_files_are_named(body, d, end);
                    if multipart_scan(body, d, pos) is Some && multipart_scan(body, d, end) is Some {
                        let here = match multipart_part(body.subrange(start, end)) {
                            Some((f, data)) => if f.len() > 0 {
                                seq![(f, data)]
                            } else {
                                Seq::empty()
                            },
                            None => Seq::empty(),
                        };
                        let rest = multipart_scan(body, d, end)->0;
                        let part = body.subrange(start, end);
                        lemma_part_data_trimmed(part);
                        if let Some((f, data)) = multipart_part(part) {
                            let (a, b) = choose|a: int, b: int|
                                0 <= a <= b <= part.len() && data == part.subrange(a, b);
                            assert(data == body.subrange(start + a, start + b));
                        }
                        assert forall|k: int| 0 <= k < (here + rest).len() implies (#[trigger] (here
                            + rest)[k]).0.len() > 0 && no_trailing_break((here + rest)[k].1)
                            && is_piece_of((here + rest)[k].1, body) by {
                            if k >= here.len() {
                                assert((here + rest)[k] == rest[k - here.len()]);
                            }
                        }
                    }
                }
            },
            None => {},
        }
    }
}

/// A file name the save page accepts is never empty and never leaves the chosen
/// folder: it holds no `/`, no `\` and no `..`.
pub proof fn law_accepted_save_name_is_plain(body: Seq<char>)
    ensures
        save_choice(body) matches Some(n) ==> n.len() > 0 && !n.contains('/') && !n.contains('\\')
            && find(n, ".."@) is None,
{
}

/// Text without the separator is a single piece.
proof fn lemma_split_without_separator(s: Seq<char>, c: char)
    requires
        forall|i: int| 0 <= i < s.len() ==> s[i] != c,
    ensures
        split_on(s, c) == seq![s],
    decreases s.len(),
{
    if s.len() > 0 {
        lemma_split_without_separator(s.drop_last(), c);
        assert(s[s.len() - 1] != c);
        let init = split_on(s.drop_last(), c);
        assert(init.last() == s.drop_last());
        assert(s.drop_last().push(s.last()) =~= s);
        assert(init.update(init.len() - 1, init.last().push(s.last())) =~= seq![s]);
    } else {
        assert(s =~= Seq::<char>::empty());
    }
}

/// A file name the save page can hand back unchanged: not empty, without surrounding
/// white space, and holding none of `%`, `+`, `&`, `/`, `\` and no `..`.
pub open spec fn plain_save_name(n: Seq<char>) -> bool {
    &&& n.len() > 0
    &&& !is_white_space(n[0]) && !is_white_space(n.last())
    &&& forall|i: int|
        0 <= i < n.len() ==> {
            let c = #[trigger] n[i];
            c != '%' && c != '+' && c != '&' && c != '/' && c != '\\'
        }
    &&& forall|i: int| 0 <= i < n.len() - 1 ==> !(#[trigger] n[i] == '.' && n[i + 1] == '.')
}

/// Text a form field carries unchanged: none of `%`, `+` and `&`.
pub open spec fn plain_field(v: Seq<char>) -> bool {
    forall|i: int| 0 <= i < v.len() ==> {
        let c = #[trigger] v[i];
        c != '%' && c != '+' && c != '&'
    }
}

/// A body made of one field `key=value`, with plain key and value and no `=` in the key,
/// is read as that one pair.
proof fn lemma_single_field(key: Seq<char>, value: Seq<char>)
    requires
        plain_field(key),
        plain_field(value),
        forall|i: int| 0 <= i < key.len() ==> #[trigger] key[i] != '=',
    ensures
        value_of(form_pairs(key + seq!['='] + value), key) == Some(value),
{
    let body = key + seq!['='] + value;
    let k = key.len() as int;
    assert forall|i: int| 0 <= i < body.len() implies body[i] != '&' by {
        if i < k {
            assert(body[i] == key[i]);
        } else if i > k {
            assert(body[i] == value[i - k - 1]);
        }
    }
    lemma_split_without_separator(body, '&');
    assert(occurs_at(body, seq!['='], k)) by {
        assert(body.subrange(k, k + 1) =~= seq!['=']);
    }
    assert forall|j: int| 0 <= j < k implies !occurs_at(body, seq!['='], j) by {
        assert(body.subrange(j, j + 1)[0] == body[j]);
        assert(body[j] == key[j]);
    }
    lemma_find_is(body, seq!['='], k);
    assert(body.take(k) =~= key);
    assert(body.skip(k + 1) =~= value);
    assert forall|i: int| 0 <= i < key.len() implies #[trigger] key[i] != '%' && key[i] != '+' by {
        let c = key[i];
    }
    assert forall|i: int| 0 <= i < value.len() implies #[trigger] value[i] != '%' && value[i] != '+' by {
        let c = value[i];
    }
    law_plain_text_decodes_to_itself(key);
    law_plain_text_decodes_to_itself(value);
    assert(form_pairs(body) =~= seq![(key, value)]);
    let opts = form_pairs(body).map_values(
        |p: (Seq<char>, Seq<char>)|
            if p.0 == key {
                Some(p.1)
            } else {
                None
            },
    );
    assert(opts[0] == Some(value));
}

/// Of several pairs with the key, the first one gives the value; without such a pair
/// there is none.
pub proof fn law_first_pair_with_key_wins(pairs: Seq<(Seq<char>, Seq<char>)>, key: Seq<char>)
    ensures
        forall|k: int|
            0 <= k < pairs.len() && (#[trigger] pairs[k]).0 == key && (forall|j: int|
                0 <= j < k ==> pairs[j].0 != key) ==> value_of(pairs, key) == Some(pairs[k].1),
        (forall|j: int| 0 <= j < pairs.len() ==> pairs[j].0 != key) ==> value_of(pairs, key) is None,
    decreases pairs.len(),
{
    if pairs.len() > 0 {
        let rest = pairs.drop_first();
        law_first_pair_with_key_wins(rest, key);
        assert forall|k: int|
            0 <= k < pairs.len() && (#[trigger] pairs[k]).0 == key && (forall|j: int|
                0 <= j < k ==> pairs[j].0 != key) implies value_of(pairs, key) == Some(pairs[k].1) by {
            if k > 0 {
                assert(pairs[0].0 != key);
                assert(rest[k - 1] == pairs[k]);
                assert forall|j: int| 0 <= j < k - 1 implies rest[j].0 != key by {
                    assert(rest[j] == pairs[j + 1]);
                }
            }
        }
        if forall|j: int| 0 <= j < pairs.len() ==> pairs[j].0 != key {
            assert(pairs[0].0 != key);
            assert forall|j: int| 0 <= j < rest.len() implies rest[j].0 != key by {
                assert(rest[j] == pairs[j + 1]);
            }
        }
    }
}

/// The message page round trip: a form whose only field submits a plain button value
/// gives the answer that value stands for.
pub proof fn law_submitted_value_is_read(v: Seq<char>)
    requires
        plain_field(v),
    ensures
        message_choice("result="@ + v) == Some(dialog_result_of(v)),
{
    reveal_strlit("result=");
    reveal_strlit("result");
    assert("result="@ =~= "result"@ + seq!['=']);
    assert forall|i: int| 0 <= i < "result"@.len() implies {
        let c = #[trigger] "result"@[i];
        c != '%' && c != '+' && c != '&'
    } by {}
    lemma_single_field("result"@, v);
    assert("result="@ + v =~= "result"@ + seq!['='] + v);
}

/// The save page round trip: a plain file name submitted as the form's only field comes
/// back as the name to save under.
pub proof fn law_plain_save_name_comes_back(n: Seq<char>)
    requires
        plain_save_name(n),
    ensures
        save_choice("filename="@ + n) == Some(n),
{
    reveal_strlit("filename=");
    reveal_strlit("filename");
    assert("filename="@ =~= "filename"@ + seq!['=']);
    assert(plain_field(n)) by {
        assert forall|i: int| 0 <= i < n.len() implies {
            let c = #[trigger] n[i];
            c != '%' && c != '+' && c != '&'
        } by {
            let c = n[i];
        }
    }
    lemma_single_field("filename"@, n);
    assert("filename="@ + n =~= "filename"@ + seq!['='] + n);
    assert(trim_start(n) == n);
    assert(trim_end(n) == n);
    assert(!n.contains('/')) by {
        if n.contains('/') {
            let i = choose|i: int| 0 <= i < n.len() && n[i] == '/';
            let c = n[i];
        }
    }
    assert(!n.contains('\\')) by {
        if n.contains('\\') {
            let i = choose|i: int| 0 <= i < n.len() && n[i] == '\\';
            let c = n[i];
        }
    }
    lemma_find(n, ".."@);
    reveal_strlit("..");
    if find(n, ".."@) is Some {
        let i = find(n, ".."@)->0;
        assert(n.subrange(i, i + 2) == ".."@);
        assert(n.subrange(i, i + 2)[0] == n[i] && n.subrange(i, i + 2)[1] == n[i + 1]);
    }
}

/// The answer a standard button's label names.
pub open spec fn label_answer(label: Seq<char>) -> ResultView {
    if label == "OK"@ {
        ResultView::Okay
    } else if label == "Cancel"@ {
        ResultView::Cancel
    } else if label == "Yes"@ {
        ResultView::Yes
    } else if label == "No"@ {
        ResultView::No
    } else {
        ResultView::Custom(label)
    }
}

/// The labels a custom button set was given.
pub open spec fn custom_labels(b: ButtonsView) -> Seq<Seq<char>> {
    match b {
        ButtonsView::OkCustom(t) => seq![t],
        ButtonsView::OkCancelCustom(o, c) => seq![o, c],
        ButtonsView::YesNoCancelCustom(y, n, c) => seq![y, n, c],
        _ => Seq::empty(),
    }
}

/// Each custom button of the message page submits the very text it shows: its value
/// and its label are one given label, escaped, and unescaping the value gives that
/// label back. Every given label has its button, and the first given label (the OK or
/// Yes label) is on the last, primary button.
pub proof fn law_custom_buttons_submit_their_labels(b: ButtonsView)
    requires
        !is_standard(b),
    ensures
        button_items(b).len() == custom_labels(b).len(),
        forall|k: int| 0 <= k < button_items(b).len() ==> exists|j: int|
            0 <= j < custom_labels(b).len() && (#[trigger] button_items(b)[k]).0 == escape_html(
                custom_labels(b)[j],
            ) && button_items(b)[k].1 == escape_html(custom_labels(b)[j]) && unescape_html(
                button_items(b)[k].0,
            ) == custom_labels(b)[j],
        forall|j: int| 0 <= j < custom_labels(b).len() ==> exists|k: int|
            0 <= k < button_items(b).len() && (#[trigger] button_items(b)[k]).1 == escape_html(
                #[trigger] custom_labels(b)[j],
            ),
        button_items(b).last().1 == escape_html(custom_labels(b)[0]),
{
    let items = button_items(b);
    let labels = custom_labels(b);
    let n = labels.len();
    assert forall|k: int| 0 <= k < items.len() implies exists|j: int|
        0 <= j < labels.len() && (#[trigger] items[k]).0 == escape_html(labels[j]) && items[k].1
            == escape_html(labels[j]) && unescape_html(items[k].0) == labels[j] by {
        let j = n - 1 - k;
        law_unescape_undoes_escape(labels[j]);
        assert(items[k].0 == escape_html(labels[j]) && items[k].1 == escape_html(labels[j]));
    }
    assert forall|j: int| 0 <= j < labels.len() implies exists|k: int|
        0 <= k < items.len() && (#[trigger] items[k]).1 == escape_html(#[trigger] labels[j]) by {
        let k = n - 1 - j;
        assert(items[k].1 == escape_html(labels[j]));
    }
}

/// Every message page has at least one button, and exactly its last button is the
/// primary one: all buttons before it carry the secondary class.
pub proof fn law_only_the_last_button_is_primary(b: ButtonsView)
    ensures
        button_items(b).len() >= 1,
        forall|k: int|
            0 <= k < button_items(b).len() ==> (#[trigger] button_items(b)[k]).2 == (k
                < button_items(b).len() - 1),
{
}

/// The values the standard buttons submit, in document order.
pub open spec fn standard_values(b: ButtonsView) -> Seq<Seq<char>> {
    match b {
        ButtonsView::Okay => seq!["Ok"@],
        ButtonsView::OkCancel => seq!["Cancel"@, "Ok"@],
        ButtonsView::YesNo => seq!["No"@, "Yes"@],
        _ => seq!["Cancel"@, "No"@, "Yes"@],
    }
}

/// Each standard button of the message page submits a value that reads back as the
/// answer its label names, never as a custom answer; the values, in document order, are
/// `Ok`; `Cancel`, `Ok`; `No`, `Yes`; and `Cancel`, `No`, `Yes`.
pub proof fn law_standard_buttons_read_back(b: ButtonsView, k: int)
    requires
        is_standard(b),
        0 <= k < button_items(b).len(),
    ensures
        button_items(b).len() == standard_values(b).len(),
        button_items(b)[k].0 == standard_values(b)[k],
        dialog_result_of(button_items(b)[k].0) == label_answer(button_items(b)[k].1),
        !(dialog_result_of(button_items(b)[k].0) is Custom),
{
    lemma_spellings_differ();
}

} // verus!
