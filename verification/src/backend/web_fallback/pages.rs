//! The fixed text of the pages the web fallback serves.
use vstd::prelude::*;

verus! {

/// The page up to its title.
pub const PAGE_HEAD: &'static str = "<!DOCTYPE html>\n<html>\n<head>\n    <meta charset=\"utf-8\">\n    <meta name=\"viewport\" content=\"width=device-width, initial-scale=1\">\n    <title>";

/// The page from its title to its body, styles included.
pub const PAGE_MIDDLE: &'static str = "</title>\n    <style>\n        * { box-sizing: border-box; }\n        body {\n            font-family: -apple-system, BlinkMacSystemFont, \"Segoe UI\", Roboto, Helvetica, Arial, sans-serif;\n            margin: 0;\n            padding: 20px;\n            background: #f5f5f5;\n            min-height: 100vh;\n            display: flex;\n            justify-content: center;\n            align-items: center;\n        }\n        .dialog {\n            background: white;\n            border-radius: 8px;\n            box-shadow: 0 2px 10px rgba(0,0,0,0.1);\n            padding: 24px;\n            max-width: 500px;\n            width: 100%;\n        }\n        h1 {\n            margin: 0 0 16px 0;\n            font-size: 1.5em;\n            color: #333;\n        }\n        p {\n            margin: 0 0 20px 0;\n            color: #666;\n            line-height: 1.5;\n        }\n        .buttons {\n            display: flex;\n            gap: 10px;\n            flex-wrap: wrap;\n            justify-content: flex-end;\n        }\n        button, .button {\n            padding: 10px 20px;\n            border: none;\n            border-radius: 4px;\n            font-size: 14px;\n            cursor: pointer;\n            text-decoration: none;\n            display: inline-block;\n            text-align: center;\n        }\n        button[type=\"submit\"], .button.primary {\n            background: #007bff;\n            color: white;\n        }\n        button[type=\"submit\"]:hover, .button.primary:hover {\n            background: #0056b3;\n        }\n        .button.secondary {\n            background: #6c757d;\n            color: white;\n        }\n        .button.secondary:hover {\n            background: #545b62;\n        }\n        input[type=\"file\"] {\n            margin-bottom: 20px;\n            width: 100%;\n        }\n        input[type=\"text\"] {\n            width: 100%;\n            padding: 10px;\n            margin-bottom: 20px;\n            border: 1px solid #ddd;\n            border-radius: 4px;\n            font-size: 14px;\n        }\n        label {\n            display: block;\n            margin-bottom: 8px;\n            color: #333;\n            font-weight: 500;\n        }\n        .success {\n            text-align: center;\n            color: #28a745;\n        }\n    </style>\n</head>\n<body>\n    ";

/// A submit button up to its value.
pub const BUTTON_OPEN: &'static str = "<button type=\"submit\" name=\"result\" value=\"";

/// Between a secondary button's value and its label.
pub const BUTTON_SECONDARY: &'static str = "\" class=\"button secondary\">";

/// Between a primary button's value and its label.
pub const BUTTON_PRIMARY: &'static str = "\">";

/// The end of a button.
pub const BUTTON_CLOSE: &'static str = "</button>";

/// Between two standard buttons.
pub const STANDARD_GAP: &'static str = "\n               ";

/// Between two custom buttons.
pub const CUSTOM_GAP: &'static str = "\n                   ";

/// The page after its body.
pub const PAGE_TAIL: &'static str = "\n</body>\n</html>";

/// Piece 0 of the message dialog body.
pub const MESSAGE_BODY_0: &'static str = "<div class=\"dialog\">\n            <h1>";

/// Piece 1 of the message dialog body.
pub const MESSAGE_BODY_1: &'static str = "</h1>\n            <p>";

/// Piece 2 of the message dialog body.
pub const MESSAGE_BODY_2: &'static str = "</p>\n            <form method=\"post\" action=\"/submit\">\n                <div class=\"buttons\">\n                    ";

/// Piece 3 of the message dialog body.
pub const MESSAGE_BODY_3: &'static str = "\n                </div>\n            </form>\n        </div>";

/// The body shown once a message dialog is answered.
pub const DONE_BODY: &'static str = "<div class=\"dialog success\">\n        <h1>\u{2713}</h1>\n        <p>Done. You can close this tab.</p>\n    </div>";

/// Piece 0 of the file picker body.
pub const FILE_PICKER_BODY_0: &'static str = "<div class=\"dialog\">\n            <h1>";

/// Piece 1 of the file picker body.
pub const FILE_PICKER_BODY_1: &'static str = "</h1>\n            <form method=\"post\" action=\"/submit\" enctype=\"multipart/form-data\">\n                <input type=\"file\" name=\"files\" ";

/// Piece 2 of the file picker body.
pub const FILE_PICKER_BODY_2: &'static str = " ";

/// Piece 3 of the file picker body.
pub const FILE_PICKER_BODY_3: &'static str = " required>\n                <div class=\"buttons\">\n                    <a href=\"/cancel\" class=\"button secondary\">Cancel</a>\n                    <button type=\"submit\">Select</button>\n                </div>\n            </form>\n        </div>";

/// The body shown once a dialog is cancelled.
pub const CANCELLED_BODY: &'static str = "<div class=\"dialog success\">\n        <h1>Cancelled</h1>\n        <p>You can close this tab.</p>\n    </div>";

/// The body shown once files are chosen.
pub const FILES_SELECTED_BODY: &'static str = "<div class=\"dialog success\">\n        <h1>\u{2713}</h1>\n        <p>File(s) selected. You can close this tab.</p>\n    </div>";

/// Piece 0 of the folder picker body.
pub const FOLDER_PICKER_BODY_0: &'static str = "<div class=\"dialog\">\n            <h1>";

/// Piece 1 of the folder picker body.
pub const FOLDER_PICKER_BODY_1: &'static str = "</h1>\n            <p>Select a folder by choosing any file within it.</p>\n            <form method=\"post\" action=\"/submit\" enctype=\"multipart/form-data\">\n                <input type=\"file\" name=\"files\" webkitdirectory ";

/// Piece 2 of the folder picker body.
pub const FOLDER_PICKER_BODY_2: &'static str = " required>\n                <div class=\"buttons\">\n                    <a href=\"/cancel\" class=\"button secondary\">Cancel</a>\n                    <button type=\"submit\">Select</button>\n                </div>\n            </form>\n        </div>";

/// The body shown once a folder is chosen.
pub const FOLDER_SELECTED_BODY: &'static str = "<div class=\"dialog success\">\n        <h1>\u{2713}</h1>\n        <p>Folder selected. You can close this tab.</p>\n    </div>";

/// Piece 0 of the save dialog body.
pub const FILE_SAVE_BODY_0: &'static str = "<div class=\"dialog\">\n            <h1>";

/// Piece 1 of the save dialog body.
pub const FILE_SAVE_BODY_1: &'static str = "</h1>\n            <form method=\"post\" action=\"/submit\">\n                <label for=\"filename\">File name:</label>\n                <input type=\"text\" name=\"filename\" id=\"filename\" value=\"";

/// Piece 2 of the save dialog body.
pub const FILE_SAVE_BODY_2: &'static str = "\" required>\n                <div class=\"buttons\">\n                    <a href=\"/cancel\" class=\"button secondary\">Cancel</a>\n                    <button type=\"submit\">Save</button>\n                </div>\n            </form>\n        </div>";

/// The body shown once a save location is chosen.
pub const SAVE_SELECTED_BODY: &'static str = "<div class=\"dialog success\">\n        <h1>\u{2713}</h1>\n        <p>Save location selected. You can close this tab.</p>\n    </div>";

} // verus!
