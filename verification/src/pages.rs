//! The fixed pieces of text of the pages that the server writes itself.
//! A page is these pieces with the variable parts set between them.

use vstd::prelude::*;

verus! {

/// The style sheet of a status page.
pub const STATUS_CSS: &'static str = "\n            body {\n                width: 35em;\n                margin: 0 auto;\n                font-family: Tahoma, Verdana, Arial, sans-serif;\n            }\n            ";

/// What stands before the code in the body of a status page.
pub const STATUS_BODY_1: &'static str = "\n            <h1>";

/// What stands between the code and the description.
pub const STATUS_BODY_2: &'static str = "</h1>\n            <p>";

/// What stands after the description.
pub const STATUS_BODY_3: &'static str = "</p>\n            ";

/// What follows the path in the title and the heading of a listing.
pub const LISTING_TITLE: &'static str = "的文件列表";

/// What opens the heading of a listing.
pub const LISTING_HEADING_OPEN: &'static str = "<h1>";

/// What closes the heading of a listing.
pub const LISTING_HEADING_CLOSE: &'static str = "</h1><hr>";

/// What opens the table of a listing.
pub const LISTING_TABLE_OPEN: &'static str = "<table>";

/// What closes the table of a listing.
pub const LISTING_TABLE_CLOSE: &'static str = "</table>";

/// The first two rows of a listing: the column titles and the link to the parent directory.
pub const LISTING_HEAD: &'static str = "\n            <tr>\n                <td>文件名</td>\n                <td>大小</td>\n                <td>修改时间</td>\n            </tr>\n            <tr>\n                <td><a href=\"../\">..</a></td>\n                <td></td>\n                <td></td>\n            </tr>\n            ";

/// What stands before the link target in the row of a file.
pub const FILE_ROW_1: &'static str = "\n                    <tr>\n                        <td><a href=\"";

/// What stands between the link target and the label.
pub const FILE_ROW_2: &'static str = "\">";

/// What stands between the label and the size.
pub const FILE_ROW_3: &'static str = "</a></td>\n                        <td>";

/// What stands between the size and the time.
pub const FILE_ROW_4: &'static str = "</td>\n                        <td>";

/// What stands after the time.
pub const FILE_ROW_5: &'static str = "</td>\n                    </tr>\n                    ";

/// What stands before the link target in the row of a directory.
pub const DIR_ROW_1: &'static str = "\n                    <tr>\n                    <td><a href=\"";

/// What stands between the link target and the label.
pub const DIR_ROW_2: &'static str = "\">";

/// What stands between the label and the time; it holds the mark that stands in place of a size.
pub const DIR_ROW_3: &'static str = "</a></td>\n                        <td>文件夹</td>\n                        <td>";

/// What stands after the time.
pub const DIR_ROW_4: &'static str = "</td>\n                    </tr>\n                    ";

/// The style sheet of a listing.
pub const LISTING_CSS: &'static str = "\n            table {\n                border-collapse: collapse;\n                width: 100%;\n            }\n\n            td {\n                padding: 8px;\n                white-space: pre-wrap; /* 保留换行符和空格 */\n                border: none; /* 隐藏单元格边框 */\n            }\n\n            th {\n                padding: 8px;\n                border: none; /* 隐藏表头边框 */\n            }";

/// What stands before the script of a page. It opens the document with a
/// remark that names the server as the writer of the page.
pub const PAGE_1: &'static str = "<!DOCTYPE html>\n            <!-- 本文件由Eslzzyl的Rust Webserver自动生成 -->\n            <html>\n                <head>\n                    <meta charset=\"utf-8\">\n                    <script>";

/// What stands between the script and the title.
pub const PAGE_2: &'static str = "</script>\n                    <title>";

/// What stands between the title and the style sheet.
pub const PAGE_3: &'static str = "</title>\n                    <style>";

/// What stands between the style sheet and the body.
pub const PAGE_4: &'static str = "</style>\n                </head>\n                <body>\n                ";

/// What stands after the body.
pub const PAGE_5: &'static str = "\n                </body>\n            </html>";

/// What the page of status 404 tells the reader.
pub const NOTE_404: &'static str = "<h2>噢！</h2><p>你指定的网页无法找到。</p>";

/// What the page of status 405 tells the reader.
pub const NOTE_405: &'static str = "<h2>噢！</h2><p>你的浏览器发出了一个非GET方法的HTTP请求。本服务器目前仅支持GET方法。</p>";

/// What the page of status 500 tells the reader.
pub const NOTE_500: &'static str = "<h2>噢！</h2><p>服务器出现了一个内部错误。</p>";

/// The MIME type of the pages that the server writes itself.
pub const HTML_MIME: &'static str = "text/html;charset=utf-8";

/// How the time of an entry is written in a listing: year, month and day,
/// then hour, minute and second, then the zone.
pub const STAMP_FORMAT: &'static str = "%Y-%m-%d %H:%M:%S %Z";

} // verus!
