//! Small functions on text: trimming, file name extensions, media types.
use vstd::prelude::*;

verus! {

/// The characters with the Unicode property `White_Space`.
pub open spec fn is_white(c: char) -> bool {
    ||| '\u{9}' <= c <= '\u{d}'
    ||| c == '\u{20}'
    ||| c == '\u{85}'
    ||| c == '\u{a0}'
    ||| c == '\u{1680}'
    ||| '\u{2000}' <= c <= '\u{200a}'
    ||| c == '\u{2028}'
    ||| c == '\u{2029}'
    ||| c == '\u{202f}'
    ||| c == '\u{205f}'
    ||| c == '\u{3000}'
}

/// `s` without the white space at its two ends.
pub open spec fn trimmed(s: Seq<char>) -> Seq<char>
    decreases s.len(),
{
    if s.len() == 0 {
        s
    } else if is_white(s.first()) {
        trimmed(s.drop_first())
    } else if is_white(s.last()) {
        trimmed(s.drop_last())
    } else {
        s
    }
}

/// How the system writes paths.
#[derive(Debug, Clone, Copy, PartialEq, Eq, Structural)]
pub enum PathStyle {
    Unix,
    Windows,
}

/// Whether `c` separates the parts of paths.
pub open spec fn is_separator(c: char, style: PathStyle) -> bool {
    c == '/' || (style is Windows && c == '\\')
}

/// The two characters at which a part of a path ends. Where there is only one,
/// they are the same. In a verbatim path of Windows a slash ends nothing.
pub open spec fn separators(style: PathStyle, verbatim: bool) -> (char, char) {
    match style {
        PathStyle::Unix => ('/', '/'),
        PathStyle::Windows => if verbatim {
            ('\\', '\\')
        } else {
            ('/', '\\')
        },
    }
}

/// Whether the letter of a drive and its colon stand at `at`.
pub open spec fn drive_at(path: Seq<char>, at: int) -> bool {
    at + 2 <= path.len() && ('A' <= path[at] <= 'Z' || 'a' <= path[at] <= 'z') && path[at + 1]
        == ':'
}

/// Where the part that begins at `from` ends, on Windows.
pub open spec fn part_end(path: Seq<char>, from: int, verbatim: bool) -> int
    decreases path.len() - from,
{
    if from >= path.len() {
        path.len() as int
    } else if path[from] == '\\' || (path[from] == '/' && !verbatim) {
        from
    } else {
        part_end(path, from + 1, verbatim)
    }
}

/// Where the name of a share ends that stands behind the name of a server,
/// which begins at `from`. Where there is no share, it is the end of the server.
pub open spec fn share_end(path: Seq<char>, from: int, verbatim: bool) -> int {
    let server = part_end(path, from, verbatim);
    let share = part_end(path, server + 1, verbatim);
    if server + 1 < share {
        share
    } else {
        server
    }
}

/// Whether a path begins with the name of a server and of a share of it.
pub open spec fn has_share(path: Seq<char>) -> bool {
    2 < part_end(path, 2, false) < share_end(path, 2, false)
}

/// Whether a path begins with `\\?\`.
pub open spec fn is_verbatim(path: Seq<char>, style: PathStyle) -> bool {
    style is Windows && path.len() >= 4 && path[0] == '\\' && path[1] == '\\' && path[2] == '?'
        && path[3] == '\\'
}

/// How much of a path says on which drive, device or share of a server it is,
/// and is no part of a name.
pub open spec fn prefix_len(path: Seq<char>, style: PathStyle) -> int {
    if style is Unix {
        0
    } else if is_verbatim(path, style) {
        if path.len() >= 8 && path[4] == 'U' && path[5] == 'N' && path[6] == 'C' && is_separator(
            path[7],
            style,
        ) {
            share_end(path, 8, true)
        } else if drive_at(path, 4) && (path.len() == 6 || is_separator(path[6], style)) {
            6
        } else {
            part_end(path, 4, true)
        }
    } else if path.len() >= 2 && is_separator(path[0], style) && is_separator(path[1], style) {
        if path.len() >= 4 && path[2] == '.' && is_separator(path[3], style) {
            part_end(path, 4, false)
        } else if has_share(path) {
            share_end(path, 2, false)
        } else {
            0
        }
    } else if drive_at(path, 0) {
        2
    } else {
        0
    }
}

/// Where the parts of a path begin that can be names: behind the prefix and, on
/// Windows, behind the separator that follows it.
pub open spec fn body_start(path: Seq<char>, style: PathStyle) -> int {
    let len = prefix_len(path, style);
    if style is Windows && 0 <= len < path.len() && is_separator(path[len], style) {
        len + 1
    } else {
        len
    }
}

/// The position of the last `c` or `d` in `s`, or -1.
pub open spec fn last_at(s: Seq<char>, c: char, d: char) -> int
    decreases s.len(),
{
    if s.len() == 0 {
        -1
    } else if s.last() == c || s.last() == d {
        s.len() - 1
    } else {
        last_at(s.drop_last(), c, d)
    }
}

/// The last part of a path that names something. An empty part names nothing,
/// nor does a `.` behind a separator, but in a verbatim path.
pub open spec fn last_part(path: Seq<char>, style: PathStyle, verbatim: bool) -> Seq<char>
    decreases path.len(),
{
    let end = last_at(path, separators(style, verbatim).0, separators(style, verbatim).1);
    let part = path.skip(end + 1);
    if 0 <= end < path.len() && (part.len() == 0 || (!verbatim && part == seq!['.'])) {
        last_part(path.take(end), style, verbatim)
    } else {
        part
    }
}

/// What stands behind the last dot of a file name. A leading dot starts no
/// extension, and `..` is not a file name.
pub open spec fn name_extension(name: Seq<char>) -> Option<Seq<char>> {
    let dot = last_at(name, '.', '.');
    if dot <= 0 || name == seq!['.', '.'] {
        None
    } else {
        Some(name.skip(dot + 1))
    }
}

/// The file name in a path.
pub open spec fn file_name(path: Seq<char>, style: PathStyle) -> Seq<char> {
    last_part(path.skip(body_start(path, style)), style, is_verbatim(path, style))
}

/// The extension of the file name in a path.
pub open spec fn extension_of(path: Seq<char>, style: PathStyle) -> Option<Seq<char>> {
    name_extension(file_name(path, style))
}

/// The media type that goes with an extension.
pub open spec fn mime_of(extension: Option<Seq<char>>) -> Seq<char> {
    match extension {
        None => "application/octet-stream"@,
        Some(e) => if e == "mp3"@ {
            "audio/mpeg"@
        } else if e == "wav"@ {
            "audio/wav"@
        } else if e == "flac"@ {
            "audio/flac"@
        } else if e == "ogg"@ {
            "audio/ogg"@
        } else if e == "m4a"@ || e == "aac"@ {
            "audio/mp4"@
        } else {
            "application/octet-stream"@
        },
    }
}

/// Whether `c` has the Unicode property `White_Space`.
pub fn is_whitespace(c: char) -> (white: bool)
    ensures
        white == is_white(c),
{
    ('\u{9}' <= c && c <= '\u{d}') || c == '\u{20}' || c == '\u{85}' || c == '\u{a0}' || c
        == '\u{1680}' || ('\u{2000}' <= c && c <= '\u{200a}') || c == '\u{2028}' || c == '\u{2029}'
        || c == '\u{202f}' || c == '\u{205f}' || c == '\u{3000}'
}

/// Whether two texts have the same characters.
pub fn same_text(a: &str, b: &str) -> (same: bool)
    ensures
        same == (a@ == b@),
{
    a.to_owned() == b.to_owned()
}

/// The characters of `s`.
fn chars_of(s: &str) -> (chars: Vec<char>)
    ensures
        chars@ == s@,
{
    let mut chars: Vec<char> = Vec::new();
    for c in it: s.chars()
        invariant
            chars@ == it.seq().take(it.index()),
            it.seq() == s@,
    {
        chars.push(c);
    }
    chars
}

/// Removes the white space at both ends of `s`.
pub fn trim(s: &str) -> (rest: &str)
    ensures
        rest@ == trimmed(s@),
{
    let chars = chars_of(s);
    let mut start: usize = 0;
    let mut end: usize = chars.len();
    proof {
        assert(s@.subrange(0, s@.len() as int) =~= s@);
    }
    while start < end && is_whitespace(chars[start])
        invariant
            chars@ == s@,
            start <= end,
            end == chars.len(),
            trimmed(s@) == trimmed(s@.subrange(start as int, end as int)),
        decreases end - start,
    {
        proof {
            assert(s@.subrange(start as int, end as int).drop_first() =~= s@.subrange(
                start + 1,
                end as int,
            ));
        }
        start = start + 1;
    }
    while start < end && is_whitespace(chars[end - 1])
        invariant
            chars@ == s@,
            start <= end <= chars.len(),
            start < end ==> !is_white(s@[start as int]),
            trimmed(s@) == trimmed(s@.subrange(start as int, end as int)),
        decreases end - start,
    {
        proof {
            assert(s@.subrange(start as int, end as int).drop_last() =~= s@.subrange(
                start as int,
                end - 1,
            ));
        }
        end = end - 1;
    }
    s.substring_char(start, end)
}

/// The position of the last `c` or `d` between `start` and `end`.
fn find_last(
    chars: &Vec<char>,
    start: usize,
    end: usize,
    c: char,
    d: char,
) -> (found: Option<usize>)
    requires
        start <= end <= chars.len(),
    ensures
        match found {
            Some(i) => start <= i < end && i == start + last_at(
                chars@.subrange(start as int, end as int),
                c,
                d,
            ),
            None => last_at(chars@.subrange(start as int, end as int), c, d) == -1,
        },
{
    let mut i: usize = end;
    while start < i
        invariant
            start <= i <= end <= chars.len(),
            last_at(chars@.subrange(start as int, end as int), c, d) == last_at(
                chars@.subrange(start as int, i as int),
                c,
                d,
            ),
        decreases i,
    {
        proof {
            assert(chars@.subrange(start as int, i as int).drop_last() =~= chars@.subrange(
                start as int,
                i - 1,
            ));
        }
        if chars[i - 1] == c || chars[i - 1] == d {
            return Some(i - 1);
        }
        i = i - 1;
    }
    None
}

/// The characters at which a part of a path ends.
fn path_separators(style: PathStyle, verbatim: bool) -> (marks: (char, char))
    ensures
        marks == separators(style, verbatim),
{
    match style {
        PathStyle::Unix => ('/', '/'),
        PathStyle::Windows => if verbatim {
            ('\\', '\\')
        } else {
            ('/', '\\')
        },
    }
}

/// Whether `c` separates the parts of paths.
fn separates(c: char, style: PathStyle) -> (yes: bool)
    ensures
        yes == is_separator(c, style),
{
    match style {
        PathStyle::Unix => c == '/',
        PathStyle::Windows => c == '/' || c == '\\',
    }
}

/// Whether the letter of a drive and its colon stand at `at`.
fn finds_drive(chars: &Vec<char>, at: usize) -> (yes: bool)
    requires
        at <= chars.len(),
    ensures
        yes == drive_at(chars@, at as int),
{
    chars.len() - at >= 2 && (('A' <= chars[at] && chars[at] <= 'Z') || ('a' <= chars[at]
        && chars[at] <= 'z')) && chars[at + 1] == ':'
}

/// Where the part that begins at `from` ends, on Windows.
fn find_part_end(chars: &Vec<char>, from: usize, verbatim: bool) -> (end: usize)
    requires
        from <= chars.len(),
    ensures
        end == part_end(chars@, from as int, verbatim),
        from <= end <= chars.len(),
{
    let mut end: usize = from;
    while end < chars.len() && chars[end] != '\\' && (chars[end] != '/' || verbatim)
        invariant
            from <= end <= chars.len(),
            part_end(chars@, from as int, verbatim) == part_end(chars@, end as int, verbatim),
        decreases chars.len() - end,
    {
        end = end + 1;
    }
    end
}

/// Where the share ends behind a server whose name begins at `from`.
fn find_share_end(chars: &Vec<char>, from: usize, verbatim: bool) -> (end: usize)
    requires
        from <= chars.len(),
    ensures
        end == share_end(chars@, from as int, verbatim),
        from <= end <= chars.len(),
{
    let server = find_part_end(chars, from, verbatim);
    if server == chars.len() {
        return server;
    }
    let share = find_part_end(chars, server + 1, verbatim);
    if server + 1 < share {
        share
    } else {
        server
    }
}

/// Whether a path begins with `\\?\`.
fn finds_verbatim(chars: &Vec<char>, style: PathStyle) -> (yes: bool)
    ensures
        yes == is_verbatim(chars@, style),
{
    match style {
        PathStyle::Unix => false,
        PathStyle::Windows => chars.len() >= 4 && chars[0] == '\\' && chars[1] == '\\'
            && chars[2] == '?' && chars[3] == '\\',
    }
}

/// How much of a path is no part of a name.
fn find_prefix_len(chars: &Vec<char>, style: PathStyle) -> (len: usize)
    ensures
        len == prefix_len(chars@, style),
        len <= chars.len(),
{
    match style {
        PathStyle::Unix => {
            return 0;
        },
        PathStyle::Windows => {},
    }
    if finds_verbatim(chars, style) {
        if chars.len() >= 8 && chars[4] == 'U' && chars[5] == 'N' && chars[6] == 'C' && separates(
            chars[7],
            style,
        ) {
            find_share_end(chars, 8, true)
        } else if finds_drive(chars, 4) && (chars.len() == 6 || separates(chars[6], style)) {
            6
        } else {
            find_part_end(chars, 4, true)
        }
    } else if chars.len() >= 2 && separates(chars[0], style) && separates(chars[1], style) {
        if chars.len() >= 4 && chars[2] == '.' && separates(chars[3], style) {
            find_part_end(chars, 4, false)
        } else {
            let server = find_part_end(chars, 2, false);
            let share = find_share_end(chars, 2, false);
            if 2 < server && server < share {
                share
            } else {
                0
            }
        }
    } else if finds_drive(chars, 0) {
        2
    } else {
        0
    }
}

/// The extension of the last part of a path that names something.
fn last_extension(path: &str, style: PathStyle, verbatim: bool) -> (found: Option<String>)
    ensures
        match found {
            Some(e) => name_extension(last_part(path@, style, verbatim)) == Some(e@),
            None => name_extension(last_part(path@, style, verbatim)) is None,
        },
{
    let (slash, other) = path_separators(style, verbatim);
    let chars = chars_of(path);
    let mut end: usize = chars.len();
    let mut start: usize = 0;
    let mut settled = false;
    proof {
        assert(path@.take(path@.len() as int) =~= path@);
    }
    while !settled
        invariant
            (slash, other) == separators(style, verbatim),
            chars@ == path@,
            start <= end <= chars.len(),
            !settled ==> last_part(path@, style, verbatim) == last_part(
                path@.take(end as int),
                style,
                verbatim,
            ),
            settled ==> last_part(path@, style, verbatim) == path@.subrange(
                start as int,
                end as int,
            ),
        decreases end, if settled { 0int } else { 1int },
    {
        let ghost head = path@.take(end as int);
        proof {
            assert(chars@.subrange(0, end as int) =~= head);
        }
        match find_last(&chars, 0, end, slash, other) {
            Some(at) => {
                proof {
                    assert(head.skip(at + 1) =~= path@.subrange(at + 1, end as int));
                    assert(head.take(at as int) =~= path@.take(at as int));
                }
                let empty = end - at == 1;
                let dot = !verbatim && end - at == 2 && chars[at + 1] == '.';
                proof {
                    let part = head.skip(at + 1);
                    assert(dot ==> part =~= seq!['.']);
                    assert(part == seq!['.'] ==> part.len() == 1 && part[0] == '.');
                }
                if empty || dot {
                    end = at;
                    start = 0;
                } else {
                    start = at + 1;
                    settled = true;
                }
            },
            None => {
                proof {
                    assert(head.skip(0) =~= head);
                }
                start = 0;
                settled = true;
            },
        }
    }
    let ghost name = last_part(path@, style, verbatim);
    let dots = end - start == 2 && chars[start] == '.' && chars[start + 1] == '.';
    proof {
        assert(dots ==> name =~= seq!['.', '.']);
        assert(name == seq!['.', '.'] ==> name.len() == 2 && name[0] == '.' && name[1] == '.');
    }
    match find_last(&chars, start, end, '.', '.') {
        Some(dot) => {
            if dot == start || dots {
                None
            } else {
                proof {
                    assert(name.skip(dot - start + 1) =~= path@.subrange(dot + 1, end as int));
                }
                Some(path.substring_char(dot + 1, end).to_owned())
            }
        },
        None => None,
    }
}

/// The extension of the file name in a path.
pub fn extension(path: &str, style: PathStyle) -> (found: Option<String>)
    ensures
        match found {
            Some(e) => extension_of(path@, style) == Some(e@),
            None => extension_of(path@, style) is None,
        },
{
    let chars = chars_of(path);
    let mut start: usize = find_prefix_len(&chars, style);
    let windows = match style {
        PathStyle::Unix => false,
        PathStyle::Windows => true,
    };
    if windows && start < chars.len() && separates(chars[start], style) {
        start = start + 1;
    }
    let body = path.substring_char(start, chars.len());
    proof {
        assert(body@ =~= path@.skip(body_start(path@, style)));
    }
    last_extension(body, style, finds_verbatim(&chars, style))
}

/// The media type under which a file of this name is served.
pub fn mime_for(name: &str, style: PathStyle) -> (mime: &'static str)
    ensures
        mime@ == mime_of(extension_of(name@, style)),
{
    match extension(name, style) {
        None => "application/octet-stream",
        Some(e) => {
            if same_text(&e, "mp3") {
                "audio/mpeg"
            } else if same_text(&e, "wav") {
                "audio/wav"
            } else if same_text(&e, "flac") {
                "audio/flac"
            } else if same_text(&e, "ogg") {
                "audio/ogg"
            } else if same_text(&e, "m4a") || same_text(&e, "aac") {
                "audio/mp4"
            } else {
                "application/octet-stream"
            }
        },
    }
}

} // verus!
