//! What the functions on text do: trimming, extensions and media types.
use crate::laws::names::lemma_last_at_is_last;
use crate::laws::words::{is_blank_char, is_inside, is_trim, lemma_trim};
use crate::text::{
    body_start, extension, file_name, is_separator, is_verbatim, is_whitespace, last_at, last_part,
    mime_for, part_end, prefix_len, same_text, separators, share_end, trim, PathStyle,
};
use vstd::prelude::*;

verus! {

/// White space are these code points.
pub proof fn law_white_space(c: char, white: bool)
    requires
        call_ensures(is_whitespace, (c,), white),
    ensures
        white == is_blank_char(c),
{
}

/// Trimming takes the white space from both ends, all of it and nothing else.
pub proof fn law_trimming_takes_white_space(s: &str, rest: &str)
    requires
        call_ensures(trim, (s,), rest),
    ensures
        is_trim(rest@, s@),
{
    lemma_trim(s@);
}

/// A text has one trimmed form.
pub proof fn law_one_trimmed_form(a: Seq<char>, b: Seq<char>, s: Seq<char>)
    requires
        is_trim(a, s),
        is_trim(b, s),
    ensures
        a == b,
{
    let (i, j) = choose|i: int, j: int| #[trigger] is_inside(a, s, i, j);
    let (k, l) = choose|i: int, j: int| #[trigger] is_inside(b, s, i, j);
    if a.len() > 0 {
        assert(s[i] == a[0]);
        assert(s[j - 1] == a[a.len() - 1]);
    }
    if b.len() > 0 {
        assert(s[k] == b[0]);
        assert(s[l - 1] == b[b.len() - 1]);
    }
    assert(a =~= b);
}

/// Two texts are the same exactly when their characters are.
pub proof fn law_same_texts(a: &str, b: &str, same: bool)
    requires
        call_ensures(same_text, (a, b), same),
    ensures
        same == (a@.len() == b@.len() && forall|i: int| 0 <= i < a@.len() ==> a@[i] == b@[i]),
{
    if forall|i: int| 0 <= i < a@.len() ==> a@[i] == b@[i] {
        if a@.len() == b@.len() {
            assert(a@ =~= b@);
        }
    }
}

/// The media type goes by the extension alone, in lower case: five kinds of
/// audio have one, and everything else is plain bytes.
pub proof fn law_media_types(name: &str, style: PathStyle, ext: Option<String>, mime: &'static str)
    requires
        call_ensures(extension, (name, style), ext),
        call_ensures(mime_for, (name, style), mime),
    ensures
        mime@ == "audio/mpeg"@ <==> ext is Some && ext->0@ == "mp3"@,
        mime@ == "audio/wav"@ <==> ext is Some && ext->0@ == "wav"@,
        mime@ == "audio/flac"@ <==> ext is Some && ext->0@ == "flac"@,
        mime@ == "audio/ogg"@ <==> ext is Some && ext->0@ == "ogg"@,
        mime@ == "audio/mp4"@ <==> ext is Some && (ext->0@ == "m4a"@ || ext->0@ == "aac"@),
        mime@ == "audio/mpeg"@ || mime@ == "audio/wav"@ || mime@ == "audio/flac"@ || mime@
            == "audio/ogg"@ || mime@ == "audio/mp4"@ || mime@ == "application/octet-stream"@,
{
    reveal_strlit("audio/mpeg");
    reveal_strlit("audio/wav");
    reveal_strlit("audio/flac");
    reveal_strlit("audio/ogg");
    reveal_strlit("audio/mp4");
    reveal_strlit("application/octet-stream");
    reveal_strlit("mp3");
    reveal_strlit("wav");
    reveal_strlit("flac");
    reveal_strlit("ogg");
    reveal_strlit("m4a");
    reveal_strlit("aac");
    assert("audio/mpeg"@.len() == 10 && "audio/flac"@.len() == 10);
    assert("audio/mpeg"@[6] == 'm' && "audio/flac"@[6] == 'f');
    assert("audio/wav"@.len() == 9 && "audio/ogg"@.len() == 9 && "audio/mp4"@.len() == 9);
    assert("audio/wav"@[6] == 'w' && "audio/ogg"@[6] == 'o' && "audio/mp4"@[6] == 'm');
    assert("application/octet-stream"@.len() == 24);
    assert("mp3"@.len() == 3 && "wav"@.len() == 3 && "ogg"@.len() == 3);
    assert("mp3"@[0] == 'm' && "mp3"@[1] == 'p' && "wav"@[0] == 'w' && "ogg"@[0] == 'o');
    assert("flac"@.len() == 4 && "m4a"@.len() == 3 && "aac"@.len() == 3);
    assert("m4a"@[0] == 'm' && "m4a"@[1] == '4' && "aac"@[0] == 'a');
}

/// Whether a text is a plain name: nothing in it separates parts or ends a
/// drive.
pub open spec fn is_plain_name(name: Seq<char>) -> bool {
    forall|i: int|
        #![trigger name[i]]
        0 <= i < name.len() ==> name[i] != '/' && name[i] != '\\' && name[i] != ':'
}

/// Whether the last dot of a name is at `d`.
pub open spec fn is_last_dot(name: Seq<char>, d: int) -> bool {
    &&& 0 <= d < name.len()
    &&& name[d] == '.'
    &&& forall|i: int| #![trigger name[i]] d < i < name.len() ==> name[i] != '.'
}

/// A plain name has no prefix and one part, itself.
proof fn lemma_plain_name(name: Seq<char>, style: PathStyle)
    requires
        is_plain_name(name),
    ensures
        file_name(name, style) == name,
        prefix_len(name, style) == 0,
        body_start(name, style) == 0,
{
    let (c, d) = separators(style, false);
    if name.len() >= 2 {
        assert(name[0] != '/' && name[0] != '\\');
        assert(name[1] != ':');
    }
    if name.len() > 0 {
        assert(name[0] != '/' && name[0] != '\\');
    }
    assert(prefix_len(name, style) == 0);
    assert(body_start(name, style) == 0);
    lemma_last_at_is_last(name, c, d);
    let end = last_at(name, c, d);
    assert(end == -1) by {
        if end >= 0 {
            assert(name[end] != '/' && name[end] != '\\');
        }
    }
    assert(name.skip(0) =~= name);
    assert(last_part(name, style, false) == name);
}

/// The extension of a plain name is what stands behind its last dot. There is
/// none without a dot, where the only dot is the first character, and in `..`.
pub proof fn law_extensions_of_names(
    name: &str,
    style: PathStyle,
    ext: Option<String>,
    d: int,
)
    requires
        is_plain_name(name@),
        call_ensures(extension, (name, style), ext),
    ensures
        is_last_dot(name@, d) && d > 0 && name@ != seq!['.', '.'] ==> ext is Some && ext->0@
            == name@.subrange(d + 1, name@.len() as int),
        is_last_dot(name@, 0) ==> ext is None,
        (forall|i: int| #![trigger name@[i]] 0 <= i < name@.len() ==> name@[i] != '.') ==> ext
            is None,
        name@ == seq!['.', '.'] ==> ext is None,
{
    lemma_plain_name(name@, style);
    lemma_last_at_is_last(name@, '.', '.');
    let dot = last_at(name@, '.', '.');
    if dot >= 0 {
        assert(name@[dot] == '.');
    }
    if is_last_dot(name@, d) {
        assert(dot == d) by {
            if dot < d {
                assert(name@[d] == '.');
            }
        }
        assert(name@.skip(d + 1) =~= name@.subrange(d + 1, name@.len() as int));
    }
    if is_last_dot(name@, 0) {
        assert(dot == 0) by {
            if dot < 0 {
                assert(name@[0] == '.');
            }
        }
    }
}

/// Behind a directory, a name has the extension that it has alone.
pub proof fn law_directories_make_no_difference(
    path: &str,
    dir: Seq<char>,
    separator: char,
    name: &str,
    style: PathStyle,
    ext: Option<String>,
    alone: Option<String>,
)
    requires
        path@ == dir.push(separator) + name@,
        separator == '/' || (style is Windows && separator == '\\'),
        style is Windows ==> dir.len() >= 2 && !is_separator(dir[0], style) && dir[1] != ':',
        is_plain_name(name@),
        name@.len() > 0,
        name@ != seq!['.'],
        call_ensures(extension, (path, style), ext),
        call_ensures(extension, (name, style), alone),
    ensures
        ext is Some == alone is Some,
        ext is Some ==> ext->0@ == alone->0@,
{
    let p = path@;
    let n = dir.len() as int;
    let (c, d) = separators(style, false);
    lemma_plain_name(name@, style);
    if style is Windows {
        assert(p[0] == dir[0]);
        assert(p[1] == dir[1]);
        assert(prefix_len(p, style) == 0);
        assert(!is_separator(p[0], style));
    }
    assert(body_start(p, style) == 0);
    assert(p.skip(0) =~= p);
    lemma_last_at_is_last(p, c, d);
    let end = last_at(p, c, d);
    assert(p[n] == separator);
    assert(end == n) by {
        if end > n {
            assert(p[end] == name@[end - n - 1]);
        }
    }
    assert(p.skip(n + 1) =~= name@);
    assert(!is_verbatim(p, style));
    assert(last_part(p, style, false) == name@);
}

/// A separator at the end, with or without a dot behind it, makes no
/// difference.
pub proof fn law_endings_make_no_difference(
    path: &str,
    stem: &str,
    dot: bool,
    ext: Option<String>,
    alone: Option<String>,
)
    requires
        path@ == if dot {
            stem@.push('/').push('.')
        } else {
            stem@.push('/')
        },
        call_ensures(extension, (path, PathStyle::Unix), ext),
        call_ensures(extension, (stem, PathStyle::Unix), alone),
    ensures
        ext is Some == alone is Some,
        ext is Some ==> ext->0@ == alone->0@,
{
    let p = path@;
    let n = stem@.len() as int;
    assert(p.skip(0) =~= p);
    assert(stem@.skip(0) =~= stem@);
    lemma_last_at_is_last(p, '/', '/');
    let end = last_at(p, '/', '/');
    assert(p[n] == '/');
    assert(end == n) by {
        if end > n {
            assert(p[end] == '.');
        }
    }
    assert(p.take(n) =~= stem@);
    if dot {
        assert(p.skip(n + 1) =~= seq!['.']);
    } else {
        assert(p.skip(n + 1).len() == 0);
    }
    assert(last_part(p, PathStyle::Unix, false) == last_part(stem@, PathStyle::Unix, false));
}

proof fn lemma_part_end(path: Seq<char>, from: int, end: int, verbatim: bool)
    requires
        0 <= from <= end <= path.len(),
        forall|i: int|
            #![trigger path[i]]
            from <= i < end ==> path[i] != '\\' && (path[i] != '/' || verbatim),
        end < path.len() ==> path[end] == '\\' || (path[end] == '/' && !verbatim),
    ensures
        part_end(path, from, verbatim) == end,
    decreases end - from,
{
    if from < end {
        assert(path[from] != '\\');
        lemma_part_end(path, from + 1, end, verbatim);
    }
}

/// The letter of a drive is no part of a name.
pub proof fn law_drives_make_no_difference(
    path: &str,
    letter: char,
    name: &str,
    ext: Option<String>,
    alone: Option<String>,
)
    requires
        'A' <= letter <= 'Z' || 'a' <= letter <= 'z',
        path@ == seq![letter, ':'] + name@,
        is_plain_name(name@),
        call_ensures(extension, (path, PathStyle::Windows), ext),
        call_ensures(extension, (name, PathStyle::Windows), alone),
    ensures
        ext is Some == alone is Some,
        ext is Some ==> ext->0@ == alone->0@,
{
    let p = path@;
    lemma_plain_name(name@, PathStyle::Windows);
    assert(p[0] == letter && p[1] == ':');
    assert(prefix_len(p, PathStyle::Windows) == 2);
    if name@.len() > 0 {
        assert(p[2] == name@[0]);
    }
    assert(p.skip(2) =~= name@);
    assert(name@.skip(0) =~= name@);
}

/// On Windows the share of a server is no name: alone it has no extension, and a
/// name behind it has the extension that it has alone.
pub proof fn law_shares_are_no_names(
    path: &str,
    server: Seq<char>,
    share: Seq<char>,
    rest: &str,
    ext: Option<String>,
    longer: &str,
    beneath: Option<String>,
    alone: Option<String>,
)
    requires
        is_plain_name(server),
        server.len() > 0,
        server != seq!['?'],
        server != seq!['.'],
        is_plain_name(share),
        share.len() > 0,
        path@ == seq!['\\', '\\'] + server + seq!['\\'] + share,
        longer@ == path@ + seq!['\\'] + rest@,
        is_plain_name(rest@),
        call_ensures(extension, (path, PathStyle::Windows), ext),
        call_ensures(extension, (longer, PathStyle::Windows), beneath),
        call_ensures(extension, (rest, PathStyle::Windows), alone),
    ensures
        ext is None,
        beneath is Some == alone is Some,
        beneath is Some ==> beneath->0@ == alone->0@,
{
    let m = path@.len() as int;
    assert(path@.take(m) =~= path@);
    lemma_share(path@, server, share);
    lemma_plain_name(rest@, PathStyle::Windows);
    assert(rest@.skip(0) =~= rest@);
    assert(path@.skip(m).len() == 0);
    assert(last_part(path@.skip(m), PathStyle::Windows, false).len() == 0);
    let l = longer@;
    assert(l.take(m) =~= path@);
    lemma_share(l, server, share);
    assert(l[m] == '\\');
    assert(l.skip(m + 1) =~= rest@);
}

proof fn lemma_share(l: Seq<char>, server: Seq<char>, share: Seq<char>)
    requires
        is_plain_name(server),
        server.len() > 0,
        server != seq!['?'],
        server != seq!['.'],
        is_plain_name(share),
        share.len() > 0,
        ({
            let m = 3 + server.len() + share.len();
            &&& l.len() >= m
            &&& l.take(m as int) == seq!['\\', '\\'] + server + seq!['\\'] + share
            &&& l.len() > m ==> l[m as int] == '\\'
        }),
    ensures
        prefix_len(l, PathStyle::Windows) == 3 + server.len() + share.len(),
        !is_verbatim(l, PathStyle::Windows),
{
    let n = server.len() as int;
    let m = 3 + n + share.len() as int;
    let p = seq!['\\', '\\'] + server + seq!['\\'] + share;
    assert forall|i: int| #![trigger l[i]] 0 <= i < m implies l[i] == p[i] by {
        assert(l.take(m)[i] == l[i]);
    }
    assert(l[0] == p[0] && l[1] == p[1]);
    assert(l[2] == server[0]);
    assert(l[2 + n] == '\\');
    assert forall|i: int| #![trigger l[i]] 2 <= i < 2 + n implies l[i] != '\\' && l[i] != '/' by {
        assert(l[i] == server[i - 2]);
    }
    assert forall|i: int| #![trigger l[i]] 3 + n <= i < m implies l[i] != '\\' && l[i] != '/' by {
        assert(l[i] == share[i - 3 - n]);
    }
    lemma_part_end(l, 2, 2 + n, false);
    lemma_part_end(l, 3 + n, m, false);
    assert(share_end(l, 2, false) == m);
    if l[2] == '?' && l[3] == '\\' {
        assert(n == 1);
        assert(server =~= seq!['?']);
    }
    if l[2] == '.' && (l[3] == '\\' || l[3] == '/') {
        assert(n == 1);
        assert(server =~= seq!['.']);
    }
}

/// On Windows, what directly follows `\\?\` or `\\.\` is no name, and has no
/// extension.
pub proof fn law_devices_are_no_names(path: &str, mark: char, device: Seq<char>, ext: Option<String>)
    requires
        mark == '?' || mark == '.',
        is_plain_name(device),
        path@ == seq!['\\', '\\', mark, '\\'] + device,
        call_ensures(extension, (path, PathStyle::Windows), ext),
    ensures
        ext is None,
{
    let p = path@;
    let m = p.len() as int;
    assert(p[0] == '\\' && p[1] == '\\' && p[2] == mark && p[3] == '\\');
    assert forall|i: int| #![trigger p[i]] 4 <= i < m implies p[i] != '\\' && p[i] != '/' && p[i]
        != ':' by {
        assert(p[i] == device[i - 4]);
    }
    lemma_part_end(p, 4, m, true);
    lemma_part_end(p, 4, m, false);
    assert(prefix_len(p, PathStyle::Windows) == m);
    assert(p.skip(m).len() == 0);
    assert(last_part(p.skip(m), PathStyle::Windows, is_verbatim(p, PathStyle::Windows)).len() == 0);
}

/// In a verbatim path of Windows, a name behind a drive, or behind the share of
/// a server, has the extension that it has alone.
pub proof fn law_verbatim_names(
    path: &str,
    letter: char,
    far: &str,
    server: Seq<char>,
    share: Seq<char>,
    name: &str,
    ext: Option<String>,
    remote: Option<String>,
    alone: Option<String>,
)
    requires
        'A' <= letter <= 'Z' || 'a' <= letter <= 'z',
        is_plain_name(name@),
        path@ == seq!['\\', '\\', '?', '\\', letter, ':', '\\'] + name@,
        is_plain_name(server),
        is_plain_name(share),
        share.len() > 0,
        far@ == seq!['\\', '\\', '?', '\\', 'U', 'N', 'C', '\\'] + server + seq!['\\'] + share
            + seq!['\\'] + name@,
        call_ensures(extension, (path, PathStyle::Windows), ext),
        call_ensures(extension, (far, PathStyle::Windows), remote),
        call_ensures(extension, (name, PathStyle::Windows), alone),
    ensures
        ext is Some == alone is Some,
        ext is Some ==> ext->0@ == alone->0@,
        remote is Some == alone is Some,
        remote is Some ==> remote->0@ == alone->0@,
{
    let p = path@;
    let f = far@;
    lemma_plain_name(name@, PathStyle::Windows);
    assert(name@.skip(0) =~= name@);
    lemma_verbatim_part(name@);
    assert(p[0] == '\\' && p[1] == '\\' && p[2] == '?' && p[3] == '\\');
    assert(p[4] == letter && p[5] == ':' && p[6] == '\\');
    assert(prefix_len(p, PathStyle::Windows) == 6);
    assert(p.skip(7) =~= name@);
    let n = server.len() as int;
    let m = 9 + n + share.len() as int;
    assert(f[0] == '\\' && f[1] == '\\' && f[2] == '?' && f[3] == '\\');
    assert(f[4] == 'U' && f[5] == 'N' && f[6] == 'C' && f[7] == '\\');
    assert(f[8 + n] == '\\' && f[m] == '\\');
    assert forall|i: int| #![trigger f[i]] 8 <= i < 8 + n implies f[i] != '\\' by {
        assert(f[i] == server[i - 8]);
    }
    assert forall|i: int| #![trigger f[i]] 9 + n <= i < m implies f[i] != '\\' by {
        assert(f[i] == share[i - 9 - n]);
    }
    lemma_part_end(f, 8, 8 + n, true);
    lemma_part_end(f, 9 + n, m, true);
    assert(prefix_len(f, PathStyle::Windows) == m);
    assert(f.skip(m + 1) =~= name@);
}

proof fn lemma_verbatim_part(name: Seq<char>)
    requires
        is_plain_name(name),
    ensures
        last_part(name, PathStyle::Windows, true) == name,
{
    lemma_last_at_is_last(name, '\\', '\\');
    let end = last_at(name, '\\', '\\');
    assert(end == -1) by {
        if end >= 0 {
            assert(name[end] != '\\');
        }
    }
    assert(name.skip(0) =~= name);
}

} // verus!
