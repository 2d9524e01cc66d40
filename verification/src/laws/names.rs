//! Laws of names: trimming, room codes, and the names of stored files.
use crate::chance::is_uuid;
use crate::http::{is_room_code, room_code_chars, stored_name};
use crate::text::{
    body_start, extension_of, file_name, is_separator, is_verbatim, is_white, last_at, last_part,
    prefix_len, separators, trimmed, PathStyle,
};
use vstd::prelude::*;

verus! {

/// A trimmed text neither begins nor ends with white space.
pub proof fn law_trimmed_ends(s: Seq<char>)
    ensures
        trimmed(s).len() > 0 ==> !is_white(trimmed(s).first()) && !is_white(trimmed(s).last()),
        trimmed(s).len() <= s.len(),
    decreases s.len(),
{
    if s.len() > 0 {
        if is_white(s.first()) {
            law_trimmed_ends(s.drop_first());
        } else if is_white(s.last()) {
            law_trimmed_ends(s.drop_last());
        }
    }
}

/// Trimming a trimmed text changes nothing.
pub proof fn law_trimming_twice(s: Seq<char>)
    ensures
        trimmed(trimmed(s)) == trimmed(s),
{
    law_trimmed_ends(s);
}

/// A text that has a character other than white space is not empty when it is
/// trimmed, and a text that has none is.
pub proof fn law_blank_texts(s: Seq<char>)
    ensures
        (trimmed(s).len() == 0) == (forall|i: int|
            #![trigger s[i]]
            0 <= i < s.len() ==> is_white(s[i])),
    decreases s.len(),
{
    if s.len() > 0 {
        if is_white(s.first()) {
            let rest = s.drop_first();
            law_blank_texts(rest);
            assert forall|i: int| #![trigger s[i]]
                0 <= i < s.len() && (forall|j: int|
                    #![trigger rest[j]]
                    0 <= j < rest.len() ==> is_white(rest[j])) implies is_white(s[i]) by {
                if i > 0 {
                    assert(rest[i - 1] == s[i]);
                }
            }
            assert forall|j: int| #![trigger rest[j]]
                0 <= j < rest.len() && (forall|i: int|
                    #![trigger s[i]]
                    0 <= i < s.len() ==> is_white(s[i])) implies is_white(rest[j]) by {
                assert(rest[j] == s[j + 1]);
            }
        } else {
            assert(s[0] == s.first());
            if is_white(s.last()) {
                let rest = s.drop_last();
                law_blank_texts(rest);
                assert(rest.len() > 0);
                assert(rest[0] == s[0]);
            }
        }
    }
}

/// A room code is its own trimmed form.
pub proof fn law_room_code_is_trimmed(code: Seq<char>)
    requires
        is_room_code(code),
    ensures
        trimmed(code) == code,
{
    reveal_strlit("ABCDEFGHJKLMNPQRSTUVWXYZ23456789");
    assert(room_code_chars().contains(code[0]));
    assert(room_code_chars().contains(code[5]));
}

pub(crate) proof fn lemma_last_at_is_last(s: Seq<char>, c: char, d: char)
    ensures
        -1 <= last_at(s, c, d) < s.len(),
        last_at(s, c, d) >= 0 ==> s[last_at(s, c, d)] == c || s[last_at(s, c, d)] == d,
        forall|i: int| #![trigger s[i]] last_at(s, c, d) < i < s.len() ==> s[i] != c && s[i] != d,
    decreases s.len(),
{
    if s.len() > 0 && s.last() != c && s.last() != d {
        let rest = s.drop_last();
        lemma_last_at_is_last(rest, c, d);
        assert forall|i: int| #![trigger s[i]] last_at(s, c, d) < i < s.len() implies {
            s[i] != c && s[i] != d
        } by {
            if i < rest.len() {
                assert(rest[i] == s[i]);
            }
        }
    }
}

proof fn lemma_last_part_has_no_separator(path: Seq<char>, style: PathStyle, verbatim: bool)
    ensures
        forall|i: int|
            #![trigger last_part(path, style, verbatim)[i]]
            0 <= i < last_part(path, style, verbatim).len() ==> last_part(path, style, verbatim)[i]
                != separators(style, verbatim).0 && last_part(path, style, verbatim)[i]
                != separators(style, verbatim).1,
    decreases path.len(),
{
    let (c, d) = separators(style, verbatim);
    let end = last_at(path, c, d);
    let part = path.skip(end + 1);
    lemma_last_at_is_last(path, c, d);
    if 0 <= end < path.len() && (part.len() == 0 || (!verbatim && part == seq!['.'])) {
        lemma_last_part_has_no_separator(path.take(end), style, verbatim);
        assert(last_part(path, style, verbatim) == last_part(path.take(end), style, verbatim));
    } else {
        assert(last_part(path, style, verbatim) == part);
        assert forall|i: int| #![trigger part[i]] 0 <= i < part.len() implies {
            part[i] != c && part[i] != d
        } by {
            assert(part[i] == path[end + 1 + i]);
        }
    }
}

/// Whether the extension of a name holds no slash. In a verbatim path of
/// Windows a slash is no separator, so it can.
pub open spec fn has_plain_extension(name: Seq<char>, style: PathStyle) -> bool {
    is_verbatim(name, style) ==> (extension_of(name, style) matches Some(e) ==> !e.contains('/'))
}

/// What is behind the dot of a file name has neither a dot nor a separator.
proof fn lemma_extension_is_plain(path: Seq<char>, style: PathStyle)
    requires
        has_plain_extension(path, style),
    ensures
        extension_of(path, style) matches Some(e) ==> forall|i: int|
            #![trigger e[i]]
            0 <= i < e.len() ==> e[i] != '.' && !is_separator(e[i], style),
{
    let name = file_name(path, style);
    let dot = last_at(name, '.', '.');
    lemma_last_part_has_no_separator(
        path.skip(body_start(path, style)),
        style,
        is_verbatim(path, style),
    );
    lemma_last_at_is_last(name, '.', '.');
    if extension_of(path, style) is Some {
        let e = name.skip(dot + 1);
        assert forall|i: int| #![trigger e[i]] 0 <= i < e.len() implies {
            e[i] != '.' && !is_separator(e[i], style)
        } by {
            assert(e[i] == name[dot + 1 + i]);
        }
    }
}

/// The name under which bytes are stored is a single part of a path: it holds
/// no separator. A verbatim path of Windows is left out where its extension
/// holds a slash.
pub proof fn law_stored_name_is_one_part(uuid: Seq<char>, name: Seq<char>, style: PathStyle)
    requires
        is_uuid(uuid),
        has_plain_extension(name, style),
    ensures
        forall|i: int|
            #![trigger stored_name(uuid, name, style)[i]]
            0 <= i < stored_name(uuid, name, style).len() ==> !is_separator(
                stored_name(uuid, name, style)[i],
                style,
            ),
        !stored_name(uuid, name, style).contains('/'),
{
    let ext = match extension_of(name, style) {
        Some(e) => e,
        None => "bin"@,
    };
    reveal_strlit("bin");
    reveal_strlit(".");
    lemma_extension_is_plain(name, style);
    assert(forall|i: int|
        #![trigger ext[i]]
        0 <= i < ext.len() ==> ext[i] != '.' && !is_separator(ext[i], style));
    let stored = stored_name(uuid, name, style);
    assert(stored =~= uuid + seq!['.'] + ext);
    assert forall|i: int| #![trigger stored[i]] 0 <= i < stored.len() implies {
        !is_separator(stored[i], style)
    } by {
        if i < 36 {
            assert(stored[i] == uuid[i]);
        } else if i > 36 {
            assert(stored[i] == ext[i - 37]);
        }
    }
}

/// The bytes of a file are stored under its own extension, or under `bin` where
/// it has none. A verbatim path of Windows is left out where its extension holds
/// a slash.
pub proof fn law_stored_name_keeps_extension(uuid: Seq<char>, name: Seq<char>, style: PathStyle)
    requires
        is_uuid(uuid),
        has_plain_extension(name, style),
    ensures
        extension_of(stored_name(uuid, name, style), style) == match extension_of(name, style) {
            Some(e) => Some(e),
            None => Some("bin"@),
        },
{
    let ext = match extension_of(name, style) {
        Some(e) => e,
        None => "bin"@,
    };
    reveal_strlit("bin");
    reveal_strlit(".");
    lemma_extension_is_plain(name, style);
    assert(forall|i: int| #![trigger ext[i]] 0 <= i < ext.len() ==> ext[i] != '.');
    law_stored_name_is_one_part(uuid, name, style);
    let stored = stored_name(uuid, name, style);
    assert(stored =~= uuid + seq!['.'] + ext);
    assert(stored[0] == uuid[0] && stored[1] == uuid[1]);
    assert(prefix_len(stored, style) == 0);
    assert(body_start(stored, style) == 0);
    assert(!is_verbatim(stored, style));
    let end = last_at(stored, separators(style, false).0, separators(style, false).1);
    lemma_last_at_is_last(stored, separators(style, false).0, separators(style, false).1);
    assert(end == -1) by {
        if end >= 0 {
            assert(!is_separator(stored[end], style));
        }
    }
    assert(stored.skip(0) =~= stored);
    assert(file_name(stored, style) == stored);
    lemma_last_at_is_last(stored, '.', '.');
    assert(stored[36] == '.');
    let dot = last_at(stored, '.', '.');
    if dot > 36 {
        assert(stored[dot] == ext[dot - 37]);
    }
    assert(dot == 36);
    assert(stored.len() > 2);
    assert(stored.skip(37) =~= ext);
}

/// Different identifiers give different places, whatever the files are called.
pub proof fn law_stored_names_differ(
    a: Seq<char>,
    b: Seq<char>,
    name: Seq<char>,
    other: Seq<char>,
    style: PathStyle,
)
    requires
        is_uuid(a),
        is_uuid(b),
        a != b,
    ensures
        stored_name(a, name, style) != stored_name(b, other, style),
{
    let s = stored_name(a, name, style);
    let t = stored_name(b, other, style);
    if s == t {
        assert(s.take(36) =~= a);
        assert(t.take(36) =~= b);
    }
}

} // verus!
