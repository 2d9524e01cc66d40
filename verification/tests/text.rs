use minlabel_server::text::{extension, is_whitespace, mime_for, same_text, trim, PathStyle};

#[test]
fn media_types_follow_the_extension() {
    assert_eq!(mime_for("a.mp3", PathStyle::Unix), "audio/mpeg");
    assert_eq!(mime_for("a.wav", PathStyle::Unix), "audio/wav");
    assert_eq!(mime_for("a.flac", PathStyle::Unix), "audio/flac");
    assert_eq!(mime_for("a.ogg", PathStyle::Unix), "audio/ogg");
    assert_eq!(mime_for("a.m4a", PathStyle::Unix), "audio/mp4");
    assert_eq!(mime_for("a.aac", PathStyle::Unix), "audio/mp4");
    assert_eq!(mime_for("a.txt", PathStyle::Unix), "application/octet-stream");
    assert_eq!(mime_for("a", PathStyle::Unix), "application/octet-stream");
    assert_eq!(mime_for("a.WAV", PathStyle::Unix), "application/octet-stream");
    assert_eq!(mime_for("", PathStyle::Unix), "application/octet-stream");
}

/// What the standard library says of a path, for comparison.
fn std_extension(path: &str) -> Option<String> {
    std::path::Path::new(path)
        .extension()
        .and_then(|e| e.to_str())
        .map(|e| e.to_string())
}

#[test]
fn extensions_are_those_of_paths() {
    assert_eq!(extension("a.wav", PathStyle::Unix), Some("wav".to_string()));
    assert_eq!(extension("b.tar.gz", PathStyle::Unix), Some("gz".to_string()));
    assert_eq!(extension("a.", PathStyle::Unix), Some("".to_string()));
    assert_eq!(extension(".hidden", PathStyle::Unix), None);
    assert_eq!(extension(".hidden.wav", PathStyle::Unix), Some("wav".to_string()));
    assert_eq!(extension("..", PathStyle::Unix), None);
    assert_eq!(extension("...", PathStyle::Unix), Some("".to_string()));
    assert_eq!(extension("dir.d/name", PathStyle::Unix), None);
    assert_eq!(extension("dir/name.ogg/", PathStyle::Unix), Some("ogg".to_string()));
    assert_eq!(extension("dir/name.ogg/.", PathStyle::Unix), Some("ogg".to_string()));
    assert_eq!(extension("dir.x/..", PathStyle::Unix), None);
    assert_eq!(extension("录音.wav", PathStyle::Unix), Some("wav".to_string()));
    assert_eq!(extension("a.声", PathStyle::Unix), Some("声".to_string()));
}

#[test]
fn extensions_agree_with_std() {
    let parts = ["", ".", "..", "a", "a.b", ".b", "a.", "a..b", "/"];
    for x in parts {
        for y in parts {
            for z in parts {
                let joined = format!("{x}/{y}/{z}");
                let plain = format!("{x}{y}{z}");
                assert_eq!(extension(&joined, PathStyle::Unix), std_extension(&joined), "{joined}");
                assert_eq!(extension(&plain, PathStyle::Unix), std_extension(&plain), "{plain}");
            }
        }
    }
}

#[test]
fn windows_paths_have_another_separator() {
    let windows = |path: &str| extension(path, PathStyle::Windows);
    assert_eq!(windows("a.wav"), Some("wav".to_string()));
    assert_eq!(windows("a.b\\c"), None);
    assert_eq!(windows("a.b/c"), None);
    assert_eq!(windows("dir.d\\name.ogg"), Some("ogg".to_string()));
    assert_eq!(windows("dir/name.ogg\\"), Some("ogg".to_string()));
    assert_eq!(windows("C:name.ogg"), Some("ogg".to_string()));
    assert_eq!(windows("C:.ogg"), None);
    assert_eq!(windows("1:.ogg"), Some("ogg".to_string()));
    assert_eq!(windows("c:\\.."), None);
    assert_eq!(windows(""), None);
    assert_eq!(extension("a.b\\c", PathStyle::Unix), Some("b\\c".to_string()));
    assert_eq!(extension("C:.ogg", PathStyle::Unix), Some("ogg".to_string()));
    assert_eq!(mime_for("x.mp3\\a.wav", PathStyle::Windows), "audio/wav");
}

#[test]
fn windows_prefixes_are_no_names() {
    let windows = |path: &str| extension(path, PathStyle::Windows);
    let some = |e: &str| Some(e.to_string());
    // The share of a server.
    assert_eq!(windows(r"\\srv\share.wav"), None);
    assert_eq!(windows("//srv/share.wav"), None);
    assert_eq!(windows(r"\\srv\share.wav\a.ogg"), some("ogg"));
    assert_eq!(windows(r"\\srv\share.wav\.."), None);
    assert_eq!(windows(r"\\srv.wav"), some("wav"));
    assert_eq!(windows(r"\\srv.wav\"), some("wav"));
    assert_eq!(windows(r"\\srv\\a.wav"), some("wav"));
    assert_eq!(windows(r"\\\a\b.wav"), some("wav"));
    // A device.
    assert_eq!(windows(r"\\.\com.wav"), None);
    assert_eq!(windows("//./com.wav"), None);
    assert_eq!(windows(r"\\.\com\a.wav"), some("wav"));
    // A verbatim path, in which a slash separates nothing and a dot is a part.
    assert_eq!(windows(r"\\?\pics.wav"), None);
    assert_eq!(windows(r"\\?\pics\a.wav"), some("wav"));
    assert_eq!(windows(r"\\?\C:\a.b/c"), some("b/c"));
    assert_eq!(windows(r"\\?\C:/a.wav"), some("wav"));
    assert_eq!(windows(r"\\?\C:a.wav"), None);
    assert_eq!(windows(r"\\?\C:\a.wav\."), None);
    assert_eq!(windows(r"\\?\C:\a.wav\"), some("wav"));
    assert_eq!(windows(r"\\?\C:"), None);
    assert_eq!(windows(r"\\?\UNC\srv\share.wav"), None);
    assert_eq!(windows(r"\\?\UNC\srv\share\a.wav"), some("wav"));
    assert_eq!(windows(r"\\?\UNC\srv.wav"), None);
    assert_eq!(windows("//?/C:/a.wav"), some("wav"));
    assert_eq!(windows("//?/a.wav"), None);
    assert_eq!(mime_for(r"\\srv\share.wav", PathStyle::Windows), "application/octet-stream");
    // On Unix none of this is special.
    assert_eq!(extension(r"\\srv\share.wav", PathStyle::Unix), some("wav"));
    assert_eq!(extension("//srv/share.wav", PathStyle::Unix), some("wav"));
}

#[test]
fn white_space_is_that_of_unicode() {
    for n in 0u32..0x11_0000 {
        if let Some(c) = char::from_u32(n) {
            assert_eq!(is_whitespace(c), c.is_whitespace(), "{n:x}");
        }
    }
}

#[test]
fn trimming_takes_both_ends() {
    assert_eq!(trim("  alice\t\n"), "alice");
    assert_eq!(trim("a b"), "a b");
    assert_eq!(trim("\u{3000}张三\u{a0}"), "张三");
    assert_eq!(trim(" \r\n"), "");
    assert_eq!(trim(""), "");
    assert_eq!(trim("\u{200b}x"), "\u{200b}x");
}

#[test]
fn trimming_twice_is_trimming_once() {
    for s in ["", " ", " a ", "a", "\u{2028}x y\u{85}", "\t\t"] {
        assert_eq!(trim(trim(s)), trim(s));
        assert_eq!(trim(s), s.trim());
        assert_eq!(trim(s).is_empty(), s.chars().all(is_whitespace));
    }
}

#[test]
fn texts_are_compared_by_their_characters() {
    assert!(same_text("done", "done"));
    assert!(!same_text("done", "Done"));
    assert!(!same_text("", "a"));
}
