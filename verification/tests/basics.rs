//! Texts, bytes, paths and digests, held against the standard library and the
//! crates that do the work.
use nono_cli::bytes::{contains_subslice, split_bytes};
use nono_cli::command_policy::executable::{
    classify_executable_shape, classify_script, hex_text, sha256_hex, ResolvedExecutableKind,
};
use nono_cli::error::NonoError;
use nono_cli::harness::ipc::{response_words, ShimResponse};
use nono_cli::path_list::{contains_file, insert_into_set, sort_paths};
use nono_cli::paths::FilePath;
use nono_cli::text::{
    contains, decimal_text, eq_ignore_ascii_case, is_white_space, join_texts,
    signed_decimal_text, split_text, split_whitespace, starts_with, text_precedes,
    to_ascii_lowercase, trim, trim_end,
};
use sha2::Digest;

#[test]
fn white_space_is_what_the_standard_library_takes_it_for() {
    for number in 0..=0x10ffffu32 {
        if let Some(c) = char::from_u32(number) {
            assert_eq!(is_white_space(c), c.is_whitespace(), "{number:x}");
        }
    }
}

#[test]
fn words_are_what_stands_between_white_space() {
    for text in ["", "  ", "a", " a  b\tc\n", "\u{2003}x\u{a0}y", "no-space"] {
        assert_eq!(
            split_whitespace(text),
            text.split_whitespace().collect::<Vec<_>>()
        );
        assert_eq!(trim(text), text.trim());
        assert_eq!(trim_end(text), text.trim_end());
    }
}

#[test]
fn numbers_are_written_in_decimal() {
    for number in [0u128, 7, 10, 4096, u64::MAX as u128, u128::MAX] {
        assert_eq!(decimal_text(number), number.to_string());
    }
    for number in [0, 1, -1, i32::MAX, i32::MIN] {
        assert_eq!(signed_decimal_text(number), number.to_string());
    }
}

#[test]
fn texts_are_quoted_for_debugging() {
    for text in ["", "a", "a\"b\\c\n\t\0", "\u{7f}\u{200b}\u{fc}"] {
        let response = ShimResponse {
            exit_code: None,
            signal: None,
            spawn_error: Some(text.to_string()),
        };
        assert_eq!(response_words(&response), format!("{response:?}"));
    }
}

#[test]
fn texts_are_searched_and_split() {
    assert!(contains("abcabd", "abd"));
    assert!(contains("abc", ""));
    assert!(!contains("ab", "abc"));
    assert!(starts_with("abc", "ab"));
    assert!(!starts_with("ab", "abc"));
    for text in ["", "a", "a:b", ":a::b:"] {
        assert_eq!(
            split_text(text, ':'),
            text.split(':').collect::<Vec<_>>()
        );
    }
    assert_eq!(
        join_texts(&vec!["a".to_string(), "b".to_string()], "; "),
        "a; b"
    );
    assert_eq!(join_texts(&vec![], "; "), "");
    assert_eq!(to_ascii_lowercase("aBC\u{dc}"), "abc\u{dc}");
    assert!(eq_ignore_ascii_case("SeSSion", "session"));
    assert!(!eq_ignore_ascii_case("\u{dc}", "\u{fc}"));
}

#[test]
fn texts_are_ordered_as_the_standard_library_orders_them() {
    let texts = ["", "a", "ab", "b", "B", "\u{fc}", "\u{ffff}", "\u{10000}"];
    for a in texts {
        for b in texts {
            assert_eq!(text_precedes(a, b), a < b, "{a:?} {b:?}");
        }
    }
}

#[test]
fn bytes_become_texts() {
    let given: [&[u8]; 5] = [b"", b"abc", "\u{fc}\u{20ac}".as_bytes(), b"a\xffb", b"\xe2\x82"];
    for bytes in given {
        let path = FilePath {
            bytes: bytes.to_vec(),
        };
        assert_eq!(path.display(), String::from_utf8_lossy(bytes));
        let mut script = b"#!/bin/sh ".to_vec();
        script.extend_from_slice(bytes);
        let shape = classify_executable_shape(&FilePath::from_text("/x"), &script);
        match std::str::from_utf8(&script[2..]) {
            Ok(line) => {
                let words = line.split_whitespace().skip(1).collect::<Vec<_>>();
                assert_eq!(shape.expect("shape").interpreter_args, words);
            }
            Err(error) => assert_eq!(
                shape.expect_err("no text"),
                NonoError::ProfileParse(format!(
                    "script command '/x' has non-UTF-8 shebang: {error}"
                ))
            ),
        }
    }
}

#[test]
fn bytes_are_searched_and_split() {
    assert!(contains_subslice(b"aXbX", b"bX"));
    assert!(contains_subslice(b"", b""));
    assert!(!contains_subslice(b"ab", b"ba"));
    assert_eq!(
        split_bytes(b"a::b", b':'),
        vec![b"a".to_vec(), vec![], b"b".to_vec()]
    );
    assert_eq!(split_bytes(b"", b':'), vec![Vec::<u8>::new()]);
}

#[test]
fn digests_are_written_in_hexadecimal() {
    assert_eq!(hex_text(&[0x00, 0x0f, 0xa0, 0xff]), "000fa0ff");
    for contents in [b"".as_slice(), b"abc", b"#!/bin/sh\n"] {
        let expected = sha2::Sha256::digest(contents)
            .iter()
            .map(|byte| format!("{byte:02x}"))
            .collect::<String>();
        assert_eq!(sha256_hex(contents), expected);
    }
    assert_eq!(
        sha256_hex(b""),
        "e3b0c44298fc1c149afbf4c8996fb92427ae41e4649b934ca495991b7852b855"
    );
}

#[test]
fn executables_are_told_apart() {
    let at = FilePath::from_text("/bin/x");
    let kind = |contents: &[u8]| classify_executable_shape(&at, contents).expect("shape").kind;
    assert_eq!(kind(b"\x7fELF..."), ResolvedExecutableKind::Elf);
    assert_eq!(kind(b"plain"), ResolvedExecutableKind::Other);
    assert_eq!(kind(b""), ResolvedExecutableKind::Other);
    let script = classify_executable_shape(&at, b"#! /usr/bin/env  -S python3").expect("shape");
    assert_eq!(script.kind, ResolvedExecutableKind::ShebangScript);
    assert_eq!(script.interpreter, Some(FilePath::from_text("/usr/bin/env")));
    assert_eq!(script.interpreter_args, vec!["-S", "python3"]);
    assert!(classify_executable_shape(&at, b"#!\n").is_err());
    assert!(classify_executable_shape(&at, b"#!\xff\n").is_err());
    assert_eq!(
        classify_script(&at, Ok(" ".to_string())),
        Err(NonoError::ProfileParse(
            "script command '/bin/x' has an empty shebang".to_string()
        ))
    );
    assert_eq!(
        classify_script(&at, Err("why".to_string())),
        Err(NonoError::ProfileParse(
            "script command '/bin/x' has non-UTF-8 shebang: why".to_string()
        ))
    );
}

const SPELLED: [&str; 24] = [
    "", "/", "//", ".", "..", "./", "/.", "a", "a/", "/a", "./a", "../a", "a/b", "a//b", "a/./b",
    "a/../b", "/a/b/", "/a/b/.", "a.b", ".a", "a.", "a.b.c", "..a", "a/.",
];

#[test]
fn paths_are_taken_apart_as_the_standard_library_takes_them() {
    for spelled in SPELLED {
        let mine = FilePath::from_text(spelled);
        let theirs = std::path::Path::new(spelled);
        assert_eq!(mine.display(), theirs.display().to_string());
        assert_eq!(
            mine.parent().map(|parent| parent.display()),
            theirs.parent().map(|parent| parent.display().to_string()),
            "parent of {spelled:?}"
        );
        assert_eq!(
            mine.file_name(),
            theirs
                .file_name()
                .map(|name| name.to_string_lossy().as_bytes().to_vec()),
            "name of {spelled:?}"
        );
        for other in SPELLED {
            let yours = FilePath::from_text(other);
            let joined = theirs.join(other);
            assert_eq!(
                mine.join(&yours).display(),
                joined.display().to_string(),
                "{spelled:?} with {other:?}"
            );
            assert_eq!(
                mine.is_same(&yours),
                theirs == std::path::Path::new(other),
                "{spelled:?} and {other:?}"
            );
            assert_eq!(
                mine.comes_before(&yours),
                theirs < std::path::Path::new(other),
                "{spelled:?} before {other:?}"
            );
        }
    }
}

#[test]
fn paths_that_are_no_text_are_shown_all_the_same() {
    let path = FilePath {
        bytes: b"/a\xff".to_vec(),
    };
    assert_eq!(path.display(), "/a\u{fffd}");
}

#[test]
fn lists_of_paths_are_ordered_and_hold_a_file_once() {
    let paths = |list: &[&str]| {
        list.iter()
            .map(|spelled| FilePath::from_text(spelled))
            .collect::<Vec<_>>()
    };
    assert_eq!(
        sort_paths(paths(&["/b", "/a/c", "/a", "/a"])),
        paths(&["/a", "/a", "/a/c", "/b"])
    );
    let mut set = vec![];
    for spelled in ["/b", "/a", "/a/", "/a/./c", "/a/c"] {
        insert_into_set(&mut set, FilePath::from_text(spelled));
    }
    assert_eq!(set, paths(&["/a", "/a/./c", "/b"]));
    assert!(contains_file(&set, &FilePath::from_text("/a/c")));
    assert!(!contains_file(&set, &FilePath::from_text("/c")));
}

#[test]
fn errors_are_put_in_one_line() {
    let at = || FilePath::from_text("/x");
    let why = || "why".to_string();
    let lines = [
        (NonoError::ProfileParse(why()), "Profile parse error: why"),
        (NonoError::ConfigParse(why()), "Configuration parse error: why"),
        (
            NonoError::SandboxInit(why()),
            "Sandbox initialization failed: why",
        ),
        (NonoError::Setup(why()), "Setup error: why"),
        (NonoError::ExpectedFile(at()), "Expected a file: /x"),
        (NonoError::ExpectedDirectory(at()), "Expected a directory: /x"),
        (
            NonoError::PathCanonicalization {
                path: at(),
                source: why(),
            },
            "Failed to canonicalize path /x: why",
        ),
        (
            NonoError::ConfigRead {
                path: at(),
                source: why(),
            },
            "Failed to read /x: why",
        ),
        (
            NonoError::CommandExecution(why()),
            "Command execution failed: why",
        ),
    ];
    for (error, line) in lines {
        assert_eq!(error.message(), line);
        assert_eq!(error.clone(), error);
    }
}
